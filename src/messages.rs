//! The messages the daemon exchanges: client commands and their replies,
//! discovery requests, and the descriptor of a requested chunk.
use vstd::prelude::*;

verus! {

/// A command from the local client.
#[derive(Debug)]
pub enum CommandType {
    /// Start sharing the file at this path.
    Share(String),
    /// Ask the other daemons which files they share.
    Scan,
    /// List the files that other daemons offer.
    Ls,
    /// Download the file of this name into this save path.
    Download(String, String),
    /// Show the transfers in flight.
    Status,
}

/// The daemon's reply to a client command.
#[derive(Debug)]
pub enum ResponseType {
    ShareScan,
    /// The files that other daemons offer, serialized.
    Ls(String),
    /// Whether the download was started.
    Download(bool),
    /// The transfers in flight, serialized.
    Status(String),
    Error(String),
}

/// A discovery message between daemons.
#[derive(Debug)]
pub enum RequestType {
    /// Ask for the shared files not yet advertised to the sender.
    Scan,
    /// Ask for every shared file: the sender has restarted.
    ScanAfterRestart,
    /// The names of shared files, in reply to a scan.
    ScanResponse(Vec<String>),
}

/// What a downloading daemon asks of a peer: chunk `index` (from 1) of the
/// file named `file_name`, cut into `peer_count` chunks.
#[derive(Debug)]
pub struct DownloadData {
    pub file_name: String,
    pub peer_count: u64,
    pub index: u64,
}

impl DownloadData {
    pub fn new(file_name: String, peer_count: u64, index: u64) -> (r: DownloadData)
        ensures
            r.file_name == file_name,
            r.peer_count == peer_count,
            r.index == index,
    {
        DownloadData { file_name, peer_count, index }
    }
}

} // verus!
