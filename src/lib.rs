//! Core of a serverless file-sharing daemon: the peer registries, the
//! discovery protocol's decisions and the chunked transfer engine.
pub mod addr;
pub mod discovery;
pub mod dispatch;
pub mod download;
pub mod messages;
pub mod names;
pub mod queries;
pub mod registry;
pub mod transfer;

pub use addr::PeerAddr;
pub use discovery::{filter_files_to_send, non_filter_files_to_send, on_multicast_message, DiscoveryState};
pub use dispatch::{download_tasks, process_command, CommandAction};
pub use download::{ChunkDownload, Cleanup, DownloadAction, DownloadEvent, Stage};
pub use messages::{CommandType, DownloadData, RequestType, ResponseType};
pub use names::extract_file_name;
pub use queries::{
    find_file, find_shared_path, remove_tuple_to_ls_response, select_downloading_files_to_send,
    select_sharing_files_to_send,
};
pub use registry::{mark_unmark, push_to_hash_map, set_transfer_flag, Registry, RegistryItem};
pub use transfer::{
    chunk_file_name, chunk_file_names, chunk_range, filter_peers, select_eligible_peers,
    ChunkSender, SendStep, BUFFER_SIZE,
};
