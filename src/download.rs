//! The steps of downloading one chunk from one peer, as a machine that is
//! told what happened and answers with what to do next. The caller performs
//! each action: the network and file work, and the registry and counter
//! updates under their locks.
use vstd::prelude::*;
use crate::addr::PeerAddr;
use crate::messages::DownloadData;
use crate::queries::string_views;
use crate::transfer::{chunk_file_name, chunk_file_names, temp_name};

verus! {

/// What the caller does next for a chunk download.
#[derive(Debug)]
pub enum DownloadAction {
    /// Connect to the peer's transfer port and send it this request.
    Request(DownloadData),
    /// Set the flag of the peer's record of the file in the download registry.
    Mark(bool),
    /// Create this file and write into it what the peer sends, until it closes.
    Receive(String),
    /// Add one to the download's shared completion counter and report the
    /// value it held before.
    CountFinished,
    /// Create the first file, copy the others into it in order, then delete them.
    Reassemble(String, Vec<String>),
    /// Delete this file.
    Remove(String),
    /// The chunk's download is over, with success or not.
    Finish(bool),
}

/// What came of the last action.
#[derive(Debug)]
pub enum DownloadEvent {
    Succeeded,
    Failed,
    /// The value the completion counter held before this chunk added one.
    Counted(u64),
}

/// Which file is deleted once the registry record is cleared.
#[derive(Clone, Copy, Debug, PartialEq, Eq, Structural)]
pub enum Cleanup {
    Nothing,
    /// The chunk's own file.
    Chunk,
    /// The reassembled file.
    Whole,
}

/// Where a chunk download stands.
#[derive(Clone, Copy, Debug, PartialEq, Eq, Structural)]
pub enum Stage {
    Start,
    Requesting,
    Marking,
    Receiving,
    Counting,
    Reassembling,
    /// The registry record is being cleared; then the file named by the
    /// cleanup is deleted, and the download ends with the given success.
    Unmarking(Cleanup, bool),
    /// A file is being deleted; then the download ends with the given success.
    Removing(bool),
    Done(bool),
}

/// One chunk task of a download: chunk `index` (from 1) of `peer_count`,
/// asked of `peer`, of the file `file_name`, to be saved at `full_file_name`.
pub struct ChunkDownload {
    pub peer: PeerAddr,
    pub file_name: String,
    pub full_file_name: String,
    pub peer_count: u64,
    pub index: u64,
    pub stage: Stage,
}

impl ChunkDownload {
    /// Where the chunk's bytes are written: the final file when the download
    /// has a single chunk, else the chunk's temporary file.
    pub open spec fn target(&self) -> Seq<char> {
        if self.peer_count == 1 {
            self.full_file_name@
        } else {
            temp_name(self.index as nat)
        }
    }

    /// The same task: every field but the stage is kept.
    pub open spec fn same_task(&self, other: &ChunkDownload) -> bool {
        &&& self.peer == other.peer
        &&& self.file_name == other.file_name
        &&& self.full_file_name == other.full_file_name
        &&& self.peer_count == other.peer_count
        &&& self.index == other.index
    }

    /// Chunk `index` of `peer_count` of `file_name`, asked of `peer`, saved at
    /// `save_path` followed by `file_name`.
    pub fn new(peer: PeerAddr, file_name: String, save_path: String, peer_count: u64, index: u64) -> (r:
        ChunkDownload)
        requires
            1 <= index <= peer_count,
        ensures
            r.peer == peer,
            r.file_name == file_name,
            r.full_file_name@ == save_path@ + file_name@,
            r.peer_count == peer_count,
            r.index == index,
            r.stage == Stage::Start,
    {
        let full_file_name = save_path.concat(file_name.as_str());
        ChunkDownload { peer, file_name, full_file_name, peer_count, index, stage: Stage::Start }
    }

    /// The file the chunk is written to.
    pub fn target_name(&self) -> (r: String)
        ensures
            r@ == self.target(),
    {
        if self.peer_count == 1 {
            self.full_file_name.clone()
        } else {
            chunk_file_name(self.index)
        }
    }

    /// The first action: send the chunk request to the peer.
    pub fn start(&mut self) -> (r: DownloadAction)
        requires
            old(self).stage == Stage::Start,
        ensures
            final(self).same_task(old(self)),
            final(self).stage == Stage::Requesting,
            r is Request,
            r->Request_0.file_name == old(self).file_name,
            r->Request_0.peer_count == old(self).peer_count,
            r->Request_0.index == old(self).index,
    {
        self.stage = Stage::Requesting;
        DownloadAction::Request(
            DownloadData::new(self.file_name.clone(), self.peer_count, self.index),
        )
    }

    /// The next action, once the last one gave `event`. A task that has not
    /// started yet starts, whatever the event.
    pub fn next(&mut self, event: DownloadEvent) -> (r: DownloadAction)
        ensures
            final(self).same_task(old(self)),
            match old(self).stage {
                Stage::Requesting => if event is Succeeded {
                    r == DownloadAction::Mark(true) && final(self).stage == Stage::Marking
                } else {
                    r == DownloadAction::Finish(false) && final(self).stage == Stage::Done(false)
                },
                Stage::Marking => r is Receive && r->Receive_0@ == old(self).target()
                    && final(self).stage == Stage::Receiving,
                Stage::Receiving => if !(event is Succeeded) {
                    r == DownloadAction::Mark(false) && final(self).stage == Stage::Unmarking(
                        Cleanup::Chunk,
                        false,
                    )
                } else if old(self).peer_count == 1 {
                    r == DownloadAction::Mark(false) && final(self).stage == Stage::Unmarking(
                        Cleanup::Nothing,
                        true,
                    )
                } else {
                    r == DownloadAction::CountFinished && final(self).stage == Stage::Counting
                },
                Stage::Counting => if event is Counted && event->Counted_0 + 1
                    == old(self).peer_count {
                    &&& r is Reassemble
                    &&& r->Reassemble_0@ == old(self).full_file_name@
                    &&& string_views(r->Reassemble_1@) == Seq::new(
                        old(self).peer_count as nat,
                        |i: int| temp_name((i + 1) as nat),
                    )
                    &&& final(self).stage == Stage::Reassembling
                } else {
                    r == DownloadAction::Mark(false) && final(self).stage == Stage::Unmarking(
                        Cleanup::Nothing,
                        true,
                    )
                },
                Stage::Reassembling => if event is Succeeded {
                    r == DownloadAction::Mark(false) && final(self).stage == Stage::Unmarking(
                        Cleanup::Nothing,
                        true,
                    )
                } else {
                    r == DownloadAction::Mark(false) && final(self).stage == Stage::Unmarking(
                        Cleanup::Whole,
                        false,
                    )
                },
                Stage::Unmarking(Cleanup::Nothing, ok) => r == DownloadAction::Finish(ok)
                    && final(self).stage == Stage::Done(ok),
                Stage::Unmarking(Cleanup::Chunk, ok) => r is Remove && r->Remove_0@ == old(
                    self,
                ).target() && final(self).stage == Stage::Removing(ok),
                Stage::Unmarking(Cleanup::Whole, ok) => r is Remove && r->Remove_0@ == old(
                    self,
                ).full_file_name@ && final(self).stage == Stage::Removing(ok),
                Stage::Removing(ok) => r == DownloadAction::Finish(ok) && final(self).stage
                    == Stage::Done(ok),
                Stage::Done(ok) => r == DownloadAction::Finish(ok) && final(self).stage
                    == Stage::Done(ok),
                Stage::Start => {
                    &&& r is Request
                    &&& r->Request_0.file_name == old(self).file_name
                    &&& r->Request_0.peer_count == old(self).peer_count
                    &&& r->Request_0.index == old(self).index
                    &&& final(self).stage == Stage::Requesting
                },
            },
    {
        match self.stage {
            Stage::Requesting => match event {
                DownloadEvent::Succeeded => {
                    self.stage = Stage::Marking;
                    DownloadAction::Mark(true)
                },
                _ => {
                    self.stage = Stage::Done(false);
                    DownloadAction::Finish(false)
                },
            },
            Stage::Marking => {
                self.stage = Stage::Receiving;
                DownloadAction::Receive(self.target_name())
            },
            Stage::Receiving => match event {
                DownloadEvent::Succeeded => {
                    if self.peer_count == 1 {
                        self.stage = Stage::Unmarking(Cleanup::Nothing, true);
                        DownloadAction::Mark(false)
                    } else {
                        self.stage = Stage::Counting;
                        DownloadAction::CountFinished
                    }
                },
                _ => {
                    self.stage = Stage::Unmarking(Cleanup::Chunk, false);
                    DownloadAction::Mark(false)
                },
            },
            Stage::Counting => {
                let last = match event {
                    DownloadEvent::Counted(before) => self.peer_count >= 1 && before
                        == self.peer_count - 1,
                    _ => false,
                };
                if last {
                    self.stage = Stage::Reassembling;
                    let parts = chunk_file_names(self.peer_count);
                    proof {
                        assert(string_views(parts@) =~= Seq::new(
                            self.peer_count as nat,
                            |i: int| temp_name((i + 1) as nat),
                        ));
                    }
                    DownloadAction::Reassemble(self.full_file_name.clone(), parts)
                } else {
                    self.stage = Stage::Unmarking(Cleanup::Nothing, true);
                    DownloadAction::Mark(false)
                }
            },
            Stage::Reassembling => match event {
                DownloadEvent::Succeeded => {
                    self.stage = Stage::Unmarking(Cleanup::Nothing, true);
                    DownloadAction::Mark(false)
                },
                _ => {
                    self.stage = Stage::Unmarking(Cleanup::Whole, false);
                    DownloadAction::Mark(false)
                },
            },
            Stage::Unmarking(cleanup, ok) => match cleanup {
                Cleanup::Nothing => {
                    self.stage = Stage::Done(ok);
                    DownloadAction::Finish(ok)
                },
                Cleanup::Chunk => {
                    self.stage = Stage::Removing(ok);
                    DownloadAction::Remove(self.target_name())
                },
                Cleanup::Whole => {
                    self.stage = Stage::Removing(ok);
                    DownloadAction::Remove(self.full_file_name.clone())
                },
            },
            Stage::Removing(ok) => {
                self.stage = Stage::Done(ok);
                DownloadAction::Finish(ok)
            },
            Stage::Done(ok) => DownloadAction::Finish(ok),
            Stage::Start => self.start(),
        }
    }
}

} // verus!
