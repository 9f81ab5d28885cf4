//! The local command dispatcher: what the daemon does with one client command.
use vstd::prelude::*;
use crate::addr::PeerAddr;
use crate::discovery::DiscoveryState;
use crate::download::{ChunkDownload, Stage};
use crate::messages::{CommandType, RequestType, ResponseType};
use crate::queries::{
    find_file, holders, in_flight, is_downloading_report, is_listing, is_sharing_report,
    remove_tuple_to_ls_response, select_downloading_files_to_send, select_sharing_files_to_send,
};
use crate::registry::{list_view, push_to_hash_map, pushed, Registry};
use crate::transfer::{eligible, filter_peers};

verus! {

/// What the caller does to carry out a client command.
pub enum CommandAction {
    /// Send this reply.
    Reply(ResponseType),
    /// Send this request to the discovery multicast group, then reply `ShareScan`.
    Broadcast(RequestType),
    /// Reply `Ls` with this listing, serialized.
    List(Vec<(PeerAddr, Vec<String>)>),
    /// Reply `Status` with these two reports, serialized: the files being sent
    /// and to whom, then the files being downloaded and from whom.
    Report(Vec<(String, Vec<PeerAddr>)>, Vec<(String, Vec<PeerAddr>)>),
    /// Run these chunk downloads in the background, then reply `Download(true)`.
    StartDownload(Vec<ChunkDownload>),
}

/// `tasks` download `file_name` into `save_path` from `peers`, one chunk each:
/// chunk `i + 1` of `peers.len()` from `peers[i]`.
pub open spec fn download_plan(tasks: Seq<ChunkDownload>, peers: Seq<PeerAddr>, file_name: Seq<char>, save_path: Seq<char>) -> bool {
    &&& tasks.len() == peers.len()
    &&& forall|i: int|
        0 <= i < tasks.len() ==> {
            &&& #[trigger] tasks[i].peer == peers[i]
            &&& tasks[i].file_name@ == file_name
            &&& tasks[i].full_file_name@ == save_path + file_name
            &&& tasks[i].peer_count == peers.len()
            &&& tasks[i].index == i + 1
            &&& tasks[i].stage == Stage::Start
        }
}

/// The chunk tasks that download `file_name` into `save_path` from `peers`.
pub fn download_tasks(peers: &Vec<PeerAddr>, file_name: &String, save_path: &String) -> (r: Vec<
    ChunkDownload,
>)
    ensures
        download_plan(r@, peers@, file_name@, save_path@),
{
    let n = peers.len();
    let mut tasks: Vec<ChunkDownload> = Vec::new();
    let mut i: usize = 0;
    while i < n
        invariant
            i <= n,
            n == peers@.len(),
            tasks@.len() == i,
            forall|m: int|
                0 <= m < i ==> {
                    &&& #[trigger] tasks@[m].peer == peers@[m]
                    &&& tasks@[m].file_name@ == file_name@
                    &&& tasks@[m].full_file_name@ == save_path@ + file_name@
                    &&& tasks@[m].peer_count == n
                    &&& tasks@[m].index == m + 1
                    &&& tasks@[m].stage == Stage::Start
                },
        decreases n - i,
    {
        let t = ChunkDownload::new(peers[i], file_name.clone(), save_path.clone(), n as u64, (i + 1) as u64);
        tasks.push(t);
        i = i + 1;
    }
    tasks
}

/// Carries out one client command on the registries. `Share` adds the path to
/// the share registry with no peers; `Scan` picks the discovery request to
/// broadcast; `Ls` and `Status` read the registries; `Download` starts a
/// download when the file can be had now, from as many of its holders as the
/// machine allows, and else replies `Download(false)`.
pub fn process_command(
    my_files_to_share_list: &mut Registry<String, PeerAddr>,
    foreign_files_to_download_list: &Registry<PeerAddr, String>,
    discovery: &mut DiscoveryState,
    command: CommandType,
) -> (r: CommandAction)
    requires
        old(my_files_to_share_list).wf(),
        foreign_files_to_download_list.wf(),
    ensures
        final(my_files_to_share_list).wf(),
        !(command is Share) ==> final(my_files_to_share_list)@ == old(my_files_to_share_list)@,
        !(command is Scan) ==> final(discovery).after_restart == old(discovery).after_restart,
        match command {
            CommandType::Share(path) => r == CommandAction::Reply(ResponseType::ShareScan)
                && final(my_files_to_share_list)@ == pushed(
                old(my_files_to_share_list)@,
                path@,
                Seq::empty(),
            ),
            CommandType::Scan => {
                &&& r is Broadcast
                &&& old(discovery).after_restart ==> r->Broadcast_0 is ScanAfterRestart
                &&& !old(discovery).after_restart ==> r->Broadcast_0 is Scan
                &&& !final(discovery).after_restart
            },
            CommandType::Ls => r is List && is_listing(r->List_0@, foreign_files_to_download_list@),
            CommandType::Status => {
                &&& r is Report
                &&& is_sharing_report(r->Report_0@, old(my_files_to_share_list)@)
                &&& is_downloading_report(r->Report_1@, foreign_files_to_download_list@)
            },
            CommandType::Download(file_name, save_path) => if in_flight(
                foreign_files_to_download_list@,
                file_name@,
            ) || holders(foreign_files_to_download_list@, file_name@).len() == 0 {
                r == CommandAction::Reply(ResponseType::Download(false))
            } else {
                &&& r is StartDownload
                &&& exists|n: int|
                    n >= 1 && download_plan(
                        r->StartDownload_0@,
                        eligible(holders(foreign_files_to_download_list@, file_name@), n),
                        file_name@,
                        save_path@,
                    )
            },
        },
{
    match command {
        CommandType::Share(file_name) => {
            let none: Vec<(PeerAddr, bool)> = Vec::new();
            proof {
                assert(list_view(none@) =~= Seq::<(PeerAddr, bool)>::empty());
            }
            push_to_hash_map(my_files_to_share_list, file_name, none);
            CommandAction::Reply(ResponseType::ShareScan)
        },
        CommandType::Scan => CommandAction::Broadcast(discovery.next_scan_request()),
        CommandType::Ls => CommandAction::List(
            remove_tuple_to_ls_response(foreign_files_to_download_list),
        ),
        CommandType::Status => CommandAction::Report(
            select_sharing_files_to_send(my_files_to_share_list),
            select_downloading_files_to_send(foreign_files_to_download_list),
        ),
        CommandType::Download(file_name, save_path) => {
            match find_file(foreign_files_to_download_list, file_name.clone()) {
                Some(ips) => {
                    let ips = filter_peers(ips.as_slice());
                    let tasks = download_tasks(&ips, &file_name, &save_path);
                    CommandAction::StartDownload(tasks)
                },
                None => CommandAction::Reply(ResponseType::Download(false)),
            }
        },
    }
}

} // verus!
