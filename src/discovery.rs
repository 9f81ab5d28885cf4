//! The discovery protocol's decisions: which scan request to broadcast, and
//! what a daemon records and replies when a discovery message arrives.
use vstd::prelude::*;
use crate::addr::PeerAddr;
use crate::messages::RequestType;
use crate::names::{base_name, extract_file_name};
use crate::queries::string_views;
use crate::registry::{list_view, pushed, push_to_hash_map, records, value_position, Registry, RegistryItem};

verus! {

/// The share registry after a scan from `a`: each list that does not record
/// `a` yet gains the pair `(a, false)`; the others stay as they are.
pub open spec fn scan_registered(s: Seq<(Seq<char>, Seq<(PeerAddr, bool)>)>, a: PeerAddr) -> Seq<
    (Seq<char>, Seq<(PeerAddr, bool)>),
> {
    Seq::new(
        s.len(),
        |i: int|
            if records(s[i].1, a) {
                s[i]
            } else {
                (s[i].0, s[i].1.push((a, false)))
            },
    )
}

/// The base names of the shared paths whose list does not record `a`, in order.
pub open spec fn unseen_names(s: Seq<(Seq<char>, Seq<(PeerAddr, bool)>)>, a: PeerAddr) -> Seq<
    Seq<char>,
>
    decreases s.len(),
{
    if s.len() == 0 {
        Seq::empty()
    } else if records(s.last().1, a) {
        unseen_names(s.drop_last(), a)
    } else {
        unseen_names(s.drop_last(), a).push(base_name(s.last().0))
    }
}

/// The base names of all shared paths, in order.
pub open spec fn all_names(s: Seq<(Seq<char>, Seq<(PeerAddr, bool)>)>) -> Seq<Seq<char>> {
    s.map_values(|e: (Seq<char>, Seq<(PeerAddr, bool)>)| base_name(e.0))
}

/// The pairs a scan response adds to the download registry: each name, not downloading.
pub open spec fn offered(names: Seq<String>) -> Seq<(Seq<char>, bool)> {
    names.map_values(|n: String| (n@, false))
}

/// Records a scan from `remote_addr` and picks the files to advertise to it:
/// when `only_new` holds, those not yet advertised to it; else all.
fn register_scan(
    my_files_to_share_list: &mut Registry<String, PeerAddr>,
    remote_addr: PeerAddr,
    only_new: bool,
) -> (r: Vec<String>)
    requires
        old(my_files_to_share_list).wf(),
    ensures
        final(my_files_to_share_list).wf(),
        final(my_files_to_share_list)@ == scan_registered(old(my_files_to_share_list)@, remote_addr),
        only_new ==> string_views(r@) == unseen_names(old(my_files_to_share_list)@, remote_addr),
        !only_new ==> string_views(r@) == all_names(old(my_files_to_share_list)@),
{
    let ghost s = my_files_to_share_list@;
    let mut files_to_send: Vec<String> = Vec::new();
    let mut i: usize = 0;
    while i < my_files_to_share_list.len()
        invariant
            my_files_to_share_list.wf(),
            my_files_to_share_list@.len() == s.len(),
            i <= s.len(),
            forall|m: int| 0 <= m < i ==> my_files_to_share_list@[m] == scan_registered(s, remote_addr)[m],
            forall|m: int| i <= m < s.len() ==> my_files_to_share_list@[m] == s[m],
            only_new ==> string_views(files_to_send@) == unseen_names(s.subrange(0, i as int), remote_addr),
            !only_new ==> string_views(files_to_send@) == all_names(s.subrange(0, i as int)),
        decreases s.len() - i,
    {
        let ghost before = files_to_send@;
        let known = match value_position(my_files_to_share_list.list_at(i), &remote_addr) {
            Some(_) => true,
            None => false,
        };
        let name = extract_file_name(my_files_to_share_list.key_at(i).duplicate());
        proof {
            assert(s.subrange(0, i + 1).drop_last() =~= s.subrange(0, i as int));
            assert(s.subrange(0, i + 1).last() == s[i as int]);
            assert(all_names(s.subrange(0, i + 1)) =~= all_names(s.subrange(0, i as int)).push(
                base_name(s[i as int].0),
            ));
        }
        if !known || !only_new {
            files_to_send.push(name);
            proof {
                assert(string_views(files_to_send@) =~= string_views(before).push(name@));
            }
        }
        if !known {
            my_files_to_share_list.push_pair_at(i, remote_addr, false);
        } else {
            proof {
                assert(records(s[i as int].1, remote_addr));
            }
        }
        i = i + 1;
    }
    proof {
        assert(s.subrange(0, s.len() as int) =~= s);
        assert(my_files_to_share_list@ =~= scan_registered(s, remote_addr));
    }
    files_to_send
}

/// Records a `Scan` from `remote_addr`: each shared file not yet advertised to
/// it is recorded against it and named in the result.
pub fn filter_files_to_send(
    my_files_to_share_list: &mut Registry<String, PeerAddr>,
    remote_addr: PeerAddr,
) -> (r: Vec<String>)
    requires
        old(my_files_to_share_list).wf(),
    ensures
        final(my_files_to_share_list).wf(),
        final(my_files_to_share_list)@ == scan_registered(old(my_files_to_share_list)@, remote_addr),
        string_views(r@) == unseen_names(old(my_files_to_share_list)@, remote_addr),
{
    register_scan(my_files_to_share_list, remote_addr, true)
}

/// Records a `ScanAfterRestart` from `remote_addr`: each shared file not yet
/// advertised to it is recorded against it, and every shared file is named in
/// the result.
pub fn non_filter_files_to_send(
    my_files_to_share_list: &mut Registry<String, PeerAddr>,
    remote_addr: PeerAddr,
) -> (r: Vec<String>)
    requires
        old(my_files_to_share_list).wf(),
    ensures
        final(my_files_to_share_list).wf(),
        final(my_files_to_share_list)@ == scan_registered(old(my_files_to_share_list)@, remote_addr),
        string_views(r@) == all_names(old(my_files_to_share_list)@),
{
    register_scan(my_files_to_share_list, remote_addr, false)
}

/// Whether `addrs` holds `a`.
fn is_local(addrs: &Vec<PeerAddr>, a: PeerAddr) -> (r: bool)
    ensures
        r == addrs@.contains(a),
{
    let mut i: usize = 0;
    while i < addrs.len()
        invariant
            i <= addrs@.len(),
            forall|m: int| 0 <= m < i ==> addrs@[m] != a,
        decreases addrs@.len() - i,
    {
        if addrs[i] == a {
            return true;
        }
        i = i + 1;
    }
    false
}

/// Handles a discovery message from `remote_addr`. A message sent by this
/// machine itself (one of `local_addrs`) is ignored. A scan is recorded in
/// the share registry and answered with the names to advertise; a scan
/// response is recorded in the download registry, each name not downloading.
/// The result is the reply to send back, if any.
pub fn on_multicast_message(
    my_files_to_share_list: &mut Registry<String, PeerAddr>,
    foreign_files_to_download_list: &mut Registry<PeerAddr, String>,
    local_addrs: &Vec<PeerAddr>,
    remote_addr: PeerAddr,
    request: RequestType,
) -> (r: Option<RequestType>)
    requires
        old(my_files_to_share_list).wf(),
        old(foreign_files_to_download_list).wf(),
    ensures
        final(my_files_to_share_list).wf(),
        final(foreign_files_to_download_list).wf(),
        local_addrs@.contains(remote_addr) ==> r is None && final(my_files_to_share_list)@
            == old(my_files_to_share_list)@ && final(foreign_files_to_download_list)@ == old(
            foreign_files_to_download_list,
        )@,
        !local_addrs@.contains(remote_addr) ==> match request {
            RequestType::Scan => {
                &&& final(my_files_to_share_list)@ == scan_registered(
                    old(my_files_to_share_list)@,
                    remote_addr,
                )
                &&& final(foreign_files_to_download_list)@ == old(foreign_files_to_download_list)@
                &&& r is Some && r->Some_0 is ScanResponse
                &&& string_views(r->Some_0->ScanResponse_0@) == unseen_names(
                    old(my_files_to_share_list)@,
                    remote_addr,
                )
            },
            RequestType::ScanAfterRestart => {
                &&& final(my_files_to_share_list)@ == scan_registered(
                    old(my_files_to_share_list)@,
                    remote_addr,
                )
                &&& final(foreign_files_to_download_list)@ == old(foreign_files_to_download_list)@
                &&& r is Some && r->Some_0 is ScanResponse
                &&& string_views(r->Some_0->ScanResponse_0@) == all_names(
                    old(my_files_to_share_list)@,
                )
            },
            RequestType::ScanResponse(names) => {
                &&& final(my_files_to_share_list)@ == old(my_files_to_share_list)@
                &&& final(foreign_files_to_download_list)@ == pushed(
                    old(foreign_files_to_download_list)@,
                    remote_addr,
                    offered(names@),
                )
                &&& r is None
            },
        },
{
    if is_local(local_addrs, remote_addr) {
        return None;
    }
    match request {
        RequestType::Scan => {
            let files = filter_files_to_send(my_files_to_share_list, remote_addr);
            Some(RequestType::ScanResponse(files))
        },
        RequestType::ScanAfterRestart => {
            let files = non_filter_files_to_send(my_files_to_share_list, remote_addr);
            Some(RequestType::ScanResponse(files))
        },
        RequestType::ScanResponse(response) => {
            let mut tmp_v: Vec<(String, bool)> = Vec::new();
            let mut i: usize = 0;
            while i < response.len()
                invariant
                    i <= response@.len(),
                    list_view(tmp_v@) == offered(response@.subrange(0, i as int)),
                decreases response@.len() - i,
            {
                tmp_v.push((response[i].clone(), false));
                proof {
                    assert(offered(response@.subrange(0, i + 1)) =~= offered(
                        response@.subrange(0, i as int),
                    ).push((response@[i as int]@, false)));
                    assert(list_view(tmp_v@) =~= offered(response@.subrange(0, i + 1)));
                }
                i = i + 1;
            }
            proof {
                assert(response@.subrange(0, response@.len() as int) =~= response@);
            }
            push_to_hash_map(foreign_files_to_download_list, remote_addr, tmp_v);
            None
        },
    }
}

/// The discovery side's own state: whether no scan has been broadcast since
/// this daemon started.
pub struct DiscoveryState {
    pub after_restart: bool,
}

impl DiscoveryState {
    /// The state of a daemon that has just started.
    pub fn new() -> (r: DiscoveryState)
        ensures
            r.after_restart,
    {
        DiscoveryState { after_restart: true }
    }

    /// The scan request to broadcast now: `ScanAfterRestart` the first time,
    /// `Scan` after that.
    pub fn next_scan_request(&mut self) -> (r: RequestType)
        ensures
            old(self).after_restart ==> r is ScanAfterRestart,
            !old(self).after_restart ==> r is Scan,
            !final(self).after_restart,
    {
        if self.after_restart {
            self.after_restart = false;
            RequestType::ScanAfterRestart
        } else {
            RequestType::Scan
        }
    }
}

} // verus!
