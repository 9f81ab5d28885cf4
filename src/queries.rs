//! Read-only questions put to the registries: which peers can serve a file,
//! and what the status and listing replies show.
use vstd::prelude::*;
use crate::addr::PeerAddr;
use crate::names::{base_name, extract_file_name};
use crate::registry::{key_index, keys_distinct, lemma_key_index, list_view, Registry};

verus! {

/// Whether some list of `s` holds the pair `(f, true)`: `f` is being
/// transferred from some peer.
pub open spec fn in_flight<A, B>(s: Seq<(A, Seq<(B, bool)>)>, f: B) -> bool {
    exists|i: int, j: int| 0 <= i < s.len() && 0 <= j < s[i].1.len() && s[i].1[j] == (f, true)
}

/// The keys of `s`, in order, whose list holds the pair `(f, false)`.
pub open spec fn holders<A, B>(s: Seq<(A, Seq<(B, bool)>)>, f: B) -> Seq<A>
    decreases s.len(),
{
    if s.len() == 0 {
        Seq::empty()
    } else {
        let rest = holders(s.drop_last(), f);
        if s.last().1.contains((f, false)) {
            rest.push(s.last().0)
        } else {
            rest
        }
    }
}

/// The values of `l` whose flag is set, in order.
pub open spec fn flagged<B>(l: Seq<(B, bool)>) -> Seq<B>
    decreases l.len(),
{
    if l.len() == 0 {
        Seq::empty()
    } else if l.last().1 {
        flagged(l.drop_last()).push(l.last().0)
    } else {
        flagged(l.drop_last())
    }
}

/// The values of `l` without their flags.
pub open spec fn unflagged<B>(l: Seq<(B, bool)>) -> Seq<B> {
    l.map_values(|p: (B, bool)| p.0)
}

/// The views of a list of strings.
pub open spec fn string_views(v: Seq<String>) -> Seq<Seq<char>> {
    v.map_values(|x: String| x@)
}

/// The peers from which `file_name` can be downloaded now: `None` when some
/// peer's record of it is mid-transfer, or when no peer records it; else every
/// peer that records it, each once, in registry order.
pub fn find_file(
    foreign_files_to_download_list: &Registry<PeerAddr, String>,
    file_name: String,
) -> (r: Option<Vec<PeerAddr>>)
    requires
        foreign_files_to_download_list.wf(),
    ensures
        match r {
            None => in_flight(foreign_files_to_download_list@, file_name@) || holders(
                foreign_files_to_download_list@,
                file_name@,
            ).len() == 0,
            Some(v) => !in_flight(foreign_files_to_download_list@, file_name@) && holders(
                foreign_files_to_download_list@,
                file_name@,
            ).len() > 0 && v@ == holders(foreign_files_to_download_list@, file_name@),
        },
{
    let ghost s = foreign_files_to_download_list@;
    let ghost f = file_name@;
    let mut actual_peers: Vec<PeerAddr> = Vec::new();
    let mut i: usize = 0;
    while i < foreign_files_to_download_list.len()
        invariant
            i <= s.len(),
            s == foreign_files_to_download_list@,
            f == file_name@,
            actual_peers@ == holders(s.subrange(0, i as int), f),
            forall|a: int, b: int|
                0 <= a < i && 0 <= b < s[a].1.len() ==> s[a].1[b] != (f, true),
        decreases s.len() - i,
    {
        let l = foreign_files_to_download_list.list_at(i);
        let ghost lv = list_view(l@);
        let mut found = false;
        let mut j: usize = 0;
        while j < l.len()
            invariant
                j <= l@.len(),
                i < s.len(),
                s == foreign_files_to_download_list@,
                lv == list_view(l@),
                lv == s[i as int].1,
                f == file_name@,
                found == (exists|b: int| 0 <= b < j && lv[b] == (f, false)),
                forall|b: int| 0 <= b < j ==> lv[b] != (f, true),
            decreases l@.len() - j,
        {
            assert(lv[j as int] == (l@[j as int].0@, l@[j as int].1));
            if l[j].0 == file_name {
                if l[j].1 {
                    proof {
                        assert(s[i as int].1[j as int] == (f, true));
                        assert(in_flight(s, f));
                    }
                    return None;
                }
                found = true;
            }
            j = j + 1;
        }
        proof {
            assert(s.subrange(0, i + 1).drop_last() =~= s.subrange(0, i as int));
            assert(s.subrange(0, i + 1).last() == s[i as int]);
        }
        if found {
            actual_peers.push(*foreign_files_to_download_list.key_at(i));
        }
        i = i + 1;
    }
    proof {
        assert(s.subrange(0, s.len() as int) =~= s);
    }
    if actual_peers.len() > 0 {
        Some(actual_peers)
    } else {
        None
    }
}

/// `r` lists each peer of `s` with the names it offers, flags left out, in order.
pub open spec fn is_listing(r: Seq<(PeerAddr, Vec<String>)>, s: Seq<(PeerAddr, Seq<(Seq<char>, bool)>)>) -> bool {
    &&& r.len() == s.len()
    &&& forall|i: int|
        0 <= i < r.len() ==> #[trigger] r[i].0 == s[i].0 && string_views(r[i].1@) == unflagged(s[i].1)
}

/// `r` lists each shared path of `s` with the peers being served it, in order.
pub open spec fn is_sharing_report(r: Seq<(String, Vec<PeerAddr>)>, s: Seq<(Seq<char>, Seq<(PeerAddr, bool)>)>) -> bool {
    &&& r.len() == s.len()
    &&& forall|i: int| 0 <= i < r.len() ==> #[trigger] r[i].0@ == s[i].0 && r[i].1@ == flagged(s[i].1)
}

/// `r` groups, by file name, the peers of `s` that a file is being downloaded from.
pub open spec fn is_downloading_report(r: Seq<(String, Vec<PeerAddr>)>, s: Seq<(PeerAddr, Seq<(Seq<char>, bool)>)>) -> bool {
    &&& keys_distinct(groups_view(r))
    &&& forall|i: int| 0 <= i < r.len() ==> #[trigger] r[i].1@.len() > 0
    &&& forall|f: Seq<char>| #[trigger] group_of(groups_view(r), f) == downloading_from(s, f)
}

/// Each peer of the download registry with the names it offers, flags left
/// out, in registry order.
pub fn remove_tuple_to_ls_response(foreign_files_to_download_list: &Registry<PeerAddr, String>) -> (r:
    Vec<(PeerAddr, Vec<String>)>)
    ensures
        r@.len() == foreign_files_to_download_list@.len(),
        forall|i: int|
            0 <= i < r@.len() ==> #[trigger] r@[i].0 == foreign_files_to_download_list@[i].0
                && string_views(r@[i].1@) == unflagged(foreign_files_to_download_list@[i].1),
{
    let ghost s = foreign_files_to_download_list@;
    let mut files_to_send: Vec<(PeerAddr, Vec<String>)> = Vec::new();
    let mut i: usize = 0;
    while i < foreign_files_to_download_list.len()
        invariant
            i <= s.len(),
            s == foreign_files_to_download_list@,
            files_to_send@.len() == i,
            forall|m: int|
                0 <= m < i ==> #[trigger] files_to_send@[m].0 == s[m].0 && string_views(
                    files_to_send@[m].1@,
                ) == unflagged(s[m].1),
        decreases s.len() - i,
    {
        let l = foreign_files_to_download_list.list_at(i);
        let ghost lv = list_view(l@);
        let mut names: Vec<String> = Vec::new();
        let mut j: usize = 0;
        while j < l.len()
            invariant
                j <= l@.len(),
                lv == list_view(l@),
                string_views(names@) == unflagged(lv.subrange(0, j as int)),
            decreases l@.len() - j,
        {
            let ghost before = names@;
            names.push(l[j].0.clone());
            proof {
                assert(lv[j as int] == (l@[j as int].0@, l@[j as int].1));
                assert(string_views(names@) =~= string_views(before).push(l@[j as int].0@));
                assert(unflagged(lv.subrange(0, j + 1)) =~= unflagged(lv.subrange(0, j as int)).push(
                    lv[j as int].0,
                ));
                assert(string_views(names@) =~= unflagged(lv.subrange(0, j + 1)));
            }
            j = j + 1;
        }
        proof {
            assert(lv.subrange(0, lv.len() as int) =~= lv);
        }
        files_to_send.push((*foreign_files_to_download_list.key_at(i), names));
        i = i + 1;
    }
    files_to_send
}

/// The peers in a list that are being served the file, in order.
fn flagged_values(l: &Vec<(PeerAddr, bool)>) -> (r: Vec<PeerAddr>)
    ensures
        r@ == flagged(list_view(l@)),
{
    let ghost lv = list_view(l@);
    let mut r: Vec<PeerAddr> = Vec::new();
    let mut j: usize = 0;
    while j < l.len()
        invariant
            j <= l@.len(),
            lv == list_view(l@),
            r@ == flagged(lv.subrange(0, j as int)),
        decreases l@.len() - j,
    {
        proof {
            assert(lv.subrange(0, j + 1).drop_last() =~= lv.subrange(0, j as int));
            assert(lv[j as int] == (l@[j as int].0, l@[j as int].1));
        }
        if l[j].1 {
            r.push(l[j].0);
        }
        j = j + 1;
    }
    proof {
        assert(lv.subrange(0, lv.len() as int) =~= lv);
    }
    r
}

/// Each shared path with the peers it is being sent to now, in registry order.
pub fn select_sharing_files_to_send(my_files_to_share_list: &Registry<String, PeerAddr>) -> (r: Vec<
    (String, Vec<PeerAddr>),
>)
    ensures
        r@.len() == my_files_to_share_list@.len(),
        forall|i: int|
            0 <= i < r@.len() ==> #[trigger] r@[i].0@ == my_files_to_share_list@[i].0 && r@[i].1@
                == flagged(my_files_to_share_list@[i].1),
{
    let ghost s = my_files_to_share_list@;
    let mut files_to_send: Vec<(String, Vec<PeerAddr>)> = Vec::new();
    let mut i: usize = 0;
    while i < my_files_to_share_list.len()
        invariant
            i <= s.len(),
            s == my_files_to_share_list@,
            files_to_send@.len() == i,
            forall|m: int|
                0 <= m < i ==> #[trigger] files_to_send@[m].0@ == s[m].0 && files_to_send@[m].1@
                    == flagged(s[m].1),
        decreases s.len() - i,
    {
        let peers = flagged_values(my_files_to_share_list.list_at(i));
        files_to_send.push((my_files_to_share_list.key_at(i).clone(), peers));
        i = i + 1;
    }
    files_to_send
}

/// The index of the first shared path whose base name is `f`, or -1.
pub open spec fn shared_index(s: Seq<(Seq<char>, Seq<(PeerAddr, bool)>)>, f: Seq<char>) -> int {
    if exists|i: int|
        0 <= i < s.len() && base_name(s[i].0) == f && forall|m: int|
            0 <= m < i ==> base_name(s[m].0) != f {
        choose|i: int|
            0 <= i < s.len() && base_name(s[i].0) == f && forall|m: int|
                0 <= m < i ==> base_name(s[m].0) != f
    } else {
        -1
    }
}

/// The full path of the shared file that a peer asks for by `file_name`: the
/// first shared path whose base name is `file_name`.
pub fn find_shared_path(my_files_to_share_list: &Registry<String, PeerAddr>, file_name: &String) -> (r:
    Option<String>)
    ensures
        match r {
            None => shared_index(my_files_to_share_list@, file_name@) == -1,
            Some(p) => shared_index(my_files_to_share_list@, file_name@) >= 0 && p@
                == my_files_to_share_list@[shared_index(my_files_to_share_list@, file_name@)].0,
        },
{
    let ghost s = my_files_to_share_list@;
    let mut i: usize = 0;
    while i < my_files_to_share_list.len()
        invariant
            i <= s.len(),
            s == my_files_to_share_list@,
            forall|m: int| 0 <= m < i ==> base_name(s[m].0) != file_name@,
        decreases s.len() - i,
    {
        let key = my_files_to_share_list.key_at(i);
        let name = extract_file_name(key.clone());
        if name == *file_name {
            proof {
                let c = shared_index(s, file_name@);
                assert(0 <= c < s.len());
                if c < i {
                    assert(base_name(s[c].0) != file_name@);
                }
                if c > i {
                    assert(base_name(s[i as int].0) == file_name@);
                }
            }
            return Some(key.clone());
        }
        i = i + 1;
    }
    None
}

/// How many times `p` occurs in `l`.
pub open spec fn count_of<B>(l: Seq<B>, p: B) -> nat
    decreases l.len(),
{
    if l.len() == 0 {
        0
    } else {
        count_of(l.drop_last(), p) + if l.last() == p {
            1nat
        } else {
            0nat
        }
    }
}

/// The peers downloading `f`: each key of `s` in order, once for each pair
/// `(f, true)` in its list.
pub open spec fn downloading_from<A, B>(s: Seq<(A, Seq<(B, bool)>)>, f: B) -> Seq<A>
    decreases s.len(),
{
    if s.len() == 0 {
        Seq::empty()
    } else {
        downloading_from(s.drop_last(), f) + Seq::new(count_of(s.last().1, (f, true)), |_i: int| s.last().0)
    }
}

/// The list grouped under `f`, or the empty list when `f` has no group.
pub open spec fn group_of<A, B>(g: Seq<(A, Seq<B>)>, f: A) -> Seq<B> {
    if key_index(g, f) >= 0 {
        g[key_index(g, f)].1
    } else {
        Seq::empty()
    }
}

/// The view of a grouping by file name.
pub open spec fn groups_view(g: Seq<(String, Vec<PeerAddr>)>) -> Seq<(Seq<char>, Seq<PeerAddr>)> {
    g.map_values(|e: (String, Vec<PeerAddr>)| (e.0@, e.1@))
}

/// Adds `k` to the group of `n`, or makes a new group `[k]` for `n`.
fn add_to_group(groups: &mut Vec<(String, Vec<PeerAddr>)>, n: &String, k: PeerAddr)
    requires
        keys_distinct(groups_view(old(groups)@)),
        forall|m: int| 0 <= m < old(groups)@.len() ==> #[trigger] old(groups)@[m].1@.len() > 0,
    ensures
        keys_distinct(groups_view(final(groups)@)),
        forall|m: int| 0 <= m < final(groups)@.len() ==> #[trigger] final(groups)@[m].1@.len() > 0,
        forall|f: Seq<char>|
            #[trigger] group_of(groups_view(final(groups)@), f) == if f == n@ {
                group_of(groups_view(old(groups)@), f).push(k)
            } else {
                group_of(groups_view(old(groups)@), f)
            },
{
    let ghost g = groups_view(groups@);
    let ghost e = groups@;
    let mut i: usize = 0;
    while i < groups.len()
        invariant
            i <= groups@.len(),
            g == groups_view(groups@),
            e == groups@,
            e == old(groups)@,
            keys_distinct(g),
            forall|m: int| 0 <= m < groups@.len() ==> #[trigger] groups@[m].1@.len() > 0,
            forall|m: int| 0 <= m < i ==> g[m].0 != n@,
        decreases groups@.len() - i,
    {
        if groups[i].0 == *n {
            let (name, mut peers) = groups.remove(i);
            let ghost p0 = peers@;
            peers.push(k);
            groups.insert(i, (name, peers));
            proof {
                assert(groups@ =~= e.update(i as int, (name, peers)));
                let h = groups_view(groups@);
                assert(h =~= g.update(i as int, (n@, p0.push(k))));
                assert(keys_distinct(h)) by {
                    assert forall|a: int, b: int| 0 <= a < b < h.len() implies h[a].0 != h[b].0 by {
                        assert(h[a].0 == g[a].0 && h[b].0 == g[b].0);
                    }
                }
                lemma_key_index(g, n@, i as int);
                lemma_key_index(h, n@, i as int);
                assert forall|f: Seq<char>|
                    #[trigger] group_of(h, f) == if f == n@ {
                        group_of(g, f).push(k)
                    } else {
                        group_of(g, f)
                    } by {
                    if f == n@ {
                        assert(g[i as int].1 == p0);
                        assert(h[i as int].1 == p0.push(k));
                    } else {
                        if key_index(g, f) >= 0 {
                            lemma_key_index(h, f, key_index(g, f));
                        } else {
                            if key_index(h, f) >= 0 {
                                assert(h[key_index(h, f)].0 == f);
                                assert(g[key_index(h, f)].0 == f);
                            }
                        }
                    }
                }
            }
            return;
        }
        i = i + 1;
    }
    let mut single: Vec<PeerAddr> = Vec::new();
    single.push(k);
    groups.push((n.clone(), single));
    proof {
        assert(single@ =~= seq![k]);
        let h = groups_view(groups@);
        assert(h =~= g.push((n@, seq![k])));
        assert(keys_distinct(h)) by {
            assert forall|a: int, b: int| 0 <= a < b < h.len() implies h[a].0 != h[b].0 by {
                if b < g.len() {
                    assert(h[a].0 == g[a].0 && h[b].0 == g[b].0);
                }
            }
        }
        lemma_key_index(h, n@, g.len() as int);
        assert forall|f: Seq<char>|
            #[trigger] group_of(h, f) == if f == n@ {
                group_of(g, f).push(k)
            } else {
                group_of(g, f)
            } by {
            if f == n@ {
                if key_index(g, f) >= 0 {
                    assert(g[key_index(g, f)].0 == f);
                }
                assert(group_of(g, f) == Seq::<PeerAddr>::empty());
                assert(seq![k] =~= Seq::<PeerAddr>::empty().push(k));
            } else {
                if key_index(g, f) >= 0 {
                    lemma_key_index(h, f, key_index(g, f));
                } else {
                    if key_index(h, f) >= 0 {
                        assert(h[key_index(h, f)].0 == f);
                        if key_index(h, f) < g.len() {
                            assert(g[key_index(h, f)].0 == f);
                        }
                    }
                }
            }
        }
    }
}

/// Each file being downloaded with the peers it is being downloaded from:
/// every name has one group, and its peers come in registry order, once for
/// each of their records of it that is mid-transfer.
pub fn select_downloading_files_to_send(foreign_files_to_download_list: &Registry<PeerAddr, String>) -> (r:
    Vec<(String, Vec<PeerAddr>)>)
    requires
        foreign_files_to_download_list.wf(),
    ensures
        keys_distinct(groups_view(r@)),
        forall|i: int| 0 <= i < r@.len() ==> #[trigger] r@[i].1@.len() > 0,
        forall|f: Seq<char>|
            #[trigger] group_of(groups_view(r@), f) == downloading_from(
                foreign_files_to_download_list@,
                f,
            ),
{
    let ghost s = foreign_files_to_download_list@;
    let mut groups: Vec<(String, Vec<PeerAddr>)> = Vec::new();
    proof {
        assert forall|f: Seq<char>|
            #[trigger] group_of(groups_view(groups@), f) == downloading_from(s.subrange(0, 0), f) by {
            assert(s.subrange(0, 0).len() == 0);
        }
    }
    let mut i: usize = 0;
    while i < foreign_files_to_download_list.len()
        invariant
            i <= s.len(),
            s == foreign_files_to_download_list@,
            keys_distinct(groups_view(groups@)),
            forall|m: int| 0 <= m < groups@.len() ==> #[trigger] groups@[m].1@.len() > 0,
            forall|f: Seq<char>|
                #[trigger] group_of(groups_view(groups@), f) == downloading_from(
                    s.subrange(0, i as int),
                    f,
                ),
        decreases s.len() - i,
    {
        let k = *foreign_files_to_download_list.key_at(i);
        let l = foreign_files_to_download_list.list_at(i);
        let ghost lv = list_view(l@);
        let ghost d = s.subrange(0, i as int);
        let mut j: usize = 0;
        proof {
            assert forall|f: Seq<char>|
                #[trigger] group_of(groups_view(groups@), f) == downloading_from(d, f) + Seq::new(
                    count_of(lv.subrange(0, 0), (f, true)),
                    |_i: int| k,
                ) by {
                assert(lv.subrange(0, 0).len() == 0);
                assert(downloading_from(d, f) + Seq::new(0, |_i: int| k) =~= downloading_from(d, f));
            }
        }
        while j < l.len()
            invariant
                j <= l@.len(),
                i < s.len(),
                lv == list_view(l@),
                lv == s[i as int].1,
                k == s[i as int].0,
                d == s.subrange(0, i as int),
                keys_distinct(groups_view(groups@)),
                forall|m: int| 0 <= m < groups@.len() ==> #[trigger] groups@[m].1@.len() > 0,
                forall|f: Seq<char>|
                    #[trigger] group_of(groups_view(groups@), f) == downloading_from(d, f) + Seq::new(
                        count_of(lv.subrange(0, j as int), (f, true)),
                        |_i: int| k,
                    ),
            decreases l@.len() - j,
        {
            let ghost g0 = groups_view(groups@);
            let ghost old_groups = groups@;
            proof {
                assert(lv.subrange(0, j + 1).drop_last() =~= lv.subrange(0, j as int));
                assert(lv[j as int] == (l@[j as int].0@, l@[j as int].1));
            }
            if l[j].1 {
                add_to_group(&mut groups, &l[j].0, k);
                proof {
                    assert forall|f: Seq<char>|
                        #[trigger] group_of(groups_view(groups@), f) == downloading_from(d, f) + Seq::new(
                            count_of(lv.subrange(0, j + 1), (f, true)),
                            |_i: int| k,
                        ) by {
                        let c = count_of(lv.subrange(0, j as int), (f, true));
                        if f == l@[j as int].0@ {
                            assert(Seq::new(c + 1, |_i: int| k) =~= Seq::new(c, |_i: int| k).push(k));
                            assert(group_of(g0, f) == downloading_from(d, f) + Seq::new(c, |_i: int| k));
                            assert((downloading_from(d, f) + Seq::new(c, |_i: int| k)).push(k)
                                =~= downloading_from(d, f) + Seq::new(c + 1, |_i: int| k));
                        } else {
                            assert(group_of(g0, f) == downloading_from(d, f) + Seq::new(c, |_i: int| k));
                        }
                    }
                }
            } else {
                proof {
                    assert forall|f: Seq<char>|
                        #[trigger] group_of(groups_view(groups@), f) == downloading_from(d, f) + Seq::new(
                            count_of(lv.subrange(0, j + 1), (f, true)),
                            |_i: int| k,
                        ) by {
                        assert(group_of(g0, f) == downloading_from(
                            d,
                            f,
                        ) + Seq::new(count_of(lv.subrange(0, j as int), (f, true)), |_i: int| k));
                    }
                }
            }
            j = j + 1;
        }
        proof {
            assert(lv.subrange(0, lv.len() as int) =~= lv);
            assert(s.subrange(0, i + 1).drop_last() =~= d);
            assert(s.subrange(0, i + 1).last() == s[i as int]);
            assert forall|f: Seq<char>|
                #[trigger] group_of(groups_view(groups@), f) == downloading_from(
                    s.subrange(0, i + 1),
                    f,
                ) by {
                assert(group_of(groups_view(groups@), f) == downloading_from(d, f) + Seq::new(
                    count_of(lv.subrange(0, lv.len() as int), (f, true)),
                    |_i: int| k,
                ));
            }
        }
        i = i + 1;
    }
    proof {
        assert(s.subrange(0, s.len() as int) =~= s);
    }
    groups
}

} // verus!
