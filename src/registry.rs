//! The peer registries: from a key (a shared file's path, or a peer's address)
//! to an ordered list of `(value, flag)` pairs, where the flag marks a transfer
//! in flight.
use vstd::prelude::*;
use crate::addr::PeerAddr;

verus! {

/// What a registry holds as keys and values: it can be compared and copied
/// through its view.
pub trait RegistryItem: View + Sized {
    fn same(&self, other: &Self) -> (r: bool)
        ensures
            r == (self@ == other@),
    ;

    fn duplicate(&self) -> (r: Self)
        ensures
            r@ == self@,
    ;
}

impl RegistryItem for String {
    fn same(&self, other: &Self) -> (r: bool) {
        *self == *other
    }

    fn duplicate(&self) -> (r: Self) {
        self.clone()
    }
}

impl RegistryItem for PeerAddr {
    fn same(&self, other: &Self) -> (r: bool) {
        *self == *other
    }

    fn duplicate(&self) -> (r: Self) {
        *self
    }
}

/// The view of one list of a registry.
pub open spec fn list_view<V: View>(l: Seq<(V, bool)>) -> Seq<(V::V, bool)> {
    l.map_values(|p: (V, bool)| (p.0@, p.1))
}

/// No key occurs twice.
pub open spec fn keys_distinct<A, B>(s: Seq<(A, B)>) -> bool {
    forall|i: int, j: int| 0 <= i < j < s.len() ==> s[i].0 != s[j].0
}

/// The index of the entry for key `k`, or -1 when there is none.
pub open spec fn key_index<A, B>(s: Seq<(A, B)>, k: A) -> int {
    if exists|i: int| 0 <= i < s.len() && s[i].0 == k {
        choose|i: int| 0 <= i < s.len() && s[i].0 == k
    } else {
        -1
    }
}

/// The index of the first pair of `l` whose value is `v`, or -1 when there is none.
pub open spec fn value_index<A>(l: Seq<(A, bool)>, v: A) -> int {
    if exists|j: int|
        0 <= j < l.len() && l[j].0 == v && forall|m: int| 0 <= m < j ==> l[m].0 != v {
        choose|j: int|
            0 <= j < l.len() && l[j].0 == v && forall|m: int| 0 <= m < j ==> l[m].0 != v
    } else {
        -1
    }
}

/// Whether some pair of `l` has the value `v`.
pub open spec fn records<A>(l: Seq<(A, bool)>, v: A) -> bool {
    exists|j: int| 0 <= j < l.len() && l[j].0 == v
}

/// Whether the registry holds a pair with value `v` under key `k`.
pub open spec fn has_pair<A, B>(s: Seq<(A, Seq<(B, bool)>)>, k: A, v: B) -> bool {
    key_index(s, k) >= 0 && value_index(s[key_index(s, k)].1, v) >= 0
}

/// The flag of the first pair with value `v` under key `k`.
pub open spec fn flag_of<A, B>(s: Seq<(A, Seq<(B, bool)>)>, k: A, v: B) -> bool {
    s[key_index(s, k)].1[value_index(s[key_index(s, k)].1, v)].1
}

/// The registry with the flag of the first pair `(v, _)` under key `k` set to `action`.
pub open spec fn marked<A, B>(s: Seq<(A, Seq<(B, bool)>)>, k: A, v: B, action: bool) -> Seq<
    (A, Seq<(B, bool)>),
> {
    let i = key_index(s, k);
    let j = value_index(s[i].1, v);
    s.update(i, (s[i].0, s[i].1.update(j, (v, action))))
}

/// The registry with `vals` appended to the list of key `k`, or with a new
/// entry `(k, vals)` at its end when `k` is not a key yet.
pub open spec fn pushed<A, B>(s: Seq<(A, Seq<B>)>, k: A, vals: Seq<B>) -> Seq<(A, Seq<B>)> {
    let i = key_index(s, k);
    if i >= 0 {
        s.update(i, (s[i].0, s[i].1 + vals))
    } else {
        s.push((k, vals))
    }
}

/// With distinct keys, an index that holds key `k` is the one `key_index` picks.
pub proof fn lemma_key_index<A, B>(s: Seq<(A, B)>, k: A, i: int)
    requires
        keys_distinct(s),
        0 <= i < s.len(),
        s[i].0 == k,
    ensures
        key_index(s, k) == i,
{
}

/// The first index that holds value `v` is the one `value_index` picks.
pub proof fn lemma_value_index<A>(l: Seq<(A, bool)>, v: A, j: int)
    requires
        0 <= j < l.len(),
        l[j].0 == v,
        forall|m: int| 0 <= m < j ==> l[m].0 != v,
    ensures
        value_index(l, v) == j,
{
    let c = value_index(l, v);
    if c < j {
        assert(l[c].0 != v);
    }
    if c > j {
        assert(l[j].0 != v);
    }
}

/// A registry: keys in the order they were first added, each with its list
/// of `(value, flag)` pairs in the order they were appended.
pub struct Registry<K, V> {
    entries: Vec<(K, Vec<(V, bool)>)>,
}

impl<K: View, V: View> View for Registry<K, V> {
    type V = Seq<(K::V, Seq<(V::V, bool)>)>;

    closed spec fn view(&self) -> Self::V {
        self.entries@.map_values(|e: (K, Vec<(V, bool)>)| (e.0@, list_view(e.1@)))
    }
}

impl<K: RegistryItem, V: RegistryItem> Registry<K, V> {
    /// Keys are unique.
    pub open spec fn wf(&self) -> bool {
        keys_distinct(self@)
    }

    /// An empty registry.
    pub fn new() -> (r: Self)
        ensures
            r@ == Seq::<(K::V, Seq<(V::V, bool)>)>::empty(),
            r.wf(),
    {
        let r = Registry { entries: Vec::new() };
        assert(r@ =~= Seq::<(K::V, Seq<(V::V, bool)>)>::empty());
        r
    }

    /// The number of keys.
    pub fn len(&self) -> (r: usize)
        ensures
            r == self@.len(),
    {
        self.entries.len()
    }

    /// The index of the entry for `key`, if there is one.
    pub fn key_position(&self, key: &K) -> (r: Option<usize>)
        requires
            self.wf(),
        ensures
            match r {
                Some(i) => i < self@.len() && key_index(self@, key@) == i,
                None => key_index(self@, key@) == -1,
            },
    {
        let mut i: usize = 0;
        while i < self.entries.len()
            invariant
                i <= self.entries.len(),
                self.wf(),
                forall|m: int| 0 <= m < i ==> self@[m].0 != key@,
            decreases self.entries.len() - i,
        {
            if self.entries[i].0.same(key) {
                proof {
                    lemma_key_index(self@, key@, i as int);
                }
                return Some(i);
            }
            i = i + 1;
        }
        None
    }

    /// The key of entry `i`.
    pub fn key_at(&self, i: usize) -> (r: &K)
        requires
            i < self@.len(),
        ensures
            r@ == self@[i as int].0,
    {
        &self.entries[i].0
    }

    /// The list of entry `i`.
    pub fn list_at(&self, i: usize) -> (r: &Vec<(V, bool)>)
        requires
            i < self@.len(),
        ensures
            list_view(r@) == self@[i as int].1,
    {
        &self.entries[i].1
    }

    /// Appends the pair `(val, flag)` to the list of entry `i`.
    pub fn push_pair_at(&mut self, i: usize, val: V, flag: bool)
        requires
            old(self).wf(),
            i < old(self)@.len(),
        ensures
            final(self).wf(),
            final(self)@ == old(self)@.update(
                i as int,
                (old(self)@[i as int].0, old(self)@[i as int].1.push((val@, flag))),
            ),
    {
        let ghost s = self@;
        let ghost e = self.entries@;
        let (k, mut l) = self.entries.remove(i);
        let ghost l0 = l@;
        l.push((val, flag));
        self.entries.insert(i, (k, l));
        proof {
            assert(self.entries@ =~= e.update(i as int, (k, l)));
            assert(list_view(l@) =~= list_view(l0).push((val@, flag)));
            assert(self@ =~= s.update(i as int, (s[i as int].0, s[i as int].1.push((val@, flag)))));
        }
    }

    /// The list of `key`, if it is a key.
    pub fn get(&self, key: &K) -> (r: Option<&Vec<(V, bool)>>)
        requires
            self.wf(),
        ensures
            match r {
                Some(l) => key_index(self@, key@) >= 0 && list_view(l@) == self@[key_index(self@, key@)].1,
                None => key_index(self@, key@) == -1,
            },
    {
        match self.key_position(key) {
            Some(i) => Some(&self.entries[i].1),
            None => None,
        }
    }

    /// Whether a pair with value `val` stands under `key`.
    pub fn has_pair(&self, key: &K, val: &V) -> (r: bool)
        requires
            self.wf(),
        ensures
            r == has_pair(self@, key@, val@),
    {
        match self.key_position(key) {
            Some(i) => {
                let l = &self.entries[i].1;
                match value_position(l, val) {
                    Some(_) => true,
                    None => false,
                }
            },
            None => false,
        }
    }
}

/// The index of the first pair of `l` whose value is `v`, if there is one.
pub fn value_position<V: RegistryItem>(l: &Vec<(V, bool)>, v: &V) -> (r: Option<usize>)
    ensures
        match r {
            Some(j) => j < l@.len() && value_index(list_view(l@), v@) == j && l@[j as int].0@ == v@,
            None => value_index(list_view(l@), v@) == -1 && !records(list_view(l@), v@),
        },
{
    let ghost lv = list_view(l@);
    let mut j: usize = 0;
    while j < l.len()
        invariant
            j <= l.len(),
            lv == list_view(l@),
            forall|m: int| 0 <= m < j ==> lv[m].0 != v@,
        decreases l.len() - j,
    {
        if l[j].0.same(v) {
            proof {
                lemma_value_index(lv, v@, j as int);
            }
            return Some(j);
        }
        j = j + 1;
    }
    None
}

/// Sets the flag of the first pair with value `val` under `key` to `action`;
/// every other pair keeps its flag.
pub fn mark_unmark<K: RegistryItem, V: RegistryItem>(
    files_list: &mut Registry<K, V>,
    key: K,
    val: V,
    action: bool,
)
    requires
        old(files_list).wf(),
        has_pair(old(files_list)@, key@, val@),
    ensures
        final(files_list).wf(),
        final(files_list)@ == marked(old(files_list)@, key@, val@, action),
{
    let i = files_list.key_position(&key).unwrap();
    let ghost s = files_list@;
    let ghost e = files_list.entries@;
    let (k, mut l) = files_list.entries.remove(i);
    let ghost l0 = l@;
    assert(list_view(l0) == s[i as int].1);
    let j = value_position(&l, &val).unwrap();
    let (v, _) = l.remove(j);
    l.insert(j, (v, action));
    files_list.entries.insert(i, (k, l));
    proof {
        assert(l@ =~= l0.update(j as int, (v, action)));
        assert(files_list.entries@ =~= e.update(i as int, (k, l)));
        let t = marked(s, key@, val@, action);
        assert(v@ == val@);
        assert(list_view(l@) =~= t[i as int].1);
        assert(files_list@ =~= t);
    }
}

/// Appends the pairs of `val` to the list of `key`, or adds `key` with `val`
/// as its list when it is not a key yet.
pub fn push_to_hash_map<K: RegistryItem, V: RegistryItem>(
    files_list: &mut Registry<K, V>,
    key: K,
    val: Vec<(V, bool)>,
)
    requires
        old(files_list).wf(),
    ensures
        final(files_list).wf(),
        final(files_list)@ == pushed(old(files_list)@, key@, list_view(val@)),
{
    let ghost s = files_list@;
    let ghost e = files_list.entries@;
    let ghost vals = val@;
    match files_list.key_position(&key) {
        Some(i) => {
            let (k, mut l) = files_list.entries.remove(i);
            let ghost l0 = l@;
            let mut val = val;
            l.append(&mut val);
            files_list.entries.insert(i, (k, l));
            proof {
                assert(files_list.entries@ =~= e.update(i as int, (k, l)));
                assert(list_view(l@) =~= list_view(l0) + list_view(vals));
                assert(files_list@ =~= pushed(s, key@, list_view(vals)));
            }
        },
        None => {
            files_list.entries.push((key, val));
            proof {
                assert(files_list@ =~= s.push((key@, list_view(vals))));
                assert forall|m: int| 0 <= m < s.len() implies s[m].0 != key@ by {
                    if s[m].0 == key@ {
                        assert(exists|i: int| 0 <= i < s.len() && s[i].0 == key@);
                    }
                }
            }
        },
    }
}

/// Sets the flag of the first pair with value `val` under `key`; when there
/// is no such pair, appends `(val, flag)` to the list of `key` instead (adding
/// `key` when needed).
pub fn set_transfer_flag<K: RegistryItem, V: RegistryItem>(
    files_list: &mut Registry<K, V>,
    key: K,
    val: V,
    flag: bool,
)
    requires
        old(files_list).wf(),
    ensures
        final(files_list).wf(),
        has_pair(old(files_list)@, key@, val@) ==> final(files_list)@ == marked(
            old(files_list)@,
            key@,
            val@,
            flag,
        ),
        !has_pair(old(files_list)@, key@, val@) ==> final(files_list)@ == pushed(
            old(files_list)@,
            key@,
            seq![(val@, flag)],
        ),
{
    if files_list.has_pair(&key, &val) {
        mark_unmark(files_list, key, val, flag);
    } else {
        let mut one: Vec<(V, bool)> = Vec::new();
        one.push((val, flag));
        proof {
            assert(list_view(one@) =~= seq![(val@, flag)]);
        }
        push_to_hash_map(files_list, key, one);
    }
}

/// Setting the flag of a pair and then setting it back to the value it had
/// restores the registry exactly: the pair's flag and every other pair.
pub proof fn lemma_mark_unmark_round_trip<A, B>(
    s: Seq<(A, Seq<(B, bool)>)>,
    k: A,
    v: B,
    action: bool,
)
    requires
        keys_distinct(s),
        has_pair(s, k, v),
    ensures
        keys_distinct(marked(s, k, v, action)),
        has_pair(marked(s, k, v, action), k, v),
        flag_of(marked(s, k, v, action), k, v) == action,
        marked(marked(s, k, v, action), k, v, flag_of(s, k, v)) == s,
{
    let i = key_index(s, k);
    let l = s[i].1;
    let j = value_index(l, v);
    let t = marked(s, k, v, action);
    assert(s[i].0 == k);
    assert(l[j].0 == v);
    assert(keys_distinct(t)) by {
        assert forall|a: int, b: int| 0 <= a < b < t.len() implies t[a].0 != t[b].0 by {
            assert(t[a].0 == s[a].0 && t[b].0 == s[b].0);
        }
    }
    lemma_key_index(t, k, i);
    let tl = t[i].1;
    assert(tl == l.update(j, (v, action)));
    assert(0 <= j < l.len());
    assert forall|m: int| 0 <= m < j implies tl[m].0 != v by {
        assert(tl[m] == l[m]);
    }
    lemma_value_index(tl, v, j);
    let u = marked(t, k, v, flag_of(s, k, v));
    assert(u[i].1 =~= l);
    assert(u =~= s);
}

} // verus!
