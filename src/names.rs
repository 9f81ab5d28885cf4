//! Path handling: base names of shared files.
use vstd::prelude::*;

verus! {

/// Position just after the last `/` of `p`, or 0 when `p` holds none.
pub open spec fn base_start(p: Seq<char>) -> int
    decreases p.len(),
{
    if p.len() == 0 {
        0
    } else if p.last() == '/' {
        p.len() as int
    } else {
        base_start(p.drop_last())
    }
}

/// What follows the last `/` of `p`; all of `p` when it holds no `/`.
pub open spec fn base_name(p: Seq<char>) -> Seq<char> {
    p.subrange(base_start(p), p.len() as int)
}

/// `base_start` lies within `p`, nothing after it is a `/`, and the character
/// just before it is one.
pub proof fn lemma_base_start(p: Seq<char>)
    ensures
        0 <= base_start(p) <= p.len(),
        forall|j: int| base_start(p) <= j < p.len() ==> p[j] != '/',
        base_start(p) > 0 ==> p[base_start(p) - 1] == '/',
        !p.contains('/') ==> base_start(p) == 0,
    decreases p.len(),
{
    if p.len() > 0 && p.last() != '/' {
        lemma_base_start(p.drop_last());
        if base_start(p) > 0 {
            assert(p.drop_last()[base_start(p) - 1] == p[base_start(p) - 1]);
        }
        assert forall|j: int| base_start(p) <= j < p.len() implies p[j] != '/' by {
            if j < p.len() - 1 {
                assert(p.drop_last()[j] == p[j]);
            }
        }
    }
    if !p.contains('/') && base_start(p) > 0 {
        assert(p[base_start(p) - 1] == '/');
    }
}

/// The file name of a path: the text after its last `/`, or the whole path
/// when it holds no `/`.
pub fn extract_file_name(full_file_name: String) -> (r: String)
    ensures
        r@ == base_name(full_file_name@),
        !r@.contains('/'),
        !full_file_name@.contains('/') ==> r@ == full_file_name@,
{
    let s = full_file_name.as_str();
    let len = s.unicode_len();
    let ghost p = s@;
    let mut i: usize = len;
    // Walk back from the end until a `/` is met.
    while i > 0 && s.get_char(i - 1) != '/'
        invariant
            i <= len,
            len == p.len(),
            s@ == p,
            p == full_file_name@,
            forall|j: int| i <= j < len ==> p[j] != '/',
        decreases i,
    {
        i = i - 1;
    }
    proof {
        lemma_base_start(p);
        let b = base_start(p);
        if b > i {
            assert(p[b - 1] == '/');
        }
        if i > 0 && b < i {
            assert(p[i - 1] == '/');
        }
        assert(b == i);
        if p.contains('/') {
        } else {
            assert(b == 0);
        }
    }
    let tail = s.substring_char(i, len);
    let r = String::from_str(tail);
    proof {
        assert(r@ == base_name(p));
        if r@.contains('/') {
            let j = choose|j: int| 0 <= j < r@.len() && r@[j] == '/';
            assert(p[i + j] == '/');
        }
        if !p.contains('/') {
            assert(r@ =~= p);
        }
    }
    r
}

} // verus!
