//! The chunked transfer engine's logic: how many peers a download uses,
//! which byte range each chunk covers, how a chunk is served, and the steps
//! of one chunk's download.
use vstd::prelude::*;
use crate::addr::PeerAddr;

verus! {

/// The largest number of bytes moved by one read or write of a chunk.
pub const BUFFER_SIZE: usize = 100000;

/// At most how many peers one download uses on a machine with `parallelism`
/// processing units: two are kept for other work, and at least one is used.
pub open spec fn peer_cap(parallelism: int) -> int {
    if parallelism - 2 >= 1 {
        parallelism - 2
    } else {
        1
    }
}

/// The peers that a download from `candidates` uses: the first ones, at most
/// `peer_cap(parallelism)` of them.
pub open spec fn eligible(candidates: Seq<PeerAddr>, parallelism: int) -> Seq<PeerAddr> {
    if candidates.len() <= peer_cap(parallelism) {
        candidates
    } else {
        candidates.subrange(0, peer_cap(parallelism))
    }
}

/// Keeps the first `max(1, parallelism - 2)` of `candidates`, in order.
pub fn select_eligible_peers(candidates: &[PeerAddr], parallelism: usize) -> (r: Vec<PeerAddr>)
    ensures
        r@ == eligible(candidates@, parallelism as int),
        r@.len() <= candidates@.len(),
        r@.len() <= peer_cap(parallelism as int),
        candidates@.len() > 0 ==> r@.len() > 0,
{
    let cap: usize = if parallelism >= 3 {
        parallelism - 2
    } else {
        1
    };
    let mut result: Vec<PeerAddr> = Vec::new();
    let mut i: usize = 0;
    while i < candidates.len() && i < cap
        invariant
            i <= candidates@.len(),
            i <= cap,
            cap == peer_cap(parallelism as int),
            result@ == candidates@.subrange(0, i as int),
        decreases candidates@.len() - i,
    {
        result.push(candidates[i]);
        proof {
            assert(result@ =~= candidates@.subrange(0, i + 1));
        }
        i = i + 1;
    }
    proof {
        if candidates@.len() <= cap {
            assert(result@ =~= candidates@);
        }
    }
    result
}

/// Relies on num_cpus::get: the number of processing units available to this
/// process, never less than 1.
#[verifier::external_body]
fn available_parallelism() -> (r: usize)
    ensures
        r >= 1,
{
    num_cpus::get()
}

/// The peers that a download from `actual_peers` uses on this machine: the
/// first `max(1, n - 2)` of them, where `n` is the number of processing units
/// available.
pub fn filter_peers(actual_peers: &[PeerAddr]) -> (r: Vec<PeerAddr>)
    ensures
        exists|n: int| n >= 1 && r@ == eligible(actual_peers@, n),
{
    let n = available_parallelism();
    select_eligible_peers(actual_peers, n)
}

/// The first byte of chunk `index` (from 1) of a file of `file_size` bytes cut
/// into `peer_count` chunks.
pub open spec fn chunk_start(file_size: int, peer_count: int, index: int) -> int {
    (file_size / peer_count) * (index - 1)
}

/// The length of chunk `index`: `file_size / peer_count`, but the last chunk
/// also takes the bytes that the division leaves over.
pub open spec fn chunk_length(file_size: int, peer_count: int, index: int) -> int {
    if index == peer_count {
        file_size - (file_size / peer_count) * (peer_count - 1)
    } else {
        file_size / peer_count
    }
}

/// Whether a chunk descriptor names a chunk that exists.
pub open spec fn valid_chunk(peer_count: int, index: int) -> bool {
    1 <= index <= peer_count
}

proof fn lemma_chunk_bounds(file_size: int, peer_count: int, index: int)
    requires
        file_size >= 0,
        valid_chunk(peer_count, index),
    ensures
        0 <= chunk_start(file_size, peer_count, index),
        0 <= chunk_length(file_size, peer_count, index),
        chunk_start(file_size, peer_count, index) + chunk_length(file_size, peer_count, index)
            <= file_size,
        (file_size / peer_count) * (peer_count - 1) <= file_size,
{
    let q = file_size / peer_count;
    assert(q >= 0) by (nonlinear_arith)
        requires
            file_size >= 0,
            peer_count >= 1,
            q == file_size / peer_count,
    ;
    assert(q * peer_count <= file_size) by (nonlinear_arith)
        requires
            file_size >= 0,
            peer_count >= 1,
            q == file_size / peer_count,
    ;
    assert(q * (index - 1) <= q * (peer_count - 1)) by (nonlinear_arith)
        requires
            q >= 0,
            1 <= index <= peer_count,
    ;
    assert(q * (peer_count - 1) + q == q * peer_count) by (nonlinear_arith);
    assert(0 <= q * (index - 1)) by (nonlinear_arith)
        requires
            q >= 0,
            index >= 1,
    ;
    if index < peer_count {
        assert(q * (index - 1) + q <= q * (peer_count - 1)) by (nonlinear_arith)
            requires
                q >= 0,
                index < peer_count,
                index >= 1,
        ;
    }
}

/// The byte range `(start, length)` of chunk `index` of a file of `file_size`
/// bytes cut into `peer_count` chunks; `None` when no such chunk exists.
pub fn chunk_range(file_size: u64, peer_count: u64, index: u64) -> (r: Option<(u64, u64)>)
    ensures
        match r {
            None => !valid_chunk(peer_count as int, index as int),
            Some((start, len)) => valid_chunk(peer_count as int, index as int) && start
                == chunk_start(file_size as int, peer_count as int, index as int) && len
                == chunk_length(file_size as int, peer_count as int, index as int) && start + len
                <= file_size,
        },
{
    if peer_count == 0 || index == 0 || index > peer_count {
        return None;
    }
    proof {
        lemma_chunk_bounds(file_size as int, peer_count as int, index as int);
    }
    let q = file_size / peer_count;
    let start = q * (index - 1);
    let len = if index == peer_count {
        file_size - q * (peer_count - 1)
    } else {
        q
    };
    Some((start, len))
}

/// How a chunk is sent: what is left of it, read and written in pieces of
/// at most `BUFFER_SIZE` bytes.
pub struct ChunkSender {
    pub remaining: u64,
}

/// What follows a read while sending a chunk.
#[derive(Debug, PartialEq, Eq, Structural)]
pub enum SendStep {
    /// Write the bytes read, then read again.
    Continue,
    /// Write the bytes read; the chunk is then complete.
    Done,
    /// The file ended before the chunk did.
    EarlyEnd,
}

impl ChunkSender {
    /// A sender of a chunk of `length` bytes.
    pub fn new(length: u64) -> (r: ChunkSender)
        ensures
            r.remaining == length,
    {
        ChunkSender { remaining: length }
    }

    /// How many bytes to read next: what is left, but at most `BUFFER_SIZE`.
    pub fn next_read_len(&self) -> (r: usize)
        ensures
            r as int == if self.remaining < BUFFER_SIZE {
                self.remaining as int
            } else {
                BUFFER_SIZE as int
            },
    {
        if self.remaining < BUFFER_SIZE as u64 {
            self.remaining as usize
        } else {
            BUFFER_SIZE
        }
    }

    /// Takes note that a read gave `n` bytes.
    pub fn record_read(&mut self, n: usize) -> (r: SendStep)
        requires
            n as int <= old(self).remaining,
        ensures
            old(self).remaining > 0 && n == 0 ==> r == SendStep::EarlyEnd && final(self).remaining
                == old(self).remaining,
            n > 0 ==> final(self).remaining == old(self).remaining - n,
            n > 0 && final(self).remaining == 0 ==> r == SendStep::Done,
            n > 0 && final(self).remaining > 0 ==> r == SendStep::Continue,
            old(self).remaining == 0 ==> r == SendStep::Done && final(self).remaining == 0,
    {
        if self.remaining == 0 {
            return SendStep::Done;
        }
        if n == 0 {
            return SendStep::EarlyEnd;
        }
        self.remaining = self.remaining - n as u64;
        if self.remaining == 0 {
            SendStep::Done
        } else {
            SendStep::Continue
        }
    }
}

/// The decimal digit `d`.
pub open spec fn digit_char(d: nat) -> char {
    if d == 0 {
        '0'
    } else if d == 1 {
        '1'
    } else if d == 2 {
        '2'
    } else if d == 3 {
        '3'
    } else if d == 4 {
        '4'
    } else if d == 5 {
        '5'
    } else if d == 6 {
        '6'
    } else if d == 7 {
        '7'
    } else if d == 8 {
        '8'
    } else {
        '9'
    }
}

/// `n` written in decimal, without leading zeros.
pub open spec fn decimal(n: nat) -> Seq<char>
    decreases n,
{
    if n < 10 {
        seq![digit_char(n)]
    } else {
        decimal(n / 10).push(digit_char(n % 10))
    }
}

/// The name of the file that holds chunk `index` until the file is reassembled.
pub open spec fn temp_name(index: nat) -> Seq<char> {
    seq!['o', 'u', 't', '_'] + decimal(index)
}

proof fn lemma_decimal_len(n: nat)
    ensures
        decimal(n).len() >= 1,
        n >= 10 ==> decimal(n).len() >= 2,
    decreases n,
{
    if n >= 10 {
        lemma_decimal_len(n / 10);
    }
}

/// Different numbers are written differently.
pub proof fn lemma_decimal_injective(a: nat, b: nat)
    requires
        decimal(a) == decimal(b),
    ensures
        a == b,
    decreases a,
{
    lemma_decimal_len(a);
    lemma_decimal_len(b);
    if a >= 10 && b >= 10 {
        assert(decimal(a).drop_last() == decimal(a / 10));
        assert(decimal(b).drop_last() == decimal(b / 10));
        lemma_decimal_injective(a / 10, b / 10);
        assert(decimal(a).last() == digit_char(a % 10));
        assert(decimal(b).last() == digit_char(b % 10));
    } else if a < 10 && b < 10 {
        assert(decimal(a)[0] == digit_char(a));
        assert(decimal(b)[0] == digit_char(b));
    }
}

/// Different chunks have different temporary files.
pub proof fn lemma_temp_name_injective(a: nat, b: nat)
    requires
        a != b,
    ensures
        temp_name(a) != temp_name(b),
{
    if temp_name(a) == temp_name(b) {
        assert(temp_name(a).subrange(4, temp_name(a).len() as int) =~= decimal(a));
        assert(temp_name(b).subrange(4, temp_name(b).len() as int) =~= decimal(b));
        lemma_decimal_injective(a, b);
    }
}

/// The digit `d` as text.
fn digit_str(d: u64) -> (r: &'static str)
    requires
        d < 10,
    ensures
        r@ == seq![digit_char(d as nat)],
{
    proof {
        reveal_strlit("0");
        reveal_strlit("1");
        reveal_strlit("2");
        reveal_strlit("3");
        reveal_strlit("4");
        reveal_strlit("5");
        reveal_strlit("6");
        reveal_strlit("7");
        reveal_strlit("8");
        reveal_strlit("9");
    }
    if d == 0 {
        "0"
    } else if d == 1 {
        "1"
    } else if d == 2 {
        "2"
    } else if d == 3 {
        "3"
    } else if d == 4 {
        "4"
    } else if d == 5 {
        "5"
    } else if d == 6 {
        "6"
    } else if d == 7 {
        "7"
    } else if d == 8 {
        "8"
    } else {
        "9"
    }
}

/// Appends `n` in decimal to `s`.
fn push_decimal(s: &mut String, n: u64)
    ensures
        final(s)@ == old(s)@ + decimal(n as nat),
    decreases n,
{
    if n >= 10 {
        push_decimal(s, n / 10);
    }
    s.append(digit_str(n % 10));
    proof {
        if n >= 10 {
            assert(final(s)@ =~= old(s)@ + decimal(n as nat));
        } else {
            assert(final(s)@ =~= old(s)@ + decimal(n as nat));
        }
    }
}

/// The name of the temporary file of chunk `index`.
pub fn chunk_file_name(index: u64) -> (r: String)
    ensures
        r@ == temp_name(index as nat),
{
    proof {
        reveal_strlit("out_");
    }
    let mut r = String::from_str("out_");
    push_decimal(&mut r, index);
    r
}

/// The temporary files of a download cut into `peer_count` chunks, in the
/// order the file is rebuilt from them: chunk 1 first, chunk `peer_count` last.
pub fn chunk_file_names(peer_count: u64) -> (r: Vec<String>)
    ensures
        r@.len() == peer_count,
        forall|i: int| 0 <= i < peer_count ==> #[trigger] r@[i]@ == temp_name((i + 1) as nat),
        forall|i: int, j: int| 0 <= i < j < peer_count ==> r@[i]@ != r@[j]@,
{
    let mut r: Vec<String> = Vec::new();
    let mut i: u64 = 0;
    while i < peer_count
        invariant
            i <= peer_count,
            r@.len() == i,
            forall|m: int| 0 <= m < i ==> #[trigger] r@[m]@ == temp_name((m + 1) as nat),
        decreases peer_count - i,
    {
        r.push(chunk_file_name(i + 1));
        i = i + 1;
    }
    proof {
        assert forall|a: int, b: int| 0 <= a < b < peer_count implies r@[a]@ != r@[b]@ by {
            lemma_temp_name_injective((a + 1) as nat, (b + 1) as nat);
        }
    }
    r
}

} // verus!
