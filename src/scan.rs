//! Byte-level scanning: searching for delimiters and splitting text into lines.
use vstd::prelude::*;

verus! {

/// Carriage return.
pub const CR: u8 = 13;

/// Line feed.
pub const LF: u8 = 10;

/// The first index `j >= i` at which `a` is immediately followed by `b`,
/// or the length of `t` when there is none.
pub open spec fn next_pair(t: Seq<u8>, i: int, a: u8, b: u8) -> int
    decreases t.len() - i,
{
    if i < 0 || i + 1 >= t.len() {
        t.len() as int
    } else if t[i] == a && t[i + 1] == b {
        i
    } else {
        next_pair(t, i + 1, a, b)
    }
}

/// The first index `j >= i` holding byte `b`, or the length of `t` when there is none.
pub open spec fn next_byte(t: Seq<u8>, i: int, b: u8) -> int
    decreases t.len() - i,
{
    if i < 0 || i >= t.len() {
        t.len() as int
    } else if t[i] == b {
        i
    } else {
        next_byte(t, i + 1, b)
    }
}

pub proof fn lemma_next_pair_bounds(t: Seq<u8>, i: int, a: u8, b: u8)
    requires
        0 <= i <= t.len(),
    ensures
        i <= next_pair(t, i, a, b) <= t.len(),
        next_pair(t, i, a, b) < t.len() ==> next_pair(t, i, a, b) + 1 < t.len() && t[next_pair(
            t,
            i,
            a,
            b,
        )] == a && t[next_pair(t, i, a, b) + 1] == b,
    decreases t.len() - i,
{
    if i + 1 < t.len() && !(t[i] == a && t[i + 1] == b) {
        lemma_next_pair_bounds(t, i + 1, a, b);
    }
}

pub proof fn lemma_next_byte_bounds(t: Seq<u8>, i: int, b: u8)
    requires
        0 <= i <= t.len(),
    ensures
        i <= next_byte(t, i, b) <= t.len(),
        next_byte(t, i, b) < t.len() ==> t[next_byte(t, i, b)] == b,
    decreases t.len() - i,
{
    if i < t.len() && t[i] != b {
        lemma_next_byte_bounds(t, i + 1, b);
    }
}

/// The lines of `t` from index `i` on, split on each CR LF; the last line is
/// whatever follows the final CR LF, possibly empty.
pub open spec fn lines_from(t: Seq<u8>, i: int) -> Seq<Seq<u8>>
    decreases t.len() - i,
    via lines_from_decreases
{
    let e = next_pair(t, i, CR, LF);
    if 0 <= i <= t.len() && e < t.len() {
        seq![t.subrange(i, e)] + lines_from(t, e + 2)
    } else {
        seq![t.subrange(i, t.len() as int)]
    }
}

#[via_fn]
proof fn lines_from_decreases(t: Seq<u8>, i: int) {
    if 0 <= i <= t.len() {
        lemma_next_pair_bounds(t, i, CR, LF);
    }
}

/// The lines of `t`, split on each CR LF.
pub open spec fn lines(t: Seq<u8>) -> Seq<Seq<u8>> {
    lines_from(t, 0)
}

/// Returns `next_pair(t@, from, a, b)`.
pub fn find_pair(t: &[u8], from: usize, a: u8, b: u8) -> (r: usize)
    requires
        from <= t@.len(),
    ensures
        r as int == next_pair(t@, from as int, a, b),
{
    let mut i: usize = from;
    while i < t.len() && i + 1 < t.len()
        invariant
            from <= i <= t@.len(),
            next_pair(t@, i as int, a, b) == next_pair(t@, from as int, a, b),
        decreases t@.len() - i,
    {
        if t[i] == a && t[i + 1] == b {
            return i;
        }
        i = i + 1;
    }
    t.len()
}

/// Returns `next_byte(t@, from, b)`.
pub fn find_byte(t: &[u8], from: usize, b: u8) -> (r: usize)
    requires
        from <= t@.len(),
    ensures
        r as int == next_byte(t@, from as int, b),
{
    let mut i: usize = from;
    while i < t.len()
        invariant
            from <= i <= t@.len(),
            next_byte(t@, i as int, b) == next_byte(t@, from as int, b),
        decreases t@.len() - i,
    {
        if t[i] == b {
            return i;
        }
        i = i + 1;
    }
    t.len()
}

/// Appends every byte of `src` to `out`.
pub fn push_bytes(out: &mut Vec<u8>, src: &[u8])
    ensures
        final(out)@ == old(out)@ + src@,
{
    let ghost start = out@;
    let mut i: usize = 0;
    while i < src.len()
        invariant
            i <= src@.len(),
            out@ == start + src@.subrange(0, i as int),
        decreases src@.len() - i,
    {
        out.push(src[i]);
        i = i + 1;
        assert(out@ =~= start + src@.subrange(0, i as int));
    }
    assert(src@.subrange(0, i as int) =~= src@);
}

} // verus!

verus! {

/// Whether two byte strings are equal.
pub fn bytes_eq(a: &[u8], b: &[u8]) -> (r: bool)
    ensures
        r == (a@ == b@),
{
    if a.len() != b.len() {
        return false;
    }
    let mut i: usize = 0;
    while i < a.len()
        invariant
            a@.len() == b@.len(),
            i <= a@.len(),
            forall|j: int| 0 <= j < i ==> a@[j] == b@[j],
        decreases a@.len() - i,
    {
        if a[i] != b[i] {
            return false;
        }
        i = i + 1;
    }
    assert(a@ =~= b@);
    true
}

/// Whether `t` begins with `p`.
pub fn starts_with(t: &[u8], p: &[u8]) -> (r: bool)
    ensures
        r == (p@.len() <= t@.len() && t@.subrange(0, p@.len() as int) == p@),
{
    if p.len() > t.len() {
        return false;
    }
    bytes_eq(vstd::slice::slice_subrange(t, 0, p.len()), p)
}

} // verus!
