//! Text in requests: UTF-8 validity, and the lower-casing of header names.
use vstd::prelude::*;
use vstd::utf8::*;
use vstd::string::StringSliceAdditionalSpecFns;

verus! {

broadcast use vstd::utf8::encode_utf8_decode_utf8;

/// What `str::to_lowercase` makes of a sequence of characters.
pub uninterp spec fn lower_of(s: Seq<char>) -> Seq<char>;

/// The UTF-8 bytes of the lower-cased form of the text held in `k`.
pub open spec fn lower_key(k: Seq<u8>) -> Seq<u8> {
    encode_utf8(lower_of(decode_utf8(k)))
}

/// Relies on `std::str::from_utf8`: it succeeds exactly when the bytes are
/// valid UTF-8, and the text it gives holds those same bytes.
#[verifier::external_body]
fn as_text<'a>(b: &'a [u8]) -> (r: Option<&'a str>)
    ensures
        r.is_some() == valid_utf8(b@),
        r.is_some() ==> r.unwrap().spec_bytes() == b@,
{
    std::str::from_utf8(b).ok()
}

/// Relies on `str::to_lowercase`: the result depends on the characters alone.
#[verifier::external_body]
fn lowercase(s: &str) -> (r: String)
    ensures
        r@ == lower_of(s@),
{
    s.to_lowercase()
}

/// Whether `b` is valid UTF-8.
pub fn is_utf8(b: &[u8]) -> (r: bool)
    ensures
        r == valid_utf8(b@),
{
    as_text(b).is_some()
}

/// The lower-cased form of the header name `k`, as UTF-8 bytes.
pub fn lower_name(k: &[u8]) -> (r: Vec<u8>)
    requires
        valid_utf8(k@),
    ensures
        r@ == lower_key(k@),
{
    match as_text(k) {
        Some(s) => {
            proof {
                assert(decode_utf8(encode_utf8(s@)) == s@);
            }
            let low = lowercase(s);
            let bs = low.as_str().as_bytes();
            vstd::slice::slice_to_vec(bs)
        },
        None => Vec::new(),
    }
}

/// An index just past an ASCII byte of valid UTF-8 is a character boundary.
proof fn lemma_boundary_after_ascii(t: Seq<u8>, i: int)
    requires
        valid_utf8(t),
        0 < i <= t.len(),
        t[i - 1] < 0x80,
    ensures
        is_char_boundary(t, i),
{
    if i == t.len() {
        is_char_boundary_start_end_of_seq(t);
    } else {
        is_char_boundary_iff_not_is_continuation_byte(t, i - 1);
        valid_utf8_split(t, i - 1);
        let s = t.subrange(i - 1, t.len() as int);
        assert(length_of_first_scalar(s) == 1);
        assert(pop_first_scalar(s) =~= t.subrange(i, t.len() as int));
        let p = t.subrange(i, t.len() as int);
        assert(valid_utf8(p));
        assert(valid_first_scalar(p));
        assert(p[0] == t[i]);
        is_char_boundary_iff_not_is_continuation_byte(t, i);
    }
}

/// A stretch of valid UTF-8 that starts at the beginning or after an ASCII byte,
/// and ends at the end or before an ASCII byte, is valid UTF-8.
pub proof fn lemma_ascii_cut(t: Seq<u8>, i: int, j: int)
    requires
        valid_utf8(t),
        0 <= i <= j <= t.len(),
        i == 0 || t[i - 1] < 0x80,
        j == t.len() || t[j] < 0x80,
    ensures
        valid_utf8(t.subrange(i, j)),
{
    if j == t.len() {
        is_char_boundary_start_end_of_seq(t);
    } else {
        is_char_boundary_iff_not_is_continuation_byte(t, j);
    }
    valid_utf8_split(t, j);
    let p = t.subrange(0, j);
    if i == 0 {
        is_char_boundary_start_end_of_seq(p);
    } else {
        lemma_boundary_after_ascii(p, i);
    }
    valid_utf8_split(p, i);
    assert(p.subrange(i, p.len() as int) =~= t.subrange(i, j));
}

} // verus!
