//! Requests: the header map, and parsing a request from the bytes of one read.
use vstd::prelude::*;
use vstd::utf8::valid_utf8;
use vstd::slice::{slice_subrange, slice_to_vec};
use crate::scan::{bytes_eq, find_byte, find_pair, lemma_next_byte_bounds, lemma_next_pair_bounds, lines, lines_from, next_byte, next_pair, CR, LF};
use crate::text::{is_utf8, lemma_ascii_cut, lower_key, lower_name};

verus! {

/// Space.
pub const SP: u8 = 32;

/// Colon.
pub const COLON: u8 = 58;

/// The map made by inserting each pair in turn, so that a later key wins.
pub open spec fn fold_pairs(s: Seq<(Seq<u8>, Seq<u8>)>) -> Map<Seq<u8>, Seq<u8>>
    decreases s.len(),
{
    if s.len() == 0 {
        Map::empty()
    } else {
        fold_pairs(s.drop_last()).insert(s.last().0, s.last().1)
    }
}

/// Header names and values, in the order they were added.
#[derive(Clone, Debug)]
pub struct Headers {
    entries: Vec<(Vec<u8>, Vec<u8>)>,
}

impl Headers {
    pub closed spec fn pairs(&self) -> Seq<(Seq<u8>, Seq<u8>)> {
        self.entries@.map_values(|p: (Vec<u8>, Vec<u8>)| (p.0@, p.1@))
    }
}

impl View for Headers {
    type V = Map<Seq<u8>, Seq<u8>>;

    open spec fn view(&self) -> Map<Seq<u8>, Seq<u8>> {
        fold_pairs(self.pairs())
    }
}

/// Where no pair from index `i` on has key `k`, the whole sequence maps `k`
/// as its first `i` pairs do.
proof fn lemma_fold_pairs_skip(s: Seq<(Seq<u8>, Seq<u8>)>, i: int, k: Seq<u8>)
    requires
        0 <= i <= s.len(),
        forall|j: int| i <= j < s.len() ==> s[j].0 != k,
    ensures
        fold_pairs(s).contains_key(k) == fold_pairs(s.subrange(0, i)).contains_key(k),
        fold_pairs(s).contains_key(k) ==> fold_pairs(s)[k] == fold_pairs(s.subrange(0, i))[k],
    decreases s.len() - i,
{
    if i < s.len() {
        lemma_fold_pairs_skip(s.drop_last(), i, k);
        assert(s.drop_last().subrange(0, i) =~= s.subrange(0, i));
    } else {
        assert(s.subrange(0, i) =~= s);
    }
}

impl Headers {
    /// An empty header map.
    pub fn new() -> (r: Headers)
        ensures
            r@ == Map::<Seq<u8>, Seq<u8>>::empty(),
    {
        Headers { entries: Vec::new() }
    }

    /// Sets `key` to `value`, replacing what `key` held before.
    pub fn insert(&mut self, key: Vec<u8>, value: Vec<u8>)
        ensures
            final(self)@ == old(self)@.insert(key@, value@),
    {
        let ghost before = self.pairs();
        self.entries.push((key, value));
        assert(self.pairs().drop_last() =~= before);
    }

    /// The value held for `key`, if any.
    pub fn get(&self, key: &[u8]) -> (r: Option<&Vec<u8>>)
        ensures
            r.is_some() == self@.contains_key(key@),
            r.is_some() ==> r.unwrap()@ == self@[key@],
    {
        let ghost s = self.pairs();
        let mut i: usize = self.entries.len();
        while i > 0
            invariant
                s == self.pairs(),
                i <= s.len(),
                forall|j: int| i <= j < s.len() ==> s[j].0 != key@,
            decreases i,
        {
            if bytes_eq(self.entries[i - 1].0.as_slice(), key) {
                proof {
                    lemma_fold_pairs_skip(s, i as int, key@);
                    assert(s.subrange(0, i as int).drop_last() =~= s.subrange(0, i - 1));
                }
                return Some(&self.entries[i - 1].1);
            }
            i = i - 1;
        }
        proof {
            lemma_fold_pairs_skip(s, 0, key@);
        }
        None
    }
}

/// A parsed request, as plain values.
pub struct RequestModel {
    pub method: Seq<u8>,
    pub path: Seq<u8>,
    pub headers: Map<Seq<u8>, Seq<u8>>,
    pub body: Seq<u8>,
}

/// A request: method and path from the start line, headers keyed by their
/// lower-cased name, and the line after the blank line as body.
#[derive(Clone, Debug)]
pub struct Request {
    pub method: Vec<u8>,
    pub path: Vec<u8>,
    pub headers: Headers,
    pub body: Vec<u8>,
}

impl View for Request {
    type V = RequestModel;

    open spec fn view(&self) -> RequestModel {
        RequestModel {
            method: self.method@,
            path: self.path@,
            headers: self.headers@,
            body: self.body@,
        }
    }
}

/// The first index `j >= k` holding an empty line, or the number of lines.
pub open spec fn blank_from(ls: Seq<Seq<u8>>, k: int) -> int
    decreases ls.len() - k,
{
    if k < 0 || k >= ls.len() {
        ls.len() as int
    } else if ls[k].len() == 0 {
        k
    } else {
        blank_from(ls, k + 1)
    }
}

/// The header map that a sequence of header lines gives: each line is cut at
/// its first `": "` into a name, lower-cased, and a value; a line without
/// `": "` is skipped; a later name wins.
pub open spec fn header_map(hs: Seq<Seq<u8>>) -> Map<Seq<u8>, Seq<u8>>
    decreases hs.len(),
{
    if hs.len() == 0 {
        Map::empty()
    } else {
        let m = header_map(hs.drop_last());
        let l = hs.last();
        let c = next_pair(l, 0, COLON, SP);
        if c < l.len() {
            m.insert(lower_key(l.subrange(0, c)), l.subrange(c + 2, l.len() as int))
        } else {
            m
        }
    }
}

/// The request that the bytes `t` hold, if any: `t` is valid UTF-8, its first
/// line holds a space, and an empty line after the first is followed by one
/// more line, the body. The method is what precedes the first space; the path
/// is what follows it up to the next space or the end of the line.
pub open spec fn spec_parse(t: Seq<u8>) -> Option<RequestModel> {
    let ls = lines(t);
    let k = blank_from(ls, 1);
    let start = ls[0];
    let sp = next_byte(start, 0, SP);
    let rest = start.subrange(sp + 1, start.len() as int);
    if valid_utf8(t) && k + 1 < ls.len() && sp < start.len() {
        Some(
            RequestModel {
                method: start.subrange(0, sp),
                path: rest.subrange(0, next_byte(rest, 0, SP)),
                headers: header_map(ls.subrange(1, k)),
                body: ls[k + 1],
            },
        )
    } else {
        None
    }
}

proof fn lemma_blank_skip(ls: Seq<Seq<u8>>, i: int, m: int)
    requires
        0 <= i <= m <= ls.len(),
        forall|j: int| i <= j < m ==> ls[j].len() > 0,
    ensures
        blank_from(ls, i) == blank_from(ls, m),
    decreases m - i,
{
    if i < m {
        lemma_blank_skip(ls, i + 1, m);
    }
}

/// Parses the bytes of one read into a request; `None` where they hold none
/// (see `spec_parse`).
pub fn parse_request(raw: &[u8]) -> (r: Option<Request>)
    ensures
        r.is_some() == spec_parse(raw@).is_some(),
        r.is_some() ==> r.unwrap()@ == spec_parse(raw@).unwrap(),
{
    let ghost t = raw@;
    let ghost ls = lines(t);
    if !is_utf8(raw) {
        return None;
    }
    let n = raw.len();
    let e0 = find_pair(raw, 0, CR, LF);
    proof {
        lemma_next_pair_bounds(t, 0, CR, LF);
    }
    let start = slice_subrange(raw, 0, e0);
    assert(ls[0] == start@);
    let sp = find_byte(start, 0, SP);
    proof {
        lemma_next_byte_bounds(start@, 0, SP);
    }
    if sp == start.len() {
        return None;
    }
    let rest = slice_subrange(start, sp + 1, start.len());
    let pe = find_byte(rest, 0, SP);
    proof {
        lemma_next_byte_bounds(rest@, 0, SP);
    }
    let method = slice_to_vec(slice_subrange(start, 0, sp));
    let path = slice_to_vec(slice_subrange(rest, 0, pe));
    if e0 == n {
        assert(ls.len() == 1);
        return None;
    }
    let mut pos: usize = e0 + 2;
    let mut headers = Headers::new();
    let ghost mut done: Seq<Seq<u8>> = seq![start@];
    assert(ls =~= done + lines_from(t, pos as int));
    assert(done.subrange(1, done.len() as int) =~= Seq::<Seq<u8>>::empty());
    loop
        invariant
            t == raw@,
            n == t.len(),
            ls == lines(t),
            valid_utf8(t),
            2 <= pos <= n,
            t[pos - 1] == LF,
            ls == done + lines_from(t, pos as int),
            done.len() >= 1,
            done[0] == start@,
            sp as int == next_byte(start@, 0, SP),
            sp < start@.len(),
            rest@ == start@.subrange(sp + 1, start@.len() as int),
            method@ == start@.subrange(0, sp as int),
            path@ == rest@.subrange(0, next_byte(rest@, 0, SP)),
            forall|j: int| 1 <= j < done.len() ==> done[j].len() > 0,
            headers@ == header_map(done.subrange(1, done.len() as int)),
        decreases n - pos,
    {
        let e = find_pair(raw, pos, CR, LF);
        proof {
            lemma_next_pair_bounds(t, pos as int, CR, LF);
        }
        let line = slice_subrange(raw, pos, e);
        if e == pos {
            assert(ls[done.len() as int] == line@);
            proof {
                lemma_blank_skip(ls, 1, done.len() as int);
            }
            if e == n {
                assert(ls.len() == done.len() + 1);
                return None;
            }
            let e2 = find_pair(raw, e + 2, CR, LF);
            proof {
                lemma_next_pair_bounds(t, e + 2, CR, LF);
            }
            let body = slice_to_vec(slice_subrange(raw, e + 2, e2));
            assert(lines_from(t, pos as int) == seq![line@] + lines_from(t, e + 2));
            assert(lines_from(t, e + 2)[0] == body@);
            assert(ls[done.len() as int] == line@);
            assert(ls[done.len() + 1int] == body@);
            assert(ls.subrange(1, done.len() as int) =~= done.subrange(1, done.len() as int));
            return Some(Request { method, path, headers, body });
        }
        let c = find_pair(line, 0, COLON, SP);
        proof {
            lemma_next_pair_bounds(line@, 0, COLON, SP);
        }
        if c < line.len() {
            proof {
                lemma_ascii_cut(t, pos as int, pos + c);
                assert(line@.subrange(0, c as int) =~= t.subrange(pos as int, pos + c));
            }
            let key = lower_name(slice_subrange(line, 0, c));
            let value = slice_to_vec(slice_subrange(line, c + 2, line.len()));
            headers.insert(key, value);
        }
        let ghost old_done = done;
        proof {
            done = done.push(line@);
            assert(done.subrange(1, done.len() as int).drop_last() =~= old_done.subrange(
                1,
                old_done.len() as int,
            ));
            assert(ls =~= done + (if e < n {
                lines_from(t, e + 2)
            } else {
                Seq::empty()
            }));
        }
        if e == n {
            proof {
                lemma_blank_skip(ls, 1, ls.len() as int);
            }
            return None;
        }
        pos = e + 2;
    }
}

proof fn lemma_blank_bounds(ls: Seq<Seq<u8>>, k: int)
    requires
        0 <= k,
    ensures
        k <= ls.len() ==> k <= blank_from(ls, k),
    decreases ls.len() - k,
{
    if k < ls.len() && ls[k].len() > 0 {
        lemma_blank_bounds(ls, k + 1);
    }
}

/// Each line of valid UTF-8 text is valid UTF-8.
proof fn lemma_lines_utf8(t: Seq<u8>, i: int)
    requires
        valid_utf8(t),
        0 <= i <= t.len(),
        i == 0 || t[i - 1] == LF,
    ensures
        forall|j: int| 0 <= j < lines_from(t, i).len() ==> valid_utf8(#[trigger] lines_from(t, i)[j]),
    decreases t.len() - i,
{
    lemma_next_pair_bounds(t, i, CR, LF);
    let e = next_pair(t, i, CR, LF);
    lemma_ascii_cut(t, i, e);
    if e < t.len() {
        lemma_lines_utf8(t, e + 2);
        let tail = lines_from(t, e + 2);
        assert(lines_from(t, i) == seq![t.subrange(i, e)] + tail);
        assert forall|j: int| 0 <= j < lines_from(t, i).len() implies valid_utf8(
            #[trigger] lines_from(t, i)[j],
        ) by {
            if j > 0 {
                assert(lines_from(t, i)[j] == tail[j - 1]);
            }
        }
    }
}

/// The body of a parsed request is valid UTF-8.
pub proof fn lemma_body_utf8(t: Seq<u8>)
    requires
        spec_parse(t).is_some(),
    ensures
        valid_utf8(spec_parse(t).unwrap().body),
{
    let ls = lines(t);
    lemma_lines_utf8(t, 0);
    lemma_blank_bounds(ls, 1);
    let k = blank_from(ls, 1);
    assert(valid_utf8(ls[k + 1]));
}

} // verus!
