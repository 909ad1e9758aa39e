//! Responses: framing a status line, headers and body into wire bytes, and the
//! handlers that choose what to frame.
use vstd::prelude::*;
use vstd::utf8::valid_utf8;
use vstd::slice::slice_subrange;
use crate::scan::push_bytes;
use crate::text::is_utf8;
use crate::request::Request;

verus! {

/// The bytes of an ASCII text.
pub open spec fn ascii(s: Seq<char>) -> Seq<u8> {
    s.map_values(|c: char| c as u8)
}

/// Appends the bytes of the ASCII text `s` to `out`.
pub fn push_ascii(out: &mut Vec<u8>, s: &str)
    requires
        vstd::string::is_ascii(s),
    ensures
        final(out)@ == old(out)@ + ascii(s@),
{
    let b = s.as_bytes();
    assert(b@ =~= ascii(s@));
    push_bytes(out, b);
}

/// The decimal digits of `n`, most significant first, with no leading zero.
pub open spec fn decimal(n: nat) -> Seq<u8>
    decreases n,
{
    if n < 10 {
        seq![(48 + n) as u8]
    } else {
        decimal(n / 10).push((48 + n % 10) as u8)
    }
}

/// Appends the decimal digits of `n` to `out`.
pub fn push_decimal(out: &mut Vec<u8>, n: usize)
    ensures
        final(out)@ == old(out)@ + decimal(n as nat),
    decreases n,
{
    if n >= 10 {
        push_decimal(out, n / 10);
    }
    out.push(48u8 + (n % 10) as u8);
    assert(out@ =~= old(out)@ + decimal(n as nat));
}

/// The statuses that the server answers with.
#[derive(Clone, Copy, Debug, PartialEq, Eq, Structural)]
pub enum Status {
    Success,
    Created,
    NotFound,
    MethodNotAllowed,
}

/// The code and reason phrase of a status.
pub open spec fn status_text(s: Status) -> Seq<u8> {
    match s {
        Status::Success => ascii("200 OK"@),
        Status::Created => ascii("201 Created"@),
        Status::NotFound => ascii("404 Not Found"@),
        Status::MethodNotAllowed => ascii("405 Method Not Allowed"@),
    }
}

/// The media types of response bodies.
#[derive(Clone, Copy, Debug, PartialEq, Eq, Structural)]
pub enum ContentType {
    TextPlain,
    OctetStream,
}

/// The name of a media type.
pub open spec fn content_type_text(c: ContentType) -> Seq<u8> {
    match c {
        ContentType::TextPlain => ascii("text/plain"@),
        ContentType::OctetStream => ascii("application/octet-stream"@),
    }
}

/// A response without a body: the status line, then a blank line.
pub open spec fn empty_frame(s: Status) -> Seq<u8> {
    ascii("HTTP/1.1 "@) + status_text(s) + ascii("\r\n\r\n"@)
}

/// A response with a body: the status line, `Content-Length` with the body's
/// length in bytes, `Content-Type`, a blank line, then the body itself.
pub open spec fn body_frame(s: Status, c: ContentType, body: Seq<u8>) -> Seq<u8> {
    ascii("HTTP/1.1 "@) + status_text(s) + ascii("\r\n"@) + ascii("Content-Length: "@) + decimal(
        body.len(),
    ) + ascii("\r\n"@) + ascii("Content-Type: "@) + content_type_text(c) + ascii("\r\n"@)
        + ascii("\r\n"@) + body
}

fn push_status_line(out: &mut Vec<u8>, s: Status)
    ensures
        final(out)@ == old(out)@ + ascii("HTTP/1.1 "@) + status_text(s),
{
    proof {
        reveal_strlit("HTTP/1.1 ");
        reveal_strlit("200 OK");
        reveal_strlit("201 Created");
        reveal_strlit("404 Not Found");
        reveal_strlit("405 Method Not Allowed");
    }
    push_ascii(out, "HTTP/1.1 ");
    match s {
        Status::Success => push_ascii(out, "200 OK"),
        Status::Created => push_ascii(out, "201 Created"),
        Status::NotFound => push_ascii(out, "404 Not Found"),
        Status::MethodNotAllowed => push_ascii(out, "405 Method Not Allowed"),
    }
}

/// The response with status `status` and no body.
pub fn get_empty_resp(status: Status) -> (r: Vec<u8>)
    ensures
        r@ == empty_frame(status),
{
    let mut out: Vec<u8> = Vec::new();
    push_status_line(&mut out, status);
    proof {
        reveal_strlit("\r\n\r\n");
    }
    push_ascii(&mut out, "\r\n\r\n");
    assert(out@ =~= empty_frame(status));
    out
}

/// The response with status `status` and the body `body` of type `ctype`.
pub fn get_body_resp(status: Status, ctype: ContentType, body: &[u8]) -> (r: Vec<u8>)
    ensures
        r@ == body_frame(status, ctype, body@),
{
    let mut out: Vec<u8> = Vec::new();
    push_status_line(&mut out, status);
    proof {
        reveal_strlit("\r\n");
        reveal_strlit("Content-Length: ");
        reveal_strlit("Content-Type: ");
        reveal_strlit("text/plain");
        reveal_strlit("application/octet-stream");
    }
    push_ascii(&mut out, "\r\n");
    push_ascii(&mut out, "Content-Length: ");
    push_decimal(&mut out, body.len());
    push_ascii(&mut out, "\r\n");
    push_ascii(&mut out, "Content-Type: ");
    match ctype {
        ContentType::TextPlain => push_ascii(&mut out, "text/plain"),
        ContentType::OctetStream => push_ascii(&mut out, "application/octet-stream"),
    }
    push_ascii(&mut out, "\r\n");
    push_ascii(&mut out, "\r\n");
    push_bytes(&mut out, body);
    assert(out@ =~= body_frame(status, ctype, body@));
    out
}

/// The bytes of the ASCII text `s`.
pub fn ascii_bytes(s: &str) -> (r: &[u8])
    requires
        vstd::string::is_ascii(s),
    ensures
        r@ == ascii(s@),
{
    let b = s.as_bytes();
    assert(b@ =~= ascii(s@));
    b
}

/// Whether `t` begins with `p`.
pub open spec fn is_prefix(p: Seq<u8>, t: Seq<u8>) -> bool {
    p.len() <= t.len() && t.subrange(0, p.len() as int) == p
}

/// What follows the prefix `p` in `t`.
pub open spec fn after(p: Seq<u8>, t: Seq<u8>) -> Seq<u8> {
    t.subrange(p.len() as int, t.len() as int)
}

/// The path prefix of the echo route.
pub open spec fn echo_prefix() -> Seq<u8> {
    ascii("/echo/"@)
}

/// The header name that the user-agent route reflects.
pub open spec fn user_agent_name() -> Seq<u8> {
    ascii("user-agent"@)
}

/// Echoes the path after `/echo/` as a plain-text body, byte for byte.
pub fn get_echo_resp(request: &Request) -> (r: Vec<u8>)
    requires
        is_prefix(echo_prefix(), request.path@),
    ensures
        r@ == body_frame(Status::Success, ContentType::TextPlain, after(echo_prefix(), request.path@)),
{
    proof {
        reveal_strlit("/echo/");
    }
    let p = ascii_bytes("/echo/");
    let value = slice_subrange(request.path.as_slice(), p.len(), request.path.len());
    get_body_resp(Status::Success, ContentType::TextPlain, value)
}

/// The user-agent route's answer for the header map `h`.
pub open spec fn user_agent_frame(h: Map<Seq<u8>, Seq<u8>>) -> Seq<u8> {
    if h.contains_key(user_agent_name()) {
        body_frame(Status::Success, ContentType::TextPlain, h[user_agent_name()])
    } else {
        empty_frame(Status::NotFound)
    }
}

/// Reflects the `user-agent` header as a plain-text body, or answers 404 without it.
pub fn get_user_agent_resp(request: &Request) -> (r: Vec<u8>)
    ensures
        r@ == user_agent_frame(request.headers@),
{
    proof {
        reveal_strlit("user-agent");
    }
    match request.headers.get(ascii_bytes("user-agent")) {
        Some(agent) => get_body_resp(Status::Success, ContentType::TextPlain, agent.as_slice()),
        None => get_empty_resp(Status::NotFound),
    }
}

/// The answer to a file read, given what the file holds (`None` where there is
/// no such file): `None` where the contents are not valid UTF-8 and the
/// connection is dropped.
pub open spec fn file_frame(contents: Option<Seq<u8>>) -> Option<Seq<u8>> {
    match contents {
        None => Some(empty_frame(Status::NotFound)),
        Some(b) => if valid_utf8(b) {
            Some(body_frame(Status::Success, ContentType::OctetStream, b))
        } else {
            None
        },
    }
}

/// The bytes that an optional byte slice holds.
pub open spec fn opt_bytes(o: Option<&[u8]>) -> Option<Seq<u8>> {
    match o {
        Some(b) => Some(b@),
        None => None,
    }
}

/// Answers a file read from what the file holds (`None` where there is no such file).
pub fn get_file_resp(contents: Option<&[u8]>) -> (r: Option<Vec<u8>>)
    ensures
        r.is_some() == file_frame(opt_bytes(contents)).is_some(),
        r.is_some() ==> r.unwrap()@ == file_frame(opt_bytes(contents)).unwrap(),
{
    match contents {
        None => Some(get_empty_resp(Status::NotFound)),
        Some(b) => if is_utf8(b) {
            Some(get_body_resp(Status::Success, ContentType::OctetStream, b))
        } else {
            None
        },
    }
}

/// Answers a file write: 201 where the contents were written, and `None`,
/// dropping the connection, where writing failed.
pub fn post_file_resp(written: bool) -> (r: Option<Vec<u8>>)
    ensures
        written ==> r.is_some() && r.unwrap()@ == empty_frame(Status::Created),
        !written ==> r.is_none(),
{
    if written {
        Some(get_empty_resp(Status::Created))
    } else {
        None
    }
}

} // verus!
