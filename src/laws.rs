//! What holds of every request: the fixed answers of each route, the file
//! routes against a model of the serving directory, and header parsing.
use vstd::prelude::*;
use crate::scan::next_pair;
use crate::text::lower_key;
use crate::request::{header_map, lemma_body_utf8, spec_parse, COLON, SP};
use crate::response::{
    ascii, body_frame, echo_prefix, empty_frame, file_frame, is_prefix, user_agent_name, ContentType,
    Status,
};
use crate::server::{files_prefix, files_route, spec_handle, ActionModel};

verus! {

/// One connection served against the serving directory `store`, a map from
/// file name to contents in which every write succeeds: the bytes sent, if
/// any, and the directory afterwards.
pub open spec fn serve(store: Map<Seq<u8>, Seq<u8>>, t: Seq<u8>) -> (
    Option<Seq<u8>>,
    Map<Seq<u8>, Seq<u8>>,
) {
    match spec_handle(t) {
        ActionModel::Close => (None, store),
        ActionModel::Send(b) => (Some(b), store),
        ActionModel::ReadFile(n) => (
            file_frame(
                if store.contains_key(n) {
                    Some(store[n])
                } else {
                    None
                },
            ),
            store,
        ),
        ActionModel::WriteFile(n, b) => (Some(empty_frame(Status::Created)), store.insert(n, b)),
    }
}

/// Every request for `/` is answered with exactly `HTTP/1.1 200 OK`, CR LF, CR LF.
pub proof fn law_root(t: Seq<u8>)
    requires
        spec_parse(t).is_some(),
        spec_parse(t).unwrap().path == ascii("/"@),
    ensures
        spec_handle(t) == ActionModel::Send(ascii("HTTP/1.1 200 OK\r\n\r\n"@)),
{
    reveal_strlit("/");
    reveal_strlit("HTTP/1.1 ");
    reveal_strlit("200 OK");
    reveal_strlit("\r\n\r\n");
    reveal_strlit("HTTP/1.1 200 OK\r\n\r\n");
    assert(empty_frame(Status::Success) =~= ascii("HTTP/1.1 200 OK\r\n\r\n"@));
}

/// A GET of `/echo/` followed by `s` is answered with 200, `text/plain`, the
/// length of `s` in bytes, and `s` itself as body.
pub proof fn law_echo(t: Seq<u8>, s: Seq<u8>)
    requires
        spec_parse(t).is_some(),
        spec_parse(t).unwrap().method == ascii("GET"@),
        spec_parse(t).unwrap().path == echo_prefix() + s,
    ensures
        spec_handle(t) == ActionModel::Send(
            body_frame(Status::Success, ContentType::TextPlain, s),
        ),
{
    reveal_strlit("/");
    reveal_strlit("/echo/");
    let p = spec_parse(t).unwrap().path;
    assert(p.subrange(0, echo_prefix().len() as int) =~= echo_prefix());
    assert(p.subrange(echo_prefix().len() as int, p.len() as int) =~= s);
    assert(p.len() != 1);
}

/// A GET of `/user-agent` is answered with 200 and the `user-agent` header's
/// value as a plain-text body where the request has that header, and with an
/// empty 404 where it has not.
pub proof fn law_user_agent(t: Seq<u8>)
    requires
        spec_parse(t).is_some(),
        spec_parse(t).unwrap().method == ascii("GET"@),
        spec_parse(t).unwrap().path == ascii("/user-agent"@),
    ensures
        spec_parse(t).unwrap().headers.contains_key(user_agent_name()) ==> spec_handle(t)
            == ActionModel::Send(
            body_frame(
                Status::Success,
                ContentType::TextPlain,
                spec_parse(t).unwrap().headers[user_agent_name()],
            ),
        ),
        !spec_parse(t).unwrap().headers.contains_key(user_agent_name()) ==> spec_handle(t)
            == ActionModel::Send(empty_frame(Status::NotFound)),
{
    reveal_strlit("/");
    reveal_strlit("/echo/");
    reveal_strlit("/user-agent");
    let p = spec_parse(t).unwrap().path;
    assert(p[1] != echo_prefix()[1]);
    assert(p.len() != 1);
}

/// Writing a file with a POST of `/files/` and `name`, then reading it with a
/// GET of the same path, gives back 200, `application/octet-stream`, the
/// body's length in bytes, and the body that was written.
pub proof fn law_file_round_trip(store: Map<Seq<u8>, Seq<u8>>, post: Seq<u8>, get: Seq<u8>, name: Seq<u8>)
    requires
        spec_parse(post).is_some(),
        spec_parse(post).unwrap().method == ascii("POST"@),
        spec_parse(post).unwrap().path == files_prefix() + name,
        spec_parse(get).is_some(),
        spec_parse(get).unwrap().method == ascii("GET"@),
        spec_parse(get).unwrap().path == files_prefix() + name,
    ensures
        serve(serve(store, post).1, get).0 == Some(
            body_frame(Status::Success, ContentType::OctetStream, spec_parse(post).unwrap().body),
        ),
{
    lemma_file_path(post, name);
    lemma_file_path(get, name);
    lemma_body_utf8(post);
    reveal_strlit("GET");
    reveal_strlit("POST");
    assert(ascii("GET"@).len() != ascii("POST"@).len());
}

/// A GET of `/files/` and a name that the serving directory does not hold is
/// answered with an empty 404.
pub proof fn law_missing_file(store: Map<Seq<u8>, Seq<u8>>, t: Seq<u8>, name: Seq<u8>)
    requires
        spec_parse(t).is_some(),
        spec_parse(t).unwrap().method == ascii("GET"@),
        spec_parse(t).unwrap().path == files_prefix() + name,
        !store.contains_key(name),
    ensures
        serve(store, t).0 == Some(empty_frame(Status::NotFound)),
{
    lemma_file_path(t, name);
}

/// A path under `/files/` goes to a file route, and names the file after the prefix.
proof fn lemma_file_path(t: Seq<u8>, name: Seq<u8>)
    requires
        spec_parse(t).is_some(),
        spec_parse(t).unwrap().path == files_prefix() + name,
    ensures
        ({
            let p = spec_parse(t).unwrap().path;
            &&& p != ascii("/"@)
            &&& !(echo_prefix().len() <= p.len() && p.subrange(0, echo_prefix().len() as int)
                == echo_prefix())
            &&& p != ascii("/user-agent"@)
            &&& ascii("/files"@).len() <= p.len()
            &&& files_prefix().len() <= p.len()
            &&& p.subrange(0, ascii("/files"@).len() as int) == ascii("/files"@)
            &&& p.subrange(0, files_prefix().len() as int) == files_prefix()
            &&& p.subrange(files_prefix().len() as int, p.len() as int) == name
        }),
{
    reveal_strlit("/");
    reveal_strlit("/echo/");
    reveal_strlit("/user-agent");
    reveal_strlit("/files");
    reveal_strlit("/files/");
    let p = spec_parse(t).unwrap().path;
    assert(p[1] != echo_prefix()[1]);
    assert(p[1] != ascii("/user-agent"@)[1]);
    assert(p.len() != 1);
    assert(p.subrange(0, ascii("/files"@).len() as int) =~= ascii("/files"@));
    assert(p.subrange(0, files_prefix().len() as int) =~= files_prefix());
    assert(p.subrange(files_prefix().len() as int, p.len() as int) =~= name);
}

/// A path that no route claims is answered with an empty 404.
pub proof fn law_unknown_path(t: Seq<u8>)
    requires
        spec_parse(t).is_some(),
        spec_parse(t).unwrap().path != ascii("/"@),
        !is_prefix(echo_prefix(), spec_parse(t).unwrap().path),
        spec_parse(t).unwrap().path != ascii("/user-agent"@),
        !is_prefix(files_route(), spec_parse(t).unwrap().path),
    ensures
        spec_handle(t) == ActionModel::Send(empty_frame(Status::NotFound)),
{
}

/// A file route with a method other than GET and POST is answered with an empty 405.
pub proof fn law_file_method_not_allowed(t: Seq<u8>, name: Seq<u8>)
    requires
        spec_parse(t).is_some(),
        spec_parse(t).unwrap().path == files_prefix() + name,
        spec_parse(t).unwrap().method != ascii("GET"@),
        spec_parse(t).unwrap().method != ascii("POST"@),
    ensures
        spec_handle(t) == ActionModel::Send(empty_frame(Status::MethodNotAllowed)),
{
    lemma_file_path(t, name);
}

/// A header line without `": "` is skipped and changes nothing; a well-formed
/// line after it is still captured, under its lower-cased name.
pub proof fn law_malformed_header_skipped(hs: Seq<Seq<u8>>, bad: Seq<u8>, good: Seq<u8>)
    requires
        next_pair(bad, 0, COLON, SP) == bad.len(),
        next_pair(good, 0, COLON, SP) < good.len(),
    ensures
        header_map(hs.push(bad)) == header_map(hs),
        header_map(hs.push(bad).push(good)) == header_map(hs).insert(
            lower_key(good.subrange(0, next_pair(good, 0, COLON, SP))),
            good.subrange(next_pair(good, 0, COLON, SP) + 2, good.len() as int),
        ),
{
    assert(hs.push(bad).drop_last() =~= hs);
    assert(hs.push(bad).push(good).drop_last() =~= hs.push(bad));
    assert(header_map(hs.push(bad)) == header_map(hs));
    let c = next_pair(good, 0, COLON, SP);
    assert(header_map(hs.push(bad).push(good)) == header_map(hs.push(bad)).insert(
        lower_key(good.subrange(0, c)),
        good.subrange(c + 2, good.len() as int),
    ));
}

} // verus!
