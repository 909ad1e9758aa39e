//! Routing a parsed request, and what a connection does with the bytes it read.
//!
//! The caller owns the socket and the serving directory. It hands over the
//! bytes of one read and carries out the `Action` it gets back: sending bytes,
//! or reading or writing a file and handing the outcome to `get_file_resp` or
//! `post_file_resp`. Every action ends with the connection closed.
use vstd::prelude::*;
use vstd::slice::{slice_subrange, slice_to_vec};
use crate::scan::{bytes_eq, starts_with};
use crate::request::{parse_request, spec_parse, Request, RequestModel};
use crate::response::{
    after, ascii, ascii_bytes, body_frame, echo_prefix, empty_frame,
    get_echo_resp, get_empty_resp, get_user_agent_resp, is_prefix, user_agent_frame, ContentType,
    Status,
};

verus! {

/// The handler that a request goes to.
#[derive(Clone, Copy, Debug, PartialEq, Eq, Structural)]
pub enum Route {
    Root,
    Echo,
    UserAgent,
    FileGet,
    FilePost,
    FileMethodNotAllowed,
    NotFound,
}

/// The path prefix of the file routes.
pub open spec fn files_route() -> Seq<u8> {
    ascii("/files"@)
}

/// The prefix stripped from a file route's path to name the file.
pub open spec fn files_prefix() -> Seq<u8> {
    ascii("/files/"@)
}

/// Which handler serves `method` on `path`; the first rule that matches wins.
pub open spec fn spec_route(method: Seq<u8>, path: Seq<u8>) -> Route {
    if path == ascii("/"@) {
        Route::Root
    } else if is_prefix(echo_prefix(), path) {
        Route::Echo
    } else if path == ascii("/user-agent"@) {
        Route::UserAgent
    } else if is_prefix(files_route(), path) {
        if method == ascii("GET"@) {
            Route::FileGet
        } else if method == ascii("POST"@) {
            Route::FilePost
        } else {
            Route::FileMethodNotAllowed
        }
    } else {
        Route::NotFound
    }
}

/// Picks the handler for `method` on `path`.
pub fn route(method: &[u8], path: &[u8]) -> (r: Route)
    ensures
        r == spec_route(method@, path@),
{
    proof {
        reveal_strlit("/");
        reveal_strlit("/echo/");
        reveal_strlit("/user-agent");
        reveal_strlit("/files");
        reveal_strlit("GET");
        reveal_strlit("POST");
    }
    if bytes_eq(path, ascii_bytes("/")) {
        Route::Root
    } else if starts_with(path, ascii_bytes("/echo/")) {
        Route::Echo
    } else if bytes_eq(path, ascii_bytes("/user-agent")) {
        Route::UserAgent
    } else if starts_with(path, ascii_bytes("/files")) {
        if bytes_eq(method, ascii_bytes("GET")) {
            Route::FileGet
        } else if bytes_eq(method, ascii_bytes("POST")) {
            Route::FilePost
        } else {
            Route::FileMethodNotAllowed
        }
    } else {
        Route::NotFound
    }
}

/// What a connection does after its read, as plain values.
pub enum ActionModel {
    Close,
    Send(Seq<u8>),
    ReadFile(Seq<u8>),
    WriteFile(Seq<u8>, Seq<u8>),
}

/// What a connection does after its read: close without answering, send a
/// response, or read or write the named file under the serving directory.
#[derive(Clone, Debug, PartialEq, Eq)]
pub enum Action {
    Close,
    Send(Vec<u8>),
    ReadFile(Vec<u8>),
    WriteFile(Vec<u8>, Vec<u8>),
}

impl View for Action {
    type V = ActionModel;

    open spec fn view(&self) -> ActionModel {
        match self {
            Action::Close => ActionModel::Close,
            Action::Send(b) => ActionModel::Send(b@),
            Action::ReadFile(n) => ActionModel::ReadFile(n@),
            Action::WriteFile(n, b) => ActionModel::WriteFile(n@, b@),
        }
    }
}

/// What a connection does with the request `q`. A file route whose path lacks
/// the `/files/` prefix names no file, and the connection is closed.
pub open spec fn spec_respond(q: RequestModel) -> ActionModel {
    match spec_route(q.method, q.path) {
        Route::Root => ActionModel::Send(empty_frame(Status::Success)),
        Route::Echo => ActionModel::Send(
            body_frame(Status::Success, ContentType::TextPlain, after(echo_prefix(), q.path)),
        ),
        Route::UserAgent => ActionModel::Send(user_agent_frame(q.headers)),
        Route::FileGet => if is_prefix(files_prefix(), q.path) {
            ActionModel::ReadFile(after(files_prefix(), q.path))
        } else {
            ActionModel::Close
        },
        Route::FilePost => if is_prefix(files_prefix(), q.path) {
            ActionModel::WriteFile(after(files_prefix(), q.path), q.body)
        } else {
            ActionModel::Close
        },
        Route::FileMethodNotAllowed => ActionModel::Send(empty_frame(Status::MethodNotAllowed)),
        Route::NotFound => ActionModel::Send(empty_frame(Status::NotFound)),
    }
}

/// What a connection does with the bytes `t` of its read: it closes without
/// answering where they hold no request.
pub open spec fn spec_handle(t: Seq<u8>) -> ActionModel {
    match spec_parse(t) {
        None => ActionModel::Close,
        Some(q) => spec_respond(q),
    }
}

/// Decides what a connection does with the parsed request `request`.
pub fn respond(request: &Request) -> (r: Action)
    ensures
        r@ == spec_respond(request@),
{
    proof {
        reveal_strlit("/files/");
        reveal_strlit("GET");
    }
    match route(request.method.as_slice(), request.path.as_slice()) {
        Route::Root => Action::Send(get_empty_resp(Status::Success)),
        Route::Echo => Action::Send(get_echo_resp(request)),
        Route::UserAgent => Action::Send(get_user_agent_resp(request)),
        Route::FileGet | Route::FilePost => {
            let p = ascii_bytes("/files/");
            let path = request.path.as_slice();
            if !starts_with(path, p) {
                return Action::Close;
            }
            let name = slice_to_vec(slice_subrange(path, p.len(), path.len()));
            if bytes_eq(request.method.as_slice(), ascii_bytes("GET")) {
                Action::ReadFile(name)
            } else {
                Action::WriteFile(name, request.body.clone())
            }
        },
        Route::FileMethodNotAllowed => Action::Send(get_empty_resp(Status::MethodNotAllowed)),
        Route::NotFound => Action::Send(get_empty_resp(Status::NotFound)),
    }
}

/// Decides what a connection does with the bytes `raw` of its read.
pub fn handle(raw: &[u8]) -> (r: Action)
    ensures
        r@ == spec_handle(raw@),
{
    match parse_request(raw) {
        None => Action::Close,
        Some(request) => respond(&request),
    }
}

} // verus!
