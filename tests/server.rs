use http_server::request::{parse_request, Headers, Request};
use http_server::response::{
    get_body_resp, get_echo_resp, get_empty_resp, get_file_resp, get_user_agent_resp,
    post_file_resp, ContentType, Status,
};
use http_server::server::{handle, route, Action, Route};
use http_server::text::{is_utf8, lower_name};

fn send(bytes: &str) -> Vec<u8> {
    bytes.as_bytes().to_vec()
}

fn request(method: &str, path: &str, headers: &[(&str, &str)], body: &str) -> Request {
    let mut h = Headers::new();
    for (k, v) in headers {
        h.insert(k.as_bytes().to_vec(), v.as_bytes().to_vec());
    }
    Request {
        method: method.as_bytes().to_vec(),
        path: path.as_bytes().to_vec(),
        headers: h,
        body: body.as_bytes().to_vec(),
    }
}

#[test]
fn root_is_empty_ok() {
    let a = handle(b"GET / HTTP/1.1\r\nHost: localhost:4221\r\n\r\n");
    assert_eq!(a, Action::Send(send("HTTP/1.1 200 OK\r\n\r\n")));
}

#[test]
fn root_with_body_is_still_empty_ok() {
    let a = handle(b"POST / HTTP/1.1\r\n\r\nsomething");
    assert_eq!(a, Action::Send(send("HTTP/1.1 200 OK\r\n\r\n")));
}

#[test]
fn echo_returns_segment() {
    let a = handle(b"GET /echo/abc HTTP/1.1\r\nHost: localhost\r\n\r\n");
    assert_eq!(
        a,
        Action::Send(send(
            "HTTP/1.1 200 OK\r\nContent-Length: 3\r\nContent-Type: text/plain\r\n\r\nabc"
        ))
    );
}

#[test]
fn echo_is_not_decoded() {
    let r = get_echo_resp(&request("GET", "/echo/a%20b/c", &[], ""));
    assert_eq!(
        r,
        send("HTTP/1.1 200 OK\r\nContent-Length: 7\r\nContent-Type: text/plain\r\n\r\na%20b/c")
    );
}

#[test]
fn echo_empty_segment() {
    let r = get_echo_resp(&request("GET", "/echo/", &[], ""));
    assert_eq!(
        r,
        send("HTTP/1.1 200 OK\r\nContent-Length: 0\r\nContent-Type: text/plain\r\n\r\n")
    );
}

#[test]
fn echo_length_counts_bytes() {
    let r = get_echo_resp(&request("GET", "/echo/héllo", &[], ""));
    assert_eq!(
        r,
        send("HTTP/1.1 200 OK\r\nContent-Length: 6\r\nContent-Type: text/plain\r\n\r\nhéllo")
    );
}

#[test]
fn user_agent_present() {
    let a = handle(b"GET /user-agent HTTP/1.1\r\nHost: x\r\nUser-Agent: foobar/1.2.3\r\n\r\n");
    assert_eq!(
        a,
        Action::Send(send(
            "HTTP/1.1 200 OK\r\nContent-Length: 12\r\nContent-Type: text/plain\r\n\r\nfoobar/1.2.3"
        ))
    );
}

#[test]
fn user_agent_absent() {
    let r = get_user_agent_resp(&request("GET", "/user-agent", &[("host", "x")], ""));
    assert_eq!(r, send("HTTP/1.1 404 Not Found\r\n\r\n"));
}

#[test]
fn user_agent_last_wins() {
    let a = handle(b"GET /user-agent HTTP/1.1\r\nuser-agent: a\r\nUSER-AGENT: bb\r\n\r\n");
    assert_eq!(
        a,
        Action::Send(send(
            "HTTP/1.1 200 OK\r\nContent-Length: 2\r\nContent-Type: text/plain\r\n\r\nbb"
        ))
    );
}

#[test]
fn unknown_path_is_not_found() {
    let a = handle(b"GET /nope HTTP/1.1\r\n\r\n");
    assert_eq!(a, Action::Send(send("HTTP/1.1 404 Not Found\r\n\r\n")));
}

#[test]
fn files_delete_is_not_allowed() {
    let a = handle(b"DELETE /files/x HTTP/1.1\r\n\r\n");
    assert_eq!(a, Action::Send(send("HTTP/1.1 405 Method Not Allowed\r\n\r\n")));
}

#[test]
fn files_get_reads_named_file() {
    let a = handle(b"GET /files/foo.txt HTTP/1.1\r\n\r\n");
    assert_eq!(a, Action::ReadFile(send("foo.txt")));
}

#[test]
fn files_post_writes_body() {
    let a = handle(b"POST /files/foo.txt HTTP/1.1\r\nContent-Length: 5\r\n\r\nhello");
    assert_eq!(a, Action::WriteFile(send("foo.txt"), send("hello")));
}

#[test]
fn files_without_slash_closes() {
    assert_eq!(handle(b"GET /files HTTP/1.1\r\n\r\n"), Action::Close);
    assert_eq!(handle(b"GET /filesfoo HTTP/1.1\r\n\r\n"), Action::Close);
}

#[test]
fn file_round_trip() {
    let post = handle(b"POST /files/foo.txt HTTP/1.1\r\n\r\nsome words");
    let stored = match post {
        Action::WriteFile(name, body) => {
            assert_eq!(name, send("foo.txt"));
            body
        }
        other => panic!("unexpected {:?}", other),
    };
    assert_eq!(post_file_resp(true), Some(send("HTTP/1.1 201 Created\r\n\r\n")));
    assert_eq!(handle(b"GET /files/foo.txt HTTP/1.1\r\n\r\n"), Action::ReadFile(send("foo.txt")));
    assert_eq!(
        get_file_resp(Some(&stored)),
        Some(send(
            "HTTP/1.1 200 OK\r\nContent-Length: 10\r\nContent-Type: application/octet-stream\r\n\r\nsome words"
        ))
    );
}

#[test]
fn missing_file_is_not_found() {
    assert_eq!(get_file_resp(None), Some(send("HTTP/1.1 404 Not Found\r\n\r\n")));
}

#[test]
fn file_not_utf8_closes() {
    assert_eq!(get_file_resp(Some(&[0xff, 0xfe])), None);
}

#[test]
fn failed_write_closes() {
    assert_eq!(post_file_resp(false), None);
}

#[test]
fn malformed_header_is_skipped() {
    let r = parse_request(b"GET / HTTP/1.1\r\nX-Bad-Header-No-Colon\r\nAccept: */*\r\nNoSpace:x\r\n\r\n")
        .unwrap();
    assert_eq!(r.headers.get(b"accept"), Some(&send("*/*")));
    assert_eq!(r.headers.get(b"x-bad-header-no-colon"), None);
    assert_eq!(r.headers.get(b"nospace"), None);
}

#[test]
fn parse_fields() {
    let r = parse_request(b"POST /files/a HTTP/1.1\r\nHost: h\r\nX-Two: a: b\r\n\r\nbody\r\nmore").unwrap();
    assert_eq!(r.method, send("POST"));
    assert_eq!(r.path, send("/files/a"));
    assert_eq!(r.headers.get(b"host"), Some(&send("h")));
    assert_eq!(r.headers.get(b"x-two"), Some(&send("a: b")));
    assert_eq!(r.body, send("body"));
}

#[test]
fn parse_empty_value() {
    let r = parse_request(b"GET / HTTP/1.1\r\nX-Empty: \r\n\r\n").unwrap();
    assert_eq!(r.headers.get(b"x-empty"), Some(&Vec::new()));
    assert_eq!(r.body, Vec::<u8>::new());
}

#[test]
fn parse_rejects_bad_input() {
    assert!(parse_request(b"").is_none());
    assert!(parse_request(b"GET / HTTP/1.1\r\nHost: h\r\n").is_none());
    assert!(parse_request(b"GET / HTTP/1.1\r\n\r\n").is_some());
    assert!(parse_request(b"GET / HTTP/1.1\r\n").is_none());
    assert!(parse_request(b"GET\r\n\r\n").is_none());
    assert!(parse_request(b"GET / HTTP/1.1\r\n\r\n\xff").is_none());
    assert_eq!(handle(b"GET / HTTP/1.1"), Action::Close);
}

#[test]
fn parse_path_stops_at_space() {
    let r = parse_request(b"GET /echo/x y z\r\n\r\n").unwrap();
    assert_eq!(r.path, send("/echo/x"));
    let r = parse_request(b"GET /\r\n\r\n").unwrap();
    assert_eq!(r.path, send("/"));
}

#[test]
fn header_names_are_lower_cased() {
    assert_eq!(lower_name("Content-TYPE".as_bytes()), send("content-type"));
    assert_eq!(lower_name("ÄB".as_bytes()), send("äb"));
}

#[test]
fn utf8_check() {
    assert!(is_utf8("héllo".as_bytes()));
    assert!(!is_utf8(&[0xc3]));
    assert!(!is_utf8(&[0xed, 0xa0, 0x80]));
}

#[test]
fn body_response_lengths() {
    assert_eq!(
        get_body_resp(Status::Success, ContentType::OctetStream, &[b'x'; 1234]),
        [
            send("HTTP/1.1 200 OK\r\nContent-Length: 1234\r\nContent-Type: application/octet-stream\r\n\r\n"),
            vec![b'x'; 1234]
        ]
        .concat()
    );
}

#[test]
fn empty_responses() {
    assert_eq!(get_empty_resp(Status::Created), send("HTTP/1.1 201 Created\r\n\r\n"));
    assert_eq!(get_empty_resp(Status::NotFound), send("HTTP/1.1 404 Not Found\r\n\r\n"));
}

#[test]
fn routes() {
    assert_eq!(route(b"GET", b"/"), Route::Root);
    assert_eq!(route(b"POST", b"/echo/x"), Route::Echo);
    assert_eq!(route(b"GET", b"/echo"), Route::NotFound);
    assert_eq!(route(b"GET", b"/user-agent"), Route::UserAgent);
    assert_eq!(route(b"GET", b"/user-agent/x"), Route::NotFound);
    assert_eq!(route(b"GET", b"/files/a"), Route::FileGet);
    assert_eq!(route(b"POST", b"/files/a"), Route::FilePost);
    assert_eq!(route(b"PUT", b"/files/a"), Route::FileMethodNotAllowed);
    assert_eq!(route(b"get", b"/files/a"), Route::FileMethodNotAllowed);
}
