//! Construction of the wire requests the client issues, and the grammar
//! they follow.
//!
//! Each one-shot command is a single request over a fresh connection; the
//! surrounding process writes the returned bytes to the daemon's socket
//! and hands the raw response back to the parsing entry points.

use vstd::prelude::*;

use crate::text::{find_first, find_sub, lemma_find_sub_first, match_at, str_eq};
use vstd::utf8::{decode_utf8, encode_utf8, encode_utf8_decode_utf8};

verus! {

/// What follows the method and path of every one-shot request: protocol
/// version, host header, and the close-after-response connection policy.
pub open spec fn close_suffix() -> Seq<char> {
    " HTTP/1.0\r\nHost:localhost\r\nConnection:close\r\n\r\n"@
}

/// The full text of a one-shot request for `path` (method included).
pub open spec fn request_text(path: Seq<char>) -> Seq<char> {
    path + close_suffix()
}

/// Builds the one-shot request for `path`, where `path` carries the
/// method and target (for example `GET /containers/json?all=1`).
pub fn generate_raw_http_request(path: String) -> (r: Vec<u8>)
    ensures
        r@ == encode_utf8(request_text(path@)),
{
    let mut request = path;
    request.append(" HTTP/1.0\r\nHost:localhost\r\nConnection:close\r\n\r\n");
    request.as_str().as_bytes_vec()
}

/// The snapshot listing request: every entity, stopped ones included.
/// The raw response answers to `parse_array`.
pub fn get_containers() -> (r: Vec<u8>)
    ensures
        r@ == encode_utf8(request_text("GET /containers/json?all=1"@)),
{
    generate_raw_http_request(String::from_str("GET /containers/json?all=1"))
}

/// The request line that starts the entity `id`.
pub open spec fn start_path(id: Seq<char>) -> Seq<char> {
    "POST /containers/"@ + id + "/start"@
}

/// The request line that stops the entity `id`.
pub open spec fn stop_path(id: Seq<char>) -> Seq<char> {
    "POST /containers/"@ + id + "/stop"@
}

/// The request line that fetches the logs of the entity `id`, stdout and
/// stderr both selected.
pub open spec fn logs_path(id: Seq<char>) -> Seq<char> {
    "GET /containers/"@ + id + "/logs?stdout=true&stderr=true"@
}

/// The one-shot request that starts the entity `id`.
pub fn start_container(id: &String) -> (r: Vec<u8>)
    ensures
        r@ == encode_utf8(request_text(start_path(id@))),
{
    let mut path = String::from_str("POST /containers/");
    path.append(id.as_str());
    path.append("/start");
    generate_raw_http_request(path)
}

/// The one-shot request that stops the entity `id`.
pub fn stop_container(id: &String) -> (r: Vec<u8>)
    ensures
        r@ == encode_utf8(request_text(stop_path(id@))),
{
    let mut path = String::from_str("POST /containers/");
    path.append(id.as_str());
    path.append("/stop");
    generate_raw_http_request(path)
}

/// The stop-then-start pair a restart issues, in issue order; the second
/// request is sent only after the first one's connection completed.
pub fn restart_container(id: &String) -> (r: (Vec<u8>, Vec<u8>))
    ensures
        r.0@ == encode_utf8(request_text(stop_path(id@))),
        r.1@ == encode_utf8(request_text(start_path(id@))),
{
    (stop_container(id), start_container(id))
}

/// The one-shot request that fetches the logs of the entity `id`. The
/// response body is free-form bytes and is decoded lossily by the caller.
pub fn get_logs(id: &String) -> (r: Vec<u8>)
    ensures
        r@ == encode_utf8(request_text(logs_path(id@))),
{
    let mut path = String::from_str("GET /containers/");
    path.append(id.as_str());
    path.append("/logs?stdout=true&stderr=true");
    generate_raw_http_request(path)
}

/// The full text of the long-lived event-stream request: keep-alive, the
/// connection stays open for the process lifetime.
pub open spec fn stream_request_text() -> Seq<char> {
    "GET /events HTTP/1.0\r\nHost:localhost\r\nConnection:keep-alive\r\n\r\n"@
}

/// The streaming request issued once, when the event stream is opened.
pub fn events_request() -> (r: Vec<u8>)
    ensures
        r@ == encode_utf8(stream_request_text()),
{
    let request = String::from_str(
        "GET /events HTTP/1.0\r\nHost:localhost\r\nConnection:keep-alive\r\n\r\n",
    );
    request.as_str().as_bytes_vec()
}

/// The request grammar read back: the text up to the first line break,
/// its protocol-version suffix removed, is the method and path.
pub open spec fn spec_decode_request(s: Seq<char>) -> Option<Seq<char>> {
    match find_sub(s, "\r\n"@) {
        Some(i) => {
            let line = s.subrange(0, i);
            if line.len() >= 9 && line.subrange(line.len() - 9, line.len() as int)
                == " HTTP/1.0"@ {
                Some(line.subrange(0, line.len() - 9))
            } else {
                None
            }
        },
        None => None,
    }
}

/// Reference decoder for the request grammar: recovers the method and
/// path from the first line of a built request.
pub fn decode_request(request: &str) -> (r: Option<String>)
    ensures
        match r {
            Some(p) => spec_decode_request(request@) == Some(p@),
            None => spec_decode_request(request@) is None,
        },
{
    proof {
        reveal_strlit("\r\n");
    }
    match find_first(request, "\r\n") {
        Some(i) => {
            proof {
                lemma_find_sub_first(request@, "\r\n"@);
            }
            if i < 9 {
                return None;
            }
            let line = request.substring_char(0, i);
            let suffix = line.substring_char(i - 9, i);
            if str_eq(suffix, " HTTP/1.0") {
                Some(String::from_str(line.substring_char(0, i - 9)))
            } else {
                None
            }
        },
        None => None,
    }
}

/// Law: a built request's bytes decode back to the method and path they
/// were built from, provided the path contains no line break of its own.
pub proof fn lemma_request_round_trip(path: Seq<char>)
    requires
        find_sub(path, "\r\n"@) is None,
    ensures
        spec_decode_request(decode_utf8(encode_utf8(request_text(path)))) == Some(path),
{
    broadcast use encode_utf8_decode_utf8;

    reveal_strlit("\r\n");
    reveal_strlit(" HTTP/1.0");
    reveal_strlit(" HTTP/1.0\r\nHost:localhost\r\nConnection:close\r\n\r\n");
    let s = request_text(path);
    let n = path.len() as int;
    lemma_find_sub_first(path, "\r\n"@);
    assert(s.subrange(n + 9, n + 11) =~= "\r\n"@);
    assert(match_at(s, "\r\n"@, n + 9));
    assert forall|j: int| 0 <= j < n + 9 implies !match_at(s, "\r\n"@, j) by {
        if match_at(s, "\r\n"@, j) {
            assert(s.subrange(j, j + 2)[0] == s[j]);
            assert(s.subrange(j, j + 2)[1] == s[j + 1]);
            if j + 1 < n {
                assert(path.subrange(j, j + 2) =~= s.subrange(j, j + 2));
                assert(match_at(path, "\r\n"@, j));
            } else if j + 1 == n {
                assert(s[j + 1] == close_suffix()[0]);
            } else {
                assert(s[j] == close_suffix()[j - n]);
            }
        }
    }
    lemma_find_sub_first(s, "\r\n"@);
    let found = find_sub(s, "\r\n"@);
    assert(found == Some(n + 9)) by {
        match found {
            Some(k) => {
                if k < n + 9 {
                    assert(!match_at(s, "\r\n"@, k));
                }
                if k > n + 9 {
                    assert(!match_at(s, "\r\n"@, n + 9));
                }
            },
            None => {
                assert(!match_at(s, "\r\n"@, n + 9));
            },
        }
    }
    let line = s.subrange(0, n + 9);
    assert(line.subrange(line.len() - 9, line.len() as int) =~= " HTTP/1.0"@);
    assert(line.subrange(0, line.len() - 9) =~= path);
}

} // verus!
