//! The decisions of the HTTP/SSE and WebSocket endpoints through which
//! external agents send forms to a session: reading the request line and
//! headers, choosing the answer, and the texts sent back. The sockets are
//! served by the daemon.
use vstd::prelude::*;
use crate::text::{
    ascii_lower, ascii_upper, chars_of, is_white_space, is_white_space_exec, lower_chars,
    parse_unsigned, parse_unsigned_spec, push_str, slice_chars, starts_with_seq, string_from_chars,
    to_owned_string, trim_chars, trim_seq, upper_chars, occurs_at_exec,
};

verus! {

/// The largest request body accepted (1 MB).
pub const MAX_BODY_BYTES: usize = 1048576;

/// The answer to a request body over the limit.
pub const RESPONSE_TOO_LARGE: &'static str = "HTTP/1.1 413 Content Too Large\r\nContent-Type: text/plain\r\n\r\nRequest body exceeds 1 MB limit";

/// The answer when the window no longer takes forms.
pub const RESPONSE_UNAVAILABLE: &'static str = "HTTP/1.1 503 Service Unavailable\r\n\r\n";

/// The head of the event stream that carries a form's result.
pub const RESPONSE_EVENT_STREAM: &'static str = "HTTP/1.1 200 OK\r\nContent-Type: text/event-stream\r\nCache-Control: no-cache\r\nConnection: keep-alive\r\n\r\n";

/// The event that tells the agent its form is on show.
pub const EVENT_WAITING: &'static str = "event: waiting\ndata: {\"status\":\"waiting\"}\n\n";

/// The answer to a liveness probe.
pub const RESPONSE_HEALTH: &'static str = "HTTP/1.1 200 OK\r\nContent-Type: application/json\r\n\r\n{\"status\":\"ok\"}";

/// The answer to any other request.
pub const RESPONSE_NOT_FOUND: &'static str = "HTTP/1.1 404 Not Found\r\n\r\n";

/// The WebSocket message when the window no longer takes forms.
pub const WS_DAEMON_CLOSED: &'static str = "{\"error\":\"daemon closed\"}";

/// The WebSocket message that tells the agent its form is on show.
pub const WS_WAITING: &'static str = "{\"type\":\"waiting\",\"status\":\"waiting\"}";

/// The number of leading characters of `s` that are not white space.
pub open spec fn word_len(s: Seq<char>) -> nat
    decreases s.len(),
{
    if s.len() > 0 && !is_white_space(s[0]) {
        1 + word_len(s.drop_first())
    } else {
        0
    }
}

/// `s` without its leading white space.
pub open spec fn skip_ws(s: Seq<char>) -> Seq<char>
    decreases s.len(),
{
    if s.len() > 0 && is_white_space(s[0]) {
        skip_ws(s.drop_first())
    } else {
        s
    }
}

/// The first white-space separated word of `s` (empty where it has none).
pub open spec fn first_word(s: Seq<char>) -> Seq<char> {
    skip_ws(s).take(word_len(skip_ws(s)) as int)
}

/// What follows the first word of `s`.
pub open spec fn after_first_word(s: Seq<char>) -> Seq<char> {
    skip_ws(s).skip(word_len(skip_ws(s)) as int)
}

/// The method (in ASCII upper case) and the path of an HTTP request line:
/// its first two white-space separated words; `None` where it has fewer.
pub open spec fn request_line_spec(line: Seq<char>) -> Option<(Seq<char>, Seq<char>)> {
    let method = first_word(line);
    let path = first_word(after_first_word(line));
    if method.len() > 0 && path.len() > 0 {
        Some((method.map_values(|c: char| ascii_upper(c)), path))
    } else {
        None
    }
}

/// The index of the first white space in `s` at or after `i`, or its length.
fn word_end(s: &[char], i: usize) -> (j: usize)
    requires
        i <= s.len(),
    ensures
        i <= j <= s.len(),
        word_len(s@.skip(i as int)) == j - i,
{
    let mut j = i;
    while j < s.len() && !is_white_space_exec(s[j])
        invariant
            i <= j <= s.len(),
            word_len(s@.skip(i as int)) == (j - i) + word_len(s@.skip(j as int)),
        decreases s.len() - j,
    {
        assert(s@.skip(j as int).drop_first() =~= s@.skip(j + 1));
        j = j + 1;
    }
    proof {
        if j < s.len() {
            assert(s@.skip(j as int)[0] == s@[j as int]);
        }
    }
    j
}

/// The index of the first character of `s` at or after `i` that is not
/// white space, or its length.
fn ws_end(s: &[char], i: usize) -> (j: usize)
    requires
        i <= s.len(),
    ensures
        i <= j <= s.len(),
        skip_ws(s@.skip(i as int)) == s@.skip(j as int),
{
    let mut j = i;
    while j < s.len() && is_white_space_exec(s[j])
        invariant
            i <= j <= s.len(),
            skip_ws(s@.skip(i as int)) == skip_ws(s@.skip(j as int)),
        decreases s.len() - j,
    {
        assert(s@.skip(j as int).drop_first() =~= s@.skip(j + 1));
        j = j + 1;
    }
    proof {
        if j < s.len() {
            assert(s@.skip(j as int)[0] == s@[j as int]);
        }
    }
    j
}

/// The method (in ASCII upper case) and the path of an HTTP request line.
pub fn parse_request_line(line: &str) -> (r: Option<(String, String)>)
    ensures
        match r {
            Some((m, p)) => request_line_spec(line@) == Some((m@, p@)),
            None => request_line_spec(line@) is None,
        },
{
    let cs = chars_of(line);
    let ghost s = cs@;
    assert(s.skip(0) =~= s);
    let a = ws_end(cs.as_slice(), 0);
    let b = word_end(cs.as_slice(), a);
    let c = ws_end(cs.as_slice(), b);
    let d = word_end(cs.as_slice(), c);
    proof {
        assert(s.skip(a as int).take(b - a) =~= s.subrange(a as int, b as int));
        assert(s.skip(a as int).skip(b - a) =~= s.skip(b as int));
        assert(s.skip(c as int).take(d - c) =~= s.subrange(c as int, d as int));
    }
    if b == a || d == c {
        return None;
    }
    let method_raw = slice_chars(cs.as_slice(), a, b);
    let method = upper_chars(method_raw.as_slice());
    let path = slice_chars(cs.as_slice(), c, d);
    Some((string_from_chars(method.as_slice()), string_from_chars(path.as_slice())))
}

/// One header line of an HTTP request.
#[derive(Debug, Clone, Copy, PartialEq, Eq, Structural)]
pub enum HeaderLine {
    /// The empty line that ends the headers.
    End,
    /// A `Content-Length` header, with its value (0 where it is not a number).
    ContentLength { length: usize },
    /// Any other header.
    Other,
}

/// A header line, read without surrounding white space and in ASCII lower
/// case: empty, `content-length:` and a number (0 where what follows, without
/// surrounding white space, is not an unsigned number), or another header.
pub open spec fn header_line_spec(line: Seq<char>) -> HeaderLine {
    let h = trim_seq(line).map_values(|c: char| ascii_lower(c));
    if h.len() == 0 {
        HeaderLine::End
    } else if starts_with_seq(h, "content-length:"@) {
        let v = trim_seq(h.skip("content-length:"@.len() as int));
        HeaderLine::ContentLength {
            length: match parse_unsigned_spec(v, usize::MAX as nat) {
                Some(n) => n as usize,
                None => 0,
            },
        }
    } else {
        HeaderLine::Other
    }
}

/// Reads one header line of an HTTP request.
pub fn header_line(line: &str) -> (r: HeaderLine)
    ensures
        r == header_line_spec(line@),
{
    let cs = chars_of(line);
    let t = trim_chars(cs.as_slice());
    let h = lower_chars(t.as_slice());
    if h.len() == 0 {
        return HeaderLine::End;
    }
    let prefix = chars_of("content-length:");
    if occurs_at_exec(h.as_slice(), prefix.as_slice(), 0) {
        let rest = slice_chars(h.as_slice(), prefix.len(), h.len());
        assert(rest@ =~= h@.skip("content-length:"@.len() as int));
        let v = trim_chars(rest.as_slice());
        let length = match parse_unsigned(v.as_slice(), usize::MAX as u64) {
            Some(n) => n as usize,
            None => 0,
        };
        HeaderLine::ContentLength { length }
    } else {
        HeaderLine::Other
    }
}

/// What the HTTP endpoint does with a request.
#[derive(Debug, Clone, Copy, PartialEq, Eq, Structural)]
pub enum HttpRoute {
    /// Read a form spec of `length` bytes, show it, and stream its result.
    ReadForm { length: usize },
    /// Refuse a form spec over the size limit.
    TooLarge,
    /// Answer a liveness probe.
    Health,
    /// Answer that nothing is here.
    NotFound,
}

/// What the HTTP endpoint does with a request: `POST /form` takes a form
/// spec of at most `MAX_BODY_BYTES` bytes, `GET /health` answers a liveness
/// probe, and anything else is not found.
pub open spec fn route_spec(method: Seq<char>, path: Seq<char>, content_length: usize) -> HttpRoute {
    if method == "POST"@ && path == "/form"@ {
        if content_length > MAX_BODY_BYTES {
            HttpRoute::TooLarge
        } else {
            HttpRoute::ReadForm { length: content_length }
        }
    } else if method == "GET"@ && path == "/health"@ {
        HttpRoute::Health
    } else {
        HttpRoute::NotFound
    }
}

/// What the HTTP endpoint does with a request.
pub fn route(method: &str, path: &str, content_length: usize) -> (r: HttpRoute)
    ensures
        r == route_spec(method@, path@, content_length),
{
    let m = chars_of(method);
    let p = chars_of(path);
    if crate::text::chars_is(m.as_slice(), "POST") && crate::text::chars_is(p.as_slice(), "/form") {
        if content_length > MAX_BODY_BYTES {
            HttpRoute::TooLarge
        } else {
            HttpRoute::ReadForm { length: content_length }
        }
    } else if crate::text::chars_is(m.as_slice(), "GET") && crate::text::chars_is(p.as_slice(), "/health") {
        HttpRoute::Health
    } else {
        HttpRoute::NotFound
    }
}

/// The answer to a form spec that could not be read, with the reason.
pub fn bad_request_response(reason: &str) -> (r: String)
    ensures
        r@ == "HTTP/1.1 400 Bad Request\r\nContent-Type: text/plain\r\n\r\n"@ + reason@,
{
    let mut s = to_owned_string("HTTP/1.1 400 Bad Request\r\nContent-Type: text/plain\r\n\r\n");
    push_str(&mut s, reason);
    s
}

/// The event that carries a form's result, serialized as `json`.
pub fn result_event(json: &str) -> (r: String)
    ensures
        r@ == "event: result\ndata: "@ + json@ + "\n\n"@,
{
    let mut s = to_owned_string("event: result\ndata: ");
    push_str(&mut s, json);
    push_str(&mut s, "\n\n");
    s
}

/// The WebSocket message for a form spec that could not be read.
pub fn ws_error_message(reason: &str) -> (r: String)
    ensures
        r@ == "{\"error\":\""@ + reason@ + "\"}"@,
{
    let mut s = to_owned_string("{\"error\":\"");
    push_str(&mut s, reason);
    push_str(&mut s, "\"}");
    s
}

/// The WebSocket message that carries a form's result, serialized as `json`.
pub fn ws_result_message(json: &str) -> (r: String)
    ensures
        r@ == "{\"type\":\"result\",\"data\":"@ + json@ + "}"@,
{
    let mut s = to_owned_string("{\"type\":\"result\",\"data\":");
    push_str(&mut s, json);
    push_str(&mut s, "}");
    s
}

} // verus!
