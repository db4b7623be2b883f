//! The client's local debug API: reading a plain HTTP request, choosing the
//! endpoint, and writing the JSON replies.
use vstd::prelude::*;
use crate::relay::strs_view;
use vstd::string::StringSliceAdditionalSpecFns;
use crate::text::{
    chars_of, concat, decimal, decimal_string, is_white_space, parse_unsigned, parse_unsigned_spec,
    push_char, trim, trim_range, trimmed, white_space,
};

verus! {

// ── Reading the request ──────────────────────────────

/// The whitespace-separated words of `s`, as `split_whitespace` yields them.
pub open spec fn words(s: Seq<char>) -> Seq<Seq<char>>
    decreases s.len(),
{
    if s.len() == 0 {
        Seq::empty()
    } else {
        let w = words(s.drop_last());
        if is_white_space(s.last()) {
            w
        } else if s.len() >= 2 && !is_white_space(s[s.len() - 2]) {
            w.update(w.len() - 1, w.last().push(s.last()))
        } else {
            w.push(seq![s.last()])
        }
    }
}

proof fn lemma_words_nonempty_after_word(s: Seq<char>)
    requires
        s.len() > 0,
        !is_white_space(s.last()),
    ensures
        words(s).len() > 0,
    decreases s.len(),
{
    if s.len() >= 2 && !is_white_space(s[s.len() - 2]) {
        assert(s.drop_last().last() == s[s.len() - 2]);
        lemma_words_nonempty_after_word(s.drop_last());
    }
}

/// The whitespace-separated words of `s`.
pub fn split_whitespace(s: &str) -> (r: Vec<String>)
    ensures
        strs_view(r@) == words(s@),
{
    let cs = chars_of(s);
    let mut out: Vec<String> = Vec::new();
    let mut i: usize = 0;
    while i < cs.len()
        invariant
            i <= cs@.len(),
            cs@ == s@,
            strs_view(out@) == words(cs@.take(i as int)),
        decreases cs@.len() - i,
    {
        let c = cs[i];
        let ghost t = cs@.take(i + 1);
        assert(t.drop_last() =~= cs@.take(i as int));
        assert(t.last() == c);
        if white_space(c) {
        } else if i >= 1 && !white_space(cs[i - 1]) {
            assert(t[t.len() - 2] == cs@[i - 1]);
            proof {
                assert(cs@.take(i as int).last() == cs@[i - 1]);
                lemma_words_nonempty_after_word(cs@.take(i as int));
            }
            let ghost before = strs_view(out@);
            let mut last = out.pop().unwrap();
            push_char(&mut last, c);
            out.push(last);
            assert(strs_view(out@) =~= before.update(before.len() - 1, before.last().push(c)));
        } else {
            let ghost before = strs_view(out@);
            let mut w = String::new();
            push_char(&mut w, c);
            out.push(w);
            assert(strs_view(out@) =~= before.push(seq![c]));
        }
        i = i + 1;
    }
    assert(cs@.take(i as int) =~= s@);
    out
}

/// The method and path of a request line: its first two words, or `GET /`
/// when it has fewer.
pub open spec fn request_target_spec(line: Seq<char>) -> (Seq<char>, Seq<char>) {
    let ws = words(trimmed(line));
    if ws.len() >= 2 {
        (ws[0], ws[1])
    } else {
        ("GET"@, "/"@)
    }
}

/// The method and path named by an HTTP request line.
pub fn request_target(request_line: &str) -> (r: (String, String))
    ensures
        (r.0@, r.1@) == request_target_spec(request_line@),
{
    let t = trim(request_line);
    let parts = split_whitespace(t.as_str());
    if parts.len() >= 2 {
        assert(strs_view(parts@)[0] == parts@[0]@);
        assert(strs_view(parts@)[1] == parts@[1]@);
        (parts[0].clone(), parts[1].clone())
    } else {
        ("GET".to_owned(), "/".to_owned())
    }
}

/// Whether a header line ends the headers: nothing but whitespace.
pub fn blank_line(line: &str) -> (b: bool)
    ensures
        b == (trimmed(line@).len() == 0),
{
    let t = trim(line);
    t.as_str().is_empty()
}

/// A header value as `str::trim` and `parse::<usize>` read it, zero when unreadable.
pub open spec fn length_value(v: Seq<char>) -> nat {
    match parse_unsigned_spec(trimmed(v), usize::MAX as nat) {
        Some(n) => n,
        None => 0,
    }
}

/// The body length after reading header `line`: a `Content-Length:` or
/// `content-length:` header sets it, any other line keeps `current`.
pub open spec fn content_length_after(line: Seq<char>, current: nat) -> nat {
    let upper = "Content-Length:"@;
    let lower = "content-length:"@;
    if lower.is_prefix_of(line) {
        length_value(line.skip(lower.len() as int))
    } else if upper.is_prefix_of(line) {
        length_value(line.skip(upper.len() as int))
    } else {
        current
    }
}

fn has_prefix(cs: &Vec<char>, p: &Vec<char>) -> (b: bool)
    ensures
        b == p@.is_prefix_of(cs@),
{
    if p.len() > cs.len() {
        return false;
    }
    let mut i: usize = 0;
    while i < p.len()
        invariant
            p@.len() <= cs@.len(),
            i <= p@.len(),
            forall|j: int| 0 <= j < i ==> cs@[j] == p@[j],
        decreases p@.len() - i,
    {
        if cs[i] != p[i] {
            assert(cs@.subrange(0, p@.len() as int)[i as int] != p@[i as int]);
            return false;
        }
        i = i + 1;
    }
    assert(p@ =~= cs@.subrange(0, p@.len() as int));
    true
}

fn read_length(cs: &Vec<char>, from: usize) -> (n: usize)
    requires
        from <= cs@.len(),
    ensures
        n == length_value(cs@.skip(from as int)),
{
    let t = trim_range(cs, from, cs.len());
    assert(cs@.subrange(from as int, cs@.len() as int) =~= cs@.skip(from as int));
    let tc = chars_of(t.as_str());
    assert(tc@.subrange(0, tc@.len() as int) =~= tc@);
    match parse_unsigned(&tc, 0, tc.len(), usize::MAX as u64) {
        Some(v) => v as usize,
        None => 0,
    }
}

/// The body length after reading header `line` (see `content_length_after`).
pub fn content_length_of(line: &str, current: usize) -> (n: usize)
    ensures
        n == content_length_after(line@, current as nat),
{
    let cs = chars_of(line);
    let upper = chars_of("Content-Length:");
    let lower = chars_of("content-length:");
    let mut n = current;
    if has_prefix(&cs, &upper) {
        n = read_length(&cs, upper.len());
    }
    if has_prefix(&cs, &lower) {
        n = read_length(&cs, lower.len());
    }
    n
}

// ── Choosing the endpoint ────────────────────────────

/// The debug API's endpoints.
#[derive(Debug, Clone, Copy, PartialEq, Eq)]
pub enum DebugRoute {
    Preflight,
    Ping,
    Status,
    Connect,
    Disconnect,
    SetLanGame,
    CreateRoom,
    JoinRoom,
    LeaveRoom,
    Events,
    ClearEvents,
    NotFound,
}

/// The endpoint for a request: every `OPTIONS` request is a preflight; other
/// requests go by path alone.
pub open spec fn route_of(method: Seq<char>, path: Seq<char>) -> DebugRoute {
    if method == "OPTIONS"@ {
        DebugRoute::Preflight
    } else if path == "/debug/ping"@ {
        DebugRoute::Ping
    } else if path == "/debug/status"@ {
        DebugRoute::Status
    } else if path == "/debug/connect"@ {
        DebugRoute::Connect
    } else if path == "/debug/disconnect"@ {
        DebugRoute::Disconnect
    } else if path == "/debug/set_lan_game"@ {
        DebugRoute::SetLanGame
    } else if path == "/debug/create_room"@ {
        DebugRoute::CreateRoom
    } else if path == "/debug/join_room"@ {
        DebugRoute::JoinRoom
    } else if path == "/debug/leave_room"@ {
        DebugRoute::LeaveRoom
    } else if path == "/debug/events"@ {
        DebugRoute::Events
    } else if path == "/debug/clear_events"@ {
        DebugRoute::ClearEvents
    } else {
        DebugRoute::NotFound
    }
}

fn same_text(a: &Vec<char>, b: &str) -> (r: bool)
    ensures
        r == (a@ == b@),
{
    let bc = chars_of(b);
    if a.len() != bc.len() {
        return false;
    }
    let mut i: usize = 0;
    while i < a.len()
        invariant
            a@.len() == bc@.len(),
            bc@ == b@,
            i <= a@.len(),
            forall|j: int| 0 <= j < i ==> a@[j] == bc@[j],
        decreases a@.len() - i,
    {
        if a[i] != bc[i] {
            return false;
        }
        i = i + 1;
    }
    assert(a@ =~= bc@);
    true
}

/// The endpoint that a request goes to.
pub fn route_debug_request(method: &str, path: &str) -> (r: DebugRoute)
    ensures
        r == route_of(method@, path@),
{
    let m = chars_of(method);
    let p = chars_of(path);
    if same_text(&m, "OPTIONS") {
        DebugRoute::Preflight
    } else if same_text(&p, "/debug/ping") {
        DebugRoute::Ping
    } else if same_text(&p, "/debug/status") {
        DebugRoute::Status
    } else if same_text(&p, "/debug/connect") {
        DebugRoute::Connect
    } else if same_text(&p, "/debug/disconnect") {
        DebugRoute::Disconnect
    } else if same_text(&p, "/debug/set_lan_game") {
        DebugRoute::SetLanGame
    } else if same_text(&p, "/debug/create_room") {
        DebugRoute::CreateRoom
    } else if same_text(&p, "/debug/join_room") {
        DebugRoute::JoinRoom
    } else if same_text(&p, "/debug/leave_room") {
        DebugRoute::LeaveRoom
    } else if same_text(&p, "/debug/events") {
        DebugRoute::Events
    } else if same_text(&p, "/debug/clear_events") {
        DebugRoute::ClearEvents
    } else {
        DebugRoute::NotFound
    }
}

// ── Replies ──────────────────────────────────────────

pub open spec fn preflight_text() -> Seq<char> {
    "{}"@
}

pub open spec fn ping_text() -> Seq<char> {
    "{\"ok\":true,\"service\":\"mcproxy\"}"@
}

pub open spec fn ok_text() -> Seq<char> {
    "{\"ok\":true}"@
}

pub open spec fn not_found_text() -> Seq<char> {
    "{\"error\":\"not found\",\"endpoints\":[\"/debug/ping\",\"/debug/status\",\"/debug/connect\",\"/debug/disconnect\",\"/debug/set_lan_game\",\"/debug/create_room\",\"/debug/join_room\",\"/debug/leave_room\",\"/debug/events\",\"/debug/clear_events\"]}"@
}

/// The reply of an endpoint that needs nothing but the request line: `{}` for a
/// preflight, the service banner for a ping, the endpoint list for an unknown
/// path; the others depend on the client (`None`).
pub fn fixed_reply(route: DebugRoute) -> (r: Option<String>)
    ensures
        route == DebugRoute::Preflight ==> (r matches Some(s) && s@ == preflight_text()),
        route == DebugRoute::Ping ==> (r matches Some(s) && s@ == ping_text()),
        route == DebugRoute::NotFound ==> (r matches Some(s) && s@ == not_found_text()),
        route != DebugRoute::Preflight && route != DebugRoute::Ping && route != DebugRoute::NotFound
            ==> r is None,
{
    match route {
        DebugRoute::Preflight => Some("{}".to_owned()),
        DebugRoute::Ping => Some("{\"ok\":true,\"service\":\"mcproxy\"}".to_owned()),
        DebugRoute::NotFound => Some(
            "{\"error\":\"not found\",\"endpoints\":[\"/debug/ping\",\"/debug/status\",\"/debug/connect\",\"/debug/disconnect\",\"/debug/set_lan_game\",\"/debug/create_room\",\"/debug/join_room\",\"/debug/leave_room\",\"/debug/events\",\"/debug/clear_events\"]}".to_owned(),
        ),
        _ => None,
    }
}

/// The reply of an action that succeeded.
pub fn ok_reply() -> (s: String)
    ensures
        s@ == ok_text(),
{
    "{\"ok\":true}".to_owned()
}

/// `s` with every double quote turned into a single quote.
pub open spec fn without_double_quotes(s: Seq<char>) -> Seq<char> {
    s.map_values(|c: char| if c == '"' { '\'' } else { c })
}

/// The reply of an action that failed with `message`; double quotes in the
/// message become single quotes.
pub fn error_reply(message: &str) -> (s: String)
    ensures
        s@ == "{\"error\":\""@ + without_double_quotes(message@) + "\"}"@,
{
    let cs = chars_of(message);
    let mut body = String::new();
    let mut i: usize = 0;
    while i < cs.len()
        invariant
            i <= cs@.len(),
            cs@ == message@,
            body@ == without_double_quotes(cs@.take(i as int)),
        decreases cs@.len() - i,
    {
        let c = cs[i];
        if c == '"' {
            push_char(&mut body, '\'');
        } else {
            push_char(&mut body, c);
        }
        i = i + 1;
        assert(body@ =~= without_double_quotes(cs@.take(i as int)));
    }
    assert(cs@.take(i as int) =~= message@);
    let mut s = concat("{\"error\":\"", body.as_str());
    s.append("\"}");
    s
}

/// The reply to a request body that could not be read, with the reader's `message`.
pub fn bad_request_reply(message: &str) -> (s: String)
    ensures
        s@ == "{\"error\":\"bad request: "@ + message@ + "\"}"@,
{
    let mut s = concat("{\"error\":\"bad request: ", message);
    s.append("\"}");
    s
}

pub open spec fn response_head() -> Seq<char> {
    "HTTP/1.1 200 OK\r\nContent-Type: application/json\r\nAccess-Control-Allow-Origin: *\r\nAccess-Control-Allow-Methods: GET, POST\r\nAccess-Control-Allow-Headers: Content-Type\r\nContent-Length: "@
}

/// The HTTP response carrying JSON `body`: status 200, CORS headers, and the
/// body's length in bytes.
pub fn http_response(body: &str) -> (s: String)
    ensures
        s@ == response_head() + decimal(body.spec_bytes().len()) + "\r\n\r\n"@ + body@,
{
    let n = body.as_bytes().len();
    let mut s = "HTTP/1.1 200 OK\r\nContent-Type: application/json\r\nAccess-Control-Allow-Origin: *\r\nAccess-Control-Allow-Methods: GET, POST\r\nAccess-Control-Allow-Headers: Content-Type\r\nContent-Length: ".to_owned();
    let len = decimal_string(n as u64);
    s.append(len.as_str());
    s.append("\r\n\r\n");
    s.append(body);
    s
}

} // verus!
