//! The HTTP side of the observation endpoint: reading a request, choosing an answer,
//! writing it.
use crate::server::observe::OBSERVE_REQUEST_LIMIT;
use crate::text;
use vstd::prelude::*;
use vstd::utf8::*;

verus! {

/// The request header is complete at `i`.
pub open spec fn ends_at(bytes: Seq<u8>, i: int) -> bool {
    0 <= i && i + 4 <= bytes.len() && bytes[i] == 13 && bytes[i + 1] == 10 && bytes[i + 2] == 13
        && bytes[i + 3] == 10
}

/// The bytes hold a complete request header.
pub open spec fn complete(bytes: Seq<u8>) -> bool {
    exists|i: int| #[trigger] ends_at(bytes, i)
}

/// What to do with a request that was read so far.
#[derive(Clone, Copy, PartialEq, Eq, Debug, Structural)]
pub enum RequestStep {
    /// Read at most this many bytes more.
    ReadMore(usize),
    TooLarge,
    Complete,
}

/// Decides whether a request is complete.
pub fn request_step(received: &[u8]) -> (r: RequestStep)
    requires
        received@.len() <= OBSERVE_REQUEST_LIMIT,
    ensures
        r == (if complete(received@) {
            RequestStep::Complete
        } else if received@.len() == OBSERVE_REQUEST_LIMIT {
            RequestStep::TooLarge
        } else {
            RequestStep::ReadMore((OBSERVE_REQUEST_LIMIT - received@.len()) as usize)
        }),
{
    let n: usize = received.len();
    let mut i: usize = 0;
    while i + 4 <= n
        invariant
            n == received@.len(),
            n <= OBSERVE_REQUEST_LIMIT,
            i <= n,
            forall|j: int| 0 <= j < i ==> !ends_at(received@, j),
        decreases n - i,
    {
        if received[i] == 13 && received[i + 1] == 10 && received[i + 2] == 13 && received[i + 3]
            == 10 {
            proof {
                assert(ends_at(received@, i as int));
            }
            return RequestStep::Complete;
        }
        i += 1;
    }
    if n == OBSERVE_REQUEST_LIMIT {
        RequestStep::TooLarge
    } else {
        RequestStep::ReadMore(OBSERVE_REQUEST_LIMIT - n)
    }
}

/// Whether a character is white space.
pub open spec fn is_space(c: char) -> bool {
    let n = c as u32;
    9 <= n <= 13 || n == 0x20 || n == 0x85 || n == 0xa0 || n == 0x1680 || 0x2000 <= n <= 0x200a || n
        == 0x2028 || n == 0x2029 || n == 0x202f || n == 0x205f || n == 0x3000
}

fn is_white(c: char) -> (r: bool)
    ensures
        r == is_space(c),
{
    let n: u32 = c as u32;
    (9 <= n && n <= 13) || n == 0x20 || n == 0x85 || n == 0xa0 || n == 0x1680 || (0x2000 <= n && n
        <= 0x200a) || n == 0x2028 || n == 0x2029 || n == 0x202f || n == 0x205f || n == 0x3000
}

/// The first place from `from` on where a character is white space or not, as `white` says,
/// or the end.
pub open spec fn find_space(s: Seq<char>, from: int, white: bool) -> int
    decreases s.len() - from,
{
    if from >= s.len() || is_space(s[from]) == white {
        from
    } else {
        find_space(s, from + 1, white)
    }
}

/// The first place from `from` on where the character is `c`, or the end.
pub open spec fn find_char(s: Seq<char>, from: int, c: char) -> int
    decreases s.len() - from,
{
    if from >= s.len() || s[from] == c {
        from
    } else {
        find_char(s, from + 1, c)
    }
}

fn space_index(s: &Vec<char>, from: usize, end: usize, white: bool) -> (r: usize)
    requires
        from <= end <= s@.len(),
    ensures
        from <= r <= end,
        r == find_space(s@.take(end as int), from as int, white),
{
    let ghost t = s@.take(end as int);
    let mut i: usize = from;
    while i < end && is_white(s[i]) != white
        invariant
            from <= i <= end <= s@.len(),
            t == s@.take(end as int),
            find_space(t, from as int, white) == find_space(t, i as int, white),
        decreases end - i,
    {
        i += 1;
    }
    i
}

fn char_index(s: &Vec<char>, from: usize, end: usize, c: char) -> (r: usize)
    requires
        from <= end <= s@.len(),
    ensures
        from <= r <= end,
        r == find_char(s@.take(end as int), from as int, c),
{
    let ghost t = s@.take(end as int);
    let mut i: usize = from;
    while i < end && s[i] != c
        invariant
            from <= i <= end <= s@.len(),
            t == s@.take(end as int),
            find_char(t, from as int, c) == find_char(t, i as int, c),
        decreases end - i,
    {
        i += 1;
    }
    i
}

/// The first line, without the line break.
pub open spec fn first_line(s: Seq<char>) -> Seq<char> {
    let end = find_char(s, 0, '\n');
    if end < s.len() && end > 0 && s[end - 1] == '\r' {
        s.take(end - 1)
    } else {
        s.take(end)
    }
}

/// The first word of a request line.
pub open spec fn method_of(line: Seq<char>) -> Seq<char> {
    let a = find_space(line, 0, false);
    let b = find_space(line, a, true);
    line.subrange(a, b)
}

/// The second word of a request line up to the query, or the root where there is none.
pub open spec fn path_of(line: Seq<char>) -> Seq<char> {
    let a = find_space(line, 0, false);
    let b = find_space(line, a, true);
    let c = find_space(line, b, false);
    let d = find_space(line, c, true);
    if c >= line.len() {
        "/"@
    } else {
        line.subrange(c, find_char(line.take(d), c, '?'))
    }
}

/// The text of a request; bytes that are no text count as none.
pub open spec fn request_text(bytes: Seq<u8>) -> Seq<char> {
    if valid_utf8(bytes) {
        decode_utf8(bytes)
    } else {
        Seq::empty()
    }
}

/// What a request asks for.
#[derive(Debug, PartialEq, Eq)]
pub struct Request {
    pub method: String,
    pub path: String,
}

/// Reads the request line of a request.
pub fn parse_request(received: &[u8]) -> (r: Request)
    ensures
        r.method@ == method_of(first_line(request_text(received@))),
        r.path@ == path_of(first_line(request_text(received@))),
{
    let chars = match core::str::from_utf8(received) {
        Ok(s) => text::chars_of(s),
        Err(_) => {
            let none: Vec<char> = Vec::new();
            none
        },
    };
    let ghost s = request_text(received@);
    proof {
        assert(chars@ =~= s);
        assert(s.take(s.len() as int) =~= s);
    }
    let newline: usize = char_index(&chars, 0, chars.len(), '\n');
    let end: usize = if newline < chars.len() && newline > 0 && chars[newline - 1] == '\r' {
        newline - 1
    } else {
        newline
    };
    let ghost line = first_line(s);
    proof {
        assert(chars@.take(end as int) =~= line);
    }
    let a: usize = space_index(&chars, 0, end, false);
    let b: usize = space_index(&chars, a, end, true);
    let c: usize = space_index(&chars, b, end, false);
    let d: usize = space_index(&chars, c, end, true);
    let method = text::text_of(&chars.as_slice()[a..b]);
    proof {
        assert(chars@.subrange(a as int, b as int) =~= line.subrange(a as int, b as int));
    }
    let path = if c >= end {
        "/".to_owned()
    } else {
        let query: usize = char_index(&chars, c, d, '?');
        proof {
            assert(chars@.take(d as int) =~= line.take(d as int));
            assert(chars@.subrange(c as int, query as int) =~= line.subrange(
                c as int,
                query as int,
            ));
        }
        text::text_of(&chars.as_slice()[c..query])
    };
    Request { method, path }
}

/// What is shown for a request.
#[derive(Clone, Copy, PartialEq, Eq, Debug, Structural)]
pub enum Route {
    MethodNotAllowed,
    Stats,
    Metrics,
    Health,
    NotFound,
}

/// What is shown for a method and a path.
pub open spec fn route_of(method: Seq<char>, path: Seq<char>) -> Route {
    if method != "GET"@ {
        Route::MethodNotAllowed
    } else if path == "/"@ || path == "/stats"@ {
        Route::Stats
    } else if path == "/metrics"@ {
        Route::Metrics
    } else if path == "/health"@ {
        Route::Health
    } else {
        Route::NotFound
    }
}

/// Chooses what is shown for a request.
pub fn route(request: &Request) -> (r: Route)
    ensures
        r == route_of(request.method@, request.path@),
{
    if request.method != "GET".to_owned() {
        return Route::MethodNotAllowed;
    }
    if request.path == "/".to_owned() || request.path == "/stats".to_owned() {
        return Route::Stats;
    }
    if request.path == "/metrics".to_owned() {
        return Route::Metrics;
    }
    if request.path == "/health".to_owned() {
        return Route::Health;
    }
    Route::NotFound
}

/// An answer.
pub struct Response {
    pub status: u16,
    pub content_type: &'static str,
    pub body: Vec<u8>,
}

/// The answer `r` has this status, content type and body.
pub open spec fn answers(r: Response, status: u16, content_type: Seq<char>, body: Seq<u8>) -> bool {
    r.status == status && r.content_type@ == content_type && r.body@ == body
}

fn plain(status: u16, body: &str) -> (r: Response)
    ensures
        answers(r, status, "text/plain; charset=utf-8"@, encode_utf8(body@)),
{
    Response {
        status,
        content_type: "text/plain; charset=utf-8",
        body: crate::protocol::slice_to_vec(body.as_bytes()),
    }
}

/// The answer to a request that is too large.
pub fn too_large() -> (r: Response)
    ensures
        answers(r, 431, "text/plain; charset=utf-8"@, encode_utf8("request too large\n"@)),
{
    plain(431, "request too large\n")
}

/// The answer for a route. `json` is the snapshot in JSON, or nothing where writing it
/// failed; `metrics` is the snapshot as Prometheus reads it.
pub fn respond(route: Route, json: Option<Vec<u8>>, metrics: &str) -> (r: Response)
    ensures
        match route {
            Route::MethodNotAllowed => answers(
                r,
                405,
                "text/plain; charset=utf-8"@,
                encode_utf8("method not allowed\n"@),
            ),
            Route::Stats => match json {
                Some(body) => answers(r, 200, "application/json"@, body@),
                None => answers(
                    r,
                    500,
                    "text/plain; charset=utf-8"@,
                    encode_utf8("internal error\n"@),
                ),
            },
            Route::Metrics => answers(
                r,
                200,
                "text/plain; version=0.0.4; charset=utf-8"@,
                encode_utf8(metrics@),
            ),
            Route::Health => answers(
                r,
                200,
                "text/plain; charset=utf-8"@,
                encode_utf8("ok\n"@),
            ),
            Route::NotFound => answers(
                r,
                404,
                "text/plain; charset=utf-8"@,
                encode_utf8("not found\n"@),
            ),
        },
{
    match route {
        Route::MethodNotAllowed => plain(405, "method not allowed\n"),
        Route::Stats => match json {
            Some(body) => Response { status: 200, content_type: "application/json", body },
            None => plain(500, "internal error\n"),
        },
        Route::Metrics => Response {
            status: 200,
            content_type: "text/plain; version=0.0.4; charset=utf-8",
            body: crate::protocol::slice_to_vec(metrics.as_bytes()),
        },
        Route::Health => plain(200, "ok\n"),
        Route::NotFound => plain(404, "not found\n"),
    }
}

/// The words for a status.
pub open spec fn reason(status: u16) -> Seq<char> {
    if status == 200 {
        "OK"@
    } else if status == 404 {
        "Not Found"@
    } else if status == 405 {
        "Method Not Allowed"@
    } else if status == 431 {
        "Request Header Fields Too Large"@
    } else if status == 500 {
        "Internal Server Error"@
    } else {
        "Error"@
    }
}

/// The header of an answer.
pub open spec fn response_header(status: u16, content_type: Seq<char>, len: nat) -> Seq<char> {
    "HTTP/1.1 "@ + text::decimal(status as nat) + " "@ + reason(status) + "\r\nContent-Type: "@
        + content_type + "\r\nContent-Length: "@ + text::decimal(len)
        + "\r\nConnection: close\r\n\r\n"@
}

/// The bytes of an answer.
pub fn write_response(response: &Response) -> (r: Vec<u8>)
    ensures
        r@ == encode_utf8(
            response_header(response.status, response.content_type@, response.body@.len()),
        ) + response.body@,
{
    let reason = if response.status == 200 {
        "OK"
    } else if response.status == 404 {
        "Not Found"
    } else if response.status == 405 {
        "Method Not Allowed"
    } else if response.status == 431 {
        "Request Header Fields Too Large"
    } else if response.status == 500 {
        "Internal Server Error"
    } else {
        "Error"
    };
    let mut header = String::new();
    header.push_str("HTTP/1.1 ");
    text::push_decimal(&mut header, response.status as u64);
    header.push_str(" ");
    header.push_str(reason);
    header.push_str("\r\nContent-Type: ");
    header.push_str(response.content_type);
    header.push_str("\r\nContent-Length: ");
    text::push_decimal(&mut header, response.body.len() as u64);
    header.push_str("\r\nConnection: close\r\n\r\n");
    proof {
        assert(header@ =~= response_header(
            response.status,
            response.content_type@,
            response.body@.len(),
        ));
    }
    let mut out = crate::protocol::slice_to_vec(header.as_str().as_bytes());
    let ghost head = out@;
    out.extend_from_slice(response.body.as_slice());
    proof {
        assert(out@ =~= head + response.body@);
    }
    out
}

/// What a request is answered: `GET` on the root or on `/stats` shows the snapshot in JSON, as it
/// was handed over, on `/metrics` the metrics, on `/health` that the server runs. Any other path
/// is not found, and any other method is refused whatever the path. Where there is no JSON, the
/// answer says that the server failed.
#[verifier::rlimit(60)]
pub proof fn law_requests_are_answered_by_path(
    request: &Request,
    way: Route,
    json: Option<Vec<u8>>,
    metrics: &str,
    r: Response,
)
    requires
        call_ensures(route, (request,), way),
        call_ensures(respond, (way, json, metrics), r),
    ensures
        request.method@ != "GET"@ ==> r.status == 405 && r.body@ == encode_utf8(
            "method not allowed\n"@,
        ),
        request.method@ == "GET"@ ==> {
            let path = request.path@;
            &&& path == "/"@ || path == "/stats"@ ==> (match json {
                Some(body) => r.status == 200 && r.content_type@ == "application/json"@ && r.body@
                    == body@,
                None => r.status == 500,
            })
            &&& path == "/metrics"@ ==> r.status == 200 && r.content_type@
                == "text/plain; version=0.0.4; charset=utf-8"@ && r.body@ == encode_utf8(metrics@)
            &&& path == "/health"@ ==> r.status == 200 && r.body@ == encode_utf8("ok\n"@)
            &&& path != "/"@ && path != "/stats"@ && path != "/metrics"@ && path != "/health"@
                ==> r.status == 404
        },
{
    reveal_strlit("/");
    reveal_strlit("/stats");
    reveal_strlit("/metrics");
    reveal_strlit("/health");
    assert("/"@.len() == 1 && "/stats"@.len() == 6 && "/health"@.len() == 7 && "/metrics"@.len()
        == 8);
}

/// An answer is written as a header that names the status, the type and the exact length of the
/// body, and closes the connection; and the body follows as it is, and nothing else.
pub proof fn law_an_answer_is_its_header_and_its_body(response: &Response, r: Vec<u8>)
    requires
        call_ensures(write_response, (response,), r),
    ensures
        exists|status: Seq<char>, words: Seq<char>, length: Seq<char>|
            #![trigger crate::helper::digits_value(status), words.len(), crate::helper::digits_value(length)]
            crate::helper::all_digits(status) && crate::helper::digits_value(status)
                == response.status && crate::helper::all_digits(length)
                && crate::helper::digits_value(length) == response.body@.len() && r@ == encode_utf8(
                "HTTP/1.1 "@ + status + " "@ + words + "\r\nContent-Type: "@
                    + response.content_type@ + "\r\nContent-Length: "@ + length
                    + "\r\nConnection: close\r\n\r\n"@,
            ) + response.body@,
{
    crate::helper::law_decimal_text_is_read_back(response.status as nat);
    crate::helper::law_decimal_text_is_read_back(response.body@.len());
    let status = text::decimal(response.status as nat);
    let length = text::decimal(response.body@.len());
    let words = reason(response.status);
    assert(crate::helper::digits_value(status) == response.status);
    assert(crate::helper::digits_value(length) == response.body@.len());
    assert(words.len() >= 0);
}

/// The word at a place ends where the first white space follows.
proof fn lemma_find_space(s: Seq<char>, from: int, to: int, white: bool)
    requires
        0 <= from <= to <= s.len(),
        forall|i: int| from <= i < to ==> is_space(#[trigger] s[i]) != white,
        to < s.len() ==> is_space(s[to]) == white,
    ensures
        find_space(s, from, white) == to,
    decreases to - from,
{
    if from < to {
        assert(is_space(s[from]) != white);
        lemma_find_space(s, from + 1, to, white);
    }
}

proof fn lemma_find_char(s: Seq<char>, from: int, to: int, c: char)
    requires
        0 <= from <= to <= s.len(),
        forall|i: int| from <= i < to ==> #[trigger] s[i] != c,
        to < s.len() ==> s[to] == c,
    ensures
        find_char(s, from, c) == to,
    decreases to - from,
{
    if from < to {
        assert(s[from] != c);
        lemma_find_char(s, from + 1, to, c);
    }
}

/// A text without white space.
pub open spec fn is_word(s: Seq<char>) -> bool {
    s.len() > 0 && forall|i: int| 0 <= i < s.len() ==> !is_space(#[trigger] s[i])
}

/// A request is read as it was written: its method is the first word of the first line, and its
/// path the second one, without a query, whatever the version and the headers say.
#[verifier::rlimit(60)]
pub proof fn law_a_request_line_is_read_back(
    received: &[u8],
    method: Seq<char>,
    path: Seq<char>,
    query: Seq<char>,
    version: Seq<char>,
    headers: Seq<char>,
    r: Request,
)
    requires
        call_ensures(parse_request, (received,), r),
        valid_utf8(received@),
        decode_utf8(received@) == method + seq![' '] + (path + query) + seq![' '] + version + seq![
            '\r',
            '\n',
        ] + headers,
        is_word(method),
        is_word(path),
        !path.contains('?'),
        query.len() > 0 ==> is_word(query) && query[0] == '?',
        is_word(version),
    ensures
        r.method@ == method,
        r.path@ == path,
{
    let s = decode_utf8(received@);
    let target = path + query;
    let line = method + seq![' '] + target + seq![' '] + version;
    let end = line.len() as int;
    assert(s =~= line + seq!['\r', '\n'] + headers);
    assert forall|i: int| 0 <= i < end implies #[trigger] s[i] != '\n' && s[i] == line[i] by {
        let m = method.len() as int;
        let t = target.len() as int;
        if i < m {
            assert(line[i] == method[i]);
        } else if m < i < m + 1 + t {
            assert(line[i] == target[i - m - 1]);
            if i - m - 1 < path.len() {
                assert(target[i - m - 1] == path[i - m - 1]);
            } else {
                assert(target[i - m - 1] == query[i - m - 1 - path.len()]);
            }
        } else if i > m + 1 + t {
            assert(line[i] == version[i - m - 2 - t]);
        }
    }
    assert(s[end] == '\r' && s[end + 1] == '\n');
    lemma_find_char(s, 0, end + 1, '\n');
    assert(first_line(s) =~= line);
    let a = method.len() as int;
    let c = a + 1;
    let d = c + target.len();
    assert forall|i: int| 0 <= i < a implies !is_space(#[trigger] line[i]) by {
        assert(line[i] == method[i]);
    }
    assert forall|i: int| c <= i < d implies !is_space(#[trigger] line[i]) by {
        assert(line[i] == target[i - c]);
        if i - c < path.len() {
            assert(target[i - c] == path[i - c]);
        } else {
            assert(target[i - c] == query[i - c - path.len()]);
        }
    }
    assert(line[a] == ' ' && line[d] == ' ');
    assert(!is_space(line[0]));
    assert(!is_space(line[c]));
    lemma_find_space(line, 0, 0, false);
    lemma_find_space(line, 0, a, true);
    lemma_find_space(line, a, c, false);
    lemma_find_space(line, c, d, true);
    assert(line.subrange(0, a) =~= method);
    let front = line.take(d);
    let q = c + path.len();
    assert forall|i: int| c <= i < q implies #[trigger] front[i] != '?' by {
        assert(front[i] == path[i - c]);
    }
    if q < d {
        assert(front[q] == query[0]);
    }
    lemma_find_char(front, c, q, '?');
    assert(line.subrange(c, q) =~= path);
}

/// A request is complete exactly once an empty line ended its header. Until then at most as much
/// is read as makes 8192 bytes in all, and one that is that long without an end is too large.
pub proof fn law_a_request_ends_with_an_empty_line(received: &[u8], r: RequestStep)
    requires
        received@.len() <= 8192,
        call_ensures(request_step, (received,), r),
    ensures
        r == RequestStep::Complete <==> exists|i: int|
            0 <= i <= received@.len() - 4 && #[trigger] received@.subrange(i, i + 4) == seq![
                13u8,
                10,
                13,
                10,
            ],
        r == RequestStep::TooLarge ==> received@.len() == 8192,
        r matches RequestStep::ReadMore(n) ==> n > 0 && received@.len() + n == 8192,
{
    let end = seq![13u8, 10, 13, 10];
    if complete(received@) {
        let i = choose|i: int| #[trigger] ends_at(received@, i);
        assert(received@.subrange(i, i + 4) =~= end);
    }
    if exists|i: int|
        0 <= i <= received@.len() - 4 && #[trigger] received@.subrange(i, i + 4) == end {
        let i = choose|i: int|
            0 <= i <= received@.len() - 4 && #[trigger] received@.subrange(i, i + 4) == end;
        let part = received@.subrange(i, i + 4);
        assert(part[0] == 13 && part[1] == 10 && part[2] == 13 && part[3] == 10);
        assert(ends_at(received@, i));
    }
}

} // verus!
