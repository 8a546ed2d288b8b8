//! The visualiser's HTTP: request lines, routes, percent-encoding and responses.

use crate::text::{after_prefix, chars_of, lossy_text, push_decimal, same_text, space};
use vstd::prelude::*;
use vstd::string::*;

verus! {

// ── Requests ────────────────────────────────────────────────────────

/// Length of the first line.
pub open spec fn line_len(s: Seq<char>) -> nat
    decreases s.len(),
{
    if s.len() == 0 || s[0] == '\n' {
        0
    } else {
        1 + line_len(s.drop_first())
    }
}

/// The first line, without its end.
pub open spec fn first_line(s: Seq<char>) -> Seq<char> {
    s.take(line_len(s) as int)
}

/// Number of characters before the first white space.
pub open spec fn word_len(s: Seq<char>) -> nat
    decreases s.len(),
{
    if s.len() == 0 || crate::text::is_space(s[0]) {
        0
    } else {
        1 + word_len(s.drop_first())
    }
}

/// The first word.
pub open spec fn first_word(s: Seq<char>) -> Seq<char> {
    let t = crate::text::trim_start(s);
    t.take(word_len(t) as int)
}

/// What follows the first word.
pub open spec fn after_word(s: Seq<char>) -> Seq<char> {
    let t = crate::text::trim_start(s);
    t.skip(word_len(t) as int)
}

/// `word`, or `other` where there is none.
pub open spec fn word_or(word: Seq<char>, other: Seq<char>) -> Seq<char> {
    if word.len() == 0 {
        other
    } else {
        word
    }
}

/// The method of a request: the first word of its first line.
pub open spec fn method_of(request: Seq<char>) -> Seq<char> {
    word_or(first_word(first_line(request)), "GET"@)
}

/// The path of a request: the second word of its first line.
pub open spec fn path_of(request: Seq<char>) -> Seq<char> {
    word_or(first_word(after_word(first_line(request))), "/"@)
}

/// Position of the first empty line from `from` on; the end where there is none.
pub open spec fn blank_at(s: Seq<char>, from: int) -> int
    decreases s.len() - from,
{
    if from + 4 > s.len() {
        s.len() as int
    } else if s[from] == '\r' && s[from + 1] == '\n' && s[from + 2] == '\r' && s[from + 3] == '\n' {
        from
    } else {
        blank_at(s, from + 1)
    }
}

/// The body of a request: what stands between its first empty line and the next.
pub open spec fn body_of(request: Seq<char>) -> Seq<char> {
    let start = blank_at(request, 0) + 4;
    if start > request.len() {
        Seq::empty()
    } else {
        request.subrange(start, blank_at(request, start))
    }
}

/// A request, as far as it is read.
#[derive(Debug)]
pub struct Request {
    pub method: String,
    pub path: String,
    pub body: String,
}

/// Finds the next word between `from` and `end`: where it starts and ends.
fn find_word(chars: &Vec<char>, from: usize, end: usize) -> (r: (usize, usize))
    requires
        from <= end <= chars@.len(),
    ensures
        from <= r.0 <= r.1 <= end,
        chars@.subrange(r.0 as int, r.1 as int) == first_word(
            chars@.subrange(from as int, end as int),
        ),
        chars@.subrange(r.1 as int, end as int) == after_word(
            chars@.subrange(from as int, end as int),
        ),
{
    let ghost all = chars@.subrange(from as int, end as int);
    let mut start: usize = from;
    while start < end && space(chars[start])
        invariant
            from <= start <= end <= chars@.len(),
            crate::text::trim_start(all) == crate::text::trim_start(
                chars@.subrange(start as int, end as int),
            ),
        decreases end - start,
    {
        assert(chars@.subrange(start as int, end as int).drop_first() =~= chars@.subrange(
            start + 1,
            end as int,
        ));
        start = start + 1;
    }
    let ghost rest = chars@.subrange(start as int, end as int);
    assert(crate::text::trim_start(all) == rest);
    let mut stop: usize = start;
    while stop < end && !space(chars[stop])
        invariant
            start <= stop <= end <= chars@.len(),
            word_len(rest) == stop - start + word_len(chars@.subrange(stop as int, end as int)),
        decreases end - stop,
    {
        assert(chars@.subrange(stop as int, end as int).drop_first() =~= chars@.subrange(
            stop + 1,
            end as int,
        ));
        stop = stop + 1;
    }
    assert(chars@.subrange(start as int, stop as int) =~= rest.take(stop - start));
    assert(chars@.subrange(stop as int, end as int) =~= rest.skip(stop - start));
    (start, stop)
}

/// Finds the first empty line from `from` on.
fn find_blank(chars: &Vec<char>, from: usize) -> (r: usize)
    requires
        from <= chars@.len(),
    ensures
        r == blank_at(chars@, from as int),
        from <= r <= chars@.len(),
        r < chars@.len() ==> r + 4 <= chars@.len(),
{
    let mut i: usize = from;
    while chars.len() - i >= 4
        invariant
            from <= i <= chars.len(),
            blank_at(chars@, from as int) == blank_at(chars@, i as int),
        decreases chars.len() - i,
    {
        if chars[i] == '\r' && chars[i + 1] == '\n' && chars[i + 2] == '\r' && chars[i + 3] == '\n' {
            return i;
        }
        i = i + 1;
    }
    chars.len()
}

/// Reads a request: method and path from its first line, and its body. A
/// missing method is `GET`, a missing path is `/`.
pub fn parse_request(request: &str) -> (r: Request)
    ensures
        r.method@ == method_of(request@),
        r.path@ == path_of(request@),
        r.body@ == body_of(request@),
{
    let chars = chars_of(request);

    // Parse request line
    let mut end: usize = 0;
    assert(request@.skip(0) =~= request@);
    while end < chars.len() && chars[end] != '\n'
        invariant
            end <= chars.len(),
            chars@ == request@,
            line_len(request@) == end + line_len(request@.skip(end as int)),
        decreases chars.len() - end,
    {
        assert(request@.skip(end as int).drop_first() =~= request@.skip(end + 1));
        end = end + 1;
    }
    assert(chars@.subrange(0, end as int) =~= first_line(request@));
    let (method_start, method_end) = find_word(&chars, 0, end);
    let (path_start, path_end) = find_word(&chars, method_end, end);
    let method = if method_start == method_end {
        "GET".to_owned()
    } else {
        request.substring_char(method_start, method_end).to_owned()
    };
    let path = if path_start == path_end {
        "/".to_owned()
    } else {
        request.substring_char(path_start, path_end).to_owned()
    };

    // Extract body for POST requests
    let blank: usize = find_blank(&chars, 0);
    let body = if blank == chars.len() {
        String::new()
    } else {
        let body_end: usize = find_blank(&chars, blank + 4);
        request.substring_char(blank + 4, body_end).to_owned()
    };
    Request { method, path, body }
}

/// Reads a request from the bytes that came in.
pub fn request_from_bytes(bytes: &[u8]) -> (r: Request)
    ensures
        r.method@ == method_of(crate::text::lossy_of(bytes@)),
        r.path@ == path_of(crate::text::lossy_of(bytes@)),
        r.body@ == body_of(crate::text::lossy_of(bytes@)),
        vstd::utf8::valid_utf8(bytes@) ==> crate::text::lossy_of(bytes@) == vstd::utf8::decode_utf8(
            bytes@,
        ),
{
    let text = lossy_text(bytes);
    parse_request(text.as_str())
}

// ── Percent-encoding ────────────────────────────────────────────────

/// The value of a hexadecimal digit; 0 for any other byte.
pub open spec fn hex_value(b: u8) -> u8 {
    if 48 <= b <= 57 {
        (b - 48) as u8
    } else if 97 <= b <= 102 {
        (b - 97 + 10) as u8
    } else if 65 <= b <= 70 {
        (b - 65 + 10) as u8
    } else {
        0
    }
}

/// The `i`-th byte, or the digit 0 behind the end.
pub open spec fn digit_at(s: Seq<u8>, i: int) -> u8 {
    if i < s.len() {
        s[i]
    } else {
        48
    }
}

/// The bytes that percent-encoded bytes stand for.
pub open spec fn url_bytes(s: Seq<u8>) -> Seq<u8>
    decreases s.len(),
{
    if s.len() == 0 {
        Seq::empty()
    } else if s[0] == 37 {
        let b = (hex_value(digit_at(s, 1)) * 16 + hex_value(digit_at(s, 2))) as u8;
        seq![b] + url_bytes(
            if s.len() <= 3 {
                Seq::empty()
            } else {
                s.skip(3)
            },
        )
    } else if s[0] == 43 {
        seq![32u8] + url_bytes(s.skip(1))
    } else {
        seq![s[0]] + url_bytes(s.skip(1))
    }
}

/// The value of a hexadecimal digit.
fn hex_val(b: u8) -> (r: u8)
    ensures
        r == hex_value(b),
        r < 16,
{
    if 48 <= b && b <= 57 {
        b - 48
    } else if 97 <= b && b <= 102 {
        b - 97 + 10
    } else if 65 <= b && b <= 70 {
        b - 65 + 10
    } else {
        0
    }
}

/// Percent-decodes bytes.
pub fn url_decode_bytes(s: &[u8]) -> (r: Vec<u8>)
    ensures
        r@ == url_bytes(s@),
{
    let mut bytes: Vec<u8> = Vec::new();
    let mut i: usize = 0;
    assert(s@.skip(0) =~= s@);
    while i < s.len()
        invariant
            i <= s.len(),
            url_bytes(s@) == bytes@ + url_bytes(s@.skip(i as int)),
        decreases s.len() - i,
    {
        let ghost before = bytes@;
        let ghost rest = s@.skip(i as int);
        let b = s[i];
        if b == 37 {
            let h: u8 = if s.len() - i > 1 { s[i + 1] } else { 48 };
            let l: u8 = if s.len() - i > 2 { s[i + 2] } else { 48 };
            bytes.push(hex_val(h) * 16 + hex_val(l));
            if s.len() - i <= 3 {
                assert(s@.skip(s@.len() as int) =~= Seq::empty());
                i = s.len();
            } else {
                assert(rest.skip(3) =~= s@.skip(i + 3));
                i = i + 3;
            }
        } else if b == 43 {
            bytes.push(32);
            assert(rest.skip(1) =~= s@.skip(i + 1));
            i = i + 1;
        } else {
            bytes.push(b);
            assert(rest.skip(1) =~= s@.skip(i + 1));
            i = i + 1;
        }
        assert(before + url_bytes(rest) =~= bytes@ + url_bytes(s@.skip(i as int)));
    }
    assert(s@.skip(i as int) =~= Seq::empty());
    bytes
}

/// Simple percent-decode for URL path segments (handles multi-byte UTF-8).
pub fn urldecode(s: &str) -> (r: String)
    ensures
        r@ == crate::text::lossy_of(url_bytes(vstd::utf8::encode_utf8(s@))),
        vstd::utf8::valid_utf8(url_bytes(vstd::utf8::encode_utf8(s@))) ==> r@
            == vstd::utf8::decode_utf8(url_bytes(vstd::utf8::encode_utf8(s@))),
{
    let bytes = url_decode_bytes(s.as_bytes());
    lossy_text(bytes.as_slice())
}

/// The upper-case digit of a value below 16.
pub open spec fn hex_digit(v: int) -> u8 {
    if v < 10 {
        (48 + v) as u8
    } else {
        (65 + v - 10) as u8
    }
}

/// Bytes with each one percent-encoded.
pub open spec fn percent_encoded(bytes: Seq<u8>) -> Seq<u8>
    decreases bytes.len(),
{
    if bytes.len() == 0 {
        Seq::empty()
    } else {
        seq![37u8, hex_digit(bytes[0] as int / 16), hex_digit(bytes[0] as int % 16)]
            + percent_encoded(bytes.skip(1))
    }
}

/// Decoding percent-encoded bytes gives the bytes.
pub proof fn law_decoding_undoes_percent_encoding(bytes: Seq<u8>)
    ensures
        url_bytes(percent_encoded(bytes)) == bytes,
    decreases bytes.len(),
{
    let text = percent_encoded(bytes);
    if bytes.len() > 0 {
        let rest = bytes.skip(1);
        law_decoding_undoes_percent_encoding(rest);
        assert(hex_value(hex_digit(bytes[0] as int / 16)) == bytes[0] / 16);
        assert(hex_value(hex_digit(bytes[0] as int % 16)) == bytes[0] % 16);
        if text.len() <= 3 {
            assert(rest.len() == 0);
            assert(percent_encoded(rest) =~= Seq::empty());
        } else {
            assert(text.skip(3) =~= percent_encoded(rest));
        }
        assert(url_bytes(text) =~= bytes);
    } else {
        assert(url_bytes(text) =~= bytes);
    }
}

/// Text without percent signs and plus signs decodes to itself.
pub proof fn law_plain_bytes_stay(bytes: Seq<u8>)
    requires
        forall|i: int| 0 <= i < bytes.len() ==> bytes[i] != 37 && bytes[i] != 43,
    ensures
        url_bytes(bytes) == bytes,
    decreases bytes.len(),
{
    if bytes.len() > 0 {
        law_plain_bytes_stay(bytes.skip(1));
        assert(url_bytes(bytes) =~= bytes);
    } else {
        assert(url_bytes(bytes) =~= bytes);
    }
}

// ── Routes ──────────────────────────────────────────────────────────

/// What a request asks for.
#[derive(Debug)]
pub enum Route {
    /// The stream of spectrogram frames.
    Stream,
    /// What is captured, and how.
    Info,
    /// Start capturing audio for a new zone.
    CaptureStart,
    /// Stop capturing.
    CaptureStop,
    /// Save captured audio as a named zone.
    Save,
    /// List all saved zones.
    ListZones,
    /// Delete a zone.
    Delete { zone: String },
    /// Enable continuous detection.
    DetectStart,
    /// Disable continuous detection.
    DetectStop,
    /// The stream of zone detection events.
    Events,
    /// One-shot detection.
    DetectOnce,
    /// The page.
    Page,
}

/// The request has this method and this path.
pub open spec fn is_request(
    method: Seq<char>,
    path: Seq<char>,
    wanted_method: &str,
    wanted_path: &str,
) -> bool {
    method == wanted_method@ && path == wanted_path@
}

/// The route of a request.
pub open spec fn routed(method: Seq<char>, path: Seq<char>, route: Route) -> bool {
    if is_request(method, path, "GET", "/stream") {
        route is Stream
    } else if is_request(method, path, "GET", "/info") {
        route is Info
    } else if is_request(method, path, "POST", "/zone/capture/start") {
        route is CaptureStart
    } else if is_request(method, path, "POST", "/zone/capture/stop") {
        route is CaptureStop
    } else if is_request(method, path, "POST", "/zone/save") {
        route is Save
    } else if is_request(method, path, "GET", "/zones") {
        route is ListZones
    } else if crate::text::begins_with(path, "/zone/delete/"@) {
        let encoded = path.skip("/zone/delete/"@.len() as int);
        let bytes = url_bytes(vstd::utf8::encode_utf8(encoded));
        route matches Route::Delete { zone } && zone@ == crate::text::lossy_of(bytes) && (
        vstd::utf8::valid_utf8(bytes) ==> zone@ == vstd::utf8::decode_utf8(bytes))
    } else if is_request(method, path, "POST", "/zone/detect/start") {
        route is DetectStart
    } else if is_request(method, path, "POST", "/zone/detect/stop") {
        route is DetectStop
    } else if is_request(method, path, "GET", "/zone/events") {
        route is Events
    } else if is_request(method, path, "GET", "/zone/detect/once") {
        route is DetectOnce
    } else {
        route is Page
    }
}

/// Whether the request has this method and this path.
fn asks(method: &str, path: &str, wanted_method: &str, wanted_path: &str) -> (r: bool)
    ensures
        r == is_request(method@, path@, wanted_method, wanted_path),
{
    same_text(method, wanted_method) && same_text(path, wanted_path)
}

/// Finds the route of a request.
pub fn route(method: &str, path: &str) -> (r: Route)
    ensures
        routed(method@, path@, r),
{
    if asks(method, path, "GET", "/stream") {
        Route::Stream
    } else if asks(method, path, "GET", "/info") {
        Route::Info
    } else if asks(method, path, "POST", "/zone/capture/start") {
        Route::CaptureStart
    } else if asks(method, path, "POST", "/zone/capture/stop") {
        Route::CaptureStop
    } else if asks(method, path, "POST", "/zone/save") {
        Route::Save
    } else if asks(method, path, "GET", "/zones") {
        Route::ListZones
    } else if let Some(zone_name) = after_prefix(path, "/zone/delete/") {
        Route::Delete { zone: urldecode(zone_name) }
    } else if asks(method, path, "POST", "/zone/detect/start") {
        Route::DetectStart
    } else if asks(method, path, "POST", "/zone/detect/stop") {
        Route::DetectStop
    } else if asks(method, path, "GET", "/zone/events") {
        Route::Events
    } else if asks(method, path, "GET", "/zone/detect/once") {
        Route::DetectOnce
    } else {
        Route::Page
    }
}

// ── Responses ───────────────────────────────────────────────────────

/// The text of a status.
pub open spec fn status_text(status: u16) -> Seq<char> {
    if status == 400 {
        "Bad Request"@
    } else if status == 404 {
        "Not Found"@
    } else {
        "OK"@
    }
}

/// A JSON response: its length is the number of bytes of its body.
pub open spec fn json_text(status: u16, body: Seq<char>) -> Seq<char> {
    "HTTP/1.1 "@ + crate::text::decimal(status as nat) + " "@ + status_text(status)
        + "\r\nContent-Type: application/json\r\nContent-Length: "@ + crate::text::decimal(
        vstd::utf8::encode_utf8(body).len(),
    ) + "\r\nAccess-Control-Allow-Origin: *\r\n\r\n"@ + body
}

/// The response that carries the page.
pub open spec fn page_text(html: Seq<char>) -> Seq<char> {
    "HTTP/1.1 200 OK\r\nContent-Type: text/html; charset=utf-8\r\nContent-Length: "@
        + crate::text::decimal(vstd::utf8::encode_utf8(html).len()) + "\r\n\r\n"@ + html
}

/// A JSON response.
pub fn json_response(status: u16, body: &str) -> (r: String)
    ensures
        r@ == json_text(status, body@),
{
    let mut out = "HTTP/1.1 ".to_owned();
    push_decimal(&mut out, status as u64);
    out.append(" ");
    if status == 400 {
        out.append("Bad Request");
    } else if status == 404 {
        out.append("Not Found");
    } else {
        out.append("OK");
    }
    out.append("\r\nContent-Type: application/json\r\nContent-Length: ");
    push_decimal(&mut out, body.as_bytes().len() as u64);
    out.append("\r\nAccess-Control-Allow-Origin: *\r\n\r\n");
    out.append(body);
    out
}

/// The response that carries the page.
pub fn page_response(html: &str) -> (r: String)
    ensures
        r@ == page_text(html@),
{
    let mut out =
        "HTTP/1.1 200 OK\r\nContent-Type: text/html; charset=utf-8\r\nContent-Length: ".to_owned();
    push_decimal(&mut out, html.as_bytes().len() as u64);
    out.append("\r\n\r\n");
    out.append(html);
    out
}

/// The head of an event stream.
pub fn stream_head() -> (r: &'static str)
    ensures
        r@
            == "HTTP/1.1 200 OK\r\nContent-Type: text/event-stream\r\nCache-Control: no-cache\r\nConnection: keep-alive\r\nAccess-Control-Allow-Origin: *\r\n\r\n"@,
{
    "HTTP/1.1 200 OK\r\nContent-Type: text/event-stream\r\nCache-Control: no-cache\r\nConnection: keep-alive\r\nAccess-Control-Allow-Origin: *\r\n\r\n"
}

/// One event of an event stream.
pub fn stream_event(data: &str) -> (r: String)
    ensures
        r@ == "data: "@ + data@ + "\n\n"@,
{
    let mut out = "data: ".to_owned();
    out.append(data);
    out.append("\n\n");
    out
}

// ── What a request says ─────────────────────────────────────────────

proof fn lemma_line_len(s: Seq<char>)
    ensures
        line_len(s) <= s.len(),
        forall|i: int| 0 <= i < line_len(s) ==> #[trigger] s[i] != '\n',
        line_len(s) < s.len() ==> s[line_len(s) as int] == '\n',
    decreases s.len(),
{
    if s.len() > 0 && s[0] != '\n' {
        let rest = s.drop_first();
        lemma_line_len(rest);
        assert forall|i: int| 0 <= i < line_len(s) implies #[trigger] s[i] != '\n' by {
            if i > 0 {
                assert(rest[i - 1] == s[i]);
            }
        }
    }
}

proof fn lemma_word_len(s: Seq<char>)
    ensures
        word_len(s) <= s.len(),
        forall|i: int| 0 <= i < word_len(s) ==> !crate::text::is_space(#[trigger] s[i]),
        word_len(s) < s.len() ==> crate::text::is_space(s[word_len(s) as int]),
    decreases s.len(),
{
    if s.len() > 0 && !crate::text::is_space(s[0]) {
        let rest = s.drop_first();
        lemma_word_len(rest);
        assert forall|i: int| 0 <= i < word_len(s) implies !crate::text::is_space(
            #[trigger] s[i],
        ) by {
            if i > 0 {
                assert(rest[i - 1] == s[i]);
            }
        }
    }
}

/// From `from` on, up to `end`, the next word stands at these places: white
/// space before it, none in it, and white space or the end behind it.
pub open spec fn next_word(s: Seq<char>, from: int, end: int, word: (int, int)) -> bool {
    &&& from <= word.0 <= word.1 <= end <= s.len()
    &&& forall|i: int| from <= i < word.0 ==> crate::text::is_space(#[trigger] s[i])
    &&& forall|i: int| word.0 <= i < word.1 ==> !crate::text::is_space(#[trigger] s[i])
    &&& word.1 < end ==> crate::text::is_space(s[word.1])
    &&& word.0 == word.1 ==> word.1 == end
}

proof fn lemma_next_word(s: Seq<char>, from: int, end: int) -> (word: (int, int))
    requires
        0 <= from <= end <= s.len(),
    ensures
        next_word(s, from, end, word),
        first_word(s.subrange(from, end)) == s.subrange(word.0, word.1),
        after_word(s.subrange(from, end)) == s.subrange(word.1, end),
{
    let part = s.subrange(from, end);
    let start = crate::text::lemma_trim_start(part);
    let rest = crate::text::trim_start(part);
    lemma_word_len(rest);
    let len = word_len(rest) as int;
    let word = (from + start, from + start + len);
    assert(first_word(part) =~= s.subrange(word.0, word.1));
    assert(after_word(part) =~= s.subrange(word.1, end));
    assert forall|i: int| from <= i < word.0 implies crate::text::is_space(#[trigger] s[i]) by {
        assert(part[i - from] == s[i]);
    }
    assert forall|i: int| word.0 <= i < word.1 implies !crate::text::is_space(#[trigger] s[i]) by {
        assert(rest[i - word.0] == s[i]);
    }
    if word.1 < end {
        assert(rest[len] == s[word.1]);
    }
    word
}

/// Method and path are the first two words of the first line, which ends with
/// the first line break; a missing one is `GET` or `/`.
pub proof fn law_request_line(request: Seq<char>) -> (r: (int, (int, int), (int, int)))
    ensures
        0 <= r.0 <= request.len(),
        forall|i: int| 0 <= i < r.0 ==> #[trigger] request[i] != '\n',
        r.0 < request.len() ==> request[r.0] == '\n',
        next_word(request, 0, r.0, r.1),
        next_word(request, r.1.1, r.0, r.2),
        r.1.0 < r.1.1 ==> method_of(request) == request.subrange(r.1.0, r.1.1),
        r.1.0 == r.1.1 ==> method_of(request) == "GET"@,
        r.2.0 < r.2.1 ==> path_of(request) == request.subrange(r.2.0, r.2.1),
        r.2.0 == r.2.1 ==> path_of(request) == "/"@,
{
    lemma_line_len(request);
    let end = line_len(request) as int;
    assert(first_line(request) =~= request.subrange(0, end));
    let method = lemma_next_word(request, 0, end);
    let path = lemma_next_word(request, method.1, end);
    (end, method, path)
}

/// An empty line starts here: two line breaks, each a return and a feed.
pub open spec fn blank_here(s: Seq<char>, at: int) -> bool {
    at + 4 <= s.len() && s[at] == '\r' && s[at + 1] == '\n' && s[at + 2] == '\r' && s[at + 3]
        == '\n'
}

proof fn lemma_blank_at(s: Seq<char>, from: int)
    requires
        0 <= from,
    ensures
        blank_at(s, from) == s.len() || (from <= blank_at(s, from) && blank_here(
            s,
            blank_at(s, from),
        )),
        forall|i: int| from <= i < blank_at(s, from) ==> !#[trigger] blank_here(s, i),
        from <= s.len() ==> blank_at(s, from) <= s.len(),
    decreases s.len() - from,
{
    if from + 4 <= s.len() && !(s[from] == '\r' && s[from + 1] == '\n' && s[from + 2] == '\r' && s[from
        + 3] == '\n') {
        lemma_blank_at(s, from + 1);
    }
}

/// The body stands behind the first empty line and ends before the next one, or
/// with the request; a request without an empty line has no body.
pub proof fn law_body_follows_the_first_empty_line(request: Seq<char>, at: int)
    requires
        0 <= at,
        forall|i: int| 0 <= i < at ==> !#[trigger] blank_here(request, i),
    ensures
        blank_here(request, at) ==> {
            let body = body_of(request);
            let end = at + 4 + body.len();
            &&& end <= request.len()
            &&& body == request.subrange(at + 4, end)
            &&& end == request.len() || blank_here(request, end)
            &&& forall|i: int| at + 4 <= i < end ==> !#[trigger] blank_here(request, i)
        },
        at >= request.len() ==> body_of(request).len() == 0,
{
    lemma_blank_at(request, 0);
    let first = blank_at(request, 0);
    if blank_here(request, at) {
        if first < at {
            assert(!blank_here(request, first));
        }
        if at < first {
            assert(!blank_here(request, at));
        }
        lemma_blank_at(request, at + 4);
    } else if at >= request.len() {
        if first < request.len() {
            assert(!blank_here(request, first));
        }
    }
}

/// Decoding goes through the bytes from left to right: a percent sign and two
/// hexadecimal digits, in either case, are the byte they spell; a plus sign is
/// a blank; any other byte is itself.
pub proof fn law_decoding_goes_left_to_right(
    rest: Seq<u8>,
    b: u8,
    h: u8,
    l: u8,
    high: int,
    low: int,
)
    ensures
        url_bytes(Seq::empty()) == Seq::<u8>::empty(),
        url_bytes(seq![43u8] + rest) == seq![32u8] + url_bytes(rest),
        b != 37 && b != 43 ==> url_bytes(seq![b] + rest) == seq![b] + url_bytes(rest),
        is_digit_of(h, high) && is_digit_of(l, low) ==> url_bytes(seq![37u8, h, l] + rest) == seq![
            (16 * high + low) as u8,
        ] + url_bytes(rest),
{
    let plus = seq![43u8] + rest;
    assert(plus.skip(1) =~= rest);
    let plain = seq![b] + rest;
    assert(plain.skip(1) =~= rest);
    let s = seq![37u8, h, l] + rest;
    if rest.len() == 0 {
        assert(rest =~= Seq::empty());
    } else {
        assert(s.skip(3) =~= rest);
    }
}

/// The byte is the hexadecimal digit of this value: `0` to `9`, `a` to `f` or
/// `A` to `F`.
pub open spec fn is_digit_of(b: u8, value: int) -> bool {
    ||| b == 48 + value && 0 <= value < 10
    ||| b == 87 + value && 10 <= value < 16
    ||| b == 55 + value && 10 <= value < 16
}

/// Each route is reached by its method and path alone; any path below
/// `/zone/delete/` deletes, and all else gets the page.
pub proof fn law_routes(method: Seq<char>, path: Seq<char>, route: Route)
    requires
        routed(method, path, route),
    ensures
        route is Stream <==> method == "GET"@ && path == "/stream"@,
        route is Info <==> method == "GET"@ && path == "/info"@,
        route is CaptureStart <==> method == "POST"@ && path == "/zone/capture/start"@,
        route is CaptureStop <==> method == "POST"@ && path == "/zone/capture/stop"@,
        route is Save <==> method == "POST"@ && path == "/zone/save"@,
        route is ListZones <==> method == "GET"@ && path == "/zones"@,
        route is DetectStart <==> method == "POST"@ && path == "/zone/detect/start"@,
        route is DetectStop <==> method == "POST"@ && path == "/zone/detect/stop"@,
        route is Events <==> method == "GET"@ && path == "/zone/events"@,
        route is DetectOnce <==> method == "GET"@ && path == "/zone/detect/once"@,
        route is Delete <==> exists|zone: Seq<char>| path == #[trigger] ("/zone/delete/"@ + zone),
        route matches Route::Delete { zone } ==> forall|encoded: Seq<char>|
            path == #[trigger] ("/zone/delete/"@ + encoded) ==> zone@ == crate::text::lossy_of(
                url_bytes(vstd::utf8::encode_utf8(encoded)),
            ) && (vstd::utf8::valid_utf8(url_bytes(vstd::utf8::encode_utf8(encoded))) ==> zone@
                == vstd::utf8::decode_utf8(url_bytes(vstd::utf8::encode_utf8(encoded)))),
{
    reveal_strlit("GET");
    reveal_strlit("POST");
    reveal_strlit("/stream");
    reveal_strlit("/info");
    reveal_strlit("/zone/capture/start");
    reveal_strlit("/zone/capture/stop");
    reveal_strlit("/zone/save");
    reveal_strlit("/zones");
    reveal_strlit("/zone/delete/");
    reveal_strlit("/zone/detect/start");
    reveal_strlit("/zone/detect/stop");
    reveal_strlit("/zone/events");
    reveal_strlit("/zone/detect/once");
    let prefix = "/zone/delete/"@;
    assert("GET"@.len() != "POST"@.len());
    assert("/stream"@[1] == 's');
    assert("/info"@[1] == 'i');
    assert("/zones"@.len() == 6);
    assert("/zone/capture/start"@[6] == 'c');
    assert("/zone/capture/stop"@[6] == 'c');
    assert("/zone/capture/start"@.len() != "/zone/capture/stop"@.len());
    assert("/zone/save"@[6] == 's');
    assert("/zone/events"@[6] == 'e');
    assert("/zone/detect/start"@[8] == 't');
    assert("/zone/detect/stop"@[8] == 't');
    assert("/zone/detect/once"@[8] == 't');
    assert("/zone/detect/start"@.len() != "/zone/detect/stop"@.len());
    assert("/zone/detect/start"@[6] == 'd');
    assert("/zone/detect/stop"@[6] == 'd');
    assert("/zone/detect/once"@[6] == 'd');
    assert("/zone/detect/once"@[13] == 'o');
    assert("/zone/detect/stop"@[13] == 's');
    assert(prefix[1] == 'z' && prefix[6] == 'd' && prefix[8] == 'l');
    if crate::text::begins_with(path, prefix) {
        assert(path =~= prefix + path.skip(prefix.len() as int));
        assert(path[1] == prefix[1]) by {
            assert(path.take(prefix.len() as int)[1] == path[1]);
        }
        assert(path[6] == prefix[6]) by {
            assert(path.take(prefix.len() as int)[6] == path[6]);
        }
        assert(path[8] == prefix[8]) by {
            assert(path.take(prefix.len() as int)[8] == path[8]);
        }
    }
    assert forall|zone: Seq<char>| path == #[trigger] (prefix + zone) implies crate::text::begins_with(
        path,
        prefix,
    ) && path.skip(prefix.len() as int) == zone by {
        assert(path.take(prefix.len() as int) =~= prefix);
        assert(path.skip(prefix.len() as int) =~= zone);
    }
}

/// A JSON response starts with its status, tells how many bytes its body has,
/// and ends with the body behind an empty line.
pub proof fn law_json_response_is_framed(status: u16, body: Seq<char>) -> (parts: (
    Seq<char>,
    Seq<char>,
))
    ensures
        json_text(status, body) == "HTTP/1.1 "@ + crate::text::decimal(status as nat) + parts.0
            + "Content-Length: "@ + crate::text::decimal(vstd::utf8::encode_utf8(body).len())
            + "\r\n"@ + parts.1 + "\r\n\r\n"@ + body,
        status == 400 ==> parts.0 == " Bad Request\r\nContent-Type: application/json\r\n"@,
        status == 404 ==> parts.0 == " Not Found\r\nContent-Type: application/json\r\n"@,
        status != 400 && status != 404 ==> parts.0 == " OK\r\nContent-Type: application/json\r\n"@,
        parts.1 == "Access-Control-Allow-Origin: *"@,
{
    reveal_strlit("Content-Length: ");
    reveal_strlit("\r\n");
    reveal_strlit("\r\n\r\n");
    reveal_strlit(" ");
    reveal_strlit("OK");
    reveal_strlit("Bad Request");
    reveal_strlit("Not Found");
    reveal_strlit("Access-Control-Allow-Origin: *");
    reveal_strlit("\r\nContent-Type: application/json\r\nContent-Length: ");
    reveal_strlit("\r\nAccess-Control-Allow-Origin: *\r\n\r\n");
    reveal_strlit("\r\nContent-Type: application/json\r\n");
    reveal_strlit(" Bad Request\r\nContent-Type: application/json\r\n");
    reveal_strlit(" Not Found\r\nContent-Type: application/json\r\n");
    reveal_strlit(" OK\r\nContent-Type: application/json\r\n");
    let kind = "\r\nContent-Type: application/json\r\n"@;
    let head = " "@ + status_text(status) + kind;
    let origin = "Access-Control-Allow-Origin: *"@;
    let size = crate::text::decimal(vstd::utf8::encode_utf8(body).len());
    assert("\r\nContent-Type: application/json\r\nContent-Length: "@ =~= kind
        + "Content-Length: "@);
    assert("\r\nAccess-Control-Allow-Origin: *\r\n\r\n"@ =~= "\r\n"@ + origin
        + "\r\n\r\n"@);
    assert(json_text(status, body) =~= "HTTP/1.1 "@ + crate::text::decimal(status as nat) + head
        + "Content-Length: "@ + size + "\r\n"@ + origin + "\r\n\r\n"@ + body);
    if status == 400 {
        assert(head =~= " Bad Request\r\nContent-Type: application/json\r\n"@);
    } else if status == 404 {
        assert(head =~= " Not Found\r\nContent-Type: application/json\r\n"@);
    } else if status == 200 {
        assert(head =~= " OK\r\nContent-Type: application/json\r\n"@);
    }
    (head, origin)
}

/// The page's response tells how many bytes the page has, and ends with it
/// behind an empty line.
pub proof fn law_page_response_is_framed(html: Seq<char>)
    ensures
        page_text(html).len() >= html.len() + 4,
        page_text(html).skip(page_text(html).len() - html.len()) == html,
        page_text(html).subrange(
            page_text(html).len() - html.len() - 4,
            page_text(html).len() - html.len(),
        ) == "\r\n\r\n"@,
        ({
            let size = crate::text::decimal(vstd::utf8::encode_utf8(html).len());
            let end = page_text(html).len() - html.len() - 4;
            &&& end >= size.len()
            &&& page_text(html).subrange(end - size.len(), end) == size
            &&& page_text(html).take(end - size.len())
                == "HTTP/1.1 200 OK\r\nContent-Type: text/html; charset=utf-8\r\nContent-Length: "@
        }),
{
    reveal_strlit("\r\n\r\n");
    let size = crate::text::decimal(vstd::utf8::encode_utf8(html).len());
    let end = page_text(html).len() - html.len() - 4;
    assert(page_text(html).skip(page_text(html).len() - html.len()) =~= html);
    assert(page_text(html).subrange(end, end + 4) =~= "\r\n\r\n"@);
    assert(page_text(html).subrange(end - size.len(), end) =~= size);
    assert(page_text(html).take(end - size.len())
        =~= "HTTP/1.1 200 OK\r\nContent-Type: text/html; charset=utf-8\r\nContent-Length: "@);
}

/// A percent sign takes the two bytes behind it with it, whatever they are: one
/// that is no hexadecimal digit, or is missing, counts as the digit 0.
pub proof fn law_bad_digits_count_as_zero(s: Seq<u8>, high: int, low: int)
    requires
        s.len() > 0,
        s[0] == 37,
        if s.len() > 1 {
            is_digit_of(s[1], high) || (high == 0 && forall|v: int| !#[trigger] is_digit_of(s[1], v))
        } else {
            high == 0
        },
        if s.len() > 2 {
            is_digit_of(s[2], low) || (low == 0 && forall|v: int| !#[trigger] is_digit_of(s[2], v))
        } else {
            low == 0
        },
    ensures
        url_bytes(s).len() > 0,
        url_bytes(s)[0] == 16 * high + low,
        s.len() > 3 ==> url_bytes(s).skip(1) == url_bytes(s.skip(3)),
        s.len() <= 3 ==> url_bytes(s).len() == 1,
{
    if s.len() > 1 {
        lemma_digit_or_zero(s[1], high);
    }
    if s.len() > 2 {
        lemma_digit_or_zero(s[2], low);
    }
    assert(hex_value(48) == 0);
    if s.len() > 3 {
        assert(url_bytes(s).skip(1) =~= url_bytes(s.skip(3)));
    } else {
        assert(url_bytes(Seq::empty()).len() == 0);
    }
}

/// The value of a byte is that of its digit, or 0 where it is none.
proof fn lemma_digit_or_zero(b: u8, value: int)
    requires
        is_digit_of(b, value) || (value == 0 && forall|v: int| !#[trigger] is_digit_of(b, v)),
    ensures
        hex_value(b) == value,
        0 <= value < 16,
{
    if 48 <= b <= 57 {
        assert(is_digit_of(b, b - 48));
    }
    if 97 <= b <= 102 {
        assert(is_digit_of(b, b - 87));
    }
    if 65 <= b <= 70 {
        assert(is_digit_of(b, b - 55));
    }
}

} // verus!
