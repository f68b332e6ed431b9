//! The HTTP switch endpoint's protocol: reading the requested mode from the
//! request line, and writing the JSON reply.
use vstd::prelude::*;

use crate::ime::ImeMode;
use crate::text::{decimal, is_unicode_whitespace, is_whitespace, push_char, push_decimal, str_chars};

verus! {

/// The port the endpoint listens on.
pub const PORT: u16 = 5998;

// ───────────────────────── replies ─────────────────────────

/// The outcome of a switch request, as reported to the HTTP client.
#[derive(Clone, Debug)]
pub struct SwitchResponse {
    pub success: bool,
    pub changed: bool,
    pub message: String,
    pub mode: Option<ImeMode>,
}

impl SwitchResponse {
    /// A successful switch (or a switch that was not needed) to `mode`.
    pub fn success(mode: ImeMode, changed: bool, message: String) -> (r: Self)
        ensures
            r.success,
            r.changed == changed,
            r.message@ == message@,
            r.mode == Some(mode),
    {
        SwitchResponse { success: true, changed, message, mode: Some(mode) }
    }

    /// A failed switch.
    pub fn error(message: String) -> (r: Self)
        ensures
            !r.success,
            !r.changed,
            r.message@ == message@,
            r.mode is None,
    {
        SwitchResponse { success: false, changed: false, message, mode: None }
    }
}

#[verifier::external_type_specification]
#[verifier::external_body]
#[verifier::reject_recursive_types(T)]
pub struct ExSyncSender<T>(std::sync::mpsc::SyncSender<T>);

/// `SyncSender::send`: hands the reply to the connection that waits for it.
/// Whether it arrives depends on that connection still waiting, so nothing is
/// stated of the outcome.
#[verifier::external_body]
fn send_switch_response(
    sender: &std::sync::mpsc::SyncSender<SwitchResponse>,
    response: SwitchResponse,
) {
    let _ = sender.send(response);
}

/// A switch request handed from the HTTP thread to the application, with the
/// channel on which the reply goes back.
pub struct SwitchRequest {
    pub desired_mode: ImeMode,
    pub response_sender: std::sync::mpsc::SyncSender<SwitchResponse>,
}

impl SwitchRequest {
    pub fn new(
        desired_mode: ImeMode,
        response_sender: std::sync::mpsc::SyncSender<SwitchResponse>,
    ) -> (r: Self)
        ensures
            r.desired_mode == desired_mode,
    {
        SwitchRequest { desired_mode, response_sender }
    }

    /// Sends the reply to the waiting connection.
    pub fn respond(self, response: SwitchResponse) {
        send_switch_response(&self.response_sender, response);
    }
}

pub open spec fn spec_status_text(status_code: u16) -> Seq<char> {
    if status_code == 400 {
        "Bad Request"@
    } else if status_code == 404 {
        "Not Found"@
    } else if status_code == 500 {
        "Internal Server Error"@
    } else if status_code == 504 {
        "Gateway Timeout"@
    } else {
        "OK"@
    }
}

pub open spec fn spec_mode_json(mode: Option<ImeMode>) -> Seq<char> {
    match mode {
        Some(ImeMode::Chinese) => "\"chinese\""@,
        Some(ImeMode::English) => "\"english\""@,
        Some(ImeMode::Unknown) => "\"unknown\""@,
        None => "null"@,
    }
}

pub open spec fn spec_bool_json(b: bool) -> Seq<char> {
    if b {
        "true"@
    } else {
        "false"@
    }
}

/// How one character is written inside a JSON string.
pub open spec fn json_escape_char(c: char) -> Seq<char> {
    if c == '"' {
        seq!['\\', '"']
    } else if c == '\\' {
        seq!['\\', '\\']
    } else if c == '\n' {
        seq!['\\', 'n']
    } else if c == '\r' {
        seq!['\\', 'r']
    } else if c == '\t' {
        seq!['\\', 't']
    } else {
        seq![c]
    }
}

/// `s` written inside a JSON string.
pub open spec fn spec_json_escape(s: Seq<char>) -> Seq<char>
    decreases s.len(),
{
    if s.len() == 0 {
        seq![]
    } else {
        json_escape_char(s[0]) + spec_json_escape(s.drop_first())
    }
}

/// The JSON body of a reply.
pub open spec fn spec_response_body(
    success: bool,
    changed: bool,
    mode: Option<ImeMode>,
    message: Seq<char>,
) -> Seq<char> {
    "{\"success\":"@ + spec_bool_json(success) + ",\"changed\":"@ + spec_bool_json(changed)
        + ",\"mode\":"@ + spec_mode_json(mode) + ",\"message\":\""@ + spec_json_escape(message)
        + "\"}"@
}

/// The whole HTTP reply, given the body and its length in UTF-8 bytes.
pub open spec fn spec_http_reply(status_code: u16, body: Seq<char>, body_bytes: nat) -> Seq<char> {
    "HTTP/1.1 "@ + decimal(status_code as nat) + " "@ + spec_status_text(status_code)
        + "\r\nContent-Type: application/json; charset=utf-8\r\nContent-Length: "@ + decimal(
        body_bytes,
    ) + "\r\nConnection: close\r\n\r\n"@ + body
}

/// The reply for `response`, with its status code.
pub open spec fn spec_build_http_response(status_code: u16, response: SwitchResponse) -> Seq<char> {
    let body = spec_response_body(
        response.success,
        response.changed,
        response.mode,
        response.message@,
    );
    spec_http_reply(status_code, body, (vstd::utf8::encode_utf8(body).len() as usize) as nat)
}

/// Writes `text` for use inside a JSON string: quote, backslash, newline,
/// carriage return and tab are escaped.
pub fn json_escape(text: &str) -> (r: String)
    ensures
        r@ == spec_json_escape(text@),
{
    let chars = str_chars(text);
    let mut r = String::new();
    let mut i: usize = 0;
    assert(chars@.skip(0) =~= chars@);
    while i < chars.len()
        invariant
            i <= chars.len(),
            chars@ == text@,
            r@ + spec_json_escape(chars@.skip(i as int)) == spec_json_escape(chars@),
        decreases chars.len() - i,
    {
        let c = chars[i];
        assert(chars@.skip(i as int).drop_first() =~= chars@.skip(i + 1));
        let ghost before = r@;
        if c == '"' {
            push_char(&mut r, '\\');
            push_char(&mut r, '"');
        } else if c == '\\' {
            push_char(&mut r, '\\');
            push_char(&mut r, '\\');
        } else if c == '\n' {
            push_char(&mut r, '\\');
            push_char(&mut r, 'n');
        } else if c == '\r' {
            push_char(&mut r, '\\');
            push_char(&mut r, 'r');
        } else if c == '\t' {
            push_char(&mut r, '\\');
            push_char(&mut r, 't');
        } else {
            push_char(&mut r, c);
        }
        assert(r@ =~= before + json_escape_char(c));
        i = i + 1;
    }
    assert(chars@.skip(i as int) =~= Seq::<char>::empty());
    assert(r@ + spec_json_escape(chars@.skip(i as int)) =~= r@);
    r
}

/// An escaped string holds no raw line break, carriage return or tab.
pub proof fn lemma_json_escape_has_no_control_breaks(s: Seq<char>)
    ensures
        forall|i: int|
            0 <= i < spec_json_escape(s).len() ==> #[trigger] spec_json_escape(s)[i] != '\n'
                && spec_json_escape(s)[i] != '\r' && spec_json_escape(s)[i] != '\t',
    decreases s.len(),
{
    if s.len() > 0 {
        lemma_json_escape_has_no_control_breaks(s.drop_first());
        let head = json_escape_char(s[0]);
        let tail = spec_json_escape(s.drop_first());
        assert forall|i: int| 0 <= i < spec_json_escape(s).len() implies #[trigger] spec_json_escape(
            s,
        )[i] != '\n' && spec_json_escape(s)[i] != '\r' && spec_json_escape(s)[i] != '\t' by {
            if i >= head.len() {
                assert(spec_json_escape(s)[i] == tail[i - head.len()]);
            }
        }
    }
}

fn push_bool_json(s: &mut String, b: bool)
    ensures
        final(s)@ == old(s)@ + spec_bool_json(b),
{
    if b {
        s.append("true");
    } else {
        s.append("false");
    }
}

/// The reason phrase of a status code.
pub fn status_text(status_code: u16) -> (r: &'static str)
    ensures
        r@ == spec_status_text(status_code),
{
    if status_code == 400 {
        "Bad Request"
    } else if status_code == 404 {
        "Not Found"
    } else if status_code == 500 {
        "Internal Server Error"
    } else if status_code == 504 {
        "Gateway Timeout"
    } else {
        "OK"
    }
}

/// Writes the HTTP reply: status line, JSON content type, the body's length
/// in bytes, `Connection: close`, and the JSON body.
pub fn build_http_response(status_code: u16, response: &SwitchResponse) -> (r: String)
    ensures
        r@ == spec_build_http_response(status_code, *response),
{
    let mut body = String::from_str("{\"success\":");
    push_bool_json(&mut body, response.success);
    body.append(",\"changed\":");
    push_bool_json(&mut body, response.changed);
    body.append(",\"mode\":");
    match response.mode {
        Some(ImeMode::Chinese) => body.append("\"chinese\""),
        Some(ImeMode::English) => body.append("\"english\""),
        Some(ImeMode::Unknown) => body.append("\"unknown\""),
        None => body.append("null"),
    }
    body.append(",\"message\":\"");
    let escaped = json_escape(response.message.as_str());
    body.append(escaped.as_str());
    body.append("\"}");
    assert(body@ =~= spec_response_body(
        response.success,
        response.changed,
        response.mode,
        response.message@,
    ));
    let body_bytes = body.as_str().len();
    let mut r = String::from_str("HTTP/1.1 ");
    push_decimal(&mut r, status_code as u64);
    r.append(" ");
    r.append(status_text(status_code));
    r.append("\r\nContent-Type: application/json; charset=utf-8\r\nContent-Length: ");
    push_decimal(&mut r, body_bytes as u64);
    r.append("\r\nConnection: close\r\n\r\n");
    r.append(body.as_str());
    assert(r@ =~= spec_build_http_response(status_code, *response));
    r
}

/// What became of a request handed to the application.
pub enum ForwardOutcome {
    /// The application no longer takes requests.
    NotDelivered,
    /// No reply came within the waiting time.
    TimedOut,
    Answered(SwitchResponse),
}

/// The HTTP reply for a forwarded request: the application's answer with
/// 200, or an error with 500 when it could not be reached and 504 when it
/// did not answer in time.
pub fn forward_reply(outcome: ForwardOutcome) -> (r: String)
    ensures
        match outcome {
            ForwardOutcome::NotDelivered => exists|e: SwitchResponse|
                !e.success && e.message@ == "应用未在处理 HTTP 切换请求"@ && e.mode is None && !e.changed
                    && r@ == spec_build_http_response(500, e),
            ForwardOutcome::TimedOut => exists|e: SwitchResponse|
                !e.success && e.message@ == "等待输入法切换结果超时"@ && e.mode is None && !e.changed
                    && r@ == spec_build_http_response(504, e),
            ForwardOutcome::Answered(a) => r@ == spec_build_http_response(200, a),
        },
{
    match outcome {
        ForwardOutcome::NotDelivered => {
            let e = SwitchResponse::error(String::from_str("应用未在处理 HTTP 切换请求"));
            build_http_response(500, &e)
        },
        ForwardOutcome::TimedOut => {
            let e = SwitchResponse::error(String::from_str("等待输入法切换结果超时"));
            build_http_response(504, &e)
        },
        ForwardOutcome::Answered(a) => build_http_response(200, &a),
    }
}

/// The HTTP reply for a request line that names no mode: 400 with the reason.
pub fn bad_request_reply(message: &str) -> (r: String)
    ensures
        exists|e: SwitchResponse|
            !e.success && e.message@ == message@ && e.mode is None && !e.changed && r@
                == spec_build_http_response(400, e),
{
    let e = SwitchResponse::error(String::from_str(message));
    build_http_response(400, &e)
}

// ───────────────────────── reading the request line ─────────────────────────

/// The first index at or after `i` whose character is not whitespace.
pub open spec fn skip_whitespace(s: Seq<char>, i: int) -> int
    decreases s.len() - i,
{
    if 0 <= i < s.len() && is_unicode_whitespace(s[i]) {
        skip_whitespace(s, i + 1)
    } else {
        i
    }
}

/// The first index at or after `i` whose character is whitespace.
pub open spec fn skip_word(s: Seq<char>, i: int) -> int
    decreases s.len() - i,
{
    if 0 <= i < s.len() && !is_unicode_whitespace(s[i]) {
        skip_word(s, i + 1)
    } else {
        i
    }
}

/// The first index at or after `i` that holds `c`, or the length when none does.
pub open spec fn find_char_from(s: Seq<char>, c: char, i: int) -> int
    decreases s.len() - i,
{
    if 0 <= i < s.len() && s[i] != c {
        find_char_from(s, c, i + 1)
    } else if 0 <= i < s.len() {
        i
    } else {
        s.len() as int
    }
}

/// A search from `i` within the sequence ends within it, or at its end.
pub proof fn lemma_find_char_bounds(s: Seq<char>, c: char, i: int)
    requires
        0 <= i <= s.len(),
    ensures
        i <= find_char_from(s, c, i) <= s.len(),
        find_char_from(s, c, i) < s.len() ==> s[find_char_from(s, c, i)] == c,
    decreases s.len() - i,
{
    if i < s.len() && s[i] != c {
        lemma_find_char_bounds(s, c, i + 1);
    }
}

pub open spec fn starts_with(s: Seq<char>, prefix: Seq<char>) -> bool {
    prefix.len() <= s.len() && s.subrange(0, prefix.len() as int) == prefix
}

pub open spec fn switch_prefix() -> Seq<char> {
    seq!['/', 's', 'w', 'i', 't', 'c', 'h', '/']
}

/// `1` asks for Chinese, `0` for English.
pub open spec fn spec_parse_mode_value(value: Seq<char>) -> Option<ImeMode> {
    if value == seq!['1'] {
        Some(ImeMode::Chinese)
    } else if value == seq!['0'] {
        Some(ImeMode::English)
    } else {
        None
    }
}

/// A mode written as the path itself: `/switch/<v>` or `/<v>`.
pub open spec fn spec_parse_mode_from_path(path: Seq<char>) -> Option<ImeMode> {
    if starts_with(path, switch_prefix()) {
        spec_parse_mode_value(path.subrange(8, path.len() as int))
    } else if path.len() > 0 && path[0] == '/' {
        spec_parse_mode_value(path.drop_first())
    } else {
        None
    }
}

pub open spec fn is_mode_key(key: Seq<char>) -> bool {
    key == seq!['m', 'o', 'd', 'e'] || key == seq!['v', 'a', 'l', 'u', 'e']
}

/// The value of the first `mode=` or `value=` pair of a query string, with the
/// pairs separated by `&`: `Some(parsed value)` when there is such a pair.
pub open spec fn spec_query_mode(query: Seq<char>) -> Option<Option<ImeMode>>
    decreases query.len(),
{
    let amp = find_char_from(query, '&', 0);
    let pair = query.subrange(0, amp);
    let eq = find_char_from(pair, '=', 0);
    if eq < pair.len() && is_mode_key(pair.subrange(0, eq)) {
        Some(spec_parse_mode_value(pair.subrange(eq + 1, pair.len() as int)))
    } else if amp < query.len() {
        proof {
            lemma_find_char_bounds(query, '&', 0);
        }
        spec_query_mode(query.subrange(amp + 1, query.len() as int))
    } else {
        None
    }
}

pub open spec fn missing_method_message() -> Seq<char> {
    "缺少 HTTP 方法"@
}

pub open spec fn missing_path_message() -> Seq<char> {
    "缺少请求路径"@
}

pub open spec fn invalid_mode_message() -> Seq<char> {
    "mode 只能传 1 或 0"@
}

pub open spec fn usage_message() -> Seq<char> {
    "请使用 /switch?mode=1 或 /switch?mode=0"@
}

/// What the endpoint makes of a request line: the mode in the path, or else
/// in the first `mode=`/`value=` pair of the query; or the reason it names
/// none.
pub open spec fn spec_parse_requested_mode(line: Seq<char>) -> Result<ImeMode, Seq<char>> {
    let method_start = skip_whitespace(line, 0);
    let method_end = skip_word(line, method_start);
    let path_start = skip_whitespace(line, method_end);
    let path_end = skip_word(line, path_start);
    let path = line.subrange(path_start, path_end);
    let q = find_char_from(path, '?', 0);
    if method_start >= line.len() {
        Err(missing_method_message())
    } else if path_start >= line.len() {
        Err(missing_path_message())
    } else if spec_parse_mode_from_path(path) is Some {
        Ok(spec_parse_mode_from_path(path)->Some_0)
    } else if q < path.len() {
        match spec_query_mode(path.subrange(q + 1, path.len() as int)) {
            Some(Some(mode)) => Ok(mode),
            Some(None) => Err(invalid_mode_message()),
            None => Err(usage_message()),
        }
    } else {
        Err(usage_message())
    }
}

fn skip_whitespace_exec(v: &Vec<char>, start: usize) -> (r: usize)
    requires
        start <= v.len(),
    ensures
        r == skip_whitespace(v@, start as int),
        start <= r <= v.len(),
{
    let mut i = start;
    while i < v.len() && is_whitespace(v[i])
        invariant
            start <= i <= v.len(),
            skip_whitespace(v@, start as int) == skip_whitespace(v@, i as int),
        decreases v.len() - i,
    {
        i = i + 1;
    }
    i
}

fn skip_word_exec(v: &Vec<char>, start: usize) -> (r: usize)
    requires
        start <= v.len(),
    ensures
        r == skip_word(v@, start as int),
        start <= r <= v.len(),
{
    let mut i = start;
    while i < v.len() && !is_whitespace(v[i])
        invariant
            start <= i <= v.len(),
            skip_word(v@, start as int) == skip_word(v@, i as int),
        decreases v.len() - i,
    {
        i = i + 1;
    }
    i
}

fn find_char_exec(v: &Vec<char>, c: char) -> (r: usize)
    ensures
        r == find_char_from(v@, c, 0),
        r <= v.len(),
{
    let mut i: usize = 0;
    while i < v.len() && v[i] != c
        invariant
            i <= v.len(),
            find_char_from(v@, c, 0) == find_char_from(v@, c, i as int),
        decreases v.len() - i,
    {
        i = i + 1;
    }
    i
}

fn sub_chars(v: &Vec<char>, from: usize, to: usize) -> (r: Vec<char>)
    requires
        from <= to <= v.len(),
    ensures
        r@ == v@.subrange(from as int, to as int),
{
    let mut r: Vec<char> = Vec::new();
    let mut i = from;
    while i < to
        invariant
            from <= i <= to <= v.len(),
            r@ == v@.subrange(from as int, i as int),
        decreases to - i,
    {
        r.push(v[i]);
        assert(v@.subrange(from as int, i + 1) =~= v@.subrange(from as int, i as int).push(
            v@[i as int],
        ));
        i = i + 1;
    }
    r
}

fn mode_value_of(value: &Vec<char>) -> (r: Option<ImeMode>)
    ensures
        r == spec_parse_mode_value(value@),
{
    if value.len() == 1 && value[0] == '1' {
        assert(value@ =~= seq!['1']);
        Some(ImeMode::Chinese)
    } else if value.len() == 1 && value[0] == '0' {
        assert(value@ =~= seq!['0']);
        Some(ImeMode::English)
    } else {
        None
    }
}

fn mode_from_path_of(path: &Vec<char>) -> (r: Option<ImeMode>)
    ensures
        r == spec_parse_mode_from_path(path@),
{
    let prefix = ['/', 's', 'w', 'i', 't', 'c', 'h', '/'];
    let mut is_switch = path.len() >= 8;
    let mut i: usize = 0;
    while is_switch && i < 8
        invariant
            i <= 8,
            is_switch ==> path.len() >= 8,
            prefix@ == switch_prefix(),
            is_switch ==> forall|j: int| 0 <= j < i ==> path@[j] == prefix@[j],
            !is_switch ==> !starts_with(path@, switch_prefix()),
        decreases 8 - i,
    {
        if path[i] != prefix[i] {
            is_switch = false;
            assert(path@.subrange(0, 8)[i as int] != switch_prefix()[i as int]);
        }
        i = i + 1;
    }
    if is_switch {
        assert(path@.subrange(0, 8) =~= switch_prefix());
        let rest = sub_chars(path, 8, path.len());
        return mode_value_of(&rest);
    }
    if path.len() > 0 && path[0] == '/' {
        let rest = sub_chars(path, 1, path.len());
        assert(rest@ =~= path@.drop_first());
        return mode_value_of(&rest);
    }
    None
}

fn query_mode_of(query: &Vec<char>) -> (r: Option<Option<ImeMode>>)
    ensures
        r == spec_query_mode(query@),
    decreases query.len(),
{
    let amp = find_char_exec(query, '&');
    let pair = sub_chars(query, 0, amp);
    let eq = find_char_exec(&pair, '=');
    if eq < pair.len() {
        let key = sub_chars(&pair, 0, eq);
        let is_mode = (key.len() == 4 && key[0] == 'm' && key[1] == 'o' && key[2] == 'd' && key[3]
            == 'e') || (key.len() == 5 && key[0] == 'v' && key[1] == 'a' && key[2] == 'l' && key[3]
            == 'u' && key[4] == 'e');
        proof {
            if key@.len() == 4 {
                if key@[0] == 'm' && key@[1] == 'o' && key@[2] == 'd' && key@[3] == 'e' {
                    assert(key@ =~= seq!['m', 'o', 'd', 'e']);
                }
            }
            if key@.len() == 5 {
                if key@[0] == 'v' && key@[1] == 'a' && key@[2] == 'l' && key@[3] == 'u' && key@[4]
                    == 'e' {
                    assert(key@ =~= seq!['v', 'a', 'l', 'u', 'e']);
                }
            }
            if key@ == seq!['m', 'o', 'd', 'e'] {
                assert(key@[3] == 'e');
            }
            if key@ == seq!['v', 'a', 'l', 'u', 'e'] {
                assert(key@[4] == 'e');
            }
        }
        if is_mode {
            let value = sub_chars(&pair, eq + 1, pair.len());
            return Some(mode_value_of(&value));
        }
    }
    if amp < query.len() {
        let rest = sub_chars(query, amp + 1, query.len());
        return query_mode_of(&rest);
    }
    None
}

/// A mode written as the path: `1` or `0`.
pub fn parse_mode_value(value: &str) -> (r: Option<ImeMode>)
    ensures
        r == spec_parse_mode_value(value@),
{
    let chars = str_chars(value);
    mode_value_of(&chars)
}

/// A mode written as the path itself: `/switch/<v>` or `/<v>`.
pub fn parse_mode_from_path(path: &str) -> (r: Option<ImeMode>)
    ensures
        r == spec_parse_mode_from_path(path@),
{
    let chars = str_chars(path);
    mode_from_path_of(&chars)
}

/// Reads the requested mode from an HTTP request line such as
/// `GET /switch?mode=1 HTTP/1.1`, or gives the reason it names none.
pub fn parse_requested_mode(request_line: &str) -> (r: Result<ImeMode, &'static str>)
    ensures
        match r {
            Ok(mode) => spec_parse_requested_mode(request_line@) == Ok::<ImeMode, Seq<char>>(mode),
            Err(m) => spec_parse_requested_mode(request_line@) == Err::<ImeMode, Seq<char>>(m@),
        },
{
    let line = str_chars(request_line);
    let method_start = skip_whitespace_exec(&line, 0);
    if method_start >= line.len() {
        return Err("缺少 HTTP 方法");
    }
    let method_end = skip_word_exec(&line, method_start);
    let path_start = skip_whitespace_exec(&line, method_end);
    if path_start >= line.len() {
        return Err("缺少请求路径");
    }
    let path_end = skip_word_exec(&line, path_start);
    let path = sub_chars(&line, path_start, path_end);
    if let Some(mode) = mode_from_path_of(&path) {
        return Ok(mode);
    }
    let q = find_char_exec(&path, '?');
    if q < path.len() {
        let query = sub_chars(&path, q + 1, path.len());
        match query_mode_of(&query) {
            Some(Some(mode)) => return Ok(mode),
            Some(None) => return Err("mode 只能传 1 或 0"),
            None => {},
        }
    }
    Err("请使用 /switch?mode=1 或 /switch?mode=0")
}

// ───────────────────────── laws of the request line ─────────────────────────

proof fn lemma_skip_whitespace_to(s: Seq<char>, i: int, k: int)
    requires
        0 <= i <= k <= s.len(),
        forall|j: int| i <= j < k ==> is_unicode_whitespace(#[trigger] s[j]),
        k == s.len() || !is_unicode_whitespace(s[k]),
    ensures
        skip_whitespace(s, i) == k,
    decreases k - i,
{
    if i < k {
        lemma_skip_whitespace_to(s, i + 1, k);
    }
}

proof fn lemma_skip_word_to(s: Seq<char>, i: int, k: int)
    requires
        0 <= i <= k <= s.len(),
        forall|j: int| i <= j < k ==> !is_unicode_whitespace(#[trigger] s[j]),
        k == s.len() || is_unicode_whitespace(s[k]),
    ensures
        skip_word(s, i) == k,
    decreases k - i,
{
    if i < k {
        lemma_skip_word_to(s, i + 1, k);
    }
}

proof fn lemma_find_char_at(s: Seq<char>, c: char, i: int, k: int)
    requires
        0 <= i <= k <= s.len(),
        forall|j: int| i <= j < k ==> #[trigger] s[j] != c,
        k == s.len() || s[k] == c,
    ensures
        find_char_from(s, c, i) == k,
    decreases k - i,
{
    if i < k {
        lemma_find_char_at(s, c, i + 1, k);
    }
}

/// The request line `lead + method + gap + path + rest` splits into that
/// method and that path.
proof fn lemma_request_line_parts(
    lead: Seq<char>,
    method: Seq<char>,
    gap: Seq<char>,
    path: Seq<char>,
    rest: Seq<char>,
)
    requires
        forall|j: int| 0 <= j < lead.len() ==> is_unicode_whitespace(#[trigger] lead[j]),
        method.len() > 0,
        forall|j: int| 0 <= j < method.len() ==> !is_unicode_whitespace(#[trigger] method[j]),
        gap.len() > 0,
        forall|j: int| 0 <= j < gap.len() ==> is_unicode_whitespace(#[trigger] gap[j]),
        path.len() > 0,
        forall|j: int| 0 <= j < path.len() ==> !is_unicode_whitespace(#[trigger] path[j]),
        rest.len() == 0 || is_unicode_whitespace(rest[0]),
    ensures
        ({
            let line = lead + method + gap + path + rest;
            let a = lead.len() as int;
            let b = a + method.len();
            let c = b + gap.len();
            let d = c + path.len();
            &&& skip_whitespace(line, 0) == a
            &&& skip_word(line, a) == b
            &&& skip_whitespace(line, b) == c
            &&& skip_word(line, c) == d
            &&& line.subrange(c, d) == path
            &&& a < line.len()
            &&& c < line.len()
        }),
{
    let line = lead + method + gap + path + rest;
    let a = lead.len() as int;
    let b = a + method.len();
    let c = b + gap.len();
    let d = c + path.len();
    assert forall|j: int| 0 <= j < a implies is_unicode_whitespace(#[trigger] line[j]) by {
        assert(line[j] == lead[j]);
    }
    assert(line[a] == method[0]);
    lemma_skip_whitespace_to(line, 0, a);
    assert forall|j: int| a <= j < b implies !is_unicode_whitespace(#[trigger] line[j]) by {
        assert(line[j] == method[j - a]);
    }
    assert(line[b] == gap[0]);
    lemma_skip_word_to(line, a, b);
    assert forall|j: int| b <= j < c implies is_unicode_whitespace(#[trigger] line[j]) by {
        assert(line[j] == gap[j - b]);
    }
    assert(line[c] == path[0]);
    lemma_skip_whitespace_to(line, b, c);
    assert forall|j: int| c <= j < d implies !is_unicode_whitespace(#[trigger] line[j]) by {
        assert(line[j] == path[j - c]);
    }
    if rest.len() > 0 {
        assert(line[d] == rest[0]);
    }
    lemma_skip_word_to(line, c, d);
    assert(line.subrange(c, d) =~= path);
}

/// A request line is judged by its path alone: leading whitespace, the
/// method, the whitespace after it and whatever follows the path (the
/// protocol version) do not change the outcome.
pub proof fn lemma_request_line_judged_by_path(
    lead: Seq<char>,
    method: Seq<char>,
    gap: Seq<char>,
    path: Seq<char>,
    rest: Seq<char>,
    other_method: Seq<char>,
)
    requires
        forall|j: int| 0 <= j < lead.len() ==> is_unicode_whitespace(#[trigger] lead[j]),
        method.len() > 0,
        forall|j: int| 0 <= j < method.len() ==> !is_unicode_whitespace(#[trigger] method[j]),
        gap.len() > 0,
        forall|j: int| 0 <= j < gap.len() ==> is_unicode_whitespace(#[trigger] gap[j]),
        path.len() > 0,
        forall|j: int| 0 <= j < path.len() ==> !is_unicode_whitespace(#[trigger] path[j]),
        rest.len() == 0 || is_unicode_whitespace(rest[0]),
        other_method.len() > 0,
        forall|j: int|
            0 <= j < other_method.len() ==> !is_unicode_whitespace(#[trigger] other_method[j]),
    ensures
        spec_parse_requested_mode(lead + method + gap + path + rest) == spec_parse_requested_mode(
            other_method + seq![' '] + path,
        ),
{
    lemma_request_line_parts(lead, method, gap, path, rest);
    assert(is_unicode_whitespace(' '));
    lemma_request_line_parts(seq![], other_method, seq![' '], path, seq![]);
    assert(seq![] + other_method + seq![' '] + path + seq![] =~= other_method + seq![' '] + path);
}

/// A line that is empty or only whitespace names no method; a method with
/// nothing but whitespace after it names no path.
pub proof fn lemma_request_line_missing_parts(method: Seq<char>, tail: Seq<char>)
    requires
        forall|j: int| 0 <= j < method.len() ==> !is_unicode_whitespace(#[trigger] method[j]),
        forall|j: int| 0 <= j < tail.len() ==> is_unicode_whitespace(#[trigger] tail[j]),
    ensures
        spec_parse_requested_mode(tail) == Err::<ImeMode, Seq<char>>(missing_method_message()),
        method.len() > 0 ==> spec_parse_requested_mode(method + tail) == Err::<ImeMode, Seq<char>>(
            missing_path_message(),
        ),
{
    lemma_skip_whitespace_to(tail, 0, tail.len() as int);
    if method.len() > 0 {
        let line = method + tail;
        let b = method.len() as int;
        assert(line[0] == method[0]);
        lemma_skip_whitespace_to(line, 0, 0);
        assert forall|j: int| 0 <= j < b implies !is_unicode_whitespace(#[trigger] line[j]) by {
            assert(line[j] == method[j]);
        }
        if tail.len() > 0 {
            assert(line[b] == tail[0]);
        }
        lemma_skip_word_to(line, 0, b);
        assert forall|j: int| b <= j < line.len() implies is_unicode_whitespace(#[trigger] line[j]) by {
            assert(line[j] == tail[j - b]);
        }
        lemma_skip_whitespace_to(line, b, line.len() as int);
    }
}

/// The mode written as the path: `/1` and `/switch/1` ask for Chinese, `/0`
/// and `/switch/0` for English.
pub proof fn lemma_mode_in_path(method: Seq<char>, d: char)
    requires
        method.len() > 0,
        forall|j: int| 0 <= j < method.len() ==> !is_unicode_whitespace(#[trigger] method[j]),
        d == '0' || d == '1',
    ensures
        ({
            let mode = if d == '1' {
                ImeMode::Chinese
            } else {
                ImeMode::English
            };
            &&& spec_parse_requested_mode(method + seq![' '] + seq!['/', d]) == Ok::<
                ImeMode,
                Seq<char>,
            >(mode)
            &&& spec_parse_requested_mode(
                method + seq![' '] + seq!['/', 's', 'w', 'i', 't', 'c', 'h', '/', d],
            ) == Ok::<ImeMode, Seq<char>>(mode)
        }),
{
    assert(is_unicode_whitespace(' '));
    let p1 = seq!['/', d];
    let p2 = seq!['/', 's', 'w', 'i', 't', 'c', 'h', '/', d];
    lemma_request_line_parts(seq![], method, seq![' '], p1, seq![]);
    assert(seq![] + method + seq![' '] + p1 + seq![] =~= method + seq![' '] + p1);
    lemma_request_line_parts(seq![], method, seq![' '], p2, seq![]);
    assert(seq![] + method + seq![' '] + p2 + seq![] =~= method + seq![' '] + p2);
    assert(p1.drop_first() =~= seq![d]);
    assert(p2.subrange(0, 8) =~= switch_prefix());
    assert(p2.subrange(8, p2.len() as int) =~= seq![d]);
    assert(seq!['0'] != seq!['1']) by {
        assert(seq!['0'][0] != seq!['1'][0]);
    }
    assert(!starts_with(p1, switch_prefix()));
    assert(spec_parse_mode_from_path(p1) == spec_parse_mode_value(seq![d]));
    assert(starts_with(p2, switch_prefix()));
    assert(spec_parse_mode_from_path(p2) == spec_parse_mode_value(seq![d]));
}

/// The path `/switch?` followed by a query whose first pair is `mode=<v>` or
/// `value=<v>`: `1` asks for Chinese, `0` for English, any other value is
/// refused as invalid, whatever pairs follow.
pub proof fn lemma_mode_in_query(method: Seq<char>, key: Seq<char>, v: Seq<char>, rest: Seq<char>)
    requires
        method.len() > 0,
        forall|j: int| 0 <= j < method.len() ==> !is_unicode_whitespace(#[trigger] method[j]),
        key == seq!['m', 'o', 'd', 'e'] || key == seq!['v', 'a', 'l', 'u', 'e'],
        forall|j: int| 0 <= j < v.len() ==> #[trigger] v[j] != '&' && !is_unicode_whitespace(v[j]),
        rest.len() == 0 || rest[0] == '&',
        forall|j: int| 0 <= j < rest.len() ==> !is_unicode_whitespace(#[trigger] rest[j]),
    ensures
        ({
            let path = seq!['/', 's', 'w', 'i', 't', 'c', 'h', '?'] + key + seq!['='] + v + rest;
            let r = spec_parse_requested_mode(method + seq![' '] + path);
            &&& v == seq!['1'] ==> r == Ok::<ImeMode, Seq<char>>(ImeMode::Chinese)
            &&& v == seq!['0'] ==> r == Ok::<ImeMode, Seq<char>>(ImeMode::English)
            &&& v != seq!['1'] && v != seq!['0'] ==> r == Err::<ImeMode, Seq<char>>(
                invalid_mode_message(),
            )
        }),
{
    let head = seq!['/', 's', 'w', 'i', 't', 'c', 'h', '?'];
    let q = key + seq!['='] + v + rest;
    let path = head + key + seq!['='] + v + rest;
    assert(path =~= head + q);
    assert forall|j: int| 0 <= j < path.len() implies !is_unicode_whitespace(#[trigger] path[j]) by {
        if j >= head.len() + key.len() + 1 + v.len() {
            assert(path[j] == rest[j - (head.len() + key.len() + 1 + v.len())]);
        } else if j >= head.len() + key.len() + 1 {
            assert(path[j] == v[j - (head.len() + key.len() + 1)]);
        }
    }
    assert(is_unicode_whitespace(' '));
    lemma_request_line_parts(seq![], method, seq![' '], path, seq![]);
    assert(seq![] + method + seq![' '] + path + seq![] =~= method + seq![' '] + path);
    // the path form does not apply
    assert(path[7] == '?');
    assert(path.subrange(0, 8) != switch_prefix());
    assert(path.drop_first().len() > 1);
    // the query starts after the `?`
    lemma_find_char_at(path, '?', 0, 7);
    assert(path.subrange(8, path.len() as int) =~= q);
    // its first pair is the mode pair
    let amp = (key.len() + 1 + v.len()) as int;
    assert forall|j: int| 0 <= j < amp implies #[trigger] q[j] != '&' by {
        if j >= key.len() + 1 {
            assert(q[j] == v[j - key.len() - 1]);
        }
    }
    if rest.len() > 0 {
        assert(q[amp] == rest[0]);
    }
    lemma_find_char_at(q, '&', 0, amp);
    let pair = q.subrange(0, amp);
    assert(pair =~= key + seq!['='] + v);
    assert forall|j: int| 0 <= j < key.len() implies #[trigger] pair[j] != '=' by {}
    lemma_find_char_at(pair, '=', 0, key.len() as int);
    assert(pair.subrange(0, key.len() as int) =~= key);
    assert(pair.subrange(key.len() + 1int, pair.len() as int) =~= v);
    assert(is_mode_key(pair.subrange(0, key.len() as int)));
    assert(spec_query_mode(q) == Some(spec_parse_mode_value(v)));
    assert(seq!['0'] != seq!['1']) by {
        assert(seq!['0'][0] != seq!['1'][0]);
    }
    assert(spec_parse_mode_from_path(path) is None);
    let line = method + seq![' '] + path;
    assert(line.subrange(method.len() + 1int, line.len() as int) == path);
}

/// A query pair whose key is neither `mode` nor `value` is passed over: the
/// outcome is the one of the pairs after it.
pub proof fn lemma_other_query_pair_skipped(
    method: Seq<char>,
    pair: Seq<char>,
    q: Seq<char>,
)
    requires
        method.len() > 0,
        forall|j: int| 0 <= j < method.len() ==> !is_unicode_whitespace(#[trigger] method[j]),
        forall|j: int| 0 <= j < pair.len() ==> #[trigger] pair[j] != '&' && !is_unicode_whitespace(pair[j]),
        forall|j: int| 0 <= j < q.len() ==> !is_unicode_whitespace(#[trigger] q[j]),
        forall|e: int|
            0 <= e < pair.len() && #[trigger] pair[e] == '=' && (forall|j: int|
                0 <= j < e ==> pair[j] != '=') ==> pair.subrange(0, e) != seq!['m', 'o', 'd', 'e']
                && pair.subrange(0, e) != seq!['v', 'a', 'l', 'u', 'e'],
    ensures
        ({
            let head = seq!['/', 's', 'w', 'i', 't', 'c', 'h', '?'];
            spec_parse_requested_mode(method + seq![' '] + (head + pair + seq!['&'] + q))
                == spec_parse_requested_mode(method + seq![' '] + (head + q))
        }),
{
    let head = seq!['/', 's', 'w', 'i', 't', 'c', 'h', '?'];
    let q1 = pair + seq!['&'] + q;
    let path1 = head + q1;
    assert(head + pair + seq!['&'] + q =~= path1);
    let path2 = head + q;
    assert(is_unicode_whitespace(' '));
    assert forall|j: int| 0 <= j < path1.len() implies !is_unicode_whitespace(#[trigger] path1[j]) by {
        if j >= head.len() + pair.len() + 1 {
            assert(path1[j] == q[j - (head.len() + pair.len() + 1)]);
        } else if j >= head.len() && j < head.len() + pair.len() {
            assert(path1[j] == pair[j - head.len()]);
        }
    }
    assert forall|j: int| 0 <= j < path2.len() implies !is_unicode_whitespace(#[trigger] path2[j]) by {
        if j >= head.len() {
            assert(path2[j] == q[j - head.len()]);
        }
    }
    lemma_request_line_parts(seq![], method, seq![' '], path1, seq![]);
    assert(seq![] + method + seq![' '] + path1 + seq![] =~= method + seq![' '] + path1);
    lemma_request_line_parts(seq![], method, seq![' '], path2, seq![]);
    assert(seq![] + method + seq![' '] + path2 + seq![] =~= method + seq![' '] + path2);
    assert(path1[7] == '?' && path2[7] == '?');
    assert(path1.subrange(0, 8) != switch_prefix());
    assert(path2.subrange(0, 8) != switch_prefix());
    assert(path1.drop_first().len() > 1 && path2.drop_first().len() > 1);
    lemma_find_char_at(path1, '?', 0, 7);
    lemma_find_char_at(path2, '?', 0, 7);
    assert(path1.subrange(8, path1.len() as int) =~= q1);
    assert(path2.subrange(8, path2.len() as int) =~= q);
    assert forall|j: int| 0 <= j < pair.len() implies #[trigger] q1[j] != '&' by {
        assert(q1[j] == pair[j]);
    }
    lemma_find_char_at(q1, '&', 0, pair.len() as int);
    assert(q1.subrange(0, pair.len() as int) =~= pair);
    lemma_find_char_bounds(pair, '=', 0);
    let e = find_char_from(pair, '=', 0);
    if e < pair.len() {
        assert forall|j: int| 0 <= j < e implies pair[j] != '=' by {
            lemma_find_first(pair, '=', 0, j);
        }
    }
    assert(q1.subrange(pair.len() + 1int, q1.len() as int) =~= q);
    if e < pair.len() {
        assert(pair[e] == '=');
        assert(!is_mode_key(pair.subrange(0, e)));
    }
    assert(spec_query_mode(q1) == spec_query_mode(q));
    assert(spec_parse_mode_from_path(path1) is None);
    assert(spec_parse_mode_from_path(path2) is None);
    let line1 = method + seq![' '] + path1;
    let line2 = method + seq![' '] + path2;
    assert(line1.subrange(method.len() + 1int, line1.len() as int) == path1);
    assert(line2.subrange(method.len() + 1int, line2.len() as int) == path2);
}

proof fn lemma_find_first(s: Seq<char>, c: char, i: int, j: int)
    requires
        0 <= i <= j < find_char_from(s, c, i),
        j < s.len(),
    ensures
        s[j] != c,
    decreases j - i,
{
    if i < j {
        lemma_find_first(s, c, i + 1, j);
    }
}

// ───────────────────────── laws of the reply ─────────────────────────

/// The reason phrases of the status codes the endpoint answers with, `OK`
/// for 200; the JSON words for the three modes and for no mode; the JSON
/// booleans.
pub proof fn lemma_reply_words()
    ensures
        spec_status_text(200) == "OK"@,
        spec_status_text(400) == "Bad Request"@,
        spec_status_text(404) == "Not Found"@,
        spec_status_text(500) == "Internal Server Error"@,
        spec_status_text(504) == "Gateway Timeout"@,
        spec_mode_json(Some(ImeMode::Chinese)) == "\"chinese\""@,
        spec_mode_json(Some(ImeMode::English)) == "\"english\""@,
        spec_mode_json(Some(ImeMode::Unknown)) == "\"unknown\""@,
        spec_mode_json(None) == "null"@,
        spec_bool_json(true) == "true"@,
        spec_bool_json(false) == "false"@,
{
}

/// Escaping works character by character: the escape of a concatenation is
/// the concatenation of the escapes.
pub proof fn lemma_json_escape_concat(a: Seq<char>, b: Seq<char>)
    ensures
        spec_json_escape(a + b) == spec_json_escape(a) + spec_json_escape(b),
    decreases a.len(),
{
    if a.len() == 0 {
        assert(a + b =~= b);
    } else {
        assert((a + b).drop_first() =~= a.drop_first() + b);
        lemma_json_escape_concat(a.drop_first(), b);
        assert(spec_json_escape(a + b) =~= spec_json_escape(a) + spec_json_escape(b));
    }
}

/// One character is escaped as JSON asks: a quote, a backslash, a line feed,
/// a carriage return and a tab become a backslash and `"`, `\`, `n`, `r`,
/// `t`; any other character stands for itself.
pub proof fn lemma_json_escape_char(c: char)
    ensures
        c == '"' ==> spec_json_escape(seq![c]) == seq!['\\', '"'],
        c == '\\' ==> spec_json_escape(seq![c]) == seq!['\\', '\\'],
        c == '\n' ==> spec_json_escape(seq![c]) == seq!['\\', 'n'],
        c == '\r' ==> spec_json_escape(seq![c]) == seq!['\\', 'r'],
        c == '\t' ==> spec_json_escape(seq![c]) == seq!['\\', 't'],
        c != '"' && c != '\\' && c != '\n' && c != '\r' && c != '\t' ==> spec_json_escape(seq![c])
            == seq![c],
{
    assert(seq![c].drop_first() =~= Seq::<char>::empty());
    assert(spec_json_escape(seq![c]) =~= json_escape_char(c) + spec_json_escape(Seq::<char>::empty()));
}

/// The reply to a request: the status line with the code and its reason,
/// the JSON content type, the body's length in UTF-8 bytes, `Connection:
/// close`, an empty line, and the body; the body is the JSON object with
/// `success`, `changed`, `mode` and the escaped `message`, in that order.
pub proof fn lemma_reply_layout(status_code: u16, response: SwitchResponse)
    requires
        vstd::utf8::encode_utf8(
            spec_response_body(response.success, response.changed, response.mode, response.message@),
        ).len() <= usize::MAX,
    ensures
        ({
            let body = "{\"success\":"@ + spec_bool_json(response.success) + ",\"changed\":"@
                + spec_bool_json(response.changed) + ",\"mode\":"@ + spec_mode_json(response.mode)
                + ",\"message\":\""@ + spec_json_escape(response.message@) + "\"}"@;
            &&& spec_response_body(
                response.success,
                response.changed,
                response.mode,
                response.message@,
            ) == body
            &&& spec_build_http_response(status_code, response) == "HTTP/1.1 "@ + decimal(
                status_code as nat,
            ) + " "@ + spec_status_text(status_code)
                + "\r\nContent-Type: application/json; charset=utf-8\r\nContent-Length: "@
                + decimal(vstd::utf8::encode_utf8(body).len()) + "\r\nConnection: close\r\n\r\n"@
                + body
        }),
{
}

} // verus!
