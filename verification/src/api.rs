//! The local HTTP API (127.0.0.1:44880): routing and the response bodies.
use vstd::prelude::*;
use crate::config::{opt_text, Config};
use crate::downloader::hex_digit;
use crate::history::History;
use crate::text::{bool_str, bool_text, chars_of, decimal, owned, push_decimal, push_str, str_eq, trim, trim_string};

verus! {

broadcast use vstd::seq_lib::group_seq_properties;

/// The port the API listens on, on the loopback interface.
pub const API_PORT: u16 = 44880;

/// A character as it appears inside a JSON string written by serde_json:
/// `"` and `\` and the controls `\b \t \n \f \r` escaped with a backslash,
/// the other controls below U+0020 as `\u00` and two lowercase hex digits,
/// everything else as is.
pub open spec fn json_escaped(c: char) -> Seq<char> {
    if c == '"' {
        seq!['\\', '"']
    } else if c == '\\' {
        seq!['\\', '\\']
    } else if c == '\u{8}' {
        seq!['\\', 'b']
    } else if c == '\t' {
        seq!['\\', 't']
    } else if c == '\n' {
        seq!['\\', 'n']
    } else if c == '\u{c}' {
        seq!['\\', 'f']
    } else if c == '\r' {
        seq!['\\', 'r']
    } else if (c as u32) < 0x20 {
        seq!['\\', 'u', '0', '0', hex_digit((c as u32 / 16) as int), hex_digit((c as u32 % 16) as int)]
    } else {
        seq![c]
    }
}

/// The characters of a text escaped for a JSON string.
pub open spec fn json_escaped_all(s: Seq<char>) -> Seq<char>
    decreases s.len(),
{
    if s.len() == 0 { seq![] } else { json_escaped_all(s.drop_last()) + json_escaped(s.last()) }
}

/// A text as a JSON string literal.
pub open spec fn json_quoted(s: Seq<char>) -> Seq<char> {
    seq!['"'] + json_escaped_all(s) + seq!['"']
}

/// `serde_json::to_string` on a string: the text in double quotes with the
/// escapes of `json_escaped` (serde_json's `ESCAPE` table and
/// `write_char_escape`). Writing into memory cannot fail, so the fallback
/// `""` of the callers is never taken.
#[verifier::external_body]
pub(crate) fn json_string(s: &str) -> (r: String)
    ensures r@ == json_quoted(s@),
{
    match serde_json::to_string(s) {
        Ok(j) => j,
        Err(_) => "\"\"".to_string(),
    }
}

/// A request of the API.
#[derive(Debug, Clone, Copy, PartialEq, Eq, Structural)]
pub enum Route {
    Status,
    History,
    Config,
    Inject,
    Pause,
    Reload,
    Reformulate,
    /// A CORS preflight (any OPTIONS request).
    Preflight,
    NotFound,
}

/// The path of a URL: what comes before the first `?`.
pub open spec fn url_path(url: Seq<char>) -> Seq<char> {
    if exists|i: int| 0 <= i < url.len() && url[i] == '?' {
        url.take(choose|i: int| 0 <= i < url.len() && url[i] == '?' && forall|j: int| 0 <= j < i ==> url[j] != '?')
    } else {
        url
    }
}

/// The route of a method and a path.
pub open spec fn route_of(method: Seq<char>, path: Seq<char>) -> Route {
    if method == "GET"@ && path == "/status"@ {
        Route::Status
    } else if method == "GET"@ && path == "/history"@ {
        Route::History
    } else if method == "GET"@ && path == "/config"@ {
        Route::Config
    } else if method == "POST"@ && path == "/inject"@ {
        Route::Inject
    } else if method == "POST"@ && path == "/pause"@ {
        Route::Pause
    } else if method == "POST"@ && path == "/reload"@ {
        Route::Reload
    } else if method == "POST"@ && path == "/reformulate"@ {
        Route::Reformulate
    } else if method == "OPTIONS"@ {
        Route::Preflight
    } else {
        Route::NotFound
    }
}

/// The route of a request, from its method and URL (the query is ignored).
pub fn route(method: &str, url: &str) -> (r: Route)
    ensures r == route_of(method@, url_path(url@)),
{
    let v = chars_of(url);
    let mut i: usize = 0;
    while i < v.len() && v[i] != '?'
        invariant
            i <= v@.len(),
            v@ == url@,
            forall|j: int| 0 <= j < i ==> v@[j] != '?',
        decreases v@.len() - i,
    {
        i += 1;
    }
    let path = crate::text::string_of(vstd::slice::slice_subrange(v.as_slice(), 0, i));
    proof {
        if i < v@.len() {
            let w = choose|k: int| 0 <= k < url@.len() && url@[k] == '?' && forall|j: int| 0 <= j < k ==> url@[j] != '?';
            assert(0 <= i < url@.len() && url@[i as int] == '?');
            assert(w == i);
        } else {
            assert(v@.take(i as int) == v@);
        }
    }
    let p = path.as_str();
    if str_eq(method, "GET") && str_eq(p, "/status") {
        Route::Status
    } else if str_eq(method, "GET") && str_eq(p, "/history") {
        Route::History
    } else if str_eq(method, "GET") && str_eq(p, "/config") {
        Route::Config
    } else if str_eq(method, "POST") && str_eq(p, "/inject") {
        Route::Inject
    } else if str_eq(method, "POST") && str_eq(p, "/pause") {
        Route::Pause
    } else if str_eq(method, "POST") && str_eq(p, "/reload") {
        Route::Reload
    } else if str_eq(method, "POST") && str_eq(p, "/reformulate") {
        Route::Reformulate
    } else if str_eq(method, "OPTIONS") {
        Route::Preflight
    } else {
        Route::NotFound
    }
}

/// The body of `GET /status`. The texts go in as they are.
pub open spec fn status_body(
    recording: bool,
    transcribing: bool,
    paused: bool,
    count: u32,
    hotkey: Seq<char>,
    model: Seq<char>,
    language: Seq<char>,
) -> Seq<char> {
    "{\"recording\":"@ + bool_text(recording) + ",\"transcribing\":"@ + bool_text(transcribing)
        + ",\"paused\":"@ + bool_text(paused) + ",\"session_count\":"@ + decimal(count as nat)
        + ",\"hotkey\":\""@ + hotkey + "\",\"model\":\""@ + model + "\",\"language\":\""@ + language
        + "\",\"version\":\""@ + "1.0.0"@ + "\"}"@
}

pub fn status_json(
    recording: bool,
    transcribing: bool,
    paused: bool,
    count: u32,
    hotkey: &str,
    model: &str,
    language: &str,
) -> (r: String)
    ensures r@ == status_body(recording, transcribing, paused, count, hotkey@, model@, language@),
{
    let mut r = owned("{\"recording\":");
    push_str(&mut r, bool_str(recording));
    push_str(&mut r, ",\"transcribing\":");
    push_str(&mut r, bool_str(transcribing));
    push_str(&mut r, ",\"paused\":");
    push_str(&mut r, bool_str(paused));
    push_str(&mut r, ",\"session_count\":");
    push_decimal(&mut r, count as u64);
    push_str(&mut r, ",\"hotkey\":\"");
    push_str(&mut r, hotkey);
    push_str(&mut r, "\",\"model\":\"");
    push_str(&mut r, model);
    push_str(&mut r, "\",\"language\":\"");
    push_str(&mut r, language);
    push_str(&mut r, "\",\"version\":\"");
    push_str(&mut r, Config::app_version());
    push_str(&mut r, "\"}");
    r
}

/// One entry of `GET /history`.
pub open spec fn entry_json(text: Seq<char>, timestamp: u64) -> Seq<char> {
    "{\"text\":"@ + json_quoted(text) + ",\"timestamp\":"@ + decimal(timestamp as nat) + "}"@
}

/// The entries of the first `n` history items, in order.
pub open spec fn entries_json(h: Seq<crate::history::HistoryEntry>, n: int) -> Seq<Seq<char>>
    decreases n,
{
    if n <= 0 { seq![] } else { entries_json(h, n - 1).push(entry_json(h[n - 1].text@, h[n - 1].timestamp)) }
}

proof fn lemma_entries_json_len(h: Seq<crate::history::HistoryEntry>, n: int)
    requires n >= 0,
    ensures entries_json(h, n).len() == n,
    decreases n,
{
    if n > 0 {
        lemma_entries_json_len(h, n - 1);
    }
}

/// The body of `GET /history`: the entries, most recent first, as a JSON array.
pub fn history_json(history: &History) -> (r: String)
    ensures
        r@ == "["@ + crate::text::join(entries_json(history@, history@.len() as int), ","@) + "]"@,
{
    let entries = history.entries();
    let mut body = String::new();
    let mut i: usize = 0;
    while i < entries.len()
        invariant
            i <= entries@.len(),
            entries@ == history@,
            body@ == crate::text::join(entries_json(entries@, i as int), ","@),
        decreases entries@.len() - i,
    {
        let e = &entries[i];
        proof {
            lemma_entries_json_len(entries@, i as int);
            crate::text::lemma_join_push(entries_json(entries@, i as int), ","@, entry_json(e.text@, e.timestamp));
        }
        if i > 0 {
            push_str(&mut body, ",");
        }
        push_str(&mut body, "{\"text\":");
        push_str(&mut body, json_string(e.text.as_str()).as_str());
        push_str(&mut body, ",\"timestamp\":");
        push_decimal(&mut body, e.timestamp);
        push_str(&mut body, "}");
        i += 1;
    }
    let mut r = owned("[");
    push_str(&mut r, body.as_str());
    push_str(&mut r, "]");
    r
}

/// The body of `POST /pause`: the new state.
pub fn paused_json(paused: bool) -> (r: String)
    ensures r@ == "{\"paused\":"@ + bool_text(paused) + "}"@,
{
    let mut r = owned("{\"paused\":");
    push_str(&mut r, bool_str(paused));
    push_str(&mut r, "}");
    r
}

/// The text `POST /inject` types: the trimmed body; none when it is empty
/// (the request is then answered 400 "error: empty body").
pub fn inject_text_of(body: &str) -> (r: Option<String>)
    ensures
        match r {
            Some(t) => t@ == trim(body@) && t@.len() > 0,
            None => trim(body@).len() == 0,
        },
{
    let t = trim_string(body);
    if t.as_str().is_empty() { None } else { Some(t) }
}

/// The body of a successful `POST /reformulate`.
pub fn result_json(result: &str) -> (r: String)
    ensures r@ == "{\"result\":"@ + json_quoted(result@) + "}"@,
{
    let mut r = owned("{\"result\":");
    push_str(&mut r, json_string(result).as_str());
    push_str(&mut r, "}");
    r
}

/// The body of a failed `POST /reformulate`.
pub fn error_json(message: &str) -> (r: String)
    ensures r@ == "{\"error\":"@ + json_quoted(message@) + "}"@,
{
    let mut r = owned("{\"error\":");
    push_str(&mut r, json_string(message).as_str());
    push_str(&mut r, "}");
    r
}


/// What `POST /reformulate` works on, from the `text` and `style` fields of
/// its JSON body: the text (none when missing or empty: the request is then
/// answered 400 "error: missing text") and the style, "formel" by default.
pub fn reformulate_request(text: Option<&str>, style: Option<&str>) -> (r: Option<(String, String)>)
    ensures
        match r {
            Some((t, st)) => text is Some && t@ == text->0@ && t@.len() > 0
                && st@ == (match style { Some(x) => x@, None => "formel"@ }),
            None => text is None || text->0@.len() == 0,
        },
{
    match text {
        Some(t) => {
            if t.is_empty() {
                None
            } else {
                let st = match style {
                    Some(x) => owned(x),
                    None => owned("formel"),
                };
                Some((owned(t), st))
            }
        },
        None => None,
    }
}

/// What `serde_json` gives for the string field `key` of a JSON text: the
/// text parsed as a `serde_json::Value`, indexed by `key`, read with
/// `as_str`. `None` when the text is not JSON, is not an object, has no such
/// field, or the field is not a string.
pub uninterp spec fn json_str_field(body: Seq<char>, key: Seq<char>) -> Option<Seq<char>>;

/// `serde_json::from_str::<Value>`, then `value[key].as_str()`.
#[verifier::external_body]
pub(crate) fn json_field(body: &str, key: &str) -> (r: Option<String>)
    ensures opt_text(r) == json_str_field(body@, key@),
{
    match serde_json::from_str::<serde_json::Value>(body) {
        Ok(v) => v[key].as_str().map(|s| s.to_string()),
        Err(_) => None,
    }
}

/// serde_json's message for a text that does not parse as a
/// `serde_json::Value` (`Error`'s `Display`), `None` when it parses.
pub uninterp spec fn json_parse_error(body: Seq<char>) -> Option<Seq<char>>;

/// `serde_json::from_str::<Value>`, keeping only its error, as text.
#[verifier::external_body]
pub(crate) fn json_error(body: &str) -> (r: Option<String>)
    ensures opt_text(r) == json_parse_error(body@),
{
    match serde_json::from_str::<serde_json::Value>(body) {
        Ok(_) => None,
        Err(e) => Some(e.to_string()),
    }
}

/// The number of items of the array field `key` of a JSON text (the text
/// parsed as a `serde_json::Value`, indexed by `key`, read with
/// `as_array`); 0 when the text is not JSON or the field is not an array.
pub uninterp spec fn json_len(body: Seq<char>, key: Seq<char>) -> nat;

/// `serde_json::from_str::<Value>`, then the length of `value[key].as_array()`.
#[verifier::external_body]
pub(crate) fn json_array_len(body: &str, key: &str) -> (n: usize)
    ensures n as nat == json_len(body@, key@),
{
    match serde_json::from_str::<serde_json::Value>(body) {
        Ok(v) => match v[key].as_array() {
            Some(a) => a.len(),
            None => 0,
        },
        Err(_) => 0,
    }
}

/// The string field `field` of item `i` of the array field `key` of a JSON
/// text; `None` when there is no such item or the field is not a string.
pub uninterp spec fn json_item_field(body: Seq<char>, key: Seq<char>, i: nat, field: Seq<char>) -> Option<Seq<char>>;

/// `serde_json::from_str::<Value>`, then `value[key].as_array()`, item `i`
/// (`<[Value]>::get`), then `item[field].as_str()`.
#[verifier::external_body]
pub(crate) fn json_item_str(body: &str, key: &str, i: usize, field: &str) -> (r: Option<String>)
    ensures opt_text(r) == json_item_field(body@, key@, i as nat, field@),
{
    match serde_json::from_str::<serde_json::Value>(body) {
        Ok(v) => match v[key].as_array() {
            Some(a) => match a.get(i) {
                Some(m) => m[field].as_str().map(|s| s.to_string()),
                None => None,
            },
            None => None,
        },
        Err(_) => None,
    }
}

/// The text and style of a `POST /reformulate` body: its `text` field, which
/// must be a non-empty string, and its `style` field, "formel" by default.
pub fn reformulate_request_of(body: &str) -> (r: Option<(String, String)>)
    ensures
        match r {
            Some((t, st)) => json_str_field(body@, "text"@) == Some(t@) && t@.len() > 0
                && st@ == (match json_str_field(body@, "style"@) { Some(x) => x, None => "formel"@ }),
            None => match json_str_field(body@, "text"@) { Some(x) => x.len() == 0, None => true },
        },
{
    let text = json_field(body, "text");
    let style = json_field(body, "style");
    match text {
        Some(t) => {
            let st = match &style {
                Some(s) => Some(s.as_str()),
                None => None,
            };
            reformulate_request(Some(t.as_str()), st)
        },
        None => None,
    }
}

} // verus!
