//! The local web UI's HTTP handling: request framing, routing, query strings, responses,
//! and the browser-UI lock file. The caller owns the socket and the files.
use vstd::prelude::*;
use crate::api::ApiError;
use crate::text::{
    chars_of, contains, contains_chars, decimal, ends_with, ends_with_chars, first_line,
    first_line_chars, last_piece, lines, lines_chars, nth_word_or, parse_u32, parse_u32_chars,
    parse_u64, parse_u64_chars, push_str, split, split_chars, starts_with, starts_with_chars,
    str_eq, string_from, trim, trim_ws, u64_to_string, words, words_chars,
};

verus! {

/// Content type for a static asset, from the text after its last `.`.
pub open spec fn mime_of(path: Seq<char>) -> Seq<char> {
    let ext = last_piece(path, '.');
    if ext == "html"@ {
        "text/html; charset=utf-8"@
    } else if ext == "js"@ {
        "application/javascript"@
    } else if ext == "css"@ {
        "text/css"@
    } else if ext == "svg"@ {
        "image/svg+xml"@
    } else if ext == "png"@ {
        "image/png"@
    } else {
        "application/octet-stream"@
    }
}

pub fn mime_guess(path: &str) -> (s: String)
    ensures
        s@ == mime_of(path@),
{
    let v = chars_of(path);
    let pieces = split_chars(&v, '.');
    proof { crate::text::lemma_split_nonempty(path@, '.'); }
    let ext = string_from(&pieces[pieces.len() - 1]);
    let e = ext.as_str();
    let m = if str_eq(e, "html") {
        "text/html; charset=utf-8"
    } else if str_eq(e, "js") {
        "application/javascript"
    } else if str_eq(e, "css") {
        "text/css"
    } else if str_eq(e, "svg") {
        "image/svg+xml"
    } else if str_eq(e, "png") {
        "image/png"
    } else {
        "application/octet-stream"
    };
    String::from_str(m)
}

/// `s` without its leading `c` characters.
pub open spec fn trim_start_char(s: Seq<char>, c: char) -> Seq<char>
    decreases s.len(),
{
    if s.len() > 0 && s[0] == c { trim_start_char(s.drop_first(), c) } else { s }
}

/// `s` with `suffix` removed from its end as often as it is there (nothing for an empty
/// suffix), as `str::trim_end_matches` does.
pub open spec fn trim_end_str(s: Seq<char>, suffix: Seq<char>) -> Seq<char>
    decreases s.len(),
{
    if suffix.len() > 0 && ends_with(s, suffix) {
        trim_end_str(s.take(s.len() - suffix.len()), suffix)
    } else {
        s
    }
}

fn trim_end_str_chars(v: &[char], suffix: &str) -> (r: Vec<char>)
    ensures
        r@ == trim_end_str(v@, suffix@),
{
    let sv = chars_of(suffix);
    let mut cur: Vec<char> = crate::text::slice_chars(v, 0, v.len());
    assert(cur@ =~= v@);
    if sv.len() == 0 {
        return cur;
    }
    while ends_with_chars(&cur, suffix)
        invariant
            sv@ == suffix@,
            sv@.len() > 0,
            trim_end_str(v@, suffix@) == trim_end_str(cur@, suffix@),
        decreases cur@.len(),
    {
        let n = cur.len() - sv.len();
        cur = crate::text::slice_chars(&cur, 0, n);
    }
    cur
}

/// The asset a static request names: the path without leading `/`, `index.html` for the
/// root.
pub open spec fn asset_name(path: Seq<char>) -> Seq<char> {
    let p = trim_start_char(path, '/');
    if p.len() == 0 { "index.html"@ } else { p }
}

pub fn asset_request_name(path: &str) -> (s: String)
    ensures
        s@ == asset_name(path@),
{
    let v = chars_of(path);
    let mut a: usize = 0;
    assert(v@.skip(0) =~= v@);
    while a < v.len() && v[a] == '/'
        invariant
            a <= v@.len(),
            trim_start_char(v@, '/') == trim_start_char(v@.skip(a as int), '/'),
        decreases v.len() - a,
    {
        assert(v@.skip(a as int).drop_first() =~= v@.skip(a + 1));
        a += 1;
    }
    let rest = crate::text::slice_chars(&v, a, v.len());
    assert(rest@ =~= v@.skip(a as int));
    if rest.len() == 0 {
        String::from_str("index.html")
    } else {
        string_from(&rest)
    }
}

/// The recording id in an API path: after `/api/recording/` (empty without that prefix),
/// with `suffix` and then `/` trimmed from the end.
pub open spec fn recording_id_in(path: Seq<char>, suffix: Seq<char>) -> Seq<char> {
    let prefix = "/api/recording/"@;
    let rest = if starts_with(path, prefix) { path.skip(prefix.len() as int) } else { seq![] };
    trim_end_str(trim_end_str(rest, suffix), seq!['/'])
}

pub fn recording_id_from_path(path: &str, suffix: &str) -> (s: String)
    ensures
        s@ == recording_id_in(path@, suffix@),
{
    let v = chars_of(path);
    proof { reveal_strlit("/api/recording/"); }
    let rest: Vec<char> = if starts_with_chars(&v, "/api/recording/") {
        crate::text::slice_chars(&v, 15, v.len())
    } else {
        Vec::new()
    };
    proof {
        if starts_with(path@, "/api/recording/"@) {
            assert(rest@ =~= path@.skip(15));
        } else {
            assert(rest@ =~= Seq::<char>::empty());
        }
    }
    let a = trim_end_str_chars(&rest, suffix);
    let b = trim_end_str_chars(&a, "/");
    proof {
        reveal_strlit("/");
        assert("/"@ =~= seq!['/']);
    }
    string_from(&b)
}

/// Which API handler serves a request.
#[derive(Debug, Clone, Copy, PartialEq, Eq)]
pub enum ApiRoute {
    History,
    Waveform,
    Audio,
    RecordingGet,
    Delete,
    Transcribe,
    Correct,
    Edit,
    ConfigGet,
    ConfigPost,
    Models,
    NotFound,
}

/// Routing by method and path, first match wins.
pub open spec fn route_of(method: Seq<char>, path: Seq<char>) -> ApiRoute {
    let get = method == "GET"@;
    let post = method == "POST"@;
    let rec = starts_with(path, "/api/recording/"@);
    if get && starts_with(path, "/api/history"@) {
        ApiRoute::History
    } else if get && rec && contains(path, "/waveform"@) {
        ApiRoute::Waveform
    } else if get && rec && contains(path, "/audio"@) {
        ApiRoute::Audio
    } else if get && rec {
        ApiRoute::RecordingGet
    } else if post && ends_with(path, "/delete"@) {
        ApiRoute::Delete
    } else if post && ends_with(path, "/transcribe"@) {
        ApiRoute::Transcribe
    } else if post && ends_with(path, "/correct"@) {
        ApiRoute::Correct
    } else if post && ends_with(path, "/edit"@) {
        ApiRoute::Edit
    } else if get && path == "/api/config"@ {
        ApiRoute::ConfigGet
    } else if post && path == "/api/config"@ {
        ApiRoute::ConfigPost
    } else if get && path == "/api/models"@ {
        ApiRoute::Models
    } else {
        ApiRoute::NotFound
    }
}

/// The request path of a request line: its second word, `/` when missing.
pub open spec fn request_path(req: Seq<char>) -> Seq<char> {
    nth_word_or(req, 1, "/"@)
}

/// The method of a request line: its first word, empty when missing.
pub open spec fn request_method(req: Seq<char>) -> Seq<char> {
    nth_word_or(req, 0, seq![])
}

/// Routes an API request line; also returns the request path.
pub fn route_api(req_line: &str) -> (r: (ApiRoute, String))
    ensures
        r.1@ == request_path(req_line@),
        r.0 == route_of(request_method(req_line@), request_path(req_line@)),
{
    let v = chars_of(req_line);
    let ws = words_chars(&v);
    proof {
        reveal_strlit("/");
        assert("/"@ =~= seq!['/']);
    }
    let method: Vec<char> = if ws.len() > 0 { ws[0].clone() } else { Vec::new() };
    let path: Vec<char> = if ws.len() > 1 { ws[1].clone() } else { chars_of("/") };
    assert(method@ == request_method(req_line@));
    assert(path@ == request_path(req_line@));
    let m = string_from(&method);
    let p = string_from(&path);
    let get = str_eq(m.as_str(), "GET");
    let post = str_eq(m.as_str(), "POST");
    let rec = starts_with_chars(&path, "/api/recording/");
    let route = if get && starts_with_chars(&path, "/api/history") {
        ApiRoute::History
    } else if get && rec && contains_chars(&path, &chars_of("/waveform")) {
        ApiRoute::Waveform
    } else if get && rec && contains_chars(&path, &chars_of("/audio")) {
        ApiRoute::Audio
    } else if get && rec {
        ApiRoute::RecordingGet
    } else if post && ends_with_chars(&path, "/delete") {
        ApiRoute::Delete
    } else if post && ends_with_chars(&path, "/transcribe") {
        ApiRoute::Transcribe
    } else if post && ends_with_chars(&path, "/correct") {
        ApiRoute::Correct
    } else if post && ends_with_chars(&path, "/edit") {
        ApiRoute::Edit
    } else if get && str_eq(p.as_str(), "/api/config") {
        ApiRoute::ConfigGet
    } else if post && str_eq(p.as_str(), "/api/config") {
        ApiRoute::ConfigPost
    } else if get && str_eq(p.as_str(), "/api/models") {
        ApiRoute::Models
    } else {
        ApiRoute::NotFound
    };
    (route, p)
}

/// How a request is served: a static asset (a `GET` line without `/api/`), the WAV stream
/// of a recording, or the JSON API.
#[derive(Debug, Clone, PartialEq, Eq)]
pub enum RequestKind {
    Asset(String),
    Audio,
    Api,
}

pub open spec fn kind_of(req: Seq<char>) -> (int, Seq<char>) {
    if starts_with(req, "GET"@) && !contains(req, "/api/"@) {
        (0, request_path(req))
    } else if contains(req, "/api/recording/"@) && contains(req, "/audio"@) {
        (1, seq![])
    } else {
        (2, seq![])
    }
}

pub open spec fn kind_model(k: RequestKind) -> (int, Seq<char>) {
    match k {
        RequestKind::Asset(p) => (0, p@),
        RequestKind::Audio => (1, seq![]),
        RequestKind::Api => (2, seq![]),
    }
}

pub fn request_kind(req_line: &str) -> (k: RequestKind)
    ensures
        kind_model(k) == kind_of(req_line@),
{
    let v = chars_of(req_line);
    if starts_with_chars(&v, "GET") && !contains_chars(&v, &chars_of("/api/")) {
        let (_, p) = route_api(req_line);
        RequestKind::Asset(p)
    } else if contains_chars(&v, &chars_of("/api/recording/")) && contains_chars(&v, &chars_of("/audio")) {
        RequestKind::Audio
    } else {
        RequestKind::Api
    }
}

} // verus!

verus! {

/// Index of the first `c` in `s`, or -1.
pub open spec fn first_index(s: Seq<char>, c: char) -> int
    decreases s.len(),
{
    if s.len() == 0 {
        -1
    } else if s[0] == c {
        0
    } else {
        let r = first_index(s.drop_first(), c);
        if r < 0 { -1 } else { r + 1 }
    }
}

proof fn lemma_first_index(s: Seq<char>, c: char)
    ensures
        -1 <= first_index(s, c) < s.len(),
        first_index(s, c) >= 0 ==> s[first_index(s, c)] == c,
        forall|k: int| 0 <= k < s.len() && (first_index(s, c) < 0 || k < first_index(s, c)) ==> s[k] != c,
    decreases s.len(),
{
    if s.len() > 0 && s[0] != c {
        lemma_first_index(s.drop_first(), c);
        assert forall|k: int| 0 <= k < s.len() && (first_index(s, c) < 0 || k < first_index(s, c)) implies s[k] != c by {
            if k > 0 {
                assert(s.drop_first()[k - 1] == s[k]);
            }
        }
    }
}

fn first_index_of(s: &[char], c: char) -> (r: Option<usize>)
    ensures
        r matches Some(i) ==> i == first_index(s@, c) && i < s@.len(),
        r is None ==> first_index(s@, c) == -1,
{
    proof { lemma_first_index(s@, c); }
    let mut i: usize = 0;
    while i < s.len()
        invariant
            i <= s@.len(),
            forall|k: int| 0 <= k < i ==> s@[k] != c,
            -1 <= first_index(s@, c) < s@.len(),
            first_index(s@, c) >= 0 ==> s@[first_index(s@, c)] == c,
            forall|k: int| 0 <= k < s@.len() && (first_index(s@, c) < 0 || k < first_index(s@, c)) ==> s@[k] != c,
        decreases s.len() - i,
    {
        if s[i] == c {
            return Some(i);
        }
        i += 1;
    }
    None
}

/// The value of the last `key=value` piece of a query string with that key.
pub open spec fn query_value(pieces: Seq<Seq<char>>, key: Seq<char>) -> Option<Seq<char>>
    decreases pieces.len(),
{
    if pieces.len() == 0 {
        None
    } else {
        let p = pieces.last();
        let e = first_index(p, '=');
        if e >= 0 && p.take(e) == key {
            Some(p.skip(e + 1))
        } else {
            query_value(pieces.drop_last(), key)
        }
    }
}

/// The query string of a path: the text after its first `?` and before any second one.
pub open spec fn query_of(path: Seq<char>) -> Seq<char> {
    let parts = split(path, '?');
    if parts.len() > 1 { parts[1] } else { seq![] }
}

/// A `usize` query parameter, `default` when missing or not a number.
pub open spec fn query_number(path: Seq<char>, key: Seq<char>, default: usize) -> usize {
    match query_value(split(query_of(path), '&'), key) {
        Some(v) => match parse_u64(v) {
            Some(n) => if n <= usize::MAX { n as usize } else { default },
            None => default,
        },
        None => default,
    }
}

fn query_number_exec(pieces: &Vec<Vec<char>>, key: &str, default: usize) -> (n: usize)
    ensures
        n == match query_value(Seq::new(pieces@.len(), |i: int| pieces@[i]@), key@) {
            Some(v) => match parse_u64(v) {
                Some(x) => if x <= usize::MAX { x as usize } else { default },
                None => default,
            },
            None => default,
        },
{
    let ghost ps = Seq::new(pieces@.len(), |i: int| pieces@[i]@);
    let kv = chars_of(key);
    let mut i = pieces.len();
    assert(ps.take(i as int) =~= ps);
    while i > 0
        invariant
            i <= pieces@.len(),
            ps == Seq::new(pieces@.len(), |i: int| pieces@[i]@),
            kv@ == key@,
            query_value(ps, key@) == query_value(ps.take(i as int), key@),
        decreases i,
    {
        let p = &pieces[i - 1];
        let ghost pv = ps[i - 1];
        assert(ps.take(i as int).last() == pv);
        assert(ps.take(i as int).drop_last() =~= ps.take(i - 1));
        match first_index_of(p, '=') {
            Some(e) => {
                let k = crate::text::slice_chars(p, 0, e);
                assert(k@ =~= pv.take(e as int));
                if crate::text::chars_eq(&k, &kv) {
                    assert(e < p.len());
                    let v = crate::text::slice_chars(p, e + 1, p.len());
                    assert(v@ =~= pv.skip(e + 1));
                    return match parse_u64_chars(&v) {
                        Some(x) => if x <= usize::MAX as u64 { x as usize } else { default },
                        None => default,
                    };
                }
            },
            None => {},
        }
        i -= 1;
    }
    default
}

/// `offset` (default 0) and `limit` (default 20) of a history request path.
pub fn history_query(path: &str) -> (r: (usize, usize))
    ensures
        r.0 == query_number(path@, "offset"@, 0),
        r.1 == query_number(path@, "limit"@, 20),
{
    let v = chars_of(path);
    let parts = split_chars(&v, '?');
    let q: Vec<char> = if parts.len() > 1 { parts[1].clone() } else { Vec::new() };
    assert(q@ == query_of(path@));
    let pieces = split_chars(&q, '&');
    assert(Seq::new(pieces@.len(), |i: int| pieces@[i]@) =~= split(query_of(path@), '&'));
    let offset = query_number_exec(&pieces, "offset", 0);
    let limit = query_number_exec(&pieces, "limit", 20);
    (offset, limit)
}

/// The path part of a UI address: nothing for an empty path or `/`.
pub open spec fn start_suffix(start_path: Seq<char>) -> Seq<char> {
    if start_path.len() == 0 || start_path == "/"@ { seq![] } else { start_path }
}

/// `http://<addr><path>` for the UI server at `addr` (as `host:port`).
pub fn ui_url(addr: &str, start_path: &str) -> (s: String)
    ensures
        s@ == "http://"@ + addr@ + start_suffix(start_path@),
{
    let mut s = String::from_str("http://");
    push_str(&mut s, addr);
    if !(start_path.is_empty() || str_eq(start_path, "/")) {
        push_str(&mut s, start_path);
    } else {
        assert(start_suffix(start_path@) =~= Seq::<char>::empty());
    }
    s
}

/// The address to open on a running UI server: its base URL and the start path.
pub fn reuse_ui_url(base: &str, start_path: &str) -> (s: String)
    ensures
        s@ == base@ + start_suffix(start_path@),
{
    let mut s = String::from_str(base);
    if !(start_path.is_empty() || str_eq(start_path, "/")) {
        push_str(&mut s, start_path);
    } else {
        assert(start_suffix(start_path@) =~= Seq::<char>::empty());
    }
    s
}

/// What the browser-UI lock file holds: the server's pid, then its base URL.
pub fn ui_lock_text(pid: u32, base_url: &str) -> (s: String)
    ensures
        s@ == decimal(pid as nat) + seq!['\n'] + base_url@ + seq!['\n'],
{
    let mut s = u64_to_string(pid as u64);
    crate::text::push_char(&mut s, '\n');
    push_str(&mut s, base_url);
    crate::text::push_char(&mut s, '\n');
    s
}

/// A browser-UI lock file: the pid on its first line and a non-empty base URL on its
/// second, both trimmed.
pub open spec fn ui_lock_of(raw: Seq<char>) -> Option<(u32, Seq<char>)> {
    let ls = lines(raw);
    if ls.len() < 2 {
        None
    } else {
        match parse_u32(trim(ls[0])) {
            Some(pid) => {
                let base = trim(ls[1]);
                if base.len() == 0 { None } else { Some((pid, base)) }
            },
            None => None,
        }
    }
}

pub fn parse_ui_lock(raw: &str) -> (r: Option<(u32, String)>)
    ensures
        r matches Some(p) ==> ui_lock_of(raw@) == Some((p.0, p.1@)),
        r is None ==> ui_lock_of(raw@) is None,
{
    let v = chars_of(raw);
    let ls = lines_chars(&v);
    if ls.len() < 2 {
        return None;
    }
    let t0 = trim_ws(&ls[0]);
    let pid = match parse_u32_chars(&t0) {
        Some(p) => p,
        None => return None,
    };
    let base = trim_ws(&ls[1]);
    if base.len() == 0 {
        return None;
    }
    Some((pid, string_from(&base)))
}

/// The status line of an API error.
pub fn api_error_status(err: &ApiError) -> (s: &'static str)
    ensures
        s@ == match err {
            ApiError::NotFound(_) => "404 Not Found"@,
            ApiError::BadRequest(_) => "400 Bad Request"@,
            ApiError::Internal(_) => "500 Internal Server Error"@,
        },
{
    match err {
        ApiError::NotFound(_) => "404 Not Found",
        ApiError::BadRequest(_) => "400 Bad Request",
        ApiError::Internal(_) => "500 Internal Server Error",
    }
}

/// The status line for a failed correction: a bad request stays one, anything else is the
/// upstream's fault.
pub fn correction_error_status(err: &ApiError) -> (s: &'static str)
    ensures
        s@ == match err {
            ApiError::BadRequest(_) => "400 Bad Request"@,
            _ => "502 Bad Gateway"@,
        },
{
    match err {
        ApiError::BadRequest(_) => "400 Bad Request",
        _ => "502 Bad Gateway",
    }
}

/// A complete HTTP/1.1 response with a text body; `Content-Length` counts the body's
/// UTF-8 bytes.
pub open spec fn response_text(status: Seq<char>, content_type: Seq<char>, body: Seq<char>) -> Seq<char> {
    "HTTP/1.1 "@ + status + "\r\nContent-Type: "@ + content_type + "\r\nContent-Length: "@
        + decimal(vstd::utf8::encode_utf8(body).len()) + "\r\nConnection: close\r\n\r\n"@ + body
}

pub fn http_response(status: &str, content_type: &str, body: &str) -> (s: String)
    ensures
        s@ == response_text(status@, content_type@, body@),
{
    let mut s = String::from_str("HTTP/1.1 ");
    push_str(&mut s, status);
    push_str(&mut s, "\r\nContent-Type: ");
    push_str(&mut s, content_type);
    push_str(&mut s, "\r\nContent-Length: ");
    let bytes = body.as_bytes();
    assert(bytes@ == vstd::utf8::encode_utf8(body@));
    let n = u64_to_string(bytes.len() as u64);
    push_str(&mut s, n.as_str());
    push_str(&mut s, "\r\nConnection: close\r\n\r\n");
    push_str(&mut s, body);
    s
}

/// The head of a response whose body (of `len` bytes) is sent separately.
pub fn http_head(content_type: &str, len: usize) -> (s: String)
    ensures
        s@ == "HTTP/1.1 200 OK\r\nContent-Type: "@ + content_type@ + "\r\nContent-Length: "@ + decimal(len as nat)
            + "\r\nConnection: close\r\n\r\n"@,
{
    let mut s = String::from_str("HTTP/1.1 200 OK\r\nContent-Type: ");
    push_str(&mut s, content_type);
    push_str(&mut s, "\r\nContent-Length: ");
    let n = u64_to_string(len as u64);
    push_str(&mut s, n.as_str());
    push_str(&mut s, "\r\nConnection: close\r\n\r\n");
    s
}

} // verus!

verus! {

/// Requests (head or body) larger than this are dropped.
pub const MAX_REQUEST_BYTES: usize = 1048576;

/// `buf[i..i + 4]` is `\r\n\r\n`.
pub open spec fn blank_line_at(buf: Seq<u8>, i: int) -> bool {
    0 <= i && i + 4 <= buf.len() && buf[i] == 13 && buf[i + 1] == 10 && buf[i + 2] == 13 && buf[i + 3] == 10
}

/// Length of the request head: up to and including the first `\r\n\r\n`.
pub open spec fn head_len(buf: Seq<u8>) -> Option<int> {
    if exists|i: int| blank_line_at(buf, i) {
        let i = choose|i: int| blank_line_at(buf, i) && forall|j: int| 0 <= j < i ==> !blank_line_at(buf, j);
        Some(i + 4)
    } else {
        None
    }
}

/// Where the request head ends in the bytes read so far, if it is complete.
pub fn header_end(buf: &[u8]) -> (r: Option<usize>)
    ensures
        r matches Some(n) ==> head_len(buf@) == Some(n as int),
        r is None ==> head_len(buf@) is None,
{
    let mut i: usize = 0;
    while buf.len() >= 4 && i <= buf.len() - 4
        invariant
            forall|j: int| 0 <= j < i ==> !blank_line_at(buf@, j),
        decreases buf.len() - i,
    {
        if buf[i] == 13 && buf[i + 1] == 10 && buf[i + 2] == 13 && buf[i + 3] == 10 {
            proof {
                assert(blank_line_at(buf@, i as int));
                let k = choose|k: int| blank_line_at(buf@, k) && forall|j: int| 0 <= j < k ==> !blank_line_at(buf@, j);
                assert(k == i) by {
                    if k < i {
                        assert(!blank_line_at(buf@, k));
                    } else if k > i {
                        assert(!blank_line_at(buf@, i as int));
                    }
                }
            }
            return Some(i + 4);
        }
        i += 1;
    }
    proof {
        assert forall|j: int| !blank_line_at(buf@, j) by {
            if 0 <= j < i {
            } else if j >= i && blank_line_at(buf@, j) {
                assert(j + 4 <= buf@.len());
            }
        }
    }
    None
}

/// The first header line whose name (trimmed, ignoring ASCII case) is `content-length` and
/// whose trimmed value is a number gives the body length.
pub open spec fn content_length_in(ls: Seq<Seq<char>>) -> Option<usize>
    decreases ls.len(),
{
    if ls.len() == 0 {
        None
    } else {
        let l = ls[0];
        let e = first_index(l, ':');
        let here: Option<usize> = if e >= 0 && crate::text::lower(trim(l.take(e))) == "content-length"@ {
            match parse_u64(trim(l.skip(e + 1))) {
                Some(n) => if n <= usize::MAX { Some(n as usize) } else { None },
                None => None,
            }
        } else {
            None
        };
        if here is Some { here } else { content_length_in(ls.drop_first()) }
    }
}

/// The request body's length from the head (0 without a usable `Content-Length`).
pub fn content_length(headers: &str) -> (n: usize)
    ensures
        n == match content_length_in(lines(headers@)) {
            Some(v) => v,
            None => 0,
        },
{
    let v = chars_of(headers);
    let ls = lines_chars(&v);
    let ghost lsv = lines(headers@);
    let mut i: usize = 0;
    assert(lsv.skip(0) =~= lsv);
    while i < ls.len()
        invariant
            lsv == lines(headers@),
            ls@.len() == lsv.len(),
            forall|k: int| 0 <= k < ls@.len() ==> (#[trigger] ls@[k])@ == lsv[k],
            i <= ls@.len(),
            content_length_in(lsv) == content_length_in(lsv.skip(i as int)),
        decreases ls.len() - i,
    {
        let l = &ls[i];
        assert(lsv.skip(i as int)[0] == l@);
        assert(lsv.skip(i as int).drop_first() =~= lsv.skip(i + 1));
        match first_index_of(l, ':') {
            Some(e) => {
                let name = crate::text::slice_chars(l, 0, e);
                let tn = trim_ws(&name);
                let lname = crate::text::to_ascii_lower(&tn);
                let ls2 = string_from(&lname);
                assert(name@ =~= l@.take(e as int));
                if str_eq(ls2.as_str(), "content-length") {
                    assert(e < l.len());
                    let value = crate::text::slice_chars(l, e + 1, l.len());
                    assert(value@ =~= l@.skip(e + 1));
                    let tv = trim_ws(&value);
                    match parse_u64_chars(&tv) {
                        Some(n) => {
                            if n <= usize::MAX as u64 {
                                proof {
                                    let l0 = lsv.skip(i as int)[0];
                                    assert(l0 == l@);
                                    assert(first_index(l0, ':') == e);
                                    assert(crate::text::lower(trim(l0.take(e as int))) == "content-length"@);
                                    assert(parse_u64(trim(l0.skip(e + 1))) == Some(n));
                                    assert(lsv.skip(i as int).len() > 0);
                                    assert(content_length_in(lsv.skip(i as int)) == Some(n as usize));
                                }
                                return n as usize;
                            }
                        },
                        None => {},
                    }
                }
            },
            None => {},
        }
        i += 1;
    }
    0
}

/// The request line: the first line of the head.
pub fn request_line(headers: &str) -> (r: Option<String>)
    ensures
        r matches Some(s) ==> lines(headers@).len() > 0 && s@ == lines(headers@)[0],
        r is None ==> lines(headers@).len() == 0,
{
    let v = chars_of(headers);
    let ls = lines_chars(&v);
    if ls.len() == 0 {
        None
    } else {
        Some(string_from(&ls[0]))
    }
}

} // verus!

verus! {

/// The browser-UI lock file in the data directory.
pub fn ui_lock_path(data_dir: &str) -> (p: String)
    ensures
        p@ == crate::paths::join_path(data_dir@, "ui-browser.lock"@),
{
    crate::paths::join_path_str(data_dir, "ui-browser.lock")
}

/// Opening the browser UI: reuse the running server named in the lock file, or (after
/// removing a stale lock) start a new one.
#[derive(Debug, Clone, PartialEq, Eq)]
pub enum UiOpen {
    /// Open this address on the running server.
    Reuse(String),
    /// Remove the stale lock file, then start a server.
    ClearAndStart,
    /// Start a server.
    Start,
}

pub fn open_ui(lock: Option<(u32, String)>, holder_alive: bool, start_path: &str) -> (r: UiOpen)
    ensures
        match lock {
            Some(l) => if holder_alive {
                r matches UiOpen::Reuse(u) && u@ == l.1@ + start_suffix(start_path@)
            } else {
                r == UiOpen::ClearAndStart
            },
            None => r == UiOpen::Start,
        },
{
    match lock {
        Some((_, base)) => {
            if holder_alive {
                UiOpen::Reuse(reuse_ui_url(base.as_str(), start_path))
            } else {
                UiOpen::ClearAndStart
            }
        },
        None => UiOpen::Start,
    }
}

/// Audio is served as a WAV stream, not through the JSON API.
pub fn api_audio() -> (r: (&'static str, &'static str, &'static str))
    ensures
        r.0@ == "404 Not Found"@,
        r.1@ == "text/plain"@,
        r.2@ == "use /api/recording/:id/audio"@,
{
    ("404 Not Found", "text/plain", "use /api/recording/:id/audio")
}

/// The model list response around the cached catalogue JSON.
pub fn api_models(models_json: String) -> (r: (&'static str, &'static str, String))
    ensures
        r.0@ == "200 OK"@,
        r.1@ == "application/json"@,
        r.2@ == models_json@,
{
    ("200 OK", "application/json", models_json)
}

/// The response for an unknown API route.
pub fn api_not_found() -> (r: (&'static str, &'static str, &'static str))
    ensures
        r.0@ == "404 Not Found"@,
        r.1@ == "text/plain"@,
        r.2@ == "not found"@,
{
    ("404 Not Found", "text/plain", "not found")
}

} // verus!
