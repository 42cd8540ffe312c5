use vstd::prelude::*;
use vstd::string::StringSliceAdditionalSpecFns;
use crate::text::{
    chars_of, decimal, eq_str, first_word, first_word_bounds, is_space, line_at, lines, push_chars,
    push_decimal, push_str, slice_chars, string_of, trim, trim_bounds, trim_start,
};

verus! {

/// `s` without leading and trailing `/` characters (`trim_matches('/')`).
pub open spec fn trim_slashes(s: Seq<char>) -> Seq<char>
    decreases s.len(),
{
    if s.len() > 0 && s[0] == '/' {
        trim_slashes(s.drop_first())
    } else if s.len() > 0 && s.last() == '/' {
        trim_slashes(s.drop_last())
    } else {
        s
    }
}

/// The URL prefix under which static files are served: `/` for an empty or
/// root prefix, else the prefix between single slashes.
pub open spec fn normalized_prefix(prefix: Seq<char>) -> Seq<char> {
    let t = trim(prefix);
    if t.len() == 0 || t == "/"@ {
        "/"@
    } else {
        "/"@ + trim_slashes(t) + "/"@
    }
}

fn trim_slashes_bounds(cs: &[char], start: usize, end: usize) -> (r: (usize, usize))
    requires
        start <= end <= cs@.len(),
    ensures
        start <= r.0 <= r.1 <= end,
        cs@.subrange(r.0 as int, r.1 as int) == trim_slashes(cs@.subrange(start as int, end as int)),
{
    let mut i = start;
    let mut j = end;
    while i < j && (cs[i] == '/' || cs[j - 1] == '/')
        invariant
            start <= i <= j <= end <= cs@.len(),
            trim_slashes(cs@.subrange(start as int, end as int)) == trim_slashes(
                cs@.subrange(i as int, j as int),
            ),
        decreases j - i,
    {
        if cs[i] == '/' {
            assert(cs@.subrange(i as int, j as int).drop_first() =~= cs@.subrange(
                i + 1,
                j as int,
            ));
            i = i + 1;
        } else {
            assert(cs@.subrange(i as int, j as int).drop_last() =~= cs@.subrange(
                i as int,
                j - 1,
            ));
            j = j - 1;
        }
    }
    (i, j)
}

/// Normalizes the configured URL prefix of the static file server.
pub fn normalize_prefix(prefix: &str) -> (r: String)
    ensures
        r@ == normalized_prefix(prefix@),
{
    let cs = chars_of(prefix);
    let (start, end) = trim_bounds(&cs);
    let t = slice_chars(&cs, start, end);
    if t.len() == 0 || eq_str(&t, "/") {
        let root = chars_of("/");
        return string_of(&root);
    }
    let (a, b) = trim_slashes_bounds(&t, 0, t.len());
    assert(t@.subrange(0, t@.len() as int) =~= t@);
    let inner = slice_chars(&t, a, b);
    let mut out: Vec<char> = Vec::new();
    push_str(&mut out, "/");
    push_chars(&mut out, &inner);
    push_str(&mut out, "/");
    string_of(&out)
}

/// The value of an ASCII hexadecimal digit.
pub open spec fn hex_value(byte: u8) -> Option<u8> {
    if 48 <= byte <= 57 {
        Some((byte - 48) as u8)
    } else if 97 <= byte <= 102 {
        Some((byte - 97 + 10) as u8)
    } else if 65 <= byte <= 70 {
        Some((byte - 65 + 10) as u8)
    } else {
        None
    }
}

/// The value of a hexadecimal digit byte.
pub fn hex(byte: u8) -> (r: Option<u8>)
    ensures
        r == hex_value(byte),
{
    if 48 <= byte && byte <= 57 {
        Some(byte - 48)
    } else if 97 <= byte && byte <= 102 {
        Some(byte - 97 + 10)
    } else if 65 <= byte && byte <= 70 {
        Some(byte - 65 + 10)
    } else {
        None
    }
}

/// Percent-decodes the bytes of a path: `%XY` becomes the character with code
/// `0xXY`, any other byte the character with that code. `None` when a `%` is
/// not followed by two more bytes, or by two hexadecimal digits.
pub open spec fn percent_decode(b: Seq<u8>) -> Option<Seq<char>>
    decreases b.len(),
{
    if b.len() == 0 {
        Some(Seq::empty())
    } else if b[0] == 37 {
        if 2 >= b.len() {
            None
        } else {
            match (hex_value(b[1]), hex_value(b[2])) {
                (Some(high), Some(low)) => match percent_decode(b.skip(3)) {
                    Some(rest) => Some(seq![((high * 16 + low) as u8) as char] + rest),
                    None => None,
                },
                _ => None,
            }
        }
    } else {
        match percent_decode(b.drop_first()) {
            Some(rest) => Some(seq![b[0] as char] + rest),
            None => None,
        }
    }
}

/// Whether some `/`-separated segment of `s` is `..`.
pub open spec fn has_parent_segment(s: Seq<char>) -> bool {
    exists|i: int|
        0 <= i && i + 2 <= s.len() && (i == 0 || s[i - 1] == '/') && #[trigger] s[i] == '.' && s[i
            + 1] == '.' && (i + 2 == s.len() || s[i + 2] == '/')
}

/// The decoded request path, unless it fails to decode or climbs out of the
/// served directory with a `..` segment.
pub open spec fn decoded_path(path: Seq<u8>) -> Option<Seq<char>> {
    match percent_decode(path) {
        Some(d) => if has_parent_segment(d) {
            None
        } else {
            Some(d)
        },
        None => None,
    }
}

/// `percent_decode` of `b` from `index` on, prefixed with what came before.
pub open spec fn decode_from(b: Seq<u8>, index: int, done: Seq<char>) -> Option<Seq<char>> {
    match percent_decode(b.skip(index)) {
        Some(rest) => Some(done + rest),
        None => None,
    }
}

fn has_parent_segment_exec(s: &[char]) -> (r: bool)
    ensures
        r == has_parent_segment(s@),
{
    let n = s.len();
    let mut i: usize = 0;
    while n >= 2 && i <= n - 2
        invariant
            n == s@.len(),
            forall|k: int|
                0 <= k < i && k + 2 <= n ==> !((k == 0 || s@[k - 1] == '/') && #[trigger] s@[k]
                    == '.' && s@[k + 1] == '.' && (k + 2 == n || s@[k + 2] == '/')),
        decreases n - i,
    {
        if (i == 0 || s[i - 1] == '/') && s[i] == '.' && s[i + 1] == '.' && (i + 2 == n || s[i
            + 2] == '/') {
            return true;
        }
        i = i + 1;
    }
    assert forall|k: int|
        0 <= k && k + 2 <= n implies !((k == 0 || s@[k - 1] == '/') && #[trigger] s@[k] == '.'
        && s@[k + 1] == '.' && (k + 2 == n || s@[k + 2] == '/')) by {}
    false
}

/// Percent-decodes a request path and rejects `..` segments.
pub fn decode_path(path: &str) -> (r: Option<String>)
    ensures
        match decoded_path(path.spec_bytes()) {
            Some(d) => r matches Some(s) && s@ == d,
            None => r is None,
        },
{
    let bytes = path.as_bytes();
    let ghost b = bytes@;
    let mut decoded: Vec<char> = Vec::new();
    let mut index: usize = 0;
    assert(b.skip(0) =~= b);
    while index < bytes.len()
        invariant
            b == bytes@,
            b == path.spec_bytes(),
            index <= b.len(),
            percent_decode(b) == decode_from(b, index as int, decoded@),
        decreases bytes.len() - index,
    {
        let ghost rest = b.skip(index as int);
        assert(rest.len() == b.len() - index);
        assert(rest[0] == b[index as int]);
        if bytes[index] == 37 {
            if bytes.len() - index <= 2 {
                assert(percent_decode(rest) is None);
                return None;
            }
            assert(rest[1] == b[index + 1]);
            assert(rest[2] == b[index + 2]);
            let high = match hex(bytes[index + 1]) {
                Some(h) => h,
                None => return None,
            };
            let low = match hex(bytes[index + 2]) {
                Some(l) => l,
                None => return None,
            };
            assert(rest.skip(3) =~= b.skip(index + 3));
            let c = (high * 16 + low) as char;
            let ghost before = decoded@;
            decoded.push(c);
            assert(before + (seq![c] + percent_decode(b.skip(index + 3)).unwrap()) =~= decoded@
                + percent_decode(b.skip(index + 3)).unwrap());
            index = index + 3;
        } else {
            assert(rest.drop_first() =~= b.skip(index + 1));
            let c = bytes[index] as char;
            let ghost before = decoded@;
            decoded.push(c);
            assert(percent_decode(b.skip(index as int)) is Some ==> before + (seq![c]
                + percent_decode(b.skip(index + 1)).unwrap()) =~= decoded@ + percent_decode(
                b.skip(index + 1),
            ).unwrap());
            index = index + 1;
        }
    }
    assert(b.skip(index as int) =~= Seq::<u8>::empty());
    assert(decoded@ + Seq::<char>::empty() =~= decoded@);
    if has_parent_segment_exec(&decoded) {
        return None;
    }
    Some(string_of(&decoded))
}

} // verus!

verus! {

/// The media type served for a file extension.
pub open spec fn mime_for(extension: Option<Seq<char>>) -> Seq<char> {
    match extension {
        Some(e) => if e == "html"@ || e == "htm"@ {
            "text/html; charset=utf-8"@
        } else if e == "css"@ {
            "text/css; charset=utf-8"@
        } else if e == "js"@ || e == "mjs"@ {
            "text/javascript; charset=utf-8"@
        } else if e == "json"@ {
            "application/json; charset=utf-8"@
        } else if e == "svg"@ {
            "image/svg+xml"@
        } else if e == "png"@ {
            "image/png"@
        } else if e == "jpg"@ || e == "jpeg"@ {
            "image/jpeg"@
        } else if e == "gif"@ {
            "image/gif"@
        } else if e == "woff"@ {
            "font/woff"@
        } else if e == "woff2"@ {
            "font/woff2"@
        } else {
            "application/octet-stream"@
        },
        None => "application/octet-stream"@,
    }
}

/// The media type served for a file with the given extension.
pub fn content_type_for_extension(extension: Option<&str>) -> (r: &'static str)
    ensures
        r@ == mime_for(
            match extension {
                Some(e) => Some(e@),
                None => None,
            },
        ),
{
    let e = match extension {
        Some(e) => chars_of(e),
        None => return "application/octet-stream",
    };
    if eq_str(&e, "html") || eq_str(&e, "htm") {
        "text/html; charset=utf-8"
    } else if eq_str(&e, "css") {
        "text/css; charset=utf-8"
    } else if eq_str(&e, "js") || eq_str(&e, "mjs") {
        "text/javascript; charset=utf-8"
    } else if eq_str(&e, "json") {
        "application/json; charset=utf-8"
    } else if eq_str(&e, "svg") {
        "image/svg+xml"
    } else if eq_str(&e, "png") {
        "image/png"
    } else if eq_str(&e, "jpg") || eq_str(&e, "jpeg") {
        "image/jpeg"
    } else if eq_str(&e, "gif") {
        "image/gif"
    } else if eq_str(&e, "woff") {
        "font/woff"
    } else if eq_str(&e, "woff2") {
        "font/woff2"
    } else {
        "application/octet-stream"
    }
}

/// The media type served for the file at `path`, by its extension.
pub fn content_type(path: &str) -> (r: &'static str)
    ensures
        r@ == mime_for(crate::wrappers::path_extension_of(path@)),
{
    match crate::wrappers::path_extension(path) {
        Some(extension) => content_type_for_extension(Some(extension.as_str())),
        None => content_type_for_extension(None),
    }
}

/// The reason phrase sent with a status code.
pub open spec fn reason_phrase(status: u16) -> Seq<char> {
    if status == 200 {
        "OK"@
    } else if status == 400 {
        "Bad Request"@
    } else if status == 404 {
        "Not Found"@
    } else if status == 405 {
        "Method Not Allowed"@
    } else {
        "Error"@
    }
}

/// The status line and headers of a response.
pub open spec fn response_head_text(status: u16, content_type: Seq<char>, body_len: nat) -> Seq<
    char,
> {
    "HTTP/1.1 "@ + decimal(status as nat) + " "@ + reason_phrase(status) + "\r\nContent-Length: "@
        + decimal(body_len) + "\r\nContent-Type: "@ + content_type
        + "\r\nConnection: close\r\n\r\n"@
}

/// Writes the status line and headers of a response with a body of
/// `body_len` bytes.
pub fn response_head(status: u16, content_type: &str, body_len: usize) -> (r: String)
    requires
        body_len <= u64::MAX,
    ensures
        r@ == response_head_text(status, content_type@, body_len as nat),
{
    let reason = if status == 200 {
        "OK"
    } else if status == 400 {
        "Bad Request"
    } else if status == 404 {
        "Not Found"
    } else if status == 405 {
        "Method Not Allowed"
    } else {
        "Error"
    };
    let mut out: Vec<char> = Vec::new();
    push_str(&mut out, "HTTP/1.1 ");
    push_decimal(&mut out, status as u64);
    push_str(&mut out, " ");
    push_str(&mut out, reason);
    push_str(&mut out, "\r\nContent-Length: ");
    push_decimal(&mut out, body_len as u64);
    push_str(&mut out, "\r\nContent-Type: ");
    push_str(&mut out, content_type);
    push_str(&mut out, "\r\nConnection: close\r\n\r\n");
    string_of(&out)
}

/// How the static server answers one request.
#[derive(Debug, PartialEq, Eq)]
pub enum RequestRoute {
    /// Answer at once with a plain-text body.
    Respond { status: u16, body: &'static str },
    /// Serve the file at this path below the served directory, if it exists.
    Serve { relative: String },
}

/// A routed request, and whether only the headers are to be sent (`HEAD`).
#[derive(Debug, PartialEq, Eq)]
pub struct RoutedRequest {
    pub route: RequestRoute,
    pub head_only: bool,
}

/// The first line of a request, or the empty string when it is not UTF-8 or
/// empty.
pub open spec fn request_line(request: Seq<u8>) -> Seq<char> {
    if vstd::utf8::valid_utf8(request) {
        let ls = lines(vstd::utf8::decode_utf8(request));
        if ls.len() > 0 {
            ls[0]
        } else {
            Seq::empty()
        }
    } else {
        Seq::empty()
    }
}

/// The second white-space separated word of `s`.
pub open spec fn second_word(s: Seq<char>) -> Option<Seq<char>> {
    match first_word(s) {
        None => None,
        Some(w) => first_word(trim_start(s).skip(w.len() as int)),
    }
}

/// `s` without leading `/` characters (`trim_start_matches('/')`).
pub open spec fn trim_leading_slashes(s: Seq<char>) -> Seq<char>
    decreases s.len(),
{
    if s.len() > 0 && s[0] == '/' {
        trim_leading_slashes(s.drop_first())
    } else {
        s
    }
}

/// The route spelled out over values.
pub enum RouteSpec {
    Respond { status: u16, body: Seq<char> },
    Serve { relative: Seq<char> },
}

/// How a request is answered: only `GET` and `HEAD` are served; the query is
/// ignored; the path must lie under `prefix`, and decode without `..`.
pub open spec fn route_for(request: Seq<u8>, prefix: Seq<char>) -> RouteSpec {
    let line = request_line(request);
    let method = match first_word(line) {
        Some(m) => m,
        None => Seq::empty(),
    };
    let target = match second_word(line) {
        Some(t) => t,
        None => Seq::empty(),
    };
    let path = match crate::text::find(target, '?') {
        Some(i) => target.take(i),
        None => target,
    };
    if method != "GET"@ && method != "HEAD"@ {
        RouteSpec::Respond { status: 405, body: "method not allowed"@ }
    } else if !crate::text::starts_with(path, prefix) {
        RouteSpec::Respond { status: 404, body: "not found"@ }
    } else {
        match decoded_path(vstd::utf8::encode_utf8(path.skip(prefix.len() as int))) {
            None => RouteSpec::Respond { status: 400, body: "bad path"@ },
            Some(d) => RouteSpec::Serve { relative: trim_leading_slashes(d) },
        }
    }
}

/// Whether only headers are sent for a request.
pub open spec fn head_only_for(request: Seq<u8>) -> bool {
    match first_word(request_line(request)) {
        Some(m) => m == "HEAD"@,
        None => false,
    }
}

/// The route of a routed request, as values.
pub open spec fn route_view(r: RequestRoute) -> RouteSpec {
    match r {
        RequestRoute::Respond { status, body } => RouteSpec::Respond { status, body: body@ },
        RequestRoute::Serve { relative } => RouteSpec::Serve { relative: relative@ },
    }
}

proof fn lemma_drop_slash_keeps_no_parent(d: Seq<char>)
    requires
        d.len() > 0,
        d[0] == '/',
        !has_parent_segment(d),
    ensures
        !has_parent_segment(d.drop_first()),
{
    let t = d.drop_first();
    if has_parent_segment(t) {
        let i = choose|i: int|
            0 <= i && i + 2 <= t.len() && (i == 0 || t[i - 1] == '/') && #[trigger] t[i] == '.'
                && t[i + 1] == '.' && (i + 2 == t.len() || t[i + 2] == '/');
        assert(d[i + 1] == '.');
    }
}

proof fn lemma_trim_slashes_keeps_no_parent(d: Seq<char>)
    requires
        !has_parent_segment(d),
    ensures
        !has_parent_segment(trim_leading_slashes(d)),
    decreases d.len(),
{
    if d.len() > 0 && d[0] == '/' {
        lemma_drop_slash_keeps_no_parent(d);
        lemma_trim_slashes_keeps_no_parent(d.drop_first());
    }
}

/// Files are only ever served from below the served directory: the path of
/// a served request holds no `..` segment once decoded, and only `GET` and
/// `HEAD` requests are served.
pub proof fn lemma_served_paths_stay_inside(request: Seq<u8>, prefix: Seq<char>)
    ensures
        route_for(request, prefix) matches RouteSpec::Serve { relative } ==> !has_parent_segment(
            relative,
        ),
        route_for(request, prefix) is Serve ==> (match first_word(request_line(request)) {
            Some(m) => m == "GET"@ || m == "HEAD"@,
            None => Seq::<char>::empty() == "GET"@ || Seq::<char>::empty() == "HEAD"@,
        }),
{
    let line = request_line(request);
    let target = match second_word(line) {
        Some(t) => t,
        None => Seq::empty(),
    };
    let path = match crate::text::find(target, '?') {
        Some(i) => target.take(i),
        None => target,
    };
    match decoded_path(vstd::utf8::encode_utf8(path.skip(prefix.len() as int))) {
        Some(d) => lemma_trim_slashes_keeps_no_parent(d),
        None => {},
    }
}

/// A normalized prefix begins and ends with `/`.
pub proof fn lemma_prefix_is_slash_delimited(prefix: Seq<char>)
    ensures
        normalized_prefix(prefix).len() >= 1,
        normalized_prefix(prefix)[0] == '/',
        normalized_prefix(prefix).last() == '/',
{
    reveal_strlit("/");
}

fn word_chars(cs: &[char], start: usize, end: usize) -> (r: Vec<char>)
    requires
        start <= end <= cs@.len(),
    ensures
        r@ == match first_word(cs@.subrange(start as int, end as int)) {
            Some(w) => w,
            None => Seq::empty(),
        },
{
    match first_word_bounds(cs, start, end) {
        Some((a, b)) => slice_chars(cs, a, b),
        None => Vec::new(),
    }
}

fn request_line_chars(request: &[u8]) -> (r: Vec<char>)
    ensures
        r@ == request_line(request@),
{
    broadcast use vstd::utf8::encode_utf8_decode_utf8;

    match crate::wrappers::utf8_str(request) {
        Some(text) => {
            let cs = chars_of(text);
            assert(cs@ == vstd::utf8::decode_utf8(request@));
            if cs.len() > 0 {
                let (end, _next) = line_at(&cs, 0);
                assert(cs@.subrange(0, cs@.len() as int) =~= cs@);
                slice_chars(&cs, 0, end)
            } else {
                assert(lines(cs@) =~= Seq::<Seq<char>>::empty());
                Vec::new()
            }
        },
        None => Vec::new(),
    }
}

fn method_and_target(line: &[char]) -> (r: (Vec<char>, Vec<char>))
    ensures
        r.0@ == match first_word(line@) {
            Some(m) => m,
            None => Seq::empty(),
        },
        r.1@ == match second_word(line@) {
            Some(t) => t,
            None => Seq::empty(),
        },
{
    let n = line.len();
    assert(line@.subrange(0, n as int) =~= line@);
    let method = word_chars(line, 0, n);
    let target: Vec<char> = match first_word_bounds(line, 0, n) {
        Some((a, b)) => {
            assert(trim_start(line@).skip((b - a) as int) =~= line@.subrange(b as int, n as int));
            word_chars(line, b, n)
        },
        None => Vec::new(),
    };
    (method, target)
}

fn strip_query(target: &[char]) -> (r: Vec<char>)
    ensures
        r@ == match crate::text::find(target@, '?') {
            Some(i) => target@.take(i),
            None => target@,
        },
{
    let tn = target.len();
    assert(target@.subrange(0, tn as int) =~= target@);
    proof {
        crate::text::lemma_find_bounds(target@, '?');
    }
    match crate::text::find_char(target, 0, tn, '?') {
        Some(i) => {
            assert(target@.take(i as int) =~= target@.subrange(0, i as int));
            slice_chars(target, 0, i)
        },
        None => slice_chars(target, 0, tn),
    }
}

fn trim_leading_slashes_chars(dcs: &[char]) -> (r: Vec<char>)
    ensures
        r@ == trim_leading_slashes(dcs@),
{
    let mut k: usize = 0;
    assert(dcs@.subrange(0, dcs@.len() as int) =~= dcs@);
    while k < dcs.len() && dcs[k] == '/'
        invariant
            k <= dcs@.len(),
            trim_leading_slashes(dcs@) == trim_leading_slashes(
                dcs@.subrange(k as int, dcs@.len() as int),
            ),
        decreases dcs.len() - k,
    {
        assert(dcs@.subrange(k as int, dcs@.len() as int).drop_first() =~= dcs@.subrange(
            k + 1,
            dcs@.len() as int,
        ));
        k = k + 1;
    }
    slice_chars(dcs, k, dcs.len())
}

/// Routes one request of the static file server, given the bytes read from
/// the connection and the normalized prefix.
pub fn route_request(request: &[u8], prefix: &str) -> (r: RoutedRequest)
    ensures
        route_view(r.route) == route_for(request@, prefix@),
        r.head_only == head_only_for(request@),
{
    let line = request_line_chars(request);
    let (method, target) = method_and_target(&line);
    let head_only = eq_str(&method, "HEAD");
    proof {
        reveal_strlit("HEAD");
        if first_word(line@) is None {
            assert(method@.len() == 0);
        }
    }
    if !eq_str(&method, "GET") && !head_only {
        return RoutedRequest {
            route: RequestRoute::Respond { status: 405, body: "method not allowed" },
            head_only,
        };
    }
    let path = strip_query(&target);
    if !crate::text::starts_with_str(&path, prefix) {
        return RoutedRequest {
            route: RequestRoute::Respond { status: 404, body: "not found" },
            head_only,
        };
    }
    let prefix_len = chars_of(prefix).len();
    let relative_cs = slice_chars(&path, prefix_len, path.len());
    assert(relative_cs@ =~= path@.skip(prefix@.len() as int));
    let relative = string_of(&relative_cs);
    match decode_path(relative.as_str()) {
        None => RoutedRequest {
            route: RequestRoute::Respond { status: 400, body: "bad path" },
            head_only,
        },
        Some(decoded) => {
            let dcs = chars_of(decoded.as_str());
            let trimmed = trim_leading_slashes_chars(&dcs);
            RoutedRequest {
                route: RequestRoute::Serve { relative: string_of(&trimmed) },
                head_only,
            }
        },
    }
}

} // verus!

verus! {

/// `s` without trailing `/` characters (`trim_end_matches('/')`).
pub open spec fn trim_trailing_slashes(s: Seq<char>) -> Seq<char>
    decreases s.len(),
{
    if s.len() > 0 && s.last() == '/' {
        trim_trailing_slashes(s.drop_last())
    } else {
        s
    }
}

/// `s` with every `\` turned into `/`.
pub open spec fn forward_slashes(s: Seq<char>) -> Seq<char> {
    s.map_values(|c: char| if c == '\\' { '/' } else { c })
}

/// The URL path under which the page is served: the server's base path,
/// without trailing slashes, then `/` and the page's path relative to the
/// served directory (with forward slashes).
pub open spec fn served_path(base_path: Seq<char>, relative: Seq<char>) -> Seq<char> {
    trim_trailing_slashes(base_path) + "/"@ + forward_slashes(relative)
}

/// Builds the URL path under which the page is served.
pub fn served_page_path(base_path: &str, relative: &str) -> (r: String)
    ensures
        r@ == served_path(base_path@, relative@),
{
    let base = chars_of(base_path);
    let mut end = base.len();
    assert(base@.take(end as int) =~= base@);
    while end > 0 && base[end - 1] == '/'
        invariant
            end <= base@.len(),
            trim_trailing_slashes(base@) == trim_trailing_slashes(base@.take(end as int)),
        decreases end,
    {
        assert(base@.take(end as int).drop_last() =~= base@.take(end - 1));
        end = end - 1;
    }
    let mut out = slice_chars(&base, 0, end);
    assert(base@.subrange(0, end as int) =~= base@.take(end as int));
    push_str(&mut out, "/");
    let rel = chars_of(relative);
    let ghost start = out@;
    let mut i: usize = 0;
    while i < rel.len()
        invariant
            i <= rel@.len(),
            out@ == start + forward_slashes(rel@.take(i as int)),
        decreases rel.len() - i,
    {
        let c = if rel[i] == '\\' { '/' } else { rel[i] };
        out.push(c);
        assert(forward_slashes(rel@.take(i + 1)) =~= forward_slashes(rel@.take(i as int)).push(c));
        i = i + 1;
    }
    assert(rel@.take(rel@.len() as int) =~= rel@);
    string_of(&out)
}

/// The base URL of a static server listening at `address` (`host:port`),
/// under the normalized prefix.
pub fn static_base_url(address: &str, prefix: &str) -> (r: String)
    ensures
        r@ == "http://"@ + address@ + normalized_prefix(prefix@),
{
    let normalized = normalize_prefix(prefix);
    let mut out: Vec<char> = Vec::new();
    push_str(&mut out, "http://");
    push_str(&mut out, address);
    push_str(&mut out, normalized.as_str());
    string_of(&out)
}

/// Whether a page needs the static server: a `file:` page with the server
/// enabled.
pub fn serves_page(scheme: &str, enabled: bool) -> (r: bool)
    ensures
        r == (scheme@ == "file"@ && enabled),
{
    let s = chars_of(scheme);
    eq_str(&s, "file") && enabled
}

} // verus!
