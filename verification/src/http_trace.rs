//! Tracing of outgoing HTTP requests: which URLs are left untraced, the
//! span's name, and the semantic-convention attributes recorded for the
//! request and its response.

use vstd::prelude::*;
use crate::digits::{decimal, decimal_string};
use crate::otlp_json::{AttrValue, Attribute};
use crate::text::{
    chars_of, contains_seq, is_ws, push_chars, push_str, skip_ws, skip_ws_back, trim_ws,
};

verus! {

// ---------------------------------------------------------------------------
// Ignored URLs
// ---------------------------------------------------------------------------

/// `s.split(c)`: the runs between separators, empty runs included; one
/// empty run for an empty string.
pub open spec fn split_on(s: Seq<char>, c: char) -> Seq<Seq<char>>
    decreases s.len(),
{
    if s.len() == 0 {
        seq![Seq::empty()]
    } else {
        let r = split_on(s.drop_last(), c);
        if s.last() == c {
            r.push(Seq::empty())
        } else {
            r.update(r.len() - 1, r.last().push(s.last()))
        }
    }
}

/// The trimmed runs that are not empty, in order.
pub open spec fn nonblank_trimmed(runs: Seq<Seq<char>>) -> Seq<Seq<char>>
    decreases runs.len(),
{
    if runs.len() == 0 {
        Seq::empty()
    } else {
        let r = nonblank_trimmed(runs.drop_last());
        if trim_ws(runs.last()).len() > 0 {
            r.push(trim_ws(runs.last()))
        } else {
            r
        }
    }
}

/// The URL patterns of a comma-separated setting: each entry trimmed,
/// empty entries dropped.
pub open spec fn ignore_patterns(raw: Seq<char>) -> Seq<Seq<char>> {
    nonblank_trimmed(split_on(raw, ','))
}

proof fn lemma_split_nonempty(s: Seq<char>, c: char)
    ensures
        split_on(s, c).len() >= 1,
    decreases s.len(),
{
    if s.len() > 0 {
        lemma_split_nonempty(s.drop_last(), c);
    }
}

pub open spec fn string_views(v: Seq<String>) -> Seq<Seq<char>> {
    v.map_values(|s: String| s@)
}

fn push_trimmed(out: &mut Vec<String>, v: &[char], from: usize, to: usize)
    requires
        from <= to <= v@.len(),
    ensures
        string_views(final(out)@) == if trim_ws(v@.subrange(from as int, to as int)).len() > 0 {
            string_views(old(out)@).push(trim_ws(v@.subrange(from as int, to as int)))
        } else {
            string_views(old(out)@)
        },
{
    let b = skip_ws(v, from, to);
    let e = skip_ws_back(v, b, to);
    proof {
        assert(trim_ws(v@.subrange(from as int, to as int)) == v@.subrange(b as int, e as int));
    }
    if b < e {
        let mut s = String::new();
        push_chars(&mut s, v, b, e);
        proof {
            assert(Seq::<char>::empty() + v@.subrange(b as int, e as int) =~= v@.subrange(
                b as int,
                e as int,
            ));
        }
        let ghost before = out@;
        out.push(s);
        proof {
            assert(string_views(out@) =~= string_views(before).push(v@.subrange(b as int, e as int)));
        }
    } else {
        proof {
            assert(v@.subrange(b as int, e as int).len() == 0);
        }
    }
}

/// The URL patterns of the ignore setting: split at commas, each entry
/// trimmed, empty entries dropped.
pub fn parse_ignore_url_patterns(raw: &str) -> (patterns: Vec<String>)
    ensures
        string_views(patterns@) == ignore_patterns(raw@),
{
    let v = chars_of(raw);
    let mut out: Vec<String> = Vec::new();
    let mut start: usize = 0;
    let mut i: usize = 0;
    while i < v.len()
        invariant
            start <= i <= v@.len(),
            split_on(v@.take(i as int), ',').len() >= 1,
            split_on(v@.take(i as int), ',').last() == v@.subrange(start as int, i as int),
            string_views(out@) == nonblank_trimmed(split_on(v@.take(i as int), ',').drop_last()),
        decreases v@.len() - i,
    {
        let ghost prev = split_on(v@.take(i as int), ',');
        proof {
            let t = v@.take(i + 1);
            assert(t.drop_last() =~= v@.take(i as int));
            assert(t.last() == v@[i as int]);
            lemma_split_nonempty(t, ',');
        }
        if v[i] == ',' {
            push_trimmed(&mut out, v.as_slice(), start, i);
            proof {
                let next = split_on(v@.take(i + 1), ',');
                assert(next == prev.push(Seq::empty()));
                assert(next.drop_last() =~= prev);
                assert(prev =~= prev.drop_last().push(prev.last()));
                assert(v@.subrange(i + 1, i + 1) =~= Seq::<char>::empty());
            }
            start = i + 1;
        } else {
            proof {
                let next = split_on(v@.take(i + 1), ',');
                assert(next == prev.update(prev.len() - 1, prev.last().push(v@[i as int])));
                assert(next.drop_last() =~= prev.drop_last());
                assert(v@.subrange(start as int, i + 1) =~= v@.subrange(start as int, i as int).push(
                    v@[i as int],
                ));
            }
        }
        i = i + 1;
    }
    let ghost last_split = split_on(v@.take(i as int), ',');
    push_trimmed(&mut out, v.as_slice(), start, i);
    proof {
        assert(v@.take(i as int) =~= v@);
        assert(last_split =~= last_split.drop_last().push(last_split.last()));
    }
    out
}

fn contains_at(h: &[char], n: &[char], at: usize) -> (r: bool)
    requires
        at + n@.len() <= h@.len(),
    ensures
        r == (h@.subrange(at as int, at + n@.len()) == n@),
{
    let hl = h.len();
    let mut k: usize = 0;
    while k < n.len()
        invariant
            h@.len() == hl,
            at + n@.len() <= h@.len(),
            k <= n@.len(),
            forall|j: int| 0 <= j < k ==> h@[at + j] == n@[j],
        decreases n@.len() - k,
    {
        if h[at + k] != n[k] {
            proof {
                assert(h@.subrange(at as int, at + n@.len())[k as int] == h@[at + k]);
            }
            return false;
        }
        k = k + 1;
    }
    proof {
        assert(h@.subrange(at as int, at + n@.len()) =~= n@);
    }
    true
}

/// `haystack.contains(needle)`.
pub fn str_contains(haystack: &str, needle: &str) -> (r: bool)
    ensures
        r == contains_seq(haystack@, needle@),
{
    let h = chars_of(haystack);
    let n = chars_of(needle);
    if n.len() > h.len() {
        return false;
    }
    let last = h.len() - n.len();
    let mut at: usize = 0;
    loop
        invariant
            h@ == haystack@,
            n@ == needle@,
            last + n@.len() == h@.len(),
            at <= last,
            forall|j: int| 0 <= j < at ==> #[trigger] h@.subrange(j, j + n@.len()) != n@,
        ensures
            forall|j: int| 0 <= j <= last ==> #[trigger] h@.subrange(j, j + n@.len()) != n@,
        decreases last - at,
    {
        if contains_at(h.as_slice(), n.as_slice(), at) {
            return true;
        }
        if at == last {
            break;
        }
        at = at + 1;
    }
    proof {
        if contains_seq(haystack@, needle@) {
            let j = choose|j: int| 0 <= j && j + needle@.len() <= haystack@.len() && #[trigger] haystack@.subrange(j, j + needle@.len()) == needle@;
            assert(h@.subrange(j, j + n@.len()) == n@);
        }
    }
    false
}

/// True when the URL contains one of the ignore patterns; such requests
/// are sent without a span.
pub fn should_ignore_fetch_url(url: &str, patterns: &[String]) -> (r: bool)
    ensures
        r == exists|i: int| 0 <= i < patterns@.len() && contains_seq(url@, (#[trigger] patterns@[i])@),
{
    let mut i: usize = 0;
    while i < patterns.len()
        invariant
            i <= patterns@.len(),
            forall|j: int| 0 <= j < i ==> !contains_seq(url@, (#[trigger] patterns@[j])@),
        decreases patterns@.len() - i,
    {
        if str_contains(url, patterns[i].as_str()) {
            return true;
        }
        i = i + 1;
    }
    false
}

// ---------------------------------------------------------------------------
// Span name and attributes
// ---------------------------------------------------------------------------

/// Request headers recorded on the span.
pub fn safe_request_headers() -> (names: Vec<&'static str>)
    ensures
        names@.len() == 2,
        names@[0]@ == "content-type"@,
        names@[1]@ == "accept"@,
{
    let mut v: Vec<&'static str> = Vec::new();
    v.push("content-type");
    v.push("accept");
    v
}

/// Response headers recorded on the span.
pub fn safe_response_headers() -> (names: Vec<&'static str>)
    ensures
        names@.len() == 1,
        names@[0]@ == "content-type"@,
{
    let mut v: Vec<&'static str> = Vec::new();
    v.push("content-type");
    v
}

/// The span name: `{METHOD} {path}`, or the method alone without a path.
pub open spec fn span_name_of(method: Seq<char>, path: Option<Seq<char>>) -> Seq<char> {
    match path {
        Some(p) => if p.len() > 0 {
            method + seq![' '] + p
        } else {
            method
        },
        None => method,
    }
}

pub fn span_name(method: &str, path: Option<&str>) -> (s: String)
    ensures
        s@ == span_name_of(
            method@,
            match path {
                Some(p) => Some(p@),
                None => None,
            },
        ),
{
    let mut s = String::new();
    push_str(&mut s, method);
    match path {
        Some(p) => {
            if !p.is_empty() {
                s.push(' ');
                push_str(&mut s, p);
            }
        },
        None => {},
    }
    proof {
        assert(Seq::<char>::empty() + method@ =~= method@);
    }
    s
}

/// `char::to_ascii_uppercase`.
pub open spec fn ascii_upper(c: char) -> char {
    if 'a' <= c && c <= 'z' {
        ((c as u32) - 32) as char
    } else {
        c
    }
}

/// The method upper-cased. HTTP methods are ASCII tokens, for which this
/// is the same as full upper-casing.
pub fn upper_method(method: &str) -> (s: String)
    ensures
        s@ == method@.map_values(|c: char| ascii_upper(c)),
{
    let v = chars_of(method);
    let mut s = String::new();
    let mut i: usize = 0;
    while i < v.len()
        invariant
            i <= v@.len(),
            v@ == method@,
            s@ == v@.take(i as int).map_values(|c: char| ascii_upper(c)),
        decreases v@.len() - i,
    {
        let c = v[i];
        let u = if 'a' <= c && c <= 'z' {
            let code = (c as u32) - 32;
            proof {
                assert(0x41 <= code <= 0x5A);
            }
            let mut r = c;
            if code == 0x41 { r = 'A'; } else if code == 0x42 { r = 'B'; } else if code == 0x43 { r = 'C'; }
            else if code == 0x44 { r = 'D'; } else if code == 0x45 { r = 'E'; } else if code == 0x46 { r = 'F'; }
            else if code == 0x47 { r = 'G'; } else if code == 0x48 { r = 'H'; } else if code == 0x49 { r = 'I'; }
            else if code == 0x4A { r = 'J'; } else if code == 0x4B { r = 'K'; } else if code == 0x4C { r = 'L'; }
            else if code == 0x4D { r = 'M'; } else if code == 0x4E { r = 'N'; } else if code == 0x4F { r = 'O'; }
            else if code == 0x50 { r = 'P'; } else if code == 0x51 { r = 'Q'; } else if code == 0x52 { r = 'R'; }
            else if code == 0x53 { r = 'S'; } else if code == 0x54 { r = 'T'; } else if code == 0x55 { r = 'U'; }
            else if code == 0x56 { r = 'V'; } else if code == 0x57 { r = 'W'; } else if code == 0x58 { r = 'X'; }
            else if code == 0x59 { r = 'Y'; } else { r = 'Z'; }
            proof {
                assert(r as u32 == code);
            }
            r
        } else {
            c
        };
        s.push(u);
        proof {
            assert(v@.take(i + 1).map_values(|c: char| ascii_upper(c)) =~= v@.take(i as int).map_values(
                |c: char| ascii_upper(c),
            ).push(ascii_upper(v@[i as int])));
        }
        i = i + 1;
    }
    proof {
        assert(v@.take(i as int) =~= v@);
    }
    s
}

/// An attribute with a string value.
pub open spec fn is_str_attr(a: Attribute, key: Seq<char>, value: Seq<char>) -> bool {
    &&& a.key@ == key
    &&& (a.value matches AttrValue::String(s) && s@ == value)
}

/// An attribute with an integer value.
pub open spec fn is_int_attr(a: Attribute, key: Seq<char>, value: int) -> bool {
    &&& a.key@ == key
    &&& (a.value matches AttrValue::I64(i) && i == value)
}

/// The keys and values of the request attributes, in order: method and
/// full URL, then the server address, scheme (with the protocol name
/// `http`), path, port and query that are present and, for scheme and path,
/// not empty.
pub open spec fn request_attrs_ok(
    attrs: Seq<Attribute>,
    method: Seq<char>,
    url_full: Seq<char>,
    host: Option<Seq<char>>,
    scheme: Seq<char>,
    path: Seq<char>,
    port: Option<u16>,
    query: Option<Seq<char>>,
) -> bool {
    let n0 = 2int;
    let n1 = n0 + if host is Some { 1int } else { 0int };
    let n2 = n1 + if scheme.len() > 0 { 2int } else { 0int };
    let n3 = n2 + if path.len() > 0 { 1int } else { 0int };
    let n4 = n3 + if port is Some { 1int } else { 0int };
    let n5 = n4 + if query is Some { 1int } else { 0int };
    &&& attrs.len() == n5
    &&& is_str_attr(attrs[0], "http.request.method"@, method)
    &&& is_str_attr(attrs[1], "url.full"@, url_full)
    &&& (host matches Some(h) ==> is_str_attr(attrs[n0], "server.address"@, h))
    &&& (scheme.len() > 0 ==> is_str_attr(attrs[n1], "url.scheme"@, scheme) && is_str_attr(
        attrs[n1 + 1],
        "network.protocol.name"@,
        "http"@,
    ))
    &&& (path.len() > 0 ==> is_str_attr(attrs[n2], "url.path"@, path))
    &&& (port matches Some(p) ==> is_int_attr(attrs[n3], "server.port"@, p as int))
    &&& (query matches Some(q) ==> is_str_attr(attrs[n4], "url.query"@, q))
}

/// Name and attributes of the span opened for a request.
pub struct RequestSpan {
    pub name: String,
    pub attributes: Vec<Attribute>,
}

fn str_attr(key: &str, value: &str) -> (a: Attribute)
    ensures
        is_str_attr(a, key@, value@),
{
    Attribute { key: key.to_owned(), value: AttrValue::String(value.to_owned()) }
}

fn push_attr(attrs: &mut Vec<Attribute>, a: Attribute)
    ensures
        final(attrs)@ == old(attrs)@.push(a),
{
    attrs.push(a);
}

/// The span of a request: named by method and path, with the request's
/// attributes. `method` is upper-cased; the URL parts are those of the
/// parsed request URL (`scheme` and `path` empty when absent).
pub fn request_span(
    method: &str,
    url_full: &str,
    host: Option<&str>,
    scheme: &str,
    path: &str,
    port: Option<u16>,
    query: Option<&str>,
) -> (span: RequestSpan)
    ensures
        span.name@ == span_name_of(
            method@.map_values(|c: char| ascii_upper(c)),
            if path@.len() > 0 {
                Some(path@)
            } else {
                None
            },
        ),
        request_attrs_ok(
            span.attributes@,
            method@.map_values(|c: char| ascii_upper(c)),
            url_full@,
            match host {
                Some(h) => Some(h@),
                None => None,
            },
            scheme@,
            path@,
            port,
            match query {
                Some(q) => Some(q@),
                None => None,
            },
        ),
{
    let m = upper_method(method);
    let mut attrs: Vec<Attribute> = Vec::new();
    push_attr(&mut attrs, str_attr("http.request.method", m.as_str()));
    push_attr(&mut attrs, str_attr("url.full", url_full));
    let ghost a2 = attrs@;
    if let Some(h) = host {
        push_attr(&mut attrs, str_attr("server.address", h));
    }
    let ghost a3 = attrs@;
    if !scheme.is_empty() {
        push_attr(&mut attrs, str_attr("url.scheme", scheme));
        push_attr(&mut attrs, str_attr("network.protocol.name", "http"));
    }
    let ghost a4 = attrs@;
    if !path.is_empty() {
        push_attr(&mut attrs, str_attr("url.path", path));
    }
    let ghost a5 = attrs@;
    if let Some(p) = port {
        push_attr(&mut attrs, Attribute { key: "server.port".to_owned(), value: AttrValue::I64(p as i64) });
    }
    let ghost a6 = attrs@;
    if let Some(q) = query {
        push_attr(&mut attrs, str_attr("url.query", q));
    }
    let name = if path.is_empty() {
        span_name(m.as_str(), None)
    } else {
        span_name(m.as_str(), Some(path))
    };
    proof {
        assert(attrs@.take(a6.len() as int) =~= a6);
        assert(a6.take(a5.len() as int) =~= a5);
        assert(a5.take(a4.len() as int) =~= a4);
        assert(a4.take(a3.len() as int) =~= a3);
        assert(a3.take(a2.len() as int) =~= a2);
        assert(attrs@[0] == a2[0] && attrs@[1] == a2[1]);
    }
    RequestSpan { name, attributes: attrs }
}

/// The attribute recording a request header: `http.request.header.{name}`.
pub fn request_header_attribute(name: &str, value: &str) -> (a: Attribute)
    ensures
        is_str_attr(a, "http.request.header."@ + name@, value@),
{
    let mut key = String::new();
    push_str(&mut key, "http.request.header.");
    push_str(&mut key, name);
    proof {
        assert(Seq::<char>::empty() + "http.request.header."@ =~= "http.request.header."@);
    }
    Attribute { key, value: AttrValue::String(value.to_owned()) }
}

/// The attribute recording the size of a request body held in memory.
pub fn request_body_size_attribute(len: usize) -> (a: Attribute)
    ensures
        a.key@ == "http.request.body.size"@,
        a.value == AttrValue::I64(len as i64),
{
    Attribute { key: "http.request.body.size".to_owned(), value: AttrValue::I64(len as i64) }
}

// ---------------------------------------------------------------------------
// Response
// ---------------------------------------------------------------------------

/// The value of the decimal digits `ds`.
pub open spec fn digits_value(ds: Seq<char>) -> int
    decreases ds.len(),
{
    if ds.len() == 0 {
        0
    } else {
        digits_value(ds.drop_last()) * 10 + (ds.last() as int - '0' as int)
    }
}

pub open spec fn all_digits(ds: Seq<char>) -> bool {
    forall|i: int| 0 <= i < ds.len() ==> '0' <= #[trigger] ds[i] && ds[i] <= '9'
}

/// `str::parse::<i64>`: an optional sign, then one or more ASCII digits,
/// whose value fits in an `i64`.
pub open spec fn parse_i64_spec(s: Seq<char>) -> Option<i64> {
    let neg = s.len() > 0 && s[0] == '-';
    let signed = s.len() > 0 && (s[0] == '-' || s[0] == '+');
    let ds = if signed {
        s.skip(1)
    } else {
        s
    };
    let v = if neg {
        -digits_value(ds)
    } else {
        digits_value(ds)
    };
    if ds.len() == 0 || !all_digits(ds) || v < i64::MIN || v > i64::MAX {
        None
    } else {
        Some(v as i64)
    }
}

proof fn lemma_digits_value_grows(ds: Seq<char>, k: int)
    requires
        all_digits(ds),
        0 <= k <= ds.len(),
    ensures
        0 <= digits_value(ds.take(k)) <= digits_value(ds),
    decreases ds.len(),
{
    if k < ds.len() {
        assert(ds.drop_last().take(k) =~= ds.take(k));
        assert(all_digits(ds.drop_last()));
        lemma_digits_value_grows(ds.drop_last(), k);
        lemma_digits_value_grows(ds.drop_last(), ds.len() - 1);
        assert(ds.drop_last().take(ds.len() - 1) =~= ds.drop_last());
    } else {
        assert(ds.take(k) =~= ds);
        if ds.len() > 0 {
            assert(all_digits(ds.drop_last()));
            lemma_digits_value_grows(ds.drop_last(), ds.len() - 1);
            assert(ds.drop_last().take(ds.len() - 1) =~= ds.drop_last());
        }
    }
}

/// `s.parse::<i64>().ok()`.
pub fn parse_i64(s: &str) -> (r: Option<i64>)
    ensures
        r == parse_i64_spec(s@),
{
    let v = chars_of(s);
    let neg = v.len() > 0 && v[0] == '-';
    let signed = v.len() > 0 && (v[0] == '-' || v[0] == '+');
    let start: usize = if signed { 1 } else { 0 };
    let ghost ds = if signed { s@.skip(1) } else { s@ };
    proof {
        assert(ds =~= v@.skip(start as int));
    }
    if start == v.len() {
        return None;
    }
    let mut acc: u128 = 0;
    let mut i: usize = start;
    while i < v.len()
        invariant
            start <= i <= v@.len(),
            v@ == s@,
            signed == (s@.len() > 0 && (s@[0] == '-' || s@[0] == '+')),
            neg == (s@.len() > 0 && s@[0] == '-'),
            ds == (if signed {
                s@.skip(1)
            } else {
                s@
            }),
            ds == v@.skip(start as int),
            all_digits(ds.take(i - start)),
            acc == digits_value(ds.take(i - start)),
            acc <= 0x8000_0000_0000_0000u128,
        decreases v@.len() - i,
    {
        let c = v[i];
        if !('0' <= c && c <= '9') {
            proof {
                assert(ds[i - start] == c);
                assert(!all_digits(ds));
            }
            return None;
        }
        let d = (c as u32 - '0' as u32) as u128;
        let next = acc * 10 + d;
        proof {
            let t = ds.take(i - start + 1);
            assert(t.drop_last() =~= ds.take(i - start));
            assert(t.last() == c);
            assert(all_digits(t));
        }
        if next > 0x8000_0000_0000_0000u128 {
            proof {
                if all_digits(ds) {
                    lemma_digits_value_grows(ds, i - start + 1);
                    assert(digits_value(ds) > 0x8000_0000_0000_0000);
                }
            }
            return None;
        }
        acc = next;
        i = i + 1;
    }
    proof {
        assert(ds.take(i - start) =~= ds);
    }
    if neg {
        if acc == 0x8000_0000_0000_0000u128 {
            Some(i64::MIN)
        } else {
            Some(-(acc as i64))
        }
    } else {
        if acc > 0x7FFF_FFFF_FFFF_FFFFu128 {
            None
        } else {
            Some(acc as i64)
        }
    }
}

/// How a response ends the span: the attributes recorded, and the error
/// description when the status is an error (400 and above).
pub struct ResponseOutcome {
    pub attributes: Vec<Attribute>,
    pub error: Option<String>,
}

/// The response part of the span: the status code; the body size when
/// `content-length` parses as an integer; the recorded response headers
/// (`name`, `value`), each as `http.response.header.{name}`; and for a
/// status of 400 or more, `error.type` and an error status both carrying
/// the status code as text.
pub fn response_outcome(status: u16, content_length: Option<&str>, headers: &[(String, String)]) -> (r:
    ResponseOutcome)
    ensures
        ({
            let size = match content_length {
                Some(t) => parse_i64_spec(t@),
                None => None,
            };
            let n1 = 1int + if size is Some { 1int } else { 0int };
            let n2 = n1 + headers@.len();
            let n3 = n2 + if status >= 400 { 1int } else { 0int };
            &&& r.attributes@.len() == n3
            &&& is_int_attr(r.attributes@[0], "http.response.status_code"@, status as int)
            &&& (size matches Some(n) ==> is_int_attr(
                r.attributes@[1],
                "http.response.body.size"@,
                n as int,
            ))
            &&& forall|k: int|
                0 <= k < headers@.len() ==> is_str_attr(
                    #[trigger] r.attributes@[n1 + k],
                    "http.response.header."@ + headers@[k].0@,
                    headers@[k].1@,
                )
            &&& (status >= 400 ==> is_str_attr(
                r.attributes@[n2],
                "error.type"@,
                decimal(status as nat),
            ))
            &&& (r.error is Some <==> status >= 400)
            &&& (r.error matches Some(e) ==> e@ == decimal(status as nat))
        }),
{
    let mut attrs: Vec<Attribute> = Vec::new();
    attrs.push(Attribute { key: "http.response.status_code".to_owned(), value: AttrValue::I64(status as i64) });
    let size = match content_length {
        Some(t) => parse_i64(t),
        None => None,
    };
    if let Some(n) = size {
        attrs.push(Attribute { key: "http.response.body.size".to_owned(), value: AttrValue::I64(n) });
    }
    let ghost before_headers = attrs@;
    let mut k: usize = 0;
    while k < headers.len()
        invariant
            k <= headers@.len(),
            attrs@.len() == before_headers.len() + k,
            attrs@.take(before_headers.len() as int) == before_headers,
            forall|j: int|
                0 <= j < k ==> is_str_attr(
                    #[trigger] attrs@[before_headers.len() + j],
                    "http.response.header."@ + headers@[j].0@,
                    headers@[j].1@,
                ),
        decreases headers@.len() - k,
    {
        let mut key = String::new();
        push_str(&mut key, "http.response.header.");
        push_str(&mut key, headers[k].0.as_str());
        proof {
            assert(Seq::<char>::empty() + "http.response.header."@ =~= "http.response.header."@);
        }
        let ghost prev = attrs@;
        attrs.push(Attribute { key, value: AttrValue::String(headers[k].1.clone()) });
        proof {
            assert(attrs@.take(before_headers.len() as int) =~= prev.take(before_headers.len() as int));
            assert forall|j: int| 0 <= j < k + 1 implies is_str_attr(
                #[trigger] attrs@[before_headers.len() + j],
                "http.response.header."@ + headers@[j].0@,
                headers@[j].1@,
            ) by {
                if j < k {
                    assert(attrs@[before_headers.len() + j] == prev[before_headers.len() + j]);
                }
            }
        }
        k = k + 1;
    }
    let ghost before_error = attrs@;
    let error = if status >= 400 {
        let text = decimal_string(status as u128);
        attrs.push(Attribute { key: "error.type".to_owned(), value: AttrValue::String(text.clone()) });
        Some(text)
    } else {
        None
    };
    proof {
        assert(attrs@.take(before_error.len() as int) =~= before_error);
        assert(before_error.take(before_headers.len() as int) =~= before_headers);
        assert(attrs@[0] == before_headers[0]);
        if size is Some {
            assert(attrs@[1] == before_headers[1]);
        }
        assert forall|j: int| 0 <= j < headers@.len() implies is_str_attr(
            #[trigger] attrs@[before_headers.len() + j],
            "http.response.header."@ + headers@[j].0@,
            headers@[j].1@,
        ) by {
            assert(attrs@[before_headers.len() + j] == before_error[before_headers.len() + j]);
        }
    }
    ResponseOutcome { attributes: attrs, error }
}

// ---------------------------------------------------------------------------
// Failed request
// ---------------------------------------------------------------------------

/// How a request that got no response ends the span: the `error.type`
/// attribute, the error status's description, and the attributes of the
/// `exception` event.
pub struct FailureOutcome {
    pub attribute: Attribute,
    pub status_description: String,
    pub exception_attributes: Vec<Attribute>,
}

/// The failure part of the span for a request that failed with `error`
/// (the client error as text), captured at `stacktrace`: `error.type` and
/// the error status carry the error text; the `exception` event records
/// the error type `reqwest::Error`, the error text and the stack trace.
pub fn request_failure_outcome(error: &str, stacktrace: &str) -> (r: FailureOutcome)
    ensures
        is_str_attr(r.attribute, "error.type"@, error@),
        r.status_description@ == error@,
        r.exception_attributes@.len() == 3,
        is_str_attr(r.exception_attributes@[0], "exception.type"@, "reqwest::Error"@),
        is_str_attr(r.exception_attributes@[1], "exception.message"@, error@),
        is_str_attr(r.exception_attributes@[2], "exception.stacktrace"@, stacktrace@),
{
    let mut exception_attributes: Vec<Attribute> = Vec::new();
    exception_attributes.push(
        Attribute {
            key: "exception.type".to_owned(),
            value: AttrValue::String("reqwest::Error".to_owned()),
        },
    );
    exception_attributes.push(
        Attribute {
            key: "exception.message".to_owned(),
            value: AttrValue::String(error.to_owned()),
        },
    );
    exception_attributes.push(
        Attribute {
            key: "exception.stacktrace".to_owned(),
            value: AttrValue::String(stacktrace.to_owned()),
        },
    );
    FailureOutcome {
        attribute: Attribute {
            key: "error.type".to_owned(),
            value: AttrValue::String(error.to_owned()),
        },
        status_description: error.to_owned(),
        exception_attributes,
    }
}

} // verus!
