//! The request that a curl command describes: method, URL, headers,
//! cookies and JSON payload, read from the command's flags.
use vstd::prelude::*;
use vstd::string::{StrSliceExecFns, StringExecFns};
use crate::json::{json_text_valid, parse_json_text, parsed_json, pretty_value_text};
use crate::pattern::{find_first, first_match, header_at_exec, header_matches, header_matches_from, run_end, CharClass, Flag};
use crate::std_text::{all_ascii, ascii_uppercase, to_upper, unicode_upper};
use crate::string_map::{from_pairs, lemma_from_pairs_push, Entries, StringMap};
use crate::text::{chars_of, normalize, normalized, split_on, trim, trim_range};

verus! {

/// A request: method, URL, headers, cookies and an optional JSON payload.
#[derive(Debug, Clone)]
pub struct RequestData {
    pub method: String,
    pub url: String,
    pub headers: StringMap,
    pub cookies: StringMap,
    pub payload: Option<serde_json::Value>,
}

impl Default for RequestData {
    fn default() -> (r: Self)
        ensures
            r.method@ == Seq::<char>::empty(),
            r.url@ == Seq::<char>::empty(),
            r.headers@ == Seq::<(Seq<char>, Seq<char>)>::empty(),
            r.cookies@ == Seq::<(Seq<char>, Seq<char>)>::empty(),
            r.payload is None,
    {
        RequestData {
            method: String::new(),
            url: String::new(),
            headers: StringMap::new(),
            cookies: StringMap::new(),
            payload: None,
        }
    }
}

/// What a payload file holds: URL, method and optional JSON payload.
#[derive(Debug, Clone)]
pub struct SavedPayload {
    pub url: String,
    pub method: String,
    pub payload: Option<serde_json::Value>,
}

/// The status code and the body text of a response.
#[derive(Debug, Clone)]
pub struct ParsedResponse {
    pub status_code: u16,
    pub body: String,
}

/// The method of a (normalised) command: the `-X` argument upper-cased;
/// without `-X`, `POST` when a data flag is present and `GET` otherwise.
pub open spec fn method_text(s: Seq<char>) -> Seq<char> {
    match first_match(Flag::Method, s, 0) {
        Some((a, b)) => unicode_upper(s.subrange(a, b)),
        None => if first_match(Flag::Data, s, 0) is Some {
            "POST"@
        } else {
            "GET"@
        },
    }
}

/// An ASCII `-X` argument is upper-cased the ASCII way in `method`.
pub open spec fn ascii_method_upper(s: Seq<char>, method: Seq<char>) -> bool {
    match first_match(Flag::Method, s, 0) {
        Some((a, b)) => all_ascii(s.subrange(a, b)) ==> method == ascii_uppercase(
            s.subrange(a, b),
        ),
        None => true,
    }
}

/// The URL of a command: the quoted argument of `curl`, or empty.
pub open spec fn url_text(s: Seq<char>) -> Seq<char> {
    match first_match(Flag::Url, s, 0) {
        Some((a, b)) => s.subrange(a, b),
        None => Seq::empty(),
    }
}

/// The trimmed name and value of a header match.
pub open spec fn header_entry(s: Seq<char>, m: (int, int, int, int, int)) -> (
    Seq<char>,
    Seq<char>,
) {
    (trim(s.subrange(m.0, m.1)), trim(s.subrange(m.2, m.3)))
}

/// The name-value pairs of every `-H` flag, in order.
pub open spec fn header_pairs(s: Seq<char>) -> Entries {
    header_matches(s).map_values(|m: (int, int, int, int, int)| header_entry(s, m))
}

/// The headers of a command: its header pairs collected into a map.
pub open spec fn header_entries(s: Seq<char>) -> Entries {
    from_pairs(header_pairs(s))
}

/// One `name=value` item of a cookie list: the trimmed text up to the first
/// `=` and the trimmed rest, or the whole trimmed item and an empty value.
pub open spec fn cookie_pair(piece: Seq<char>) -> (Seq<char>, Seq<char>) {
    let t = trim(piece);
    let f = run_end(t, 0, CharClass::Not('='));
    if f < t.len() {
        (trim(t.take(f)), trim(t.skip(f + 1)))
    } else {
        (trim(t), Seq::empty())
    }
}

/// The pairs of a `;`-separated cookie list, one per item (empty items
/// included).
pub open spec fn cookie_pairs(list: Seq<char>) -> Entries {
    split_on(list, ';').map_values(|p: Seq<char>| cookie_pair(p))
}

/// The cookies of a command: the pairs of the first `-b` argument
/// collected into a map, or none.
pub open spec fn cookie_entries(s: Seq<char>) -> Entries {
    match first_match(Flag::Cookie, s, 0) {
        Some((a, b)) => from_pairs(cookie_pairs(s.subrange(a, b))),
        None => Seq::empty(),
    }
}

/// The argument of the first data flag, if any.
pub open spec fn data_text(s: Seq<char>) -> Option<Seq<char>> {
    match first_match(Flag::Data, s, 0) {
        Some((a, b)) => Some(s.subrange(a, b)),
        None => None,
    }
}

/// Whether the command carries a payload: a data flag whose argument is
/// valid JSON.
pub open spec fn has_payload(s: Seq<char>) -> bool {
    match data_text(s) {
        Some(t) => json_text_valid(t),
        None => false,
    }
}

/// The JSON payload of a command: the value read from the argument of the
/// first data flag, when that argument is valid JSON.
pub open spec fn payload_value(s: Seq<char>) -> Option<serde_json::Value> {
    match data_text(s) {
        Some(t) => if json_text_valid(t) {
            Some(parsed_json(t))
        } else {
            None
        },
        None => None,
    }
}

/// The text of `input` between character positions `a` and `b`.
fn text_between(input: &str, a: usize, b: usize) -> (r: String)
    requires
        a <= b <= input@.len(),
    ensures
        r@ == input@.subrange(a as int, b as int),
{
    input.substring_char(a, b).to_owned()
}

/// The method of the command text.
pub fn extract_method(input: &str) -> (res: String)
    ensures
        res@ == method_text(input@),
        ascii_method_upper(input@, res@),
{
    let v = chars_of(input);
    match find_first(&Flag::Method, &v) {
        Some((a, b)) => to_upper(input.substring_char(a, b)),
        None => {
            if find_first(&Flag::Data, &v).is_some() {
                String::from_str("POST")
            } else {
                String::from_str("GET")
            }
        },
    }
}

/// The URL of the command text.
pub fn extract_url(input: &str) -> (res: String)
    ensures
        res@ == url_text(input@),
{
    let v = chars_of(input);
    match find_first(&Flag::Url, &v) {
        Some((a, b)) => text_between(input, a, b),
        None => String::new(),
    }
}

/// The headers of the command text: every `-H` flag's trimmed name and
/// value, a later flag replacing the value of an earlier one with the same
/// name.
pub fn extract_headers(input: &str) -> (res: StringMap)
    ensures
        res@ == header_entries(input@),
{
    let v = chars_of(input);
    let n = v.len();
    let mut map = StringMap::new();
    let mut p: usize = 0;
    let ghost s = v@;
    let ghost entry_fn = |m: (int, int, int, int, int)| header_entry(s, m);
    let ghost mut done: Seq<(int, int, int, int, int)> = Seq::empty();
    proof {
        assert(done + header_matches_from(s, 0) =~= header_matches_from(s, 0));
        assert(done.map_values(entry_fn) =~= Seq::<(Seq<char>, Seq<char>)>::empty());
    }
    while p < n
        invariant
            n == v.len(),
            s == v@,
            s == input@,
            p <= n,
            done + header_matches_from(s, p as int) == header_matches_from(s, 0),
            map@ == from_pairs(done.map_values(entry_fn)),
            entry_fn == (|m: (int, int, int, int, int)| header_entry(s, m)),
        decreases n - p,
    {
        match header_at_exec(&v, p) {
            Some((a, b, c, d, e)) => {
                let (a1, b1) = trim_range(&v, a, b);
                let (c1, d1) = trim_range(&v, c, d);
                let name = text_between(input, a1, b1);
                let value = text_between(input, c1, d1);
                let ghost m = (a as int, b as int, c as int, d as int, e as int);
                proof {
                    assert(header_matches_from(s, p as int) == seq![m] + header_matches_from(
                        s,
                        e as int,
                    ));
                    assert(done.push(m) + header_matches_from(s, e as int) =~= done + (seq![m]
                        + header_matches_from(s, e as int)));
                    assert(done.push(m).map_values(entry_fn) =~= done.map_values(entry_fn).push(
                        (name@, value@),
                    ));
                    lemma_from_pairs_push(done.map_values(entry_fn), name@, value@);
                }
                map.insert(name, value);
                proof {
                    done = done.push(m);
                }
                p = e;
            },
            None => {
                p = p + 1;
            },
        }
    }
    proof {
        assert(header_matches_from(s, p as int) == Seq::<(int, int, int, int, int)>::empty());
        assert(done + Seq::<(int, int, int, int, int)>::empty() =~= done);
    }
    map
}

/// The pair of the cookie item between positions `a` and `b`.
fn cookie_pair_between(v: &Vec<char>, input: &str, a: usize, b: usize) -> (r: (String, String))
    requires
        v@ == input@,
        a <= b <= v.len(),
    ensures
        (r.0@, r.1@) == cookie_pair(v@.subrange(a as int, b as int)),
{
    let ghost piece = v@.subrange(a as int, b as int);
    let (t0, t1) = trim_range(v, a, b);
    let ghost t = v@.subrange(t0 as int, t1 as int);
    let mut f = t0;
    while f < t1 && v[f] != '='
        invariant
            t0 <= f <= t1 <= v.len(),
            forall|j: int| t0 <= j < f ==> v@[j] != '=',
        decreases t1 - f,
    {
        f = f + 1;
    }
    proof {
        assert forall|j: int| 0 <= j < f - t0 implies crate::pattern::in_class(
            CharClass::Not('='),
            #[trigger] t[j],
        ) by {
            assert(t[j] == v@[t0 + j]);
        }
        crate::pattern::lemma_run_end_at(t, 0, f - t0, CharClass::Not('='));
    }
    if f < t1 {
        let (k0, k1) = trim_range(v, t0, f);
        let (w0, w1) = trim_range(v, f + 1, t1);
        proof {
            assert(t.take(f - t0) =~= v@.subrange(t0 as int, f as int));
            assert(t.skip(f - t0 + 1) =~= v@.subrange(f + 1, t1 as int));
        }
        (text_between(input, k0, k1), text_between(input, w0, w1))
    } else {
        let (k0, k1) = trim_range(v, t0, t1);
        (text_between(input, k0, k1), String::new())
    }
}

/// The map of the `;`-separated cookie list between positions `a` and `b`.
fn cookies_between(v: &Vec<char>, input: &str, a: usize, b: usize) -> (r: StringMap)
    requires
        v@ == input@,
        a <= b <= v.len(),
    ensures
        r@ == from_pairs(cookie_pairs(v@.subrange(a as int, b as int))),
{
    let ghost pair_fn = |p: Seq<char>| cookie_pair(p);
    let mut map = StringMap::new();
    let mut start = a;
    proof {
        assert(v@.subrange(a as int, a as int) =~= Seq::<char>::empty());
        assert(split_on(Seq::<char>::empty(), ';').drop_last().map_values(pair_fn)
            =~= Seq::<(Seq<char>, Seq<char>)>::empty());
    }
    let mut j = a;
    while j < b
        invariant
            v@ == input@,
            a <= start <= j <= b <= v.len(),
            split_on(v@.subrange(a as int, j as int), ';').len() >= 1,
            split_on(v@.subrange(a as int, j as int), ';').last() == v@.subrange(
                start as int,
                j as int,
            ),
            map@ == from_pairs(
                split_on(v@.subrange(a as int, j as int), ';').drop_last().map_values(pair_fn),
            ),
            pair_fn == (|p: Seq<char>| cookie_pair(p)),
        decreases b - j,
    {
        let ghost pieces = split_on(v@.subrange(a as int, j as int), ';');
        proof {
            assert(v@.subrange(a as int, j + 1) =~= v@.subrange(a as int, j as int).push(
                v@[j as int],
            ));
            assert(v@.subrange(a as int, j + 1).drop_last() =~= v@.subrange(a as int, j as int));
        }
        if v[j] == ';' {
            let (k, w) = cookie_pair_between(v, input, start, j);
            proof {
                assert(pieces.push(Seq::<char>::empty()).drop_last() =~= pieces);
                assert(pieces.map_values(pair_fn) =~= pieces.drop_last().map_values(pair_fn).push(
                    (k@, w@),
                ));
                lemma_from_pairs_push(pieces.drop_last().map_values(pair_fn), k@, w@);
                assert(v@.subrange(j + 1, j + 1) =~= Seq::<char>::empty());
            }
            map.insert(k, w);
            start = j + 1;
        } else {
            proof {
                let upd = pieces.update(pieces.len() - 1, pieces.last().push(v@[j as int]));
                assert(upd.drop_last() =~= pieces.drop_last());
                assert(v@.subrange(start as int, j + 1) =~= v@.subrange(
                    start as int,
                    j as int,
                ).push(v@[j as int]));
            }
        }
        j = j + 1;
    }
    let ghost pieces = split_on(v@.subrange(a as int, b as int), ';');
    let (k, w) = cookie_pair_between(v, input, start, b);
    proof {
        assert(pieces.map_values(pair_fn) =~= pieces.drop_last().map_values(pair_fn).push(
            (k@, w@),
        ));
        lemma_from_pairs_push(pieces.drop_last().map_values(pair_fn), k@, w@);
    }
    map.insert(k, w);
    map
}

/// The cookies of the command text: the items of the first `-b` argument,
/// split at `;`, each split at its first `=` into a trimmed name and value;
/// a later item replaces the value of an earlier one with the same name.
pub fn extract_cookies(input: &str) -> (res: StringMap)
    ensures
        res@ == cookie_entries(input@),
{
    let v = chars_of(input);
    match find_first(&Flag::Cookie, &v) {
        Some((a, b)) => cookies_between(&v, input, a, b),
        None => StringMap::new(),
    }
}

/// The JSON payload of the command text: the argument of the first data
/// flag, when it is valid JSON.
pub fn extract_payload(input: &str) -> (res: Option<serde_json::Value>)
    ensures
        res is Some == has_payload(input@),
        res == payload_value(input@),
        res is Some ==> json_text_valid(pretty_value_text(res.unwrap())),
{
    let v = chars_of(input);
    match find_first(&Flag::Data, &v) {
        Some((a, b)) => parse_json_text(input.substring_char(a, b)),
        None => None,
    }
}

/// The request that a curl command describes, read from the command with
/// its lines trimmed and joined.
pub fn parse_curl_command(input: &str) -> (res: RequestData)
    ensures
        res.method@ == method_text(normalized(input@)),
        ascii_method_upper(normalized(input@), res.method@),
        res.url@ == url_text(normalized(input@)),
        res.headers@ == header_entries(normalized(input@)),
        res.cookies@ == cookie_entries(normalized(input@)),
        res.payload is Some == has_payload(normalized(input@)),
        res.payload == payload_value(normalized(input@)),
        res.payload is Some ==> json_text_valid(pretty_value_text(res.payload.unwrap())),
{
    let s = normalize(input);
    RequestData {
        method: extract_method(s.as_str()),
        url: extract_url(s.as_str()),
        headers: extract_headers(s.as_str()),
        cookies: extract_cookies(s.as_str()),
        payload: extract_payload(s.as_str()),
    }
}

/// Only the headers and cookies of a curl command; method and URL are
/// left empty and there is no payload.
pub fn parse_headers_only(input: &str) -> (res: RequestData)
    ensures
        res.method@ == Seq::<char>::empty(),
        res.url@ == Seq::<char>::empty(),
        res.headers@ == header_entries(normalized(input@)),
        res.cookies@ == cookie_entries(normalized(input@)),
        res.payload is None,
{
    let s = normalize(input);
    RequestData {
        method: String::new(),
        url: String::new(),
        headers: extract_headers(s.as_str()),
        cookies: extract_cookies(s.as_str()),
        payload: None,
    }
}

} // verus!
