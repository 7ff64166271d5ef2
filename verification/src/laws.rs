//! Properties that hold across the library's functions.
use vstd::prelude::*;
use crate::http::{http_method_of, sends_body, HttpMethod};
use crate::json::{json_text_valid, parsed_json, pretty_value_text};
use crate::response_output::{decimal, digit_char};
use crate::request_editor::{body_has_value, body_value, filled_from, loaded_from, payload_body_text, request_of, saved_from, RequestEditorState};
use crate::pattern::{
    binary_suffix_at, data_at, first_match, header_at, header_matches, header_matches_from, in_class,
    last_word_start, lemma_run_end_at, method_at, raw_suffix_at, url_at, CharClass, Flag,
};
use crate::request_helper::{
    cookie_entries, cookie_pair, cookie_pairs, data_text, header_entries, header_pairs, method_text,
    payload_value, url_text, RequestData, SavedPayload,
};
use crate::std_text::unicode_upper;
use crate::word_class::is_word_char;
use crate::string_map::{from_pairs, has_key, keys_distinct, lemma_from_pairs, value_for, with_entry};
use crate::text::{
    is_white_space, join_spaced, lemma_split_on_nonempty, lemma_split_on_pieces_free, lemma_split_on_single, lines,
    normalized, split_on, trim, trim_end, trim_start,
};

verus! {

/// Headers: no name is repeated, and each name has the value of the last
/// `-H` flag that gives it.
pub proof fn law_last_header_flag_wins(s: Seq<char>, name: Seq<char>)
    ensures
        keys_distinct(header_entries(s)),
        value_for(header_entries(s), name) == value_for(header_pairs(s), name),
{
    lemma_from_pairs(header_pairs(s), name);
}

/// Cookies: no name is repeated, and each name has the value of the last
/// item of the first `-b` argument that gives it.
pub proof fn law_last_cookie_item_wins(s: Seq<char>, a: int, b: int, name: Seq<char>)
    requires
        first_match(Flag::Cookie, s, 0) == Some((a, b)),
    ensures
        keys_distinct(cookie_entries(s)),
        value_for(cookie_entries(s), name) == value_for(cookie_pairs(s.subrange(a, b)), name),
{
    lemma_from_pairs(cookie_pairs(s.subrange(a, b)), name);
}

/// Without `-X`, the method is `POST` exactly when a data flag is present,
/// and `GET` otherwise.
pub proof fn law_method_defaults(s: Seq<char>)
    requires
        first_match(Flag::Method, s, 0) is None,
    ensures
        method_text(s) == "POST"@ <==> first_match(Flag::Data, s, 0) is Some,
        method_text(s) == "GET"@ <==> first_match(Flag::Data, s, 0) is None,
{
    reveal_strlit("POST");
    reveal_strlit("GET");
    assert("POST"@[0] != "GET"@[0]);
}

proof fn lemma_subrange_free(t: Seq<char>, a: int, b: int, c: char)
    requires
        0 <= a <= b <= t.len(),
        forall|j: int| 0 <= j < t.len() ==> t[j] != c,
    ensures
        forall|j: int| 0 <= j < b - a ==> t.subrange(a, b)[j] != c,
{
    assert forall|j: int| 0 <= j < b - a implies t.subrange(a, b)[j] != c by {
        assert(t.subrange(a, b)[j] == t[a + j]);
    }
}

proof fn lemma_trim_start_free(t: Seq<char>, c: char)
    requires
        forall|j: int| 0 <= j < t.len() ==> t[j] != c,
    ensures
        forall|j: int| 0 <= j < trim_start(t).len() ==> trim_start(t)[j] != c,
    decreases t.len(),
{
    if t.len() > 0 && is_white_space(t[0]) {
        lemma_subrange_free(t, 1, t.len() as int, c);
        assert(t.drop_first() =~= t.subrange(1, t.len() as int));
        lemma_trim_start_free(t.drop_first(), c);
        assert(trim_start(t) == trim_start(t.drop_first()));
    } else {
        assert(trim_start(t) == t);
    }
}

proof fn lemma_trim_end_free(t: Seq<char>, c: char)
    requires
        forall|j: int| 0 <= j < t.len() ==> t[j] != c,
    ensures
        forall|j: int| 0 <= j < trim_end(t).len() ==> trim_end(t)[j] != c,
    decreases t.len(),
{
    if t.len() > 0 && is_white_space(t.last()) {
        lemma_subrange_free(t, 0, t.len() - 1, c);
        assert(t.drop_last() =~= t.subrange(0, t.len() - 1));
        lemma_trim_end_free(t.drop_last(), c);
        assert(trim_end(t) == trim_end(t.drop_last()));
    } else {
        assert(trim_end(t) == t);
    }
}

proof fn lemma_join_free(parts: Seq<Seq<char>>)
    requires
        forall|i: int, j: int|
            0 <= i < parts.len() && 0 <= j < parts[i].len() ==> parts[i][j] != '\n',
    ensures
        forall|j: int| 0 <= j < join_spaced(parts).len() ==> join_spaced(parts)[j] != '\n',
    decreases parts.len(),
{
    if parts.len() > 1 {
        let init = parts.drop_last();
        assert forall|i: int, j: int| 0 <= i < init.len() && 0 <= j < init[i].len() implies init[i][j]
            != '\n' by {
            assert(init[i] == parts[i]);
        }
        lemma_join_free(init);
        let joined = join_spaced(init) + seq![' '] + parts.last();
        assert forall|j: int| 0 <= j < joined.len() implies joined[j] != '\n' by {
            if j >= join_spaced(init).len() + 1 {
                assert(joined[j] == parts.last()[j - join_spaced(init).len() - 1]);
                assert(parts.last() == parts[parts.len() - 1]);
            }
        }
    } else if parts.len() == 1 {
        assert forall|j: int| 0 <= j < parts[0].len() implies parts[0][j] != '\n' by {}
    }
}

/// A normalised command is a single line: it holds no newline.
pub proof fn law_normalized_is_one_line(s: Seq<char>)
    ensures
        forall|j: int| 0 <= j < normalized(s).len() ==> normalized(s)[j] != '\n',
{
    let pieces = split_on(s, '\n');
    lemma_split_on_nonempty(s, '\n');
    lemma_split_on_pieces_free(s, '\n');
    let ls = lines(s);
    assert forall|i: int, j: int| 0 <= i < ls.len() && 0 <= j < ls[i].len() implies ls[i][j]
        != '\n' by {
        assert(ls[i] == pieces[i]);
    }
    let trimmed = ls.map_values(|l: Seq<char>| trim(l));
    assert forall|i: int, j: int|
        0 <= i < trimmed.len() && 0 <= j < trimmed[i].len() implies trimmed[i][j] != '\n' by {
        assert forall|k: int| 0 <= k < ls[i].len() implies ls[i][k] != '\n' by {}
        lemma_trim_start_free(ls[i], '\n');
        lemma_trim_end_free(trim_start(ls[i]), '\n');
    }
    lemma_join_free(trimmed);
}

/// A full import read back: the request has the imported method and URL,
/// each header and cookie with its imported value, and a payload exactly
/// when one was imported, provided the payload's pretty text reads back as
/// JSON.  Every payload that `parse_curl_command` reads meets that
/// proviso (its `ensures` says so); a value built otherwise may not, if it
/// is nested deeper than the reader accepts.
pub proof fn law_full_import_read_back(
    data: RequestData,
    editor: RequestEditorState,
    req: RequestData,
)
    requires
        filled_from(data, editor),
        request_of(editor, req),
        data.payload matches Some(v) ==> json_text_valid(pretty_value_text(v)),
    ensures
        req.method@ == data.method@,
        req.url@ == data.url@,
        forall|k: Seq<char>| value_for(req.headers@, k) == value_for(data.headers@, k),
        forall|k: Seq<char>| value_for(req.cookies@, k) == value_for(data.cookies@, k),
        req.payload is Some == data.payload is Some,
        req.payload matches Some(w) ==> w == parsed_json(editor.body_text@),
{
    assert(trim(Seq::<char>::empty()) =~= Seq::<char>::empty());
}

/// Saving the payload and loading the file back restores method and URL,
/// and the body becomes the pretty JSON of the value the body held, or
/// empty where it held none; the header and cookie texts stay.
pub proof fn law_saved_payload_read_back(
    editor: RequestEditorState,
    saved: SavedPayload,
    before: RequestEditorState,
    after: RequestEditorState,
)
    requires
        saved_from(editor, saved),
        loaded_from(before, saved, after),
    ensures
        after.method@ == editor.method@,
        after.url@ == editor.url@,
        after.body_text@ == payload_body_text(body_value(editor.body_text@)),
        !body_has_value(editor.body_text@) ==> after.body_text@ == Seq::<char>::empty(),
        after.headers_text@ == before.headers_text@,
        after.cookies_text@ == before.cookies_text@,
{
}

/// A text holding no newline normalises to the text trimmed.
pub proof fn law_one_line_normalizes_to_trim(s: Seq<char>)
    requires
        forall|j: int| 0 <= j < s.len() ==> s[j] != '\n',
    ensures
        normalized(s) == trim(s),
{
    lemma_split_on_single(s, '\n');
    if s.len() == 0 {
        assert(trim(s) =~= s);
        assert(lines(s) =~= Seq::<Seq<char>>::empty());
    } else {
        assert(lines(s) == seq![s]);
        assert(lines(s).map_values(|l: Seq<char>| trim(l)) =~= seq![trim(s)]);
    }
}

/// The URL of a command is the whole quoted argument of `curl`, whatever
/// characters it holds (`&`, `?`, `;` and the like included): for a command
/// that starts `curl 'U'` with `U` not empty and free of quotes, the URL is
/// `U`.
pub proof fn law_url_is_whole_quoted_argument(u: Seq<char>, rest: Seq<char>)
    requires
        u.len() > 0,
        forall|j: int| 0 <= j < u.len() ==> u[j] != '\'',
    ensures
        url_text("curl '"@ + u + "'"@ + rest) == u,
{
    reveal_strlit("curl '");
    reveal_strlit("'");
    let s = "curl '"@ + u + "'"@ + rest;
    let n = u.len() as int;
    assert(s[0] == 'c' && s[1] == 'u' && s[2] == 'r' && s[3] == 'l');
    assert(s[4] == ' ' && s[5] == '\'');
    assert(s[6 + n] == '\'');
    assert forall|j: int| 6 <= j < 6 + n implies in_class(CharClass::Not('\''), #[trigger] s[j]) by {
        assert(s[j] == u[j - 6]);
    }
    lemma_run_end_at(s, 4, 5, CharClass::Space);
    lemma_run_end_at(s, 6, 6 + n, CharClass::Not('\''));
    assert(url_at(s, 0) == Some((6int, 6 + n)));
    assert(first_match(Flag::Url, s, 0) == Some((6int, 6 + n)));
    assert(s.subrange(6, 6 + n) =~= u);
}

/// The URL is exactly the text of the first `curl '…'` match's group, from
/// its first character to its last.
pub proof fn law_url_is_match_group(t: Seq<char>, a: int, b: int)
    requires
        first_match(Flag::Url, t, 0) == Some((a, b)),
    ensures
        url_text(t) == t.subrange(a, b),
{
}

/// A header flag's value is its whole quoted value, trimmed, whatever
/// characters it holds (`;`, `,`, `=` and the like included): the command
/// `-H 'N: V'`, with `N` not empty and free of `:`, and `V` not empty, free
/// of quotes and not starting with white space, has the one header `N`
/// (trimmed) with the value `V` (trimmed).
pub proof fn law_header_value_is_whole_group(n: Seq<char>, v: Seq<char>)
    requires
        n.len() > 0,
        forall|j: int| 0 <= j < n.len() ==> n[j] != ':',
        v.len() > 0,
        forall|j: int| 0 <= j < v.len() ==> v[j] != '\'',
        !is_white_space(v[0]),
    ensures
        header_entries("-H '"@ + n + ": "@ + v + "'"@) == seq![(trim(n), trim(v))],
{
    reveal_strlit("-H '");
    reveal_strlit(": ");
    reveal_strlit("'");
    let s = "-H '"@ + n + ": "@ + v + "'"@;
    let l = n.len() as int;
    let w = v.len() as int;
    assert(s.len() == 7 + l + w);
    assert(s[0] == '-' && s[1] == 'H' && s[2] == ' ' && s[3] == '\'');
    assert(s[4 + l] == ':' && s[5 + l] == ' ' && s[6 + l] == v[0]);
    assert(s[6 + l + w] == '\'');
    assert forall|j: int| 4 <= j < 4 + l implies in_class(CharClass::Not(':'), #[trigger] s[j]) by {
        assert(s[j] == n[j - 4]);
    }
    assert forall|j: int| 6 + l <= j < 6 + l + w implies in_class(
        CharClass::Not('\''),
        #[trigger] s[j],
    ) by {
        assert(s[j] == v[j - 6 - l]);
    }
    lemma_run_end_at(s, 2, 3, CharClass::Space);
    lemma_run_end_at(s, 4, 4 + l, CharClass::Not(':'));
    lemma_run_end_at(s, 5 + l, 6 + l, CharClass::Space);
    lemma_run_end_at(s, 6 + l, 6 + l + w, CharClass::Not('\''));
    let m = (4int, 4 + l, 6 + l, 6 + l + w, 7 + l + w);
    assert(header_at(s, 0) == Some(m));
    assert(header_matches_from(s, 7 + l + w) == Seq::<(int, int, int, int, int)>::empty());
    assert(header_matches(s) =~= seq![m]);
    assert(s.subrange(4, 4 + l) =~= n);
    assert(s.subrange(6 + l, 6 + l + w) =~= v);
    assert(header_pairs(s) =~= seq![(trim(n), trim(v))]);
    let e = Seq::<(Seq<char>, Seq<char>)>::empty();
    assert(!has_key(e, trim(n)));
    assert(seq![(trim(n), trim(v))].drop_last() =~= e);
    assert(e.push((trim(n), trim(v))) =~= seq![(trim(n), trim(v))]);
    let p = header_pairs(s);
    assert(p.drop_last() =~= e);
    assert(from_pairs(p.drop_last()) == e);
    assert(p.last() == (trim(n), trim(v)));
    assert(with_entry(e, trim(n), trim(v)) == seq![(trim(n), trim(v))]);
    assert(from_pairs(p) == with_entry(e, trim(n), trim(v)));
}

/// A request is sent with the method its text names, and with no other:
/// for every method text, GET is planned exactly for `"GET"`, POST exactly
/// for `"POST"`, PUT exactly for `"PUT"` and DELETE exactly for `"DELETE"`;
/// only POST and PUT carry a body.
pub proof fn law_method_text_names_the_method(m: Seq<char>)
    ensures
        http_method_of(m) == Some(HttpMethod::Get) <==> m == "GET"@,
        http_method_of(m) == Some(HttpMethod::Post) <==> m == "POST"@,
        http_method_of(m) == Some(HttpMethod::Put) <==> m == "PUT"@,
        http_method_of(m) == Some(HttpMethod::Delete) <==> m == "DELETE"@,
        sends_body(HttpMethod::Post) && sends_body(HttpMethod::Put),
        !sends_body(HttpMethod::Get) && !sends_body(HttpMethod::Delete),
{
    reveal_strlit("GET");
    reveal_strlit("POST");
    reveal_strlit("PUT");
    reveal_strlit("DELETE");
    assert("GET"@.len() == 3 && "POST"@.len() == 4 && "PUT"@.len() == 3 && "DELETE"@.len() == 6);
    assert("GET"@[0] == 'G' && "PUT"@[0] == 'P');
}

/// Saving writes the editor's URL into the file's `url` and its method into
/// `method`, with the body's JSON value as `payload`; loading takes the
/// editor's method from the file's `method` and its URL from `url`, makes
/// the body the pretty JSON of `payload` (or empty), and keeps the header
/// and cookie texts.
pub proof fn law_payload_file_fields(
    editor: RequestEditorState,
    saved: SavedPayload,
    file: SavedPayload,
    before: RequestEditorState,
    after: RequestEditorState,
)
    requires
        saved_from(editor, saved),
        loaded_from(before, file, after),
    ensures
        saved.url@ == editor.url@,
        saved.method@ == editor.method@,
        saved.payload == body_value(editor.body_text@),
        after.method@ == file.method@,
        after.url@ == file.url@,
        file.payload is None ==> after.body_text@ == Seq::<char>::empty(),
        file.payload matches Some(v) ==> after.body_text@ == pretty_value_text(v),
        after.headers_text@ == before.headers_text@,
        after.cookies_text@ == before.cookies_text@,
{
}

/// The value of a text of decimal digits, read in base 10.
pub open spec fn numeral_value(s: Seq<char>) -> int
    decreases s.len(),
{
    if s.len() == 0 {
        0
    } else {
        numeral_value(s.drop_last()) * 10 + (s.last() as int - '0' as int)
    }
}

/// The status text of a code is its decimal numeral: it is not empty, every
/// character is an ASCII digit, it has no leading zero (unless the code is
/// 0), and read in base 10 it gives the code back.
pub proof fn law_status_text_reads_back(n: nat)
    ensures
        decimal(n).len() > 0,
        forall|j: int| 0 <= j < decimal(n).len() ==> '0' <= #[trigger] decimal(n)[j] <= '9',
        n > 0 ==> decimal(n)[0] != '0',
        numeral_value(decimal(n)) == n,
    decreases n,
{
    assert((digit_char(n % 10) as int) == 48 + n % 10);
    assert('0' as int == 48);
    if n < 10 {
        assert(decimal(n).drop_last() =~= Seq::<char>::empty());
        assert(decimal(n).last() == digit_char(n));
        assert(numeral_value(Seq::<char>::empty()) == 0);
        assert(numeral_value(decimal(n)) == n);
    } else {
        law_status_text_reads_back(n / 10);
        let d = decimal(n / 10);
        assert(decimal(n) == d.push(digit_char(n % 10)));
        assert(decimal(n).drop_last() =~= d);
        assert forall|j: int| 0 <= j < decimal(n).len() implies '0' <= #[trigger] decimal(n)[j] <= '9' by {
            if j < d.len() {
                assert(decimal(n)[j] == d[j]);
            }
        }
        assert(decimal(n)[0] == d[0]);
        assert(n == (n / 10) * 10 + n % 10);
        assert(decimal(n).last() == digit_char(n % 10));
        assert(numeral_value(decimal(n)) == numeral_value(d) * 10 + (n % 10));
    }
}

/// A cookie flag's list is its whole quoted argument: the command
/// `-b 'L'`, with `L` not empty and free of quotes, has the cookies of the
/// items of `L`.
pub proof fn law_cookie_list_is_whole_group(l: Seq<char>)
    requires
        l.len() > 0,
        forall|j: int| 0 <= j < l.len() ==> l[j] != '\'',
    ensures
        cookie_entries("-b '"@ + l + "'"@) == from_pairs(cookie_pairs(l)),
{
    reveal_strlit("-b '");
    reveal_strlit("'");
    let s = "-b '"@ + l + "'"@;
    let n = l.len() as int;
    assert(s[0] == '-' && s[1] == 'b' && s[2] == ' ' && s[3] == '\'' && s[4 + n] == '\'');
    assert forall|j: int| 4 <= j < 4 + n implies in_class(CharClass::Not('\''), #[trigger] s[j]) by {
        assert(s[j] == l[j - 4]);
    }
    lemma_run_end_at(s, 2, 3, CharClass::Space);
    lemma_run_end_at(s, 4, 4 + n, CharClass::Not('\''));
    assert(first_match(Flag::Cookie, s, 0) == Some((4int, 4 + n)));
    assert(s.subrange(4, 4 + n) =~= l);
}

/// A cookie item is split at its first `=`: an item `N=V`, with `N` not
/// empty, free of `=` and without white space at either end, and `V` empty
/// or without white space at either end, is the cookie `N` with value `V`.
pub proof fn law_cookie_item_splits_at_first_equals(n: Seq<char>, v: Seq<char>)
    requires
        n.len() > 0,
        forall|j: int| 0 <= j < n.len() ==> n[j] != '=',
        !is_white_space(n[0]),
        !is_white_space(n.last()),
        v.len() > 0 ==> !is_white_space(v[0]) && !is_white_space(v.last()),
    ensures
        cookie_pair(n + seq!['='] + v) == (n, v),
{
    let p = n + seq!['='] + v;
    let l = n.len() as int;
    assert(p[0] == n[0]);
    if v.len() > 0 {
        assert(p.last() == v.last());
    } else {
        assert(p.last() == '=');
    }
    assert(trim_start(p) == p);
    assert(trim_end(p) == p);
    assert(trim(p) == p);
    assert forall|j: int| 0 <= j < l implies in_class(CharClass::Not('='), #[trigger] p[j]) by {
        assert(p[j] == n[j]);
    }
    assert(p[l] == '=');
    lemma_run_end_at(p, 0, l, CharClass::Not('='));
    assert(p.take(l) =~= n);
    assert(p.skip(l + 1) =~= v);
    assert(trim_start(n) == n);
    assert(trim_end(n) == n);
    if v.len() > 0 {
        assert(trim_start(v) == v);
        assert(trim_end(v) == v);
    } else {
        assert(trim(v) =~= v);
    }
}

/// A method flag's word is upper-cased whole: the command `-X W`, with `W`
/// a non-empty run of word characters not starting with white space, has
/// the method `W` upper-cased.
pub proof fn law_method_is_whole_word_upper_cased(w: Seq<char>)
    requires
        w.len() > 0,
        forall|j: int| 0 <= j < w.len() ==> is_word_char(w[j]),
        !is_white_space(w[0]),
    ensures
        method_text("-X "@ + w) == unicode_upper(w),
{
    reveal_strlit("-X ");
    let s = "-X "@ + w;
    let n = w.len() as int;
    assert(s[0] == '-' && s[1] == 'X' && s[2] == ' ' && s[3] == w[0]);
    assert forall|j: int| 3 <= j < 3 + n implies in_class(CharClass::Word, #[trigger] s[j]) by {
        assert(s[j] == w[j - 3]);
    }
    lemma_run_end_at(s, 2, 3, CharClass::Space);
    lemma_run_end_at(s, 3, 3 + n, CharClass::Word);
    assert(last_word_start(s, 3, 3) == Some(3int));
    assert(method_at(s, 0) == Some((3int, 3 + n)));
    assert(first_match(Flag::Method, s, 0) == Some((3int, 3 + n)));
    assert(s.subrange(3, 3 + n) =~= w);
}

/// A data flag's argument is its whole quoted argument: the command
/// `--data 'T'`, with `T` not empty and free of quotes, carries `T`, and
/// its payload is the JSON value of `T` when `T` is valid JSON.
pub proof fn law_data_argument_is_whole_group(t: Seq<char>)
    requires
        t.len() > 0,
        forall|j: int| 0 <= j < t.len() ==> t[j] != '\'',
    ensures
        data_text("--data '"@ + t + "'"@) == Some(t),
        payload_value("--data '"@ + t + "'"@) == (if json_text_valid(t) {
            Some(parsed_json(t))
        } else {
            None
        }),
{
    reveal_strlit("--data '");
    reveal_strlit("'");
    let s = "--data '"@ + t + "'"@;
    let n = t.len() as int;
    assert(s[0] == '-' && s[1] == '-' && s[2] == 'd' && s[3] == 'a' && s[4] == 't' && s[5] == 'a');
    assert(s[6] == ' ' && s[7] == '\'' && s[8 + n] == '\'');
    assert forall|j: int| 8 <= j < 8 + n implies in_class(CharClass::Not('\''), #[trigger] s[j]) by {
        assert(s[j] == t[j - 8]);
    }
    lemma_run_end_at(s, 6, 7, CharClass::Space);
    lemma_run_end_at(s, 8, 8 + n, CharClass::Not('\''));
    assert(!raw_suffix_at(s, 6));
    assert(!binary_suffix_at(s, 6));
    assert(data_at(s, 0) == Some((8int, 8 + n)));
    assert(first_match(Flag::Data, s, 0) == Some((8int, 8 + n)));
    assert(s.subrange(8, 8 + n) =~= t);
}

} // verus!
