//! The flags of the curl import format, matched the way a leftmost-first
//! backtracking regular-expression search matches them:
//!
//! * method: `-X\s+(\w+)`
//! * url: `curl\s+'([^']+)'`
//! * header: `-H\s+'([^:]+):\s*([^']+)'` (every non-overlapping match)
//! * cookie: `-b\s+'([^']+)'`
//! * data: `--data(?:-raw|-binary)?\s+'([^']+)'`
//!
//! Positions are character indices into the text; a match's groups are
//! given by their `[start, end)` bounds.
use vstd::prelude::*;
use crate::text::{is_white_space, white_space};
use crate::word_class::{is_word_char, word_char};

verus! {

/// A class of characters that a run may consist of.
pub enum CharClass {
    /// `\s`
    Space,
    /// `\w`
    Word,
    /// `[^c]`
    Not(char),
}

pub open spec fn in_class(k: CharClass, c: char) -> bool {
    match k {
        CharClass::Space => is_white_space(c),
        CharClass::Word => is_word_char(c),
        CharClass::Not(x) => c != x,
    }
}

/// Whether `c` belongs to class `k`.
pub fn class_test(k: &CharClass, c: char) -> (b: bool)
    ensures
        b == in_class(*k, c),
{
    match k {
        CharClass::Space => white_space(c),
        CharClass::Word => word_char(c),
        CharClass::Not(x) => c != *x,
    }
}

/// The end of the longest run of class-`k` characters of `s` starting at
/// `i` (a greedy `k*` from `i`).
pub open spec fn run_end(s: Seq<char>, i: int, k: CharClass) -> int
    decreases s.len() - i,
{
    if 0 <= i < s.len() && in_class(k, s[i]) {
        run_end(s, i + 1, k)
    } else {
        i
    }
}

/// A run ends no earlier than it starts and no later than the text, holds
/// only class members, and is followed by a non-member or the end.
pub proof fn lemma_run_end(s: Seq<char>, i: int, k: CharClass)
    requires
        0 <= i <= s.len(),
    ensures
        i <= run_end(s, i, k) <= s.len(),
        forall|j: int| i <= j < run_end(s, i, k) ==> in_class(k, #[trigger] s[j]),
        run_end(s, i, k) < s.len() ==> !in_class(k, s[run_end(s, i, k)]),
    decreases s.len() - i,
{
    if i < s.len() && in_class(k, s[i]) {
        lemma_run_end(s, i + 1, k);
    }
}

/// A run of members from `i` to `m` followed by a non-member or the end
/// is the run that starts at `i`.
pub proof fn lemma_run_end_at(s: Seq<char>, i: int, m: int, k: CharClass)
    requires
        0 <= i <= m <= s.len(),
        forall|j: int| i <= j < m ==> in_class(k, #[trigger] s[j]),
        m == s.len() || !in_class(k, s[m]),
    ensures
        run_end(s, i, k) == m,
    decreases m - i,
{
    if i < m {
        lemma_run_end_at(s, i + 1, m, k);
    }
}

/// The end of the run of class-`k` characters of `v` starting at `i`.
pub fn scan_run(v: &Vec<char>, i: usize, k: &CharClass) -> (r: usize)
    requires
        i <= v.len(),
    ensures
        r as int == run_end(v@, i as int, *k),
        i <= r <= v.len(),
{
    let mut j = i;
    while j < v.len() && class_test(k, v[j])
        invariant
            i <= j <= v.len(),
            run_end(v@, i as int, *k) == run_end(v@, j as int, *k),
        decreases v.len() - j,
    {
        j = j + 1;
    }
    j
}

/// `s[i] == c`, with `i` inside the text.
pub open spec fn char_at(s: Seq<char>, i: int, c: char) -> bool {
    0 <= i < s.len() && s[i] == c
}

/// `\s+'([^']+)'` at `p`: the bounds of the quoted group.
pub open spec fn quoted_after_space(s: Seq<char>, p: int) -> Option<(int, int)> {
    let k = run_end(s, p, CharClass::Space);
    let e = run_end(s, k + 1, CharClass::Not('\''));
    if k > p && char_at(s, k, '\'') && e > k + 1 && char_at(s, e, '\'') {
        Some((k + 1, e))
    } else {
        None
    }
}

/// The greatest `j` with `lo <= j <= hi` where `s[j]` is a word character.
pub open spec fn last_word_start(s: Seq<char>, lo: int, hi: int) -> Option<int>
    decreases hi + 1 - lo,
{
    if hi < lo {
        None
    } else if 0 <= hi < s.len() && is_word_char(s[hi]) {
        Some(hi)
    } else {
        last_word_start(s, lo, hi - 1)
    }
}

/// `-X\s+(\w+)` at `i`.  The greedy `\s+` backs off until a word character
/// follows it; the group is then the longest word run there.
pub open spec fn method_at(s: Seq<char>, i: int) -> Option<(int, int)> {
    if char_at(s, i, '-') && char_at(s, i + 1, 'X') {
        match last_word_start(s, i + 3, run_end(s, i + 2, CharClass::Space)) {
            Some(j) => Some((j, run_end(s, j, CharClass::Word))),
            None => None,
        }
    } else {
        None
    }
}

/// `curl\s+'([^']+)'` at `i`.
pub open spec fn url_at(s: Seq<char>, i: int) -> Option<(int, int)> {
    if char_at(s, i, 'c') && char_at(s, i + 1, 'u') && char_at(s, i + 2, 'r') && char_at(
        s,
        i + 3,
        'l',
    ) {
        quoted_after_space(s, i + 4)
    } else {
        None
    }
}

/// `-b\s+'([^']+)'` at `i`.
pub open spec fn cookie_at(s: Seq<char>, i: int) -> Option<(int, int)> {
    if char_at(s, i, '-') && char_at(s, i + 1, 'b') {
        quoted_after_space(s, i + 2)
    } else {
        None
    }
}

/// `-raw` at `p`.
pub open spec fn raw_suffix_at(s: Seq<char>, p: int) -> bool {
    char_at(s, p, '-') && char_at(s, p + 1, 'r') && char_at(s, p + 2, 'a') && char_at(
        s,
        p + 3,
        'w',
    )
}

/// `-binary` at `p`.
pub open spec fn binary_suffix_at(s: Seq<char>, p: int) -> bool {
    &&& char_at(s, p, '-')
    &&& char_at(s, p + 1, 'b')
    &&& char_at(s, p + 2, 'i')
    &&& char_at(s, p + 3, 'n')
    &&& char_at(s, p + 4, 'a')
    &&& char_at(s, p + 5, 'r')
    &&& char_at(s, p + 6, 'y')
}

/// `--data` at `i`.
pub open spec fn data_flag_at(s: Seq<char>, i: int) -> bool {
    &&& char_at(s, i, '-')
    &&& char_at(s, i + 1, '-')
    &&& char_at(s, i + 2, 'd')
    &&& char_at(s, i + 3, 'a')
    &&& char_at(s, i + 4, 't')
    &&& char_at(s, i + 5, 'a')
}

/// `--data(?:-raw|-binary)?\s+'([^']+)'` at `i`: the optional suffix is
/// tried first, `-raw` before `-binary`, then left out.
pub open spec fn data_at(s: Seq<char>, i: int) -> Option<(int, int)> {
    if data_flag_at(s, i) {
        if raw_suffix_at(s, i + 6) && quoted_after_space(s, i + 10) is Some {
            quoted_after_space(s, i + 10)
        } else if binary_suffix_at(s, i + 6) && quoted_after_space(s, i + 13) is Some {
            quoted_after_space(s, i + 13)
        } else {
            quoted_after_space(s, i + 6)
        }
    } else {
        None
    }
}

/// The single-group flags.
pub enum Flag {
    Method,
    Url,
    Cookie,
    Data,
}

/// The match of `f` that starts at `i`.
pub open spec fn flag_at(f: Flag, s: Seq<char>, i: int) -> Option<(int, int)> {
    match f {
        Flag::Method => method_at(s, i),
        Flag::Url => url_at(s, i),
        Flag::Cookie => cookie_at(s, i),
        Flag::Data => data_at(s, i),
    }
}

/// The leftmost match of `f` that starts at `p` or later.
pub open spec fn first_match(f: Flag, s: Seq<char>, p: int) -> Option<(int, int)>
    decreases s.len() + 1 - p,
{
    if p < 0 || p > s.len() {
        None
    } else if flag_at(f, s, p) is Some {
        flag_at(f, s, p)
    } else {
        first_match(f, s, p + 1)
    }
}

/// `-H\s+'([^:]+):\s*([^']+)'` at `i`: the bounds of the name group, of the
/// value group, and the end of the match.  When the value would be empty
/// the greedy `\s*` gives back its last character to the value.
pub open spec fn header_at(s: Seq<char>, i: int) -> Option<(int, int, int, int, int)> {
    if char_at(s, i, '-') && char_at(s, i + 1, 'H') {
        let k = run_end(s, i + 2, CharClass::Space);
        let a = run_end(s, k + 1, CharClass::Not(':'));
        let b = run_end(s, a + 1, CharClass::Space);
        let c = run_end(s, b, CharClass::Not('\''));
        if k > i + 2 && char_at(s, k, '\'') && a > k + 1 && char_at(s, a, ':') && char_at(
            s,
            c,
            '\'',
        ) {
            if c > b {
                Some((k + 1, a, b, c, c + 1))
            } else if b > a + 1 {
                Some((k + 1, a, b - 1, b, c + 1))
            } else {
                None
            }
        } else {
            None
        }
    } else {
        None
    }
}

/// The successive non-overlapping header matches at or after `p`: each
/// search resumes where the previous match ended.
pub open spec fn header_matches_from(s: Seq<char>, p: int) -> Seq<(int, int, int, int, int)>
    decreases s.len() - p,
{
    if p < 0 || p >= s.len() {
        Seq::empty()
    } else {
        match header_at(s, p) {
            Some(m) => if p < m.4 <= s.len() {
                seq![m] + header_matches_from(s, m.4)
            } else {
                Seq::empty()
            },
            None => header_matches_from(s, p + 1),
        }
    }
}

/// All header matches of `s`.
pub open spec fn header_matches(s: Seq<char>) -> Seq<(int, int, int, int, int)> {
    header_matches_from(s, 0)
}

fn quoted_after_space_exec(v: &Vec<char>, p: usize) -> (r: Option<(usize, usize)>)
    requires
        p <= v.len(),
    ensures
        match r {
            Some((a, b)) => quoted_after_space(v@, p as int) == Some((a as int, b as int)) && a
                <= b <= v.len(),
            None => quoted_after_space(v@, p as int) is None,
        },
{
    let k = scan_run(v, p, &CharClass::Space);
    if k > p && k < v.len() && v[k] == '\'' {
        let e = scan_run(v, k + 1, &CharClass::Not('\''));
        if e > k + 1 && e < v.len() && v[e] == '\'' {
            return Some((k + 1, e));
        }
    }
    None
}

fn last_word_start_exec(v: &Vec<char>, after: usize, hi: usize) -> (r: Option<usize>)
    requires
        after <= hi <= v.len(),
    ensures
        match r {
            Some(j) => last_word_start(v@, after + 1, hi as int) == Some(j as int) && j
                < v.len(),
            None => last_word_start(v@, after + 1, hi as int) is None,
        },
{
    let mut j = hi;
    while j > after
        invariant
            after <= j <= hi <= v.len(),
            last_word_start(v@, after + 1, hi as int) == last_word_start(
                v@,
                after + 1,
                j as int,
            ),
        decreases j,
    {
        if j < v.len() && word_char(v[j]) {
            return Some(j);
        }
        j = j - 1;
    }
    None
}

fn flag_at_exec(f: &Flag, v: &Vec<char>, i: usize) -> (r: Option<(usize, usize)>)
    requires
        i <= v.len(),
    ensures
        match r {
            Some((a, b)) => flag_at(*f, v@, i as int) == Some((a as int, b as int)) && a <= b
                <= v.len(),
            None => flag_at(*f, v@, i as int) is None,
        },
{
    let n = v.len();
    match f {
        Flag::Method => {
            if n - i > 1 && v[i] == '-' && v[i + 1] == 'X' {
                let k = scan_run(v, i + 2, &CharClass::Space);
                match last_word_start_exec(v, i + 2, k) {
                    Some(j) => {
                        let e = scan_run(v, j, &CharClass::Word);
                        Some((j, e))
                    },
                    None => None,
                }
            } else {
                None
            }
        },
        Flag::Url => {
            if n - i > 3 && v[i] == 'c' && v[i + 1] == 'u' && v[i + 2] == 'r' && v[i + 3] == 'l' {
                quoted_after_space_exec(v, i + 4)
            } else {
                None
            }
        },
        Flag::Cookie => {
            if n - i > 1 && v[i] == '-' && v[i + 1] == 'b' {
                quoted_after_space_exec(v, i + 2)
            } else {
                None
            }
        },
        Flag::Data => {
            if n - i > 5 && v[i] == '-' && v[i + 1] == '-' && v[i + 2] == 'd' && v[i + 3] == 'a'
                && v[i + 4] == 't' && v[i + 5] == 'a' {
                let p = i + 6;
                if n - p > 3 && v[p] == '-' && v[p + 1] == 'r' && v[p + 2] == 'a' && v[p + 3]
                    == 'w' {
                    let r = quoted_after_space_exec(v, p + 4);
                    if r.is_some() {
                        return r;
                    }
                }
                if n - p > 6 && v[p] == '-' && v[p + 1] == 'b' && v[p + 2] == 'i' && v[p + 3]
                    == 'n' && v[p + 4] == 'a' && v[p + 5] == 'r' && v[p + 6] == 'y' {
                    let r = quoted_after_space_exec(v, p + 7);
                    if r.is_some() {
                        return r;
                    }
                }
                quoted_after_space_exec(v, p)
            } else {
                None
            }
        },
    }
}

/// The leftmost match of flag `f` in `v`.
pub fn find_first(f: &Flag, v: &Vec<char>) -> (r: Option<(usize, usize)>)
    ensures
        match r {
            Some((a, b)) => first_match(*f, v@, 0) == Some((a as int, b as int)) && a <= b
                <= v.len(),
            None => first_match(*f, v@, 0) is None,
        },
{
    let n = v.len();
    let mut i: usize = 0;
    while i < n
        invariant
            n == v.len(),
            i <= n,
            first_match(*f, v@, 0) == first_match(*f, v@, i as int),
        decreases n - i,
    {
        let r = flag_at_exec(f, v, i);
        if r.is_some() {
            return r;
        }
        i = i + 1;
    }
    let r = flag_at_exec(f, v, n);
    proof {
        assert(first_match(*f, v@, n as int + 1) is None);
        if r.is_some() {
            assert(first_match(*f, v@, n as int) == flag_at(*f, v@, n as int));
        }
    }
    r
}

/// The header match that starts at `i`, if any.
pub fn header_at_exec(v: &Vec<char>, i: usize) -> (r: Option<(usize, usize, usize, usize, usize)>)
    requires
        i <= v.len(),
    ensures
        match r {
            Some((a, b, c, d, e)) => header_at(v@, i as int) == Some(
                (a as int, b as int, c as int, d as int, e as int),
            ) && a <= b <= v.len() && c <= d <= v.len() && i < e <= v.len(),
            None => header_at(v@, i as int) is None,
        },
{
    let n = v.len();
    if n - i > 1 && v[i] == '-' && v[i + 1] == 'H' {
        let k = scan_run(v, i + 2, &CharClass::Space);
        if k > i + 2 && k < n && v[k] == '\'' {
            let a = scan_run(v, k + 1, &CharClass::Not(':'));
            if a > k + 1 && a < n && v[a] == ':' {
                let b = scan_run(v, a + 1, &CharClass::Space);
                let c = scan_run(v, b, &CharClass::Not('\''));
                if c < n && v[c] == '\'' {
                    if c > b {
                        return Some((k + 1, a, b, c, c + 1));
                    } else if b > a + 1 {
                        return Some((k + 1, a, b - 1, b, c + 1));
                    }
                }
            }
        }
    }
    None
}

} // verus!
