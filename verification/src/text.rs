//! Character-level text handling: Unicode white space, trimming, line
//! splitting and the whitespace normalisation of pasted curl commands.
use vstd::prelude::*;
use vstd::string::StrSliceExecFns;
use vstd::string::StringExecFns;

verus! {

/// The Unicode `White_Space` property: the characters that `str::trim`
/// removes and that the pattern class `\s` matches.
pub open spec fn is_white_space(c: char) -> bool {
    ||| ('\u{9}' <= c && c <= '\u{d}')
    ||| c == ' '
    ||| c == '\u{85}'
    ||| c == '\u{a0}'
    ||| c == '\u{1680}'
    ||| ('\u{2000}' <= c && c <= '\u{200a}')
    ||| c == '\u{2028}'
    ||| c == '\u{2029}'
    ||| c == '\u{202f}'
    ||| c == '\u{205f}'
    ||| c == '\u{3000}'
}

/// Executable test for `is_white_space`.
pub fn white_space(c: char) -> (b: bool)
    ensures
        b == is_white_space(c),
{
    ('\u{9}' <= c && c <= '\u{d}') || c == ' ' || c == '\u{85}' || c == '\u{a0}' || c == '\u{1680}'
        || ('\u{2000}' <= c && c <= '\u{200a}') || c == '\u{2028}' || c == '\u{2029}' || c
        == '\u{202f}' || c == '\u{205f}' || c == '\u{3000}'
}

/// `s` with its leading white space removed.
pub open spec fn trim_start(s: Seq<char>) -> Seq<char>
    decreases s.len(),
{
    if s.len() > 0 && is_white_space(s[0]) {
        trim_start(s.drop_first())
    } else {
        s
    }
}

/// `s` with its trailing white space removed.
pub open spec fn trim_end(s: Seq<char>) -> Seq<char>
    decreases s.len(),
{
    if s.len() > 0 && is_white_space(s.last()) {
        trim_end(s.drop_last())
    } else {
        s
    }
}

/// `s` with leading and trailing white space removed (`str::trim`).
pub open spec fn trim(s: Seq<char>) -> Seq<char> {
    trim_end(trim_start(s))
}

/// The pieces of `s` between occurrences of `sep` (`str::split` with a
/// character): always at least one piece, empty pieces included.
pub open spec fn split_on(s: Seq<char>, sep: char) -> Seq<Seq<char>>
    decreases s.len(),
{
    if s.len() == 0 {
        seq![Seq::<char>::empty()]
    } else {
        let pieces = split_on(s.drop_last(), sep);
        if s.last() == sep {
            pieces.push(Seq::<char>::empty())
        } else {
            pieces.update(pieces.len() - 1, pieces.last().push(s.last()))
        }
    }
}

/// The lines of `s` (`str::lines`): the pieces between newlines, where a
/// final empty piece (after a trailing newline, or of the empty text) is
/// not a line.  A carriage return before a newline belongs to the line
/// here; every line is trimmed before use, which removes it as `lines`
/// would.
pub open spec fn lines(s: Seq<char>) -> Seq<Seq<char>> {
    let pieces = split_on(s, '\n');
    if pieces.last().len() == 0 {
        pieces.drop_last()
    } else {
        pieces
    }
}

/// The parts joined with one space between neighbours.
pub open spec fn join_spaced(parts: Seq<Seq<char>>) -> Seq<char>
    decreases parts.len(),
{
    if parts.len() == 0 {
        Seq::<char>::empty()
    } else if parts.len() == 1 {
        parts[0]
    } else {
        join_spaced(parts.drop_last()) + seq![' '] + parts.last()
    }
}

/// A multi-line command folded onto one line: every line trimmed, the lines
/// joined with single spaces.
pub open spec fn normalized(s: Seq<char>) -> Seq<char> {
    join_spaced(lines(s).map_values(|l: Seq<char>| trim(l)))
}

/// `split_on` always yields at least one piece.
pub proof fn lemma_split_on_nonempty(s: Seq<char>, sep: char)
    ensures
        split_on(s, sep).len() >= 1,
    decreases s.len(),
{
    if s.len() > 0 {
        lemma_split_on_nonempty(s.drop_last(), sep);
    }
}

/// A text without the separator is one piece.
pub proof fn lemma_split_on_single(s: Seq<char>, sep: char)
    requires
        forall|j: int| 0 <= j < s.len() ==> s[j] != sep,
    ensures
        split_on(s, sep) == seq![s],
    decreases s.len(),
{
    if s.len() > 0 {
        assert forall|j: int| 0 <= j < s.drop_last().len() implies s.drop_last()[j] != sep by {
            assert(s.drop_last()[j] == s[j]);
        }
        lemma_split_on_single(s.drop_last(), sep);
        assert(s.last() == s[s.len() - 1]);
        assert(s.drop_last().push(s.last()) =~= s);
        assert(split_on(s, sep) =~= seq![s]);
    } else {
        assert(s =~= Seq::<char>::empty());
    }
}

/// No piece of `split_on(s, sep)` holds the separator.
pub proof fn lemma_split_on_pieces_free(s: Seq<char>, sep: char)
    ensures
        forall|i: int, j: int|
            0 <= i < split_on(s, sep).len() && 0 <= j < split_on(s, sep)[i].len()
                ==> split_on(s, sep)[i][j] != sep,
    decreases s.len(),
{
    lemma_split_on_nonempty(s, sep);
    if s.len() > 0 {
        lemma_split_on_pieces_free(s.drop_last(), sep);
        lemma_split_on_nonempty(s.drop_last(), sep);
    }
}

proof fn lemma_join_push(parts: Seq<Seq<char>>, x: Seq<char>)
    ensures
        join_spaced(parts.push(x)) == if parts.len() == 0 {
            x
        } else {
            join_spaced(parts) + seq![' '] + x
        },
{
    assert(parts.push(x).drop_last() =~= parts);
}

proof fn lemma_split_step(s: Seq<char>, i: int, sep: char)
    requires
        0 <= i < s.len(),
    ensures
        split_on(s.take(i + 1), sep) == if s[i] == sep {
            split_on(s.take(i), sep).push(Seq::<char>::empty())
        } else {
            split_on(s.take(i), sep).update(
                split_on(s.take(i), sep).len() - 1,
                split_on(s.take(i), sep).last().push(s[i]),
            )
        },
{
    assert(s.take(i + 1).drop_last() =~= s.take(i));
}

/// The characters of `s`, in order.
pub fn chars_of(s: &str) -> (v: Vec<char>)
    ensures
        v@ == s@,
{
    let mut v: Vec<char> = Vec::new();
    for c in it: s.chars()
        invariant
            v@ == it.seq().take(it.index() as int),
            it.seq() == s@,
    {
        v.push(c);
    }
    v
}

/// The bounds, inside `[a, b)`, of that range of `v` with white space
/// trimmed from both ends.
pub fn trim_range(v: &Vec<char>, a: usize, b: usize) -> (r: (usize, usize))
    requires
        a <= b <= v.len(),
    ensures
        a <= r.0 <= r.1 <= b,
        v@.subrange(r.0 as int, r.1 as int) == trim(v@.subrange(a as int, b as int)),
{
    let mut i = a;
    while i < b && white_space(v[i])
        invariant
            a <= i <= b <= v.len(),
            trim_start(v@.subrange(a as int, b as int)) == trim_start(
                v@.subrange(i as int, b as int),
            ),
        decreases b - i,
    {
        assert(v@.subrange(i as int, b as int).drop_first() =~= v@.subrange(
            i + 1,
            b as int,
        ));
        i = i + 1;
    }
    let mut j = b;
    while j > i && white_space(v[j - 1])
        invariant
            a <= i <= j <= b <= v.len(),
            i < b ==> !is_white_space(v@[i as int]),
            trim_start(v@.subrange(a as int, b as int)) == v@.subrange(i as int, b as int),
            trim_end(v@.subrange(i as int, b as int)) == trim_end(
                v@.subrange(i as int, j as int),
            ),
        decreases j - i,
    {
        assert(v@.subrange(i as int, j as int).drop_last() =~= v@.subrange(
            i as int,
            j - 1,
        ));
        j = j - 1;
    }
    (i, j)
}

/// The command text folded onto one line: each line of `input` trimmed and
/// the lines joined with single spaces.
pub fn normalize(input: &str) -> (res: String)
    ensures
        res@ == normalized(input@),
{
    let v = chars_of(input);
    let n = v.len();
    let mut out = String::new();
    let mut line_start: usize = 0;
    let mut first = true;
    let ghost trim_fn = |l: Seq<char>| trim(l);
    proof {
        assert(v@.take(0) =~= Seq::<char>::empty());
        assert(v@.subrange(0, 0) =~= Seq::<char>::empty());
    }
    for i in 0..n
        invariant
            n == v.len(),
            v@ == input@,
            line_start <= i,
            split_on(v@.take(i as int), '\n').len() >= 1,
            split_on(v@.take(i as int), '\n').last() == v@.subrange(line_start as int, i as int),
            out@ == join_spaced(
                split_on(v@.take(i as int), '\n').drop_last().map_values(trim_fn),
            ),
            first == (split_on(v@.take(i as int), '\n').len() == 1),
            trim_fn == (|l: Seq<char>| trim(l)),
    {
        let ghost pieces = split_on(v@.take(i as int), '\n');
        proof {
            lemma_split_step(v@, i as int, '\n');
        }
        if v[i] == '\n' {
            let (a, b) = trim_range(&v, line_start, i);
            proof {
                assert(pieces.map_values(trim_fn).drop_last() =~= pieces.drop_last().map_values(
                    trim_fn,
                ));
                assert(pieces.drop_last().map_values(trim_fn).push(trim(pieces.last()))
                    =~= pieces.map_values(trim_fn));
                lemma_join_push(pieces.drop_last().map_values(trim_fn), trim(pieces.last()));
                assert(pieces.push(Seq::<char>::empty()).drop_last() =~= pieces);
                assert(v@.subrange(i + 1, i + 1) =~= Seq::<char>::empty());
            }
            if !first {
                out.append(" ");
                proof {
                    reveal_strlit(" ");
                }
            }
            out.append(input.substring_char(a, b));
            line_start = i + 1;
            first = false;
        } else {
            proof {
                let upd = pieces.update(pieces.len() - 1, pieces.last().push(v@[i as int]));
                assert(upd.drop_last() =~= pieces.drop_last());
                assert(v@.subrange(line_start as int, i + 1) =~= v@.subrange(
                    line_start as int,
                    i as int,
                ).push(v@[i as int]));
            }
        }
    }
    proof {
        assert(v@.take(n as int) =~= v@);
    }
    let ghost pieces = split_on(v@, '\n');
    if line_start < n {
        let (a, b) = trim_range(&v, line_start, n);
        proof {
            assert(pieces.drop_last().map_values(trim_fn).push(trim(pieces.last()))
                =~= pieces.map_values(trim_fn));
            lemma_join_push(pieces.drop_last().map_values(trim_fn), trim(pieces.last()));
        }
        if !first {
            out.append(" ");
            proof {
                reveal_strlit(" ");
            }
        }
        out.append(input.substring_char(a, b));
    }
    out
}

} // verus!
verus! {

/// `s` with leading and trailing white space removed.
pub fn trim_text(s: &str) -> (r: String)
    ensures
        r@ == trim(s@),
{
    let v = chars_of(s);
    let (a, b) = trim_range(&v, 0, v.len());
    proof {
        assert(v@.subrange(0, v@.len() as int) =~= v@);
    }
    s.substring_char(a, b).to_owned()
}

/// `s` with every tab replaced by four spaces.
pub open spec fn tabs_expanded(s: Seq<char>) -> Seq<char>
    decreases s.len(),
{
    if s.len() == 0 {
        Seq::empty()
    } else {
        tabs_expanded(s.drop_last()) + if s.last() == '\t' {
            "    "@
        } else {
            seq![s.last()]
        }
    }
}

/// `s` with every tab replaced by four spaces.
pub fn expand_tabs(s: &str) -> (r: String)
    ensures
        r@ == tabs_expanded(s@),
{
    let v = chars_of(s);
    let mut r = String::new();
    let mut i: usize = 0;
    while i < v.len()
        invariant
            i <= v.len(),
            v@ == s@,
            r@ == tabs_expanded(v@.take(i as int)),
        decreases v.len() - i,
    {
        proof {
            assert(v@.take(i + 1).drop_last() =~= v@.take(i as int));
        }
        if v[i] == '\t' {
            r.append("    ");
        } else {
            let one = s.substring_char(i, i + 1);
            proof {
                assert(one@ =~= seq![v@[i as int]]);
            }
            r.append(one);
        }
        i = i + 1;
    }
    proof {
        assert(v@.take(i as int) =~= v@);
    }
    r
}

} // verus!
