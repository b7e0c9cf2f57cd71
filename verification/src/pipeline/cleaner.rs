//! Text cleaning stage: strips filler words and tidies the transcription.
//!
//! Cleaning runs in five steps: every filler pattern is removed (a
//! case-insensitive regular expression each, compiled once by
//! [`compile_patterns`]), then runs of punctuation marks orphaned by a removed
//! filler collapse to their first mark, whitespace collapses to single spaces,
//! dangling punctuation at either end is dropped, and the first letter is
//! capitalized.

use vstd::prelude::*;

use crate::domain::models::{CleanText, TranscribedText};

use crate::utils::text::{
    char_to_uppercase, char_uppercase, chars_of, is_whitespace, is_whitespace_spec,
    string_from_chars,
};

verus! {

// ----- Collapsing runs of punctuation marks -----

/// The marks a removed filler can leave behind in a run.
pub open spec fn is_mark(c: char) -> bool {
    c == ',' || c == ';' || c == ':'
}

fn is_mark_char(c: char) -> (b: bool)
    ensures
        b == is_mark(c),
{
    c == ',' || c == ';' || c == ':'
}

/// How many whitespace characters `s` starts with.
pub open spec fn leading_whitespace(s: Seq<char>) -> nat
    decreases s.len(),
{
    if s.len() > 0 && is_whitespace_spec(s[0]) {
        1 + leading_whitespace(s.drop_first())
    } else {
        0
    }
}

/// Length of the longest prefix of `s` made of repetitions of "whitespace, then
/// a mark" (the tail of a punctuation run whose first mark was just before
/// `s`).
pub open spec fn mark_run_tail(s: Seq<char>) -> nat
    decreases s.len(),
{
    let w = leading_whitespace(s);
    if w < s.len() && is_mark(s[w as int]) {
        w + 1 + mark_run_tail(s.skip(w + 1 as int))
    } else {
        0
    }
}

pub proof fn lemma_leading_whitespace_bound(s: Seq<char>)
    ensures
        leading_whitespace(s) <= s.len(),
    decreases s.len(),
{
    if s.len() > 0 && is_whitespace_spec(s[0]) {
        lemma_leading_whitespace_bound(s.drop_first());
    }
}

pub proof fn lemma_mark_run_tail_bound(s: Seq<char>)
    ensures
        mark_run_tail(s) <= s.len(),
    decreases s.len(),
{
    let w = leading_whitespace(s);
    if w < s.len() && is_mark(s[w as int]) {
        lemma_mark_run_tail_bound(s.skip(w + 1 as int));
    }
}

/// Every run of two or more marks separated only by whitespace (e.g. ", ,"
/// left behind when "hola, eh, quiero" loses its "eh") collapses to its first
/// mark; everything else is kept. This is the effect of replacing every match
/// of `([,;:])(?:\s*[,;:])+` with its first group, scanning left to right.
pub open spec fn collapse_punctuation_spec(s: Seq<char>) -> Seq<char>
    decreases s.len(),
{
    if s.len() == 0 {
        s
    } else if is_mark(s[0]) {
        let t = mark_run_tail(s.drop_first());
        proof {
            lemma_mark_run_tail_bound(s.drop_first());
        }
        seq![s[0]] + collapse_punctuation_spec(s.skip(1 + t as int))
    } else {
        seq![s[0]] + collapse_punctuation_spec(s.drop_first())
    }
}

/// Collapses each run of punctuation marks separated only by whitespace to its
/// first mark (see [`collapse_punctuation_spec`]).
pub fn collapse_repeated_punctuation(s: &str) -> (out: String)
    ensures
        out@ == collapse_punctuation_spec(s@),
{
    let cs = chars_of(s);
    let n = cs.len();
    let mut out: Vec<char> = Vec::new();
    let mut i: usize = 0;
    assert(cs@.skip(0) =~= cs@);
    assert(out@ + collapse_punctuation_spec(cs@) =~= collapse_punctuation_spec(cs@));
    while i < n
        invariant
            n == cs@.len(),
            i <= n,
            out@ + collapse_punctuation_spec(cs@.skip(i as int)) == collapse_punctuation_spec(cs@),
        decreases n - i,
    {
        let c = cs[i];
        let ghost rest = cs@.skip(i as int);
        assert(rest[0] == c);
        assert(rest.drop_first() =~= cs@.skip(i + 1));
        out.push(c);
        if is_mark_char(c) {
            let mut j: usize = i + 1;
            loop
                invariant
                    n == cs@.len(),
                    i + 1 <= j <= n,
                    mark_run_tail(cs@.skip(i + 1)) == (j - (i + 1)) + mark_run_tail(
                        cs@.skip(j as int),
                    ),
                ensures
                    i + 1 <= j <= n,
                    mark_run_tail(cs@.skip(i + 1)) == j - (i + 1),
                decreases n - j,
            {
                let mut k: usize = j;
                while k < n && is_whitespace(cs[k])
                    invariant
                        n == cs@.len(),
                        j <= k <= n,
                        leading_whitespace(cs@.skip(j as int)) == (k - j) + leading_whitespace(
                            cs@.skip(k as int),
                        ),
                    decreases n - k,
                {
                    assert(cs@.skip(k as int).drop_first() =~= cs@.skip(k + 1));
                    k = k + 1;
                }
                assert(leading_whitespace(cs@.skip(k as int)) == 0);
                let ghost t = cs@.skip(j as int);
                assert(leading_whitespace(t) == k - j);
                if k < n && is_mark_char(cs[k]) {
                    assert(t[k - j] == cs@[k as int]);
                    assert(t.skip(k - j + 1) =~= cs@.skip(k + 1));
                    j = k + 1;
                } else {
                    assert(mark_run_tail(t) == 0);
                    break;
                }
            }
            assert(cs@.skip(i as int).skip(1 + (j - (i + 1))) =~= cs@.skip(j as int));
            i = j;
        } else {
            i = i + 1;
        }
        proof {
            assert(out@ + collapse_punctuation_spec(cs@.skip(i as int)) =~= collapse_punctuation_spec(
                cs@,
            ));
        }
    }
    assert(cs@.skip(n as int) =~= Seq::<char>::empty());
    assert(out@ + collapse_punctuation_spec(cs@.skip(n as int)) =~= out@);
    string_from_chars(out.as_slice())
}


// ----- Collapsing whitespace -----

/// Length of the run of non-whitespace characters `s` starts with.
pub open spec fn word_len(s: Seq<char>) -> nat
    decreases s.len(),
{
    if s.len() > 0 && !is_whitespace_spec(s[0]) {
        1 + word_len(s.drop_first())
    } else {
        0
    }
}

pub proof fn lemma_word_len_bound(s: Seq<char>)
    ensures
        word_len(s) <= s.len(),
    decreases s.len(),
{
    if s.len() > 0 && !is_whitespace_spec(s[0]) {
        lemma_word_len_bound(s.drop_first());
    }
}

/// The whitespace-separated words of `s`, in order (`str::split_whitespace`).
pub open spec fn words(s: Seq<char>) -> Seq<Seq<char>>
    decreases s.len(),
{
    if s.len() == 0 {
        Seq::empty()
    } else if is_whitespace_spec(s[0]) {
        words(s.drop_first())
    } else {
        let k = word_len(s);
        proof {
            lemma_word_len_bound(s);
        }
        seq![s.take(k as int)] + words(s.skip(k as int))
    }
}

/// The words joined with single spaces (`join(" ")`).
pub open spec fn join_words(ws: Seq<Seq<char>>) -> Seq<char>
    decreases ws.len(),
{
    if ws.len() == 0 {
        Seq::empty()
    } else if ws.len() == 1 {
        ws[0]
    } else {
        join_words(ws.drop_last()) + seq![' '] + ws.last()
    }
}

/// Whitespace runs become single spaces and leading/trailing whitespace goes.
pub open spec fn collapse_whitespace_spec(s: Seq<char>) -> Seq<char> {
    join_words(words(s))
}

/// Collapses internal whitespace to single spaces and trims both ends (the
/// words of `s` joined by one space each).
pub fn collapse_whitespace(s: &str) -> (out: String)
    ensures
        out@ == collapse_whitespace_spec(s@),
{
    let cs = chars_of(s);
    let n = cs.len();
    let mut out: Vec<char> = Vec::new();
    let mut has_words = false;
    let ghost mut done: Seq<Seq<char>> = Seq::empty();
    let mut i: usize = 0;
    assert(cs@.skip(0) =~= cs@);
    assert(done + words(cs@) =~= words(cs@));
    while i < n
        invariant
            n == cs@.len(),
            i <= n,
            out@ == join_words(done),
            has_words == (done.len() > 0),
            done + words(cs@.skip(i as int)) == words(cs@),
        decreases n - i,
    {
        let ghost rest = cs@.skip(i as int);
        assert(rest[0] == cs@[i as int]);
        if is_whitespace(cs[i]) {
            assert(rest.drop_first() =~= cs@.skip(i + 1));
            i = i + 1;
        } else {
            let mut j: usize = i;
            while j < n && !is_whitespace(cs[j])
                invariant
                    n == cs@.len(),
                    i <= j <= n,
                    word_len(rest) == (j - i) + word_len(cs@.skip(j as int)),
                    rest == cs@.skip(i as int),
                decreases n - j,
            {
                assert(cs@.skip(j as int).drop_first() =~= cs@.skip(j + 1));
                j = j + 1;
            }
            assert(word_len(cs@.skip(j as int)) == 0);
            let ghost w = cs@.subrange(i as int, j as int);
            assert(rest.take(j - i) =~= w);
            assert(rest.skip(j - i) =~= cs@.skip(j as int));
            let ghost before = out@;
            if has_words {
                out.push(' ');
            }
            let mut m: usize = i;
            while m < j
                invariant
                    n == cs@.len(),
                    i <= m <= j <= n,
                    out@ == (if has_words { before + seq![' '] } else { before }) + cs@.subrange(
                        i as int,
                        m as int,
                    ),
                decreases j - m,
            {
                out.push(cs[m]);
                m = m + 1;
                assert(out@ =~= (if has_words { before + seq![' '] } else { before }) + cs@.subrange(
                    i as int,
                    m as int,
                ));
            }
            proof {
                let nd = done.push(w);
                assert(nd.drop_last() =~= done);
                if done.len() == 0 {
                    assert(out@ =~= w);
                } else {
                    assert(out@ =~= join_words(done) + seq![' '] + w);
                }
                assert(nd + words(cs@.skip(j as int)) =~= done + words(rest));
                done = nd;
            }
            has_words = true;
            i = j;
        }
    }
    assert(cs@.skip(n as int) =~= Seq::<char>::empty());
    assert(done + words(cs@.skip(n as int)) =~= done);
    string_from_chars(out.as_slice())
}

// ----- Dangling punctuation -----

/// The characters `str::trim_matches` strips from both ends.
pub open spec fn is_dangling(c: char) -> bool {
    c == ',' || c == ';' || c == ':' || c == ' '
}

fn is_dangling_char(c: char) -> (b: bool)
    ensures
        b == is_dangling(c),
{
    c == ',' || c == ';' || c == ':' || c == ' '
}

/// How many dangling characters `s` starts with.
pub open spec fn leading_dangling(s: Seq<char>) -> nat
    decreases s.len(),
{
    if s.len() > 0 && is_dangling(s[0]) {
        1 + leading_dangling(s.drop_first())
    } else {
        0
    }
}

/// How many dangling characters `s` ends with.
pub open spec fn trailing_dangling(s: Seq<char>) -> nat
    decreases s.len(),
{
    if s.len() > 0 && is_dangling(s.last()) {
        1 + trailing_dangling(s.drop_last())
    } else {
        0
    }
}

/// `s` with every leading and trailing `,` `;` `:` and space removed.
pub open spec fn strip_dangling_spec(s: Seq<char>) -> Seq<char> {
    let t = s.skip(leading_dangling(s) as int);
    t.take(t.len() - trailing_dangling(t))
}

/// Drops dangling punctuation (and spaces) at either end.
pub fn strip_dangling_punctuation(s: &str) -> (out: String)
    ensures
        out@ == strip_dangling_spec(s@),
{
    let cs = chars_of(s);
    let n = cs.len();
    let mut a: usize = 0;
    assert(cs@.skip(0) =~= cs@);
    while a < n && is_dangling_char(cs[a])
        invariant
            n == cs@.len(),
            a <= n,
            leading_dangling(cs@) == a + leading_dangling(cs@.skip(a as int)),
        decreases n - a,
    {
        assert(cs@.skip(a as int).drop_first() =~= cs@.skip(a + 1));
        a = a + 1;
    }
    assert(leading_dangling(cs@.skip(a as int)) == 0);
    let ghost t = cs@.skip(a as int);
    let mut b: usize = n;
    assert(t.take(n - a) =~= t);
    while b > a && is_dangling_char(cs[b - 1])
        invariant
            n == cs@.len(),
            a <= b <= n,
            t == cs@.skip(a as int),
            trailing_dangling(t) == (n - b) + trailing_dangling(t.take(b - a)),
        decreases b - a,
    {
        let ghost u = t.take(b - a);
        assert(u.last() == cs@[b - 1]);
        assert(u.drop_last() =~= t.take(b - 1 - a));
        b = b - 1;
    }
    assert(trailing_dangling(t.take(b - a)) == 0);
    let mut out: Vec<char> = Vec::new();
    let mut m: usize = a;
    while m < b
        invariant
            n == cs@.len(),
            a <= m <= b <= n,
            out@ == cs@.subrange(a as int, m as int),
        decreases b - m,
    {
        out.push(cs[m]);
        m = m + 1;
        assert(out@ =~= cs@.subrange(a as int, m as int));
    }
    assert(t.take(t.len() - trailing_dangling(t)) =~= cs@.subrange(a as int, b as int));
    string_from_chars(out.as_slice())
}

// ----- Capitalization -----

/// The first character replaced by its uppercase mapping.
pub open spec fn capitalize_spec(s: Seq<char>) -> Seq<char> {
    if s.len() == 0 {
        s
    } else {
        char_uppercase(s[0]) + s.drop_first()
    }
}

/// Capitalizes the first letter (Unicode-aware: `ábaco` becomes `Ábaco`).
pub fn capitalize_first(s: &str) -> (out: String)
    ensures
        out@ == capitalize_spec(s@),
{
    let cs = chars_of(s);
    if cs.len() == 0 {
        return String::new();
    }
    let mut out = char_to_uppercase(cs[0]);
    let ghost up = out@;
    let mut m: usize = 1;
    while m < cs.len()
        invariant
            1 <= m <= cs@.len(),
            out@ == up + cs@.subrange(1, m as int),
        decreases cs@.len() - m,
    {
        out.push(cs[m]);
        m = m + 1;
        assert(out@ =~= up + cs@.subrange(1, m as int));
    }
    assert(cs@.drop_first() =~= cs@.subrange(1, cs@.len() as int));
    string_from_chars(out.as_slice())
}

/// Everything cleaning does after the filler patterns are removed.
pub open spec fn tidy_spec(s: Seq<char>) -> Seq<char> {
    capitalize_spec(strip_dangling_spec(collapse_whitespace_spec(collapse_punctuation_spec(s))))
}

/// Tidies text whose fillers have already been removed: collapses orphaned
/// punctuation runs, then whitespace, strips dangling punctuation at either
/// end, and capitalizes the first letter.
pub fn tidy_text(stripped: &str) -> (out: String)
    ensures
        out@ == tidy_spec(stripped@),
{
    let a = collapse_repeated_punctuation(stripped);
    let b = collapse_whitespace(a.as_str());
    let c = strip_dangling_punctuation(b.as_str());
    capitalize_first(c.as_str())
}



// ----- Laws of the tidying steps -----

proof fn lemma_word_len_prefix(s: Seq<char>)
    ensures
        word_len(s) <= s.len(),
        forall|i: int| 0 <= i < word_len(s) ==> !is_whitespace_spec(#[trigger] s[i]),
        s.len() > 0 && !is_whitespace_spec(s[0]) ==> word_len(s) >= 1,
    decreases s.len(),
{
    if s.len() > 0 && !is_whitespace_spec(s[0]) {
        lemma_word_len_prefix(s.drop_first());
        assert forall|i: int| 0 <= i < word_len(s) implies !is_whitespace_spec(#[trigger] s[i]) by {
            if i > 0 {
                assert(s[i] == s.drop_first()[i - 1]);
            }
        }
    }
}

/// Every word is non-empty and holds no whitespace.
pub open spec fn proper_words(ws: Seq<Seq<char>>) -> bool {
    forall|j: int|
        0 <= j < ws.len() ==> (#[trigger] ws[j]).len() > 0 && forall|k: int|
            0 <= k < ws[j].len() ==> !is_whitespace_spec(#[trigger] ws[j][k])
}

proof fn lemma_words_proper(s: Seq<char>)
    ensures
        proper_words(words(s)),
    decreases s.len(),
{
    if s.len() == 0 {
    } else if is_whitespace_spec(s[0]) {
        lemma_words_proper(s.drop_first());
    } else {
        let k = word_len(s);
        lemma_word_len_prefix(s);
        lemma_words_proper(s.skip(k as int));
        let ws = words(s);
        assert(ws == seq![s.take(k as int)] + words(s.skip(k as int)));
        assert forall|j: int| 0 <= j < ws.len() implies (#[trigger] ws[j]).len() > 0 && forall|m: int|
            0 <= m < ws[j].len() ==> !is_whitespace_spec(#[trigger] ws[j][m]) by {
            if j == 0 {
                assert(ws[0] == s.take(k as int));
                assert forall|m: int| 0 <= m < ws[0].len() implies !is_whitespace_spec(
                    #[trigger] ws[0][m],
                ) by {
                    assert(ws[0][m] == s[m]);
                }
            } else {
                assert(ws[j] == words(s.skip(k as int))[j - 1]);
            }
        }
    }
}

/// Single-spacing: `r` neither starts nor ends with whitespace, and every
/// whitespace character in it is a plain space followed by a non-whitespace
/// character.
pub open spec fn single_spaced(r: Seq<char>) -> bool {
    &&& r.len() > 0 ==> !is_whitespace_spec(r[0]) && !is_whitespace_spec(r.last())
    &&& forall|i: int|
        0 <= i < r.len() && is_whitespace_spec(#[trigger] r[i]) ==> r[i] == ' ' && i + 1 < r.len()
            && !is_whitespace_spec(r[i + 1])
}

proof fn lemma_join_single_spaced(ws: Seq<Seq<char>>)
    requires
        proper_words(ws),
    ensures
        single_spaced(join_words(ws)),
        ws.len() > 0 ==> join_words(ws).len() > 0,
    decreases ws.len(),
{
    if ws.len() == 0 {
    } else if ws.len() == 1 {
        let w = ws[0];
        assert(w.len() > 0);
        assert(!is_whitespace_spec(w[0]));
        assert(!is_whitespace_spec(w[w.len() - 1]));
        assert forall|i: int| 0 <= i < w.len() implies !is_whitespace_spec(#[trigger] w[i]) by {}
    } else {
        let p = ws.drop_last();
        assert(proper_words(p)) by {
            assert forall|j: int| 0 <= j < p.len() implies (#[trigger] p[j]).len() > 0 && forall|k: int|
                0 <= k < p[j].len() ==> !is_whitespace_spec(#[trigger] p[j][k]) by {
                assert(p[j] == ws[j]);
            }
        }
        lemma_join_single_spaced(p);
        let a = join_words(p);
        let w = ws.last();
        assert(w == ws[ws.len() - 1]);
        assert(w.len() > 0);
        let r = join_words(ws);
        assert(r == a + seq![' '] + w);
        assert(r[0] == a[0]);
        assert(r.last() == w[w.len() - 1]);
        assert forall|i: int|
            0 <= i < r.len() && is_whitespace_spec(#[trigger] r[i]) implies r[i] == ' ' && i + 1
            < r.len() && !is_whitespace_spec(r[i + 1]) by {
            if i < a.len() {
                assert(r[i] == a[i]);
                if i + 1 < a.len() {
                    assert(r[i + 1] == a[i + 1]);
                } else {
                    assert(!is_whitespace_spec(a.last()));
                }
            } else if i == a.len() {
                assert(r[i + 1] == w[0]);
            } else {
                assert(r[i] == w[i - a.len() - 1]);
            }
        }
    }
}

/// Law: collapsing whitespace leaves no whitespace at either end and single
/// spaces between words.
pub proof fn lemma_collapse_whitespace_single_spaced(s: Seq<char>)
    ensures
        single_spaced(collapse_whitespace_spec(s)),
{
    lemma_words_proper(s);
    lemma_join_single_spaced(words(s));
}

proof fn lemma_leading_dangling(s: Seq<char>)
    ensures
        leading_dangling(s) <= s.len(),
        leading_dangling(s) < s.len() ==> !is_dangling(s[leading_dangling(s) as int]),
        forall|i: int| 0 <= i < leading_dangling(s) ==> is_dangling(#[trigger] s[i]),
    decreases s.len(),
{
    if s.len() > 0 && is_dangling(s[0]) {
        lemma_leading_dangling(s.drop_first());
        let k = leading_dangling(s.drop_first());
        if k < s.drop_first().len() {
            assert(s[1 + k as int] == s.drop_first()[k as int]);
        }
        assert forall|i: int| 0 <= i < leading_dangling(s) implies is_dangling(#[trigger] s[i]) by {
            if i > 0 {
                assert(s[i] == s.drop_first()[i - 1]);
            }
        }
    }
}

proof fn lemma_trailing_dangling(s: Seq<char>)
    ensures
        trailing_dangling(s) <= s.len(),
        trailing_dangling(s) < s.len() ==> !is_dangling(s[s.len() - trailing_dangling(s) - 1]),
        forall|i: int|
            s.len() - trailing_dangling(s) <= i < s.len() ==> is_dangling(#[trigger] s[i]),
    decreases s.len(),
{
    if s.len() > 0 && is_dangling(s.last()) {
        lemma_trailing_dangling(s.drop_last());
        let k = trailing_dangling(s.drop_last());
        if k < s.drop_last().len() {
            assert(s[s.len() - (k + 1) - 1] == s.drop_last()[s.drop_last().len() - k - 1]);
        }
        assert forall|i: int| s.len() - trailing_dangling(s) <= i < s.len() implies is_dangling(
            #[trigger] s[i],
        ) by {
            if i < s.len() - 1 {
                assert(s[i] == s.drop_last()[i]);
            }
        }
    }
}

/// Law: stripping the ends removes exactly the commas, semicolons, colons and
/// spaces at either end and nothing else: the result is a contiguous piece of
/// the text, everything cut off on either side is one of those four
/// characters, and the piece kept (when not empty) starts and ends with some
/// other character. A sentence's final period, for one, always stays.
pub proof fn lemma_strip_dangling_cuts_only_marks_and_spaces(s: Seq<char>)
    ensures
        exists|a: int, b: int|
            {
                &&& 0 <= a <= b <= s.len()
                &&& strip_dangling_spec(s) == s.subrange(a, b)
                &&& forall|i: int|
                    (0 <= i < a || b <= i < s.len()) ==> (#[trigger] s[i] == ',' || s[i] == ';'
                        || s[i] == ':' || s[i] == ' ')
                &&& a < b ==> !(s[a] == ',' || s[a] == ';' || s[a] == ':' || s[a] == ' ')
                &&& a < b ==> !(s[b - 1] == ',' || s[b - 1] == ';' || s[b - 1] == ':' || s[b - 1]
                    == ' ')
            },
{
    lemma_leading_dangling(s);
    let a = leading_dangling(s) as int;
    let t = s.skip(a);
    lemma_trailing_dangling(t);
    let b = s.len() - trailing_dangling(t);
    assert(strip_dangling_spec(s) =~= s.subrange(a, b));
    assert forall|i: int| (0 <= i < a || b <= i < s.len()) implies (#[trigger] s[i] == ',' || s[i]
        == ';' || s[i] == ':' || s[i] == ' ') by {
        if i < a {
            assert(is_dangling(s[i]));
        } else {
            assert(t[i - a] == s[i]);
            assert(is_dangling(t[i - a]));
        }
    }
    if a < b {
        assert(t[t.len() - trailing_dangling(t) - 1] == s[b - 1]);
    }
}

/// Law: after stripping, the text neither starts nor ends with `,` `;` `:` or
/// a space.
pub proof fn lemma_strip_dangling_clean_ends(s: Seq<char>)
    ensures
        strip_dangling_spec(s).len() > 0 ==> !is_dangling(strip_dangling_spec(s)[0]) && !is_dangling(
            strip_dangling_spec(s).last(),
        ),
{
    lemma_leading_dangling(s);
    let a = leading_dangling(s);
    let t = s.skip(a as int);
    lemma_trailing_dangling(t);
    let r = strip_dangling_spec(s);
    if r.len() > 0 {
        assert(t.len() > 0);
        assert(t[0] == s[a as int]);
        assert(r[0] == t[0]);
        assert(trailing_dangling(t) < t.len());
        assert(r.last() == t[t.len() - trailing_dangling(t) - 1]);
    }
}

/// Stripping the ends of a single-spaced text keeps it single-spaced.
proof fn lemma_strip_keeps_single_spaced(r: Seq<char>)
    requires
        single_spaced(r),
    ensures
        single_spaced(strip_dangling_spec(r)),
{
    lemma_leading_dangling(r);
    lemma_strip_dangling_clean_ends(r);
    let a = leading_dangling(r) as int;
    let t = r.skip(a);
    lemma_trailing_dangling(t);
    let u = strip_dangling_spec(r);
    assert(u =~= t.take(t.len() - trailing_dangling(t)));
    assert forall|i: int| 0 <= i < u.len() implies #[trigger] u[i] == r[a + i] by {}
    if u.len() > 0 {
        assert(u[0] == r[a]);
        assert(!is_whitespace_spec(u[0]));
        assert(u.last() == r[a + u.len() - 1]);
        assert(!is_whitespace_spec(u.last()));
    }
    assert forall|i: int|
        0 <= i < u.len() && is_whitespace_spec(#[trigger] u[i]) implies u[i] == ' ' && i + 1
        < u.len() && !is_whitespace_spec(u[i + 1]) by {
        assert(u[i] == r[a + i]);
        if i + 1 == u.len() {
            assert(u.last() == u[i]);
        } else {
            assert(u[i + 1] == r[a + i + 1]);
        }
    }
}

/// Law: once the punctuation runs and the whitespace are collapsed and the
/// dangling ends stripped, the text is single-spaced and neither starts nor
/// ends with `,` `;` `:` or a space; capitalizing then changes only its first
/// character.
pub proof fn lemma_tidy_single_spaced_clean_ends(s: Seq<char>)
    ensures
        single_spaced(strip_dangling_spec(collapse_whitespace_spec(collapse_punctuation_spec(s)))),
        strip_dangling_spec(collapse_whitespace_spec(collapse_punctuation_spec(s))).len() > 0 ==> {
            let u = strip_dangling_spec(collapse_whitespace_spec(collapse_punctuation_spec(s)));
            &&& !is_dangling(u[0])
            &&& !is_dangling(u.last())
            &&& tidy_spec(s) == char_uppercase(u[0]) + u.drop_first()
        },
        strip_dangling_spec(collapse_whitespace_spec(collapse_punctuation_spec(s))).len() == 0
            ==> tidy_spec(s).len() == 0,
{
    let w = collapse_whitespace_spec(collapse_punctuation_spec(s));
    lemma_collapse_whitespace_single_spaced(collapse_punctuation_spec(s));
    lemma_strip_keeps_single_spaced(w);
    lemma_strip_dangling_clean_ends(w);
}

/// No mark of `r` is followed, after optional whitespace, by another mark.
pub open spec fn no_mark_runs(r: Seq<char>) -> bool {
    forall|i: int| 0 <= i < r.len() && is_mark(#[trigger] r[i]) ==> mark_run_tail(r.skip(i + 1)) == 0
}

proof fn lemma_tail_is_maximal(x: Seq<char>)
    ensures
        mark_run_tail(x) <= x.len(),
        mark_run_tail(x.skip(mark_run_tail(x) as int)) == 0,
    decreases x.len(),
{
    lemma_mark_run_tail_bound(x);
    lemma_leading_whitespace_bound(x);
    let w = leading_whitespace(x);
    if w < x.len() && is_mark(x[w as int]) {
        let y = x.skip(w + 1 as int);
        lemma_tail_is_maximal(y);
        assert(x.skip(mark_run_tail(x) as int) =~= y.skip(mark_run_tail(y) as int));
    } else {
        assert(x.skip(0) =~= x);
    }
}

proof fn lemma_leading_whitespace_prefix(u: Seq<char>)
    ensures
        forall|i: int| 0 <= i < leading_whitespace(u) ==> is_whitespace_spec(#[trigger] u[i]),
        leading_whitespace(u) < u.len() ==> !is_whitespace_spec(u[leading_whitespace(u) as int]),
    decreases u.len(),
{
    if u.len() > 0 && is_whitespace_spec(u[0]) {
        lemma_leading_whitespace_prefix(u.drop_first());
        lemma_leading_whitespace_bound(u.drop_first());
        assert forall|i: int| 0 <= i < leading_whitespace(u) implies is_whitespace_spec(#[trigger] u[i]) by {
            if i > 0 {
                assert(u[i] == u.drop_first()[i - 1]);
            }
        }
    }
}

/// Whitespace characters are not marks, so collapsing copies a whitespace
/// prefix unchanged.
proof fn lemma_collapse_keeps_whitespace_prefix(u: Seq<char>, w: nat)
    requires
        w <= u.len(),
        forall|i: int| 0 <= i < w ==> is_whitespace_spec(#[trigger] u[i]),
    ensures
        collapse_punctuation_spec(u) == u.take(w as int) + collapse_punctuation_spec(u.skip(w as int)),
    decreases w,
{
    if w == 0 {
        assert(u.skip(0) =~= u);
        assert(u.take(0) =~= Seq::<char>::empty());
        assert(u.take(0) + collapse_punctuation_spec(u) =~= collapse_punctuation_spec(u));
    } else {
        let v = u.drop_first();
        assert(is_whitespace_spec(u[0]));
        assert(!is_mark(u[0]));
        lemma_collapse_keeps_whitespace_prefix(v, (w - 1) as nat);
        assert(v.skip(w - 1) =~= u.skip(w as int));
        assert(seq![u[0]] + v.take(w - 1) =~= u.take(w as int));
        assert(collapse_punctuation_spec(u) =~= u.take(w as int) + collapse_punctuation_spec(
            u.skip(w as int),
        ));
    }
}

proof fn lemma_leading_whitespace_concat(a: Seq<char>, b: Seq<char>)
    requires
        forall|i: int| 0 <= i < a.len() ==> is_whitespace_spec(#[trigger] a[i]),
    ensures
        leading_whitespace(a + b) == a.len() + leading_whitespace(b),
    decreases a.len(),
{
    if a.len() == 0 {
        assert(a + b =~= b);
    } else {
        assert((a + b)[0] == a[0]);
        assert((a + b).drop_first() =~= a.drop_first() + b);
        assert forall|i: int| 0 <= i < a.drop_first().len() implies is_whitespace_spec(
            #[trigger] a.drop_first()[i],
        ) by {
            assert(a.drop_first()[i] == a[i + 1]);
        }
        lemma_leading_whitespace_concat(a.drop_first(), b);
    }
}

/// Collapsing a text that does not start with a run tail does not create one.
proof fn lemma_collapse_keeps_no_tail(u: Seq<char>)
    requires
        mark_run_tail(u) == 0,
    ensures
        mark_run_tail(collapse_punctuation_spec(u)) == 0,
{
    lemma_leading_whitespace_bound(u);
    lemma_leading_whitespace_prefix(u);
    let w = leading_whitespace(u);
    lemma_collapse_keeps_whitespace_prefix(u, w);
    let rest = u.skip(w as int);
    let c = collapse_punctuation_spec(u);
    assert(forall|i: int| 0 <= i < u.take(w as int).len() ==> is_whitespace_spec(#[trigger] u.take(w as int)[i]));
    lemma_leading_whitespace_concat(u.take(w as int), collapse_punctuation_spec(rest));
    if w < u.len() {
        // The first character after the whitespace is neither whitespace nor a mark.
        assert(rest[0] == u[w as int]);
        assert(!is_mark(u[w as int]));
        assert(collapse_punctuation_spec(rest)[0] == rest[0]);
        assert(leading_whitespace(collapse_punctuation_spec(rest)) == 0);
        assert(c[w as int] == u[w as int]);
    } else {
        assert(rest.len() == 0);
        assert(collapse_punctuation_spec(rest).len() == 0);
        assert(leading_whitespace(collapse_punctuation_spec(rest)) == 0);
    }
}

/// Law: after collapsing, no punctuation mark is followed (after optional
/// whitespace) by another one: every run has become a single mark.
pub proof fn lemma_collapse_leaves_no_runs(s: Seq<char>)
    ensures
        no_mark_runs(collapse_punctuation_spec(s)),
    decreases s.len(),
{
    let r = collapse_punctuation_spec(s);
    if s.len() == 0 {
    } else if is_mark(s[0]) {
        let x = s.drop_first();
        let t = mark_run_tail(x);
        lemma_mark_run_tail_bound(x);
        let rest = s.skip(1 + t as int);
        lemma_collapse_leaves_no_runs(rest);
        lemma_tail_is_maximal(x);
        assert(x.skip(t as int) =~= rest);
        lemma_collapse_keeps_no_tail(rest);
        let cr = collapse_punctuation_spec(rest);
        assert(r == seq![s[0]] + cr);
        assert forall|i: int| 0 <= i < r.len() && is_mark(#[trigger] r[i]) implies mark_run_tail(
            r.skip(i + 1),
        ) == 0 by {
            if i == 0 {
                assert(r.skip(1) =~= cr);
            } else {
                assert(r[i] == cr[i - 1]);
                assert(r.skip(i + 1) =~= cr.skip(i));
            }
        }
    } else {
        let rest = s.drop_first();
        lemma_collapse_leaves_no_runs(rest);
        let cr = collapse_punctuation_spec(rest);
        assert(r == seq![s[0]] + cr);
        assert forall|i: int| 0 <= i < r.len() && is_mark(#[trigger] r[i]) implies mark_run_tail(
            r.skip(i + 1),
        ) == 0 by {
            if i > 0 {
                assert(r[i] == cr[i - 1]);
                assert(r.skip(i + 1) =~= cr.skip(i));
            }
        }
    }
}

/// Law: only commas, semicolons and colons form runs: a text without any of
/// them comes out of the punctuation collapse unchanged.
pub proof fn lemma_collapse_keeps_text_without_marks(s: Seq<char>)
    requires
        forall|i: int| 0 <= i < s.len() ==> #[trigger] s[i] != ',' && s[i] != ';' && s[i] != ':',
    ensures
        collapse_punctuation_spec(s) == s,
    decreases s.len(),
{
    if s.len() > 0 {
        let r = s.drop_first();
        assert forall|i: int| 0 <= i < r.len() implies #[trigger] r[i] != ',' && r[i] != ';' && r[i]
            != ':' by {
            assert(r[i] == s[i + 1]);
        }
        lemma_collapse_keeps_text_without_marks(r);
        assert(s =~= seq![s[0]] + r);
    }
}

/// Law: two of `,` `;` `:` separated only by whitespace collapse to the
/// first of them.
pub proof fn lemma_collapse_two_marks(a: char, w: Seq<char>, b: char)
    requires
        a == ',' || a == ';' || a == ':',
        b == ',' || b == ';' || b == ':',
        forall|i: int| 0 <= i < w.len() ==> is_whitespace_spec(#[trigger] w[i]),
    ensures
        collapse_punctuation_spec(seq![a] + w + seq![b]) == seq![a],
{
    let s = seq![a] + w + seq![b];
    let x = s.drop_first();
    assert(x =~= w + seq![b]);
    lemma_leading_whitespace_concat(w, seq![b]);
    assert(leading_whitespace(seq![b]) == 0);
    assert(x[w.len() as int] == b);
    assert(x.skip(w.len() + 1int) =~= Seq::<char>::empty());
    assert(mark_run_tail(x.skip(w.len() + 1int)) == 0);
    assert(mark_run_tail(x) == w.len() + 1);
    assert(s.skip(1int + (w.len() + 1)) =~= Seq::<char>::empty());
    assert(collapse_punctuation_spec(Seq::<char>::empty()) =~= Seq::<char>::empty());
    assert(s[0] == a);
}

proof fn lemma_word_len_whole(s: Seq<char>)
    requires
        forall|i: int| 0 <= i < s.len() ==> !is_whitespace_spec(#[trigger] s[i]),
    ensures
        word_len(s) == s.len(),
    decreases s.len(),
{
    if s.len() > 0 {
        let r = s.drop_first();
        assert forall|i: int| 0 <= i < r.len() implies !is_whitespace_spec(#[trigger] r[i]) by {
            assert(r[i] == s[i + 1]);
        }
        lemma_word_len_whole(r);
    }
}

/// Law: a single word (a text without whitespace) comes out of whitespace
/// collapsing unchanged.
pub proof fn lemma_collapse_whitespace_keeps_a_word(s: Seq<char>)
    requires
        forall|i: int| 0 <= i < s.len() ==> !is_whitespace_spec(#[trigger] s[i]),
    ensures
        collapse_whitespace_spec(s) == s,
{
    if s.len() > 0 {
        lemma_word_len_whole(s);
        assert(s.take(s.len() as int) =~= s);
        assert(s.skip(s.len() as int) =~= Seq::<char>::empty());
        assert(words(s.skip(s.len() as int)) =~= Seq::<Seq<char>>::empty());
        assert(words(s) =~= seq![s]);
    } else {
        assert(words(s) =~= Seq::<Seq<char>>::empty());
    }
}

/// The characters of `s` that are not whitespace, in order.
pub open spec fn non_whitespace(s: Seq<char>) -> Seq<char> {
    s.filter(|c: char| !is_whitespace_spec(c))
}

proof fn lemma_non_whitespace_of_word(w: Seq<char>)
    requires
        forall|i: int| 0 <= i < w.len() ==> !is_whitespace_spec(#[trigger] w[i]),
    ensures
        non_whitespace(w) == w,
    decreases w.len(),
{
    reveal(Seq::filter);
    if w.len() > 0 {
        let r = w.drop_last();
        assert forall|i: int| 0 <= i < r.len() implies !is_whitespace_spec(#[trigger] r[i]) by {
            assert(r[i] == w[i]);
        }
        lemma_non_whitespace_of_word(r);
        assert(!is_whitespace_spec(w[w.len() - 1]));
        assert(r.push(w.last()) =~= w);
    }
}

proof fn lemma_non_whitespace_add(a: Seq<char>, b: Seq<char>)
    ensures
        non_whitespace(a + b) == non_whitespace(a) + non_whitespace(b),
{
    Seq::filter_distributes_over_add(a, b, |c: char| !is_whitespace_spec(c));
}

proof fn lemma_non_whitespace_of_space(c: char)
    requires
        is_whitespace_spec(c),
    ensures
        non_whitespace(seq![c]) == Seq::<char>::empty(),
{
    reveal(Seq::filter);
    let e = Seq::<char>::empty();
    assert(seq![c].drop_last() =~= e);
    assert(seq![c].last() == c);
    assert(e.filter(|x: char| !is_whitespace_spec(x)) == e);
    assert(seq![c].filter(|x: char| !is_whitespace_spec(x)) == e.filter(
        |x: char| !is_whitespace_spec(x),
    ));
}

proof fn lemma_non_whitespace_join(ws: Seq<Seq<char>>)
    requires
        proper_words(ws),
    ensures
        non_whitespace(join_words(ws)) == ws.flatten_alt(),
    decreases ws.len(),
{
    if ws.len() == 0 {
        reveal(Seq::filter);
    } else {
        let last = ws.last();
        assert(last == ws[ws.len() - 1]);
        assert forall|i: int| 0 <= i < last.len() implies !is_whitespace_spec(#[trigger] last[i]) by {}
        lemma_non_whitespace_of_word(last);
        let p = ws.drop_last();
        assert(p.flatten_alt() + last == ws.flatten_alt());
        if ws.len() == 1 {
            assert(p.flatten_alt() =~= Seq::<char>::empty());
            assert(p.flatten_alt() + last =~= last);
        } else {
            assert(proper_words(p)) by {
                assert forall|j: int| 0 <= j < p.len() implies (#[trigger] p[j]).len() > 0 && forall|k: int|
                    0 <= k < p[j].len() ==> !is_whitespace_spec(#[trigger] p[j][k]) by {
                    assert(p[j] == ws[j]);
                }
            }
            lemma_non_whitespace_join(p);
            lemma_non_whitespace_add(join_words(p) + seq![' '], last);
            lemma_non_whitespace_add(join_words(p), seq![' ']);
            lemma_non_whitespace_of_space(' ');
            assert(non_whitespace(join_words(p)) + Seq::<char>::empty() =~= non_whitespace(join_words(p)));
        }
    }
}

proof fn lemma_non_whitespace_words(s: Seq<char>)
    ensures
        words(s).flatten() == non_whitespace(s),
    decreases s.len(),
{
    if s.len() == 0 {
        reveal(Seq::filter);
    } else if is_whitespace_spec(s[0]) {
        let r = s.drop_first();
        assert(s =~= seq![s[0]] + r);
        lemma_non_whitespace_add(seq![s[0]], r);
        lemma_non_whitespace_of_space(s[0]);
        assert(Seq::<char>::empty() + non_whitespace(r) =~= non_whitespace(r));
        lemma_non_whitespace_words(r);
    } else {
        lemma_word_len_prefix(s);
        let k = word_len(s) as int;
        let w = s.take(k);
        let r = s.skip(k);
        assert(s =~= w + r);
        assert forall|i: int| 0 <= i < w.len() implies !is_whitespace_spec(#[trigger] w[i]) by {
            assert(w[i] == s[i]);
        }
        lemma_non_whitespace_of_word(w);
        lemma_non_whitespace_add(w, r);
        lemma_non_whitespace_words(r);
        let ws = words(s);
        assert(ws == seq![w] + words(r));
        assert(ws.first() == w);
        assert(ws.drop_first() =~= words(r));
    }
}

/// Law: collapsing whitespace keeps every other character, in order: only
/// whitespace is removed or replaced (by the single spaces between words).
pub proof fn lemma_collapse_whitespace_keeps_the_words(s: Seq<char>)
    ensures
        non_whitespace(collapse_whitespace_spec(s)) == non_whitespace(s),
{
    lemma_words_proper(s);
    lemma_non_whitespace_join(words(s));
    words(s).lemma_flatten_and_flatten_alt_are_equivalent();
    lemma_non_whitespace_words(s);
}

// ----- Filler patterns (regular expressions) -----

#[verifier::external_type_specification]
#[verifier::external_body]
pub struct ExRegex(regex::Regex);

/// What `RegexBuilder::build` reports for `pattern` with the given case
/// sensitivity: `None` when it builds (its syntax is valid and it stays under
/// the default size limits), otherwise the text of the error (its `Display`).
pub uninterp spec fn regex_build_error(pattern: Seq<char>, case_insensitive: bool) -> Option<
    Seq<char>,
>;

/// Whether `pattern` builds into a regular expression with the given case
/// sensitivity.
pub open spec fn regex_compiles(pattern: Seq<char>, case_insensitive: bool) -> bool {
    regex_build_error(pattern, case_insensitive) is None
}

/// `Regex::replace_all`: `haystack` with every non-overlapping match of
/// `pattern` (leftmost-first, scanning left to right) replaced by
/// `replacement` (where `$name` refers to a capture group).
pub uninterp spec fn regex_replace_all(
    pattern: Seq<char>,
    case_insensitive: bool,
    haystack: Seq<char>,
    replacement: Seq<char>,
) -> Seq<char>;

/// A filler-word pattern compiled as a case-insensitive regular expression.
pub struct FillerPattern {
    source: String,
    regex: regex::Regex,
}

impl FillerPattern {
    /// The pattern text the expression was compiled from.
    pub closed spec fn pattern(&self) -> Seq<char> {
        self.source@
    }

    pub fn as_str(&self) -> (s: &str)
        ensures
            s@ == self.pattern(),
    {
        self.source.as_str()
    }
}

/// `RegexBuilder::new(pattern).case_insensitive(true).build()`, keeping the
/// pattern text beside the compiled expression, and turning a build error into
/// its text (`Display`). The contract claims that the result is what
/// [`regex_build_error`] names for the pattern: the compiled pattern, carrying
/// its text, when that is `None`, and otherwise that error text.
#[verifier::external_body]
fn compile_case_insensitive(pattern: &str) -> (res: Result<FillerPattern, String>)
    ensures
        res is Ok <==> regex_build_error(pattern@, true) is None,
        res matches Ok(p) ==> p.pattern() == pattern@,
        res matches Err(m) ==> regex_build_error(pattern@, true) == Some(m@),
{
    match regex::RegexBuilder::new(pattern).case_insensitive(true).build() {
        Ok(regex) => Ok(FillerPattern { source: pattern.to_string(), regex }),
        Err(e) => Err(e.to_string()),
    }
}

/// `Regex::replace_all` on a filler pattern. The contract claims that the
/// result is [`regex_replace_all`] of the pattern text (case-insensitive), the
/// haystack and the replacement; since a `FillerPattern` is only made by
/// [`compile_case_insensitive`], its expression is the one built from that text.
#[verifier::external_body]
fn replace_all_matches(pattern: &FillerPattern, haystack: &str, replacement: &str) -> (res: String)
    ensures
        res@ == regex_replace_all(pattern.pattern(), true, haystack@, replacement@),
{
    pattern.regex.replace_all(haystack, replacement).into_owned()
}

/// A filler pattern that failed to compile.
#[derive(Clone, Debug, PartialEq, Eq)]
pub struct PatternError {
    /// Position of the pattern in the list given to [`compile_patterns`].
    pub index: usize,
    /// The pattern text.
    pub pattern: String,
    /// The regex engine's description of the problem (the text of its build
    /// error).
    pub message: String,
}

/// The texts of compiled patterns.
pub open spec fn pattern_texts(ps: Seq<FillerPattern>) -> Seq<Seq<char>> {
    ps.map_values(|p: FillerPattern| p.pattern())
}

/// Compiles the filler-word patterns as case-insensitive regexes. Fails on the
/// first pattern that does not compile.
pub fn compile_patterns(patterns: &[String]) -> (res: Result<Vec<FillerPattern>, PatternError>)
    ensures
        res matches Ok(v) ==> {
            &&& v@.len() == patterns@.len()
            &&& forall|i: int|
                0 <= i < patterns@.len() ==> (#[trigger] v@[i]).pattern() == patterns@[i]@
                    && regex_compiles(patterns@[i]@, true)
        },
        res matches Err(e) ==> {
            &&& e.index < patterns@.len()
            &&& e.pattern@ == patterns@[e.index as int]@
            &&& regex_build_error(patterns@[e.index as int]@, true) == Some(e.message@)
            &&& forall|i: int| 0 <= i < e.index ==> regex_compiles(#[trigger] patterns@[i]@, true)
        },
{
    let mut compiled: Vec<FillerPattern> = Vec::new();
    let mut i: usize = 0;
    while i < patterns.len()
        invariant
            i <= patterns@.len(),
            compiled@.len() == i,
            forall|j: int|
                0 <= j < i ==> (#[trigger] compiled@[j]).pattern() == patterns@[j]@
                    && regex_compiles(patterns@[j]@, true),
        decreases patterns@.len() - i,
    {
        match compile_case_insensitive(patterns[i].as_str()) {
            Ok(p) => {
                compiled.push(p);
            },
            Err(message) => {
                assert forall|j: int| 0 <= j < i implies regex_compiles(
                    #[trigger] patterns@[j]@,
                    true,
                ) by {
                    assert(compiled@[j].pattern() == patterns@[j]@);
                }
                return Err(PatternError { index: i, pattern: patterns[i].clone(), message });
            },
        }
        i = i + 1;
    }
    assert(compiled@.len() == patterns@.len());
    Ok(compiled)
}

/// `text` with every filler pattern removed, one pattern after the other.
pub open spec fn strip_fillers(text: Seq<char>, patterns: Seq<Seq<char>>) -> Seq<char>
    decreases patterns.len(),
{
    if patterns.len() == 0 {
        text
    } else {
        strip_fillers(
            regex_replace_all(patterns[0], true, text, Seq::empty()),
            patterns.drop_first(),
        )
    }
}

/// What [`clean_text`] produces.
pub open spec fn clean_spec(raw: Seq<char>, patterns: Seq<Seq<char>>) -> Seq<char> {
    tidy_spec(strip_fillers(raw, patterns))
}

/// Removes every filler pattern from `raw`, in order.
pub fn remove_fillers(raw: &str, filler_patterns: &[FillerPattern]) -> (out: String)
    ensures
        out@ == strip_fillers(raw@, pattern_texts(filler_patterns@)),
{
    let ghost texts = pattern_texts(filler_patterns@);
    let mut result = raw.to_owned();
    let mut i: usize = 0;
    assert(texts.skip(0) =~= texts);
    while i < filler_patterns.len()
        invariant
            i <= filler_patterns@.len(),
            texts == pattern_texts(filler_patterns@),
            strip_fillers(raw@, texts) == strip_fillers(result@, texts.skip(i as int)),
        decreases filler_patterns@.len() - i,
    {
        proof {
            reveal_strlit("");
            assert(texts.skip(i as int)[0] == filler_patterns@[i as int].pattern());
            assert(texts.skip(i as int).drop_first() =~= texts.skip(i + 1));
        }
        let ghost prev = result@;
        result = replace_all_matches(&filler_patterns[i], result.as_str(), "");
        assert(""@ =~= Seq::<char>::empty());
        assert(result@ == regex_replace_all(texts[i as int], true, prev, Seq::empty()));
        assert(strip_fillers(prev, texts.skip(i as int)) == strip_fillers(result@, texts.skip(i + 1)));
        i = i + 1;
    }
    assert(texts.skip(i as int) =~= Seq::<Seq<char>>::empty());
    result
}

/// Pure text cleaner: removes filler words, collapses orphaned punctuation and
/// whitespace left behind, strips dangling punctuation at either end, and
/// capitalizes the first letter.
pub fn clean_text(raw: &str, filler_patterns: &[FillerPattern]) -> (out: String)
    ensures
        out@ == clean_spec(raw@, pattern_texts(filler_patterns@)),
{
    let stripped = remove_fillers(raw, filler_patterns);
    tidy_text(stripped.as_str())
}

/// Pipeline stage: turns each `TranscribedText` into a `CleanText`.
pub struct RegexCleaner {
    patterns: Vec<FillerPattern>,
}

impl RegexCleaner {
    /// The patterns' texts, in order.
    pub closed spec fn pattern_texts(&self) -> Seq<Seq<char>> {
        pattern_texts(self.patterns@)
    }

    pub fn new(patterns: Vec<FillerPattern>) -> (c: Self)
        ensures
            c.pattern_texts() == pattern_texts(patterns@),
    {
        RegexCleaner { patterns }
    }

    /// Cleans one transcription, keeping its `seq`.
    pub fn clean(&self, item: &TranscribedText) -> (out: CleanText)
        ensures
            out.seq == item.seq,
            out.text@ == clean_spec(item.raw@, self.pattern_texts()),
    {
        CleanText { seq: item.seq, text: clean_text(item.raw.as_str(), self.patterns.as_slice()) }
    }
}

} // verus!
