//! Character-level helpers shared by the text-handling stages.

use vstd::prelude::*;
use vstd::string::StrSliceExecFns;

verus! {

broadcast use vstd::string::group_string_axioms;

/// The Unicode `White_Space` property, as `char::is_whitespace` (and thus
/// `str::split_whitespace` and `str::trim`) uses it.
pub open spec fn is_whitespace_spec(c: char) -> bool {
    let u = c as u32;
    ||| 0x09 <= u <= 0x0D
    ||| u == 0x20
    ||| u == 0x85
    ||| u == 0xA0
    ||| u == 0x1680
    ||| 0x2000 <= u <= 0x200A
    ||| u == 0x2028
    ||| u == 0x2029
    ||| u == 0x202F
    ||| u == 0x205F
    ||| u == 0x3000
}

/// Whether `c` is Unicode whitespace.
pub fn is_whitespace(c: char) -> (b: bool)
    ensures
        b == is_whitespace_spec(c),
{
    let u = c as u32;
    (0x09 <= u && u <= 0x0D) || u == 0x20 || u == 0x85 || u == 0xA0 || u == 0x1680 || (0x2000 <= u
        && u <= 0x200A) || u == 0x2028 || u == 0x2029 || u == 0x202F || u == 0x205F || u == 0x3000
}

/// Every character of `s` is whitespace (so `s.trim()` is empty).
pub open spec fn all_whitespace(s: Seq<char>) -> bool {
    forall|i: int| 0 <= i < s.len() ==> is_whitespace_spec(#[trigger] s[i])
}

/// The characters of `s`, in order.
pub fn chars_of(s: &str) -> (v: Vec<char>)
    ensures
        v@ == s@,
{
    let n = s.unicode_len();
    let mut v: Vec<char> = Vec::new();
    let mut i: usize = 0;
    while i < n
        invariant
            n == s@.len(),
            i <= n,
            v@ == s@.take(i as int),
        decreases n - i,
    {
        let c = s.get_char(i);
        proof {
            assert(s@.take(i + 1) =~= v@.push(c));
        }
        v.push(c);
        i = i + 1;
    }
    assert(s@.take(n as int) =~= s@);
    v
}

/// Appends `c` to `s` (`String::push`).
#[verifier::external_body]
pub(crate) fn push_char(s: &mut String, c: char)
    ensures
        final(s)@ == old(s)@.push(c),
{
    s.push(c);
}

/// A `String` holding exactly the characters of `v`.
pub fn string_from_chars(v: &[char]) -> (s: String)
    ensures
        s@ == v@,
{
    let mut s = String::new();
    let mut i: usize = 0;
    while i < v.len()
        invariant
            i <= v@.len(),
            s@ == v@.take(i as int),
        decreases v@.len() - i,
    {
        proof {
            assert(v@.take(i + 1) =~= v@.take(i as int).push(v@[i as int]));
        }
        push_char(&mut s, v[i]);
        i = i + 1;
    }
    assert(v@.take(v@.len() as int) =~= v@);
    s
}

/// Whether two character sequences are equal.
pub fn chars_equal(a: &[char], b: &[char]) -> (eq: bool)
    ensures
        eq == (a@ == b@),
{
    if a.len() != b.len() {
        return false;
    }
    let mut i: usize = 0;
    while i < a.len()
        invariant
            a@.len() == b@.len(),
            i <= a@.len(),
            forall|j: int| 0 <= j < i ==> a@[j] == b@[j],
        decreases a@.len() - i,
    {
        if a[i] != b[i] {
            return false;
        }
        i = i + 1;
    }
    assert(a@ =~= b@);
    true
}

/// The uppercase mapping of `c` (`char::to_uppercase`): one or more
/// characters, from Unicode's case tables.
pub uninterp spec fn char_uppercase(c: char) -> Seq<char>;

/// Whether `c` is an ASCII lowercase letter.
pub open spec fn is_ascii_lowercase_spec(c: char) -> bool {
    'a' <= c <= 'z'
}

/// The ASCII uppercase letter of an ASCII lowercase letter.
pub open spec fn ascii_upper_of(c: char) -> char {
    ((c as u32) - 32) as char
}

/// `char::to_uppercase`, collected. Its result is the Unicode uppercase
/// mapping of `c`, named [`char_uppercase`]; the contract states beside it only
/// the ASCII cases (a letter `a`..=`z` maps to its capital, any other ASCII
/// character to itself), which the Unicode tables give. Other characters are
/// left to the name.
#[verifier::external_body]
pub(crate) fn char_to_uppercase(c: char) -> (up: Vec<char>)
    ensures
        up@ == char_uppercase(c),
        is_ascii_lowercase_spec(c) ==> up@ == seq![ascii_upper_of(c)],
        (c as u32) < 128 && !is_ascii_lowercase_spec(c) ==> up@ == seq![c],
{
    c.to_uppercase().collect()
}

/// ASCII lowercase of one character (`char::to_ascii_lowercase`): `A`..=`Z`
/// map to `a`..=`z`, everything else is unchanged.
pub open spec fn ascii_lower_spec(c: char) -> char {
    if 'A' <= c <= 'Z' {
        ((c as u32) + 32) as char
    } else {
        c
    }
}

/// ASCII lowercase of a whole sequence (`str::to_ascii_lowercase`).
pub open spec fn ascii_lowercase_spec(s: Seq<char>) -> Seq<char> {
    s.map_values(|c: char| ascii_lower_spec(c))
}

/// `str::to_ascii_lowercase`, as characters.
pub fn to_ascii_lowercase(s: &str) -> (lower: Vec<char>)
    ensures
        lower@ == ascii_lowercase_spec(s@),
{
    let cs = chars_of(s);
    let mut out: Vec<char> = Vec::new();
    let mut i: usize = 0;
    while i < cs.len()
        invariant
            i <= cs@.len(),
            out@ == ascii_lowercase_spec(cs@.take(i as int)),
        decreases cs@.len() - i,
    {
        let c = cs[i];
        let l = if 'A' <= c && c <= 'Z' {
            let b = (c as u8) + 32;
            b as char
        } else {
            c
        };
        proof {
            assert(cs@.take(i + 1) =~= cs@.take(i as int).push(c));
        }
        out.push(l);
        proof {
            assert(out@ =~= ascii_lowercase_spec(cs@.take(i + 1)));
        }
        i = i + 1;
    }
    assert(cs@.take(cs@.len() as int) =~= cs@);
    out
}

} // verus!
