//! Character classes of the fragment syntax.
//!
//! The syntax reserves `{ } [ ] / ·` and the escape marker `~`; symbol and
//! dependency names are made of word characters.  Non-ASCII letters count as
//! word characters (the median point `·` itself does not), so accented text
//! takes part in gendered word forms.

use vstd::prelude::*;

verus! {

/// The escape marker.
pub open spec fn marker() -> char {
    '~'
}

/// The median point that joins the parts of a median-point gender form.
pub open spec fn median() -> char {
    '\u{00B7}'
}

/// Characters whose special meaning the escape marker suppresses.
pub open spec fn spec_reserved(c: char) -> bool {
    ||| c == ' '
    ||| c == '~'
    ||| c == '['
    ||| c == ']'
    ||| c == '{'
    ||| c == '}'
    ||| c == '/'
    ||| c == '\u{00B7}'
}

/// Word characters: ASCII alphanumerics, `_`, and every character beyond
/// ASCII except the median point.
pub open spec fn spec_word(c: char) -> bool {
    ||| 'a' <= c && c <= 'z'
    ||| 'A' <= c && c <= 'Z'
    ||| '0' <= c && c <= '9'
    ||| c == '_'
    ||| (c as u32 >= 0x80 && c != '\u{00B7}')
}

/// Characters allowed inside the parts of a gender form: word characters
/// plus the three characters a sentinel token is written with.
pub open spec fn spec_part(c: char) -> bool {
    ||| spec_word(c)
    ||| c == '~'
    ||| c == '<'
    ||| c == '>'
}

pub fn is_reserved(c: char) -> (b: bool)
    ensures
        b == spec_reserved(c),
{
    c == ' ' || c == '~' || c == '[' || c == ']' || c == '{' || c == '}' || c == '/' || c
        == '\u{00B7}'
}

pub fn is_word(c: char) -> (b: bool)
    ensures
        b == spec_word(c),
{
    ('a' <= c && c <= 'z') || ('A' <= c && c <= 'Z') || ('0' <= c && c <= '9') || c == '_' || (c
        as u32 >= 0x80 && c != '\u{00B7}')
}

pub fn is_part(c: char) -> (b: bool)
    ensures
        b == spec_part(c),
{
    is_word(c) || c == '~' || c == '<' || c == '>'
}

/// End of the maximal run of word characters that starts at `i`.
pub open spec fn word_run_end(s: Seq<char>, i: int) -> int
    decreases s.len() - i,
{
    if 0 <= i < s.len() && spec_word(s[i]) {
        word_run_end(s, i + 1)
    } else {
        i
    }
}

/// End of the maximal run of part characters that starts at `i`.
pub open spec fn part_run_end(s: Seq<char>, i: int) -> int
    decreases s.len() - i,
{
    if 0 <= i < s.len() && spec_part(s[i]) {
        part_run_end(s, i + 1)
    } else {
        i
    }
}

pub proof fn lemma_part_run_bounds(s: Seq<char>, i: int)
    requires
        0 <= i <= s.len(),
    ensures
        i <= part_run_end(s, i) <= s.len(),
    decreases s.len() - i,
{
    if i < s.len() && spec_part(s[i]) {
        lemma_part_run_bounds(s, i + 1);
    }
}

/// Exec mirror of [`word_run_end`].
pub fn find_word_run_end(s: &Vec<char>, i: usize) -> (e: usize)
    requires
        i <= s@.len(),
    ensures
        e == word_run_end(s@, i as int),
        i <= e <= s@.len(),
{
    let mut j: usize = i;
    loop
        invariant
            i <= j <= s@.len(),
            word_run_end(s@, i as int) == word_run_end(s@, j as int),
        decreases s@.len() - j,
    {
        if j < s.len() && is_word(s[j]) {
            j = j + 1;
        } else {
            return j;
        }
    }
}

/// Exec mirror of [`part_run_end`].
pub fn find_part_run_end(s: &Vec<char>, i: usize) -> (e: usize)
    requires
        i <= s@.len(),
    ensures
        e == part_run_end(s@, i as int),
        i <= e <= s@.len(),
{
    let mut j: usize = i;
    loop
        invariant
            i <= j <= s@.len(),
            part_run_end(s@, i as int) == part_run_end(s@, j as int),
        decreases s@.len() - j,
    {
        if j < s.len() && is_part(s[j]) {
            j = j + 1;
        } else {
            return j;
        }
    }
}

/// Copies `s[a..b]` into a fresh vector.
pub fn copy_range(s: &Vec<char>, a: usize, b: usize) -> (out: Vec<char>)
    requires
        a <= b <= s@.len(),
    ensures
        out@ == s@.subrange(a as int, b as int),
{
    let mut out: Vec<char> = Vec::new();
    let mut j: usize = a;
    while j < b
        invariant
            a <= j <= b <= s@.len(),
            out@ == s@.subrange(a as int, j as int),
        decreases b - j,
    {
        out.push(s[j]);
        j = j + 1;
        proof {
            assert(out@ =~= s@.subrange(a as int, j as int));
        }
    }
    out
}

/// Appends every character of `src` to `dst`.
pub fn append_chars(dst: &mut Vec<char>, src: &Vec<char>)
    ensures
        final(dst)@ == old(dst)@ + src@,
{
    let mut j: usize = 0;
    while j < src.len()
        invariant
            j <= src@.len(),
            dst@ == old(dst)@ + src@.subrange(0, j as int),
        decreases src@.len() - j,
    {
        dst.push(src[j]);
        j = j + 1;
        proof {
            assert(dst@ =~= old(dst)@ + src@.subrange(0, j as int));
        }
    }
    proof {
        assert(src@.subrange(0, src@.len() as int) =~= src@);
    }
}

/// Relies on `String::push`: appends one character to the string.
#[verifier::external_body]
fn push_char(s: &mut String, c: char)
    ensures
        final(s)@ == old(s)@.push(c),
{
    s.push(c);
}

/// Builds a `String` from a vector of characters.
pub fn chars_to_string(v: &Vec<char>) -> (s: String)
    ensures
        s@ == v@,
{
    let mut s = String::new();
    let mut j: usize = 0;
    while j < v.len()
        invariant
            j <= v@.len(),
            s@ == v@.subrange(0, j as int),
        decreases v@.len() - j,
    {
        push_char(&mut s, v[j]);
        j = j + 1;
        proof {
            assert(s@ =~= v@.subrange(0, j as int));
        }
    }
    proof {
        assert(v@.subrange(0, v@.len() as int) =~= v@);
    }
    s
}

/// Builds a vector of characters from a string slice.
pub fn str_to_chars(s: &str) -> (v: Vec<char>)
    ensures
        v@ == s@,
{
    let n = s.unicode_len();
    let mut v: Vec<char> = Vec::new();
    let mut j: usize = 0;
    while j < n
        invariant
            j <= n,
            n == s@.len(),
            v@ == s@.subrange(0, j as int),
        decreases n - j,
    {
        v.push(s.get_char(j));
        j = j + 1;
        proof {
            assert(v@ =~= s@.subrange(0, j as int));
        }
    }
    proof {
        assert(s@.subrange(0, s@.len() as int) =~= s@);
    }
    v
}

/// Character-wise equality of two vectors.
pub fn eq_chars(a: &Vec<char>, b: &Vec<char>) -> (r: bool)
    ensures
        r == (a@ == b@),
{
    if a.len() != b.len() {
        proof {
            assert(a@ != b@);
        }
        return false;
    }
    let mut j: usize = 0;
    while j < a.len()
        invariant
            j <= a@.len(),
            a@.len() == b@.len(),
            forall|k: int| 0 <= k < j ==> a@[k] == b@[k],
        decreases a@.len() - j,
    {
        if a[j] != b[j] {
            return false;
        }
        j = j + 1;
    }
    proof {
        assert(a@ =~= b@);
    }
    true
}

} // verus!
