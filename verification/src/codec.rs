//! The escaping codec.
//!
//! `encode` runs over raw text at table-insertion time: the escape marker
//! followed by a reserved character becomes a sentinel token (`~[` becomes
//! `~<leftsquare>`), and the marker followed by any other character is
//! dropped, leaving that character literal.  Sentinel tokens contain no
//! reserved character, so no later rewrite pass of the engine can mistake an
//! escaped character for syntax.  `decode` runs once over the final output
//! and replaces every sentinel token with the character it stands for.

use vstd::prelude::*;

use crate::chars::find_word_run_end;
use crate::chars::marker;
use crate::chars::is_reserved;
use crate::chars::spec_reserved;
use crate::chars::word_run_end;
use crate::chars::copy_range;
use crate::chars::eq_chars;

verus! {

pub open spec fn name_space() -> Seq<char> {
    seq!['s', 'p', 'a', 'c', 'e']
}

pub open spec fn name_tilde() -> Seq<char> {
    seq!['t', 'i', 'l', 'd', 'e']
}

pub open spec fn name_leftsquare() -> Seq<char> {
    seq!['l', 'e', 'f', 't', 's', 'q', 'u', 'a', 'r', 'e']
}

pub open spec fn name_rightsquare() -> Seq<char> {
    seq!['r', 'i', 'g', 'h', 't', 's', 'q', 'u', 'a', 'r', 'e']
}

pub open spec fn name_leftcurly() -> Seq<char> {
    seq!['l', 'e', 'f', 't', 'c', 'u', 'r', 'l', 'y']
}

pub open spec fn name_rightcurly() -> Seq<char> {
    seq!['r', 'i', 'g', 'h', 't', 'c', 'u', 'r', 'l', 'y']
}

pub open spec fn name_slash() -> Seq<char> {
    seq!['s', 'l', 'a', 's', 'h']
}

pub open spec fn name_median() -> Seq<char> {
    seq!['m', 'e', 'd', 'i', 'a', 'n']
}

/// The sentinel name that stands for a reserved character.
pub open spec fn name_of(c: char) -> Seq<char> {
    if c == ' ' {
        name_space()
    } else if c == '~' {
        name_tilde()
    } else if c == '[' {
        name_leftsquare()
    } else if c == ']' {
        name_rightsquare()
    } else if c == '{' {
        name_leftcurly()
    } else if c == '}' {
        name_rightcurly()
    } else if c == '/' {
        name_slash()
    } else if c == '\u{00B7}' {
        name_median()
    } else {
        Seq::empty()
    }
}

/// The reserved character a sentinel name stands for.
pub open spec fn name_to_char(n: Seq<char>) -> Option<char> {
    if n == name_space() {
        Some(' ')
    } else if n == name_tilde() {
        Some('~')
    } else if n == name_leftsquare() {
        Some('[')
    } else if n == name_rightsquare() {
        Some(']')
    } else if n == name_leftcurly() {
        Some('{')
    } else if n == name_rightcurly() {
        Some('}')
    } else if n == name_slash() {
        Some('/')
    } else if n == name_median() {
        Some('\u{00B7}')
    } else {
        None
    }
}

/// The whole sentinel token for a reserved character.
pub open spec fn sentinel_for(c: char) -> Seq<char> {
    seq!['~', '<'] + name_of(c) + seq!['>']
}

/// The encoded form of the suffix of `s` that starts at `i`.
pub open spec fn encode(s: Seq<char>, i: int) -> Seq<char>
    decreases s.len() - i,
{
    if !(0 <= i < s.len()) {
        Seq::empty()
    } else if s[i] == marker() && i + 1 < s.len() {
        if spec_reserved(s[i + 1]) {
            sentinel_for(s[i + 1]) + encode(s, i + 2)
        } else {
            seq![s[i + 1]] + encode(s, i + 2)
        }
    } else {
        seq![s[i]] + encode(s, i + 1)
    }
}

/// The sentinel token that starts at `i`, if any: the decoded character and
/// the position just past the token.
pub open spec fn sentinel_at(s: Seq<char>, i: int) -> Option<(char, int)> {
    if 0 <= i && i + 1 < s.len() && s[i] == marker() && s[i + 1] == '<' {
        let e = word_run_end(s, i + 2);
        if e < s.len() && s[e] == '>' {
            match name_to_char(s.subrange(i + 2, e)) {
                Some(c) => Some((c, e + 1)),
                None => None,
            }
        } else {
            None
        }
    } else {
        None
    }
}

/// The decoded form of the suffix of `s` that starts at `i`.  A `~<name>`
/// group whose name is not a sentinel name is left as it stands.
pub open spec fn decode(s: Seq<char>, i: int) -> Seq<char>
    decreases s.len() - i,
{
    if !(0 <= i < s.len()) {
        Seq::empty()
    } else {
        match sentinel_at(s, i) {
            Some((c, j)) => if i < j <= s.len() {
                seq![c] + decode(s, j)
            } else {
                seq![c]
            },
            None => seq![s[i]] + decode(s, i + 1),
        }
    }
}

fn name_space_vec() -> (v: Vec<char>)
    ensures
        v@ == name_space(),
{
    let mut v: Vec<char> = Vec::new();
    v.push('s');
    v.push('p');
    v.push('a');
    v.push('c');
    v.push('e');
    proof {
        assert(v@ =~= name_space());
    }
    v
}

fn name_tilde_vec() -> (v: Vec<char>)
    ensures
        v@ == name_tilde(),
{
    let mut v: Vec<char> = Vec::new();
    v.push('t');
    v.push('i');
    v.push('l');
    v.push('d');
    v.push('e');
    proof {
        assert(v@ =~= name_tilde());
    }
    v
}

fn name_leftsquare_vec() -> (v: Vec<char>)
    ensures
        v@ == name_leftsquare(),
{
    let mut v: Vec<char> = Vec::new();
    v.push('l');
    v.push('e');
    v.push('f');
    v.push('t');
    v.push('s');
    v.push('q');
    v.push('u');
    v.push('a');
    v.push('r');
    v.push('e');
    proof {
        assert(v@ =~= name_leftsquare());
    }
    v
}

fn name_rightsquare_vec() -> (v: Vec<char>)
    ensures
        v@ == name_rightsquare(),
{
    let mut v: Vec<char> = Vec::new();
    v.push('r');
    v.push('i');
    v.push('g');
    v.push('h');
    v.push('t');
    v.push('s');
    v.push('q');
    v.push('u');
    v.push('a');
    v.push('r');
    v.push('e');
    proof {
        assert(v@ =~= name_rightsquare());
    }
    v
}

fn name_leftcurly_vec() -> (v: Vec<char>)
    ensures
        v@ == name_leftcurly(),
{
    let mut v: Vec<char> = Vec::new();
    v.push('l');
    v.push('e');
    v.push('f');
    v.push('t');
    v.push('c');
    v.push('u');
    v.push('r');
    v.push('l');
    v.push('y');
    proof {
        assert(v@ =~= name_leftcurly());
    }
    v
}

fn name_rightcurly_vec() -> (v: Vec<char>)
    ensures
        v@ == name_rightcurly(),
{
    let mut v: Vec<char> = Vec::new();
    v.push('r');
    v.push('i');
    v.push('g');
    v.push('h');
    v.push('t');
    v.push('c');
    v.push('u');
    v.push('r');
    v.push('l');
    v.push('y');
    proof {
        assert(v@ =~= name_rightcurly());
    }
    v
}

fn name_slash_vec() -> (v: Vec<char>)
    ensures
        v@ == name_slash(),
{
    let mut v: Vec<char> = Vec::new();
    v.push('s');
    v.push('l');
    v.push('a');
    v.push('s');
    v.push('h');
    proof {
        assert(v@ =~= name_slash());
    }
    v
}

fn name_median_vec() -> (v: Vec<char>)
    ensures
        v@ == name_median(),
{
    let mut v: Vec<char> = Vec::new();
    v.push('m');
    v.push('e');
    v.push('d');
    v.push('i');
    v.push('a');
    v.push('n');
    proof {
        assert(v@ =~= name_median());
    }
    v
}

fn name_vec(c: char) -> (v: Vec<char>)
    requires
        spec_reserved(c),
    ensures
        v@ == name_of(c),
{
    if c == ' ' {
        name_space_vec()
    } else if c == '~' {
        name_tilde_vec()
    } else if c == '[' {
        name_leftsquare_vec()
    } else if c == ']' {
        name_rightsquare_vec()
    } else if c == '{' {
        name_leftcurly_vec()
    } else if c == '}' {
        name_rightcurly_vec()
    } else if c == '/' {
        name_slash_vec()
    } else {
        name_median_vec()
    }
}

fn name_lookup(n: &Vec<char>) -> (o: Option<char>)
    ensures
        o == name_to_char(n@),
{
    if eq_chars(n, &name_space_vec()) {
        Some(' ')
    } else if eq_chars(n, &name_tilde_vec()) {
        Some('~')
    } else if eq_chars(n, &name_leftsquare_vec()) {
        Some('[')
    } else if eq_chars(n, &name_rightsquare_vec()) {
        Some(']')
    } else if eq_chars(n, &name_leftcurly_vec()) {
        Some('{')
    } else if eq_chars(n, &name_rightcurly_vec()) {
        Some('}')
    } else if eq_chars(n, &name_slash_vec()) {
        Some('/')
    } else if eq_chars(n, &name_median_vec()) {
        Some('\u{00B7}')
    } else {
        None
    }
}

fn push_sentinel(r: &mut Vec<char>, c: char)
    requires
        spec_reserved(c),
    ensures
        final(r)@ == old(r)@ + sentinel_for(c),
{
    r.push('~');
    r.push('<');
    let nm = name_vec(c);
    let mut k: usize = 0;
    while k < nm.len()
        invariant
            k <= nm@.len(),
            nm@ == name_of(c),
            r@ == old(r)@ + seq!['~', '<'] + nm@.subrange(0, k as int),
        decreases nm@.len() - k,
    {
        r.push(nm[k]);
        k = k + 1;
        proof {
            assert(r@ =~= old(r)@ + seq!['~', '<'] + nm@.subrange(0, k as int));
        }
    }
    r.push('>');
    proof {
        assert(nm@.subrange(0, nm@.len() as int) =~= nm@);
        assert(r@ =~= old(r)@ + sentinel_for(c));
    }
}

/// The sentinel token at position `i` of `s`, if any: exec mirror of
/// [`sentinel_at`].
fn sentinel_match(s: &Vec<char>, i: usize) -> (o: Option<(char, usize)>)
    requires
        i < s@.len(),
    ensures
        match o {
            Some((c, j)) => sentinel_at(s@, i as int) == Some((c, j as int)) && i < j <= s@.len(),
            None => sentinel_at(s@, i as int) is None,
        },
{
    let n = s.len();
    if i + 1 < n && s[i] == '~' && s[i + 1] == '<' {
        let e = find_word_run_end(s, i + 2);
        if e < s.len() && s[e] == '>' {
            let name = copy_range(s, i + 2, e);
            match name_lookup(&name) {
                Some(c) => Some((c, e + 1)),
                None => None,
            }
        } else {
            None
        }
    } else {
        None
    }
}

/// Replaces each escaped character of `s` with its sentinel token, and drops
/// the marker before any other character.
pub fn encode_chars(s: &Vec<char>) -> (r: Vec<char>)
    ensures
        r@ == encode(s@, 0),
{
    let mut r: Vec<char> = Vec::new();
    let mut j: usize = 0;
    while j < s.len()
        invariant
            j <= s@.len(),
            encode(s@, 0) == r@ + encode(s@, j as int),
        decreases s@.len() - j,
    {
        if s[j] == '~' && j + 1 < s.len() {
            let c = s[j + 1];
            if is_reserved(c) {
                push_sentinel(&mut r, c);
            } else {
                r.push(c);
            }
            j = j + 2;
        } else {
            r.push(s[j]);
            j = j + 1;
        }
        proof {
            assert(encode(s@, 0) =~= r@ + encode(s@, j as int));
        }
    }
    proof {
        assert(encode(s@, 0) =~= r@);
    }
    r
}

/// Replaces each sentinel token of `s` with the character it stands for.
pub fn decode_chars(s: &Vec<char>) -> (r: Vec<char>)
    ensures
        r@ == decode(s@, 0),
{
    let mut r: Vec<char> = Vec::new();
    let mut j: usize = 0;
    while j < s.len()
        invariant
            j <= s@.len(),
            decode(s@, 0) == r@ + decode(s@, j as int),
        decreases s@.len() - j,
    {
        match sentinel_match(s, j) {
            Some((c, j2)) => {
                r.push(c);
                j = j2;
            },
            None => {
                r.push(s[j]);
                j = j + 1;
            },
        }
        proof {
            assert(decode(s@, 0) =~= r@ + decode(s@, j as int));
        }
    }
    proof {
        assert(decode(s@, 0) =~= r@);
    }
    r
}

/// Inputs on which encoding loses nothing: the escape marker appears at most
/// as the very last character.
pub open spec fn tail_marker_only(s: Seq<char>) -> bool {
    forall|k: int| 0 <= k < s.len() && s[k] == marker() ==> k == s.len() - 1
}

/// No position of `s` starts a sentinel token.
pub open spec fn has_no_sentinel(s: Seq<char>) -> bool {
    forall|k: int| sentinel_at(s, k) is None
}

proof fn lemma_encode_identity(s: Seq<char>, i: int)
    requires
        0 <= i <= s.len(),
        tail_marker_only(s),
    ensures
        encode(s, i) == s.subrange(i, s.len() as int),
    decreases s.len() - i,
{
    if i < s.len() {
        if s[i] == marker() && i + 1 < s.len() {
            assert(false);
        }
        lemma_encode_identity(s, i + 1);
        assert(encode(s, i) =~= s.subrange(i, s.len() as int));
    } else {
        assert(encode(s, i) =~= s.subrange(i, s.len() as int));
    }
}

proof fn lemma_decode_identity(s: Seq<char>, i: int)
    requires
        0 <= i <= s.len(),
        has_no_sentinel(s),
    ensures
        decode(s, i) == s.subrange(i, s.len() as int),
    decreases s.len() - i,
{
    if i < s.len() {
        assert(sentinel_at(s, i) is None);
        lemma_decode_identity(s, i + 1);
        assert(decode(s, i) =~= s.subrange(i, s.len() as int));
    } else {
        assert(decode(s, i) =~= s.subrange(i, s.len() as int));
    }
}

/// Decoding changes nothing on text without sentinel tokens; in particular
/// `decode` is idempotent.
pub proof fn lemma_decode_no_sentinel(s: Seq<char>)
    requires
        has_no_sentinel(s),
    ensures
        decode(s, 0) == s,
{
    lemma_decode_identity(s, 0);
    assert(s.subrange(0, s.len() as int) =~= s);
}

/// Round trip of the codec: on text whose escape marker appears at most as
/// the final character, decoding an encoding gives the text back.  (On other
/// text the pair resolves the escapes instead: `encode` consumes the marker,
/// by design, so the round trip drops it.)
pub proof fn lemma_decode_encode_roundtrip(s: Seq<char>)
    requires
        tail_marker_only(s),
    ensures
        decode(encode(s, 0), 0) == s,
{
    lemma_encode_identity(s, 0);
    assert(encode(s, 0) =~= s);
    assert forall|k: int| sentinel_at(s, k) is None by {
        if 0 <= k && k + 1 < s.len() && s[k] == marker() {
            assert(false);
        }
    }
    lemma_decode_no_sentinel(s);
}

} // verus!
