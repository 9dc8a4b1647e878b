//! Executable mirrors of the engine's pattern matchers.
//!
//! Each function here scans a character vector and is proved to return
//! exactly what the corresponding spec matcher in [`crate::engine`] denotes.

use vstd::prelude::*;

use crate::chars::copy_range;
use crate::chars::append_chars;
use crate::chars::find_part_run_end;
use crate::chars::find_word_run_end;
use crate::chars::lemma_part_run_bounds;
use crate::chars::part_run_end;
use crate::chars::is_part;
use crate::gender::Gender;
use crate::gender::gender_of;
use crate::gender::is_gender_char;
use crate::engine::DotsMatch;
use crate::engine::SlashMatch;
use crate::engine::count_markers;
use crate::engine::dots_at;
use crate::engine::dots_tail;
use crate::engine::dots_replacement;
use crate::engine::first_marker;
use crate::engine::fresh_ref_at;
use crate::engine::marker_at;
use crate::engine::memo_ref_at;
use crate::engine::slash_at;
use crate::engine::slash_tail;
use crate::engine::slash_replacement;
use crate::engine::strip_markers;

verus! {

/// Reading of an optional character vector.
pub open spec fn opt_view(o: Option<Vec<char>>) -> Option<Seq<char>> {
    match o {
        Some(v) => Some(v@),
        None => None,
    }
}

/// One scan over a fragment: the number of inline gender markers, the
/// gender the first one declares, and the fragment with markers removed.
pub fn gender_scan(s: &Vec<char>) -> (r: (usize, Gender, Vec<char>))
    ensures
        r.0 as nat == count_markers(s@, 0),
        r.1 == (if count_markers(s@, 0) >= 1 {
            first_marker(s@, 0)
        } else {
            Gender::Neutral
        }),
        r.2@ == strip_markers(s@, 0),
{
    let mut cnt: usize = 0;
    let mut g: Gender = Gender::Neutral;
    let mut out: Vec<char> = Vec::new();
    let mut i: usize = 0;
    while i < s.len()
        invariant
            i <= s@.len(),
            cnt <= i,
            count_markers(s@, 0) == cnt + count_markers(s@, i as int),
            first_marker(s@, 0) == (if cnt >= 1 {
                first_marker(s@, 0)
            } else {
                first_marker(s@, i as int)
            }),
            cnt >= 1 ==> g == first_marker(s@, 0),
            cnt == 0 ==> g == Gender::Neutral,
            strip_markers(s@, 0) == out@ + strip_markers(s@, i as int),
        decreases s@.len() - i,
    {
        if s.len() - i > 2 && s[i] == '[' && is_gender_char(s[i + 1]) && s[i + 2] == ']' {
            proof {
                assert(marker_at(s@, i as int) is Some);
            }
            if cnt == 0 {
                g = gender_of(s[i + 1]);
                proof {
                    assert(first_marker(s@, i as int) == marker_at(s@, i as int)->0);
                }
            }
            cnt = cnt + 1;
            i = i + 3;
        } else {
            proof {
                assert(marker_at(s@, i as int) is None);
            }
            out.push(s[i]);
            i = i + 1;
            proof {
                assert(strip_markers(s@, 0) =~= out@ + strip_markers(s@, i as int));
            }
        }
    }
    proof {
        assert(strip_markers(s@, 0) =~= out@);
    }
    (cnt, g, out)
}

/// The memoized reference `{name}` at `i`, if any.
pub fn find_memo_ref(s: &Vec<char>, i: usize) -> (o: Option<(Vec<char>, usize)>)
    requires
        i < s@.len(),
    ensures
        match o {
            Some(r) => memo_ref_at(s@, i as int) == Some((r.0@, r.1 as int)) && i < r.1 <= s@.len(),
            None => memo_ref_at(s@, i as int) is None,
        },
{
    let n = s.len();
    if s[i] == '{' {
        let e = find_word_run_end(s, i + 1);
        if e < n && s[e] == '}' {
            let w = copy_range(s, i + 1, e);
            Some((w, e + 1))
        } else {
            None
        }
    } else {
        None
    }
}

/// The fresh reference `{{name}}` at `i`, if any.
pub fn find_fresh_ref(s: &Vec<char>, i: usize) -> (o: Option<(Vec<char>, usize)>)
    requires
        i < s@.len(),
    ensures
        match o {
            Some(r) => fresh_ref_at(s@, i as int) == Some((r.0@, r.1 as int)) && i < r.1
                <= s@.len(),
            None => fresh_ref_at(s@, i as int) is None,
        },
{
    if s.len() - i > 1 && s[i] == '{' && s[i + 1] == '{' {
        let e = find_word_run_end(s, i + 2);
        if s.len() - e > 1 && s[e] == '}' && s[e + 1] == '}' {
            let w = copy_range(s, i + 2, e);
            Some((w, e + 2))
        } else {
            None
        }
    } else {
        None
    }
}

/// A matched median-point form, as owned vectors.
pub struct DotsParts {
    pub root: Vec<char>,
    pub p2: Vec<char>,
    pub p3: Option<Vec<char>>,
    pub p4: Option<Vec<char>>,
    pub dep: Option<Vec<char>>,
    pub end: usize,
}

impl View for DotsParts {
    type V = DotsMatch;

    open spec fn view(&self) -> DotsMatch {
        DotsMatch {
            root: self.root@,
            p2: self.p2@,
            p3: opt_view(self.p3),
            p4: opt_view(self.p4),
            dep: opt_view(self.dep),
            end: self.end as int,
        }
    }
}

/// A matched slash form, as owned vectors.
pub struct SlashParts {
    pub m: Vec<char>,
    pub f: Vec<char>,
    pub n: Option<Vec<char>>,
    pub dep: Option<Vec<char>>,
    pub end: usize,
}

impl View for SlashParts {
    type V = SlashMatch;

    open spec fn view(&self) -> SlashMatch {
        SlashMatch {
            m: self.m@,
            f: self.f@,
            n: opt_view(self.n),
            dep: opt_view(self.dep),
            end: self.end as int,
        }
    }
}

/// The optional `[dependency]` tail of a median-point form.
fn finish_dots(
    s: &Vec<char>,
    root: Vec<char>,
    p2: Vec<char>,
    p3: Option<Vec<char>>,
    p4: Option<Vec<char>>,
    pos: usize,
) -> (d: DotsParts)
    requires
        pos <= s@.len(),
    ensures
        d@ == dots_tail(s@, root@, p2@, opt_view(p3), opt_view(p4), pos as int),
        d.root@ == root@,
        pos <= d.end <= s@.len(),
{
    if pos < s.len() && s[pos] == '[' {
        let rd = find_part_run_end(s, pos + 1);
        if rd > pos + 1 && rd < s.len() && s[rd] == ']' {
            let dep = copy_range(s, pos + 1, rd);
            DotsParts { root, p2, p3, p4, dep: Some(dep), end: rd + 1 }
        } else {
            DotsParts { root, p2, p3, p4, dep: None, end: pos }
        }
    } else {
        DotsParts { root, p2, p3, p4, dep: None, end: pos }
    }
}

/// The median-point gender form at `i`, if any.
pub fn find_dots(s: &Vec<char>, i: usize) -> (o: Option<DotsParts>)
    requires
        i < s@.len(),
    ensures
        match o {
            Some(d) => dots_at(s@, i as int) == Some(d@) && i < d.end <= s@.len(),
            None => dots_at(s@, i as int) is None,
        },
{
    if !is_part(s[i]) {
        return None;
    }
    let r1 = find_part_run_end(s, i);
    proof {
        assert(part_run_end(s@, i as int) == part_run_end(s@, i + 1));
        lemma_part_run_bounds(s@, i + 1);
    }
    if !(r1 < s.len() && s[r1] == '\u{00B7}') {
        return None;
    }
    let r2 = find_part_run_end(s, r1 + 1);
    let root = copy_range(s, i, r1);
    let p2 = copy_range(s, r1 + 1, r2);
    if r2 < s.len() && s[r2] == '\u{00B7}' {
        let r3 = find_part_run_end(s, r2 + 1);
        let p3 = copy_range(s, r2 + 1, r3);
        if r3 < s.len() && s[r3] == '\u{00B7}' {
            let r4 = find_part_run_end(s, r3 + 1);
            let p4 = copy_range(s, r3 + 1, r4);
            Some(finish_dots(s, root, p2, Some(p3), Some(p4), r4))
        } else {
            Some(finish_dots(s, root, p2, Some(p3), None, r3))
        }
    } else {
        Some(finish_dots(s, root, p2, None, None, r2))
    }
}

/// The optional `[dependency]` tail of a slash form.
fn finish_slash(s: &Vec<char>, m: Vec<char>, f: Vec<char>, n: Option<Vec<char>>, pos: usize) -> (d:
    SlashParts)
    requires
        pos <= s@.len(),
    ensures
        d@ == slash_tail(s@, m@, f@, opt_view(n), pos as int),
        pos <= d.end <= s@.len(),
{
    if pos < s.len() && s[pos] == '[' {
        let rd = find_word_run_end(s, pos + 1);
        if rd > pos + 1 && rd < s.len() && s[rd] == ']' {
            let dep = copy_range(s, pos + 1, rd);
            SlashParts { m, f, n, dep: Some(dep), end: rd + 1 }
        } else {
            SlashParts { m, f, n, dep: None, end: pos }
        }
    } else {
        SlashParts { m, f, n, dep: None, end: pos }
    }
}

/// The slash gender form at `i`, if any.
pub fn find_slash(s: &Vec<char>, i: usize) -> (o: Option<SlashParts>)
    requires
        i < s@.len(),
    ensures
        match o {
            Some(d) => slash_at(s@, i as int) == Some(d@) && i < d.end <= s@.len(),
            None => slash_at(s@, i as int) is None,
        },
{
    let r1 = find_part_run_end(s, i);
    if !(r1 < s.len() && s[r1] == '/') {
        return None;
    }
    let r2 = find_part_run_end(s, r1 + 1);
    let m = copy_range(s, i, r1);
    let f = copy_range(s, r1 + 1, r2);
    if r2 < s.len() && s[r2] == '/' {
        let r3 = find_part_run_end(s, r2 + 1);
        let n = copy_range(s, r2 + 1, r3);
        Some(finish_slash(s, m, f, Some(n), r3))
    } else {
        Some(finish_slash(s, m, f, None, r2))
    }
}

/// Builds the text a median-point form becomes under a gender.
pub fn build_dots(d: &DotsParts, g: Gender) -> (r: Vec<char>)
    ensures
        r@ == dots_replacement(d@, g),
{
    let mut r: Vec<char> = Vec::new();
    match (&d.p3, &d.p4) {
        (None, _) => {
            match g {
                Gender::Male => {
                    append_chars(&mut r, &d.root);
                },
                Gender::Female => {
                    append_chars(&mut r, &d.root);
                    append_chars(&mut r, &d.p2);
                },
                Gender::Neutral => {
                    append_chars(&mut r, &d.root);
                    r.push('/');
                    append_chars(&mut r, &d.root);
                    append_chars(&mut r, &d.p2);
                },
            }
        },
        (Some(p3), None) => {
            match g {
                Gender::Male => {
                    append_chars(&mut r, &d.root);
                    append_chars(&mut r, &d.p2);
                },
                Gender::Female => {
                    append_chars(&mut r, &d.root);
                    append_chars(&mut r, p3);
                },
                Gender::Neutral => {
                    append_chars(&mut r, &d.root);
                    append_chars(&mut r, &d.p2);
                    r.push('/');
                    append_chars(&mut r, &d.root);
                    append_chars(&mut r, p3);
                },
            }
        },
        (Some(p3), Some(p4)) => {
            match g {
                Gender::Male => {
                    append_chars(&mut r, &d.root);
                    append_chars(&mut r, &d.p2);
                    append_chars(&mut r, p4);
                },
                Gender::Female => {
                    append_chars(&mut r, &d.root);
                    append_chars(&mut r, p3);
                    append_chars(&mut r, p4);
                },
                Gender::Neutral => {
                    append_chars(&mut r, &d.root);
                    append_chars(&mut r, &d.p2);
                    append_chars(&mut r, p4);
                    r.push('/');
                    append_chars(&mut r, &d.root);
                    append_chars(&mut r, p3);
                    append_chars(&mut r, p4);
                },
            }
        },
    }
    proof {
        assert(r@ =~= dots_replacement(d@, g));
    }
    r
}

/// Builds the text a slash form becomes under a gender.
pub fn build_slash(d: &SlashParts, g: Gender) -> (r: Vec<char>)
    ensures
        r@ == slash_replacement(d@, g),
{
    let mut r: Vec<char> = Vec::new();
    match g {
        Gender::Male => {
            append_chars(&mut r, &d.m);
        },
        Gender::Female => {
            append_chars(&mut r, &d.f);
        },
        Gender::Neutral => {
            match &d.n {
                Some(n) => {
                    append_chars(&mut r, n);
                },
                None => {
                    append_chars(&mut r, &d.m);
                    r.push('/');
                    append_chars(&mut r, &d.f);
                },
            }
        },
    }
    proof {
        assert(r@ =~= slash_replacement(d@, g));
    }
    r
}

} // verus!
