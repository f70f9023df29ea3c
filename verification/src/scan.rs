//! The classification of a line that is given as a string: one pass over
//! its characters, without a copy of them.

use crate::config::Config;
use crate::line::{exceeds, tab_after_text, tab_count, Findings, Terminator};
use crate::text::char_is_whitespace;
use vstd::prelude::*;

verus! {

/// A character of `s` is no tab.
pub open spec fn has_text(s: Seq<char>) -> bool {
    exists|k: int| 0 <= k < s.len() && s[k] != '\t'
}

/// What one more character at the end changes.
pub proof fn lemma_one_more(s: Seq<char>, c: char)
    ensures
        s.push(c).contains('\t') == (s.contains('\t') || c == '\t'),
        has_text(s.push(c)) == (has_text(s) || c != '\t'),
        tab_after_text(s.push(c)) == (tab_after_text(s) || (has_text(s) && c == '\t')),
        tab_count(s.push(c)) == tab_count(s) + if c == '\t' {
            1nat
        } else {
            0nat
        },
{
    let t = s.push(c);
    assert(t.drop_last() == s);
    assert(t[s.len() as int] == c);
    if s.contains('\t') {
        let k = choose|k: int| 0 <= k < s.len() && s[k] == '\t';
        assert(t[k] == '\t');
    }
    if t.contains('\t') && c != '\t' {
        let k = choose|k: int| 0 <= k < t.len() && t[k] == '\t';
        assert(s[k] == '\t');
    }
    if has_text(s) {
        let k = choose|k: int| 0 <= k < s.len() && s[k] != '\t';
        assert(t[k] != '\t');
        if c == '\t' {
            assert(0 <= k < s.len() < t.len() && t[k] != '\t' && t[s.len() as int] == '\t');
        }
    }
    if has_text(t) && c == '\t' {
        let k = choose|k: int| 0 <= k < t.len() && t[k] != '\t';
        assert(s[k] != '\t');
    }
    if tab_after_text(s) {
        let (i, j) = choose|i: int, j: int| 0 <= i < j < s.len() && s[i] != '\t' && s[j] == '\t';
        assert(0 <= i < j < t.len() && t[i] != '\t' && t[j] == '\t');
    }
    if tab_after_text(t) {
        let (i, j) = choose|i: int, j: int| 0 <= i < j < t.len() && t[i] != '\t' && t[j] == '\t';
        if j < s.len() {
            assert(0 <= i < j < s.len() && s[i] != '\t' && s[j] == '\t');
        } else {
            assert(s[i] != '\t');
        }
    }
}

/// The character `k` places before the end of the first `i` characters of
/// `s`, if there are that many.
pub open spec fn from_end(s: Seq<char>, i: int, k: int) -> Option<char> {
    if 0 <= i - k < s.len() && k >= 1 {
        Some(s[i - k])
    } else {
        None
    }
}

/// Whether `found` is the character `c`.
fn is_char(found: Option<char>, c: char) -> (r: bool)
    ensures
        r == (found == Some(c)),
{
    match found {
        Some(d) => d == c,
        None => false,
    }
}

/// What the rules find on `line`. The line is read once, from its first
/// character to its last, and no copy of it is made.
pub fn scan_line(config: &Config, line: &str) -> (r: Findings)
    ensures
        r == Findings::of_line(*config, line@),
{
    let len: usize = line.unicode_len();
    let mut tabs: usize = 0;
    let mut has_tab = false;
    let mut text = false;
    let mut after = false;
    let mut last: Option<char> = None;
    let mut second: Option<char> = None;
    let mut third: Option<char> = None;
    for c in it: line.chars()
        invariant
            it.seq() == line@,
            len == line@.len(),
            tabs <= it.index(),
            tabs == tab_count(line@.take(it.index())),
            has_tab == line@.take(it.index()).contains('\t'),
            text == has_text(line@.take(it.index())),
            after == tab_after_text(line@.take(it.index())),
            last == from_end(line@, it.index(), 1),
            second == from_end(line@, it.index(), 2),
            third == from_end(line@, it.index(), 3),
    {
        proof {
            lemma_one_more(line@.take(it.index()), c);
            assert(line@.take(it.index() + 1) == line@.take(it.index()).push(c));
        }
        if c == '\t' {
            tabs += 1;
            has_tab = true;
            after = after || text;
        } else {
            text = true;
        }
        third = second;
        second = last;
        last = Some(c);
    }
    assert(line@.take(line@.len() as int) == line@);
    let terminator = if is_char(second, '\r') && is_char(last, '\n') {
        Terminator::CrLf
    } else if is_char(last, '\n') {
        Terminator::Lf
    } else if is_char(last, '\r') {
        Terminator::Cr
    } else {
        Terminator::Missing
    };
    let before = match terminator {
        Terminator::Missing => None,
        Terminator::CrLf => third,
        _ => second,
    };
    let trailing = match before {
        Some(c) => char_is_whitespace(c),
        None => false,
    };
    Findings {
        has_tab,
        tab_after_text: after,
        terminator,
        trailing_whitespace: trailing,
        too_long: exceeds(config, len, tabs),
    }
}

} // verus!
