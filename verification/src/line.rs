//! Classification of one line into fixable and unfixable violations.

use crate::config::Config;
use crate::scan::scan_line;
use crate::text::{char_is_whitespace, is_whitespace};
use vstd::prelude::*;

verus! {

/// How a line ends.
#[derive(Clone, Copy, Debug, PartialEq, Eq, Structural)]
pub enum Terminator {
    /// The line has no terminator: the last fragment of a text.
    Missing,
    /// A line feed.
    Lf,
    /// A lone carriage return.
    Cr,
    /// A carriage return followed by a line feed.
    CrLf,
}

impl Terminator {
    /// The number of characters that the terminator takes.
    pub open spec fn width(self) -> nat {
        match self {
            Terminator::Missing => 0,
            Terminator::Lf => 1,
            Terminator::Cr => 1,
            Terminator::CrLf => 2,
        }
    }
}

/// The terminator that `line` ends with. The four cases exclude each other:
/// a carriage return before a final line feed belongs to the terminator.
pub open spec fn terminator_of(line: Seq<char>) -> Terminator {
    let n = line.len() as int;
    if n >= 2 && line[n - 2] == '\r' && line[n - 1] == '\n' {
        Terminator::CrLf
    } else if n >= 1 && line[n - 1] == '\n' {
        Terminator::Lf
    } else if n >= 1 && line[n - 1] == '\r' {
        Terminator::Cr
    } else {
        Terminator::Missing
    }
}

/// The line without its terminator.
pub open spec fn content_of(line: Seq<char>) -> Seq<char> {
    line.take(line.len() - terminator_of(line).width())
}

/// The number of tabs in `s`.
pub open spec fn tab_count(s: Seq<char>) -> nat
    decreases s.len(),
{
    if s.len() == 0 {
        0
    } else {
        tab_count(s.drop_last()) + if s.last() == '\t' {
            1nat
        } else {
            0nat
        }
    }
}

/// A tab stands somewhere behind a character that is no tab.
pub open spec fn tab_after_text(s: Seq<char>) -> bool {
    exists|i: int, j: int| 0 <= i < j < s.len() && s[i] != '\t' && s[j] == '\t'
}

/// A whitespace character stands directly before the terminator.
pub open spec fn trailing_whitespace(line: Seq<char>) -> bool {
    let content = content_of(line);
    terminator_of(line) != Terminator::Missing && content.len() > 0 && is_whitespace(
        content.last(),
    )
}

/// The visible length of a line of `len` characters, `tabs` of which are
/// tabs: each tab takes `tab_size` columns in place of one, and one is
/// taken off for the terminator; zero where that would fall below zero.
pub open spec fn visible_length_of(len: nat, tabs: nat, tab_size: nat) -> nat {
    let raw = len + tabs * (tab_size - 1) - 1;
    if raw < 0 {
        0
    } else {
        raw as nat
    }
}

/// The visible length of `line`.
pub open spec fn visible_length(line: Seq<char>, tab_size: nat) -> nat {
    visible_length_of(line.len(), tab_count(line), tab_size)
}

/// The line is longer than the configuration allows.
pub open spec fn too_long(config: Config, line: Seq<char>) -> bool {
    visible_length(line, config.tab_size as nat) > config.line_length
}

/// One if `b` holds, else zero.
pub open spec fn count_of(b: bool) -> nat {
    if b {
        1
    } else {
        0
    }
}

/// The number of violations of `line` that can be repaired: tabs where they
/// are to be expanded, a terminator other than a line feed, and whitespace
/// before the terminator.
pub open spec fn fixable_count(config: Config, line: Seq<char>) -> nat {
    count_of(config.expand_tabs && line.contains('\t')) + count_of(
        terminator_of(line) == Terminator::Cr,
    ) + count_of(terminator_of(line) == Terminator::CrLf) + count_of(trailing_whitespace(line))
}

/// The number of violations of `line` that are only reported: a tab behind
/// other characters where tabs are kept, and a line that is too long.
pub open spec fn unfixable_count(config: Config, line: Seq<char>) -> nat {
    count_of(!config.expand_tabs && tab_after_text(line)) + count_of(too_long(config, line))
}

/// The violations counted on a line or on a text.
#[derive(Clone, Copy, Debug, PartialEq, Eq, Structural)]
pub struct CheckResult {
    /// The violations that can be repaired.
    pub fixable: u64,
    /// The violations that are only reported.
    pub unfixable: u64,
}

/// The sum of two counts, held at the greatest value that a count can have.
pub open spec fn capped_sum(a: u64, b: u64) -> u64 {
    if a + b > u64::MAX {
        u64::MAX
    } else {
        (a + b) as u64
    }
}

impl CheckResult {
    /// No violation of either kind.
    pub open spec fn zero() -> CheckResult {
        CheckResult { fixable: 0, unfixable: 0 }
    }

    /// The counts of `self` and `other` added field by field.
    pub open spec fn plus(self, other: CheckResult) -> CheckResult {
        CheckResult {
            fixable: capped_sum(self.fixable, other.fixable),
            unfixable: capped_sum(self.unfixable, other.unfixable),
        }
    }

    /// Neither count is positive.
    pub open spec fn is_zero(self) -> bool {
        self.fixable == 0 && self.unfixable == 0
    }

    /// The result for `line` under `config`.
    pub open spec fn of_line(config: Config, line: Seq<char>) -> CheckResult {
        CheckResult {
            fixable: fixable_count(config, line) as u64,
            unfixable: unfixable_count(config, line) as u64,
        }
    }

    /// A result without violations.
    pub fn new() -> (r: CheckResult)
        ensures
            r == CheckResult::zero(),
    {
        CheckResult { fixable: 0, unfixable: 0 }
    }

    /// Adds the counts of `other` to those of `self`.
    pub fn add_assign(&mut self, other: CheckResult)
        ensures
            *final(self) == old(self).plus(other),
    {
        self.fixable = self.fixable.saturating_add(other.fixable);
        self.unfixable = self.unfixable.saturating_add(other.unfixable);
    }

    /// Whether nothing was found.
    pub fn is_clean(&self) -> (r: bool)
        ensures
            r == self.is_zero(),
    {
        self.fixable == 0 && self.unfixable == 0
    }
}

/// Counts form a commutative monoid under addition: adding nothing
/// changes nothing, the order of two counts does not matter, and neither
/// does the grouping of three.
pub proof fn counts_form_a_monoid(a: CheckResult, b: CheckResult, c: CheckResult)
    ensures
        a.plus(CheckResult::zero()) == a,
        CheckResult::zero().plus(a) == a,
        a.plus(b) == b.plus(a),
        a.plus(b).plus(c) == a.plus(b.plus(c)),
{
}

/// A sum of counts is zero exactly if both counts are.
pub proof fn sum_is_zero_if_both_are(a: CheckResult, b: CheckResult)
    ensures
        a.plus(b).is_zero() <==> a.is_zero() && b.is_zero(),
        a.plus(b).fixable == 0 <==> a.fixable == 0 && b.fixable == 0,
{
}

/// Classifies the end of `line`.
pub fn find_terminator(line: &[char]) -> (r: Terminator)
    ensures
        r == terminator_of(line@),
{
    let n: usize = line.len();
    if n >= 2 && line[n - 2] == '\r' && line[n - 1] == '\n' {
        Terminator::CrLf
    } else if n >= 1 && line[n - 1] == '\n' {
        Terminator::Lf
    } else if n >= 1 && line[n - 1] == '\r' {
        Terminator::Cr
    } else {
        Terminator::Missing
    }
}

/// The number of characters of a terminator.
pub fn terminator_width(t: Terminator) -> (r: usize)
    ensures
        r == t.width(),
{
    match t {
        Terminator::Missing => 0,
        Terminator::Lf => 1,
        Terminator::Cr => 1,
        Terminator::CrLf => 2,
    }
}

/// Counts the tabs of `s`.
pub fn count_tabs(s: &[char]) -> (r: usize)
    ensures
        r == tab_count(s@),
{
    let mut count: usize = 0;
    let mut i: usize = 0;
    while i < s.len()
        invariant
            i <= s@.len(),
            count <= i,
            count == tab_count(s@.take(i as int)),
        decreases s@.len() - i,
    {
        assert(s@.take(i + 1).drop_last() == s@.take(i as int));
        if s[i] == '\t' {
            count += 1;
        }
        i += 1;
    }
    assert(s@.take(s@.len() as int) == s@);
    count
}

/// Whether `s` holds a tab.
pub fn contains_tab(s: &[char]) -> (r: bool)
    ensures
        r == s@.contains('\t'),
{
    let mut i: usize = 0;
    while i < s.len()
        invariant
            i <= s@.len(),
            forall|k: int| 0 <= k < i ==> s@[k] != '\t',
        decreases s@.len() - i,
    {
        if s[i] == '\t' {
            return true;
        }
        i += 1;
    }
    false
}

/// Whether a tab of `s` stands behind a character that is no tab.
pub fn has_tab_after_text(s: &[char]) -> (r: bool)
    ensures
        r == tab_after_text(s@),
{
    let mut first: usize = 0;
    while first < s.len() && s[first] == '\t'
        invariant
            first <= s@.len(),
            forall|k: int| 0 <= k < first ==> s@[k] == '\t',
        decreases s@.len() - first,
    {
        first += 1;
    }
    let mut j: usize = first;
    while j < s.len()
        invariant
            first <= j <= s@.len(),
            first < s@.len() ==> s@[first as int] != '\t',
            forall|k: int| 0 <= k < first ==> s@[k] == '\t',
            forall|k: int| first <= k < j ==> s@[k] != '\t',
        decreases s@.len() - j,
    {
        if s[j] == '\t' {
            return true;
        }
        j += 1;
    }
    false
}

/// Whether whitespace stands directly before the terminator of `line`.
pub fn has_trailing_whitespace(line: &[char]) -> (r: bool)
    ensures
        r == trailing_whitespace(line@),
{
    let t = find_terminator(line);
    let end: usize = line.len() - terminator_width(t);
    match t {
        Terminator::Missing => false,
        _ => end > 0 && char_is_whitespace(line[end - 1]),
    }
}

/// Whether a line of `len` characters, `tabs` of which are tabs, is longer
/// than the configuration allows.
pub fn exceeds(config: &Config, len: usize, tabs: usize) -> (r: bool)
    ensures
        r == (visible_length_of(len as nat, tabs as nat, config.tab_size as nat)
            > config.line_length),
{
    let len: u128 = len as u128;
    let tabs: u128 = tabs as u128;
    let limit: u128 = config.line_length as u128;
    if config.tab_size == 0 {
        len > tabs + 1 && len - tabs - 1 > limit
    } else {
        let extra: u128 = (config.tab_size - 1) as u128;
        assert(tabs * extra <= 0xFFFF_FFFF_FFFF_FFFF * 0xFFFF_FFFF_FFFF_FFFF) by (nonlinear_arith)
            requires
                0 <= tabs <= 0xFFFF_FFFF_FFFF_FFFF,
                0 <= extra <= 0xFFFF_FFFF_FFFF_FFFF,
        ;
        let total: u128 = len + tabs * extra;
        total > 0 && total - 1 > limit
    }
}

/// Whether the visible length of `line` exceeds the configured one.
pub fn is_too_long(config: &Config, line: &[char]) -> (r: bool)
    ensures
        r == too_long(*config, line@),
{
    exceeds(config, line.len(), count_tabs(line))
}

/// What the rules find on a line.
#[derive(Clone, Copy, Debug, PartialEq, Eq, Structural)]
pub struct Findings {
    /// The line holds a tab.
    pub has_tab: bool,
    /// A tab stands behind a character that is no tab.
    pub tab_after_text: bool,
    /// How the line ends.
    pub terminator: Terminator,
    /// Whitespace stands directly before the terminator.
    pub trailing_whitespace: bool,
    /// The line is longer than the configuration allows.
    pub too_long: bool,
}

impl Findings {
    /// What the rules find on `line` under `config`.
    pub open spec fn of_line(config: Config, line: Seq<char>) -> Findings {
        Findings {
            has_tab: line.contains('\t'),
            tab_after_text: tab_after_text(line),
            terminator: terminator_of(line),
            trailing_whitespace: trailing_whitespace(line),
            too_long: too_long(config, line),
        }
    }

    /// The counts that the findings amount to: one for each rule that
    /// fired.
    pub open spec fn result(self, config: Config) -> CheckResult {
        CheckResult {
            fixable: (count_of(config.expand_tabs && self.has_tab) + count_of(
                self.terminator == Terminator::Cr,
            ) + count_of(self.terminator == Terminator::CrLf) + count_of(
                self.trailing_whitespace,
            )) as u64,
            unfixable: (count_of(!config.expand_tabs && self.tab_after_text) + count_of(
                self.too_long,
            )) as u64,
        }
    }

    /// Counts the findings: one for each rule that fired.
    pub fn counts(&self, config: &Config) -> (r: CheckResult)
        ensures
            r == self.result(*config),
    {
        let mut fixable: u64 = 0;
        let mut unfixable: u64 = 0;
        if config.expand_tabs {
            if self.has_tab {
                fixable += 1;
            }
        } else if self.tab_after_text {
            unfixable += 1;
        }
        match self.terminator {
            Terminator::Cr => {
                fixable += 1;
            },
            Terminator::CrLf => {
                fixable += 1;
            },
            _ => {},
        }
        if self.trailing_whitespace {
            fixable += 1;
        }
        if self.too_long {
            unfixable += 1;
        }
        CheckResult { fixable, unfixable }
    }
}

/// What the rules find on a line given by its characters.
pub fn findings(config: &Config, line: &[char]) -> (r: Findings)
    ensures
        r == Findings::of_line(*config, line@),
{
    Findings {
        has_tab: contains_tab(line),
        tab_after_text: has_tab_after_text(line),
        terminator: find_terminator(line),
        trailing_whitespace: has_trailing_whitespace(line),
        too_long: is_too_long(config, line),
    }
}

/// Counts the violations of a line given by its characters.
pub fn classify(config: &Config, line: &[char]) -> (r: CheckResult)
    ensures
        r == CheckResult::of_line(*config, line@),
{
    findings(config, line).counts(config)
}

/// Counts the violations of `line` under `config`: how many of them can be
/// repaired and how many can only be reported. The line is read once, and
/// nothing is copied.
pub fn check_line(config: &Config, line: &str) -> (r: CheckResult)
    ensures
        r == CheckResult::of_line(*config, line@),
{
    scan_line(config, line).counts(config)
}

} // verus!
