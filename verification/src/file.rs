//! A text as a sequence of lines, and the two passes over it: the count of
//! its violations and its repair.

use crate::config::Config;
use crate::fix::{fixed_line, line_tags, repair, report_of};
use crate::line::{classify, CheckResult};
use crate::report::format_diagnostic;
use crate::text::{to_chars, to_string};
use vstd::prelude::*;
use vstd::slice::slice_subrange;

verus! {

/// A character that ends a line, alone or as part of a terminator.
pub open spec fn is_break(c: char) -> bool {
    c == '\n' || c == '\r'
}

/// The number of characters of `text` before its first line feed or
/// carriage return; the length of `text` where it has neither.
pub open spec fn first_break(text: Seq<char>) -> nat
    decreases text.len(),
{
    if text.len() == 0 || is_break(text[0]) {
        0
    } else {
        1 + first_break(text.skip(1))
    }
}

/// The length of the first line of `text`: the characters up to and
/// including the first terminator, which is a line feed, a carriage return
/// with the line feed that follows it, or a carriage return alone; all of
/// `text` where it has no terminator.
pub open spec fn first_line_len(text: Seq<char>) -> nat {
    let k = first_break(text) as int;
    if k >= text.len() {
        text.len()
    } else if text[k] == '\r' && k + 1 < text.len() && text[k + 1] == '\n' {
        (k + 2) as nat
    } else {
        (k + 1) as nat
    }
}

/// The lines of `text`, in order. Each holds its terminator; only the last
/// can be without one. Strung together they give `text`.
pub open spec fn lines_of(text: Seq<char>) -> Seq<Seq<char>>
    decreases text.len(),
    via lines_of_decreases
{
    if text.len() == 0 {
        Seq::empty()
    } else {
        let n = first_line_len(text) as int;
        seq![text.take(n)] + lines_of(text.skip(n))
    }
}

#[via_fn]
proof fn lines_of_decreases(text: Seq<char>) {
    lemma_first_break(text);
}

/// The break of a text lies within it, no break stands before it, and it
/// is a break unless the text has none.
pub proof fn lemma_first_break(text: Seq<char>)
    ensures
        first_break(text) <= text.len(),
        forall|k: int| 0 <= k < first_break(text) ==> !is_break(#[trigger] text[k]),
        first_break(text) < text.len() ==> is_break(text[first_break(text) as int]),
    decreases text.len(),
{
    if text.len() > 0 && !is_break(text[0]) {
        let rest = text.skip(1);
        lemma_first_break(rest);
        assert forall|k: int| 0 <= k < first_break(text) implies !is_break(
            #[trigger] text[k],
        ) by {
            if k > 0 {
                assert(text[k] == rest[k - 1]);
            }
        }
    }
}

/// The place `j` is the break of `text` if no break stands before it and
/// one stands at it, or the text ends there.
pub proof fn lemma_first_break_at(text: Seq<char>, j: int)
    requires
        0 <= j <= text.len(),
        forall|k: int| 0 <= k < j ==> !is_break(#[trigger] text[k]),
        j < text.len() ==> is_break(text[j]),
    ensures
        first_break(text) == j,
{
    lemma_first_break(text);
}

/// Where the line that starts at `from` ends.
pub fn line_end(text: &[char], from: usize) -> (r: usize)
    requires
        from < text@.len(),
    ensures
        from < r <= text@.len(),
        r == from + first_line_len(text@.skip(from as int)),
{
    let ghost rest = text@.skip(from as int);
    let mut i: usize = from;
    while i < text.len() && text[i] != '\n' && text[i] != '\r'
        invariant
            from <= i <= text@.len(),
            rest == text@.skip(from as int),
            forall|k: int| 0 <= k < i - from ==> !is_break(#[trigger] rest[k]),
        decreases text@.len() - i,
    {
        i += 1;
    }
    proof {
        lemma_first_break_at(rest, i - from);
    }
    if i >= text.len() {
        i
    } else if text[i] == '\r' && i + 1 < text.len() && text[i + 1] == '\n' {
        i + 2
    } else {
        i + 1
    }
}

/// Where the line `i` starts, given where the lines end: at the start of
/// the text, or where the line before it ends.
pub open spec fn line_start(ends: Seq<usize>, i: int) -> int {
    if i <= 0 {
        0
    } else {
        ends[i - 1] as int
    }
}

/// The string `line` is what stands in `text` from `from` up to `to`, and
/// it is not empty.
pub open spec fn stands_at(text: Seq<char>, from: int, to: int, line: Seq<char>) -> bool {
    0 <= from < to <= text.len() && line == text.subrange(from, to)
}

/// The places `ends` are where the lines of `text` end, in order: the line
/// `i` reaches from where it starts up to `ends[i]`.
pub open spec fn cuts(text: Seq<char>, ends: Seq<usize>) -> bool {
    &&& ends.len() == lines_of(text).len()
    &&& forall|i: int|
        0 <= i < ends.len() ==> #[trigger] stands_at(
            text,
            line_start(ends, i),
            ends[i] as int,
            lines_of(text)[i],
        )
}

/// Cuts `text` into its lines: says where each of them ends.
pub fn cut_lines(text: &[char]) -> (ends: Vec<usize>)
    ensures
        cuts(text@, ends@),
{
    let mut ends: Vec<usize> = Vec::new();
    let mut at: usize = 0;
    let ghost mut done: Seq<Seq<char>> = Seq::empty();
    assert(text@.skip(0) == text@);
    while at < text.len()
        invariant
            at <= text@.len(),
            at == line_start(ends@, ends@.len() as int),
            lines_of(text@) == done + lines_of(text@.skip(at as int)),
            done.len() == ends@.len(),
            forall|i: int|
                0 <= i < ends@.len() ==> #[trigger] stands_at(
                    text@,
                    line_start(ends@, i),
                    ends@[i] as int,
                    done[i],
                ),
        decreases text@.len() - at,
    {
        let end = line_end(text, at);
        let ghost before = ends@;
        let ghost line = text@.subrange(at as int, end as int);
        proof {
            let rest = text@.skip(at as int);
            assert(rest.take(end - at) == line);
            assert(rest.skip(end - at) == text@.skip(end as int));
            assert(done.push(line) + lines_of(text@.skip(end as int)) == done + lines_of(rest));
        }
        ends.push(end);
        proof {
            assert forall|i: int| 0 <= i < ends@.len() implies #[trigger] stands_at(
                text@,
                line_start(ends@, i),
                ends@[i] as int,
                done.push(line)[i],
            ) by {
                if i < before.len() {
                    assert(stands_at(text@, line_start(before, i), before[i] as int, done[i]));
                }
            }
            done = done.push(line);
        }
        at = end;
    }
    assert(lines_of(text@) == done) by {
        assert(done + lines_of(text@.skip(at as int)) == done);
    }
    ends
}

/// The line `k` of `text`, which `ends` cuts into lines.
pub fn line_at<'a>(text: &'a [char], ends: &Vec<usize>, k: usize) -> (line: &'a [char])
    requires
        cuts(text@, ends@),
        k < ends@.len(),
    ensures
        line@ == lines_of(text@)[k as int],
{
    let start: usize = if k == 0 {
        0
    } else {
        ends[k - 1]
    };
    assert(stands_at(
        text@,
        line_start(ends@, k as int),
        ends@[k as int] as int,
        lines_of(text@)[k as int],
    ));
    slice_subrange(text, start, ends[k])
}

/// The counts of all `lines` added up.
pub open spec fn total(config: Config, lines: Seq<Seq<char>>) -> CheckResult
    decreases lines.len(),
{
    if lines.len() == 0 {
        CheckResult::zero()
    } else {
        total(config, lines.drop_last()).plus(CheckResult::of_line(config, lines.last()))
    }
}

/// The counts of the violations of a whole text: those of its lines added
/// up.
pub open spec fn text_result(config: Config, text: Seq<char>) -> CheckResult {
    total(config, lines_of(text))
}

/// Counts the violations of every line of `text` and adds them up.
pub fn check_file(config: &Config, text: &str) -> (r: CheckResult)
    ensures
        r == text_result(*config, text@),
{
    let chars = to_chars(text);
    let all = chars.as_slice();
    let ends = cut_lines(all);
    let ghost lines = lines_of(text@);
    let mut result = CheckResult::new();
    let mut k: usize = 0;
    while k < ends.len()
        invariant
            k <= ends@.len(),
            all@ == text@,
            lines == lines_of(text@),
            cuts(all@, ends@),
            result == total(*config, lines.take(k as int)),
        decreases ends@.len() - k,
    {
        assert(lines.take(k + 1).drop_last() == lines.take(k as int));
        result.add_assign(classify(config, line_at(all, &ends, k)));
        k += 1;
    }
    assert(lines.take(k as int) == lines);
    result
}

/// The repaired forms of `lines`, strung together.
pub open spec fn fixed_lines(config: Config, lines: Seq<Seq<char>>) -> Seq<char>
    decreases lines.len(),
{
    if lines.len() == 0 {
        Seq::empty()
    } else {
        fixed_lines(config, lines.drop_last()) + fixed_line(config, lines.last())
    }
}

/// The repaired form of a whole text: line by line.
pub open spec fn fixed_text(config: Config, text: Seq<char>) -> Seq<char> {
    fixed_lines(config, lines_of(text))
}

/// The diagnostics for `lines`, the first of which has the number one: one
/// for each line that has a tag, in the order of the lines.
pub open spec fn reports_of(config: Config, filename: Seq<char>, lines: Seq<Seq<char>>) -> Seq<
    Seq<char>,
>
    decreases lines.len(),
{
    if lines.len() == 0 {
        Seq::empty()
    } else {
        let before = reports_of(config, filename, lines.drop_last());
        match report_of(filename, lines.len(), line_tags(config, lines.last())) {
            Some(report) => before.push(report),
            None => before,
        }
    }
}

/// The diagnostics for a whole text.
pub open spec fn text_reports(config: Config, filename: Seq<char>, text: Seq<char>) -> Seq<
    Seq<char>,
> {
    reports_of(config, filename, lines_of(text))
}

/// The views of the strings of `v`.
pub open spec fn views(v: Seq<String>) -> Seq<Seq<char>> {
    Seq::new(v.len(), |i: int| v[i]@)
}

/// What the repair of a text gives.
#[derive(Debug)]
pub struct FileFix {
    /// The repaired text.
    pub text: String,
    /// One diagnostic for each line that has a tag, in the order of the
    /// lines.
    pub reports: Vec<String>,
}

/// Repairs every line of `text`, the content of the file `filename`, and
/// lists the diagnostics of the lines that have a tag.
pub fn fix_file(config: &Config, filename: &str, text: &str) -> (r: FileFix)
    ensures
        r.text@ == fixed_text(*config, text@),
        views(r.reports@) == text_reports(*config, filename@, text@),
{
    let chars = to_chars(text);
    let all = chars.as_slice();
    let ends = cut_lines(all);
    let ghost lines = lines_of(text@);
    let mut out: Vec<char> = Vec::new();
    let mut reports: Vec<String> = Vec::new();
    let mut k: usize = 0;
    assert(views(reports@) == reports_of(*config, filename@, lines.take(0)));
    while k < ends.len()
        invariant
            k <= ends@.len(),
            all@ == text@,
            lines == lines_of(text@),
            cuts(all@, ends@),
            out@ == fixed_lines(*config, lines.take(k as int)),
            views(reports@) == reports_of(*config, filename@, lines.take(k as int)),
        decreases ends@.len() - k,
    {
        assert(lines.take(k + 1).drop_last() == lines.take(k as int));
        let tags = repair(config, line_at(all, &ends, k), &mut out);
        k += 1;
        if tags.len() > 0 {
            let ghost before = reports@;
            let report = format_diagnostic(filename, k as u64, tags.as_slice());
            reports.push(report);
            assert(views(reports@) == views(before).push(report@));
        }
    }
    assert(lines.take(k as int) == lines);
    let text = to_string(out.as_slice(), 0, out.len());
    FileFix { text, reports }
}

} // verus!
