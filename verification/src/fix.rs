//! Repair of one line, with the list of what was repaired or found.

use crate::config::Config;
use crate::line::{
    contains_tab, content_of, find_terminator, fixable_count, has_tab_after_text, is_too_long,
    tab_after_text, terminator_of, terminator_width, too_long, trailing_whitespace, CheckResult,
    Terminator,
};
use crate::report::{diagnostic, format_diagnostic};
use crate::scan::scan_line;
use crate::text::{char_is_whitespace, is_whitespace, option_view, to_chars, to_string};
use vstd::prelude::*;
use vstd::slice::slice_subrange;

verus! {

/// One correction that was applied to a line, or one violation that was
/// found and left in place.
#[derive(Clone, Copy, Debug, PartialEq, Eq, Structural)]
pub enum Tag {
    /// A lone carriage return was replaced by a line feed.
    FixedMacLineEnding,
    /// A carriage return and line feed were replaced by a line feed.
    FixedWindowsLineEnding,
    /// Each tab was replaced by spaces.
    ExpandedTabs,
    /// A tab stands behind other characters; the line was left as it is.
    TabsAfterOtherCharacters,
    /// Whitespace before the terminator was removed.
    RemovedWhitespaceFromEnd,
    /// The line is longer than allowed; it was left as it is.
    LineTooLong,
}

/// `n` spaces.
pub open spec fn spaces(n: nat) -> Seq<char> {
    Seq::new(n, |i: int| ' ')
}

/// `s` with each tab replaced by `tab_size` spaces.
pub open spec fn with_tabs_expanded(s: Seq<char>, tab_size: nat) -> Seq<char>
    decreases s.len(),
{
    if s.len() == 0 {
        Seq::empty()
    } else if s.last() == '\t' {
        with_tabs_expanded(s.drop_last(), tab_size) + spaces(tab_size)
    } else {
        with_tabs_expanded(s.drop_last(), tab_size).push(s.last())
    }
}

/// `s` without the whitespace at its end.
pub open spec fn without_trailing_whitespace(s: Seq<char>) -> Seq<char>
    decreases s.len(),
{
    if s.len() > 0 && is_whitespace(s.last()) {
        without_trailing_whitespace(s.drop_last())
    } else {
        s
    }
}

/// The content of `line` after tabs were expanded, where the configuration
/// asks for that.
pub open spec fn expanded_content(config: Config, line: Seq<char>) -> Seq<char> {
    if config.expand_tabs {
        with_tabs_expanded(content_of(line), config.tab_size as nat)
    } else {
        content_of(line)
    }
}

/// After the expansion of tabs, whitespace stands before the terminator.
pub open spec fn strips_whitespace(config: Config, line: Seq<char>) -> bool {
    let content = expanded_content(config, line);
    terminator_of(line) != Terminator::Missing && content.len() > 0 && is_whitespace(
        content.last(),
    )
}

/// The repaired form of `line`: its content with tabs expanded where asked
/// for and without whitespace before the terminator, followed by a line
/// feed if the line had a terminator of any form.
pub open spec fn fixed_line(config: Config, line: Seq<char>) -> Seq<char> {
    let content = expanded_content(config, line);
    match terminator_of(line) {
        Terminator::Missing => content,
        _ => without_trailing_whitespace(content).push('\n'),
    }
}

/// The tag `tag` if `b` holds, else nothing.
pub open spec fn tag_if(b: bool, tag: Tag) -> Seq<Tag> {
    if b {
        seq![tag]
    } else {
        Seq::empty()
    }
}

/// The tags that stand for the six findings, each present if its flag is
/// set, in the order in which the repairs are made.
pub open spec fn tags_of(
    mac: bool,
    windows: bool,
    expanded: bool,
    misplaced: bool,
    stripped: bool,
    long: bool,
) -> Seq<Tag> {
    tag_if(mac, Tag::FixedMacLineEnding) + tag_if(windows, Tag::FixedWindowsLineEnding) + tag_if(
        expanded,
        Tag::ExpandedTabs,
    ) + tag_if(misplaced, Tag::TabsAfterOtherCharacters) + tag_if(
        stripped,
        Tag::RemovedWhitespaceFromEnd,
    ) + tag_if(long, Tag::LineTooLong)
}

/// The tags of `line`: for the terminator, the tabs, the whitespace at the
/// end, and the length of the line as it stands after the repairs.
pub open spec fn line_tags(config: Config, line: Seq<char>) -> Seq<Tag> {
    tags_of(
        terminator_of(line) == Terminator::Cr,
        terminator_of(line) == Terminator::CrLf,
        config.expand_tabs && line.contains('\t'),
        !config.expand_tabs && tab_after_text(line),
        strips_whitespace(config, line),
        too_long(config, fixed_line(config, line)),
    )
}

/// Appends `n` spaces to `out`.
fn push_spaces(out: &mut Vec<char>, n: usize)
    ensures
        final(out)@ == old(out)@ + spaces(n as nat),
{
    let mut k: usize = 0;
    while k < n
        invariant
            k <= n,
            out@ == old(out)@ + spaces(k as nat),
        decreases n - k,
    {
        out.push(' ');
        k += 1;
    }
}

/// Appends `content` to `out`, each tab replaced by `tab_size` spaces, and
/// says whether there was a tab.
fn push_expanded(out: &mut Vec<char>, content: &[char], tab_size: usize) -> (found: bool)
    ensures
        final(out)@ == old(out)@ + with_tabs_expanded(content@, tab_size as nat),
        found == content@.contains('\t'),
{
    let mut found = false;
    let mut i: usize = 0;
    while i < content.len()
        invariant
            i <= content@.len(),
            out@ == old(out)@ + with_tabs_expanded(content@.take(i as int), tab_size as nat),
            found == content@.take(i as int).contains('\t'),
        decreases content@.len() - i,
    {
        let c = content[i];
        assert(content@.take(i + 1).drop_last() == content@.take(i as int));
        if c == '\t' {
            found = true;
            push_spaces(out, tab_size);
        } else {
            out.push(c);
        }
        i += 1;
        assert(out@ == old(out)@ + with_tabs_expanded(content@.take(i as int), tab_size as nat));
    }
    assert(content@.take(content@.len() as int) == content@);
    found
}

/// A tab stands in a line exactly if one stands in its content.
pub proof fn lemma_terminator_holds_no_tab(line: Seq<char>)
    ensures
        content_of(line).contains('\t') == line.contains('\t'),
{
    let content = content_of(line);
    if line.contains('\t') {
        let k = choose|k: int| 0 <= k < line.len() && line[k] == '\t';
        assert(content[k] == '\t');
    }
}

/// Removes the whitespace at the end of `out`, as far back as `start`.
fn pop_trailing_whitespace(out: &mut Vec<char>, start: usize)
    requires
        start <= old(out)@.len(),
    ensures
        final(out)@ == old(out)@.take(start as int) + without_trailing_whitespace(
            old(out)@.skip(start as int),
        ),
{
    let ghost tail = out@.skip(start as int);
    while out.len() > start && char_is_whitespace(out[out.len() - 1])
        invariant
            start <= out@.len(),
            out@.take(start as int) == old(out)@.take(start as int),
            without_trailing_whitespace(out@.skip(start as int)) == without_trailing_whitespace(
                tail,
            ),
        decreases out@.len(),
    {
        let ghost before = out@;
        out.pop();
        assert(out@.skip(start as int) == before.skip(start as int).drop_last());
    }
}

/// Appends `tag` to `tags` if `b` holds.
fn push_tag_if(tags: &mut Vec<Tag>, b: bool, tag: Tag)
    ensures
        final(tags)@ == old(tags)@ + tag_if(b, tag),
{
    if b {
        tags.push(tag);
    }
}

/// The list of the tags whose flags are set.
fn collect_tags(
    mac: bool,
    windows: bool,
    expanded: bool,
    misplaced: bool,
    stripped: bool,
    long: bool,
) -> (tags: Vec<Tag>)
    ensures
        tags@ == tags_of(mac, windows, expanded, misplaced, stripped, long),
{
    let mut tags: Vec<Tag> = Vec::new();
    push_tag_if(&mut tags, mac, Tag::FixedMacLineEnding);
    push_tag_if(&mut tags, windows, Tag::FixedWindowsLineEnding);
    push_tag_if(&mut tags, expanded, Tag::ExpandedTabs);
    push_tag_if(&mut tags, misplaced, Tag::TabsAfterOtherCharacters);
    push_tag_if(&mut tags, stripped, Tag::RemovedWhitespaceFromEnd);
    push_tag_if(&mut tags, long, Tag::LineTooLong);
    tags
}

/// Appends the repaired form of `line` to `out`. Says whether the content
/// held a tab and whether whitespace was removed.
fn push_fixed(config: &Config, line: &[char], out: &mut Vec<char>) -> (r: (bool, bool))
    ensures
        final(out)@ == old(out)@ + fixed_line(*config, line@),
        r.0 == line@.contains('\t'),
        r.1 == strips_whitespace(*config, line@),
{
    let start: usize = out.len();
    let terminator = find_terminator(line);
    let end: usize = line.len() - terminator_width(terminator);
    let content = slice_subrange(line, 0, end);
    proof {
        lemma_terminator_holds_no_tab(line@);
    }
    let found: bool;
    if config.expand_tabs {
        found = push_expanded(out, content, config.tab_size);
    } else {
        found = contains_tab(content);
        out.extend_from_slice(content);
    }
    assert(out@.skip(start as int) == expanded_content(*config, line@));
    let mut stripped = false;
    match terminator {
        Terminator::Missing => {},
        _ => {
            stripped = out.len() > start && char_is_whitespace(out[out.len() - 1]);
            pop_trailing_whitespace(out, start);
            out.push('\n');
        },
    }
    (found, stripped)
}

/// Appends the repaired form of `line` to `out` and returns the tags of the
/// line.
pub fn repair(config: &Config, line: &[char], out: &mut Vec<char>) -> (tags: Vec<Tag>)
    ensures
        final(out)@ == old(out)@ + fixed_line(*config, line@),
        tags@ == line_tags(*config, line@),
{
    let start: usize = out.len();
    let terminator = find_terminator(line);
    let (found, stripped) = push_fixed(config, line, out);
    assert(out@.skip(start as int) == fixed_line(*config, line@));
    let long = is_too_long(config, slice_subrange(out.as_slice(), start, out.len()));
    let misplaced = !config.expand_tabs && has_tab_after_text(line);
    collect_tags(
        terminator == Terminator::Cr,
        terminator == Terminator::CrLf,
        config.expand_tabs && found,
        misplaced,
        stripped,
        long,
    )
}

/// Expanding the tabs of a sequence that holds none changes nothing.
pub proof fn lemma_expand_without_tabs(s: Seq<char>, tab_size: nat)
    requires
        !s.contains('\t'),
    ensures
        with_tabs_expanded(s, tab_size) == s,
    decreases s.len(),
{
    if s.len() > 0 {
        let front = s.drop_last();
        assert forall|k: int| 0 <= k < front.len() implies front[k] != '\t' by {
            assert(front[k] == s[k]);
        }
        lemma_expand_without_tabs(front, tab_size);
        assert(front.push(s.last()) == s);
    }
}

/// No flag, no tag; and a flag that is set leaves its tag in the list.
pub proof fn lemma_tags_of_empty(
    mac: bool,
    windows: bool,
    expanded: bool,
    misplaced: bool,
    stripped: bool,
    long: bool,
)
    ensures
        tags_of(mac, windows, expanded, misplaced, stripped, long).len() == 0 <==> !(mac || windows
            || expanded || misplaced || stripped || long),
{
}

/// A line on which nothing can be repaired is its own repaired form, and
/// its only tags are those of what cannot be repaired.
pub proof fn lemma_line_without_fixable(config: Config, line: Seq<char>)
    requires
        fixable_count(config, line) == 0,
    ensures
        fixed_line(config, line) == line,
        line_tags(config, line) == tags_of(
            false,
            false,
            false,
            !config.expand_tabs && tab_after_text(line),
            false,
            too_long(config, line),
        ),
{
    let content = content_of(line);
    lemma_terminator_holds_no_tab(line);
    if config.expand_tabs {
        lemma_expand_without_tabs(content, config.tab_size as nat);
    }
    if terminator_of(line) == Terminator::Lf {
        assert(content.push('\n') == line);
    } else {
        assert(content == line);
    }
}

/// The repair and the classification agree on the whitespace at the end:
/// it is removed exactly where it was counted. This needs a tab to be at
/// least one column wide where tabs are expanded: a tab of no width at the
/// end of a line is counted as whitespace and then leaves none behind.
pub proof fn repair_agrees_with_counts(config: Config, line: Seq<char>)
    requires
        config.expand_tabs ==> config.tab_size > 0,
    ensures
        strips_whitespace(config, line) == trailing_whitespace(line),
        line_tags(config, line) == tags_of(
            terminator_of(line) == Terminator::Cr,
            terminator_of(line) == Terminator::CrLf,
            config.expand_tabs && line.contains('\t'),
            !config.expand_tabs && tab_after_text(line),
            trailing_whitespace(line),
            too_long(config, fixed_line(config, line)),
        ),
{
    let content = content_of(line);
    if config.expand_tabs && content.len() > 0 {
        let front = with_tabs_expanded(content.drop_last(), config.tab_size as nat);
        if content.last() == '\t' {
            let tail = spaces(config.tab_size as nat);
            assert((front + tail).last() == tail.last());
        } else {
            assert(front.push(content.last()).last() == content.last());
        }
    }
}

/// Conservation: a line without violations is its own repaired form. It
/// has no tags, and a line with a violation has at least one.
pub proof fn clean_line_is_kept(config: Config, line: Seq<char>)
    ensures
        CheckResult::of_line(config, line).is_zero() ==> fixed_line(config, line) == line,
        CheckResult::of_line(config, line).is_zero() <==> line_tags(config, line).len() == 0,
{
    lemma_tags_of_empty(
        terminator_of(line) == Terminator::Cr,
        terminator_of(line) == Terminator::CrLf,
        config.expand_tabs && line.contains('\t'),
        !config.expand_tabs && tab_after_text(line),
        strips_whitespace(config, line),
        too_long(config, fixed_line(config, line)),
    );
    if fixable_count(config, line) == 0 {
        lemma_line_without_fixable(config, line);
    } else if !(config.expand_tabs && line.contains('\t')) {
        lemma_terminator_holds_no_tab(line);
        if config.expand_tabs {
            lemma_expand_without_tabs(content_of(line), config.tab_size as nat);
        }
    }
}

/// The text of a line after repair: the line itself where nothing was to
/// be done, else a new string.
#[derive(Debug)]
pub enum LineText<'a> {
    /// The line as it was given.
    Unchanged(&'a str),
    /// The line as it stands after the repairs.
    Modified(String),
}

impl<'a> View for LineText<'a> {
    type V = Seq<char>;

    open spec fn view(&self) -> Seq<char> {
        match self {
            LineText::Unchanged(s) => s@,
            LineText::Modified(s) => s@,
        }
    }
}

impl<'a> LineText<'a> {
    /// The text as a string slice.
    pub fn as_str(&self) -> (r: &str)
        ensures
            r@ == self@,
    {
        match self {
            LineText::Unchanged(s) => s,
            LineText::Modified(s) => s.as_str(),
        }
    }
}

/// What the repair of one line gives: the text, the tags, and the
/// diagnostic to emit, if any.
#[derive(Debug)]
pub struct LineFix<'a> {
    /// The repaired line.
    pub text: LineText<'a>,
    /// What was repaired or found, in the order of detection.
    pub tags: Vec<Tag>,
    /// The diagnostic for the line; none for a line without tags.
    pub report: Option<String>,
}

/// The diagnostic that a line with the tags `tags` calls for.
pub open spec fn report_of(filename: Seq<char>, line_number: nat, tags: Seq<Tag>) -> Option<
    Seq<char>,
> {
    if tags.len() == 0 {
        None
    } else {
        Some(diagnostic(filename, line_number, tags))
    }
}

/// Repairs `line`, the line `line_number` of the file `filename`, counted
/// from one. A line on which nothing can be repaired is handed back as it
/// is, and no copy of it is made. Any other line is rebuilt: its terminator becomes a line feed, its
/// tabs are expanded where the configuration asks for it, and the
/// whitespace before its terminator is removed. The tags name what was done
/// or found, and the diagnostic lists them; a line without violations has
/// neither.
pub fn fix_line<'a>(config: &Config, filename: &str, line_number: u64, line: &'a str) -> (r:
    LineFix<'a>)
    ensures
        r.text@ == fixed_line(*config, line@),
        r.text is Unchanged <==> fixable_count(*config, line@) == 0,
        r.tags@ == line_tags(*config, line@),
        r.tags@.len() == 0 <==> CheckResult::of_line(*config, line@).is_zero(),
        option_view(r.report) == report_of(filename@, line_number as nat, r.tags@),
{
    let found = scan_line(config, line);
    proof {
        clean_line_is_kept(*config, line@);
    }
    if found.counts(config).fixable == 0 {
        proof {
            lemma_line_without_fixable(*config, line@);
        }
        let misplaced = !config.expand_tabs && found.tab_after_text;
        let tags = collect_tags(false, false, false, misplaced, false, found.too_long);
        let report = if tags.len() > 0 {
            Some(format_diagnostic(filename, line_number, tags.as_slice()))
        } else {
            None
        };
        return LineFix { text: LineText::Unchanged(line), tags, report };
    }
    let chars = to_chars(line);
    let mut out: Vec<char> = Vec::new();
    let tags = repair(config, chars.as_slice(), &mut out);
    let text = to_string(out.as_slice(), 0, out.len());
    let report = format_diagnostic(filename, line_number, tags.as_slice());
    LineFix { text: LineText::Modified(text), tags, report: Some(report) }
}

} // verus!
