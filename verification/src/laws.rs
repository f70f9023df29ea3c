//! What holds of the repair of whole texts: a repaired text has nothing
//! left to repair, repairing it again changes nothing, and a text without
//! violations is its own repaired form.

use crate::config::Config;
use crate::file::{
    first_break, first_line_len, fixed_lines, fixed_text, is_break, lemma_first_break,
    lemma_first_break_at, lines_of, reports_of, text_reports, text_result, total,
};
use crate::fix::{
    clean_line_is_kept, expanded_content, fixed_line, lemma_expand_without_tabs, spaces,
    with_tabs_expanded, without_trailing_whitespace,
};
use crate::line::{content_of, fixable_count, terminator_of, unfixable_count, Terminator};
use crate::process::Outcome;
use crate::text::is_whitespace;
use vstd::prelude::*;

verus! {

/// No character of `s` is a line feed or a carriage return.
pub open spec fn break_free(s: Seq<char>) -> bool {
    forall|i: int| 0 <= i < s.len() ==> !is_break(#[trigger] s[i])
}

/// The strings strung together.
pub open spec fn joined(lines: Seq<Seq<char>>) -> Seq<char>
    decreases lines.len(),
{
    if lines.len() == 0 {
        Seq::empty()
    } else {
        joined(lines.drop_last()) + lines.last()
    }
}

/// A line as it is cut from a text: it is not empty, and no line feed or
/// carriage return stands before its terminator.
pub open spec fn well_cut(line: Seq<char>) -> bool {
    line.len() > 0 && break_free(content_of(line))
}

/// Lines as they are cut from a text: each is well cut, and each but the
/// last has a terminator.
pub open spec fn well_split(lines: Seq<Seq<char>>) -> bool {
    forall|i: int|
        0 <= i < lines.len() ==> well_cut(#[trigger] lines[i]) && (i < lines.len() - 1
            ==> terminator_of(lines[i]) != Terminator::Missing)
}

/// A line on which a repair has nothing to do and changes nothing.
pub open spec fn settled(config: Config, line: Seq<char>) -> bool {
    fixable_count(config, line) == 0 && fixed_line(config, line) == line
}

/// The expansion of tabs leaves no tab, and brings in no line feed or
/// carriage return.
pub proof fn lemma_expansion(s: Seq<char>, tab_size: nat)
    ensures
        !with_tabs_expanded(s, tab_size).contains('\t'),
        break_free(s) ==> break_free(with_tabs_expanded(s, tab_size)),
    decreases s.len(),
{
    let e = with_tabs_expanded(s, tab_size);
    if s.len() > 0 {
        let front = s.drop_last();
        let ef = with_tabs_expanded(front, tab_size);
        lemma_expansion(front, tab_size);
        assert forall|i: int| 0 <= i < e.len() implies e[i] != '\t' by {
            if i < ef.len() {
                assert(ef.contains(ef[i]));
            }
        }
        if break_free(s) {
            assert forall|i: int| 0 <= i < front.len() implies !is_break(#[trigger] front[i]) by {
                assert(front[i] == s[i]);
            }
            assert forall|i: int| 0 <= i < e.len() implies !is_break(#[trigger] e[i]) by {
                if i < ef.len() {
                    assert(e[i] == ef[i]);
                }
            }
        }
    }
}

/// What is left when the whitespace at the end is removed is a beginning
/// of the sequence, and does not end in whitespace.
pub proof fn lemma_stripped(s: Seq<char>)
    ensures
        without_trailing_whitespace(s).len() <= s.len(),
        without_trailing_whitespace(s) == s.take(without_trailing_whitespace(s).len() as int),
        without_trailing_whitespace(s).len() > 0 ==> !is_whitespace(
            without_trailing_whitespace(s).last(),
        ),
    decreases s.len(),
{
    if s.len() > 0 && is_whitespace(s.last()) {
        let front = s.drop_last();
        lemma_stripped(front);
        let w = without_trailing_whitespace(front);
        assert(front.take(w.len() as int) == s.take(w.len() as int));
    } else {
        assert(s.take(s.len() as int) == s);
    }
}

/// A line feed behind content without tabs where they are to be expanded,
/// and without whitespace at its end, is a settled line.
pub proof fn lemma_closed_line_settled(config: Config, w: Seq<char>)
    requires
        config.expand_tabs ==> !w.contains('\t'),
        w.len() > 0 ==> !is_whitespace(w.last()),
    ensures
        terminator_of(w.push('\n')) == Terminator::Lf,
        content_of(w.push('\n')) == w,
        settled(config, w.push('\n')),
{
    let f = w.push('\n');
    if w.len() > 0 {
        assert(f[f.len() - 2] == w.last());
        assert(w.last() != '\r');
    }
    assert(content_of(f) == w);
    if config.expand_tabs {
        lemma_expand_without_tabs(w, config.tab_size as nat);
        if f.contains('\t') {
            let k = choose|k: int| 0 <= k < f.len() && f[k] == '\t';
            assert(w[k] == '\t');
        }
    }
}

/// Content that ends in neither a line feed nor a carriage return, and
/// has no tabs where they are to be expanded, is a settled line.
pub proof fn lemma_open_line_settled(config: Config, e: Seq<char>)
    requires
        e.len() > 0 ==> !is_break(e.last()),
        config.expand_tabs ==> !e.contains('\t'),
    ensures
        terminator_of(e) == Terminator::Missing,
        settled(config, e),
{
    assert(content_of(e) == e);
    if config.expand_tabs {
        lemma_expand_without_tabs(e, config.tab_size as nat);
    }
}

/// The repaired form of a well cut line: with a terminator, it is content
/// without breaks followed by a line feed; without one, it is content
/// without breaks. Unless it is empty, it is settled.
pub proof fn lemma_fixed_line_shape(config: Config, line: Seq<char>)
    requires
        well_cut(line),
    ensures
        terminator_of(line) != Terminator::Missing ==> fixed_line(config, line).len() > 0
            && fixed_line(config, line).last() == '\n' && break_free(
            fixed_line(config, line).drop_last(),
        ),
        terminator_of(line) == Terminator::Missing ==> break_free(fixed_line(config, line)),
        fixed_line(config, line).len() > 0 ==> settled(config, fixed_line(config, line)),
{
    let content = content_of(line);
    let e = expanded_content(config, line);
    lemma_expansion(content, config.tab_size as nat);
    if terminator_of(line) == Terminator::Missing {
        if e.len() > 0 {
            assert(!is_break(e[e.len() - 1]));
            lemma_open_line_settled(config, e);
        }
    } else {
        let w = without_trailing_whitespace(e);
        lemma_stripped(e);
        assert forall|i: int| 0 <= i < w.len() implies !is_break(#[trigger] w[i]) by {
            assert(w[i] == e[i]);
        }
        if config.expand_tabs && w.contains('\t') {
            let k = choose|k: int| 0 <= k < w.len() && w[k] == '\t';
            assert(e[k] == '\t');
        }
        lemma_closed_line_settled(config, w);
    }
}

/// Idempotence and compliance of one line: on the repaired form of any
/// line, cut from a text or not, nothing is left to repair, and its repair
/// gives it again. This needs a tab to be at least one column wide where
/// tabs are expanded: a tab of no width that ends a line without a
/// terminator can bare a carriage return before it.
pub proof fn repaired_line_is_settled(config: Config, line: Seq<char>)
    requires
        config.expand_tabs ==> config.tab_size > 0,
    ensures
        settled(config, fixed_line(config, line)),
{
    let content = content_of(line);
    let e = expanded_content(config, line);
    lemma_expansion(content, config.tab_size as nat);
    if terminator_of(line) == Terminator::Missing {
        assert(content == line);
        if config.expand_tabs && line.len() > 0 {
            let front = with_tabs_expanded(line.drop_last(), config.tab_size as nat);
            if line.last() == '\t' {
                let tail = spaces(config.tab_size as nat);
                assert((front + tail).last() == tail.last());
            } else {
                assert(front.push(line.last()).last() == line.last());
            }
        }
        lemma_open_line_settled(config, e);
    } else {
        let w = without_trailing_whitespace(e);
        lemma_stripped(e);
        if config.expand_tabs && w.contains('\t') {
            let k = choose|k: int| 0 <= k < w.len() && w[k] == '\t';
            assert(e[k] == '\t');
        }
        lemma_closed_line_settled(config, w);
    }
}

/// A text that begins with content without breaks and a line feed has
/// these as its first line.
pub proof fn lemma_split_closed(a: Seq<char>, rest: Seq<char>)
    requires
        a.len() > 0,
        a.last() == '\n',
        break_free(a.drop_last()),
    ensures
        lines_of(a + rest) == seq![a] + lines_of(rest),
{
    let text = a + rest;
    let k = a.len() - 1;
    assert forall|i: int| 0 <= i < k implies !is_break(#[trigger] text[i]) by {
        assert(text[i] == a.drop_last()[i]);
    }
    lemma_first_break_at(text, k);
    assert(text.take(a.len() as int) == a);
    assert(text.skip(a.len() as int) == rest);
}

/// A text without breaks that is not empty is one line.
pub proof fn lemma_split_open(c: Seq<char>)
    requires
        c.len() > 0,
        break_free(c),
    ensures
        lines_of(c) == seq![c],
{
    lemma_first_break_at(c, c.len() as int);
    assert(c.take(c.len() as int) == c);
    assert(lines_of(c.skip(c.len() as int)) == Seq::<Seq<char>>::empty());
}

/// The strings strung together: the first, then the others.
pub proof fn lemma_joined_front(lines: Seq<Seq<char>>)
    requires
        lines.len() > 0,
    ensures
        joined(lines) == lines[0] + joined(lines.skip(1)),
    decreases lines.len(),
{
    if lines.len() == 1 {
        assert(lines.drop_last() == Seq::<Seq<char>>::empty());
        assert(joined(Seq::<Seq<char>>::empty()) == Seq::<char>::empty());
    } else {
        lemma_joined_front(lines.drop_last());
        assert(lines.drop_last().skip(1) == lines.skip(1).drop_last());
    }
}

/// The repaired forms strung together: that of the first line, then those
/// of the others.
pub proof fn lemma_fixed_lines_front(config: Config, lines: Seq<Seq<char>>)
    requires
        lines.len() > 0,
    ensures
        fixed_lines(config, lines) == fixed_line(config, lines[0]) + fixed_lines(
            config,
            lines.skip(1),
        ),
    decreases lines.len(),
{
    let first = fixed_line(config, lines[0]);
    if lines.len() == 1 {
        assert(lines.drop_last() == Seq::<Seq<char>>::empty());
        assert(fixed_lines(config, Seq::<Seq<char>>::empty()) == Seq::<char>::empty());
        assert(fixed_lines(config, lines) == Seq::<char>::empty() + first);
    } else {
        lemma_fixed_lines_front(config, lines.drop_last());
        assert(lines.drop_last().skip(1) == lines.skip(1).drop_last());
    }
}

/// The lines of a text are well split, and strung together they give the
/// text.
pub proof fn lemma_lines_of(text: Seq<char>)
    ensures
        well_split(lines_of(text)),
        joined(lines_of(text)) == text,
    decreases text.len(),
{
    let lines = lines_of(text);
    if text.len() > 0 {
        lemma_first_break(text);
        let k = first_break(text) as int;
        let n = first_line_len(text) as int;
        let line = text.take(n);
        let rest = text.skip(n);
        lemma_lines_of(rest);
        let others = lines_of(rest);
        assert(lines.skip(1) == others);
        lemma_joined_front(lines);
        assert(line + rest == text);
        assert forall|i: int| 0 <= i < k implies !is_break(#[trigger] line[i]) by {
            assert(line[i] == text[i]);
        }
        if k < text.len() {
            assert(line[k] == text[k]);
            assert(content_of(line) == line.take(k));
        } else {
            assert(content_of(line) == line);
            assert(others.len() == 0);
        }
        assert(well_cut(line));
        assert forall|i: int| 0 <= i < lines.len() implies well_cut(#[trigger] lines[i]) && (i
            < lines.len() - 1 ==> terminator_of(lines[i]) != Terminator::Missing) by {
            if i > 0 {
                assert(lines[i] == others[i - 1]);
            }
        }
    }
}

/// Every line is settled.
pub open spec fn all_settled(config: Config, lines: Seq<Seq<char>>) -> bool {
    forall|i: int| 0 <= i < lines.len() ==> settled(config, #[trigger] lines[i])
}

/// The repaired forms of well split lines, strung together and cut into
/// lines again, are settled lines.
pub proof fn lemma_repaired_lines_settled(config: Config, lines: Seq<Seq<char>>)
    requires
        well_split(lines),
    ensures
        all_settled(config, lines_of(fixed_lines(config, lines))),
    decreases lines.len(),
{
    if lines.len() > 0 {
        let first = fixed_line(config, lines[0]);
        let others = lines.skip(1);
        let rest = fixed_lines(config, others);
        lemma_fixed_lines_front(config, lines);
        lemma_fixed_line_shape(config, lines[0]);
        if terminator_of(lines[0]) == Terminator::Missing {
            assert(lines.len() == 1);
            assert(first + rest == first);
            if first.len() > 0 {
                lemma_split_open(first);
            }
        } else {
            assert forall|i: int| 0 <= i < others.len() implies well_cut(#[trigger] others[i])
                && (i < others.len() - 1 ==> terminator_of(others[i])
                != Terminator::Missing) by {
                assert(others[i] == lines[i + 1]);
            }
            lemma_repaired_lines_settled(config, others);
            lemma_split_closed(first, rest);
            let again = lines_of(first + rest);
            assert forall|i: int| 0 <= i < again.len() implies settled(
                config,
                #[trigger] again[i],
            ) by {
                if i > 0 {
                    assert(again[i] == lines_of(rest)[i - 1]);
                }
            }
        }
    }
}

/// Lines with nothing to repair add up to a count of zero for what can be
/// repaired, and are their own repaired forms.
pub proof fn lemma_settled_lines(config: Config, lines: Seq<Seq<char>>)
    requires
        all_settled(config, lines),
    ensures
        total(config, lines).fixable == 0,
        fixed_lines(config, lines) == joined(lines),
    decreases lines.len(),
{
    if lines.len() > 0 {
        let front = lines.drop_last();
        assert forall|i: int| 0 <= i < front.len() implies settled(config, #[trigger] front[i]) by {
            assert(front[i] == lines[i]);
        }
        lemma_settled_lines(config, front);
    }
}

/// Lines whose counts add up to zero have no violation each, are their own
/// repaired forms, and call for no diagnostic.
pub proof fn lemma_clean_lines(config: Config, filename: Seq<char>, lines: Seq<Seq<char>>)
    requires
        total(config, lines).is_zero(),
    ensures
        fixed_lines(config, lines) == joined(lines),
        reports_of(config, filename, lines).len() == 0,
    decreases lines.len(),
{
    if lines.len() > 0 {
        clean_line_is_kept(config, lines.last());
        lemma_clean_lines(config, filename, lines.drop_last());
    }
}

/// The number of violations of `lines` that can be repaired.
pub open spec fn fixable_sum(config: Config, lines: Seq<Seq<char>>) -> nat
    decreases lines.len(),
{
    if lines.len() == 0 {
        0
    } else {
        fixable_sum(config, lines.drop_last()) + fixable_count(config, lines.last())
    }
}

/// The number of violations of `lines` that are only reported.
pub open spec fn unfixable_sum(config: Config, lines: Seq<Seq<char>>) -> nat
    decreases lines.len(),
{
    if lines.len() == 0 {
        0
    } else {
        unfixable_sum(config, lines.drop_last()) + unfixable_count(config, lines.last())
    }
}

/// The counts of lines added up are the numbers of their violations, as
/// far as a count can hold them.
pub proof fn total_is_the_capped_sum(config: Config, lines: Seq<Seq<char>>)
    ensures
        total(config, lines).fixable == if fixable_sum(config, lines) > u64::MAX {
            u64::MAX as nat
        } else {
            fixable_sum(config, lines)
        },
        total(config, lines).unfixable == if unfixable_sum(config, lines) > u64::MAX {
            u64::MAX as nat
        } else {
            unfixable_sum(config, lines)
        },
    decreases lines.len(),
{
    if lines.len() > 0 {
        total_is_the_capped_sum(config, lines.drop_last());
    }
}

/// Post-fix compliance: in the repaired form of a text, counted under the
/// same configuration, nothing is left that can be repaired.
pub proof fn fixed_text_is_compliant(config: Config, text: Seq<char>)
    ensures
        text_result(config, fixed_text(config, text)).fixable == 0,
{
    lemma_lines_of(text);
    lemma_repaired_lines_settled(config, lines_of(text));
    lemma_settled_lines(config, lines_of(fixed_text(config, text)));
}

/// Idempotence: the repair of a repaired text gives that text again.
pub proof fn fixing_is_idempotent(config: Config, text: Seq<char>)
    ensures
        fixed_text(config, fixed_text(config, text)) == fixed_text(config, text),
{
    let once = fixed_text(config, text);
    lemma_lines_of(text);
    lemma_repaired_lines_settled(config, lines_of(text));
    lemma_settled_lines(config, lines_of(once));
    lemma_lines_of(once);
}

/// A text whose counts are zero is its own repaired form, and calls for no
/// diagnostic: nothing is to be written for it.
pub proof fn clean_text_is_kept(config: Config, filename: Seq<char>, text: Seq<char>)
    requires
        text_result(config, text).is_zero(),
    ensures
        fixed_text(config, text) == text,
        text_reports(config, filename, text).len() == 0,
{
    lemma_lines_of(text);
    lemma_clean_lines(config, filename, lines_of(text));
}

/// No touch: the outcome for a text is to leave it untouched exactly if
/// its counts are zero, and to replace it exactly if something in it can
/// be repaired. Only an outcome that replaces the text carries a text to
/// write.
pub proof fn clean_text_is_left_untouched(
    outcome: Outcome,
    config: Config,
    filename: Seq<char>,
    text: Seq<char>,
)
    requires
        outcome.is_for(config, filename, text),
    ensures
        outcome is Untouched <==> text_result(config, text).is_zero(),
        outcome is Rewritten <==> text_result(config, text).fixable > 0,
        outcome is Reported <==> text_result(config, text).fixable == 0 && text_result(
            config,
            text,
        ).unfixable > 0,
{
}

} // verus!
