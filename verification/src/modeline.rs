//! The search for a modeline: a directive inside a text that overrides
//! the configuration for that text.

use crate::file::{cut_lines, cuts, line_at, lines_of};
use crate::line::{content_of, find_terminator, terminator_of, terminator_width, Terminator};
use crate::text::{option_view, to_chars, to_string};
use vstd::prelude::*;
use vstd::slice::slice_subrange;

verus! {

/// The pattern of a modeline: a space, one of the words `vim`, `vi` and
/// `ex`, a colon and a space, and then, as the second group, the rest of
/// the line, which is the modeline's text.
pub const MODELINE_PATTERN: &'static str = " (vim|vi|ex): (.+)";

/// Whether `Regex::new` accepts `pattern`: it refuses a pattern whose
/// syntax is wrong, and one whose compiled form is larger than the limit
/// that the regex crate sets where none is asked for.
pub uninterp spec fn pattern_compiles(pattern: Seq<char>) -> bool;

/// What `Regex::captures_iter` finds for `pattern` in `text`: for each of
/// the successive matches that do not overlap, from left to right, the
/// part of `text` that the group `group` matched, or nothing where the
/// group took no part in the match.
pub uninterp spec fn captured_groups(pattern: Seq<char>, text: Seq<char>, group: nat) -> Seq<
    Option<Seq<char>>,
>;

/// The error of the regex crate, `regex::Error`, of whose inside nothing
/// is known here.
#[verifier::external_type_specification]
#[verifier::external_body]
pub struct ExPatternFault(regex::Error);

/// The views of optional strings.
pub open spec fn option_views(v: Seq<Option<String>>) -> Seq<Option<Seq<char>>> {
    Seq::new(v.len(), |i: int| option_view(v[i]))
}

/// Compiles `pattern` with `Regex::new` and walks `text` with
/// `Regex::captures_iter`. Fails, with the error of `Regex::new`, exactly
/// if that refuses the pattern; else hands out, match by match, what
/// `Captures::get` gives for `group`. Neither call panics.
#[verifier::external_body]
fn capture_all(pattern: &str, text: &str, group: usize) -> (r: Result<
    Vec<Option<String>>,
    regex::Error,
>)
    ensures
        r is Ok <==> pattern_compiles(pattern@),
        r matches Ok(found) ==> option_views(found@) == captured_groups(
            pattern@,
            text@,
            group as nat,
        ),
{
    let regex = regex::Regex::new(pattern)?;
    Ok(regex.captures_iter(text).map(|c| c.get(group).map(|m| m.as_str().to_owned())).collect())
}

/// The words in which the regex crate describes why a pattern did not
/// compile: the `Display` form of its error. Nothing is claimed of them.
#[verifier::external_body]
fn fault_text(fault: &regex::Error) -> (r: String) {
    fault.to_string()
}

/// A line with a line feed in place of its terminator, whatever form that
/// had.
pub open spec fn with_line_feed(line: Seq<char>) -> Seq<char> {
    match terminator_of(line) {
        Terminator::Missing => line,
        _ => content_of(line).push('\n'),
    }
}

/// The lines strung together, each with a line feed in place of its
/// terminator.
pub open spec fn with_line_feeds(lines: Seq<Seq<char>>) -> Seq<char>
    decreases lines.len(),
{
    if lines.len() == 0 {
        Seq::empty()
    } else {
        with_line_feeds(lines.drop_last()) + with_line_feed(lines.last())
    }
}

/// The last of `groups` that is present.
pub open spec fn last_present(groups: Seq<Option<Seq<char>>>) -> Option<Seq<char>>
    decreases groups.len(),
{
    if groups.len() == 0 {
        None
    } else if groups.last() is Some {
        groups.last()
    } else {
        last_present(groups.drop_last())
    }
}

/// The modeline of `text`: what the second group holds in the last match
/// of the modeline pattern in `text`, taken with a line feed at the end of
/// each line. The text is walked as a whole, so that the pattern is
/// compiled once for it; that a match stays within one line is the
/// pattern's doing, whose `.` takes no line feed, and is claimed nowhere.
pub open spec fn modeline_of(text: Seq<char>) -> Option<Seq<char>> {
    last_present(captured_groups(MODELINE_PATTERN@, with_line_feeds(lines_of(text)), 2))
}

/// The modeline pattern was not accepted as a regular expression.
#[derive(Debug)]
pub struct PatternError {
    /// Why the pattern was refused.
    pub detail: String,
}

impl PatternError {
    /// The message of the error.
    pub open spec fn message_text(self) -> Seq<char> {
        "Regex error: "@ + self.detail@
    }

    /// The message of the error.
    pub fn message(&self) -> (r: String)
        ensures
            r@ == self.message_text(),
    {
        let mut out = String::new();
        out.append("Regex error: ");
        out.append(self.detail.as_str());
        out
    }
}

/// The text with a line feed in place of the terminator of each line.
pub fn unify_line_ends(text: &str) -> (r: String)
    ensures
        r@ == with_line_feeds(lines_of(text@)),
{
    let chars = to_chars(text);
    let all = chars.as_slice();
    let ends = cut_lines(all);
    let ghost lines = lines_of(text@);
    let mut out: Vec<char> = Vec::new();
    let mut k: usize = 0;
    while k < ends.len()
        invariant
            k <= ends@.len(),
            all@ == text@,
            lines == lines_of(text@),
            cuts(all@, ends@),
            out@ == with_line_feeds(lines.take(k as int)),
        decreases ends@.len() - k,
    {
        assert(lines.take(k + 1).drop_last() == lines.take(k as int));
        let line = line_at(all, &ends, k);
        let terminator = find_terminator(line);
        let width = terminator_width(terminator);
        out.extend_from_slice(slice_subrange(line, 0, line.len() - width));
        if terminator != Terminator::Missing {
            out.push('\n');
        }
        k += 1;
    }
    assert(lines.take(k as int) == lines);
    to_string(out.as_slice(), 0, out.len())
}

/// The last of the captured groups that is present: where a text has more
/// than one modeline, the last one counts.
pub fn pick_last(groups: Vec<Option<String>>) -> (r: Option<String>)
    ensures
        option_view(r) == last_present(option_views(groups@)),
{
    let mut rest = groups;
    while rest.len() > 0
        invariant
            last_present(option_views(rest@)) == last_present(option_views(groups@)),
        decreases rest@.len(),
    {
        let ghost before = rest@;
        let last = rest.pop();
        assert(option_views(before).drop_last() == option_views(rest@));
        match last {
            Some(Some(text)) => {
                return Some(text);
            },
            _ => {},
        }
    }
    None
}

/// Searches every line of `text` for a modeline and returns the text of
/// the last one, if there is any. Fails exactly if the modeline pattern is
/// refused as a regular expression, which the text has no part in: a text
/// without a modeline, or with one that says nothing known, is no error.
pub fn find_modeline(text: &str) -> (r: Result<Option<String>, PatternError>)
    ensures
        r is Ok <==> pattern_compiles(MODELINE_PATTERN@),
        r matches Ok(found) ==> option_view(found) == modeline_of(text@),
{
    let unified = unify_line_ends(text);
    modeline_among(capture_all(MODELINE_PATTERN, unified.as_str(), 2))
}

/// What a search for modelines that ended as `captured` amounts to. A
/// search that went through gives the last of its groups that is present,
/// which is the modeline, or none. A search whose pattern was refused
/// gives the error, with the words of the regex crate as its detail.
pub fn modeline_among(captured: Result<Vec<Option<String>>, regex::Error>) -> (r: Result<
    Option<String>,
    PatternError,
>)
    ensures
        r is Ok <==> captured is Ok,
        captured is Ok ==> option_view(r->Ok_0) == last_present(option_views(captured->Ok_0@)),
{
    match captured {
        Ok(groups) => Ok(pick_last(groups)),
        Err(fault) => Err(PatternError { detail: fault_text(&fault) }),
    }
}

} // verus!
