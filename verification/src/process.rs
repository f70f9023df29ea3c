//! The treatment of one file's text: find the modeline, settle the
//! configuration, count the violations, and repair or report as the counts
//! demand.

use crate::config::{config_from_modeline, resolved, Config};
use crate::file::{check_file, fix_file, fixed_text, text_reports, text_result, views, FileFix};
use crate::line::CheckResult;
use crate::modeline::{
    find_modeline, modeline_of, pattern_compiles, PatternError, MODELINE_PATTERN,
};
use crate::text::option_view;
use vstd::prelude::*;

verus! {

/// What is to be done with a file once its violations are counted.
#[derive(Clone, Copy, Debug, PartialEq, Eq, Structural)]
pub enum Action {
    /// Nothing was found: the file is not touched, and nothing is written.
    Leave,
    /// Something can be repaired: the file is replaced by its repaired text.
    Rewrite,
    /// Only violations that cannot be repaired were found: they are
    /// reported, and the file is not touched.
    Report,
}

/// The action that the counts `totals` demand.
pub open spec fn action_for(totals: CheckResult) -> Action {
    if totals.is_zero() {
        Action::Leave
    } else if totals.fixable > 0 {
        Action::Rewrite
    } else {
        Action::Report
    }
}

/// Decides what is to be done with a file whose counts are `totals`.
pub fn decide(totals: &CheckResult) -> (r: Action)
    ensures
        r == action_for(*totals),
{
    if totals.is_clean() {
        Action::Leave
    } else if totals.fixable > 0 {
        Action::Rewrite
    } else {
        Action::Report
    }
}

/// The configuration that holds for a text: `base`, changed by the
/// modeline where the text has one.
pub open spec fn effective(base: Config, modeline: Option<Seq<char>>) -> Config {
    match modeline {
        Some(m) => resolved(base, m),
        None => base,
    }
}

/// The configuration that holds for a text with the modeline `modeline`.
pub fn effective_config(base: Config, modeline: &Option<String>) -> (r: Config)
    ensures
        r == effective(base, option_view(*modeline)),
{
    match modeline {
        Some(m) => config_from_modeline(base, m.as_str()),
        None => base,
    }
}

/// What came of the treatment of a text.
#[derive(Debug)]
pub enum Outcome {
    /// The text has no violation. It is to be left as it is.
    Untouched,
    /// The text had violations that were repaired. It is to be replaced.
    Rewritten {
        /// The repaired text.
        text: String,
        /// The diagnostics, one for each line that has a tag.
        reports: Vec<String>,
        /// The counts of the text as it was.
        totals: CheckResult,
    },
    /// The text has violations, none of which can be repaired. It is to be
    /// left as it is.
    Reported {
        /// The diagnostics, one for each line that has a tag.
        reports: Vec<String>,
        /// The counts of the text.
        totals: CheckResult,
    },
}

impl Outcome {
    /// The counts of the text that the outcome is for.
    pub open spec fn totals(self) -> CheckResult {
        match self {
            Outcome::Untouched => CheckResult::zero(),
            Outcome::Rewritten { text, reports, totals } => totals,
            Outcome::Reported { reports, totals } => totals,
        }
    }

    /// The outcome is the one that the text `text` of the file `filename`
    /// calls for under `config`.
    pub open spec fn is_for(self, config: Config, filename: Seq<char>, text: Seq<char>) -> bool {
        &&& self.totals() == text_result(config, text)
        &&& match self {
            Outcome::Untouched => action_for(text_result(config, text)) == Action::Leave,
            Outcome::Rewritten { text: new_text, reports, totals } => {
                &&& action_for(text_result(config, text)) == Action::Rewrite
                &&& new_text@ == fixed_text(config, text)
                &&& views(reports@) == text_reports(config, filename, text)
            },
            Outcome::Reported { reports, totals } => {
                &&& action_for(text_result(config, text)) == Action::Report
                &&& views(reports@) == text_reports(config, filename, text)
            },
        }
    }

    /// How the treatment ended.
    pub fn status(&self) -> (r: Status)
        ensures
            r == Status::of_totals(self.totals()),
    {
        match self {
            Outcome::Untouched => Status::Compliant,
            Outcome::Rewritten { text: _, reports: _, totals } => Status::for_totals(totals),
            Outcome::Reported { reports: _, totals } => Status::for_totals(totals),
        }
    }
}

/// How the treatment of a file, or of several, ended; from the best end to
/// the worst.
#[derive(Clone, Copy, Debug, PartialEq, Eq, Structural)]
pub enum Status {
    /// No violation was found.
    Compliant,
    /// Violations were found, and all of them were repaired.
    Fixed,
    /// Violations that cannot be repaired remain.
    Unfixable,
    /// A file could not be treated.
    Failed,
}

impl Status {
    /// The place of the status in the order from best to worst, which is
    /// also the exit code that stands for it.
    pub open spec fn rank(self) -> nat {
        match self {
            Status::Compliant => 0,
            Status::Fixed => 1,
            Status::Unfixable => 2,
            Status::Failed => 3,
        }
    }

    /// The status of a text whose counts are `totals`.
    pub open spec fn of_totals(totals: CheckResult) -> Status {
        if totals.is_zero() {
            Status::Compliant
        } else if totals.unfixable == 0 {
            Status::Fixed
        } else {
            Status::Unfixable
        }
    }

    /// The status of a text whose counts are `totals`.
    pub fn for_totals(totals: &CheckResult) -> (r: Status)
        ensures
            r == Status::of_totals(*totals),
    {
        if totals.is_clean() {
            Status::Compliant
        } else if totals.unfixable == 0 {
            Status::Fixed
        } else {
            Status::Unfixable
        }
    }

    /// The exit code that stands for the status.
    pub fn exit_code(self) -> (r: u8)
        ensures
            r == self.rank(),
    {
        match self {
            Status::Compliant => 0,
            Status::Fixed => 1,
            Status::Unfixable => 2,
            Status::Failed => 3,
        }
    }

    /// The worse of two statuses: that of two files taken together.
    pub fn worse(self, other: Status) -> (r: Status)
        ensures
            r == if self.rank() >= other.rank() {
                self
            } else {
                other
            },
    {
        if self.exit_code() >= other.exit_code() {
            self
        } else {
            other
        }
    }
}

/// Treats the text of the file `filename` under the configuration
/// `config`: counts its violations, and repairs the text or only lists its
/// diagnostics as the counts demand. A text without violations is not
/// repaired at all.
pub fn process_with(config: &Config, filename: &str, text: &str) -> (r: Outcome)
    ensures
        r.is_for(*config, filename@, text@),
{
    let totals = check_file(config, text);
    match decide(&totals) {
        Action::Leave => Outcome::Untouched,
        Action::Rewrite => {
            let FileFix { text: new_text, reports } = fix_file(config, filename, text);
            Outcome::Rewritten { text: new_text, reports, totals }
        },
        Action::Report => {
            let FileFix { text: _, reports } = fix_file(config, filename, text);
            Outcome::Reported { reports, totals }
        },
    }
}

/// Treats the text of the file `filename`: looks for a modeline, lets it
/// change `base`, and treats the text under the configuration that
/// results. Fails exactly if the modeline pattern is refused as a regular
/// expression, which neither the text nor the configuration has part in.
pub fn process_text(base: Config, filename: &str, text: &str) -> (r: Result<Outcome, PatternError>)
    ensures
        r is Ok <==> pattern_compiles(MODELINE_PATTERN@),
        r matches Ok(outcome) ==> outcome.is_for(
            effective(base, modeline_of(text@)),
            filename@,
            text@,
        ),
{
    process_found(base, find_modeline(text), filename, text)
}

/// Treats the text of the file `filename` once the search for its
/// modeline has ended as `found`. After a search that went through, the
/// text is treated under `base` as the modeline changes it, or under
/// `base` itself where there is none. After a search that failed, nothing
/// is done with the text, and the error of the search is handed on.
pub fn process_found(
    base: Config,
    found: Result<Option<String>, PatternError>,
    filename: &str,
    text: &str,
) -> (r: Result<Outcome, PatternError>)
    ensures
        r is Ok <==> found is Ok,
        found is Ok ==> r->Ok_0.is_for(
            effective(base, option_view(found->Ok_0)),
            filename@,
            text@,
        ),
        found is Err ==> r->Err_0 == found->Err_0,
{
    match found {
        Ok(modeline) => {
            let config = effective_config(base, &modeline);
            Ok(process_with(&config, filename, text))
        },
        Err(error) => Err(error),
    }
}

} // verus!
