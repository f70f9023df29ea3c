//! The text of a diagnostic: a file's name, a line's number and the tags
//! of that line.

use crate::fix::Tag;
use vstd::prelude::*;

verus! {

impl Tag {
    /// The words that stand for the tag in a diagnostic.
    pub open spec fn label(self) -> Seq<char> {
        match self {
            Tag::FixedMacLineEnding => "fixed mac line ending"@,
            Tag::FixedWindowsLineEnding => "fixed windows line ending"@,
            Tag::ExpandedTabs => "expanded tabs"@,
            Tag::TabsAfterOtherCharacters => "tabs after other characters"@,
            Tag::RemovedWhitespaceFromEnd => "removed whitespace from end"@,
            Tag::LineTooLong => "line too long"@,
        }
    }

    /// The words that stand for the tag in a diagnostic.
    pub fn as_str(self) -> (r: &'static str)
        ensures
            r@ == self.label(),
    {
        match self {
            Tag::FixedMacLineEnding => "fixed mac line ending",
            Tag::FixedWindowsLineEnding => "fixed windows line ending",
            Tag::ExpandedTabs => "expanded tabs",
            Tag::TabsAfterOtherCharacters => "tabs after other characters",
            Tag::RemovedWhitespaceFromEnd => "removed whitespace from end",
            Tag::LineTooLong => "line too long",
        }
    }
}

/// The character of the decimal digit `d`.
pub open spec fn digit_char(d: nat) -> char {
    if d == 0 {
        '0'
    } else if d == 1 {
        '1'
    } else if d == 2 {
        '2'
    } else if d == 3 {
        '3'
    } else if d == 4 {
        '4'
    } else if d == 5 {
        '5'
    } else if d == 6 {
        '6'
    } else if d == 7 {
        '7'
    } else if d == 8 {
        '8'
    } else {
        '9'
    }
}

/// The decimal digits of `n`, without leading zeros.
pub open spec fn decimal(n: nat) -> Seq<char>
    decreases n,
{
    if n < 10 {
        seq![digit_char(n)]
    } else {
        decimal(n / 10).push(digit_char(n % 10))
    }
}

/// The labels of `tags`, each but the first preceded by a comma and a
/// space.
pub open spec fn joined_labels(tags: Seq<Tag>) -> Seq<char>
    decreases tags.len(),
{
    if tags.len() == 0 {
        Seq::empty()
    } else if tags.len() == 1 {
        tags[0].label()
    } else {
        joined_labels(tags.drop_last()) + seq![',', ' '] + tags.last().label()
    }
}

/// The diagnostic for a line: the file's name, a colon, the line's number,
/// a colon and a space, and the labels of the tags.
pub open spec fn diagnostic(filename: Seq<char>, line_number: nat, tags: Seq<Tag>) -> Seq<char> {
    filename + seq![':'] + decimal(line_number) + seq![':', ' '] + joined_labels(tags)
}

/// The character of the decimal digit `d`.
fn digit(d: u64) -> (c: char)
    requires
        d < 10,
    ensures
        c == digit_char(d as nat),
{
    if d == 0 {
        '0'
    } else if d == 1 {
        '1'
    } else if d == 2 {
        '2'
    } else if d == 3 {
        '3'
    } else if d == 4 {
        '4'
    } else if d == 5 {
        '5'
    } else if d == 6 {
        '6'
    } else if d == 7 {
        '7'
    } else if d == 8 {
        '8'
    } else {
        '9'
    }
}

/// Appends the decimal digits of `n` to `out`.
fn push_decimal(out: &mut String, n: u64)
    ensures
        final(out)@ == old(out)@ + decimal(n as nat),
    decreases n,
{
    if n >= 10 {
        push_decimal(out, n / 10);
    }
    out.push(digit(n % 10));
}

/// Appends the labels of `tags` to `out`, with a comma and a space between
/// them.
fn push_labels(out: &mut String, tags: &[Tag])
    ensures
        final(out)@ == old(out)@ + joined_labels(tags@),
{
    let mut i: usize = 0;
    while i < tags.len()
        invariant
            i <= tags@.len(),
            out@ == old(out)@ + joined_labels(tags@.take(i as int)),
        decreases tags@.len() - i,
    {
        assert(tags@.take(i + 1).drop_last() == tags@.take(i as int));
        if i > 0 {
            out.push(',');
            out.push(' ');
        }
        out.append(tags[i].as_str());
        i += 1;
    }
    assert(tags@.take(tags@.len() as int) == tags@);
}

/// The diagnostic for the line `line_number` of the file `filename`.
pub fn format_diagnostic(filename: &str, line_number: u64, tags: &[Tag]) -> (r: String)
    ensures
        r@ == diagnostic(filename@, line_number as nat, tags@),
{
    let mut out = String::new();
    out.append(filename);
    out.push(':');
    push_decimal(&mut out, line_number);
    out.push(':');
    out.push(' ');
    push_labels(&mut out, tags);
    out
}

} // verus!
