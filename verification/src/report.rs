//! The text of a failure report: previews of the values shown, laid out
//! under a headline.

use crate::failure::Failure;
use crate::failure::FailureView;
use crate::failure::Shown;
use crate::failure::ShownView;
use colored::Colorize;
use std::fmt::Debug;
use vstd::prelude::*;
use vstd::string::*;

verus! {

/// The number of characters of a rendering that a report shows at most.
pub const PREVIEW_LEN: usize = 300;

/// A rendering as a report shows it: whole if it has at most [`PREVIEW_LEN`]
/// characters, else its first [`PREVIEW_LEN`] characters and a mark that the
/// rest was left out.
pub open spec fn preview_of(rendering: Seq<char>) -> Seq<char> {
    if rendering.len() > PREVIEW_LEN {
        rendering.subrange(0, PREVIEW_LEN as int) + " ..."@
    } else {
        rendering
    }
}

/// A labelled part of a report. A body of one line follows its label on the
/// same line; a body of several lines starts on a line of its own.
pub open spec fn section_of(label: Seq<char>, body: Seq<char>) -> Seq<char> {
    if body.contains('\n') {
        label + "\n"@ + body + "\n"@
    } else {
        label + " "@ + body + "\n"@
    }
}

/// The report of a condition that did not hold: the headline, what was
/// given, an empty line, and what was found.
pub open spec fn mismatch_text(
    headline: Seq<char>,
    given_label: Seq<char>,
    given: Seq<char>,
    found_label: Seq<char>,
    found: Seq<char>,
) -> Seq<char> {
    headline + "\n"@ + section_of(given_label, given) + "\n"@ + section_of(found_label, found)
}

/// The report of a condition that held against its negation: the headline
/// and what matched.
pub open spec fn unexpected_text(headline: Seq<char>, label: Seq<char>, matched: Seq<char>) -> Seq<
    char,
> {
    headline + "\n"@ + section_of(label, matched)
}

/// The digit that stands for `d`, for `d` below ten.
pub open spec fn digit_of(d: int) -> char {
    "0123456789"@[d]
}

/// A number in decimal notation, without leading zeros.
pub open spec fn decimal_text(n: nat) -> Seq<char>
    decreases n,
{
    if n < 10 {
        seq![digit_of(n as int)]
    } else {
        decimal_text(n / 10).push(digit_of((n % 10) as int))
    }
}

/// The rendering of a value that is shown the same way whatever the type of
/// the records: nothing, a count, a predicate. Records have no such rendering.
pub open spec fn fixed_rendering<T>(shown: ShownView<T>) -> Option<Seq<char>> {
    match shown {
        ShownView::Nothing => Some("None"@),
        ShownView::Count(n) => Some(decimal_text(n as nat)),
        ShownView::Predicate => Some("\"impl Fn(&D::Item<'w>) -> bool\""@),
        _ => None,
    }
}

/// `rendering` may be the rendering of `shown`: if `shown` has a fixed
/// rendering, it is that one.
pub open spec fn renders<T>(shown: ShownView<T>, rendering: Seq<char>) -> bool {
    fixed_rendering(shown) matches Some(text) ==> rendering == text
}

/// `styled` is `text` in the colour that `code` stands for: the text itself
/// where colours are switched off, else the text between the sequence that
/// switches the colour on and the one that resets it. Of a text that holds an
/// escape character itself, nothing is said.
pub open spec fn styled_as(text: Seq<char>, code: Seq<char>, styled: Seq<char>) -> bool {
    ||| text.contains('\u{1b}')
    ||| styled == text
    ||| styled == "\u{1b}["@ + code + "m"@ + text + "\u{1b}[0m"@
}

/// `text` is a report of `failure`: laid out as its kind asks, with the
/// headline in red and the labels in bright black, and with a preview of a
/// rendering of each value shown.
pub open spec fn is_report_of<T>(failure: FailureView<T>, text: Seq<char>) -> bool {
    match failure {
        FailureView::Mismatch { kind, given, found } => exists|
            headline: Seq<char>,
            given_label: Seq<char>,
            given_rendering: Seq<char>,
            found_label: Seq<char>,
            found_rendering: Seq<char>,
        |
            {
                &&& styled_as(kind.headline_text(), "31"@, headline)
                &&& styled_as("Given:"@, "90"@, given_label)
                &&& styled_as("Found:"@, "90"@, found_label)
                &&& renders(given, given_rendering)
                &&& renders(found, found_rendering)
                &&& text == #[trigger] mismatch_text(
                    headline,
                    given_label,
                    preview_of(given_rendering),
                    found_label,
                    preview_of(found_rendering),
                )
            },
        FailureView::UnexpectedMatch { assertion, matched } => exists|
            headline: Seq<char>,
            label: Seq<char>,
            rendering: Seq<char>,
        |
            {
                &&& styled_as(assertion.headline_text(), "31"@, headline)
                &&& styled_as("Match:"@, "90"@, label)
                &&& renders(matched, rendering)
                &&& text == #[trigger] unexpected_text(headline, label, preview_of(rendering))
            },
    }
}

/// `format!` of std, with the pretty form of `Debug`. What `Debug` writes is
/// up to the type of the value, so nothing is claimed of the text.
#[verifier::external_body]
fn pretty<V: Debug>(value: &V) -> (rendering: String) {
    format!("{:#?}", value)
}

/// `Colorize::red` of `colored`, and the text that the styled string displays
/// as. Whether colours are on is settled outside the program, by variables
/// such as `NO_COLOR` and by whether the output is a terminal. The claim: a
/// text without an escape character comes back unchanged where they are off,
/// and between the sequences for red (`31`) and for reset where they are on.
#[verifier::external_body]
fn red(text: &str) -> (styled: String)
    ensures
        styled_as(text@, "31"@, styled@),
{
    text.red().to_string()
}

/// `Colorize::bright_black` of `colored`, and the text that the styled string
/// displays as. Whether colours are on is settled outside the program, by
/// variables such as `NO_COLOR` and by whether the output is a terminal. The
/// claim: a text without an escape character comes back unchanged where they
/// are off, and between the sequences for bright black (`90`) and for reset
/// where they are on.
#[verifier::external_body]
fn bright_black(text: &str) -> (styled: String)
    ensures
        styled_as(text@, "90"@, styled@),
{
    text.bright_black().to_string()
}

/// Whether the text has more than one line.
pub fn spans_lines(text: &str) -> (several: bool)
    ensures
        several == text@.contains('\n'),
{
    let len: usize = text.unicode_len();
    let mut i: usize = 0;
    while i < len
        invariant
            len == text@.len(),
            i <= len,
            forall|j: int| 0 <= j < i ==> text@[j] != '\n',
        decreases len - i,
    {
        if text.get_char(i) == '\n' {
            return true;
        }
        i += 1;
    }
    false
}

/// Cuts a rendering down to what a report shows of it.
pub fn preview(rendering: String) -> (text: String)
    ensures
        text@ == preview_of(rendering@),
{
    if rendering.as_str().unicode_len() > PREVIEW_LEN {
        let head = rendering.as_str().substring_char(0, PREVIEW_LEN);
        String::from_str(head).concat(" ...")
    } else {
        rendering
    }
}

/// Lays out one labelled part of a report.
pub fn section(label: &str, body: &str) -> (text: String)
    ensures
        text@ == section_of(label@, body@),
{
    let mut text = String::from_str(label);
    if spans_lines(body) {
        text.append("\n");
    } else {
        text.append(" ");
    }
    text.append(body);
    text.append("\n");
    text
}

/// Lays out the report of a condition that did not hold.
pub fn lay_out_mismatch(
    headline: &str,
    given_label: &str,
    given: &str,
    found_label: &str,
    found: &str,
) -> (text: String)
    ensures
        text@ == mismatch_text(headline@, given_label@, given@, found_label@, found@),
{
    let mut text = String::from_str(headline);
    text.append("\n");
    text.append(section(given_label, given).as_str());
    text.append("\n");
    text.append(section(found_label, found).as_str());
    text
}

/// Lays out the report of a condition that held against its negation.
pub fn lay_out_unexpected(headline: &str, label: &str, matched: &str) -> (text: String)
    ensures
        text@ == unexpected_text(headline@, label@, matched@),
{
    let mut text = String::from_str(headline);
    text.append("\n");
    text.append(section(label, matched).as_str());
    text
}

/// Writes a number in decimal notation.
pub fn decimal(n: usize) -> (text: String)
    ensures
        text@ == decimal_text(n as nat),
    decreases n,
{
    proof {
        reveal_strlit("0123456789");
    }
    let d: usize = n % 10;
    let last = "0123456789".substring_char(d, d + 1);
    assert(last@ =~= seq![digit_of(d as int)]);
    if n < 10 {
        String::from_str(last)
    } else {
        let text = decimal(n / 10).concat(last);
        assert(text@ =~= decimal_text((n / 10) as nat).push(digit_of(d as int)));
        text
    }
}

impl<T: Debug> Shown<T> {
    /// Renders the value as text. Records are rendered as their type's
    /// `Debug` writes them, the first record found as an optional value.
    pub fn render(&self) -> (rendering: String)
        ensures
            renders(self@, rendering@),
    {
        match self {
            Shown::Nothing => String::from_str("None"),
            Shown::Record(record) => pretty(record),
            Shown::Records(records) => pretty(records),
            Shown::First(record) => {
                let first: Option<&T> = Some(record);
                pretty(&first)
            },
            Shown::Count(n) => decimal(*n),
            Shown::Predicate => String::from_str("\"impl Fn(&D::Item<'w>) -> bool\""),
        }
    }
}

impl<T: Debug> Failure<T> {
    /// The report of the failure, ready to be printed: the headline in red,
    /// then each value shown under its label, in a preview.
    pub fn report(&self) -> (text: String)
        ensures
            is_report_of(self@, text@),
    {
        match self {
            Failure::Mismatch { kind, given, found } => {
                let headline = red(kind.headline());
                let given_label = bright_black("Given:");
                let found_label = bright_black("Found:");
                let given_rendering = given.render();
                let found_rendering = found.render();
                let ghost given_text = given_rendering@;
                let ghost found_text = found_rendering@;
                let given_preview = preview(given_rendering);
                let found_preview = preview(found_rendering);
                let text = lay_out_mismatch(
                    headline.as_str(),
                    given_label.as_str(),
                    given_preview.as_str(),
                    found_label.as_str(),
                    found_preview.as_str(),
                );
                assert(text@ == mismatch_text(
                    headline@,
                    given_label@,
                    preview_of(given_text),
                    found_label@,
                    preview_of(found_text),
                ));
                text
            },
            Failure::UnexpectedMatch { assertion, matched } => {
                let headline = red(assertion.headline());
                let label = bright_black("Match:");
                let rendering = matched.render();
                let ghost matched_text = rendering@;
                let matched_preview = preview(rendering);
                let text = lay_out_unexpected(
                    headline.as_str(),
                    label.as_str(),
                    matched_preview.as_str(),
                );
                assert(text@ == unexpected_text(headline@, label@, preview_of(matched_text)));
                text
            },
        }
    }
}

} // verus!
