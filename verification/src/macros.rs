//! The lines that a command shows: plain text painted with ANSI escape codes,
//! and the stream that each line belongs to.
use vstd::prelude::*;
use ansi_term::{Colour, Style};

verus! {

/// Where a line is written.
#[derive(Clone, Copy, Debug, PartialEq, Eq, Structural)]
pub enum Stream {
    /// The standard output.
    Stdout,
    /// The standard error.
    Stderr,
}

/// The colour of a line.
#[derive(Clone, Copy, Debug, PartialEq, Eq, Structural)]
pub enum Tint {
    /// For what went wrong.
    Red,
    /// For what went well.
    Green,
}

/// What a line is, as plain values.
pub struct LineView {
    pub stream: Stream,
    pub text: Seq<char>,
}

/// One line for the user: its text, escape codes included, and its stream.
pub struct Line {
    pub stream: Stream,
    pub text: String,
}

impl View for Line {
    type V = LineView;

    open spec fn view(&self) -> LineView {
        LineView { stream: self.stream, text: self.text@ }
    }
}

/// The views of the lines `lines`.
pub open spec fn line_views(lines: Seq<Line>) -> Seq<LineView> {
    Seq::new(lines.len(), |i: int| lines[i]@)
}

/// The escape code that switches every style off.
pub open spec fn reset_code() -> Seq<char> {
    seq!['\u{1b}', '[', '0', 'm']
}

/// The escape code that switches to the colour `tint`.
pub open spec fn tint_code(tint: Tint) -> Seq<char> {
    match tint {
        Tint::Red => seq!['\u{1b}', '[', '3', '1', 'm'],
        Tint::Green => seq!['\u{1b}', '[', '3', '2', 'm'],
    }
}

/// The escape code that switches to bold, underlined text.
pub open spec fn title_code() -> Seq<char> {
    seq!['\u{1b}', '[', '1', ';', '4', 'm']
}

/// `text` between the escape code `code` and the code that switches it off.
pub open spec fn painted(code: Seq<char>, text: Seq<char>) -> Seq<char> {
    code + text + reset_code()
}

/// The line that reports an error: red, on the standard error.
pub open spec fn error_line(text: Seq<char>) -> LineView {
    LineView { stream: Stream::Stderr, text: painted(tint_code(Tint::Red), text) }
}

/// The line that reports a success: green, on the standard output.
pub open spec fn ok_line(text: Seq<char>) -> LineView {
    LineView { stream: Stream::Stdout, text: painted(tint_code(Tint::Green), text) }
}

/// The line of a title: bold and underlined, on the standard output.
pub open spec fn title_line(text: Seq<char>) -> LineView {
    LineView { stream: Stream::Stdout, text: painted(title_code(), text) }
}

/// `Colour::paint` of `ansi_term`, formatted: the text between the escape
/// code of the foreground colour and the reset code.
#[verifier::external_body]
pub(crate) fn paint_tint(tint: Tint, s: &str) -> (r: String)
    ensures
        r@ == painted(tint_code(tint), s@),
{
    let colour = match tint {
        Tint::Red => Colour::Red,
        Tint::Green => Colour::Green,
    };
    format!("{}", colour.paint(s))
}

/// `Style::paint` of `ansi_term` for the bold, underlined style, formatted:
/// the text between the escape code of that style and the reset code.
#[verifier::external_body]
pub(crate) fn paint_title(s: &str) -> (r: String)
    ensures
        r@ == painted(title_code(), s@),
{
    format!("{}", Style::new().underline().bold().paint(s))
}

/// The line that reports the error `s`.
pub fn show_error(s: &str) -> (line: Line)
    ensures
        line@ == error_line(s@),
{
    Line { stream: Stream::Stderr, text: paint_tint(Tint::Red, s) }
}

/// The line that reports the success `s`.
pub fn show_ok(s: &str) -> (line: Line)
    ensures
        line@ == ok_line(s@),
{
    Line { stream: Stream::Stdout, text: paint_tint(Tint::Green, s) }
}

/// The line of the title `s`.
pub fn show_title_1(s: &str) -> (line: Line)
    ensures
        line@ == title_line(s@),
{
    Line { stream: Stream::Stdout, text: paint_title(s) }
}

} // verus!
