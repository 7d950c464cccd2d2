//! Styled text: what a terminal is asked to show, and how.

use vstd::prelude::*;

verus! {

/// A text colour.
#[derive(Debug, Clone, Copy, PartialEq, Eq, Structural)]
pub enum Color {
    /// The terminal's own.
    Default,
    /// Red.
    Red,
    /// Green.
    Green,
    /// Yellow.
    Yellow,
    /// Cyan.
    Cyan,
}

/// How a piece of text is shown.
#[derive(Debug, Clone, Copy, PartialEq, Eq, Structural)]
pub struct Style {
    /// Colour.
    pub color: Color,
    /// Bold.
    pub bold: bool,
    /// Dimmed.
    pub dim: bool,
    /// Italic.
    pub italic: bool,
    /// Foreground and background swapped.
    pub reversed: bool,
}

/// Unstyled.
#[verifier::allow_in_spec]
pub fn plain() -> Style
    returns
        (Style { color: Color::Default, bold: false, dim: false, italic: false, reversed: false }),
{
    Style { color: Color::Default, bold: false, dim: false, italic: false, reversed: false }
}

/// In a colour.
#[verifier::allow_in_spec]
pub fn colored(color: Color) -> Style
    returns
        (Style { color, bold: false, dim: false, italic: false, reversed: false }),
{
    Style { color, bold: false, dim: false, italic: false, reversed: false }
}

/// Bold and in a colour.
#[verifier::allow_in_spec]
pub fn strong(color: Color) -> Style
    returns
        (Style { color, bold: true, dim: false, italic: false, reversed: false }),
{
    Style { color, bold: true, dim: false, italic: false, reversed: false }
}

/// Dimmed.
#[verifier::allow_in_spec]
pub fn dimmed() -> Style
    returns
        (Style { color: Color::Default, bold: false, dim: true, italic: false, reversed: false }),
{
    Style { color: Color::Default, bold: false, dim: true, italic: false, reversed: false }
}

/// Dimmed italics.
#[verifier::allow_in_spec]
pub fn aside() -> Style
    returns
        (Style { color: Color::Default, bold: false, dim: true, italic: true, reversed: false }),
{
    Style { color: Color::Default, bold: false, dim: true, italic: true, reversed: false }
}

/// Bold on a reversed ground.
#[verifier::allow_in_spec]
pub fn banner() -> Style
    returns
        (Style { color: Color::Default, bold: true, dim: false, italic: false, reversed: true }),
{
    Style { color: Color::Default, bold: true, dim: false, italic: false, reversed: true }
}

/// A piece of text in one style.
#[derive(Debug)]
pub struct Span {
    /// The text.
    pub text: String,
    /// Its style.
    pub style: Style,
}

/// A span as a mathematical value.
pub struct SpanModel {
    /// The text.
    pub text: Seq<char>,
    /// Its style.
    pub style: Style,
}

impl View for Span {
    type V = SpanModel;

    open spec fn view(&self) -> SpanModel {
        SpanModel { text: self.text@, style: self.style }
    }
}

/// A span.
pub open spec fn sp(text: Seq<char>, style: Style) -> SpanModel {
    SpanModel { text, style }
}

/// A line of spans as a mathematical value.
pub open spec fn line_model(line: Seq<Span>) -> Seq<SpanModel> {
    line.map_values(|s: Span| s@)
}

/// Lines of spans as a mathematical value.
pub open spec fn page_model(page: Seq<Vec<Span>>) -> Seq<Seq<SpanModel>> {
    page.map_values(|l: Vec<Span>| line_model(l@))
}

/// A span of text.
pub fn span(text: &str, style: Style) -> (span: Span)
    ensures
        span@ == sp(text@, style),
{
    Span { text: text.to_owned(), style }
}

/// A span that takes its text over.
pub fn span_of(text: String, style: Style) -> (span: Span)
    ensures
        span@ == sp(text@, style),
{
    Span { text, style }
}

/// A line of one span.
pub fn line1(a: Span) -> (line: Vec<Span>)
    ensures
        line_model(line@) == seq![a@],
{
    let mut line: Vec<Span> = Vec::new();
    line.push(a);
    assert(line_model(line@) =~= seq![a@]);
    line
}

/// A line of two spans.
pub fn line2(a: Span, b: Span) -> (line: Vec<Span>)
    ensures
        line_model(line@) == seq![a@, b@],
{
    let mut line: Vec<Span> = Vec::new();
    line.push(a);
    line.push(b);
    assert(line_model(line@) =~= seq![a@, b@]);
    line
}

/// A line of three spans.
pub fn line3(a: Span, b: Span, c: Span) -> (line: Vec<Span>)
    ensures
        line_model(line@) == seq![a@, b@, c@],
{
    let mut line: Vec<Span> = Vec::new();
    line.push(a);
    line.push(b);
    line.push(c);
    assert(line_model(line@) =~= seq![a@, b@, c@]);
    line
}

/// A line of four spans.
pub fn line4(a: Span, b: Span, c: Span, d: Span) -> (line: Vec<Span>)
    ensures
        line_model(line@) == seq![a@, b@, c@, d@],
{
    let mut line: Vec<Span> = Vec::new();
    line.push(a);
    line.push(b);
    line.push(c);
    line.push(d);
    assert(line_model(line@) =~= seq![a@, b@, c@, d@]);
    line
}

/// Add a span to a line.
pub fn add_span(line: &mut Vec<Span>, part: Span)
    ensures
        line_model(final(line)@) == line_model(old(line)@).push(part@),
{
    line.push(part);
    assert(line_model(line@) =~= line_model(old(line)@).push(part@));
}

/// A blank line.
pub fn blank() -> (line: Vec<Span>)
    ensures
        line_model(line@) == Seq::<SpanModel>::empty(),
{
    let line: Vec<Span> = Vec::new();
    assert(line_model(line@) =~= Seq::<SpanModel>::empty());
    line
}

/// Add a line to a page.
pub fn add_line(page: &mut Vec<Vec<Span>>, line: Vec<Span>)
    ensures
        page_model(final(page)@) == page_model(old(page)@).push(line_model(line@)),
{
    page.push(line);
    assert(page_model(page@) =~= page_model(old(page)@).push(line_model(line@)));
}

/// Add the lines of one page to another.
pub fn add_page(page: &mut Vec<Vec<Span>>, more: Vec<Vec<Span>>)
    ensures
        page_model(final(page)@) == page_model(old(page)@) + page_model(more@),
{
    let ghost added = more@;
    let mut more = more;
    page.append(&mut more);
    assert(page_model(page@) =~= page_model(old(page)@) + page_model(added));
}

/// What the first `n` parts of a line say, colours aside.
pub open spec fn reading(line: Seq<SpanModel>, n: int) -> Seq<char>
    decreases n,
{
    if n <= 0 {
        Seq::empty()
    } else if n == 1 {
        line[0].text
    } else {
        reading(line, n - 1) + line[n - 1].text
    }
}

/// What a line says, colours aside.
pub open spec fn reads(line: Seq<SpanModel>) -> Seq<char> {
    reading(line, line.len() as int)
}

/// The styles: only the named one is bold, dim, slanted or reversed, and
/// only where a colour is asked for is there one.
pub proof fn law_styles(color: Color)
    ensures
        plain() == colored(Color::Default),
        colored(color).color == color && strong(color).color == color,
        !colored(color).bold && strong(color).bold,
        !colored(color).dim && !strong(color).dim,
        !colored(color).italic && !strong(color).italic,
        !colored(color).reversed && !strong(color).reversed,
        dimmed().dim && !dimmed().bold && !dimmed().italic && !dimmed().reversed,
        aside().dim && aside().italic && !aside().bold && !aside().reversed,
        banner().reversed && banner().bold && !banner().dim && !banner().italic,
        dimmed().color == Color::Default && aside().color == Color::Default && banner().color
            == Color::Default,
{
}

} // verus!
