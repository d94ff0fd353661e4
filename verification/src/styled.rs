//! Styled text: lines of spans, each span a string with a foreground colour and
//! a bold flag.  The terminal front end turns these into its own widgets.
use vstd::prelude::*;
use crate::theme::Color;
use crate::text::string_from;

verus! {

/// How a span is drawn: its foreground colour (none: the terminal default) and weight.
#[derive(Debug, Clone, Copy, PartialEq, Eq, Structural)]
pub struct TextStyle {
    pub fg: Option<Color>,
    pub bold: bool,
}

/// A run of text drawn in one style.
#[derive(Debug)]
pub struct StyledSpan {
    pub text: String,
    pub style: TextStyle,
}

/// One line of styled text.
#[derive(Debug)]
pub struct StyledLine {
    pub spans: Vec<StyledSpan>,
}

/// The abstract value of a span: its characters and its style.
pub type SpanV = (Seq<char>, TextStyle);

/// The abstract value of a line: its spans.
pub type LineV = Seq<SpanV>;

impl View for StyledSpan {
    type V = SpanV;

    open spec fn view(&self) -> SpanV {
        (self.text@, self.style)
    }
}

impl View for StyledLine {
    type V = LineV;

    open spec fn view(&self) -> LineV {
        self.spans@.map_values(|s: StyledSpan| s@)
    }
}

/// The abstract values of a sequence of lines.
pub open spec fn lines_view(v: Seq<StyledLine>) -> Seq<LineV> {
    v.map_values(|l: StyledLine| l@)
}

/// The style of plain text: terminal default colour, normal weight.
pub open spec fn plain() -> TextStyle {
    TextStyle { fg: None, bold: false }
}

/// Text in colour `c`, normal weight.
pub open spec fn fg(c: Color) -> TextStyle {
    TextStyle { fg: Some(c), bold: false }
}

/// Text in colour `c`, bold.
pub open spec fn fg_bold(c: Color) -> TextStyle {
    TextStyle { fg: Some(c), bold: true }
}

/// A span made of the characters `v` in style `style`.
pub fn span(v: &[char], style: TextStyle) -> (s: StyledSpan)
    ensures
        s@ == (v@, style),
{
    StyledSpan { text: string_from(v), style }
}

/// A line of one span.
pub fn line1(a: StyledSpan) -> (l: StyledLine)
    ensures
        l@ == seq![a@],
{
    let mut spans: Vec<StyledSpan> = Vec::new();
    spans.push(a);
    let l = StyledLine { spans };
    assert(l@ =~= seq![a@]);
    l
}

/// A line of two spans.
pub fn line2(a: StyledSpan, b: StyledSpan) -> (l: StyledLine)
    ensures
        l@ == seq![a@, b@],
{
    let mut spans: Vec<StyledSpan> = Vec::new();
    spans.push(a);
    spans.push(b);
    let l = StyledLine { spans };
    assert(l@ =~= seq![a@, b@]);
    l
}

/// A line of three spans.
pub fn line3(a: StyledSpan, b: StyledSpan, c: StyledSpan) -> (l: StyledLine)
    ensures
        l@ == seq![a@, b@, c@],
{
    let mut spans: Vec<StyledSpan> = Vec::new();
    spans.push(a);
    spans.push(b);
    spans.push(c);
    let l = StyledLine { spans };
    assert(l@ =~= seq![a@, b@, c@]);
    l
}

/// The empty line: one empty span of plain style.
pub open spec fn blank_line() -> LineV {
    seq![(Seq::<char>::empty(), plain())]
}

/// The empty line.
pub fn blank() -> (l: StyledLine)
    ensures
        l@ == blank_line(),
{
    let e: Vec<char> = Vec::new();
    line1(span(e.as_slice(), TextStyle { fg: None, bold: false }))
}

/// Appends `l` to `out`.
pub fn push_line(out: &mut Vec<StyledLine>, l: StyledLine)
    ensures
        lines_view(final(out)@) == lines_view(old(out)@).push(l@),
        final(out)@.len() == old(out)@.len() + 1,
{
    out.push(l);
    assert(lines_view(out@) =~= lines_view(old(out)@).push(l@));
}

} // verus!
