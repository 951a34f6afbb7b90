//! Text with colours.

use vstd::prelude::*;
use vstd::string::*;

verus! {

/// The colours in use.
#[derive(Debug, Clone, Copy, PartialEq, Eq, Structural)]
pub enum Color {
    Reset,
    Black,
    White,
    Gray,
    DarkGray,
    Green,
    Yellow,
    LightYellow,
    LightRed,
    LightGreen,
    LightBlue,
    Rgb(u8, u8, u8),
}

/// How a text looks. What is not set stays as it is.
#[derive(Debug, Clone, Copy, PartialEq, Eq, Structural)]
pub struct TextStyle {
    pub fg: Option<Color>,
    pub bg: Option<Color>,
    pub bold: bool,
}

/// The style that sets nothing.
pub open spec fn plain_style() -> TextStyle {
    TextStyle { fg: None, bg: None, bold: false }
}

/// The style that sets the colour of the text.
pub open spec fn colored(color: Color) -> TextStyle {
    TextStyle { fg: Some(color), bg: None, bold: false }
}

impl TextStyle {
    pub fn plain() -> (style: TextStyle)
        ensures
            style == plain_style(),
    {
        TextStyle { fg: None, bg: None, bold: false }
    }

    pub fn with_color(color: Color) -> (style: TextStyle)
        ensures
            style == colored(color),
    {
        TextStyle { fg: Some(color), bg: None, bold: false }
    }
}

/// A stretch of text in one style.
#[derive(Debug, Clone, PartialEq, Eq)]
pub struct TextSpan {
    pub text: String,
    pub style: TextStyle,
}

/// What a [`TextSpan`] is, as a value.
pub struct SpanView {
    pub text: Seq<char>,
    pub style: TextStyle,
}

impl View for TextSpan {
    type V = SpanView;

    open spec fn view(&self) -> SpanView {
        SpanView { text: self.text@, style: self.style }
    }
}

/// The spans in a list.
pub open spec fn spans_view(spans: Seq<TextSpan>) -> Seq<SpanView> {
    spans.map_values(|span: TextSpan| span@)
}

/// A line of text.
#[derive(Debug, Clone, PartialEq, Eq)]
pub struct TextLine {
    pub spans: Vec<TextSpan>,
    /// The style under that of the spans.
    pub style: TextStyle,
}

/// What a [`TextLine`] is, as a value.
pub struct LineView {
    pub spans: Seq<SpanView>,
    pub style: TextStyle,
}

impl View for TextLine {
    type V = LineView;

    open spec fn view(&self) -> LineView {
        LineView { spans: spans_view(self.spans@), style: self.style }
    }
}

/// The lines in a list.
pub open spec fn lines_view(lines: Seq<TextLine>) -> Seq<LineView> {
    lines.map_values(|line: TextLine| line@)
}

/// A span without a style of its own.
pub open spec fn raw_span(text: Seq<char>) -> SpanView {
    SpanView { text, style: plain_style() }
}

/// A line of one span, with a style.
pub open spec fn styled_line(text: Seq<char>, style: TextStyle) -> LineView {
    LineView { spans: seq![raw_span(text)], style }
}

/// `text`, `count` times.
pub open spec fn repeated(text: Seq<char>, count: nat) -> Seq<char>
    decreases count,
{
    if count == 0 {
        seq![]
    } else {
        repeated(text, (count - 1) as nat) + text
    }
}

impl TextLine {
    /// A line of one span, with a style.
    pub fn styled(text: String, style: TextStyle) -> (line: TextLine)
        ensures
            line@ == styled_line(text@, style),
    {
        let mut spans: Vec<TextSpan> = Vec::new();
        spans.push(TextSpan { text, style: TextStyle::plain() });
        let line = TextLine { spans, style };
        assert(line@.spans =~= seq![raw_span(text@)]);
        line
    }
}

/// Appends a span to a list.
pub fn push_span(spans: &mut Vec<TextSpan>, text: String, style: TextStyle)
    ensures
        spans_view(final(spans)@) == spans_view(old(spans)@).push(
            (SpanView { text: text@, style }),
        ),
{
    let ghost before = spans@;
    spans.push(TextSpan { text, style });
    assert(spans_view(spans@) =~= spans_view(before).push(SpanView { text: text@, style }));
}

/// Appends a line to a list.
pub fn push_line(lines: &mut Vec<TextLine>, line: TextLine)
    ensures
        lines_view(final(lines)@) == lines_view(old(lines)@).push(line@),
{
    let ghost before = lines@;
    lines.push(line);
    assert(lines_view(lines@) =~= lines_view(before).push(line@));
}

/// Repeats a text.
pub fn repeat_text(text: &str, count: usize) -> (all: String)
    ensures
        all@ == repeated(text@, count as nat),
{
    let mut all = String::new();
    let mut i: usize = 0;
    assert(all@ =~= Seq::<char>::empty());
    while i < count
        invariant
            i <= count,
            all@ == repeated(text@, i as nat),
        decreases count - i,
    {
        all.append(text);
        i += 1;
    }
    all
}

} // verus!
