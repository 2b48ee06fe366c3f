//! Styled text, the material that frames are drawn with.

use vstd::prelude::*;
use crate::theme::Color;

verus! {

/// How text is drawn. A colour that is not given is left as it is.
#[derive(Clone, Copy, Debug, PartialEq, Eq)]
pub struct Style {
    pub fg: Option<Color>,
    pub bg: Option<Color>,
    pub bold: bool,
    pub dim: bool,
    pub reversed: bool,
}

/// A piece of text in one style.
#[derive(Debug, PartialEq, Eq)]
pub struct Span {
    pub text: String,
    pub style: Style,
}

/// One line of text.
#[derive(Debug, PartialEq, Eq)]
pub struct Line {
    pub spans: Vec<Span>,
}

/// What a piece of text says.
pub struct SpanView {
    pub text: Seq<char>,
    pub style: Style,
}

impl View for Span {
    type V = SpanView;

    open spec fn view(&self) -> SpanView {
        SpanView { text: self.text@, style: self.style }
    }
}

impl View for Line {
    type V = Seq<SpanView>;

    open spec fn view(&self) -> Seq<SpanView> {
        Seq::new(self.spans@.len(), |i: int| self.spans@[i]@)
    }
}

/// What a list of lines says.
pub open spec fn line_views(lines: Seq<Line>) -> Seq<Seq<SpanView>> {
    Seq::new(lines.len(), |i: int| lines[i]@)
}

/// The style of text that nothing was said of.
pub open spec fn spec_plain() -> Style {
    Style { fg: None, bg: None, bold: false, dim: false, reversed: false }
}

/// A foreground colour.
pub open spec fn spec_fg(c: Color) -> Style {
    Style { fg: Some(c), bg: None, bold: false, dim: false, reversed: false }
}

/// A bold foreground colour.
pub open spec fn spec_fg_bold(c: Color) -> Style {
    Style { fg: Some(c), bg: None, bold: true, dim: false, reversed: false }
}

/// A foreground colour on a background colour.
pub open spec fn spec_on(fg: Color, bg: Color) -> Style {
    Style { fg: Some(fg), bg: Some(bg), bold: false, dim: false, reversed: false }
}

/// The style of text that nothing was said of.
pub fn plain() -> (s: Style)
    ensures
        s == spec_plain(),
{
    Style { fg: None, bg: None, bold: false, dim: false, reversed: false }
}

/// A foreground colour.
pub fn fg(c: Color) -> (s: Style)
    ensures
        s == spec_fg(c),
{
    Style { fg: Some(c), bg: None, bold: false, dim: false, reversed: false }
}

/// A bold foreground colour.
pub fn fg_bold(c: Color) -> (s: Style)
    ensures
        s == spec_fg_bold(c),
{
    Style { fg: Some(c), bg: None, bold: true, dim: false, reversed: false }
}

/// A foreground colour on a background colour.
pub fn on(fg: Color, bg: Color) -> (s: Style)
    ensures
        s == spec_on(fg, bg),
{
    Style { fg: Some(fg), bg: Some(bg), bold: false, dim: false, reversed: false }
}

impl Line {
    /// A line without text.
    pub fn new() -> (line: Line)
        ensures
            line@ == Seq::<SpanView>::empty(),
    {
        let line = Line { spans: Vec::new() };
        assert(line@ =~= Seq::<SpanView>::empty());
        line
    }

    /// Put a piece of text at the end.
    pub fn push(&mut self, text: String, style: Style)
        ensures
            final(self)@ == old(self)@.push(SpanView { text: text@, style }),
    {
        self.spans.push(Span { text, style });
        assert(self@ =~= old(self)@.push(SpanView { text: text@, style }));
    }
}

} // verus!
