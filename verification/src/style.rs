//! Styled text: what the tools draw, before it reaches a terminal.

use vstd::prelude::*;

verus! {

/// A colour of the terminal.
#[derive(Clone, Copy, Debug, PartialEq, Eq, Structural)]
pub enum Color {
    Red,
    Green,
    Yellow,
    Blue,
    Magenta,
    Cyan,
    White,
    DarkGray,
    Rgb(u8, u8, u8),
}

/// How a text is drawn.
#[derive(Clone, Copy, Debug, PartialEq, Eq, Structural)]
pub struct Style {
    pub fg: Option<Color>,
    pub bg: Option<Color>,
    pub bold: bool,
    pub italic: bool,
    pub underlined: bool,
}

/// Nothing asked for.
pub open spec fn plain_style() -> Style {
    Style { fg: None, bg: None, bold: false, italic: false, underlined: false }
}

/// One colour in front.
pub open spec fn in_color(color: Color) -> Style {
    Style { fg: Some(color), ..plain_style() }
}

impl Default for Style {
    fn default() -> (r: Style)
        ensures
            r == plain_style(),
    {
        Style { fg: None, bg: None, bold: false, italic: false, underlined: false }
    }
}

impl Style {
    /// With another colour in front.
    pub fn with_fg(self, color: Color) -> (r: Style)
        ensures
            r == (Style { fg: Some(color), ..self }),
    {
        Style { fg: Some(color), ..self }
    }

    /// With another colour behind.
    pub fn with_bg(self, color: Color) -> (r: Style)
        ensures
            r == (Style { bg: Some(color), ..self }),
    {
        Style { bg: Some(color), ..self }
    }

    /// In bold.
    pub fn with_bold(self) -> (r: Style)
        ensures
            r == (Style { bold: true, ..self }),
    {
        Style { bold: true, ..self }
    }

    /// One colour in front.
    pub fn colored(color: Color) -> (r: Style)
        ensures
            r == in_color(color),
    {
        Style { fg: Some(color), bg: None, bold: false, italic: false, underlined: false }
    }
}

/// A text in one style.
#[derive(Debug, PartialEq, Eq)]
pub struct Span {
    pub text: String,
    pub style: Style,
}

/// A line of spans.
#[derive(Debug, PartialEq, Eq)]
pub struct Line {
    pub spans: Vec<Span>,
}

/// A text in one style.
pub struct SpanView {
    pub text: Seq<char>,
    pub style: Style,
}

impl View for Span {
    type V = SpanView;

    open spec fn view(&self) -> SpanView {
        SpanView { text: self.text@, style: self.style }
    }
}

/// Spans as texts in styles.
pub open spec fn span_views(spans: Seq<Span>) -> Seq<SpanView> {
    spans.map_values(|span: Span| span@)
}

impl View for Line {
    type V = Seq<SpanView>;

    open spec fn view(&self) -> Seq<SpanView> {
        span_views(self.spans@)
    }
}

/// Lines as rows of texts in styles.
pub open spec fn line_views(lines: Seq<Line>) -> Seq<Seq<SpanView>> {
    lines.map_values(|line: Line| line@)
}

/// A text in a style.
pub open spec fn styled(text: Seq<char>, style: Style) -> SpanView {
    SpanView { text, style }
}

/// A text with nothing asked for.
pub open spec fn raw(text: Seq<char>) -> SpanView {
    styled(text, plain_style())
}

/// The row that stands where there is nothing to show.
pub open spec fn filler() -> Seq<SpanView> {
    seq![styled("~"@, in_color(Color::DarkGray))]
}

impl Span {
    /// A text in a style.
    pub fn styled(text: String, style: Style) -> (r: Span)
        ensures
            r@ == styled(text@, style),
    {
        Span { text, style }
    }

    /// A text with nothing asked for.
    pub fn raw(text: String) -> (r: Span)
        ensures
            r@ == raw(text@),
    {
        Span { text, style: Style::default() }
    }
}

impl Line {
    /// A line of spans.
    pub fn of(spans: Vec<Span>) -> (r: Line)
        ensures
            r@ == span_views(spans@),
    {
        Line { spans }
    }

    /// A line of one span.
    pub fn one(span: Span) -> (r: Line)
        ensures
            r@ == seq![span@],
    {
        let ghost view = span@;
        let mut spans: Vec<Span> = Vec::new();
        spans.push(span);
        assert(span_views(spans@) =~= seq![view]);
        Line { spans }
    }

    /// The row that stands where there is nothing to show.
    pub fn filler() -> (r: Line)
        ensures
            r@ == filler(),
    {
        Line::one(Span::styled("~".to_string(), Style::colored(Color::DarkGray)))
    }
}

/// `rows` filled up to `height`.
pub open spec fn filled_up(rows: Seq<Seq<SpanView>>, height: int) -> Seq<Seq<SpanView>> {
    if rows.len() >= height {
        rows
    } else {
        rows + Seq::new((height - rows.len()) as nat, |i: int| filler())
    }
}

/// Adds filler rows up to a height.
pub fn fill_up(rows: &mut Vec<Line>, height: usize)
    ensures
        line_views(final(rows)@) == filled_up(line_views(old(rows)@), height as int),
{
    let ghost first = line_views(rows@);
    while rows.len() < height
        invariant
            first.len() <= rows@.len(),
            rows@.len() <= height || rows@.len() == first.len(),
            line_views(rows@) == first + Seq::new(
                (rows@.len() - first.len()) as nat,
                |i: int| filler(),
            ),
        decreases height - rows@.len(),
    {
        let ghost was = line_views(rows@);
        let row = Line::filler();
        rows.push(row);
        assert(line_views(rows@) =~= was.push(filler()));
        assert(line_views(rows@) =~= first + Seq::new(
            (rows@.len() - first.len()) as nat,
            |i: int| filler(),
        ));
    }
    assert(line_views(rows@) =~= filled_up(first, height as int));
}

} // verus!
