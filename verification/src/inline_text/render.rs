//! What the editor and the pager show.

use vstd::prelude::*;

use crate::layout::{head_and_foot, inside_frame, Area, Place};
#[allow(unused_imports)]
use crate::layout::{law_head_and_foot_fill, law_inner_lies_within};
use crate::inline_text::buffer::{line_selection_range, line_text, Region};
#[allow(unused_imports)]
use crate::inline_text::buffer::{selected, text_of};
use crate::inline_text::editor::Editor;
#[allow(unused_imports)]
use crate::inline_text::model::{lesser, line_texts, more, EditorState};
use crate::inline_text::syntax::{SyntaxHighlighter, Token};
#[allow(unused_imports)]
use crate::inline_text::syntax::{pieces, pieces_text, Piece};
use crate::inline_text::Mode;
#[allow(unused_imports)]
use crate::rope::line_count;
use crate::style::{fill_up, Color, Line, Span, Style};
#[allow(unused_imports)]
use crate::style::{filled_up, filler, in_color, line_views, raw, span_views, styled, SpanView};
#[allow(unused_imports)]
use crate::text::{decimal, pad_left};
use crate::text::{char_count, chars_of, concat2, concat3, decimal_of, pad_left_to};

verus! {

// ---------------------------------------------------------------------------
// One line
// ---------------------------------------------------------------------------

/// The style of a token.
pub open spec fn token_style(token: Piece) -> Style {
    Style {
        fg: Some(Color::Rgb(token.red, token.green, token.blue)),
        bg: None,
        bold: token.bold,
        italic: token.italic,
        underlined: token.underline,
    }
}

/// The style of a token.
fn syntect_style(token: &Token) -> (r: Style)
    ensures
        r == token_style(token@),
{
    Style {
        fg: Some(Color::Rgb(token.red, token.green, token.blue)),
        bg: None,
        bold: token.bold,
        italic: token.italic,
        underlined: token.underline,
    }
}

/// The style of a column of the subject of a commit message: the columns within
/// the limit stand out from those behind it.
pub open spec fn subject_style(style: Style, pos: int, limit: Option<usize>) -> Style {
    match limit {
        None => style,
        Some(limit) => if pos < limit {
            Style { fg: Some(Color::Cyan), ..style }
        } else {
            Style { fg: Some(Color::Red), bold: true, ..style }
        },
    }
}

/// The style of a column of the subject of a commit message.
pub fn commit_subject_style(style: Style, pos: usize, limit: Option<usize>) -> (r: Style)
    ensures
        r == subject_style(style, pos as int, limit),
{
    let Some(limit) = limit else {
        return style;
    };
    if pos < limit {
        style.with_fg(Color::Cyan)
    } else {
        style.with_fg(Color::Red).with_bold()
    }
}

/// The style of a column: that of its token, changed by the limit of the subject
/// and by the selection.
pub open spec fn column_style(
    style: Style,
    pos: int,
    selection: Option<Region>,
    limit: Option<usize>,
) -> Style {
    let style = subject_style(style, pos, limit);
    match selection {
        Some(region) if region.start <= pos < region.end => Style {
            bg: Some(Color::DarkGray),
            ..style
        },
        _ => style,
    }
}

/// The characters of pieces, each with the style of its piece.
pub open spec fn styled_chars(tokens: Seq<Piece>) -> Seq<(char, Style)>
    decreases tokens.len(),
{
    if tokens.len() == 0 {
        Seq::empty()
    } else {
        styled_chars(tokens.drop_last()) + tokens.last().text.map_values(
            |c: char| (c, token_style(tokens.last())),
        )
    }
}

/// The span for the column `pos`.
pub open spec fn column_span(
    c: (char, Style),
    pos: int,
    selection: Option<Region>,
    limit: Option<usize>,
) -> SpanView {
    styled(seq![c.0], column_style(c.1, pos, selection, limit))
}

/// The columns `start..end` of a line, one span for each.
pub open spec fn columns(
    chars: Seq<(char, Style)>,
    start: int,
    end: int,
    selection: Option<Region>,
    limit: Option<usize>,
) -> Seq<SpanView> {
    let stop = lesser(end, chars.len() as int);
    if start < stop {
        Seq::new(
            (stop - start) as nat,
            |i: int| column_span(chars[start + i], start + i, selection, limit),
        )
    } else {
        Seq::empty()
    }
}

/// The visible columns of a line in tokens.
pub fn slice_highlighted_line(
    highlighted: &Vec<Token>,
    start: usize,
    width: usize,
    selection: Option<Region>,
    commit_subject_limit: Option<usize>,
) -> (r: Vec<Span>)
    requires
        styled_chars(pieces(highlighted@)).len() <= usize::MAX,
    ensures
        span_views(r@) == columns(
            styled_chars(pieces(highlighted@)),
            start as int,
            more(start as int, width as int),
            selection,
            commit_subject_limit,
        ),
{
    let end: usize = start.saturating_add(width);
    let ghost all = styled_chars(pieces(highlighted@));
    let mut spans: Vec<Span> = Vec::new();
    let mut pos: usize = 0;
    let mut i: usize = 0;
    assert(span_views(spans@) =~= columns(
        styled_chars(pieces(highlighted@).take(0)),
        start as int,
        end as int,
        selection,
        commit_subject_limit,
    ));
    while i < highlighted.len()
        invariant
            i <= highlighted@.len(),
            all == styled_chars(pieces(highlighted@)),
            all.len() <= usize::MAX,
            end == more(start as int, width as int),
            pos == styled_chars(pieces(highlighted@).take(i as int)).len(),
            span_views(spans@) == columns(
                styled_chars(pieces(highlighted@).take(i as int)),
                start as int,
                end as int,
                selection,
                commit_subject_limit,
            ),
        decreases highlighted@.len() - i,
    {
        let base_style = syntect_style(&highlighted[i]);
        let text = chars_of(highlighted[i].text.as_str());
        let ghost before = styled_chars(pieces(highlighted@).take(i as int));
        let ghost after = styled_chars(pieces(highlighted@).take(i + 1));
        assert(pieces(highlighted@).take(i + 1).drop_last() =~= pieces(highlighted@).take(i as int));
        proof {
            lemma_styled_chars(pieces(highlighted@), i + 1);
        }
        assert(after =~= before + text@.map_values(|c: char| (c, base_style)));
        let first: usize = pos;
        let mut k: usize = 0;
        while k < text.len()
            invariant
                k <= text@.len(),
                first == before.len(),
                pos == first + k,
                after == before + text@.map_values(|c: char| (c, base_style)),
                after.len() <= usize::MAX,
                span_views(spans@) == columns(
                    after.take(pos as int),
                    start as int,
                    end as int,
                    selection,
                    commit_subject_limit,
                ),
            decreases text@.len() - k,
        {
            let ghost was = span_views(spans@);
            if pos >= start && pos < end {
                let style = commit_subject_style(base_style, pos, commit_subject_limit);
                let in_selection = match selection {
                    Some(region) => region.start <= pos && pos < region.end,
                    None => false,
                };
                let style = if in_selection {
                    style.with_bg(Color::DarkGray)
                } else {
                    style
                };
                let mut ch: String = String::new();
                ch.push(text[k]);
                assert(ch@ =~= seq![text@[k as int]]);
                assert(after[pos as int] == (text@[k as int], base_style));
                spans.push(Span::styled(ch, style));
                assert(span_views(spans@) =~= was.push(
                    column_span(
                        after[pos as int],
                        pos as int,
                        selection,
                        commit_subject_limit,
                    ),
                ));
            }
            pos = pos + 1;
            k = k + 1;
            assert(span_views(spans@) =~= columns(
                after.take(pos as int),
                start as int,
                end as int,
                selection,
                commit_subject_limit,
            ));
        }
        assert(after.take(pos as int) =~= after);
        i = i + 1;
        if pos >= end {
            proof {
                lemma_styled_chars(pieces(highlighted@), i as int);
            }
            assert(span_views(spans@) =~= columns(
                all,
                start as int,
                end as int,
                selection,
                commit_subject_limit,
            ));
            return spans;
        }
    }
    assert(pieces(highlighted@).take(i as int) =~= pieces(highlighted@));
    spans
}

/// More tokens have the characters of fewer in front.
proof fn lemma_styled_chars(tokens: Seq<Piece>, n: int)
    requires
        0 <= n <= tokens.len(),
    ensures
        styled_chars(tokens.take(n)).len() <= styled_chars(tokens).len(),
        styled_chars(tokens).take(styled_chars(tokens.take(n)).len() as int) == styled_chars(
            tokens.take(n),
        ),
    decreases tokens.len() - n,
{
    let head = styled_chars(tokens.take(n));
    if n == tokens.len() {
        assert(tokens.take(n) =~= tokens);
        assert(head.take(head.len() as int) =~= head);
    } else {
        lemma_styled_chars(tokens, n + 1);
        assert(tokens.take(n + 1).drop_last() =~= tokens.take(n));
        let longer = styled_chars(tokens.take(n + 1));
        assert(styled_chars(tokens).take(head.len() as int) =~= styled_chars(tokens).take(
            longer.len() as int,
        ).take(head.len() as int));
        assert(longer.take(head.len() as int) =~= head);
    }
}

/// There are as many styled characters as the tokens have characters.
proof fn lemma_styled_len(tokens: Seq<Piece>)
    ensures
        styled_chars(tokens).len() == pieces_text(tokens).len(),
    decreases tokens.len(),
{
    if tokens.len() > 0 {
        lemma_styled_len(tokens.drop_last());
    }
}

// ---------------------------------------------------------------------------
// The visible lines
// ---------------------------------------------------------------------------

/// The columns of a line that lie in the active region.
pub open spec fn selected_columns(state: EditorState, line: int) -> Option<Region> {
    match state.region() {
        None => None,
        Some((from, to)) => match selected(state.text, line, from, to) {
            Some((a, b)) => Some(Region { start: a as usize, end: b as usize }),
            None => None,
        },
    }
}

/// A line as it is shown: its number, and its visible columns.
pub open spec fn shown_line(
    state: EditorState,
    line: int,
    tokens: Seq<Piece>,
    text_width: int,
    prefix_width: int,
) -> Seq<SpanView> {
    seq![
        styled(
            pad_left(decimal((line + 1) as nat), (prefix_width - 1) as nat) + " "@,
            in_color(Color::DarkGray),
        ),
    ] + columns(
        styled_chars(tokens),
        state.scroll_x,
        more(state.scroll_x, text_width),
        selected_columns(state, line),
        state.subject_limit(line),
    )
}

/// A line of the editor, cut into tokens, as it is shown.
pub fn render_line(
    app: &Editor,
    line: usize,
    tokens: &Vec<Token>,
    text_width: usize,
    prefix_width: usize,
) -> (r: Line)
    requires
        line < usize::MAX,
        prefix_width >= 1,
        app@.mark is Some ==> app@.index() <= usize::MAX,
        styled_chars(pieces(tokens@)).len() <= usize::MAX,
    ensures
        r@ == shown_line(
            app@,
            line as int,
            pieces(tokens@),
            text_width as int,
            prefix_width as int,
        ),
{
    let active_region = app.active_region();
    let line_region = line_selection_range(app, line, active_region.as_ref());
    let number = decimal_of((line + 1) as u64);
    let padded = pad_left_to(number.as_str(), prefix_width - 1);
    let prefix = concat2(padded.as_str(), " ");
    let mut spans: Vec<Span> = Vec::new();
    spans.push(Span::styled(prefix, Style::colored(Color::DarkGray)));
    let mut rest = slice_highlighted_line(
        tokens,
        app.scroll_x,
        text_width,
        line_region,
        app.commit_subject_limit_for_line(line),
    );
    let ghost first = span_views(spans@);
    let ghost visible = span_views(rest@);
    spans.append(&mut rest);
    assert(span_views(spans@) =~= first + visible);
    assert(line_region == selected_columns(app@, line as int));
    assert(span_views(spans@) =~= shown_line(
        app@,
        line as int,
        pieces(tokens@),
        text_width as int,
        prefix_width as int,
    ));
    Line::of(spans)
}

/// The number of lines of the text that fit on the screen.
pub open spec fn visible_lines(state: EditorState, text_height: int) -> int {
    let end = lesser(state.scroll_y + text_height, line_count(state.text));
    if end > state.scroll_y {
        end - state.scroll_y
    } else {
        0
    }
}

/// A visible line as it is shown. It is highlighted behind the visible lines above
/// it.
pub open spec fn highlighted_line(
    state: EditorState,
    syntax: SyntaxHighlighter,
    line: int,
    text_width: int,
    prefix_width: int,
) -> Seq<SpanView> {
    shown_line(
        state,
        line,
        syntax.pieces_of(line_texts(state.text, state.scroll_y, line), text_of(state.text, line)),
        text_width,
        prefix_width,
    )
}

/// The visible lines, filled up to the height of the screen.
pub fn render_lines(
    app: &Editor,
    syntax: &SyntaxHighlighter,
    text_height: usize,
    text_width: usize,
    prefix_width: usize,
) -> (r: Vec<Line>)
    requires
        syntax.wf(),
        prefix_width >= 1,
        app@.scroll_y + text_height <= usize::MAX,
        app@.mark is Some ==> app@.index() <= usize::MAX,
    ensures
        r@.len() == text_height,
        forall|i: int|
            0 <= i < visible_lines(app@, text_height as int) ==> #[trigger] r@[i]@
                == highlighted_line(
                app@,
                *syntax,
                app@.scroll_y + i,
                text_width as int,
                prefix_width as int,
            ),
        forall|i: int|
            visible_lines(app@, text_height as int) <= i < text_height ==> #[trigger] r@[i]@
                == filler(),
{
    let mut highlighter = syntax.start();
    let count = app.line_count();
    let wanted: usize = app.scroll_y + text_height;
    let end: usize = if wanted < count {
        wanted
    } else {
        count
    };
    let first: usize = app.scroll_y;
    let mut output: Vec<Line> = Vec::new();
    let mut idx: usize = first;
    while idx < end
        invariant
            first == app@.scroll_y,
            first <= idx,
            idx <= end || idx == first,
            end == lesser(first + text_height, line_count(app@.text)),
            count == line_count(app@.text),
            prefix_width >= 1,
            app@.mark is Some ==> app@.index() <= usize::MAX,
            output@.len() == idx - first,
            forall|i: int|
                0 <= i < output@.len() ==> #[trigger] output@[i]@ == highlighted_line(
                    app@,
                    *syntax,
                    first + i,
                    text_width as int,
                    prefix_width as int,
                ),
            highlighter.wf(),
            highlighter.source() == syntax,
            highlighter.seen() == line_texts(app@.text, first as int, idx as int),
        decreases end - idx,
    {
        let line = line_text(&app.buffer, idx);
        let tokens = highlighter.tokens(line.as_str());
        let _count: usize = char_count(line.as_str());
        proof {
            lemma_styled_len(pieces(tokens@));
        }
        let row = render_line(app, idx, &tokens, text_width, prefix_width);
        output.push(row);
        idx = idx + 1;
    }
    let ghost shown = output@;
    assert(shown.len() == visible_lines(app@, text_height as int));
    fill_up(&mut output, text_height);
    assert(line_views(output@) == filled_up(line_views(shown), text_height as int));
    assert forall|i: int| 0 <= i < text_height implies #[trigger] output@[i]@ == filled_up(
        line_views(shown),
        text_height as int,
    )[i] by {
        assert(line_views(output@)[i] == output@[i]@);
    }
    assert(output@.len() == line_views(output@).len());
    assert forall|i: int| 0 <= i < shown.len() implies #[trigger] output@[i]@ == shown[i]@ by {
        assert(line_views(shown)[i] == shown[i]@);
    }
    output
}

// ---------------------------------------------------------------------------
// The screen
// ---------------------------------------------------------------------------

/// What is drawn of the editor: a frame with a title, and inside it the lines of the
/// text above a status line.
pub struct Picture {
    pub title: String,
    pub lines: Vec<Line>,
    pub lines_area: Area,
    pub status: Line,
    pub status_area: Area,
    pub cursor: Option<Place>,
}

/// The part of the screen for the text, where the editor has the part `whole`.
pub open spec fn lines_area(whole: Area) -> Area {
    whole.inner().head()
}

/// The part of the screen for the status line.
pub open spec fn status_area(whole: Area) -> Area {
    whole.inner().foot()
}

/// The width of the line numbers and of the space behind them.
pub open spec fn number_width(state: EditorState) -> int {
    decimal(line_count(state.text) as nat).len() as int + 2
}

/// The number of columns of the text that are seen.
pub open spec fn text_columns(state: EditorState, area: Area) -> int {
    if area.width > number_width(state) {
        area.width - number_width(state)
    } else {
        1
    }
}

/// The number of lines of the text that are seen.
pub open spec fn text_rows(area: Area) -> int {
    if area.height > 1 {
        area.height as int
    } else {
        1
    }
}

/// The editor as it is drawn: what was drawn last is remembered, and the cursor
/// is in sight.
pub open spec fn drawn(state: EditorState, whole: Area) -> EditorState {
    EditorState {
        last_drawn_height: whole.height,
        last_drawn_top: whole.y,
        ..state
    }.revealed(text_rows(lines_area(whole)), text_columns(state, lines_area(whole)))
}

/// The status line.
pub open spec fn status_line(state: EditorState) -> Seq<SpanView> {
    seq![
        styled(
            decimal((state.line + 1) as nat) + ":"@ + decimal((state.col + 1) as nat) + (
            if state.dirty {
                " *"@
            } else {
                ""@
            }) + "  "@,
            in_color(Color::Cyan),
        ),
        raw(state.shown_status()),
    ]
}

/// The place of the cursor on the screen, if it lies in the area of the text.
pub open spec fn cursor_place(state: EditorState, area: Area) -> Option<Place> {
    let y = area.y + (state.line - state.scroll_y);
    let x = area.x + number_width(state) + (state.col - state.scroll_x);
    if state.scroll_y <= state.line < state.scroll_y + text_rows(area) && x < area.x + area.width
        && y < area.y + area.height {
        Some(Place { x: x as u16, y: y as u16 })
    } else {
        None
    }
}

/// Draws the editor on the part `whole` of the screen.
pub fn draw(app: &mut Editor, syntax: &SyntaxHighlighter, mode: Mode, whole: Area) -> (r: Picture)
    requires
        syntax.wf(),
        whole.proper(),
        old(app)@.line + text_rows(lines_area(whole)) <= usize::MAX,
        old(app)@.col < usize::MAX,
        old(app)@.mark is Some ==> old(app)@.index() <= usize::MAX,
    ensures
        final(app)@ == drawn(old(app)@, whole),
        r.title@ == " "@ + mode.name() + ": "@ + old(app)@.path + " "@,
        r.lines@.len() == text_rows(lines_area(whole)),
        forall|i: int|
            0 <= i < visible_lines(final(app)@, text_rows(lines_area(whole))) ==> #[trigger] r.lines@[i]@
                == highlighted_line(
                final(app)@,
                *syntax,
                final(app)@.scroll_y + i,
                text_columns(old(app)@, lines_area(whole)),
                number_width(old(app)@),
            ),
        forall|i: int|
            visible_lines(final(app)@, text_rows(lines_area(whole))) <= i < text_rows(lines_area(whole))
                ==> #[trigger] r.lines@[i]@ == filler(),
        r.status@ == status_line(final(app)@),
        r.cursor == cursor_place(final(app)@, lines_area(whole)),
        r.lines_area == lines_area(whole),
        r.status_area == status_area(whole),
{
    proof {
        law_inner_lies_within(whole);
        law_head_and_foot_fill(whole.inner());
    }
    app.last_drawn_height = whole.height;
    app.last_drawn_top = whole.y;
    let (area, below) = head_and_foot(inside_frame(whole));
    let head = concat3(" ", mode.title(), ": ");
    let title = concat3(head.as_str(), app.path.as_str(), " ");
    let count = app.line_count();
    let digits = char_count(decimal_of(count as u64).as_str());
    proof {
        lemma_decimal_len(count as nat);
    }
    let prefix_width: usize = digits + 2;
    let text_width: usize = if area.width as usize > prefix_width {
        area.width as usize - prefix_width
    } else {
        1
    };
    let text_height: usize = if area.height > 1 {
        area.height as usize
    } else {
        1
    };
    app.ensure_cursor_visible(text_height, text_width);
    let lines = render_lines(app, syntax, text_height, text_width, prefix_width);
    let dirty = if app.dirty {
        " *"
    } else {
        ""
    };
    let line_number = decimal_of((app.cursor_line + 1) as u64);
    let column_number = decimal_of((app.cursor_col + 1) as u64);
    let place = concat3(line_number.as_str(), ":", column_number.as_str());
    let place = concat3(place.as_str(), dirty, "  ");
    let mut spans: Vec<Span> = Vec::new();
    spans.push(Span::styled(place, Style::colored(Color::Cyan)));
    spans.push(Span::raw(app.display_status()));
    assert(span_views(spans@) =~= status_line(app@));
    let status = Line::of(spans);
    let mut cursor: Option<Place> = None;
    if app.cursor_line >= app.scroll_y && app.cursor_line - app.scroll_y < text_height {
        let y: u64 = area.y as u64 + (app.cursor_line - app.scroll_y) as u64;
        let x: u64 = area.x as u64 + prefix_width as u64 + (app.cursor_col - app.scroll_x) as u64;
        if x < area.x as u64 + area.width as u64 && y < area.y as u64 + area.height as u64 {
            cursor = Some(Place { x: x as u16, y: y as u16 });
        }
    }
    Picture { title, lines, lines_area: area, status, status_area: below, cursor }
}

/// A machine number has no more than twenty decimal digits.
proof fn lemma_decimal_len(n: nat)
    requires
        n <= u64::MAX,
    ensures
        1 <= decimal(n).len() <= 20,
{
    reveal_with_fuel(decimal, 21);
}

/// The rows that the pager leaves behind: the visible lines without numbers and
/// colours, filled up with empty rows.
pub open spec fn plain_rows(state: EditorState, height: int) -> Seq<Seq<SpanView>> {
    Seq::new(
        height as nat,
        |i: int|
            if i < visible_lines(state, height) {
                seq![raw(text_of(state.text, state.scroll_y + i))]
            } else {
                seq![raw(""@)]
            },
    )
}

/// Draws the page that the pager leaves behind.
pub fn draw_plain_view(app: &mut Editor, area: Area) -> (r: Vec<Line>)
    requires
        old(app)@.line + text_rows(area) <= usize::MAX,
    ensures
        final(app)@ == old(app)@.revealed(
            text_rows(area),
            (if area.width > 1 {
                area.width as int
            } else {
                1
            }),
        ),
        line_views(r@) == plain_rows(final(app)@, text_rows(area)),
{
    let width: usize = if area.width > 1 {
        area.width as usize
    } else {
        1
    };
    let height: usize = if area.height > 1 {
        area.height as usize
    } else {
        1
    };
    app.ensure_cursor_visible(height, width);
    let count = app.line_count();
    let mut lines: Vec<Line> = Vec::new();
    let mut i: usize = 0;
    let ghost rows = plain_rows(app@, height as int);
    while i < height
        invariant
            i <= height,
            height == text_rows(area),
            count == line_count(app@.text),
            app@.scroll_y + height <= usize::MAX,
            rows == plain_rows(app@, height as int),
            line_views(lines@) == rows.take(i as int),
        decreases height - i,
    {
        let ghost was = line_views(lines@);
        let idx: usize = app.scroll_y + i;
        let text = if idx < count {
            line_text(&app.buffer, idx)
        } else {
            "".to_string()
        };
        let row = Line::one(Span::raw(text));
        let ghost shown = row@;
        assert(shown == rows[i as int]);
        lines.push(row);
        assert(line_views(lines@) =~= was.push(shown));
        assert(rows.take(i + 1) =~= rows.take(i as int).push(rows[i as int]));
        i = i + 1;
    }
    assert(rows.take(i as int) =~= rows);
    lines
}

} // verus!
