//! What of the text is seen, and where.

use vstd::prelude::*;

#[allow(unused_imports)]
use crate::inline_text::buffer::{anchor_row, len_of, selected, start_of, text_of, Region};
#[allow(unused_imports)]
use crate::inline_text::model::EditorState;
#[allow(unused_imports)]
use crate::inline_text::render::{
    column_style, columns, cursor_place, drawn, lines_area, number_width, plain_rows, shown_line,
    status_line, styled_chars, token_style,
};
#[allow(unused_imports)]
use crate::inline_text::syntax::Piece;
#[allow(unused_imports)]
use crate::layout::Area;
#[allow(unused_imports)]
use crate::rope::line_count;
#[allow(unused_imports)]
use crate::style::{Color, Style};
#[allow(unused_imports)]
use crate::text::{decimal, pad_left};

verus! {

/// The cursor is seen among `height` lines and `width` columns. What is scrolled stays
/// where the cursor was seen already, and goes no further than it must.
pub proof fn law_cursor_is_seen(state: EditorState, height: int, width: int)
    requires
        0 <= state.line,
        0 <= state.col,
        0 <= state.scroll_y,
        0 <= state.scroll_x,
        0 < height,
        0 < width,
        state.scroll_y + height <= usize::MAX,
        state.scroll_x + width <= usize::MAX,
    ensures
        ({
            let after = state.revealed(height, width);
            &&& after == (EditorState {
                scroll_y: after.scroll_y,
                scroll_x: after.scroll_x,
                ..state
            })
            &&& after.scroll_y <= state.line < after.scroll_y + height
            &&& after.scroll_x <= state.col < after.scroll_x + width
            &&& state.scroll_y <= state.line < state.scroll_y + height ==> after.scroll_y
                == state.scroll_y
            &&& state.scroll_x <= state.col < state.scroll_x + width ==> after.scroll_x
                == state.scroll_x
            &&& state.line < state.scroll_y ==> after.scroll_y == state.line
            &&& state.line >= state.scroll_y + height ==> after.scroll_y == state.line - height + 1
            &&& state.col < state.scroll_x ==> after.scroll_x == state.col
            &&& state.col >= state.scroll_x + width ==> after.scroll_x == state.col - width + 1
        }),
{
}

/// The cursor on the screen stands as many rows below the first row, and as many columns
/// behind the line numbers, as it stands in the text below and behind what is seen first.
pub proof fn law_cursor_stands_on_the_screen(state: EditorState, whole: Area)
    requires
        whole.proper(),
        0 <= state.line,
        0 <= state.col,
        0 <= state.scroll_y,
        0 <= state.scroll_x,
        state.scroll_y + u16::MAX <= usize::MAX,
        state.scroll_x + u16::MAX <= usize::MAX,
        whole.height >= 4,
        whole.width >= 2 + number_width(state) + 1,
    ensures
        ({
            let after = drawn(state, whole);
            let area = lines_area(whole);
            &&& cursor_place(after, area) matches Some(place)
            &&& place.y == area.y + (state.line - after.scroll_y)
            &&& place.x == area.x + decimal(line_count(state.text) as nat).len() + 2 + (state.col
                - after.scroll_x)
            &&& whole.y < place.y < whole.y + whole.height - 2
            &&& whole.x < place.x < whole.x + whole.width - 1
        }),
{
}

/// A viewport that grows keeps its first row, and one that shrinks its last, as far as the
/// terminal reaches.
pub proof fn law_viewport_keeps_its_place(top: int, height: int, new_height: int, rows: int)
    requires
        0 <= top,
        0 <= new_height,
        0 <= height,
        0 < rows <= u16::MAX,
        top + height <= rows,
    ensures
        ({
            let to = anchor_row(top, height, new_height, rows);
            &&& 0 <= to < rows
            &&& new_height >= height && top < rows ==> to == top
            &&& 0 < new_height < height ==> to + new_height == top + height
        }),
{
}

/// The columns of a line that are shown as selected are just those whose characters lie in
/// the region.
pub proof fn law_selected_columns_lie_in_the_region(
    s: Seq<char>,
    line: int,
    from: int,
    to: int,
    col: int,
)
    requires
        0 <= line,
        0 <= col < len_of(s, line),
    ensures
        ({
            let at = start_of(s, line) + col;
            let shown = selected(s, line, from, to) matches Some((a, b)) && a <= col < b;
            shown == (from <= at < to)
        }),
{
}

/// A character that lies in the region has a background of its own, and one behind the
/// width that the subject of a commit message should keep to stands out in red; otherwise
/// a character looks as its token does.
pub proof fn law_columns_are_styled(
    style: Style,
    pos: int,
    region: Option<Region>,
    limit: Option<usize>,
)
    ensures
        ({
            let shown = column_style(style, pos, region, limit);
            let inside = region matches Some(region) && region.start <= pos < region.end;
            &&& inside ==> shown.bg == Some(Color::DarkGray)
            &&& !inside ==> shown.bg == style.bg
            &&& limit is None ==> shown.fg == style.fg && shown.bold == style.bold
            &&& limit matches Some(n) ==> {
                &&& pos < n ==> shown.fg == Some(Color::Cyan) && shown.bold == style.bold
                &&& pos >= n ==> shown.fg == Some(Color::Red) && shown.bold
            }
            &&& shown.italic == style.italic && shown.underlined == style.underlined
        }),
{
}

/// A line is shown behind its number, counted from one, and from the column on that is
/// seen first: character for character, as far as there is room.
pub proof fn law_lines_are_shown(
    state: EditorState,
    line: int,
    piece: Piece,
    width: int,
    prefix: int,
    i: int,
)
    requires
        0 <= line,
        0 <= state.scroll_x,
        0 < width,
        prefix >= 1,
        state.scroll_x + width <= usize::MAX,
        0 <= i < width,
        state.scroll_x + i < piece.text.len(),
    ensures
        ({
            let row = shown_line(state, line, seq![piece], width, prefix);
            &&& row[0].text == pad_left(decimal((line + 1) as nat), (prefix - 1) as nat) + " "@
            &&& row.len() == 1 + (if piece.text.len() - state.scroll_x < width {
                piece.text.len() - state.scroll_x
            } else {
                width
            })
            &&& row[1 + i].text == seq![piece.text[state.scroll_x + i]]
        }),
{
    let chars = styled_chars(seq![piece]);
    reveal_with_fuel(styled_chars, 2);
    assert(seq![piece].drop_last() =~= Seq::<Piece>::empty());
    assert(seq![piece].last() == piece);
    assert(chars =~= piece.text.map_values(|c: char| (c, token_style(piece))));
}

/// The status tells the line and the column of the cursor, counted from one, and whether
/// there is something to save.
pub proof fn law_status_tells_the_place(state: EditorState)
    requires
        0 <= state.line,
        0 <= state.col,
    ensures
        ({
            let row = status_line(state);
            &&& row.len() == 2
            &&& row[0].text == decimal((state.line + 1) as nat) + ":"@ + decimal(
                (state.col + 1) as nat,
            ) + (if state.dirty {
                " *"@
            } else {
                ""@
            }) + "  "@
            &&& state.warning() is None ==> row[1].text == state.status
            &&& state.warning() matches Some(text) ==> row[1].text == text
        }),
{
}

/// The page that the pager leaves behind has the lines that were seen, in order, and empty
/// rows behind the last line.
pub proof fn law_page_is_left(state: EditorState, height: int, i: int)
    requires
        0 <= i < height,
        0 <= state.scroll_y,
    ensures
        ({
            let rows = plain_rows(state, height);
            &&& rows.len() == height
            &&& rows[i].len() == 1
            &&& state.scroll_y + i < line_count(state.text) ==> rows[i][0].text == text_of(
                state.text,
                state.scroll_y + i,
            )
            &&& state.scroll_y + i >= line_count(state.text) ==> rows[i][0].text == ""@
        }),
{
}

} // verus!
