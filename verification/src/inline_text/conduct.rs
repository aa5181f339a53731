//! What the actions of the editor and the pager do, told by what stands where before
//! and behind them.

use vstd::prelude::*;

#[allow(unused_imports)]
use crate::config::{lookup, normal_key, Bound, KeyEvent, KeyPress, MatchView};
#[allow(unused_imports)]
use crate::config::laws::binds;
#[allow(unused_imports)]
use crate::inline_text::Mode;
#[allow(unused_imports)]
use crate::inline_text::buffer::{lemma_line_within, len_of, text_of};
#[allow(unused_imports)]
use crate::inline_text::editor::{opened_line, SearchDirection};
#[allow(unused_imports)]
use crate::inline_text::input::{pressed, reaction, Reaction, Screen};
#[allow(unused_imports)]
use crate::inline_text::keys::{inline_bindings, normal_actions, search_actions, view_actions};
#[allow(unused_imports)]
use crate::inline_text::laws::match_at;
#[allow(unused_imports)]
use crate::inline_text::model::{
    found, less, lesser, scan_forward, scan_reverse, skip_space_left, skip_space_right,
    skip_word_left, skip_word_right, EditorState, Search,
};
#[allow(unused_imports)]
use crate::inline_text::text_mode::TextMode;
#[allow(unused_imports)]
use crate::paths::file_name;
#[allow(unused_imports)]
use crate::rope::{line_count, line_start};
#[allow(unused_imports)]
use crate::text::{
    has_prefix, has_suffix, is_blank, is_space, join, lemma_find_from, lemma_rfind_to, stands_at,
};

verus! {

/// How the names of the actions differ.
pub proof fn lemma_names()
    ensures
        "quit"@.len() == 4 && "quit"@[0] == 'q',
        "quit_view"@.len() == 9 && "quit_view"@[0] == 'q',
        "save"@.len() == 4 && "save"@[0] == 's',
        "search_forward"@.len() == 14 && "search_forward"@[0] == 's' && "search_forward"@[7] == 'f',
        "search_reverse"@.len() == 14 && "search_reverse"@[0] == 's' && "search_reverse"@[7] == 'r',
        "cancel_search"@.len() == 13 && "cancel_search"@[0] == 'c',
        "finish_search"@.len() == 13 && "finish_search"@[0] == 'f',
        "cancel_mark"@.len() == 11 && "cancel_mark"@[0] == 'c' && "cancel_mark"@[1] == 'a',
        "set_mark"@.len() == 8 && "set_mark"@[0] == 's',
        "undo"@.len() == 4 && "undo"@[0] == 'u',
        "redo"@.len() == 4 && "redo"@[0] == 'r',
        "line_start"@.len() == 10 && "line_start"@[0] == 'l',
        "line_end"@.len() == 8 && "line_end"@[0] == 'l',
        "word_left"@.len() == 9 && "word_left"@[0] == 'w',
        "word_right"@.len() == 10 && "word_right"@[0] == 'w',
        "char_left"@.len() == 9 && "char_left"@[0] == 'c',
        "char_right"@.len() == 10 && "char_right"@[0] == 'c',
        "line_up"@.len() == 7 && "line_up"@[0] == 'l',
        "line_down"@.len() == 9 && "line_down"@[0] == 'l',
        "page_up"@.len() == 7 && "page_up"@[0] == 'p',
        "page_down"@.len() == 9 && "page_down"@[0] == 'p',
        "copy_region"@.len() == 11 && "copy_region"@[0] == 'c' && "copy_region"@[1] == 'o',
        "kill_region"@.len() == 11 && "kill_region"@[0] == 'k' && "kill_region"@[5] == 'r',
        "kill_to_eol"@.len() == 11 && "kill_to_eol"@[0] == 'k' && "kill_to_eol"@[5] == 't',
        "yank"@.len() == 4 && "yank"@[0] == 'y',
        "delete_char"@.len() == 11 && "delete_char"@[0] == 'd',
        "backspace"@.len() == 9 && "backspace"@[0] == 'b',
        "insert_newline"@.len() == 14 && "insert_newline"@[0] == 'i',
        "insert_tab"@.len() == 10 && "insert_tab"@[0] == 'i',
        "shrink_height"@.len() == 13 && "shrink_height"@[0] == 's',
        "grow_height"@.len() == 11 && "grow_height"@[0] == 'g',
        "fullscreen"@.len() == 10 && "fullscreen"@[0] == 'f',
        "restore_inline"@.len() == 14 && "restore_inline"@[0] == 'r',
        "fill_paragraph"@.len() == 14 && "fill_paragraph"@[0] == 'f',
{
    reveal_strlit("quit");
    reveal_strlit("quit_view");
    reveal_strlit("save");
    reveal_strlit("search_forward");
    reveal_strlit("search_reverse");
    reveal_strlit("cancel_search");
    reveal_strlit("finish_search");
    reveal_strlit("cancel_mark");
    reveal_strlit("set_mark");
    reveal_strlit("undo");
    reveal_strlit("redo");
    reveal_strlit("line_start");
    reveal_strlit("line_end");
    reveal_strlit("word_left");
    reveal_strlit("word_right");
    reveal_strlit("char_left");
    reveal_strlit("char_right");
    reveal_strlit("line_up");
    reveal_strlit("line_down");
    reveal_strlit("page_up");
    reveal_strlit("page_down");
    reveal_strlit("copy_region");
    reveal_strlit("kill_region");
    reveal_strlit("kill_to_eol");
    reveal_strlit("yank");
    reveal_strlit("delete_char");
    reveal_strlit("backspace");
    reveal_strlit("insert_newline");
    reveal_strlit("insert_tab");
    reveal_strlit("shrink_height");
    reveal_strlit("grow_height");
    reveal_strlit("fullscreen");
    reveal_strlit("restore_inline");
    reveal_strlit("fill_paragraph");
}

// ---------------------------------------------------------------------------
// Searching
// ---------------------------------------------------------------------------

/// A place comes at or behind another in the order of reading.
pub open spec fn at_or_behind(line: int, col: int, line0: int, col0: int) -> bool {
    line > line0 || (line == line0 && col >= col0)
}

proof fn lemma_first_below(
    s: Seq<char>,
    query: Seq<char>,
    line: int,
    end: int,
    first: int,
    col: int,
)
    requires
        0 <= line,
        end <= line_count(s),
        0 <= col,
        query.len() > 0,
    ensures
        match scan_forward(s, query, line, end, first, col) {
            Some((l, c)) => {
                &&& line <= l < end
                &&& match_at(s, query, l, c)
                &&& l == first ==> c >= col
                &&& forall|l2: int, c2: int|
                    #![trigger stands_at(text_of(s, l2), query, c2)]
                    line <= l2 < end && (l2 == first ==> c2 >= col) && stands_at(
                        text_of(s, l2),
                        query,
                        c2,
                    ) ==> at_or_behind(l2, c2, l, c)
            },
            None => forall|l2: int, c2: int|
                #![trigger stands_at(text_of(s, l2), query, c2)]
                line <= l2 < end && (l2 == first ==> c2 >= col) ==> !stands_at(
                    text_of(s, l2),
                    query,
                    c2,
                ),
        },
    decreases end - line,
{
    if line < end {
        let from = if line == first {
            col
        } else {
            0
        };
        lemma_find_from(text_of(s, line), query, from);
        lemma_first_below(s, query, line + 1, end, first, col);
    }
}

proof fn lemma_last_above(
    s: Seq<char>,
    query: Seq<char>,
    line: int,
    low: int,
    first: int,
    col: int,
)
    requires
        0 <= low,
        line < line_count(s),
        query.len() > 0,
    ensures
        match scan_reverse(s, query, line, low, first, col) {
            Some((l, c)) => {
                &&& low <= l <= line
                &&& match_at(s, query, l, c)
                &&& l == first ==> c + query.len() <= col
                &&& forall|l2: int, c2: int|
                    #![trigger stands_at(text_of(s, l2), query, c2)]
                    low <= l2 <= line && (l2 == first ==> c2 + query.len() <= col) && stands_at(
                        text_of(s, l2),
                        query,
                        c2,
                    ) ==> at_or_behind(l, c, l2, c2)
            },
            None => forall|l2: int, c2: int|
                #![trigger stands_at(text_of(s, l2), query, c2)]
                low <= l2 <= line && (l2 == first ==> c2 + query.len() <= col) ==> !stands_at(
                    text_of(s, l2),
                    query,
                    c2,
                ),
        },
    decreases line - low + 1,
{
    if low <= line {
        let to = if line == first {
            col
        } else {
            len_of(s, line)
        };
        let text = text_of(s, line);
        lemma_line_within(s, line);
        lemma_rfind_to(text, query, to - query.len());
        lemma_rfind_to(text, query, text.len() - query.len());
        lemma_last_above(s, query, line - 1, low, first, col);
    }
}

/// What a search forward from a place finds: the nearest match at or behind it; only
/// where there is none, the first match in the lines above; and nothing only where
/// neither is there.
pub open spec fn finds_next(
    s: Seq<char>,
    query: Seq<char>,
    line: int,
    col: int,
    at: Option<(int, int)>,
) -> bool {
    match at {
        Some((l, c)) => {
            &&& match_at(s, query, l, c)
            &&& at_or_behind(l, c, line, col) || l < line
            &&& forall|l2: int, c2: int| #[trigger]
                match_at(s, query, l2, c2) && at_or_behind(l2, c2, line, col) ==> at_or_behind(
                    l,
                    c,
                    line,
                    col,
                ) && at_or_behind(l2, c2, l, c)
            &&& forall|l2: int, c2: int| #[trigger]
                match_at(s, query, l2, c2) && l < line && l2 < line ==> at_or_behind(l2, c2, l, c)
        },
        None => forall|l2: int, c2: int| #[trigger]
            match_at(s, query, l2, c2) ==> l2 == line && c2 < col,
    }
}

/// What a search in reverse from a place finds: the nearest match that ends at or
/// before it; only where there is none, the last match in the lines below; and nothing
/// only where neither is there.
pub open spec fn finds_previous(
    s: Seq<char>,
    query: Seq<char>,
    line: int,
    col: int,
    at: Option<(int, int)>,
) -> bool {
    match at {
        Some((l, c)) => {
            &&& match_at(s, query, l, c)
            &&& at_or_behind(line, col, l, c + query.len()) || l > line
            &&& forall|l2: int, c2: int| #[trigger]
                match_at(s, query, l2, c2) && at_or_behind(line, col, l2, c2 + query.len())
                    ==> at_or_behind(line, col, l, c + query.len()) && at_or_behind(l, c, l2, c2)
            &&& forall|l2: int, c2: int| #[trigger]
                match_at(s, query, l2, c2) && l > line && l2 > line ==> at_or_behind(l, c, l2, c2)
        },
        None => forall|l2: int, c2: int| #[trigger]
            match_at(s, query, l2, c2) ==> l2 == line && c2 + query.len() > col,
    }
}

/// A search finds the nearest match in its direction, and goes round only where there
/// is none up to the end of the text.
pub proof fn law_search_finds_the_nearest(s: Seq<char>, query: Seq<char>, line: int, col: int)
    requires
        query.len() > 0,
        0 <= line < line_count(s),
        0 <= col,
    ensures
        finds_next(s, query, line, col, found(s, SearchDirection::Forward, query, line, col)),
        finds_previous(s, query, line, col, found(s, SearchDirection::Reverse, query, line, col)),
{
    lemma_first_below(s, query, line, line_count(s), line, col);
    lemma_first_below(s, query, 0, line, -1, 0);
    lemma_last_above(s, query, line, 0, line, col);
    lemma_last_above(s, query, line_count(s) - 1, line + 1, -1, 0);
}

/// A search begins at the cursor, with nothing sought yet, and moves nothing.
pub proof fn law_search_begins(state: EditorState, screen: Option<Screen>, mode: Mode)
    requires
        state.search is None,
    ensures
        ({
            let r = reaction(state, screen, mode, "search_forward"@);
            &&& r matches Some(r)
            &&& r.outcome is None
            &&& r.state.search == Some(
                Search {
                    query: Seq::<char>::empty(),
                    direction: SearchDirection::Forward,
                    line: state.line,
                    col: state.col,
                },
            )
            &&& r.state.line == state.line && r.state.col == state.col
            &&& r.state.text == state.text && r.state.undo == state.undo
            &&& r.state.status == "I-search"@ + ": "@
        }),
        ({
            let r = reaction(state, screen, mode, "search_reverse"@);
            &&& r matches Some(r)
            &&& r.outcome is None
            &&& r.state.search == Some(
                Search {
                    query: Seq::<char>::empty(),
                    direction: SearchDirection::Reverse,
                    line: state.line,
                    col: state.col,
                },
            )
            &&& r.state.line == state.line && r.state.col == state.col
            &&& r.state.text == state.text && r.state.undo == state.undo
            &&& r.state.status == "I-search backward"@ + ": "@
        }),
{
    lemma_names();
    assert("I-search"@ + ": "@ + Seq::<char>::empty() =~= "I-search"@ + ": "@);
    assert("I-search backward"@ + ": "@ + Seq::<char>::empty() =~= "I-search backward"@ + ": "@);
}

/// The cursor stands at what a search found, or where it stood before where it found
/// nothing.
pub open spec fn stands_found(
    before: EditorState,
    after: EditorState,
    query: Seq<char>,
    forward: bool,
    line: int,
    col: int,
) -> bool {
    let at = Some((after.line, after.col));
    let nothing: Option<(int, int)> = None;
    let stayed = after.line == before.line && after.col == before.col;
    if forward {
        finds_next(before.text, query, line, col, at) || (stayed && finds_next(
            before.text,
            query,
            line,
            col,
            nothing,
        ))
    } else {
        finds_previous(before.text, query, line, col, at) || (stayed && finds_previous(
            before.text,
            query,
            line,
            col,
            nothing,
        ))
    }
}

/// A character typed into a search goes behind what is sought, and the cursor goes to
/// the nearest match from where the search began.
pub proof fn law_typing_seeks(state: EditorState, ch: char)
    requires
        state.search matches Some(search) && 0 <= search.line < line_count(state.text) && 0
            <= search.col,
    ensures
        ({
            let search = state.search->0;
            let query = search.query.push(ch);
            let after = state.search_typed(ch);
            let forward = search.direction is Forward;
            &&& after.search == Some(
                Search { query, direction: search.direction, line: search.line, col: search.col },
            )
            &&& after.text == state.text && after.undo == state.undo && after.dirty == state.dirty
            &&& after.status == (if forward {
                "I-search"@
            } else {
                "I-search backward"@
            }) + ": "@ + query
            &&& stands_found(state, after, query, forward, search.line, search.col)
        }),
{
    let search = state.search->0;
    law_search_finds_the_nearest(state.text, search.query.push(ch), search.line, search.col);
}

/// A search that goes on forward takes the cursor to the nearest match behind the one
/// that it stands at, and in reverse to the nearest that ends before the cursor.
pub proof fn law_search_goes_on(state: EditorState, screen: Option<Screen>, mode: Mode)
    requires
        state.search matches Some(search) && search.query.len() > 0,
        0 <= state.line < line_count(state.text),
        state.line < usize::MAX,
        0 <= state.col < usize::MAX,
    ensures
        ({
            let search = state.search->0;
            let r = reaction(state, screen, mode, "search_forward"@);
            &&& r matches Some(r)
            &&& r.outcome is None
            &&& r.state.search == Some(Search { direction: SearchDirection::Forward, ..search })
            &&& r.state.text == state.text && r.state.undo == state.undo
            &&& stands_found(state, r.state, search.query, true, state.line, state.col + 1)
        }),
        ({
            let search = state.search->0;
            let r = reaction(state, screen, mode, "search_reverse"@);
            &&& r matches Some(r)
            &&& r.outcome is None
            &&& r.state.search == Some(Search { direction: SearchDirection::Reverse, ..search })
            &&& r.state.text == state.text && r.state.undo == state.undo
            &&& stands_found(state, r.state, search.query, false, state.line, state.col)
        }),
{
    lemma_names();
    let search = state.search->0;
    law_search_finds_the_nearest(state.text, search.query, state.line, state.col + 1);
    law_search_finds_the_nearest(state.text, search.query, state.line, state.col);
}

/// A backspace takes off the last character that is sought, and the cursor goes to the
/// nearest match of the rest from where the search began, or back there where nothing
/// is left. A search that is given up goes back to where it began, and one that is
/// finished stays.
pub proof fn law_search_ends(state: EditorState, screen: Option<Screen>, mode: Mode)
    requires
        state.search matches Some(search) && 0 <= search.line < line_count(state.text)
            && search.line < usize::MAX && 0 <= search.col,
    ensures
        ({
            let search = state.search->0;
            let r = reaction(state, screen, mode, "backspace"@);
            let query = if search.query.len() > 0 {
                search.query.take(search.query.len() - 1)
            } else {
                search.query
            };
            &&& r matches Some(r)
            &&& r.outcome is None
            &&& r.state.text == state.text && r.state.undo == state.undo
            &&& r.state.search == Some(Search { query, ..search })
            &&& query.len() == 0 ==> r.state.line == search.line && r.state.col == search.col
            &&& query.len() > 0 ==> stands_found(
                state,
                r.state,
                query,
                search.direction is Forward,
                search.line,
                search.col,
            )
        }),
        ({
            let r = reaction(state, screen, mode, "cancel_search"@);
            &&& r matches Some(r)
            &&& r.outcome is None
            &&& r.state == (EditorState {
                search: None,
                line: state.search->0.line,
                col: state.search->0.col,
                status: "search cancelled"@,
                ..state
            })
        }),
        ({
            let r = reaction(state, screen, mode, "finish_search"@);
            &&& r matches Some(r)
            &&& r.outcome is None
            &&& r.state == (EditorState { search: None, status: "search done"@, ..state })
        }),
{
    lemma_names();
    let search = state.search->0;
    if search.query.len() > 0 {
        let query = search.query.take(search.query.len() - 1);
        assert(search.query.drop_last() =~= query);
        if query.len() > 0 {
            law_search_finds_the_nearest(state.text, query, search.line, search.col);
        }
    }
}

// ---------------------------------------------------------------------------
// Moving
// ---------------------------------------------------------------------------

/// An editor in which only the cursor has moved.
pub open spec fn only_moved(before: EditorState, r: Option<Reaction>) -> bool {
    &&& r matches Some(r)
    &&& r.outcome is None
    &&& r.state == (EditorState { line: r.state.line, col: r.state.col, ..before })
}

/// A page is three rows less than the height, and at least one line. A page down moves
/// the cursor by just that many lines, where there are so many, and to the last line
/// otherwise; a page up as many lines up, and a page up behind a page down comes back.
pub proof fn law_pages_turn(state: EditorState, screen: Option<Screen>, mode: Mode)
    requires
        state.on_line(),
        state.line + 0x1_0000 <= usize::MAX,
    ensures
        ({
            let n = if state.height >= 4 {
                state.height - 3
            } else {
                1
            };
            let last = line_count(state.text) - 1;
            let down = reaction(state, screen, mode, "page_down"@);
            let up = reaction(state, screen, mode, "page_up"@);
            &&& only_moved(state, down)
            &&& only_moved(state, up)
            &&& state.line + n <= last ==> {
                let back = reaction(down->0.state, screen, mode, "page_up"@);
                &&& down->0.state.line == state.line + n
                &&& only_moved(state, back)
                &&& back->0.state.line == state.line
            }
            &&& state.line + n > last ==> down->0.state.line == last
            &&& state.line >= n ==> up->0.state.line == state.line - n
            &&& state.line < n ==> up->0.state.line == 0
            &&& down->0.state.col == lesser(state.col, len_of(state.text, down->0.state.line))
            &&& up->0.state.col == lesser(state.col, len_of(state.text, up->0.state.line))
        }),
{
    lemma_names();
    lemma_line_within(state.text, state.line);
}

/// Up and down go one line, and keep the column as far as the line goes. At the first
/// and the last line they stay.
pub proof fn law_lines_are_stepped(state: EditorState, screen: Option<Screen>, mode: Mode)
    requires
        state.on_line(),
        state.line < usize::MAX,
    ensures
        ({
            let down = reaction(state, screen, mode, "line_down"@);
            let up = reaction(state, screen, mode, "line_up"@);
            &&& only_moved(state, down)
            &&& only_moved(state, up)
            &&& state.line + 1 < line_count(state.text) ==> down->0.state.line == state.line + 1
                && down->0.state.col == lesser(state.col, len_of(state.text, state.line + 1))
            &&& state.line + 1 == line_count(state.text) ==> down->0.state == state
            &&& state.line > 0 ==> up->0.state.line == state.line - 1 && up->0.state.col
                == lesser(state.col, len_of(state.text, state.line - 1))
            &&& state.line == 0 ==> up->0.state == state
        }),
{
    lemma_names();
}

/// Right goes one character on, and from the end of a line to the start of the next;
/// left goes back the same way. Left behind right comes back, and so does right behind
/// left. At the ends of the text they stay.
pub proof fn law_characters_are_stepped(state: EditorState, screen: Option<Screen>, mode: Mode)
    requires
        state.on_line(),
        state.line < usize::MAX,
    ensures
        ({
            let right = reaction(state, screen, mode, "char_right"@);
            let left = reaction(state, screen, mode, "char_left"@);
            &&& only_moved(state, right)
            &&& only_moved(state, left)
            &&& state.col < len_of(state.text, state.line) ==> right->0.state.line == state.line
                && right->0.state.col == state.col + 1
            &&& state.col == len_of(state.text, state.line) && state.line + 1 < line_count(
                state.text,
            ) ==> right->0.state.line == state.line + 1 && right->0.state.col == 0
            &&& state.col == len_of(state.text, state.line) && state.line + 1 == line_count(
                state.text,
            ) ==> right->0.state == state
            &&& right->0.state != state ==> state == reaction(
                right->0.state,
                screen,
                mode,
                "char_left"@,
            )->0.state
            &&& state.col > 0 ==> left->0.state.line == state.line && left->0.state.col == state.col
                - 1
            &&& state.col == 0 && state.line > 0 ==> left->0.state.line == state.line - 1
                && left->0.state.col == len_of(state.text, state.line - 1)
            &&& state.col == 0 && state.line == 0 ==> left->0.state == state
        }),
{
    lemma_names();
}

/// The start of a line is column zero, and its end the column behind its last
/// character.
pub proof fn law_line_has_start_and_end(state: EditorState, screen: Option<Screen>, mode: Mode)
    requires
        state.on_line(),
    ensures
        ({
            let start = reaction(state, screen, mode, "line_start"@);
            let end = reaction(state, screen, mode, "line_end"@);
            &&& only_moved(state, start) && only_moved(state, end)
            &&& start->0.state.line == state.line && start->0.state.col == 0
            &&& end->0.state.line == state.line && end->0.state.col == text_of(
                state.text,
                state.line,
            ).len()
        }),
{
    lemma_names();
    lemma_line_within(state.text, state.line);
}

proof fn lemma_skips_right(line: Seq<char>, col: int)
    requires
        0 <= col <= line.len(),
    ensures
        ({
            let r = skip_space_right(line, col);
            &&& col <= r <= line.len()
            &&& forall|i: int| col <= i < r ==> is_space(#[trigger] line[i])
            &&& r < line.len() ==> !is_space(line[r])
        }),
        ({
            let r = skip_word_right(line, col);
            &&& col <= r <= line.len()
            &&& forall|i: int| col <= i < r ==> !is_space(#[trigger] line[i])
            &&& r < line.len() ==> is_space(line[r])
        }),
    decreases line.len() - col,
{
    if col < line.len() {
        lemma_skips_right(line, col + 1);
    }
}

proof fn lemma_skips_left(line: Seq<char>, col: int)
    requires
        0 <= col <= line.len(),
    ensures
        ({
            let r = skip_space_left(line, col);
            &&& 0 <= r <= col
            &&& forall|i: int| r <= i < col ==> is_space(#[trigger] line[i])
            &&& r > 0 ==> !is_space(line[r - 1])
        }),
        ({
            let r = skip_word_left(line, col);
            &&& 0 <= r <= col
            &&& forall|i: int| r <= i < col ==> !is_space(#[trigger] line[i])
            &&& r > 0 ==> is_space(line[r - 1])
        }),
    decreases col,
{
    if col > 0 {
        lemma_skips_left(line, col - 1);
    }
}

/// A word to the right goes over the rest of the word and the white space behind it, to
/// where the next word begins or the line ends. A word to the left goes over white
/// space and then to where the word before begins; at the start of a line it goes to
/// the end of the line above.
pub proof fn law_words_are_stepped(state: EditorState, screen: Option<Screen>, mode: Mode)
    requires
        state.on_line(),
    ensures
        ({
            let line = text_of(state.text, state.line);
            let right = reaction(state, screen, mode, "word_right"@);
            let to = right->0.state.col;
            &&& only_moved(state, right)
            &&& right->0.state.line == state.line
            &&& state.col <= to <= line.len()
            &&& to < line.len() ==> !is_space(line[to]) && to > state.col && is_space(line[to - 1])
            &&& forall|i: int, j: int|
                state.col <= i < j < to && is_space(#[trigger] line[i]) ==> is_space(
                    #[trigger] line[j],
                )
        }),
        ({
            let line = text_of(state.text, state.line);
            let left = reaction(state, screen, mode, "word_left"@);
            let to = left->0.state.col;
            &&& only_moved(state, left)
            &&& state.col > 0 ==> {
                &&& left->0.state.line == state.line
                &&& 0 <= to < state.col
                &&& to > 0 ==> is_space(line[to - 1]) && !is_space(line[to])
                &&& forall|i: int, j: int|
                    to <= i < j < state.col && is_space(#[trigger] line[i]) ==> is_space(
                        #[trigger] line[j],
                    )
            }
            &&& state.col == 0 && state.line > 0 ==> left->0.state.line == state.line - 1 && to
                == len_of(state.text, state.line - 1)
        }),
{
    lemma_names();
    let line = text_of(state.text, state.line);
    lemma_line_within(state.text, state.line);
    lemma_skips_right(line, state.col);
    lemma_skips_right(line, skip_word_right(line, state.col));
    lemma_skips_left(line, state.col);
    lemma_skips_left(line, skip_space_left(line, state.col));
}

/// The keys that the editor and the pager have for their actions where the user asks for no
/// others.
pub proof fn law_keys_of_the_editor()
    ensures
        binds(inline_bindings(), "quit"@, seq!["ctrl-x ctrl-c"@]),
        binds(inline_bindings(), "save"@, seq!["ctrl-x ctrl-s"@]),
        binds(inline_bindings(), "search_forward"@, seq!["ctrl-s"@]),
        binds(inline_bindings(), "search_reverse"@, seq!["ctrl-r"@]),
        binds(inline_bindings(), "cancel_search"@, seq!["esc"@, "ctrl-g"@]),
        binds(inline_bindings(), "finish_search"@, seq!["enter"@]),
        binds(inline_bindings(), "cancel_mark"@, seq!["ctrl-g"@]),
        binds(inline_bindings(), "set_mark"@, seq!["ctrl-space"@, "null"@]),
        binds(inline_bindings(), "undo"@, seq!["ctrl-/"@, "ctrl-_"@, "ctrl-7"@]),
        binds(inline_bindings(), "redo"@, seq!["ctrl-?"@]),
        binds(inline_bindings(), "line_start"@, seq!["ctrl-a"@, "home"@]),
        binds(inline_bindings(), "line_end"@, seq!["ctrl-e"@, "end"@]),
        binds(inline_bindings(), "word_left"@, seq!["alt-b"@, "ctrl-left"@]),
        binds(inline_bindings(), "word_right"@, seq!["alt-f"@, "ctrl-right"@]),
        binds(inline_bindings(), "char_left"@, seq!["ctrl-b"@, "left"@]),
        binds(inline_bindings(), "char_right"@, seq!["ctrl-f"@, "right"@]),
        binds(inline_bindings(), "line_up"@, seq!["ctrl-p"@, "up"@]),
        binds(inline_bindings(), "line_down"@, seq!["ctrl-n"@, "down"@]),
        binds(inline_bindings(), "page_up"@, seq!["alt-v"@, "pageup"@]),
        binds(inline_bindings(), "page_down"@, seq!["ctrl-v"@, "pagedown"@]),
        binds(inline_bindings(), "copy_region"@, seq!["alt-w"@]),
        binds(inline_bindings(), "kill_region"@, seq!["ctrl-w"@]),
        binds(inline_bindings(), "kill_to_eol"@, seq!["ctrl-k"@]),
        binds(inline_bindings(), "yank"@, seq!["ctrl-y"@]),
        binds(inline_bindings(), "delete_char"@, seq!["ctrl-d"@, "delete"@]),
        binds(inline_bindings(), "backspace"@, seq!["backspace"@]),
        binds(inline_bindings(), "insert_newline"@, seq!["enter"@]),
        binds(inline_bindings(), "insert_tab"@, seq!["tab"@]),
        binds(inline_bindings(), "shrink_height"@, seq!["alt-up"@]),
        binds(inline_bindings(), "grow_height"@, seq!["alt-down"@]),
        binds(inline_bindings(), "fullscreen"@, seq!["ctrl-x 1"@]),
        binds(inline_bindings(), "restore_inline"@, seq!["ctrl-x 0"@]),
        binds(inline_bindings(), "fill_paragraph"@, seq!["alt-q"@]),
        binds(inline_bindings(), "quit_view"@, seq!["esc"@, "q"@]),
        inline_bindings().len() == 34,
{
    let rows = inline_bindings();
    assert(rows[0] == ("quit"@, seq!["ctrl-x ctrl-c"@]));
    assert(rows[1] == ("save"@, seq!["ctrl-x ctrl-s"@]));
    assert(rows[2] == ("search_forward"@, seq!["ctrl-s"@]));
    assert(rows[3] == ("search_reverse"@, seq!["ctrl-r"@]));
    assert(rows[4] == ("cancel_search"@, seq!["esc"@, "ctrl-g"@]));
    assert(rows[5] == ("finish_search"@, seq!["enter"@]));
    assert(rows[6] == ("cancel_mark"@, seq!["ctrl-g"@]));
    assert(rows[7] == ("set_mark"@, seq!["ctrl-space"@, "null"@]));
    assert(rows[8] == ("undo"@, seq!["ctrl-/"@, "ctrl-_"@, "ctrl-7"@]));
    assert(rows[9] == ("redo"@, seq!["ctrl-?"@]));
    assert(rows[10] == ("line_start"@, seq!["ctrl-a"@, "home"@]));
    assert(rows[11] == ("line_end"@, seq!["ctrl-e"@, "end"@]));
    assert(rows[12] == ("word_left"@, seq!["alt-b"@, "ctrl-left"@]));
    assert(rows[13] == ("word_right"@, seq!["alt-f"@, "ctrl-right"@]));
    assert(rows[14] == ("char_left"@, seq!["ctrl-b"@, "left"@]));
    assert(rows[15] == ("char_right"@, seq!["ctrl-f"@, "right"@]));
    assert(rows[16] == ("line_up"@, seq!["ctrl-p"@, "up"@]));
    assert(rows[17] == ("line_down"@, seq!["ctrl-n"@, "down"@]));
    assert(rows[18] == ("page_up"@, seq!["alt-v"@, "pageup"@]));
    assert(rows[19] == ("page_down"@, seq!["ctrl-v"@, "pagedown"@]));
    assert(rows[20] == ("copy_region"@, seq!["alt-w"@]));
    assert(rows[21] == ("kill_region"@, seq!["ctrl-w"@]));
    assert(rows[22] == ("kill_to_eol"@, seq!["ctrl-k"@]));
    assert(rows[23] == ("yank"@, seq!["ctrl-y"@]));
    assert(rows[24] == ("delete_char"@, seq!["ctrl-d"@, "delete"@]));
    assert(rows[25] == ("backspace"@, seq!["backspace"@]));
    assert(rows[26] == ("insert_newline"@, seq!["enter"@]));
    assert(rows[27] == ("insert_tab"@, seq!["tab"@]));
    assert(rows[28] == ("shrink_height"@, seq!["alt-up"@]));
    assert(rows[29] == ("grow_height"@, seq!["alt-down"@]));
    assert(rows[30] == ("fullscreen"@, seq!["ctrl-x 1"@]));
    assert(rows[31] == ("restore_inline"@, seq!["ctrl-x 0"@]));
    assert(rows[32] == ("fill_paragraph"@, seq!["alt-q"@]));
    assert(rows[33] == ("quit_view"@, seq!["esc"@, "q"@]));
}

// ---------------------------------------------------------------------------
// Keys
// ---------------------------------------------------------------------------

/// A key that goes on waiting changes nothing but what is awaited and the status; one that
/// leads nowhere behind others is told and gives them up. One that leads nowhere by itself
/// is typed where it is a character without a modifier, or with shift alone: into the search
/// where there is one, and else into the text that is edited.
pub proof fn law_keys_are_awaited(
    state: EditorState,
    screen: Option<Screen>,
    mode: Mode,
    bindings: Seq<Bound>,
    key: KeyEvent,
)
    ensures
        ({
            let r = pressed(state, screen, mode, bindings, key);
            let pending = state.pending.push(normal_key(key));
            let names = if state.search is Some {
                search_actions()
            } else if mode is View {
                view_actions()
            } else {
                normal_actions()
            };
            let types_char = key.code is Char && !key.modifiers.control && !key.modifiers.alt
                && !key.modifiers.super_key && !key.modifiers.hyper && !key.modifiers.meta;
            match lookup(bindings, names, pending) {
                MatchView::Prefix => {
                    &&& r matches Some(r)
                    &&& r.outcome is None
                    &&& r.state == (EditorState { pending, status: r.state.status, ..state })
                    &&& has_suffix(r.state.status, " ..."@)
                },
                MatchView::NoMatch => if state.pending.len() > 0 {
                    r == Some(
                        Reaction {
                            state: EditorState {
                                pending: Seq::empty(),
                                status: "unknown key sequence"@,
                                ..state
                            },
                            outcome: None,
                        },
                    )
                } else {
                    &&& !types_char || (state.search is None && mode is View) ==> r == Some(
                        Reaction { state, outcome: None },
                    )
                    &&& types_char && state.search is Some ==> (r matches Some(r) ==> r.state
                        == state.search_typed(key.code->Char_0) && r.outcome is None)
                    &&& types_char && state.search is None && mode is Edit ==> (r matches Some(r)
                        ==> r.state == state.typed(key.code->Char_0) && r.outcome is None)
                },
                MatchView::Action(action) => r == reaction(
                    EditorState { pending: Seq::empty(), ..state },
                    screen,
                    mode,
                    action,
                ),
            }
        }),
{
    let pending = state.pending.push(normal_key(key));
    let head = join(pending.map_values(|key: KeyPress| key.text()), " "@);
    let all = head + " ..."@;
    assert(all.skip(all.len() - " ..."@.len()) =~= " ..."@);
}

/// A text is opened at the line that is asked for, counted from one, or at the last where
/// there are not so many, and else at the first.
pub proof fn law_text_is_opened_at_line(text: Seq<char>, n: usize)
    requires
        n > 0,
    ensures
        n <= line_count(text) ==> opened_line(text, Some(n)) == n - 1,
        n > line_count(text) ==> opened_line(text, Some(n)) == line_count(text) - 1,
        opened_line(text, None) == 0,
{
}

/// A file is a commit message where Git names it so. Its subject should keep to fifty
/// columns and its body to seventy-two, and lines behind a hash sign are comments. Other
/// files are filled to the column that is configured.
pub proof fn law_commit_messages_are_known(dir: Seq<char>, mode: TextMode, fill_column: usize)
    requires
        mode.suits(dir, fill_column),
    ensures
        file_name(dir) == Some("COMMIT_EDITMSG"@) || file_name(dir) == Some("MERGE_MSG"@)
            || file_name(dir) == Some("SQUASH_MSG"@) || file_name(dir) == Some("TAG_EDITMSG"@)
            ==> {
            &&& mode is CommitMessage
            &&& mode.fill_column_at(0) == 50
            &&& forall|line: int| line > 0 ==> #[trigger] mode.fill_column_at(line) == 72
            &&& mode->comment_prefix@ == "#"@
        },
        file_name(dir) is None ==> mode is Plain && forall|line: int| #[trigger]
            mode.fill_column_at(line) == fill_column,
{
    let name = "COMMIT_EDITMSG"@;
    assert(name.skip(0) =~= name);
}

// ---------------------------------------------------------------------------
// Paragraphs
// ---------------------------------------------------------------------------

proof fn lemma_paragraph_reaches_up(state: EditorState, line: int)
    requires
        0 <= line,
    ensures
        ({
            let first = state.paragraph_start(line);
            &&& 0 <= first <= line
            &&& forall|l: int| first <= l < line ==> !#[trigger] state.bars_paragraph(l)
            &&& first > 0 ==> state.bars_paragraph(first - 1)
        }),
    decreases line,
{
    if line > 0 && !state.bars_paragraph(line - 1) {
        lemma_paragraph_reaches_up(state, line - 1);
    }
}

proof fn lemma_paragraph_reaches_down(state: EditorState, line: int)
    requires
        line <= line_count(state.text),
    ensures
        ({
            let end = state.paragraph_end(line);
            &&& line <= end <= line_count(state.text)
            &&& forall|l: int| line <= l < end ==> !#[trigger] state.bars_paragraph(l)
            &&& end < line_count(state.text) ==> state.bars_paragraph(end)
        }),
    decreases line_count(state.text) - line,
{
    if line < line_count(state.text) && !state.bars_paragraph(line) {
        lemma_paragraph_reaches_down(state, line + 1);
    }
}

/// A paragraph has all the lines around the cursor that are not blank, up to the next blank
/// line or the end of the text on either side. In a commit message the subject and the
/// comments end it too. A blank line is in none.
pub proof fn law_paragraph_is_around(state: EditorState, l: int)
    requires
        0 <= state.line < line_count(state.text),
    ensures
        state.text_mode is Plain ==> {
            &&& is_blank(text_of(state.text, state.line)) <==> state.paragraph(state.line) is None
            &&& state.paragraph(state.line) matches Some((first, end)) ==> {
                &&& 0 <= first <= state.line < end <= line_count(state.text)
                &&& first <= l < end ==> !is_blank(text_of(state.text, l))
                &&& first > 0 ==> is_blank(text_of(state.text, first - 1))
                &&& end < line_count(state.text) ==> is_blank(text_of(state.text, end))
            }
        },
        state.text_mode is CommitMessage ==> {
            &&& state.line == 0 ==> state.paragraph(state.line) is None
            &&& has_prefix(text_of(state.text, state.line), state.text_mode->comment_prefix@)
                ==> state.paragraph(state.line) is None
            &&& state.paragraph(state.line) matches Some((first, end)) ==> {
                &&& 0 < first <= state.line < end <= line_count(state.text)
                &&& first <= l < end ==> !is_blank(text_of(state.text, l)) && !has_prefix(
                    text_of(state.text, l),
                    state.text_mode->comment_prefix@,
                )
            }
        },
{
    lemma_paragraph_reaches_up(state, state.line);
    lemma_paragraph_reaches_down(state, state.line + 1);
    if let Some((first, end)) = state.paragraph(state.line) {
        assert(!state.bars_paragraph(first));
        if first <= l < end {
            assert(!state.bars_paragraph(l));
        }
    }
}

/// The actions that keys lead to: in the editor all of them but those of a search, in the pager
/// those that change nothing, and during a search those that belong to it and those that save,
/// leave or fill the screen.
pub proof fn law_actions_that_keys_lead_to()
    ensures
        normal_actions().contains("quit"@),
        normal_actions().contains("save"@),
        normal_actions().contains("search_forward"@),
        normal_actions().contains("search_reverse"@),
        normal_actions().contains("cancel_mark"@),
        normal_actions().contains("set_mark"@),
        normal_actions().contains("undo"@),
        normal_actions().contains("redo"@),
        normal_actions().contains("line_start"@),
        normal_actions().contains("line_end"@),
        normal_actions().contains("word_left"@),
        normal_actions().contains("word_right"@),
        normal_actions().contains("char_left"@),
        normal_actions().contains("char_right"@),
        normal_actions().contains("line_up"@),
        normal_actions().contains("line_down"@),
        normal_actions().contains("page_up"@),
        normal_actions().contains("page_down"@),
        normal_actions().contains("copy_region"@),
        normal_actions().contains("kill_region"@),
        normal_actions().contains("kill_to_eol"@),
        normal_actions().contains("yank"@),
        normal_actions().contains("delete_char"@),
        normal_actions().contains("backspace"@),
        normal_actions().contains("insert_newline"@),
        normal_actions().contains("insert_tab"@),
        normal_actions().contains("shrink_height"@),
        normal_actions().contains("grow_height"@),
        normal_actions().contains("fullscreen"@),
        normal_actions().contains("restore_inline"@),
        normal_actions().contains("fill_paragraph"@),
        normal_actions().len() == 31,
        view_actions().contains("quit"@),
        view_actions().contains("quit_view"@),
        view_actions().contains("search_forward"@),
        view_actions().contains("search_reverse"@),
        view_actions().contains("line_start"@),
        view_actions().contains("line_end"@),
        view_actions().contains("word_left"@),
        view_actions().contains("word_right"@),
        view_actions().contains("char_left"@),
        view_actions().contains("char_right"@),
        view_actions().contains("line_up"@),
        view_actions().contains("line_down"@),
        view_actions().contains("page_up"@),
        view_actions().contains("page_down"@),
        view_actions().contains("shrink_height"@),
        view_actions().contains("grow_height"@),
        view_actions().contains("fullscreen"@),
        view_actions().contains("restore_inline"@),
        view_actions().len() == 18,
        search_actions().contains("quit"@),
        search_actions().contains("save"@),
        search_actions().contains("fullscreen"@),
        search_actions().contains("restore_inline"@),
        search_actions().contains("search_forward"@),
        search_actions().contains("search_reverse"@),
        search_actions().contains("cancel_search"@),
        search_actions().contains("finish_search"@),
        search_actions().contains("backspace"@),
        search_actions().len() == 9,
{
    assert(normal_actions()[0] == "quit"@);
    assert(normal_actions()[1] == "save"@);
    assert(normal_actions()[2] == "search_forward"@);
    assert(normal_actions()[3] == "search_reverse"@);
    assert(normal_actions()[4] == "cancel_mark"@);
    assert(normal_actions()[5] == "set_mark"@);
    assert(normal_actions()[6] == "undo"@);
    assert(normal_actions()[7] == "redo"@);
    assert(normal_actions()[8] == "line_start"@);
    assert(normal_actions()[9] == "line_end"@);
    assert(normal_actions()[10] == "word_left"@);
    assert(normal_actions()[11] == "word_right"@);
    assert(normal_actions()[12] == "char_left"@);
    assert(normal_actions()[13] == "char_right"@);
    assert(normal_actions()[14] == "line_up"@);
    assert(normal_actions()[15] == "line_down"@);
    assert(normal_actions()[16] == "page_up"@);
    assert(normal_actions()[17] == "page_down"@);
    assert(normal_actions()[18] == "copy_region"@);
    assert(normal_actions()[19] == "kill_region"@);
    assert(normal_actions()[20] == "kill_to_eol"@);
    assert(normal_actions()[21] == "yank"@);
    assert(normal_actions()[22] == "delete_char"@);
    assert(normal_actions()[23] == "backspace"@);
    assert(normal_actions()[24] == "insert_newline"@);
    assert(normal_actions()[25] == "insert_tab"@);
    assert(normal_actions()[26] == "shrink_height"@);
    assert(normal_actions()[27] == "grow_height"@);
    assert(normal_actions()[28] == "fullscreen"@);
    assert(normal_actions()[29] == "restore_inline"@);
    assert(normal_actions()[30] == "fill_paragraph"@);
    assert(view_actions()[0] == "quit"@);
    assert(view_actions()[1] == "quit_view"@);
    assert(view_actions()[2] == "search_forward"@);
    assert(view_actions()[3] == "search_reverse"@);
    assert(view_actions()[4] == "line_start"@);
    assert(view_actions()[5] == "line_end"@);
    assert(view_actions()[6] == "word_left"@);
    assert(view_actions()[7] == "word_right"@);
    assert(view_actions()[8] == "char_left"@);
    assert(view_actions()[9] == "char_right"@);
    assert(view_actions()[10] == "line_up"@);
    assert(view_actions()[11] == "line_down"@);
    assert(view_actions()[12] == "page_up"@);
    assert(view_actions()[13] == "page_down"@);
    assert(view_actions()[14] == "shrink_height"@);
    assert(view_actions()[15] == "grow_height"@);
    assert(view_actions()[16] == "fullscreen"@);
    assert(view_actions()[17] == "restore_inline"@);
    assert(search_actions()[0] == "quit"@);
    assert(search_actions()[1] == "save"@);
    assert(search_actions()[2] == "fullscreen"@);
    assert(search_actions()[3] == "restore_inline"@);
    assert(search_actions()[4] == "search_forward"@);
    assert(search_actions()[5] == "search_reverse"@);
    assert(search_actions()[6] == "cancel_search"@);
    assert(search_actions()[7] == "finish_search"@);
    assert(search_actions()[8] == "backspace"@);
}

/// The tools have their names, and tell at first how to search and what else there is.
pub proof fn law_tools_have_names()
    ensures
        Mode::Edit.name() == "inmacs"@,
        Mode::View.name() == "inpage"@,
        Mode::Edit.first_status()
            == "Ctrl-S search  Ctrl-R reverse-search  Ctrl-X Ctrl-S save"@,
        Mode::View.first_status()
            == "Ctrl-S search  Ctrl-R reverse-search  Ctrl-X Ctrl-C quit"@,
{
}

} // verus!
