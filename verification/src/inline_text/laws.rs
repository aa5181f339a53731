//! What holds of the editor as a whole: its cursor stays in the text, and every
//! edit can be undone.

use vstd::prelude::*;

#[allow(unused_imports)]
use crate::inline_text::buffer::{
    clamp_line, common_indent, fill_width, filled, len_of, lemma_filled, lemma_line_within,
    start_of, text_of,
};
#[allow(unused_imports)]
use crate::config::{Bound, KeyEvent};
#[allow(unused_imports)]
use crate::inline_text::editor::SearchDirection;
#[allow(unused_imports)]
use crate::inline_text::input::{
    done, filling_screen, key_step, pressed, reaction, resizing, restoring, settled, types, KeyStep,
    Outcome, Reaction, Screen,
};
#[allow(unused_imports)]
use crate::inline_text::model::{
    behind, first_indent, found, less, lesser, line_texts, more, paragraph_words, refilled,
    removed, scan_forward, scan_reverse, skip_space_left, skip_space_right, skip_word_left,
    skip_word_right, space_before, words_behind, wrap_point, EditorState, Point, Search, Snapshot,
};
#[allow(unused_imports)]
use crate::inline_text::place::{
    behind_feed, feeds, is_at, is_break, lemma_behind_feed, lemma_line_unbroken,
    lemma_no_return_before, lemma_on_line, lemma_part, lemma_place, lemma_plain_pieces,
    lemma_same_feeds, lemma_spliced, lemma_stands, plain, spliced, stands, unbroken,
};
#[allow(unused_imports)]
use crate::inline_text::text_mode::TextMode;
#[allow(unused_imports)]
use crate::rope::{
    ends_line, lemma_after_break, lemma_breaks, lemma_line_order, lemma_line_start,
    lemma_line_start_grows, line_count, line_start,
};
#[allow(unused_imports)]
use crate::inline_text::Mode;
#[allow(unused_imports)]
use crate::text::{
    indent_of, is_space, join, lemma_find_from, lemma_rfind_to, lemma_trim_start, stands_at, words,
};

verus! {

// ---------------------------------------------------------------------------
// A sound editor
// ---------------------------------------------------------------------------

/// A mark that can be counted from.
pub open spec fn mark_counts(mark: Option<Point>) -> bool {
    mark matches Some(point) ==> point.line >= 0 && point.col >= 0
}

/// What undo can bring back to a sound editor.
pub open spec fn snapshots_sound(list: Seq<Snapshot>) -> bool {
    forall|i: int|
        0 <= i < list.len() ==> {
            &&& plain((#[trigger] list[i]).text)
            &&& list[i].line >= 0
            &&& list[i].col >= 0
            &&& mark_counts(list[i].mark)
        }
}

impl EditorState {
    /// Lines end with line feeds, and the cursor stands in a line.
    pub open spec fn placed(self) -> bool {
        &&& plain(self.text)
        &&& self.on_line()
        &&& mark_counts(self.mark)
    }

    /// All texts of the editor have lines that end with line feeds, and its cursor
    /// and the begin of its search stand in lines of the text.
    pub open spec fn sound(self) -> bool {
        &&& self.placed()
        &&& plain(self.kill)
        &&& self.search matches Some(search) ==> 0 <= search.line < line_count(self.text) && 0
            <= search.col <= len_of(self.text, search.line)
        &&& snapshots_sound(self.undo)
        &&& snapshots_sound(self.redo)
    }
}

/// The position of a cursor that stands in a line.
pub proof fn lemma_index(state: EditorState)
    requires
        state.placed(),
    ensures
        is_at(state.text, state.index(), state.line, state.col),
        state.index() == line_start(state.text, state.line) + state.col,
        behind_feed(state.text, state.index()) == line_start(state.text, state.line),
{
    lemma_on_line(state.text, state.line, state.col);
}

/// A cursor at a position stands in a line.
proof fn lemma_at(s: Seq<char>, i: int, line: int, col: int)
    requires
        plain(s),
        is_at(s, i, line, col),
    ensures
        0 <= line < line_count(s),
        0 <= col <= len_of(s, line),
        start_of(s, line) + col == i,
        line_start(s, line) == i - col,
{
    lemma_stands(s, i);
}

/// The cursor put at a position stands there.
pub proof fn lemma_at_index(state: EditorState, i: int)
    requires
        plain(state.text),
        stands(state.text, i),
    ensures
        is_at(state.text, i, state.at_index(i).line, state.at_index(i).col),
        state.at_index(i) == (EditorState {
            line: feeds(state.text, i),
            col: i - behind_feed(state.text, i),
            ..state
        }),
{
    lemma_stands(state.text, i);
}

/// A region lies between two positions of the text.
pub proof fn lemma_region(state: EditorState)
    requires
        state.placed(),
    ensures
        state.region() matches Some((from, to)) ==> {
            &&& 0 <= from < to <= state.text.len()
            &&& stands(state.text, from)
            &&& stands(state.text, to)
        },
{
    lemma_index(state);
    if let Some(point) = state.mark {
        lemma_line_within(state.text, point.line);
        let line = clamp_line(state.text, point.line);
        let col = lesser(point.col, len_of(state.text, point.line));
        lemma_on_line(state.text, line, col);
    }
}

/// A part cut out leaves the cursor where it was.
proof fn lemma_cut(state: EditorState, from: int, to: int)
    requires
        plain(state.text),
        mark_counts(state.mark),
        from <= to,
        stands(state.text, from),
        stands(state.text, to),
    ensures
        state.cut(from, to).placed(),
        state.cut(from, to).text == removed(state.text, from, to),
        state.cut(from, to).index() == from,
        state.cut(from, to) == (EditorState {
            text: state.cut(from, to).text,
            line: state.cut(from, to).line,
            col: state.cut(from, to).col,
            ..state
        }),
{
    let after = EditorState { text: removed(state.text, from, to), ..state };
    lemma_spliced(state.text, from, to, Seq::empty());
    assert(spliced(state.text, from, to, Seq::empty()) =~= after.text);
    assert(stands(Seq::<char>::empty(), 0));
    assert(stands(after.text, from + 0));
    lemma_at_index(after, from);
    lemma_at(after.text, from, after.at_index(from).line, after.at_index(from).col);
}

/// Without its region an editor stands as well.
pub proof fn lemma_region_deleted(state: EditorState)
    requires
        state.placed(),
    ensures
        state.region_deleted().placed(),
        state.region_deleted().kill == state.kill,
        state.region_deleted().undo == state.undo,
        state.region_deleted().redo == state.redo,
        state.region_deleted().text_mode == state.text_mode,
        state.region() matches Some((from, to)) ==> state.region_deleted().index() == from
            && state.region_deleted().text == removed(state.text, from, to),
        state.region() is None ==> state.region_deleted() == state,
{
    lemma_region(state);
    if let Some((from, to)) = state.region() {
        lemma_cut(state, from, to);
        let cut = state.cut(from, to);
        assert(cut.modified().index() == cut.index());
    }
}

/// A text put in at the cursor stands behind what was before it, and the cursor
/// goes behind it.
proof fn lemma_with_text(state: EditorState, new: Seq<char>, n: int)
    requires
        state.placed(),
        plain(new),
        0 <= n <= new.len(),
    ensures
        ({
            let after = state.with_text(new.take(n));
            let i = state.index();
            &&& after.text == spliced(state.text, i, i, new.take(n))
            &&& after.line == feeds(after.text, i + n)
            &&& after.col == i + n - behind_feed(after.text, i + n)
            &&& after.index() == i + n
            &&& 0 <= after.line < line_count(after.text)
            &&& 0 <= after.col
            &&& after == (EditorState {
                text: after.text,
                line: after.line,
                col: after.col,
                ..state
            })
        }),
    decreases n,
{
    let i = state.index();
    let s = state.text;
    let after = state.with_text(new.take(n));
    lemma_index(state);
    lemma_no_return(s, i);
    if n == 0 {
        assert(new.take(0) =~= Seq::empty());
        assert(spliced(s, i, i, new.take(0)) =~= s);
    } else {
        lemma_with_text(state, new, n - 1);
        let before = state.with_text(new.take(n - 1));
        assert(new.take(n).drop_last() =~= new.take(n - 1));
        let c = new[n - 1];
        assert(new.take(n).last() == c);
        assert(before.text.insert(i + n - 1, c) =~= spliced(s, i, i, new.take(n)));
        let t = after.text;
        assert(t == spliced(s, i, i, new.take(n)));
        assert forall|k: int| 0 <= k < i + n - 1 implies #[trigger] before.text[k] == t[k] by {}
        lemma_same_feeds(before.text, t, i + n - 1);
        assert(t[i + n - 1] == c);
        lemma_behind_feed(t, i + n);
        assert forall|k: int|
            0 <= k < behind_feed(t, i + n) && #[trigger] ends_line(t, k) implies t[k] == '\n' by {
            if t[k] != '\n' {
                assert(k + 1 < behind_feed(t, i + n));
                if k < i {
                    assert(t[k] == s[k]);
                    if k + 1 < i {
                        assert(t[k + 1] == s[k + 1]);
                    }
                    assert(ends_line(s, k));
                } else {
                    assert(t[k] == new[k - i]);
                    assert(t[k + 1] == new[k + 1 - i]);
                    assert(ends_line(new, k - i));
                }
            }
        }
        lemma_place(t, i + n);
    }
}

/// Before the cursor stands no carriage return.
proof fn lemma_no_return(s: Seq<char>, i: int)
    requires
        plain(s),
        stands(s, i),
    ensures
        i > 0 ==> s[i - 1] != '\r',
{
    if i > 0 {
        lemma_no_return_before(s, i);
    }
}

/// An editor with a text put in stands as well.
pub proof fn lemma_text_put_in(state: EditorState, new: Seq<char>)
    requires
        state.placed(),
        plain(new),
    ensures
        state.with_text(new).placed(),
        state.with_text(new).text == spliced(state.text, state.index(), state.index(), new),
        state.with_text(new).index() == state.index() + new.len(),
        state.with_text(new) == (EditorState {
            text: state.with_text(new).text,
            line: state.with_text(new).line,
            col: state.with_text(new).col,
            ..state
        }),
{
    let i = state.index();
    lemma_index(state);
    assert(new.take(new.len() as int) =~= new);
    lemma_with_text(state, new, new.len() as int);
    lemma_spliced(state.text, i, i, new);
    let after = state.with_text(new);
    assert(stands(new, new.len() as int));
    assert(stands(after.text, i + new.len()));
    lemma_at(after.text, i + new.len(), after.line, after.col);
}

/// An editor with a character put in stands as well.
pub proof fn lemma_with_char(state: EditorState, ch: char)
    requires
        state.placed(),
        !is_break(ch),
    ensures
        state.with_char(ch).placed(),
        state.with_char(ch).index() == state.index() + 1,
        state.with_char(ch).text[state.index()] == ch,
{
    lemma_index(state);
    lemma_plain_pieces(seq![ch]);
    lemma_text_put_in(state, seq![ch]);
    assert(seq![ch].drop_last() =~= Seq::empty());
    assert(seq![ch].last() == ch);
    assert(state.with_text(Seq::empty()) == state);
    assert(state.with_text(seq![ch]) == state.with_char(ch));
}

/// An editor with a line feed put in stands as well.
proof fn lemma_with_newline(state: EditorState)
    requires
        state.placed(),
    ensures
        state.with_newline().placed(),
{
    lemma_plain_pieces(seq!['\n']);
    lemma_text_put_in(state, seq!['\n']);
    assert(seq!['\n'].drop_last() =~= Seq::empty());
    assert(seq!['\n'].last() == '\n');
    assert(state.with_text(Seq::empty()) == state);
    assert(state.with_text(seq!['\n']) == state.with_newline());
}

/// A part taken out behind the cursor leaves the cursor where it is.
proof fn lemma_removed_at(state: EditorState, from: int, to: int, line: int, col: int)
    requires
        plain(state.text),
        from <= to,
        is_at(state.text, from, line, col),
        stands(state.text, to),
    ensures
        ({
            let after = EditorState { text: removed(state.text, from, to), line, col, ..state };
            plain(after.text) && after.on_line()
        }),
        is_at(removed(state.text, from, to), from, line, col),
{
    let t = removed(state.text, from, to);
    lemma_spliced(state.text, from, to, Seq::empty());
    assert(spliced(state.text, from, to, Seq::empty()) =~= t);
    assert(stands(Seq::<char>::empty(), 0));
    assert(stands(t, from + 0));
    lemma_same_feeds(state.text, t, from);
    lemma_at(t, from, line, col);
}

/// After deleting backward an editor stands as well.
proof fn lemma_backspaced(state: EditorState)
    requires
        state.placed(),
    ensures
        state.backspaced().placed(),
{
    lemma_index(state);
    lemma_region(state);
    let kept = state.recorded();
    lemma_region_deleted(kept);
    assert(kept.region() == state.region());
    if state.region() is Some {
    } else if state.col > 0 {
        let end = state.index();
        lemma_on_line(state.text, state.line, state.col - 1);
        lemma_removed_at(state, end - 1, end, state.line, state.col - 1);
    } else if state.line > 0 {
        let line = state.line - 1;
        let col = len_of(state.text, line);
        lemma_line_order(state.text, line);
        lemma_on_line(state.text, line, col);
        lemma_removed_at(
            state,
            start_of(state.text, line) + col,
            start_of(state.text, state.line),
            line,
            col,
        );
    }
}

/// The rest of a line lies between two positions of the text.
proof fn lemma_rest_of_line(state: EditorState)
    requires
        state.placed(),
    ensures
        state.rest_of_line() matches Some(end) ==> state.index() <= end && stands(state.text, end),
        state.line < usize::MAX ==> state.joins_forward(),
        state.col < len_of(state.text, state.line) ==> stands(state.text, state.index() + 1),
{
    lemma_index(state);
    let s = state.text;
    let line = state.line;
    lemma_line_order(s, line);
    lemma_on_line(s, line, len_of(s, line));
    if state.col < len_of(s, line) {
        lemma_on_line(s, line, state.col + 1);
    }
    if line + 1 < line_count(s) {
        lemma_line_order(s, line + 1);
        lemma_on_line(s, line + 1, 0);
    }
}

/// After deleting forward an editor stands as well.
proof fn lemma_deleted(state: EditorState)
    requires
        state.placed(),
    ensures
        state.deleted().placed(),
{
    lemma_index(state);
    lemma_region(state);
    let kept = state.recorded();
    lemma_region_deleted(kept);
    assert(kept.region() == state.region());
    lemma_rest_of_line(state);
    if state.region() is None {
        if let Some(end) = state.rest_of_line() {
            let end = if state.col < len_of(state.text, state.line) {
                state.index() + 1
            } else {
                end
            };
            lemma_removed_at(state, state.index(), end, state.line, state.col);
        }
    }
}

/// After killing the rest of a line an editor stands as well.
proof fn lemma_rest_killed(state: EditorState)
    requires
        state.placed(),
    ensures
        state.rest_killed().placed(),
        plain(state.rest_killed().kill),
{
    lemma_index(state);
    lemma_rest_of_line(state);
    if let Some(end) = state.rest_of_line() {
        lemma_removed_at(state, state.index(), end, state.line, state.col);
        lemma_part(state.text, state.index(), end);
    }
}

/// After killing the region an editor stands as well.
pub proof fn lemma_region_killed(state: EditorState)
    requires
        state.placed(),
    ensures
        state.region_killed().placed(),
        plain(state.kill) ==> plain(state.region_killed().kill),
        state.region() matches Some((from, to)) ==> {
            &&& state.region_killed().text == removed(state.text, from, to)
            &&& state.region_killed().kill == state.text.subrange(from, to)
            &&& plain(state.region_killed().kill)
            &&& state.region_killed().index() == from
        },
{
    lemma_region(state);
    if let Some((from, to)) = state.region() {
        lemma_cut(state.recorded(), from, to);
        lemma_part(state.text, from, to);
        let cut = state.recorded().cut(from, to);
        assert(state.region_killed().index() == cut.index());
    }
}

// ---------------------------------------------------------------------------
// Wrapping
// ---------------------------------------------------------------------------

/// Where a line is broken a space stands, behind its first word.
proof fn lemma_space_before(line: Seq<char>, col: int)
    ensures
        space_before(line, col) matches Some(at) ==> 0 < at <= col && indent_of(line) < at
            && line[at] == ' ',
    decreases col,
{
    if col > 0 && col > indent_of(line) && line[col] != ' ' {
        lemma_space_before(line, col - 1);
    }
}

/// After wrapping, an editor with its cursor behind a space stands as well.
pub proof fn lemma_auto_wrapped(state: EditorState)
    requires
        state.placed(),
        state.index() > 0,
        state.text[state.index() - 1] == ' ',
    ensures
        state.auto_wrapped(state.index()).placed(),
        ({
            let line = text_of(state.text, state.line);
            let start = start_of(state.text, state.line);
            let after = state.auto_wrapped(state.index());
            state.is_body(state.line) ==> match wrap_point(
                line,
                state.text_mode->body_column as int,
            ) {
                Some(col) => after.index() == state.index() + if state.index() > start + col {
                    indent_of(line)
                } else {
                    0
                },
                None => after == state,
            }
        }),
{
    let s = state.text;
    let cursor = state.index();
    lemma_index(state);
    if let TextMode::CommitMessage { body_column, .. } = state.text_mode {
        let line = text_of(s, state.line);
        if let Some(col) = wrap_point(line, body_column as int) {
            lemma_line_within(s, state.line);
            crate::text::lemma_trim_end(line);
            lemma_space_before(line, body_column as int);
            let start = start_of(s, state.line);
            let at = start + col;
            let indent = line.take(indent_of(line));
            lemma_trim_start(line);
            lemma_line_unbroken(s, state.line);
            lemma_on_line(s, state.line, col);
            lemma_on_line(s, state.line, col + 1);
            reveal_strlit("\n");
            let new = "\n"@ + indent;
            assert forall|k: int| 0 <= k < new.len() implies #[trigger] new[k] == '\n' || !is_break(
                new[k],
            ) by {
                if k > 0 {
                    assert(new[k] == line[k - 1]);
                }
            }
            lemma_plain_pieces(new);
            lemma_spliced(s, at, at + 1, new);
            let t = removed(s, at, at + 1).take(at) + new + removed(s, at, at + 1).skip(at);
            assert(t =~= spliced(s, at, at + 1, new));
            let after = EditorState { text: t, ..state };
            if cursor > at {
                let to = cursor + indent.len();
                if cursor == at + 1 {
                    assert(stands(new, new.len() as int));
                    assert(stands(t, at + new.len()));
                } else {
                    assert(t[to - 1] == s[cursor - 1]);
                }
                assert(stands(t, to));
                lemma_at_index(after, to);
                lemma_at(t, to, after.at_index(to).line, after.at_index(to).col);
            } else {
                assert(t[cursor - 1] == s[cursor - 1]);
                lemma_same_feeds(s, t, cursor);
                lemma_at(t, cursor, state.line, state.col);
            }
        }
    }
}

// ---------------------------------------------------------------------------
// Filling
// ---------------------------------------------------------------------------

/// Each of some texts is unbroken.
pub open spec fn all_unbroken(list: Seq<Seq<char>>) -> bool {
    forall|i: int| 0 <= i < list.len() ==> unbroken(#[trigger] list[i])
}

/// Words hold no white space.
pub proof fn lemma_words_solid(s: Seq<char>)
    ensures
        forall|i: int, j: int|
            0 <= i < words(s).len() && 0 <= j < words(s)[i].len() ==> !is_space(
                #[trigger] words(s)[i][j],
            ),
    decreases s.len(),
{
    if s.len() > 0 {
        let before = s.drop_last();
        lemma_words_solid(before);
        assert forall|i: int, j: int|
            0 <= i < words(s).len() && 0 <= j < words(s)[i].len() implies !is_space(
            #[trigger] words(s)[i][j],
        ) by {
            if is_space(s.last()) {
            } else if i < words(s).len() - 1 {
                assert(words(s)[i] == words(before)[i]);
            } else if s.len() >= 2 && !is_space(s[s.len() - 2]) {
                crate::text::lemma_words_open(before);
                if j < words(s)[i].len() - 1 {
                    assert(words(s)[i][j] == words(before)[i][j]);
                }
            }
        }
    }
}

proof fn lemma_words_unbroken(s: Seq<char>)
    ensures
        all_unbroken(words(s)),
{
    lemma_words_solid(s);
    assert forall|i: int| 0 <= i < words(s).len() implies unbroken(#[trigger] words(s)[i]) by {
        assert forall|j: int| 0 <= j < words(s)[i].len() implies !is_break(
            #[trigger] words(s)[i][j],
        ) by {
            assert(!is_space(words(s)[i][j]));
        }
    }
}

proof fn lemma_words_behind_unbroken(lines: Seq<Seq<char>>, indent: int)
    ensures
        all_unbroken(words_behind(lines, indent)),
    decreases lines.len(),
{
    if lines.len() > 0 {
        lemma_words_behind_unbroken(lines.drop_last(), indent);
        lemma_words_unbroken(behind(lines.last(), indent));
        let before = words_behind(lines.drop_last(), indent);
        let new = words(behind(lines.last(), indent));
        assert forall|i: int| 0 <= i < (before + new).len() implies unbroken(
            #[trigger] (before + new)[i],
        ) by {
            if i >= before.len() {
                assert((before + new)[i] == new[i - before.len()]);
            }
        }
    }
}

pub proof fn lemma_first_indent_unbroken(lines: Seq<Seq<char>>, n: int)
    requires
        all_unbroken(lines),
        0 <= n,
    ensures
        unbroken(first_indent(lines, n)),
    decreases lines.len(),
{
    if lines.len() > 0 {
        assert(unbroken(lines[0]));
        let rest = lines.drop_first();
        assert forall|i: int| 0 <= i < rest.len() implies unbroken(#[trigger] rest[i]) by {
            assert(rest[i] == lines[i + 1]);
        }
        lemma_first_indent_unbroken(rest, n);
    }
}

proof fn lemma_filled_unbroken(list: Seq<Seq<char>>, indent: Seq<char>, width: int)
    requires
        all_unbroken(list),
        unbroken(indent),
    ensures
        all_unbroken(filled(list, indent, width)),
    decreases list.len(),
{
    if list.len() > 0 {
        let rest = list.drop_last();
        assert forall|i: int| 0 <= i < rest.len() implies unbroken(#[trigger] rest[i]) by {
            assert(rest[i] == list[i]);
        }
        lemma_filled_unbroken(rest, indent, width);
        lemma_filled(rest, indent, width);
        let before = filled(rest, indent, width);
        let line = before.last();
        let word = list.last();
        assert(unbroken(before[before.len() - 1]));
        assert(unbroken(list[list.len() - 1]));
        assert(unbroken(line + word));
        assert(unbroken(indent + word));
        assert(unbroken(line + seq![' '] + word));
    }
}

pub proof fn lemma_join_pieces(list: Seq<Seq<char>>)
    requires
        all_unbroken(list),
    ensures
        forall|k: int|
            0 <= k < join(list, "\n"@).len() ==> #[trigger] join(list, "\n"@)[k] == '\n'
                || !is_break(join(list, "\n"@)[k]),
    decreases list.len(),
{
    reveal_strlit("\n");
    if list.len() == 1 {
        assert(unbroken(list[0]));
    } else if list.len() > 1 {
        let rest = list.drop_last();
        assert forall|i: int| 0 <= i < rest.len() implies unbroken(#[trigger] rest[i]) by {
            assert(rest[i] == list[i]);
        }
        lemma_join_pieces(rest);
        assert(unbroken(list[list.len() - 1]));
        let all = join(list, "\n"@);
        let before = join(rest, "\n"@);
        assert forall|k: int| 0 <= k < all.len() implies #[trigger] all[k] == '\n' || !is_break(
            all[k],
        ) by {
            if k < before.len() {
                assert(all[k] == before[k]);
            } else if k > before.len() {
                assert(all[k] == list.last()[k - before.len() - 1]);
            }
        }
    }
}

/// The indent that lines have in common is a number of characters.
proof fn lemma_common_indent(lines: Seq<Seq<char>>)
    ensures
        common_indent(lines) >= 0,
        crate::inline_text::buffer::least_indent(lines) matches Some(n) ==> n >= 0,
    decreases lines.len(),
{
    if lines.len() > 0 {
        lemma_common_indent(lines.drop_last());
        lemma_trim_start(lines.last());
    }
}

/// Lines of a plain text are unbroken.
pub proof fn lemma_line_texts(s: Seq<char>, from: int, to: int)
    requires
        plain(s),
        0 <= from <= to <= line_count(s),
    ensures
        all_unbroken(line_texts(s, from, to)),
    decreases to - from,
{
    if from < to {
        lemma_line_texts(s, from, to - 1);
        lemma_line_unbroken(s, to - 1);
    }
}

/// The lines of a paragraph are lines of the text.
pub proof fn lemma_paragraph_start(state: EditorState, line: int)
    requires
        0 <= line,
    ensures
        0 <= state.paragraph_start(line) <= line,
    decreases line,
{
    if line > 0 && !state.bars_paragraph(line - 1) {
        lemma_paragraph_start(state, line - 1);
    }
}

/// The lines of a paragraph are lines of the text.
pub proof fn lemma_paragraph_end(state: EditorState, line: int)
    requires
        line <= line_count(state.text),
    ensures
        line <= state.paragraph_end(line) <= line_count(state.text),
    decreases line_count(state.text) - line,
{
    if line < line_count(state.text) && !state.bars_paragraph(line) {
        lemma_paragraph_end(state, line + 1);
    }
}

/// After filling, an editor stands as well.
pub proof fn lemma_state_filled(state: EditorState)
    requires
        state.placed(),
    ensures
        state.filled().placed(),
        state.filled().text != state.text ==> {
            let (first, end) = state.paragraph(state.line)->0;
            let from = start_of(state.text, first);
            let new = refilled(line_texts(state.text, first, end), state.fill_column());
            state.filled().index() == from + lesser(less(state.index(), from), new.len() as int)
        },
{
    lemma_index(state);
    let s = state.text;
    if let Some((first, end)) = state.paragraph(state.line) {
        lemma_paragraph_start(state, state.line);
        lemma_paragraph_end(state, state.line + 1);
        let lines = line_texts(s, first, end);
        let from = start_of(s, first);
        let to = start_of(s, end - 1) + len_of(s, end - 1);
        let new = refilled(lines, state.fill_column());
        lemma_line_texts(s, first, end);
        lemma_common_indent(lines);
        lemma_words_behind_unbroken(lines, common_indent(lines));
        lemma_first_indent_unbroken(lines, common_indent(lines));
        let indent = first_indent(lines, common_indent(lines));
        lemma_filled_unbroken(
            paragraph_words(lines),
            indent,
            fill_width(indent, state.fill_column()),
        );
        lemma_join_pieces(
            filled(paragraph_words(lines), indent, fill_width(indent, state.fill_column())),
        );
        lemma_plain_pieces(new);
        lemma_line_order(s, first);
        lemma_line_order(s, end - 1);
        lemma_line_start_grows(s, first, end - 1);
        lemma_on_line(s, first, 0);
        lemma_on_line(s, end - 1, len_of(s, end - 1));
        lemma_spliced(s, from, to, new);
        let text = removed(s, from, to);
        let t = text.take(from) + new + text.skip(from);
        assert(t =~= spliced(s, from, to, new));
        let after = EditorState { text: t, ..state.recorded() };
        let k = lesser(less(state.index(), from), new.len() as int);
        assert(stands(new, k));
        assert(stands(t, from + k));
        lemma_at_index(after, from + k);
        lemma_at(t, from + k, after.at_index(from + k).line, after.at_index(from + k).col);
    }
}

// ---------------------------------------------------------------------------
// Edits
// ---------------------------------------------------------------------------

/// An edit of the text.
pub enum Edit {
    Type(char),
    Newline,
    Backspace,
    Delete,
    KillRest,
    KillRegion,
    Yank,
    Fill,
}

impl EditorState {
    /// The editor after an edit.
    pub open spec fn after(self, edit: Edit) -> EditorState {
        match edit {
            Edit::Type(ch) => self.typed(ch),
            Edit::Newline => self.newlined(),
            Edit::Backspace => self.backspaced(),
            Edit::Delete => self.deleted(),
            Edit::KillRest => self.rest_killed(),
            Edit::KillRegion => self.region_killed(),
            Edit::Yank => self.yanked(),
            Edit::Fill => self.filled(),
        }
    }
}

/// A character that can be typed without breaking a line.
pub open spec fn tame(edit: Edit) -> bool {
    edit matches Edit::Type(ch) ==> !is_break(ch)
}

/// Remembering a sound editor keeps what undo can bring back sound.
proof fn lemma_recorded(state: EditorState)
    requires
        state.sound(),
    ensures
        state.recorded().sound(),
{
    let list = state.recorded().undo;
    assert forall|i: int| 0 <= i < list.len() implies {
        &&& plain((#[trigger] list[i]).text)
        &&& list[i].line >= 0
        &&& list[i].col >= 0
        &&& mark_counts(list[i].mark)
    } by {
        if i < state.undo.len() {
            assert(list[i] == state.undo[i]);
        }
    }
}

/// After typing, an editor stands as well.
proof fn lemma_typed(state: EditorState, ch: char)
    requires
        state.placed(),
        !is_break(ch),
    ensures
        state.typed(ch).placed(),
        state.typed(ch).text.len() <= 2 * (state.text.len() + 1),
{
    let base = state.recorded().region_deleted();
    lemma_region_deleted(state.recorded());
    lemma_region(state.recorded());
    lemma_with_char(base, ch);
    let typed = base.with_char(ch);
    lemma_index(base);
    assert(base.text.len() <= state.text.len());
    if ch == ' ' {
        assert(typed.text[base.index()] == ' ');
        lemma_auto_wrapped(typed);
        lemma_wrapped_len(typed);
    }
}

/// Wrapping adds no more than an indent.
proof fn lemma_wrapped_len(state: EditorState)
    requires
        state.placed(),
    ensures
        state.auto_wrapped(state.index()).text.len() <= 2 * state.text.len(),
{
    let s = state.text;
    if let TextMode::CommitMessage { body_column, .. } = state.text_mode {
        let line = text_of(s, state.line);
        if let Some(col) = wrap_point(line, body_column as int) {
            lemma_line_within(s, state.line);
            crate::text::lemma_trim_end(line);
            lemma_space_before(line, body_column as int);
            lemma_trim_start(line);
            reveal_strlit("\n");
        }
    }
}

/// Putting in a text leaves what can be undone as it is.
proof fn lemma_put_in_keeps_undo(state: EditorState, new: Seq<char>)
    ensures
        state.with_text(new).undo == state.undo,
        state.with_text(new).redo == state.redo,
    decreases new.len(),
{
    if new.len() > 0 {
        lemma_put_in_keeps_undo(state, new.drop_last());
    }
}

/// An edit changes nothing, or it adds one step to what can be undone and leaves
/// nothing to redo.
pub proof fn law_edit_is_one_step(state: EditorState, edit: Edit)
    ensures
        ({
            let after = state.after(edit);
            ||| after.text == state.text && after.undo == state.undo && after.redo == state.redo
            ||| after.undo == state.undo.push(state.snapshot()) && after.redo.len() == 0
        }),
{
    let base = state.recorded().region_deleted();
    assert(base.undo == state.undo.push(state.snapshot()) && base.redo.len() == 0);
    match edit {
        Edit::Type(ch) => {
            let typed = base.with_char(ch);
            let wrapped = typed.auto_wrapped(base.index() + 1);
            assert(wrapped.undo == typed.undo && wrapped.redo == typed.redo);
        },
        Edit::Newline => {},
        Edit::Backspace => {},
        Edit::Delete => {},
        Edit::KillRest => {},
        Edit::KillRegion => {},
        Edit::Yank => {
            lemma_put_in_keeps_undo(base, state.kill);
        },
        Edit::Fill => {},
    }
}

/// Edits keep an editor sound: the cursor stays in a line of the text.
pub proof fn law_edit_keeps_sound(state: EditorState, edit: Edit)
    requires
        state.sound(),
        tame(edit),
    ensures
        state.after(edit).sound(),
{
    lemma_recorded(state);
    match edit {
        Edit::Type(ch) => {
            lemma_typed(state, ch);
        },
        Edit::Newline => {
            lemma_region_deleted(state.recorded());
            lemma_with_newline(state.recorded().region_deleted());
        },
        Edit::Backspace => {
            lemma_backspaced(state);
        },
        Edit::Delete => {
            lemma_deleted(state);
        },
        Edit::KillRest => {
            lemma_rest_killed(state);
        },
        Edit::KillRegion => {
            lemma_region_killed(state);
        },
        Edit::Yank => {
            lemma_region_deleted(state.recorded());
            lemma_text_put_in(state.recorded().region_deleted(), state.kill);
        },
        Edit::Fill => {
            lemma_state_filled(state);
        },
    }
}

/// A cursor brought onto a line stands in a line.
proof fn lemma_clamped(state: EditorState)
    requires
        plain(state.text),
        mark_counts(state.mark),
        state.line >= 0,
        state.col >= 0,
    ensures
        state.clamped().placed(),
        state.on_line() ==> state.clamped() == state,
{
    lemma_line_within(state.text, state.line);
}

/// Undo brings back the text, the cursor, the mark and whether there was something to
/// save from before an edit, in one step whatever the edit did, and a redo right
/// behind it brings back those from behind the edit. This holds of every text. The
/// cursor has to stand in a line before the edit and behind it, where undo and redo
/// bring it.
pub proof fn law_undo_and_redo(state: EditorState, edit: Edit)
    requires
        state.on_line(),
        state.after(edit).on_line(),
        state.after(edit).undo != state.undo,
    ensures
        ({
            let back = state.after(edit).undone();
            &&& back.snapshot() == state.snapshot()
            &&& back.undo == state.undo
            &&& back.status == "undo"@
        }),
        ({
            let again = state.after(edit).undone().redone();
            &&& again.snapshot() == state.after(edit).snapshot()
            &&& again.undo == state.after(edit).undo
            &&& again.redo == state.after(edit).redo
            &&& again.status == "redo"@
        }),
{
    law_edit_is_one_step(state, edit);
    let after = state.after(edit);
    let back = after.undone();
    assert(after.undo.drop_last() =~= state.undo);
    assert(after.undo.last() == state.snapshot());
    assert(back.redo =~= after.redo.push(after.snapshot()));
    assert(back.redo.drop_last() =~= after.redo);
    assert(back.undo.push(back.snapshot()) =~= after.undo);
}

/// An edit that changes the text can be undone.
pub proof fn law_change_can_be_undone(state: EditorState, edit: Edit)
    requires
        state.after(edit).text != state.text,
    ensures
        state.after(edit).undo != state.undo,
{
    law_edit_is_one_step(state, edit);
    assert(state.after(edit).undo.len() == state.undo.len() + 1);
}

/// Undo and redo keep an editor sound.
pub proof fn law_undo_keeps_sound(state: EditorState)
    requires
        state.sound(),
    ensures
        state.undone().sound(),
        state.redone().sound(),
{
    if state.undo.len() > 0 {
        let snapshot = state.undo.last();
        assert(snapshot == state.undo[state.undo.len() - 1]);
        lemma_taken(state.undo);
        lemma_added(state.redo, state);
        lemma_clamped(
            EditorState {
                text: snapshot.text,
                line: snapshot.line,
                col: snapshot.col,
                mark: snapshot.mark,
                ..state
            },
        );
    }
    if state.redo.len() > 0 {
        let snapshot = state.redo.last();
        assert(snapshot == state.redo[state.redo.len() - 1]);
        lemma_taken(state.redo);
        lemma_added(state.undo, state);
        lemma_clamped(
            EditorState {
                text: snapshot.text,
                line: snapshot.line,
                col: snapshot.col,
                mark: snapshot.mark,
                ..state
            },
        );
    }
}

proof fn lemma_taken(list: Seq<Snapshot>)
    requires
        snapshots_sound(list),
        list.len() > 0,
    ensures
        snapshots_sound(list.drop_last()),
{
    let rest = list.drop_last();
    assert forall|i: int| 0 <= i < rest.len() implies {
        &&& plain((#[trigger] rest[i]).text)
        &&& rest[i].line >= 0
        &&& rest[i].col >= 0
        &&& mark_counts(rest[i].mark)
    } by {
        assert(rest[i] == list[i]);
    }
}

proof fn lemma_added(list: Seq<Snapshot>, state: EditorState)
    requires
        snapshots_sound(list),
        state.placed(),
    ensures
        snapshots_sound(list.push(state.snapshot())),
{
    let all = list.push(state.snapshot());
    assert forall|i: int| 0 <= i < all.len() implies {
        &&& plain((#[trigger] all[i]).text)
        &&& all[i].line >= 0
        &&& all[i].col >= 0
        &&& mark_counts(all[i].mark)
    } by {
        if i < list.len() {
            assert(all[i] == list[i]);
        }
    }
}

/// What a kill takes out of the text, a yank right behind it brings back: the text is
/// as before, the cursor stands behind what came back, which stays to be yanked
/// again, and both edits can be undone, one after the other.
pub proof fn law_yank_brings_back_kill(state: EditorState)
    requires
        state.placed(),
        state.region() is Some,
    ensures
        ({
            let (from, to) = state.region()->0;
            let killed = state.region_killed();
            let yanked = killed.yanked();
            &&& yanked.text == state.text
            &&& yanked.on_line()
            &&& yanked.index() == to
            &&& yanked.mark is None
            &&& yanked.dirty
            &&& yanked.kill == state.text.subrange(from, to)
            &&& yanked.undo == state.undo.push(state.snapshot()).push(killed.snapshot())
            &&& yanked.redo == Seq::<Snapshot>::empty()
        }),
{
    let (from, to) = state.region()->0;
    lemma_region(state);
    lemma_region_killed(state);
    let killed = state.region_killed();
    lemma_region_deleted(killed.recorded());
    lemma_text_put_in(killed.recorded(), killed.kill);
    assert(killed.recorded().index() == killed.index());
    assert(spliced(removed(state.text, from, to), from, from, state.text.subrange(from, to))
        =~= state.text);
}

/// What killing the rest of a line takes out of the text, a yank right behind it
/// brings back in the same way.
pub proof fn law_yank_brings_back_rest(state: EditorState)
    requires
        state.placed(),
        state.rest_of_line() is Some,
    ensures
        ({
            let end = state.rest_of_line()->0;
            let killed = state.rest_killed();
            let yanked = killed.yanked();
            &&& yanked.text == state.text
            &&& yanked.on_line()
            &&& yanked.index() == end
            &&& yanked.mark is None
            &&& yanked.dirty
            &&& yanked.kill == state.text.subrange(state.index(), end)
            &&& yanked.undo == state.undo.push(state.snapshot()).push(killed.snapshot())
            &&& yanked.redo == Seq::<Snapshot>::empty()
        }),
{
    let end = state.rest_of_line()->0;
    let s = state.text;
    let from = state.index();
    lemma_index(state);
    lemma_rest_of_line(state);
    lemma_rest_killed(state);
    lemma_removed_at(state, from, end, state.line, state.col);
    lemma_line_order(s, state.line);
    lemma_after_break(s, line_start(s, state.line));
    lemma_line_start(s, state.line);
    if state.line + 1 < line_count(s) {
        lemma_line_start(s, state.line + 1);
        assert(s[line_start(s, state.line + 1) - 1] == '\n');
    }
    assert(from < end);
    let killed = state.rest_killed();
    lemma_index(killed);
    lemma_at(killed.text, from, killed.line, killed.col);
    lemma_region_deleted(killed.recorded());
    lemma_text_put_in(killed.recorded(), killed.kill);
    assert(killed.recorded().index() == killed.index());
    assert(spliced(removed(s, from, end), from, from, s.subrange(from, end)) =~= s);
}

// ---------------------------------------------------------------------------
// Moves and searches
// ---------------------------------------------------------------------------

/// Going left within a line stays in it.
proof fn lemma_skip_left(line: Seq<char>, col: int)
    requires
        0 <= col,
    ensures
        0 <= skip_space_left(line, col) <= col,
        0 <= skip_word_left(line, col) <= col,
    decreases col,
{
    if col > 0 {
        lemma_skip_left(line, col - 1);
    }
}

/// Going right within a line stays in it.
proof fn lemma_skip_right(line: Seq<char>, col: int)
    requires
        col <= line.len(),
    ensures
        col <= skip_space_right(line, col) <= line.len(),
        col <= skip_word_right(line, col) <= line.len(),
    decreases line.len() - col,
{
    if col < line.len() {
        lemma_skip_right(line, col + 1);
    }
}

/// A match lies in a line.
pub open spec fn match_at(s: Seq<char>, query: Seq<char>, line: int, col: int) -> bool {
    0 <= line < line_count(s) && stands_at(text_of(s, line), query, col)
}

proof fn lemma_scan_forward(s: Seq<char>, query: Seq<char>, line: int, end: int, first: int, col: int)
    requires
        0 <= line,
        end <= line_count(s),
        0 <= col,
        query.len() > 0,
    ensures
        match scan_forward(s, query, line, end, first, col) {
            Some((l, c)) => line <= l < end && match_at(s, query, l, c) && (l == first ==> c >= col),
            None => forall|l: int, c: int|
                line <= l < end && (l == first ==> c >= col) && c >= 0 ==> !#[trigger] stands_at(
                    text_of(s, l),
                    query,
                    c,
                ),
        },
    decreases end - line,
{
    if line < end {
        let from = if line == first {
            col
        } else {
            0
        };
        lemma_find_from(text_of(s, line), query, from);
        lemma_scan_forward(s, query, line + 1, end, first, col);
    }
}

proof fn lemma_scan_reverse(s: Seq<char>, query: Seq<char>, line: int, low: int, first: int, col: int)
    requires
        0 <= low,
        line < line_count(s),
        query.len() > 0,
    ensures
        match scan_reverse(s, query, line, low, first, col) {
            Some((l, c)) => low <= l <= line && match_at(s, query, l, c) && (l == first ==> c
                + query.len() <= col),
            None => forall|l: int, c: int|
                low <= l <= line && (l == first ==> c + query.len() <= col) ==> !#[trigger] stands_at(
                    text_of(s, l),
                    query,
                    c,
                ),
        },
    decreases line - low + 1,
{
    if low <= line {
        let to = if line == first {
            col
        } else {
            len_of(s, line)
        };
        let text = text_of(s, line);
        lemma_line_within(s, line);
        lemma_rfind_to(text, query, to - query.len());
        lemma_rfind_to(text, query, text.len() - query.len());
        lemma_scan_reverse(s, query, line - 1, low, first, col);
    }
}

/// What a search finds stands in the text. Where it finds nothing, the text has no
/// match but on the side of the cursor, in its own line, that the search turns away
/// from.
pub proof fn law_search_finds_matches(
    s: Seq<char>,
    direction: SearchDirection,
    query: Seq<char>,
    line: int,
    col: int,
)
    requires
        query.len() > 0,
        0 <= line < line_count(s),
        0 <= col,
    ensures
        match found(s, direction, query, line, col) {
            Some((l, c)) => match_at(s, query, l, c),
            None => forall|l: int, c: int|
                0 <= l < line_count(s) && c >= 0 && (l == line ==> match direction {
                    SearchDirection::Forward => c >= col,
                    SearchDirection::Reverse => c + query.len() <= col,
                }) ==> !#[trigger] stands_at(text_of(s, l), query, c),
        },
{
    match direction {
        SearchDirection::Forward => {
            lemma_scan_forward(s, query, line, line_count(s), line, col);
            lemma_scan_forward(s, query, 0, line, -1, 0);
        },
        SearchDirection::Reverse => {
            lemma_scan_reverse(s, query, line, 0, line, col);
            lemma_scan_reverse(s, query, line_count(s) - 1, line + 1, -1, 0);
        },
    }
}

/// A cancelled search puts the cursor back where the search began. Whatever is
/// sought meanwhile keeps that place, and leaves the text alone.
pub proof fn law_search_keeps_its_begin(state: EditorState, ch: char, direction: SearchDirection)
    ensures
        ({
            let begun = state.search_begun(direction);
            begun.search_cancelled().line == state.line && begun.search_cancelled().col == state.col
        }),
        state.search matches Some(search) ==> {
            &&& same_begin(state.search_typed(ch), state)
            &&& same_begin(state.search_backspaced(), state)
            &&& same_begin(state.search_repeated(direction), state)
            &&& state.search_cancelled().line == search.line
            &&& state.search_cancelled().col == search.col
        },
{
}

/// Two editors with the same text whose searches began at the same place.
pub open spec fn same_begin(a: EditorState, b: EditorState) -> bool {
    &&& a.text == b.text
    &&& a.undo == b.undo
    &&& a.search matches Some(one)
    &&& b.search matches Some(other)
    &&& one.line == other.line
    &&& one.col == other.col
}

/// A search keeps an editor sound.
proof fn lemma_searched(state: EditorState, line: int, col: int)
    requires
        state.sound(),
        0 <= line < line_count(state.text),
        0 <= col,
    ensures
        state.search matches Some(search) ==> search.query.len() > 0 ==> state.moved_to(
            found(state.text, search.direction, search.query, line, col),
        ).sound(),
{
    if let Some(search) = state.search {
        if search.query.len() > 0 {
            law_search_finds_matches(state.text, search.direction, search.query, line, col);
            if let Some((l, c)) = found(state.text, search.direction, search.query, line, col) {
                lemma_line_within(state.text, l);
            }
        }
    }
}

/// The editor with more of the text sought keeps sound.
proof fn lemma_seeking(state: EditorState, query: Seq<char>)
    requires
        state.sound(),
    ensures
        state.seeking(query).searched().sound(),
{
    let seeking = state.seeking(query);
    assert(seeking.sound());
    if let Some(search) = seeking.search {
        lemma_searched(seeking, search.line, search.col);
    }
}

/// A search gone on with keeps an editor sound.
proof fn lemma_repeated(state: EditorState, direction: SearchDirection)
    requires
        state.sound(),
        state.col < usize::MAX,
    ensures
        state.search_repeated(direction).sound(),
{
    if let Some(search) = state.search {
        let turned = EditorState { search: Some(Search { direction, ..search }), ..state };
        assert(turned.sound());
        lemma_searched(turned, state.line, more(state.col, 1));
        lemma_searched(turned, state.line, state.col);
    }
}

/// Moves of the cursor keep an editor sound.
pub proof fn law_moves_keep_sound(state: EditorState)
    requires
        state.sound(),
    ensures
        state.moved_left().sound(),
        state.moved_right().sound(),
        state.moved_up().sound(),
        state.moved_down().sound(),
        state.moved_word_left().sound(),
        state.moved_word_right().sound(),
        state.paged_up().sound(),
        state.paged_down().sound(),
{
    let s = state.text;
    lemma_line_within(s, state.line);
    if state.line > 0 {
        lemma_line_within(s, state.line - 1);
        lemma_clamped(EditorState { line: state.line - 1, ..state });
    }
    lemma_line_within(s, state.line + 1);
    lemma_clamped(EditorState { line: state.line + 1, ..state });
    let line = text_of(s, state.line);
    lemma_skip_left(line, state.col);
    lemma_skip_left(line, skip_space_left(line, state.col));
    lemma_skip_right(line, state.col);
    lemma_skip_right(line, skip_word_right(line, state.col));
    lemma_clamped(EditorState { line: less(state.line, state.page()), ..state });
    lemma_clamped(
        EditorState {
            line: lesser(state.line + state.page(), line_count(s) - 1),
            ..state
        },
    );
}

// ---------------------------------------------------------------------------
// Keys
// ---------------------------------------------------------------------------

impl EditorState {
    /// The text is far from as long as a text can be.
    pub open spec fn roomy(self) -> bool {
        (self.text.len() + self.kill.len() + 0x1_0000) * 16 <= usize::MAX
    }
}

/// A cursor that stands in a line lies within the text.
proof fn lemma_fits(state: EditorState)
    requires
        state.placed(),
        state.text.len() < usize::MAX,
    ensures
        state.fits(),
        state.line <= state.text.len(),
        state.index() <= state.text.len(),
        state.joins_back(),
        state.has_left(),
        state.col <= state.text.len(),
{
    lemma_index(state);
    lemma_line_within(state.text, state.line);
    lemma_breaks(state.text, state.text.len() as int, state.text.len() as int);
}

/// Typing spaces keeps an editor sound.
proof fn lemma_typed_times(state: EditorState, n: nat)
    requires
        state.sound(),
        n <= 4,
        state.roomy(),
    ensures
        state.typed_times(' ', n).sound(),
        n < 4 ==> state.typed_times(' ', n).fits(),
        n == 0 ==> state.typed_times(' ', n).text.len() <= state.text.len(),
        n == 1 ==> state.typed_times(' ', n).text.len() <= 2 * (state.text.len() + 1),
        n == 2 ==> state.typed_times(' ', n).text.len() <= 4 * (state.text.len() + 2),
        n == 3 ==> state.typed_times(' ', n).text.len() <= 8 * (state.text.len() + 4),
    decreases n,
{
    let after = state.typed_times(' ', n);
    if n > 0 {
        lemma_typed_times(state, (n - 1) as nat);
        let before = state.typed_times(' ', (n - 1) as nat);
        assert(after == before.typed(' '));
        lemma_typed(before, ' ');
        law_edit_keeps_sound(before, Edit::Type(' '));
        assert(before.after(Edit::Type(' ')) == after);
    }
    if n < 4 {
        lemma_fits(after);
    }
}

/// A text that was killed can be yanked.
proof fn lemma_takes_yank(state: EditorState)
    requires
        state.sound(),
        state.roomy(),
    ensures
        state.takes_yank(),
{
    lemma_fits(state);
    let base = state.recorded().region_deleted();
    lemma_region_deleted(state.recorded());
    lemma_region(state.recorded());
    lemma_index(base);
    assert(base.text.len() <= state.text.len());
    assert forall|n: int| 0 <= n < state.kill.len() implies #[trigger] base.with_text(
        state.kill.take(n),
    ).fits() by {
        lemma_with_text(base, state.kill, n);
        let t = base.with_text(state.kill.take(n)).text;
        lemma_breaks(t, t.len() as int, t.len() as int);
    }
}

/// A sound editor, without what that means.
#[verifier::opaque]
spec fn kept(state: EditorState) -> bool {
    state.sound()
}

/// Two editors that differ in nothing that makes them sound.
spec fn alike(a: EditorState, b: EditorState) -> bool {
    &&& a.text == b.text
    &&& a.line == b.line
    &&& a.col == b.col
    &&& a.kill == b.kill
    &&& a.mark == b.mark
    &&& a.search == b.search
    &&& a.undo == b.undo
    &&& a.redo == b.redo
}

/// What a reaction leads to is sound.
spec fn sound_reaction(reaction: Option<Reaction>) -> bool {
    reaction matches Some(reaction) && kept(reaction.state)
}

proof fn lemma_alike(a: EditorState, b: EditorState)
    requires
        kept(b),
        alike(a, b),
    ensures
        kept(a),
{
    reveal(kept);
}

proof fn lemma_edit_kept(state: EditorState, edit: Edit)
    requires
        state.sound(),
        tame(edit),
    ensures
        kept(state.after(edit)),
{
    reveal(kept);
    law_edit_keeps_sound(state, edit);
}

proof fn lemma_copy_kept(state: EditorState)
    requires
        state.sound(),
    ensures
        kept(state.region_copied()),
{
    reveal(kept);
    lemma_region(state);
    if let Some((from, to)) = state.region() {
        lemma_part(state.text, from, to);
    }
}

proof fn lemma_steps_kept(state: EditorState)
    requires
        state.sound(),
        state.roomy(),
    ensures
        kept(state.typed_times(' ', 4)),
        kept(state.undone()),
        kept(state.redone()),
        state.takes_yank(),
        state.joins_forward(),
        forall|n: nat| n < 4 ==> #[trigger] state.typed_times(' ', n).fits(),
{
    reveal(kept);
    lemma_typed_times(state, 4);
    law_undo_keeps_sound(state);
    lemma_takes_yank(state);
    lemma_rest_of_line(state);
    lemma_breaks(state.text, state.text.len() as int, state.text.len() as int);
    assert forall|n: nat| n < 4 implies #[trigger] state.typed_times(' ', n).fits() by {
        lemma_typed_times(state, n);
    }
}

proof fn lemma_moves_kept(state: EditorState)
    requires
        state.sound(),
    ensures
        kept(state.moved_left()),
        kept(state.moved_right()),
        kept(state.moved_up()),
        kept(state.moved_down()),
        kept(state.moved_word_left()),
        kept(state.moved_word_right()),
        kept(state.paged_up()),
        kept(state.paged_down()),
{
    reveal(kept);
    law_moves_keep_sound(state);
}

proof fn lemma_columns_kept(state: EditorState)
    requires
        state.sound(),
    ensures
        kept(EditorState { col: 0, ..state }),
        kept(EditorState { col: len_of(state.text, state.line), ..state }),
        kept(state.mark_toggled()),
        kept(state.mark_cancelled()),
{
    reveal(kept);
    lemma_line_within(state.text, state.line);
}

proof fn lemma_searches_kept(state: EditorState)
    requires
        state.sound(),
        state.roomy(),
    ensures
        kept(state.search_begun(SearchDirection::Forward)),
        kept(state.search_begun(SearchDirection::Reverse)),
        kept(state.search_repeated(SearchDirection::Forward)),
        kept(state.search_repeated(SearchDirection::Reverse)),
        kept(state.search_cancelled()),
        kept(state.search_finished()),
        kept(state.search_backspaced()),
        state.search_runs(),
{
    reveal(kept);
    lemma_fits(state);
    lemma_breaks(state.text, state.text.len() as int, state.text.len() as int);
    lemma_repeated(state, SearchDirection::Forward);
    lemma_repeated(state, SearchDirection::Reverse);
    if let Some(search) = state.search {
        lemma_seeking(
            state,
            if search.query.len() > 0 {
                search.query.drop_last()
            } else {
                search.query
            },
        );
    }
}

/// An editor stays sound after every action on the terminal.
proof fn lemma_screen_kept(state: EditorState, screen: Screen, height: u16)
    requires
        kept(state),
    ensures
        kept(resizing(state, screen, height).state),
        kept(filling_screen(state, screen).state),
        kept(restoring(state, screen).state),
{
    lemma_alike(resizing(state, screen, height).state, state);
    lemma_alike(filling_screen(state, screen).state, state);
    lemma_alike(restoring(state, screen).state, state);
}

/// Every action keeps a sound editor sound, and finds its cursor where it needs it.
#[verifier::spinoff_prover]
proof fn lemma_reaction_sound(
    state: EditorState,
    screen: Option<Screen>,
    mode: Mode,
    action: Seq<char>,
)
    requires
        kept(state),
        state.roomy(),
    ensures
        sound_reaction(reaction(state, screen, mode, action)),
{
    assert(state.fits() && state.joins_back() && state.has_left() && state.line + state.page()
        <= usize::MAX && state.index() <= usize::MAX) by {
        reveal(kept);
        lemma_fits(state);
    }
    if action == "quit"@ {
    } else if action == "quit_view"@ && mode is View {
    } else if action == "save"@ && mode is Edit {
    } else if action == "save"@ {
        lemma_alike(state.saying("read-only"@), state);
    } else if action == "search_forward"@ || action == "search_reverse"@ {
        assert(state.sound()) by {
            reveal(kept);
        }
        lemma_searches_kept(state);
    } else if action == "cancel_search"@ || action == "finish_search"@ {
        assert(state.sound()) by {
            reveal(kept);
        }
        lemma_searches_kept(state);
    } else if action == "cancel_mark"@ || action == "set_mark"@ {
        assert(state.sound()) by {
            reveal(kept);
        }
        lemma_columns_kept(state);
    } else if (action == "undo"@ || action == "redo"@) && mode is Edit {
        assert(state.sound()) by {
            reveal(kept);
        }
        lemma_steps_kept(state);
    } else if action == "line_start"@ || action == "line_end"@ {
        assert(state.sound()) by {
            reveal(kept);
        }
        lemma_columns_kept(state);
    } else if action == "word_left"@ || action == "word_right"@ {
        assert(state.sound()) by {
            reveal(kept);
        }
        lemma_moves_kept(state);
    } else if action == "char_left"@ || action == "char_right"@ {
        assert(state.sound()) by {
            reveal(kept);
        }
        lemma_moves_kept(state);
    } else if action == "line_up"@ || action == "line_down"@ {
        assert(state.sound()) by {
            reveal(kept);
        }
        lemma_moves_kept(state);
    } else if action == "page_up"@ || action == "page_down"@ {
        assert(state.sound()) by {
            reveal(kept);
        }
        lemma_moves_kept(state);
    } else if action == "copy_region"@ {
        assert(state.sound()) by {
            reveal(kept);
        }
        lemma_copy_kept(state);
    } else if action == "kill_region"@ && mode is Edit {
        assert(state.sound()) by {
            reveal(kept);
        }
        lemma_edit_kept(state, Edit::KillRegion);
    } else if action == "kill_to_eol"@ && mode is Edit {
        assert(state.sound()) by {
            reveal(kept);
        }
        lemma_steps_kept(state);
        lemma_edit_kept(state, Edit::KillRest);
    } else if action == "yank"@ && mode is Edit {
        assert(state.sound()) by {
            reveal(kept);
        }
        lemma_steps_kept(state);
        lemma_edit_kept(state, Edit::Yank);
    } else if action == "delete_char"@ && mode is Edit {
        assert(state.sound()) by {
            reveal(kept);
        }
        lemma_steps_kept(state);
        lemma_edit_kept(state, Edit::Delete);
    } else if action == "backspace"@ && state.search is Some {
        assert(state.sound()) by {
            reveal(kept);
        }
        lemma_searches_kept(state);
    } else if action == "backspace"@ && mode is Edit {
        assert(state.sound()) by {
            reveal(kept);
        }
        lemma_edit_kept(state, Edit::Backspace);
    } else if action == "insert_newline"@ && mode is Edit {
        assert(state.sound()) by {
            reveal(kept);
        }
        lemma_edit_kept(state, Edit::Newline);
    } else if action == "insert_tab"@ && mode is Edit {
        assert(state.sound()) by {
            reveal(kept);
        }
        lemma_steps_kept(state);
    } else if action == "shrink_height"@ {
        if let Some(on) = screen {
            lemma_screen_kept(
                state,
                on,
                (if state.height > 0 {
                    state.height - 1
                } else {
                    0
                }) as u16,
            );
        }
    } else if action == "grow_height"@ {
        if let Some(on) = screen {
            lemma_screen_kept(
                state,
                on,
                (if state.height < u16::MAX {
                    state.height + 1
                } else {
                    u16::MAX as int
                }) as u16,
            );
        }
    } else if action == "fullscreen"@ || action == "restore_inline"@ {
        if let Some(on) = screen {
            lemma_screen_kept(state, on, 0);
        }
    } else if action == "fill_paragraph"@ && mode is Edit {
        assert(state.sound()) by {
            reveal(kept);
        }
        lemma_edit_kept(state, Edit::Fill);
    }
}

/// The cursor never leaves the text: from a sound editor every key leads to a sound
/// editor. Left out are keys that type a character which ends a line, and texts
/// that fill the memory.
pub proof fn law_cursor_is_never_lost(
    state: EditorState,
    screen: Option<Screen>,
    mode: Mode,
    bindings: Seq<Bound>,
    key: KeyEvent,
)
    requires
        state.sound(),
        state.roomy(),
        types(key) matches Some(ch) ==> !is_break(ch),
    ensures
        pressed(state, screen, mode, bindings, key) matches Some(reaction)
            && reaction.state.sound(),
{
    lemma_fits(state);
    match key_step(state, mode, bindings, key) {
        KeyStep::Act(action) => {
            let cleared = EditorState { pending: Seq::empty(), ..state };
            assert(cleared.sound());
            reveal(kept);
            lemma_reaction_sound(cleared, screen, mode, action);
        },
        KeyStep::Type(ch) => {
            law_edit_keeps_sound(state, Edit::Type(ch));
        },
        KeyStep::Seek(ch) => {
            lemma_breaks(state.text, state.text.len() as int, state.text.len() as int);
            if let Some(search) = state.search {
                lemma_seeking(state, search.query.push(ch));
            }
        },
        _ => {},
    }
}

/// What is left to do outside the editor leaves a sound editor sound.
pub proof fn law_outcome_keeps_sound(state: EditorState, outcome: Outcome)
    requires
        state.sound(),
    ensures
        done(state, outcome).sound(),
{
}

/// What an action leads to in a pager leaves the text alone.
#[verifier::opaque]
spec fn leaves_text(reaction: Reaction, state: EditorState) -> bool {
    &&& reaction.state.path == state.path
    &&& reaction.state.text == state.text
    &&& reaction.state.undo == state.undo
    &&& reaction.state.redo == state.redo
    &&& reaction.state.dirty == state.dirty
    &&& reaction.outcome != Some(Outcome::Save)
}

proof fn lemma_searches_leave_text(state: EditorState)
    ensures
        leaves_text(settled(state.search_repeated(SearchDirection::Forward)), state),
        leaves_text(settled(state.search_repeated(SearchDirection::Reverse)), state),
        leaves_text(settled(state.search_begun(SearchDirection::Forward)), state),
        leaves_text(settled(state.search_begun(SearchDirection::Reverse)), state),
        leaves_text(settled(state.search_backspaced()), state),
        leaves_text(settled(state.search_cancelled()), state),
        leaves_text(settled(state.search_finished()), state),
{
    reveal(leaves_text);
}

proof fn lemma_moves_leave_text(state: EditorState)
    ensures
        leaves_text(settled(state.moved_left()), state),
        leaves_text(settled(state.moved_right()), state),
        leaves_text(settled(state.moved_up()), state),
        leaves_text(settled(state.moved_down()), state),
        leaves_text(settled(state.moved_word_left()), state),
        leaves_text(settled(state.moved_word_right()), state),
        leaves_text(settled(state.paged_up()), state),
        leaves_text(settled(state.paged_down()), state),
        leaves_text(settled(state.mark_toggled()), state),
        leaves_text(settled(state.mark_cancelled()), state),
        leaves_text(settled(state.region_copied()), state),
        leaves_text(settled(EditorState { col: 0, ..state }), state),
        leaves_text(settled(EditorState { col: len_of(state.text, state.line), ..state }), state),
        leaves_text(settled(state.saying("read-only"@)), state),
        leaves_text(settled(state), state),
        leaves_text(Reaction { state, outcome: Some(Outcome::Quit) }, state),
{
    reveal(leaves_text);
}

proof fn lemma_screen_leaves_text(state: EditorState, screen: Screen, height: u16)
    ensures
        leaves_text(resizing(state, screen, height), state),
        leaves_text(filling_screen(state, screen), state),
        leaves_text(restoring(state, screen), state),
{
    reveal(leaves_text);
}

proof fn lemma_view_leaves_text(state: EditorState, screen: Option<Screen>, action: Seq<char>)
    ensures
        reaction(state, screen, Mode::View, action) matches Some(reaction) ==> leaves_text(
            reaction,
            state,
        ),
{
    lemma_searches_leave_text(state);
    lemma_moves_leave_text(state);
    if let Some(on) = screen {
        lemma_screen_leaves_text(
            state,
            on,
            (if state.height > 0 {
                state.height - 1
            } else {
                0
            }) as u16,
        );
        lemma_screen_leaves_text(
            state,
            on,
            (if state.height < u16::MAX {
                state.height + 1
            } else {
                u16::MAX as int
            }) as u16,
        );
    }
}

/// A pager changes neither the text, nor where it is saved, nor what can be undone
/// or redone, and asks for nothing to be saved.
pub proof fn law_view_changes_no_text(
    state: EditorState,
    screen: Option<Screen>,
    bindings: Seq<Bound>,
    key: KeyEvent,
)
    ensures
        pressed(state, screen, Mode::View, bindings, key) matches Some(reaction) ==> {
            &&& reaction.state.path == state.path
            &&& reaction.state.text == state.text
            &&& reaction.state.undo == state.undo
            &&& reaction.state.redo == state.redo
            &&& reaction.state.dirty == state.dirty
            &&& reaction.outcome != Some(Outcome::Save)
        },
{
    reveal(leaves_text);
    match key_step(state, Mode::View, bindings, key) {
        KeyStep::Act(action) => {
            lemma_view_leaves_text(
                EditorState { pending: Seq::empty(), ..state },
                screen,
                action,
            );
        },
        _ => {},
    }
}

} // verus!
