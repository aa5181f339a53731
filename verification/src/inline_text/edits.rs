//! What the edits of the editor do to the text, told by what stands in it before and
//! behind them.

use vstd::prelude::*;

#[allow(unused_imports)]
use crate::config::KeyEvent;
#[allow(unused_imports)]
use crate::inline_text::Mode;
#[allow(unused_imports)]
use crate::inline_text::buffer::{lemma_line_within, len_of, start_of, text_of};
#[allow(unused_imports)]
use crate::inline_text::conduct::lemma_names;
#[allow(unused_imports)]
use crate::inline_text::input::{
    done, given, reaction, settled, stepped, KeyStep, Outcome, Reaction, Screen,
};
#[allow(unused_imports)]
use crate::inline_text::laws::{
    lemma_auto_wrapped, lemma_paragraph_end, lemma_paragraph_start, lemma_region,
    lemma_region_deleted, lemma_region_killed, lemma_state_filled, lemma_text_put_in,
    lemma_with_char, Edit,
};
#[allow(unused_imports)]
use crate::inline_text::model::{
    lesser, removed, space_before, wrap_point, EditorState, Point, Snapshot,
};
#[allow(unused_imports)]
use crate::inline_text::place::{plain, spliced};
#[allow(unused_imports)]
use crate::inline_text::text_mode::TextMode;
#[allow(unused_imports)]
use crate::rope::{lemma_line_start_grows, line_count};
#[allow(unused_imports)]
use crate::text::{
    decimal, has_prefix, indent_of, is_blank, lemma_trim_end, lemma_trim_start, trim_end,
};

verus! {

// ---------------------------------------------------------------------------
// Edits
// ---------------------------------------------------------------------------

/// The text `t` is the text `s` with `new` in place of what stood at `from..to`.
pub open spec fn replaces(s: Seq<char>, t: Seq<char>, from: int, to: int, new: Seq<char>) -> bool {
    &&& t.len() == s.len() - (to - from) + new.len()
    &&& forall|i: int| 0 <= i < from ==> #[trigger] t[i] == s[i]
    &&& forall|i: int| 0 <= i < new.len() ==> #[trigger] new[i] == t[from + i]
    &&& forall|i: int| to <= i < s.len() ==> #[trigger] s[i] == t[i - (to - from) + new.len()]
}

/// A text that has just been changed: it is to be saved, the change can be undone, and
/// neither mark nor search is left.
pub open spec fn is_changed(before: EditorState, after: EditorState) -> bool {
    &&& after.dirty
    &&& after.mark is None
    &&& after.search is None
    &&& after.undo.len() == before.undo.len() + 1
    &&& after.undo.last() == (Snapshot {
        text: before.text,
        line: before.line,
        col: before.col,
        dirty: before.dirty,
        mark: before.mark,
    })
    &&& after.undo.drop_last() == before.undo
    &&& after.redo.len() == 0
    &&& after.path == before.path
    &&& after.height == before.height
    &&& after.text_mode == before.text_mode
}

/// Typing puts the character in at the cursor, and leaves the cursor behind it.
pub proof fn law_typing_puts_in(
    state: EditorState,
    screen: Option<Screen>,
    key: KeyEvent,
    ch: char,
)
    requires
        state.on_line(),
        state.line < usize::MAX,
        state.mark is None,
        ch == ' ' ==> state.text_mode is Plain,
    ensures
        ({
            let r = stepped(state, screen, Mode::Edit, key, KeyStep::Type(ch));
            let at = start_of(state.text, state.line) + state.col;
            &&& r matches Some(r)
            &&& r.outcome is None
            &&& replaces(state.text, r.state.text, at, at, seq![ch])
            &&& r.state.line == state.line && r.state.col == state.col + 1
            &&& is_changed(state, r.state)
            &&& r.state.status == "modified"@
            &&& r.state.kill == state.kill
        }),
{
    lemma_line_within(state.text, state.line);
    let base = state.recorded();
    assert(base.region() is None);
    assert(base.undo.drop_last() =~= state.undo);
}

/// A new line puts a line feed in at the cursor, and the cursor goes to the start of the
/// next line.
pub proof fn law_newline_puts_in(state: EditorState, screen: Option<Screen>)
    requires
        state.on_line(),
        state.line < usize::MAX,
        state.mark is None,
    ensures
        ({
            let r = reaction(state, screen, Mode::Edit, "insert_newline"@);
            let at = start_of(state.text, state.line) + state.col;
            &&& r matches Some(r)
            &&& r.outcome is None
            &&& replaces(state.text, r.state.text, at, at, seq!['\n'])
            &&& r.state.line == state.line + 1 && r.state.col == 0
            &&& is_changed(state, r.state)
            &&& r.state.kill == state.kill
        }),
{
    assert(reaction(state, screen, Mode::Edit, "insert_newline"@) == given(
        state.fits(),
        settled(state.newlined()),
    )) by {
        lemma_names();
    }
    lemma_line_within(state.text, state.line);
    let base = state.recorded();
    assert(base.region() is None);
    assert(base.undo.drop_last() =~= state.undo);
}

/// A tab puts in four spaces.
pub proof fn law_tab_puts_in(state: EditorState, screen: Option<Screen>)
    requires
        state.placed(),
        state.mark is None,
        state.text_mode is Plain,
    ensures
        ({
            let r = reaction(state, screen, Mode::Edit, "insert_tab"@);
            let at = start_of(state.text, state.line) + state.col;
            r matches Some(r) ==> {
                &&& r.outcome is None
                &&& replaces(state.text, r.state.text, at, at, seq![' ', ' ', ' ', ' '])
                &&& r.state.line == state.line && r.state.col == state.col + 4
            }
        }),
{
    lemma_tab(state, screen);
    lemma_spaces_typed(state, 4);
    let spaces = Seq::new(4, |i: int| ' ');
    assert(spaces =~= seq![' ', ' ', ' ', ' ']);
    lemma_line_within(state.text, state.line);
    lemma_spliced_replaces(state.text, state.index(), spaces);
}

proof fn lemma_tab(state: EditorState, screen: Option<Screen>)
    ensures
        reaction(state, screen, Mode::Edit, "insert_tab"@) matches Some(r) ==> r == settled(
            state.typed_times(' ', 4),
        ),
{
    lemma_names();
}

proof fn lemma_spliced_replaces(s: Seq<char>, at: int, new: Seq<char>)
    requires
        0 <= at <= s.len(),
    ensures
        replaces(s, spliced(s, at, at, new), at, at, new),
{
}

proof fn lemma_spaces_typed(state: EditorState, n: nat)
    requires
        state.placed(),
        state.mark is None,
        state.text_mode is Plain,
    ensures
        ({
            let after = state.typed_times(' ', n);
            let spaces = Seq::new(n, |i: int| ' ');
            &&& after.text == spliced(state.text, state.index(), state.index(), spaces)
            &&& after.line == state.line
            &&& after.col == state.col + n
            &&& after.index() == state.index() + n
            &&& after.mark is None
            &&& after.text_mode == state.text_mode
            &&& after.placed()
        }),
    decreases n,
{
    lemma_line_within(state.text, state.line);
    if n == 0 {
        assert(state.text =~= spliced(state.text, state.index(), state.index(), Seq::empty()));
        assert(Seq::new(0, |i: int| ' ') =~= Seq::<char>::empty());
    } else {
        let m = (n - 1) as nat;
        lemma_spaces_typed(state, m);
        let before = state.typed_times(' ', m);
        lemma_space_typed(before);
        lemma_one_more(state.text, state.index(), m);
    }
}

proof fn lemma_space_typed(state: EditorState)
    requires
        state.placed(),
        state.mark is None,
        state.text_mode is Plain,
    ensures
        ({
            let after = state.typed(' ');
            &&& after.text == state.text.insert(state.index(), ' ')
            &&& after.line == state.line
            &&& after.col == state.col + 1
            &&& after.index() == state.index() + 1
            &&& after.mark is None
            &&& after.text_mode == state.text_mode
            &&& after.placed()
        }),
{
    let base = state.recorded();
    assert(base.region() is None);
    lemma_with_char(base, ' ');
    assert(state.typed(' ') == base.with_char(' ').modified());
}

proof fn lemma_one_more(s: Seq<char>, at: int, n: nat)
    requires
        0 <= at <= s.len(),
    ensures
        spliced(s, at, at, Seq::new(n, |i: int| ' ')).insert(at + n, ' ') == spliced(
            s,
            at,
            at,
            Seq::new(n + 1, |i: int| ' '),
        ),
{
    assert(spliced(s, at, at, Seq::new(n, |i: int| ' ')).insert(at + n, ' ') =~= spliced(
        s,
        at,
        at,
        Seq::new(n + 1, |i: int| ' '),
    ));
}

/// A backspace takes out the character before the cursor; at the start of a line, the
/// end of the line above, which the cursor then stands behind; and nothing at the start
/// of the text.
#[verifier::rlimit(30)]
pub proof fn law_backspace_takes_out(state: EditorState, screen: Option<Screen>)
    requires
        state.on_line(),
        state.line < usize::MAX,
        state.mark is None,
        state.search is None,
    ensures
        ({
            let r = reaction(state, screen, Mode::Edit, "backspace"@);
            let start = start_of(state.text, state.line);
            let at = start + state.col;
            &&& r matches Some(r)
            &&& r.outcome is None
            &&& state.col > 0 ==> {
                &&& replaces(state.text, r.state.text, at - 1, at, Seq::<char>::empty())
                &&& r.state.line == state.line && r.state.col == state.col - 1
                &&& is_changed(state, r.state)
            }
            &&& state.col == 0 && state.line > 0 ==> {
                let above = len_of(state.text, state.line - 1);
                let end = start_of(state.text, state.line - 1) + above;
                &&& replaces(state.text, r.state.text, end, start, Seq::<char>::empty())
                &&& r.state.line == state.line - 1 && r.state.col == above
                &&& is_changed(state, r.state)
            }
            &&& state.col == 0 && state.line == 0 ==> r.state == state
        }),
{
    lemma_names();
    lemma_line_within(state.text, state.line);
    assert(state.recorded().undo.drop_last() =~= state.undo);
    if state.line > 0 {
        lemma_line_within(state.text, state.line - 1);
    }
}

/// Deleting takes out the character behind the cursor; at the end of a line, that end,
/// so that the next line follows; and nothing at the end of the text. The cursor stays.
#[verifier::rlimit(30)]
pub proof fn law_delete_takes_out(state: EditorState, screen: Option<Screen>)
    requires
        state.on_line(),
        state.line < usize::MAX,
        state.mark is None,
    ensures
        ({
            let r = reaction(state, screen, Mode::Edit, "delete_char"@);
            let at = start_of(state.text, state.line) + state.col;
            let next = start_of(state.text, state.line + 1);
            &&& r matches Some(r)
            &&& r.outcome is None
            &&& r.state.line == state.line && r.state.col == state.col
            &&& state.col < len_of(state.text, state.line) ==> replaces(
                state.text,
                r.state.text,
                at,
                at + 1,
                Seq::<char>::empty(),
            ) && is_changed(state, r.state)
            &&& state.col == len_of(state.text, state.line) && state.line + 1 < line_count(
                state.text,
            ) ==> replaces(state.text, r.state.text, at, next, Seq::<char>::empty()) && is_changed(
                state,
                r.state,
            )
            &&& state.col == len_of(state.text, state.line) && state.line + 1 == line_count(
                state.text,
            ) ==> r.state == state
            &&& r.state.kill == state.kill
        }),
{
    assert(reaction(state, screen, Mode::Edit, "delete_char"@) == given(
        state.deletes_forward(),
        settled(state.deleted()),
    )) by {
        lemma_names();
    }
    lemma_line_within(state.text, state.line);
    assert(state.recorded().undo.drop_last() =~= state.undo);
    if state.line + 1 < line_count(state.text) {
        lemma_line_within(state.text, state.line + 1);
    }
}

/// Killing to the end of the line takes out what stands there behind the cursor, and at
/// the end of a line that end, and keeps it to be yanked. The cursor stays.
#[verifier::rlimit(30)]
pub proof fn law_kill_to_eol_takes_out(state: EditorState, screen: Option<Screen>)
    requires
        state.on_line(),
        state.line < usize::MAX,
    ensures
        ({
            let r = reaction(state, screen, Mode::Edit, "kill_to_eol"@);
            let start = start_of(state.text, state.line);
            let at = start + state.col;
            let end = start + len_of(state.text, state.line);
            let next = start_of(state.text, state.line + 1);
            &&& r matches Some(r)
            &&& r.outcome is None
            &&& r.state.line == state.line && r.state.col == state.col
            &&& at < end ==> {
                &&& replaces(state.text, r.state.text, at, end, Seq::<char>::empty())
                &&& r.state.kill == state.text.subrange(at, end)
                &&& is_changed(state, r.state)
            }
            &&& at == end && state.line + 1 < line_count(state.text) ==> {
                &&& replaces(state.text, r.state.text, at, next, Seq::<char>::empty())
                &&& r.state.kill == state.text.subrange(at, next)
                &&& is_changed(state, r.state)
            }
            &&& at == end && state.line + 1 == line_count(state.text) ==> {
                &&& r.state.text == state.text && r.state.undo == state.undo
                &&& r.state.kill.len() == 0
            }
        }),
{
    assert(reaction(state, screen, Mode::Edit, "kill_to_eol"@) == given(
        state.joins_forward(),
        settled(state.rest_killed()),
    )) by {
        lemma_names();
    }
    lemma_line_within(state.text, state.line);
    assert(state.recorded().undo.drop_last() =~= state.undo);
    if state.line + 1 < line_count(state.text) {
        lemma_line_within(state.text, state.line + 1);
    }
}

/// Yanking puts in at the cursor what was killed last, and leaves the cursor behind it.
#[verifier::rlimit(30)]
pub proof fn law_yank_puts_in(state: EditorState, screen: Option<Screen>)
    requires
        state.placed(),
        state.mark is None,
        plain(state.kill),
    ensures
        ({
            let r = reaction(state, screen, Mode::Edit, "yank"@);
            let at = start_of(state.text, state.line) + state.col;
            r matches Some(r) ==> {
                &&& r.outcome is None
                &&& r.state.kill == state.kill
                &&& state.kill.len() == 0 ==> r.state == state
                &&& state.kill.len() > 0 ==> {
                    &&& replaces(state.text, r.state.text, at, at, state.kill)
                    &&& start_of(r.state.text, r.state.line) + r.state.col == at + state.kill.len()
                    &&& r.state.on_line()
                    &&& is_changed(state, r.state)
                }
            }
        }),
{
    assert(reaction(state, screen, Mode::Edit, "yank"@) == given(
        state.takes_yank(),
        settled(state.yanked()),
    )) by {
        lemma_names();
    }
    lemma_line_within(state.text, state.line);
    let base = state.recorded();
    assert(base.undo.drop_last() =~= state.undo);
    assert(base.region() is None);
    if state.kill.len() > 0 {
        lemma_text_put_in(base, state.kill);
    }
}

// ---------------------------------------------------------------------------
// The region
// ---------------------------------------------------------------------------

/// The mark is set at the cursor; set there again, it is given up.
pub proof fn law_mark_is_set(state: EditorState, screen: Option<Screen>, mode: Mode)
    ensures
        ({
            let set = reaction(state, screen, mode, "set_mark"@);
            let again = reaction(set->0.state, screen, mode, "set_mark"@);
            let here = Point { line: state.line, col: state.col };
            &&& set is Some && again is Some
            &&& set->0.outcome is None
            &&& state.mark != Some(here) ==> {
                &&& set->0.state.mark == Some(here)
                &&& set->0.state.status == "mark set"@
                &&& again->0.state.mark is None
                &&& again->0.state.status == "mark cleared"@
            }
            &&& state.mark == Some(here) ==> set->0.state.mark is None
            &&& set->0.state.text == state.text && set->0.state.undo == state.undo
            &&& set->0.state.line == state.line && set->0.state.col == state.col
        }),
        ({
            let r = reaction(state, screen, mode, "cancel_mark"@);
            &&& r matches Some(r)
            &&& r.outcome is None
            &&& r.state.mark is None
            &&& r.state.text == state.text && r.state.undo == state.undo
            &&& r.state.line == state.line && r.state.col == state.col
            &&& state.mark is Some ==> r.state.status == "mark cancelled"@
            &&& state.mark is None ==> r.state.status == "quit"@
        }),
{
    lemma_names();
}

/// The region reaches from the mark to the cursor, whichever comes first. Copying keeps
/// what stands there and changes nothing else of the text; killing takes it out too.
#[verifier::rlimit(30)]
pub proof fn law_region_is_taken(state: EditorState, screen: Option<Screen>, mode: Mode)
    requires
        state.placed(),
        state.line < usize::MAX,
        state.mark is Some,
    ensures
        ({
            let point = state.mark->0;
            let cursor = start_of(state.text, state.line) + state.col;
            let mark = start_of(state.text, point.line) + lesser(
                point.col,
                len_of(state.text, point.line),
            );
            let (from, to) = if mark < cursor {
                (mark, cursor)
            } else {
                (cursor, mark)
            };
            let copied = reaction(state, screen, mode, "copy_region"@);
            let killed = reaction(state, screen, Mode::Edit, "kill_region"@);
            &&& copied is Some && killed is Some
            &&& copied->0.outcome is None && killed->0.outcome is None
            &&& copied->0.state.text == state.text && copied->0.state.undo == state.undo
            &&& copied->0.state.line == state.line && copied->0.state.col == state.col
            &&& from < to ==> {
                &&& copied->0.state.kill == state.text.subrange(from, to)
                &&& copied->0.state.status == "region copied"@
                &&& killed->0.state.kill == state.text.subrange(from, to)
                &&& killed->0.state.status == "region killed"@
                &&& replaces(state.text, killed->0.state.text, from, to, Seq::<char>::empty())
                &&& is_changed(state, killed->0.state)
                &&& start_of(killed->0.state.text, killed->0.state.line) + killed->0.state.col
                    == from
            }
            &&& from == to ==> {
                &&& copied->0.state == (EditorState { status: "no active region"@, ..state })
                &&& killed->0.state == (EditorState { status: "no active region"@, ..state })
            }
        }),
{
    lemma_names();
    lemma_line_within(state.text, state.line);
    lemma_line_within(state.text, state.mark->0.line);
    lemma_region_killed(state);
    assert(state.recorded().undo.drop_last() =~= state.undo);
}

/// Without a mark there is nothing to copy or to kill.
pub proof fn law_no_region_without_mark(state: EditorState, screen: Option<Screen>, mode: Mode)
    requires
        state.mark is None,
    ensures
        ({
            let copied = reaction(state, screen, mode, "copy_region"@);
            let killed = reaction(state, screen, Mode::Edit, "kill_region"@);
            &&& copied matches Some(r) && r.outcome is None && r.state == (EditorState {
                status: "no active region"@,
                ..state
            })
            &&& killed matches Some(r) && r.outcome is None && r.state == (EditorState {
                status: "no active region"@,
                ..state
            })
        }),
{
    lemma_names();
}

/// What is typed, deleted or broken off where there is a region takes its place: what
/// stood there goes, and the change can be undone as one.
pub proof fn law_region_is_replaced(state: EditorState, ch: char)
    requires
        state.placed(),
        state.region() is Some,
        ch != ' ',
    ensures
        ({
            let (from, to) = state.region()->0;
            let typed = state.after(Edit::Type(ch));
            let newline = state.after(Edit::Newline);
            let back = state.after(Edit::Backspace);
            let delete = state.after(Edit::Delete);
            &&& replaces(state.text, typed.text, from, to, seq![ch]) && is_changed(state, typed)
            &&& replaces(state.text, newline.text, from, to, seq!['\n']) && is_changed(
                state,
                newline,
            )
            &&& replaces(state.text, back.text, from, to, Seq::<char>::empty()) && is_changed(
                state,
                back,
            )
            &&& replaces(state.text, delete.text, from, to, Seq::<char>::empty()) && is_changed(
                state,
                delete,
            )
            &&& start_of(back.text, back.line) + back.col == from
            &&& delete.line == back.line && delete.col == back.col
            &&& typed.line == back.line && typed.col == back.col + 1
            &&& newline.line == back.line + 1 && newline.col == 0
        }),
{
    let (from, to) = state.region()->0;
    let base = state.recorded();
    lemma_region(state);
    lemma_region_deleted(base);
    assert(base.region() == state.region());
    let bare = base.region_deleted();
    assert(bare.index() == from);
    assert(bare.text == removed(state.text, from, to));
    assert(is_changed(state, bare)) by {
        assert(bare.undo.drop_last() =~= state.undo);
    }
    lemma_put_in_place(state.text, bare.text, from, to, ch);
    lemma_put_in_place(state.text, bare.text, from, to, '\n');
    assert(state.after(Edit::Type(ch)) == bare.with_char(ch).modified());
    assert(state.after(Edit::Newline) == bare.with_newline().modified());
    assert(state.after(Edit::Backspace) == bare);
    assert(state.after(Edit::Delete) == bare);
}

proof fn lemma_put_in_place(s: Seq<char>, t: Seq<char>, from: int, to: int, ch: char)
    requires
        0 <= from <= to <= s.len(),
        t == removed(s, from, to),
    ensures
        replaces(s, t, from, to, Seq::<char>::empty()),
        replaces(s, t.insert(from, ch), from, to, seq![ch]),
{
}

/// Each edit has an action of the editor that does it.
pub proof fn law_actions_do_edits(state: EditorState, screen: Option<Screen>)
    requires
        state.search is None,
    ensures
        reaction(state, screen, Mode::Edit, "insert_newline"@) matches Some(r) ==> r.outcome is None
            && r.state == state.after(Edit::Newline),
        reaction(state, screen, Mode::Edit, "backspace"@) matches Some(r) ==> r.outcome is None
            && r.state == state.after(Edit::Backspace),
        reaction(state, screen, Mode::Edit, "delete_char"@) matches Some(r) ==> r.outcome is None
            && r.state == state.after(Edit::Delete),
        reaction(state, screen, Mode::Edit, "kill_to_eol"@) matches Some(r) ==> r.outcome is None
            && r.state == state.after(Edit::KillRest),
        reaction(state, screen, Mode::Edit, "kill_region"@) matches Some(r) ==> r.outcome is None
            && r.state == state.after(Edit::KillRegion),
        reaction(state, screen, Mode::Edit, "yank"@) matches Some(r) ==> r.outcome is None
            && r.state == state.after(Edit::Yank),
        reaction(state, screen, Mode::Edit, "fill_paragraph"@) matches Some(r) ==> r.outcome
            is None && r.state == state.after(Edit::Fill),
{
    lemma_names();
}

// ---------------------------------------------------------------------------
// Undoing
// ---------------------------------------------------------------------------

/// Undoing brings back the last text that was kept, and keeps the one before it to be
/// brought back in turn; where none was kept, it only says so.
pub proof fn law_undo_brings_back(state: EditorState, screen: Option<Screen>)
    ensures
        ({
            let r = reaction(state, screen, Mode::Edit, "undo"@);
            &&& r matches Some(r)
            &&& r.outcome is None
            &&& state.undo.len() == 0 ==> r.state == (EditorState { status: "no undo"@, ..state })
            &&& state.undo.len() > 0 ==> {
                let kept = state.undo[state.undo.len() - 1];
                &&& r.state.text == kept.text
                &&& r.state.dirty == kept.dirty
                &&& r.state.mark == kept.mark
                &&& kept.line < line_count(kept.text) && kept.col <= len_of(kept.text, kept.line)
                    ==> r.state.line == kept.line && r.state.col == kept.col
                &&& r.state.undo == state.undo.take(state.undo.len() - 1)
                &&& r.state.redo.len() == state.redo.len() + 1
                &&& r.state.redo.take(state.redo.len() as int) == state.redo
                &&& r.state.redo.last().text == state.text
                &&& r.state.redo.last().line == state.line
                &&& r.state.redo.last().col == state.col
                &&& r.state.redo.last().dirty == state.dirty
                &&& r.state.redo.last().mark == state.mark
                &&& r.state.status == "undo"@
                &&& r.state.kill == state.kill
            }
        }),
        ({
            let r = reaction(state, screen, Mode::Edit, "redo"@);
            &&& r matches Some(r)
            &&& r.outcome is None
            &&& state.redo.len() == 0 ==> r.state == (EditorState { status: "no redo"@, ..state })
            &&& state.redo.len() > 0 ==> {
                let kept = state.redo[state.redo.len() - 1];
                &&& r.state.text == kept.text
                &&& r.state.dirty == kept.dirty
                &&& r.state.mark == kept.mark
                &&& kept.line < line_count(kept.text) && kept.col <= len_of(kept.text, kept.line)
                    ==> r.state.line == kept.line && r.state.col == kept.col
                &&& r.state.redo == state.redo.take(state.redo.len() - 1)
                &&& r.state.undo.len() == state.undo.len() + 1
                &&& r.state.undo.take(state.undo.len() as int) == state.undo
                &&& r.state.undo.last().text == state.text
                &&& r.state.undo.last().line == state.line
                &&& r.state.undo.last().col == state.col
                &&& r.state.undo.last().dirty == state.dirty
                &&& r.state.undo.last().mark == state.mark
                &&& r.state.status == "redo"@
                &&& r.state.kill == state.kill
            }
        }),
{
    lemma_names();
    assert(state.redo.push(state.snapshot()).take(state.redo.len() as int) =~= state.redo);
    assert(state.undo.push(state.snapshot()).take(state.undo.len() as int) =~= state.undo);
    if state.undo.len() > 0 {
        assert(state.undo.drop_last() =~= state.undo.take(state.undo.len() - 1));
    }
    if state.redo.len() > 0 {
        assert(state.redo.drop_last() =~= state.redo.take(state.redo.len() - 1));
    }
}

// ---------------------------------------------------------------------------
// Saving, leaving and the height
// ---------------------------------------------------------------------------

/// Saving is asked for from the editor alone, and leaves nothing to save; a pager says
/// that it does not write. Both can be left.
pub proof fn law_saving_and_leaving(state: EditorState, screen: Option<Screen>, mode: Mode)
    ensures
        reaction(state, screen, mode, "quit"@) == Some(
            Reaction { state, outcome: Some(Outcome::Quit) },
        ),
        reaction(state, screen, Mode::View, "quit_view"@) == Some(
            Reaction { state, outcome: Some(Outcome::Quit) },
        ),
        reaction(state, screen, Mode::Edit, "quit_view"@) == Some(
            Reaction { state, outcome: None },
        ),
        reaction(state, screen, Mode::Edit, "save"@) == Some(
            Reaction { state, outcome: Some(Outcome::Save) },
        ),
        reaction(state, screen, Mode::View, "save"@) == Some(
            Reaction { state: EditorState { status: "read-only"@, ..state }, outcome: None },
        ),
        done(state, Outcome::Save) == (EditorState {
            dirty: false,
            status: "saved "@ + state.path,
            ..state
        }),
{
    lemma_names();
}

/// The height grows and shrinks by one row, down to five rows and up to those of the
/// terminal. A viewport that cannot go on stays, and one that fills the terminal says so.
pub proof fn law_height_changes_by_one(state: EditorState, rows: u16, mode: Mode)
    requires
        5 <= rows,
        5 <= state.height <= rows,
    ensures
        ({
            let screen = Some(Screen { rows: Some(rows) });
            let grown = reaction(state, screen, mode, "grow_height"@);
            let shrunk = reaction(state, screen, mode, "shrink_height"@);
            &&& grown is Some && shrunk is Some
            &&& !state.fullscreen ==> {
                &&& state.height == rows ==> grown->0.outcome is None && grown->0.state == state
                &&& state.height < rows ==> {
                    &&& grown->0.state == state
                    &&& grown->0.outcome matches Some(outcome)
                    &&& outcome is Resize
                    &&& done(state, outcome).height == state.height + 1
                    &&& done(state, outcome).status == "height "@ + decimal(
                        (state.height + 1) as nat,
                    )
                }
                &&& state.height == 5 ==> shrunk->0.outcome is None && shrunk->0.state == state
                &&& state.height > 5 ==> {
                    &&& shrunk->0.state == state
                    &&& shrunk->0.outcome matches Some(outcome)
                    &&& outcome is Resize
                    &&& done(state, outcome).height == state.height - 1
                    &&& done(state, outcome).status == "height "@ + decimal(
                        (state.height - 1) as nat,
                    )
                }
            }
            &&& state.fullscreen ==> {
                let told = EditorState { status: "fullscreen"@, ..state };
                &&& grown->0 == (Reaction { state: told, outcome: None })
                &&& shrunk->0 == (Reaction { state: told, outcome: None })
            }
        }),
{
    lemma_names();
}

/// A viewport that fills the terminal and goes back has the height that it had.
pub proof fn law_fullscreen_and_back(state: EditorState, rows: u16, mode: Mode)
    requires
        !state.fullscreen,
        state.restore_height is None,
        state.height >= 5,
    ensures
        ({
            let screen = Some(Screen { rows: Some(rows) });
            let r = reaction(state, screen, mode, "fullscreen"@);
            let filled = done(r->0.state, r->0.outcome->0);
            let b = reaction(filled, screen, mode, "restore_inline"@);
            let back = done(b->0.state, b->0.outcome->0);
            &&& r is Some && r->0.outcome is Some && b is Some && b->0.outcome is Some
            &&& filled.fullscreen
            &&& rows >= 5 ==> filled.height == rows
            &&& rows < 5 ==> filled.height == 5
            &&& filled.last_drawn_top == 0
            &&& filled.status == "fullscreen"@
            &&& !back.fullscreen
            &&& back.height == state.height
            &&& back.restore_height is None
            &&& back.status == "height "@ + decimal(state.height as nat)
            &&& back.text == state.text && back.line == state.line && back.col == state.col
        }),
        ({
            let screen = Some(Screen { rows: Some(rows) });
            let r = reaction(state, screen, mode, "restore_inline"@);
            r == Some(
                Reaction {
                    state: EditorState { status: "already inline"@, ..state },
                    outcome: None,
                },
            )
        }),
{
    lemma_names();
}

// ---------------------------------------------------------------------------
// Commit messages
// ---------------------------------------------------------------------------

/// A line of a commit message that Git will keep.
pub open spec fn is_kept(state: EditorState, line: int) -> bool {
    !has_prefix(text_of(state.text, line), state.text_mode->comment_prefix@)
}

proof fn lemma_wide_line(state: EditorState, line: int, column: int)
    requires
        state.text_mode is CommitMessage,
    ensures
        match state.wide_body_line(line, column) {
            Some(at) => {
                &&& line <= at < line_count(state.text)
                &&& is_kept(state, at) && len_of(state.text, at) > column
                &&& forall|l: int|
                    line <= l < at && is_kept(state, l) ==> #[trigger] len_of(state.text, l)
                        <= column
            },
            None => forall|l: int|
                line <= l < line_count(state.text) && is_kept(state, l) ==> #[trigger] len_of(
                    state.text,
                    l,
                ) <= column,
        },
    decreases line_count(state.text) - line,
{
    if line < line_count(state.text) {
        lemma_wide_line(state, line + 1, column);
    }
}

/// A commit message is warned about just where its subject is too wide, where no blank
/// line follows the subject, or where a line of its body is too wide; the first of these
/// that holds is told, with the line, its width and the limit. Comments count for
/// nothing, and other texts are not warned about.
pub proof fn law_warnings(state: EditorState)
    ensures
        state.text_mode is Plain ==> state.warning() is None,
        state.text_mode is CommitMessage ==> {
            let subject = state.text_mode->subject_column;
            let body = state.text_mode->body_column;
            let wide = is_kept(state, 0) && len_of(state.text, 0) > subject;
            let tight = line_count(state.text) > 1 && is_kept(state, 1) && !is_blank(
                text_of(state.text, 1),
            );
            &&& wide ==> state.warning() == Some(
                "commit subject "@ + decimal(len_of(state.text, 0) as nat) + "/"@ + decimal(
                    subject as nat,
                ),
            )
            &&& !wide && tight ==> state.warning() == Some(
                "commit body needs blank line after subject"@,
            )
            &&& !wide && !tight && state.warning() is Some ==> exists|l: int|
                {
                    &&& 1 <= l < line_count(state.text)
                    &&& is_kept(state, l)
                    &&& #[trigger] len_of(state.text, l) > body
                    &&& state.warning()->0 == "commit body line "@ + decimal((l + 1) as nat)
                        + " "@ + decimal(len_of(state.text, l) as nat) + "/"@ + decimal(body as nat)
                    &&& forall|k: int|
                        1 <= k < l && is_kept(state, k) ==> #[trigger] len_of(state.text, k)
                            <= body
                }
            &&& state.warning() is None ==> !wide && !tight && forall|l: int|
                1 <= l < line_count(state.text) && is_kept(state, l) ==> #[trigger] len_of(
                    state.text,
                    l,
                ) <= body
        },
        state.warning() is None ==> state.shown_status() == state.status,
        state.warning() is Some ==> state.shown_status() == state.warning()->0,
{
    if state.text_mode is CommitMessage {
        lemma_wide_line(state, 1, state.text_mode->body_column as int);
    }
}

proof fn lemma_last_space(line: Seq<char>, col: int)
    ensures
        match space_before(line, col) {
            Some(at) => {
                &&& 0 < at <= col
                &&& indent_of(line) < at
                &&& line[at] == ' '
                &&& forall|k: int| at < k <= col ==> #[trigger] line[k] != ' '
            },
            None => forall|k: int|
                0 < k <= col && indent_of(line) < k ==> #[trigger] line[k] != ' ',
        },
    decreases col,
{
    if col > 0 && col > indent_of(line) && line[col] != ' ' {
        lemma_last_space(line, col - 1);
    }
}

/// A line of the body of a commit message that is wider than its column, white space at
/// its end apart, is broken at the last space at or before that column which stands
/// behind its first word: the space goes, and what follows it stands in a line of its
/// own with the same indent. Where there is no such space, or the line is not too wide,
/// the text stays.
pub proof fn law_wide_lines_are_broken(state: EditorState, cursor: int)
    requires
        state.on_line(),
        state.text_mode is CommitMessage,
        state.line > 0,
        is_kept(state, state.line),
    ensures
        ({
            let line = text_of(state.text, state.line);
            let column = state.text_mode->body_column as int;
            let start = start_of(state.text, state.line);
            let after = state.auto_wrapped(cursor);
            let breaks_at = |at: int|
                {
                    &&& 0 < at <= column
                    &&& indent_of(line) < at
                    &&& line[at] == ' '
                    &&& forall|k: int| at < k <= column ==> #[trigger] line[k] != ' '
                };
            &&& trim_end(line).len() <= column ==> after == state
            &&& trim_end(line).len() > column ==> {
                ||| after == state && forall|k: int|
                    0 < k <= column && indent_of(line) < k ==> #[trigger] line[k] != ' '
                ||| exists|at: int| #[trigger]
                    breaks_at(at) && replaces(
                        state.text,
                        after.text,
                        start + at,
                        start + at + 1,
                        "\n"@ + line.take(indent_of(line)),
                    )
            }
        }),
{
    let line = text_of(state.text, state.line);
    let column = state.text_mode->body_column as int;
    let start = start_of(state.text, state.line);
    lemma_last_space(line, column);
    lemma_line_within(state.text, state.line);
    lemma_trim_end(line);
    if trim_end(line).len() > column {
        if let Some(at) = space_before(line, column) {
            let breaks_at = |at: int|
                {
                    &&& 0 < at <= column
                    &&& indent_of(line) < at
                    &&& line[at] == ' '
                    &&& forall|k: int| at < k <= column ==> #[trigger] line[k] != ' '
                };
            assert(breaks_at(at));
        }
    }
}

/// A viewport that was drawn at its height keeps its first row when it grows and its last
/// row when it shrinks.
pub proof fn law_height_keeps_the_place(state: EditorState, rows: u16, mode: Mode)
    requires
        !state.fullscreen,
        5 < state.height < rows,
        state.last_drawn_height == state.height,
        state.last_drawn_top + state.height <= rows,
    ensures
        ({
            let screen = Some(Screen { rows: Some(rows) });
            let grown = reaction(state, screen, mode, "grow_height"@)->0.outcome->0;
            let shrunk = reaction(state, screen, mode, "shrink_height"@)->0.outcome->0;
            &&& done(state, grown).last_drawn_top == state.last_drawn_top
            &&& done(state, grown).last_drawn_height == state.height + 1
            &&& done(state, shrunk).last_drawn_top == state.last_drawn_top + 1
            &&& done(state, shrunk).last_drawn_height == state.height - 1
        }),
{
    lemma_names();
}

/// A space typed into a commit message is put in as any character is, and the line is then
/// broken where it is too wide.
pub proof fn law_space_may_break_the_line(
    state: EditorState,
    screen: Option<Screen>,
    key: KeyEvent,
)
    requires
        state.on_line(),
        state.line < usize::MAX,
        state.mark is None,
        state.text_mode is CommitMessage,
    ensures
        ({
            let r = stepped(state, screen, Mode::Edit, key, KeyStep::Type(' '));
            let at = start_of(state.text, state.line) + state.col;
            let put = EditorState {
                text: state.text.insert(at, ' '),
                col: state.col + 1,
                ..state
            };
            &&& r matches Some(r)
            &&& r.outcome is None
            &&& r.state.text == put.auto_wrapped(at + 1).text
            &&& r.state.line == put.auto_wrapped(at + 1).line
            &&& r.state.col == put.auto_wrapped(at + 1).col
            &&& is_changed(state, r.state)
        }),
{
    lemma_line_within(state.text, state.line);
    let base = state.recorded();
    assert(base.region() is None);
    assert(base.undo.drop_last() =~= state.undo);
    assert(base.region_deleted() == base);
}

/// A viewport that is asked back to its height without filling the screen takes that height.
pub proof fn law_height_is_restored(state: EditorState, rows: u16, height: u16, mode: Mode)
    requires
        !state.fullscreen,
        state.restore_height == Some(height),
        5 <= height <= rows,
    ensures
        ({
            let screen = Some(Screen { rows: Some(rows) });
            let r = reaction(state, screen, mode, "restore_inline"@);
            &&& r matches Some(r)
            &&& r.state.restore_height is None
            &&& height != state.height ==> (r.outcome matches Some(outcome) && done(
                r.state,
                outcome,
            ).height == height)
            &&& height == state.height ==> r.outcome is None && r.state.status == "height "@
                + decimal(height as nat)
        }),
{
    lemma_names();
}

/// Filling tells the column that it filled to, and whether there was something to fill: the
/// column that is configured, or in a commit message that of its body. It changes the text
/// only where it tells that it did.
pub proof fn law_filling_is_told(state: EditorState, screen: Option<Screen>)
    requires
        0 <= state.line < usize::MAX,
    ensures
        ({
            let column = match state.text_mode {
                TextMode::Plain { fill_column } => fill_column,
                TextMode::CommitMessage { body_column, .. } => body_column,
            };
            let r = reaction(state, screen, Mode::Edit, "fill_paragraph"@);
            r matches Some(r) ==> {
                &&& r.outcome is None
                &&& state.paragraph(state.line) is None ==> r.state == (EditorState {
                    status: "no paragraph"@,
                    ..state
                })
                &&& r.state.text != state.text ==> {
                    &&& is_changed(state, r.state)
                    &&& r.state.status == "filled paragraph to "@ + decimal(column as nat)
                }
                &&& state.paragraph(state.line) is Some ==> {
                    ||| r.state == (EditorState { status: "no paragraph"@, ..state })
                    ||| r.state == (EditorState {
                        status: "already filled to "@ + decimal(column as nat),
                        ..state
                    })
                    ||| r.state.status == "filled paragraph to "@ + decimal(column as nat)
                        && is_changed(state, r.state)
                }
            }
        }),
{
    assert(reaction(state, screen, Mode::Edit, "fill_paragraph"@) == given(
        state.line < usize::MAX && state.index() <= usize::MAX,
        settled(state.filled()),
    )) by {
        lemma_names();
    }
    assert(state.recorded().undo.drop_last() =~= state.undo);
    if state.paragraph(state.line) is Some && state.text_mode is CommitMessage {
        assert(state.line > 0);
    }
}

/// Where a line is broken before the cursor, what stands behind the cursor stays what it
/// was; where it is broken behind it, what stands before the cursor does.
pub proof fn law_cursor_goes_with_the_break(state: EditorState)
    requires
        state.placed(),
        state.text_mode is CommitMessage,
        state.line > 0,
        is_kept(state, state.line),
        state.col > 0,
        state.text[start_of(state.text, state.line) + state.col - 1] == ' ',
    ensures
        ({
            let cursor = start_of(state.text, state.line) + state.col;
            let after = state.auto_wrapped(cursor);
            let to = start_of(after.text, after.line) + after.col;
            &&& after.on_line()
            &&& after.text.skip(to) == state.text.skip(cursor) || after.text.take(to)
                == state.text.take(cursor)
            &&& state.col > state.text_mode->body_column + 1 ==> after.text.skip(to)
                == state.text.skip(cursor)
        }),
{
    lemma_line_within(state.text, state.line);
    let cursor = state.index();
    assert(state.is_body(state.line));
    lemma_auto_wrapped(state);
    let line = text_of(state.text, state.line);
    let column = state.text_mode->body_column as int;
    lemma_last_space(line, column);
    lemma_trim_end(line);
    lemma_trim_start(line);
    let after = state.auto_wrapped(cursor);
    reveal_strlit("\n");
    if let Some(col) = wrap_point(line, column) {
        let at = start_of(state.text, state.line) + col;
        let indent = line.take(indent_of(line));
        if cursor > at {
            assert(after.text.skip(cursor + indent.len()) =~= state.text.skip(cursor));
        } else {
            assert(after.text.take(cursor) =~= state.text.take(cursor));
        }
    }
}

/// Filling leaves the cursor as many characters behind the begin of the paragraph as it
/// stood before, or at the end of the paragraph where that is shorter now.
pub proof fn law_cursor_stays_while_filling(state: EditorState)
    requires
        state.placed(),
        state.filled().text != state.text,
    ensures
        ({
            let (first, end) = state.paragraph(state.line)->0;
            let from = start_of(state.text, first);
            let before = start_of(state.text, state.line) + state.col;
            let after = start_of(state.filled().text, state.filled().line) + state.filled().col;
            let to = start_of(state.text, end - 1) + len_of(state.text, end - 1);
            let len = state.filled().text.len() - state.text.len() + (to - from);
            &&& state.filled().on_line()
            &&& before - from <= len ==> after == before
            &&& before - from > len ==> after == from + len
        }),
{
    lemma_state_filled(state);
    let (first, end) = state.paragraph(state.line)->0;
    lemma_paragraph_start(state, state.line);
    lemma_paragraph_end(state, state.line + 1);
    lemma_line_within(state.text, state.line);
    lemma_line_within(state.text, first);
    lemma_line_within(state.text, end - 1);
    lemma_line_start_grows(state.text, first, state.line);
    lemma_line_start_grows(state.text, first, end - 1);
}

/// A viewport that is to fill the screen keeps the height that it is to go back to, where
/// there is one already; one that fills it says so.
pub proof fn law_height_is_kept_once(state: EditorState, rows: u16, height: u16, mode: Mode)
    ensures
        ({
            let screen = Some(Screen { rows: Some(rows) });
            let r = reaction(state, screen, mode, "fullscreen"@);
            &&& r is Some
            &&& !state.fullscreen && state.restore_height == Some(height)
                ==> r->0.state.restore_height == Some(height)
            &&& !state.fullscreen && state.restore_height is None ==> r->0.state.restore_height
                == Some(state.height)
            &&& state.fullscreen ==> r->0 == (Reaction {
                state: EditorState { status: "fullscreen"@, ..state },
                outcome: None,
            })
        }),
{
    lemma_names();
}

/// Without a terminal the height stays as it is.
pub proof fn law_no_height_without_terminal(state: EditorState, mode: Mode)
    ensures
        ({
            let still = Some(Reaction { state, outcome: None });
            &&& reaction(state, None, mode, "grow_height"@) == still
            &&& reaction(state, None, mode, "shrink_height"@) == still
            &&& reaction(state, None, mode, "fullscreen"@) == still
            &&& reaction(state, None, mode, "restore_inline"@) == still
        }),
{
    lemma_names();
}

} // verus!
