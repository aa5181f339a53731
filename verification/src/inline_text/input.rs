//! What a key does in the editor and the pager.

use vstd::prelude::*;

use crate::config::{pending_status, KeyCode, KeyEvent, Keymap, KeymapMatch};
#[allow(unused_imports)]
use crate::config::{lookup, normal_key, pending_text, Bound, MatchView};
use crate::inline_text::buffer::resize_anchor_row;
#[allow(unused_imports)]
use crate::inline_text::buffer::{anchor_row, len_of};
use crate::inline_text::editor::{Editor, SearchDirection};
use crate::inline_text::keys::{inline_normal_actions, inline_search_actions, inline_view_actions};
#[allow(unused_imports)]
use crate::inline_text::keys::{normal_actions, search_actions, view_actions};
#[allow(unused_imports)]
use crate::inline_text::model::EditorState;
use crate::inline_text::{Mode, MIN_HEIGHT};
#[allow(unused_imports)]
use crate::text::decimal;
use crate::text::{concat2, decimal_of, same};

verus! {

/// What is left to do outside the editor after an action.
#[derive(Clone, Copy, Debug, PartialEq, Eq, Structural)]
pub enum Outcome {
    /// Leave the editor.
    Quit,
    /// Write the text to its file.
    Save,
    /// Give the inline viewport another height and first row.
    Resize { height: u16, anchor: u16 },
    /// Take the whole terminal, which has this height.
    EnterFullscreen { height: u16 },
    /// Go back to an inline viewport of this height.
    LeaveFullscreen { height: u16 },
}

/// The cursor has left the text, so that an action cannot be done.
#[derive(Clone, Copy, Debug, PartialEq, Eq, Structural)]
pub struct CursorLost;

/// The terminal that the editor is drawn on.
#[derive(Clone, Copy, Debug, PartialEq, Eq, Structural)]
pub struct Screen {
    /// The number of its rows, if it is known.
    pub rows: Option<u16>,
}

/// An editor, and what is left to do outside it.
pub struct Reaction {
    pub state: EditorState,
    pub outcome: Option<Outcome>,
}

/// Nothing is left to do.
pub open spec fn settled(state: EditorState) -> Reaction {
    Reaction { state, outcome: None }
}

// ---------------------------------------------------------------------------
// The height of the viewport
// ---------------------------------------------------------------------------

impl Screen {
    /// The number of rows, or the height of the editor where it is not known.
    pub open spec fn height(self, state: EditorState) -> u16 {
        match self.rows {
            Some(rows) => rows,
            None => state.height,
        }
    }
}

/// The height that a request for a height leads to: no less than the least
/// height, and no more than the terminal has.
pub open spec fn allowed_height(requested: u16, max: u16) -> u16 {
    let height = if requested < MIN_HEIGHT {
        MIN_HEIGHT
    } else {
        requested
    };
    if height < max {
        height
    } else {
        max
    }
}

/// The greater of two numbers.
pub open spec fn at_least(a: u16, b: u16) -> u16 {
    if a < b {
        b
    } else {
        a
    }
}

/// What a request for another height leads to.
pub open spec fn resizing(state: EditorState, screen: Screen, requested: u16) -> Reaction {
    let height = allowed_height(requested, screen.height(state));
    if state.fullscreen {
        settled(state.saying("fullscreen"@))
    } else if height == state.height {
        settled(state)
    } else {
        Reaction {
            state,
            outcome: Some(
                Outcome::Resize {
                    height,
                    anchor: anchor_row(
                        state.last_drawn_top as int,
                        state.last_drawn_height as int,
                        height as int,
                        at_least(screen.height(state), 1) as int,
                    ) as u16,
                },
            ),
        }
    }
}

/// What a request for the whole terminal leads to.
pub open spec fn filling_screen(state: EditorState, screen: Screen) -> Reaction {
    if state.fullscreen {
        settled(state.saying("fullscreen"@))
    } else {
        Reaction {
            state: EditorState {
                restore_height: if state.restore_height is None {
                    Some(state.height)
                } else {
                    state.restore_height
                },
                ..state
            },
            outcome: Some(
                Outcome::EnterFullscreen { height: at_least(screen.height(state), MIN_HEIGHT) },
            ),
        }
    }
}

/// The status that tells the height.
pub open spec fn height_status(height: u16) -> Seq<char> {
    "height "@ + decimal(height as nat)
}

/// What a request for the inline viewport leads to.
pub open spec fn restoring(state: EditorState, screen: Screen) -> Reaction {
    match state.restore_height {
        None => settled(state.saying("already inline"@)),
        Some(height) => {
            let state = EditorState { restore_height: None, ..state };
            if state.fullscreen {
                Reaction { state, outcome: Some(Outcome::LeaveFullscreen { height }) }
            } else {
                let reaction = resizing(state, screen, height);
                match reaction.outcome {
                    Some(_) => reaction,
                    None => settled(reaction.state.saying(height_status(state.height))),
                }
            }
        },
    }
}

/// The editor after what was left to do has been done.
pub open spec fn done(state: EditorState, outcome: Outcome) -> EditorState {
    match outcome {
        Outcome::Quit => state,
        Outcome::Save => state.saved(),
        Outcome::Resize { height, anchor } => EditorState {
            height,
            last_drawn_height: height,
            last_drawn_top: anchor,
            status: height_status(height),
            ..state
        },
        Outcome::EnterFullscreen { height } => EditorState {
            height,
            last_drawn_height: height,
            last_drawn_top: 0,
            fullscreen: true,
            status: "fullscreen"@,
            ..state
        },
        Outcome::LeaveFullscreen { height } => EditorState {
            height: at_least(height, MIN_HEIGHT),
            last_drawn_height: at_least(height, MIN_HEIGHT),
            last_drawn_top: 0,
            fullscreen: false,
            status: height_status(at_least(height, MIN_HEIGHT)),
            ..state
        },
    }
}

fn greater(a: u16, b: u16) -> (r: u16)
    ensures
        r == at_least(a, b),
{
    if a < b {
        b
    } else {
        a
    }
}

fn screen_height(app: &Editor, screen: Screen) -> (r: u16)
    ensures
        r == screen.height(app@),
{
    match screen.rows {
        Some(rows) => rows,
        None => app.height,
    }
}

/// Asks for another height of the viewport.
pub fn resize_inline_editor(app: &mut Editor, screen: Screen, requested_height: u16) -> (r: Option<
    Outcome,
>)
    ensures
        resizing(old(app)@, screen, requested_height).state == final(app)@,
        resizing(old(app)@, screen, requested_height).outcome == r,
{
    if app.fullscreen {
        app.status = "fullscreen".to_string();
        return None;
    }
    let rows = screen_height(app, screen);
    let wanted = greater(requested_height, MIN_HEIGHT);
    let height: u16 = if wanted < rows {
        wanted
    } else {
        rows
    };
    if height == app.height {
        return None;
    }
    let anchor = resize_anchor_row(
        app.last_drawn_top,
        app.last_drawn_height,
        height,
        greater(rows, 1),
    );
    Some(Outcome::Resize { height, anchor })
}

/// Asks for the whole terminal.
pub fn fullscreen_inline_editor(app: &mut Editor, screen: Screen) -> (r: Option<Outcome>)
    ensures
        filling_screen(old(app)@, screen).state == final(app)@,
        filling_screen(old(app)@, screen).outcome == r,
{
    let target = greater(screen_height(app, screen), MIN_HEIGHT);
    if app.fullscreen {
        app.status = "fullscreen".to_string();
        return None;
    }
    if app.restore_height.is_none() {
        app.restore_height = Some(app.height);
    }
    Some(Outcome::EnterFullscreen { height: target })
}

/// Asks for the inline viewport.
pub fn restore_inline_editor(app: &mut Editor, screen: Screen) -> (r: Option<Outcome>)
    ensures
        restoring(old(app)@, screen).state == final(app)@,
        restoring(old(app)@, screen).outcome == r,
{
    let Some(height) = app.restore_height.take() else {
        app.status = "already inline".to_string();
        return None;
    };
    if app.fullscreen {
        return Some(Outcome::LeaveFullscreen { height });
    }
    let outcome = resize_inline_editor(app, screen, height);
    if outcome.is_none() {
        let number = decimal_of(app.height as u64);
        app.status = concat2("height ", number.as_str());
    }
    outcome
}

/// Tells the editor that what was left to do has been done.
pub fn complete(app: &mut Editor, outcome: Outcome)
    ensures
        final(app)@ == done(old(app)@, outcome),
{
    match outcome {
        Outcome::Quit => {},
        Outcome::Save => {
            app.save();
        },
        Outcome::Resize { height, anchor } => {
            app.height = height;
            app.last_drawn_height = height;
            app.last_drawn_top = anchor;
            let number = decimal_of(height as u64);
            app.status = concat2("height ", number.as_str());
        },
        Outcome::EnterFullscreen { height } => {
            app.height = height;
            app.last_drawn_height = height;
            app.last_drawn_top = 0;
            app.fullscreen = true;
            app.status = "fullscreen".to_string();
        },
        Outcome::LeaveFullscreen { height } => {
            let height = greater(height, MIN_HEIGHT);
            app.height = height;
            app.last_drawn_height = height;
            app.last_drawn_top = 0;
            app.fullscreen = false;
            let number = decimal_of(height as u64);
            app.status = concat2("height ", number.as_str());
        },
    }
}

// ---------------------------------------------------------------------------
// Actions
// ---------------------------------------------------------------------------

/// Whether a result and an editor are what a reaction says. Where there is none, the
/// editor is as it was.
pub open spec fn answers(
    reaction: Option<Reaction>,
    result: Result<Option<Outcome>, CursorLost>,
    before: EditorState,
    state: EditorState,
) -> bool {
    match reaction {
        Some(reaction) => result == Ok::<Option<Outcome>, CursorLost>(reaction.outcome) && state
            == reaction.state,
        None => result is Err && state == before,
    }
}

/// What an action on the terminal leads to, if there is a terminal.
pub open spec fn on_screen(
    state: EditorState,
    screen: Option<Screen>,
    act: spec_fn(Screen) -> Reaction,
) -> Reaction {
    match screen {
        Some(screen) => act(screen),
        None => settled(state),
    }
}

/// A reaction that comes only where the cursor stands as it must.
pub open spec fn given(stands: bool, reaction: Reaction) -> Option<Reaction> {
    if stands {
        Some(reaction)
    } else {
        None
    }
}

/// What an action leads to; `None` where the cursor does not stand where the
/// action needs it.
pub open spec fn reaction(
    state: EditorState,
    screen: Option<Screen>,
    mode: Mode,
    action: Seq<char>,
) -> Option<Reaction> {
    if action == "quit"@ {
        Some(Reaction { state, outcome: Some(Outcome::Quit) })
    } else if action == "quit_view"@ && mode is View {
        Some(Reaction { state, outcome: Some(Outcome::Quit) })
    } else if action == "save"@ && mode is Edit {
        Some(Reaction { state, outcome: Some(Outcome::Save) })
    } else if action == "save"@ {
        Some(settled(state.saying("read-only"@)))
    } else if action == "search_forward"@ && state.search is Some {
        given(state.line < usize::MAX, settled(state.search_repeated(SearchDirection::Forward)))
    } else if action == "search_forward"@ {
        Some(settled(state.search_begun(SearchDirection::Forward)))
    } else if action == "search_reverse"@ && state.search is Some {
        given(state.line < usize::MAX, settled(state.search_repeated(SearchDirection::Reverse)))
    } else if action == "search_reverse"@ {
        Some(settled(state.search_begun(SearchDirection::Reverse)))
    } else if action == "cancel_search"@ {
        Some(settled(state.search_cancelled()))
    } else if action == "finish_search"@ {
        Some(settled(state.search_finished()))
    } else if action == "cancel_mark"@ {
        Some(settled(state.mark_cancelled()))
    } else if action == "set_mark"@ {
        Some(settled(state.mark_toggled()))
    } else if action == "undo"@ && mode is Edit {
        Some(settled(state.undone()))
    } else if action == "redo"@ && mode is Edit {
        Some(settled(state.redone()))
    } else if action == "line_start"@ {
        Some(settled(EditorState { col: 0, ..state }))
    } else if action == "line_end"@ {
        Some(settled(EditorState { col: len_of(state.text, state.line), ..state }))
    } else if action == "word_left"@ {
        given(state.has_left(), settled(state.moved_word_left()))
    } else if action == "word_right"@ {
        Some(settled(state.moved_word_right()))
    } else if action == "char_left"@ {
        Some(settled(state.moved_left()))
    } else if action == "char_right"@ {
        given(state.line < usize::MAX, settled(state.moved_right()))
    } else if action == "line_up"@ {
        Some(settled(state.moved_up()))
    } else if action == "line_down"@ {
        given(state.line < usize::MAX, settled(state.moved_down()))
    } else if action == "page_up"@ {
        Some(settled(state.paged_up()))
    } else if action == "page_down"@ {
        given(state.line + state.page() <= usize::MAX, settled(state.paged_down()))
    } else if action == "copy_region"@ {
        given((state.mark is Some ==> state.fits()), settled(state.region_copied()))
    } else if action == "kill_region"@ && mode is Edit {
        given((state.mark is Some ==> state.fits()), settled(state.region_killed()))
    } else if action == "kill_to_eol"@ && mode is Edit {
        given(state.joins_forward(), settled(state.rest_killed()))
    } else if action == "yank"@ && mode is Edit {
        given(state.takes_yank(), settled(state.yanked()))
    } else if action == "delete_char"@ && mode is Edit {
        given(state.deletes_forward(), settled(state.deleted()))
    } else if action == "backspace"@ && state.search is Some {
        given(state.search_runs(), settled(state.search_backspaced()))
    } else if action == "backspace"@ && mode is Edit {
        given(
            (state.fits() && (state.region() is None && state.col == 0 && state.line > 0
                ==> state.joins_back())),
            settled(state.backspaced()),
        )
    } else if action == "insert_newline"@ && mode is Edit {
        given(state.fits(), settled(state.newlined()))
    } else if action == "insert_tab"@ && mode is Edit {
        given(
            (forall|n: nat| n < 4 ==> #[trigger] state.typed_times(' ', n).fits()),
            settled(state.typed_times(' ', 4)),
        )
    } else if action == "shrink_height"@ {
        Some(
            on_screen(
                state,
                screen,
                |s: Screen|
                    resizing(
                        state,
                        s,
                        (if state.height > 0 {
                            state.height - 1
                        } else {
                            0
                        }) as u16,
                    ),
            ),
        )
    } else if action == "grow_height"@ {
        Some(
            on_screen(
                state,
                screen,
                |s: Screen|
                    resizing(
                        state,
                        s,
                        (if state.height < u16::MAX {
                            state.height + 1
                        } else {
                            u16::MAX as int
                        }) as u16,
                    ),
            ),
        )
    } else if action == "fullscreen"@ {
        Some(on_screen(state, screen, |s: Screen| filling_screen(state, s)))
    } else if action == "restore_inline"@ {
        Some(on_screen(state, screen, |s: Screen| restoring(state, s)))
    } else if action == "fill_paragraph"@ && mode is Edit {
        given(state.line < usize::MAX && state.index() <= usize::MAX, settled(state.filled()))
    } else {
        Some(settled(state))
    }
}

/// Does an action. It fails where the cursor has left the text, and then changes
/// nothing.
#[verifier::rlimit(60)]
pub fn handle_inline_action(
    app: &mut Editor,
    screen: Option<Screen>,
    mode: Mode,
    action: &str,
) -> (r: Result<Option<Outcome>, CursorLost>)
    ensures
        answers(reaction(old(app)@, screen, mode, action@), r, old(app)@, final(app)@),
{
    let editable = mode.is_editable();
    let searching = app.search.is_some();
    if same(action, "quit") {
        return Ok(Some(Outcome::Quit));
    } else if same(action, "quit_view") && !editable {
        return Ok(Some(Outcome::Quit));
    } else if same(action, "save") && editable {
        return Ok(Some(Outcome::Save));
    } else if same(action, "save") {
        app.status = "read-only".to_string();
    } else if same(action, "search_forward") && searching {
        if app.cursor_line == usize::MAX {
            return Err(CursorLost);
        }
        app.search_repeat(SearchDirection::Forward);
    } else if same(action, "search_forward") {
        app.begin_search(SearchDirection::Forward);
    } else if same(action, "search_reverse") && searching {
        if app.cursor_line == usize::MAX {
            return Err(CursorLost);
        }
        app.search_repeat(SearchDirection::Reverse);
    } else if same(action, "search_reverse") {
        app.begin_search(SearchDirection::Reverse);
    } else if same(action, "cancel_search") {
        app.cancel_search();
    } else if same(action, "finish_search") {
        app.finish_search();
    } else if same(action, "cancel_mark") {
        app.cancel_mark();
    } else if same(action, "set_mark") {
        app.toggle_mark();
    } else if same(action, "undo") && editable {
        app.undo();
    } else if same(action, "redo") && editable {
        app.redo();
    } else if same(action, "line_start") {
        app.cursor_col = 0;
    } else if same(action, "line_end") {
        app.cursor_col = app.line_len();
    } else if same(action, "word_left") {
        if app.cursor_col > app.line_len() {
            return Err(CursorLost);
        }
        app.move_word_left();
    } else if same(action, "word_right") {
        app.move_word_right();
    } else if same(action, "char_left") {
        app.move_left();
    } else if same(action, "char_right") {
        if app.cursor_line == usize::MAX {
            return Err(CursorLost);
        }
        app.move_right();
    } else if same(action, "line_up") {
        app.move_up();
    } else if same(action, "line_down") {
        if app.cursor_line == usize::MAX {
            return Err(CursorLost);
        }
        app.move_down();
    } else if same(action, "page_up") {
        app.page_up();
    } else if same(action, "page_down") {
        if app.cursor_line > usize::MAX - app.page_amount() {
            return Err(CursorLost);
        }
        app.page_down();
    } else if same(action, "copy_region") {
        if app.mark.is_some() && !app.cursor_fits() {
            return Err(CursorLost);
        }
        app.copy_region();
    } else if same(action, "kill_region") && editable {
        if app.mark.is_some() && !app.cursor_fits() {
            return Err(CursorLost);
        }
        app.kill_region();
    } else if same(action, "kill_to_eol") && editable {
        if !app.can_join_forward() {
            return Err(CursorLost);
        }
        app.kill_to_eol();
    } else if same(action, "yank") && editable {
        if !app.can_yank() {
            return Err(CursorLost);
        }
        app.yank();
    } else if same(action, "delete_char") && editable {
        if !app.can_delete_forward() {
            return Err(CursorLost);
        }
        app.delete_char();
    } else if same(action, "backspace") && searching {
        if !app.can_search() {
            return Err(CursorLost);
        }
        app.search_backspace();
    } else if same(action, "backspace") && editable {
        if !app.cursor_fits() || !app.can_backspace() {
            return Err(CursorLost);
        }
        app.backspace();
    } else if same(action, "insert_newline") && editable {
        if !app.cursor_fits() {
            return Err(CursorLost);
        }
        app.insert_newline();
    } else if same(action, "insert_tab") && editable {
        if !app.can_type(' ', 4) {
            return Err(CursorLost);
        }
        insert_tab(app);
    } else if same(action, "shrink_height") {
        if let Some(screen) = screen {
            let height: u16 = app.height.saturating_sub(1);
            return Ok(resize_inline_editor(app, screen, height));
        }
    } else if same(action, "grow_height") {
        if let Some(screen) = screen {
            let height: u16 = app.height.saturating_add(1);
            return Ok(resize_inline_editor(app, screen, height));
        }
    } else if same(action, "fullscreen") {
        if let Some(screen) = screen {
            return Ok(fullscreen_inline_editor(app, screen));
        }
    } else if same(action, "restore_inline") {
        if let Some(screen) = screen {
            return Ok(restore_inline_editor(app, screen));
        }
    } else if same(action, "fill_paragraph") && editable {
        if app.cursor_line == usize::MAX || !app.can_count() {
            return Err(CursorLost);
        }
        app.fill_paragraph();
    }
    Ok(None)
}

/// Types four spaces.
fn insert_tab(app: &mut Editor)
    requires
        forall|n: nat| n < 4 ==> #[trigger] old(app)@.typed_times(' ', n).fits(),
    ensures
        final(app)@ == old(app)@.typed_times(' ', 4),
{
    let ghost state = app@;
    let mut i: usize = 0;
    while i < 4
        invariant
            i <= 4,
            app@ == state.typed_times(' ', i as nat),
            forall|n: nat| n < 4 ==> #[trigger] state.typed_times(' ', n).fits(),
        decreases 4 - i,
    {
        assert(state.typed_times(' ', i as nat).fits());
        app.insert_char(' ');
        i = i + 1;
    }
}

// ---------------------------------------------------------------------------
// Keys
// ---------------------------------------------------------------------------

/// The actions that keys can lead to.
pub open spec fn open_actions(state: EditorState, mode: Mode) -> Seq<Seq<char>> {
    if state.search is Some {
        search_actions()
    } else if mode is View {
        view_actions()
    } else {
        normal_actions()
    }
}

/// A key that types a character: no modifier is held, or shift alone.
pub open spec fn types(key: KeyEvent) -> Option<char> {
    match key.code {
        KeyCode::Char(ch) => if key.modifiers.plain() {
            Some(ch)
        } else {
            None
        },
        _ => None,
    }
}

/// What a key leads to.
pub enum KeyStep {
    /// It leads to an action.
    Act(Seq<char>),
    /// More keys are awaited.
    Wait,
    /// No binding begins with the keys pressed.
    Unknown,
    /// It types a character into the text.
    Type(char),
    /// It types a character into the search.
    Seek(char),
    /// It does nothing.
    Ignore,
}

/// What a key leads to.
pub open spec fn key_step(
    state: EditorState,
    mode: Mode,
    bindings: Seq<Bound>,
    key: KeyEvent,
) -> KeyStep {
    match lookup(bindings, open_actions(state, mode), state.pending.push(normal_key(key))) {
        MatchView::Action(action) => KeyStep::Act(action),
        MatchView::Prefix => KeyStep::Wait,
        MatchView::NoMatch => if state.pending.len() > 0 {
            KeyStep::Unknown
        } else {
            match types(key) {
                Some(ch) => if state.search is Some {
                    KeyStep::Seek(ch)
                } else if mode is Edit {
                    KeyStep::Type(ch)
                } else {
                    KeyStep::Ignore
                },
                None => KeyStep::Ignore,
            }
        },
    }
}

/// What a step makes of the editor, and what is left to do; `None` where the
/// cursor does not stand where the step needs it.
pub open spec fn stepped(
    state: EditorState,
    screen: Option<Screen>,
    mode: Mode,
    key: KeyEvent,
    step: KeyStep,
) -> Option<Reaction> {
    match step {
        KeyStep::Act(action) => reaction(
            EditorState { pending: Seq::empty(), ..state },
            screen,
            mode,
            action,
        ),
        KeyStep::Wait => {
            let pending = state.pending.push(normal_key(key));
            Some(settled(EditorState { pending, status: pending_text(pending), ..state }))
        },
        KeyStep::Unknown => Some(
            settled(
                EditorState { pending: Seq::empty(), status: "unknown key sequence"@, ..state },
            ),
        ),
        KeyStep::Type(ch) => given(state.fits(), settled(state.typed(ch))),
        KeyStep::Seek(ch) => given(state.search_runs(), settled(state.search_typed(ch))),
        KeyStep::Ignore => Some(settled(state)),
    }
}

/// What a key makes of the editor, and what is left to do; `None` where the
/// cursor does not stand where the key needs it.
pub open spec fn pressed(
    state: EditorState,
    screen: Option<Screen>,
    mode: Mode,
    bindings: Seq<Bound>,
    key: KeyEvent,
) -> Option<Reaction> {
    stepped(state, screen, mode, key, key_step(state, mode, bindings, key))
}

/// The editor before a step is done: the keys that led to an action are no longer
/// awaited.
pub open spec fn unstepped(state: EditorState, step: KeyStep) -> EditorState {
    if step is Act {
        EditorState { pending: Seq::empty(), ..state }
    } else {
        state
    }
}

/// Does what a key stands for. It fails where the cursor has left the text, and then
/// changes nothing but the keys awaited.
pub fn handle_key(
    app: &mut Editor,
    key: &KeyEvent,
    screen: Option<Screen>,
    mode: Mode,
    keymap: &Keymap,
) -> (r: Result<Option<Outcome>, CursorLost>)
    ensures
        answers(
            pressed(old(app)@, screen, mode, keymap@, *key),
            r,
            unstepped(old(app)@, key_step(old(app)@, mode, keymap@, *key)),
            final(app)@,
        ),
{
    match handle_key_binding(app, key, screen, mode, keymap) {
        Some(result) => {
            return result;
        },
        None => {},
    }
    let KeyCode::Char(ch) = key.code else {
        return Ok(None);
    };
    if !key.modifiers.is_plain() {
        return Ok(None);
    }
    if app.search.is_some() {
        if !app.can_search() {
            return Err(CursorLost);
        }
        app.search_insert_char(ch);
    } else if mode.is_editable() {
        if !app.cursor_fits() {
            return Err(CursorLost);
        }
        app.insert_char(ch);
    }
    Ok(None)
}

/// Does what the bindings say of a key; `None` where they say nothing of it.
fn handle_key_binding(
    app: &mut Editor,
    key: &KeyEvent,
    screen: Option<Screen>,
    mode: Mode,
    keymap: &Keymap,
) -> (r: Option<Result<Option<Outcome>, CursorLost>>)
    ensures
        ({
            let step = key_step(old(app)@, mode, keymap@, *key);
            match r {
                Some(result) => {
                    &&& step is Act || step is Wait || step is Unknown
                    &&& answers(
                        stepped(old(app)@, screen, mode, *key, step),
                        result,
                        unstepped(old(app)@, step),
                        final(app)@,
                    )
                },
                None => {
                    &&& final(app)@ == old(app)@
                    &&& step is Type || step is Seek || step is Ignore
                },
            }
        }),
{
    let actions = if app.search.is_some() {
        inline_search_actions()
    } else if !mode.is_editable() {
        inline_view_actions()
    } else {
        inline_normal_actions()
    };
    match keymap.match_key_for_actions(actions.as_slice(), &app.pending_keys, key) {
        KeymapMatch::Prefix => {
            if let Some(press) = keymap.keypress_from_event(key) {
                app.pending_keys.push(press);
                app.status = pending_status(&app.pending_keys);
            }
            Some(Ok(None))
        },
        KeymapMatch::Action(action) => {
            app.pending_keys.clear();
            Some(handle_inline_action(app, screen, mode, action.as_str()))
        },
        KeymapMatch::NoMatch => {
            if app.pending_keys.len() > 0 {
                app.pending_keys.clear();
                app.status = "unknown key sequence".to_string();
                Some(Ok(None))
            } else {
                None
            }
        },
    }
}

} // verus!
