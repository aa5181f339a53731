//! What the actions of the picker do, and what it makes of what it is told.

use vstd::prelude::*;

#[allow(unused_imports)]
use crate::config::{lookup, normal_key, Bound, KeyEvent, KeyPress, MatchView};
#[allow(unused_imports)]
use crate::config::laws::binds;
#[allow(unused_imports)]
use crate::file_path::{narrow, shown};
#[allow(unused_imports)]
use crate::json::Value;
#[allow(unused_imports)]
use crate::lsp::{
    file_uri, symbol_path, CallDirection, ClientView, EventView, HitView, Pending, Request,
    SymbolKind, SymbolView,
};
#[allow(unused_imports)]
use crate::lsp::laws::{asks, place};
#[allow(unused_imports)]
use crate::navsplat::{
    editor_words, navsplat_bindings, navsplat_names, preview_first, prints, side_key_of,
    side_prepared, AppView, FocusArea, SidePaneMode, Target, ToDo, MIN_HEIGHT,
};
#[allow(unused_imports)]
use crate::navsplat::query::InputEdit;
#[allow(unused_imports)]
use crate::text::{decimal, has_suffix, join, words};

verus! {

/// How the names of the actions differ.
proof fn lemma_names()
    ensures
        "quit"@.len() == 4 && "quit"@[0] == 'q',
        "quit_if_empty"@.len() == 13,
        "open"@.len() == 4 && "open"@[0] == 'o',
        "pop"@.len() == 3,
        "toggle_focus"@.len() == 12 && "toggle_focus"@[0] == 't',
        "references"@.len() == 10 && "references"@[0] == 'r',
        "callers"@.len() == 7 && "callers"@[0] == 'c' && "callers"@[5] == 'r',
        "callees"@.len() == 7 && "callees"@[0] == 'c' && "callees"@[5] == 'e',
        "source"@.len() == 6,
        "copy"@.len() == 4 && "copy"@[0] == 'c',
        "select_prev"@.len() == 11 && "select_prev"@[7] == 'p',
        "select_next"@.len() == 11 && "select_next"@[7] == 'n',
        "preview_up"@.len() == 10 && "preview_up"@[0] == 'p',
        "preview_down"@.len() == 12 && "preview_down"@[0] == 'p',
        "page_up"@.len() == 7 && "page_up"@[0] == 'p',
        "page_down"@.len() == 9,
        "delete_next_char"@.len() == 16,
{
    reveal_strlit("quit");
    reveal_strlit("quit_if_empty");
    reveal_strlit("open");
    reveal_strlit("pop");
    reveal_strlit("toggle_focus");
    reveal_strlit("references");
    reveal_strlit("callers");
    reveal_strlit("callees");
    reveal_strlit("source");
    reveal_strlit("copy");
    reveal_strlit("select_prev");
    reveal_strlit("select_next");
    reveal_strlit("preview_up");
    reveal_strlit("preview_down");
    reveal_strlit("page_up");
    reveal_strlit("page_down");
    reveal_strlit("delete_next_char");
}

// ---------------------------------------------------------------------------
// Selecting
// ---------------------------------------------------------------------------

/// Where the symbols have the focus, an action selects the next symbol or the one
/// before, or the tenth from there, as far as there are symbols. Nothing else changes,
/// but the preview goes back to the symbol.
pub proof fn law_symbols_are_selected(app: AppView, key: KeyEvent, now: u64)
    requires
        app.focus == FocusArea::Symbols,
        app.promoted is None,
        app.selected < app.symbols.len(),
        app.symbols.len() <= usize::MAX,
    ensures
        ({
            let n = app.symbols.len();
            let (next, a) = app.acted("select_next"@, key, now);
            let (prev, b) = app.acted("select_prev"@, key, now);
            let (down, c) = app.acted("page_down"@, key, now);
            let (up, d) = app.acted("page_up"@, key, now);
            &&& a is None && b is None && c is None && d is None
            &&& app.selected + 1 < n ==> next == (AppView {
                selected: (app.selected + 1) as usize,
                preview_scroll: 0,
                ..app
            })
            &&& app.selected + 1 == n ==> next == app
            &&& app.selected > 0 ==> prev == (AppView {
                selected: (app.selected - 1) as usize,
                preview_scroll: 0,
                ..app
            })
            &&& app.selected == 0 ==> prev == app
            &&& down == (AppView {
                selected: if app.selected + 10 < n {
                    (app.selected + 10) as usize
                } else {
                    (n - 1) as usize
                },
                preview_scroll: 0,
                ..app
            })
            &&& up == (AppView {
                selected: if app.selected >= 10 {
                    (app.selected - 10) as usize
                } else {
                    0
                },
                preview_scroll: 0,
                ..app
            })
        }),
{
    lemma_names();
}

/// Where the side pane has the focus, the same actions select among its places, and the
/// symbols stay as they are.
pub proof fn law_places_are_selected(app: AppView, key: KeyEvent, now: u64)
    requires
        app.focus == FocusArea::SidePane,
        app.hit_index() < app.hit_count() <= usize::MAX,
    ensures
        ({
            let n = app.hit_count();
            let i = app.hit_index();
            let (next, a) = app.acted("select_next"@, key, now);
            let (prev, b) = app.acted("select_prev"@, key, now);
            let (down, c) = app.acted("page_down"@, key, now);
            let (up, d) = app.acted("page_up"@, key, now);
            &&& a is None && b is None && c is None && d is None
            &&& next.hit_index() == if i + 1 < n {
                i + 1
            } else {
                n - 1
            }
            &&& prev.hit_index() == if i > 0 {
                i - 1
            } else {
                0
            }
            &&& down.hit_index() == if i + 10 < n {
                i + 10
            } else {
                n - 1
            }
            &&& up.hit_index() == if i >= 10 {
                i - 10
            } else {
                0
            }
            &&& next.selected_hit() == Some(app.hits()->0[next.hit_index() as int])
            &&& prev.selected_hit() == Some(app.hits()->0[prev.hit_index() as int])
            &&& next.selected == app.selected && prev.selected == app.selected
            &&& next.symbols == app.symbols && prev.symbols == app.symbols
            &&& next.focus == FocusArea::SidePane && prev.focus == FocusArea::SidePane
            &&& next.hits() == app.hits() && prev.hits() == app.hits()
        }),
{
    lemma_names();
    let n = app.hit_count();
    let key0 = app.current_key()->0;
    let next = app.acted("select_next"@, key, now).0;
    let prev = app.acted("select_prev"@, key, now).0;
    let down = app.acted("page_down"@, key, now).0;
    let up = app.acted("page_up"@, key, now).0;
    assert(app.current_key() is Some);
    assert(next.current_key() == app.current_key());
    assert(prev.current_key() == app.current_key());
    assert(down.current_key() == app.current_key());
    assert(up.current_key() == app.current_key());
}

/// While a place is the current symbol, the symbols cannot be gone through.
pub proof fn law_current_symbol_stays(app: AppView, key: KeyEvent, now: u64)
    requires
        app.focus == FocusArea::Symbols,
        app.promoted is Some,
    ensures
        app.acted("select_next"@, key, now) == (app, None::<ToDo>),
        app.acted("select_prev"@, key, now) == (app, None::<ToDo>),
        app.acted("page_down"@, key, now) == (app, None::<ToDo>),
        app.acted("page_up"@, key, now) == (app, None::<ToDo>),
{
    lemma_names();
}

/// The preview is scrolled by one line up or down, and nothing else changes; a line down
/// behind a line up comes back.
pub proof fn law_preview_scrolls(app: AppView, key: KeyEvent, now: u64)
    requires
        app.symbols.len() > 0,
        isize::MIN < app.preview_scroll < isize::MAX,
    ensures
        ({
            let (up, a) = app.acted("preview_up"@, key, now);
            let (down, b) = app.acted("preview_down"@, key, now);
            &&& a is None && b is None
            &&& up == (AppView { preview_scroll: (app.preview_scroll - 1) as isize, ..app })
            &&& down == (AppView { preview_scroll: (app.preview_scroll + 1) as isize, ..app })
            &&& up.acted("preview_down"@, key, now).0 == app
        }),
{
    lemma_names();
}

// ---------------------------------------------------------------------------
// The side pane
// ---------------------------------------------------------------------------

/// An action for the side pane shows in it what the action is named for. Only the source
/// takes the focus from the pane.
pub proof fn law_pane_shows_what_is_asked(app: AppView, key: KeyEvent, now: u64)
    ensures
        app.acted("references"@, key, now).0.side_mode == SidePaneMode::References,
        app.acted("callers"@, key, now).0.side_mode == SidePaneMode::Callers,
        app.acted("callees"@, key, now).0.side_mode == SidePaneMode::Callees,
        app.acted("source"@, key, now).0.side_mode == SidePaneMode::Source,
        app.acted("references"@, key, now).0.focus == app.focus,
        app.acted("callers"@, key, now).0.focus == app.focus,
        app.acted("callees"@, key, now).0.focus == app.focus,
        app.side_mode != SidePaneMode::Source ==> app.acted("source"@, key, now).0.focus
            == FocusArea::Symbols,
        app.acted("references"@, key, now).0.active() == app.active(),
        app.acted("callers"@, key, now).0.active() == app.active(),
        app.acted("callees"@, key, now).0.active() == app.active(),
        app.acted("source"@, key, now).0.active() == app.active(),
        app.acted("references"@, key, now).1 is None,
        app.acted("callers"@, key, now).1 is None,
        app.acted("callees"@, key, now).1 is None,
        app.acted("source"@, key, now).1 is None,
{
    lemma_names();
}

/// The focus goes to the side pane only where it has places, and goes back from there.
pub proof fn law_focus_goes_to_and_fro(app: AppView, key: KeyEvent, now: u64)
    ensures
        ({
            let (there, a) = app.acted("toggle_focus"@, key, now);
            &&& a is None
            &&& app.side_mode == SidePaneMode::Source ==> there == app
            &&& app.side_mode != SidePaneMode::Source ==> {
                &&& app.focus == FocusArea::SidePane ==> there.focus == FocusArea::Symbols
                &&& app.focus == FocusArea::Symbols && app.hit_count() > 0 ==> there.focus
                    == FocusArea::SidePane
                &&& app.focus == FocusArea::Symbols && app.hit_count() == 0 ==> there.focus
                    == FocusArea::Symbols
                &&& there == (AppView { focus: there.focus, preview_scroll: 0, ..app })
            }
        }),
{
    lemma_names();
}

// ---------------------------------------------------------------------------
// Opening, copying and leaving
// ---------------------------------------------------------------------------

/// Opening leaves the picker with the file and the line of the current symbol. Where the
/// side pane has the focus, its selected place becomes the current symbol instead, and
/// the symbol before it is kept to be gone back to.
pub proof fn law_opening(app: AppView, key: KeyEvent, now: u64)
    ensures
        ({
            let (after, left) = app.acted("open"@, key, now);
            &&& app.focus == FocusArea::Symbols ==> {
                &&& after == app
                &&& left == Some(
                    ToDo::Leave(
                        match app.active() {
                            Some(symbol) => Some(Target { file: symbol.file, line: symbol.line }),
                            None => None,
                        },
                    ),
                )
            }
            &&& app.focus == FocusArea::SidePane ==> left is None
            &&& app.focus == FocusArea::SidePane && app.selected_hit() is None ==> after == app
            &&& app.focus == FocusArea::SidePane && app.selected_hit() is Some ==> {
                let hit = app.selected_hit()->0;
                &&& after.active() matches Some(symbol)
                &&& symbol.file == hit.file
                &&& symbol.line == hit.line && symbol.end_line == hit.line
                &&& symbol.column == hit.column
                &&& symbol.container_name == hit.detail
                &&& symbol.name == match hit.name {
                    Some(name) => name,
                    None => shown(hit.file) + ":"@ + decimal(hit.line as nat),
                }
                &&& symbol.kind == match hit.kind {
                    Some(kind) => kind,
                    None => SymbolKind::Unknown,
                }
                &&& after.preview_scroll == 0
                &&& after.symbols == app.symbols && after.selected == app.selected
                &&& after.input == app.input && after.side_mode == app.side_mode
                &&& after.focus == FocusArea::Symbols
                &&& after.status == "promoted "@ + (shown(hit.file) + ":"@ + decimal(
                    hit.line as nat,
                ))
                &&& after.stack.len() == app.stack.len() + 1
                &&& after.stack.last().symbol == app.active()->0
                &&& after.stack.last().mode == app.side_mode
                &&& after.stack.last().hits == app.hits()->0
                &&& after.stack.last().selected == app.hit_index()
                &&& after.hits() is None
            }
        }),
{
    lemma_names();
}

/// Going back from the first current symbol gives the symbols back; where no place is the
/// current symbol, the key edits the query.
pub proof fn law_going_back(app: AppView, key: KeyEvent, now: u64)
    ensures
        ({
            let (after, left) = app.acted("pop"@, key, now);
            &&& left is None
            &&& app.promoted is None ==> after == app.typed(key, now)
            &&& app.promoted is Some ==> after.preview_scroll == 0 && after.input == app.input
                && after.symbols == app.symbols && after.selected == app.selected
            &&& app.promoted is Some && app.stack.len() == 0 ==> {
                &&& after.promoted is None
                &&& after.focus == FocusArea::Symbols
                &&& after.symbols == app.symbols && after.selected == app.selected
                &&& after.status == decimal(app.symbols.len()) + " match(es)"@
                &&& after.hits() is None
            }
            &&& app.promoted is Some && app.stack.len() > 0 ==> {
                let frame = app.stack[app.stack.len() - 1];
                &&& after.active() == Some(frame.symbol)
                &&& after.side_mode == frame.mode
                &&& after.focus == FocusArea::SidePane
                &&& after.stack == app.stack.take(app.stack.len() - 1)
                &&& frame.mode != SidePaneMode::Source ==> after.hits() == Some(frame.hits)
                    && after.hit_index() == frame.selected
                &&& after.status == "popped to previous selection"@
            }
        }),
{
    lemma_names();
    if app.stack.len() > 0 {
        assert(app.stack.drop_last() =~= app.stack.take(app.stack.len() - 1));
    }
}

/// What is copied is the place that opening would go to: its file, line, column, name
/// and kind, in one line. Nothing else changes; where nothing is selected, only that is
/// told.
pub proof fn law_copying(app: AppView, key: KeyEvent, now: u64)
    ensures
        ({
            let (after, left) = app.acted("copy"@, key, now);
            let hit = app.selected_hit();
            let symbol = app.active();
            &&& app.focus == FocusArea::SidePane && hit is Some ==> {
                &&& after == app
                &&& left == Some(
                    ToDo::Copy(
                        shown(hit->0.file) + ":"@ + decimal(hit->0.line as nat) + ":"@ + decimal(
                            hit->0.column as nat,
                        ) + "\t"@ + (match hit->0.name {
                            Some(name) => name,
                            None => ""@,
                        }) + " ["@ + (match hit->0.kind {
                            Some(kind) => kind.name(),
                            None => "Location"@,
                        }) + "]"@,
                    ),
                )
            }
            &&& (app.focus == FocusArea::Symbols || hit is None) && symbol is Some ==> {
                &&& after == app
                &&& left == Some(
                    ToDo::Copy(
                        shown(symbol->0.file) + ":"@ + decimal(symbol->0.line as nat) + ":"@
                            + decimal(symbol->0.column as nat) + "\t"@ + symbol->0.name + " ["@
                            + symbol->0.kind.name() + "]"@,
                    ),
                )
            }
            &&& symbol is None ==> {
                &&& left is None
                &&& after == (AppView { status: "nothing selected to copy"@, ..app })
            }
        }),
{
    lemma_names();
}

/// The picker can be left at any time, and by a letter only where the query is empty; it
/// then opens nothing.
pub proof fn law_leaving(app: AppView, key: KeyEvent, now: u64)
    ensures
        app.acted("quit"@, key, now) == (app, Some(ToDo::Leave(None))),
        app.input.text.len() == 0 ==> app.acted("quit_if_empty"@, key, now) == (
            app,
            Some(ToDo::Leave(None)),
        ),
        app.input.text.len() > 0 ==> app.acted("quit_if_empty"@, key, now) == (
            app.typed(key, now),
            None::<ToDo>,
        ),
        app.promoted is None ==> app.acted("delete_next_char"@, key, now) == (
            app.edited(InputEdit::DeleteNextChar, now),
            None::<ToDo>,
        ),
        app.promoted is Some ==> app.acted("delete_next_char"@, key, now) == (app, None::<ToDo>),
{
    lemma_names();
}

// ---------------------------------------------------------------------------
// The query
// ---------------------------------------------------------------------------

/// A query that is typed on waits for a hundred and forty milliseconds, and is then sent
/// unless it is the one that was sent last; what stood for the current symbol is given
/// up.
pub proof fn law_query_waits(app: AppView, c: char, now: u64, then: u64)
    requires
        now + 140 <= u64::MAX,
        0 <= app.input.cursor <= app.input.text.len(),
    ensures
        ({
            let after = app.edited(InputEdit::InsertChar(c), now);
            let at = app.input.cursor;
            &&& after.input.text.len() == app.input.text.len() + 1
            &&& after.input.text[at] == c
            &&& forall|i: int| 0 <= i < at ==> #[trigger] after.input.text[i] == app.input.text[i]
            &&& forall|i: int|
                at <= i < app.input.text.len() ==> #[trigger] app.input.text[i]
                    == after.input.text[i + 1]
            &&& after.input.cursor == at + 1
            &&& after.asks(then) <==> then >= now + 140 && after.input.text
                != after.last_sent_query
            &&& after.promoted is None && after.stack.len() == 0
            &&& after.loading && after.status == "searching..."@
            &&& after.empty_retry_count == 0
            &&& after.symbols == app.symbols && after.last_sent_query == app.last_sent_query
        }),
{
}

/// A query that was sent is the one that an answer is awaited to, and is not sent again;
/// one that could not be sent tells why.
pub proof fn law_query_is_sent(app: AppView, id: i64, why: Seq<char>, then: u64)
    ensures
        ({
            let after = app.asked(id, Ok(()));
            &&& !after.asks(then)
            &&& after.last_request_id == id
            &&& after.last_sent_query == app.input.text
            &&& after.loading && !after.completions_ready
            &&& after.symbols == app.symbols && after.input == app.input
        }),
        ({
            let after = app.asked(id, Err(why));
            &&& !after.asks(then)
            &&& after.status == why
            &&& !after.loading
            &&& after.last_request_id == app.last_request_id
            &&& after.last_sent_query == app.last_sent_query
        }),
{
}

// ---------------------------------------------------------------------------
// What the picker is told
// ---------------------------------------------------------------------------

/// The answer to the last request shows its symbols, keeps what is selected as far as
/// there are so many, and tells how many there are. A place that is the current symbol
/// stays it.
pub proof fn law_answer_is_shown(app: AppView, symbols: Seq<SymbolView>, now: u64)
    requires
        0 < symbols.len() <= usize::MAX,
    ensures
        ({
            let after = app.told(
                EventView::Symbols {
                    request_id: app.last_request_id,
                    query: app.last_sent_query,
                    symbols,
                },
                now,
            );
            &&& after.symbols == symbols
            &&& after.promoted == app.promoted
            &&& app.promoted is Some ==> after == (AppView { symbols, ..app })
            &&& app.promoted is None ==> {
                &&& app.selected < symbols.len() ==> after.selected == app.selected
                &&& app.selected >= symbols.len() ==> after.selected == symbols.len() - 1
                &&& after.active() == Some(symbols[after.selected as int])
                &&& after.status == decimal(symbols.len()) + " match(es)"@
                &&& !after.loading && after.completions_ready
                &&& after.empty_retry_count == 0
                &&& after.focus == FocusArea::Symbols
                &&& after.hits() is None && after.stack.len() == 0
            }
        }),
{
}

/// An empty answer to a query is asked for anew, five times and as long as the server is
/// at work; the symbols stay until then. An empty answer to an empty query is shown.
pub proof fn law_empty_answer_is_asked_again(app: AppView, now: u64, then: u64)
    requires
        now + 140 <= u64::MAX,
    ensures
        ({
            let busy = app.tokens != Set::<Seq<char>>::empty();
            let after = app.told(
                EventView::Symbols {
                    request_id: app.last_request_id,
                    query: app.last_sent_query,
                    symbols: Seq::<SymbolView>::empty(),
                },
                now,
            );
            &&& app.last_sent_query.len() > 0 && (busy || app.empty_retry_count < 5) ==> {
                &&& after.symbols == app.symbols
                &&& after.last_sent_query.len() == 0
                &&& after.asks(then) <==> then >= now + 140 && app.input.text.len() > 0
                &&& app.empty_retry_count < u8::MAX ==> after.empty_retry_count
                    == app.empty_retry_count + 1
                &&& after.loading && !after.completions_ready
                &&& after.status == "rust-analyzer warming up; retrying search..."@
            }
            &&& !busy && (app.empty_retry_count >= 5 || app.last_sent_query.len() == 0) ==> {
                &&& after.symbols.len() == 0
                &&& app.promoted is None ==> {
                    &&& after.selected == 0
                    &&& after.status == decimal(0) + " match(es)"@
                    &&& !after.loading && after.completions_ready
                }
            }
        }),
{
    let empty = Seq::<SymbolView>::empty();
    if app.input.text.len() == 0 {
        assert(app.input.text =~= Seq::<char>::empty());
    }
}

/// The places that the side pane asked for are shown under what they were asked by, with
/// the first one selected. What is told of another pane changes nothing that is seen.
pub proof fn law_places_are_shown(app: AppView, key: Seq<char>, hits: Seq<HitView>, now: u64)
    ensures
        ({
            let after = app.told(EventView::References { key, hits }, now);
            let callers = app.told(
                EventView::CallHierarchy { key, direction: CallDirection::Incoming, hits },
                now,
            );
            let callees = app.told(
                EventView::CallHierarchy { key, direction: CallDirection::Outgoing, hits },
                now,
            );
            &&& app.current_key() == Some(key) ==> {
                &&& after.hits() == Some(hits) && after.hit_index() == 0
                &&& callers.hits() == Some(hits) && callers.hit_index() == 0
                &&& callees.hits() == Some(hits) && callees.hit_index() == 0
                &&& after.status == "references"@ + " loaded"@
                &&& callers.status == "callers"@ + " loaded"@
                &&& callees.status == "callees"@ + " loaded"@
                &&& after.loading == (app.tokens != Set::<Seq<char>>::empty())
            }
            &&& app.current_key() != Some(key) ==> {
                &&& after.hits() == app.hits() && after.hit_index() == app.hit_index()
                &&& after.status == app.status && after.loading == app.loading
            }
            &&& after.symbols == app.symbols && after.selected == app.selected
            &&& after.active() == app.active()
        }),
{
    let after = app.told(EventView::References { key, hits }, now);
    assert(after.current_key() == app.current_key());
    let callers = app.told(
        EventView::CallHierarchy { key, direction: CallDirection::Incoming, hits },
        now,
    );
    assert(callers.current_key() == app.current_key());
    let callees = app.told(
        EventView::CallHierarchy { key, direction: CallDirection::Outgoing, hits },
        now,
    );
    assert(callees.current_key() == app.current_key());
}

/// Errors are told. One of a side pane leaves it without places and the symbols alone;
/// another one ends the wait for the answer.
pub proof fn law_errors_are_told(app: AppView, key: Seq<char>, message: Seq<char>, now: u64)
    ensures
        ({
            let after = app.told(EventView::Error(message), now);
            &&& after.status == message
            &&& !after.loading && !after.completions_ready
            &&& after.symbols == app.symbols && after.selected == app.selected
        }),
        ({
            let after = app.told(EventView::SideError { key, message }, now);
            &&& app.current_key() == Some(key) ==> after.hits() is None && after.status == message
            &&& app.current_key() != Some(key) ==> after.hits() == app.hits() && after.status
                == app.status
            &&& after.symbols == app.symbols && after.selected == app.selected
            &&& after.completions_ready == app.completions_ready
        }),
{
    let after = app.told(EventView::SideError { key, message }, now);
    assert(after.current_key() == app.current_key());
}

/// The server is at work from what begins a work to what ends it. When its last work has
/// ended, a query that is not empty is due at once.
pub proof fn law_work_is_followed(
    app: AppView,
    token: Seq<char>,
    message: Seq<char>,
    other: Seq<char>,
    now: u64,
)
    ensures
        ({
            let begun = app.told(EventView::Progress { token, active: true, message }, now);
            &&& begun.tokens.contains(token)
            &&& other != token ==> begun.tokens.contains(other) == app.tokens.contains(other)
            &&& begun.loading
            &&& begun.status == "rust-analyzer: "@ + message
            &&& begun.due == app.due
        }),
        ({
            let ended = app.told(EventView::Progress { token, active: false, message }, now);
            let none = Set::<Seq<char>>::empty();
            &&& !ended.tokens.contains(token)
            &&& other != token ==> ended.tokens.contains(other) == app.tokens.contains(other)
            &&& app.tokens == none.insert(token) && app.input.text.len() > 0 ==> ended.due == Some(
                now,
            ) && ended.loading
            &&& app.tokens == none.insert(token) && app.input.text.len() == 0 ==> ended.due
                == app.due && !ended.loading
            &&& app.tokens == none.insert(token) ==> ended.status == "rust-analyzer ready"@
            &&& app.tokens.contains(other) && other != token ==> ended.loading && ended.due
                == app.due && ended.status == "rust-analyzer is indexing..."@
        }),
{
    let none = Set::<Seq<char>>::empty();
    assert(none.insert(token).contains(token));
    assert(none.insert(token).remove(token) =~= none);
    if app.tokens.contains(other) && other != token {
        assert(app.tokens.remove(token).contains(other));
    }
}

/// The preview has the line of the symbol in its middle, as far as the source reaches:
/// above it stand half of the rows, and no row is empty where the source has lines to
/// fill it.
pub proof fn law_preview_is_centred(line: int, count: int, rows: int, scroll: int)
    requires
        0 <= count,
        0 < rows,
    ensures
        ({
            let first = preview_first(line, count, rows, scroll);
            let wanted = line - 1 - rows / 2 + scroll;
            &&& 0 <= first
            &&& count > rows ==> first + rows <= count
            &&& count <= rows ==> first == 0
            &&& 0 <= wanted && wanted + rows <= count ==> first == wanted
            &&& wanted < 0 ==> first == 0
            &&& wanted + rows > count && count > rows ==> first + rows == count
        }),
{
}

/// The keys that the picker has for its actions where the user asks for no others.
pub proof fn law_keys_of_the_picker()
    ensures
        binds(navsplat_bindings(), "quit"@, seq!["esc"@, "ctrl-c"@]),
        binds(navsplat_bindings(), "quit_if_empty"@, seq!["q"@]),
        binds(navsplat_bindings(), "open"@, seq!["enter"@]),
        binds(navsplat_bindings(), "pop"@, seq!["backspace"@]),
        binds(navsplat_bindings(), "toggle_focus"@, seq!["tab"@]),
        binds(navsplat_bindings(), "references"@, seq!["alt-r"@]),
        binds(navsplat_bindings(), "callers"@, seq!["alt-c"@]),
        binds(navsplat_bindings(), "callees"@, seq!["alt-e"@]),
        binds(navsplat_bindings(), "source"@, seq!["alt-s"@]),
        binds(navsplat_bindings(), "copy"@, seq!["alt-y"@]),
        binds(navsplat_bindings(), "select_prev"@, seq!["ctrl-p"@, "up"@]),
        binds(navsplat_bindings(), "select_next"@, seq!["ctrl-n"@, "down"@]),
        binds(navsplat_bindings(), "preview_up"@, seq!["shift-up"@]),
        binds(navsplat_bindings(), "preview_down"@, seq!["shift-down"@]),
        binds(navsplat_bindings(), "page_up"@, seq!["pageup"@]),
        binds(navsplat_bindings(), "page_down"@, seq!["pagedown"@]),
        binds(navsplat_bindings(), "delete_next_char"@, seq!["ctrl-d"@]),
        navsplat_bindings().len() == 17,
{
    let rows = navsplat_bindings();
    assert(rows[0] == ("quit"@, seq!["esc"@, "ctrl-c"@]));
    assert(rows[1] == ("quit_if_empty"@, seq!["q"@]));
    assert(rows[2] == ("open"@, seq!["enter"@]));
    assert(rows[3] == ("pop"@, seq!["backspace"@]));
    assert(rows[4] == ("toggle_focus"@, seq!["tab"@]));
    assert(rows[5] == ("references"@, seq!["alt-r"@]));
    assert(rows[6] == ("callers"@, seq!["alt-c"@]));
    assert(rows[7] == ("callees"@, seq!["alt-e"@]));
    assert(rows[8] == ("source"@, seq!["alt-s"@]));
    assert(rows[9] == ("copy"@, seq!["alt-y"@]));
    assert(rows[10] == ("select_prev"@, seq!["ctrl-p"@, "up"@]));
    assert(rows[11] == ("select_next"@, seq!["ctrl-n"@, "down"@]));
    assert(rows[12] == ("preview_up"@, seq!["shift-up"@]));
    assert(rows[13] == ("preview_down"@, seq!["shift-down"@]));
    assert(rows[14] == ("page_up"@, seq!["pageup"@]));
    assert(rows[15] == ("page_down"@, seq!["pagedown"@]));
    assert(rows[16] == ("delete_next_char"@, seq!["ctrl-d"@]));
}

// ---------------------------------------------------------------------------
// What the side pane asks for
// ---------------------------------------------------------------------------

/// The side pane asks the server for what it shows: for references, or for the calls that
/// come in where it shows callers and that go out where it shows callees. It asks at the
/// place of the symbol, which the server counts from zero.
pub proof fn law_pane_asks_for_what_it_shows(
    before: ClientView,
    after: ClientView,
    symbol: SymbolView,
    key: Seq<char>,
    request: Request,
    uri: Seq<char>,
)
    requires
        file_uri(narrow(symbol_path(before.root, symbol.file))) == Some(uri),
        symbol.line > 0,
        symbol.column > 0,
    ensures
        side_prepared(SidePaneMode::References, before, after, symbol, key, request) ==> {
            &&& asks(
                request.message@,
                before.next_id,
                "textDocument/references"@,
                Value::Object(
                    place(uri, symbol.line - 1, symbol.column - 1).push(
                        (
                            "context"@,
                            Value::Object(seq![("includeDeclaration"@, Value::Bool(false))]),
                        ),
                    ),
                ),
            )
            &&& after.pending[request.id] == (Pending::References { key })
        },
        side_prepared(SidePaneMode::Callers, before, after, symbol, key, request) ==> {
            &&& asks(
                request.message@,
                before.next_id,
                "textDocument/prepareCallHierarchy"@,
                Value::Object(place(uri, symbol.line - 1, symbol.column - 1)),
            )
            &&& after.pending[request.id] == (Pending::PrepareCallHierarchy {
                key,
                direction: CallDirection::Incoming,
            })
        },
        side_prepared(SidePaneMode::Callees, before, after, symbol, key, request) ==> {
            &&& asks(
                request.message@,
                before.next_id,
                "textDocument/prepareCallHierarchy"@,
                Value::Object(place(uri, symbol.line - 1, symbol.column - 1)),
            )
            &&& after.pending[request.id] == (Pending::PrepareCallHierarchy {
                key,
                direction: CallDirection::Outgoing,
            })
        },
{
}

/// The side pane asks once for a symbol, and only when symbols have been found; the source
/// asks for nothing.
pub proof fn law_pane_asks_once(app: AppView)
    ensures
        app.side_mode == SidePaneMode::Source ==> app.side_wanted() is None,
        !app.completions_ready ==> app.side_wanted() is None,
        app.side_wanted() matches Some(symbol) ==> {
            let key = side_key_of(app.side_mode, symbol);
            &&& app.active() == Some(symbol)
            &&& app.awaiting_side(key).side_wanted() is None
            &&& app.awaiting_side(key).hits() is None
        },
        app.completions_ready && app.side_mode != SidePaneMode::Source && app.active() is Some
            && !app.side_states.contains_key(app.current_key()->0) ==> app.side_wanted()
            == app.active(),
{
    if let Some(symbol) = app.side_wanted() {
        let key = side_key_of(app.side_mode, symbol);
        assert(app.awaiting_side(key).current_key() == Some(key));
    }
}

/// What the side pane waits for is told, and so is why it could not be asked for.
pub proof fn law_pane_tells_what_it_waits_for(app: AppView, key: Seq<char>, why: Seq<char>)
    ensures
        app.side_asked(key, Ok(())).loading,
        app.side_mode == SidePaneMode::References ==> app.side_asked(key, Ok(())).status
            == "loading "@ + "references"@ + "..."@,
        app.side_mode == SidePaneMode::Callers ==> app.side_asked(key, Ok(())).status == "loading "@
            + "callers"@ + "..."@,
        app.side_mode == SidePaneMode::Callees ==> app.side_asked(key, Ok(())).status == "loading "@
            + "callees"@ + "..."@,
        app.side_asked(key, Err(why)).status == why && !app.side_asked(key, Err(why)).loading,
        app.current_key() == Some(key) ==> app.side_asked(key, Err(why)).hits() is None,
        app.side_asked(key, Err(why)).side_states.contains_key(key),
{
    let after = app.side_asked(key, Err(why));
    assert(after.current_key() == app.current_key());
}

/// An answer is printed where it is the last one that was asked for and has symbols, or
/// where it has none and the server is at no work.
pub proof fn law_answers_are_printed(
    id: i64,
    other: i64,
    tokens: Set<Seq<char>>,
    token: Seq<char>,
    count: nat,
)
    ensures
        other != id ==> !prints(id, tokens, other, count),
        count > 0 ==> prints(id, tokens, id, count),
        tokens.contains(token) ==> !prints(id, tokens, id, 0),
        prints(id, Set::<Seq<char>>::empty(), id, 0),
{
}

/// A key that goes on waiting changes nothing but what is awaited and the status; one that
/// leads nowhere behind others is told and gives them up; and one that leads nowhere by
/// itself is typed into the query.
pub proof fn law_keys_are_awaited(app: AppView, bindings: Seq<Bound>, key: KeyEvent, now: u64)
    ensures
        ({
            let (after, left) = app.pressed(bindings, key, now);
            let pending = app.pending.push(normal_key(key));
            match lookup(bindings, navsplat_names(), pending) {
                MatchView::Prefix => {
                    &&& left is None
                    &&& after == (AppView { pending, status: after.status, ..app })
                    &&& has_suffix(after.status, " ..."@)
                },
                MatchView::NoMatch => {
                    &&& left is None
                    &&& app.pending.len() > 0 ==> after == (AppView {
                        pending: Seq::empty(),
                        status: "unknown key sequence"@,
                        ..app
                    })
                    &&& app.pending.len() == 0 ==> after == app.typed(key, now)
                },
                MatchView::Action(action) => (after, left) == (AppView {
                    pending: Seq::empty(),
                    ..app
                }).acted(action, key, now),
            }
        }),
{
    let pending = app.pending.push(normal_key(key));
    let head = join(pending.map_values(|key: KeyPress| key.text()), " "@);
    let all = head + " ..."@;
    assert(all.skip(all.len() - " ..."@.len()) =~= " ..."@);
}

/// The actions that keys lead to.
pub proof fn law_actions_that_keys_lead_to()
    ensures
        navsplat_names().contains("quit"@),
        navsplat_names().contains("quit_if_empty"@),
        navsplat_names().contains("open"@),
        navsplat_names().contains("pop"@),
        navsplat_names().contains("toggle_focus"@),
        navsplat_names().contains("references"@),
        navsplat_names().contains("callers"@),
        navsplat_names().contains("callees"@),
        navsplat_names().contains("source"@),
        navsplat_names().contains("copy"@),
        navsplat_names().contains("select_prev"@),
        navsplat_names().contains("select_next"@),
        navsplat_names().contains("preview_up"@),
        navsplat_names().contains("preview_down"@),
        navsplat_names().contains("page_up"@),
        navsplat_names().contains("page_down"@),
        navsplat_names().contains("delete_next_char"@),
        navsplat_names().len() == 17,
{
    assert(navsplat_names()[0] == "quit"@);
    assert(navsplat_names()[1] == "quit_if_empty"@);
    assert(navsplat_names()[2] == "open"@);
    assert(navsplat_names()[3] == "pop"@);
    assert(navsplat_names()[4] == "toggle_focus"@);
    assert(navsplat_names()[5] == "references"@);
    assert(navsplat_names()[6] == "callers"@);
    assert(navsplat_names()[7] == "callees"@);
    assert(navsplat_names()[8] == "source"@);
    assert(navsplat_names()[9] == "copy"@);
    assert(navsplat_names()[10] == "select_prev"@);
    assert(navsplat_names()[11] == "select_next"@);
    assert(navsplat_names()[12] == "preview_up"@);
    assert(navsplat_names()[13] == "preview_down"@);
    assert(navsplat_names()[14] == "page_up"@);
    assert(navsplat_names()[15] == "page_down"@);
    assert(navsplat_names()[16] == "delete_next_char"@);
}

/// The line for the query shows the query, or the current symbol with its kind and place.
pub proof fn law_input_line_shows(app: AppView)
    ensures
        app.promoted is None ==> app.input_line() == app.input.text,
        app.promoted matches Some(symbol) ==> app.input_line() == "current: "@ + symbol.name
            + " ["@ + symbol.kind.name() + "] "@ + (shown(symbol.file) + ":"@ + decimal(
            symbol.line as nat,
        )) + "  (backspace pops)"@,
{
}

/// The editor is run with the words of its command, and then with the line.
pub proof fn law_editor_is_told_the_line(editor: Seq<char>, target: Target, i: int)
    requires
        words(editor).len() > 0,
        0 <= i < words(editor).len(),
    ensures
        ({
            let run = editor_words(editor, target);
            &&& run.len() == words(editor).len() + 1
            &&& run[i] == words(editor)[i]
            &&& run.last() == "+"@ + decimal(target.line as nat)
        }),
{
}

/// The panes have their titles, and the picker has at least ten rows.
pub proof fn law_panes_have_titles()
    ensures
        SidePaneMode::Source.name() == "Source"@,
        SidePaneMode::References.name() == "References"@,
        SidePaneMode::Callers.name() == "Callers"@,
        SidePaneMode::Callees.name() == "Callees"@,
        MIN_HEIGHT == 10,
{
}

/// Where the server is at work, an empty answer to an empty query is shown, and the picker
/// goes on waiting.
pub proof fn law_empty_answer_while_indexing(app: AppView, now: u64)
    requires
        app.tokens != Set::<Seq<char>>::empty(),
        app.last_sent_query.len() == 0,
        app.promoted is None,
    ensures
        ({
            let after = app.told(
                EventView::Symbols {
                    request_id: app.last_request_id,
                    query: app.last_sent_query,
                    symbols: Seq::<SymbolView>::empty(),
                },
                now,
            );
            &&& after.symbols.len() == 0 && after.selected == 0
            &&& after.loading && !after.completions_ready
            &&& after.status == "rust-analyzer is still indexing..."@
        }),
{
}

} // verus!
