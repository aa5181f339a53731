//! The symbol picker: what it shows, what its keys do, and what it asks of the
//! language server.

use tui_input::Input;
use vstd::prelude::*;

use crate::config::{pending_status, KeyEvent, KeyPress, Keymap, KeymapMatch};
#[allow(unused_imports)]
use crate::config::{default_rows, lookup, normal_key, pending_text, Bound, MatchView, Rows};
use crate::lsp::{copy_option, path_from_root, CallDirection, LocationHit, LspClient, LspEvent};
use crate::lsp::{Deadline, Request, Symbol, SymbolKind, PATIENCE};
#[allow(unused_imports)]
use crate::lsp::{
    hit_views, request_value, symbol_path, symbol_position, symbol_views, ClientView, EventView,
    Fault, HitView, Pending, SymbolView,
};
#[allow(unused_imports)]
use crate::json::Value;
use crate::navsplat::query::{edit_for, edit_input, InputEdit};
#[allow(unused_imports)]
use crate::navsplat::query::{entry, key_edit, Entry};
use crate::file_path::FilePath;
#[allow(unused_imports)]
use crate::file_path::{path_of, shown};
#[allow(unused_imports)]
use crate::paths::{is_absolute, joined};
use crate::table::Table;
use crate::text::{concat2, concat3, decimal_of, same, words_of};
#[allow(unused_imports)]
use crate::text::{decimal, join, option_view, str_views, views, words};

pub mod laws;
pub mod query;

verus! {

/// How long a query rests before it is sent, in milliseconds.
pub const DEBOUNCE: u64 = 140;

/// The least height of the picker.
pub const MIN_HEIGHT: u16 = 10;

/// How often an empty answer is asked for again.
pub const EMPTY_RETRIES: u8 = 5;

// ---------------------------------------------------------------------------
// Parts of the picker
// ---------------------------------------------------------------------------

/// What the side pane shows.
#[derive(Clone, Copy, Debug, PartialEq, Eq, Structural)]
pub enum SidePaneMode {
    Source,
    References,
    Callers,
    Callees,
}

impl SidePaneMode {
    /// The title of the pane.
    pub open spec fn name(self) -> Seq<char> {
        match self {
            SidePaneMode::Source => "Source"@,
            SidePaneMode::References => "References"@,
            SidePaneMode::Callers => "Callers"@,
            SidePaneMode::Callees => "Callees"@,
        }
    }

    /// What is loaded into the pane.
    pub open spec fn content(self) -> Seq<char> {
        match self {
            SidePaneMode::Source => "source"@,
            SidePaneMode::References => "references"@,
            SidePaneMode::Callers => "callers"@,
            SidePaneMode::Callees => "callees"@,
        }
    }

    /// The title of the pane.
    pub fn title(self) -> (r: &'static str)
        ensures
            r@ == self.name(),
    {
        match self {
            SidePaneMode::Source => "Source",
            SidePaneMode::References => "References",
            SidePaneMode::Callers => "Callers",
            SidePaneMode::Callees => "Callees",
        }
    }

    /// What is loaded into the pane.
    pub fn loading_label(self) -> (r: &'static str)
        ensures
            r@ == self.content(),
    {
        match self {
            SidePaneMode::Source => "source",
            SidePaneMode::References => "references",
            SidePaneMode::Callers => "callers",
            SidePaneMode::Callees => "callees",
        }
    }
}

/// What is known of the content of the side pane.
#[derive(Debug, PartialEq, Eq)]
pub enum SidePaneState {
    Loading,
    Ready(Vec<LocationHit>),
    Error(String),
}

/// What is known of the content of the side pane.
pub enum Side {
    Loading,
    Ready(Seq<HitView>),
    Error(Seq<char>),
}

impl View for SidePaneState {
    type V = Side;

    open spec fn view(&self) -> Side {
        match self {
            SidePaneState::Loading => Side::Loading,
            SidePaneState::Ready(hits) => Side::Ready(hit_views(hits@)),
            SidePaneState::Error(message) => Side::Error(message@),
        }
    }
}

/// Where the keys that select go.
#[derive(Clone, Copy, Debug, PartialEq, Eq, Structural)]
pub enum FocusArea {
    Symbols,
    SidePane,
}

/// A place to open.
#[derive(Debug, PartialEq, Eq)]
pub struct OpenTarget {
    pub file: FilePath,
    pub line: u32,
}

/// A place to open.
#[verifier::ext_equal]
pub struct Target {
    pub file: Seq<char>,
    pub line: u32,
}

impl View for OpenTarget {
    type V = Target;

    open spec fn view(&self) -> Target {
        Target { file: self.file@, line: self.line }
    }
}

/// A target that may be missing.
pub open spec fn target_view(target: Option<OpenTarget>) -> Option<Target> {
    match target {
        Some(target) => Some(target@),
        None => None,
    }
}

/// Where the user was before a place became the current symbol.
#[derive(Debug)]
pub struct NavigationFrame {
    pub symbol: Symbol,
    pub mode: SidePaneMode,
    pub hits: Vec<LocationHit>,
    pub selected: usize,
}

/// Where the user was before a place became the current symbol.
#[verifier::ext_equal]
pub struct Frame {
    pub symbol: SymbolView,
    pub mode: SidePaneMode,
    pub hits: Seq<HitView>,
    pub selected: usize,
}

impl View for NavigationFrame {
    type V = Frame;

    open spec fn view(&self) -> Frame {
        Frame {
            symbol: self.symbol@,
            mode: self.mode,
            hits: hit_views(self.hits@),
            selected: self.selected,
        }
    }
}

/// Frames as mathematical objects.
pub open spec fn frame_views(frames: Seq<NavigationFrame>) -> Seq<Frame> {
    frames.map_values(|frame: NavigationFrame| frame@)
}

/// A symbol that may be missing.
pub open spec fn symbol_view(symbol: Option<Symbol>) -> Option<SymbolView> {
    match symbol {
        Some(symbol) => Some(symbol@),
        None => None,
    }
}

/// The picker.
pub struct App {
    pub input: Input,
    pub symbols: Vec<Symbol>,
    pub promoted_symbol: Option<Symbol>,
    pub navigation_stack: Vec<NavigationFrame>,
    pub selected: usize,
    pub preview_scroll: isize,
    /// From when on the query is to be sent, where it is to be sent at all.
    pub due: Option<u64>,
    pub last_sent_query: String,
    pub last_request_id: i64,
    pub empty_retry_count: u8,
    pub status: String,
    pub loading: bool,
    pub progress_tokens: Table<()>,
    pub completions_ready: bool,
    pub side_mode: SidePaneMode,
    pub side_states: Table<SidePaneState>,
    pub side_selected: Table<usize>,
    pub focus: FocusArea,
    pub pending_keys: Vec<KeyPress>,
    pub tick: u64,
}

/// The picker as a mathematical object.
#[verifier::ext_equal]
pub struct AppView {
    pub input: Entry,
    pub symbols: Seq<SymbolView>,
    pub promoted: Option<SymbolView>,
    pub stack: Seq<Frame>,
    pub selected: usize,
    pub preview_scroll: isize,
    pub due: Option<u64>,
    pub last_sent_query: Seq<char>,
    pub last_request_id: i64,
    pub empty_retry_count: u8,
    pub status: Seq<char>,
    pub loading: bool,
    pub tokens: Set<Seq<char>>,
    pub completions_ready: bool,
    pub side_mode: SidePaneMode,
    pub side_states: Map<Seq<char>, Side>,
    pub side_selected: Map<Seq<char>, usize>,
    pub focus: FocusArea,
    pub pending: Seq<KeyPress>,
    pub tick: u64,
}

/// What is known of the side panes.
pub open spec fn sides(states: Map<Seq<char>, SidePaneState>) -> Map<Seq<char>, Side> {
    states.map_values(|state: SidePaneState| state@)
}

impl View for App {
    type V = AppView;

    open spec fn view(&self) -> AppView {
        AppView {
            input: entry(self.input),
            symbols: symbol_views(self.symbols@),
            promoted: symbol_view(self.promoted_symbol),
            stack: frame_views(self.navigation_stack@),
            selected: self.selected,
            preview_scroll: self.preview_scroll,
            due: self.due,
            last_sent_query: self.last_sent_query@,
            last_request_id: self.last_request_id,
            empty_retry_count: self.empty_retry_count,
            status: self.status@,
            loading: self.loading,
            tokens: self.progress_tokens@.dom(),
            completions_ready: self.completions_ready,
            side_mode: self.side_mode,
            side_states: sides(self.side_states@),
            side_selected: self.side_selected@,
            focus: self.focus,
            pending: self.pending_keys@,
            tick: self.tick,
        }
    }
}

// ---------------------------------------------------------------------------
// Texts
// ---------------------------------------------------------------------------

/// The line for a place, as it is copied and printed.
pub open spec fn place_line(
    file: Seq<char>,
    line: u32,
    column: u32,
    name: Seq<char>,
    kind: Seq<char>,
) -> Seq<char> {
    shown(file) + ":"@ + decimal(line as nat) + ":"@ + decimal(column as nat) + "\t"@ + name + " ["@
        + kind + "]"@
}

/// The line for a symbol.
pub open spec fn symbol_line(symbol: SymbolView) -> Seq<char> {
    place_line(symbol.file, symbol.line, symbol.column, symbol.name, symbol.kind.name())
}

/// The line for a place.
pub open spec fn hit_line(hit: HitView) -> Seq<char> {
    place_line(
        hit.file,
        hit.line,
        hit.column,
        match hit.name {
            Some(name) => name,
            None => ""@,
        },
        match hit.kind {
            Some(kind) => kind.name(),
            None => "Location"@,
        },
    )
}

fn place_text(file: &FilePath, line: u32, column: u32, name: &str, kind: &str) -> (r: String)
    ensures
        r@ == place_line(file@, line, column, name@, kind@),
{
    let line = decimal_of(line as u64);
    let column = decimal_of(column as u64);
    let file = file.text();
    let mut out = concat3(file.as_str(), ":", line.as_str());
    out.append(":");
    out.append(column.as_str());
    out.append("\t");
    out.append(name);
    out.append(" [");
    out.append(kind);
    out.append("]");
    out
}

/// The line for a symbol, as it is copied and printed.
pub fn symbol_text(symbol: &Symbol) -> (r: String)
    ensures
        r@ == symbol_line(symbol@),
{
    place_text(
        &symbol.file,
        symbol.line,
        symbol.column,
        symbol.name.as_str(),
        symbol.kind.label(),
    )
}

/// The line for a place, as it is copied.
pub fn hit_text(hit: &LocationHit) -> (r: String)
    ensures
        r@ == hit_line(hit@),
{
    let name = match &hit.name {
        Some(name) => name.as_str(),
        None => "",
    };
    let kind = match hit.kind {
        Some(kind) => kind.label(),
        None => "Location",
    };
    place_text(&hit.file, hit.line, hit.column, name, kind)
}

/// What the content of the side pane for a symbol is found by.
pub open spec fn side_key_of(mode: SidePaneMode, symbol: SymbolView) -> Seq<char> {
    mode.name() + "\t"@ + shown(symbol.file) + "\t"@ + decimal(symbol.line as nat) + "\t"@ + decimal(
        symbol.column as nat,
    ) + "\t"@ + symbol.name
}

/// What the content of the side pane for a symbol is found by.
pub fn side_key(mode: SidePaneMode, symbol: &Symbol) -> (r: String)
    ensures
        r@ == side_key_of(mode, symbol@),
{
    let line = decimal_of(symbol.line as u64);
    let column = decimal_of(symbol.column as u64);
    let file = symbol.file.text();
    let mut out = concat3(mode.title(), "\t", file.as_str());
    out.append("\t");
    out.append(line.as_str());
    out.append("\t");
    out.append(column.as_str());
    out.append("\t");
    out.append(symbol.name.as_str());
    out
}

/// `file:line`.
pub open spec fn spot(file: Seq<char>, line: u32) -> Seq<char> {
    shown(file) + ":"@ + decimal(line as nat)
}

fn spot_text(file: &FilePath, line: u32) -> (r: String)
    ensures
        r@ == spot(file@, line),
{
    let line = decimal_of(line as u64);
    let file = file.text();
    concat3(file.as_str(), ":", line.as_str())
}

/// The symbol that a place is taken for.
pub open spec fn symbol_of(hit: HitView) -> SymbolView {
    SymbolView {
        name: match hit.name {
            Some(name) => name,
            None => spot(hit.file, hit.line),
        },
        kind: match hit.kind {
            Some(kind) => kind,
            None => SymbolKind::Unknown,
        },
        file: hit.file,
        line: hit.line,
        end_line: hit.line,
        column: hit.column,
        container_name: hit.detail,
    }
}

/// The symbol that a place is taken for.
pub fn symbol_from_hit(hit: &LocationHit) -> (r: Symbol)
    ensures
        r@ == symbol_of(hit@),
{
    Symbol {
        name: match &hit.name {
            Some(name) => name.clone(),
            None => spot_text(&hit.file, hit.line),
        },
        kind: match hit.kind {
            Some(kind) => kind,
            None => SymbolKind::Unknown,
        },
        file: hit.file.copy(),
        line: hit.line,
        end_line: hit.line,
        column: hit.column,
        container_name: copy_option(&hit.detail),
    }
}

/// The status after an answer with `count` symbols.
pub open spec fn count_text(count: nat) -> Seq<char> {
    decimal(count) + " match(es)"@
}

fn count_status(count: usize) -> (r: String)
    ensures
        r@ == count_text(count as nat),
{
    let number = decimal_of(count as u64);
    concat2(number.as_str(), " match(es)")
}

// ---------------------------------------------------------------------------
// What is selected
// ---------------------------------------------------------------------------

impl AppView {
    /// The current symbol: the one that a place was taken for, or the selected one.
    pub open spec fn active(self) -> Option<SymbolView> {
        match self.promoted {
            Some(symbol) => Some(symbol),
            None => if self.selected < self.symbols.len() {
                Some(self.symbols[self.selected as int])
            } else {
                None
            },
        }
    }

    /// What the content of the side pane is found by.
    pub open spec fn current_key(self) -> Option<Seq<char>> {
        match self.active() {
            Some(symbol) => if self.side_mode != SidePaneMode::Source {
                Some(side_key_of(self.side_mode, symbol))
            } else {
                None
            },
            None => None,
        }
    }

    /// The places in the side pane, where they are there.
    pub open spec fn hits(self) -> Option<Seq<HitView>> {
        match self.current_key() {
            Some(key) => if self.side_states.contains_key(key) {
                match self.side_states[key] {
                    Side::Ready(hits) => Some(hits),
                    _ => None,
                }
            } else {
                None
            },
            None => None,
        }
    }

    /// The number of places in the side pane.
    pub open spec fn hit_count(self) -> nat {
        match self.hits() {
            Some(hits) => hits.len(),
            None => 0,
        }
    }

    /// The number of the selected place.
    pub open spec fn hit_index(self) -> usize {
        match self.current_key() {
            Some(key) => if self.side_selected.contains_key(key) {
                self.side_selected[key]
            } else {
                0
            },
            None => 0,
        }
    }

    /// The selected place.
    pub open spec fn selected_hit(self) -> Option<HitView> {
        match self.hits() {
            Some(hits) => if self.hit_index() < hits.len() {
                Some(hits[self.hit_index() as int])
            } else {
                None
            },
            None => None,
        }
    }

    /// Where the user is.
    pub open spec fn frame(self) -> Option<Frame> {
        match (self.active(), self.hits()) {
            (Some(symbol), Some(hits)) => Some(
                Frame { symbol, mode: self.side_mode, hits, selected: self.hit_index() },
            ),
            _ => None,
        }
    }

    /// The place to open.
    pub open spec fn target(self) -> Option<Target> {
        match self.selected_hit() {
            Some(hit) if self.focus == FocusArea::SidePane => Some(
                Target { file: hit.file, line: hit.line },
            ),
            _ => match self.active() {
                Some(symbol) => Some(Target { file: symbol.file, line: symbol.line }),
                None => None,
            },
        }
    }

    /// The text to copy.
    pub open spec fn copy_text(self) -> Option<Seq<char>> {
        match self.selected_hit() {
            Some(hit) if self.focus == FocusArea::SidePane => Some(hit_line(hit)),
            _ => match self.active() {
                Some(symbol) => Some(symbol_line(symbol)),
                None => None,
            },
        }
    }

    /// What the line for the query shows.
    pub open spec fn input_line(self) -> Seq<char> {
        match self.promoted {
            Some(symbol) => "current: "@ + symbol.name + " ["@ + symbol.kind.name() + "] "@ + spot(
                symbol.file,
                symbol.line,
            ) + "  (backspace pops)"@,
            None => self.input.text,
        }
    }
}

/// The current symbol.
pub fn active_symbol(app: &App) -> (r: Option<&Symbol>)
    ensures
        match r {
            Some(symbol) => app@.active() == Some(symbol@),
            None => app@.active() is None,
        },
{
    match &app.promoted_symbol {
        Some(symbol) => Some(symbol),
        None => {
            if app.selected < app.symbols.len() {
                Some(&app.symbols[app.selected])
            } else {
                None
            }
        },
    }
}

/// What the content of the side pane is found by.
pub fn current_side_key(app: &App) -> (r: Option<String>)
    ensures
        option_view(r) == app@.current_key(),
{
    if app.side_mode == SidePaneMode::Source {
        return None;
    }
    match active_symbol(app) {
        Some(symbol) => Some(side_key(app.side_mode, symbol)),
        None => None,
    }
}

/// What is known of the content of the side pane.
pub fn current_side_state(app: &App) -> (r: Option<&SidePaneState>)
    ensures
        match (r, app@.current_key()) {
            (Some(state), Some(key)) => app@.side_states.contains_key(key) && state@
                == app@.side_states[key],
            (Some(_), None) => false,
            (None, Some(key)) => !app@.side_states.contains_key(key),
            (None, None) => true,
        },
{
    match current_side_key(app) {
        Some(key) => app.side_states.get(key.as_str()),
        None => None,
    }
}

/// The places in the side pane, where they are there.
fn current_hits(app: &App) -> (r: Option<&Vec<LocationHit>>)
    ensures
        match r {
            Some(hits) => app@.hits() == Some(hit_views(hits@)),
            None => app@.hits() is None,
        },
{
    match current_side_state(app) {
        Some(SidePaneState::Ready(hits)) => Some(hits),
        _ => None,
    }
}

/// The number of places in the side pane.
pub fn selected_side_hit_count(app: &App) -> (r: usize)
    ensures
        r == app@.hit_count(),
{
    match current_hits(app) {
        Some(hits) => hits.len(),
        None => 0,
    }
}

/// The number of the selected place.
pub fn selected_side_index(app: &App) -> (r: usize)
    ensures
        r == app@.hit_index(),
{
    match current_side_key(app) {
        Some(key) => match app.side_selected.get(key.as_str()) {
            Some(selected) => *selected,
            None => 0,
        },
        None => 0,
    }
}

/// The selected place.
pub fn selected_side_hit(app: &App) -> (r: Option<&LocationHit>)
    ensures
        match r {
            Some(hit) => app@.selected_hit() == Some(hit@),
            None => app@.selected_hit() is None,
        },
{
    match current_hits(app) {
        Some(hits) => {
            let selected = selected_side_index(app);
            if selected < hits.len() {
                Some(&hits[selected])
            } else {
                None
            }
        },
        None => None,
    }
}

fn copy_hits(hits: &Vec<LocationHit>) -> (r: Vec<LocationHit>)
    ensures
        hit_views(r@) == hit_views(hits@),
{
    let mut out: Vec<LocationHit> = Vec::new();
    let mut i: usize = 0;
    while i < hits.len()
        invariant
            i <= hits@.len(),
            out@.len() == i,
            forall|j: int| 0 <= j < i ==> (#[trigger] out@[j])@ == hits@[j]@,
        decreases hits@.len() - i,
    {
        out.push(hits[i].copy());
        i = i + 1;
    }
    assert(hit_views(out@) =~= hit_views(hits@));
    out
}

/// Where the user is.
pub fn current_navigation_frame(app: &App) -> (r: Option<NavigationFrame>)
    ensures
        match r {
            Some(frame) => app@.frame() == Some(frame@),
            None => app@.frame() is None,
        },
{
    let Some(symbol) = active_symbol(app) else {
        return None;
    };
    let Some(hits) = current_hits(app) else {
        return None;
    };
    let selected = selected_side_index(app);
    Some(
        NavigationFrame {
            symbol: symbol.copy(),
            mode: app.side_mode,
            hits: copy_hits(hits),
            selected,
        },
    )
}

/// The place to open.
pub fn selected_open_target(app: &App) -> (r: Option<OpenTarget>)
    ensures
        target_view(r) == app@.target(),
{
    if app.focus == FocusArea::SidePane {
        if let Some(hit) = selected_side_hit(app) {
            return Some(OpenTarget { file: hit.file.copy(), line: hit.line });
        }
    }
    match active_symbol(app) {
        Some(symbol) => Some(OpenTarget { file: symbol.file.copy(), line: symbol.line }),
        None => None,
    }
}

/// The text to copy.
pub fn selected_clipboard_text(app: &App) -> (r: Option<String>)
    ensures
        option_view(r) == app@.copy_text(),
{
    if app.focus == FocusArea::SidePane {
        if let Some(hit) = selected_side_hit(app) {
            return Some(hit_text(hit));
        }
    }
    match active_symbol(app) {
        Some(symbol) => Some(symbol_text(symbol)),
        None => None,
    }
}

/// What the line for the query shows.
pub fn input_display_value(app: &App) -> (r: String)
    ensures
        r@ == app@.input_line(),
{
    match &app.promoted_symbol {
        Some(symbol) => {
            let place = spot_text(&symbol.file, symbol.line);
            let mut out = concat3("current: ", symbol.name.as_str(), " [");
            out.append(symbol.kind.label());
            out.append("] ");
            out.append(place.as_str());
            out.append("  (backspace pops)");
            out
        },
        None => app.input.value().to_string(),
    }
}

// ---------------------------------------------------------------------------
// Moving about
// ---------------------------------------------------------------------------

/// A number moved by `delta`, within the numbers below `count`.
pub open spec fn stepped(selected: usize, delta: int, count: nat) -> usize {
    if delta < 0 {
        if selected + delta < 0 {
            0
        } else {
            (selected + delta) as usize
        }
    } else if selected + delta < count {
        (selected + delta) as usize
    } else {
        (count - 1) as usize
    }
}

/// `a + b`, or the nearest number that there is.
pub open spec fn bounded_sum(a: isize, b: int) -> isize {
    if a + b > isize::MAX {
        isize::MAX
    } else if a + b < isize::MIN {
        isize::MIN
    } else {
        (a + b) as isize
    }
}

impl AppView {
    /// With another status.
    pub open spec fn saying(self, status: Seq<char>) -> AppView {
        AppView { status, ..self }
    }

    /// With nothing known of the side pane.
    pub open spec fn without_sides(self) -> AppView {
        AppView { side_states: Map::empty(), side_selected: Map::empty(), ..self }
    }

    /// With the selected place as the current symbol, and what it leads to. Where the
    /// symbols have the focus, the picker is left with the place to open.
    pub open spec fn entered(self) -> (AppView, Option<ToDo>) {
        if self.focus == FocusArea::SidePane {
            match self.selected_hit() {
                Some(hit) => (
                    AppView {
                        stack: match self.frame() {
                            Some(frame) => self.stack.push(frame),
                            None => self.stack,
                        },
                        promoted: Some(symbol_of(hit)),
                        focus: FocusArea::Symbols,
                        preview_scroll: 0,
                        status: "promoted "@ + spot(hit.file, hit.line),
                        ..self.without_sides()
                    },
                    None,
                ),
                None => (self, None),
            }
        } else {
            (self, Some(ToDo::Leave(self.target())))
        }
    }

    /// Back to where the user was before the current symbol.
    pub open spec fn popped(self) -> AppView {
        if self.stack.len() > 0 {
            let frame = self.stack.last();
            let key = side_key_of(frame.mode, frame.symbol);
            AppView {
                stack: self.stack.drop_last(),
                promoted: Some(frame.symbol),
                side_mode: frame.mode,
                side_states: Map::empty().insert(key, Side::Ready(frame.hits)),
                side_selected: Map::empty().insert(key, frame.selected),
                focus: FocusArea::SidePane,
                preview_scroll: 0,
                status: "popped to previous selection"@,
                ..self
            }
        } else {
            AppView {
                promoted: None,
                focus: FocusArea::Symbols,
                preview_scroll: 0,
                status: count_text(self.symbols.len()),
                ..self.without_sides()
            }
        }
    }

    /// With another place selected.
    pub open spec fn side_moved(self, delta: int) -> AppView {
        match self.current_key() {
            Some(key) if self.hit_count() > 0 => {
                let to = stepped(self.hit_index(), delta, self.hit_count());
                AppView {
                    side_selected: self.side_selected.insert(key, to),
                    preview_scroll: if to != self.hit_index() {
                        0
                    } else {
                        self.preview_scroll
                    },
                    ..self
                }
            },
            _ => AppView { focus: FocusArea::Symbols, ..self },
        }
    }

    /// With the symbol or the place before or behind the selected one selected.
    pub open spec fn moved_one(self, delta: int) -> AppView {
        if self.focus == FocusArea::SidePane {
            self.side_moved(delta)
        } else if self.promoted is Some || (delta > 0 && self.symbols.len() == 0) {
            self
        } else {
            let to = stepped(self.selected, delta, self.symbols.len());
            AppView {
                selected: to,
                preview_scroll: if to != self.selected {
                    0
                } else {
                    self.preview_scroll
                },
                ..self
            }
        }
    }

    /// With a symbol or a place further on selected.
    pub open spec fn moved_far(self, delta: int) -> AppView {
        if self.focus == FocusArea::SidePane {
            self.side_moved(delta)
        } else if self.promoted is Some {
            self
        } else if self.symbols.len() == 0 {
            AppView { selected: 0, ..self }
        } else {
            AppView {
                selected: stepped(self.selected, delta, self.symbols.len()),
                preview_scroll: 0,
                ..self
            }
        }
    }

    /// With something else in the side pane.
    pub open spec fn in_mode(self, mode: SidePaneMode) -> AppView {
        if self.side_mode == mode {
            self
        } else {
            AppView {
                side_mode: mode,
                preview_scroll: 0,
                focus: if mode == SidePaneMode::Source {
                    FocusArea::Symbols
                } else {
                    self.focus
                },
                ..self
            }
        }
    }

    /// With the focus moved. The side pane takes it only where it has a place.
    pub open spec fn focus_toggled(self) -> AppView {
        if self.side_mode == SidePaneMode::Source {
            self
        } else {
            AppView {
                focus: if self.focus == FocusArea::Symbols && self.hit_count() > 0 {
                    FocusArea::SidePane
                } else {
                    FocusArea::Symbols
                },
                preview_scroll: 0,
                ..self
            }
        }
    }

    /// With the preview scrolled.
    pub open spec fn scrolled(self, delta: int) -> AppView {
        if self.symbols.len() > 0 {
            AppView { preview_scroll: bounded_sum(self.preview_scroll, delta), ..self }
        } else {
            self
        }
    }
}

fn step(selected: usize, delta: isize, count: usize) -> (r: usize)
    requires
        count > 0 || delta < 0,
    ensures
        r == stepped(selected, delta as int, count as nat),
{
    if delta < 0 {
        let to: i128 = selected as i128 + delta as i128;
        if to < 0 {
            0
        } else {
            to as usize
        }
    } else {
        let on: usize = delta as usize;
        if selected < count && on < count - selected {
            selected + on
        } else {
            count - 1
        }
    }
}

fn clear_sides(app: &mut App)
    ensures
        final(app)@ == old(app)@.without_sides(),
{
    app.side_states.clear();
    app.side_selected.clear();
    assert(sides(app.side_states@) =~= Map::empty());
}

fn set_side(app: &mut App, key: String, state: SidePaneState)
    ensures
        final(app)@ == (AppView {
            side_states: old(app)@.side_states.insert(key@, state@),
            ..old(app)@
        }),
{
    let ghost before = app.side_states@;
    let ghost (at, added) = (key@, state);
    app.side_states.insert(key, state);
    assert(sides(app.side_states@) =~= sides(before).insert(at, added@));
}

/// Takes the selected place for the current symbol, or leaves the picker with the
/// place to open.
pub fn handle_enter(app: &mut App) -> (r: Option<Outcome>)
    ensures
        old(app)@.entered().0 == final(app)@,
        old(app)@.entered().1 == todo_view(r),
{
    if app.focus != FocusArea::SidePane {
        return Some(Outcome::Leave(selected_open_target(app)));
    }
    let Some(hit) = selected_side_hit(app) else {
        return None;
    };
    let hit = hit.copy();
    if let Some(frame) = current_navigation_frame(app) {
        let ghost was = app@.stack;
        let ghost added = frame@;
        app.navigation_stack.push(frame);
        assert(frame_views(app.navigation_stack@) =~= was.push(added));
    }
    app.promoted_symbol = Some(symbol_from_hit(&hit));
    app.focus = FocusArea::Symbols;
    app.preview_scroll = 0;
    clear_sides(app);
    let place = spot_text(&hit.file, hit.line);
    app.status = concat2("promoted ", place.as_str());
    None
}

/// Goes back to where the user was before the current symbol.
pub fn pop_navigation(app: &mut App)
    ensures
        final(app)@ == old(app)@.popped(),
{
    let ghost was = app@.stack;
    match app.navigation_stack.pop() {
        Some(frame) => {
            assert(frame_views(app.navigation_stack@) =~= was.drop_last());
            assert(frame@ == was.last());
            let key = side_key(frame.mode, &frame.symbol);
            app.promoted_symbol = Some(frame.symbol);
            app.side_mode = frame.mode;
            clear_sides(app);
            app.side_selected.insert(key.clone(), frame.selected);
            set_side(app, key, SidePaneState::Ready(frame.hits));
            app.focus = FocusArea::SidePane;
            app.status = "popped to previous selection".to_string();
        },
        None => {
            app.promoted_symbol = None;
            app.focus = FocusArea::Symbols;
            clear_sides(app);
            app.status = count_status(app.symbols.len());
        },
    }
    app.preview_scroll = 0;
}

fn select_side_delta(app: &mut App, delta: isize)
    ensures
        final(app)@ == old(app)@.side_moved(delta as int),
{
    let Some(key) = current_side_key(app) else {
        app.focus = FocusArea::Symbols;
        return;
    };
    let count = selected_side_hit_count(app);
    if count == 0 {
        app.focus = FocusArea::Symbols;
        return;
    }
    let previous = selected_side_index(app);
    let selected = step(previous, delta, count);
    app.side_selected.insert(key, selected);
    if selected != previous {
        app.preview_scroll = 0;
    }
}

fn select_one(app: &mut App, delta: isize)
    requires
        delta != 0,
    ensures
        final(app)@ == old(app)@.moved_one(delta as int),
{
    if app.focus == FocusArea::SidePane {
        select_side_delta(app, delta);
        return;
    }
    if app.promoted_symbol.is_some() || (delta > 0 && app.symbols.len() == 0) {
        return;
    }
    let previous = app.selected;
    app.selected = step(previous, delta, app.symbols.len());
    if app.selected != previous {
        app.preview_scroll = 0;
    }
}

/// Selects the symbol or the place before the selected one.
pub fn select_prev(app: &mut App)
    ensures
        final(app)@ == old(app)@.moved_one(-1),
{
    select_one(app, -1)
}

/// Selects the symbol or the place behind the selected one.
pub fn select_next(app: &mut App)
    ensures
        final(app)@ == old(app)@.moved_one(1),
{
    select_one(app, 1)
}

/// Selects a symbol or a place further on.
pub fn select_delta(app: &mut App, delta: isize)
    ensures
        final(app)@ == old(app)@.moved_far(delta as int),
{
    if app.focus == FocusArea::SidePane {
        select_side_delta(app, delta);
        return;
    }
    if app.promoted_symbol.is_some() {
        return;
    }
    if app.symbols.len() == 0 {
        app.selected = 0;
        return;
    }
    app.selected = step(app.selected, delta, app.symbols.len());
    app.preview_scroll = 0;
}

/// Shows something else in the side pane.
pub fn set_side_mode(app: &mut App, mode: SidePaneMode)
    ensures
        final(app)@ == old(app)@.in_mode(mode),
{
    if app.side_mode != mode {
        app.side_mode = mode;
        app.preview_scroll = 0;
        if mode == SidePaneMode::Source {
            app.focus = FocusArea::Symbols;
        }
    }
}

/// Moves the focus.
pub fn toggle_focus(app: &mut App)
    ensures
        final(app)@ == old(app)@.focus_toggled(),
{
    if app.side_mode == SidePaneMode::Source {
        return;
    }
    app.focus = if app.focus == FocusArea::Symbols && selected_side_hit_count(app) > 0 {
        FocusArea::SidePane
    } else {
        FocusArea::Symbols
    };
    app.preview_scroll = 0;
}

/// Scrolls the preview.
pub fn scroll_preview(app: &mut App, delta: isize)
    ensures
        final(app)@ == old(app)@.scrolled(delta as int),
{
    if app.symbols.len() > 0 {
        app.preview_scroll = match app.preview_scroll.checked_add(delta) {
            Some(scroll) => scroll,
            None => {
                if delta > 0 {
                    isize::MAX
                } else {
                    isize::MIN
                }
            },
        };
    }
}

// ---------------------------------------------------------------------------
// The query
// ---------------------------------------------------------------------------

/// The time `wait` later.
pub open spec fn later(now: u64, wait: u64) -> u64 {
    if now + wait > u64::MAX {
        u64::MAX
    } else {
        (now + wait) as u64
    }
}

impl AppView {
    /// With a query that is to be sent when it has rested.
    pub open spec fn marked(self, now: u64) -> AppView {
        AppView {
            due: Some(later(now, DEBOUNCE)),
            status: "searching..."@,
            loading: true,
            empty_retry_count: 0,
            promoted: None,
            stack: Seq::empty(),
            ..self
        }
    }

    /// After an edit of the query.
    pub open spec fn edited(self, edit: InputEdit, now: u64) -> AppView {
        let (input, changed) = self.input.edited(edit);
        let after = AppView { input, ..self };
        if changed {
            after.marked(now)
        } else {
            after
        }
    }

    /// After a key that may be an edit of the query. While a place is the current
    /// symbol the query stays as it is.
    pub open spec fn typed(self, key: KeyEvent, now: u64) -> AppView {
        match key_edit(key) {
            Some(edit) if self.promoted is None => self.edited(edit, now),
            _ => self,
        }
    }

    /// Whether the query is to be sent.
    pub open spec fn asks(self, now: u64) -> bool {
        &&& self.due matches Some(due) && now >= due
        &&& self.input.text != self.last_sent_query
    }

    /// After the query was sent with a number, or was not for a reason.
    pub open spec fn asked(self, id: i64, sent: Result<(), Seq<char>>) -> AppView {
        match sent {
            Ok(_) => AppView {
                last_request_id: id,
                last_sent_query: self.input.text,
                due: None,
                loading: true,
                completions_ready: false,
                ..self
            },
            Err(why) => AppView { status: why, due: None, loading: false, ..self },
        }
    }

    /// With the query to be sent once more, because its answer was empty.
    pub open spec fn retrying(self, now: u64) -> AppView {
        AppView {
            empty_retry_count: if self.empty_retry_count == u8::MAX {
                u8::MAX
            } else {
                (self.empty_retry_count + 1) as u8
            },
            status: "rust-analyzer warming up; retrying search..."@,
            loading: true,
            completions_ready: false,
            due: Some(later(now, DEBOUNCE)),
            last_sent_query: Seq::empty(),
            ..self
        }
    }
}

/// Whether something was sent, as a mathematical object.
pub open spec fn sent_view(sent: Result<(), String>) -> Result<(), Seq<char>> {
    match sent {
        Ok(_) => Ok(()),
        Err(why) => Err(why@),
    }
}

impl App {
    /// A picker with a query that is to be sent at once.
    pub fn new(query: String, now: u64) -> (r: App)
        ensures
            r@.steady(),
            r@.input == (Entry {
                text: query@,
                cursor: query@.len() as int,
                kept: Seq::empty(),
                cutting: false,
            }),
            r@ == (AppView {
                input: r@.input,
                symbols: Seq::empty(),
                promoted: None,
                stack: Seq::empty(),
                selected: 0,
                preview_scroll: 0,
                due: Some(now),
                last_sent_query: Seq::empty(),
                last_request_id: -1i64,
                empty_retry_count: 0,
                status: "type to search, enter to open, esc to quit"@,
                loading: false,
                tokens: Set::empty(),
                completions_ready: false,
                side_mode: SidePaneMode::Source,
                side_states: Map::empty(),
                side_selected: Map::empty(),
                focus: FocusArea::Symbols,
                pending: Seq::empty(),
                tick: 0,
            }),
    {
        let app = App {
            input: Input::new(query),
            symbols: Vec::new(),
            promoted_symbol: None,
            navigation_stack: Vec::new(),
            selected: 0,
            preview_scroll: 0,
            due: Some(now),
            last_sent_query: String::new(),
            last_request_id: -1,
            empty_retry_count: 0,
            status: "type to search, enter to open, esc to quit".to_string(),
            loading: false,
            progress_tokens: Table::new(),
            completions_ready: false,
            side_mode: SidePaneMode::Source,
            side_states: Table::new(),
            side_selected: Table::new(),
            focus: FocusArea::Symbols,
            pending_keys: Vec::new(),
            tick: 0,
        };
        assert(sides(app.side_states@) =~= Map::empty());
        assert(app.progress_tokens@.dom() =~= Set::empty());
        assert(app@.symbols =~= Seq::empty());
        assert(app@.stack =~= Seq::empty());
        app
    }

    /// Counts the pictures that are drawn. The count begins anew behind the last
    /// number.
    pub fn advance(&mut self)
        ensures
            final(self)@ == (AppView {
                tick: if old(self)@.tick == u64::MAX {
                    0
                } else {
                    (old(self)@.tick + 1) as u64
                },
                ..old(self)@
            }),
    {
        self.tick = if self.tick == u64::MAX {
            0
        } else {
            self.tick + 1
        };
    }
}

fn time_after(now: u64, wait: u64) -> (r: u64)
    ensures
        r == later(now, wait),
{
    if now > u64::MAX - wait {
        u64::MAX
    } else {
        now + wait
    }
}

fn mark_dirty(app: &mut App, now: u64)
    ensures
        final(app)@ == old(app)@.marked(now),
{
    app.due = Some(time_after(now, DEBOUNCE));
    app.status = "searching...".to_string();
    app.loading = true;
    app.empty_retry_count = 0;
    app.promoted_symbol = None;
    app.navigation_stack.clear();
    assert(app@.stack =~= Seq::empty());
}

/// Edits the query.
pub fn handle_input_request(app: &mut App, edit: InputEdit, now: u64)
    ensures
        final(app)@ == old(app)@.edited(edit, now),
{
    if edit_input(&mut app.input, edit) {
        mark_dirty(app, now);
    }
}

/// Edits the query where a key is an edit. While a place is the current symbol the
/// query stays as it is.
pub fn handle_input_key(app: &mut App, key: &KeyEvent, now: u64)
    ensures
        final(app)@ == old(app)@.typed(*key, now),
{
    if app.promoted_symbol.is_some() {
        return;
    }
    if let Some(edit) = edit_for(key) {
        handle_input_request(app, edit, now);
    }
}

/// The request to send now, where the query is to be sent.
pub fn maybe_send_query(app: &App, client: &mut LspClient, now: u64) -> (r: Option<Request>)
    ensures
        r is Some <==> app@.asks(now),
        match r {
            Some(request) => {
                &&& request.id == old(client)@.next_id
                &&& request.message@ == request_value(
                    request.id,
                    "workspace/symbol"@,
                    Value::Object(seq![("query"@, Value::Text(app@.input.text))]),
                )
                &&& final(client)@ == old(client)@.numbered().awaiting(
                    request.id,
                    Pending::WorkspaceSymbol { query: app@.input.text },
                )
            },
            None => final(client)@ == old(client)@,
        },
{
    let Some(due) = app.due else {
        return None;
    };
    if now < due || same(app.input.value(), app.last_sent_query.as_str()) {
        return None;
    }
    Some(client.workspace_symbol(app.input.value().to_string()))
}

/// Tells the picker that the query was sent, or why it was not.
pub fn query_sent(app: &mut App, id: i64, sent: Result<(), String>)
    ensures
        final(app)@ == old(app)@.asked(id, sent_view(sent)),
{
    match sent {
        Ok(_) => {
            app.last_request_id = id;
            app.last_sent_query = app.input.value().to_string();
            app.due = None;
            app.loading = true;
            app.completions_ready = false;
        },
        Err(why) => {
            app.status = why;
            app.due = None;
            app.loading = false;
        },
    }
}

fn schedule_empty_retry(app: &mut App, now: u64)
    ensures
        final(app)@ == old(app)@.retrying(now),
{
    if app.empty_retry_count < u8::MAX {
        app.empty_retry_count = app.empty_retry_count + 1;
    }
    app.status = "rust-analyzer warming up; retrying search...".to_string();
    app.loading = true;
    app.completions_ready = false;
    app.due = Some(time_after(now, DEBOUNCE));
    app.last_sent_query = String::new();
}

// ---------------------------------------------------------------------------
// The side pane
// ---------------------------------------------------------------------------

/// A request for the content of the side pane, and what it is found by.
#[derive(Debug, PartialEq, Eq)]
pub struct SideRequest {
    pub key: String,
    pub request: Request,
}

impl AppView {
    /// The symbol whose places the side pane still has to ask for.
    pub open spec fn side_wanted(self) -> Option<SymbolView> {
        match (self.active(), self.current_key()) {
            (Some(symbol), Some(key)) if self.completions_ready && !self.side_states.contains_key(
                key,
            ) => Some(symbol),
            _ => None,
        }
    }

    /// With the content of the side pane on its way.
    pub open spec fn awaiting_side(self, key: Seq<char>) -> AppView {
        AppView { side_states: self.side_states.insert(key, Side::Loading), ..self }
    }

    /// After the request for the content of the side pane was sent, or was not for a
    /// reason.
    pub open spec fn side_asked(self, key: Seq<char>, sent: Result<(), Seq<char>>) -> AppView {
        match sent {
            Ok(_) => AppView {
                status: "loading "@ + self.side_mode.content() + "..."@,
                loading: true,
                ..self
            },
            Err(why) => AppView {
                side_states: self.side_states.insert(key, Side::Error(why)),
                status: why,
                loading: false,
                ..self
            },
        }
    }
}

/// What the side pane asks the client for.
pub open spec fn side_prepared(
    mode: SidePaneMode,
    before: ClientView,
    after: ClientView,
    symbol: SymbolView,
    key: Seq<char>,
    request: Request,
) -> bool {
    let context = Value::Object(seq![("includeDeclaration"@, Value::Bool(false))]);
    let (method, pending, params) = match mode {
        SidePaneMode::References => (
            "textDocument/references"@,
            Pending::References { key },
            symbol_position(before.root, symbol, Some(context)),
        ),
        SidePaneMode::Callers => (
            "textDocument/prepareCallHierarchy"@,
            Pending::PrepareCallHierarchy { key, direction: CallDirection::Incoming },
            symbol_position(before.root, symbol, None),
        ),
        _ => (
            "textDocument/prepareCallHierarchy"@,
            Pending::PrepareCallHierarchy { key, direction: CallDirection::Outgoing },
            symbol_position(before.root, symbol, None),
        ),
    };
    &&& params matches Ok(params)
    &&& request.id == before.next_id
    &&& request.message@ == request_value(before.next_id, method, params)
    &&& after == before.numbered().awaiting(before.next_id, pending)
}

/// The request to send now, where the side pane wants places. Where the symbol has
/// no URI, the side pane is told why.
pub fn maybe_request_side_pane(app: &mut App, client: &mut LspClient) -> (r: Option<SideRequest>)
    ensures
        match old(app)@.side_wanted() {
            None => r is None && final(app)@ == old(app)@ && final(client)@ == old(client)@,
            Some(symbol) => {
                let key = side_key_of(old(app)@.side_mode, symbol);
                let path = symbol_path(old(client)@.root, symbol.file);
                if is_absolute(path) {
                    &&& r matches Some(asked)
                    &&& asked.key@ == key
                    &&& side_prepared(
                        old(app)@.side_mode,
                        old(client)@,
                        final(client)@,
                        symbol,
                        key,
                        asked.request,
                    )
                    &&& final(app)@ == old(app)@.awaiting_side(key)
                } else {
                    &&& r is None
                    &&& final(client)@ == old(client)@.numbered()
                    &&& final(app)@ == old(app)@.awaiting_side(key).side_asked(
                        key,
                        Err(Fault::NoUri(shown(path)).text()),
                    )
                }
            },
        },
{
    if !app.completions_ready {
        return None;
    }
    let Some(key) = current_side_key(app) else {
        return None;
    };
    if app.side_states.contains_key(key.as_str()) {
        return None;
    }
    let Some(symbol) = active_symbol(app) else {
        return None;
    };
    let symbol = symbol.copy();
    set_side(app, key.clone(), SidePaneState::Loading);
    let asked = match app.side_mode {
        SidePaneMode::References => client.references(&symbol, key.clone()),
        SidePaneMode::Callers => client.incoming_calls(&symbol, key.clone()),
        _ => client.outgoing_calls(&symbol, key.clone()),
    };
    match asked {
        Ok(request) => Some(SideRequest { key, request }),
        Err(error) => {
            side_requested(app, key, Err(error.message()));
            None
        },
    }
}

/// Tells the picker that the request for the side pane was sent, or why it was not.
pub fn side_requested(app: &mut App, key: String, sent: Result<(), String>)
    ensures
        final(app)@ == old(app)@.side_asked(key@, sent_view(sent)),
{
    match sent {
        Ok(_) => {
            app.status = concat3("loading ", app.side_mode.loading_label(), "...");
            app.loading = true;
        },
        Err(why) => {
            app.status = why.clone();
            app.loading = false;
            set_side(app, key, SidePaneState::Error(why));
        },
    }
}

// ---------------------------------------------------------------------------
// What the client tells
// ---------------------------------------------------------------------------

impl AppView {
    /// With the symbols of an answer.
    pub open spec fn answered(self, symbols: Seq<SymbolView>) -> AppView {
        if self.promoted is Some {
            AppView { symbols, ..self }
        } else {
            let shown = AppView {
                symbols,
                stack: Seq::empty(),
                selected: if self.selected < symbols.len() {
                    self.selected
                } else if symbols.len() > 0 {
                    (symbols.len() - 1) as usize
                } else {
                    0
                },
                preview_scroll: 0,
                focus: FocusArea::Symbols,
                ..self.without_sides()
            };
            if self.tokens != Set::<Seq<char>>::empty() && symbols.len() == 0 {
                AppView {
                    status: "rust-analyzer is still indexing..."@,
                    loading: true,
                    completions_ready: false,
                    ..shown
                }
            } else {
                AppView {
                    empty_retry_count: 0,
                    status: count_text(symbols.len()),
                    loading: false,
                    completions_ready: true,
                    ..shown
                }
            }
        }
    }

    /// With the places for a side pane.
    pub open spec fn side_answered(
        self,
        key: Seq<char>,
        hits: Seq<HitView>,
        content: Seq<char>,
    ) -> AppView {
        let after = AppView {
            side_states: self.side_states.insert(key, Side::Ready(hits)),
            side_selected: self.side_selected.insert(key, 0),
            ..self
        };
        if self.current_key() == Some(key) {
            AppView {
                status: content + " loaded"@,
                loading: self.tokens != Set::<Seq<char>>::empty(),
                ..after
            }
        } else {
            after
        }
    }

    /// With the work of the server begun, gone on or ended.
    pub open spec fn progressed(
        self,
        token: Seq<char>,
        active: bool,
        message: Seq<char>,
        now: u64,
    ) -> AppView {
        if active {
            AppView {
                tokens: self.tokens.insert(token),
                status: "rust-analyzer: "@ + message,
                loading: true,
                ..self
            }
        } else {
            let tokens = self.tokens.remove(token);
            let idle = tokens == Set::<Seq<char>>::empty();
            let after = AppView {
                tokens,
                status: if idle {
                    "rust-analyzer ready"@
                } else {
                    "rust-analyzer is indexing..."@
                },
                ..self
            };
            if self.tokens != Set::<Seq<char>>::empty() && idle && self.input.text.len() > 0 {
                AppView { due: Some(now), loading: true, ..after }
            } else {
                AppView { loading: !idle, ..after }
            }
        }
    }

    /// After the client told something.
    pub open spec fn told(self, event: EventView, now: u64) -> AppView {
        match event {
            EventView::Symbols { request_id, query, symbols } => if request_id
                != self.last_request_id || query != self.last_sent_query {
                self
            } else if symbols.len() == 0 && query.len() > 0 && (self.tokens
                != Set::<Seq<char>>::empty() || self.empty_retry_count < EMPTY_RETRIES) {
                self.retrying(now)
            } else {
                self.answered(symbols)
            },
            EventView::Progress { token, active, message } => self.progressed(
                token,
                active,
                message,
                now,
            ),
            EventView::Error(why) => AppView {
                status: why,
                loading: false,
                completions_ready: false,
                ..self
            },
            EventView::References { key, hits } => self.side_answered(key, hits, "references"@),
            EventView::CallHierarchy { key, direction, hits } => self.side_answered(
                key,
                hits,
                match direction {
                    CallDirection::Incoming => "callers"@,
                    CallDirection::Outgoing => "callees"@,
                },
            ),
            EventView::SideError { key, message } => {
                let after = AppView {
                    side_states: self.side_states.insert(key, Side::Error(message)),
                    ..self
                };
                if self.current_key() == Some(key) {
                    AppView {
                        status: message,
                        loading: self.tokens != Set::<Seq<char>>::empty(),
                        ..after
                    }
                } else {
                    after
                }
            },
            EventView::Ready => self,
        }
    }
}

fn is_working(tokens: &Table<()>) -> (r: bool)
    ensures
        r == (tokens@.dom() != Set::<Seq<char>>::empty()),
{
    proof {
        if tokens@.dom() == Set::<Seq<char>>::empty() {
            assert(tokens@ =~= Map::empty());
        }
        assert(Map::<Seq<char>, ()>::empty().dom() =~= Set::empty());
    }
    !tokens.is_empty()
}

fn is_current(app: &App, key: &str) -> (r: bool)
    ensures
        r == (app@.current_key() == Some(key@)),
{
    match current_side_key(app) {
        Some(current) => same(current.as_str(), key),
        None => false,
    }
}

fn show_symbols(app: &mut App, symbols: Vec<Symbol>)
    ensures
        final(app)@ == old(app)@.answered(symbol_views(symbols@)),
{
    app.symbols = symbols;
    if app.promoted_symbol.is_some() {
        return;
    }
    app.navigation_stack.clear();
    assert(app@.stack =~= Seq::empty());
    if app.selected >= app.symbols.len() {
        app.selected = if app.symbols.len() > 0 {
            app.symbols.len() - 1
        } else {
            0
        };
    }
    app.preview_scroll = 0;
    clear_sides(app);
    app.focus = FocusArea::Symbols;
    if app.symbols.len() == 0 && is_working(&app.progress_tokens) {
        app.status = "rust-analyzer is still indexing...".to_string();
        app.loading = true;
        app.completions_ready = false;
    } else {
        app.empty_retry_count = 0;
        app.status = count_status(app.symbols.len());
        app.loading = false;
        app.completions_ready = true;
    }
}

fn show_hits(app: &mut App, key: String, hits: Vec<LocationHit>, content: &str)
    ensures
        final(app)@ == old(app)@.side_answered(key@, hit_views(hits@), content@),
{
    let current = is_current(app, key.as_str());
    app.side_selected.insert(key.clone(), 0);
    set_side(app, key, SidePaneState::Ready(hits));
    if current {
        app.status = concat2(content, " loaded");
        app.loading = is_working(&app.progress_tokens);
    }
}

fn show_progress(app: &mut App, token: String, active: bool, message: String, now: u64)
    ensures
        final(app)@ == old(app)@.progressed(token@, active, message@, now),
{
    let ghost before = app.progress_tokens@;
    let ghost name = token@;
    let was_active = is_working(&app.progress_tokens);
    if active {
        app.progress_tokens.insert(token, ());
        assert(app.progress_tokens@.dom() =~= before.dom().insert(name));
        app.status = concat2("rust-analyzer: ", message.as_str());
        app.loading = true;
        return;
    }
    app.progress_tokens.remove(token.as_str());
    assert(app.progress_tokens@.dom() =~= before.dom().remove(name));
    let is_active = is_working(&app.progress_tokens);
    app.status = if is_active {
        "rust-analyzer is indexing...".to_string()
    } else {
        "rust-analyzer ready".to_string()
    };
    if was_active && !is_active && !app.input.value().is_empty() {
        app.due = Some(now);
        app.loading = true;
    } else {
        app.loading = is_active;
    }
}

/// Takes in what the client tells.
pub fn handle_lsp_event(app: &mut App, event: LspEvent, now: u64)
    ensures
        final(app)@ == old(app)@.told(event@, now),
{
    match event {
        LspEvent::Symbols { request_id, query, symbols } => {
            if request_id != app.last_request_id || !same(
                query.as_str(),
                app.last_sent_query.as_str(),
            ) {
                return;
            }
            if symbols.len() == 0 && !query.as_str().is_empty() && (is_working(&app.progress_tokens)
                || app.empty_retry_count < EMPTY_RETRIES) {
                schedule_empty_retry(app, now);
            } else {
                show_symbols(app, symbols);
            }
        },
        LspEvent::Progress { token, active, message } => {
            show_progress(app, token, active, message, now)
        },
        LspEvent::Error(why) => {
            app.status = why;
            app.loading = false;
            app.completions_ready = false;
        },
        LspEvent::References { key, hits } => show_hits(app, key, hits, "references"),
        LspEvent::CallHierarchy { key, direction, hits } => {
            let content = match direction {
                CallDirection::Incoming => "callers",
                CallDirection::Outgoing => "callees",
            };
            show_hits(app, key, hits, content)
        },
        LspEvent::SideError { key, message } => {
            let current = is_current(app, key.as_str());
            set_side(app, key, SidePaneState::Error(message.clone()));
            if current {
                app.status = message;
                app.loading = is_working(&app.progress_tokens);
            }
        },
        LspEvent::Ready => {},
    }
}

// ---------------------------------------------------------------------------
// Actions
// ---------------------------------------------------------------------------

/// What is left to do after a key.
#[derive(Debug, PartialEq, Eq)]
pub enum Outcome {
    /// Leave the picker, and open the target if there is one.
    Leave(Option<OpenTarget>),
    /// Copy the text.
    Copy(String),
}

/// What is left to do after a key.
pub enum ToDo {
    Leave(Option<Target>),
    Copy(Seq<char>),
}

impl View for Outcome {
    type V = ToDo;

    open spec fn view(&self) -> ToDo {
        match self {
            Outcome::Leave(target) => ToDo::Leave(target_view(*target)),
            Outcome::Copy(text) => ToDo::Copy(text@),
        }
    }
}

/// An outcome that may be missing.
pub open spec fn todo_view(outcome: Option<Outcome>) -> Option<ToDo> {
    match outcome {
        Some(outcome) => Some(outcome@),
        None => None,
    }
}

impl AppView {
    /// What an action that a key leads to does, and what is left to do.
    pub open spec fn acted(self, action: Seq<char>, key: KeyEvent, now: u64) -> (
        AppView,
        Option<ToDo>,
    ) {
        if action == "quit"@ {
            (self, Some(ToDo::Leave(None)))
        } else if action == "quit_if_empty"@ {
            if self.input.text.len() == 0 {
                (self, Some(ToDo::Leave(None)))
            } else {
                (self.typed(key, now), None)
            }
        } else if action == "open"@ {
            self.entered()
        } else if action == "pop"@ {
            if self.promoted is Some {
                (self.popped(), None)
            } else {
                (self.typed(key, now), None)
            }
        } else if action == "toggle_focus"@ {
            (self.focus_toggled(), None)
        } else if action == "references"@ {
            (self.in_mode(SidePaneMode::References), None)
        } else if action == "callers"@ {
            (self.in_mode(SidePaneMode::Callers), None)
        } else if action == "callees"@ {
            (self.in_mode(SidePaneMode::Callees), None)
        } else if action == "source"@ {
            (self.in_mode(SidePaneMode::Source), None)
        } else if action == "copy"@ {
            match self.copy_text() {
                Some(text) => (self, Some(ToDo::Copy(text))),
                None => (self.saying("nothing selected to copy"@), None),
            }
        } else if action == "select_prev"@ {
            (self.moved_one(-1), None)
        } else if action == "select_next"@ {
            (self.moved_one(1), None)
        } else if action == "preview_up"@ {
            (self.scrolled(-1), None)
        } else if action == "preview_down"@ {
            (self.scrolled(1), None)
        } else if action == "page_up"@ {
            (self.moved_far(-10), None)
        } else if action == "page_down"@ {
            (self.moved_far(10), None)
        } else if action == "delete_next_char"@ && self.promoted is None {
            (self.edited(InputEdit::DeleteNextChar, now), None)
        } else {
            (self, None)
        }
    }

    /// What a key does, and what is left to do.
    pub open spec fn pressed(
        self,
        bindings: Seq<Bound>,
        key: KeyEvent,
        now: u64,
    ) -> (AppView, Option<ToDo>) {
        let pending = self.pending.push(normal_key(key));
        match lookup(bindings, navsplat_names(), pending) {
            MatchView::Prefix => (
                AppView { pending, status: pending_text(pending), ..self },
                None,
            ),
            MatchView::Action(action) => AppView { pending: Seq::empty(), ..self }.acted(
                action,
                key,
                now,
            ),
            MatchView::NoMatch => if self.pending.len() > 0 {
                (
                    AppView { pending: Seq::empty(), ..self }.saying("unknown key sequence"@),
                    None,
                )
            } else {
                (self.typed(key, now), None)
            },
        }
    }
}

/// The built-in bindings.
pub open spec fn navsplat_bindings() -> Rows {
    seq![
        ("quit"@, seq!["esc"@, "ctrl-c"@]),
        ("quit_if_empty"@, seq!["q"@]),
        ("open"@, seq!["enter"@]),
        ("pop"@, seq!["backspace"@]),
        ("toggle_focus"@, seq!["tab"@]),
        ("references"@, seq!["alt-r"@]),
        ("callers"@, seq!["alt-c"@]),
        ("callees"@, seq!["alt-e"@]),
        ("source"@, seq!["alt-s"@]),
        ("copy"@, seq!["alt-y"@]),
        ("select_prev"@, seq!["ctrl-p"@, "up"@]),
        ("select_next"@, seq!["ctrl-n"@, "down"@]),
        ("preview_up"@, seq!["shift-up"@]),
        ("preview_down"@, seq!["shift-down"@]),
        ("page_up"@, seq!["pageup"@]),
        ("page_down"@, seq!["pagedown"@]),
        ("delete_next_char"@, seq!["ctrl-d"@]),
    ]
}

/// The built-in bindings.
pub fn navsplat_key_bindings() -> (r: Vec<(&'static str, &'static [&'static str])>)
    ensures
        default_rows(r@) == navsplat_bindings(),
{
    let table: Vec<(&'static str, &'static [&'static str])> = vec![
        ("quit", &["esc", "ctrl-c"]),
        ("quit_if_empty", &["q"]),
        ("open", &["enter"]),
        ("pop", &["backspace"]),
        ("toggle_focus", &["tab"]),
        ("references", &["alt-r"]),
        ("callers", &["alt-c"]),
        ("callees", &["alt-e"]),
        ("source", &["alt-s"]),
        ("copy", &["alt-y"]),
        ("select_prev", &["ctrl-p", "up"]),
        ("select_next", &["ctrl-n", "down"]),
        ("preview_up", &["shift-up"]),
        ("preview_down", &["shift-down"]),
        ("page_up", &["pageup"]),
        ("page_down", &["pagedown"]),
        ("delete_next_char", &["ctrl-d"]),
    ];
    assert(default_rows(table@) =~~= navsplat_bindings());
    table
}

/// The actions of the picker.
pub open spec fn navsplat_names() -> Seq<Seq<char>> {
    seq![
        "quit"@,
        "quit_if_empty"@,
        "open"@,
        "pop"@,
        "toggle_focus"@,
        "references"@,
        "callers"@,
        "callees"@,
        "source"@,
        "copy"@,
        "select_prev"@,
        "select_next"@,
        "preview_up"@,
        "preview_down"@,
        "page_up"@,
        "page_down"@,
        "delete_next_char"@,
    ]
}

/// The actions of the picker.
pub fn navsplat_actions() -> (r: Vec<&'static str>)
    ensures
        str_views(r@) == navsplat_names(),
{
    let list: Vec<&'static str> = vec![
        "quit",
        "quit_if_empty",
        "open",
        "pop",
        "toggle_focus",
        "references",
        "callers",
        "callees",
        "source",
        "copy",
        "select_prev",
        "select_next",
        "preview_up",
        "preview_down",
        "page_up",
        "page_down",
        "delete_next_char",
    ];
    assert(str_views(list@) =~~= navsplat_names());
    list
}

/// Does what an action that a key leads to stands for.
pub fn handle_action(app: &mut App, key: &KeyEvent, action: &str, now: u64) -> (r: Option<Outcome>)
    ensures
        old(app)@.acted(action@, *key, now).0 == final(app)@,
        old(app)@.acted(action@, *key, now).1 == todo_view(r),
{
    if same(action, "quit") {
        return Some(Outcome::Leave(None));
    } else if same(action, "quit_if_empty") {
        if app.input.value().is_empty() {
            return Some(Outcome::Leave(None));
        }
        handle_input_key(app, key, now);
    } else if same(action, "open") {
        return handle_enter(app);
    } else if same(action, "pop") {
        if app.promoted_symbol.is_some() {
            pop_navigation(app);
        } else {
            handle_input_key(app, key, now);
        }
    } else if same(action, "toggle_focus") {
        toggle_focus(app);
    } else if same(action, "references") {
        set_side_mode(app, SidePaneMode::References);
    } else if same(action, "callers") {
        set_side_mode(app, SidePaneMode::Callers);
    } else if same(action, "callees") {
        set_side_mode(app, SidePaneMode::Callees);
    } else if same(action, "source") {
        set_side_mode(app, SidePaneMode::Source);
    } else if same(action, "copy") {
        return copy_selection(app);
    } else if same(action, "select_prev") {
        select_prev(app);
    } else if same(action, "select_next") {
        select_next(app);
    } else if same(action, "preview_up") {
        scroll_preview(app, -1);
    } else if same(action, "preview_down") {
        scroll_preview(app, 1);
    } else if same(action, "page_up") {
        select_delta(app, -10);
    } else if same(action, "page_down") {
        select_delta(app, 10);
    } else if same(action, "delete_next_char") && app.promoted_symbol.is_none() {
        handle_input_request(app, InputEdit::DeleteNextChar, now);
    }
    None
}

/// Asks for the selected place to be copied.
fn copy_selection(app: &mut App) -> (r: Option<Outcome>)
    ensures
        match old(app)@.copy_text() {
            Some(text) => todo_view(r) == Some(ToDo::Copy(text)) && final(app)@ == old(app)@,
            None => r is None && final(app)@ == old(app)@.saying("nothing selected to copy"@),
        },
{
    match selected_clipboard_text(app) {
        Some(text) => Some(Outcome::Copy(text)),
        None => {
            app.status = "nothing selected to copy".to_string();
            None
        },
    }
}

/// Tells the picker by what means the text was copied, or why it was not.
pub fn selection_copied(app: &mut App, copied: Result<String, String>)
    ensures
        final(app)@ == old(app)@.saying(
            match copied {
                Ok(tool) => "copied selection with "@ + tool@,
                Err(why) => why@,
            },
        ),
{
    app.status = match copied {
        Ok(tool) => concat2("copied selection with ", tool.as_str()),
        Err(why) => why,
    };
}

/// Does what a key stands for.
pub fn handle_key(app: &mut App, key: &KeyEvent, keymap: &Keymap, now: u64) -> (r: Option<Outcome>)
    ensures
        old(app)@.pressed(keymap@, *key, now).0 == final(app)@,
        old(app)@.pressed(keymap@, *key, now).1 == todo_view(r),
{
    let actions = navsplat_actions();
    match keymap.match_key_for_actions(actions.as_slice(), &app.pending_keys, key) {
        KeymapMatch::Prefix => {
            if let Some(press) = keymap.keypress_from_event(key) {
                app.pending_keys.push(press);
                app.status = pending_status(&app.pending_keys);
            }
            None
        },
        KeymapMatch::Action(action) => {
            app.pending_keys.clear();
            handle_action(app, key, action.as_str(), now)
        },
        KeymapMatch::NoMatch => {
            if app.pending_keys.len() > 0 {
                app.pending_keys.clear();
                app.status = "unknown key sequence".to_string();
            } else {
                handle_input_key(app, key, now);
            }
            None
        },
    }
}

// ---------------------------------------------------------------------------
// Around the picker
// ---------------------------------------------------------------------------

/// The first line of a source with `count` lines that is seen in a preview of `rows`
/// rows. The symbol's line is in the middle, and `scroll` goes on top of that, as far
/// as the source reaches.
pub open spec fn preview_first(line: int, count: int, rows: int, scroll: int) -> int {
    let wanted = line - 1 - rows / 2 + scroll;
    let last = if count > rows {
        count - rows
    } else {
        0
    };
    if wanted < 0 {
        0
    } else if wanted > last {
        last
    } else {
        wanted
    }
}

/// The first line of a source that the preview shows.
pub fn preview_start(line: u32, count: usize, rows: u16, scroll: isize) -> (r: usize)
    ensures
        r == preview_first(line as int, count as int, rows as int, scroll as int),
{
    let wanted: i128 = line as i128 - 1 - (rows / 2) as i128 + scroll as i128;
    let last: usize = if count > rows as usize {
        count - rows as usize
    } else {
        0
    };
    if wanted < 0 {
        0
    } else if wanted > last as i128 {
        last
    } else {
        wanted as usize
    }
}

/// A preview that is not scrolled shows the symbol's line.
pub proof fn law_preview_shows_symbol(line: int, count: int, rows: int)
    requires
        1 <= line <= count,
        rows > 0,
    ensures
        ({
            let first = preview_first(line, count, rows, 0);
            first <= line - 1 < first + rows
        }),
{
}

/// The height of the picker, where the user asks for one.
pub fn picker_height(height: u16) -> (r: u16)
    ensures
        r == if height < MIN_HEIGHT {
            MIN_HEIGHT
        } else {
            height
        },
{
    if height < MIN_HEIGHT {
        MIN_HEIGHT
    } else {
        height
    }
}

/// The files that mark the root of a workspace.
pub fn root_markers(dir: &FilePath) -> (r: (FilePath, FilePath))
    ensures
        r.0@ == joined(dir@, path_of("Cargo.toml"@)),
        r.1@ == joined(dir@, path_of(".git"@)),
{
    (dir.join(&FilePath::of_text("Cargo.toml")), dir.join(&FilePath::of_text(".git")))
}

/// The root of the workspace: the first of the directories that is marked. Each
/// directory comes with whether one of its marks is there.
pub fn detect_workspace_root(dirs: &Vec<(FilePath, bool)>) -> (r: Result<FilePath, String>)
    ensures
        match r {
            Ok(root) => exists|i: int|
                {
                    &&& 0 <= i < dirs@.len()
                    &&& (#[trigger] dirs@[i]).1
                    &&& dirs@[i].0@ == root@
                    &&& forall|j: int| 0 <= j < i ==> !(#[trigger] dirs@[j]).1
                },
            Err(why) => why@
                == "could not find workspace root from current directory; pass --root"@ && forall|
                i: int,
            |
                0 <= i < dirs@.len() ==> !(#[trigger] dirs@[i]).1,
        },
{
    let mut i: usize = 0;
    while i < dirs.len()
        invariant
            i <= dirs@.len(),
            forall|j: int| 0 <= j < i ==> !(#[trigger] dirs@[j]).1,
        decreases dirs@.len() - i,
    {
        if dirs[i].1 {
            return Ok(dirs[i].0.copy());
        }
        i = i + 1;
    }
    Err("could not find workspace root from current directory; pass --root".to_string())
}

/// The command that runs the editor: the one that the user asks for, or else the
/// first one that the environment names, or else `vi`.
pub fn editor_command(asked: Option<String>, visual: Option<String>, editor: Option<String>) -> (r:
    String)
    ensures
        r@ == match (option_view(asked), option_view(visual), option_view(editor)) {
            (Some(command), _, _) => command,
            (None, Some(command), _) => command,
            (None, None, Some(command)) => command,
            (None, None, None) => "vi"@,
        },
{
    match asked {
        Some(command) => command,
        None => match visual {
            Some(command) => command,
            None => match editor {
                Some(command) => command,
                None => "vi".to_string(),
            },
        },
    }
}

/// A program to run, its arguments, and the path that comes behind them.
#[derive(Debug, PartialEq, Eq)]
pub struct Invocation {
    pub program: String,
    pub args: Vec<String>,
    pub file: FilePath,
}

/// The words of the command, then the line: `+LINE`.
pub open spec fn editor_words(editor: Seq<char>, target: Target) -> Seq<Seq<char>> {
    words(editor).push("+"@ + decimal(target.line as nat))
}

/// How the editor is run on a target: its program is the first word of the command,
/// and the path comes last.
pub fn editor_invocation(editor: &str, root: &FilePath, target: &OpenTarget) -> (r: Result<
    Invocation,
    String,
>)
    ensures
        match r {
            Ok(run) => {
                &&& words(editor@).len() > 0
                &&& seq![run.program@] + views(run.args@) == editor_words(editor@, target@)
                &&& run.file@ == symbol_path(root@, target@.file)
            },
            Err(why) => words(editor@).len() == 0 && why@ == "empty editor command"@,
        },
{
    let mut args = words_of(editor);
    let ghost parts = words(editor@);
    assert(views(args@).len() == args@.len());
    if args.len() == 0 {
        return Err("empty editor command".to_string());
    }
    let program = args.remove(0);
    assert(program@ == parts[0]) by {
        assert(views(args@) =~= parts.drop_first());
    }
    assert(views(args@) =~= parts.drop_first());
    let line = decimal_of(target.line as u64);
    args.push(concat2("+", line.as_str()));
    assert(seq![program@] + views(args@) =~= editor_words(editor@, target@));
    Ok(Invocation { program, args, file: path_from_root(root, &target.file) })
}

// ---------------------------------------------------------------------------
// Printing symbols
// ---------------------------------------------------------------------------

/// A query whose answer is printed: its text, the number of the last request for it,
/// the work that the server is at, and the time up to which the answer is waited for.
pub struct SymbolQuery {
    pub query: String,
    pub request_id: i64,
    pub progress_tokens: Table<()>,
    pub deadline: Deadline,
}

/// What comes of something that the client tells.
#[derive(Debug, PartialEq, Eq)]
pub enum Printing {
    /// Wait on.
    Wait,
    /// Send the request.
    Ask(Request),
    /// Print the lines, and end.
    Print(Vec<String>),
    /// End with an error.
    Fail(String),
}

/// Whether the symbols of an answer are printed.
pub open spec fn prints(id: i64, tokens: Set<Seq<char>>, request_id: i64, count: nat) -> bool {
    request_id == id && (count > 0 || tokens == Set::<Seq<char>>::empty())
}

/// The work that the server is at, after it told of some.
pub open spec fn working(tokens: Set<Seq<char>>, token: Seq<char>, active: bool) -> Set<Seq<char>> {
    if active {
        tokens.insert(token)
    } else {
        tokens.remove(token)
    }
}

impl SymbolQuery {
    /// Asks for the symbols that match a query.
    pub fn start(query: String, client: &mut LspClient, now: u64) -> (r: (SymbolQuery, Request))
        ensures
            r.0.deadline.at == later(now, PATIENCE),
            r.0.query@ == query@,
            r.0.request_id == old(client)@.next_id,
            r.0.progress_tokens@ == Map::<Seq<char>, ()>::empty(),
            r.1.id == old(client)@.next_id,
            r.1.message@ == request_value(
                old(client)@.next_id,
                "workspace/symbol"@,
                Value::Object(seq![("query"@, Value::Text(query@))]),
            ),
            final(client)@ == old(client)@.numbered().awaiting(
                old(client)@.next_id,
                Pending::WorkspaceSymbol { query: query@ },
            ),
    {
        let request = client.workspace_symbol(query.clone());
        let deadline = Deadline::after(now, PATIENCE);
        let asked = SymbolQuery {
            query,
            request_id: request.id,
            progress_tokens: Table::new(),
            deadline,
        };
        (asked, request)
    }

    /// What is told where the answer has been waited for long enough.
    pub fn overdue(&self, now: u64) -> (r: Option<String>)
        ensures
            r is Some <==> now >= self.deadline.at,
            r matches Some(why) ==> why@ == "timed out waiting for workspace/symbol response"@,
    {
        match self.deadline.rest(now) {
            Some(_) => None,
            None => Some("timed out waiting for workspace/symbol response".to_string()),
        }
    }

    /// Takes in what the client tells. An answer is printed where it has symbols or
    /// the server is at no work. When the server has ended its work, the query is
    /// asked again.
    pub fn take_in(&mut self, event: LspEvent, client: &mut LspClient) -> (r: Printing)
        ensures
            final(self).query@ == old(self).query@,
            final(self).deadline == old(self).deadline,
            match event@ {
                EventView::Symbols { request_id, symbols, .. } => {
                    &&& final(self).request_id == old(self).request_id
                    &&& final(self).progress_tokens@ == old(self).progress_tokens@
                    &&& final(client)@ == old(client)@
                    &&& if prints(
                        old(self).request_id,
                        old(self).progress_tokens@.dom(),
                        request_id,
                        symbols.len(),
                    ) {
                        r matches Printing::Print(lines) && views(lines@) == symbols.map_values(
                            |symbol: SymbolView| symbol_line(symbol),
                        )
                    } else {
                        r == Printing::Wait
                    }
                },
                EventView::Progress { token, active, .. } => {
                    let before = old(self).progress_tokens@.dom();
                    let after = working(before, token, active);
                    &&& final(self).progress_tokens@.dom() == after
                    &&& if before != Set::<Seq<char>>::empty() && after
                        == Set::<Seq<char>>::empty() {
                        &&& r matches Printing::Ask(request)
                        &&& request.id == old(client)@.next_id
                        &&& request.message@ == request_value(
                            request.id,
                            "workspace/symbol"@,
                            Value::Object(seq![("query"@, Value::Text(old(self).query@))]),
                        )
                        &&& final(self).request_id == request.id
                        &&& final(client)@ == old(client)@.numbered().awaiting(
                            request.id,
                            Pending::WorkspaceSymbol { query: old(self).query@ },
                        )
                    } else {
                        &&& r == Printing::Wait
                        &&& final(self).request_id == old(self).request_id
                        &&& final(client)@ == old(client)@
                    }
                },
                EventView::Error(why) => {
                    &&& r matches Printing::Fail(told)
                    &&& told@ == why
                    &&& final(self).request_id == old(self).request_id
                    &&& final(self).progress_tokens@ == old(self).progress_tokens@
                    &&& final(client)@ == old(client)@
                },
                _ => {
                    &&& r == Printing::Wait
                    &&& final(self).request_id == old(self).request_id
                    &&& final(self).progress_tokens@ == old(self).progress_tokens@
                    &&& final(client)@ == old(client)@
                },
            },
    {
        match event {
            LspEvent::Symbols { request_id, query: _, symbols } => {
                if request_id == self.request_id && (symbols.len() > 0 || !is_working(
                    &self.progress_tokens,
                )) {
                    Printing::Print(symbol_lines(&symbols))
                } else {
                    Printing::Wait
                }
            },
            LspEvent::Progress { token, active, message: _ } => {
                let ghost before = self.progress_tokens@;
                let ghost name = token@;
                let was_active = is_working(&self.progress_tokens);
                if active {
                    self.progress_tokens.insert(token, ());
                    assert(self.progress_tokens@.dom() =~= before.dom().insert(name));
                } else {
                    self.progress_tokens.remove(token.as_str());
                    assert(self.progress_tokens@.dom() =~= before.dom().remove(name));
                }
                if was_active && !is_working(&self.progress_tokens) {
                    let request = client.workspace_symbol(self.query.clone());
                    self.request_id = request.id;
                    Printing::Ask(request)
                } else {
                    Printing::Wait
                }
            },
            LspEvent::Error(why) => Printing::Fail(why),
            _ => Printing::Wait,
        }
    }
}

fn symbol_lines(symbols: &Vec<Symbol>) -> (r: Vec<String>)
    ensures
        views(r@) == symbol_views(symbols@).map_values(|symbol: SymbolView| symbol_line(symbol)),
{
    let mut out: Vec<String> = Vec::new();
    let mut i: usize = 0;
    while i < symbols.len()
        invariant
            i <= symbols@.len(),
            out@.len() == i,
            forall|j: int| 0 <= j < i ==> (#[trigger] out@[j])@ == symbol_line(symbols@[j]@),
        decreases symbols@.len() - i,
    {
        out.push(symbol_text(&symbols[i]));
        i = i + 1;
    }
    assert(views(out@) =~= symbol_views(symbols@).map_values(
        |symbol: SymbolView| symbol_line(symbol),
    ));
    out
}

// ---------------------------------------------------------------------------
// Laws
// ---------------------------------------------------------------------------

/// Going back undoes taking a place of the side pane for the current symbol: the
/// symbol, the places, the selected place and the focus are as before, and so are
/// the query, the symbols and the way back from there.
pub proof fn law_pop_undoes_promote(app: AppView)
    requires
        app.focus == FocusArea::SidePane,
        app.selected_hit() is Some,
    ensures
        ({
            let back = app.entered().0.popped();
            &&& back.active() == app.active()
            &&& back.side_mode == app.side_mode
            &&& back.hits() == app.hits()
            &&& back.hit_index() == app.hit_index()
            &&& back.selected_hit() == app.selected_hit()
            &&& back.focus == app.focus
            &&& back.stack == app.stack
            &&& back.input == app.input
            &&& back.symbols == app.symbols
            &&& back.selected == app.selected
        }),
{
    let frame = app.frame()->0;
    let there = app.entered().0;
    assert(there.stack.drop_last() =~= app.stack);
    assert(there.stack.last() == frame);
}

/// An answer to an older request, or to another query, changes nothing.
pub proof fn law_stale_answer_ignored(
    app: AppView,
    request_id: i64,
    query: Seq<char>,
    symbols: Seq<SymbolView>,
    now: u64,
)
    requires
        request_id != app.last_request_id || query != app.last_sent_query,
    ensures
        app.told(EventView::Symbols { request_id, query, symbols }, now) == app,
{
}

/// A query that was changed rests before it is sent, and it is sent once.
pub proof fn law_query_rests(app: AppView, edit: InputEdit, now: u64, then: u64, id: i64)
    requires
        app.input.edited(edit).1,
        now + DEBOUNCE <= u64::MAX,
    ensures
        app.edited(edit, now).asks(then) ==> then >= now + DEBOUNCE,
        !app.edited(edit, now).asked(id, Ok(())).asks(then),
{
}

/// Something is selected of a list: the first item, or another one that there is.
pub open spec fn within(selected: usize, count: nat) -> bool {
    &&& count <= usize::MAX
    &&& selected == 0 || selected < count
}

impl AppView {
    /// The number of the place that is selected for a side pane.
    pub open spec fn picked(self, key: Seq<char>) -> usize {
        if self.side_selected.contains_key(key) {
            self.side_selected[key]
        } else {
            0
        }
    }

    /// What is selected is there: among the symbols, in each side pane, and on the way
    /// back.
    pub open spec fn steady(self) -> bool {
        &&& within(self.selected, self.symbols.len())
        &&& forall|key: Seq<char>| #[trigger]
            self.side_states.contains_key(key) ==> match self.side_states[key] {
                Side::Ready(hits) => within(self.picked(key), hits.len()),
                _ => true,
            }
        &&& forall|i: int|
            0 <= i < self.stack.len() ==> within(
                (#[trigger] self.stack[i]).selected,
                self.stack[i].hits.len(),
            )
    }
}

/// An event holds no more than memory does.
pub open spec fn holds_lists(event: EventView) -> bool {
    match event {
        EventView::Symbols { symbols, .. } => symbols.len() <= usize::MAX,
        EventView::References { hits, .. } => hits.len() <= usize::MAX,
        EventView::CallHierarchy { hits, .. } => hits.len() <= usize::MAX,
        _ => true,
    }
}

/// Where there are symbols or places, one is selected, and the picker opens it.
pub proof fn law_something_is_selected(app: AppView)
    requires
        app.steady(),
    ensures
        app.hit_count() > 0 ==> app.selected_hit() is Some,
        app.promoted is None && app.symbols.len() > 0 ==> app.active() == Some(
            app.symbols[app.selected as int],
        ),
        app.promoted is Some || app.symbols.len() > 0 ==> app.target() is Some,
{
}

proof fn lemma_moves_keep_steady(app: AppView, delta: int, mode: SidePaneMode)
    requires
        app.steady(),
        delta != 0,
    ensures
        app.side_moved(delta).steady(),
        app.moved_one(delta).steady(),
        app.moved_far(delta).steady(),
        app.in_mode(mode).steady(),
        app.focus_toggled().steady(),
        app.scrolled(delta).steady(),
{
    match app.current_key() {
        Some(current) if app.hit_count() > 0 => {
            let after = app.side_moved(delta);
            assert forall|key: Seq<char>| #[trigger] after.side_states.contains_key(key) implies (
            match after.side_states[key] {
                Side::Ready(hits) => within(after.picked(key), hits.len()),
                _ => true,
            }) by {
                assert(app.side_states.contains_key(key));
            }
        },
        _ => {},
    }
}

proof fn lemma_turns_keep_steady(app: AppView, key: KeyEvent, now: u64)
    requires
        app.steady(),
    ensures
        app.entered().0.steady(),
        app.popped().steady(),
        app.typed(key, now).steady(),
        app.edited(InputEdit::DeleteNextChar, now).steady(),
{
    let there = app.entered().0;
    assert forall|i: int| 0 <= i < there.stack.len() implies within(
        (#[trigger] there.stack[i]).selected,
        there.stack[i].hits.len(),
    ) by {
        if i < app.stack.len() {
            assert(there.stack[i] == app.stack[i]);
        }
    }
    if app.stack.len() > 0 {
        let frame = app.stack.last();
        assert(within(frame.selected, frame.hits.len()));
    }
}

/// No action leaves something selected that is not there.
pub proof fn law_actions_keep_steady(app: AppView, action: Seq<char>, key: KeyEvent, now: u64)
    requires
        app.steady(),
    ensures
        app.acted(action, key, now).0.steady(),
{
    lemma_turns_keep_steady(app, key, now);
    lemma_moves_keep_steady(app, -1, SidePaneMode::References);
    lemma_moves_keep_steady(app, 1, SidePaneMode::Callers);
    lemma_moves_keep_steady(app, -10, SidePaneMode::Callees);
    lemma_moves_keep_steady(app, 10, SidePaneMode::Source);
    assert(app.saying("nothing selected to copy"@).steady());
}

/// No key leaves something selected that is not there.
pub proof fn law_keys_keep_steady(app: AppView, bindings: Seq<Bound>, key: KeyEvent, now: u64)
    requires
        app.steady(),
    ensures
        app.pressed(bindings, key, now).0.steady(),
{
    let ready = AppView { pending: Seq::empty(), ..app };
    assert(ready.steady());
    match lookup(bindings, navsplat_names(), app.pending.push(normal_key(key))) {
        MatchView::Action(action) => {
            law_actions_keep_steady(ready, action, key, now);
        },
        MatchView::NoMatch => {
            lemma_turns_keep_steady(app, key, now);
        },
        MatchView::Prefix => {},
    }
}

/// Nothing that the client tells leaves something selected that is not there, except
/// that fewer symbols may come while a place is the current symbol.
pub proof fn law_news_keep_steady(app: AppView, event: EventView, now: u64)
    requires
        app.steady(),
        holds_lists(event),
        app.promoted is Some ==> within(app.selected, app.told(event, now).symbols.len()),
    ensures
        app.told(event, now).steady(),
{
}

/// Nothing that is asked of the server leaves something selected that is not there.
pub proof fn law_requests_keep_steady(
    app: AppView,
    id: i64,
    key: Seq<char>,
    sent: Result<(), Seq<char>>,
)
    requires
        app.steady(),
    ensures
        app.asked(id, sent).steady(),
        app.awaiting_side(key).steady(),
        app.side_asked(key, sent).steady(),
{
}

/// The panes of a symbol do not share their content.
pub proof fn law_panes_apart(symbol: SymbolView, one: SidePaneMode, other: SidePaneMode)
    requires
        one != other,
    ensures
        side_key_of(one, symbol) != side_key_of(other, symbol),
{
    reveal_strlit("Source");
    reveal_strlit("References");
    reveal_strlit("Callers");
    reveal_strlit("Callees");
    let a = side_key_of(one, symbol);
    let b = side_key_of(other, symbol);
    assert(a[0] == one.name()[0] && b[0] == other.name()[0]);
    assert(a[5] == one.name()[5] && b[5] == other.name()[5]);
}

} // verus!
