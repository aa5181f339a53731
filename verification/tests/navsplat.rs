use innards::config::{KeyCode, KeyEvent, KeyEventKind, KeyModifiers, Keymap};
use innards::file_path::FilePath;
use innards::lsp::{CallDirection, LocationHit, LspClient, LspEvent, Symbol, SymbolKind};
use innards::navsplat::query::{edit_for, InputEdit};
use innards::navsplat::{
    active_symbol, current_side_key, detect_workspace_root, editor_command,
    editor_invocation, handle_action, handle_enter, handle_input_request, handle_key,
    handle_lsp_event, hit_text, input_display_value, maybe_request_side_pane, maybe_send_query,
    navsplat_key_bindings, picker_height, pop_navigation, preview_start, query_sent, root_markers,
    select_delta, selected_open_target, selected_side_hit, selection_copied, side_key,
    side_requested, symbol_from_hit, symbol_text, App, FocusArea, OpenTarget, Outcome, Printing,
    SidePaneMode, SidePaneState, SymbolQuery, DEBOUNCE,
};

/// No modifier held.
const PLAIN: KeyModifiers = KeyModifiers {
    shift: false,
    control: false,
    alt: false,
    super_key: false,
    hyper: false,
    meta: false,
};

/// A key that edits nothing.
const KEY: KeyEvent = KeyEvent { code: KeyCode::Null, modifiers: PLAIN, kind: KeyEventKind::Press };

fn symbol(name: &str) -> Symbol {
    Symbol {
        name: name.to_string(),
        kind: SymbolKind::Function,
        file: FilePath::of_text(&format!("src/{name}.rs")),
        line: 3,
        end_line: 9,
        column: 4,
        container_name: None,
    }
}

fn hit(name: Option<&str>, file: &str, line: u32) -> LocationHit {
    LocationHit {
        name: name.map(|s| s.to_string()),
        kind: name.map(|_| SymbolKind::Method),
        file: FilePath::of_text(file),
        line,
        column: 2,
        detail: None,
    }
}

fn client() -> LspClient {
    LspClient::new(FilePath::of_text("/work"))
}

/// A picker that has sent a query and got an answer.
fn picker(names: &[&str]) -> (App, LspClient) {
    let mut app = App::new("q".to_string(), 0);
    let mut client = client();
    let request = maybe_send_query(&app, &mut client, 0).unwrap();
    query_sent(&mut app, request.id, Ok(()));
    let symbols = names.iter().map(|name| symbol(name)).collect();
    let answer = LspEvent::Symbols { request_id: request.id, query: "q".to_string(), symbols };
    handle_lsp_event(&mut app, answer, 0);
    (app, client)
}

/// A picker whose side pane shows references and has the focus.
fn with_references(hits: Vec<LocationHit>) -> App {
    let (mut app, mut client) = picker(&["a", "b"]);
    handle_action(&mut app, &KEY, "references", 0);
    let asked = maybe_request_side_pane(&mut app, &mut client).unwrap();
    side_requested(&mut app, asked.key.clone(), Ok(()));
    assert_eq!(app.status, "loading references...");
    handle_lsp_event(&mut app, LspEvent::References { key: asked.key, hits }, 0);
    assert_eq!(app.status, "references loaded");
    handle_action(&mut app, &KEY, "toggle_focus", 0);
    app
}

#[test]
fn query_rests_before_it_is_sent() {
    let mut app = App::new(String::new(), 0);
    let mut client = client();
    assert!(maybe_send_query(&app, &mut client, 5).is_none());
    handle_input_request(&mut app, InputEdit::InsertChar('m'), 1000);
    assert_eq!(app.status, "searching...");
    assert!(maybe_send_query(&app, &mut client, 1000 + DEBOUNCE - 1).is_none());
    let request = maybe_send_query(&app, &mut client, 1000 + DEBOUNCE).unwrap();
    assert_eq!(request.message.get("params").unwrap().get_text("query"), Some("m"));
    query_sent(&mut app, request.id, Ok(()));
    assert_eq!(app.last_sent_query, "m");
    assert!(maybe_send_query(&app, &mut client, 5000).is_none());
    handle_input_request(&mut app, InputEdit::InsertChar('n'), 6000);
    query_sent(&mut app, 7, Err("broken pipe".to_string()));
    assert_eq!((app.status.as_str(), app.loading), ("broken pipe", false));
    assert_eq!(app.last_sent_query, "m");
}

#[test]
fn query_is_edited_as_a_line() {
    let mut app = App::new("foo bar".to_string(), 0);
    let mut edit = |edit: InputEdit| {
        handle_input_request(&mut app, edit, 0);
        app.input.value().to_string()
    };
    assert_eq!(edit(InputEdit::DeletePrevWord), "foo ");
    assert_eq!(edit(InputEdit::DeletePrevChar), "foo");
    assert_eq!(edit(InputEdit::GoToStart), "foo");
    assert_eq!(edit(InputEdit::InsertChar('x')), "xfoo");
    assert_eq!(edit(InputEdit::DeleteNextChar), "xoo");
    assert_eq!(edit(InputEdit::GoToNextChar), "xoo");
    assert_eq!(edit(InputEdit::DeleteTillEnd), "xo");
    assert_eq!(edit(InputEdit::Yank), "xoo");
    assert_eq!(edit(InputEdit::DeleteLine), "");
    assert_eq!(edit(InputEdit::Yank), "xoo");
    assert_eq!(edit(InputEdit::GoToPrevChar), "xoo");
    assert_eq!(edit(InputEdit::InsertChar('\u{301}')), "xo\u{301}o");
    assert_eq!(edit(InputEdit::DeletePrevChar), "xo");
    assert_eq!(edit(InputEdit::SetCursor(1)), "xo");
    assert_eq!(edit(InputEdit::DeleteFromStart), "o");
    assert_eq!(edit(InputEdit::SetCursor(9)), "o");
    assert_eq!(edit(InputEdit::Yank), "ox");
}

#[test]
fn moves_of_the_cursor_send_no_query() {
    let mut app = App::new("ab".to_string(), 0);
    app.status = "idle".to_string();
    for edit in [InputEdit::GoToStart, InputEdit::GoToEnd, InputEdit::GoToPrevWord] {
        handle_input_request(&mut app, edit, 0);
    }
    assert_eq!(app.status, "idle");
    handle_input_request(&mut app, InputEdit::DeletePrevChar, 0);
    assert_eq!(app.status, "idle");
    handle_input_request(&mut app, InputEdit::DeleteNextChar, 0);
    assert_eq!(app.status, "searching...");
}

#[test]
fn stale_answers_are_ignored() {
    let (mut app, _) = picker(&["a", "b"]);
    assert_eq!(app.status, "2 match(es)");
    assert!(app.completions_ready);
    let id = app.last_request_id;
    for (request_id, query) in [(id + 1, "q"), (id, "other")] {
        let query = query.to_string();
        let symbols = vec![symbol("z")];
        handle_lsp_event(&mut app, LspEvent::Symbols { request_id, query, symbols }, 0);
        assert_eq!(app.symbols.len(), 2);
    }
}

#[test]
fn empty_answers_are_asked_for_again() {
    let mut app = App::new("q".to_string(), 0);
    let mut client = client();
    for n in 0..6 {
        let now = 1000 * n;
        let request = maybe_send_query(&app, &mut client, now).unwrap();
        query_sent(&mut app, request.id, Ok(()));
        let event = LspEvent::Symbols {
            request_id: request.id,
            query: "q".to_string(),
            symbols: Vec::new(),
        };
        handle_lsp_event(&mut app, event, now);
        if n < 5 {
            assert_eq!(app.status, "rust-analyzer warming up; retrying search...");
            assert_eq!(app.due, Some(now + DEBOUNCE));
        }
    }
    assert_eq!(app.status, "0 match(es)");
    assert_eq!(app.empty_retry_count, 0);
}

#[test]
fn selection_moves_within_the_symbols() {
    let (mut app, _) = picker(&["a", "b", "c"]);
    app.preview_scroll = 4;
    handle_action(&mut app, &KEY, "select_prev", 0);
    assert_eq!((app.selected, app.preview_scroll), (0, 4));
    handle_action(&mut app, &KEY, "select_next", 0);
    assert_eq!((app.selected, app.preview_scroll), (1, 0));
    select_delta(&mut app, isize::MAX);
    assert_eq!(app.selected, 2);
    select_delta(&mut app, isize::MIN);
    assert_eq!(app.selected, 0);
    select_delta(&mut app, 10);
    assert_eq!(app.selected, 2);
    handle_action(&mut app, &KEY, "page_up", 0);
    assert_eq!(app.selected, 0);
    handle_action(&mut app, &KEY, "preview_up", 0);
    handle_action(&mut app, &KEY, "preview_up", 0);
    handle_action(&mut app, &KEY, "preview_down", 0);
    assert_eq!(app.preview_scroll, -1);
}

#[test]
fn going_back_undoes_promoting() {
    let hits = vec![hit(None, "src/x.rs", 10), hit(Some("call"), "src/y.rs", 20)];
    let mut app = with_references(hits);
    assert_eq!(app.focus, FocusArea::SidePane);
    handle_action(&mut app, &KEY, "select_next", 0);
    let before = current_side_key(&app);
    assert_eq!(selected_side_hit(&app).unwrap().file.text(), "src/y.rs");
    assert!(handle_enter(&mut app).is_none());
    assert_eq!(app.status, "promoted src/y.rs:20");
    assert_eq!(active_symbol(&app).unwrap().name, "call");
    assert_eq!(
        input_display_value(&app),
        "current: call [Method] src/y.rs:20  (backspace pops)"
    );
    pop_navigation(&mut app);
    assert_eq!(app.status, "popped to previous selection");
    assert_eq!(active_symbol(&app).unwrap().name, "a");
    assert_eq!(current_side_key(&app), before);
    assert_eq!(selected_side_hit(&app).unwrap().file.text(), "src/y.rs");
    assert_eq!(app.focus, FocusArea::SidePane);
    pop_navigation(&mut app);
    assert_eq!(app.status, "2 match(es)");
    assert!(app.promoted_symbol.is_none());
}

#[test]
fn panes_of_a_symbol_are_kept_apart() {
    let a = symbol("a");
    assert_eq!(side_key(SidePaneMode::References, &a), "References\tsrc/a.rs\t3\t4\ta");
    assert_ne!(side_key(SidePaneMode::Callers, &a), side_key(SidePaneMode::Callees, &a));
    let (mut app, mut client) = picker(&["a"]);
    assert!(maybe_request_side_pane(&mut app, &mut client).is_none());
    handle_action(&mut app, &KEY, "callers", 0);
    let asked = maybe_request_side_pane(&mut app, &mut client).unwrap();
    assert!(maybe_request_side_pane(&mut app, &mut client).is_none());
    side_requested(&mut app, asked.key.clone(), Err("no".to_string()));
    assert_eq!(app.side_states.get(&asked.key), Some(&SidePaneState::Error("no".to_string())));
    let event = LspEvent::CallHierarchy {
        key: asked.key.clone(),
        direction: CallDirection::Incoming,
        hits: vec![hit(None, "x", 1)],
    };
    handle_lsp_event(&mut app, event, 0);
    assert_eq!(app.status, "callers loaded");
    let event = LspEvent::SideError { key: asked.key, message: "bad".to_string() };
    handle_lsp_event(&mut app, event, 0);
    assert_eq!(app.status, "bad");
}

#[test]
fn symbol_without_uri_is_told() {
    let (mut app, _) = picker(&["a"]);
    let mut nowhere = LspClient::new(FilePath::of_text("work"));
    handle_action(&mut app, &KEY, "callees", 0);
    assert!(maybe_request_side_pane(&mut app, &mut nowhere).is_none());
    assert_eq!(app.status, "failed to convert path to file URI: work/src/a.rs");
}

#[test]
fn progress_is_shown_and_ends() {
    let (mut app, _) = picker(&["a"]);
    let progress = |token: &str, active: bool| LspEvent::Progress {
        token: token.to_string(),
        active,
        message: "Indexing".to_string(),
    };
    handle_lsp_event(&mut app, progress("1", true), 0);
    assert_eq!((app.status.as_str(), app.loading), ("rust-analyzer: Indexing", true));
    handle_lsp_event(&mut app, progress("2", true), 0);
    handle_lsp_event(&mut app, progress("1", false), 0);
    assert_eq!(app.status, "rust-analyzer is indexing...");
    handle_lsp_event(&mut app, progress("2", false), 77);
    assert_eq!(app.status, "rust-analyzer ready");
    assert_eq!(app.due, Some(77));
    handle_lsp_event(&mut app, LspEvent::Error("dead".to_string()), 0);
    assert_eq!((app.status.as_str(), app.completions_ready), ("dead", false));
}

#[test]
fn picker_keys() {
    let keymap = Keymap::from_defaults(navsplat_key_bindings().as_slice()).unwrap();
    let (mut app, _) = picker(&["a"]);
    let key = |code: KeyCode| KeyEvent::new(code, KeyModifiers::empty());
    let q = key(KeyCode::Char('q'));
    assert_eq!(handle_key(&mut app, &q, &keymap, 0), None);
    assert_eq!(app.input.value(), "qq");
    handle_input_request(&mut app, InputEdit::DeleteLine, 0);
    assert_eq!(handle_key(&mut app, &q, &keymap, 0), Some(Outcome::Leave(None)));
    let x = key(KeyCode::Char('x'));
    handle_key(&mut app, &x, &keymap, 0);
    assert_eq!(app.input.value(), "x");
    let enter = handle_key(&mut app, &key(KeyCode::Enter), &keymap, 0);
    let target = OpenTarget { file: FilePath::of_text("src/a.rs"), line: 3 };
    assert_eq!(enter, Some(Outcome::Leave(Some(target))));
    let alt_y = KeyEvent::new(KeyCode::Char('y'), KeyModifiers::alt());
    let copy = handle_key(&mut app, &alt_y, &keymap, 0);
    assert_eq!(copy, Some(Outcome::Copy("src/a.rs:3:4\ta [Function]".to_string())));
    selection_copied(&mut app, Ok("xclip".to_string()));
    assert_eq!(app.status, "copied selection with xclip");
    selection_copied(&mut app, Err("no tool".to_string()));
    assert_eq!(app.status, "no tool");
    let mut empty = App::new(String::new(), 0);
    assert_eq!(handle_key(&mut empty, &alt_y, &keymap, 0), None);
    assert_eq!(empty.status, "nothing selected to copy");
    let backspace = key(KeyCode::Backspace);
    handle_key(&mut app, &backspace, &keymap, 0);
    assert_eq!(app.input.value(), "");
}

#[test]
fn keys_edit_the_query() {
    let control = KeyModifiers { control: true, ..PLAIN };
    let alt = KeyModifiers { alt: true, ..PLAIN };
    let meta = KeyModifiers { meta: true, ..PLAIN };
    let control_alt = KeyModifiers { control: true, alt: true, ..PLAIN };
    let edit = |code: KeyCode, held: KeyModifiers| edit_for(&KeyEvent::new(code, held));
    for (code, held, expected) in [
        (KeyCode::Backspace, PLAIN, InputEdit::DeletePrevChar),
        (KeyCode::Char('h'), control, InputEdit::DeletePrevChar),
        (KeyCode::Delete, PLAIN, InputEdit::DeleteNextChar),
        (KeyCode::Left, PLAIN, InputEdit::GoToPrevChar),
        (KeyCode::Char('b'), control, InputEdit::GoToPrevChar),
        (KeyCode::Left, control, InputEdit::GoToPrevWord),
        (KeyCode::Char('b'), meta, InputEdit::GoToPrevWord),
        (KeyCode::Right, PLAIN, InputEdit::GoToNextChar),
        (KeyCode::Char('f'), control, InputEdit::GoToNextChar),
        (KeyCode::Right, control, InputEdit::GoToNextWord),
        (KeyCode::Char('f'), meta, InputEdit::GoToNextWord),
        (KeyCode::Char('u'), control, InputEdit::DeleteLine),
        (KeyCode::Char('w'), control, InputEdit::DeletePrevWord),
        (KeyCode::Char('d'), meta, InputEdit::DeletePrevWord),
        (KeyCode::Backspace, meta, InputEdit::DeletePrevWord),
        (KeyCode::Backspace, alt, InputEdit::DeletePrevWord),
        (KeyCode::Delete, control, InputEdit::DeleteNextWord),
        (KeyCode::Char('k'), control, InputEdit::DeleteTillEnd),
        (KeyCode::Char('y'), control, InputEdit::Yank),
        (KeyCode::Char('a'), control, InputEdit::GoToStart),
        (KeyCode::Home, PLAIN, InputEdit::GoToStart),
        (KeyCode::Char('e'), control, InputEdit::GoToEnd),
        (KeyCode::End, PLAIN, InputEdit::GoToEnd),
        (KeyCode::Char('x'), PLAIN, InputEdit::InsertChar('x')),
        (KeyCode::Char('X'), KeyModifiers { shift: true, ..PLAIN }, InputEdit::InsertChar('X')),
        (KeyCode::Char('@'), control_alt, InputEdit::InsertChar('@')),
    ] {
        assert_eq!(edit(code, held), Some(expected));
    }
    for (code, held) in [
        (KeyCode::Tab, PLAIN),
        (KeyCode::Enter, PLAIN),
        (KeyCode::Home, control),
        (KeyCode::Char('x'), control),
        (KeyCode::Char('x'), meta),
        (KeyCode::Char('x'), alt),
        (KeyCode::Char('x'), KeyModifiers { super_key: true, ..PLAIN }),
        (KeyCode::Char('x'), KeyModifiers { hyper: true, ..PLAIN }),
    ] {
        assert_eq!(edit(code, held), None);
    }
    let x = KeyEvent { kind: KeyEventKind::Release, ..KeyEvent::new(KeyCode::Char('x'), PLAIN) };
    assert_eq!(edit_for(&x), None);
    let x = KeyEvent { kind: KeyEventKind::Repeat, ..x };
    assert_eq!(edit_for(&x), Some(InputEdit::InsertChar('x')));
}

#[test]
fn places_are_written_out() {
    assert_eq!(symbol_text(&symbol("a")), "src/a.rs:3:4\ta [Function]");
    assert_eq!(hit_text(&hit(None, "x.rs", 7)), "x.rs:7:2\t [Location]");
    assert_eq!(hit_text(&hit(Some("f"), "x.rs", 7)), "x.rs:7:2\tf [Method]");
    let taken = symbol_from_hit(&hit(None, "x.rs", 7));
    assert_eq!((taken.name.as_str(), taken.kind), ("x.rs:7", SymbolKind::Unknown));
    assert_eq!((taken.line, taken.end_line), (7, 7));
    let app = with_references(vec![hit(None, "x.rs", 7)]);
    let target = selected_open_target(&app).unwrap();
    assert_eq!((target.file.text().as_str(), target.line), ("x.rs", 7));
}

#[test]
fn preview_is_centered_where_possible() {
    assert_eq!(preview_start(50, 100, 10, 0), 44);
    assert_eq!(preview_start(50, 100, 10, -4), 40);
    assert_eq!(preview_start(2, 100, 10, 0), 0);
    assert_eq!(preview_start(99, 100, 10, 0), 90);
    assert_eq!(preview_start(3, 5, 10, 1), 0);
    assert_eq!(preview_start(0, 0, 0, isize::MIN), 0);
}

#[test]
fn source_takes_the_focus_back() {
    let mut app = with_references(vec![hit(None, "x.rs", 7)]);
    handle_action(&mut app, &KEY, "source", 0);
    assert_eq!((app.focus, app.side_mode), (FocusArea::Symbols, SidePaneMode::Source));
    handle_action(&mut app, &KEY, "toggle_focus", 0);
    assert_eq!(app.focus, FocusArea::Symbols);
    assert_eq!(SidePaneMode::Callees.title(), "Callees");
}

#[test]
fn editors_are_run_with_line_and_path() {
    let some = |s: &str| Some(s.to_string());
    assert_eq!(editor_command(some("e"), some("v"), some("d")), "e");
    assert_eq!(editor_command(None, some("v"), some("d")), "v");
    assert_eq!(editor_command(None, None, some("d")), "d");
    assert_eq!(editor_command(None, None, None), "vi");
    let target = OpenTarget { file: FilePath::of_text("src/a.rs"), line: 12 };
    let root = FilePath::of_text("/work");
    let run = editor_invocation("code  --wait", &root, &target).unwrap();
    assert_eq!(run.program, "code");
    assert_eq!(run.args, vec!["--wait", "+12"]);
    assert_eq!(run.file.text(), "/work/src/a.rs");
    let target = OpenTarget { file: FilePath::of_text("/a.rs"), line: 1 };
    let run = editor_invocation("vi", &root, &target).unwrap();
    assert_eq!((run.args, run.file.text()), (vec!["+1".to_string()], "/a.rs".to_string()));
    assert_eq!(
        editor_invocation(" ", &root, &target),
        Err("empty editor command".to_string())
    );
    let target = OpenTarget { file: FilePath::of_bytes(b"\xFF.rs"), line: 1 };
    let run = editor_invocation("vi", &root, &target).unwrap();
    assert_eq!(run.file.bytes(), b"/work/\xFF.rs".to_vec());
    assert_eq!((picker_height(3), picker_height(20)), (10, 20));
}

#[test]
fn workspace_root_is_the_nearest_marked_directory() {
    let dirs = FilePath::of_text("/home/me/work").ancestors();
    let texts: Vec<String> = dirs.iter().map(FilePath::text).collect();
    assert_eq!(texts, vec!["/home/me/work", "/home/me", "/home", "/"]);
    assert_eq!(
        root_markers(&FilePath::of_text("/home")),
        (FilePath::of_text("/home/Cargo.toml"), FilePath::of_text("/home/.git"))
    );
    let marked = |which: &[bool]| -> Vec<(FilePath, bool)> {
        dirs.iter().map(FilePath::copy).zip(which.iter().copied()).collect()
    };
    assert_eq!(
        detect_workspace_root(&marked(&[false, true, true, false])),
        Ok(FilePath::of_text("/home/me"))
    );
    assert_eq!(
        detect_workspace_root(&marked(&[false; 4])),
        Err("could not find workspace root from current directory; pass --root".to_string())
    );
}

#[test]
fn symbols_are_printed_when_the_server_rests() {
    let mut client = client();
    let (mut query, request) = SymbolQuery::start("q".to_string(), &mut client, 500);
    assert_eq!(query.overdue(20499), None);
    let why = query.overdue(20500);
    assert_eq!(why.as_deref(), Some("timed out waiting for workspace/symbol response"));
    let answer = |request_id: i64, names: &[&str]| LspEvent::Symbols {
        request_id,
        query: "q".to_string(),
        symbols: names.iter().map(|name| symbol(name)).collect(),
    };
    let progress = |active: bool| LspEvent::Progress {
        token: "t".to_string(),
        active,
        message: String::new(),
    };
    assert_eq!(query.take_in(progress(true), &mut client), Printing::Wait);
    assert_eq!(query.take_in(answer(request.id, &[]), &mut client), Printing::Wait);
    let Printing::Ask(again) = query.take_in(progress(false), &mut client) else {
        panic!("not asked again");
    };
    assert_eq!(query.take_in(answer(request.id, &["a"]), &mut client), Printing::Wait);
    assert_eq!(
        query.take_in(answer(again.id, &["a"]), &mut client),
        Printing::Print(vec!["src/a.rs:3:4\ta [Function]".to_string()])
    );
    assert_eq!(
        query.take_in(LspEvent::Error("x".to_string()), &mut client),
        Printing::Fail("x".to_string())
    );
}

#[test]
fn something_is_selected_where_there_is_something() {
    let (mut app, mut client) = picker(&["a", "b", "c"]);
    handle_action(&mut app, &KEY, "page_down", 0);
    assert_eq!(app.selected, 2);
    app.input = App::new("r".to_string(), 0).input;
    app.due = Some(0);
    let request = maybe_send_query(&app, &mut client, 0).unwrap();
    query_sent(&mut app, request.id, Ok(()));
    let answer = LspEvent::Symbols {
        request_id: request.id,
        query: "r".to_string(),
        symbols: vec![symbol("x")],
    };
    handle_lsp_event(&mut app, answer, 0);
    assert_eq!(app.selected, 0);
    assert_eq!(active_symbol(&app).unwrap().name, "x");
    let mut app = with_references(vec![hit(None, "x.rs", 7), hit(None, "y.rs", 8)]);
    handle_action(&mut app, &KEY, "page_down", 0);
    assert_eq!(selected_side_hit(&app).unwrap().file.text(), "y.rs");
    handle_action(&mut app, &KEY, "select_next", 0);
    assert_eq!(selected_side_hit(&app).unwrap().file.text(), "y.rs");
}
