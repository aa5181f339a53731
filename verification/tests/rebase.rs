use innards::config::{KeyCode, KeyEvent, KeyModifiers, Keymap};
use innards::layout::Area;
use innards::rebase::{
    action_color, draw, handle_action, handle_key, parse_editable, rebase_key_bindings, Action, App,
    Config, EditableLine, Outcome, Todo, TodoLine, TodoLineKind, DEFAULT_HEIGHT,
};
use innards::style::Color;

fn app_with(source: &str) -> App {
    App::new("git-rebase-todo".to_string(), source)
}

#[test]
fn parses_and_round_trips_todo_lines() {
    let source = "pick abc first\n\n# comment\nexec cargo test\nunknown thing\n";
    let todo = Todo::parse(source);

    assert_eq!(todo.serialize(), source);
    assert_eq!(todo.first_editable(), Some(0));
    assert!(matches!(
        todo.lines[3].kind,
        TodoLineKind::Editable(EditableLine { action: Action::Exec, .. })
    ));
}

#[test]
fn action_changes_serialize_canonical_command() {
    let mut app = app_with("pick abc first\n");

    app.set_selected_action(Action::Reword);

    assert_eq!(app.serialize(), "reword abc first\n");
    assert_eq!(app.status, "set reword");
}

#[test]
fn exec_key_only_applies_to_existing_exec_lines() {
    let mut app = app_with("pick abc first\nexec cargo test\n");

    app.set_selected_action(Action::Exec);
    assert_eq!(app.status, "exec only applies to existing exec lines");

    app.select_delta(1);
    app.set_selected_action(Action::Exec);
    assert_eq!(app.status, "set exec");
}

#[test]
fn moves_editable_lines_across_comments_without_moving_comments() {
    let mut app = app_with("pick aaa first\n# keep me\npick bbb second\n");
    app.selected = 2;

    app.move_selected(-1);

    assert_eq!(app.selected, 0);
    assert_eq!(app.serialize(), "pick bbb second\n# keep me\npick aaa first\n");
}

#[test]
fn move_boundaries_report_status() {
    let mut app = app_with("pick aaa first\n");

    app.move_selected(-1);

    assert_eq!(app.status, "cannot move further");
    assert_eq!(app.serialize(), "pick aaa first\n");
}

#[test]
fn selection_skips_raw_lines() {
    let mut app = app_with("# comment\npick aaa first\n\npick bbb second\n");

    assert_eq!(app.selected, 1);
    app.select_delta(1);
    assert_eq!(app.selected, 3);
    app.select_delta(-1);
    assert_eq!(app.selected, 1);
}

#[test]
fn quit_prompt_transitions() {
    let mut app = app_with("pick aaa first\n");

    assert_eq!(handle_action(&mut app, "quit"), None);
    assert!(app.quit_prompt);
    assert_eq!(handle_action(&mut app, "prompt_cancel"), None);
    assert!(!app.quit_prompt);
    assert_eq!(handle_action(&mut app, "quit"), None);
    assert_eq!(handle_action(&mut app, "prompt_abort"), Some(Outcome::Abort));
}

#[test]
fn save_action_returns_save_outcome() {
    let mut app = app_with("pick aaa first\n");

    assert_eq!(handle_action(&mut app, "save"), Some(Outcome::Save));
}

#[test]
fn lists_come_back_as_they_were_written() {
    for source in ["", "\n", "pick a b", "p a b\n  r c\n\nlabel x\n", "drop 1\n\n\n"] {
        assert_eq!(Todo::parse(source).serialize(), source);
    }
    assert_eq!(Todo::parse("pick a\r\n").serialize(), "pick a\n");
}

#[test]
fn moves_can_be_taken_back() {
    let source = "pick a 1\n# c\npick b 2\npick d 3\n";
    let mut app = app_with(source);
    app.move_selected(1);
    assert_eq!(app.serialize(), "pick b 2\n# c\npick a 1\npick d 3\n");
    app.move_selected(-1);
    assert_eq!(app.serialize(), source);
    assert_eq!(app.selected, 0);
    app.move_selected(2);
    assert_eq!(app.serialize(), "pick d 3\n# c\npick b 2\npick a 1\n");
    assert_eq!(app.selected, 3);
    app.move_selected(-2);
    assert_eq!(app.serialize(), source);
    assert_eq!(app.selected, 0);
}

#[test]
fn setting_an_action_keeps_the_other_lines() {
    let mut app = app_with("pick a 1\nfixup -C b 2\n# c\n");
    app.set_selected_action(Action::Drop);
    assert_eq!(app.serialize(), "drop a 1\nfixup -C b 2\n# c\n");
}

#[test]
fn actions_have_names_and_letters() {
    let table = [
        ("p", Action::Pick, "pick"),
        ("r", Action::Reword, "reword"),
        ("e", Action::Edit, "edit"),
        ("s", Action::Squash, "squash"),
        ("f", Action::Fixup, "fixup"),
        ("d", Action::Drop, "drop"),
        ("x", Action::Exec, "exec"),
        ("b", Action::Break, "break"),
        ("l", Action::Label, "label"),
        ("t", Action::Reset, "reset"),
        ("m", Action::Merge, "merge"),
    ];
    for (letter, action, name) in table {
        assert_eq!(Action::parse(letter), Some(action));
        assert_eq!(Action::parse(name), Some(action));
        assert_eq!(action.name(), name);
    }
    assert_eq!(Action::parse("update-ref"), None);
    assert_eq!(parse_editable("# pick a"), None);
    assert!(parse_editable("pick a b").is_some());
    assert!(!TodoLine::parse("").is_editable());
    assert_eq!(action_color(Action::Drop), Color::Red);
}

#[test]
fn rebase_keys_lead_to_actions() {
    let keymap = Keymap::from_defaults(rebase_key_bindings().as_slice()).unwrap();
    let mut app = app_with("pick a 1\npick b 2\n");
    let key = |c: char| KeyEvent::new(KeyCode::Char(c), KeyModifiers::empty());
    assert_eq!(handle_key(&mut app, &key('s'), &keymap), None);
    assert_eq!(app.serialize(), "squash a 1\npick b 2\n");
    let ctrl_x = KeyEvent::new(KeyCode::Char('x'), KeyModifiers::control());
    let ctrl_c = KeyEvent::new(KeyCode::Char('c'), KeyModifiers::control());
    assert_eq!(handle_key(&mut app, &ctrl_x, &keymap), None);
    assert_eq!(handle_key(&mut app, &ctrl_c, &keymap), None);
    assert!(app.quit_prompt);
    assert_eq!(handle_key(&mut app, &key('s'), &keymap), Some(Outcome::Save));
}

#[test]
fn rebase_arguments() {
    let parse = |args: &[&str]| {
        let args: Vec<String> = args.iter().map(|s| s.to_string()).collect();
        Config::parse(&args)
    };
    let config = parse(&["todo"]).unwrap();
    assert_eq!((config.path.as_str(), config.height), ("todo", DEFAULT_HEIGHT));
    assert_eq!(parse(&["--height", "30", "todo"]).unwrap().height, 30);
    assert!(parse(&[]).unwrap_err().message().starts_with("usage: "));
    assert_eq!(parse(&["--height", "x", "a"]).unwrap_err().message(), "invalid height: x");
}

#[test]
fn rebase_picture_shows_the_list() {
    let mut app = app_with("pick a 1\n# note\n");
    let whole = Area { x: 0, y: 0, width: 40, height: 7 };
    let part = |y: u16, height: u16| Area { x: 1, y, width: 38, height };
    let picture = draw(&mut app, whole);
    assert_eq!(picture.rows.len(), 4);
    assert_eq!((picture.rows_area, picture.status_area), (part(1, 4), part(5, 1)));
    let text: String = picture.rows[0].spans.iter().map(|span| span.text.as_str()).collect();
    assert!(text.contains("pick") && text.contains("a 1"));
    assert!(picture.cursor.is_some());
    assert!(picture.prompt.is_none());
    for (height, rows, status) in [
        (0, Area { x: 1, y: 0, width: 38, height: 0 }, part(0, 0)),
        (2, part(1, 0), part(1, 0)),
        (3, part(1, 1), part(2, 0)),
        (4, part(1, 1), part(2, 1)),
    ] {
        let picture = draw(&mut app, Area { height, ..whole });
        assert_eq!((picture.rows_area, picture.status_area), (rows, status));
        assert_eq!(picture.prompt_area, Area { height: 0, ..status });
        assert!(picture.cursor.is_some());
    }
    handle_action(&mut app, "quit");
    let picture = draw(&mut app, whole);
    assert!(picture.prompt.is_some());
    assert_eq!((picture.rows_area, picture.prompt_area), (part(1, 3), part(4, 1)));
    assert_eq!(picture.status_area, part(5, 1));
    let picture = draw(&mut app, Area { height: 5, ..whole });
    assert_eq!((picture.rows_area, picture.prompt_area), (part(1, 1), part(2, 1)));
    assert_eq!(picture.status_area, part(3, 1));
}
