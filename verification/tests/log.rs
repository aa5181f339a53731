use innards::config::{KeyCode, KeyEvent, KeyModifiers, Keymap};
use innards::inline_text::input::Screen;
use innards::layout::Area;
use innards::log::{
    complete, draw, exit_copy_status, exit_summary, expanded_commit_lines, git_log_args,
    git_log_failure, handle_action, handle_key, has_max_count_arg, log_key_bindings,
    normalize_git_args, truncate, truncate_with_dots, App, Commit, Config, MalformedRecord,
    Outcome, SearchDirection, DEFAULT_HEIGHT,
};

const FIELD_SEP: char = '\u{1f}';
const RECORD_SEP: char = '\u{1e}';

fn sample_record() -> String {
    format!(
        "{RECORD_SEP}abcdef0123456789{FIELD_SEP}abcdef0{FIELD_SEP}Ryan Daum{FIELD_SEP}ryan@example.com{FIELD_SEP}2026-05-12{FIELD_SEP}2026-05-12T10:00:00-04:00{FIELD_SEP}2026-05-12T10:01:00-04:00{FIELD_SEP}HEAD -> main{FIELD_SEP}Subject here{FIELD_SEP}body one\nbody two\n"
    )
}

fn sample_commits(count: usize) -> Vec<Commit> {
    let base = Commit::parse_many(&sample_record()).unwrap().remove(0);
    (0..count)
        .map(|idx| Commit {
            full_hash: format!("{idx:040x}"),
            short_hash: format!("{idx:07x}"),
            subject: format!("Commit {idx}"),
            body: format!("body {idx}\nmore {idx}"),
            ..base.copy()
        })
        .collect()
}

fn strings(list: &[&str]) -> Vec<String> {
    list.iter().map(|s| s.to_string()).collect()
}

#[test]
fn parses_structured_log_records() {
    let commits = Commit::parse_many(&sample_record()).unwrap();

    assert_eq!(commits.len(), 1);
    assert_eq!(commits[0].full_hash, "abcdef0123456789");
    assert_eq!(commits[0].refs, "HEAD -> main");
    assert_eq!(commits[0].body, "body one\nbody two");
}

#[test]
fn formats_exit_summary_without_color() {
    let commit = Commit::parse_many(&sample_record()).unwrap().remove(0);
    let summary = commit.summary_text(false);

    assert!(summary.contains("commit abcdef0123456789    author Ryan Daum <ryan@example.com>"));
    assert!(summary.contains("author date 2026-05-12T10:00:00-04:00"));
    assert!(summary.contains("commit date 2026-05-12T10:01:00-04:00"));
    assert!(summary.contains("refs HEAD -> main"));
    assert!(summary.contains("\nsubject Subject here\n"));
    assert!(!summary.contains("body one"));
    assert!(!summary.contains("\x1b["));
}

#[test]
fn exit_summary_truncates_long_subject() {
    let mut commit = Commit::parse_many(&sample_record()).unwrap().remove(0);
    commit.subject = "123456789 123456789 123456789 123456789 123456789 more".to_string();
    let summary = commit.summary_text(false);

    assert!(summary.contains("subject 123456789 123456789 123456789 123456789 123456789..."));
    assert!(!summary.contains(" more"));
}

#[test]
fn rejects_graph_and_adds_default_limit() {
    assert!(normalize_git_args(vec!["--graph".to_string()]).is_err());
    assert_eq!(normalize_git_args(Vec::new()).unwrap(), vec!["-n", "500"]);
    assert_eq!(normalize_git_args(vec!["-n10".to_string()]).unwrap(), vec!["-n10"]);
    assert_eq!(
        normalize_git_args(vec!["--author=ryan".to_string(), "-25".to_string()]).unwrap(),
        vec!["--author=ryan", "-25"]
    );
    assert_eq!(
        normalize_git_args(vec!["--author=ryan".to_string()]).unwrap(),
        vec!["-n", "500", "--author=ryan"]
    );
}

#[test]
fn search_finds_body_and_wraps() {
    let mut commits = Commit::parse_many(&sample_record()).unwrap();
    commits.push(Commit {
        subject: "Other".to_string(),
        body: "Needle".to_string(),
        ..commits[0].copy()
    });
    let mut app = App::new(commits, DEFAULT_HEIGHT);

    app.begin_search(SearchDirection::Forward);
    for ch in "needle".chars() {
        app.search_insert_char(ch);
    }

    assert_eq!(app.selected, 1);
}

#[test]
fn selected_expand_toggles_only_selected_commit() {
    let commits = Commit::parse_many(&sample_record()).unwrap();
    let mut app = App::new(commits, DEFAULT_HEIGHT);

    app.toggle_expand();
    assert_eq!(app.expanded, Some(0));
    app.toggle_expand();
    assert_eq!(app.expanded, None);
}

#[test]
fn accept_marks_selection_for_exit_copy() {
    let commits = Commit::parse_many(&sample_record()).unwrap();
    let mut app = App::new(commits, DEFAULT_HEIGHT);

    app.accept();
    assert!(app.accepted);
}

#[test]
fn expanded_lines_are_visible_without_body() {
    let mut commit = Commit::parse_many(&sample_record()).unwrap().remove(0);
    commit.body.clear();
    let lines = expanded_commit_lines(&commit);

    assert!(lines.iter().any(|line| format!("{line:?}").contains("no commit message body")));
}

#[test]
fn scrolls_past_expanded_commit_at_bottom() {
    let mut app = App::new(sample_commits(8), DEFAULT_HEIGHT);
    app.selected = 3;
    app.toggle_expand();
    app.ensure_selection_visible(4);

    app.select_delta(1);
    app.ensure_selection_visible(4);

    assert_eq!(app.selected, 4);
    assert_eq!(app.scroll_y, app.row_offset_for_commit(4));
}

#[test]
fn bottom_scroll_does_not_start_inside_expanded_details() {
    let mut app = App::new(sample_commits(8), DEFAULT_HEIGHT);
    app.selected = 2;
    app.toggle_expand();
    app.ensure_selection_visible(6);

    app.select_delta(2);
    app.ensure_selection_visible(6);

    assert_eq!(app.selected, 4);
    assert_eq!(app.scroll_y, app.row_offset_for_commit(3));
}

#[test]
fn malformed_records_are_refused() {
    let short = format!("{RECORD_SEP}abc{FIELD_SEP}def");
    assert_eq!(Commit::parse_many(&short), Err(MalformedRecord));
    assert_eq!(MalformedRecord.message(), "malformed git log record");
    assert_eq!(Commit::parse_many("\n"), Ok(Vec::new()));
    let fields = vec!["x"; 9].join(&FIELD_SEP.to_string());
    assert_eq!(Commit::parse_record(&fields).unwrap().body, "");
}

#[test]
fn selection_is_always_seen() {
    let mut app = App::new(sample_commits(12), DEFAULT_HEIGHT);
    app.selected = 5;
    app.toggle_expand();
    for delta in [4, -9, 11, -2, -3, 6] {
        app.select_delta(delta);
        app.ensure_selection_visible(5);
        let row = app.row_offset_for_commit(app.selected);
        assert!(app.scroll_y <= row && row < app.scroll_y + 5);
    }
    assert_eq!(app.commit_render_height(5), 8);
    assert_eq!(app.commit_render_height(4), 1);
    assert_eq!(app.commit_render_height(12), 0);
    assert!(app.can_count_rows());
}

#[test]
fn searches_go_round_in_both_directions() {
    let mut app = App::new(sample_commits(5), DEFAULT_HEIGHT);
    assert_eq!(app.find_match(SearchDirection::Forward, "commit 1", 3), Some(1));
    assert_eq!(app.find_match(SearchDirection::Reverse, "commit 4", 2), Some(4));
    assert_eq!(app.find_match(SearchDirection::Forward, "commit 9", 0), None);
    app.begin_search(SearchDirection::Reverse);
    assert_eq!(app.status, "I-search backward: ");
    app.search_insert_char('c');
    app.search_repeat(SearchDirection::Forward);
    assert_eq!(app.selected, 1);
    app.search_backspace();
    app.cancel_search();
    assert_eq!(app.status, "search cancelled");
    assert_eq!(app.selected, 1);
}

#[test]
fn texts_are_cut() {
    assert_eq!(truncate("abcdef", 4), "abc~");
    assert_eq!(truncate("abcd", 4), "abcd");
    assert_eq!(truncate_with_dots("abcdef", 4), "abcd...");
    assert_eq!(truncate_with_dots("abcd", 4), "abcd");
    assert_eq!(truncate_with_dots("ab cdef", 3), "ab...");
}

#[test]
fn limits_are_recognised() {
    for arg in ["-n", "-n5", "-25", "--max-count", "--max-count=3"] {
        assert!(has_max_count_arg(&strings(&[arg])), "{arg}");
    }
    for arg in ["--author=x", "-p", "-", "--", "5", "-5x", "--max-counts", ""] {
        assert!(!has_max_count_arg(&strings(&[arg])), "{arg}");
    }
}

#[test]
fn log_arguments() {
    let config = Config::parse(&strings(&["--height", "24", "--", "-n", "100"])).unwrap();
    assert_eq!(config.height, 24);
    assert_eq!(config.git_args, vec!["-n", "100"]);
    let config = Config::parse(&Vec::new()).unwrap();
    assert_eq!((config.height, config.git_args), (DEFAULT_HEIGHT, strings(&["-n", "500"])));
    let config = Config::parse(&strings(&["-"])).unwrap();
    assert_eq!(config.git_args, vec!["-n", "500", "-"]);
    let graph = Config::parse(&strings(&["--", "--graph"])).unwrap_err();
    assert_eq!(graph.message(), "inlog does not support --graph");
    assert_eq!(
        Config::parse(&strings(&["--height"])).unwrap_err().message(),
        "--height requires a row count"
    );
    let args = git_log_args(&strings(&["-n", "3"]));
    assert_eq!(args[0], "log");
    assert_eq!(args[args.len() - 2..], strings(&["-n", "3"]));
    assert!(git_log_failure("fatal: bad\n").contains("fatal: bad"));
}

#[test]
fn copies_are_reported() {
    let mut app = App::new(sample_commits(2), DEFAULT_HEIGHT);
    let screen = Screen { rows: Some(30) };
    let outcome = handle_action(&mut app, screen, "copy").unwrap();
    assert_eq!(outcome, Outcome::Copy(format!("{:040x}", 0)));
    complete(&mut app, &outcome, Ok("xclip".to_string()));
    assert_eq!(app.status, "copied SHA via xclip");
    complete(&mut app, &outcome, Err("no tool".to_string()));
    assert_eq!(app.status, "copy failed: no tool");
    let commit = &app.commits[1];
    let told = exit_copy_status(Some(commit), Ok("xclip".to_string()));
    assert!(told.contains("xclip") && told.contains(&commit.full_hash));
    assert!(exit_summary(&app).contains(&app.commits[0].full_hash));
}

#[test]
fn log_keys_lead_to_actions() {
    let keymap = Keymap::from_defaults(log_key_bindings().as_slice()).unwrap();
    let mut app = App::new(sample_commits(3), DEFAULT_HEIGHT);
    let screen = Screen { rows: Some(30) };
    let slash = KeyEvent::new(KeyCode::Char('/'), KeyModifiers::empty());
    let step = handle_key(&mut app, &slash, screen, &keymap);
    assert_eq!((step.outcome, step.typed), (None, None));
    assert_eq!(app.expanded, Some(0));
    let q = KeyEvent::new(KeyCode::Char('q'), KeyModifiers::empty());
    assert_eq!(handle_key(&mut app, &q, screen, &keymap).outcome, Some(Outcome::Quit));
    app.begin_search(SearchDirection::Forward);
    let c = KeyEvent::new(KeyCode::Char('c'), KeyModifiers::empty());
    assert_eq!(handle_key(&mut app, &c, screen, &keymap).typed, Some('c'));
    let esc = KeyEvent::new(KeyCode::Esc, KeyModifiers::empty());
    assert_eq!(handle_key(&mut app, &esc, screen, &keymap).outcome, None);
    assert!(app.search.is_none());
    assert_eq!(handle_key(&mut app, &esc, screen, &keymap).outcome, Some(Outcome::Quit));
}

#[test]
fn log_picture_has_a_row_for_each_commit() {
    let mut app = App::new(sample_commits(3), DEFAULT_HEIGHT);
    let whole = Area { x: 0, y: 0, width: 60, height: 8 };
    let picture = draw(&mut app, whole);
    assert_eq!(picture.title, " inlog ");
    assert_eq!(picture.rows.len(), 5);
    let text = |row: usize| -> String {
        picture.rows[row].spans.iter().map(|span| span.text.as_str()).collect()
    };
    assert!(text(1).contains("Commit 1"));
    assert_eq!(text(3), "~");
    assert!(picture.cursor.is_some());
}

#[test]
fn log_is_framed_above_a_status_line() {
    let mut app = App::new(sample_commits(3), DEFAULT_HEIGHT);
    let part = |y: u16, height: u16| Area { x: 4, y, width: 10, height };
    for (height, rows, status) in [
        (0, part(7, 0), part(7, 0)),
        (1, part(8, 0), part(8, 0)),
        (2, part(8, 0), part(8, 0)),
        (3, part(8, 1), part(9, 0)),
        (4, part(8, 1), part(9, 1)),
        (5, part(8, 2), part(10, 1)),
        (40, part(8, 37), part(45, 1)),
    ] {
        let picture = draw(&mut app, Area { x: 3, y: 7, width: 12, height });
        assert_eq!((picture.rows_area, picture.status_area), (rows, status));
    }
    for (width, expected) in [(0, (3, 0)), (1, (4, 0)), (2, (4, 0)), (3, (4, 1))] {
        let picture = draw(&mut app, Area { x: 3, y: 7, width, height: 9 });
        assert_eq!((picture.rows_area.x, picture.rows_area.width), expected);
    }
}
