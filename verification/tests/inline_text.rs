use innards::config::{KeyCode, KeyEvent, KeyModifiers, Keymap, KeymapMatch};
use innards::inline_text::buffer::{
    char_len, common_indent_len, find_in_line_forward, find_in_line_reverse, line_selection_range,
    resize_anchor_row, wrap_words, Region,
};
use innards::inline_text::editor::{BufferPoint, Editor, SearchDirection};
use innards::inline_text::input::{
    complete, handle_inline_action, handle_key, CursorLost, Outcome, Screen,
};
use innards::inline_text::keys::{
    inline_key_bindings, inline_normal_actions, inline_search_actions, inline_view_actions,
};
use innards::inline_text::render::{
    commit_subject_style, draw, draw_plain_view, render_line,
};
use innards::inline_text::syntax::{default_syntaxes, preferred_theme, SyntaxHighlighter, Unlit};
use innards::inline_text::text_mode::TextMode;
use innards::inline_text::{Config, Mode, DEFAULT_FILL_COLUMN, DEFAULT_HEIGHT, MIN_HEIGHT};
use innards::layout::{Area, Place};
use innards::style::{Color, Style};
use ropey::Rope;
use syntect::highlighting::ThemeSet;
use syntect::parsing::SyntaxSet;

fn test_keymap() -> Keymap {
    Keymap::from_defaults(inline_key_bindings().as_slice()).unwrap()
}

fn editor_with(text: &str) -> Editor {
    Editor {
        path: "test.txt".to_string(),
        buffer: Rope::from_str(text),
        cursor_line: 0,
        cursor_col: 0,
        scroll_y: 0,
        scroll_x: 0,
        kill_ring: String::new(),
        dirty: false,
        status: String::new(),
        pending_keys: Vec::new(),
        height: DEFAULT_HEIGHT,
        restore_height: None,
        fullscreen: false,
        text_mode: TextMode::Plain { fill_column: DEFAULT_FILL_COLUMN },
        last_drawn_height: DEFAULT_HEIGHT,
        last_drawn_top: 0,
        search: None,
        mark: None,
        undo_stack: Vec::new(),
        redo_stack: Vec::new(),
    }
}

fn commit_editor_with(text: &str) -> Editor {
    let mut editor = editor_with(text);
    editor.path = ".git/COMMIT_EDITMSG".to_string();
    editor.text_mode = TextMode::CommitMessage {
        subject_column: 50,
        body_column: 72,
        comment_prefix: "#",
    };
    editor
}

fn highlighter(name: &str) -> SyntaxHighlighter {
    SyntaxHighlighter::new(default_syntaxes(), Some(name.to_string())).unwrap()
}

fn strings(list: &[&str]) -> Vec<String> {
    list.iter().map(|s| s.to_string()).collect()
}

fn line_string(line: &innards::style::Line) -> String {
    line.spans.iter().map(|span| span.text.as_str()).collect()
}

#[test]
fn backspace_at_line_start_joins_lines() {
    let mut editor = editor_with("abc\ndef");
    editor.cursor_line = 1;

    editor.backspace();

    assert_eq!(editor.buffer.to_string(), "abcdef");
    assert_eq!((editor.cursor_line, editor.cursor_col), (0, 3));
}

#[test]
fn delete_at_eol_removes_whole_crlf_separator() {
    let mut editor = editor_with("abc\r\ndef");
    editor.cursor_col = 3;

    editor.delete_char();

    assert_eq!(editor.buffer.to_string(), "abcdef");
    assert_eq!((editor.cursor_line, editor.cursor_col), (0, 3));
}

#[test]
fn kill_at_eol_keeps_separator_in_kill_ring() {
    let mut editor = editor_with("abc\ndef");
    editor.cursor_col = 3;

    editor.kill_to_eol();

    assert_eq!(editor.buffer.to_string(), "abcdef");
    assert_eq!(editor.kill_ring, "\n");
}

#[test]
fn ctrl_w_kills_active_region() {
    let mut editor = editor_with("abc def");
    editor.cursor_col = 1;
    editor.toggle_mark();
    editor.cursor_col = 5;

    editor.kill_region();

    assert_eq!(editor.buffer.to_string(), "aef");
    assert_eq!(editor.kill_ring, "bc d");
    assert_eq!((editor.cursor_line, editor.cursor_col), (0, 1));
    assert_eq!(editor.mark, None);
}

#[test]
fn alt_w_copies_active_region_without_deleting() {
    let mut editor = editor_with("abc def");
    editor.cursor_col = 1;
    editor.toggle_mark();
    editor.cursor_col = 5;

    editor.copy_region();

    assert_eq!(editor.buffer.to_string(), "abc def");
    assert_eq!(editor.kill_ring, "bc d");
    assert!(editor.mark.is_some());
}

#[test]
fn yank_replaces_active_region() {
    let mut editor = editor_with("abc def");
    editor.kill_ring = "XYZ".to_string();
    editor.cursor_col = 1;
    editor.toggle_mark();
    editor.cursor_col = 5;

    editor.yank();

    assert_eq!(editor.buffer.to_string(), "aXYZef");
    assert_eq!((editor.cursor_line, editor.cursor_col), (0, 4));
    assert_eq!(editor.mark, None);
}

#[test]
fn undo_and_redo_restore_text_and_cursor() {
    let mut editor = editor_with("abc");
    editor.cursor_col = 3;

    editor.insert_char('d');
    assert_eq!(editor.buffer.to_string(), "abcd");
    assert_eq!((editor.cursor_line, editor.cursor_col), (0, 4));

    editor.undo();
    assert_eq!(editor.buffer.to_string(), "abc");
    assert_eq!((editor.cursor_line, editor.cursor_col), (0, 3));

    editor.redo();
    assert_eq!(editor.buffer.to_string(), "abcd");
    assert_eq!((editor.cursor_line, editor.cursor_col), (0, 4));
}

#[test]
fn yank_undo_is_single_step() {
    let mut editor = editor_with("abef");
    editor.kill_ring = "cd".to_string();
    editor.cursor_col = 2;

    editor.yank();
    assert_eq!(editor.buffer.to_string(), "abcdef");

    editor.undo();
    assert_eq!(editor.buffer.to_string(), "abef");
    assert_eq!((editor.cursor_line, editor.cursor_col), (0, 2));
}

#[test]
fn fill_paragraph_wraps_current_paragraph() {
    let mut editor = editor_with(
        "before\n\none two three four five six seven eight nine ten eleven twelve\ncontinued here\n\nafter",
    );
    editor.cursor_line = 2;

    editor.text_mode = TextMode::Plain { fill_column: 24 };
    editor.fill_paragraph();

    assert_eq!(
        editor.buffer.to_string(),
        "before\n\none two three four five\nsix seven eight nine ten\neleven twelve continued\nhere\n\nafter"
    );
    assert_eq!(editor.status, "filled paragraph to 24");
}

#[test]
fn fill_paragraph_preserves_common_indent() {
    let mut editor = editor_with("    alpha beta gamma delta epsilon\n    zeta eta theta");

    editor.text_mode = TextMode::Plain { fill_column: 22 };
    editor.fill_paragraph();

    assert_eq!(
        editor.buffer.to_string(),
        "    alpha beta gamma\n    delta epsilon zeta\n    eta theta"
    );
}

#[test]
fn fill_paragraph_is_one_undo_step() {
    let mut editor = editor_with("one two three four five");

    editor.text_mode = TextMode::Plain { fill_column: 12 };
    editor.fill_paragraph();
    assert_eq!(editor.buffer.to_string(), "one two\nthree four\nfive");

    editor.undo();
    assert_eq!(editor.buffer.to_string(), "one two three four five");
}

#[test]
fn down_arrow_after_mark_does_not_exit() {
    let mut editor = editor_with("abc\ndef");
    editor.toggle_mark();
    editor.move_down();

    assert_eq!((editor.cursor_line, editor.cursor_col), (1, 0));
    assert!(editor.active_region().is_some());
}

#[test]
fn ctrl_g_cancels_active_mark() {
    let mut editor = editor_with("abc\ndef");
    editor.toggle_mark();
    editor.move_down();

    editor.cancel_mark();

    assert_eq!(editor.mark, None);
    assert!(editor.active_region().is_none());
    assert_eq!(editor.status, "mark cancelled");
}

#[test]
fn view_mode_esc_and_q_quit() {
    let keymap = test_keymap();
    let esc = KeyEvent::new(KeyCode::Esc, KeyModifiers::empty());
    assert_eq!(
        keymap.match_key_for_actions(inline_view_actions().as_slice(), &Vec::new(), &esc),
        KeymapMatch::Action("quit_view".to_string())
    );

    let q = KeyEvent::new(KeyCode::Char('q'), KeyModifiers::empty());
    assert_eq!(
        keymap.match_key_for_actions(inline_view_actions().as_slice(), &Vec::new(), &q),
        KeymapMatch::Action("quit_view".to_string())
    );
}

#[test]
fn edit_mode_esc_and_q_do_not_quit() {
    let keymap = test_keymap();
    let esc = KeyEvent::new(KeyCode::Esc, KeyModifiers::empty());
    assert_eq!(
        keymap.match_key_for_actions(inline_normal_actions().as_slice(), &Vec::new(), &esc),
        KeymapMatch::NoMatch
    );

    let q = KeyEvent::new(KeyCode::Char('q'), KeyModifiers::empty());
    assert_eq!(
        keymap.match_key_for_actions(inline_normal_actions().as_slice(), &Vec::new(), &q),
        KeymapMatch::NoMatch
    );
}

#[test]
fn selection_range_after_region_does_not_underflow() {
    let mut editor = editor_with("abc\ndef\nghi");
    editor.toggle_mark();
    editor.move_down();

    assert_eq!(line_selection_range(&editor, 2, editor.active_region().as_ref()), None);
}

#[test]
fn repeated_forward_search_jumps_to_next_match() {
    let mut editor = editor_with("foo bar foo");

    editor.begin_search(SearchDirection::Forward);
    for ch in "foo".chars() {
        editor.search_insert_char(ch);
    }
    editor.search_repeat(SearchDirection::Forward);

    assert_eq!((editor.cursor_line, editor.cursor_col), (0, 8));
}

#[test]
fn repeated_reverse_search_jumps_to_previous_match() {
    let mut editor = editor_with("foo bar foo");
    editor.cursor_col = 11;

    editor.begin_search(SearchDirection::Reverse);
    for ch in "foo".chars() {
        editor.search_insert_char(ch);
    }
    editor.search_repeat(SearchDirection::Reverse);

    assert_eq!((editor.cursor_line, editor.cursor_col), (0, 0));
}

#[test]
fn ctrl_x_exit_chord_works_while_searching() {
    let mut editor = editor_with("abc");
    editor.begin_search(SearchDirection::Forward);
    let keymap = test_keymap();

    let start = KeyEvent::new(KeyCode::Char('x'), KeyModifiers::control());
    assert_eq!(
        keymap.match_key_for_actions(inline_search_actions().as_slice(), &Vec::new(), &start),
        KeymapMatch::Prefix
    );
    editor.pending_keys.push(keymap.keypress_from_event(&start).unwrap());

    let exit = KeyEvent::new(KeyCode::Char('c'), KeyModifiers::control());
    assert_eq!(
        keymap.match_key_for_actions(
            inline_search_actions().as_slice(),
            &editor.pending_keys,
            &exit
        ),
        KeymapMatch::Action("quit".to_string())
    );
    assert_eq!(
        handle_inline_action(&mut editor, None, Mode::Edit, "quit").unwrap(),
        Some(Outcome::Quit)
    );
    assert!(editor.search.is_some());
}

#[test]
fn ctrl_x_fullscreen_bindings_are_available() {
    let keymap = test_keymap();
    let ctrl_x = KeyEvent::new(KeyCode::Char('x'), KeyModifiers::control());
    let one = KeyEvent::new(KeyCode::Char('1'), KeyModifiers::empty());
    let zero = KeyEvent::new(KeyCode::Char('0'), KeyModifiers::empty());
    let pending = vec![keymap.keypress_from_event(&ctrl_x).unwrap()];

    assert_eq!(
        keymap.match_key_for_actions(inline_normal_actions().as_slice(), &Vec::new(), &ctrl_x),
        KeymapMatch::Prefix
    );
    assert_eq!(
        keymap.match_key_for_actions(inline_normal_actions().as_slice(), &pending, &one),
        KeymapMatch::Action("fullscreen".to_string())
    );
    assert_eq!(
        keymap.match_key_for_actions(inline_normal_actions().as_slice(), &pending, &zero),
        KeymapMatch::Action("restore_inline".to_string())
    );
}

#[test]
fn ctrl_g_cancels_incremental_search() {
    let mut editor = editor_with("abc foo");
    editor.cursor_col = 2;
    editor.begin_search(SearchDirection::Forward);
    for ch in "foo".chars() {
        editor.search_insert_char(ch);
    }
    assert_eq!((editor.cursor_line, editor.cursor_col), (0, 4));

    assert_eq!(
        handle_inline_action(&mut editor, None, Mode::Edit, "cancel_search").unwrap(),
        None
    );

    assert!(editor.search.is_none());
    assert_eq!((editor.cursor_line, editor.cursor_col), (0, 2));
}

#[test]
fn resize_anchor_preserves_top_when_growing() {
    assert_eq!(resize_anchor_row(8, 16, 17, 24), 8);
}

#[test]
fn resize_anchor_preserves_bottom_when_shrinking() {
    assert_eq!(resize_anchor_row(8, 16, 12, 24), 12);
}

#[test]
fn commit_mode_warns_when_subject_exceeds_fifty_columns() {
    let editor = commit_editor_with("this subject is intentionally longer than fifty columns\n");

    assert_eq!(editor.display_status(), "commit subject 55/50");
}

#[test]
fn commit_mode_warns_when_body_lacks_separator() {
    let editor = commit_editor_with("short subject\nbody text starts immediately\n");

    assert_eq!(editor.display_status(), "commit body needs blank line after subject");
}

#[test]
fn commit_mode_warns_when_body_line_exceeds_limit() {
    let editor = commit_editor_with(
        "short subject\n\nthis body line is intentionally long enough to exceed the seventy two column limit here\n",
    );

    assert_eq!(editor.display_status(), "commit body line 3 87/72");
}

#[test]
fn commit_mode_fill_wraps_body_to_seventy_two_columns() {
    let mut editor = commit_editor_with(
        "short subject\n\nthis body line is intentionally long enough to exceed the seventy two column limit and should wrap cleanly\n",
    );
    editor.cursor_line = 2;

    editor.fill_paragraph();

    assert_eq!(
        editor.buffer.to_string(),
        "short subject\n\nthis body line is intentionally long enough to exceed the seventy two\ncolumn limit and should wrap cleanly\n"
    );
    assert_eq!(editor.status, "filled paragraph to 72");
}

#[test]
fn commit_mode_does_not_fill_subject_or_comments() {
    let mut editor = commit_editor_with(
        "short subject\n\n# comment line with enough words that it would wrap if comments were fillable\n",
    );

    editor.cursor_line = 0;
    editor.fill_paragraph();
    assert_eq!(editor.status, "no paragraph");

    editor.cursor_line = 2;
    editor.fill_paragraph();
    assert_eq!(editor.status, "no paragraph");
}

#[test]
fn commit_mode_auto_wraps_body_after_typed_space() {
    let mut editor = commit_editor_with("short subject\n\nalpha beta gamma delta");
    editor.text_mode = TextMode::CommitMessage {
        subject_column: 50,
        body_column: 20,
        comment_prefix: "#",
    };
    editor.cursor_line = 2;
    editor.cursor_col = editor.line_len();

    editor.insert_char(' ');

    assert_eq!(editor.buffer.to_string(), "short subject\n\nalpha beta gamma\ndelta ");
    assert_eq!((editor.cursor_line, editor.cursor_col), (3, 6));
}

#[test]
fn commit_mode_auto_wraps_indented_body_with_same_indent() {
    let mut editor = commit_editor_with("short subject\n\n  alpha beta gamma delta");
    editor.text_mode = TextMode::CommitMessage {
        subject_column: 50,
        body_column: 22,
        comment_prefix: "#",
    };
    editor.cursor_line = 2;
    editor.cursor_col = editor.line_len();

    editor.insert_char(' ');

    assert_eq!(editor.buffer.to_string(), "short subject\n\n  alpha beta gamma\n  delta ");
    assert_eq!((editor.cursor_line, editor.cursor_col), (3, 8));
}

#[test]
fn auto_wrap_does_not_apply_to_plain_text_or_commit_subject() {
    let mut editor = editor_with("alpha beta gamma delta");
    editor.text_mode = TextMode::Plain { fill_column: 20 };
    editor.cursor_col = editor.line_len();

    editor.insert_char(' ');

    assert_eq!(editor.buffer.to_string(), "alpha beta gamma delta ");

    let mut editor = commit_editor_with("alpha beta gamma delta");
    editor.text_mode = TextMode::CommitMessage {
        subject_column: 20,
        body_column: 20,
        comment_prefix: "#",
    };
    editor.cursor_col = editor.line_len();

    editor.insert_char(' ');

    assert_eq!(editor.buffer.to_string(), "alpha beta gamma delta ");
}

#[test]
fn detects_git_commit_message_files() {
    assert!(TextMode::for_path(".git/COMMIT_EDITMSG", 80).is_commit_message());
    assert!(TextMode::for_path("worktree-COMMIT_MSG", 80).is_commit_message());
    assert!(TextMode::for_path("worktree-COMMIT_EDITMSG", 80).is_commit_message());
    assert!(TextMode::for_path(".git/MERGE_MSG", 80).is_commit_message());
    assert!(TextMode::for_path(".git/SQUASH_MSG", 80).is_commit_message());
    assert!(TextMode::for_path(".git/TAG_EDITMSG", 80).is_commit_message());
}

#[test]
fn leaves_other_files_plain() {
    assert_eq!(TextMode::for_path("notes.txt", 80), TextMode::Plain { fill_column: 80 });
}

#[test]
fn commit_subject_style_marks_limit_and_overflow_differently() {
    let base = Style::default();
    let in_limit = commit_subject_style(base, 49, Some(50));
    let overflow = commit_subject_style(base, 50, Some(50));

    assert_eq!(in_limit.fg, Some(Color::Cyan));
    assert_eq!(overflow.fg, Some(Color::Red));
    assert!(overflow.bold);
}

// What follows goes beyond single operations.

#[test]
fn comments_are_no_part_of_a_commit_message() {
    let comment = "# a comment that is a good deal longer than seventy two columns, which is no fault";
    let editor = commit_editor_with(&format!("subject\n{comment}\n"));
    assert_eq!(editor.commit_warning(), None);
    let editor = commit_editor_with(&format!("{comment}\n"));
    assert_eq!(editor.commit_warning(), None);
    assert_eq!(editor.commit_subject_limit_for_line(0), None);
    let editor = commit_editor_with("subject\n");
    assert_eq!(editor.commit_subject_limit_for_line(0), Some(50));
    assert_eq!(editor.commit_subject_limit_for_line(1), None);
}

#[test]
fn opened_editor_clamps_line_and_height() {
    let editor = Editor::open("notes.txt".to_string(), "a\nb\nc", Some(9), 2, 100, Mode::View);
    assert_eq!((editor.cursor_line, editor.cursor_col), (2, 0));
    assert_eq!(editor.height, MIN_HEIGHT);
    assert_eq!(editor.text_mode, TextMode::Plain { fill_column: 100 });
    assert_eq!(editor.status, Mode::View.initial_status());
    assert_eq!(editor.save_text(), "a\nb\nc");
    let editor = Editor::open("notes.txt".to_string(), "a\nb\nc", Some(2), 30, 100, Mode::Edit);
    assert_eq!(editor.cursor_line, 1);
    assert_eq!(editor.height, 30);
}

#[test]
fn every_edit_is_undone_and_redone() {
    let mut editor = editor_with("one two\r\nthree\u{2028}four\u{c}five\n");
    editor.kill_ring = "x\ny".to_string();
    editor.cursor_line = 1;
    editor.cursor_col = 2;
    let actions = ["insert_newline", "backspace", "delete_char", "kill_to_eol", "yank"];
    for action in actions {
        let before = (editor.buffer.to_string(), editor.cursor_line, editor.cursor_col);
        let steps = editor.undo_stack.len();
        handle_inline_action(&mut editor, None, Mode::Edit, action).unwrap();
        let after = (editor.buffer.to_string(), editor.cursor_line, editor.cursor_col);
        assert_eq!(editor.undo_stack.len(), steps + 1);
        editor.undo();
        assert_eq!((editor.buffer.to_string(), editor.cursor_line, editor.cursor_col), before);
        assert_eq!(editor.status, "undo");
        editor.redo();
        assert_eq!(editor.status, "redo");
        assert_eq!((editor.buffer.to_string(), editor.cursor_line, editor.cursor_col), after);
    }
    editor.undo_stack.clear();
    editor.undo();
    assert_eq!(editor.status, "no undo");
    editor.redo_stack.clear();
    editor.redo();
    assert_eq!(editor.status, "no redo");
}

#[test]
fn yank_brings_back_what_kill_took() {
    let mut editor = editor_with("ab\r\ncd\nef");
    editor.cursor_col = 1;
    editor.toggle_mark();
    editor.cursor_line = 1;
    editor.cursor_col = 1;
    editor.kill_region();
    assert_eq!(editor.buffer.to_string(), "ad\nef");
    assert_eq!(editor.kill_ring, "b\r\nc");
    assert_eq!(editor.status, "region killed");
    editor.yank();
    assert_eq!(editor.buffer.to_string(), "ab\r\ncd\nef");
    assert_eq!((editor.cursor_line, editor.cursor_col), (1, 1));
    assert_eq!(editor.kill_ring, "b\r\nc");
    assert_eq!(editor.undo_stack.len(), 2);
    assert!(editor.redo_stack.is_empty());
}

#[test]
fn yank_brings_back_the_rest_of_a_line() {
    let mut editor = editor_with("abc\r\ndef");
    editor.cursor_col = 1;
    editor.kill_to_eol();
    assert_eq!(editor.buffer.to_string(), "a\r\ndef");
    editor.yank();
    assert_eq!(editor.buffer.to_string(), "abc\r\ndef");
    assert_eq!((editor.cursor_line, editor.cursor_col), (0, 3));
    editor.kill_to_eol();
    assert_eq!(editor.kill_ring, "\r\n");
    editor.yank();
    assert_eq!(editor.buffer.to_string(), "abc\r\ndef");
    assert_eq!((editor.cursor_line, editor.cursor_col), (1, 0));
    assert_eq!(editor.undo_stack.len(), 4);
}

#[test]
fn fill_changes_white_space_only() {
    let text = "  a bb   ccc\n  dddd eeeeeeeeeeeeeeeeee f\n\nnext";
    let mut editor = editor_with(text);
    editor.text_mode = TextMode::Plain { fill_column: 10 };
    editor.fill_paragraph();
    let after = editor.buffer.to_string();
    assert_eq!(after, "  a bb ccc\n  dddd\n  eeeeeeeeeeeeeeeeee\n  f\n\nnext");
    let words: Vec<&str> = text.split_whitespace().collect();
    assert_eq!(after.split_whitespace().collect::<Vec<&str>>(), words);
    assert_eq!(editor.undo_stack.len(), 1);
    editor.fill_paragraph();
    assert_eq!(editor.status, "already filled to 10");
    assert_eq!(editor.buffer.to_string(), after);
    assert_eq!(editor.undo_stack.len(), 1);
}

#[test]
fn fill_once_more_in_a_commit_message() {
    let mode = TextMode::CommitMessage {
        subject_column: 50,
        body_column: 10,
        comment_prefix: "#",
    };
    let mut editor = editor_with("subject\n\naaaa bbbb #12 cc\n# note");
    editor.text_mode = mode;
    editor.cursor_line = 2;
    editor.fill_paragraph();
    assert_eq!(editor.buffer.to_string(), "subject\n\naaaa bbbb\n#12 cc\n# note");
    assert_eq!(editor.status, "filled paragraph to 10");
    editor.fill_paragraph();
    assert_eq!(editor.status, "already filled to 10");
    assert_eq!(editor.undo_stack.len(), 1);

    // With the cursor in the line that has become a comment, there is no paragraph.
    let mut editor = editor_with("subject\n\naaaa bbbb #12 cc\n# note");
    editor.text_mode = mode;
    editor.cursor_line = 2;
    editor.cursor_col = 12;
    editor.fill_paragraph();
    assert_eq!((editor.cursor_line, editor.cursor_col), (3, 2));
    editor.fill_paragraph();
    assert_eq!(editor.status, "no paragraph");
}

#[test]
fn wrap_words_keeps_room_for_one_character() {
    assert_eq!(wrap_words(&strings(&["a", "b"]), "    ", 2), "    a\n    b");
    assert_eq!(wrap_words(&strings(&["ab", "cd", "ef"]), "", 5), "ab cd\nef");
    assert_eq!(wrap_words(&Vec::new(), ">", 5), ">");
    assert_eq!(common_indent_len(&strings(&["   a", " ", "  b"])), 2);
    assert_eq!(common_indent_len(&strings(&["", " "])), 0);
    assert_eq!(char_len("h\u{e9}llo"), 5);
}

#[test]
fn searches_in_a_line_count_characters() {
    assert_eq!(find_in_line_forward("\u{e9}\u{e9}ab ab", "ab", 0), Some(2));
    assert_eq!(find_in_line_forward("\u{e9}\u{e9}ab ab", "ab", 3), Some(5));
    assert_eq!(find_in_line_forward("ab", "ab", 1), None);
    assert_eq!(find_in_line_forward("ab", "", 7), Some(7));
    assert_eq!(find_in_line_reverse("\u{e9}ab ab", "ab", 6), Some(4));
    assert_eq!(find_in_line_reverse("\u{e9}ab ab", "ab", 5), Some(1));
    assert_eq!(find_in_line_reverse("\u{e9}ab ab", "ab", 2), None);
}

#[test]
fn search_goes_round_but_not_within_its_line() {
    let mut editor = editor_with("foo x\nbar\nfoo");
    editor.cursor_line = 0;
    editor.cursor_col = 2;
    assert_eq!(editor.find_forward("foo", 0, 2), Some((2, 0)));
    assert_eq!(editor.find_reverse("foo", 0, 2), Some((2, 0)));
    assert_eq!(editor.find_forward("foo", 2, 1), Some((0, 0)));
    assert_eq!(editor.find_forward("baz", 0, 0), None);
    let editor = editor_with("foo x");
    assert_eq!(editor.find_forward("foo", 0, 2), None);
}

#[test]
fn search_keeps_its_begin() {
    let mut editor = editor_with("ab\nabc\nab");
    editor.cursor_line = 1;
    editor.cursor_col = 1;
    editor.begin_search(SearchDirection::Reverse);
    assert_eq!(editor.status, "I-search backward: ");
    editor.search_insert_char('a');
    editor.search_insert_char('b');
    assert_eq!((editor.cursor_line, editor.cursor_col), (0, 0));
    editor.search_backspace();
    assert_eq!((editor.cursor_line, editor.cursor_col), (1, 0));
    editor.search_repeat(SearchDirection::Forward);
    assert_eq!((editor.cursor_line, editor.cursor_col), (2, 0));
    editor.cancel_search();
    assert_eq!((editor.cursor_line, editor.cursor_col), (1, 1));
    assert_eq!(editor.status, "search cancelled");
}

#[test]
fn pager_keys_change_no_text() {
    let keymap = test_keymap();
    let mut editor = editor_with("abc\ndef");
    let keys = [
        KeyEvent::new(KeyCode::Char('x'), KeyModifiers::empty()),
        KeyEvent::new(KeyCode::Backspace, KeyModifiers::empty()),
        KeyEvent::new(KeyCode::Enter, KeyModifiers::empty()),
        KeyEvent::new(KeyCode::Char('k'), KeyModifiers::control()),
        KeyEvent::new(KeyCode::Char('y'), KeyModifiers::control()),
    ];
    for key in &keys {
        assert_eq!(handle_key(&mut editor, key, None, Mode::View, &keymap), Ok(None));
        assert_eq!(editor.buffer.to_string(), "abc\ndef");
        assert!(!editor.dirty);
        editor.pending_keys.clear();
    }
    assert_eq!(handle_inline_action(&mut editor, None, Mode::View, "save"), Ok(None));
    assert_eq!(editor.status, "read-only");
    assert_eq!(
        handle_inline_action(&mut editor, None, Mode::View, "quit_view"),
        Ok(Some(Outcome::Quit))
    );
    assert_eq!(handle_inline_action(&mut editor, None, Mode::Edit, "quit_view"), Ok(None));
}

#[test]
fn keys_type_and_move() {
    let keymap = test_keymap();
    let mut editor = editor_with("");
    for ch in "hi there".chars() {
        let key = KeyEvent::new(KeyCode::Char(ch), KeyModifiers::empty());
        handle_key(&mut editor, &key, None, Mode::Edit, &keymap).unwrap();
    }
    assert_eq!(editor.buffer.to_string(), "hi there");
    let alt_b = KeyEvent::new(KeyCode::Char('b'), KeyModifiers::alt());
    handle_key(&mut editor, &alt_b, None, Mode::Edit, &keymap).unwrap();
    assert_eq!(editor.cursor_col, 3);
    let tab = KeyEvent::new(KeyCode::Tab, KeyModifiers::empty());
    handle_key(&mut editor, &tab, None, Mode::Edit, &keymap).unwrap();
    assert_eq!(editor.buffer.to_string(), "hi     there");
    let ctrl_x = KeyEvent::new(KeyCode::Char('x'), KeyModifiers::control());
    handle_key(&mut editor, &ctrl_x, None, Mode::Edit, &keymap).unwrap();
    assert_eq!(editor.status, "ctrl-x ...");
    let z = KeyEvent::new(KeyCode::Char('z'), KeyModifiers::empty());
    handle_key(&mut editor, &z, None, Mode::Edit, &keymap).unwrap();
    assert_eq!(editor.status, "unknown key sequence");
    assert!(editor.pending_keys.is_empty());
    handle_key(&mut editor, &ctrl_x, None, Mode::Edit, &keymap).unwrap();
    let ctrl_s = KeyEvent::new(KeyCode::Char('s'), KeyModifiers::control());
    let outcome = handle_key(&mut editor, &ctrl_s, None, Mode::Edit, &keymap).unwrap();
    assert_eq!(outcome, Some(Outcome::Save));
    complete(&mut editor, Outcome::Save);
    assert!(!editor.dirty);
    assert_eq!(editor.status, "saved test.txt");
}

#[test]
fn lost_cursor_is_told() {
    let mut editor = editor_with("abc\nd");
    editor.cursor_col = 9;
    editor.kill_ring = "kept".to_string();
    for action in ["delete_char", "kill_to_eol", "yank", "backspace", "insert_tab"] {
        assert_eq!(
            handle_inline_action(&mut editor, None, Mode::Edit, action),
            Err(CursorLost),
            "{action}"
        );
        assert_eq!(editor.buffer.to_string(), "abc\nd");
        assert_eq!(editor.kill_ring, "kept");
        assert!(editor.undo_stack.is_empty());
    }
    editor.kill_ring.clear();
    assert_eq!(handle_inline_action(&mut editor, None, Mode::Edit, "yank"), Ok(None));
}

#[test]
fn nothing_is_behind_the_last_line() {
    let mut editor = editor_with("abc");
    editor.cursor_col = 9;
    editor.kill_ring = "old".to_string();
    assert_eq!(handle_inline_action(&mut editor, None, Mode::Edit, "delete_char"), Ok(None));
    assert_eq!(editor.kill_ring, "old");
    assert_eq!(handle_inline_action(&mut editor, None, Mode::Edit, "kill_to_eol"), Ok(None));
    assert_eq!(editor.kill_ring, "");
    assert_eq!(editor.buffer.to_string(), "abc");
    assert_eq!(editor.cursor_col, 9);
    assert!(editor.undo_stack.is_empty());
    editor.toggle_mark();
    editor.cursor_col = 10;
    assert_eq!(
        handle_inline_action(&mut editor, None, Mode::Edit, "delete_char"),
        Err(CursorLost)
    );
}

#[test]
fn heights_are_kept_within_the_terminal() {
    let screen = Some(Screen { rows: Some(20) });
    let mut editor = editor_with("abc");
    editor.last_drawn_top = 4;
    let grow = handle_inline_action(&mut editor, screen, Mode::Edit, "grow_height").unwrap();
    assert_eq!(grow, Some(Outcome::Resize { height: 17, anchor: 4 }));
    complete(&mut editor, grow.unwrap());
    assert_eq!(editor.height, 17);
    assert_eq!(editor.status, "height 17");
    let shrink = handle_inline_action(&mut editor, screen, Mode::Edit, "shrink_height").unwrap();
    assert_eq!(shrink, Some(Outcome::Resize { height: 16, anchor: 5 }));
    let full = handle_inline_action(&mut editor, screen, Mode::Edit, "fullscreen").unwrap();
    assert_eq!(full, Some(Outcome::EnterFullscreen { height: 20 }));
    complete(&mut editor, full.unwrap());
    assert!(editor.fullscreen);
    assert_eq!(handle_inline_action(&mut editor, screen, Mode::Edit, "grow_height"), Ok(None));
    assert_eq!(editor.status, "fullscreen");
    let back = handle_inline_action(&mut editor, screen, Mode::Edit, "restore_inline").unwrap();
    assert_eq!(back, Some(Outcome::LeaveFullscreen { height: 17 }));
    complete(&mut editor, back.unwrap());
    assert_eq!((editor.height, editor.fullscreen), (17, false));
    assert_eq!(handle_inline_action(&mut editor, screen, Mode::Edit, "restore_inline"), Ok(None));
    assert_eq!(editor.status, "already inline");
    editor.height = MIN_HEIGHT;
    assert_eq!(handle_inline_action(&mut editor, screen, Mode::Edit, "shrink_height"), Ok(None));
}

#[test]
fn regions_cover_parts_of_lines() {
    let mut editor = editor_with("abc\ndef\nghi");
    editor.cursor_col = 1;
    editor.toggle_mark();
    editor.cursor_line = 2;
    editor.cursor_col = 2;
    let region = editor.active_region();
    assert_eq!(region, Some(Region { start: 1, end: 10 }));
    let part = |line: usize| line_selection_range(&editor, line, region.as_ref());
    assert_eq!(part(0), Some(Region { start: 1, end: 3 }));
    assert_eq!(part(1), Some(Region { start: 0, end: 3 }));
    assert_eq!(part(2), Some(Region { start: 0, end: 2 }));
    assert_eq!(editor.mark, Some(BufferPoint { line: 0, col: 1 }));
}

#[test]
fn arguments_of_the_editor() {
    let config = Config::parse(&strings(&["+12", "--height", "20", "a.txt"]), Mode::Edit).unwrap();
    assert_eq!(config.path, "a.txt");
    assert_eq!((config.height, config.line), (20, Some(12)));
    let config = Config::parse(&strings(&["--line", "3", "a.txt"]), Mode::View).unwrap();
    assert_eq!((config.height, config.line), (DEFAULT_HEIGHT, Some(3)));
    let fault = |args: &[&str]| Config::parse(&strings(args), Mode::Edit).unwrap_err().message();
    assert_eq!(fault(&["--height"]), "--height requires a row count");
    assert_eq!(fault(&["--line"]), "--line requires a line number");
    assert_eq!(fault(&["--height", "x", "a"]), "invalid height: x");
    assert_eq!(fault(&["--line", "x", "a"]), "invalid line number: x");
    assert_eq!(fault(&["a", "b"]), "unexpected argument: b");
}

#[test]
fn highlighting_keeps_the_text() {
    let syntax = highlighter("Rust");
    let mut lines = syntax.start();
    let tokens = lines.tokens("fn main() {}");
    let text: String = tokens.iter().map(|token| token.text.as_str()).collect();
    assert_eq!(text, "fn main() {}");
    assert!(tokens.len() > 1);
    let known = default_syntaxes();
    assert!(SyntaxHighlighter::new(known, Some("No Such Syntax".to_string())).is_ok());
    let missing = SyntaxHighlighter::new(SyntaxSet::new(), Some("Rust".to_string())).err();
    assert_eq!(missing, Some(Unlit::NoPlainText));
    let known = default_syntaxes();
    let none = SyntaxHighlighter::with_themes(known, &ThemeSet::new(), None).err();
    assert_eq!(none.map(|why| why.message()), Some("no syntect themes available".to_string()));
    let dark = ThemeSet::load_defaults().themes["base16-ocean.dark"].clone();
    let light = ThemeSet::load_defaults().themes["InspiredGitHub"].clone();
    let first = |highlighter: SyntaxHighlighter| {
        let token = highlighter.start().tokens("fn main() {}").remove(0);
        (token.red, token.green, token.blue)
    };
    let rust = || Some("Rust".to_string());
    let chosen = first(highlighter("Rust"));
    let known = default_syntaxes();
    let expected = first(SyntaxHighlighter::with_theme(known, dark.clone(), rust()).unwrap());
    assert_eq!(chosen, expected);
    let mut themes = ThemeSet::new();
    themes.themes.insert("z".to_string(), dark);
    themes.themes.insert("a".to_string(), light.clone());
    let known = default_syntaxes();
    let chosen = first(SyntaxHighlighter::with_themes(known, &themes, rust()).unwrap());
    let known = default_syntaxes();
    let expected = first(SyntaxHighlighter::with_theme(known, light, rust()).unwrap());
    assert_eq!(chosen, expected);
    assert_eq!(preferred_theme(&strings(&["x", "base16-ocean.dark"])), Some(1));
    assert_eq!(preferred_theme(&strings(&["x", "y"])), Some(0));
    assert_eq!(preferred_theme(&Vec::new()), None);
}

#[test]
fn rust_tokens_have_colours_of_their_own() {
    let syntax = highlighter("Rust");
    let mut lines = syntax.start();
    let tokens = lines.tokens("// note");
    let plain = highlighter("Plain Text");
    let mut plain_lines = plain.start();
    let plain_tokens = plain_lines.tokens("// note");
    let color = |token: &innards::inline_text::syntax::Token| (token.red, token.green, token.blue);
    assert!(color(&tokens[0]) != color(&plain_tokens[0]));
}

#[test]
fn lines_are_drawn_with_numbers_and_limits() {
    let mut editor = commit_editor_with("0123456789\nbody");
    editor.text_mode = TextMode::CommitMessage {
        subject_column: 4,
        body_column: 72,
        comment_prefix: "#",
    };
    let syntax = highlighter("Plain Text");
    let whole = Area { x: 0, y: 2, width: 30, height: 8 };
    let picture = draw(&mut editor, &syntax, Mode::Edit, whole);
    assert_eq!(picture.lines_area, Area { x: 1, y: 3, width: 28, height: 5 });
    assert_eq!(picture.status_area, Area { x: 1, y: 8, width: 28, height: 1 });
    assert_eq!(picture.title, " inmacs: .git/COMMIT_EDITMSG ");
    assert_eq!(line_string(&picture.status), "1:1  commit subject 10/4");
    assert_eq!(line_string(&picture.lines[0]), " 1 0123456789");
    assert_eq!(line_string(&picture.lines[1]), " 2 body");
    assert_eq!(line_string(&picture.lines[2]), "~");
    assert_eq!(picture.lines.len(), 5);
    assert_eq!(picture.cursor, Some(Place { x: 4, y: 3 }));
    assert_eq!((editor.last_drawn_top, editor.last_drawn_height), (2, 8));
    let mut lines = syntax.start();
    let tokens = lines.tokens("0123456789");
    let line = render_line(&editor, 0, &tokens, 6, 3);
    assert_eq!(line_string(&line), " 1 012345");
    assert_eq!(line.spans[4].style.fg, Some(Color::Cyan));
    assert_eq!(line.spans[5].style.fg, Some(Color::Red));
}

#[test]
fn plain_view_shows_the_page() {
    let mut editor = editor_with("a\nb\nc\nd");
    let lines = draw_plain_view(&mut editor, Area { x: 0, y: 0, width: 10, height: 3 });
    assert_eq!(lines.iter().map(line_string).collect::<Vec<String>>(), vec!["a", "b", "c"]);
}
