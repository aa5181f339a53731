use innards::config::{
    config_path, pending_status, BindingList, ConfigKeybindings, InmacsConfig, InnardsConfig,
    KeyCode, KeyError, KeyEvent, KeyEventKind, KeyModifiers, KeyPress, KeySequence, Keymap,
    KeymapMatch,
};

fn ctrl(c: char) -> KeyEvent {
    KeyEvent::new(KeyCode::Char(c), KeyModifiers::control())
}

#[test]
fn parses_ctrl_x_chord() {
    let sequence = KeySequence::parse("ctrl-x ctrl-s").unwrap();

    assert_eq!(sequence.0.len(), 2);
    assert_eq!(sequence.0[0].code, KeyCode::Char('x'));
    assert!(sequence.0[0].modifiers.control);
    assert_eq!(sequence.0[1].code, KeyCode::Char('s'));
    assert!(sequence.0[1].modifiers.control);
}

#[test]
fn matches_prefix_then_action() {
    let keymap = Keymap::from_defaults(&[("save", &["ctrl-x ctrl-s"])]).unwrap();
    let first = ctrl('x');
    let second = ctrl('s');
    let pending = vec![keymap.keypress_from_event(&first).unwrap()];

    assert_eq!(keymap.match_key(&Vec::new(), &first), KeymapMatch::Prefix);
    assert_eq!(keymap.match_key(&pending, &second), KeymapMatch::Action("save".to_string()));
}

#[test]
fn key_names_ignore_case() {
    for text in ["ctrl-x", "CTRL-X", "Control-x", "ctrl+X", " ctrl-x "] {
        let key = KeyPress::parse(text).unwrap();
        assert_eq!(key, KeyPress { code: KeyCode::Char('x'), modifiers: KeyModifiers::control() });
    }
    assert_eq!(KeySequence::parse("Ctrl-X Alt-PageUp"), KeySequence::parse("ctrl-x alt-pageup"));
    assert_eq!(KeyPress::parse("Escape").unwrap().code, KeyCode::Esc);
    assert_eq!(KeyPress::parse("meta-v").unwrap().modifiers, KeyModifiers::alt());
    assert_eq!(KeyPress::parse("shift-up").unwrap().modifiers, KeyModifiers::shift());
}

#[test]
fn ill_written_keys_are_refused() {
    assert_eq!(KeyPress::parse(" "), Err(KeyError::EmptyKey));
    assert_eq!(KeySequence::parse("  "), Err(KeyError::EmptySequence));
    assert_eq!(KeySequence::parse("ctrl-x foo"), Err(KeyError::UnknownKey("foo".to_string())));
    assert_eq!(KeyError::EmptyKey.message(), "empty key");
    assert_eq!(KeyError::EmptySequence.message(), "empty key sequence");
    assert_eq!(KeyError::UnknownKey("foo".to_string()).message(), "unknown key `foo`");
    let error = Keymap::from_defaults(&[("a", &["x"]), ("b", &["y", "bad"])]).unwrap_err();
    assert_eq!(error.action, "b");
    assert_eq!(error.error, KeyError::UnknownKey("bad".to_string()));
    assert_eq!(error.message(), "invalid binding for action `b`");
}

#[test]
fn overrides_replace_and_keep() {
    let mut keymap =
        Keymap::from_defaults(&[("save", &["ctrl-s", "ctrl-w"]), ("quit", &["ctrl-q"])]).unwrap();
    let overrides = vec![
        ("save".to_string(), BindingList::One("ctrl-x".to_string())),
        ("other".to_string(), BindingList::Many(vec!["a".to_string(), "b".to_string()])),
    ];
    keymap.apply_overrides(&overrides).unwrap();
    let found = |key: &KeyEvent| keymap.match_key(&Vec::new(), key);
    assert_eq!(found(&ctrl('x')), KeymapMatch::Action("save".to_string()));
    assert_eq!(found(&ctrl('s')), KeymapMatch::NoMatch);
    assert_eq!(found(&ctrl('w')), KeymapMatch::NoMatch);
    assert_eq!(found(&ctrl('q')), KeymapMatch::Action("quit".to_string()));
    let b = KeyEvent::new(KeyCode::Char('b'), KeyModifiers::empty());
    assert_eq!(found(&b), KeymapMatch::Action("other".to_string()));
    let bad = vec![("quit".to_string(), BindingList::One("".to_string()))];
    assert_eq!(keymap.apply_overrides(&bad).unwrap_err().error, KeyError::EmptySequence);
}

#[test]
fn actions_limit_what_matches() {
    let keymap = Keymap::from_defaults(&[("a", &["x"]), ("b", &["x"]), ("c", &["x y"])]).unwrap();
    let x = KeyEvent::new(KeyCode::Char('x'), KeyModifiers::empty());
    let none = Vec::new();
    assert_eq!(keymap.match_key(&none, &x), KeymapMatch::Action("a".to_string()));
    assert_eq!(
        keymap.match_key_for_actions(&["b"], &none, &x),
        KeymapMatch::Action("b".to_string())
    );
    assert_eq!(keymap.match_key_for_actions(&["c"], &none, &x), KeymapMatch::Prefix);
    assert_eq!(keymap.match_key_for_actions(&["d"], &none, &x), KeymapMatch::NoMatch);
}

#[test]
fn keys_are_shown_as_they_are_written() {
    for text in ["ctrl-x", "alt-pageup", "shift-up", "space", "enter", "esc", "ctrl-alt-q"] {
        assert_eq!(KeyPress::parse(text).unwrap().display(), text);
    }
    let f5 = KeyPress { code: KeyCode::F(5), modifiers: KeyModifiers::empty() };
    assert_eq!(f5.display(), "F(5)");
    let keys = KeySequence::parse("ctrl-x a").unwrap().0;
    assert_eq!(pending_status(&keys), "ctrl-x a ...");
}

#[test]
fn events_become_keys() {
    let mut event = KeyEvent::new(KeyCode::Char('A'), KeyModifiers::shift());
    let key = KeyPress::from_event(&event).unwrap();
    assert_eq!(key, KeyPress { code: KeyCode::Char('a'), modifiers: KeyModifiers::empty() });
    assert!(event.is_press());
    event.kind = KeyEventKind::Release;
    assert!(!event.is_press());
    let up = KeyEvent::new(KeyCode::Up, KeyModifiers::shift());
    assert!(KeyPress::from_event(&up).unwrap().modifiers.shift);
}

#[test]
fn config_lies_where_the_environment_says() {
    let path = |xdg: Option<&str>, home: Option<&str>| {
        config_path(xdg.map(|s| s.to_string()), home.map(|s| s.to_string()))
    };
    assert_eq!(path(Some("/x"), Some("/h")), Some("/x/innards/config.toml".to_string()));
    assert_eq!(path(None, Some("/h")), Some("/h/.config/innards/config.toml".to_string()));
    assert_eq!(path(None, None), None);
}

#[test]
fn config_has_defaults() {
    let config = InnardsConfig::default();
    assert_eq!(config.inmacs.fill_column, InmacsConfig::default().fill_column);
    assert_eq!(config.inmacs.fill_column, None);
    assert!(ConfigKeybindings::default().inline.is_empty());
    assert!(config.keybindings.log.is_empty());
}

#[test]
fn shown_keys_are_read_back() {
    for text in [
        "Ctrl+X",
        " meta-shift-page-up ",
        "shift-control-alt-return",
        "ctrl--",
        "alt++",
        "alt-space",
        "\u{e9}",
        "ESCAPE",
        "bs",
        "ctrl-ctrl-null",
    ] {
        let key = KeyPress::parse(text).unwrap();
        assert_eq!(KeyPress::parse(&key.display()).unwrap(), key, "{text}");
    }
    assert_eq!(KeyPress::parse("shift-control-alt-return").unwrap().display(), "ctrl-alt-shift-enter");
    assert_eq!(KeyPress::parse("alt++").unwrap().display(), "alt--");
}
