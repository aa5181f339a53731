use innards::clipboard::{
    base64_encode, clipboard_commands_for, clipboard_owner_stays_running, osc52_sequence, Answer,
    Ask, Copying,
};

#[test]
fn x11_prefers_xclip_without_wayland_probe() {
    let commands = clipboard_commands_for(false, true);

    assert_eq!(commands[0].0, "xclip");
    assert!(commands.iter().all(|(program, _)| *program != "wl-copy"));
}

#[test]
fn wayland_prefers_wl_copy() {
    let commands = clipboard_commands_for(true, true);

    assert_eq!(commands[0].0, "wl-copy");
    assert!(commands.iter().any(|(program, _)| *program == "xclip"));
}

#[test]
fn x11_clipboard_owners_are_not_waited_on() {
    assert!(clipboard_owner_stays_running("xclip"));
    assert!(clipboard_owner_stays_running("xsel"));
    assert!(!clipboard_owner_stays_running("wl-copy"));
    assert!(!clipboard_owner_stays_running("pbcopy"));
}

#[test]
fn base64_of_known_texts() {
    assert_eq!(base64_encode(b""), "");
    assert_eq!(base64_encode(b"f"), "Zg==");
    assert_eq!(base64_encode(b"fo"), "Zm8=");
    assert_eq!(base64_encode(b"foo"), "Zm9v");
    assert_eq!(base64_encode(b"foobar"), "Zm9vYmFy");
    assert_eq!(base64_encode(&[0xfb, 0xff]), "+/8=");
}

#[test]
fn terminal_sequence_is_wrapped_for_tmux() {
    assert_eq!(osc52_sequence(b"foo", false), "\u{1b}]52;c;Zm9v\u{7}");
    assert_eq!(
        osc52_sequence(b"foo", true),
        "\u{1b}Ptmux;\u{1b}\u{1b}]52;c;Zm9v\u{7}\u{1b}\\"
    );
}

#[test]
fn tools_of_each_display() {
    let programs = |has_wayland: bool, has_x11: bool| -> Vec<&'static str> {
        clipboard_commands_for(has_wayland, has_x11).iter().map(|tool| tool.0).collect()
    };
    assert_eq!(programs(false, false), vec!["wl-copy", "xclip", "xsel", "pbcopy"]);
    assert_eq!(programs(true, true), vec!["wl-copy", "xclip", "xsel", "pbcopy"]);
    assert_eq!(programs(true, false), vec!["wl-copy", "pbcopy"]);
    assert_eq!(programs(false, true), vec!["xclip", "xsel", "pbcopy"]);
}

#[test]
fn tools_are_tried_in_order() {
    let commands = clipboard_commands_for(true, false);
    let count = commands.len();
    let first = commands[0].0;
    let (mut copying, ask) = Copying::new(commands);
    assert_eq!(ask, Ask::Start);
    assert_eq!(copying.command().unwrap().0, first);
    for n in 1..count {
        assert_eq!(copying.answer(Answer::NotFound), Ask::Start, "tool {n}");
    }
    assert_eq!(copying.answer(Answer::NotFound), Ask::Terminal);
    assert!(copying.command().is_none());
    assert_eq!(copying.answer(Answer::Sent), Ask::Copied("OSC 52".to_string()));
}

#[test]
fn a_tool_that_ends_well_has_copied() {
    let (mut copying, _) = Copying::new(clipboard_commands_for(true, false));
    assert_eq!(copying.answer(Answer::Started), Ask::Write);
    assert_eq!(copying.answer(Answer::Written), Ask::Wait);
    let end = Answer::Ended { success: true, status: "0".to_string(), stderr: String::new() };
    assert_eq!(copying.answer(end), Ask::Copied("wl-copy".to_string()));
    let (mut copying, _) = Copying::new(clipboard_commands_for(false, true));
    assert_eq!(copying.answer(Answer::Started), Ask::Write);
    assert_eq!(copying.answer(Answer::Written), Ask::Copied("xclip".to_string()));
}
