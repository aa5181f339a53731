//! The built-in key bindings of the editor and the pager.

use vstd::prelude::*;

#[allow(unused_imports)]
use crate::config::{default_rows, Rows};
#[allow(unused_imports)]
use crate::text::str_views;

verus! {

/// The built-in bindings of the editor and the pager.
pub open spec fn inline_bindings() -> Rows {
    seq![
        ("quit"@, seq!["ctrl-x ctrl-c"@]),
        ("save"@, seq!["ctrl-x ctrl-s"@]),
        ("search_forward"@, seq!["ctrl-s"@]),
        ("search_reverse"@, seq!["ctrl-r"@]),
        ("cancel_search"@, seq!["esc"@, "ctrl-g"@]),
        ("finish_search"@, seq!["enter"@]),
        ("cancel_mark"@, seq!["ctrl-g"@]),
        ("set_mark"@, seq!["ctrl-space"@, "null"@]),
        ("undo"@, seq!["ctrl-/"@, "ctrl-_"@, "ctrl-7"@]),
        ("redo"@, seq!["ctrl-?"@]),
        ("line_start"@, seq!["ctrl-a"@, "home"@]),
        ("line_end"@, seq!["ctrl-e"@, "end"@]),
        ("word_left"@, seq!["alt-b"@, "ctrl-left"@]),
        ("word_right"@, seq!["alt-f"@, "ctrl-right"@]),
        ("char_left"@, seq!["ctrl-b"@, "left"@]),
        ("char_right"@, seq!["ctrl-f"@, "right"@]),
        ("line_up"@, seq!["ctrl-p"@, "up"@]),
        ("line_down"@, seq!["ctrl-n"@, "down"@]),
        ("page_up"@, seq!["alt-v"@, "pageup"@]),
        ("page_down"@, seq!["ctrl-v"@, "pagedown"@]),
        ("copy_region"@, seq!["alt-w"@]),
        ("kill_region"@, seq!["ctrl-w"@]),
        ("kill_to_eol"@, seq!["ctrl-k"@]),
        ("yank"@, seq!["ctrl-y"@]),
        ("delete_char"@, seq!["ctrl-d"@, "delete"@]),
        ("backspace"@, seq!["backspace"@]),
        ("insert_newline"@, seq!["enter"@]),
        ("insert_tab"@, seq!["tab"@]),
        ("shrink_height"@, seq!["alt-up"@]),
        ("grow_height"@, seq!["alt-down"@]),
        ("fullscreen"@, seq!["ctrl-x 1"@]),
        ("restore_inline"@, seq!["ctrl-x 0"@]),
        ("fill_paragraph"@, seq!["alt-q"@]),
        ("quit_view"@, seq!["esc"@, "q"@]),
    ]
}

/// The built-in bindings of the editor and the pager.
pub fn inline_key_bindings() -> (r: Vec<(&'static str, &'static [&'static str])>)
    ensures
        default_rows(r@) == inline_bindings(),
{
    let table: Vec<(&'static str, &'static [&'static str])> = vec![
        ("quit", &["ctrl-x ctrl-c"]),
        ("save", &["ctrl-x ctrl-s"]),
        ("search_forward", &["ctrl-s"]),
        ("search_reverse", &["ctrl-r"]),
        ("cancel_search", &["esc", "ctrl-g"]),
        ("finish_search", &["enter"]),
        ("cancel_mark", &["ctrl-g"]),
        ("set_mark", &["ctrl-space", "null"]),
        ("undo", &["ctrl-/", "ctrl-_", "ctrl-7"]),
        ("redo", &["ctrl-?"]),
        ("line_start", &["ctrl-a", "home"]),
        ("line_end", &["ctrl-e", "end"]),
        ("word_left", &["alt-b", "ctrl-left"]),
        ("word_right", &["alt-f", "ctrl-right"]),
        ("char_left", &["ctrl-b", "left"]),
        ("char_right", &["ctrl-f", "right"]),
        ("line_up", &["ctrl-p", "up"]),
        ("line_down", &["ctrl-n", "down"]),
        ("page_up", &["alt-v", "pageup"]),
        ("page_down", &["ctrl-v", "pagedown"]),
        ("copy_region", &["alt-w"]),
        ("kill_region", &["ctrl-w"]),
        ("kill_to_eol", &["ctrl-k"]),
        ("yank", &["ctrl-y"]),
        ("delete_char", &["ctrl-d", "delete"]),
        ("backspace", &["backspace"]),
        ("insert_newline", &["enter"]),
        ("insert_tab", &["tab"]),
        ("shrink_height", &["alt-up"]),
        ("grow_height", &["alt-down"]),
        ("fullscreen", &["ctrl-x 1"]),
        ("restore_inline", &["ctrl-x 0"]),
        ("fill_paragraph", &["alt-q"]),
        ("quit_view", &["esc", "q"]),
    ];
    assert(default_rows(table@) =~~= inline_bindings());
    table
}

/// The actions of the editor outside a search.
pub open spec fn normal_actions() -> Seq<Seq<char>> {
    seq![
        "quit"@,
        "save"@,
        "search_forward"@,
        "search_reverse"@,
        "cancel_mark"@,
        "set_mark"@,
        "undo"@,
        "redo"@,
        "line_start"@,
        "line_end"@,
        "word_left"@,
        "word_right"@,
        "char_left"@,
        "char_right"@,
        "line_up"@,
        "line_down"@,
        "page_up"@,
        "page_down"@,
        "copy_region"@,
        "kill_region"@,
        "kill_to_eol"@,
        "yank"@,
        "delete_char"@,
        "backspace"@,
        "insert_newline"@,
        "insert_tab"@,
        "shrink_height"@,
        "grow_height"@,
        "fullscreen"@,
        "restore_inline"@,
        "fill_paragraph"@,
    ]
}

/// The actions of the editor outside a search.
pub fn inline_normal_actions() -> (r: Vec<&'static str>)
    ensures
        str_views(r@) == normal_actions(),
{
    let list: Vec<&'static str> = vec![
        "quit",
        "save",
        "search_forward",
        "search_reverse",
        "cancel_mark",
        "set_mark",
        "undo",
        "redo",
        "line_start",
        "line_end",
        "word_left",
        "word_right",
        "char_left",
        "char_right",
        "line_up",
        "line_down",
        "page_up",
        "page_down",
        "copy_region",
        "kill_region",
        "kill_to_eol",
        "yank",
        "delete_char",
        "backspace",
        "insert_newline",
        "insert_tab",
        "shrink_height",
        "grow_height",
        "fullscreen",
        "restore_inline",
        "fill_paragraph",
    ];
    assert(str_views(list@) =~~= normal_actions());
    list
}

/// The actions of the pager outside a search.
pub open spec fn view_actions() -> Seq<Seq<char>> {
    seq![
        "quit"@,
        "quit_view"@,
        "search_forward"@,
        "search_reverse"@,
        "line_start"@,
        "line_end"@,
        "word_left"@,
        "word_right"@,
        "char_left"@,
        "char_right"@,
        "line_up"@,
        "line_down"@,
        "page_up"@,
        "page_down"@,
        "shrink_height"@,
        "grow_height"@,
        "fullscreen"@,
        "restore_inline"@,
    ]
}

/// The actions of the pager outside a search.
pub fn inline_view_actions() -> (r: Vec<&'static str>)
    ensures
        str_views(r@) == view_actions(),
{
    let list: Vec<&'static str> = vec![
        "quit",
        "quit_view",
        "search_forward",
        "search_reverse",
        "line_start",
        "line_end",
        "word_left",
        "word_right",
        "char_left",
        "char_right",
        "line_up",
        "line_down",
        "page_up",
        "page_down",
        "shrink_height",
        "grow_height",
        "fullscreen",
        "restore_inline",
    ];
    assert(str_views(list@) =~~= view_actions());
    list
}

/// The actions during a search.
pub open spec fn search_actions() -> Seq<Seq<char>> {
    seq![
        "quit"@,
        "save"@,
        "fullscreen"@,
        "restore_inline"@,
        "search_forward"@,
        "search_reverse"@,
        "cancel_search"@,
        "finish_search"@,
        "backspace"@,
    ]
}

/// The actions during a search.
pub fn inline_search_actions() -> (r: Vec<&'static str>)
    ensures
        str_views(r@) == search_actions(),
{
    let list: Vec<&'static str> = vec![
        "quit",
        "save",
        "fullscreen",
        "restore_inline",
        "search_forward",
        "search_reverse",
        "cancel_search",
        "finish_search",
        "backspace",
    ];
    assert(str_views(list@) =~~= search_actions());
    list
}

} // verus!
