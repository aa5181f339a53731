//! What the actions of the sequence editor do to the list, told by what is written.

use vstd::prelude::*;

#[allow(unused_imports)]
use crate::config::{lookup, normal_key, Bound, KeyEvent, KeyPress, MatchView};
#[allow(unused_imports)]
use crate::config::laws::binds;
#[allow(unused_imports)]
use crate::rebase::{
    action_named, command_down, command_up, commands, lemma_commands_count, lemma_commands_front,
    lemma_down_counts, lemma_down_misses, lemma_up_counts, lemma_up_misses, opened, prompt_line,
    prompt_names, read_line, read_todo, rebase_bindings, rebase_names, shown_line, word_end, Action,
    AppView, LineView, Outcome,
};
#[allow(unused_imports)]
use crate::style::{filler, Color};
#[allow(unused_imports)]
use crate::text::{
    decimal, has_suffix, is_blank, is_space, join, lemma_trim_start, pad_left, pad_right,
    trim_start,
};

verus! {

/// How the names of the actions differ.
proof fn lemma_names()
    ensures
        "prompt_save"@.len() == 11 && "prompt_save"@[0] == 'p',
        "prompt_abort"@.len() == 12,
        "prompt_cancel"@.len() == 13,
        "save"@.len() == 4 && "save"@[0] == 's',
        "quit"@.len() == 4 && "quit"@[0] == 'q',
        "select_prev"@.len() == 11 && "select_prev"@[0] == 's' && "select_prev"@[7] == 'p',
        "select_next"@.len() == 11 && "select_next"@[0] == 's' && "select_next"@[7] == 'n',
        "move_up"@.len() == 7 && "move_up"@[0] == 'm',
        "move_down"@.len() == 9 && "move_down"@[0] == 'm',
        "page_up"@.len() == 7 && "page_up"@[0] == 'p',
        "page_down"@.len() == 9 && "page_down"@[0] == 'p',
        "pick"@.len() == 4 && "pick"@[0] == 'p',
        "reword"@.len() == 6 && "reword"@[0] == 'r',
        "edit"@.len() == 4 && "edit"@[0] == 'e' && "edit"@[1] == 'd',
        "squash"@.len() == 6 && "squash"@[0] == 's',
        "fixup"@.len() == 5,
        "drop"@.len() == 4 && "drop"@[0] == 'd',
        "exec"@.len() == 4 && "exec"@[0] == 'e' && "exec"@[1] == 'x',
{
    reveal_strlit("prompt_save");
    reveal_strlit("prompt_abort");
    reveal_strlit("prompt_cancel");
    reveal_strlit("save");
    reveal_strlit("quit");
    reveal_strlit("select_prev");
    reveal_strlit("select_next");
    reveal_strlit("move_up");
    reveal_strlit("move_down");
    reveal_strlit("page_up");
    reveal_strlit("page_down");
    reveal_strlit("pick");
    reveal_strlit("reword");
    reveal_strlit("edit");
    reveal_strlit("squash");
    reveal_strlit("fixup");
    reveal_strlit("drop");
    reveal_strlit("exec");
}

/// A line has a command, and nothing is asked of the user.
pub open spec fn on_command(app: AppView) -> bool {
    &&& !app.quit_prompt
    &&& 0 <= app.selected < app.todo.lines.len()
    &&& app.todo.lines[app.selected].command is Some
}

/// The words that stand for a command of a commit.
pub open spec fn commit_words() -> Seq<Seq<char>> {
    seq!["pick"@, "reword"@, "edit"@, "squash"@, "fixup"@, "drop"@]
}

/// An action that is named after a command writes that very word in front of the
/// selected line, and behind it what stood there behind the former command. Every
/// other line, the selection and the rest of the list stay.
pub proof fn law_command_is_written(app: AppView, name: Seq<char>, i: int)
    requires
        on_command(app),
        commit_words().contains(name),
        0 <= i < app.todo.lines.len(),
    ensures
        ({
            let (after, outcome) = app.acted(name);
            let rest = app.todo.lines[app.selected].command->0.rest;
            &&& outcome is None
            &&& after.todo.lines.len() == app.todo.lines.len()
            &&& after.todo.lines[app.selected].written() == (if rest.len() == 0 {
                name
            } else {
                name + " "@ + rest
            })
            &&& i != app.selected ==> after.todo.lines[i] == app.todo.lines[i]
            &&& after.todo.trailing_newline == app.todo.trailing_newline
            &&& after.selected == app.selected
            &&& after.path == app.path
            &&& !after.quit_prompt
            &&& after.status == "set "@ + name
        }),
{
    lemma_names();
    let k = choose|k: int| 0 <= k < commit_words().len() && commit_words()[k] == name;
    assert(k == 0 || k == 1 || k == 2 || k == 3 || k == 4 || k == 5);
}

/// `exec` stays `exec`, and no commit becomes a command to run.
pub proof fn law_exec_stays_exec(app: AppView)
    requires
        on_command(app),
    ensures
        ({
            let (after, outcome) = app.acted("exec"@);
            let command = app.todo.lines[app.selected].command->0;
            &&& outcome is None
            &&& after.selected == app.selected
            &&& if command.action is Exec {
                &&& after.todo.lines[app.selected].written() == (if command.rest.len() == 0 {
                    "exec"@
                } else {
                    "exec"@ + " "@ + command.rest
                })
                &&& after.status == "set "@ + "exec"@
            } else {
                &&& after.todo == app.todo
                &&& after.status == "exec only applies to existing exec lines"@
            }
        }),
{
    lemma_names();
}

/// A line without a command keeps what was read, whatever command is asked for.
pub proof fn law_other_lines_are_not_set(app: AppView, name: Seq<char>)
    requires
        !app.quit_prompt,
        0 <= app.selected < app.todo.lines.len(),
        app.todo.lines[app.selected].command is None,
        commit_words().contains(name) || name == "exec"@,
    ensures
        app.acted(name).0.todo == app.todo,
        app.acted(name).0.selected == app.selected,
        app.acted(name).0.status == "not an editable todo line"@,
        app.acted(name).1 is None,
{
    lemma_names();
    if name != "exec"@ {
        let k = choose|k: int| 0 <= k < commit_words().len() && commit_words()[k] == name;
        assert(k == 0 || k == 1 || k == 2 || k == 3 || k == 4 || k == 5);
    }
}

/// The number of commands that an action goes up or down the list.
pub open spec fn distance(name: Seq<char>) -> int {
    if name == "page_up"@ || name == "page_down"@ {
        10
    } else {
        1
    }
}

/// Selecting goes to the command that lies one command above or below, or ten for a
/// page, and changes no line. Where there is none it stays.
pub proof fn law_selection_goes_to_commands(app: AppView, name: Seq<char>)
    requires
        !app.quit_prompt,
        0 <= app.selected < app.todo.lines.len(),
        name == "select_prev"@ || name == "select_next"@ || name == "page_up"@ || name
            == "page_down"@,
    ensures
        ({
            let (after, outcome) = app.acted(name);
            let up = name == "select_prev"@ || name == "page_up"@;
            &&& outcome is None
            &&& after.todo == app.todo
            &&& after.selected != app.selected ==> {
                &&& 0 <= after.selected < app.todo.lines.len()
                &&& after.status.len() == 0
                &&& app.todo.lines[after.selected].command is Some
                &&& if up {
                    &&& after.selected < app.selected
                    &&& commands(app.todo.lines, after.selected, app.selected) == distance(name)
                } else {
                    &&& app.selected < after.selected
                    &&& commands(app.todo.lines, app.selected + 1, after.selected + 1) == distance(
                        name,
                    )
                }
            }
            &&& after.selected == app.selected ==> {
                &&& after.status == "no editable todo line"@
                &&& up ==> commands(app.todo.lines, 0, app.selected) < distance(name)
                &&& !up ==> commands(
                    app.todo.lines,
                    app.selected + 1,
                    app.todo.lines.len() as int,
                ) < distance(name)
                &&& after.status == "no editable todo line"@
            }
        }),
{
    lemma_names();
    let n = distance(name);
    lemma_up_counts(app.todo.lines, app.selected, n);
    lemma_up_misses(app.todo.lines, app.selected, n);
    lemma_down_counts(app.todo.lines, app.selected + 1, n);
    lemma_down_misses(app.todo.lines, app.selected + 1, n);
}

/// Moving changes the selected command over with the nearest one above or below, and
/// goes with it. All other lines stay where they are.
pub proof fn law_move_changes_over(app: AppView, name: Seq<char>, i: int)
    requires
        on_command(app),
        name == "move_up"@ || name == "move_down"@,
        0 <= i < app.todo.lines.len(),
    ensures
        ({
            let (after, outcome) = app.acted(name);
            let here = app.selected;
            let there = after.selected;
            let old_lines = app.todo.lines;
            let new_lines = after.todo.lines;
            &&& outcome is None
            &&& new_lines.len() == old_lines.len()
            &&& 0 <= there < old_lines.len()
            &&& i != here && i != there ==> new_lines[i] == old_lines[i]
            &&& new_lines[there] == old_lines[here]
            &&& new_lines[here] == old_lines[there]
            &&& there != here ==> {
                &&& old_lines[there].command is Some
                &&& after.status == "moved"@
                &&& if name == "move_up"@ {
                    there < here && commands(old_lines, there + 1, here) == 0
                } else {
                    here < there && commands(old_lines, here + 1, there) == 0
                }
            }
            &&& there == here ==> {
                &&& after.status == "cannot move further"@
                &&& if name == "move_up"@ {
                    commands(old_lines, 0, here) == 0
                } else {
                    commands(old_lines, here + 1, old_lines.len() as int) == 0
                }
            }
        }),
{
    lemma_names();
    let lines = app.todo.lines;
    lemma_up_counts(lines, app.selected, 1);
    lemma_up_misses(lines, app.selected, 1);
    lemma_down_counts(lines, app.selected + 1, 1);
    lemma_down_misses(lines, app.selected + 1, 1);
    if let Some(k) = command_up(lines, app.selected, 1) {
        lemma_commands_front(lines, k, app.selected);
        lemma_commands_count(lines, k + 1, app.selected);
    }
    lemma_commands_count(lines, 0, app.selected);
    lemma_commands_count(lines, app.selected + 1, lines.len() as int);
}

/// The list is left with what it is saved by, or thrown away. Before it is thrown
/// away the user is asked, and may go on.
pub proof fn law_leaving_is_asked(app: AppView)
    ensures
        !app.quit_prompt ==> {
            &&& app.acted("save"@) == (app, Some(Outcome::Save))
            &&& app.acted("quit"@).1 is None
            &&& app.acted("quit"@).0.quit_prompt
            &&& app.acted("quit"@).0.todo == app.todo
            &&& app.acted("quit"@).0.status == "save, abort, or cancel?"@
            &&& app.acted("prompt_abort"@).1 is None
        },
        app.quit_prompt ==> {
            &&& app.acted("prompt_save"@) == (app, Some(Outcome::Save))
            &&& app.acted("prompt_abort"@) == (app, Some(Outcome::Abort))
            &&& app.acted("prompt_cancel"@).1 is None
            &&& !app.acted("prompt_cancel"@).0.quit_prompt
            &&& app.acted("prompt_cancel"@).0.todo == app.todo
            &&& app.acted("prompt_cancel"@).0.selected == app.selected
            &&& app.acted("prompt_cancel"@).0.status == "quit cancelled"@
            &&& app.acted("drop"@) == (app, None::<Outcome>)
        },
{
    lemma_names();
}

/// The keys that the sequence editor has for its actions where the user asks for no others.
pub proof fn law_keys_of_the_list()
    ensures
        binds(rebase_bindings(), "save"@, seq!["ctrl-x ctrl-s"@]),
        binds(rebase_bindings(), "quit"@, seq!["ctrl-x ctrl-c"@]),
        binds(rebase_bindings(), "select_prev"@, seq!["ctrl-p"@, "up"@]),
        binds(rebase_bindings(), "select_next"@, seq!["ctrl-n"@, "down"@]),
        binds(rebase_bindings(), "move_up"@, seq!["alt-p"@]),
        binds(rebase_bindings(), "move_down"@, seq!["alt-n"@]),
        binds(rebase_bindings(), "page_up"@, seq!["pageup"@, "alt-v"@]),
        binds(rebase_bindings(), "page_down"@, seq!["pagedown"@, "ctrl-v"@]),
        binds(rebase_bindings(), "pick"@, seq!["p"@]),
        binds(rebase_bindings(), "reword"@, seq!["r"@]),
        binds(rebase_bindings(), "edit"@, seq!["e"@]),
        binds(rebase_bindings(), "squash"@, seq!["s"@]),
        binds(rebase_bindings(), "fixup"@, seq!["f"@]),
        binds(rebase_bindings(), "drop"@, seq!["d"@]),
        binds(rebase_bindings(), "exec"@, seq!["x"@]),
        binds(rebase_bindings(), "prompt_save"@, seq!["s"@]),
        binds(rebase_bindings(), "prompt_abort"@, seq!["a"@]),
        binds(rebase_bindings(), "prompt_cancel"@, seq!["c"@, "esc"@]),
        rebase_bindings().len() == 18,
{
    let rows = rebase_bindings();
    assert(rows[0] == ("save"@, seq!["ctrl-x ctrl-s"@]));
    assert(rows[1] == ("quit"@, seq!["ctrl-x ctrl-c"@]));
    assert(rows[2] == ("select_prev"@, seq!["ctrl-p"@, "up"@]));
    assert(rows[3] == ("select_next"@, seq!["ctrl-n"@, "down"@]));
    assert(rows[4] == ("move_up"@, seq!["alt-p"@]));
    assert(rows[5] == ("move_down"@, seq!["alt-n"@]));
    assert(rows[6] == ("page_up"@, seq!["pageup"@, "alt-v"@]));
    assert(rows[7] == ("page_down"@, seq!["pagedown"@, "ctrl-v"@]));
    assert(rows[8] == ("pick"@, seq!["p"@]));
    assert(rows[9] == ("reword"@, seq!["r"@]));
    assert(rows[10] == ("edit"@, seq!["e"@]));
    assert(rows[11] == ("squash"@, seq!["s"@]));
    assert(rows[12] == ("fixup"@, seq!["f"@]));
    assert(rows[13] == ("drop"@, seq!["d"@]));
    assert(rows[14] == ("exec"@, seq!["x"@]));
    assert(rows[15] == ("prompt_save"@, seq!["s"@]));
    assert(rows[16] == ("prompt_abort"@, seq!["a"@]));
    assert(rows[17] == ("prompt_cancel"@, seq!["c"@, "esc"@]));
}

// ---------------------------------------------------------------------------
// Reading the list
// ---------------------------------------------------------------------------

/// How the words for commands differ.
proof fn lemma_words()
    ensures
        "p"@.len() == 1 && "p"@[0] == 'p',
        "pick"@.len() == 4 && "pick"@[0] == 'p',
        "r"@.len() == 1 && "r"@[0] == 'r',
        "reword"@.len() == 6 && "reword"@[0] == 'r',
        "e"@.len() == 1 && "e"@[0] == 'e',
        "edit"@.len() == 4 && "edit"@[0] == 'e' && "edit"@[1] == 'd',
        "s"@.len() == 1 && "s"@[0] == 's',
        "squash"@.len() == 6 && "squash"@[0] == 's',
        "f"@.len() == 1 && "f"@[0] == 'f',
        "fixup"@.len() == 5 && "fixup"@[0] == 'f',
        "d"@.len() == 1 && "d"@[0] == 'd',
        "drop"@.len() == 4 && "drop"@[0] == 'd',
        "x"@.len() == 1 && "x"@[0] == 'x',
        "exec"@.len() == 4 && "exec"@[0] == 'e' && "exec"@[1] == 'x',
        "b"@.len() == 1 && "b"@[0] == 'b',
        "break"@.len() == 5 && "break"@[0] == 'b',
        "l"@.len() == 1 && "l"@[0] == 'l',
        "label"@.len() == 5 && "label"@[0] == 'l',
        "t"@.len() == 1 && "t"@[0] == 't',
        "reset"@.len() == 5 && "reset"@[0] == 'r',
        "m"@.len() == 1 && "m"@[0] == 'm',
        "merge"@.len() == 5 && "merge"@[0] == 'm',
{
    reveal_strlit("p");
    reveal_strlit("pick");
    reveal_strlit("r");
    reveal_strlit("reword");
    reveal_strlit("e");
    reveal_strlit("edit");
    reveal_strlit("s");
    reveal_strlit("squash");
    reveal_strlit("f");
    reveal_strlit("fixup");
    reveal_strlit("d");
    reveal_strlit("drop");
    reveal_strlit("x");
    reveal_strlit("exec");
    reveal_strlit("b");
    reveal_strlit("break");
    reveal_strlit("l");
    reveal_strlit("label");
    reveal_strlit("t");
    reveal_strlit("reset");
    reveal_strlit("m");
    reveal_strlit("merge");
}

/// Each command has its word and its letter, and is written by its word.
pub proof fn law_commands_have_words()
    ensures
        action_named("p"@) == Some(Action::Pick),
        action_named("pick"@) == Some(Action::Pick),
        Action::Pick.text() == "pick"@,
        action_named("r"@) == Some(Action::Reword),
        action_named("reword"@) == Some(Action::Reword),
        Action::Reword.text() == "reword"@,
        action_named("e"@) == Some(Action::Edit),
        action_named("edit"@) == Some(Action::Edit),
        Action::Edit.text() == "edit"@,
        action_named("s"@) == Some(Action::Squash),
        action_named("squash"@) == Some(Action::Squash),
        Action::Squash.text() == "squash"@,
        action_named("f"@) == Some(Action::Fixup),
        action_named("fixup"@) == Some(Action::Fixup),
        Action::Fixup.text() == "fixup"@,
        action_named("d"@) == Some(Action::Drop),
        action_named("drop"@) == Some(Action::Drop),
        Action::Drop.text() == "drop"@,
        action_named("x"@) == Some(Action::Exec),
        action_named("exec"@) == Some(Action::Exec),
        Action::Exec.text() == "exec"@,
        action_named("b"@) == Some(Action::Break),
        action_named("break"@) == Some(Action::Break),
        Action::Break.text() == "break"@,
        action_named("l"@) == Some(Action::Label),
        action_named("label"@) == Some(Action::Label),
        Action::Label.text() == "label"@,
        action_named("t"@) == Some(Action::Reset),
        action_named("reset"@) == Some(Action::Reset),
        Action::Reset.text() == "reset"@,
        action_named("m"@) == Some(Action::Merge),
        action_named("merge"@) == Some(Action::Merge),
        Action::Merge.text() == "merge"@,
{
    lemma_words();
}

proof fn lemma_word_ends(s: Seq<char>, word: Seq<char>, i: int)
    requires
        0 <= i <= word.len() < s.len(),
        s.take(word.len() as int) == word,
        forall|k: int| 0 <= k < word.len() ==> !is_space(#[trigger] word[k]),
        is_space(s[word.len() as int]),
    ensures
        word_end(s, i) == word.len(),
    decreases word.len() - i,
{
    if i < word.len() {
        assert(s[i] == s.take(word.len() as int)[i]);
        lemma_word_ends(s, word, i + 1);
    }
}

/// A line that begins with the word or the letter of a command holds that command, and
/// behind the space what belongs to it. As long as the command is not changed, the line is
/// written as it was read.
pub proof fn law_lines_are_read(word: Seq<char>, rest: Seq<char>)
    requires
        action_named(word) is Some,
        word.len() > 0 && word[0] != '#',
        forall|k: int| 0 <= k < word.len() ==> !is_space(#[trigger] word[k]),
        rest.len() > 0 ==> !is_space(rest[0]),
    ensures
        ({
            let line = word + " "@ + rest;
            let read = read_line(line);
            &&& read.written() == line
            &&& read.command matches Some(command)
            &&& Some(command.action) == action_named(word)
            &&& command.rest == rest
        }),
{
    reveal_strlit(" ");
    let line = word + " "@ + rest;
    assert(line[0] == word[0]);
    assert(!is_space(word[0]));
    assert(trim_start(line) == line);
    assert(line.take(word.len() as int) =~= word);
    assert(line[word.len() as int] == ' ');
    lemma_word_ends(line, word, 0);
    let tail = line.skip(word.len() as int);
    assert(tail.drop_first() =~= rest);
    assert(tail[0] == ' ');
    assert(trim_start(tail) == trim_start(rest));
    assert(trim_start(rest) == rest);
}

/// Comments and blank lines hold no command, and are written as they were read.
pub proof fn law_other_lines_are_kept(line: Seq<char>)
    requires
        is_blank(line) || (line.len() > 0 && line[0] == '#'),
    ensures
        read_line(line).command is None,
        read_line(line).written() == line,
{
    lemma_trim_start(line);
    if is_blank(line) {
        let rest = trim_start(line);
        if rest.len() > 0 {
            assert(is_space(line[line.len() - rest.len()]));
        }
    } else {
        assert(trim_start(line) == line);
    }
}

/// The selected line is seen among `height` lines, and what is scrolled stays where it
/// was seen already.
pub proof fn law_selection_is_seen(app: AppView, height: int)
    requires
        0 <= app.selected,
        0 <= app.scroll_y,
        0 < height,
        app.scroll_y + height <= usize::MAX,
    ensures
        ({
            let after = app.revealed(height);
            &&& after.scroll_y <= app.selected < after.scroll_y + height
            &&& app.scroll_y <= app.selected < app.scroll_y + height ==> after == app
            &&& app.selected < app.scroll_y ==> after.scroll_y == app.selected
            &&& app.selected >= app.scroll_y + height ==> after.scroll_y + height - 1
                == app.selected
            &&& after == (AppView { scroll_y: after.scroll_y, ..app })
        }),
{
}

proof fn lemma_first_command(lines: Seq<LineView>, i: int)
    requires
        0 <= i,
    ensures
        match command_down(lines, i, 1) {
            Some(k) => i <= k < lines.len() && lines[k].command is Some && forall|j: int|
                i <= j < k ==> (#[trigger] lines[j]).command is None,
            None => forall|j: int| i <= j < lines.len() ==> (#[trigger] lines[j]).command is None,
        },
    decreases lines.len() - i,
{
    if i < lines.len() {
        lemma_first_command(lines, i + 1);
    }
}

/// The first command is selected when the list is opened; no line above it holds one.
pub proof fn law_first_command_is_selected(path: Seq<char>, source: Seq<char>, i: int)
    requires
        0 <= i < read_todo(source).lines.len(),
        read_todo(source).lines[i].command is Some,
    ensures
        ({
            let app = opened(path, source);
            let lines = app.todo.lines;
            &&& app.path == path && !app.quit_prompt && app.scroll_y == 0
            &&& 0 <= app.selected <= i
            &&& lines[app.selected].command is Some
            &&& forall|j: int| 0 <= j < app.selected ==> (#[trigger] lines[j]).command is None
        }),
{
    lemma_first_command(read_todo(source).lines, 0);
}

/// A key that goes on waiting changes nothing but what is awaited and the status; one that
/// leads nowhere behind others is told and gives them up; and one that leads nowhere by
/// itself does nothing.
pub proof fn law_keys_are_awaited(app: AppView, bindings: Seq<Bound>, key: KeyEvent)
    ensures
        ({
            let (after, left) = app.pressed(bindings, key);
            let pending = app.pending.push(normal_key(key));
            let names = if app.quit_prompt {
                prompt_names()
            } else {
                rebase_names()
            };
            match lookup(bindings, names, pending) {
                MatchView::Prefix => {
                    &&& left is None
                    &&& after == (AppView { pending, status: after.status, ..app })
                    &&& has_suffix(after.status, " ..."@)
                },
                MatchView::NoMatch => {
                    &&& left is None
                    &&& app.pending.len() > 0 ==> after == (AppView {
                        pending: Seq::empty(),
                        status: "unknown key sequence"@,
                        ..app
                    })
                    &&& app.pending.len() == 0 ==> after == app
                },
                MatchView::Action(action) => (after, left) == (AppView {
                    pending: Seq::empty(),
                    ..app
                }).acted(action),
            }
        }),
{
    let pending = app.pending.push(normal_key(key));
    let head = join(pending.map_values(|key: KeyPress| key.text()), " "@);
    let all = head + " ..."@;
    assert(all.skip(all.len() - " ..."@.len()) =~= " ..."@);
}

/// A line is shown behind its number, counted from one: its command in full, in its colour,
/// and what follows it; or the line as it was read. The selected one stands out.
pub proof fn law_lines_are_shown(idx: int, line: LineView, selected: bool)
    requires
        0 <= idx,
    ensures
        ({
            let row = shown_line(idx, line, selected);
            let bg = if selected {
                Some(Color::DarkGray)
            } else {
                None
            };
            &&& row[0].text == pad_left(decimal((idx + 1) as nat), 3) + " "@
            &&& row[0].style.bg == bg && row[1].style.bg == bg
            &&& line.command is None ==> row.len() == 2 && row[1].text == line.raw
            &&& line.command matches Some(command) ==> {
                &&& row.len() == 3
                &&& row[1].text == pad_right(command.action.text(), 7)
                &&& row[2].text == " "@ + command.rest
                &&& row[2].style.bg == bg
                &&& command.action is Pick ==> row[1].style.fg == Some(Color::Green)
                &&& command.action is Reword ==> row[1].style.fg == Some(Color::Yellow)
                &&& command.action is Edit ==> row[1].style.fg == Some(Color::Cyan)
                &&& command.action is Squash ==> row[1].style.fg == Some(Color::Magenta)
                &&& command.action is Fixup ==> row[1].style.fg == Some(Color::Magenta)
                &&& command.action is Drop ==> row[1].style.fg == Some(Color::Red)
                &&& command.action is Exec ==> row[1].style.fg == Some(Color::Blue)
            }
        }),
{
}

/// The lines are shown from the first that is seen on, one in each row, and what is left of
/// the rows is filled up.
pub proof fn law_rows_show_lines(app: AppView, height: int, i: int)
    requires
        0 <= app.scroll_y,
        0 <= i < height,
    ensures
        ({
            let rows = app.rows(height);
            &&& app.scroll_y + i < app.todo.lines.len() ==> rows[i] == shown_line(
                app.scroll_y + i,
                app.todo.lines[app.scroll_y + i],
                app.scroll_y + i == app.selected,
            )
            &&& app.scroll_y + i >= app.todo.lines.len() ==> rows[i] == filler()
        }),
{
}

/// The actions that keys lead to: those of the list, and while the user is asked how to leave it
/// the three answers.
pub proof fn law_actions_that_keys_lead_to()
    ensures
        rebase_names().contains("save"@),
        rebase_names().contains("quit"@),
        rebase_names().contains("select_prev"@),
        rebase_names().contains("select_next"@),
        rebase_names().contains("move_up"@),
        rebase_names().contains("move_down"@),
        rebase_names().contains("page_up"@),
        rebase_names().contains("page_down"@),
        rebase_names().contains("pick"@),
        rebase_names().contains("reword"@),
        rebase_names().contains("edit"@),
        rebase_names().contains("squash"@),
        rebase_names().contains("fixup"@),
        rebase_names().contains("drop"@),
        rebase_names().contains("exec"@),
        rebase_names().len() == 15,
        prompt_names().contains("prompt_save"@),
        prompt_names().contains("prompt_abort"@),
        prompt_names().contains("prompt_cancel"@),
        prompt_names().len() == 3,
{
    assert(rebase_names()[0] == "save"@);
    assert(rebase_names()[1] == "quit"@);
    assert(rebase_names()[2] == "select_prev"@);
    assert(rebase_names()[3] == "select_next"@);
    assert(rebase_names()[4] == "move_up"@);
    assert(rebase_names()[5] == "move_down"@);
    assert(rebase_names()[6] == "page_up"@);
    assert(rebase_names()[7] == "page_down"@);
    assert(rebase_names()[8] == "pick"@);
    assert(rebase_names()[9] == "reword"@);
    assert(rebase_names()[10] == "edit"@);
    assert(rebase_names()[11] == "squash"@);
    assert(rebase_names()[12] == "fixup"@);
    assert(rebase_names()[13] == "drop"@);
    assert(rebase_names()[14] == "exec"@);
    assert(prompt_names()[0] == "prompt_save"@);
    assert(prompt_names()[1] == "prompt_abort"@);
    assert(prompt_names()[2] == "prompt_cancel"@);
}

/// The user is asked how to leave the list by the letters for the three answers.
pub proof fn law_prompt_tells_the_letters()
    ensures
        ({
            let row = prompt_line();
            &&& row.len() == 6
            &&& row[0].text == "s"@ && row[1].text == " save  "@
            &&& row[2].text == "a"@ && row[3].text == " abort  "@
            &&& row[4].text == "c"@ && row[5].text == " cancel"@
        }),
{
}

} // verus!
