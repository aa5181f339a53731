//! The Git rebase sequence editor.

use vstd::prelude::*;

use crate::args::{parse_height, ArgError};
#[allow(unused_imports)]
use crate::args::{height_value, ArgFault};
use crate::config::{pending_status, KeyEvent, KeyPress, Keymap, KeymapMatch};
#[allow(unused_imports)]
use crate::config::{default_rows, lookup, normal_key, pending_text, Bound, MatchView, Rows};
#[allow(unused_imports)]
use crate::inline_text::model::{less, more};
#[allow(unused_imports)]
use crate::inline_text::path_view;
#[allow(unused_imports)]
use crate::layout::law_inner_lies_within;
use crate::layout::{head_middle_and_foot, inside_frame, Area, Place};
use crate::style::{fill_up, Color, Line, Span, Style};
#[allow(unused_imports)]
use crate::style::{
    filled_up, in_color, line_views, plain_style, raw, span_views, styled, SpanView,
};
#[allow(unused_imports)]
use crate::text::{
    decimal, has_prefix, has_suffix, is_space, join, lines, pad_left, pad_right, split, str_views,
    trim_start, views, without_cr,
};
use crate::text::{
    char_is_space, chars_of, concat2, concat3, decimal_of, ends_with, join_all, lines_of,
    pad_left_to, pad_right_to, same, string_of, strip_prefix, trim_start_of,
};

pub mod laws;
pub mod options;

verus! {

/// The height of the viewport where none is asked for.
pub const DEFAULT_HEIGHT: u16 = 18;

/// The least height of the viewport.
pub const MIN_HEIGHT: u16 = 6;

// ---------------------------------------------------------------------------
// Commands of the todo list
// ---------------------------------------------------------------------------

/// A command of the todo list.
#[derive(Clone, Copy, Debug, PartialEq, Eq, Structural)]
pub enum Action {
    Pick,
    Reword,
    Edit,
    Squash,
    Fixup,
    Drop,
    Exec,
    Break,
    Label,
    Reset,
    Merge,
}

/// The command that a word stands for, in full or by its letter.
pub open spec fn action_named(word: Seq<char>) -> Option<Action> {
    if word == "p"@ || word == "pick"@ {
        Some(Action::Pick)
    } else if word == "r"@ || word == "reword"@ {
        Some(Action::Reword)
    } else if word == "e"@ || word == "edit"@ {
        Some(Action::Edit)
    } else if word == "s"@ || word == "squash"@ {
        Some(Action::Squash)
    } else if word == "f"@ || word == "fixup"@ {
        Some(Action::Fixup)
    } else if word == "d"@ || word == "drop"@ {
        Some(Action::Drop)
    } else if word == "x"@ || word == "exec"@ {
        Some(Action::Exec)
    } else if word == "b"@ || word == "break"@ {
        Some(Action::Break)
    } else if word == "l"@ || word == "label"@ {
        Some(Action::Label)
    } else if word == "t"@ || word == "reset"@ {
        Some(Action::Reset)
    } else if word == "m"@ || word == "merge"@ {
        Some(Action::Merge)
    } else {
        None
    }
}

impl Action {
    /// The command in full.
    pub open spec fn text(self) -> Seq<char> {
        match self {
            Action::Pick => "pick"@,
            Action::Reword => "reword"@,
            Action::Edit => "edit"@,
            Action::Squash => "squash"@,
            Action::Fixup => "fixup"@,
            Action::Drop => "drop"@,
            Action::Exec => "exec"@,
            Action::Break => "break"@,
            Action::Label => "label"@,
            Action::Reset => "reset"@,
            Action::Merge => "merge"@,
        }
    }

    /// The command that a word stands for.
    pub fn parse(value: &str) -> (r: Option<Action>)
        ensures
            r == action_named(value@),
    {
        if same(value, "p") || same(value, "pick") {
            Some(Action::Pick)
        } else if same(value, "r") || same(value, "reword") {
            Some(Action::Reword)
        } else if same(value, "e") || same(value, "edit") {
            Some(Action::Edit)
        } else if same(value, "s") || same(value, "squash") {
            Some(Action::Squash)
        } else if same(value, "f") || same(value, "fixup") {
            Some(Action::Fixup)
        } else if same(value, "d") || same(value, "drop") {
            Some(Action::Drop)
        } else if same(value, "x") || same(value, "exec") {
            Some(Action::Exec)
        } else if same(value, "b") || same(value, "break") {
            Some(Action::Break)
        } else if same(value, "l") || same(value, "label") {
            Some(Action::Label)
        } else if same(value, "t") || same(value, "reset") {
            Some(Action::Reset)
        } else if same(value, "m") || same(value, "merge") {
            Some(Action::Merge)
        } else {
            None
        }
    }

    /// The command in full.
    pub fn name(self) -> (r: &'static str)
        ensures
            r@ == self.text(),
    {
        match self {
            Action::Pick => "pick",
            Action::Reword => "reword",
            Action::Edit => "edit",
            Action::Squash => "squash",
            Action::Fixup => "fixup",
            Action::Drop => "drop",
            Action::Exec => "exec",
            Action::Break => "break",
            Action::Label => "label",
            Action::Reset => "reset",
            Action::Merge => "merge",
        }
    }
}

// ---------------------------------------------------------------------------
// Lines of the todo list
// ---------------------------------------------------------------------------

/// A line with a command.
#[derive(Debug, PartialEq, Eq)]
pub struct EditableLine {
    pub action: Action,
    pub rest: String,
    pub action_changed: bool,
}

/// Whether a line holds a command.
#[derive(Debug, PartialEq, Eq)]
pub enum TodoLineKind {
    Editable(EditableLine),
    Raw,
}

/// A line of the todo list: as it was read, and what it says.
#[derive(Debug, PartialEq, Eq)]
pub struct TodoLine {
    pub raw: String,
    pub kind: TodoLineKind,
}

/// A line with a command.
pub struct Command {
    pub action: Action,
    pub rest: Seq<char>,
    pub changed: bool,
}

/// A line of the todo list.
pub struct LineView {
    pub raw: Seq<char>,
    pub command: Option<Command>,
}

impl View for TodoLine {
    type V = LineView;

    open spec fn view(&self) -> LineView {
        LineView {
            raw: self.raw@,
            command: match self.kind {
                TodoLineKind::Editable(line) => Some(
                    Command {
                        action: line.action,
                        rest: line.rest@,
                        changed: line.action_changed,
                    },
                ),
                TodoLineKind::Raw => None,
            },
        }
    }
}

/// The position of the first white space at or behind `i`; the end of the text
/// if there is none.
pub open spec fn word_end(s: Seq<char>, i: int) -> int
    decreases s.len() - i,
{
    if i >= s.len() || is_space(s[i]) {
        i
    } else {
        word_end(s, i + 1)
    }
}

/// The first word of a text.
pub open spec fn first_word(s: Seq<char>) -> Seq<char> {
    s.take(word_end(s, 0))
}

/// What follows the first word, without the white space before it.
pub open spec fn after_word(s: Seq<char>) -> Seq<char> {
    trim_start(s.skip(word_end(s, 0)))
}

/// The command of a line. Blank lines and comments hold none.
pub open spec fn command_of(line: Seq<char>) -> Option<Command> {
    let trimmed = trim_start(line);
    if trimmed.len() == 0 || trimmed[0] == '#' {
        None
    } else {
        match action_named(first_word(trimmed)) {
            Some(action) => Some(Command { action, rest: after_word(trimmed), changed: false }),
            None => None,
        }
    }
}

/// A line as it is read.
pub open spec fn read_line(line: Seq<char>) -> LineView {
    LineView { raw: line, command: command_of(line) }
}

impl LineView {
    /// The line as it is written: a changed command in full, and every other
    /// line as it was read.
    pub open spec fn written(self) -> Seq<char> {
        match self.command {
            Some(command) if command.changed => if command.rest.len() == 0 {
                command.action.text()
            } else {
                command.action.text() + " "@ + command.rest
            },
            _ => self.raw,
        }
    }

    /// The line with another command, or why it cannot have it.
    pub open spec fn with_action(self, action: Action) -> Result<LineView, Seq<char>> {
        match self.command {
            None => Err("not an editable todo line"@),
            Some(command) => if action is Exec && !(command.action is Exec) {
                Err("exec only applies to existing exec lines"@)
            } else {
                Ok(
                    LineView {
                        command: Some(Command { action, rest: command.rest, changed: true }),
                        ..self
                    },
                )
            },
        }
    }
}

/// The end of the first word.
fn word_end_of(s: &Vec<char>) -> (r: usize)
    ensures
        r == word_end(s@, 0),
        r <= s@.len(),
{
    let mut i: usize = 0;
    while i < s.len() && !char_is_space(s[i])
        invariant
            i <= s@.len(),
            word_end(s@, 0) == word_end(s@, i as int),
        decreases s@.len() - i,
    {
        i = i + 1;
    }
    i
}

/// Reads the command of a line.
pub fn parse_editable(line: &str) -> (r: Option<EditableLine>)
    ensures
        match command_of(line@) {
            Some(command) => r matches Some(found) && found.action == command.action
                && found.rest@ == command.rest && found.action_changed == command.changed,
            None => r is None,
        },
{
    let trimmed = trim_start_of(line);
    let chars = chars_of(trimmed.as_str());
    if chars.len() == 0 || chars[0] == '#' {
        return None;
    }
    let end = word_end_of(&chars);
    let word = string_of(&chars, 0, end);
    assert(word@ =~= first_word(chars@));
    let tail = string_of(&chars, end, chars.len());
    assert(tail@ =~= chars@.skip(end as int));
    let rest = trim_start_of(tail.as_str());
    match Action::parse(word.as_str()) {
        Some(action) => Some(EditableLine { action, rest, action_changed: false }),
        None => None,
    }
}

impl TodoLine {
    /// Reads a line.
    pub fn parse(line: &str) -> (r: TodoLine)
        ensures
            r@ == read_line(line@),
    {
        let kind = match parse_editable(line) {
            Some(editable) => TodoLineKind::Editable(editable),
            None => TodoLineKind::Raw,
        };
        TodoLine { raw: line.to_string(), kind }
    }

    /// Whether the line holds a command.
    pub fn is_editable(&self) -> (r: bool)
        ensures
            r == (self@.command is Some),
    {
        match self.kind {
            TodoLineKind::Editable(_) => true,
            TodoLineKind::Raw => false,
        }
    }

    /// The line as it is written.
    pub fn serialize(&self) -> (r: String)
        ensures
            r@ == self@.written(),
    {
        match &self.kind {
            TodoLineKind::Editable(line) => {
                if line.action_changed {
                    if line.rest.as_str().is_empty() {
                        line.action.name().to_string()
                    } else {
                        concat3(line.action.name(), " ", line.rest.as_str())
                    }
                } else {
                    self.raw.clone()
                }
            },
            TodoLineKind::Raw => self.raw.clone(),
        }
    }

    /// Gives the line another command. Only a line that runs a program can run one.
    pub fn set_action(&mut self, action: Action) -> (r: Result<(), String>)
        ensures
            match old(self)@.with_action(action) {
                Ok(line) => r is Ok && final(self)@ == line,
                Err(text) => r matches Err(why) && why@ == text && final(self)@ == old(self)@,
            },
    {
        match &mut self.kind {
            TodoLineKind::Raw => Err("not an editable todo line".to_string()),
            TodoLineKind::Editable(line) => {
                if action == Action::Exec && line.action != Action::Exec {
                    return Err("exec only applies to existing exec lines".to_string());
                }
                line.action = action;
                line.action_changed = true;
                Ok(())
            },
        }
    }
}

// ---------------------------------------------------------------------------
// The todo list
// ---------------------------------------------------------------------------

/// The todo list.
#[derive(Debug)]
pub struct Todo {
    pub lines: Vec<TodoLine>,
    pub trailing_newline: bool,
}

/// The todo list.
#[verifier::ext_equal]
pub struct TodoView {
    pub lines: Seq<LineView>,
    pub trailing_newline: bool,
}

/// Lines of the todo list.
pub open spec fn todo_lines(lines: Seq<TodoLine>) -> Seq<LineView> {
    lines.map_values(|line: TodoLine| line@)
}

impl View for Todo {
    type V = TodoView;

    open spec fn view(&self) -> TodoView {
        TodoView { lines: todo_lines(self.lines@), trailing_newline: self.trailing_newline }
    }
}

/// The list as it is read.
pub open spec fn read_todo(source: Seq<char>) -> TodoView {
    TodoView {
        lines: lines(source).map_values(|line: Seq<char>| read_line(line)),
        trailing_newline: has_suffix(source, "\n"@),
    }
}

/// The command `n` commands up from line `i`.
pub open spec fn command_up(lines: Seq<LineView>, i: int, n: int) -> Option<int>
    decreases i,
{
    if i <= 0 {
        None
    } else if lines[i - 1].command is Some {
        if n <= 1 {
            Some(i - 1)
        } else {
            command_up(lines, i - 1, n - 1)
        }
    } else {
        command_up(lines, i - 1, n)
    }
}

/// The command `n` commands down from the line before `i`.
pub open spec fn command_down(lines: Seq<LineView>, i: int, n: int) -> Option<int>
    decreases lines.len() - i,
{
    if i >= lines.len() {
        None
    } else if lines[i].command is Some {
        if n <= 1 {
            Some(i)
        } else {
            command_down(lines, i + 1, n - 1)
        }
    } else {
        command_down(lines, i + 1, n)
    }
}

/// Two lines changed over.
pub open spec fn swapped<A>(lines: Seq<A>, i: int, j: int) -> Seq<A> {
    lines.update(i, lines[j]).update(j, lines[i])
}

impl TodoView {
    /// The list as it is written.
    pub open spec fn written(self) -> Seq<char> {
        let text = join(self.lines.map_values(|line: LineView| line.written()), "\n"@);
        if self.trailing_newline {
            text + "\n"@
        } else {
            text
        }
    }

    /// The first command.
    pub open spec fn first(self) -> Option<int> {
        command_down(self.lines, 0, 1)
    }

    /// The command that lies `delta` commands from a line, up or down. For no
    /// distance it is the line itself, or the first command if the line holds none.
    pub open spec fn command_at(self, current: int, delta: int) -> Option<int> {
        if delta < 0 {
            command_up(
                self.lines,
                if current < self.lines.len() {
                    current
                } else {
                    self.lines.len() as int
                },
                -delta,
            )
        } else if delta > 0 {
            command_down(self.lines, current + 1, delta)
        } else if current < self.lines.len() && self.lines[current].command is Some {
            Some(current)
        } else {
            self.first()
        }
    }
}

/// Where a command is found.
pub proof fn lemma_command_up(lines: Seq<LineView>, i: int, n: int)
    requires
        0 <= i <= lines.len(),
    ensures
        command_up(lines, i, n) matches Some(k) ==> 0 <= k < i && lines[k].command is Some && (n
            <= 1 ==> forall|j: int| k < j < i ==> (#[trigger] lines[j]).command is None),
        command_up(lines, i, n) is None && n <= 1 ==> forall|j: int|
            0 <= j < i ==> (#[trigger] lines[j]).command is None,
    decreases i,
{
    if i > 0 {
        if lines[i - 1].command is Some {
            if n > 1 {
                lemma_command_up(lines, i - 1, n - 1);
            }
        } else {
            lemma_command_up(lines, i - 1, n);
        }
    }
}

/// Where a command is found.
pub proof fn lemma_command_down(lines: Seq<LineView>, i: int, n: int)
    requires
        0 <= i,
    ensures
        command_down(lines, i, n) matches Some(k) ==> i <= k < lines.len()
            && lines[k].command is Some && (n <= 1 ==> forall|j: int|
            i <= j < k ==> (#[trigger] lines[j]).command is None),
        command_down(lines, i, n) is None && n <= 1 ==> forall|j: int|
            i <= j < lines.len() ==> (#[trigger] lines[j]).command is None,
    decreases lines.len() - i,
{
    if i < lines.len() {
        if lines[i].command is Some {
            if n > 1 {
                lemma_command_down(lines, i + 1, n - 1);
            }
        } else {
            lemma_command_down(lines, i + 1, n);
        }
    }
}

impl Todo {
    /// Reads a todo list.
    pub fn parse(source: &str) -> (r: Todo)
        ensures
            r@ == read_todo(source@),
    {
        let texts = lines_of(source);
        let ghost all = views(texts@);
        let mut list: Vec<TodoLine> = Vec::new();
        let mut i: usize = 0;
        while i < texts.len()
            invariant
                i <= texts@.len(),
                all == views(texts@),
                todo_lines(list@) == all.take(i as int).map_values(
                    |line: Seq<char>| read_line(line),
                ),
            decreases texts@.len() - i,
        {
            let ghost was = todo_lines(list@);
            let line = TodoLine::parse(texts[i].as_str());
            let ghost added = line@;
            list.push(line);
            assert(todo_lines(list@) =~= was.push(added));
            i = i + 1;
            assert(todo_lines(list@) =~= all.take(i as int).map_values(
                |line: Seq<char>| read_line(line),
            ));
        }
        assert(all.take(i as int) =~= all);
        Todo { lines: list, trailing_newline: ends_with(source, "\n") }
    }

    /// The list as it is written.
    pub fn serialize(&self) -> (r: String)
        ensures
            r@ == self@.written(),
    {
        let ghost all = self@.lines.map_values(|line: LineView| line.written());
        let mut texts: Vec<String> = Vec::new();
        let mut i: usize = 0;
        while i < self.lines.len()
            invariant
                i <= self.lines@.len(),
                all == self@.lines.map_values(|line: LineView| line.written()),
                views(texts@) == all.take(i as int),
            decreases self.lines@.len() - i,
        {
            let ghost was = views(texts@);
            let text = self.lines[i].serialize();
            let ghost added = text@;
            assert(added == all[i as int]);
            texts.push(text);
            assert(views(texts@) =~= was.push(added));
            assert(all.take(i + 1) =~= all.take(i as int).push(added));
            i = i + 1;
        }
        assert(all.take(i as int) =~= all);
        let text = join_all(&texts, "\n");
        if self.trailing_newline {
            concat2(text.as_str(), "\n")
        } else {
            text
        }
    }

    /// The first command.
    pub fn first_editable(&self) -> (r: Option<usize>)
        ensures
            match self@.first() {
                Some(i) => r matches Some(k) && k == i && 0 <= i < self@.lines.len(),
                None => r is None,
            },
    {
        self.find_down(0, 1)
    }

    /// The command `n` commands down from the line before `from`.
    fn find_down(&self, from: usize, n: usize) -> (r: Option<usize>)
        requires
            n >= 1,
        ensures
            match command_down(self@.lines, from as int, n as int) {
                Some(i) => r matches Some(k) && k == i && from <= i < self@.lines.len(),
                None => r is None,
            },
    {
        let mut i: usize = from;
        let mut left: usize = n;
        while i < self.lines.len()
            invariant
                from <= i,
                left >= 1,
                command_down(self@.lines, from as int, n as int) == command_down(
                    self@.lines,
                    i as int,
                    left as int,
                ),
            decreases self.lines@.len() - i,
        {
            assert(self@.lines[i as int] == self.lines@[i as int]@);
            if self.lines[i].is_editable() {
                if left == 1 {
                    return Some(i);
                }
                left = left - 1;
            }
            i = i + 1;
        }
        None
    }

    /// The command `n` commands up from line `from`.
    fn find_up(&self, from: usize, n: usize) -> (r: Option<usize>)
        requires
            n >= 1,
            from <= self@.lines.len(),
        ensures
            match command_up(self@.lines, from as int, n as int) {
                Some(i) => r matches Some(k) && k == i && 0 <= i < from,
                None => r is None,
            },
    {
        let mut i: usize = from;
        let mut left: usize = n;
        while i > 0
            invariant
                i <= from <= self@.lines.len(),
                left >= 1,
                command_up(self@.lines, from as int, n as int) == command_up(
                    self@.lines,
                    i as int,
                    left as int,
                ),
            decreases i,
        {
            assert(self@.lines[i - 1] == self.lines@[i - 1]@);
            if self.lines[i - 1].is_editable() {
                if left == 1 {
                    return Some(i - 1);
                }
                left = left - 1;
            }
            i = i - 1;
        }
        None
    }

    /// The command that lies `delta` commands from a line, up or down.
    pub fn editable_delta(&self, current: usize, delta: isize) -> (r: Option<usize>)
        requires
            delta > 0 ==> current < usize::MAX,
        ensures
            match self@.command_at(current as int, delta as int) {
                Some(i) => r matches Some(k) && k == i && 0 <= i < self@.lines.len(),
                None => r is None,
            },
    {
        if delta < 0 {
            let n: usize = (-(delta + 1)) as usize + 1;
            let from: usize = if current < self.lines.len() {
                current
            } else {
                self.lines.len()
            };
            self.find_up(from, n)
        } else if delta > 0 {
            self.find_down(current + 1, delta as usize)
        } else if current < self.lines.len() && self.lines[current].is_editable() {
            Some(current)
        } else {
            self.first_editable()
        }
    }

    /// Changes a line over with the command that lies `delta` commands from it,
    /// and returns where the line then stands.
    pub fn move_editable(&mut self, current: usize, delta: isize) -> (r: Option<usize>)
        requires
            delta > 0 ==> current < usize::MAX,
            old(self)@.command_at(current as int, delta as int) is Some ==> current < old(
                self,
            )@.lines.len(),
        ensures
            match old(self)@.command_at(current as int, delta as int) {
                Some(target) => {
                    &&& r matches Some(k) && k == target
                    &&& 0 <= target < old(self)@.lines.len()
                    &&& final(self)@ == (TodoView {
                        lines: swapped(old(self)@.lines, current as int, target),
                        ..old(self)@
                    })
                },
                None => r is None && final(self)@ == old(self)@,
            },
    {
        let Some(target) = self.editable_delta(current, delta) else {
            return None;
        };
        let ghost before = self.lines@;
        let (low, high): (usize, usize) = if current < target {
            (current, target)
        } else {
            (target, current)
        };
        if low < high {
            let upper = self.lines.remove(high);
            let lower = self.lines.remove(low);
            self.lines.insert(low, upper);
            self.lines.insert(high, lower);
        }
        assert(self.lines@ =~= swapped(before, current as int, target as int));
        assert(todo_lines(self.lines@) =~= swapped(
            todo_lines(before),
            current as int,
            target as int,
        ));
        Some(target)
    }
}

// ---------------------------------------------------------------------------
// The editor of the list
// ---------------------------------------------------------------------------

/// The editor of the list.
#[derive(Debug)]
pub struct App {
    pub path: String,
    pub todo: Todo,
    pub selected: usize,
    pub scroll_y: usize,
    pub status: String,
    pub pending_keys: Vec<KeyPress>,
    pub quit_prompt: bool,
}

/// The editor of the list.
#[verifier::ext_equal]
pub struct AppView {
    pub path: Seq<char>,
    pub todo: TodoView,
    pub selected: int,
    pub scroll_y: int,
    pub status: Seq<char>,
    pub pending: Seq<KeyPress>,
    pub quit_prompt: bool,
}

impl View for App {
    type V = AppView;

    open spec fn view(&self) -> AppView {
        AppView {
            path: self.path@,
            todo: self.todo@,
            selected: self.selected as int,
            scroll_y: self.scroll_y as int,
            status: self.status@,
            pending: self.pending_keys@,
            quit_prompt: self.quit_prompt,
        }
    }
}

/// How the editor is left.
#[derive(Clone, Copy, Debug, PartialEq, Eq, Structural)]
pub enum Outcome {
    Save,
    Abort,
}

/// The editor at the start.
pub open spec fn opened(path: Seq<char>, source: Seq<char>) -> AppView {
    let todo = read_todo(source);
    AppView {
        path,
        todo,
        selected: match todo.first() {
            Some(i) => i,
            None => 0,
        },
        scroll_y: 0,
        status: "Ctrl-X Ctrl-S save  Ctrl-X Ctrl-C quit"@,
        pending: Seq::empty(),
        quit_prompt: false,
    }
}

impl AppView {
    /// With another status.
    pub open spec fn saying(self, status: Seq<char>) -> AppView {
        AppView { status, ..self }
    }

    /// A line is selected, or there is nothing to change the selection over with.
    pub open spec fn wf(self) -> bool {
        &&& 0 <= self.selected < usize::MAX
        &&& self.selected < self.todo.lines.len() || (self.todo.command_at(
            self.selected,
            -1,
        ) is None && self.todo.command_at(self.selected, 1) is None)
    }

    /// Another command selected.
    pub open spec fn selecting(self, delta: int) -> AppView {
        match self.todo.command_at(self.selected, delta) {
            Some(next) => AppView { selected: next, status: Seq::empty(), ..self },
            None => self.saying("no editable todo line"@),
        }
    }

    /// The selected line changed over with another command.
    pub open spec fn moving(self, delta: int) -> AppView {
        match self.todo.command_at(self.selected, delta) {
            Some(next) => AppView {
                todo: TodoView {
                    lines: swapped(self.todo.lines, self.selected, next),
                    ..self.todo
                },
                selected: next,
                status: "moved"@,
                ..self
            },
            None => self.saying("cannot move further"@),
        }
    }

    /// The selected line with another command.
    pub open spec fn setting(self, action: Action) -> AppView {
        if self.selected < self.todo.lines.len() {
            match self.todo.lines[self.selected].with_action(action) {
                Ok(line) => AppView {
                    todo: TodoView {
                        lines: self.todo.lines.update(self.selected, line),
                        ..self.todo
                    },
                    status: "set "@ + action.text(),
                    ..self
                },
                Err(why) => self.saying(why),
            }
        } else {
            self
        }
    }

    /// Scrolled so far that the selection is seen.
    pub open spec fn revealed(self, height: int) -> AppView {
        AppView {
            scroll_y: if self.selected < self.scroll_y {
                self.selected
            } else if self.selected >= more(self.scroll_y, height) {
                less(self.selected, less(height, 1))
            } else {
                self.scroll_y
            },
            ..self
        }
    }

    /// What an action leads to, and how the editor is left by it.
    pub open spec fn acted(self, action: Seq<char>) -> (AppView, Option<Outcome>) {
        if self.quit_prompt {
            if action == "prompt_save"@ {
                (self, Some(Outcome::Save))
            } else if action == "prompt_abort"@ {
                (self, Some(Outcome::Abort))
            } else if action == "prompt_cancel"@ {
                (AppView { quit_prompt: false, ..self }.saying("quit cancelled"@), None)
            } else {
                (self, None)
            }
        } else if action == "save"@ {
            (self, Some(Outcome::Save))
        } else if action == "quit"@ {
            (AppView { quit_prompt: true, ..self }.saying("save, abort, or cancel?"@), None)
        } else if action == "select_prev"@ {
            (self.selecting(-1), None)
        } else if action == "select_next"@ {
            (self.selecting(1), None)
        } else if action == "move_up"@ {
            (self.moving(-1), None)
        } else if action == "move_down"@ {
            (self.moving(1), None)
        } else if action == "page_up"@ {
            (self.selecting(-10), None)
        } else if action == "page_down"@ {
            (self.selecting(10), None)
        } else if action == "pick"@ {
            (self.setting(Action::Pick), None)
        } else if action == "reword"@ {
            (self.setting(Action::Reword), None)
        } else if action == "edit"@ {
            (self.setting(Action::Edit), None)
        } else if action == "squash"@ {
            (self.setting(Action::Squash), None)
        } else if action == "fixup"@ {
            (self.setting(Action::Fixup), None)
        } else if action == "drop"@ {
            (self.setting(Action::Drop), None)
        } else if action == "exec"@ {
            (self.setting(Action::Exec), None)
        } else {
            (self, None)
        }
    }

    /// What a key leads to, and how the editor is left by it.
    pub open spec fn pressed(self, bindings: Seq<Bound>, key: KeyEvent) -> (
        AppView,
        Option<Outcome>,
    ) {
        let actions = if self.quit_prompt {
            prompt_names()
        } else {
            rebase_names()
        };
        let pending = self.pending.push(normal_key(key));
        match lookup(bindings, actions, pending) {
            MatchView::Prefix => (
                AppView { pending, status: pending_text(pending), ..self },
                None,
            ),
            MatchView::Action(action) => AppView { pending: Seq::empty(), ..self }.acted(action),
            MatchView::NoMatch => if self.pending.len() > 0 {
                (
                    AppView { pending: Seq::empty(), ..self }.saying("unknown key sequence"@),
                    None,
                )
            } else {
                (self, None)
            },
        }
    }
}

impl App {
    /// An editor of the list that was read from `path`.
    pub fn new(path: String, source: &str) -> (r: App)
        ensures
            r@ == opened(path@, source@),
            r@.wf(),
    {
        let todo = Todo::parse(source);
        let _count: usize = todo.lines.len();
        let selected: usize = match todo.first_editable() {
            Some(i) => i,
            None => 0,
        };
        let app = App {
            path,
            todo,
            selected,
            scroll_y: 0,
            status: "Ctrl-X Ctrl-S save  Ctrl-X Ctrl-C quit".to_string(),
            pending_keys: Vec::new(),
            quit_prompt: false,
        };
        assert(app@ =~= opened(path@, source@));
        proof {
            if app@.todo.lines.len() == 0 {
                assert(app@.todo.command_at(0, -1) is None);
                assert(app@.todo.command_at(0, 1) is None);
            }
        }
        app
    }

    /// The list as it is written.
    pub fn serialize(&self) -> (r: String)
        ensures
            r@ == self@.todo.written(),
    {
        self.todo.serialize()
    }

    /// Selects another command.
    pub fn select_delta(&mut self, delta: isize)
        requires
            delta > 0 ==> old(self)@.selected < usize::MAX,
        ensures
            final(self)@ == old(self)@.selecting(delta as int),
    {
        let Some(next) = self.todo.editable_delta(self.selected, delta) else {
            self.status = "no editable todo line".to_string();
            return;
        };
        self.selected = next;
        self.status.clear();
    }

    /// Changes the selected line over with another command.
    pub fn move_selected(&mut self, delta: isize)
        requires
            delta > 0 ==> old(self)@.selected < usize::MAX,
            old(self)@.todo.command_at(old(self)@.selected, delta as int) is Some ==> old(
                self,
            )@.selected < old(self)@.todo.lines.len(),
        ensures
            final(self)@ == old(self)@.moving(delta as int),
    {
        let Some(next) = self.todo.move_editable(self.selected, delta) else {
            self.status = "cannot move further".to_string();
            return;
        };
        self.selected = next;
        self.status = "moved".to_string();
    }

    /// Gives the selected line another command.
    pub fn set_selected_action(&mut self, action: Action)
        ensures
            final(self)@ == old(self)@.setting(action),
    {
        if self.selected >= self.todo.lines.len() {
            return;
        }
        let ghost before = self@;
        let ghost at = self.selected as int;
        assert(before.todo.lines[at] == self.todo.lines@[at]@);
        match self.todo.lines[self.selected].set_action(action) {
            Ok(()) => {
                self.status = concat2("set ", action.name());
            },
            Err(why) => {
                self.status = why;
            },
        }
        assert(self@.todo.lines =~= before.todo.lines.update(at, self.todo.lines@[at]@));
    }

    /// Scrolls so far that the selection is seen.
    pub fn ensure_selection_visible(&mut self, height: usize)
        ensures
            final(self)@ == old(self)@.revealed(height as int),
    {
        if self.selected < self.scroll_y {
            self.scroll_y = self.selected;
        } else if self.selected >= self.scroll_y.saturating_add(height) {
            self.scroll_y = self.selected.saturating_sub(height.saturating_sub(1));
        }
    }
}

/// Does an action. Returns how the editor is left, if it is left.
pub fn handle_action(app: &mut App, action: &str) -> (r: Option<Outcome>)
    requires
        old(app)@.wf(),
    ensures
        old(app)@.acted(action@).0 == final(app)@,
        old(app)@.acted(action@).1 == r,
        final(app)@.wf(),
{
    let _count: usize = app.todo.lines.len();
    proof {
        lemma_acted_wf(app@, action@);
    }
    if app.quit_prompt {
        if same(action, "prompt_save") {
            return Some(Outcome::Save);
        } else if same(action, "prompt_abort") {
            return Some(Outcome::Abort);
        } else if same(action, "prompt_cancel") {
            app.quit_prompt = false;
            app.status = "quit cancelled".to_string();
        }
        return None;
    }
    if same(action, "save") {
        return Some(Outcome::Save);
    } else if same(action, "quit") {
        app.quit_prompt = true;
        app.status = "save, abort, or cancel?".to_string();
    } else if same(action, "select_prev") {
        app.select_delta(-1);
    } else if same(action, "select_next") {
        app.select_delta(1);
    } else if same(action, "move_up") {
        app.move_selected(-1);
    } else if same(action, "move_down") {
        app.move_selected(1);
    } else if same(action, "page_up") {
        app.select_delta(-10);
    } else if same(action, "page_down") {
        app.select_delta(10);
    } else if same(action, "pick") {
        app.set_selected_action(Action::Pick);
    } else if same(action, "reword") {
        app.set_selected_action(Action::Reword);
    } else if same(action, "edit") {
        app.set_selected_action(Action::Edit);
    } else if same(action, "squash") {
        app.set_selected_action(Action::Squash);
    } else if same(action, "fixup") {
        app.set_selected_action(Action::Fixup);
    } else if same(action, "drop") {
        app.set_selected_action(Action::Drop);
    } else if same(action, "exec") {
        app.set_selected_action(Action::Exec);
    }
    None
}

/// An action keeps the selection valid.
pub proof fn lemma_acted_wf(app: AppView, action: Seq<char>)
    requires
        app.wf(),
        app.todo.lines.len() <= usize::MAX,
    ensures
        app.acted(action).0.wf(),
        app.acted(action).0.todo.lines.len() == app.todo.lines.len(),
{
    lemma_selecting_wf(app, -1);
    lemma_selecting_wf(app, 1);
    lemma_selecting_wf(app, -10);
    lemma_selecting_wf(app, 10);
}

/// Selecting and moving lead to a line.
proof fn lemma_selecting_wf(app: AppView, delta: int)
    requires
        app.wf(),
        app.todo.lines.len() <= usize::MAX,
        delta != 0,
    ensures
        app.selecting(delta).wf(),
        delta == -1 || delta == 1 ==> app.moving(delta).wf() && app.moving(delta).todo.lines.len()
            == app.todo.lines.len(),
{
    let from = if app.selected < app.todo.lines.len() {
        app.selected
    } else {
        app.todo.lines.len() as int
    };
    lemma_command_up(app.todo.lines, from, -delta);
    lemma_command_down(app.todo.lines, app.selected + 1, delta);
}

// ---------------------------------------------------------------------------
// Keys
// ---------------------------------------------------------------------------

/// The built-in bindings.
pub open spec fn rebase_bindings() -> Rows {
    seq![
        ("save"@, seq!["ctrl-x ctrl-s"@]),
        ("quit"@, seq!["ctrl-x ctrl-c"@]),
        ("select_prev"@, seq!["ctrl-p"@, "up"@]),
        ("select_next"@, seq!["ctrl-n"@, "down"@]),
        ("move_up"@, seq!["alt-p"@]),
        ("move_down"@, seq!["alt-n"@]),
        ("page_up"@, seq!["pageup"@, "alt-v"@]),
        ("page_down"@, seq!["pagedown"@, "ctrl-v"@]),
        ("pick"@, seq!["p"@]),
        ("reword"@, seq!["r"@]),
        ("edit"@, seq!["e"@]),
        ("squash"@, seq!["s"@]),
        ("fixup"@, seq!["f"@]),
        ("drop"@, seq!["d"@]),
        ("exec"@, seq!["x"@]),
        ("prompt_save"@, seq!["s"@]),
        ("prompt_abort"@, seq!["a"@]),
        ("prompt_cancel"@, seq!["c"@, "esc"@]),
    ]
}

/// The built-in bindings.
pub fn rebase_key_bindings() -> (r: Vec<(&'static str, &'static [&'static str])>)
    ensures
        default_rows(r@) == rebase_bindings(),
{
    let table: Vec<(&'static str, &'static [&'static str])> = vec![
        ("save", &["ctrl-x ctrl-s"]),
        ("quit", &["ctrl-x ctrl-c"]),
        ("select_prev", &["ctrl-p", "up"]),
        ("select_next", &["ctrl-n", "down"]),
        ("move_up", &["alt-p"]),
        ("move_down", &["alt-n"]),
        ("page_up", &["pageup", "alt-v"]),
        ("page_down", &["pagedown", "ctrl-v"]),
        ("pick", &["p"]),
        ("reword", &["r"]),
        ("edit", &["e"]),
        ("squash", &["s"]),
        ("fixup", &["f"]),
        ("drop", &["d"]),
        ("exec", &["x"]),
        ("prompt_save", &["s"]),
        ("prompt_abort", &["a"]),
        ("prompt_cancel", &["c", "esc"]),
    ];
    assert(default_rows(table@) =~~= rebase_bindings());
    table
}

/// The actions outside the quit prompt.
pub open spec fn rebase_names() -> Seq<Seq<char>> {
    seq![
        "save"@,
        "quit"@,
        "select_prev"@,
        "select_next"@,
        "move_up"@,
        "move_down"@,
        "page_up"@,
        "page_down"@,
        "pick"@,
        "reword"@,
        "edit"@,
        "squash"@,
        "fixup"@,
        "drop"@,
        "exec"@,
    ]
}

/// The actions outside the quit prompt.
pub fn rebase_actions() -> (r: Vec<&'static str>)
    ensures
        str_views(r@) == rebase_names(),
{
    let list: Vec<&'static str> = vec![
        "save",
        "quit",
        "select_prev",
        "select_next",
        "move_up",
        "move_down",
        "page_up",
        "page_down",
        "pick",
        "reword",
        "edit",
        "squash",
        "fixup",
        "drop",
        "exec",
    ];
    assert(str_views(list@) =~~= rebase_names());
    list
}

/// The actions of the quit prompt.
pub open spec fn prompt_names() -> Seq<Seq<char>> {
    seq![
        "prompt_save"@,
        "prompt_abort"@,
        "prompt_cancel"@,
    ]
}

/// The actions of the quit prompt.
pub fn prompt_actions() -> (r: Vec<&'static str>)
    ensures
        str_views(r@) == prompt_names(),
{
    let list: Vec<&'static str> = vec![
        "prompt_save",
        "prompt_abort",
        "prompt_cancel",
    ];
    assert(str_views(list@) =~~= prompt_names());
    list
}

/// Does what a key stands for. Returns how the editor is left, if it is left.
pub fn handle_key(app: &mut App, key: &KeyEvent, keymap: &Keymap) -> (r: Option<Outcome>)
    requires
        old(app)@.wf(),
    ensures
        old(app)@.pressed(keymap@, *key).0 == final(app)@,
        old(app)@.pressed(keymap@, *key).1 == r,
        final(app)@.wf(),
{
    let actions = if app.quit_prompt {
        prompt_actions()
    } else {
        rebase_actions()
    };
    match keymap.match_key_for_actions(actions.as_slice(), &app.pending_keys, key) {
        KeymapMatch::Prefix => {
            if let Some(press) = keymap.keypress_from_event(key) {
                app.pending_keys.push(press);
                app.status = pending_status(&app.pending_keys);
            }
            None
        },
        KeymapMatch::Action(action) => {
            app.pending_keys.clear();
            handle_action(app, action.as_str())
        },
        KeymapMatch::NoMatch => {
            if app.pending_keys.len() > 0 {
                app.pending_keys.clear();
                app.status = "unknown key sequence".to_string();
            }
            None
        },
    }
}

// ---------------------------------------------------------------------------
// What is shown
// ---------------------------------------------------------------------------

/// The colour of a command.
pub open spec fn color_of(action: Action) -> Color {
    match action {
        Action::Pick => Color::Green,
        Action::Reword => Color::Yellow,
        Action::Edit => Color::Cyan,
        Action::Squash | Action::Fixup => Color::Magenta,
        Action::Drop => Color::Red,
        _ => Color::Blue,
    }
}

/// The colour of a command.
pub fn action_color(action: Action) -> (r: Color)
    ensures
        r == color_of(action),
{
    match action {
        Action::Pick => Color::Green,
        Action::Reword => Color::Yellow,
        Action::Edit => Color::Cyan,
        Action::Squash | Action::Fixup => Color::Magenta,
        Action::Drop => Color::Red,
        Action::Exec | Action::Break | Action::Label | Action::Reset | Action::Merge => Color::Blue,
    }
}

/// The style of the selected line, and of the others.
pub open spec fn selection_style(selected: bool) -> Style {
    if selected {
        Style { bg: Some(Color::DarkGray), ..plain_style() }
    } else {
        plain_style()
    }
}

/// A line of the list as it is shown.
pub open spec fn shown_line(idx: int, line: LineView, selected: bool) -> Seq<SpanView> {
    let style = selection_style(selected);
    let prefix = styled(
        pad_left(decimal((idx + 1) as nat), 3) + " "@,
        Style {
            fg: Some(
                if selected {
                    Color::Cyan
                } else {
                    Color::DarkGray
                },
            ),
            ..style
        },
    );
    match line.command {
        Some(command) => seq![
            prefix,
            styled(
                pad_right(command.action.text(), 7),
                Style { fg: Some(color_of(command.action)), ..style },
            ),
            styled(" "@ + command.rest, style),
        ],
        None => seq![
            prefix,
            styled(
                line.raw,
                Style {
                    fg: Some(
                        if selected {
                            Color::White
                        } else {
                            Color::DarkGray
                        },
                    ),
                    ..style
                },
            ),
        ],
    }
}

/// A line of the list as it is shown.
pub fn render_line(idx: usize, line: &TodoLine, selected: bool) -> (r: Line)
    requires
        idx < usize::MAX,
    ensures
        r@ == shown_line(idx as int, line@, selected),
{
    let style = if selected {
        Style::default().with_bg(Color::DarkGray)
    } else {
        Style::default()
    };
    let prefix_color = if selected {
        Color::Cyan
    } else {
        Color::DarkGray
    };
    let raw_color = if selected {
        Color::White
    } else {
        Color::DarkGray
    };
    let number = decimal_of((idx + 1) as u64);
    let padded = pad_left_to(number.as_str(), 3);
    let prefix = concat2(padded.as_str(), " ");
    let mut spans: Vec<Span> = Vec::new();
    spans.push(Span::styled(prefix, style.with_fg(prefix_color)));
    match &line.kind {
        TodoLineKind::Editable(editable) => {
            let name = pad_right_to(editable.action.name(), 7);
            spans.push(Span::styled(name, style.with_fg(action_color(editable.action))));
            spans.push(Span::styled(concat2(" ", editable.rest.as_str()), style));
        },
        TodoLineKind::Raw => {
            spans.push(Span::styled(line.raw.clone(), style.with_fg(raw_color)));
        },
    }
    assert(span_views(spans@) =~= shown_line(idx as int, line@, selected));
    Line::of(spans)
}

impl AppView {
    /// The line behind the visible ones.
    pub open spec fn visible_end(self, height: int) -> int {
        if self.scroll_y + height < self.todo.lines.len() {
            self.scroll_y + height
        } else {
            self.todo.lines.len() as int
        }
    }

    /// The visible lines, filled up to a height.
    pub open spec fn rows(self, height: int) -> Seq<Seq<SpanView>> {
        let end = self.visible_end(height);
        filled_up(
            Seq::new(
                (if end > self.scroll_y {
                    end - self.scroll_y
                } else {
                    0
                }) as nat,
                |i: int|
                    shown_line(
                        self.scroll_y + i,
                        self.todo.lines[self.scroll_y + i],
                        self.scroll_y + i == self.selected,
                    ),
            ),
            height,
        )
    }
}

/// The visible lines, filled up to a height.
pub fn render_rows(app: &App, height: usize) -> (r: Vec<Line>)
    requires
        app@.scroll_y + height <= usize::MAX,
    ensures
        line_views(r@) == app@.rows(height as int),
{
    let wanted: usize = app.scroll_y + height;
    let end: usize = if wanted < app.todo.lines.len() {
        wanted
    } else {
        app.todo.lines.len()
    };
    let first: usize = app.scroll_y;
    let mut rows: Vec<Line> = Vec::new();
    let mut idx: usize = first;
    let ghost shown = Seq::new(
        (if end > first {
            end - first
        } else {
            0
        }) as nat,
        |i: int|
            shown_line(first + i, app@.todo.lines[first + i], first + i == app@.selected),
    );
    while idx < end
        invariant
            first <= idx,
            idx <= end || idx == first,
            end <= app.todo.lines@.len(),
            first == app@.scroll_y,
            shown == Seq::new(
                (if end > first {
                    end - first
                } else {
                    0
                }) as nat,
                |i: int|
                    shown_line(first + i, app@.todo.lines[first + i], first + i == app@.selected),
            ),
            line_views(rows@) == shown.take(idx - first),
        decreases end - idx,
    {
        let ghost was = line_views(rows@);
        assert(app@.todo.lines[idx as int] == app.todo.lines@[idx as int]@);
        let row = render_line(idx, &app.todo.lines[idx], idx == app.selected);
        let ghost added = row@;
        assert(shown[idx - first] == added);
        rows.push(row);
        assert(line_views(rows@) =~= was.push(added));
        assert(shown.take(idx + 1 - first) =~= shown.take(idx - first).push(added));
        idx = idx + 1;
    }
    assert(shown.take(shown.len() as int) =~= shown);
    fill_up(&mut rows, height);
    rows
}

/// What is drawn of the editor.
pub struct Picture {
    pub title: String,
    pub rows: Vec<Line>,
    pub rows_area: Area,
    pub prompt: Option<Line>,
    pub prompt_area: Area,
    pub status: String,
    pub status_area: Area,
    pub cursor: Option<Place>,
}

/// The quit prompt.
pub open spec fn prompt_line() -> Seq<SpanView> {
    seq![
        styled("s"@, Style { bold: true, ..in_color(Color::Green) }),
        raw(" save  "@),
        styled("a"@, Style { bold: true, ..in_color(Color::Red) }),
        raw(" abort  "@),
        styled("c"@, Style { bold: true, ..in_color(Color::Yellow) }),
        raw(" cancel"@),
    ]
}

/// The quit prompt.
fn prompt() -> (r: Line)
    ensures
        r@ == prompt_line(),
{
    let mut spans: Vec<Span> = Vec::new();
    spans.push(Span::styled("s".to_string(), Style::colored(Color::Green).with_bold()));
    spans.push(Span::raw(" save  ".to_string()));
    spans.push(Span::styled("a".to_string(), Style::colored(Color::Red).with_bold()));
    spans.push(Span::raw(" abort  ".to_string()));
    spans.push(Span::styled("c".to_string(), Style::colored(Color::Yellow).with_bold()));
    spans.push(Span::raw(" cancel".to_string()));
    assert(span_views(spans@) =~= prompt_line());
    Line::of(spans)
}

/// The number of rows of the list.
pub open spec fn list_rows(area: Area) -> int {
    if area.height > 1 {
        area.height as int
    } else {
        1
    }
}

/// The number of rows of the quit prompt.
pub open spec fn prompt_rows(app: AppView) -> int {
    if app.quit_prompt {
        1
    } else {
        0
    }
}

/// The place of the selection on the screen, if the screen reaches that far.
pub open spec fn selection_place(app: AppView, area: Area) -> Option<Place> {
    let y = area.y + (app.selected - app.scroll_y);
    if y <= u16::MAX {
        Some(Place { x: area.x, y: y as u16 })
    } else {
        None
    }
}

/// Draws the editor on the part `whole` of the screen. Where there is room for the
/// prompt and the status, the list has the rows that they leave; without a prompt it
/// has a row that there is only one of.
pub fn draw(app: &mut App, whole: Area) -> (r: Picture)
    requires
        old(app)@.selected + u16::MAX <= usize::MAX,
        whole.proper(),
    ensures
        final(app)@ == old(app)@.revealed(list_rows(r.rows_area)),
        r.title@ == " inbase: "@ + old(app)@.path + " "@,
        line_views(r.rows@) == final(app)@.rows(list_rows(r.rows_area)),
        old(app)@.quit_prompt ==> (r.prompt matches Some(line) && line@ == prompt_line()),
        !old(app)@.quit_prompt ==> r.prompt is None,
        r.status@ == old(app)@.status,
        r.cursor == selection_place(final(app)@, r.rows_area),
        ({
            let inner = whole.inner();
            let last = prompt_rows(old(app)@);
            &&& inner.height >= last + 2 ==> {
                &&& r.rows_area == inner.rows(0, inner.height - last - 1)
                &&& r.prompt_area == inner.rows(inner.height - last - 1, last)
                &&& r.status_area == inner.rows(inner.height - 1, 1)
                &&& r.cursor is Some
            }
            &&& last == 0 ==> {
                &&& r.rows_area == inner.head()
                &&& r.prompt_area == (Area { height: 0, ..inner.foot() })
                &&& r.status_area == inner.foot()
                &&& r.cursor is Some
            }
        }),
{
    proof {
        law_inner_lies_within(whole);
    }
    let middle: u16 = if app.quit_prompt {
        1
    } else {
        0
    };
    let (area, prompt_area, status_area) = head_middle_and_foot(inside_frame(whole), middle);
    let height: usize = if area.height > 1 {
        area.height as usize
    } else {
        1
    };
    app.ensure_selection_visible(height);
    let title = concat3(" inbase: ", app.path.as_str(), " ");
    let rows = render_rows(app, height);
    let prompt = if app.quit_prompt {
        Some(prompt())
    } else {
        None
    };
    let offset: usize = app.selected - app.scroll_y;
    let cursor = if offset <= (u16::MAX - area.y) as usize {
        Some(Place { x: area.x, y: area.y + offset as u16 })
    } else {
        None
    };
    Picture {
        title,
        rows,
        rows_area: area,
        prompt,
        prompt_area,
        status: app.status.clone(),
        status_area,
        cursor,
    }
}

// ---------------------------------------------------------------------------
// Arguments
// ---------------------------------------------------------------------------

/// What the arguments ask for.
#[derive(Debug)]
pub struct Config {
    pub path: String,
    pub height: u16,
}

/// What the arguments read so far ask for.
pub struct Asked {
    pub path: Option<Seq<char>>,
    pub height: u16,
}

/// What the arguments from the one at `i` on ask for, on top of those before.
pub open spec fn asked(args: Seq<Seq<char>>, i: int, so_far: Asked) -> Result<Asked, ArgFault>
    decreases args.len() - i,
{
    if i >= args.len() {
        Ok(so_far)
    } else {
        let arg = args[i];
        if arg == "--height"@ || arg == "-h"@ {
            if i + 1 >= args.len() {
                Err(ArgFault::MissingRows(arg))
            } else {
                match height_value(args[i + 1]) {
                    Ok(height) => asked(args, i + 2, Asked { height, ..so_far }),
                    Err(fault) => Err(fault),
                }
            }
        } else if has_prefix(arg, "--height="@) {
            match height_value(arg.skip("--height="@.len() as int)) {
                Ok(height) => asked(args, i + 1, Asked { height, ..so_far }),
                Err(fault) => Err(fault),
            }
        } else if so_far.path is None {
            asked(args, i + 1, Asked { path: Some(arg), ..so_far })
        } else {
            Err(ArgFault::Unexpected(arg))
        }
    }
}

/// What the arguments ask for, with a path in any case.
pub open spec fn config_of(args: Seq<Seq<char>>) -> Result<Asked, ArgFault> {
    match asked(args, 0, Asked { path: None, height: DEFAULT_HEIGHT }) {
        Ok(all) => if all.path is None {
            Err(ArgFault::Usage("inbase [--height N] TODO_FILE"@))
        } else {
            Ok(all)
        },
        Err(fault) => Err(fault),
    }
}

impl Config {
    /// Reads the arguments.
    pub fn parse(args: &Vec<String>) -> (r: Result<Config, ArgError>)
        ensures
            match r {
                Ok(config) => config_of(views(args@)) == Ok::<Asked, ArgFault>(
                    Asked { path: Some(config.path@), height: config.height },
                ),
                Err(error) => config_of(views(args@)) == Err::<Asked, ArgFault>(error@),
            },
    {
        let ghost all = views(args@);
        let ghost first = Asked { path: None, height: DEFAULT_HEIGHT };
        let mut height: u16 = DEFAULT_HEIGHT;
        let mut path: Option<String> = None;
        let mut i: usize = 0;
        while i < args.len()
            invariant
                i <= args@.len(),
                all == views(args@),
                first == (Asked { path: None, height: DEFAULT_HEIGHT }),
                asked(all, 0, first) == asked(
                    all,
                    i as int,
                    Asked { path: path_view(path), height },
                ),
            decreases args@.len() - i,
        {
            let arg = args[i].as_str();
            assert(all[i as int] == arg@);
            if same(arg, "--height") || same(arg, "-h") {
                if i + 1 >= args.len() {
                    return Err(ArgError::MissingRows(arg.to_string()));
                }
                assert(all[i + 1] == args@[i + 1]@);
                match parse_height(args[i + 1].as_str()) {
                    Ok(rows) => {
                        height = rows;
                    },
                    Err(error) => {
                        return Err(error);
                    },
                }
                i = i + 2;
            } else if let Some(value) = strip_prefix(arg, "--height=") {
                match parse_height(value.as_str()) {
                    Ok(rows) => {
                        height = rows;
                    },
                    Err(error) => {
                        return Err(error);
                    },
                }
                i = i + 1;
            } else if path.is_none() {
                path = Some(arg.to_string());
                i = i + 1;
            } else {
                return Err(ArgError::Unexpected(arg.to_string()));
            }
        }
        match path {
            Some(path) => Ok(Config { path, height }),
            None => Err(ArgError::Usage("inbase [--height N] TODO_FILE".to_string())),
        }
    }
}

// ---------------------------------------------------------------------------
// Laws
// ---------------------------------------------------------------------------

/// No carriage return stands before a line feed.
pub open spec fn has_no_crlf(source: Seq<char>) -> bool {
    forall|i: int| 0 < i < source.len() && #[trigger] source[i] == '\n' ==> source[i - 1] != '\r'
}

/// A list that is written as it was read is the text that was read, if no line
/// ends in a carriage return.
pub proof fn law_round_trip(source: Seq<char>)
    requires
        has_no_crlf(source),
    ensures
        read_todo(source).written() == source,
{
    let todo = read_todo(source);
    let texts = lines(source);
    assert(todo.lines.map_values(|line: LineView| line.written()) =~= texts);
    reveal_strlit("\n");
    assert("\n"@ =~= seq!['\n']);
    lemma_pieces(source);
    let pieces = split(source, '\n');
    let ended = pieces.drop_last().map_values(|line: Seq<char>| without_cr(line));
    assert(ended =~= pieces.drop_last());
    lemma_join_split(source);
    if source.len() > 0 {
        assert(source.skip(source.len() - 1) =~= seq![source.last()]);
        assert(seq![source.last()][0] == source.last());
        assert(has_suffix(source, "\n"@) == (source.last() == '\n'));
    }
    if pieces.last().len() == 0 {
        assert(texts =~= pieces.drop_last());
        if pieces.len() > 1 {
            assert(join(pieces, "\n"@) =~= join(pieces.drop_last(), "\n"@) + "\n"@);
            assert(source.len() > 0);
        } else {
            assert(join(pieces, "\n"@) == pieces[0]);
            assert(source =~= Seq::empty());
            assert(texts =~= Seq::empty());
        }
    } else {
        assert(texts =~= pieces);
    }
}

/// The pieces between line feeds: only the last can be followed by no line feed,
/// and no other ends in a carriage return.
proof fn lemma_pieces(source: Seq<char>)
    requires
        has_no_crlf(source),
    ensures
        split(source, '\n').len() > 0,
        forall|i: int|
            0 <= i < split(source, '\n').len() - 1 ==> (#[trigger] split(source, '\n')[i]).len()
                == 0 || split(source, '\n')[i].last() != '\r',
        split(source, '\n').last().len() > 0 ==> source.len() > 0 && split(
            source,
            '\n',
        ).last().last() == source.last() && source.last() != '\n',
        split(source, '\n').last().len() == 0 ==> source.len() == 0 || source.last() == '\n',
        source.len() == 0 || source.last() != '\n' ==> (split(source, '\n').len() == 1 ==> split(
            source,
            '\n',
        )[0] == source),
    decreases source.len(),
{
    if source.len() > 0 {
        let before = source.drop_last();
        assert forall|i: int| 0 < i < before.len() && #[trigger] before[i] == '\n' implies before[i
            - 1] != '\r' by {
            assert(source[i] == before[i]);
            assert(source[i - 1] == before[i - 1]);
        }
        lemma_pieces(before);
        let pieces = split(before, '\n');
        let all = split(source, '\n');
        if source.last() == '\n' {
            assert forall|i: int| 0 <= i < all.len() - 1 implies (#[trigger] all[i]).len() == 0
                || all[i].last() != '\r' by {
                assert(all[i] == pieces[i]);
                if i == pieces.len() - 1 && pieces.last().len() > 0 {
                    assert(source[source.len() - 1] == '\n');
                    assert(before.last() == source[source.len() - 2]);
                }
            }
        } else {
            assert forall|i: int| 0 <= i < all.len() - 1 implies (#[trigger] all[i]).len() == 0
                || all[i].last() != '\r' by {
                assert(all[i] == pieces[i]);
            }
            if all.len() == 1 {
                if before.len() > 0 && before.last() == '\n' {
                    lemma_two_pieces(before);
                }
                assert(all[0] =~= source);
            }
        }
    }
}

/// A text that ends in a line feed has more than one piece.
proof fn lemma_two_pieces(source: Seq<char>)
    requires
        source.len() > 0,
        source.last() == '\n',
    ensures
        split(source, '\n').len() > 1,
{
    crate::text::lemma_split_not_empty(source.drop_last(), '\n');
}

/// The pieces between line feeds, joined by line feeds, are the text.
proof fn lemma_join_split(source: Seq<char>)
    ensures
        join(split(source, '\n'), "\n"@) == source,
    decreases source.len(),
{
    reveal_strlit("\n");
    if source.len() > 0 {
        let before = source.drop_last();
        lemma_join_split(before);
        crate::text::lemma_split_not_empty(before, '\n');
        let pieces = split(before, '\n');
        let all = split(source, '\n');
        if source.last() == '\n' {
            assert(all.drop_last() =~= pieces);
            assert(join(all, "\n"@) =~= before + "\n"@);
            assert(source =~= before.push('\n'));
        } else {
            assert(all.drop_last() =~= pieces.drop_last());
            if pieces.len() == 1 {
                assert(all[0] =~= source);
            } else {
                assert(join(all, "\n"@) =~= join(pieces, "\n"@).push(source.last()));
            }
            assert(source =~= before.push(source.last()));
        }
    } else {
        assert(join(split(source, '\n'), "\n"@) =~= source);
    }
}

/// The number of commands among the lines `a..b`.
pub open spec fn commands(lines: Seq<LineView>, a: int, b: int) -> int
    decreases b - a,
{
    if a >= b {
        0
    } else {
        commands(lines, a, b - 1) + if lines[b - 1].command is Some {
            1int
        } else {
            0int
        }
    }
}

/// The commands among some lines, the first of these lines apart.
pub proof fn lemma_commands_front(lines: Seq<LineView>, a: int, b: int)
    requires
        a < b,
    ensures
        commands(lines, a, b) == commands(lines, a + 1, b) + if lines[a].command is Some {
            1int
        } else {
            0int
        },
        commands(lines, a + 1, b) >= 0,
    decreases b - a,
{
    if a + 1 < b {
        lemma_commands_front(lines, a, b - 1);
    } else {
        assert(commands(lines, a, b - 1) == 0);
    }
}

/// Lists with commands in the same places have the same number of them.
proof fn lemma_same_commands(lines: Seq<LineView>, other: Seq<LineView>, a: int, b: int)
    requires
        forall|j: int|
            a <= j < b ==> (#[trigger] lines[j]).command is Some == other[j].command is Some,
    ensures
        commands(lines, a, b) == commands(other, a, b),
    decreases b - a,
{
    if a < b {
        lemma_same_commands(lines, other, a, b - 1);
        assert(lines[b - 1].command is Some == other[b - 1].command is Some);
    }
}

/// A command that is found up the list is as many commands away as was asked.
pub proof fn lemma_up_counts(lines: Seq<LineView>, i: int, n: int)
    requires
        0 <= i <= lines.len(),
        n >= 1,
    ensures
        command_up(lines, i, n) matches Some(k) ==> 0 <= k < i && lines[k].command is Some
            && commands(lines, k, i) == n,
    decreases i,
{
    if i > 0 {
        if lines[i - 1].command is Some {
            if n > 1 {
                lemma_up_counts(lines, i - 1, n - 1);
            } else {
                assert(commands(lines, i - 1, i - 1) == 0);
            }
        } else {
            lemma_up_counts(lines, i - 1, n);
        }
    }
}

/// A command as many commands up the list as asked is found.
proof fn lemma_up_finds(lines: Seq<LineView>, i: int, k: int, n: int)
    requires
        0 <= k < i <= lines.len(),
        lines[k].command is Some,
        commands(lines, k, i) == n,
    ensures
        command_up(lines, i, n) == Some(k),
        n >= 1,
    decreases i,
{
    lemma_commands_front(lines, k, i);
    if k < i - 1 {
        lemma_commands_front(lines, k, i - 1);
        if lines[i - 1].command is Some {
            lemma_up_finds(lines, i - 1, k, n - 1);
        } else {
            lemma_up_finds(lines, i - 1, k, n);
        }
    } else {
        assert(commands(lines, i, i) == 0);
    }
}

/// A command that is found down the list is as many commands away as was asked.
pub proof fn lemma_down_counts(lines: Seq<LineView>, i: int, n: int)
    requires
        0 <= i,
        n >= 1,
    ensures
        command_down(lines, i, n) matches Some(k) ==> i <= k < lines.len()
            && lines[k].command is Some && commands(lines, i, k + 1) == n,
    decreases lines.len() - i,
{
    if i < lines.len() {
        if lines[i].command is Some {
            if n > 1 {
                lemma_down_counts(lines, i + 1, n - 1);
            }
        } else {
            lemma_down_counts(lines, i + 1, n);
        }
        if let Some(k) = command_down(lines, i, n) {
            lemma_commands_front(lines, i, k + 1);
            assert(commands(lines, i + 1, i + 1) == 0);
        }
    }
}

/// A command as many commands down the list as asked is found.
proof fn lemma_down_finds(lines: Seq<LineView>, i: int, k: int, n: int)
    requires
        0 <= i <= k < lines.len(),
        lines[k].command is Some,
        commands(lines, i, k + 1) == n,
    ensures
        command_down(lines, i, n) == Some(k),
        n >= 1,
    decreases k - i,
{
    lemma_commands_front(lines, i, k + 1);
    if i < k {
        if lines[i].command is Some {
            lemma_down_finds(lines, i + 1, k, n - 1);
        } else {
            lemma_down_finds(lines, i + 1, k, n);
        }
    } else {
        assert(commands(lines, k + 1, k + 1) == 0);
    }
}

/// A count of commands grows with the lines that are counted.
pub proof fn lemma_commands_count(lines: Seq<LineView>, a: int, b: int)
    ensures
        commands(lines, a, b) >= 0,
    decreases b - a,
{
    if a < b {
        lemma_commands_count(lines, a, b - 1);
    }
}

/// Where no command is found up the list, there are too few of them.
pub proof fn lemma_up_misses(lines: Seq<LineView>, i: int, n: int)
    requires
        0 <= i <= lines.len(),
        n >= 1,
    ensures
        command_up(lines, i, n) is None ==> commands(lines, 0, i) < n,
    decreases i,
{
    lemma_commands_count(lines, 0, i);
    if i > 0 {
        if lines[i - 1].command is Some {
            if n > 1 {
                lemma_up_misses(lines, i - 1, n - 1);
            }
        } else {
            lemma_up_misses(lines, i - 1, n);
        }
    }
}

/// Where no command is found down the list, there are too few of them.
pub proof fn lemma_down_misses(lines: Seq<LineView>, i: int, n: int)
    requires
        0 <= i,
        n >= 1,
    ensures
        command_down(lines, i, n) is None ==> commands(lines, i, lines.len() as int) < n,
    decreases lines.len() - i,
{
    if i < lines.len() {
        lemma_commands_front(lines, i, lines.len() as int);
        if lines[i].command is Some {
            if n > 1 {
                lemma_down_misses(lines, i + 1, n - 1);
            }
        } else {
            lemma_down_misses(lines, i + 1, n);
        }
    }
}

/// Moving a command up or down the list, by however many commands, and back by as
/// many leaves the list and the selection as they were.
pub proof fn law_move_back(app: AppView, delta: int)
    requires
        0 <= app.selected < app.todo.lines.len(),
        app.todo.lines[app.selected].command is Some,
        app.todo.command_at(app.selected, delta) is Some,
    ensures
        ({
            let back = app.moving(delta).moving(-delta);
            back.todo == app.todo && back.selected == app.selected
        }),
{
    let lines = app.todo.lines;
    let here = app.selected;
    let next = app.todo.command_at(here, delta)->0;
    let after = swapped(lines, here, next);
    if delta < 0 {
        lemma_up_counts(lines, here, -delta);
        lemma_same_commands(lines, after, next, here + 1);
        lemma_commands_front(lines, next, here + 1);
        lemma_commands_front(after, next, here + 1);
        lemma_down_finds(after, next + 1, here, -delta);
    } else if delta > 0 {
        lemma_down_counts(lines, here + 1, delta);
        lemma_same_commands(lines, after, here, next + 1);
        lemma_commands_front(lines, here, next + 1);
        lemma_up_finds(after, next, here, delta);
    }
    assert(swapped(after, next, here) =~= lines);
}

/// Moving leaves every other line where it is. Lines without a command are
/// among them, if the selected line has one.
pub proof fn law_move_keeps_others(app: AppView, delta: int, i: int)
    requires
        0 <= app.selected < app.todo.lines.len(),
        app.todo.lines[app.selected].command is Some,
        delta == -1 || delta == 1,
        0 <= i < app.todo.lines.len(),
        app.todo.lines[i].command is None,
    ensures
        app.moving(delta).todo.lines.len() == app.todo.lines.len(),
        app.moving(delta).todo.lines[i] == app.todo.lines[i],
{
    lemma_command_up(app.todo.lines, app.selected, 1);
    lemma_command_down(app.todo.lines, app.selected + 1, 1);
}

/// Actions that set commands or select leave every line without a command as it
/// was read, and no action but the two moves changes the order of the lines.
pub proof fn law_setting_keeps_others(app: AppView, action: Action, i: int)
    requires
        0 <= i < app.todo.lines.len(),
        i != app.selected || app.todo.lines[i].command is None,
        0 <= app.selected,
    ensures
        app.setting(action).todo.lines.len() == app.todo.lines.len(),
        app.setting(action).todo.lines[i] == app.todo.lines[i],
{
}

} // verus!
