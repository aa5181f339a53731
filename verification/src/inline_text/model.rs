//! The editor as a mathematical object: what it holds, and what each operation
//! makes of it.

use vstd::prelude::*;

#[allow(unused_imports)]
use crate::config::KeyPress;
#[allow(unused_imports)]
use crate::inline_text::buffer::{
    clamp_line, common_indent, fill_width, filled, find_forward_in, find_reverse_in, len_of,
    start_of, text_of,
};
#[allow(unused_imports)]
use crate::inline_text::editor::SearchDirection;
#[allow(unused_imports)]
use crate::inline_text::text_mode::TextMode;
#[allow(unused_imports)]
use crate::rope::{breaks, line_count, line_start};
#[allow(unused_imports)]
use crate::text::{
    decimal, has_prefix, indent_of, is_blank, is_space, join, trim_end, words,
};

verus! {

/// A line and a column.
pub struct Point {
    pub line: int,
    pub col: int,
}

/// What undo and redo bring back.
#[verifier::ext_equal]
pub struct Snapshot {
    pub text: Seq<char>,
    pub line: int,
    pub col: int,
    pub dirty: bool,
    pub mark: Option<Point>,
}

/// A search under way: what is sought, which way, and from where.
#[verifier::ext_equal]
pub struct Search {
    pub query: Seq<char>,
    pub direction: SearchDirection,
    pub line: int,
    pub col: int,
}

/// All that the editor holds.
#[verifier::ext_equal]
pub struct EditorState {
    pub path: Seq<char>,
    pub text: Seq<char>,
    pub line: int,
    pub col: int,
    pub scroll_y: int,
    pub scroll_x: int,
    pub kill: Seq<char>,
    pub dirty: bool,
    pub status: Seq<char>,
    pub pending: Seq<KeyPress>,
    pub height: u16,
    pub restore_height: Option<u16>,
    pub fullscreen: bool,
    pub text_mode: TextMode,
    pub last_drawn_height: u16,
    pub last_drawn_top: u16,
    pub search: Option<Search>,
    pub mark: Option<Point>,
    pub undo: Seq<Snapshot>,
    pub redo: Seq<Snapshot>,
}

/// The lesser of two numbers.
pub open spec fn lesser(a: int, b: int) -> int {
    if a <= b {
        a
    } else {
        b
    }
}

/// `a - b`, but not below zero.
pub open spec fn less(a: int, b: int) -> int {
    if a >= b {
        a - b
    } else {
        0
    }
}

/// `a + b`, but not above what a `usize` holds.
pub open spec fn more(a: int, b: int) -> int {
    if a + b <= usize::MAX {
        a + b
    } else {
        usize::MAX as int
    }
}

/// `s` without the characters `from..to`.
pub open spec fn removed(s: Seq<char>, from: int, to: int) -> Seq<char> {
    s.take(from) + s.skip(to)
}

// ---------------------------------------------------------------------------
// Words
// ---------------------------------------------------------------------------

/// The column behind the white space that ends at column `col`, going left.
pub open spec fn skip_space_left(line: Seq<char>, col: int) -> int
    decreases col,
{
    if col > 0 && is_space(line[col - 1]) {
        skip_space_left(line, col - 1)
    } else {
        col
    }
}

/// The column where the word that ends at column `col` begins.
pub open spec fn skip_word_left(line: Seq<char>, col: int) -> int
    decreases col,
{
    if col > 0 && !is_space(line[col - 1]) {
        skip_word_left(line, col - 1)
    } else {
        col
    }
}

/// The column behind the white space that begins at column `col`.
pub open spec fn skip_space_right(line: Seq<char>, col: int) -> int
    decreases line.len() - col,
{
    if col < line.len() && is_space(line[col]) {
        skip_space_right(line, col + 1)
    } else {
        col
    }
}

/// The column behind the word that begins at column `col`.
pub open spec fn skip_word_right(line: Seq<char>, col: int) -> int
    decreases line.len() - col,
{
    if col < line.len() && !is_space(line[col]) {
        skip_word_right(line, col + 1)
    } else {
        col
    }
}

// ---------------------------------------------------------------------------
// Searching
// ---------------------------------------------------------------------------

/// The first match in the lines `line..end`, from column `col` on in line
/// `first` and from the start in the others.
pub open spec fn scan_forward(
    text: Seq<char>,
    query: Seq<char>,
    line: int,
    end: int,
    first: int,
    col: int,
) -> Option<(int, int)>
    decreases end - line,
{
    if line >= end {
        None
    } else {
        let from = if line == first {
            col
        } else {
            0
        };
        match find_forward_in(text_of(text, line), query, from) {
            Some(found) => Some((line, found)),
            None => scan_forward(text, query, line + 1, end, first, col),
        }
    }
}

/// The last match in the lines `low..=line`, up to column `col` in line `first`
/// and up to the end in the others.
pub open spec fn scan_reverse(
    text: Seq<char>,
    query: Seq<char>,
    line: int,
    low: int,
    first: int,
    col: int,
) -> Option<(int, int)>
    decreases line - low + 1,
{
    if line < low {
        None
    } else {
        let to = if line == first {
            col
        } else {
            len_of(text, line)
        };
        match find_reverse_in(text_of(text, line), query, to) {
            Some(found) => Some((line, found)),
            None => scan_reverse(text, query, line - 1, low, first, col),
        }
    }
}

/// The next match from a line and column on, going round at the end of the text.
pub open spec fn found_forward(
    text: Seq<char>,
    query: Seq<char>,
    line: int,
    col: int,
) -> Option<(int, int)> {
    match scan_forward(text, query, line, line_count(text), line, col) {
        Some(at) => Some(at),
        None => scan_forward(text, query, 0, line, -1, 0),
    }
}

/// The match before a line and column, going round at the start of the text.
pub open spec fn found_reverse(
    text: Seq<char>,
    query: Seq<char>,
    line: int,
    col: int,
) -> Option<(int, int)> {
    match scan_reverse(text, query, line, 0, line, col) {
        Some(at) => Some(at),
        None => scan_reverse(text, query, line_count(text) - 1, line + 1, -1, 0),
    }
}

/// The match that a search in one direction finds.
pub open spec fn found(
    text: Seq<char>,
    direction: SearchDirection,
    query: Seq<char>,
    line: int,
    col: int,
) -> Option<(int, int)> {
    match direction {
        SearchDirection::Forward => found_forward(text, query, line, col),
        SearchDirection::Reverse => found_reverse(text, query, line, col),
    }
}

// ---------------------------------------------------------------------------
// Wrapping
// ---------------------------------------------------------------------------

/// The last space behind the first word, at or before column `col`.
pub open spec fn space_before(line: Seq<char>, col: int) -> Option<int>
    decreases col,
{
    if col <= 0 || col <= indent_of(line) {
        None
    } else if line[col] == ' ' {
        Some(col)
    } else {
        space_before(line, col - 1)
    }
}

/// The space where a line that is too wide is broken. White space at the end
/// does not make a line too wide.
pub open spec fn wrap_point(line: Seq<char>, column: int) -> Option<int> {
    if trim_end(line).len() <= column {
        None
    } else {
        space_before(line, column)
    }
}

/// The lines `from..to` of a text.
pub open spec fn line_texts(text: Seq<char>, from: int, to: int) -> Seq<Seq<char>>
    decreases to - from,
{
    if from >= to {
        Seq::empty()
    } else {
        line_texts(text, from, to - 1).push(text_of(text, to - 1))
    }
}

/// The words of lines, each without its first `indent` characters.
pub open spec fn words_behind(lines: Seq<Seq<char>>, indent: int) -> Seq<Seq<char>>
    decreases lines.len(),
{
    if lines.len() == 0 {
        Seq::empty()
    } else {
        words_behind(lines.drop_last(), indent) + words(behind(lines.last(), indent))
    }
}

/// `line` without its first `n` characters.
pub open spec fn behind(line: Seq<char>, n: int) -> Seq<char> {
    if n <= line.len() {
        line.skip(n)
    } else {
        Seq::empty()
    }
}

/// The first `n` characters of the first line that is not blank.
pub open spec fn first_indent(lines: Seq<Seq<char>>, n: int) -> Seq<char>
    decreases lines.len(),
{
    if lines.len() == 0 {
        Seq::empty()
    } else if !is_blank(lines[0]) {
        lines[0].take(lesser(n, lines[0].len() as int))
    } else {
        first_indent(lines.drop_first(), n)
    }
}

/// The words of a paragraph.
pub open spec fn paragraph_words(lines: Seq<Seq<char>>) -> Seq<Seq<char>> {
    words_behind(lines, common_indent(lines))
}

/// A paragraph laid out anew in lines of at most `column` characters.
pub open spec fn refilled(lines: Seq<Seq<char>>, column: int) -> Seq<char> {
    let indent = first_indent(lines, common_indent(lines));
    join(filled(paragraph_words(lines), indent, fill_width(indent, column)), "\n"@)
}

impl EditorState {
    // -----------------------------------------------------------------------
    // Positions
    // -----------------------------------------------------------------------

    /// The position of the cursor in the text.
    pub open spec fn index(self) -> int {
        start_of(self.text, self.line) + self.col
    }

    /// The position of a point in the text; a column behind the end of its line
    /// stands for that end.
    pub open spec fn point_index(self, point: Point) -> int {
        start_of(self.text, point.line) + lesser(point.col, len_of(self.text, point.line))
    }

    /// The cursor lies within the text.
    pub open spec fn fits(self) -> bool {
        0 <= self.line < usize::MAX && 0 <= self.col && self.index() <= self.text.len()
    }

    /// The cursor stands in an existing line and not behind the end of it.
    pub open spec fn on_line(self) -> bool {
        0 <= self.line < line_count(self.text) && 0 <= self.col <= len_of(self.text, self.line)
    }

    /// The text between the mark and the cursor, if there is any.
    pub open spec fn region(self) -> Option<(int, int)> {
        match self.mark {
            None => None,
            Some(point) => {
                let mark = self.point_index(point);
                let cursor = self.index();
                if mark == cursor {
                    None
                } else if mark < cursor {
                    Some((mark, cursor))
                } else {
                    Some((cursor, mark))
                }
            },
        }
    }

    /// The cursor brought onto a line.
    pub open spec fn clamped(self) -> EditorState {
        let line = clamp_line(self.text, self.line);
        EditorState { line, col: lesser(self.col, len_of(self.text, line)), ..self }
    }

    /// The cursor put at a position of the text.
    pub open spec fn at_index(self, index: int) -> EditorState {
        let i = lesser(index, self.text.len() as int);
        let line = breaks(self.text, i);
        EditorState { line, col: i - line_start(self.text, line), ..self }.clamped()
    }

    // -----------------------------------------------------------------------
    // Edits and how they are undone
    // -----------------------------------------------------------------------

    /// With another status.
    pub open spec fn saying(self, status: Seq<char>) -> EditorState {
        EditorState { status, ..self }
    }

    /// The text written to its file.
    pub open spec fn saved(self) -> EditorState {
        EditorState { dirty: false, status: "saved "@ + self.path, ..self }
    }

    /// The text has changed.
    pub open spec fn modified(self) -> EditorState {
        EditorState {
            dirty: true,
            pending: Seq::empty(),
            search: None,
            mark: None,
            status: "modified"@,
            ..self
        }
    }

    /// What undo would bring back.
    pub open spec fn snapshot(self) -> Snapshot {
        Snapshot {
            text: self.text,
            line: self.line,
            col: self.col,
            dirty: self.dirty,
            mark: self.mark,
        }
    }

    /// Remembered for undo; there is nothing left to redo.
    pub open spec fn recorded(self) -> EditorState {
        EditorState { undo: self.undo.push(self.snapshot()), redo: Seq::empty(), ..self }
    }

    /// A snapshot brought back.
    pub open spec fn restored(self, snapshot: Snapshot) -> EditorState {
        EditorState {
            text: snapshot.text,
            line: snapshot.line,
            col: snapshot.col,
            dirty: snapshot.dirty,
            mark: snapshot.mark,
            search: None,
            pending: Seq::empty(),
            ..self
        }.clamped()
    }

    /// The last edit undone.
    pub open spec fn undone(self) -> EditorState {
        if self.undo.len() == 0 {
            self.saying("no undo"@)
        } else {
            EditorState {
                undo: self.undo.drop_last(),
                redo: self.redo.push(self.snapshot()),
                ..self
            }.restored(self.undo.last()).saying("undo"@)
        }
    }

    /// The last undone edit done again.
    pub open spec fn redone(self) -> EditorState {
        if self.redo.len() == 0 {
            self.saying("no redo"@)
        } else {
            EditorState {
                redo: self.redo.drop_last(),
                undo: self.undo.push(self.snapshot()),
                ..self
            }.restored(self.redo.last()).saying("redo"@)
        }
    }

    /// The characters `from..to` taken out, and the cursor put where they were.
    pub open spec fn cut(self, from: int, to: int) -> EditorState {
        EditorState { text: removed(self.text, from, to), ..self }.at_index(from)
    }

    /// The active region taken out, if there is one.
    pub open spec fn region_deleted(self) -> EditorState {
        match self.region() {
            Some((from, to)) => self.cut(from, to).modified(),
            None => self,
        }
    }

    /// One character put in at the cursor, and the cursor behind it.
    pub open spec fn with_char(self, ch: char) -> EditorState {
        EditorState { text: self.text.insert(self.index(), ch), col: self.col + 1, ..self }
    }

    /// A line feed put in at the cursor, and the cursor at the start of the next line.
    pub open spec fn with_newline(self) -> EditorState {
        EditorState {
            text: self.text.insert(self.index(), '\n'),
            line: self.line + 1,
            col: 0,
            ..self
        }
    }

    /// A character typed.
    pub open spec fn typed(self, ch: char) -> EditorState {
        let base = self.recorded().region_deleted();
        let state = base.with_char(ch);
        let state = if ch == ' ' {
            state.auto_wrapped(base.index() + 1)
        } else {
            state
        };
        state.modified()
    }

    /// What typing and yanking read is the same in both editors.
    pub open spec fn alike(self, other: EditorState) -> bool {
        &&& self.text == other.text
        &&& self.line == other.line
        &&& self.col == other.col
        &&& self.mark == other.mark
        &&& self.text_mode == other.text_mode
        &&& self.kill == other.kill
    }

    /// A character typed `n` times.
    pub open spec fn typed_times(self, ch: char, n: nat) -> EditorState
        decreases n,
    {
        if n == 0 {
            self
        } else {
            self.typed_times(ch, (n - 1) as nat).typed(ch)
        }
    }

    /// A line ended.
    pub open spec fn newlined(self) -> EditorState {
        self.recorded().region_deleted().with_newline().modified()
    }

    /// The cursor's line may be joined to the one before it: the end of that
    /// line lies before the start of this one.
    pub open spec fn joins_back(self) -> bool {
        self.line < line_count(self.text) || len_of(self.text, self.line) == 0
    }

    /// What deleting backward makes of the editor: the region goes if there is
    /// one; else the character before the cursor; at the start of a line, the
    /// end of the line before.
    pub open spec fn backspaced(self) -> EditorState {
        if self.region() is Some {
            self.recorded().region_deleted()
        } else if self.col > 0 {
            let end = self.index();
            EditorState {
                text: removed(self.text, end - 1, end),
                col: self.col - 1,
                ..self.recorded()
            }.modified()
        } else if self.line > 0 {
            let line = self.line - 1;
            let col = len_of(self.text, line);
            EditorState {
                text: removed(
                    self.text,
                    start_of(self.text, line) + col,
                    start_of(self.text, self.line),
                ),
                line,
                col,
                ..self.recorded()
            }.modified()
        } else {
            self
        }
    }

    /// The end of the cursor's line, or of its line end if the cursor stands at
    /// the end of the line; `None` at the end of the text.
    pub open spec fn rest_of_line(self) -> Option<int> {
        if self.col < len_of(self.text, self.line) {
            Some(start_of(self.text, self.line) + len_of(self.text, self.line))
        } else if self.line + 1 < line_count(self.text) {
            Some(start_of(self.text, self.line + 1))
        } else {
            None
        }
    }

    /// The cursor does not stand behind the rest of its line, if there is any.
    pub open spec fn joins_forward(self) -> bool {
        self.line < usize::MAX && (self.rest_of_line() matches Some(end) ==> self.index() <= end)
    }

    /// Deleting forward finds the cursor where it needs it.
    pub open spec fn deletes_forward(self) -> bool {
        (self.mark is Some ==> self.fits()) && (self.region() is None ==> self.joins_forward())
    }

    /// What deleting forward makes of the editor: the region goes if there is
    /// one; else the character behind the cursor; at the end of a line, its end.
    pub open spec fn deleted(self) -> EditorState {
        if self.region() is Some {
            self.recorded().region_deleted()
        } else {
            match self.rest_of_line() {
                Some(end) => {
                    let start = self.index();
                    let end = if self.col < len_of(self.text, self.line) {
                        start + 1
                    } else {
                        end
                    };
                    EditorState {
                        text: removed(self.text, start, end),
                        ..self.recorded()
                    }.modified()
                },
                None => self,
            }
        }
    }

    /// The rest of the line killed, or at the end of the line its end.
    pub open spec fn rest_killed(self) -> EditorState {
        match self.rest_of_line() {
            Some(end) => EditorState {
                kill: self.text.subrange(self.index(), end),
                text: removed(self.text, self.index(), end),
                ..self.recorded()
            }.modified(),
            None => EditorState { kill: Seq::empty(), ..self },
        }
    }

    /// The mark set at the cursor, or cleared where it stands there already.
    pub open spec fn mark_toggled(self) -> EditorState {
        let here = Point { line: self.line, col: self.col };
        if self.mark == Some(here) {
            EditorState { mark: None, status: "mark cleared"@, pending: Seq::empty(), ..self }
        } else {
            EditorState { mark: Some(here), status: "mark set"@, pending: Seq::empty(), ..self }
        }
    }

    /// The mark given up.
    pub open spec fn mark_cancelled(self) -> EditorState {
        EditorState {
            mark: None,
            status: if self.mark is Some {
                "mark cancelled"@
            } else {
                "quit"@
            },
            pending: Seq::empty(),
            ..self
        }
    }

    /// The region copied to the kill ring.
    pub open spec fn region_copied(self) -> EditorState {
        match self.region() {
            Some((from, to)) => EditorState {
                kill: self.text.subrange(from, to),
                status: "region copied"@,
                pending: Seq::empty(),
                ..self
            },
            None => self.saying("no active region"@),
        }
    }

    /// The region moved to the kill ring.
    pub open spec fn region_killed(self) -> EditorState {
        match self.region() {
            Some((from, to)) => EditorState {
                kill: self.text.subrange(from, to),
                ..self.recorded().cut(from, to)
            }.modified().saying("region killed"@),
            None => self.saying("no active region"@),
        }
    }

    /// A text put in at the cursor, character by character.
    pub open spec fn with_text(self, text: Seq<char>) -> EditorState
        decreases text.len(),
    {
        if text.len() == 0 {
            self
        } else {
            let before = self.with_text(text.drop_last());
            if text.last() == '\n' {
                before.with_newline()
            } else {
                before.with_char(text.last())
            }
        }
    }

    /// The cursor stays within the text while a text is put in.
    pub open spec fn takes(self, text: Seq<char>) -> bool {
        forall|n: int|
            0 <= n < text.len() ==> #[trigger] self.with_text(text.take(n)).fits()
    }

    /// The kill ring can be yanked.
    pub open spec fn takes_yank(self) -> bool {
        self.kill.len() > 0 ==> self.fits() && self.recorded().region_deleted().takes(self.kill)
    }

    /// The kill ring put in at the cursor, in place of the region if there is one.
    pub open spec fn yanked(self) -> EditorState {
        if self.kill.len() == 0 {
            self
        } else {
            self.recorded().region_deleted().with_text(self.kill).modified()
        }
    }

    // -----------------------------------------------------------------------
    // Paragraphs and commit messages
    // -----------------------------------------------------------------------

    /// Whether a line is a comment of a commit message.
    pub open spec fn is_comment(self, line: int) -> bool {
        match self.text_mode {
            TextMode::Plain { .. } => false,
            TextMode::CommitMessage { comment_prefix, .. } => has_prefix(
                text_of(self.text, line),
                comment_prefix@,
            ),
        }
    }

    /// Whether a line belongs to the body of a commit message.
    pub open spec fn is_body(self, line: int) -> bool {
        self.text_mode is CommitMessage && clamp_line(self.text, line) > 0 && !self.is_comment(line)
    }

    /// Whether a line is part of no paragraph: blank lines, and in a commit
    /// message the subject and the comments.
    pub open spec fn bars_paragraph(self, line: int) -> bool {
        is_blank(text_of(self.text, line)) || (self.text_mode is CommitMessage && !self.is_body(
            line,
        ))
    }

    /// The first line of the paragraph that goes on at `line`.
    pub open spec fn paragraph_start(self, line: int) -> int
        decreases line,
    {
        if line > 0 && !self.bars_paragraph(line - 1) {
            self.paragraph_start(line - 1)
        } else {
            line
        }
    }

    /// The line behind the paragraph that goes on before `line`.
    pub open spec fn paragraph_end(self, line: int) -> int
        decreases line_count(self.text) - line,
    {
        if line < line_count(self.text) && !self.bars_paragraph(line) {
            self.paragraph_end(line + 1)
        } else {
            line
        }
    }

    /// The lines of the paragraph around `line`.
    pub open spec fn paragraph(self, line: int) -> Option<(int, int)> {
        if self.bars_paragraph(line) {
            None
        } else {
            Some((self.paragraph_start(line), self.paragraph_end(line + 1)))
        }
    }

    /// The column that the cursor's paragraph is filled to.
    pub open spec fn fill_column(self) -> int {
        self.text_mode.fill_column_at(self.line) as int
    }

    /// The cursor's paragraph filled.
    pub open spec fn filled(self) -> EditorState {
        match self.paragraph(self.line) {
            None => self.saying("no paragraph"@),
            Some((first, end)) => {
                let lines = line_texts(self.text, first, end);
                let from = start_of(self.text, first);
                let to = start_of(self.text, end - 1) + len_of(self.text, end - 1);
                let new = refilled(lines, self.fill_column());
                if paragraph_words(lines).len() == 0 {
                    self.saying("no paragraph"@)
                } else if new == self.text.subrange(from, to) {
                    self.saying("already filled to "@ + decimal(self.fill_column() as nat))
                } else {
                    let text = removed(self.text, from, to);
                    EditorState {
                        text: text.take(from) + new + text.skip(from),
                        ..self.recorded()
                    }.at_index(
                        from + lesser(less(self.index(), from), new.len() as int),
                    ).modified().saying("filled paragraph to "@ + decimal(self.fill_column() as nat))
                }
            },
        }
    }

    /// The cursor's line broken where it is too wide for the body of a commit
    /// message. The rest goes to a line of its own, with the same indent. The
    /// cursor, which stands at the position `cursor`, goes with the rest.
    pub open spec fn auto_wrapped(self, cursor: int) -> EditorState {
        match self.text_mode {
            TextMode::Plain { .. } => self,
            TextMode::CommitMessage { body_column, .. } => if self.is_body(self.line) {
                let line = text_of(self.text, self.line);
                match wrap_point(line, body_column as int) {
                    None => self,
                    Some(col) => self.broken_at(
                        start_of(self.text, self.line) + col,
                        line.take(indent_of(line)),
                        cursor,
                    ),
                }
            } else {
                self
            },
        }
    }

    /// The space at a position replaced by a line feed and an indent.
    pub open spec fn broken_at(self, at: int, indent: Seq<char>, cursor: int) -> EditorState {
        let text = removed(self.text, at, at + 1);
        let new = EditorState { text: text.take(at) + ("\n"@ + indent) + text.skip(at), ..self };
        if cursor > at {
            new.at_index(cursor + indent.len())
        } else {
            new
        }
    }

    /// The first line at or behind `line` that is too wide for the body.
    pub open spec fn wide_body_line(self, line: int, column: int) -> Option<int>
        decreases line_count(self.text) - line,
    {
        if line >= line_count(self.text) {
            None
        } else if !self.is_comment(line) && len_of(self.text, line) > column {
            Some(line)
        } else {
            self.wide_body_line(line + 1, column)
        }
    }

    /// What is wrong with a commit message: the subject is too wide, no blank
    /// line follows it, or a line of the body is too wide.
    pub open spec fn warning(self) -> Option<Seq<char>> {
        match self.text_mode {
            TextMode::Plain { .. } => None,
            TextMode::CommitMessage { subject_column, body_column, .. } => {
                if !self.is_comment(0) && len_of(self.text, 0) > subject_column {
                    Some(
                        "commit subject "@ + decimal(len_of(self.text, 0) as nat) + "/"@ + decimal(
                            subject_column as nat,
                        ),
                    )
                } else if line_count(self.text) > 1 && !self.is_comment(1) && !is_blank(
                    text_of(self.text, 1),
                ) {
                    Some("commit body needs blank line after subject"@)
                } else {
                    match self.wide_body_line(1, body_column as int) {
                        Some(line) => Some(
                            "commit body line "@ + decimal((line + 1) as nat) + " "@ + decimal(
                                len_of(self.text, line) as nat,
                            ) + "/"@ + decimal(body_column as nat),
                        ),
                        None => None,
                    }
                }
            },
        }
    }

    /// What the status line shows.
    pub open spec fn shown_status(self) -> Seq<char> {
        match self.warning() {
            Some(text) => text,
            None => self.status,
        }
    }

    /// The width that the subject of a commit message should keep to, for the
    /// line that holds it.
    pub open spec fn subject_limit(self, line: int) -> Option<usize> {
        match self.text_mode {
            TextMode::CommitMessage { subject_column, .. } if line == 0 && !self.is_comment(
                0,
            ) => Some(subject_column),
            _ => None,
        }
    }

    // -----------------------------------------------------------------------
    // Movement
    // -----------------------------------------------------------------------

    /// One character to the left, or to the end of the line above.
    pub open spec fn moved_left(self) -> EditorState {
        if self.col > 0 {
            EditorState { col: self.col - 1, ..self }
        } else if self.line > 0 {
            EditorState { line: self.line - 1, col: len_of(self.text, self.line - 1), ..self }
        } else {
            self
        }
    }

    /// One character to the right, or to the start of the line below.
    pub open spec fn moved_right(self) -> EditorState {
        if self.col < len_of(self.text, self.line) {
            EditorState { col: self.col + 1, ..self }
        } else if self.line + 1 < line_count(self.text) {
            EditorState { line: self.line + 1, col: 0, ..self }
        } else {
            self
        }
    }

    /// One line up.
    pub open spec fn moved_up(self) -> EditorState {
        if self.line > 0 {
            EditorState { line: self.line - 1, ..self }.clamped()
        } else {
            self
        }
    }

    /// One line down.
    pub open spec fn moved_down(self) -> EditorState {
        if self.line + 1 < line_count(self.text) {
            EditorState { line: self.line + 1, ..self }.clamped()
        } else {
            self
        }
    }

    /// The column stands in its line, so that the word before it can be read.
    pub open spec fn has_left(self) -> bool {
        self.col == 0 || self.col <= len_of(self.text, self.line)
    }

    /// One word to the left; at the start of a line, one character.
    pub open spec fn moved_word_left(self) -> EditorState {
        if self.col == 0 {
            self.moved_left()
        } else {
            let line = text_of(self.text, self.line);
            EditorState { col: skip_word_left(line, skip_space_left(line, self.col)), ..self }
        }
    }

    /// One word to the right, within the line.
    pub open spec fn moved_word_right(self) -> EditorState {
        let line = text_of(self.text, self.line);
        EditorState { col: skip_space_right(line, skip_word_right(line, self.col)), ..self }
    }

    /// The number of lines of a page.
    pub open spec fn page(self) -> int {
        if self.height >= 4 {
            self.height - 3
        } else {
            1
        }
    }

    /// One page up.
    pub open spec fn paged_up(self) -> EditorState {
        EditorState { line: less(self.line, self.page()), ..self }.clamped()
    }

    /// One page down.
    pub open spec fn paged_down(self) -> EditorState {
        EditorState {
            line: lesser(self.line + self.page(), line_count(self.text) - 1),
            ..self
        }.clamped()
    }

    /// Scrolled so far that the cursor is seen.
    pub open spec fn revealed(self, height: int, width: int) -> EditorState {
        EditorState {
            scroll_y: if self.line < self.scroll_y {
                self.line
            } else if self.line >= more(self.scroll_y, height) {
                less(self.line, less(height, 1))
            } else {
                self.scroll_y
            },
            scroll_x: if self.col < self.scroll_x {
                self.col
            } else if self.col >= more(self.scroll_x, width) {
                less(self.col, less(width, 1))
            } else {
                self.scroll_x
            },
            ..self
        }
    }

    // -----------------------------------------------------------------------
    // Incremental search
    // -----------------------------------------------------------------------

    /// The status that shows the search.
    pub open spec fn showing_search(self) -> EditorState {
        match self.search {
            Some(search) => self.saying(
                (match search.direction {
                    SearchDirection::Forward => "I-search"@,
                    SearchDirection::Reverse => "I-search backward"@,
                }) + ": "@ + search.query,
            ),
            None => self,
        }
    }

    /// A search begun at the cursor.
    pub open spec fn search_begun(self, direction: SearchDirection) -> EditorState {
        EditorState {
            pending: Seq::empty(),
            search: Some(
                Search { query: Seq::empty(), direction, line: self.line, col: self.col },
            ),
            ..self
        }.showing_search()
    }

    /// The search given up, and the cursor back where it began.
    pub open spec fn search_cancelled(self) -> EditorState {
        match self.search {
            Some(search) => EditorState {
                search: None,
                line: search.line,
                col: search.col,
                status: "search cancelled"@,
                ..self
            },
            None => self,
        }
    }

    /// The search ended where it is.
    pub open spec fn search_finished(self) -> EditorState {
        match self.search {
            Some(_) => EditorState { search: None, status: "search done"@, ..self },
            None => self,
        }
    }

    /// The cursor at the match, or where it was if there is none.
    pub open spec fn moved_to(self, at: Option<(int, int)>) -> EditorState {
        match at {
            Some((line, col)) => EditorState { line, col, ..self },
            None => self,
        }
    }

    /// The search done anew from where it began.
    pub open spec fn searched(self) -> EditorState {
        match self.search {
            Some(search) => if search.query.len() == 0 {
                EditorState { line: search.line, col: search.col, ..self }.showing_search()
            } else {
                self.moved_to(
                    found(self.text, search.direction, search.query, search.line, search.col),
                ).showing_search()
            },
            None => self,
        }
    }

    /// The search gone on with from the cursor.
    pub open spec fn searched_on(self) -> EditorState {
        match self.search {
            Some(search) => if search.query.len() == 0 {
                self.showing_search()
            } else {
                let col = match search.direction {
                    SearchDirection::Forward => more(self.col, 1),
                    SearchDirection::Reverse => self.col,
                };
                self.moved_to(
                    found(self.text, search.direction, search.query, self.line, col),
                ).showing_search()
            },
            None => self,
        }
    }

    /// With another text sought.
    pub open spec fn seeking(self, query: Seq<char>) -> EditorState {
        match self.search {
            Some(search) => EditorState { search: Some(Search { query, ..search }), ..self },
            None => self,
        }
    }

    /// A character added to what is sought.
    pub open spec fn search_typed(self, ch: char) -> EditorState {
        match self.search {
            Some(search) => self.seeking(search.query.push(ch)).searched(),
            None => self,
        }
    }

    /// The last character of what is sought taken off.
    pub open spec fn search_backspaced(self) -> EditorState {
        match self.search {
            Some(search) => self.seeking(
                if search.query.len() > 0 {
                    search.query.drop_last()
                } else {
                    search.query
                },
            ).searched(),
            None => self,
        }
    }

    /// The search gone on with in a direction.
    pub open spec fn search_repeated(self, direction: SearchDirection) -> EditorState {
        match self.search {
            Some(search) => EditorState {
                search: Some(Search { direction, ..search }),
                ..self
            }.searched_on(),
            None => self,
        }
    }

    /// The line where the search began can be counted on from.
    pub open spec fn search_runs(self) -> bool {
        self.search matches Some(search) ==> 0 <= search.line < usize::MAX && 0 <= search.col
    }
}

} // verus!
