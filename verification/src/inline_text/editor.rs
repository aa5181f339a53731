//! The editor: a text, a cursor, and the operations on them.

use ropey::Rope;
use vstd::prelude::*;

use crate::config::KeyPress;
use crate::inline_text::buffer::{
    buffer_line_count, common_indent_len, find_in_line_forward, find_in_line_reverse,
    line_len_chars, line_start_char, line_text, wrap_words, Region,
};
#[allow(unused_imports)]
use crate::inline_text::buffer::{clamp_line, lemma_line_within, len_of, text_of};
#[allow(unused_imports)]
use crate::inline_text::model::{
    behind, first_indent, found, found_forward, found_reverse, line_texts, scan_forward,
    scan_reverse, skip_space_left, skip_space_right, skip_word_left, skip_word_right, space_before,
    words_behind, wrap_point, EditorState, Point, Search, Snapshot,
};
use crate::inline_text::text_mode::TextMode;
use crate::inline_text::{Mode, MIN_HEIGHT};
#[allow(unused_imports)]
use crate::rope::{lemma_line_at, lemma_line_start_grows, line_count, rope_text};
use crate::rope::{remove_range, slice_text};
#[allow(unused_imports)]
use crate::text::{decimal, indent_of, is_blank, lemma_trim_start, trim_end, views, words};
use crate::text::{
    blank, char_count, char_is_space, chars_of, concat2, concat3, decimal_of, indent_len, same,
    starts_with, string_of, trimmed_len, words_of,
};

verus! {

/// Which way a search goes.
#[derive(Clone, Copy, Debug, PartialEq, Eq, Structural)]
pub enum SearchDirection {
    Forward,
    Reverse,
}

/// A search under way.
pub struct SearchState {
    pub query: String,
    pub direction: SearchDirection,
    pub origin_line: usize,
    pub origin_col: usize,
}

/// A line and a column of the buffer.
#[derive(Clone, Copy, Debug, PartialEq, Eq, Structural)]
pub struct BufferPoint {
    pub line: usize,
    pub col: usize,
}

/// What undo and redo bring back.
pub struct EditorSnapshot {
    pub buffer: Rope,
    pub cursor_line: usize,
    pub cursor_col: usize,
    pub dirty: bool,
    pub mark: Option<BufferPoint>,
}

/// The editor.
pub struct Editor {
    pub path: String,
    pub buffer: Rope,
    pub cursor_line: usize,
    pub cursor_col: usize,
    pub scroll_y: usize,
    pub scroll_x: usize,
    pub kill_ring: String,
    pub dirty: bool,
    pub status: String,
    pub pending_keys: Vec<KeyPress>,
    pub height: u16,
    pub restore_height: Option<u16>,
    pub fullscreen: bool,
    pub text_mode: TextMode,
    pub last_drawn_height: u16,
    pub last_drawn_top: u16,
    pub search: Option<SearchState>,
    pub mark: Option<BufferPoint>,
    pub undo_stack: Vec<EditorSnapshot>,
    pub redo_stack: Vec<EditorSnapshot>,
}

/// A mark as a mathematical point.
pub open spec fn mark_view(mark: Option<BufferPoint>) -> Option<Point> {
    match mark {
        Some(point) => Some(Point { line: point.line as int, col: point.col as int }),
        None => None,
    }
}

/// A search as a mathematical object.
pub open spec fn search_view(search: Option<SearchState>) -> Option<Search> {
    match search {
        Some(search) => Some(
            Search {
                query: search.query@,
                direction: search.direction,
                line: search.origin_line as int,
                col: search.origin_col as int,
            },
        ),
        None => None,
    }
}

impl View for EditorSnapshot {
    type V = Snapshot;

    open spec fn view(&self) -> Snapshot {
        Snapshot {
            text: rope_text(self.buffer),
            line: self.cursor_line as int,
            col: self.cursor_col as int,
            dirty: self.dirty,
            mark: mark_view(self.mark),
        }
    }
}

/// Snapshots as mathematical objects.
pub open spec fn snapshots(list: Seq<EditorSnapshot>) -> Seq<Snapshot> {
    list.map_values(|s: EditorSnapshot| s@)
}

impl View for Editor {
    type V = EditorState;

    open spec fn view(&self) -> EditorState {
        EditorState {
            path: self.path@,
            text: rope_text(self.buffer),
            line: self.cursor_line as int,
            col: self.cursor_col as int,
            scroll_y: self.scroll_y as int,
            scroll_x: self.scroll_x as int,
            kill: self.kill_ring@,
            dirty: self.dirty,
            status: self.status@,
            pending: self.pending_keys@,
            height: self.height,
            restore_height: self.restore_height,
            fullscreen: self.fullscreen,
            text_mode: self.text_mode,
            last_drawn_height: self.last_drawn_height,
            last_drawn_top: self.last_drawn_top,
            search: search_view(self.search),
            mark: mark_view(self.mark),
            undo: snapshots(self.undo_stack@),
            redo: snapshots(self.redo_stack@),
        }
    }
}

/// The line that a request for a line leads to: lines are counted from one, and
/// lines behind the last one stand for it.
pub open spec fn opened_line(text: Seq<char>, line: Option<usize>) -> int {
    match line {
        Some(n) => clamp_line(text, if n > 0 {
            n - 1
        } else {
            0
        }),
        None => 0,
    }
}

impl Editor {
    /// An editor on a text that was read from `path`, with the cursor at the
    /// start of a line.
    pub fn open(
        path: String,
        content: &str,
        line: Option<usize>,
        height: u16,
        fill_column: usize,
        mode: Mode,
    ) -> (r: Editor)
        ensures
            r@.path == path@,
            r@.text == content@,
            r@.line == opened_line(content@, line),
            r@.col == 0,
            r@.scroll_y == 0,
            r@.scroll_x == 0,
            r@.kill.len() == 0,
            !r@.dirty,
            r@.status == mode.first_status(),
            r@.pending.len() == 0,
            r@.height == (if height < MIN_HEIGHT {
                MIN_HEIGHT
            } else {
                height
            }),
            r@.restore_height is None,
            !r@.fullscreen,
            r@.text_mode.suits(path@, fill_column),
            r@.last_drawn_height == r@.height,
            r@.last_drawn_top == 0,
            r@.search is None,
            r@.mark is None,
            r@.undo.len() == 0,
            r@.redo.len() == 0,
            r@.on_line(),
    {
        let buffer = Rope::from_str(content);
        let count = buffer_line_count(&buffer);
        let cursor_line: usize = match line {
            Some(n) => {
                let wanted: usize = n.saturating_sub(1);
                if wanted < count {
                    wanted
                } else {
                    count - 1
                }
            },
            None => 0,
        };
        let height: u16 = if height < MIN_HEIGHT {
            MIN_HEIGHT
        } else {
            height
        };
        let text_mode = TextMode::for_path(path.as_str(), fill_column);
        proof {
            lemma_line_within(content@, cursor_line as int);
        }
        Editor {
            path,
            buffer,
            cursor_line,
            cursor_col: 0,
            scroll_y: 0,
            scroll_x: 0,
            kill_ring: String::new(),
            dirty: false,
            status: mode.initial_status().to_string(),
            pending_keys: Vec::new(),
            height,
            restore_height: None,
            fullscreen: false,
            text_mode,
            last_drawn_height: height,
            last_drawn_top: 0,
            search: None,
            mark: None,
            undo_stack: Vec::new(),
            redo_stack: Vec::new(),
        }
    }

    /// What is written to the file when the editor saves.
    pub fn save_text(&self) -> (text: String)
        ensures
            text@ == self@.text,
    {
        let len = self.buffer.len_chars();
        let text = slice_text(&self.buffer, 0, len);
        assert(text@ =~= self@.text);
        text
    }

    /// The text has been written to the file.
    pub fn save(&mut self)
        ensures
            final(self)@ == old(self)@.saved(),
    {
        self.dirty = false;
        self.status = concat2("saved ", self.path.as_str());
    }

    /// The length of the cursor's line.
    pub fn line_len(&self) -> (n: usize)
        ensures
            n == len_of(self@.text, self@.line),
    {
        line_len_chars(&self.buffer, self.cursor_line)
    }

    /// The number of lines.
    pub fn line_count(&self) -> (n: usize)
        ensures
            n == line_count(self@.text),
            n >= 1,
    {
        buffer_line_count(&self.buffer)
    }

    /// Whether the cursor lies within the text.
    pub fn cursor_fits(&self) -> (r: bool)
        ensures
            r == self@.fits(),
            self@.text.len() <= usize::MAX,
    {
        let start = line_start_char(&self.buffer, self.cursor_line);
        let len = self.buffer.len_chars();
        self.cursor_line < usize::MAX && self.cursor_col <= len - start
    }

    /// The position of the cursor in the text.
    pub fn cursor_char_idx(&self) -> (n: usize)
        requires
            self@.index() <= usize::MAX,
        ensures
            n == self@.index(),
    {
        line_start_char(&self.buffer, self.cursor_line) + self.cursor_col
    }

    /// Where the cursor stands.
    pub fn cursor_point(&self) -> (p: BufferPoint)
        ensures
            mark_view(Some(p)) == Some(Point { line: self@.line, col: self@.col }),
    {
        BufferPoint { line: self.cursor_line, col: self.cursor_col }
    }

    /// What undo would bring back.
    pub fn snapshot(&self) -> (s: EditorSnapshot)
        ensures
            s@ == self@.snapshot(),
    {
        EditorSnapshot {
            buffer: self.buffer.clone(),
            cursor_line: self.cursor_line,
            cursor_col: self.cursor_col,
            dirty: self.dirty,
            mark: self.mark,
        }
    }

    /// Brings a snapshot back.
    pub fn restore_snapshot(&mut self, snapshot: EditorSnapshot)
        ensures
            final(self)@ == old(self)@.restored(snapshot@),
    {
        self.buffer = snapshot.buffer;
        self.cursor_line = snapshot.cursor_line;
        self.cursor_col = snapshot.cursor_col;
        self.dirty = snapshot.dirty;
        self.mark = snapshot.mark;
        self.search = None;
        self.pending_keys.clear();
        self.clamp_cursor();
    }

    /// Remembers the text and the cursor for undo.
    pub fn record_edit(&mut self)
        ensures
            final(self)@ == old(self)@.recorded(),
    {
        let ghost before = self@;
        let snapshot = self.snapshot();
        let ghost seen = snapshot@;
        self.undo_stack.push(snapshot);
        assert(self@.undo =~= before.undo.push(seen));
        self.redo_stack.clear();
        assert(self@.redo =~= Seq::empty());
    }

    /// Undoes the last edit.
    pub fn undo(&mut self)
        ensures
            final(self)@ == old(self)@.undone(),
    {
        let ghost before = self@;
        let Some(snapshot) = self.undo_stack.pop() else {
            self.status = "no undo".to_string();
            return;
        };
        assert(self@.undo =~= before.undo.drop_last());
        let current = self.snapshot();
        let ghost seen = current@;
        self.redo_stack.push(current);
        assert(self@.redo =~= before.redo.push(seen));
        self.restore_snapshot(snapshot);
        self.status = "undo".to_string();
    }

    /// Does the last undone edit again.
    pub fn redo(&mut self)
        ensures
            final(self)@ == old(self)@.redone(),
    {
        let ghost before = self@;
        let Some(snapshot) = self.redo_stack.pop() else {
            self.status = "no redo".to_string();
            return;
        };
        assert(self@.redo =~= before.redo.drop_last());
        let current = self.snapshot();
        let ghost seen = current@;
        self.undo_stack.push(current);
        assert(self@.undo =~= before.undo.push(seen));
        self.restore_snapshot(snapshot);
        self.status = "redo".to_string();
    }

    /// The position of a point in the text.
    pub fn point_char_idx(&self, point: BufferPoint) -> (n: usize)
        ensures
            n == self@.point_index(Point { line: point.line as int, col: point.col as int }),
            n <= self@.text.len(),
    {
        let start = line_start_char(&self.buffer, point.line);
        let len = line_len_chars(&self.buffer, point.line);
        if point.col <= len {
            start + point.col
        } else {
            start + len
        }
    }

    /// Puts the cursor at a position of the text.
    pub fn set_cursor_from_char_idx(&mut self, char_idx: usize)
        ensures
            final(self)@ == old(self)@.at_index(char_idx as int),
            final(self)@.on_line(),
            final(self)@.fits(),
    {
        let len = self.buffer.len_chars();
        let at: usize = if char_idx <= len {
            char_idx
        } else {
            len
        };
        self.cursor_line = self.buffer.char_to_line(at);
        proof {
            lemma_line_at(rope_text(self.buffer), at as int);
        }
        self.cursor_col = at - line_start_char(&self.buffer, self.cursor_line);
        self.clamp_cursor();
    }

    /// The text between the mark and the cursor, if there is any.
    pub fn active_region(&self) -> (r: Option<Region>)
        requires
            self@.mark is Some ==> self@.index() <= usize::MAX,
        ensures
            match self@.region() {
                Some((from, to)) => r matches Some(region) && region.start == from && region.end
                    == to,
                None => r is None,
            },
            r matches Some(region) ==> region.start < region.end && (self@.fits() ==> region.end
                <= self@.text.len()),
    {
        let Some(point) = self.mark else {
            return None;
        };
        let mark = self.point_char_idx(point);
        let cursor = self.cursor_char_idx();
        if mark == cursor {
            None
        } else if mark < cursor {
            Some(Region { start: mark, end: cursor })
        } else {
            Some(Region { start: cursor, end: mark })
        }
    }

    /// Takes the active region out, if there is one.
    pub fn delete_active_region(&mut self) -> (r: bool)
        requires
            old(self)@.fits(),
        ensures
            final(self)@ == old(self)@.region_deleted(),
            r == (old(self)@.region() is Some),
            final(self)@.fits(),
    {
        let _len: usize = self.buffer.len_chars();
        let Some(region) = self.active_region() else {
            return false;
        };
        self.remove_region(region);
        self.mark_dirty();
        true
    }

    /// Takes a region out and returns it.
    pub fn remove_region(&mut self, region: Region) -> (text: String)
        requires
            region.start <= region.end <= old(self)@.text.len(),
        ensures
            text@ == old(self)@.text.subrange(region.start as int, region.end as int),
            final(self)@ == old(self)@.cut(region.start as int, region.end as int),
            final(self)@.on_line(),
            final(self)@.fits(),
    {
        let text = slice_text(&self.buffer, region.start, region.end);
        remove_range(&mut self.buffer, region.start, region.end);
        self.set_cursor_from_char_idx(region.start);
        text
    }

    /// Brings the cursor onto a line.
    pub fn clamp_cursor(&mut self)
        ensures
            final(self)@ == old(self)@.clamped(),
            final(self)@.on_line(),
            final(self)@.fits(),
    {
        let count = self.line_count();
        if self.cursor_line >= count {
            self.cursor_line = count - 1;
        }
        let len = self.line_len();
        if self.cursor_col > len {
            self.cursor_col = len;
        }
        proof {
            lemma_line_within(self@.text, self@.line);
        }
    }

    /// Scrolls so far that the cursor is seen.
    pub fn ensure_cursor_visible(&mut self, text_height: usize, text_width: usize)
        ensures
            final(self)@ == old(self)@.revealed(text_height as int, text_width as int),
    {
        if self.cursor_line < self.scroll_y {
            self.scroll_y = self.cursor_line;
        } else if self.cursor_line >= self.scroll_y.saturating_add(text_height) {
            self.scroll_y = self.cursor_line.saturating_sub(text_height.saturating_sub(1));
        }
        if self.cursor_col < self.scroll_x {
            self.scroll_x = self.cursor_col;
        } else if self.cursor_col >= self.scroll_x.saturating_add(text_width) {
            self.scroll_x = self.cursor_col.saturating_sub(text_width.saturating_sub(1));
        }
    }

    /// The text has changed.
    pub fn mark_dirty(&mut self)
        ensures
            final(self)@ == old(self)@.modified(),
    {
        self.dirty = true;
        self.pending_keys.clear();
        self.search = None;
        self.mark = None;
        self.status = "modified".to_string();
    }

    /// Types a character. A space typed in the body of a commit message breaks
    /// the line where it is too wide.
    pub fn insert_char(&mut self, ch: char)
        requires
            old(self)@.fits(),
        ensures
            final(self)@ == old(self)@.typed(ch),
    {
        self.record_edit();
        self.delete_active_region();
        let _len: usize = self.buffer.len_chars();
        proof {
            lemma_line_within(self@.text, self@.line);
        }
        let at = self.cursor_char_idx();
        self.buffer.insert_char(at, ch);
        self.cursor_col = self.cursor_col + 1;
        if ch == ' ' {
            self.auto_wrap(at + 1);
        }
        self.mark_dirty();
    }

    /// Types a line end.
    pub fn insert_newline(&mut self)
        requires
            old(self)@.fits(),
        ensures
            final(self)@ == old(self)@.newlined(),
    {
        self.record_edit();
        self.delete_active_region();
        let _len: usize = self.buffer.len_chars();
        let at = self.cursor_char_idx();
        self.buffer.insert_char(at, '\n');
        self.cursor_line = self.cursor_line + 1;
        self.cursor_col = 0;
        self.mark_dirty();
    }

    /// Deletes the region, or the character before the cursor, or the end of
    /// the line before.
    pub fn backspace(&mut self)
        requires
            old(self)@.fits(),
            old(self)@.region() is None && old(self)@.col == 0 && old(self)@.line > 0 ==> old(
                self,
            )@.joins_back(),
        ensures
            final(self)@ == old(self)@.backspaced(),
    {
        let _len: usize = self.buffer.len_chars();
        let region = self.active_region();
        if region.is_some() {
            self.record_edit();
            self.delete_active_region();
            return;
        }
        proof {
            lemma_line_within(self@.text, self@.line);
        }
        if self.cursor_col > 0 {
            self.record_edit();
            let end = self.cursor_char_idx();
            remove_range(&mut self.buffer, end - 1, end);
            self.cursor_col = self.cursor_col - 1;
            self.mark_dirty();
        } else if self.cursor_line > 0 {
            self.record_edit();
            let current_start = line_start_char(&self.buffer, self.cursor_line);
            proof {
                lemma_line_within(self@.text, self@.line - 1);
                lemma_line_start_grows(
                    self@.text,
                    clamp_line(self@.text, self@.line - 1),
                    clamp_line(self@.text, self@.line),
                );
            }
            self.cursor_line = self.cursor_line - 1;
            self.cursor_col = self.line_len();
            let previous_content_end = line_start_char(&self.buffer, self.cursor_line)
                + self.cursor_col;
            remove_range(&mut self.buffer, previous_content_end, current_start);
            self.mark_dirty();
        }
    }

    /// The end of the cursor's line, or of its line end if the cursor stands at
    /// the end of the line.
    fn rest_end(&self) -> (r: Option<usize>)
        requires
            self@.line < usize::MAX,
        ensures
            match self@.rest_of_line() {
                Some(end) => r == Some(end as usize) && 0 <= end <= self@.text.len() <= usize::MAX,
                None => r is None,
            },
    {
        let _len: usize = self.buffer.len_chars();
        let len = self.line_len();
        proof {
            lemma_line_within(self@.text, self@.line);
            lemma_line_within(self@.text, self@.line + 1);
        }
        if self.cursor_col < len {
            Some(line_start_char(&self.buffer, self.cursor_line) + len)
        } else if self.cursor_line + 1 < self.line_count() {
            Some(line_start_char(&self.buffer, self.cursor_line + 1))
        } else {
            None
        }
    }

    /// Deletes the region, or the character behind the cursor, or the end of
    /// the line.
    pub fn delete_char(&mut self)
        requires
            old(self)@.deletes_forward(),
        ensures
            final(self)@ == old(self)@.deleted(),
    {
        let _len: usize = self.buffer.len_chars();
        let region = self.active_region();
        if region.is_some() {
            self.record_edit();
            self.delete_active_region();
            return;
        }
        if let Some(end) = self.rest_end() {
            let inside = self.cursor_col < self.line_len();
            self.record_edit();
            let start = self.cursor_char_idx();
            if inside {
                remove_range(&mut self.buffer, start, start + 1);
            } else {
                remove_range(&mut self.buffer, start, end);
            }
            self.mark_dirty();
        }
    }

    /// Kills the rest of the line, or at the end of the line its end.
    pub fn kill_to_eol(&mut self)
        requires
            old(self)@.joins_forward(),
        ensures
            final(self)@ == old(self)@.rest_killed(),
    {
        let _len: usize = self.buffer.len_chars();
        if let Some(end) = self.rest_end() {
            self.record_edit();
            let start = self.cursor_char_idx();
            self.kill_ring = slice_text(&self.buffer, start, end);
            remove_range(&mut self.buffer, start, end);
            self.mark_dirty();
        } else {
            self.kill_ring.clear();
        }
    }

    /// Sets the mark at the cursor, or clears it where it stands there already.
    pub fn toggle_mark(&mut self)
        ensures
            final(self)@ == old(self)@.mark_toggled(),
    {
        let point = self.cursor_point();
        let stands_here = match self.mark {
            Some(mark) => mark == point,
            None => false,
        };
        if stands_here {
            self.mark = None;
            self.status = "mark cleared".to_string();
        } else {
            self.mark = Some(point);
            self.status = "mark set".to_string();
        }
        self.pending_keys.clear();
    }

    /// Gives up the mark.
    pub fn cancel_mark(&mut self)
        ensures
            final(self)@ == old(self)@.mark_cancelled(),
    {
        if self.mark.is_some() {
            self.mark = None;
            self.status = "mark cancelled".to_string();
        } else {
            self.status = "quit".to_string();
        }
        self.pending_keys.clear();
    }

    /// Copies the region to the kill ring.
    pub fn copy_region(&mut self)
        requires
            old(self)@.mark is Some ==> old(self)@.fits(),
        ensures
            final(self)@ == old(self)@.region_copied(),
    {
        let _len: usize = self.buffer.len_chars();
        let Some(region) = self.active_region() else {
            self.status = "no active region".to_string();
            return;
        };
        self.kill_ring = slice_text(&self.buffer, region.start, region.end);
        self.status = "region copied".to_string();
        self.pending_keys.clear();
    }

    /// Moves the region to the kill ring.
    pub fn kill_region(&mut self)
        requires
            old(self)@.mark is Some ==> old(self)@.fits(),
        ensures
            final(self)@ == old(self)@.region_killed(),
    {
        let _len: usize = self.buffer.len_chars();
        let Some(region) = self.active_region() else {
            self.status = "no active region".to_string();
            return;
        };
        self.record_edit();
        self.kill_ring = self.remove_region(region);
        self.mark_dirty();
        self.status = "region killed".to_string();
    }

    /// Puts the kill ring in at the cursor, in place of the region if there is one.
    pub fn yank(&mut self)
        requires
            old(self)@.takes_yank(),
        ensures
            final(self)@ == old(self)@.yanked(),
    {
        let _stayed: bool = self.try_yank();
    }

    /// Yanks as long as the cursor lies within the text, and returns whether it
    /// stayed there.
    fn try_yank(&mut self) -> (r: bool)
        ensures
            r == old(self)@.takes_yank(),
            r ==> final(self)@ == old(self)@.yanked(),
    {
        let text = chars_of(self.kill_ring.as_str());
        if text.len() == 0 {
            return true;
        }
        if !self.cursor_fits() {
            return false;
        }
        self.record_edit();
        self.delete_active_region();
        let ghost base = self@;
        let mut i: usize = 0;
        while i < text.len()
            invariant
                i <= text@.len(),
                base == old(self)@.recorded().region_deleted(),
                text@ == old(self)@.kill,
                text@.len() > 0,
                self@ == base.with_text(text@.take(i as int)),
                forall|n: int| 0 <= n < i ==> #[trigger] base.with_text(text@.take(n)).fits(),
            decreases text@.len() - i,
        {
            if !self.cursor_fits() {
                assert(!base.with_text(text@.take(i as int)).fits());
                return false;
            }
            assert(text@.take(i + 1).drop_last() =~= text@.take(i as int));
            let _len: usize = self.buffer.len_chars();
            proof {
                lemma_line_within(self@.text, self@.line);
            }
            let at = self.cursor_char_idx();
            let ch = text[i];
            self.buffer.insert_char(at, ch);
            if ch == '\n' {
                self.cursor_line = self.cursor_line + 1;
                self.cursor_col = 0;
            } else {
                self.cursor_col = self.cursor_col + 1;
            }
            i = i + 1;
        }
        assert(text@.take(i as int) =~= text@);
        self.mark_dirty();
        true
    }

    /// Whether the cursor does not stand behind the rest of its line, if there is any.
    pub(crate) fn can_join_forward(&self) -> (r: bool)
        ensures
            r == self@.joins_forward(),
    {
        if self.cursor_line == usize::MAX {
            return false;
        }
        match self.rest_end() {
            Some(end) => {
                let start = line_start_char(&self.buffer, self.cursor_line);
                start <= end && self.cursor_col <= end - start
            },
            None => true,
        }
    }

    /// Whether deleting forward finds the cursor where it needs it.
    pub(crate) fn can_delete_forward(&self) -> (r: bool)
        ensures
            r == self@.deletes_forward(),
    {
        if self.mark.is_some() && !self.cursor_fits() {
            return false;
        }
        let _len: usize = self.buffer.len_chars();
        self.active_region().is_some() || self.can_join_forward()
    }

    /// An editor to try out an edit in.
    fn trial(&self) -> (r: Editor)
        ensures
            r@.alike(self@),
    {
        Editor {
            path: String::new(),
            buffer: self.buffer.clone(),
            cursor_line: self.cursor_line,
            cursor_col: self.cursor_col,
            scroll_y: 0,
            scroll_x: 0,
            kill_ring: self.kill_ring.clone(),
            dirty: false,
            status: String::new(),
            pending_keys: Vec::new(),
            height: 0,
            restore_height: None,
            fullscreen: false,
            text_mode: self.text_mode,
            last_drawn_height: 0,
            last_drawn_top: 0,
            search: None,
            mark: self.mark,
            undo_stack: Vec::new(),
            redo_stack: Vec::new(),
        }
    }

    /// Whether the kill ring can be yanked.
    pub(crate) fn can_yank(&self) -> (r: bool)
        ensures
            r == self@.takes_yank(),
    {
        let mut trial = self.trial();
        proof {
            lemma_alike_yank(trial@, self@);
        }
        trial.try_yank()
    }

    /// Whether a character can be typed `n` times.
    pub(crate) fn can_type(&self, ch: char, n: usize) -> (r: bool)
        ensures
            r == (forall|k: nat| k < n ==> #[trigger] self@.typed_times(ch, k).fits()),
    {
        let mut trial = self.trial();
        let ghost begin = trial@;
        let mut i: usize = 0;
        while i < n
            invariant
                i <= n,
                begin.alike(self@),
                trial@ == begin.typed_times(ch, i as nat),
                forall|k: nat| k < i ==> #[trigger] self@.typed_times(ch, k).fits(),
            decreases n - i,
        {
            proof {
                lemma_alike_typed(begin, self@, ch, i as nat);
            }
            if !trial.cursor_fits() {
                assert(!self@.typed_times(ch, i as nat).fits());
                return false;
            }
            trial.insert_char(ch);
            i = i + 1;
        }
        true
    }

    /// Whether deleting backward finds the cursor where it needs it.
    pub(crate) fn can_backspace(&self) -> (r: bool)
        requires
            self@.fits(),
        ensures
            r == (self@.region() is None && self@.col == 0 && self@.line > 0
                ==> self@.joins_back()),
    {
        let _len: usize = self.buffer.len_chars();
        self.active_region().is_some() || self.cursor_col > 0 || self.cursor_line == 0
            || self.cursor_line < self.line_count() || self.line_len() == 0
    }

    /// Whether a search can count on from the line where it began.
    pub(crate) fn can_search(&self) -> (r: bool)
        ensures
            r == self@.search_runs(),
    {
        match self.search.as_ref() {
            Some(search) => search.origin_line < usize::MAX,
            None => true,
        }
    }

    /// Whether the position of the cursor can be counted.
    pub(crate) fn can_count(&self) -> (r: bool)
        ensures
            r == (self@.index() <= usize::MAX),
    {
        let start = line_start_char(&self.buffer, self.cursor_line);
        self.cursor_col <= usize::MAX - start
    }

    /// Whether a line holds nothing but white space.
    pub fn line_is_blank(&self, line: usize) -> (r: bool)
        ensures
            r == is_blank(text_of(self@.text, line as int)),
    {
        let text = line_text(&self.buffer, line);
        blank(text.as_str())
    }

    /// Whether a line is a comment of a commit message.
    pub fn line_is_comment(&self, line: usize) -> (r: bool)
        ensures
            r == self@.is_comment(line as int),
    {
        match self.text_mode {
            TextMode::Plain { .. } => false,
            TextMode::CommitMessage { comment_prefix, .. } => {
                let text = line_text(&self.buffer, line);
                starts_with(text.as_str(), comment_prefix)
            },
        }
    }

    /// Whether a line belongs to the body of a commit message.
    pub fn line_is_body(&self, line: usize) -> (r: bool)
        ensures
            r == self@.is_body(line as int),
    {
        self.text_mode.is_commit_message() && line > 0 && self.line_count() > 1
            && !self.line_is_comment(line)
    }

    /// Whether a line is part of no paragraph.
    fn line_bars_paragraph(&self, line: usize) -> (r: bool)
        ensures
            r == self@.bars_paragraph(line as int),
    {
        self.line_is_blank(line) || (self.text_mode.is_commit_message() && !self.line_is_body(line))
    }

    /// The lines of the paragraph around `line`.
    pub fn paragraph_bounds(&self, line: usize) -> (r: Option<(usize, usize)>)
        requires
            line < usize::MAX,
        ensures
            match self@.paragraph(line as int) {
                Some((first, end)) => r matches Some(lines) && lines.0 == first && lines.1 == end
                    && first <= line < end,
                None => r is None,
            },
    {
        if self.line_bars_paragraph(line) {
            return None;
        }
        let mut start: usize = line;
        while start > 0 && !self.line_bars_paragraph(start - 1)
            invariant
                start <= line,
                self@.paragraph_start(line as int) == self@.paragraph_start(start as int),
            decreases start,
        {
            start = start - 1;
        }
        let count = self.line_count();
        let mut end: usize = line + 1;
        while end < count && !self.line_bars_paragraph(end)
            invariant
                line < end,
                count == line_count(self@.text),
                self@.paragraph_end(line + 1) == self@.paragraph_end(end as int),
            decreases count - end,
        {
            end = end + 1;
        }
        Some((start, end))
    }

    /// Fills the cursor's paragraph to the column that its line goes by.
    pub fn fill_paragraph(&mut self)
        requires
            old(self)@.line < usize::MAX,
            old(self)@.index() <= usize::MAX,
        ensures
            final(self)@ == old(self)@.filled(),
    {
        let ghost state = self@;
        let column = self.text_mode.fill_column_for_line(self.cursor_line);
        let Some((start_line, end_line)) = self.paragraph_bounds(self.cursor_line) else {
            self.status = "no paragraph".to_string();
            return;
        };
        let ghost all = line_texts(state.text, start_line as int, end_line as int);
        let original_cursor = self.cursor_char_idx();
        let start = line_start_char(&self.buffer, start_line);
        let last_line: usize = end_line - 1;
        let end = line_start_char(&self.buffer, last_line) + line_len_chars(
            &self.buffer,
            last_line,
        );
        proof {
            lemma_line_within(state.text, start_line as int);
            lemma_line_within(state.text, last_line as int);
            lemma_line_start_grows(
                state.text,
                clamp_line(state.text, start_line as int),
                clamp_line(state.text, last_line as int),
            );
        }
        let original = slice_text(&self.buffer, start, end);
        let lines = self.texts_of_lines(start_line, end_line);
        let indent_len = common_indent_len(&lines);
        let indent = indent_of_lines(&lines, indent_len);
        let words = words_of_lines(&lines, indent_len);
        if words.len() == 0 {
            self.status = "no paragraph".to_string();
            return;
        }
        let wrapped = wrap_words(&words, indent.as_str(), column);
        if same(wrapped.as_str(), original.as_str()) {
            let number = decimal_of(column as u64);
            self.status = concat2("already filled to ", number.as_str());
            return;
        }
        self.record_edit();
        remove_range(&mut self.buffer, start, end);
        self.buffer.insert(start, wrapped.as_str());
        let offset: usize = if original_cursor >= start {
            original_cursor - start
        } else {
            0
        };
        let wrapped_len = char_count(wrapped.as_str());
        let cursor: usize = if offset <= wrapped_len {
            start + offset
        } else {
            start + wrapped_len
        };
        self.set_cursor_from_char_idx(cursor);
        self.mark_dirty();
        let number = decimal_of(column as u64);
        self.status = concat2("filled paragraph to ", number.as_str());
    }

    /// The texts of the lines `from..to`.
    fn texts_of_lines(&self, from: usize, to: usize) -> (r: Vec<String>)
        requires
            from <= to,
        ensures
            views(r@) == line_texts(self@.text, from as int, to as int),
    {
        let mut lines: Vec<String> = Vec::new();
        let mut line: usize = from;
        while line < to
            invariant
                from <= line <= to,
                views(lines@) == line_texts(self@.text, from as int, line as int),
            decreases to - line,
        {
            let ghost was = views(lines@);
            let text = line_text(&self.buffer, line);
            let ghost piece = text@;
            lines.push(text);
            assert(views(lines@) =~= was.push(piece));
            line = line + 1;
        }
        lines
    }

    /// Breaks the cursor's line where it is too wide for the body of a commit
    /// message. The cursor stands at the position `cursor`.
    fn auto_wrap(&mut self, cursor: usize)
        requires
            cursor <= old(self)@.text.len(),
        ensures
            final(self)@ == old(self)@.auto_wrapped(cursor as int),
    {
        let TextMode::CommitMessage { body_column, .. } = self.text_mode else {
            return;
        };
        if !self.line_is_body(self.cursor_line) {
            return;
        }
        let _len: usize = self.buffer.len_chars();
        let ghost state = self@;
        let text = line_text(&self.buffer, self.cursor_line);
        let line = chars_of(text.as_str());
        let start = line_start_char(&self.buffer, self.cursor_line);
        proof {
            lemma_line_within(state.text, state.line);
            lemma_trim_start(line@);
        }
        let indent = indent_len(&line);
        let Some(col) = wrap_col(&line, body_column) else {
            return;
        };
        let at: usize = start + col;
        let indent_text = string_of(&line, 0, indent);
        assert(indent_text@ =~= line@.take(indent_of(line@)));
        let separator = concat2("\n", indent_text.as_str());
        remove_range(&mut self.buffer, at, at + 1);
        self.buffer.insert(at, separator.as_str());
        proof {
            reveal_strlit("\n");
        }
        if cursor > at {
            self.set_cursor_from_char_idx(cursor + indent);
        }
    }

    /// What is wrong with a commit message, if anything.
    pub fn commit_warning(&self) -> (r: Option<String>)
        ensures
            match self@.warning() {
                Some(text) => r matches Some(shown) && shown@ == text,
                None => r is None,
            },
    {
        let TextMode::CommitMessage { subject_column, body_column, .. } = self.text_mode else {
            return None;
        };
        let subject_len = line_len_chars(&self.buffer, 0);
        if !self.line_is_comment(0) && subject_len > subject_column {
            let len = decimal_of(subject_len as u64);
            let limit = decimal_of(subject_column as u64);
            let head = concat3("commit subject ", len.as_str(), "/");
            return Some(concat2(head.as_str(), limit.as_str()));
        }
        let count = self.line_count();
        if count > 1 && !self.line_is_comment(1) && !self.line_is_blank(1) {
            return Some("commit body needs blank line after subject".to_string());
        }
        let mut line: usize = 1;
        while line < count
            invariant
                1 <= line,
                count == line_count(self@.text),
                self@.wide_body_line(1, body_column as int) == self@.wide_body_line(
                    line as int,
                    body_column as int,
                ),
                self.text_mode == (TextMode::CommitMessage {
                    subject_column,
                    body_column,
                    comment_prefix: self.text_mode->comment_prefix,
                }),
                self@.warning() == (match self@.wide_body_line(1, body_column as int) {
                    Some(wide) => Some(
                        "commit body line "@ + decimal((wide + 1) as nat) + " "@ + decimal(
                            len_of(self@.text, wide) as nat,
                        ) + "/"@ + decimal(body_column as nat),
                    ),
                    None => None::<Seq<char>>,
                }),
            decreases count - line,
        {
            let len = line_len_chars(&self.buffer, line);
            if !self.line_is_comment(line) && len > body_column {
                let number = decimal_of((line + 1) as u64);
                let width = decimal_of(len as u64);
                let limit = decimal_of(body_column as u64);
                let head = concat3("commit body line ", number.as_str(), " ");
                let middle = concat3(head.as_str(), width.as_str(), "/");
                return Some(concat2(middle.as_str(), limit.as_str()));
            }
            line = line + 1;
        }
        None
    }

    /// What the status line shows: what is wrong with a commit message, or else
    /// the status.
    pub fn display_status(&self) -> (r: String)
        ensures
            r@ == self@.shown_status(),
    {
        match self.commit_warning() {
            Some(text) => text,
            None => self.status.clone(),
        }
    }

    /// The width that the subject of a commit message should keep to, for the
    /// line that holds it.
    pub fn commit_subject_limit_for_line(&self, line: usize) -> (r: Option<usize>)
        ensures
            r == self@.subject_limit(line as int),
    {
        match self.text_mode {
            TextMode::CommitMessage { subject_column, .. } => {
                if line == 0 && !self.line_is_comment(0) {
                    Some(subject_column)
                } else {
                    None
                }
            },
            TextMode::Plain { .. } => None,
        }
    }

    /// Moves one character to the left.
    pub fn move_left(&mut self)
        ensures
            final(self)@ == old(self)@.moved_left(),
    {
        if self.cursor_col > 0 {
            self.cursor_col = self.cursor_col - 1;
        } else if self.cursor_line > 0 {
            self.cursor_line = self.cursor_line - 1;
            self.cursor_col = self.line_len();
        }
    }

    /// Moves one character to the right.
    pub fn move_right(&mut self)
        requires
            old(self)@.line < usize::MAX,
        ensures
            final(self)@ == old(self)@.moved_right(),
    {
        if self.cursor_col < self.line_len() {
            self.cursor_col = self.cursor_col + 1;
        } else if self.cursor_line + 1 < self.line_count() {
            self.cursor_line = self.cursor_line + 1;
            self.cursor_col = 0;
        }
    }

    /// Moves one line up.
    pub fn move_up(&mut self)
        ensures
            final(self)@ == old(self)@.moved_up(),
    {
        if self.cursor_line > 0 {
            self.cursor_line = self.cursor_line - 1;
            self.clamp_cursor();
        }
    }

    /// Moves one line down.
    pub fn move_down(&mut self)
        requires
            old(self)@.line < usize::MAX,
        ensures
            final(self)@ == old(self)@.moved_down(),
    {
        if self.cursor_line + 1 < self.line_count() {
            self.cursor_line = self.cursor_line + 1;
            self.clamp_cursor();
        }
    }

    /// Moves one word to the left.
    pub fn move_word_left(&mut self)
        requires
            old(self)@.has_left(),
        ensures
            final(self)@ == old(self)@.moved_word_left(),
    {
        if self.cursor_col == 0 {
            self.move_left();
            return;
        }
        let text = line_text(&self.buffer, self.cursor_line);
        let chars = chars_of(text.as_str());
        proof {
            lemma_line_within(self@.text, self@.line);
        }
        let start: usize = self.cursor_col;
        let mut col: usize = start;
        while col > 0 && char_is_space(chars[col - 1])
            invariant
                col <= start <= chars@.len(),
                skip_space_left(chars@, start as int) == skip_space_left(chars@, col as int),
            decreases col,
        {
            col = col - 1;
        }
        let ghost middle = col;
        while col > 0 && !char_is_space(chars[col - 1])
            invariant
                col <= chars@.len(),
                skip_word_left(chars@, middle as int) == skip_word_left(chars@, col as int),
            decreases col,
        {
            col = col - 1;
        }
        self.cursor_col = col;
    }

    /// Moves one word to the right, within the line.
    pub fn move_word_right(&mut self)
        ensures
            final(self)@ == old(self)@.moved_word_right(),
    {
        let text = line_text(&self.buffer, self.cursor_line);
        let chars = chars_of(text.as_str());
        let start: usize = self.cursor_col;
        let mut col: usize = start;
        while col < chars.len() && !char_is_space(chars[col])
            invariant
                skip_word_right(chars@, start as int) == skip_word_right(chars@, col as int),
            decreases chars@.len() - col,
        {
            col = col + 1;
        }
        let ghost middle = col;
        while col < chars.len() && char_is_space(chars[col])
            invariant
                skip_space_right(chars@, middle as int) == skip_space_right(chars@, col as int),
            decreases chars@.len() - col,
        {
            col = col + 1;
        }
        self.cursor_col = col;
    }

    /// Moves one page up.
    pub fn page_up(&mut self)
        ensures
            final(self)@ == old(self)@.paged_up(),
    {
        let amount = self.page_amount();
        self.cursor_line = self.cursor_line.saturating_sub(amount);
        self.clamp_cursor();
    }

    /// Moves one page down.
    pub fn page_down(&mut self)
        requires
            old(self)@.line + old(self)@.page() <= usize::MAX,
        ensures
            final(self)@ == old(self)@.paged_down(),
    {
        let amount = self.page_amount();
        let target: usize = self.cursor_line + amount;
        let last: usize = self.line_count() - 1;
        self.cursor_line = if target <= last {
            target
        } else {
            last
        };
        self.clamp_cursor();
    }

    /// The number of lines of a page.
    pub fn page_amount(&self) -> (n: usize)
        ensures
            n == self@.page(),
    {
        if self.height >= 4 {
            (self.height - 3) as usize
        } else {
            1
        }
    }

    /// Begins a search at the cursor.
    pub fn begin_search(&mut self, direction: SearchDirection)
        ensures
            final(self)@ == old(self)@.search_begun(direction),
    {
        self.pending_keys.clear();
        self.search = Some(
            SearchState {
                query: String::new(),
                direction,
                origin_line: self.cursor_line,
                origin_col: self.cursor_col,
            },
        );
        self.update_search_status();
    }

    /// Gives up the search and puts the cursor back where it began.
    pub fn cancel_search(&mut self)
        ensures
            final(self)@ == old(self)@.search_cancelled(),
    {
        if let Some(search) = self.search.take() {
            self.cursor_line = search.origin_line;
            self.cursor_col = search.origin_col;
            self.status = "search cancelled".to_string();
        }
    }

    /// Ends the search where it is.
    pub fn finish_search(&mut self)
        ensures
            final(self)@ == old(self)@.search_finished(),
    {
        if let Some(_search) = self.search.take() {
            self.status = "search done".to_string();
        }
    }

    /// Adds a character to what is sought.
    pub fn search_insert_char(&mut self, ch: char)
        requires
            old(self)@.search_runs(),
        ensures
            final(self)@ == old(self)@.search_typed(ch),
    {
        if let Some(search) = self.search.take() {
            let mut query = search.query;
            query.push(ch);
            self.search = Some(
                SearchState {
                    query,
                    direction: search.direction,
                    origin_line: search.origin_line,
                    origin_col: search.origin_col,
                },
            );
        }
        self.apply_incremental_search();
    }

    /// Takes the last character off what is sought.
    pub fn search_backspace(&mut self)
        requires
            old(self)@.search_runs(),
        ensures
            final(self)@ == old(self)@.search_backspaced(),
    {
        if let Some(search) = self.search.take() {
            let mut query = search.query;
            let _last: Option<char> = query.pop();
            self.search = Some(
                SearchState {
                    query,
                    direction: search.direction,
                    origin_line: search.origin_line,
                    origin_col: search.origin_col,
                },
            );
        }
        self.apply_incremental_search();
    }

    /// Goes on with the search in a direction.
    pub fn search_repeat(&mut self, direction: SearchDirection)
        requires
            old(self)@.line < usize::MAX,
        ensures
            final(self)@ == old(self)@.search_repeated(direction),
    {
        if let Some(search) = self.search.take() {
            self.search = Some(
                SearchState {
                    query: search.query,
                    direction,
                    origin_line: search.origin_line,
                    origin_col: search.origin_col,
                },
            );
        }
        self.apply_repeated_search();
    }

    /// Does the search anew from where it began.
    pub fn apply_incremental_search(&mut self)
        requires
            old(self)@.search_runs(),
        ensures
            final(self)@ == old(self)@.searched(),
    {
        let Some(search) = self.search.as_ref() else {
            return;
        };
        if search.query.as_str().is_empty() {
            let (line, col) = (search.origin_line, search.origin_col);
            self.cursor_line = line;
            self.cursor_col = col;
            self.update_search_status();
            return;
        }
        let hit = self.find_from(
            search.direction,
            search.query.as_str(),
            search.origin_line,
            search.origin_col,
        );
        if let Some((line, col)) = hit {
            self.cursor_line = line;
            self.cursor_col = col;
        }
        self.update_search_status();
    }

    /// Goes on with the search from the cursor.
    pub fn apply_repeated_search(&mut self)
        requires
            old(self)@.line < usize::MAX,
        ensures
            final(self)@ == old(self)@.searched_on(),
    {
        let Some(search) = self.search.as_ref() else {
            return;
        };
        if search.query.as_str().is_empty() {
            self.update_search_status();
            return;
        }
        let col: usize = match search.direction {
            SearchDirection::Forward => self.cursor_col.saturating_add(1),
            SearchDirection::Reverse => self.cursor_col,
        };
        let hit = self.find_from(search.direction, search.query.as_str(), self.cursor_line, col);
        if let Some((line, col)) = hit {
            self.cursor_line = line;
            self.cursor_col = col;
        }
        self.update_search_status();
    }

    /// The match that a search in one direction finds.
    pub fn find_from(
        &self,
        direction: SearchDirection,
        query: &str,
        start_line: usize,
        start_col: usize,
    ) -> (r: Option<(usize, usize)>)
        requires
            start_line < usize::MAX,
        ensures
            match found(self@.text, direction, query@, start_line as int, start_col as int) {
                Some((line, col)) => r matches Some(at) && at.0 == line && at.1 == col,
                None => r is None,
            },
    {
        match direction {
            SearchDirection::Forward => self.find_forward(query, start_line, start_col),
            SearchDirection::Reverse => self.find_reverse(query, start_line, start_col),
        }
    }

    /// Shows the search in the status.
    pub fn update_search_status(&mut self)
        ensures
            final(self)@ == old(self)@.showing_search(),
    {
        if let Some(search) = self.search.as_ref() {
            let label = match search.direction {
                SearchDirection::Forward => "I-search",
                SearchDirection::Reverse => "I-search backward",
            };
            let status = concat3(label, ": ", search.query.as_str());
            self.status = status;
        }
    }

    /// The next match from a line and column on, going round at the end of the text.
    pub fn find_forward(&self, query: &str, start_line: usize, start_col: usize) -> (r: Option<
        (usize, usize),
    >)
        ensures
            match found_forward(self@.text, query@, start_line as int, start_col as int) {
                Some((line, col)) => r matches Some(at) && at.0 == line && at.1 == col,
                None => r is None,
            },
    {
        let count = self.line_count();
        let ghost text = self@.text;
        let mut line: usize = start_line;
        while line < count
            invariant
                start_line <= line,
                count == line_count(text),
                text == self@.text,
                scan_forward(
                    text,
                    query@,
                    start_line as int,
                    count as int,
                    start_line as int,
                    start_col as int,
                ) == scan_forward(
                    text,
                    query@,
                    line as int,
                    count as int,
                    start_line as int,
                    start_col as int,
                ),
            decreases count - line,
        {
            let start: usize = if line == start_line {
                start_col
            } else {
                0
            };
            let chars = line_text(&self.buffer, line);
            if let Some(col) = find_in_line_forward(chars.as_str(), query, start) {
                return Some((line, col));
            }
            line = line + 1;
        }
        line = 0;
        while line < start_line
            invariant
                text == self@.text,
                scan_forward(text, query@, 0, start_line as int, -1, 0) == scan_forward(
                    text,
                    query@,
                    line as int,
                    start_line as int,
                    -1,
                    0,
                ),
                found_forward(text, query@, start_line as int, start_col as int) == scan_forward(
                    text,
                    query@,
                    0,
                    start_line as int,
                    -1,
                    0,
                ),
            decreases start_line - line,
        {
            let chars = line_text(&self.buffer, line);
            if let Some(col) = find_in_line_forward(chars.as_str(), query, 0) {
                return Some((line, col));
            }
            line = line + 1;
        }
        None
    }

    /// The match before a line and column, going round at the start of the text.
    pub fn find_reverse(&self, query: &str, start_line: usize, start_col: usize) -> (r: Option<
        (usize, usize),
    >)
        requires
            start_line < usize::MAX,
        ensures
            match found_reverse(self@.text, query@, start_line as int, start_col as int) {
                Some((line, col)) => r matches Some(at) && at.0 == line && at.1 == col,
                None => r is None,
            },
    {
        let count = self.line_count();
        let ghost text = self@.text;
        let mut above: usize = start_line + 1;
        while above > 0
            invariant
                above <= start_line + 1,
                text == self@.text,
                scan_reverse(
                    text,
                    query@,
                    start_line as int,
                    0,
                    start_line as int,
                    start_col as int,
                ) == scan_reverse(
                    text,
                    query@,
                    above - 1,
                    0,
                    start_line as int,
                    start_col as int,
                ),
            decreases above,
        {
            let line: usize = above - 1;
            let end: usize = if line == start_line {
                start_col
            } else {
                line_len_chars(&self.buffer, line)
            };
            let chars = line_text(&self.buffer, line);
            if let Some(col) = find_in_line_reverse(chars.as_str(), query, end) {
                return Some((line, col));
            }
            above = above - 1;
        }
        above = count;
        while above > start_line + 1
            invariant
                text == self@.text,
                start_line < usize::MAX,
                above <= count,
                scan_reverse(text, query@, count - 1, start_line + 1, -1, 0) == scan_reverse(
                    text,
                    query@,
                    above - 1,
                    start_line + 1,
                    -1,
                    0,
                ),
                found_reverse(text, query@, start_line as int, start_col as int) == scan_reverse(
                    text,
                    query@,
                    count - 1,
                    start_line + 1,
                    -1,
                    0,
                ),
            decreases above,
        {
            let line: usize = above - 1;
            let chars = line_text(&self.buffer, line);
            let end = line_len_chars(&self.buffer, line);
            if let Some(col) = find_in_line_reverse(chars.as_str(), query, end) {
                return Some((line, col));
            }
            above = above - 1;
        }
        None
    }
}

/// The space where a line that is too wide is broken.
fn wrap_col(line: &Vec<char>, column: usize) -> (r: Option<usize>)
    ensures
        match wrap_point(line@, column as int) {
            Some(col) => r == Some(col as usize) && 0 < col < line@.len(),
            None => r is None,
        },
{
    if trimmed_len(line) <= column {
        return None;
    }
    let indent = indent_len(line);
    let mut col: usize = column;
    while col > indent
        invariant
            indent == indent_of(line@),
            col < line@.len(),
            space_before(line@, column as int) == space_before(line@, col as int),
            trim_end(line@).len() > column,
        decreases col,
    {
        if line[col] == ' ' {
            return Some(col);
        }
        col = col - 1;
    }
    None
}

/// The first characters of the first line that is not blank.
fn indent_of_lines(lines: &Vec<String>, n: usize) -> (r: String)
    ensures
        r@ == first_indent(views(lines@), n as int),
{
    let ghost all = views(lines@);
    let mut i: usize = 0;
    assert(all.skip(0) =~= all);
    while i < lines.len()
        invariant
            i <= lines@.len(),
            all == views(lines@),
            first_indent(all, n as int) == first_indent(all.skip(i as int), n as int),
        decreases lines@.len() - i,
    {
        assert(all.skip(i as int)[0] == lines@[i as int]@);
        if !blank(lines[i].as_str()) {
            let chars = chars_of(lines[i].as_str());
            let end: usize = if n <= chars.len() {
                n
            } else {
                chars.len()
            };
            let text = string_of(&chars, 0, end);
            assert(text@ =~= chars@.take(end as int));
            return text;
        }
        assert(all.skip(i as int).drop_first() =~= all.skip(i + 1));
        i = i + 1;
    }
    String::new()
}

/// The words of lines, each line without its first `indent` characters.
fn words_of_lines(lines: &Vec<String>, indent: usize) -> (r: Vec<String>)
    ensures
        views(r@) == words_behind(views(lines@), indent as int),
{
    let ghost all = views(lines@);
    let mut out: Vec<String> = Vec::new();
    let mut i: usize = 0;
    assert(views(out@) =~= words_behind(all.take(0), indent as int));
    while i < lines.len()
        invariant
            i <= lines@.len(),
            all == views(lines@),
            views(out@) == words_behind(all.take(i as int), indent as int),
        decreases lines@.len() - i,
    {
        assert(all.take(i + 1).drop_last() =~= all.take(i as int));
        assert(all.take(i + 1).last() == lines@[i as int]@);
        let chars = chars_of(lines[i].as_str());
        let from: usize = if indent <= chars.len() {
            indent
        } else {
            chars.len()
        };
        let content = string_of(&chars, from, chars.len());
        assert(content@ =~= behind(chars@, indent as int));
        let mut more_words = words_of(content.as_str());
        let ghost was = views(out@);
        let ghost added = views(more_words@);
        out.append(&mut more_words);
        assert(views(out@) =~= was + added);
        i = i + 1;
    }
    assert(all.take(i as int) =~= all);
    out
}

// ---------------------------------------------------------------------------
// Trials
// ---------------------------------------------------------------------------

/// Texts put into editors that are alike leave them alike.
proof fn lemma_alike_text(a: EditorState, b: EditorState, text: Seq<char>)
    requires
        a.alike(b),
    ensures
        a.with_text(text).alike(b.with_text(text)),
    decreases text.len(),
{
    if text.len() > 0 {
        lemma_alike_text(a, b, text.drop_last());
    }
}

/// Editors that are alike take the same yank.
proof fn lemma_alike_yank(a: EditorState, b: EditorState)
    requires
        a.alike(b),
    ensures
        a.takes_yank() == b.takes_yank(),
{
    let base = a.recorded().region_deleted();
    let other = b.recorded().region_deleted();
    assert(base.alike(other));
    assert forall|n: int| 0 <= n < a.kill.len() implies #[trigger] base.with_text(
        a.kill.take(n),
    ).fits() == other.with_text(a.kill.take(n)).fits() by {
        lemma_alike_text(base, other, a.kill.take(n));
    }
    assert forall|n: int| 0 <= n < a.kill.len() implies #[trigger] other.with_text(
        a.kill.take(n),
    ).fits() == base.with_text(a.kill.take(n)).fits() by {
        lemma_alike_text(base, other, a.kill.take(n));
    }
}

/// Typing in editors that are alike leaves them alike.
proof fn lemma_alike_typed(a: EditorState, b: EditorState, ch: char, n: nat)
    requires
        a.alike(b),
    ensures
        a.typed_times(ch, n).alike(b.typed_times(ch, n)),
    decreases n,
{
    if n > 0 {
        let m = (n - 1) as nat;
        lemma_alike_typed(a, b, ch, m);
        let x = a.typed_times(ch, m).recorded().region_deleted();
        let y = b.typed_times(ch, m).recorded().region_deleted();
        assert(x.alike(y));
        assert(x.with_char(ch).alike(y.with_char(ch)));
        assert(x.with_char(ch).auto_wrapped(x.index() + 1).alike(
            y.with_char(ch).auto_wrapped(y.index() + 1),
        ));
    }
}

} // verus!
