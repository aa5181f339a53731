//! Lines of the text buffer, and operations on single lines and paragraphs.

use ropey::Rope;
use vstd::prelude::*;

use crate::inline_text::editor::Editor;
#[allow(unused_imports)]
use crate::rope::{
    lemma_line_order, lemma_text_end, line_chars, line_count, line_len, line_start, rope_text,
};
use crate::rope::slice_text;
#[allow(unused_imports)]
use crate::text::{
    find_from, indent_of, is_blank, join, lemma_find_from, lemma_rfind_to, rfind_to, views,
};
use crate::text::{blank, char_count, chars_of, find_chars, indent_len, join_all, rfind_chars};

verus! {

// ---------------------------------------------------------------------------
// Lines of the buffer
// ---------------------------------------------------------------------------

/// `line`, or the last line where the text has no such line.
pub open spec fn clamp_line(s: Seq<char>, line: int) -> int {
    if line < line_count(s) {
        line
    } else {
        line_count(s) - 1
    }
}

/// The position where a line begins, lines behind the last one standing for it.
pub open spec fn start_of(s: Seq<char>, line: int) -> int {
    line_start(s, clamp_line(s, line))
}

/// The length of a line, lines behind the last one standing for it.
pub open spec fn len_of(s: Seq<char>, line: int) -> int {
    line_len(s, clamp_line(s, line))
}

/// The text of a line, lines behind the last one standing for it.
pub open spec fn text_of(s: Seq<char>, line: int) -> Seq<char> {
    line_chars(s, clamp_line(s, line))
}

/// A line lies within the text.
pub proof fn lemma_line_within(s: Seq<char>, line: int)
    requires
        0 <= line,
    ensures
        line_count(s) >= 1,
        0 <= clamp_line(s, line) < line_count(s),
        0 <= start_of(s, line),
        0 <= len_of(s, line),
        start_of(s, line) + len_of(s, line) <= s.len(),
        text_of(s, line).len() == len_of(s, line),
        start_of(s, line) + len_of(s, line) <= line_start(s, clamp_line(s, line) + 1) <= s.len(),
{
    lemma_text_end(s);
    lemma_line_order(s, clamp_line(s, line));
}

/// The number of lines.
pub fn buffer_line_count(buffer: &Rope) -> (n: usize)
    ensures
        n == line_count(rope_text(*buffer)),
        n >= 1,
{
    let n = buffer.len_lines();
    proof {
        lemma_text_end(rope_text(*buffer));
    }
    n
}

/// The line that stands for `line`.
fn clamped(buffer: &Rope, line: usize) -> (n: usize)
    ensures
        n == clamp_line(rope_text(*buffer), line as int),
        n < line_count(rope_text(*buffer)),
{
    let count = buffer_line_count(buffer);
    if line < count {
        line
    } else {
        count - 1
    }
}

/// The position where a line begins.
pub fn line_start_char(buffer: &Rope, line: usize) -> (n: usize)
    ensures
        n == start_of(rope_text(*buffer), line as int),
        n <= rope_text(*buffer).len(),
{
    proof {
        lemma_line_within(rope_text(*buffer), line as int);
    }
    buffer.line_to_char(clamped(buffer, line))
}

/// The length of a line without the line feed at its end, and without a
/// carriage return before it.
pub fn line_len_chars(buffer: &Rope, line: usize) -> (n: usize)
    ensures
        n == len_of(rope_text(*buffer), line as int),
        start_of(rope_text(*buffer), line as int) + n <= rope_text(*buffer).len() <= usize::MAX,
{
    let ghost s = rope_text(*buffer);
    proof {
        lemma_line_within(s, line as int);
    }
    let _total: usize = buffer.len_chars();
    let _count: usize = buffer_line_count(buffer);
    let at = clamped(buffer, line);
    let start = buffer.line_to_char(at);
    proof {
        lemma_line_order(s, at as int);
    }
    let end = buffer.line_to_char(at + 1);
    if start < end && buffer.char(end - 1) == '\n' {
        if start < end - 1 && buffer.char(end - 2) == '\r' {
            end - 2 - start
        } else {
            end - 1 - start
        }
    } else {
        end - start
    }
}

/// The text of a line without its end.
pub fn line_text(buffer: &Rope, line: usize) -> (text: String)
    ensures
        text@ == text_of(rope_text(*buffer), line as int),
{
    let start = line_start_char(buffer, line);
    let len = line_len_chars(buffer, line);
    slice_text(buffer, start, start + len)
}

// ---------------------------------------------------------------------------
// Regions
// ---------------------------------------------------------------------------

/// A range of positions, or of columns.
#[derive(Clone, Copy, Debug, PartialEq, Eq, Structural)]
pub struct Region {
    pub start: usize,
    pub end: usize,
}

/// The columns of a line that lie in a region.
pub open spec fn selected(s: Seq<char>, line: int, from: int, to: int) -> Option<(int, int)> {
    let start = start_of(s, line);
    let end = start + len_of(s, line);
    let low = if from > start {
        from
    } else {
        start
    };
    let high = if to < end {
        to
    } else {
        end
    };
    if low < high {
        Some((low - start, high - start))
    } else {
        None
    }
}

/// The columns of a line that lie in the active region.
pub fn line_selection_range(app: &Editor, line: usize, active_region: Option<&Region>) -> (r:
    Option<Region>)
    ensures
        active_region is None ==> r is None,
        active_region matches Some(region) ==> match selected(
            app@.text,
            line as int,
            region.start as int,
            region.end as int,
        ) {
            Some((from, to)) => r matches Some(columns) && columns.start == from && columns.end
                == to,
            None => r is None,
        },
{
    let Some(region) = active_region else {
        return None;
    };
    let line_begin = line_start_char(&app.buffer, line);
    let line_end = line_begin + line_len_chars(&app.buffer, line);
    let start: usize = if region.start > line_begin {
        region.start
    } else {
        line_begin
    };
    let end: usize = if region.end < line_end {
        region.end
    } else {
        line_end
    };
    if start < end {
        Some(Region { start: start - line_begin, end: end - line_begin })
    } else {
        None
    }
}

// ---------------------------------------------------------------------------
// The place of the viewport
// ---------------------------------------------------------------------------

/// The row where a viewport of a new height begins. It keeps its top when it
/// grows and its bottom when it shrinks, within the terminal.
pub open spec fn anchor_row(top: int, height: int, new_height: int, rows: int) -> int {
    let anchor = if new_height < height {
        if top + (height - new_height) <= u16::MAX {
            top + (height - new_height)
        } else {
            u16::MAX as int
        }
    } else {
        top
    };
    let last = if rows > 0 {
        rows - 1
    } else {
        0
    };
    if anchor < last {
        anchor
    } else {
        last
    }
}

/// The row where a viewport of a new height begins.
pub fn resize_anchor_row(
    previous_top: u16,
    previous_height: u16,
    new_height: u16,
    terminal_rows: u16,
) -> (r: u16)
    ensures
        r == anchor_row(
            previous_top as int,
            previous_height as int,
            new_height as int,
            terminal_rows as int,
        ),
{
    let anchor: u16 = if new_height < previous_height {
        previous_top.saturating_add(previous_height - new_height)
    } else {
        previous_top
    };
    let last: u16 = terminal_rows.saturating_sub(1);
    if anchor < last {
        anchor
    } else {
        last
    }
}

// ---------------------------------------------------------------------------
// Paragraphs
// ---------------------------------------------------------------------------

/// The least indent among the lines that are not blank, if there is one.
pub open spec fn least_indent(lines: Seq<Seq<char>>) -> Option<int>
    decreases lines.len(),
{
    if lines.len() == 0 {
        None
    } else {
        let before = least_indent(lines.drop_last());
        let line = lines.last();
        if is_blank(line) {
            before
        } else {
            match before {
                Some(n) if n <= indent_of(line) => Some(n),
                _ => Some(indent_of(line)),
            }
        }
    }
}

/// The indent that the lines which are not blank have in common.
pub open spec fn common_indent(lines: Seq<Seq<char>>) -> int {
    match least_indent(lines) {
        Some(n) => n,
        None => 0,
    }
}

/// The indent that the lines which are not blank have in common.
pub fn common_indent_len(lines: &Vec<String>) -> (r: usize)
    ensures
        r == common_indent(views(lines@)),
{
    let mut least: Option<usize> = None;
    let ghost all = views(lines@);
    let mut i: usize = 0;
    while i < lines.len()
        invariant
            i <= lines@.len(),
            all == views(lines@),
            match least {
                Some(n) => least_indent(all.take(i as int)) == Some(n as int),
                None => least_indent(all.take(i as int)) is None,
            },
        decreases lines@.len() - i,
    {
        assert(all.take(i + 1).drop_last() =~= all.take(i as int));
        assert(all.take(i + 1).last() == lines@[i as int]@);
        if !blank(lines[i].as_str()) {
            let chars = chars_of(lines[i].as_str());
            let n = indent_len(&chars);
            least = match least {
                Some(m) => if m <= n {
                    Some(m)
                } else {
                    Some(n)
                },
                None => Some(n),
            };
        }
        i = i + 1;
    }
    assert(all.take(i as int) =~= all);
    match least {
        Some(n) => n,
        None => 0,
    }
}

/// The widest that a filled line may be: the column, but always room for one
/// character behind the indent.
pub open spec fn fill_width(indent: Seq<char>, column: int) -> int {
    if column > indent.len() {
        column
    } else {
        indent.len() as int + 1
    }
}

/// Words laid out in lines. Every line begins with the indent; a word goes on
/// the current line if the line is then no wider than `width`, and on a new
/// line otherwise.
pub open spec fn filled(words: Seq<Seq<char>>, indent: Seq<char>, width: int) -> Seq<Seq<char>>
    decreases words.len(),
{
    if words.len() == 0 {
        seq![indent]
    } else {
        let before = filled(words.drop_last(), indent, width);
        let line = before.last();
        let word = words.last();
        if line.len() <= indent.len() {
            before.drop_last().push(line + word)
        } else if line.len() + 1 + word.len() > width {
            before.push(indent + word)
        } else {
            before.drop_last().push(line + seq![' '] + word)
        }
    }
}

/// A layout has at least one line.
pub proof fn lemma_filled(words: Seq<Seq<char>>, indent: Seq<char>, width: int)
    ensures
        filled(words, indent, width).len() > 0,
        forall|i: int|
            0 <= i < filled(words, indent, width).len() ==> (#[trigger] filled(
                words,
                indent,
                width,
            )[i]).len() >= indent.len() && filled(words, indent, width)[i].take(
                indent.len() as int,
            ) == indent,
    decreases words.len(),
{
    let all = filled(words, indent, width);
    if words.len() == 0 {
        assert(all[0].take(indent.len() as int) =~= indent);
    } else {
        let before = filled(words.drop_last(), indent, width);
        lemma_filled(words.drop_last(), indent, width);
        let word = words.last();
        assert forall|i: int| 0 <= i < all.len() implies (#[trigger] all[i]).len() >= indent.len()
            && all[i].take(indent.len() as int) == indent by {
            if i < all.len() - 1 {
                assert(all[i] == before[i]);
            } else if before.last().len() > indent.len() && before.last().len() + 1 + word.len()
                > width {
                assert((indent + word).take(indent.len() as int) =~= indent);
            } else {
                let line = before.last();
                assert(line == before[before.len() - 1]);
                assert((line + word).take(indent.len() as int) =~= line.take(indent.len() as int));
                assert((line + seq![' '] + word).take(indent.len() as int) =~= line.take(
                    indent.len() as int,
                ));
            }
        }
    }
}

/// Every line of a layout that is wider than `width` holds a single word: it is
/// the indent and that word.
pub proof fn lemma_filled_width(words: Seq<Seq<char>>, indent: Seq<char>, width: int)
    requires
        indent.len() < width,
        forall|i: int| 0 <= i < words.len() ==> (#[trigger] words[i]).len() > 0,
    ensures
        forall|i: int|
            0 <= i < filled(words, indent, width).len() && (#[trigger] filled(
                words,
                indent,
                width,
            )[i]).len() > width ==> exists|k: int|
                0 <= k < words.len() && filled(words, indent, width)[i] == indent
                    + #[trigger] words[k],
        words.len() > 0 ==> filled(words, indent, width).last().len() > indent.len(),
        words.len() == 0 ==> filled(words, indent, width).last() == indent,
    decreases words.len(),
{
    if words.len() > 0 {
        let all = filled(words, indent, width);
        let rest = words.drop_last();
        let before = filled(rest, indent, width);
        lemma_filled_width(rest, indent, width);
        lemma_filled(rest, indent, width);
        lemma_filled(words, indent, width);
        let last = words.len() - 1;
        let word = words[last];
        assert(word.len() > 0);
        assert forall|i: int| 0 <= i < all.len() && (#[trigger] all[i]).len() > width implies exists|
            k: int,
        |
            0 <= k < words.len() && all[i] == indent + #[trigger] words[k] by {
            if i < all.len() - 1 {
                assert(all[i] == before[i]);
                let k = choose|k: int|
                    0 <= k < rest.len() && before[i] == indent + #[trigger] rest[k];
                assert(words[k] == rest[k]);
            } else {
                if before.last().len() <= indent.len() {
                    assert(rest.len() == 0);
                    assert(all[i] == indent + words[last]);
                } else {
                    assert(all[i] == indent + words[last]);
                }
            }
        }
    }
}

/// The words laid out in lines of at most `column` characters, each line with
/// the indent in front.
pub fn wrap_words(words: &Vec<String>, indent: &str, column: usize) -> (r: String)
    ensures
        r@ == join(
            filled(views(words@), indent@, fill_width(indent@, column as int)),
            "\n"@,
        ),
{
    let indent_len = char_count(indent);
    let least: u128 = indent_len as u128 + 1;
    let target: u128 = if column as u128 > least {
        column as u128
    } else {
        least
    };
    let ghost all = views(words@);
    let mut lines: Vec<String> = Vec::new();
    let mut current = indent.to_string();
    let mut i: usize = 0;
    assert(all.take(0) =~= Seq::empty());
    assert(views(lines@).push(current@) =~= filled(all.take(0), indent@, target as int));
    while i < words.len()
        invariant
            i <= words@.len(),
            all == views(words@),
            indent_len == indent@.len(),
            views(lines@).push(current@) == filled(all.take(i as int), indent@, target as int),
        decreases words@.len() - i,
    {
        let ghost before = all.take(i as int);
        let ghost after = all.take(i + 1);
        assert(after.drop_last() =~= before);
        assert(after.last() == words@[i as int]@);
        assert(filled(before, indent@, target as int).drop_last() =~= views(lines@));
        let current_len = char_count(current.as_str());
        let word_len = char_count(words[i].as_str());
        if current_len > indent_len {
            let next_len: u128 = current_len as u128 + 1 + word_len as u128;
            if next_len > target {
                lines.push(current);
                current = indent.to_string();
                assert(views(lines@) =~= filled(before, indent@, target as int));
            } else {
                current.push(' ');
                assert(current@ =~= filled(before, indent@, target as int).last() + seq![' ']);
            }
        }
        current.append(words[i].as_str());
        assert(views(lines@).push(current@) =~= filled(after, indent@, target as int));
        i = i + 1;
    }
    assert(all.take(i as int) =~= all);
    lines.push(current);
    assert(views(lines@) =~= filled(all, indent@, target as int));
    join_all(&lines, "\n")
}

/// The number of characters of a text.
pub fn char_len(text: &str) -> (r: usize)
    ensures
        r == text@.len(),
{
    char_count(text)
}

// ---------------------------------------------------------------------------
// Searching in a line
// ---------------------------------------------------------------------------

/// The first column at or behind `start` where `query` stands in the line. A
/// start behind the end of the line counts as its end, and the empty query is
/// found there.
pub open spec fn find_forward_in(line: Seq<char>, query: Seq<char>, start: int) -> Option<int> {
    if start <= line.len() {
        find_from(line, query, start)
    } else if query.len() == 0 {
        Some(start)
    } else {
        None
    }
}

/// The last column where `query` stands in the line and ends at or before `end`.
pub open spec fn find_reverse_in(line: Seq<char>, query: Seq<char>, end: int) -> Option<int> {
    if end <= line.len() {
        rfind_to(line, query, end - query.len())
    } else {
        rfind_to(line, query, line.len() - query.len())
    }
}

/// The first column at or behind `start_col` where `query` stands in the line.
pub fn find_in_line_forward(line: &str, query: &str, start_col: usize) -> (r: Option<usize>)
    ensures
        match find_forward_in(line@, query@, start_col as int) {
            Some(col) => r == Some(col as usize) && 0 <= col <= usize::MAX,
            None => r is None,
        },
        r matches Some(col) ==> col >= start_col && (col <= line@.len() || col == start_col),
{
    let chars = chars_of(line);
    let part = chars_of(query);
    proof {
        lemma_find_from(line@, query@, start_col as int);
    }
    if start_col <= chars.len() {
        find_chars(&chars, &part, start_col)
    } else if part.len() == 0 {
        Some(start_col)
    } else {
        None
    }
}

/// The last column where `query` stands in the line and ends at or before `end_col`.
pub fn find_in_line_reverse(line: &str, query: &str, end_col: usize) -> (r: Option<usize>)
    ensures
        match find_reverse_in(line@, query@, end_col as int) {
            Some(col) => r == Some(col as usize) && 0 <= col <= usize::MAX,
            None => r is None,
        },
        r matches Some(col) ==> col <= end_col && col <= line@.len(),
{
    let chars = chars_of(line);
    let part = chars_of(query);
    let end: usize = if end_col <= chars.len() {
        end_col
    } else {
        chars.len()
    };
    proof {
        lemma_rfind_to(line@, query@, end - query@.len());
    }
    rfind_chars(&chars, &part, end)
}

} // verus!
