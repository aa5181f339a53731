//! The text buffer: a `ropey::Rope`, what it holds, and where its lines are.

use ropey::Rope;
use vstd::prelude::*;

verus! {

// ---------------------------------------------------------------------------
// Lines of a text
// ---------------------------------------------------------------------------

/// Whether a line ends behind the character at `i`. Line feed, vertical tab,
/// form feed, next line, line separator and paragraph separator end a line. So
/// does a carriage return, unless a line feed follows: the two then end the
/// line together.
pub open spec fn ends_line(s: Seq<char>, i: int) -> bool {
    let c = s[i];
    ||| '\u{0A}' <= c <= '\u{0C}'
    ||| c == '\u{85}'
    ||| c == '\u{2028}'
    ||| c == '\u{2029}'
    ||| c == '\r' && !(i + 1 < s.len() && s[i + 1] == '\n')
}

/// The number of line ends among the first `i` characters.
pub open spec fn breaks(s: Seq<char>, i: int) -> int
    decreases i,
{
    if i <= 0 {
        0
    } else {
        breaks(s, i - 1) + if ends_line(s, i - 1) {
            1int
        } else {
            0int
        }
    }
}

/// The number of lines: one more than there are line ends.
pub open spec fn line_count(s: Seq<char>) -> int {
    breaks(s, s.len() as int) + 1
}

/// The position behind the first line end at or behind `i`, or the end of the
/// text if no line ends there.
pub open spec fn after_break(s: Seq<char>, i: int) -> int
    decreases s.len() - i,
{
    if i >= s.len() {
        s.len() as int
    } else if ends_line(s, i) {
        i + 1
    } else {
        after_break(s, i + 1)
    }
}

/// The position where line `line` begins; for the line behind the last one,
/// the end of the text.
pub open spec fn line_start(s: Seq<char>, line: int) -> int
    decreases line,
{
    if line <= 0 {
        0
    } else {
        after_break(s, line_start(s, line - 1))
    }
}

/// The length of line `line` without a line feed at its end, and without a
/// carriage return before that line feed.
pub open spec fn line_len(s: Seq<char>, line: int) -> int {
    let start = line_start(s, line);
    let end = line_start(s, line + 1);
    if start < end && s[end - 1] == '\n' {
        if start < end - 1 && s[end - 2] == '\r' {
            end - 2 - start
        } else {
            end - 1 - start
        }
    } else {
        end - start
    }
}

/// The text of line `line`, without its end as `line_len` counts it.
pub open spec fn line_chars(s: Seq<char>, line: int) -> Seq<char> {
    s.subrange(line_start(s, line), line_start(s, line) + line_len(s, line))
}

/// The count of line ends never falls and never counts a character twice.
pub proof fn lemma_breaks(s: Seq<char>, i: int, j: int)
    requires
        0 <= i <= j,
    ensures
        0 <= breaks(s, i) <= i,
        breaks(s, i) <= breaks(s, j),
        breaks(s, i) == breaks(s, j) ==> forall|k: int|
            i <= k < j ==> !#[trigger] ends_line(s, k),
    decreases j,
{
    if i < j {
        lemma_breaks(s, i, j - 1);
    } else if i > 0 {
        lemma_breaks(s, i - 1, i - 1);
    }
}

/// What `after_break` passes over.
pub proof fn lemma_after_break(s: Seq<char>, i: int)
    requires
        0 <= i <= s.len(),
    ensures
        i <= after_break(s, i) <= s.len(),
        i < s.len() ==> i < after_break(s, i),
        ({
            let r = after_break(s, i);
            ||| i < r && ends_line(s, r - 1) && breaks(s, r) == breaks(s, i) + 1
            ||| r == s.len() && breaks(s, r) == breaks(s, i)
        }),
    decreases s.len() - i,
{
    if i < s.len() && !ends_line(s, i) {
        lemma_after_break(s, i + 1);
    }
}

/// With no line end before it, a line end is the next one.
pub proof fn lemma_after_break_is(s: Seq<char>, i: int, r: int)
    requires
        0 <= i < r <= s.len(),
        ends_line(s, r - 1),
        breaks(s, r - 1) == breaks(s, i),
    ensures
        after_break(s, i) == r,
    decreases r - i,
{
    lemma_breaks(s, i, r - 1);
    if i < r - 1 {
        lemma_breaks(s, i, i + 1);
        lemma_breaks(s, i + 1, r - 1);
        lemma_after_break_is(s, i + 1, r);
    }
}

/// A line begins behind as many line ends as its number says.
pub proof fn lemma_line_start(s: Seq<char>, line: int)
    requires
        0 <= line < line_count(s),
    ensures
        0 <= line_start(s, line) <= s.len(),
        breaks(s, line_start(s, line)) == line,
        line > 0 ==> line_start(s, line) > 0 && ends_line(s, line_start(s, line) - 1),
    decreases line,
{
    if line > 0 {
        lemma_line_start(s, line - 1);
        lemma_after_break(s, line_start(s, line - 1));
    }
}

/// The line behind the last one begins where the text ends.
pub proof fn lemma_text_end(s: Seq<char>)
    ensures
        line_start(s, line_count(s)) == s.len(),
        line_count(s) >= 1,
{
    let last = line_count(s) - 1;
    lemma_breaks(s, 0, s.len() as int);
    lemma_line_start(s, last);
    lemma_after_break(s, line_start(s, last));
    lemma_breaks(s, line_start(s, last), s.len() as int);
    let r = after_break(s, line_start(s, last));
    lemma_breaks(s, r, s.len() as int);
}

/// Lines follow one another.
pub proof fn lemma_line_order(s: Seq<char>, line: int)
    requires
        0 <= line < line_count(s),
    ensures
        0 <= line_start(s, line) <= line_start(s, line + 1) <= s.len(),
        0 <= line_len(s, line),
        line_start(s, line) + line_len(s, line) <= line_start(s, line + 1),
{
    lemma_line_start(s, line);
    lemma_after_break(s, line_start(s, line));
}

/// Every line begins no later than a later one.
pub proof fn lemma_line_start_grows(s: Seq<char>, a: int, b: int)
    requires
        0 <= a <= b <= line_count(s),
    ensures
        0 <= line_start(s, a) <= line_start(s, b) <= s.len(),
    decreases b - a,
{
    lemma_text_end(s);
    if a < b {
        lemma_line_start_grows(s, a, b - 1);
        lemma_line_order(s, b - 1);
    } else if a < line_count(s) {
        lemma_line_start(s, a);
    }
}

/// A position lies in the line that has as many line ends before it.
pub proof fn lemma_line_at(s: Seq<char>, i: int)
    requires
        0 <= i <= s.len(),
    ensures
        0 <= breaks(s, i) < line_count(s),
        line_start(s, breaks(s, i)) <= i <= line_start(s, breaks(s, i) + 1),
        i > 0 && ends_line(s, i - 1) ==> line_start(s, breaks(s, i)) == i,
    decreases i,
{
    lemma_breaks(s, 0, i);
    lemma_breaks(s, i, s.len() as int);
    let line = breaks(s, i);
    if i > 0 {
        lemma_line_at(s, i - 1);
        if ends_line(s, i - 1) {
            let before = line_start(s, line - 1);
            lemma_line_start(s, line - 1);
            lemma_after_break_is(s, before, i);
        }
    }
    lemma_line_start(s, line);
    let start = line_start(s, line);
    lemma_after_break(s, start);
    let next = after_break(s, start);
    if next < i {
        lemma_breaks(s, next, i);
        lemma_breaks(s, start, next);
        assert(next < s.len());
        assert(breaks(s, next) == line + 1);
    }
}

// ---------------------------------------------------------------------------
// The rope
// ---------------------------------------------------------------------------

/// `ropey::Rope`, the text storage of the editor.
#[verifier::external_type_specification]
#[verifier::external_body]
pub struct ExRope(Rope);

/// The characters that a rope holds.
pub uninterp spec fn rope_text(rope: Rope) -> Seq<char>;

/// `Rope::from_str` holds the characters of the string.
pub assume_specification[ Rope::from_str ](text: &str) -> (rope: Rope)
    ensures
        rope_text(rope) == text@,
;

/// `Rope::clone` holds the same characters.
pub assume_specification[ <Rope as Clone>::clone ](rope: &Rope) -> (copy: Rope)
    ensures
        rope_text(copy) == rope_text(*rope),
;

/// `Rope::len_chars` counts the characters.
pub assume_specification[ Rope::len_chars ](rope: &Rope) -> (n: usize)
    ensures
        n == rope_text(*rope).len(),
;

/// `Rope::len_lines` counts the lines, one more than there are line ends. The
/// line ends are those of Unicode, which `ends_line` lists.
pub assume_specification[ Rope::len_lines ](rope: &Rope) -> (n: usize)
    ensures
        n == line_count(rope_text(*rope)),
;

/// `Rope::line_to_char` gives the position where a line begins, and the end of
/// the text for the line behind the last. It panics on later lines.
pub assume_specification[ Rope::line_to_char ](rope: &Rope, line_idx: usize) -> (n: usize)
    requires
        line_idx <= line_count(rope_text(*rope)),
    ensures
        n == line_start(rope_text(*rope), line_idx as int),
;

/// `Rope::char_to_line` counts the line ends before a position. It panics on
/// positions behind the end of the text.
pub assume_specification[ Rope::char_to_line ](rope: &Rope, char_idx: usize) -> (n: usize)
    requires
        char_idx <= rope_text(*rope).len(),
    ensures
        n == breaks(rope_text(*rope), char_idx as int),
;

/// `Rope::char` gives one character. It panics outside the text.
pub assume_specification[ Rope::char ](rope: &Rope, char_idx: usize) -> (c: char)
    requires
        char_idx < rope_text(*rope).len(),
    ensures
        c == rope_text(*rope)[char_idx as int],
;

/// `Rope::insert_char` puts one character in at a position. It panics behind
/// the end of the text. The length of a rope is a `usize`.
pub assume_specification[ Rope::insert_char ](rope: &mut Rope, char_idx: usize, ch: char)
    requires
        char_idx <= rope_text(*old(rope)).len(),
    ensures
        rope_text(*final(rope)) == rope_text(*old(rope)).insert(char_idx as int, ch),
        rope_text(*final(rope)).len() <= usize::MAX,
;

/// `Rope::insert` puts a string in at a position. It panics behind the end of
/// the text. The length of a rope is a `usize`.
pub assume_specification[ Rope::insert ](rope: &mut Rope, char_idx: usize, text: &str)
    requires
        char_idx <= rope_text(*old(rope)).len(),
    ensures
        rope_text(*final(rope)) == rope_text(*old(rope)).take(char_idx as int) + text@ + rope_text(
            *old(rope),
        ).skip(char_idx as int),
        rope_text(*final(rope)).len() <= usize::MAX,
;

/// `Rope::slice`, as a string: the characters of a range. It panics where the
/// range ends before it begins or behind the end of the text.
#[verifier::external_body]
pub(crate) fn slice_text(rope: &Rope, from: usize, to: usize) -> (text: String)
    requires
        from <= to <= rope_text(*rope).len(),
    ensures
        text@ == rope_text(*rope).subrange(from as int, to as int),
{
    rope.slice(from..to).to_string()
}

/// `Rope::remove` takes the characters of a range out. It panics where the
/// range ends before it begins or behind the end of the text.
#[verifier::external_body]
pub(crate) fn remove_range(rope: &mut Rope, from: usize, to: usize)
    requires
        from <= to <= rope_text(*old(rope)).len(),
    ensures
        rope_text(*final(rope)) == rope_text(*old(rope)).take(from as int) + rope_text(
            *old(rope),
        ).skip(to as int),
{
    rope.remove(from..to)
}

} // verus!
