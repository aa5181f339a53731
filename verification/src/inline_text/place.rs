//! Places in texts whose lines end with line feeds, or with carriage returns and
//! line feeds.

use vstd::prelude::*;

#[allow(unused_imports)]
use crate::rope::{
    breaks, ends_line, lemma_after_break, lemma_breaks, lemma_line_at, lemma_line_order,
    lemma_line_start, line_chars, line_count, line_len, line_start,
};

verus! {

/// Whether a character has a part in the end of a line.
pub open spec fn is_break(c: char) -> bool {
    ||| '\u{0A}' <= c <= '\u{0D}'
    ||| c == '\u{85}'
    ||| c == '\u{2028}'
    ||| c == '\u{2029}'
}

/// No character has a part in the end of a line.
pub open spec fn unbroken(s: Seq<char>) -> bool {
    forall|i: int| 0 <= i < s.len() ==> !is_break(#[trigger] s[i])
}

/// Lines end with line feeds only. A carriage return may stand before a line feed.
pub open spec fn plain(s: Seq<char>) -> bool {
    forall|i: int| 0 <= i < s.len() && #[trigger] ends_line(s, i) ==> s[i] == '\n'
}

/// A position in the text that does not part a carriage return from its line feed.
pub open spec fn stands(s: Seq<char>, i: int) -> bool {
    0 <= i <= s.len() && !(0 < i < s.len() && s[i - 1] == '\r' && s[i] == '\n')
}

/// The number of line feeds among the first `i` characters.
pub open spec fn feeds(s: Seq<char>, i: int) -> int
    decreases i,
{
    if i <= 0 {
        0
    } else {
        feeds(s, i - 1) + if s[i - 1] == '\n' {
            1int
        } else {
            0int
        }
    }
}

/// The position behind the last line feed among the first `i` characters.
pub open spec fn behind_feed(s: Seq<char>, i: int) -> int
    decreases i,
{
    if i <= 0 || s[i - 1] == '\n' {
        i
    } else {
        behind_feed(s, i - 1)
    }
}

/// Whether the position `i` is at a line and column.
pub open spec fn is_at(s: Seq<char>, i: int, line: int, col: int) -> bool {
    &&& stands(s, i)
    &&& line == feeds(s, i)
    &&& col == i - behind_feed(s, i)
}

/// Texts with a common head have the same line feeds in it.
pub proof fn lemma_same_feeds(s: Seq<char>, t: Seq<char>, i: int)
    requires
        0 <= i,
        forall|k: int| 0 <= k < i ==> #[trigger] s[k] == t[k],
    ensures
        feeds(s, i) == feeds(t, i),
        behind_feed(s, i) == behind_feed(t, i),
    decreases i,
{
    if i > 0 {
        lemma_same_feeds(s, t, i - 1);
        assert(s[i - 1] == t[i - 1]);
    }
}

/// Where the last line feed stands.
pub proof fn lemma_behind_feed(s: Seq<char>, i: int)
    requires
        0 <= i,
    ensures
        0 <= behind_feed(s, i) <= i,
        behind_feed(s, i) > 0 ==> s[behind_feed(s, i) - 1] == '\n',
        forall|k: int| behind_feed(s, i) <= k < i ==> #[trigger] s[k] != '\n',
        feeds(s, i) == feeds(s, behind_feed(s, i)),
    decreases i,
{
    if i > 0 && s[i - 1] != '\n' {
        lemma_behind_feed(s, i - 1);
    }
}

/// Where no line feed stands, the last one stays the last one.
pub proof fn lemma_no_feed(s: Seq<char>, i: int, j: int)
    requires
        0 <= i <= j,
        forall|k: int| i <= k < j ==> #[trigger] s[k] != '\n',
    ensures
        feeds(s, j) == feeds(s, i),
        behind_feed(s, j) == behind_feed(s, i),
    decreases j,
{
    if i < j {
        lemma_no_feed(s, i, j - 1);
    }
}

/// Where only line feeds end lines, they are what is counted.
proof fn lemma_feeds_are_breaks(s: Seq<char>, i: int)
    requires
        0 <= i <= s.len(),
        forall|k: int| 0 <= k < i && #[trigger] ends_line(s, k) ==> s[k] == '\n',
    ensures
        breaks(s, i) == feeds(s, i),
    decreases i,
{
    if i > 0 {
        lemma_feeds_are_breaks(s, i - 1);
        if s[i - 1] == '\n' {
            assert(ends_line(s, i - 1));
        }
    }
}

/// A line begins behind the line feed that comes before it.
pub proof fn lemma_place(s: Seq<char>, i: int)
    requires
        0 <= i <= s.len(),
        forall|k: int|
            0 <= k < behind_feed(s, i) && #[trigger] ends_line(s, k) ==> s[k] == '\n',
    ensures
        0 <= feeds(s, i) < line_count(s),
        line_start(s, feeds(s, i)) == behind_feed(s, i),
        breaks(s, behind_feed(s, i)) == feeds(s, i),
{
    lemma_behind_feed(s, i);
    let b = behind_feed(s, i);
    lemma_feeds_are_breaks(s, b);
    lemma_line_at(s, b);
    if b > 0 {
        assert(ends_line(s, b - 1));
    }
}

/// Before a position that parts no line end stands no carriage return.
pub proof fn lemma_no_return_before(s: Seq<char>, i: int)
    requires
        plain(s),
        stands(s, i),
        i > 0,
    ensures
        s[i - 1] != '\r',
{
    if s[i - 1] == '\r' {
        assert(ends_line(s, i - 1));
    }
}

/// A position that parts no line end is at a column of its line.
pub proof fn lemma_stands(s: Seq<char>, i: int)
    requires
        plain(s),
        stands(s, i),
    ensures
        0 <= feeds(s, i) < line_count(s),
        line_start(s, feeds(s, i)) == behind_feed(s, i),
        0 <= i - behind_feed(s, i) <= line_len(s, feeds(s, i)),
        breaks(s, i) == feeds(s, i),
{
    lemma_behind_feed(s, i);
    lemma_place(s, i);
    lemma_feeds_are_breaks(s, i);
    lemma_line_at(s, i);
    let line = feeds(s, i);
    let start = line_start(s, line);
    let next = line_start(s, line + 1);
    lemma_line_order(s, line);
    if start < next && s[next - 1] == '\n' {
        assert(i != next) by {
            if i == next {
                assert(behind_feed(s, i) == i);
            }
        }
    }
}

/// A line holds no character that has a part in the end of a line.
pub proof fn lemma_line_unbroken(s: Seq<char>, line: int)
    requires
        plain(s),
        0 <= line < line_count(s),
    ensures
        unbroken(line_chars(s, line)),
        forall|k: int|
            line_start(s, line) <= k < line_start(s, line) + line_len(s, line) ==> !is_break(
                #[trigger] s[k],
            ),
{
    let start = line_start(s, line);
    let next = line_start(s, line + 1);
    let end = start + line_len(s, line);
    lemma_line_order(s, line);
    lemma_line_start(s, line);
    lemma_after_break(s, start);
    assert forall|k: int| start <= k < end implies !is_break(#[trigger] s[k]) by {
        let stop = if next > start && ends_line(s, next - 1) {
            next - 1
        } else {
            next
        };
        if stop < next {
            lemma_breaks(s, start, stop);
            assert(s[next - 1] == '\n');
        }
        lemma_breaks(s, start, stop);
        assert(breaks(s, start) == breaks(s, stop));
        assert(k < stop);
        assert(!ends_line(s, k));
        if is_break(s[k]) {
            assert(s[k] == '\r' && k + 1 < s.len() && s[k + 1] == '\n');
            assert(ends_line(s, k + 1));
            assert(k + 1 == next - 1);
        }
    }
    assert forall|k: int| 0 <= k < line_chars(s, line).len() implies !is_break(
        #[trigger] line_chars(s, line)[k],
    ) by {
        assert(line_chars(s, line)[k] == s[start + k]);
    }
}

/// A column of a line is at a position that parts no line end.
pub proof fn lemma_on_line(s: Seq<char>, line: int, col: int)
    requires
        plain(s),
        0 <= line < line_count(s),
        0 <= col <= line_len(s, line),
    ensures
        is_at(s, line_start(s, line) + col, line, col),
        behind_feed(s, line_start(s, line) + col) == line_start(s, line),
{
    let start = line_start(s, line);
    let i = start + col;
    lemma_line_order(s, line);
    lemma_line_start(s, line);
    lemma_line_unbroken(s, line);
    lemma_feeds_are_breaks(s, start);
    lemma_no_feed(s, start, i);
    if start > 0 {
        assert(s[start - 1] == '\n');
    }
    assert(behind_feed(s, start) == start);
    if 0 < i < s.len() && s[i - 1] == '\r' && s[i] == '\n' {
        if col > 0 {
            assert(is_break(s[i - 1]));
        }
    }
}

/// One text in place of a part of another, where no line end is parted.
pub open spec fn spliced(s: Seq<char>, from: int, to: int, new: Seq<char>) -> Seq<char> {
    s.take(from) + new + s.skip(to)
}

/// A part that is replaced leaves the ends of lines as they are.
pub proof fn lemma_spliced(s: Seq<char>, from: int, to: int, new: Seq<char>)
    requires
        plain(s),
        plain(new),
        from <= to,
        stands(s, from),
        stands(s, to),
    ensures
        plain(spliced(s, from, to, new)),
        forall|k: int| stands(new, k) ==> #[trigger] stands(spliced(s, from, to, new), from + k),
        forall|k: int| 0 <= k < from ==> #[trigger] spliced(s, from, to, new)[k] == s[k],
{
    let t = spliced(s, from, to, new);
    let n = new.len();
    if from > 0 {
        lemma_no_return_before(s, from);
    }
    if n > 0 {
        if new[n - 1] == '\r' {
            assert(ends_line(new, n - 1));
        }
    }
    assert forall|k: int| 0 <= k < t.len() && #[trigger] ends_line(t, k) implies t[k] == '\n' by {
        if k < from {
            assert(t[k] == s[k]);
            if k + 1 < from {
                assert(t[k + 1] == s[k + 1]);
            }
            if t[k] != '\n' {
                assert(ends_line(s, k));
            }
        } else if k < from + n {
            assert(t[k] == new[k - from]);
            if k + 1 < from + n {
                assert(t[k + 1] == new[k + 1 - from]);
            }
            if t[k] != '\n' {
                assert(ends_line(new, k - from));
            }
        } else {
            let o = k - from - n + to;
            assert(t[k] == s[o]);
            if k + 1 < t.len() {
                assert(t[k + 1] == s[o + 1]);
            }
            if t[k] != '\n' {
                assert(ends_line(s, o));
            }
        }
    }
    assert forall|k: int| stands(new, k) implies #[trigger] stands(t, from + k) by {
        if k > 0 {
            assert(t[from + k - 1] == new[k - 1]);
            if k < n {
                assert(t[from + k] == new[k]);
            }
        } else if from > 0 {
            assert(t[from - 1] == s[from - 1]);
        }
    }
}

/// A part between positions that part no line end.
pub proof fn lemma_part(s: Seq<char>, from: int, to: int)
    requires
        plain(s),
        from <= to,
        stands(s, from),
        stands(s, to),
    ensures
        plain(s.subrange(from, to)),
{
    let t = s.subrange(from, to);
    assert forall|k: int| 0 <= k < t.len() && #[trigger] ends_line(t, k) implies t[k] == '\n' by {
        assert(t[k] == s[from + k]);
        if k + 1 < t.len() {
            assert(t[k + 1] == s[from + k + 1]);
        } else {
            lemma_no_return_before(s, to);
        }
        if t[k] != '\n' {
            assert(ends_line(s, from + k));
        }
    }
}

/// A text without ends of lines in it, and a line feed, are plain.
pub proof fn lemma_plain_pieces(s: Seq<char>)
    requires
        forall|k: int| 0 <= k < s.len() ==> #[trigger] s[k] == '\n' || !is_break(s[k]),
    ensures
        plain(s),
        forall|k: int| 0 <= k <= s.len() ==> #[trigger] stands(s, k),
{
    assert forall|k: int| 0 <= k <= s.len() implies #[trigger] stands(s, k) by {
        if k > 0 {
            assert(s[k - 1] == '\n' || !is_break(s[k - 1]));
        }
    }
}

} // verus!
