//! What a filled paragraph looks like, and that filling it once more does nothing.

use vstd::prelude::*;

#[allow(unused_imports)]
use crate::inline_text::buffer::{
    common_indent, fill_width, filled, least_indent, len_of, lemma_filled, lemma_filled_width,
    start_of, text_of,
};
#[allow(unused_imports)]
use crate::inline_text::laws::{
    all_unbroken, lemma_at_index, lemma_first_indent_unbroken, lemma_join_pieces, lemma_line_texts,
};
#[allow(unused_imports)]
use crate::inline_text::model::{
    first_indent, less, lesser, line_texts, paragraph_words, refilled, removed, EditorState,
};
#[allow(unused_imports)]
use crate::inline_text::place::{
    behind_feed, feeds, is_break, lemma_line_unbroken, lemma_no_feed, lemma_on_line, lemma_place,
    lemma_plain_pieces, lemma_same_feeds, lemma_spliced, plain, spliced, stands, unbroken,
};
#[allow(unused_imports)]
use crate::inline_text::reflow::{
    all_words, are_words, is_word, law_refill_keeps_words, lemma_all_are_words,
    lemma_all_words_push, lemma_blank_words, lemma_common_indent_least, lemma_filled_words,
    lemma_first_indent_blank, lemma_indented, lemma_word, lemma_words_concat,
};
#[allow(unused_imports)]
use crate::rope::{
    after_break, breaks, ends_line, lemma_after_break, lemma_after_break_is, lemma_breaks,
    lemma_line_order, lemma_line_start, lemma_line_start_grows, line_chars, line_count, line_len,
    line_start,
};
#[allow(unused_imports)]
use crate::text::{decimal, indent_of, is_blank, is_space, join, trim_start, words};

verus! {

// ---------------------------------------------------------------------------
// Lines that are laid out
// ---------------------------------------------------------------------------

/// A line is an indent and words with a space between them, and is no wider than
/// `width` where there is more than one word.
pub open spec fn line_laid(line: Seq<char>, indent: Seq<char>, width: int) -> bool {
    &&& words(line).len() > 0
    &&& are_words(words(line))
    &&& line == indent + join(words(line), " "@)
    &&& words(line).len() > 1 ==> line.len() <= width
}

/// Every line is laid out, and the first word of each had no room in the line
/// before.
pub open spec fn laid(lines: Seq<Seq<char>>, indent: Seq<char>, width: int) -> bool {
    &&& forall|i: int| 0 <= i < lines.len() ==> line_laid(#[trigger] lines[i], indent, width)
    &&& forall|i: int|
        0 < i < lines.len() ==> lines[i - 1].len() + 1 + words(#[trigger] lines[i])[0].len() > width
}

/// One more text behind joined texts.
proof fn lemma_join_push(list: Seq<Seq<char>>, text: Seq<char>, sep: Seq<char>)
    requires
        list.len() > 0,
    ensures
        join(list.push(text), sep) == join(list, sep) + sep + text,
{
    assert(list.push(text).drop_last() =~= list);
}

/// Joined texts, joined.
proof fn lemma_join_concat(a: Seq<Seq<char>>, b: Seq<Seq<char>>, sep: Seq<char>)
    requires
        a.len() > 0,
        b.len() > 0,
    ensures
        join(a + b, sep) == join(a, sep) + sep + join(b, sep),
    decreases b.len(),
{
    let rest = b.drop_last();
    assert((a + rest).push(b.last()) =~= a + b);
    lemma_join_push(a + rest, b.last(), sep);
    if rest.len() > 0 {
        lemma_join_concat(a, rest, sep);
        assert(rest.push(b.last()) =~= b);
        lemma_join_push(rest, b.last(), sep);
        assert(join(a + b, sep) =~= join(a, sep) + sep + join(b, sep));
    } else {
        assert(a + rest =~= a);
    }
}

/// The first of some joined texts begins them.
proof fn lemma_join_head(list: Seq<Seq<char>>, sep: Seq<char>, n: int)
    requires
        0 < n <= list.len(),
    ensures
        join(list.take(n), sep).len() <= join(list, sep).len(),
        join(list, sep).take(join(list.take(n), sep).len() as int) == join(list.take(n), sep),
{
    if n < list.len() {
        assert(list.take(n) + list.skip(n) =~= list);
        lemma_join_concat(list.take(n), list.skip(n), sep);
    } else {
        assert(list.take(n) =~= list);
    }
    assert(join(list, sep).take(join(list.take(n), sep).len() as int) =~= join(list.take(n), sep));
}

/// A layout of words is laid out.
proof fn lemma_filled_laid(list: Seq<Seq<char>>, indent: Seq<char>, width: int)
    requires
        list.len() > 0,
        are_words(list),
        is_blank(indent),
        indent.len() < width,
    ensures
        laid(filled(list, indent, width), indent, width),
    decreases list.len(),
{
    reveal_strlit(" ");
    let all = filled(list, indent, width);
    let rest = list.drop_last();
    let word = list.last();
    assert(is_word(list[list.len() - 1]));
    lemma_indented(indent, word);
    let alone = seq![word];
    assert(join(alone, " "@) == word);
    assert(is_word(alone[0]));
    assert(line_laid(indent + word, indent, width));
    let before = filled(rest, indent, width);
    if rest.len() == 0 {
        assert(before == seq![indent]);
        assert(all =~= seq![indent + word]);
    } else {
        assert forall|i: int| 0 <= i < rest.len() implies is_word(#[trigger] rest[i]) by {
            assert(rest[i] == list[i]);
        }
        assert forall|i: int| 0 <= i < rest.len() implies (#[trigger] rest[i]).len() > 0 by {
            assert(is_word(rest[i]));
        }
        lemma_filled_laid(rest, indent, width);
        lemma_filled(rest, indent, width);
        lemma_filled_width(rest, indent, width);
        let line = before.last();
        assert(line_laid(before[before.len() - 1], indent, width));
        if line.len() + 1 + word.len() > width {
            assert(all =~= before.push(indent + word));
            assert forall|i: int| 0 <= i < all.len() implies line_laid(
                #[trigger] all[i],
                indent,
                width,
            ) by {
                if i < before.len() {
                    assert(all[i] == before[i]);
                }
            }
            assert forall|i: int| 0 < i < all.len() implies all[i - 1].len() + 1 + words(
                #[trigger] all[i],
            )[0].len() > width by {
                if i < before.len() {
                    assert(all[i] == before[i]);
                    assert(all[i - 1] == before[i - 1]);
                }
            }
        } else {
            let longer = line + seq![' '] + word;
            let ws = words(line);
            lemma_longer_words(line, word);
            lemma_join_push(ws, word, " "@);
            assert(seq![' '] =~= " "@);
            assert(longer =~= indent + join(ws.push(word), " "@));
            assert forall|i: int| 0 <= i < ws.push(word).len() implies is_word(
                #[trigger] ws.push(word)[i],
            ) by {
                if i < ws.len() {
                    assert(is_word(ws[i]));
                }
            }
            assert(line_laid(longer, indent, width));
            assert(all =~= before.drop_last().push(longer));
            assert(all.len() == before.len());
            assert forall|i: int| 0 <= i < all.len() implies line_laid(
                #[trigger] all[i],
                indent,
                width,
            ) by {
                if i < before.len() - 1 {
                    assert(all[i] == before[i]);
                }
            }
            assert forall|i: int| 0 < i < all.len() implies all[i - 1].len() + 1 + words(
                #[trigger] all[i],
            )[0].len() > width by {
                assert(all[i - 1] == before[i - 1]);
                if i < before.len() - 1 {
                    assert(all[i] == before[i]);
                }
            }
        }
    }
}

/// One more word behind a line.
proof fn lemma_longer_words(line: Seq<char>, word: Seq<char>)
    requires
        is_word(word),
    ensures
        words(line + seq![' '] + word) == words(line).push(word),
{
    assert(is_blank(seq![' ']));
    lemma_blank_words(seq![' ']);
    lemma_words_concat(line, seq![' ']);
    assert((line + seq![' ']).last() == ' ');
    lemma_words_concat(line + seq![' '], word);
    lemma_word(word);
    assert(words(line) + words(seq![' ']) =~= words(line));
    assert(words(line + seq![' '] + word) =~= words(line).push(word));
}

/// A line that is laid out is wider than its indent.
proof fn lemma_line_laid(line: Seq<char>, indent: Seq<char>, width: int)
    requires
        line_laid(line, indent, width),
    ensures
        line.len() > indent.len(),
        !is_space(line[indent.len() as int]),
{
    let ws = words(line);
    lemma_join_head(ws, " "@, 1);
    let one = ws.take(1);
    assert(join(one, " "@) == ws[0]);
    assert(is_word(ws[0]));
    assert(line[indent.len() as int] == join(ws, " "@)[0]);
    assert(join(ws, " "@)[0] == join(ws, " "@).take(ws[0].len() as int)[0]);
    assert(!is_space(ws[0][0]));
}

/// The words of a line that has room for them fill it.
proof fn lemma_words_fill_line(
    lines: Seq<Seq<char>>,
    line: Seq<char>,
    indent: Seq<char>,
    width: int,
    n: int,
)
    requires
        indent.len() < width,
        line_laid(line, indent, width),
        lines.len() == 0 || (filled(all_words(lines), indent, width) == lines && lines.last().len()
            > indent.len() && lines.last().len() + 1 + words(line)[0].len() > width),
        0 < n <= words(line).len(),
    ensures
        filled(all_words(lines) + words(line).take(n), indent, width) == lines.push(
            indent + join(words(line).take(n), " "@),
        ),
    decreases n,
{
    reveal_strlit(" ");
    let ws = words(line);
    let all = all_words(lines) + ws.take(n);
    let before = all_words(lines) + ws.take(n - 1);
    let word = ws[n - 1];
    assert(all.drop_last() =~= before);
    assert(all.last() == word);
    assert(is_word(ws[n - 1]));
    if n == 1 {
        assert(before =~= all_words(lines));
        assert(join(ws.take(1), " "@) == word);
        if lines.len() == 0 {
            assert(filled(before, indent, width) == seq![indent]);
            assert(filled(all, indent, width) =~= lines.push(indent + word));
        }
    } else {
        lemma_words_fill_line(lines, line, indent, width, n - 1);
        let part = indent + join(ws.take(n - 1), " "@);
        assert(filled(before, indent, width) == lines.push(part));
        assert(ws.take(n - 1).push(word) =~= ws.take(n));
        lemma_join_push(ws.take(n - 1), word, " "@);
        lemma_join_head(ws, " "@, n);
        lemma_join_head(ws.take(n - 1), " "@, 1);
        assert(ws.take(n - 1).take(1)[0] == ws[0]);
        assert(is_word(ws[0]));
        assert(part.len() > indent.len());
        assert(part + seq![' '] + word =~= indent + join(ws.take(n), " "@));
        assert(part.len() + 1 + word.len() <= line.len());
        assert(lines.push(part).last() == part);
        assert(lines.push(part).drop_last() =~= lines);
    }
}

/// The words of lines that are laid out fill just those lines.
proof fn lemma_laid_again(lines: Seq<Seq<char>>, indent: Seq<char>, width: int)
    requires
        lines.len() > 0,
        laid(lines, indent, width),
        indent.len() < width,
    ensures
        filled(all_words(lines), indent, width) == lines,
    decreases lines.len(),
{
    let before = lines.drop_last();
    let line = lines.last();
    let last = lines.len() - 1;
    assert(line_laid(lines[last], indent, width));
    if before.len() > 0 {
        lemma_laid_part(lines, indent, width, 0, last);
        assert(lines.subrange(0, last) =~= before);
        lemma_laid_again(before, indent, width);
        assert(lines[last - 1] == before.last());
        assert(line_laid(lines[last - 1], indent, width));
        lemma_line_laid(before.last(), indent, width);
        assert(words(lines[last])[0] == words(line)[0]);
    }
    let ws = words(line);
    lemma_words_fill_line(before, line, indent, width, ws.len() as int);
    assert(ws.take(ws.len() as int) =~= ws);
    assert(before.push(line) =~= lines);
    lemma_all_words_push(before, line);
}

/// Some of the lines of a layout are laid out.
proof fn lemma_laid_part(lines: Seq<Seq<char>>, indent: Seq<char>, width: int, a: int, b: int)
    requires
        laid(lines, indent, width),
        0 <= a <= b <= lines.len(),
    ensures
        laid(lines.subrange(a, b), indent, width),
{
    let part = lines.subrange(a, b);
    assert forall|i: int| 0 <= i < part.len() implies line_laid(
        #[trigger] part[i],
        indent,
        width,
    ) by {
        assert(part[i] == lines[a + i]);
    }
    assert forall|i: int| 0 < i < part.len() implies part[i - 1].len() + 1 + words(
        #[trigger] part[i],
    )[0].len() > width by {
        assert(part[i] == lines[a + i]);
        assert(part[i - 1] == lines[a + i - 1]);
    }
}

/// White space before a character that is none is all that is trimmed.
proof fn lemma_trim_indent(indent: Seq<char>, rest: Seq<char>)
    requires
        is_blank(indent),
        rest.len() > 0,
        !is_space(rest[0]),
    ensures
        trim_start(indent + rest) == rest,
        indent_of(indent + rest) == indent.len(),
        !is_blank(indent + rest),
    decreases indent.len(),
{
    let s = indent + rest;
    assert(s[indent.len() as int] == rest[0]);
    if indent.len() > 0 {
        let shorter = indent.drop_first();
        assert forall|i: int| 0 <= i < shorter.len() implies is_space(#[trigger] shorter[i]) by {
            assert(shorter[i] == indent[i + 1]);
        }
        assert(is_space(indent[0]));
        assert(s[0] == indent[0]);
        assert(s.drop_first() =~= shorter + rest);
        lemma_trim_indent(shorter, rest);
    } else {
        assert(s =~= rest);
    }
}

/// Lines that are laid out have their indent in common.
proof fn lemma_laid_indent(lines: Seq<Seq<char>>, indent: Seq<char>, width: int)
    requires
        lines.len() > 0,
        laid(lines, indent, width),
        is_blank(indent),
    ensures
        least_indent(lines) == Some(indent.len() as int),
        first_indent(lines, indent.len() as int) == indent,
        forall|i: int| 0 <= i < lines.len() ==> !is_blank(#[trigger] lines[i]),
    decreases lines.len(),
{
    let last = lines.len() - 1;
    assert forall|i: int| 0 <= i < lines.len() implies !is_blank(#[trigger] lines[i])
        && indent_of(lines[i]) == indent.len() && lines[i].len() > indent.len()
        && lines[i].take(indent.len() as int) == indent by {
        let line = lines[i];
        assert(line_laid(line, indent, width));
        lemma_line_laid(line, indent, width);
        let rest = join(words(line), " "@);
        assert(rest[0] == line[indent.len() as int]);
        lemma_trim_indent(indent, rest);
        assert(line.take(indent.len() as int) =~= indent);
    }
    assert(!is_blank(lines[last]));
    assert(!is_blank(lines[0]));
    if last > 0 {
        lemma_laid_part(lines, indent, width, 0, last);
        assert(lines.subrange(0, last) =~= lines.drop_last());
        lemma_laid_indent(lines.drop_last(), indent, width);
    }
}

/// Lines that are laid out stay as they are when they are laid out anew.
proof fn lemma_refilled_laid(lines: Seq<Seq<char>>, indent: Seq<char>, column: int)
    requires
        lines.len() > 0,
        laid(lines, indent, fill_width(indent, column)),
        is_blank(indent),
    ensures
        refilled(lines, column) == join(lines, "\n"@),
        paragraph_words(lines).len() > 0,
{
    let width = fill_width(indent, column);
    lemma_laid_indent(lines, indent, width);
    law_refill_keeps_words(lines, column);
    lemma_laid_again(lines, indent, width);
    let last = lines.len() - 1;
    assert(line_laid(lines[last], indent, width));
    assert(words(lines.last()).len() > 0);
}

// ---------------------------------------------------------------------------
// Lines put into a text
// ---------------------------------------------------------------------------

/// Where line `i` of some joined lines begins.
pub open spec fn offset(list: Seq<Seq<char>>, i: int) -> int {
    if i <= 0 {
        0
    } else {
        join(list.take(i), "\n"@).len() as int + 1
    }
}

/// The length of joined lines.
proof fn lemma_offset(list: Seq<Seq<char>>, i: int)
    requires
        0 <= i < list.len(),
    ensures
        join(list.take(i + 1), "\n"@).len() == offset(list, i) + list[i].len(),
        offset(list, i + 1) == offset(list, i) + list[i].len() + 1,
        0 <= offset(list, i),
        offset(list, i) + list[i].len() <= join(list, "\n"@).len(),
        join(list, "\n"@).subrange(offset(list, i), offset(list, i) + list[i].len()) == list[i],
        i + 1 < list.len() ==> {
            &&& offset(list, i + 1) <= join(list, "\n"@).len()
            &&& join(list, "\n"@)[offset(list, i) + list[i].len()] == '\n'
        },
        i + 1 == list.len() ==> offset(list, i) + list[i].len() == join(list, "\n"@).len(),
{
    reveal_strlit("\n");
    let all = join(list, "\n"@);
    let head = join(list.take(i + 1), "\n"@);
    if i > 0 {
        assert(list.take(i).push(list[i]) =~= list.take(i + 1));
        lemma_join_push(list.take(i), list[i], "\n"@);
    } else {
        assert(list.take(1)[0] == list[0]);
    }
    lemma_join_head(list, "\n"@, i + 1);
    assert(head.subrange(offset(list, i), head.len() as int) =~= list[i]);
    assert(all.subrange(offset(list, i), head.len() as int) =~= all.take(
        head.len() as int,
    ).subrange(offset(list, i), head.len() as int));
    if i + 1 < list.len() {
        let longer = join(list.take(i + 2), "\n"@);
        assert(list.take(i + 1).push(list[i + 1]) =~= list.take(i + 2));
        lemma_join_push(list.take(i + 1), list[i + 1], "\n"@);
        lemma_join_head(list, "\n"@, i + 2);
        assert(all[head.len() as int] == all.take(longer.len() as int)[head.len() as int]);
        assert(longer[head.len() as int] == '\n');
    } else {
        assert(list.take(i + 1) =~= list);
    }
}

/// Some of joined lines are those lines joined.
proof fn lemma_joined_part(list: Seq<Seq<char>>, a: int, b: int)
    requires
        0 <= a < b <= list.len(),
    ensures
        0 <= offset(list, a) <= offset(list, b - 1) + list[b - 1].len() <= join(list, "\n"@).len(),
        join(list, "\n"@).subrange(offset(list, a), offset(list, b - 1) + list[b - 1].len())
            == join(list.subrange(a, b), "\n"@),
{
    reveal_strlit("\n");
    let all = join(list, "\n"@);
    let head = join(list.take(b), "\n"@);
    let part = join(list.subrange(a, b), "\n"@);
    lemma_offset(list, a);
    lemma_offset(list, b - 1);
    lemma_join_head(list, "\n"@, b);
    if a > 0 {
        assert(list.take(a) + list.subrange(a, b) =~= list.take(b));
        lemma_join_concat(list.take(a), list.subrange(a, b), "\n"@);
    } else {
        assert(list.subrange(a, b) =~= list.take(b));
    }
    assert(head.len() == offset(list, a) + part.len());
    assert(head.subrange(offset(list, a), head.len() as int) =~= part);
    assert(all.subrange(offset(list, a), head.len() as int) =~= all.take(
        head.len() as int,
    ).subrange(offset(list, a), head.len() as int));
}

proof fn lemma_feeds_grow(s: Seq<char>, i: int, j: int)
    requires
        0 <= i <= j,
    ensures
        feeds(s, i) <= feeds(s, j),
    decreases j,
{
    if i < j {
        lemma_feeds_grow(s, i, j - 1);
    }
}

proof fn lemma_no_breaks(s: Seq<char>, i: int, j: int)
    requires
        0 <= i <= j,
        forall|k: int| i <= k < j ==> !#[trigger] ends_line(s, k),
    ensures
        breaks(s, j) == breaks(s, i),
    decreases j,
{
    if i < j {
        lemma_no_breaks(s, i, j - 1);
        assert(!ends_line(s, j - 1));
    }
}

/// A line goes from `a` to `b`: it begins there, no line ends within it, and the
/// text or the line ends behind it.
pub open spec fn spans(s: Seq<char>, a: int, b: int) -> bool {
    &&& 0 <= a <= b <= s.len()
    &&& behind_feed(s, a) == a
    &&& forall|k: int| a <= k < b ==> !is_break(#[trigger] s[k])
    &&& b < s.len() ==> s[b] == '\n' || (b + 1 < s.len() && s[b] == '\r' && s[b + 1] == '\n')
}

/// Where the line behind the one that ends at `b` begins.
pub open spec fn behind_end(s: Seq<char>, b: int) -> int {
    if b >= s.len() {
        s.len() as int
    } else if s[b] == '\n' {
        b + 1
    } else {
        b + 2
    }
}

/// What goes from the start of a line to its end is a line.
proof fn lemma_spans_line(s: Seq<char>, a: int, b: int)
    requires
        plain(s),
        spans(s, a, b),
    ensures
        0 <= feeds(s, a) < line_count(s),
        line_start(s, feeds(s, a)) == a,
        line_len(s, feeds(s, a)) == b - a,
        line_chars(s, feeds(s, a)) == s.subrange(a, b),
        b == s.len() ==> feeds(s, a) + 1 == line_count(s),
        b < s.len() ==> {
            let next = behind_end(s, b);
            &&& next <= s.len()
            &&& behind_feed(s, next) == next
            &&& feeds(s, next) == feeds(s, a) + 1
            &&& feeds(s, a) + 1 < line_count(s)
        },
{
    lemma_place(s, a);
    let line = feeds(s, a);
    assert forall|k: int| a <= k < b implies !#[trigger] ends_line(s, k) by {
        assert(!is_break(s[k]));
    }
    lemma_no_breaks(s, a, b);
    let next = behind_end(s, b);
    if b < s.len() {
        assert(ends_line(s, next - 1));
        if s[b] == '\r' {
            assert(!ends_line(s, b));
            lemma_no_breaks(s, a, b + 1);
            assert(s[b] != '\n');
        }
        lemma_after_break_is(s, a, next);
        assert forall|k: int| a <= k < next - 1 implies #[trigger] s[k] != '\n' by {
            if k < b {
                assert(!is_break(s[k]));
            }
        }
        lemma_no_feed(s, a, next - 1);
        lemma_place(s, next);
        if b > a {
            assert(!is_break(s[b - 1]));
        }
    } else {
        lemma_after_break(s, a);
        let r = after_break(s, a);
        if a < r && ends_line(s, r - 1) {
            assert(!ends_line(s, r - 1));
        }
        if a < b {
            assert(!is_break(s[b - 1]));
        }
    }
    assert(line_start(s, line + 1) == next);
}

/// A line goes from its start to its end.
proof fn lemma_line_spans(s: Seq<char>, line: int)
    requires
        plain(s),
        0 <= line < line_count(s),
    ensures
        spans(s, line_start(s, line), line_start(s, line) + line_len(s, line)),
        feeds(s, line_start(s, line)) == line,
        line_start(s, line + 1) == behind_end(s, line_start(s, line) + line_len(s, line)),
        (line_start(s, line) + line_len(s, line) == s.len()) == (line + 1 == line_count(s)),
{
    let a = line_start(s, line);
    let b = a + line_len(s, line);
    let next = line_start(s, line + 1);
    lemma_line_order(s, line);
    lemma_line_start(s, line);
    lemma_on_line(s, line, 0);
    lemma_line_unbroken(s, line);
    lemma_after_break(s, a);
    if a < next && ends_line(s, next - 1) {
        assert(s[next - 1] == '\n');
    } else {
        assert(next == s.len());
        lemma_breaks(s, a, s.len() as int);
        if a < next && s[next - 1] == '\n' {
            assert(ends_line(s, next - 1));
        }
    }
    lemma_spans_line(s, a, b);
}

/// Lines of a text replaced by others: what stands where.
proof fn lemma_splice(s: Seq<char>, first: int, end: int, out: Seq<Seq<char>>)
    requires
        plain(s),
        0 <= first < end <= line_count(s),
        out.len() > 0,
        all_unbroken(out),
    ensures
        ({
            let from = line_start(s, first);
            let to = line_start(s, end - 1) + line_len(s, end - 1);
            let new = join(out, "\n"@);
            let t = spliced(s, from, to, new);
            &&& 0 <= from <= to <= s.len()
            &&& plain(t)
            &&& t.len() == from + new.len() + s.len() - to
            &&& forall|k: int| 0 <= k <= new.len() ==> #[trigger] stands(t, from + k)
            &&& t.subrange(from, from + new.len()) == new
            &&& forall|k: int| 0 <= k < from ==> #[trigger] s[k] == t[k]
            &&& forall|k: int|
                to <= k < s.len() ==> t[k + (from + new.len() - to)] == #[trigger] s[k]
            &&& behind_feed(t, from) == from
            &&& feeds(t, from) == first
            &&& to < s.len() ==> t[from + new.len()] == '\n' || (from + new.len() + 1 < t.len()
                && t[from + new.len() as int] == '\r' && t[from + new.len() + 1] == '\n')
        }),
{
    let from = line_start(s, first);
    let to = line_start(s, end - 1) + line_len(s, end - 1);
    let new = join(out, "\n"@);
    let n = new.len() as int;
    let t = spliced(s, from, to, new);
    lemma_line_order(s, first);
    lemma_line_order(s, end - 1);
    lemma_line_start_grows(s, first, end - 1);
    lemma_on_line(s, first, 0);
    lemma_on_line(s, end - 1, line_len(s, end - 1));
    lemma_join_pieces(out);
    lemma_plain_pieces(new);
    lemma_spliced(s, from, to, new);
    assert forall|k: int| 0 <= k <= new.len() implies #[trigger] stands(t, from + k) by {
        assert(stands(new, k));
    }
    assert(t.subrange(from, from + n) =~= new);
    assert forall|k: int| 0 <= k < from implies #[trigger] s[k] == t[k] by {}
    lemma_same_feeds(s, t, from);
    lemma_line_spans(s, end - 1);
    assert forall|k: int| to <= k < s.len() implies t[k + (from + n - to)] == #[trigger] s[k] by {}
    if to < s.len() {
        assert(t[to + (from + n - to)] == s[to]);
        if s[to] != '\n' {
            assert(t[to + 1 + (from + n - to)] == s[to + 1]);
        }
    }
}

/// The line before those that were replaced is as before.
proof fn lemma_line_before(s: Seq<char>, t: Seq<char>, first: int)
    requires
        plain(s),
        plain(t),
        0 < first < line_count(s),
        line_start(s, first) <= t.len(),
        forall|k: int| 0 <= k < line_start(s, first) ==> #[trigger] s[k] == t[k],
    ensures
        line_chars(t, first - 1) == line_chars(s, first - 1),
        first - 1 < line_count(t),
{
    let from = line_start(s, first);
    lemma_line_start_grows(s, first, first);
    lemma_line_spans(s, first - 1);
    lemma_line_order(s, first - 1);
    let a = line_start(s, first - 1);
    let b = a + line_len(s, first - 1);
    lemma_same_feeds(s, t, a);
    assert(b < from);
    assert(spans(t, a, b)) by {
        assert(s[b] == t[b]);
        if s[b] != '\n' {
            assert(s[b + 1] == t[b + 1]);
        }
        assert forall|k: int| a <= k < b implies !is_break(#[trigger] t[k]) by {
            assert(s[k] == t[k]);
        }
    }
    lemma_spans_line(t, a, b);
    assert(t.subrange(a, b) =~= s.subrange(a, b));
}

/// The line behind those that were replaced is as before.
proof fn lemma_line_behind(s: Seq<char>, t: Seq<char>, end: int, start: int, stop: int)
    requires
        plain(s),
        plain(t),
        0 < end < line_count(s),
        spans(t, start, stop),
        ({
            let to = line_start(s, end - 1) + line_len(s, end - 1);
            &&& t.len() == s.len() + (stop - to)
            &&& forall|k: int| to <= k < s.len() ==> t[k + (stop - to)] == #[trigger] s[k]
        }),
    ensures
        feeds(t, start) + 1 < line_count(t),
        line_chars(t, feeds(t, start) + 1) == line_chars(s, end),
{
    let to = line_start(s, end - 1) + line_len(s, end - 1);
    let d = stop - to;
    lemma_line_spans(s, end - 1);
    lemma_line_spans(s, end);
    lemma_line_order(s, end - 1);
    lemma_line_order(s, end);
    let a = line_start(s, end);
    let b = a + line_len(s, end);
    assert(t[to + d] == s[to]);
    assert(behind_end(t, stop) == a + d);
    lemma_spans_line(t, start, stop);
    assert(spans(t, a + d, b + d)) by {
        if b < s.len() {
            assert(t[b + d] == s[b]);
            if s[b] != '\n' {
                assert(t[b + 1 + d] == s[b + 1]);
            }
        }
        assert forall|k: int| a + d <= k < b + d implies !is_break(#[trigger] t[k]) by {
            assert(t[(k - d) + d] == s[k - d]);
        }
    }
    lemma_spans_line(t, a + d, b + d);
    assert(t.subrange(a + d, b + d) =~= s.subrange(a, b)) by {
        assert forall|k: int| 0 <= k < b - a implies t.subrange(a + d, b + d)[k] == s.subrange(
            a,
            b,
        )[k] by {
            assert(t[(a + k) + d] == s[a + k]);
        }
    }
}

/// Line `first + i` of a text is line `i` of those put in at `from`.
pub open spec fn put(t: Seq<char>, from: int, first: int, out: Seq<Seq<char>>, i: int) -> bool {
    &&& line_start(t, first + i) == from + offset(out, i)
    &&& line_len(t, first + i) == out[i].len()
    &&& line_chars(t, first + i) == out[i]
}

/// Lines of a text replaced by others: the others stand in their place, and the
/// lines before and behind are as before.
proof fn lemma_lines_spliced(s: Seq<char>, first: int, end: int, out: Seq<Seq<char>>)
    requires
        plain(s),
        0 <= first < end <= line_count(s),
        out.len() > 0,
        all_unbroken(out),
    ensures
        ({
            let from = line_start(s, first);
            let to = line_start(s, end - 1) + line_len(s, end - 1);
            let new = join(out, "\n"@);
            let t = spliced(s, from, to, new);
            &&& first + out.len() <= line_count(t)
            &&& forall|i: int|
                0 <= i < out.len() ==> #[trigger] put(t, from, first, out, i)
            &&& forall|k: int|
                0 <= k <= new.len() ==> first <= #[trigger] feeds(t, from + k) < first + out.len()
            &&& first > 0 ==> line_chars(t, first - 1) == line_chars(s, first - 1)
            &&& end == line_count(s) ==> first + out.len() == line_count(t)
            &&& end < line_count(s) ==> {
                &&& first + out.len() < line_count(t)
                &&& line_chars(t, first + out.len()) == line_chars(s, end)
            }
        }),
{
    let from = line_start(s, first);
    let to = line_start(s, end - 1) + line_len(s, end - 1);
    let new = join(out, "\n"@);
    let n = new.len() as int;
    let t = spliced(s, from, to, new);
    let last = out.len() - 1;
    lemma_splice(s, first, end, out);
    assert forall|i: int| 0 <= i < out.len() implies #[trigger] put(t, from, first, out, i) by {
        lemma_out_line(t, from, first, out, i);
    }
    lemma_out_line(t, from, first, out, last);
    lemma_offset(out, last);
    let start = from + offset(out, last);
    assert forall|k: int| 0 <= k <= new.len() implies first <= #[trigger] feeds(t, from + k)
        < first + out.len() by {
        lemma_feeds_grow(t, from, from + k);
        lemma_feeds_grow(t, from + k, from + n);
        lemma_on_line(t, first + last, out[last].len() as int);
    }
    if first > 0 {
        lemma_line_before(s, t, first);
    }
    lemma_line_spans(s, end - 1);
    lemma_spans_line(t, start, from + n);
    let next = first + out.len();
    assert(feeds(t, start) + 1 == next);
    if end < line_count(s) {
        lemma_line_behind(s, t, end, start, from + n);
        assert(line_chars(t, next) == line_chars(s, end));
    }
}

/// A line among those put in place of others.
proof fn lemma_out_line(
    t: Seq<char>,
    from: int,
    first: int,
    out: Seq<Seq<char>>,
    i: int,
)
    requires
        plain(t),
        0 <= from,
        0 <= i < out.len(),
        from + join(out, "\n"@).len() <= t.len(),
        t.subrange(from, from + join(out, "\n"@).len()) == join(out, "\n"@),
        behind_feed(t, from) == from,
        feeds(t, from) == first,
        forall|k: int| 0 <= k < out.len() ==> unbroken(#[trigger] out[k]),
        ({
            let b = from + join(out, "\n"@).len();
            b < t.len() ==> t[b] == '\n' || (b + 1 < t.len() && t[b] == '\r' && t[b + 1] == '\n')
        }),
    ensures
        line_start(t, first + i) == from + offset(out, i),
        line_len(t, first + i) == out[i].len(),
        line_chars(t, first + i) == out[i],
        0 <= first + i < line_count(t),
        spans(t, from + offset(out, i), from + offset(out, i) + out[i].len()),
        feeds(t, from + offset(out, i)) == first + i,
    decreases i,
{
    let new = join(out, "\n"@);
    let a = from + offset(out, i);
    let b = a + out[i].len();
    lemma_offset(out, i);
    if i > 0 {
        lemma_out_line(t, from, first, out, i - 1);
        lemma_offset(out, i - 1);
        let c = a - 1;
        assert(t[c] == new[c - from]) by {
            assert(t.subrange(from, from + new.len())[c - from] == t[c]);
        }
        lemma_spans_line(t, from + offset(out, i - 1), c);
    }
    assert forall|k: int| a <= k < b implies !is_break(#[trigger] t[k]) by {
        assert(t.subrange(from, from + new.len())[k - from] == t[k]);
        assert(new.subrange(offset(out, i), offset(out, i) + out[i].len())[k - a] == new[k - from]);
        assert(unbroken(out[i]));
        assert(!is_break(out[i][k - a]));
    }
    if i + 1 < out.len() {
        assert(t.subrange(from, from + new.len())[b - from] == t[b]);
    }
    lemma_spans_line(t, a, b);
    assert(t.subrange(a, b) =~= out[i]) by {
        assert forall|k: int| 0 <= k < out[i].len() implies t.subrange(a, b)[k] == out[i][k] by {
            assert(t.subrange(from, from + new.len())[a + k - from] == t[a + k]);
            assert(new.subrange(offset(out, i), offset(out, i) + out[i].len())[k] == new[a + k
                - from]);
        }
    }
}

// ---------------------------------------------------------------------------
// Paragraphs
// ---------------------------------------------------------------------------

/// Lines of a text, one by one.
proof fn lemma_line_texts_are(s: Seq<char>, from: int, to: int)
    requires
        from <= to,
    ensures
        line_texts(s, from, to).len() == to - from,
        forall|i: int|
            0 <= i < to - from ==> #[trigger] line_texts(s, from, to)[i] == text_of(s, from + i),
    decreases to - from,
{
    if from < to {
        lemma_line_texts_are(s, from, to - 1);
    }
}

/// A text that is not blank has a word.
proof fn lemma_has_word(s: Seq<char>)
    requires
        !is_blank(s),
    ensures
        words(s).len() > 0,
    decreases s.len(),
{
    let rest = s.drop_last();
    if is_space(s.last()) {
        if is_blank(rest) {
            assert forall|i: int| 0 <= i < s.len() implies is_space(#[trigger] s[i]) by {
                if i < rest.len() {
                    assert(rest[i] == s[i]);
                }
            }
        }
        lemma_has_word(rest);
    }
}

/// Texts have a word where one of them has one.
proof fn lemma_have_word(list: Seq<Seq<char>>, i: int)
    requires
        0 <= i < list.len(),
        words(list[i]).len() > 0,
    ensures
        all_words(list).len() > 0,
    decreases list.len(),
{
    if i < list.len() - 1 {
        lemma_have_word(list.drop_last(), i);
    }
}

/// The lines from the first one of a paragraph on belong to it.
proof fn lemma_start_open(state: EditorState, line: int)
    requires
        0 <= line,
        !state.bars_paragraph(line),
    ensures
        0 <= state.paragraph_start(line) <= line,
        !state.bars_paragraph(state.paragraph_start(line)),
        state.paragraph_start(line) > 0 ==> state.bars_paragraph(state.paragraph_start(line) - 1),
    decreases line,
{
    if line > 0 && !state.bars_paragraph(line - 1) {
        lemma_start_open(state, line - 1);
    }
}

/// A paragraph ends at the end of the text or before a line that is part of none.
proof fn lemma_end_barred(state: EditorState, line: int)
    requires
        line <= line_count(state.text),
    ensures
        line <= state.paragraph_end(line) <= line_count(state.text),
        state.paragraph_end(line) < line_count(state.text) ==> state.bars_paragraph(
            state.paragraph_end(line),
        ),
    decreases line_count(state.text) - line,
{
    if line < line_count(state.text) && !state.bars_paragraph(line) {
        lemma_end_barred(state, line + 1);
    }
}

/// A paragraph begins behind every line before it that is part of none.
proof fn lemma_start_behind(state: EditorState, line: int, first: int)
    requires
        0 <= first <= line,
        first > 0 ==> state.bars_paragraph(first - 1),
    ensures
        first <= state.paragraph_start(line) <= line,
    decreases line,
{
    if line > first && !state.bars_paragraph(line - 1) {
        lemma_start_behind(state, line - 1, first);
    }
}

/// A paragraph ends before every line behind it that is part of none.
proof fn lemma_end_before(state: EditorState, line: int, end: int)
    requires
        line <= end <= line_count(state.text),
        end < line_count(state.text) ==> state.bars_paragraph(end),
    ensures
        line <= state.paragraph_end(line) <= end,
    decreases end - line,
{
    if line < end && !state.bars_paragraph(line) {
        lemma_end_before(state, line + 1, end);
    }
}

/// A status is no part of a paragraph.
proof fn lemma_saying_start(state: EditorState, status: Seq<char>, line: int)
    ensures
        state.saying(status).paragraph_start(line) == state.paragraph_start(line),
    decreases line,
{
    if line > 0 {
        lemma_saying_start(state, status, line - 1);
    }
}

proof fn lemma_saying_end(state: EditorState, status: Seq<char>, line: int)
    ensures
        state.saying(status).paragraph_end(line) == state.paragraph_end(line),
    decreases line_count(state.text) - line,
{
    if line < line_count(state.text) {
        lemma_saying_end(state, status, line + 1);
    }
}

/// The characters of a line that is laid out.
proof fn lemma_joined_chars(list: Seq<Seq<char>>)
    requires
        are_words(list),
    ensures
        unbroken(join(list, " "@)),
    decreases list.len(),
{
    reveal_strlit(" ");
    let all = join(list, " "@);
    if list.len() > 0 {
        let rest = list.drop_last();
        let last = list.len() - 1;
        assert(is_word(list[last]));
        assert forall|i: int| 0 <= i < rest.len() implies is_word(#[trigger] rest[i]) by {
            assert(rest[i] == list[i]);
        }
        lemma_joined_chars(rest);
        let head = join(rest, " "@);
        assert forall|k: int| 0 <= k < all.len() implies !is_break(#[trigger] all[k]) by {
            if list.len() == 1 {
                assert(!is_space(list[last][k]));
            } else if k < head.len() {
                assert(all[k] == head[k]);
            } else if k > head.len() {
                assert(all[k] == list[last][k - head.len() - 1]);
                assert(!is_space(list[last][k - head.len() - 1]));
            }
        }
    }
}

/// The indent of a paragraph.
pub open spec fn paragraph_indent(lines: Seq<Seq<char>>) -> Seq<char> {
    first_indent(lines, common_indent(lines))
}

/// The lines of a paragraph when it is laid out anew.
pub open spec fn refilled_lines(lines: Seq<Seq<char>>, column: int) -> Seq<Seq<char>> {
    let indent = paragraph_indent(lines);
    filled(paragraph_words(lines), indent, fill_width(indent, column))
}

/// The indent of a paragraph is white space.
proof fn lemma_paragraph_indent(lines: Seq<Seq<char>>)
    requires
        all_unbroken(lines),
    ensures
        is_blank(paragraph_indent(lines)),
        unbroken(paragraph_indent(lines)),
{
    lemma_common_indent_least(lines);
    lemma_first_indent_blank(lines, common_indent(lines));
    lemma_first_indent_unbroken(lines, common_indent(lines));
}

/// What a paragraph with a word in it is laid out anew to.
proof fn lemma_refilled_lines(lines: Seq<Seq<char>>, column: int)
    requires
        all_unbroken(lines),
        all_words(lines).len() > 0,
    ensures
        ({
            let indent = paragraph_indent(lines);
            let out = refilled_lines(lines, column);
            &&& out.len() > 0
            &&& is_blank(indent)
            &&& laid(out, indent, fill_width(indent, column))
            &&& all_words(out) == all_words(lines)
            &&& all_unbroken(out)
            &&& refilled(lines, column) == join(out, "\n"@)
        }),
{
    let indent = paragraph_indent(lines);
    let width = fill_width(indent, column);
    let out = refilled_lines(lines, column);
    lemma_paragraph_indent(lines);
    law_refill_keeps_words(lines, column);
    lemma_all_are_words(lines);
    lemma_filled_laid(all_words(lines), indent, width);
    lemma_filled_words(all_words(lines), indent, width);
    lemma_filled(all_words(lines), indent, width);
    assert forall|i: int| 0 <= i < out.len() implies unbroken(#[trigger] out[i]) by {
        assert(line_laid(out[i], indent, width));
        let rest = join(words(out[i]), " "@);
        lemma_joined_chars(words(out[i]));
        assert forall|k: int| 0 <= k < out[i].len() implies !is_break(#[trigger] out[i][k]) by {
            if k < indent.len() {
                assert(out[i][k] == indent[k]);
            } else {
                assert(out[i][k] == rest[k - indent.len()]);
            }
        }
    }
}

/// A paragraph has lines of the text, and a word.
proof fn lemma_paragraph_lines(state: EditorState)
    requires
        plain(state.text),
        0 <= state.line < line_count(state.text),
        state.paragraph(state.line) is Some,
    ensures
        ({
            let (first, end) = state.paragraph(state.line)->0;
            let lines = line_texts(state.text, first, end);
            let from = start_of(state.text, first);
            let to = start_of(state.text, end - 1) + len_of(state.text, end - 1);
            &&& 0 <= first <= state.line < end <= line_count(state.text)
            &&& 0 <= from <= to <= state.text.len()
            &&& all_unbroken(lines)
            &&& all_words(lines).len() > 0
        }),
{
    let s = state.text;
    let (first, end) = state.paragraph(state.line)->0;
    let lines = line_texts(s, first, end);
    lemma_start_open(state, state.line);
    lemma_end_barred(state, state.line + 1);
    lemma_line_texts_are(s, first, end);
    lemma_line_order(s, first);
    lemma_line_order(s, end - 1);
    lemma_line_start_grows(s, first, end - 1);
    lemma_line_texts(s, first, end);
    let at = state.line - first;
    assert(lines[at] == text_of(s, first + at));
    lemma_has_word(lines[at]);
    lemma_have_word(lines, at);
}

/// What filling puts in place of a paragraph.
proof fn lemma_fill_splices(state: EditorState, from: int, to: int)
    requires
        state.paragraph(state.line) is Some,
        0 <= from <= to <= state.text.len(),
        ({
            let (first, end) = state.paragraph(state.line)->0;
            &&& from == start_of(state.text, first)
            &&& to == start_of(state.text, end - 1) + len_of(state.text, end - 1)
            &&& paragraph_words(line_texts(state.text, first, end)).len() > 0
        }),
    ensures
        ({
            let (first, end) = state.paragraph(state.line)->0;
            let new = refilled(line_texts(state.text, first, end), state.fill_column());
            state.filled().text == spliced(state.text, from, to, new)
        }),
{
    let s = state.text;
    let (first, end) = state.paragraph(state.line)->0;
    let new = refilled(line_texts(s, first, end), state.fill_column());
    if new == s.subrange(from, to) {
        assert(spliced(s, from, to, new) =~= s);
    } else {
        let text = removed(s, from, to);
        assert(text.take(from) + new + text.skip(from) =~= spliced(s, from, to, new));
    }
}

/// Filling a paragraph lays it out anew and leaves the text before and behind it
/// as it is: every line of it is the indent that the lines had in common and words
/// with a space between them, no wider than the column where there is more than
/// one word, and each line takes as many of the words as it has room for.
pub proof fn law_fill_lays_out(state: EditorState)
    requires
        plain(state.text),
        0 <= state.line < line_count(state.text),
        state.paragraph(state.line) is Some,
    ensures
        ({
            let (first, end) = state.paragraph(state.line)->0;
            let lines = line_texts(state.text, first, end);
            let from = start_of(state.text, first);
            let to = start_of(state.text, end - 1) + len_of(state.text, end - 1);
            let indent = paragraph_indent(lines);
            let out = refilled_lines(lines, state.fill_column());
            &&& 0 <= first <= state.line < end <= line_count(state.text)
            &&& out.len() > 0
            &&& is_blank(indent)
            &&& laid(out, indent, fill_width(indent, state.fill_column()))
            &&& all_words(out) == all_words(lines)
            &&& state.filled().text == spliced(state.text, from, to, join(out, "\n"@))
        }),
{
    let s = state.text;
    let (first, end) = state.paragraph(state.line)->0;
    let lines = line_texts(s, first, end);
    let from = start_of(s, first);
    let to = start_of(s, end - 1) + len_of(s, end - 1);
    lemma_paragraph_lines(state);
    lemma_refilled_lines(lines, state.fill_column());
    law_refill_keeps_words(lines, state.fill_column());
    lemma_fill_splices(state, from, to);
}

/// Where the cursor stands after a paragraph was laid out anew.
proof fn lemma_filled_anew(state: EditorState)
    requires
        plain(state.text),
        0 <= state.line < line_count(state.text),
        state.paragraph(state.line) is Some,
    ensures
        ({
            let (first, end) = state.paragraph(state.line)->0;
            let lines = line_texts(state.text, first, end);
            let from = start_of(state.text, first);
            let to = start_of(state.text, end - 1) + len_of(state.text, end - 1);
            let out = refilled_lines(lines, state.fill_column());
            &&& state.filled().text_mode == state.text_mode
            &&& refilled(lines, state.fill_column()) != state.text.subrange(from, to) ==> first
                <= state.filled().line < first + out.len()
        }),
{
    let s = state.text;
    let (first, end) = state.paragraph(state.line)->0;
    let lines = line_texts(s, first, end);
    let from = start_of(s, first);
    let to = start_of(s, end - 1) + len_of(s, end - 1);
    let out = refilled_lines(lines, state.fill_column());
    let new = join(out, "\n"@);
    law_fill_lays_out(state);
    lemma_line_texts(s, first, end);
    lemma_refilled_lines(lines, state.fill_column());
    law_refill_keeps_words(lines, state.fill_column());
    lemma_splice(s, first, end, out);
    lemma_lines_spliced(s, first, end, out);
    if new != s.subrange(from, to) {
        let t = spliced(s, from, to, new);
        let text = removed(s, from, to);
        let made = text.take(from) + new + text.skip(from);
        assert(made =~= t);
        let k = lesser(less(state.index(), from), new.len() as int);
        assert(stands(t, from + k));
        let after = EditorState { text: made, ..state.recorded() };
        lemma_at_index(after, from + k);
        assert(state.filled().line == feeds(t, from + k));
    }
}

/// Some of the lines that were put into a text.
proof fn lemma_put_part(
    t: Seq<char>,
    from: int,
    first: int,
    out: Seq<Seq<char>>,
    a: int,
    b: int,
)
    requires
        0 <= first <= a < b <= first + out.len() <= line_count(t),
        0 <= from <= from + join(out, "\n"@).len() <= t.len(),
        t.subrange(from, from + join(out, "\n"@).len()) == join(out, "\n"@),
        forall|i: int| 0 <= i < out.len() ==> #[trigger] put(t, from, first, out, i),
    ensures
        line_texts(t, a, b) == out.subrange(a - first, b - first),
        t.subrange(start_of(t, a), start_of(t, b - 1) + len_of(t, b - 1)) == join(
            out.subrange(a - first, b - first),
            "\n"@,
        ),
{
    let new = join(out, "\n"@);
    let i = a - first;
    let j = b - first;
    let part = out.subrange(i, j);
    let lines = line_texts(t, a, b);
    lemma_line_texts_are(t, a, b);
    assert forall|k: int| 0 <= k < part.len() implies lines[k] == part[k] by {
        assert(lines[k] == text_of(t, a + k));
        assert(put(t, from, first, out, i + k));
    }
    assert(lines =~= part);
    lemma_joined_part(out, i, j);
    assert(put(t, from, first, out, i));
    assert(put(t, from, first, out, j - 1));
    let start = start_of(t, a);
    let stop = start_of(t, b - 1) + len_of(t, b - 1);
    assert(start == from + offset(out, i));
    assert(stop == from + offset(out, j - 1) + out[j - 1].len());
    assert(t.subrange(from, from + new.len()).subrange(start - from, stop - from) =~= t.subrange(
        start,
        stop,
    ));
}

/// A paragraph that is laid out is not filled again.
proof fn lemma_already_filled(f: EditorState)
    requires
        f.paragraph(f.line) is Some,
        ({
            let (a, b) = f.paragraph(f.line)->0;
            let lines = line_texts(f.text, a, b);
            &&& paragraph_words(lines).len() > 0
            &&& refilled(lines, f.fill_column()) == f.text.subrange(
                start_of(f.text, a),
                start_of(f.text, b - 1) + len_of(f.text, b - 1),
            )
        }),
    ensures
        f.filled() == f.saying("already filled to "@ + decimal(f.fill_column() as nat)),
{
}

/// A paragraph that lies in lines that are laid out is filled.
proof fn lemma_in_laid(
    f: EditorState,
    from: int,
    first: int,
    out: Seq<Seq<char>>,
    indent: Seq<char>,
)
    requires
        0 <= first <= f.line < first + out.len() <= line_count(f.text),
        !f.bars_paragraph(f.line),
        first > 0 ==> f.bars_paragraph(first - 1),
        first + out.len() < line_count(f.text) ==> f.bars_paragraph(first + out.len()),
        0 <= from <= from + join(out, "\n"@).len() <= f.text.len(),
        f.text.subrange(from, from + join(out, "\n"@).len()) == join(out, "\n"@),
        forall|i: int| 0 <= i < out.len() ==> #[trigger] put(f.text, from, first, out, i),
        is_blank(indent),
        laid(out, indent, fill_width(indent, f.fill_column())),
    ensures
        f.filled() == f.saying("already filled to "@ + decimal(f.fill_column() as nat)),
{
    let (a, b) = f.paragraph(f.line)->0;
    lemma_start_behind(f, f.line, first);
    lemma_end_before(f, f.line + 1, first + out.len());
    lemma_put_part(f.text, from, first, out, a, b);
    lemma_laid_part(
        out,
        indent,
        fill_width(indent, f.fill_column()),
        a - first,
        b - first,
    );
    lemma_refilled_laid(out.subrange(a - first, b - first), indent, f.fill_column());
    lemma_already_filled(f);
}

/// An editor whose cursor stands in what a paragraph was laid out to.
proof fn lemma_in_refilled(state: EditorState, f: EditorState)
    requires
        plain(state.text),
        0 <= state.line < line_count(state.text),
        state.paragraph(state.line) is Some,
        f.text_mode == state.text_mode,
        !f.is_comment(f.line),
        ({
            let (first, end) = state.paragraph(state.line)->0;
            let lines = line_texts(state.text, first, end);
            let from = start_of(state.text, first);
            let to = start_of(state.text, end - 1) + len_of(state.text, end - 1);
            let out = refilled_lines(lines, state.fill_column());
            &&& f.text == spliced(state.text, from, to, join(out, "\n"@))
            &&& first <= f.line < first + out.len()
        }),
    ensures
        f.filled() == f.saying("already filled to "@ + decimal(state.fill_column() as nat)),
{
    let s = state.text;
    let t = f.text;
    let column = state.fill_column();
    let (first, end) = state.paragraph(state.line)->0;
    let lines = line_texts(s, first, end);
    let from = start_of(s, first);
    let out = refilled_lines(lines, column);
    let indent = paragraph_indent(lines);
    lemma_paragraph_lines(state);
    lemma_start_open(state, state.line);
    lemma_end_barred(state, state.line + 1);
    lemma_refilled_lines(lines, column);
    lemma_splice(s, first, end, out);
    lemma_lines_spliced(s, first, end, out);
    lemma_laid_indent(out, indent, fill_width(indent, column));
    let at = f.line - first;
    assert(put(t, from, first, out, at));
    assert(text_of(t, f.line) == out[at]);
    assert(f.fill_column() == column);
    assert(!f.bars_paragraph(f.line));
    if first > 0 {
        assert(text_of(t, first - 1) == text_of(s, first - 1));
        assert(f.bars_paragraph(first - 1));
    }
    let next = first + out.len();
    if next < line_count(t) {
        assert(text_of(t, next) == text_of(s, end));
        assert(f.bars_paragraph(next));
    }
    lemma_in_laid(f, from, first, out, indent);
}

/// A paragraph that was filled is filled: filling it once more changes nothing but
/// the status, which says so. In a commit message the cursor's line must not have
/// become a comment, as it does where a word that begins with the comment prefix
/// has gone to the start of the line.
pub proof fn law_fill_again(state: EditorState)
    requires
        plain(state.text),
        0 <= state.line < line_count(state.text),
        state.paragraph(state.line) is Some,
        !state.filled().is_comment(state.filled().line),
    ensures
        state.filled().filled() == state.filled().saying(
            "already filled to "@ + decimal(state.fill_column() as nat),
        ),
{
    let s = state.text;
    let (first, end) = state.paragraph(state.line)->0;
    let lines = line_texts(s, first, end);
    let from = start_of(s, first);
    let to = start_of(s, end - 1) + len_of(s, end - 1);
    lemma_paragraph_lines(state);
    law_refill_keeps_words(lines, state.fill_column());
    if refilled(lines, state.fill_column()) == s.subrange(from, to) {
        let status = "already filled to "@ + decimal(state.fill_column() as nat);
        lemma_already_filled(state);
        lemma_saying_start(state, status, state.line);
        lemma_saying_end(state, status, state.line + 1);
        lemma_already_filled(state.saying(status));
    } else {
        law_fill_lays_out(state);
        lemma_filled_anew(state);
        lemma_in_refilled(state, state.filled());
    }
}

} // verus!
