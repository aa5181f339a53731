//! What filling a paragraph keeps: the words of the text.

use vstd::prelude::*;

#[allow(unused_imports)]
use crate::inline_text::buffer::{
    common_indent, fill_width, filled, least_indent, len_of, lemma_filled, lemma_filled_width,
    start_of, text_of,
};
#[allow(unused_imports)]
use crate::inline_text::laws::{lemma_paragraph_end, lemma_paragraph_start, lemma_words_solid};
#[allow(unused_imports)]
use crate::inline_text::model::{
    behind, first_indent, line_texts, paragraph_words, refilled, removed, words_behind, EditorState,
};
#[allow(unused_imports)]
use crate::inline_text::place::plain;
#[allow(unused_imports)]
use crate::rope::{
    ends_line, lemma_after_break, lemma_line_order, lemma_line_start, lemma_line_start_grows,
    line_count, line_len, line_start,
};
#[allow(unused_imports)]
use crate::text::{indent_of, is_blank, is_space, join, lemma_trim_start, lemma_words_open, words};

verus! {

/// Two texts that can be put together without joining a word to another.
pub open spec fn apart(a: Seq<char>, b: Seq<char>) -> bool {
    a.len() == 0 || b.len() == 0 || is_space(a.last()) || is_space(b[0])
}

/// The words of two texts one behind the other.
pub proof fn lemma_words_concat(a: Seq<char>, b: Seq<char>)
    requires
        apart(a, b),
    ensures
        words(a + b) == words(a) + words(b),
    decreases b.len(),
{
    let s = a + b;
    if b.len() == 0 {
        assert(s =~= a);
        assert(words(a) + words(b) =~= words(a));
    } else {
        let rest = b.drop_last();
        let d = b.last();
        assert(s.drop_last() =~= a + rest);
        assert(s.last() == d);
        if rest.len() > 0 {
            assert(rest[0] == b[0]);
        }
        lemma_words_concat(a, rest);
        if !is_space(d) {
            if rest.len() > 0 {
                assert(s[s.len() - 2] == rest.last() && b[b.len() - 2] == rest.last());
                if !is_space(rest.last()) {
                    lemma_words_open(rest);
                    let both = words(a) + words(rest);
                    assert(both.last() == words(rest).last());
                    assert(words(s) =~= words(a) + words(b));
                } else {
                    assert(words(s) =~= words(a) + words(b));
                }
            } else {
                assert(rest =~= Seq::empty());
                assert(b =~= seq![d]);
                if a.len() > 0 {
                    assert(s[s.len() - 2] == a.last());
                }
                assert(words(rest) =~= Seq::empty());
                assert(words(s) =~= words(a) + words(b));
            }
        }
    }
}

/// White space has no words.
pub proof fn lemma_blank_words(s: Seq<char>)
    requires
        is_blank(s),
    ensures
        words(s).len() == 0,
    decreases s.len(),
{
    if s.len() > 0 {
        let rest = s.drop_last();
        assert(is_space(s[s.len() - 1]));
        assert forall|i: int| 0 <= i < rest.len() implies is_space(#[trigger] rest[i]) by {
            assert(rest[i] == s[i]);
        }
        lemma_blank_words(rest);
    }
}

/// A word: at least one character, and no white space.
pub open spec fn is_word(s: Seq<char>) -> bool {
    s.len() > 0 && forall|i: int| 0 <= i < s.len() ==> !is_space(#[trigger] s[i])
}

/// A word has itself as its only word.
pub proof fn lemma_word(s: Seq<char>)
    requires
        is_word(s),
    ensures
        words(s) == seq![s],
    decreases s.len(),
{
    let rest = s.drop_last();
    assert(!is_space(s[s.len() - 1]));
    if rest.len() > 0 {
        assert forall|i: int| 0 <= i < rest.len() implies !is_space(#[trigger] rest[i]) by {
            assert(rest[i] == s[i]);
        }
        lemma_word(rest);
        assert(!is_space(s[s.len() - 2]));
        assert(rest.push(s.last()) =~= s);
        assert(words(s) =~= seq![s]);
    } else {
        assert(rest =~= Seq::empty());
        assert(words(rest) =~= Seq::empty());
        assert(seq![s.last()] =~= s);
        assert(words(s) =~= seq![s]);
    }
}

/// The words of a text are words.
proof fn lemma_are_words(s: Seq<char>)
    ensures
        forall|i: int| 0 <= i < words(s).len() ==> is_word(#[trigger] words(s)[i]),
    decreases s.len(),
{
    lemma_words_solid(s);
    crate::config::lemma_words_not_blank(s);
    assert forall|i: int| 0 <= i < words(s).len() implies is_word(#[trigger] words(s)[i]) by {
        assert(!is_blank(words(s)[i]));
        assert forall|j: int| 0 <= j < words(s)[i].len() implies !is_space(
            #[trigger] words(s)[i][j],
        ) by {}
    }
}

/// The words of texts, one text behind the other.
pub open spec fn all_words(list: Seq<Seq<char>>) -> Seq<Seq<char>>
    decreases list.len(),
{
    if list.len() == 0 {
        Seq::empty()
    } else {
        all_words(list.drop_last()) + words(list.last())
    }
}

pub proof fn lemma_all_words_push(list: Seq<Seq<char>>, line: Seq<char>)
    ensures
        all_words(list.push(line)) == all_words(list) + words(line),
{
    assert(list.push(line).drop_last() =~= list);
}

/// Lines with line feeds between them have the words of the lines.
proof fn lemma_join_words(list: Seq<Seq<char>>)
    ensures
        words(join(list, "\n"@)) == all_words(list),
    decreases list.len(),
{
    reveal_strlit("\n");
    if list.len() == 1 {
        assert(list.drop_last() =~= Seq::empty());
        assert(all_words(list.drop_last()) =~= Seq::empty());
        assert(all_words(list) =~= words(list[0]));
    } else if list.len() > 1 {
        let rest = list.drop_last();
        lemma_join_words(rest);
        let before = join(rest, "\n"@);
        lemma_words_concat(before, "\n"@);
        assert(is_blank("\n"@));
        lemma_blank_words("\n"@);
        assert(words(before) + words("\n"@) =~= words(before));
        assert((before + "\n"@).last() == '\n');
        lemma_words_concat(before + "\n"@, list.last());
    }
}

/// Each of some texts is a word.
pub open spec fn are_words(list: Seq<Seq<char>>) -> bool {
    forall|i: int| 0 <= i < list.len() ==> is_word(#[trigger] list[i])
}

/// Words laid out in lines are still those words.
pub proof fn lemma_filled_words(list: Seq<Seq<char>>, indent: Seq<char>, width: int)
    requires
        are_words(list),
        is_blank(indent),
        indent.len() < width,
    ensures
        all_words(filled(list, indent, width)) == list,
    decreases list.len(),
{
    let all = filled(list, indent, width);
    if list.len() == 0 {
        lemma_blank_words(indent);
        lemma_all_words_push(Seq::empty(), indent);
        assert(Seq::<Seq<char>>::empty().push(indent) =~= all);
        assert(all_words(all) =~= list);
    } else {
        let rest = list.drop_last();
        let word = list.last();
        assert(is_word(list[list.len() - 1]));
        assert forall|i: int| 0 <= i < rest.len() implies is_word(#[trigger] rest[i]) by {
            assert(rest[i] == list[i]);
        }
        assert forall|i: int| 0 <= i < rest.len() implies (#[trigger] rest[i]).len() > 0 by {
            assert(is_word(rest[i]));
        }
        lemma_filled_words(rest, indent, width);
        lemma_filled(rest, indent, width);
        lemma_filled_width(rest, indent, width);
        let before = filled(rest, indent, width);
        let line = before.last();
        let head = before.drop_last();
        assert(head.push(line) =~= before);
        lemma_all_words_push(head, line);
        lemma_word(word);
        lemma_blank_words(indent);
        if line.len() <= indent.len() {
            assert(rest.len() == 0);
            assert(line == indent);
            lemma_indented(indent, word);
            lemma_all_words_push(head, line + word);
            assert(all_words(head) + words(line) =~= all_words(head));
            assert(all_words(all) =~= list);
        } else if line.len() + 1 + word.len() > width {
            lemma_indented(indent, word);
            lemma_all_words_push(before, indent + word);
            assert(all_words(all) =~= list);
        } else {
            assert((line + seq![' ']).last() == ' ');
            assert(is_blank(seq![' ']));
            lemma_blank_words(seq![' ']);
            lemma_words_concat(line, seq![' ']);
            lemma_words_concat(line + seq![' '], word);
            lemma_all_words_push(head, line + seq![' '] + word);
            assert(words(line) + words(seq![' ']) =~= words(line));
            assert(words(line + seq![' '] + word) =~= words(line).push(word));
            assert(rest.push(word) =~= list);
            assert(all == head.push(line + seq![' '] + word));
            assert(all_words(all) =~= (all_words(head) + words(line)).push(word));
        }
    }
}

/// An indent and a word have that word only.
pub proof fn lemma_indented(indent: Seq<char>, word: Seq<char>)
    requires
        is_blank(indent),
        is_word(word),
    ensures
        words(indent + word) == seq![word],
{
    if indent.len() > 0 {
        assert(is_space(indent[indent.len() - 1]));
    }
    lemma_words_concat(indent, word);
    lemma_blank_words(indent);
    lemma_word(word);
    assert(words(indent) + words(word) =~= seq![word]);
}

/// No line that is not blank has less indent than the lines have in common.
pub proof fn lemma_common_indent_least(lines: Seq<Seq<char>>)
    ensures
        forall|i: int|
            0 <= i < lines.len() && !is_blank(#[trigger] lines[i]) ==> (least_indent(
                lines,
            ) matches Some(n) && n <= indent_of(lines[i])),
        least_indent(lines) matches Some(n) ==> n >= 0,
    decreases lines.len(),
{
    if lines.len() > 0 {
        let rest = lines.drop_last();
        lemma_common_indent_least(rest);
        lemma_trim_start(lines.last());
        assert forall|i: int| 0 <= i < lines.len() && !is_blank(#[trigger] lines[i]) implies (
        least_indent(lines) matches Some(n) && n <= indent_of(lines[i])) by {
            if i < rest.len() {
                assert(rest[i] == lines[i]);
                assert(!is_blank(rest[i]));
            }
        }
    }
}

/// A line without part of its indent has the same words.
proof fn lemma_behind_words(line: Seq<char>, n: int)
    requires
        0 <= n,
        !is_blank(line) ==> n <= indent_of(line),
    ensures
        words(behind(line, n)) == words(line),
{
    lemma_trim_start(line);
    if is_blank(line) {
        let rest = behind(line, n);
        assert forall|i: int| 0 <= i < rest.len() implies is_space(#[trigger] rest[i]) by {
            assert(rest[i] == line[i + n]);
        }
        lemma_blank_words(rest);
        lemma_blank_words(line);
        assert(words(rest) =~= words(line));
    } else {
        let head = line.take(n);
        let rest = line.skip(n);
        assert forall|i: int| 0 <= i < head.len() implies is_space(#[trigger] head[i]) by {
            assert(head[i] == line[i]);
        }
        if n > 0 {
            assert(is_space(head[n - 1]));
        }
        assert(head + rest =~= line);
        lemma_words_concat(head, rest);
        lemma_blank_words(head);
        assert(words(head) + words(rest) =~= words(rest));
    }
}

proof fn lemma_words_behind(lines: Seq<Seq<char>>, n: int)
    requires
        0 <= n,
        forall|i: int|
            0 <= i < lines.len() && !is_blank(#[trigger] lines[i]) ==> n <= indent_of(lines[i]),
    ensures
        words_behind(lines, n) == all_words(lines),
    decreases lines.len(),
{
    if lines.len() > 0 {
        let rest = lines.drop_last();
        assert forall|i: int| 0 <= i < rest.len() && !is_blank(#[trigger] rest[i]) implies n
            <= indent_of(rest[i]) by {
            assert(rest[i] == lines[i]);
        }
        lemma_words_behind(rest, n);
        assert(lines.last() == lines[lines.len() - 1]);
        lemma_behind_words(lines.last(), n);
    }
}

pub proof fn lemma_all_are_words(lines: Seq<Seq<char>>)
    ensures
        are_words(all_words(lines)),
    decreases lines.len(),
{
    if lines.len() > 0 {
        lemma_all_are_words(lines.drop_last());
        lemma_are_words(lines.last());
        let before = all_words(lines.drop_last());
        let new = words(lines.last());
        assert forall|i: int| 0 <= i < (before + new).len() implies is_word(
            #[trigger] (before + new)[i],
        ) by {
            if i >= before.len() {
                assert((before + new)[i] == new[i - before.len()]);
            }
        }
    }
}

/// The indent of a paragraph is white space.
pub proof fn lemma_first_indent_blank(lines: Seq<Seq<char>>, n: int)
    requires
        0 <= n,
        forall|i: int|
            0 <= i < lines.len() && !is_blank(#[trigger] lines[i]) ==> n <= indent_of(lines[i]),
    ensures
        is_blank(first_indent(lines, n)),
    decreases lines.len(),
{
    if lines.len() > 0 {
        if !is_blank(lines[0]) {
            lemma_trim_start(lines[0]);
            let indent = first_indent(lines, n);
            assert forall|i: int| 0 <= i < indent.len() implies is_space(#[trigger] indent[i]) by {
                assert(indent[i] == lines[0][i]);
            }
        } else {
            let rest = lines.drop_first();
            assert forall|i: int| 0 <= i < rest.len() && !is_blank(#[trigger] rest[i]) implies n
                <= indent_of(rest[i]) by {
                assert(rest[i] == lines[i + 1]);
            }
            lemma_first_indent_blank(rest, n);
        }
    }
}

/// A paragraph laid out anew has the words of its lines, and every line of it that
/// is wider than the column is an indent and a single word.
pub proof fn law_refill_keeps_words(lines: Seq<Seq<char>>, column: int)
    ensures
        words(refilled(lines, column)) == all_words(lines),
        paragraph_words(lines) == all_words(lines),
        ({
            let indent = first_indent(lines, common_indent(lines));
            let width = fill_width(indent, column);
            let out = filled(paragraph_words(lines), indent, width);
            &&& refilled(lines, column) == join(out, "\n"@)
            &&& forall|i: int|
                0 <= i < out.len() && (#[trigger] out[i]).len() > width ==> exists|k: int|
                    0 <= k < all_words(lines).len() && out[i] == indent + #[trigger] all_words(
                        lines,
                    )[k]
        }),
{
    lemma_common_indent_least(lines);
    let n = common_indent(lines);
    lemma_words_behind(lines, n);
    lemma_first_indent_blank(lines, n);
    lemma_all_are_words(lines);
    let indent = first_indent(lines, n);
    let width = fill_width(indent, column);
    lemma_filled_words(all_words(lines), indent, width);
    lemma_join_words(filled(all_words(lines), indent, width));
    assert forall|i: int| 0 <= i < all_words(lines).len() implies (#[trigger] all_words(
        lines,
    )[i]).len() > 0 by {
        assert(is_word(all_words(lines)[i]));
    }
    lemma_filled_width(all_words(lines), indent, width);
}

/// Between the end of a line and the start of the next one stands white space, and
/// where nothing stands there, the line ends with white space.
proof fn lemma_line_gap(s: Seq<char>, line: int)
    requires
        0 <= line,
        line + 1 < line_count(s),
    ensures
        ({
            let end = line_start(s, line) + line_len(s, line);
            let next = line_start(s, line + 1);
            &&& 0 <= end <= next <= s.len()
            &&& is_blank(s.subrange(end, next))
            &&& next > 0
            &&& is_space(s[next - 1])
        }),
{
    lemma_line_order(s, line);
    lemma_line_start(s, line + 1);
    let end = line_start(s, line) + line_len(s, line);
    let next = line_start(s, line + 1);
    let gap = s.subrange(end, next);
    assert(ends_line(s, next - 1));
    assert forall|i: int| 0 <= i < gap.len() implies is_space(#[trigger] gap[i]) by {
        assert(gap[i] == s[end + i]);
    }
}

/// The words of some lines of a text are the words of that part of the text.
proof fn lemma_lines_words(s: Seq<char>, first: int, end: int)
    requires
        0 <= first < end <= line_count(s),
    ensures
        ({
            let to = line_start(s, end - 1) + line_len(s, end - 1);
            &&& 0 <= line_start(s, first) <= to <= s.len()
            &&& words(s.subrange(line_start(s, first), to)) == all_words(
                line_texts(s, first, end),
            )
        }),
    decreases end - first,
{
    let from = line_start(s, first);
    let last = end - 1;
    let to = line_start(s, last) + line_len(s, last);
    lemma_line_order(s, last);
    lemma_line_start_grows(s, first, last);
    let lines = line_texts(s, first, end);
    let before = line_texts(s, first, last);
    lemma_all_words_push(before, text_of(s, last));
    if first == last {
        assert(before =~= Seq::empty());
        assert(all_words(before) =~= Seq::empty());
        assert(all_words(lines) =~= words(text_of(s, last)));
        assert(s.subrange(from, to) =~= text_of(s, last));
    } else {
        lemma_lines_words(s, first, last);
        lemma_line_gap(s, last - 1);
        let end_before = line_start(s, last - 1) + line_len(s, last - 1);
        let start = line_start(s, last);
        let part = s.subrange(from, end_before);
        let gap = s.subrange(end_before, start);
        let line = s.subrange(start, to);
        assert(line =~= text_of(s, last));
        assert(s.subrange(from, to) =~= (part + gap) + line);
        if gap.len() > 0 {
            assert(is_space(gap[0]));
        }
        lemma_words_concat(part, gap);
        lemma_blank_words(gap);
        assert(words(part) + words(gap) =~= words(part));
        lemma_line_start_grows(s, first, last - 1);
        if (part + gap).len() > 0 {
            assert((part + gap).last() == s[start - 1]);
        }
        lemma_words_concat(part + gap, line);
    }
}

/// Filling a paragraph changes white space only: the words of the text stay the
/// same. Left out are texts with other ends of lines than line feeds, which filling
/// may drop.
pub proof fn law_fill_keeps_words(state: EditorState)
    requires
        plain(state.text),
        0 <= state.line < line_count(state.text),
    ensures
        words(state.filled().text) == words(state.text),
{
    let s = state.text;
    if let Some((first, end)) = state.paragraph(state.line) {
        lemma_paragraph_start(state, state.line);
        lemma_paragraph_end(state, state.line + 1);
        let lines = line_texts(s, first, end);
        let from = start_of(s, first);
        let to = start_of(s, end - 1) + len_of(s, end - 1);
        let new = refilled(lines, state.fill_column());
        lemma_lines_words(s, first, end);
        law_refill_keeps_words(lines, state.fill_column());
        let head = s.take(from);
        let part = s.subrange(from, to);
        let tail = s.skip(to);
        if first > 0 {
            lemma_line_start(s, first);
            assert(is_space(s[from - 1]));
            assert(head.last() == s[from - 1]);
        }
        if to < s.len() {
            lemma_line_order(s, end - 1);
            lemma_after_break(s, line_start(s, end - 1));
            assert(tail[0] == s[to]);
            assert(is_space(s[to]));
        }
        let text = removed(s, from, to);
        let t = text.take(from) + new + text.skip(from);
        assert(s =~= head + part + tail);
        assert(t =~= head + new + tail);
        lemma_words_concat(head, part);
        lemma_words_concat(head, new);
        lemma_words_concat(head + part, tail);
        lemma_words_concat(head + new, tail);
    }
}

} // verus!
