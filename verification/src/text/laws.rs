//! How texts are taken apart and put together.

use vstd::prelude::*;

#[allow(unused_imports)]
use crate::text::{join, lemma_split_not_empty, lines, lowercase, pad_left, pad_right, split};

verus! {

/// A text holds no separator.
pub open spec fn free_of(s: Seq<char>, sep: char) -> bool {
    forall|i: int| 0 <= i < s.len() ==> #[trigger] s[i] != sep
}

/// A text without a separator is one piece.
pub proof fn law_text_is_one_piece(s: Seq<char>, sep: char)
    requires
        free_of(s, sep),
    ensures
        split(s, sep) == seq![s],
    decreases s.len(),
{
    if s.len() > 0 {
        let before = s.drop_last();
        assert forall|i: int| 0 <= i < before.len() implies #[trigger] before[i] != sep by {
            assert(before[i] == s[i]);
        }
        law_text_is_one_piece(before, sep);
        assert(s.last() == s[s.len() - 1]);
        assert(before.push(s.last()) =~= s);
        assert(split(s, sep) =~= seq![s]);
    } else {
        assert(s =~= Seq::empty());
    }
}

/// A separator parts the pieces before it from those behind it.
pub proof fn law_separator_parts(s: Seq<char>, t: Seq<char>, sep: char)
    ensures
        split(s + seq![sep] + t, sep) == split(s, sep) + split(t, sep),
    decreases t.len(),
{
    let all = s + seq![sep] + t;
    if t.len() == 0 {
        assert(all =~= s.push(sep));
        assert(all.drop_last() =~= s);
        assert(split(all, sep) =~= split(s, sep) + split(t, sep));
    } else {
        let before = t.drop_last();
        law_separator_parts(s, before, sep);
        lemma_split_not_empty(before, sep);
        assert(all.drop_last() =~= s + seq![sep] + before);
        assert(all.last() == t.last());
        assert(split(all, sep) =~= split(s, sep) + split(t, sep));
    }
}

/// Pieces that are joined by a separator come apart as they were.
pub proof fn law_split_undoes_join(list: Seq<Seq<char>>, sep: char)
    requires
        list.len() > 0,
        forall|i: int| 0 <= i < list.len() ==> free_of(#[trigger] list[i], sep),
    ensures
        split(join(list, seq![sep]), sep) == list,
    decreases list.len(),
{
    if list.len() == 1 {
        law_text_is_one_piece(list[0], sep);
        assert(seq![list[0]] =~= list);
    } else {
        let before = list.drop_last();
        assert forall|i: int| 0 <= i < before.len() implies free_of(#[trigger] before[i], sep) by {
            assert(before[i] == list[i]);
        }
        law_split_undoes_join(before, sep);
        assert(free_of(list[list.len() - 1], sep));
        law_text_is_one_piece(list.last(), sep);
        law_separator_parts(join(before, seq![sep]), list.last(), sep);
        assert(before + seq![list.last()] =~= list);
    }
}

/// The pieces of a text, joined by the separator, are the text.
pub proof fn law_join_undoes_split(s: Seq<char>, sep: char)
    ensures
        join(split(s, sep), seq![sep]) == s,
    decreases s.len(),
{
    if s.len() > 0 {
        let before = s.drop_last();
        law_join_undoes_split(before, sep);
        lemma_split_not_empty(before, sep);
        let pieces = split(before, sep);
        let all = split(s, sep);
        if s.last() == sep {
            assert(all.drop_last() =~= pieces);
            assert(join(all, seq![sep]) =~= before + seq![sep]);
            assert(s =~= before.push(sep));
        } else {
            assert(all.drop_last() =~= pieces.drop_last());
            if pieces.len() == 1 {
                assert(all[0] =~= s);
            } else {
                assert(join(all, seq![sep]) =~= join(pieces, seq![sep]).push(s.last()));
            }
            assert(s =~= before.push(s.last()));
        }
    } else {
        assert(join(split(s, sep), seq![sep]) =~= s);
    }
}

/// A line feed ends a line, and so does one with a carriage return before it. What stands
/// behind the last one is a line only where there is something.
pub proof fn law_lines_end(a: Seq<char>, b: Seq<char>)
    requires
        free_of(a, '\n'),
        a.len() == 0 || a.last() != '\r',
    ensures
        lines(a + seq!['\n'] + b) == seq![a] + lines(b),
        lines(a.push('\r') + seq!['\n'] + b) == seq![a] + lines(b),
        a.len() > 0 ==> lines(a) == seq![a],
        lines(Seq::<char>::empty()) == Seq::<Seq<char>>::empty(),
{
    let c = a.push('\r');
    law_text_is_one_piece(a, '\n');
    assert forall|i: int| 0 <= i < c.len() implies #[trigger] c[i] != '\n' by {
        if i < a.len() {
            assert(c[i] == a[i]);
        }
    }
    law_text_is_one_piece(c, '\n');
    law_separator_parts(a, b, '\n');
    law_separator_parts(c, b, '\n');
    lemma_split_not_empty(b, '\n');
    let tail = split(b, '\n');
    assert((seq![a] + tail).drop_last() =~= seq![a] + tail.drop_last());
    assert((seq![c] + tail).drop_last() =~= seq![c] + tail.drop_last());
    assert((seq![a] + tail).last() == tail.last());
    assert((seq![c] + tail).last() == tail.last());
    assert(c.drop_last() =~= a);
    assert(lines(a + seq!['\n'] + b) =~= seq![a] + lines(b));
    assert(lines(a.push('\r') + seq!['\n'] + b) =~= seq![a] + lines(b));
    assert(seq![a].drop_last() =~= Seq::<Seq<char>>::empty());
    if a.len() > 0 {
        assert(lines(a) =~= seq![a]);
    }
    let none = Seq::<char>::empty();
    law_text_is_one_piece(none, '\n');
    assert(seq![none].drop_last() =~= Seq::<Seq<char>>::empty());
    assert(lines(none) =~= Seq::<Seq<char>>::empty());
}

/// A text that is padded has at least the width, keeps its characters, and gets spaces
/// behind it or before it.
pub proof fn law_padding_fills(s: Seq<char>, width: nat, i: int)
    ensures
        ({
            let right = pad_right(s, width);
            let left = pad_left(s, width);
            let gap = if s.len() < width {
                width - s.len()
            } else {
                0
            };
            &&& right.len() == s.len() + gap && left.len() == s.len() + gap
            &&& 0 <= i < s.len() ==> right[i] == s[i] && left[gap + i] == s[i]
            &&& 0 <= i < gap ==> right[s.len() + i] == ' ' && left[i] == ' '
        }),
{
}

/// A capital letter of the Latin alphabet becomes the small one, and no other character
/// changes.
pub proof fn law_letters_become_small(s: Seq<char>, i: int)
    requires
        0 <= i < s.len(),
    ensures
        lowercase(s).len() == s.len(),
        'A' <= s[i] <= 'Z' ==> lowercase(s)[i] as int == s[i] as int + 32,
        !('A' <= s[i] <= 'Z') ==> lowercase(s)[i] == s[i],
        lowercase(lowercase(s))[i] == lowercase(s)[i],
{
}

} // verus!
