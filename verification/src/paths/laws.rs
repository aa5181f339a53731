//! How paths are put together and seen from a directory.

use vstd::prelude::*;

#[allow(unused_imports)]
use crate::paths::{
    behind_names, components, file_name, is_absolute, joined, lies_in, names, naming, relative,
};
#[allow(unused_imports)]
use crate::text::{lemma_split_not_empty, split};
#[allow(unused_imports)]
use crate::text::laws::{law_join_undoes_split, law_separator_parts};

verus! {

/// A path below a directory: every part of it names something.
pub open spec fn is_below(path: Seq<char>) -> bool {
    let parts = split(path, '/');
    forall|i: int| 0 <= i < parts.len() ==> names(#[trigger] parts[i])
}

proof fn lemma_naming_concat(a: Seq<Seq<char>>, b: Seq<Seq<char>>)
    ensures
        naming(a + b) == naming(a) + naming(b),
    decreases b.len(),
{
    if b.len() == 0 {
        assert(a + b =~= a);
        assert(naming(a) + naming(b) =~= naming(a));
    } else {
        lemma_naming_concat(a, b.drop_last());
        assert((a + b).drop_last() =~= a + b.drop_last());
        assert((a + b).last() == b.last());
        assert(naming(a + b) =~= naming(a) + naming(b));
    }
}

proof fn lemma_all_naming(parts: Seq<Seq<char>>)
    requires
        forall|i: int| 0 <= i < parts.len() ==> names(#[trigger] parts[i]),
    ensures
        naming(parts) == parts,
    decreases parts.len(),
{
    if parts.len() > 0 {
        let rest = parts.drop_last();
        assert forall|i: int| 0 <= i < rest.len() implies names(#[trigger] rest[i]) by {
            assert(rest[i] == parts[i]);
        }
        lemma_all_naming(rest);
        assert(names(parts[parts.len() - 1]));
        assert(rest.push(parts.last()) =~= parts);
    } else {
        assert(naming(parts) =~= parts);
    }
}

proof fn lemma_behind(parts: Seq<Seq<char>>, n: int, i: int)
    requires
        0 <= i <= n < parts.len(),
        names(parts[n]),
    ensures
        behind_names(parts, naming(parts.subrange(i, n)).len() as int, i) == n,
    decreases n - i,
{
    let part = parts.subrange(i, n);
    if i < n {
        lemma_behind(parts, n, i + 1);
        let rest = parts.subrange(i + 1, n);
        assert(part =~= seq![parts[i]] + rest);
        lemma_naming_concat(seq![parts[i]], rest);
        assert(seq![parts[i]].drop_last() =~= Seq::<Seq<char>>::empty());
        assert(naming(Seq::<Seq<char>>::empty()).len() == 0);
        assert(naming(seq![parts[i]]).len() == if names(parts[i]) {
            1int
        } else {
            0
        });
    } else {
        assert(part =~= Seq::<Seq<char>>::empty());
        assert(naming(part).len() == 0);
    }
}

/// What lies below a directory is seen from there by the path that leads to it, and has the
/// same name there.
pub proof fn law_path_is_seen_from_its_directory(root: Seq<char>, path: Seq<char>)
    requires
        is_absolute(root),
        root.last() != '/',
        is_below(path),
    ensures
        joined(root, path) == root + seq!['/'] + path,
        relative(joined(root, path), root) == path,
        lies_in(joined(root, path), root),
        file_name(joined(root, path)) == file_name(path),
{
    reveal_strlit("/");
    reveal_strlit(".");
    assert("/"@ =~= seq!['/']);
    let parts = split(path, '/');
    let head = split(root, '/');
    lemma_split_not_empty(path, '/');
    lemma_split_not_empty(root, '/');
    law_join_undoes_split(path, '/');
    law_join_undoes_split(root, '/');
    assert(!is_absolute(path)) by {
        if is_absolute(path) {
            lemma_first_piece(path);
            assert(names(parts[0]));
        }
    }
    let whole = root + seq!['/'] + path;
    law_separator_parts(root, path, '/');
    let all = split(whole, '/');
    assert(all == head + parts);
    lemma_first_piece(root);
    assert(all[0] == head[0]);
    assert("."@.len() == 1);
    lemma_naming_concat(head, parts);
    lemma_all_naming(parts);
    assert(components(whole) == naming(head) + parts);
    assert(components(root) == naming(head));
    assert(names(parts[0]));
    assert(components(path) == parts);
    assert((naming(head) + parts).take(naming(head).len() as int) =~= naming(head));
    assert(whole[0] == root[0]);
    assert(all[head.len() as int] == parts[0]);
    assert(all.subrange(0, head.len() as int) =~= head);
    lemma_behind(all, head.len() as int, 0);
    assert(all[all.len() - 1] == parts[parts.len() - 1]);
    assert(names(parts[parts.len() - 1]));
    assert(all.subrange(head.len() as int, all.len() as int) =~= parts);
    assert((naming(head) + parts).last() == parts.last());
}

proof fn lemma_first_piece(s: Seq<char>)
    requires
        is_absolute(s),
    ensures
        split(s, '/')[0].len() == 0,
        split(s, '/').len() > 1,
{
    let rest = s.skip(1);
    let none = Seq::<char>::empty();
    assert(s =~= none + seq!['/'] + rest);
    law_separator_parts(none, rest, '/');
    lemma_split_not_empty(rest, '/');
    assert(split(none, '/') == seq![none]);
}

/// An absolute path stays itself whatever directory it is seen from or put behind, unless it
/// lies there.
pub proof fn law_absolute_path_stays(root: Seq<char>, path: Seq<char>)
    requires
        is_absolute(path),
    ensures
        joined(root, path) == path,
        !is_absolute(root) ==> relative(path, root) == path,
        !lies_in(path, root) ==> relative(path, root) == path,
{
}

} // verus!
