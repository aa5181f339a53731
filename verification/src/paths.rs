//! File paths as texts, with a slash between the names.

use vstd::prelude::*;

#[allow(unused_imports)]
use crate::text::{join, split, views};
use crate::text::{concat3, join_all, same, split_on, starts_with};

pub mod laws;

verus! {

/// Whether a path starts at the root of the file system.
pub open spec fn is_absolute(path: Seq<char>) -> bool {
    path.len() > 0 && path[0] == '/'
}

/// The path `name` as seen from the directory `base`.
pub open spec fn joined(base: Seq<char>, name: Seq<char>) -> Seq<char> {
    if is_absolute(name) || base.len() == 0 {
        name
    } else if base.last() == '/' {
        base + name
    } else {
        base + "/"@ + name
    }
}

/// Whether a path starts at the root of the file system.
pub fn path_is_absolute(path: &str) -> (r: bool)
    ensures
        r == is_absolute(path@),
{
    let r = starts_with(path, "/");
    proof {
        reveal_strlit("/");
        if path@.len() > 0 {
            assert(path@.take(1)[0] == path@[0]);
            if path@[0] == '/' {
                assert(path@.take(1) =~= "/"@);
            } else {
                assert("/"@[0] == '/');
            }
        }
    }
    r
}

/// The path `name` as seen from the directory `base`.
pub fn join_path(base: &str, name: &str) -> (r: String)
    ensures
        r@ == joined(base@, name@),
{
    let chars = crate::text::chars_of(base);
    if path_is_absolute(name) || chars.len() == 0 {
        name.to_string()
    } else if chars[chars.len() - 1] == '/' {
        crate::text::concat2(base, name)
    } else {
        concat3(base, "/", name)
    }
}

/// Whether a part of a path names something: the parts between two slashes and
/// the current directory `.` do not.
pub open spec fn names(part: Seq<char>) -> bool {
    part.len() > 0 && part != "."@
}

/// The names of a path, from the root down. A path from the current directory
/// on may begin with that directory's own name.
pub open spec fn components(path: Seq<char>) -> Seq<Seq<char>> {
    let parts = split(path, '/');
    if parts[0] == "."@ {
        seq!["."@] + naming(parts)
    } else {
        naming(parts)
    }
}

/// The parts that name something.
pub open spec fn naming(parts: Seq<Seq<char>>) -> Seq<Seq<char>>
    decreases parts.len(),
{
    if parts.len() == 0 {
        Seq::empty()
    } else if names(parts.last()) {
        naming(parts.drop_last()).push(parts.last())
    } else {
        naming(parts.drop_last())
    }
}

/// The last name of a path, if it has one and it is not the parent directory.
pub open spec fn file_name(path: Seq<char>) -> Option<Seq<char>> {
    let all = components(path);
    if all.len() > 0 && all.last() != ".."@ && all.last() != "."@ {
        Some(all.last())
    } else {
        None
    }
}

/// The names of a path, from the root down.
pub fn components_of(path: &str) -> (r: Vec<String>)
    ensures
        views(r@) == components(path@),
{
    let parts = split_on(path, '/');
    let mut out: Vec<String> = Vec::new();
    let ghost all = split(path@, '/');
    let ghost mut head: Seq<Seq<char>> = Seq::empty();
    assert(all[0] == parts@[0]@);
    if same(parts[0].as_str(), ".") {
        out.push(".".to_string());
        proof {
            head = seq!["."@];
        }
    }
    assert(views(out@) =~= head + naming(all.take(0)));
    let mut i: usize = 0;
    while i < parts.len()
        invariant
            i <= parts@.len(),
            views(parts@) == all,
            views(out@) == head + naming(all.take(i as int)),
        decreases parts@.len() - i,
    {
        assert(all.take(i + 1).drop_last() =~= all.take(i as int));
        assert(all[i as int] == parts@[i as int]@);
        let ghost was = views(out@);
        if !parts[i].as_str().is_empty() && !same(parts[i].as_str(), ".") {
            out.push(parts[i].clone());
            assert(views(out@) =~= was.push(all[i as int]));
            assert(views(out@) =~= head + naming(all.take(i + 1)));
        }
        i = i + 1;
    }
    assert(all.take(i as int) =~= all);
    assert(views(out@) =~= components(path@));
    out
}

/// The last name of a path, if it has one and it is not the parent directory.
pub fn file_name_of(path: &str) -> (r: Option<String>)
    ensures
        r is Some <==> file_name(path@) is Some,
        r matches Some(name) ==> file_name(path@) == Some(name@),
{
    let all = components_of(path);
    if all.len() == 0 {
        return None;
    }
    let last: usize = all.len() - 1;
    assert(views(all@)[last as int] == all@[last as int]@);
    if same(all[last].as_str(), "..") || same(all[last].as_str(), ".") {
        None
    } else {
        Some(all[last].clone())
    }
}

/// Whether a path lies in the directory `base`, or is that directory.
pub open spec fn lies_in(path: Seq<char>, base: Seq<char>) -> bool {
    let all = components(path);
    let head = components(base);
    is_absolute(path) == is_absolute(base) && head.len() <= all.len() && all.take(
        head.len() as int,
    ) == head
}

/// Where the parts from `i` on go on behind `count` names: at the name that follows
/// them, or at the end.
pub open spec fn behind_names(parts: Seq<Seq<char>>, count: int, i: int) -> int
    decreases parts.len() - i,
{
    if i >= parts.len() {
        parts.len() as int
    } else if !names(parts[i]) {
        behind_names(parts, count, i + 1)
    } else if count <= 0 {
        i
    } else {
        behind_names(parts, count - 1, i + 1)
    }
}

/// Where the last name of the parts before `end` ends, or `from` where there is none.
pub open spec fn names_end(parts: Seq<Seq<char>>, from: int, end: int) -> int
    decreases end - from,
{
    if end > from && !names(parts[end - 1]) {
        names_end(parts, from, end - 1)
    } else {
        end
    }
}

/// What is left of a path behind `count` names, as it is written, from the first name
/// to the last. A path from the current directory on begins with that directory's own
/// name, where it is written.
pub open spec fn remainder(path: Seq<char>, count: int) -> Seq<char> {
    let parts = split(path, '/');
    if parts[0] == "."@ && count == 0 {
        join(parts.take(names_end(parts, 1, parts.len() as int)), "/"@)
    } else {
        let from = behind_names(
            parts,
            if parts[0] == "."@ {
                count - 1
            } else {
                count
            },
            0,
        );
        join(parts.subrange(from, names_end(parts, from, parts.len() as int)), "/"@)
    }
}

/// A path as seen from the directory `base`, if it lies there; else the path
/// itself.
pub open spec fn relative(path: Seq<char>, base: Seq<char>) -> Seq<char> {
    if lies_in(path, base) {
        remainder(path, components(base).len() as int)
    } else {
        path
    }
}

fn is_name(part: &str) -> (r: bool)
    ensures
        r == names(part@),
{
    !part.is_empty() && !same(part, ".")
}

fn remainder_of(path: &str, count: usize) -> (r: String)
    ensures
        r@ == remainder(path@, count as int),
{
    let mut parts = split_on(path, '/');
    let ghost all = split(path@, '/');
    assert(all[0] == parts@[0]@);
    let dotted = same(parts[0].as_str(), ".");
    let mut from: usize = 0;
    let mut least: usize = 1;
    if !dotted || count > 0 {
        let ghost skipped = if dotted {
            count - 1
        } else {
            count as int
        };
        let mut left: usize = if dotted {
            count - 1
        } else {
            count
        };
        while from < parts.len() && (left > 0 || !is_name(parts[from].as_str()))
            invariant
                from <= parts@.len(),
                views(parts@) == all,
                behind_names(all, skipped, 0) == behind_names(all, left as int, from as int),
            decreases parts@.len() - from,
        {
            assert(all[from as int] == parts@[from as int]@);
            if is_name(parts[from].as_str()) {
                left = left - 1;
            }
            from = from + 1;
        }
        if from < parts.len() {
            assert(all[from as int] == parts@[from as int]@);
        }
        least = from;
    }
    let mut end: usize = parts.len();
    while end > least && !is_name(parts[end - 1].as_str())
        invariant
            least <= end <= parts@.len(),
            views(parts@) == all,
            names_end(all, least as int, all.len() as int) == names_end(
                all,
                least as int,
                end as int,
            ),
        decreases end,
    {
        assert(all[end - 1] == parts@[end - 1]@);
        end = end - 1;
    }
    if end > least {
        assert(all[end - 1] == parts@[end - 1]@);
    }
    parts.truncate(end);
    let rest = parts.split_off(from);
    assert(views(rest@) =~= all.subrange(from as int, end as int));
    join_all(&rest, "/")
}

/// A path as seen from the directory `root`, if it lies there; else the path
/// itself.
pub fn relative_file(file: &str, root: &str) -> (r: String)
    ensures
        r@ == relative(file@, root@),
{
    let all = components_of(file);
    let head = components_of(root);
    if path_is_absolute(file) != path_is_absolute(root) || head.len() > all.len() {
        return file.to_string();
    }
    let ghost names_of_file = components(file@);
    let ghost names_of_root = components(root@);
    let mut i: usize = 0;
    while i < head.len()
        invariant
            i <= head@.len() <= all@.len(),
            views(all@) == names_of_file,
            views(head@) == names_of_root,
            names_of_file == components(file@),
            names_of_root == components(root@),
            names_of_file.take(i as int) == names_of_root.take(i as int),
        decreases head@.len() - i,
    {
        assert(names_of_file[i as int] == all@[i as int]@);
        assert(names_of_root[i as int] == head@[i as int]@);
        if !same(all[i].as_str(), head[i].as_str()) {
            assert(names_of_file.take(head@.len() as int)[i as int] != names_of_root[i as int]);
            return file.to_string();
        }
        i = i + 1;
        assert(names_of_file.take(i as int) =~= names_of_root.take(i as int));
    }
    assert(names_of_root.take(i as int) =~= names_of_root);
    remainder_of(file, head.len())
}

} // verus!
