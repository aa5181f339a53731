//! Paths as the operating system has them: any bytes.

#[allow(unused_imports)]
use vstd::prelude::*;
#[allow(unused_imports)]
use vstd::utf8::{
    decode_utf8, encode_utf8, encode_utf8_decode_utf8, encode_utf8_valid_utf8, is_ascii_chars,
    is_ascii_chars_encode_utf8, valid_utf8,
};

use crate::paths::{components_of, file_name_of, join_path, path_is_absolute, relative_file};
#[allow(unused_imports)]
use crate::paths::{
    behind_names, components, file_name, is_absolute, joined, names, names_end, naming, relative,
    remainder,
};
use crate::text::{concat2, join_all, text_from};
#[allow(unused_imports)]
use crate::text::{join, split, views};

verus! {

/// One character for each byte.
pub open spec fn wide(bytes: Seq<u8>) -> Seq<char> {
    bytes.map_values(|b: u8| b as char)
}

/// The bytes that characters stand for, one for each.
pub open spec fn narrow(units: Seq<char>) -> Seq<u8> {
    units.map_values(|c: char| c as u8)
}

/// Each character stands for a byte.
pub open spec fn are_units(s: Seq<char>) -> bool {
    forall|i: int| 0 <= i < s.len() ==> '\0' <= #[trigger] s[i] <= '\u{ff}'
}

/// Whether the bytes of a path start at the root of the file system.
pub open spec fn starts_at_root(path: Seq<u8>) -> bool {
    path.len() > 0 && path[0] == 47
}

/// The path that a text writes.
pub open spec fn path_of(text: Seq<char>) -> Seq<char> {
    wide(encode_utf8(text))
}

/// What `String::from_utf8_lossy` makes of bytes that are no UTF-8.
pub uninterp spec fn lossy_text(bytes: Seq<u8>) -> Seq<char>;

/// The text of a path, if it is one.
pub open spec fn exact_text(path: Seq<char>) -> Option<Seq<char>> {
    if valid_utf8(narrow(path)) {
        Some(decode_utf8(narrow(path)))
    } else {
        None
    }
}

/// A path as it is shown: its text, or where it is none, what can be read of it.
pub open spec fn shown(path: Seq<char>) -> Seq<char> {
    match exact_text(path) {
        Some(text) => text,
        None => lossy_text(narrow(path)),
    }
}

/// `String::from_utf8_lossy`, which `Path::display` agrees with on Unix: what is no
/// UTF-8 becomes replacement characters. The name stands for all that it makes of
/// bytes.
#[verifier::external_body]
fn lossy(bytes: &Vec<u8>) -> (r: String)
    ensures
        r@ == lossy_text(bytes@),
{
    String::from_utf8_lossy(bytes).into_owned()
}

/// Bytes come back from the characters that stand for them.
pub proof fn lemma_narrow_wide(bytes: Seq<u8>)
    ensures
        narrow(wide(bytes)) == bytes,
{
    assert forall|i: int| 0 <= i < bytes.len() implies narrow(wide(bytes))[i] == bytes[i] by {
        let b = bytes[i];
        assert((b as char) as u8 == b);
    }
    assert(narrow(wide(bytes)) =~= bytes);
}

/// A path that a text writes is shown as that text.
pub proof fn law_path_shows_its_text(text: Seq<char>)
    ensures
        exact_text(path_of(text)) == Some(text),
        shown(path_of(text)) == text,
{
    lemma_narrow_wide(encode_utf8(text));
    encode_utf8_valid_utf8(text);
    encode_utf8_decode_utf8(text);
}

/// Where a text has ASCII characters only, its path has the same characters.
pub proof fn law_ascii_path(text: Seq<char>)
    requires
        is_ascii_chars(text),
    ensures
        path_of(text) == text,
{
    is_ascii_chars_encode_utf8(text);
    assert forall|i: int| 0 <= i < text.len() implies path_of(text)[i] == text[i] by {
        let c = text[i];
        assert('\0' <= c <= '\u{7f}');
        assert((c as u8) as char == c);
    }
    assert(path_of(text) =~= text);
}

/// Texts whose characters stand for bytes have parts of that kind.
proof fn lemma_split_units(s: Seq<char>)
    requires
        are_units(s),
    ensures
        forall|i: int| 0 <= i < split(s, '/').len() ==> are_units(#[trigger] split(s, '/')[i]),
    decreases s.len(),
{
    if s.len() > 0 {
        let before = s.drop_last();
        assert forall|i: int| 0 <= i < before.len() implies '\0' <= #[trigger] before[i]
            <= '\u{ff}' by {
            assert(before[i] == s[i]);
        }
        assert('\0' <= s[s.len() - 1] <= '\u{ff}');
        lemma_split_units(before);
        crate::text::lemma_split_not_empty(before, '/');
    }
}

proof fn lemma_join_units(list: Seq<Seq<char>>)
    requires
        forall|i: int| 0 <= i < list.len() ==> are_units(#[trigger] list[i]),
    ensures
        are_units(join(list, "/"@)),
    decreases list.len(),
{
    reveal_strlit("/");
    if list.len() > 0 {
        assert(are_units(list[list.len() - 1]));
        let before = list.drop_last();
        assert forall|i: int| 0 <= i < before.len() implies are_units(#[trigger] before[i]) by {
            assert(before[i] == list[i]);
        }
        lemma_join_units(before);
    }
}

proof fn lemma_naming_units(parts: Seq<Seq<char>>)
    requires
        forall|i: int| 0 <= i < parts.len() ==> are_units(#[trigger] parts[i]),
    ensures
        forall|i: int| 0 <= i < naming(parts).len() ==> are_units(#[trigger] naming(parts)[i]),
    decreases parts.len(),
{
    if parts.len() > 0 {
        assert(are_units(parts[parts.len() - 1]));
        let before = parts.drop_last();
        assert forall|i: int| 0 <= i < before.len() implies are_units(#[trigger] before[i]) by {
            assert(before[i] == parts[i]);
        }
        lemma_naming_units(before);
        assert forall|i: int| 0 <= i < naming(parts).len() implies are_units(
            #[trigger] naming(parts)[i],
        ) by {
            if i < naming(before).len() {
                assert(naming(parts)[i] == naming(before)[i]);
            }
        }
    }
}

/// The names of a path of such characters.
proof fn lemma_names_units(path: Seq<char>)
    requires
        are_units(path),
    ensures
        forall|i: int|
            0 <= i < components(path).len() ==> are_units(#[trigger] components(path)[i]),
{
    reveal_strlit(".");
    let parts = split(path, '/');
    lemma_split_units(path);
    lemma_naming_units(parts);
    let head = seq!["."@];
    assert(are_units(head[0]));
}

/// What is left of a path of such characters.
proof fn lemma_remainder_units(path: Seq<char>, count: int)
    requires
        are_units(path),
        count >= 0,
    ensures
        are_units(remainder(path, count)),
{
    let parts = split(path, '/');
    let n = parts.len() as int;
    lemma_split_units(path);
    crate::text::lemma_split_not_empty(path, '/');
    lemma_names_end(parts, 1, n);
    lemma_join_units(parts.take(names_end(parts, 1, n)));
    let from = behind_names(
        parts,
        if parts[0] == "."@ {
            count - 1
        } else {
            count
        },
        0,
    );
    lemma_behind_names(
        parts,
        if parts[0] == "."@ {
            count - 1
        } else {
            count
        },
        0,
    );
    lemma_names_end(parts, from, n);
    lemma_join_units(parts.subrange(from, names_end(parts, from, n)));
}

proof fn lemma_names_end(parts: Seq<Seq<char>>, from: int, end: int)
    requires
        from <= end,
    ensures
        from <= names_end(parts, from, end) <= end,
    decreases end - from,
{
    if end > from && !names(parts[end - 1]) {
        lemma_names_end(parts, from, end - 1);
    }
}

proof fn lemma_behind_names(parts: Seq<Seq<char>>, count: int, i: int)
    requires
        0 <= i,
    ensures
        0 <= behind_names(parts, count, i) <= parts.len(),
    decreases parts.len() - i,
{
    if i < parts.len() {
        lemma_behind_names(parts, count, i + 1);
        lemma_behind_names(parts, count - 1, i + 1);
    }
}

/// A path as the operating system has it. It is held as a text with one character for
/// each byte, from `\0` to `\u{ff}`, so that slashes, dots and names are found in it
/// as in a path that is a text.
#[derive(Debug, PartialEq, Eq)]
pub struct FilePath {
    units: String,
}

impl FilePath {
    #[verifier::type_invariant]
    spec fn holds_bytes(self) -> bool {
        are_units(self.units@)
    }
}

impl View for FilePath {
    type V = Seq<char>;

    closed spec fn view(&self) -> Seq<char> {
        self.units@
    }
}

/// Paths as mathematical objects.
pub open spec fn path_views(list: Seq<FilePath>) -> Seq<Seq<char>> {
    list.map_values(|path: FilePath| path@)
}

impl FilePath {
    /// The path with the given bytes.
    pub fn of_bytes(bytes: &[u8]) -> (r: FilePath)
        ensures
            r@ == wide(bytes@),
    {
        let mut units: String = String::new();
        let mut i: usize = 0;
        while i < bytes.len()
            invariant
                i <= bytes@.len(),
                units@ == wide(bytes@.take(i as int)),
            decreases bytes@.len() - i,
        {
            units.push(bytes[i] as char);
            i = i + 1;
            assert(units@ =~= wide(bytes@.take(i as int)));
        }
        assert(bytes@.take(i as int) =~= bytes@);
        assert forall|i: int| 0 <= i < units@.len() implies '\0' <= #[trigger] units@[i]
            <= '\u{ff}' by {
            assert(units@[i] == bytes@[i] as char);
        }
        FilePath { units }
    }

    /// The path that a text writes.
    pub fn of_text(text: &str) -> (r: FilePath)
        ensures
            r@ == path_of(text@),
    {
        FilePath::of_bytes(text.as_bytes())
    }

    /// The bytes of the path.
    pub fn bytes(&self) -> (r: Vec<u8>)
        ensures
            r@ == narrow(self@),
            starts_at_root(r@) == is_absolute(self@),
    {
        proof {
            use_type_invariant(self);
        }
        let mut out: Vec<u8> = Vec::new();
        for c in iter: self.units.as_str().chars()
            invariant
                out@ == narrow(iter.seq().take(iter.index())),
                iter.seq() == self.units@,
        {
            out.push(c as u8);
            assert(out@ =~= narrow(self.units@.take(iter.index() + 1)));
        }
        assert(self.units@.take(self.units@.len() as int) =~= self.units@);
        proof {
            if self@.len() > 0 {
                let c = self@[0];
                assert('\0' <= c <= '\u{ff}');
                assert((c as u8) as u32 == c as u32);
            }
        }
        out
    }

    /// The text of the path, if it is one.
    pub fn to_text(&self) -> (r: Option<String>)
        ensures
            r is Some <==> exact_text(self@) is Some,
            r matches Some(text) ==> exact_text(self@) == Some(text@),
    {
        text_from(self.bytes())
    }

    /// The path as it is shown.
    pub fn text(&self) -> (r: String)
        ensures
            r@ == shown(self@),
    {
        match self.to_text() {
            Some(text) => text,
            None => lossy(&self.bytes()),
        }
    }

    /// A copy.
    pub fn copy(&self) -> (r: FilePath)
        ensures
            r@ == self@,
    {
        proof {
            use_type_invariant(self);
        }
        FilePath { units: self.units.clone() }
    }

    /// Whether the path starts at the root of the file system.
    pub fn is_absolute(&self) -> (r: bool)
        ensures
            r == is_absolute(self@),
    {
        path_is_absolute(self.units.as_str())
    }

    /// The path `name` as seen from this directory.
    pub fn join(&self, name: &FilePath) -> (r: FilePath)
        ensures
            r@ == joined(self@, name@),
    {
        proof {
            use_type_invariant(self);
            use_type_invariant(name);
            reveal_strlit("/");
        }
        FilePath { units: join_path(self.units.as_str(), name.units.as_str()) }
    }

    /// The path as seen from the directory `root`, if it lies there; else the path
    /// itself.
    pub fn relative_to(&self, root: &FilePath) -> (r: FilePath)
        ensures
            r@ == relative(self@, root@),
    {
        proof {
            use_type_invariant(self);
            lemma_remainder_units(self@, components(root@).len() as int);
        }
        FilePath { units: relative_file(self.units.as_str(), root.units.as_str()) }
    }

    /// The last name of the path, if it has one and it is not the parent directory.
    pub fn file_name(&self) -> (r: Option<FilePath>)
        ensures
            r is Some <==> file_name(self@) is Some,
            r matches Some(name) ==> file_name(self@) == Some(name@),
    {
        proof {
            use_type_invariant(self);
            lemma_names_units(self@);
            assert(components(self@).len() > 0 ==> components(self@).last() == components(
                self@,
            )[components(self@).len() - 1]);
        }
        match file_name_of(self.units.as_str()) {
            Some(units) => Some(FilePath { units }),
            None => None,
        }
    }

    /// The directories that an absolute path lies in, itself first.
    pub fn ancestors(&self) -> (r: Vec<FilePath>)
        ensures
            path_views(r@) == ancestors(self@),
    {
        proof {
            use_type_invariant(self);
            lemma_names_units(self@);
            reveal_strlit("/");
        }
        let mut names = components_of(self.units.as_str());
        let ghost all = components(self@);
        let mut out: Vec<FilePath> = Vec::new();
        loop
            invariant_except_break
                views(names@) == all.take(all.len() - out@.len()),
                out@.len() <= all.len(),
            invariant
                all == components(self@),
                forall|k: int| 0 <= k < all.len() ==> are_units(#[trigger] all[k]),
                "/"@.len() == 1 && "/"@[0] == '/',
                forall|k: int|
                    0 <= k < out@.len() ==> (#[trigger] out@[k])@ == "/"@ + join(
                        all.take(all.len() - k),
                        "/"@,
                    ),
            ensures
                out@.len() == all.len() + 1,
            decreases names@.len(),
        {
            let ghost k = out@.len();
            let ghost before = names@;
            let inside = join_all(&names, "/");
            proof {
                lemma_join_units(all.take(all.len() - k));
            }
            out.push(FilePath { units: concat2("/", inside.as_str()) });
            assert(views(before).len() == before.len());
            match names.pop() {
                Some(_) => {
                    assert(views(names@) =~= views(before).drop_last());
                    assert(all.take(all.len() - k).drop_last() =~= all.take(all.len() - k - 1));
                },
                None => {
                    break;
                },
            }
        }
        assert(path_views(out@) =~= ancestors(self@));
        out
    }
}

/// The directories that an absolute path lies in, itself first.
pub open spec fn ancestors(path: Seq<char>) -> Seq<Seq<char>> {
    let names = components(path);
    Seq::new(names.len() + 1, |k: int| "/"@ + join(names.take(names.len() - k), "/"@))
}

} // verus!
