//! Text as sequences of characters: the string operations the tools rest on.
//!
//! Every operation is described by a spec function over `Seq<char>`, and the
//! executable function next to it is proved against that description.

use vstd::prelude::*;

pub mod laws;

verus! {

// ---------------------------------------------------------------------------
// Trusted parts of std that carry no specification in vstd
// ---------------------------------------------------------------------------

/// A text that may be missing.
pub open spec fn option_view(text: Option<String>) -> Option<Seq<char>> {
    match text {
        Some(text) => Some(text@),
        None => None,
    }
}

/// `String::push` appends one character to the end of the string.
pub assume_specification[ std::string::String::push ](s: &mut std::string::String, c: char)
    ensures
        final(s)@ == old(s)@.push(c),
;

/// `String::from_utf8` gives the text that bytes encode, exactly where they encode
/// one.
#[verifier::external_body]
pub(crate) fn text_from(bytes: Vec<u8>) -> (r: Option<String>)
    ensures
        r is Some <==> vstd::utf8::valid_utf8(bytes@),
        r matches Some(text) ==> text@ == vstd::utf8::decode_utf8(bytes@),
{
    String::from_utf8(bytes).ok()
}

/// `String::clear` leaves the string empty.
pub assume_specification[ std::string::String::clear ](s: &mut std::string::String)
    ensures
        final(s)@ == Seq::<char>::empty(),
;

/// `String::pop` removes the last character and returns it, or returns `None`
/// on an empty string and leaves it as it is.
pub assume_specification[ std::string::String::pop ](s: &mut std::string::String) -> (c: Option<
    char,
>)
    ensures
        old(s)@.len() == 0 ==> c is None && final(s)@ == old(s)@,
        old(s)@.len() > 0 ==> c == Some(old(s)@.last()) && final(s)@ == old(s)@.drop_last(),
;

// ---------------------------------------------------------------------------
// Characters
// ---------------------------------------------------------------------------

/// The characters with the Unicode property `White_Space`.
pub open spec fn is_space(c: char) -> bool {
    let n = c as u32;
    ||| 9 <= n <= 13
    ||| n == 0x20
    ||| n == 0x85
    ||| n == 0xA0
    ||| n == 0x1680
    ||| 0x2000 <= n <= 0x200A
    ||| n == 0x2028
    ||| n == 0x2029
    ||| n == 0x202F
    ||| n == 0x205F
    ||| n == 0x3000
}

/// Whether `c` is white space.
pub fn char_is_space(c: char) -> (r: bool)
    ensures
        r == is_space(c),
{
    let n: u32 = c as u32;
    (9 <= n && n <= 13) || n == 0x20 || n == 0x85 || n == 0xA0 || n == 0x1680 || (0x2000 <= n && n
        <= 0x200A) || n == 0x2028 || n == 0x2029 || n == 0x202F || n == 0x205F || n == 0x3000
}

/// The decimal digits of ASCII.
pub open spec fn is_digit(c: char) -> bool {
    '0' <= c <= '9'
}

/// Maps `A..Z` to `a..z` and leaves every other character alone.
pub open spec fn lower(c: char) -> char {
    if 'A' <= c <= 'Z' {
        ((c as u8) + 32) as char
    } else {
        c
    }
}

/// ASCII lower case of one character.
pub fn char_lower(c: char) -> (r: char)
    ensures
        r == lower(c),
{
    if 'A' <= c && c <= 'Z' {
        let n: u8 = c as u8;
        (n + 32) as char
    } else {
        c
    }
}

/// ASCII lower case of a text.
pub open spec fn lowercase(s: Seq<char>) -> Seq<char> {
    s.map_values(|c: char| lower(c))
}

// ---------------------------------------------------------------------------
// Strings and character vectors
// ---------------------------------------------------------------------------

/// The characters of a string.
pub fn chars_of(s: &str) -> (r: Vec<char>)
    ensures
        r@ == s@,
{
    let mut out: Vec<char> = Vec::new();
    for c in iter: s.chars()
        invariant
            out@ == iter.seq().take(iter.index()),
            iter.seq() == s@,
    {
        out.push(c);
    }
    out
}

/// The characters `from..to` as a string.
pub fn string_of(chars: &Vec<char>, from: usize, to: usize) -> (r: String)
    requires
        from <= to <= chars@.len(),
    ensures
        r@ == chars@.subrange(from as int, to as int),
{
    let mut out: String = String::new();
    let mut i: usize = from;
    while i < to
        invariant
            from <= i <= to <= chars@.len(),
            out@ == chars@.subrange(from as int, i as int),
        decreases to - i,
    {
        out.push(chars[i]);
        i = i + 1;
    }
    out
}

/// Whether two strings hold the same characters.
pub fn same(a: &str, b: &str) -> (r: bool)
    ensures
        r == (a@ == b@),
{
    let left = a.to_string();
    let right = b.to_string();
    left == right
}

/// The texts of a list of strings.
pub open spec fn views(list: Seq<String>) -> Seq<Seq<char>> {
    list.map_values(|s: String| s@)
}

/// The texts of a list of string slices.
pub open spec fn str_views(list: Seq<&str>) -> Seq<Seq<char>> {
    list.map_values(|s: &str| s@)
}

/// A text in ASCII lower case.
pub fn to_lower(s: &str) -> (r: String)
    ensures
        r@ == lowercase(s@),
{
    let mut out: String = String::new();
    for c in iter: s.chars()
        invariant
            out@ == lowercase(iter.seq().take(iter.index())),
            iter.seq() == s@,
    {
        out.push(char_lower(c));
        assert(lowercase(s@.take(iter.index() + 1)) =~= lowercase(s@.take(iter.index())).push(
            lower(c),
        ));
    }
    assert(s@.take(s@.len() as int) =~= s@);
    out
}

/// The number of characters of a text.
pub fn char_count(s: &str) -> (r: usize)
    ensures
        r == s@.len(),
{
    let chars = chars_of(s);
    chars.len()
}

// ---------------------------------------------------------------------------
// Prefixes and suffixes
// ---------------------------------------------------------------------------

/// Whether `s` begins with `prefix`.
pub open spec fn has_prefix(s: Seq<char>, prefix: Seq<char>) -> bool {
    prefix.len() <= s.len() && s.take(prefix.len() as int) == prefix
}

/// Whether `s` ends with `suffix`.
pub open spec fn has_suffix(s: Seq<char>, suffix: Seq<char>) -> bool {
    suffix.len() <= s.len() && s.skip(s.len() - suffix.len()) == suffix
}

/// Whether `query` stands in `s` at position `at`.
pub open spec fn stands_at(s: Seq<char>, query: Seq<char>, at: int) -> bool {
    0 <= at && at + query.len() <= s.len() && s.subrange(at, at + query.len()) == query
}

/// Whether `query` stands in `s` at position `at`.
pub fn matches_at(s: &Vec<char>, query: &Vec<char>, at: usize) -> (r: bool)
    ensures
        r == stands_at(s@, query@, at as int),
{
    if at > s.len() || s.len() - at < query.len() {
        return false;
    }
    let n: usize = s.len();
    let mut i: usize = 0;
    while i < query.len()
        invariant
            i <= query@.len(),
            at + query@.len() <= n == s@.len(),
            s@.subrange(at as int, at + i) == query@.take(i as int),
        decreases query@.len() - i,
    {
        if s[at + i] != query[i] {
            assert(s@.subrange(at as int, at + query@.len())[i as int] == s@[at + i]);
            return false;
        }
        i = i + 1;
    }
    assert(query@.take(i as int) =~= query@);
    true
}

/// The rest of `s` behind `prefix`, if `s` begins with it.
pub fn strip_prefix(s: &str, prefix: &str) -> (r: Option<String>)
    ensures
        r is Some <==> has_prefix(s@, prefix@),
        r matches Some(rest) ==> rest@ == s@.skip(prefix@.len() as int),
{
    let chars = chars_of(s);
    let head = chars_of(prefix);
    assert(s@.take(prefix@.len() as int) =~= s@.subrange(0, prefix@.len() as int));
    if matches_at(&chars, &head, 0) {
        let rest = string_of(&chars, head.len(), chars.len());
        assert(rest@ =~= s@.skip(prefix@.len() as int));
        Some(rest)
    } else {
        None
    }
}

/// Whether `s` begins with `prefix`.
pub fn starts_with(s: &str, prefix: &str) -> (r: bool)
    ensures
        r == has_prefix(s@, prefix@),
{
    strip_prefix(s, prefix).is_some()
}

/// Whether `s` ends with `suffix`.
pub fn ends_with(s: &str, suffix: &str) -> (r: bool)
    ensures
        r == has_suffix(s@, suffix@),
{
    let chars = chars_of(s);
    let tail = chars_of(suffix);
    if tail.len() > chars.len() {
        return false;
    }
    let r = matches_at(&chars, &tail, chars.len() - tail.len());
    assert(s@.skip(s@.len() - suffix@.len()) =~= s@.subrange(
        s@.len() - suffix@.len(),
        s@.len() as int,
    ));
    r
}

// ---------------------------------------------------------------------------
// Searching
// ---------------------------------------------------------------------------

/// The first position at or behind `from` where `query` stands in `s`.
pub open spec fn find_from(s: Seq<char>, query: Seq<char>, from: int) -> Option<int>
    decreases s.len() - from + 1,
{
    if from + query.len() > s.len() {
        None
    } else if stands_at(s, query, from) {
        Some(from)
    } else {
        find_from(s, query, from + 1)
    }
}

/// The last position at or before `at` where `query` stands in `s`.
pub open spec fn rfind_to(s: Seq<char>, query: Seq<char>, at: int) -> Option<int>
    decreases at + 1,
{
    if at < 0 {
        None
    } else if stands_at(s, query, at) {
        Some(at)
    } else {
        rfind_to(s, query, at - 1)
    }
}

/// Whether `query` stands anywhere in `s`.
pub open spec fn has_part(s: Seq<char>, query: Seq<char>) -> bool {
    exists|at: int| stands_at(s, query, at)
}

/// The first position at or behind `from` where `query` stands in `s`.
pub fn find_chars(s: &Vec<char>, query: &Vec<char>, from: usize) -> (r: Option<usize>)
    ensures
        r is Some <==> find_from(s@, query@, from as int) is Some,
        r matches Some(at) ==> find_from(s@, query@, from as int) == Some(at as int),
{
    if query.len() > s.len() {
        return None;
    }
    let last: usize = s.len() - query.len();
    let mut at: usize = from;
    while at <= last
        invariant
            last == s@.len() - query@.len(),
            from <= at,
            find_from(s@, query@, from as int) == find_from(s@, query@, at as int),
        decreases last + 1 - at,
    {
        if matches_at(s, query, at) {
            return Some(at);
        }
        if at == last {
            assert(find_from(s@, query@, at + 1) is None);
            return None;
        }
        at = at + 1;
    }
    None
}

/// The last position where `query` stands in the first `end` characters of `s`.
pub fn rfind_chars(s: &Vec<char>, query: &Vec<char>, end: usize) -> (r: Option<usize>)
    requires
        end <= s@.len(),
    ensures
        r is Some <==> rfind_to(s@, query@, end - query@.len()) is Some,
        r matches Some(at) ==> rfind_to(s@, query@, end - query@.len()) == Some(at as int),
{
    if query.len() > end {
        return None;
    }
    let mut at: usize = end - query.len();
    loop
        invariant
            end <= s@.len(),
            at <= end - query@.len(),
            rfind_to(s@, query@, end - query@.len()) == rfind_to(s@, query@, at as int),
        decreases at,
    {
        if matches_at(s, query, at) {
            return Some(at);
        }
        if at == 0 {
            assert(rfind_to(s@, query@, -1) is None);
            return None;
        }
        at = at - 1;
    }
}

/// The search from the left finds a part exactly where there is one.
pub proof fn lemma_find_from(s: Seq<char>, query: Seq<char>, from: int)
    requires
        0 <= from,
    ensures
        find_from(s, query, from) matches Some(at) ==> {
            &&& from <= at
            &&& stands_at(s, query, at)
            &&& forall|i: int| from <= i < at ==> !stands_at(s, query, i)
        },
        find_from(s, query, from) is None ==> forall|i: int|
            from <= i ==> !stands_at(s, query, i),
    decreases s.len() - from + 1,
{
    if from + query.len() <= s.len() && !stands_at(s, query, from) {
        lemma_find_from(s, query, from + 1);
    }
}

/// The search from the right finds the last part that there is.
pub proof fn lemma_rfind_to(s: Seq<char>, query: Seq<char>, at: int)
    ensures
        rfind_to(s, query, at) matches Some(i) ==> {
            &&& i <= at
            &&& stands_at(s, query, i)
            &&& forall|j: int| i < j <= at ==> !stands_at(s, query, j)
        },
        rfind_to(s, query, at) is None ==> forall|j: int| j <= at ==> !stands_at(s, query, j),
    decreases at + 1,
{
    if 0 <= at && !stands_at(s, query, at) {
        lemma_rfind_to(s, query, at - 1);
    }
}

/// Whether `query` stands anywhere in `s`.
pub fn contains(s: &str, query: &str) -> (r: bool)
    ensures
        r == has_part(s@, query@),
{
    let chars = chars_of(s);
    let part = chars_of(query);
    let found = find_chars(&chars, &part, 0);
    proof {
        lemma_find_from(s@, query@, 0);
    }
    found.is_some()
}

// ---------------------------------------------------------------------------
// Trimming
// ---------------------------------------------------------------------------

/// `s` without its leading white space.
pub open spec fn trim_start(s: Seq<char>) -> Seq<char>
    decreases s.len(),
{
    if s.len() > 0 && is_space(s[0]) {
        trim_start(s.drop_first())
    } else {
        s
    }
}

/// `s` without its trailing white space.
pub open spec fn trim_end(s: Seq<char>) -> Seq<char>
    decreases s.len(),
{
    if s.len() > 0 && is_space(s.last()) {
        trim_end(s.drop_last())
    } else {
        s
    }
}

/// `s` without white space at either end.
pub open spec fn trim(s: Seq<char>) -> Seq<char> {
    trim_end(trim_start(s))
}

/// Whether `s` holds nothing but white space.
pub open spec fn is_blank(s: Seq<char>) -> bool {
    forall|i: int| 0 <= i < s.len() ==> is_space(#[trigger] s[i])
}

/// The number of leading white space characters.
pub open spec fn indent_of(s: Seq<char>) -> int {
    s.len() - trim_start(s).len()
}

/// What trimming leaves is a tail of the text, and only white space goes.
pub proof fn lemma_trim_start(s: Seq<char>)
    ensures
        trim_start(s).len() <= s.len(),
        trim_start(s) == s.skip(indent_of(s)),
        forall|i: int| 0 <= i < indent_of(s) ==> is_space(#[trigger] s[i]),
        trim_start(s).len() > 0 ==> !is_space(trim_start(s)[0]),
        (trim_start(s).len() == 0) == is_blank(s),
    decreases s.len(),
{
    if s.len() > 0 && is_space(s[0]) {
        let rest = s.drop_first();
        lemma_trim_start(rest);
        assert(trim_start(s) =~= s.skip(indent_of(s)));
        assert forall|i: int| 0 <= i < indent_of(s) implies is_space(#[trigger] s[i]) by {
            if i > 0 {
                assert(s[i] == rest[i - 1]);
            }
        }
        if is_blank(rest) {
            assert forall|i: int| 0 <= i < s.len() implies is_space(#[trigger] s[i]) by {
                if i > 0 {
                    assert(s[i] == rest[i - 1]);
                }
            }
        }
        if is_blank(s) {
            assert forall|i: int| 0 <= i < rest.len() implies is_space(#[trigger] rest[i]) by {
                assert(rest[i] == s[i + 1]);
            }
        }
    } else {
        assert(s.skip(0) =~= s);
        if s.len() > 0 {
            assert(!is_blank(s));
        }
    }
}

/// What trimming leaves is a head of the text.
pub proof fn lemma_trim_end(s: Seq<char>)
    ensures
        trim_end(s).len() <= s.len(),
        trim_end(s) == s.take(trim_end(s).len() as int),
        trim_end(s).len() > 0 ==> !is_space(trim_end(s).last()),
        (trim_end(s).len() == 0) == is_blank(s),
    decreases s.len(),
{
    if s.len() > 0 && is_space(s.last()) {
        let rest = s.drop_last();
        lemma_trim_end(rest);
        assert(trim_end(s) =~= s.take(trim_end(s).len() as int));
        if is_blank(rest) {
            assert forall|i: int| 0 <= i < s.len() implies is_space(#[trigger] s[i]) by {
                if i < rest.len() {
                    assert(s[i] == rest[i]);
                }
            }
        }
        if is_blank(s) {
            assert forall|i: int| 0 <= i < rest.len() implies is_space(#[trigger] rest[i]) by {
                assert(rest[i] == s[i]);
            }
        }
    } else {
        assert(s.take(s.len() as int) =~= s);
        if s.len() > 0 {
            assert(!is_blank(s));
        }
    }
}

/// The number of leading white space characters.
pub fn indent_len(s: &Vec<char>) -> (r: usize)
    ensures
        r == indent_of(s@),
        r <= s@.len(),
{
    let mut i: usize = 0;
    assert(s@.skip(0) =~= s@);
    while i < s.len() && char_is_space(s[i])
        invariant
            i <= s@.len(),
            trim_start(s@) == trim_start(s@.skip(i as int)),
        decreases s@.len() - i,
    {
        assert(s@.skip(i as int).drop_first() =~= s@.skip(i + 1));
        i = i + 1;
    }
    i
}

/// The length that trimming the end leaves.
pub fn trimmed_len(s: &Vec<char>) -> (r: usize)
    ensures
        r == trim_end(s@).len(),
        r <= s@.len(),
{
    let mut n: usize = s.len();
    assert(s@.take(n as int) =~= s@);
    while n > 0 && char_is_space(s[n - 1])
        invariant
            n <= s@.len(),
            trim_end(s@) == trim_end(s@.take(n as int)),
        decreases n,
    {
        assert(s@.take(n as int).drop_last() =~= s@.take(n - 1));
        n = n - 1;
    }
    n
}

/// `s` without its leading white space.
pub fn trim_start_of(s: &str) -> (r: String)
    ensures
        r@ == trim_start(s@),
{
    let chars = chars_of(s);
    let from = indent_len(&chars);
    let out = string_of(&chars, from, chars.len());
    proof {
        lemma_trim_start(s@);
        assert(out@ =~= s@.skip(indent_of(s@)));
    }
    out
}

/// `s` without its trailing white space.
pub fn trim_end_of(s: &str) -> (r: String)
    ensures
        r@ == trim_end(s@),
{
    let chars = chars_of(s);
    let to = trimmed_len(&chars);
    let out = string_of(&chars, 0, to);
    proof {
        lemma_trim_end(s@);
        assert(out@ =~= s@.take(to as int));
    }
    out
}

/// `s` without white space at either end.
pub fn trim_of(s: &str) -> (r: String)
    ensures
        r@ == trim(s@),
{
    let head = trim_start_of(s);
    trim_end_of(head.as_str())
}

/// Whether `s` holds nothing but white space.
pub fn blank(s: &str) -> (r: bool)
    ensures
        r == is_blank(s@),
{
    let chars = chars_of(s);
    let n = indent_len(&chars);
    proof {
        lemma_trim_start(s@);
    }
    n == chars.len()
}

// ---------------------------------------------------------------------------
// Splitting and joining
// ---------------------------------------------------------------------------

/// The pieces of `s` between the occurrences of `sep`; there is always one
/// piece more than there are separators.
pub open spec fn split(s: Seq<char>, sep: char) -> Seq<Seq<char>>
    decreases s.len(),
{
    if s.len() == 0 {
        seq![Seq::<char>::empty()]
    } else {
        let before = split(s.drop_last(), sep);
        if s.last() == sep {
            before.push(Seq::<char>::empty())
        } else {
            before.drop_last().push(before.last().push(s.last()))
        }
    }
}

/// A split has at least one piece.
pub proof fn lemma_split_not_empty(s: Seq<char>, sep: char)
    ensures
        split(s, sep).len() > 0,
    decreases s.len(),
{
    if s.len() > 0 {
        lemma_split_not_empty(s.drop_last(), sep);
    }
}

/// The pieces of `s` between the occurrences of `sep`.
pub fn split_on(s: &str, sep: char) -> (r: Vec<String>)
    ensures
        views(r@) == split(s@, sep),
        r@.len() > 0,
{
    let mut done: Vec<String> = Vec::new();
    let mut current: String = String::new();
    assert(views(done@).push(current@) =~= split(s@.take(0), sep));
    for c in iter: s.chars()
        invariant
            views(done@).push(current@) == split(iter.seq().take(iter.index()), sep),
            iter.seq() == s@,
    {
        let ghost before = s@.take(iter.index());
        let ghost after = s@.take(iter.index() + 1);
        assert(after.drop_last() =~= before);
        assert(split(before, sep).drop_last() =~= views(done@));
        if c == sep {
            done.push(current);
            current = String::new();
            assert(views(done@) =~= split(before, sep));
        } else {
            current.push(c);
        }
        assert(views(done@).push(current@) =~= split(after, sep));
    }
    assert(s@.take(s@.len() as int) =~= s@);
    done.push(current);
    assert(views(done@) =~= split(s@, sep));
    done
}

/// The words of `s`: its longest runs without white space, in order.
pub open spec fn words(s: Seq<char>) -> Seq<Seq<char>>
    decreases s.len(),
{
    if s.len() == 0 {
        Seq::empty()
    } else {
        let before = words(s.drop_last());
        if is_space(s.last()) {
            before
        } else if s.len() >= 2 && !is_space(s[s.len() - 2]) {
            before.drop_last().push(before.last().push(s.last()))
        } else {
            before.push(seq![s.last()])
        }
    }
}

/// The words of a text whose last character is no white space end in a word.
pub proof fn lemma_words_open(s: Seq<char>)
    requires
        s.len() > 0,
        !is_space(s.last()),
    ensures
        words(s).len() > 0,
{
}

/// The words of `s`.
pub fn words_of(s: &str) -> (r: Vec<String>)
    ensures
        views(r@) == words(s@),
{
    let chars = chars_of(s);
    let mut done: Vec<String> = Vec::new();
    let mut current: String = String::new();
    let mut open: bool = false;
    let mut i: usize = 0;
    assert(views(done@) =~= words(chars@.take(0)));
    while i < chars.len()
        invariant
            i <= chars@.len(),
            open == (i > 0 && !is_space(chars@[i - 1])),
            open ==> words(chars@.take(i as int)) == views(done@).push(current@),
            !open ==> words(chars@.take(i as int)) == views(done@) && current@.len() == 0,
        decreases chars@.len() - i,
    {
        let c = chars[i];
        let ghost before = chars@.take(i as int);
        let ghost after = chars@.take(i + 1);
        assert(after.drop_last() =~= before);
        if char_is_space(c) {
            if open {
                done.push(current);
                current = String::new();
                open = false;
                assert(views(done@) =~= words(before));
            }
        } else {
            if !open {
                assert(current@.push(c) =~= seq![c]);
            } else {
                assert(words(before).drop_last() =~= views(done@));
                assert(after[after.len() - 2] == chars@[i - 1]);
            }
            current.push(c);
            open = true;
            assert(views(done@).push(current@) =~= words(after));
        }
        i = i + 1;
    }
    assert(chars@.take(i as int) =~= s@);
    if open {
        done.push(current);
        assert(views(done@) =~= words(s@));
    }
    done
}

/// `line` without one carriage return at its end.
pub open spec fn without_cr(line: Seq<char>) -> Seq<char> {
    if line.len() > 0 && line.last() == '\r' {
        line.drop_last()
    } else {
        line
    }
}

/// The lines of `s`. A line ends with a line feed, or with a carriage return
/// and a line feed; the end of the last line is optional.
pub open spec fn lines(s: Seq<char>) -> Seq<Seq<char>> {
    let pieces = split(s, '\n');
    let ended = pieces.drop_last().map_values(|line: Seq<char>| without_cr(line));
    if pieces.last().len() == 0 {
        ended
    } else {
        ended.push(pieces.last())
    }
}

/// The lines of `s`.
pub fn lines_of(s: &str) -> (r: Vec<String>)
    ensures
        views(r@) == lines(s@),
{
    let pieces = split_on(s, '\n');
    let mut out: Vec<String> = Vec::new();
    let last: usize = pieces.len() - 1;
    let mut i: usize = 0;
    let ghost ended = split(s@, '\n').drop_last().map_values(
        |line: Seq<char>| without_cr(line),
    );
    while i < last
        invariant
            i <= last,
            last == pieces@.len() - 1,
            views(pieces@) == split(s@, '\n'),
            ended == split(s@, '\n').drop_last().map_values(|line: Seq<char>| without_cr(line)),
            views(out@) == ended.take(i as int),
        decreases last - i,
    {
        let mut line = pieces[i].clone();
        let chars = chars_of(line.as_str());
        assert(views(pieces@)[i as int] == pieces@[i as int]@);
        if chars.len() > 0 && chars[chars.len() - 1] == '\r' {
            let _cr = line.pop();
        }
        let ghost was = out@;
        let ghost piece = line@;
        assert(piece == ended[i as int]);
        out.push(line);
        assert(views(out@) =~= views(was).push(piece));
        assert(ended.take(i + 1) =~= ended.take(i as int).push(piece));
        i = i + 1;
    }
    assert(ended.take(last as int) =~= ended);
    assert(views(pieces@)[last as int] == pieces@[last as int]@);
    if !pieces[last].as_str().is_empty() {
        out.push(pieces[last].clone());
    }
    assert(views(out@) =~= lines(s@));
    out
}

/// The texts of `list` one behind the other, with `sep` between them.
pub open spec fn join(list: Seq<Seq<char>>, sep: Seq<char>) -> Seq<char>
    decreases list.len(),
{
    if list.len() == 0 {
        Seq::empty()
    } else if list.len() == 1 {
        list[0]
    } else {
        join(list.drop_last(), sep) + sep + list.last()
    }
}

/// The texts of `list` one behind the other, with `sep` between them.
pub fn join_all(list: &Vec<String>, sep: &str) -> (r: String)
    ensures
        r@ == join(views(list@), sep@),
{
    let mut out: String = String::new();
    let mut i: usize = 0;
    let ghost all = views(list@);
    while i < list.len()
        invariant
            i <= list@.len(),
            all == views(list@),
            out@ == join(all.take(i as int), sep@),
        decreases list@.len() - i,
    {
        let ghost before = all.take(i as int);
        let ghost after = all.take(i + 1);
        assert(after.drop_last() =~= before);
        assert(after.last() == list@[i as int]@);
        if i > 0 {
            out.append(sep);
        } else {
            assert(out@ + list@[0]@ =~= list@[0]@);
        }
        out.append(list[i].as_str());
        i = i + 1;
    }
    assert(all.take(i as int) =~= all);
    out
}

// ---------------------------------------------------------------------------
// Numbers
// ---------------------------------------------------------------------------

/// The decimal digit of a number below ten.
pub open spec fn digit(n: nat) -> char {
    (('0' as u8) + n) as char
}

/// The decimal digits of a number, without leading zeros.
pub open spec fn decimal(n: nat) -> Seq<char>
    decreases n,
{
    if n < 10 {
        seq![digit(n)]
    } else {
        decimal(n / 10).push(digit(n % 10))
    }
}

/// The decimal digits of a number.
pub fn decimal_of(n: u64) -> (r: String)
    ensures
        r@ == decimal(n as nat),
    decreases n,
{
    let d: u8 = (n % 10) as u8;
    let c: char = (48u8 + d) as char;
    if n < 10 {
        let mut out: String = String::new();
        out.push(c);
        assert(out@ =~= seq![digit(n as nat)]);
        out
    } else {
        let mut out = decimal_of(n / 10);
        out.push(c);
        out
    }
}

/// The value of a row of decimal digits.
pub open spec fn digits_value(s: Seq<char>) -> nat
    decreases s.len(),
{
    if s.len() == 0 {
        0
    } else {
        digits_value(s.drop_last()) * 10 + (s.last() as u8 - '0' as u8) as nat
    }
}

/// Whether `s` holds decimal digits only.
pub open spec fn all_digits(s: Seq<char>) -> bool {
    forall|i: int| 0 <= i < s.len() ==> is_digit(#[trigger] s[i])
}

/// The digits of an unsigned number as it is written: an optional plus sign
/// comes before them.
pub open spec fn unsigned_digits(s: Seq<char>) -> Seq<char> {
    if s.len() > 0 && s[0] == '+' {
        s.drop_first()
    } else {
        s
    }
}

/// The unsigned number that `s` writes, if it writes one and it is at most `max`.
pub open spec fn unsigned(s: Seq<char>, max: nat) -> Option<nat> {
    let digits = unsigned_digits(s);
    if digits.len() > 0 && all_digits(digits) && digits_value(digits) <= max {
        Some(digits_value(digits))
    } else {
        None
    }
}

/// The digits of a number write that number.
pub proof fn lemma_decimal(n: nat)
    ensures
        decimal(n).len() > 0,
        all_digits(decimal(n)),
        digits_value(decimal(n)) == n,
    decreases n,
{
    if n < 10 {
        assert(decimal(n).drop_last() =~= Seq::empty());
        assert(digits_value(Seq::empty()) == 0);
        assert(decimal(n).last() == digit(n));
    } else {
        lemma_decimal(n / 10);
        assert(decimal(n).drop_last() =~= decimal(n / 10));
        assert(decimal(n).last() == digit(n % 10));
    }
}

/// A longer row of digits has no smaller value.
proof fn lemma_digits_value_grows(s: Seq<char>, n: int)
    requires
        0 <= n <= s.len(),
    ensures
        digits_value(s.take(n)) <= digits_value(s),
    decreases s.len() - n,
{
    if n == s.len() {
        assert(s.take(n) =~= s);
    } else {
        lemma_digits_value_grows(s, n + 1);
        assert(s.take(n + 1).drop_last() =~= s.take(n));
    }
}

/// Reads an unsigned decimal number that is at most `max`.
pub fn parse_unsigned(s: &str, max: u64) -> (r: Option<u64>)
    ensures
        r is Some <==> unsigned(s@, max as nat) is Some,
        r matches Some(n) ==> unsigned(s@, max as nat) == Some(n as nat),
{
    let chars = chars_of(s);
    let first: usize = if chars.len() > 0 && chars[0] == '+' {
        1
    } else {
        0
    };
    let ghost digits = unsigned_digits(s@);
    assert(digits =~= s@.skip(first as int));
    if chars.len() == first {
        return None;
    }
    let mut value: u64 = 0;
    let mut i: usize = first;
    while i < chars.len()
        invariant
            first <= i <= chars@.len(),
            digits == chars@.skip(first as int),
            all_digits(digits.take(i - first)),
            digits_value(digits.take(i - first)) == value,
            value <= max,
            digits == unsigned_digits(s@),
        decreases chars@.len() - i,
    {
        let c = chars[i];
        let ghost k = i - first;
        assert(digits[k] == c);
        assert(digits.take(k + 1).drop_last() =~= digits.take(k));
        if c < '0' || c > '9' {
            assert(!is_digit(digits[k]));
            return None;
        }
        let d: u64 = (c as u8 - 48u8) as u64;
        let next: u128 = value as u128 * 10 + d as u128;
        assert(next == digits_value(digits.take(k + 1)));
        if next > max as u128 {
            proof {
                lemma_digits_value_grows(digits, k + 1);
            }
            return None;
        }
        value = next as u64;
        assert forall|j: int| 0 <= j < k + 1 implies is_digit(#[trigger] digits.take(k + 1)[j]) by {
            if j < k {
                assert(digits.take(k)[j] == digits[j]);
            }
        }
        i = i + 1;
    }
    assert(digits.take(digits.len() as int) =~= digits);
    Some(value)
}

/// The digits that a text begins with.
pub open spec fn leading_digits(s: Seq<char>) -> Seq<char>
    decreases s.len(),
{
    if s.len() > 0 && is_digit(s[0]) {
        seq![s[0]] + leading_digits(s.drop_first())
    } else {
        Seq::empty()
    }
}

/// Why a text writes no unsigned number that is at most `max`: the first character
/// decides that goes wrong.
pub open spec fn number_fault(s: Seq<char>, max: nat) -> Seq<char> {
    if s.len() == 0 {
        "cannot parse integer from empty string"@
    } else if digits_value(leading_digits(unsigned_digits(s))) > max {
        "number too large to fit in target type"@
    } else {
        "invalid digit found in string"@
    }
}

proof fn lemma_leading_digits(s: Seq<char>, n: int)
    requires
        0 <= n <= s.len(),
        all_digits(s.take(n)),
        n == s.len() || !is_digit(s[n]),
    ensures
        leading_digits(s) == s.take(n),
    decreases n,
{
    if n > 0 {
        assert(is_digit(s.take(n)[0]));
        let rest = s.drop_first();
        assert forall|i: int| 0 <= i < rest.take(n - 1).len() implies is_digit(
            #[trigger] rest.take(n - 1)[i],
        ) by {
            assert(is_digit(s.take(n)[i + 1]));
        }
        lemma_leading_digits(rest, n - 1);
        assert(leading_digits(s) =~= s.take(n));
    } else {
        assert(leading_digits(s) =~= s.take(0));
    }
}

/// Why a text writes no unsigned number that is at most `max`.
pub fn number_fault_of(s: &str, max: u64) -> (r: &'static str)
    ensures
        r@ == number_fault(s@, max as nat),
{
    let chars = chars_of(s);
    if chars.len() == 0 {
        return "cannot parse integer from empty string";
    }
    let first: usize = if chars[0] == '+' {
        1
    } else {
        0
    };
    let ghost digits = unsigned_digits(s@);
    assert(digits =~= s@.skip(first as int));
    let mut n: usize = first;
    while n < chars.len() && '0' <= chars[n] && chars[n] <= '9'
        invariant
            first <= n <= chars@.len(),
            digits == chars@.skip(first as int),
            all_digits(digits.take(n - first)),
        decreases chars@.len() - n,
    {
        assert(digits[n - first] == chars@[n as int]);
        assert forall|i: int| 0 <= i < n + 1 - first implies is_digit(
            #[trigger] digits.take(n + 1 - first)[i],
        ) by {
            if i < n - first {
                assert(is_digit(digits.take(n - first)[i]));
            }
        }
        n = n + 1;
    }
    proof {
        if n < chars@.len() {
            assert(digits[n - first] == chars@[n as int]);
        }
        lemma_leading_digits(digits, n - first);
    }
    let run = string_of(&chars, first, n);
    assert(run@ =~= digits.take(n - first));
    if n > first && parse_unsigned(run.as_str(), max).is_none() {
        assert(run@[0] == chars@[first as int]);
        assert(is_digit(digits.take(n - first)[0]));
        assert(unsigned_digits(run@) == run@);
        "number too large to fit in target type"
    } else {
        proof {
            if n > first {
                assert(is_digit(digits.take(n - first)[0]));
                assert(unsigned_digits(run@) == run@);
            } else {
                assert(run@ =~= Seq::empty());
            }
        }
        "invalid digit found in string"
    }
}

// ---------------------------------------------------------------------------
// Layout
// ---------------------------------------------------------------------------

/// `n` copies of the character `c`.
pub open spec fn fill(c: char, n: nat) -> Seq<char> {
    Seq::new(n, |i: int| c)
}

/// `s` with spaces behind it up to `width` characters.
pub open spec fn pad_right(s: Seq<char>, width: nat) -> Seq<char> {
    if s.len() >= width {
        s
    } else {
        s + fill(' ', (width - s.len()) as nat)
    }
}

/// `s` with spaces in front of it up to `width` characters.
pub open spec fn pad_left(s: Seq<char>, width: nat) -> Seq<char> {
    if s.len() >= width {
        s
    } else {
        fill(' ', (width - s.len()) as nat) + s
    }
}

/// A row of spaces.
pub fn spaces(n: usize) -> (r: String)
    ensures
        r@ == fill(' ', n as nat),
{
    let mut out: String = String::new();
    let mut i: usize = 0;
    while i < n
        invariant
            i <= n,
            out@ == fill(' ', i as nat),
        decreases n - i,
    {
        out.push(' ');
        i = i + 1;
        assert(out@ =~= fill(' ', i as nat));
    }
    assert(out@ =~= fill(' ', n as nat));
    out
}

/// `s` with spaces behind it up to `width` characters.
pub fn pad_right_to(s: &str, width: usize) -> (r: String)
    ensures
        r@ == pad_right(s@, width as nat),
{
    let n = char_count(s);
    let mut out = s.to_string();
    if n < width {
        let gap = spaces(width - n);
        out.append(gap.as_str());
    }
    out
}

/// `s` with spaces in front of it up to `width` characters.
pub fn pad_left_to(s: &str, width: usize) -> (r: String)
    ensures
        r@ == pad_left(s@, width as nat),
{
    let n = char_count(s);
    if n < width {
        let mut out = spaces(width - n);
        out.append(s);
        out
    } else {
        s.to_string()
    }
}

/// Two texts one behind the other.
pub fn concat2(a: &str, b: &str) -> (r: String)
    ensures
        r@ == a@ + b@,
{
    let mut out = a.to_string();
    out.append(b);
    out
}

/// Three texts one behind the other.
pub fn concat3(a: &str, b: &str, c: &str) -> (r: String)
    ensures
        r@ == a@ + b@ + c@,
{
    let mut out = concat2(a, b);
    out.append(c);
    out
}

} // verus!
