//! The Git log browser.

use vstd::prelude::*;

use crate::args::{parse_height, ArgError};
#[allow(unused_imports)]
use crate::args::{height_value, ArgFault};
use crate::config::{pending_status, KeyCode, KeyEvent, KeyPress, Keymap, KeymapMatch};
#[allow(unused_imports)]
use crate::config::{default_rows, lookup, normal_key, pending_text, Bound, MatchView, Rows};
use crate::inline_text::buffer::resize_anchor_row;
#[allow(unused_imports)]
use crate::inline_text::buffer::anchor_row;
use crate::inline_text::input::Screen;
#[allow(unused_imports)]
use crate::inline_text::input::{at_least, height_status};
#[allow(unused_imports)]
use crate::inline_text::model::{less, lesser, more};
use crate::layout::{head_and_foot, inside_frame, Area, Place};
#[allow(unused_imports)]
use crate::layout::{law_head_and_foot_fill, law_inner_lies_within};
use crate::style::{fill_up, Color, Line, Span, Style};
#[allow(unused_imports)]
use crate::style::{
    filled_up, in_color, line_views, plain_style, raw, span_views, styled, SpanView,
};
#[allow(unused_imports)]
use crate::text::{
    all_digits, has_part, has_prefix, is_blank, is_digit, join, lines, lowercase, pad_right, split,
    str_views, trim, trim_end, views,
};
use crate::text::{
    blank, chars_of, concat2, concat3, contains, decimal_of, join_all, lines_of, pad_right_to, same,
    split_on, starts_with, string_of, strip_prefix, to_lower, trim_end_of, trim_of,
};

pub mod laws;
pub mod options;

verus! {

/// The height of the viewport where none is asked for.
pub const DEFAULT_HEIGHT: u16 = 20;

/// The least height of the viewport.
pub const MIN_HEIGHT: u16 = 6;

// ---------------------------------------------------------------------------
// Commits
// ---------------------------------------------------------------------------

/// A commit.
#[derive(Debug, PartialEq, Eq)]
pub struct Commit {
    pub full_hash: String,
    pub short_hash: String,
    pub author_name: String,
    pub author_email: String,
    pub author_date: String,
    pub author_date_full: String,
    pub commit_date_full: String,
    pub refs: String,
    pub subject: String,
    pub body: String,
}

/// A commit.
#[verifier::ext_equal]
pub struct CommitView {
    pub full_hash: Seq<char>,
    pub short_hash: Seq<char>,
    pub author_name: Seq<char>,
    pub author_email: Seq<char>,
    pub author_date: Seq<char>,
    pub author_date_full: Seq<char>,
    pub commit_date_full: Seq<char>,
    pub refs: Seq<char>,
    pub subject: Seq<char>,
    pub body: Seq<char>,
}

impl View for Commit {
    type V = CommitView;

    open spec fn view(&self) -> CommitView {
        CommitView {
            full_hash: self.full_hash@,
            short_hash: self.short_hash@,
            author_name: self.author_name@,
            author_email: self.author_email@,
            author_date: self.author_date@,
            author_date_full: self.author_date_full@,
            commit_date_full: self.commit_date_full@,
            refs: self.refs@,
            subject: self.subject@,
            body: self.body@,
        }
    }
}

/// Commits as mathematical objects.
pub open spec fn commit_views(list: Seq<Commit>) -> Seq<CommitView> {
    list.map_values(|commit: Commit| commit@)
}

/// A record of the log lacks fields.
#[derive(Clone, Copy, Debug, PartialEq, Eq, Structural)]
pub struct MalformedRecord;

impl MalformedRecord {
    /// The fault as told to the user.
    pub fn message(self) -> (r: String)
        ensures
            r@ == "malformed git log record"@,
    {
        "malformed git log record".to_string()
    }
}

/// `s` without the line feeds in front.
pub open spec fn without_feeds(s: Seq<char>) -> Seq<char>
    decreases s.len(),
{
    if s.len() > 0 && s[0] == '\n' {
        without_feeds(s.drop_first())
    } else {
        s
    }
}

/// The commit of a record. The fields stand between separators; what follows the
/// ninth is the body, which need not be there.
pub open spec fn commit_of(record: Seq<char>) -> Option<CommitView> {
    let fields = split(without_feeds(record), '\u{1f}');
    if fields.len() < 9 {
        None
    } else {
        Some(
            CommitView {
                full_hash: fields[0],
                short_hash: fields[1],
                author_name: fields[2],
                author_email: fields[3],
                author_date: fields[4],
                author_date_full: fields[5],
                commit_date_full: fields[6],
                refs: fields[7],
                subject: fields[8],
                body: trim_end(join(fields.skip(9), seq!['\u{1f}'])),
            },
        )
    }
}

/// The records of a log: the pieces between record separators that are not blank.
pub open spec fn records(pieces: Seq<Seq<char>>) -> Seq<Seq<char>>
    decreases pieces.len(),
{
    if pieces.len() == 0 {
        Seq::empty()
    } else if is_blank(pieces.last()) {
        records(pieces.drop_last())
    } else {
        records(pieces.drop_last()).push(pieces.last())
    }
}

/// The commits of a log; `None` where a record is malformed.
pub open spec fn commits_of(source: Seq<char>) -> Option<Seq<CommitView>> {
    let list = records(split(source, '\u{1e}'));
    if forall|i: int| 0 <= i < list.len() ==> commit_of(#[trigger] list[i]) is Some {
        Some(list.map_values(|record: Seq<char>| commit_of(record)->0))
    } else {
        None
    }
}

/// Joining with one character in between.
fn join_with(list: &Vec<String>, from: usize, sep: char) -> (r: String)
    requires
        from <= list@.len(),
    ensures
        r@ == join(views(list@).skip(from as int), seq![sep]),
{
    let ghost all = views(list@).skip(from as int);
    let mut out: String = String::new();
    let mut i: usize = from;
    while i < list.len()
        invariant
            from <= i <= list@.len(),
            all == views(list@).skip(from as int),
            out@ == join(all.take(i - from), seq![sep]),
        decreases list@.len() - i,
    {
        let ghost before = all.take(i - from);
        let ghost after = all.take(i + 1 - from);
        assert(after.drop_last() =~= before);
        assert(after.last() == list@[i as int]@);
        let ghost was = out@;
        if i > from {
            out.push(sep);
            assert(out@ =~= was + seq![sep]);
        } else {
            assert(out@ + list@[i as int]@ =~= list@[i as int]@);
        }
        out.append(list[i].as_str());
        i = i + 1;
    }
    assert(all.take(i - from) =~= all);
    out
}

fn drop_feeds(s: &str) -> (r: String)
    ensures
        r@ == without_feeds(s@),
{
    let chars = chars_of(s);
    let mut i: usize = 0;
    assert(chars@.skip(0) =~= chars@);
    while i < chars.len() && chars[i] == '\n'
        invariant
            i <= chars@.len(),
            without_feeds(chars@) == without_feeds(chars@.skip(i as int)),
        decreases chars@.len() - i,
    {
        assert(chars@.skip(i as int).drop_first() =~= chars@.skip(i + 1));
        i = i + 1;
    }
    let out = string_of(&chars, i, chars.len());
    assert(out@ =~= chars@.skip(i as int));
    out
}

impl Commit {
    /// Reads the commits of a log.
    pub fn parse_many(source: &str) -> (r: Result<Vec<Commit>, MalformedRecord>)
        ensures
            match commits_of(source@) {
                Some(commits) => r matches Ok(list) && commit_views(list@) == commits,
                None => r is Err,
            },
    {
        let pieces = split_on(source, '\u{1e}');
        let ghost all = split(source@, '\u{1e}');
        let ghost wanted = records(all);
        let mut list: Vec<Commit> = Vec::new();
        let mut i: usize = 0;
        assert(records(all.take(0)) =~= Seq::empty());
        while i < pieces.len()
            invariant
                i <= pieces@.len(),
                views(pieces@) == all,
                all == split(source@, '\u{1e}'),
                wanted == records(all),
                commit_views(list@) == records(all.take(i as int)).map_values(
                    |record: Seq<char>| commit_of(record)->0,
                ),
                forall|j: int|
                    0 <= j < records(all.take(i as int)).len() ==> commit_of(
                        #[trigger] records(all.take(i as int))[j],
                    ) is Some,
            decreases pieces@.len() - i,
        {
            assert(all.take(i + 1).drop_last() =~= all.take(i as int));
            assert(all[i as int] == pieces@[i as int]@);
            let ghost before = records(all.take(i as int));
            let ghost was = commit_views(list@);
            if !blank(pieces[i].as_str()) {
                match Commit::parse_record(pieces[i].as_str()) {
                    Ok(commit) => {
                        let ghost added = commit@;
                        list.push(commit);
                        assert(commit_views(list@) =~= was.push(added));
                        assert(records(all.take(i + 1)) == before.push(all[i as int]));
                        assert(commit_views(list@) =~= records(all.take(i + 1)).map_values(
                            |record: Seq<char>| commit_of(record)->0,
                        ));
                    },
                    Err(fault) => {
                        proof {
                            lemma_records(all, i as int);
                        }
                        return Err(fault);
                    },
                }
            }
            i = i + 1;
        }
        assert(all.take(i as int) =~= all);
        Ok(list)
    }

    /// Reads the commit of a record.
    pub fn parse_record(record: &str) -> (r: Result<Commit, MalformedRecord>)
        ensures
            match commit_of(record@) {
                Some(commit) => r matches Ok(found) && found@ == commit,
                None => r is Err,
            },
    {
        let text = drop_feeds(record);
        let fields = split_on(text.as_str(), '\u{1f}');
        let ghost all = split(text@, '\u{1f}');
        if fields.len() < 9 {
            return Err(MalformedRecord);
        }
        let rest = join_with(&fields, 9, '\u{1f}');
        let body = trim_end_of(rest.as_str());
        assert forall|i: int| 0 <= i < fields@.len() implies #[trigger] fields@[i]@ == all[i] by {
            assert(views(fields@)[i] == fields@[i]@);
        }
        Ok(
            Commit {
                full_hash: fields[0].clone(),
                short_hash: fields[1].clone(),
                author_name: fields[2].clone(),
                author_email: fields[3].clone(),
                author_date: fields[4].clone(),
                author_date_full: fields[5].clone(),
                commit_date_full: fields[6].clone(),
                refs: fields[7].clone(),
                subject: fields[8].clone(),
                body,
            },
        )
    }

    /// A copy.
    pub fn copy(&self) -> (r: Commit)
        ensures
            r@ == self@,
    {
        Commit {
            full_hash: self.full_hash.clone(),
            short_hash: self.short_hash.clone(),
            author_name: self.author_name.clone(),
            author_email: self.author_email.clone(),
            author_date: self.author_date.clone(),
            author_date_full: self.author_date_full.clone(),
            commit_date_full: self.commit_date_full.clone(),
            refs: self.refs.clone(),
            subject: self.subject.clone(),
            body: self.body.clone(),
        }
    }

    /// What a search looks at.
    pub fn searchable_text(&self) -> (r: String)
        ensures
            r@ == self@.searched_text(),
    {
        let mut parts: Vec<String> = Vec::new();
        parts.push(self.full_hash.clone());
        parts.push(self.short_hash.clone());
        parts.push(self.author_name.clone());
        parts.push(self.author_email.clone());
        parts.push(self.author_date.clone());
        parts.push(self.author_date_full.clone());
        parts.push(self.commit_date_full.clone());
        parts.push(self.refs.clone());
        parts.push(self.subject.clone());
        parts.push(self.body.clone());
        assert(views(parts@) =~= self@.fields());
        let text = join_all(&parts, " ");
        to_lower(text.as_str())
    }

    /// What is left on the screen of a commit when the browser is left.
    pub fn summary_text(&self, color: bool) -> (r: String)
        ensures
            r@ == self@.summary(color),
    {
        let mut out: String = String::new();
        assert(out@ =~= Seq::empty());
        let hash = paint_value(self.full_hash.as_str(), AnsiColor::Cyan, color);
        let name = concat3(self.author_name.as_str(), " <", self.author_email.as_str());
        let name = concat2(name.as_str(), ">");
        let author = paint_value(name.as_str(), AnsiColor::Green, color);
        let first = summary_pair("commit", hash.as_str(), color);
        let second = summary_pair("author", author.as_str(), color);
        let line = concat3(first.as_str(), "    ", second.as_str());
        let line = concat2(line.as_str(), "\n");
        out.append(line.as_str());
        let written = paint_value(self.author_date_full.as_str(), AnsiColor::Yellow, color);
        let committed = paint_value(self.commit_date_full.as_str(), AnsiColor::Magenta, color);
        let first = summary_pair("author date", written.as_str(), color);
        let second = summary_pair("commit date", committed.as_str(), color);
        let line = concat3(first.as_str(), "    ", second.as_str());
        let line = concat2(line.as_str(), "\n");
        out.append(line.as_str());
        assert(out@ =~= self@.summary_head(color));
        if !self.refs.as_str().is_empty() {
            let refs = paint_value(self.refs.as_str(), AnsiColor::Blue, color);
            let line = summary_pair("refs", refs.as_str(), color);
            let line = concat2(line.as_str(), "\n");
            out.append(line.as_str());
        } else {
            assert(out@ =~= self@.summary_head(color) + Seq::<char>::empty());
        }
        out.append("\n");
        let subject = truncate_with_dots(self.subject.as_str(), 50);
        let subject = paint_value(subject.as_str(), AnsiColor::Bold, color);
        let line = summary_pair("subject", subject.as_str(), color);
        let line = concat2(line.as_str(), "\n");
        out.append(line.as_str());
        out
    }
}

/// The records of a longer list have those of a shorter one in front.
proof fn lemma_records(pieces: Seq<Seq<char>>, n: int)
    requires
        0 <= n < pieces.len(),
        !is_blank(pieces[n]),
    ensures
        records(pieces.take(n)).len() < records(pieces).len(),
        records(pieces)[records(pieces.take(n)).len() as int] == pieces[n],
    decreases pieces.len() - n,
{
    let k = records(pieces.take(n)).len() as int;
    if n == pieces.len() - 1 {
        assert(pieces.drop_last() =~= pieces.take(n));
    } else {
        let rest = pieces.drop_last();
        lemma_records(rest, n);
        assert(rest.take(n) =~= pieces.take(n));
        assert(records(pieces)[k] == records(rest)[k]);
    }
}

fn summary_pair(label: &str, value: &str, color: bool) -> (r: String)
    ensures
        r@ == pair(label@, value@, color),
{
    let head = paint_label(label, color);
    concat3(head.as_str(), " ", value)
}

/// A label and a value.
pub open spec fn pair(label: Seq<char>, value: Seq<char>, color: bool) -> Seq<char> {
    label_text(label, color) + " "@ + value
}

impl CommitView {
    /// The fields of a commit.
    pub open spec fn fields(self) -> Seq<Seq<char>> {
        seq![
            self.full_hash,
            self.short_hash,
            self.author_name,
            self.author_email,
            self.author_date,
            self.author_date_full,
            self.commit_date_full,
            self.refs,
            self.subject,
            self.body,
        ]
    }

    /// What a search looks at: all fields, in lower case.
    pub open spec fn searched_text(self) -> Seq<char> {
        lowercase(join(self.fields(), " "@))
    }

    /// The first two lines of the summary.
    pub open spec fn summary_head(self, color: bool) -> Seq<char> {
        pair("commit"@, value_text(self.full_hash, AnsiColor::Cyan, color), color) + "    "@ + pair(
            "author"@,
            value_text(
                self.author_name + " <"@ + self.author_email + ">"@,
                AnsiColor::Green,
                color,
            ),
            color,
        ) + "\n"@ + (pair(
            "author date"@,
            value_text(self.author_date_full, AnsiColor::Yellow, color),
            color,
        ) + "    "@ + pair(
            "commit date"@,
            value_text(self.commit_date_full, AnsiColor::Magenta, color),
            color,
        ) + "\n"@)
    }

    /// What is left on the screen: who and when, the refs if there are any, and
    /// the subject, cut where it is too long.
    pub open spec fn summary(self, color: bool) -> Seq<char> {
        self.summary_head(color) + (if self.refs.len() > 0 {
            pair("refs"@, value_text(self.refs, AnsiColor::Blue, color), color) + "\n"@
        } else {
            Seq::empty()
        }) + "\n"@ + (pair(
            "subject"@,
            value_text(cut_with_dots(self.subject, 50), AnsiColor::Bold, color),
            color,
        ) + "\n"@)
    }
}

// ---------------------------------------------------------------------------
// Colours of the terminal
// ---------------------------------------------------------------------------

/// A colour of the summary.
#[derive(Clone, Copy, Debug, PartialEq, Eq, Structural)]
pub enum AnsiColor {
    Blue,
    Bold,
    Cyan,
    Green,
    Magenta,
    Yellow,
}

/// A label, grey if colours are used.
pub open spec fn label_text(text: Seq<char>, color: bool) -> Seq<char> {
    if color {
        "\x1b[90m"@ + text + "\x1b[0m"@
    } else {
        text
    }
}

/// The sequence that begins a colour.
pub open spec fn color_start(ansi: AnsiColor) -> Seq<char> {
    match ansi {
        AnsiColor::Blue => "\x1b[34m"@,
        AnsiColor::Bold => "\x1b[1m"@,
        AnsiColor::Cyan => "\x1b[36m"@,
        AnsiColor::Green => "\x1b[32m"@,
        AnsiColor::Magenta => "\x1b[35m"@,
        AnsiColor::Yellow => "\x1b[33m"@,
    }
}

/// A value, in colour if colours are used.
pub open spec fn value_text(text: Seq<char>, ansi: AnsiColor, color: bool) -> Seq<char> {
    if color {
        color_start(ansi) + text + "\x1b[0m"@
    } else {
        text
    }
}

/// A label, grey if colours are used.
pub fn paint_label(text: &str, color: bool) -> (r: String)
    ensures
        r@ == label_text(text@, color),
{
    if color {
        concat3("\x1b[90m", text, "\x1b[0m")
    } else {
        text.to_string()
    }
}

/// A value, in colour if colours are used.
pub fn paint_value(text: &str, ansi: AnsiColor, color: bool) -> (r: String)
    ensures
        r@ == value_text(text@, ansi, color),
{
    if !color {
        return text.to_string();
    }
    let start = match ansi {
        AnsiColor::Blue => "\x1b[34m",
        AnsiColor::Bold => "\x1b[1m",
        AnsiColor::Cyan => "\x1b[36m",
        AnsiColor::Green => "\x1b[32m",
        AnsiColor::Magenta => "\x1b[35m",
        AnsiColor::Yellow => "\x1b[33m",
    };
    concat3(start, text, "\x1b[0m")
}

/// `text` cut to `max` characters, the last of which then is a tilde.
pub open spec fn cut(text: Seq<char>, max: int) -> Seq<char> {
    if text.len() <= max {
        text
    } else {
        text.take(less(max, 1)).push('~')
    }
}

/// `text` cut to `max` characters, with dots behind what is left of it.
pub open spec fn cut_with_dots(text: Seq<char>, max: int) -> Seq<char> {
    if text.len() <= max {
        text
    } else {
        trim_end(text.take(max)) + "..."@
    }
}

/// `text` cut to `max` characters, the last of which then is a tilde.
pub fn truncate(text: &str, max: usize) -> (r: String)
    ensures
        r@ == cut(text@, max as int),
{
    let chars = chars_of(text);
    if chars.len() <= max {
        return text.to_string();
    }
    let kept: usize = max.saturating_sub(1);
    let mut out = string_of(&chars, 0, kept);
    assert(out@ =~= text@.take(kept as int));
    out.push('~');
    out
}

/// `text` cut to `max` characters, with dots behind what is left of it.
pub fn truncate_with_dots(text: &str, max: usize) -> (r: String)
    ensures
        r@ == cut_with_dots(text@, max as int),
{
    let chars = chars_of(text);
    if chars.len() <= max {
        return text.to_string();
    }
    let head = string_of(&chars, 0, max);
    assert(head@ =~= text@.take(max as int));
    let trimmed = trim_end_of(head.as_str());
    concat2(trimmed.as_str(), "...")
}

// ---------------------------------------------------------------------------
// The browser
// ---------------------------------------------------------------------------

/// Which way a search goes.
#[derive(Clone, Copy, Debug, PartialEq, Eq, Structural)]
pub enum SearchDirection {
    Forward,
    Reverse,
}

/// A search under way.
#[derive(Debug)]
pub struct SearchState {
    pub query: String,
    pub direction: SearchDirection,
}

/// The browser.
#[derive(Debug)]
pub struct App {
    pub commits: Vec<Commit>,
    pub selected: usize,
    /// The first visible row. An expanded commit has more than one row, so this
    /// is no number of a commit.
    pub scroll_y: usize,
    pub expanded: Option<usize>,
    pub status: String,
    pub pending_keys: Vec<KeyPress>,
    pub search: Option<SearchState>,
    pub visible_height: usize,
    pub height: u16,
    pub restore_height: Option<u16>,
    pub fullscreen: bool,
    pub last_drawn_height: u16,
    pub last_drawn_top: u16,
    pub accepted: bool,
}

/// A search under way.
#[verifier::ext_equal]
pub struct Search {
    pub query: Seq<char>,
    pub direction: SearchDirection,
}

/// The browser.
#[verifier::ext_equal]
pub struct AppView {
    pub commits: Seq<CommitView>,
    pub selected: int,
    pub scroll_y: int,
    pub expanded: Option<usize>,
    pub status: Seq<char>,
    pub pending: Seq<KeyPress>,
    pub search: Option<Search>,
    pub visible_height: int,
    pub height: u16,
    pub restore_height: Option<u16>,
    pub fullscreen: bool,
    pub last_drawn_height: u16,
    pub last_drawn_top: u16,
    pub accepted: bool,
}

impl View for App {
    type V = AppView;

    open spec fn view(&self) -> AppView {
        AppView {
            commits: commit_views(self.commits@),
            selected: self.selected as int,
            scroll_y: self.scroll_y as int,
            expanded: self.expanded,
            status: self.status@,
            pending: self.pending_keys@,
            search: match self.search {
                Some(search) => Some(
                    Search { query: search.query@, direction: search.direction },
                ),
                None => None,
            },
            visible_height: self.visible_height as int,
            height: self.height,
            restore_height: self.restore_height,
            fullscreen: self.fullscreen,
            last_drawn_height: self.last_drawn_height,
            last_drawn_top: self.last_drawn_top,
            accepted: self.accepted,
        }
    }
}

/// The first commit in `from..to` that matches.
pub open spec fn match_up_to(commits: Seq<CommitView>, query: Seq<char>, from: int, to: int) -> Option<
    int,
>
    decreases to - from,
{
    if from >= to {
        None
    } else if has_part(commits[from].searched_text(), query) {
        Some(from)
    } else {
        match_up_to(commits, query, from + 1, to)
    }
}

/// The last commit in `from..to` that matches.
pub open spec fn match_down_to(commits: Seq<CommitView>, query: Seq<char>, from: int, to: int) -> Option<
    int,
>
    decreases to - from,
{
    if from >= to {
        None
    } else if has_part(commits[to - 1].searched_text(), query) {
        Some(to - 1)
    } else {
        match_down_to(commits, query, from, to - 1)
    }
}

/// The number of rows of an expanded commit below its own.
pub open spec fn detail_count(commit: CommitView) -> int {
    4 + (if commit.refs.len() > 0 {
        1int
    } else {
        0
    }) + (if commit.body.len() == 0 {
        1
    } else {
        lines(commit.body).len() as int
    })
}

impl AppView {
    /// With another status.
    pub open spec fn saying(self, status: Seq<char>) -> AppView {
        AppView { status, ..self }
    }

    /// A commit is selected, if there is one.
    pub open spec fn wf(self) -> bool {
        &&& 0 <= self.selected
        &&& self.selected < self.commits.len() || self.selected == 0
    }

    /// The selection moved.
    pub open spec fn selecting(self, delta: int) -> AppView {
        if self.commits.len() == 0 {
            self
        } else if delta < 0 {
            AppView { selected: less(self.selected, -delta), ..self }
        } else {
            AppView {
                selected: lesser(self.selected + delta, self.commits.len() - 1),
                ..self
            }
        }
    }

    /// The number of commits of a page.
    pub open spec fn page(self) -> int {
        if self.visible_height > 3 {
            self.visible_height - 2
        } else {
            1
        }
    }

    /// The selected commit expanded, or collapsed if it was expanded.
    pub open spec fn toggled(self) -> AppView {
        AppView {
            expanded: if self.expanded == Some(self.selected as usize) {
                None
            } else {
                Some(self.selected as usize)
            },
            ..self
        }
    }

    /// The status that shows the search.
    pub open spec fn showing_search(self) -> AppView {
        match self.search {
            Some(search) => self.saying(
                (match search.direction {
                    SearchDirection::Forward => "I-search"@,
                    SearchDirection::Reverse => "I-search backward"@,
                }) + ": "@ + search.query,
            ),
            None => self,
        }
    }

    /// A search begun.
    pub open spec fn search_begun(self, direction: SearchDirection) -> AppView {
        AppView {
            search: Some(Search { query: Seq::empty(), direction }),
            ..self
        }.showing_search()
    }

    /// The search given up.
    pub open spec fn search_cancelled(self) -> AppView {
        match self.search {
            Some(_) => AppView { search: None, status: "search cancelled"@, ..self },
            None => self,
        }
    }

    /// The search ended.
    pub open spec fn search_finished(self) -> AppView {
        match self.search {
            Some(_) => AppView { search: None, status: "search done"@, ..self },
            None => self,
        }
    }

    /// The match of a query, from commit `start` on in a direction, going round
    /// at the end of the list.
    pub open spec fn found(self, direction: SearchDirection, query: Seq<char>, start: int) -> Option<
        int,
    > {
        let n = self.commits.len() as int;
        if n == 0 {
            None
        } else {
            match direction {
                SearchDirection::Forward => match match_up_to(self.commits, query, start, n) {
                    Some(i) => Some(i),
                    None => match_up_to(self.commits, query, 0, lesser(start, n)),
                },
                SearchDirection::Reverse => match match_down_to(
                    self.commits,
                    query,
                    0,
                    lesser(start, n - 1) + 1,
                ) {
                    Some(i) => Some(i),
                    None => match_down_to(self.commits, query, lesser(start + 1, n), n),
                },
            }
        }
    }

    /// The search done: from the selection on, or from behind it if it is repeated.
    pub open spec fn searched(self, repeated: bool) -> AppView {
        match self.search {
            None => self,
            Some(search) => if search.query.len() == 0 || self.commits.len() == 0 {
                self.showing_search()
            } else {
                let start = if repeated {
                    match search.direction {
                        SearchDirection::Forward => more(self.selected, 1),
                        SearchDirection::Reverse => less(self.selected, 1),
                    }
                } else {
                    self.selected
                };
                match self.found(search.direction, lowercase(search.query), start) {
                    Some(i) => AppView { selected: i, ..self }.showing_search(),
                    None => self.showing_search(),
                }
            },
        }
    }

    /// With another text sought.
    pub open spec fn seeking(self, query: Seq<char>) -> AppView {
        match self.search {
            Some(search) => AppView { search: Some(Search { query, ..search }), ..self },
            None => self,
        }
    }

    /// A character added to what is sought.
    pub open spec fn search_typed(self, ch: char) -> AppView {
        match self.search {
            Some(search) => self.seeking(search.query.push(ch)).searched(false),
            None => self,
        }
    }

    /// The last character of what is sought taken off.
    pub open spec fn search_backspaced(self) -> AppView {
        match self.search {
            Some(search) => self.seeking(
                if search.query.len() > 0 {
                    search.query.drop_last()
                } else {
                    search.query
                },
            ).searched(false),
            None => self,
        }
    }

    /// The search gone on with in a direction.
    pub open spec fn search_repeated(self, direction: SearchDirection) -> AppView {
        match self.search {
            Some(search) => AppView {
                search: Some(Search { direction, ..search }),
                ..self
            }.searched(true),
            None => self,
        }
    }

    // -----------------------------------------------------------------------
    // Rows
    // -----------------------------------------------------------------------

    /// The number of rows of a commit.
    pub open spec fn rows_of(self, i: int) -> int {
        if 0 <= i < self.commits.len() {
            if self.expanded == Some(i as usize) && i <= usize::MAX {
                1 + detail_count(self.commits[i])
            } else {
                1
            }
        } else {
            0
        }
    }

    /// The number of rows of the commits before `i`.
    pub open spec fn row_of(self, i: int) -> int
        decreases i,
    {
        if i <= 0 {
            0
        } else {
            self.row_of(i - 1) + self.rows_of(i - 1)
        }
    }

    /// The row where commit `i` begins; for commits behind the last one, the end.
    pub open spec fn offset(self, i: int) -> int {
        self.row_of(lesser(i, self.commits.len() as int))
    }

    /// The rows can be counted.
    pub open spec fn rows_fit(self) -> bool {
        self.row_of(self.commits.len() as int) <= usize::MAX
    }

    /// The first row at or behind `desired`, from commit `i` on, where a commit
    /// begins, or `row` if that is less.
    pub open spec fn aligned(self, i: int, desired: int, row: int) -> int
        decreases self.commits.len() - i,
    {
        if i >= self.commits.len() {
            row
        } else if desired <= self.row_of(i) {
            lesser(self.row_of(i), row)
        } else if desired < self.row_of(i + 1) {
            lesser(self.row_of(i + 1), row)
        } else {
            self.aligned(i + 1, desired, row)
        }
    }

    /// Scrolled so far that the selection is seen.
    pub open spec fn revealed(self, height: int) -> AppView {
        let row = self.offset(self.selected);
        AppView {
            scroll_y: if row < self.scroll_y {
                row
            } else if row >= more(self.scroll_y, height) {
                self.aligned(0, less(row, less(height, 1)), row)
            } else {
                self.scroll_y
            },
            ..self
        }
    }
}

/// No row of a commit counts backward.
pub proof fn lemma_rows(app: AppView, i: int, j: int)
    requires
        0 <= i <= j <= app.commits.len(),
    ensures
        0 <= app.row_of(i) <= app.row_of(j),
        app.row_of(j) - app.row_of(i) >= j - i,
    decreases j,
{
    if i < j {
        lemma_rows(app, i, j - 1);
    } else if i > 0 {
        lemma_rows(app, i - 1, i - 1);
    }
}

impl App {
    /// A browser of commits.
    pub fn new(commits: Vec<Commit>, height: u16) -> (r: App)
        ensures
            r@.commits == commit_views(commits@),
            r@.selected == 0,
            r@.scroll_y == 0,
            r@.expanded is None,
            r@.status == (if commits@.len() == 0 {
                "no commits"@
            } else {
                "Ctrl-S search  / expand  Alt-Y copy SHA"@
            }),
            r@.pending.len() == 0,
            r@.search is None,
            r@.visible_height == at_least(height, MIN_HEIGHT),
            r@.height == at_least(height, MIN_HEIGHT),
            r@.restore_height is None,
            !r@.fullscreen,
            r@.last_drawn_height == at_least(height, MIN_HEIGHT),
            r@.last_drawn_top == 0,
            !r@.accepted,
            r@.wf(),
    {
        let status = if commits.len() == 0 {
            "no commits".to_string()
        } else {
            "Ctrl-S search  / expand  Alt-Y copy SHA".to_string()
        };
        let height = greater(height, MIN_HEIGHT);
        App {
            commits,
            selected: 0,
            scroll_y: 0,
            expanded: None,
            status,
            pending_keys: Vec::new(),
            search: None,
            visible_height: height as usize,
            height,
            restore_height: None,
            fullscreen: false,
            last_drawn_height: height,
            last_drawn_top: 0,
            accepted: false,
        }
    }

    /// The selected commit, if there is one.
    pub fn selected_commit(&self) -> (r: Option<&Commit>)
        ensures
            match r {
                Some(commit) => self@.selected < self@.commits.len() && commit@
                    == self@.commits[self@.selected],
                None => self@.selected >= self@.commits.len(),
            },
    {
        if self.selected < self.commits.len() {
            Some(&self.commits[self.selected])
        } else {
            None
        }
    }

    /// Moves the selection.
    pub fn select_delta(&mut self, delta: isize)
        ensures
            final(self)@ == old(self)@.selecting(delta as int),
    {
        if self.commits.len() == 0 {
            return;
        }
        let max: usize = self.commits.len() - 1;
        if delta < 0 {
            let amount: usize = (-(delta + 1)) as usize + 1;
            self.selected = self.selected.saturating_sub(amount);
        } else {
            let wanted: usize = self.selected.saturating_add(delta as usize);
            self.selected = if wanted < max {
                wanted
            } else {
                max
            };
        }
    }

    /// The number of commits of a page.
    pub fn visible_page_amount(&self) -> (n: isize)
        requires
            self@.visible_height <= isize::MAX,
        ensures
            n == self@.page(),
    {
        if self.visible_height > 3 {
            (self.visible_height - 2) as isize
        } else {
            1
        }
    }

    /// Expands the selected commit, or collapses it.
    pub fn toggle_expand(&mut self)
        ensures
            final(self)@ == old(self)@.toggled(),
    {
        let is_expanded = match self.expanded {
            Some(i) => i == self.selected,
            None => false,
        };
        self.expanded = if is_expanded {
            None
        } else {
            Some(self.selected)
        };
    }

    /// Takes the selected commit.
    pub fn accept(&mut self)
        ensures
            final(self)@ == (AppView { accepted: true, ..old(self)@ }),
    {
        self.accepted = true;
    }

    /// Begins a search.
    pub fn begin_search(&mut self, direction: SearchDirection)
        ensures
            final(self)@ == old(self)@.search_begun(direction),
    {
        self.search = Some(SearchState { query: String::new(), direction });
        self.update_search_status();
    }

    /// Gives up the search.
    pub fn cancel_search(&mut self)
        ensures
            final(self)@ == old(self)@.search_cancelled(),
    {
        if let Some(_search) = self.search.take() {
            self.status = "search cancelled".to_string();
        }
    }

    /// Ends the search.
    pub fn finish_search(&mut self)
        ensures
            final(self)@ == old(self)@.search_finished(),
    {
        if let Some(_search) = self.search.take() {
            self.status = "search done".to_string();
        }
    }

    /// Adds a character to what is sought.
    pub fn search_insert_char(&mut self, ch: char)
        requires
            old(self)@.wf(),
        ensures
            final(self)@ == old(self)@.search_typed(ch),
            final(self)@.wf(),
    {
        if let Some(search) = self.search.take() {
            let mut query = search.query;
            query.push(ch);
            self.search = Some(SearchState { query, direction: search.direction });
        }
        self.apply_search(false);
    }

    /// Takes the last character off what is sought.
    pub fn search_backspace(&mut self)
        requires
            old(self)@.wf(),
        ensures
            final(self)@ == old(self)@.search_backspaced(),
            final(self)@.wf(),
    {
        if let Some(search) = self.search.take() {
            let mut query = search.query;
            let _last: Option<char> = query.pop();
            self.search = Some(SearchState { query, direction: search.direction });
        }
        self.apply_search(false);
    }

    /// Goes on with the search in a direction.
    pub fn search_repeat(&mut self, direction: SearchDirection)
        requires
            old(self)@.wf(),
        ensures
            final(self)@ == old(self)@.search_repeated(direction),
            final(self)@.wf(),
    {
        if let Some(search) = self.search.take() {
            self.search = Some(SearchState { query: search.query, direction });
        }
        self.apply_search(true);
    }

    /// Does the search.
    pub fn apply_search(&mut self, repeated: bool)
        requires
            old(self)@.wf(),
        ensures
            final(self)@ == old(self)@.searched(repeated),
            final(self)@.wf(),
    {
        let Some(search) = self.search.as_ref() else {
            return;
        };
        if search.query.as_str().is_empty() || self.commits.len() == 0 {
            self.update_search_status();
            return;
        }
        let query = to_lower(search.query.as_str());
        let start: usize = if repeated {
            match search.direction {
                SearchDirection::Forward => self.selected.saturating_add(1),
                SearchDirection::Reverse => self.selected.saturating_sub(1),
            }
        } else {
            self.selected
        };
        let hit = self.find_match(search.direction, query.as_str(), start);
        if let Some(i) = hit {
            self.selected = i;
        }
        self.update_search_status();
    }

    /// The match of a query, from commit `start` on in a direction.
    pub fn find_match(&self, direction: SearchDirection, query: &str, start: usize) -> (r: Option<
        usize,
    >)
        requires
            direction is Reverse ==> start < usize::MAX,
        ensures
            match self@.found(direction, query@, start as int) {
                Some(i) => r matches Some(k) && k == i && k < self@.commits.len(),
                None => r is None,
            },
    {
        let n: usize = self.commits.len();
        if n == 0 {
            return None;
        }
        match direction {
            SearchDirection::Forward => match self.first_match(query, start, n) {
                Some(i) => Some(i),
                None => {
                    let end: usize = if start < n {
                        start
                    } else {
                        n
                    };
                    self.first_match(query, 0, end)
                },
            },
            SearchDirection::Reverse => {
                let end: usize = if start < n - 1 {
                    start + 1
                } else {
                    n
                };
                match self.last_match(query, 0, end) {
                    Some(i) => Some(i),
                    None => {
                        let from: usize = if start + 1 < n {
                            start + 1
                        } else {
                            n
                        };
                        self.last_match(query, from, n)
                    },
                }
            },
        }
    }

    /// The first commit in `from..to` that matches.
    fn first_match(&self, query: &str, from: usize, to: usize) -> (r: Option<usize>)
        requires
            to <= self@.commits.len(),
        ensures
            match match_up_to(self@.commits, query@, from as int, to as int) {
                Some(i) => r matches Some(k) && k == i && from <= k < to,
                None => r is None,
            },
    {
        let mut i: usize = from;
        while i < to
            invariant
                from <= i,
                to <= self@.commits.len(),
                match_up_to(self@.commits, query@, from as int, to as int) == match_up_to(
                    self@.commits,
                    query@,
                    i as int,
                    to as int,
                ),
            decreases to - i,
        {
            assert(self@.commits[i as int] == self.commits@[i as int]@);
            let text = self.commits[i].searchable_text();
            if contains(text.as_str(), query) {
                return Some(i);
            }
            i = i + 1;
        }
        None
    }

    /// The last commit in `from..to` that matches.
    fn last_match(&self, query: &str, from: usize, to: usize) -> (r: Option<usize>)
        requires
            to <= self@.commits.len(),
        ensures
            match match_down_to(self@.commits, query@, from as int, to as int) {
                Some(i) => r matches Some(k) && k == i && from <= k < to,
                None => r is None,
            },
    {
        let mut i: usize = to;
        while i > from
            invariant
                i <= to <= self@.commits.len(),
                match_down_to(self@.commits, query@, from as int, to as int) == match_down_to(
                    self@.commits,
                    query@,
                    from as int,
                    i as int,
                ),
            decreases i,
        {
            assert(self@.commits[i - 1] == self.commits@[i - 1]@);
            let text = self.commits[i - 1].searchable_text();
            if contains(text.as_str(), query) {
                return Some(i - 1);
            }
            i = i - 1;
        }
        None
    }

    /// Shows the search in the status.
    pub fn update_search_status(&mut self)
        ensures
            final(self)@ == old(self)@.showing_search(),
    {
        if let Some(search) = self.search.as_ref() {
            let label = match search.direction {
                SearchDirection::Forward => "I-search",
                SearchDirection::Reverse => "I-search backward",
            };
            let status = concat3(label, ": ", search.query.as_str());
            self.status = status;
        }
    }

    /// The number of rows of a commit.
    pub fn commit_render_height(&self, commit_idx: usize) -> (n: u128)
        ensures
            n == self@.rows_of(commit_idx as int),
            n <= usize::MAX as u128 + 8,
    {
        if commit_idx >= self.commits.len() {
            return 0;
        }
        assert(self@.commits[commit_idx as int] == self.commits@[commit_idx as int]@);
        let is_expanded = match self.expanded {
            Some(i) => i == commit_idx,
            None => false,
        };
        if is_expanded {
            1 + expanded_commit_line_count(&self.commits[commit_idx])
        } else {
            1
        }
    }

    /// Whether the rows can be counted.
    pub fn can_count_rows(&self) -> (r: bool)
        ensures
            r == self@.rows_fit(),
    {
        let n: usize = self.commits.len();
        let mut total: u128 = 0;
        let mut i: usize = 0;
        while i < n
            invariant
                i <= n == self@.commits.len(),
                total == self@.row_of(i as int),
                total <= usize::MAX,
            decreases n - i,
        {
            total = total + self.commit_render_height(i);
            i = i + 1;
            if total > usize::MAX as u128 {
                proof {
                    lemma_rows(self@, i as int, n as int);
                }
                return false;
            }
        }
        true
    }

    /// The row where a commit begins.
    pub fn row_offset_for_commit(&self, commit_idx: usize) -> (n: usize)
        requires
            self@.rows_fit(),
        ensures
            n == self@.offset(commit_idx as int),
    {
        let end: usize = if commit_idx < self.commits.len() {
            commit_idx
        } else {
            self.commits.len()
        };
        let mut total: usize = 0;
        let mut i: usize = 0;
        while i < end
            invariant
                i <= end <= self@.commits.len(),
                self@.rows_fit(),
                total == self@.row_of(i as int),
            decreases end - i,
        {
            proof {
                lemma_rows(self@, i + 1, self@.commits.len() as int);
                lemma_rows(self@, i as int, i + 1);
            }
            total = total + self.commit_render_height(i) as usize;
            i = i + 1;
        }
        total
    }

    /// The first row at or behind `desired` where a commit begins, or
    /// `selected_row` if that is less.
    fn commit_aligned_scroll_offset(&self, desired: usize, selected_row: usize) -> (n: usize)
        requires
            self@.rows_fit(),
        ensures
            n == self@.aligned(0, desired as int, selected_row as int),
    {
        let n: usize = self.commits.len();
        let mut offset: usize = 0;
        let mut i: usize = 0;
        while i < n
            invariant
                i <= n == self@.commits.len(),
                self@.rows_fit(),
                offset == self@.row_of(i as int),
                self@.aligned(0, desired as int, selected_row as int) == self@.aligned(
                    i as int,
                    desired as int,
                    selected_row as int,
                ),
            decreases n - i,
        {
            proof {
                lemma_rows(self@, i + 1, n as int);
                lemma_rows(self@, i as int, i + 1);
            }
            let next_offset: usize = offset + self.commit_render_height(i) as usize;
            if desired <= offset {
                return if offset < selected_row {
                    offset
                } else {
                    selected_row
                };
            }
            if desired < next_offset {
                return if next_offset < selected_row {
                    next_offset
                } else {
                    selected_row
                };
            }
            offset = next_offset;
            i = i + 1;
        }
        selected_row
    }

    /// Scrolls so far that the selection is seen.
    pub fn ensure_selection_visible(&mut self, height: usize)
        requires
            old(self)@.rows_fit(),
        ensures
            final(self)@ == old(self)@.revealed(height as int),
    {
        let row = self.row_offset_for_commit(self.selected);
        if row < self.scroll_y {
            self.scroll_y = row;
        } else if row >= self.scroll_y.saturating_add(height) {
            self.scroll_y = self.commit_aligned_scroll_offset(
                row.saturating_sub(height.saturating_sub(1)),
                row,
            );
        }
    }
}

fn greater(a: u16, b: u16) -> (r: u16)
    ensures
        r == at_least(a, b),
{
    if a < b {
        b
    } else {
        a
    }
}

/// The number of rows of an expanded commit below its own.
pub fn expanded_commit_line_count(commit: &Commit) -> (n: u128)
    ensures
        n == detail_count(commit@),
        n <= usize::MAX as u128 + 7,
{
    let refs: u128 = if commit.refs.as_str().is_empty() {
        0
    } else {
        1
    };
    let message: u128 = if commit.body.as_str().is_empty() {
        1
    } else {
        lines_of(commit.body.as_str()).len() as u128
    };
    4 + refs + message
}

// ---------------------------------------------------------------------------
// What is shown
// ---------------------------------------------------------------------------

/// The row of a commit.
pub open spec fn commit_row(commit: CommitView, selected: bool, expanded: bool) -> Seq<SpanView> {
    let style = if selected {
        Style { bg: Some(Color::DarkGray), ..plain_style() }
    } else {
        plain_style()
    };
    seq![
        styled(
            if expanded {
                "/"@
            } else {
                " "@
            },
            Style { fg: Some(Color::Yellow), ..style },
        ),
        raw(" "@),
        styled(pad_right(commit.short_hash, 9), Style { fg: Some(Color::Cyan), ..style }),
        styled(pad_right(commit.author_date, 11), Style { fg: Some(Color::Green), ..style }),
        styled(pad_right(cut(commit.author_name, 17), 18), style),
        styled(
            commit.subject + (if commit.refs.len() == 0 {
                Seq::empty()
            } else {
                " ("@ + commit.refs + ")"@
            }),
            style,
        ),
    ]
}

/// The row of a commit.
pub fn render_commit_row(commit: &Commit, selected: bool, expanded: bool) -> (r: Line)
    ensures
        r@ == commit_row(commit@, selected, expanded),
{
    let style = if selected {
        Style::default().with_bg(Color::DarkGray)
    } else {
        Style::default()
    };
    let marker = if expanded {
        "/"
    } else {
        " "
    };
    let refs = if commit.refs.as_str().is_empty() {
        String::new()
    } else {
        concat3(" (", commit.refs.as_str(), ")")
    };
    let name = truncate(commit.author_name.as_str(), 17);
    let mut spans: Vec<Span> = Vec::new();
    spans.push(Span::styled(marker.to_string(), style.with_fg(Color::Yellow)));
    spans.push(Span::raw(" ".to_string()));
    spans.push(
        Span::styled(pad_right_to(commit.short_hash.as_str(), 9), style.with_fg(Color::Cyan)),
    );
    spans.push(
        Span::styled(pad_right_to(commit.author_date.as_str(), 11), style.with_fg(Color::Green)),
    );
    spans.push(Span::styled(pad_right_to(name.as_str(), 18), style));
    spans.push(Span::styled(concat2(commit.subject.as_str(), refs.as_str()), style));
    assert(span_views(spans@) =~= commit_row(commit@, selected, expanded));
    Line::of(spans)
}

/// The rows below an expanded commit: its hash, its author and dates, its refs,
/// and its body.
pub open spec fn detail_rows(commit: CommitView) -> Seq<Seq<SpanView>> {
    seq![
        seq![raw("    commit "@), styled(commit.full_hash, in_color(Color::Cyan))],
        seq![raw("    Author: "@ + commit.author_name + " <"@ + (commit.author_email + ">"@))],
        seq![raw("    AuthorDate: "@ + commit.author_date_full)],
        seq![raw("    CommitDate: "@ + commit.commit_date_full)],
    ] + (if commit.refs.len() > 0 {
        seq![seq![raw("    Refs: "@ + commit.refs)]]
    } else {
        Seq::empty()
    }) + (if commit.body.len() == 0 {
        seq![seq![styled("    (no commit message body)"@, in_color(Color::DarkGray))]]
    } else {
        lines(commit.body).map_values(|line: Seq<char>| seq![raw("    "@ + line)])
    })
}

/// The rows below an expanded commit.
pub fn expanded_commit_lines(commit: &Commit) -> (r: Vec<Line>)
    ensures
        line_views(r@) == detail_rows(commit@),
        r@.len() == detail_count(commit@),
{
    let ghost view = commit@;
    let mut rows: Vec<Line> = Vec::new();
    let mut spans: Vec<Span> = Vec::new();
    spans.push(Span::raw("    commit ".to_string()));
    spans.push(Span::styled(commit.full_hash.clone(), Style::colored(Color::Cyan)));
    assert(span_views(spans@) =~= seq![
        raw("    commit "@),
        styled(view.full_hash, in_color(Color::Cyan)),
    ]);
    rows.push(Line::of(spans));
    let name = concat3("    Author: ", commit.author_name.as_str(), " <");
    let mail = concat2(commit.author_email.as_str(), ">");
    rows.push(Line::one(Span::raw(concat2(name.as_str(), mail.as_str()))));
    let written = concat2("    AuthorDate: ", commit.author_date_full.as_str());
    rows.push(Line::one(Span::raw(written)));
    let committed = concat2("    CommitDate: ", commit.commit_date_full.as_str());
    rows.push(Line::one(Span::raw(committed)));
    let ghost head = seq![
        seq![raw("    commit "@), styled(view.full_hash, in_color(Color::Cyan))],
        seq![raw("    Author: "@ + view.author_name + " <"@ + (view.author_email + ">"@))],
        seq![raw("    AuthorDate: "@ + view.author_date_full)],
        seq![raw("    CommitDate: "@ + view.commit_date_full)],
    ];
    assert(line_views(rows@) =~= head);
    let ghost mut middle: Seq<Seq<SpanView>> = Seq::empty();
    if !commit.refs.as_str().is_empty() {
        let refs = concat2("    Refs: ", commit.refs.as_str());
        rows.push(Line::one(Span::raw(refs)));
        proof {
            middle = seq![seq![raw("    Refs: "@ + view.refs)]];
        }
    }
    assert(line_views(rows@) =~= head + middle);
    if commit.body.as_str().is_empty() {
        let ghost was = line_views(rows@);
        rows.push(
            Line::one(
                Span::styled(
                    "    (no commit message body)".to_string(),
                    Style::colored(Color::DarkGray),
                ),
            ),
        );
        assert(line_views(rows@) =~= detail_rows(view));
    } else {
        let body = lines_of(commit.body.as_str());
        let ghost texts = lines(view.body);
        let ghost shown = texts.map_values(|line: Seq<char>| seq![raw("    "@ + line)]);
        let mut i: usize = 0;
        while i < body.len()
            invariant
                i <= body@.len(),
                views(body@) == texts,
                shown == texts.map_values(|line: Seq<char>| seq![raw("    "@ + line)]),
                line_views(rows@) == head + middle + shown.take(i as int),
            decreases body@.len() - i,
        {
            let ghost was = line_views(rows@);
            let row = Line::one(Span::raw(concat2("    ", body[i].as_str())));
            let ghost added = row@;
            assert(texts[i as int] == body@[i as int]@);
            assert(added == shown[i as int]);
            rows.push(row);
            assert(line_views(rows@) =~= was.push(added));
            assert(shown.take(i + 1) =~= shown.take(i as int).push(added));
            assert(line_views(rows@) =~= head + middle + shown.take(i + 1));
            i = i + 1;
        }
        assert(shown.take(i as int) =~= shown);
        assert(line_views(rows@) =~= detail_rows(view));
    }
    assert(rows@.len() == line_views(rows@).len());
    rows
}

impl AppView {
    /// The rows of the commits before `i`.
    pub open spec fn all_rows(self, i: int) -> Seq<Seq<SpanView>>
        decreases i,
    {
        if i <= 0 {
            Seq::empty()
        } else {
            let before = self.all_rows(i - 1);
            let expanded = self.expanded == Some((i - 1) as usize) && i - 1 <= usize::MAX;
            let row = commit_row(self.commits[i - 1], i - 1 == self.selected, expanded);
            if expanded {
                before.push(row) + detail_rows(self.commits[i - 1])
            } else {
                before.push(row)
            }
        }
    }

    /// The visible rows, filled up to a height.
    pub open spec fn rows(self, height: int) -> Seq<Seq<SpanView>> {
        let all = self.all_rows(self.commits.len() as int);
        let from = lesser(self.scroll_y, all.len() as int);
        let to = lesser(self.scroll_y + height, all.len() as int);
        filled_up(all.subrange(from, to), height)
    }
}

/// As many rows are drawn of the first commits as are counted for them.
pub proof fn law_rows_are_counted(app: AppView, i: int)
    requires
        0 <= i <= app.commits.len(),
    ensures
        app.all_rows(i).len() == app.row_of(i),
    decreases i,
{
    if i > 0 {
        law_rows_are_counted(app, i - 1);
    }
}

/// The visible rows, filled up to a height.
pub fn render_rows(app: &App, height: usize) -> (r: Vec<Line>)
    ensures
        line_views(r@) == app@.rows(height as int),
{
    let mut all: Vec<Line> = Vec::new();
    let mut i: usize = 0;
    while i < app.commits.len()
        invariant
            i <= app.commits@.len(),
            line_views(all@) == app@.all_rows(i as int),
        decreases app.commits@.len() - i,
    {
        let ghost was = line_views(all@);
        assert(app@.commits[i as int] == app.commits@[i as int]@);
        let expanded = match app.expanded {
            Some(k) => k == i,
            None => false,
        };
        let row = render_commit_row(&app.commits[i], i == app.selected, expanded);
        let ghost added = row@;
        all.push(row);
        assert(line_views(all@) =~= was.push(added));
        if expanded {
            let ghost so_far = line_views(all@);
            let mut details = expanded_commit_lines(&app.commits[i]);
            let ghost more_rows = line_views(details@);
            all.append(&mut details);
            assert(line_views(all@) =~= so_far + more_rows);
        }
        i = i + 1;
    }
    let ghost every = line_views(all@);
    let n: usize = all.len();
    let from: usize = if app.scroll_y < n {
        app.scroll_y
    } else {
        n
    };
    let to: usize = if n - from > height {
        from + height
    } else {
        n
    };
    let mut tail = all.split_off(from);
    assert(line_views(tail@) =~= every.skip(from as int));
    tail.truncate(to - from);
    assert(line_views(tail@) =~= every.subrange(from as int, to as int));
    fill_up(&mut tail, height);
    tail
}

/// What is drawn of the browser.
pub struct Picture {
    pub title: String,
    pub rows: Vec<Line>,
    pub rows_area: Area,
    pub status: String,
    pub status_area: Area,
    pub cursor: Option<Place>,
}

/// The part of the screen for the list, where the browser has the part `whole`.
pub open spec fn rows_area(whole: Area) -> Area {
    whole.inner().head()
}

/// The part of the screen for the status line.
pub open spec fn status_area(whole: Area) -> Area {
    whole.inner().foot()
}

/// The number of rows of the list.
pub open spec fn list_rows(area: Area) -> int {
    if area.height > 1 {
        area.height as int
    } else {
        1
    }
}

/// The browser as it is drawn: what was drawn last is remembered, and the
/// selection is in sight.
pub open spec fn drawn(app: AppView, whole: Area) -> AppView {
    AppView {
        last_drawn_top: whole.y,
        last_drawn_height: whole.height,
        visible_height: list_rows(rows_area(whole)),
        ..app
    }.revealed(list_rows(rows_area(whole)))
}

/// The place of the selection on the screen, if it is seen.
pub open spec fn selection_place(app: AppView, area: Area) -> Option<Place> {
    let row = app.offset(app.selected);
    if app.scroll_y <= row < app.scroll_y + list_rows(area) {
        Some(Place { x: area.x, y: (area.y + (row - app.scroll_y)) as u16 })
    } else {
        None
    }
}

/// Draws the browser on the part `whole` of the screen.
pub fn draw(app: &mut App, whole: Area) -> (r: Picture)
    requires
        old(app)@.rows_fit(),
        whole.proper(),
    ensures
        final(app)@ == drawn(old(app)@, whole),
        r.title@ == " inlog "@,
        line_views(r.rows@) == final(app)@.rows(list_rows(rows_area(whole))),
        r.rows_area == rows_area(whole),
        r.status@ == old(app)@.status,
        r.status_area == status_area(whole),
        r.cursor == selection_place(final(app)@, rows_area(whole)),
{
    proof {
        law_inner_lies_within(whole);
        law_head_and_foot_fill(whole.inner());
    }
    let (area, below) = head_and_foot(inside_frame(whole));
    app.last_drawn_top = whole.y;
    app.last_drawn_height = whole.height;
    let height: usize = if area.height > 1 {
        area.height as usize
    } else {
        1
    };
    app.visible_height = height;
    proof {
        lemma_same_rows(old(app)@, app@, app@.commits.len() as int);
    }
    app.ensure_selection_visible(height);
    proof {
        lemma_same_rows(old(app)@, app@, app@.commits.len() as int);
    }
    let rows = render_rows(app, height);
    let row = app.row_offset_for_commit(app.selected);
    let mut cursor: Option<Place> = None;
    if row >= app.scroll_y && row - app.scroll_y < height {
        let offset: usize = row - app.scroll_y;
        cursor = Some(Place { x: area.x, y: area.y + offset as u16 });
    }
    Picture {
        title: " inlog ".to_string(),
        rows,
        rows_area: area,
        status: app.status.clone(),
        status_area: below,
        cursor,
    }
}

/// Rows depend on the commits and on which is expanded, and on nothing else.
pub proof fn lemma_same_rows(a: AppView, b: AppView, i: int)
    requires
        a.commits == b.commits,
        a.expanded == b.expanded,
    ensures
        a.row_of(i) == b.row_of(i),
    decreases i,
{
    if i > 0 {
        lemma_same_rows(a, b, i - 1);
    }
}

// ---------------------------------------------------------------------------
// Actions
// ---------------------------------------------------------------------------

/// What is left to do outside the browser after an action.
#[derive(Debug, PartialEq, Eq)]
pub enum Outcome {
    /// Leave the browser.
    Quit,
    /// Copy this hash.
    Copy(String),
    /// Give the inline viewport another height and first row.
    Resize { height: u16, anchor: u16 },
    /// Take the whole terminal, which has this height.
    EnterFullscreen { height: u16 },
    /// Go back to an inline viewport of this height.
    LeaveFullscreen { height: u16 },
}

/// What is left to do outside the browser after an action.
pub enum ToDo {
    Quit,
    Copy(Seq<char>),
    Resize { height: u16, anchor: u16 },
    EnterFullscreen { height: u16 },
    LeaveFullscreen { height: u16 },
}

impl View for Outcome {
    type V = ToDo;

    open spec fn view(&self) -> ToDo {
        match self {
            Outcome::Quit => ToDo::Quit,
            Outcome::Copy(hash) => ToDo::Copy(hash@),
            Outcome::Resize { height, anchor } => ToDo::Resize {
                height: *height,
                anchor: *anchor,
            },
            Outcome::EnterFullscreen { height } => ToDo::EnterFullscreen { height: *height },
            Outcome::LeaveFullscreen { height } => ToDo::LeaveFullscreen { height: *height },
        }
    }
}

/// What may be left to do.
pub open spec fn todo_view(outcome: Option<Outcome>) -> Option<ToDo> {
    match outcome {
        Some(outcome) => Some(outcome@),
        None => None,
    }
}

/// The number of rows of the terminal, or the height of the browser where it is
/// not known.
pub open spec fn rows_of_screen(app: AppView, screen: Screen) -> u16 {
    match screen.rows {
        Some(rows) => rows,
        None => app.height,
    }
}

impl AppView {
    /// What a request for another height leads to.
    pub open spec fn resizing(self, screen: Screen, requested: u16) -> (AppView, Option<ToDo>) {
        let rows = rows_of_screen(self, screen);
        let wanted = at_least(requested, MIN_HEIGHT);
        let height = if wanted < rows {
            wanted
        } else {
            rows
        };
        if self.fullscreen {
            (self.saying("fullscreen"@), None)
        } else if height == self.height {
            (self, None)
        } else {
            (
                self,
                Some(
                    ToDo::Resize {
                        height,
                        anchor: anchor_row(
                            self.last_drawn_top as int,
                            self.last_drawn_height as int,
                            height as int,
                            at_least(rows, 1) as int,
                        ) as u16,
                    },
                ),
            )
        }
    }

    /// What a request for the whole terminal leads to.
    pub open spec fn filling_screen(self, screen: Screen) -> (AppView, Option<ToDo>) {
        if self.fullscreen {
            (self.saying("fullscreen"@), None)
        } else {
            (
                AppView {
                    restore_height: if self.restore_height is None {
                        Some(self.height)
                    } else {
                        self.restore_height
                    },
                    ..self
                },
                Some(
                    ToDo::EnterFullscreen {
                        height: at_least(rows_of_screen(self, screen), MIN_HEIGHT),
                    },
                ),
            )
        }
    }

    /// What a request for the inline viewport leads to.
    pub open spec fn restoring(self, screen: Screen) -> (AppView, Option<ToDo>) {
        match self.restore_height {
            None => (self.saying("already inline"@), None),
            Some(height) => {
                let app = AppView { restore_height: None, ..self };
                if self.fullscreen {
                    (app, Some(ToDo::LeaveFullscreen { height }))
                } else {
                    let (after, todo) = app.resizing(screen, height);
                    match todo {
                        Some(_) => (after, todo),
                        None => (after.saying(height_status(self.height)), None),
                    }
                }
            },
        }
    }

    /// What an action leads to, and what is left to do.
    pub open spec fn acted(self, screen: Screen, action: Seq<char>) -> (AppView, Option<ToDo>) {
        if action == "quit"@ {
            (self, Some(ToDo::Quit))
        } else if action == "accept"@ {
            (AppView { accepted: true, ..self }, Some(ToDo::Quit))
        } else if action == "search_forward"@ {
            (
                if self.search is Some {
                    self.search_repeated(SearchDirection::Forward)
                } else {
                    self.search_begun(SearchDirection::Forward)
                },
                None,
            )
        } else if action == "search_reverse"@ {
            (
                if self.search is Some {
                    self.search_repeated(SearchDirection::Reverse)
                } else {
                    self.search_begun(SearchDirection::Reverse)
                },
                None,
            )
        } else if action == "cancel_search"@ {
            (self.search_cancelled(), None)
        } else if action == "finish_search"@ {
            (self.search_finished(), None)
        } else if action == "search_backspace"@ {
            (self.search_backspaced(), None)
        } else if action == "select_prev"@ {
            (self.selecting(-1), None)
        } else if action == "select_next"@ {
            (self.selecting(1), None)
        } else if action == "page_up"@ {
            (self.selecting(-self.page()), None)
        } else if action == "page_down"@ {
            (self.selecting(self.page()), None)
        } else if action == "shrink_height"@ {
            self.resizing(
                screen,
                (if self.height > 0 {
                    self.height - 1
                } else {
                    0
                }) as u16,
            )
        } else if action == "grow_height"@ {
            self.resizing(
                screen,
                (if self.height < u16::MAX {
                    self.height + 1
                } else {
                    u16::MAX as int
                }) as u16,
            )
        } else if action == "fullscreen"@ {
            self.filling_screen(screen)
        } else if action == "restore_inline"@ {
            self.restoring(screen)
        } else if action == "toggle_expand"@ {
            (self.toggled(), None)
        } else if action == "copy"@ {
            (
                self,
                if self.selected < self.commits.len() {
                    Some(ToDo::Copy(self.commits[self.selected].full_hash))
                } else {
                    None
                },
            )
        } else {
            (self, None)
        }
    }

    /// The browser after what was left to do has been done. For a copy, `copied`
    /// tells by what means it was made, or why it was not.
    pub open spec fn done(self, todo: ToDo, copied: Result<Seq<char>, Seq<char>>) -> AppView {
        match todo {
            ToDo::Quit => self,
            ToDo::Copy(_) => match copied {
                Ok(method) => self.saying("copied SHA via "@ + method),
                Err(why) => self.saying("copy failed: "@ + why),
            },
            ToDo::Resize { height, anchor } => AppView {
                height,
                last_drawn_height: height,
                last_drawn_top: anchor,
                status: height_status(height),
                ..self
            },
            ToDo::EnterFullscreen { height } => AppView {
                height,
                last_drawn_height: height,
                last_drawn_top: 0,
                fullscreen: true,
                status: "fullscreen"@,
                ..self
            },
            ToDo::LeaveFullscreen { height } => AppView {
                height: at_least(height, MIN_HEIGHT),
                last_drawn_height: at_least(height, MIN_HEIGHT),
                last_drawn_top: 0,
                fullscreen: false,
                status: height_status(at_least(height, MIN_HEIGHT)),
                ..self
            },
        }
    }
}

fn screen_rows(app: &App, screen: Screen) -> (r: u16)
    ensures
        r == rows_of_screen(app@, screen),
{
    match screen.rows {
        Some(rows) => rows,
        None => app.height,
    }
}

/// Asks for another height of the viewport.
pub fn resize_inline_log(app: &mut App, screen: Screen, requested_height: u16) -> (r: Option<
    Outcome,
>)
    ensures
        old(app)@.resizing(screen, requested_height).0 == final(app)@,
        old(app)@.resizing(screen, requested_height).1 == todo_view(r),
{
    if app.fullscreen {
        app.status = "fullscreen".to_string();
        return None;
    }
    let rows = screen_rows(app, screen);
    let wanted = greater(requested_height, MIN_HEIGHT);
    let height: u16 = if wanted < rows {
        wanted
    } else {
        rows
    };
    if height == app.height {
        return None;
    }
    let anchor = resize_anchor_row(
        app.last_drawn_top,
        app.last_drawn_height,
        height,
        greater(rows, 1),
    );
    Some(Outcome::Resize { height, anchor })
}

/// Asks for the whole terminal.
pub fn fullscreen_log(app: &mut App, screen: Screen) -> (r: Option<Outcome>)
    ensures
        old(app)@.filling_screen(screen).0 == final(app)@,
        old(app)@.filling_screen(screen).1 == todo_view(r),
{
    let target = greater(screen_rows(app, screen), MIN_HEIGHT);
    if app.fullscreen {
        app.status = "fullscreen".to_string();
        return None;
    }
    if app.restore_height.is_none() {
        app.restore_height = Some(app.height);
    }
    Some(Outcome::EnterFullscreen { height: target })
}

/// Asks for the inline viewport.
pub fn restore_inline_log(app: &mut App, screen: Screen) -> (r: Option<Outcome>)
    ensures
        old(app)@.restoring(screen).0 == final(app)@,
        old(app)@.restoring(screen).1 == todo_view(r),
{
    let Some(height) = app.restore_height.take() else {
        app.status = "already inline".to_string();
        return None;
    };
    if app.fullscreen {
        return Some(Outcome::LeaveFullscreen { height });
    }
    let outcome = resize_inline_log(app, screen, height);
    if outcome.is_none() {
        let number = decimal_of(app.height as u64);
        app.status = concat2("height ", number.as_str());
    }
    outcome
}

/// Does an action. Returns what is left to do outside the browser.
pub fn handle_action(app: &mut App, screen: Screen, action: &str) -> (r: Option<Outcome>)
    requires
        old(app)@.wf(),
        old(app)@.visible_height <= isize::MAX,
    ensures
        old(app)@.acted(screen, action@).0 == final(app)@,
        old(app)@.acted(screen, action@).1 == todo_view(r),
        final(app)@.wf(),
{
    let searching = app.search.is_some();
    if same(action, "quit") {
        return Some(Outcome::Quit);
    } else if same(action, "accept") {
        app.accept();
        return Some(Outcome::Quit);
    } else if same(action, "search_forward") {
        if searching {
            app.search_repeat(SearchDirection::Forward);
        } else {
            app.begin_search(SearchDirection::Forward);
        }
    } else if same(action, "search_reverse") {
        if searching {
            app.search_repeat(SearchDirection::Reverse);
        } else {
            app.begin_search(SearchDirection::Reverse);
        }
    } else if same(action, "cancel_search") {
        app.cancel_search();
    } else if same(action, "finish_search") {
        app.finish_search();
    } else if same(action, "search_backspace") {
        app.search_backspace();
    } else if same(action, "select_prev") {
        app.select_delta(-1);
    } else if same(action, "select_next") {
        app.select_delta(1);
    } else if same(action, "page_up") {
        let amount = app.visible_page_amount();
        app.select_delta(-amount);
    } else if same(action, "page_down") {
        let amount = app.visible_page_amount();
        app.select_delta(amount);
    } else if same(action, "shrink_height") {
        let height: u16 = app.height.saturating_sub(1);
        return resize_inline_log(app, screen, height);
    } else if same(action, "grow_height") {
        let height: u16 = app.height.saturating_add(1);
        return resize_inline_log(app, screen, height);
    } else if same(action, "fullscreen") {
        return fullscreen_log(app, screen);
    } else if same(action, "restore_inline") {
        return restore_inline_log(app, screen);
    } else if same(action, "toggle_expand") {
        app.toggle_expand();
    } else if same(action, "copy") {
        return match app.selected_commit() {
            Some(commit) => Some(Outcome::Copy(commit.full_hash.clone())),
            None => None,
        };
    }
    None
}

/// A result as texts.
pub open spec fn copy_view(copied: Result<String, String>) -> Result<Seq<char>, Seq<char>> {
    match copied {
        Ok(method) => Ok(method@),
        Err(why) => Err(why@),
    }
}

/// Tells the browser that what was left to do has been done. For a copy, `copied`
/// tells by what means it was made, or why it was not.
pub fn complete(app: &mut App, outcome: &Outcome, copied: Result<String, String>)
    ensures
        final(app)@ == old(app)@.done(outcome@, copy_view(copied)),
{
    match outcome {
        Outcome::Quit => {},
        Outcome::Copy(_) => {
            app.status = match copied {
                Ok(method) => concat2("copied SHA via ", method.as_str()),
                Err(why) => concat2("copy failed: ", why.as_str()),
            };
        },
        Outcome::Resize { height, anchor } => {
            app.height = *height;
            app.last_drawn_height = *height;
            app.last_drawn_top = *anchor;
            let number = decimal_of(*height as u64);
            app.status = concat2("height ", number.as_str());
        },
        Outcome::EnterFullscreen { height } => {
            app.height = *height;
            app.last_drawn_height = *height;
            app.last_drawn_top = 0;
            app.fullscreen = true;
            app.status = "fullscreen".to_string();
        },
        Outcome::LeaveFullscreen { height } => {
            let height = greater(*height, MIN_HEIGHT);
            app.height = height;
            app.last_drawn_height = height;
            app.last_drawn_top = 0;
            app.fullscreen = false;
            let number = decimal_of(height as u64);
            app.status = concat2("height ", number.as_str());
        },
    }
}

// ---------------------------------------------------------------------------
// Keys
// ---------------------------------------------------------------------------

/// The built-in bindings. A key that cancels a search goes before one that leaves the
/// browser.
pub open spec fn log_bindings() -> Rows {
    seq![
        ("cancel_search"@, seq!["esc"@, "ctrl-g"@]),
        ("quit"@, seq!["ctrl-x ctrl-c"@, "esc"@, "q"@]),
        ("accept"@, seq!["enter"@]),
        ("search_forward"@, seq!["ctrl-s"@]),
        ("search_reverse"@, seq!["ctrl-r"@]),
        ("finish_search"@, seq!["enter"@]),
        ("search_backspace"@, seq!["backspace"@]),
        ("select_prev"@, seq!["ctrl-p"@, "up"@]),
        ("select_next"@, seq!["ctrl-n"@, "down"@]),
        ("page_up"@, seq!["pageup"@, "alt-v"@]),
        ("page_down"@, seq!["pagedown"@, "ctrl-v"@]),
        ("shrink_height"@, seq!["alt-up"@]),
        ("grow_height"@, seq!["alt-down"@]),
        ("fullscreen"@, seq!["ctrl-x 1"@]),
        ("restore_inline"@, seq!["ctrl-x 0"@]),
        ("toggle_expand"@, seq!["/"@]),
        ("copy"@, seq!["alt-y"@]),
    ]
}

/// The built-in bindings.
pub fn log_key_bindings() -> (r: Vec<(&'static str, &'static [&'static str])>)
    ensures
        default_rows(r@) == log_bindings(),
{
    let table: Vec<(&'static str, &'static [&'static str])> = vec![
        ("cancel_search", &["esc", "ctrl-g"]),
        ("quit", &["ctrl-x ctrl-c", "esc", "q"]),
        ("accept", &["enter"]),
        ("search_forward", &["ctrl-s"]),
        ("search_reverse", &["ctrl-r"]),
        ("finish_search", &["enter"]),
        ("search_backspace", &["backspace"]),
        ("select_prev", &["ctrl-p", "up"]),
        ("select_next", &["ctrl-n", "down"]),
        ("page_up", &["pageup", "alt-v"]),
        ("page_down", &["pagedown", "ctrl-v"]),
        ("shrink_height", &["alt-up"]),
        ("grow_height", &["alt-down"]),
        ("fullscreen", &["ctrl-x 1"]),
        ("restore_inline", &["ctrl-x 0"]),
        ("toggle_expand", &["/"]),
        ("copy", &["alt-y"]),
    ];
    assert(default_rows(table@) =~~= log_bindings());
    table
}

/// The actions outside a search.
pub open spec fn log_names() -> Seq<Seq<char>> {
    seq![
        "quit"@,
        "accept"@,
        "search_forward"@,
        "search_reverse"@,
        "select_prev"@,
        "select_next"@,
        "page_up"@,
        "page_down"@,
        "shrink_height"@,
        "grow_height"@,
        "fullscreen"@,
        "restore_inline"@,
        "toggle_expand"@,
        "copy"@,
    ]
}

/// The actions outside a search.
pub fn log_actions() -> (r: Vec<&'static str>)
    ensures
        str_views(r@) == log_names(),
{
    let list: Vec<&'static str> = vec![
        "quit",
        "accept",
        "search_forward",
        "search_reverse",
        "select_prev",
        "select_next",
        "page_up",
        "page_down",
        "shrink_height",
        "grow_height",
        "fullscreen",
        "restore_inline",
        "toggle_expand",
        "copy",
    ];
    assert(str_views(list@) =~~= log_names());
    list
}

/// The actions during a search.
pub open spec fn search_names() -> Seq<Seq<char>> {
    seq![
        "quit"@,
        "fullscreen"@,
        "restore_inline"@,
        "search_forward"@,
        "search_reverse"@,
        "cancel_search"@,
        "finish_search"@,
        "search_backspace"@,
    ]
}

/// The actions during a search.
pub fn log_search_actions() -> (r: Vec<&'static str>)
    ensures
        str_views(r@) == search_names(),
{
    let list: Vec<&'static str> = vec![
        "quit",
        "fullscreen",
        "restore_inline",
        "search_forward",
        "search_reverse",
        "cancel_search",
        "finish_search",
        "search_backspace",
    ];
    assert(str_views(list@) =~~= search_names());
    list
}

/// What is left to do after a key, and the character that goes to the search
/// once it is done.
#[derive(Debug, PartialEq, Eq)]
pub struct Step {
    pub outcome: Option<Outcome>,
    pub typed: Option<char>,
}

impl AppView {
    /// What the bindings make of a key, and what is left to do.
    pub open spec fn pressed(self, screen: Screen, bindings: Seq<Bound>, key: KeyEvent) -> (
        AppView,
        Option<ToDo>,
    ) {
        let actions = if self.search is Some {
            search_names()
        } else {
            log_names()
        };
        let pending = self.pending.push(normal_key(key));
        match lookup(bindings, actions, pending) {
            MatchView::Prefix => (
                AppView { pending, status: pending_text(pending), ..self },
                None,
            ),
            MatchView::Action(action) => AppView { pending: Seq::empty(), ..self }.acted(
                screen,
                action,
            ),
            MatchView::NoMatch => if self.pending.len() > 0 {
                (
                    AppView { pending: Seq::empty(), ..self }.saying("unknown key sequence"@),
                    None,
                )
            } else {
                (self, None)
            },
        }
    }

    /// The character that a key types into the search. It does so during a
    /// search, whatever the bindings say of the key, unless the browser is left.
    pub open spec fn typed(self, screen: Screen, bindings: Seq<Bound>, key: KeyEvent) -> Option<
        char,
    > {
        match key.code {
            KeyCode::Char(ch) => if self.search is Some && key.modifiers.plain() && self.pressed(
                screen,
                bindings,
                key,
            ).1 != Some(ToDo::Quit) {
                Some(ch)
            } else {
                None
            },
            _ => None,
        }
    }
}

/// Does what a key stands for. What is left to do comes first, and then the
/// character that goes to the search.
pub fn handle_key(app: &mut App, key: &KeyEvent, screen: Screen, keymap: &Keymap) -> (r: Step)
    requires
        old(app)@.wf(),
        old(app)@.visible_height <= isize::MAX,
    ensures
        old(app)@.pressed(screen, keymap@, *key).0 == final(app)@,
        old(app)@.pressed(screen, keymap@, *key).1 == todo_view(r.outcome),
        old(app)@.typed(screen, keymap@, *key) == r.typed,
        final(app)@.wf(),
{
    let searching = app.search.is_some();
    let outcome = handle_key_binding(app, key, screen, keymap);
    let leaves = match &outcome {
        Some(Outcome::Quit) => true,
        _ => false,
    };
    let mut typed: Option<char> = None;
    if searching && !leaves {
        if let KeyCode::Char(ch) = key.code {
            if key.modifiers.is_plain() {
                typed = Some(ch);
            }
        }
    }
    Step { outcome, typed }
}

/// Does what the bindings say of a key.
fn handle_key_binding(app: &mut App, key: &KeyEvent, screen: Screen, keymap: &Keymap) -> (r: Option<
    Outcome,
>)
    requires
        old(app)@.wf(),
        old(app)@.visible_height <= isize::MAX,
    ensures
        old(app)@.pressed(screen, keymap@, *key).0 == final(app)@,
        old(app)@.pressed(screen, keymap@, *key).1 == todo_view(r),
        final(app)@.wf(),
{
    let actions = if app.search.is_some() {
        log_search_actions()
    } else {
        log_actions()
    };
    match keymap.match_key_for_actions(actions.as_slice(), &app.pending_keys, key) {
        KeymapMatch::Prefix => {
            if let Some(press) = keymap.keypress_from_event(key) {
                app.pending_keys.push(press);
                app.status = pending_status(&app.pending_keys);
            }
            None
        },
        KeymapMatch::Action(action) => {
            app.pending_keys.clear();
            handle_action(app, screen, action.as_str())
        },
        KeymapMatch::NoMatch => {
            if app.pending_keys.len() > 0 {
                app.pending_keys.clear();
                app.status = "unknown key sequence".to_string();
            }
            None
        },
    }
}

// ---------------------------------------------------------------------------
// Arguments
// ---------------------------------------------------------------------------

/// What the arguments ask for.
#[derive(Debug)]
pub struct Config {
    pub height: u16,
    pub git_args: Vec<String>,
}

/// Whether an argument asks for a graph.
pub open spec fn asks_graph(arg: Seq<char>) -> bool {
    arg == "--graph"@ || has_prefix(arg, "--graph="@)
}

/// Whether an argument limits the number of commits.
pub open spec fn limits_count(arg: Seq<char>) -> bool {
    ||| arg == "--max-count"@
    ||| has_prefix(arg, "--max-count="@)
    ||| has_prefix(arg, "-n"@)
    ||| arg.len() > 1 && arg[0] == '-' && all_digits(arg.drop_first())
}

/// The arguments for `git log`, with a limit on the number of commits in any
/// case.
pub open spec fn limited(args: Seq<Seq<char>>) -> Seq<Seq<char>> {
    if exists|i: int| 0 <= i < args.len() && limits_count(#[trigger] args[i]) {
        args
    } else {
        seq!["-n"@, "500"@] + args
    }
}

/// The arguments for `git log`; graphs are refused.
pub open spec fn normalized(args: Seq<Seq<char>>) -> Result<Seq<Seq<char>>, ArgFault> {
    if exists|i: int| 0 <= i < args.len() && asks_graph(#[trigger] args[i]) {
        Err(ArgFault::Graph)
    } else {
        Ok(limited(args))
    }
}

fn is_limit(arg: &str) -> (r: bool)
    ensures
        r == limits_count(arg@),
{
    if same(arg, "--max-count") || starts_with(arg, "--max-count=") || starts_with(arg, "-n") {
        return true;
    }
    let chars = chars_of(arg);
    if chars.len() < 2 || chars[0] != '-' {
        return false;
    }
    let mut i: usize = 1;
    while i < chars.len()
        invariant
            1 <= i <= chars@.len(),
            chars@ == arg@,
            limits_count(arg@) == all_digits(arg@.drop_first()),
            forall|j: int| 1 <= j < i ==> is_digit(#[trigger] arg@[j]),
        decreases chars@.len() - i,
    {
        if chars[i] < '0' || chars[i] > '9' {
            assert(arg@.drop_first()[i - 1] == arg@[i as int]);
            assert(!is_digit(arg@.drop_first()[i - 1]));
            return false;
        }
        i = i + 1;
    }
    assert forall|j: int| 0 <= j < arg@.drop_first().len() implies is_digit(
        #[trigger] arg@.drop_first()[j],
    ) by {
        assert(arg@.drop_first()[j] == arg@[j + 1]);
    }
    true
}

/// Whether an argument limits the number of commits.
pub fn has_max_count_arg(args: &Vec<String>) -> (r: bool)
    ensures
        r == exists|i: int| 0 <= i < args@.len() && limits_count(#[trigger] views(args@)[i]),
{
    let mut i: usize = 0;
    while i < args.len()
        invariant
            i <= args@.len(),
            forall|j: int| 0 <= j < i ==> !limits_count(#[trigger] views(args@)[j]),
        decreases args@.len() - i,
    {
        assert(views(args@)[i as int] == args@[i as int]@);
        if is_limit(args[i].as_str()) {
            return true;
        }
        i = i + 1;
    }
    false
}

/// The arguments for `git log`; graphs are refused.
pub fn normalize_git_args(args: Vec<String>) -> (r: Result<Vec<String>, ArgError>)
    ensures
        match r {
            Ok(list) => normalized(views(args@)) == Ok::<Seq<Seq<char>>, ArgFault>(views(list@)),
            Err(error) => normalized(views(args@)) == Err::<Seq<Seq<char>>, ArgFault>(error@),
        },
{
    let ghost all = views(args@);
    let mut i: usize = 0;
    while i < args.len()
        invariant
            i <= args@.len(),
            all == views(args@),
            forall|j: int| 0 <= j < i ==> !asks_graph(#[trigger] all[j]),
        decreases args@.len() - i,
    {
        assert(all[i as int] == args@[i as int]@);
        let arg = args[i].as_str();
        if same(arg, "--graph") || starts_with(arg, "--graph=") {
            assert(asks_graph(all[i as int]));
            return Err(ArgError::Graph);
        }
        i = i + 1;
    }
    if has_max_count_arg(&args) {
        return Ok(args);
    }
    let mut list: Vec<String> = Vec::new();
    list.push("-n".to_string());
    list.push("500".to_string());
    let mut rest = args;
    list.append(&mut rest);
    assert(views(list@) =~= seq!["-n"@, "500"@] + all);
    Ok(list)
}

/// What the arguments read so far ask for.
pub struct Asked {
    pub height: u16,
    pub git_args: Seq<Seq<char>>,
}

/// What the arguments from the one at `i` on ask for, on top of those before.
/// Behind two dashes all arguments go to `git log`.
pub open spec fn asked(args: Seq<Seq<char>>, i: int, so_far: Asked) -> Result<Asked, ArgFault>
    decreases args.len() - i,
{
    if i >= args.len() {
        Ok(so_far)
    } else {
        let arg = args[i];
        if arg == "--height"@ || arg == "-h"@ {
            if i + 1 >= args.len() {
                Err(ArgFault::MissingRows(arg))
            } else {
                match height_value(args[i + 1]) {
                    Ok(height) => asked(args, i + 2, Asked { height, ..so_far }),
                    Err(fault) => Err(fault),
                }
            }
        } else if has_prefix(arg, "--height="@) {
            match height_value(arg.skip("--height="@.len() as int)) {
                Ok(height) => asked(args, i + 1, Asked { height, ..so_far }),
                Err(fault) => Err(fault),
            }
        } else if arg == "--"@ {
            Ok(Asked { git_args: so_far.git_args + args.skip(i + 1), ..so_far })
        } else {
            asked(args, i + 1, Asked { git_args: so_far.git_args.push(arg), ..so_far })
        }
    }
}

/// What the arguments ask for, with the arguments for `git log` completed.
pub open spec fn config_of(args: Seq<Seq<char>>) -> Result<Asked, ArgFault> {
    match asked(args, 0, Asked { height: DEFAULT_HEIGHT, git_args: Seq::empty() }) {
        Ok(all) => match normalized(all.git_args) {
            Ok(git_args) => Ok(Asked { git_args, ..all }),
            Err(fault) => Err(fault),
        },
        Err(fault) => Err(fault),
    }
}

impl Config {
    /// Reads the arguments.
    pub fn parse(args: &Vec<String>) -> (r: Result<Config, ArgError>)
        ensures
            match r {
                Ok(config) => config_of(views(args@)) == Ok::<Asked, ArgFault>(
                    Asked { height: config.height, git_args: views(config.git_args@) },
                ),
                Err(error) => config_of(views(args@)) == Err::<Asked, ArgFault>(error@),
            },
    {
        let ghost all = views(args@);
        let ghost first = Asked { height: DEFAULT_HEIGHT, git_args: Seq::empty() };
        let mut height: u16 = DEFAULT_HEIGHT;
        let mut git_args: Vec<String> = Vec::new();
        let mut i: usize = 0;
        assert(views(git_args@) =~= Seq::empty());
        while i < args.len()
            invariant
                i <= args@.len(),
                all == views(args@),
                first == (Asked { height: DEFAULT_HEIGHT, git_args: Seq::empty() }),
                asked(all, 0, first) == asked(
                    all,
                    i as int,
                    Asked { height, git_args: views(git_args@) },
                ),
            decreases args@.len() - i,
        {
            let arg = args[i].as_str();
            assert(all[i as int] == arg@);
            if same(arg, "--height") || same(arg, "-h") {
                if i + 1 >= args.len() {
                    return Err(ArgError::MissingRows(arg.to_string()));
                }
                assert(all[i + 1] == args@[i + 1]@);
                match parse_height(args[i + 1].as_str()) {
                    Ok(rows) => {
                        height = rows;
                    },
                    Err(error) => {
                        return Err(error);
                    },
                }
                i = i + 2;
            } else if let Some(value) = strip_prefix(arg, "--height=") {
                match parse_height(value.as_str()) {
                    Ok(rows) => {
                        height = rows;
                    },
                    Err(error) => {
                        return Err(error);
                    },
                }
                i = i + 1;
            } else if same(arg, "--") {
                let ghost before = views(git_args@);
                let mut rest = copy_from(args, i + 1);
                let ghost tail = views(rest@);
                git_args.append(&mut rest);
                assert(views(git_args@) =~= before + tail);
                i = args.len();
                assert(asked(all, 0, first) == Ok::<Asked, ArgFault>(
                    Asked { height, git_args: views(git_args@) },
                ));
            } else {
                let ghost before = views(git_args@);
                git_args.push(arg.to_string());
                assert(views(git_args@) =~= before.push(arg@));
                i = i + 1;
            }
        }
        match normalize_git_args(git_args) {
            Ok(git_args) => Ok(Config { height, git_args }),
            Err(error) => Err(error),
        }
    }
}

fn copy_from(list: &Vec<String>, from: usize) -> (r: Vec<String>)
    requires
        from <= list@.len(),
    ensures
        views(r@) == views(list@).skip(from as int),
{
    let ghost all = views(list@).skip(from as int);
    let mut out: Vec<String> = Vec::new();
    let mut i: usize = from;
    while i < list.len()
        invariant
            from <= i <= list@.len(),
            all == views(list@).skip(from as int),
            views(out@) == all.take(i - from),
        decreases list@.len() - i,
    {
        let ghost was = views(out@);
        out.push(list[i].clone());
        assert(views(out@) =~= was.push(list@[i as int]@));
        assert(all.take(i + 1 - from) =~= all.take(i - from).push(list@[i as int]@));
        i = i + 1;
    }
    assert(all.take(i - from) =~= all);
    out
}

/// The format in which `git log` is asked for records.
pub open spec fn log_format() -> Seq<char> {
    "--format=format:%x1e%H%x1f%h%x1f%an%x1f%ae%x1f%as%x1f%aI%x1f%cI%x1f%D%x1f%s%x1f%b"@
}

/// The arguments that `git` is run with.
pub fn git_log_args(git_args: &Vec<String>) -> (r: Vec<String>)
    ensures
        views(r@) == seq!["log"@, "--date=short"@, log_format()] + views(git_args@),
{
    let mut list: Vec<String> = Vec::new();
    list.push("log".to_string());
    list.push("--date=short".to_string());
    list.push(
        "--format=format:%x1e%H%x1f%h%x1f%an%x1f%ae%x1f%as%x1f%aI%x1f%cI%x1f%D%x1f%s%x1f%b".to_string(),
    );
    let ghost head = views(list@);
    let mut rest = copy_from(git_args, 0);
    let ghost tail = views(rest@);
    list.append(&mut rest);
    assert(views(list@) =~= head + tail);
    assert(head =~= seq!["log"@, "--date=short"@, log_format()]);
    assert(tail =~= views(git_args@));
    list
}

/// Why there is no log, from what `git log` wrote to its error output.
pub fn git_log_failure(stderr: &str) -> (r: String)
    ensures
        r@ == "git log failed: "@ + trim(stderr@),
{
    let text = trim_of(stderr);
    concat2("git log failed: ", text.as_str())
}

// ---------------------------------------------------------------------------
// Leaving the browser
// ---------------------------------------------------------------------------

/// What is left on the screen.
pub fn exit_summary(app: &App) -> (r: String)
    ensures
        r@ == (if app@.selected < app@.commits.len() {
            app@.commits[app@.selected].summary(true)
        } else {
            "no commits\n"@
        }),
{
    match app.selected_commit() {
        Some(commit) => commit.summary_text(true),
        None => "no commits\n".to_string(),
    }
}

/// What is told of the copy of a hash.
pub open spec fn copy_report(hash: Seq<char>, copied: Result<Seq<char>, Seq<char>>) -> Seq<char> {
    "\n"@ + pair(
        "clipboard"@,
        match copied {
            Ok(method) => value_text(
                "copied "@ + hash + " via "@ + method,
                AnsiColor::Green,
                true,
            ),
            Err(why) => value_text(
                "failed to copy "@ + hash + ": "@ + why,
                AnsiColor::Yellow,
                true,
            ),
        },
        true,
    ) + "\n"@
}

/// What is told of the copy of the hash of a commit, if there is a commit.
pub fn exit_copy_status(commit: Option<&Commit>, copied: Result<String, String>) -> (r: String)
    ensures
        match commit {
            Some(commit) => r@ == copy_report(commit@.full_hash, copy_view(copied)),
            None => r@.len() == 0,
        },
{
    let Some(commit) = commit else {
        return String::new();
    };
    let value = match copied {
        Ok(method) => {
            let text = concat3("copied ", commit.full_hash.as_str(), " via ");
            let text = concat2(text.as_str(), method.as_str());
            paint_value(text.as_str(), AnsiColor::Green, true)
        },
        Err(why) => {
            let text = concat3("failed to copy ", commit.full_hash.as_str(), ": ");
            let text = concat2(text.as_str(), why.as_str());
            paint_value(text.as_str(), AnsiColor::Yellow, true)
        },
    };
    let line = summary_pair("clipboard", value.as_str(), true);
    concat3("\n", line.as_str(), "\n")
}

// ---------------------------------------------------------------------------
// Laws
// ---------------------------------------------------------------------------

/// Where a commit begins at or behind a row, no later than another one does.
proof fn lemma_aligned(app: AppView, i: int, desired: int, k: int)
    requires
        0 <= i <= k <= app.commits.len(),
        desired <= app.row_of(k),
        i > 0 ==> app.row_of(i) <= desired,
    ensures
        desired <= app.aligned(i, desired, app.row_of(k)) <= app.row_of(k),
        exists|n: int|
            0 <= n <= app.commits.len() && app.aligned(i, desired, app.row_of(k))
                == #[trigger] app.row_of(n),
    decreases app.commits.len() - i,
{
    let row = app.row_of(k);
    lemma_rows(app, i, k);
    if i < app.commits.len() && desired > app.row_of(i) && desired >= app.row_of(i + 1) {
        if i == k {
            lemma_rows(app, k, k);
        }
        lemma_aligned(app, i + 1, desired, k);
    }
}

/// When the browser has scrolled, the selected commit is seen. Where it scrolled on,
/// the first row in sight is one where a commit begins.
pub proof fn law_selection_is_seen(app: AppView, height: int)
    requires
        app.wf(),
        app.rows_fit(),
        0 <= app.scroll_y <= usize::MAX,
        0 < height <= usize::MAX,
    ensures
        ({
            let after = app.revealed(height);
            let row = app.offset(app.selected);
            &&& after.scroll_y <= after.offset(app.selected) < after.scroll_y + height
            &&& after.offset(app.selected) == row
            &&& after.scroll_y > app.scroll_y ==> exists|n: int|
                0 <= n <= app.commits.len() && after.scroll_y == #[trigger] app.row_of(n)
        }),
{
    let k = lesser(app.selected, app.commits.len() as int);
    let row = app.row_of(k);
    let after = app.revealed(height);
    lemma_same_rows(app, after, k);
    lemma_rows(app, 0, k);
    lemma_rows(app, k, app.commits.len() as int);
    if row >= more(app.scroll_y, height) {
        lemma_aligned(app, 0, less(row, less(height, 1)), k);
    }
}

/// After a toggle no commit but the selected one is expanded.
pub proof fn law_only_selected_expands(app: AppView, i: int)
    requires
        app.wf(),
        app.commits.len() <= usize::MAX,
        0 <= i < app.commits.len(),
        i != app.selected,
    ensures
        app.toggled().rows_of(i) == 1,
{
}

proof fn lemma_match_up_to(commits: Seq<CommitView>, query: Seq<char>, from: int, to: int)
    ensures
        match match_up_to(commits, query, from, to) {
            Some(i) => from <= i < to && has_part(commits[i].searched_text(), query),
            None => forall|i: int|
                from <= i < to ==> !has_part((#[trigger] commits[i]).searched_text(), query),
        },
    decreases to - from,
{
    if from < to {
        lemma_match_up_to(commits, query, from + 1, to);
    }
}

proof fn lemma_match_down_to(commits: Seq<CommitView>, query: Seq<char>, from: int, to: int)
    ensures
        match match_down_to(commits, query, from, to) {
            Some(i) => from <= i < to && has_part(commits[i].searched_text(), query),
            None => forall|i: int|
                from <= i < to ==> !has_part((#[trigger] commits[i]).searched_text(), query),
        },
    decreases to - from,
{
    if from < to {
        lemma_match_down_to(commits, query, from, to - 1);
    }
}

/// A search finds a commit that matches, and it finds none only where no commit
/// matches: it goes round at the end of the list.
pub proof fn law_search_goes_round(
    app: AppView,
    direction: SearchDirection,
    query: Seq<char>,
    start: int,
)
    requires
        0 <= start,
    ensures
        match app.found(direction, query, start) {
            Some(i) => 0 <= i < app.commits.len() && has_part(
                app.commits[i].searched_text(),
                query,
            ),
            None => forall|i: int|
                0 <= i < app.commits.len() ==> !has_part(
                    (#[trigger] app.commits[i]).searched_text(),
                    query,
                ),
        },
{
    let n = app.commits.len() as int;
    lemma_match_up_to(app.commits, query, start, n);
    lemma_match_up_to(app.commits, query, 0, lesser(start, n));
    lemma_match_down_to(app.commits, query, 0, lesser(start, n - 1) + 1);
    lemma_match_down_to(app.commits, query, lesser(start + 1, n), n);
}

} // verus!
