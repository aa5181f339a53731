//! What the actions of the log browser do, told by what is selected and shown.

use vstd::prelude::*;

#[allow(unused_imports)]
use crate::args::ArgFault;
#[allow(unused_imports)]
use crate::config::{
    lookup, no_modifiers, normal_key, Bound, KeyCode, KeyEvent, KeyPress, MatchView,
};
#[allow(unused_imports)]
use crate::config::laws::binds;
#[allow(unused_imports)]
use crate::inline_text::input::Screen;
#[allow(unused_imports)]
use crate::inline_text::model::{less, lesser, more};
#[allow(unused_imports)]
use crate::log::{
    asks_graph, commit_of, commit_row, copy_report, cut, cut_with_dots, detail_rows, lemma_rows,
    limits_count, log_bindings, log_format, log_names, match_down_to, match_up_to, normalized,
    records, search_names, without_feeds, AppView, CommitView, Search, SearchDirection, ToDo,
};
#[allow(unused_imports)]
use crate::style::Color;
#[allow(unused_imports)]
use crate::text::{
    decimal, has_part, has_prefix, has_suffix, is_blank, join, lemma_decimal, lemma_trim_end, lines,
    lower, lowercase, pad_right, stands_at, trim_end,
};
#[allow(unused_imports)]
use crate::text::laws::{free_of, law_split_undoes_join};

verus! {

/// How the names of the actions differ.
proof fn lemma_names()
    ensures
        "quit"@.len() == 4 && "quit"@[0] == 'q',
        "accept"@.len() == 6,
        "search_forward"@.len() == 14 && "search_forward"@[0] == 's' && "search_forward"@[7] == 'f',
        "search_reverse"@.len() == 14 && "search_reverse"@[0] == 's' && "search_reverse"@[7] == 'r',
        "cancel_search"@.len() == 13 && "cancel_search"@[0] == 'c',
        "finish_search"@.len() == 13 && "finish_search"@[0] == 'f',
        "search_backspace"@.len() == 16,
        "select_prev"@.len() == 11 && "select_prev"@[0] == 's' && "select_prev"@[7] == 'p',
        "select_next"@.len() == 11 && "select_next"@[0] == 's' && "select_next"@[7] == 'n',
        "page_up"@.len() == 7,
        "page_down"@.len() == 9,
        "shrink_height"@.len() == 13 && "shrink_height"@[0] == 's',
        "grow_height"@.len() == 11 && "grow_height"@[0] == 'g',
        "fullscreen"@.len() == 10,
        "restore_inline"@.len() == 14 && "restore_inline"@[0] == 'r',
        "toggle_expand"@.len() == 13 && "toggle_expand"@[0] == 't',
        "copy"@.len() == 4 && "copy"@[0] == 'c',
{
    reveal_strlit("quit");
    reveal_strlit("accept");
    reveal_strlit("search_forward");
    reveal_strlit("search_reverse");
    reveal_strlit("cancel_search");
    reveal_strlit("finish_search");
    reveal_strlit("search_backspace");
    reveal_strlit("select_prev");
    reveal_strlit("select_next");
    reveal_strlit("page_up");
    reveal_strlit("page_down");
    reveal_strlit("shrink_height");
    reveal_strlit("grow_height");
    reveal_strlit("fullscreen");
    reveal_strlit("restore_inline");
    reveal_strlit("toggle_expand");
    reveal_strlit("copy");
}

// ---------------------------------------------------------------------------
// Searching
// ---------------------------------------------------------------------------

/// A commit matches a query, whose case does not count.
pub open spec fn matching(app: AppView, query: Seq<char>, i: int) -> bool {
    0 <= i < app.commits.len() && has_part(app.commits[i].searched_text(), lowercase(query))
}

proof fn lemma_first_match(commits: Seq<CommitView>, query: Seq<char>, from: int, to: int)
    ensures
        match match_up_to(commits, query, from, to) {
            Some(i) => from <= i < to && has_part(commits[i].searched_text(), query) && forall|j: int|
                from <= j < i ==> !has_part((#[trigger] commits[j]).searched_text(), query),
            None => forall|j: int|
                from <= j < to ==> !has_part((#[trigger] commits[j]).searched_text(), query),
        },
    decreases to - from,
{
    if from < to {
        lemma_first_match(commits, query, from + 1, to);
    }
}

proof fn lemma_last_match(commits: Seq<CommitView>, query: Seq<char>, from: int, to: int)
    ensures
        match match_down_to(commits, query, from, to) {
            Some(i) => from <= i < to && has_part(commits[i].searched_text(), query) && forall|j: int|
                i < j < to ==> !has_part((#[trigger] commits[j]).searched_text(), query),
            None => forall|j: int|
                from <= j < to ==> !has_part((#[trigger] commits[j]).searched_text(), query),
        },
    decreases to - from,
{
    if from < to {
        lemma_last_match(commits, query, from, to - 1);
    }
}

/// A search under way with something sought.
pub open spec fn seeks(app: AppView) -> bool {
    &&& app.search matches Some(search) && search.query.len() > 0
    &&& 0 <= app.selected < app.commits.len()
    &&& app.commits.len() <= usize::MAX
}

/// A search that goes on forward selects the first match behind the selected commit.
/// Where there is none it goes round and selects the first match of all, and where
/// nothing matches it selects what was selected.
pub proof fn law_search_goes_on_forward(app: AppView, screen: Screen, j: int)
    requires
        seeks(app),
    ensures
        ({
            let (after, todo) = app.acted(screen, "search_forward"@);
            let query = app.search->0.query;
            let k = app.selected;
            let i = after.selected;
            &&& todo is None
            &&& after.commits == app.commits
            &&& after.search == Some(Search { query, direction: SearchDirection::Forward })
            &&& 0 <= i < app.commits.len()
            &&& matching(app, query, j) && j > k ==> matching(app, query, i) && k < i <= j
            &&& matching(app, query, j) && i <= k ==> matching(app, query, i) && i <= j <= k
            &&& !matching(app, query, i) ==> i == k
        }),
{
    lemma_names();
    let query = lowercase(app.search->0.query);
    let n = app.commits.len() as int;
    let start = more(app.selected, 1);
    lemma_first_match(app.commits, query, start, n);
    lemma_first_match(app.commits, query, 0, lesser(start, n));
}

/// A search that goes on in reverse selects the last match before the selected commit.
/// Where there is none it goes round and selects the last match of all, and where
/// nothing matches it selects what was selected. On the first commit it finds that
/// commit first.
pub proof fn law_search_goes_on_reverse(app: AppView, screen: Screen, j: int)
    requires
        seeks(app),
    ensures
        ({
            let (after, todo) = app.acted(screen, "search_reverse"@);
            let query = app.search->0.query;
            let k = app.selected;
            let i = after.selected;
            &&& todo is None
            &&& after.commits == app.commits
            &&& after.search == Some(Search { query, direction: SearchDirection::Reverse })
            &&& 0 <= i < app.commits.len()
            &&& matching(app, query, j) && j < k ==> matching(app, query, i) && j <= i < k
            &&& k > 0 && matching(app, query, j) && i >= k ==> matching(app, query, i) && k <= j
                <= i
            &&& k == 0 && matching(app, query, 0) ==> i == 0
            &&& k == 0 && !matching(app, query, 0) && matching(app, query, j) ==> matching(
                app,
                query,
                i,
            ) && j <= i
            &&& !matching(app, query, i) ==> i == k
        }),
{
    lemma_names();
    let query = lowercase(app.search->0.query);
    let n = app.commits.len() as int;
    let start = less(app.selected, 1);
    lemma_last_match(app.commits, query, 0, lesser(start, n - 1) + 1);
    lemma_last_match(app.commits, query, lesser(start + 1, n), n);
}

/// A search begins with nothing sought, and moves no selection.
pub proof fn law_search_begins(app: AppView, screen: Screen)
    requires
        app.search is None,
    ensures
        ({
            let (after, todo) = app.acted(screen, "search_forward"@);
            &&& todo is None
            &&& after.search == Some(
                Search { query: Seq::<char>::empty(), direction: SearchDirection::Forward },
            )
            &&& after.selected == app.selected
            &&& after.commits == app.commits
            &&& after.status == "I-search"@ + ": "@
        }),
        ({
            let (after, todo) = app.acted(screen, "search_reverse"@);
            &&& todo is None
            &&& after.search == Some(
                Search { query: Seq::<char>::empty(), direction: SearchDirection::Reverse },
            )
            &&& after.selected == app.selected
            &&& after.commits == app.commits
            &&& after.status == "I-search backward"@ + ": "@
        }),
{
    lemma_names();
    assert("I-search"@ + ": "@ + Seq::<char>::empty() =~= "I-search"@ + ": "@);
    assert("I-search backward"@ + ": "@ + Seq::<char>::empty() =~= "I-search backward"@ + ": "@);
}

/// A character typed into a search goes behind what is sought. Forward it selects the
/// first match from the selected commit on, in reverse the last match up to it, and
/// goes round where there is none.
pub proof fn law_typing_seeks(app: AppView, ch: char, j: int)
    requires
        app.search is Some,
        0 <= app.selected < app.commits.len(),
    ensures
        ({
            let after = app.search_typed(ch);
            let direction = app.search->0.direction;
            let query = app.search->0.query.push(ch);
            let k = app.selected;
            let i = after.selected;
            &&& after.search == Some(Search { query, direction })
            &&& after.commits == app.commits
            &&& 0 <= i < app.commits.len()
            &&& after.status == (match direction {
                SearchDirection::Forward => "I-search"@,
                SearchDirection::Reverse => "I-search backward"@,
            }) + ": "@ + query
            &&& matching(app, query, j) ==> matching(app, query, i)
            &&& !matching(app, query, i) ==> i == k
            &&& matching(app, query, k) ==> i == k
            &&& direction is Forward && matching(app, query, j) && j >= k ==> k <= i <= j
            &&& direction is Forward && matching(app, query, j) && i < k ==> i <= j < k
            &&& direction is Reverse && matching(app, query, j) && j <= k ==> j <= i <= k
            &&& direction is Reverse && matching(app, query, j) && i > k ==> k < j <= i
        }),
{
    let query = lowercase(app.search->0.query.push(ch));
    let n = app.commits.len() as int;
    let k = app.selected;
    lemma_first_match(app.commits, query, k, n);
    lemma_first_match(app.commits, query, 0, lesser(k, n));
    lemma_last_match(app.commits, query, 0, lesser(k, n - 1) + 1);
    lemma_last_match(app.commits, query, lesser(k + 1, n), n);
}

/// A backspace takes off the last character that is sought, and the search goes by
/// what is left; a search ends where it stands, whether it is given up or not.
pub proof fn law_search_ends(app: AppView, screen: Screen)
    requires
        app.search is Some,
    ensures
        ({
            let (after, todo) = app.acted(screen, "search_backspace"@);
            let query = app.search->0.query;
            &&& todo is None
            &&& after.search matches Some(search) && search.direction == app.search->0.direction
                && search.query == (if query.len() > 0 {
                query.take(query.len() - 1)
            } else {
                query
            })
            &&& query.len() <= 1 ==> after.selected == app.selected
        }),
        ({
            let (after, todo) = app.acted(screen, "cancel_search"@);
            &&& todo is None
            &&& after == (AppView { search: None, status: "search cancelled"@, ..app })
        }),
        ({
            let (after, todo) = app.acted(screen, "finish_search"@);
            &&& todo is None
            &&& after == (AppView { search: None, status: "search done"@, ..app })
        }),
{
    lemma_names();
    let query = app.search->0.query;
    if query.len() > 0 {
        assert(query.drop_last() =~= query.take(query.len() - 1));
    }
}

/// A commit matches what stands in any of its fields, upper or lower case alike.
pub proof fn law_every_field_is_searched(commit: CommitView, field: int, from: int, to: int)
    requires
        0 <= field < 10,
        ({
            let fields = seq![
                commit.full_hash,
                commit.short_hash,
                commit.author_name,
                commit.author_email,
                commit.author_date,
                commit.author_date_full,
                commit.commit_date_full,
                commit.refs,
                commit.subject,
                commit.body,
            ];
            0 <= from <= to <= fields[field].len()
        }),
    ensures
        ({
            let fields = seq![
                commit.full_hash,
                commit.short_hash,
                commit.author_name,
                commit.author_email,
                commit.author_date,
                commit.author_date_full,
                commit.commit_date_full,
                commit.refs,
                commit.subject,
                commit.body,
            ];
            has_part(commit.searched_text(), lowercase(fields[field].subrange(from, to)))
        }),
{
    let fields = commit.fields();
    let all = join(fields, " "@);
    lemma_join_holds(fields, field);
    let at = choose|at: int| stands_at(all, fields[field], at);
    let part = fields[field].subrange(from, to);
    let low = lowercase(all);
    assert(low.subrange(at + from, at + from + part.len()) =~= lowercase(part)) by {
        assert forall|i: int| 0 <= i < part.len() implies low[at + from + i] == lowercase(
            part,
        )[i] by {
            assert(all.subrange(at, at + fields[field].len())[from + i] == all[at + from + i]);
        }
    }
    assert(stands_at(low, lowercase(part), at + from));
}

/// Texts that are joined stand in what they are joined to.
proof fn lemma_join_holds(list: Seq<Seq<char>>, i: int)
    requires
        0 <= i < list.len(),
    ensures
        has_part(join(list, " "@), list[i]),
    decreases list.len(),
{
    let all = join(list, " "@);
    if list.len() == 1 {
        assert(all.subrange(0, all.len() as int) =~= list[0]);
        assert(stands_at(all, list[0], 0));
    } else {
        let rest = list.drop_last();
        let head = join(rest, " "@);
        if i == list.len() - 1 {
            let at = (head + " "@).len() as int;
            assert(all.subrange(at, at + list[i].len()) =~= list[i]);
            assert(stands_at(all, list[i], at));
        } else {
            lemma_join_holds(rest, i);
            let at = choose|at: int| stands_at(head, rest[i], at);
            assert(all.subrange(at, at + list[i].len()) =~= head.subrange(at, at + list[i].len()));
            assert(stands_at(all, list[i], at));
        }
    }
}

// ---------------------------------------------------------------------------
// Selecting, expanding, copying, leaving
// ---------------------------------------------------------------------------

/// The selection goes one commit up or down, or a page, which is two rows less than
/// are seen. It stops at the first and the last commit.
pub proof fn law_selection_moves(app: AppView, screen: Screen)
    requires
        0 <= app.selected < app.commits.len(),
        0 <= app.visible_height,
    ensures
        ({
            let n = app.commits.len();
            let k = app.selected;
            let page = if app.visible_height > 3 {
                app.visible_height - 2
            } else {
                1
            };
            let up = app.acted(screen, "select_prev"@);
            let down = app.acted(screen, "select_next"@);
            let page_up = app.acted(screen, "page_up"@);
            let page_down = app.acted(screen, "page_down"@);
            &&& up.1 is None && down.1 is None && page_up.1 is None && page_down.1 is None
            &&& up.0 == (AppView { selected: if k > 0 { k - 1 } else { 0 }, ..app })
            &&& down.0 == (AppView { selected: if k + 1 < n { k + 1 } else { n - 1 }, ..app })
            &&& page_up.0 == (AppView { selected: if k >= page { k - page } else { 0 }, ..app })
            &&& page_down.0 == (AppView {
                selected: if k + page < n {
                    k + page
                } else {
                    n - 1
                },
                ..app
            })
        }),
{
    lemma_names();
}

/// The selected commit is expanded, or collapsed where it was expanded; two toggles
/// leave all as it was where nothing else was expanded.
pub proof fn law_toggle_expands_selected(app: AppView, screen: Screen)
    requires
        0 <= app.selected <= usize::MAX,
    ensures
        ({
            let (after, todo) = app.acted(screen, "toggle_expand"@);
            let again = after.acted(screen, "toggle_expand"@).0;
            &&& todo is None
            &&& after == (AppView { expanded: after.expanded, ..app })
            &&& app.expanded != Some(app.selected as usize) ==> after.expanded == Some(
                app.selected as usize,
            ) && again.expanded is None
            &&& app.expanded == Some(app.selected as usize) ==> after.expanded is None
                && again.expanded == app.expanded
        }),
{
    lemma_names();
}

/// What is copied is the full hash of the selected commit, and the status tells how
/// it went.
pub proof fn law_copy_takes_the_hash(app: AppView, screen: Screen, method: Seq<char>, why: Seq<char>)
    requires
        0 <= app.selected,
    ensures
        ({
            let (after, todo) = app.acted(screen, "copy"@);
            &&& after == app
            &&& app.selected < app.commits.len() ==> {
                &&& todo == Some(ToDo::Copy(app.commits[app.selected].full_hash))
                &&& after.done(todo->0, Ok(method)) == (AppView {
                    status: "copied SHA via "@ + method,
                    ..app
                })
                &&& after.done(todo->0, Err(why)) == (AppView {
                    status: "copy failed: "@ + why,
                    ..app
                })
            }
            &&& app.selected >= app.commits.len() ==> todo is None
        }),
{
    lemma_names();
}

/// Leaving changes nothing, and accepting tells apart that a commit was chosen.
pub proof fn law_leaving_the_browser(app: AppView, screen: Screen)
    ensures
        app.acted(screen, "quit"@) == (app, Some(ToDo::Quit)),
        app.acted(screen, "accept"@) == (AppView { accepted: true, ..app }, Some(ToDo::Quit)),
{
    lemma_names();
}

// ---------------------------------------------------------------------------
// The height
// ---------------------------------------------------------------------------

/// The viewport grows and shrinks by one row, between six rows and the height of
/// the terminal, unless it fills the screen.
pub proof fn law_height_changes_by_one(app: AppView, screen: Screen, rows: u16)
    requires
        screen.rows == Some(rows),
        !app.fullscreen,
        6 <= app.height <= rows,
    ensures
        ({
            let (grown, todo) = app.acted(screen, "grow_height"@);
            &&& grown == app
            &&& app.height < rows ==> (todo matches Some(todo) && grown.done(
                todo,
                Ok(Seq::empty()),
            ).height == app.height + 1)
            &&& app.height == rows ==> todo is None
        }),
        ({
            let (shrunk, todo) = app.acted(screen, "shrink_height"@);
            &&& shrunk == app
            &&& app.height > 6 ==> (todo matches Some(todo) && shrunk.done(
                todo,
                Ok(Seq::empty()),
            ).height == app.height - 1)
            &&& app.height == 6 ==> todo is None
        }),
{
    lemma_names();
}

/// The browser fills the screen, and comes back to the height that it had.
pub proof fn law_fullscreen_and_back(app: AppView, screen: Screen, rows: u16)
    requires
        screen.rows == Some(rows),
        !app.fullscreen,
        app.restore_height is None,
        6 <= app.height <= rows,
    ensures
        ({
            let (asked, todo) = app.acted(screen, "fullscreen"@);
            let full = asked.done(todo->0, Ok(Seq::empty()));
            let (back, again) = full.acted(screen, "restore_inline"@);
            let inline = back.done(again->0, Ok(Seq::empty()));
            &&& todo is Some && again is Some
            &&& full.fullscreen && full.height == rows && full.last_drawn_top == 0
            &&& !inline.fullscreen && inline.height == app.height
            &&& inline.restore_height is None
            &&& inline.selected == app.selected && inline.commits == app.commits
            &&& inline.search == app.search && inline.expanded == app.expanded
        }),
{
    lemma_names();
}

/// The keys that the log browser has for its actions where the user asks for no others.
pub proof fn law_keys_of_the_browser()
    ensures
        binds(log_bindings(), "cancel_search"@, seq!["esc"@, "ctrl-g"@]),
        binds(log_bindings(), "quit"@, seq!["ctrl-x ctrl-c"@, "esc"@, "q"@]),
        binds(log_bindings(), "accept"@, seq!["enter"@]),
        binds(log_bindings(), "search_forward"@, seq!["ctrl-s"@]),
        binds(log_bindings(), "search_reverse"@, seq!["ctrl-r"@]),
        binds(log_bindings(), "finish_search"@, seq!["enter"@]),
        binds(log_bindings(), "search_backspace"@, seq!["backspace"@]),
        binds(log_bindings(), "select_prev"@, seq!["ctrl-p"@, "up"@]),
        binds(log_bindings(), "select_next"@, seq!["ctrl-n"@, "down"@]),
        binds(log_bindings(), "page_up"@, seq!["pageup"@, "alt-v"@]),
        binds(log_bindings(), "page_down"@, seq!["pagedown"@, "ctrl-v"@]),
        binds(log_bindings(), "shrink_height"@, seq!["alt-up"@]),
        binds(log_bindings(), "grow_height"@, seq!["alt-down"@]),
        binds(log_bindings(), "fullscreen"@, seq!["ctrl-x 1"@]),
        binds(log_bindings(), "restore_inline"@, seq!["ctrl-x 0"@]),
        binds(log_bindings(), "toggle_expand"@, seq!["/"@]),
        binds(log_bindings(), "copy"@, seq!["alt-y"@]),
        log_bindings().len() == 17,
{
    let rows = log_bindings();
    assert(rows[0] == ("cancel_search"@, seq!["esc"@, "ctrl-g"@]));
    assert(rows[1] == ("quit"@, seq!["ctrl-x ctrl-c"@, "esc"@, "q"@]));
    assert(rows[2] == ("accept"@, seq!["enter"@]));
    assert(rows[3] == ("search_forward"@, seq!["ctrl-s"@]));
    assert(rows[4] == ("search_reverse"@, seq!["ctrl-r"@]));
    assert(rows[5] == ("finish_search"@, seq!["enter"@]));
    assert(rows[6] == ("search_backspace"@, seq!["backspace"@]));
    assert(rows[7] == ("select_prev"@, seq!["ctrl-p"@, "up"@]));
    assert(rows[8] == ("select_next"@, seq!["ctrl-n"@, "down"@]));
    assert(rows[9] == ("page_up"@, seq!["pageup"@, "alt-v"@]));
    assert(rows[10] == ("page_down"@, seq!["pagedown"@, "ctrl-v"@]));
    assert(rows[11] == ("shrink_height"@, seq!["alt-up"@]));
    assert(rows[12] == ("grow_height"@, seq!["alt-down"@]));
    assert(rows[13] == ("fullscreen"@, seq!["ctrl-x 1"@]));
    assert(rows[14] == ("restore_inline"@, seq!["ctrl-x 0"@]));
    assert(rows[15] == ("toggle_expand"@, seq!["/"@]));
    assert(rows[16] == ("copy"@, seq!["alt-y"@]));
}

// ---------------------------------------------------------------------------
// Reading the log
// ---------------------------------------------------------------------------

/// A record that is written with its fields in this order, and separators between them, is
/// read as the commit with these fields; white space at the end of its body goes.
pub proof fn law_records_are_read(c: CommitView)
    requires
        forall|i: int| 0 <= i < c.fields().len() ==> free_of(#[trigger] c.fields()[i], '\u{1f}'),
        c.full_hash.len() > 0 && c.full_hash[0] != '\n',
    ensures
        ({
            let record = join(
                seq![
                    c.full_hash,
                    c.short_hash,
                    c.author_name,
                    c.author_email,
                    c.author_date,
                    c.author_date_full,
                    c.commit_date_full,
                    c.refs,
                    c.subject,
                    c.body,
                ],
                seq!['\u{1f}'],
            );
            commit_of(record) == Some(CommitView { body: trim_end(c.body), ..c })
        }),
{
    let fields = seq![
        c.full_hash,
        c.short_hash,
        c.author_name,
        c.author_email,
        c.author_date,
        c.author_date_full,
        c.commit_date_full,
        c.refs,
        c.subject,
        c.body,
    ];
    assert(fields =~= c.fields());
    let sep = '\u{1f}';
    law_split_undoes_join(fields, sep);
    lemma_join_begins(fields, seq![sep]);
    let record = join(fields, seq![sep]);
    assert(without_feeds(record) == record);
    assert(fields.skip(9) =~= seq![c.body]);
    assert(join(seq![c.body], seq![sep]) == c.body);
}

proof fn lemma_join_begins(list: Seq<Seq<char>>, sep: Seq<char>)
    requires
        list.len() > 0,
        list[0].len() > 0,
    ensures
        join(list, sep).len() > 0,
        join(list, sep)[0] == list[0][0],
    decreases list.len(),
{
    if list.len() > 1 {
        assert(list.drop_last()[0] == list[0]);
        lemma_join_begins(list.drop_last(), sep);
    }
}

/// A record with fewer than nine fields is refused, and so is the log that holds it.
pub proof fn law_short_records_are_refused(list: Seq<Seq<char>>)
    requires
        0 < list.len() < 9,
        list[0].len() > 0 && list[0][0] != '\n',
        forall|i: int| 0 <= i < list.len() ==> free_of(#[trigger] list[i], '\u{1f}'),
    ensures
        commit_of(join(list, seq!['\u{1f}'])) is None,
{
    law_split_undoes_join(list, '\u{1f}');
    lemma_join_begins(list, seq!['\u{1f}']);
}

// ---------------------------------------------------------------------------
// Arguments
// ---------------------------------------------------------------------------

/// The arguments go to `git log` as they are, with a limit of five hundred commits in front
/// where none of them sets one. Graphs are refused wherever they are asked for.
pub proof fn law_arguments_go_to_git(args: Seq<Seq<char>>, i: int, n: nat)
    requires
        0 <= i < args.len(),
    ensures
        args[i] == "--graph"@ ==> normalized(args) is Err,
        normalized(args) matches Ok(out) ==> {
            ||| out == args
            ||| out == seq!["-n"@, "500"@] + args
        },
        args[i] == "-n"@ || args[i] == "--max-count"@ || args[i] == "--max-count="@ + decimal(n)
            || args[i] == "-n"@ + decimal(n) || args[i] == "-"@ + decimal(n) ==> (normalized(args)
            matches Ok(out) ==> out == args),
        normalized(args) is Err ==> exists|k: int|
            0 <= k < args.len() && (#[trigger] args[k] == "--graph"@ || has_prefix(
                args[k],
                "--graph="@,
            )),
{
    reveal_strlit("-n");
    reveal_strlit("-");
    reveal_strlit("--max-count=");
    lemma_decimal(n);
    if args[i] == "-n"@ {
        assert(args[i].take(2) =~= "-n"@);
    }
    if args[i] == "-n"@ + decimal(n) {
        assert(args[i].take(2) =~= "-n"@);
    }
    if args[i] == "--max-count="@ + decimal(n) {
        assert(args[i].take(12) =~= "--max-count="@);
    }
    if args[i] == "-"@ + decimal(n) {
        assert(args[i].drop_first() =~= decimal(n));
    }
    if args[i] == "-n"@ || args[i] == "--max-count"@ || args[i] == "--max-count="@ + decimal(n)
        || args[i] == "-n"@ + decimal(n) || args[i] == "-"@ + decimal(n) {
        assert(limits_count(args[i]));
    }
    if args[i] == "--graph"@ {
        assert(asks_graph(args[i]));
    }
}

/// Where no argument sets a limit, five hundred commits are asked for.
pub proof fn law_commits_are_limited(args: Seq<Seq<char>>)
    requires
        forall|i: int|
            0 <= i < args.len() ==> (#[trigger] args[i]).len() > 0 && args[i][0] != '-',
    ensures
        normalized(args) == Ok::<Seq<Seq<char>>, ArgFault>(seq!["-n"@, "500"@] + args),
{
    reveal_strlit("-n");
    reveal_strlit("--graph");
    reveal_strlit("--graph=");
    reveal_strlit("--max-count");
    reveal_strlit("--max-count=");
    assert forall|i: int| 0 <= i < args.len() implies !asks_graph(#[trigger] args[i])
        && !limits_count(args[i]) by {
        let arg = args[i];
        if arg.len() >= 2 {
            assert(arg.take(2)[0] == arg[0]);
        }
        if arg.len() >= 8 {
            assert(arg.take(8)[0] == arg[0]);
        }
        if arg.len() >= 12 {
            assert(arg.take(12)[0] == arg[0]);
        }
    }
}

// ---------------------------------------------------------------------------
// What is shown
// ---------------------------------------------------------------------------

/// A text that is cut is no longer than the limit, and keeps its begin. What is cut off is
/// told by a tilde, or by dots behind the limit.
pub proof fn law_long_texts_are_cut(text: Seq<char>, max: int)
    requires
        max >= 1,
    ensures
        text.len() <= max ==> cut(text, max) == text && cut_with_dots(text, max) == text,
        text.len() > max ==> {
            &&& cut(text, max).len() == max
            &&& cut(text, max).last() == '~'
            &&& forall|i: int| 0 <= i < max - 1 ==> #[trigger] cut(text, max)[i] == text[i]
            &&& cut_with_dots(text, max).len() <= max + 3
            &&& has_suffix(cut_with_dots(text, max), "..."@)
            &&& forall|i: int|
                0 <= i < cut_with_dots(text, max).len() - 3 ==> #[trigger] cut_with_dots(
                    text,
                    max,
                )[i] == text[i]
        },
{
    reveal_strlit("...");
    if text.len() > max {
        let head = text.take(max);
        lemma_trim_end(head);
        let kept = trim_end(head);
        let all = kept + "..."@;
        assert(all.skip(all.len() - 3) =~= "..."@);
        assert forall|i: int| 0 <= i < all.len() - 3 implies #[trigger] all[i] == text[i] by {
            assert(kept[i] == head[i]);
        }
    }
}

/// What is left on the screen tells, without colours, the hash, the author, both dates, the
/// refs where there are some, and the subject.
pub proof fn law_summary_tells(c: CommitView)
    requires
        c.subject.len() <= 50,
    ensures
        c.summary(false) == "commit"@ + " "@ + c.full_hash + "    "@ + ("author"@ + " "@ + (
        c.author_name + " <"@ + c.author_email + ">"@)) + "\n"@ + ("author date"@ + " "@
            + c.author_date_full + "    "@ + ("commit date"@ + " "@ + c.commit_date_full) + "\n"@)
            + (if c.refs.len() > 0 {
            "refs"@ + " "@ + c.refs + "\n"@
        } else {
            Seq::<char>::empty()
        }) + "\n"@ + ("subject"@ + " "@ + c.subject + "\n"@),
{
}

/// The row of a commit shows its hash, its date, its author and its subject, in this
/// order, and its refs behind the subject. The expanded one is marked, and the selected
/// one stands out.
pub proof fn law_rows_show_commits(c: CommitView, selected: bool, expanded: bool)
    ensures
        ({
            let row = commit_row(c, selected, expanded);
            &&& row.len() == 6
            &&& row[0].text == (if expanded {
                "/"@
            } else {
                " "@
            })
            &&& has_prefix(row[2].text, c.short_hash) && row[2].text.len() >= 9
            &&& has_prefix(row[3].text, c.author_date) && row[3].text.len() >= 11
            &&& c.author_name.len() <= 17 ==> has_prefix(row[4].text, c.author_name)
            &&& row[4].text.len() == 18
            &&& has_prefix(row[5].text, c.subject)
            &&& c.refs.len() == 0 ==> row[5].text == c.subject
            &&& c.refs.len() > 0 ==> row[5].text == c.subject + (" ("@ + c.refs + ")"@)
            &&& forall|i: int|
                0 <= i < 6 && i != 1 ==> (#[trigger] row[i]).style.bg == (if selected {
                    Some(Color::DarkGray)
                } else {
                    None
                })
        }),
{
    let row = commit_row(c, selected, expanded);
    assert(pad_right(c.short_hash, 9).take(c.short_hash.len() as int) =~= c.short_hash);
    assert(pad_right(c.author_date, 11).take(c.author_date.len() as int) =~= c.author_date);
    assert(pad_right(c.author_name, 18).take(c.author_name.len() as int) =~= c.author_name);
    assert(row[5].text.take(c.subject.len() as int) =~= c.subject);
    if c.refs.len() == 0 {
        assert(row[5].text =~= c.subject);
    }
}

/// A key that goes on waiting changes nothing but what is awaited and the status; one that
/// leads nowhere behind others is told and gives them up; and one that leads nowhere by
/// itself does nothing.
pub proof fn law_keys_are_awaited(app: AppView, screen: Screen, bindings: Seq<Bound>, key: KeyEvent)
    ensures
        ({
            let (after, left) = app.pressed(screen, bindings, key);
            let pending = app.pending.push(normal_key(key));
            let names = if app.search is Some {
                search_names()
            } else {
                log_names()
            };
            match lookup(bindings, names, pending) {
                MatchView::Prefix => {
                    &&& left is None
                    &&& after == (AppView { pending, status: after.status, ..app })
                    &&& has_suffix(after.status, " ..."@)
                },
                MatchView::NoMatch => {
                    &&& left is None
                    &&& app.pending.len() > 0 ==> after == (AppView {
                        pending: Seq::empty(),
                        status: "unknown key sequence"@,
                        ..app
                    })
                    &&& app.pending.len() == 0 ==> after == app
                },
                MatchView::Action(action) => (after, left) == (AppView {
                    pending: Seq::empty(),
                    ..app
                }).acted(screen, action),
            }
        }),
{
    let pending = app.pending.push(normal_key(key));
    let head = join(pending.map_values(|key: KeyPress| key.text()), " "@);
    let all = head + " ..."@;
    assert(all.skip(all.len() - " ..."@.len()) =~= " ..."@);
}

/// A character without a modifier, or with shift alone, is typed into a search that is under
/// way, and into nothing else.
pub proof fn law_search_takes_characters(
    app: AppView,
    screen: Screen,
    bindings: Seq<Bound>,
    key: KeyEvent,
)
    ensures
        app.search is None ==> app.typed(screen, bindings, key) is None,
        key.modifiers.control || key.modifiers.alt ==> app.typed(screen, bindings, key) is None,
        app.typed(screen, bindings, key) matches Some(c) ==> key.code == KeyCode::Char(c),
        app.search is Some && key.code is Char && key.modifiers == no_modifiers() && app.pressed(
            screen,
            bindings,
            key,
        ).1 is None ==> app.typed(screen, bindings, key) == Some(key.code->Char_0),
{
}

/// A viewport that was drawn at its height keeps its first row when it grows and its last
/// row when it shrinks.
pub proof fn law_height_keeps_the_place(app: AppView, screen: Screen, rows: u16)
    requires
        screen.rows == Some(rows),
        !app.fullscreen,
        6 < app.height < rows,
        app.last_drawn_height == app.height,
        app.last_drawn_top + app.height <= rows,
    ensures
        ({
            let grown = app.acted(screen, "grow_height"@).1->0;
            let shrunk = app.acted(screen, "shrink_height"@).1->0;
            let copied = Ok::<Seq<char>, Seq<char>>(Seq::empty());
            &&& app.done(grown, copied).last_drawn_top == app.last_drawn_top
            &&& app.done(grown, copied).last_drawn_height == app.height + 1
            &&& app.done(shrunk, copied).last_drawn_top == app.last_drawn_top + 1
            &&& app.done(shrunk, copied).last_drawn_height == app.height - 1
        }),
{
    lemma_names();
}

/// Below an expanded commit stand its hash, its author, both dates, its refs where there are
/// some, and its body line by line.
pub proof fn law_details_show_the_commit(c: CommitView, i: int)
    ensures
        ({
            let rows = detail_rows(c);
            let refs = if c.refs.len() > 0 {
                1int
            } else {
                0
            };
            &&& rows[0][0].text == "    commit "@ && rows[0][1].text == c.full_hash
            &&& rows[1][0].text == "    Author: "@ + c.author_name + " <"@ + (c.author_email
                + ">"@)
            &&& rows[2][0].text == "    AuthorDate: "@ + c.author_date_full
            &&& rows[3][0].text == "    CommitDate: "@ + c.commit_date_full
            &&& c.refs.len() > 0 ==> rows[4][0].text == "    Refs: "@ + c.refs
            &&& c.body.len() == 0 ==> rows.len() == 5 + refs && rows[4 + refs][0].text
                == "    (no commit message body)"@
            &&& c.body.len() > 0 ==> rows.len() == 4 + refs + lines(c.body).len()
            &&& c.body.len() > 0 && 0 <= i < lines(c.body).len() ==> rows[4 + refs + i][0].text
                == "    "@ + lines(c.body)[i]
        }),
{
}

/// The actions that keys lead to: all but those of a search outside one, and during a search
/// those that belong to it and those that leave or fill the screen.
pub proof fn law_actions_that_keys_lead_to()
    ensures
        log_names().contains("quit"@),
        log_names().contains("accept"@),
        log_names().contains("search_forward"@),
        log_names().contains("search_reverse"@),
        log_names().contains("select_prev"@),
        log_names().contains("select_next"@),
        log_names().contains("page_up"@),
        log_names().contains("page_down"@),
        log_names().contains("shrink_height"@),
        log_names().contains("grow_height"@),
        log_names().contains("fullscreen"@),
        log_names().contains("restore_inline"@),
        log_names().contains("toggle_expand"@),
        log_names().contains("copy"@),
        log_names().len() == 14,
        search_names().contains("quit"@),
        search_names().contains("fullscreen"@),
        search_names().contains("restore_inline"@),
        search_names().contains("search_forward"@),
        search_names().contains("search_reverse"@),
        search_names().contains("cancel_search"@),
        search_names().contains("finish_search"@),
        search_names().contains("search_backspace"@),
        search_names().len() == 8,
{
    assert(log_names()[0] == "quit"@);
    assert(log_names()[1] == "accept"@);
    assert(log_names()[2] == "search_forward"@);
    assert(log_names()[3] == "search_reverse"@);
    assert(log_names()[4] == "select_prev"@);
    assert(log_names()[5] == "select_next"@);
    assert(log_names()[6] == "page_up"@);
    assert(log_names()[7] == "page_down"@);
    assert(log_names()[8] == "shrink_height"@);
    assert(log_names()[9] == "grow_height"@);
    assert(log_names()[10] == "fullscreen"@);
    assert(log_names()[11] == "restore_inline"@);
    assert(log_names()[12] == "toggle_expand"@);
    assert(log_names()[13] == "copy"@);
    assert(search_names()[0] == "quit"@);
    assert(search_names()[1] == "fullscreen"@);
    assert(search_names()[2] == "restore_inline"@);
    assert(search_names()[3] == "search_forward"@);
    assert(search_names()[4] == "search_reverse"@);
    assert(search_names()[5] == "cancel_search"@);
    assert(search_names()[6] == "finish_search"@);
    assert(search_names()[7] == "search_backspace"@);
}

/// `git log` is asked for the fields of a commit in the order in which they are read, with
/// the separators between them that they are parted by.
pub proof fn law_fields_are_asked_for()
    ensures
        log_format() == "--format=format:%x1e%H"@ + "%x1f%h"@ + "%x1f%an"@ + "%x1f%ae"@
            + "%x1f%as"@ + "%x1f%aI"@ + "%x1f%cI"@ + "%x1f%D"@ + "%x1f%s"@ + "%x1f%b"@,
{
    reveal_strlit(
        "--format=format:%x1e%H%x1f%h%x1f%an%x1f%ae%x1f%as%x1f%aI%x1f%cI%x1f%D%x1f%s%x1f%b",
    );
    reveal_strlit("--format=format:%x1e%H");
    reveal_strlit("%x1f%h");
    reveal_strlit("%x1f%an");
    reveal_strlit("%x1f%ae");
    reveal_strlit("%x1f%as");
    reveal_strlit("%x1f%aI");
    reveal_strlit("%x1f%cI");
    reveal_strlit("%x1f%D");
    reveal_strlit("%x1f%s");
    reveal_strlit("%x1f%b");
    assert(log_format() =~= "--format=format:%x1e%H"@ + "%x1f%h"@ + "%x1f%an"@ + "%x1f%ae"@
        + "%x1f%as"@ + "%x1f%aI"@ + "%x1f%cI"@ + "%x1f%D"@ + "%x1f%s"@ + "%x1f%b"@);
}

/// What is told of a copy names the hash, and the means or the reason.
pub proof fn law_copies_are_reported(hash: Seq<char>, text: Seq<char>)
    ensures
        copy_report(hash, Ok(text)) == "\n"@ + ("\x1b[90m"@ + "clipboard"@ + "\x1b[0m"@ + " "@ + (
        "\x1b[32m"@ + ("copied "@ + hash + " via "@ + text) + "\x1b[0m"@)) + "\n"@,
        copy_report(hash, Err(text)) == "\n"@ + ("\x1b[90m"@ + "clipboard"@ + "\x1b[0m"@ + " "@ + (
        "\x1b[33m"@ + ("failed to copy "@ + hash + ": "@ + text) + "\x1b[0m"@)) + "\n"@,
{
}

/// A viewport that is asked back to its height without filling the screen takes that height.
pub proof fn law_height_is_restored(app: AppView, screen: Screen, rows: u16, height: u16)
    requires
        screen.rows == Some(rows),
        !app.fullscreen,
        app.restore_height == Some(height),
        6 <= height <= rows,
    ensures
        ({
            let (after, todo) = app.acted(screen, "restore_inline"@);
            let copied = Ok::<Seq<char>, Seq<char>>(Seq::empty());
            &&& after.restore_height is None
            &&& height != app.height ==> (todo matches Some(todo) && after.done(
                todo,
                copied,
            ).height == height)
            &&& height == app.height ==> todo is None && after.status == "height "@ + decimal(
                height as nat,
            )
        }),
{
    lemma_names();
}

/// What stands between two separators is a record unless it is blank, and records keep their
/// order.
pub proof fn law_blank_records_are_left_out(pieces: Seq<Seq<char>>, piece: Seq<char>)
    ensures
        is_blank(piece) ==> records(pieces.push(piece)) == records(pieces),
        !is_blank(piece) ==> records(pieces.push(piece)) == records(pieces).push(piece),
        records(Seq::empty()) == Seq::<Seq<char>>::empty(),
{
    assert(pieces.push(piece).drop_last() =~= pieces);
}

/// The list is scrolled no further than it must: not at all where the selected commit is
/// seen, up to it where it stands above, and where it stands below, no further than to the
/// first commit from which on it is seen.
pub proof fn law_list_is_scrolled_little(app: AppView, height: int, n: int)
    requires
        app.wf(),
        app.rows_fit(),
        0 <= app.scroll_y,
        0 < height,
        app.scroll_y + height <= usize::MAX,
        0 <= n <= app.selected < app.commits.len(),
    ensures
        ({
            let row = app.row_of(app.selected);
            let after = app.revealed(height);
            &&& app.scroll_y <= row < app.scroll_y + height ==> after == app
            &&& row < app.scroll_y ==> after.scroll_y == row
            &&& row >= app.scroll_y + height && row - app.row_of(n) < height ==> after.scroll_y
                <= app.row_of(n)
        }),
{
    let row = app.row_of(app.selected);
    if row >= app.scroll_y + height && row - app.row_of(n) < height {
        lemma_rows(app, 0, n);
        lemma_rows(app, n, app.selected);
        lemma_aligned_least(app, 0, row - height + 1, row, n);
    }
}

proof fn lemma_aligned_least(app: AppView, i: int, desired: int, row: int, n: int)
    requires
        0 <= i <= n < app.commits.len(),
        desired <= app.row_of(n) <= row,
    ensures
        app.aligned(i, desired, row) <= app.row_of(n),
    decreases app.commits.len() - i,
{
    lemma_rows(app, i, n);
    if desired > app.row_of(i) {
        if i < n {
            lemma_rows(app, i + 1, n);
            if desired >= app.row_of(i + 1) {
                lemma_aligned_least(app, i + 1, desired, row, n);
            }
        }
    }
}

/// A viewport that is to fill the screen keeps the height that it is to go back to, where
/// there is one already; one that fills it says so.
pub proof fn law_height_is_kept_once(app: AppView, screen: Screen, height: u16)
    ensures
        ({
            let (after, todo) = app.acted(screen, "fullscreen"@);
            &&& !app.fullscreen && app.restore_height == Some(height) ==> after.restore_height
                == Some(height)
            &&& !app.fullscreen && app.restore_height is None ==> after.restore_height == Some(
                app.height,
            )
            &&& app.fullscreen ==> todo is None && after == (AppView {
                status: "fullscreen"@,
                ..app
            })
        }),
{
    lemma_names();
}

} // verus!
