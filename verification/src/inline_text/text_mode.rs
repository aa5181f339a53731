//! The rules a text is edited by: plain text, or a commit message.

use vstd::prelude::*;

use crate::paths::file_name_of;
#[allow(unused_imports)]
use crate::paths::file_name;
#[allow(unused_imports)]
use crate::text::has_suffix;
use crate::text::{ends_with, same};

verus! {

/// The rules a text is edited by.
#[derive(Clone, Copy, Debug, PartialEq, Eq)]
pub enum TextMode {
    /// Paragraphs are filled to one column.
    Plain { fill_column: usize },
    /// The first line is the subject; the body follows behind a blank line.
    /// Lines that begin with the comment prefix are no part of the message.
    CommitMessage {
        subject_column: usize,
        body_column: usize,
        comment_prefix: &'static str,
    },
}

/// Whether a file name is one that Git gives to a commit message.
pub open spec fn names_commit_message(name: Seq<char>) -> bool {
    ||| name == "MERGE_MSG"@
    ||| name == "SQUASH_MSG"@
    ||| name == "TAG_EDITMSG"@
    ||| has_suffix(name, "COMMIT_MSG"@)
    ||| has_suffix(name, "COMMIT_EDITMSG"@)
}

/// Whether the file at `path` holds a commit message.
pub open spec fn holds_commit_message(path: Seq<char>) -> bool {
    file_name(path) matches Some(name) && names_commit_message(name)
}

impl TextMode {
    /// These are the rules for the file at `path`: those of Git for a commit
    /// message, and one column to fill to for other files.
    pub open spec fn suits(self, path: Seq<char>, fill_column: usize) -> bool {
        if holds_commit_message(path) {
            &&& self is CommitMessage
            &&& self->subject_column == 50
            &&& self->body_column == 72
            &&& self->comment_prefix@ == "#"@
        } else {
            self == (TextMode::Plain { fill_column })
        }
    }

    /// The rules for the file at `path`.
    pub fn for_path(path: &str, fill_column: usize) -> (r: TextMode)
        ensures
            r.suits(path@, fill_column),
    {
        if is_git_commit_message_path(path) {
            TextMode::CommitMessage { subject_column: 50, body_column: 72, comment_prefix: "#" }
        } else {
            TextMode::Plain { fill_column }
        }
    }

    /// The column that a line is filled to.
    pub open spec fn fill_column_at(self, line: int) -> usize {
        match self {
            TextMode::Plain { fill_column } => fill_column,
            TextMode::CommitMessage { subject_column, body_column, .. } => if line == 0 {
                subject_column
            } else {
                body_column
            },
        }
    }

    /// The column that a line is filled to.
    pub fn fill_column_for_line(self, line: usize) -> (r: usize)
        ensures
            r == self.fill_column_at(line as int),
    {
        match self {
            TextMode::Plain { fill_column } => fill_column,
            TextMode::CommitMessage { subject_column, body_column, .. } => {
                if line == 0 {
                    subject_column
                } else {
                    body_column
                }
            },
        }
    }

    /// Whether the text is a commit message.
    pub fn is_commit_message(self) -> (r: bool)
        ensures
            r == (self is CommitMessage),
    {
        match self {
            TextMode::CommitMessage { .. } => true,
            TextMode::Plain { .. } => false,
        }
    }
}

/// Whether the file at `path` holds a commit message.
fn is_git_commit_message_path(path: &str) -> (r: bool)
    ensures
        r == holds_commit_message(path@),
{
    let Some(name) = file_name_of(path) else {
        return false;
    };
    let name = name.as_str();
    same(name, "MERGE_MSG") || same(name, "SQUASH_MSG") || same(name, "TAG_EDITMSG") || ends_with(
        name,
        "COMMIT_MSG",
    ) || ends_with(name, "COMMIT_EDITMSG")
}

} // verus!
