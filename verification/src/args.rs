//! Command line arguments that the tools have in common.

use vstd::prelude::*;

#[allow(unused_imports)]
use crate::text::unsigned;
use crate::text::{concat2, parse_unsigned};

verus! {

/// What is wrong with the arguments of a tool.
#[derive(Debug, PartialEq, Eq)]
pub enum ArgError {
    /// No number of rows follows this option.
    MissingRows(String),
    /// This is no height.
    InvalidHeight(String),
    /// No line number follows `--line`.
    MissingLine,
    /// This is no line number.
    InvalidLine(String),
    /// One argument too many.
    Unexpected(String),
    /// The file is missing; the text shows how the tool is used.
    Usage(String),
    /// `inlog` does not draw graphs.
    Graph,
}

/// What is wrong with the arguments of a tool, in terms of texts.
pub enum ArgFault {
    MissingRows(Seq<char>),
    InvalidHeight(Seq<char>),
    MissingLine,
    InvalidLine(Seq<char>),
    Unexpected(Seq<char>),
    Usage(Seq<char>),
    Graph,
}

impl View for ArgError {
    type V = ArgFault;

    open spec fn view(&self) -> ArgFault {
        match self {
            ArgError::MissingRows(arg) => ArgFault::MissingRows(arg@),
            ArgError::InvalidHeight(value) => ArgFault::InvalidHeight(value@),
            ArgError::MissingLine => ArgFault::MissingLine,
            ArgError::InvalidLine(value) => ArgFault::InvalidLine(value@),
            ArgError::Unexpected(arg) => ArgFault::Unexpected(arg@),
            ArgError::Usage(text) => ArgFault::Usage(text@),
            ArgError::Graph => ArgFault::Graph,
        }
    }
}

impl ArgFault {
    /// The fault as told to the user.
    pub open spec fn text(self) -> Seq<char> {
        match self {
            ArgFault::MissingRows(arg) => arg + " requires a row count"@,
            ArgFault::InvalidHeight(value) => "invalid height: "@ + value,
            ArgFault::MissingLine => "--line requires a line number"@,
            ArgFault::InvalidLine(value) => "invalid line number: "@ + value,
            ArgFault::Unexpected(arg) => "unexpected argument: "@ + arg,
            ArgFault::Usage(text) => "usage: "@ + text,
            ArgFault::Graph => "inlog does not support --graph"@,
        }
    }
}

impl ArgError {
    /// The fault as told to the user.
    pub fn message(&self) -> (r: String)
        ensures
            r@ == self@.text(),
    {
        match self {
            ArgError::MissingRows(arg) => concat2(arg.as_str(), " requires a row count"),
            ArgError::InvalidHeight(value) => concat2("invalid height: ", value.as_str()),
            ArgError::MissingLine => "--line requires a line number".to_string(),
            ArgError::InvalidLine(value) => concat2("invalid line number: ", value.as_str()),
            ArgError::Unexpected(arg) => concat2("unexpected argument: ", arg.as_str()),
            ArgError::Usage(text) => concat2("usage: ", text.as_str()),
            ArgError::Graph => "inlog does not support --graph".to_string(),
        }
    }
}

/// The height that an argument asks for.
pub open spec fn height_value(value: Seq<char>) -> Result<u16, ArgFault> {
    match unsigned(value, u16::MAX as nat) {
        Some(n) => Ok(n as u16),
        None => Err(ArgFault::InvalidHeight(value)),
    }
}

/// The height that an argument asks for.
pub fn parse_height(value: &str) -> (r: Result<u16, ArgError>)
    ensures
        match r {
            Ok(n) => height_value(value@) == Ok::<u16, ArgFault>(n),
            Err(error) => height_value(value@) == Err::<u16, ArgFault>(error@),
        },
{
    match parse_unsigned(value, u16::MAX as u64) {
        Some(n) => Ok(n as u16),
        None => Err(ArgError::InvalidHeight(value.to_string())),
    }
}

/// The line number that an argument asks for; lines are counted from one.
pub open spec fn line_value(value: Seq<char>) -> Result<usize, ArgFault> {
    match unsigned(value, usize::MAX as nat) {
        Some(n) => if n == 0 {
            Ok(1)
        } else {
            Ok(n as usize)
        },
        None => Err(ArgFault::InvalidLine(value)),
    }
}

/// The line number that an argument asks for.
pub fn parse_line_number(value: &str) -> (r: Result<usize, ArgError>)
    ensures
        match r {
            Ok(n) => line_value(value@) == Ok::<usize, ArgFault>(n),
            Err(error) => line_value(value@) == Err::<usize, ArgFault>(error@),
        },
{
    match parse_unsigned(value, usize::MAX as u64) {
        Some(n) => if n == 0 {
            Ok(1)
        } else {
            Ok(n as usize)
        },
        None => Err(ArgError::InvalidLine(value.to_string())),
    }
}

} // verus!
