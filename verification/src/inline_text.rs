//! The inline editor and pager.

use vstd::prelude::*;

use crate::args::{parse_height, parse_line_number, ArgError};
#[allow(unused_imports)]
use crate::args::{height_value, line_value, ArgFault};
#[allow(unused_imports)]
use crate::text::{all_digits, has_prefix, is_digit, views};
use crate::text::{chars_of, concat2, same, strip_prefix};

pub mod buffer;
pub mod conduct;
pub mod editor;
pub mod edits;
pub mod input;
pub mod keys;
pub mod laws;
pub mod model;
pub mod options;
pub mod place;
pub mod refill;
pub mod reflow;
pub mod render;
pub mod sight;
pub mod syntax;
pub mod text_mode;

verus! {

/// The height of the viewport where none is asked for.
pub const DEFAULT_HEIGHT: u16 = 16;

/// The least height of the viewport.
pub const MIN_HEIGHT: u16 = 5;

/// The column that paragraphs are filled to where none is configured.
pub const DEFAULT_FILL_COLUMN: usize = 80;

/// Whether the text is edited or only viewed.
#[derive(Clone, Copy, Debug, PartialEq, Eq, Structural)]
pub enum Mode {
    Edit,
    View,
}

impl Mode {
    /// The name of the tool.
    pub open spec fn name(self) -> Seq<char> {
        match self {
            Mode::Edit => "inmacs"@,
            Mode::View => "inpage"@,
        }
    }

    /// The name of the tool.
    pub fn title(self) -> (r: &'static str)
        ensures
            r@ == self.name(),
    {
        match self {
            Mode::Edit => "inmacs",
            Mode::View => "inpage",
        }
    }

    /// What the status line shows at first.
    pub open spec fn first_status(self) -> Seq<char> {
        match self {
            Mode::Edit => "Ctrl-S search  Ctrl-R reverse-search  Ctrl-X Ctrl-S save"@,
            Mode::View => "Ctrl-S search  Ctrl-R reverse-search  Ctrl-X Ctrl-C quit"@,
        }
    }

    /// What the status line shows at first.
    pub fn initial_status(self) -> (r: &'static str)
        ensures
            r@ == self.first_status(),
    {
        match self {
            Mode::Edit => "Ctrl-S search  Ctrl-R reverse-search  Ctrl-X Ctrl-S save",
            Mode::View => "Ctrl-S search  Ctrl-R reverse-search  Ctrl-X Ctrl-C quit",
        }
    }

    /// Whether the text may be changed.
    pub fn is_editable(self) -> (r: bool)
        ensures
            r == (self is Edit),
    {
        match self {
            Mode::Edit => true,
            Mode::View => false,
        }
    }
}

/// What the arguments ask for.
#[derive(Debug)]
pub struct Config {
    pub path: String,
    pub height: u16,
    pub line: Option<usize>,
}

/// What the arguments read so far ask for.
pub struct Asked {
    pub path: Option<Seq<char>>,
    pub height: u16,
    pub line: Option<usize>,
}

/// What the arguments from the one at `i` on ask for, on top of those before.
pub open spec fn asked(args: Seq<Seq<char>>, i: int, so_far: Asked) -> Result<Asked, ArgFault>
    decreases args.len() - i,
{
    if i >= args.len() {
        Ok(so_far)
    } else {
        let arg = args[i];
        if arg == "--height"@ || arg == "-h"@ {
            if i + 1 >= args.len() {
                Err(ArgFault::MissingRows(arg))
            } else {
                match height_value(args[i + 1]) {
                    Ok(height) => asked(args, i + 2, Asked { height, ..so_far }),
                    Err(fault) => Err(fault),
                }
            }
        } else if has_prefix(arg, "--height="@) {
            match height_value(arg.skip("--height="@.len() as int)) {
                Ok(height) => asked(args, i + 1, Asked { height, ..so_far }),
                Err(fault) => Err(fault),
            }
        } else if arg == "--line"@ {
            if i + 1 >= args.len() {
                Err(ArgFault::MissingLine)
            } else {
                match line_value(args[i + 1]) {
                    Ok(line) => asked(args, i + 2, Asked { line: Some(line), ..so_far }),
                    Err(fault) => Err(fault),
                }
            }
        } else if has_prefix(arg, "--line="@) {
            match line_value(arg.skip("--line="@.len() as int)) {
                Ok(line) => asked(args, i + 1, Asked { line: Some(line), ..so_far }),
                Err(fault) => Err(fault),
            }
        } else if has_prefix(arg, "+"@) {
            let value = arg.skip("+"@.len() as int);
            if value.len() > 0 && all_digits(value) {
                match line_value(value) {
                    Ok(line) => asked(args, i + 1, Asked { line: Some(line), ..so_far }),
                    Err(fault) => Err(fault),
                }
            } else {
                asked(args, i + 1, Asked { path: Some(arg), ..so_far })
            }
        } else if so_far.path is None {
            asked(args, i + 1, Asked { path: Some(arg), ..so_far })
        } else {
            Err(ArgFault::Unexpected(arg))
        }
    }
}

/// What the arguments ask for, with a path in any case.
pub open spec fn config_of(args: Seq<Seq<char>>, mode: Mode) -> Result<Asked, ArgFault> {
    let first = Asked { path: None, height: DEFAULT_HEIGHT, line: None };
    match asked(args, 0, first) {
        Ok(all) => if all.path is None {
            Err(ArgFault::Usage(mode.name() + " [--height N] [+LINE] FILE"@))
        } else {
            Ok(all)
        },
        Err(fault) => Err(fault),
    }
}

/// What a configuration says.
pub open spec fn config_view(config: Config) -> Asked {
    Asked { path: Some(config.path@), height: config.height, line: config.line }
}

/// A path that may be missing, as a text.
pub open spec fn path_view(path: Option<String>) -> Option<Seq<char>> {
    match path {
        Some(path) => Some(path@),
        None => None,
    }
}

fn only_digits(s: &str) -> (r: bool)
    ensures
        r == all_digits(s@),
{
    let chars = chars_of(s);
    let mut i: usize = 0;
    while i < chars.len()
        invariant
            i <= chars@.len(),
            chars@ == s@,
            forall|j: int| 0 <= j < i ==> is_digit(#[trigger] s@[j]),
        decreases chars@.len() - i,
    {
        if chars[i] < '0' || chars[i] > '9' {
            assert(!is_digit(s@[i as int]));
            return false;
        }
        i = i + 1;
    }
    true
}

impl Config {
    /// Reads the arguments of the editor or the pager.
    pub fn parse(args: &Vec<String>, mode: Mode) -> (r: Result<Config, ArgError>)
        ensures
            match r {
                Ok(config) => config_of(views(args@), mode) == Ok::<Asked, ArgFault>(
                    config_view(config),
                ),
                Err(error) => config_of(views(args@), mode) == Err::<Asked, ArgFault>(error@),
            },
    {
        let ghost all = views(args@);
        let ghost first = Asked { path: None, height: DEFAULT_HEIGHT, line: None };
        let mut height: u16 = DEFAULT_HEIGHT;
        let mut line: Option<usize> = None;
        let mut path: Option<String> = None;
        let mut i: usize = 0;
        while i < args.len()
            invariant
                i <= args@.len(),
                all == views(args@),
                first == (Asked { path: None, height: DEFAULT_HEIGHT, line: None }),
                asked(all, 0, first) == asked(
                    all,
                    i as int,
                    Asked { path: path_view(path), height, line },
                ),
            decreases args@.len() - i,
        {
            let arg = args[i].as_str();
            assert(all[i as int] == arg@);
            if same(arg, "--height") || same(arg, "-h") {
                if i + 1 >= args.len() {
                    return Err(ArgError::MissingRows(arg.to_string()));
                }
                assert(all[i + 1] == args@[i + 1]@);
                match parse_height(args[i + 1].as_str()) {
                    Ok(rows) => {
                        height = rows;
                    },
                    Err(error) => {
                        return Err(error);
                    },
                }
                i = i + 2;
            } else if let Some(value) = strip_prefix(arg, "--height=") {
                match parse_height(value.as_str()) {
                    Ok(rows) => {
                        height = rows;
                    },
                    Err(error) => {
                        return Err(error);
                    },
                }
                i = i + 1;
            } else if same(arg, "--line") {
                if i + 1 >= args.len() {
                    return Err(ArgError::MissingLine);
                }
                assert(all[i + 1] == args@[i + 1]@);
                match parse_line_number(args[i + 1].as_str()) {
                    Ok(number) => {
                        line = Some(number);
                    },
                    Err(error) => {
                        return Err(error);
                    },
                }
                i = i + 2;
            } else if let Some(value) = strip_prefix(arg, "--line=") {
                match parse_line_number(value.as_str()) {
                    Ok(number) => {
                        line = Some(number);
                    },
                    Err(error) => {
                        return Err(error);
                    },
                }
                i = i + 1;
            } else if let Some(value) = strip_prefix(arg, "+") {
                if !value.as_str().is_empty() && only_digits(value.as_str()) {
                    match parse_line_number(value.as_str()) {
                        Ok(number) => {
                            line = Some(number);
                        },
                        Err(error) => {
                            return Err(error);
                        },
                    }
                } else {
                    path = Some(arg.to_string());
                }
                i = i + 1;
            } else if path.is_none() {
                path = Some(arg.to_string());
                i = i + 1;
            } else {
                return Err(ArgError::Unexpected(arg.to_string()));
            }
        }
        match path {
            Some(path) => Ok(Config { path, height, line }),
            None => Err(
                ArgError::Usage(concat2(mode.title(), " [--height N] [+LINE] FILE")),
            ),
        }
    }
}

} // verus!
