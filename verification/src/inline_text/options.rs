//! What the arguments of the editor and the pager ask for.

use vstd::prelude::*;

#[allow(unused_imports)]
use crate::args::ArgFault;
#[allow(unused_imports)]
use crate::inline_text::{asked, config_of, Asked, Mode};
#[allow(unused_imports)]
use crate::text::{all_digits, decimal, has_prefix, is_digit, lemma_decimal, unsigned};

verus! {

/// A height is asked for with a number behind `--height` or `-h`, or in one word with it.
/// What is no number is refused, and so is a missing one.
pub proof fn law_height_is_asked(args: Seq<Seq<char>>, i: int, so_far: Asked, n: nat)
    requires
        0 <= i < args.len(),
    ensures
        args[i] == "--height"@ || args[i] == "-h"@ ==> {
            &&& i + 1 == args.len() ==> asked(args, i, so_far) == Err::<Asked, ArgFault>(
                ArgFault::MissingRows(args[i]),
            )
            &&& i + 1 < args.len() && args[i + 1] == decimal(n) && n <= 65535 ==> asked(
                args,
                i,
                so_far,
            ) == asked(args, i + 2, Asked { height: n as u16, ..so_far })
            &&& i + 1 < args.len() && args[i + 1] == decimal(n) && n > 65535 ==> asked(
                args,
                i,
                so_far,
            ) == Err::<Asked, ArgFault>(ArgFault::InvalidHeight(args[i + 1]))
            &&& i + 1 < args.len() && args[i + 1].len() == 0 ==> asked(args, i, so_far) == Err::<
                Asked,
                ArgFault,
            >(ArgFault::InvalidHeight(args[i + 1]))
        },
        args[i] == "--height="@ + decimal(n) && n <= 65535 ==> asked(args, i, so_far) == asked(
            args,
            i + 1,
            Asked { height: n as u16, ..so_far },
        ),
{
    lemma_numbers(n);
    reveal_strlit("--height");
    reveal_strlit("-h");
    reveal_strlit("--height=");
    if args[i] == "--height="@ + decimal(n) {
        assert(args[i].take(9) =~= "--height="@);
        assert(args[i].skip(9) =~= decimal(n));
    }
}

proof fn lemma_numbers(n: nat)
    ensures
        decimal(n).len() > 0,
        decimal(n)[0] != '+',
        all_digits(decimal(n)),
        forall|max: nat| #[trigger]
            unsigned(decimal(n), max) == (if n <= max {
                Some(n)
            } else {
                None
            }),
{
    lemma_decimal(n);
    assert(is_digit(decimal(n)[0]));
}

/// A line is asked for with a number behind `--line`, in one word with it, or behind a
/// plus sign. Lines are counted from one, and none is the first.
pub proof fn law_line_is_asked(args: Seq<Seq<char>>, i: int, so_far: Asked, n: nat)
    requires
        0 <= i < args.len(),
        n <= usize::MAX,
    ensures
        ({
            let line = Some(
                if n == 0 {
                    1
                } else {
                    n as usize
                },
            );
            &&& args[i] == "--line"@ && i + 1 == args.len() ==> asked(args, i, so_far) == Err::<
                Asked,
                ArgFault,
            >(ArgFault::MissingLine)
            &&& args[i] == "--line"@ && i + 1 < args.len() && args[i + 1] == decimal(n) ==> asked(
                args,
                i,
                so_far,
            ) == asked(args, i + 2, Asked { line, ..so_far })
            &&& args[i] == "--line="@ + decimal(n) ==> asked(args, i, so_far) == asked(
                args,
                i + 1,
                Asked { line, ..so_far },
            )
            &&& args[i] == "+"@ + decimal(n) ==> asked(args, i, so_far) == asked(
                args,
                i + 1,
                Asked { line, ..so_far },
            )
        }),
{
    lemma_numbers(n);
    reveal_strlit("--height");
    reveal_strlit("-h");
    reveal_strlit("--height=");
    reveal_strlit("--line");
    reveal_strlit("--line=");
    reveal_strlit("+");
    assert("--height"@[2] == 'h');
    if args[i] == "--line"@ {
        assert(args[i][2] == 'l');
    }
    if args[i] == "--line="@ + decimal(n) {
        assert(args[i].take(7) =~= "--line="@);
        assert(args[i].skip(7) =~= decimal(n));
        assert(args[i][2] == 'l' && args[i][6] == '=');
        assert(args[i].len() >= 9 ==> args[i].take(9)[2] == 'l');
        assert("--height="@[2] == 'h');
    }
    if args[i] == "+"@ + decimal(n) {
        assert(args[i].take(1) =~= "+"@);
        assert(args[i].skip(1) =~= decimal(n));
        assert(args[i][0] == '+');
        assert(args[i].len() >= 9 ==> args[i].take(9)[0] == '+');
        assert(args[i].len() >= 7 ==> args[i].take(7)[0] == '+');
    }
}

/// The file is the argument that is no option; a second one is refused, and without one
/// the usage is told. Where nothing else is asked for, the height is sixteen rows.
pub proof fn law_file_is_asked(path: Seq<char>, other: Seq<char>, mode: Mode)
    requires
        path.len() > 0 && path[0] != '-' && path[0] != '+',
        other.len() > 0 && other[0] != '-' && other[0] != '+',
    ensures
        config_of(seq![path], mode) == Ok::<Asked, ArgFault>(
            Asked { path: Some(path), height: 16, line: None },
        ),
        config_of(seq![path, other], mode) == Err::<Asked, ArgFault>(ArgFault::Unexpected(other)),
        config_of(Seq::empty(), Mode::Edit) == Err::<Asked, ArgFault>(
            ArgFault::Usage("inmacs"@ + " [--height N] [+LINE] FILE"@),
        ),
        config_of(Seq::empty(), Mode::View) == Err::<Asked, ArgFault>(
            ArgFault::Usage("inpage"@ + " [--height N] [+LINE] FILE"@),
        ),
{
    reveal_strlit("--height");
    reveal_strlit("-h");
    reveal_strlit("--height=");
    reveal_strlit("--line");
    reveal_strlit("--line=");
    reveal_strlit("+");
    lemma_no_option(path);
    lemma_no_option(other);
    reveal_with_fuel(asked, 3);
}

proof fn lemma_no_option(arg: Seq<char>)
    requires
        arg.len() > 0 && arg[0] != '-' && arg[0] != '+',
    ensures
        arg != "--height"@ && arg != "-h"@ && arg != "--line"@,
        !has_prefix(arg, "--height="@) && !has_prefix(arg, "--line="@) && !has_prefix(arg, "+"@),
{
    reveal_strlit("--height");
    reveal_strlit("-h");
    reveal_strlit("--height=");
    reveal_strlit("--line");
    reveal_strlit("--line=");
    reveal_strlit("+");
    assert(arg.take(1)[0] == arg[0]);
    assert(arg.len() >= 7 ==> arg.take(7)[0] == arg[0]);
    assert(arg.len() >= 9 ==> arg.take(9)[0] == arg[0]);
}

/// What is wrong with the arguments is told with the argument that is.
pub proof fn law_faults_are_told(text: Seq<char>)
    ensures
        ArgFault::MissingRows(text).text() == text + " requires a row count"@,
        ArgFault::InvalidHeight(text).text() == "invalid height: "@ + text,
        ArgFault::MissingLine.text() == "--line requires a line number"@,
        ArgFault::InvalidLine(text).text() == "invalid line number: "@ + text,
        ArgFault::Unexpected(text).text() == "unexpected argument: "@ + text,
        ArgFault::Usage(text).text() == "usage: "@ + text,
        ArgFault::Graph.text() == "inlog does not support --graph"@,
{
}

} // verus!
