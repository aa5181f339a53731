//! What the arguments of the sequence editor ask for.

use vstd::prelude::*;

#[allow(unused_imports)]
use crate::args::ArgFault;
#[allow(unused_imports)]
use crate::rebase::{asked, config_of, Asked};
#[allow(unused_imports)]
use crate::text::{all_digits, decimal, has_prefix, is_digit, lemma_decimal, unsigned};

verus! {

/// A height is asked for with a number behind `--height` or `-h`, or in one word with it.
/// What is no number is refused, and so is a missing one.
pub proof fn law_height_is_asked(args: Seq<Seq<char>>, i: int, so_far: Asked, n: nat)
    requires
        0 <= i < args.len(),
    ensures
        args[i] == "--height"@ || args[i] == "-h"@ ==> {
            &&& i + 1 == args.len() ==> asked(args, i, so_far) == Err::<Asked, ArgFault>(
                ArgFault::MissingRows(args[i]),
            )
            &&& i + 1 < args.len() && args[i + 1] == decimal(n) && n <= 65535 ==> asked(
                args,
                i,
                so_far,
            ) == asked(args, i + 2, Asked { height: n as u16, ..so_far })
            &&& i + 1 < args.len() && args[i + 1] == decimal(n) && n > 65535 ==> asked(
                args,
                i,
                so_far,
            ) == Err::<Asked, ArgFault>(ArgFault::InvalidHeight(args[i + 1]))
            &&& i + 1 < args.len() && args[i + 1].len() == 0 ==> asked(args, i, so_far) == Err::<
                Asked,
                ArgFault,
            >(ArgFault::InvalidHeight(args[i + 1]))
        },
        args[i] == "--height="@ + decimal(n) && n <= 65535 ==> asked(args, i, so_far) == asked(
            args,
            i + 1,
            Asked { height: n as u16, ..so_far },
        ),
{
    lemma_numbers(n);
    reveal_strlit("--height");
    reveal_strlit("-h");
    reveal_strlit("--height=");
    if args[i] == "--height="@ + decimal(n) {
        assert(args[i].take(9) =~= "--height="@);
        assert(args[i].skip(9) =~= decimal(n));
    }
}

proof fn lemma_numbers(n: nat)
    ensures
        decimal(n).len() > 0,
        decimal(n)[0] != '+',
        all_digits(decimal(n)),
        forall|max: nat| #[trigger]
            unsigned(decimal(n), max) == (if n <= max {
                Some(n)
            } else {
                None
            }),
{
    lemma_decimal(n);
    assert(is_digit(decimal(n)[0]));
}

/// The file is the argument that is no option; a second one is refused, and without one
/// the usage is told. Where nothing else is asked for, the height is eighteen rows.
pub proof fn law_file_is_asked(path: Seq<char>, other: Seq<char>)
    requires
        path.len() > 0 && path[0] != '-',
        other.len() > 0 && other[0] != '-',
    ensures
        config_of(seq![path]) == Ok::<Asked, ArgFault>(
            Asked { path: Some(path), height: 18 },
        ),
        config_of(seq![path, other]) == Err::<Asked, ArgFault>(ArgFault::Unexpected(other)),
        config_of(Seq::empty()) == Err::<Asked, ArgFault>(
            ArgFault::Usage("inbase [--height N] TODO_FILE"@),
        ),
{
    lemma_no_option(path);
    lemma_no_option(other);
    reveal_with_fuel(asked, 3);
}

proof fn lemma_no_option(arg: Seq<char>)
    requires
        arg.len() > 0 && arg[0] != '-',
    ensures
        arg != "--height"@ && arg != "-h"@,
        !has_prefix(arg, "--height="@),
{
    reveal_strlit("--height");
    reveal_strlit("-h");
    reveal_strlit("--height=");
    assert(arg.len() >= 9 ==> arg.take(9)[0] == arg[0]);
}

} // verus!
