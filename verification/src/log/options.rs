//! What the arguments of the log browser ask for.

use vstd::prelude::*;

#[allow(unused_imports)]
use crate::args::ArgFault;
#[allow(unused_imports)]
use crate::log::{asked, config_of, Asked};
#[allow(unused_imports)]
use crate::text::{all_digits, decimal, is_digit, lemma_decimal, unsigned};

verus! {

/// A height is asked for with a number behind `--height` or `-h`, or in one word with it.
/// What is no number is refused, and so is a missing one.
pub proof fn law_height_is_asked(args: Seq<Seq<char>>, i: int, so_far: Asked, n: nat)
    requires
        0 <= i < args.len(),
    ensures
        args[i] == "--height"@ || args[i] == "-h"@ ==> {
            &&& i + 1 == args.len() ==> asked(args, i, so_far) == Err::<Asked, ArgFault>(
                ArgFault::MissingRows(args[i]),
            )
            &&& i + 1 < args.len() && args[i + 1] == decimal(n) && n <= 65535 ==> asked(
                args,
                i,
                so_far,
            ) == asked(args, i + 2, Asked { height: n as u16, ..so_far })
            &&& i + 1 < args.len() && args[i + 1] == decimal(n) && n > 65535 ==> asked(
                args,
                i,
                so_far,
            ) == Err::<Asked, ArgFault>(ArgFault::InvalidHeight(args[i + 1]))
            &&& i + 1 < args.len() && args[i + 1].len() == 0 ==> asked(args, i, so_far) == Err::<
                Asked,
                ArgFault,
            >(ArgFault::InvalidHeight(args[i + 1]))
        },
        args[i] == "--height="@ + decimal(n) && n <= 65535 ==> asked(args, i, so_far) == asked(
            args,
            i + 1,
            Asked { height: n as u16, ..so_far },
        ),
{
    lemma_numbers(n);
    reveal_strlit("--height");
    reveal_strlit("-h");
    reveal_strlit("--height=");
    if args[i] == "--height="@ + decimal(n) {
        assert(args[i].take(9) =~= "--height="@);
        assert(args[i].skip(9) =~= decimal(n));
    }
}

proof fn lemma_numbers(n: nat)
    ensures
        decimal(n).len() > 0,
        decimal(n)[0] != '+',
        all_digits(decimal(n)),
        forall|max: nat| #[trigger]
            unsigned(decimal(n), max) == (if n <= max {
                Some(n)
            } else {
                None
            }),
{
    lemma_decimal(n);
    assert(is_digit(decimal(n)[0]));
}

/// All that is no option of the browser goes to `git log`, and behind two dashes everything
/// does. Where nothing else is asked for, the height is twenty rows.
pub proof fn law_rest_goes_to_git(args: Seq<Seq<char>>, i: int, so_far: Asked)
    requires
        0 <= i < args.len(),
    ensures
        args[i] == "--"@ ==> asked(args, i, so_far) == Ok::<Asked, ArgFault>(
            Asked {
                height: so_far.height,
                git_args: so_far.git_args + args.subrange(i + 1, args.len() as int),
            },
        ),
        args[i].len() > 0 && args[i][0] != '-' ==> asked(args, i, so_far) == asked(
            args,
            i + 1,
            Asked { height: so_far.height, git_args: so_far.git_args.push(args[i]) },
        ),
        asked(args, args.len() as int, so_far) == Ok::<Asked, ArgFault>(so_far),
        config_of(Seq::empty()) == Ok::<Asked, ArgFault>(
            Asked { height: 20, git_args: seq!["-n"@, "500"@] },
        ),
{
    reveal_strlit("--height");
    reveal_strlit("-h");
    reveal_strlit("--height=");
    reveal_strlit("--");
    let arg = args[i];
    assert("--"@[1] == '-' && "-h"@[1] == 'h');
    assert(arg.len() >= 9 ==> arg.take(9)[0] == arg[0]);
    assert(args.skip(i + 1) =~= args.subrange(i + 1, args.len() as int));
    assert(seq!["-n"@, "500"@] + Seq::<Seq<char>>::empty() =~= seq!["-n"@, "500"@]);
}

} // verus!
