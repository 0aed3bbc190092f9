//! The evaluation command line.
use vstd::prelude::*;
use crate::text::{copy_string, opt_view, views};

verus! {

/// The options of the evaluation command.
#[derive(Debug)]
pub struct CliArgs {
    /// `--fixture ID`: run only fixtures whose id contains ID.
    pub fixture_filter: Option<String>,
    /// `--no-llm-judge`: skip the LLM judge.
    pub no_llm_judge: bool,
    /// `--config PATH`: the LLM configuration file.
    pub config_path: Option<String>,
    /// `--output PATH`: where to write the report.
    pub output_path: Option<String>,
}

/// The options as plain values: filter, no-judge flag, config path, output
/// path.
pub type CliView = (Option<Seq<char>>, bool, Option<Seq<char>>, Option<Seq<char>>);

/// The view of parsed options.
pub open spec fn cli_view(c: CliArgs) -> CliView {
    (opt_view(c.fixture_filter), c.no_llm_judge, opt_view(c.config_path), opt_view(c.output_path))
}

/// The argument at `i`, if there is one.
pub open spec fn arg_at(args: Seq<Seq<char>>, i: int) -> Option<Seq<char>> {
    if 0 <= i < args.len() {
        Some(args[i])
    } else {
        None
    }
}

/// The options read from `args` starting at position `i`, on top of `acc`.
/// A flag that takes a value takes the next argument (none when there is
/// none, overriding an earlier value) and skips it; unknown arguments are
/// ignored; a later flag overrides an earlier one.
pub open spec fn parse_from(args: Seq<Seq<char>>, i: int, acc: CliView) -> CliView
    decreases args.len() + 1 - i,
{
    if i < 0 || i >= args.len() {
        acc
    } else if args[i] == "--fixture"@ {
        parse_from(args, i + 2, (arg_at(args, i + 1), acc.1, acc.2, acc.3))
    } else if args[i] == "--no-llm-judge"@ {
        parse_from(args, i + 1, (acc.0, true, acc.2, acc.3))
    } else if args[i] == "--config"@ {
        parse_from(args, i + 2, (acc.0, acc.1, arg_at(args, i + 1), acc.3))
    } else if args[i] == "--output"@ {
        parse_from(args, i + 2, (acc.0, acc.1, acc.2, arg_at(args, i + 1)))
    } else {
        parse_from(args, i + 1, acc)
    }
}

/// The options given on a command line whose first argument is the program
/// name.
pub open spec fn parsed(args: Seq<Seq<char>>) -> CliView {
    parse_from(args, 1, (None, false, None, None))
}

/// A copy of the argument at `i`, if there is one.
fn get_arg(args: &Vec<String>, i: usize) -> (r: Option<String>)
    ensures
        opt_view(r) == arg_at(views(args@), i as int),
{
    if i < args.len() {
        Some(copy_string(&args[i]))
    } else {
        None
    }
}

/// Parses the command line `args` (the program name first).
pub fn parse_args(args: &Vec<String>) -> (r: CliArgs)
    requires
        args@.len() < usize::MAX,
    ensures
        cli_view(r) == parsed(views(args@)),
{
    let ghost a = views(args@);
    let fixture_flag = "--fixture".to_owned();
    let judge_flag = "--no-llm-judge".to_owned();
    let config_flag = "--config".to_owned();
    let output_flag = "--output".to_owned();
    let mut cli = CliArgs {
        fixture_filter: None,
        no_llm_judge: false,
        config_path: None,
        output_path: None,
    };
    let mut i: usize = 1;
    while i < args.len()
        invariant
            a == views(args@),
            args@.len() < usize::MAX,
            1 <= i <= args@.len() + 1,
            fixture_flag@ == "--fixture"@,
            judge_flag@ == "--no-llm-judge"@,
            config_flag@ == "--config"@,
            output_flag@ == "--output"@,
            parse_from(a, i as int, cli_view(cli)) == parsed(a),
        decreases args.len() + 1 - i,
    {
        assert(a[i as int] == args@[i as int]@);
        if args[i] == fixture_flag {
            i = i + 1;
            cli.fixture_filter = get_arg(args, i);
        } else if args[i] == judge_flag {
            cli.no_llm_judge = true;
        } else if args[i] == config_flag {
            i = i + 1;
            cli.config_path = get_arg(args, i);
        } else if args[i] == output_flag {
            i = i + 1;
            cli.output_path = get_arg(args, i);
        }
        i = i + 1;
    }
    cli
}

} // verus!
