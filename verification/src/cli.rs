//! The command line of the `test` subcommand, parsed from plain argument
//! strings.

use vstd::prelude::*;
use vstd::string::*;

use crate::text::{starts_with, starts_with_spec, str_eq};

verus! {

/// Why parsing the command line ended without a configuration.
#[derive(Debug, Clone, Copy, PartialEq, Eq, Structural)]
pub enum CliExit {
    /// Help was requested.
    Help,
    /// The tool version was requested.
    Version,
    /// A flag that takes a value came last, without one.
    MissingArgument,
    /// A flag the strict mode refuses.
    UnknownFlag,
}

/// The benchmark run configuration.
pub struct Cli {
    /// Run only benchmarks matching this pattern.
    pub bench: String,
    /// Run each benchmark for this duration, as `<n>s` or `<n>x`.
    pub benchtime: String,
    /// The package selectors to discover benchmarks in.
    pub packages: Vec<String>,
    /// Build the benchmarks but do not execute them.
    pub dry_run: bool,
}

#[verifier::ext_equal]
pub ghost struct CliView {
    pub bench: Seq<char>,
    pub benchtime: Seq<char>,
    pub packages: Seq<Seq<char>>,
    pub dry_run: bool,
}

impl View for Cli {
    type V = CliView;

    open spec fn view(&self) -> CliView {
        CliView {
            bench: self.bench@,
            benchtime: self.benchtime@,
            packages: self.packages.deep_view(),
            dry_run: self.dry_run,
        }
    }
}

/// The default configuration: every benchmark, three seconds each, the whole
/// project.
pub open spec fn spec_default_cli() -> CliView {
    CliView {
        bench: "."@,
        benchtime: "3s"@,
        packages: seq!["./..."@],
        dry_run: false,
    }
}

impl Default for Cli {
    fn default() -> (r: Cli)
        ensures
            r@ == spec_default_cli(),
    {
        let mut packages: Vec<String> = Vec::new();
        packages.push("./...".to_owned());
        let r = Cli {
            bench: ".".to_owned(),
            benchtime: "3s".to_owned(),
            packages,
            dry_run: false,
        };
        proof {
            assert(r@.packages =~= seq!["./..."@]);
            assert(r@ =~= spec_default_cli());
        }
        r
    }
}

/// One step of argument parsing, from position `i` with the configuration
/// accumulated so far.
pub open spec fn spec_parse_from(args: Seq<Seq<char>>, i: int, acc: CliView) -> Result<
    CliView,
    CliExit,
>
    decreases args.len() - i,
{
    if i < 0 || i >= args.len() {
        Result::Ok(acc)
    } else {
        let a = args[i];
        if a == "-h"@ || a == "--help"@ {
            Result::Err(CliExit::Help)
        } else if a == "-V"@ || a == "--version"@ {
            Result::Err(CliExit::Version)
        } else if a == "-bench"@ {
            if i + 1 < args.len() {
                spec_parse_from(args, i + 2, CliView { bench: args[i + 1], ..acc })
            } else {
                Result::Err(CliExit::MissingArgument)
            }
        } else if starts_with_spec(a, "-bench="@) {
            spec_parse_from(
                args,
                i + 1,
                CliView { bench: a.subrange("-bench="@.len() as int, a.len() as int), ..acc },
            )
        } else if a == "-benchtime"@ {
            if i + 1 < args.len() {
                spec_parse_from(args, i + 2, CliView { benchtime: args[i + 1], ..acc })
            } else {
                Result::Err(CliExit::MissingArgument)
            }
        } else if starts_with_spec(a, "-benchtime="@) {
            spec_parse_from(
                args,
                i + 1,
                CliView {
                    benchtime: a.subrange("-benchtime="@.len() as int, a.len() as int),
                    ..acc
                },
            )
        } else if a == "--dry-run"@ {
            spec_parse_from(args, i + 1, CliView { dry_run: true, ..acc })
        } else if starts_with_spec(a, "-"@) {
            spec_parse_from(args, i + 1, acc)
        } else {
            Result::Ok(CliView { packages: args.subrange(i, args.len() as int), ..acc })
        }
    }
}

/// What parsing the whole argument list yields: the arguments after the
/// `test` subcommand folded over the default configuration. An unrecognized
/// flag is ignored; the first bare argument starts the package-selector
/// list, which runs to the end.
pub open spec fn spec_parse_args(args: Seq<Seq<char>>) -> Result<CliView, CliExit> {
    spec_parse_from(args, 1, spec_default_cli())
}

impl Cli {
    /// Parses the arguments of the `test` subcommand. The caller passes the
    /// subcommand itself as the first argument.
    pub fn parse_args(args: &Vec<String>) -> (r: Result<Cli, CliExit>)
        requires
            args@.len() >= 1,
            args@[0]@ == "test"@,
        ensures
            match r {
                Ok(cli) => spec_parse_args(args.deep_view()) == Result::<CliView, CliExit>::Ok(
                    cli@,
                ),
                Err(e) => spec_parse_args(args.deep_view()) == Result::<CliView, CliExit>::Err(e),
            },
    {
        let ghost args_v = args.deep_view();
        let mut acc: Cli = Cli::default();
        let n: usize = args.len();
        let mut i: usize = 1;
        while i < n
            invariant
                1 <= i,
                n == args@.len(),
                args_v == args.deep_view(),
                args_v.len() == args@.len(),
                spec_parse_args(args_v) == spec_parse_from(args_v, i as int, acc@),
            decreases n - i,
        {
            proof {
                assert(args_v[i as int] == args@[i as int]@);
            }
            let a: &String = &args[i];
            if str_eq(a.as_str(), "-h") || str_eq(a.as_str(), "--help") {
                return Err(CliExit::Help);
            } else if str_eq(a.as_str(), "-V") || str_eq(a.as_str(), "--version") {
                return Err(CliExit::Version);
            } else if str_eq(a.as_str(), "-bench") {
                if i + 1 < n {
                    proof {
                        assert(args_v[i + 1] == args@[i + 1]@);
                    }
                    acc.bench = args[i + 1].clone();
                    i += 2;
                } else {
                    return Err(CliExit::MissingArgument);
                }
            } else if starts_with(a.as_str(), "-bench=") {
                proof {
                    reveal_strlit("-bench=");
                }
                let alen: usize = a.as_str().unicode_len();
                acc.bench = a.as_str().substring_char(7, alen).to_owned();
                i += 1;
            } else if str_eq(a.as_str(), "-benchtime") {
                if i + 1 < n {
                    proof {
                        assert(args_v[i + 1] == args@[i + 1]@);
                    }
                    acc.benchtime = args[i + 1].clone();
                    i += 2;
                } else {
                    return Err(CliExit::MissingArgument);
                }
            } else if starts_with(a.as_str(), "-benchtime=") {
                proof {
                    reveal_strlit("-benchtime=");
                }
                let alen: usize = a.as_str().unicode_len();
                acc.benchtime = a.as_str().substring_char(11, alen).to_owned();
                i += 1;
            } else if str_eq(a.as_str(), "--dry-run") {
                acc.dry_run = true;
                i += 1;
            } else if starts_with(a.as_str(), "-") {
                i += 1;
            } else {
                let mut packages: Vec<String> = Vec::new();
                let mut j: usize = i;
                while j < n
                    invariant
                        i <= j <= n,
                        n == args@.len(),
                        args_v == args.deep_view(),
                        args_v.len() == args@.len(),
                        packages.deep_view() =~= args_v.subrange(i as int, j as int),
                    decreases n - j,
                {
                    let ghost pre = packages.deep_view();
                    packages.push(args[j].clone());
                    proof {
                        assert(args_v[j as int] == args@[j as int]@);
                        assert(packages.deep_view() =~= pre.push(args_v[j as int]));
                        assert(packages.deep_view() =~= args_v.subrange(i as int, j + 1));
                    }
                    j += 1;
                }
                acc.packages = packages;
                proof {
                    assert(acc@ =~= CliView {
                        packages: args_v.subrange(i as int, args_v.len() as int),
                        ..acc@
                    });
                }
                return Ok(acc);
            }
        }
        Ok(acc)
    }
}

} // verus!
