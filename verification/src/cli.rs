//! The command-line surface: the options record and a parser over a plain
//! argument list, the first element being the program name.

use vstd::prelude::*;
use vstd::string::StringExecFns;

use crate::paths::parts_view;

verus! {

/// Parsed command-line options. By default the run is a dry run showing a
/// summary of the artifacts found.
#[derive(Debug, Clone)]
pub struct Cli {
    /// Root directory to scan.
    pub path: String,
    /// Actually delete artifacts (default is dry-run).
    pub delete: bool,
    /// Skip the confirmation prompt.
    pub yes: bool,
    /// Show individual artifact paths.
    pub verbose: bool,
    /// Keep only artifacts matching one of these glob patterns.
    pub includes: Vec<String>,
    /// Drop artifacts matching one of these glob patterns.
    pub excludes: Vec<String>,
}

/// Spec-level mirror of `Cli`.
pub struct CliV {
    pub path: Seq<char>,
    pub delete: bool,
    pub yes: bool,
    pub verbose: bool,
    pub includes: Seq<Seq<char>>,
    pub excludes: Seq<Seq<char>>,
}

impl View for Cli {
    type V = CliV;

    open spec fn view(&self) -> CliV {
        CliV {
            path: self.path@,
            delete: self.delete,
            yes: self.yes,
            verbose: self.verbose,
            includes: parts_view(self.includes),
            excludes: parts_view(self.excludes),
        }
    }
}

/// The options before any argument is read: scan the current directory, dry
/// run, quiet, no patterns.
pub open spec fn spec_cli_default() -> CliV {
    CliV {
        path: "."@,
        delete: false,
        yes: false,
        verbose: false,
        includes: Seq::empty(),
        excludes: Seq::empty(),
    }
}

/// What the parser makes of `args[i..]` starting from `acc`: each flag sets
/// its field, the two pattern flags take the following argument (and are
/// ignored when none follows), and any other argument names the root path,
/// the last one winning.
pub open spec fn spec_parse_from(args: Seq<Seq<char>>, i: int, acc: CliV) -> CliV
    decreases args.len() - i,
{
    if i < 0 || i >= args.len() {
        acc
    } else {
        let a = args[i];
        if a == "--delete"@ {
            spec_parse_from(
                args,
                i + 1,
                CliV {
                    path: acc.path,
                    delete: true,
                    yes: acc.yes,
                    verbose: acc.verbose,
                    includes: acc.includes,
                    excludes: acc.excludes,
                },
            )
        } else if a == "-y"@ || a == "--yes"@ {
            spec_parse_from(
                args,
                i + 1,
                CliV {
                    path: acc.path,
                    delete: acc.delete,
                    yes: true,
                    verbose: acc.verbose,
                    includes: acc.includes,
                    excludes: acc.excludes,
                },
            )
        } else if a == "-v"@ || a == "--verbose"@ {
            spec_parse_from(
                args,
                i + 1,
                CliV {
                    path: acc.path,
                    delete: acc.delete,
                    yes: acc.yes,
                    verbose: true,
                    includes: acc.includes,
                    excludes: acc.excludes,
                },
            )
        } else if a == "--include"@ {
            if i + 1 < args.len() {
                spec_parse_from(
                    args,
                    i + 2,
                    CliV {
                        path: acc.path,
                        delete: acc.delete,
                        yes: acc.yes,
                        verbose: acc.verbose,
                        includes: acc.includes.push(args[i + 1]),
                        excludes: acc.excludes,
                    },
                )
            } else {
                spec_parse_from(args, i + 1, acc)
            }
        } else if a == "--exclude"@ {
            if i + 1 < args.len() {
                spec_parse_from(
                    args,
                    i + 2,
                    CliV {
                        path: acc.path,
                        delete: acc.delete,
                        yes: acc.yes,
                        verbose: acc.verbose,
                        includes: acc.includes,
                        excludes: acc.excludes.push(args[i + 1]),
                    },
                )
            } else {
                spec_parse_from(args, i + 1, acc)
            }
        } else {
            spec_parse_from(
                args,
                i + 1,
                CliV {
                    path: a,
                    delete: acc.delete,
                    yes: acc.yes,
                    verbose: acc.verbose,
                    includes: acc.includes,
                    excludes: acc.excludes,
                },
            )
        }
    }
}

impl Cli {
    /// Parses an argument list into options, skipping the program name.
    pub fn parse_from(args: Vec<String>) -> (r: Cli)
        ensures
            r@ == spec_parse_from(parts_view(args), 1, spec_cli_default()),
    {
        let mut cli = Cli {
            path: String::from_str("."),
            delete: false,
            yes: false,
            verbose: false,
            includes: Vec::new(),
            excludes: Vec::new(),
        };
        proof {
            assert(parts_view(cli.includes) =~= Seq::<Seq<char>>::empty());
            assert(parts_view(cli.excludes) =~= Seq::<Seq<char>>::empty());
            assert(cli@ == spec_cli_default());
        }
        let flag_delete = String::from_str("--delete");
        let flag_yes_short = String::from_str("-y");
        let flag_yes_long = String::from_str("--yes");
        let flag_verbose_short = String::from_str("-v");
        let flag_verbose_long = String::from_str("--verbose");
        let flag_inc = String::from_str("--include");
        let flag_exc = String::from_str("--exclude");
        let mut i: usize = 1;
        while i < args.len()
            invariant
                1 <= i,
                flag_delete@ == "--delete"@,
                flag_yes_short@ == "-y"@,
                flag_yes_long@ == "--yes"@,
                flag_verbose_short@ == "-v"@,
                flag_verbose_long@ == "--verbose"@,
                flag_inc@ == "--include"@,
                flag_exc@ == "--exclude"@,
                spec_parse_from(parts_view(args), 1, spec_cli_default()) == spec_parse_from(
                    parts_view(args),
                    i as int,
                    cli@,
                ),
            decreases args@.len() - i,
        {
            let ghost old_cli = cli@;
            let ghost old_i = i as int;
            let a = &args[i];
            proof {
                assert(parts_view(args)[i as int] == a@);
            }
            if *a == flag_delete {
                cli.delete = true;
                i = i + 1;
            } else if *a == flag_yes_short || *a == flag_yes_long {
                cli.yes = true;
                i = i + 1;
            } else if *a == flag_verbose_short || *a == flag_verbose_long {
                cli.verbose = true;
                i = i + 1;
            } else if *a == flag_inc {
                if i + 1 < args.len() {
                    let ghost old_inc = parts_view(cli.includes);
                    cli.includes.push(args[i + 1].clone());
                    proof {
                        assert(parts_view(cli.includes) =~= old_inc.push(
                            parts_view(args)[i as int + 1],
                        ));
                    }
                    i = i + 2;
                } else {
                    i = i + 1;
                }
            } else if *a == flag_exc {
                if i + 1 < args.len() {
                    let ghost old_exc = parts_view(cli.excludes);
                    cli.excludes.push(args[i + 1].clone());
                    proof {
                        assert(parts_view(cli.excludes) =~= old_exc.push(
                            parts_view(args)[i as int + 1],
                        ));
                    }
                    i = i + 2;
                } else {
                    i = i + 1;
                }
            } else {
                cli.path = a.clone();
                i = i + 1;
            }
            proof {
                assert(spec_parse_from(parts_view(args), old_i, old_cli) == spec_parse_from(
                    parts_view(args),
                    i as int,
                    cli@,
                ));
            }
        }
        cli
    }
}

} // verus!
