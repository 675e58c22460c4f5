//! The command line: which options were given, and what they ask for.

use crate::http::header::string_views;
use crate::text::{chars_of, is_text};
use vstd::prelude::*;
use vstd::string::StringExecFns;

verus! {

/// The options of a run.
pub struct Arguments {
    pub logfile: Option<String>,
    pub configfile: Option<String>,
}

/// What a command line asks for.
pub enum Invocation {
    /// Run the servers with these options.
    Run(Arguments),
    /// Print the help and leave with status 0.
    Help,
    /// Print the version and leave with status 0.
    Version,
    /// `-l` came last, with no file behind it: leave with status 1.
    MissingLogfile,
    /// `-c` came last, with no file behind it: leave with status 1.
    MissingConfig,
}

/// What a command line asks for, as a mathematical value.
pub enum InvocationSpec {
    Run { logfile: Option<Seq<char>>, configfile: Option<Seq<char>> },
    Help,
    Version,
    MissingLogfile,
    MissingConfig,
}

impl View for Invocation {
    type V = InvocationSpec;

    open spec fn view(&self) -> InvocationSpec {
        match self {
            Invocation::Run(a) => InvocationSpec::Run {
                logfile: match a.logfile {
                    Some(l) => Some(l@),
                    None => None,
                },
                configfile: match a.configfile {
                    Some(c) => Some(c@),
                    None => None,
                },
            },
            Invocation::Help => InvocationSpec::Help,
            Invocation::Version => InvocationSpec::Version,
            Invocation::MissingLogfile => InvocationSpec::MissingLogfile,
            Invocation::MissingConfig => InvocationSpec::MissingConfig,
        }
    }
}

/// What the words `args` ask for, read from the left, with `logfile` and
/// `configfile` given so far.
///
/// `-h` and `-v`, and their long forms, end the reading. `-l` and `-c`, and
/// their long forms, take the next word as their file, and a later one
/// replaces an earlier one. Every other word is passed over.
pub open spec fn invocation(
    args: Seq<Seq<char>>,
    logfile: Option<Seq<char>>,
    configfile: Option<Seq<char>>,
) -> InvocationSpec
    decreases args.len(),
{
    if args.len() == 0 {
        InvocationSpec::Run { logfile, configfile }
    } else {
        let word = args[0];
        if word == "-h"@ || word == "--help"@ {
            InvocationSpec::Help
        } else if word == "-l"@ || word == "--logfile"@ {
            if args.len() >= 2 {
                invocation(args.skip(2), Some(args[1]), configfile)
            } else {
                InvocationSpec::MissingLogfile
            }
        } else if word == "-c"@ || word == "--config"@ {
            if args.len() >= 2 {
                invocation(args.skip(2), logfile, Some(args[1]))
            } else {
                InvocationSpec::MissingConfig
            }
        } else if word == "-v"@ || word == "--version"@ {
            InvocationSpec::Version
        } else {
            invocation(args.skip(1), logfile, configfile)
        }
    }
}

/// The status with which the process leaves at once, if it does.
pub open spec fn exit_status(i: InvocationSpec) -> Option<u8> {
    match i {
        InvocationSpec::Run { .. } => None,
        InvocationSpec::Help => Some(0u8),
        InvocationSpec::Version => Some(0u8),
        InvocationSpec::MissingLogfile => Some(1u8),
        InvocationSpec::MissingConfig => Some(1u8),
    }
}

impl Arguments {
    /// Reads the words of a command line, the name of the program among
    /// them.
    pub fn load(args: &Vec<String>) -> (r: Invocation)
        ensures
            r@ == invocation(string_views(args@), None, None),
    {
        let ghost all = string_views(args@);
        let mut logfile: Option<String> = None;
        let mut configfile: Option<String> = None;
        let mut i: usize = 0;
        assert(all.skip(0) == all);
        while i < args.len()
            invariant
                i <= args.len(),
                all == string_views(args@),
                invocation(all, None, None) == invocation(
                    all.skip(i as int),
                    match logfile {
                        Some(l) => Some(l@),
                        None => None,
                    },
                    match configfile {
                        Some(c) => Some(c@),
                        None => None,
                    },
                ),
            decreases args.len() - i,
        {
            let ghost rest = all.skip(i as int);
            assert(rest[0] == args@[i as int]@);
            let word = chars_of(args[i].as_str());
            if is_text(&word, "-h") || is_text(&word, "--help") {
                return Invocation::Help;
            } else if is_text(&word, "-l") || is_text(&word, "--logfile") {
                if args.len() - i >= 2 {
                    assert(rest[1] == args@[i + 1]@);
                    assert(rest.skip(2) == all.skip(i + 2));
                    logfile = Some(args[i + 1].clone());
                    i += 2;
                } else {
                    return Invocation::MissingLogfile;
                }
            } else if is_text(&word, "-c") || is_text(&word, "--config") {
                if args.len() - i >= 2 {
                    assert(rest[1] == args@[i + 1]@);
                    assert(rest.skip(2) == all.skip(i + 2));
                    configfile = Some(args[i + 1].clone());
                    i += 2;
                } else {
                    return Invocation::MissingConfig;
                }
            } else if is_text(&word, "-v") || is_text(&word, "--version") {
                return Invocation::Version;
            } else {
                assert(rest.skip(1) == all.skip(i + 1));
                i += 1;
            }
        }
        Invocation::Run(Arguments { logfile, configfile })
    }

    /// The file of the settings: `/etc/rsweb/rsweb.config.toml` where none
    /// was given.
    pub fn config_path(&self) -> (path: String)
        ensures
            path@ == match self.configfile {
                Some(c) => c@,
                None => "/etc/rsweb/rsweb.config.toml"@,
            },
    {
        match &self.configfile {
            Some(c) => c.clone(),
            None => String::from_str("/etc/rsweb/rsweb.config.toml"),
        }
    }
}

impl Invocation {
    /// The status with which the process leaves at once, if it does.
    pub fn exit_code(&self) -> (code: Option<u8>)
        ensures
            code == exit_status(self@),
    {
        match self {
            Invocation::Run(_) => None,
            Invocation::Help => Some(0),
            Invocation::Version => Some(0),
            Invocation::MissingLogfile => Some(1),
            Invocation::MissingConfig => Some(1),
        }
    }
}

} // verus!
