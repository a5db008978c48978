//! The command line of the annotator: a global region flag, the
//! `annotate` subcommand, and its options, parsed from a plain argument
//! list.  Exactly one of `--dashboard` and `--dashboard-prefix` must be
//! given; `--value` is required; `--label` falls back to `version`.

use crate::text::{lemma_strs_view_props, str_eq, strs_view};
use vstd::prelude::*;
use vstd::string::StringExecFns;

verus! {

broadcast use vstd::seq::group_seq_axioms, vstd::std_specs::vec::group_vec_axioms;

/// The view of an optional string.
pub open spec fn opt_view(o: Option<String>) -> Option<Seq<char>> {
    match o {
        Some(s) => Some(s@),
        None => None,
    }
}

/// Options of the `annotate` subcommand.
#[derive(Debug, Clone)]
pub struct AnnotateOpts {
    /// Single dashboard name to update.
    pub dashboard: Option<String>,
    /// Prefix of dashboard names to update.
    pub dashboard_prefix: Option<String>,
    /// Annotation label, such as `version` or `incident`.
    pub label: String,
    /// Annotation value, such as a version or an incident number.
    pub value: String,
    /// Annotation time; the current time is used when omitted.
    pub time: Option<String>,
    /// Show what would change without updating any dashboard.
    pub dry_run: bool,
    /// Only annotate widgets whose title contains this substring.
    pub widget_title_contains: Option<String>,
}

/// The view of the `annotate` options.
pub struct AnnotateOptsV {
    pub dashboard: Option<Seq<char>>,
    pub dashboard_prefix: Option<Seq<char>>,
    pub label: Seq<char>,
    pub value: Seq<char>,
    pub time: Option<Seq<char>>,
    pub dry_run: bool,
    pub widget_title_contains: Option<Seq<char>>,
}

impl View for AnnotateOpts {
    type V = AnnotateOptsV;

    open spec fn view(&self) -> AnnotateOptsV {
        AnnotateOptsV {
            dashboard: opt_view(self.dashboard),
            dashboard_prefix: opt_view(self.dashboard_prefix),
            label: self.label@,
            value: self.value@,
            time: opt_view(self.time),
            dry_run: self.dry_run,
            widget_title_contains: opt_view(self.widget_title_contains),
        }
    }
}

/// The subcommands of the tool.
#[derive(Debug, Clone)]
pub enum Commands {
    /// Add a vertical annotation to dashboard widgets.
    Annotate(AnnotateOpts),
}

/// The view of a subcommand.
pub enum CommandsV {
    Annotate(AnnotateOptsV),
}

impl View for Commands {
    type V = CommandsV;

    open spec fn view(&self) -> CommandsV {
        match self {
            Commands::Annotate(opts) => CommandsV::Annotate(opts@),
        }
    }
}

/// The parsed command line.
#[derive(Debug, Clone)]
pub struct Cli {
    /// Region override; the backend's own resolution applies when
    /// omitted.
    pub region: Option<String>,
    /// The subcommand.
    pub command: Commands,
}

/// The view of the parsed command line.
pub struct CliV {
    pub region: Option<Seq<char>>,
    pub command: CommandsV,
}

impl View for Cli {
    type V = CliV;

    open spec fn view(&self) -> CliV {
        CliV { region: opt_view(self.region), command: self.command@ }
    }
}

/// Why an argument list was rejected.
#[derive(Debug, PartialEq, Eq)]
pub enum CliError {
    /// No subcommand was given.
    MissingCommand,
    /// The first non-flag argument is not a known subcommand.
    UnknownCommand,
    /// A flag that the subcommand does not know.
    UnknownArgument,
    /// A flag that takes a value stood last, without one.
    MissingArgValue,
    /// The required `--value` flag was not given.
    MissingValue,
    /// Both `--dashboard` and `--dashboard-prefix` were given.
    TargetConflict,
    /// Neither `--dashboard` nor `--dashboard-prefix` was given.
    TargetMissing,
}

impl CliError {
    /// A human-readable description of the error.
    pub fn message(&self) -> String {
        match self {
            CliError::MissingCommand => "a subcommand is required".to_owned(),
            CliError::UnknownCommand => "unknown subcommand".to_owned(),
            CliError::UnknownArgument => "unknown argument".to_owned(),
            CliError::MissingArgValue => "a flag is missing its value".to_owned(),
            CliError::MissingValue => "--value is required".to_owned(),
            CliError::TargetConflict => {
                "--dashboard and --dashboard-prefix cannot both be set".to_owned()
            },
            CliError::TargetMissing => "either --dashboard or --dashboard-prefix is required"
                .to_owned(),
        }
    }
}

/// The options of `annotate` while flags are still being read: required
/// and defaulted fields are still optional here.
pub struct OptsAccV {
    pub dashboard: Option<Seq<char>>,
    pub dashboard_prefix: Option<Seq<char>>,
    pub label: Option<Seq<char>>,
    pub value: Option<Seq<char>>,
    pub time: Option<Seq<char>>,
    pub dry_run: bool,
    pub widget_title_contains: Option<Seq<char>>,
}

/// The state before any flag of `annotate` has been read.
pub open spec fn init_acc() -> OptsAccV {
    OptsAccV {
        dashboard: None,
        dashboard_prefix: None,
        label: None,
        value: None,
        time: None,
        dry_run: false,
        widget_title_contains: None,
    }
}

/// Reads the flags of `annotate` from position `i` on.  A later
/// occurrence of a flag replaces an earlier one.
pub open spec fn parse_flags_v(args: Seq<Seq<char>>, i: int, acc: OptsAccV) -> Result<
    OptsAccV,
    CliError,
>
    decreases args.len() - i,
{
    if i >= args.len() {
        Ok(acc)
    } else if args[i] == "--dashboard"@ {
        if i + 1 < args.len() {
            parse_flags_v(args, i + 2, OptsAccV { dashboard: Some(args[i + 1]), ..acc })
        } else {
            Err(CliError::MissingArgValue)
        }
    } else if args[i] == "--dashboard-prefix"@ {
        if i + 1 < args.len() {
            parse_flags_v(args, i + 2, OptsAccV { dashboard_prefix: Some(args[i + 1]), ..acc })
        } else {
            Err(CliError::MissingArgValue)
        }
    } else if args[i] == "--label"@ {
        if i + 1 < args.len() {
            parse_flags_v(args, i + 2, OptsAccV { label: Some(args[i + 1]), ..acc })
        } else {
            Err(CliError::MissingArgValue)
        }
    } else if args[i] == "--value"@ {
        if i + 1 < args.len() {
            parse_flags_v(args, i + 2, OptsAccV { value: Some(args[i + 1]), ..acc })
        } else {
            Err(CliError::MissingArgValue)
        }
    } else if args[i] == "--time"@ {
        if i + 1 < args.len() {
            parse_flags_v(args, i + 2, OptsAccV { time: Some(args[i + 1]), ..acc })
        } else {
            Err(CliError::MissingArgValue)
        }
    } else if args[i] == "--widget-title-contains"@ {
        if i + 1 < args.len() {
            parse_flags_v(
                args,
                i + 2,
                OptsAccV { widget_title_contains: Some(args[i + 1]), ..acc },
            )
        } else {
            Err(CliError::MissingArgValue)
        }
    } else if args[i] == "--dry-run"@ {
        parse_flags_v(args, i + 1, OptsAccV { dry_run: true, ..acc })
    } else {
        Err(CliError::UnknownArgument)
    }
}

/// Checks the read flags: `--value` is required, exactly one of
/// `--dashboard` and `--dashboard-prefix` must be given, and `--label`
/// falls back to `version`.
pub open spec fn finalize_opts_v(acc: OptsAccV) -> Result<AnnotateOptsV, CliError> {
    match acc.value {
        None => Err(CliError::MissingValue),
        Some(v) => {
            if acc.dashboard is Some && acc.dashboard_prefix is Some {
                Err(CliError::TargetConflict)
            } else if acc.dashboard is None && acc.dashboard_prefix is None {
                Err(CliError::TargetMissing)
            } else {
                Ok(
                    AnnotateOptsV {
                        dashboard: acc.dashboard,
                        dashboard_prefix: acc.dashboard_prefix,
                        label: match acc.label {
                            Some(l) => l,
                            None => "version"@,
                        },
                        value: v,
                        time: acc.time,
                        dry_run: acc.dry_run,
                        widget_title_contains: acc.widget_title_contains,
                    },
                )
            }
        },
    }
}

/// Reads the part after the program name: `--region` pairs, then the
/// subcommand and its flags.
pub open spec fn parse_top_v(args: Seq<Seq<char>>, i: int, region: Option<Seq<char>>) -> Result<
    CliV,
    CliError,
>
    decreases args.len() - i,
{
    if i >= args.len() {
        Err(CliError::MissingCommand)
    } else if args[i] == "--region"@ {
        if i + 1 < args.len() {
            parse_top_v(args, i + 2, Some(args[i + 1]))
        } else {
            Err(CliError::MissingArgValue)
        }
    } else if args[i] == "annotate"@ {
        match parse_flags_v(args, i + 1, init_acc()) {
            Err(e) => Err(e),
            Ok(acc) => match finalize_opts_v(acc) {
                Err(e) => Err(e),
                Ok(opts) => Ok(CliV { region, command: CommandsV::Annotate(opts) }),
            },
        }
    } else {
        Err(CliError::UnknownCommand)
    }
}

/// What an argument list parses to: the first argument is the program
/// name and is ignored.
pub open spec fn parse_cli_v(args: Seq<Seq<char>>) -> Result<CliV, CliError> {
    if args.len() < 1 {
        Err(CliError::MissingCommand)
    } else {
        parse_top_v(args, 1, None)
    }
}

/// The accumulator's view from the parser's working state.
pub open spec fn acc_of(
    dashboard: Option<String>,
    dashboard_prefix: Option<String>,
    label: Option<String>,
    value: Option<String>,
    time: Option<String>,
    dry_run: bool,
    widget_title_contains: Option<String>,
) -> OptsAccV {
    OptsAccV {
        dashboard: opt_view(dashboard),
        dashboard_prefix: opt_view(dashboard_prefix),
        label: opt_view(label),
        value: opt_view(value),
        time: opt_view(time),
        dry_run: dry_run,
        widget_title_contains: opt_view(widget_title_contains),
    }
}

impl Cli {
    /// Parses an argument list, program name first, as the tool's
    /// command line.
    #[verifier::loop_isolation(false)]
    pub fn try_parse_from(args: &Vec<String>) -> (r: Result<Cli, CliError>)
        ensures
            match r {
                Ok(c) => parse_cli_v(strs_view(args@)) == Ok::<CliV, CliError>(c@),
                Err(e) => parse_cli_v(strs_view(args@)) == Err::<CliV, CliError>(e),
            },
    {
        proof {
            lemma_strs_view_props(args@);
        }
        let ghost av = strs_view(args@);
        if args.len() < 1 {
            return Err(CliError::MissingCommand);
        }
        let mut i: usize = 1;
        let mut region: Option<String> = None;
        while i < args.len() && str_eq(args[i].as_str(), "--region")
            invariant
                1 <= i,
                parse_top_v(av, i as int, opt_view(region)) == parse_top_v(av, 1, None::<
                    Seq<char>,
                >),
            decreases args@.len() - i,
        {
            if i + 1 < args.len() {
                region = Some(args[i + 1].clone());
                i += 2;
            } else {
                return Err(CliError::MissingArgValue);
            }
        }
        if i >= args.len() {
            return Err(CliError::MissingCommand);
        }
        if !str_eq(args[i].as_str(), "annotate") {
            return Err(CliError::UnknownCommand);
        }
        let ghost k = i + 1int;
        i += 1;
        let mut dashboard: Option<String> = None;
        let mut dashboard_prefix: Option<String> = None;
        let mut label: Option<String> = None;
        let mut value: Option<String> = None;
        let mut time: Option<String> = None;
        let mut dry_run: bool = false;
        let mut widget_title_contains: Option<String> = None;
        while i < args.len()
            invariant
                k <= i as int,
                parse_flags_v(
                    av,
                    i as int,
                    acc_of(
                        dashboard,
                        dashboard_prefix,
                        label,
                        value,
                        time,
                        dry_run,
                        widget_title_contains,
                    ),
                ) == parse_flags_v(av, k, init_acc()),
            decreases args@.len() - i,
        {
            let a = args[i].as_str();
            if str_eq(a, "--dashboard") {
                if i + 1 < args.len() {
                    dashboard = Some(args[i + 1].clone());
                    i += 2;
                } else {
                    return Err(CliError::MissingArgValue);
                }
            } else if str_eq(a, "--dashboard-prefix") {
                if i + 1 < args.len() {
                    dashboard_prefix = Some(args[i + 1].clone());
                    i += 2;
                } else {
                    return Err(CliError::MissingArgValue);
                }
            } else if str_eq(a, "--label") {
                if i + 1 < args.len() {
                    label = Some(args[i + 1].clone());
                    i += 2;
                } else {
                    return Err(CliError::MissingArgValue);
                }
            } else if str_eq(a, "--value") {
                if i + 1 < args.len() {
                    value = Some(args[i + 1].clone());
                    i += 2;
                } else {
                    return Err(CliError::MissingArgValue);
                }
            } else if str_eq(a, "--time") {
                if i + 1 < args.len() {
                    time = Some(args[i + 1].clone());
                    i += 2;
                } else {
                    return Err(CliError::MissingArgValue);
                }
            } else if str_eq(a, "--widget-title-contains") {
                if i + 1 < args.len() {
                    widget_title_contains = Some(args[i + 1].clone());
                    i += 2;
                } else {
                    return Err(CliError::MissingArgValue);
                }
            } else if str_eq(a, "--dry-run") {
                dry_run = true;
                i += 1;
            } else {
                return Err(CliError::UnknownArgument);
            }
        }
        let value_str = match value {
            Some(v) => v,
            None => {
                return Err(CliError::MissingValue);
            },
        };
        if dashboard.is_some() && dashboard_prefix.is_some() {
            return Err(CliError::TargetConflict);
        }
        if dashboard.is_none() && dashboard_prefix.is_none() {
            return Err(CliError::TargetMissing);
        }
        let label_str = match label {
            Some(l) => l,
            None => String::from_str("version"),
        };
        let opts = AnnotateOpts {
            dashboard,
            dashboard_prefix,
            label: label_str,
            value: value_str,
            time,
            dry_run,
            widget_title_contains,
        };
        Ok(Cli { region, command: Commands::Annotate(opts) })
    }
}

} // verus!
