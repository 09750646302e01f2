//! The command-line grammar of `powercurve`.
//!
//! The first argument is the program name. Then either `-h`/`--help` or the
//! `help` command (bare, or naming one command) asks for help, `-V`/`--version`
//! for the version, or one of the commands follows with its own arguments,
//! read left to right:
//!
//! - `daemon [-q|--quiet] [-v|--verbose]` (at most one of the two, each once)
//! - `profile [quiet|balanced|performance]`
//! - `fan-detect [--generate]`
//! - `config`, `status`, `monitor`, `watch`, `version`
//! - `fan <channel> <duty>`
//! - `fan-test <channel> [--step N] [--start N] [--settle MS]`, each option
//!   also as `--step=N`, at most once; `step` and `start` fit a `u8`, `settle`
//!   a `u64`; they default to 5, 5 and 2000.
//!
//! `-h`/`--help` after a command asks for help too, unless an option is
//! waiting for its value. An argument that begins with `-` (and is more than
//! the `-` alone) is a flag, never a value.
use crate::text::{chars_from, chars_of, parse_unsigned, parse_unsigned_chars, seq_starts_with, starts_with, str_eq, string_of};
use vstd::prelude::*;

verus! {

/// The parsed command line.
#[derive(Debug)]
pub enum Args {
    /// Runs the program in daemon mode.
    Daemon { quiet: bool, verbose: bool },
    /// Queries the power profile, or sets it.
    Profile { profile: Option<String> },
    /// Detects hwmon devices and generates a starter fan.toml.
    FanDetect { generate: bool },
    /// Validates the fan configuration file.
    Config,
    /// Shows the current daemon status.
    Status,
    /// Monitors profile and thermal events with desktop notifications.
    Monitor,
    /// Watches running processes and switches power profiles.
    Watch,
    /// Prints the version.
    Version,
    /// Overrides a fan channel's duty for a while.
    Fan { channel: String, duty: String },
    /// Finds the minimum duty at which a fan spins.
    FanTest { channel: String, step: u8, start: u8, settle: u64 },
}

/// A parsed command line, its strings taken as characters.
pub enum ArgsModel {
    Daemon { quiet: bool, verbose: bool },
    Profile { profile: Option<Seq<char>> },
    FanDetect { generate: bool },
    Config,
    Status,
    Monitor,
    Watch,
    Version,
    Fan { channel: Seq<char>, duty: Seq<char> },
    FanTest { channel: Seq<char>, step: u8, start: u8, settle: u64 },
}

impl View for Args {
    type V = ArgsModel;

    open spec fn view(&self) -> ArgsModel {
        match self {
            Args::Daemon { quiet, verbose } => ArgsModel::Daemon { quiet: *quiet, verbose: *verbose },
            Args::Profile { profile } => ArgsModel::Profile {
                profile: match profile {
                    Some(p) => Some(p@),
                    None => None,
                },
            },
            Args::FanDetect { generate } => ArgsModel::FanDetect { generate: *generate },
            Args::Config => ArgsModel::Config,
            Args::Status => ArgsModel::Status,
            Args::Monitor => ArgsModel::Monitor,
            Args::Watch => ArgsModel::Watch,
            Args::Version => ArgsModel::Version,
            Args::Fan { channel, duty } => ArgsModel::Fan { channel: channel@, duty: duty@ },
            Args::FanTest { channel, step, start, settle } => ArgsModel::FanTest {
                channel: channel@,
                step: *step,
                start: *start,
                settle: *settle,
            },
        }
    }
}

/// Why a command line was not parsed into `Args`.
#[derive(Clone, Copy, Debug, PartialEq, Eq, Structural)]
pub enum ArgsError {
    /// Help was asked for, or nothing was given.
    DisplayHelp,
    /// The version was asked for.
    DisplayVersion,
    /// An unknown command, flag or surplus argument.
    Unrecognized,
    /// A value that the argument does not accept.
    InvalidValue,
    /// An option without its value.
    MissingValue,
    /// A required argument that was not given.
    MissingArgument,
    /// A flag given twice, or two flags that exclude each other.
    Conflict,
}

/// The commands.
#[derive(Clone, Copy, Debug, PartialEq, Eq, Structural)]
pub enum Command {
    Daemon,
    Profile,
    FanDetect,
    Config,
    Status,
    Monitor,
    Watch,
    Version,
    Fan,
    FanTest,
}

/// The valued options of `fan-test`.
#[derive(Clone, Copy, Debug, PartialEq, Eq, Structural)]
pub enum OptionName {
    Step,
    Start,
    Settle,
}

/// What has been read of a command's arguments: its flags, the positions of
/// its positional arguments, its option values, and an option waiting for
/// its value.
#[derive(Clone, Copy, Debug)]
pub struct ParseState {
    pub quiet: bool,
    pub verbose: bool,
    pub generate: bool,
    pub first: Option<usize>,
    pub second: Option<usize>,
    pub step: Option<u8>,
    pub start: Option<u8>,
    pub settle: Option<u64>,
    pub pending: Option<OptionName>,
}

pub open spec fn initial_state() -> ParseState {
    ParseState {
        quiet: false,
        verbose: false,
        generate: false,
        first: None,
        second: None,
        step: None,
        start: None,
        settle: None,
        pending: None,
    }
}

pub open spec fn is_help_flag(t: Seq<char>) -> bool {
    t == "-h"@ || t == "--help"@
}

pub open spec fn is_version_flag(t: Seq<char>) -> bool {
    t == "-V"@ || t == "--version"@
}

/// An argument that is read as a flag: a `-` and at least one more character.
pub open spec fn looks_like_flag(t: Seq<char>) -> bool {
    t.len() > 1 && t[0] == '-'
}

pub open spec fn command_named(t: Seq<char>) -> Option<Command> {
    if t == "daemon"@ {
        Some(Command::Daemon)
    } else if t == "profile"@ {
        Some(Command::Profile)
    } else if t == "fan-detect"@ {
        Some(Command::FanDetect)
    } else if t == "config"@ {
        Some(Command::Config)
    } else if t == "status"@ {
        Some(Command::Status)
    } else if t == "monitor"@ {
        Some(Command::Monitor)
    } else if t == "watch"@ {
        Some(Command::Watch)
    } else if t == "version"@ {
        Some(Command::Version)
    } else if t == "fan"@ {
        Some(Command::Fan)
    } else if t == "fan-test"@ {
        Some(Command::FanTest)
    } else {
        None
    }
}

pub open spec fn is_profile_value(t: Seq<char>) -> bool {
    t == "quiet"@ || t == "balanced"@ || t == "performance"@
}

pub open spec fn option_flag(o: OptionName) -> Seq<char> {
    match o {
        OptionName::Step => "--step"@,
        OptionName::Start => "--start"@,
        OptionName::Settle => "--settle"@,
    }
}

/// The `--name=` prefix of an option given with its value.
pub open spec fn option_prefix(o: OptionName) -> Seq<char> {
    match o {
        OptionName::Step => "--step="@,
        OptionName::Start => "--start="@,
        OptionName::Settle => "--settle="@,
    }
}

pub open spec fn option_max(o: OptionName) -> nat {
    match o {
        OptionName::Step => 255,
        OptionName::Start => 255,
        OptionName::Settle => 0xffff_ffff_ffff_ffff,
    }
}

pub open spec fn option_given(st: ParseState, o: OptionName) -> bool {
    match o {
        OptionName::Step => st.step is Some,
        OptionName::Start => st.start is Some,
        OptionName::Settle => st.settle is Some,
    }
}

pub open spec fn with_option(st: ParseState, o: OptionName, n: nat) -> ParseState {
    ParseState {
        quiet: st.quiet,
        verbose: st.verbose,
        generate: st.generate,
        first: st.first,
        second: st.second,
        step: if o == OptionName::Step { Some(n as u8) } else { st.step },
        start: if o == OptionName::Start { Some(n as u8) } else { st.start },
        settle: if o == OptionName::Settle { Some(n as u64) } else { st.settle },
        pending: None,
    }
}

pub open spec fn with_pending(st: ParseState, p: Option<OptionName>) -> ParseState {
    ParseState {
        quiet: st.quiet,
        verbose: st.verbose,
        generate: st.generate,
        first: st.first,
        second: st.second,
        step: st.step,
        start: st.start,
        settle: st.settle,
        pending: p,
    }
}

pub open spec fn with_flags(st: ParseState, quiet: bool, verbose: bool, generate: bool) -> ParseState {
    ParseState {
        quiet,
        verbose,
        generate,
        first: st.first,
        second: st.second,
        step: st.step,
        start: st.start,
        settle: st.settle,
        pending: st.pending,
    }
}

pub open spec fn with_positional(st: ParseState, i: int) -> ParseState {
    ParseState {
        quiet: st.quiet,
        verbose: st.verbose,
        generate: st.generate,
        first: if st.first is None { Some(i as usize) } else { st.first },
        second: if st.first is Some { Some(i as usize) } else { st.second },
        step: st.step,
        start: st.start,
        settle: st.settle,
        pending: st.pending,
    }
}

/// Gives option `o` the value `v`: once only, and a number in its range.
pub open spec fn set_option(st: ParseState, o: OptionName, v: Seq<char>) -> Result<
    ParseState,
    ArgsError,
> {
    if option_given(st, o) {
        Err(ArgsError::Conflict)
    } else {
        match parse_unsigned(v, option_max(o)) {
            Some(n) => Ok(with_option(st, o, n)),
            None => Err(ArgsError::InvalidValue),
        }
    }
}

pub open spec fn daemon_step(st: ParseState, t: Seq<char>) -> Result<ParseState, ArgsError> {
    if t == "-q"@ || t == "--quiet"@ {
        if st.quiet {
            Err(ArgsError::Conflict)
        } else {
            Ok(with_flags(st, true, st.verbose, st.generate))
        }
    } else if t == "-v"@ || t == "--verbose"@ {
        if st.verbose {
            Err(ArgsError::Conflict)
        } else {
            Ok(with_flags(st, st.quiet, true, st.generate))
        }
    } else {
        Err(ArgsError::Unrecognized)
    }
}

pub open spec fn profile_step(st: ParseState, t: Seq<char>, i: int) -> Result<ParseState, ArgsError> {
    if looks_like_flag(t) || st.first is Some {
        Err(ArgsError::Unrecognized)
    } else if !is_profile_value(t) {
        Err(ArgsError::InvalidValue)
    } else {
        Ok(with_positional(st, i))
    }
}

pub open spec fn fan_detect_step(st: ParseState, t: Seq<char>) -> Result<ParseState, ArgsError> {
    if t == "--generate"@ {
        if st.generate {
            Err(ArgsError::Conflict)
        } else {
            Ok(with_flags(st, st.quiet, st.verbose, true))
        }
    } else {
        Err(ArgsError::Unrecognized)
    }
}

pub open spec fn fan_step(st: ParseState, t: Seq<char>, i: int) -> Result<ParseState, ArgsError> {
    if looks_like_flag(t) || st.second is Some {
        Err(ArgsError::Unrecognized)
    } else {
        Ok(with_positional(st, i))
    }
}

/// The option an argument names alone, as in `--step`.
pub open spec fn option_named(t: Seq<char>) -> Option<OptionName> {
    if t == "--step"@ {
        Some(OptionName::Step)
    } else if t == "--start"@ {
        Some(OptionName::Start)
    } else if t == "--settle"@ {
        Some(OptionName::Settle)
    } else {
        None
    }
}

/// The option an argument gives with its value, as in `--step=3`.
pub open spec fn option_inline(t: Seq<char>) -> Option<OptionName> {
    if starts_with(t, "--step="@) {
        Some(OptionName::Step)
    } else if starts_with(t, "--start="@) {
        Some(OptionName::Start)
    } else if starts_with(t, "--settle="@) {
        Some(OptionName::Settle)
    } else {
        None
    }
}

pub open spec fn fan_test_step(st: ParseState, t: Seq<char>, i: int) -> Result<ParseState, ArgsError> {
    match option_named(t) {
        Some(o) => if option_given(st, o) {
            Err(ArgsError::Conflict)
        } else {
            Ok(with_pending(st, Some(o)))
        },
        None => match option_inline(t) {
            Some(o) => set_option(st, o, t.subrange(option_prefix(o).len() as int, t.len() as int)),
            None => if looks_like_flag(t) || st.first is Some {
                Err(ArgsError::Unrecognized)
            } else {
                Ok(with_positional(st, i))
            },
        },
    }
}

/// Reads argument `t`, at position `i`, of command `c`.
pub open spec fn parse_step(c: Command, st: ParseState, t: Seq<char>, i: int) -> Result<
    ParseState,
    ArgsError,
> {
    if st.pending is Some {
        if looks_like_flag(t) {
            Err(ArgsError::MissingValue)
        } else {
            set_option(with_pending(st, None), st.pending->0, t)
        }
    } else if is_help_flag(t) {
        Err(ArgsError::DisplayHelp)
    } else {
        match c {
            Command::Daemon => daemon_step(st, t),
            Command::Profile => profile_step(st, t, i),
            Command::FanDetect => fan_detect_step(st, t),
            Command::Fan => fan_step(st, t, i),
            Command::FanTest => fan_test_step(st, t, i),
            _ => Err(ArgsError::Unrecognized),
        }
    }
}

/// The state after reading the arguments of command `c` up to position `n`;
/// the command's own arguments begin at position 2.
pub open spec fn parse_upto(c: Command, args: Seq<Seq<char>>, n: int) -> Result<
    ParseState,
    ArgsError,
>
    decreases n,
{
    if n <= 2 {
        Ok(initial_state())
    } else {
        match parse_upto(c, args, n - 1) {
            Ok(st) => parse_step(c, st, args[n - 1], n - 1),
            Err(e) => Err(e),
        }
    }
}

/// The command line that the arguments of command `c` make, once all are read.
pub open spec fn parse_finish(c: Command, st: ParseState, args: Seq<Seq<char>>) -> Result<
    ArgsModel,
    ArgsError,
> {
    if st.pending is Some {
        Err(ArgsError::MissingValue)
    } else {
        match c {
            Command::Daemon => if st.quiet && st.verbose {
                Err(ArgsError::Conflict)
            } else {
                Ok(ArgsModel::Daemon { quiet: st.quiet, verbose: st.verbose })
            },
            Command::Profile => Ok(
                ArgsModel::Profile {
                    profile: match st.first {
                        Some(i) => Some(args[i as int]),
                        None => None,
                    },
                },
            ),
            Command::FanDetect => Ok(ArgsModel::FanDetect { generate: st.generate }),
            Command::Config => Ok(ArgsModel::Config),
            Command::Status => Ok(ArgsModel::Status),
            Command::Monitor => Ok(ArgsModel::Monitor),
            Command::Watch => Ok(ArgsModel::Watch),
            Command::Version => Ok(ArgsModel::Version),
            Command::Fan => match (st.first, st.second) {
                (Some(i), Some(j)) => Ok(ArgsModel::Fan { channel: args[i as int], duty: args[j as int] }),
                _ => Err(ArgsError::MissingArgument),
            },
            Command::FanTest => match st.first {
                Some(i) => Ok(
                    ArgsModel::FanTest {
                        channel: args[i as int],
                        step: match st.step {
                            Some(v) => v,
                            None => 5,
                        },
                        start: match st.start {
                            Some(v) => v,
                            None => 5,
                        },
                        settle: match st.settle {
                            Some(v) => v,
                            None => 2000,
                        },
                    },
                ),
                None => Err(ArgsError::MissingArgument),
            },
        }
    }
}

/// `help`, bare or naming one command.
pub open spec fn help_command(args: Seq<Seq<char>>) -> bool {
    args[1] == "help"@ && (args.len() == 2 || (args.len() == 3 && command_named(args[2]) is Some))
}

/// What a command line parses to.
pub open spec fn parse_args(args: Seq<Seq<char>>) -> Result<ArgsModel, ArgsError> {
    if args.len() <= 1 {
        Err(ArgsError::DisplayHelp)
    } else if is_help_flag(args[1]) || help_command(args) {
        Err(ArgsError::DisplayHelp)
    } else if is_version_flag(args[1]) {
        Err(ArgsError::DisplayVersion)
    } else {
        match command_named(args[1]) {
            Some(c) => match parse_upto(c, args, args.len() as int) {
                Ok(st) => parse_finish(c, st, args),
                Err(e) => Err(e),
            },
            None => Err(ArgsError::Unrecognized),
        }
    }
}

/// The characters of each argument.
pub open spec fn arg_chars(args: Seq<&str>) -> Seq<Seq<char>> {
    args.map_values(|s: &str| s@)
}

pub open spec fn parsed_view(r: Result<Args, ArgsError>) -> Result<ArgsModel, ArgsError> {
    match r {
        Ok(a) => Ok(a@),
        Err(e) => Err(e),
    }
}

fn flag_like(t: &Vec<char>) -> (r: bool)
    ensures
        r == looks_like_flag(t@),
{
    t.len() > 1 && t[0] == '-'
}

fn find_command(t: &str) -> (r: Option<Command>)
    ensures
        r == command_named(t@),
{
    if str_eq(t, "daemon") {
        Some(Command::Daemon)
    } else if str_eq(t, "profile") {
        Some(Command::Profile)
    } else if str_eq(t, "fan-detect") {
        Some(Command::FanDetect)
    } else if str_eq(t, "config") {
        Some(Command::Config)
    } else if str_eq(t, "status") {
        Some(Command::Status)
    } else if str_eq(t, "monitor") {
        Some(Command::Monitor)
    } else if str_eq(t, "watch") {
        Some(Command::Watch)
    } else if str_eq(t, "version") {
        Some(Command::Version)
    } else if str_eq(t, "fan") {
        Some(Command::Fan)
    } else if str_eq(t, "fan-test") {
        Some(Command::FanTest)
    } else {
        None
    }
}

fn option_value(st: ParseState, o: OptionName, v: &Vec<char>) -> (r: Result<ParseState, ArgsError>)
    ensures
        r == set_option(st, o, v@),
{
    let given = match o {
        OptionName::Step => st.step.is_some(),
        OptionName::Start => st.start.is_some(),
        OptionName::Settle => st.settle.is_some(),
    };
    if given {
        return Err(ArgsError::Conflict);
    }
    let max: u64 = match o {
        OptionName::Settle => 0xffff_ffff_ffff_ffff,
        _ => 255,
    };
    match parse_unsigned_chars(v, max) {
        Some(n) => {
            let mut next = st;
            next.pending = None;
            match o {
                OptionName::Step => next.step = Some(n as u8),
                OptionName::Start => next.start = Some(n as u8),
                OptionName::Settle => next.settle = Some(n),
            }
            Ok(next)
        },
        None => Err(ArgsError::InvalidValue),
    }
}

fn positional(st: ParseState, i: usize) -> (r: ParseState)
    ensures
        r == with_positional(st, i as int),
{
    let mut next = st;
    if st.first.is_none() {
        next.first = Some(i);
    } else {
        next.second = Some(i);
    }
    next
}

fn fan_test_arg(st: ParseState, t: &str, tv: &Vec<char>, i: usize) -> (r: Result<ParseState, ArgsError>)
    requires
        tv@ == t@,
    ensures
        r == fan_test_step(st, t@, i as int),
{
    let named = if str_eq(t, "--step") {
        Some(OptionName::Step)
    } else if str_eq(t, "--start") {
        Some(OptionName::Start)
    } else if str_eq(t, "--settle") {
        Some(OptionName::Settle)
    } else {
        None
    };
    if let Some(o) = named {
        let given = match o {
            OptionName::Step => st.step.is_some(),
            OptionName::Start => st.start.is_some(),
            OptionName::Settle => st.settle.is_some(),
        };
        if given {
            return Err(ArgsError::Conflict);
        }
        let mut next = st;
        next.pending = Some(o);
        return Ok(next);
    }
    let step_prefix = chars_of("--step=");
    let start_prefix = chars_of("--start=");
    let settle_prefix = chars_of("--settle=");
    let inline = if seq_starts_with(tv, &step_prefix) {
        Some((OptionName::Step, step_prefix.len()))
    } else if seq_starts_with(tv, &start_prefix) {
        Some((OptionName::Start, start_prefix.len()))
    } else if seq_starts_with(tv, &settle_prefix) {
        Some((OptionName::Settle, settle_prefix.len()))
    } else {
        None
    };
    match inline {
        Some((o, len)) => {
            let v = chars_from(tv, len);
            option_value(st, o, &v)
        },
        None => {
            if flag_like(tv) || st.first.is_some() {
                Err(ArgsError::Unrecognized)
            } else {
                Ok(positional(st, i))
            }
        },
    }
}

fn command_arg(c: Command, st: ParseState, t: &str, i: usize) -> (r: Result<ParseState, ArgsError>)
    ensures
        r == parse_step(c, st, t@, i as int),
{
    let tv = chars_of(t);
    if let Some(o) = st.pending {
        if flag_like(&tv) {
            return Err(ArgsError::MissingValue);
        }
        let mut cleared = st;
        cleared.pending = None;
        return option_value(cleared, o, &tv);
    }
    if str_eq(t, "-h") || str_eq(t, "--help") {
        return Err(ArgsError::DisplayHelp);
    }
    match c {
        Command::Daemon => {
            if str_eq(t, "-q") || str_eq(t, "--quiet") {
                if st.quiet {
                    Err(ArgsError::Conflict)
                } else {
                    let mut next = st;
                    next.quiet = true;
                    Ok(next)
                }
            } else if str_eq(t, "-v") || str_eq(t, "--verbose") {
                if st.verbose {
                    Err(ArgsError::Conflict)
                } else {
                    let mut next = st;
                    next.verbose = true;
                    Ok(next)
                }
            } else {
                Err(ArgsError::Unrecognized)
            }
        },
        Command::Profile => {
            if flag_like(&tv) || st.first.is_some() {
                Err(ArgsError::Unrecognized)
            } else if !(str_eq(t, "quiet") || str_eq(t, "balanced") || str_eq(t, "performance")) {
                Err(ArgsError::InvalidValue)
            } else {
                Ok(positional(st, i))
            }
        },
        Command::FanDetect => {
            if str_eq(t, "--generate") {
                if st.generate {
                    Err(ArgsError::Conflict)
                } else {
                    let mut next = st;
                    next.generate = true;
                    Ok(next)
                }
            } else {
                Err(ArgsError::Unrecognized)
            }
        },
        Command::Fan => {
            if flag_like(&tv) || st.second.is_some() {
                Err(ArgsError::Unrecognized)
            } else {
                Ok(positional(st, i))
            }
        },
        Command::FanTest => fan_test_arg(st, t, &tv, i),
        _ => Err(ArgsError::Unrecognized),
    }
}

fn finish(c: Command, st: ParseState, args: &[&str]) -> (r: Result<Args, ArgsError>)
    requires
        st.first matches Some(i) ==> i < args@.len(),
        st.second matches Some(i) ==> i < args@.len(),
    ensures
        parsed_view(r) == parse_finish(c, st, arg_chars(args@)),
{
    if st.pending.is_some() {
        return Err(ArgsError::MissingValue);
    }
    match c {
        Command::Daemon => {
            if st.quiet && st.verbose {
                Err(ArgsError::Conflict)
            } else {
                Ok(Args::Daemon { quiet: st.quiet, verbose: st.verbose })
            }
        },
        Command::Profile => {
            let profile = match st.first {
                Some(i) => Some(string_of(args[i])),
                None => None,
            };
            Ok(Args::Profile { profile })
        },
        Command::FanDetect => Ok(Args::FanDetect { generate: st.generate }),
        Command::Config => Ok(Args::Config),
        Command::Status => Ok(Args::Status),
        Command::Monitor => Ok(Args::Monitor),
        Command::Watch => Ok(Args::Watch),
        Command::Version => Ok(Args::Version),
        Command::Fan => match (st.first, st.second) {
            (Some(i), Some(j)) => Ok(Args::Fan { channel: string_of(args[i]), duty: string_of(args[j]) }),
            _ => Err(ArgsError::MissingArgument),
        },
        Command::FanTest => match st.first {
            Some(i) => Ok(
                Args::FanTest {
                    channel: string_of(args[i]),
                    step: match st.step {
                        Some(v) => v,
                        None => 5,
                    },
                    start: match st.start {
                        Some(v) => v,
                        None => 5,
                    },
                    settle: match st.settle {
                        Some(v) => v,
                        None => 2000,
                    },
                },
            ),
            None => Err(ArgsError::MissingArgument),
        },
    }
}

proof fn lemma_positions_in_range(c: Command, args: Seq<Seq<char>>, n: int)
    requires
        2 <= n <= args.len() <= usize::MAX,
    ensures
        parse_upto(c, args, n) matches Ok(st) ==> positions_below(st, n),
    decreases n,
{
    if n > 2 {
        lemma_positions_in_range(c, args, n - 1);
    }
}

pub open spec fn positions_below(st: ParseState, n: int) -> bool {
    &&& (st.first matches Some(i) ==> 2 <= i < n)
    &&& (st.second matches Some(i) ==> 2 <= i < n)
}

impl Args {
    /// Parses a command line, the program name first.
    pub fn try_parse_from(args: &[&str]) -> (r: Result<Args, ArgsError>)
        ensures
            parsed_view(r) == parse_args(arg_chars(args@)),
    {
        let ghost toks = arg_chars(args@);
        let n = args.len();
        if n <= 1 {
            return Err(ArgsError::DisplayHelp);
        }
        let head = args[1];
        assert(toks[1] == head@);
        if str_eq(head, "-h") || str_eq(head, "--help") {
            return Err(ArgsError::DisplayHelp);
        }
        if str_eq(head, "help") {
            if n == 2 {
                return Err(ArgsError::DisplayHelp);
            }
            if n == 3 {
                assert(toks[2] == args@[2]@);
                if find_command(args[2]).is_some() {
                    return Err(ArgsError::DisplayHelp);
                }
            }
        }
        assert(!help_command(toks));
        if str_eq(head, "-V") || str_eq(head, "--version") {
            return Err(ArgsError::DisplayVersion);
        }
        let c = match find_command(head) {
            Some(c) => c,
            None => {
                return Err(ArgsError::Unrecognized);
            },
        };
        let mut st = ParseState {
            quiet: false,
            verbose: false,
            generate: false,
            first: None,
            second: None,
            step: None,
            start: None,
            settle: None,
            pending: None,
        };
        let mut i: usize = 2;
        while i < n
            invariant
                2 <= i <= n,
                n == args@.len(),
                toks == arg_chars(args@),
                toks.len() == n,
                command_named(toks[1]) == Some(c),
                !is_help_flag(toks[1]),
                !help_command(toks),
                !is_version_flag(toks[1]),
                parse_upto(c, toks, i as int) == Ok::<ParseState, ArgsError>(st),
            decreases n - i,
        {
            let t = args[i];
            assert(toks[i as int] == t@);
            match command_arg(c, st, t, i) {
                Ok(next) => {
                    st = next;
                },
                Err(e) => {
                    proof {
                        assert(parse_upto(c, toks, i + 1) == Err::<ParseState, ArgsError>(e));
                        lemma_upto_err(c, toks, i as int + 1, n as int);
                    }
                    return Err(e);
                },
            }
            i = i + 1;
        }
        proof {
            lemma_positions_in_range(c, toks, n as int);
        }
        finish(c, st, args)
    }

    /// Parses a command line that is known to parse.
    pub fn parse_from(args: &[&str]) -> (a: Args)
        requires
            parse_args(arg_chars(args@)) is Ok,
        ensures
            parse_args(arg_chars(args@)) == Ok::<ArgsModel, ArgsError>(a@),
    {
        match Self::try_parse_from(args) {
            Ok(a) => a,
            Err(_) => {
                assert(false);
                Args::Version
            },
        }
    }
}

/// An error, once reached, stays the outcome of the rest of the arguments.
proof fn lemma_upto_err(c: Command, args: Seq<Seq<char>>, m: int, n: int)
    requires
        2 <= m <= n,
        parse_upto(c, args, m) is Err,
    ensures
        parse_upto(c, args, n) == parse_upto(c, args, m),
    decreases n - m,
{
    if m < n {
        lemma_upto_err(c, args, m, n - 1);
    }
}

} // verus!
