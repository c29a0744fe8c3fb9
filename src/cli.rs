//! The command line of the server: the endpoints to listen on, and the
//! interval between two metric publications.
use crate::error::MetrsError;
use clap::{Arg, ArgMatches, Command};
use vstd::prelude::*;
use vstd::string::StringExecFns;

verus! {

/// The interval, in seconds, between two publications when none is given.
pub const DEFAULT_TICK_INTERVAL: u64 = 10;

/// clap's description of a command line, opaque here.
#[verifier::external_type_specification]
#[verifier::external_body]
pub struct ExCommand(Command);

/// clap's description of one argument, opaque here.
#[verifier::external_type_specification]
#[verifier::external_body]
pub struct ExArg(Arg);

/// clap's record of the values given on a command line, opaque here.
#[verifier::external_type_specification]
#[verifier::external_body]
pub struct ExArgMatches(ArgMatches);

/// Relies on clap::Command::new: a command line named `name`, with no argument yet.
#[verifier::external_body]
fn command_new(name: &'static str) -> Command {
    Command::new(name)
}

/// Relies on clap::Command::arg: adds the argument `arg` to `cmd`.
#[verifier::external_body]
fn command_arg(cmd: Command, arg: Arg) -> Command {
    cmd.arg(arg)
}

/// Relies on clap::Arg::new: an argument identified by `id`.
#[verifier::external_body]
fn arg_new(id: &'static str) -> Arg {
    Arg::new(id)
}

/// Relies on clap::Arg::short: the argument is also given as `-<c>`; a debug
/// assertion refuses `-`.
#[verifier::external_body]
fn arg_short(arg: Arg, c: char) -> Arg
    requires
        c != '-',
{
    arg.short(c)
}

/// Relies on clap::Arg::long: the argument is also given as `--<name>`.
#[verifier::external_body]
fn arg_long(arg: Arg, name: &'static str) -> Arg {
    arg.long(name)
}

/// Relies on clap::Arg::action with `ArgAction::Append`: each occurrence adds values.
#[verifier::external_body]
fn arg_append(arg: Arg) -> Arg {
    arg.action(clap::ArgAction::Append)
}

/// Relies on clap::Arg::required: whether the argument must be given.
#[verifier::external_body]
fn arg_required(arg: Arg, yes: bool) -> Arg {
    arg.required(yes)
}

/// Relies on clap::Arg::value_delimiter: one occurrence may carry several values separated by `d`.
#[verifier::external_body]
fn arg_value_delimiter(arg: Arg, d: char) -> Arg {
    arg.value_delimiter(d)
}

/// Relies on clap::Arg::default_value: the value taken when the argument is absent.
#[verifier::external_body]
fn arg_default_value(arg: Arg, value: &'static str) -> Arg {
    arg.default_value(value)
}

/// Relies on clap::Arg::value_parser with `RangedU64ValueParser::new()`: the
/// values are read as numbers of the whole `u64` range.
#[verifier::external_body]
fn arg_u64(arg: Arg) -> Arg {
    arg.value_parser(clap::builder::RangedU64ValueParser::<u64>::new())
}

/// Relies on clap::Command::try_get_matches_from: matches `args` (the program
/// name first) against `cmd`. A refusal, or a request for help, comes back as
/// the text clap renders for it, with whether clap prints it to standard error
/// (`Error::use_stderr`: true for a refusal, false for help or version). Its
/// debug assertions panic only on a contradictory command definition, which
/// `Cli::command` does not build.
#[verifier::external_body]
fn try_matches(cmd: Command, args: &Vec<String>) -> Result<ArgMatches, (String, bool)> {
    cmd.try_get_matches_from(args.iter()).map_err(|e| (e.to_string(), e.use_stderr()))
}

/// Relies on clap::ArgMatches::try_get_many: the string values given for `id`, in order.
#[verifier::external_body]
fn values_of(m: &ArgMatches, id: &str) -> Vec<String> {
    match m.try_get_many::<String>(id) {
        Ok(Some(values)) => values.cloned().collect(),
        _ => Vec::new(),
    }
}

/// Relies on clap::ArgMatches::try_get_one: the number given for `id`, if any.
#[verifier::external_body]
fn number_of(m: &ArgMatches, id: &str) -> Option<u64> {
    match m.try_get_one::<u64>(id) {
        Ok(Some(value)) => Some(*value),
        _ => None,
    }
}

/// The server's configuration: the endpoints to listen on, and the interval,
/// in seconds, between two publications.
#[derive(Debug)]
pub struct Cli {
    pub hosts: Vec<String>,
    pub tick_interval: u64,
}

impl Cli {
    /// The command line: `-H`/`--hosts`, required and repeatable, each value
    /// possibly several hosts separated by spaces; `-t`/`--tick-interval`, in
    /// seconds, `10` when absent.
    pub fn command() -> Command {
        let hosts = arg_new("hosts");
        let hosts = arg_short(hosts, 'H');
        let hosts = arg_long(hosts, "hosts");
        let hosts = arg_append(hosts);
        let hosts = arg_value_delimiter(hosts, ' ');
        let hosts = arg_required(hosts, true);
        let tick = arg_new("tick_interval");
        let tick = arg_short(tick, 't');
        let tick = arg_long(tick, "tick-interval");
        let tick = arg_u64(tick);
        let tick = arg_default_value(tick, "10");
        let cmd = command_new("metrsd");
        let cmd = command_arg(cmd, hosts);
        command_arg(cmd, tick)
    }

    /// The configuration from the values given on the command line: the hosts
    /// must not be empty; the tick interval is `DEFAULT_TICK_INTERVAL` when
    /// none was given.
    pub fn from_values(hosts: Vec<String>, tick_interval: Option<u64>) -> (r: Result<
        Cli,
        MetrsError,
    >)
        ensures
            hosts@.len() == 0 ==> (r matches Err(MetrsError::Error(m)) && m@
                == "No host to listen on"@),
            hosts@.len() > 0 ==> (r matches Ok(c) && c.hosts@ == hosts@ && c.tick_interval
                == match tick_interval {
                Some(t) => t,
                None => DEFAULT_TICK_INTERVAL,
            }),
    {
        if hosts.len() == 0 {
            return Err(MetrsError::Error(String::from_str("No host to listen on")));
        }
        match tick_interval {
            None => Ok(Cli { hosts, tick_interval: DEFAULT_TICK_INTERVAL }),
            Some(t) => Ok(Cli { hosts, tick_interval: t }),
        }
    }

    /// Reads the configuration from `args`, the program name first. A refused
    /// command line is an `Error` with clap's explanation; a request for help
    /// or version is a `Usage` with the text to show. Whatever the command line
    /// held, a configuration that comes back has hosts.
    pub fn parse_from(args: &Vec<String>) -> (r: Result<Cli, MetrsError>)
        ensures
            r matches Ok(c) ==> c.hosts@.len() > 0,
    {
        match try_matches(Cli::command(), args) {
            Ok(m) => Cli::from_values(values_of(&m, "hosts"), number_of(&m, "tick_interval")),
            Err((text, refused)) => if refused {
                Err(MetrsError::Error(text))
            } else {
                Err(MetrsError::Usage(text))
            },
        }
    }
}

} // verus!
