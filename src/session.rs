//! The decisions of one exchange with git: whether to ask the backing
//! helper, whether to run the device flow, and what is written back.
use vstd::prelude::*;

use crate::credhelper::{command_of, helper_command_line, run, shell_words, CredHelperError, HelperRun};
use crate::ghauth::{AccessToken, AccessTokenPollError};
use crate::operation::Operation;
use crate::paramparsing::serialized;
use crate::params::Params;

verus! {

/// The key under which the access token is handed to git.
pub const PASSWORD_KEY: &'static str = "password";

/// What an exchange is configured with.
pub struct Config {
    /// The backing helper to ask first, if any.
    pub backing_helper: Option<String>,
    /// Run the device flow for `get` even where a password is known.
    pub force_auth: bool,
    /// Stop, instead of going on, where the backing helper exits with an
    /// error.
    pub no_auth_on_fail: bool,
    pub operation: Operation,
}

/// Why an exchange stopped without writing anything.
pub enum SessionError {
    Helper(CredHelperError),
    /// The device flow failed; the message describes why.
    DeviceFlow(String),
}

/// What to do next.
pub enum Step {
    /// Start the backing helper as described and hand its outcome to
    /// `after_helper`.
    RunHelper(HelperRun),
    /// Run the device flow and hand its outcome, with this set, to
    /// `after_device_flow`.
    DeviceFlow(Params),
    /// Write this set to git: the exchange is done.
    Write(Params),
    /// Stop without writing anything.
    Fail(SessionError),
}

/// The set `p` still needs an access token.
pub open spec fn wants_token(config: Config, p: Map<Seq<char>, Seq<char>>) -> bool {
    config.operation == Operation::Get && (!p.contains_key(PASSWORD_KEY@) || config.force_auth)
}

/// `r` goes on from the set `p`: the device flow where it wants a token,
/// else writing it out.
pub open spec fn settles(config: Config, p: Map<Seq<char>, Seq<char>>, r: Step) -> bool {
    if wants_token(config, p) {
        r matches Step::DeviceFlow(q) && q.wf() && q@ == p
    } else {
        r matches Step::Write(q) && q.wf() && q@ == p
    }
}

fn settle(config: &Config, p: Params) -> (r: Step)
    requires
        p.wf(),
    ensures
        settles(*config, p@, r),
{
    if config.operation.is_get() && (!p.contains(PASSWORD_KEY.to_owned()) || config.force_auth) {
        Step::DeviceFlow(p)
    } else {
        Step::Write(p)
    }
}

/// The first step for `input`: run the backing helper where one is set;
/// without one, `get` goes to the device flow and the others write an empty
/// set.
pub fn begin(config: &Config, input: &Params) -> (r: Step)
    ensures
        match config.backing_helper {
            Some(h) => match command_of(shell_words(helper_command_line(h@)), config.operation) {
                Some((p, a)) => r matches Step::RunHelper(run) && run.command.program@ == p
                    && run.command.args_view() == a && run.input@ == serialized(input.pairs()),
                None => r matches Step::Fail(SessionError::Helper(CredHelperError::InvalidHelper)),
            },
            None => settles(*config, Map::empty(), r),
        },
{
    match &config.backing_helper {
        Some(h) => match run(h.as_str(), config.operation, input) {
            Ok(helper_run) => Step::RunHelper(helper_run),
            Err(e) => Step::Fail(SessionError::Helper(e)),
        },
        None => settle(config, Params::new()),
    }
}

/// The step after the backing helper: its set, or on a non-zero exit what
/// it printed (an empty set where nothing could be read), goes on as
/// `settles` says; other failures stop the exchange.
pub fn after_helper(config: &Config, result: Result<Params, CredHelperError>) -> (r: Step)
    requires
        result matches Ok(p) ==> p.wf(),
        result matches Err(CredHelperError::Non0ExitCode(_, Some(p))) ==> p.wf(),
    ensures
        match result {
            Ok(p) => settles(*config, p@, r),
            Err(CredHelperError::Non0ExitCode(code, out)) => if config.no_auth_on_fail {
                r == Step::Fail(SessionError::Helper(CredHelperError::Non0ExitCode(code, out)))
            } else {
                match out {
                    Some(p) => settles(*config, p@, r),
                    None => settles(*config, Map::empty(), r),
                }
            },
            Err(e) => r == Step::Fail(SessionError::Helper(e)),
        },
{
    match result {
        Ok(p) => settle(config, p),
        Err(CredHelperError::Non0ExitCode(code, out)) => {
            if config.no_auth_on_fail {
                Step::Fail(SessionError::Helper(CredHelperError::Non0ExitCode(code, out)))
            } else {
                match out {
                    Some(p) => settle(config, p),
                    None => settle(config, Params::new()),
                }
            }
        },
        Err(e) => Step::Fail(SessionError::Helper(e)),
    }
}

/// The step after the device flow: a token is stored as the password and
/// the set written; an expired code starts the flow over; any other failure
/// stops the exchange.
pub fn after_device_flow(output: Params, result: Result<AccessToken, AccessTokenPollError>) -> (r: Step)
    requires
        output.wf(),
    ensures
        match result {
            Ok(t) => r matches Step::Write(q) && q.wf() && q@ == output@.insert(PASSWORD_KEY@, t.access_token@),
            Err(AccessTokenPollError::DeviceCodeExpired) => r matches Step::DeviceFlow(q) && q.wf() && q@ == output@,
            Err(AccessTokenPollError::Transport(m)) => r == Step::Fail(SessionError::DeviceFlow(m)),
        },
{
    let mut output = output;
    match result {
        Ok(t) => {
            output.add(PASSWORD_KEY.to_owned(), t.access_token);
            Step::Write(output)
        },
        Err(AccessTokenPollError::DeviceCodeExpired) => Step::DeviceFlow(output),
        Err(AccessTokenPollError::Transport(m)) => Step::Fail(SessionError::DeviceFlow(m)),
    }
}

/// The backing helper setting: the command-line flag, else the first of the
/// two environment variables that is set.
pub fn pick_backing_helper(flag: Option<String>, primary: Option<String>, fallback: Option<String>) -> (r: Option<String>)
    ensures
        r == (if flag is Some { flag } else if primary is Some { primary } else { fallback }),
{
    match flag {
        Some(h) => Some(h),
        None => match primary {
            Some(h) => Some(h),
            None => fallback,
        },
    }
}

} // verus!
