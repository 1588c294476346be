//! The backing credential helper: which command to start, what to hand it,
//! and what its answer means.
use vstd::prelude::*;

use crate::operation::{operation_name, Operation};
use crate::paramparsing::{parse_from, parsed, serialized, write_to};
use crate::params::{ParamParserError, Params};
use crate::text::{chars_of, string_from, trim, trim_range};

verus! {

/// The words that POSIX-style shell splitting makes of `s`; `None` where
/// `s` cannot be split (an open quote, an escape at the end).
pub uninterp spec fn shell_words(s: Seq<char>) -> Option<Seq<Seq<char>>>;

/// The words of an optional list of strings, as character sequences.
pub open spec fn words_view(w: Option<Vec<String>>) -> Option<Seq<Seq<char>>> {
    match w {
        Some(v) => Some(v@.map_values(|s: String| s@)),
        None => None,
    }
}

/// Relies on shlex::split: splits a command line into words the way a
/// POSIX shell does, or gives `None` where quoting or escaping is left open.
#[verifier::external_body]
fn split_words(s: &str) -> (r: Option<Vec<String>>)
    ensures
        words_view(r) == shell_words(s@),
{
    shlex::split(s)
}

/// Prefix of the command that a helper given by short name stands for.
pub const HELPER_PREFIX: &'static str = "git credential-";

/// The command line that a helper setting stands for: a setting that starts
/// with `/` is a command line itself; any other names a git credential
/// helper. Surrounding whitespace is dropped first.
pub open spec fn helper_command_line(helper: Seq<char>) -> Seq<char> {
    let h = trim(helper);
    if h.len() > 0 && h[0] == '/' {
        h
    } else {
        HELPER_PREFIX@ + h
    }
}

/// The program and arguments that the words of a command line give for
/// `op`: the first word is the program, the rest its arguments, followed by
/// the operation's name.
pub open spec fn command_of(words: Option<Seq<Seq<char>>>, op: Operation) -> Option<(Seq<char>, Seq<Seq<char>>)> {
    match words {
        Some(w) => if w.len() > 0 {
            Some((w[0], w.drop_first().push(operation_name(op))))
        } else {
            None
        },
        None => None,
    }
}

/// A process to start.
pub struct HelperCommand {
    pub program: String,
    pub args: Vec<String>,
}

impl HelperCommand {
    pub open spec fn args_view(&self) -> Seq<Seq<char>> {
        self.args@.map_values(|s: String| s@)
    }
}

/// Why running the backing helper failed.
pub enum CredHelperError {
    /// The helper could not be started or talked to; the message describes why.
    Io(String),
    /// The helper setting is no command line: it is empty or its quoting is
    /// left open.
    InvalidHelper,
    /// The helper answered with a line that is not `key=value`.
    Malformed(ParamParserError),
    /// The helper exited with this code (0 where it was stopped by a
    /// signal), with the set it printed where that could be read.
    Non0ExitCode(i32, Option<Params>),
}

/// The command line that `helper` stands for.
pub fn command_line(helper: &str) -> (r: String)
    ensures
        r@ == helper_command_line(helper@),
{
    let v = chars_of(helper);
    let (a, b) = trim_range(&v, 0, v.len());
    assert(v@.subrange(0, v@.len() as int) == helper@);
    let h = string_from(&v, a, b);
    if a < b && v[a] == '/' {
        h
    } else {
        let mut r = HELPER_PREFIX.to_owned();
        r.append(h.as_str());
        r
    }
}

/// The command for `op` that the words of a command line give.
pub fn command_from_words(words: Option<Vec<String>>, op: Operation) -> (r: Result<HelperCommand, CredHelperError>)
    ensures
        match command_of(words_view(words), op) {
            Some((p, a)) => r matches Ok(c) && c.program@ == p && c.args_view() == a,
            None => r matches Err(CredHelperError::InvalidHelper),
        },
{
    match words {
        None => Err(CredHelperError::InvalidHelper),
        Some(mut w) => {
            if w.len() == 0 {
                return Err(CredHelperError::InvalidHelper);
            }
            let ghost ws = w@.map_values(|s: String| s@);
            let program = w.remove(0);
            w.push(op.name().to_owned());
            let c = HelperCommand { program, args: w };
            assert(c.args_view() =~= ws.drop_first().push(operation_name(op)));
            Ok(c)
        },
    }
}

/// The command that starts `helper` for `op`.
pub fn helper_command(helper: &str, op: Operation) -> (r: Result<HelperCommand, CredHelperError>)
    ensures
        match command_of(shell_words(helper_command_line(helper@)), op) {
            Some((p, a)) => r matches Ok(c) && c.program@ == p && c.args_view() == a,
            None => r matches Err(CredHelperError::InvalidHelper),
        },
{
    let line = command_line(helper);
    let words = split_words(line.as_str());
    command_from_words(words, op)
}

/// One exchange with the backing helper: the command to start, and what to
/// write to its input before reading its output.
pub struct HelperRun {
    pub command: HelperCommand,
    pub input: String,
}

/// Prepares a run of `helper` for `op` on `params`: the command, followed by
/// the block that `params` is written as.
pub fn run(helper: &str, op: Operation, params: &Params) -> (r: Result<HelperRun, CredHelperError>)
    ensures
        match command_of(shell_words(helper_command_line(helper@)), op) {
            Some((p, a)) => r matches Ok(h) && h.command.program@ == p && h.command.args_view() == a
                && h.input@ == serialized(params.pairs()),
            None => r matches Err(CredHelperError::InvalidHelper),
        },
{
    let command = helper_command(helper, op)?;
    let mut input = String::new();
    write_to(params, &mut input);
    Ok(HelperRun { command, input })
}

/// What the helper's exit code and output mean: on exit code 0 the set it
/// printed; on any other the code and what could be read of its output.
pub fn finish(exit_code: Option<i32>, output: &str) -> (r: Result<Params, CredHelperError>)
    ensures
        match exit_code {
            Some(0i32) => match parsed(output@) {
                Ok(m) => r matches Ok(p) && p.wf() && p@ == m,
                Err(line) => r matches Err(CredHelperError::Malformed(e)) && e@ == line,
            },
            _ => match r {
                Err(CredHelperError::Non0ExitCode(code, out)) => {
                    &&& code == (match exit_code {
                        Some(c) => c,
                        None => 0i32,
                    })
                    &&& match parsed(output@) {
                        Ok(m) => out matches Some(p) && p.wf() && p@ == m,
                        Err(_) => out is None,
                    }
                },
                _ => false,
            },
        },
{
    let result = parse_from(output);
    match exit_code {
        Some(0i32) => match result {
            Ok(p) => Ok(p),
            Err(e) => Err(CredHelperError::Malformed(e)),
        },
        _ => {
            let code = match exit_code {
                Some(c) => c,
                None => 0,
            };
            let out = match result {
                Ok(p) => Some(p),
                Err(_) => None,
            };
            Err(CredHelperError::Non0ExitCode(code, out))
        },
    }
}

} // verus!
