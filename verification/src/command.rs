//! Turning the run command into a program and its arguments, and checking the program.

use vstd::prelude::*;
use crate::error::FyrError;

verus! {

/// A run command split into words: the program, then its arguments.
#[derive(Debug, PartialEq, Eq)]
pub struct ParsedCommand {
    pub cmd: String,
    pub args: Vec<String>,
}

/// The words that `shell_words::split` makes of `line`, or `None` where it refuses the line.
pub uninterp spec fn shell_split_of(line: Seq<char>) -> Option<Seq<Seq<char>>>;

/// Calls `shell_words::split`, which splits a line into words as a POSIX shell
/// does (quotes, backslash escapes, `#` comments). Claimed: an `Ok` result is
/// `Some` of its words, an error is `None`, and both are what `shell_split_of`
/// names for the line.
#[verifier::external_body]
fn split_words(line: &str) -> (r: Option<Vec<String>>)
    ensures
        r.deep_view() == shell_split_of(line@),
{
    shell_words::split(line).ok()
}

/// `r` is what the words `words` make as a command: an error when there is no
/// word, else the first word as the program and the rest as its arguments.
pub open spec fn command_of_words(words: Seq<Seq<char>>, r: Result<ParsedCommand, FyrError>) -> bool {
    if words.len() == 0 {
        r == Err::<ParsedCommand, FyrError>(FyrError::EmptyCommand)
    } else {
        &&& r is Ok
        &&& r->Ok_0.cmd@ == words[0]
        &&& r->Ok_0.args.deep_view() == words.drop_first()
    }
}

/// The command that a list of words makes: the first word is the program.
pub fn command_from_words(words: Vec<String>) -> (r: Result<ParsedCommand, FyrError>)
    ensures
        command_of_words(words.deep_view(), r),
{
    if words.len() == 0 {
        return Err(FyrError::EmptyCommand);
    }
    let mut rest = words;
    let cmd = rest.remove(0);
    assert(rest.deep_view() =~= words.deep_view().drop_first());
    Ok(ParsedCommand { cmd, args: rest })
}

/// Splits the run command into words as a shell does; the first is the program.
pub fn parse_command(run: &str) -> (r: Result<ParsedCommand, FyrError>)
    ensures
        match shell_split_of(run@) {
            None => r == Err::<ParsedCommand, FyrError>(FyrError::CommandParse),
            Some(words) => command_of_words(words, r),
        },
{
    match split_words(run) {
        None => Err(FyrError::CommandParse),
        Some(words) => command_from_words(words),
    }
}

/// Calls `which::which`, which looks for an executable of this name on the
/// search path (or at this path). Claimed: nothing; the answer depends on the
/// environment and the disk.
#[verifier::external_body]
fn found_on_path(program: &str) -> (found: bool) {
    which::which(program).is_ok()
}

/// What the check of a program gives, once it is known whether the program was found.
pub fn command_check(program: &String, found: bool) -> (r: Result<(), FyrError>)
    ensures
        found ==> r is Ok,
        !found ==> r == Err::<(), FyrError>(FyrError::CommandNotFound(*program)),
{
    if found {
        Ok(())
    } else {
        Err(FyrError::CommandNotFound(program.clone()))
    }
}

/// `r` is a result that the check of `program` may give: found, or not found.
pub open spec fn program_check_possible(program: String, r: Result<(), FyrError>) -> bool {
    r is Ok || r == Err::<(), FyrError>(FyrError::CommandNotFound(program))
}

/// Checks that the program of the command can be found on the search path.
pub fn validate_command(command: &ParsedCommand) -> (r: Result<(), FyrError>)
    ensures
        program_check_possible(command.cmd, r),
{
    let found = found_on_path(command.cmd.as_str());
    command_check(&command.cmd, found)
}

} // verus!
