//! Tool invocations as data: what to run, what to feed it, and what to make
//! of how it ended.

use crate::error::Error;
use crate::text::texts;
use vstd::prelude::*;
use vstd::string::*;

verus! {

/// One invocation of a tool.
#[derive(Debug, PartialEq, Eq)]
pub struct Command {
    /// The program to start.
    pub program: String,
    /// Its arguments, in order.
    pub args: Vec<String>,
    /// What to write to its standard input, if anything. Secrets travel this
    /// way and never as arguments.
    pub stdin: Option<String>,
}

/// The content of a `Command`.
pub struct CommandView {
    pub program: Seq<char>,
    pub args: Seq<Seq<char>>,
    pub stdin: Option<Seq<char>>,
}

/// The characters of a text that may be absent.
pub open spec fn text_option(text: Option<String>) -> Option<Seq<char>> {
    match text {
        Some(s) => Some(s@),
        None => None,
    }
}

impl View for Command {
    type V = CommandView;

    open spec fn view(&self) -> CommandView {
        CommandView {
            program: self.program@,
            args: texts(self.args@),
            stdin: text_option(self.stdin),
        }
    }
}

/// The content of each command of a list.
pub open spec fn commands_view(list: Seq<Command>) -> Seq<CommandView> {
    list.map_values(|c: Command| c@)
}

impl Command {
    /// An invocation of `program` without arguments.
    pub fn new(program: &str) -> (r: Command)
        ensures
            r@ == (CommandView { program: program@, args: Seq::empty(), stdin: None }),
    {
        let args: Vec<String> = Vec::new();
        assert(texts(args@) =~= Seq::empty());
        Command { program: String::from_str(program), args, stdin: None }
    }

    /// Adds the argument `arg`.
    pub fn arg(&mut self, arg: &str)
        ensures
            final(self)@ == (CommandView { args: old(self)@.args.push(arg@), ..old(self)@ }),
    {
        let ghost before = self.args@;
        self.args.push(String::from_str(arg));
        assert(texts(self.args@) =~= texts(before).push(arg@));
    }

    /// Adds the argument `arg`.
    pub fn arg_owned(&mut self, arg: String)
        ensures
            final(self)@ == (CommandView { args: old(self)@.args.push(arg@), ..old(self)@ }),
    {
        let ghost before = self.args@;
        self.args.push(arg);
        assert(texts(self.args@) =~= texts(before).push(arg@));
    }

    /// Has `input` written to the standard input of the program.
    pub fn feed(&mut self, input: String)
        ensures
            final(self)@ == (CommandView { stdin: Some(input@), ..old(self)@ }),
    {
        self.stdin = Some(input);
    }
}

/// How an invocation ended.
#[derive(Debug, PartialEq, Eq)]
pub enum Exit {
    /// The program could not be started, or its output could not be
    /// collected.
    NotStarted,
    /// The program ended with a failure status.
    Failed { code: Option<i32> },
    /// The program ended well, having printed `stdout`.
    Success { stdout: Vec<u8> },
}

/// An invocation counts only if the program ran and ended well.
pub fn check_run(exit: &Exit) -> (r: Result<(), Error>)
    ensures
        exit is Success ==> r is Ok,
        !(exit is Success) ==> r == Err::<(), Error>(Error::ToolInvocation),
{
    match exit {
        Exit::Success { .. } => Ok(()),
        _ => Err(Error::ToolInvocation),
    }
}

/// What the program printed, if it ran and ended well.
pub fn check_stdout(exit: Exit) -> (r: Result<Vec<u8>, Error>)
    ensures
        exit is Success ==> r == Ok::<Vec<u8>, Error>(exit->stdout),
        !(exit is Success) ==> r == Err::<Vec<u8>, Error>(Error::ToolInvocation),
{
    match exit {
        Exit::Success { stdout } => Ok(stdout),
        _ => Err(Error::ToolInvocation),
    }
}

} // verus!
