//! The configured daemon command and the command lines built from it.

use crate::error::{Error, ErrorKind};
use crate::text::words;
use vstd::prelude::*;

verus! {

/// A program and its arguments, ready to be launched.
///
/// Its view is the whole argument vector: the program first, then each
/// argument in order.
#[derive(Debug)]
pub struct CommandLine {
    pub program: String,
    pub args: Vec<String>,
}

impl View for CommandLine {
    type V = Seq<Seq<char>>;

    open spec fn view(&self) -> Seq<Seq<char>> {
        seq![self.program@] + words(self.args@)
    }
}

impl CommandLine {
    /// The same command line with `arg` added as its last argument.
    pub fn arg(self, arg: &str) -> (line: CommandLine)
        ensures
            line@ == self@.push(arg@),
    {
        let mut line = self;
        line.args.push(arg.to_owned());
        assert(line@ =~= self@.push(arg@));
        line
    }
}

/// What the configuration file says: the command that reaches the daemon.
///
/// The first token is the program; the rest are arguments that every
/// invocation starts with.
#[derive(Clone, Debug)]
pub struct DmypylsConfig {
    pub dmypy_command: Vec<String>,
}

impl View for DmypylsConfig {
    type V = Seq<Seq<char>>;

    open spec fn view(&self) -> Seq<Seq<char>> {
        words(self.dmypy_command@)
    }
}

impl DmypylsConfig {
    /// The configured command as a command line of its own.
    ///
    /// Fails with `NoCommand` exactly when the configured token list is empty.
    pub fn command(&self) -> (result: Result<CommandLine, Error>)
        ensures
            self@.len() == 0 ==> result is Err && result->Err_0.kind == ErrorKind::NoCommand,
            self@.len() > 0 ==> result is Ok && result->Ok_0@ == self@,
    {
        if self.dmypy_command.len() == 0 {
            return Err(
                Error::with_kind(
                    ErrorKind::NoCommand,
                    "No dmypy command found (see dmypyls.yaml in README.md)",
                ),
            );
        }
        let program = self.dmypy_command[0].clone();
        let mut args: Vec<String> = Vec::new();
        let mut i: usize = 1;
        while i < self.dmypy_command.len()
            invariant
                1 <= i <= self.dmypy_command.len(),
                words(args@) == self@.subrange(1, i as int),
            decreases self.dmypy_command.len() - i,
        {
            let word = self.dmypy_command[i].clone();
            proof {
                assert(words(args@.push(word)) =~= words(args@).push(word@));
                assert(self@.subrange(1, i + 1) =~= self@.subrange(1, i as int).push(
                    self@[i as int],
                ));
            }
            args.push(word);
            i += 1;
        }
        let line = CommandLine { program, args };
        assert(line@ =~= self@);
        Ok(line)
    }

    /// The configuration to use when a project-level and a user-level
    /// configuration may each have been read: the project-level one if there
    /// is one, else the user-level one. The two are never merged.
    pub fn select(project: Option<DmypylsConfig>, user: Option<DmypylsConfig>) -> (result: Result<
        DmypylsConfig,
        Error,
    >)
        ensures
            project is Some ==> result == Ok::<DmypylsConfig, Error>(project.unwrap()),
            project is None && user is Some ==> result == Ok::<DmypylsConfig, Error>(
                user.unwrap(),
            ),
            project is None && user is None ==> result is Err && result->Err_0.kind
                == ErrorKind::Other,
    {
        match project {
            Some(config) => Ok(config),
            None => match user {
                Some(config) => Ok(config),
                None => Err(Error::from("No configuration found")),
            },
        }
    }
}

} // verus!
