//! Where the output of a benchmark comes from: a command that is to be
//! run, or text that was piped in.

use vstd::prelude::*;
use crate::cli::CliRunCommand;
use crate::collect::RunOutput;

verus! {

/// Why the options of the `run` command cannot be used.
#[derive(Debug, Clone, Copy, PartialEq, Eq, Structural)]
pub enum CliError {
    /// There is no benchmark command and nothing was piped in.
    NoCommand,
    /// A `git` hash was given together with the wish for none.
    HashConflict,
    /// A start point hash was given without a start point.
    StartPointHashAlone,
    /// A CI option was given without the CI token.
    CiOptionAlone,
}

/// Harness output that was piped in.
#[derive(Debug, Clone, PartialEq, Eq)]
pub struct Pipe {
    pub input: Vec<u8>,
}

/// A benchmark command: one word or more, with the shell that the options
/// name for it.
#[derive(Debug, PartialEq, Eq)]
pub struct Command {
    shell: Option<String>,
    flag: Option<String>,
    executable: bool,
    words: Vec<String>,
}

/// Where the output of a benchmark comes from.
#[derive(Debug, PartialEq, Eq)]
pub enum Runner {
    Pipe(Pipe),
    Command(Command),
}

/// The shell that runs shell commands where the options name none, and the
/// flag that makes it take a command.
#[derive(Debug, Clone, PartialEq, Eq)]
pub struct Shell {
    pub path: String,
    pub flag: String,
}

/// A program and its arguments.
#[derive(Debug, PartialEq, Eq)]
pub struct Invocation {
    pub program: String,
    pub arguments: Vec<String>,
}

/// What it takes to get the output of one iteration.
#[derive(Debug, PartialEq, Eq)]
pub enum Execution {
    /// Nothing: this is the output.
    Ready(RunOutput),
    /// This program is to be run.
    Spawn(Invocation),
}

/// The string that was given, or else the default.
pub open spec fn given_or(given: Option<String>, default: String) -> String {
    match given {
        Some(given) => given,
        None => default,
    }
}

impl Command {
    #[verifier::type_invariant]
    spec fn well_formed(self) -> bool {
        self.words@.len() > 0
    }

    /// The shell that the options name.
    pub closed spec fn shell(self) -> Option<String> {
        self.shell
    }

    /// The shell flag that the options name.
    pub closed spec fn flag(self) -> Option<String> {
        self.flag
    }

    /// Whether the command is to be run as an executable in any case.
    pub closed spec fn executable(self) -> bool {
        self.executable
    }

    /// The words of the command.
    pub closed spec fn words(self) -> Seq<String> {
        self.words@
    }

    /// Whether the command is run as an executable rather than by a shell:
    /// where the options say so, and where it has more than one word.
    pub open spec fn direct(self) -> bool {
        self.executable() || self.words().len() > 1
    }

    /// The program that runs the command, and its arguments: the first word
    /// and the others, or else the shell, its flag and the only word.
    pub open spec fn invocation(self, default: Shell) -> (String, Seq<String>) {
        if self.direct() {
            (self.words()[0], self.words().skip(1))
        } else {
            (
                given_or(self.shell(), default.path),
                seq![given_or(self.flag(), default.flag), self.words()[0]],
            )
        }
    }

    fn invoke(&self, default: &Shell) -> (invocation: Invocation)
        ensures
            (invocation.program, invocation.arguments@) == self.invocation(*default),
    {
        proof {
            use_type_invariant(self);
        }
        if self.executable || self.words.len() > 1 {
            let mut arguments: Vec<String> = Vec::new();
            let mut i: usize = 1;
            while i < self.words.len()
                invariant
                    1 <= i <= self.words.len(),
                    arguments@ == self.words@.subrange(1, i as int),
                decreases self.words.len() - i,
            {
                arguments.push(self.words[i].clone());
                assert(arguments@ =~= self.words@.subrange(1, i + 1));
                i += 1;
            }
            assert(arguments@ =~= self.words@.skip(1));
            Invocation { program: self.words[0].clone(), arguments }
        } else {
            let program = match &self.shell {
                Some(shell) => shell.clone(),
                None => default.path.clone(),
            };
            let flag = match &self.flag {
                Some(flag) => flag.clone(),
                None => default.flag.clone(),
            };
            let arguments = vec![flag, self.words[0].clone()];
            assert(arguments@ =~= seq![given_or(self.flag(), default.flag), self.words()[0]]);
            Invocation { program, arguments }
        }
    }
}

impl Runner {
    /// The runner that the options ask for: the command of the options, or
    /// else the command that the environment names, or else what was piped
    /// in. A command without a word counts as none.
    pub fn try_from(
        command: CliRunCommand,
        from_environment: Option<String>,
        piped: Option<Vec<u8>>,
    ) -> (runner: Result<Runner, CliError>)
        ensures
            match runner {
                Ok(Runner::Command(made)) => {
                    &&& made.shell() == command.sh_c.shell
                    &&& made.flag() == command.sh_c.flag
                    &&& made.executable() == command.executable
                    &&& if command.command is Some && command.command.unwrap()@.len() > 0 {
                        made.words() == command.command.unwrap()@
                    } else {
                        from_environment is Some && made.words() == seq![from_environment.unwrap()]
                    }
                },
                Ok(Runner::Pipe(pipe)) => {
                    &&& !(command.command is Some && command.command.unwrap()@.len() > 0)
                    &&& from_environment is None
                    &&& piped == Some(pipe.input)
                },
                Err(error) => {
                    &&& error is NoCommand
                    &&& !(command.command is Some && command.command.unwrap()@.len() > 0)
                    &&& from_environment is None
                    &&& piped is None
                },
            },
    {
        let CliRunCommand { sh_c, executable, command } = command;
        if let Some(words) = command {
            if words.len() > 0 {
                return Ok(
                    Runner::Command(Command { shell: sh_c.shell, flag: sh_c.flag, executable, words }),
                );
            }
        }
        if let Some(word) = from_environment {
            let words = vec![word];
            assert(words@ =~= seq![word]);
            return Ok(
                Runner::Command(Command { shell: sh_c.shell, flag: sh_c.flag, executable, words }),
            );
        }
        match piped {
            Some(input) => Ok(Runner::Pipe(Pipe { input })),
            None => Err(CliError::NoCommand),
        }
    }

    /// What it takes to get the output of one iteration: what was piped in
    /// is the output of a successful iteration as it stands; a command is to
    /// be run.
    pub fn run(&self, default: &Shell) -> (execution: Execution)
        ensures
            match *self {
                Runner::Pipe(pipe) => execution matches Execution::Ready(output)
                    && output.success && output.text@ == pipe.input@,
                Runner::Command(command) => execution matches Execution::Spawn(invocation) && (
                    invocation.program,
                    invocation.arguments@,
                ) == command.invocation(*default),
            },
    {
        match self {
            Runner::Pipe(pipe) => Execution::Ready(
                RunOutput { success: true, text: pipe.input.clone() },
            ),
            Runner::Command(command) => Execution::Spawn(command.invoke(default)),
        }
    }
}

} // verus!
