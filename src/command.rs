//! Resolved commands, their execution strategies and pipe roles, and the
//! error types of the command pipeline.
use vstd::prelude::*;
use crate::tokenizer::{copy_strings, views};

verus! {

/// How a command is to be executed.
#[derive(Debug, Clone, Copy, PartialEq, Eq, Structural)]
pub enum ExecStrategy {
    /// Run in-process by the shell itself.
    Builtin,
    /// Found in the executable index; the name is the indexed path.
    PathCommand,
    /// Given as an absolute path.
    AbsolutePathCommand,
    /// Not found anywhere.
    Undefined,
    /// Given as a path relative to the working directory.
    SlashCommand,
}

/// The position of a command in a pipe chain.
#[derive(Debug, Clone, Copy, PartialEq, Eq, Structural)]
pub enum PipeType {
    /// The last stage: reads the previous stage's output.
    ReceivesInput,
    /// The first stage: its output feeds the next stage.
    PassesOutput,
    /// An interior stage: both.
    OutAndInput,
    /// Not part of a pipe chain.
    Undefined,
}

/// The exit status of a command.
#[derive(Debug, Clone, Copy, PartialEq, Eq, Structural)]
pub struct ExitStatus {
    pub code: i32,
}

/// One resolved, executable unit.
#[derive(Debug, PartialEq)]
pub struct Command {
    pub command_name: String,
    pub arguments: Vec<String>,
    pub strategy: ExecStrategy,
    pub pipe_type: PipeType,
}

/// What a command is, as plain values.
pub struct CommandView {
    pub name: Seq<char>,
    pub arguments: Seq<Seq<char>>,
    pub strategy: ExecStrategy,
    pub pipe_type: PipeType,
}

impl View for Command {
    type V = CommandView;

    open spec fn view(&self) -> CommandView {
        CommandView {
            name: self.command_name@,
            arguments: views(self.arguments@),
            strategy: self.strategy,
            pipe_type: self.pipe_type,
        }
    }
}

/// The views of a sequence of commands.
pub open spec fn command_views(v: Seq<Command>) -> Seq<CommandView> {
    v.map_values(|c: Command| c@)
}

/// `words` joined with single spaces.
pub open spec fn join_words(words: Seq<Seq<char>>) -> Seq<char>
    decreases words.len(),
{
    if words.len() == 0 {
        seq![]
    } else if words.len() == 1 {
        words[0]
    } else {
        join_words(words.drop_last()) + seq![' '] + words.last()
    }
}

impl Command {
    /// The command line that this command stands for: its name and its
    /// arguments, separated by single spaces.
    pub fn to_str(&self) -> (r: String)
        ensures
            r@ == join_words(seq![self@.name] + self@.arguments),
    {
        let ghost words = seq![self@.name] + self@.arguments;
        let mut r = self.command_name.clone();
        let mut i: usize = 0;
        proof {
            assert(words.take(1) =~= seq![self@.name]);
        }
        while i < self.arguments.len()
            invariant
                words == seq![self@.name] + self@.arguments,
                0 <= i <= self.arguments@.len(),
                r@ == join_words(words.take(i + 1)),
            decreases self.arguments@.len() - i,
        {
            proof {
                assert(words.take(i + 2).drop_last() =~= words.take(i + 1));
                assert(words.take(i + 2).last() == self.arguments@[i as int]@);
            }
            r.append(" ");
            r.append(self.arguments[i].as_str());
            proof {
                reveal_strlit(" ");
            }
            i = i + 1;
        }
        proof {
            assert(words.take(i + 1) =~= words);
        }
        r
    }
}

impl Command {
    /// A copy of this command.
    pub fn duplicate(&self) -> (r: Command)
        ensures
            r@ == self@,
    {
        Command {
            command_name: self.command_name.clone(),
            arguments: copy_strings(&self.arguments),
            strategy: self.strategy,
            pipe_type: self.pipe_type,
        }
    }

    /// Settles the name of a command given by a relative path: it becomes
    /// the canonical path where the path exists, and the command is
    /// undefined where it does not. Any other command is left as it is.
    pub fn with_canonical_name(self, canonical: Option<String>) -> (r: Command)
        ensures
            self.strategy != ExecStrategy::SlashCommand ==> r@ == self@,
            self.strategy == ExecStrategy::SlashCommand ==> match canonical {
                Some(p) => r@ == CommandView {
                    name: p@,
                    arguments: self@.arguments,
                    strategy: self.strategy,
                    pipe_type: self.pipe_type,
                },
                None => r@ == CommandView {
                    name: self@.name,
                    arguments: self@.arguments,
                    strategy: ExecStrategy::Undefined,
                    pipe_type: self.pipe_type,
                },
            },
    {
        if self.strategy != ExecStrategy::SlashCommand {
            return self;
        }
        match canonical {
            Some(p) => Command {
                command_name: p,
                arguments: self.arguments,
                strategy: self.strategy,
                pipe_type: self.pipe_type,
            },
            None => Command {
                command_name: self.command_name,
                arguments: self.arguments,
                strategy: ExecStrategy::Undefined,
                pipe_type: self.pipe_type,
            },
        }
    }
}

impl Default for Command {
    fn default() -> (r: Command)
        ensures
            r@.name.len() == 0,
            r@.arguments.len() == 0,
            r.strategy == ExecStrategy::Undefined,
            r.pipe_type == PipeType::Undefined,
    {
        Command {
            command_name: String::new(),
            arguments: Vec::new(),
            strategy: ExecStrategy::Undefined,
            pipe_type: PipeType::Undefined,
        }
    }
}

/// An error of a builtin command.
#[derive(Debug)]
pub struct BuiltinError {
    pub kind: String,
    pub message: String,
}

/// An error of the command pipeline, shown as one diagnostic line.
#[derive(Debug)]
pub struct CommandError {
    pub kind: String,
    pub message: String,
}

impl From<BuiltinError> for CommandError {
    fn from(error: BuiltinError) -> (r: CommandError) {
        CommandError { kind: error.kind, message: error.message }
    }
}

impl vstd::std_specs::convert::FromSpecImpl<BuiltinError> for CommandError {
    open spec fn obeys_from_spec() -> bool {
        true
    }

    open spec fn from_spec(error: BuiltinError) -> CommandError {
        CommandError { kind: error.kind, message: error.message }
    }
}

/// `kind: <kind>, msg: <message>`.
pub open spec fn diagnostic(kind: Seq<char>, message: Seq<char>) -> Seq<char> {
    "kind: "@ + kind + ", msg: "@ + message
}

/// The diagnostic line for `kind` and `message`.
fn diagnostic_line(kind: &String, message: &String) -> (r: String)
    ensures
        r@ == diagnostic(kind@, message@),
{
    let mut r = String::from_str("kind: ");
    r.append(kind.as_str());
    r.append(", msg: ");
    r.append(message.as_str());
    r
}

impl CommandError {
    /// A copy of this error.
    pub fn duplicate(&self) -> (r: CommandError)
        ensures
            r.kind@ == self.kind@,
            r.message@ == self.message@,
    {
        CommandError { kind: self.kind.clone(), message: self.message.clone() }
    }

    /// The diagnostic line: `kind: <kind>, msg: <message>`.
    pub fn to_message(&self) -> (r: String)
        ensures
            r@ == diagnostic(self.kind@, self.message@),
    {
        diagnostic_line(&self.kind, &self.message)
    }
}

impl BuiltinError {
    /// The diagnostic line: `kind: <kind>, msg: <message>`.
    pub fn to_message(&self) -> (r: String)
        ensures
            r@ == diagnostic(self.kind@, self.message@),
    {
        diagnostic_line(&self.kind, &self.message)
    }
}

} // verus!
