//! The builtin commands: which one a command calls, and with what, decided
//! from its arguments. Carrying the call out is the caller's work.
use vstd::prelude::*;
use crate::command::{BuiltinError, Command};
use crate::text::same_text;

verus! {

/// A builtin command, ready to be carried out.
#[derive(Debug, PartialEq)]
pub enum BuiltinCall {
    /// Change the working directory to this path.
    ChangeDir(String),
    /// Leave the shell.
    Quit,
    /// Print the value of this environment variable.
    PrintEnv(String),
    /// Define the alias with this key and this value.
    DefineAlias(String, String),
}

/// `r` is the error of kind `kind` with message `message`.
pub open spec fn fails_with(r: Result<BuiltinCall, BuiltinError>, kind: Seq<char>, message: Seq<char>) -> bool {
    r matches Err(e) && e.kind@ == kind && e.message@ == message
}

/// `r` is what a builtin command with name `name` and arguments `args`
/// comes to: the call it makes, or the error it ends with.
pub open spec fn builtin_result(
    r: Result<BuiltinCall, BuiltinError>,
    name: Seq<char>,
    args: Seq<Seq<char>>,
) -> bool {
    if name == "cd"@ {
        r matches Ok(BuiltinCall::ChangeDir(p)) && p@ == if args.len() > 0 {
            args[0]
        } else {
            "."@
        }
    } else if name == ":q"@ || name == "quit"@ {
        r matches Ok(BuiltinCall::Quit)
    } else if name == "penv"@ {
        if args.len() == 0 || args[0].len() == 0 {
            fails_with(r, "penv"@, "No variable name provided"@)
        } else {
            r matches Ok(BuiltinCall::PrintEnv(v)) && v@ == args[0]
        }
    } else if name == "alias"@ {
        if args.len() != 2 {
            fails_with(
                r,
                "alias"@,
                "Expected an alias key and an alias value: alias <key> <value>"@,
            )
        } else if args[0].len() == 0 {
            fails_with(r, "alias"@, "No alias key provided"@)
        } else {
            r matches Ok(BuiltinCall::DefineAlias(k, v)) && k@ == args[0] && v@ == args[1]
        }
    } else {
        fails_with(r, "builtins"@, "Could not find builtin '"@ + name + "'"@)
    }
}

/// Decides which builtin `command` calls: `cd` changes to its first argument
/// or to `.`; `:q` and `quit` leave; `penv` prints its first argument, which
/// must be given; `alias` takes exactly a non-empty key and a value.
pub fn builtin_call(command: &Command) -> (r: Result<BuiltinCall, BuiltinError>)
    ensures
        builtin_result(r, command@.name, command@.arguments),
{
    let name = command.command_name.as_str();
    let args = &command.arguments;
    proof {
        reveal_strlit("cd");
        reveal_strlit(".");
    }
    if same_text(name, "cd") {
        let target = if args.len() > 0 {
            args[0].clone()
        } else {
            String::from_str(".")
        };
        Ok(BuiltinCall::ChangeDir(target))
    } else if same_text(name, ":q") || same_text(name, "quit") {
        Ok(BuiltinCall::Quit)
    } else if same_text(name, "penv") {
        if args.len() == 0 || args[0].as_str().unicode_len() == 0 {
            proof {
                assert(args@.len() > 0 ==> command@.arguments[0] == args@[0]@);
            }
            Err(
                BuiltinError {
                    kind: String::from_str("penv"),
                    message: String::from_str("No variable name provided"),
                },
            )
        } else {
            Ok(BuiltinCall::PrintEnv(args[0].clone()))
        }
    } else if same_text(name, "alias") {
        if args.len() != 2 {
            Err(
                BuiltinError {
                    kind: String::from_str("alias"),
                    message: String::from_str(
                        "Expected an alias key and an alias value: alias <key> <value>",
                    ),
                },
            )
        } else if args[0].as_str().unicode_len() == 0 {
            Err(
                BuiltinError {
                    kind: String::from_str("alias"),
                    message: String::from_str("No alias key provided"),
                },
            )
        } else {
            let call = BuiltinCall::DefineAlias(args[0].clone(), args[1].clone());
            proof {
                assert(seq![args@[0]@, args@[1]@] =~= command@.arguments);
            }
            Ok(call)
        }
    } else {
        let mut message = String::from_str("Could not find builtin '");
        message.append(name);
        message.append("'");
        Err(BuiltinError { kind: String::from_str("builtins"), message })
    }
}

} // verus!
