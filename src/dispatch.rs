use vstd::prelude::*;

use crate::builtins::BuiltinCommand;
use crate::parser::{parse_arguments, parse_spec, redirect_view, strings_view, RedirectMode};

verus! {

/// How a line is to be executed.
pub enum Dispatch {
    /// The line holds no argument: nothing runs.
    Nothing,
    /// A builtin runs with these arguments and output targets.
    Builtin {
        command: BuiltinCommand,
        args: Vec<String>,
        stdout_redirect: Option<(String, RedirectMode)>,
        stderr_redirect: Option<(String, RedirectMode)>,
    },
    /// The program `name` is looked for on `PATH` and run with these
    /// arguments, its streams bound to the targets.
    External {
        name: String,
        args: Vec<String>,
        stdout_redirect: Option<(String, RedirectMode)>,
        stderr_redirect: Option<(String, RedirectMode)>,
    },
}

/// Parses a line and settles how it is executed: the first argument names
/// a builtin or an external program, the others are its arguments, and the
/// redirections go with it unchanged.
pub fn parse_and_execute(input: &str) -> (r: Dispatch)
    ensures
        ({
            let m = parse_spec(input@);
            if m.args.len() == 0 {
                r is Nothing
            } else {
                match r {
                    Dispatch::Nothing => false,
                    Dispatch::Builtin { command, args, stdout_redirect, stderr_redirect } => {
                        &&& BuiltinCommand::lookup(m.args[0]) == Some(command)
                        &&& strings_view(args@) == m.args.drop_first()
                        &&& redirect_view(stdout_redirect) == m.stdout_redirect
                        &&& redirect_view(stderr_redirect) == m.stderr_redirect
                    },
                    Dispatch::External { name, args, stdout_redirect, stderr_redirect } => {
                        &&& BuiltinCommand::lookup(m.args[0]) is None
                        &&& name@ == m.args[0]
                        &&& strings_view(args@) == m.args.drop_first()
                        &&& redirect_view(stdout_redirect) == m.stdout_redirect
                        &&& redirect_view(stderr_redirect) == m.stderr_redirect
                    },
                }
            }
        }),
{
    let parsed = parse_arguments(input);
    let mut args = parsed.args;
    if args.len() == 0 {
        return Dispatch::Nothing;
    }
    let ghost all = strings_view(args@);
    let name = args.remove(0);
    assert(strings_view(args@) =~= all.drop_first());
    match BuiltinCommand::from_str(name.as_str()) {
        Some(command) => Dispatch::Builtin {
            command,
            args,
            stdout_redirect: parsed.stdout_redirect,
            stderr_redirect: parsed.stderr_redirect,
        },
        None => Dispatch::External {
            name,
            args,
            stdout_redirect: parsed.stdout_redirect,
            stderr_redirect: parsed.stderr_redirect,
        },
    }
}

/// What is reported when no builtin and no program on `PATH` has the name.
pub fn command_not_found(name: &str) -> (r: String)
    ensures
        r@ == name@ + ": command not found"@,
{
    let mut line = String::from_str(name);
    line.append(": command not found");
    line
}

} // verus!
