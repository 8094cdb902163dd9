use vstd::prelude::*;

use crate::parser::{join_spaces, strings_view};
use crate::text::same_text;

verus! {

/// The commands that run inside the interpreter itself.
#[derive(Debug, Clone, Copy, PartialEq, Eq, Structural)]
pub enum BuiltinCommand {
    Exit,
    Echo,
    Type,
    Pwd,
    Cd,
}

impl BuiltinCommand {
    /// The literal name by which the command is invoked.
    pub open spec fn spec_name(self) -> Seq<char> {
        match self {
            BuiltinCommand::Exit => "exit"@,
            BuiltinCommand::Echo => "echo"@,
            BuiltinCommand::Type => "type"@,
            BuiltinCommand::Pwd => "pwd"@,
            BuiltinCommand::Cd => "cd"@,
        }
    }

    /// The builtin called `s`, if there is one (exact, case-sensitive).
    pub open spec fn lookup(s: Seq<char>) -> Option<BuiltinCommand> {
        if s == "exit"@ {
            Some(BuiltinCommand::Exit)
        } else if s == "echo"@ {
            Some(BuiltinCommand::Echo)
        } else if s == "type"@ {
            Some(BuiltinCommand::Type)
        } else if s == "pwd"@ {
            Some(BuiltinCommand::Pwd)
        } else if s == "cd"@ {
            Some(BuiltinCommand::Cd)
        } else {
            None
        }
    }

    pub fn from_str(s: &str) -> (r: Option<Self>)
        ensures
            r == Self::lookup(s@),
    {
        if same_text(s, "exit") {
            Some(BuiltinCommand::Exit)
        } else if same_text(s, "echo") {
            Some(BuiltinCommand::Echo)
        } else if same_text(s, "type") {
            Some(BuiltinCommand::Type)
        } else if same_text(s, "pwd") {
            Some(BuiltinCommand::Pwd)
        } else if same_text(s, "cd") {
            Some(BuiltinCommand::Cd)
        } else {
            None
        }
    }

    pub fn name(&self) -> (r: &'static str)
        ensures
            r@ == self.spec_name(),
    {
        match self {
            BuiltinCommand::Exit => "exit",
            BuiltinCommand::Echo => "echo",
            BuiltinCommand::Type => "type",
            BuiltinCommand::Pwd => "pwd",
            BuiltinCommand::Cd => "cd",
        }
    }
}

/// What running a builtin asks of the process that hosts the interpreter.
#[derive(Debug, Clone, PartialEq, Eq)]
pub enum BuiltinAction {
    /// Nothing is done.
    Nothing,
    /// The process ends with status 0.
    Exit,
    /// This line is written to standard output.
    Print(String),
    /// This name is searched for on `PATH`; `type_report` words the answer.
    LocatePath(String),
    /// The current working directory is written to standard output.
    PrintWorkingDir,
    /// The working directory changes to what `cd_destination` makes of this
    /// argument; on failure `cd_failure` words the error.
    ChangeDir(String),
}

/// The content of a `BuiltinAction`.
pub ghost enum ActionModel {
    Nothing,
    Exit,
    Print(Seq<char>),
    LocatePath(Seq<char>),
    PrintWorkingDir,
    ChangeDir(Seq<char>),
}

impl View for BuiltinAction {
    type V = ActionModel;

    open spec fn view(&self) -> ActionModel {
        match self {
            BuiltinAction::Nothing => ActionModel::Nothing,
            BuiltinAction::Exit => ActionModel::Exit,
            BuiltinAction::Print(t) => ActionModel::Print(t@),
            BuiltinAction::LocatePath(t) => ActionModel::LocatePath(t@),
            BuiltinAction::PrintWorkingDir => ActionModel::PrintWorkingDir,
            BuiltinAction::ChangeDir(t) => ActionModel::ChangeDir(t@),
        }
    }
}

/// What builtin `b` does with arguments `args` (the command name excluded).
pub open spec fn planned(b: BuiltinCommand, args: Seq<Seq<char>>) -> ActionModel {
    match b {
        BuiltinCommand::Exit => if args.len() > 0 && args[0] == "0"@ {
            ActionModel::Exit
        } else {
            ActionModel::Nothing
        },
        BuiltinCommand::Echo => ActionModel::Print(join_spaces(args)),
        BuiltinCommand::Type => if args.len() == 0 {
            ActionModel::Nothing
        } else {
            match BuiltinCommand::lookup(args[0]) {
                Some(named) => ActionModel::Print(named.spec_name() + " is a shell builtin"@),
                None => ActionModel::LocatePath(args[0]),
            }
        },
        BuiltinCommand::Pwd => ActionModel::PrintWorkingDir,
        BuiltinCommand::Cd => if args.len() == 0 {
            ActionModel::Nothing
        } else {
            ActionModel::ChangeDir(args[0])
        },
    }
}

/// Joins words with one space between neighbours.
pub fn join_with_spaces(words: &Vec<String>) -> (r: String)
    ensures
        r@ == join_spaces(strings_view(words@)),
{
    let ghost ws = strings_view(words@);
    let mut out = String::new();
    let mut k: usize = 0;
    while k < words.len()
        invariant
            ws == strings_view(words@),
            k <= words@.len(),
            out@ == join_spaces(ws.subrange(0, k as int)),
        decreases words@.len() - k,
    {
        proof {
            let next = ws.subrange(0, k as int + 1);
            assert(next.drop_last() =~= ws.subrange(0, k as int));
            if k == 0 {
                assert(join_spaces(Seq::<Seq<char>>::empty()) == Seq::<char>::empty());
            }
        }
        if k > 0 {
            out.append(" ");
            proof {
                reveal_strlit(" ");
            }
        }
        out.append(words[k].as_str());
        proof {
            if k == 0 {
                assert(out@ =~= join_spaces(ws.subrange(0, 1)));
            }
        }
        k = k + 1;
    }
    assert(ws.subrange(0, k as int) =~= ws);
    out
}

impl BuiltinCommand {
    /// Decides what the builtin does with `args` (the command name excluded).
    pub fn execute(&self, args: &Vec<String>) -> (r: BuiltinAction)
        ensures
            r@ == planned(*self, strings_view(args@)),
    {
        let ghost a = strings_view(args@);
        match self {
            BuiltinCommand::Exit => {
                if args.len() > 0 && same_text(args[0].as_str(), "0") {
                    BuiltinAction::Exit
                } else {
                    BuiltinAction::Nothing
                }
            },
            BuiltinCommand::Echo => BuiltinAction::Print(join_with_spaces(args)),
            BuiltinCommand::Type => {
                if args.len() == 0 {
                    BuiltinAction::Nothing
                } else {
                    match BuiltinCommand::from_str(args[0].as_str()) {
                        Some(named) => {
                            let mut line = String::from_str(named.name());
                            line.append(" is a shell builtin");
                            BuiltinAction::Print(line)
                        },
                        None => BuiltinAction::LocatePath(args[0].clone()),
                    }
                }
            },
            BuiltinCommand::Pwd => BuiltinAction::PrintWorkingDir,
            BuiltinCommand::Cd => {
                if args.len() == 0 {
                    BuiltinAction::Nothing
                } else {
                    BuiltinAction::ChangeDir(args[0].clone())
                }
            },
        }
    }
}

/// What `type` reports for a name that is no builtin: where the search of
/// `PATH` found it, or that it was not found.
pub fn type_report(target: &str, location: Option<String>) -> (r: String)
    ensures
        r@ == match location {
            Some(p) => target@ + " is "@ + p@,
            None => target@ + ": not found"@,
        },
{
    let mut line = String::from_str(target);
    match location {
        Some(p) => {
            line.append(" is ");
            line.append(p.as_str());
        },
        None => {
            line.append(": not found");
        },
    }
    line
}

/// The directory `cd` changes to: `~` stands for `home`, and for itself
/// when there is no home directory.
pub fn cd_destination(arg: &str, home: Option<String>) -> (r: String)
    ensures
        r@ == if arg@ == "~"@ {
            match home {
                Some(h) => h@,
                None => arg@,
            }
        } else {
            arg@
        },
{
    if same_text(arg, "~") {
        match home {
            Some(h) => h,
            None => String::from_str(arg),
        }
    } else {
        String::from_str(arg)
    }
}

/// The error line `cd` writes when the directory cannot be entered.
pub fn cd_failure(arg: &str) -> (r: String)
    ensures
        r@ == "cd: "@ + arg@ + ": No such file or directory"@,
{
    let mut line = String::from_str("cd: ");
    line.append(arg);
    line.append(": No such file or directory");
    line
}

/// Looking a builtin up by its own name gives that builtin back.
pub proof fn lemma_lookup_of_name(b: BuiltinCommand)
    ensures
        BuiltinCommand::lookup(b.spec_name()) == Some(b),
{
    reveal_strlit("exit");
    reveal_strlit("echo");
    reveal_strlit("type");
    reveal_strlit("pwd");
    reveal_strlit("cd");
    assert("echo"@ != "exit"@) by {
        assert("echo"@[1] != "exit"@[1]);
    }
    assert("type"@ != "exit"@ && "type"@ != "echo"@) by {
        assert("type"@[0] != "exit"@[0] && "type"@[0] != "echo"@[0]);
    }
    assert("pwd"@.len() == 3 && "cd"@.len() == 2 && "exit"@.len() == 4);
    assert("echo"@.len() == 4 && "type"@.len() == 4);
}

} // verus!
