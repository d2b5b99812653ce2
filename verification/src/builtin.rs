//! The commands that the shell runs itself, and the codes of their errors.

use vstd::prelude::*;
use crate::command::{Command, CommandKind, CommandView};
use crate::semantics::{eval_builtin, failure_value, too_many_arguments, unexpected_reply};
use crate::system::{agrees, Action, Failure, FailureKind, Reply, Step, StepView};
use crate::text::same_text;
use crate::typesystem::{Type, TypeView};

verus! {

/// A command that the shell runs itself.
#[derive(Debug, PartialEq, Eq, Clone, Copy, Structural)]
pub enum Builtin {
    Cd,
    Exit,
    Ls,
    Pwd,
}

/// Why a builtin or a process failed.
#[derive(Debug, PartialEq, Eq, Clone, Copy, Structural)]
pub enum BuiltinExitCode {
    TooManyArguments,
    FileNotFound,
    PermissionDenied,
    UnknownError,
}

impl BuiltinExitCode {
    /// The number that stands for this failure.
    pub open spec fn spec_code(self) -> i32 {
        match self {
            BuiltinExitCode::TooManyArguments => 1,
            BuiltinExitCode::FileNotFound => 50,
            BuiltinExitCode::PermissionDenied => 100,
            BuiltinExitCode::UnknownError => 200,
        }
    }

    /// The number that stands for this failure.
    #[verifier::when_used_as_spec(spec_code)]
    pub fn code(self) -> (code: i32)
        ensures
            code == self.spec_code(),
    {
        match self {
            BuiltinExitCode::TooManyArguments => 1,
            BuiltinExitCode::FileNotFound => 50,
            BuiltinExitCode::PermissionDenied => 100,
            BuiltinExitCode::UnknownError => 200,
        }
    }
}

/// The builtin that a name stands for, if it is one of the four reserved names.
pub open spec fn builtin_of(name: Seq<char>) -> Option<Builtin> {
    if name == "cd"@ {
        Some(Builtin::Cd)
    } else if name == "exit"@ {
        Some(Builtin::Exit)
    } else if name == "ls"@ {
        Some(Builtin::Ls)
    } else if name == "pwd"@ {
        Some(Builtin::Pwd)
    } else {
        None
    }
}

/// The builtin that `name` stands for, if it is one of the four reserved names.
pub fn find_builtin(name: &str) -> (found: Option<Builtin>)
    ensures
        found == builtin_of(name@),
{
    if same_text(name, "cd") {
        Some(Builtin::Cd)
    } else if same_text(name, "exit") {
        Some(Builtin::Exit)
    } else if same_text(name, "ls") {
        Some(Builtin::Ls)
    } else if same_text(name, "pwd") {
        Some(Builtin::Pwd)
    } else {
        None
    }
}

/// Names that may stand for a builtin.
pub trait BuiltinExt {
    /// The characters of the name.
    spec fn name(&self) -> Seq<char>;

    /// Whether the name is one of the four reserved names.
    fn is_builtin(&self) -> (reserved: bool)
        ensures
            reserved == builtin_of(self.name()) is Some,
    ;

    /// The builtin that the name stands for.
    fn get_builtin(&self) -> (builtin: Builtin)
        requires
            builtin_of(self.name()) is Some,
        ensures
            Some(builtin) == builtin_of(self.name()),
    ;
}

impl BuiltinExt for &str {
    open spec fn name(&self) -> Seq<char> {
        self@
    }

    fn is_builtin(&self) -> (reserved: bool) {
        find_builtin(*self).is_some()
    }

    fn get_builtin(&self) -> (builtin: Builtin) {
        find_builtin(*self).unwrap()
    }
}

impl BuiltinExt for String {
    open spec fn name(&self) -> Seq<char> {
        self@
    }

    fn is_builtin(&self) -> (reserved: bool) {
        find_builtin(self.as_str()).is_some()
    }

    fn get_builtin(&self) -> (builtin: Builtin) {
        find_builtin(self.as_str()).unwrap()
    }
}

/// The error value that a failure of the operating system becomes: its
/// message, with the code of its kind.
pub fn handle_builtin_error(failure: &Failure) -> (value: Type)
    ensures
        value@ == failure_value(failure@),
{
    Type::Error {
        message: failure.message.clone(),
        code: match failure.kind {
            FailureKind::NotFound => BuiltinExitCode::FileNotFound.code(),
            FailureKind::PermissionDenied => BuiltinExitCode::PermissionDenied.code(),
            FailureKind::Other => BuiltinExitCode::UnknownError.code(),
        },
    }
}

/// The error value of a builtin that is given more arguments than it takes.
pub fn too_many_arguments_error() -> (value: Type)
    ensures
        value@ == too_many_arguments(),
{
    Type::Error {
        message: "Too many arguments".to_owned(),
        code: BuiltinExitCode::TooManyArguments.code(),
    }
}

/// The error value of a reply that does not answer the action that was taken.
pub fn unexpected_reply_error() -> (value: Type)
    ensures
        value@ == unexpected_reply(),
{
    Type::Error { message: "Unexpected reply".to_owned(), code: BuiltinExitCode::UnknownError.code() }
}

impl Command {
    /// Where a builtin stands: see [`Command::run_from`]. `exit` asks
    /// for the end of the shell, whatever the replies. A node that is no
    /// builtin has nothing to run: its value is null.
    pub fn run_builtin(&self, replies: &Vec<Reply>, at: usize) -> (progress: (Step, usize))
        requires
            self@.takes_literals(),
        ensures
            self@ matches CommandView::Builtin { builtin, args } ==> agrees(
                progress,
                eval_builtin(builtin, args, replies.deep_view(), at as int),
            ),
            !(self@ is Builtin) ==> progress.0@ == StepView::Finished(TypeView::Null)
                && progress.1 == at,
    {
        match &self.kind {
            CommandKind::Builtin { builtin, .. } => match builtin {
                Builtin::Cd => self.run_cd(replies, at),
                Builtin::Exit => (Step::Pending(Action::Exit), at),
                Builtin::Ls => self.run_ls(replies, at),
                Builtin::Pwd => self.run_pwd(replies, at),
            },
            _ => (Step::Finished(Type::Null), at),
        }
    }
}

} // verus!
