//! Redirects: the value of a command is written to a file.

use vstd::prelude::*;
use crate::builtin::{handle_builtin_error, unexpected_reply_error};
use crate::command::{Command, CommandKind};
use crate::semantics::{eval_write, evaluate};
use crate::system::{agrees, reply_at, Action, Reply, Step};
use crate::typesystem::Type;

verus! {

/// The last part of a redirect: the bare text of `source` is written to
/// the file that `destination` names. A destination that cannot name a
/// file is reported to the user instead. Either way the value is null,
/// unless the file cannot be written.
pub fn write_file(source: &Type, destination: &Type, replies: &Vec<Reply>, at: usize) -> (progress: (
    Step,
    usize,
))
    ensures
        agrees(progress, eval_write(source@, destination@, replies.deep_view(), at as int)),
{
    let shaped = destination.is_path_shaped();
    match reply_at(replies, at) {
        None => {
            let action = if shaped {
                Action::WriteFile {
                    path: destination.to_undecorated_string(),
                    contents: source.to_undecorated_string(),
                }
            } else {
                Action::Report { message: "Redirect destination is not a path".to_owned() }
            };
            (Step::Pending(action), at)
        },
        Some(Reply::Done) => (Step::Finished(Type::Null), at + 1),
        Some(Reply::Failed(failure)) => if shaped {
            (Step::Finished(handle_builtin_error(failure)), at + 1)
        } else {
            (Step::Finished(unexpected_reply_error()), at + 1)
        },
        Some(_) => (Step::Finished(unexpected_reply_error()), at + 1),
    }
}

/// Where a redirect stands: the source is evaluated first, then the
/// destination, and then the bare text of the first is written to the
/// file that the second names.
pub fn run(command: &Command, replies: &Vec<Reply>, at: usize) -> (progress: (Step, usize))
    requires
        command@ is Redirect,
        command@.has_literal_arguments(),
    ensures
        agrees(progress, evaluate(command@, None, replies.deep_view(), at as int)),
    decreases command, 0int,
{
    match &command.kind {
        CommandKind::Redirect { source, destination } => {
            let (first, next) = source.run_from(None, replies, at);
            match first {
                Step::Pending(action) => (Step::Pending(action), next),
                Step::Finished(value) => {
                    let (second, after) = destination.run_from(None, replies, next);
                    match second {
                        Step::Pending(action) => (Step::Pending(action), after),
                        Step::Finished(target) => write_file(&value, &target, replies, after),
                    }
                },
            }
        },
        _ => (Step::Finished(Type::Null), at),
    }
}

} // verus!
