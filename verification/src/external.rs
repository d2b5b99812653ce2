//! External commands: programs that the operating system runs.

use vstd::prelude::*;
use crate::builtin::{handle_builtin_error, unexpected_reply_error};
use crate::command::{argument_strings, lemma_arguments_view, Command, CommandKind, UNKNOWN_ERROR_CODE};
use crate::semantics::eval_external;
use crate::system::{agrees, input_view, reply_at, Action, Reply, Step};
use crate::typesystem::Type;

verus! {

impl Command {
    /// Where an external command stands. Without a reply it asks for the
    /// program to be run: the program is the name as it was written, the
    /// arguments are the bare texts of the literals, and the input is the
    /// bare text of the value that a pipe hands on, if there is one. The
    /// reply gives the value: the captured output, or an error.
    pub fn run_external(&self, input: Option<&Type>, replies: &Vec<Reply>, at: usize) -> (progress: (
        Step,
        usize,
    ))
        requires
            self@ is External,
            self@.takes_literals(),
        ensures
            agrees(
                progress,
                eval_external(
                    self@->External_name,
                    self@.arguments(),
                    input_view(input),
                    replies.deep_view(),
                    at as int,
                ),
            ),
    {
        match &self.kind {
            CommandKind::External { name, args } => {
                proof {
                    lemma_arguments_view(self);
                }
                match reply_at(replies, at) {
                    None => {
                        assert forall|i: int| 0 <= i < args@.len() implies (#[trigger] args@[i])@
                            .is_literal() by {
                            assert(self@.arguments()[i] == args@[i]@);
                        }
                        let texts = argument_strings(args);
                        let text = match input {
                            Some(value) => Some(value.to_undecorated_string()),
                            None => None,
                        };
                        (
                            Step::Pending(
                                Action::Spawn {
                                    program: name.value.clone(),
                                    args: texts,
                                    input: text,
                                },
                            ),
                            at,
                        )
                    },
                    Some(Reply::Output(output)) => (
                        Step::Finished(Type::Output(output.clone())),
                        at + 1,
                    ),
                    Some(Reply::Failed(failure)) => (
                        Step::Finished(handle_builtin_error(failure)),
                        at + 1,
                    ),
                    Some(Reply::InputFailed { message }) => (
                        Step::Finished(
                            Type::Error { message: message.clone(), code: UNKNOWN_ERROR_CODE },
                        ),
                        at + 1,
                    ),
                    Some(_) => (Step::Finished(unexpected_reply_error()), at + 1),
                }
            },
            _ => (Step::Finished(Type::Null), at),
        }
    }
}

} // verus!
