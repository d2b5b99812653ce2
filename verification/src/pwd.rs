//! `pwd`: the working directory.

use vstd::prelude::*;
use crate::builtin::{handle_builtin_error, too_many_arguments_error, unexpected_reply_error};
use crate::command::Command;
use crate::semantics::eval_pwd;
use crate::system::{agrees, reply_at, Action, Reply, Step};
use crate::typesystem::Type;

verus! {

impl Command {
    /// Where `pwd` stands: it gives the working directory, shown by its
    /// whole path; with any argument it is an error, and nothing is asked
    /// of the system.
    pub fn run_pwd(&self, replies: &Vec<Reply>, at: usize) -> (progress: (Step, usize))
        ensures
            agrees(progress, eval_pwd(self@.arguments(), replies.deep_view(), at as int)),
    {
        let args = self.get_args();
        if args.len() > 0 {
            return (Step::Finished(too_many_arguments_error()), at);
        }
        match reply_at(replies, at) {
            None => (Step::Pending(Action::CurrentDir), at),
            Some(Reply::Directory(entry)) => (
                Step::Finished(
                    Type::File {
                        path: entry.path.clone(),
                        full_path: true,
                        status: entry.status.clone(),
                    },
                ),
                at + 1,
            ),
            Some(Reply::Failed(failure)) => (Step::Finished(handle_builtin_error(failure)), at + 1),
            Some(_) => (Step::Finished(unexpected_reply_error()), at + 1),
        }
    }
}

} // verus!
