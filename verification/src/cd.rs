//! `cd`: changing the working directory.

use vstd::prelude::*;
use crate::builtin::{handle_builtin_error, too_many_arguments_error, unexpected_reply_error};
use crate::command::{Command, UNKNOWN_ERROR_CODE};
use crate::semantics::{eval_cd, eval_change_dir, no_home_directory};
use crate::system::{agrees, reply_at, Action, Reply, Step};
use crate::typesystem::Type;

verus! {

/// The code of the error of `cd` where the user has no home directory.
pub const HOME_DIR_NOT_FOUND: i32 = 25;

impl Command {
    /// Changing the working directory to `path`: nothing if it succeeds,
    /// the error of the failure if it fails.
    fn set_dir(&self, path: &String, replies: &Vec<Reply>, at: usize) -> (progress: (Step, usize))
        ensures
            agrees(progress, eval_change_dir(path@, replies.deep_view(), at as int)),
    {
        match reply_at(replies, at) {
            None => (Step::Pending(Action::ChangeDir { path: path.clone() }), at),
            Some(Reply::Done) => (Step::Finished(Type::Null), at + 1),
            Some(Reply::Failed(failure)) => (Step::Finished(handle_builtin_error(failure)), at + 1),
            Some(_) => (Step::Finished(unexpected_reply_error()), at + 1),
        }
    }

    /// Changing the working directory to the home directory of the user.
    fn set_home_dir(&self, replies: &Vec<Reply>, at: usize) -> (progress: (Step, usize))
        requires
            self@.arguments().len() == 0,
        ensures
            agrees(progress, eval_cd(self@.arguments(), replies.deep_view(), at as int)),
    {
        match reply_at(replies, at) {
            None => (Step::Pending(Action::FindHome), at),
            Some(Reply::Home(Some(home))) => self.set_dir(home, replies, at + 1),
            Some(Reply::Home(None)) => {
                let value = Type::Error {
                    message: "Could not find home directory".to_owned(),
                    code: HOME_DIR_NOT_FOUND,
                };
                assert(value@ == no_home_directory());
                (Step::Finished(value), at + 1)
            },
            Some(Reply::Failed(failure)) => (
                Step::Finished(
                    Type::Error { message: failure.message.clone(), code: UNKNOWN_ERROR_CODE },
                ),
                at + 1,
            ),
            Some(_) => (Step::Finished(unexpected_reply_error()), at + 1),
        }
    }

    /// Where `cd` stands: without arguments it goes to the home
    /// directory, with one to the directory that it names; with more it
    /// is an error, and nothing is asked of the system.
    pub fn run_cd(&self, replies: &Vec<Reply>, at: usize) -> (progress: (Step, usize))
        requires
            self@.takes_literals(),
        ensures
            agrees(progress, eval_cd(self@.arguments(), replies.deep_view(), at as int)),
    {
        let args = self.get_args();
        if args.len() == 0 {
            self.set_home_dir(replies, at)
        } else if args.len() == 1 {
            assert(args@[0]@ == self@.arguments()[0]);
            let path = args[0].run_as_arg();
            self.set_dir(&path, replies, at)
        } else {
            (Step::Finished(too_many_arguments_error()), at)
        }
    }
}

} // verus!
