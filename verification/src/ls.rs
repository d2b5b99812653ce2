//! `ls`: listing a directory.

use vstd::prelude::*;
use crate::builtin::{handle_builtin_error, too_many_arguments_error, unexpected_reply_error};
use crate::command::Command;
use crate::semantics::{entries_value, eval_list_dir, eval_ls};
use crate::system::{agrees, reply_at, Action, Entry, Reply, Step};
use crate::typesystem::{lemma_array_view, Type, TypeView};

verus! {

impl Command {
    /// Where the listing of `path` stands.
    fn list_dir(&self, path: &str, replies: &Vec<Reply>, at: usize) -> (progress: (Step, usize))
        ensures
            agrees(progress, eval_list_dir(path@, replies.deep_view(), at as int)),
    {
        match reply_at(replies, at) {
            None => (Step::Pending(Action::ListDir { path: path.to_owned() }), at),
            Some(Reply::Entries(entries)) => (Step::Finished(self.list_dir_files(entries)), at + 1),
            Some(Reply::Failed(failure)) => (Step::Finished(handle_builtin_error(failure)), at + 1),
            Some(_) => (Step::Finished(unexpected_reply_error()), at + 1),
        }
    }

    /// The value of a listing: a list of files, each shown by its name.
    fn list_dir_files(&self, entries: &Vec<Entry>) -> (value: Type)
        ensures
            value@ == entries_value(entries.deep_view()),
    {
        let mut files: Vec<Type> = Vec::new();
        let mut i: usize = 0;
        while i < entries.len()
            invariant
                i <= entries@.len(),
                files@.len() == i,
                forall|j: int|
                    0 <= j < i ==> (#[trigger] files@[j])@ == (TypeView::File {
                        path: entries@[j]@.path,
                        full_path: false,
                        status: entries@[j]@.status,
                    }),
            decreases entries@.len() - i,
        {
            files.push(
                Type::File {
                    path: entries[i].path.clone(),
                    full_path: false,
                    status: entries[i].status.clone(),
                },
            );
            i = i + 1;
        }
        proof {
            lemma_array_view(&files);
            assert(files.deep_view() =~= entries_value(entries.deep_view())->Array_0);
        }
        Type::Array(files)
    }

    /// Where `ls` stands: without arguments it lists the working
    /// directory, with one the directory that it names; with more it is
    /// an error, and nothing is asked of the system.
    pub fn run_ls(&self, replies: &Vec<Reply>, at: usize) -> (progress: (Step, usize))
        requires
            self@.takes_literals(),
        ensures
            agrees(progress, eval_ls(self@.arguments(), replies.deep_view(), at as int)),
    {
        let args = self.get_args();
        if args.len() == 0 {
            self.list_dir(".", replies, at)
        } else if args.len() == 1 {
            assert(args@[0]@ == self@.arguments()[0]);
            let path = args[0].run_as_arg();
            self.list_dir(path.as_str(), replies, at)
        } else {
            (Step::Finished(too_many_arguments_error()), at)
        }
    }
}

} // verus!
