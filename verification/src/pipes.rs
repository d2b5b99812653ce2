//! Pipes: the value of one command becomes the input of the next.

use vstd::prelude::*;
use crate::command::{Command, CommandKind};
use crate::semantics::evaluate;
use crate::system::{agrees, Reply, Step};
use crate::typesystem::Type;

verus! {

impl Command {
    /// Where a pipe stands: the source is evaluated first, then the
    /// destination with the value of the source as its input. The value
    /// of the pipe is that of the destination.
    pub fn run_pipe(&self, replies: &Vec<Reply>, at: usize) -> (progress: (Step, usize))
        requires
            self@ is Pipe,
            self@.has_literal_arguments(),
        ensures
            agrees(progress, evaluate(self@, None, replies.deep_view(), at as int)),
        decreases self, 0int,
    {
        match &self.kind {
            CommandKind::Pipe { source, destination } => {
                let (first, next) = source.run_from(None, replies, at);
                match first {
                    Step::Pending(action) => (Step::Pending(action), next),
                    Step::Finished(value) => destination.run_from(Some(&value), replies, next),
                }
            },
            _ => (Step::Finished(Type::Null), at),
        }
    }
}

} // verus!
