//! An evaluation under way: a command, and the replies to the actions
//! that it has taken so far.
//!
//! ```text
//! start ──▶ Pending(action) ──resume(reply)──▶ Pending(action) ── … ──▶ Finished(value)
//! ```

use vstd::prelude::*;
use crate::command::{Command, CommandView};
use crate::semantics::outcome;
use crate::system::{Reply, ReplyView, Step};

verus! {

/// The evaluation of one command: the state between two actions.
pub struct Evaluation<'a> {
    command: &'a Command,
    replies: Vec<Reply>,
}

impl<'a> Evaluation<'a> {
    #[verifier::type_invariant]
    spec fn can_run(self) -> bool {
        self.command@.has_literal_arguments()
    }

    /// The command that is evaluated.
    pub closed spec fn command(&self) -> CommandView {
        self.command@
    }

    /// The replies that the evaluation has been given, in order.
    pub closed spec fn replies(&self) -> Seq<ReplyView> {
        self.replies.deep_view()
    }

    /// Starts to evaluate `command`: the evaluation, and its value or the
    /// first action to take. There is none for a command with an
    /// argument that is no literal, which cannot be run.
    pub fn start(command: &'a Command) -> (started: Option<(Evaluation<'a>, Step)>)
        ensures
            started is Some <==> command@.has_literal_arguments(),
            started matches Some((evaluation, step)) ==> {
                &&& evaluation.command() == command@
                &&& evaluation.replies() == Seq::<ReplyView>::empty()
                &&& step@ == outcome(command@, Seq::empty())
            },
    {
        if !command.has_literal_arguments() {
            return None;
        }
        let replies: Vec<Reply> = Vec::new();
        assert(replies.deep_view() =~= Seq::<ReplyView>::empty());
        let step = command.run(&replies);
        Some((Evaluation { command, replies }, step))
    }

    /// Goes on with the reply to the action that was asked for last: the
    /// evaluation after it, and the value of the command or the next
    /// action to take.
    pub fn resume(self, reply: Reply) -> (next: (Evaluation<'a>, Step))
        ensures
            next.0.command() == self.command(),
            next.0.replies() == self.replies().push(reply@),
            next.1@ == outcome(self.command(), self.replies().push(reply@)),
    {
        proof {
            use_type_invariant(&self);
        }
        let command = self.command;
        let mut replies = self.replies;
        let ghost before = replies.deep_view();
        replies.push(reply);
        assert(replies.deep_view() =~= before.push(reply@));
        let step = command.run(&replies);
        (Evaluation { command, replies }, step)
    }
}

} // verus!
