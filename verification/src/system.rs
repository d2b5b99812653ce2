//! What evaluation asks of the operating system, and what it is told.
//!
//! Evaluation itself performs no action. Where it needs one, it stops and
//! names the action; whoever drives it performs the action and hands the
//! outcome back as a reply.

use vstd::prelude::*;
use crate::typesystem::{
    FileStatus, FileStatusView, ProcessOutput, ProcessOutputView, Type, TypeView,
};

verus! {

/// The kinds of failure that have a code of their own.
#[derive(Debug, PartialEq, Eq, Clone, Copy, Structural)]
pub enum FailureKind {
    NotFound,
    PermissionDenied,
    Other,
}

/// A failure of the operating system: its kind, and its message.
#[derive(Debug)]
pub struct Failure {
    pub kind: FailureKind,
    pub message: String,
}

/// An entry of a directory: its path, and what it was found to be.
#[derive(Debug)]
pub struct Entry {
    pub path: String,
    pub status: FileStatus,
}

/// An action on the operating system.
#[derive(Debug, PartialEq)]
pub enum Action {
    /// Run a program with the given arguments and wait for it to end. Its
    /// output is captured. With an `input`, the program reads that text
    /// from its standard input; without, it shares the shell's.
    Spawn { program: String, args: Vec<String>, input: Option<String> },
    /// Make `path` the working directory.
    ChangeDir { path: String },
    /// Look up the home directory of the user.
    FindHome,
    /// List the entries of the directory `path`.
    ListDir { path: String },
    /// Look up the working directory.
    CurrentDir,
    /// Create the file `path`, or empty it, and write `contents` to it.
    WriteFile { path: String, contents: String },
    /// Tell the user of an error that does not end the evaluation.
    Report { message: String },
    /// End the shell.
    Exit,
}

/// The outcome of an action.
#[derive(Debug)]
pub enum Reply {
    /// The working directory was changed, the file was written, or the
    /// user was told.
    Done,
    /// The program ran and ended.
    Output(ProcessOutput),
    /// The program started, but its input could not be written.
    InputFailed { message: String },
    /// The home directory, or `None` where the user has none.
    Home(Option<String>),
    /// The entries of the directory.
    Entries(Vec<Entry>),
    /// The working directory.
    Directory(Entry),
    /// The action failed.
    Failed(Failure),
}

/// Where an evaluation stands.
#[derive(Debug, PartialEq)]
pub enum Step {
    /// The evaluation has ended with this value.
    Finished(Type),
    /// The evaluation goes on when this action has been performed.
    Pending(Action),
}

/// A failure as a mathematical value.
pub struct FailureView {
    pub kind: FailureKind,
    pub message: Seq<char>,
}

/// An entry as a mathematical value.
pub struct EntryView {
    pub path: Seq<char>,
    pub status: FileStatusView,
}

/// An action as a mathematical value.
pub enum ActionView {
    Spawn { program: Seq<char>, args: Seq<Seq<char>>, input: Option<Seq<char>> },
    ChangeDir { path: Seq<char> },
    FindHome,
    ListDir { path: Seq<char> },
    CurrentDir,
    WriteFile { path: Seq<char>, contents: Seq<char> },
    Report { message: Seq<char> },
    Exit,
}

/// A reply as a mathematical value.
pub enum ReplyView {
    Done,
    Output(ProcessOutputView),
    InputFailed { message: Seq<char> },
    Home(Option<Seq<char>>),
    Entries(Seq<EntryView>),
    Directory(EntryView),
    Failed(FailureView),
}

/// A step as a mathematical value.
pub enum StepView {
    Finished(TypeView),
    Pending(ActionView),
}

impl View for Failure {
    type V = FailureView;

    open spec fn view(&self) -> FailureView {
        FailureView { kind: self.kind, message: self.message@ }
    }
}

impl View for Entry {
    type V = EntryView;

    open spec fn view(&self) -> EntryView {
        EntryView { path: self.path@, status: self.status@ }
    }
}

impl DeepView for Entry {
    type V = EntryView;

    open spec fn deep_view(&self) -> EntryView {
        self@
    }
}

impl View for Action {
    type V = ActionView;

    open spec fn view(&self) -> ActionView {
        match self {
            Action::Spawn { program, args, input } => ActionView::Spawn {
                program: program@,
                args: args.deep_view(),
                input: match input {
                    Some(text) => Some(text@),
                    None => None,
                },
            },
            Action::ChangeDir { path } => ActionView::ChangeDir { path: path@ },
            Action::FindHome => ActionView::FindHome,
            Action::ListDir { path } => ActionView::ListDir { path: path@ },
            Action::CurrentDir => ActionView::CurrentDir,
            Action::WriteFile { path, contents } => ActionView::WriteFile {
                path: path@,
                contents: contents@,
            },
            Action::Report { message } => ActionView::Report { message: message@ },
            Action::Exit => ActionView::Exit,
        }
    }
}

impl View for Reply {
    type V = ReplyView;

    open spec fn view(&self) -> ReplyView {
        match self {
            Reply::Done => ReplyView::Done,
            Reply::Output(output) => ReplyView::Output(output@),
            Reply::InputFailed { message } => ReplyView::InputFailed { message: message@ },
            Reply::Home(home) => ReplyView::Home(
                match home {
                    Some(path) => Some(path@),
                    None => None,
                },
            ),
            Reply::Entries(entries) => ReplyView::Entries(entries.deep_view()),
            Reply::Directory(entry) => ReplyView::Directory(entry@),
            Reply::Failed(failure) => ReplyView::Failed(failure@),
        }
    }
}

impl DeepView for Reply {
    type V = ReplyView;

    open spec fn deep_view(&self) -> ReplyView {
        self@
    }
}

impl View for Step {
    type V = StepView;

    open spec fn view(&self) -> StepView {
        match self {
            Step::Finished(value) => StepView::Finished(value@),
            Step::Pending(action) => StepView::Pending(action@),
        }
    }
}

impl Clone for Failure {
    fn clone(&self) -> (copy: Failure)
        ensures
            copy@ == self@,
    {
        Failure { kind: self.kind, message: self.message.clone() }
    }
}

impl Clone for Entry {
    fn clone(&self) -> (copy: Entry)
        ensures
            copy@ == self@,
    {
        Entry { path: self.path.clone(), status: self.status.clone() }
    }
}

/// The reply at `at`, if the replies go that far.
pub fn reply_at(replies: &Vec<Reply>, at: usize) -> (reply: Option<&Reply>)
    ensures
        match reply {
            Some(reply) => crate::semantics::reply_at(replies.deep_view(), at as int) == Some(
                reply@,
            ),
            None => crate::semantics::reply_at(replies.deep_view(), at as int) is None,
        },
        reply is Some <==> at < replies@.len(),
        reply is Some ==> at < usize::MAX,
{
    if at < replies.len() {
        Some(&replies[at])
    } else {
        None
    }
}

/// The value that a pipe hands on, as a mathematical value.
pub open spec fn input_view(input: Option<&Type>) -> Option<TypeView> {
    match input {
        Some(value) => Some(value@),
        None => None,
    }
}

/// Whether a step and a position are the given outcome.
pub open spec fn agrees(progress: (Step, usize), expected: (StepView, int)) -> bool {
    progress.0@ == expected.0 && progress.1 == expected.1
}

} // verus!
