//! What a command tree means: the value that evaluating it gives, and the
//! actions that it takes on the way.
//!
//! The meaning is a function of the tree and of the replies to the
//! actions taken so far. It reads the replies in order, one for each
//! action; where the replies run out before the evaluation has ended, the
//! outcome is the next action to take. Evaluation is strictly sequential:
//! the source of a pipe or of a redirect comes before its destination.

use vstd::prelude::*;
use crate::builtin::Builtin;
use crate::command::CommandView;
use crate::lexer::TokenView;
use crate::system::{ActionView, EntryView, FailureKind, FailureView, ReplyView, StepView};
use crate::typesystem::TypeView;

verus! {

/// The code of a failure of the operating system.
pub open spec fn failure_code(kind: FailureKind) -> i32 {
    match kind {
        FailureKind::NotFound => 50,
        FailureKind::PermissionDenied => 100,
        FailureKind::Other => 200,
    }
}

/// The error value that a failure of the operating system becomes.
pub open spec fn failure_value(failure: FailureView) -> TypeView {
    TypeView::Error { message: failure.message, code: failure_code(failure.kind) }
}

/// The error value of a builtin that is given more arguments than it takes.
pub open spec fn too_many_arguments() -> TypeView {
    TypeView::Error { message: "Too many arguments"@, code: 1 }
}

/// The error value of `cd` without arguments where the user has no home directory.
pub open spec fn no_home_directory() -> TypeView {
    TypeView::Error { message: "Could not find home directory"@, code: 25 }
}

/// The error value of a reply that does not answer the action that was taken.
pub open spec fn unexpected_reply() -> TypeView {
    TypeView::Error { message: "Unexpected reply"@, code: 200 }
}

/// What the user is told of a redirect whose destination cannot name a file.
pub open spec fn not_a_path() -> Seq<char> {
    "Redirect destination is not a path"@
}

/// The reply at `at`, if the replies go that far.
pub open spec fn reply_at(replies: Seq<ReplyView>, at: int) -> Option<ReplyView> {
    if 0 <= at < replies.len() {
        Some(replies[at])
    } else {
        None
    }
}

/// The texts that arguments are handed on as.
pub open spec fn argument_texts(args: Seq<CommandView>) -> Seq<Seq<char>> {
    Seq::new(args.len(), |i: int| args[i].argument_text())
}

/// The value of a listing: a list of files, each shown by its name.
pub open spec fn entries_value(entries: Seq<EntryView>) -> TypeView {
    TypeView::Array(
        Seq::new(
            entries.len(),
            |i: int|
                TypeView::File {
                    path: entries[i].path,
                    full_path: false,
                    status: entries[i].status,
                },
        ),
    )
}

/// Changing the working directory to `path`: nothing if it succeeds, the
/// error of the failure if it fails.
pub open spec fn eval_change_dir(path: Seq<char>, replies: Seq<ReplyView>, at: int) -> (
    StepView,
    int,
) {
    match reply_at(replies, at) {
        None => (StepView::Pending(ActionView::ChangeDir { path }), at),
        Some(ReplyView::Done) => (StepView::Finished(TypeView::Null), at + 1),
        Some(ReplyView::Failed(failure)) => (StepView::Finished(failure_value(failure)), at + 1),
        Some(_) => (StepView::Finished(unexpected_reply()), at + 1),
    }
}

/// `cd`: without arguments to the home directory, with one to the
/// directory that it names; with more, an error.
pub open spec fn eval_cd(args: Seq<CommandView>, replies: Seq<ReplyView>, at: int) -> (
    StepView,
    int,
) {
    if args.len() >= 2 {
        (StepView::Finished(too_many_arguments()), at)
    } else if args.len() == 1 {
        eval_change_dir(args[0].argument_text(), replies, at)
    } else {
        match reply_at(replies, at) {
            None => (StepView::Pending(ActionView::FindHome), at),
            Some(ReplyView::Home(Some(home))) => eval_change_dir(home, replies, at + 1),
            Some(ReplyView::Home(None)) => (StepView::Finished(no_home_directory()), at + 1),
            Some(ReplyView::Failed(failure)) => (
                StepView::Finished(TypeView::Error { message: failure.message, code: 200 }),
                at + 1,
            ),
            Some(_) => (StepView::Finished(unexpected_reply()), at + 1),
        }
    }
}

/// Listing the directory `path`: its entries, or the error of the failure.
pub open spec fn eval_list_dir(path: Seq<char>, replies: Seq<ReplyView>, at: int) -> (
    StepView,
    int,
) {
    match reply_at(replies, at) {
        None => (StepView::Pending(ActionView::ListDir { path }), at),
        Some(ReplyView::Entries(entries)) => (StepView::Finished(entries_value(entries)), at + 1),
        Some(ReplyView::Failed(failure)) => (StepView::Finished(failure_value(failure)), at + 1),
        Some(_) => (StepView::Finished(unexpected_reply()), at + 1),
    }
}

/// `ls`: the entries of the working directory without arguments, of the
/// directory that the argument names with one; with more, an error.
pub open spec fn eval_ls(args: Seq<CommandView>, replies: Seq<ReplyView>, at: int) -> (
    StepView,
    int,
) {
    if args.len() >= 2 {
        (StepView::Finished(too_many_arguments()), at)
    } else if args.len() == 1 {
        eval_list_dir(args[0].argument_text(), replies, at)
    } else {
        eval_list_dir("."@, replies, at)
    }
}

/// `pwd`: the working directory, shown by its whole path; with any
/// argument, an error.
pub open spec fn eval_pwd(args: Seq<CommandView>, replies: Seq<ReplyView>, at: int) -> (
    StepView,
    int,
) {
    if args.len() >= 1 {
        (StepView::Finished(too_many_arguments()), at)
    } else {
        match reply_at(replies, at) {
            None => (StepView::Pending(ActionView::CurrentDir), at),
            Some(ReplyView::Directory(entry)) => (
                StepView::Finished(
                    TypeView::File { path: entry.path, full_path: true, status: entry.status },
                ),
                at + 1,
            ),
            Some(ReplyView::Failed(failure)) => (
                StepView::Finished(failure_value(failure)),
                at + 1,
            ),
            Some(_) => (StepView::Finished(unexpected_reply()), at + 1),
        }
    }
}

/// A builtin. `exit` ends the shell: the evaluation never goes past it.
pub open spec fn eval_builtin(
    builtin: Builtin,
    args: Seq<CommandView>,
    replies: Seq<ReplyView>,
    at: int,
) -> (StepView, int) {
    match builtin {
        Builtin::Cd => eval_cd(args, replies, at),
        Builtin::Exit => (StepView::Pending(ActionView::Exit), at),
        Builtin::Ls => eval_ls(args, replies, at),
        Builtin::Pwd => eval_pwd(args, replies, at),
    }
}

/// What a process reads from its standard input: the bare text of the
/// value that a pipe hands it, if any.
pub open spec fn input_text(input: Option<TypeView>) -> Option<Seq<char>> {
    match input {
        Some(value) => Some(value.undecorated()),
        None => None,
    }
}

/// An external command: the program named by the word runs with the
/// arguments as their bare texts. Its captured output is the value. A
/// program that cannot be started gives the error of the failure; input
/// that cannot be written, an error without a code of its own.
pub open spec fn eval_external(
    name: TokenView,
    args: Seq<CommandView>,
    input: Option<TypeView>,
    replies: Seq<ReplyView>,
    at: int,
) -> (StepView, int) {
    match reply_at(replies, at) {
        None => (
            StepView::Pending(
                ActionView::Spawn {
                    program: name.value,
                    args: argument_texts(args),
                    input: input_text(input),
                },
            ),
            at,
        ),
        Some(ReplyView::Output(output)) => (StepView::Finished(TypeView::Output(output)), at + 1),
        Some(ReplyView::Failed(failure)) => (StepView::Finished(failure_value(failure)), at + 1),
        Some(ReplyView::InputFailed { message }) => (
            StepView::Finished(TypeView::Error { message, code: 200 }),
            at + 1,
        ),
        Some(_) => (StepView::Finished(unexpected_reply()), at + 1),
    }
}

/// The last part of a redirect: the bare text of `source` is written to
/// the file that `destination` names, and the value is null. A
/// destination that cannot name a file is reported to the user, nothing
/// is written, and the value is null all the same. A file that cannot be
/// written gives the error of the failure.
pub open spec fn eval_write(
    source: TypeView,
    destination: TypeView,
    replies: Seq<ReplyView>,
    at: int,
) -> (StepView, int) {
    let action = if destination.is_path_shaped() {
        ActionView::WriteFile { path: destination.undecorated(), contents: source.undecorated() }
    } else {
        ActionView::Report { message: not_a_path() }
    };
    match reply_at(replies, at) {
        None => (StepView::Pending(action), at),
        Some(ReplyView::Done) => (StepView::Finished(TypeView::Null), at + 1),
        Some(ReplyView::Failed(failure)) => if destination.is_path_shaped() {
            (StepView::Finished(failure_value(failure)), at + 1)
        } else {
            (StepView::Finished(unexpected_reply()), at + 1)
        },
        Some(_) => (StepView::Finished(unexpected_reply()), at + 1),
    }
}

/// Where the evaluation of `command` stands when the replies from `at` on
/// are those to its actions, and the position after the replies that it
/// has read. `input` is the value that a pipe hands to the command.
pub open spec fn evaluate(
    command: CommandView,
    input: Option<TypeView>,
    replies: Seq<ReplyView>,
    at: int,
) -> (StepView, int)
    decreases command,
{
    match command {
        CommandView::Builtin { builtin, args } => eval_builtin(builtin, args, replies, at),
        CommandView::External { name, args } => eval_external(name, args, input, replies, at),
        CommandView::String(s) => (StepView::Finished(TypeView::String(s)), at),
        CommandView::Boolean(b) => (StepView::Finished(TypeView::Boolean(b)), at),
        CommandView::Integer(i) => (StepView::Finished(TypeView::Integer(i)), at),
        CommandView::Float(text) => (StepView::Finished(TypeView::Float(text)), at),
        CommandView::Redirect { source, destination } => {
            let (first, next) = evaluate(*source, None, replies, at);
            match first {
                StepView::Pending(_) => (first, next),
                StepView::Finished(value) => {
                    let (second, after) = evaluate(*destination, None, replies, next);
                    match second {
                        StepView::Pending(_) => (second, after),
                        StepView::Finished(target) => eval_write(value, target, replies, after),
                    }
                },
            }
        },
        CommandView::Pipe { source, destination } => {
            let (first, next) = evaluate(*source, None, replies, at);
            match first {
                StepView::Pending(_) => (first, next),
                StepView::Finished(value) => evaluate(*destination, Some(value), replies, next),
            }
        },
        CommandView::Empty => (StepView::Finished(TypeView::Null), at),
        CommandView::Error(message) => (
            StepView::Finished(TypeView::Error { message, code: 200 }),
            at,
        ),
    }
}

/// Where the evaluation of a whole command stands after the given replies.
pub open spec fn outcome(command: CommandView, replies: Seq<ReplyView>) -> StepView {
    evaluate(command, None, replies, 0).0
}

/// Whether a step asks for an action that has a reply: any but the end of the shell.
pub open spec fn awaits_reply(step: StepView) -> bool {
    step matches StepView::Pending(action) && !(action is Exit)
}

/// An evaluation reads replies forwards. It asks for an action that has a
/// reply only where the replies have run out, and it ends only within them.
pub proof fn lemma_evaluate_position(
    command: CommandView,
    input: Option<TypeView>,
    replies: Seq<ReplyView>,
    at: int,
)
    requires
        0 <= at <= replies.len(),
    ensures
        at <= evaluate(command, input, replies, at).1 <= replies.len(),
        awaits_reply(evaluate(command, input, replies, at).0) ==> evaluate(
            command,
            input,
            replies,
            at,
        ).1 == replies.len(),
    decreases command,
{
    match command {
        CommandView::Redirect { source, destination } => {
            lemma_evaluate_position(*source, None, replies, at);
            let (first, next) = evaluate(*source, None, replies, at);
            if first is Finished {
                lemma_evaluate_position(*destination, None, replies, next);
            }
        },
        CommandView::Pipe { source, destination } => {
            lemma_evaluate_position(*source, None, replies, at);
            let (first, next) = evaluate(*source, None, replies, at);
            if let StepView::Finished(value) = first {
                lemma_evaluate_position(*destination, Some(value), replies, next);
            }
        },
        _ => {},
    }
}

/// An evaluation that has ended stays as it is when more replies follow:
/// the value of a command depends on the replies to its own actions only.
pub proof fn lemma_more_replies(
    command: CommandView,
    input: Option<TypeView>,
    replies: Seq<ReplyView>,
    more: Seq<ReplyView>,
    at: int,
)
    requires
        0 <= at <= replies.len(),
        evaluate(command, input, replies, at).0 is Finished,
    ensures
        evaluate(command, input, replies + more, at) == evaluate(command, input, replies, at),
    decreases command,
{
    let longer = replies + more;
    assert forall|i: int| 0 <= i < replies.len() implies reply_at(longer, i) == reply_at(
        replies,
        i,
    ) by {}
    match command {
        CommandView::Redirect { source, destination } => {
            lemma_evaluate_position(*source, None, replies, at);
            lemma_more_replies(*source, None, replies, more, at);
            let (first, next) = evaluate(*source, None, replies, at);
            lemma_evaluate_position(*destination, None, replies, next);
            lemma_more_replies(*destination, None, replies, more, next);
        },
        CommandView::Pipe { source, destination } => {
            lemma_evaluate_position(*source, None, replies, at);
            lemma_more_replies(*source, None, replies, more, at);
            let (first, next) = evaluate(*source, None, replies, at);
            lemma_more_replies(*destination, Some(first->Finished_0), replies, more, next);
        },
        _ => {},
    }
}

/// A literal is its own value: evaluating it asks for nothing and reads
/// no reply.
pub proof fn lemma_literal_is_pure(
    command: CommandView,
    input: Option<TypeView>,
    replies: Seq<ReplyView>,
    at: int,
)
    requires
        command.is_literal(),
    ensures
        evaluate(command, input, replies, at).1 == at,
        evaluate(command, input, replies, at).0 == StepView::Finished(
            match command {
                CommandView::String(s) => TypeView::String(s),
                CommandView::Boolean(b) => TypeView::Boolean(b),
                CommandView::Integer(i) => TypeView::Integer(i),
                _ => TypeView::Float(command->Float_0),
            },
        ),
{
}

/// `pwd` with any argument is an error of too many arguments, whatever
/// the replies, and asks for nothing. So are `cd` and `ls` with two
/// arguments or more.
pub proof fn lemma_too_many_arguments(
    builtin: Builtin,
    args: Seq<CommandView>,
    input: Option<TypeView>,
    replies: Seq<ReplyView>,
    at: int,
)
    requires
        builtin == Builtin::Pwd && args.len() >= 1 || (builtin == Builtin::Cd || builtin
            == Builtin::Ls) && args.len() >= 2,
    ensures
        evaluate(CommandView::Builtin { builtin, args }, input, replies, at) == (
            StepView::Finished(TypeView::Error { message: "Too many arguments"@, code: 1 }),
            at,
        ),
{
}

/// `exit` asks for the end of the shell and never has a value, whatever
/// the replies.
pub proof fn lemma_exit_never_returns(
    args: Seq<CommandView>,
    input: Option<TypeView>,
    replies: Seq<ReplyView>,
    at: int,
)
    ensures
        evaluate(CommandView::Builtin { builtin: Builtin::Exit, args }, input, replies, at).0
            == StepView::Pending(ActionView::Exit),
{
}

/// `cd` with one argument asks for the working directory to be changed
/// to it. Where that fails because there is no such directory, the value
/// is an error with the code of a file that is not found; where it
/// succeeds, the value is null.
pub proof fn lemma_cd_to_path(path: CommandView, message: Seq<char>)
    requires
        path.is_literal(),
    ensures
        outcome(CommandView::Builtin { builtin: Builtin::Cd, args: seq![path] }, Seq::empty())
            == StepView::Pending(ActionView::ChangeDir { path: path.argument_text() }),
        outcome(
            CommandView::Builtin { builtin: Builtin::Cd, args: seq![path] },
            seq![ReplyView::Failed(FailureView { kind: FailureKind::NotFound, message })],
        ) == StepView::Finished(TypeView::Error { message, code: 50 }),
        outcome(
            CommandView::Builtin { builtin: Builtin::Cd, args: seq![path] },
            seq![ReplyView::Done],
        ) == StepView::Finished(TypeView::Null),
{
}

/// A redirect of one string to another asks for the first to be written,
/// exactly as it is, to the file that the second names; once that is
/// done, its value is null.
pub proof fn lemma_redirect_writes_text(text: Seq<char>, path: Seq<char>)
    ensures
        outcome(
            CommandView::Redirect {
                source: Box::new(CommandView::String(text)),
                destination: Box::new(CommandView::String(path)),
            },
            Seq::empty(),
        ) == StepView::Pending(ActionView::WriteFile { path, contents: text }),
        outcome(
            CommandView::Redirect {
                source: Box::new(CommandView::String(text)),
                destination: Box::new(CommandView::String(path)),
            },
            seq![ReplyView::Done],
        ) == StepView::Finished(TypeView::Null),
{
    reveal_with_fuel(evaluate, 2);
}

/// A pipe of two external commands runs the first without input, then
/// the second with the bare text of what the first gave as its input.
/// The value of the pipe is the output of the second.
pub proof fn lemma_pipe_hands_on(
    first: CommandView,
    second: CommandView,
    output: crate::typesystem::ProcessOutputView,
    last: crate::typesystem::ProcessOutputView,
)
    requires
        first is External,
        second is External,
    ensures
        outcome(
            CommandView::Pipe { source: Box::new(first), destination: Box::new(second) },
            Seq::empty(),
        ) == StepView::Pending(
            ActionView::Spawn {
                program: first->External_name.value,
                args: argument_texts(first.arguments()),
                input: None,
            },
        ),
        outcome(
            CommandView::Pipe { source: Box::new(first), destination: Box::new(second) },
            seq![ReplyView::Output(output)],
        ) == StepView::Pending(
            ActionView::Spawn {
                program: second->External_name.value,
                args: argument_texts(second.arguments()),
                input: Some(output.text()),
            },
        ),
        outcome(
            CommandView::Pipe { source: Box::new(first), destination: Box::new(second) },
            seq![ReplyView::Output(output), ReplyView::Output(last)],
        ) == StepView::Finished(TypeView::Output(last)),
{
    reveal_with_fuel(evaluate, 2);
}

} // verus!
