//! The command tree: what one statement of a line asks for.

use vstd::prelude::*;
use crate::builtin::Builtin;
use crate::decimal::{decimal, i64_to_string};
use crate::lexer::{Token, TokenView};
use crate::semantics::{argument_texts, evaluate, outcome};
use crate::system::{agrees, input_view, Reply, Step};
use crate::typesystem::Type;

verus! {

/// The code of an error that has no code of its own.
pub const UNKNOWN_ERROR_CODE: i32 = 200;

/// One node of a command tree.
#[derive(Debug, PartialEq)]
pub struct Command {
    pub kind: CommandKind,
}

/// What a node of a command tree is.
///
/// A float literal is held as its text: nothing here computes with it.
#[derive(Debug, PartialEq)]
pub enum CommandKind {
    Builtin { builtin: Builtin, args: Vec<Command> },
    External { name: Token, args: Vec<Command> },
    String(String),
    Boolean(bool),
    Integer(i64),
    Float(String),
    Redirect { source: Box<Command>, destination: Box<Command> },
    Pipe { source: Box<Command>, destination: Box<Command> },
    /// The empty statement.
    Empty,
    /// A statement that could not be parsed, with the reason.
    Error(String),
}

/// A command tree as a mathematical value.
pub enum CommandView {
    Builtin { builtin: Builtin, args: Seq<CommandView> },
    External { name: TokenView, args: Seq<CommandView> },
    String(Seq<char>),
    Boolean(bool),
    Integer(i64),
    Float(Seq<char>),
    Redirect { source: Box<CommandView>, destination: Box<CommandView> },
    Pipe { source: Box<CommandView>, destination: Box<CommandView> },
    Empty,
    Error(Seq<char>),
}

impl CommandView {
    /// Whether the node is a literal: a string, a boolean, an integer or a float.
    pub open spec fn is_literal(self) -> bool {
        self is String || self is Boolean || self is Integer || self is Float
    }

    /// The text that a literal becomes when it is handed to a builtin or a
    /// process as an argument: the bare value, without quotes.
    pub open spec fn argument_text(self) -> Seq<char> {
        match self {
            CommandView::String(s) => s,
            CommandView::Boolean(b) => if b {
                "true"@
            } else {
                "false"@
            },
            CommandView::Integer(i) => decimal(i as int),
            CommandView::Float(text) => text,
            _ => Seq::empty(),
        }
    }

    /// The arguments of a builtin or an external command; none for any other node.
    pub open spec fn arguments(self) -> Seq<CommandView> {
        match self {
            CommandView::Builtin { args, .. } => args,
            CommandView::External { args, .. } => args,
            _ => Seq::empty(),
        }
    }

    /// Whether every argument of this node is a literal.
    pub open spec fn takes_literals(self) -> bool {
        forall|i: int|
            0 <= i < self.arguments().len() ==> (#[trigger] self.arguments()[i]).is_literal()
    }

    /// Whether every argument, here and below, is a literal.
    pub open spec fn has_literal_arguments(self) -> bool
        decreases self,
    {
        match self {
            CommandView::Builtin { args, .. } => forall|i: int|
                0 <= i < args.len() ==> (#[trigger] args[i]).is_literal(),
            CommandView::External { args, .. } => forall|i: int|
                0 <= i < args.len() ==> (#[trigger] args[i]).is_literal(),
            CommandView::Redirect { source, destination } => source.has_literal_arguments()
                && destination.has_literal_arguments(),
            CommandView::Pipe { source, destination } => source.has_literal_arguments()
                && destination.has_literal_arguments(),
            _ => true,
        }
    }
}

impl Command {
    /// The tree as a mathematical value.
    pub open spec fn model(&self) -> CommandView
        decreases self,
    {
        match self.kind {
            CommandKind::Builtin { builtin, args } => CommandView::Builtin {
                builtin,
                args: Seq::new(
                    args@.len(),
                    |i: int|
                        if 0 <= i < args@.len() {
                            args@[i].model()
                        } else {
                            CommandView::Empty
                        },
                ),
            },
            CommandKind::External { name, args } => CommandView::External {
                name: name@,
                args: Seq::new(
                    args@.len(),
                    |i: int|
                        if 0 <= i < args@.len() {
                            args@[i].model()
                        } else {
                            CommandView::Empty
                        },
                ),
            },
            CommandKind::String(s) => CommandView::String(s@),
            CommandKind::Boolean(b) => CommandView::Boolean(b),
            CommandKind::Integer(i) => CommandView::Integer(i),
            CommandKind::Float(text) => CommandView::Float(text@),
            CommandKind::Redirect { source, destination } => CommandView::Redirect {
                source: Box::new(source.model()),
                destination: Box::new(destination.model()),
            },
            CommandKind::Pipe { source, destination } => CommandView::Pipe {
                source: Box::new(source.model()),
                destination: Box::new(destination.model()),
            },
            CommandKind::Empty => CommandView::Empty,
            CommandKind::Error(message) => CommandView::Error(message@),
        }
    }
}

impl View for Command {
    type V = CommandView;

    open spec fn view(&self) -> CommandView {
        self.model()
    }
}

impl DeepView for Command {
    type V = CommandView;

    open spec fn deep_view(&self) -> CommandView {
        self@
    }
}

/// The views of the arguments of a builtin or an external command are the
/// views of its argument nodes.
pub proof fn lemma_arguments_view(command: &Command)
    ensures
        match command.kind {
            CommandKind::Builtin { args, .. } => command@.arguments() == args.deep_view(),
            CommandKind::External { args, .. } => command@.arguments() == args.deep_view(),
            _ => command@.arguments() == Seq::<CommandView>::empty(),
        },
{
    match command.kind {
        CommandKind::Builtin { args, .. } => {
            assert(command@.arguments() =~= args.deep_view());
        },
        CommandKind::External { args, .. } => {
            assert(command@.arguments() =~= args.deep_view());
        },
        _ => {},
    }
}

/// A copy of a list of commands.
fn clone_commands(commands: &Vec<Command>) -> (copy: Vec<Command>)
    ensures
        copy.deep_view() == commands.deep_view(),
    decreases commands,
{
    let mut copy: Vec<Command> = Vec::new();
    let mut i: usize = 0;
    while i < commands.len()
        invariant
            i <= commands@.len(),
            copy@.len() == i,
            forall|j: int| 0 <= j < i ==> copy@[j]@ == commands@[j]@,
        decreases commands@.len() - i,
    {
        copy.push(commands[i].clone());
        i = i + 1;
    }
    assert(copy.deep_view() =~= commands.deep_view());
    copy
}

impl Clone for Command {
    /// A copy of the tree.
    fn clone(&self) -> (copy: Command)
        ensures
            copy@ == self@,
        decreases self,
    {
        let kind = match &self.kind {
            CommandKind::Builtin { builtin, args } => {
                let copy = clone_commands(args);
                proof {
                    lemma_arguments_view(self);
                }
                CommandKind::Builtin { builtin: *builtin, args: copy }
            },
            CommandKind::External { name, args } => {
                let copy = clone_commands(args);
                proof {
                    lemma_arguments_view(self);
                }
                CommandKind::External {
                    name: Token { value: name.value.clone(), kind: name.kind },
                    args: copy,
                }
            },
            CommandKind::String(s) => CommandKind::String(s.clone()),
            CommandKind::Boolean(b) => CommandKind::Boolean(*b),
            CommandKind::Integer(i) => CommandKind::Integer(*i),
            CommandKind::Float(text) => CommandKind::Float(text.clone()),
            CommandKind::Redirect { source, destination } => CommandKind::Redirect {
                source: Box::new((**source).clone()),
                destination: Box::new((**destination).clone()),
            },
            CommandKind::Pipe { source, destination } => CommandKind::Pipe {
                source: Box::new((**source).clone()),
                destination: Box::new((**destination).clone()),
            },
            CommandKind::Empty => CommandKind::Empty,
            CommandKind::Error(message) => CommandKind::Error(message.clone()),
        };
        let copy = Command { kind };
        proof {
            lemma_arguments_view(&copy);
        }
        copy
    }
}

impl Command {
    /// The node of the given kind.
    pub fn new(kind: CommandKind) -> (command: Command)
        ensures
            command.kind == kind,
    {
        Command { kind }
    }

    /// The text that this literal becomes as an argument of a builtin or a
    /// process: the bare value, without quotes or colour.
    pub fn run_as_arg(&self) -> (text: String)
        requires
            self@.is_literal(),
        ensures
            text@ == self@.argument_text(),
    {
        match &self.kind {
            CommandKind::String(s) => s.clone(),
            CommandKind::Boolean(b) => if *b {
                "true".to_owned()
            } else {
                "false".to_owned()
            },
            CommandKind::Integer(i) => i64_to_string(*i),
            CommandKind::Float(text) => text.clone(),
            _ => String::new(),
        }
    }

    /// Whether the node marks a statement that could not be parsed.
    pub fn is_error(&self) -> (error: bool)
        ensures
            error == self@ is Error,
    {
        match &self.kind {
            CommandKind::Error(_) => true,
            _ => false,
        }
    }

    /// Whether the node is a literal, the only kind of node that can be an argument.
    pub fn is_literal(&self) -> (literal: bool)
        ensures
            literal == self@.is_literal(),
    {
        match &self.kind {
            CommandKind::String(_) => true,
            CommandKind::Boolean(_) => true,
            CommandKind::Integer(_) => true,
            CommandKind::Float(_) => true,
            _ => false,
        }
    }

    /// Whether every argument, here and below, is a literal: what
    /// [`Command::run`] asks of a command.
    pub fn has_literal_arguments(&self) -> (ok: bool)
        ensures
            ok == self@.has_literal_arguments(),
        decreases self,
    {
        proof {
            lemma_arguments_view(self);
        }
        match &self.kind {
            CommandKind::Builtin { args, .. } => all_literals(args),
            CommandKind::External { args, .. } => all_literals(args),
            CommandKind::Redirect { source, destination } => source.has_literal_arguments()
                && destination.has_literal_arguments(),
            CommandKind::Pipe { source, destination } => source.has_literal_arguments()
                && destination.has_literal_arguments(),
            _ => true,
        }
    }

    /// The arguments of a builtin or an external command; none for any other node.
    pub fn get_args(&self) -> (args: Vec<Command>)
        ensures
            args.deep_view() == self@.arguments(),
    {
        proof {
            lemma_arguments_view(self);
        }
        match &self.kind {
            CommandKind::Builtin { args, .. } => clone_commands(args),
            CommandKind::External { args, .. } => clone_commands(args),
            _ => {
                let none: Vec<Command> = Vec::new();
                assert(none.deep_view() =~= Seq::<CommandView>::empty());
                none
            },
        }
    }
}

/// Whether every one of `args` is a literal.
fn all_literals(args: &Vec<Command>) -> (ok: bool)
    ensures
        ok == forall|i: int| 0 <= i < args@.len() ==> (#[trigger] args.deep_view()[i]).is_literal(),
{
    let mut i: usize = 0;
    while i < args.len()
        invariant
            i <= args@.len(),
            forall|j: int| 0 <= j < i ==> (#[trigger] args.deep_view()[j]).is_literal(),
        decreases args@.len() - i,
    {
        if !args[i].is_literal() {
            assert(!args.deep_view()[i as int].is_literal());
            return false;
        }
        i = i + 1;
    }
    true
}

/// The texts that arguments are handed on as.
pub fn argument_strings(args: &Vec<Command>) -> (texts: Vec<String>)
    requires
        forall|i: int| 0 <= i < args@.len() ==> (#[trigger] args@[i])@.is_literal(),
    ensures
        texts.deep_view() == argument_texts(args.deep_view()),
{
    let mut texts: Vec<String> = Vec::new();
    let mut i: usize = 0;
    while i < args.len()
        invariant
            i <= args@.len(),
            texts@.len() == i,
            forall|j: int| 0 <= j < args@.len() ==> (#[trigger] args@[j])@.is_literal(),
            forall|j: int| 0 <= j < i ==> (#[trigger] texts@[j])@ == args@[j]@.argument_text(),
        decreases args@.len() - i,
    {
        texts.push(args[i].run_as_arg());
        i = i + 1;
    }
    assert(texts.deep_view() =~= argument_texts(args.deep_view()));
    texts
}

impl Command {
    /// Where the evaluation of the command stands after the given
    /// replies: the value that it has ended with, or the next action to
    /// take. Whoever drives the evaluation starts without replies, takes
    /// each action that is asked for, and calls again with its reply added.
    pub fn run(&self, replies: &Vec<Reply>) -> (step: Step)
        requires
            self@.has_literal_arguments(),
        ensures
            step@ == outcome(self@, replies.deep_view()),
    {
        self.run_from(None, replies, 0).0
    }

    /// Where the evaluation of the command stands when the replies from
    /// `at` on are those to its actions, and the position after the
    /// replies that it has read. `input` is the value that a pipe hands
    /// to the command.
    pub fn run_from(&self, input: Option<&Type>, replies: &Vec<Reply>, at: usize) -> (progress: (
        Step,
        usize,
    ))
        requires
            self@.has_literal_arguments(),
        ensures
            agrees(progress, evaluate(self@, input_view(input), replies.deep_view(), at as int)),
        decreases self, 1int,
    {
        match &self.kind {
            CommandKind::Builtin { .. } => self.run_builtin(replies, at),
            CommandKind::External { .. } => self.run_external(input, replies, at),
            CommandKind::String(s) => (Step::Finished(Type::String(s.clone())), at),
            CommandKind::Boolean(b) => (Step::Finished(Type::Boolean(*b)), at),
            CommandKind::Integer(i) => (Step::Finished(Type::Integer(*i)), at),
            CommandKind::Float(text) => (Step::Finished(Type::Float(text.clone())), at),
            CommandKind::Redirect { .. } => crate::redirect::run(self, replies, at),
            CommandKind::Pipe { .. } => self.run_pipe(replies, at),
            CommandKind::Empty => (Step::Finished(Type::Null), at),
            CommandKind::Error(message) => (
                Step::Finished(Type::Error { message: message.clone(), code: UNKNOWN_ERROR_CODE }),
                at,
            ),
        }
    }
}

} // verus!
