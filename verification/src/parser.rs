//! The parser: a sequence of tokens becomes a sequence of command trees,
//! one for each statement.
//!
//! ```text
//! program    := statement (';' statement)* ';'?
//! statement  := expression (('>' | '|') expression)*
//! expression := WORD argument* | STRING | BOOLEAN | INTEGER | FLOAT | (nothing, before ';')
//! argument   := WORD | STRING | BOOLEAN | INTEGER | FLOAT
//! ```

use vstd::prelude::*;
use crate::builtin::{builtin_of, find_builtin};
use crate::command::{Command, CommandKind, CommandView};
use crate::decimal::{has_float_shape, i64_of_text, is_float_text, parse_i64};
use crate::lexer::{lex, quotes_balanced, tokens_of, Token, TokenKind, TokenView};
use crate::text::same_text;

verus! {

/// The node that stands for a token out of place.
pub open spec fn unexpected_token() -> CommandView {
    CommandView::Error("Unexpected token"@)
}

/// The node that stands for tokens that end where an expression must follow.
pub open spec fn unexpected_end() -> CommandView {
    CommandView::Error("Unexpected end of input"@)
}

/// Whether a token of this kind can be an argument.
pub open spec fn is_argument_kind(kind: TokenKind) -> bool {
    kind == TokenKind::Word || kind == TokenKind::String || kind == TokenKind::Boolean || kind
        == TokenKind::Integer || kind == TokenKind::Float
}

/// The literal that a token resolves to as an argument. A word and a
/// string give their text; a boolean, `true` or `false`; an integer, the
/// `i64` that its text denotes; a float, its text, which must have the
/// shape of a number. There is none for an operator, nor for a token whose
/// text does not fit its kind.
pub open spec fn literal_of(token: TokenView) -> Option<CommandView> {
    match token.kind {
        TokenKind::Word | TokenKind::String => Some(CommandView::String(token.value)),
        TokenKind::Boolean => if token.value == "true"@ {
            Some(CommandView::Boolean(true))
        } else if token.value == "false"@ {
            Some(CommandView::Boolean(false))
        } else {
            None
        },
        TokenKind::Integer => match i64_of_text(token.value) {
            Some(i) => Some(CommandView::Integer(i)),
            None => None,
        },
        TokenKind::Float => if is_float_text(token.value) {
            Some(CommandView::Float(token.value))
        } else {
            None
        },
        _ => None,
    }
}

/// Where the arguments end that start at `from`: at the first token, at
/// or after `from`, that cannot be an argument.
pub open spec fn arguments_end(tokens: Seq<TokenView>, from: int) -> int
    decreases tokens.len() - from,
{
    if 0 <= from < tokens.len() && is_argument_kind(tokens[from].kind) {
        arguments_end(tokens, from + 1)
    } else {
        from
    }
}

/// The literals of the tokens from `from` up to `to`, if each has one.
pub open spec fn arguments(tokens: Seq<TokenView>, from: int, to: int) -> Option<
    Seq<CommandView>,
> {
    if forall|i: int| from <= i < to ==> literal_of(#[trigger] tokens[i]) is Some {
        Some(Seq::new((to - from) as nat, |i: int| literal_of(tokens[from + i]).unwrap()))
    } else {
        None
    }
}

/// The command that a word starts: a builtin if the word is a reserved
/// name, else an external command of that name.
pub open spec fn command_of(word: TokenView, args: Seq<CommandView>) -> CommandView {
    match builtin_of(word.value) {
        Some(builtin) => CommandView::Builtin { builtin, args },
        None => CommandView::External { name: word, args },
    }
}

/// The expression that starts at `from`, and where it ends.
///
/// A word takes every argument that follows it. Before a `;` the
/// expression is empty and takes no token. An operator, or a token whose
/// text does not fit its kind, is out of place; and where no token is
/// left, the input ends too early.
pub open spec fn expression(tokens: Seq<TokenView>, from: int) -> (CommandView, int) {
    if !(0 <= from < tokens.len()) {
        (unexpected_end(), from)
    } else {
        let token = tokens[from];
        match token.kind {
            TokenKind::Word => {
                let end = arguments_end(tokens, from + 1);
                match arguments(tokens, from + 1, end) {
                    Some(args) => (command_of(token, args), end),
                    None => (unexpected_token(), end),
                }
            },
            TokenKind::SemiColon => (CommandView::Empty, from),
            TokenKind::GreaterThan | TokenKind::Pipe => (unexpected_token(), from),
            _ => match literal_of(token) {
                Some(literal) => (literal, from + 1),
                None => (unexpected_token(), from + 1),
            },
        }
    }
}

/// What the operator at `at` makes of the command `left` before it and the
/// expression after it, and where that expression ends.
pub open spec fn binary(tokens: Seq<TokenView>, at: int, left: CommandView) -> (CommandView, int) {
    let (right, end) = expression(tokens, at + 1);
    if right is Error {
        (right, end)
    } else if tokens[at].kind == TokenKind::GreaterThan {
        (CommandView::Redirect { source: Box::new(left), destination: Box::new(right) }, end)
    } else {
        (CommandView::Pipe { source: Box::new(left), destination: Box::new(right) }, end)
    }
}

/// The statement that goes on at `at` after the command `left`, and where
/// it ends: each operator takes all that stands before it as its source.
pub open spec fn chain(tokens: Seq<TokenView>, at: int, left: CommandView) -> (CommandView, int)
    decreases tokens.len() - at,
{
    if left is Error || !(0 <= at < tokens.len()) {
        (left, at)
    } else {
        match tokens[at].kind {
            TokenKind::GreaterThan | TokenKind::Pipe => {
                let (next, end) = binary(tokens, at, left);
                proof {
                    lemma_expression_end(tokens, at + 1);
                }
                chain(tokens, end, next)
            },
            TokenKind::SemiColon => (left, at),
            _ => (unexpected_token(), at),
        }
    }
}

/// The statement that starts at `from`, and where it ends.
pub open spec fn statement(tokens: Seq<TokenView>, from: int) -> (CommandView, int) {
    let (first, end) = expression(tokens, from);
    chain(tokens, end, first)
}

/// The statements from `from` on, and where parsing stops. The first
/// statement that is an error is the last one: it stands for itself and
/// for all that follows, so parsing stops at the end of the tokens. A `;`
/// after a statement is skipped; when nothing follows it, the program
/// ends there.
pub open spec fn program(tokens: Seq<TokenView>, from: int) -> (Seq<CommandView>, int)
    decreases tokens.len() - from,
{
    if !(0 <= from < tokens.len()) {
        (Seq::empty(), from)
    } else {
        let (command, end) = statement(tokens, from);
        proof {
            lemma_statement_end(tokens, from);
        }
        if command is Error {
            (seq![command], tokens.len() as int)
        } else if end >= tokens.len() {
            (seq![command], end)
        } else if end + 1 >= tokens.len() {
            (seq![command], end + 1)
        } else {
            let (more, last) = program(tokens, end + 1);
            (seq![command] + more, last)
        }
    }
}

/// The commands that a sequence of tokens stands for.
pub open spec fn parse_tokens(tokens: Seq<TokenView>) -> Seq<CommandView> {
    program(tokens, 0).0
}

/// Arguments end at or after their start, within the tokens.
pub proof fn lemma_arguments_end(tokens: Seq<TokenView>, from: int)
    requires
        0 <= from <= tokens.len(),
    ensures
        from <= arguments_end(tokens, from) <= tokens.len(),
        forall|i: int|
            from <= i < arguments_end(tokens, from) ==> is_argument_kind(
                (#[trigger] tokens[i]).kind,
            ),
        arguments_end(tokens, from) < tokens.len() ==> !is_argument_kind(
            tokens[arguments_end(tokens, from)].kind,
        ),
    decreases tokens.len() - from,
{
    if from < tokens.len() && is_argument_kind(tokens[from].kind) {
        lemma_arguments_end(tokens, from + 1);
    }
}

/// An expression ends at or after its start, within the tokens.
pub proof fn lemma_expression_end(tokens: Seq<TokenView>, from: int)
    requires
        0 <= from <= tokens.len(),
    ensures
        from <= expression(tokens, from).1 <= tokens.len(),
{
    if from < tokens.len() {
        lemma_arguments_end(tokens, from + 1);
    }
}

/// A statement goes on up to a point at or after `at`, within the tokens.
/// Unless it is an error, it ends at the end of the tokens or before a `;`.
pub proof fn lemma_chain_end(tokens: Seq<TokenView>, at: int, left: CommandView)
    requires
        0 <= at <= tokens.len(),
    ensures
        at <= chain(tokens, at, left).1 <= tokens.len(),
        !(chain(tokens, at, left).0 is Error) && chain(tokens, at, left).1 < tokens.len()
            ==> tokens[chain(tokens, at, left).1].kind == TokenKind::SemiColon,
    decreases tokens.len() - at,
{
    if !(left is Error) && at < tokens.len() {
        match tokens[at].kind {
            TokenKind::GreaterThan | TokenKind::Pipe => {
                let (next, end) = binary(tokens, at, left);
                lemma_expression_end(tokens, at + 1);
                lemma_chain_end(tokens, end, next);
            },
            _ => {},
        }
    }
}

/// A statement ends at or after its start, within the tokens. Unless it
/// is an error, it ends at the end of the tokens or before a `;`.
pub proof fn lemma_statement_end(tokens: Seq<TokenView>, from: int)
    requires
        0 <= from <= tokens.len(),
    ensures
        from <= statement(tokens, from).1 <= tokens.len(),
        !(statement(tokens, from).0 is Error) && statement(tokens, from).1 < tokens.len()
            ==> tokens[statement(tokens, from).1].kind == TokenKind::SemiColon,
{
    lemma_expression_end(tokens, from);
    lemma_chain_end(tokens, expression(tokens, from).1, expression(tokens, from).0);
}

/// Whether a command can be one side of an operator: a builtin or an
/// external command whose arguments are literals, a literal, or nothing.
pub open spec fn is_operand(command: CommandView) -> bool {
    match command {
        CommandView::Builtin { .. } | CommandView::External { .. } => command.takes_literals(),
        CommandView::Redirect { .. } | CommandView::Pipe { .. } | CommandView::Error(_) => false,
        _ => true,
    }
}

/// Whether a command leans to the left: the destination of every
/// operator is an operand, and all that comes before is its source.
pub open spec fn leans_left(command: CommandView) -> bool
    decreases command,
{
    match command {
        CommandView::Redirect { source, destination } => leans_left(*source) && is_operand(
            *destination,
        ),
        CommandView::Pipe { source, destination } => leans_left(*source) && is_operand(
            *destination,
        ),
        _ => is_operand(command),
    }
}

/// Whether a command can come out of the parser: an error, or a command
/// that leans to the left.
pub open spec fn is_parsed(command: CommandView) -> bool {
    command is Error || leans_left(command)
}

/// A command that leans to the left has literals for arguments, here and below.
pub proof fn lemma_leaning_takes_literals(command: CommandView)
    requires
        is_parsed(command),
    ensures
        command.has_literal_arguments(),
    decreases command,
{
    match command {
        CommandView::Redirect { source, destination } => {
            lemma_leaning_takes_literals(*source);
            lemma_leaning_takes_literals(*destination);
        },
        CommandView::Pipe { source, destination } => {
            lemma_leaning_takes_literals(*source);
            lemma_leaning_takes_literals(*destination);
        },
        CommandView::Builtin { args, .. } => {
            assert forall|i: int| 0 <= i < args.len() implies (#[trigger] args[i]).is_literal() by {
                assert(command.arguments()[i].is_literal());
            }
        },
        CommandView::External { args, .. } => {
            assert forall|i: int| 0 <= i < args.len() implies (#[trigger] args[i]).is_literal() by {
                assert(command.arguments()[i].is_literal());
            }
        },
        _ => {},
    }
}

/// An expression is an operand, unless it is an error.
pub proof fn lemma_expression_shape(tokens: Seq<TokenView>, from: int)
    ensures
        expression(tokens, from).0 is Error || is_operand(expression(tokens, from).0),
{
    if 0 <= from < tokens.len() {
        let token = tokens[from];
        if token.kind == TokenKind::Word {
            let end = arguments_end(tokens, from + 1);
            lemma_arguments_end(tokens, from + 1);
            match arguments(tokens, from + 1, end) {
                Some(args) => {
                    let command = command_of(token, args);
                    assert(command.arguments() == args);
                    assert forall|i: int| 0 <= i < args.len() implies (#[trigger] args[i])
                        .is_literal() by {
                        assert(literal_of(tokens[from + 1 + i]) is Some);
                    }
                },
                None => {},
            }
        }
    }
}

/// Associativity: all that a statement holds before an operator is the
/// source of that operator, so a statement leans to the left, unless it
/// is an error.
pub proof fn lemma_chain_shape(tokens: Seq<TokenView>, at: int, left: CommandView)
    requires
        is_parsed(left),
    ensures
        is_parsed(chain(tokens, at, left).0),
    decreases tokens.len() - at,
{
    if !(left is Error) && 0 <= at < tokens.len() {
        match tokens[at].kind {
            TokenKind::GreaterThan | TokenKind::Pipe => {
                let (next, end) = binary(tokens, at, left);
                lemma_expression_shape(tokens, at + 1);
                lemma_expression_end(tokens, at + 1);
                lemma_chain_shape(tokens, end, next);
            },
            _ => {},
        }
    }
}

/// A statement is an error or leans to the left.
pub proof fn lemma_statement_shape(tokens: Seq<TokenView>, from: int)
    ensures
        is_parsed(statement(tokens, from).0),
{
    lemma_expression_shape(tokens, from);
    lemma_chain_shape(tokens, expression(tokens, from).1, expression(tokens, from).0);
}

/// Every command of a program is an error or leans to the left, and none
/// but the last is an error.
pub proof fn lemma_program_shape(tokens: Seq<TokenView>, from: int)
    ensures
        forall|i: int|
            0 <= i < program(tokens, from).0.len() ==> is_parsed(
                #[trigger] program(tokens, from).0[i],
            ),
        forall|i: int|
            0 <= i < program(tokens, from).0.len() - 1 ==> !(#[trigger] program(
                tokens,
                from,
            ).0[i] is Error),
    decreases tokens.len() - from,
{
    if 0 <= from < tokens.len() {
        let (command, end) = statement(tokens, from);
        lemma_statement_end(tokens, from);
        lemma_statement_shape(tokens, from);
        if !(command is Error || end >= tokens.len()) && end + 1 < tokens.len() {
            lemma_program_shape(tokens, end + 1);
            let more = program(tokens, end + 1).0;
            let all = program(tokens, from).0;
            assert(all == seq![command] + more);
            assert forall|i: int| 0 <= i < all.len() implies is_parsed(#[trigger] all[i]) by {
                if i > 0 {
                    assert(all[i] == more[i - 1]);
                }
            }
            assert forall|i: int| 0 <= i < all.len() - 1 implies !(#[trigger] all[i] is Error) by {
                if i > 0 {
                    assert(all[i] == more[i - 1]);
                }
            }
        }
    }
}

/// A parser over a sequence of tokens, which it reads from left to right.
pub struct Parser<'a> {
    tokens: &'a [Token],
    position: usize,
}

impl<'a> Parser<'a> {
    /// The tokens that the parser reads.
    pub closed spec fn tokens(&self) -> Seq<TokenView> {
        self.tokens.deep_view()
    }

    /// How many of the tokens the parser has read.
    pub closed spec fn position(&self) -> int {
        self.position as int
    }

    /// A parser that stands before the first of `tokens`.
    pub fn new(tokens: &'a [Token]) -> (parser: Parser<'a>)
        ensures
            parser.tokens() == tokens.deep_view(),
            parser.position() == 0,
    {
        Parser { tokens, position: 0 }
    }

    /// The kind of the token that comes next, if one is left.
    fn peek(&self) -> (kind: Option<TokenKind>)
        ensures
            kind is Some <==> 0 <= self.position() < self.tokens().len(),
            kind matches Some(k) ==> k == self.tokens()[self.position()].kind,
    {
        if self.position < self.tokens.len() {
            Some(self.tokens[self.position].kind)
        } else {
            None
        }
    }

    /// The literal that the next token resolves to, if it has one; the
    /// token is read either way.
    fn parse_literal(&mut self) -> (literal: Option<Command>)
        requires
            0 <= old(self).position() < old(self).tokens().len(),
        ensures
            final(self).tokens() == old(self).tokens(),
            final(self).position() == old(self).position() + 1,
            match literal {
                Some(command) => Some(command@) == literal_of(
                    old(self).tokens()[old(self).position()],
                ),
                None => literal_of(old(self).tokens()[old(self).position()]) is None,
            },
    {
        let token = &self.tokens[self.position];
        self.position = self.position + 1;
        match token.kind {
            TokenKind::Word | TokenKind::String => Some(
                Command { kind: CommandKind::String(token.value.clone()) },
            ),
            TokenKind::Boolean => if same_text(token.value.as_str(), "true") {
                Some(Command { kind: CommandKind::Boolean(true) })
            } else if same_text(token.value.as_str(), "false") {
                Some(Command { kind: CommandKind::Boolean(false) })
            } else {
                None
            },
            TokenKind::Integer => match parse_i64(token.value.as_str()) {
                Some(i) => Some(Command { kind: CommandKind::Integer(i) }),
                None => None,
            },
            TokenKind::Float => if has_float_shape(token.value.as_str()) {
                Some(Command { kind: CommandKind::Float(token.value.clone()) })
            } else {
                None
            },
            _ => None,
        }
    }

    /// Reads every token that can be an argument, up to the first that
    /// cannot, and resolves each to a literal. The result is `None` when
    /// one of them has no literal.
    fn parse_args(&mut self) -> (args: Option<Vec<Command>>)
        requires
            0 <= old(self).position() <= old(self).tokens().len(),
        ensures
            final(self).tokens() == old(self).tokens(),
            final(self).position() == arguments_end(old(self).tokens(), old(self).position()),
            match args {
                Some(args) => Some(args.deep_view()) == arguments(
                    old(self).tokens(),
                    old(self).position(),
                    final(self).position(),
                ),
                None => arguments(
                    old(self).tokens(),
                    old(self).position(),
                    final(self).position(),
                ) is None,
            },
    {
        let ghost tokens = self.tokens();
        let ghost from = self.position();
        let mut args: Vec<Command> = Vec::new();
        let mut resolved = true;
        loop
            invariant
                self.tokens() == tokens,
                from <= self.position() <= tokens.len(),
                arguments_end(tokens, from) == arguments_end(tokens, self.position()),
                resolved ==> args@.len() == self.position() - from,
                resolved ==> forall|i: int|
                    from <= i < self.position() ==> literal_of(#[trigger] tokens[i]) == Some(
                        args@[i - from]@,
                    ),
                !resolved ==> exists|i: int|
                    from <= i < self.position() && literal_of(#[trigger] tokens[i]) is None,
            ensures
                self.position() == arguments_end(tokens, from),
            decreases tokens.len() - self.position(),
        {
            let more = match self.peek() {
                Some(kind) => kind == TokenKind::Word || kind == TokenKind::String || kind
                    == TokenKind::Boolean || kind == TokenKind::Integer || kind
                    == TokenKind::Float,
                None => false,
            };
            if !more {
                break ;
            }
            let ghost at = self.position();
            match self.parse_literal() {
                Some(literal) => {
                    if resolved {
                        args.push(literal);
                    }
                },
                None => {
                    resolved = false;
                    assert(literal_of(tokens[at]) is None);
                },
            }
        }
        if resolved {
            assert(args.deep_view() =~= arguments(tokens, from, self.position()).unwrap());
            Some(args)
        } else {
            None
        }
    }

    /// Reads a word and its arguments: a builtin if the word is a reserved
    /// name, else an external command.
    fn parse_word(&mut self) -> (command: Command)
        requires
            0 <= old(self).position() < old(self).tokens().len(),
            old(self).tokens()[old(self).position()].kind == TokenKind::Word,
        ensures
            final(self).tokens() == old(self).tokens(),
            (command@, final(self).position()) == expression(
                old(self).tokens(),
                old(self).position(),
            ),
    {
        let token = &self.tokens[self.position];
        self.position = self.position + 1;
        let args = self.parse_args();
        match args {
            Some(args) => {
                let kind = match find_builtin(token.value.as_str()) {
                    Some(builtin) => CommandKind::Builtin { builtin, args },
                    None => CommandKind::External {
                        name: Token { value: token.value.clone(), kind: token.kind },
                        args,
                    },
                };
                let command = Command { kind };
                proof {
                    crate::command::lemma_arguments_view(&command);
                }
                command
            },
            None => Command { kind: CommandKind::Error("Unexpected token".to_owned()) },
        }
    }

    /// Reads a string.
    fn parse_string(&mut self) -> (command: Command)
        requires
            0 <= old(self).position() < old(self).tokens().len(),
            old(self).tokens()[old(self).position()].kind == TokenKind::String,
        ensures
            final(self).tokens() == old(self).tokens(),
            (command@, final(self).position()) == expression(
                old(self).tokens(),
                old(self).position(),
            ),
    {
        self.parse_scalar()
    }

    /// Reads a boolean.
    fn parse_boolean(&mut self) -> (command: Command)
        requires
            0 <= old(self).position() < old(self).tokens().len(),
            old(self).tokens()[old(self).position()].kind == TokenKind::Boolean,
        ensures
            final(self).tokens() == old(self).tokens(),
            (command@, final(self).position()) == expression(
                old(self).tokens(),
                old(self).position(),
            ),
    {
        self.parse_scalar()
    }

    /// Reads an integer.
    fn parse_integer(&mut self) -> (command: Command)
        requires
            0 <= old(self).position() < old(self).tokens().len(),
            old(self).tokens()[old(self).position()].kind == TokenKind::Integer,
        ensures
            final(self).tokens() == old(self).tokens(),
            (command@, final(self).position()) == expression(
                old(self).tokens(),
                old(self).position(),
            ),
    {
        self.parse_scalar()
    }

    /// Reads a float.
    fn parse_float(&mut self) -> (command: Command)
        requires
            0 <= old(self).position() < old(self).tokens().len(),
            old(self).tokens()[old(self).position()].kind == TokenKind::Float,
        ensures
            final(self).tokens() == old(self).tokens(),
            (command@, final(self).position()) == expression(
                old(self).tokens(),
                old(self).position(),
            ),
    {
        self.parse_scalar()
    }

    /// Reads a token that is an expression by itself: its literal, or an
    /// error when its text does not fit its kind.
    fn parse_scalar(&mut self) -> (command: Command)
        requires
            0 <= old(self).position() < old(self).tokens().len(),
            old(self).tokens()[old(self).position()].kind == TokenKind::String || old(
                self,
            ).tokens()[old(self).position()].kind == TokenKind::Boolean || old(self).tokens()[old(
                self,
            ).position()].kind == TokenKind::Integer || old(self).tokens()[old(
                self,
            ).position()].kind == TokenKind::Float,
        ensures
            final(self).tokens() == old(self).tokens(),
            (command@, final(self).position()) == expression(
                old(self).tokens(),
                old(self).position(),
            ),
    {
        match self.parse_literal() {
            Some(literal) => literal,
            None => Command { kind: CommandKind::Error("Unexpected token".to_owned()) },
        }
    }

    /// Reads one expression.
    fn parse_expression(&mut self) -> (command: Command)
        requires
            0 <= old(self).position() <= old(self).tokens().len(),
        ensures
            final(self).tokens() == old(self).tokens(),
            (command@, final(self).position()) == expression(
                old(self).tokens(),
                old(self).position(),
            ),
    {
        match self.peek() {
            Some(TokenKind::Word) => self.parse_word(),
            Some(TokenKind::String) => self.parse_string(),
            Some(TokenKind::Boolean) => self.parse_boolean(),
            Some(TokenKind::Integer) => self.parse_integer(),
            Some(TokenKind::Float) => self.parse_float(),
            Some(TokenKind::SemiColon) => Command { kind: CommandKind::Empty },
            Some(_) => Command { kind: CommandKind::Error("Unexpected token".to_owned()) },
            None => Command { kind: CommandKind::Error("Unexpected end of input".to_owned()) },
        }
    }

    /// Reads an operator and the expression after it, and joins `command`
    /// to that expression: a redirect for `>`, a pipe for `|`. An error in
    /// the expression is the result.
    fn parse_binary(&mut self, command: Command) -> (joined: Command)
        requires
            0 <= old(self).position() < old(self).tokens().len(),
            old(self).tokens()[old(self).position()].kind == TokenKind::GreaterThan || old(
                self,
            ).tokens()[old(self).position()].kind == TokenKind::Pipe,
        ensures
            final(self).tokens() == old(self).tokens(),
            (joined@, final(self).position()) == binary(
                old(self).tokens(),
                old(self).position(),
                command@,
            ),
    {
        let operator = self.tokens[self.position].kind;
        self.position = self.position + 1;
        let right = self.parse_expression();
        if right.is_error() {
            right
        } else if operator == TokenKind::GreaterThan {
            Command {
                kind: CommandKind::Redirect {
                    source: Box::new(command),
                    destination: Box::new(right),
                },
            }
        } else {
            Command {
                kind: CommandKind::Pipe { source: Box::new(command), destination: Box::new(right) },
            }
        }
    }

    /// Reads one statement: an expression, and every operator and
    /// expression that follow it.
    fn parse_statement(&mut self) -> (command: Command)
        requires
            0 <= old(self).position() <= old(self).tokens().len(),
        ensures
            final(self).tokens() == old(self).tokens(),
            (command@, final(self).position()) == statement(
                old(self).tokens(),
                old(self).position(),
            ),
    {
        let ghost tokens = self.tokens();
        let ghost from = self.position();
        proof {
            lemma_expression_end(tokens, from);
        }
        let mut command = self.parse_expression();
        loop
            invariant
                self.tokens() == tokens,
                0 <= self.position() <= tokens.len(),
                statement(tokens, from) == chain(tokens, self.position(), command@),
            ensures
                (command@, self.position()) == statement(tokens, from),
            decreases tokens.len() - self.position(),
        {
            if command.is_error() {
                break ;
            }
            match self.peek() {
                Some(TokenKind::GreaterThan) | Some(TokenKind::Pipe) => {
                    proof {
                        lemma_expression_end(tokens, self.position() + 1);
                    }
                    command = self.parse_binary(command);
                },
                Some(TokenKind::SemiColon) | None => {
                    break ;
                },
                Some(_) => {
                    command = Command { kind: CommandKind::Error("Unexpected token".to_owned()) };
                    break ;
                },
            }
        }
        command
    }

    /// Reads the statements that are left, one command for each.
    ///
    /// A statement that cannot be parsed becomes an error node, which
    /// stands for itself and for all that follows: it is the last
    /// command, and the parser is left at the end of the tokens. No
    /// tokens give no command; a `;` with nothing before it gives an
    /// empty statement; a `;` at the very end gives nothing more.
    pub fn parse(&mut self) -> (commands: Vec<Command>)
        ensures
            final(self).tokens() == old(self).tokens(),
            (commands.deep_view(), final(self).position()) == program(
                old(self).tokens(),
                old(self).position(),
            ),
            forall|i: int|
                0 <= i < commands@.len() ==> is_parsed((#[trigger] commands@[i])@)
                    && commands@[i]@.has_literal_arguments(),
            forall|i: int| 0 <= i < commands@.len() - 1 ==> !((#[trigger] commands@[i])@ is Error),
    {
        let ghost tokens = self.tokens();
        let ghost from = self.position();
        proof {
            lemma_program_shape(tokens, from);
        }
        let mut commands: Vec<Command> = Vec::new();
        assert(commands.deep_view() =~= Seq::<CommandView>::empty());
        assert(Seq::<CommandView>::empty() + program(tokens, from).0 == program(tokens, from).0);
        while self.position < self.tokens.len()
            invariant_except_break
                program(tokens, from) == (
                    commands.deep_view() + program(tokens, self.position()).0,
                    program(tokens, self.position()).1,
                ),
            invariant
                self.tokens() == tokens,
                0 <= self.position(),
            ensures
                (commands.deep_view(), self.position()) == program(tokens, from),
            decreases tokens.len() - self.position(),
        {
            let ghost at = self.position();
            let ghost before = commands.deep_view();
            proof {
                lemma_statement_end(tokens, at);
            }
            let command = self.parse_statement();
            let failed = command.is_error();
            commands.push(command);
            assert(commands.deep_view() =~= before + seq![command@]);
            if failed {
                self.position = self.tokens.len();
                break ;
            }
            if self.position >= self.tokens.len() {
                break ;
            }
            self.position = self.position + 1;
            if self.position >= self.tokens.len() {
                break ;
            }
            proof {
                let more = program(tokens, self.position()).0;
                assert(before + (seq![command@] + more) == (before + seq![command@]) + more);
            }
        }
        proof {
            assert(commands.deep_view() + Seq::<CommandView>::empty() == commands.deep_view());
            assert forall|i: int| 0 <= i < commands@.len() implies is_parsed(
                (#[trigger] commands@[i])@,
            ) && commands@[i]@.has_literal_arguments() by {
                assert(commands.deep_view()[i] == commands@[i]@);
                lemma_leaning_takes_literals(commands@[i]@);
            }
            assert forall|i: int| 0 <= i < commands@.len() - 1 implies !((
            #[trigger] commands@[i])@ is Error) by {
                assert(commands.deep_view()[i] == commands@[i]@);
            }
        }
        commands
    }
}

/// The commands of one line of input: its tokens, parsed. The call
/// fails exactly when the quotes of the line are not balanced.
pub fn parse_line(line: &str) -> (result: Result<Vec<Command>, String>)
    ensures
        result is Ok <==> quotes_balanced(line@),
        result matches Ok(commands) ==> tokens_of(line@) matches Some(tokens)
            && commands.deep_view() == parse_tokens(tokens),
        result matches Ok(commands) ==> forall|i: int|
            0 <= i < commands@.len() ==> is_parsed((#[trigger] commands@[i])@)
                && commands@[i]@.has_literal_arguments(),
        result matches Err(message) ==> message@ == "Syntax Error: Unterminated string"@,
{
    match lex(line) {
        Ok(tokens) => {
            let slice = tokens.as_slice();
            assert(slice.deep_view() =~= tokens.deep_view());
            let mut parser = Parser::new(slice);
            Ok(parser.parse())
        },
        Err(message) => Err(message),
    }
}

} // verus!
