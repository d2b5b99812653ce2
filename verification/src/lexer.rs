//! The lexer: one line of input becomes an ordered sequence of tokens.

use vstd::prelude::*;
use crate::text::{chars_of, string_of};

verus! {

/// What a token is.
#[derive(Debug, PartialEq, Eq, Clone, Copy, Structural)]
pub enum TokenKind {
    Word,
    String,
    Boolean,
    Integer,
    Float,
    GreaterThan,
    Pipe,
    SemiColon,
}

/// A minimal lexical unit: its text and its kind.
#[derive(Debug, PartialEq, Clone)]
pub struct Token {
    pub value: String,
    pub kind: TokenKind,
}

/// A token as a mathematical value.
pub struct TokenView {
    pub value: Seq<char>,
    pub kind: TokenKind,
}

impl View for Token {
    type V = TokenView;

    open spec fn view(&self) -> TokenView {
        TokenView { value: self.value@, kind: self.kind }
    }
}

impl DeepView for Token {
    type V = TokenView;

    open spec fn deep_view(&self) -> TokenView {
        self@
    }
}

/// The two characters that open and close a string.
pub open spec fn is_quote(c: char) -> bool {
    c == '\'' || c == '"'
}

/// The three characters that are tokens by themselves.
pub open spec fn is_operator(c: char) -> bool {
    c == '>' || c == '|' || c == ';'
}

/// The characters that separate tokens and are otherwise skipped: space,
/// tab, line feed, form feed and carriage return.
pub open spec fn is_blank(c: char) -> bool {
    c == ' ' || c == '\t' || c == '\n' || c == '\x0C' || c == '\r'
}

/// Whether a text of two or more characters starts and ends with the same quote.
pub open spec fn is_quoted(text: Seq<char>) -> bool {
    text.len() >= 2 && is_quote(text[0]) && text.last() == text[0]
}

/// The kind of a text that stands by itself.
pub open spec fn kind_of(text: Seq<char>) -> TokenKind {
    if text == seq!['>'] {
        TokenKind::GreaterThan
    } else if text == seq!['|'] {
        TokenKind::Pipe
    } else if text == seq![';'] {
        TokenKind::SemiColon
    } else if text == seq!['t', 'r', 'u', 'e'] || text == seq!['f', 'a', 'l', 's', 'e'] {
        TokenKind::Boolean
    } else if is_quoted(text) {
        TokenKind::String
    } else {
        TokenKind::Word
    }
}

/// The token that a text stands for: an operator, a boolean, a string
/// without the quotes around it, or else a word.
pub open spec fn classify(text: Seq<char>) -> TokenView {
    let kind = kind_of(text);
    TokenView {
        value: if kind == TokenKind::String {
            text.subrange(1, text.len() - 1)
        } else {
            text
        },
        kind,
    }
}

/// The string token whose content is `content`.
pub open spec fn string_token(content: Seq<char>) -> TokenView {
    TokenView { value: content, kind: TokenKind::String }
}

/// The tokens that pending text gives when it ends: none if there is no
/// text, else the one it stands for.
pub open spec fn flush(pending: Seq<char>) -> Seq<TokenView> {
    if pending.len() == 0 {
        Seq::empty()
    } else {
        seq![classify(pending)]
    }
}

/// `first` followed by `more`, if there is a `more`.
pub open spec fn followed_by(first: Seq<TokenView>, more: Option<Seq<TokenView>>) -> Option<
    Seq<TokenView>,
> {
    match more {
        Some(more) => Some(first + more),
        None => None,
    }
}

/// The tokens of `line`, read after the text `pending` that has not ended
/// yet; `None` when a string in `line` is not closed.
///
/// A quote ends the pending text and opens a string that runs up to the
/// next quote of the same kind, with everything between taken as it is.
/// An operator ends the pending text and is a token by itself. A blank
/// ends the pending text. Any other character joins the pending text.
pub open spec fn scan(line: Seq<char>, pending: Seq<char>) -> Option<Seq<TokenView>>
    decreases line.len(),
{
    if line.len() == 0 {
        Some(flush(pending))
    } else {
        let c = line[0];
        let rest = line.drop_first();
        if is_quote(c) {
            match rest.index_of_first(c) {
                None => None,
                Some(k) => {
                    proof {
                        rest.index_of_first_ensures(c);
                    }
                    followed_by(
                        flush(pending).push(string_token(rest.take(k))),
                        scan(rest.skip(k + 1), Seq::empty()),
                    )
                },
            }
        } else if is_operator(c) {
            followed_by(flush(pending).push(classify(seq![c])), scan(rest, Seq::empty()))
        } else if is_blank(c) {
            followed_by(flush(pending), scan(rest, Seq::empty()))
        } else {
            scan(rest, pending.push(c))
        }
    }
}

/// The tokens of a whole line.
pub open spec fn tokens_of(line: Seq<char>) -> Option<Seq<TokenView>> {
    scan(line, Seq::empty())
}

/// Whether every quote that opens a string in `line` has its closing quote.
/// Between the two, the other kind of quote is an ordinary character.
pub open spec fn quotes_balanced(line: Seq<char>) -> bool
    decreases line.len(),
{
    if line.len() == 0 {
        true
    } else if is_quote(line[0]) {
        match line.drop_first().index_of_first(line[0]) {
            None => false,
            Some(k) => {
                proof {
                    line.drop_first().index_of_first_ensures(line[0]);
                }
                quotes_balanced(line.drop_first().skip(k + 1))
            },
        }
    } else {
        quotes_balanced(line.drop_first())
    }
}

/// A line has tokens exactly when its quotes are balanced, whatever text
/// is pending.
pub proof fn lemma_scan_balanced(line: Seq<char>, pending: Seq<char>)
    ensures
        scan(line, pending) is Some <==> quotes_balanced(line),
    decreases line.len(),
{
    if line.len() > 0 {
        let c = line[0];
        let rest = line.drop_first();
        if is_quote(c) {
            rest.index_of_first_ensures(c);
            match rest.index_of_first(c) {
                None => {},
                Some(k) => {
                    lemma_scan_balanced(rest.skip(k + 1), Seq::empty());
                },
            }
        } else if is_operator(c) || is_blank(c) {
            lemma_scan_balanced(rest, Seq::empty());
        } else {
            lemma_scan_balanced(rest, pending.push(c));
        }
    }
}

/// A line has tokens exactly when its quotes are balanced.
pub proof fn lemma_tokens_iff_balanced(line: Seq<char>)
    ensures
        tokens_of(line) is Some <==> quotes_balanced(line),
{
    lemma_scan_balanced(line, Seq::empty());
}

/// Whether a token can come out of the lexer: no numeric kind, an operator
/// only with its own text, a boolean only as `true` or `false`, and a word
/// only as a non-empty text free of quotes, operators and blanks.
pub open spec fn is_lexed(t: TokenView) -> bool {
    match t.kind {
        TokenKind::Integer | TokenKind::Float => false,
        TokenKind::String => true,
        TokenKind::GreaterThan => t.value == seq!['>'],
        TokenKind::Pipe => t.value == seq!['|'],
        TokenKind::SemiColon => t.value == seq![';'],
        TokenKind::Boolean => t.value == seq!['t', 'r', 'u', 'e'] || t.value == seq![
            'f',
            'a',
            'l',
            's',
            'e',
        ],
        TokenKind::Word => t.value.len() > 0 && is_bare(t.value),
    }
}

/// Whether a text holds no quote, operator or blank.
pub open spec fn is_bare(text: Seq<char>) -> bool {
    forall|i: int|
        0 <= i < text.len() ==> !is_quote(#[trigger] text[i]) && !is_operator(text[i]) && !is_blank(
            text[i],
        )
}

/// Every token of a line can come out of the lexer, given that the pending
/// text is bare.
pub proof fn lemma_scan_lexed(line: Seq<char>, pending: Seq<char>)
    requires
        is_bare(pending),
    ensures
        scan(line, pending) matches Some(tokens) ==> forall|i: int|
            0 <= i < tokens.len() ==> is_lexed(#[trigger] tokens[i]),
    decreases line.len(),
{
    lemma_flush_lexed(pending);
    if line.len() > 0 {
        let c = line[0];
        let rest = line.drop_first();
        if is_quote(c) {
            rest.index_of_first_ensures(c);
            match rest.index_of_first(c) {
                None => {},
                Some(k) => {
                    lemma_scan_lexed(rest.skip(k + 1), Seq::empty());
                },
            }
        } else if is_operator(c) {
            lemma_scan_lexed(rest, Seq::empty());
            assert(classify(seq![c]).value == seq![c]);
            assert(seq![c] != seq!['t', 'r', 'u', 'e'] && seq![c] != seq!['f', 'a', 'l', 's', 'e'])
                by {
                assert(seq![c].len() == 1);
                assert(seq!['t', 'r', 'u', 'e'].len() == 4);
                assert(seq!['f', 'a', 'l', 's', 'e'].len() == 5);
            }
            assert(seq![c] == seq!['>'] || seq![c] == seq!['|'] || seq![c] == seq![';']);
        } else if is_blank(c) {
            lemma_scan_lexed(rest, Seq::empty());
        } else {
            lemma_scan_lexed(rest, pending.push(c));
        }
    }
}

/// What bare pending text gives can come out of the lexer.
proof fn lemma_flush_lexed(pending: Seq<char>)
    requires
        is_bare(pending),
    ensures
        forall|i: int| 0 <= i < flush(pending).len() ==> is_lexed(#[trigger] flush(pending)[i]),
{
    if pending.len() > 0 {
        assert(!is_quote(pending[0]) && !is_operator(pending[0]));
        assert(pending != seq!['>'] && pending != seq!['|'] && pending != seq![';']) by {
            assert(seq!['>'][0] == '>');
            assert(seq!['|'][0] == '|');
            assert(seq![';'][0] == ';');
        }
        assert(!is_quoted(pending));
    }
}

/// Every token of a line can come out of the lexer: in particular none is
/// an integer or a float.
pub proof fn lemma_tokens_lexed(line: Seq<char>)
    ensures
        tokens_of(line) matches Some(tokens) ==> forall|i: int|
            0 <= i < tokens.len() ==> is_lexed(#[trigger] tokens[i]),
{
    lemma_scan_lexed(line, Seq::empty());
}

/// The token that `chars[from..to]` stands for.
fn classify_chars(chars: &Vec<char>, from: usize, to: usize) -> (token: Token)
    requires
        from <= to <= chars@.len(),
    ensures
        token@ == classify(chars@.subrange(from as int, to as int)),
{
    let ghost text = chars@.subrange(from as int, to as int);
    let len = to - from;
    let operator = len == 1 && (chars[from] == '>' || chars[from] == '|' || chars[from] == ';');
    let is_true = len == 4 && chars[from] == 't' && chars[from + 1] == 'r' && chars[from + 2] == 'u'
        && chars[from + 3] == 'e';
    let is_false = len == 5 && chars[from] == 'f' && chars[from + 1] == 'a' && chars[from + 2]
        == 'l' && chars[from + 3] == 's' && chars[from + 4] == 'e';
    let quoted = len >= 2 && (chars[from] == '\'' || chars[from] == '"') && chars[to - 1]
        == chars[from];
    proof {
        assert(is_true == (text == seq!['t', 'r', 'u', 'e'])) by {
            let word = seq!['t', 'r', 'u', 'e'];
            assert(word.len() == 4 && word[0] == 't' && word[1] == 'r' && word[2] == 'u'
                && word[3] == 'e');
            if is_true {
                assert(text =~= word);
            }
        }
        assert(is_false == (text == seq!['f', 'a', 'l', 's', 'e'])) by {
            let word = seq!['f', 'a', 'l', 's', 'e'];
            assert(word.len() == 5 && word[0] == 'f' && word[1] == 'a' && word[2] == 'l'
                && word[3] == 's' && word[4] == 'e');
            if is_false {
                assert(text =~= word);
            }
        }
        assert(quoted == is_quoted(text));
        assert forall|c: char| (text == seq![c]) == (len == 1 && text[0] == c) by {
            assert(seq![c].len() == 1 && seq![c][0] == c);
            if len == 1 && text[0] == c {
                assert(text =~= seq![c]);
            }
        }
    }
    let kind = if operator {
        if chars[from] == '>' {
            TokenKind::GreaterThan
        } else if chars[from] == '|' {
            TokenKind::Pipe
        } else {
            TokenKind::SemiColon
        }
    } else if is_true || is_false {
        TokenKind::Boolean
    } else if quoted {
        TokenKind::String
    } else {
        TokenKind::Word
    };
    assert(kind == kind_of(text));
    if quoted && !operator && !is_true && !is_false {
        assert(text.subrange(1, text.len() - 1) == chars@.subrange(from + 1, to - 1));
        Token { value: string_of(chars, from + 1, to - 1), kind }
    } else {
        Token { value: string_of(chars, from, to), kind }
    }
}

impl Token {
    /// The token that `value` stands for when it stands by itself: `>`,
    /// `|` and `;` are the operators, `true` and `false` the booleans; a
    /// text of two or more characters between two quotes of one kind is a
    /// string, which loses the quotes; anything else is a word.
    pub fn new(value: &str) -> (token: Token)
        ensures
            token@ == classify(value@),
    {
        let chars = chars_of(value);
        assert(chars@.subrange(0, chars@.len() as int) == chars@);
        classify_chars(&chars, 0, chars.len())
    }
}

/// Ends the pending text `chars[from..to]`: its token, if it is not empty,
/// joins `tokens`.
fn flush_pending(chars: &Vec<char>, from: usize, to: usize, tokens: &mut Vec<Token>)
    requires
        from <= to <= chars@.len(),
    ensures
        final(tokens).deep_view() == old(tokens).deep_view() + flush(
            chars@.subrange(from as int, to as int),
        ),
{
    if from < to {
        let token = classify_chars(chars, from, to);
        tokens.push(token);
        assert(tokens.deep_view() =~= old(tokens).deep_view() + seq![token@]);
    } else {
        assert(tokens.deep_view() =~= old(tokens).deep_view() + Seq::<TokenView>::empty());
    }
}

/// Reads the string that the quote at `chars[open]` opens. When the same
/// quote comes again, the text between the two joins `tokens` as a string
/// token, and the result is the position after the closing quote. When it
/// does not, `tokens` stays as it is and the result is `None`.
fn lex_string(chars: &Vec<char>, open: usize, tokens: &mut Vec<Token>) -> (next: Option<usize>)
    requires
        open < chars@.len(),
    ensures
        match chars@.skip(open + 1).index_of_first(chars@[open as int]) {
            None => next is None && *final(tokens) == *old(tokens),
            Some(k) => {
                &&& 0 <= k < chars@.len() - open - 1
                &&& next == Some((open + k + 2) as usize)
                &&& final(tokens).deep_view() == old(tokens).deep_view().push(
                    string_token(chars@.skip(open + 1).take(k)),
                )
            },
        },
{
    let n = chars.len();
    let quote = chars[open];
    let ghost rest = chars@.skip(open + 1);
    let mut close: usize = open + 1;
    while close < n && chars[close] != quote
        invariant
            open < close <= n == chars@.len(),
            rest == chars@.skip(open + 1),
            forall|j: int| 0 <= j < close - open - 1 ==> rest[j] != quote,
        decreases chars@.len() - close,
    {
        close = close + 1;
    }
    proof {
        rest.index_of_first_ensures(quote);
    }
    if close < n {
        assert(rest[close - open - 1] == quote);
        assert(rest.index_of_first(quote) == Some(close - open - 1));
        let content = string_of(chars, open + 1, close);
        assert(content@ == rest.take(close - open - 1));
        tokens.push(Token { value: content, kind: TokenKind::String });
        assert(tokens.deep_view() =~= old(tokens).deep_view().push(
            string_token(rest.take(close - open - 1)),
        ));
        Some(close + 1)
    } else {
        assert(!rest.contains(quote)) by {
            if rest.contains(quote) {
                let j = choose|j: int| 0 <= j < rest.len() && rest[j] == quote;
                assert(rest[j] != quote);
            }
        }
        None
    }
}

/// The tokens of one line of input.
///
/// The line is read once, from left to right. The call fails exactly when
/// the quotes of the line are not balanced, that is when a string is
/// opened and the line ends before its closing quote; the error then says
/// that a string is not terminated.
pub fn lex(line: &str) -> (result: Result<Vec<Token>, String>)
    ensures
        result is Ok <==> quotes_balanced(line@),
        result matches Ok(tokens) ==> tokens_of(line@) == Some(tokens.deep_view()),
        result matches Ok(tokens) ==> forall|i: int|
            0 <= i < tokens@.len() ==> is_lexed(#[trigger] tokens@[i]@),
        result matches Err(message) ==> message@ == "Syntax Error: Unterminated string"@,
{
    let chars = chars_of(line);
    let n = chars.len();
    let mut tokens: Vec<Token> = Vec::new();
    let mut word_start: usize = 0;
    let mut i: usize = 0;
    proof {
        assert(chars@.skip(0) == chars@);
        assert(chars@.subrange(0, 0) == Seq::<char>::empty());
        assert(tokens.deep_view() =~= Seq::<TokenView>::empty());
        assert(followed_by(Seq::<TokenView>::empty(), tokens_of(line@)) == tokens_of(line@)) by {
            if tokens_of(line@) is Some {
                assert(Seq::<TokenView>::empty() + tokens_of(line@).unwrap() == tokens_of(
                    line@,
                ).unwrap());
            }
        }
    }
    while i < n
        invariant
            word_start <= i <= n == chars@.len(),
            chars@ == line@,
            tokens_of(line@) == followed_by(
                tokens.deep_view(),
                scan(chars@.skip(i as int), chars@.subrange(word_start as int, i as int)),
            ),
        decreases n - i,
    {
        let c = chars[i];
        let ghost here = chars@.skip(i as int);
        let ghost pending = chars@.subrange(word_start as int, i as int);
        let ghost before = tokens.deep_view();
        assert(here.len() > 0 && here[0] == c);
        assert(here.drop_first() == chars@.skip(i + 1));
        if c == '\'' || c == '"' {
            flush_pending(&chars, word_start, i, &mut tokens);
            match lex_string(&chars, i, &mut tokens) {
                None => {
                    proof {
                        assert(scan(here, pending) is None);
                        lemma_tokens_iff_balanced(line@);
                    }
                    return Err("Syntax Error: Unterminated string".to_owned());
                },
                Some(next) => {
                    proof {
                        let k = next - i - 2;
                        let rest = chars@.skip(i + 1);
                        assert(rest.skip(k + 1) == chars@.skip(next as int));
                        assert(chars@.subrange(next as int, next as int) == Seq::<char>::empty());
                        let first = flush(pending).push(string_token(rest.take(k)));
                        let more = scan(rest.skip(k + 1), Seq::empty());
                        assert(scan(here, pending) == followed_by(first, more));
                        assert(tokens.deep_view() == before + first);
                        if more is Some {
                            assert(before + (first + more.unwrap()) == (before + first)
                                + more.unwrap());
                        }
                    }
                    i = next;
                    word_start = next;
                },
            }
        } else if c == '>' || c == '|' || c == ';' {
            flush_pending(&chars, word_start, i, &mut tokens);
            let ghost flushed = tokens.deep_view();
            let operator = classify_chars(&chars, i, i + 1);
            tokens.push(operator);
            proof {
                assert(chars@.subrange(i as int, i + 1) == seq![c]);
                assert(tokens.deep_view() =~= flushed.push(classify(seq![c])));
                assert(chars@.subrange(i + 1, i + 1) == Seq::<char>::empty());
                let first = flush(pending).push(classify(seq![c]));
                let more = scan(chars@.skip(i + 1), Seq::empty());
                assert(scan(here, pending) == followed_by(first, more));
                assert(tokens.deep_view() == before + first);
                if more is Some {
                    assert(before + (first + more.unwrap()) == (before + first) + more.unwrap());
                }
            }
            i = i + 1;
            word_start = i;
        } else if c == ' ' || c == '\t' || c == '\n' || c == '\x0C' || c == '\r' {
            flush_pending(&chars, word_start, i, &mut tokens);
            proof {
                assert(chars@.subrange(i + 1, i + 1) == Seq::<char>::empty());
                let first = flush(pending);
                let more = scan(chars@.skip(i + 1), Seq::empty());
                assert(scan(here, pending) == followed_by(first, more));
                if more is Some {
                    assert(before + (first + more.unwrap()) == (before + first) + more.unwrap());
                }
            }
            i = i + 1;
            word_start = i;
        } else {
            assert(chars@.subrange(word_start as int, i + 1) == pending.push(c));
            i = i + 1;
        }
    }
    let ghost before = tokens.deep_view();
    flush_pending(&chars, word_start, n, &mut tokens);
    proof {
        lemma_tokens_iff_balanced(line@);
        lemma_tokens_lexed(line@);
        assert(chars@.skip(n as int).len() == 0);
        assert(tokens_of(line@) == Some(tokens.deep_view()));
        assert forall|i: int| 0 <= i < tokens@.len() implies is_lexed(#[trigger] tokens@[i]@) by {
            assert(tokens.deep_view()[i] == tokens@[i]@);
        }
    }
    Ok(tokens)
}

} // verus!
