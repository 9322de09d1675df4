//! Tokens: the parser's only input.

use vstd::prelude::*;

verus! {

/// The kind of a token.
#[derive(Clone, Copy, Debug, PartialEq, Eq, Structural)]
pub enum TokenType {
    // Single-character tokens
    LeftParen,
    RightParen,
    LeftBrace,
    RightBrace,
    Comma,
    Dot,
    Minus,
    Plus,
    Semicolon,
    Slash,
    Star,
    // One or two character tokens
    Bang,
    BangEqual,
    Equal,
    EqualEqual,
    Greater,
    GreaterEqual,
    Less,
    LessEqual,
    // Literals
    Identifier,
    String,
    Number,
    // Keywords
    And,
    Class,
    Else,
    False,
    Fun,
    For,
    If,
    Nil,
    Or,
    Print,
    Return,
    Super,
    This,
    True,
    Var,
    While,
    Eof,
}

/// The typed payload of a literal token. A number is held as the bit
/// pattern of an IEEE-754 double.
#[derive(Debug)]
pub enum LiteralValue {
    String(String),
    Number(u64),
    Boolean(bool),
    Nil,
}

/// The mathematical value of a [`LiteralValue`].
pub enum LiteralModel {
    String(Seq<char>),
    Number(u64),
    Boolean(bool),
    Nil,
}

impl View for LiteralValue {
    type V = LiteralModel;

    open spec fn view(&self) -> LiteralModel {
        match self {
            LiteralValue::String(s) => LiteralModel::String(s@),
            LiteralValue::Number(n) => LiteralModel::Number(*n),
            LiteralValue::Boolean(b) => LiteralModel::Boolean(*b),
            LiteralValue::Nil => LiteralModel::Nil,
        }
    }
}

impl Clone for LiteralValue {
    fn clone(&self) -> (r: Self)
        ensures
            r@ == self@,
    {
        match self {
            LiteralValue::String(s) => LiteralValue::String(s.clone()),
            LiteralValue::Number(n) => LiteralValue::Number(*n),
            LiteralValue::Boolean(b) => LiteralValue::Boolean(*b),
            LiteralValue::Nil => LiteralValue::Nil,
        }
    }
}

/// The view of an optional literal.
pub open spec fn literal_view(literal: Option<LiteralValue>) -> Option<LiteralModel> {
    match literal {
        Some(l) => Some(l@),
        None => None,
    }
}

/// Copies an optional literal.
pub fn clone_literal(literal: &Option<LiteralValue>) -> (r: Option<LiteralValue>)
    ensures
        literal_view(r) == literal_view(*literal),
{
    match literal {
        Some(l) => Some(l.clone()),
        None => None,
    }
}

/// A token: kind, source text, literal payload and line.
#[derive(Debug)]
pub struct Token {
    pub token_type: TokenType,
    pub lexeme: String,
    pub literal: Option<LiteralValue>,
    pub line: usize,
}

/// The mathematical value of a [`Token`].
pub struct TokenModel {
    pub token_type: TokenType,
    pub lexeme: Seq<char>,
    pub literal: Option<LiteralModel>,
    pub line: nat,
}

impl View for Token {
    type V = TokenModel;

    open spec fn view(&self) -> TokenModel {
        TokenModel {
            token_type: self.token_type,
            lexeme: self.lexeme@,
            literal: literal_view(self.literal),
            line: self.line as nat,
        }
    }
}

impl Token {
    pub fn new(token_type: TokenType, lexeme: String, literal: Option<LiteralValue>, line: usize) -> (r: Self)
        ensures
            r.token_type == token_type,
            r.lexeme == lexeme,
            r.literal == literal,
            r.line == line,
    {
        Token { token_type, lexeme, literal, line }
    }
}

impl Clone for Token {
    fn clone(&self) -> (r: Self)
        ensures
            r@ == self@,
    {
        Token {
            token_type: self.token_type,
            lexeme: self.lexeme.clone(),
            literal: clone_literal(&self.literal),
            line: self.line,
        }
    }
}

/// The views of a sequence of tokens, in order.
pub open spec fn tokens_view(tokens: Seq<Token>) -> Seq<TokenModel> {
    tokens.map_values(|t: Token| t@)
}

/// Copies a list of tokens.
pub fn clone_tokens(tokens: &Vec<Token>) -> (r: Vec<Token>)
    ensures
        tokens_view(r@) == tokens_view(tokens@),
{
    let mut out: Vec<Token> = Vec::new();
    let mut i: usize = 0;
    while i < tokens.len()
        invariant
            i <= tokens.len(),
            out@.len() == i,
            forall|j: int| 0 <= j < i ==> out@[j]@ == tokens@[j]@,
        decreases tokens.len() - i,
    {
        out.push(tokens[i].clone());
        i += 1;
    }
    assert(tokens_view(out@) =~= tokens_view(tokens@));
    out
}

/// Appending a token appends its view.
pub proof fn lemma_tokens_view_push(list: Seq<Token>, last: Token)
    ensures
        tokens_view(list.push(last)) == tokens_view(list).push(last@),
{
    assert(tokens_view(list.push(last)) =~= tokens_view(list).push(last@));
}

} // verus!
