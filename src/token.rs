use vstd::prelude::*;

verus! {

/// The decoded value carried by a literal token.
///
/// A number keeps the decimal text that spells it (digits, an optional point,
/// optional digits); its numeric value is the decimal that text writes.
#[derive(Debug)]
pub enum Literal {
    Identifier(String),
    String(String),
    Number(String),
}

/// What a `Literal` holds, as sequences of characters.
pub enum LiteralModel {
    Identifier(Seq<char>),
    String(Seq<char>),
    Number(Seq<char>),
}

impl View for Literal {
    type V = LiteralModel;

    open spec fn view(&self) -> LiteralModel {
        match self {
            Literal::Identifier(s) => LiteralModel::Identifier(s@),
            Literal::String(s) => LiteralModel::String(s@),
            Literal::Number(s) => LiteralModel::Number(s@),
        }
    }
}

/// The lexical category of a token.
#[derive(Debug)]
pub enum TokenKind {
    // Single-character tokens
    LeftParen,
    RightParen,
    LeftBrace,
    RightBrace,
    Comma,
    Dot,
    Minus,
    Plus,
    Semicolon,
    Slash,
    Star,
    // One or two character tokens
    Bang,
    BangEqual,
    Equal,
    EqualEqual,
    Greater,
    GreaterEqual,
    Less,
    LessEqual,
    // Literals
    Literal(Literal),
    // Keywords
    And,
    Class,
    Else,
    False,
    Fun,
    For,
    If,
    Nil,
    Or,
    Print,
    Return,
    Super,
    This,
    True,
    Var,
    While,
    EndOfInput,
}

/// A token kind seen abstractly: a plain marker (any variant but `Literal`),
/// or a literal with its model.
pub enum KindModel {
    Marker(TokenKind),
    Literal(LiteralModel),
}

impl View for TokenKind {
    type V = KindModel;

    open spec fn view(&self) -> KindModel {
        match self {
            TokenKind::Literal(l) => KindModel::Literal(l@),
            _ => KindModel::Marker(*self),
        }
    }
}

/// A classified piece of source text.
#[derive(Debug)]
pub struct Token {
    pub kind: TokenKind,
    /// The exact text consumed for the token (empty for the end marker).
    pub lexeme: String,
    /// The 1-based line of the token's first character.
    pub line: usize,
}

/// What a `Token` holds, abstractly.
pub struct TokenModel {
    pub kind: KindModel,
    pub lexeme: Seq<char>,
    pub line: nat,
}

impl View for Token {
    type V = TokenModel;

    open spec fn view(&self) -> TokenModel {
        TokenModel { kind: self.kind@, lexeme: self.lexeme@, line: self.line as nat }
    }
}

impl Token {
    pub fn new(kind: TokenKind, lexeme: &str, line: usize) -> (r: Token)
        ensures
            r.kind == kind,
            r.lexeme@ == lexeme@,
            r.line == line,
    {
        Token { kind, lexeme: lexeme.to_owned(), line }
    }
}

/// The abstract views of a sequence of tokens, in order.
pub open spec fn token_models(ts: Seq<Token>) -> Seq<TokenModel> {
    ts.map_values(|t: Token| t@)
}

} // verus!
