use vstd::prelude::*;
use crate::types::Type;

verus! {

/// A lexical token of a Kurai program.
#[derive(Debug, Clone, PartialEq)]
pub enum Token {
    Let,
    If,
    Else,
    Type(Type),
    Id(String),
    Number(i64),
    /// A floating-point literal, held as the digits and the point that spell it.
    Float(String),
    Bool(bool),
    StringLiteral(String),
    Equal,
    Plus,
    Dash,
    Star,
    Slash,
    Semicolon,
    Quote,
    DoubleQuotes,
    OpenParenthese,
    CloseParenthese,
    Comma,
    OpenBracket,
    CloseBracket,
    Function,
    Extern,
    Import,
    As,
    Colon,
    Less,
    LessEqual,
    GreaterEqual,
    Greater,
    BangEqual,
    EqualEqual,
    Bang,
    Range,
    For,
    While,
    In,
    Loop,
    Break,
    Dot,
    Hash,
    CloseSquareBracket,
    OpenSquareBracket,
    Comment,
    Return,
}

/// The mathematical content of a token: its strings taken as character sequences.
pub enum TokenM {
    Let,
    If,
    Else,
    Type(Type),
    Id(Seq<char>),
    Number(i64),
    Float(Seq<char>),
    Bool(bool),
    StringLiteral(Seq<char>),
    Equal,
    Plus,
    Dash,
    Star,
    Slash,
    Semicolon,
    Quote,
    DoubleQuotes,
    OpenParenthese,
    CloseParenthese,
    Comma,
    OpenBracket,
    CloseBracket,
    Function,
    Extern,
    Import,
    As,
    Colon,
    Less,
    LessEqual,
    GreaterEqual,
    Greater,
    BangEqual,
    EqualEqual,
    Bang,
    Range,
    For,
    While,
    In,
    Loop,
    Break,
    Dot,
    Hash,
    CloseSquareBracket,
    OpenSquareBracket,
    Comment,
    Return,
}

impl View for Token {
    type V = TokenM;

    open spec fn view(&self) -> TokenM {
        match self {
            Token::Let => TokenM::Let,
            Token::If => TokenM::If,
            Token::Else => TokenM::Else,
            Token::Type(t) => TokenM::Type(*t),
            Token::Id(s) => TokenM::Id(s@),
            Token::Number(n) => TokenM::Number(*n),
            Token::Float(s) => TokenM::Float(s@),
            Token::Bool(b) => TokenM::Bool(*b),
            Token::StringLiteral(s) => TokenM::StringLiteral(s@),
            Token::Equal => TokenM::Equal,
            Token::Plus => TokenM::Plus,
            Token::Dash => TokenM::Dash,
            Token::Star => TokenM::Star,
            Token::Slash => TokenM::Slash,
            Token::Semicolon => TokenM::Semicolon,
            Token::Quote => TokenM::Quote,
            Token::DoubleQuotes => TokenM::DoubleQuotes,
            Token::OpenParenthese => TokenM::OpenParenthese,
            Token::CloseParenthese => TokenM::CloseParenthese,
            Token::Comma => TokenM::Comma,
            Token::OpenBracket => TokenM::OpenBracket,
            Token::CloseBracket => TokenM::CloseBracket,
            Token::Function => TokenM::Function,
            Token::Extern => TokenM::Extern,
            Token::Import => TokenM::Import,
            Token::As => TokenM::As,
            Token::Colon => TokenM::Colon,
            Token::Less => TokenM::Less,
            Token::LessEqual => TokenM::LessEqual,
            Token::GreaterEqual => TokenM::GreaterEqual,
            Token::Greater => TokenM::Greater,
            Token::BangEqual => TokenM::BangEqual,
            Token::EqualEqual => TokenM::EqualEqual,
            Token::Bang => TokenM::Bang,
            Token::Range => TokenM::Range,
            Token::For => TokenM::For,
            Token::While => TokenM::While,
            Token::In => TokenM::In,
            Token::Loop => TokenM::Loop,
            Token::Break => TokenM::Break,
            Token::Dot => TokenM::Dot,
            Token::Hash => TokenM::Hash,
            Token::CloseSquareBracket => TokenM::CloseSquareBracket,
            Token::OpenSquareBracket => TokenM::OpenSquareBracket,
            Token::Comment => TokenM::Comment,
            Token::Return => TokenM::Return,
        }
    }
}

/// The contents of a sequence of tokens.
pub open spec fn tokens_m(ts: Seq<Token>) -> Seq<TokenM> {
    ts.map_values(|t: Token| t@)
}

/// A token together with where it stands in the source.
#[derive(Debug, Clone)]
pub struct SpannedToken {
    pub token: Token,
    pub line: usize,
    pub column: usize,
    pub width: usize,
}

} // verus!
