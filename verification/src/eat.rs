use vstd::prelude::*;
use crate::types::Type;
use crate::token::{Token, TokenM};
use crate::ast::{Stmt, StmtM};
use crate::same::same_stmt;

verus! {

/// Which kind of token a token is, one number per variant.
pub open spec fn token_kind(t: TokenM) -> u8 {
    match t {
        TokenM::Let => 0,
        TokenM::If => 1,
        TokenM::Else => 2,
        TokenM::Type(..) => 3,
        TokenM::Id(..) => 4,
        TokenM::Number(..) => 5,
        TokenM::Float(..) => 6,
        TokenM::Bool(..) => 7,
        TokenM::StringLiteral(..) => 8,
        TokenM::Equal => 9,
        TokenM::Plus => 10,
        TokenM::Dash => 11,
        TokenM::Star => 12,
        TokenM::Slash => 13,
        TokenM::Semicolon => 14,
        TokenM::Quote => 15,
        TokenM::DoubleQuotes => 16,
        TokenM::OpenParenthese => 17,
        TokenM::CloseParenthese => 18,
        TokenM::Comma => 19,
        TokenM::OpenBracket => 20,
        TokenM::CloseBracket => 21,
        TokenM::Function => 22,
        TokenM::Extern => 23,
        TokenM::Import => 24,
        TokenM::As => 25,
        TokenM::Colon => 26,
        TokenM::Less => 27,
        TokenM::LessEqual => 28,
        TokenM::GreaterEqual => 29,
        TokenM::Greater => 30,
        TokenM::BangEqual => 31,
        TokenM::EqualEqual => 32,
        TokenM::Bang => 33,
        TokenM::Range => 34,
        TokenM::For => 35,
        TokenM::While => 36,
        TokenM::In => 37,
        TokenM::Loop => 38,
        TokenM::Break => 39,
        TokenM::Dot => 40,
        TokenM::Hash => 41,
        TokenM::CloseSquareBracket => 42,
        TokenM::OpenSquareBracket => 43,
        TokenM::Comment => 44,
        TokenM::Return => 45,
    }
}

fn kind_of(t: &Token) -> (res: u8)
    ensures
        res == token_kind(t@),
{
    match t {
        Token::Let => 0,
        Token::If => 1,
        Token::Else => 2,
        Token::Type(..) => 3,
        Token::Id(..) => 4,
        Token::Number(..) => 5,
        Token::Float(..) => 6,
        Token::Bool(..) => 7,
        Token::StringLiteral(..) => 8,
        Token::Equal => 9,
        Token::Plus => 10,
        Token::Dash => 11,
        Token::Star => 12,
        Token::Slash => 13,
        Token::Semicolon => 14,
        Token::Quote => 15,
        Token::DoubleQuotes => 16,
        Token::OpenParenthese => 17,
        Token::CloseParenthese => 18,
        Token::Comma => 19,
        Token::OpenBracket => 20,
        Token::CloseBracket => 21,
        Token::Function => 22,
        Token::Extern => 23,
        Token::Import => 24,
        Token::As => 25,
        Token::Colon => 26,
        Token::Less => 27,
        Token::LessEqual => 28,
        Token::GreaterEqual => 29,
        Token::Greater => 30,
        Token::BangEqual => 31,
        Token::EqualEqual => 32,
        Token::Bang => 33,
        Token::Range => 34,
        Token::For => 35,
        Token::While => 36,
        Token::In => 37,
        Token::Loop => 38,
        Token::Break => 39,
        Token::Dot => 40,
        Token::Hash => 41,
        Token::CloseSquareBracket => 42,
        Token::OpenSquareBracket => 43,
        Token::Comment => 44,
        Token::Return => 45,
    }
}

/// Whether two types are the same type.
pub fn type_eq(a: &Type, b: &Type) -> (res: bool)
    ensures
        res == (*a == *b),
    decreases *a,
{
    match (a, b) {
        (Type::Ptr(x), Type::Ptr(y)) => type_eq(&**x, &**y),
        (Type::I8, Type::I8) => true,
        (Type::I16, Type::I16) => true,
        (Type::I32, Type::I32) => true,
        (Type::I64, Type::I64) => true,
        (Type::I128, Type::I128) => true,
        (Type::F16, Type::F16) => true,
        (Type::F32, Type::F32) => true,
        (Type::F64, Type::F64) => true,
        (Type::F128, Type::F128) => true,
        (Type::Bool, Type::Bool) => true,
        (Type::Str, Type::Str) => true,
        (Type::Unknown, Type::Unknown) => true,
        (Type::Var, Type::Var) => true,
        (Type::Void, Type::Void) => true,
        _ => false,
    }
}

/// Whether two tokens are the same token (strings compared by their characters).
pub fn token_eq(a: &Token, b: &Token) -> (res: bool)
    ensures
        res == (a@ == b@),
{
    let ka = kind_of(a);
    let kb = kind_of(b);
    if ka != kb {
        return false;
    }
    match (a, b) {
        (Token::Type(x), Token::Type(y)) => type_eq(x, y),
        (Token::Id(x), Token::Id(y)) => *x == *y,
        (Token::Number(x), Token::Number(y)) => *x == *y,
        (Token::Float(x), Token::Float(y)) => *x == *y,
        (Token::Bool(x), Token::Bool(y)) => *x == *y,
        (Token::StringLiteral(x), Token::StringLiteral(y)) => *x == *y,
        _ => true,
    }
}

/// The token at `pos`, if `pos` is inside the list.
pub open spec fn token_at(tokens: Seq<Token>, pos: int) -> Option<TokenM> {
    if 0 <= pos < tokens.len() { Some(tokens[pos]@) } else { None }
}

/// Consumes `expected` when it is the token at `*pos`: then `*pos` moves past it and
/// the answer is `true`; otherwise nothing changes and the answer is `false`.
pub fn eat(expected: &Token, tokens: &[Token], pos: &mut usize) -> (res: bool)
    ensures
        res == (token_at(tokens@, *old(pos) as int) == Some(expected@)),
        *final(pos) == if res { *old(pos) + 1 } else { *old(pos) as int },
{
    if *pos < tokens.len() && token_eq(&tokens[*pos], expected) {
        *pos = *pos + 1;
        true
    } else {
        false
    }
}

/// The statement at `pos`, if `pos` is inside the list.
pub open spec fn stmt_at(stmts: Seq<Stmt>, pos: int) -> Option<StmtM> {
    if 0 <= pos < stmts.len() { Some(stmts[pos]@) } else { None }
}

/// Consumes `expected` when it is the statement at `*pos`: then `*pos` moves past it and
/// the answer is `true`; otherwise nothing changes and the answer is `false`.
pub fn eat_stmt(expected: &Stmt, stmts: &[Stmt], pos: &mut usize) -> (res: bool)
    ensures
        res == (stmt_at(stmts@, *old(pos) as int) == Some(expected@)),
        *final(pos) == if res { *old(pos) + 1 } else { *old(pos) as int },
{
    if *pos < stmts.len() && same_stmt(&stmts[*pos], expected) {
        *pos = *pos + 1;
        true
    } else {
        false
    }
}

} // verus!
