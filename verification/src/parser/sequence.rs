use vstd::prelude::*;
use crate::token::{Token, TokenM};
use crate::ast::{BinOp, Expr, ExprM, Stmt, StmtM, exprs_m, stmts_m, lemma_exprs_m_push, lemma_stmts_m_push};
use crate::scope::Scope;
use crate::parser::state::{grows, PS, Res, ParseFailure, rem_at, ps, outcome, error, abort};
use crate::parser::grammar::{sp_program, sp_expr_list, sp_equal, equal_loop, equal_op, eat_comma};
use crate::parser::descent::{stmt_core, expr_core};
use crate::parser::pieces::skip_comma;

verus! {

/// Statements from `*pos` to the end of the tokens.
pub fn program_core(tokens: &[Token], pos: &mut usize, dm: &mut Vec<String>, scope: &mut Scope, acc: Vec<Stmt>)
    -> (res: Result<Vec<Stmt>, ParseFailure>)
    requires
        tokens@.len() < usize::MAX,
    ensures
        grows(ps(*old(pos), *old(dm), *old(scope)), ps(*final(pos), *final(dm), *final(scope))),
        outcome(res, ps(*final(pos), *final(dm), *final(scope)),
            sp_program(tokens@, ps(*old(pos), *old(dm), *old(scope)), stmts_m(acc@)), |v: Vec<Stmt>| stmts_m(v@)),
    decreases rem_at(tokens@, *old(pos) as int),
{
    if !(*pos < tokens.len()) {
        return Ok(acc);
    }
    let start = *pos;
    let st = match stmt_core(tokens, pos, dm, scope) {
        Ok(st) => st,
        Err(ParseFailure::Error(m)) => {
            return Err(ParseFailure::Abort(m));
        },
        Err(ParseFailure::Abort(m)) => {
            return Err(ParseFailure::Abort(m));
        },
    };
    if *pos <= start {
        return Err(abort("A statement made no progress"));
    }
    let mut acc = acc;
    proof {
        lemma_stmts_m_push(acc@, st);
    }
    acc.push(st);
    program_core(tokens, pos, dm, scope, acc)
}

/// Expressions, each followed by an optional comma, from `*pos` to the end of the tokens.
pub fn expr_list_core(tokens: &[Token], pos: &mut usize, dm: &mut Vec<String>, scope: &mut Scope, acc: Vec<Expr>)
    -> (res: Result<Vec<Expr>, ParseFailure>)
    requires
        tokens@.len() < usize::MAX,
    ensures
        grows(ps(*old(pos), *old(dm), *old(scope)), ps(*final(pos), *final(dm), *final(scope))),
        outcome(res, ps(*final(pos), *final(dm), *final(scope)),
            sp_expr_list(tokens@, ps(*old(pos), *old(dm), *old(scope)), exprs_m(acc@)), |v: Vec<Expr>| exprs_m(v@)),
    decreases rem_at(tokens@, *old(pos) as int),
{
    if !(*pos < tokens.len()) {
        return Ok(acc);
    }
    let start = *pos;
    match expr_core(tokens, pos, false, dm, scope) {
        Ok(e) => {
            if *pos <= start {
                return Err(abort("An expression made no progress"));
            }
            skip_comma(tokens, pos, Ghost(ps(*pos, *dm, *scope)));
            let mut acc = acc;
            proof {
                lemma_exprs_m_push(acc@, e);
            }
            acc.push(e);
            expr_list_core(tokens, pos, dm, scope, acc)
        },
        Err(ParseFailure::Error(m)) => {
            if *pos <= start {
                Err(ParseFailure::Error(m))
            } else {
                expr_list_core(tokens, pos, dm, scope, acc)
            }
        },
        Err(ParseFailure::Abort(m)) => Err(ParseFailure::Abort(m)),
    }
}

fn equal_operator(t: &Token) -> (res: Option<BinOp>)
    ensures
        res == equal_op(t@),
{
    match t {
        Token::Less => Some(BinOp::Lt),
        Token::LessEqual => Some(BinOp::Le),
        Token::Greater => Some(BinOp::Gt),
        Token::GreaterEqual => Some(BinOp::Ge),
        Token::EqualEqual => Some(BinOp::Eq),
        Token::BangEqual => Some(BinOp::Ne),
        _ => None,
    }
}

/// A condition followed by comparisons up to the end of the tokens.
pub fn equal_core(tokens: &[Token], pos: &mut usize, dm: &mut Vec<String>, scope: &mut Scope)
    -> (res: Result<Expr, ParseFailure>)
    requires
        tokens@.len() < usize::MAX,
    ensures
        grows(ps(*old(pos), *old(dm), *old(scope)), ps(*final(pos), *final(dm), *final(scope))),
        outcome(res, ps(*final(pos), *final(dm), *final(scope)),
            sp_equal(tokens@, ps(*old(pos), *old(dm), *old(scope))), |v: Expr| v@),
{
    let left = expr_core(tokens, pos, true, dm, scope)?;
    equal_loop_core(tokens, pos, dm, scope, left)
}

fn equal_loop_core(tokens: &[Token], pos: &mut usize, dm: &mut Vec<String>, scope: &mut Scope, left: Expr)
    -> (res: Result<Expr, ParseFailure>)
    requires
        tokens@.len() < usize::MAX,
    ensures
        grows(ps(*old(pos), *old(dm), *old(scope)), ps(*final(pos), *final(dm), *final(scope))),
        outcome(res, ps(*final(pos), *final(dm), *final(scope)),
            equal_loop(tokens@, ps(*old(pos), *old(dm), *old(scope)), left@), |v: Expr| v@),
    decreases rem_at(tokens@, *old(pos) as int),
{
    if !(*pos < tokens.len()) {
        return Ok(left);
    }
    let op = match equal_operator(&tokens[*pos]) {
        Some(op) => op,
        None => {
            return Err(abort("Expected a comparison operator"));
        },
    };
    *pos = *pos + 1;
    let right = expr_core(tokens, pos, true, dm, scope)?;
    equal_loop_core(tokens, pos, dm, scope, Expr::Binary { op, left: Box::new(left), right: Box::new(right) })
}

} // verus!
