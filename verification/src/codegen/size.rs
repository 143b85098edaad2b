use vstd::prelude::*;
use crate::ast::{Expr, Stmt, IfBranch};

verus! {

/// The size of an expression: what code generation's recursion on it decreases.
pub open spec fn expr_size(e: Expr) -> nat
    decreases e,
{
    match e {
        Expr::Id(_) => 1,
        Expr::Literal(_) => 1,
        Expr::Binary { op, left, right } => 1 + expr_size(*left) + expr_size(*right),
        Expr::FnCall { name, args } => 3 + exprs_size(args@),
        Expr::If { branches, else_body } => 2 + branches_size(branches@) + match else_body {
            Some(v) => exprs_size(v@),
            None => 0,
        },
        Expr::Block { stmts, final_expr } => 2 + stmts_size(stmts@) + match final_expr {
            Some(b) => expr_size(*b),
            None => 0,
        },
    }
}

pub open spec fn exprs_size(s: Seq<Expr>) -> nat
    decreases s,
{
    if s.len() == 0 { 0 } else { exprs_size(s.drop_last()) + expr_size(s.last()) }
}

pub open spec fn branch_size(b: IfBranch) -> nat
    decreases b,
{
    expr_size(b.condition) + exprs_size(b.body@)
}

pub open spec fn branches_size(s: Seq<IfBranch>) -> nat
    decreases s,
{
    if s.len() == 0 { 0 } else { branches_size(s.drop_last()) + branch_size(s.last()) }
}

/// The size of a statement.
pub open spec fn stmt_size(st: Stmt) -> nat
    decreases st,
{
    match st {
        Stmt::VarDecl { name, typ, value } => 1 + match value {
            Some(e) => expr_size(e),
            None => 0,
        },
        Stmt::Assign { name, value } => 1 + expr_size(value),
        Stmt::FnDecl { name, args, body, attributes, ret_type, is_extern } => 3 + stmts_size(body@),
        Stmt::Loop { body } => 3 + stmts_size(body@),
        Stmt::Expr(e) => 1 + expr_size(e),
        Stmt::Block(b) => 2 + stmts_size(b@),
        Stmt::Return(e) => 2 + match e {
            Some(x) => expr_size(x),
            None => 0,
        },
        _ => 1,
    }
}

pub open spec fn stmts_size(s: Seq<Stmt>) -> nat
    decreases s,
{
    if s.len() == 0 { 0 } else { stmts_size(s.drop_last()) + stmt_size(s.last()) }
}

pub proof fn lemma_exprs_size(s: Seq<Expr>, i: int)
    requires
        0 <= i < s.len(),
    ensures
        expr_size(s[i]) <= exprs_size(s),
    decreases s.len(),
{
    if i < s.len() - 1 {
        lemma_exprs_size(s.drop_last(), i);
    }
}

pub proof fn lemma_branches_size(s: Seq<IfBranch>, i: int)
    requires
        0 <= i < s.len(),
    ensures
        branch_size(s[i]) <= branches_size(s),
    decreases s.len(),
{
    if i < s.len() - 1 {
        lemma_branches_size(s.drop_last(), i);
    }
}

pub proof fn lemma_stmts_size(s: Seq<Stmt>, i: int)
    requires
        0 <= i < s.len(),
    ensures
        stmt_size(s[i]) <= stmts_size(s),
    decreases s.len(),
{
    if i < s.len() - 1 {
        lemma_stmts_size(s.drop_last(), i);
    }
}

} // verus!
