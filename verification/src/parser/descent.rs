use vstd::prelude::*;
use crate::types::Type;
use crate::token::{Token, TokenM};
use crate::value::{Value, ValueM};
use crate::ast::{BinOp, Expr, ExprM, Stmt, StmtM, IfBranch, IfBranchM, TypedArg, TypedArgM, Attribute,
    expr_m, exprs_m, stmt_m, stmts_m, branch_m, branches_m, targs_m, attrs_m, targ_m,
    lemma_exprs_m_push, lemma_stmts_m_push, lemma_targs_m_push, lemma_branches_m_push, lemma_exprs_m_len, lemma_targs_len};
use crate::eat::eat;
use crate::scope::Scope;
use crate::parser::state::{grows, PS, Res, ParseFailure, rem_at, ps, outcome, error, abort, failed_with, for_head_failure,
    let_head_failure, assign_head_failure};
use crate::eat::token_at;
use crate::parser::grammar::{sp_expr, expr_tail, compare_loop, call_expr_args, sp_arith, arith_loop, sp_if_else, if_rest,
    sp_expr_block, expr_block_loop, sp_stmt, stmt_dispatch, sp_block, block_loop, sp_fn_decl, fn_body_loop, sp_for,
    sp_while, sp_loop, sp_return, sp_var_decl, sp_var_assign, sp_fn_call, literal_of, cond_op, arith_op, eat_comma,
    named_args, arg_values, all_have_values, lemma_fn_call_has_values, for_desugar, while_desugar, break_block, ptr_to};
use crate::parser::pieces::{skip_comma, attrs_core, fn_call_core, import_core, decl_args_core, skip_stars, wrap_ptr};
use crate::parser::desugar::{for_desugar_exec, while_desugar_exec};

verus! {

/// The literal value a token spells.
fn literal_value(t: &Token) -> (res: Option<Value>)
    ensures
        match literal_of(t@) {
            Some(v) => res matches Some(x) && x@ == v,
            None => res is None,
        },
{
    match t {
        Token::Number(v) => Some(Value::Int(*v)),
        Token::Float(v) => Some(Value::Float(v.clone())),
        Token::StringLiteral(v) => Some(Value::Str(v.clone())),
        Token::Bool(b) => Some(Value::Bool(*b)),
        _ => None,
    }
}

fn condition_op(t: &Token) -> (res: Option<BinOp>)
    ensures
        res == cond_op(Some(t@)),
{
    match t {
        Token::Less => Some(BinOp::Lt),
        Token::LessEqual => Some(BinOp::Le),
        Token::EqualEqual => Some(BinOp::Eq),
        Token::Greater => Some(BinOp::Gt),
        Token::GreaterEqual => Some(BinOp::Ge),
        _ => None,
    }
}

fn arithmetic_op(t: &Token) -> (res: Option<(BinOp, u8)>)
    ensures
        match arith_op(t@) {
            Some((op, p)) => res matches Some((o, q)) && o == op && q == p,
            None => res is None,
        },
{
    match t {
        Token::Plus => Some((BinOp::Add, 1)),
        Token::Dash => Some((BinOp::Sub, 1)),
        Token::Star => Some((BinOp::Mul, 2)),
        Token::Slash => Some((BinOp::Div, 2)),
        _ => None,
    }
}

pub open spec fn opt_expr_m(o: Option<Expr>) -> Option<ExprM> {
    match o {
        Some(e) => Some(expr_m(e)),
        None => None,
    }
}

/// A primary expression, followed inside a condition by comparisons.
pub fn expr_core(tokens: &[Token], pos: &mut usize, in_cond: bool, dm: &mut Vec<String>, scope: &mut Scope)
    -> (res: Result<Expr, ParseFailure>)
    requires
        tokens@.len() < usize::MAX,
    ensures
        grows(ps(*old(pos), *old(dm), *old(scope)), ps(*final(pos), *final(dm), *final(scope))),
        outcome(res, ps(*final(pos), *final(dm), *final(scope)),
            sp_expr(tokens@, ps(*old(pos), *old(dm), *old(scope)), in_cond), |v: Expr| v@),
        *final(pos) >= *old(pos),
        res is Ok ==> *final(pos) > *old(pos),
    decreases rem_at(tokens@, *old(pos) as int), 5nat,
{
    if !(*pos < tokens.len()) {
        return Err(error("Unexpected end of tokens in expression"));
    }
    match &tokens[*pos] {
        Token::If => {
            let e = if_else_core(tokens, pos, dm, scope)?;
            return expr_tail_core(tokens, pos, e, in_cond, dm, scope);
        },
        Token::Id(name) => {
            let name = name.clone();
            *pos = *pos + 1;
            if eat(&Token::OpenParenthese, tokens, pos) {
                let acc: Vec<Expr> = Vec::new();
                assert(exprs_m(acc@) =~= Seq::<ExprM>::empty());
                let args = call_expr_args_core(tokens, pos, dm, scope, acc)?;
                return expr_tail_core(tokens, pos, Expr::FnCall { name, args }, in_cond, dm, scope);
            } else {
                return expr_tail_core(tokens, pos, Expr::Id(name), in_cond, dm, scope);
            }
        },
        Token::OpenParenthese => {
            *pos = *pos + 1;
            match arith_core(tokens, pos, 0, dm, scope) {
                Ok(e) => {
                    if !eat(&Token::CloseParenthese, tokens, pos) {
                        return Err(error("Expected `)` after parenthesised expression"));
                    }
                    return expr_tail_core(tokens, pos, e, in_cond, dm, scope);
                },
                Err(_) => {
                    return Err(abort("Failed to parse expression inside parentheses"));
                },
            }
        },
        _ => {},
    }
    match literal_value(&tokens[*pos]) {
        Some(v) => {
            *pos = *pos + 1;
            expr_tail_core(tokens, pos, Expr::Literal(v), in_cond, dm, scope)
        },
        None => {
            *pos = *pos + 1;
            Err(error("Expected an expression"))
        },
    }
}

fn expr_tail_core(tokens: &[Token], pos: &mut usize, e: Expr, in_cond: bool, dm: &mut Vec<String>, scope: &mut Scope)
    -> (res: Result<Expr, ParseFailure>)
    requires
        tokens@.len() < usize::MAX,
    ensures
        grows(ps(*old(pos), *old(dm), *old(scope)), ps(*final(pos), *final(dm), *final(scope))),
        outcome(res, ps(*final(pos), *final(dm), *final(scope)),
            expr_tail(tokens@, ps(*old(pos), *old(dm), *old(scope)), e@, in_cond), |v: Expr| v@),
        *final(pos) >= *old(pos),
    decreases rem_at(tokens@, *old(pos) as int), 11nat,
{
    if in_cond {
        compare_loop_core(tokens, pos, e, dm, scope)
    } else {
        Ok(e)
    }
}

fn compare_loop_core(tokens: &[Token], pos: &mut usize, left: Expr, dm: &mut Vec<String>, scope: &mut Scope)
    -> (res: Result<Expr, ParseFailure>)
    requires
        tokens@.len() < usize::MAX,
    ensures
        grows(ps(*old(pos), *old(dm), *old(scope)), ps(*final(pos), *final(dm), *final(scope))),
        outcome(res, ps(*final(pos), *final(dm), *final(scope)),
            compare_loop(tokens@, ps(*old(pos), *old(dm), *old(scope)), left@), |v: Expr| v@),
        *final(pos) >= *old(pos),
    decreases rem_at(tokens@, *old(pos) as int), 10nat,
{
    if !(*pos < tokens.len()) {
        return Ok(left);
    }
    let op = match condition_op(&tokens[*pos]) {
        Some(op) => op,
        None => {
            return Ok(left);
        },
    };
    *pos = *pos + 1;
    let start = *pos;
    let right = arith_core(tokens, pos, 0, dm, scope)?;
    if *pos == start {
        return Err(error("Expected an expression after the comparison"));
    }
    compare_loop_core(tokens, pos, Expr::Binary { op, left: Box::new(left), right: Box::new(right) }, dm, scope)
}

fn call_expr_args_core(tokens: &[Token], pos: &mut usize, dm: &mut Vec<String>, scope: &mut Scope, acc: Vec<Expr>)
    -> (res: Result<Vec<Expr>, ParseFailure>)
    requires
        tokens@.len() < usize::MAX,
    ensures
        grows(ps(*old(pos), *old(dm), *old(scope)), ps(*final(pos), *final(dm), *final(scope))),
        outcome(res, ps(*final(pos), *final(dm), *final(scope)),
            call_expr_args(tokens@, ps(*old(pos), *old(dm), *old(scope)), exprs_m(acc@)), |v: Vec<Expr>| exprs_m(v@)),
        *final(pos) >= *old(pos),
        res is Ok ==> *final(pos) > *old(pos),
    decreases rem_at(tokens@, *old(pos) as int), 10nat,
{
    if !(*pos < tokens.len()) {
        return Err(error("Unexpected end of tokens in call arguments"));
    }
    match &tokens[*pos] {
        Token::CloseParenthese => {
            *pos = *pos + 1;
            return Ok(acc);
        },
        _ => {},
    }
    let a = arith_core(tokens, pos, 0, dm, scope)?;
    skip_comma(tokens, pos, Ghost(ps(*pos, *dm, *scope)));
    let mut acc = acc;
    let ghost old_acc = acc@;
    acc.push(a);
    proof {
        lemma_exprs_m_push(old_acc, a);
    }
    call_expr_args_core(tokens, pos, dm, scope, acc)
}

/// Arithmetic with operators of precedence at least `min_prec`.
pub fn arith_core(tokens: &[Token], pos: &mut usize, min_prec: u8, dm: &mut Vec<String>, scope: &mut Scope)
    -> (res: Result<Expr, ParseFailure>)
    requires
        tokens@.len() < usize::MAX,
    ensures
        grows(ps(*old(pos), *old(dm), *old(scope)), ps(*final(pos), *final(dm), *final(scope))),
        outcome(res, ps(*final(pos), *final(dm), *final(scope)),
            sp_arith(tokens@, ps(*old(pos), *old(dm), *old(scope)), min_prec as int), |v: Expr| v@),
        *final(pos) >= *old(pos),
        res is Ok ==> *final(pos) > *old(pos),
    decreases rem_at(tokens@, *old(pos) as int), 6nat,
{
    if !(*pos < tokens.len()) {
        return Err(error("Unexpected end of tokens in expression"));
    }
    let left = expr_core(tokens, pos, false, dm, scope)?;
    arith_loop_core(tokens, pos, min_prec, left, dm, scope)
}

fn arith_loop_core(tokens: &[Token], pos: &mut usize, min_prec: u8, left: Expr, dm: &mut Vec<String>, scope: &mut Scope)
    -> (res: Result<Expr, ParseFailure>)
    requires
        tokens@.len() < usize::MAX,
    ensures
        grows(ps(*old(pos), *old(dm), *old(scope)), ps(*final(pos), *final(dm), *final(scope))),
        outcome(res, ps(*final(pos), *final(dm), *final(scope)),
            arith_loop(tokens@, ps(*old(pos), *old(dm), *old(scope)), min_prec as int, left@), |v: Expr| v@),
        *final(pos) >= *old(pos),
    decreases rem_at(tokens@, *old(pos) as int), 10nat,
{
    if !(*pos < tokens.len()) {
        return Err(abort("Unexpected end of tokens after an expression"));
    }
    let (op, prec) = match arithmetic_op(&tokens[*pos]) {
        Some(x) => x,
        None => {
            return Ok(left);
        },
    };
    if prec < min_prec {
        return Ok(left);
    }
    *pos = *pos + 1;
    match arith_core(tokens, pos, prec + 1, dm, scope) {
        Ok(right) => arith_loop_core(tokens, pos, min_prec, Expr::Binary { op, left: Box::new(left), right: Box::new(right) }, dm, scope),
        Err(_) => Err(abort("Failed to parse the right operand")),
    }
}

/// An `if` expression.
pub fn if_else_core(tokens: &[Token], pos: &mut usize, dm: &mut Vec<String>, scope: &mut Scope)
    -> (res: Result<Expr, ParseFailure>)
    requires
        tokens@.len() < usize::MAX,
    ensures
        grows(ps(*old(pos), *old(dm), *old(scope)), ps(*final(pos), *final(dm), *final(scope))),
        outcome(res, ps(*final(pos), *final(dm), *final(scope)),
            sp_if_else(tokens@, ps(*old(pos), *old(dm), *old(scope))), |v: Expr| v@),
        *final(pos) >= *old(pos),
        res is Ok ==> *final(pos) > *old(pos),
        token_at(tokens@, *old(pos) as int) != Some(TokenM::If) ==> failed_with(res, "Expected keyword `if`"@),
    decreases rem_at(tokens@, *old(pos) as int), 1nat,
{
    if !eat(&Token::If, tokens, pos) {
        return Err(error("Expected keyword `if`"));
    }
    if eat(&Token::OpenParenthese, tokens, pos) {
        let cond = match expr_core(tokens, pos, true, dm, scope) {
            Ok(c) => c,
            Err(_) => {
                return Err(abort("Failed to parse expression inside `if (...)`"));
            },
        };
        if !eat(&Token::CloseParenthese, tokens, pos) {
            return Err(error("Expected `)` after `if` condition"));
        }
        if_rest_core(tokens, pos, cond, dm, scope)
    } else {
        let cond = match expr_core(tokens, pos, true, dm, scope) {
            Ok(c) => c,
            Err(_) => {
                return Err(abort("Failed to parse expression after `if`"));
            },
        };
        if_rest_core(tokens, pos, cond, dm, scope)
    }
}

fn if_rest_core(tokens: &[Token], pos: &mut usize, c: Expr, dm: &mut Vec<String>, scope: &mut Scope)
    -> (res: Result<Expr, ParseFailure>)
    requires
        tokens@.len() < usize::MAX,
    ensures
        grows(ps(*old(pos), *old(dm), *old(scope)), ps(*final(pos), *final(dm), *final(scope))),
        outcome(res, ps(*final(pos), *final(dm), *final(scope)),
            if_rest(tokens@, ps(*old(pos), *old(dm), *old(scope)), c@), |v: Expr| v@),
        *final(pos) >= *old(pos),
        res is Ok ==> *final(pos) > *old(pos),
    decreases rem_at(tokens@, *old(pos) as int), 3nat,
{
    let then_body = expr_block_core(tokens, pos, dm, scope)?;
    let ghost cm = c@;
    let ghost tm = exprs_m(then_body@);
    let branch = IfBranch { condition: c, body: then_body };
    let mut branches: Vec<IfBranch> = Vec::new();
    branches.push(branch);
    proof {
        lemma_branches_m_push(Seq::empty(), branch);
        assert(Seq::<IfBranch>::empty().push(branch) =~= branches@);
        assert(branches_m(Seq::<IfBranch>::empty()) =~= Seq::<IfBranchM>::empty());
        assert(branches_m(branches@) =~= seq![IfBranchM { condition: cm, body: tm }]);
    }
    if eat(&Token::Else, tokens, pos) {
        let else_body = expr_block_core(tokens, pos, dm, scope)?;
        Ok(Expr::If { branches, else_body: Some(else_body) })
    } else {
        Ok(Expr::If { branches, else_body: None })
    }
}

/// A block of an `if` arm.
pub fn expr_block_core(tokens: &[Token], pos: &mut usize, dm: &mut Vec<String>, scope: &mut Scope)
    -> (res: Result<Vec<Expr>, ParseFailure>)
    requires
        tokens@.len() < usize::MAX,
    ensures
        grows(ps(*old(pos), *old(dm), *old(scope)), ps(*final(pos), *final(dm), *final(scope))),
        outcome(res, ps(*final(pos), *final(dm), *final(scope)),
            sp_expr_block(tokens@, ps(*old(pos), *old(dm), *old(scope))), |v: Vec<Expr>| exprs_m(v@)),
        *final(pos) >= *old(pos),
        res is Ok ==> *final(pos) > *old(pos),
    decreases rem_at(tokens@, *old(pos) as int), 2nat,
{
    if !eat(&Token::OpenBracket, tokens, pos) {
        return Err(error("Expected `{` at start of block"));
    }
    let stmts: Vec<Stmt> = Vec::new();
    assert(stmts_m(stmts@) =~= Seq::<StmtM>::empty());
    expr_block_loop_core(tokens, pos, dm, scope, stmts, None)
}

fn finish_expr_block(stmts: Vec<Stmt>, fin: Option<Expr>) -> (res: Vec<Expr>)
    ensures
        exprs_m(res@) == seq![ExprM::Block {
            stmts: stmts_m(stmts@),
            final_expr: match opt_expr_m(fin) { Some(e) => Some(Box::new(e)), None => None },
        }],
{
    let fe = match fin {
        Some(e) => Some(Box::new(e)),
        None => None,
    };
    let b = Expr::Block { stmts, final_expr: fe };
    let mut v: Vec<Expr> = Vec::new();
    v.push(b);
    proof {
        lemma_exprs_m_push(Seq::empty(), b);
        assert(Seq::<Expr>::empty().push(b) =~= v@);
        assert(exprs_m(Seq::<Expr>::empty()) =~= Seq::<ExprM>::empty());
    }
    v
}

fn expr_block_loop_core(tokens: &[Token], pos: &mut usize, dm: &mut Vec<String>, scope: &mut Scope, stmts: Vec<Stmt>, fin: Option<Expr>)
    -> (res: Result<Vec<Expr>, ParseFailure>)
    requires
        tokens@.len() < usize::MAX,
    ensures
        grows(ps(*old(pos), *old(dm), *old(scope)), ps(*final(pos), *final(dm), *final(scope))),
        outcome(res, ps(*final(pos), *final(dm), *final(scope)),
            expr_block_loop(tokens@, ps(*old(pos), *old(dm), *old(scope)), stmts_m(stmts@), opt_expr_m(fin)),
            |v: Vec<Expr>| exprs_m(v@)),
        *final(pos) >= *old(pos),
    decreases rem_at(tokens@, *old(pos) as int), 10nat,
{
    if !(*pos < tokens.len()) {
        return Ok(finish_expr_block(stmts, fin));
    }
    match &tokens[*pos] {
        Token::CloseBracket => {
            *pos = *pos + 1;
            return Ok(finish_expr_block(stmts, fin));
        },
        Token::Else => {
            return Ok(finish_expr_block(stmts, fin));
        },
        Token::Semicolon => {
            *pos = *pos + 1;
            return expr_block_loop_core(tokens, pos, dm, scope, stmts, fin);
        },
        _ => {},
    }
    let old_pos = *pos;
    let st = match stmt_core(tokens, pos, dm, scope) {
        Ok(st) => st,
        Err(_) => {
            return Err(abort("Failed to parse a statement inside a block"));
        },
    };
    if *pos == old_pos {
        return Err(error("parse_stmt made no progress"));
    }
    match st {
        Stmt::Expr(e) => expr_block_loop_core(tokens, pos, dm, scope, stmts, Some(e)),
        other => {
            let mut stmts = stmts;
            let ghost old_stmts = stmts@;
            proof {
                lemma_stmts_m_push(old_stmts, other);
            }
            stmts.push(other);
            expr_block_loop_core(tokens, pos, dm, scope, stmts, fin)
        },
    }
}

/// A statement after optional attributes.
pub fn stmt_core(tokens: &[Token], pos: &mut usize, dm: &mut Vec<String>, scope: &mut Scope)
    -> (res: Result<Stmt, ParseFailure>)
    requires
        tokens@.len() < usize::MAX,
    ensures
        grows(ps(*old(pos), *old(dm), *old(scope)), ps(*final(pos), *final(dm), *final(scope))),
        outcome(res, ps(*final(pos), *final(dm), *final(scope)),
            sp_stmt(tokens@, ps(*old(pos), *old(dm), *old(scope))), |v: Stmt| v@),
        *final(pos) >= *old(pos),
        res is Ok ==> *final(pos) > *old(pos),
        *old(pos) >= tokens@.len() ==> failed_with(res, "Unexpected end of input while parsing statement."@),
    decreases rem_at(tokens@, *old(pos) as int), 8nat,
{
    let mut is_hash = false;
    if *pos < tokens.len() {
        match &tokens[*pos] {
            Token::Hash => {
                is_hash = true;
            },
            _ => {},
        }
    }
    let attrs = if is_hash {
        let acc: Vec<Attribute> = Vec::new();
        assert(attrs_m(acc@) =~= Seq::<crate::ast::AttributeM>::empty());
        attrs_core(tokens, pos, dm, scope, acc)?
    } else {
        let acc: Vec<Attribute> = Vec::new();
        assert(attrs_m(acc@) =~= Seq::<crate::ast::AttributeM>::empty());
        acc
    };
    stmt_dispatch_core(tokens, pos, dm, scope, attrs)
}

fn arg_values_exec(args: &Vec<TypedArg>) -> (res: Vec<Expr>)
    requires
        all_have_values(targs_m(args@)),
    ensures
        exprs_m(res@) == arg_values(targs_m(args@)),
{
    let mut out: Vec<Expr> = Vec::new();
    let ghost all = targs_m(args@);
    let mut i: usize = 0;
    let n = args.len();
    proof {
        lemma_targs_len(args@);
        assert(exprs_m(out@) =~= arg_values(all).take(0));
    }
    while i < n
        invariant
            n == args@.len(),
            all.len() == n,
            i <= n,
            all == targs_m(args@),
            forall|j: int| 0 <= j < n ==> #[trigger] all[j] == targ_m(args@[j]),
            all_have_values(all),
            exprs_m(out@) == arg_values(all).take(i as int),
        decreases n - i,
    {
        let ghost old_out = out@;
        match &args[i].value {
            Some(e) => {
                let c = e.copied();
                proof {
                    assert(all[i as int] == targ_m(args@[i as int]));
                    assert(all[i as int].value == Some(expr_m(*e)));
                    lemma_exprs_m_push(old_out, c);
                    assert(arg_values(all).take(i + 1) =~= arg_values(all).take(i as int).push(expr_m(c)));
                }
                out.push(c);
            },
            None => {
                proof {
                    assert(all[i as int] == targ_m(args@[i as int]));
                    assert(all[i as int].value is Some);
                }
            },
        }
        i = i + 1;
    }
    assert(arg_values(all).take(n as int) =~= arg_values(all));
    out
}



/// The arguments of a call expression used as a call statement, each passed as an
/// argument named after the function.
fn named_args_exec(name: &String, args: &Vec<Expr>) -> (res: Vec<TypedArg>)
    ensures
        targs_m(res@) == named_args(name@, exprs_m(args@)),
{
    let mut out: Vec<TypedArg> = Vec::new();
    let ghost all = exprs_m(args@);
    let n = args.len();
    let mut i: usize = 0;
    proof {
        lemma_exprs_m_len(args@);
        assert(targs_m(out@) =~= named_args(name@, all).take(0));
    }
    while i < n
        invariant
            n == args@.len(),
            all == exprs_m(args@),
            all.len() == n,
            forall|j: int| 0 <= j < n ==> #[trigger] all[j] == expr_m(args@[j]),
            i <= n,
            targs_m(out@) == named_args(name@, all).take(i as int),
        decreases n - i,
    {
        let a = TypedArg { name: name.clone(), typ: Type::Unknown, value: Some(args[i].copied()) };
        let ghost old_out = out@;
        proof {
            lemma_targs_m_push(old_out, a);
            assert(named_args(name@, all).take(i + 1) =~= named_args(name@, all).take(i as int).push(targ_m(a)));
        }
        out.push(a);
        i = i + 1;
    }
    assert(named_args(name@, all).take(n as int) =~= named_args(name@, all));
    out
}

/// A statement chosen by its first token, with the attributes read before it.
#[verifier::spinoff_prover]
#[verifier::rlimit(40)]
fn stmt_dispatch_core(tokens: &[Token], pos: &mut usize, dm: &mut Vec<String>, scope: &mut Scope, attrs: Vec<Attribute>)
    -> (res: Result<Stmt, ParseFailure>)
    requires
        tokens@.len() < usize::MAX,
    ensures
        grows(ps(*old(pos), *old(dm), *old(scope)), ps(*final(pos), *final(dm), *final(scope))),
        outcome(res, ps(*final(pos), *final(dm), *final(scope)),
            stmt_dispatch(tokens@, ps(*old(pos), *old(dm), *old(scope)), attrs_m(attrs@)), |v: Stmt| v@),
        *final(pos) >= *old(pos),
        res is Ok ==> *final(pos) > *old(pos),
        *old(pos) >= tokens@.len() ==> failed_with(res, "Unexpected end of input while parsing statement."@),
    decreases rem_at(tokens@, *old(pos) as int), 7nat,
{
    if !(*pos < tokens.len()) {
        return Err(error("Unexpected end of input while parsing statement."));
    }
    match &tokens[*pos] {
        Token::Function => {
            return fn_decl_core(tokens, pos, dm, scope, attrs);
        },
        Token::Extern => {
            return fn_decl_core(tokens, pos, dm, scope, attrs);
        },
        Token::Loop => {
            return for_core(tokens, pos, dm, scope);
        },
        Token::While => {
            return while_core(tokens, pos, dm, scope);
        },
        Token::Break => {
            *pos = *pos + 1;
            if !eat(&Token::Semicolon, tokens, pos) {
                return Err(error("Expected ';' after `break`"));
            }
            *pos = *pos + 1;
            return Ok(Stmt::Break);
        },
        Token::Return => {
            return return_core(tokens, pos, dm, scope);
        },
        Token::Let => {
            return var_decl_core(tokens, pos, dm, scope);
        },
        Token::Import => {
            return import_core(tokens, pos, dm, scope);
        },
        Token::For => {
            return for_core(tokens, pos, dm, scope);
        },
        Token::Id(_) => {
            let next = *pos + 1;
            let mut follows_equal = false;
            let mut follows_paren = false;
            if next < tokens.len() {
                match &tokens[next] {
                    Token::Equal => {
                        follows_equal = true;
                    },
                    Token::OpenParenthese => {
                        follows_paren = true;
                    },
                    _ => {},
                }
            }
            if follows_equal {
                return var_assign_core(tokens, pos, dm, scope);
            } else if follows_paren {
                proof {
                    lemma_fn_call_has_values(tokens@, ps(*pos, *dm, *scope));
                }
                let call = fn_call_core(tokens, pos, dm, scope)?;
                match call {
                    Stmt::FnCall { name, args } => {
                        let values = arg_values_exec(&args);
                        return Ok(Stmt::Expr(Expr::FnCall { name, args: values }));
                    },
                    _ => {
                        return Err(abort("A call statement was expected"));
                    },
                }
            } else {
                return Err(error("Unexpected token after identifier. Expected `=` or `(`."));
            }
        },
        Token::OpenBracket => {
            let stmts = block_core(tokens, pos, dm, scope)?;
            return Ok(Stmt::Block(stmts));
        },
        _ => {},
    }
    let start = *pos;
    let e = arith_core(tokens, pos, 0, dm, scope)?;
    if *pos <= start {
        return Err(error("Invalid statement or no progress"));
    }
    match e {
        Expr::FnCall { name, args } => {
            let targs = named_args_exec(&name, &args);
            Ok(Stmt::FnCall { name, args: targs })
        },
        other => Ok(Stmt::Expr(other)),
    }
}

/// A block of statements `{ ... }`.
pub fn block_core(tokens: &[Token], pos: &mut usize, dm: &mut Vec<String>, scope: &mut Scope)
    -> (res: Result<Vec<Stmt>, ParseFailure>)
    requires
        tokens@.len() < usize::MAX,
    ensures
        grows(ps(*old(pos), *old(dm), *old(scope)), ps(*final(pos), *final(dm), *final(scope))),
        outcome(res, ps(*final(pos), *final(dm), *final(scope)),
            sp_block(tokens@, ps(*old(pos), *old(dm), *old(scope))), |v: Vec<Stmt>| stmts_m(v@)),
        *final(pos) >= *old(pos),
        res is Ok ==> *final(pos) > *old(pos),
    decreases rem_at(tokens@, *old(pos) as int), 2nat,
{
    if !eat(&Token::OpenBracket, tokens, pos) {
        return Err(error("Expected `{` at start of block"));
    }
    let acc: Vec<Stmt> = Vec::new();
    assert(stmts_m(acc@) =~= Seq::<StmtM>::empty());
    block_loop_core(tokens, pos, dm, scope, acc)
}

fn block_loop_core(tokens: &[Token], pos: &mut usize, dm: &mut Vec<String>, scope: &mut Scope, acc: Vec<Stmt>)
    -> (res: Result<Vec<Stmt>, ParseFailure>)
    requires
        tokens@.len() < usize::MAX,
    ensures
        grows(ps(*old(pos), *old(dm), *old(scope)), ps(*final(pos), *final(dm), *final(scope))),
        outcome(res, ps(*final(pos), *final(dm), *final(scope)),
            block_loop(tokens@, ps(*old(pos), *old(dm), *old(scope)), stmts_m(acc@)), |v: Vec<Stmt>| stmts_m(v@)),
        *final(pos) >= *old(pos),
    decreases rem_at(tokens@, *old(pos) as int), 10nat,
{
    if !(*pos < tokens.len()) {
        return Ok(acc);
    }
    match &tokens[*pos] {
        Token::CloseBracket => {
            *pos = *pos + 1;
            return Ok(acc);
        },
        Token::Else => {
            return Ok(acc);
        },
        _ => {},
    }
    let start = *pos;
    let st = stmt_core(tokens, pos, dm, scope)?;
    if *pos <= start {
        return Err(abort("parse_stmt made no progress"));
    }
    let mut acc = acc;
    proof {
        lemma_stmts_m_push(acc@, st);
    }
    acc.push(st);
    block_loop_core(tokens, pos, dm, scope, acc)
}

/// A function declaration, with the attributes read before it.
pub fn fn_decl_core(tokens: &[Token], pos: &mut usize, dm: &mut Vec<String>, scope: &mut Scope, attrs: Vec<Attribute>)
    -> (res: Result<Stmt, ParseFailure>)
    requires
        tokens@.len() < usize::MAX,
    ensures
        grows(ps(*old(pos), *old(dm), *old(scope)), ps(*final(pos), *final(dm), *final(scope))),
        outcome(res, ps(*final(pos), *final(dm), *final(scope)),
            sp_fn_decl(tokens@, ps(*old(pos), *old(dm), *old(scope)), attrs_m(attrs@)), |v: Stmt| v@),
        *final(pos) >= *old(pos),
        res is Ok ==> *final(pos) > *old(pos),
    decreases rem_at(tokens@, *old(pos) as int), 4nat,
{
    let is_extern = eat(&Token::Extern, tokens, pos);
    if !eat(&Token::Function, tokens, pos) {
        return Err(error("Expected `fn` keyword"));
    }
    if !(*pos < tokens.len()) {
        return Err(error("Expected function name after `fn`"));
    }
    let name = match &tokens[*pos] {
        Token::Id(n) => n.clone(),
        _ => {
            return Err(error("Expected function name after `fn`"));
        },
    };
    *pos = *pos + 1;
    if !eat(&Token::OpenParenthese, tokens, pos) {
        return Err(error("Expected `(` after function name"));
    }
    let acc: Vec<TypedArg> = Vec::new();
    assert(targs_m(acc@) =~= Seq::<TypedArgM>::empty());
    let args = decl_args_core(tokens, pos, dm, scope, acc)?;
    let n = skip_stars(tokens, pos, Ghost(ps(*pos, *dm, *scope)));
    let mut base = Type::Void;
    if *pos < tokens.len() {
        match &tokens[*pos] {
            Token::Type(ty) => {
                base = ty.copied();
                *pos = *pos + 1;
            },
            _ => {},
        }
    }
    let ret_type = wrap_ptr(base, n);
    if is_extern {
        if !eat(&Token::Semicolon, tokens, pos) {
            return Err(error("Expected `;` after an extern function declaration"));
        }
        let body: Vec<Stmt> = Vec::new();
        assert(stmts_m(body@) =~= Seq::<StmtM>::empty());
        return Ok(Stmt::FnDecl { name, args, body, attributes: attrs, ret_type, is_extern });
    }
    if !eat(&Token::OpenBracket, tokens, pos) {
        return Err(error("Expected `{` to start the function body"));
    }
    let acc: Vec<Stmt> = Vec::new();
    assert(stmts_m(acc@) =~= Seq::<StmtM>::empty());
    let body = fn_body_loop_core(tokens, pos, dm, scope, acc)?;
    Ok(Stmt::FnDecl { name, args, body, attributes: attrs, ret_type, is_extern })
}

fn fn_body_loop_core(tokens: &[Token], pos: &mut usize, dm: &mut Vec<String>, scope: &mut Scope, acc: Vec<Stmt>)
    -> (res: Result<Vec<Stmt>, ParseFailure>)
    requires
        tokens@.len() < usize::MAX,
    ensures
        grows(ps(*old(pos), *old(dm), *old(scope)), ps(*final(pos), *final(dm), *final(scope))),
        outcome(res, ps(*final(pos), *final(dm), *final(scope)),
            fn_body_loop(tokens@, ps(*old(pos), *old(dm), *old(scope)), stmts_m(acc@)), |v: Vec<Stmt>| stmts_m(v@)),
        *final(pos) >= *old(pos),
    decreases rem_at(tokens@, *old(pos) as int), 10nat,
{
    if !(*pos < tokens.len()) {
        return Ok(acc);
    }
    match &tokens[*pos] {
        Token::CloseBracket => {
            *pos = *pos + 1;
            return fn_body_loop_core(tokens, pos, dm, scope, acc);
        },
        _ => {},
    }
    let start = *pos;
    let st = stmt_core(tokens, pos, dm, scope)?;
    if *pos == start {
        return Err(error("parse_stmt made no progress"));
    }
    let mut acc = acc;
    proof {
        lemma_stmts_m_push(acc@, st);
    }
    acc.push(st);
    fn_body_loop_core(tokens, pos, dm, scope, acc)
}


/// `for v in a..b { body }`, as the statements it stands for.
pub fn for_core(tokens: &[Token], pos: &mut usize, dm: &mut Vec<String>, scope: &mut Scope)
    -> (res: Result<Stmt, ParseFailure>)
    requires
        tokens@.len() < usize::MAX,
    ensures
        grows(ps(*old(pos), *old(dm), *old(scope)), ps(*final(pos), *final(dm), *final(scope))),
        outcome(res, ps(*final(pos), *final(dm), *final(scope)),
            sp_for(tokens@, ps(*old(pos), *old(dm), *old(scope))), |v: Stmt| v@),
        *final(pos) >= *old(pos),
        res is Ok ==> *final(pos) > *old(pos),
        for_head_failure(tokens@, *old(pos) as int) matches Some(m) ==> failed_with(res, m),
    decreases rem_at(tokens@, *old(pos) as int), 4nat,
{
    if !eat(&Token::For, tokens, pos) {
        return Err(error("Expected `for`"));
    }
    if !(*pos < tokens.len()) {
        return Err(error("For loop failed"));
    }
    let v = match &tokens[*pos] {
        Token::Id(n) => n.clone(),
        _ => {
            return Err(error("For loop failed"));
        },
    };
    *pos = *pos + 1;
    if !eat(&Token::In, tokens, pos) {
        let mut m = String::from_str("Expected `in` after `");
        m.append(v.as_str());
        m.append("`");
        return Err(ParseFailure::Error(m));
    }
    if !(*pos < tokens.len()) {
        return Err(error("For loop failed"));
    }
    let a = match &tokens[*pos] {
        Token::Number(a) => *a,
        _ => {
            return Err(error("For loop failed"));
        },
    };
    *pos = *pos + 1;
    if !eat(&Token::Range, tokens, pos) {
        return Err(error("Expected `..` in for loop range"));
    }
    if !(*pos < tokens.len()) {
        return Err(error("For loop failed"));
    }
    let b = match &tokens[*pos] {
        Token::Number(b) => *b,
        _ => {
            return Err(error("For loop failed"));
        },
    };
    *pos = *pos + 1;
    let body = block_core(tokens, pos, dm, scope)?;
    Ok(for_desugar_exec(v, a, b, body))
}

/// `while cond { body }`, as the statements it stands for.
pub fn while_core(tokens: &[Token], pos: &mut usize, dm: &mut Vec<String>, scope: &mut Scope)
    -> (res: Result<Stmt, ParseFailure>)
    requires
        tokens@.len() < usize::MAX,
    ensures
        grows(ps(*old(pos), *old(dm), *old(scope)), ps(*final(pos), *final(dm), *final(scope))),
        outcome(res, ps(*final(pos), *final(dm), *final(scope)),
            sp_while(tokens@, ps(*old(pos), *old(dm), *old(scope))), |v: Stmt| v@),
        *final(pos) >= *old(pos),
        res is Ok ==> *final(pos) > *old(pos),
        token_at(tokens@, *old(pos) as int) != Some(TokenM::While) ==> failed_with(res, "Expected `while`"@),
    decreases rem_at(tokens@, *old(pos) as int), 4nat,
{
    if !eat(&Token::While, tokens, pos) {
        return Err(error("Expected `while`"));
    }
    let c = expr_core(tokens, pos, true, dm, scope)?;
    let body = expr_block_core(tokens, pos, dm, scope)?;
    Ok(while_desugar_exec(c, body))
}

/// `loop { body }`.
pub fn loop_core(tokens: &[Token], pos: &mut usize, dm: &mut Vec<String>, scope: &mut Scope)
    -> (res: Result<Stmt, ParseFailure>)
    requires
        tokens@.len() < usize::MAX,
    ensures
        grows(ps(*old(pos), *old(dm), *old(scope)), ps(*final(pos), *final(dm), *final(scope))),
        outcome(res, ps(*final(pos), *final(dm), *final(scope)),
            sp_loop(tokens@, ps(*old(pos), *old(dm), *old(scope))), |v: Stmt| v@),
        *final(pos) >= *old(pos),
        res is Ok ==> *final(pos) > *old(pos),
    decreases rem_at(tokens@, *old(pos) as int), 4nat,
{
    if !eat(&Token::Loop, tokens, pos) {
        return Err(error("Expected `loop` keyword"));
    }
    let body = block_core(tokens, pos, dm, scope)?;
    Ok(Stmt::Loop { body })
}

/// `return [expr];`.
pub fn return_core(tokens: &[Token], pos: &mut usize, dm: &mut Vec<String>, scope: &mut Scope)
    -> (res: Result<Stmt, ParseFailure>)
    requires
        tokens@.len() < usize::MAX,
    ensures
        grows(ps(*old(pos), *old(dm), *old(scope)), ps(*final(pos), *final(dm), *final(scope))),
        outcome(res, ps(*final(pos), *final(dm), *final(scope)),
            sp_return(tokens@, ps(*old(pos), *old(dm), *old(scope))), |v: Stmt| v@),
        *final(pos) >= *old(pos),
        res is Ok ==> *final(pos) > *old(pos),
    decreases rem_at(tokens@, *old(pos) as int), 4nat,
{
    if !eat(&Token::Return, tokens, pos) {
        return Err(error("Expected `return` keyword"));
    }
    let value = match expr_core(tokens, pos, true, dm, scope) {
        Ok(e) => Some(e),
        Err(ParseFailure::Error(_)) => None,
        Err(ParseFailure::Abort(m)) => {
            return Err(ParseFailure::Abort(m));
        },
    };
    if !eat(&Token::Semicolon, tokens, pos) {
        return Err(error("Expected `;` after return statement"));
    }
    Ok(Stmt::Return(value))
}

fn declare_and_close(tokens: &[Token], pos: &mut usize, dm: &mut Vec<String>, scope: &mut Scope, name: String, e: Expr)
    -> (res: Result<Stmt, ParseFailure>)
    ensures
        grows(ps(*old(pos), *old(dm), *old(scope)), ps(*final(pos), *final(dm), *final(scope))),
        ({
            let s3 = ps(*old(pos), *old(dm), *old(scope));
            let s4 = PS { pos: s3.pos, scope: s3.scope.insert(name@, e@), mods: s3.mods };
            outcome(res, ps(*final(pos), *final(dm), *final(scope)),
                if s4.at(tokens@) == Some(TokenM::Semicolon) {
                    Res::Done(StmtM::VarDecl { name: name@, typ: None, value: Some(e@) }, s4.skip(1))
                } else {
                    Res::Fail(s4)
                },
                |v: Stmt| v@)
        }),
        *final(pos) >= *old(pos),
        res is Ok ==> *final(pos) > *old(pos),
{
    scope.declare_var(name.clone(), e.copied());
    if !eat(&Token::Semicolon, tokens, pos) {
        return Err(error("Expected `;` after variable declaration"));
    }
    Ok(Stmt::VarDecl { name, typ: None, value: Some(e) })
}

/// `let name = expr;`; the variable enters the scope once its value is read.
pub fn var_decl_core(tokens: &[Token], pos: &mut usize, dm: &mut Vec<String>, scope: &mut Scope)
    -> (res: Result<Stmt, ParseFailure>)
    requires
        tokens@.len() < usize::MAX,
    ensures
        grows(ps(*old(pos), *old(dm), *old(scope)), ps(*final(pos), *final(dm), *final(scope))),
        outcome(res, ps(*final(pos), *final(dm), *final(scope)),
            sp_var_decl(tokens@, ps(*old(pos), *old(dm), *old(scope))), |v: Stmt| v@),
        *final(pos) >= *old(pos),
        res is Ok ==> *final(pos) > *old(pos),
        let_head_failure(tokens@, *old(pos) as int) matches Some(m) ==> failed_with(res, m),
    decreases rem_at(tokens@, *old(pos) as int), 4nat,
{
    if !eat(&Token::Let, tokens, pos) {
        return Err(error("Expected keyword `let`"));
    }
    if !(*pos < tokens.len()) {
        return Err(error("Expected an identifier name after keyword `let`"));
    }
    let name = match &tokens[*pos] {
        Token::Id(n) => n.clone(),
        _ => {
            return Err(error("Expected an identifier name after keyword `let`"));
        },
    };
    *pos = *pos + 1;
    if !eat(&Token::Equal, tokens, pos) {
        let mut m = String::from_str("Expected an equal sign after `");
        m.append(name.as_str());
        m.append("`");
        return Err(ParseFailure::Error(m));
    }
    let ghost s2 = ps(*pos, *dm, *scope);
    let e = match arith_core(tokens, pos, 0, dm, scope) {
        Ok(e) => e,
        Err(_) => {
            return Err(abort("Failed to parse the value of a variable declaration"));
        },
    };
    let ghost s3 = ps(*pos, *dm, *scope);
    assert(sp_arith(tokens@, s2, 0) == Res::Done(e@, s3));
    declare_and_close(tokens, pos, dm, scope, name, e)
}

fn close_assign(tokens: &[Token], pos: &mut usize, Ghost(s): Ghost<PS>, name: String, e: Expr)
    -> (res: Result<Stmt, ParseFailure>)
    requires
        s.pos == *old(pos),
    ensures
        outcome(res, s.skip(*final(pos) - *old(pos)),
            if s.at(tokens@) == Some(TokenM::Semicolon) {
                Res::Done(StmtM::Assign { name: name@, value: e@ }, s.skip(1))
            } else {
                Res::Fail(s)
            },
            |v: Stmt| v@),
        *final(pos) >= *old(pos),
        res is Ok ==> *final(pos) > *old(pos),
{
    if !eat(&Token::Semicolon, tokens, pos) {
        return Err(error("Expected `;` after assignment"));
    }
    Ok(Stmt::Assign { name, value: e })
}

/// `name = expr;`.
#[verifier::spinoff_prover]
#[verifier::rlimit(80)]
pub fn var_assign_core(tokens: &[Token], pos: &mut usize, dm: &mut Vec<String>, scope: &mut Scope)
    -> (res: Result<Stmt, ParseFailure>)
    requires
        tokens@.len() < usize::MAX,
    ensures
        grows(ps(*old(pos), *old(dm), *old(scope)), ps(*final(pos), *final(dm), *final(scope))),
        outcome(res, ps(*final(pos), *final(dm), *final(scope)),
            sp_var_assign(tokens@, ps(*old(pos), *old(dm), *old(scope))), |v: Stmt| v@),
        *final(pos) >= *old(pos),
        res is Ok ==> *final(pos) > *old(pos),
        assign_head_failure(tokens@, *old(pos) as int) matches Some(m) ==> failed_with(res, m),
    decreases rem_at(tokens@, *old(pos) as int), 4nat,
{
    if !(*pos < tokens.len()) {
        return Err(error("Where identifier"));
    }
    let name = match &tokens[*pos] {
        Token::Id(n) => n.clone(),
        _ => {
            return Err(error("Where identifier"));
        },
    };
    *pos = *pos + 1;
    if !eat(&Token::Equal, tokens, pos) {
        let mut m = String::from_str("Expected an equal sign `=` after `");
        m.append(name.as_str());
        m.append("`");
        return Err(ParseFailure::Error(m));
    }
    let ghost s2 = ps(*pos, *dm, *scope);
    let e = match arith_core(tokens, pos, 0, dm, scope) {
        Ok(e) => e,
        Err(_) => {
            return Err(abort("Failed to parse the assigned value"));
        },
    };
    let ghost s3 = ps(*pos, *dm, *scope);
    assert(sp_arith(tokens@, s2, 0) == Res::Done(e@, s3));
    close_assign(tokens, pos, Ghost(s3), name, e)
}

} // verus!
