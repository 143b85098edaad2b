use vstd::prelude::*;
use crate::value::{Value, ValueM};
use crate::ast::{BinOp, Expr, ExprM, Stmt, StmtM, IfBranch, IfBranchM, exprs_m, stmts_m, branches_m, branch_m,
    lemma_exprs_m_push, lemma_stmts_m_push, lemma_branches_m_push};
use crate::parser::grammar::{for_desugar, while_desugar, break_block};

verus! {

fn push_stmt(v: &mut Vec<Stmt>, s: Stmt)
    ensures
        stmts_m(final(v)@) == stmts_m(old(v)@).push(s@),
{
    proof {
        lemma_stmts_m_push(v@, s);
    }
    v.push(s);
}

fn one_expr(e: Expr) -> (res: Vec<Expr>)
    ensures
        exprs_m(res@) == seq![e@],
{
    let mut v: Vec<Expr> = Vec::new();
    proof {
        lemma_exprs_m_push(v@, e);
        assert(exprs_m(Seq::<Expr>::empty()) =~= Seq::<ExprM>::empty());
    }
    v.push(e);
    assert(exprs_m(v@) =~= seq![e@]);
    v
}

fn one_branch(b: IfBranch) -> (res: Vec<IfBranch>)
    ensures
        branches_m(res@) == seq![branch_m(b)],
{
    let mut v: Vec<IfBranch> = Vec::new();
    proof {
        lemma_branches_m_push(v@, b);
        assert(branches_m(Seq::<IfBranch>::empty()) =~= Seq::<IfBranchM>::empty());
    }
    v.push(b);
    assert(branches_m(v@) =~= seq![branch_m(b)]);
    v
}

fn empty_stmts() -> (res: Vec<Stmt>)
    ensures
        stmts_m(res@) == Seq::<StmtM>::empty(),
{
    let v: Vec<Stmt> = Vec::new();
    assert(stmts_m(v@) =~= Seq::<StmtM>::empty());
    v
}

/// A block that holds `break;` and nothing else.
fn break_block_exec() -> (res: Expr)
    ensures
        res@ == break_block(),
{
    let mut stmts = empty_stmts();
    push_stmt(&mut stmts, Stmt::Break);
    assert(stmts_m(stmts@) =~= seq![StmtM::Break]);
    Expr::Block { stmts, final_expr: None }
}

/// The statements that `for v in a..b { body }` stands for.
pub fn for_desugar_exec(v: String, a: i64, b: i64, body: Vec<Stmt>) -> (res: Stmt)
    ensures
        res@ == for_desugar(v@, a, b, stmts_m(body@)),
{
    let cond = Expr::Binary {
        op: BinOp::Ge,
        left: Box::new(Expr::Id(v.clone())),
        right: Box::new(Expr::Literal(Value::Int(b))),
    };
    let ghost cond_m = cond@;
    let bb = one_expr(break_block_exec());
    assert(exprs_m(bb@) == seq![break_block()]);
    let branch = IfBranch { condition: cond, body: bb };
    assert(branch_m(branch) == IfBranchM { condition: cond_m, body: seq![break_block()] });
    let brs = one_branch(branch);
    let if_stmt = Stmt::Expr(Expr::If { branches: brs, else_body: None });
    assert(if_stmt@ == StmtM::Expr(ExprM::If { branches: seq![IfBranchM { condition: cond_m, body: seq![break_block()] }], else_body: None }));
    let one = Expr::Literal(Value::Int(1));
    assert(one@ == ExprM::Literal(ValueM::Int(1)));
    let sum = Expr::Binary { op: BinOp::Add, left: Box::new(Expr::Id(v.clone())), right: Box::new(one) };
    assert(sum@ == ExprM::Binary { op: BinOp::Add, left: Box::new(ExprM::Id(v@)), right: Box::new(ExprM::Literal(ValueM::Int(1))) });
    let inc = Stmt::Assign { name: v.clone(), value: sum };
    let ghost if_m = if_stmt@;
    let ghost body_m = stmts_m(body@);
    let ghost inc_m = inc@;
    let mut loop_body = empty_stmts();
    push_stmt(&mut loop_body, if_stmt);
    push_stmt(&mut loop_body, Stmt::Block(body));
    push_stmt(&mut loop_body, inc);
    assert(stmts_m(loop_body@) =~= seq![if_m, StmtM::Block(body_m), inc_m]);
    let decl = Stmt::VarDecl { name: v, typ: Some(String::from_str("int")), value: Some(Expr::Literal(Value::Int(a))) };
    let ghost decl_m = decl@;
    let ghost lb_m = stmts_m(loop_body@);
    let mut outer = empty_stmts();
    push_stmt(&mut outer, decl);
    push_stmt(&mut outer, Stmt::Loop { body: loop_body });
    assert(stmts_m(outer@) =~= seq![decl_m, StmtM::Loop { body: lb_m }]);
    assert(cond_m == ExprM::Binary { op: BinOp::Ge, left: Box::new(ExprM::Id(v@)), right: Box::new(ExprM::Literal(ValueM::Int(b))) });
    assert(inc_m == StmtM::Assign { name: v@, value: ExprM::Binary { op: BinOp::Add, left: Box::new(ExprM::Id(v@)), right: Box::new(ExprM::Literal(ValueM::Int(1))) } });
    assert(decl_m == StmtM::VarDecl { name: v@, typ: Some("int"@), value: Some(ExprM::Literal(ValueM::Int(a))) });
    Stmt::Block(outer)
}

/// The statements that `while c { body }` stands for.
pub fn while_desugar_exec(c: Expr, body: Vec<Expr>) -> (res: Stmt)
    ensures
        res@ == while_desugar(c@, exprs_m(body@)),
{
    let branch = IfBranch { condition: c, body };
    let if_stmt = Stmt::Expr(Expr::If { branches: one_branch(branch), else_body: Some(one_expr(break_block_exec())) });
    let ghost if_m = if_stmt@;
    let mut loop_body = empty_stmts();
    push_stmt(&mut loop_body, if_stmt);
    assert(stmts_m(loop_body@) =~= seq![if_m]);
    let ghost lb_m = stmts_m(loop_body@);
    let mut outer = empty_stmts();
    push_stmt(&mut outer, Stmt::Loop { body: loop_body });
    assert(stmts_m(outer@) =~= seq![StmtM::Loop { body: lb_m }]);
    Stmt::Block(outer)
}

} // verus!
