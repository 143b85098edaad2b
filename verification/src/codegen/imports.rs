//! The modules that a program may import, and the float literals it spells: what has
//! to be made ready before its code is generated.
use vstd::prelude::*;
use crate::token::{Token, TokenM, tokens_m};
use crate::ast::{Expr, Stmt, IfBranch, strings_m};
use crate::ast::copy_strings;

verus! {

/// The paths of the imports in an expression, in order (imports stand in the blocks
/// that `if`s and block expressions hold).
pub open spec fn expr_imports(e: Expr) -> Seq<Seq<Seq<char>>>
    decreases e,
{
    match e {
        Expr::Binary { op, left, right } => expr_imports(*left) + expr_imports(*right),
        Expr::FnCall { name, args } => exprs_imports(args@),
        Expr::If { branches, else_body } => branches_imports(branches@) + match else_body {
            Some(v) => exprs_imports(v@),
            None => Seq::empty(),
        },
        Expr::Block { stmts, final_expr } => stmts_imports(stmts@) + match final_expr {
            Some(b) => expr_imports(*b),
            None => Seq::empty(),
        },
        _ => Seq::empty(),
    }
}

pub open spec fn exprs_imports(s: Seq<Expr>) -> Seq<Seq<Seq<char>>>
    decreases s,
{
    if s.len() == 0 { Seq::empty() } else { exprs_imports(s.drop_last()) + expr_imports(s.last()) }
}

pub open spec fn branches_imports(s: Seq<IfBranch>) -> Seq<Seq<Seq<char>>>
    decreases s,
{
    if s.len() == 0 {
        Seq::empty()
    } else {
        branches_imports(s.drop_last()) + expr_imports(s.last().condition) + exprs_imports(s.last().body@)
    }
}

/// The paths of the imports in a statement, in order.
pub open spec fn stmt_imports(st: Stmt) -> Seq<Seq<Seq<char>>>
    decreases st,
{
    match st {
        Stmt::Import { path, nickname, is_glob } => seq![strings_m(path@)],
        Stmt::VarDecl { name, typ, value } => match value {
            Some(e) => expr_imports(e),
            None => Seq::empty(),
        },
        Stmt::Assign { name, value } => expr_imports(value),
        Stmt::FnDecl { name, args, body, attributes, ret_type, is_extern } => stmts_imports(body@),
        Stmt::Loop { body } => stmts_imports(body@),
        Stmt::Expr(e) => expr_imports(e),
        Stmt::Block(b) => stmts_imports(b@),
        Stmt::Return(e) => match e {
            Some(x) => expr_imports(x),
            None => Seq::empty(),
        },
        _ => Seq::empty(),
    }
}

pub open spec fn stmts_imports(s: Seq<Stmt>) -> Seq<Seq<Seq<char>>>
    decreases s,
{
    if s.len() == 0 { Seq::empty() } else { stmts_imports(s.drop_last()) + stmt_imports(s.last()) }
}

/// The paths held by a list of paths.
pub open spec fn paths_m(p: Seq<Vec<String>>) -> Seq<Seq<Seq<char>>> {
    p.map_values(|v: Vec<String>| strings_m(v@))
}

proof fn lemma_paths_m_push(p: Seq<Vec<String>>, v: Vec<String>)
    ensures
        paths_m(p.push(v)) == paths_m(p).push(strings_m(v@)),
{
    assert(paths_m(p.push(v)) =~= paths_m(p).push(strings_m(v@)));
}

/// Appends the import paths of an expression to `out`.
fn collect_expr(e: &Expr, out: &mut Vec<Vec<String>>)
    ensures
        paths_m(final(out)@) == paths_m(old(out)@) + expr_imports(*e),
    decreases *e,
{
    match e {
        Expr::Binary { left, right, .. } => {
            collect_expr(&**left, out);
            collect_expr(&**right, out);
        },
        Expr::FnCall { args, .. } => collect_exprs(args, out),
        Expr::If { branches, else_body } => {
            collect_branches(branches, out);
            match else_body {
                Some(v) => collect_exprs(v, out),
                None => {
                    assert(paths_m(out@) + Seq::<Seq<Seq<char>>>::empty() =~= paths_m(out@));
                },
            }
        },
        Expr::Block { stmts, final_expr } => {
            collect_stmts(stmts, out);
            match final_expr {
                Some(b) => collect_expr(&**b, out),
                None => {
                    assert(paths_m(out@) + Seq::<Seq<Seq<char>>>::empty() =~= paths_m(out@));
                },
            }
        },
        _ => {
            assert(paths_m(out@) + Seq::<Seq<Seq<char>>>::empty() =~= paths_m(out@));
        },
    }
}

fn collect_exprs(v: &Vec<Expr>, out: &mut Vec<Vec<String>>)
    ensures
        paths_m(final(out)@) == paths_m(old(out)@) + exprs_imports(v@),
    decreases v,
{
    let mut i: usize = 0;
    while i < v.len()
        invariant
            i <= v@.len(),
            paths_m(out@) == paths_m(old(out)@) + exprs_imports(v@.take(i as int)),
        decreases v@.len() - i,
    {
        proof {
            assert(decreases_to!(v => v@[i as int]));
            assert(v@.take(i + 1).drop_last() =~= v@.take(i as int));
        }
        collect_expr(&v[i], out);
        i = i + 1;
    }
    assert(v@.take(v@.len() as int) =~= v@);
}

fn collect_branches(v: &Vec<IfBranch>, out: &mut Vec<Vec<String>>)
    ensures
        paths_m(final(out)@) == paths_m(old(out)@) + branches_imports(v@),
    decreases v,
{
    let mut i: usize = 0;
    while i < v.len()
        invariant
            i <= v@.len(),
            paths_m(out@) == paths_m(old(out)@) + branches_imports(v@.take(i as int)),
        decreases v@.len() - i,
    {
        proof {
            assert(decreases_to!(v => v@[i as int]));
            assert(decreases_to!(v => v@[i as int].condition));
            assert(decreases_to!(v => v@[i as int].body));
            assert(v@.take(i + 1).drop_last() =~= v@.take(i as int));
        }
        collect_expr(&v[i].condition, out);
        collect_exprs(&v[i].body, out);
        i = i + 1;
    }
    assert(v@.take(v@.len() as int) =~= v@);
}

fn collect_stmt(st: &Stmt, out: &mut Vec<Vec<String>>)
    ensures
        paths_m(final(out)@) == paths_m(old(out)@) + stmt_imports(*st),
    decreases *st,
{
    let ghost empty = Seq::<Seq<Seq<char>>>::empty();
    match st {
        Stmt::Import { path, .. } => {
            proof {
                lemma_paths_m_push(out@, *path);
            }
            out.push(copy_strings(path));
        },
        Stmt::VarDecl { value, .. } => match value {
            Some(e) => collect_expr(e, out),
            None => {
                assert(paths_m(out@) + empty =~= paths_m(out@));
            },
        },
        Stmt::Assign { value, .. } => collect_expr(value, out),
        Stmt::FnDecl { body, .. } => collect_stmts(body, out),
        Stmt::Loop { body } => collect_stmts(body, out),
        Stmt::Expr(e) => collect_expr(e, out),
        Stmt::Block(b) => collect_stmts(b, out),
        Stmt::Return(e) => match e {
            Some(x) => collect_expr(x, out),
            None => {
                assert(paths_m(out@) + empty =~= paths_m(out@));
            },
        },
        _ => {
            assert(paths_m(out@) + empty =~= paths_m(out@));
        },
    }
}

fn collect_stmts(v: &Vec<Stmt>, out: &mut Vec<Vec<String>>)
    ensures
        paths_m(final(out)@) == paths_m(old(out)@) + stmts_imports(v@),
    decreases v,
{
    let mut i: usize = 0;
    while i < v.len()
        invariant
            i <= v@.len(),
            paths_m(out@) == paths_m(old(out)@) + stmts_imports(v@.take(i as int)),
        decreases v@.len() - i,
    {
        proof {
            assert(decreases_to!(v => v@[i as int]));
            assert(v@.take(i + 1).drop_last() =~= v@.take(i as int));
        }
        collect_stmt(&v[i], out);
        i = i + 1;
    }
    assert(v@.take(v@.len() as int) =~= v@);
}

/// The paths of all the imports in the statements, nested ones included, in order.
pub fn import_paths(stmts: &Vec<Stmt>) -> (res: Vec<Vec<String>>)
    ensures
        paths_m(res@) == stmts_imports(stmts@),
{
    let mut out: Vec<Vec<String>> = Vec::new();
    assert(paths_m(out@) =~= Seq::<Seq<Seq<char>>>::empty());
    collect_stmts(stmts, &mut out);
    assert(paths_m(out@) =~= Seq::<Seq<Seq<char>>>::empty() + stmts_imports(stmts@));
    out
}

/// The literals of the float tokens, in order.
pub open spec fn float_texts(ts: Seq<TokenM>) -> Seq<Seq<char>>
    decreases ts.len(),
{
    if ts.len() == 0 {
        Seq::empty()
    } else {
        float_texts(ts.drop_last()) + match ts.last() {
            TokenM::Float(t) => seq![t],
            _ => Seq::empty(),
        }
    }
}

/// The literals of the float tokens, in order.
pub fn float_literals(tokens: &Vec<Token>) -> (res: Vec<String>)
    ensures
        strings_m(res@) == float_texts(tokens_m(tokens@)),
{
    let mut out: Vec<String> = Vec::new();
    let mut i: usize = 0;
    while i < tokens.len()
        invariant
            i <= tokens@.len(),
            strings_m(out@) == float_texts(tokens_m(tokens@.take(i as int))),
        decreases tokens@.len() - i,
    {
        assert(tokens_m(tokens@.take(i + 1)).drop_last() =~= tokens_m(tokens@.take(i as int)));
        match &tokens[i] {
            Token::Float(t) => {
                out.push(t.clone());
            },
            _ => {},
        }
        i = i + 1;
        assert(strings_m(out@) =~= float_texts(tokens_m(tokens@.take(i as int))));
    }
    assert(tokens@.take(tokens@.len() as int) =~= tokens@);
    out
}

} // verus!
