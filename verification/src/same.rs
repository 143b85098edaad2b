use vstd::prelude::*;
use crate::value::Value;
use crate::ast::{Expr, Stmt, IfBranch, TypedArg, Attribute, AttrArg, exprs_m, stmts_m, branches_m, targs_m,
    attrs_m, attr_args_m, strings_m, opt_string_m, expr_m, stmt_m, branch_m, targ_m, attr_m, attr_arg_m,
    lemma_exprs_m_len, lemma_stmts_m_len, lemma_branches_m_len, lemma_targs_len};
use crate::eat::type_eq;

verus! {

/// Whether two values are the same value.
pub fn same_value(a: &Value, b: &Value) -> (res: bool)
    ensures
        res == (a@ == b@),
{
    match (a, b) {
        (Value::Int(x), Value::Int(y)) => *x == *y,
        (Value::Float(x), Value::Float(y)) => *x == *y,
        (Value::Bool(x), Value::Bool(y)) => *x == *y,
        (Value::Str(x), Value::Str(y)) => *x == *y,
        _ => false,
    }
}

fn same_opt_string(a: &Option<String>, b: &Option<String>) -> (res: bool)
    ensures
        res == (opt_string_m(*a) == opt_string_m(*b)),
{
    match (a, b) {
        (Some(x), Some(y)) => *x == *y,
        (None, None) => true,
        _ => false,
    }
}

fn same_strings(a: &Vec<String>, b: &Vec<String>) -> (res: bool)
    ensures
        res == (strings_m(a@) == strings_m(b@)),
{
    if a.len() != b.len() {
        return false;
    }
    let mut i: usize = 0;
    while i < a.len()
        invariant
            i <= a@.len(),
            a@.len() == b@.len(),
            forall|j: int| 0 <= j < i ==> #[trigger] a@[j]@ == b@[j]@,
        decreases a@.len() - i,
    {
        if a[i] != b[i] {
            assert(strings_m(a@)[i as int] != strings_m(b@)[i as int]);
            return false;
        }
        i = i + 1;
    }
    assert(strings_m(a@) =~= strings_m(b@));
    true
}

fn same_attr_arg(a: &AttrArg, b: &AttrArg) -> (res: bool)
    ensures
        res == (attr_arg_m(*a) == attr_arg_m(*b)),
{
    match (a, b) {
        (AttrArg::Positional(x), AttrArg::Positional(y)) => *x == *y,
        (AttrArg::Named(k, v), AttrArg::Named(l, w)) => *k == *l && same_value(v, w),
        _ => false,
    }
}

fn same_attr_args(a: &Vec<AttrArg>, b: &Vec<AttrArg>) -> (res: bool)
    ensures
        res == (attr_args_m(a@) == attr_args_m(b@)),
{
    if a.len() != b.len() {
        return false;
    }
    let mut i: usize = 0;
    while i < a.len()
        invariant
            i <= a@.len(),
            a@.len() == b@.len(),
            forall|j: int| 0 <= j < i ==> #[trigger] attr_arg_m(a@[j]) == attr_arg_m(b@[j]),
        decreases a@.len() - i,
    {
        if !same_attr_arg(&a[i], &b[i]) {
            assert(attr_args_m(a@)[i as int] != attr_args_m(b@)[i as int]);
            return false;
        }
        i = i + 1;
    }
    assert(attr_args_m(a@) =~= attr_args_m(b@));
    true
}

fn same_attr(a: &Attribute, b: &Attribute) -> (res: bool)
    ensures
        res == (attr_m(*a) == attr_m(*b)),
{
    match (a, b) {
        (Attribute::Test, Attribute::Test) => true,
        (Attribute::Simple(x), Attribute::Simple(y)) => *x == *y,
        (Attribute::WithArgs { name: n, args: x }, Attribute::WithArgs { name: m, args: y }) =>
            *n == *m && same_attr_args(x, y),
        _ => false,
    }
}

fn same_attrs(a: &Vec<Attribute>, b: &Vec<Attribute>) -> (res: bool)
    ensures
        res == (attrs_m(a@) == attrs_m(b@)),
{
    if a.len() != b.len() {
        return false;
    }
    let mut i: usize = 0;
    while i < a.len()
        invariant
            i <= a@.len(),
            a@.len() == b@.len(),
            forall|j: int| 0 <= j < i ==> #[trigger] attr_m(a@[j]) == attr_m(b@[j]),
        decreases a@.len() - i,
    {
        if !same_attr(&a[i], &b[i]) {
            assert(attrs_m(a@)[i as int] != attrs_m(b@)[i as int]);
            return false;
        }
        i = i + 1;
    }
    assert(attrs_m(a@) =~= attrs_m(b@));
    true
}

/// Whether two expressions are the same expression.
pub fn same_expr(a: &Expr, b: &Expr) -> (res: bool)
    ensures
        res == (a@ == b@),
    decreases *a,
{
    match (a, b) {
        (Expr::Id(x), Expr::Id(y)) => *x == *y,
        (Expr::Literal(x), Expr::Literal(y)) => same_value(x, y),
        (Expr::Binary { op: o, left: l, right: r }, Expr::Binary { op: p, left: m, right: s }) =>
            *o == *p && same_expr(&**l, &**m) && same_expr(&**r, &**s),
        (Expr::FnCall { name: n, args: x }, Expr::FnCall { name: m, args: y }) =>
            *n == *m && same_exprs(x, y),
        (Expr::If { branches: x, else_body: e }, Expr::If { branches: y, else_body: f }) => {
            if !same_branches(x, y) {
                return false;
            }
            match (e, f) {
                (Some(u), Some(v)) => same_exprs(u, v),
                (None, None) => true,
                _ => false,
            }
        },
        (Expr::Block { stmts: x, final_expr: e }, Expr::Block { stmts: y, final_expr: f }) => {
            if !same_stmts(x, y) {
                return false;
            }
            match (e, f) {
                (Some(u), Some(v)) => same_expr(&**u, &**v),
                (None, None) => true,
                _ => false,
            }
        },
        _ => false,
    }
}

/// Whether two lists of expressions are the same.
pub fn same_exprs(a: &Vec<Expr>, b: &Vec<Expr>) -> (res: bool)
    ensures
        res == (exprs_m(a@) == exprs_m(b@)),
    decreases a,
{
    proof {
        lemma_exprs_m_len(a@);
        lemma_exprs_m_len(b@);
    }
    if a.len() != b.len() {
        return false;
    }
    let mut i: usize = 0;
    while i < a.len()
        invariant
            i <= a@.len(),
            a@.len() == b@.len(),
            exprs_m(a@).len() == a@.len(),
            exprs_m(b@).len() == b@.len(),
            forall|j: int| 0 <= j < a@.len() ==> #[trigger] exprs_m(a@)[j] == expr_m(a@[j]),
            forall|j: int| 0 <= j < b@.len() ==> #[trigger] exprs_m(b@)[j] == expr_m(b@[j]),
            forall|j: int| 0 <= j < i ==> exprs_m(a@)[j] == exprs_m(b@)[j],
        decreases a@.len() - i,
    {
        proof {
            assert(decreases_to!(a => a@[i as int]));
        }
        if !same_expr(&a[i], &b[i]) {
            assert(exprs_m(a@)[i as int] != exprs_m(b@)[i as int]);
            return false;
        }
        i = i + 1;
    }
    assert(exprs_m(a@) =~= exprs_m(b@));
    true
}

fn same_branches(a: &Vec<IfBranch>, b: &Vec<IfBranch>) -> (res: bool)
    ensures
        res == (branches_m(a@) == branches_m(b@)),
    decreases a,
{
    proof {
        lemma_branches_m_len(a@);
        lemma_branches_m_len(b@);
    }
    if a.len() != b.len() {
        return false;
    }
    let mut i: usize = 0;
    while i < a.len()
        invariant
            i <= a@.len(),
            a@.len() == b@.len(),
            branches_m(a@).len() == a@.len(),
            branches_m(b@).len() == b@.len(),
            forall|j: int| 0 <= j < a@.len() ==> #[trigger] branches_m(a@)[j] == branch_m(a@[j]),
            forall|j: int| 0 <= j < b@.len() ==> #[trigger] branches_m(b@)[j] == branch_m(b@[j]),
            forall|j: int| 0 <= j < i ==> branches_m(a@)[j] == branches_m(b@)[j],
        decreases a@.len() - i,
    {
        proof {
            assert(decreases_to!(a => a@[i as int]));
            assert(decreases_to!(a => a@[i as int].condition));
            assert(decreases_to!(a => a@[i as int].body));
        }
        let x = &a[i];
        let y = &b[i];
        if !(same_expr(&x.condition, &y.condition) && same_exprs(&x.body, &y.body)) {
            assert(branches_m(a@)[i as int] != branches_m(b@)[i as int]);
            return false;
        }
        i = i + 1;
    }
    assert(branches_m(a@) =~= branches_m(b@));
    true
}

fn same_targs(a: &Vec<TypedArg>, b: &Vec<TypedArg>) -> (res: bool)
    ensures
        res == (targs_m(a@) == targs_m(b@)),
    decreases a,
{
    proof {
        lemma_targs_len(a@);
        lemma_targs_len(b@);
    }
    if a.len() != b.len() {
        return false;
    }
    let mut i: usize = 0;
    while i < a.len()
        invariant
            i <= a@.len(),
            a@.len() == b@.len(),
            targs_m(a@).len() == a@.len(),
            targs_m(b@).len() == b@.len(),
            forall|j: int| 0 <= j < a@.len() ==> #[trigger] targs_m(a@)[j] == targ_m(a@[j]),
            forall|j: int| 0 <= j < b@.len() ==> #[trigger] targs_m(b@)[j] == targ_m(b@[j]),
            forall|j: int| 0 <= j < i ==> targs_m(a@)[j] == targs_m(b@)[j],
        decreases a@.len() - i,
    {
        proof {
            assert(decreases_to!(a => a@[i as int]));
            assert(decreases_to!(a => a@[i as int].value));
        }
        let x = &a[i];
        let y = &b[i];
        let same_value_part = match (&x.value, &y.value) {
            (Some(u), Some(v)) => same_expr(u, v),
            (None, None) => true,
            _ => false,
        };
        if !(x.name == y.name && type_eq(&x.typ, &y.typ) && same_value_part) {
            assert(targs_m(a@)[i as int] != targs_m(b@)[i as int]);
            return false;
        }
        i = i + 1;
    }
    assert(targs_m(a@) =~= targs_m(b@));
    true
}

/// Whether two statements are the same statement.
pub fn same_stmt(a: &Stmt, b: &Stmt) -> (res: bool)
    ensures
        res == (a@ == b@),
    decreases *a,
{
    match (a, b) {
        (Stmt::VarDecl { name: n, typ: t, value: v }, Stmt::VarDecl { name: m, typ: u, value: w }) => {
            if !(*n == *m && same_opt_string(t, u)) {
                return false;
            }
            match (v, w) {
                (Some(x), Some(y)) => same_expr(x, y),
                (None, None) => true,
                _ => false,
            }
        },
        (Stmt::Assign { name: n, value: v }, Stmt::Assign { name: m, value: w }) => *n == *m && same_expr(v, w),
        (Stmt::FnCall { name: n, args: x }, Stmt::FnCall { name: m, args: y }) => *n == *m && same_targs(x, y),
        (
            Stmt::FnDecl { name: n, args: x, body: p, attributes: s, ret_type: t, is_extern: e },
            Stmt::FnDecl { name: m, args: y, body: q, attributes: r, ret_type: u, is_extern: f },
        ) => *n == *m && same_targs(x, y) && same_stmts(p, q) && same_attrs(s, r) && type_eq(t, u) && *e == *f,
        (
            Stmt::Import { path: p, nickname: n, is_glob: g },
            Stmt::Import { path: q, nickname: m, is_glob: h },
        ) => same_strings(p, q) && same_opt_string(n, m) && *g == *h,
        (Stmt::Loop { body: x }, Stmt::Loop { body: y }) => same_stmts(x, y),
        (Stmt::Break, Stmt::Break) => true,
        (Stmt::Expr(x), Stmt::Expr(y)) => same_expr(x, y),
        (Stmt::Block(x), Stmt::Block(y)) => same_stmts(x, y),
        (Stmt::Return(v), Stmt::Return(w)) => match (v, w) {
            (Some(x), Some(y)) => same_expr(x, y),
            (None, None) => true,
            _ => false,
        },
        _ => false,
    }
}

/// Whether two lists of statements are the same.
pub fn same_stmts(a: &Vec<Stmt>, b: &Vec<Stmt>) -> (res: bool)
    ensures
        res == (stmts_m(a@) == stmts_m(b@)),
    decreases a,
{
    proof {
        lemma_stmts_m_len(a@);
        lemma_stmts_m_len(b@);
    }
    if a.len() != b.len() {
        return false;
    }
    let mut i: usize = 0;
    while i < a.len()
        invariant
            i <= a@.len(),
            a@.len() == b@.len(),
            stmts_m(a@).len() == a@.len(),
            stmts_m(b@).len() == b@.len(),
            forall|j: int| 0 <= j < a@.len() ==> #[trigger] stmts_m(a@)[j] == stmt_m(a@[j]),
            forall|j: int| 0 <= j < b@.len() ==> #[trigger] stmts_m(b@)[j] == stmt_m(b@[j]),
            forall|j: int| 0 <= j < i ==> stmts_m(a@)[j] == stmts_m(b@)[j],
        decreases a@.len() - i,
    {
        proof {
            assert(decreases_to!(a => a@[i as int]));
        }
        if !same_stmt(&a[i], &b[i]) {
            assert(stmts_m(a@)[i as int] != stmts_m(b@)[i as int]);
            return false;
        }
        i = i + 1;
    }
    assert(stmts_m(a@) =~= stmts_m(b@));
    true
}

} // verus!
