use vstd::prelude::*;
use crate::value::{Value, ValueM};
use crate::ast::{BinOp, Expr, ExprM};
use crate::scope::Scope;
use crate::same::same_value;
use crate::text::chars_of;
use crate::lexer::sub_chars;

verus! {

/// What folding an expression to a constant gives: a value, no value (the expression
/// is not a constant one), or a stop (an integer overflow or a division by zero).
pub enum Folded {
    Known(ValueM),
    Unknown,
    Stops,
}

/// An operator applied to two integers.
pub open spec fn fold_ints(op: BinOp, a: i64, b: i64) -> Folded {
    match op {
        BinOp::Add => match a.checked_add(b) { Some(v) => Folded::Known(ValueM::Int(v)), None => Folded::Stops },
        BinOp::Sub => match a.checked_sub(b) { Some(v) => Folded::Known(ValueM::Int(v)), None => Folded::Stops },
        BinOp::Mul => match a.checked_mul(b) { Some(v) => Folded::Known(ValueM::Int(v)), None => Folded::Stops },
        BinOp::Div => match a.checked_div(b) { Some(v) => Folded::Known(ValueM::Int(v)), None => Folded::Stops },
        BinOp::Lt => Folded::Known(ValueM::Bool(a < b)),
        BinOp::Le => Folded::Known(ValueM::Bool(a <= b)),
        BinOp::Gt => Folded::Known(ValueM::Bool(a > b)),
        BinOp::Ge => Folded::Known(ValueM::Bool(a >= b)),
        BinOp::Eq => Folded::Known(ValueM::Bool(a == b)),
        BinOp::Ne => Folded::Known(ValueM::Bool(a != b)),
    }
}

/// The index of the first point of `t` at or after `i`, or the end.
pub open spec fn point_at(t: Seq<char>, i: int) -> int
    decreases t.len() - i,
{
    if i >= t.len() || t[i] == '.' { i } else { point_at(t, i + 1) }
}

/// The first index at or after `i`, before `end`, that holds no `0`.
pub open spec fn skip_zeros(t: Seq<char>, i: int, end: int) -> int
    decreases end - i,
{
    if i < end && t[i] == '0' { skip_zeros(t, i + 1, end) } else { i }
}

/// The end of `t[start..j]` once the `0`s at its end are dropped.
pub open spec fn trim_zeros(t: Seq<char>, start: int, j: int) -> int
    decreases j - start,
{
    if j > start && t[j - 1] == '0' { trim_zeros(t, start, j - 1) } else { j }
}

/// The digits that fix the value of a decimal text: those before the point without the
/// leading `0`s, and those after it without the trailing `0`s.
pub open spec fn decimal_digits(t: Seq<char>) -> (Seq<char>, Seq<char>) {
    let d = point_at(t, 0);
    (t.subrange(skip_zeros(t, 0, d), d),
        if d < t.len() { t.subrange(d + 1, trim_zeros(t, d + 1, t.len() as int)) } else { Seq::empty() })
}

/// Whether two values are equal: two floats are when their decimal texts stand for the
/// same number (`1.0` and `1.00`), other values when they are the same value.
pub open spec fn same_number(l: ValueM, r: ValueM) -> bool {
    match (l, r) {
        (ValueM::Float(a), ValueM::Float(b)) => decimal_digits(a) == decimal_digits(b),
        _ => l == r,
    }
}

/// An operator applied to two constant values: `==` and `!=` compare any two values,
/// the other operators take two integers.
pub open spec fn fold_values(op: BinOp, l: ValueM, r: ValueM) -> Folded {
    match op {
        BinOp::Eq => Folded::Known(ValueM::Bool(same_number(l, r))),
        BinOp::Ne => Folded::Known(ValueM::Bool(!same_number(l, r))),
        _ => match (l, r) {
            (ValueM::Int(a), ValueM::Int(b)) => fold_ints(op, a, b),
            _ => Folded::Unknown,
        },
    }
}

/// The constant an expression folds to in a scope: a literal is its value, a variable
/// bound to a literal is that literal's value, an operator is applied to the folded
/// operands (the left one first; no value on the left leaves the right unread).
pub open spec fn fold(e: ExprM, scope: Map<Seq<char>, ExprM>) -> Folded
    decreases e,
{
    match e {
        ExprM::Literal(v) => Folded::Known(v),
        ExprM::Id(name) => if scope.contains_key(name) {
            match scope[name] {
                ExprM::Literal(v) => Folded::Known(v),
                _ => Folded::Unknown,
            }
        } else {
            Folded::Unknown
        },
        ExprM::Binary { op, left, right } => match fold(*left, scope) {
            Folded::Known(l) => match fold(*right, scope) {
                Folded::Known(r) => fold_values(op, l, r),
                other => other,
            },
            other => other,
        },
        _ => Folded::Unknown,
    }
}

fn same_chars(a: &Vec<char>, b: &Vec<char>) -> (res: bool)
    ensures
        res == (a@ == b@),
{
    if a.len() != b.len() {
        return false;
    }
    let mut i: usize = 0;
    while i < a.len()
        invariant
            a@.len() == b@.len(),
            i <= a@.len(),
            forall|k: int| 0 <= k < i ==> a@[k] == b@[k],
        decreases a@.len() - i,
    {
        if a[i] != b[i] {
            return false;
        }
        i = i + 1;
    }
    assert(a@ =~= b@);
    true
}

/// The digits that fix the value of a decimal text.
fn decimal_digits_exec(text: &String) -> (res: (Vec<char>, Vec<char>))
    ensures
        (res.0@, res.1@) == decimal_digits(text@),
{
    let c = chars_of(text.as_str());
    let n = c.len();
    let mut d: usize = 0;
    while d < n && c[d] != '.'
        invariant
            n == c@.len(),
            d <= n,
            point_at(c@, d as int) == point_at(c@, 0),
        decreases n - d,
    {
        d = d + 1;
    }
    let mut a: usize = 0;
    while a < d && c[a] == '0'
        invariant
            n == c@.len(),
            d <= n,
            a <= d,
            skip_zeros(c@, a as int, d as int) == skip_zeros(c@, 0, d as int),
        decreases d - a,
    {
        a = a + 1;
    }
    let whole = sub_chars(&c, a, d);
    if d < n {
        let mut e: usize = n;
        while e > d + 1 && c[e - 1] == '0'
            invariant
                n == c@.len(),
                d < n,
                d + 1 <= e <= n,
                trim_zeros(c@, d + 1, e as int) == trim_zeros(c@, d + 1, n as int),
            decreases e,
        {
            e = e - 1;
        }
        (whole, sub_chars(&c, d + 1, e))
    } else {
        (whole, Vec::new())
    }
}

/// Whether two values are equal, floats by the numbers their texts stand for.
fn same_number_exec(l: &Value, r: &Value) -> (res: bool)
    ensures
        res == same_number(l@, r@),
{
    match (l, r) {
        (Value::Float(a), Value::Float(b)) => {
            let (aw, af) = decimal_digits_exec(a);
            let (bw, bf) = decimal_digits_exec(b);
            same_chars(&aw, &bw) && same_chars(&af, &bf)
        },
        _ => same_value(l, r),
    }
}

fn fold_ints_exec(op: BinOp, a: i64, b: i64) -> (res: Option<Value>)
    requires
        !(fold_ints(op, a, b) is Stops),
    ensures
        fold_ints(op, a, b) matches Folded::Known(v) && res matches Some(x) && x@ == v,
{
    match op {
        BinOp::Add => Some(Value::Int(a + b)),
        BinOp::Sub => Some(Value::Int(a - b)),
        BinOp::Mul => Some(Value::Int(a * b)),
        BinOp::Div => match a.checked_div(b) {
            Some(v) => Some(Value::Int(v)),
            None => None,
        },
        BinOp::Lt => Some(Value::Bool(a < b)),
        BinOp::Le => Some(Value::Bool(a <= b)),
        BinOp::Gt => Some(Value::Bool(a > b)),
        BinOp::Ge => Some(Value::Bool(a >= b)),
        BinOp::Eq => Some(Value::Bool(a == b)),
        BinOp::Ne => Some(Value::Bool(a != b)),
    }
}

/// Folds an expression to the constant it stands for in `scope`, where it stands for one.
pub fn expr_to_value(expr: &Expr, scope: &Scope) -> (res: Option<Value>)
    requires
        !(fold(expr@, scope@) is Stops),
    ensures
        match fold(expr@, scope@) {
            Folded::Known(v) => res matches Some(x) && x@ == v,
            Folded::Unknown => res is None,
            Folded::Stops => false,
        },
    decreases *expr,
{
    match expr {
        Expr::Literal(v) => Some(v.copied()),
        Expr::Id(name) => match scope.get(name) {
            Some(Expr::Literal(v)) => Some(v.copied()),
            _ => None,
        },
        Expr::Binary { op, left, right } => {
            let l = expr_to_value(&**left, scope)?;
            let r = expr_to_value(&**right, scope)?;
            match op {
                BinOp::Eq => Some(Value::Bool(same_number_exec(&l, &r))),
                BinOp::Ne => Some(Value::Bool(!same_number_exec(&l, &r))),
                _ => match (&l, &r) {
                    (Value::Int(a), Value::Int(b)) => fold_ints_exec(*op, *a, *b),
                    _ => None,
                },
            }
        },
        _ => None,
    }
}

} // verus!
