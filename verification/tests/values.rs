use kurai::ast::{BinOp, Expr};
use kurai::parser::fold::expr_to_value;
use kurai::scope::Scope;
use kurai::value::Value;
use kurai::token::Token;

fn lit(v: i64) -> Expr {
    Expr::Literal(Value::Int(v))
}

fn bin(op: BinOp, l: Expr, r: Expr) -> Expr {
    Expr::Binary { op, left: Box::new(l), right: Box::new(r) }
}

#[test]
fn value_to_string_forms() {
    assert_eq!(Value::Int(-42).to_string(), "-42");
    assert_eq!(Value::Int(0).to_string(), "0");
    assert_eq!(Value::Int(i64::MIN).to_string(), "-9223372036854775808");
    assert_eq!(Value::Bool(true).to_string(), "true");
    assert_eq!(Value::Str("hi".to_string()).to_string(), "hi");
    assert_eq!(Value::Float("2.5".to_string()).to_string(), "2.5");
}

#[test]
fn scope_read_after_write() {
    let mut scope = Scope::new();
    assert_eq!(scope.get(&"x".to_string()), None);
    scope.declare_var("x".to_string(), lit(1));
    scope.declare_var("y".to_string(), lit(2));
    scope.declare_var("x".to_string(), lit(3));
    assert_eq!(scope.get(&"x".to_string()), Some(&lit(3)));
    assert_eq!(scope.get(&"y".to_string()), Some(&lit(2)));
}

#[test]
fn fold_arithmetic() {
    let scope = Scope::new();
    let e = bin(BinOp::Add, lit(1), bin(BinOp::Mul, lit(2), lit(3)));
    assert_eq!(expr_to_value(&e, &scope), Some(Value::Int(7)));
    assert_eq!(expr_to_value(&bin(BinOp::Div, lit(-7), lit(2)), &scope), Some(Value::Int(-3)));
    assert_eq!(expr_to_value(&bin(BinOp::Sub, lit(2), lit(5)), &scope), Some(Value::Int(-3)));
}

#[test]
fn fold_comparisons() {
    let scope = Scope::new();
    assert_eq!(expr_to_value(&bin(BinOp::Lt, lit(1), lit(2)), &scope), Some(Value::Bool(true)));
    assert_eq!(expr_to_value(&bin(BinOp::Ge, lit(1), lit(2)), &scope), Some(Value::Bool(false)));
    let s = Expr::Literal(Value::Str("a".to_string()));
    assert_eq!(expr_to_value(&bin(BinOp::Eq, s.clone(), s.clone()), &scope), Some(Value::Bool(true)));
    assert_eq!(expr_to_value(&bin(BinOp::Ne, s.clone(), lit(1)), &scope), Some(Value::Bool(true)));
    assert_eq!(expr_to_value(&bin(BinOp::Lt, s, lit(1)), &scope), None);
}

#[test]
fn fold_variables() {
    let mut scope = Scope::new();
    scope.declare_var("k".to_string(), lit(10));
    scope.declare_var("e".to_string(), bin(BinOp::Add, lit(1), lit(1)));
    let k = Expr::Id("k".to_string());
    assert_eq!(expr_to_value(&bin(BinOp::Mul, k, lit(3)), &scope), Some(Value::Int(30)));
    assert_eq!(expr_to_value(&Expr::Id("e".to_string()), &scope), None);
    assert_eq!(expr_to_value(&Expr::Id("missing".to_string()), &scope), None);
}

#[test]
fn fold_call_has_no_value() {
    let scope = Scope::new();
    let call = Expr::FnCall { name: "f".to_string(), args: vec![] };
    assert_eq!(expr_to_value(&call, &scope), None);
}

#[test]
fn integer_text_reads_back() {
    for n in [0i64, 7, 42, 1000, i64::MAX] {
        let text = Value::Int(n).to_string();
        assert_eq!(Token::tokenize(&text), vec![Token::Number(n)]);
    }
}

#[test]
fn fold_expression_equal_to_itself() {
    let scope = Scope::new();
    let e = bin(BinOp::Mul, lit(6), lit(7));
    assert_eq!(expr_to_value(&bin(BinOp::Eq, e.clone(), e.clone()), &scope), Some(Value::Bool(true)));
    assert_eq!(expr_to_value(&bin(BinOp::Ne, e.clone(), e), &scope), Some(Value::Bool(false)));
}

#[test]
fn fold_addition_commutes() {
    let scope = Scope::new();
    let a = bin(BinOp::Sub, lit(10), lit(4));
    let b = lit(-9);
    assert_eq!(
        expr_to_value(&bin(BinOp::Add, a.clone(), b.clone()), &scope),
        expr_to_value(&bin(BinOp::Add, b, a), &scope)
    );
}

#[test]
fn fold_literal_is_itself() {
    let scope = Scope::new();
    assert_eq!(expr_to_value(&Expr::Literal(Value::Str("x".to_string())), &scope), Some(Value::Str("x".to_string())));
}

#[test]
fn float_literals_compare_by_value() {
    let scope = Scope::new();
    let f = |t: &str| Expr::Literal(Value::Float(t.to_string()));
    let eq = |a: Expr, b: Expr| Expr::Binary { op: BinOp::Eq, left: Box::new(a), right: Box::new(b) };
    assert_eq!(expr_to_value(&eq(f("1.0"), f("1.00")), &scope), Some(Value::Bool(true)));
    assert_eq!(expr_to_value(&eq(f("01.50"), f("1.5")), &scope), Some(Value::Bool(true)));
    assert_eq!(expr_to_value(&eq(f("1.5"), f("1.05")), &scope), Some(Value::Bool(false)));
    let ne = Expr::Binary { op: BinOp::Ne, left: Box::new(f("0.0")), right: Box::new(f("0.000")) };
    assert_eq!(expr_to_value(&ne, &scope), Some(Value::Bool(false)));
}
