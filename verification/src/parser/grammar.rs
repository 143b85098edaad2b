use vstd::prelude::*;
use crate::types::Type;
use crate::token::{Token, TokenM};
use crate::value::ValueM;
use crate::ast::{BinOp, ExprM, StmtM, IfBranchM, TypedArgM, AttributeM, AttrArgM};
use crate::parser::state::{PS, Res, rem};

verus! {

// ---------------------------------------------------------------------------
// Parts that do not recurse into statements or expressions.

/// Attributes `#[name]` or `#[name(args)]`, as many as follow one another.
pub open spec fn sp_attrs(t: Seq<Token>, s: PS, acc: Seq<AttributeM>) -> Res<Seq<AttributeM>>
    decreases rem(t, s),
{
    if s.at(t) != Some(TokenM::Hash) {
        Res::Done(acc, s)
    } else {
        let s1 = s.skip(1);
        if s1.at(t) != Some(TokenM::OpenSquareBracket) {
            Res::Fail(s1)
        } else {
            let s2 = s1.skip(1);
            match s2.at(t) {
                Some(TokenM::Id(name)) => {
                    let s3 = s2.skip(1);
                    match sp_attr_args(t, s3) {
                        Res::Done(args, s4) => {
                            if s4.at(t) != Some(TokenM::CloseSquareBracket) {
                                Res::Fail(s4)
                            } else if s4.pos < s.pos {
                                Res::Abort
                            } else {
                                let a = if args.len() == 0 {
                                    AttributeM::Simple(name)
                                } else {
                                    AttributeM::WithArgs { name, args }
                                };
                                sp_attrs(t, s4.skip(1), acc.push(a))
                            }
                        },
                        _ => Res::Abort,
                    }
                },
                _ => Res::Fail(s2),
            }
        }
    }
}

/// The optional argument list of an attribute: `(` then names, `name = value`
/// pairs and strings, separated by optional commas, then `)`.
pub open spec fn sp_attr_args(t: Seq<Token>, s: PS) -> Res<Seq<AttrArgM>> {
    if s.at(t) == Some(TokenM::OpenParenthese) {
        attr_args_loop(t, s.skip(1), Seq::empty())
    } else {
        Res::Done(Seq::empty(), s)
    }
}

pub open spec fn eat_comma(t: Seq<Token>, s: PS) -> PS {
    if s.at(t) == Some(TokenM::Comma) { s.skip(1) } else { s }
}

pub open spec fn attr_args_loop(t: Seq<Token>, s: PS, acc: Seq<AttrArgM>) -> Res<Seq<AttrArgM>>
    decreases rem(t, s),
{
    match s.at(t) {
        Some(TokenM::CloseParenthese) => Res::Done(acc, s.skip(1)),
        Some(TokenM::Id(key)) => {
            let s1 = s.skip(1);
            if s1.at(t) == Some(TokenM::Equal) {
                let s2 = s1.skip(1);
                match s2.at(t) {
                    Some(TokenM::Id(v)) => attr_args_loop(t, eat_comma(t, s2.skip(1)),
                        acc.push(AttrArgM::Named(key, ValueM::Str(v)))),
                    Some(TokenM::StringLiteral(v)) => attr_args_loop(t, eat_comma(t, s2.skip(1)),
                        acc.push(AttrArgM::Named(key, ValueM::Str(v)))),
                    _ => Res::Fail(s2),
                }
            } else {
                attr_args_loop(t, eat_comma(t, s1), acc.push(AttrArgM::Positional(key)))
            }
        },
        Some(TokenM::StringLiteral(v)) => attr_args_loop(t, eat_comma(t, s.skip(1)), acc.push(AttrArgM::Positional(v))),
        _ => Res::Fail(s),
    }
}

/// Attributes `#[name]` without arguments, as many as follow one another.
pub open spec fn sp_simple_attrs(t: Seq<Token>, s: PS, acc: Seq<AttributeM>) -> Res<Seq<AttributeM>>
    decreases rem(t, s),
{
    if s.at(t) != Some(TokenM::Hash) {
        Res::Done(acc, s)
    } else {
        let s1 = s.skip(1);
        if s1.at(t) != Some(TokenM::OpenSquareBracket) {
            Res::Fail(s1)
        } else {
            let s2 = s1.skip(1);
            match s2.at(t) {
                Some(TokenM::Id(name)) => {
                    let s3 = s2.skip(1);
                    if s3.at(t) != Some(TokenM::CloseSquareBracket) {
                        Res::Fail(s3)
                    } else {
                        sp_simple_attrs(t, s3.skip(1), acc.push(AttributeM::Simple(name)))
                    }
                },
                _ => Res::Fail(s2),
            }
        }
    }
}

/// A path `a::b::c`: identifiers joined by `::`. Each identifier read is also
/// recorded among the discovered modules when `record` holds.
pub open spec fn path_loop(t: Seq<Token>, s: PS, acc: Seq<Seq<char>>, record: bool) -> (Seq<Seq<char>>, PS)
    decreases rem(t, s),
{
    match s.at(t) {
        Some(TokenM::Id(name)) => {
            let s1 = PS { pos: s.pos + 1, scope: s.scope, mods: if record { s.mods.push(name) } else { s.mods } };
            if s1.at(t) == Some(TokenM::Colon) {
                let s2 = s1.skip(1);
                if s2.at(t) == Some(TokenM::Colon) {
                    path_loop(t, s2.skip(1), acc.push(name), record)
                } else {
                    (acc.push(name), s2)
                }
            } else {
                (acc.push(name), s1)
            }
        },
        _ => (acc, s),
    }
}

/// Joins the parts of a path with `::`.
pub open spec fn join_path(p: Seq<Seq<char>>) -> Seq<char>
    decreases p.len(),
{
    if p.len() == 0 {
        Seq::empty()
    } else if p.len() == 1 {
        p[0]
    } else {
        join_path(p.drop_last()) + "::"@ + p.last()
    }
}

/// The arguments of a call statement: `(` then numbers, strings and names
/// separated by commas, then `)`.
pub open spec fn sp_call_args(t: Seq<Token>, s: PS) -> Res<Seq<TypedArgM>> {
    if s.at(t) != Some(TokenM::OpenParenthese) {
        Res::Fail(s)
    } else {
        call_args_loop(t, s.skip(1), Seq::empty())
    }
}

pub open spec fn call_args_loop(t: Seq<Token>, s: PS, acc: Seq<TypedArgM>) -> Res<Seq<TypedArgM>>
    decreases rem(t, s),
{
    match s.at(t) {
        Some(TokenM::Number(v)) => call_args_loop(t, s.skip(1), acc.push(TypedArgM {
            name: "_"@,
            typ: Type::I64,
            value: Some(ExprM::Literal(ValueM::Int(v))),
        })),
        Some(TokenM::StringLiteral(v)) => call_args_loop(t, s.skip(1), acc.push(TypedArgM {
            name: "_"@,
            typ: Type::Str,
            value: Some(ExprM::Literal(ValueM::Str(v))),
        })),
        Some(TokenM::Id(id)) => call_args_loop(t, s.skip(1), acc.push(TypedArgM {
            name: id,
            typ: Type::Var,
            value: Some(ExprM::Id(id)),
        })),
        Some(TokenM::Comma) => call_args_loop(t, s.skip(1), acc),
        Some(TokenM::CloseParenthese) => Res::Done(acc, s.skip(1)),
        _ => Res::Fail(s),
    }
}

/// A call statement `path(args);`.
pub open spec fn sp_fn_call(t: Seq<Token>, s: PS) -> Res<StmtM> {
    let (path, s1) = path_loop(t, s, Seq::empty(), false);
    if path.len() == 0 {
        Res::Fail(s1)
    } else {
        match sp_call_args(t, s1) {
            Res::Done(args, s2) => {
                if s2.at(t) == Some(TokenM::Semicolon) {
                    Res::Done(StmtM::FnCall { name: join_path(path), args }, s2.skip(1))
                } else {
                    Res::Fail(s2)
                }
            },
            Res::Fail(s2) => Res::Fail(s2),
            Res::Abort => Res::Abort,
        }
    }
}

/// An import `use a::b [as nick];`; every path part is recorded among the
/// discovered modules.
pub open spec fn sp_import(t: Seq<Token>, s: PS) -> Res<StmtM> {
    if s.at(t) != Some(TokenM::Import) {
        Res::Fail(s)
    } else {
        let (path, s1) = path_loop(t, s.skip(1), Seq::empty(), true);
        let nick: Res<Option<Seq<char>>> = if s1.at(t) == Some(TokenM::As) {
            let s2 = s1.skip(1);
            match s2.at(t) {
                Some(TokenM::Id(n)) => Res::Done(Some(n), s2.skip(1)),
                _ => Res::Fail(s2),
            }
        } else {
            Res::Done(None, s1)
        };
        match nick {
            Res::Done(nickname, s3) => {
                if s3.at(t) == Some(TokenM::Semicolon) {
                    Res::Done(StmtM::Import { path, nickname, is_glob: false }, s3.skip(1))
                } else {
                    Res::Fail(s3)
                }
            },
            Res::Fail(s3) => Res::Fail(s3),
            Res::Abort => Res::Abort,
        }
    }
}

/// Declared parameters `name: type`, each followed by an optional comma, up to `)`.
pub open spec fn decl_args_loop(t: Seq<Token>, s: PS, acc: Seq<TypedArgM>) -> Res<Seq<TypedArgM>>
    decreases rem(t, s),
{
    match s.at(t) {
        None => Res::Done(acc, s),
        Some(TokenM::CloseParenthese) => Res::Done(acc, s.skip(1)),
        Some(TokenM::Id(name)) => {
            let s1 = s.skip(1);
            if s1.at(t) != Some(TokenM::Colon) {
                Res::Fail(s1)
            } else {
                let s2 = s1.skip(1);
                match s2.at(t) {
                    Some(TokenM::Type(ty)) => decl_args_loop(t, eat_comma(t, s2.skip(1)),
                        acc.push(TypedArgM { name, typ: ty, value: None })),
                    _ => Res::Fail(s2),
                }
            }
        },
        _ => Res::Fail(s),
    }
}

/// The number of `*` tokens from the current position on.
pub open spec fn star_count(t: Seq<Token>, s: PS) -> nat
    decreases rem(t, s),
{
    if s.at(t) == Some(TokenM::Star) { 1 + star_count(t, s.skip(1)) } else { 0 }
}

/// `ty` behind `n` pointer levels.
pub open spec fn ptr_to(ty: Type, n: nat) -> Type
    decreases n,
{
    if n == 0 { ty } else { Type::Ptr(Box::new(ptr_to(ty, (n - 1) as nat))) }
}

/// The arguments of a call expression, each passed as an argument of that name.
pub open spec fn named_args(name: Seq<char>, args: Seq<ExprM>) -> Seq<TypedArgM> {
    args.map_values(|a: ExprM| TypedArgM { name, typ: Type::Unknown, value: Some(a) })
}

/// The expressions passed by a list of arguments.
pub open spec fn arg_values(args: Seq<TypedArgM>) -> Seq<ExprM> {
    args.map_values(|a: TypedArgM| a.value.unwrap())
}

/// A block that holds `break;` and nothing else.
pub open spec fn break_block() -> ExprM {
    ExprM::Block { stmts: seq![StmtM::Break], final_expr: None }
}

/// `for v in a..b { body }` as the statements it stands for:
/// `{ let v: int = a; loop { if v >= b { break } { body } v = v + 1; } }`.
pub open spec fn for_desugar(v: Seq<char>, a: i64, b: i64, body: Seq<StmtM>) -> StmtM {
    StmtM::Block(seq![
        StmtM::VarDecl { name: v, typ: Some("int"@), value: Some(ExprM::Literal(ValueM::Int(a))) },
        StmtM::Loop { body: seq![
            StmtM::Expr(ExprM::If {
                branches: seq![IfBranchM {
                    condition: ExprM::Binary {
                        op: BinOp::Ge,
                        left: Box::new(ExprM::Id(v)),
                        right: Box::new(ExprM::Literal(ValueM::Int(b))),
                    },
                    body: seq![break_block()],
                }],
                else_body: None,
            }),
            StmtM::Block(body),
            StmtM::Assign {
                name: v,
                value: ExprM::Binary {
                    op: BinOp::Add,
                    left: Box::new(ExprM::Id(v)),
                    right: Box::new(ExprM::Literal(ValueM::Int(1))),
                },
            },
        ] },
    ])
}

/// `while c { body }` as the statements it stands for: `{ loop { if c { body } else { break } } }`.
pub open spec fn while_desugar(c: ExprM, body: Seq<ExprM>) -> StmtM {
    StmtM::Block(seq![
        StmtM::Loop { body: seq![
            StmtM::Expr(ExprM::If {
                branches: seq![IfBranchM { condition: c, body }],
                else_body: Some(seq![break_block()]),
            }),
        ] },
    ])
}

/// The comparison operator that a token stands for inside a condition.
pub open spec fn cond_op(t: Option<TokenM>) -> Option<BinOp> {
    match t {
        Some(TokenM::Less) => Some(BinOp::Lt),
        Some(TokenM::LessEqual) => Some(BinOp::Le),
        Some(TokenM::EqualEqual) => Some(BinOp::Eq),
        Some(TokenM::Greater) => Some(BinOp::Gt),
        Some(TokenM::GreaterEqual) => Some(BinOp::Ge),
        _ => None,
    }
}

/// The arithmetic operator that a token stands for, with its precedence.
pub open spec fn arith_op(t: TokenM) -> Option<(BinOp, int)> {
    match t {
        TokenM::Plus => Some((BinOp::Add, 1)),
        TokenM::Dash => Some((BinOp::Sub, 1)),
        TokenM::Star => Some((BinOp::Mul, 2)),
        TokenM::Slash => Some((BinOp::Div, 2)),
        _ => None,
    }
}

/// The literal value that a token spells, if it spells one.
pub open spec fn literal_of(t: TokenM) -> Option<ValueM> {
    match t {
        TokenM::Number(v) => Some(ValueM::Int(v)),
        TokenM::Float(v) => Some(ValueM::Float(v)),
        TokenM::StringLiteral(v) => Some(ValueM::Str(v)),
        TokenM::Bool(b) => Some(ValueM::Bool(b)),
        _ => None,
    }
}

// ---------------------------------------------------------------------------
// The recursive core: expressions and statements.
// Each function decreases the tokens left, then a rank among functions that may
// call one another at the same position.

/// An `if` expression: `if cond { ... } [else { ... }]`, the condition in optional parentheses.
pub open spec fn sp_if_else(t: Seq<Token>, s: PS) -> Res<ExprM>
    decreases rem(t, s), 1nat,
{
    if s.at(t) != Some(TokenM::If) {
        Res::Fail(s)
    } else {
        let s1 = s.skip(1);
        if s1.at(t) == Some(TokenM::OpenParenthese) {
            match sp_expr(t, s1.skip(1), true) {
                Res::Done(c, s2) => {
                    if s2.at(t) != Some(TokenM::CloseParenthese) {
                        Res::Fail(s2)
                    } else if s2.pos < s.pos {
                        Res::Abort
                    } else {
                        if_rest(t, s2.skip(1), c)
                    }
                },
                _ => Res::Abort,
            }
        } else {
            match sp_expr(t, s1, true) {
                Res::Done(c, s2) => if s2.pos <= s.pos { Res::Abort } else { if_rest(t, s2, c) },
                _ => Res::Abort,
            }
        }
    }
}

/// The arms of an `if` after its condition.
pub open spec fn if_rest(t: Seq<Token>, s: PS, c: ExprM) -> Res<ExprM>
    decreases rem(t, s), 3nat,
{
    match sp_expr_block(t, s) {
        Res::Done(then_body, s1) => {
            if s1.at(t) == Some(TokenM::Else) {
                if s1.pos < s.pos {
                    Res::Abort
                } else {
                    match sp_expr_block(t, s1.skip(1)) {
                        Res::Done(else_body, s2) => Res::Done(ExprM::If {
                            branches: seq![IfBranchM { condition: c, body: then_body }],
                            else_body: Some(else_body),
                        }, s2),
                        Res::Fail(s2) => Res::Fail(s2),
                        Res::Abort => Res::Abort,
                    }
                }
            } else {
                Res::Done(ExprM::If { branches: seq![IfBranchM { condition: c, body: then_body }], else_body: None }, s1)
            }
        },
        Res::Fail(s1) => Res::Fail(s1),
        Res::Abort => Res::Abort,
    }
}

/// A block of an `if` arm: `{`, statements, `}`; the block's last expression
/// statement becomes its value.
pub open spec fn sp_expr_block(t: Seq<Token>, s: PS) -> Res<Seq<ExprM>>
    decreases rem(t, s), 2nat,
{
    if s.at(t) != Some(TokenM::OpenBracket) {
        Res::Fail(s)
    } else {
        expr_block_loop(t, s.skip(1), Seq::empty(), None)
    }
}

pub open spec fn expr_block_loop(t: Seq<Token>, s: PS, stmts: Seq<StmtM>, fin: Option<ExprM>) -> Res<Seq<ExprM>>
    decreases rem(t, s), 10nat,
{
    let done = seq![ExprM::Block { stmts, final_expr: match fin { Some(e) => Some(Box::new(e)), None => None } }];
    match s.at(t) {
        None => Res::Done(done, s),
        Some(TokenM::CloseBracket) => Res::Done(done, s.skip(1)),
        Some(TokenM::Else) => Res::Done(done, s),
        Some(TokenM::Semicolon) => expr_block_loop(t, s.skip(1), stmts, fin),
        Some(_) => match sp_stmt(t, s) {
            Res::Done(st, s1) => {
                if s1.pos == s.pos {
                    Res::Fail(s1)
                } else if s1.pos < s.pos {
                    Res::Abort
                } else {
                    match st {
                        StmtM::Expr(e) => expr_block_loop(t, s1, stmts, Some(e)),
                        _ => expr_block_loop(t, s1, stmts.push(st), fin),
                    }
                }
            },
            _ => Res::Abort,
        },
    }
}

/// A primary expression, followed, inside a condition, by comparisons.
pub open spec fn sp_expr(t: Seq<Token>, s: PS, in_cond: bool) -> Res<ExprM>
    decreases rem(t, s), 5nat,
{
    match s.at(t) {
        None => Res::Fail(s),
        Some(TokenM::If) => match sp_if_else(t, s) {
            Res::Done(e, s1) => if s1.pos <= s.pos { Res::Abort } else { expr_tail(t, s1, e, in_cond) },
            Res::Fail(s1) => Res::Fail(s1),
            Res::Abort => Res::Abort,
        },
        Some(TokenM::Id(name)) => {
            let s1 = s.skip(1);
            if s1.at(t) == Some(TokenM::OpenParenthese) {
                match call_expr_args(t, s1.skip(1), Seq::empty()) {
                    Res::Done(args, s2) => if s2.pos <= s.pos { Res::Abort } else {
                        expr_tail(t, s2, ExprM::FnCall { name, args }, in_cond)
                    },
                    Res::Fail(s2) => Res::Fail(s2),
                    Res::Abort => Res::Abort,
                }
            } else {
                expr_tail(t, s1, ExprM::Id(name), in_cond)
            }
        },
        Some(TokenM::OpenParenthese) => match sp_arith(t, s.skip(1), 0) {
            Res::Done(e, s1) => {
                if s1.at(t) != Some(TokenM::CloseParenthese) {
                    Res::Fail(s1)
                } else if s1.pos < s.pos {
                    Res::Abort
                } else {
                    expr_tail(t, s1.skip(1), e, in_cond)
                }
            },
            _ => Res::Abort,
        },
        Some(tok) => match literal_of(tok) {
            Some(v) => expr_tail(t, s.skip(1), ExprM::Literal(v), in_cond),
            None => Res::Fail(s.skip(1)),
        },
    }
}

/// What follows a primary expression: nothing, or comparisons when inside a condition.
pub open spec fn expr_tail(t: Seq<Token>, s: PS, e: ExprM, in_cond: bool) -> Res<ExprM>
    decreases rem(t, s), 11nat,
{
    if in_cond { compare_loop(t, s, e) } else { Res::Done(e, s) }
}

/// Comparisons `< <= == > >=` chained to the left.
pub open spec fn compare_loop(t: Seq<Token>, s: PS, left: ExprM) -> Res<ExprM>
    decreases rem(t, s), 10nat,
{
    match cond_op(s.at(t)) {
        None => Res::Done(left, s),
        Some(op) => {
            let s1 = s.skip(1);
            match sp_arith(t, s1, 0) {
                Res::Done(right, s2) => {
                    if s2.pos == s1.pos {
                        Res::Fail(s2)
                    } else if s2.pos < s1.pos {
                        Res::Abort
                    } else {
                        compare_loop(t, s2, ExprM::Binary { op, left: Box::new(left), right: Box::new(right) })
                    }
                },
                Res::Fail(s2) => Res::Fail(s2),
                Res::Abort => Res::Abort,
            }
        },
    }
}

/// The arguments of a call expression: arithmetic expressions separated by
/// optional commas, up to `)`.
pub open spec fn call_expr_args(t: Seq<Token>, s: PS, acc: Seq<ExprM>) -> Res<Seq<ExprM>>
    decreases rem(t, s), 10nat,
{
    if s.at(t) == Some(TokenM::CloseParenthese) {
        Res::Done(acc, s.skip(1))
    } else if s.at(t) is None {
        Res::Fail(s)
    } else {
        match sp_arith(t, s, 0) {
            Res::Done(a, s1) => if s1.pos <= s.pos { Res::Abort } else { call_expr_args(t, eat_comma(t, s1), acc.push(a)) },
            Res::Fail(s1) => Res::Fail(s1),
            Res::Abort => Res::Abort,
        }
    }
}

/// Arithmetic: operands joined by `+ -` (precedence 1) and `* /` (precedence 2),
/// left-associative, only operators of precedence at least `min_prec` taken.
pub open spec fn sp_arith(t: Seq<Token>, s: PS, min_prec: int) -> Res<ExprM>
    decreases rem(t, s), 6nat,
{
    if s.at(t) is None {
        Res::Fail(s)
    } else {
        match sp_expr(t, s, false) {
            Res::Done(left, s1) => if s1.pos <= s.pos { Res::Abort } else { arith_loop(t, s1, min_prec, left) },
            Res::Fail(s1) => Res::Fail(s1),
            Res::Abort => Res::Abort,
        }
    }
}

pub open spec fn arith_loop(t: Seq<Token>, s: PS, min_prec: int, left: ExprM) -> Res<ExprM>
    decreases rem(t, s), 10nat,
{
    match s.at(t) {
        None => Res::Abort,
        Some(tok) => match arith_op(tok) {
            None => Res::Done(left, s),
            Some((op, prec)) => {
                if prec < min_prec {
                    Res::Done(left, s)
                } else {
                    match sp_arith(t, s.skip(1), prec + 1) {
                        Res::Done(right, s1) => {
                            if s1.pos <= s.pos {
                                Res::Abort
                            } else {
                                arith_loop(t, s1, min_prec, ExprM::Binary { op, left: Box::new(left), right: Box::new(right) })
                            }
                        },
                        _ => Res::Abort,
                    }
                }
            },
        },
    }
}

/// A statement, after optional attributes.
pub open spec fn sp_stmt(t: Seq<Token>, s: PS) -> Res<StmtM>
    decreases rem(t, s), 8nat,
{
    let attrs = if s.at(t) == Some(TokenM::Hash) { sp_attrs(t, s, Seq::empty()) } else { Res::Done(Seq::empty(), s) };
    match attrs {
        Res::Done(a, s1) => if s1.pos < s.pos { Res::Abort } else { stmt_dispatch(t, s1, a) },
        Res::Fail(s1) => Res::Fail(s1),
        Res::Abort => Res::Abort,
    }
}

/// A statement, chosen by its first token.
pub open spec fn stmt_dispatch(t: Seq<Token>, s: PS, attrs: Seq<AttributeM>) -> Res<StmtM>
    decreases rem(t, s), 7nat,
{
    match s.at(t) {
        None => Res::Fail(s),
        Some(TokenM::Function) => sp_fn_decl(t, s, attrs),
        Some(TokenM::Extern) => sp_fn_decl(t, s, attrs),
        Some(TokenM::Loop) => sp_for(t, s),
        Some(TokenM::While) => sp_while(t, s),
        Some(TokenM::Break) => {
            let s1 = s.skip(1);
            if s1.at(t) == Some(TokenM::Semicolon) { Res::Done(StmtM::Break, s1.skip(2)) } else { Res::Fail(s1) }
        },
        Some(TokenM::Return) => sp_return(t, s),
        Some(TokenM::Let) => sp_var_decl(t, s),
        Some(TokenM::Import) => sp_import(t, s),
        Some(TokenM::For) => sp_for(t, s),
        Some(TokenM::Id(_)) => {
            if s.skip(1).at(t) == Some(TokenM::Equal) {
                sp_var_assign(t, s)
            } else if s.skip(1).at(t) == Some(TokenM::OpenParenthese) {
                match sp_fn_call(t, s) {
                    Res::Done(StmtM::FnCall { name, args }, s1) => Res::Done(
                        StmtM::Expr(ExprM::FnCall { name, args: arg_values(args) }), s1),
                    Res::Done(_, _) => Res::Abort,
                    Res::Fail(s1) => Res::Fail(s1),
                    Res::Abort => Res::Abort,
                }
            } else {
                Res::Fail(s)
            }
        },
        Some(TokenM::OpenBracket) => match sp_block(t, s) {
            Res::Done(b, s1) => Res::Done(StmtM::Block(b), s1),
            Res::Fail(s1) => Res::Fail(s1),
            Res::Abort => Res::Abort,
        },
        Some(_) => match sp_arith(t, s, 0) {
            Res::Done(e, s1) => {
                if s1.pos <= s.pos {
                    Res::Fail(s1)
                } else {
                    match e {
                        ExprM::FnCall { name, args } => Res::Done(StmtM::FnCall { name, args: named_args(name, args) }, s1),
                        _ => Res::Done(StmtM::Expr(e), s1),
                    }
                }
            },
            Res::Fail(s1) => Res::Fail(s1),
            Res::Abort => Res::Abort,
        },
    }
}

/// A block of statements: `{`, statements, `}` (or up to an `else` or the end of the tokens).
pub open spec fn sp_block(t: Seq<Token>, s: PS) -> Res<Seq<StmtM>>
    decreases rem(t, s), 2nat,
{
    if s.at(t) != Some(TokenM::OpenBracket) {
        Res::Fail(s)
    } else {
        block_loop(t, s.skip(1), Seq::empty())
    }
}

pub open spec fn block_loop(t: Seq<Token>, s: PS, acc: Seq<StmtM>) -> Res<Seq<StmtM>>
    decreases rem(t, s), 10nat,
{
    match s.at(t) {
        None => Res::Done(acc, s),
        Some(TokenM::CloseBracket) => Res::Done(acc, s.skip(1)),
        Some(TokenM::Else) => Res::Done(acc, s),
        Some(_) => match sp_stmt(t, s) {
            Res::Done(st, s1) => if s1.pos <= s.pos { Res::Abort } else { block_loop(t, s1, acc.push(st)) },
            Res::Fail(s1) => Res::Fail(s1),
            Res::Abort => Res::Abort,
        },
    }
}

/// A function declaration `[extern] fn name(params) [*...][type] { body }`
/// (an `extern` one ends with `;` in place of a body).
pub open spec fn sp_fn_decl(t: Seq<Token>, s: PS, attrs: Seq<AttributeM>) -> Res<StmtM>
    decreases rem(t, s), 4nat,
{
    let is_extern = s.at(t) == Some(TokenM::Extern);
    let s1 = if is_extern { s.skip(1) } else { s };
    if s1.at(t) != Some(TokenM::Function) {
        Res::Fail(s1)
    } else {
        let s2 = s1.skip(1);
        match s2.at(t) {
            Some(TokenM::Id(name)) => {
                let s3 = s2.skip(1);
                if s3.at(t) != Some(TokenM::OpenParenthese) {
                    Res::Fail(s3)
                } else {
                    match decl_args_loop(t, s3.skip(1), Seq::empty()) {
                        Res::Done(args, s4) => {
                            let n = star_count(t, s4);
                            let s5 = s4.skip(n as int);
                            let (base, s6) = match s5.at(t) {
                                Some(TokenM::Type(ty)) => (ty, s5.skip(1)),
                                _ => (Type::Void, s5),
                            };
                            let ret_type = ptr_to(base, n);
                            if is_extern {
                                if s6.at(t) == Some(TokenM::Semicolon) {
                                    Res::Done(StmtM::FnDecl { name, args, body: Seq::empty(), attributes: attrs, ret_type, is_extern }, s6.skip(1))
                                } else {
                                    Res::Fail(s6)
                                }
                            } else if s6.at(t) == Some(TokenM::OpenBracket) {
                                if s6.pos < s.pos {
                                    Res::Abort
                                } else {
                                    match fn_body_loop(t, s6.skip(1), Seq::empty()) {
                                        Res::Done(body, s7) => Res::Done(StmtM::FnDecl { name, args, body, attributes: attrs, ret_type, is_extern }, s7),
                                        Res::Fail(s7) => Res::Fail(s7),
                                        Res::Abort => Res::Abort,
                                    }
                                }
                            } else {
                                Res::Fail(s6)
                            }
                        },
                        Res::Fail(s4) => Res::Fail(s4),
                        Res::Abort => Res::Abort,
                    }
                }
            },
            _ => Res::Fail(s2),
        }
    }
}

/// The body of a function: statements up to the end of the tokens, `}` tokens skipped.
pub open spec fn fn_body_loop(t: Seq<Token>, s: PS, acc: Seq<StmtM>) -> Res<Seq<StmtM>>
    decreases rem(t, s), 10nat,
{
    match s.at(t) {
        None => Res::Done(acc, s),
        Some(TokenM::CloseBracket) => fn_body_loop(t, s.skip(1), acc),
        Some(_) => match sp_stmt(t, s) {
            Res::Done(st, s1) => {
                if s1.pos == s.pos {
                    Res::Fail(s1)
                } else if s1.pos < s.pos {
                    Res::Abort
                } else {
                    fn_body_loop(t, s1, acc.push(st))
                }
            },
            Res::Fail(s1) => Res::Fail(s1),
            Res::Abort => Res::Abort,
        },
    }
}

/// `for v in a..b { body }`.
pub open spec fn sp_for(t: Seq<Token>, s: PS) -> Res<StmtM>
    decreases rem(t, s), 4nat,
{
    if s.at(t) != Some(TokenM::For) {
        Res::Fail(s)
    } else {
        let s1 = s.skip(1);
        match s1.at(t) {
            Some(TokenM::Id(v)) => {
                let s2 = s1.skip(1);
                if s2.at(t) != Some(TokenM::In) {
                    Res::Fail(s2)
                } else {
                    let s3 = s2.skip(1);
                    match s3.at(t) {
                        Some(TokenM::Number(a)) => {
                            let s4 = s3.skip(1);
                            if s4.at(t) != Some(TokenM::Range) {
                                Res::Fail(s4)
                            } else {
                                let s5 = s4.skip(1);
                                match s5.at(t) {
                                    Some(TokenM::Number(b)) => match sp_block(t, s5.skip(1)) {
                                        Res::Done(body, s6) => Res::Done(for_desugar(v, a, b, body), s6),
                                        Res::Fail(s6) => Res::Fail(s6),
                                        Res::Abort => Res::Abort,
                                    },
                                    _ => Res::Fail(s5),
                                }
                            }
                        },
                        _ => Res::Fail(s3),
                    }
                }
            },
            _ => Res::Fail(s1),
        }
    }
}

/// `while cond { body }`.
pub open spec fn sp_while(t: Seq<Token>, s: PS) -> Res<StmtM>
    decreases rem(t, s), 4nat,
{
    if s.at(t) != Some(TokenM::While) {
        Res::Fail(s)
    } else {
        match sp_expr(t, s.skip(1), true) {
            Res::Done(c, s1) => {
                if s1.pos <= s.pos {
                    Res::Abort
                } else {
                    match sp_expr_block(t, s1) {
                        Res::Done(body, s2) => Res::Done(while_desugar(c, body), s2),
                        Res::Fail(s2) => Res::Fail(s2),
                        Res::Abort => Res::Abort,
                    }
                }
            },
            Res::Fail(s1) => Res::Fail(s1),
            Res::Abort => Res::Abort,
        }
    }
}

/// `loop { body }`.
pub open spec fn sp_loop(t: Seq<Token>, s: PS) -> Res<StmtM>
    decreases rem(t, s), 4nat,
{
    if s.at(t) != Some(TokenM::Loop) {
        Res::Fail(s)
    } else {
        match sp_block(t, s.skip(1)) {
            Res::Done(body, s1) => Res::Done(StmtM::Loop { body }, s1),
            Res::Fail(s1) => Res::Fail(s1),
            Res::Abort => Res::Abort,
        }
    }
}

/// `return [expr];`.
pub open spec fn sp_return(t: Seq<Token>, s: PS) -> Res<StmtM>
    decreases rem(t, s), 4nat,
{
    if s.at(t) != Some(TokenM::Return) {
        Res::Fail(s)
    } else {
        let r: Res<Option<ExprM>> = match sp_expr(t, s.skip(1), true) {
            Res::Done(e, s1) => Res::Done(Some(e), s1),
            Res::Fail(s1) => Res::Done(None, s1),
            Res::Abort => Res::Abort,
        };
        match r {
            Res::Done(e, s1) => if s1.at(t) == Some(TokenM::Semicolon) { Res::Done(StmtM::Return(e), s1.skip(1)) } else { Res::Fail(s1) },
            _ => Res::Abort,
        }
    }
}

/// `let name = expr;`; the variable is declared in the scope before the `;` is checked.
pub open spec fn sp_var_decl(t: Seq<Token>, s: PS) -> Res<StmtM>
    decreases rem(t, s), 4nat,
{
    if s.at(t) != Some(TokenM::Let) {
        Res::Fail(s)
    } else {
        let s1 = s.skip(1);
        match s1.at(t) {
            Some(TokenM::Id(name)) => {
                let s2 = s1.skip(1);
                if s2.at(t) != Some(TokenM::Equal) {
                    Res::Fail(s2)
                } else {
                    match sp_arith(t, s2.skip(1), 0) {
                        Res::Done(e, s3) => {
                            let s4 = PS { pos: s3.pos, scope: s3.scope.insert(name, e), mods: s3.mods };
                            if s4.at(t) == Some(TokenM::Semicolon) {
                                Res::Done(StmtM::VarDecl { name, typ: None, value: Some(e) }, s4.skip(1))
                            } else {
                                Res::Fail(s4)
                            }
                        },
                        _ => Res::Abort,
                    }
                }
            },
            _ => Res::Fail(s1),
        }
    }
}

/// `name = expr;`.
pub open spec fn sp_var_assign(t: Seq<Token>, s: PS) -> Res<StmtM>
    decreases rem(t, s), 4nat,
{
    match s.at(t) {
        Some(TokenM::Id(name)) => {
            let s1 = s.skip(1);
            if s1.at(t) != Some(TokenM::Equal) {
                Res::Fail(s1)
            } else {
                match sp_arith(t, s1.skip(1), 0) {
                    Res::Done(e, s2) => if s2.at(t) == Some(TokenM::Semicolon) {
                        Res::Done(StmtM::Assign { name, value: e }, s2.skip(1))
                    } else {
                        Res::Fail(s2)
                    },
                    _ => Res::Abort,
                }
            }
        },
        _ => Res::Fail(s),
    }
}

/// A block of statements taken as one block statement.
pub open spec fn sp_block_stmt(t: Seq<Token>, s: PS) -> Res<StmtM> {
    match sp_block(t, s) {
        Res::Done(b, s1) => Res::Done(StmtM::Block(b), s1),
        Res::Fail(s1) => Res::Fail(s1),
        Res::Abort => Res::Abort,
    }
}

// ---------------------------------------------------------------------------
// Sequences built on the core.

/// Statements from the current position to the end of the tokens. A statement that
/// cannot be parsed stops the whole parse.
pub open spec fn sp_program(t: Seq<Token>, s: PS, acc: Seq<StmtM>) -> Res<Seq<StmtM>>
    decreases rem(t, s),
{
    if s.at(t) is None {
        Res::Done(acc, s)
    } else {
        match sp_stmt(t, s) {
            Res::Done(st, s1) => if s1.pos <= s.pos { Res::Abort } else { sp_program(t, s1, acc.push(st)) },
            _ => Res::Abort,
        }
    }
}

/// Expressions from the current position to the end of the tokens, each followed by
/// an optional comma; a token that starts no expression is passed over.
pub open spec fn sp_expr_list(t: Seq<Token>, s: PS, acc: Seq<ExprM>) -> Res<Seq<ExprM>>
    decreases rem(t, s),
{
    if s.at(t) is None {
        Res::Done(acc, s)
    } else {
        match sp_expr(t, s, false) {
            Res::Done(e, s1) => if s1.pos <= s.pos { Res::Abort } else { sp_expr_list(t, eat_comma(t, s1), acc.push(e)) },
            Res::Fail(s1) => if s1.pos <= s.pos { Res::Fail(s1) } else { sp_expr_list(t, s1, acc) },
            Res::Abort => Res::Abort,
        }
    }
}

/// The comparison operator that a token stands for after a condition.
pub open spec fn equal_op(t: TokenM) -> Option<BinOp> {
    match t {
        TokenM::Less => Some(BinOp::Lt),
        TokenM::LessEqual => Some(BinOp::Le),
        TokenM::Greater => Some(BinOp::Gt),
        TokenM::GreaterEqual => Some(BinOp::Ge),
        TokenM::EqualEqual => Some(BinOp::Eq),
        TokenM::BangEqual => Some(BinOp::Ne),
        _ => None,
    }
}

/// A condition followed by further comparisons up to the end of the tokens; any
/// other token after a condition stops the parse.
pub open spec fn sp_equal(t: Seq<Token>, s: PS) -> Res<ExprM> {
    match sp_expr(t, s, true) {
        Res::Done(left, s1) => if s1.pos <= s.pos { Res::Abort } else { equal_loop(t, s1, left) },
        Res::Fail(s1) => Res::Fail(s1),
        Res::Abort => Res::Abort,
    }
}

pub open spec fn equal_loop(t: Seq<Token>, s: PS, left: ExprM) -> Res<ExprM>
    decreases rem(t, s),
{
    match s.at(t) {
        None => Res::Done(left, s),
        Some(tok) => match equal_op(tok) {
            None => Res::Abort,
            Some(op) => match sp_expr(t, s.skip(1), true) {
                Res::Done(right, s1) => if s1.pos <= s.pos { Res::Abort } else {
                    equal_loop(t, s1, ExprM::Binary { op, left: Box::new(left), right: Box::new(right) })
                },
                Res::Fail(s1) => Res::Fail(s1),
                Res::Abort => Res::Abort,
            },
        },
    }
}

} // verus!

verus! {

pub open spec fn all_have_values(args: Seq<TypedArgM>) -> bool {
    forall|i: int| 0 <= i < args.len() ==> (#[trigger] args[i]).value is Some
}

pub proof fn lemma_call_args_have_values(t: Seq<Token>, s: PS, acc: Seq<TypedArgM>)
    requires
        all_have_values(acc),
    ensures
        call_args_loop(t, s, acc) matches Res::Done(v, _) ==> all_have_values(v),
    decreases rem(t, s),
{
    match s.at(t) {
        Some(TokenM::Number(v)) => {
            let a = TypedArgM { name: "_"@, typ: Type::I64, value: Some(ExprM::Literal(ValueM::Int(v))) };
            assert(all_have_values(acc.push(a)));
            lemma_call_args_have_values(t, s.skip(1), acc.push(a));
        },
        Some(TokenM::StringLiteral(v)) => {
            let a = TypedArgM { name: "_"@, typ: Type::Str, value: Some(ExprM::Literal(ValueM::Str(v))) };
            assert(all_have_values(acc.push(a)));
            lemma_call_args_have_values(t, s.skip(1), acc.push(a));
        },
        Some(TokenM::Id(id)) => {
            let a = TypedArgM { name: id, typ: Type::Var, value: Some(ExprM::Id(id)) };
            assert(all_have_values(acc.push(a)));
            lemma_call_args_have_values(t, s.skip(1), acc.push(a));
        },
        Some(TokenM::Comma) => {
            lemma_call_args_have_values(t, s.skip(1), acc);
        },
        _ => {},
    }
}

pub proof fn lemma_fn_call_has_values(t: Seq<Token>, s: PS)
    ensures
        sp_fn_call(t, s) matches Res::Done(StmtM::FnCall { name, args }, _) ==> all_have_values(args),
{
    let (path, s1) = path_loop(t, s, Seq::empty(), false);
    if s1.at(t) == Some(TokenM::OpenParenthese) {
        lemma_call_args_have_values(t, s1.skip(1), Seq::empty());
    }
}

/// Reading the arguments of a call statement never stops the parse.
pub proof fn lemma_call_args_never_stop(t: Seq<Token>, s: PS, acc: Seq<TypedArgM>)
    ensures
        !(call_args_loop(t, s, acc) is Abort),
    decreases rem(t, s),
{
    match s.at(t) {
        Some(TokenM::Number(v)) => lemma_call_args_never_stop(t, s.skip(1), acc.push(TypedArgM {
            name: "_"@, typ: Type::I64, value: Some(ExprM::Literal(ValueM::Int(v))) })),
        Some(TokenM::StringLiteral(v)) => lemma_call_args_never_stop(t, s.skip(1), acc.push(TypedArgM {
            name: "_"@, typ: Type::Str, value: Some(ExprM::Literal(ValueM::Str(v))) })),
        Some(TokenM::Id(id)) => lemma_call_args_never_stop(t, s.skip(1), acc.push(TypedArgM {
            name: id, typ: Type::Var, value: Some(ExprM::Id(id)) })),
        Some(TokenM::Comma) => lemma_call_args_never_stop(t, s.skip(1), acc),
        _ => {},
    }
}

/// Reading a call statement never stops the parse.
pub proof fn lemma_fn_call_never_stops(t: Seq<Token>, s: PS)
    ensures
        !(sp_fn_call(t, s) is Abort),
{
    let (path, s1) = path_loop(t, s, Seq::empty(), false);
    if s1.at(t) == Some(TokenM::OpenParenthese) {
        lemma_call_args_never_stop(t, s1.skip(1), Seq::empty());
    }
}

/// Reading attributes without arguments never stops the parse.
pub proof fn lemma_simple_attrs_never_stop(t: Seq<Token>, s: PS, acc: Seq<AttributeM>)
    ensures
        !(sp_simple_attrs(t, s, acc) is Abort),
    decreases rem(t, s),
{
    if s.at(t) == Some(TokenM::Hash) {
        let s2 = s.skip(2);
        if s.skip(1).at(t) == Some(TokenM::OpenSquareBracket) {
            match s2.at(t) {
                Some(TokenM::Id(name)) => {
                    if s2.skip(1).at(t) == Some(TokenM::CloseSquareBracket) {
                        assert(s2.skip(1).skip(1).pos == s.pos + 4);
                        lemma_simple_attrs_never_stop(t, s2.skip(1).skip(1), acc.push(AttributeM::Simple(name)));
                    }
                },
                _ => {},
            }
        }
    }
}

/// Parsing a whole program either succeeds or stops: it never rejects.
pub proof fn lemma_program_never_fails(t: Seq<Token>, s: PS, acc: Seq<StmtM>)
    ensures
        !(sp_program(t, s, acc) is Fail),
    decreases rem(t, s),
{
    if s.at(t) is Some {
        if let Res::Done(st, s1) = sp_stmt(t, s) {
            if s1.pos > s.pos {
                lemma_program_never_fails(t, s1, acc.push(st));
            }
        }
    }
}

} // verus!
