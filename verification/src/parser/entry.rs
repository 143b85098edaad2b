use vstd::prelude::*;
use crate::token::Token;
use crate::ast::{Expr, Stmt, Attribute, AttributeM, exprs_m, stmts_m, attrs_m, strings_m};
use crate::scope::Scope;
use crate::parser::state::{grows, ps, plain, scoped, answers, answers_opt, answers_in, into_message, refused_with,
    for_head_failure, let_head_failure, assign_head_failure};
use crate::eat::token_at;
use crate::token::TokenM;
use crate::parser::grammar::{sp_block, sp_block_stmt, sp_expr_block, sp_if_else, sp_return, sp_var_decl,
    sp_var_assign, sp_equal, sp_arith, sp_fn_call, sp_simple_attrs, sp_import, sp_fn_decl, sp_for, sp_loop,
    sp_while, sp_stmt, lemma_fn_call_never_stops, lemma_simple_attrs_never_stop};
use crate::parser::descent::{block_core, expr_block_core, if_else_core, return_core, var_decl_core,
    var_assign_core, arith_core, fn_decl_core, for_core, loop_core, while_core, stmt_core};
use crate::parser::pieces::{fn_call_core, simple_attrs_core, import_core};
use crate::parser::sequence::equal_core;
use crate::parser::traits::GroupedParsers;

verus! {

/// A block of statements: `{`, statements, `}`. The block also ends before an `else`
/// or at the end of the tokens.
pub fn parse_block(
    tokens: &[Token],
    pos: &mut usize,
    discovered_modules: &mut Vec<String>,
    parsers: &GroupedParsers,
    scope: &mut Scope,
    src: &str,
) -> (res: Result<Vec<Stmt>, String>)
    requires
        tokens@.len() < usize::MAX,
        !(sp_block(tokens@, ps(*old(pos), *old(discovered_modules), *old(scope))) is Abort),
    ensures
        grows(ps(*old(pos), *old(discovered_modules), *old(scope)), ps(*final(pos), *final(discovered_modules), *final(scope))),
        answers(res, ps(*final(pos), *final(discovered_modules), *final(scope)),
            sp_block(tokens@, ps(*old(pos), *old(discovered_modules), *old(scope))), |v: Vec<Stmt>| stmts_m(v@)),
{
    into_message(block_core(tokens, pos, discovered_modules, scope))
}

/// A block of statements taken as one block statement.
pub fn parse_block_stmt(
    tokens: &[Token],
    pos: &mut usize,
    discovered_modules: &mut Vec<String>,
    parsers: &GroupedParsers,
    scope: &mut Scope,
    src: &str,
) -> (res: Result<Stmt, String>)
    requires
        tokens@.len() < usize::MAX,
        !(sp_block_stmt(tokens@, ps(*old(pos), *old(discovered_modules), *old(scope))) is Abort),
    ensures
        grows(ps(*old(pos), *old(discovered_modules), *old(scope)), ps(*final(pos), *final(discovered_modules), *final(scope))),
        answers(res, ps(*final(pos), *final(discovered_modules), *final(scope)),
            sp_block_stmt(tokens@, ps(*old(pos), *old(discovered_modules), *old(scope))), |v: Stmt| v@),
{
    match parse_block(tokens, pos, discovered_modules, parsers, scope, src) {
        Ok(stmts) => Ok(Stmt::Block(stmts)),
        Err(m) => Err(m),
    }
}

/// The block of an `if` arm: its statements, and its last expression statement as its
/// value, make one block expression.
pub fn parse_expr_block(
    tokens: &[Token],
    pos: &mut usize,
    discovered_modules: &mut Vec<String>,
    parsers: &GroupedParsers,
    scope: &mut Scope,
    src: &str,
) -> (res: Result<Vec<Expr>, String>)
    requires
        tokens@.len() < usize::MAX,
        !(sp_expr_block(tokens@, ps(*old(pos), *old(discovered_modules), *old(scope))) is Abort),
    ensures
        grows(ps(*old(pos), *old(discovered_modules), *old(scope)), ps(*final(pos), *final(discovered_modules), *final(scope))),
        answers(res, ps(*final(pos), *final(discovered_modules), *final(scope)),
            sp_expr_block(tokens@, ps(*old(pos), *old(discovered_modules), *old(scope))), |v: Vec<Expr>| exprs_m(v@)),
{
    into_message(expr_block_core(tokens, pos, discovered_modules, scope))
}

/// An `if` expression with an optional `else` arm.
pub fn parse_if_else(
    tokens: &[Token],
    pos: &mut usize,
    discovered_modules: &mut Vec<String>,
    parsers: &GroupedParsers,
    scope: &mut Scope,
    src: &str,
) -> (res: Result<Expr, String>)
    requires
        tokens@.len() < usize::MAX,
        !(sp_if_else(tokens@, ps(*old(pos), *old(discovered_modules), *old(scope))) is Abort),
    ensures
        grows(ps(*old(pos), *old(discovered_modules), *old(scope)), ps(*final(pos), *final(discovered_modules), *final(scope))),
        answers(res, ps(*final(pos), *final(discovered_modules), *final(scope)),
            sp_if_else(tokens@, ps(*old(pos), *old(discovered_modules), *old(scope))), |v: Expr| v@),
        token_at(tokens@, *old(pos) as int) != Some(TokenM::If) ==> refused_with(res, "Expected keyword `if`"@),
{
    into_message(if_else_core(tokens, pos, discovered_modules, scope))
}

/// `return [expr];`.
pub fn parse_return(
    tokens: &[Token],
    pos: &mut usize,
    discovered_modules: &mut Vec<String>,
    parsers: &GroupedParsers,
    scope: &mut Scope,
    src: &str,
) -> (res: Result<Stmt, String>)
    requires
        tokens@.len() < usize::MAX,
        !(sp_return(tokens@, ps(*old(pos), *old(discovered_modules), *old(scope))) is Abort),
    ensures
        grows(ps(*old(pos), *old(discovered_modules), *old(scope)), ps(*final(pos), *final(discovered_modules), *final(scope))),
        answers(res, ps(*final(pos), *final(discovered_modules), *final(scope)),
            sp_return(tokens@, ps(*old(pos), *old(discovered_modules), *old(scope))), |v: Stmt| v@),
{
    into_message(return_core(tokens, pos, discovered_modules, scope))
}

/// `let name = expr;`, declaring `name` in the scope.
pub fn parse_var_decl(
    tokens: &[Token],
    pos: &mut usize,
    discovered_modules: &mut Vec<String>,
    parsers: &GroupedParsers,
    scope: &mut Scope,
) -> (res: Result<Stmt, String>)
    requires
        tokens@.len() < usize::MAX,
        !(sp_var_decl(tokens@, ps(*old(pos), *old(discovered_modules), *old(scope))) is Abort),
    ensures
        grows(ps(*old(pos), *old(discovered_modules), *old(scope)), ps(*final(pos), *final(discovered_modules), *final(scope))),
        answers(res, ps(*final(pos), *final(discovered_modules), *final(scope)),
            sp_var_decl(tokens@, ps(*old(pos), *old(discovered_modules), *old(scope))), |v: Stmt| v@),
        let_head_failure(tokens@, *old(pos) as int) matches Some(m) ==> refused_with(res, m),
{
    into_message(var_decl_core(tokens, pos, discovered_modules, scope))
}

/// `name = expr;`.
pub fn parse_var_assign(
    tokens: &[Token],
    pos: &mut usize,
    discovered_modules: &mut Vec<String>,
    parsers: &GroupedParsers,
    scope: &mut Scope,
    src: &str,
) -> (res: Result<Stmt, String>)
    requires
        tokens@.len() < usize::MAX,
        !(sp_var_assign(tokens@, ps(*old(pos), *old(discovered_modules), *old(scope))) is Abort),
    ensures
        grows(ps(*old(pos), *old(discovered_modules), *old(scope)), ps(*final(pos), *final(discovered_modules), *final(scope))),
        answers(res, ps(*final(pos), *final(discovered_modules), *final(scope)),
            sp_var_assign(tokens@, ps(*old(pos), *old(discovered_modules), *old(scope))), |v: Stmt| v@),
        assign_head_failure(tokens@, *old(pos) as int) matches Some(m) ==> refused_with(res, m),
{
    into_message(var_assign_core(tokens, pos, discovered_modules, scope))
}

/// A condition followed by comparisons up to the end of the tokens.
pub fn parse_equal(
    tokens: &[Token],
    pos: &mut usize,
    discovered_modules: &mut Vec<String>,
    parsers: &GroupedParsers,
    scope: &mut Scope,
    src: &str,
) -> (res: Option<Expr>)
    requires
        tokens@.len() < usize::MAX,
        !(sp_equal(tokens@, ps(*old(pos), *old(discovered_modules), *old(scope))) is Abort),
    ensures
        grows(ps(*old(pos), *old(discovered_modules), *old(scope)), ps(*final(pos), *final(discovered_modules), *final(scope))),
        answers_opt(res, ps(*final(pos), *final(discovered_modules), *final(scope)),
            sp_equal(tokens@, ps(*old(pos), *old(discovered_modules), *old(scope))), |v: Expr| v@),
{
    match equal_core(tokens, pos, discovered_modules, scope) {
        Ok(e) => Some(e),
        Err(_) => None,
    }
}

/// Arithmetic with operators of precedence at least `min_prec`: `+ -` bind at 1,
/// `* /` at 2, all to the left. Modules that an `if` inside names are not kept.
pub fn parse_arithmetic(
    tokens: &[Token],
    pos: &mut usize,
    min_prec: u8,
    scope: &mut Scope,
    parsers: &GroupedParsers,
) -> (res: Result<Expr, String>)
    requires
        tokens@.len() < usize::MAX,
        !(sp_arith(tokens@, scoped(*old(pos), *old(scope)), min_prec as int) is Abort),
    ensures
        grows(scoped(*old(pos), *old(scope)), scoped(*final(pos), *final(scope))),
        answers_in(res, *final(pos) as int, final(scope)@,
            sp_arith(tokens@, scoped(*old(pos), *old(scope)), min_prec as int), |v: Expr| v@),
{
    let mut dm: Vec<String> = Vec::new();
    assert(strings_m(dm@) =~= Seq::<Seq<char>>::empty());
    let ghost before = ps(*pos, dm, *scope);
    let res = arith_core(tokens, pos, min_prec, &mut dm, scope);
    let ghost after = ps(*pos, dm, *scope);
    assert(grows(before, after));
    assert(before.scope == old(scope)@);
    assert(after.scope == scope@);
    assert forall|k: Seq<char>| old(scope)@.contains_key(k) implies scope@.contains_key(k) by {
        assert(before.scope.contains_key(k));
        assert(after.scope.contains_key(k));
    }
    into_message(res)
}

/// A call statement `path(args);`; number, string and name arguments are read, each
/// with the type it shows.
pub fn parse_fn_call(tokens: &[Token], pos: &mut usize) -> (res: Result<Stmt, String>)
    requires
        tokens@.len() < usize::MAX,
    ensures
        answers(res, plain(*final(pos), Seq::empty()), sp_fn_call(tokens@, plain(*old(pos), Seq::empty())), |v: Stmt| v@),
{
    let mut dm: Vec<String> = Vec::new();
    let mut scope = Scope::new();
    assert(strings_m(dm@) =~= strings_m(Seq::<String>::empty()));
    proof {
        lemma_fn_call_never_stops(tokens@, plain(*pos, Seq::empty()));
    }
    into_message(fn_call_core(tokens, pos, &mut dm, &mut scope))
}

/// Attributes `#[name]`, as many as follow one another.
pub fn parse_attrs(tokens: &[Token], pos: &mut usize) -> (res: Result<Vec<Attribute>, String>)
    requires
        tokens@.len() < usize::MAX,
    ensures
        answers(res, plain(*final(pos), Seq::empty()),
            sp_simple_attrs(tokens@, plain(*old(pos), Seq::empty()), Seq::empty()), |v: Vec<Attribute>| attrs_m(v@)),
{
    let mut dm: Vec<String> = Vec::new();
    let mut scope = Scope::new();
    assert(strings_m(dm@) =~= strings_m(Seq::<String>::empty()));
    let acc: Vec<Attribute> = Vec::new();
    assert(attrs_m(acc@) =~= Seq::<AttributeM>::empty());
    proof {
        lemma_simple_attrs_never_stop(tokens@, plain(*pos, Seq::empty()), Seq::empty());
    }
    into_message(simple_attrs_core(tokens, pos, &mut dm, &mut scope, acc))
}

/// An import `use a::b [as nick];`; each part of the path joins the discovered modules.
pub fn parse_import_decl(tokens: &[Token], pos: &mut usize, discovered_modules: &mut Vec<String>)
    -> (res: Result<Stmt, String>)
    requires
        tokens@.len() < usize::MAX,
    ensures
        grows(plain(*old(pos), old(discovered_modules)@), plain(*final(pos), final(discovered_modules)@)),
        answers(res, plain(*final(pos), final(discovered_modules)@),
            sp_import(tokens@, plain(*old(pos), old(discovered_modules)@)), |v: Stmt| v@),
{
    let mut scope = Scope::new();
    into_message(import_core(tokens, pos, discovered_modules, &mut scope))
}

/// A statement of an imported file; any failure is reported as one message.
pub fn parse_imported_file(
    tokens: &[Token],
    pos: &mut usize,
    discovered_modules: &mut Vec<String>,
    parsers: &GroupedParsers,
    scope: &mut Scope,
) -> (res: Result<Stmt, String>)
    requires
        tokens@.len() < usize::MAX,
        !(sp_stmt(tokens@, ps(*old(pos), *old(discovered_modules), *old(scope))) is Abort),
    ensures
        grows(ps(*old(pos), *old(discovered_modules), *old(scope)), ps(*final(pos), *final(discovered_modules), *final(scope))),
        answers(res, ps(*final(pos), *final(discovered_modules), *final(scope)),
            sp_stmt(tokens@, ps(*old(pos), *old(discovered_modules), *old(scope))), |v: Stmt| v@),
        res matches Err(m) ==> m@ == "Failed to parse imported file content"@,
{
    match stmt_core(tokens, pos, discovered_modules, scope) {
        Ok(st) => Ok(st),
        Err(_) => Err(String::from_str("Failed to parse imported file content")),
    }
}

/// A function declaration `[extern] fn name(params) [*...][type] { body }`, with the
/// attributes read before it.
pub fn parse_fn_decl(
    tokens: &[Token],
    pos: &mut usize,
    discovered_modules: &mut Vec<String>,
    parsers: &GroupedParsers,
    scope: &mut Scope,
    attrs: Vec<Attribute>,
) -> (res: Result<Stmt, String>)
    requires
        tokens@.len() < usize::MAX,
        !(sp_fn_decl(tokens@, ps(*old(pos), *old(discovered_modules), *old(scope)), attrs_m(attrs@)) is Abort),
    ensures
        grows(ps(*old(pos), *old(discovered_modules), *old(scope)), ps(*final(pos), *final(discovered_modules), *final(scope))),
        answers(res, ps(*final(pos), *final(discovered_modules), *final(scope)),
            sp_fn_decl(tokens@, ps(*old(pos), *old(discovered_modules), *old(scope)), attrs_m(attrs@)), |v: Stmt| v@),
{
    into_message(fn_decl_core(tokens, pos, discovered_modules, scope, attrs))
}

/// `for v in a..b { body }`, as the loop it stands for.
pub fn parse_for_loop(
    tokens: &[Token],
    pos: &mut usize,
    discovered_modules: &mut Vec<String>,
    parsers: &GroupedParsers,
    scope: &mut Scope,
) -> (res: Result<Stmt, String>)
    requires
        tokens@.len() < usize::MAX,
        !(sp_for(tokens@, ps(*old(pos), *old(discovered_modules), *old(scope))) is Abort),
    ensures
        grows(ps(*old(pos), *old(discovered_modules), *old(scope)), ps(*final(pos), *final(discovered_modules), *final(scope))),
        answers(res, ps(*final(pos), *final(discovered_modules), *final(scope)),
            sp_for(tokens@, ps(*old(pos), *old(discovered_modules), *old(scope))), |v: Stmt| v@),
        for_head_failure(tokens@, *old(pos) as int) matches Some(m) ==> refused_with(res, m),
{
    into_message(for_core(tokens, pos, discovered_modules, scope))
}

/// `loop { body }`.
pub fn parse_loop(
    tokens: &[Token],
    pos: &mut usize,
    discovered_modules: &mut Vec<String>,
    parsers: &GroupedParsers,
    scope: &mut Scope,
) -> (res: Result<Stmt, String>)
    requires
        tokens@.len() < usize::MAX,
        !(sp_loop(tokens@, ps(*old(pos), *old(discovered_modules), *old(scope))) is Abort),
    ensures
        grows(ps(*old(pos), *old(discovered_modules), *old(scope)), ps(*final(pos), *final(discovered_modules), *final(scope))),
        answers(res, ps(*final(pos), *final(discovered_modules), *final(scope)),
            sp_loop(tokens@, ps(*old(pos), *old(discovered_modules), *old(scope))), |v: Stmt| v@),
{
    into_message(loop_core(tokens, pos, discovered_modules, scope))
}

/// `while cond { body }`, as the loop it stands for.
pub fn parse_while_loop(
    tokens: &[Token],
    pos: &mut usize,
    discovered_modules: &mut Vec<String>,
    parsers: &GroupedParsers,
    scope: &mut Scope,
) -> (res: Result<Stmt, String>)
    requires
        tokens@.len() < usize::MAX,
        !(sp_while(tokens@, ps(*old(pos), *old(discovered_modules), *old(scope))) is Abort),
    ensures
        grows(ps(*old(pos), *old(discovered_modules), *old(scope)), ps(*final(pos), *final(discovered_modules), *final(scope))),
        answers(res, ps(*final(pos), *final(discovered_modules), *final(scope)),
            sp_while(tokens@, ps(*old(pos), *old(discovered_modules), *old(scope))), |v: Stmt| v@),
        token_at(tokens@, *old(pos) as int) != Some(TokenM::While) ==> refused_with(res, "Expected `while`"@),
{
    into_message(while_core(tokens, pos, discovered_modules, scope))
}

} // verus!
