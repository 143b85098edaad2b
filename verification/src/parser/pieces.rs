use vstd::prelude::*;
use crate::types::Type;
use crate::token::{Token, TokenM};
use crate::value::{Value, ValueM};
use crate::ast::{Expr, ExprM, Stmt, StmtM, TypedArg, TypedArgM, Attribute, AttributeM, AttrArg, AttrArgM,
    attr_args_m, attrs_m, targs_m, strings_m, lemma_targs_m_push};
use crate::eat::eat;
use crate::scope::Scope;
use crate::parser::state::{grows, PS, Res, ParseFailure, rem_at, ps, outcome, error, abort};
use crate::parser::grammar::{eat_comma, attr_args_loop, sp_attr_args, sp_attrs, sp_simple_attrs, path_loop, join_path,
    sp_call_args, call_args_loop, sp_fn_call, sp_import, decl_args_loop, star_count, ptr_to};

verus! {

/// Moves past a comma if one is at `*pos`.
pub fn skip_comma(tokens: &[Token], pos: &mut usize, Ghost(s): Ghost<PS>)
    requires
        s.pos == *old(pos),
    ensures
        eat_comma(tokens@, s) == s.skip(*final(pos) - *old(pos)),
{
    eat(&Token::Comma, tokens, pos);
}

fn attr_args_loop_core(tokens: &[Token], pos: &mut usize, dm: &mut Vec<String>, scope: &mut Scope, acc: Vec<AttrArg>)
    -> (res: Result<Vec<AttrArg>, ParseFailure>)
    requires
        tokens@.len() < usize::MAX,
    ensures
        grows(ps(*old(pos), *old(dm), *old(scope)), ps(*final(pos), *final(dm), *final(scope))),
        outcome(res, ps(*final(pos), *final(dm), *final(scope)),
            attr_args_loop(tokens@, ps(*old(pos), *old(dm), *old(scope)), attr_args_m(acc@)),
            |v: Vec<AttrArg>| attr_args_m(v@)),
        *final(dm) == *old(dm),
        *final(scope) == *old(scope),
        *final(pos) >= *old(pos),
    decreases rem_at(tokens@, *old(pos) as int),
{
    let ghost s0 = ps(*pos, *dm, *scope);
    if *pos < tokens.len() {
        match &tokens[*pos] {
            Token::CloseParenthese => {
                *pos = *pos + 1;
                return Ok(acc);
            },
            Token::Id(key) => {
                *pos = *pos + 1;
                if eat(&Token::Equal, tokens, pos) {
                    if *pos < tokens.len() {
                        let v = match &tokens[*pos] {
                            Token::Id(v) => v.clone(),
                            Token::StringLiteral(v) => v.clone(),
                            _ => {
                                return Err(error("Expected value after `=` in attribute arguments"));
                            },
                        };
                        *pos = *pos + 1;
                        skip_comma(tokens, pos, Ghost(ps(*pos, *dm, *scope)));
                        let mut acc = acc;
                        let ghost old_acc = acc@;
                        acc.push(AttrArg::Named(key.clone(), Value::Str(v)));
                        assert(attr_args_m(acc@) =~= attr_args_m(old_acc).push(AttrArgM::Named(key@, ValueM::Str(v@))));
                        return attr_args_loop_core(tokens, pos, dm, scope, acc);
                    } else {
                        return Err(error("Expected value after `=` in attribute arguments"));
                    }
                } else {
                    skip_comma(tokens, pos, Ghost(ps(*pos, *dm, *scope)));
                    let mut acc = acc;
                    let ghost old_acc = acc@;
                    acc.push(AttrArg::Positional(key.clone()));
                    assert(attr_args_m(acc@) =~= attr_args_m(old_acc).push(AttrArgM::Positional(key@)));
                    return attr_args_loop_core(tokens, pos, dm, scope, acc);
                }
            },
            Token::StringLiteral(v) => {
                *pos = *pos + 1;
                skip_comma(tokens, pos, Ghost(ps(*pos, *dm, *scope)));
                let mut acc = acc;
                let ghost old_acc = acc@;
                acc.push(AttrArg::Positional(v.clone()));
                assert(attr_args_m(acc@) =~= attr_args_m(old_acc).push(AttrArgM::Positional(v@)));
                return attr_args_loop_core(tokens, pos, dm, scope, acc);
            },
            _ => {
                return Err(error("Unexpected token in attribute args"));
            },
        }
    }
    Err(error("Unexpected end in attribute args"))
}

} // verus!

verus! {

/// The optional argument list of an attribute.
pub fn attr_args_core(tokens: &[Token], pos: &mut usize, dm: &mut Vec<String>, scope: &mut Scope)
    -> (res: Result<Vec<AttrArg>, ParseFailure>)
    requires
        tokens@.len() < usize::MAX,
    ensures
        grows(ps(*old(pos), *old(dm), *old(scope)), ps(*final(pos), *final(dm), *final(scope))),
        outcome(res, ps(*final(pos), *final(dm), *final(scope)),
            sp_attr_args(tokens@, ps(*old(pos), *old(dm), *old(scope))),
            |v: Vec<AttrArg>| attr_args_m(v@)),
        *final(dm) == *old(dm),
        *final(scope) == *old(scope),
        *final(pos) >= *old(pos),
{
    if eat(&Token::OpenParenthese, tokens, pos) {
        let acc: Vec<AttrArg> = Vec::new();
        assert(attr_args_m(acc@) =~= Seq::<AttrArgM>::empty());
        attr_args_loop_core(tokens, pos, dm, scope, acc)
    } else {
        let v: Vec<AttrArg> = Vec::new();
        assert(attr_args_m(v@) =~= Seq::<AttrArgM>::empty());
        Ok(v)
    }
}

/// Attributes with optional arguments.
pub fn attrs_core(tokens: &[Token], pos: &mut usize, dm: &mut Vec<String>, scope: &mut Scope, acc: Vec<Attribute>)
    -> (res: Result<Vec<Attribute>, ParseFailure>)
    requires
        tokens@.len() < usize::MAX,
    ensures
        grows(ps(*old(pos), *old(dm), *old(scope)), ps(*final(pos), *final(dm), *final(scope))),
        outcome(res, ps(*final(pos), *final(dm), *final(scope)),
            sp_attrs(tokens@, ps(*old(pos), *old(dm), *old(scope)), attrs_m(acc@)),
            |v: Vec<Attribute>| attrs_m(v@)),
        *final(dm) == *old(dm),
        *final(scope) == *old(scope),
        *final(pos) >= *old(pos),
    decreases rem_at(tokens@, *old(pos) as int),
{
    if !(*pos < tokens.len()) {
        return Ok(acc);
    }
    match &tokens[*pos] {
        Token::Hash => {},
        _ => {
            return Ok(acc);
        },
    }
    let start = *pos;
    *pos = *pos + 1;
    if !eat(&Token::OpenSquareBracket, tokens, pos) {
        return Err(error("Expected `[` after `#` in attribute"));
    }
    if !(*pos < tokens.len()) {
        return Err(error("Expected attribute"));
    }
    let name = match &tokens[*pos] {
        Token::Id(name) => name.clone(),
        _ => {
            return Err(error("Expected attribute"));
        },
    };
    *pos = *pos + 1;
    let args = match attr_args_core(tokens, pos, dm, scope) {
        Ok(a) => a,
        Err(_) => {
            return Err(abort("Malformed attribute arguments"));
        },
    };
    if !eat(&Token::CloseSquareBracket, tokens, pos) {
        return Err(error("Expecetd `]` to close attribute"));
    }
    let mut acc = acc;
    let ghost old_acc = acc@;
    if args.len() == 0 {
        acc.push(Attribute::Simple(name));
        assert(attrs_m(acc@) =~= attrs_m(old_acc).push(AttributeM::Simple(name@)));
    } else {
        let ghost am = attr_args_m(args@);
        acc.push(Attribute::WithArgs { name, args });
        assert(attrs_m(acc@) =~= attrs_m(old_acc).push(AttributeM::WithArgs { name: name@, args: am }));
    }
    attrs_core(tokens, pos, dm, scope, acc)
}

/// Attributes without arguments.
pub fn simple_attrs_core(tokens: &[Token], pos: &mut usize, dm: &mut Vec<String>, scope: &mut Scope, acc: Vec<Attribute>)
    -> (res: Result<Vec<Attribute>, ParseFailure>)
    requires
        tokens@.len() < usize::MAX,
    ensures
        grows(ps(*old(pos), *old(dm), *old(scope)), ps(*final(pos), *final(dm), *final(scope))),
        outcome(res, ps(*final(pos), *final(dm), *final(scope)),
            sp_simple_attrs(tokens@, ps(*old(pos), *old(dm), *old(scope)), attrs_m(acc@)),
            |v: Vec<Attribute>| attrs_m(v@)),
        *final(dm) == *old(dm),
        *final(scope) == *old(scope),
    decreases rem_at(tokens@, *old(pos) as int),
{
    if !(*pos < tokens.len()) {
        return Ok(acc);
    }
    match &tokens[*pos] {
        Token::Hash => {},
        _ => {
            return Ok(acc);
        },
    }
    *pos = *pos + 1;
    if !eat(&Token::OpenSquareBracket, tokens, pos) {
        return Err(error("Expected `[` after `#` in attribute"));
    }
    if !(*pos < tokens.len()) {
        return Err(error("Expected attribute"));
    }
    let name = match &tokens[*pos] {
        Token::Id(name) => name.clone(),
        _ => {
            return Err(error("Expected attribute"));
        },
    };
    *pos = *pos + 1;
    if !eat(&Token::CloseSquareBracket, tokens, pos) {
        return Err(error("Expecetd `]` to close attribute"));
    }
    let mut acc = acc;
    let ghost old_acc = acc@;
    acc.push(Attribute::Simple(name));
    assert(attrs_m(acc@) =~= attrs_m(old_acc).push(AttributeM::Simple(name@)));
    simple_attrs_core(tokens, pos, dm, scope, acc)
}

} // verus!

verus! {

/// A path `a::b::c`; the names read are recorded in `dm` when `record` holds.
pub fn path_core(tokens: &[Token], pos: &mut usize, dm: &mut Vec<String>, scope: &mut Scope, acc: Vec<String>, record: bool)
    -> (res: Vec<String>)
    requires
        tokens@.len() < usize::MAX,
    ensures
        grows(ps(*old(pos), *old(dm), *old(scope)), ps(*final(pos), *final(dm), *final(scope))),
        (strings_m(res@), ps(*final(pos), *final(dm), *final(scope)))
            == path_loop(tokens@, ps(*old(pos), *old(dm), *old(scope)), strings_m(acc@), record),
        *final(scope) == *old(scope),
        !record ==> *final(dm) == *old(dm),
        *final(pos) >= *old(pos),
    decreases rem_at(tokens@, *old(pos) as int),
{
    if !(*pos < tokens.len()) {
        return acc;
    }
    let name = match &tokens[*pos] {
        Token::Id(name) => name.clone(),
        _ => {
            return acc;
        },
    };
    *pos = *pos + 1;
    if record {
        let ghost old_dm = dm@;
        dm.push(name.clone());
        assert(strings_m(dm@) =~= strings_m(old_dm).push(name@));
    }
    let mut acc = acc;
    let ghost old_acc = acc@;
    acc.push(name);
    assert(strings_m(acc@) =~= strings_m(old_acc).push(name@));
    if eat(&Token::Colon, tokens, pos) {
        if eat(&Token::Colon, tokens, pos) {
            return path_core(tokens, pos, dm, scope, acc, record);
        }
    }
    acc
}

/// The parts of a path joined with `::`.
pub fn join_path_exec(parts: &Vec<String>) -> (res: String)
    ensures
        res@ == join_path(strings_m(parts@)),
{
    let mut out = String::new();
    let mut i: usize = 0;
    while i < parts.len()
        invariant
            i <= parts@.len(),
            out@ == join_path(strings_m(parts@).take(i as int)),
        decreases parts@.len() - i,
    {
        let ghost p = strings_m(parts@);
        proof {
            assert(p.take(i + 1).drop_last() =~= p.take(i as int));
            if i == 0 {
                assert(p.take(0) =~= Seq::<Seq<char>>::empty());
            }
        }
        if i > 0 {
            out.append("::");
        }
        out.append(parts[i].as_str());
        i = i + 1;
    }
    assert(strings_m(parts@).take(parts@.len() as int) =~= strings_m(parts@));
    out
}

fn call_args_loop_core(tokens: &[Token], pos: &mut usize, dm: &mut Vec<String>, scope: &mut Scope, acc: Vec<TypedArg>)
    -> (res: Result<Vec<TypedArg>, ParseFailure>)
    requires
        tokens@.len() < usize::MAX,
    ensures
        grows(ps(*old(pos), *old(dm), *old(scope)), ps(*final(pos), *final(dm), *final(scope))),
        outcome(res, ps(*final(pos), *final(dm), *final(scope)),
            call_args_loop(tokens@, ps(*old(pos), *old(dm), *old(scope)), targs_m(acc@)),
            |v: Vec<TypedArg>| targs_m(v@)),
        *final(dm) == *old(dm),
        *final(scope) == *old(scope),
        *final(pos) >= *old(pos),
    decreases rem_at(tokens@, *old(pos) as int),
{
    if !(*pos < tokens.len()) {
        return Err(error("Unexpected end of tokens while parsing args"));
    }
    let arg = match &tokens[*pos] {
        Token::Number(v) => TypedArg {
            name: String::from_str("_"),
            typ: Type::I64,
            value: Some(Expr::Literal(Value::Int(*v))),
        },
        Token::StringLiteral(s) => TypedArg {
            name: String::from_str("_"),
            typ: Type::Str,
            value: Some(Expr::Literal(Value::Str(s.clone()))),
        },
        Token::Id(id) => TypedArg { name: id.clone(), typ: Type::Var, value: Some(Expr::Id(id.clone())) },
        Token::Comma => {
            *pos = *pos + 1;
            return call_args_loop_core(tokens, pos, dm, scope, acc);
        },
        Token::CloseParenthese => {
            *pos = *pos + 1;
            return Ok(acc);
        },
        _ => {
            return Err(error("Unexpected token in args"));
        },
    };
    *pos = *pos + 1;
    let mut acc = acc;
    let ghost old_acc = acc@;
    acc.push(arg);
    proof {
        lemma_targs_m_push(old_acc, arg);
    }
    call_args_loop_core(tokens, pos, dm, scope, acc)
}

/// The arguments of a call statement.
pub fn call_args_core(tokens: &[Token], pos: &mut usize, dm: &mut Vec<String>, scope: &mut Scope)
    -> (res: Result<Vec<TypedArg>, ParseFailure>)
    requires
        tokens@.len() < usize::MAX,
    ensures
        grows(ps(*old(pos), *old(dm), *old(scope)), ps(*final(pos), *final(dm), *final(scope))),
        outcome(res, ps(*final(pos), *final(dm), *final(scope)),
            sp_call_args(tokens@, ps(*old(pos), *old(dm), *old(scope))),
            |v: Vec<TypedArg>| targs_m(v@)),
        *final(dm) == *old(dm),
        *final(scope) == *old(scope),
        *final(pos) >= *old(pos),
{
    if !eat(&Token::OpenParenthese, tokens, pos) {
        return Err(error("Expected `(` in function call"));
    }
    let acc: Vec<TypedArg> = Vec::new();
    assert(targs_m(acc@) =~= Seq::<TypedArgM>::empty());
    call_args_loop_core(tokens, pos, dm, scope, acc)
}

/// A call statement `path(args);`.
pub fn fn_call_core(tokens: &[Token], pos: &mut usize, dm: &mut Vec<String>, scope: &mut Scope)
    -> (res: Result<Stmt, ParseFailure>)
    requires
        tokens@.len() < usize::MAX,
    ensures
        grows(ps(*old(pos), *old(dm), *old(scope)), ps(*final(pos), *final(dm), *final(scope))),
        outcome(res, ps(*final(pos), *final(dm), *final(scope)),
            sp_fn_call(tokens@, ps(*old(pos), *old(dm), *old(scope))),
            |v: Stmt| v@),
        *final(dm) == *old(dm),
        *final(scope) == *old(scope),
        *final(pos) >= *old(pos),
        res is Ok ==> *final(pos) > *old(pos),
{
    let acc: Vec<String> = Vec::new();
    assert(strings_m(acc@) =~= Seq::<Seq<char>>::empty());
    let path = path_core(tokens, pos, dm, scope, acc, false);
    if path.len() == 0 {
        return Err(error("Expected function name"));
    }
    let args = call_args_core(tokens, pos, dm, scope)?;
    if !eat(&Token::Semicolon, tokens, pos) {
        return Err(error("Expected `;` after function call"));
    }
    let name = join_path_exec(&path);
    Ok(Stmt::FnCall { name, args })
}

/// An import `use a::b [as nick];`.
pub fn import_core(tokens: &[Token], pos: &mut usize, dm: &mut Vec<String>, scope: &mut Scope)
    -> (res: Result<Stmt, ParseFailure>)
    requires
        tokens@.len() < usize::MAX,
    ensures
        grows(ps(*old(pos), *old(dm), *old(scope)), ps(*final(pos), *final(dm), *final(scope))),
        outcome(res, ps(*final(pos), *final(dm), *final(scope)),
            sp_import(tokens@, ps(*old(pos), *old(dm), *old(scope))),
            |v: Stmt| v@),
        *final(scope) == *old(scope),
        *final(pos) >= *old(pos),
        res is Ok ==> *final(pos) > *old(pos),
{
    if !eat(&Token::Import, tokens, pos) {
        return Err(error("Expected keyword `use` or `gunakan`"));
    }
    let acc: Vec<String> = Vec::new();
    assert(strings_m(acc@) =~= Seq::<Seq<char>>::empty());
    let path = path_core(tokens, pos, dm, scope, acc, true);
    let nickname = if eat(&Token::As, tokens, pos) {
        if *pos < tokens.len() {
            match &tokens[*pos] {
                Token::Id(n) => {
                    let n = n.clone();
                    *pos = *pos + 1;
                    Some(n)
                },
                _ => {
                    return Err(error("Expected identifier after `as`"));
                },
            }
        } else {
            return Err(error("Expected identifier after `as`"));
        }
    } else {
        None
    };
    if !eat(&Token::Semicolon, tokens, pos) {
        return Err(error("Expected semicolon after giving the package a nickname"));
    }
    Ok(Stmt::Import { path, nickname, is_glob: false })
}

/// Declared parameters `name: type` up to `)`.
pub fn decl_args_core(tokens: &[Token], pos: &mut usize, dm: &mut Vec<String>, scope: &mut Scope, acc: Vec<TypedArg>)
    -> (res: Result<Vec<TypedArg>, ParseFailure>)
    requires
        tokens@.len() < usize::MAX,
    ensures
        grows(ps(*old(pos), *old(dm), *old(scope)), ps(*final(pos), *final(dm), *final(scope))),
        outcome(res, ps(*final(pos), *final(dm), *final(scope)),
            decl_args_loop(tokens@, ps(*old(pos), *old(dm), *old(scope)), targs_m(acc@)),
            |v: Vec<TypedArg>| targs_m(v@)),
        *final(dm) == *old(dm),
        *final(scope) == *old(scope),
        *final(pos) >= *old(pos),
    decreases rem_at(tokens@, *old(pos) as int),
{
    if !(*pos < tokens.len()) {
        return Ok(acc);
    }
    let name = match &tokens[*pos] {
        Token::CloseParenthese => {
            *pos = *pos + 1;
            return Ok(acc);
        },
        Token::Id(n) => n.clone(),
        _ => {
            return Err(error("Invalid argument syntax inside function declaration"));
        },
    };
    *pos = *pos + 1;
    if !eat(&Token::Colon, tokens, pos) {
        return Err(error("Expected `:` after argument name"));
    }
    if !(*pos < tokens.len()) {
        return Err(error("Expected a type name after `:` in argument"));
    }
    let typ = match &tokens[*pos] {
        Token::Type(t) => t.copied(),
        _ => {
            return Err(error("Expected a type name after `:` in argument"));
        },
    };
    *pos = *pos + 1;
    skip_comma(tokens, pos, Ghost(ps(*pos, *dm, *scope)));
    let arg = TypedArg { name, typ, value: None };
    let mut acc = acc;
    let ghost old_acc = acc@;
    acc.push(arg);
    proof {
        lemma_targs_m_push(old_acc, arg);
    }
    decl_args_core(tokens, pos, dm, scope, acc)
}

/// Moves past the `*` tokens at `*pos` and answers how many there were.
pub fn skip_stars(tokens: &[Token], pos: &mut usize, Ghost(s): Ghost<PS>) -> (res: usize)
    requires
        s.pos == *old(pos),
    ensures
        res == star_count(tokens@, s),
        *final(pos) == *old(pos) + res,
    decreases rem_at(tokens@, *old(pos) as int),
{
    if *pos < tokens.len() {
        match &tokens[*pos] {
            Token::Star => {
                *pos = *pos + 1;
                let n = skip_stars(tokens, pos, Ghost(s.skip(1)));
                return n + 1;
            },
            _ => {},
        }
    }
    0
}

/// `base` behind `n` pointer levels.
pub fn wrap_ptr(base: Type, n: usize) -> (res: Type)
    ensures
        res == ptr_to(base, n as nat),
    decreases n,
{
    if n == 0 { base } else { Type::Ptr(Box::new(wrap_ptr(base, n - 1))) }
}

} // verus!
