//! The plain decisions of code generation: the type a `let` gives its variable, the
//! types that parameters may have, the text of a `printf` format, and the names that
//! module paths and qualified function names stand for.
use vstd::prelude::*;
use inkwell::context::Context;
use inkwell::types::BasicTypeEnum;
use crate::types::{Type, spec_type_from_str};
use crate::value::Value;
use crate::ast::{Expr, strings_m};
use crate::text::{chars_of, string_from_chars};
use crate::codegen::table::Table;
use crate::codegen::gen::FunctionInfo;
use crate::codegen::llvm_types::has_llvm_type;
use crate::codegen::llvm::pointer_to;

verus! {

/// The type that a `let` gives its variable: the type written, or else the type of
/// its value (an integer literal, a boolean literal, or a call of a known function).
pub open spec fn decl_type(typ: Option<String>, value: Option<Expr>, fns: Map<Seq<char>, FunctionInfo>) -> Option<Type> {
    match typ {
        Some(t) => spec_type_from_str(t@),
        None => match value {
            Some(Expr::Literal(Value::Int(_))) => Some(Type::I64),
            Some(Expr::Literal(Value::Bool(_))) => Some(Type::Bool),
            Some(Expr::FnCall { name, args }) => if fns.contains_key(name@) { Some(fns[name@].ret_type) } else { None },
            _ => None,
        },
    }
}

/// The type that a `let` gives its variable, or why there is none.
pub fn infer_decl_type(typ: &Option<String>, value: &Option<Expr>, fns: &Table<FunctionInfo>) -> (res: Result<Type, String>)
    ensures
        match decl_type(*typ, *value, fns@) {
            Some(t) => res == Ok::<Type, String>(t),
            None => res is Err,
        },
{
    match typ {
        Some(t) => match Type::from_str(t.as_str()) {
            Some(ty) => Ok(ty),
            None => Err(String::from_str("Invalid type")),
        },
        None => match value {
            Some(Expr::Literal(Value::Int(_))) => Ok(Type::I64),
            Some(Expr::Literal(Value::Bool(_))) => Ok(Type::Bool),
            Some(Expr::FnCall { name, .. }) => match fns.get(name) {
                Some(info) => Ok(info.ret_type.copied()),
                None => Err(String::from_str("Function not found")),
            },
            _ => Err(String::from_str("Can't infer type of expr")),
        },
    }
}

/// Whether a parameter may have this type: one with an LLVM type of its own, or a
/// pointer to one.
pub open spec fn param_type_ok(t: Type) -> bool {
    match t {
        Type::Ptr(inner) => has_llvm_type(*inner),
        Type::Var | Type::Unknown | Type::Void => false,
        _ => true,
    }
}

pub open spec fn params_ok(ts: Seq<Type>) -> bool {
    forall|i: int| 0 <= i < ts.len() ==> #[trigger] param_type_ok(ts[i])
}

/// The LLVM type of a parameter of type `t`.
pub fn param_llvm_type<'ctx>(ctx: &'ctx Context, t: &Type) -> (res: Option<BasicTypeEnum<'ctx>>)
    ensures
        res is Some <==> param_type_ok(*t),
{
    match t {
        Type::Ptr(inner) => match inner.to_llvm_type(ctx) {
            Some(it) => Some(pointer_to(it)),
            None => None,
        },
        _ => t.to_llvm_type(ctx),
    }
}

/// The conversion that `printf` uses for an argument of type `t`.
pub open spec fn format_piece(t: Type) -> Option<Seq<char>> {
    match t {
        Type::I64 => Some("%ld"@),
        Type::Str => Some("%s"@),
        Type::Var => Some("%s"@),
        _ => None,
    }
}

/// The conversions for arguments of types `ts`, one after another.
pub open spec fn format_pieces(ts: Seq<Type>) -> Option<Seq<char>>
    decreases ts.len(),
{
    if ts.len() == 0 {
        Some(Seq::empty())
    } else {
        match (format_pieces(ts.drop_last()), format_piece(ts.last())) {
            (Some(a), Some(b)) => Some(a + b),
            _ => None,
        }
    }
}

/// The format that `printf` is given for arguments of types `ts`: their conversions
/// and a line break; none where some argument has a type that `printf` does not take.
pub open spec fn printf_format_text(ts: Seq<Type>) -> Option<Seq<char>> {
    match format_pieces(ts) {
        Some(p) => Some(p + "\n"@),
        None => None,
    }
}

/// The format that `printf` is given for arguments of the types `types`.
pub fn printf_format_string(types: &Vec<Type>) -> (res: Option<String>)
    ensures
        match printf_format_text(types@) {
            Some(t) => res matches Some(s) && s@ == t,
            None => res is None,
        },
{
    let mut s = String::new();
    let mut i: usize = 0;
    while i < types.len()
        invariant
            i <= types@.len(),
            format_pieces(types@.take(i as int)) == Some(s@),
        decreases types@.len() - i,
    {
        assert(types@.take(i + 1).drop_last() =~= types@.take(i as int));
        match &types[i] {
            Type::I64 => s.append("%ld"),
            Type::Str => s.append("%s"),
            Type::Var => s.append("%s"),
            _ => {
                proof {
                    lemma_format_pieces_none(types@, i as int);
                }
                return None;
            },
        }
        i = i + 1;
    }
    assert(types@.take(types@.len() as int) =~= types@);
    s.append("\n");
    Some(s)
}

pub proof fn lemma_format_pieces_none(ts: Seq<Type>, i: int)
    requires
        0 <= i < ts.len(),
        format_piece(ts[i]) is None,
    ensures
        format_pieces(ts) is None,
    decreases ts.len(),
{
    if i < ts.len() - 1 {
        lemma_format_pieces_none(ts.drop_last(), i);
    }
}

/// Parts joined with `sep` between each two.
pub open spec fn join_with(parts: Seq<Seq<char>>, sep: Seq<char>) -> Seq<char>
    decreases parts.len(),
{
    if parts.len() == 0 {
        Seq::empty()
    } else if parts.len() == 1 {
        parts[0]
    } else {
        join_with(parts.drop_last(), sep) + sep + parts.last()
    }
}

/// The path of the file that an import of `path` reads: its parts joined with `/`,
/// then `.kurai`.
pub open spec fn module_file(path: Seq<Seq<char>>) -> Seq<char> {
    join_with(path, "/"@) + ".kurai"@
}

/// The file that an import of `path` reads.
pub fn module_file_of(path: &Vec<String>) -> (res: String)
    ensures
        res@ == module_file(strings_m(path@)),
{
    let mut s = String::new();
    let mut i: usize = 0;
    while i < path.len()
        invariant
            i <= path@.len(),
            s@ == join_with(strings_m(path@.take(i as int)), "/"@),
        decreases path@.len() - i,
    {
        assert(strings_m(path@.take(i + 1)).drop_last() =~= strings_m(path@.take(i as int)));
        if i > 0 {
            s.append("/");
        }
        s.append(path[i].as_str());
        i = i + 1;
        proof {
            if i == 1 {
                assert(strings_m(path@.take(1)) =~= seq![path@[0]@]);
            }
        }
    }
    assert(path@.take(path@.len() as int) =~= path@);
    s.append(".kurai");
    s
}

/// The index of the first `::` in `s` at or after `i`, or `s.len()` where there is none.
pub open spec fn separator_at(s: Seq<char>, i: int) -> int
    decreases s.len() - i,
{
    if i < 0 || i + 1 >= s.len() {
        s.len() as int
    } else if s[i] == ':' && s[i + 1] == ':' {
        i
    } else {
        separator_at(s, i + 1)
    }
}

proof fn lemma_separator_at(s: Seq<char>, i: int)
    requires
        0 <= i,
    ensures
        i <= separator_at(s, i) <= s.len() || (i > s.len() && separator_at(s, i) == s.len()),
        separator_at(s, i) < s.len() ==> separator_at(s, i) + 1 < s.len(),
    decreases s.len() - i,
{
    if !(i + 1 >= s.len()) && !(s[i] == ':' && s[i + 1] == ':') {
        lemma_separator_at(s, i + 1);
    }
}

/// Whether a name holds `::`.
pub open spec fn is_qualified(s: Seq<char>) -> bool {
    separator_at(s, 0) < s.len()
}

/// The module and the function that a qualified name `module::function[::...]` names.
pub open spec fn qualified_parts(s: Seq<char>) -> (Seq<char>, Seq<char>) {
    let p = separator_at(s, 0);
    let q = separator_at(s, p + 2);
    (s.subrange(0, p), s.subrange(p + 2, if q <= s.len() { q } else { s.len() as int }))
}

fn find_separator(s: &Vec<char>, from: usize) -> (res: usize)
    requires
        from <= s@.len(),
    ensures
        res == separator_at(s@, from as int),
{
    let mut i = from;
    while i < s.len() && i + 1 < s.len() && !(s[i] == ':' && s[i + 1] == ':')
        invariant
            from <= i <= s@.len(),
            separator_at(s@, i as int) == separator_at(s@, from as int),
        decreases s@.len() - i,
    {
        i = i + 1;
    }
    if i < s.len() && i + 1 < s.len() {
        i
    } else {
        s.len()
    }
}

fn chars_between(s: &Vec<char>, from: usize, to: usize) -> (res: String)
    requires
        from <= to <= s@.len(),
    ensures
        res@ == s@.subrange(from as int, to as int),
{
    let mut out: Vec<char> = Vec::new();
    let mut i = from;
    while i < to
        invariant
            from <= i <= to <= s@.len(),
            out@ == s@.subrange(from as int, i as int),
        decreases to - i,
    {
        out.push(s[i]);
        i = i + 1;
        assert(out@ =~= s@.subrange(from as int, i as int));
    }
    string_from_chars(&out)
}

/// Whether `name` holds `::`.
pub fn has_separator(name: &str) -> (res: bool)
    ensures
        res == is_qualified(name@),
{
    let s = chars_of(name);
    find_separator(&s, 0) < s.len()
}

/// The module and the function that a name `module::function` names, the function
/// being the part after the first `::` up to the next one.
pub fn split_module_function_name(name: &str) -> (res: Option<(String, String)>)
    requires
        is_qualified(name@),
    ensures
        res matches Some((m, f)) && (m@, f@) == qualified_parts(name@),
{
    let s = chars_of(name);
    let p = find_separator(&s, 0);
    proof {
        lemma_separator_at(s@, 0);
    }
    assert(p < s@.len());
    assert(p + 1 < s@.len());
    proof {
        lemma_separator_at(s@, p + 2);
    }
    let modname = chars_between(&s, 0, p);
    let q = find_separator(&s, p + 2);
    let funcname = chars_between(&s, p + 2, q);
    Some((modname, funcname))
}

} // verus!
