//! Code generation proper: statements and expressions lowered into LLVM IR. The
//! functions here call one another; each call goes either into a smaller part of the
//! program or one module deeper, which bounds the recursion.
use vstd::prelude::*;
use inkwell::basic_block::BasicBlock;
use inkwell::values::{BasicValueEnum, FunctionValue};
use inkwell::types::BasicTypeEnum;
use crate::types::Type;
use crate::value::Value;
use crate::ast::{Attribute, BinOp, Expr, Stmt, IfBranch, TypedArg, TypedArgM, strings_m, targs_m, lemma_targs_len, copy_stmts, copy_targs};
use crate::scope::Scope;
use crate::lexer::try_tokenize;
use crate::text::str_is;
use crate::parser::traits::GroupedParsers;
use crate::parser::sequence::program_core;
use crate::codegen::gen::{CodeGen, VariableInfo, FunctionInfo, Emitted, numbered, numbered_name, same_but_log, same_parts,
    predicate_of, op_record, MAX_MODULE_DEPTH};
use crate::codegen::plan::{printf_format_text, decl_type, infer_decl_type, param_type_ok, params_ok, param_llvm_type, printf_format_string,
    lemma_format_pieces_none,
    module_file_of, has_separator, split_module_function_name, is_qualified, qualified_parts};
use crate::codegen::llvm_types::has_llvm_type;
use crate::codegen::size::{expr_size, exprs_size, stmt_size, stmts_size, branches_size, branch_size, lemma_exprs_size,
    lemma_stmts_size, lemma_branches_size};
use crate::codegen::llvm::{i8_type, i16_type, i32_type, i64_type, i128_type, bool_type, f16_type, f32_type, f64_type,
    f128_type, const_int, const_zero, int_value_basic, float_value_basic, int_type_basic, as_int_value, as_float_value,
    int_width, int_has_type, same_int_type, float_has_type, value_type, void_fn_type, fn_type, add_function,
    get_function, append_basic_block, position_at_end, insert_block, block_parent, block_is_terminated, same_block,
    build_alloca, build_store, build_load, build_int_add, build_int_sub, build_int_mul, build_int_signed_div,
    build_int_compare, build_int_cast, build_int_cast_like, build_float_cast, build_branch, build_conditional_branch,
    build_return, build_call, build_global_string_ptr, build_phi, phi_add_incoming, phi_value, nth_param, zero_like, Compare};

verus! {

/// Whether the statements after a statement are still to be generated.
#[derive(Clone, Copy, PartialEq, Eq, Structural)]
pub enum Flow {
    Next,
    /// An import of a module loaded before: the remaining statements of the list are passed over.
    Stop,
}

/// The type of an integer literal lowered where `expected` is expected.
pub open spec fn int_literal_type(expected: Option<&Type>) -> Type {
    match expected {
        Some(t) => match *t {
            Type::I8 => Type::I8,
            Type::I16 => Type::I16,
            Type::I32 => Type::I32,
            Type::I128 => Type::I128,
            _ => Type::I64,
        },
        None => Type::I64,
    }
}

/// The type of a float literal lowered where `expected` is expected.
pub open spec fn float_literal_type(expected: Option<&Type>) -> Type {
    match expected {
        Some(t) => match *t {
            Type::F16 => Type::F16,
            Type::F32 => Type::F32,
            Type::F128 => Type::F128,
            _ => Type::F64,
        },
        None => Type::F64,
    }
}

/// The return types that a `return` with a value can be lowered for.
pub open spec fn returnable(t: Type) -> bool {
    t == Type::I32 || t == Type::I64 || t == Type::F32 || t == Type::F64
}

/// How many of the first `n` statements are loops with no import before them.
pub open spec fn loops_before_import(stmts: Seq<Stmt>, n: int) -> nat
    decreases n,
{
    if n <= 0 {
        0
    } else {
        loops_before_import(stmts, n - 1) + if stmts[n - 1] is Loop && no_import_before(stmts, n - 1) { 1nat } else { 0nat }
    }
}

/// Past an import, no further loop is counted.
proof fn lemma_loops_after_import(stmts: Seq<Stmt>, i: int, n: int)
    requires
        0 <= i < n <= stmts.len(),
        stmts[i] is Import,
    ensures
        loops_before_import(stmts, n) == loops_before_import(stmts, i + 1),
    decreases n - i,
{
    if n > i + 1 {
        lemma_loops_after_import(stmts, i, n - 1);
        assert(!no_import_before(stmts, n - 1));
    }
}

/// What a statement leaves behind once it has run: the variable or function it declares,
/// the module it imports.
pub open spec fn leaves_behind<'ctx>(s: Stmt, cg: CodeGen<'ctx>) -> bool {
    match s {
        Stmt::VarDecl { name, .. } => cg.variables@.contains_key(name@),
        Stmt::FnDecl { name, .. } => cg.functions@.contains_key(name@),
        Stmt::Import { path, .. } => path@.len() > 0 ==> cg.loaded_modules@.contains_key(path@[0]@),
        _ => true,
    }
}

/// The function asked of LLVM first, with its parameter and return types, and, for one
/// with a body, its `entry` block next.
pub open spec fn function_made<'ctx>(before: CodeGen<'ctx>, after: CodeGen<'ctx>, name: Seq<char>, params: Seq<Type>,
    ret: Type, is_extern: bool) -> bool {
    &&& before.emitted@.len() < after.emitted@.len()
    &&& after.emitted@[before.emitted@.len() as int] == (Emitted::Function { name, params, ret, variadic: false })
    &&& !is_extern ==> before.emitted@.len() + 1 < after.emitted@.len()
        && after.emitted@[before.emitted@.len() + 1int] == (Emitted::Block { name: "entry"@ })
}

/// An `extern` function recorded and nothing else changed: its return type, its
/// arguments and the `extern` mark are kept under its name, every other entry and the
/// rest of the state are as they were.
pub open spec fn extern_recorded<'ctx>(before: CodeGen<'ctx>, after: CodeGen<'ctx>, name: Seq<char>, ret: Type,
    args: Seq<TypedArgM>) -> bool {
    &&& after.functions@.contains_key(name)
    &&& after.functions@[name].ret_type == ret
    &&& targs_m(after.functions@[name].args@) == args
    &&& after.functions@[name].is_extern
    &&& after.functions@ == before.functions@.insert(name, after.functions@[name])
    &&& after.variables@ == before.variables@
    &&& after.loaded_modules@ == before.loaded_modules@
    &&& after.current_fn_ret_type == before.current_fn_ret_type
    &&& after.loop_counter == before.loop_counter
    &&& after.string_counter == before.string_counter
    &&& after.printf_counter == before.printf_counter
    &&& after.loop_exit_stack@ == before.loop_exit_stack@
    &&& after.inline_fns@ == before.inline_fns@
    &&& after.emitted@ == before.emitted@.push(Emitted::Function { name, params: args.map_values(|a: TypedArgM| a.typ),
        ret, variadic: false })
}

/// What running a statement does, as far as it can be told from the statement and the
/// state it meets: `before` the state before, `after` the state after, `res` what it answers.
pub open spec fn stmt_outcome<'ctx>(stmt: Stmt, before: CodeGen<'ctx>, after: CodeGen<'ctx>, res: Result<Flow, String>) -> bool {
    &&& res matches Ok(Flow::Stop) ==> stmt is Import
    &&& before.positioned@ && simple_stmt(stmt, before.variables@.dom(), before.loop_exit_stack@.len() > 0) ==> res is Ok
    &&& simple_stmt(stmt, before.variables@.dom(), before.loop_exit_stack@.len() > 0) && res is Ok ==>
        after.loop_counter == before.loop_counter
        && (!(stmt is FnDecl) ==> after.functions@ == before.functions@
            && after.current_fn_ret_type == before.current_fn_ret_type)
    &&& stmt matches Stmt::VarDecl { name, typ, value } ==> {
        &&& decl_type(typ, value, before.functions@) is None ==> res is Err
        &&& simple_decl(typ, value) && res is Ok ==> after.variables@ == before.variables@.insert(name@, after.variables@[name@])
        &&& decl_type(typ, value, before.functions@) matches Some(t) ==> before.emitted@.len() < after.emitted@.len()
            && after.emitted@[before.emitted@.len() as int] == (Emitted::Slot { name: name@, typ: t })
        &&& res is Ok ==> after.variables@.contains_key(name@)
            && Some(after.var_types()[name@]) == decl_type(typ, value, before.functions@)
    }
    &&& stmt matches Stmt::Assign { name, value } ==> (!before.variables@.contains_key(name@) ==> res is Err)
    &&& stmt is FnCall ==> res == Ok::<Flow, String>(Flow::Next)
    &&& stmt matches Stmt::FnDecl { name, args, body, attributes, ret_type, is_extern } ==> {
        &&& !params_ok(args@.map_values(|a: TypedArg| a.typ)) ==> res is Err
        &&& !(ret_type == Type::Void || has_llvm_type(ret_type)) ==> res is Err
        &&& res is Ok ==> after.functions@.contains_key(name@)
        &&& res is Ok && is_extern ==> after.functions@[name@].ret_type == ret_type
            && after.functions@[name@].is_extern
        &&& params_ok(args@.map_values(|a: TypedArg| a.typ)) && (ret_type == Type::Void || has_llvm_type(ret_type))
            ==> after.functions@.contains_key(name@) && function_made(before, after, name@,
                args@.map_values(|a: TypedArg| a.typ), ret_type, is_extern)
        &&& params_ok(args@.map_values(|a: TypedArg| a.typ)) && (ret_type == Type::Void || has_llvm_type(ret_type))
            && is_extern ==> res == Ok::<Flow, String>(Flow::Next)
                && extern_recorded(before, after, name@, ret_type, targs_m(args@))
        &&& res is Ok && !is_extern && ret_type == Type::Void ==> after.emitted@.last() == (Emitted::Return { typ: Type::Void })
        &&& plain_definition(before, args@, attributes@, body@, ret_type, is_extern) ==> res is Ok
        &&& plain_definition(before, args@, attributes@, body@, ret_type, is_extern) && no_fn_decl(body@) ==>
            definition_recorded(after, name@, ret_type, targs_m(args@))
    }
    &&& stmt matches Stmt::Import { path, nickname, is_glob } ==> {
        &&& path@.len() == 0 ==> res is Err
        &&& path@.len() > 0 && before.loaded_modules@.contains_key(path@[0]@) ==>
            res == Ok::<Flow, String>(Flow::Stop) && after == before
        &&& path@.len() > 0 && res is Ok ==> after.loaded_modules@.contains_key(path@[0]@)
    }
    &&& stmt is Loop ==> (res is Ok ==> after.loop_counter > before.loop_counter)
    &&& stmt matches Stmt::Loop { body } ==> (res is Ok && simple_from(body@, 0, before.variables@.dom(), true)
        ==> after.loop_counter == before.loop_counter + 1)
    &&& stmt is Break ==> (before.loop_exit_stack@.len() == 0 ==> res is Err)
    &&& stmt matches Stmt::Return(e) ==> {
        &&& e is None ==> res is Err
        &&& !returnable(before.current_fn_ret_type) ==> res is Err
    }
}

/// A `let` whose code is always made where the builder has a position: its type is
/// known and its value, if any, is an integer or boolean literal.
pub open spec fn simple_decl(typ: Option<String>, value: Option<Expr>) -> bool {
    &&& (value is None || (value matches Some(e) && valued_literal(e)))
    &&& decl_type(typ, value, Map::empty()) is Some
}

/// A statement whose code is always made where the builder has a position, given the
/// variables declared (`vars`) and whether a loop is open: a `let` as above, an
/// assignment of a literal to a declared variable, a `break` inside a loop, a literal or
/// a declared variable standing alone, a call statement, and an `extern` declaration
/// with valid types.
pub open spec fn simple_stmt(s: Stmt, vars: Set<Seq<char>>, in_loop: bool) -> bool {
    match s {
        Stmt::VarDecl { typ, value, .. } => simple_decl(typ, value),
        Stmt::Assign { name, value } => vars.contains(name@) && valued_literal(value),
        Stmt::Break => in_loop,
        Stmt::Expr(e) => valued_literal(e) || (e matches Expr::Id(n) && vars.contains(n@)),
        _ => surely_ok(s),
    }
}

/// A function with a body whose code is always made: no parameters, no attributes, a
/// return type with an LLVM type (or none), and a body of simple statements.
pub open spec fn plain_definition<'ctx>(before: CodeGen<'ctx>, args: Seq<TypedArg>, attributes: Seq<Attribute>,
    body: Seq<Stmt>, ret: Type, is_extern: bool) -> bool {
    &&& !is_extern
    &&& args.len() == 0
    &&& attributes.len() == 0
    &&& (ret == Type::Void || has_llvm_type(ret))
    &&& simple_from(body, 0, before.variables@.dom(), before.loop_exit_stack@.len() > 0)
}

/// A function recorded with its body generated: its return type, its arguments, not
/// `extern`, and the return type the generator now works under.
pub open spec fn definition_recorded<'ctx>(after: CodeGen<'ctx>, name: Seq<char>, ret: Type, args: Seq<TypedArgM>) -> bool {
    &&& after.functions@.contains_key(name)
    &&& after.functions@[name].ret_type == ret
    &&& targs_m(after.functions@[name].args@) == args
    &&& !after.functions@[name].is_extern
    &&& after.current_fn_ret_type == ret
}

/// Whether no statement of a list declares a function.
pub open spec fn no_fn_decl(stmts: Seq<Stmt>) -> bool {
    forall|j: int| 0 <= j < stmts.len() ==> !(#[trigger] stmts[j] is FnDecl)
}

/// The variables declared once a statement has run.
pub open spec fn vars_after(s: Stmt, vars: Set<Seq<char>>) -> Set<Seq<char>> {
    match s {
        Stmt::VarDecl { name, .. } => vars.insert(name@),
        _ => vars,
    }
}

/// Whether the statements from `i` on are all simple, the variables that each declares
/// counted for those after it.
pub open spec fn simple_from(stmts: Seq<Stmt>, i: int, vars: Set<Seq<char>>, in_loop: bool) -> bool
    decreases stmts.len() - i,
{
    if i < 0 || i >= stmts.len() {
        true
    } else {
        simple_stmt(stmts[i], vars, in_loop) && simple_from(stmts, i + 1, vars_after(stmts[i], vars), in_loop)
    }
}

/// A statement simple for some declared variables is simple for more.
proof fn lemma_simple_wider(s: Stmt, vars: Set<Seq<char>>, more: Set<Seq<char>>, in_loop: bool)
    requires
        simple_stmt(s, vars, in_loop),
        forall|k: Seq<char>| vars.contains(k) ==> #[trigger] more.contains(k),
    ensures
        simple_stmt(s, more, in_loop),
{
}

/// Whether a statement succeeds whatever it meets: a call statement (whose code the call
/// expression makes), or an `extern` declaration whose types all have LLVM types.
pub open spec fn surely_ok(s: Stmt) -> bool {
    match s {
        Stmt::FnCall { .. } => true,
        Stmt::FnDecl { args, ret_type, is_extern, .. } => is_extern && params_ok(args@.map_values(|a: TypedArg| a.typ))
            && (ret_type == Type::Void || has_llvm_type(ret_type)),
        _ => false,
    }
}

/// Whether a statement fails whatever it meets: a `return` without a value, an import of
/// an empty path, a `break` where no loop is open (`no_loop`).
pub open spec fn always_fails(s: Stmt, no_loop: bool) -> bool {
    match s {
        Stmt::Return(e) => e is None,
        Stmt::Import { path, .. } => path@.len() == 0,
        Stmt::Break => no_loop,
        _ => false,
    }
}

/// Whether no import stands before position `i` of a list of statements.
pub open spec fn no_import_before(stmts: Seq<Stmt>, i: int) -> bool {
    forall|j: int| 0 <= j < i ==> !(#[trigger] stmts[j] is Import)
}

/// What a statement leaves behind stays where code generation keeps what it held.
proof fn lemma_leaves_behind_kept<'ctx>(s: Stmt, before: CodeGen<'ctx>, after: CodeGen<'ctx>)
    requires
        after.keeps(&before),
        leaves_behind(s, before),
    ensures
        leaves_behind(s, after),
{
}

fn halt<T>(msg: &str) -> (res: Result<T, String>)
    ensures
        res matches Err(m) && m@ == msg@,
{
    Err(String::from_str(msg))
}

impl<'ctx> CodeGen<'ctx> {
    /// Generates the code of the statements; statements may declare functions, variables
    /// and loops and import modules.
    pub fn generate_code(
        &mut self,
        parsed_stmt: Vec<Stmt>,
        exprs: Vec<Expr>,
        discovered_modules: &mut Vec<String>,
        parsers: &GroupedParsers,
        scope: &mut Scope,
    ) -> (res: Result<(), String>)
        ensures
            final(self).keeps(old(self)),
            res is Ok ==> final(self).loop_exit_stack@ == old(self).loop_exit_stack@,
            res is Ok ==> forall|i: int| 0 <= i < parsed_stmt@.len() && no_import_before(parsed_stmt@, i)
                ==> leaves_behind(#[trigger] parsed_stmt@[i], *final(self)),
            (exists|i: int| 0 <= i < parsed_stmt@.len() && no_import_before(parsed_stmt@, i)
                && always_fails(#[trigger] parsed_stmt@[i], old(self).loop_exit_stack@.len() == 0)) ==> res is Err,
            parsed_stmt@.len() == 0 ==> res is Ok && *final(self) == *old(self),
            old(self).positioned@ && simple_from(parsed_stmt@, 0, old(self).variables@.dom(), old(self).loop_exit_stack@.len() > 0)
                ==> res is Ok,
            simple_from(parsed_stmt@, 0, old(self).variables@.dom(), old(self).loop_exit_stack@.len() > 0) && res is Ok
                ==> final(self).loop_counter == old(self).loop_counter
                && (no_fn_decl(parsed_stmt@) ==> final(self).functions@ == old(self).functions@
                    && final(self).current_fn_ret_type == old(self).current_fn_ret_type),
            res is Ok ==> final(self).loop_counter >= old(self).loop_counter + loops_before_import(parsed_stmt@, parsed_stmt@.len() as int),
            (forall|i: int| 0 <= i < parsed_stmt@.len() ==> #[trigger] surely_ok(parsed_stmt@[i])) ==> res is Ok,
            parsed_stmt@.len() == 1 ==> exists|r: Result<Flow, String>| (r is Ok <==> res is Ok)
                && #[trigger] stmt_outcome(parsed_stmt@[0], *old(self), *final(self), r),
    {
        self.execute_stmts(&parsed_stmt, discovered_modules, parsers, scope, None, MAX_MODULE_DEPTH)
    }

    /// Generates the code of the statements, starting, where `jump_from` is given, with a
    /// jump from that block into the first `if`.
    pub fn execute_every_stmt_in_code(
        &mut self,
        parsed_stmt: Vec<Stmt>,
        discovered_modules: &mut Vec<String>,
        parsers: &GroupedParsers,
        scope: &mut Scope,
        jump_from: Option<BasicBlock<'ctx>>,
    ) -> (res: Result<(), String>)
        ensures
            final(self).keeps(old(self)),
            res is Ok ==> final(self).loop_exit_stack@ == old(self).loop_exit_stack@,
            res is Ok ==> forall|i: int| 0 <= i < parsed_stmt@.len() && no_import_before(parsed_stmt@, i)
                ==> leaves_behind(#[trigger] parsed_stmt@[i], *final(self)),
            (exists|i: int| 0 <= i < parsed_stmt@.len() && no_import_before(parsed_stmt@, i)
                && always_fails(#[trigger] parsed_stmt@[i], old(self).loop_exit_stack@.len() == 0)) ==> res is Err,
            parsed_stmt@.len() == 0 ==> res is Ok && *final(self) == *old(self),
            old(self).positioned@ && simple_from(parsed_stmt@, 0, old(self).variables@.dom(), old(self).loop_exit_stack@.len() > 0)
                ==> res is Ok,
            simple_from(parsed_stmt@, 0, old(self).variables@.dom(), old(self).loop_exit_stack@.len() > 0) && res is Ok
                ==> final(self).loop_counter == old(self).loop_counter
                && (no_fn_decl(parsed_stmt@) ==> final(self).functions@ == old(self).functions@
                    && final(self).current_fn_ret_type == old(self).current_fn_ret_type),
            res is Ok ==> final(self).loop_counter >= old(self).loop_counter + loops_before_import(parsed_stmt@, parsed_stmt@.len() as int),
            (forall|i: int| 0 <= i < parsed_stmt@.len() ==> #[trigger] surely_ok(parsed_stmt@[i])) ==> res is Ok,
            parsed_stmt@.len() == 1 ==> exists|r: Result<Flow, String>| (r is Ok <==> res is Ok)
                && #[trigger] stmt_outcome(parsed_stmt@[0], *old(self), *final(self), r),
    {
        self.execute_stmts(&parsed_stmt, discovered_modules, parsers, scope, jump_from, MAX_MODULE_DEPTH)
    }

    /// Lowers an expression to a value and its type; `None` for an expression without a
    /// value (a variable not declared, a call that returns nothing, a `printf`).
    pub fn lower_expr_to_llvm(
        &mut self,
        expr: &Expr,
        expected_type: Option<&Type>,
        discovered_modules: &mut Vec<String>,
        parsers: &GroupedParsers,
        scope: &mut Scope,
        jump_from: Option<BasicBlock<'ctx>>,
    ) -> (res: Result<Option<(BasicValueEnum<'ctx>, Type)>, String>)
        ensures
            final(self).keeps(old(self)),
            res is Ok ==> final(self).loop_exit_stack@ == old(self).loop_exit_stack@,
            *expr matches Expr::Literal(Value::Int(v)) ==> res matches Ok(Some((_, t))) && t == int_literal_type(expected_type)
                && final(self).emitted@ == old(self).emitted@.push(Emitted::IntConst { typ: t, value: v as int })
                && same_but_log(*old(self), *final(self)),
            *expr matches Expr::Literal(Value::Bool(b)) ==> res matches Ok(Some((_, t))) && t == Type::Bool
                && final(self).emitted@ == old(self).emitted@.push(Emitted::IntConst { typ: Type::Bool, value: if b { 1 } else { 0 } })
                && same_but_log(*old(self), *final(self)),
            *expr matches Expr::Literal(Value::Str(text)) ==> {
                &&& res is Ok ==> (res matches Ok(Some((_, t))) && t == Type::Str)
                &&& old(self).string_counter < usize::MAX ==> final(self).string_counter == old(self).string_counter + 1
                    && final(self).emitted@ == old(self).emitted@.push(Emitted::GlobalString {
                        name: numbered_name("str_"@, old(self).string_counter as nat), text: text@ })
                &&& old(self).string_counter == usize::MAX ==> res is Err
                &&& old(self).string_counter < usize::MAX && old(self).positioned@ ==> res is Ok
            },
            *expr matches Expr::Literal(Value::Float(text)) ==> {
                &&& *final(self) == *old(self)
                &&& res is Ok <==> exists|i: int| 0 <= i < old(self).float_constants@.len()
                    && #[trigger] old(self).float_constants@[i].text@ == text@
                    && old(self).float_constants@[i].typ == float_literal_type(expected_type)
                &&& res matches Ok(Some((c, t))) ==> t == float_literal_type(expected_type)
                    && exists|i: int| 0 <= i < old(self).float_constants@.len()
                        && #[trigger] old(self).float_constants@[i].text@ == text@
                        && old(self).float_constants@[i].typ == t && old(self).float_constants@[i].value == c
            },
            *expr matches Expr::Id(name) ==> (!old(self).variables@.contains_key(name@) ==> (res matches Ok(None))
                && *final(self) == *old(self)),
            *expr matches Expr::Id(name) ==> (res matches Ok(Some((_, t))) ==> t == old(self).var_types()[name@]),
            *expr matches Expr::Id(name) ==> (old(self).variables@.contains_key(name@) ==>
                (res is Ok ==> (res matches Ok(Some((_, t))) && t == old(self).var_types()[name@]))
                && (old(self).positioned@ ==> res is Ok)),
            *expr matches Expr::Id(name) ==> (old(self).variables@.contains_key(name@) ==>
                final(self).emitted@ == old(self).emitted@.push(Emitted::Load { name: name@ })
                && same_but_log(*old(self), *final(self))),
            *expr is Binary ==> (res matches Ok(Some((_, t))) ==> t == Type::Bool),
            *expr matches Expr::Binary { op, left, right } ==> (res matches Ok(Some(_)) ==>
                final(self).emitted@.last() == op_record(op)),
            undeclared_left(*expr, old(self).variables@) ==> (res matches Ok(None)) && *final(self) == *old(self),
            *expr matches Expr::FnCall { name, args } ==> (name@ == "printf"@ && res is Ok ==> res matches Ok(None)),
            *expr matches Expr::FnCall { name, args } ==> (name@ != "printf"@ ==> (res matches Ok(Some((_, t))) ==> t == Type::Void)),
            *expr matches Expr::FnCall { name, args } ==> (name@ != "printf"@ && res is Ok ==>
                final(self).emitted@.last() == Emitted::Call { callee: name@, args: args@.len() }),
            *expr matches Expr::Block { stmts, final_expr } ==> (final_expr is None && res is Ok ==> (res matches Ok(Some((_, t))) && t == Type::Void)),
            *expr matches Expr::Block { stmts, final_expr } ==> (old(self).positioned@
                && simple_from(stmts@, 0, old(self).variables@.dom(), old(self).loop_exit_stack@.len() > 0)
                && (final_expr is None || (final_expr matches Some(e) && valued_literal(*e))) ==> res is Ok),
            *expr matches Expr::Block { stmts, final_expr } ==> (res is Ok ==> forall|i: int| 0 <= i < stmts@.len()
                && no_import_before(stmts@, i) ==> leaves_behind(#[trigger] stmts@[i], *final(self))),
    {
        self.lower_expr(expr, expected_type, discovered_modules, parsers, scope, jump_from, MAX_MODULE_DEPTH)
    }

    /// The statements of a list, in order, up to an import of a module loaded before.
    pub fn execute_stmts(
        &mut self,
        stmts: &Vec<Stmt>,
        dm: &mut Vec<String>,
        parsers: &GroupedParsers,
        scope: &mut Scope,
        jump_from: Option<BasicBlock<'ctx>>,
        depth: usize,
    ) -> (res: Result<(), String>)
        ensures
            final(self).keeps(old(self)),
            res is Ok ==> final(self).loop_exit_stack@ == old(self).loop_exit_stack@,
            res is Ok ==> forall|i: int| 0 <= i < stmts@.len() && no_import_before(stmts@, i)
                ==> leaves_behind(#[trigger] stmts@[i], *final(self)),
            (exists|i: int| 0 <= i < stmts@.len() && no_import_before(stmts@, i)
                && always_fails(#[trigger] stmts@[i], old(self).loop_exit_stack@.len() == 0)) ==> res is Err,
            stmts@.len() == 0 ==> res is Ok && *final(self) == *old(self),
            old(self).positioned@ && simple_from(stmts@, 0, old(self).variables@.dom(), old(self).loop_exit_stack@.len() > 0)
                ==> res is Ok,
            simple_from(stmts@, 0, old(self).variables@.dom(), old(self).loop_exit_stack@.len() > 0) && res is Ok
                ==> final(self).loop_counter == old(self).loop_counter
                && (no_fn_decl(stmts@) ==> final(self).functions@ == old(self).functions@
                    && final(self).current_fn_ret_type == old(self).current_fn_ret_type),
            res is Ok ==> final(self).loop_counter >= old(self).loop_counter + loops_before_import(stmts@, stmts@.len() as int),
            (forall|i: int| 0 <= i < stmts@.len() ==> #[trigger] surely_ok(stmts@[i])) ==> res is Ok,
            stmts@.len() == 1 ==> exists|r: Result<Flow, String>| (r is Ok <==> res is Ok)
                && #[trigger] stmt_outcome(stmts@[0], *old(self), *final(self), r),
        decreases depth, stmts_size(stmts@) + 1,
    {
        let ghost no_loop = old(self).loop_exit_stack@.len() == 0;
        let ghost mut vars = old(self).variables@.dom();
        let mut i: usize = 0;
        while i < stmts.len()
            invariant
                i <= stmts@.len(),
                self.keeps(old(self)),
                self.loop_exit_stack@ == old(self).loop_exit_stack@,
                no_loop == (old(self).loop_exit_stack@.len() == 0),
                i == 0 ==> *self == *old(self),
                old(self).positioned@ ==> self.positioned@,
                simple_from(stmts@, 0, old(self).variables@.dom(), no_loop == false)
                    ==> simple_from(stmts@, i as int, vars, no_loop == false)
                        && (forall|k: Seq<char>| vars.contains(k) ==> #[trigger] self.variables@.contains_key(k))
                        && self.loop_counter == old(self).loop_counter
                        && (no_fn_decl(stmts@) ==> self.functions@ == old(self).functions@
                            && self.current_fn_ret_type == old(self).current_fn_ret_type),
                self.loop_counter >= old(self).loop_counter + loops_before_import(stmts@, i as int),
                stmts@.len() == 1 && i == 1 ==> stmt_outcome(stmts@[0], *old(self), *self, Ok::<Flow, String>(Flow::Next)),
                forall|k: int| 0 <= k < i && no_import_before(stmts@, k) ==> leaves_behind(#[trigger] stmts@[k], *self),
                forall|k: int| 0 <= k < i && no_import_before(stmts@, k) ==> !always_fails(#[trigger] stmts@[k], no_loop),
            decreases stmts@.len() - i,
        {
            proof {
                lemma_stmts_size(stmts@, i as int);
            }
            let ghost before = *self;
            proof {
                if simple_from(stmts@, 0, old(self).variables@.dom(), no_loop == false) {
                    assert(simple_stmt(stmts@[i as int], vars, no_loop == false));
                    lemma_simple_wider(stmts@[i as int], vars, self.variables@.dom(), no_loop == false);
                }
            }
            let step = self.execute_stmt(&stmts[i], dm, parsers, scope, jump_from, depth);
            let flow = match step {
                Ok(f) => f,
                Err(e) => {
                    assert(!surely_ok(stmts@[i as int]));
                    assert(i == 0 ==> stmt_outcome(stmts@[0], *old(self), *self, Err::<Flow, String>(e)));
                    return Err(e);
                },
            };
            proof {
                assert forall|k: int| 0 <= k < i && no_import_before(stmts@, k) implies leaves_behind(
                    #[trigger] stmts@[k], *self) by {
                    lemma_leaves_behind_kept(stmts@[k], before, *self);
                }
                assert(leaves_behind(stmts@[i as int], *self));
                assert(!always_fails(stmts@[i as int], no_loop));
            }
            proof {
                vars = vars_after(stmts@[i as int], vars);
            }
            if flow == Flow::Stop {
                proof {
                    assert(i == 0 ==> stmt_outcome(stmts@[0], *old(self), *self, Ok::<Flow, String>(Flow::Stop)));
                    assert(stmts@[i as int] is Import);
                    lemma_loops_after_import(stmts@, i as int, stmts@.len() as int);
                    assert forall|k: int| i < k < stmts@.len() implies !no_import_before(stmts@, k) by {
                        assert(stmts@[i as int] is Import);
                    }
                }
                return Ok(());
            }
            i = i + 1;
        }
        Ok(())
    }

    /// One statement.
    pub fn execute_stmt(
        &mut self,
        stmt: &Stmt,
        dm: &mut Vec<String>,
        parsers: &GroupedParsers,
        scope: &mut Scope,
        jump_from: Option<BasicBlock<'ctx>>,
        depth: usize,
    ) -> (res: Result<Flow, String>)
        ensures
            final(self).keeps(old(self)),
            res is Ok ==> final(self).loop_exit_stack@ == old(self).loop_exit_stack@,
            stmt_outcome(*stmt, *old(self), *final(self), res),
            *stmt matches Stmt::Import { path, nickname, is_glob } && path@.len() > 0
                && old(self).loaded_modules@.contains_key(path@[0]@) ==> final(dm)@ == old(dm)@,
        decreases depth, stmt_size(*stmt),
    {
        match stmt {
            Stmt::VarDecl { name, typ, value } => {
                let parsed_type = infer_decl_type(typ, value, &self.functions)?;
                proof {
                    self.emitted@ = self.emitted@.push(Emitted::Slot { name: name@, typ: parsed_type });
                }
                let llvm_type = match parsed_type.to_llvm_type(self.context) {
                    Some(t) => t,
                    None => int_type_basic(i64_type(self.context)),
                };
                let alloca = match build_alloca(self, llvm_type, name.as_str()) {
                    Some(p) => p,
                    None => {
                        return halt("could not build the variable's stack slot");
                    },
                };
                match value {
                    Some(expr) => {
                        let lowered = self.lower_expr(expr, Some(&parsed_type), dm, parsers, scope, None, depth)?;
                        let val = match lowered {
                            Some((v, _)) => v,
                            None => self.default_value(&parsed_type)?,
                        };
                        if !build_store(self, alloca, val) {
                            return halt("could not build the store of the variable's value");
                        }
                    },
                    None => {},
                }
                self.variables.insert(name.clone(), VariableInfo { ptr_value: alloca, var_type: parsed_type });
                Ok(Flow::Next)
            },
            Stmt::Assign { name, value } => {
                let var_ptr = match self.variables.get(name) {
                    Some(info) => info.ptr_value,
                    None => {
                        return halt("variable not found");
                    },
                };
                let lowered = self.lower_expr(value, None, dm, parsers, scope, None, depth)?;
                let llvm_value = match lowered {
                    Some((v, _)) => v,
                    None => {
                        return halt("tried to lower an invalid expression into LLVM IR");
                    },
                };
                if !build_store(self, var_ptr, llvm_value) {
                    return halt("could not build the store of the assigned value");
                }
                Ok(Flow::Next)
            },
            Stmt::FnCall { .. } => Ok(Flow::Next),
            Stmt::FnDecl { name, args, body, attributes, ret_type, is_extern } => {
                self.function_decl(stmt, name, args, body, attributes, ret_type, *is_extern, dm, parsers, scope, depth)?;
                Ok(Flow::Next)
            },
            Stmt::Import { path, .. } => self.import_module(path, dm, parsers, scope, depth),
            Stmt::Loop { body } => {
                self.loop_stmt(body, dm, parsers, scope, depth)?;
                Ok(Flow::Next)
            },
            Stmt::Break => {
                let target = match self.loop_exit_stack.last() {
                    Some(t) => *t,
                    None => {
                        return halt("Break outside of loop");
                    },
                };
                if !build_branch(self, target) {
                    return halt("could not build the jump out of the loop");
                }
                Ok(Flow::Next)
            },
            Stmt::Expr(e) => {
                let _ = self.lower_expr(e, None, dm, parsers, scope, jump_from, depth)?;
                Ok(Flow::Next)
            },
            Stmt::Block(stmts) => {
                self.execute_stmts(stmts, dm, parsers, scope, None, depth)?;
                Ok(Flow::Next)
            },
            Stmt::Return(e) => {
                self.return_stmt(e, dm, parsers, scope, depth)?;
                Ok(Flow::Next)
            },
        }
    }
}

impl<'ctx> CodeGen<'ctx> {
    /// The value a variable of type `t` starts with where its value has none: zero for
    /// the integer types.
    pub fn default_value(&self, t: &Type) -> (res: Result<BasicValueEnum<'ctx>, String>)
        ensures
            (t is I8 || t is I16 || t is I32 || t is I64 || t is I128 || t is Bool) ==> res is Ok,
    {
        match t {
            Type::I8 => Ok(int_value_basic(const_zero(i8_type(self.context)))),
            Type::I16 => Ok(int_value_basic(const_zero(i16_type(self.context)))),
            Type::I32 => Ok(int_value_basic(const_zero(i32_type(self.context)))),
            Type::I64 => Ok(int_value_basic(const_zero(i64_type(self.context)))),
            Type::I128 => Ok(int_value_basic(const_zero(i128_type(self.context)))),
            Type::Bool => Ok(int_value_basic(const_zero(bool_type(self.context)))),
            _ => halt("failed to lower expr: no default value for its type"),
        }
    }

    /// A function declaration: the function is added to the module and recorded; the
    /// body of one that is not `extern` is generated in a new entry block, its
    /// parameters stored in variables of their names.
    pub fn function_decl(
        &mut self,
        stmt: &Stmt,
        name: &String,
        args: &Vec<TypedArg>,
        body: &Vec<Stmt>,
        attributes: &Vec<crate::ast::Attribute>,
        ret_type: &Type,
        is_extern: bool,
        dm: &mut Vec<String>,
        parsers: &GroupedParsers,
        scope: &mut Scope,
        depth: usize,
    ) -> (res: Result<(), String>)
        ensures
            final(self).keeps(old(self)),
            res is Ok ==> final(self).loop_exit_stack@ == old(self).loop_exit_stack@,
            !params_ok(args@.map_values(|a: TypedArg| a.typ)) ==> res is Err,
            !(*ret_type == Type::Void || has_llvm_type(*ret_type)) ==> res is Err,
            res is Ok ==> final(self).functions@.contains_key(name@),
            res is Ok && is_extern ==> final(self).functions@[name@].ret_type == *ret_type
                && final(self).functions@[name@].is_extern,
            params_ok(args@.map_values(|a: TypedArg| a.typ)) && (*ret_type == Type::Void || has_llvm_type(*ret_type))
                ==> final(self).functions@.contains_key(name@) && function_made(*old(self), *final(self), name@,
                    args@.map_values(|a: TypedArg| a.typ), *ret_type, is_extern),
            params_ok(args@.map_values(|a: TypedArg| a.typ)) && (*ret_type == Type::Void || has_llvm_type(*ret_type))
                && is_extern ==> res is Ok && extern_recorded(*old(self), *final(self), name@, *ret_type, targs_m(args@)),
            res is Ok && !is_extern && *ret_type == Type::Void ==> final(self).emitted@.last() == (Emitted::Return { typ: Type::Void }),
            plain_definition(*old(self), args@, attributes@, body@, *ret_type, is_extern) ==> res is Ok,
            plain_definition(*old(self), args@, attributes@, body@, *ret_type, is_extern) && no_fn_decl(body@) ==>
                definition_recorded(*final(self), name@, *ret_type, targs_m(args@)),
            res is Ok && !is_extern ==> forall|i: int| 0 <= i < body@.len() && no_import_before(body@, i)
                ==> leaves_behind(#[trigger] body@[i], *final(self)),
        decreases depth, stmts_size(body@) + 2,
    {
        let ghost types = args@.map_values(|a: TypedArg| a.typ);
        let mut arg_types: Vec<BasicTypeEnum<'ctx>> = Vec::new();
        let mut i: usize = 0;
        while i < args.len()
            invariant
                i <= args@.len(),
                types == args@.map_values(|a: TypedArg| a.typ),
                forall|j: int| 0 <= j < i ==> #[trigger] param_type_ok(types[j]),
            decreases args@.len() - i,
        {
            match param_llvm_type(self.context, &args[i].typ) {
                Some(t) => arg_types.push(t),
                None => {
                    assert(!param_type_ok(types[i as int]));
                    return halt("Unknown type");
                },
            }
            i = i + 1;
        }
        assert(params_ok(types));
        let fty = if ret_type.is_void() {
            void_fn_type(self.context, &arg_types, false)
        } else {
            match ret_type.to_llvm_type(self.context) {
                Some(rt) => fn_type(rt, &arg_types, false),
                None => {
                    return halt("failed to lower return type to LLVM IR type");
                },
            }
        };
        proof {
            self.emitted@ = self.emitted@.push(Emitted::Function { name: name@, params: types, ret: *ret_type, variadic: false });
        }
        let function = add_function(&self.module, name.as_str(), fty, true);
        self.functions.insert(name.clone(), FunctionInfo { ret_type: ret_type.copied(), args: copy_targs(args), is_extern });
        proof {
            lemma_targs_len(args@);
            assert(targs_m(args@).map_values(|a: TypedArgM| a.typ) =~= types);
        }
        if is_extern {
            return Ok(());
        }
        let entry = append_basic_block(self.context, function, "entry");
        proof {
            self.emitted@ = self.emitted@.push(Emitted::Block { name: "entry"@ });
        }
        let ghost made = *self;
        position_at_end(self, entry);
        self.current_fn_ret_type = ret_type.copied();
        self.attr_registry.register_all();
        self.load_attributes(attributes, stmt)?;
        let mut k: usize = 0;
        while k < args.len()
            invariant
                k <= args@.len(),
                self.keeps(old(self)),
                self.loop_exit_stack@ == old(self).loop_exit_stack@,
                self.functions@.contains_key(name@),
                !is_extern,
                function_made(*old(self), *self, name@, types, *ret_type, is_extern),
                types == args@.map_values(|a: TypedArg| a.typ),
                self.positioned@,
                args@.len() == 0 ==> self.variables@ == old(self).variables@,
                self.loop_exit_stack@ == old(self).loop_exit_stack@,
                attributes@.len() == 0 ==> self.functions@[name@].ret_type == *ret_type
                    && targs_m(self.functions@[name@].args@) == targs_m(args@)
                    && !self.functions@[name@].is_extern
                    && self.current_fn_ret_type == *ret_type,
            decreases args@.len() - k,
        {
            if k >= 4294967295usize {
                return halt("too many parameters");
            }
            let llvm_arg = match nth_param(function, k as u32) {
                Some(p) => p,
                None => {
                    return halt("called `Option::unwrap()` on a `None` value");
                },
            };
            let pointee = value_type(llvm_arg);
            let var_type = match Type::from_llvm_type(pointee) {
                Some(t) => t,
                None => Type::Unknown,
            };
            let alloca = match build_alloca(self, pointee, args[k].name.as_str()) {
                Some(p) => p,
                None => {
                    return halt("could not build the parameter's stack slot");
                },
            };
            if !build_store(self, alloca, llvm_arg) {
                return halt("could not build the store of the parameter");
            }
            self.variables.insert(args[k].name.clone(), VariableInfo { ptr_value: alloca, var_type });
            k = k + 1;
        }
        self.execute_stmts(body, dm, parsers, scope, Some(entry), depth)?;
        if ret_type.is_void() {
            proof {
                self.emitted@ = self.emitted@.push(Emitted::Return { typ: Type::Void });
            }
            if !build_return(self, None) {
                return halt("could not build the return");
            }
        }
        Ok(())
    }

    /// An import: the module's file is read from the module files, parsed, recorded as
    /// loaded under the first part of its path, and generated one module deeper. An
    /// import of a module loaded before stops the list it stands in.
    pub fn import_module(
        &mut self,
        path: &Vec<String>,
        dm: &mut Vec<String>,
        parsers: &GroupedParsers,
        scope: &mut Scope,
        depth: usize,
    ) -> (res: Result<Flow, String>)
        ensures
            final(self).keeps(old(self)),
            res is Ok ==> final(self).loop_exit_stack@ == old(self).loop_exit_stack@,
            path@.len() == 0 ==> res is Err,
            path@.len() > 0 && old(self).loaded_modules@.contains_key(path@[0]@) ==> res == Ok::<Flow, String>(Flow::Stop)
                && *final(self) == *old(self) && final(dm)@ == old(dm)@,
            path@.len() > 0 && res is Ok ==> final(self).loaded_modules@.contains_key(path@[0]@),
        decreases depth, 0nat,
    {
        if path.len() == 0 {
            return halt("index out of bounds: the len is 0 but the index is 0");
        }
        let modname = path[0].clone();
        if self.loaded_modules.contains_key(&modname) {
            return Ok(Flow::Stop);
        }
        let file = module_file_of(path);
        let code = match self.module_files.get(&file) {
            Some(c) => c.clone(),
            None => {
                return halt("Failed to load module");
            },
        };
        let tokens = match try_tokenize(code.as_str()) {
            Some(t) => t,
            None => {
                return halt("Unexpected character in module");
            },
        };
        if tokens.len() == usize::MAX {
            return halt("module too long");
        }
        let mut pos: usize = 0;
        let acc: Vec<Stmt> = Vec::new();
        let stmts = match program_core(tokens.as_slice(), &mut pos, dm, scope, acc) {
            Ok(v) => v,
            Err(_) => {
                return halt("Failed to parse stmt");
            },
        };
        self.loaded_modules.insert(modname, copy_stmts(&stmts));
        if depth == 0 {
            return halt("modules nested too deeply");
        }
        self.execute_stmts(&stmts, dm, parsers, scope, None, depth - 1)?;
        Ok(Flow::Next)
    }

    /// A loop: a block `loop_N` that jumps back to itself, left by `break` for the block
    /// `after_loop_N`, where generation goes on.
    pub fn loop_stmt(
        &mut self,
        body: &Vec<Stmt>,
        dm: &mut Vec<String>,
        parsers: &GroupedParsers,
        scope: &mut Scope,
        depth: usize,
    ) -> (res: Result<(), String>)
        ensures
            final(self).keeps(old(self)),
            res is Ok ==> final(self).loop_exit_stack@ == old(self).loop_exit_stack@,
            res is Ok ==> final(self).loop_counter > old(self).loop_counter,
            old(self).loop_counter == usize::MAX ==> res is Err,
            res is Ok && simple_from(body@, 0, old(self).variables@.dom(), true)
                ==> final(self).loop_counter == old(self).loop_counter + 1,
            res is Ok ==> old(self).emitted@.len() + 1 < final(self).emitted@.len()
                && final(self).emitted@[old(self).emitted@.len() as int]
                    == (Emitted::Block { name: numbered_name("loop_"@, old(self).loop_counter as nat) })
                && final(self).emitted@[old(self).emitted@.len() + 1int]
                    == (Emitted::Block { name: numbered_name("after_loop_"@, old(self).loop_counter as nat) }),
        decreases depth, stmts_size(body@) + 2,
    {
        let current = match insert_block(&self.builder) {
            Some(b) => b,
            None => {
                return halt("Not inside a block");
            },
        };
        let function = match block_parent(current) {
            Some(f) => f,
            None => {
                return halt("Block has no parent function");
            },
        };
        let loop_name = numbered("loop_", self.loop_counter);
        let after_name = numbered("after_loop_", self.loop_counter);
        let loop_bb = append_basic_block(self.context, function, loop_name.as_str());
        let after_bb = append_basic_block(self.context, function, after_name.as_str());
        proof {
            self.emitted@ = self.emitted@.push(Emitted::Block { name: loop_name@ }).push(Emitted::Block { name: after_name@ });
        }
        if self.loop_counter == usize::MAX {
            return halt("too many loops");
        }
        self.loop_counter = self.loop_counter + 1;
        self.loop_exit_stack.push(after_bb);
        if !build_branch(self, loop_bb) {
            return halt("could not build the jump into the loop");
        }
        position_at_end(self, loop_bb);
        self.execute_stmts(body, dm, parsers, scope, None, depth)?;
        let open_end = match insert_block(&self.builder) {
            Some(bb) => !block_is_terminated(bb),
            None => true,
        };
        if open_end {
            if !build_branch(self, loop_bb) {
                return halt("could not build the jump back to the loop's start");
            }
        }
        self.loop_exit_stack.pop();
        position_at_end(self, after_bb);
        Ok(())
    }

    /// `return value;`, the value brought to the function's return type.
    pub fn return_stmt(
        &mut self,
        e: &Option<Expr>,
        dm: &mut Vec<String>,
        parsers: &GroupedParsers,
        scope: &mut Scope,
        depth: usize,
    ) -> (res: Result<(), String>)
        ensures
            final(self).keeps(old(self)),
            res is Ok ==> final(self).loop_exit_stack@ == old(self).loop_exit_stack@,
            e is None ==> res is Err,
            !returnable(old(self).current_fn_ret_type) ==> res is Err,
            res is Ok ==> final(self).emitted@.last() == (Emitted::Return { typ: old(self).current_fn_ret_type }),
        decreases depth, 1 + match *e { Some(x) => expr_size(x), None => 0 },
    {
        let ret_type = self.current_fn_ret_type.copied();
        let expr = match e {
            Some(x) => x,
            None => {
                return halt("called `Option::unwrap()` on a `None` value");
            },
        };
        let lowered = self.lower_expr(expr, Some(&ret_type), dm, parsers, scope, None, depth)?;
        let raw = match lowered {
            Some((v, _)) => v,
            None => {
                return halt("called `Option::unwrap()` on a `None` value");
            },
        };
        let final_val = match ret_type {
            Type::I32 => {
                let v = match as_int_value(raw) {
                    Some(v) => v,
                    None => {
                        return halt("Expected an `IntValue` for return type `i32`");
                    },
                };
                let t = i32_type(self.context);
                let v = if !int_has_type(v, t) {
                    match build_int_cast(self, v, t, "ret_cast") {
                        Some(c) => c,
                        None => {
                            return halt("could not build the cast of the returned value");
                        },
                    }
                } else {
                    v
                };
                int_value_basic(v)
            },
            Type::I64 => {
                let v = match as_int_value(raw) {
                    Some(v) => v,
                    None => {
                        return halt("Found a value that is not an IntValue");
                    },
                };
                let t = i64_type(self.context);
                let v = if !int_has_type(v, t) {
                    match build_int_cast(self, v, t, "ret_cast") {
                        Some(c) => c,
                        None => {
                            return halt("could not build the cast of the returned value");
                        },
                    }
                } else {
                    v
                };
                int_value_basic(v)
            },
            Type::F32 => {
                let v = match as_float_value(raw) {
                    Some(v) => v,
                    None => {
                        return halt("Found a value that is not a FloatValue");
                    },
                };
                let t = f32_type(self.context);
                let v = if !float_has_type(v, t) {
                    match build_float_cast(self, v, t, "ret_cast") {
                        Some(c) => c,
                        None => {
                            return halt("could not build the cast of the returned value");
                        },
                    }
                } else {
                    v
                };
                float_value_basic(v)
            },
            Type::F64 => {
                let v = match as_float_value(raw) {
                    Some(v) => v,
                    None => {
                        return halt("Found a value that is not a FloatValue");
                    },
                };
                let t = f64_type(self.context);
                let v = if !float_has_type(v, t) {
                    match build_float_cast(self, v, t, "ret_cast") {
                        Some(c) => c,
                        None => {
                            return halt("could not build the cast of the returned value");
                        },
                    }
                } else {
                    v
                };
                float_value_basic(v)
            },
            Type::Void => {
                return halt("Tried to return a value from a function that returns void");
            },
            _ => {
                return halt("Unsupported return type");
            },
        };
        proof {
            self.emitted@ = self.emitted@.push(Emitted::Return { typ: ret_type });
        }
        if !build_return(self, Some(final_val)) {
            return halt("could not build the return");
        }
        Ok(())
    }
}

/// Whether `e` records a call of `printf` for `n` arguments: the format, each argument's
/// value, and once more those that have one.
pub open spec fn printf_call_made(e: Emitted, n: nat) -> bool {
    e matches Emitted::Call { callee, args } && callee == "printf"@ && n + 1 <= args <= 2 * n + 1
}

/// Whether a list of statements declares a function of this name.
pub open spec fn declares_fn(stmts: Seq<Stmt>, name: Seq<char>) -> bool {
    exists|k: int| 0 <= k < stmts.len() && (#[trigger] stmts[k] matches Stmt::FnDecl { name: n, .. } && n@ == name)
}

/// Whether the log holds, from position `k` on, one conditional branch: the condition
/// compared with zero, the blocks `then_`, `else_` and `merge_` named with `suffix`, in
/// that order, and the branch on the comparison into the first two.
pub open spec fn branch_blocks_made(log: Seq<Emitted>, k: int, suffix: Seq<char>) -> bool {
    &&& 0 <= k && k + 4 < log.len()
    &&& log[k] == (Emitted::Comparison { pred: Compare::Ne })
    &&& log[k + 1] == (Emitted::Block { name: "then_"@ + suffix })
    &&& log[k + 2] == (Emitted::Block { name: "else_"@ + suffix })
    &&& log[k + 3] == (Emitted::Block { name: "merge_"@ + suffix })
    &&& log[k + 4] == (Emitted::CondJump { then_block: "then_"@ + suffix, else_block: "else_"@ + suffix })
}

/// `prefix` followed by `suffix`.
pub fn suffixed(prefix: &str, suffix: &str) -> (res: String)
    ensures
        res@ == prefix@ + suffix@,
{
    let mut s = String::from_str(prefix);
    s.append(suffix);
    s
}

/// Whether an expression is an operator whose left operand is a variable not declared.
pub open spec fn undeclared_left<'ctx>(e: Expr, vars: Map<Seq<char>, VariableInfo<'ctx>>) -> bool {
    match e {
        Expr::Binary { left, .. } => match *left {
            Expr::Id(n) => !vars.contains_key(n@),
            _ => false,
        },
        _ => false,
    }
}

/// Whether an expression is an integer literal.
pub open spec fn int_literal(e: Expr) -> bool {
    e matches Expr::Literal(Value::Int(_))
}

/// Whether `e` records the format of a `printf` of `args` under `name`: the conversions of
/// some argument types, an integer literal's being the integer type it is lowered to.
pub open spec fn format_logged(e: Emitted, name: Seq<char>, args: Seq<Expr>, expected_type: Option<&Type>) -> bool {
    exists|ts: Seq<Type>| #![trigger printf_format_text(ts)]
        ts.len() == args.len()
        && (forall|i: int| 0 <= i < args.len() && #[trigger] int_literal(args[i]) ==> ts[i] == int_literal_type(expected_type))
        && printf_format_text(ts) is Some
        && e == (Emitted::GlobalString { name, text: printf_format_text(ts).unwrap() })
}

/// Whether an expression is an argument that `printf` cannot take: a boolean literal
/// (no conversion prints a `bool`) or a call of `printf` itself (which has no value).
pub open spec fn unprintable(e: Expr) -> bool {
    e matches Expr::Literal(Value::Bool(_)) || (e matches Expr::FnCall { name, args } && name@ == "printf"@)
}

/// Whether an expression is an integer or boolean literal, which always lowers to a value.
pub open spec fn valued_literal(e: Expr) -> bool {
    e matches Expr::Literal(Value::Int(_)) || e matches Expr::Literal(Value::Bool(_))
}

/// The size of an `else` arm.
pub open spec fn else_size(e: Option<Vec<Expr>>) -> nat {
    match e {
        Some(v) => exprs_size(v@),
        None => 0,
    }
}

impl<'ctx> CodeGen<'ctx> {
    /// Lowers an expression to a value and its type; `None` for an expression without a
    /// value. An integer literal takes the integer type expected, `i64` otherwise; a
    /// variable is loaded and has its declared type; an operator has type `bool`.
    pub fn lower_expr(
        &mut self,
        expr: &Expr,
        expected_type: Option<&Type>,
        dm: &mut Vec<String>,
        parsers: &GroupedParsers,
        scope: &mut Scope,
        jump_from: Option<BasicBlock<'ctx>>,
        depth: usize,
    ) -> (res: Result<Option<(BasicValueEnum<'ctx>, Type)>, String>)
        ensures
            final(self).keeps(old(self)),
            res is Ok ==> final(self).loop_exit_stack@ == old(self).loop_exit_stack@,
            *expr matches Expr::Literal(Value::Int(v)) ==> res matches Ok(Some((_, t))) && t == int_literal_type(expected_type)
                && final(self).emitted@ == old(self).emitted@.push(Emitted::IntConst { typ: t, value: v as int })
                && same_but_log(*old(self), *final(self)),
            *expr matches Expr::Literal(Value::Bool(b)) ==> res matches Ok(Some((_, t))) && t == Type::Bool
                && final(self).emitted@ == old(self).emitted@.push(Emitted::IntConst { typ: Type::Bool, value: if b { 1 } else { 0 } })
                && same_but_log(*old(self), *final(self)),
            *expr matches Expr::Literal(Value::Str(text)) ==> {
                &&& res is Ok ==> (res matches Ok(Some((_, t))) && t == Type::Str)
                &&& old(self).string_counter < usize::MAX ==> final(self).string_counter == old(self).string_counter + 1
                    && final(self).emitted@ == old(self).emitted@.push(Emitted::GlobalString {
                        name: numbered_name("str_"@, old(self).string_counter as nat), text: text@ })
                &&& old(self).string_counter == usize::MAX ==> res is Err
                &&& old(self).string_counter < usize::MAX && old(self).positioned@ ==> res is Ok
            },
            *expr matches Expr::Literal(Value::Float(text)) ==> {
                &&& *final(self) == *old(self)
                &&& res is Ok <==> exists|i: int| 0 <= i < old(self).float_constants@.len()
                    && #[trigger] old(self).float_constants@[i].text@ == text@
                    && old(self).float_constants@[i].typ == float_literal_type(expected_type)
                &&& res matches Ok(Some((c, t))) ==> t == float_literal_type(expected_type)
                    && exists|i: int| 0 <= i < old(self).float_constants@.len()
                        && #[trigger] old(self).float_constants@[i].text@ == text@
                        && old(self).float_constants@[i].typ == t && old(self).float_constants@[i].value == c
            },
            *expr matches Expr::Id(name) ==> (!old(self).variables@.contains_key(name@) ==> (res matches Ok(None))
                && *final(self) == *old(self)),
            *expr matches Expr::Id(name) ==> (res matches Ok(Some((_, t))) ==> t == old(self).var_types()[name@]),
            *expr matches Expr::Id(name) ==> (old(self).variables@.contains_key(name@) ==>
                (res is Ok ==> (res matches Ok(Some((_, t))) && t == old(self).var_types()[name@]))
                && (old(self).positioned@ ==> res is Ok)),
            *expr matches Expr::Id(name) ==> (old(self).variables@.contains_key(name@) ==>
                final(self).emitted@ == old(self).emitted@.push(Emitted::Load { name: name@ })
                && same_but_log(*old(self), *final(self))),
            *expr is Binary ==> (res matches Ok(Some((_, t))) ==> t == Type::Bool),
            *expr matches Expr::Binary { op, left, right } ==> (res matches Ok(Some(_)) ==>
                final(self).emitted@.last() == op_record(op)),
            undeclared_left(*expr, old(self).variables@) ==> (res matches Ok(None)) && *final(self) == *old(self),
            *expr matches Expr::FnCall { name, args } ==> (name@ == "printf"@ && res is Ok ==> res matches Ok(None)),
            *expr matches Expr::FnCall { name, args } ==> (name@ != "printf"@ ==> (res matches Ok(Some((_, t))) ==> t == Type::Void)),
            *expr matches Expr::FnCall { name, args } ==> (name@ != "printf"@ && res is Ok ==>
                final(self).emitted@.last() == Emitted::Call { callee: name@, args: args@.len() }),
            *expr matches Expr::Block { stmts, final_expr } ==> (final_expr is None && res is Ok ==> (res matches Ok(Some((_, t))) && t == Type::Void)),
            *expr matches Expr::Block { stmts, final_expr } ==> (old(self).positioned@
                && simple_from(stmts@, 0, old(self).variables@.dom(), old(self).loop_exit_stack@.len() > 0)
                && (final_expr is None || (final_expr matches Some(e) && valued_literal(*e))) ==> res is Ok),
            *expr matches Expr::Block { stmts, final_expr } ==> (res is Ok ==> forall|i: int| 0 <= i < stmts@.len()
                && no_import_before(stmts@, i) ==> leaves_behind(#[trigger] stmts@[i], *final(self))),
        decreases depth, expr_size(*expr),
    {
        match expr {
            Expr::Literal(value) => match value {
                Value::Int(v) => {
                    let (it, ty) = match expected_type {
                        Some(Type::I8) => (i8_type(self.context), Type::I8),
                        Some(Type::I16) => (i16_type(self.context), Type::I16),
                        Some(Type::I32) => (i32_type(self.context), Type::I32),
                        Some(Type::I128) => (i128_type(self.context), Type::I128),
                        _ => (i64_type(self.context), Type::I64),
                    };
                    proof {
                        self.emitted@ = self.emitted@.push(Emitted::IntConst { typ: ty, value: *v as int });
                    }
                    Ok(Some((int_value_basic(const_int(it, *v as u64, true)), ty)))
                },
                Value::Float(text) => {
                    let ty = match expected_type {
                        Some(Type::F16) => Type::F16,
                        Some(Type::F32) => Type::F32,
                        Some(Type::F128) => Type::F128,
                        _ => Type::F64,
                    };
                    match self.float_constant(text, &ty) {
                        Some(v) => Ok(Some((v, ty))),
                        None => halt("no float constant was made for this literal"),
                    }
                },
                Value::Bool(b) => {
                    let bit: u64 = if *b { 1 } else { 0 };
                    proof {
                        self.emitted@ = self.emitted@.push(Emitted::IntConst { typ: Type::Bool, value: bit as int });
                    }
                    Ok(Some((int_value_basic(const_int(bool_type(self.context), bit, false)), Type::Bool)))
                },
                Value::Str(text) => {
                    let v = self.lower_string(text.as_str())?;
                    Ok(Some((v, Type::Str)))
                },
            },
            Expr::Id(name) => {
                let (ptr, ty) = match self.variables.get(name) {
                    Some(info) => (info.ptr_value, info.var_type.copied()),
                    None => {
                        return Ok(None);
                    },
                };
                proof {
                    self.emitted@ = self.emitted@.push(Emitted::Load { name: name@ });
                }
                let mut load_name = String::from_str("load_");
                load_name.append(name.as_str());
                match build_load(self, ptr, load_name.as_str()) {
                    Some(v) => Ok(Some((v, ty))),
                    None => halt("could not build the load of a variable"),
                }
            },
            Expr::Binary { op, left, right } => {
                let l = match self.lower_expr(&**left, Some(&Type::I32), dm, parsers, scope, None, depth)? {
                    Some(x) => x,
                    None => {
                        return Ok(None);
                    },
                };
                let r = match self.lower_expr(&**right, Some(&Type::I32), dm, parsers, scope, None, depth)? {
                    Some(x) => x,
                    None => {
                        return Ok(None);
                    },
                };
                let v = self.binary_value(*op, l.0, r.0)?;
                Ok(Some((v, Type::Bool)))
            },
            Expr::FnCall { name, args } => {
                if str_is(name.as_str(), "printf") {
                    self.printf(args, expected_type, dm, parsers, scope, depth)?;
                    return Ok(None);
                }
                let function = if has_separator(name.as_str()) {
                    self.get_or_compile_function(name, dm, parsers, scope, depth)?
                } else {
                    get_function(&self.module, name.as_str())
                };
                let function = match function {
                    Some(f) => f,
                    None => {
                        return halt("Couldnt find function named");
                    },
                };
                let mut compiled: Vec<BasicValueEnum<'ctx>> = Vec::new();
                let mut i: usize = 0;
                while i < args.len()
                    invariant
                        i <= args@.len(),
                        exprs_size(args@) < expr_size(*expr),
                        !undeclared_left(*expr, old(self).variables@),
                        *expr is FnCall,
                        self.keeps(old(self)),
                        self.loop_exit_stack@ == old(self).loop_exit_stack@,
                        compiled@.len() == i,
                    decreases args@.len() - i,
                {
                    proof {
                        lemma_exprs_size(args@, i as int);
                    }
                    match self.lower_expr(&args[i], expected_type, dm, parsers, scope, None, depth)? {
                        Some((v, _)) => compiled.push(v),
                        None => {
                            return halt("Failed to compile argument in call to function");
                        },
                    }
                    i = i + 1;
                }
                proof {
                    self.emitted@ = self.emitted@.push(Emitted::Call { callee: name@, args: compiled@.len() });
                }
                match build_call(self, function, &compiled, name.as_str()) {
                    None => halt("could not build the call"),
                    Some(None) => Ok(None),
                    Some(Some(v)) => Ok(Some((v, Type::Void))),
                }
            },
            Expr::If { branches, else_body } => {
                self.lower_if(branches, else_body, expected_type, dm, parsers, scope, jump_from, depth)
            },
            Expr::Block { stmts, final_expr } => {
                self.execute_stmts(stmts, dm, parsers, scope, None, depth)?;
                match final_expr {
                    Some(e) => {
                        let ghost mid = *self;
                        let r = self.lower_expr(&**e, expected_type, dm, parsers, scope, None, depth);
                        proof {
                            assert forall|i: int| 0 <= i < stmts@.len() && no_import_before(stmts@, i) implies
                                leaves_behind(#[trigger] stmts@[i], *self) by {
                                lemma_leaves_behind_kept(stmts@[i], mid, *self);
                            }
                        }
                        r
                    },
                    None => Ok(Some((int_value_basic(const_zero(i32_type(self.context))), Type::Void))),
                }
            },
        }
    }

    /// The value of an operator applied to two integer values: the comparisons compare
    /// as signed integers, the narrower operand widened first; the arithmetic is
    /// integer arithmetic, division signed.
    pub fn binary_value(&mut self, op: BinOp, l: BasicValueEnum<'ctx>, r: BasicValueEnum<'ctx>)
        -> (res: Result<BasicValueEnum<'ctx>, String>)
        ensures
            final(self).keeps(old(self)),
            same_parts(*old(self), *final(self)),
            final(self).positioned == old(self).positioned,
            res is Ok ==> final(self).emitted@.last() == op_record(op),
            res is Ok && predicate_of(op) is None ==> final(self).emitted@ == old(self).emitted@.push(op_record(op)),
    {
        let li = match as_int_value(l) {
            Some(v) => v,
            None => {
                return halt("expected an integer operand");
            },
        };
        let ri = match as_int_value(r) {
            Some(v) => v,
            None => {
                return halt("expected an integer operand");
            },
        };
        let pred = match op {
            BinOp::Add => {
                return match build_int_add(self, li, ri, "addtmp") {
                    Some(v) => Ok(int_value_basic(v)),
                    None => halt("could not build the addition"),
                };
            },
            BinOp::Sub => {
                return match build_int_sub(self, li, ri, "subtmp") {
                    Some(v) => Ok(int_value_basic(v)),
                    None => halt("could not build the subtraction"),
                };
            },
            BinOp::Mul => {
                return match build_int_mul(self, li, ri, "multmp") {
                    Some(v) => Ok(int_value_basic(v)),
                    None => halt("could not build the multiplication"),
                };
            },
            BinOp::Div => {
                return match build_int_signed_div(self, li, ri, "divtmp") {
                    Some(v) => Ok(int_value_basic(v)),
                    None => halt("could not build the division"),
                };
            },
            BinOp::Lt => Compare::SignedLess,
            BinOp::Le => Compare::SignedLessEqual,
            BinOp::Eq => Compare::Eq,
            BinOp::Ge => Compare::SignedGreaterEqual,
            BinOp::Gt => Compare::SignedGreater,
            BinOp::Ne => Compare::Ne,
        };
        let (a, b) = if !same_int_type(li, ri) {
            if int_width(li) < int_width(ri) {
                proof {
                    self.emitted@ = self.emitted@.push(Emitted::Widening { left: true });
                }
                match build_int_cast_like(self, li, ri, "cast_l") {
                    Some(c) => (c, ri),
                    None => {
                        return halt("could not build the cast of the left operand");
                    },
                }
            } else {
                proof {
                    self.emitted@ = self.emitted@.push(Emitted::Widening { left: false });
                }
                match build_int_cast_like(self, ri, li, "cast_r") {
                    Some(c) => (li, c),
                    None => {
                        return halt("could not build the cast of the right operand");
                    },
                }
            }
        } else {
            (li, ri)
        };
        match build_int_compare(self, pred, a, b, "cmp") {
            Some(v) => Ok(int_value_basic(v)),
            None => halt("could not build the comparison"),
        }
    }

    /// Whether a block was already ended by a branch built here.
    pub fn is_terminated(&self, b: BasicBlock<'ctx>) -> (res: bool)
        ensures
            res == self.terminated_blocks@.contains(b),
    {
        let mut i: usize = 0;
        while i < self.terminated_blocks.len()
            invariant
                i <= self.terminated_blocks@.len(),
                forall|k: int| 0 <= k < i ==> self.terminated_blocks@[k] != b,
            decreases self.terminated_blocks@.len() - i,
        {
            if same_block(self.terminated_blocks[i], b) {
                return true;
            }
            i = i + 1;
        }
        false
    }

    /// `printf` of the arguments: the format holds `%ld` for each `i64` argument and `%s`
    /// for each string or untyped one, then a line break; the arguments follow it, and
    /// then, once more, every argument that has a value.
    pub fn printf(
        &mut self,
        args: &Vec<Expr>,
        expected_type: Option<&Type>,
        dm: &mut Vec<String>,
        parsers: &GroupedParsers,
        scope: &mut Scope,
        depth: usize,
    ) -> (res: Result<(), String>)
        ensures
            final(self).keeps(old(self)),
            res is Ok ==> final(self).loop_exit_stack@ == old(self).loop_exit_stack@,
            old(self).printf_counter == usize::MAX ==> res is Err,
            old(self).printf_counter < usize::MAX ==> final(self).printf_counter > old(self).printf_counter,
            (exists|i: int| 0 <= i < args@.len() && #[trigger] unprintable(args@[i])) ==> res is Err,
            res is Ok ==> printf_call_made(final(self).emitted@.last(), args@.len()),
            res is Ok && (forall|i: int| 0 <= i < args@.len() ==> #[trigger] valued_literal(args@[i])) ==>
                final(self).emitted@.last() == (Emitted::Call { callee: "printf"@, args: 2 * args@.len() + 1 }),
            res is Ok ==> exists|k: int| old(self).emitted@.len() <= k < final(self).emitted@.len()
                && #[trigger] format_logged(final(self).emitted@[k], numbered_name("fmt_"@, old(self).printf_counter as nat),
                    args@, expected_type),
        decreases depth, exprs_size(args@) + 2,
    {
        let id = self.next_printf_id()?;
        let mut values: Vec<BasicValueEnum<'ctx>> = Vec::new();
        let mut types: Vec<Type> = Vec::new();
        let mut i: usize = 0;
        while i < args.len()
            invariant
                i <= args@.len(),
                self.keeps(old(self)),
                self.loop_exit_stack@ == old(self).loop_exit_stack@,
                self.printf_counter > old(self).printf_counter,
                values@.len() == i,
                types@.len() == i,
                forall|k: int| 0 <= k < i && #[trigger] unprintable(args@[k]) ==> (types@[k] == Type::Bool),
                forall|k: int| 0 <= k < i && #[trigger] int_literal(args@[k]) ==> types@[k] == int_literal_type(expected_type),
                id == old(self).printf_counter,
            decreases args@.len() - i,
        {
            proof {
                lemma_exprs_size(args@, i as int);
            }
            match self.lower_expr(&args[i], expected_type, dm, parsers, scope, None, depth)? {
                Some((v, t)) => {
                    values.push(v);
                    types.push(t);
                },
                None => {
                    return halt("called `Option::unwrap()` on a `None` value");
                },
            }
            i = i + 1;
        }
        proof {
            if exists|k: int| 0 <= k < args@.len() && #[trigger] unprintable(args@[k]) {
                let k = choose|k: int| 0 <= k < args@.len() && #[trigger] unprintable(args@[k]);
                lemma_format_pieces_none(types@, k);
            }
        }
        let format = match printf_format_string(&types) {
            Some(f) => f,
            None => {
                return halt("UNSUPPORTED PRINTF ARG TYPE");
            },
        };
        let fmt_name = numbered("fmt_", id);
        let ghost at = self.emitted@.len() as int;
        proof {
            self.emitted@ = self.emitted@.push(Emitted::GlobalString { name: fmt_name@, text: format@ });
            assert(format_logged(self.emitted@[at], fmt_name@, args@, expected_type));
        }
        let ghost made = *self;
        let format_str = match build_global_string_ptr(self, format.as_str(), fmt_name.as_str()) {
            Some(v) => v,
            None => {
                return halt("Error building global string pointer");
            },
        };
        let compiled = self.printf_format(args, dm, parsers, scope, depth)?;
        assert(self.emitted@[at] == made.emitted@[at]);
        let printf = match get_function(&self.module, "printf") {
            Some(f) => f,
            None => {
                return halt("printf isnt defined. Did you mean to import printf?");
            },
        };
        let mut final_args: Vec<BasicValueEnum<'ctx>> = Vec::new();
        final_args.push(format_str);
        let mut k: usize = 0;
        while k < values.len()
            invariant
                k <= values@.len(),
                final_args@.len() == k + 1,
            decreases values@.len() - k,
        {
            final_args.push(values[k]);
            k = k + 1;
        }
        let mut k: usize = 0;
        while k < compiled.len()
            invariant
                k <= compiled@.len(),
                final_args@.len() == values@.len() + k + 1,
            decreases compiled@.len() - k,
        {
            final_args.push(compiled[k]);
            k = k + 1;
        }
        let call_name = numbered("printf_call_", id);
        proof {
            self.emitted@ = self.emitted@.push(Emitted::Call { callee: "printf"@, args: final_args@.len() });
            assert(format_logged(self.emitted@[at], numbered_name("fmt_"@, old(self).printf_counter as nat), args@,
                expected_type));
            assert(old(self).emitted@.len() <= at < self.emitted@.len());
        }
        match build_call(self, printf, &final_args, call_name.as_str()) {
            Some(_) => Ok(()),
            None => halt("could not build the call to printf"),
        }
    }

    /// The values of the arguments that have one.
    pub fn printf_format(
        &mut self,
        args: &Vec<Expr>,
        dm: &mut Vec<String>,
        parsers: &GroupedParsers,
        scope: &mut Scope,
        depth: usize,
    ) -> (res: Result<Vec<BasicValueEnum<'ctx>>, String>)
        ensures
            final(self).keeps(old(self)),
            res is Ok ==> final(self).loop_exit_stack@ == old(self).loop_exit_stack@,
            res matches Ok(v) ==> v@.len() <= args@.len(),
            (forall|i: int| 0 <= i < args@.len() ==> #[trigger] valued_literal(args@[i]))
                ==> (res matches Ok(v) && v@.len() == args@.len()),
        decreases depth, exprs_size(args@) + 1,
    {
        let mut out: Vec<BasicValueEnum<'ctx>> = Vec::new();
        let mut i: usize = 0;
        while i < args.len()
            invariant
                i <= args@.len(),
                self.keeps(old(self)),
                self.loop_exit_stack@ == old(self).loop_exit_stack@,
                out@.len() <= i,
                (forall|k: int| 0 <= k < args@.len() ==> #[trigger] valued_literal(args@[k])) ==> out@.len() == i,
            decreases args@.len() - i,
        {
            proof {
                lemma_exprs_size(args@, i as int);
            }
            assert((forall|k: int| 0 <= k < args@.len() ==> #[trigger] valued_literal(args@[k]))
                ==> valued_literal(args@[i as int]));
            match self.lower_expr(&args[i], None, dm, parsers, scope, None, depth)? {
                Some((v, _)) => out.push(v),
                None => {},
            }
            i = i + 1;
        }
        Ok(out)
    }

    /// The function that a name `module::function` names, compiled from the loaded
    /// module where it is not in the module yet; for another name, the function of the module.
    pub fn get_or_compile_function(
        &mut self,
        name: &String,
        dm: &mut Vec<String>,
        parsers: &GroupedParsers,
        scope: &mut Scope,
        depth: usize,
    ) -> (res: Result<Option<FunctionValue<'ctx>>, String>)
        ensures
            final(self).keeps(old(self)),
            res is Ok ==> final(self).loop_exit_stack@ == old(self).loop_exit_stack@,
            !is_qualified(name@) ==> res is Ok && *final(self) == *old(self),
            is_qualified(name@) && !old(self).loaded_modules@.contains_key(qualified_parts(name@).0)
                ==> res matches Ok(None),
        decreases depth, 1nat,
    {
        if has_separator(name.as_str()) {
            match split_module_function_name(name.as_str()) {
                Some((modname, funcname)) => self.get_function_from_module(&modname, &funcname, dm, parsers, scope, depth),
                None => Ok(get_function(&self.module, name.as_str())),
            }
        } else {
            Ok(get_function(&self.module, name.as_str()))
        }
    }

    /// The function `funcname` of the loaded module `modname`: the one in the module if
    /// it is there, else compiled from the module's declaration of it; `None` where the
    /// module is not loaded.
    pub fn get_function_from_module(
        &mut self,
        modname: &String,
        funcname: &String,
        dm: &mut Vec<String>,
        parsers: &GroupedParsers,
        scope: &mut Scope,
        depth: usize,
    ) -> (res: Result<Option<FunctionValue<'ctx>>, String>)
        ensures
            final(self).keeps(old(self)),
            res is Ok ==> final(self).loop_exit_stack@ == old(self).loop_exit_stack@,
            !old(self).loaded_modules@.contains_key(modname@) ==> (res matches Ok(None)) && *final(self) == *old(self),
            old(self).loaded_modules@.contains_key(modname@) && !declares_fn(old(self).loaded_modules@[modname@]@, funcname@)
                ==> res is Ok && *final(self) == *old(self),
        decreases depth, 0nat,
    {
        let found: Option<Stmt> = match self.loaded_modules.get(modname) {
            None => {
                return Ok(None);
            },
            Some(mod_stmts) => {
                match get_function(&self.module, funcname.as_str()) {
                    Some(f) => {
                        return Ok(Some(f));
                    },
                    None => {},
                }
                let mut hit: Option<Stmt> = None;
                let mut i: usize = 0;
                while i < mod_stmts.len()
                    invariant
                        i <= mod_stmts@.len(),
                        hit is None ==> forall|k: int| 0 <= k < i ==> !(#[trigger] mod_stmts@[k] matches Stmt::FnDecl { name, .. }
                            && name@ == funcname@),
                        hit is Some ==> declares_fn(mod_stmts@, funcname@),
                    decreases mod_stmts@.len() - i,
                {
                    match &mod_stmts[i] {
                        Stmt::FnDecl { name, .. } => {
                            if *name == *funcname {
                                hit = Some(mod_stmts[i].copied());
                                break;
                            }
                        },
                        _ => {},
                    }
                    i = i + 1;
                }
                hit
            },
        };
        match found {
            Some(stmt) => {
                if depth == 0 {
                    return halt("modules nested too deeply");
                }
                let mut one: Vec<Stmt> = Vec::new();
                one.push(stmt);
                self.execute_stmts(&one, dm, parsers, scope, None, depth - 1)?;
            },
            None => {},
        }
        Ok(get_function(&self.module, funcname.as_str()))
    }
}

impl<'ctx> CodeGen<'ctx> {
    /// An `if`: each arm's condition is checked in a block of its own, the arms jump to a
    /// common `merge` block, and where arms end with a value, a phi there chooses it.
    pub fn lower_if(
        &mut self,
        branches: &Vec<IfBranch>,
        else_body: &Option<Vec<Expr>>,
        expected_type: Option<&Type>,
        dm: &mut Vec<String>,
        parsers: &GroupedParsers,
        scope: &mut Scope,
        jump_from: Option<BasicBlock<'ctx>>,
        depth: usize,
    ) -> (res: Result<Option<(BasicValueEnum<'ctx>, Type)>, String>)
        ensures
            final(self).keeps(old(self)),
            res is Ok ==> final(self).loop_exit_stack@ == old(self).loop_exit_stack@,
            res is Ok && *else_body is None ==> final(self).final_check_blocks@.len() == 0,
            res is Ok && branches@.len() == 0 && *else_body is None ==> res matches Ok(None),
            res is Ok ==> old(self).emitted@.len() < final(self).emitted@.len()
                && final(self).emitted@[old(self).emitted@.len() as int] == (Emitted::Block { name: "merge"@ }),
        decreases depth, branches_size(branches@) + else_size(*else_body) + 1,
    {
        let current = match insert_block(&self.builder) {
            Some(b) => b,
            None => {
                return halt("called `Option::unwrap()` on a `None` value");
            },
        };
        let current_function = match block_parent(current) {
            Some(f) => f,
            None => {
                return halt("called `Option::unwrap()` on a `None` value");
            },
        };
        let merge_block = append_basic_block(self.context, current_function, "merge");
        proof {
            self.emitted@ = self.emitted@.push(Emitted::Block { name: "merge"@ });
        }
        let mut branch_blocks: Vec<BasicBlock<'ctx>> = Vec::new();
        let mut branch_values: Vec<(BasicValueEnum<'ctx>, Type)> = Vec::new();
        let has_else = else_body.is_some();
        let else_block = if has_else {
            Some(append_basic_block(self.context, current_function, "else"))
        } else {
            None
        };
        let mut else_entry_block: Option<BasicBlock<'ctx>> = None;
        let n = branches.len();
        let mut i: usize = 0;
        while i < n
            invariant
                n == branches@.len(),
                i <= n,
                has_else == else_body.is_some(),
                self.keeps(old(self)),
                old(self).emitted@.len() < self.emitted@.len(),
                self.emitted@[old(self).emitted@.len() as int] == (Emitted::Block { name: "merge"@ }),
                self.loop_exit_stack@ == old(self).loop_exit_stack@,
                branch_blocks@.len() == branch_values@.len(),
                branch_values@.len() <= i,
            decreases n - i,
        {
            proof {
                lemma_branches_size(branches@, i as int);
            }
            let then_name = numbered("then_", i);
            let then_block = append_basic_block(self.context, current_function, then_name.as_str());
            let is_last = i + 1 == n;
            let check_next_block = if !is_last || has_else {
                let check_name = numbered("check_next_", i);
                let cb = append_basic_block(self.context, current_function, check_name.as_str());
                if is_last && has_else {
                    else_entry_block = Some(cb);
                }
                cb
            } else {
                let final_name = numbered("final_check_", i);
                let fb = append_basic_block(self.context, current_function, final_name.as_str());
                self.final_check_blocks.push(fb);
                fb
            };
            if i == 0 {
                match jump_from {
                    Some(from) => {
                        position_at_end(self, from);
                        if !build_branch(self, check_next_block) {
                            return halt("could not build the jump into the first condition");
                        }
                    },
                    None => {},
                }
            }
            if !self.is_terminated(check_next_block) && !same_block(check_next_block, merge_block) {
                position_at_end(self, check_next_block);
                let lowered = self.lower_expr(&branches[i].condition, Some(&Type::Bool), dm, parsers, scope, None, depth)?;
                let cond = match lowered {
                    Some((v, _)) => v,
                    None => {
                        return halt("called `Option::unwrap()` on a `None` value");
                    },
                };
                let cond = match as_int_value(cond) {
                    Some(c) => c,
                    None => {
                        return halt("the condition is not an integer value");
                    },
                };
                let otherwise = if is_last && has_else {
                    match else_block {
                        Some(b) => b,
                        None => {
                            return halt("called `Option::unwrap()` on a `None` value");
                        },
                    }
                } else {
                    check_next_block
                };
                if !build_conditional_branch(self, cond, then_block, otherwise) {
                    return halt("could not build the conditional branch");
                }
                self.terminated_blocks.push(check_next_block);
            }
            position_at_end(self, then_block);
            let body = &branches[i].body;
            let mut last: Option<(BasicValueEnum<'ctx>, Type)> = None;
            let mut j: usize = 0;
            while j < body.len()
                invariant
                    j <= body@.len(),
                    i < branches@.len(),
                    *body == branches@[i as int].body,
                    branch_size(branches@[i as int]) <= branches_size(branches@),
                    self.keeps(old(self)),
                    old(self).emitted@.len() < self.emitted@.len(),
                    self.emitted@[old(self).emitted@.len() as int] == (Emitted::Block { name: "merge"@ }),
                    self.loop_exit_stack@ == old(self).loop_exit_stack@,
                decreases body@.len() - j,
            {
                proof {
                    lemma_exprs_size(body@, j as int);
                }
                last = self.lower_expr(&body[j], expected_type, dm, parsers, scope, None, depth)?;
                j = j + 1;
            }
            if !build_branch(self, merge_block) {
                return halt("could not build the jump to the merge block");
            }
            match last {
                Some(val) => {
                    branch_blocks.push(then_block);
                    branch_values.push(val);
                },
                None => {},
            }
            i = i + 1;
        }
        match (else_body, else_block) {
            (Some(else_exprs), Some(eb)) => {
                match else_entry_block {
                    Some(from) => {
                        if !self.is_terminated(from) {
                            position_at_end(self, from);
                            if !build_branch(self, eb) {
                                return halt("could not build the jump to the else block");
                            }
                            self.terminated_blocks.push(from);
                        }
                    },
                    None => {},
                }
                position_at_end(self, eb);
                let mut last: Option<(BasicValueEnum<'ctx>, Type)> = None;
                let mut j: usize = 0;
                while j < else_exprs.len()
                    invariant
                        j <= else_exprs@.len(),
                        *else_body == Some(*else_exprs),
                        self.keeps(old(self)),
                        old(self).emitted@.len() < self.emitted@.len(),
                        self.emitted@[old(self).emitted@.len() as int] == (Emitted::Block { name: "merge"@ }),
                        self.loop_exit_stack@ == old(self).loop_exit_stack@,
                    decreases else_exprs@.len() - j,
                {
                    proof {
                        lemma_exprs_size(else_exprs@, j as int);
                    }
                    last = self.lower_expr(&else_exprs[j], expected_type, dm, parsers, scope, None, depth)?;
                    j = j + 1;
                }
                if !build_branch(self, merge_block) {
                    return halt("could not build the jump to the merge block");
                }
                match last {
                    Some(val) => {
                        branch_blocks.push(eb);
                        branch_values.push(val);
                    },
                    None => {},
                }
            },
            _ => {
                let mut pending: Vec<BasicBlock<'ctx>> = Vec::new();
                std::mem::swap(&mut pending, &mut self.final_check_blocks);
                let mut k: usize = 0;
                while k < pending.len()
                    invariant
                        self.keeps(old(self)),
                        old(self).emitted@.len() < self.emitted@.len(),
                        self.emitted@[old(self).emitted@.len() as int] == (Emitted::Block { name: "merge"@ }),
                        self.loop_exit_stack@ == old(self).loop_exit_stack@,
                        self.final_check_blocks@.len() == 0,
                    decreases pending@.len() - k,
                {
                    position_at_end(self, pending[k]);
                    if !build_branch(self, merge_block) {
                        return halt("could not build the jump to the merge block");
                    }
                    k = k + 1;
                }
            },
        }
        position_at_end(self, merge_block);
        if branch_values.len() > 0 {
            let first_type = value_type(branch_values[0].0);
            let phi = match build_phi(self, first_type, "if_result") {
                Some(p) => p,
                None => {
                    return halt("could not build the phi of the if's values");
                },
            };
            let mut k: usize = 0;
            while k < branch_values.len()
                invariant
                    branch_blocks@.len() == branch_values@.len(),
                decreases branch_values@.len() - k,
            {
                phi_add_incoming(phi, branch_values[k].0, branch_blocks[k]);
                k = k + 1;
            }
            Ok(Some((phi_value(phi), branch_values[0].1.copied())))
        } else {
            Ok(None)
        }
    }
}

impl<'ctx> CodeGen<'ctx> {
    /// An `if` with one condition in `current_function`: the condition, compared with
    /// zero, chooses between the blocks `then_<suffix>` and `else_<suffix>`, which both
    /// go on to `merge_<suffix>`; where a type is expected, a phi of that type there
    /// takes the last value of each arm.
    pub fn build_conditional_branch(
        &mut self,
        current_function: FunctionValue<'ctx>,
        condition_expr: &Expr,
        then_body: &Vec<Expr>,
        else_body: &Option<Vec<Expr>>,
        discovered_modules: &mut Vec<String>,
        block_suffix: &str,
        expected_type: Option<&Type>,
        parsers: &GroupedParsers,
        scope: &mut Scope,
    ) -> (res: Result<Option<BasicValueEnum<'ctx>>, String>)
        ensures
            final(self).keeps(old(self)),
            res is Ok ==> final(self).loop_exit_stack@ == old(self).loop_exit_stack@,
            expected_type is None ==> (res is Ok ==> res matches Ok(None)),
            expected_type matches Some(t) && !has_llvm_type(*t) ==> res is Err,
            condition_expr matches Expr::Id(n) ==> (!old(self).variables@.contains_key(n@) ==> res is Err),
            condition_expr matches Expr::FnCall { name, args } ==> (name@ == "printf"@ ==> res is Err),
            res is Ok ==> exists|k: int| #[trigger] branch_blocks_made(final(self).emitted@, k, block_suffix@)
                && old(self).emitted@.len() <= k,
            res is Ok && expected_type is None ==> final(self).emitted@.last()
                == (Emitted::Jump { to: "merge_"@ + block_suffix@ }),
            res is Ok && expected_type is Some ==> (final(self).emitted@.last() matches Emitted::Phi { typ, incoming }
                && typ == *expected_type.unwrap() && incoming <= 2
                && (then_body@.len() == 0 && else_body is None ==> incoming == 0)),
    {
        let dm = discovered_modules;
        let lowered = self.lower_expr(condition_expr, Some(&Type::Bool), dm, parsers, scope, None, MAX_MODULE_DEPTH)?;
        let condition_value = match lowered {
            Some((v, _)) => v,
            None => {
                return halt("called `Option::unwrap()` on a `None` value");
            },
        };
        let int_val = match as_int_value(condition_value) {
            Some(v) => v,
            None => {
                return halt("condition must evaluate to an integer value");
            },
        };
        let zero = zero_like(int_val);
        let ghost at = self.emitted@.len() as int;
        let condition = match build_int_compare(self, Compare::Ne, int_val, zero, "cond_tmp") {
            Some(c) => c,
            None => {
                return halt("could not build the comparison with zero");
            },
        };
        let then_name = suffixed("then_", block_suffix);
        let else_name = suffixed("else_", block_suffix);
        let merge_name = suffixed("merge_", block_suffix);
        let then_block = append_basic_block(self.context, current_function, then_name.as_str());
        let else_block = append_basic_block(self.context, current_function, else_name.as_str());
        let merge_block = append_basic_block(self.context, current_function, merge_name.as_str());
        proof {
            self.emitted@ = self.emitted@.push(Emitted::Block { name: then_name@ }).push(Emitted::Block { name: else_name@ })
                .push(Emitted::Block { name: merge_name@ })
                .push(Emitted::CondJump { then_block: then_name@, else_block: else_name@ });
            assert(branch_blocks_made(self.emitted@, at, block_suffix@));
        }
        let ghost made = *self;
        if !build_conditional_branch(self, condition, then_block, else_block) {
            return halt("could not build the conditional branch");
        }
        position_at_end(self, then_block);
        let mut then_val: Option<BasicValueEnum<'ctx>> = None;
        let mut i: usize = 0;
        while i < then_body.len()
            invariant
                i <= then_body@.len(),
                then_body@.len() == 0 ==> then_val is None,
                self.keeps(old(self)),
                self.keeps(&made),
                self.loop_exit_stack@ == old(self).loop_exit_stack@,
            decreases then_body@.len() - i,
        {
            let expected = if i + 1 == then_body.len() { expected_type } else { None };
            then_val = match self.lower_expr(&then_body[i], expected, dm, parsers, scope, None, MAX_MODULE_DEPTH)? {
                Some((v, _)) => Some(v),
                None => None,
            };
            i = i + 1;
        }
        proof {
            self.emitted@ = self.emitted@.push(Emitted::Jump { to: merge_name@ });
        }
        if !build_branch(self, merge_block) {
            return halt("could not build the jump to the merge block");
        }
        position_at_end(self, else_block);
        let mut else_val: Option<BasicValueEnum<'ctx>> = None;
        match else_body {
            Some(else_exprs) => {
                let mut i: usize = 0;
                while i < else_exprs.len()
                    invariant
                        i <= else_exprs@.len(),
                        self.keeps(old(self)),
                        self.keeps(&made),
                        self.loop_exit_stack@ == old(self).loop_exit_stack@,
                    decreases else_exprs@.len() - i,
                {
                    let expected = if i + 1 == else_exprs.len() { expected_type } else { None };
                    else_val = match self.lower_expr(&else_exprs[i], expected, dm, parsers, scope, None, MAX_MODULE_DEPTH)? {
                        Some((v, _)) => Some(v),
                        None => None,
                    };
                    i = i + 1;
                }
            },
            None => {},
        }
        proof {
            self.emitted@ = self.emitted@.push(Emitted::Jump { to: merge_name@ });
        }
        if !build_branch(self, merge_block) {
            return halt("could not build the jump to the merge block");
        }
        position_at_end(self, merge_block);
        assert(branch_blocks_made(self.emitted@, at, block_suffix@));
        match expected_type {
            Some(et) => {
                let ty = match et.to_llvm_type(self.context) {
                    Some(t) => t,
                    None => {
                        return halt("called `Option::unwrap()` on a `None` value");
                    },
                };
                let phi = match build_phi(self, ty, "if_result") {
                    Some(p) => p,
                    None => {
                        return halt("could not build the phi of the if's values");
                    },
                };
                let mut incoming: usize = 0;
                match then_val {
                    Some(v) => {
                        phi_add_incoming(phi, v, then_block);
                        incoming = incoming + 1;
                    },
                    None => {},
                }
                match else_val {
                    Some(v) => {
                        phi_add_incoming(phi, v, else_block);
                        incoming = incoming + 1;
                    },
                    None => {},
                }
                proof {
                    self.emitted@ = self.emitted@.push(Emitted::Phi { typ: *et, incoming: incoming as nat });
                    assert(branch_blocks_made(self.emitted@, at, block_suffix@));
                }
                Ok(Some(phi_value(phi)))
            },
            None => Ok(None),
        }
    }
}

} // verus!
