//! The calls into inkwell that code generation makes. Each is trusted: Verus reads the
//! contract and not the body. LLVM's objects are opaque here; where a call can fail
//! (a builder that has no insertion point, a value of another kind than the one asked
//! for), the wrapper answers `None` or `false` and the verified code decides what that
//! means. Unless a wrapper says otherwise, nothing is promised of the handles it returns.
use vstd::prelude::*;
use crate::codegen::gen::{CodeGen, Emitted, same_but_log, same_but_position};
use crate::ast::BinOp;
use inkwell::context::Context;
use inkwell::builder::Builder;
use inkwell::module::{Module, Linkage};
use inkwell::basic_block::BasicBlock;
use inkwell::values::{BasicValueEnum, BasicMetadataValueEnum, FunctionValue, IntValue, FloatValue, PointerValue, PhiValue};
use inkwell::types::{BasicTypeEnum, BasicMetadataTypeEnum, BasicType, FunctionType, IntType, FloatType};
use inkwell::{AddressSpace, IntPredicate};
use inkwell::attributes::{Attribute as LlvmAttribute, AttributeLoc};

verus! {

#[verifier::external_type_specification]
#[verifier::external_body]
pub struct ExContext(Context);

#[verifier::external_type_specification]
#[verifier::external_body]
pub struct ExBuilder<'ctx>(Builder<'ctx>);

#[verifier::external_type_specification]
#[verifier::external_body]
pub struct ExModule<'ctx>(Module<'ctx>);

#[verifier::external_type_specification]
#[verifier::external_body]
pub struct ExBasicBlock<'ctx>(BasicBlock<'ctx>);

#[verifier::external_type_specification]
#[verifier::external_body]
pub struct ExFunctionValue<'ctx>(FunctionValue<'ctx>);

#[verifier::external_type_specification]
#[verifier::external_body]
pub struct ExFunctionType<'ctx>(FunctionType<'ctx>);

#[verifier::external_type_specification]
#[verifier::external_body]
pub struct ExBasicValueEnum<'ctx>(BasicValueEnum<'ctx>);

#[verifier::external_type_specification]
#[verifier::external_body]
pub struct ExBasicTypeEnum<'ctx>(BasicTypeEnum<'ctx>);

#[verifier::external_type_specification]
#[verifier::external_body]
pub struct ExIntType<'ctx>(IntType<'ctx>);

#[verifier::external_type_specification]
#[verifier::external_body]
pub struct ExIntValue<'ctx>(IntValue<'ctx>);

#[verifier::external_type_specification]
#[verifier::external_body]
pub struct ExFloatType<'ctx>(FloatType<'ctx>);

#[verifier::external_type_specification]
#[verifier::external_body]
pub struct ExFloatValue<'ctx>(FloatValue<'ctx>);

#[verifier::external_type_specification]
#[verifier::external_body]
pub struct ExPointerValue<'ctx>(PointerValue<'ctx>);

#[verifier::external_type_specification]
#[verifier::external_body]
pub struct ExPhiValue<'ctx>(PhiValue<'ctx>);

/// The comparisons that integer compare instructions make.
#[derive(Clone, Copy, PartialEq, Eq, Structural)]
pub enum Compare {
    Eq,
    Ne,
    SignedLess,
    SignedLessEqual,
    SignedGreater,
    SignedGreaterEqual,
}

/// The kind of an LLVM type, as code generation reads it.
#[derive(Clone, Copy, PartialEq, Eq, Structural)]
pub enum TypeKind {
    Int,
    Float,
    Pointer,
    Other,
}

// ---------------------------------------------------------------------------
// Context

/// `Context::create_builder`: a new builder of the context.
#[verifier::external_body]
pub(crate) fn create_builder<'ctx>(ctx: &'ctx Context) -> Builder<'ctx> {
    ctx.create_builder()
}

/// `Context::create_module`: a new, empty module of the context with the given name.
#[verifier::external_body]
pub(crate) fn create_module<'ctx>(ctx: &'ctx Context, name: &str) -> Module<'ctx> {
    ctx.create_module(name)
}

/// `Context::i8_type`.
#[verifier::external_body]
pub(crate) fn i8_type<'ctx>(ctx: &'ctx Context) -> IntType<'ctx> {
    ctx.i8_type()
}

/// `Context::i16_type`.
#[verifier::external_body]
pub(crate) fn i16_type<'ctx>(ctx: &'ctx Context) -> IntType<'ctx> {
    ctx.i16_type()
}

/// `Context::i32_type`.
#[verifier::external_body]
pub(crate) fn i32_type<'ctx>(ctx: &'ctx Context) -> IntType<'ctx> {
    ctx.i32_type()
}

/// `Context::i64_type`.
#[verifier::external_body]
pub(crate) fn i64_type<'ctx>(ctx: &'ctx Context) -> IntType<'ctx> {
    ctx.i64_type()
}

/// `Context::i128_type`.
#[verifier::external_body]
pub(crate) fn i128_type<'ctx>(ctx: &'ctx Context) -> IntType<'ctx> {
    ctx.i128_type()
}

/// `Context::bool_type`.
#[verifier::external_body]
pub(crate) fn bool_type<'ctx>(ctx: &'ctx Context) -> IntType<'ctx> {
    ctx.bool_type()
}

/// `Context::f16_type`.
#[verifier::external_body]
pub(crate) fn f16_type<'ctx>(ctx: &'ctx Context) -> FloatType<'ctx> {
    ctx.f16_type()
}

/// `Context::f32_type`.
#[verifier::external_body]
pub(crate) fn f32_type<'ctx>(ctx: &'ctx Context) -> FloatType<'ctx> {
    ctx.f32_type()
}

/// `Context::f64_type`.
#[verifier::external_body]
pub(crate) fn f64_type<'ctx>(ctx: &'ctx Context) -> FloatType<'ctx> {
    ctx.f64_type()
}

/// `Context::f128_type`.
#[verifier::external_body]
pub(crate) fn f128_type<'ctx>(ctx: &'ctx Context) -> FloatType<'ctx> {
    ctx.f128_type()
}

/// `IntType::ptr_type` on `Context::i8_type`: the type of a pointer to bytes.
#[verifier::external_body]
pub(crate) fn byte_ptr_type<'ctx>(ctx: &'ctx Context) -> BasicTypeEnum<'ctx> {
    ctx.i8_type().ptr_type(AddressSpace::default()).into()
}

/// `Context::void_type` then `VoidType::fn_type`: a function type returning nothing.
#[verifier::external_body]
pub(crate) fn void_fn_type<'ctx>(ctx: &'ctx Context, params: &Vec<BasicTypeEnum<'ctx>>, var_args: bool) -> FunctionType<'ctx> {
    let ps: Vec<BasicMetadataTypeEnum<'ctx>> = params.iter().map(|p| (*p).into()).collect();
    ctx.void_type().fn_type(&ps, var_args)
}

/// `Context::append_basic_block`: a new block with the given name at the end of `f`.
#[verifier::external_body]
pub(crate) fn append_basic_block<'ctx>(ctx: &'ctx Context, f: FunctionValue<'ctx>, name: &str) -> BasicBlock<'ctx> {
    ctx.append_basic_block(f, name)
}

/// `Attribute::get_named_enum_kind_id`: the kind number of an enum attribute name.
#[verifier::external_body]
pub(crate) fn enum_kind_id(name: &str) -> u32 {
    LlvmAttribute::get_named_enum_kind_id(name)
}

/// `Context::create_enum_attribute` with value 0, added to `f` by
/// `FunctionValue::add_attribute` at the function's own place.
#[verifier::external_body]
pub(crate) fn add_function_attribute<'ctx>(ctx: &'ctx Context, f: FunctionValue<'ctx>, kind_id: u32) {
    f.add_attribute(AttributeLoc::Function, ctx.create_enum_attribute(kind_id, 0));
}

// ---------------------------------------------------------------------------
// Types and constants

/// `IntType::as_basic_type_enum`.
#[verifier::external_body]
pub(crate) fn int_type_basic<'ctx>(t: IntType<'ctx>) -> BasicTypeEnum<'ctx> {
    t.as_basic_type_enum()
}

/// `FloatType::as_basic_type_enum`.
#[verifier::external_body]
pub(crate) fn float_type_basic<'ctx>(t: FloatType<'ctx>) -> BasicTypeEnum<'ctx> {
    t.as_basic_type_enum()
}

/// `BasicType::ptr_type`: the type of a pointer to `t`.
#[verifier::external_body]
pub(crate) fn pointer_to<'ctx>(t: BasicTypeEnum<'ctx>) -> BasicTypeEnum<'ctx> {
    t.ptr_type(AddressSpace::default()).into()
}

/// `BasicType::fn_type`: a function type returning `ret`.
#[verifier::external_body]
pub(crate) fn fn_type<'ctx>(ret: BasicTypeEnum<'ctx>, params: &Vec<BasicTypeEnum<'ctx>>, var_args: bool) -> FunctionType<'ctx> {
    let ps: Vec<BasicMetadataTypeEnum<'ctx>> = params.iter().map(|p| (*p).into()).collect();
    ret.fn_type(&ps, var_args)
}

/// The kind of a type, from `BasicTypeEnum`'s variants.
#[verifier::external_body]
pub(crate) fn type_kind<'ctx>(t: BasicTypeEnum<'ctx>) -> TypeKind {
    match t {
        BasicTypeEnum::IntType(_) => TypeKind::Int,
        BasicTypeEnum::FloatType(_) => TypeKind::Float,
        BasicTypeEnum::PointerType(_) => TypeKind::Pointer,
        _ => TypeKind::Other,
    }
}

/// `IntType::const_int`.
#[verifier::external_body]
pub(crate) fn const_int<'ctx>(t: IntType<'ctx>, value: u64, sign_extend: bool) -> IntValue<'ctx> {
    t.const_int(value, sign_extend)
}

/// `IntType::const_zero` of `IntValue::get_type`: the zero of a value's integer type.
#[verifier::external_body]
pub(crate) fn zero_like<'ctx>(v: IntValue<'ctx>) -> IntValue<'ctx> {
    v.get_type().const_zero()
}

/// `IntType::const_zero`.
#[verifier::external_body]
pub(crate) fn const_zero<'ctx>(t: IntType<'ctx>) -> IntValue<'ctx> {
    t.const_zero()
}

// ---------------------------------------------------------------------------
// Values

/// `IntValue::as_basic_value_enum`.
#[verifier::external_body]
pub(crate) fn int_value_basic<'ctx>(v: IntValue<'ctx>) -> BasicValueEnum<'ctx> {
    v.into()
}

/// `FloatValue::as_basic_value_enum`.
#[verifier::external_body]
pub(crate) fn float_value_basic<'ctx>(v: FloatValue<'ctx>) -> BasicValueEnum<'ctx> {
    v.into()
}

/// The integer held by a `BasicValueEnum::IntValue`, `None` for the other variants.
#[verifier::external_body]
pub(crate) fn as_int_value<'ctx>(v: BasicValueEnum<'ctx>) -> Option<IntValue<'ctx>> {
    match v {
        BasicValueEnum::IntValue(i) => Some(i),
        _ => None,
    }
}

/// The float held by a `BasicValueEnum::FloatValue`, `None` for the other variants.
#[verifier::external_body]
pub(crate) fn as_float_value<'ctx>(v: BasicValueEnum<'ctx>) -> Option<FloatValue<'ctx>> {
    match v {
        BasicValueEnum::FloatValue(f) => Some(f),
        _ => None,
    }
}

/// `BasicValueEnum::get_type`.
#[verifier::external_body]
pub(crate) fn value_type<'ctx>(v: BasicValueEnum<'ctx>) -> BasicTypeEnum<'ctx> {
    v.get_type()
}

/// `IntType::get_bit_width` of `IntValue::get_type`.
#[verifier::external_body]
pub(crate) fn int_width<'ctx>(v: IntValue<'ctx>) -> u32 {
    v.get_type().get_bit_width()
}

/// Whether `IntValue::get_type` equals `t`.
#[verifier::external_body]
pub(crate) fn int_has_type<'ctx>(v: IntValue<'ctx>, t: IntType<'ctx>) -> bool {
    v.get_type() == t
}

/// Whether two integer values have equal types (`IntValue::get_type`).
#[verifier::external_body]
pub(crate) fn same_int_type<'ctx>(a: IntValue<'ctx>, b: IntValue<'ctx>) -> bool {
    a.get_type() == b.get_type()
}

/// Whether `FloatValue::get_type` equals `t`.
#[verifier::external_body]
pub(crate) fn float_has_type<'ctx>(v: FloatValue<'ctx>, t: FloatType<'ctx>) -> bool {
    v.get_type() == t
}

// ---------------------------------------------------------------------------
// Modules, functions and blocks

/// `Module::add_function`, with external linkage when `external` holds and no linkage given otherwise.
#[verifier::external_body]
pub(crate) fn add_function<'ctx>(m: &Module<'ctx>, name: &str, ty: FunctionType<'ctx>, external: bool) -> FunctionValue<'ctx> {
    m.add_function(name, ty, if external { Some(Linkage::External) } else { None })
}

/// `Module::get_function`: the function of that name in the module, if there is one.
#[verifier::external_body]
pub(crate) fn get_function<'ctx>(m: &Module<'ctx>, name: &str) -> Option<FunctionValue<'ctx>> {
    m.get_function(name)
}

/// `Module::print_to_string`: the module's textual IR.
#[verifier::external_body]
pub(crate) fn module_text<'ctx>(m: &Module<'ctx>) -> String {
    m.print_to_string().to_string()
}

/// `FunctionValue::get_nth_param`; `nth + 1` must not overflow, which that method computes.
#[verifier::external_body]
pub(crate) fn nth_param<'ctx>(f: FunctionValue<'ctx>, nth: u32) -> Option<BasicValueEnum<'ctx>>
    requires
        nth < u32::MAX,
{
    f.get_nth_param(nth)
}

/// `BasicBlock::get_parent`: the function that holds the block.
#[verifier::external_body]
pub(crate) fn block_parent<'ctx>(b: BasicBlock<'ctx>) -> Option<FunctionValue<'ctx>> {
    b.get_parent()
}

/// Whether `BasicBlock::get_terminator` finds a terminator in the block.
#[verifier::external_body]
pub(crate) fn block_is_terminated<'ctx>(b: BasicBlock<'ctx>) -> bool {
    b.get_terminator().is_some()
}

/// `BasicBlock`'s `==`: whether two handles name the same block.
#[verifier::external_body]
pub(crate) fn same_block<'ctx>(a: BasicBlock<'ctx>, b: BasicBlock<'ctx>) -> (res: bool)
    ensures
        res == (a == b),
{
    a == b
}

// ---------------------------------------------------------------------------
// The builder. Each `build_*` wrapper answers `None` (or `false`) where inkwell's
// method answers an error; inkwell answers one only where the builder has no position
// (`PositionState::Set` is checked first, and nothing after it fails), which the code
// generator's `positioned` mark records.

/// `Builder::position_at_end`: the builder then has a position, which the code
/// generator's `positioned` mark records; nothing else of the generator changes.
#[verifier::external_body]
pub(crate) fn position_at_end<'ctx>(cg: &mut CodeGen<'ctx>, block: BasicBlock<'ctx>)
    ensures
        final(cg).positioned@,
        same_but_position(*old(cg), *final(cg)),
{
    cg.builder.position_at_end(block)
}

/// `Builder::get_insert_block`.
#[verifier::external_body]
pub(crate) fn insert_block<'ctx>(b: &Builder<'ctx>) -> Option<BasicBlock<'ctx>> {
    b.get_insert_block()
}

/// `Builder::build_alloca`.
#[verifier::external_body]
pub(crate) fn build_alloca<'ctx>(cg: &CodeGen<'ctx>, ty: BasicTypeEnum<'ctx>, name: &str) -> (res: Option<PointerValue<'ctx>>)
    ensures
        cg.positioned@ ==> res is Some,
{
    cg.builder.build_alloca(ty, name).ok()
}

/// `Builder::build_store`; `true` where the store was built.
#[verifier::external_body]
pub(crate) fn build_store<'ctx>(cg: &CodeGen<'ctx>, ptr: PointerValue<'ctx>, value: BasicValueEnum<'ctx>) -> (res: bool)
    ensures
        cg.positioned@ ==> res,
{
    cg.builder.build_store(ptr, value).is_ok()
}

/// `Builder::build_load`.
#[verifier::external_body]
pub(crate) fn build_load<'ctx>(cg: &CodeGen<'ctx>, ptr: PointerValue<'ctx>, name: &str) -> (res: Option<BasicValueEnum<'ctx>>)
    ensures
        cg.positioned@ ==> res is Some,
{
    cg.builder.build_load(ptr, name).ok()
}

/// `Builder::build_int_add`: the code generator's record gains this operation, as it is handed
/// to LLVM; nothing else of the generator changes.
#[verifier::external_body]
pub(crate) fn build_int_add<'ctx>(cg: &mut CodeGen<'ctx>, l: IntValue<'ctx>, r: IntValue<'ctx>, name: &str) -> (res: Option<IntValue<'ctx>>)
    ensures
        old(cg).positioned@ ==> res is Some,
        final(cg).emitted@ == old(cg).emitted@.push(Emitted::Operation { op: BinOp::Add }),
        same_but_log(*old(cg), *final(cg)),
{
    cg.builder.build_int_add(l, r, name).ok()
}

/// `Builder::build_int_sub`: the code generator's record gains this operation, as it is handed
/// to LLVM; nothing else of the generator changes.
#[verifier::external_body]
pub(crate) fn build_int_sub<'ctx>(cg: &mut CodeGen<'ctx>, l: IntValue<'ctx>, r: IntValue<'ctx>, name: &str) -> (res: Option<IntValue<'ctx>>)
    ensures
        old(cg).positioned@ ==> res is Some,
        final(cg).emitted@ == old(cg).emitted@.push(Emitted::Operation { op: BinOp::Sub }),
        same_but_log(*old(cg), *final(cg)),
{
    cg.builder.build_int_sub(l, r, name).ok()
}

/// `Builder::build_int_mul`: the code generator's record gains this operation, as it is handed
/// to LLVM; nothing else of the generator changes.
#[verifier::external_body]
pub(crate) fn build_int_mul<'ctx>(cg: &mut CodeGen<'ctx>, l: IntValue<'ctx>, r: IntValue<'ctx>, name: &str) -> (res: Option<IntValue<'ctx>>)
    ensures
        old(cg).positioned@ ==> res is Some,
        final(cg).emitted@ == old(cg).emitted@.push(Emitted::Operation { op: BinOp::Mul }),
        same_but_log(*old(cg), *final(cg)),
{
    cg.builder.build_int_mul(l, r, name).ok()
}

/// `Builder::build_int_signed_div`: the code generator's record gains this operation, as it is handed
/// to LLVM; nothing else of the generator changes.
#[verifier::external_body]
pub(crate) fn build_int_signed_div<'ctx>(cg: &mut CodeGen<'ctx>, l: IntValue<'ctx>, r: IntValue<'ctx>, name: &str) -> (res: Option<IntValue<'ctx>>)
    ensures
        old(cg).positioned@ ==> res is Some,
        final(cg).emitted@ == old(cg).emitted@.push(Emitted::Operation { op: BinOp::Div }),
        same_but_log(*old(cg), *final(cg)),
{
    cg.builder.build_int_signed_div(l, r, name).ok()
}

/// `Builder::build_int_compare`, the predicate named by `op`: the code generator's
/// record gains the comparison with that predicate, as it is handed to LLVM; nothing
/// else of the generator changes.
#[verifier::external_body]
pub(crate) fn build_int_compare<'ctx>(cg: &mut CodeGen<'ctx>, op: Compare, l: IntValue<'ctx>, r: IntValue<'ctx>, name: &str) -> (res: Option<IntValue<'ctx>>)
    ensures
        old(cg).positioned@ ==> res is Some,
        final(cg).emitted@ == old(cg).emitted@.push(Emitted::Comparison { pred: op }),
        same_but_log(*old(cg), *final(cg)),
{
    let p = match op {
        Compare::Eq => IntPredicate::EQ,
        Compare::Ne => IntPredicate::NE,
        Compare::SignedLess => IntPredicate::SLT,
        Compare::SignedLessEqual => IntPredicate::SLE,
        Compare::SignedGreater => IntPredicate::SGT,
        Compare::SignedGreaterEqual => IntPredicate::SGE,
    };
    cg.builder.build_int_compare(p, l, r, name).ok()
}

/// `Builder::build_int_cast`.
#[verifier::external_body]
pub(crate) fn build_int_cast<'ctx>(cg: &CodeGen<'ctx>, v: IntValue<'ctx>, t: IntType<'ctx>, name: &str) -> (res: Option<IntValue<'ctx>>)
    ensures
        cg.positioned@ ==> res is Some,
{
    cg.builder.build_int_cast(v, t, name).ok()
}

/// `Builder::build_int_cast` to the integer type of `to`.
#[verifier::external_body]
pub(crate) fn build_int_cast_like<'ctx>(cg: &CodeGen<'ctx>, v: IntValue<'ctx>, to: IntValue<'ctx>, name: &str) -> (res: Option<IntValue<'ctx>>)
    ensures
        cg.positioned@ ==> res is Some,
{
    cg.builder.build_int_cast(v, to.get_type(), name).ok()
}

/// `Builder::build_float_cast`.
#[verifier::external_body]
pub(crate) fn build_float_cast<'ctx>(cg: &CodeGen<'ctx>, v: FloatValue<'ctx>, t: FloatType<'ctx>, name: &str) -> (res: Option<FloatValue<'ctx>>)
    ensures
        cg.positioned@ ==> res is Some,
{
    cg.builder.build_float_cast(v, t, name).ok()
}

/// `Builder::build_unconditional_branch`; `true` where the branch was built.
#[verifier::external_body]
pub(crate) fn build_branch<'ctx>(cg: &CodeGen<'ctx>, to: BasicBlock<'ctx>) -> (res: bool)
    ensures
        cg.positioned@ ==> res,
{
    cg.builder.build_unconditional_branch(to).is_ok()
}

/// `Builder::build_conditional_branch`; `true` where the branch was built.
#[verifier::external_body]
pub(crate) fn build_conditional_branch<'ctx>(cg: &CodeGen<'ctx>, cond: IntValue<'ctx>, then_block: BasicBlock<'ctx>, else_block: BasicBlock<'ctx>) -> (res: bool)
    ensures
        cg.positioned@ ==> res,
{
    cg.builder.build_conditional_branch(cond, then_block, else_block).is_ok()
}

/// `Builder::build_return`; `true` where the return was built.
#[verifier::external_body]
pub(crate) fn build_return<'ctx>(cg: &CodeGen<'ctx>, value: Option<BasicValueEnum<'ctx>>) -> (res: bool)
    ensures
        cg.positioned@ ==> res,
{
    match value {
        Some(v) => cg.builder.build_return(Some(&v)).is_ok(),
        None => cg.builder.build_return(None).is_ok(),
    }
}

/// `Builder::build_call`: `None` where the call was not built; otherwise the call's
/// value (`CallSiteValue::try_as_basic_value`), `None` inside for a call that returns nothing.
#[verifier::external_body]
pub(crate) fn build_call<'ctx>(cg: &CodeGen<'ctx>, f: FunctionValue<'ctx>, args: &Vec<BasicValueEnum<'ctx>>, name: &str) -> (res: Option<Option<BasicValueEnum<'ctx>>>)
    ensures
        cg.positioned@ ==> res is Some,
{
    let a: Vec<BasicMetadataValueEnum<'ctx>> = args.iter().map(|v| (*v).into()).collect();
    match cg.builder.build_call(f, &a, name) {
        Ok(call) => Some(call.try_as_basic_value().left()),
        Err(_) => None,
    }
}

/// `Builder::build_global_string_ptr`, the global taken as a pointer value.
#[verifier::external_body]
pub(crate) fn build_global_string_ptr<'ctx>(cg: &CodeGen<'ctx>, value: &str, name: &str) -> (res: Option<BasicValueEnum<'ctx>>)
    ensures
        cg.positioned@ ==> res is Some,
{
    match cg.builder.build_global_string_ptr(value, name) {
        Ok(g) => Some(g.as_pointer_value().into()),
        Err(_) => None,
    }
}

/// `Builder::build_phi`.
#[verifier::external_body]
pub(crate) fn build_phi<'ctx>(cg: &CodeGen<'ctx>, ty: BasicTypeEnum<'ctx>, name: &str) -> (res: Option<PhiValue<'ctx>>)
    ensures
        cg.positioned@ ==> res is Some,
{
    cg.builder.build_phi(ty, name).ok()
}

/// `PhiValue::add_incoming` with one value and the block it comes from.
#[verifier::external_body]
pub(crate) fn phi_add_incoming<'ctx>(phi: PhiValue<'ctx>, value: BasicValueEnum<'ctx>, from: BasicBlock<'ctx>) {
    phi.add_incoming(&[(&value, from)])
}

/// `PhiValue::as_basic_value`.
#[verifier::external_body]
pub(crate) fn phi_value<'ctx>(phi: PhiValue<'ctx>) -> BasicValueEnum<'ctx> {
    phi.as_basic_value()
}

} // verus!
