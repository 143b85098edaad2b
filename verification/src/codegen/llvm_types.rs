use vstd::prelude::*;
use inkwell::context::Context;
use inkwell::types::BasicTypeEnum;
use crate::types::Type;
use crate::codegen::llvm::{i8_type, i16_type, i32_type, i64_type, i128_type, bool_type, f16_type, f32_type, f64_type,
    f128_type, int_type_basic, float_type_basic, byte_ptr_type, type_kind, TypeKind};

verus! {

/// Whether a type has an LLVM type of its own: the sized integers and floats, booleans
/// and strings.
pub open spec fn has_llvm_type(t: Type) -> bool {
    match t {
        Type::I8 | Type::I16 | Type::I32 | Type::I64 | Type::I128 => true,
        Type::F16 | Type::F32 | Type::F64 | Type::F128 => true,
        Type::Bool | Type::Str => true,
        _ => false,
    }
}

/// The type that code generation gives a value of an LLVM type of the given kind.
pub open spec fn type_of_kind(k: TypeKind) -> Option<Type> {
    match k {
        TypeKind::Int => Some(Type::I32),
        TypeKind::Float => Some(Type::F32),
        TypeKind::Pointer => Some(Type::Str),
        TypeKind::Other => None,
    }
}

/// The type for a kind of LLVM type.
pub fn type_for_kind(k: TypeKind) -> (res: Option<Type>)
    ensures
        res == type_of_kind(k),
{
    match k {
        TypeKind::Int => Some(Type::I32),
        TypeKind::Float => Some(Type::F32),
        TypeKind::Pointer => Some(Type::Str),
        TypeKind::Other => None,
    }
}

impl Type {
    /// The LLVM type of this type: a string is a pointer to bytes; types without an
    /// LLVM type of their own have none.
    pub fn to_llvm_type<'ctx>(&self, ctx: &'ctx Context) -> (res: Option<BasicTypeEnum<'ctx>>)
        ensures
            res is Some <==> has_llvm_type(*self),
    {
        match self {
            Type::I8 => Some(int_type_basic(i8_type(ctx))),
            Type::I16 => Some(int_type_basic(i16_type(ctx))),
            Type::I32 => Some(int_type_basic(i32_type(ctx))),
            Type::I64 => Some(int_type_basic(i64_type(ctx))),
            Type::I128 => Some(int_type_basic(i128_type(ctx))),
            Type::F16 => Some(float_type_basic(f16_type(ctx))),
            Type::F32 => Some(float_type_basic(f32_type(ctx))),
            Type::F64 => Some(float_type_basic(f64_type(ctx))),
            Type::F128 => Some(float_type_basic(f128_type(ctx))),
            Type::Bool => Some(int_type_basic(bool_type(ctx))),
            Type::Str => Some(byte_ptr_type(ctx)),
            _ => None,
        }
    }

    /// The type of a value of LLVM type `typ`: `i32` for any integer, `f32` for any
    /// float, `str` for any pointer.
    pub fn from_llvm_type<'ctx>(typ: BasicTypeEnum<'ctx>) -> (res: Option<Type>)
        ensures
            res == Some(Type::I32) || res == Some(Type::F32) || res == Some(Type::Str) || res is None,
    {
        type_for_kind(type_kind(typ))
    }
}

} // verus!
