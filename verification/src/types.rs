use vstd::prelude::*;
use crate::text::str_is;

verus! {

/// The types of the Kurai language.
#[derive(Debug, PartialEq, Eq)]
pub enum Type {
    I8,
    I16,
    I32,
    I64,
    I128,
    F16,
    F32,
    F64,
    F128,
    Bool,
    Str,
    Unknown,
    Var,
    Void,
    /// A pointer to the inner type, written with leading `*`s before a return type.
    Ptr(Box<Type>),
}

impl Clone for Type {
    fn clone(&self) -> (res: Self)
        ensures
            res == *self,
    {
        self.copied()
    }
}

/// The type that a type name denotes, `None` for a name that is not a type name.
pub open spec fn spec_type_from_str(s: Seq<char>) -> Option<Type> {
    if s == "i16"@ { Some(Type::I16) }
    else if s == "i32"@ { Some(Type::I32) }
    else if s == "i64"@ { Some(Type::I64) }
    else if s == "i128"@ { Some(Type::I128) }
    else if s == "f16"@ { Some(Type::F16) }
    else if s == "f32"@ { Some(Type::F32) }
    else if s == "f64"@ { Some(Type::F64) }
    else if s == "f128"@ { Some(Type::F128) }
    else if s == "bool"@ { Some(Type::Bool) }
    else if s == "str"@ { Some(Type::Str) }
    else if s == "var"@ { Some(Type::Var) }
    else if s == "void"@ { Some(Type::Void) }
    else { None }
}

impl Type {
    /// A copy of this type.
    pub fn copied(&self) -> (res: Type)
        ensures
            res == *self,
        decreases *self,
    {
        match self {
            Type::I8 => Type::I8,
            Type::I16 => Type::I16,
            Type::I32 => Type::I32,
            Type::I64 => Type::I64,
            Type::I128 => Type::I128,
            Type::F16 => Type::F16,
            Type::F32 => Type::F32,
            Type::F64 => Type::F64,
            Type::F128 => Type::F128,
            Type::Bool => Type::Bool,
            Type::Str => Type::Str,
            Type::Unknown => Type::Unknown,
            Type::Var => Type::Var,
            Type::Void => Type::Void,
            Type::Ptr(inner) => Type::Ptr(Box::new((**inner).copied())),
        }
    }

    /// Whether this is the `void` type.
    pub fn is_void(&self) -> (res: bool)
        ensures
            res == (*self == Type::Void),
    {
        match self {
            Type::Void => true,
            _ => false,
        }
    }

    /// Reads a type name such as `i32` or `bool`.
    pub fn from_str(s: &str) -> (res: Option<Self>)
        ensures
            res == spec_type_from_str(s@),
    {
        if str_is(s, "i16") { Some(Type::I16) }
        else if str_is(s, "i32") { Some(Type::I32) }
        else if str_is(s, "i64") { Some(Type::I64) }
        else if str_is(s, "i128") { Some(Type::I128) }
        else if str_is(s, "f16") { Some(Type::F16) }
        else if str_is(s, "f32") { Some(Type::F32) }
        else if str_is(s, "f64") { Some(Type::F64) }
        else if str_is(s, "f128") { Some(Type::F128) }
        else if str_is(s, "bool") { Some(Type::Bool) }
        else if str_is(s, "str") { Some(Type::Str) }
        else if str_is(s, "var") { Some(Type::Var) }
        else if str_is(s, "void") { Some(Type::Void) }
        else { None }
    }
}

} // verus!
