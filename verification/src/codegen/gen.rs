use vstd::prelude::*;
use inkwell::context::Context;
use inkwell::builder::Builder;
use inkwell::module::Module;
use inkwell::basic_block::BasicBlock;
use inkwell::values::{BasicValueEnum, IntValue, PointerValue};
use inkwell::types::BasicTypeEnum;
use crate::types::Type;
use crate::value::{Value, count_text, nat_digits};
use crate::ast::{BinOp, Expr, Stmt, TypedArg};
use crate::eat::type_eq;
use crate::codegen::table::Table;
use crate::codegen::registry::AttributeRegistry;
use crate::codegen::llvm::{create_builder, create_module, i64_type, i32_type, i8_type, bool_type, byte_ptr_type,
    const_int, const_zero, int_value_basic, as_int_value, int_width, build_int_compare, Compare, fn_type,
    add_function, get_function, module_text, build_global_string_ptr, build_call, int_type_basic, build_load};

verus! {

/// Where a variable lives and the type it was declared with.
pub struct VariableInfo<'ctx> {
    pub ptr_value: PointerValue<'ctx>,
    pub var_type: Type,
}

/// What code generation knows of a declared function.
pub struct FunctionInfo {
    pub ret_type: Type,
    pub args: Vec<TypedArg>,
    pub is_extern: bool,
}

/// A float constant made ready for code generation: the literal that spells it, the
/// type it was made for, and its value.
pub struct FloatConstant<'ctx> {
    pub text: String,
    pub typ: Type,
    pub value: BasicValueEnum<'ctx>,
}

/// One thing that code generation asks LLVM to make, as it hands it over: the record
/// kept beside each such call, in the order of the calls.
pub enum Emitted {
    /// A module of this name.
    Module { name: Seq<char> },
    /// An integer constant of this type made from this value, cut to the type's width
    /// (a boolean holds 0 or 1).
    IntConst { typ: Type, value: int },
    /// A global copy of `text` under this name.
    GlobalString { name: Seq<char>, text: Seq<char> },
    /// A function of this name, parameter types and return type, `variadic` where it takes
    /// further arguments.
    Function { name: Seq<char>, params: Seq<Type>, ret: Type, variadic: bool },
    /// A basic block of this name.
    Block { name: Seq<char> },
    /// A stack slot for the variable of this name and type.
    Slot { name: Seq<char>, typ: Type },
    /// A load of the variable of this name.
    Load { name: Seq<char> },
    /// An arithmetic operator applied to two integer values.
    Operation { op: BinOp },
    /// An integer comparison with this predicate.
    Comparison { pred: Compare },
    /// The narrower operand of a comparison (the left one where `left`) cast to the
    /// other's integer type.
    Widening { left: bool },
    /// A call of the function of this name with this many arguments.
    Call { callee: Seq<char>, args: nat },
    /// A return of a value brought to this type.
    Return { typ: Type },
    /// A conditional branch to the blocks of these names.
    CondJump { then_block: Seq<char>, else_block: Seq<char> },
    /// A jump to the block of this name.
    Jump { to: Seq<char> },
    /// A phi of this type with this many incoming values.
    Phi { typ: Type, incoming: nat },
    /// The attribute of this name given to the function of this name.
    FunctionAttribute { function: Seq<char>, attribute: Seq<char> },
}

/// The record of `printf` declared: an `i32` function of a string and further arguments.
pub open spec fn printf_declared() -> Emitted {
    Emitted::Function { name: "printf"@, params: seq![Type::Str], ret: Type::I32, variadic: true }
}

/// Whether two states differ at most in what has been asked of LLVM.
pub open spec fn same_but_log<'ctx>(a: CodeGen<'ctx>, b: CodeGen<'ctx>) -> bool {
    same_parts(a, b) && a.positioned == b.positioned
}

/// Whether two states differ at most in whether the builder has a position.
pub open spec fn same_but_position<'ctx>(a: CodeGen<'ctx>, b: CodeGen<'ctx>) -> bool {
    same_parts(a, b) && a.emitted == b.emitted
}

/// Whether two states agree on all but the record of what was asked of LLVM and the
/// builder's position.
pub open spec fn same_parts<'ctx>(a: CodeGen<'ctx>, b: CodeGen<'ctx>) -> bool {
    &&& a.context == b.context
    &&& a.builder == b.builder
    &&& a.module == b.module
    &&& a.variables == b.variables
    &&& a.loaded_modules == b.loaded_modules
    &&& a.string_counter == b.string_counter
    &&& a.loop_counter == b.loop_counter
    &&& a.loop_exit_stack == b.loop_exit_stack
    &&& a.attr_registry == b.attr_registry
    &&& a.functions == b.functions
    &&& a.inline_fns == b.inline_fns
    &&& a.current_fn_ret_type == b.current_fn_ret_type
    &&& a.final_check_blocks == b.final_check_blocks
    &&& a.terminated_blocks == b.terminated_blocks
    &&& a.module_files == b.module_files
    &&& a.float_constants == b.float_constants
    &&& a.printf_counter == b.printf_counter
}

/// The comparison predicate of an operator: signed for the orderings; none for arithmetic.
pub open spec fn predicate_of(op: BinOp) -> Option<Compare> {
    match op {
        BinOp::Lt => Some(Compare::SignedLess),
        BinOp::Le => Some(Compare::SignedLessEqual),
        BinOp::Eq => Some(Compare::Eq),
        BinOp::Ge => Some(Compare::SignedGreaterEqual),
        BinOp::Gt => Some(Compare::SignedGreater),
        BinOp::Ne => Some(Compare::Ne),
        _ => None,
    }
}

/// The record of the instruction an operator is built as.
pub open spec fn op_record(op: BinOp) -> Emitted {
    match predicate_of(op) {
        Some(p) => Emitted::Comparison { pred: p },
        None => Emitted::Operation { op },
    }
}

/// The record that a new code generator starts with: its module `main_module` made.
pub open spec fn new_module_log() -> Seq<Emitted> {
    seq![Emitted::Module { name: "main_module"@ }]
}

/// How deep code generation may go into modules (imports, and functions compiled from
/// other modules): the measure by which its recursion is proved to end. It is set as
/// high as a `usize` goes, so that, as in a compiler without it, the stack runs out
/// long before it is reached.
pub const MAX_MODULE_DEPTH: usize = usize::MAX;

/// The state of code generation for one LLVM module.
pub struct CodeGen<'ctx> {
    pub context: &'ctx Context,
    pub builder: Builder<'ctx>,
    pub module: Module<'ctx>,
    pub variables: Table<VariableInfo<'ctx>>,
    pub loaded_modules: Table<Vec<Stmt>>,
    pub string_counter: usize,
    pub loop_counter: usize,
    pub loop_exit_stack: Vec<BasicBlock<'ctx>>,
    pub attr_registry: AttributeRegistry,
    pub functions: Table<FunctionInfo>,
    pub inline_fns: Vec<String>,
    pub current_fn_ret_type: Type,
    pub final_check_blocks: Vec<BasicBlock<'ctx>>,
    pub terminated_blocks: Vec<BasicBlock<'ctx>>,
    /// The texts of the module files that imports may name, by file path.
    pub module_files: Table<String>,
    /// The float constants that float literals stand for.
    pub float_constants: Vec<FloatConstant<'ctx>>,
    pub printf_counter: usize,
    /// What has been asked of LLVM so far.
    pub emitted: Ghost<Seq<Emitted>>,
    /// Whether the builder has been given a position (it keeps one from then on).
    pub positioned: Ghost<bool>,
}

/// The name `prefix` followed by the decimal digits of `n`.
pub open spec fn numbered_name(prefix: Seq<char>, n: nat) -> Seq<char> {
    prefix + nat_digits(n)
}

/// `prefix` followed by the decimal digits of `n`.
pub fn numbered(prefix: &str, n: usize) -> (res: String)
    ensures
        res@ == numbered_name(prefix@, n as nat),
{
    let mut s = String::from_str(prefix);
    let d = count_text(n);
    s.append(d.as_str());
    s
}

impl<'ctx> CodeGen<'ctx> {
    /// The types of the declared variables.
    pub open spec fn var_types(&self) -> Map<Seq<char>, Type> {
        self.variables@.map_values(|v: VariableInfo<'ctx>| v.var_type)
    }

    /// Whether this state keeps what `before` held: the same context and module files,
    /// every variable, function and loaded module still known, no counter gone back.
    pub open spec fn keeps(&self, before: &CodeGen<'ctx>) -> bool {
        &&& self.context == before.context
        &&& self.module_files@ == before.module_files@
        &&& forall|k: Seq<char>| before.variables@.contains_key(k) ==> #[trigger] self.variables@.contains_key(k)
        &&& forall|k: Seq<char>| before.functions@.contains_key(k) ==> #[trigger] self.functions@.contains_key(k)
        &&& forall|k: Seq<char>| before.loaded_modules@.contains_key(k) ==> #[trigger] self.loaded_modules@.contains_key(k)
        &&& before.string_counter <= self.string_counter
        &&& before.loop_counter <= self.loop_counter
        &&& before.printf_counter <= self.printf_counter
        &&& before.emitted@.len() <= self.emitted@.len()
        &&& forall|i: int| 0 <= i < before.emitted@.len() ==> #[trigger] self.emitted@[i] == before.emitted@[i]
        &&& before.positioned@ ==> self.positioned@
    }

    /// A code generator for a new module `main_module` of `context`, with nothing declared.
    pub fn new(context: &'ctx Context) -> (res: Self)
        ensures
            res.context == context,
            res.variables@ == Map::<Seq<char>, VariableInfo<'ctx>>::empty(),
            res.loaded_modules@ == Map::<Seq<char>, Vec<Stmt>>::empty(),
            res.functions@ == Map::<Seq<char>, FunctionInfo>::empty(),
            res.module_files@ == Map::<Seq<char>, String>::empty(),
            res.attr_registry.handlers@.is_empty(),
            res.string_counter == 0,
            res.loop_counter == 0,
            res.printf_counter == 0,
            res.loop_exit_stack@.len() == 0,
            res.inline_fns@.len() == 0,
            res.final_check_blocks@.len() == 0,
            res.terminated_blocks@.len() == 0,
            res.float_constants@.len() == 0,
            res.current_fn_ret_type == Type::Void,
            res.emitted@ == new_module_log(),
            !res.positioned@,
    {
        let builder = create_builder(context);
        let module = create_module(context, "main_module");
        let log: Ghost<Seq<Emitted>> = Ghost(new_module_log());
        let unplaced: Ghost<bool> = Ghost(false);
        CodeGen {
            context,
            builder,
            module,
            variables: Table::new(),
            loaded_modules: Table::new(),
            string_counter: 0,
            loop_counter: 0,
            loop_exit_stack: Vec::new(),
            attr_registry: AttributeRegistry::new(),
            functions: Table::new(),
            inline_fns: Vec::new(),
            current_fn_ret_type: Type::Void,
            final_check_blocks: Vec::new(),
            terminated_blocks: Vec::new(),
            module_files: Table::new(),
            float_constants: Vec::new(),
            printf_counter: 0,
            emitted: log,
            positioned: unplaced,
        }
    }

    /// The float constant made for the literal `text` at type `typ`.
    pub fn float_constant(&self, text: &String, typ: &Type) -> (res: Option<BasicValueEnum<'ctx>>)
        ensures
            res is Some <==> exists|i: int| 0 <= i < self.float_constants@.len()
                && #[trigger] self.float_constants@[i].text@ == text@ && self.float_constants@[i].typ == *typ,
            res matches Some(v) ==> exists|i: int| 0 <= i < self.float_constants@.len()
                && #[trigger] self.float_constants@[i].text@ == text@ && self.float_constants@[i].typ == *typ
                && self.float_constants@[i].value == v,
    {
        let mut i: usize = 0;
        while i < self.float_constants.len()
            invariant
                i <= self.float_constants@.len(),
                forall|k: int| 0 <= k < i ==> !(#[trigger] self.float_constants@[k].text@ == text@
                    && self.float_constants@[k].typ == *typ),
            decreases self.float_constants@.len() - i,
        {
            let c = &self.float_constants[i];
            if c.text == *text && type_eq(&c.typ, typ) {
                return Some(c.value);
            }
            i = i + 1;
        }
        None
    }

    /// The constant of a value: an `i64` for an integer, an `f64` for a float, an `i1`
    /// for a boolean; strings have none here.
    pub fn lower_value_to_llvm(&self, value: &Value) -> (res: Option<BasicValueEnum<'ctx>>)
        ensures
            value is Int ==> res is Some,
            value is Bool ==> res is Some,
            value is Str ==> res is None,
    {
        match value {
            Value::Int(v) => Some(int_value_basic(const_int(i64_type(self.context), *v as u64, true))),
            Value::Float(text) => self.float_constant(text, &Type::F64),
            Value::Bool(b) => Some(int_value_basic(const_int(bool_type(self.context), if *b { 1 } else { 0 }, false))),
            Value::Str(_) => None,
        }
    }

    /// The constant of a value, a string becoming a pointer to a global copy of it.
    pub fn const_from_value(&self, value: &Value) -> (res: Result<BasicValueEnum<'ctx>, String>)
        ensures
            value is Int ==> res is Ok,
            value is Bool ==> res is Ok,
    {
        match value {
            Value::Int(i) => Ok(int_value_basic(const_int(i64_type(self.context), *i as u64, true))),
            Value::Float(text) => match self.float_constant(text, &Type::F64) {
                Some(v) => Ok(v),
                None => Err(String::from_str("no float constant was made for this literal")),
            },
            Value::Bool(b) => Ok(int_value_basic(const_int(bool_type(self.context), if *b { 1 } else { 0 }, false))),
            Value::Str(s) => match build_global_string_ptr(self, s.as_str(), "str") {
                Some(v) => Ok(v),
                None => Err(String::from_str("Error building global string pointer")),
            },
        }
    }

    /// A value as an `i1`: an integer of another width is compared with zero, an `i1`
    /// is kept, anything else is refused.
    pub fn to_bool(&mut self, val: BasicValueEnum<'ctx>) -> (res: Result<IntValue<'ctx>, String>)
        ensures
            final(self).keeps(old(self)),
            same_parts(*old(self), *final(self)),
            final(self).positioned == old(self).positioned,
            res matches Err(m) ==> m@ == "tried to convert non-int into bool"@
                || m@ == "could not build the comparison with zero"@,
    {
        match as_int_value(val) {
            Some(iv) => {
                if int_width(iv) != 1 {
                    let zero = const_int(i64_type(self.context), 0, false);
                    match build_int_compare(self, Compare::Ne, iv, zero, "to_i1") {
                        Some(b) => Ok(b),
                        None => Err(String::from_str("could not build the comparison with zero")),
                    }
                } else {
                    Ok(iv)
                }
            },
            None => Err(String::from_str("tried to convert non-int into bool")),
        }
    }

    /// Declares `printf`: an `i32` function of a byte pointer and further arguments.
    pub fn import_printf(&mut self) -> (res: Result<(), String>)
        ensures
            res is Ok,
            final(self).keeps(old(self)),
            final(self).variables@ == old(self).variables@,
            final(self).functions@ == old(self).functions@,
            final(self).loop_exit_stack@ == old(self).loop_exit_stack@,
            final(self).attr_registry.handlers@ == old(self).attr_registry.handlers@,
            final(self).current_fn_ret_type == old(self).current_fn_ret_type,
            final(self).string_counter == old(self).string_counter,
            final(self).printf_counter == old(self).printf_counter,
            final(self).emitted@ == old(self).emitted@.push(printf_declared()),
    {
        proof {
            self.emitted@ = self.emitted@.push(printf_declared());
        }
        let mut params: Vec<BasicTypeEnum<'ctx>> = Vec::new();
        params.push(byte_ptr_type(self.context));
        let printf_type = fn_type(int_type_basic(i32_type(self.context)), &params, true);
        let _printf = add_function(&self.module, "printf", printf_type, false);
        Ok(())
    }

    /// The textual IR of the module.
    pub fn show_result(&self) -> String {
        module_text(&self.module)
    }
}

impl<'ctx> CodeGen<'ctx> {
    /// A pointer to a new global copy of `text`, named `str_` and the string counter,
    /// which then moves on by one.
    pub fn lower_string(&mut self, text: &str) -> (res: Result<BasicValueEnum<'ctx>, String>)
        ensures
            final(self).keeps(old(self)),
            final(self).variables@ == old(self).variables@,
            final(self).functions@ == old(self).functions@,
            final(self).loop_exit_stack@ == old(self).loop_exit_stack@,
            final(self).attr_registry.handlers@ == old(self).attr_registry.handlers@,
            final(self).current_fn_ret_type == old(self).current_fn_ret_type,
            final(self).printf_counter == old(self).printf_counter,
            old(self).string_counter < usize::MAX ==> final(self).string_counter == old(self).string_counter + 1,
            old(self).string_counter == usize::MAX ==> res is Err
                && final(self).string_counter == old(self).string_counter
                && final(self).emitted@ == old(self).emitted@,
            old(self).string_counter < usize::MAX && old(self).positioned@ ==> res is Ok,
            old(self).string_counter < usize::MAX ==> final(self).emitted@ == old(self).emitted@.push(
                Emitted::GlobalString { name: numbered_name("str_"@, old(self).string_counter as nat), text: text@ }),
    {
        if self.string_counter == usize::MAX {
            return Err(String::from_str("too many string constants"));
        }
        let name = numbered("str_", self.string_counter);
        proof {
            self.emitted@ = self.emitted@.push(Emitted::GlobalString { name: name@, text: text@ });
        }
        self.string_counter = self.string_counter + 1;
        match build_global_string_ptr(self, text, name.as_str()) {
            Some(v) => Ok(v),
            None => Err(String::from_str("Error building global string pointer")),
        }
    }

    /// The number of the next `printf` call, which moves the counter on by one.
    pub fn next_printf_id(&mut self) -> (res: Result<usize, String>)
        ensures
            final(self).keeps(old(self)),
            final(self).variables@ == old(self).variables@,
            final(self).functions@ == old(self).functions@,
            final(self).loop_exit_stack@ == old(self).loop_exit_stack@,
            final(self).attr_registry.handlers@ == old(self).attr_registry.handlers@,
            final(self).current_fn_ret_type == old(self).current_fn_ret_type,
            final(self).string_counter == old(self).string_counter,
            res is Ok <==> old(self).printf_counter < usize::MAX,
            res matches Ok(id) ==> id == old(self).printf_counter && final(self).printf_counter == id + 1,
            res is Err ==> final(self).printf_counter == old(self).printf_counter,
    {
        if self.printf_counter == usize::MAX {
            return Err(String::from_str("too many printf calls"));
        }
        let id = self.printf_counter;
        self.printf_counter = id + 1;
        Ok(id)
    }

    /// Prints `text` and a line break through `printf`, passing the text the way
    /// `printf` passes one string argument (lowered once for the format's place and
    /// once more for the further arguments).
    pub fn printf_literal(&mut self, text: &str) -> (res: Result<(), String>)
        ensures
            final(self).keeps(old(self)),
            final(self).variables@ == old(self).variables@,
            final(self).functions@ == old(self).functions@,
            final(self).loop_exit_stack@ == old(self).loop_exit_stack@,
            final(self).attr_registry.handlers@ == old(self).attr_registry.handlers@,
            old(self).printf_counter == usize::MAX ==> res is Err
                && final(self).printf_counter == old(self).printf_counter
                && final(self).string_counter == old(self).string_counter,
            old(self).printf_counter < usize::MAX ==> final(self).printf_counter == old(self).printf_counter + 1,
            old(self).printf_counter < usize::MAX && old(self).string_counter < usize::MAX ==>
                final(self).string_counter > old(self).string_counter,
            final(self).string_counter <= old(self).string_counter + 2,
            res is Ok ==> final(self).string_counter == old(self).string_counter + 2,
    {
        self.import_printf()?;
        let id = self.next_printf_id()?;
        let first = self.lower_string(text)?;
        let fmt_name = numbered("fmt_", id);
        let format = match build_global_string_ptr(self, "%s\n", fmt_name.as_str()) {
            Some(v) => v,
            None => {
                return Err(String::from_str("Error building global string pointer"));
            },
        };
        let second = self.lower_string(text)?;
        let printf = match get_function(&self.module, "printf") {
            Some(f) => f,
            None => {
                return Err(String::from_str("printf isnt defined. Did you mean to import printf?"));
            },
        };
        let mut args: Vec<BasicValueEnum<'ctx>> = Vec::new();
        args.push(format);
        args.push(first);
        args.push(second);
        let call_name = numbered("printf_call_", id);
        match build_call(self, printf, &args, call_name.as_str()) {
            Some(_) => Ok(()),
            None => Err(String::from_str("could not build the call to printf")),
        }
    }
}

impl<'ctx> CodeGen<'ctx> {
    /// The `i64` constant of an argument passed as an integer literal; none for another argument.
    pub fn compile_int(&self, arg: &TypedArg) -> (res: Option<BasicValueEnum<'ctx>>)
        ensures
            res is Some <==> arg.value matches Some(Expr::Literal(Value::Int(_))),
    {
        match &arg.value {
            Some(Expr::Literal(Value::Int(v))) => Some(int_value_basic(const_int(i64_type(self.context), *v as u64, true))),
            _ => None,
        }
    }

    /// A pointer to a global copy of an argument passed as a string literal, named
    /// `str_<id>_<index>`; none for another argument, or where the copy could not be built.
    pub fn compile_str(&self, arg: &TypedArg, id: usize, index: usize) -> (res: Option<BasicValueEnum<'ctx>>)
        ensures
            res is Some ==> arg.value matches Some(Expr::Literal(Value::Str(_))),
    {
        match &arg.value {
            Some(Expr::Literal(Value::Str(s))) => {
                let mut name = numbered("str_", id);
                name.append("_");
                let d = count_text(index);
                name.append(d.as_str());
                build_global_string_ptr(self, s.as_str(), name.as_str())
            },
            _ => None,
        }
    }

    /// The value of the variable an argument names, loaded; none where no variable of
    /// that name is declared or the load could not be built.
    pub fn compile_id(&self, arg: &TypedArg) -> (res: Option<BasicValueEnum<'ctx>>)
        ensures
            !self.variables@.contains_key(arg.name@) ==> res is None,
    {
        match self.variables.get(&arg.name) {
            Some(info) => build_load(self, info.ptr_value, "loaded_id"),
            None => None,
        }
    }
}

} // verus!
