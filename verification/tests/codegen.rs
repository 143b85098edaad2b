use inkwell::context::Context;
use kurai::ast::{Attribute, BinOp, Expr, Stmt};
use kurai::codegen::gen::CodeGen;
use kurai::codegen::imports::{float_literals, import_paths};
use kurai::codegen::plan::{printf_format_string, split_module_function_name};
use kurai::parser::session::Parser;
use kurai::parser::traits::{
    BlockParserStruct, FunctionParserStruct, GroupedParsers, ImportParserStruct, LoopParserStruct, StmtParserStruct,
};
use kurai::scope::Scope;
use kurai::token::Token;
use kurai::types::Type;
use kurai::value::Value;

fn parsers() -> GroupedParsers {
    GroupedParsers::new(StmtParserStruct, FunctionParserStruct, ImportParserStruct, BlockParserStruct, LoopParserStruct)
}

fn program(code: &str) -> Vec<Stmt> {
    let mut p = Parser::default();
    p.tokens = Token::tokenize(code);
    p.parse_out_vec_stmt()
}

fn generate(cg: &mut CodeGen, code: &str) -> Result<(), String> {
    let mut dm = Vec::new();
    let mut scope = Scope::new();
    cg.generate_code(program(code), vec![], &mut dm, &parsers(), &mut scope)
}

#[test]
fn codegen_function_with_variables() {
    let context = Context::create();
    let mut cg = CodeGen::new(&context);
    generate(&mut cg, "fn main() i32 { let x = 3; x = 4; return x; }").unwrap();
    let ir = cg.show_result();
    assert!(ir.contains("define i32 @main()"));
    assert!(ir.contains("alloca i64"));
    assert!(ir.contains("ret i32"));
    assert_eq!(cg.variables.get(&"x".to_string()).map(|v| v.var_type.clone()), Some(Type::I64));
    assert_eq!(cg.functions.get(&"main".to_string()).map(|f| f.ret_type.clone()), Some(Type::I32));
}

#[test]
fn codegen_printf_call() {
    let context = Context::create();
    let mut cg = CodeGen::new(&context);
    cg.import_printf().unwrap();
    generate(&mut cg, "fn main() { printf(\"hi\", 5); }").unwrap();
    let ir = cg.show_result();
    assert!(ir.contains("declare i32 @printf(i8*, ...)"));
    assert!(ir.contains("%s%ld\\0A"));
    assert!(ir.contains("call i32 (i8*, ...) @printf"));
    assert!(ir.contains("ret void"));
}

#[test]
fn codegen_loop_with_break() {
    let context = Context::create();
    let mut cg = CodeGen::new(&context);
    let main = Stmt::FnDecl {
        name: "main".to_string(),
        args: vec![],
        body: vec![Stmt::Loop { body: vec![Stmt::Break] }],
        attributes: vec![],
        ret_type: Type::Void,
        is_extern: false,
    };
    let mut dm = Vec::new();
    let mut scope = Scope::new();
    cg.execute_every_stmt_in_code(vec![main], &mut dm, &parsers(), &mut scope, None).unwrap();
    let ir = cg.show_result();
    assert!(ir.contains("loop_0"));
    assert!(ir.contains("after_loop_0"));
    assert!(ir.contains("br label %after_loop_0"));
    assert_eq!(cg.loop_counter, 1);
    assert!(cg.loop_exit_stack.is_empty());
}

#[test]
fn codegen_break_outside_loop_halts() {
    let context = Context::create();
    let mut cg = CodeGen::new(&context);
    assert!(generate(&mut cg, "fn main() { break; }").is_err());
}

#[test]
fn codegen_assignment_to_unknown_variable_halts() {
    let context = Context::create();
    let mut cg = CodeGen::new(&context);
    assert!(generate(&mut cg, "fn main() { y = 1; }").is_err());
}

#[test]
fn codegen_return_in_void_function_halts() {
    let context = Context::create();
    let mut cg = CodeGen::new(&context);
    assert!(generate(&mut cg, "fn main() { return 1; }").is_err());
}

#[test]
fn codegen_if_else_branches() {
    let context = Context::create();
    let mut cg = CodeGen::new(&context);
    generate(&mut cg, "fn main() { let a = 1; if a < 2 { a = 3; } else { a = 4; } }").unwrap();
    let ir = cg.show_result();
    assert!(ir.contains("then_0"));
    assert!(ir.contains("merge"));
    assert!(ir.contains("icmp slt"));
}

#[test]
fn codegen_imports_module_from_files() {
    let context = Context::create();
    let mut cg = CodeGen::new(&context);
    cg.module_files.insert("util.kurai".to_string(), "fn helper() i64 { return 7; }".to_string());
    generate(&mut cg, "use util; fn main() i64 { let v = helper(); return v; }").unwrap();
    let ir = cg.show_result();
    assert!(ir.contains("define i64 @helper()"));
    assert!(ir.contains("call i64 @helper()"));
    assert!(cg.loaded_modules.contains_key(&"util".to_string()));
}

#[test]
fn codegen_missing_module_halts() {
    let context = Context::create();
    let mut cg = CodeGen::new(&context);
    assert!(generate(&mut cg, "use nowhere;").is_err());
}

#[test]
fn codegen_lower_value_kinds() {
    let context = Context::create();
    let cg = CodeGen::new(&context);
    assert!(cg.lower_value_to_llvm(&Value::Int(3)).is_some());
    assert!(cg.lower_value_to_llvm(&Value::Bool(true)).is_some());
    assert!(cg.lower_value_to_llvm(&Value::Str("s".to_string())).is_none());
}

#[test]
fn type_to_llvm_type_kinds() {
    let context = Context::create();
    assert!(Type::I32.to_llvm_type(&context).is_some());
    assert!(Type::Str.to_llvm_type(&context).is_some());
    assert!(Type::Void.to_llvm_type(&context).is_none());
    assert!(Type::Var.to_llvm_type(&context).is_none());
    let t = Type::I8.to_llvm_type(&context).unwrap();
    assert_eq!(Type::from_llvm_type(t), Some(Type::I32));
    let p = Type::Str.to_llvm_type(&context).unwrap();
    assert_eq!(Type::from_llvm_type(p), Some(Type::Str));
}

#[test]
fn printf_format_for_types() {
    assert_eq!(printf_format_string(&vec![Type::I64, Type::Str, Type::Var]), Some("%ld%s%s\n".to_string()));
    assert_eq!(printf_format_string(&vec![]), Some("\n".to_string()));
    assert_eq!(printf_format_string(&vec![Type::I32]), None);
}

#[test]
fn split_qualified_names() {
    assert_eq!(split_module_function_name("io::print"), Some(("io".to_string(), "print".to_string())));
    assert_eq!(split_module_function_name("a::b::c"), Some(("a".to_string(), "b".to_string())));
    assert_eq!(split_module_function_name("a:::b"), Some(("a".to_string(), ":b".to_string())));
}

#[test]
fn import_paths_nested() {
    let stmts = program("use a::b; fn f() { use c; }");
    let paths = import_paths(&stmts);
    assert_eq!(
        paths,
        vec![vec!["a".to_string(), "b".to_string()], vec!["c".to_string()]]
    );
}

#[test]
fn float_literals_in_tokens() {
    let tokens = Token::tokenize("let x = 1.5; let y = 2; let z = 0.25;");
    assert_eq!(float_literals(&tokens), vec!["1.5".to_string(), "0.25".to_string()]);
}

#[test]
fn instr_llvm_text() {
    let i = kurai::instr::Instr::printf("printf".to_string(), vec![Value::Int(-1), Value::Str("a\"b".to_string()), Value::Bool(false)]);
    assert_eq!(i.to_llvm_ir(), "call i32 (ptr, ...) @printf([Int(-1), Str(\"a\\\"b\"), Bool(false)])");
}

#[test]
fn program_with_trailing_semicolon_stops() {
    let mut p = Parser::default();
    p.tokens = Token::tokenize("(1 + 2);");
    assert!(p.try_parse_out_vec_stmt().is_err());
}

fn extern_decl(name: &str) -> Stmt {
    Stmt::FnDecl {
        name: name.to_string(),
        args: vec![],
        body: vec![],
        attributes: vec![],
        ret_type: Type::I32,
        is_extern: true,
    }
}

#[test]
fn codegen_empty_program_is_ok() {
    let context = Context::create();
    let mut cg = CodeGen::new(&context);
    assert!(generate(&mut cg, "").is_ok());
    assert_eq!(cg.string_counter, 0);
    assert_eq!(cg.loop_counter, 0);
}

#[test]
fn codegen_extern_function_is_recorded() {
    let context = Context::create();
    let mut cg = CodeGen::new(&context);
    let mut dm = Vec::new();
    let mut scope = Scope::new();
    cg.execute_every_stmt_in_code(vec![extern_decl("puts")], &mut dm, &parsers(), &mut scope, None).unwrap();
    let info = cg.functions.get(&"puts".to_string()).unwrap();
    assert!(info.is_extern);
    assert_eq!(info.ret_type, Type::I32);
    assert!(cg.show_result().contains("declare i32 @puts()"));
}

#[test]
fn codegen_break_at_top_level_halts() {
    let context = Context::create();
    let mut cg = CodeGen::new(&context);
    let mut dm = Vec::new();
    let mut scope = Scope::new();
    let res = cg.execute_every_stmt_in_code(vec![extern_decl("puts"), Stmt::Break], &mut dm, &parsers(), &mut scope, None);
    assert_eq!(res, Err("Break outside of loop".to_string()));
    assert!(cg.functions.contains_key(&"puts".to_string()));
}

#[test]
fn printf_ids_count_up() {
    let context = Context::create();
    let mut cg = CodeGen::new(&context);
    assert_eq!(cg.next_printf_id(), Ok(0));
    assert_eq!(cg.next_printf_id(), Ok(1));
    assert_eq!(cg.printf_counter, 2);
}

#[test]
fn lowering_a_string_moves_the_counter_even_when_it_fails() {
    let context = Context::create();
    let mut cg = CodeGen::new(&context);
    // No block to build in yet: the global cannot be built, the name is used up all the same.
    assert!(cg.lower_string("a").is_err());
    assert_eq!(cg.string_counter, 1);
}

#[test]
fn function_of_a_module_not_loaded_is_none() {
    let context = Context::create();
    let mut cg = CodeGen::new(&context);
    let mut dm = Vec::new();
    let mut scope = Scope::new();
    let res = cg.get_or_compile_function(&"util::helper".to_string(), &mut dm, &parsers(), &mut scope, 4);
    assert!(matches!(res, Ok(None)));
    let res = cg.get_or_compile_function(&"helper".to_string(), &mut dm, &parsers(), &mut scope, 4);
    assert!(matches!(res, Ok(None)));
}

#[test]
fn inline_attribute_marks_the_function() {
    let context = Context::create();
    let mut cg = CodeGen::new(&context);
    cg.attr_registry.register_all();
    let stmt = extern_decl("f");
    let attrs = vec![Attribute::Simple("inline".to_string()), Attribute::Simple("unknown".to_string())];
    assert!(cg.load_attributes(&attrs, &stmt).is_ok());
    assert_eq!(cg.inline_fns, vec!["f".to_string()]);
}

#[test]
fn codegen_for_counter_type_is_refused() {
    // The counter of a `for` loop is declared with the type text `int`, which is no type.
    let context = Context::create();
    let mut cg = CodeGen::new(&context);
    assert!(generate(&mut cg, "fn main() { for i in 0..3 { } }").is_err());
}

#[test]
fn codegen_plain_definition_is_recorded() {
    let context = Context::create();
    let mut cg = CodeGen::new(&context);
    let lit = |v: i64| Expr::Literal(Value::Int(v));
    let main = Stmt::FnDecl {
        name: "main".to_string(),
        args: vec![],
        body: vec![
            Stmt::VarDecl { name: "a".to_string(), typ: None, value: Some(lit(1)) },
            Stmt::VarDecl { name: "b".to_string(), typ: Some("i32".to_string()), value: Some(lit(2)) },
            Stmt::Assign { name: "a".to_string(), value: lit(3) },
        ],
        attributes: vec![],
        ret_type: Type::Void,
        is_extern: false,
    };
    let mut dm = Vec::new();
    let mut scope = Scope::new();
    cg.execute_every_stmt_in_code(vec![main], &mut dm, &parsers(), &mut scope, None).unwrap();
    let info = cg.functions.get(&"main".to_string()).unwrap();
    assert_eq!(info.ret_type, Type::Void);
    assert!(info.args.is_empty());
    assert!(!info.is_extern);
    assert_eq!(cg.current_fn_ret_type, Type::Void);
    assert_eq!(cg.variables.get(&"a".to_string()).map(|v| v.var_type.clone()), Some(Type::I64));
    assert_eq!(cg.variables.get(&"b".to_string()).map(|v| v.var_type.clone()), Some(Type::I32));
    let ir = cg.show_result();
    assert!(ir.contains("define void @main()"));
    assert!(ir.contains("entry:"));
    assert!(ir.contains("ret void"));
}

#[test]
fn codegen_comparison_widens_and_compares() {
    let context = Context::create();
    let mut cg = CodeGen::new(&context);
    let lit = |v: i64| Expr::Literal(Value::Int(v));
    let var = |n: &str| Expr::Id(n.to_string());
    let main = Stmt::FnDecl {
        name: "main".to_string(),
        args: vec![],
        body: vec![
            Stmt::VarDecl { name: "a".to_string(), typ: Some("i32".to_string()), value: Some(lit(1)) },
            Stmt::VarDecl { name: "b".to_string(), typ: None, value: Some(lit(2)) },
            Stmt::Expr(Expr::Binary { op: BinOp::Lt, left: Box::new(var("a")), right: Box::new(var("b")) }),
        ],
        attributes: vec![],
        ret_type: Type::Void,
        is_extern: false,
    };
    let mut dm = Vec::new();
    let mut scope = Scope::new();
    cg.execute_every_stmt_in_code(vec![main], &mut dm, &parsers(), &mut scope, None).unwrap();
    let ir = cg.show_result();
    assert!(ir.contains("sext i32"));
    assert!(ir.contains("icmp slt i64"));
}
