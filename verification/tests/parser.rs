use kurai::ast::{Attribute, AttrArg, BinOp, Expr, IfBranch, Stmt, TypedArg};
use kurai::eat::eat_stmt;
use kurai::parser::entry::{
    parse_attrs, parse_block, parse_block_stmt, parse_equal, parse_expr_block, parse_fn_call, parse_fn_decl,
    parse_for_loop, parse_if_else, parse_import_decl, parse_imported_file, parse_loop, parse_return,
    parse_var_assign, parse_var_decl, parse_while_loop, parse_arithmetic,
};
use kurai::parser::session::Parser;
use kurai::parser::traits::{
    BlockParser, BlockParserStruct, FunctionParserStruct, GroupedParsers, ImportParserStruct, LoopParserStruct,
    StmtParserStruct,
};
use kurai::scope::Scope;
use kurai::token::Token;
use kurai::types::Type;
use kurai::value::Value;

fn parsers() -> GroupedParsers {
    GroupedParsers::new(StmtParserStruct, FunctionParserStruct, ImportParserStruct, BlockParserStruct, LoopParserStruct)
}

fn toks(code: &str) -> Vec<Token> {
    Token::tokenize(code)
}

fn parser_for(code: &str) -> Parser {
    let mut p = Parser::default();
    p.tokens = toks(code);
    p
}

fn lit(v: i64) -> Expr {
    Expr::Literal(Value::Int(v))
}

fn var(name: &str) -> Expr {
    Expr::Id(name.to_string())
}

fn bin(op: BinOp, l: Expr, r: Expr) -> Expr {
    Expr::Binary { op, left: Box::new(l), right: Box::new(r) }
}

fn block_value(stmts: Vec<Stmt>, fin: Option<Expr>) -> Expr {
    Expr::Block { stmts, final_expr: fin.map(Box::new) }
}

#[test]
fn parse_stmt_let_with_precedence() {
    let mut p = parser_for("let x = 1 + 2 * 3;");
    let st = p.parse_stmt().unwrap();
    let value = bin(BinOp::Add, lit(1), bin(BinOp::Mul, lit(2), lit(3)));
    assert_eq!(st, Stmt::VarDecl { name: "x".to_string(), typ: None, value: Some(value.clone()) });
    assert_eq!(p.pos, 9);
    assert_eq!(p.scope.get(&"x".to_string()), Some(&value));
}

#[test]
fn parse_stmt_subtraction_is_left_associative() {
    let mut p = parser_for("1 - 2 - 3;");
    let st = p.parse_stmt().unwrap();
    assert_eq!(st, Stmt::Expr(bin(BinOp::Sub, bin(BinOp::Sub, lit(1), lit(2)), lit(3))));
    assert_eq!(p.pos, 5);
}

#[test]
fn parse_stmt_parenthesised_expression() {
    let mut p = parser_for("(1 + 2) * 3;");
    let st = p.parse_stmt().unwrap();
    assert_eq!(st, Stmt::Expr(bin(BinOp::Mul, bin(BinOp::Add, lit(1), lit(2)), lit(3))));
}

#[test]
fn parse_stmt_break_moves_three_tokens() {
    let mut p = parser_for("break ; x");
    assert_eq!(p.parse_stmt().unwrap(), Stmt::Break);
    assert_eq!(p.pos, 3);
}

#[test]
fn parse_stmt_identifier_without_assignment_or_call() {
    let mut p = parser_for("x + 1;");
    assert!(p.parse_stmt().is_err());
    assert_eq!(p.pos, 0);
}

#[test]
fn parse_stmt_call_becomes_expression() {
    let mut p = parser_for("printf(\"hi\", 5, x);");
    let st = p.parse_stmt().unwrap();
    let call = Expr::FnCall {
        name: "printf".to_string(),
        args: vec![Expr::Literal(Value::Str("hi".to_string())), lit(5), var("x")],
    };
    assert_eq!(st, Stmt::Expr(call));
    assert_eq!(p.pos, 9);
}

#[test]
fn parse_stmt_function_with_attribute() {
    let mut p = parser_for("#[inline] fn f() { }");
    let st = p.parse_stmt().unwrap();
    assert_eq!(
        st,
        Stmt::FnDecl {
            name: "f".to_string(),
            args: vec![],
            body: vec![],
            attributes: vec![Attribute::Simple("inline".to_string())],
            ret_type: Type::Void,
            is_extern: false,
        }
    );
}

#[test]
fn parser_attrs_with_arguments() {
    let mut p = parser_for("#[test(a, key = value, \"s\")]");
    let attrs = p.parse_attrs().unwrap();
    assert_eq!(
        attrs,
        vec![Attribute::WithArgs {
            name: "test".to_string(),
            args: vec![
                AttrArg::Positional("a".to_string()),
                AttrArg::Named("key".to_string(), Value::Str("value".to_string())),
                AttrArg::Positional("s".to_string()),
            ],
        }]
    );
    assert_eq!(p.pos, 13);
}

#[test]
fn parse_fn_decl_with_args_and_return() {
    let tokens = toks("fn add(a: i32, b: i32) i32 { return a; }");
    let mut pos = 0;
    let mut dm = Vec::new();
    let mut scope = Scope::new();
    let st = parse_fn_decl(&tokens, &mut pos, &mut dm, &parsers(), &mut scope, vec![]).unwrap();
    assert_eq!(
        st,
        Stmt::FnDecl {
            name: "add".to_string(),
            args: vec![
                TypedArg { name: "a".to_string(), typ: Type::I32, value: None },
                TypedArg { name: "b".to_string(), typ: Type::I32, value: None },
            ],
            body: vec![Stmt::Return(Some(var("a")))],
            attributes: vec![],
            ret_type: Type::I32,
            is_extern: false,
        }
    );
    assert_eq!(pos, tokens.len());
}

#[test]
fn parse_fn_decl_pointer_return_type() {
    let tokens = toks("fn p() **i64 { }");
    let mut pos = 0;
    let mut dm = Vec::new();
    let mut scope = Scope::new();
    let st = parse_fn_decl(&tokens, &mut pos, &mut dm, &parsers(), &mut scope, vec![]).unwrap();
    match st {
        Stmt::FnDecl { ret_type, .. } => {
            assert_eq!(ret_type, Type::Ptr(Box::new(Type::Ptr(Box::new(Type::I64)))));
        }
        other => panic!("unexpected {:?}", other),
    }
}

#[test]
fn parse_fn_decl_requires_fn_keyword() {
    let tokens = toks("add() { }");
    let mut pos = 0;
    let mut dm = Vec::new();
    let mut scope = Scope::new();
    assert!(parse_fn_decl(&tokens, &mut pos, &mut dm, &parsers(), &mut scope, vec![]).is_err());
    assert_eq!(pos, 0);
}

#[test]
fn parse_return_without_value_passes_over_semicolon() {
    let tokens = toks("return ;");
    let mut pos = 0;
    let mut dm = Vec::new();
    let mut scope = Scope::new();
    assert!(parse_return(&tokens, &mut pos, &mut dm, &parsers(), &mut scope, "").is_err());
    assert_eq!(pos, 2);
}

#[test]
fn parse_return_number() {
    let tokens = toks("return 0;");
    let mut pos = 0;
    let mut dm = Vec::new();
    let mut scope = Scope::new();
    let st = parse_return(&tokens, &mut pos, &mut dm, &parsers(), &mut scope, "").unwrap();
    assert_eq!(st, Stmt::Return(Some(lit(0))));
    assert_eq!(pos, 3);
}

#[test]
fn parse_return_rejects_arithmetic() {
    let tokens = toks("return a + b;");
    let mut pos = 0;
    let mut dm = Vec::new();
    let mut scope = Scope::new();
    assert!(parse_return(&tokens, &mut pos, &mut dm, &parsers(), &mut scope, "").is_err());
    assert_eq!(pos, 2);
}

#[test]
fn parse_if_else_expression() {
    let tokens = toks("if x < 3 { 1 } else { 2 }");
    let mut pos = 0;
    let mut dm = Vec::new();
    let mut scope = Scope::new();
    let e = parse_if_else(&tokens, &mut pos, &mut dm, &parsers(), &mut scope, "").unwrap();
    assert_eq!(
        e,
        Expr::If {
            branches: vec![IfBranch {
                condition: bin(BinOp::Lt, var("x"), lit(3)),
                body: vec![block_value(vec![], Some(lit(1)))],
            }],
            else_body: Some(vec![block_value(vec![], Some(lit(2)))]),
        }
    );
    assert_eq!(pos, tokens.len());
}

#[test]
fn parse_if_with_parenthesised_condition() {
    let tokens = toks("if (a == b) { f(); }");
    let mut pos = 0;
    let mut dm = Vec::new();
    let mut scope = Scope::new();
    let e = parse_if_else(&tokens, &mut pos, &mut dm, &parsers(), &mut scope, "").unwrap();
    let call = Expr::FnCall { name: "f".to_string(), args: vec![] };
    assert_eq!(
        e,
        Expr::If {
            branches: vec![IfBranch {
                condition: bin(BinOp::Eq, var("a"), var("b")),
                body: vec![block_value(vec![], Some(call))],
            }],
            else_body: None,
        }
    );
}

#[test]
fn parse_expr_block_keeps_statements_and_value() {
    let tokens = toks("{ let y = 2; ; (y) }");
    let mut pos = 0;
    let mut dm = Vec::new();
    let mut scope = Scope::new();
    let v = parse_expr_block(&tokens, &mut pos, &mut dm, &parsers(), &mut scope, "").unwrap();
    assert_eq!(
        v,
        vec![block_value(
            vec![Stmt::VarDecl { name: "y".to_string(), typ: None, value: Some(lit(2)) }],
            Some(var("y"))
        )]
    );
    assert_eq!(scope.get(&"y".to_string()), Some(&lit(2)));
}

#[test]
fn parse_for_loop_desugars() {
    let tokens = toks("for i in 0..3 { printf(i); }");
    let mut pos = 0;
    let mut dm = Vec::new();
    let mut scope = Scope::new();
    let st = parse_for_loop(&tokens, &mut pos, &mut dm, &parsers(), &mut scope).unwrap();
    let call = Stmt::Expr(Expr::FnCall { name: "printf".to_string(), args: vec![var("i")] });
    let expected = Stmt::Block(vec![
        Stmt::VarDecl { name: "i".to_string(), typ: Some("int".to_string()), value: Some(lit(0)) },
        Stmt::Loop {
            body: vec![
                Stmt::Expr(Expr::If {
                    branches: vec![IfBranch {
                        condition: bin(BinOp::Ge, var("i"), lit(3)),
                        body: vec![block_value(vec![Stmt::Break], None)],
                    }],
                    else_body: None,
                }),
                Stmt::Block(vec![call]),
                Stmt::Assign { name: "i".to_string(), value: bin(BinOp::Add, var("i"), lit(1)) },
            ],
        },
    ]);
    assert_eq!(st, expected);
    assert_eq!(pos, tokens.len());
}

#[test]
fn parse_while_loop_desugars() {
    let tokens = toks("while x < 3 { x = x + 1; }");
    let mut pos = 0;
    let mut dm = Vec::new();
    let mut scope = Scope::new();
    let st = parse_while_loop(&tokens, &mut pos, &mut dm, &parsers(), &mut scope).unwrap();
    let assign = Stmt::Assign { name: "x".to_string(), value: bin(BinOp::Add, var("x"), lit(1)) };
    let expected = Stmt::Block(vec![Stmt::Loop {
        body: vec![Stmt::Expr(Expr::If {
            branches: vec![IfBranch {
                condition: bin(BinOp::Lt, var("x"), lit(3)),
                body: vec![block_value(vec![assign], None)],
            }],
            else_body: Some(vec![block_value(vec![Stmt::Break], None)]),
        })],
    }]);
    assert_eq!(st, expected);
}

#[test]
fn parse_loop_body() {
    let tokens = toks("loop { break; }");
    let mut pos = 0;
    let mut dm = Vec::new();
    let mut scope = Scope::new();
    let st = parse_loop(&tokens, &mut pos, &mut dm, &parsers(), &mut scope).unwrap();
    assert_eq!(st, Stmt::Loop { body: vec![Stmt::Break] });
}

#[test]
fn parse_var_decl_needs_name() {
    let tokens = toks("let = 5;");
    let mut pos = 0;
    let mut dm = Vec::new();
    let mut scope = Scope::new();
    assert!(parse_var_decl(&tokens, &mut pos, &mut dm, &parsers(), &mut scope).is_err());
    assert_eq!(pos, 1);
}

#[test]
fn parse_var_assign_statement() {
    let tokens = toks("total = total * 2;");
    let mut pos = 0;
    let mut dm = Vec::new();
    let mut scope = Scope::new();
    let st = parse_var_assign(&tokens, &mut pos, &mut dm, &parsers(), &mut scope, "").unwrap();
    assert_eq!(st, Stmt::Assign { name: "total".to_string(), value: bin(BinOp::Mul, var("total"), lit(2)) });
    assert_eq!(pos, 6);
}

#[test]
fn parse_import_decl_records_modules() {
    let tokens = toks("use std::io as sio;");
    let mut pos = 0;
    let mut dm = Vec::new();
    let st = parse_import_decl(&tokens, &mut pos, &mut dm).unwrap();
    assert_eq!(
        st,
        Stmt::Import { path: vec!["std".to_string(), "io".to_string()], nickname: Some("sio".to_string()), is_glob: false }
    );
    assert_eq!(dm, vec!["std".to_string(), "io".to_string()]);
    assert_eq!(pos, tokens.len());
}

#[test]
fn parse_import_decl_needs_semicolon() {
    let tokens = toks("use std");
    let mut pos = 0;
    let mut dm = Vec::new();
    assert!(parse_import_decl(&tokens, &mut pos, &mut dm).is_err());
    assert_eq!(dm, vec!["std".to_string()]);
}

#[test]
fn parse_fn_call_typed_arguments() {
    let tokens = toks("foo::bar(1, \"s\", y);");
    let mut pos = 0;
    let st = parse_fn_call(&tokens, &mut pos).unwrap();
    assert_eq!(
        st,
        Stmt::FnCall {
            name: "foo::bar".to_string(),
            args: vec![
                TypedArg { name: "_".to_string(), typ: Type::I64, value: Some(lit(1)) },
                TypedArg { name: "_".to_string(), typ: Type::Str, value: Some(Expr::Literal(Value::Str("s".to_string()))) },
                TypedArg { name: "y".to_string(), typ: Type::Var, value: Some(var("y")) },
            ],
        }
    );
    assert_eq!(pos, tokens.len());
}

#[test]
fn parse_fn_call_needs_semicolon() {
    let tokens = toks("f(1)");
    let mut pos = 0;
    assert!(parse_fn_call(&tokens, &mut pos).is_err());
}

#[test]
fn parse_attrs_without_arguments() {
    let tokens = toks("#[a]#[b] x");
    let mut pos = 0;
    let attrs = parse_attrs(&tokens, &mut pos).unwrap();
    assert_eq!(attrs, vec![Attribute::Simple("a".to_string()), Attribute::Simple("b".to_string())]);
    assert_eq!(pos, 8);
}

#[test]
fn parse_block_statements() {
    let tokens = toks("{ let a = 1; a = 2; } rest");
    let mut pos = 0;
    let mut dm = Vec::new();
    let mut scope = Scope::new();
    let stmts = parse_block(&tokens, &mut pos, &mut dm, &parsers(), &mut scope, "").unwrap();
    assert_eq!(
        stmts,
        vec![
            Stmt::VarDecl { name: "a".to_string(), typ: None, value: Some(lit(1)) },
            Stmt::Assign { name: "a".to_string(), value: lit(2) },
        ]
    );
    assert_eq!(pos, 11);
}

#[test]
fn parse_block_needs_open_bracket() {
    let tokens = toks("x = 1;");
    let mut pos = 0;
    let mut dm = Vec::new();
    let mut scope = Scope::new();
    assert!(parse_block(&tokens, &mut pos, &mut dm, &parsers(), &mut scope, "").is_err());
    assert_eq!(pos, 0);
}

#[test]
fn parse_block_stmt_wraps_block() {
    let tokens = toks("{ break; }");
    let mut pos = 0;
    let mut dm = Vec::new();
    let mut scope = Scope::new();
    let st = parse_block_stmt(&tokens, &mut pos, &mut dm, &parsers(), &mut scope, "").unwrap();
    assert_eq!(st, Stmt::Block(vec![Stmt::Break]));
}

#[test]
fn block_parser_struct_matches_free_function() {
    let tokens = toks("{ y = 3; }");
    let mut pos = 0;
    let mut dm = Vec::new();
    let mut scope = Scope::new();
    let ps = parsers();
    let stmts = BlockParserStruct.parse_block(&tokens, &mut pos, &mut dm, &ps, &mut scope).unwrap();
    assert_eq!(stmts, vec![Stmt::Assign { name: "y".to_string(), value: lit(3) }]);
}

#[test]
fn parse_imported_file_reports_one_message() {
    let tokens = toks("= 1;");
    let mut pos = 0;
    let mut dm = Vec::new();
    let mut scope = Scope::new();
    let r = parse_imported_file(&tokens, &mut pos, &mut dm, &parsers(), &mut scope);
    assert_eq!(r, Err("Failed to parse imported file content".to_string()));
}

#[test]
fn parse_equal_not_equal_chain() {
    let tokens = toks("a != b");
    let mut pos = 0;
    let mut dm = Vec::new();
    let mut scope = Scope::new();
    let e = parse_equal(&tokens, &mut pos, &mut dm, &parsers(), &mut scope, "");
    assert_eq!(e, Some(bin(BinOp::Ne, var("a"), var("b"))));
}

#[test]
fn parse_equal_chained_not_equal() {
    let tokens = toks("a != b != c");
    let mut pos = 0;
    let mut dm = Vec::new();
    let mut scope = Scope::new();
    let e = parse_equal(&tokens, &mut pos, &mut dm, &parsers(), &mut scope, "");
    assert_eq!(e, Some(bin(BinOp::Ne, bin(BinOp::Ne, var("a"), var("b")), var("c"))));
    assert_eq!(pos, 5);
}

#[test]
fn parse_equal_rejects_missing_operand() {
    let tokens = toks("a != +");
    let mut pos = 0;
    let mut dm = Vec::new();
    let mut scope = Scope::new();
    let e = parse_equal(&tokens, &mut pos, &mut dm, &parsers(), &mut scope, "");
    assert_eq!(e, None);
}

#[test]
fn parse_arithmetic_respects_min_precedence() {
    let tokens = toks("2 * 3 + 4;");
    let mut pos = 0;
    let mut scope = Scope::new();
    let e = parse_arithmetic(&tokens, &mut pos, 2, &mut scope, &parsers()).unwrap();
    assert_eq!(e, bin(BinOp::Mul, lit(2), lit(3)));
    assert_eq!(pos, 3);
}

#[test]
fn parse_out_vec_stmt_whole_program() {
    let mut p = parser_for("let a = 1; let b = a; b = b + a;");
    let stmts = p.parse_out_vec_stmt();
    assert_eq!(
        stmts,
        vec![
            Stmt::VarDecl { name: "a".to_string(), typ: None, value: Some(lit(1)) },
            Stmt::VarDecl { name: "b".to_string(), typ: None, value: Some(var("a")) },
            Stmt::Assign { name: "b".to_string(), value: bin(BinOp::Add, var("b"), var("a")) },
        ]
    );
}

#[test]
fn try_parse_out_vec_stmt_reports_stop() {
    let mut p = parser_for("let a = 1; = 2;");
    assert!(p.try_parse_out_vec_stmt().is_err());
}

#[test]
fn parse_out_vec_expr_list() {
    let mut p = parser_for("1, x \"s\"");
    let exprs = p.parse_out_vec_expr().unwrap();
    assert_eq!(exprs, vec![lit(1), var("x"), Expr::Literal(Value::Str("s".to_string()))]);
}

#[test]
fn parser_parse_expr_condition() {
    let mut p = parser_for("n >= 10 {");
    let e = p.parse_expr(true);
    assert_eq!(e, Some(bin(BinOp::Ge, var("n"), lit(10))));
    assert_eq!(p.pos, 3);
}

#[test]
fn parser_parse_expr_rejects_operator() {
    let mut p = parser_for("+ 1");
    assert_eq!(p.parse_expr(false), None);
    assert_eq!(p.pos, 1);
}

#[test]
fn parser_new_is_empty() {
    let p = Parser::default().new();
    assert_eq!(p.pos, 0);
    assert!(p.tokens.is_empty());
    assert!(p.discovered_modules.is_empty());
}

#[test]
fn eat_stmt_consumes_matching_statement() {
    let stmts = vec![Stmt::Break, Stmt::Return(None)];
    let mut pos = 0;
    assert!(eat_stmt(&Stmt::Break, &stmts, &mut pos));
    assert_eq!(pos, 1);
    assert!(!eat_stmt(&Stmt::Break, &stmts, &mut pos));
    assert_eq!(pos, 1);
    assert!(eat_stmt(&Stmt::Return(None), &stmts, &mut pos));
    assert_eq!(pos, 2);
    assert!(!eat_stmt(&Stmt::Break, &stmts, &mut pos));
}

#[test]
fn eat_token() {
    let tokens = toks("( )");
    let mut pos = 0;
    assert!(kurai::eat::eat(&Token::OpenParenthese, &tokens, &mut pos));
    assert!(!kurai::eat::eat(&Token::OpenParenthese, &tokens, &mut pos));
    assert_eq!(pos, 1);
}

#[test]
fn head_errors_carry_their_texts() {
    let run_for = |code: &str| {
        let tokens = toks(code);
        let (mut pos, mut dm, mut scope) = (0usize, Vec::new(), Scope::new());
        parse_for_loop(&tokens, &mut pos, &mut dm, &parsers(), &mut scope)
    };
    assert_eq!(run_for("while"), Err("Expected `for`".to_string()));
    assert_eq!(run_for("for 3"), Err("For loop failed".to_string()));
    assert_eq!(run_for("for i of"), Err("Expected `in` after `i`".to_string()));
    assert_eq!(run_for("for i in 0 1"), Err("Expected `..` in for loop range".to_string()));
    assert_eq!(run_for("for i in 0..x"), Err("For loop failed".to_string()));

    let run_let = |code: &str| {
        let tokens = toks(code);
        let (mut pos, mut dm, mut scope) = (0usize, Vec::new(), Scope::new());
        parse_var_decl(&tokens, &mut pos, &mut dm, &parsers(), &mut scope)
    };
    assert_eq!(run_let("x = 1;"), Err("Expected keyword `let`".to_string()));
    assert_eq!(run_let("let 3"), Err("Expected an identifier name after keyword `let`".to_string()));
    assert_eq!(run_let("let x 3"), Err("Expected an equal sign after `x`".to_string()));

    let run_assign = |code: &str| {
        let tokens = toks(code);
        let (mut pos, mut dm, mut scope) = (0usize, Vec::new(), Scope::new());
        parse_var_assign(&tokens, &mut pos, &mut dm, &parsers(), &mut scope, code)
    };
    assert_eq!(run_assign("3 = 1;"), Err("Where identifier".to_string()));
    assert_eq!(run_assign("x 1;"), Err("Expected an equal sign `=` after `x`".to_string()));

    let tokens = toks("for");
    let (mut pos, mut dm, mut scope) = (0usize, Vec::new(), Scope::new());
    assert_eq!(
        parse_while_loop(&tokens, &mut pos, &mut dm, &parsers(), &mut scope),
        Err("Expected `while`".to_string())
    );
    let (mut pos, mut dm, mut scope) = (0usize, Vec::new(), Scope::new());
    assert_eq!(
        parse_if_else(&tokens, &mut pos, &mut dm, &parsers(), &mut scope, "for").err(),
        Some("Expected keyword `if`".to_string())
    );

    let mut p = parser_for("");
    assert_eq!(p.parse_stmt(), Err("Unexpected end of input while parsing statement.".to_string()));
    assert_eq!(p.pos, 0);
}
