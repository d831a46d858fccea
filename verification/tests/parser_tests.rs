use gojo::ast::{
    BinaryOp, Block, Expr, FunctionDef, InfraCall, InfraConfig, LetStmt, Literal, Param, Purity,
    Statement, TypeRef,
};
use gojo::parser::{parse_program, SyntaxError};

fn num(n: i64) -> Expr {
    Expr::Literal(Literal::Int(n))
}

fn ident(name: &str) -> Expr {
    Expr::Identifier(name.to_string())
}

fn binary(left: Expr, op: BinaryOp, right: Expr) -> Expr {
    Expr::Binary(Box::new(left), op, Box::new(right))
}

fn body_of(source: &str) -> Vec<Statement> {
    let text = format!("nondeterministic fn t() {{ {} }}", source);
    let (rest, mut functions) = parse_program(&text).expect("the program reads");
    assert_eq!(rest, "");
    assert_eq!(functions.len(), 1);
    functions.remove(0).body.statements
}

fn expr_of(source: &str) -> Expr {
    let mut statements = body_of(&format!("return {}", source));
    assert_eq!(statements.len(), 1);
    match statements.remove(0) {
        Statement::Return(Some(e)) => e,
        other => panic!("not a return with a value: {:?}", other),
    }
}

#[test]
fn parses_a_minimal_function() {
    let (rest, functions) = parse_program("deterministic fn f() {}").unwrap();
    assert_eq!(rest, "");
    assert_eq!(
        functions,
        vec![FunctionDef {
            name: "f".to_string(),
            purity: Purity::Deterministic,
            params: vec![],
            return_type: TypeRef::Void,
            body: Block { statements: vec![] },
        }]
    );
}

#[test]
fn parses_parameters_and_types() {
    let text = "nondeterministic fn g(a: i64, b: Untrusted, c: Array<Array<i64>>, d: Thing, e: Void) -> String { return a }";
    let (_, functions) = parse_program(text).unwrap();
    let f = &functions[0];
    assert_eq!(f.purity, Purity::Nondeterministic);
    assert_eq!(
        f.params,
        vec![
            Param { name: "a".to_string(), param_type: TypeRef::Integer },
            Param { name: "b".to_string(), param_type: TypeRef::Untrusted },
            Param {
                name: "c".to_string(),
                param_type: TypeRef::Array(Box::new(TypeRef::Array(Box::new(TypeRef::Integer)))),
            },
            Param { name: "d".to_string(), param_type: TypeRef::Custom("Thing".to_string()) },
            Param { name: "e".to_string(), param_type: TypeRef::Void },
        ]
    );
    assert_eq!(f.return_type, TypeRef::Custom("String".to_string()));
}

#[test]
fn multiplication_binds_tighter_than_addition() {
    assert_eq!(
        expr_of("2+3*4"),
        binary(num(2), BinaryOp::Add, binary(num(3), BinaryOp::Mul, num(4)))
    );
}

#[test]
fn operators_group_from_the_left() {
    assert_eq!(
        expr_of("10 - 4 - 3"),
        binary(binary(num(10), BinaryOp::Sub, num(4)), BinaryOp::Sub, num(3))
    );
    assert_eq!(
        expr_of("8 / 4 / 2"),
        binary(binary(num(8), BinaryOp::Div, num(4)), BinaryOp::Div, num(2))
    );
    assert_eq!(
        expr_of("a < b == c"),
        binary(binary(ident("a"), BinaryOp::Lt, ident("b")), BinaryOp::Eq, ident("c"))
    );
}

#[test]
fn comparison_is_the_loosest_operator() {
    assert_eq!(
        expr_of("a + 1 >= b * 2"),
        binary(
            binary(ident("a"), BinaryOp::Add, num(1)),
            BinaryOp::Gte,
            binary(ident("b"), BinaryOp::Mul, num(2))
        )
    );
    assert_eq!(expr_of("a != b"), binary(ident("a"), BinaryOp::Neq, ident("b")));
    assert_eq!(expr_of("a <= b"), binary(ident("a"), BinaryOp::Lte, ident("b")));
    assert_eq!(expr_of("a > b"), binary(ident("a"), BinaryOp::Gt, ident("b")));
}

#[test]
fn parentheses_override_precedence() {
    assert_eq!(
        expr_of("(2+3)*4"),
        binary(binary(num(2), BinaryOp::Add, num(3)), BinaryOp::Mul, num(4))
    );
}

#[test]
fn a_minus_sign_before_digits_belongs_to_the_number() {
    assert_eq!(expr_of("-5"), num(-5));
    assert_eq!(expr_of("1 - -2"), binary(num(1), BinaryOp::Sub, num(-2)));
    assert_eq!(expr_of("1-2"), binary(num(1), BinaryOp::Sub, num(2)));
}

#[test]
fn numbers_cover_the_whole_range_and_no_more() {
    assert_eq!(expr_of("9223372036854775807"), num(i64::MAX));
    assert_eq!(expr_of("-9223372036854775808"), num(i64::MIN));
    assert_eq!(expr_of("007"), num(7));
    assert!(parse_program("nondeterministic fn t() { return 9223372036854775808 }").is_err());
    assert!(parse_program("nondeterministic fn t() { let x = 99999999999999999999999 }").is_err());
}

#[test]
fn literals_and_identifiers() {
    assert_eq!(expr_of("\"a b\""), Expr::Literal(Literal::Str("a b".to_string())));
    assert_eq!(expr_of("\"\""), Expr::Literal(Literal::Str(String::new())));
    assert_eq!(expr_of("true"), Expr::Literal(Literal::Bool(true)));
    assert_eq!(expr_of("false"), Expr::Literal(Literal::Bool(false)));
    assert_eq!(expr_of("_x1"), ident("_x1"));
    assert_eq!(expr_of("sonu\u{e7}"), ident("sonu\u{e7}"));
}

#[test]
fn calls_with_and_without_the_keyword() {
    assert_eq!(expr_of("f()"), Expr::Call("f".to_string(), vec![]));
    assert_eq!(expr_of("f(1, x)"), Expr::Call("f".to_string(), vec![num(1), ident("x")]));
    assert_eq!(expr_of("call f(1)"), Expr::Call("f".to_string(), vec![num(1)]));
    assert_eq!(
        expr_of("Util.now()"),
        Expr::Call("Util.now".to_string(), vec![])
    );
    assert_eq!(
        expr_of("call DB.log(\"x\")"),
        Expr::Call("DB.log".to_string(), vec![Expr::Literal(Literal::Str("x".to_string()))])
    );
}

#[test]
fn a_service_call_needs_its_configuration() {
    assert_eq!(
        expr_of("call HTTP.get(url, 2) { timeout: 500 }"),
        Expr::Infra(InfraCall {
            service: "HTTP".to_string(),
            method: "get".to_string(),
            args: vec![ident("url"), num(2)],
            config: InfraConfig { timeout_ms: 500 },
        })
    );
    assert_eq!(
        expr_of("call HTTP . get() { timeout: -1 }"),
        Expr::Infra(InfraCall {
            service: "HTTP".to_string(),
            method: "get".to_string(),
            args: vec![],
            config: InfraConfig { timeout_ms: u64::MAX },
        })
    );
}

#[test]
fn spawn_field_access_arrays_and_indices() {
    assert_eq!(
        expr_of("spawn f(1)"),
        Expr::Spawn(Box::new(Expr::Call("f".to_string(), vec![num(1)])))
    );
    assert_eq!(
        expr_of("json(body, \"name\")"),
        Expr::JsonField(Box::new(ident("body")), "name".to_string())
    );
    assert_eq!(expr_of("[]"), Expr::ArrayLiteral(vec![]));
    assert_eq!(expr_of("[1, 2, 3]"), Expr::ArrayLiteral(vec![num(1), num(2), num(3)]));
    assert_eq!(
        expr_of("m[1][i + 1]"),
        Expr::Index(
            Box::new(Expr::Index(Box::new(ident("m")), Box::new(num(1)))),
            Box::new(binary(ident("i"), BinaryOp::Add, num(1)))
        )
    );
}

#[test]
fn a_trailing_comma_is_not_part_of_a_list() {
    assert!(parse_program("nondeterministic fn t() { return [1, 2, ] }").is_err());
    assert!(parse_program("nondeterministic fn t() { return f(1,) }").is_err());
}

#[test]
fn keywords_are_no_identifiers() {
    assert!(parse_program("nondeterministic fn t() { let if = 1 }").is_err());
    assert!(parse_program("nondeterministic fn while() { }").is_err());
    assert_eq!(expr_of("iffy"), ident("iffy"));
}

#[test]
fn a_word_is_read_even_where_more_letters_follow() {
    assert_eq!(
        body_of("letx = 1"),
        vec![Statement::Let(LetStmt { name: "x".to_string(), value: num(1) })]
    );
    assert_eq!(body_of("returnx"), vec![Statement::Return(Some(ident("x")))]);
    assert_eq!(expr_of("callee(1)"), Expr::Call("ee".to_string(), vec![num(1)]));
}

#[test]
fn simple_statements() {
    assert_eq!(
        body_of("let x = 1 x = x + 1 f(x); return"),
        vec![
            Statement::Let(LetStmt { name: "x".to_string(), value: num(1) }),
            Statement::Assign {
                name: "x".to_string(),
                value: binary(ident("x"), BinaryOp::Add, num(1)),
            },
            Statement::ExprStmt(Expr::Call("f".to_string(), vec![ident("x")])),
            Statement::Return(None),
        ]
    );
}

#[test]
fn only_an_expression_statement_takes_a_semicolon() {
    assert!(parse_program("nondeterministic fn t() { let x = 1; }").is_err());
    assert_eq!(body_of("x;"), vec![Statement::ExprStmt(ident("x"))]);
}

#[test]
fn an_equality_is_no_assignment() {
    assert_eq!(
        body_of("x == 1"),
        vec![Statement::ExprStmt(binary(ident("x"), BinaryOp::Eq, num(1)))]
    );
}

#[test]
fn if_with_else_and_else_if() {
    assert_eq!(
        body_of("if a { return 1 } else if b { return 2 } else { return 3 }"),
        vec![Statement::If {
            condition: ident("a"),
            then_block: Block { statements: vec![Statement::Return(Some(num(1)))] },
            else_block: Some(Block {
                statements: vec![Statement::If {
                    condition: ident("b"),
                    then_block: Block { statements: vec![Statement::Return(Some(num(2)))] },
                    else_block: Some(Block { statements: vec![Statement::Return(Some(num(3)))] }),
                }],
            }),
        }]
    );
    assert_eq!(
        body_of("if a { }"),
        vec![Statement::If {
            condition: ident("a"),
            then_block: Block { statements: vec![] },
            else_block: None,
        }]
    );
}

#[test]
fn while_and_for_loops() {
    assert_eq!(
        body_of("while i < 3 { i = i + 1 }"),
        vec![Statement::While {
            condition: binary(ident("i"), BinaryOp::Lt, num(3)),
            body: Block {
                statements: vec![Statement::Assign {
                    name: "i".to_string(),
                    value: binary(ident("i"), BinaryOp::Add, num(1)),
                }],
            },
        }]
    );
    assert_eq!(
        body_of("for i in 0..5 { }"),
        vec![Statement::For {
            var: "i".to_string(),
            start: num(0),
            end: num(5),
            step: None,
            body: Block { statements: vec![] },
        }]
    );
    assert_eq!(
        body_of("for i in 5..0 by -1 { f(i) }"),
        vec![Statement::For {
            var: "i".to_string(),
            start: num(5),
            end: num(0),
            step: Some(num(-1)),
            body: Block {
                statements: vec![Statement::ExprStmt(Expr::Call("f".to_string(), vec![ident("i")]))],
            },
        }]
    );
}

#[test]
fn scope_and_validate_blocks() {
    assert_eq!(
        body_of("scope Work { return }"),
        vec![Statement::ScopeBlock {
            name: "Work".to_string(),
            body: Block { statements: vec![Statement::Return(None)] },
        }]
    );
    assert_eq!(
        body_of("validate input { success: { return input } }"),
        vec![Statement::ValidateBlock {
            target: "input".to_string(),
            schema: "Schema".to_string(),
            on_fail: Box::new(Block { statements: vec![] }),
            success_scope: Box::new(Block {
                statements: vec![Statement::Return(Some(ident("input")))],
            }),
        }]
    );
}

#[test]
fn white_space_and_comments_are_skipped() {
    let text = "// leading\n  deterministic // tag\n fn f ( a : i64 ) -> i64 {\n // body\r\n return a // value\n }\n// trailing";
    let (rest, functions) = parse_program(text).unwrap();
    assert_eq!(rest, "");
    assert_eq!(functions.len(), 1);
    assert_eq!(functions[0].body.statements, vec![Statement::Return(Some(ident("a")))]);
}

#[test]
fn a_lone_carriage_return_ends_no_comment() {
    assert!(parse_program("// note\rdeterministic fn f() {}").is_err());
    assert!(parse_program("// note\r\ndeterministic fn f() {}").is_ok());
}

#[test]
fn several_functions_are_read_in_order() {
    let (rest, functions) =
        parse_program("deterministic fn a() {} nondeterministic fn b() {}\n deterministic fn c() {}")
            .unwrap();
    assert_eq!(rest, "");
    let names: Vec<&str> = functions.iter().map(|f| f.name.as_str()).collect();
    assert_eq!(names, vec!["a", "b", "c"]);
}

#[test]
fn what_follows_the_last_function_that_reads_is_handed_back() {
    let (rest, functions) =
        parse_program("deterministic fn f(){let x=1} fn g(){return x}").unwrap();
    assert_eq!(functions.len(), 1);
    assert_eq!(functions[0].name, "f");
    assert_eq!(rest, "fn g(){return x}");
    let (rest, functions) = parse_program("deterministic fn f(){} \u{e7}ok").unwrap();
    assert_eq!(functions.len(), 1);
    assert_eq!(rest, "\u{e7}ok");
}

#[test]
fn the_error_says_where_a_part_was_missing() {
    assert_eq!(parse_program(""), Err(SyntaxError { offset: 0 }));
    assert_eq!(parse_program("   fn f() {}"), Err(SyntaxError { offset: 3 }));
    assert_eq!(parse_program("deterministic f() {}"), Err(SyntaxError { offset: 14 }));
    assert_eq!(parse_program("deterministic fn  if() {}"), Err(SyntaxError { offset: 18 }));
    assert_eq!(parse_program("deterministic fn f {}"), Err(SyntaxError { offset: 19 }));
    assert_eq!(parse_program("deterministic fn f(a) {}"), Err(SyntaxError { offset: 19 }));
    assert_eq!(parse_program("deterministic fn f() -> {}"), Err(SyntaxError { offset: 21 }));
    assert_eq!(parse_program("deterministic fn f() { let }"), Err(SyntaxError { offset: 23 }));
    assert_eq!(
        parse_program("fn f(){if true{let x=1} return x}"),
        Err(SyntaxError { offset: 0 })
    );
}
