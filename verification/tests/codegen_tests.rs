use gojo::ast::{Block, Expr, FunctionDef, Literal, Param, Purity, Statement, TypeRef};
use gojo::codegen::Codegen;
use gojo::lowering::{MAIN_SHIM, RUNTIME_PREAMBLE};
use gojo::parser::parse_program;
use gojo::runtime::{for_continues, FIELD_ERROR};

fn functions_of(source: &str) -> Vec<FunctionDef> {
    let (rest, functions) = parse_program(source).expect("the program reads");
    assert_eq!(rest, "");
    functions
}

/// The generated text behind the support code.
fn generated(source: &str) -> String {
    let functions = functions_of(source);
    let mut generator = Codegen::new();
    let code = generator.generate(&functions);
    assert!(code.starts_with(RUNTIME_PREAMBLE));
    code[RUNTIME_PREAMBLE.len()..].to_string()
}

/// The loop that a `for` statement is lowered to, run on integers.
fn visits(start: i64, end: i64, step: i64) -> Vec<i64> {
    let mut seen = Vec::new();
    let mut i = start;
    let _gojo_end = end;
    let _gojo_step = step;
    while (_gojo_step > 0 && i < _gojo_end) || (_gojo_step < 0 && i > _gojo_end) {
        assert!(for_continues(i, _gojo_end, _gojo_step));
        seen.push(i);
        i += _gojo_step;
    }
    assert!(!for_continues(i, _gojo_end, _gojo_step));
    seen
}

#[test]
fn generate_emits_preamble_and_function() {
    let functions = functions_of("deterministic fn f() -> i64 { return -7 }");
    let mut generator = Codegen::new();
    let code = generator.generate(&functions);
    let expected = format!("{}pub fn f() -> i64 {{\n    return -7;\n}}\n\n", RUNTIME_PREAMBLE);
    assert_eq!(code, expected);
}

#[test]
fn the_preamble_starts_and_ends_as_the_support_code_does() {
    assert!(RUNTIME_PREAMBLE.starts_with("\n#![allow(dead_code,"));
    assert!(RUNTIME_PREAMBLE.contains("trait GojoAdd<Rhs>"));
    assert!(RUNTIME_PREAMBLE.ends_with("self.repeat(rhs as usize) } }\n"));
    assert_eq!(RUNTIME_PREAMBLE.len(), 2748);
}

#[test]
fn pure_arithmetic_is_native_and_keeps_precedence() {
    assert_eq!(
        generated("deterministic fn f()->i64{return 2+3*4}"),
        "pub fn f() -> i64 {\n    return (2 + (3 * 4));\n}\n\n"
    );
    assert_eq!(2 + (3 * 4), 14);
}

#[test]
fn every_operator_is_native_in_a_pure_function() {
    assert_eq!(
        generated("deterministic fn f(a: i64, b: i64) { a + b a - b a * b a / b a == b a != b a > b a < b a >= b a <= b }"),
        "pub fn f(a: i64, b: i64) -> () {\n    (a + b);\n    (a - b);\n    (a * b);\n    (a / b);\n    (a == b);\n    (a != b);\n    (a > b);\n    (a < b);\n    (a >= b);\n    (a <= b);\n}\n\n"
    );
}

#[test]
fn plus_and_times_are_dispatched_in_an_impure_function() {
    assert_eq!(
        generated("nondeterministic fn f(a: i64, b: i64) { a + b a - b a * b a / b a == b a != b a > b a < b a >= b a <= b }"),
        "pub async fn f(a: i64, b: i64) -> () {\n    a.g_add(b);\n    (a - b);\n    a.g_mul(b);\n    (a / b);\n    (a == b);\n    (a != b);\n    (a > b);\n    (a < b);\n    (a >= b);\n    (a <= b);\n}\n\n"
    );
}

#[test]
fn a_negative_literal_on_the_left_is_the_whole_receiver() {
    assert_eq!(
        generated("nondeterministic fn f() -> i64 { return -1 + 2 }"),
        "pub async fn f() -> i64 {\n    return (-1).g_add(2);\n}\n\n"
    );
    assert_eq!(
        generated("nondeterministic fn f() -> i64 { return -1 * 2 }"),
        "pub async fn f() -> i64 {\n    return (-1).g_mul(2);\n}\n\n"
    );
    assert_eq!(
        generated("nondeterministic fn f() { -9223372036854775808 + -1 * x }"),
        "pub async fn f() -> () {\n    (-9223372036854775808).g_add((-1).g_mul(x));\n}\n\n"
    );
    assert_eq!((-1i64) + 2, 1);
    assert_eq!((-1i64) * 2, -2);
}

#[test]
fn every_other_receiver_stands_as_it_is() {
    assert_eq!(
        generated("nondeterministic fn f(a: i64) { 0 + 1 a + -1 (a - 1) * 2 a + 1 + 2 p() + q() }"),
        "pub async fn f(a: i64) -> () {\n    0.g_add(1);\n    a.g_add(-1);\n    (a - 1).g_mul(2);\n    a.g_add(1).g_add(2);\n    p().await.g_add(q().await);\n}\n\n"
    );
    assert_eq!(
        generated("deterministic fn f() -> i64 { return -1 + 2 * -3 }"),
        "pub fn f() -> i64 {\n    return (-1 + (2 * -3));\n}\n\n"
    );
}

#[test]
fn mixed_operands_are_dispatched_as_written() {
    assert_eq!(
        generated("nondeterministic fn f() { let s = \"n=\" + 5 let t = \"ab\" * 3 }"),
        "pub async fn f() -> () {\n    let mut s = \"n=\".to_string().g_add(5);\n    let mut t = \"ab\".to_string().g_mul(3);\n}\n\n"
    );
}

#[test]
fn a_call_suspends_exactly_if_the_callee_is_impure() {
    let code = generated(
        "deterministic fn p() -> i64 { return 1 }\n\
         nondeterministic fn q() -> i64 { return 2 }\n\
         deterministic fn a() -> i64 { return p() + q() }\n\
         nondeterministic fn b() -> i64 { return p() + q() + r() }",
    );
    assert!(code.contains("pub fn a() -> i64 {\n    return (p() + q().await);\n}\n"));
    assert!(code.contains(
        "pub async fn b() -> i64 {\n    return p().g_add(q().await).g_add(r().await);\n}\n"
    ));
}

#[test]
fn a_dotted_callee_becomes_a_path() {
    assert_eq!(
        generated("nondeterministic fn f() { DB.log(\"x\") }"),
        "pub async fn f() -> () {\n    DB::log(\"x\".to_string()).await;\n}\n\n"
    );
}

#[test]
fn a_name_tagged_deterministic_once_is_pure_everywhere() {
    let code = generated("deterministic fn f() {} nondeterministic fn f() { f() }");
    assert_eq!(code, "pub fn f() -> () {\n}\n\npub fn f() -> () {\n    f();\n}\n\n");
}

#[test]
fn literals_and_types() {
    assert_eq!(
        generated("deterministic fn f(a: Untrusted, b: Array<Array<i64>>, c: Thing) -> Void { let x = true let y = false let z = \"s\" let n = -9223372036854775808 let m = 0 }"),
        "pub fn f(a: String, b: Vec<Vec<i64>>, c: String) -> () {\n    let mut x = true;\n    let mut y = false;\n    let mut z = \"s\".to_string();\n    let mut n = -9223372036854775808;\n    let mut m = 0;\n}\n\n"
    );
}

#[test]
fn the_string_type_of_the_tree_is_text() {
    let f = FunctionDef {
        name: "f".to_string(),
        purity: Purity::Deterministic,
        params: vec![Param { name: "s".to_string(), param_type: TypeRef::String }],
        return_type: TypeRef::String,
        body: Block { statements: vec![] },
    };
    let mut generator = Codegen::new();
    let code = generator.generate(&vec![f]);
    assert_eq!(&code[RUNTIME_PREAMBLE.len()..], "pub fn f(s: String) -> String {\n}\n\n");
}

#[test]
fn for_loop_direction_comes_from_the_sign_of_the_step() {
    assert_eq!(
        generated("deterministic fn f() { for i in 0..5 by 1 { g(i) } }"),
        "pub fn f() -> () {\n    {\n    let mut i = 0;\n    let _gojo_end = 5;\n    let _gojo_step = 1;\n    while (_gojo_step > 0 && i < _gojo_end) || (_gojo_step < 0 && i > _gojo_end) {\n        g(i).await;\n        i += _gojo_step;\n    }\n    }\n}\n\n"
    );
    assert_eq!(visits(0, 5, 1), vec![0, 1, 2, 3, 4]);
    assert_eq!(visits(5, 0, -1), vec![5, 4, 3, 2, 1]);
    assert_eq!(visits(0, 5, -1), Vec::<i64>::new());
    assert_eq!(visits(0, 5, 0), Vec::<i64>::new());
    assert_eq!(visits(0, 5, 2), vec![0, 2, 4]);
}

#[test]
fn a_for_loop_without_a_step_counts_by_one_and_dispatches_where_impure() {
    assert_eq!(
        generated("nondeterministic fn f() { for i in a..b { } }"),
        "pub async fn f() -> () {\n    {\n    let mut i = a;\n    let _gojo_end = b;\n    let _gojo_step = 1;\n    while (_gojo_step > 0 && i < _gojo_end) || (_gojo_step < 0 && i > _gojo_end) {\n        i = i.g_add(_gojo_step);\n    }\n    }\n}\n\n"
    );
}

#[test]
fn if_else_and_while_keep_their_shape() {
    assert_eq!(
        generated("deterministic fn f(a: i64) -> i64 { if a > 1 { return 1 } else if a < 0 { return 2 } else { return 3 } while a < 3 { a = a + 1 } if a == 0 { } return }"),
        "pub fn f(a: i64) -> i64 {\n    if (a > 1) {\n        return 1;\n    } else {\n        if (a < 0) {\n            return 2;\n        } else {\n            return 3;\n        }\n    }\n    while (a < 3) {\n        a = (a + 1);\n    }\n    if (a == 0) {\n    }\n    return;\n}\n\n"
    );
}

#[test]
fn a_scope_pauses_before_it_ends() {
    assert_eq!(
        generated("nondeterministic fn f() { scope Work { let x = 1 } }"),
        "pub async fn f() -> () {\n    // Scope: Work\n    {\n        let mut x = 1;\n        tokio::time::sleep(Duration::from_millis(50)).await;\n    }\n}\n\n"
    );
}

#[test]
fn a_validation_rebinds_its_target_and_emits_the_success_branch() {
    assert_eq!(
        generated("nondeterministic fn f(input: Untrusted) { validate input { success: { return input } } }"),
        "pub async fn f(input: String) -> () {\n    let input = input.validate().unwrap();\n    return input;\n}\n\n"
    );
}

#[test]
fn the_failure_branch_of_a_validation_is_never_emitted() {
    let f = FunctionDef {
        name: "f".to_string(),
        purity: Purity::Nondeterministic,
        params: vec![],
        return_type: TypeRef::Void,
        body: Block {
            statements: vec![Statement::ValidateBlock {
                target: "x".to_string(),
                schema: "Schema".to_string(),
                on_fail: Box::new(Block {
                    statements: vec![Statement::Return(Some(Expr::Literal(Literal::Int(1))))],
                }),
                success_scope: Box::new(Block { statements: vec![] }),
            }],
        },
    };
    let mut generator = Codegen::new();
    let code = generator.generate(&vec![f]);
    assert_eq!(
        &code[RUNTIME_PREAMBLE.len()..],
        "pub async fn f() -> () {\n    let x = x.validate().unwrap();\n}\n\n"
    );
}

#[test]
fn a_service_call_waits_at_most_its_time_limit_and_passes_text() {
    assert_eq!(
        generated("nondeterministic fn f(u: String) { call HTTP.get(u, \"x\", 1 + 2) { timeout: 500 } }"),
        "pub async fn f(u: String) -> () {\n    tokio::time::timeout(Duration::from_millis(500), HTTP::get(format!(\"{}\", u), \"x\".to_string(), format!(\"{}\", 1.g_add(2)))).await.unwrap();\n}\n\n"
    );
    assert_eq!(
        generated("nondeterministic fn f() { call A.b() { timeout: -1 } }"),
        "pub async fn f() -> () {\n    tokio::time::timeout(Duration::from_millis(18446744073709551615), A::b()).await.unwrap();\n}\n\n"
    );
}

#[test]
fn a_field_access_parses_and_falls_back_to_the_error_text() {
    assert_eq!(
        generated("nondeterministic fn f(s: String) { json(s, \"a\") }"),
        "pub async fn f(s: String) -> () {\n    serde_json::from_str::<serde_json::Value>(&s).ok().and_then(|v| v.get(\"a\").map(|x| if x.is_string() { x.as_str().unwrap().to_string() } else { x.to_string() })).unwrap_or(\"HATA\".to_string());\n}\n\n"
    );
}

#[test]
fn the_emitted_error_text_is_the_one_of_the_runtime() {
    let code = generated("nondeterministic fn f(s: String) { json(s, \"a\") }");
    assert!(code.contains(&format!(".unwrap_or(\"{}\".to_string())", FIELD_ERROR)));
}

#[test]
fn spawn_await_arrays_and_indices() {
    assert_eq!(
        generated("nondeterministic fn f() { spawn g(1) let a = [1, 2] a[0] [] }"),
        "pub async fn f() -> () {\n    tokio::spawn(async move { g(1).await });\n    let mut a = vec![1, 2];\n    a[(0 as usize)];\n    vec![];\n}\n\n"
    );
    let f = FunctionDef {
        name: "f".to_string(),
        purity: Purity::Nondeterministic,
        params: vec![],
        return_type: TypeRef::Void,
        body: Block {
            statements: vec![Statement::ExprStmt(Expr::Await(Box::new(Expr::Identifier(
                "task".to_string(),
            ))))],
        },
    };
    let mut generator = Codegen::new();
    let code = generator.generate(&vec![f]);
    assert_eq!(&code[RUNTIME_PREAMBLE.len()..], "pub async fn f() -> () {\n    task.await;\n}\n\n");
}

#[test]
fn main_is_renamed_and_gets_an_entry_point() {
    let code = generated("nondeterministic fn main(girdi: Untrusted) { }");
    assert_eq!(
        code,
        format!("pub async fn user_main(girdi: String) -> () {{\n}}\n\n{}", MAIN_SHIM)
    );
    assert_eq!(
        MAIN_SHIM,
        "#[tokio::main] async fn main() { user_main(\"Internet\".to_string()).await; tokio::time::sleep(std::time::Duration::from_millis(100)).await; }"
    );
    assert!(!generated("nondeterministic fn other() { }").contains("tokio::main"));
}

#[test]
fn a_call_of_main_keeps_its_name() {
    let code = generated("nondeterministic fn main() { main() }");
    assert!(code.starts_with("pub async fn user_main() -> () {\n    main().await;\n}\n\n"));
}

#[test]
fn no_function_gives_the_preamble_alone() {
    let mut generator = Codegen::new();
    assert_eq!(generator.generate(&vec![]), RUNTIME_PREAMBLE);
}

#[test]
fn a_generator_forgets_the_program_before() {
    let mut generator = Codegen::new();
    let first = functions_of("deterministic fn p() {}");
    let second = functions_of("nondeterministic fn q() { p() }");
    generator.generate(&first);
    let code = generator.generate(&second);
    assert_eq!(
        &code[RUNTIME_PREAMBLE.len()..],
        "pub async fn q() -> () {\n    p().await;\n}\n\n"
    );
}

#[test]
fn a_copy_of_a_tree_is_equal_to_it() {
    let functions = functions_of(
        "nondeterministic fn f(a: Array<i64>) { if a[0] > 1 { for i in 0..3 by 1 { spawn g(i) } } else { validate a { success: { return json(a, \"k\") } } } call S.m(a) { timeout: 3 } }",
    );
    assert_eq!(functions.clone(), functions);
}
