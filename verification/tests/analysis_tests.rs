use gojo::analysis::determinism::{DeterminismAnalyzer, SymbolTable};
use gojo::analysis::scope::ScopeAnalyzer;
use gojo::analysis::taint::TaintAnalyzer;
use gojo::ast::{Block, Expr, FunctionDef, Literal, Purity, Statement, TypeRef};
use gojo::parser::parse_program;

fn function_of(source: &str) -> FunctionDef {
    let (rest, mut functions) = parse_program(source).expect("the program reads");
    assert_eq!(rest, "");
    assert_eq!(functions.len(), 1);
    functions.remove(0)
}

fn purity_of(source: &str) -> Result<(), String> {
    let f = function_of(source);
    let symbols = SymbolTable { functions: vec![f.clone()] };
    DeterminismAnalyzer::check(&f, &symbols)
}

fn scope_of(source: &str) -> Result<(), String> {
    ScopeAnalyzer::new().analyze(&function_of(source))
}

#[test]
fn a_pure_function_with_a_spawn_is_rejected() {
    assert_eq!(
        purity_of("deterministic fn f()->i64{return spawn g()}"),
        Err("Impure function: f".to_string())
    );
}

#[test]
fn a_pure_function_without_effects_is_accepted() {
    assert_eq!(purity_of("deterministic fn f()->i64{return 1+2}"), Ok(()));
    assert_eq!(purity_of("deterministic fn f() { g(h(1), [2, x[3]]) json(s, \"k\") }"), Ok(()));
}

#[test]
fn an_effect_is_found_at_any_depth() {
    let bodies = [
        "let x = spawn g()",
        "x = call S.m() { timeout: 1 }",
        "if spawn g() { }",
        "if a { spawn g() }",
        "if a { } else { spawn g() }",
        "if a { } else if b { while c { spawn g() } }",
        "while spawn g() { }",
        "for i in spawn g()..1 { }",
        "for i in 0..spawn g() { }",
        "for i in 0..1 by spawn g() { }",
        "for i in 0..1 { spawn g() }",
        "scope S { spawn g() }",
        "validate x { success: { spawn g() } }",
        "spawn g()",
        "return f(1, [2, (3 + spawn g())[0]])",
        "json(spawn g(), \"k\")",
        "a[spawn g()]",
    ];
    for body in bodies {
        let source = format!("deterministic fn f() {{ {} }}", body);
        assert_eq!(purity_of(&source), Err("Impure function: f".to_string()), "{}", body);
        let source = format!("nondeterministic fn f() {{ {} }}", body);
        assert_eq!(purity_of(&source), Ok(()), "{}", body);
    }
}

#[test]
fn an_await_is_an_effect() {
    let f = FunctionDef {
        name: "f".to_string(),
        purity: Purity::Deterministic,
        params: vec![],
        return_type: TypeRef::Void,
        body: Block {
            statements: vec![Statement::ExprStmt(Expr::Await(Box::new(Expr::Literal(
                Literal::Int(1),
            ))))],
        },
    };
    let symbols = SymbolTable { functions: vec![] };
    assert_eq!(DeterminismAnalyzer::check(&f, &symbols), Err("Impure function: f".to_string()));
}

#[test]
fn the_failure_branch_of_a_validation_is_not_looked_at() {
    let f = FunctionDef {
        name: "f".to_string(),
        purity: Purity::Deterministic,
        params: vec![],
        return_type: TypeRef::Void,
        body: Block {
            statements: vec![Statement::ValidateBlock {
                target: "x".to_string(),
                schema: "Schema".to_string(),
                on_fail: Box::new(Block {
                    statements: vec![Statement::ExprStmt(Expr::Spawn(Box::new(
                        Expr::Identifier("y".to_string()),
                    )))],
                }),
                success_scope: Box::new(Block { statements: vec![] }),
            }],
        },
    };
    let symbols = SymbolTable { functions: vec![] };
    assert_eq!(DeterminismAnalyzer::check(&f, &symbols), Ok(()));
}

#[test]
fn purity_does_not_follow_calls() {
    assert_eq!(purity_of("deterministic fn f() { g() }"), Ok(()));
}

#[test]
fn the_table_resolves_a_name_to_its_last_declaration() {
    let (_, functions) = parse_program(
        "deterministic fn f() {} nondeterministic fn g() {} nondeterministic fn f(a: i64) {}",
    )
    .unwrap();
    let symbols = SymbolTable { functions };
    let found = symbols.lookup(&"f".to_string()).unwrap();
    assert_eq!(found.purity, Purity::Nondeterministic);
    assert_eq!(found.params.len(), 1);
    assert_eq!(symbols.lookup(&"g".to_string()).unwrap().name, "g");
    assert_eq!(symbols.lookup(&"h".to_string()), None);
}

#[test]
fn names_do_not_leak_from_one_function_to_the_next() {
    let (_, functions) =
        parse_program("deterministic fn f(){let x=1} nondeterministic fn g(){return x}").unwrap();
    let mut analyzer = ScopeAnalyzer::new();
    assert_eq!(analyzer.analyze(&functions[0]), Ok(()));
    assert_eq!(
        analyzer.analyze(&functions[1]),
        Err("Undefined variable used: x".to_string())
    );
}

#[test]
fn parameters_do_not_leak_from_one_function_to_the_next() {
    let (_, functions) = parse_program(
        "deterministic fn f(x: i64){return x} nondeterministic fn g(){return x}",
    )
    .unwrap();
    let mut analyzer = ScopeAnalyzer::new();
    assert_eq!(analyzer.analyze(&functions[0]), Ok(()));
    assert_eq!(
        analyzer.analyze(&functions[1]),
        Err("Undefined variable used: x".to_string())
    );
    assert_eq!(analyzer.analyze(&functions[0]), Ok(()));
}

#[test]
fn names_do_not_leak_past_the_end_of_a_block() {
    assert_eq!(
        scope_of("nondeterministic fn f(){if true{let x=1} return x}"),
        Err("Undefined variable used: x".to_string())
    );
    let bodies = [
        "if true { } else { let x = 1 } return x",
        "while true { let x = 1 } return x",
        "for i in 0..1 { let x = 1 } return x",
        "scope S { let x = 1 } return x",
        "let y = 1 validate y { success: { let x = 1 } } return x",
    ];
    for body in bodies {
        let source = format!("nondeterministic fn f() {{ {} }}", body);
        assert_eq!(scope_of(&source), Err("Undefined variable used: x".to_string()), "{}", body);
    }
}

#[test]
fn a_loop_variable_lives_in_the_body_of_its_loop_only() {
    assert_eq!(scope_of("nondeterministic fn f() { for i in 0..3 { g(i) } }"), Ok(()));
    assert_eq!(
        scope_of("nondeterministic fn f() { for i in 0..3 { } return i }"),
        Err("Undefined variable used: i".to_string())
    );
    assert_eq!(
        scope_of("nondeterministic fn f() { for i in i..3 { } }"),
        Err("Undefined variable used: i".to_string())
    );
    assert_eq!(
        scope_of("nondeterministic fn f() { for i in 0..i { } }"),
        Err("Undefined variable used: i".to_string())
    );
    assert_eq!(
        scope_of("nondeterministic fn f() { for i in 0..3 by i { } }"),
        Err("Undefined variable used: i".to_string())
    );
}

#[test]
fn a_block_sees_what_was_bound_before_it() {
    assert_eq!(
        scope_of("nondeterministic fn f(a: i64) { let b = a if a > b { let c = a + b while c > 0 { c = c - 1 } } }"),
        Ok(())
    );
}

#[test]
fn a_let_cannot_read_its_own_name() {
    assert_eq!(
        scope_of("nondeterministic fn f() { let x = x }"),
        Err("Undefined variable used: x".to_string())
    );
    assert_eq!(scope_of("nondeterministic fn f() { let x = 1 let x = x }"), Ok(()));
}

#[test]
fn an_assignment_binds_nothing() {
    assert_eq!(
        scope_of("nondeterministic fn f() { x = 1 }"),
        Err("Undefined variable: x".to_string())
    );
    assert_eq!(
        scope_of("nondeterministic fn f() { x = y }"),
        Err("Undefined variable: x".to_string())
    );
    assert_eq!(
        scope_of("nondeterministic fn f(x: i64) { x = y }"),
        Err("Undefined variable used: y".to_string())
    );
}

#[test]
fn a_validation_needs_a_bound_target() {
    assert_eq!(
        scope_of("nondeterministic fn f() { validate x { success: { } } }"),
        Err("Undefined variable in validate: x".to_string())
    );
    assert_eq!(
        scope_of("nondeterministic fn f(x: Untrusted) { validate x { success: { return y } } }"),
        Err("Undefined variable used: y".to_string())
    );
    assert_eq!(
        scope_of("nondeterministic fn f(x: Untrusted) { validate x { success: { return x } } }"),
        Ok(())
    );
}

#[test]
fn the_first_unbound_name_is_the_one_reported() {
    assert_eq!(
        scope_of("nondeterministic fn f() { return g(a, b) + c }"),
        Err("Undefined variable used: a".to_string())
    );
    assert_eq!(
        scope_of("nondeterministic fn f(a: i64) { return [a, spawn h(b), c] }"),
        Err("Undefined variable used: b".to_string())
    );
    assert_eq!(
        scope_of("nondeterministic fn f(a: i64) { call S.m(a, d) { timeout: 1 } json(e, \"k\") }"),
        Err("Undefined variable used: d".to_string())
    );
    assert_eq!(
        scope_of("nondeterministic fn f(a: i64) { a[x] }"),
        Err("Undefined variable used: x".to_string())
    );
}

#[test]
fn callee_names_are_not_variables() {
    assert_eq!(scope_of("nondeterministic fn f() { g() DB.log(1) }"), Ok(()));
}

#[test]
fn the_taint_check_accepts_every_function() {
    let sources = [
        "nondeterministic fn f(x: Untrusted) { call HTTP.get(x) { timeout: 1 } }",
        "deterministic fn f(x: Untrusted) -> Untrusted { return x }",
        "nondeterministic fn f() { if a { for i in 0..1 by 1 { spawn g(json(b, \"k\")[0]) } } else { while c { scope S { validate d { success: { return [e] } } } } } }",
    ];
    for source in sources {
        assert_eq!(TaintAnalyzer::check(&function_of(source)), Ok(()), "{}", source);
    }
}
