use gojo::lowering::RUNTIME_PREAMBLE;
use gojo::parser::SyntaxError;
use gojo::pipeline::{compile, CompileError, Compiled, Diagnostic, Phase};

#[test]
fn a_program_that_passes_is_generated() {
    let done = compile("deterministic fn f() -> i64 { return 2+3*4 }").unwrap();
    assert_eq!(
        done,
        Compiled {
            functions: 1,
            code: format!("{}pub fn f() -> i64 {{\n    return (2 + (3 * 4));\n}}\n\n", RUNTIME_PREAMBLE),
        }
    );
}

#[test]
fn a_text_without_a_function_is_a_syntax_error() {
    assert_eq!(compile("let x = 1"), Err(CompileError::Syntax(SyntaxError { offset: 0 })));
    assert_eq!(
        compile("fn f(){if true{let x=1} return x}"),
        Err(CompileError::Syntax(SyntaxError { offset: 0 }))
    );
}

#[test]
fn the_first_failing_function_ends_the_run() {
    let source = "nondeterministic fn a() { return x }\n\
                  deterministic fn b() { spawn a() }";
    assert_eq!(
        compile(source),
        Err(CompileError::Check(Diagnostic {
            phase: Phase::Scope,
            function: "a".to_string(),
            message: "Undefined variable used: x".to_string(),
        }))
    );
}

#[test]
fn purity_is_checked_before_scope() {
    let source = "deterministic fn b() { spawn a(x) }";
    let error = compile(source).unwrap_err();
    let diagnostic = match error {
        CompileError::Check(d) => d,
        other => panic!("not a failed check: {:?}", other),
    };
    assert_eq!(diagnostic.phase, Phase::Determinism);
    assert_eq!(diagnostic.text(), "DETERMINISM HATASI (b): Impure function: b");
}

#[test]
fn a_diagnostic_names_phase_function_and_reason() {
    let d = Diagnostic {
        phase: Phase::Scope,
        function: "main".to_string(),
        message: "Undefined variable: n".to_string(),
    };
    assert_eq!(d.text(), "SCOPE HATASI (main): Undefined variable: n");
    let d = Diagnostic { phase: Phase::Taint, function: "f".to_string(), message: String::new() };
    assert_eq!(d.text(), "TAINT HATASI (f): ");
}

#[test]
fn what_stands_behind_the_last_function_is_left_alone() {
    let done = compile("deterministic fn f(){let x=1} fn g(){return x}").unwrap();
    assert_eq!(done.functions, 1);
    assert!(done.code.ends_with("pub fn f() -> () {\n    let mut x = 1;\n}\n\n"));
}

#[test]
fn the_sample_program_compiles() {
    let source = "deterministic fn fib(n: i64) -> i64 {\n    if n <= 1 { return n }\n    let a = fib(n - 1)\n    let b = fib(n - 2)\n    return a + b\n}\n\nnondeterministic fn main(girdi: Untrusted) {\n    validate girdi { success: {\n        scope Benchmark {\n            let n = 40\n            spawn DB.log(\"Gojo: fib(\" + n + \") hesaplaniyor...\")\n            let start = Util.now()\n            let sonuc = fib(n)\n            let end = Util.now()\n            spawn DB.log(\"Sonuc: \" + sonuc)\n            spawn DB.log(\"Gecen Sure: \" + (end - start) + \" ms\")\n        }\n    } }\n}\n";
    let done = compile(source).unwrap();
    assert_eq!(done.functions, 2);
    let expected = "pub fn fib(n: i64) -> i64 {\n    if (n <= 1) {\n        return n;\n    }\n    let mut a = fib((n - 1));\n    let mut b = fib((n - 2));\n    return (a + b);\n}\n\npub async fn user_main(girdi: String) -> () {\n    let girdi = girdi.validate().unwrap();\n    // Scope: Benchmark\n    {\n        let mut n = 40;\n        tokio::spawn(async move { DB::log(\"Gojo: fib(\".to_string().g_add(n).g_add(\") hesaplaniyor...\".to_string())).await });\n        let mut start = Util::now().await;\n        let mut sonuc = fib(n);\n        let mut end = Util::now().await;\n        tokio::spawn(async move { DB::log(\"Sonuc: \".to_string().g_add(sonuc)).await });\n        tokio::spawn(async move { DB::log(\"Gecen Sure: \".to_string().g_add((end - start)).g_add(\" ms\".to_string())).await });\n        tokio::time::sleep(Duration::from_millis(50)).await;\n    }\n}\n\n#[tokio::main] async fn main() { user_main(\"Internet\".to_string()).await; tokio::time::sleep(std::time::Duration::from_millis(100)).await; }";
    assert_eq!(&done.code[RUNTIME_PREAMBLE.len()..], expected);
}
