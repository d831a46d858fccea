//! The whole way from a text to the generated program: the text is read,
//! every function passes the three checks in the order of its declaration,
//! and the code is generated. The first failure ends it.

use crate::analysis::determinism::{is_impure, DeterminismAnalyzer, SymbolTable};
use crate::analysis::scope::{function_error, ScopeAnalyzer};
use crate::analysis::taint::TaintAnalyzer;
use crate::ast::{program_view, FunctionDef, SpecFunctionDef};
use crate::codegen::Codegen;
use crate::grammar;
use crate::lowering::program_text;
use crate::parser::{parse_program, SyntaxError};
use vstd::prelude::*;
use vstd::string::StringExecFns;

verus! {

/// The check that a function failed.
#[derive(Debug, Clone, Copy, PartialEq, Eq, Structural)]
pub enum Phase {
    Determinism,
    Taint,
    Scope,
}

/// The failure of a check: which check, on which function, and why.
#[derive(Debug, PartialEq, Eq)]
pub struct Diagnostic {
    pub phase: Phase,
    pub function: String,
    pub message: String,
}

pub struct SpecDiagnostic {
    pub phase: Phase,
    pub function: Seq<char>,
    pub message: Seq<char>,
}

impl View for Diagnostic {
    type V = SpecDiagnostic;

    open spec fn view(&self) -> SpecDiagnostic {
        SpecDiagnostic { phase: self.phase, function: self.function@, message: self.message@ }
    }
}

/// The word that a report starts with.
pub open spec fn phase_label(phase: Phase) -> Seq<char> {
    match phase {
        Phase::Determinism => "DETERMINISM"@,
        Phase::Taint => "TAINT"@,
        Phase::Scope => "SCOPE"@,
    }
}

/// The line that reports a failure.
pub open spec fn diagnostic_text(d: SpecDiagnostic) -> Seq<char> {
    phase_label(d.phase) + " HATASI ("@ + d.function + "): "@ + d.message
}

impl Diagnostic {
    /// The line that reports this failure.
    pub fn text(&self) -> (line: String)
        ensures
            line@ == diagnostic_text(self@),
    {
        let mut line = match self.phase {
            Phase::Determinism => "DETERMINISM".to_owned(),
            Phase::Taint => "TAINT".to_owned(),
            Phase::Scope => "SCOPE".to_owned(),
        };
        line.append(" HATASI (");
        line.append(self.function.as_str());
        line.append("): ");
        line.append(self.message.as_str());
        line
    }
}

/// The first check that a function fails: purity before scope. The taint
/// check fails no function.
pub open spec fn function_failure(f: SpecFunctionDef) -> Option<SpecDiagnostic> {
    if is_impure(f.purity, f.body.statements) {
        Some(
            SpecDiagnostic {
                phase: Phase::Determinism,
                function: f.name,
                message: "Impure function: "@ + f.name,
            },
        )
    } else {
        match function_error(f.params, f.body.statements) {
            Some(message) => Some(
                SpecDiagnostic { phase: Phase::Scope, function: f.name, message },
            ),
            None => None,
        }
    }
}

/// The failure of the first function, in the order of declaration, that
/// fails a check.
pub open spec fn program_failure(functions: Seq<SpecFunctionDef>) -> Option<SpecDiagnostic>
    decreases functions.len(),
{
    if functions.len() == 0 {
        None
    } else {
        match program_failure(functions.drop_last()) {
            Some(d) => Some(d),
            None => function_failure(functions.last()),
        }
    }
}

/// A failure among the first `k` functions is the failure of the program.
proof fn lemma_program_failure_prefix(functions: Seq<SpecFunctionDef>, k: int)
    requires
        0 <= k <= functions.len(),
        program_failure(functions.take(k)) is Some,
    ensures
        program_failure(functions) == program_failure(functions.take(k)),
    decreases functions.len() - k,
{
    if k == functions.len() {
        assert(functions.take(k) =~= functions);
    } else {
        assert(functions.take(k + 1).drop_last() =~= functions.take(k));
        lemma_program_failure_prefix(functions, k + 1);
    }
}

/// Every function is checked on its own: a program passes exactly if each
/// of its functions does.
pub proof fn law_functions_are_checked_alone(functions: Seq<SpecFunctionDef>)
    ensures
        program_failure(functions) is None <==> forall|i: int|
            0 <= i < functions.len() ==> function_failure(#[trigger] functions[i]) is None,
    decreases functions.len(),
{
    if functions.len() > 0 {
        let shorter = functions.drop_last();
        law_functions_are_checked_alone(shorter);
        if program_failure(functions) is None {
            assert forall|i: int| 0 <= i < functions.len() implies function_failure(
                #[trigger] functions[i],
            ) is None by {
                if i < shorter.len() {
                    assert(shorter[i] == functions[i]);
                }
            }
        }
        if forall|i: int|
            0 <= i < functions.len() ==> function_failure(#[trigger] functions[i]) is None {
            assert forall|i: int| 0 <= i < shorter.len() implies function_failure(
                #[trigger] shorter[i],
            ) is None by {
                assert(shorter[i] == functions[i]);
            }
            assert(function_failure(functions.last()) is None);
        }
    }
}

/// Runs the three checks on one function.
pub fn check_function(func: &FunctionDef, symbols: &SymbolTable) -> (r: Result<(), Diagnostic>)
    ensures
        match function_failure(func@) {
            Some(d) => r matches Err(found) && found@ == d,
            None => r is Ok,
        },
{
    if let Err(message) = DeterminismAnalyzer::check(func, symbols) {
        return Err(Diagnostic { phase: Phase::Determinism, function: func.name.clone(), message });
    }
    if let Err(message) = TaintAnalyzer::check(func) {
        return Err(Diagnostic { phase: Phase::Taint, function: func.name.clone(), message });
    }
    let mut scope_pass = ScopeAnalyzer::new();
    if let Err(message) = scope_pass.analyze(func) {
        return Err(Diagnostic { phase: Phase::Scope, function: func.name.clone(), message });
    }
    Ok(())
}

/// Runs the three checks on every function of the table, in order.
pub fn check_program(symbols: &SymbolTable) -> (r: Result<(), Diagnostic>)
    ensures
        match program_failure(program_view(symbols.functions@)) {
            Some(d) => r matches Err(found) && found@ == d,
            None => r is Ok,
        },
{
    let ghost program = program_view(symbols.functions@);
    let mut i: usize = 0;
    while i < symbols.functions.len()
        invariant
            i <= symbols.functions.len(),
            program == program_view(symbols.functions@),
            program_failure(program.take(i as int)) is None,
        decreases symbols.functions.len() - i,
    {
        proof {
            assert(program.take(i + 1).drop_last() =~= program.take(i as int));
        }
        let checked = check_function(&symbols.functions[i], symbols);
        if checked.is_err() {
            proof {
                lemma_program_failure_prefix(program, i + 1);
            }
            return checked;
        }
        i += 1;
    }
    assert(program.take(symbols.functions.len() as int) =~= program);
    Ok(())
}

/// Why no program was generated.
#[derive(Debug, PartialEq, Eq)]
pub enum CompileError {
    /// The text holds no declaration at its start.
    Syntax(SyntaxError),
    /// A function fails a check.
    Check(Diagnostic),
}

/// A generated program.
#[derive(Debug, PartialEq, Eq)]
pub struct Compiled {
    /// The number of declarations that were read.
    pub functions: usize,
    /// The text of the program.
    pub code: String,
}

/// Reads the text, checks every function and generates the program. What
/// stands behind the last declaration that reads is left alone.
pub fn compile(source: &str) -> (r: Result<Compiled, CompileError>)
    ensures
        match grammar::parse_program(source@) {
            Err(at) => r matches Err(CompileError::Syntax(error)) && error.offset == at,
            Ok((functions, _)) => match program_failure(functions) {
                Some(d) => r matches Err(CompileError::Check(found)) && found@ == d,
                None => r matches Ok(done) && done.functions == functions.len() && done.code@
                    == program_text(functions),
            },
        },
{
    let functions = match parse_program(source) {
        Ok((_, functions)) => functions,
        Err(error) => {
            return Err(CompileError::Syntax(error));
        },
    };
    let symbols = SymbolTable { functions };
    if let Err(diagnostic) = check_program(&symbols) {
        return Err(CompileError::Check(diagnostic));
    }
    let mut generator = Codegen::new();
    let code = generator.generate(&symbols.functions);
    Ok(Compiled { functions: symbols.functions.len(), code })
}

} // verus!
