//! What the generator emits, stated as a function of the tree.
//!
//! The text of a function depends on the tree, on the set of names that are
//! declared deterministic anywhere in the program, and on whether the function
//! that is being emitted is itself in that set.

use crate::ast::{
    BinaryOp, Purity, SpecExpr, SpecFunctionDef, SpecLiteral, SpecParam, SpecStatement,
    SpecTypeRef,
};
use crate::runtime::FIELD_ERROR;
use crate::text::{int_text, nat_text};
use vstd::prelude::*;

verus! {

/// The support code that every generated program starts with.
pub const RUNTIME_PREAMBLE: &'static str = r#"
#![allow(dead_code, unused_imports, unused_variables, unused_parens, unused_mut)]
use std::time::Duration;
use std::io::{self, Write};
use serde_json::Value;

const RESET: &str = "\x1b[0m";
const CYAN: &str = "\x1b[36m";   
const GREEN: &str = "\x1b[32m";  
const MAGENTA: &str = "\x1b[35m";
const YELLOW: &str = "\x1b[33m"; 
const BLUE: &str = "\x1b[34m";
const RED: &str = "\x1b[31m";

struct DB;
impl DB {
    async fn log<T: std::fmt::Display>(msg: T) { println!("  {}[DB] Log: {}{}", CYAN, msg, RESET); }
}

struct Console;
impl Console {
    async fn read(prompt: String) -> String {
        print!("  {}[Console]  {}: {} ", BLUE, prompt, RESET);
        io::stdout().flush().unwrap();
        let mut buffer = String::new();
        io::stdin().read_line(&mut buffer).unwrap();
        buffer.trim().to_string()
    }
}

struct Util;
impl Util {
    #[inline(always)]
    async fn to_int(s: String) -> i64 { s.trim().parse::<i64>().unwrap_or(0) }
    #[inline(always)]
    async fn now() -> i64 {
        std::time::SystemTime::now()
            .duration_since(std::time::UNIX_EPOCH)
            .unwrap()
            .as_millis() as i64
    }
}

struct HTTP;
impl HTTP {
    async fn get(url: String) -> String {
        let client = reqwest::Client::builder().user_agent("GojoLang/1.0").build().unwrap();
        match client.get(&url).send().await {
            Ok(res) => res.text().await.unwrap_or_else(|e| format!("Error: {}", e)),
            Err(e) => format!("Error: {}", e)
        }
    }
}

trait Validate { fn validate(&self) -> Result<String, String>; }
impl Validate for String {
    fn validate(&self) -> Result<String, String> { Ok(self.clone()) }
}

// TRAITLER (Inline optimize edildi)
trait GojoAdd<Rhs> { type Output; fn g_add(self, rhs: Rhs) -> Self::Output; }
impl GojoAdd<i64> for i64 { type Output = i64; #[inline(always)] fn g_add(self, rhs: i64) -> i64 { self + rhs } }
impl GojoAdd<String> for String { type Output = String; #[inline(always)] fn g_add(self, rhs: String) -> String { self + &rhs } }
impl<'a> GojoAdd<&'a str> for String { type Output = String; #[inline(always)] fn g_add(self, rhs: &'a str) -> String { self + rhs } }
impl GojoAdd<i64> for String { type Output = String; #[inline(always)] fn g_add(self, rhs: i64) -> String { format!("{}{}", self, rhs) } }

trait GojoMul<Rhs> { type Output; fn g_mul(self, rhs: Rhs) -> Self::Output; }
impl GojoMul<i64> for i64 { type Output = i64; #[inline(always)] fn g_mul(self, rhs: i64) -> i64 { self * rhs } }
impl GojoMul<i64> for String { type Output = String; fn g_mul(self, rhs: i64) -> String { self.repeat(rhs as usize) } }
impl<'a> GojoMul<i64> for &'a str { type Output = String; fn g_mul(self, rhs: i64) -> String { self.repeat(rhs as usize) } }
"#;

/// The entry point appended to a program that declares `main`.
pub const MAIN_SHIM: &'static str = r#"#[tokio::main] async fn main() { user_main("Internet".to_string()).await; tokio::time::sleep(std::time::Duration::from_millis(100)).await; }"#;

/// One level of indentation.
pub const INDENT_UNIT: &'static str = "    ";

/// The names of the functions that are declared deterministic.
pub open spec fn pure_set(functions: Seq<SpecFunctionDef>) -> Set<Seq<char>> {
    Set::new(
        |name: Seq<char>|
            exists|i: int|
                0 <= i < functions.len() && functions[i].purity == Purity::Deterministic
                    && #[trigger] functions[i].name == name,
    )
}

/// The target type that stands for a source type.
pub open spec fn type_text(t: SpecTypeRef) -> Seq<char>
    decreases t,
{
    match t {
        SpecTypeRef::Void => "()"@,
        SpecTypeRef::Integer => "i64"@,
        SpecTypeRef::String => "String"@,
        SpecTypeRef::Array(inner) => "Vec<"@ + type_text(*inner) + ">"@,
        SpecTypeRef::Untrusted => "String"@,
        SpecTypeRef::Custom(_) => "String"@,
    }
}

/// The text of a literal; a string becomes an owned string of the target.
pub open spec fn literal_text(lit: SpecLiteral) -> Seq<char> {
    match lit {
        SpecLiteral::Int(n) => int_text(n),
        SpecLiteral::Str(s) => "\""@ + s + "\".to_string()"@,
        SpecLiteral::Bool(b) => if b {
            "true"@
        } else {
            "false"@
        },
    }
}

/// The target operator that an operator lowers to when it is not dispatched.
pub open spec fn native_op_text(op: BinaryOp) -> Seq<char> {
    match op {
        BinaryOp::Add => "+"@,
        BinaryOp::Sub => "-"@,
        BinaryOp::Mul => "*"@,
        BinaryOp::Div => "/"@,
        BinaryOp::Eq => "=="@,
        BinaryOp::Neq => "!="@,
        BinaryOp::Gt => ">"@,
        BinaryOp::Lt => "<"@,
        BinaryOp::Gte => ">="@,
        BinaryOp::Lte => "<="@,
    }
}

/// A callee's name as a target path: every `.` becomes `::`.
pub open spec fn path_text(name: Seq<char>) -> Seq<char>
    decreases name.len(),
{
    if name.len() == 0 {
        Seq::empty()
    } else if name.last() == '.' {
        path_text(name.drop_last()) + "::"@
    } else {
        path_text(name.drop_last()).push(name.last())
    }
}

/// What follows a call's closing parenthesis: nothing when the callee is in
/// the pure set, and a suspension otherwise.
pub open spec fn call_suffix(callee: Seq<char>, pure: Set<Seq<char>>) -> Seq<char> {
    if pure.contains(callee) {
        Seq::empty()
    } else {
        ".await"@
    }
}

/// Whether an expression is an integer literal below zero.
pub open spec fn is_negative_literal(e: SpecExpr) -> bool {
    match e {
        SpecExpr::Literal(SpecLiteral::Int(n)) => n < 0,
        _ => false,
    }
}

/// The left operand of a dispatched operator as the receiver of the
/// dispatch, given its own text. An integer literal below zero stands in
/// parentheses, so that its sign belongs to the receiver and not to the
/// result of the dispatch; every other operand stands as it is.
pub open spec fn receiver_text(left: SpecExpr, text: Seq<char>) -> Seq<char> {
    if is_negative_literal(left) {
        "("@ + text + ")"@
    } else {
        text
    }
}

/// The text of an expression inside a function that is (`in_pure`) or is not
/// in the pure set `pure`. Where a field access finds nothing, the emitted
/// code yields the same error text as `runtime::json_field`.
pub open spec fn expr_text(e: SpecExpr, pure: Set<Seq<char>>, in_pure: bool) -> Seq<char>
    decreases e, 0nat,
{
    match e {
        SpecExpr::Identifier(name) => name,
        SpecExpr::Literal(lit) => literal_text(lit),
        SpecExpr::Infra(call) => "tokio::time::timeout(Duration::from_millis("@ + nat_text(
            call.config.timeout_ms as nat,
        ) + "), "@ + call.service + "::"@ + call.method + "("@ + list_text(
            call.args,
            pure,
            in_pure,
            true,
        ) + ")).await.unwrap()"@,
        SpecExpr::JsonField(source, key) => "serde_json::from_str::<serde_json::Value>(&"@
            + expr_text(*source, pure, in_pure) + ").ok().and_then(|v| v.get(\""@ + key
            + "\").map(|x| if x.is_string() { x.as_str().unwrap().to_string() } else { x.to_string() })).unwrap_or(\""@
            + FIELD_ERROR@ + "\".to_string())"@,
        SpecExpr::ArrayLiteral(elems) => "vec!["@ + list_text(elems, pure, in_pure, false)
            + "]"@,
        SpecExpr::Index(array, index) => expr_text(*array, pure, in_pure) + "[("@ + expr_text(
            *index,
            pure,
            in_pure,
        ) + " as usize)]"@,
        SpecExpr::Binary(left, op, right) => if !in_pure && op == BinaryOp::Add {
            receiver_text(*left, expr_text(*left, pure, in_pure)) + ".g_add("@ + expr_text(
                *right,
                pure,
                in_pure,
            ) + ")"@
        } else if !in_pure && op == BinaryOp::Mul {
            receiver_text(*left, expr_text(*left, pure, in_pure)) + ".g_mul("@ + expr_text(
                *right,
                pure,
                in_pure,
            ) + ")"@
        } else {
            "("@ + expr_text(*left, pure, in_pure) + " "@ + native_op_text(op) + " "@
                + expr_text(*right, pure, in_pure) + ")"@
        },
        SpecExpr::Call(name, args) => path_text(name) + "("@ + list_text(
            args,
            pure,
            in_pure,
            false,
        ) + ")"@ + call_suffix(name, pure),
        SpecExpr::Spawn(inner) => "tokio::spawn(async move { "@ + expr_text(
            *inner,
            pure,
            in_pure,
        ) + " })"@,
        SpecExpr::Await(inner) => expr_text(*inner, pure, in_pure) + ".await"@,
    }
}

/// The text of an expression where the target expects text: a string literal
/// as it is, anything else formatted.
pub open spec fn textual_expr_text(e: SpecExpr, pure: Set<Seq<char>>, in_pure: bool) -> Seq<
    char,
>
    decreases e, 1nat,
{
    match e {
        SpecExpr::Literal(SpecLiteral::Str(_)) => expr_text(e, pure, in_pure),
        _ => "format!(\"{}\", "@ + expr_text(e, pure, in_pure) + ")"@,
    }
}

/// The texts of the expressions of a list, separated by a comma and a space;
/// `textual` chooses between `textual_expr_text` and `expr_text`.
pub open spec fn list_text(
    items: Seq<SpecExpr>,
    pure: Set<Seq<char>>,
    in_pure: bool,
    textual: bool,
) -> Seq<char>
    decreases items, 2nat,
{
    if items.len() == 0 {
        Seq::empty()
    } else {
        let head = if items.len() == 1 {
            Seq::empty()
        } else {
            list_text(items.drop_last(), pure, in_pure, textual) + ", "@
        };
        head + if textual {
            textual_expr_text(items.last(), pure, in_pure)
        } else {
            expr_text(items.last(), pure, in_pure)
        }
    }
}

/// The statement that advances a `for` loop's variable by its step: native
/// addition in a pure function, dispatch elsewhere.
pub open spec fn advance_text(var: Seq<char>, in_pure: bool, indent: Seq<char>) -> Seq<char> {
    if in_pure {
        indent + var + " += _gojo_step;\n"@
    } else {
        indent + var + " = "@ + var + ".g_add(_gojo_step);\n"@
    }
}

/// The text of a statement whose first line is indented by `indent`.
pub open spec fn stmt_text(
    s: SpecStatement,
    pure: Set<Seq<char>>,
    in_pure: bool,
    indent: Seq<char>,
) -> Seq<char>
    decreases s, 0nat,
{
    let inner = indent + INDENT_UNIT@;
    match s {
        SpecStatement::Let(binding) => indent + "let mut "@ + binding.name + " = "@ + expr_text(
            binding.value,
            pure,
            in_pure,
        ) + ";\n"@,
        SpecStatement::Assign { name, value } => indent + name + " = "@ + expr_text(
            value,
            pure,
            in_pure,
        ) + ";\n"@,
        SpecStatement::ExprStmt(e) => indent + expr_text(e, pure, in_pure) + ";\n"@,
        SpecStatement::While { condition, body } => indent + "while "@ + expr_text(
            condition,
            pure,
            in_pure,
        ) + " {\n"@ + block_text(body.statements, pure, in_pure, inner) + indent + "}\n"@,
        SpecStatement::For { var, start, end, step, body } => indent + "{\n"@ + indent
            + "let mut "@ + var + " = "@ + expr_text(start, pure, in_pure) + ";\n"@ + indent
            + "let _gojo_end = "@ + expr_text(end, pure, in_pure) + ";\n"@ + indent
            + "let _gojo_step = "@ + (match step {
            Some(e) => expr_text(e, pure, in_pure),
            None => "1"@,
        }) + ";\n"@ + indent + "while (_gojo_step > 0 && "@ + var
            + " < _gojo_end) || (_gojo_step < 0 && "@ + var + " > _gojo_end) {\n"@ + block_text(
            body.statements,
            pure,
            in_pure,
            inner,
        ) + advance_text(var, in_pure, inner) + indent + "}\n"@ + indent + "}\n"@,
        SpecStatement::If { condition, then_block, else_block } => indent + "if "@ + expr_text(
            condition,
            pure,
            in_pure,
        ) + " {\n"@ + block_text(then_block.statements, pure, in_pure, inner) + indent + "}"@
            + (match else_block {
            Some(block) => " else {\n"@ + block_text(block.statements, pure, in_pure, inner)
                + indent + "}"@,
            None => Seq::empty(),
        }) + "\n"@,
        SpecStatement::ScopeBlock { name, body } => indent + "// Scope: "@ + name + "\n"@
            + indent + "{\n"@ + block_text(body.statements, pure, in_pure, inner) + inner
            + "tokio::time::sleep(Duration::from_millis(50)).await;\n"@ + indent + "}\n"@,
        SpecStatement::ValidateBlock { target, schema, on_fail, success_scope } => indent
            + "let "@ + target + " = "@ + target + ".validate().unwrap();\n"@ + block_text(
            success_scope.statements,
            pure,
            in_pure,
            indent,
        ),
        SpecStatement::Return(Some(e)) => indent + "return "@ + expr_text(e, pure, in_pure)
            + ";\n"@,
        SpecStatement::Return(None) => indent + "return;\n"@,
    }
}

/// The texts of the statements of a block, one after the other.
pub open spec fn block_text(
    stmts: Seq<SpecStatement>,
    pure: Set<Seq<char>>,
    in_pure: bool,
    indent: Seq<char>,
) -> Seq<char>
    decreases stmts, 1nat,
{
    if stmts.len() == 0 {
        Seq::empty()
    } else {
        block_text(stmts.drop_last(), pure, in_pure, indent) + stmt_text(
            stmts.last(),
            pure,
            in_pure,
            indent,
        )
    }
}

/// A parameter as the target writes it.
pub open spec fn param_text(p: SpecParam) -> Seq<char> {
    p.name + ": "@ + type_text(p.param_type)
}

/// The parameters of a signature, separated by a comma and a space.
pub open spec fn params_text(params: Seq<SpecParam>) -> Seq<char>
    decreases params.len(),
{
    if params.len() == 0 {
        Seq::empty()
    } else if params.len() == 1 {
        param_text(params[0])
    } else {
        params_text(params.drop_last()) + ", "@ + param_text(params.last())
    }
}

/// The name under which a function is emitted: `main` gives way to the
/// program's own entry point.
pub open spec fn emitted_name(name: Seq<char>) -> Seq<char> {
    if name == "main"@ {
        "user_main"@
    } else {
        name
    }
}

/// The text of a declaration. It can suspend exactly if its name is not in
/// the pure set.
pub open spec fn function_text(f: SpecFunctionDef, pure: Set<Seq<char>>) -> Seq<char> {
    let in_pure = pure.contains(f.name);
    "pub "@ + (if in_pure {
        Seq::empty()
    } else {
        "async "@
    }) + "fn "@ + emitted_name(f.name) + "("@ + params_text(f.params) + ") -> "@ + type_text(
        f.return_type,
    ) + " {\n"@ + block_text(f.body.statements, pure, in_pure, INDENT_UNIT@) + "}\n\n"@
}

/// The texts of the declarations, in order, all under the same pure set.
pub open spec fn functions_text(functions: Seq<SpecFunctionDef>, pure: Set<Seq<char>>) -> Seq<
    char,
>
    decreases functions.len(),
{
    if functions.len() == 0 {
        Seq::empty()
    } else {
        functions_text(functions.drop_last(), pure) + function_text(functions.last(), pure)
    }
}

/// Whether a declaration is named `main`.
pub open spec fn declares_main(functions: Seq<SpecFunctionDef>) -> bool {
    exists|i: int| 0 <= i < functions.len() && #[trigger] functions[i].name == "main"@
}

/// The whole generated program: the support code, every declaration under
/// the program's pure set, and the entry point if `main` is declared.
pub open spec fn program_text(functions: Seq<SpecFunctionDef>) -> Seq<char> {
    RUNTIME_PREAMBLE@ + functions_text(functions, pure_set(functions)) + if declares_main(
        functions,
    ) {
        MAIN_SHIM@
    } else {
        Seq::empty()
    }
}

/// Whether a call suspends is decided by the callee's name alone: in a pure
/// function and in any other, a call of a name in the pure set ends with its
/// closing parenthesis, and a call of any other name is followed by a
/// suspension. Where the arguments read the same in both, so does the whole
/// call.
pub proof fn law_call_suspends_by_callee(
    name: Seq<char>,
    args: Seq<SpecExpr>,
    pure: Set<Seq<char>>,
    caller_is_pure: bool,
)
    ensures
        expr_text(SpecExpr::Call(name, args), pure, caller_is_pure) == path_text(name) + "("@
            + list_text(args, pure, caller_is_pure, false) + ")"@ + if pure.contains(name) {
            Seq::<char>::empty()
        } else {
            ".await"@
        },
        list_text(args, pure, true, false) == list_text(args, pure, false, false) ==> expr_text(
            SpecExpr::Call(name, args),
            pure,
            true,
        ) == expr_text(SpecExpr::Call(name, args), pure, false),
{
}

/// The receiver of a dispatched `+` or `*` is the whole left operand: the
/// text of a negative literal on the left is in parentheses, and the text
/// of any other left operand is the operand's own.
pub proof fn law_dispatch_receives_the_left_operand(
    left: SpecExpr,
    op: BinaryOp,
    right: SpecExpr,
    pure: Set<Seq<char>>,
)
    requires
        op == BinaryOp::Add || op == BinaryOp::Mul,
    ensures
        expr_text(SpecExpr::Binary(Box::new(left), op, Box::new(right)), pure, false) == (
        if is_negative_literal(left) {
            "("@ + expr_text(left, pure, false) + ")"@
        } else {
            expr_text(left, pure, false)
        }) + (if op == BinaryOp::Add {
            ".g_add("@
        } else {
            ".g_mul("@
        }) + expr_text(right, pure, false) + ")"@,
{
}

/// Whether a function is emitted as one that can suspend is decided by the
/// pure set alone.
pub proof fn law_function_suspends_by_classification(f: SpecFunctionDef, pure: Set<Seq<char>>)
    ensures
        function_text(f, pure) == "pub "@ + (if pure.contains(f.name) {
            Seq::<char>::empty()
        } else {
            "async "@
        }) + "fn "@ + emitted_name(f.name) + "("@ + params_text(f.params) + ") -> "@ + type_text(
            f.return_type,
        ) + " {\n"@ + block_text(f.body.statements, pure, pure.contains(f.name), INDENT_UNIT@)
            + "}\n\n"@,
{
}

} // verus!
