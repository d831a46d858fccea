//! The code generator: one scan that classifies every declared function,
//! then the emission of each declaration under that classification.

use crate::ast::{
    exprs_view, lemma_expr_view, lemma_exprs_view, lemma_stmts_view, params_view, program_view, BinaryOp, Block,
    Expr, FunctionDef, Literal, Param, Purity, SpecFunctionDef, Statement, TypeRef,
};
use crate::lowering::{
    block_text, declares_main, expr_text, function_text, functions_text, list_text,
    native_op_text, param_text, params_text, path_text, program_text, pure_set, receiver_text,
    stmt_text,
    textual_expr_text, type_text, INDENT_UNIT, MAIN_SHIM, RUNTIME_PREAMBLE,
};
use crate::runtime::FIELD_ERROR;
use crate::text::{lemma_names_push, names_of, push_int, push_nat};
use vstd::prelude::*;
use vstd::string::StringExecFns;

verus! {

/// One more declaration adds its name to the pure set exactly if it is
/// tagged deterministic.
proof fn lemma_pure_set_step(program: Seq<SpecFunctionDef>, i: int)
    requires
        0 <= i < program.len(),
    ensures
        pure_set(program.take(i + 1)) == if program[i].purity == Purity::Deterministic {
            pure_set(program.take(i)).insert(program[i].name)
        } else {
            pure_set(program.take(i))
        },
{
    let shorter = program.take(i);
    let longer = program.take(i + 1);
    let expected = if program[i].purity == Purity::Deterministic {
        pure_set(shorter).insert(program[i].name)
    } else {
        pure_set(shorter)
    };
    assert forall|name: Seq<char>| pure_set(longer).contains(name) implies expected.contains(
        name,
    ) by {
        let k = choose|k: int|
            0 <= k < longer.len() && longer[k].purity == Purity::Deterministic
                && #[trigger] longer[k].name == name;
        if k < i {
            assert(shorter[k].name == name);
        }
    }
    assert forall|name: Seq<char>| expected.contains(name) implies pure_set(longer).contains(
        name,
    ) by {
        if pure_set(shorter).contains(name) {
            let k = choose|k: int|
                0 <= k < shorter.len() && shorter[k].purity == Purity::Deterministic
                    && #[trigger] shorter[k].name == name;
            assert(longer[k].name == name);
        } else {
            assert(longer[i].name == name);
        }
    }
    assert(pure_set(longer) =~= expected);
}

/// The generator. It keeps the classification of the program that it
/// generated last, and whether the function that it emitted last is pure.
pub struct Codegen {
    pure_functions: Vec<String>,
    is_current_func_pure: bool,
}

impl Codegen {
    /// The names that the last classification found deterministic.
    pub closed spec fn pure_names(&self) -> Set<Seq<char>> {
        names_of(self.pure_functions@)
    }

    /// Whether the function under emission is in the pure set.
    pub closed spec fn in_pure(&self) -> bool {
        self.is_current_func_pure
    }

    /// A generator that has classified nothing yet.
    pub fn new() -> (r: Self)
        ensures
            r.pure_names() == Set::<Seq<char>>::empty(),
            !r.in_pure(),
    {
        let r = Codegen { pure_functions: Vec::new(), is_current_func_pure: false };
        assert(r.pure_names() =~= Set::<Seq<char>>::empty());
        r
    }

    fn is_pure_name(&self, name: &String) -> (found: bool)
        ensures
            found == self.pure_names().contains(name@),
    {
        let mut i: usize = 0;
        while i < self.pure_functions.len()
            invariant
                i <= self.pure_functions.len(),
                forall|j: int| 0 <= j < i ==> self.pure_functions@[j]@ != name@,
            decreases self.pure_functions.len() - i,
        {
            if self.pure_functions[i] == *name {
                return true;
            }
            i += 1;
        }
        false
    }

    fn map_type(&self, t: &TypeRef) -> (code: String)
        ensures
            code@ == type_text(t@),
        decreases t,
    {
        match t {
            TypeRef::Void => "()".to_owned(),
            TypeRef::Integer => "i64".to_owned(),
            TypeRef::String => "String".to_owned(),
            TypeRef::Array(inner) => {
                let mut code = "Vec<".to_owned();
                let element = self.map_type(inner);
                code.append(element.as_str());
                code.append(">");
                code
            },
            _ => "String".to_owned(),
        }
    }

    fn get_runtime_preamble(&self) -> (code: String)
        ensures
            code@ == RUNTIME_PREAMBLE@,
    {
        RUNTIME_PREAMBLE.to_owned()
    }

    fn generate_main_shim(&self) -> (code: String)
        ensures
            code@ == MAIN_SHIM@,
    {
        MAIN_SHIM.to_owned()
    }

    /// The first scan: the names of the declarations tagged deterministic.
    fn classify(functions: &Vec<FunctionDef>) -> (names: Vec<String>)
        ensures
            names_of(names@) == pure_set(program_view(functions@)),
    {
        let ghost program = program_view(functions@);
        let mut names: Vec<String> = Vec::new();
        let mut i: usize = 0;
        assert(names_of(names@) =~= pure_set(program.take(0)));
        while i < functions.len()
            invariant
                i <= functions.len(),
                program == program_view(functions@),
                names_of(names@) == pure_set(program.take(i as int)),
            decreases functions.len() - i,
        {
            let func = &functions[i];
            let ghost before = names@;
            proof {
                lemma_pure_set_step(program, i as int);
            }
            if let Purity::Deterministic = func.purity {
                names.push(func.name.clone());
                proof {
                    lemma_names_push(before, names@[before.len() as int]);
                    assert(names@ =~= before.push(names@[before.len() as int]));
                }
            }
            i += 1;
        }
        assert(program.take(functions.len() as int) =~= program);
        names
    }

    /// Whether a declaration is named `main`.
    fn has_main(functions: &Vec<FunctionDef>) -> (found: bool)
        ensures
            found == declares_main(program_view(functions@)),
    {
        let main_name = "main".to_owned();
        let mut i: usize = 0;
        while i < functions.len()
            invariant
                i <= functions.len(),
                main_name@ == "main"@,
                forall|k: int| 0 <= k < i ==> #[trigger] program_view(functions@)[k].name != "main"@,
            decreases functions.len() - i,
        {
            if functions[i].name == main_name {
                assert(program_view(functions@)[i as int].name == "main"@);
                return true;
            }
            i += 1;
        }
        false
    }

    /// Classifies the program, then emits the support code, every
    /// declaration in order, and the entry point if `main` is declared.
    pub fn generate(&mut self, functions: &Vec<FunctionDef>) -> (code: String)
        ensures
            code@ == program_text(program_view(functions@)),
            final(self).pure_names() == pure_set(program_view(functions@)),
            final(self).in_pure() == if functions.len() == 0 {
                old(self).in_pure()
            } else {
                pure_set(program_view(functions@)).contains(functions@.last().name@)
            },
    {
        let ghost program = program_view(functions@);
        self.pure_functions = Self::classify(functions);
        let ghost pure = self.pure_names();

        let mut code = self.get_runtime_preamble();
        let mut n: usize = 0;
        assert(code@ + functions_text(program.take(0), pure) =~= code@);
        while n < functions.len()
            invariant
                n <= functions.len(),
                program == program_view(functions@),
                self.pure_names() == pure,
                code@ == RUNTIME_PREAMBLE@ + functions_text(program.take(n as int), pure),
                self.in_pure() == if n == 0 {
                    old(self).in_pure()
                } else {
                    pure.contains(functions@[n - 1].name@)
                },
            decreases functions.len() - n,
        {
            let text = self.generate_function(&functions[n]);
            code.append(text.as_str());
            proof {
                let next = program.take(n + 1);
                assert(next.drop_last() =~= program.take(n as int));
                assert(next.last() == functions@[n as int]@);
                assert(RUNTIME_PREAMBLE@ + functions_text(program.take(n as int), pure) + text@
                    =~= RUNTIME_PREAMBLE@ + (functions_text(program.take(n as int), pure)
                    + text@));
            }
            n += 1;
        }
        assert(program.take(functions.len() as int) =~= program);
        if Self::has_main(functions) {
            let shim = self.generate_main_shim();
            code.append(shim.as_str());
        } else {
            assert(code@ + Seq::<char>::empty() =~= code@);
        }
        code
    }

    fn generate_function(&mut self, func: &FunctionDef) -> (code: String)
        ensures
            code@ == function_text(func@, old(self).pure_names()),
            final(self).pure_names() == old(self).pure_names(),
            final(self).in_pure() == old(self).pure_names().contains(func.name@),
    {
        let main_name = "main".to_owned();
        let is_pure = self.is_pure_name(&func.name);
        self.is_current_func_pure = is_pure;
        assert(self.pure_names() =~= old(self).pure_names());

        let mut code = "pub ".to_owned();
        if !is_pure {
            code.append("async ");
        } else {
            assert(code@ + Seq::<char>::empty() =~= code@);
        }
        code.append("fn ");
        if func.name == main_name {
            code.append("user_main");
        } else {
            code.append(func.name.as_str());
        }
        code.append("(");
        let params = self.generate_params(&func.params);
        assert(func@.params =~= params_view(func.params@));
        code.append(params.as_str());
        code.append(") -> ");
        let result = self.map_type(&func.return_type);
        code.append(result.as_str());
        code.append(" {\n");
        let body = self.generate_block(&func.body, INDENT_UNIT);
        code.append(body.as_str());
        code.append("}\n\n");
        code
    }

    fn generate_params(&self, params: &Vec<Param>) -> (code: String)
        ensures
            code@ == params_text(params_view(params@)),
    {
        let ghost all = params_view(params@);
        let mut code = String::new();
        let mut i: usize = 0;
        while i < params.len()
            invariant
                i <= params.len(),
                all == params_view(params@),
                code@ == params_text(all.take(i as int)),
            decreases params.len() - i,
        {
            if i > 0 {
                code.append(", ");
            }
            let ghost head = code@;
            code.append(params[i].name.as_str());
            code.append(": ");
            let kind = self.map_type(&params[i].param_type);
            code.append(kind.as_str());
            proof {
                let next = all.take(i + 1);
                assert(next.drop_last() =~= all.take(i as int));
                assert(next.last() == params@[i as int]@);
                assert(code@ =~= head + param_text(params@[i as int]@));
                if i == 0 {
                    assert(next[0] == next.last());
                    assert(Seq::<char>::empty() + param_text(next[0]) =~= param_text(next[0]));
                }
            }
            i += 1;
        }
        assert(all.take(params.len() as int) =~= all);
        code
    }

    /// The indentation one level below `outer`.
    fn indent(&self, outer: &str) -> (inner: String)
        ensures
            inner@ == outer@ + INDENT_UNIT@,
    {
        let mut inner = outer.to_owned();
        inner.append(INDENT_UNIT);
        inner
    }

    fn generate_block(&self, block: &Block, indent: &str) -> (code: String)
        ensures
            code@ == block_text(block@.statements, self.pure_names(), self.in_pure(), indent@),
        decreases block, 1nat,
    {
        let ghost all = block@.statements;
        let mut code = String::new();
        let mut i: usize = 0;
        while i < block.statements.len()
            invariant
                i <= block.statements.len(),
                all == block@.statements,
                code@ == block_text(all.take(i as int), self.pure_names(), self.in_pure(), indent@),
            decreases block.statements.len() - i,
        {
            let piece = self.generate_stmt(&block.statements[i], indent);
            code.append(piece.as_str());
            proof {
                lemma_stmts_view(block.statements@);
                let next = all.take(i + 1);
                assert(next.drop_last() =~= all.take(i as int));
                assert(next.last() == block.statements@[i as int]@);
            }
            i += 1;
        }
        proof {
            lemma_stmts_view(block.statements@);
            assert(all.take(block.statements.len() as int) =~= all);
        }
        code
    }

    fn generate_stmt(&self, stmt: &Statement, indent: &str) -> (code: String)
        ensures
            code@ == stmt_text(stmt@, self.pure_names(), self.in_pure(), indent@),
        decreases stmt, 0nat,
    {
        reveal(crate::ast::stmt_view);
        match stmt {
            Statement::Let(binding) => {
                let mut code = indent.to_owned();
                code.append("let mut ");
                code.append(binding.name.as_str());
                code.append(" = ");
                let value = self.generate_expr(&binding.value);
                code.append(value.as_str());
                code.append(";\n");
                code
            },
            Statement::Assign { name, value } => {
                let mut code = indent.to_owned();
                code.append(name.as_str());
                code.append(" = ");
                let text = self.generate_expr(value);
                code.append(text.as_str());
                code.append(";\n");
                code
            },
            Statement::ExprStmt(e) => {
                let mut code = indent.to_owned();
                let text = self.generate_expr(e);
                code.append(text.as_str());
                code.append(";\n");
                code
            },
            Statement::While { condition, body } => {
                let inner = self.indent(indent);
                let mut code = indent.to_owned();
                code.append("while ");
                let test = self.generate_expr(condition);
                code.append(test.as_str());
                code.append(" {\n");
                let block = self.generate_block(body, inner.as_str());
                code.append(block.as_str());
                code.append(indent);
                code.append("}\n");
                code
            },
            Statement::For { var, start, end, step, body } => {
                let inner = self.indent(indent);
                let step_expr = match step {
                    Some(s) => self.generate_expr(s),
                    None => "1".to_owned(),
                };
                let mut code = indent.to_owned();
                code.append("{\n");
                code.append(indent);
                code.append("let mut ");
                code.append(var.as_str());
                code.append(" = ");
                let first = self.generate_expr(start);
                code.append(first.as_str());
                code.append(";\n");
                code.append(indent);
                code.append("let _gojo_end = ");
                let last = self.generate_expr(end);
                code.append(last.as_str());
                code.append(";\n");
                code.append(indent);
                code.append("let _gojo_step = ");
                code.append(step_expr.as_str());
                code.append(";\n");
                code.append(indent);
                code.append("while (_gojo_step > 0 && ");
                code.append(var.as_str());
                code.append(" < _gojo_end) || (_gojo_step < 0 && ");
                code.append(var.as_str());
                code.append(" > _gojo_end) {\n");
                let block = self.generate_block(body, inner.as_str());
                code.append(block.as_str());
                let mut advance = inner.clone();
                advance.append(var.as_str());
                if self.is_current_func_pure {
                    advance.append(" += _gojo_step;\n");
                } else {
                    advance.append(" = ");
                    advance.append(var.as_str());
                    advance.append(".g_add(_gojo_step);\n");
                }
                code.append(advance.as_str());
                code.append(indent);
                code.append("}\n");
                code.append(indent);
                code.append("}\n");
                code
            },
            Statement::If { condition, then_block, else_block } => {
                let inner = self.indent(indent);
                let mut code = indent.to_owned();
                code.append("if ");
                let test = self.generate_expr(condition);
                code.append(test.as_str());
                code.append(" {\n");
                let taken = self.generate_block(then_block, inner.as_str());
                code.append(taken.as_str());
                code.append(indent);
                code.append("}");
                match else_block {
                    Some(else_b) => {
                        let mut other = " else {\n".to_owned();
                        let block = self.generate_block(else_b, inner.as_str());
                        other.append(block.as_str());
                        other.append(indent);
                        other.append("}");
                        code.append(other.as_str());
                    },
                    None => {
                        assert(code@ + Seq::<char>::empty() =~= code@);
                    },
                }
                code.append("\n");
                code
            },
            Statement::ScopeBlock { name, body } => {
                let inner = self.indent(indent);
                let mut code = indent.to_owned();
                code.append("// Scope: ");
                code.append(name.as_str());
                code.append("\n");
                code.append(indent);
                code.append("{\n");
                let block = self.generate_block(body, inner.as_str());
                code.append(block.as_str());
                code.append(inner.as_str());
                code.append("tokio::time::sleep(Duration::from_millis(50)).await;\n");
                code.append(indent);
                code.append("}\n");
                code
            },
            Statement::ValidateBlock { target, success_scope, .. } => {
                let mut code = indent.to_owned();
                code.append("let ");
                code.append(target.as_str());
                code.append(" = ");
                code.append(target.as_str());
                code.append(".validate().unwrap();\n");
                let block = self.generate_block(success_scope, indent);
                code.append(block.as_str());
                code
            },
            Statement::Return(Some(e)) => {
                let mut code = indent.to_owned();
                code.append("return ");
                let value = self.generate_expr(e);
                code.append(value.as_str());
                code.append(";\n");
                code
            },
            Statement::Return(None) => {
                let mut code = indent.to_owned();
                code.append("return;\n");
                code
            },
        }
    }

    fn generate_expr_as_string(&self, expr: &Expr) -> (code: String)
        ensures
            code@ == textual_expr_text(expr@, self.pure_names(), self.in_pure()),
        decreases expr, 1nat,
    {
        reveal(crate::ast::expr_view);
        match expr {
            Expr::Literal(Literal::Str(_)) => self.generate_expr(expr),
            _ => {
                let mut code = "format!(\"{}\", ".to_owned();
                let inner = self.generate_expr(expr);
                code.append(inner.as_str());
                code.append(")");
                code
            },
        }
    }

    fn generate_list(&self, items: &Vec<Expr>, textual: bool) -> (code: String)
        ensures
            code@ == list_text(exprs_view(items@), self.pure_names(), self.in_pure(), textual),
        decreases items, 2nat,
    {
        let ghost all = exprs_view(items@);
        let mut code = String::new();
        let mut i: usize = 0;
        while i < items.len()
            invariant
                i <= items.len(),
                all == exprs_view(items@),
                code@ == list_text(all.take(i as int), self.pure_names(), self.in_pure(), textual),
            decreases items.len() - i,
        {
            if i > 0 {
                code.append(", ");
            }
            let piece = if textual {
                self.generate_expr_as_string(&items[i])
            } else {
                self.generate_expr(&items[i])
            };
            code.append(piece.as_str());
            proof {
                lemma_exprs_view(items@);
                let next = all.take(i + 1);
                assert(next.drop_last() =~= all.take(i as int));
                assert(next.last() == items@[i as int]@);
                if i == 0 {
                    assert(Seq::<char>::empty() + piece@ =~= piece@);
                    assert(Seq::<char>::empty() + Seq::<char>::empty() =~= Seq::<char>::empty());
                }
            }
            i += 1;
        }
        proof {
            lemma_exprs_view(items@);
            assert(all.take(items.len() as int) =~= all);
        }
        code
    }

    fn generate_expr(&self, expr: &Expr) -> (code: String)
        ensures
            code@ == expr_text(expr@, self.pure_names(), self.in_pure()),
        decreases expr, 0nat,
    {
        reveal(crate::ast::expr_view);
        match expr {
            Expr::Identifier(name) => name.clone(),
            Expr::Literal(lit) => match lit {
                Literal::Int(n) => {
                    let mut code = String::new();
                    push_int(&mut code, *n);
                    assert(Seq::<char>::empty() + crate::text::int_text(*n as int)
                        =~= crate::text::int_text(*n as int));
                    code
                },
                Literal::Str(text) => {
                    let mut code = "\"".to_owned();
                    code.append(text.as_str());
                    code.append("\".to_string()");
                    code
                },
                Literal::Bool(b) => if *b {
                    "true".to_owned()
                } else {
                    "false".to_owned()
                },
            },
            Expr::Infra(call) => {
                let mut code = "tokio::time::timeout(Duration::from_millis(".to_owned();
                push_nat(&mut code, call.config.timeout_ms);
                code.append("), ");
                code.append(call.service.as_str());
                code.append("::");
                code.append(call.method.as_str());
                code.append("(");
                let args = self.generate_list(&call.args, true);
                code.append(args.as_str());
                code.append(")).await.unwrap()");
                code
            },
            Expr::JsonField(source, key) => {
                let mut code = "serde_json::from_str::<serde_json::Value>(&".to_owned();
                let inner = self.generate_expr(source);
                code.append(inner.as_str());
                code.append(").ok().and_then(|v| v.get(\"");
                code.append(key.as_str());
                code.append(
                    "\").map(|x| if x.is_string() { x.as_str().unwrap().to_string() } else { x.to_string() })).unwrap_or(\"",
                );
                code.append(FIELD_ERROR);
                code.append("\".to_string())");
                code
            },
            Expr::ArrayLiteral(elems) => {
                let mut code = "vec![".to_owned();
                let inner = self.generate_list(elems, false);
                code.append(inner.as_str());
                code.append("]");
                code
            },
            Expr::Index(array, index) => {
                let mut code = self.generate_expr(array);
                let position = self.generate_expr(index);
                code.append("[(");
                code.append(position.as_str());
                code.append(" as usize)]");
                code
            },
            Expr::Binary(left, op, right) => {
                let lhs = self.generate_expr(left);
                let rhs = self.generate_expr(right);
                let dispatched = !self.is_current_func_pure;
                match op {
                    BinaryOp::Add if dispatched => {
                        let mut code = as_receiver(left, lhs);
                        code.append(".g_add(");
                        code.append(rhs.as_str());
                        code.append(")");
                        code
                    },
                    BinaryOp::Mul if dispatched => {
                        let mut code = as_receiver(left, lhs);
                        code.append(".g_mul(");
                        code.append(rhs.as_str());
                        code.append(")");
                        code
                    },
                    _ => {
                        let mut code = "(".to_owned();
                        code.append(lhs.as_str());
                        code.append(" ");
                        code.append(native_op(*op));
                        code.append(" ");
                        code.append(rhs.as_str());
                        code.append(")");
                        code
                    },
                }
            },
            Expr::Call(name, args) => {
                let mut code = path_of(name.as_str());
                code.append("(");
                let inner = self.generate_list(args, false);
                code.append(inner.as_str());
                code.append(")");
                if !self.is_pure_name(name) {
                    code.append(".await");
                } else {
                    assert(code@ + Seq::<char>::empty() =~= code@);
                }
                code
            },
            Expr::Spawn(inner) => {
                let mut code = "tokio::spawn(async move { ".to_owned();
                let task = self.generate_expr(inner);
                code.append(task.as_str());
                code.append(" })");
                code
            },
            Expr::Await(inner) => {
                let mut code = self.generate_expr(inner);
                code.append(".await");
                code
            },
        }
    }
}

/// The left operand of a dispatched operator as the receiver of the
/// dispatch, given its own text.
fn as_receiver(left: &Expr, text: String) -> (code: String)
    ensures
        code@ == receiver_text(left@, text@),
{
    proof {
        lemma_expr_view(*left);
    }
    let negative = match left {
        Expr::Literal(Literal::Int(n)) => *n < 0,
        _ => false,
    };
    if negative {
        let mut code = "(".to_owned();
        code.append(text.as_str());
        code.append(")");
        code
    } else {
        text
    }
}

/// The target operator for `op` where no dispatch takes place.
fn native_op(op: BinaryOp) -> (code: &'static str)
    ensures
        code@ == native_op_text(op),
{
    match op {
        BinaryOp::Add => "+",
        BinaryOp::Sub => "-",
        BinaryOp::Mul => "*",
        BinaryOp::Div => "/",
        BinaryOp::Eq => "==",
        BinaryOp::Neq => "!=",
        BinaryOp::Gt => ">",
        BinaryOp::Lt => "<",
        BinaryOp::Gte => ">=",
        BinaryOp::Lte => "<=",
    }
}

/// The callee's name with every `.` turned into `::`.
fn path_of(name: &str) -> (code: String)
    ensures
        code@ == path_text(name@),
{
    let mut code = String::new();
    for c in it: name.chars()
        invariant
            it.seq() == name@,
            code@ == path_text(it.seq().take(it.index() as int)),
    {
        proof {
            let next = name@.take(it.index() + 1);
            assert(next.drop_last() =~= name@.take(it.index() as int));
            assert(next.last() == c);
        }
        if c == '.' {
            code.append("::");
        } else {
            code.push(c);
        }
    }
    assert(name@.take(name@.len() as int) =~= name@);
    code
}

} // verus!
