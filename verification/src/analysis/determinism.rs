//! Purity of a function's own body: a function tagged deterministic holds no
//! spawn, await or service call, at any depth. Callees are not inspected.

use crate::ast::{
    exprs_view, lemma_exprs_view, lemma_stmts_view, Block, Expr, FunctionDef, Purity, SpecExpr,
    SpecStatement, Statement,
};
use vstd::prelude::*;
use vstd::string::StringExecFns;

verus! {

/// Whether `e` is, or holds at any depth, a spawn, an await or a service
/// call.
pub open spec fn expr_has_effect(e: SpecExpr) -> bool
    decreases e, 0nat,
{
    match e {
        SpecExpr::Spawn(_) | SpecExpr::Await(_) | SpecExpr::Infra(_) => true,
        SpecExpr::Identifier(_) | SpecExpr::Literal(_) => false,
        SpecExpr::Binary(left, _, right) => expr_has_effect(*left) || expr_has_effect(*right),
        SpecExpr::Call(_, args) => exprs_have_effect(args),
        SpecExpr::JsonField(source, _) => expr_has_effect(*source),
        SpecExpr::ArrayLiteral(elems) => exprs_have_effect(elems),
        SpecExpr::Index(array, index) => expr_has_effect(*array) || expr_has_effect(*index),
    }
}

/// Whether one of the expressions holds an effect.
pub open spec fn exprs_have_effect(exprs: Seq<SpecExpr>) -> bool
    decreases exprs, 1nat,
{
    exists|i: int| 0 <= i < exprs.len() && expr_has_effect(#[trigger] exprs[i])
}

/// Whether a statement holds an effect at any depth: in its expressions, in
/// both branches of a conditional, in a loop's bounds and body, in the body
/// of a scope and in the success branch of a validation.
pub open spec fn stmt_has_effect(s: SpecStatement) -> bool
    decreases s, 0nat,
{
    match s {
        SpecStatement::Let(binding) => expr_has_effect(binding.value),
        SpecStatement::Assign { value, .. } => expr_has_effect(value),
        SpecStatement::If { condition, then_block, else_block } => expr_has_effect(condition)
            || stmts_have_effect(then_block.statements) || match else_block {
            Some(block) => stmts_have_effect(block.statements),
            None => false,
        },
        SpecStatement::While { condition, body } => expr_has_effect(condition)
            || stmts_have_effect(body.statements),
        SpecStatement::For { start, end, step, body, .. } => expr_has_effect(start)
            || expr_has_effect(end) || (match step {
            Some(e) => expr_has_effect(e),
            None => false,
        }) || stmts_have_effect(body.statements),
        SpecStatement::ScopeBlock { body, .. } => stmts_have_effect(body.statements),
        SpecStatement::ValidateBlock { success_scope, .. } => stmts_have_effect(
            success_scope.statements,
        ),
        SpecStatement::ExprStmt(e) => expr_has_effect(e),
        SpecStatement::Return(Some(e)) => expr_has_effect(e),
        SpecStatement::Return(None) => false,
    }
}

/// Whether one of the statements holds an effect.
pub open spec fn stmts_have_effect(stmts: Seq<SpecStatement>) -> bool
    decreases stmts, 1nat,
{
    exists|i: int| 0 <= i < stmts.len() && stmt_has_effect(#[trigger] stmts[i])
}

/// Whether the purity check rejects a function.
pub open spec fn is_impure(purity: Purity, body: Seq<SpecStatement>) -> bool {
    purity == Purity::Deterministic && stmts_have_effect(body)
}

/// The declarations of a program, looked up by name. Where a name is
/// declared more than once, the last declaration is the one that counts.
#[derive(Debug, Clone)]
pub struct SymbolTable {
    pub functions: Vec<FunctionDef>,
}

impl SymbolTable {
    /// Whether the declaration at `i` is the one that `name` resolves to:
    /// it has that name, and no later declaration has it.
    pub open spec fn resolves_to(&self, name: Seq<char>, i: int) -> bool {
        &&& 0 <= i < self.functions@.len()
        &&& self.functions@[i].name@ == name
        &&& forall|j: int|
            i < j < self.functions@.len() ==> (#[trigger] self.functions@[j]).name@ != name
    }

    /// Whether any declaration has the name.
    pub open spec fn declares(&self, name: Seq<char>) -> bool {
        exists|i: int|
            0 <= i < self.functions@.len() && (#[trigger] self.functions@[i]).name@ == name
    }

    /// The declaration that `name` resolves to: the last one of that name.
    pub fn lookup(&self, name: &String) -> (r: Option<&FunctionDef>)
        ensures
            match r {
                Some(found) => exists|i: int|
                    self.resolves_to(name@, i) && *found == #[trigger] self.functions@[i],
                None => !self.declares(name@),
            },
    {
        let mut i = self.functions.len();
        while i > 0
            invariant
                i <= self.functions.len(),
                forall|j: int|
                    i <= j < self.functions@.len() ==> (#[trigger] self.functions@[j]).name@
                        != name@,
            decreases i,
        {
            i -= 1;
            if self.functions[i].name == *name {
                assert(self.resolves_to(name@, i as int));
                return Some(&self.functions[i]);
            }
        }
        None
    }
}

pub struct DeterminismAnalyzer;

impl DeterminismAnalyzer {
    /// Accepts every function tagged nondeterministic, and a function tagged
    /// deterministic exactly if its body holds no effect.
    pub fn check(func: &FunctionDef, _symbols: &SymbolTable) -> (r: Result<(), String>)
        ensures
            r is Err <==> is_impure(func.purity, func@.body.statements),
            r matches Err(message) ==> message@ == "Impure function: "@ + func.name@,
    {
        if let Purity::Deterministic = func.purity {
            if !Self::is_block_pure(&func.body) {
                let mut message = "Impure function: ".to_owned();
                message.append(func.name.as_str());
                return Err(message);
            }
        }
        Ok(())
    }

    fn is_block_pure(block: &Block) -> (pure: bool)
        ensures
            pure == !stmts_have_effect(block@.statements),
        decreases block, 1nat,
    {
        let mut i: usize = 0;
        while i < block.statements.len()
            invariant
                i <= block.statements.len(),
                forall|j: int| 0 <= j < i ==> !stmt_has_effect(#[trigger] block@.statements[j]),
            decreases block.statements.len() - i,
        {
            proof {
                lemma_stmts_view(block.statements@);
            }
            if !Self::is_stmt_pure(&block.statements[i]) {
                assert(stmt_has_effect(block@.statements[i as int]));
                return false;
            }
            i += 1;
        }
        proof {
            lemma_stmts_view(block.statements@);
        }
        true
    }

    fn is_stmt_pure(stmt: &Statement) -> (pure: bool)
        ensures
            pure == !stmt_has_effect(stmt@),
        decreases stmt, 0nat,
    {
        reveal(crate::ast::stmt_view);
        match stmt {
            Statement::Let(l) => Self::is_expr_pure(&l.value),
            Statement::Assign { value, .. } => Self::is_expr_pure(value),
            Statement::If { condition, then_block, else_block } => Self::is_expr_pure(condition)
                && Self::is_block_pure(then_block) && match else_block {
                Some(b) => Self::is_block_pure(b),
                None => true,
            },
            Statement::While { condition, body } => Self::is_expr_pure(condition)
                && Self::is_block_pure(body),
            Statement::For { start, end, step, body, .. } => {
                Self::is_expr_pure(start) && Self::is_expr_pure(end) && (match step {
                    Some(s) => Self::is_expr_pure(s),
                    None => true,
                }) && Self::is_block_pure(body)
            },
            Statement::ScopeBlock { body, .. } => Self::is_block_pure(body),
            Statement::ValidateBlock { success_scope, .. } => Self::is_block_pure(success_scope),
            Statement::ExprStmt(expr) => Self::is_expr_pure(expr),
            Statement::Return(Some(expr)) => Self::is_expr_pure(expr),
            Statement::Return(None) => true,
        }
    }

    fn are_exprs_pure(exprs: &Vec<Expr>) -> (pure: bool)
        ensures
            pure == !exprs_have_effect(exprs_view(exprs@)),
        decreases exprs, 1nat,
    {
        let mut i: usize = 0;
        while i < exprs.len()
            invariant
                i <= exprs.len(),
                forall|j: int| 0 <= j < i ==> !expr_has_effect(#[trigger] exprs_view(exprs@)[j]),
            decreases exprs.len() - i,
        {
            proof {
                lemma_exprs_view(exprs@);
            }
            if !Self::is_expr_pure(&exprs[i]) {
                assert(expr_has_effect(exprs_view(exprs@)[i as int]));
                return false;
            }
            i += 1;
        }
        proof {
            lemma_exprs_view(exprs@);
        }
        true
    }

    fn is_expr_pure(expr: &Expr) -> (pure: bool)
        ensures
            pure == !expr_has_effect(expr@),
        decreases expr, 0nat,
    {
        reveal(crate::ast::expr_view);
        match expr {
            Expr::Literal(_) => true,
            Expr::Identifier(_) => true,
            Expr::Binary(l, _, r) => Self::is_expr_pure(l) && Self::is_expr_pure(r),
            Expr::Call(_, args) => Self::are_exprs_pure(args),
            Expr::JsonField(source, _) => Self::is_expr_pure(source),
            Expr::ArrayLiteral(elems) => Self::are_exprs_pure(elems),
            Expr::Index(arr, idx) => Self::is_expr_pure(arr) && Self::is_expr_pure(idx),
            Expr::Spawn(_) => false,
            Expr::Await(_) => false,
            Expr::Infra(_) => false,
        }
    }
}

/// Whether an expression is a spawn, an await or a service call.
pub open spec fn is_effect(e: SpecExpr) -> bool {
    e is Spawn || e is Await || e is Infra
}

/// Whether `part` is `e` or stands anywhere inside it.
pub open spec fn occurs_in(part: SpecExpr, e: SpecExpr) -> bool
    decreases e, 0nat,
{
    part == e || match e {
        SpecExpr::Identifier(_) | SpecExpr::Literal(_) => false,
        SpecExpr::Binary(left, _, right) => occurs_in(part, *left) || occurs_in(part, *right),
        SpecExpr::Call(_, args) => occurs_in_any(part, args),
        SpecExpr::Spawn(inner) => occurs_in(part, *inner),
        SpecExpr::Await(inner) => occurs_in(part, *inner),
        SpecExpr::Infra(call) => occurs_in_any(part, call.args),
        SpecExpr::JsonField(source, _) => occurs_in(part, *source),
        SpecExpr::ArrayLiteral(elems) => occurs_in_any(part, elems),
        SpecExpr::Index(array, index) => occurs_in(part, *array) || occurs_in(part, *index),
    }
}

/// Whether `part` stands anywhere in one of the expressions.
pub open spec fn occurs_in_any(part: SpecExpr, exprs: Seq<SpecExpr>) -> bool
    decreases exprs, 1nat,
{
    exists|i: int| 0 <= i < exprs.len() && occurs_in(part, #[trigger] exprs[i])
}

/// Whether `part` stands anywhere in a statement that the check looks at:
/// everywhere but in the failure branch of a validation.
pub open spec fn occurs_in_stmt(part: SpecExpr, s: SpecStatement) -> bool
    decreases s, 0nat,
{
    match s {
        SpecStatement::Let(binding) => occurs_in(part, binding.value),
        SpecStatement::Assign { value, .. } => occurs_in(part, value),
        SpecStatement::If { condition, then_block, else_block } => occurs_in(part, condition)
            || occurs_in_stmts(part, then_block.statements) || match else_block {
            Some(block) => occurs_in_stmts(part, block.statements),
            None => false,
        },
        SpecStatement::While { condition, body } => occurs_in(part, condition)
            || occurs_in_stmts(part, body.statements),
        SpecStatement::For { start, end, step, body, .. } => occurs_in(part, start)
            || occurs_in(part, end) || (match step {
            Some(e) => occurs_in(part, e),
            None => false,
        }) || occurs_in_stmts(part, body.statements),
        SpecStatement::ScopeBlock { body, .. } => occurs_in_stmts(part, body.statements),
        SpecStatement::ValidateBlock { success_scope, .. } => occurs_in_stmts(
            part,
            success_scope.statements,
        ),
        SpecStatement::ExprStmt(e) => occurs_in(part, e),
        SpecStatement::Return(Some(e)) => occurs_in(part, e),
        SpecStatement::Return(None) => false,
    }
}

/// Whether `part` stands anywhere in one of the statements.
pub open spec fn occurs_in_stmts(part: SpecExpr, stmts: Seq<SpecStatement>) -> bool
    decreases stmts, 1nat,
{
    exists|i: int| 0 <= i < stmts.len() && occurs_in_stmt(part, #[trigger] stmts[i])
}

/// An expression holds an effect exactly if a spawn, an await or a service
/// call stands somewhere in it, however deep.
pub proof fn law_effect_at_any_depth(e: SpecExpr)
    ensures
        expr_has_effect(e) <==> exists|part: SpecExpr| is_effect(part) && occurs_in(part, e),
{
    if expr_has_effect(e) {
        let part = effect_in(e);
        assert(is_effect(part) && occurs_in(part, e));
    }
    if exists|part: SpecExpr| is_effect(part) && occurs_in(part, e) {
        let part = choose|part: SpecExpr| is_effect(part) && occurs_in(part, e);
        lemma_effect_found(part, e);
    }
}

/// A body holds an effect exactly if a spawn, an await or a service call
/// stands somewhere in it, however deep.
pub proof fn law_effect_at_any_depth_in_body(stmts: Seq<SpecStatement>)
    ensures
        stmts_have_effect(stmts) <==> exists|part: SpecExpr|
            is_effect(part) && occurs_in_stmts(part, stmts),
{
    if stmts_have_effect(stmts) {
        let part = effect_in_stmts(stmts);
        assert(is_effect(part) && occurs_in_stmts(part, stmts));
    }
    if exists|part: SpecExpr| is_effect(part) && occurs_in_stmts(part, stmts) {
        let part = choose|part: SpecExpr| is_effect(part) && occurs_in_stmts(part, stmts);
        lemma_effect_found_in_stmts(part, stmts);
    }
}

/// An effect that an expression holds.
proof fn effect_in(e: SpecExpr) -> (part: SpecExpr)
    requires
        expr_has_effect(e),
    ensures
        is_effect(part),
        occurs_in(part, e),
    decreases e, 0nat,
{
    match e {
        SpecExpr::Spawn(_) | SpecExpr::Await(_) | SpecExpr::Infra(_) => e,
        SpecExpr::Identifier(_) | SpecExpr::Literal(_) => e,
        SpecExpr::Binary(left, _, right) => if expr_has_effect(*left) {
            effect_in(*left)
        } else {
            effect_in(*right)
        },
        SpecExpr::Call(_, args) => effect_in_any(args),
        SpecExpr::JsonField(source, _) => effect_in(*source),
        SpecExpr::ArrayLiteral(elems) => effect_in_any(elems),
        SpecExpr::Index(array, index) => if expr_has_effect(*array) {
            effect_in(*array)
        } else {
            effect_in(*index)
        },
    }
}

proof fn effect_in_any(exprs: Seq<SpecExpr>) -> (part: SpecExpr)
    requires
        exprs_have_effect(exprs),
    ensures
        is_effect(part),
        occurs_in_any(part, exprs),
    decreases exprs, 1nat,
{
    let i = choose|i: int| 0 <= i < exprs.len() && expr_has_effect(#[trigger] exprs[i]);
    effect_in(exprs[i])
}

proof fn effect_in_stmt(s: SpecStatement) -> (part: SpecExpr)
    requires
        stmt_has_effect(s),
    ensures
        is_effect(part),
        occurs_in_stmt(part, s),
    decreases s, 0nat,
{
    match s {
        SpecStatement::Let(binding) => effect_in(binding.value),
        SpecStatement::Assign { value, .. } => effect_in(value),
        SpecStatement::If { condition, then_block, else_block } => if expr_has_effect(
            condition,
        ) {
            effect_in(condition)
        } else if stmts_have_effect(then_block.statements) {
            effect_in_stmts(then_block.statements)
        } else {
            effect_in_stmts(else_block->0.statements)
        },
        SpecStatement::While { condition, body } => if expr_has_effect(condition) {
            effect_in(condition)
        } else {
            effect_in_stmts(body.statements)
        },
        SpecStatement::For { start, end, step, body, .. } => if expr_has_effect(start) {
            effect_in(start)
        } else if expr_has_effect(end) {
            effect_in(end)
        } else if step is Some && expr_has_effect(step->0) {
            effect_in(step->0)
        } else {
            effect_in_stmts(body.statements)
        },
        SpecStatement::ScopeBlock { body, .. } => effect_in_stmts(body.statements),
        SpecStatement::ValidateBlock { success_scope, .. } => effect_in_stmts(
            success_scope.statements,
        ),
        SpecStatement::ExprStmt(e) => effect_in(e),
        SpecStatement::Return(Some(e)) => effect_in(e),
        SpecStatement::Return(None) => arbitrary(),
    }
}

proof fn effect_in_stmts(stmts: Seq<SpecStatement>) -> (part: SpecExpr)
    requires
        stmts_have_effect(stmts),
    ensures
        is_effect(part),
        occurs_in_stmts(part, stmts),
    decreases stmts, 1nat,
{
    let i = choose|i: int| 0 <= i < stmts.len() && stmt_has_effect(#[trigger] stmts[i]);
    effect_in_stmt(stmts[i])
}

/// An effect that stands in an expression is found there.
proof fn lemma_effect_found(part: SpecExpr, e: SpecExpr)
    requires
        is_effect(part),
        occurs_in(part, e),
    ensures
        expr_has_effect(e),
    decreases e, 0nat,
{
    if part != e {
        match e {
            SpecExpr::Binary(left, _, right) => {
                if occurs_in(part, *left) {
                    lemma_effect_found(part, *left);
                } else {
                    lemma_effect_found(part, *right);
                }
            },
            SpecExpr::Call(_, args) => lemma_effect_found_in_any(part, args),
            SpecExpr::JsonField(source, _) => lemma_effect_found(part, *source),
            SpecExpr::ArrayLiteral(elems) => lemma_effect_found_in_any(part, elems),
            SpecExpr::Index(array, index) => {
                if occurs_in(part, *array) {
                    lemma_effect_found(part, *array);
                } else {
                    lemma_effect_found(part, *index);
                }
            },
            _ => {},
        }
    }
}

proof fn lemma_effect_found_in_any(part: SpecExpr, exprs: Seq<SpecExpr>)
    requires
        is_effect(part),
        occurs_in_any(part, exprs),
    ensures
        exprs_have_effect(exprs),
    decreases exprs, 1nat,
{
    let i = choose|i: int| 0 <= i < exprs.len() && occurs_in(part, #[trigger] exprs[i]);
    lemma_effect_found(part, exprs[i]);
}

proof fn lemma_effect_found_in_stmt(part: SpecExpr, s: SpecStatement)
    requires
        is_effect(part),
        occurs_in_stmt(part, s),
    ensures
        stmt_has_effect(s),
    decreases s, 0nat,
{
    match s {
        SpecStatement::Let(binding) => lemma_effect_found(part, binding.value),
        SpecStatement::Assign { value, .. } => lemma_effect_found(part, value),
        SpecStatement::If { condition, then_block, else_block } => {
            if occurs_in(part, condition) {
                lemma_effect_found(part, condition);
            } else if occurs_in_stmts(part, then_block.statements) {
                lemma_effect_found_in_stmts(part, then_block.statements);
            } else {
                lemma_effect_found_in_stmts(part, else_block->0.statements);
            }
        },
        SpecStatement::While { condition, body } => {
            if occurs_in(part, condition) {
                lemma_effect_found(part, condition);
            } else {
                lemma_effect_found_in_stmts(part, body.statements);
            }
        },
        SpecStatement::For { start, end, step, body, .. } => {
            if occurs_in(part, start) {
                lemma_effect_found(part, start);
            } else if occurs_in(part, end) {
                lemma_effect_found(part, end);
            } else if step is Some && occurs_in(part, step->0) {
                lemma_effect_found(part, step->0);
            } else {
                lemma_effect_found_in_stmts(part, body.statements);
            }
        },
        SpecStatement::ScopeBlock { body, .. } => lemma_effect_found_in_stmts(
            part,
            body.statements,
        ),
        SpecStatement::ValidateBlock { success_scope, .. } => lemma_effect_found_in_stmts(
            part,
            success_scope.statements,
        ),
        SpecStatement::ExprStmt(e) => lemma_effect_found(part, e),
        SpecStatement::Return(Some(e)) => lemma_effect_found(part, e),
        SpecStatement::Return(None) => {},
    }
}

proof fn lemma_effect_found_in_stmts(part: SpecExpr, stmts: Seq<SpecStatement>)
    requires
        is_effect(part),
        occurs_in_stmts(part, stmts),
    ensures
        stmts_have_effect(stmts),
    decreases stmts, 1nat,
{
    let i = choose|i: int| 0 <= i < stmts.len() && occurs_in_stmt(part, #[trigger] stmts[i]);
    lemma_effect_found_in_stmt(part, stmts[i]);
}

} // verus!
