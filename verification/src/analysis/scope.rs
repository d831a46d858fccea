//! Lexical scope: every identifier that is read, assigned or validated is
//! bound at that point. A block sees what its surroundings bound before it,
//! and nothing that a block binds outlives it.

use crate::ast::{
    exprs_view, lemma_exprs_view, lemma_stmts_view, Block, Expr, FunctionDef, SpecExpr,
    SpecParam, SpecStatement, Statement,
};
use crate::text::{lemma_names_push, names_of};
use vstd::prelude::*;
use vstd::string::StringExecFns;

verus! {

/// The earlier of two failures.
pub open spec fn first_error(a: Option<Seq<char>>, b: Option<Seq<char>>) -> Option<Seq<char>> {
    if a is Some {
        a
    } else {
        b
    }
}

/// The first identifier of `e`, in evaluation order, that `bound` lacks.
pub open spec fn expr_unbound(e: SpecExpr, bound: Set<Seq<char>>) -> Option<Seq<char>>
    decreases e, 0nat,
{
    match e {
        SpecExpr::Identifier(name) => if bound.contains(name) {
            None
        } else {
            Some(name)
        },
        SpecExpr::Literal(_) => None,
        SpecExpr::Binary(left, _, right) => first_error(
            expr_unbound(*left, bound),
            expr_unbound(*right, bound),
        ),
        SpecExpr::Call(_, args) => exprs_unbound(args, bound),
        SpecExpr::Spawn(inner) => expr_unbound(*inner, bound),
        SpecExpr::Await(inner) => expr_unbound(*inner, bound),
        SpecExpr::Infra(call) => exprs_unbound(call.args, bound),
        SpecExpr::JsonField(source, _) => expr_unbound(*source, bound),
        SpecExpr::ArrayLiteral(elems) => exprs_unbound(elems, bound),
        SpecExpr::Index(array, index) => first_error(
            expr_unbound(*array, bound),
            expr_unbound(*index, bound),
        ),
    }
}

/// The first unbound identifier of a list of expressions, read in order.
pub open spec fn exprs_unbound(exprs: Seq<SpecExpr>, bound: Set<Seq<char>>) -> Option<Seq<char>>
    decreases exprs, 1nat,
{
    if exprs.len() == 0 {
        None
    } else {
        first_error(exprs_unbound(exprs.drop_last(), bound), expr_unbound(exprs.last(), bound))
    }
}

/// The failure, if any, of reading `e` under `bound`.
pub open spec fn expr_error(e: SpecExpr, bound: Set<Seq<char>>) -> Option<Seq<char>> {
    match expr_unbound(e, bound) {
        Some(name) => Some("Undefined variable used: "@ + name),
        None => None,
    }
}

/// The failure, if any, of reading an expression that may be absent.
pub open spec fn option_expr_error(e: Option<SpecExpr>, bound: Set<Seq<char>>) -> Option<
    Seq<char>,
> {
    match e {
        Some(expr) => expr_error(expr, bound),
        None => None,
    }
}

/// What is bound after a statement: a `let` adds its name, and no other
/// statement adds or removes anything.
pub open spec fn stmt_binds(s: SpecStatement, bound: Set<Seq<char>>) -> Set<Seq<char>> {
    match s {
        SpecStatement::Let(binding) => bound.insert(binding.name),
        _ => bound,
    }
}

/// The first failure of a statement under `bound`.
pub open spec fn stmt_error(s: SpecStatement, bound: Set<Seq<char>>) -> Option<Seq<char>>
    decreases s, 0nat,
{
    match s {
        SpecStatement::Let(binding) => expr_error(binding.value, bound),
        SpecStatement::Assign { name, value } => if !bound.contains(name) {
            Some("Undefined variable: "@ + name)
        } else {
            expr_error(value, bound)
        },
        SpecStatement::If { condition, then_block, else_block } => first_error(
            expr_error(condition, bound),
            first_error(
                block_error(then_block.statements, bound),
                match else_block {
                    Some(block) => block_error(block.statements, bound),
                    None => None,
                },
            ),
        ),
        SpecStatement::While { condition, body } => first_error(
            expr_error(condition, bound),
            block_error(body.statements, bound),
        ),
        SpecStatement::For { var, start, end, step, body } => first_error(
            expr_error(start, bound),
            first_error(
                expr_error(end, bound),
                first_error(
                    option_expr_error(step, bound),
                    block_error(body.statements, bound.insert(var)),
                ),
            ),
        ),
        SpecStatement::ScopeBlock { body, .. } => block_error(body.statements, bound),
        SpecStatement::ValidateBlock { target, success_scope, .. } => if !bound.contains(target) {
            Some("Undefined variable in validate: "@ + target)
        } else {
            block_error(success_scope.statements, bound)
        },
        SpecStatement::ExprStmt(e) => expr_error(e, bound),
        SpecStatement::Return(value) => option_expr_error(value, bound),
    }
}

/// What is bound after the statements of a block, inside that block.
pub open spec fn bound_after(stmts: Seq<SpecStatement>, bound: Set<Seq<char>>) -> Set<Seq<char>>
    decreases stmts.len(),
{
    if stmts.len() == 0 {
        bound
    } else {
        stmt_binds(stmts.last(), bound_after(stmts.drop_last(), bound))
    }
}

/// The first failure of a block that is entered under `bound`: each
/// statement is checked under what the statements before it bound.
pub open spec fn block_error(stmts: Seq<SpecStatement>, bound: Set<Seq<char>>) -> Option<
    Seq<char>,
>
    decreases stmts, 1nat,
{
    if stmts.len() == 0 {
        None
    } else {
        first_error(
            block_error(stmts.drop_last(), bound),
            stmt_error(stmts.last(), bound_after(stmts.drop_last(), bound)),
        )
    }
}

/// The names of the parameters.
pub open spec fn param_names(params: Seq<SpecParam>) -> Set<Seq<char>>
    decreases params.len(),
{
    if params.len() == 0 {
        Set::empty()
    } else {
        param_names(params.drop_last()).insert(params.last().name)
    }
}

/// The first failure of a function: its body, entered under its parameters.
pub open spec fn function_error(params: Seq<SpecParam>, body: Seq<SpecStatement>) -> Option<
    Seq<char>,
> {
    block_error(body, param_names(params))
}

/// A failure among the first `k` expressions is the failure of the list.
proof fn lemma_exprs_unbound_prefix(exprs: Seq<SpecExpr>, bound: Set<Seq<char>>, k: int)
    requires
        0 <= k <= exprs.len(),
        exprs_unbound(exprs.take(k), bound) is Some,
    ensures
        exprs_unbound(exprs, bound) == exprs_unbound(exprs.take(k), bound),
    decreases exprs.len() - k,
{
    if k == exprs.len() {
        assert(exprs.take(k) =~= exprs);
    } else {
        assert(exprs.take(k + 1).drop_last() =~= exprs.take(k));
        lemma_exprs_unbound_prefix(exprs, bound, k + 1);
    }
}

/// A failure among the first `k` statements is the failure of the block.
proof fn lemma_block_error_prefix(stmts: Seq<SpecStatement>, bound: Set<Seq<char>>, k: int)
    requires
        0 <= k <= stmts.len(),
        block_error(stmts.take(k), bound) is Some,
    ensures
        block_error(stmts, bound) == block_error(stmts.take(k), bound),
    decreases stmts.len() - k,
{
    if k == stmts.len() {
        assert(stmts.take(k) =~= stmts);
    } else {
        assert(stmts.take(k + 1).drop_last() =~= stmts.take(k));
        lemma_block_error_prefix(stmts, bound, k + 1);
    }
}

/// Only a `let` binds: after any other statement, whatever it holds, the
/// same names are bound as before it.
pub proof fn law_blocks_keep_their_bindings(s: SpecStatement, bound: Set<Seq<char>>)
    requires
        !(s is Let),
    ensures
        stmt_binds(s, bound) == bound,
        bound_after(seq![s], bound) == bound,
{
    assert(seq![s].drop_last() =~= Seq::<SpecStatement>::empty());
    assert(bound_after(Seq::<SpecStatement>::empty(), bound) == bound);
}

/// A name that is not bound before a statement other than a `let` is not
/// bound behind it: reading it there fails, whatever the statement bound
/// inside its own blocks.
pub proof fn law_no_binding_leaves_its_block(
    s: SpecStatement,
    name: Seq<char>,
    bound: Set<Seq<char>>,
)
    requires
        !(s is Let),
        !bound.contains(name),
        stmt_error(s, bound) is None,
    ensures
        block_error(
            seq![s, SpecStatement::ExprStmt(SpecExpr::Identifier(name))],
            bound,
        ) == Some("Undefined variable used: "@ + name),
{
    reveal_with_fuel(block_error, 3);
    let reading = SpecStatement::ExprStmt(SpecExpr::Identifier(name));
    let both = seq![s, reading];
    law_blocks_keep_their_bindings(s, bound);
    assert(both.drop_last() =~= seq![s]);
    assert(seq![s].drop_last() =~= Seq::<SpecStatement>::empty());
    assert(seq![s].last() == s);
    assert(block_error(Seq::<SpecStatement>::empty(), bound) is None);
    assert(block_error(seq![s], bound) is None);
    assert(both.last() == reading);
    assert(expr_unbound(SpecExpr::Identifier(name), bound) == Some(name));
    assert(stmt_error(reading, bound) == Some("Undefined variable used: "@ + name));
}

/// A function is checked under its own parameters and nothing else: what
/// other functions bind plays no part.
pub proof fn law_scope_is_per_function(params: Seq<SpecParam>, name: Seq<char>)
    requires
        !param_names(params).contains(name),
    ensures
        function_error(
            params,
            seq![SpecStatement::Return(Some(SpecExpr::Identifier(name)))],
        ) == Some("Undefined variable used: "@ + name),
{
    reveal_with_fuel(block_error, 2);
    let bound = param_names(params);
    let reading = SpecStatement::Return(Some(SpecExpr::Identifier(name)));
    assert(seq![reading].drop_last() =~= Seq::<SpecStatement>::empty());
    assert(seq![reading].last() == reading);
    assert(block_error(Seq::<SpecStatement>::empty(), bound) is None);
    assert(bound_after(Seq::<SpecStatement>::empty(), bound) == bound);
    assert(expr_unbound(SpecExpr::Identifier(name), bound) == Some(name));
    assert(stmt_error(reading, bound) == Some("Undefined variable used: "@ + name));
}

/// `longer` starts with `shorter`.
spec fn extends(shorter: Seq<String>, longer: Seq<String>) -> bool {
    shorter.len() <= longer.len() && longer.take(shorter.len() as int) == shorter
}

pub struct ScopeAnalyzer {
    defined_vars: Vec<String>,
}

impl ScopeAnalyzer {
    /// The names that are bound at this point.
    pub closed spec fn defined(&self) -> Set<Seq<char>> {
        names_of(self.defined_vars@)
    }

    /// An analyzer under which nothing is bound yet.
    pub fn new() -> (r: Self)
        ensures
            r.defined() == Set::<Seq<char>>::empty(),
    {
        let r = ScopeAnalyzer { defined_vars: Vec::new() };
        assert(r.defined() =~= Set::<Seq<char>>::empty());
        r
    }

    /// Checks `func` on its own: whatever was bound before is forgotten, the
    /// parameters are bound, and the body is checked as a block.
    pub fn analyze(&mut self, func: &FunctionDef) -> (r: Result<(), String>)
        ensures
            final(self).defined() == param_names(func@.params),
            match function_error(func@.params, func@.body.statements) {
                Some(message) => r matches Err(text) && text@ == message,
                None => r is Ok,
            },
    {
        self.defined_vars.clear();
        assert(names_of(self.defined_vars@) =~= Set::<Seq<char>>::empty());
        let ghost params = func@.params;
        let mut i: usize = 0;
        while i < func.params.len()
            invariant
                i <= func.params.len(),
                params == func@.params,
                names_of(self.defined_vars@) == param_names(params.take(i as int)),
            decreases func.params.len() - i,
        {
            let ghost before = self.defined_vars@;
            self.defined_vars.push(func.params[i].name.clone());
            proof {
                lemma_names_push(before, self.defined_vars@[before.len() as int]);
                assert(self.defined_vars@ =~= before.push(self.defined_vars@[before.len() as int]));
                assert(params.take(i + 1).drop_last() =~= params.take(i as int));
            }
            i += 1;
        }
        assert(params.take(func.params.len() as int) =~= params);
        self.visit_block(&func.body)
    }

    fn is_defined(&self, name: &String) -> (found: bool)
        ensures
            found == names_of(self.defined_vars@).contains(name@),
    {
        let mut i: usize = 0;
        while i < self.defined_vars.len()
            invariant
                i <= self.defined_vars.len(),
                forall|j: int| 0 <= j < i ==> self.defined_vars@[j]@ != name@,
            decreases self.defined_vars.len() - i,
        {
            if self.defined_vars[i] == *name {
                return true;
            }
            i += 1;
        }
        false
    }

    fn visit_block(&mut self, block: &Block) -> (r: Result<(), String>)
        ensures
            final(self).defined_vars@ == old(self).defined_vars@,
            match block_error(block@.statements, names_of(old(self).defined_vars@)) {
                Some(message) => r matches Err(text) && text@ == message,
                None => r is Ok,
            },
        decreases block, 1nat,
    {
        let ghost outer = self.defined_vars@;
        let ghost bound = names_of(outer);
        let ghost all = block@.statements;
        let backup = self.defined_vars.len();
        let mut i: usize = 0;
        while i < block.statements.len()
            invariant
                i <= block.statements.len(),
                all == block@.statements,
                outer == old(self).defined_vars@,
                bound == names_of(outer),
                backup == outer.len(),
                backup <= self.defined_vars.len(),
                self.defined_vars@.take(backup as int) == outer,
                names_of(self.defined_vars@) == bound_after(all.take(i as int), bound),
                block_error(all.take(i as int), bound) is None,
            decreases block.statements.len() - i,
        {
            proof {
                lemma_stmts_view(block.statements@);
                assert(all.take(i + 1).drop_last() =~= all.take(i as int));
            }
            let ghost before = self.defined_vars@;
            let r = self.visit_stmt(&block.statements[i]);
            if r.is_err() {
                self.defined_vars.truncate(backup);
                proof {
                    lemma_block_error_prefix(all, bound, i + 1);
                    assert(before.take(backup as int) =~= outer);
                }
                return r;
            }
            assert(self.defined_vars@.take(backup as int) =~= before.take(backup as int));
            i += 1;
        }
        self.defined_vars.truncate(backup);
        proof {
            lemma_stmts_view(block.statements@);
            assert(all.take(block.statements.len() as int) =~= all);
        }
        Ok(())
    }

    fn visit_stmt(&mut self, stmt: &Statement) -> (r: Result<(), String>)
        ensures
            match stmt_error(stmt@, old(self).defined()) {
                Some(message) => {
                    &&& r matches Err(text) && text@ == message
                    &&& final(self).defined_vars@ == old(self).defined_vars@
                },
                None => {
                    &&& r is Ok
                    &&& final(self).defined() == stmt_binds(stmt@, old(self).defined())
                    &&& extends(old(self).defined_vars@, final(self).defined_vars@)
                },
            },
        decreases stmt, 0nat,
    {
        reveal(crate::ast::stmt_view);
        let ghost before = self.defined_vars@;
        assert(before.take(before.len() as int) =~= before);
        match stmt {
            Statement::Let(l) => {
                self.visit_expr(&l.value)?;
                self.defined_vars.push(l.name.clone());
                proof {
                    lemma_names_push(before, self.defined_vars@[before.len() as int]);
                    assert(self.defined_vars@ =~= before.push(
                        self.defined_vars@[before.len() as int],
                    ));
                    assert(self.defined_vars@.take(before.len() as int) =~= before);
                }
            },
            Statement::Assign { name, value } => {
                if !self.is_defined(name) {
                    let mut message = "Undefined variable: ".to_owned();
                    message.append(name.as_str());
                    return Err(message);
                }
                self.visit_expr(value)?;
            },
            Statement::If { condition, then_block, else_block } => {
                self.visit_expr(condition)?;
                self.visit_block(then_block)?;
                if let Some(else_b) = else_block {
                    self.visit_block(else_b)?;
                }
            },
            Statement::While { condition, body } => {
                self.visit_expr(condition)?;
                self.visit_block(body)?;
            },
            Statement::For { var, start, end, step, body } => {
                self.visit_expr(start)?;
                self.visit_expr(end)?;
                if let Some(s) = step {
                    self.visit_expr(s)?;
                }
                self.defined_vars.push(var.clone());
                proof {
                    lemma_names_push(before, self.defined_vars@[before.len() as int]);
                    assert(self.defined_vars@ =~= before.push(
                        self.defined_vars@[before.len() as int],
                    ));
                }
                let checked = self.visit_block(body);
                self.defined_vars.pop();
                assert(self.defined_vars@ =~= before);
                checked?;
            },
            Statement::ScopeBlock { body, .. } => self.visit_block(body)?,
            Statement::ValidateBlock { target, success_scope, .. } => {
                if !self.is_defined(target) {
                    let mut message = "Undefined variable in validate: ".to_owned();
                    message.append(target.as_str());
                    return Err(message);
                }
                self.visit_block(success_scope)?;
            },
            Statement::ExprStmt(expr) => self.visit_expr(expr)?,
            Statement::Return(Some(e)) => self.visit_expr(e)?,
            Statement::Return(None) => {},
        }
        Ok(())
    }

    fn visit_exprs(&self, exprs: &Vec<Expr>) -> (r: Result<(), String>)
        ensures
            match exprs_unbound(exprs_view(exprs@), names_of(self.defined_vars@)) {
                Some(name) => r matches Err(text) && text@ == "Undefined variable used: "@ + name,
                None => r is Ok,
            },
        decreases exprs, 1nat,
    {
        let ghost all = exprs_view(exprs@);
        let ghost bound = names_of(self.defined_vars@);
        let mut i: usize = 0;
        while i < exprs.len()
            invariant
                i <= exprs.len(),
                all == exprs_view(exprs@),
                bound == names_of(self.defined_vars@),
                exprs_unbound(all.take(i as int), bound) is None,
            decreases exprs.len() - i,
        {
            proof {
                lemma_exprs_view(exprs@);
                assert(all.take(i + 1).drop_last() =~= all.take(i as int));
            }
            let r = self.visit_expr(&exprs[i]);
            if r.is_err() {
                proof {
                    lemma_exprs_unbound_prefix(all, bound, i + 1);
                }
                return r;
            }
            i += 1;
        }
        proof {
            lemma_exprs_view(exprs@);
            assert(all.take(exprs.len() as int) =~= all);
        }
        Ok(())
    }

    fn visit_expr(&self, expr: &Expr) -> (r: Result<(), String>)
        ensures
            match expr_unbound(expr@, names_of(self.defined_vars@)) {
                Some(name) => r matches Err(text) && text@ == "Undefined variable used: "@ + name,
                None => r is Ok,
            },
        decreases expr, 0nat,
    {
        reveal(crate::ast::expr_view);
        match expr {
            Expr::Identifier(name) => {
                if !self.is_defined(name) {
                    let mut message = "Undefined variable used: ".to_owned();
                    message.append(name.as_str());
                    return Err(message);
                }
            },
            Expr::Binary(l, _, r) => {
                self.visit_expr(l)?;
                self.visit_expr(r)?;
            },
            Expr::Call(_, args) => self.visit_exprs(args)?,
            Expr::Spawn(e) => self.visit_expr(e)?,
            Expr::Await(e) => self.visit_expr(e)?,
            Expr::Infra(call) => self.visit_exprs(&call.args)?,
            Expr::JsonField(source, _) => self.visit_expr(source)?,
            Expr::ArrayLiteral(elems) => self.visit_exprs(elems)?,
            Expr::Index(arr, idx) => {
                self.visit_expr(arr)?;
                self.visit_expr(idx)?;
            },
            Expr::Literal(_) => {},
        }
        Ok(())
    }
}

} // verus!
