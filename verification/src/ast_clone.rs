//! `Clone` for the nodes of the tree. A copy has the same tree as the node
//! that it was made from.

use crate::ast::{
    exprs_view, lemma_expr_view, lemma_exprs_view_push, lemma_stmt_view, lemma_stmts_view_push,
    stmts_view, Block, Expr, InfraCall, Literal, Statement, TypeRef,
};
use vstd::prelude::*;

verus! {

impl Clone for TypeRef {
    fn clone(&self) -> (copy: Self)
        ensures
            copy@ == self@,
        decreases self,
    {
        match self {
            TypeRef::Void => TypeRef::Void,
            TypeRef::Integer => TypeRef::Integer,
            TypeRef::String => TypeRef::String,
            TypeRef::Untrusted => TypeRef::Untrusted,
            TypeRef::Array(inner) => TypeRef::Array(Box::new((**inner).clone())),
            TypeRef::Custom(name) => TypeRef::Custom(name.clone()),
        }
    }
}

impl Clone for Literal {
    fn clone(&self) -> (copy: Self)
        ensures
            copy@ == self@,
    {
        match self {
            Literal::Int(n) => Literal::Int(*n),
            Literal::Str(s) => Literal::Str(s.clone()),
            Literal::Bool(b) => Literal::Bool(*b),
        }
    }
}

fn clone_exprs(exprs: &Vec<Expr>) -> (copy: Vec<Expr>)
    ensures
        exprs_view(copy@) == exprs_view(exprs@),
    decreases exprs, 1nat,
{
    let mut copy: Vec<Expr> = Vec::new();
    let mut i: usize = 0;
    assert(exprs@.take(0) =~= copy@);
    while i < exprs.len()
        invariant
            i <= exprs.len(),
            exprs_view(copy@) == exprs_view(exprs@.take(i as int)),
        decreases exprs.len() - i,
    {
        let item = clone_expr(&exprs[i]);
        proof {
            lemma_exprs_view_push(copy@, item);
            lemma_exprs_view_push(exprs@.take(i as int), exprs@[i as int]);
            assert(exprs@.take(i as int).push(exprs@[i as int]) =~= exprs@.take(i + 1));
        }
        copy.push(item);
        i += 1;
    }
    assert(exprs@.take(exprs.len() as int) =~= exprs@);
    copy
}

fn clone_expr(e: &Expr) -> (copy: Expr)
    ensures
        copy@ == e@,
    decreases e, 0nat,
{
    let copy = match e {
        Expr::Identifier(name) => Expr::Identifier(name.clone()),
        Expr::Literal(lit) => Expr::Literal(lit.clone()),
        Expr::Binary(left, op, right) => Expr::Binary(
            Box::new(clone_expr(left)),
            *op,
            Box::new(clone_expr(right)),
        ),
        Expr::Call(name, args) => Expr::Call(name.clone(), clone_exprs(args)),
        Expr::Spawn(inner) => Expr::Spawn(Box::new(clone_expr(inner))),
        Expr::Await(inner) => Expr::Await(Box::new(clone_expr(inner))),
        Expr::Infra(call) => Expr::Infra(
            InfraCall {
                service: call.service.clone(),
                method: call.method.clone(),
                args: clone_exprs(&call.args),
                config: call.config,
            },
        ),
        Expr::JsonField(source, key) => Expr::JsonField(Box::new(clone_expr(source)), key.clone()),
        Expr::ArrayLiteral(elems) => Expr::ArrayLiteral(clone_exprs(elems)),
        Expr::Index(array, index) => Expr::Index(
            Box::new(clone_expr(array)),
            Box::new(clone_expr(index)),
        ),
    };
    proof {
        lemma_expr_view(*e);
        lemma_expr_view(copy);
    }
    copy
}

impl Clone for Expr {
    fn clone(&self) -> (copy: Self)
        ensures
            copy@ == self@,
    {
        clone_expr(self)
    }
}

impl Clone for InfraCall {
    fn clone(&self) -> (copy: Self)
        ensures
            copy@ == self@,
    {
        InfraCall {
            service: self.service.clone(),
            method: self.method.clone(),
            args: clone_exprs(&self.args),
            config: self.config,
        }
    }
}

fn clone_option_expr(e: &Option<Expr>) -> (copy: Option<Expr>)
    ensures
        crate::ast::option_expr_view(copy) == crate::ast::option_expr_view(*e),
{
    match e {
        Some(expr) => Some(clone_expr(expr)),
        None => None,
    }
}

fn clone_stmts(stmts: &Vec<Statement>) -> (copy: Vec<Statement>)
    ensures
        stmts_view(copy@) == stmts_view(stmts@),
    decreases stmts, 1nat,
{
    let mut copy: Vec<Statement> = Vec::new();
    let mut i: usize = 0;
    assert(stmts@.take(0) =~= copy@);
    while i < stmts.len()
        invariant
            i <= stmts.len(),
            stmts_view(copy@) == stmts_view(stmts@.take(i as int)),
        decreases stmts.len() - i,
    {
        let item = clone_stmt(&stmts[i]);
        proof {
            lemma_stmts_view_push(copy@, item);
            lemma_stmts_view_push(stmts@.take(i as int), stmts@[i as int]);
            assert(stmts@.take(i as int).push(stmts@[i as int]) =~= stmts@.take(i + 1));
        }
        copy.push(item);
        i += 1;
    }
    assert(stmts@.take(stmts.len() as int) =~= stmts@);
    copy
}

fn clone_block(block: &Block) -> (copy: Block)
    ensures
        copy@ == block@,
    decreases block, 2nat,
{
    Block { statements: clone_stmts(&block.statements) }
}

fn clone_stmt(s: &Statement) -> (copy: Statement)
    ensures
        copy@ == s@,
    decreases s, 0nat,
{
    let copy = match s {
        Statement::Let(binding) => Statement::Let(
            crate::ast::LetStmt { name: binding.name.clone(), value: clone_expr(&binding.value) },
        ),
        Statement::Assign { name, value } => Statement::Assign {
            name: name.clone(),
            value: clone_expr(value),
        },
        Statement::If { condition, then_block, else_block } => Statement::If {
            condition: clone_expr(condition),
            then_block: clone_block(then_block),
            else_block: match else_block {
                Some(block) => Some(clone_block(block)),
                None => None,
            },
        },
        Statement::While { condition, body } => Statement::While {
            condition: clone_expr(condition),
            body: clone_block(body),
        },
        Statement::For { var, start, end, step, body } => Statement::For {
            var: var.clone(),
            start: clone_expr(start),
            end: clone_expr(end),
            step: clone_option_expr(step),
            body: clone_block(body),
        },
        Statement::ScopeBlock { name, body } => Statement::ScopeBlock {
            name: name.clone(),
            body: clone_block(body),
        },
        Statement::ValidateBlock { target, schema, on_fail, success_scope } => {
            Statement::ValidateBlock {
                target: target.clone(),
                schema: schema.clone(),
                on_fail: Box::new(clone_block(on_fail)),
                success_scope: Box::new(clone_block(success_scope)),
            }
        },
        Statement::ExprStmt(expr) => Statement::ExprStmt(clone_expr(expr)),
        Statement::Return(value) => Statement::Return(clone_option_expr(value)),
    };
    proof {
        lemma_stmt_view(*s);
        lemma_stmt_view(copy);
    }
    copy
}

impl Clone for Statement {
    fn clone(&self) -> (copy: Self)
        ensures
            copy@ == self@,
    {
        clone_stmt(self)
    }
}

impl Clone for Block {
    fn clone(&self) -> (copy: Self)
        ensures
            copy@ == self@,
    {
        clone_block(self)
    }
}

} // verus!
