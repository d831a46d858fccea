//! The walk that the taint check makes. It visits every statement and every
//! expression of a function and rejects none.

use crate::ast::{Block, Expr, FunctionDef, Statement};
use vstd::prelude::*;

verus! {

pub struct TaintAnalyzer;

impl TaintAnalyzer {
    /// Walks the body of `func`. Every function is accepted.
    pub fn check(func: &FunctionDef) -> (r: Result<(), String>)
        ensures
            r is Ok,
    {
        Self::visit_block(&func.body)
    }

    fn visit_block(block: &Block) -> (r: Result<(), String>)
        ensures
            r is Ok,
        decreases block, 1nat,
    {
        let mut i: usize = 0;
        while i < block.statements.len()
            invariant
                i <= block.statements.len(),
            decreases block.statements.len() - i,
        {
            Self::visit_stmt(&block.statements[i])?;
            i += 1;
        }
        Ok(())
    }

    fn visit_stmt(stmt: &Statement) -> (r: Result<(), String>)
        ensures
            r is Ok,
        decreases stmt, 0nat,
    {
        match stmt {
            Statement::Let(l) => Self::visit_expr(&l.value),
            Statement::Assign { value, .. } => Self::visit_expr(value),
            Statement::If { condition, then_block, else_block } => {
                Self::visit_expr(condition)?;
                Self::visit_block(then_block)?;
                if let Some(b) = else_block {
                    Self::visit_block(b)?;
                }
                Ok(())
            },
            Statement::While { condition, body } => {
                Self::visit_expr(condition)?;
                Self::visit_block(body)?;
                Ok(())
            },
            Statement::For { start, end, step, body, .. } => {
                Self::visit_expr(start)?;
                Self::visit_expr(end)?;
                if let Some(s) = step {
                    Self::visit_expr(s)?;
                }
                Self::visit_block(body)?;
                Ok(())
            },
            Statement::ScopeBlock { body, .. } => Self::visit_block(body),
            Statement::ValidateBlock { success_scope, .. } => Self::visit_block(success_scope),
            Statement::ExprStmt(e) => Self::visit_expr(e),
            Statement::Return(Some(e)) => Self::visit_expr(e),
            Statement::Return(None) => Ok(()),
        }
    }

    fn visit_exprs(exprs: &Vec<Expr>) -> (r: Result<(), String>)
        ensures
            r is Ok,
        decreases exprs, 1nat,
    {
        let mut i: usize = 0;
        while i < exprs.len()
            invariant
                i <= exprs.len(),
            decreases exprs.len() - i,
        {
            Self::visit_expr(&exprs[i])?;
            i += 1;
        }
        Ok(())
    }

    fn visit_expr(expr: &Expr) -> (r: Result<(), String>)
        ensures
            r is Ok,
        decreases expr, 0nat,
    {
        match expr {
            Expr::Binary(l, _, r) => {
                Self::visit_expr(l)?;
                Self::visit_expr(r)
            },
            Expr::Call(_, args) => Self::visit_exprs(args),
            Expr::Spawn(e) | Expr::Await(e) => Self::visit_expr(e),
            Expr::Infra(call) => Self::visit_exprs(&call.args),
            Expr::JsonField(source, _) => Self::visit_expr(source),
            Expr::ArrayLiteral(elems) => Self::visit_exprs(elems),
            Expr::Index(arr, idx) => {
                Self::visit_expr(arr)?;
                Self::visit_expr(idx)?;
                Ok(())
            },
            _ => Ok(()),
        }
    }
}

} // verus!
