//! The syntax tree of a program, and the mathematical tree that contracts speak of.
//!
//! Every executable node type has a ghost counterpart whose strings are
//! `Seq<char>` and whose lists are `Seq`; `view` maps one onto the other.

use vstd::prelude::*;

verus! {

/// A type as written in a signature.
#[derive(Debug, PartialEq)]
pub enum TypeRef {
    Void,
    Integer,
    String,
    Untrusted,
    Array(Box<TypeRef>),
    Custom(String),
}

pub enum SpecTypeRef {
    Void,
    Integer,
    String,
    Untrusted,
    Array(Box<SpecTypeRef>),
    Custom(Seq<char>),
}

/// The tree of a type.
pub open spec fn type_view(t: TypeRef) -> SpecTypeRef
    decreases t,
{
    match t {
        TypeRef::Void => SpecTypeRef::Void,
        TypeRef::Integer => SpecTypeRef::Integer,
        TypeRef::String => SpecTypeRef::String,
        TypeRef::Untrusted => SpecTypeRef::Untrusted,
        TypeRef::Array(inner) => SpecTypeRef::Array(Box::new(type_view(*inner))),
        TypeRef::Custom(name) => SpecTypeRef::Custom(name@),
    }
}

impl View for TypeRef {
    type V = SpecTypeRef;

    open spec fn view(&self) -> SpecTypeRef {
        type_view(*self)
    }
}

/// A typed parameter of a function.
#[derive(Debug, Clone, PartialEq)]
pub struct Param {
    pub name: String,
    pub param_type: TypeRef,
}

pub struct SpecParam {
    pub name: Seq<char>,
    pub param_type: SpecTypeRef,
}

impl View for Param {
    type V = SpecParam;

    open spec fn view(&self) -> SpecParam {
        SpecParam { name: self.name@, param_type: self.param_type@ }
    }
}

#[derive(Debug, Clone, Copy, PartialEq, Eq, Structural)]
pub enum BinaryOp {
    Add,
    Sub,
    Mul,
    Div,
    Eq,
    Neq,
    Gt,
    Lt,
    Gte,
    Lte,
}

#[derive(Debug, PartialEq)]
pub enum Literal {
    Int(i64),
    Str(String),
    Bool(bool),
}

pub enum SpecLiteral {
    Int(int),
    Str(Seq<char>),
    Bool(bool),
}

impl View for Literal {
    type V = SpecLiteral;

    open spec fn view(&self) -> SpecLiteral {
        match self {
            Literal::Int(n) => SpecLiteral::Int(*n as int),
            Literal::Str(s) => SpecLiteral::Str(s@),
            Literal::Bool(b) => SpecLiteral::Bool(*b),
        }
    }
}

/// The configuration block of a service call; the time limit is its only key.
#[derive(Debug, Clone, Copy, PartialEq, Eq, Structural)]
pub struct InfraConfig {
    pub timeout_ms: u64,
}

/// A call of `service.method(args)` that may take at most `config.timeout_ms`.
#[derive(Debug, PartialEq)]
pub struct InfraCall {
    pub service: String,
    pub method: String,
    pub args: Vec<Expr>,
    pub config: InfraConfig,
}

pub struct SpecInfraCall {
    pub service: Seq<char>,
    pub method: Seq<char>,
    pub args: Seq<SpecExpr>,
    pub config: InfraConfig,
}

#[derive(Debug, PartialEq)]
pub enum Expr {
    Identifier(String),
    Literal(Literal),
    Binary(Box<Expr>, BinaryOp, Box<Expr>),
    Call(String, Vec<Expr>),
    Spawn(Box<Expr>),
    Await(Box<Expr>),
    Infra(InfraCall),
    JsonField(Box<Expr>, String),
    ArrayLiteral(Vec<Expr>),
    Index(Box<Expr>, Box<Expr>),
}

pub enum SpecExpr {
    Identifier(Seq<char>),
    Literal(SpecLiteral),
    Binary(Box<SpecExpr>, BinaryOp, Box<SpecExpr>),
    Call(Seq<char>, Seq<SpecExpr>),
    Spawn(Box<SpecExpr>),
    Await(Box<SpecExpr>),
    Infra(SpecInfraCall),
    JsonField(Box<SpecExpr>, Seq<char>),
    ArrayLiteral(Seq<SpecExpr>),
    Index(Box<SpecExpr>, Box<SpecExpr>),
}

/// The tree of an expression.
#[verifier::opaque]
pub open spec fn expr_view(e: Expr) -> SpecExpr
    decreases e,
{
    match e {
        Expr::Identifier(name) => SpecExpr::Identifier(name@),
        Expr::Literal(lit) => SpecExpr::Literal(lit@),
        Expr::Binary(left, op, right) => SpecExpr::Binary(
            Box::new(expr_view(*left)),
            op,
            Box::new(expr_view(*right)),
        ),
        Expr::Call(name, args) => SpecExpr::Call(name@, exprs_view(args@)),
        Expr::Spawn(inner) => SpecExpr::Spawn(Box::new(expr_view(*inner))),
        Expr::Await(inner) => SpecExpr::Await(Box::new(expr_view(*inner))),
        Expr::Infra(call) => SpecExpr::Infra(
            SpecInfraCall {
                service: call.service@,
                method: call.method@,
                args: exprs_view(call.args@),
                config: call.config,
            },
        ),
        Expr::JsonField(source, key) => SpecExpr::JsonField(Box::new(expr_view(*source)), key@),
        Expr::ArrayLiteral(elems) => SpecExpr::ArrayLiteral(exprs_view(elems@)),
        Expr::Index(array, index) => SpecExpr::Index(
            Box::new(expr_view(*array)),
            Box::new(expr_view(*index)),
        ),
    }
}

/// The trees of a list of expressions, in order.
pub open spec fn exprs_view(exprs: Seq<Expr>) -> Seq<SpecExpr>
    decreases exprs,
{
    if exprs.len() == 0 {
        Seq::empty()
    } else {
        exprs_view(exprs.drop_last()).push(expr_view(exprs.last()))
    }
}

impl View for Expr {
    type V = SpecExpr;

    open spec fn view(&self) -> SpecExpr {
        expr_view(*self)
    }
}

impl View for InfraCall {
    type V = SpecInfraCall;

    open spec fn view(&self) -> SpecInfraCall {
        SpecInfraCall {
            service: self.service@,
            method: self.method@,
            args: exprs_view(self.args@),
            config: self.config,
        }
    }
}

/// `exprs_view` keeps the length and maps position by position.
pub proof fn lemma_exprs_view(exprs: Seq<Expr>)
    ensures
        exprs_view(exprs).len() == exprs.len(),
        forall|i: int| 0 <= i < exprs.len() ==> (#[trigger] exprs_view(exprs)[i]) == exprs[i]@,
    decreases exprs.len(),
{
    reveal(expr_view);
    if exprs.len() > 0 {
        lemma_exprs_view(exprs.drop_last());
    }
}

/// One more expression adds its tree at the end.
pub proof fn lemma_exprs_view_push(exprs: Seq<Expr>, e: Expr)
    ensures
        exprs_view(exprs.push(e)) == exprs_view(exprs).push(e@),
{
    reveal(expr_view);
    assert(exprs.push(e).drop_last() =~= exprs);
}

#[derive(Debug, Clone, PartialEq)]
pub struct LetStmt {
    pub name: String,
    pub value: Expr,
}

pub struct SpecLetStmt {
    pub name: Seq<char>,
    pub value: SpecExpr,
}

impl View for LetStmt {
    type V = SpecLetStmt;

    open spec fn view(&self) -> SpecLetStmt {
        SpecLetStmt { name: self.name@, value: self.value@ }
    }
}

#[derive(Debug, PartialEq)]
pub enum Statement {
    Let(LetStmt),
    Assign { name: String, value: Expr },
    If { condition: Expr, then_block: Block, else_block: Option<Block> },
    While { condition: Expr, body: Block },
    For { var: String, start: Expr, end: Expr, step: Option<Expr>, body: Block },
    ScopeBlock { name: String, body: Block },
    ValidateBlock { target: String, schema: String, on_fail: Box<Block>, success_scope: Box<Block> },
    ExprStmt(Expr),
    Return(Option<Expr>),
}

pub enum SpecStatement {
    Let(SpecLetStmt),
    Assign { name: Seq<char>, value: SpecExpr },
    If { condition: SpecExpr, then_block: SpecBlock, else_block: Option<SpecBlock> },
    While { condition: SpecExpr, body: SpecBlock },
    For { var: Seq<char>, start: SpecExpr, end: SpecExpr, step: Option<SpecExpr>, body: SpecBlock },
    ScopeBlock { name: Seq<char>, body: SpecBlock },
    ValidateBlock {
        target: Seq<char>,
        schema: Seq<char>,
        on_fail: SpecBlock,
        success_scope: SpecBlock,
    },
    ExprStmt(SpecExpr),
    Return(Option<SpecExpr>),
}

#[derive(Debug, PartialEq)]
pub struct Block {
    pub statements: Vec<Statement>,
}

pub struct SpecBlock {
    pub statements: Seq<SpecStatement>,
}

/// The tree of an expression that may be absent.
pub open spec fn option_expr_view(e: Option<Expr>) -> Option<SpecExpr> {
    match e {
        Some(expr) => Some(expr@),
        None => None,
    }
}

/// The tree of a statement.
#[verifier::opaque]
pub open spec fn stmt_view(s: Statement) -> SpecStatement
    decreases s,
{
    match s {
        Statement::Let(binding) => SpecStatement::Let(binding@),
        Statement::Assign { name, value } => SpecStatement::Assign { name: name@, value: value@ },
        Statement::If { condition, then_block, else_block } => SpecStatement::If {
            condition: condition@,
            then_block: SpecBlock { statements: stmts_view(then_block.statements@) },
            else_block: match else_block {
                Some(block) => Some(SpecBlock { statements: stmts_view(block.statements@) }),
                None => None,
            },
        },
        Statement::While { condition, body } => SpecStatement::While {
            condition: condition@,
            body: SpecBlock { statements: stmts_view(body.statements@) },
        },
        Statement::For { var, start, end, step, body } => SpecStatement::For {
            var: var@,
            start: start@,
            end: end@,
            step: option_expr_view(step),
            body: SpecBlock { statements: stmts_view(body.statements@) },
        },
        Statement::ScopeBlock { name, body } => SpecStatement::ScopeBlock {
            name: name@,
            body: SpecBlock { statements: stmts_view(body.statements@) },
        },
        Statement::ValidateBlock {
            target,
            schema,
            on_fail,
            success_scope,
        } => SpecStatement::ValidateBlock {
            target: target@,
            schema: schema@,
            on_fail: SpecBlock { statements: stmts_view(on_fail.statements@) },
            success_scope: SpecBlock { statements: stmts_view(success_scope.statements@) },
        },
        Statement::ExprStmt(expr) => SpecStatement::ExprStmt(expr@),
        Statement::Return(value) => SpecStatement::Return(option_expr_view(value)),
    }
}

/// The trees of a list of statements, in order.
pub open spec fn stmts_view(stmts: Seq<Statement>) -> Seq<SpecStatement>
    decreases stmts,
{
    if stmts.len() == 0 {
        Seq::empty()
    } else {
        stmts_view(stmts.drop_last()).push(stmt_view(stmts.last()))
    }
}

impl View for Statement {
    type V = SpecStatement;

    open spec fn view(&self) -> SpecStatement {
        stmt_view(*self)
    }
}

impl View for Block {
    type V = SpecBlock;

    open spec fn view(&self) -> SpecBlock {
        SpecBlock { statements: stmts_view(self.statements@) }
    }
}

/// `stmts_view` keeps the length and maps position by position.
pub proof fn lemma_stmts_view(stmts: Seq<Statement>)
    ensures
        stmts_view(stmts).len() == stmts.len(),
        forall|i: int| 0 <= i < stmts.len() ==> (#[trigger] stmts_view(stmts)[i]) == stmts[i]@,
    decreases stmts.len(),
{
    reveal(stmt_view);
    if stmts.len() > 0 {
        lemma_stmts_view(stmts.drop_last());
    }
}

/// One more statement adds its tree at the end.
pub proof fn lemma_stmts_view_push(stmts: Seq<Statement>, s: Statement)
    ensures
        stmts_view(stmts.push(s)) == stmts_view(stmts).push(s@),
{
    reveal(stmt_view);
    assert(stmts.push(s).drop_last() =~= stmts);
}

#[derive(Debug, Clone, Copy, PartialEq, Eq, Structural)]
pub enum Purity {
    Deterministic,
    Nondeterministic,
}

#[derive(Debug, Clone, PartialEq)]
pub struct FunctionDef {
    pub name: String,
    pub purity: Purity,
    pub params: Vec<Param>,
    pub return_type: TypeRef,
    pub body: Block,
}

pub struct SpecFunctionDef {
    pub name: Seq<char>,
    pub purity: Purity,
    pub params: Seq<SpecParam>,
    pub return_type: SpecTypeRef,
    pub body: SpecBlock,
}

/// The trees of a list of parameters, in order.
pub open spec fn params_view(params: Seq<Param>) -> Seq<SpecParam> {
    Seq::new(params.len(), |i: int| params[i]@)
}

impl View for FunctionDef {
    type V = SpecFunctionDef;

    open spec fn view(&self) -> SpecFunctionDef {
        SpecFunctionDef {
            name: self.name@,
            purity: self.purity,
            params: params_view(self.params@),
            return_type: self.return_type@,
            body: self.body@,
        }
    }
}

/// The trees of a list of declarations, in order.
pub open spec fn program_view(functions: Seq<FunctionDef>) -> Seq<SpecFunctionDef> {
    Seq::new(functions.len(), |i: int| functions[i]@)
}

/// What the tree of each kind of expression is, given the trees of its
/// parts.
pub proof fn lemma_expr_view(e: Expr)
    ensures
        e@ == match e {
            Expr::Identifier(name) => SpecExpr::Identifier(name@),
            Expr::Literal(lit) => SpecExpr::Literal(lit@),
            Expr::Binary(left, op, right) => SpecExpr::Binary(
                Box::new((*left)@),
                op,
                Box::new((*right)@),
            ),
            Expr::Call(name, args) => SpecExpr::Call(name@, exprs_view(args@)),
            Expr::Spawn(inner) => SpecExpr::Spawn(Box::new((*inner)@)),
            Expr::Await(inner) => SpecExpr::Await(Box::new((*inner)@)),
            Expr::Infra(call) => SpecExpr::Infra(call@),
            Expr::JsonField(source, key) => SpecExpr::JsonField(Box::new((*source)@), key@),
            Expr::ArrayLiteral(elems) => SpecExpr::ArrayLiteral(exprs_view(elems@)),
            Expr::Index(array, index) => SpecExpr::Index(
                Box::new((*array)@),
                Box::new((*index)@),
            ),
        },
{
    reveal(expr_view);
}

/// The tree of a block that may be absent.
pub open spec fn option_block_view(b: Option<Block>) -> Option<SpecBlock> {
    match b {
        Some(block) => Some(block@),
        None => None,
    }
}

/// What the tree of each kind of statement is, given the trees of its
/// parts.
pub proof fn lemma_stmt_view(s: Statement)
    ensures
        s@ == match s {
            Statement::Let(binding) => SpecStatement::Let(binding@),
            Statement::Assign { name, value } => SpecStatement::Assign {
                name: name@,
                value: value@,
            },
            Statement::If { condition, then_block, else_block } => SpecStatement::If {
                condition: condition@,
                then_block: then_block@,
                else_block: option_block_view(else_block),
            },
            Statement::While { condition, body } => SpecStatement::While {
                condition: condition@,
                body: body@,
            },
            Statement::For { var, start, end, step, body } => SpecStatement::For {
                var: var@,
                start: start@,
                end: end@,
                step: option_expr_view(step),
                body: body@,
            },
            Statement::ScopeBlock { name, body } => SpecStatement::ScopeBlock {
                name: name@,
                body: body@,
            },
            Statement::ValidateBlock {
                target,
                schema,
                on_fail,
                success_scope,
            } => SpecStatement::ValidateBlock {
                target: target@,
                schema: schema@,
                on_fail: (*on_fail)@,
                success_scope: (*success_scope)@,
            },
            Statement::ExprStmt(expr) => SpecStatement::ExprStmt(expr@),
            Statement::Return(value) => SpecStatement::Return(option_expr_view(value)),
        },
{
    reveal(stmt_view);
}

} // verus!
