//! The front-end's abstract syntax tree, as the parser hands it over:
//! chunks of statements whose identifiers are still plain names.  The
//! checked tree is built from these.

use vstd::prelude::*;

verus! {

/// A source location: a byte range in the input.
#[derive(Clone, Copy, Debug, PartialEq, Eq, Structural)]
pub struct Span {
    pub lo: usize,
    pub hi: usize,
}

/// Visibility of a definition.
#[derive(Clone, Copy, Debug, PartialEq, Eq, Structural)]
pub enum Vis {
    Public,
    Private,
}

/// A binary operator of the source language.
#[derive(Clone, Copy, Debug, PartialEq, Eq, Structural)]
pub enum BinOp {
    Add,
    Sub,
    Mul,
    Div,
    Rem,
    CmpEq,
    CmpNe,
    CmpLt,
    CmpLe,
    CmpGt,
    CmpGe,
    LogicAnd,
    LogicOr,
}

/// A unary operator of the source language.
#[derive(Clone, Copy, Debug, PartialEq, Eq, Structural)]
pub enum UnaryOp {
    Neg,
    Not,
}

/// A block of statements.
#[derive(Debug)]
pub struct Chunk {
    pub stmts: Vec<Statement>,
    pub loc: Span,
}

/// A statement with its location.
#[derive(Debug)]
pub struct Statement {
    pub stmt: Stmt,
    pub loc: Span,
}

/// The statements of the source language.
#[derive(Debug)]
pub enum Stmt {
    Assignement { variable: String, value: Expression },
    VariableDef {
        vis: Vis,
        name: String,
        name_loc: Span,
        typ: Option<Expression>,
        value: Option<Expression>,
    },
    IfThenElse {
        cond: Expression,
        body: Chunk,
        else_ifs: Vec<ElseIf>,
        else_body: Option<Chunk>,
    },
    DoBlock { body: Chunk },
    FunCall { name: String, args: Vec<Expression> },
    While { cond: Expression, body: Chunk },
    For { variable: String, iterator: Expression, body: Chunk },
    FunDef {
        vis: Vis,
        name: String,
        name_loc: Span,
        args: Vec<Arg>,
        rettype: Option<Expression>,
        body: Chunk,
    },
    Return { val: Option<Expression> },
    Break { val: Option<Expression> },
}

/// One `else if` arm of a conditional.
#[derive(Debug)]
pub struct ElseIf {
    pub cond: Expression,
    pub body: Chunk,
    pub loc: Span,
}

/// A function definition's argument.
#[derive(Debug)]
pub struct Arg {
    pub name: String,
    pub name_loc: Span,
    pub typ: Expression,
    pub loc: Span,
}

/// An expression with its location.
#[derive(Debug)]
pub struct Expression {
    pub expr: Expr,
    pub loc: Span,
}

/// The expressions of the source language.
#[derive(Debug)]
pub enum Expr {
    IntLit(u64),
    BoolLit(bool),
    StringLit(String),
    Grouping(Box<Expression>),
    Ident(String),
    Binary { lhs: Box<Expression>, op: BinOp, rhs: Box<Expression> },
    Unary { op: UnaryOp, expr: Box<Expression> },
    FunCall { called: Box<Expression>, args: Vec<Expression> },
}

} // verus!
