//! The checked abstract syntax tree.
//!
//! A checked tree is structurally the same as the parser's tree, but every
//! identifier site carries a `MaybeUnresolved` slot — initially
//! `Unresolved(name)` — and every expression carries a `Type` field,
//! initially `Type::Unknown`.  `from_ast` is that translation; the
//! `*_corresponds` functions state it exactly, shape by shape.

use vstd::prelude::*;
use crate::ast::{Arg, Chunk, ElseIf, Expr, Expression, Span, Statement, Stmt, Vis};
pub use crate::ast::{BinOp, UnaryOp};

verus! {

/// A resolved reference into the symbol table.
#[derive(Debug)]
pub struct Symbol {
    pub name: String,
    pub id: usize,
}

/// The type of an expression, as far as checking has determined it.
#[derive(Clone, Copy, Debug, PartialEq, Eq, Structural)]
pub enum Type {
    Unknown,
    Integer,
    Boolean,
    Str,
    Nil,
}

/// A symbol that may be resolved or not yet.
#[derive(Debug)]
pub enum MaybeUnresolved {
    Unresolved(String),
    Resolved(Symbol),
}

impl MaybeUnresolved {
    /// The resolved symbol; asking for it before resolution is a caller
    /// error, so the contract forbids it.
    pub fn unwrap(self) -> (r: Symbol)
        requires
            self is Resolved,
        ensures
            r == self->Resolved_0,
    {
        match self {
            MaybeUnresolved::Resolved(s) => s,
            MaybeUnresolved::Unresolved(_) => vstd::pervasive::unreached(),
        }
    }
}

/// Checked block of statements.
#[derive(Debug)]
pub struct CkChunk {
    pub stmts: Vec<CkStatement>,
    pub loc: Span,
}

/// Checked statement with its location.
#[derive(Debug)]
pub struct CkStatement {
    pub stmt: CkStmt,
    pub loc: Span,
}

/// Checked statements: the parser's statements with unresolved symbol
/// slots at every identifier site.
#[derive(Debug)]
pub enum CkStmt {
    Assignement { variable: MaybeUnresolved, value: CkExpression },
    VariableDef {
        vis: Vis,
        name: String,
        name_loc: Span,
        typ: Option<CkExpression>,
        value: Option<CkExpression>,
        /// the symbol representing this variable
        sym: MaybeUnresolved,
    },
    IfThenElse {
        cond: CkExpression,
        body: CkChunk,
        else_ifs: Vec<CkElseIf>,
        else_body: Option<CkChunk>,
    },
    DoBlock { body: CkChunk },
    FunCall { name: MaybeUnresolved, args: Vec<CkExpression> },
    While { cond: CkExpression, body: CkChunk },
    For { variable: String, iterator: CkExpression, body: CkChunk },
    FunDef {
        vis: Vis,
        name: String,
        name_loc: Span,
        args: Vec<CkArg>,
        rettype: Option<CkExpression>,
        body: CkChunk,
        /// the symbol representing this function
        sym: MaybeUnresolved,
    },
    Return { val: Option<CkExpression> },
    Break { val: Option<CkExpression> },
}

/// Checked `else if` arm.
#[derive(Debug)]
pub struct CkElseIf {
    pub cond: CkExpression,
    pub body: CkChunk,
    pub loc: Span,
}

/// Checked function argument.
#[derive(Debug)]
pub struct CkArg {
    pub name: String,
    pub name_loc: Span,
    pub typ: CkExpression,
    pub loc: Span,
}

/// Checked expression: the expression, its type (initially unknown), and
/// its location.
#[derive(Debug)]
pub struct CkExpression {
    /// the checked expression
    pub expr: CkExpr,
    /// the actual type of the expression
    pub typ: Type,
    /// the location of the expression
    pub loc: Span,
}

/// Checked expressions.
#[derive(Debug)]
pub enum CkExpr {
    IntLit(u64),
    BoolLit(bool),
    StringLit(String),
    Grouping(Box<CkExpression>),
    Ident(MaybeUnresolved),
    Binary { lhs: Box<CkExpression>, op: BinOp, rhs: Box<CkExpression> },
    Unary { op: UnaryOp, expr: Box<CkExpression> },
    FunCall { called: Box<CkExpression>, args: Vec<CkExpression> },
}

/// The checked chunk `c` is exactly the translation of `a`.
pub open spec fn chunk_corresponds(a: Chunk, c: CkChunk) -> bool
    decreases a,
{
    &&& c.loc == a.loc
    &&& c.stmts.len() == a.stmts.len()
    &&& forall|i: int|
        0 <= i < a.stmts.len() ==> stmt_corresponds(a.stmts[i], #[trigger] c.stmts[i])
}

/// The checked statement `c` is exactly the translation of `a`.
pub open spec fn stmt_corresponds(a: Statement, c: CkStatement) -> bool
    decreases a,
{
    &&& c.loc == a.loc
    &&& stmt_kind_corresponds(a.stmt, c.stmt)
}

/// The checked statement body `c` is exactly the translation of `a`: the
/// same shape, with every identifier wrapped as `Unresolved`.
pub open spec fn stmt_kind_corresponds(a: Stmt, c: CkStmt) -> bool
    decreases a,
{
    match (a, c) {
        (
            Stmt::Assignement { variable, value },
            CkStmt::Assignement { variable: cv, value: cval },
        ) => {
            &&& cv == MaybeUnresolved::Unresolved(variable)
            &&& expr_corresponds(value, cval)
        },
        (
            Stmt::VariableDef { vis, name, name_loc, typ, value },
            CkStmt::VariableDef {
                vis: cvis,
                name: cname,
                name_loc: cname_loc,
                typ: ctyp,
                value: cvalue,
                sym,
            },
        ) => {
            &&& cvis == vis
            &&& cname == name
            &&& cname_loc == name_loc
            &&& opt_expr_corresponds(typ, ctyp)
            &&& opt_expr_corresponds(value, cvalue)
            &&& sym == MaybeUnresolved::Unresolved(name)
        },
        (
            Stmt::IfThenElse { cond, body, else_ifs, else_body },
            CkStmt::IfThenElse {
                cond: ccond,
                body: cbody,
                else_ifs: celse_ifs,
                else_body: celse_body,
            },
        ) => {
            &&& expr_corresponds(cond, ccond)
            &&& chunk_corresponds(body, cbody)
            &&& celse_ifs.len() == else_ifs.len()
            &&& forall|i: int|
                0 <= i < else_ifs.len() ==> else_if_corresponds(
                    else_ifs[i],
                    #[trigger] celse_ifs[i],
                )
            &&& opt_chunk_corresponds(else_body, celse_body)
        },
        (Stmt::DoBlock { body }, CkStmt::DoBlock { body: cbody }) => chunk_corresponds(
            body,
            cbody,
        ),
        (Stmt::FunCall { name, args }, CkStmt::FunCall { name: cname, args: cargs }) => {
            &&& cname == MaybeUnresolved::Unresolved(name)
            &&& cargs.len() == args.len()
            &&& forall|i: int|
                0 <= i < args.len() ==> expr_corresponds(args[i], #[trigger] cargs[i])
        },
        (Stmt::While { cond, body }, CkStmt::While { cond: ccond, body: cbody }) => {
            &&& expr_corresponds(cond, ccond)
            &&& chunk_corresponds(body, cbody)
        },
        (
            Stmt::For { variable, iterator, body },
            CkStmt::For { variable: cvar, iterator: citer, body: cbody },
        ) => {
            &&& cvar == variable
            &&& expr_corresponds(iterator, citer)
            &&& chunk_corresponds(body, cbody)
        },
        (
            Stmt::FunDef { vis, name, name_loc, args, rettype, body },
            CkStmt::FunDef {
                vis: cvis,
                name: cname,
                name_loc: cname_loc,
                args: cargs,
                rettype: crettype,
                body: cbody,
                sym,
            },
        ) => {
            &&& cvis == vis
            &&& cname == name
            &&& cname_loc == name_loc
            &&& cargs.len() == args.len()
            &&& forall|i: int|
                0 <= i < args.len() ==> arg_corresponds(args[i], #[trigger] cargs[i])
            &&& opt_expr_corresponds(rettype, crettype)
            &&& chunk_corresponds(body, cbody)
            &&& sym == MaybeUnresolved::Unresolved(name)
        },
        (Stmt::Return { val }, CkStmt::Return { val: cval }) => opt_expr_corresponds(val, cval),
        (Stmt::Break { val }, CkStmt::Break { val: cval }) => opt_expr_corresponds(val, cval),
        _ => false,
    }
}

/// The checked arm `c` is exactly the translation of `a`.
pub open spec fn else_if_corresponds(a: ElseIf, c: CkElseIf) -> bool
    decreases a,
{
    &&& expr_corresponds(a.cond, c.cond)
    &&& chunk_corresponds(a.body, c.body)
    &&& c.loc == a.loc
}

/// The checked argument `c` is exactly the translation of `a`.
pub open spec fn arg_corresponds(a: Arg, c: CkArg) -> bool
    decreases a,
{
    &&& c.name == a.name
    &&& c.name_loc == a.name_loc
    &&& expr_corresponds(a.typ, c.typ)
    &&& c.loc == a.loc
}

/// The checked expression `c` is exactly the translation of `a`: the same
/// shape and location, with its type still unknown.
pub open spec fn expr_corresponds(a: Expression, c: CkExpression) -> bool
    decreases a,
{
    &&& c.typ == Type::Unknown
    &&& c.loc == a.loc
    &&& expr_kind_corresponds(a.expr, c.expr)
}

/// The checked expression body `c` is exactly the translation of `a`.
pub open spec fn expr_kind_corresponds(a: Expr, c: CkExpr) -> bool
    decreases a,
{
    match (a, c) {
        (Expr::IntLit(i), CkExpr::IntLit(j)) => j == i,
        (Expr::BoolLit(x), CkExpr::BoolLit(y)) => y == x,
        (Expr::StringLit(s), CkExpr::StringLit(t)) => t == s,
        (Expr::Grouping(inner), CkExpr::Grouping(cinner)) => expr_corresponds(*inner, *cinner),
        (Expr::Ident(id), CkExpr::Ident(cid)) => cid == MaybeUnresolved::Unresolved(id),
        (
            Expr::Binary { lhs, op, rhs },
            CkExpr::Binary { lhs: clhs, op: cop, rhs: crhs },
        ) => {
            &&& cop == op
            &&& expr_corresponds(*lhs, *clhs)
            &&& expr_corresponds(*rhs, *crhs)
        },
        (Expr::Unary { op, expr }, CkExpr::Unary { op: cop, expr: cexpr }) => {
            &&& cop == op
            &&& expr_corresponds(*expr, *cexpr)
        },
        (
            Expr::FunCall { called, args },
            CkExpr::FunCall { called: ccalled, args: cargs },
        ) => {
            &&& expr_corresponds(*called, *ccalled)
            &&& cargs.len() == args.len()
            &&& forall|i: int|
                0 <= i < args.len() ==> expr_corresponds(args[i], #[trigger] cargs[i])
        },
        _ => false,
    }
}

/// `Option` lifted translation of expressions.
pub open spec fn opt_expr_corresponds(a: Option<Expression>, c: Option<CkExpression>) -> bool
    decreases a,
{
    match (a, c) {
        (Option::None, Option::None) => true,
        (Option::Some(x), Option::Some(y)) => expr_corresponds(x, y),
        _ => false,
    }
}

/// `Option` lifted translation of chunks.
pub open spec fn opt_chunk_corresponds(a: Option<Chunk>, c: Option<CkChunk>) -> bool
    decreases a,
{
    match (a, c) {
        (Option::None, Option::None) => true,
        (Option::Some(x), Option::Some(y)) => chunk_corresponds(x, y),
        _ => false,
    }
}

/// Translates a block.
pub fn ck_chunk(a: &Chunk) -> (r: CkChunk)
    ensures
        chunk_corresponds(*a, r),
    decreases *a,
{
    let mut stmts: Vec<CkStatement> = Vec::new();
    let mut i: usize = 0;
    while i < a.stmts.len()
        invariant
            i <= a.stmts.len(),
            stmts.len() == i,
            forall|j: int| 0 <= j < i ==> stmt_corresponds(a.stmts[j], #[trigger] stmts[j]),
        decreases a.stmts.len() - i,
    {
        let s = ck_statement(&a.stmts[i]);
        stmts.push(s);
        i = i + 1;
    }
    CkChunk { stmts, loc: a.loc }
}

/// Translates a statement: same shape, identifiers wrapped as
/// `Unresolved`.
#[verifier::loop_isolation(false)]
pub fn ck_statement(a: &Statement) -> (r: CkStatement)
    ensures
        stmt_corresponds(*a, r),
    decreases *a,
{
    let stmt = match &a.stmt {
        Stmt::Assignement { variable, value } => CkStmt::Assignement {
            variable: MaybeUnresolved::Unresolved(variable.clone()),
            value: ck_expression(value),
        },
        Stmt::VariableDef { vis, name, name_loc, typ, value } => CkStmt::VariableDef {
            vis: *vis,
            name: name.clone(),
            name_loc: *name_loc,
            typ: ck_opt_expression(typ),
            value: ck_opt_expression(value),
            sym: MaybeUnresolved::Unresolved(name.clone()),
        },
        Stmt::IfThenElse { cond, body, else_ifs, else_body } => {
            let mut celse_ifs: Vec<CkElseIf> = Vec::new();
            let mut i: usize = 0;
            while i < else_ifs.len()
                invariant
                    i <= else_ifs.len(),
                    celse_ifs.len() == i,
                    forall|j: int|
                        0 <= j < i ==> else_if_corresponds(else_ifs[j], #[trigger] celse_ifs[j]),
                decreases else_ifs.len() - i,
            {
                proof {
                    assert(*else_ifs == a.stmt->IfThenElse_else_ifs);
                    assert(decreases_to!(*a => a.stmt->IfThenElse_else_ifs[i as int]));
                }
                let e = ck_else_if(&else_ifs[i]);
                celse_ifs.push(e);
                i = i + 1;
            }
            CkStmt::IfThenElse {
                cond: ck_expression(cond),
                body: ck_chunk(body),
                else_ifs: celse_ifs,
                else_body: ck_opt_chunk(else_body),
            }
        },
        Stmt::DoBlock { body } => CkStmt::DoBlock { body: ck_chunk(body) },
        Stmt::FunCall { name, args } => {
            let mut cargs: Vec<CkExpression> = Vec::new();
            let mut i: usize = 0;
            while i < args.len()
                invariant
                    i <= args.len(),
                    cargs.len() == i,
                    forall|j: int|
                        0 <= j < i ==> expr_corresponds(args[j], #[trigger] cargs[j]),
                decreases args.len() - i,
            {
                let e = ck_expression(&args[i]);
                cargs.push(e);
                i = i + 1;
            }
            CkStmt::FunCall { name: MaybeUnresolved::Unresolved(name.clone()), args: cargs }
        },
        Stmt::While { cond, body } => CkStmt::While {
            cond: ck_expression(cond),
            body: ck_chunk(body),
        },
        Stmt::For { variable, iterator, body } => CkStmt::For {
            variable: variable.clone(),
            iterator: ck_expression(iterator),
            body: ck_chunk(body),
        },
        Stmt::FunDef { vis, name, name_loc, args, rettype, body } => {
            let mut cargs: Vec<CkArg> = Vec::new();
            let mut i: usize = 0;
            while i < args.len()
                invariant
                    i <= args.len(),
                    cargs.len() == i,
                    forall|j: int| 0 <= j < i ==> arg_corresponds(args[j], #[trigger] cargs[j]),
                decreases args.len() - i,
            {
                let e = ck_arg(&args[i]);
                cargs.push(e);
                i = i + 1;
            }
            CkStmt::FunDef {
                vis: *vis,
                name: name.clone(),
                name_loc: *name_loc,
                args: cargs,
                rettype: ck_opt_expression(rettype),
                body: ck_chunk(body),
                sym: MaybeUnresolved::Unresolved(name.clone()),
            }
        },
        Stmt::Return { val } => CkStmt::Return { val: ck_opt_expression(val) },
        Stmt::Break { val } => CkStmt::Break { val: ck_opt_expression(val) },
    };
    CkStatement { stmt, loc: a.loc }
}

/// Translates an `else if` arm.
pub fn ck_else_if(a: &ElseIf) -> (r: CkElseIf)
    ensures
        else_if_corresponds(*a, r),
    decreases *a,
{
    CkElseIf { cond: ck_expression(&a.cond), body: ck_chunk(&a.body), loc: a.loc }
}

/// Translates a function argument.
pub fn ck_arg(a: &Arg) -> (r: CkArg)
    ensures
        arg_corresponds(*a, r),
    decreases *a,
{
    CkArg { name: a.name.clone(), name_loc: a.name_loc, typ: ck_expression(&a.typ), loc: a.loc }
}

/// Translates an expression: same shape and location, type still
/// unknown.
#[verifier::loop_isolation(false)]
pub fn ck_expression(a: &Expression) -> (r: CkExpression)
    ensures
        expr_corresponds(*a, r),
    decreases *a,
{
    let expr = match &a.expr {
        Expr::IntLit(i) => CkExpr::IntLit(*i),
        Expr::BoolLit(b) => CkExpr::BoolLit(*b),
        Expr::StringLit(s) => CkExpr::StringLit(s.clone()),
        Expr::Grouping(inner) => CkExpr::Grouping(Box::new(ck_expression(&**inner))),
        Expr::Ident(id) => CkExpr::Ident(MaybeUnresolved::Unresolved(id.clone())),
        Expr::Binary { lhs, op, rhs } => CkExpr::Binary {
            lhs: Box::new(ck_expression(&**lhs)),
            op: *op,
            rhs: Box::new(ck_expression(&**rhs)),
        },
        Expr::Unary { op, expr } => CkExpr::Unary {
            op: *op,
            expr: Box::new(ck_expression(&**expr)),
        },
        Expr::FunCall { called, args } => {
            let ccalled = Box::new(ck_expression(&**called));
            let mut cargs: Vec<CkExpression> = Vec::new();
            let mut i: usize = 0;
            while i < args.len()
                invariant
                    i <= args.len(),
                    cargs.len() == i,
                    forall|j: int|
                        0 <= j < i ==> expr_corresponds(args[j], #[trigger] cargs[j]),
                decreases args.len() - i,
            {
                proof {
                    assert(*args == a.expr->FunCall_args);
                    assert(decreases_to!(*a => a.expr->FunCall_args[i as int]));
                }
                let e = ck_expression(&args[i]);
                cargs.push(e);
                i = i + 1;
            }
            CkExpr::FunCall { called: ccalled, args: cargs }
        },
    };
    CkExpression { expr, typ: Type::Unknown, loc: a.loc }
}

/// Translates an optional expression.
pub fn ck_opt_expression(a: &Option<Expression>) -> (r: Option<CkExpression>)
    ensures
        opt_expr_corresponds(*a, r),
    decreases *a,
{
    match a {
        Option::None => None,
        Option::Some(x) => Some(ck_expression(x)),
    }
}

/// Translates an optional block.
pub fn ck_opt_chunk(a: &Option<Chunk>) -> (r: Option<CkChunk>)
    ensures
        opt_chunk_corresponds(*a, r),
    decreases *a,
{
    match a {
        Option::None => None,
        Option::Some(x) => Some(ck_chunk(x)),
    }
}

/// Convert a parser tree to a checked tree, but not yet checked.
pub trait FromAst: Sized {
    /// The unchecked counterpart this type is built from.
    type Unchecked;

    /// The exact translation relation that `from_ast` realizes.
    spec fn ast_corresponds(ast: Self::Unchecked, r: Self) -> bool;

    /// Builds the checked value of `ast`.
    fn from_ast(ast: Self::Unchecked) -> (r: Self)
        ensures
            Self::ast_corresponds(ast, r),
    ;
}

impl FromAst for CkChunk {
    type Unchecked = Chunk;

    open spec fn ast_corresponds(ast: Chunk, r: CkChunk) -> bool {
        chunk_corresponds(ast, r)
    }

    fn from_ast(ast: Chunk) -> (r: CkChunk) {
        ck_chunk(&ast)
    }
}

impl FromAst for CkStatement {
    type Unchecked = Statement;

    open spec fn ast_corresponds(ast: Statement, r: CkStatement) -> bool {
        stmt_corresponds(ast, r)
    }

    fn from_ast(ast: Statement) -> (r: CkStatement) {
        ck_statement(&ast)
    }
}

impl FromAst for CkElseIf {
    type Unchecked = ElseIf;

    open spec fn ast_corresponds(ast: ElseIf, r: CkElseIf) -> bool {
        else_if_corresponds(ast, r)
    }

    fn from_ast(ast: ElseIf) -> (r: CkElseIf) {
        ck_else_if(&ast)
    }
}

impl FromAst for CkArg {
    type Unchecked = Arg;

    open spec fn ast_corresponds(ast: Arg, r: CkArg) -> bool {
        arg_corresponds(ast, r)
    }

    fn from_ast(ast: Arg) -> (r: CkArg) {
        ck_arg(&ast)
    }
}

impl FromAst for CkExpression {
    type Unchecked = Expression;

    open spec fn ast_corresponds(ast: Expression, r: CkExpression) -> bool {
        expr_corresponds(ast, r)
    }

    fn from_ast(ast: Expression) -> (r: CkExpression) {
        ck_expression(&ast)
    }
}

impl<T: FromAst> FromAst for Option<T> {
    type Unchecked = Option<T::Unchecked>;

    open spec fn ast_corresponds(ast: Option<T::Unchecked>, r: Option<T>) -> bool {
        match (ast, r) {
            (Option::None, Option::None) => true,
            (Option::Some(x), Option::Some(y)) => T::ast_corresponds(x, y),
            _ => false,
        }
    }

    fn from_ast(ast: Option<T::Unchecked>) -> (r: Option<T>) {
        match ast {
            Option::None => None,
            Option::Some(x) => Some(T::from_ast(x)),
        }
    }
}

impl<T: FromAst> FromAst for Vec<T> {
    type Unchecked = Vec<T::Unchecked>;

    open spec fn ast_corresponds(ast: Vec<T::Unchecked>, r: Vec<T>) -> bool {
        &&& r.len() == ast.len()
        &&& forall|i: int| 0 <= i < ast.len() ==> T::ast_corresponds(ast[i], #[trigger] r[i])
    }

    fn from_ast(ast: Vec<T::Unchecked>) -> (r: Vec<T>) {
        let ghost orig = ast@;
        let mut ast = ast;
        let mut list: Vec<T> = Vec::new();
        while ast.len() > 0
            invariant
                list.len() + ast.len() == orig.len(),
                ast@ == orig.subrange(list.len() as int, orig.len() as int),
                forall|j: int|
                    0 <= j < list.len() ==> T::ast_corresponds(orig[j], #[trigger] list[j]),
            decreases ast.len(),
        {
            let item = ast.remove(0);
            proof {
                assert(item == orig[list@.len() as int]);
                assert(ast@ =~= orig.subrange(list.len() + 1, orig.len() as int));
            }
            list.push(T::from_ast(item));
        }
        list
    }
}

impl<T: FromAst> FromAst for Box<T> {
    type Unchecked = T::Unchecked;

    open spec fn ast_corresponds(ast: T::Unchecked, r: Box<T>) -> bool {
        T::ast_corresponds(ast, *r)
    }

    fn from_ast(ast: T::Unchecked) -> (r: Box<T>) {
        Box::new(T::from_ast(ast))
    }
}

/// Convert a parser value to its checked counterpart.
pub fn from_ast<T: FromAst>(ast: T::Unchecked) -> (r: T)
    ensures
        T::ast_corresponds(ast, r),
{
    T::from_ast(ast)
}

} // verus!
