use lun_vm::ast::{Arg, BinOp, Chunk, ElseIf, Expr, Expression, Span, Statement, Stmt, UnaryOp,
    Vis};
use lun_vm::ckast::{from_ast, CkChunk, CkExpr, CkExpression, CkStatement, CkStmt, FromAst,
    MaybeUnresolved, Symbol, Type};

fn sp(lo: usize, hi: usize) -> Span {
    Span { lo, hi }
}

fn int_lit(v: u64, lo: usize, hi: usize) -> Expression {
    Expression { expr: Expr::IntLit(v), loc: sp(lo, hi) }
}

fn ident(name: &str, lo: usize, hi: usize) -> Expression {
    Expression { expr: Expr::Ident(name.to_string()), loc: sp(lo, hi) }
}

#[test]
fn expression_literals_keep_value_and_location() {
    let ck: CkExpression = from_ast(int_lit(42, 3, 5));
    assert_eq!(ck.typ, Type::Unknown);
    assert_eq!(ck.loc, sp(3, 5));
    assert!(matches!(ck.expr, CkExpr::IntLit(42)));

    let ck: CkExpression = from_ast(Expression { expr: Expr::BoolLit(true), loc: sp(0, 4) });
    assert!(matches!(ck.expr, CkExpr::BoolLit(true)));

    let ck: CkExpression = from_ast(Expression {
        expr: Expr::StringLit("hello".to_string()),
        loc: sp(0, 7),
    });
    match ck.expr {
        CkExpr::StringLit(s) => assert_eq!(s, "hello"),
        _ => panic!("expected a string literal"),
    }
}

#[test]
fn identifier_becomes_unresolved_slot() {
    let ck: CkExpression = from_ast(ident("x", 1, 2));
    match ck.expr {
        CkExpr::Ident(MaybeUnresolved::Unresolved(n)) => assert_eq!(n, "x"),
        _ => panic!("expected an unresolved identifier"),
    }
    assert_eq!(ck.typ, Type::Unknown);
}

#[test]
fn binary_expression_translates_recursively() {
    let e = Expression {
        expr: Expr::Binary {
            lhs: Box::new(int_lit(1, 0, 1)),
            op: BinOp::Add,
            rhs: Box::new(ident("y", 4, 5)),
        },
        loc: sp(0, 5),
    };
    let ck: CkExpression = from_ast(e);
    match ck.expr {
        CkExpr::Binary { lhs, op, rhs } => {
            assert_eq!(op, BinOp::Add);
            assert!(matches!(lhs.expr, CkExpr::IntLit(1)));
            assert_eq!(lhs.typ, Type::Unknown);
            match rhs.expr {
                CkExpr::Ident(MaybeUnresolved::Unresolved(n)) => assert_eq!(n, "y"),
                _ => panic!("expected an unresolved identifier"),
            }
        },
        _ => panic!("expected a binary expression"),
    }
}

#[test]
fn unary_and_grouping_translate() {
    let e = Expression {
        expr: Expr::Unary {
            op: UnaryOp::Neg,
            expr: Box::new(Expression {
                expr: Expr::Grouping(Box::new(int_lit(9, 1, 2))),
                loc: sp(0, 3),
            }),
        },
        loc: sp(0, 3),
    };
    let ck: CkExpression = from_ast(e);
    match ck.expr {
        CkExpr::Unary { op, expr } => {
            assert_eq!(op, UnaryOp::Neg);
            match expr.expr {
                CkExpr::Grouping(inner) => assert!(matches!(inner.expr, CkExpr::IntLit(9))),
                _ => panic!("expected a grouping"),
            }
        },
        _ => panic!("expected a unary expression"),
    }
}

#[test]
fn call_expression_translates_arguments() {
    let e = Expression {
        expr: Expr::FunCall {
            called: Box::new(ident("f", 0, 1)),
            args: vec![int_lit(1, 2, 3), int_lit(2, 4, 5)],
        },
        loc: sp(0, 6),
    };
    let ck: CkExpression = from_ast(e);
    match ck.expr {
        CkExpr::FunCall { called, args } => {
            assert!(matches!(
                called.expr,
                CkExpr::Ident(MaybeUnresolved::Unresolved(_))
            ));
            assert_eq!(args.len(), 2);
            assert!(matches!(args[0].expr, CkExpr::IntLit(1)));
            assert!(matches!(args[1].expr, CkExpr::IntLit(2)));
        },
        _ => panic!("expected a call"),
    }
}

#[test]
fn variable_def_gets_unresolved_symbol() {
    let st = Statement {
        stmt: Stmt::VariableDef {
            vis: Vis::Private,
            name: "count".to_string(),
            name_loc: sp(4, 9),
            typ: None,
            value: Some(int_lit(0, 12, 13)),
        },
        loc: sp(0, 13),
    };
    let ck: CkStatement = from_ast(st);
    assert_eq!(ck.loc, sp(0, 13));
    match ck.stmt {
        CkStmt::VariableDef { vis, name, name_loc, typ, value, sym } => {
            assert_eq!(vis, Vis::Private);
            assert_eq!(name, "count");
            assert_eq!(name_loc, sp(4, 9));
            assert!(typ.is_none());
            assert!(matches!(value, Some(ref v) if matches!(v.expr, CkExpr::IntLit(0))));
            match sym {
                MaybeUnresolved::Unresolved(n) => assert_eq!(n, "count"),
                _ => panic!("expected an unresolved symbol"),
            }
        },
        _ => panic!("expected a variable definition"),
    }
}

#[test]
fn chunk_translates_statement_by_statement() {
    let chunk = Chunk {
        stmts: vec![
            Statement {
                stmt: Stmt::Assignement {
                    variable: "x".to_string(),
                    value: int_lit(1, 4, 5),
                },
                loc: sp(0, 5),
            },
            Statement {
                stmt: Stmt::Return { val: None },
                loc: sp(6, 12),
            },
        ],
        loc: sp(0, 12),
    };
    let ck: CkChunk = from_ast(chunk);
    assert_eq!(ck.loc, sp(0, 12));
    assert_eq!(ck.stmts.len(), 2);
    match &ck.stmts[0].stmt {
        CkStmt::Assignement { variable, value } => {
            assert!(matches!(variable, MaybeUnresolved::Unresolved(n) if n == "x"));
            assert!(matches!(value.expr, CkExpr::IntLit(1)));
        },
        _ => panic!("expected an assignment"),
    }
    assert!(matches!(&ck.stmts[1].stmt, CkStmt::Return { val: None }));
}

#[test]
fn if_then_else_translates_all_arms() {
    let body = Chunk { stmts: vec![], loc: sp(10, 11) };
    let st = Statement {
        stmt: Stmt::IfThenElse {
            cond: ident("c", 3, 4),
            body: Chunk { stmts: vec![], loc: sp(5, 6) },
            else_ifs: vec![ElseIf {
                cond: ident("d", 7, 8),
                body: Chunk { stmts: vec![], loc: sp(8, 9) },
                loc: sp(7, 9),
            }],
            else_body: Some(body),
        },
        loc: sp(0, 11),
    };
    let ck: CkStatement = from_ast(st);
    match ck.stmt {
        CkStmt::IfThenElse { cond, body, else_ifs, else_body } => {
            assert!(matches!(cond.expr, CkExpr::Ident(_)));
            assert_eq!(body.loc, sp(5, 6));
            assert_eq!(else_ifs.len(), 1);
            assert_eq!(else_ifs[0].loc, sp(7, 9));
            assert!(matches!(else_ifs[0].cond.expr, CkExpr::Ident(_)));
            assert_eq!(else_body.expect("else body").loc, sp(10, 11));
        },
        _ => panic!("expected a conditional"),
    }
}

#[test]
fn fun_def_translates_args_and_symbol() {
    let st = Statement {
        stmt: Stmt::FunDef {
            vis: Vis::Public,
            name: "f".to_string(),
            name_loc: sp(4, 5),
            args: vec![Arg {
                name: "a".to_string(),
                name_loc: sp(6, 7),
                typ: ident("int", 8, 11),
                loc: sp(6, 11),
            }],
            rettype: None,
            body: Chunk { stmts: vec![], loc: sp(12, 14) },
        },
        loc: sp(0, 14),
    };
    let ck: CkStatement = from_ast(st);
    match ck.stmt {
        CkStmt::FunDef { vis, name, args, rettype, body, sym, .. } => {
            assert_eq!(vis, Vis::Public);
            assert_eq!(name, "f");
            assert_eq!(args.len(), 1);
            assert_eq!(args[0].name, "a");
            assert!(matches!(args[0].typ.expr, CkExpr::Ident(_)));
            assert!(rettype.is_none());
            assert_eq!(body.loc, sp(12, 14));
            assert!(matches!(sym, MaybeUnresolved::Unresolved(n) if n == "f"));
        },
        _ => panic!("expected a function definition"),
    }
}

#[test]
fn while_for_do_and_fun_call_translate() {
    let mk = |stmt: Stmt, lo: usize, hi: usize| Statement { stmt, loc: sp(lo, hi) };
    let chunk = Chunk {
        stmts: vec![
            mk(
                Stmt::While { cond: ident("c", 0, 1), body: Chunk { stmts: vec![], loc: sp(2, 3) } },
                0,
                3,
            ),
            mk(
                Stmt::For {
                    variable: "i".to_string(),
                    iterator: ident("xs", 5, 7),
                    body: Chunk { stmts: vec![], loc: sp(8, 9) },
                },
                4,
                9,
            ),
            mk(Stmt::DoBlock { body: Chunk { stmts: vec![], loc: sp(10, 11) } }, 10, 11),
            mk(
                Stmt::FunCall { name: "g".to_string(), args: vec![int_lit(7, 13, 14)] },
                12,
                15,
            ),
            mk(Stmt::Break { val: Some(int_lit(1, 17, 18)) }, 16, 18),
        ],
        loc: sp(0, 18),
    };
    let ck: CkChunk = from_ast(chunk);
    assert!(matches!(&ck.stmts[0].stmt, CkStmt::While { .. }));
    match &ck.stmts[1].stmt {
        CkStmt::For { variable, .. } => assert_eq!(variable, "i"),
        _ => panic!("expected a for loop"),
    }
    assert!(matches!(&ck.stmts[2].stmt, CkStmt::DoBlock { .. }));
    match &ck.stmts[3].stmt {
        CkStmt::FunCall { name, args } => {
            assert!(matches!(name, MaybeUnresolved::Unresolved(n) if n == "g"));
            assert_eq!(args.len(), 1);
        },
        _ => panic!("expected a call statement"),
    }
    assert!(matches!(&ck.stmts[4].stmt, CkStmt::Break { val: Some(_) }));
}

#[test]
fn generic_from_ast_lifts_over_option_vec_and_box() {
    let v: Vec<CkExpression> = from_ast(vec![int_lit(1, 0, 1), int_lit(2, 2, 3)]);
    assert_eq!(v.len(), 2);
    assert!(matches!(v[0].expr, CkExpr::IntLit(1)));
    assert!(matches!(v[1].expr, CkExpr::IntLit(2)));

    let o: Option<CkExpression> = from_ast(Some(int_lit(3, 0, 1)));
    assert!(matches!(o.expect("some").expr, CkExpr::IntLit(3)));
    let n: Option<CkExpression> = from_ast(None);
    assert!(n.is_none());

    let b: Box<CkExpression> = from_ast(int_lit(4, 0, 1));
    assert!(matches!(b.expr, CkExpr::IntLit(4)));
}

#[test]
fn unwrap_returns_resolved_symbol() {
    let m = MaybeUnresolved::Resolved(Symbol { name: "f".to_string(), id: 7 });
    let s = m.unwrap();
    assert_eq!(s.name, "f");
    assert_eq!(s.id, 7);
}

#[test]
fn trait_method_matches_free_function() {
    let ck = CkExpression::from_ast(int_lit(11, 0, 2));
    assert!(matches!(ck.expr, CkExpr::IntLit(11)));
}
