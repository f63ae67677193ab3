use rr::ir::analyze::Analyzer;
use rr::legacy::ir::optimize::Optimizer;
use rr::legacy::codegen::emit::Emitter;
use rr::legacy::ir::{IRExpr, IRExprKind, IRLValue, IRProgram, IRStmt, IRStmtKind, Shape, Ty};
use rr::mir::flow::Facts;
use rr::syntax::ast::{BinOp, FloatLit, Lit};
use rr::utils::Span;

fn e(kind: IRExprKind) -> IRExpr {
    IRExpr::new(kind, Span::default())
}

fn name(n: &str) -> IRExpr {
    e(IRExprKind::Name(n.to_string()))
}

fn int_lit(i: i64) -> IRExpr {
    e(IRExprKind::Lit(Lit::Int(i)))
}

fn float(x: f64) -> IRExpr {
    e(IRExprKind::Lit(Lit::Float(FloatLit { bits: x.to_bits(), text: format!("{}", x) })))
}

fn bin(op: BinOp, l: IRExpr, r: IRExpr) -> IRExpr {
    e(IRExprKind::Binary { op, lhs: Box::new(l), rhs: Box::new(r) })
}

fn assign(n: &str, v: IRExpr) -> IRStmt {
    IRStmt { kind: IRStmtKind::Assign { target: IRLValue::Name(n.to_string()), value: v }, span: Span::default() }
}

fn expr_stmt(x: IRExpr) -> IRStmt {
    IRStmt { kind: IRStmtKind::ExprStmt { expr: x }, span: Span::default() }
}

fn analyzed(stmts: Vec<IRStmt>) -> IRProgram {
    let mut p = IRProgram { stmts };
    let mut a = Analyzer::new();
    a.analyze_program(&mut p);
    p
}

fn value_of(s: &IRStmt) -> &IRExpr {
    match &s.kind {
        IRStmtKind::Assign { value, .. } => value,
        IRStmtKind::ExprStmt { expr } => expr,
        _ => panic!("expected an assignment or an expression statement"),
    }
}

#[test]
fn literals_get_types_and_facts() {
    let p = analyzed(vec![
        expr_stmt(int_lit(3)),
        expr_stmt(int_lit(-3)),
        expr_stmt(float(2.5)),
        expr_stmt(float(-2.5)),
        expr_stmt(e(IRExprKind::Lit(Lit::Bool(true)))),
        expr_stmt(e(IRExprKind::Lit(Lit::Str("s".to_string())))),
        expr_stmt(e(IRExprKind::Lit(Lit::Null))),
    ]);
    let v: Vec<&IRExpr> = p.stmts.iter().map(value_of).collect();
    assert_eq!((v[0].ty, v[0].shape, v[0].facts.bits()), (Ty::Int, Shape::Scalar, Facts::INT_SCALAR | Facts::NON_NEG));
    assert_eq!((v[1].ty, v[1].shape, v[1].facts.bits()), (Ty::Int, Shape::Scalar, Facts::INT_SCALAR));
    assert_eq!((v[2].ty, v[2].facts.bits()), (Ty::Float, Facts::NON_NEG));
    assert_eq!((v[3].ty, v[3].facts.bits()), (Ty::Float, 0));
    assert_eq!((v[4].ty, v[4].facts.bits()), (Ty::Bool, Facts::BOOL_SCALAR));
    assert_eq!((v[5].ty, v[5].shape, v[5].facts.bits()), (Ty::Str, Shape::Scalar, 0));
    assert_eq!((v[6].ty, v[6].shape), (Ty::Any, Shape::Unknown));
}

#[test]
fn assignments_carry_annotations_to_later_uses() {
    let p = analyzed(vec![assign("x", int_lit(1)), assign("y", name("x")), expr_stmt(name("z"))]);
    let y = value_of(&p.stmts[1]);
    assert_eq!((y.ty, y.shape, y.facts.bits()), (Ty::Int, Shape::Scalar, 5));
    let z = value_of(&p.stmts[2]);
    assert_eq!((z.ty, z.shape, z.facts.bits()), (Ty::Any, Shape::Unknown, 0));
}

#[test]
fn operators_combine_shapes() {
    let p = analyzed(vec![
        expr_stmt(bin(BinOp::Add, int_lit(1), int_lit(2))),
        expr_stmt(bin(BinOp::Lt, int_lit(1), int_lit(2))),
        expr_stmt(bin(BinOp::Lt, e(IRExprKind::RrRange { a: Box::new(int_lit(1)), b: Box::new(int_lit(3)) }), int_lit(2))),
        expr_stmt(bin(BinOp::Add, e(IRExprKind::RrRange { a: Box::new(int_lit(1)), b: Box::new(int_lit(3)) }), int_lit(2))),
    ]);
    let v: Vec<&IRExpr> = p.stmts.iter().map(value_of).collect();
    assert_eq!((v[0].ty, v[0].shape, v[0].facts.bits()), (Ty::Int, Shape::Scalar, Facts::INT_SCALAR));
    assert_eq!((v[1].ty, v[1].shape, v[1].facts.bits()), (Ty::Bool, Shape::Scalar, Facts::BOOL_SCALAR));
    assert_eq!((v[2].ty, v[2].shape, v[2].facts.bits()), (Ty::Bool, Shape::Vec, 0));
    assert_eq!((v[3].ty, v[3].shape, v[3].facts.bits()), (Ty::Int, Shape::Vec, 0));
}

#[test]
fn loop_index_without_na_fact_keeps_the_checked_read() {
    let idx = e(IRExprKind::Index1D { base: Box::new(name("x")), idx: Box::new(name("i")) });
    let body = vec![expr_stmt(idx)];
    let f = IRStmt {
        kind: IRStmtKind::For {
            var: "i".to_string(),
            seq: e(IRExprKind::RrIndices { x: Box::new(name("x")) }),
            body,
        },
        span: Span::default(),
    };
    let p = analyzed(vec![f]);
    let mut em = Emitter::new();
    let (out, _) = em.emit_program(p, false, "").ok().unwrap();
    assert_eq!(out, "for (i in rr_indices(x)) {\n  rr_index1_read(x, i, \"index\");\n}\n");
}

#[test]
fn optimizer_leaves_plain_statements_alone() {
    let stmts = vec![assign("x", int_lit(1)), expr_stmt(name("x"))];
    let out = Optimizer::new().optimize_stmts(stmts);
    let mut em = Emitter::new();
    let (text, _) = em.emit_program(IRProgram { stmts: out }, false, "").ok().unwrap();
    assert_eq!(text, "x <- 1L;\nx;\n");
}

#[test]
fn optimizer_product_reduction_and_unary_map() {
    let acc = IRStmt {
        kind: IRStmtKind::For {
            var: "i".to_string(),
            seq: e(IRExprKind::RrIndices { x: Box::new(name("v")) }),
            body: vec![assign(
                "p",
                bin(BinOp::Mul, e(IRExprKind::Index1D { base: Box::new(name("v")), idx: Box::new(name("i")) }), name("p")),
            )],
        },
        span: Span::default(),
    };
    let map = IRStmt {
        kind: IRStmtKind::For {
            var: "i".to_string(),
            seq: e(IRExprKind::RrIndices { x: Box::new(name("v")) }),
            body: vec![IRStmt {
                kind: IRStmtKind::Assign {
                    target: IRLValue::Index1D { base: Box::new(name("w")), idx: Box::new(name("i")) },
                    value: bin(BinOp::Mul, e(IRExprKind::Index1D { base: Box::new(name("v")), idx: Box::new(name("i")) }), int_lit(2)),
                },
                span: Span::default(),
            }],
        },
        span: Span::default(),
    };
    let out = Optimizer::new().optimize_stmts(vec![acc, map]);
    let mut em = Emitter::new();
    let (text, _) = em.emit_program(IRProgram { stmts: out }, false, "").ok().unwrap();
    assert_eq!(text, "p <- (p * prod(v));\nw <- (v * 2L);\n");
}

fn sample_program() -> Vec<IRStmt> {
    vec![
        assign("x", int_lit(1)),
        assign("y", bin(BinOp::Add, name("x"), float(2.5))),
        expr_stmt(bin(BinOp::Lt, name("y"), int_lit(3))),
        IRStmt {
            kind: IRStmtKind::While {
                cond: bin(BinOp::Lt, name("x"), int_lit(10)),
                body: vec![assign("x", bin(BinOp::Add, name("x"), int_lit(1)))],
            },
            span: Span::default(),
        },
    ]
}

fn text_of(stmts: Vec<IRStmt>) -> String {
    let mut em = Emitter::new();
    em.emit_program(IRProgram { stmts }, false, "").ok().unwrap().0
}

#[test]
fn analysis_only_annotates() {
    let before = text_of(sample_program());
    let after = text_of(analyzed(sample_program()).stmts);
    assert_eq!(before, after);
    assert_eq!(analyzed(sample_program()).stmts.len(), 4);
}

#[test]
fn loop_rewrite_leaves_a_body_without_the_variable_alone() {
    let f = IRStmt {
        kind: IRStmtKind::For {
            var: "i".to_string(),
            seq: e(IRExprKind::RrIndices { x: Box::new(name("x")) }),
            body: vec![expr_stmt(e(IRExprKind::Call { callee: Box::new(name("print")), args: vec![int_lit(1)] }))],
        },
        span: Span::default(),
    };
    let out = Optimizer::new().optimize_stmts(vec![f]);
    assert_eq!(text_of(out), "for (i in rr_range(1L, length(x))) {\n  print(1L);\n}\n");
}

#[test]
fn optimized_loops_keep_their_source_location() {
    let at = Span { start_line: 7, start_col: 3, end_line: 9, end_col: 1 };
    let f = IRStmt {
        kind: IRStmtKind::For {
            var: "i".to_string(),
            seq: e(IRExprKind::RrIndices { x: Box::new(name("v")) }),
            body: vec![assign(
                "s",
                bin(BinOp::Add, name("s"), e(IRExprKind::Index1D { base: Box::new(name("v")), idx: Box::new(name("i")) })),
            )],
        },
        span: at,
    };
    let out = Optimizer::new().optimize_stmts(vec![f]);
    assert_eq!(out.len(), 1);
    assert_eq!(out[0].span, at);
    let mut em = Emitter::new();
    let (text, map) = em.emit_program(IRProgram { stmts: out }, false, "").ok().unwrap();
    assert_eq!(text, "s <- (s + sum(v));\n");
    assert_eq!(map.len(), 1);
    assert_eq!((map[0].r_line, map[0].rr_span), (1, at));
}
