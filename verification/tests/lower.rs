use rr::error::{RRCode, Stage};
use rr::ir::lower::Lowerer;
use rr::legacy::codegen::emit::Emitter;
use rr::legacy::ir::IRProgram;
use rr::syntax::ast::{
    BinOp, Block, Expr, ExprKind, LValue, LValueKind, Lit, Program, Stmt, StmtKind,
};
use rr::utils::Span;

fn sp(line: u32) -> Span {
    Span { start_line: line, start_col: 1, end_line: line, end_col: 2 }
}

fn ex(kind: ExprKind) -> Expr {
    Expr { kind, span: Span::default() }
}

fn name(n: &str) -> Expr {
    ex(ExprKind::Name(n.to_string()))
}

fn int_lit(i: i64) -> Expr {
    ex(ExprKind::Lit(Lit::Int(i)))
}

fn call(f: &str, args: Vec<Expr>) -> Expr {
    ex(ExprKind::Call { callee: Box::new(name(f)), args })
}

fn bin(op: BinOp, l: Expr, r: Expr) -> Expr {
    ex(ExprKind::Binary { op, lhs: Box::new(l), rhs: Box::new(r) })
}

fn range(a: Expr, b: Expr) -> Expr {
    ex(ExprKind::Range { a: Box::new(a), b: Box::new(b) })
}

fn index(base: Expr, idx: Vec<Expr>) -> Expr {
    ex(ExprKind::Index { base: Box::new(base), idx })
}

fn st(kind: StmtKind) -> Stmt {
    Stmt { kind, span: Span::default() }
}

fn expr_stmt(e: Expr) -> Stmt {
    st(StmtKind::ExprStmt { expr: e })
}

fn block(stmts: Vec<Stmt>) -> Block {
    Block { stmts, span: Span::default() }
}

fn emit(p: IRProgram) -> String {
    let mut em = Emitter::new();
    em.emit_program(p, false, "").ok().unwrap().0
}

fn lower_text(stmts: Vec<Stmt>, optimize: bool) -> String {
    let p = Lowerer::new(optimize).lower_program(Program { stmts }).ok().unwrap();
    emit(p)
}

fn lower_error(stmts: Vec<Stmt>) -> rr::error::RRException {
    match Lowerer::new(false).lower_program(Program { stmts }) {
        Ok(_) => panic!("lowering must fail"),
        Err(e) => e,
    }
}

fn index_loop(body: Vec<Stmt>) -> Stmt {
    let last = bin(BinOp::Sub, call("len", vec![name("x")]), int_lit(1));
    st(StmtKind::For { var: "i".to_string(), iter: range(int_lit(0), last), body: block(body) })
}

fn x_at_i() -> Expr {
    index(name("x"), vec![name("i")])
}

#[test]
fn let_and_expression_statements() {
    let stmts = vec![
        Stmt { kind: StmtKind::Let { name: "x".to_string(), init: int_lit(1) }, span: sp(1) },
        expr_stmt(call("print", vec![name("x")])),
    ];
    assert_eq!(lower_text(stmts, false), "x <- 1L;\nprint(x);\n");
}

#[test]
fn callee_aliases_become_canonical_names() {
    assert_eq!(lower_text(vec![expr_stmt(call("len", vec![name("x")]))], false), "length(x);\n");
    assert_eq!(lower_text(vec![expr_stmt(call("vec_int", vec![int_lit(3)]))], false), "integer(3L);\n");
    assert_eq!(lower_text(vec![expr_stmt(call("vec_str", vec![int_lit(3)]))], false), "character(3L);\n");
    assert_eq!(lower_text(vec![expr_stmt(call("indices", vec![name("x")]))], false), "rr_indices(x);\n");
    assert_eq!(
        lower_text(vec![expr_stmt(call("rr_range", vec![int_lit(1), int_lit(3)]))], false),
        "rr_range(1L, 3L);\n"
    );
}

#[test]
fn ranges_and_indexing() {
    assert_eq!(lower_text(vec![expr_stmt(range(name("a"), name("b")))], false), "rr_range(a, b);\n");
    assert_eq!(lower_text(vec![expr_stmt(x_at_i())], false), "rr_index1_read(x, i, \"index\");\n");
    assert_eq!(
        lower_text(vec![expr_stmt(index(name("x"), vec![range(int_lit(1), int_lit(3))]))], false),
        "x[rr_range(1L, 3L) + 1L];\n"
    );
    assert_eq!(
        lower_text(vec![expr_stmt(index(name("m"), vec![name("i"), name("j")]))], false),
        "m[rr_i0_read(i, \"row\") + 1L, rr_i0_read(j, \"col\") + 1L];\n"
    );
}

#[test]
fn indexed_assignment() {
    let target = LValue {
        kind: LValueKind::Index { base: name("y"), idx: vec![name("i")] },
        span: Span::default(),
    };
    let s = st(StmtKind::Assign { target, value: int_lit(0) });
    assert_eq!(lower_text(vec![s], false), "y[rr_index1_write(i, \"index\")] <- 0L;\n");
}

#[test]
fn pipe_lowers_like_a_call_with_the_left_side_first() {
    let piped = ex(ExprKind::Pipe { lhs: Box::new(name("x")), rhs_call: Box::new(call("f", vec![int_lit(1)])) });
    assert_eq!(lower_text(vec![expr_stmt(piped)], false), "f(x, 1L);\n");
    assert_eq!(
        lower_text(vec![expr_stmt(call("f", vec![name("x"), int_lit(1)]))], false),
        "f(x, 1L);\n"
    );
}

#[test]
fn break_is_refused() {
    let e = lower_error(vec![st(StmtKind::Break)]);
    assert_eq!(e.module, "RR.FeatureError");
    assert_eq!(e.code, RRCode::E9999);
    assert_eq!(e.stage, Stage::Lower);
    assert_eq!(e.message, "break/next are only supported in MIR pipeline");
    assert_eq!(e.frames.len(), 1);
    assert_eq!(e.frames[0].name, "Lowerer.lower_stmt/1");
    assert!(e.frames[0].span.is_none());
}

#[test]
fn next_inside_a_loop_is_refused() {
    let w = st(StmtKind::While { cond: name("c"), body: block(vec![st(StmtKind::Next)]) });
    let e = lower_error(vec![w]);
    assert_eq!(e.module, "RR.FeatureError");
    assert_eq!(e.message, "break/next are only supported in MIR pipeline");
}

#[test]
fn three_subscripts_are_refused() {
    let e = lower_error(vec![expr_stmt(index(name("a"), vec![int_lit(1), int_lit(2), int_lit(3)]))]);
    assert_eq!(e.module, "RR.SemanticError");
    assert_eq!(e.code, RRCode::E1002);
    assert_eq!(e.stage, Stage::Lower);
    assert_eq!(e.message, "RR v1.0 only supports 1D and 2D indexing");
}

#[test]
fn pipe_into_a_non_call_is_refused() {
    let piped = ex(ExprKind::Pipe { lhs: Box::new(name("x")), rhs_call: Box::new(name("f")) });
    let e = lower_error(vec![expr_stmt(piped)]);
    assert_eq!(e.module, "RR.SemanticError");
    assert_eq!(e.code, RRCode::E1002);
    assert_eq!(e.message, "Pipe RHS must be a Call");
}

#[test]
fn newer_expression_forms_are_refused() {
    let forms = vec![
        ex(ExprKind::Match { scrutinee: Box::new(name("x")) }),
        ex(ExprKind::Try { expr: Box::new(name("x")) }),
        ex(ExprKind::ColRef("col".to_string())),
        ex(ExprKind::Unquote(Box::new(name("x")))),
    ];
    for f in forms {
        let e = lower_error(vec![expr_stmt(f)]);
        assert_eq!(e.module, "RR.FeatureError");
        assert_eq!(e.code, RRCode::E9999);
        assert_eq!(e.message, "v6 Feature (Match/Try/Tidy) not supported in legacy IR");
    }
}

#[test]
fn first_error_wins() {
    let stmts = vec![
        expr_stmt(index(name("a"), vec![int_lit(1), int_lit(2), int_lit(3)])),
        st(StmtKind::Break),
    ];
    assert_eq!(lower_error(stmts).message, "RR v1.0 only supports 1D and 2D indexing");
}

#[test]
fn unoptimized_loops_keep_their_range() {
    let body = vec![expr_stmt(call("print", vec![name("i")]))];
    assert_eq!(
        lower_text(vec![index_loop(body)], false),
        "for (i in rr_range(0L, (length(x) - 1L))) {\n  print(i);\n}\n"
    );
}

#[test]
fn optimized_index_loops_count_from_one() {
    let body = vec![expr_stmt(call("print", vec![name("i")]))];
    assert_eq!(
        lower_text(vec![index_loop(body)], true),
        "for (i in rr_range(1L, length(x))) {\n  print((i - 1L));\n}\n"
    );
}

#[test]
fn optimized_map_loop_becomes_one_vector_call() {
    let target = LValue {
        kind: LValueKind::Index { base: name("y"), idx: vec![name("i")] },
        span: Span::default(),
    };
    let body = vec![st(StmtKind::Assign { target, value: call("sqrt", vec![x_at_i()]) })];
    assert_eq!(lower_text(vec![index_loop(body)], true), "y <- sqrt(x);\n");
}

#[test]
fn optimized_sum_loop_becomes_a_reduction() {
    let target = LValue { kind: LValueKind::Name("acc".to_string()), span: Span::default() };
    let body = vec![st(StmtKind::Assign { target, value: bin(BinOp::Add, name("acc"), x_at_i()) })];
    assert_eq!(lower_text(vec![index_loop(body)], true), "acc <- (acc + sum(x));\n");
}

#[test]
fn optimized_loop_over_an_unlowerable_sequence_iterates_null() {
    let iter = ex(ExprKind::Match { scrutinee: Box::new(name("x")) });
    let s = st(StmtKind::For { var: "i".to_string(), iter, body: block(vec![]) });
    assert_eq!(lower_text(vec![s], true), "for (i in NULL) {\n}\n");
}

#[test]
fn optimized_loop_bound_that_cannot_lower_is_an_error() {
    let bad = ex(ExprKind::Match { scrutinee: Box::new(name("x")) });
    let last = bin(BinOp::Sub, call("len", vec![bad]), int_lit(1));
    let s = st(StmtKind::For { var: "i".to_string(), iter: range(int_lit(0), last), body: block(vec![]) });
    match Lowerer::new(true).lower_program(Program { stmts: vec![s] }) {
        Ok(_) => panic!("lowering must fail"),
        Err(e) => assert_eq!(e.message, "v6 Feature (Match/Try/Tidy) not supported in legacy IR"),
    }
}
