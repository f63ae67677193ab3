use rr::legacy::codegen::emit::{Emitter, MapEntry};
use rr::legacy::ir::{IRExpr, IRExprKind, IRLValue, IRProgram, IRStmt, IRStmtKind};
use rr::mir::flow::Facts;
use rr::syntax::ast::{BinOp, FloatLit, Lit, UnaryOp};
use rr::utils::Span;

fn sp(line: u32, col: u32) -> Span {
    Span { start_line: line, start_col: col, end_line: line, end_col: col + 1 }
}

fn nowhere() -> Span {
    Span::default()
}

fn e(kind: IRExprKind) -> IRExpr {
    IRExpr::new(kind, nowhere())
}

fn name(n: &str) -> IRExpr {
    e(IRExprKind::Name(n.to_string()))
}

fn int_lit(i: i64) -> IRExpr {
    e(IRExprKind::Lit(Lit::Int(i)))
}

fn with_facts(mut x: IRExpr, bits: u32) -> IRExpr {
    x.facts = Facts::from_bits(bits);
    x
}

fn bin(op: BinOp, l: IRExpr, r: IRExpr) -> IRExpr {
    e(IRExprKind::Binary { op, lhs: Box::new(l), rhs: Box::new(r) })
}

fn call(f: &str, args: Vec<IRExpr>) -> IRExpr {
    e(IRExprKind::Call { callee: Box::new(name(f)), args })
}

fn stmt(kind: IRStmtKind, span: Span) -> IRStmt {
    IRStmt { kind, span }
}

fn assign(n: &str, v: IRExpr, span: Span) -> IRStmt {
    stmt(IRStmtKind::Assign { target: IRLValue::Name(n.to_string()), value: v }, span)
}

fn expr_stmt(x: IRExpr, span: Span) -> IRStmt {
    stmt(IRStmtKind::ExprStmt { expr: x }, span)
}

fn emit(stmts: Vec<IRStmt>, with_runtime: bool, runtime: &str) -> (String, Vec<MapEntry>) {
    let mut em = Emitter::new();
    em.emit_program(IRProgram { stmts }, with_runtime, runtime).ok().unwrap()
}

fn emit_expr(x: IRExpr, with_runtime: bool) -> String {
    let (out, _) = emit(vec![expr_stmt(x, nowhere())], with_runtime, "");
    out
}

fn lines(map: &[MapEntry]) -> Vec<(u32, u32)> {
    map.iter().map(|m| (m.r_line, m.rr_span.start_line)).collect()
}

#[test]
fn assignment_without_runtime() {
    let (out, map) = emit(vec![assign("x", int_lit(1), sp(3, 5))], false, "");
    assert_eq!(out, "x <- 1L;\n");
    assert_eq!(lines(&map), vec![(1, 3)]);
    assert_eq!(map[0].rr_span, sp(3, 5));
}

#[test]
fn runtime_prelude_and_marks() {
    let (out, map) = emit(vec![assign("x", int_lit(1), sp(3, 5))], true, "RT\n");
    assert_eq!(out, "RT\nrr_mark(3, 5);\nx <- 1L;\n");
    assert_eq!(lines(&map), vec![(2, 3)]);
}

#[test]
fn synthetic_statements_get_no_mark_and_no_entry() {
    let (out, map) = emit(vec![assign("x", int_lit(1), nowhere())], true, "");
    assert_eq!(out, "x <- 1L;\n");
    assert!(map.is_empty());
}

#[test]
fn function_definition_and_nested_entries() {
    let body = vec![stmt(
        IRStmtKind::Return { value: Some(bin(BinOp::Add, name("a"), name("b"))) },
        sp(2, 3),
    )];
    let f = stmt(
        IRStmtKind::FnDecl {
            name: "f".to_string(),
            params: vec!["a".to_string(), "b".to_string()],
            body,
        },
        sp(1, 1),
    );
    let (out, map) = emit(vec![f], false, "");
    assert_eq!(out, "f <- function(a, b) {\n  return((a + b));\n};\n");
    assert_eq!(lines(&map), vec![(1, 1), (2, 2)]);
}

#[test]
fn function_with_runtime_marks_each_located_statement() {
    let body = vec![stmt(IRStmtKind::Return { value: None }, sp(2, 3))];
    let f = stmt(
        IRStmtKind::FnDecl { name: "g".to_string(), params: vec![], body },
        sp(1, 1),
    );
    let (out, map) = emit(vec![f], true, "");
    assert_eq!(
        out,
        "rr_mark(1, 1);\ng <- function() {\n  rr_mark(2, 3);\n  return(NULL);\n};\n"
    );
    assert_eq!(lines(&map), vec![(1, 1), (3, 2)]);
}

#[test]
fn conditional_with_else() {
    let s = stmt(
        IRStmtKind::If {
            cond: e(IRExprKind::Lit(Lit::Bool(true))),
            then_blk: vec![assign("x", int_lit(1), sp(2, 1))],
            else_blk: Some(vec![assign("x", int_lit(2), sp(4, 1))]),
        },
        sp(1, 1),
    );
    let (out, map) = emit(vec![s], false, "");
    assert_eq!(out, "if (rr_truthy1(TRUE)) {\n  x <- 1L;\n} else {\n  x <- 2L;\n}\n");
    assert_eq!(lines(&map), vec![(1, 1), (2, 2), (4, 4)]);
}

#[test]
fn conditional_without_else_and_while_loop() {
    let s1 = stmt(
        IRStmtKind::If { cond: name("c"), then_blk: vec![], else_blk: None },
        nowhere(),
    );
    let s2 = stmt(IRStmtKind::While { cond: name("c"), body: vec![] }, nowhere());
    let (out, _) = emit(vec![s1, s2], false, "");
    assert_eq!(out, "if (rr_truthy1(c)) {\n}\nwhile (rr_truthy1(c)) {\n}\n");
}

#[test]
fn for_loop_over_range() {
    let s = stmt(
        IRStmtKind::For {
            var: "i".to_string(),
            seq: e(IRExprKind::RrRange { a: Box::new(int_lit(1)), b: Box::new(int_lit(10)) }),
            body: vec![expr_stmt(call("print", vec![name("i")]), nowhere())],
        },
        nowhere(),
    );
    let (out, _) = emit(vec![s], false, "");
    assert_eq!(out, "for (i in rr_range(1L, 10L)) {\n  print(i);\n}\n");
}

#[test]
fn literals() {
    assert_eq!(emit_expr(int_lit(-3), false), "-3L;\n");
    let f = FloatLit { bits: 2.5f64.to_bits(), text: "2.5".to_string() };
    assert_eq!(emit_expr(e(IRExprKind::Lit(Lit::Float(f))), false), "2.5;\n");
    assert_eq!(emit_expr(e(IRExprKind::Lit(Lit::Bool(false))), false), "FALSE;\n");
    assert_eq!(emit_expr(e(IRExprKind::Lit(Lit::Null)), false), "NULL;\n");
    assert_eq!(emit_expr(e(IRExprKind::Lit(Lit::Na)), false), "NA;\n");
}

#[test]
fn string_literals_are_escaped() {
    let s = e(IRExprKind::Lit(Lit::Str("a\"b\\c\nd\te\rf".to_string())));
    assert_eq!(emit_expr(s, false), "\"a\\\"b\\\\c\\nd\\te\\rf\";\n");
}

#[test]
fn escaped_strings_keep_line_numbers_exact() {
    let s1 = expr_stmt(e(IRExprKind::Lit(Lit::Str("one\ntwo".to_string()))), sp(1, 1));
    let s2 = assign("y", int_lit(0), sp(2, 1));
    let (out, map) = emit(vec![s1, s2], false, "");
    assert_eq!(out, "\"one\\ntwo\";\ny <- 0L;\n");
    assert_eq!(lines(&map), vec![(1, 1), (2, 2)]);
}

#[test]
fn names_with_newlines_advance_the_line_count() {
    let s1 = expr_stmt(name("a\nb"), sp(1, 1));
    let s2 = assign("y", int_lit(0), sp(2, 1));
    let (out, map) = emit(vec![s1, s2], false, "");
    assert_eq!(out, "a\nb;\ny <- 0L;\n");
    assert_eq!(lines(&map), vec![(1, 1), (3, 2)]);
}

#[test]
fn operators() {
    assert_eq!(
        emit_expr(e(IRExprKind::Unary { op: UnaryOp::Neg, rhs: Box::new(name("x")) }), false),
        "-(x);\n"
    );
    assert_eq!(
        emit_expr(e(IRExprKind::Unary { op: UnaryOp::Not, rhs: Box::new(name("x")) }), false),
        "!(x);\n"
    );
    assert_eq!(emit_expr(bin(BinOp::Mod, name("a"), int_lit(2)), false), "(a %% 2L);\n");
    assert_eq!(emit_expr(bin(BinOp::MatMul, name("a"), name("b")), false), "(a %*% b);\n");
    assert_eq!(emit_expr(bin(BinOp::And, name("a"), name("b")), false), "(a & b);\n");
    assert_eq!(emit_expr(bin(BinOp::Ne, name("a"), name("b")), false), "(a != b);\n");
}

#[test]
fn vector_arithmetic_is_length_checked_with_runtime() {
    let v = bin(BinOp::Add, with_facts(name("a"), Facts::IS_VECTOR), name("b"));
    assert_eq!(
        emit_expr(v, true),
        "({ .lhs <- a; .rhs <- b; rr_same_len(.lhs, .rhs, \"+\"); .lhs + .rhs });\n"
    );
    let v = bin(BinOp::Add, with_facts(name("a"), Facts::IS_VECTOR), name("b"));
    assert_eq!(emit_expr(v, false), "(a + b);\n");
    let c = bin(BinOp::Lt, with_facts(name("a"), Facts::IS_VECTOR), name("b"));
    assert_eq!(emit_expr(c, true), "(a < b);\n");
}

#[test]
fn index_reads() {
    let safe = Facts::INT_SCALAR | Facts::NON_NEG | Facts::NON_NA;
    let folded = with_facts(bin(BinOp::Sub, name("i"), int_lit(1)), safe);
    let x = e(IRExprKind::Index1D { base: Box::new(name("x")), idx: Box::new(folded) });
    assert_eq!(emit_expr(x, false), "x[(i)];\n");

    let x = e(IRExprKind::Index1D {
        base: Box::new(name("x")),
        idx: Box::new(with_facts(name("j"), safe)),
    });
    assert_eq!(emit_expr(x, false), "x[(j) + 1L];\n");

    let x = e(IRExprKind::Index1D { base: Box::new(name("x")), idx: Box::new(name("j")) });
    assert_eq!(emit_expr(x, false), "rr_index1_read(x, j, \"index\");\n");

    let x = e(IRExprKind::Index2D {
        base: Box::new(name("m")),
        r: Box::new(name("r")),
        c: Box::new(name("c")),
    });
    assert_eq!(
        emit_expr(x, false),
        "m[rr_i0_read(r, \"row\") + 1L, rr_i0_read(c, \"col\") + 1L];\n"
    );

    let x = e(IRExprKind::Slice1D {
        base: Box::new(name("x")),
        a: Box::new(int_lit(0)),
        b: Box::new(int_lit(2)),
    });
    assert_eq!(emit_expr(x, false), "x[rr_range(0L, 2L) + 1L];\n");
}

#[test]
fn index_writes() {
    let target = IRLValue::Index1D { base: Box::new(name("x")), idx: Box::new(name("j")) };
    let s = stmt(IRStmtKind::Assign { target, value: int_lit(0) }, nowhere());
    let (out, _) = emit(vec![s], false, "");
    assert_eq!(out, "x[rr_index1_write(j, \"index\")] <- 0L;\n");

    let target = IRLValue::Index1D {
        base: Box::new(name("x")),
        idx: Box::new(bin(BinOp::Sub, name("i"), int_lit(1))),
    };
    let s = stmt(IRStmtKind::Assign { target, value: int_lit(0) }, nowhere());
    let (out, _) = emit(vec![s], false, "");
    assert_eq!(out, "x[(i)] <- 0L;\n");

    let target = IRLValue::Index2D {
        base: Box::new(name("m")),
        r: Box::new(name("r")),
        c: Box::new(name("c")),
    };
    let s = stmt(IRStmtKind::Assign { target, value: int_lit(0) }, nowhere());
    let (out, _) = emit(vec![s], false, "");
    assert_eq!(out, "m[rr_i0_write(r, \"row\") + 1L, rr_i0_write(c, \"col\") + 1L] <- 0L;\n");
}

#[test]
fn calls_and_composite_literals() {
    assert_eq!(emit_expr(call("f", vec![]), false), "f();\n");
    assert_eq!(emit_expr(call("f", vec![int_lit(1), name("y")]), false), "f(1L, y);\n");
    assert_eq!(emit_expr(e(IRExprKind::VectorLit(vec![int_lit(1), int_lit(2)])), false), "c(1L, 2L);\n");
    let l = e(IRExprKind::ListLit(vec![("a".to_string(), int_lit(1)), ("b".to_string(), name("z"))]));
    assert_eq!(emit_expr(l, false), "list(a=1L, b=z);\n");
    assert_eq!(emit_expr(e(IRExprKind::RrIndices { x: Box::new(name("x")) }), false), "rr_indices(x);\n");
}

#[test]
fn a_second_program_continues_the_text_and_hands_over_a_fresh_map() {
    let mut em = Emitter::new();
    let (out1, map1) = em
        .emit_program(IRProgram { stmts: vec![assign("x", int_lit(1), sp(1, 1))] }, false, "")
        .ok()
        .unwrap();
    assert_eq!(out1, "x <- 1L;\n");
    assert_eq!(lines(&map1), vec![(1, 1)]);
    let (out2, map2) = em
        .emit_program(IRProgram { stmts: vec![assign("y", int_lit(2), sp(5, 1))] }, false, "")
        .ok()
        .unwrap();
    assert_eq!(out2, "x <- 1L;\ny <- 2L;\n");
    assert_eq!(lines(&map2), vec![(2, 5)]);
}
