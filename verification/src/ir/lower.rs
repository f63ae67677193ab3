//! Lowering from the AST to the legacy IR.
use vstd::prelude::*;

use crate::error::{RRCode, RRException, Stage, RR};
use crate::ir::analyze::{analyze_stmts_v, lemma_analyze_stmts_erase, Analyzer};
use crate::legacy::ir::optimize::{fresh, optimize_stmts_v, Optimizer};
use crate::legacy::ir::{
    erase_stmts, lemma_view_exprs, lemma_view_fields, lemma_view_stmts, view_expr, view_exprs, view_fields,
    view_kind, view_lvalue, view_stmt, view_stmts, ExprKindV, ExprV, IRExpr, IRExprKind, IRLValue,
    IRProgram, IRStmt, IRStmtKind, LValueV, StmtKindV, StmtV,
};
use crate::syntax::ast::{
    ast_expr_size, ast_exprs_size, ast_fields_size, lemma_ast_exprs_size_elem,
    lemma_ast_exprs_size_prepend, lemma_ast_fields_size_elem, lemma_view_ast_exprs,
    lemma_view_ast_fields, lemma_view_ast_stmts, view_ast_expr, view_ast_exprs, view_ast_fields,
    view_ast_kind, view_ast_lvalue, view_ast_stmt, view_ast_stmt_kind, view_ast_stmts, AstExprKindV,
    AstExprV,
    AstLValueV, AstStmtKindV, AstStmtV, BinOp, Expr, ExprKind, LValue, LValueKind, Lit, LitV,
    Program, Stmt, StmtKind,
};
use crate::text::str_eq;
use crate::utils::Span;

verus! {

/// Why lowering rejected a program.
#[derive(Debug, Clone, Copy, PartialEq, Eq)]
pub enum LowerErrorKind {
    /// `break` or `next`, which only the MIR pipeline supports.
    BreakNext,
    /// Indexing with other than one or two subscripts.
    IndexArity,
    /// A pipe whose right-hand side is not a call.
    PipeRhs,
    /// `match`, `?`, column references or unquoting.
    Unsupported,
}

pub open spec fn lower_error_module(k: LowerErrorKind) -> Seq<char> {
    match k {
        LowerErrorKind::BreakNext | LowerErrorKind::Unsupported => "RR.FeatureError"@,
        _ => "RR.SemanticError"@,
    }
}

pub open spec fn lower_error_code(k: LowerErrorKind) -> RRCode {
    match k {
        LowerErrorKind::BreakNext | LowerErrorKind::Unsupported => RRCode::E9999,
        _ => RRCode::E1002,
    }
}

pub open spec fn lower_error_message(k: LowerErrorKind) -> Seq<char> {
    match k {
        LowerErrorKind::BreakNext => "break/next are only supported in MIR pipeline"@,
        LowerErrorKind::IndexArity => "RR v1.0 only supports 1D and 2D indexing"@,
        LowerErrorKind::PipeRhs => "Pipe RHS must be a Call"@,
        LowerErrorKind::Unsupported => "v6 Feature (Match/Try/Tidy) not supported in legacy IR"@,
    }
}

/// The diagnostic reports the lowering error `k`, from the lowering stage,
/// having passed through no frame.
pub open spec fn reports(e: RRException, k: LowerErrorKind) -> bool {
    &&& e.module@ == lower_error_module(k)
    &&& e.code == lower_error_code(k)
    &&& e.stage == Stage::Lower
    &&& e.message@ == lower_error_message(k)
    &&& e.frames@.len() == 0
}

/// The canonical builtin or runtime name for a callee alias.
pub open spec fn canonical_callee(n: Seq<char>) -> Seq<char> {
    if n == "vec_int"@ {
        "integer"@
    } else if n == "vec_f64"@ {
        "numeric"@
    } else if n == "vec_bool"@ {
        "logical"@
    } else if n == "vec_str"@ {
        "character"@
    } else if n == "len"@ {
        "length"@
    } else if n == "range"@ {
        "rr_range"@
    } else if n == "indices"@ {
        "rr_indices"@
    } else {
        n
    }
}

/// The lowered call `callee(args)`: an aliased callee name is canonicalized,
/// and `rr_range(a, b)` and `rr_indices(x)` become the dedicated nodes.
pub open spec fn lower_call_v(c: ExprV, a: Seq<ExprV>, span: Span) -> ExprV {
    let c2 = match c.kind {
        ExprKindV::Name(n) => ExprV {
            kind: ExprKindV::Name(canonical_callee(n)),
            ty: c.ty,
            shape: c.shape,
            facts: c.facts,
            span: c.span,
        },
        _ => c,
    };
    match c2.kind {
        ExprKindV::Name(n) => if n == "rr_range"@ && a.len() == 2 {
            fresh(ExprKindV::RrRange { a: Box::new(a[0]), b: Box::new(a[1]) }, span)
        } else if n == "rr_indices"@ && a.len() == 1 {
            fresh(ExprKindV::RrIndices { x: Box::new(a[0]) }, span)
        } else {
            fresh(ExprKindV::Call { callee: Box::new(c2), args: a }, span)
        },
        _ => fresh(ExprKindV::Call { callee: Box::new(c2), args: a }, span),
    }
}

/// The lowered indexing `b[ix]`: one subscript that is a range makes a
/// slice, one other subscript a 1-D index, two a 2-D index.
pub open spec fn lower_index_v(b: ExprV, ix: Seq<ExprV>, span: Span) -> Result<ExprV, LowerErrorKind> {
    if ix.len() == 1 {
        match ix[0].kind {
            ExprKindV::RrRange { a, b: b2 } => Ok(
                fresh(ExprKindV::Slice1D { base: Box::new(b), a, b: b2 }, span),
            ),
            _ => Ok(fresh(ExprKindV::Index1D { base: Box::new(b), idx: Box::new(ix[0]) }, span)),
        }
    } else if ix.len() == 2 {
        Ok(
            fresh(
                ExprKindV::Index2D { base: Box::new(b), r: Box::new(ix[0]), c: Box::new(ix[1]) },
                span,
            ),
        )
    } else {
        Err(LowerErrorKind::IndexArity)
    }
}

/// The IR of an AST expression, or the first error met in evaluation
/// order. A pipe `x |> f(a)` lowers as the call `f(x, a)`.
pub open spec fn lower_expr_v(e: AstExprV) -> Result<ExprV, LowerErrorKind>
    decreases ast_expr_size(e), 0nat,
{
    match e.kind {
        AstExprKindV::Lit(l) => Ok(fresh(ExprKindV::Lit(l), e.span)),
        AstExprKindV::Name(n) => Ok(fresh(ExprKindV::Name(n), e.span)),
        AstExprKindV::Unary { op, rhs } => match lower_expr_v(*rhs) {
            Ok(r) => Ok(fresh(ExprKindV::Unary { op, rhs: Box::new(r) }, e.span)),
            Err(x) => Err(x),
        },
        AstExprKindV::Binary { op, lhs, rhs } => match lower_expr_v(*lhs) {
            Ok(l) => match lower_expr_v(*rhs) {
                Ok(r) => Ok(
                    fresh(ExprKindV::Binary { op, lhs: Box::new(l), rhs: Box::new(r) }, e.span),
                ),
                Err(x) => Err(x),
            },
            Err(x) => Err(x),
        },
        AstExprKindV::Range { a, b } => match lower_expr_v(*a) {
            Ok(la) => match lower_expr_v(*b) {
                Ok(lb) => Ok(
                    fresh(ExprKindV::RrRange { a: Box::new(la), b: Box::new(lb) }, e.span),
                ),
                Err(x) => Err(x),
            },
            Err(x) => Err(x),
        },
        AstExprKindV::VectorLit(v) => match lower_exprs_v(v) {
            Ok(vs) => Ok(fresh(ExprKindV::VectorLit(vs), e.span)),
            Err(x) => Err(x),
        },
        AstExprKindV::RecordLit(f) => match lower_fields_v(f) {
            Ok(fs) => Ok(fresh(ExprKindV::ListLit(fs), e.span)),
            Err(x) => Err(x),
        },
        AstExprKindV::Call { callee, args } => match lower_expr_v(*callee) {
            Ok(c) => match lower_exprs_v(args) {
                Ok(a) => Ok(lower_call_v(c, a, e.span)),
                Err(x) => Err(x),
            },
            Err(x) => Err(x),
        },
        AstExprKindV::Index { base, idx } => match lower_expr_v(*base) {
            Ok(b) => match lower_exprs_v(idx) {
                Ok(ix) => lower_index_v(b, ix, e.span),
                Err(x) => Err(x),
            },
            Err(x) => Err(x),
        },
        AstExprKindV::Pipe { lhs, rhs_call } => match rhs_call.kind {
            AstExprKindV::Call { callee, args } => {
                proof {
                    lemma_ast_exprs_size_prepend(*lhs, args);
                    assert(ast_expr_size(*rhs_call) == 1 + ast_expr_size(*callee) + ast_exprs_size(
                        args,
                    ));
                    let nc = AstExprV {
                        kind: AstExprKindV::Call { callee, args: seq![*lhs] + args },
                        span: e.span,
                    };
                    assert(ast_expr_size(nc) == 1 + ast_expr_size(*callee) + ast_exprs_size(
                        seq![*lhs] + args,
                    ));
                }
                lower_expr_v(
                    AstExprV {
                        kind: AstExprKindV::Call { callee, args: seq![*lhs] + args },
                        span: e.span,
                    },
                )
            },
            _ => Err(LowerErrorKind::PipeRhs),
        },
        _ => Err(LowerErrorKind::Unsupported),
    }
}

pub open spec fn lower_exprs_v(s: Seq<AstExprV>) -> Result<Seq<ExprV>, LowerErrorKind>
    decreases ast_exprs_size(s), s.len() + 1,
{
    if s.len() == 0 {
        Ok(Seq::empty())
    } else {
        proof {
            lemma_ast_exprs_size_elem(s, s.len() - 1);
        }
        match lower_exprs_v(s.drop_last()) {
            Ok(init) => match lower_expr_v(s.last()) {
                Ok(x) => Ok(init.push(x)),
                Err(x) => Err(x),
            },
            Err(x) => Err(x),
        }
    }
}

pub open spec fn lower_fields_v(s: Seq<(Seq<char>, AstExprV)>) -> Result<
    Seq<(Seq<char>, ExprV)>,
    LowerErrorKind,
>
    decreases ast_fields_size(s), s.len() + 1,
{
    if s.len() == 0 {
        Ok(Seq::empty())
    } else {
        proof {
            lemma_ast_fields_size_elem(s, s.len() - 1);
        }
        match lower_fields_v(s.drop_last()) {
            Ok(init) => match lower_expr_v(s.last().1) {
                Ok(x) => Ok(init.push((s.last().0, x))),
                Err(x) => Err(x),
            },
            Err(x) => Err(x),
        }
    }
}

/// The IR of an assignment target.
pub open spec fn lower_lvalue_v(lv: AstLValueV) -> Result<LValueV, LowerErrorKind> {
    match lv {
        AstLValueV::Name(n) => Ok(LValueV::Name(n)),
        AstLValueV::Index { base, idx } => match lower_expr_v(base) {
            Ok(b) => match lower_exprs_v(idx) {
                Ok(ix) => if idx.len() == 1 {
                    Ok(LValueV::Index1D { base: b, idx: ix[0] })
                } else if idx.len() == 2 {
                    Ok(LValueV::Index2D { base: b, r: ix[0], c: ix[1] })
                } else {
                    Err(LowerErrorKind::IndexArity)
                },
                Err(x) => Err(x),
            },
            Err(x) => Err(x),
        },
    }
}

pub open spec fn is_int_lit(e: AstExprV, i: i64) -> bool {
    e.kind == AstExprKindV::Lit(LitV::Int(i))
}

/// Recognizes the loop sequence `0 .. len(x) - 1` (or `length(x)`) and
/// lowers it to `indices(x)`.
pub open spec fn simplify_range_iter_v(e: AstExprV) -> Result<Option<ExprV>, LowerErrorKind> {
    match e.kind {
        AstExprKindV::Range { a, b } => if !is_int_lit(*a, 0) {
            Ok(None)
        } else {
            match b.kind {
                AstExprKindV::Binary { op: BinOp::Sub, lhs, rhs } => if !is_int_lit(*rhs, 1) {
                    Ok(None)
                } else {
                    match lhs.kind {
                        AstExprKindV::Call { callee, args } => if args.len() == 1 {
                            match callee.kind {
                                AstExprKindV::Name(n) => if n == "len"@ || n == "length"@ {
                                    match lower_expr_v(args[0]) {
                                        Ok(x) => Ok(
                                            Some(
                                                fresh(ExprKindV::RrIndices { x: Box::new(x) }, e.span),
                                            ),
                                        ),
                                        Err(k) => Err(k),
                                    }
                                } else {
                                    Ok(None)
                                },
                                _ => Ok(None),
                            }
                        } else {
                            Ok(None)
                        },
                        _ => Ok(None),
                    }
                },
                _ => Ok(None),
            }
        },
        _ => Ok(None),
    }
}

/// The lowered expression, or `NULL` where lowering fails.
pub open spec fn lower_expr_or_null_v(e: AstExprV) -> ExprV {
    match lower_expr_v(e) {
        Ok(x) => x,
        Err(_) => fresh(ExprKindV::Lit(LitV::Null), e.span),
    }
}

/// The lowered sequence of a `for` loop.
pub open spec fn lower_loop_seq_v(e: AstExprV, optimize: bool) -> Result<ExprV, LowerErrorKind> {
    if optimize {
        match simplify_range_iter_v(e) {
            Ok(Some(x)) => Ok(x),
            Ok(None) => Ok(lower_expr_or_null_v(e)),
            Err(k) => Err(k),
        }
    } else {
        lower_expr_v(e)
    }
}

/// The IR of a statement, or the first error met in evaluation order.
pub open spec fn lower_stmt_v(s: AstStmtV, optimize: bool) -> Result<StmtV, LowerErrorKind>
    decreases s,
{
    let kind: Result<StmtKindV, LowerErrorKind> = match s.kind {
        AstStmtKindV::Let { name, init } => match lower_expr_v(init) {
            Ok(v) => Ok(StmtKindV::Assign { target: LValueV::Name(name), value: v }),
            Err(k) => Err(k),
        },
        AstStmtKindV::Assign { target, value } => match lower_lvalue_v(target) {
            Ok(t) => match lower_expr_v(value) {
                Ok(v) => Ok(StmtKindV::Assign { target: t, value: v }),
                Err(k) => Err(k),
            },
            Err(k) => Err(k),
        },
        AstStmtKindV::ExprStmt { expr } => match lower_expr_v(expr) {
            Ok(v) => Ok(StmtKindV::ExprStmt { expr: v }),
            Err(k) => Err(k),
        },
        AstStmtKindV::FnDecl { name, params, body } => match lower_stmts_v(body, optimize) {
            Ok(b) => Ok(StmtKindV::FnDecl { name, params, body: b }),
            Err(k) => Err(k),
        },
        AstStmtKindV::If { cond, then_blk, else_blk } => match lower_expr_v(cond) {
            Ok(c) => match lower_stmts_v(then_blk, optimize) {
                Ok(t) => match else_blk {
                    Some(b) => match lower_stmts_v(b, optimize) {
                        Ok(e) => Ok(StmtKindV::If { cond: c, then_blk: t, else_blk: Some(e) }),
                        Err(k) => Err(k),
                    },
                    None => Ok(StmtKindV::If { cond: c, then_blk: t, else_blk: None }),
                },
                Err(k) => Err(k),
            },
            Err(k) => Err(k),
        },
        AstStmtKindV::While { cond, body } => match lower_expr_v(cond) {
            Ok(c) => match lower_stmts_v(body, optimize) {
                Ok(b) => Ok(StmtKindV::While { cond: c, body: b }),
                Err(k) => Err(k),
            },
            Err(k) => Err(k),
        },
        AstStmtKindV::For { var, iter, body } => match lower_loop_seq_v(iter, optimize) {
            Ok(sq) => match lower_stmts_v(body, optimize) {
                Ok(b) => Ok(StmtKindV::For { var, seq: sq, body: b }),
                Err(k) => Err(k),
            },
            Err(k) => Err(k),
        },
        AstStmtKindV::Return { value } => match value {
            Some(v) => match lower_expr_v(v) {
                Ok(x) => Ok(StmtKindV::Return { value: Some(x) }),
                Err(k) => Err(k),
            },
            None => Ok(StmtKindV::Return { value: None }),
        },
        AstStmtKindV::Break | AstStmtKindV::Next => Err(LowerErrorKind::BreakNext),
    };
    match kind {
        Ok(k) => Ok(StmtV { kind: k, span: s.span }),
        Err(k) => Err(k),
    }
}

pub open spec fn lower_stmts_v(s: Seq<AstStmtV>, optimize: bool) -> Result<Seq<StmtV>, LowerErrorKind>
    decreases s,
{
    if s.len() == 0 {
        Ok(Seq::empty())
    } else {
        match lower_stmts_v(s.drop_last(), optimize) {
            Ok(init) => match lower_stmt_v(s.last(), optimize) {
                Ok(x) => Ok(init.push(x)),
                Err(k) => Err(k),
            },
            Err(k) => Err(k),
        }
    }
}

/// The program the lowerer produces from the lowered statements `s`: with
/// optimization on, the loop optimizer and then the analyzer run over
/// them.
pub open spec fn finish_program_v(s: Seq<StmtV>, optimize: bool) -> Seq<StmtV> {
    if optimize {
        analyze_stmts_v(Map::empty(), optimize_stmts_v(s)->0).1
    } else {
        s
    }
}

/// With optimization off, the lowerer hands back the lowered statements as
/// they are; with it on, the optimized statements, which the analysis only
/// annotates: one for one, and equal to them once annotations are erased.
pub proof fn lemma_finish_program(s: Seq<StmtV>, optimize: bool)
    requires
        optimize ==> optimize_stmts_v(s) is Some,
    ensures
        !optimize ==> finish_program_v(s, optimize) == s,
        optimize ==> finish_program_v(s, optimize).len() == optimize_stmts_v(s)->0.len(),
        optimize ==> erase_stmts(finish_program_v(s, optimize)) == erase_stmts(
            optimize_stmts_v(s)->0,
        ),
{
    if optimize {
        lemma_analyze_stmts_erase(Map::empty(), optimize_stmts_v(s)->0);
    }
}

/// A call spelled with callee `f` at `cs`, as the parser builds it.
pub open spec fn named_call(f: Seq<char>, cs: Span, args: Seq<AstExprV>, span: Span) -> AstExprV {
    AstExprV {
        kind: AstExprKindV::Call {
            callee: Box::new(AstExprV { kind: AstExprKindV::Name(f), span: cs }),
            args,
        },
        span,
    }
}

/// Two callees with one canonical name lower into the same call.
proof fn lemma_same_canonical_call(
    f: Seq<char>,
    g: Seq<char>,
    cs: Span,
    args: Seq<AstExprV>,
    span: Span,
)
    requires
        canonical_callee(f) == canonical_callee(g),
    ensures
        lower_expr_v(named_call(f, cs, args, span)) == lower_expr_v(named_call(g, cs, args, span)),
{
    let ef = named_call(f, cs, args, span);
    let eg = named_call(g, cs, args, span);
    assert(lower_expr_v(AstExprV { kind: AstExprKindV::Name(f), span: cs }) == Ok::<
        ExprV,
        LowerErrorKind,
    >(fresh(ExprKindV::Name(f), cs)));
    assert(lower_expr_v(AstExprV { kind: AstExprKindV::Name(g), span: cs }) == Ok::<
        ExprV,
        LowerErrorKind,
    >(fresh(ExprKindV::Name(g), cs)));
    match lower_exprs_v(args) {
        Ok(a) => {
            assert(lower_call_v(fresh(ExprKindV::Name(f), cs), a, span) == lower_call_v(
                fresh(ExprKindV::Name(g), cs),
                a,
                span,
            ));
        },
        Err(_) => {},
    }
}

/// An RR alias lowers exactly like the builtin or runtime function it
/// names, whatever the arguments: `range(a, b)` like `rr_range(a, b)` (the
/// range node), `indices(x)` like `rr_indices(x)`, `len(x)` like
/// `length(x)`, and the vector constructors like R's.
#[verifier::spinoff_prover]
pub proof fn lemma_aliases_lower_like_their_targets(
    cs: Span,
    args: Seq<AstExprV>,
    span: Span,
)
    ensures
        lower_expr_v(named_call("range"@, cs, args, span)) == lower_expr_v(
            named_call("rr_range"@, cs, args, span),
        ),
        lower_expr_v(named_call("indices"@, cs, args, span)) == lower_expr_v(
            named_call("rr_indices"@, cs, args, span),
        ),
        lower_expr_v(named_call("len"@, cs, args, span)) == lower_expr_v(
            named_call("length"@, cs, args, span),
        ),
        lower_expr_v(named_call("vec_int"@, cs, args, span)) == lower_expr_v(
            named_call("integer"@, cs, args, span),
        ),
        lower_expr_v(named_call("vec_f64"@, cs, args, span)) == lower_expr_v(
            named_call("numeric"@, cs, args, span),
        ),
        lower_expr_v(named_call("vec_bool"@, cs, args, span)) == lower_expr_v(
            named_call("logical"@, cs, args, span),
        ),
        lower_expr_v(named_call("vec_str"@, cs, args, span)) == lower_expr_v(
            named_call("character"@, cs, args, span),
        ),
        lower_exprs_v(args) is Ok && lower_exprs_v(args)->Ok_0.len() == 2 ==> lower_expr_v(
            named_call("range"@, cs, args, span),
        ) == Ok::<ExprV, LowerErrorKind>(
            fresh(
                ExprKindV::RrRange {
                    a: Box::new(lower_exprs_v(args)->Ok_0[0]),
                    b: Box::new(lower_exprs_v(args)->Ok_0[1]),
                },
                span,
            ),
        ),
{
    reveal_strlit("vec_int");
    reveal_strlit("vec_f64");
    reveal_strlit("vec_bool");
    reveal_strlit("vec_str");
    reveal_strlit("len");
    reveal_strlit("range");
    reveal_strlit("indices");
    reveal_strlit("integer");
    reveal_strlit("numeric");
    reveal_strlit("logical");
    reveal_strlit("character");
    reveal_strlit("length");
    reveal_strlit("rr_range");
    reveal_strlit("rr_indices");
    let targets = seq!["integer"@, "numeric"@, "logical"@, "character"@, "length"@, "rr_range"@, "rr_indices"@];
    let aliases = seq!["vec_int"@, "vec_f64"@, "vec_bool"@, "vec_str"@, "len"@, "range"@, "indices"@];
    assert forall|k: int, m: int| 0 <= k < 7 && 0 <= m < 7 implies #[trigger] targets[k] != #[trigger] aliases[m] by {
        let x = targets[k];
        let y = aliases[m];
        if x.len() == y.len() {
            assert(x[0] != y[0] || x[1] != y[1] || x[2] != y[2]);
        }
    }
    assert forall|k: int, m: int| 0 <= k < m < 7 implies #[trigger] aliases[k] != #[trigger] aliases[m] by {
        let x = aliases[k];
        let y = aliases[m];
        if x.len() == y.len() {
            assert(x[0] != y[0] || x[1] != y[1] || x[2] != y[2] || x[3] != y[3] || x[4] != y[4] || x[5] != y[5] || x[6] != y[6]);
        }
    }
    assert(canonical_callee("range"@) == "rr_range"@) by {
        assert(aliases[5] != aliases[0] && aliases[5] != aliases[1] && aliases[5] != aliases[2] && aliases[5] != aliases[3] && aliases[5] != aliases[4]);
    }
    assert(canonical_callee("indices"@) == "rr_indices"@) by {
        assert(aliases[6] != aliases[0] && aliases[6] != aliases[1] && aliases[6] != aliases[2] && aliases[6] != aliases[3] && aliases[6] != aliases[4] && aliases[6] != aliases[5]);
    }
    assert(canonical_callee("integer"@) == "integer"@) by {
        assert(targets[0] != aliases[0] && targets[0] != aliases[1] && targets[0] != aliases[2] && targets[0] != aliases[3] && targets[0] != aliases[4] && targets[0] != aliases[5] && targets[0] != aliases[6]);
    }
    assert(canonical_callee("numeric"@) == "numeric"@) by {
        assert(targets[1] != aliases[0] && targets[1] != aliases[1] && targets[1] != aliases[2] && targets[1] != aliases[3] && targets[1] != aliases[4] && targets[1] != aliases[5] && targets[1] != aliases[6]);
    }
    assert(canonical_callee("logical"@) == "logical"@) by {
        assert(targets[2] != aliases[0] && targets[2] != aliases[1] && targets[2] != aliases[2] && targets[2] != aliases[3] && targets[2] != aliases[4] && targets[2] != aliases[5] && targets[2] != aliases[6]);
    }
    assert(canonical_callee("character"@) == "character"@) by {
        assert(targets[3] != aliases[0] && targets[3] != aliases[1] && targets[3] != aliases[2] && targets[3] != aliases[3] && targets[3] != aliases[4] && targets[3] != aliases[5] && targets[3] != aliases[6]);
    }
    assert(canonical_callee("length"@) == "length"@) by {
        assert(targets[4] != aliases[0] && targets[4] != aliases[1] && targets[4] != aliases[2] && targets[4] != aliases[3] && targets[4] != aliases[4] && targets[4] != aliases[5] && targets[4] != aliases[6]);
    }
    assert(canonical_callee("rr_range"@) == "rr_range"@) by {
        assert(targets[5] != aliases[0] && targets[5] != aliases[1] && targets[5] != aliases[2] && targets[5] != aliases[3] && targets[5] != aliases[4] && targets[5] != aliases[5] && targets[5] != aliases[6]);
    }
    assert(canonical_callee("rr_indices"@) == "rr_indices"@) by {
        assert(targets[6] != aliases[0] && targets[6] != aliases[1] && targets[6] != aliases[2] && targets[6] != aliases[3] && targets[6] != aliases[4] && targets[6] != aliases[5] && targets[6] != aliases[6]);
    }
    lemma_same_canonical_call("range"@, "rr_range"@, cs, args, span);
    if lower_exprs_v(args) is Ok && lower_exprs_v(args)->Ok_0.len() == 2 {
        let a = lower_exprs_v(args)->Ok_0;
        assert(lower_expr_v(AstExprV { kind: AstExprKindV::Name("rr_range"@), span: cs }) == Ok::<
            ExprV,
            LowerErrorKind,
        >(fresh(ExprKindV::Name("rr_range"@), cs)));
        assert(lower_call_v(fresh(ExprKindV::Name("rr_range"@), cs), a, span) == fresh(
            ExprKindV::RrRange { a: Box::new(a[0]), b: Box::new(a[1]) },
            span,
        ));
    }
    lemma_same_canonical_call("indices"@, "rr_indices"@, cs, args, span);
    lemma_same_canonical_call("len"@, "length"@, cs, args, span);
    lemma_same_canonical_call("vec_int"@, "integer"@, cs, args, span);
    lemma_same_canonical_call("vec_f64"@, "numeric"@, cs, args, span);
    lemma_same_canonical_call("vec_bool"@, "logical"@, cs, args, span);
    lemma_same_canonical_call("vec_str"@, "character"@, cs, args, span);
}

/// A pipe `x |> f(a, ...)` lowers exactly like the call `f(x, a, ...)`
/// written where the pipe is.
pub proof fn lemma_pipe_lowers_like_call(
    lhs: AstExprV,
    callee: AstExprV,
    args: Seq<AstExprV>,
    call_span: Span,
    span: Span,
)
    ensures
        lower_expr_v(
            AstExprV {
                kind: AstExprKindV::Pipe {
                    lhs: Box::new(lhs),
                    rhs_call: Box::new(
                        AstExprV {
                            kind: AstExprKindV::Call { callee: Box::new(callee), args },
                            span: call_span,
                        },
                    ),
                },
                span,
            },
        ) == lower_expr_v(
            AstExprV {
                kind: AstExprKindV::Call { callee: Box::new(callee), args: seq![lhs] + args },
                span,
            },
        ),
{
}

/// The optimizer accepts whatever lowering produces from `prog`.
pub open spec fn lowering_optimizable(prog: Seq<AstStmtV>, optimize: bool) -> bool {
    optimize ==> (lower_stmts_v(prog, optimize) matches Ok(s) ==> optimize_stmts_v(s) is Some)
}

pub proof fn lemma_lower_exprs_prefix_err(s: Seq<AstExprV>, k: int)
    requires
        0 <= k <= s.len(),
        lower_exprs_v(s.take(k)) is Err,
    ensures
        lower_exprs_v(s) == lower_exprs_v(s.take(k)),
    decreases s.len(),
{
    if k == s.len() {
        assert(s.take(k) =~= s);
    } else {
        assert(s.drop_last().take(k) =~= s.take(k));
        lemma_lower_exprs_prefix_err(s.drop_last(), k);
    }
}

pub proof fn lemma_lower_fields_prefix_err(s: Seq<(Seq<char>, AstExprV)>, k: int)
    requires
        0 <= k <= s.len(),
        lower_fields_v(s.take(k)) is Err,
    ensures
        lower_fields_v(s) == lower_fields_v(s.take(k)),
    decreases s.len(),
{
    if k == s.len() {
        assert(s.take(k) =~= s);
    } else {
        assert(s.drop_last().take(k) =~= s.take(k));
        lemma_lower_fields_prefix_err(s.drop_last(), k);
    }
}

pub proof fn lemma_lower_stmts_prefix_err(s: Seq<AstStmtV>, optimize: bool, k: int)
    requires
        0 <= k <= s.len(),
        lower_stmts_v(s.take(k), optimize) is Err,
    ensures
        lower_stmts_v(s, optimize) == lower_stmts_v(s.take(k), optimize),
    decreases s.len(),
{
    if k == s.len() {
        assert(s.take(k) =~= s);
    } else {
        assert(s.drop_last().take(k) =~= s.take(k));
        lemma_lower_stmts_prefix_err(s.drop_last(), optimize, k);
    }
}

/// Lowering works statement by statement: a program lowers exactly when
/// each of its statements does, and then into their lowered forms one to
/// one and in order; otherwise the error reported is that of the first
/// statement that does not lower.
pub proof fn lemma_lower_stmts(s: Seq<AstStmtV>, optimize: bool)
    ensures
        lower_stmts_v(s, optimize) is Ok <==> forall|j: int|
            0 <= j < s.len() ==> (#[trigger] lower_stmt_v(s[j], optimize)) is Ok,
        lower_stmts_v(s, optimize) matches Ok(r) ==> r.len() == s.len() && forall|j: int|
            0 <= j < s.len() ==> Ok::<StmtV, LowerErrorKind>(#[trigger] r[j]) == lower_stmt_v(
                s[j],
                optimize,
            ),
        lower_stmts_v(s, optimize) matches Err(k) ==> exists|i: int|
            0 <= i < s.len() && lower_stmt_v(s[i], optimize) == Err::<StmtV, LowerErrorKind>(k)
                && forall|j: int| 0 <= j < i ==> (#[trigger] lower_stmt_v(s[j], optimize)) is Ok,
    decreases s.len(),
{
    if s.len() > 0 {
        let init = s.drop_last();
        let n = s.len() - 1;
        lemma_lower_stmts(init, optimize);
        assert forall|j: int| 0 <= j < n implies init[j] == s[j] by {}
        match lower_stmts_v(init, optimize) {
            Ok(r0) => {
                match lower_stmt_v(s.last(), optimize) {
                    Ok(x) => {
                        let r = r0.push(x);
                        assert forall|j: int| 0 <= j < s.len() implies Ok::<StmtV, LowerErrorKind>(
                            #[trigger] r[j],
                        ) == lower_stmt_v(s[j], optimize) by {
                            if j < n {
                                assert(r[j] == r0[j]);
                                assert(Ok::<StmtV, LowerErrorKind>(r0[j]) == lower_stmt_v(
                                    init[j],
                                    optimize,
                                ));
                            }
                        }
                        assert forall|j: int| 0 <= j < s.len() implies (#[trigger] lower_stmt_v(
                            s[j],
                            optimize,
                        )) is Ok by {
                            if j < n {
                                assert(lower_stmt_v(init[j], optimize) is Ok);
                            }
                        }
                    },
                    Err(k) => {
                        assert forall|j: int| 0 <= j < n implies (#[trigger] lower_stmt_v(
                            s[j],
                            optimize,
                        )) is Ok by {
                            assert(lower_stmt_v(init[j], optimize) is Ok);
                        }
                        assert(lower_stmt_v(s[n], optimize) == Err::<StmtV, LowerErrorKind>(k));
                    },
                }
            },
            Err(k) => {
                let i = choose|i: int|
                    0 <= i < init.len() && lower_stmt_v(init[i], optimize) == Err::<
                        StmtV,
                        LowerErrorKind,
                    >(k) && forall|j: int|
                        0 <= j < i ==> (#[trigger] lower_stmt_v(init[j], optimize)) is Ok;
                assert(lower_stmt_v(s[i], optimize) == Err::<StmtV, LowerErrorKind>(k));
                assert forall|j: int| 0 <= j < i implies (#[trigger] lower_stmt_v(
                    s[j],
                    optimize,
                )) is Ok by {
                    assert(lower_stmt_v(init[j], optimize) is Ok);
                }
                assert(!(lower_stmt_v(s[i], optimize) is Ok));
            },
        }
    }
}

pub proof fn lemma_lower_exprs_len(s: Seq<AstExprV>)
    ensures
        lower_exprs_v(s) matches Ok(v) ==> v.len() == s.len(),
    decreases s.len(),
{
    if s.len() > 0 {
        lemma_lower_exprs_len(s.drop_last());
    }
}

pub proof fn lemma_view_ast_exprs_prepend(x: Expr, s: Seq<Expr>)
    ensures
        view_ast_exprs(s.insert(0, x)) == seq![view_ast_expr(x)] + view_ast_exprs(s),
{
    lemma_view_ast_exprs(s.insert(0, x));
    lemma_view_ast_exprs(s);
    assert(view_ast_exprs(s.insert(0, x)) =~= seq![view_ast_expr(x)] + view_ast_exprs(s));
}

pub proof fn lemma_lower_stmts_len(s: Seq<AstStmtV>, optimize: bool)
    ensures
        lower_stmts_v(s, optimize) matches Ok(v) ==> v.len() == s.len(),
    decreases s.len(),
{
    if s.len() > 0 {
        lemma_lower_stmts_len(s.drop_last(), optimize);
    }
}

/// `r` is the exec outcome described by `s`.
pub open spec fn expr_outcome(r: RR<IRExpr>, s: Result<ExprV, LowerErrorKind>) -> bool {
    match s {
        Ok(v) => r matches Ok(x) && x@ == v,
        Err(k) => r matches Err(e) && reports(e, k),
    }
}

pub open spec fn exprs_outcome(r: RR<Vec<IRExpr>>, s: Result<Seq<ExprV>, LowerErrorKind>) -> bool {
    match s {
        Ok(v) => r matches Ok(x) && view_exprs(x@) == v,
        Err(k) => r matches Err(e) && reports(e, k),
    }
}

pub open spec fn fields_outcome(
    r: RR<Vec<(String, IRExpr)>>,
    s: Result<Seq<(Seq<char>, ExprV)>, LowerErrorKind>,
) -> bool {
    match s {
        Ok(v) => r matches Ok(x) && view_fields(x@) == v,
        Err(k) => r matches Err(e) && reports(e, k),
    }
}

pub open spec fn lvalue_outcome(r: RR<IRLValue>, s: Result<LValueV, LowerErrorKind>) -> bool {
    match s {
        Ok(v) => r matches Ok(x) && x@ == v,
        Err(k) => r matches Err(e) && reports(e, k),
    }
}

pub open spec fn stmt_outcome(r: RR<IRStmt>, s: Result<StmtV, LowerErrorKind>) -> bool {
    match s {
        Ok(v) => r matches Ok(x) && x@ == v,
        Err(k) => r matches Err(e) && reports(e, k),
    }
}

pub open spec fn stmts_outcome(r: RR<Vec<IRStmt>>, s: Result<Seq<StmtV>, LowerErrorKind>) -> bool {
    match s {
        Ok(v) => r matches Ok(x) && view_stmts(x@) == v,
        Err(k) => r matches Err(e) && reports(e, k),
    }
}

pub open spec fn opt_expr_outcome(r: RR<Option<IRExpr>>, s: Result<Option<ExprV>, LowerErrorKind>) -> bool {
    match s {
        Ok(Some(v)) => r matches Ok(Some(x)) && x@ == v,
        Ok(None) => r matches Ok(None),
        Err(k) => r matches Err(e) && reports(e, k),
    }
}

fn lower_error(k: LowerErrorKind) -> (e: RRException)
    ensures
        reports(e, k),
{
    match k {
        LowerErrorKind::BreakNext => RRException::new(
            "RR.FeatureError",
            RRCode::E9999,
            Stage::Lower,
            "break/next are only supported in MIR pipeline",
        ),
        LowerErrorKind::IndexArity => RRException::new(
            "RR.SemanticError",
            RRCode::E1002,
            Stage::Lower,
            "RR v1.0 only supports 1D and 2D indexing",
        ),
        LowerErrorKind::PipeRhs => RRException::new(
            "RR.SemanticError",
            RRCode::E1002,
            Stage::Lower,
            "Pipe RHS must be a Call",
        ),
        LowerErrorKind::Unsupported => RRException::new(
            "RR.FeatureError",
            RRCode::E9999,
            Stage::Lower,
            "v6 Feature (Match/Try/Tidy) not supported in legacy IR",
        ),
    }
}

fn canonical_name(n: &str) -> (r: String)
    ensures
        r@ == canonical_callee(n@),
{
    if str_eq(n, "vec_int") {
        String::from_str("integer")
    } else if str_eq(n, "vec_f64") {
        String::from_str("numeric")
    } else if str_eq(n, "vec_bool") {
        String::from_str("logical")
    } else if str_eq(n, "vec_str") {
        String::from_str("character")
    } else if str_eq(n, "len") {
        String::from_str("length")
    } else if str_eq(n, "range") {
        String::from_str("rr_range")
    } else if str_eq(n, "indices") {
        String::from_str("rr_indices")
    } else {
        n.to_owned()
    }
}

/// Lowers AST programs to the legacy IR; with `optimize` set it also runs
/// the loop optimizer and the analyzer.
pub struct Lowerer {
    pub optimize: bool,
}

impl Lowerer {
    pub fn new(optimize: bool) -> (l: Lowerer)
        ensures
            l.optimize == optimize,
    {
        Lowerer { optimize }
    }

    fn lower_exprs(&self, v: Vec<Expr>) -> (r: RR<Vec<IRExpr>>)
        ensures
            exprs_outcome(r, lower_exprs_v(view_ast_exprs(v@))),
        decreases ast_exprs_size(view_ast_exprs(v@)), 1nat,
    {
        let ghost orig = v@;
        let ghost ov = view_ast_exprs(orig);
        let ghost n = orig.len();
        proof {
            lemma_view_ast_exprs(orig);
        }
        let total = v.len();
        let mut rest = v;
        let mut rev: Vec<Expr> = Vec::new();
        while rest.len() > 0
            invariant
                n == orig.len(),
                rest@ == orig.subrange(0, rest@.len() as int),
                rev@.len() == n - rest@.len(),
                forall|j: int| 0 <= j < rev@.len() ==> #[trigger] rev@[j] == orig[n - 1 - j],
            decreases rest@.len(),
        {
            let x = rest.pop().unwrap();
            rev.push(x);
        }
        let mut out: Vec<IRExpr> = Vec::new();
        let mut i: usize = 0;
        while rev.len() > 0
            invariant
                orig == v@,
                ov == view_ast_exprs(orig),
                n == orig.len(),
                n == total,
                ov.len() == n,
                forall|j: int| 0 <= j < n ==> #[trigger] ov[j] == view_ast_expr(orig[j]),
                i + rev@.len() == n,
                out@.len() == i,
                forall|j: int| 0 <= j < rev@.len() ==> #[trigger] rev@[j] == orig[n - 1 - j],
                lower_exprs_v(ov.take(i as int)) == Ok::<Seq<ExprV>, LowerErrorKind>(view_exprs(out@)),
            decreases rev@.len(),
        {
            let e = rev.pop().unwrap();
            proof {
                assert(e == orig[i as int]);
                lemma_ast_exprs_size_elem(ov, i as int);
                assert(ov.take(i + 1).drop_last() =~= ov.take(i as int));
                assert(ov.take(i + 1).last() == ov[i as int]);
            }
            match self.lower_expr(e) {
                Ok(x) => {
                    let ghost before = out@;
                    out.push(x);
                    proof {
                        lemma_view_exprs(out@);
                        lemma_view_exprs(before);
                        assert(out@.drop_last() == before);
                        assert(view_exprs(out@) =~= view_exprs(before).push(x@));
                    }
                },
                Err(err) => {
                    proof {
                        lemma_lower_exprs_prefix_err(ov, i + 1);
                    }
                    return Err(err);
                },
            }
            i = i + 1;
        }
        proof {
            assert(ov.take(i as int) =~= ov);
        }
        Ok(out)
    }

    fn lower_fields(&self, v: Vec<(String, Expr)>) -> (r: RR<Vec<(String, IRExpr)>>)
        ensures
            fields_outcome(r, lower_fields_v(view_ast_fields(v@))),
        decreases ast_fields_size(view_ast_fields(v@)), 1nat,
    {
        let ghost orig = v@;
        let ghost ov = view_ast_fields(orig);
        let ghost n = orig.len();
        proof {
            lemma_view_ast_fields(orig);
        }
        let total = v.len();
        let mut rest = v;
        let mut rev: Vec<(String, Expr)> = Vec::new();
        while rest.len() > 0
            invariant
                n == orig.len(),
                rest@ == orig.subrange(0, rest@.len() as int),
                rev@.len() == n - rest@.len(),
                forall|j: int| 0 <= j < rev@.len() ==> #[trigger] rev@[j] == orig[n - 1 - j],
            decreases rest@.len(),
        {
            let x = rest.pop().unwrap();
            rev.push(x);
        }
        let mut out: Vec<(String, IRExpr)> = Vec::new();
        let mut i: usize = 0;
        while rev.len() > 0
            invariant
                orig == v@,
                ov == view_ast_fields(orig),
                n == orig.len(),
                n == total,
                ov.len() == n,
                forall|j: int| 0 <= j < n ==> #[trigger] ov[j] == (orig[j].0@, view_ast_expr(orig[j].1)),
                i + rev@.len() == n,
                out@.len() == i,
                forall|j: int| 0 <= j < rev@.len() ==> #[trigger] rev@[j] == orig[n - 1 - j],
                lower_fields_v(ov.take(i as int)) == Ok::<Seq<(Seq<char>, ExprV)>, LowerErrorKind>(
                    view_fields(out@),
                ),
            decreases rev@.len(),
        {
            let (name, e) = rev.pop().unwrap();
            proof {
                assert((name, e) == orig[i as int]);
                lemma_ast_fields_size_elem(ov, i as int);
                assert(ov.take(i + 1).drop_last() =~= ov.take(i as int));
                assert(ov.take(i + 1).last() == ov[i as int]);
            }
            match self.lower_expr(e) {
                Ok(x) => {
                    let ghost before = out@;
                    out.push((name, x));
                    proof {
                        lemma_view_fields(out@);
                        lemma_view_fields(before);
                        assert(out@.drop_last() == before);
                        assert(view_fields(out@) =~= view_fields(before).push((name@, x@)));
                    }
                },
                Err(err) => {
                    proof {
                        lemma_lower_fields_prefix_err(ov, i + 1);
                    }
                    return Err(err);
                },
            }
            i = i + 1;
        }
        proof {
            assert(ov.take(i as int) =~= ov);
        }
        Ok(out)
    }

    fn lower_expr(&self, expr: Expr) -> (r: RR<IRExpr>)
        ensures
            expr_outcome(r, lower_expr_v(expr@)),
        decreases ast_expr_size(expr@), 0nat,
    {
        let span = expr.span;
        let ghost ev = expr@;
        assert(ev.kind == view_ast_kind(expr.kind));
        let kind = match expr.kind {
            ExprKind::Lit(l) => IRExprKind::Lit(l),
            ExprKind::Name(n) => IRExprKind::Name(n),
            ExprKind::Unary { op, rhs } => IRExprKind::Unary {
                op,
                rhs: Box::new(self.lower_expr(*rhs)?),
            },
            ExprKind::Binary { op, lhs, rhs } => {
                let l = self.lower_expr(*lhs)?;
                let r = self.lower_expr(*rhs)?;
                IRExprKind::Binary { op, lhs: Box::new(l), rhs: Box::new(r) }
            },
            ExprKind::Range { a, b } => {
                let la = self.lower_expr(*a)?;
                let lb = self.lower_expr(*b)?;
                IRExprKind::RrRange { a: Box::new(la), b: Box::new(lb) }
            },
            ExprKind::VectorLit(v) => IRExprKind::VectorLit(self.lower_exprs(v)?),
            ExprKind::RecordLit(fields) => IRExprKind::ListLit(self.lower_fields(fields)?),
            ExprKind::Call { callee, args } => {
                let mut lowered_callee = self.lower_expr(*callee)?;
                let lowered_args = self.lower_exprs(args)?;
                proof {
                    lemma_view_exprs(lowered_args@);
                }
                let ghost c0 = lowered_callee@;
                assert(c0.kind == view_kind(lowered_callee.kind));
                // Rewrite known RR aliases to canonical runtime/builtin names.
                let renamed = match &lowered_callee.kind {
                    IRExprKind::Name(n) => Some(canonical_name(n.as_str())),
                    _ => None,
                };
                if let Some(c) = renamed {
                    lowered_callee.kind = IRExprKind::Name(c);
                }
                let ghost c2 = lowered_callee@;
                assert(c2.kind == view_kind(lowered_callee.kind));
                let special: u8 = match &lowered_callee.kind {
                    IRExprKind::Name(n) => {
                        if str_eq(n.as_str(), "rr_range") && lowered_args.len() == 2 {
                            1
                        } else if str_eq(n.as_str(), "rr_indices") && lowered_args.len() == 1 {
                            2
                        } else {
                            0
                        }
                    },
                    _ => 0,
                };
                if special == 1 {
                    return Ok(
                        IRExpr::new(
                            IRExprKind::RrRange {
                                a: Box::new(lowered_args[0].deep_clone()),
                                b: Box::new(lowered_args[1].deep_clone()),
                            },
                            span,
                        ),
                    );
                }
                if special == 2 {
                    return Ok(
                        IRExpr::new(
                            IRExprKind::RrIndices { x: Box::new(lowered_args[0].deep_clone()) },
                            span,
                        ),
                    );
                }
                IRExprKind::Call { callee: Box::new(lowered_callee), args: lowered_args }
            },
            ExprKind::Index { base, idx } => {
                let ir_base = Box::new(self.lower_expr(*base)?);
                let ir_idx_len = idx.len();
                proof {
                    lemma_view_ast_exprs(idx@);
                }
                let ghost idx_v = view_ast_exprs(idx@);
                let mut ir_idx = self.lower_exprs(idx)?;
                proof {
                    lemma_view_exprs(ir_idx@);
                    lemma_lower_exprs_len(idx_v);
                }
                if ir_idx_len == 1 {
                    let first = ir_idx.pop().unwrap();
                    let IRExpr { kind: fk, ty: fty, shape: fshape, facts: ffacts, span: fspan } = first;
                    assert(first@.kind == view_kind(fk));
                    match fk {
                        IRExprKind::RrRange { a, b } => IRExprKind::Slice1D { base: ir_base, a, b },
                        other => IRExprKind::Index1D {
                            base: ir_base,
                            idx: Box::new(
                                IRExpr {
                                    kind: other,
                                    ty: fty,
                                    shape: fshape,
                                    facts: ffacts,
                                    span: fspan,
                                },
                            ),
                        },
                    }
                } else if ir_idx_len == 2 {
                    let c = ir_idx.pop().unwrap();
                    let r = ir_idx.pop().unwrap();
                    IRExprKind::Index2D { base: ir_base, r: Box::new(r), c: Box::new(c) }
                } else {
                    return Err(lower_error(LowerErrorKind::IndexArity));
                }
            },
            ExprKind::Pipe { lhs, rhs_call } => {
                assert(ev.kind->Pipe_rhs_call.kind == view_ast_kind(rhs_call.kind));
                match rhs_call.kind {
                    ExprKind::Call { callee, mut args } => {
                        let ghost old_args = args@;
                        let l = *lhs;
                        args.insert(0, l);
                        proof {
                            lemma_view_ast_exprs_prepend(l, old_args);
                        }
                        let new_call = Expr { kind: ExprKind::Call { callee, args }, span };
                        proof {
                            lemma_ast_exprs_size_prepend(view_ast_expr(l), view_ast_exprs(old_args));
                            assert(new_call@.kind == view_ast_kind(new_call.kind));
                            let rc = ev.kind->Pipe_rhs_call;
                            assert(ast_expr_size(ev) == 1 + ast_expr_size(view_ast_expr(l))
                                + ast_expr_size(*rc));
                            assert(ast_expr_size(*rc) == 1 + ast_expr_size(view_ast_expr(*callee))
                                + ast_exprs_size(view_ast_exprs(old_args)));
                            assert(ast_expr_size(new_call@) == 1 + ast_expr_size(
                                view_ast_expr(*callee),
                            ) + ast_exprs_size(view_ast_exprs(args@)));
                        }
                        return self.lower_expr(new_call);
                    },
                    _ => {
                        return Err(lower_error(LowerErrorKind::PipeRhs));
                    },
                }
            },
            _ => {
                return Err(lower_error(LowerErrorKind::Unsupported));
            },
        };
        Ok(IRExpr::new(kind, span))
    }

    fn lower_lvalue(&self, lv: LValue) -> (r: RR<IRLValue>)
        ensures
            lvalue_outcome(r, lower_lvalue_v(lv@)),
    {
        match lv.kind {
            LValueKind::Name(n) => Ok(IRLValue::Name(n)),
            LValueKind::Index { base, idx } => {
                let ir_base = Box::new(self.lower_expr(base)?);
                let ghost idx_v = view_ast_exprs(idx@);
                proof {
                    lemma_view_ast_exprs(idx@);
                }
                let mut ir_idx = self.lower_exprs(idx)?;
                proof {
                    lemma_view_exprs(ir_idx@);
                    lemma_lower_exprs_len(idx_v);
                }
                if ir_idx.len() == 1 {
                    let i0 = ir_idx.pop().unwrap();
                    Ok(IRLValue::Index1D { base: ir_base, idx: Box::new(i0) })
                } else if ir_idx.len() == 2 {
                    let c = ir_idx.pop().unwrap();
                    let r = ir_idx.pop().unwrap();
                    Ok(IRLValue::Index2D { base: ir_base, r: Box::new(r), c: Box::new(c) })
                } else {
                    Err(lower_error(LowerErrorKind::IndexArity))
                }
            },
        }
    }

    fn try_simplify_range_iter(&self, expr: &Expr) -> (r: RR<Option<IRExpr>>)
        ensures
            opt_expr_outcome(r, simplify_range_iter_v(expr@)),
    {
        assert(expr@.kind == view_ast_kind(expr.kind));
        if let ExprKind::Range { a, b } = &expr.kind {
            assert(a@.kind == view_ast_kind(a.kind));
            let a_is_zero = match &a.kind {
                ExprKind::Lit(Lit::Int(i)) => *i == 0,
                _ => false,
            };
            if !a_is_zero {
                return Ok(None);
            }
            assert(b@.kind == view_ast_kind(b.kind));
            if let ExprKind::Binary { op: BinOp::Sub, lhs, rhs } = &b.kind {
                assert(rhs@.kind == view_ast_kind(rhs.kind));
                let rhs_is_one = match &rhs.kind {
                    ExprKind::Lit(Lit::Int(i)) => *i == 1,
                    _ => false,
                };
                if !rhs_is_one {
                    return Ok(None);
                }
                assert(lhs@.kind == view_ast_kind(lhs.kind));
                if let ExprKind::Call { callee, args } = &lhs.kind {
                    proof {
                        lemma_view_ast_exprs(args@);
                    }
                    if args.len() == 1 {
                        assert(callee@.kind == view_ast_kind(callee.kind));
                        if let ExprKind::Name(n) = &callee.kind {
                            if str_eq(n.as_str(), "len") || str_eq(n.as_str(), "length") {
                                let x_ir = self.lower_expr(args[0].deep_clone())?;
                                return Ok(
                                    Some(
                                        IRExpr::new(
                                            IRExprKind::RrIndices { x: Box::new(x_ir) },
                                            expr.span,
                                        ),
                                    ),
                                );
                            }
                        }
                    }
                }
            }
        }
        Ok(None)
    }

    fn lower_expr_sync(&self, expr: &Expr) -> (r: IRExpr)
        ensures
            r@ == lower_expr_or_null_v(expr@),
    {
        match self.lower_expr(expr.deep_clone()) {
            Ok(x) => x,
            Err(_) => IRExpr::new(IRExprKind::Lit(Lit::Null), expr.span),
        }
    }

    fn lower_stmts(&self, v: Vec<Stmt>) -> (r: RR<Vec<IRStmt>>)
        ensures
            stmts_outcome(r, lower_stmts_v(view_ast_stmts(v@), self.optimize)),
        decreases view_ast_stmts(v@),
    {
        let ghost orig = v@;
        let ghost ov = view_ast_stmts(orig);
        let ghost n = orig.len();
        proof {
            lemma_view_ast_stmts(orig);
        }
        let total = v.len();
        let mut rest = v;
        let mut rev: Vec<Stmt> = Vec::new();
        while rest.len() > 0
            invariant
                n == orig.len(),
                rest@ == orig.subrange(0, rest@.len() as int),
                rev@.len() == n - rest@.len(),
                forall|j: int| 0 <= j < rev@.len() ==> #[trigger] rev@[j] == orig[n - 1 - j],
            decreases rest@.len(),
        {
            let x = rest.pop().unwrap();
            rev.push(x);
        }
        let mut out: Vec<IRStmt> = Vec::new();
        let mut i: usize = 0;
        while rev.len() > 0
            invariant
                orig == v@,
                ov == view_ast_stmts(orig),
                n == orig.len(),
                n == total,
                ov.len() == n,
                forall|j: int| 0 <= j < n ==> #[trigger] ov[j] == view_ast_stmt(orig[j]),
                i + rev@.len() == n,
                out@.len() == i,
                forall|j: int| 0 <= j < rev@.len() ==> #[trigger] rev@[j] == orig[n - 1 - j],
                lower_stmts_v(ov.take(i as int), self.optimize) == Ok::<Seq<StmtV>, LowerErrorKind>(
                    view_stmts(out@),
                ),
            decreases rev@.len(),
        {
            let e = rev.pop().unwrap();
            proof {
                assert(e == orig[i as int]);
                assert(decreases_to!(ov => ov[i as int]));
                assert(ov.take(i + 1).drop_last() =~= ov.take(i as int));
                assert(ov.take(i + 1).last() == ov[i as int]);
            }
            match self.lower_stmt(e) {
                Ok(x) => {
                    let ghost before = out@;
                    out.push(x);
                    proof {
                        lemma_view_stmts(out@);
                        lemma_view_stmts(before);
                        assert(out@.drop_last() == before);
                        assert(view_stmts(out@) =~= view_stmts(before).push(x@));
                    }
                },
                Err(err) => {
                    proof {
                        lemma_lower_stmts_prefix_err(ov, self.optimize, i + 1);
                    }
                    return Err(err);
                },
            }
            i = i + 1;
        }
        proof {
            assert(ov.take(i as int) =~= ov);
        }
        Ok(out)
    }

    #[verifier::rlimit(60)]
    fn lower_stmt(&self, stmt: Stmt) -> (r: RR<IRStmt>)
        ensures
            stmt_outcome(r, lower_stmt_v(stmt@, self.optimize)),
        decreases stmt@,
    {
        let span = stmt.span;
        let ghost sv = stmt@;
        assert(sv.kind == view_ast_stmt_kind(stmt.kind));
        let kind = match stmt.kind {
            StmtKind::Let { name, init } => IRStmtKind::Assign {
                target: IRLValue::Name(name),
                value: self.lower_expr(init)?,
            },
            StmtKind::Assign { target, value } => {
                let t = self.lower_lvalue(target)?;
                let v = self.lower_expr(value)?;
                IRStmtKind::Assign { target: t, value: v }
            },
            StmtKind::ExprStmt { expr } => IRStmtKind::ExprStmt { expr: self.lower_expr(expr)? },
            StmtKind::FnDecl { name, params, body } => {
                let ir_body = self.lower_stmts(body.stmts)?;
                IRStmtKind::FnDecl { name, params, body: ir_body }
            },
            StmtKind::If { cond, then_blk, else_blk } => {
                let ir_cond = self.lower_expr(cond)?;
                let ir_then = self.lower_stmts(then_blk.stmts)?;
                let ir_else = match else_blk {
                    Some(blk) => Some(self.lower_stmts(blk.stmts)?),
                    None => None,
                };
                IRStmtKind::If { cond: ir_cond, then_blk: ir_then, else_blk: ir_else }
            },
            StmtKind::While { cond, body } => {
                let ir_cond = self.lower_expr(cond)?;
                let ir_body = self.lower_stmts(body.stmts)?;
                IRStmtKind::While { cond: ir_cond, body: ir_body }
            },
            StmtKind::For { var, iter, body } => {
                let seq = if self.optimize {
                    match self.try_simplify_range_iter(&iter)? {
                        Some(x) => x,
                        None => self.lower_expr_sync(&iter),
                    }
                } else {
                    self.lower_expr(iter)?
                };
                let ir_body = self.lower_stmts(body.stmts)?;
                IRStmtKind::For { var, seq, body: ir_body }
            },
            StmtKind::Return { value } => {
                let ir_val = match value {
                    Some(e) => Some(self.lower_expr(e)?),
                    None => None,
                };
                IRStmtKind::Return { value: ir_val }
            },
            StmtKind::Break | StmtKind::Next => {
                return Err(lower_error(LowerErrorKind::BreakNext));
            },
        };
        Ok(IRStmt { kind, span })
    }

    fn optimize_stmts(&self, stmts: Vec<IRStmt>) -> (r: Vec<IRStmt>)
        requires
            optimize_stmts_v(view_stmts(stmts@)) is Some,
        ensures
            view_stmts(r@) == optimize_stmts_v(view_stmts(stmts@))->0,
    {
        let optimizer = Optimizer::new();
        optimizer.optimize_stmts(stmts)
    }

    /// Lowers a whole program. The first statement that cannot be lowered
    /// stops it with that statement's diagnostic, passed through the frame
    /// `Lowerer.lower_stmt/1`. With `optimize` set, the lowered statements go
    /// through the loop optimizer and then the analyzer.
    pub fn lower_program(&self, prog: Program) -> (r: RR<IRProgram>)
        requires
            lowering_optimizable(prog@, self.optimize),
        ensures
            match lower_stmts_v(prog@, self.optimize) {
                Ok(s) => r matches Ok(p) && p@ == finish_program_v(s, self.optimize),
                Err(k) => r matches Err(e) && e.module@ == lower_error_module(k) && e.code
                    == lower_error_code(k) && e.stage == Stage::Lower && e.message@
                    == lower_error_message(k) && e.frames@.len() == 1 && e.frames@[0].name@
                    == "Lowerer.lower_stmt/1"@ && e.frames@[0].span is None,
            },
    {
        let mut stmts = match self.lower_stmts(prog.stmts) {
            Ok(s) => s,
            Err(e) => {
                return Err(e.with_frame("Lowerer.lower_stmt/1", None));
            },
        };

        if self.optimize {
            stmts = self.optimize_stmts(stmts);
        }

        let mut ir_prog = IRProgram { stmts };

        if self.optimize {
            let mut analyzer = Analyzer::new();
            analyzer.analyze_program(&mut ir_prog);
        }

        Ok(ir_prog)
    }
}

} // verus!
