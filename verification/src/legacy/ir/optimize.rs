//! Loop optimizer for the legacy IR: turns element-wise loops over
//! `indices(x)` into vector operations, and rewrites the remaining such loops
//! into R's 1-based iteration.
use vstd::prelude::*;

use crate::legacy::ir::{
    erase_stmt, erase_stmts, erase_expr, erase_exprs, clone_stmts, lemma_view_exprs, lemma_view_fields, lemma_view_stmts, view_expr, view_exprs,
    view_fields, view_kind, view_lvalue, view_opt_expr, view_opt_stmt, view_stmt, view_stmt_kind,
    view_stmts, ExprKindV, ExprV, IRExpr,
    IRExprKind, IRLValue, IRStmt, IRStmtKind, LValueV, Shape, StmtKindV, StmtV, Ty,
};
use crate::syntax::ast::{BinOp, Lit, LitV};
use crate::text::str_eq;
use crate::utils::Span;

verus! {

// ---------------------------------------------------------------------------
// The model
// ---------------------------------------------------------------------------

/// A freshly built expression: no type, shape or facts known.
pub open spec fn fresh(kind: ExprKindV, span: Span) -> ExprV {
    ExprV { kind, ty: Ty::Any, shape: Shape::Unknown, facts: 0, span }
}

pub open spec fn is_name_v(e: ExprV, n: Seq<char>) -> bool {
    match e.kind {
        ExprKindV::Name(m) => m == n,
        _ => false,
    }
}

/// `e` is exactly `base[idx]` for the two given names.
pub open spec fn is_indexing_v(e: ExprV, base: Seq<char>, idx: Seq<char>) -> bool {
    match e.kind {
        ExprKindV::Index1D { base: b, idx: i } => is_name_v(*b, base) && is_name_v(*i, idx),
        _ => false,
    }
}

/// The variable `var` occurs somewhere in `e`.
pub open spec fn uses_var_v(e: ExprV, var: Seq<char>) -> bool
    decreases e,
{
    match e.kind {
        ExprKindV::Name(n) => n == var,
        ExprKindV::Lit(_) => false,
        ExprKindV::Unary { rhs, .. } => uses_var_v(*rhs, var),
        ExprKindV::Binary { lhs, rhs, .. } => uses_var_v(*lhs, var) || uses_var_v(*rhs, var),
        ExprKindV::Call { callee, args } => uses_var_v(*callee, var) || any_uses_var_v(args, var),
        ExprKindV::RrRange { a, b } => uses_var_v(*a, var) || uses_var_v(*b, var),
        ExprKindV::RrIndices { x } => uses_var_v(*x, var),
        ExprKindV::Index1D { base, idx } => uses_var_v(*base, var) || uses_var_v(*idx, var),
        ExprKindV::Index2D { base, r, c } => uses_var_v(*base, var) || uses_var_v(*r, var)
            || uses_var_v(*c, var),
        ExprKindV::Slice1D { base, a, b } => uses_var_v(*base, var) || uses_var_v(*a, var)
            || uses_var_v(*b, var),
        ExprKindV::VectorLit(v) => any_uses_var_v(v, var),
        ExprKindV::ListLit(f) => any_field_uses_var_v(f, var),
    }
}

pub open spec fn any_uses_var_v(s: Seq<ExprV>, var: Seq<char>) -> bool
    decreases s,
{
    if s.len() == 0 {
        false
    } else {
        any_uses_var_v(s.drop_last(), var) || uses_var_v(s.last(), var)
    }
}

pub open spec fn any_field_uses_var_v(s: Seq<(Seq<char>, ExprV)>, var: Seq<char>) -> bool
    decreases s,
{
    if s.len() == 0 {
        false
    } else {
        any_field_uses_var_v(s.drop_last(), var) || uses_var_v(s.last().1, var)
    }
}

pub proof fn lemma_any_uses_var(s: Seq<ExprV>, var: Seq<char>)
    ensures
        any_uses_var_v(s, var) <==> exists|j: int| 0 <= j < s.len() && uses_var_v(#[trigger] s[j], var),
    decreases s.len(),
{
    if s.len() > 0 {
        lemma_any_uses_var(s.drop_last(), var);
        if any_uses_var_v(s.drop_last(), var) {
            let j = choose|j: int| 0 <= j < s.drop_last().len() && uses_var_v(#[trigger] s.drop_last()[j], var);
            assert(s[j] == s.drop_last()[j]);
        }
        if exists|j: int| 0 <= j < s.len() && uses_var_v(#[trigger] s[j], var) {
            let j = choose|j: int| 0 <= j < s.len() && uses_var_v(#[trigger] s[j], var);
            if j < s.len() - 1 {
                assert(s.drop_last()[j] == s[j]);
            }
        }
    }
}

pub proof fn lemma_any_field_uses_var(s: Seq<(Seq<char>, ExprV)>, var: Seq<char>)
    ensures
        any_field_uses_var_v(s, var) <==> exists|j: int|
            0 <= j < s.len() && uses_var_v(#[trigger] s[j].1, var),
    decreases s.len(),
{
    if s.len() > 0 {
        lemma_any_field_uses_var(s.drop_last(), var);
        if any_field_uses_var_v(s.drop_last(), var) {
            let j = choose|j: int|
                0 <= j < s.drop_last().len() && uses_var_v(#[trigger] s.drop_last()[j].1, var);
            assert(s[j] == s.drop_last()[j]);
        }
        if exists|j: int| 0 <= j < s.len() && uses_var_v(#[trigger] s[j].1, var) {
            let j = choose|j: int| 0 <= j < s.len() && uses_var_v(#[trigger] s[j].1, var);
            if j < s.len() - 1 {
                assert(s.drop_last()[j] == s[j]);
            }
        }
    }
}

/// Builtins that R applies element-wise to a whole vector.
pub open spec fn vector_safe_call_v(name: Seq<char>) -> bool {
    ||| name == "abs"@
    ||| name == "sqrt"@
    ||| name == "sin"@
    ||| name == "cos"@
    ||| name == "tan"@
    ||| name == "log"@
    ||| name == "exp"@
    ||| name == "floor"@
    ||| name == "ceiling"@
    ||| name == "round"@
}

/// Each argument either is `x[i]` or does not mention `i`.
pub open spec fn args_vectorizable(args: Seq<ExprV>, x: Seq<char>, i: Seq<char>) -> bool {
    forall|j: int|
        0 <= j < args.len() ==> is_indexing_v(#[trigger] args[j], x, i) || !uses_var_v(args[j], i)
}

/// The arguments with every `x[i]` replaced by the whole vector `xv`.
pub open spec fn vectorized_args(args: Seq<ExprV>, x: Seq<char>, i: Seq<char>, xv: ExprV) -> Seq<
    ExprV,
> {
    Seq::new(args.len(), |j: int| if is_indexing_v(args[j], x, i) { xv } else { args[j] })
}

/// The element-wise body expression `e` of a loop over `i`, lifted to whole
/// vectors: `x[i] op b`, `a op x[i]`, `x[i] op x[i]`, `op x[i]`, and calls
/// of element-wise builtins taking `x[i]`.
pub open spec fn vectorize_expr_v(e: ExprV, x: Seq<char>, i: Seq<char>, xv: ExprV) -> Option<
    ExprV,
> {
    match e.kind {
        ExprKindV::Binary { op, lhs, rhs } => {
            let l = is_indexing_v(*lhs, x, i);
            let r = is_indexing_v(*rhs, x, i);
            if l && !uses_var_v(*rhs, i) {
                Some(fresh(ExprKindV::Binary { op, lhs: Box::new(xv), rhs }, e.span))
            } else if r && !uses_var_v(*lhs, i) {
                Some(fresh(ExprKindV::Binary { op, lhs, rhs: Box::new(xv) }, e.span))
            } else if l && r {
                Some(fresh(ExprKindV::Binary { op, lhs: Box::new(xv), rhs: Box::new(xv) }, e.span))
            } else {
                None
            }
        },
        ExprKindV::Unary { op, rhs } => {
            if is_indexing_v(*rhs, x, i) {
                Some(fresh(ExprKindV::Unary { op, rhs: Box::new(xv) }, e.span))
            } else {
                None
            }
        },
        ExprKindV::Call { callee, args } => {
            if uses_var_v(*callee, i) {
                None
            } else {
                match callee.kind {
                    ExprKindV::Name(cn) => {
                        if vector_safe_call_v(cn) && args_vectorizable(args, x, i) && exists|j: int|
                            0 <= j < args.len() && is_indexing_v(#[trigger] args[j], x, i) {
                            Some(
                                fresh(
                                    ExprKindV::Call {
                                        callee,
                                        args: vectorized_args(args, x, i, xv),
                                    },
                                    e.span,
                                ),
                            )
                        } else {
                            None
                        }
                    },
                    _ => None,
                }
            }
        },
        _ => None,
    }
}

/// The parts of an element-wise map loop `for (i in indices(x)) { y[i] = f(x[i]) }`:
/// the vector `x`, its name, the target `y`, and the body value.
pub open spec fn map_loop_parts(i: Seq<char>, seq: ExprV, body: Seq<StmtV>) -> Option<
    (ExprV, Seq<char>, ExprV, ExprV),
> {
    match seq.kind {
        ExprKindV::RrIndices { x } => {
            if body.len() != 1 {
                None
            } else {
                match body[0].kind {
                    StmtKindV::Assign { target, value } => match target {
                        LValueV::Index1D { base, idx } => {
                            if is_name_v(idx, i) {
                                match x.kind {
                                    ExprKindV::Name(xn) => Some((*x, xn, base, value)),
                                    _ => None,
                                }
                            } else {
                                None
                            }
                        },
                        _ => None,
                    },
                    _ => None,
                }
            }
        },
        _ => None,
    }
}

/// A map loop whose body vectorizes but whose target is not a plain name:
/// the optimizer stops on it.
pub open spec fn map_loop_aborts(i: Seq<char>, seq: ExprV, body: Seq<StmtV>) -> bool {
    match map_loop_parts(i, seq, body) {
        Some((xv, xn, y, value)) => vectorize_expr_v(value, xn, i, xv) is Some && !(y.kind is Name),
        None => false,
    }
}

/// A map loop becomes `y <- f(x)`.
pub open spec fn loop_map_v(i: Seq<char>, seq: ExprV, body: Seq<StmtV>, span: Span) -> Option<StmtV> {
    match map_loop_parts(i, seq, body) {
        Some((xv, xn, y, value)) => match (vectorize_expr_v(value, xn, i, xv), y.kind) {
            (Some(v), ExprKindV::Name(yn)) => Some(
                StmtV { kind: StmtKindV::Assign { target: LValueV::Name(yn), value: v }, span },
            ),
            _ => None,
        },
        None => None,
    }
}

/// The builtin that folds a vector under `op`, if any.
pub open spec fn reduction_builtin(op: BinOp) -> Option<Seq<char>> {
    match op {
        BinOp::Add => Some("sum"@),
        BinOp::Mul => Some("prod"@),
        _ => None,
    }
}

/// A reduction loop `for (i in indices(x)) { acc = acc op x[i] }` (or
/// `x[i] op acc`), with `op` one of `+` and `*`, becomes
/// `acc <- acc op sum(x)` (or `prod(x)`).
pub open spec fn loop_reduction_v(i: Seq<char>, seq: ExprV, body: Seq<StmtV>, span: Span) -> Option<
    StmtV,
> {
    match seq.kind {
        ExprKindV::RrIndices { x } => match x.kind {
            ExprKindV::Name(xn) => {
                if body.len() != 1 {
                    None
                } else {
                    match body[0].kind {
                        StmtKindV::Assign { target: LValueV::Name(acc), value } => match value.kind {
                            ExprKindV::Binary { op, lhs, rhs } => match reduction_builtin(op) {
                                Some(func) => {
                                    let other = if is_name_v(*lhs, acc) {
                                        Some(*rhs)
                                    } else if is_name_v(*rhs, acc) {
                                        Some(*lhs)
                                    } else {
                                        None
                                    };
                                    match other {
                                        Some(t) => if is_indexing_v(t, xn, i) {
                                            let call = fresh(
                                                ExprKindV::Call {
                                                    callee: Box::new(
                                                        fresh(ExprKindV::Name(func), span),
                                                    ),
                                                    args: seq![*x],
                                                },
                                                span,
                                            );
                                            Some(
                                                StmtV {
                                                    kind: StmtKindV::Assign {
                                                        target: LValueV::Name(acc),
                                                        value: fresh(
                                                            ExprKindV::Binary {
                                                                op,
                                                                lhs: Box::new(
                                                                    fresh(ExprKindV::Name(acc), span),
                                                                ),
                                                                rhs: Box::new(call),
                                                            },
                                                            span,
                                                        ),
                                                    },
                                                    span,
                                                },
                                            )
                                        } else {
                                            None
                                        },
                                        None => None,
                                    }
                                },
                                None => None,
                            },
                            _ => None,
                        },
                        _ => None,
                    }
                }
            },
            _ => None,
        },
        _ => None,
    }
}

pub open spec fn loop_vectorize_v(i: Seq<char>, seq: ExprV, body: Seq<StmtV>, span: Span) -> Option<
    StmtV,
> {
    match loop_map_v(i, seq, body, span) {
        Some(s) => Some(s),
        None => loop_reduction_v(i, seq, body, span),
    }
}

/// `e` with every occurrence of the variable `t` replaced by `repl`, as the
/// rewriter does it: it descends through unary and binary operators, calls,
/// ranges, `indices`, 1-D indexing and vector literals, rebuilding each
/// node without annotations, and copies any other node unchanged.
pub open spec fn rewrite_expr_v(e: ExprV, t: Seq<char>, repl: ExprV) -> ExprV
    decreases e,
{
    match e.kind {
        ExprKindV::Name(n) => if n == t {
            repl
        } else {
            fresh(ExprKindV::Name(n), e.span)
        },
        ExprKindV::Unary { op, rhs } => fresh(
            ExprKindV::Unary { op, rhs: Box::new(rewrite_expr_v(*rhs, t, repl)) },
            e.span,
        ),
        ExprKindV::Binary { op, lhs, rhs } => fresh(
            ExprKindV::Binary {
                op,
                lhs: Box::new(rewrite_expr_v(*lhs, t, repl)),
                rhs: Box::new(rewrite_expr_v(*rhs, t, repl)),
            },
            e.span,
        ),
        ExprKindV::Call { callee, args } => fresh(
            ExprKindV::Call {
                callee: Box::new(rewrite_expr_v(*callee, t, repl)),
                args: rewrite_exprs_v(args, t, repl),
            },
            e.span,
        ),
        ExprKindV::Index1D { base, idx } => fresh(
            ExprKindV::Index1D {
                base: Box::new(rewrite_expr_v(*base, t, repl)),
                idx: Box::new(rewrite_expr_v(*idx, t, repl)),
            },
            e.span,
        ),
        ExprKindV::RrIndices { x } => fresh(
            ExprKindV::RrIndices { x: Box::new(rewrite_expr_v(*x, t, repl)) },
            e.span,
        ),
        ExprKindV::RrRange { a, b } => fresh(
            ExprKindV::RrRange {
                a: Box::new(rewrite_expr_v(*a, t, repl)),
                b: Box::new(rewrite_expr_v(*b, t, repl)),
            },
            e.span,
        ),
        ExprKindV::VectorLit(v) => fresh(ExprKindV::VectorLit(rewrite_exprs_v(v, t, repl)), e.span),
        _ => fresh(e.kind, e.span),
    }
}

pub open spec fn rewrite_exprs_v(s: Seq<ExprV>, t: Seq<char>, repl: ExprV) -> Seq<ExprV>
    decreases s,
{
    if s.len() == 0 {
        Seq::empty()
    } else {
        rewrite_exprs_v(s.drop_last(), t, repl).push(rewrite_expr_v(s.last(), t, repl))
    }
}

pub proof fn lemma_rewrite_exprs(s: Seq<ExprV>, t: Seq<char>, repl: ExprV)
    ensures
        rewrite_exprs_v(s, t, repl).len() == s.len(),
        forall|j: int|
            0 <= j < s.len() ==> #[trigger] rewrite_exprs_v(s, t, repl)[j] == rewrite_expr_v(
                s[j],
                t,
                repl,
            ),
    decreases s.len(),
{
    if s.len() > 0 {
        lemma_rewrite_exprs(s.drop_last(), t, repl);
    }
}

/// Rewriting a variable that does not occur in an expression changes
/// nothing but its annotations.
pub proof fn lemma_rewrite_absent_var(e: ExprV, t: Seq<char>, repl: ExprV)
    requires
        !uses_var_v(e, t),
    ensures
        erase_expr(rewrite_expr_v(e, t, repl)) == erase_expr(e),
    decreases e,
{
    match e.kind {
        ExprKindV::Unary { rhs, .. } => lemma_rewrite_absent_var(*rhs, t, repl),
        ExprKindV::Binary { lhs, rhs, .. } => {
            lemma_rewrite_absent_var(*lhs, t, repl);
            lemma_rewrite_absent_var(*rhs, t, repl);
        },
        ExprKindV::Call { callee, args } => {
            lemma_rewrite_absent_var(*callee, t, repl);
            lemma_rewrite_absent_vars(args, t, repl);
        },
        ExprKindV::Index1D { base, idx } => {
            lemma_rewrite_absent_var(*base, t, repl);
            lemma_rewrite_absent_var(*idx, t, repl);
        },
        ExprKindV::RrIndices { x } => lemma_rewrite_absent_var(*x, t, repl),
        ExprKindV::RrRange { a, b } => {
            lemma_rewrite_absent_var(*a, t, repl);
            lemma_rewrite_absent_var(*b, t, repl);
        },
        ExprKindV::VectorLit(v) => lemma_rewrite_absent_vars(v, t, repl),
        _ => {},
    }
}

/// The list counterpart of `lemma_rewrite_absent_var`.
pub proof fn lemma_rewrite_absent_vars(s: Seq<ExprV>, t: Seq<char>, repl: ExprV)
    requires
        !any_uses_var_v(s, t),
    ensures
        erase_exprs(rewrite_exprs_v(s, t, repl)) == erase_exprs(s),
    decreases s,
{
    if s.len() > 0 {
        lemma_rewrite_absent_vars(s.drop_last(), t, repl);
        lemma_rewrite_absent_var(s.last(), t, repl);
        let r = rewrite_exprs_v(s, t, repl);
        assert(r.drop_last() =~= rewrite_exprs_v(s.drop_last(), t, repl));
    }
}

pub open spec fn rewrite_lvalue_v(lv: LValueV, t: Seq<char>, repl: ExprV) -> LValueV {
    match lv {
        LValueV::Index1D { base, idx } => LValueV::Index1D {
            base: rewrite_expr_v(base, t, repl),
            idx: rewrite_expr_v(idx, t, repl),
        },
        LValueV::Index2D { base, r, c } => LValueV::Index2D {
            base: rewrite_expr_v(base, t, repl),
            r: rewrite_expr_v(r, t, repl),
            c: rewrite_expr_v(c, t, repl),
        },
        LValueV::Name(n) => LValueV::Name(n),
    }
}

/// The statement with `t` replaced by `repl` in its expressions; a nested
/// loop that rebinds `t` keeps its body, and function declarations are kept
/// whole.
pub open spec fn rewrite_stmt_v(s: StmtV, t: Seq<char>, repl: ExprV) -> StmtV
    decreases s,
{
    let kind = match s.kind {
        StmtKindV::Assign { target, value } => StmtKindV::Assign {
            target: rewrite_lvalue_v(target, t, repl),
            value: rewrite_expr_v(value, t, repl),
        },
        StmtKindV::ExprStmt { expr } => StmtKindV::ExprStmt { expr: rewrite_expr_v(expr, t, repl) },
        StmtKindV::If { cond, then_blk, else_blk } => StmtKindV::If {
            cond: rewrite_expr_v(cond, t, repl),
            then_blk: rewrite_stmts_v(then_blk, t, repl),
            else_blk: match else_blk {
                Some(b) => Some(rewrite_stmts_v(b, t, repl)),
                None => None,
            },
        },
        StmtKindV::While { cond, body } => StmtKindV::While {
            cond: rewrite_expr_v(cond, t, repl),
            body: rewrite_stmts_v(body, t, repl),
        },
        StmtKindV::For { var, seq, body } => if var == t {
            StmtKindV::For { var, seq: rewrite_expr_v(seq, t, repl), body }
        } else {
            StmtKindV::For {
                var,
                seq: rewrite_expr_v(seq, t, repl),
                body: rewrite_stmts_v(body, t, repl),
            }
        },
        StmtKindV::Return { value } => StmtKindV::Return {
            value: match value {
                Some(v) => Some(rewrite_expr_v(v, t, repl)),
                None => None,
            },
        },
        StmtKindV::FnDecl { name, params, body } => StmtKindV::FnDecl { name, params, body },
    };
    StmtV { kind, span: s.span }
}

pub open spec fn rewrite_stmts_v(s: Seq<StmtV>, t: Seq<char>, repl: ExprV) -> Seq<StmtV>
    decreases s,
{
    if s.len() == 0 {
        Seq::empty()
    } else {
        rewrite_stmts_v(s.drop_last(), t, repl).push(rewrite_stmt_v(s.last(), t, repl))
    }
}

pub proof fn lemma_rewrite_stmts(s: Seq<StmtV>, t: Seq<char>, repl: ExprV)
    ensures
        rewrite_stmts_v(s, t, repl).len() == s.len(),
        forall|j: int|
            0 <= j < s.len() ==> #[trigger] rewrite_stmts_v(s, t, repl)[j] == rewrite_stmt_v(
                s[j],
                t,
                repl,
            ),
    decreases s.len(),
{
    if s.len() > 0 {
        lemma_rewrite_stmts(s.drop_last(), t, repl);
    }
}

// ---------------------------------------------------------------------------
// What substitution does to the uses of a variable
// ---------------------------------------------------------------------------

/// Uses of `t` that lie inside 2-D indexing, slices or list literals: the
/// nodes that the rewriter copies as they are.
pub open spec fn opaque_use(e: ExprV, t: Seq<char>) -> bool
    decreases e,
{
    match e.kind {
        ExprKindV::Lit(_) => false,
        ExprKindV::Name(_) => false,
        ExprKindV::Unary { rhs, .. } => opaque_use(*rhs, t),
        ExprKindV::Binary { lhs, rhs, .. } => opaque_use(*lhs, t) || opaque_use(*rhs, t),
        ExprKindV::Call { callee, args } => opaque_use(*callee, t) || any_opaque_use(args, t),
        ExprKindV::RrRange { a, b } => opaque_use(*a, t) || opaque_use(*b, t),
        ExprKindV::RrIndices { x } => opaque_use(*x, t),
        ExprKindV::Index1D { base, idx } => opaque_use(*base, t) || opaque_use(*idx, t),
        ExprKindV::VectorLit(v) => any_opaque_use(v, t),
        _ => uses_var_v(e, t),
    }
}

pub open spec fn any_opaque_use(s: Seq<ExprV>, t: Seq<char>) -> bool
    decreases s,
{
    if s.len() == 0 {
        false
    } else {
        any_opaque_use(s.drop_last(), t) || opaque_use(s.last(), t)
    }
}

/// `t` is read by the assignment target (an assigned name is not a read).
pub open spec fn lvalue_uses_var(lv: LValueV, t: Seq<char>) -> bool {
    match lv {
        LValueV::Name(_) => false,
        LValueV::Index1D { base, idx } => uses_var_v(base, t) || uses_var_v(idx, t),
        LValueV::Index2D { base, r, c } => uses_var_v(base, t) || uses_var_v(r, t) || uses_var_v(
            c,
            t,
        ),
    }
}

/// `t` is read by an expression of the statement: a condition, an assigned
/// value or target, an expression statement, a returned value, a loop's
/// sequence, or a nested statement. A nested loop that rebinds `t` hides its
/// body, and a function definition is a scope of its own.
pub open spec fn stmt_uses_var(s: StmtV, t: Seq<char>) -> bool
    decreases s,
{
    match s.kind {
        StmtKindV::Assign { target, value } => lvalue_uses_var(target, t) || uses_var_v(value, t),
        StmtKindV::ExprStmt { expr } => uses_var_v(expr, t),
        StmtKindV::If { cond, then_blk, else_blk } => uses_var_v(cond, t) || stmts_use_var(
            then_blk,
            t,
        ) || match else_blk {
            Some(b) => stmts_use_var(b, t),
            None => false,
        },
        StmtKindV::While { cond, body } => uses_var_v(cond, t) || stmts_use_var(body, t),
        StmtKindV::For { var, seq, body } => uses_var_v(seq, t) || (var != t && stmts_use_var(
            body,
            t,
        )),
        StmtKindV::Return { value } => match value {
            Some(v) => uses_var_v(v, t),
            None => false,
        },
        StmtKindV::FnDecl { .. } => false,
    }
}

pub open spec fn stmts_use_var(s: Seq<StmtV>, t: Seq<char>) -> bool
    decreases s,
{
    if s.len() == 0 {
        false
    } else {
        stmts_use_var(s.drop_last(), t) || stmt_uses_var(s.last(), t)
    }
}

/// The statement-level counterpart of `opaque_use`, over the same
/// expressions as `stmt_uses_var`.
pub open spec fn stmt_opaque_use(s: StmtV, t: Seq<char>) -> bool
    decreases s,
{
    match s.kind {
        StmtKindV::Assign { target, value } => (match target {
            LValueV::Name(_) => false,
            LValueV::Index1D { base, idx } => opaque_use(base, t) || opaque_use(idx, t),
            LValueV::Index2D { base, r, c } => opaque_use(base, t) || opaque_use(r, t)
                || opaque_use(c, t),
        }) || opaque_use(value, t),
        StmtKindV::ExprStmt { expr } => opaque_use(expr, t),
        StmtKindV::If { cond, then_blk, else_blk } => opaque_use(cond, t) || stmts_opaque_use(
            then_blk,
            t,
        ) || match else_blk {
            Some(b) => stmts_opaque_use(b, t),
            None => false,
        },
        StmtKindV::While { cond, body } => opaque_use(cond, t) || stmts_opaque_use(body, t),
        StmtKindV::For { var, seq, body } => opaque_use(seq, t) || (var != t && stmts_opaque_use(
            body,
            t,
        )),
        StmtKindV::Return { value } => match value {
            Some(v) => opaque_use(v, t),
            None => false,
        },
        StmtKindV::FnDecl { .. } => false,
    }
}

pub open spec fn stmts_opaque_use(s: Seq<StmtV>, t: Seq<char>) -> bool
    decreases s,
{
    if s.len() == 0 {
        false
    } else {
        stmts_opaque_use(s.drop_last(), t) || stmt_opaque_use(s.last(), t)
    }
}

/// Substituting for `t` a replacement that does not read `t` leaves no read
/// of `t` in an expression, except inside the nodes the rewriter copies.
pub proof fn lemma_rewrite_clears_var(e: ExprV, t: Seq<char>, repl: ExprV)
    requires
        !uses_var_v(repl, t),
        !opaque_use(e, t),
    ensures
        !uses_var_v(rewrite_expr_v(e, t, repl), t),
    decreases e,
{
    match e.kind {
        ExprKindV::Unary { rhs, .. } => lemma_rewrite_clears_var(*rhs, t, repl),
        ExprKindV::Binary { lhs, rhs, .. } => {
            lemma_rewrite_clears_var(*lhs, t, repl);
            lemma_rewrite_clears_var(*rhs, t, repl);
        },
        ExprKindV::Call { callee, args } => {
            lemma_rewrite_clears_var(*callee, t, repl);
            lemma_rewrite_clears_vars(args, t, repl);
        },
        ExprKindV::RrRange { a, b } => {
            lemma_rewrite_clears_var(*a, t, repl);
            lemma_rewrite_clears_var(*b, t, repl);
        },
        ExprKindV::RrIndices { x } => lemma_rewrite_clears_var(*x, t, repl),
        ExprKindV::Index1D { base, idx } => {
            lemma_rewrite_clears_var(*base, t, repl);
            lemma_rewrite_clears_var(*idx, t, repl);
        },
        ExprKindV::VectorLit(v) => lemma_rewrite_clears_vars(v, t, repl),
        _ => {},
    }
}

/// The list counterpart of `lemma_rewrite_clears_var`.
pub proof fn lemma_rewrite_clears_vars(s: Seq<ExprV>, t: Seq<char>, repl: ExprV)
    requires
        !uses_var_v(repl, t),
        !any_opaque_use(s, t),
    ensures
        !any_uses_var_v(rewrite_exprs_v(s, t, repl), t),
    decreases s,
{
    if s.len() > 0 {
        lemma_rewrite_clears_vars(s.drop_last(), t, repl);
        lemma_rewrite_clears_var(s.last(), t, repl);
        let r = rewrite_exprs_v(s, t, repl);
        assert(r.drop_last() =~= rewrite_exprs_v(s.drop_last(), t, repl));
    }
}

/// Rewriting a statement substitutes in every expression it reads `t` in:
/// with a replacement that does not read `t`, no read of `t` is left in the
/// rewritten statement (outside a nested loop that rebinds `t`, a function
/// definition, and the nodes the rewriter copies).
pub proof fn lemma_rewrite_stmt_clears_var(s: StmtV, t: Seq<char>, repl: ExprV)
    requires
        !uses_var_v(repl, t),
        !stmt_opaque_use(s, t),
    ensures
        !stmt_uses_var(rewrite_stmt_v(s, t, repl), t),
    decreases s,
{
    match s.kind {
        StmtKindV::Assign { target, value } => {
            lemma_rewrite_clears_var(value, t, repl);
            match target {
                LValueV::Index1D { base, idx } => {
                    lemma_rewrite_clears_var(base, t, repl);
                    lemma_rewrite_clears_var(idx, t, repl);
                },
                LValueV::Index2D { base, r, c } => {
                    lemma_rewrite_clears_var(base, t, repl);
                    lemma_rewrite_clears_var(r, t, repl);
                    lemma_rewrite_clears_var(c, t, repl);
                },
                LValueV::Name(_) => {},
            }
        },
        StmtKindV::ExprStmt { expr } => lemma_rewrite_clears_var(expr, t, repl),
        StmtKindV::If { cond, then_blk, else_blk } => {
            lemma_rewrite_clears_var(cond, t, repl);
            lemma_rewrite_stmts_clear_var(then_blk, t, repl);
            match else_blk {
                Some(b) => lemma_rewrite_stmts_clear_var(b, t, repl),
                None => {},
            }
        },
        StmtKindV::While { cond, body } => {
            lemma_rewrite_clears_var(cond, t, repl);
            lemma_rewrite_stmts_clear_var(body, t, repl);
        },
        StmtKindV::For { var, seq, body } => {
            lemma_rewrite_clears_var(seq, t, repl);
            if var != t {
                lemma_rewrite_stmts_clear_var(body, t, repl);
            }
        },
        StmtKindV::Return { value } => match value {
            Some(v) => lemma_rewrite_clears_var(v, t, repl),
            None => {},
        },
        StmtKindV::FnDecl { .. } => {},
    }
}

/// The list counterpart of `lemma_rewrite_stmt_clears_var`.
pub proof fn lemma_rewrite_stmts_clear_var(s: Seq<StmtV>, t: Seq<char>, repl: ExprV)
    requires
        !uses_var_v(repl, t),
        !stmts_opaque_use(s, t),
    ensures
        !stmts_use_var(rewrite_stmts_v(s, t, repl), t),
    decreases s,
{
    if s.len() > 0 {
        lemma_rewrite_stmts_clear_var(s.drop_last(), t, repl);
        lemma_rewrite_stmt_clears_var(s.last(), t, repl);
        let r = rewrite_stmts_v(s, t, repl);
        assert(r.drop_last() =~= rewrite_stmts_v(s.drop_last(), t, repl));
    }
}

/// Rewriting a variable that a statement does not read changes nothing in
/// it but the annotations of its expressions.
pub proof fn lemma_rewrite_stmt_absent_var(s: StmtV, t: Seq<char>, repl: ExprV)
    requires
        !stmt_uses_var(s, t),
    ensures
        erase_stmt(rewrite_stmt_v(s, t, repl)) == erase_stmt(s),
    decreases s,
{
    match s.kind {
        StmtKindV::Assign { target, value } => {
            lemma_rewrite_absent_var(value, t, repl);
            match target {
                LValueV::Index1D { base, idx } => {
                    lemma_rewrite_absent_var(base, t, repl);
                    lemma_rewrite_absent_var(idx, t, repl);
                },
                LValueV::Index2D { base, r, c } => {
                    lemma_rewrite_absent_var(base, t, repl);
                    lemma_rewrite_absent_var(r, t, repl);
                    lemma_rewrite_absent_var(c, t, repl);
                },
                LValueV::Name(_) => {},
            }
        },
        StmtKindV::ExprStmt { expr } => lemma_rewrite_absent_var(expr, t, repl),
        StmtKindV::If { cond, then_blk, else_blk } => {
            lemma_rewrite_absent_var(cond, t, repl);
            lemma_rewrite_stmts_absent_var(then_blk, t, repl);
            match else_blk {
                Some(b) => lemma_rewrite_stmts_absent_var(b, t, repl),
                None => {},
            }
        },
        StmtKindV::While { cond, body } => {
            lemma_rewrite_absent_var(cond, t, repl);
            lemma_rewrite_stmts_absent_var(body, t, repl);
        },
        StmtKindV::For { var, seq, body } => {
            lemma_rewrite_absent_var(seq, t, repl);
            if var != t {
                lemma_rewrite_stmts_absent_var(body, t, repl);
            }
        },
        StmtKindV::Return { value } => match value {
            Some(v) => lemma_rewrite_absent_var(v, t, repl),
            None => {},
        },
        StmtKindV::FnDecl { .. } => {},
    }
}

/// The list counterpart of `lemma_rewrite_stmt_absent_var`.
pub proof fn lemma_rewrite_stmts_absent_var(s: Seq<StmtV>, t: Seq<char>, repl: ExprV)
    requires
        !stmts_use_var(s, t),
    ensures
        erase_stmts(rewrite_stmts_v(s, t, repl)) == erase_stmts(s),
    decreases s,
{
    if s.len() > 0 {
        lemma_rewrite_stmts_absent_var(s.drop_last(), t, repl);
        lemma_rewrite_stmt_absent_var(s.last(), t, repl);
        let r = rewrite_stmts_v(s, t, repl);
        assert(r.drop_last() =~= rewrite_stmts_v(s.drop_last(), t, repl));
    }
}

/// A loop over `indices(x)`, which counts from 0, becomes a loop over
/// `rr_range(1L, length(x))` whose body reads `i - 1L` for `i`.
pub open spec fn loop_rewrite_v(i: Seq<char>, seq: ExprV, body: Seq<StmtV>, span: Span) -> Option<StmtV> {
    match seq.kind {
        ExprKindV::RrIndices { x } => {
            let one = fresh(ExprKindV::Lit(LitV::Int(1)), span);
            let length_call = fresh(
                ExprKindV::Call {
                    callee: Box::new(fresh(ExprKindV::Name("length"@), span)),
                    args: seq![*x],
                },
                span,
            );
            let new_seq = fresh(
                ExprKindV::RrRange { a: Box::new(one), b: Box::new(length_call) },
                span,
            );
            let repl = fresh(
                ExprKindV::Binary {
                    op: BinOp::Sub,
                    lhs: Box::new(fresh(ExprKindV::Name(i), span)),
                    rhs: Box::new(one),
                },
                span,
            );
            Some(
                StmtV {
                    kind: StmtKindV::For { var: i, seq: new_seq, body: rewrite_stmts_v(body, i, repl) },
                    span,
                },
            )
        },
        _ => None,
    }
}

/// Number of statement nodes in a statement tree.
pub open spec fn stmt_size(s: StmtV) -> nat
    decreases s,
{
    1 + match s.kind {
        StmtKindV::FnDecl { body, .. } => stmts_size(body),
        StmtKindV::If { then_blk, else_blk, .. } => stmts_size(then_blk) + match else_blk {
            Some(b) => stmts_size(b),
            None => 0,
        },
        StmtKindV::While { body, .. } => stmts_size(body),
        StmtKindV::For { body, .. } => stmts_size(body),
        _ => 0,
    }
}

pub open spec fn stmts_size(s: Seq<StmtV>) -> nat
    decreases s,
{
    if s.len() == 0 {
        0
    } else {
        stmts_size(s.drop_last()) + stmt_size(s.last())
    }
}

pub proof fn lemma_stmts_size_elem(s: Seq<StmtV>, j: int)
    requires
        0 <= j < s.len(),
    ensures
        stmt_size(s[j]) <= stmts_size(s),
    decreases s.len(),
{
    if j < s.len() - 1 {
        lemma_stmts_size_elem(s.drop_last(), j);
        assert(s.drop_last()[j] == s[j]);
    }
}

pub proof fn lemma_rewrite_keeps_size(s: StmtV, t: Seq<char>, repl: ExprV)
    ensures
        stmt_size(rewrite_stmt_v(s, t, repl)) == stmt_size(s),
    decreases s,
{
    match s.kind {
        StmtKindV::If { then_blk, else_blk, .. } => {
            lemma_rewrite_keeps_sizes(then_blk, t, repl);
            match else_blk {
                Some(b) => lemma_rewrite_keeps_sizes(b, t, repl),
                None => {},
            }
        },
        StmtKindV::While { body, .. } => lemma_rewrite_keeps_sizes(body, t, repl),
        StmtKindV::For { var, body, .. } => if var != t {
            lemma_rewrite_keeps_sizes(body, t, repl)
        },
        _ => {},
    }
}

pub proof fn lemma_rewrite_keeps_sizes(s: Seq<StmtV>, t: Seq<char>, repl: ExprV)
    ensures
        stmts_size(rewrite_stmts_v(s, t, repl)) == stmts_size(s),
    decreases s,
{
    if s.len() > 0 {
        lemma_rewrite_keeps_sizes(s.drop_last(), t, repl);
        lemma_rewrite_keeps_size(s.last(), t, repl);
        assert(rewrite_stmts_v(s, t, repl).drop_last() == rewrite_stmts_v(s.drop_last(), t, repl));
    }
}

/// The optimized form of a statement, or `None` where the optimizer stops
/// (a vectorizable map loop whose target is not a plain name).
pub open spec fn optimize_stmt_v(s: StmtV) -> Option<StmtV>
    decreases stmt_size(s), 0nat,
{
    match s.kind {
        StmtKindV::For { var, seq, body } => {
            if map_loop_aborts(var, seq, body) {
                None
            } else {
                match loop_vectorize_v(var, seq, body, s.span) {
                    Some(v) => Some(v),
                    None => match seq.kind {
                        ExprKindV::RrIndices { .. } => {
                            let rw = loop_rewrite_v(var, seq, body, s.span).unwrap();
                            match rw.kind {
                                StmtKindV::For { var: v2, seq: s2, body: b2 } => {
                                    proof {
                                        lemma_loop_rewrite_size(var, seq, body, s.span);
                                    }
                                    match optimize_stmts_v(b2) {
                                        Some(b) => Some(
                                            StmtV {
                                                kind: StmtKindV::For { var: v2, seq: s2, body: b },
                                                span: s.span,
                                            },
                                        ),
                                        None => None,
                                    }
                                },
                                _ => Some(rw),
                            }
                        },
                        _ => match optimize_stmts_v(body) {
                            Some(b) => Some(
                                StmtV { kind: StmtKindV::For { var, seq, body: b }, span: s.span },
                            ),
                            None => None,
                        },
                    },
                }
            }
        },
        StmtKindV::If { cond, then_blk, else_blk } => match optimize_stmts_v(then_blk) {
            Some(t) => match else_blk {
                Some(b) => match optimize_stmts_v(b) {
                    Some(e) => Some(
                        StmtV {
                            kind: StmtKindV::If { cond, then_blk: t, else_blk: Some(e) },
                            span: s.span,
                        },
                    ),
                    None => None,
                },
                None => Some(
                    StmtV { kind: StmtKindV::If { cond, then_blk: t, else_blk: None }, span: s.span },
                ),
            },
            None => None,
        },
        StmtKindV::While { cond, body } => match optimize_stmts_v(body) {
            Some(b) => Some(StmtV { kind: StmtKindV::While { cond, body: b }, span: s.span }),
            None => None,
        },
        StmtKindV::FnDecl { name, params, body } => match optimize_stmts_v(body) {
            Some(b) => Some(
                StmtV { kind: StmtKindV::FnDecl { name, params, body: b }, span: s.span },
            ),
            None => None,
        },
        _ => Some(s),
    }
}

/// The optimized form of each statement, in order; `None` if the optimizer
/// stops on any of them.
pub open spec fn optimize_stmts_v(s: Seq<StmtV>) -> Option<Seq<StmtV>>
    decreases stmts_size(s), s.len() + 1,
{
    if s.len() == 0 {
        Some(Seq::empty())
    } else {
        proof {
            lemma_stmts_size_elem(s, s.len() - 1);
        }
        match optimize_stmts_v(s.drop_last()) {
            Some(init) => match optimize_stmt_v(s.last()) {
                Some(last) => Some(init.push(last)),
                None => None,
            },
            None => None,
        }
    }
}

pub proof fn lemma_loop_rewrite_size(i: Seq<char>, seq: ExprV, body: Seq<StmtV>, span: Span)
    requires
        loop_rewrite_v(i, seq, body, span) is Some,
    ensures
        loop_rewrite_v(i, seq, body, span).unwrap().kind matches StmtKindV::For { body: b2, .. }
            && stmts_size(b2) == stmts_size(body),
{
    match seq.kind {
        ExprKindV::RrIndices { x } => {
            let one = fresh(ExprKindV::Lit(LitV::Int(1)), span);
            let repl = fresh(
                ExprKindV::Binary {
                    op: BinOp::Sub,
                    lhs: Box::new(fresh(ExprKindV::Name(i), span)),
                    rhs: Box::new(one),
                },
                span,
            );
            lemma_rewrite_keeps_sizes(body, i, repl);
        },
        _ => {},
    }
}

/// The optimizer keeps source locations: each optimized statement has the
/// span of the statement it was made from, so the source map still points
/// at the right place.
pub proof fn lemma_optimize_keeps_spans(s: Seq<StmtV>)
    ensures
        optimize_stmts_v(s) matches Some(r) ==> r.len() == s.len() && forall|j: int|
            0 <= j < s.len() ==> (#[trigger] r[j]).span == s[j].span,
{
    lemma_optimize_stmts(s);
    if optimize_stmts_v(s) is Some {
        assert forall|j: int| 0 <= j < s.len() implies (#[trigger] optimize_stmts_v(s)->0[j]).span
            == s[j].span by {
            assert(optimize_stmt_v(s[j]) is Some);
            lemma_optimize_keeps_span(s[j]);
        }
    }
}

/// A single optimized statement keeps its span.
pub proof fn lemma_optimize_keeps_span(s: StmtV)
    ensures
        optimize_stmt_v(s) matches Some(r) ==> r.span == s.span,
{
    match s.kind {
        StmtKindV::For { var, seq, body } => {
            if !map_loop_aborts(var, seq, body) && loop_vectorize_v(var, seq, body, s.span) is None {
                match seq.kind {
                    ExprKindV::RrIndices { .. } => {
                        assert(loop_rewrite_v(var, seq, body, s.span) is Some);
                        assert(loop_rewrite_v(var, seq, body, s.span).unwrap().span == s.span);
                    },
                    _ => {},
                }
            }
        },
        _ => {},
    }
}

/// Assignments, expression statements and returns pass through the
/// optimizer unchanged.
pub proof fn lemma_optimize_simple_stmt(s: StmtV)
    requires
        s.kind is Assign || s.kind is ExprStmt || s.kind is Return,
    ensures
        optimize_stmt_v(s) == Some(s),
{
}

/// The optimizer works statement by statement: it succeeds on a list
/// exactly when it succeeds on each of its statements, and then keeps their
/// number and optimizes each one on its own.
pub proof fn lemma_optimize_stmts(s: Seq<StmtV>)
    ensures
        optimize_stmts_v(s) is Some <==> forall|j: int|
            0 <= j < s.len() ==> (#[trigger] optimize_stmt_v(s[j])) is Some,
        optimize_stmts_v(s) is Some ==> optimize_stmts_v(s)->0.len() == s.len() && forall|j: int|
            0 <= j < s.len() ==> #[trigger] optimize_stmts_v(s)->0[j] == optimize_stmt_v(s[j])->0,
    decreases s.len(),
{
    if s.len() > 0 {
        let init = s.drop_last();
        lemma_optimize_stmts(init);
        assert forall|j: int| 0 <= j < s.len() - 1 implies init[j] == s[j] by {}
        if optimize_stmts_v(init) is Some && optimize_stmt_v(s.last()) is Some {
            let r = optimize_stmts_v(s)->0;
            assert(r == optimize_stmts_v(init)->0.push(optimize_stmt_v(s.last())->0));
            assert forall|j: int| 0 <= j < s.len() implies #[trigger] r[j] == optimize_stmt_v(
                s[j],
            )->0 by {
                if j < s.len() - 1 {
                    assert(r[j] == optimize_stmts_v(init)->0[j]);
                }
            }
        }
        if forall|j: int| 0 <= j < s.len() ==> (#[trigger] optimize_stmt_v(s[j])) is Some {
            assert forall|j: int| 0 <= j < init.len() implies (#[trigger] optimize_stmt_v(
                init[j],
            )) is Some by {
                assert(init[j] == s[j]);
            }
            assert(optimize_stmt_v(s[s.len() - 1]) is Some);
        }
        if !(optimize_stmts_v(init) is Some) {
            let j = choose|j: int| 0 <= j < init.len() && !((#[trigger] optimize_stmt_v(init[j])) is Some);
            assert(init[j] == s[j]);
        }
    }
}

// ---------------------------------------------------------------------------
// The optimizer
// ---------------------------------------------------------------------------

/// The legacy IR loop optimizer.
pub struct Optimizer;

impl Optimizer {
    pub fn new() -> (o: Optimizer) {
        Optimizer
    }

    fn extract_name(&self, expr: &IRExpr) -> (r: Option<String>)
        ensures
            match expr@.kind {
                ExprKindV::Name(n) => r is Some && r->0@ == n,
                _ => r is None,
            },
    {
        match &expr.kind {
            IRExprKind::Name(n) => Some(n.clone()),
            _ => None,
        }
    }

    fn is_indexing(&self, expr: &IRExpr, base_name: &str, idx_name: &str) -> (r: bool)
        ensures
            r == is_indexing_v(expr@, base_name@, idx_name@),
    {
        assert(expr@.kind == view_kind(expr.kind));
        if let IRExprKind::Index1D { base, idx } = &expr.kind {
            assert(base@.kind == view_kind(base.kind));
            assert(idx@.kind == view_kind(idx.kind));
            if let IRExprKind::Name(b) = &base.kind {
                if str_eq(b.as_str(), base_name) {
                    if let IRExprKind::Name(i) = &idx.kind {
                        return str_eq(i.as_str(), idx_name);
                    }
                }
            }
        }
        false
    }

    fn is_vector_safe_call(&self, name: &str) -> (r: bool)
        ensures
            r == vector_safe_call_v(name@),
    {
        str_eq(name, "abs") || str_eq(name, "sqrt") || str_eq(name, "sin") || str_eq(name, "cos")
            || str_eq(name, "tan") || str_eq(name, "log") || str_eq(name, "exp") || str_eq(
            name,
            "floor",
        ) || str_eq(name, "ceiling") || str_eq(name, "round")
    }

    fn uses_var(&self, expr: &IRExpr, var: &str) -> (r: bool)
        ensures
            r == uses_var_v(expr@, var@),
        decreases expr,
    {
        assert(expr@.kind == view_kind(expr.kind));
        match &expr.kind {
            IRExprKind::Name(n) => str_eq(n.as_str(), var),
            IRExprKind::Lit(_) => false,
            IRExprKind::Unary { rhs, .. } => self.uses_var(rhs, var),
            IRExprKind::Binary { lhs, rhs, .. } => self.uses_var(lhs, var) || self.uses_var(
                rhs,
                var,
            ),
            IRExprKind::Call { callee, args } => self.uses_var(callee, var) || self.any_uses_var(
                args,
                var,
            ),
            IRExprKind::RrRange { a, b } => self.uses_var(a, var) || self.uses_var(b, var),
            IRExprKind::RrIndices { x } => self.uses_var(x, var),
            IRExprKind::Index1D { base, idx } => self.uses_var(base, var) || self.uses_var(
                idx,
                var,
            ),
            IRExprKind::Index2D { base, r, c } => self.uses_var(base, var) || self.uses_var(r, var)
                || self.uses_var(c, var),
            IRExprKind::Slice1D { base, a, b } => self.uses_var(base, var) || self.uses_var(a, var)
                || self.uses_var(b, var),
            IRExprKind::VectorLit(v) => self.any_uses_var(v, var),
            IRExprKind::ListLit(fields) => self.any_field_uses_var(fields, var),
        }
    }

    fn any_uses_var(&self, v: &Vec<IRExpr>, var: &str) -> (r: bool)
        ensures
            r == any_uses_var_v(view_exprs(v@), var@),
        decreases v@,
    {
        proof {
            lemma_view_exprs(v@);
            lemma_any_uses_var(view_exprs(v@), var@);
        }
        let mut found = false;
        let mut i: usize = 0;
        while !found && i < v.len()
            invariant
                i <= v@.len(),
                view_exprs(v@).len() == v@.len(),
                forall|j: int| 0 <= j < v@.len() ==> #[trigger] view_exprs(v@)[j] == view_expr(v@[j]),
                found == exists|j: int| 0 <= j < i && uses_var_v(#[trigger] view_exprs(v@)[j], var@),
            decreases v@.len() - i,
        {
            assert(decreases_to!(v@ => v@[i as int]));
            found = self.uses_var(&v[i], var);
            assert(view_exprs(v@)[i as int] == view_expr(v@[i as int]));
            i = i + 1;
        }
        found
    }

    fn any_field_uses_var(&self, v: &Vec<(String, IRExpr)>, var: &str) -> (r: bool)
        ensures
            r == any_field_uses_var_v(view_fields(v@), var@),
        decreases v@,
    {
        proof {
            lemma_view_fields(v@);
            lemma_any_field_uses_var(view_fields(v@), var@);
        }
        let mut found = false;
        let mut i: usize = 0;
        while !found && i < v.len()
            invariant
                i <= v@.len(),
                view_fields(v@).len() == v@.len(),
                forall|j: int|
                    0 <= j < v@.len() ==> #[trigger] view_fields(v@)[j] == (v@[j].0@, view_expr(v@[j].1)),
                found == exists|j: int|
                    0 <= j < i && uses_var_v(#[trigger] view_fields(v@)[j].1, var@),
            decreases v@.len() - i,
        {
            assert(decreases_to!(v@ => v@[i as int]));
            let (_, e) = &v[i];
            found = self.uses_var(e, var);
            assert(view_fields(v@)[i as int].1 == view_expr(v@[i as int].1));
            i = i + 1;
        }
        found
    }

    #[verifier::loop_isolation(false)]
    fn try_vectorize_expr(
        &self,
        expr: &IRExpr,
        x_name: &str,
        iter_var: &str,
        x_vec_expr: &IRExpr,
    ) -> (r: Option<IRExpr>)
        ensures
            view_opt_expr(r) == vectorize_expr_v(expr@, x_name@, iter_var@, x_vec_expr@),
    {
        assert(expr@.kind == view_kind(expr.kind));
        match &expr.kind {
            IRExprKind::Binary { op, lhs, rhs } => {
                let is_lhs_xi = self.is_indexing(lhs, x_name, iter_var);
                let is_rhs_xi = self.is_indexing(rhs, x_name, iter_var);

                if is_lhs_xi && !self.uses_var(rhs, iter_var) {
                    return Some(
                        IRExpr::new(
                            IRExprKind::Binary {
                                op: *op,
                                lhs: Box::new(x_vec_expr.deep_clone()),
                                rhs: Box::new(rhs.deep_clone()),
                            },
                            expr.span,
                        ),
                    );
                }
                if is_rhs_xi && !self.uses_var(lhs, iter_var) {
                    return Some(
                        IRExpr::new(
                            IRExprKind::Binary {
                                op: *op,
                                lhs: Box::new(lhs.deep_clone()),
                                rhs: Box::new(x_vec_expr.deep_clone()),
                            },
                            expr.span,
                        ),
                    );
                }
                if is_lhs_xi && is_rhs_xi {
                    return Some(
                        IRExpr::new(
                            IRExprKind::Binary {
                                op: *op,
                                lhs: Box::new(x_vec_expr.deep_clone()),
                                rhs: Box::new(x_vec_expr.deep_clone()),
                            },
                            expr.span,
                        ),
                    );
                }
            },
            IRExprKind::Unary { op, rhs } => {
                if self.is_indexing(rhs, x_name, iter_var) {
                    return Some(
                        IRExpr::new(
                            IRExprKind::Unary { op: *op, rhs: Box::new(x_vec_expr.deep_clone()) },
                            expr.span,
                        ),
                    );
                }
            },
            IRExprKind::Call { callee, args } => {
                if self.uses_var(callee, iter_var) {
                    return None;
                }
                assert(callee@.kind == view_kind(callee.kind));
                let callee_name = match &callee.kind {
                    IRExprKind::Name(n) => n,
                    _ => {
                        return None;
                    },
                };
                if !self.is_vector_safe_call(callee_name.as_str()) {
                    return None;
                }
                let ghost av = view_exprs(args@);
                proof {
                    lemma_view_exprs(args@);
                }
                let mut vec_args: Vec<IRExpr> = Vec::new();
                let mut found_xi = false;
                let mut i: usize = 0;
                while i < args.len()
                    invariant
                        i <= args@.len(),
                        av == view_exprs(args@),
                        av.len() == args@.len(),
                        forall|j: int| 0 <= j < args@.len() ==> #[trigger] av[j] == view_expr(args@[j]),
                        vec_args@.len() == i,
                        forall|j: int|
                            0 <= j < i ==> is_indexing_v(#[trigger] av[j], x_name@, iter_var@)
                                || !uses_var_v(av[j], iter_var@),
                        forall|j: int|
                            0 <= j < i ==> view_expr(#[trigger] vec_args@[j]) == vectorized_args(
                                av,
                                x_name@,
                                iter_var@,
                                x_vec_expr@,
                            )[j],
                        found_xi == exists|j: int|
                            0 <= j < i && is_indexing_v(#[trigger] av[j], x_name@, iter_var@),
                    decreases args@.len() - i,
                {
                    let arg = &args[i];
                    assert(av[i as int] == arg@);
                    if self.is_indexing(arg, x_name, iter_var) {
                        vec_args.push(x_vec_expr.deep_clone());
                        found_xi = true;
                    } else if !self.uses_var(arg, iter_var) {
                        vec_args.push(arg.deep_clone());
                    } else {
                        assert(!args_vectorizable(av, x_name@, iter_var@));
                        return None;
                    }
                    i = i + 1;
                }
                if found_xi {
                    proof {
                        lemma_view_exprs(vec_args@);
                        assert(view_exprs(vec_args@) =~= vectorized_args(
                            av,
                            x_name@,
                            iter_var@,
                            x_vec_expr@,
                        ));
                    }
                    return Some(
                        IRExpr::new(
                            IRExprKind::Call { callee: Box::new(callee.deep_clone()), args: vec_args },
                            expr.span,
                        ),
                    );
                }
            },
            _ => {},
        }
        None
    }

    fn try_loop_map(&self, iter_var: &str, seq: &IRExpr, body: &Vec<IRStmt>, for_span: Span) -> (r:
        Option<IRStmt>)
        requires
            !map_loop_aborts(iter_var@, seq@, view_stmts(body@)),
        ensures
            view_opt_stmt(r) == loop_map_v(iter_var@, seq@, view_stmts(body@), for_span),
    {
        assert(seq@.kind == view_kind(seq.kind));
        let x_expr = match &seq.kind {
            IRExprKind::RrIndices { x } => x,
            _ => {
                return None;
            },
        };
        proof {
            lemma_view_stmts(body@);
        }
        if body.len() != 1 {
            return None;
        }
        assert(view_stmts(body@)[0] == view_stmt(body@[0]));
        if let IRStmtKind::Assign { target, value } = &body[0].kind {
            let y_expr = match target {
                IRLValue::Index1D { base, idx } => {
                    assert(idx@.kind == view_kind(idx.kind));
                    if let IRExprKind::Name(n) = &idx.kind {
                        if str_eq(n.as_str(), iter_var) {
                            base
                        } else {
                            return None;
                        }
                    } else {
                        return None;
                    }
                },
                _ => {
                    return None;
                },
            };
            assert(x_expr@.kind == view_kind(x_expr.kind));
            let x_name = match &x_expr.kind {
                IRExprKind::Name(n) => n,
                _ => {
                    return None;
                },
            };
            if let Some(vec_expr) = self.try_vectorize_expr(value, x_name.as_str(), iter_var, x_expr) {
                assert(y_expr@.kind == view_kind(y_expr.kind));
                let y_name = self.extract_name(y_expr).unwrap();
                return Some(
                    IRStmt {
                        kind: IRStmtKind::Assign { target: IRLValue::Name(y_name), value: vec_expr },
                        span: for_span,
                    },
                );
            }
        }
        None
    }

    fn try_loop_reduction(
        &self,
        iter_var: &str,
        seq: &IRExpr,
        body: &Vec<IRStmt>,
        for_span: Span,
    ) -> (r: Option<IRStmt>)
        ensures
            view_opt_stmt(r) == loop_reduction_v(iter_var@, seq@, view_stmts(body@), for_span),
    {
        assert(seq@.kind == view_kind(seq.kind));
        let x_expr = match &seq.kind {
            IRExprKind::RrIndices { x } => x,
            _ => {
                return None;
            },
        };
        assert(x_expr@.kind == view_kind(x_expr.kind));
        let x_name = match &x_expr.kind {
            IRExprKind::Name(n) => n,
            _ => {
                return None;
            },
        };
        proof {
            lemma_view_stmts(body@);
        }
        if body.len() != 1 {
            return None;
        }
        assert(view_stmts(body@)[0] == view_stmt(body@[0]));
        if let IRStmtKind::Assign { target, value } = &body[0].kind {
            let acc_name = match target {
                IRLValue::Name(n) => n,
                _ => {
                    return None;
                },
            };
            assert(value@.kind == view_kind(value.kind));
            if let IRExprKind::Binary { op, lhs, rhs } = &value.kind {
                let func_name = match op {
                    BinOp::Add => String::from_str("sum"),
                    BinOp::Mul => String::from_str("prod"),
                    _ => {
                        return None;
                    },
                };
                let ghost fname = func_name@;
                assert(reduction_builtin(*op) == Some(fname));
                assert(lhs@.kind == view_kind(lhs.kind));
                assert(rhs@.kind == view_kind(rhs.kind));
                let is_lhs_acc = match &lhs.kind {
                    IRExprKind::Name(n) => str_eq(n.as_str(), acc_name.as_str()),
                    _ => false,
                };
                let is_rhs_acc = match &rhs.kind {
                    IRExprKind::Name(n) => str_eq(n.as_str(), acc_name.as_str()),
                    _ => false,
                };

                let target_subexpr = if is_lhs_acc {
                    rhs
                } else if is_rhs_acc {
                    lhs
                } else {
                    return None;
                };

                if self.is_indexing(target_subexpr, x_name.as_str(), iter_var) {
                    let mut call_args: Vec<IRExpr> = Vec::new();
                    call_args.push(x_expr.deep_clone());
                    proof {
                        lemma_view_exprs(call_args@);
                        assert(view_exprs(call_args@) =~= seq![x_expr@]);
                    }
                    let callee_e = IRExpr::new(IRExprKind::Name(func_name), for_span);
                    assert(callee_e@ == fresh(ExprKindV::Name(fname), for_span));
                    let vec_call = IRExpr::new(
                        IRExprKind::Call { callee: Box::new(callee_e), args: call_args },
                        for_span,
                    );
                    assert(vec_call@ == fresh(
                        ExprKindV::Call {
                            callee: Box::new(fresh(ExprKindV::Name(fname), for_span)),
                            args: seq![x_expr@],
                        },
                        for_span,
                    ));

                    let acc_ref = IRExpr::new(IRExprKind::Name(acc_name.clone()), for_span);
                    assert(acc_ref@ == fresh(ExprKindV::Name(acc_name@), for_span));
                    let new_value = IRExpr::new(
                        IRExprKind::Binary { op: *op, lhs: Box::new(acc_ref), rhs: Box::new(vec_call) },
                        for_span,
                    );
                    let res = IRStmt {
                        kind: IRStmtKind::Assign {
                            target: IRLValue::Name(acc_name.clone()),
                            value: new_value,
                        },
                        span: for_span,
                    };
                    assert(res@.kind == view_stmt_kind(res.kind));
                    return Some(res);
                }
            }
        }
        None
    }

    fn try_loop_vectorize(
        &self,
        iter_var: &str,
        seq: &IRExpr,
        body: &Vec<IRStmt>,
        for_span: Span,
    ) -> (r: Option<IRStmt>)
        requires
            !map_loop_aborts(iter_var@, seq@, view_stmts(body@)),
        ensures
            view_opt_stmt(r) == loop_vectorize_v(iter_var@, seq@, view_stmts(body@), for_span),
    {
        if let Some(map_stmt) = self.try_loop_map(iter_var, seq, body, for_span) {
            return Some(map_stmt);
        }
        if let Some(red_stmt) = self.try_loop_reduction(iter_var, seq, body, for_span) {
            return Some(red_stmt);
        }
        None
    }

    fn rewrite_expr(&self, expr: &IRExpr, target_var: &str, replacement: &IRExpr) -> (r: IRExpr)
        ensures
            r@ == rewrite_expr_v(expr@, target_var@, replacement@),
        decreases expr,
    {
        assert(expr@.kind == view_kind(expr.kind));
        let kind = match &expr.kind {
            IRExprKind::Name(n) => {
                if str_eq(n.as_str(), target_var) {
                    return replacement.deep_clone();
                }
                IRExprKind::Name(n.clone())
            },
            IRExprKind::Unary { op, rhs } => IRExprKind::Unary {
                op: *op,
                rhs: Box::new(self.rewrite_expr(rhs, target_var, replacement)),
            },
            IRExprKind::Binary { op, lhs, rhs } => IRExprKind::Binary {
                op: *op,
                lhs: Box::new(self.rewrite_expr(lhs, target_var, replacement)),
                rhs: Box::new(self.rewrite_expr(rhs, target_var, replacement)),
            },
            IRExprKind::Call { callee, args } => IRExprKind::Call {
                callee: Box::new(self.rewrite_expr(callee, target_var, replacement)),
                args: self.rewrite_exprs(args, target_var, replacement),
            },
            IRExprKind::Index1D { base, idx } => IRExprKind::Index1D {
                base: Box::new(self.rewrite_expr(base, target_var, replacement)),
                idx: Box::new(self.rewrite_expr(idx, target_var, replacement)),
            },
            IRExprKind::RrIndices { x } => IRExprKind::RrIndices {
                x: Box::new(self.rewrite_expr(x, target_var, replacement)),
            },
            IRExprKind::RrRange { a, b } => IRExprKind::RrRange {
                a: Box::new(self.rewrite_expr(a, target_var, replacement)),
                b: Box::new(self.rewrite_expr(b, target_var, replacement)),
            },
            IRExprKind::VectorLit(v) => IRExprKind::VectorLit(
                self.rewrite_exprs(v, target_var, replacement),
            ),
            _ => expr.deep_clone().kind,
        };
        IRExpr::new(kind, expr.span)
    }

    fn rewrite_exprs(&self, v: &Vec<IRExpr>, target_var: &str, replacement: &IRExpr) -> (r: Vec<
        IRExpr,
    >)
        ensures
            view_exprs(r@) == rewrite_exprs_v(view_exprs(v@), target_var@, replacement@),
        decreases v@,
    {
        proof {
            lemma_view_exprs(v@);
        }
        let mut out: Vec<IRExpr> = Vec::new();
        let mut i: usize = 0;
        while i < v.len()
            invariant
                i <= v@.len(),
                out@.len() == i,
                forall|j: int|
                    0 <= j < i ==> view_expr(#[trigger] out@[j]) == rewrite_expr_v(
                        view_expr(v@[j]),
                        target_var@,
                        replacement@,
                    ),
            decreases v@.len() - i,
        {
            assert(decreases_to!(v@ => v@[i as int]));
            out.push(self.rewrite_expr(&v[i], target_var, replacement));
            i = i + 1;
        }
        proof {
            lemma_view_exprs(out@);
            lemma_rewrite_exprs(view_exprs(v@), target_var@, replacement@);
            assert(view_exprs(out@) =~= rewrite_exprs_v(view_exprs(v@), target_var@, replacement@));
        }
        out
    }

    fn rewrite_lvalue(&self, lv: &IRLValue, target_var: &str, replacement: &IRExpr) -> (r: IRLValue)
        ensures
            r@ == rewrite_lvalue_v(lv@, target_var@, replacement@),
    {
        match lv {
            IRLValue::Index1D { base, idx } => IRLValue::Index1D {
                base: Box::new(self.rewrite_expr(base, target_var, replacement)),
                idx: Box::new(self.rewrite_expr(idx, target_var, replacement)),
            },
            IRLValue::Index2D { base, r, c } => IRLValue::Index2D {
                base: Box::new(self.rewrite_expr(base, target_var, replacement)),
                r: Box::new(self.rewrite_expr(r, target_var, replacement)),
                c: Box::new(self.rewrite_expr(c, target_var, replacement)),
            },
            _ => lv.deep_clone(),
        }
    }

    fn rewrite_stmts(&self, stmts: &Vec<IRStmt>, target_var: &str, replacement: &IRExpr) -> (r: Vec<
        IRStmt,
    >)
        ensures
            view_stmts(r@) == rewrite_stmts_v(view_stmts(stmts@), target_var@, replacement@),
        decreases stmts@,
    {
        proof {
            lemma_view_stmts(stmts@);
        }
        let mut out: Vec<IRStmt> = Vec::new();
        let mut i: usize = 0;
        while i < stmts.len()
            invariant
                i <= stmts@.len(),
                out@.len() == i,
                forall|j: int|
                    0 <= j < i ==> view_stmt(#[trigger] out@[j]) == rewrite_stmt_v(
                        view_stmt(stmts@[j]),
                        target_var@,
                        replacement@,
                    ),
            decreases stmts@.len() - i,
        {
            assert(decreases_to!(stmts@ => stmts@[i as int]));
            out.push(self.rewrite_stmt(&stmts[i], target_var, replacement));
            i = i + 1;
        }
        proof {
            lemma_view_stmts(out@);
            lemma_rewrite_stmts(view_stmts(stmts@), target_var@, replacement@);
            assert(view_stmts(out@) =~= rewrite_stmts_v(
                view_stmts(stmts@),
                target_var@,
                replacement@,
            ));
        }
        out
    }

    fn rewrite_stmt(&self, stmt: &IRStmt, target_var: &str, replacement: &IRExpr) -> (r: IRStmt)
        ensures
            r@ == rewrite_stmt_v(stmt@, target_var@, replacement@),
        decreases stmt,
    {
        let kind = match &stmt.kind {
            IRStmtKind::Assign { target, value } => IRStmtKind::Assign {
                target: self.rewrite_lvalue(target, target_var, replacement),
                value: self.rewrite_expr(value, target_var, replacement),
            },
            IRStmtKind::ExprStmt { expr } => IRStmtKind::ExprStmt {
                expr: self.rewrite_expr(expr, target_var, replacement),
            },
            IRStmtKind::If { cond, then_blk, else_blk } => IRStmtKind::If {
                cond: self.rewrite_expr(cond, target_var, replacement),
                then_blk: self.rewrite_stmts(then_blk, target_var, replacement),
                else_blk: match else_blk {
                    Some(b) => Some(self.rewrite_stmts(b, target_var, replacement)),
                    None => None,
                },
            },
            IRStmtKind::While { cond, body } => IRStmtKind::While {
                cond: self.rewrite_expr(cond, target_var, replacement),
                body: self.rewrite_stmts(body, target_var, replacement),
            },
            IRStmtKind::For { var, seq, body } => {
                if str_eq(var.as_str(), target_var) {
                    IRStmtKind::For {
                        var: var.clone(),
                        seq: self.rewrite_expr(seq, target_var, replacement),
                        body: clone_stmts(body),
                    }
                } else {
                    IRStmtKind::For {
                        var: var.clone(),
                        seq: self.rewrite_expr(seq, target_var, replacement),
                        body: self.rewrite_stmts(body, target_var, replacement),
                    }
                }
            },
            IRStmtKind::Return { value } => IRStmtKind::Return {
                value: match value {
                    Some(v) => Some(self.rewrite_expr(v, target_var, replacement)),
                    None => None,
                },
            },
            _ => stmt.deep_clone().kind,
        };
        IRStmt { kind, span: stmt.span }
    }

    fn try_loop_rewrite(&self, iter_var: &str, seq: &IRExpr, body: &Vec<IRStmt>, for_span: Span) -> (r:
        Option<IRStmt>)
        ensures
            view_opt_stmt(r) == loop_rewrite_v(iter_var@, seq@, view_stmts(body@), for_span),
    {
        assert(seq@.kind == view_kind(seq.kind));
        let x_expr = match &seq.kind {
            IRExprKind::RrIndices { x } => x,
            _ => {
                return None;
            },
        };

        let mut length_args: Vec<IRExpr> = Vec::new();
        length_args.push(x_expr.deep_clone());
        proof {
            lemma_view_exprs(length_args@);
            assert(view_exprs(length_args@) =~= seq![x_expr@]);
        }
        let length_name = IRExpr::new(IRExprKind::Name(String::from_str("length")), for_span);
        assert(length_name@ == fresh(ExprKindV::Name("length"@), for_span));
        let length_call = IRExpr::new(
            IRExprKind::Call { callee: Box::new(length_name), args: length_args },
            for_span,
        );
        assert(length_call@ == fresh(
            ExprKindV::Call {
                callee: Box::new(fresh(ExprKindV::Name("length"@), for_span)),
                args: seq![x_expr@],
            },
            for_span,
        ));
        let one_a = IRExpr::new(IRExprKind::Lit(Lit::Int(1)), for_span);
        assert(one_a@ == fresh(ExprKindV::Lit(LitV::Int(1)), for_span));
        let new_seq = IRExpr::new(
            IRExprKind::RrRange { a: Box::new(one_a), b: Box::new(length_call) },
            for_span,
        );

        let iter_name = IRExpr::new(IRExprKind::Name(String::from_str(iter_var)), for_span);
        assert(iter_name@ == fresh(ExprKindV::Name(iter_var@), for_span));
        let one_b = IRExpr::new(IRExprKind::Lit(Lit::Int(1)), for_span);
        assert(one_b@ == fresh(ExprKindV::Lit(LitV::Int(1)), for_span));
        let replacement = IRExpr::new(
            IRExprKind::Binary { op: BinOp::Sub, lhs: Box::new(iter_name), rhs: Box::new(one_b) },
            for_span,
        );

        assert(replacement@ == fresh(
            ExprKindV::Binary {
                op: BinOp::Sub,
                lhs: Box::new(fresh(ExprKindV::Name(iter_var@), for_span)),
                rhs: Box::new(fresh(ExprKindV::Lit(LitV::Int(1)), for_span)),
            },
            for_span,
        ));
        let new_body = self.rewrite_stmts(body, iter_var, &replacement);

        Some(
            IRStmt {
                kind: IRStmtKind::For { var: String::from_str(iter_var), seq: new_seq, body: new_body },
                span: for_span,
            },
        )
    }

    /// Optimizes a statement list: element-wise map and reduction loops over
    /// `indices(x)` become vector operations, the remaining loops over
    /// `indices(x)` are rewritten to 1-based iteration, and nested bodies
    /// are optimized in turn.
    pub fn optimize_stmts(&self, stmts: Vec<IRStmt>) -> (out: Vec<IRStmt>)
        requires
            optimize_stmts_v(view_stmts(stmts@)) is Some,
        ensures
            view_stmts(out@) == optimize_stmts_v(view_stmts(stmts@))->0,
        decreases stmts_size(view_stmts(stmts@)), 1nat,
    {
        let ghost orig = stmts@;
        let ghost n = orig.len();
        proof {
            lemma_view_stmts(orig);
            lemma_optimize_stmts(view_stmts(orig));
            assert forall|j: int| 0 <= j < n implies (#[trigger] optimize_stmt_v(
                view_stmt(orig[j]),
            )) is Some by {
                assert(view_stmts(orig)[j] == view_stmt(orig[j]));
            }
        }
        let mut rest = stmts;
        let mut done_rev: Vec<IRStmt> = Vec::new();
        while rest.len() > 0
            invariant
                orig == stmts@,
                n == orig.len(),
                rest@ == orig.subrange(0, rest@.len() as int),
                done_rev@.len() == n - rest@.len(),
                view_stmts(orig).len() == n,
                forall|j: int| 0 <= j < n ==> #[trigger] view_stmts(orig)[j] == view_stmt(orig[j]),
                forall|j: int| 0 <= j < n ==> (#[trigger] optimize_stmt_v(view_stmt(orig[j]))) is Some,
                forall|j: int|
                    0 <= j < done_rev@.len() ==> view_stmt(#[trigger] done_rev@[j]) == optimize_stmt_v(
                        view_stmt(orig[n - 1 - j]),
                    )->0,
            decreases rest@.len(),
        {
            let k = rest.len() - 1;
            let s = rest.pop().unwrap();
            proof {
                assert(s == orig[k as int]);
                lemma_stmts_size_elem(view_stmts(orig), k as int);
                assert(stmt_size(s@) <= stmts_size(view_stmts(orig)));
            }
            let o = self.optimize_stmt(s);
            done_rev.push(o);
        }
        let mut out: Vec<IRStmt> = Vec::new();
        while done_rev.len() > 0
            invariant
                n == orig.len(),
                out@.len() + done_rev@.len() == n,
                forall|j: int|
                    0 <= j < done_rev@.len() ==> view_stmt(#[trigger] done_rev@[j]) == optimize_stmt_v(
                        view_stmt(orig[n - 1 - j]),
                    )->0,
                forall|j: int|
                    0 <= j < out@.len() ==> view_stmt(#[trigger] out@[j]) == optimize_stmt_v(
                        view_stmt(orig[j]),
                    )->0,
            decreases done_rev@.len(),
        {
            let o = done_rev.pop().unwrap();
            out.push(o);
        }
        proof {
            lemma_view_stmts(out@);
            assert forall|j: int| 0 <= j < n implies view_stmts(out@)[j] == optimize_stmts_v(
                view_stmts(orig),
            )->0[j] by {
                assert(view_stmts(orig)[j] == view_stmt(orig[j]));
            }
            assert(view_stmts(out@) =~= optimize_stmts_v(view_stmts(orig))->0);
        }
        out
    }

    fn optimize_stmt(&self, stmt: IRStmt) -> (out: IRStmt)
        requires
            optimize_stmt_v(stmt@) is Some,
        ensures
            out@ == optimize_stmt_v(stmt@)->0,
        decreases stmt_size(stmt@), 0nat,
    {
        let ghost sv = stmt@;
        let span = stmt.span;
        match stmt.kind {
            IRStmtKind::For { var, seq, body } => {
                proof {
                    lemma_view_stmts(body@);
                }
                if let Some(opt_stmt) = self.try_loop_vectorize(var.as_str(), &seq, &body, span) {
                    opt_stmt
                } else if let Some(rewrite_stmt) = self.try_loop_rewrite(
                    var.as_str(),
                    &seq,
                    &body,
                    span,
                ) {
                    proof {
                        lemma_loop_rewrite_size(var@, seq@, view_stmts(body@), span);
                    }
                    let ghost rv = rewrite_stmt@;
                    match rewrite_stmt.kind {
                        IRStmtKind::For { var: v, seq: s, body: b } => {
                            let opt_body = self.optimize_stmts(b);
                            IRStmt { kind: IRStmtKind::For { var: v, seq: s, body: opt_body }, span }
                        },
                        other => IRStmt { kind: other, span: rewrite_stmt.span },
                    }
                } else {
                    let opt_body = self.optimize_stmts(body);
                    IRStmt { kind: IRStmtKind::For { var, seq, body: opt_body }, span }
                }
            },
            IRStmtKind::If { cond, then_blk, else_blk } => {
                let opt_then = self.optimize_stmts(then_blk);
                let opt_else = match else_blk {
                    Some(b) => Some(self.optimize_stmts(b)),
                    None => None,
                };
                IRStmt {
                    kind: IRStmtKind::If { cond, then_blk: opt_then, else_blk: opt_else },
                    span,
                }
            },
            IRStmtKind::While { cond, body } => {
                let opt_body = self.optimize_stmts(body);
                IRStmt { kind: IRStmtKind::While { cond, body: opt_body }, span }
            },
            IRStmtKind::FnDecl { name, params, body } => {
                let opt_body = self.optimize_stmts(body);
                IRStmt { kind: IRStmtKind::FnDecl { name, params, body: opt_body }, span }
            },
            other => IRStmt { kind: other, span },
        }
    }
}

} // verus!
