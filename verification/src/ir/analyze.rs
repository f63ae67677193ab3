//! Flow-insensitive type, shape and fact inference over the legacy IR.
use vstd::prelude::*;

use vstd::hash_map::StringHashMap;

use crate::legacy::ir::{
    erase_expr, erase_exprs, erase_stmt, erase_stmts, lemma_view_exprs, lemma_view_stmts, view_expr, view_exprs, view_kind, view_lvalue, view_stmt,
    view_stmt_kind, view_stmts, ExprKindV, ExprV, IRExpr, IRExprKind, IRLValue, IRProgram, IRStmt,
    IRStmtKind, LValueV, Shape, StmtKindV, StmtV, Ty,
};
use crate::mir::flow::Facts;
use crate::syntax::ast::{float_bits_non_negative, BinOp, Lit, LitV};

verus! {

/// What the analyzer knows of each variable: its type, shape and facts.
pub type Env = Map<Seq<char>, (Ty, Shape, u32)>;

/// Operators whose result is logical.
pub open spec fn is_logical_op(op: BinOp) -> bool {
    match op {
        BinOp::Eq | BinOp::Ne | BinOp::Lt | BinOp::Le | BinOp::Gt | BinOp::Ge | BinOp::And
        | BinOp::Or => true,
        _ => false,
    }
}

pub open spec fn annotate(e: ExprV, kind: ExprKindV, ty: Ty, shape: Shape, facts: u32) -> ExprV {
    ExprV { kind, ty, shape, facts, span: e.span }
}

/// The literal's type and shape, with the facts it establishes added.
pub open spec fn analyze_lit_v(e: ExprV, l: LitV) -> ExprV {
    match l {
        LitV::Int(i) => annotate(
            e,
            e.kind,
            Ty::Int,
            Shape::Scalar,
            if i >= 0 {
                (e.facts | Facts::INT_SCALAR) | Facts::NON_NEG
            } else {
                e.facts | Facts::INT_SCALAR
            },
        ),
        LitV::Float { bits, .. } => annotate(
            e,
            e.kind,
            Ty::Float,
            Shape::Scalar,
            if float_bits_non_negative(bits) {
                e.facts | Facts::NON_NEG
            } else {
                e.facts
            },
        ),
        LitV::Bool(_) => annotate(e, e.kind, Ty::Bool, Shape::Scalar, e.facts | Facts::BOOL_SCALAR),
        LitV::Str(_) => annotate(e, e.kind, Ty::Str, Shape::Scalar, e.facts),
        _ => e,
    }
}

/// The expression with type, shape and facts inferred bottom-up under
/// `env`. Literals, variables, operators, ranges, calls, 1-D indexing,
/// slices and vector literals are analyzed; `indices(x)`, 2-D indexing and
/// list literals are left as they are.
pub open spec fn analyze_expr_v(env: Env, e: ExprV) -> ExprV
    decreases e,
{
    match e.kind {
        ExprKindV::Lit(l) => analyze_lit_v(e, l),
        ExprKindV::Name(n) => if env.contains_key(n) {
            annotate(e, e.kind, env[n].0, env[n].1, env[n].2)
        } else {
            e
        },
        ExprKindV::Unary { op, rhs } => {
            let r = analyze_expr_v(env, *rhs);
            annotate(e, ExprKindV::Unary { op, rhs: Box::new(r) }, r.ty, r.shape, e.facts)
        },
        ExprKindV::Binary { op, lhs, rhs } => {
            let l = analyze_expr_v(env, *lhs);
            let r = analyze_expr_v(env, *rhs);
            let kind = ExprKindV::Binary { op, lhs: Box::new(l), rhs: Box::new(r) };
            if is_logical_op(op) {
                if l.shape == Shape::Scalar && r.shape == Shape::Scalar {
                    annotate(e, kind, Ty::Bool, Shape::Scalar, e.facts | Facts::BOOL_SCALAR)
                } else {
                    annotate(e, kind, Ty::Bool, Shape::Vec, e.facts)
                }
            } else {
                let shape = if l.shape == Shape::Vec || r.shape == Shape::Vec {
                    Shape::Vec
                } else {
                    Shape::Scalar
                };
                let facts = if l.ty == Ty::Int && shape == Shape::Scalar {
                    e.facts | Facts::INT_SCALAR
                } else {
                    e.facts
                };
                annotate(e, kind, l.ty, shape, facts)
            }
        },
        ExprKindV::RrRange { a, b } => annotate(
            e,
            ExprKindV::RrRange {
                a: Box::new(analyze_expr_v(env, *a)),
                b: Box::new(analyze_expr_v(env, *b)),
            },
            Ty::Int,
            Shape::Vec,
            e.facts,
        ),
        ExprKindV::Call { callee, args } => annotate(
            e,
            ExprKindV::Call {
                callee: Box::new(analyze_expr_v(env, *callee)),
                args: analyze_exprs_v(env, args),
            },
            e.ty,
            e.shape,
            e.facts,
        ),
        ExprKindV::Index1D { base, idx } => {
            let b = analyze_expr_v(env, *base);
            annotate(
                e,
                ExprKindV::Index1D { base: Box::new(b), idx: Box::new(analyze_expr_v(env, *idx)) },
                b.ty,
                Shape::Scalar,
                e.facts,
            )
        },
        ExprKindV::Slice1D { base, a, b } => {
            let bs = analyze_expr_v(env, *base);
            annotate(
                e,
                ExprKindV::Slice1D {
                    base: Box::new(bs),
                    a: Box::new(analyze_expr_v(env, *a)),
                    b: Box::new(analyze_expr_v(env, *b)),
                },
                bs.ty,
                Shape::Vec,
                e.facts,
            )
        },
        ExprKindV::VectorLit(v) => annotate(
            e,
            ExprKindV::VectorLit(analyze_exprs_v(env, v)),
            Ty::Any,
            Shape::Vec,
            e.facts,
        ),
        _ => e,
    }
}

pub open spec fn analyze_exprs_v(env: Env, s: Seq<ExprV>) -> Seq<ExprV>
    decreases s,
{
    if s.len() == 0 {
        Seq::empty()
    } else {
        analyze_exprs_v(env, s.drop_last()).push(analyze_expr_v(env, s.last()))
    }
}

pub proof fn lemma_analyze_exprs(env: Env, s: Seq<ExprV>)
    ensures
        analyze_exprs_v(env, s).len() == s.len(),
        forall|j: int|
            0 <= j < s.len() ==> #[trigger] analyze_exprs_v(env, s)[j] == analyze_expr_v(env, s[j]),
    decreases s.len(),
{
    if s.len() > 0 {
        lemma_analyze_exprs(env, s.drop_last());
    }
}

pub open spec fn analyze_lvalue_v(env: Env, lv: LValueV) -> LValueV {
    match lv {
        LValueV::Name(n) => LValueV::Name(n),
        LValueV::Index1D { base, idx } => LValueV::Index1D {
            base: analyze_expr_v(env, base),
            idx: analyze_expr_v(env, idx),
        },
        LValueV::Index2D { base, r, c } => LValueV::Index2D {
            base: analyze_expr_v(env, base),
            r: analyze_expr_v(env, r),
            c: analyze_expr_v(env, c),
        },
    }
}

/// What a `for` loop over `seq` tells of its variable: over `indices(x)`
/// a non-negative integer scalar, over a range an integer scalar.
pub open spec fn loop_var_env(env: Env, var: Seq<char>, seq: ExprV) -> Env {
    match seq.kind {
        ExprKindV::RrIndices { .. } => env.insert(
            var,
            (Ty::Int, Shape::Scalar, 0u32 | (Facts::NON_NEG | Facts::INT_SCALAR)),
        ),
        ExprKindV::RrRange { .. } => env.insert(var, (Ty::Int, Shape::Scalar, 0u32 | Facts::INT_SCALAR)),
        _ => env,
    }
}

/// The analyzed statement and the knowledge after it. A plain assignment
/// records the value's annotations for its variable; branches and loop
/// bodies are analyzed in order with no merging.
pub open spec fn analyze_stmt_v(env: Env, s: StmtV) -> (Env, StmtV)
    decreases s,
{
    match s.kind {
        StmtKindV::Assign { target, value } => {
            let v = analyze_expr_v(env, value);
            let t = analyze_lvalue_v(env, target);
            let env2 = match target {
                LValueV::Name(n) => env.insert(n, (v.ty, v.shape, v.facts)),
                _ => env,
            };
            (env2, StmtV { kind: StmtKindV::Assign { target: t, value: v }, span: s.span })
        },
        StmtKindV::ExprStmt { expr } => (
            env,
            StmtV { kind: StmtKindV::ExprStmt { expr: analyze_expr_v(env, expr) }, span: s.span },
        ),
        StmtKindV::If { cond, then_blk, else_blk } => {
            let c = analyze_expr_v(env, cond);
            let (env1, t) = analyze_stmts_v(env, then_blk);
            match else_blk {
                Some(b) => {
                    let (env2, e) = analyze_stmts_v(env1, b);
                    (
                        env2,
                        StmtV {
                            kind: StmtKindV::If { cond: c, then_blk: t, else_blk: Some(e) },
                            span: s.span,
                        },
                    )
                },
                None => (
                    env1,
                    StmtV {
                        kind: StmtKindV::If { cond: c, then_blk: t, else_blk: None },
                        span: s.span,
                    },
                ),
            }
        },
        StmtKindV::While { cond, body } => {
            let c = analyze_expr_v(env, cond);
            let (env1, b) = analyze_stmts_v(env, body);
            (env1, StmtV { kind: StmtKindV::While { cond: c, body: b }, span: s.span })
        },
        StmtKindV::For { var, seq, body } => {
            let sq = analyze_expr_v(env, seq);
            let (env1, b) = analyze_stmts_v(loop_var_env(env, var, seq), body);
            (env1, StmtV { kind: StmtKindV::For { var, seq: sq, body: b }, span: s.span })
        },
        StmtKindV::FnDecl { name, params, body } => {
            let (env1, b) = analyze_stmts_v(env, body);
            (env1, StmtV { kind: StmtKindV::FnDecl { name, params, body: b }, span: s.span })
        },
        StmtKindV::Return { value } => (
            env,
            StmtV {
                kind: StmtKindV::Return {
                    value: match value {
                        Some(v) => Some(analyze_expr_v(env, v)),
                        None => None,
                    },
                },
                span: s.span,
            },
        ),
    }
}

/// The statements analyzed in order, each under the knowledge left by the
/// ones before it.
pub open spec fn analyze_stmts_v(env: Env, s: Seq<StmtV>) -> (Env, Seq<StmtV>)
    decreases s,
{
    if s.len() == 0 {
        (env, Seq::empty())
    } else {
        let (env1, init) = analyze_stmts_v(env, s.drop_last());
        let (env2, last) = analyze_stmt_v(env1, s.last());
        (env2, init.push(last))
    }
}

pub proof fn lemma_analyze_stmts_len(env: Env, s: Seq<StmtV>)
    ensures
        analyze_stmts_v(env, s).1.len() == s.len(),
    decreases s.len(),
{
    if s.len() > 0 {
        lemma_analyze_stmts_len(env, s.drop_last());
    }
}

/// The shape of a binary operation: a vector when either analyzed operand
/// is one, whichever side it stands on; a scalar or a vector in any case;
/// and a vector result never gets the scalar facts (`INT_SCALAR`,
/// `BOOL_SCALAR`): its facts are those it had.
pub proof fn lemma_binary_shape(env: Env, e: ExprV, op: BinOp, l: ExprV, r: ExprV, swapped: ExprV)
    requires
        e.kind == (ExprKindV::Binary { op, lhs: Box::new(l), rhs: Box::new(r) }),
        swapped.kind == (ExprKindV::Binary { op, lhs: Box::new(r), rhs: Box::new(l) }),
    ensures
        analyze_expr_v(env, l).shape == Shape::Vec || analyze_expr_v(env, r).shape == Shape::Vec
            ==> analyze_expr_v(env, e).shape == Shape::Vec,
        analyze_expr_v(env, e).shape == Shape::Vec || analyze_expr_v(env, e).shape == Shape::Scalar,
        analyze_expr_v(env, e).shape == Shape::Vec ==> analyze_expr_v(env, e).facts == e.facts,
        analyze_expr_v(env, e).shape == analyze_expr_v(env, swapped).shape,
{
}

/// Analysis only annotates an expression: with the annotations erased,
/// the analyzed expression is the one it was made from.
pub proof fn lemma_analyze_expr_erase(env: Env, e: ExprV)
    ensures
        erase_expr(analyze_expr_v(env, e)) == erase_expr(e),
    decreases e,
{
    match e.kind {
        ExprKindV::Unary { rhs, .. } => lemma_analyze_expr_erase(env, *rhs),
        ExprKindV::Binary { lhs, rhs, .. } => {
            lemma_analyze_expr_erase(env, *lhs);
            lemma_analyze_expr_erase(env, *rhs);
        },
        ExprKindV::RrRange { a, b } => {
            lemma_analyze_expr_erase(env, *a);
            lemma_analyze_expr_erase(env, *b);
        },
        ExprKindV::Call { callee, args } => {
            lemma_analyze_expr_erase(env, *callee);
            lemma_analyze_exprs_erase(env, args);
        },
        ExprKindV::Index1D { base, idx } => {
            lemma_analyze_expr_erase(env, *base);
            lemma_analyze_expr_erase(env, *idx);
        },
        ExprKindV::Slice1D { base, a, b } => {
            lemma_analyze_expr_erase(env, *base);
            lemma_analyze_expr_erase(env, *a);
            lemma_analyze_expr_erase(env, *b);
        },
        ExprKindV::VectorLit(v) => lemma_analyze_exprs_erase(env, v),
        _ => {},
    }
}

/// The list counterpart of `lemma_analyze_expr_erase`.
pub proof fn lemma_analyze_exprs_erase(env: Env, s: Seq<ExprV>)
    ensures
        erase_exprs(analyze_exprs_v(env, s)) == erase_exprs(s),
    decreases s,
{
    if s.len() > 0 {
        lemma_analyze_exprs_erase(env, s.drop_last());
        lemma_analyze_expr_erase(env, s.last());
        let a = analyze_exprs_v(env, s);
        assert(a.drop_last() =~= analyze_exprs_v(env, s.drop_last()));
    }
}

/// Analysis only annotates a statement: with the annotations erased, the
/// analyzed statement is the one it was made from, whatever is known of the
/// variables.
pub proof fn lemma_analyze_stmt_erase(env: Env, s: StmtV)
    ensures
        erase_stmt(analyze_stmt_v(env, s).1) == erase_stmt(s),
    decreases s,
{
    match s.kind {
        StmtKindV::Assign { target, value } => {
            lemma_analyze_expr_erase(env, value);
            match target {
                LValueV::Index1D { base, idx } => {
                    lemma_analyze_expr_erase(env, base);
                    lemma_analyze_expr_erase(env, idx);
                },
                LValueV::Index2D { base, r, c } => {
                    lemma_analyze_expr_erase(env, base);
                    lemma_analyze_expr_erase(env, r);
                    lemma_analyze_expr_erase(env, c);
                },
                LValueV::Name(_) => {},
            }
        },
        StmtKindV::ExprStmt { expr } => lemma_analyze_expr_erase(env, expr),
        StmtKindV::If { cond, then_blk, else_blk } => {
            lemma_analyze_expr_erase(env, cond);
            lemma_analyze_stmts_erase(env, then_blk);
            match else_blk {
                Some(b) => lemma_analyze_stmts_erase(analyze_stmts_v(env, then_blk).0, b),
                None => {},
            }
        },
        StmtKindV::While { cond, body } => {
            lemma_analyze_expr_erase(env, cond);
            lemma_analyze_stmts_erase(env, body);
        },
        StmtKindV::For { var, seq, body } => {
            lemma_analyze_expr_erase(env, seq);
            lemma_analyze_stmts_erase(loop_var_env(env, var, seq), body);
        },
        StmtKindV::FnDecl { body, .. } => lemma_analyze_stmts_erase(env, body),
        StmtKindV::Return { value } => match value {
            Some(v) => lemma_analyze_expr_erase(env, v),
            None => {},
        },
    }
}

/// The analyzer only annotates: it keeps every statement, and with the
/// annotations erased the analyzed program is the program it was given.
pub proof fn lemma_analyze_stmts_erase(env: Env, s: Seq<StmtV>)
    ensures
        erase_stmts(analyze_stmts_v(env, s).1) == erase_stmts(s),
        analyze_stmts_v(env, s).1.len() == s.len(),
    decreases s,
{
    if s.len() > 0 {
        let env1 = analyze_stmts_v(env, s.drop_last()).0;
        lemma_analyze_stmts_erase(env, s.drop_last());
        lemma_analyze_stmt_erase(env1, s.last());
        let a = analyze_stmts_v(env, s).1;
        assert(a.drop_last() =~= analyze_stmts_v(env, s.drop_last()).1);
    }
}

/// The type, shape and fact inference pass.
pub struct Analyzer {
    var_types: StringHashMap<(Ty, Shape, Facts)>,
}

impl View for Analyzer {
    type V = Env;

    closed spec fn view(&self) -> Env {
        self.var_types@.map_values(|v: (Ty, Shape, Facts)| (v.0, v.1, v.2@))
    }
}

impl Analyzer {
    pub fn new() -> (a: Analyzer)
        ensures
            a@ == Map::<Seq<char>, (Ty, Shape, u32)>::empty(),
    {
        let a = Analyzer { var_types: StringHashMap::new() };
        assert(a@ =~= Map::<Seq<char>, (Ty, Shape, u32)>::empty());
        a
    }

    /// Annotates every statement of the program, in order.
    pub fn analyze_program(&mut self, prog: &mut IRProgram)
        ensures
            (final(self)@, final(prog)@) == analyze_stmts_v(old(self)@, old(prog)@),
    {
        self.analyze_stmts(&mut prog.stmts);
    }

    fn record(&mut self, name: String, entry: (Ty, Shape, Facts))
        ensures
            final(self)@ == old(self)@.insert(name@, (entry.0, entry.1, entry.2@)),
    {
        let ghost before = self@;
        self.var_types.insert(name, entry);
        assert(self@ =~= before.insert(name@, (entry.0, entry.1, entry.2@)));
    }

    fn lookup(&self, name: &str) -> (r: Option<(Ty, Shape, Facts)>)
        ensures
            match r {
                Some(v) => self@.contains_key(name@) && self@[name@] == (v.0, v.1, v.2@),
                None => !self@.contains_key(name@),
            },
    {
        match self.var_types.get(name) {
            Some(v) => Some(*v),
            None => None,
        }
    }

    fn analyze_stmts(&mut self, stmts: &mut Vec<IRStmt>)
        ensures
            (final(self)@, view_stmts(final(stmts)@)) == analyze_stmts_v(old(self)@, view_stmts(old(stmts)@)),
        decreases old(stmts)@,
    {
        let ghost orig = stmts@;
        let ghost env0 = self@;
        proof {
            lemma_view_stmts(orig);
        }
        let mut i: usize = 0;
        while i < stmts.len()
            invariant
                stmts@.len() == orig.len(),
                i <= orig.len(),
                orig == old(stmts)@,
                env0 == old(self)@,
                forall|j: int| i <= j < orig.len() ==> #[trigger] stmts@[j] == orig[j],
                view_stmts(orig).len() == orig.len(),
                forall|j: int| 0 <= j < orig.len() ==> #[trigger] view_stmts(orig)[j] == view_stmt(orig[j]),
                (self@, view_stmts(stmts@.take(i as int))) == analyze_stmts_v(
                    env0,
                    view_stmts(orig).take(i as int),
                ),
            decreases orig.len() - i,
        {
            let ghost pre = stmts@;
            let ghost env_i = self@;
            assert(decreases_to!(orig => orig[i as int]));
            self.analyze_stmt(&mut stmts[i]);
            proof {
                lemma_view_stmts(stmts@.take(i + 1));
                lemma_view_stmts(pre.take(i as int));
                assert(stmts@.take(i + 1).drop_last() =~= pre.take(i as int));
                assert(view_stmts(orig).take(i + 1).drop_last() =~= view_stmts(orig).take(i as int));
                assert(view_stmts(orig).take(i + 1).last() == view_stmt(orig[i as int]));
            }
            i = i + 1;
        }
        proof {
            assert(stmts@.take(i as int) =~= stmts@);
            assert(view_stmts(orig).take(i as int) =~= view_stmts(orig));
        }
    }

    fn analyze_stmt(&mut self, stmt: &mut IRStmt)
        ensures
            (final(self)@, final(stmt)@) == analyze_stmt_v(old(self)@, old(stmt)@),
        decreases *old(stmt),
    {
        match &mut stmt.kind {
            IRStmtKind::Assign { target, value } => {
                self.analyze_expr(value);
                self.analyze_lvalue(target);
                if let IRLValue::Name(n) = target {
                    self.record(n.clone(), (value.ty, value.shape, value.facts));
                }
            },
            IRStmtKind::ExprStmt { expr } => {
                self.analyze_expr(expr);
            },
            IRStmtKind::If { cond, then_blk, else_blk } => {
                self.analyze_expr(cond);
                self.analyze_stmts(then_blk);
                if let Some(blk) = else_blk {
                    self.analyze_stmts(blk);
                }
            },
            IRStmtKind::While { cond, body } => {
                self.analyze_expr(cond);
                self.analyze_stmts(body);
            },
            IRStmtKind::For { var, seq, body } => {
                let ghost env = self@;
                let ghost seq0 = seq@;
                self.analyze_expr(seq);
                proof {
                    assert(seq0.kind == view_kind(old(stmt).kind->For_seq.kind));
                }
                if let IRExprKind::RrIndices { .. } = &seq.kind {
                    let mut facts = Facts::empty();
                    facts.add(Facts::NON_NEG | Facts::INT_SCALAR);
                    self.record(var.clone(), (Ty::Int, Shape::Scalar, facts));
                } else if let IRExprKind::RrRange { .. } = &seq.kind {
                    let mut facts = Facts::empty();
                    facts.add(Facts::INT_SCALAR);
                    self.record(var.clone(), (Ty::Int, Shape::Scalar, facts));
                }
                assert(self@ == loop_var_env(env, var@, seq0));
                self.analyze_stmts(body);
            },
            IRStmtKind::FnDecl { body, .. } => {
                self.analyze_stmts(body);
            },
            IRStmtKind::Return { value } => {
                if let Some(e) = value {
                    self.analyze_expr(e);
                }
            },
        }
    }

    fn analyze_lvalue(&mut self, lv: &mut IRLValue)
        ensures
            final(self)@ == old(self)@,
            final(lv)@ == analyze_lvalue_v(old(self)@, old(lv)@),
    {
        match lv {
            IRLValue::Name(_) => {},
            IRLValue::Index1D { base, idx } => {
                self.analyze_expr(&mut **base);
                self.analyze_expr(&mut **idx);
            },
            IRLValue::Index2D { base, r, c } => {
                self.analyze_expr(&mut **base);
                self.analyze_expr(&mut **r);
                self.analyze_expr(&mut **c);
            },
        }
    }

    fn analyze_exprs(&mut self, v: &mut Vec<IRExpr>)
        ensures
            final(self)@ == old(self)@,
            view_exprs(final(v)@) == analyze_exprs_v(old(self)@, view_exprs(old(v)@)),
        decreases old(v)@,
    {
        let ghost orig = v@;
        proof {
            lemma_view_exprs(orig);
            lemma_analyze_exprs(self@, view_exprs(orig));
        }
        let mut i: usize = 0;
        while i < v.len()
            invariant
                v@.len() == orig.len(),
                i <= orig.len(),
                orig == old(v)@,
                self@ == old(self)@,
                forall|j: int| i <= j < orig.len() ==> #[trigger] v@[j] == orig[j],
                forall|j: int|
                    0 <= j < i ==> view_expr(#[trigger] v@[j]) == analyze_expr_v(
                        self@,
                        view_expr(orig[j]),
                    ),
            decreases orig.len() - i,
        {
            assert(decreases_to!(orig => orig[i as int]));
            self.analyze_expr(&mut v[i]);
            i = i + 1;
        }
        proof {
            lemma_view_exprs(v@);
            assert forall|j: int| 0 <= j < orig.len() implies view_exprs(v@)[j] == analyze_exprs_v(
                self@,
                view_exprs(orig),
            )[j] by {
                assert(view_exprs(orig)[j] == view_expr(orig[j]));
            }
            assert(view_exprs(v@) =~= analyze_exprs_v(self@, view_exprs(orig)));
        }
    }

    #[verifier::rlimit(80)]
    fn analyze_expr(&mut self, expr: &mut IRExpr)
        ensures
            final(self)@ == old(self)@,
            final(expr)@ == analyze_expr_v(old(self)@, old(expr)@),
        decreases *old(expr),
    {
        let ghost e0 = expr@;
        assert(e0.kind == view_kind(expr.kind));
        match &mut expr.kind {
            IRExprKind::Lit(l) => {
                match l {
                    Lit::Int(i) => {
                        expr.ty = Ty::Int;
                        expr.shape = Shape::Scalar;
                        expr.facts.add(Facts::INT_SCALAR);
                        if *i >= 0 {
                            expr.facts.add(Facts::NON_NEG);
                        }
                    },
                    Lit::Float(f) => {
                        expr.ty = Ty::Float;
                        expr.shape = Shape::Scalar;
                        if f.is_non_negative() {
                            expr.facts.add(Facts::NON_NEG);
                        }
                    },
                    Lit::Bool(_) => {
                        expr.ty = Ty::Bool;
                        expr.shape = Shape::Scalar;
                        expr.facts.add(Facts::BOOL_SCALAR);
                    },
                    Lit::Str(_) => {
                        expr.ty = Ty::Str;
                        expr.shape = Shape::Scalar;
                    },
                    _ => {},
                }
            },
            IRExprKind::Name(n) => {
                if let Some((t, s, f)) = self.lookup(n.as_str()) {
                    expr.ty = t;
                    expr.shape = s;
                    expr.facts = f;
                }
            },
            IRExprKind::Unary { op: _, rhs } => {
                self.analyze_expr(&mut **rhs);
                expr.ty = rhs.ty;
                expr.shape = rhs.shape;
            },
            IRExprKind::Binary { op, lhs, rhs } => {
                self.analyze_expr(&mut **lhs);
                self.analyze_expr(&mut **rhs);
                let logical = match op {
                    BinOp::Eq | BinOp::Ne | BinOp::Lt | BinOp::Le | BinOp::Gt | BinOp::Ge
                    | BinOp::And | BinOp::Or => true,
                    _ => false,
                };
                if logical {
                    expr.ty = Ty::Bool;
                    if lhs.shape == Shape::Scalar && rhs.shape == Shape::Scalar {
                        expr.shape = Shape::Scalar;
                        expr.facts.add(Facts::BOOL_SCALAR);
                    } else {
                        expr.shape = Shape::Vec;
                    }
                } else {
                    expr.ty = lhs.ty;
                    expr.shape = if lhs.shape == Shape::Vec || rhs.shape == Shape::Vec {
                        Shape::Vec
                    } else {
                        Shape::Scalar
                    };
                    if expr.ty == Ty::Int && expr.shape == Shape::Scalar {
                        expr.facts.add(Facts::INT_SCALAR);
                    }
                }
            },
            IRExprKind::RrRange { a, b } => {
                self.analyze_expr(&mut **a);
                self.analyze_expr(&mut **b);
                expr.ty = Ty::Int;
                expr.shape = Shape::Vec;
            },
            IRExprKind::Call { callee, args } => {
                self.analyze_expr(&mut **callee);
                self.analyze_exprs(args);
            },
            IRExprKind::Index1D { base, idx } => {
                self.analyze_expr(&mut **base);
                self.analyze_expr(&mut **idx);
                expr.ty = base.ty;
                expr.shape = Shape::Scalar;
            },
            IRExprKind::Slice1D { base, a, b } => {
                self.analyze_expr(&mut **base);
                self.analyze_expr(&mut **a);
                self.analyze_expr(&mut **b);
                expr.ty = base.ty;
                expr.shape = Shape::Vec;
            },
            IRExprKind::VectorLit(v) => {
                self.analyze_exprs(v);
                expr.ty = Ty::Any;
                expr.shape = Shape::Vec;
            },
            _ => {},
        }
    }
}

} // verus!
