//! The legacy tree IR: a structured form of the AST that carries type,
//! shape and dataflow facts on every expression.
pub mod optimize;

use vstd::prelude::*;

use crate::mir::flow::Facts;
use crate::syntax::ast::{view_lit, BinOp, Lit, LitV, UnaryOp};
use crate::text::view_strings;
use crate::utils::Span;

verus! {

#[derive(Debug)]
pub struct IRProgram {
    pub stmts: Vec<IRStmt>,
}

#[derive(Debug)]
pub struct IRStmt {
    pub kind: IRStmtKind,
    pub span: Span,
}

#[allow(inconsistent_fields)]
#[derive(Debug)]
pub enum IRStmtKind {
    Assign { target: IRLValue, value: IRExpr },
    ExprStmt { expr: IRExpr },
    FnDecl { name: String, params: Vec<String>, body: Vec<IRStmt> },
    If { cond: IRExpr, then_blk: Vec<IRStmt>, else_blk: Option<Vec<IRStmt>> },
    While { cond: IRExpr, body: Vec<IRStmt> },
    For { var: String, seq: IRExpr, body: Vec<IRStmt> },
    Return { value: Option<IRExpr> },
}

#[allow(inconsistent_fields)]
#[derive(Debug)]
pub enum IRLValue {
    Name(String),
    Index1D { base: Box<IRExpr>, idx: Box<IRExpr> },
    Index2D { base: Box<IRExpr>, r: Box<IRExpr>, c: Box<IRExpr> },
}

#[derive(Debug, Clone, Copy, PartialEq, Eq, Structural)]
pub enum Ty {
    Int,
    Float,
    Bool,
    Str,
    List,
    Any,
}

#[derive(Debug, Clone, Copy, PartialEq, Eq, Structural)]
pub enum Shape {
    Scalar,
    /// A vector of unknown length.
    Vec,
    /// A vector of known length.
    VecN(usize),
    /// A matrix of unknown dimensions.
    Mat,
    Unknown,
}

#[derive(Debug)]
pub struct IRExpr {
    pub kind: IRExprKind,
    pub ty: Ty,
    pub shape: Shape,
    pub facts: Facts,
    pub span: Span,
}

impl IRExpr {
    /// An expression of the given kind with no type, shape or facts known.
    pub fn new(kind: IRExprKind, span: Span) -> (e: IRExpr)
        ensures
            e.kind == kind,
            e.span == span,
            e.ty == Ty::Any,
            e.shape == Shape::Unknown,
            e.facts@ == 0,
    {
        IRExpr { kind, ty: Ty::Any, shape: Shape::Unknown, facts: Facts::empty(), span }
    }
}

#[allow(inconsistent_fields)]
#[derive(Debug)]
pub enum IRExprKind {
    Lit(Lit),
    Name(String),
    Unary { op: UnaryOp, rhs: Box<IRExpr> },
    Binary { op: BinOp, lhs: Box<IRExpr>, rhs: Box<IRExpr> },
    Call { callee: Box<IRExpr>, args: Vec<IRExpr> },
    /// `rr_range(a, b)`
    RrRange { a: Box<IRExpr>, b: Box<IRExpr> },
    /// `rr_indices(x)`
    RrIndices { x: Box<IRExpr> },
    Index1D { base: Box<IRExpr>, idx: Box<IRExpr> },
    Index2D { base: Box<IRExpr>, r: Box<IRExpr>, c: Box<IRExpr> },
    /// `x[a..b]`
    Slice1D { base: Box<IRExpr>, a: Box<IRExpr>, b: Box<IRExpr> },
    /// `c(...)`
    VectorLit(Vec<IRExpr>),
    /// `list(...)`
    ListLit(Vec<(String, IRExpr)>),
}

/// The mathematical form of an IR expression: names become character
/// sequences, vectors become sequences, and facts become their bit set.
pub struct ExprV {
    pub kind: ExprKindV,
    pub ty: Ty,
    pub shape: Shape,
    pub facts: u32,
    pub span: Span,
}

#[allow(inconsistent_fields)]
pub enum ExprKindV {
    Lit(LitV),
    Name(Seq<char>),
    Unary { op: UnaryOp, rhs: Box<ExprV> },
    Binary { op: BinOp, lhs: Box<ExprV>, rhs: Box<ExprV> },
    Call { callee: Box<ExprV>, args: Seq<ExprV> },
    RrRange { a: Box<ExprV>, b: Box<ExprV> },
    RrIndices { x: Box<ExprV> },
    Index1D { base: Box<ExprV>, idx: Box<ExprV> },
    Index2D { base: Box<ExprV>, r: Box<ExprV>, c: Box<ExprV> },
    Slice1D { base: Box<ExprV>, a: Box<ExprV>, b: Box<ExprV> },
    VectorLit(Seq<ExprV>),
    ListLit(Seq<(Seq<char>, ExprV)>),
}

#[allow(inconsistent_fields)]
pub enum LValueV {
    Name(Seq<char>),
    Index1D { base: ExprV, idx: ExprV },
    Index2D { base: ExprV, r: ExprV, c: ExprV },
}

pub struct StmtV {
    pub kind: StmtKindV,
    pub span: Span,
}

#[allow(inconsistent_fields)]
pub enum StmtKindV {
    Assign { target: LValueV, value: ExprV },
    ExprStmt { expr: ExprV },
    FnDecl { name: Seq<char>, params: Seq<Seq<char>>, body: Seq<StmtV> },
    If { cond: ExprV, then_blk: Seq<StmtV>, else_blk: Option<Seq<StmtV>> },
    While { cond: ExprV, body: Seq<StmtV> },
    For { var: Seq<char>, seq: ExprV, body: Seq<StmtV> },
    Return { value: Option<ExprV> },
}

pub open spec fn view_expr(e: IRExpr) -> ExprV
    decreases e,
{
    ExprV { kind: view_kind(e.kind), ty: e.ty, shape: e.shape, facts: e.facts@, span: e.span }
}

pub open spec fn view_kind(k: IRExprKind) -> ExprKindV
    decreases k,
{
    match k {
        IRExprKind::Lit(l) => ExprKindV::Lit(view_lit(l)),
        IRExprKind::Name(n) => ExprKindV::Name(n@),
        IRExprKind::Unary { op, rhs } => ExprKindV::Unary { op, rhs: Box::new(view_expr(*rhs)) },
        IRExprKind::Binary { op, lhs, rhs } => ExprKindV::Binary {
            op,
            lhs: Box::new(view_expr(*lhs)),
            rhs: Box::new(view_expr(*rhs)),
        },
        IRExprKind::Call { callee, args } => ExprKindV::Call {
            callee: Box::new(view_expr(*callee)),
            args: view_exprs(args@),
        },
        IRExprKind::RrRange { a, b } => ExprKindV::RrRange {
            a: Box::new(view_expr(*a)),
            b: Box::new(view_expr(*b)),
        },
        IRExprKind::RrIndices { x } => ExprKindV::RrIndices { x: Box::new(view_expr(*x)) },
        IRExprKind::Index1D { base, idx } => ExprKindV::Index1D {
            base: Box::new(view_expr(*base)),
            idx: Box::new(view_expr(*idx)),
        },
        IRExprKind::Index2D { base, r, c } => ExprKindV::Index2D {
            base: Box::new(view_expr(*base)),
            r: Box::new(view_expr(*r)),
            c: Box::new(view_expr(*c)),
        },
        IRExprKind::Slice1D { base, a, b } => ExprKindV::Slice1D {
            base: Box::new(view_expr(*base)),
            a: Box::new(view_expr(*a)),
            b: Box::new(view_expr(*b)),
        },
        IRExprKind::VectorLit(v) => ExprKindV::VectorLit(view_exprs(v@)),
        IRExprKind::ListLit(f) => ExprKindV::ListLit(view_fields(f@)),
    }
}

pub open spec fn view_exprs(s: Seq<IRExpr>) -> Seq<ExprV>
    decreases s,
{
    if s.len() == 0 {
        Seq::empty()
    } else {
        view_exprs(s.drop_last()).push(view_expr(s.last()))
    }
}

pub open spec fn view_fields(s: Seq<(String, IRExpr)>) -> Seq<(Seq<char>, ExprV)>
    decreases s,
{
    if s.len() == 0 {
        Seq::empty()
    } else {
        view_fields(s.drop_last()).push((s.last().0@, view_expr(s.last().1)))
    }
}

pub open spec fn view_lvalue(lv: IRLValue) -> LValueV {
    match lv {
        IRLValue::Name(n) => LValueV::Name(n@),
        IRLValue::Index1D { base, idx } => LValueV::Index1D {
            base: view_expr(*base),
            idx: view_expr(*idx),
        },
        IRLValue::Index2D { base, r, c } => LValueV::Index2D {
            base: view_expr(*base),
            r: view_expr(*r),
            c: view_expr(*c),
        },
    }
}

pub open spec fn view_stmt(s: IRStmt) -> StmtV
    decreases s,
{
    StmtV { kind: view_stmt_kind(s.kind), span: s.span }
}

pub open spec fn view_stmt_kind(k: IRStmtKind) -> StmtKindV
    decreases k,
{
    match k {
        IRStmtKind::Assign { target, value } => StmtKindV::Assign {
            target: view_lvalue(target),
            value: view_expr(value),
        },
        IRStmtKind::ExprStmt { expr } => StmtKindV::ExprStmt { expr: view_expr(expr) },
        IRStmtKind::FnDecl { name, params, body } => StmtKindV::FnDecl {
            name: name@,
            params: view_strings(params@),
            body: view_stmts(body@),
        },
        IRStmtKind::If { cond, then_blk, else_blk } => StmtKindV::If {
            cond: view_expr(cond),
            then_blk: view_stmts(then_blk@),
            else_blk: match else_blk {
                Some(b) => Some(view_stmts(b@)),
                None => None,
            },
        },
        IRStmtKind::While { cond, body } => StmtKindV::While {
            cond: view_expr(cond),
            body: view_stmts(body@),
        },
        IRStmtKind::For { var, seq, body } => StmtKindV::For {
            var: var@,
            seq: view_expr(seq),
            body: view_stmts(body@),
        },
        IRStmtKind::Return { value } => StmtKindV::Return {
            value: match value {
                Some(v) => Some(view_expr(v)),
                None => None,
            },
        },
    }
}

pub open spec fn view_stmts(s: Seq<IRStmt>) -> Seq<StmtV>
    decreases s,
{
    if s.len() == 0 {
        Seq::empty()
    } else {
        view_stmts(s.drop_last()).push(view_stmt(s.last()))
    }
}

/// The view of an optional expression.
pub open spec fn view_opt_expr(e: Option<IRExpr>) -> Option<ExprV> {
    match e {
        Some(x) => Some(view_expr(x)),
        None => None,
    }
}

/// The view of an optional statement.
pub open spec fn view_opt_stmt(s: Option<IRStmt>) -> Option<StmtV> {
    match s {
        Some(x) => Some(view_stmt(x)),
        None => None,
    }
}

impl View for IRExpr {
    type V = ExprV;

    open spec fn view(&self) -> ExprV {
        view_expr(*self)
    }
}

impl View for IRStmt {
    type V = StmtV;

    open spec fn view(&self) -> StmtV {
        view_stmt(*self)
    }
}

impl View for IRLValue {
    type V = LValueV;

    open spec fn view(&self) -> LValueV {
        view_lvalue(*self)
    }
}

impl View for IRProgram {
    type V = Seq<StmtV>;

    open spec fn view(&self) -> Seq<StmtV> {
        view_stmts(self.stmts@)
    }
}

pub proof fn lemma_view_exprs(s: Seq<IRExpr>)
    ensures
        view_exprs(s).len() == s.len(),
        forall|i: int| 0 <= i < s.len() ==> #[trigger] view_exprs(s)[i] == view_expr(s[i]),
    decreases s.len(),
{
    if s.len() > 0 {
        lemma_view_exprs(s.drop_last());
    }
}

pub proof fn lemma_view_fields(s: Seq<(String, IRExpr)>)
    ensures
        view_fields(s).len() == s.len(),
        forall|i: int|
            0 <= i < s.len() ==> #[trigger] view_fields(s)[i] == (s[i].0@, view_expr(s[i].1)),
    decreases s.len(),
{
    if s.len() > 0 {
        lemma_view_fields(s.drop_last());
    }
}

pub proof fn lemma_view_stmts(s: Seq<IRStmt>)
    ensures
        view_stmts(s).len() == s.len(),
        forall|i: int| 0 <= i < s.len() ==> #[trigger] view_stmts(s)[i] == view_stmt(s[i]),
    decreases s.len(),
{
    if s.len() > 0 {
        lemma_view_stmts(s.drop_last());
    }
}

/// The expression without the analysis' annotations: every node keeps its
/// kind and span, with type `Any`, shape `Unknown` and no facts.
pub open spec fn erase_expr(e: ExprV) -> ExprV
    decreases e,
{
    let kind = match e.kind {
        ExprKindV::Lit(l) => ExprKindV::Lit(l),
        ExprKindV::Name(n) => ExprKindV::Name(n),
        ExprKindV::Unary { op, rhs } => ExprKindV::Unary { op, rhs: Box::new(erase_expr(*rhs)) },
        ExprKindV::Binary { op, lhs, rhs } => ExprKindV::Binary {
            op,
            lhs: Box::new(erase_expr(*lhs)),
            rhs: Box::new(erase_expr(*rhs)),
        },
        ExprKindV::Call { callee, args } => ExprKindV::Call {
            callee: Box::new(erase_expr(*callee)),
            args: erase_exprs(args),
        },
        ExprKindV::RrRange { a, b } => ExprKindV::RrRange {
            a: Box::new(erase_expr(*a)),
            b: Box::new(erase_expr(*b)),
        },
        ExprKindV::RrIndices { x } => ExprKindV::RrIndices { x: Box::new(erase_expr(*x)) },
        ExprKindV::Index1D { base, idx } => ExprKindV::Index1D {
            base: Box::new(erase_expr(*base)),
            idx: Box::new(erase_expr(*idx)),
        },
        ExprKindV::Index2D { base, r, c } => ExprKindV::Index2D {
            base: Box::new(erase_expr(*base)),
            r: Box::new(erase_expr(*r)),
            c: Box::new(erase_expr(*c)),
        },
        ExprKindV::Slice1D { base, a, b } => ExprKindV::Slice1D {
            base: Box::new(erase_expr(*base)),
            a: Box::new(erase_expr(*a)),
            b: Box::new(erase_expr(*b)),
        },
        ExprKindV::VectorLit(v) => ExprKindV::VectorLit(erase_exprs(v)),
        ExprKindV::ListLit(f) => ExprKindV::ListLit(erase_fields(f)),
    };
    ExprV { kind, ty: Ty::Any, shape: Shape::Unknown, facts: 0, span: e.span }
}

/// Each expression without annotations.
pub open spec fn erase_exprs(s: Seq<ExprV>) -> Seq<ExprV>
    decreases s,
{
    if s.len() == 0 {
        Seq::empty()
    } else {
        erase_exprs(s.drop_last()).push(erase_expr(s.last()))
    }
}

/// Each named field with its value without annotations.
pub open spec fn erase_fields(s: Seq<(Seq<char>, ExprV)>) -> Seq<(Seq<char>, ExprV)>
    decreases s,
{
    if s.len() == 0 {
        Seq::empty()
    } else {
        erase_fields(s.drop_last()).push((s.last().0, erase_expr(s.last().1)))
    }
}

/// The assignment target without annotations.
pub open spec fn erase_lvalue(lv: LValueV) -> LValueV {
    match lv {
        LValueV::Name(n) => LValueV::Name(n),
        LValueV::Index1D { base, idx } => LValueV::Index1D {
            base: erase_expr(base),
            idx: erase_expr(idx),
        },
        LValueV::Index2D { base, r, c } => LValueV::Index2D {
            base: erase_expr(base),
            r: erase_expr(r),
            c: erase_expr(c),
        },
    }
}

/// The statement with every expression in it without annotations.
pub open spec fn erase_stmt(s: StmtV) -> StmtV
    decreases s,
{
    let kind = match s.kind {
        StmtKindV::Assign { target, value } => StmtKindV::Assign {
            target: erase_lvalue(target),
            value: erase_expr(value),
        },
        StmtKindV::ExprStmt { expr } => StmtKindV::ExprStmt { expr: erase_expr(expr) },
        StmtKindV::FnDecl { name, params, body } => StmtKindV::FnDecl {
            name,
            params,
            body: erase_stmts(body),
        },
        StmtKindV::If { cond, then_blk, else_blk } => StmtKindV::If {
            cond: erase_expr(cond),
            then_blk: erase_stmts(then_blk),
            else_blk: match else_blk {
                Some(b) => Some(erase_stmts(b)),
                None => None,
            },
        },
        StmtKindV::While { cond, body } => StmtKindV::While {
            cond: erase_expr(cond),
            body: erase_stmts(body),
        },
        StmtKindV::For { var, seq, body } => StmtKindV::For {
            var,
            seq: erase_expr(seq),
            body: erase_stmts(body),
        },
        StmtKindV::Return { value } => StmtKindV::Return {
            value: match value {
                Some(v) => Some(erase_expr(v)),
                None => None,
            },
        },
    };
    StmtV { kind, span: s.span }
}

/// Each statement without annotations.
pub open spec fn erase_stmts(s: Seq<StmtV>) -> Seq<StmtV>
    decreases s,
{
    if s.len() == 0 {
        Seq::empty()
    } else {
        erase_stmts(s.drop_last()).push(erase_stmt(s.last()))
    }
}

/// Copies of `e`'s operands, in order.
pub fn clone_exprs(v: &Vec<IRExpr>) -> (r: Vec<IRExpr>)
    ensures
        view_exprs(r@) == view_exprs(v@),
    decreases v@,
{
    let mut out: Vec<IRExpr> = Vec::new();
    let mut i: usize = 0;
    while i < v.len()
        invariant
            i <= v@.len(),
            out@.len() == i,
            forall|j: int| 0 <= j < i ==> view_expr(#[trigger] out@[j]) == view_expr(v@[j]),
        decreases v@.len() - i,
    {
        assert(decreases_to!(v@ => v@[i as int]));
        out.push(v[i].deep_clone());
        i = i + 1;
    }
    proof {
        lemma_view_exprs(out@);
        lemma_view_exprs(v@);
        assert(view_exprs(out@) =~= view_exprs(v@));
    }
    out
}

impl IRExpr {
    /// A copy of the whole expression tree.
    pub fn deep_clone(&self) -> (r: IRExpr)
        ensures
            r@ == self@,
        decreases self,
    {
        let kind = match &self.kind {
            IRExprKind::Lit(l) => IRExprKind::Lit(l.deep_clone()),
            IRExprKind::Name(n) => IRExprKind::Name(n.clone()),
            IRExprKind::Unary { op, rhs } => IRExprKind::Unary {
                op: *op,
                rhs: Box::new(rhs.deep_clone()),
            },
            IRExprKind::Binary { op, lhs, rhs } => IRExprKind::Binary {
                op: *op,
                lhs: Box::new(lhs.deep_clone()),
                rhs: Box::new(rhs.deep_clone()),
            },
            IRExprKind::Call { callee, args } => IRExprKind::Call {
                callee: Box::new(callee.deep_clone()),
                args: clone_exprs(args),
            },
            IRExprKind::RrRange { a, b } => IRExprKind::RrRange {
                a: Box::new(a.deep_clone()),
                b: Box::new(b.deep_clone()),
            },
            IRExprKind::RrIndices { x } => IRExprKind::RrIndices { x: Box::new(x.deep_clone()) },
            IRExprKind::Index1D { base, idx } => IRExprKind::Index1D {
                base: Box::new(base.deep_clone()),
                idx: Box::new(idx.deep_clone()),
            },
            IRExprKind::Index2D { base, r, c } => IRExprKind::Index2D {
                base: Box::new(base.deep_clone()),
                r: Box::new(r.deep_clone()),
                c: Box::new(c.deep_clone()),
            },
            IRExprKind::Slice1D { base, a, b } => IRExprKind::Slice1D {
                base: Box::new(base.deep_clone()),
                a: Box::new(a.deep_clone()),
                b: Box::new(b.deep_clone()),
            },
            IRExprKind::VectorLit(v) => IRExprKind::VectorLit(clone_exprs(v)),
            IRExprKind::ListLit(f) => IRExprKind::ListLit(clone_fields(f)),
        };
        IRExpr { kind, ty: self.ty, shape: self.shape, facts: self.facts, span: self.span }
    }
}

/// A copy of a list of named fields.
pub fn clone_fields(v: &Vec<(String, IRExpr)>) -> (r: Vec<(String, IRExpr)>)
    ensures
        view_fields(r@) == view_fields(v@),
    decreases v@,
{
    let mut out: Vec<(String, IRExpr)> = Vec::new();
    let mut i: usize = 0;
    while i < v.len()
        invariant
            i <= v@.len(),
            out@.len() == i,
            forall|j: int|
                0 <= j < i ==> (#[trigger] out@[j]).0@ == v@[j].0@ && view_expr(out@[j].1)
                    == view_expr(v@[j].1),
        decreases v@.len() - i,
    {
        assert(decreases_to!(v@ => v@[i as int]));
        let (n, e) = &v[i];
        out.push((n.clone(), e.deep_clone()));
        i = i + 1;
    }
    proof {
        lemma_view_fields(out@);
        lemma_view_fields(v@);
        assert(view_fields(out@) =~= view_fields(v@));
    }
    out
}

impl IRLValue {
    /// A copy of the whole assignment target.
    pub fn deep_clone(&self) -> (r: IRLValue)
        ensures
            r@ == self@,
    {
        match self {
            IRLValue::Name(n) => IRLValue::Name(n.clone()),
            IRLValue::Index1D { base, idx } => IRLValue::Index1D {
                base: Box::new(base.deep_clone()),
                idx: Box::new(idx.deep_clone()),
            },
            IRLValue::Index2D { base, r, c } => IRLValue::Index2D {
                base: Box::new(base.deep_clone()),
                r: Box::new(r.deep_clone()),
                c: Box::new(c.deep_clone()),
            },
        }
    }
}

/// A copy of a list of strings.
pub fn clone_strings(v: &Vec<String>) -> (r: Vec<String>)
    ensures
        r@ == v@,
{
    let mut out: Vec<String> = Vec::new();
    let mut i: usize = 0;
    while i < v.len()
        invariant
            i <= v@.len(),
            out@ == v@.subrange(0, i as int),
        decreases v@.len() - i,
    {
        out.push(v[i].clone());
        i = i + 1;
    }
    assert(out@ =~= v@);
    out
}

/// A copy of a statement list.
pub fn clone_stmts(v: &Vec<IRStmt>) -> (r: Vec<IRStmt>)
    ensures
        view_stmts(r@) == view_stmts(v@),
    decreases v@,
{
    let mut out: Vec<IRStmt> = Vec::new();
    let mut i: usize = 0;
    while i < v.len()
        invariant
            i <= v@.len(),
            out@.len() == i,
            forall|j: int| 0 <= j < i ==> view_stmt(#[trigger] out@[j]) == view_stmt(v@[j]),
        decreases v@.len() - i,
    {
        assert(decreases_to!(v@ => v@[i as int]));
        out.push(v[i].deep_clone());
        i = i + 1;
    }
    proof {
        lemma_view_stmts(out@);
        lemma_view_stmts(v@);
        assert(view_stmts(out@) =~= view_stmts(v@));
    }
    out
}

impl IRStmt {
    /// A copy of the whole statement tree.
    pub fn deep_clone(&self) -> (r: IRStmt)
        ensures
            r@ == self@,
        decreases self,
    {
        let kind = match &self.kind {
            IRStmtKind::Assign { target, value } => IRStmtKind::Assign {
                target: target.deep_clone(),
                value: value.deep_clone(),
            },
            IRStmtKind::ExprStmt { expr } => IRStmtKind::ExprStmt { expr: expr.deep_clone() },
            IRStmtKind::FnDecl { name, params, body } => IRStmtKind::FnDecl {
                name: name.clone(),
                params: clone_strings(params),
                body: clone_stmts(body),
            },
            IRStmtKind::If { cond, then_blk, else_blk } => IRStmtKind::If {
                cond: cond.deep_clone(),
                then_blk: clone_stmts(then_blk),
                else_blk: match else_blk {
                    Some(b) => Some(clone_stmts(b)),
                    None => None,
                },
            },
            IRStmtKind::While { cond, body } => IRStmtKind::While {
                cond: cond.deep_clone(),
                body: clone_stmts(body),
            },
            IRStmtKind::For { var, seq, body } => IRStmtKind::For {
                var: var.clone(),
                seq: seq.deep_clone(),
                body: clone_stmts(body),
            },
            IRStmtKind::Return { value } => IRStmtKind::Return {
                value: match value {
                    Some(v) => Some(v.deep_clone()),
                    None => None,
                },
            },
        };
        IRStmt { kind, span: self.span }
    }
}

} // verus!
