use vstd::prelude::*;

use crate::text::view_strings;
use crate::utils::Span;

verus! {

/// A floating-point literal, held without floating-point arithmetic: its
/// IEEE-754 binary64 bit pattern, and the decimal text under which it is
/// written into generated R code.
#[derive(Debug)]
pub struct FloatLit {
    pub bits: u64,
    pub text: String,
}

/// Whether the binary64 value with these bits compares `>= 0.0`: every
/// non-negative number up to positive infinity, and negative zero; NaNs do
/// not.
pub open spec fn float_bits_non_negative(bits: u64) -> bool {
    bits <= 0x7ff0_0000_0000_0000 || bits == 0x8000_0000_0000_0000
}

impl FloatLit {
    /// Whether the literal's value compares `>= 0.0`.
    pub fn is_non_negative(&self) -> (r: bool)
        ensures
            r == float_bits_non_negative(self.bits),
    {
        self.bits <= 0x7ff0_0000_0000_0000 || self.bits == 0x8000_0000_0000_0000
    }
}

#[derive(Debug)]
pub enum Lit {
    Int(i64),
    Float(FloatLit),
    Str(String),
    Bool(bool),
    Null,
    Na,
}

#[derive(Debug, Clone, Copy, PartialEq, Eq)]
pub enum UnaryOp {
    Neg,
    Not,
}

#[derive(Debug, Clone, Copy, PartialEq, Eq)]
pub enum BinOp {
    Add,
    Sub,
    Mul,
    Div,
    Mod,
    MatMul,
    Eq,
    Ne,
    Lt,
    Le,
    Gt,
    Ge,
    And,
    Or,
}

#[derive(Debug)]
pub struct Expr {
    pub kind: ExprKind,
    pub span: Span,
}

#[allow(inconsistent_fields)]
#[derive(Debug)]
pub enum ExprKind {
    Lit(Lit),
    Name(String),
    Unary { op: UnaryOp, rhs: Box<Expr> },
    Binary { op: BinOp, lhs: Box<Expr>, rhs: Box<Expr> },
    Range { a: Box<Expr>, b: Box<Expr> },
    VectorLit(Vec<Expr>),
    RecordLit(Vec<(String, Expr)>),
    Call { callee: Box<Expr>, args: Vec<Expr> },
    Index { base: Box<Expr>, idx: Vec<Expr> },
    Pipe { lhs: Box<Expr>, rhs_call: Box<Expr> },
    Match { scrutinee: Box<Expr> },
    Try { expr: Box<Expr> },
    ColRef(String),
    Unquote(Box<Expr>),
}

#[derive(Debug)]
pub struct LValue {
    pub kind: LValueKind,
    pub span: Span,
}

#[derive(Debug)]
pub enum LValueKind {
    Name(String),
    Index { base: Expr, idx: Vec<Expr> },
}

#[derive(Debug)]
pub struct Block {
    pub stmts: Vec<Stmt>,
    pub span: Span,
}

#[derive(Debug)]
pub struct Stmt {
    pub kind: StmtKind,
    pub span: Span,
}

#[allow(inconsistent_fields)]
#[derive(Debug)]
pub enum StmtKind {
    Let { name: String, init: Expr },
    Assign { target: LValue, value: Expr },
    ExprStmt { expr: Expr },
    FnDecl { name: String, params: Vec<String>, body: Block },
    If { cond: Expr, then_blk: Block, else_blk: Option<Block> },
    While { cond: Expr, body: Block },
    For { var: String, iter: Expr, body: Block },
    Return { value: Option<Expr> },
    Break,
    Next,
}

#[derive(Debug)]
pub struct Program {
    pub stmts: Vec<Stmt>,
}

/// The mathematical form of a literal: strings become character sequences.
pub enum LitV {
    Int(i64),
    Float { bits: u64, text: Seq<char> },
    Str(Seq<char>),
    Bool(bool),
    Null,
    Na,
}

pub open spec fn view_lit(l: Lit) -> LitV {
    match l {
        Lit::Int(i) => LitV::Int(i),
        Lit::Float(f) => LitV::Float { bits: f.bits, text: f.text@ },
        Lit::Str(s) => LitV::Str(s@),
        Lit::Bool(b) => LitV::Bool(b),
        Lit::Null => LitV::Null,
        Lit::Na => LitV::Na,
    }
}

impl View for Lit {
    type V = LitV;

    open spec fn view(&self) -> LitV {
        view_lit(*self)
    }
}

impl Lit {
    /// A copy of the literal.
    pub fn deep_clone(&self) -> (r: Lit)
        ensures
            r@ == self@,
    {
        match self {
            Lit::Int(i) => Lit::Int(*i),
            Lit::Float(f) => Lit::Float(FloatLit { bits: f.bits, text: f.text.clone() }),
            Lit::Str(s) => Lit::Str(s.clone()),
            Lit::Bool(b) => Lit::Bool(*b),
            Lit::Null => Lit::Null,
            Lit::Na => Lit::Na,
        }
    }
}

/// The mathematical form of an AST expression.
pub struct AstExprV {
    pub kind: AstExprKindV,
    pub span: Span,
}

#[allow(inconsistent_fields)]
pub enum AstExprKindV {
    Lit(LitV),
    Name(Seq<char>),
    Unary { op: UnaryOp, rhs: Box<AstExprV> },
    Binary { op: BinOp, lhs: Box<AstExprV>, rhs: Box<AstExprV> },
    Range { a: Box<AstExprV>, b: Box<AstExprV> },
    VectorLit(Seq<AstExprV>),
    RecordLit(Seq<(Seq<char>, AstExprV)>),
    Call { callee: Box<AstExprV>, args: Seq<AstExprV> },
    Index { base: Box<AstExprV>, idx: Seq<AstExprV> },
    Pipe { lhs: Box<AstExprV>, rhs_call: Box<AstExprV> },
    Match { scrutinee: Box<AstExprV> },
    Try { expr: Box<AstExprV> },
    ColRef(Seq<char>),
    Unquote(Box<AstExprV>),
}

#[allow(inconsistent_fields)]
pub enum AstLValueV {
    Name(Seq<char>),
    Index { base: AstExprV, idx: Seq<AstExprV> },
}

pub struct AstStmtV {
    pub kind: AstStmtKindV,
    pub span: Span,
}

#[allow(inconsistent_fields)]
pub enum AstStmtKindV {
    Let { name: Seq<char>, init: AstExprV },
    Assign { target: AstLValueV, value: AstExprV },
    ExprStmt { expr: AstExprV },
    FnDecl { name: Seq<char>, params: Seq<Seq<char>>, body: Seq<AstStmtV> },
    If { cond: AstExprV, then_blk: Seq<AstStmtV>, else_blk: Option<Seq<AstStmtV>> },
    While { cond: AstExprV, body: Seq<AstStmtV> },
    For { var: Seq<char>, iter: AstExprV, body: Seq<AstStmtV> },
    Return { value: Option<AstExprV> },
    Break,
    Next,
}

pub open spec fn view_ast_expr(e: Expr) -> AstExprV
    decreases e,
{
    AstExprV { kind: view_ast_kind(e.kind), span: e.span }
}

pub open spec fn view_ast_kind(k: ExprKind) -> AstExprKindV
    decreases k,
{
    match k {
        ExprKind::Lit(l) => AstExprKindV::Lit(view_lit(l)),
        ExprKind::Name(n) => AstExprKindV::Name(n@),
        ExprKind::Unary { op, rhs } => AstExprKindV::Unary {
            op,
            rhs: Box::new(view_ast_expr(*rhs)),
        },
        ExprKind::Binary { op, lhs, rhs } => AstExprKindV::Binary {
            op,
            lhs: Box::new(view_ast_expr(*lhs)),
            rhs: Box::new(view_ast_expr(*rhs)),
        },
        ExprKind::Range { a, b } => AstExprKindV::Range {
            a: Box::new(view_ast_expr(*a)),
            b: Box::new(view_ast_expr(*b)),
        },
        ExprKind::VectorLit(v) => AstExprKindV::VectorLit(view_ast_exprs(v@)),
        ExprKind::RecordLit(f) => AstExprKindV::RecordLit(view_ast_fields(f@)),
        ExprKind::Call { callee, args } => AstExprKindV::Call {
            callee: Box::new(view_ast_expr(*callee)),
            args: view_ast_exprs(args@),
        },
        ExprKind::Index { base, idx } => AstExprKindV::Index {
            base: Box::new(view_ast_expr(*base)),
            idx: view_ast_exprs(idx@),
        },
        ExprKind::Pipe { lhs, rhs_call } => AstExprKindV::Pipe {
            lhs: Box::new(view_ast_expr(*lhs)),
            rhs_call: Box::new(view_ast_expr(*rhs_call)),
        },
        ExprKind::Match { scrutinee } => AstExprKindV::Match {
            scrutinee: Box::new(view_ast_expr(*scrutinee)),
        },
        ExprKind::Try { expr } => AstExprKindV::Try { expr: Box::new(view_ast_expr(*expr)) },
        ExprKind::ColRef(n) => AstExprKindV::ColRef(n@),
        ExprKind::Unquote(e) => AstExprKindV::Unquote(Box::new(view_ast_expr(*e))),
    }
}

pub open spec fn view_ast_exprs(s: Seq<Expr>) -> Seq<AstExprV>
    decreases s,
{
    if s.len() == 0 {
        Seq::empty()
    } else {
        view_ast_exprs(s.drop_last()).push(view_ast_expr(s.last()))
    }
}

pub open spec fn view_ast_fields(s: Seq<(String, Expr)>) -> Seq<(Seq<char>, AstExprV)>
    decreases s,
{
    if s.len() == 0 {
        Seq::empty()
    } else {
        view_ast_fields(s.drop_last()).push((s.last().0@, view_ast_expr(s.last().1)))
    }
}

pub open spec fn view_ast_lvalue(lv: LValue) -> AstLValueV {
    match lv.kind {
        LValueKind::Name(n) => AstLValueV::Name(n@),
        LValueKind::Index { base, idx } => AstLValueV::Index {
            base: view_ast_expr(base),
            idx: view_ast_exprs(idx@),
        },
    }
}

pub open spec fn view_ast_stmt(s: Stmt) -> AstStmtV
    decreases s,
{
    AstStmtV { kind: view_ast_stmt_kind(s.kind), span: s.span }
}

pub open spec fn view_ast_stmt_kind(k: StmtKind) -> AstStmtKindV
    decreases k,
{
    match k {
        StmtKind::Let { name, init } => AstStmtKindV::Let { name: name@, init: view_ast_expr(init) },
        StmtKind::Assign { target, value } => AstStmtKindV::Assign {
            target: view_ast_lvalue(target),
            value: view_ast_expr(value),
        },
        StmtKind::ExprStmt { expr } => AstStmtKindV::ExprStmt { expr: view_ast_expr(expr) },
        StmtKind::FnDecl { name, params, body } => AstStmtKindV::FnDecl {
            name: name@,
            params: view_strings(params@),
            body: view_ast_stmts(body.stmts@),
        },
        StmtKind::If { cond, then_blk, else_blk } => AstStmtKindV::If {
            cond: view_ast_expr(cond),
            then_blk: view_ast_stmts(then_blk.stmts@),
            else_blk: match else_blk {
                Some(b) => Some(view_ast_stmts(b.stmts@)),
                None => None,
            },
        },
        StmtKind::While { cond, body } => AstStmtKindV::While {
            cond: view_ast_expr(cond),
            body: view_ast_stmts(body.stmts@),
        },
        StmtKind::For { var, iter, body } => AstStmtKindV::For {
            var: var@,
            iter: view_ast_expr(iter),
            body: view_ast_stmts(body.stmts@),
        },
        StmtKind::Return { value } => AstStmtKindV::Return {
            value: match value {
                Some(v) => Some(view_ast_expr(v)),
                None => None,
            },
        },
        StmtKind::Break => AstStmtKindV::Break,
        StmtKind::Next => AstStmtKindV::Next,
    }
}

pub open spec fn view_ast_stmts(s: Seq<Stmt>) -> Seq<AstStmtV>
    decreases s,
{
    if s.len() == 0 {
        Seq::empty()
    } else {
        view_ast_stmts(s.drop_last()).push(view_ast_stmt(s.last()))
    }
}

impl View for Expr {
    type V = AstExprV;

    open spec fn view(&self) -> AstExprV {
        view_ast_expr(*self)
    }
}

impl View for Stmt {
    type V = AstStmtV;

    open spec fn view(&self) -> AstStmtV {
        view_ast_stmt(*self)
    }
}

impl View for LValue {
    type V = AstLValueV;

    open spec fn view(&self) -> AstLValueV {
        view_ast_lvalue(*self)
    }
}

impl View for Program {
    type V = Seq<AstStmtV>;

    open spec fn view(&self) -> Seq<AstStmtV> {
        view_ast_stmts(self.stmts@)
    }
}

pub proof fn lemma_view_ast_exprs(s: Seq<Expr>)
    ensures
        view_ast_exprs(s).len() == s.len(),
        forall|i: int| 0 <= i < s.len() ==> #[trigger] view_ast_exprs(s)[i] == view_ast_expr(s[i]),
    decreases s.len(),
{
    if s.len() > 0 {
        lemma_view_ast_exprs(s.drop_last());
    }
}

pub proof fn lemma_view_ast_fields(s: Seq<(String, Expr)>)
    ensures
        view_ast_fields(s).len() == s.len(),
        forall|i: int|
            0 <= i < s.len() ==> #[trigger] view_ast_fields(s)[i] == (s[i].0@, view_ast_expr(s[i].1)),
    decreases s.len(),
{
    if s.len() > 0 {
        lemma_view_ast_fields(s.drop_last());
    }
}

pub proof fn lemma_view_ast_stmts(s: Seq<Stmt>)
    ensures
        view_ast_stmts(s).len() == s.len(),
        forall|i: int| 0 <= i < s.len() ==> #[trigger] view_ast_stmts(s)[i] == view_ast_stmt(s[i]),
    decreases s.len(),
{
    if s.len() > 0 {
        lemma_view_ast_stmts(s.drop_last());
    }
}

/// Number of nodes in an expression tree.
pub open spec fn ast_expr_size(e: AstExprV) -> nat
    decreases e,
{
    1 + match e.kind {
        AstExprKindV::Unary { rhs, .. } => ast_expr_size(*rhs),
        AstExprKindV::Binary { lhs, rhs, .. } => ast_expr_size(*lhs) + ast_expr_size(*rhs),
        AstExprKindV::Range { a, b } => ast_expr_size(*a) + ast_expr_size(*b),
        AstExprKindV::VectorLit(v) => ast_exprs_size(v),
        AstExprKindV::RecordLit(f) => ast_fields_size(f),
        AstExprKindV::Call { callee, args } => ast_expr_size(*callee) + ast_exprs_size(args),
        AstExprKindV::Index { base, idx } => ast_expr_size(*base) + ast_exprs_size(idx),
        AstExprKindV::Pipe { lhs, rhs_call } => ast_expr_size(*lhs) + ast_expr_size(*rhs_call),
        AstExprKindV::Match { scrutinee } => ast_expr_size(*scrutinee),
        AstExprKindV::Try { expr } => ast_expr_size(*expr),
        AstExprKindV::Unquote(e) => ast_expr_size(*e),
        _ => 0,
    }
}

pub open spec fn ast_exprs_size(s: Seq<AstExprV>) -> nat
    decreases s,
{
    if s.len() == 0 {
        0
    } else {
        ast_exprs_size(s.drop_last()) + ast_expr_size(s.last())
    }
}

pub open spec fn ast_fields_size(s: Seq<(Seq<char>, AstExprV)>) -> nat
    decreases s,
{
    if s.len() == 0 {
        0
    } else {
        ast_fields_size(s.drop_last()) + ast_expr_size(s.last().1)
    }
}

pub proof fn lemma_ast_exprs_size_elem(s: Seq<AstExprV>, j: int)
    requires
        0 <= j < s.len(),
    ensures
        ast_expr_size(s[j]) <= ast_exprs_size(s),
    decreases s.len(),
{
    if j < s.len() - 1 {
        lemma_ast_exprs_size_elem(s.drop_last(), j);
        assert(s.drop_last()[j] == s[j]);
    }
}

pub proof fn lemma_ast_fields_size_elem(s: Seq<(Seq<char>, AstExprV)>, j: int)
    requires
        0 <= j < s.len(),
    ensures
        ast_expr_size(s[j].1) <= ast_fields_size(s),
    decreases s.len(),
{
    if j < s.len() - 1 {
        lemma_ast_fields_size_elem(s.drop_last(), j);
        assert(s.drop_last()[j] == s[j]);
    }
}

/// Prepending an element adds its size.
pub proof fn lemma_ast_exprs_size_prepend(x: AstExprV, s: Seq<AstExprV>)
    ensures
        ast_exprs_size(seq![x] + s) == ast_expr_size(x) + ast_exprs_size(s),
    decreases s.len(),
{
    if s.len() > 0 {
        lemma_ast_exprs_size_prepend(x, s.drop_last());
        assert((seq![x] + s).drop_last() =~= seq![x] + s.drop_last());
        assert((seq![x] + s).last() == s.last());
        assert(ast_exprs_size(seq![x] + s) == ast_exprs_size(seq![x] + s.drop_last()) + ast_expr_size(
            s.last(),
        ));
    } else {
        assert(seq![x] + s =~= seq![x]);
        assert(seq![x].drop_last() =~= Seq::<AstExprV>::empty());
        assert(ast_exprs_size(seq![x].drop_last()) == 0);
        assert(seq![x].last() == x);
        assert(ast_exprs_size(s) == 0);
    }
}

/// A copy of a list of expressions.
pub fn clone_ast_exprs(v: &Vec<Expr>) -> (r: Vec<Expr>)
    ensures
        view_ast_exprs(r@) == view_ast_exprs(v@),
    decreases v@,
{
    let mut out: Vec<Expr> = Vec::new();
    let mut i: usize = 0;
    while i < v.len()
        invariant
            i <= v@.len(),
            out@.len() == i,
            forall|j: int| 0 <= j < i ==> view_ast_expr(#[trigger] out@[j]) == view_ast_expr(v@[j]),
        decreases v@.len() - i,
    {
        assert(decreases_to!(v@ => v@[i as int]));
        out.push(v[i].deep_clone());
        i = i + 1;
    }
    proof {
        lemma_view_ast_exprs(out@);
        lemma_view_ast_exprs(v@);
        assert(view_ast_exprs(out@) =~= view_ast_exprs(v@));
    }
    out
}

/// A copy of a list of named fields.
pub fn clone_ast_fields(v: &Vec<(String, Expr)>) -> (r: Vec<(String, Expr)>)
    ensures
        view_ast_fields(r@) == view_ast_fields(v@),
    decreases v@,
{
    let mut out: Vec<(String, Expr)> = Vec::new();
    let mut i: usize = 0;
    while i < v.len()
        invariant
            i <= v@.len(),
            out@.len() == i,
            forall|j: int|
                0 <= j < i ==> (#[trigger] out@[j]).0@ == v@[j].0@ && view_ast_expr(out@[j].1)
                    == view_ast_expr(v@[j].1),
        decreases v@.len() - i,
    {
        assert(decreases_to!(v@ => v@[i as int]));
        let (n, e) = &v[i];
        out.push((n.clone(), e.deep_clone()));
        i = i + 1;
    }
    proof {
        lemma_view_ast_fields(out@);
        lemma_view_ast_fields(v@);
        assert(view_ast_fields(out@) =~= view_ast_fields(v@));
    }
    out
}

impl Expr {
    /// A copy of the whole expression tree.
    pub fn deep_clone(&self) -> (r: Expr)
        ensures
            r@ == self@,
        decreases self,
    {
        let kind = match &self.kind {
            ExprKind::Lit(l) => ExprKind::Lit(l.deep_clone()),
            ExprKind::Name(n) => ExprKind::Name(n.clone()),
            ExprKind::Unary { op, rhs } => ExprKind::Unary { op: *op, rhs: Box::new(rhs.deep_clone()) },
            ExprKind::Binary { op, lhs, rhs } => ExprKind::Binary {
                op: *op,
                lhs: Box::new(lhs.deep_clone()),
                rhs: Box::new(rhs.deep_clone()),
            },
            ExprKind::Range { a, b } => ExprKind::Range {
                a: Box::new(a.deep_clone()),
                b: Box::new(b.deep_clone()),
            },
            ExprKind::VectorLit(v) => ExprKind::VectorLit(clone_ast_exprs(v)),
            ExprKind::RecordLit(f) => ExprKind::RecordLit(clone_ast_fields(f)),
            ExprKind::Call { callee, args } => ExprKind::Call {
                callee: Box::new(callee.deep_clone()),
                args: clone_ast_exprs(args),
            },
            ExprKind::Index { base, idx } => ExprKind::Index {
                base: Box::new(base.deep_clone()),
                idx: clone_ast_exprs(idx),
            },
            ExprKind::Pipe { lhs, rhs_call } => ExprKind::Pipe {
                lhs: Box::new(lhs.deep_clone()),
                rhs_call: Box::new(rhs_call.deep_clone()),
            },
            ExprKind::Match { scrutinee } => ExprKind::Match {
                scrutinee: Box::new(scrutinee.deep_clone()),
            },
            ExprKind::Try { expr } => ExprKind::Try { expr: Box::new(expr.deep_clone()) },
            ExprKind::ColRef(n) => ExprKind::ColRef(n.clone()),
            ExprKind::Unquote(e) => ExprKind::Unquote(Box::new(e.deep_clone())),
        };
        Expr { kind, span: self.span }
    }
}

} // verus!
