//! The R text of expressions and assignment targets, as spec functions
//! and as the writers that produce it.
use vstd::prelude::*;
use vstd::string::StrSliceExecFns;
use vstd::string::StringExecFns;

use crate::legacy::ir::{
    ExprKindV, ExprV, IRExpr, IRExprKind, IRLValue, LValueV, view_expr, view_exprs, view_fields,
    view_kind, lemma_view_exprs, lemma_view_fields,
};
use crate::mir::flow::Facts;
use crate::syntax::ast::{BinOp, Lit, LitV, UnaryOp};
use crate::text::{view_strings, count_nl, int_text, lemma_count_nl_concat, push_char, push_int};

verus! {

// ---------------------------------------------------------------------------
// Text
// ---------------------------------------------------------------------------

/// A newline.
pub open spec fn nl() -> Seq<char> {
    seq!['\n']
}

/// Two spaces per level of indentation.
pub open spec fn indent_text(n: nat) -> Seq<char>
    decreases n,
{
    if n == 0 {
        Seq::empty()
    } else {
        indent_text((n - 1) as nat) + seq![' ', ' ']
    }
}

/// How one character is written inside an R string literal.
pub open spec fn escape_char(c: char) -> Seq<char> {
    if c == '\\' {
        seq!['\\', '\\']
    } else if c == '"' {
        seq!['\\', '"']
    } else if c == '\n' {
        seq!['\\', 'n']
    } else if c == '\r' {
        seq!['\\', 'r']
    } else if c == '\t' {
        seq!['\\', 't']
    } else {
        seq![c]
    }
}

/// The body of an R string literal holding `s`.
pub open spec fn escape_v(s: Seq<char>) -> Seq<char>
    decreases s.len(),
{
    if s.len() == 0 {
        Seq::empty()
    } else {
        escape_v(s.drop_last()) + escape_char(s.last())
    }
}

/// The R form of a literal.
pub open spec fn lit_text(l: LitV) -> Seq<char> {
    match l {
        LitV::Int(i) => int_text(i as int) + "L"@,
        LitV::Float { text, .. } => text,
        LitV::Str(s) => "\""@ + escape_v(s) + "\""@,
        LitV::Bool(b) => if b {
            "TRUE"@
        } else {
            "FALSE"@
        },
        LitV::Null => "NULL"@,
        LitV::Na => "NA"@,
    }
}

/// The R spelling of a binary operator.
pub open spec fn binop_text(op: BinOp) -> Seq<char> {
    match op {
        BinOp::Add => "+"@,
        BinOp::Sub => "-"@,
        BinOp::Mul => "*"@,
        BinOp::Div => "/"@,
        BinOp::Mod => "%%"@,
        BinOp::MatMul => "%*%"@,
        BinOp::Eq => "=="@,
        BinOp::Ne => "!="@,
        BinOp::Lt => "<"@,
        BinOp::Le => "<="@,
        BinOp::Gt => ">"@,
        BinOp::Ge => ">="@,
        BinOp::And => "&"@,
        BinOp::Or => "|"@,
    }
}

/// The operators ordering their operands.
pub open spec fn is_ordering(op: BinOp) -> bool {
    op == BinOp::Lt || op == BinOp::Le || op == BinOp::Gt || op == BinOp::Ge
}

/// Distinct operators are written differently, so no operator is emitted
/// as another; an ordering operator is written with `<` exactly when it
/// tests "less", and ends in `=` exactly when it also holds for equal
/// operands; equality tests are the two-character `==` and `!=`.
pub proof fn lemma_binop_text_faithful(a: BinOp, b: BinOp)
    ensures
        a != b ==> binop_text(a) != binop_text(b),
        is_ordering(a) ==> (binop_text(a)[0] == '<' <==> (a == BinOp::Lt || a == BinOp::Le)),
        is_ordering(a) ==> (binop_text(a).last() == '=' <==> (a == BinOp::Le || a == BinOp::Ge)),
        is_ordering(a) ==> 1 <= binop_text(a).len() <= 2,
        a == BinOp::Eq || a == BinOp::Ne ==> binop_text(a).len() == 2 && binop_text(a)[1] == '='
            && (binop_text(a)[0] == '=' <==> a == BinOp::Eq),
{
    reveal_strlit("+");
    reveal_strlit("-");
    reveal_strlit("*");
    reveal_strlit("/");
    reveal_strlit("%%");
    reveal_strlit("%*%");
    reveal_strlit("==");
    reveal_strlit("!=");
    reveal_strlit("<");
    reveal_strlit("<=");
    reveal_strlit(">");
    reveal_strlit(">=");
    reveal_strlit("&");
    reveal_strlit("|");
    if a != b {
        let x = binop_text(a);
        let y = binop_text(b);
        if x.len() == y.len() {
            assert(x[0] != y[0] || (x.len() > 1 && x[1] != y[1]) || (x.len() > 2 && x[2] != y[2]));
        }
    }
}

/// The element-wise arithmetic operators, whose vector operands the runtime
/// checks for equal length.
pub open spec fn is_arith(op: BinOp) -> bool {
    op == BinOp::Add || op == BinOp::Sub || op == BinOp::Mul || op == BinOp::Div || op
        == BinOp::Mod
}

/// The facts that make an index a known non-negative, non-`NA` integer
/// scalar, which needs no runtime check.
pub open spec fn safe_index(facts: u32) -> bool {
    facts & 7u32 == 7u32
}

/// Whether the facts mark a vector.
pub open spec fn is_vector(facts: u32) -> bool {
    facts & 16u32 == 16u32
}

/// Whether an index has the form `x - 1L`, which 1-based R indexing folds
/// back to `x`.
pub open spec fn minus_one(idx: ExprV) -> bool {
    idx.kind matches ExprKindV::Binary { op, rhs, .. } && op == BinOp::Sub && rhs.kind
        == ExprKindV::Lit(LitV::Int(1))
}

/// The R text of an expression; `wr` says whether the runtime prelude is
/// present, which turns on length checks of vector arithmetic.
pub open spec fn expr_text(e: ExprV, wr: bool) -> Seq<char>
    decreases e,
{
    match e.kind {
        ExprKindV::Lit(l) => lit_text(l),
        ExprKindV::Name(n) => n,
        ExprKindV::Unary { op, rhs } => (if op == UnaryOp::Neg {
            "-"@
        } else {
            "!"@
        }) + "("@ + expr_text(*rhs, wr) + ")"@,
        ExprKindV::Binary { op, lhs, rhs } => if is_arith(op) && (is_vector(lhs.facts)
            || is_vector(rhs.facts)) && wr {
            "({ .lhs <- "@ + expr_text(*lhs, wr) + "; .rhs <- "@ + expr_text(*rhs, wr)
                + "; rr_same_len(.lhs, .rhs, \""@ + binop_text(op) + "\"); .lhs "@ + binop_text(
                op,
            ) + " .rhs })"@
        } else {
            "("@ + expr_text(*lhs, wr) + " "@ + binop_text(op) + " "@ + expr_text(*rhs, wr)
                + ")"@
        },
        ExprKindV::Call { callee, args } => expr_text(*callee, wr) + "("@ + exprs_text(args, wr)
            + ")"@,
        ExprKindV::RrRange { a, b } => "rr_range("@ + expr_text(*a, wr) + ", "@ + expr_text(
            *b,
            wr,
        ) + ")"@,
        ExprKindV::RrIndices { x } => "rr_indices("@ + expr_text(*x, wr) + ")"@,
        ExprKindV::Index1D { base, idx } => if safe_index(idx.facts) {
            expr_text(*base, wr) + "["@ + match idx.kind {
                ExprKindV::Binary { op, lhs, rhs } => if op == BinOp::Sub && rhs.kind
                    == ExprKindV::Lit(LitV::Int(1)) {
                    "("@ + expr_text(*lhs, wr) + ")"@
                } else {
                    "("@ + expr_text(*idx, wr) + ") + 1L"@
                },
                _ => "("@ + expr_text(*idx, wr) + ") + 1L"@,
            } + "]"@
        } else {
            "rr_index1_read("@ + expr_text(*base, wr) + ", "@ + expr_text(*idx, wr)
                + ", \"index\")"@
        },
        ExprKindV::Index2D { base, r, c } => expr_text(*base, wr) + "[rr_i0_read("@ + expr_text(
            *r,
            wr,
        ) + ", \"row\") + 1L, rr_i0_read("@ + expr_text(*c, wr) + ", \"col\") + 1L]"@,
        ExprKindV::Slice1D { base, a, b } => expr_text(*base, wr) + "[rr_range("@ + expr_text(
            *a,
            wr,
        ) + ", "@ + expr_text(*b, wr) + ") + 1L]"@,
        ExprKindV::VectorLit(elems) => "c("@ + exprs_text(elems, wr) + ")"@,
        ExprKindV::ListLit(fields) => "list("@ + fields_text(fields, wr) + ")"@,
    }
}

/// Expressions separated by `", "`.
pub open spec fn exprs_text(s: Seq<ExprV>, wr: bool) -> Seq<char>
    decreases s,
{
    if s.len() == 0 {
        Seq::empty()
    } else if s.len() == 1 {
        expr_text(s[0], wr)
    } else {
        exprs_text(s.drop_last(), wr) + ", "@ + expr_text(s.last(), wr)
    }
}

/// Named fields `name=value`, separated by `", "`.
pub open spec fn fields_text(s: Seq<(Seq<char>, ExprV)>, wr: bool) -> Seq<char>
    decreases s,
{
    if s.len() == 0 {
        Seq::empty()
    } else if s.len() == 1 {
        s[0].0 + "="@ + expr_text(s[0].1, wr)
    } else {
        fields_text(s.drop_last(), wr) + ", "@ + s.last().0 + "="@ + expr_text(s.last().1, wr)
    }
}

/// Names separated by `", "`.
pub open spec fn names_text(s: Seq<Seq<char>>) -> Seq<char>
    decreases s.len(),
{
    if s.len() == 0 {
        Seq::empty()
    } else if s.len() == 1 {
        s[0]
    } else {
        names_text(s.drop_last()) + ", "@ + s.last()
    }
}

/// The R text of an assignment target.
pub open spec fn lvalue_text(lv: LValueV, wr: bool) -> Seq<char> {
    match lv {
        LValueV::Name(n) => n,
        LValueV::Index1D { base, idx } => expr_text(base, wr) + "["@ + (if minus_one(idx) {
            "("@ + expr_text(*idx.kind->Binary_lhs, wr) + ")"@
        } else if safe_index(idx.facts) {
            "("@ + expr_text(idx, wr) + ") + 1L"@
        } else {
            "rr_index1_write("@ + expr_text(idx, wr) + ", \"index\")"@
        }) + "]"@,
        LValueV::Index2D { base, r, c } => expr_text(base, wr) + "[rr_i0_write("@ + expr_text(
            r,
            wr,
        ) + ", \"row\") + 1L, rr_i0_write("@ + expr_text(c, wr) + ", \"col\") + 1L]"@,
    }
}

/// An escaped string holds no line break: a string literal stays on one
/// line of the generated code.
pub proof fn lemma_escape_no_newline(s: Seq<char>)
    ensures
        count_nl(escape_v(s)) == 0,
    decreases s.len(),
{
    broadcast use lemma_count_nl_concat;

    if s.len() > 0 {
        lemma_escape_no_newline(s.drop_last());
        let c = s.last();
        reveal_with_fuel(count_nl, 3);
        let e = escape_char(c);
        assert(e.len() == 1 ==> e.drop_last() =~= Seq::<char>::empty());
        assert(e.len() == 2 ==> e.drop_last() =~= seq![e[0]] && seq![e[0]].drop_last()
            =~= Seq::<char>::empty());
    }
}

/// Writes `s` into an R string literal's body: backslash, double quote,
/// newline, carriage return and tab are escaped.
pub fn escape_r_string(s: &str) -> (out: String)
    ensures
        out@ == escape_v(s@),
{
    let len = s.unicode_len();
    let mut out = String::new();
    let mut i: usize = 0;
    while i < len
        invariant
            len == s@.len(),
            i <= len,
            out@ == escape_v(s@.take(i as int)),
        decreases len - i,
    {
        let c = s.get_char(i);
        assert(s@.take(i + 1).drop_last() =~= s@.take(i as int));
        if c == '\\' {
            push_char(&mut out, '\\');
            push_char(&mut out, '\\');
        } else if c == '"' {
            push_char(&mut out, '\\');
            push_char(&mut out, '"');
        } else if c == '\n' {
            push_char(&mut out, '\\');
            push_char(&mut out, 'n');
        } else if c == '\r' {
            push_char(&mut out, '\\');
            push_char(&mut out, 'r');
        } else if c == '\t' {
            push_char(&mut out, '\\');
            push_char(&mut out, 't');
        } else {
            push_char(&mut out, c);
        }
        assert(out@ =~= escape_v(s@.take(i + 1)));
        i = i + 1;
    }
    assert(s@.take(len as int) =~= s@);
    out
}

// ---------------------------------------------------------------------------
// Facts about the text
// ---------------------------------------------------------------------------

/// A newline is one line break.
pub proof fn lemma_nl_count()
    ensures
        count_nl(nl()) == 1,
{
    reveal_with_fuel(count_nl, 2);
    assert(nl().drop_last() =~= Seq::<char>::empty());
}

/// Indentation holds no newline.
pub proof fn lemma_indent_no_nl(n: nat)
    ensures
        count_nl(indent_text(n)) == 0,
    decreases n,
{
    broadcast use lemma_count_nl_concat;

    if n > 0 {
        lemma_indent_no_nl((n - 1) as nat);
        assert(count_nl(seq![' ', ' ']) == 0) by {
            reveal_with_fuel(count_nl, 3);
            assert(seq![' ', ' '].drop_last() =~= seq![' ']);
            assert(seq![' '].drop_last() =~= Seq::<char>::empty());
        }
    }
}

/// One more expression of a list extends its text by a separator and the
/// expression, and the newlines of a prefix are at most those of the whole.
pub proof fn lemma_exprs_text_step(s: Seq<ExprV>, i: int, wr: bool)
    requires
        0 <= i < s.len(),
    ensures
        exprs_text(s.take(i + 1), wr) == exprs_text(s.take(i), wr) + (if i == 0 {
            Seq::empty()
        } else {
            ", "@
        }) + expr_text(s[i], wr),
        count_nl(exprs_text(s.take(i + 1), wr)) <= count_nl(exprs_text(s, wr)),
    decreases s.len(),
{
    broadcast use lemma_count_nl_concat;

    assert(s.take(i + 1).drop_last() =~= s.take(i));
    if i == 0 {
        assert(exprs_text(s.take(1), wr) =~= Seq::<char>::empty() + Seq::<char>::empty()
            + expr_text(s[0], wr));
    }
    if i + 1 < s.len() {
        lemma_exprs_text_step(s.drop_last(), i, wr);
        assert(s.drop_last().take(i + 1) =~= s.take(i + 1));
        assert(s.drop_last().take(i) =~= s.take(i));
    } else {
        assert(s.take(i + 1) =~= s);
    }
}

/// The field-list counterpart of `lemma_exprs_text_step`.
pub proof fn lemma_fields_text_step(s: Seq<(Seq<char>, ExprV)>, i: int, wr: bool)
    requires
        0 <= i < s.len(),
    ensures
        fields_text(s.take(i + 1), wr) == fields_text(s.take(i), wr) + (if i == 0 {
            Seq::empty()
        } else {
            ", "@
        }) + s[i].0 + "="@ + expr_text(s[i].1, wr),
        count_nl(fields_text(s.take(i + 1), wr)) <= count_nl(fields_text(s, wr)),
    decreases s.len(),
{
    broadcast use lemma_count_nl_concat;

    assert(s.take(i + 1).drop_last() =~= s.take(i));
    if i == 0 {
        assert(fields_text(s.take(1), wr) =~= Seq::<char>::empty() + Seq::<char>::empty() + s[0].0
            + "="@ + expr_text(s[0].1, wr));
    }
    if i + 1 < s.len() {
        lemma_fields_text_step(s.drop_last(), i, wr);
        assert(s.drop_last().take(i + 1) =~= s.take(i + 1));
        assert(s.drop_last().take(i) =~= s.take(i));
    } else {
        assert(s.take(i + 1) =~= s);
    }
}

/// The name-list counterpart of `lemma_exprs_text_step`.
pub proof fn lemma_names_text_step(s: Seq<Seq<char>>, i: int)
    requires
        0 <= i < s.len(),
    ensures
        names_text(s.take(i + 1)) == names_text(s.take(i)) + (if i == 0 {
            Seq::empty()
        } else {
            ", "@
        }) + s[i],
        count_nl(names_text(s.take(i + 1))) <= count_nl(names_text(s)),
    decreases s.len(),
{
    broadcast use lemma_count_nl_concat;

    assert(s.take(i + 1).drop_last() =~= s.take(i));
    if i == 0 {
        assert(names_text(s.take(1)) =~= Seq::<char>::empty() + Seq::<char>::empty() + s[0]);
    }
    if i + 1 < s.len() {
        lemma_names_text_step(s.drop_last(), i);
        assert(s.drop_last().take(i + 1) =~= s.take(i + 1));
        assert(s.drop_last().take(i) =~= s.take(i));
    } else {
        assert(s.take(i + 1) =~= s);
    }
}

/// The R spelling of a binary operator.
fn binop_str(op: BinOp) -> (s: &'static str)
    ensures
        s@ == binop_text(op),
{
    match op {
        BinOp::Add => "+",
        BinOp::Sub => "-",
        BinOp::Mul => "*",
        BinOp::Div => "/",
        BinOp::Mod => "%%",
        BinOp::MatMul => "%*%",
        BinOp::Eq => "==",
        BinOp::Ne => "!=",
        BinOp::Lt => "<",
        BinOp::Le => "<=",
        BinOp::Gt => ">",
        BinOp::Ge => ">=",
        BinOp::And => "&",
        BinOp::Or => "|",
    }
}

/// Whether the operator is element-wise arithmetic.
fn binop_is_arith(op: BinOp) -> (r: bool)
    ensures
        r == is_arith(op),
{
    match op {
        BinOp::Add | BinOp::Sub | BinOp::Mul | BinOp::Div | BinOp::Mod => true,
        _ => false,
    }
}

/// The R form of a literal.
fn lit_string(l: &Lit) -> (s: String)
    ensures
        s@ == lit_text(l@),
{
    match l {
        Lit::Int(i) => {
            let mut s = String::new();
            push_int(&mut s, *i);
            s.append("L");
            assert(s@ =~= int_text(*i as int) + "L"@);
            s
        },
        Lit::Float(f) => f.text.clone(),
        Lit::Str(x) => {
            let mut s = String::from_str("\"");
            let body = escape_r_string(x.as_str());
            s.append(body.as_str());
            s.append("\"");
            s
        },
        Lit::Bool(b) => if *b {
            String::from_str("TRUE")
        } else {
            String::from_str("FALSE")
        },
        Lit::Null => String::from_str("NULL"),
        Lit::Na => String::from_str("NA"),
    }
}

/// Whether an index expression has the form `x - 1L`.
fn is_minus_one(idx: &IRExpr) -> (r: bool)
    ensures
        r == minus_one(idx@),
{
    assert(idx@.kind == view_kind(idx.kind));
    match &idx.kind {
        IRExprKind::Binary { op, rhs, .. } => {
            assert(rhs@.kind == view_kind(rhs.kind));
            match op {
                BinOp::Sub => match &rhs.kind {
                    IRExprKind::Lit(Lit::Int(v)) => *v == 1,
                    _ => false,
                },
                _ => false,
            }
        },
        _ => false,
    }
}

/// Appends the text of each expression of `v`, separated by `", "`.
fn push_exprs(out: &mut String, v: &Vec<IRExpr>, wr: bool)
    ensures
        final(out)@ == old(out)@ + exprs_text(view_exprs(v@), wr),
    decreases v@, 0nat,
{
    let ghost sv = view_exprs(v@);
    proof {
        lemma_view_exprs(v@);
    }
    let mut i: usize = 0;
    while i < v.len()
        invariant
            i <= v@.len(),
            sv == view_exprs(v@),
            sv.len() == v@.len(),
            forall|j: int| 0 <= j < v@.len() ==> #[trigger] sv[j] == view_expr(v@[j]),
            out@ == old(out)@ + exprs_text(sv.take(i as int), wr),
        decreases v@.len() - i,
    {
        proof {
            lemma_exprs_text_step(sv, i as int, wr);
        }
        if i > 0 {
            out.append(", ");
        }
        assert(decreases_to!(v@ => v@[i as int]));
        assert(sv[i as int] == v[i as int]@);
        push_expr(out, &v[i], wr);
        assert(out@ =~= old(out)@ + exprs_text(sv.take(i + 1), wr));
        i = i + 1;
    }
    assert(sv.take(i as int) =~= sv);
}

/// Appends each named field as `name=value`, separated by `", "`.
fn push_fields(out: &mut String, v: &Vec<(String, IRExpr)>, wr: bool)
    ensures
        final(out)@ == old(out)@ + fields_text(view_fields(v@), wr),
    decreases v@, 0nat,
{
    let ghost sv = view_fields(v@);
    proof {
        lemma_view_fields(v@);
    }
    let mut i: usize = 0;
    while i < v.len()
        invariant
            i <= v@.len(),
            sv == view_fields(v@),
            sv.len() == v@.len(),
            forall|j: int|
                0 <= j < v@.len() ==> #[trigger] sv[j] == (v@[j].0@, view_expr(v@[j].1)),
            out@ == old(out)@ + fields_text(sv.take(i as int), wr),
        decreases v@.len() - i,
    {
        proof {
            lemma_fields_text_step(sv, i as int, wr);
        }
        if i > 0 {
            out.append(", ");
        }
        assert(decreases_to!(v@ => v@[i as int]));
        let (n, e) = &v[i];
        assert(sv[i as int] == (n@, e@));
        out.append(n.as_str());
        out.append("=");
        push_expr(out, e, wr);
        assert(out@ =~= old(out)@ + fields_text(sv.take(i + 1), wr));
        i = i + 1;
    }
    assert(sv.take(i as int) =~= sv);
}

/// Appends the names of `v`, separated by `", "`.
pub fn push_names(out: &mut String, v: &Vec<String>)
    ensures
        final(out)@ == old(out)@ + names_text(view_strings(v@)),
{
    let ghost sv = view_strings(v@);
    let mut i: usize = 0;
    while i < v.len()
        invariant
            i <= v@.len(),
            sv == view_strings(v@),
            sv.len() == v@.len(),
            out@ == old(out)@ + names_text(sv.take(i as int)),
        decreases v@.len() - i,
    {
        proof {
            lemma_names_text_step(sv, i as int);
        }
        if i > 0 {
            out.append(", ");
        }
        assert(sv[i as int] == v[i as int]@);
        out.append(v[i].as_str());
        assert(out@ =~= old(out)@ + names_text(sv.take(i + 1)));
        i = i + 1;
    }
    assert(sv.take(i as int) =~= sv);
}

/// Appends `n` levels of indentation.
pub fn push_indent(out: &mut String, n: usize)
    ensures
        final(out)@ == old(out)@ + indent_text(n as nat),
{
    let mut k: usize = 0;
    while k < n
        invariant
            k <= n,
            out@ == old(out)@ + indent_text(k as nat),
        decreases n - k,
    {
        push_char(out, ' ');
        push_char(out, ' ');
        proof {
            assert(indent_text((k + 1) as nat) == indent_text(k as nat) + seq![' ', ' ']);
            assert(out@ =~= old(out)@ + indent_text((k + 1) as nat));
        }
        k = k + 1;
    }
}

/// Appends the text of an expression.
#[verifier::rlimit(30)]
#[verifier::spinoff_prover]
pub fn push_expr(out: &mut String, e: &IRExpr, wr: bool)
    ensures
        final(out)@ == old(out)@ + expr_text(e@, wr),
    decreases e, 1nat,
{
    let ghost t = expr_text(e@, wr);
    assert(e@.kind == view_kind(e.kind));
    match &e.kind {
        IRExprKind::Lit(l) => {
            let s = lit_string(l);
            out.append(s.as_str());
            assert(out@ =~= old(out)@ + t);
        },
        IRExprKind::Name(n) => {
            out.append(n.as_str());
            assert(out@ =~= old(out)@ + t);
        },
        IRExprKind::Unary { op, rhs } => {
            match op {
                UnaryOp::Neg => out.append("-"),
                UnaryOp::Not => out.append("!"),
            }
            out.append("(");
            push_expr(out, rhs, wr);
            out.append(")");
            assert(out@ =~= old(out)@ + t);
        },
        IRExprKind::Binary { .. } => {
            push_binary(out, e, wr);
        },
        IRExprKind::Call { callee, args } => {
            push_expr(out, callee, wr);
            out.append("(");
            push_exprs(out, args, wr);
            out.append(")");
            assert(out@ =~= old(out)@ + t);
        },
        IRExprKind::RrRange { a, b } => {
            out.append("rr_range(");
            push_expr(out, a, wr);
            out.append(", ");
            push_expr(out, b, wr);
            out.append(")");
            assert(out@ =~= old(out)@ + t);
        },
        IRExprKind::RrIndices { x } => {
            out.append("rr_indices(");
            push_expr(out, x, wr);
            out.append(")");
            assert(out@ =~= old(out)@ + t);
        },
        IRExprKind::Index1D { .. } => {
            push_index1d(out, e, wr);
        },
        IRExprKind::Index2D { base, r, c } => {
            push_expr(out, base, wr);
            out.append("[rr_i0_read(");
            push_expr(out, r, wr);
            out.append(", \"row\") + 1L, rr_i0_read(");
            push_expr(out, c, wr);
            out.append(", \"col\") + 1L]");
            assert(out@ =~= old(out)@ + t);
        },
        IRExprKind::Slice1D { base, a, b } => {
            push_expr(out, base, wr);
            out.append("[rr_range(");
            push_expr(out, a, wr);
            out.append(", ");
            push_expr(out, b, wr);
            out.append(") + 1L]");
            assert(out@ =~= old(out)@ + t);
        },
        IRExprKind::VectorLit(elems) => {
            out.append("c(");
            push_exprs(out, elems, wr);
            out.append(")");
            assert(out@ =~= old(out)@ + t);
        },
        IRExprKind::ListLit(fields) => {
            out.append("list(");
            push_fields(out, fields, wr);
            out.append(")");
            assert(out@ =~= old(out)@ + t);
        },
    }
}

/// Appends the text of a binary operation.
#[verifier::spinoff_prover]
fn push_binary(out: &mut String, e: &IRExpr, wr: bool)
    requires
        e.kind is Binary,
    ensures
        final(out)@ == old(out)@ + expr_text(e@, wr),
    decreases e, 0nat,
{
    let ghost t = expr_text(e@, wr);
    assert(e@.kind == view_kind(e.kind));
    match &e.kind {
        IRExprKind::Binary { op, lhs, rhs } => {
            let op_str = binop_str(*op);
            let has_vec = lhs.facts.has(Facts::IS_VECTOR) || rhs.facts.has(Facts::IS_VECTOR);
            if binop_is_arith(*op) && has_vec && wr {
                out.append("({ .lhs <- ");
                push_expr(out, lhs, wr);
                out.append("; .rhs <- ");
                push_expr(out, rhs, wr);
                out.append("; rr_same_len(.lhs, .rhs, \"");
                out.append(op_str);
                out.append("\"); .lhs ");
                out.append(op_str);
                out.append(" .rhs })");
            } else {
                out.append("(");
                push_expr(out, lhs, wr);
                out.append(" ");
                out.append(op_str);
                out.append(" ");
                push_expr(out, rhs, wr);
                out.append(")");
            }
            assert(out@ =~= old(out)@ + t);
        },
        _ => {
            assert(false);
        },
    }
}

/// Appends the text of a one-dimensional index read.
#[verifier::spinoff_prover]
fn push_index1d(out: &mut String, e: &IRExpr, wr: bool)
    requires
        e.kind is Index1D,
    ensures
        final(out)@ == old(out)@ + expr_text(e@, wr),
    decreases e, 0nat,
{
    let ghost t = expr_text(e@, wr);
    assert(e@.kind == view_kind(e.kind));
    match &e.kind {
        IRExprKind::Index1D { base, idx } => {
            assert((4u32 | 1u32 | 2u32) == 7u32) by (bit_vector);
            if idx.facts.has(Facts::INT_SCALAR | Facts::NON_NEG | Facts::NON_NA) {
                push_expr(out, base, wr);
                out.append("[");
                assert(idx@.kind == view_kind(idx.kind));
                if is_minus_one(idx) {
                    match &idx.kind {
                        IRExprKind::Binary { lhs, .. } => {
                            out.append("(");
                            push_expr(out, lhs, wr);
                            out.append(")");
                        },
                        _ => {
                            assert(false);
                        },
                    }
                } else {
                    out.append("(");
                    push_expr(out, idx, wr);
                    out.append(") + 1L");
                }
                out.append("]");
            } else {
                out.append("rr_index1_read(");
                push_expr(out, base, wr);
                out.append(", ");
                push_expr(out, idx, wr);
                out.append(", \"index\")");
            }
            assert(out@ =~= old(out)@ + t);
        },
        _ => {
            assert(false);
        },
    }
}

/// Appends the text of an assignment target.
pub fn push_lvalue(out: &mut String, lv: &IRLValue, wr: bool)
    ensures
        final(out)@ == old(out)@ + lvalue_text(lv@, wr),
{
    let ghost t = lvalue_text(lv@, wr);
    match lv {
        IRLValue::Name(n) => {
            out.append(n.as_str());
        },
        IRLValue::Index1D { base, idx } => {
            push_expr(out, base, wr);
            out.append("[");
            assert(idx@.kind == view_kind(idx.kind));
            if is_minus_one(idx) {
                match &idx.kind {
                    IRExprKind::Binary { lhs, .. } => {
                        out.append("(");
                        push_expr(out, lhs, wr);
                        out.append(")");
                    },
                    _ => {
                        assert(false);
                    },
                }
            } else {
                assert((4u32 | 1u32 | 2u32) == 7u32) by (bit_vector);
                if idx.facts.has(Facts::INT_SCALAR | Facts::NON_NEG | Facts::NON_NA) {
                    out.append("(");
                    push_expr(out, idx, wr);
                    out.append(") + 1L");
                } else {
                    out.append("rr_index1_write(");
                    push_expr(out, idx, wr);
                    out.append(", \"index\")");
                }
            }
            out.append("]");
        },
        IRLValue::Index2D { base, r, c } => {
            push_expr(out, base, wr);
            out.append("[rr_i0_write(");
            push_expr(out, r, wr);
            out.append(", \"row\") + 1L, rr_i0_write(");
            push_expr(out, c, wr);
            out.append(", \"col\") + 1L]");
        },
    }
    assert(out@ =~= old(out)@ + t);
}

} // verus!
