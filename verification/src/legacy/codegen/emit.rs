//! The R emitter: turns legacy IR into R source text, recording for each
//! statement with a source location the R line on which it starts.
use vstd::prelude::*;
use vstd::string::StrSliceExecFns;
use vstd::string::StringExecFns;

use crate::error::RR;
use crate::legacy::codegen::rtext::{
    expr_text, indent_text, lvalue_text, names_text, nl, lemma_indent_no_nl, lemma_nl_count,
    push_expr, push_indent, push_lvalue, push_names,
};
use crate::legacy::ir::ExprV;
use crate::legacy::ir::{
    IRProgram, IRStmt, IRStmtKind, StmtKindV, StmtV, view_stmt, view_stmt_kind, view_stmts,
    lemma_view_stmts,
};
use crate::legacy::ir::optimize::{lemma_stmts_size_elem, stmt_size, stmts_size};
use crate::text::{view_strings, count_nl, decimal_v, lemma_count_nl_concat, push_char, push_decimal};
use crate::utils::Span;

verus! {

// ---------------------------------------------------------------------------
// Statements
// ---------------------------------------------------------------------------

/// The runtime marker written before a statement with a source location,
/// when the runtime prelude is present.
pub open spec fn mark_text(span: Span, ind: nat, wr: bool) -> Seq<char> {
    if wr && span.start_line != 0 {
        indent_text(ind) + "rr_mark("@ + decimal_v(span.start_line as nat) + ", "@ + decimal_v(
            span.start_col as nat,
        ) + ");"@ + nl()
    } else {
        Seq::empty()
    }
}

/// The line that opens a function definition.
pub open spec fn fn_head(name: Seq<char>, params: Seq<Seq<char>>, ind: nat) -> Seq<char> {
    indent_text(ind) + name + " <- function("@ + names_text(params) + ") {"@ + nl()
}

/// The line that opens a conditional.
pub open spec fn if_head(cond: ExprV, ind: nat, wr: bool) -> Seq<char> {
    indent_text(ind) + "if (rr_truthy1("@ + expr_text(cond, wr) + ")) {"@ + nl()
}

/// The line between the two branches of a conditional.
pub open spec fn else_head(ind: nat) -> Seq<char> {
    indent_text(ind) + "} else {"@ + nl()
}

/// The line that opens a `while` loop.
pub open spec fn while_head(cond: ExprV, ind: nat, wr: bool) -> Seq<char> {
    indent_text(ind) + "while (rr_truthy1("@ + expr_text(cond, wr) + ")) {"@ + nl()
}

/// The line that opens a `for` loop.
pub open spec fn for_head(var: Seq<char>, seq: ExprV, ind: nat, wr: bool) -> Seq<char> {
    indent_text(ind) + "for ("@ + var + " in "@ + expr_text(seq, wr) + ") {"@ + nl()
}

/// The line that closes a block.
pub open spec fn close_text(ind: nat) -> Seq<char> {
    indent_text(ind) + "}"@ + nl()
}

/// The text of a statement without its runtime marker.
pub open spec fn stmt_body_text(s: StmtV, ind: nat, wr: bool) -> Seq<char>
    decreases s, 0nat,
{
    match s.kind {
        StmtKindV::Assign { target, value } => indent_text(ind) + lvalue_text(target, wr)
            + " <- "@ + expr_text(value, wr) + ";"@ + nl(),
        StmtKindV::ExprStmt { expr } => indent_text(ind) + expr_text(expr, wr) + ";"@ + nl(),
        StmtKindV::FnDecl { name, params, body } => fn_head(name, params, ind) + stmts_text(
            body,
            ind + 1,
            wr,
        ) + indent_text(ind) + "};"@ + nl(),
        StmtKindV::If { cond, then_blk, else_blk } => if_head(cond, ind, wr) + stmts_text(
            then_blk,
            ind + 1,
            wr,
        ) + match else_blk {
            Some(eb) => else_head(ind) + stmts_text(eb, ind + 1, wr),
            None => Seq::empty(),
        } + close_text(ind),
        StmtKindV::While { cond, body } => while_head(cond, ind, wr) + stmts_text(
            body,
            ind + 1,
            wr,
        ) + close_text(ind),
        StmtKindV::For { var, seq, body } => for_head(var, seq, ind, wr) + stmts_text(
            body,
            ind + 1,
            wr,
        ) + close_text(ind),
        StmtKindV::Return { value } => indent_text(ind) + "return("@ + match value {
            Some(v) => expr_text(v, wr),
            None => "NULL"@,
        } + ");"@ + nl(),
    }
}

/// The text of a statement at indentation `ind`.
pub open spec fn stmt_text(s: StmtV, ind: nat, wr: bool) -> Seq<char>
    decreases s, 1nat,
{
    mark_text(s.span, ind, wr) + stmt_body_text(s, ind, wr)
}

/// The text of a statement list, one statement after the other.
pub open spec fn stmts_text(s: Seq<StmtV>, ind: nat, wr: bool) -> Seq<char>
    decreases s, 2nat,
{
    if s.len() == 0 {
        Seq::empty()
    } else {
        stmts_text(s.drop_last(), ind, wr) + stmt_text(s.last(), ind, wr)
    }
}

/// The source-map entry of a statement that starts on R line `line`: one
/// where it has a source location, none where it is synthetic.
pub open spec fn own_entry(span: Span, line: int) -> Seq<(int, Span)> {
    if span.start_line != 0 {
        seq![(line, span)]
    } else {
        Seq::empty()
    }
}

/// The source-map entries of the statements nested in `s`, whose text
/// (after its runtime marker) starts on R line `line`; each entry carries
/// the line on which its statement's text starts.
pub open spec fn nested_map(s: StmtV, ind: nat, wr: bool, line: int) -> Seq<(int, Span)>
    decreases s, 0nat,
{
    match s.kind {
        StmtKindV::FnDecl { name, params, body } => stmts_map(
            body,
            ind + 1,
            wr,
            line + count_nl(fn_head(name, params, ind)),
        ),
        StmtKindV::If { cond, then_blk, else_blk } => {
            let then_line = line + count_nl(if_head(cond, ind, wr));
            stmts_map(then_blk, ind + 1, wr, then_line) + match else_blk {
                Some(eb) => stmts_map(
                    eb,
                    ind + 1,
                    wr,
                    then_line + count_nl(stmts_text(then_blk, ind + 1, wr)) + count_nl(
                        else_head(ind),
                    ),
                ),
                None => Seq::empty(),
            }
        },
        StmtKindV::While { cond, body } => stmts_map(
            body,
            ind + 1,
            wr,
            line + count_nl(while_head(cond, ind, wr)),
        ),
        StmtKindV::For { var, seq, body } => stmts_map(
            body,
            ind + 1,
            wr,
            line + count_nl(for_head(var, seq, ind, wr)),
        ),
        _ => Seq::empty(),
    }
}

/// The source-map entries of a statement written from R line `line` on:
/// its own, then those of its nested statements.
pub open spec fn stmt_map(s: StmtV, ind: nat, wr: bool, line: int) -> Seq<(int, Span)>
    decreases s, 1nat,
{
    own_entry(s.span, line) + nested_map(s, ind, wr, line + count_nl(mark_text(s.span, ind, wr)))
}

/// The source-map entries of a statement list written from R line `line`.
pub open spec fn stmts_map(s: Seq<StmtV>, ind: nat, wr: bool, line: int) -> Seq<(int, Span)>
    decreases s, 2nat,
{
    if s.len() == 0 {
        Seq::empty()
    } else {
        stmts_map(s.drop_last(), ind, wr, line) + stmt_map(
            s.last(),
            ind,
            wr,
            line + count_nl(stmts_text(s.drop_last(), ind, wr)),
        )
    }
}

/// The text that precedes the program's statements: what was written
/// before, then the runtime prelude when it is requested.
pub open spec fn prelude_text(before: Seq<char>, with_runtime: bool, runtime: Seq<char>) -> Seq<
    char,
> {
    if with_runtime {
        before + runtime
    } else {
        before
    }
}

/// The whole text after a program is written: the prelude, then the
/// program's statements at the outermost level.
pub open spec fn program_text(before: Seq<char>, prog: Seq<StmtV>, with_runtime: bool, runtime: Seq<
    char,
>) -> Seq<char> {
    prelude_text(before, with_runtime, runtime) + stmts_text(prog, 0, with_runtime)
}

/// The source-map entries of a program written after the prelude.
pub open spec fn program_map(before: Seq<char>, prog: Seq<StmtV>, with_runtime: bool, runtime: Seq<
    char,
>) -> Seq<(int, Span)> {
    stmts_map(
        prog,
        0,
        with_runtime,
        1 + count_nl(prelude_text(before, with_runtime, runtime)) as int,
    )
}

// ---------------------------------------------------------------------------
// What the source map covers
// ---------------------------------------------------------------------------

/// The location of a statement, where it has one.
pub open spec fn own_span(span: Span) -> Seq<Span> {
    if span.start_line != 0 {
        seq![span]
    } else {
        Seq::empty()
    }
}

/// The locations of a statement and of the statements nested in it, in
/// the order in which they are written.
pub open spec fn stmt_spans(s: StmtV) -> Seq<Span>
    decreases s, 0nat,
{
    own_span(s.span) + match s.kind {
        StmtKindV::FnDecl { body, .. } => stmts_spans(body),
        StmtKindV::If { then_blk, else_blk, .. } => stmts_spans(then_blk) + match else_blk {
            Some(b) => stmts_spans(b),
            None => Seq::empty(),
        },
        StmtKindV::While { body, .. } => stmts_spans(body),
        StmtKindV::For { body, .. } => stmts_spans(body),
        _ => Seq::empty(),
    }
}

/// The locations of the statements of a list, in order.
pub open spec fn stmts_spans(s: Seq<StmtV>) -> Seq<Span>
    decreases s, 1nat,
{
    if s.len() == 0 {
        Seq::empty()
    } else {
        stmts_spans(s.drop_last()) + stmt_spans(s.last())
    }
}

/// The source locations that the entries point back to.
pub open spec fn entry_spans(m: Seq<(int, Span)>) -> Seq<Span> {
    m.map_values(|e: (int, Span)| e.1)
}

/// Every entry names an R line in `lo..hi`.
pub open spec fn lines_within(m: Seq<(int, Span)>, lo: int, hi: int) -> bool {
    forall|k: int| 0 <= k < m.len() ==> lo <= #[trigger] m[k].0 < hi
}

/// The entries come in the order of their R lines.
pub open spec fn lines_sorted(m: Seq<(int, Span)>) -> bool {
    forall|i: int, j: int| 0 <= i <= j < m.len() ==> #[trigger] m[i].0 <= #[trigger] m[j].0
}

proof fn lemma_entries_concat(a: Seq<(int, Span)>, b: Seq<(int, Span)>, lo: int, mid: int, hi: int)
    requires
        lines_sorted(a),
        lines_sorted(b),
        lines_within(a, lo, mid),
        lines_within(b, mid, hi),
        lo <= mid <= hi,
    ensures
        lines_sorted(a + b),
        lines_within(a + b, lo, hi),
        entry_spans(a + b) == entry_spans(a) + entry_spans(b),
{
    assert(entry_spans(a + b) =~= entry_spans(a) + entry_spans(b));
    assert forall|i: int, j: int| 0 <= i <= j < (a + b).len() implies #[trigger] (a + b)[i].0
        <= #[trigger] (a + b)[j].0 by {
        if j < a.len() {
            assert((a + b)[i] == a[i] && (a + b)[j] == a[j]);
        } else if i >= a.len() {
            assert((a + b)[i] == b[i - a.len()] && (a + b)[j] == b[j - a.len()]);
        } else {
            assert((a + b)[i] == a[i] && (a + b)[j] == b[j - a.len()]);
        }
    }
    assert forall|k: int| 0 <= k < (a + b).len() implies lo <= #[trigger] (a + b)[k].0 < hi by {
        if k < a.len() {
            assert((a + b)[k] == a[k]);
        } else {
            assert((a + b)[k] == b[k - a.len()]);
        }
    }
}

/// A line that a text ends: the closing line of a block adds one.
proof fn lemma_close_lines(ind: nat)
    ensures
        count_nl(close_text(ind)) >= 1,
        count_nl(indent_text(ind) + "};"@ + nl()) >= 1,
{
    broadcast use lemma_count_nl_concat;

    lemma_nl_count();
}

/// The source-map entries of a statement point back to it and to the
/// statements nested in it, in the order they are written, on
/// nondecreasing lines within the lines its text occupies.
pub proof fn lemma_stmt_map(s: StmtV, ind: nat, wr: bool, line: int)
    ensures
        entry_spans(stmt_map(s, ind, wr, line)) == stmt_spans(s),
        lines_sorted(stmt_map(s, ind, wr, line)),
        lines_within(stmt_map(s, ind, wr, line), line, line + count_nl(stmt_text(s, ind, wr))),
    decreases s, 0nat,
{
    broadcast use lemma_count_nl_concat;

    lemma_nl_count();
    lemma_close_lines(ind);
    let mark = mark_text(s.span, ind, wr);
    let hl = line + count_nl(mark);
    let own = own_entry(s.span, line);
    let total = line + count_nl(stmt_text(s, ind, wr));
    assert(entry_spans(own) =~= own_span(s.span));
    let nested = nested_map(s, ind, wr, hl);
    match s.kind {
        StmtKindV::FnDecl { name, params, body } => {
            let l1 = hl + count_nl(fn_head(name, params, ind));
            lemma_stmts_map(body, ind + 1, wr, l1);
            lemma_entries_concat(own, nested, line, line + 1, total);
        },
        StmtKindV::If { cond, then_blk, else_blk } => {
            let t1 = hl + count_nl(if_head(cond, ind, wr));
            let tm = stmts_map(then_blk, ind + 1, wr, t1);
            let t2 = t1 + count_nl(stmts_text(then_blk, ind + 1, wr));
            lemma_stmts_map(then_blk, ind + 1, wr, t1);
            match else_blk {
                Some(eb) => {
                    let e1 = t2 + count_nl(else_head(ind));
                    let em = stmts_map(eb, ind + 1, wr, e1);
                    lemma_stmts_map(eb, ind + 1, wr, e1);
                    lemma_entries_concat(tm, em, t1, t2, total);
                    assert(entry_spans(nested) == stmts_spans(then_blk) + stmts_spans(eb));
                },
                None => {
                    assert(tm + Seq::<(int, Span)>::empty() =~= tm);
                    assert(stmts_spans(then_blk) + Seq::<Span>::empty() =~= stmts_spans(then_blk));
                },
            }
            lemma_entries_concat(own, nested, line, line + 1, total);
        },
        StmtKindV::While { cond, body } => {
            lemma_stmts_map(body, ind + 1, wr, hl + count_nl(while_head(cond, ind, wr)));
            lemma_entries_concat(own, nested, line, line + 1, total);
        },
        StmtKindV::For { var, seq, body } => {
            lemma_stmts_map(body, ind + 1, wr, hl + count_nl(for_head(var, seq, ind, wr)));
            lemma_entries_concat(own, nested, line, line + 1, total);
        },
        _ => {
            assert(entry_spans(nested) =~= Seq::<Span>::empty());
            lemma_entries_concat(own, nested, line, line + 1, total);
        },
    }
}

/// The source-map entries of a statement list point back to its
/// statements and their nested statements in the order they are written,
/// on nondecreasing lines within the lines the list's text occupies.
pub proof fn lemma_stmts_map(s: Seq<StmtV>, ind: nat, wr: bool, line: int)
    ensures
        entry_spans(stmts_map(s, ind, wr, line)) == stmts_spans(s),
        lines_sorted(stmts_map(s, ind, wr, line)),
        lines_within(stmts_map(s, ind, wr, line), line, line + count_nl(stmts_text(s, ind, wr))),
    decreases s, 1nat,
{
    broadcast use lemma_count_nl_concat;

    if s.len() == 0 {
        assert(entry_spans(stmts_map(s, ind, wr, line)) =~= Seq::<Span>::empty());
    } else {
        let init = s.drop_last();
        let mid = line + count_nl(stmts_text(init, ind, wr));
        lemma_stmts_map(init, ind, wr, line);
        lemma_stmt_map(s.last(), ind, wr, mid);
        lemma_entries_concat(
            stmts_map(init, ind, wr, line),
            stmt_map(s.last(), ind, wr, mid),
            line,
            mid,
            line + count_nl(stmts_text(s, ind, wr)),
        );
    }
}

/// The source map of a program has one entry for each statement that has
/// a source location, nested statements included, in the order they are
/// written; the entries' R lines never decrease, and each lies among the
/// lines of the program's own text, after the prelude.
pub proof fn lemma_program_map(
    before: Seq<char>,
    prog: Seq<StmtV>,
    with_runtime: bool,
    runtime: Seq<char>,
)
    ensures
        entry_spans(program_map(before, prog, with_runtime, runtime)) == stmts_spans(prog),
        lines_sorted(program_map(before, prog, with_runtime, runtime)),
        lines_within(
            program_map(before, prog, with_runtime, runtime),
            1 + count_nl(prelude_text(before, with_runtime, runtime)) as int,
            1 + count_nl(program_text(before, prog, with_runtime, runtime)) as int,
        ),
{
    broadcast use lemma_count_nl_concat;

    lemma_stmts_map(
        prog,
        0,
        with_runtime,
        1 + count_nl(prelude_text(before, with_runtime, runtime)) as int,
    );
}

/// Number of newlines in a string, counted character by character.
pub fn count_newlines(s: &str) -> (n: usize)
    ensures
        n == count_nl(s@),
{
    let len = s.unicode_len();
    let mut n: usize = 0;
    let mut i: usize = 0;
    while i < len
        invariant
            len == s@.len(),
            i <= len,
            n == count_nl(s@.take(i as int)),
            n <= i,
        decreases len - i,
    {
        let c = s.get_char(i);
        assert(s@.take(i + 1).drop_last() =~= s@.take(i as int));
        if c == '\n' {
            n = n + 1;
        }
        i = i + 1;
    }
    assert(s@.take(len as int) =~= s@);
    n
}

/// One more statement of a list extends its text and its source map by
/// those of the statement, and the newlines of a prefix are at most those
/// of the whole list.
pub proof fn lemma_stmts_step(s: Seq<StmtV>, i: int, ind: nat, wr: bool, line: int)
    requires
        0 <= i < s.len(),
    ensures
        stmts_text(s.take(i + 1), ind, wr) == stmts_text(s.take(i), ind, wr) + stmt_text(
            s[i],
            ind,
            wr,
        ),
        stmts_map(s.take(i + 1), ind, wr, line) == stmts_map(s.take(i), ind, wr, line) + stmt_map(
            s[i],
            ind,
            wr,
            line + count_nl(stmts_text(s.take(i), ind, wr)),
        ),
        count_nl(stmts_text(s.take(i + 1), ind, wr)) <= count_nl(stmts_text(s, ind, wr)),
    decreases s.len(),
{
    broadcast use lemma_count_nl_concat;

    assert(s.take(i + 1).drop_last() =~= s.take(i));
    if i + 1 < s.len() {
        lemma_stmts_step(s.drop_last(), i, ind, wr, line);
        assert(s.drop_last().take(i + 1) =~= s.take(i + 1));
        assert(s.drop_last().take(i) =~= s.take(i));
    } else {
        assert(s.take(i + 1) =~= s);
    }
}

// ---------------------------------------------------------------------------
// The emitter
// ---------------------------------------------------------------------------

/// A source-map entry: the R line on which the code of a source statement
/// starts, and the statement's location in the RR source.
#[derive(Debug)]
pub struct MapEntry {
    pub r_line: u32,
    pub rr_span: Span,
}

/// Source-map entries as (R line, source location) pairs.
pub open spec fn entries_v(s: Seq<MapEntry>) -> Seq<(int, Span)> {
    s.map_values(|m: MapEntry| (m.r_line as int, m.rr_span))
}

/// The state of an emitter: the text written so far, the number of the
/// line being written, the source map collected so far, the indentation
/// level, and whether the runtime prelude is in use.
pub struct EmitterV {
    pub output: Seq<char>,
    pub line: int,
    pub map: Seq<(int, Span)>,
    pub indent: nat,
    pub with_runtime: bool,
}

/// Writes R source for a legacy IR program and collects its source map.
pub struct Emitter {
    output: String,
    current_line: u32,
    source_map: Vec<MapEntry>,
    indent: usize,
    with_runtime: bool,
}

impl View for Emitter {
    type V = EmitterV;

    closed spec fn view(&self) -> EmitterV {
        EmitterV {
            output: self.output@,
            line: self.current_line as int,
            map: entries_v(self.source_map@),
            indent: self.indent as nat,
            with_runtime: self.with_runtime,
        }
    }
}

impl Emitter {
    /// Between programs the line counter names the line after the text
    /// written so far, and no indentation is open.
    pub open spec fn wf(&self) -> bool {
        &&& self@.line == 1 + count_nl(self@.output)
        &&& self@.indent == 0
    }

    spec fn lines_ok(&self) -> bool {
        self.current_line == 1 + count_nl(self.output@)
    }

    /// Writing `t` keeps the line counter within `u32`.
    spec fn room(&self, t: Seq<char>) -> bool {
        1 + count_nl(self.output@) + count_nl(t) <= u32::MAX
    }

    /// `self` is `prev` with `t` written, nothing else changed.
    spec fn wrote(&self, prev: &Emitter, t: Seq<char>) -> bool {
        &&& self.output@ == prev.output@ + t
        &&& self.lines_ok()
        &&& self.source_map@ == prev.source_map@
        &&& self.indent == prev.indent
        &&& self.with_runtime == prev.with_runtime
    }

    /// An emitter with nothing written, on line 1, with the runtime prelude.
    pub fn new() -> (e: Emitter)
        ensures
            e@ == (EmitterV {
                output: Seq::empty(),
                line: 1,
                map: Seq::empty(),
                indent: 0,
                with_runtime: true,
            }),
            e.wf(),
    {
        let e = Emitter {
            output: String::new(),
            current_line: 1,
            source_map: Vec::new(),
            indent: 0,
            with_runtime: true,
        };
        proof {
            assert(entries_v(e.source_map@) =~= Seq::empty());
            assert(count_nl(e.output@) == 0);
        }
        e
    }

    fn write(&mut self, s: &str)
        requires
            old(self).lines_ok(),
            old(self).room(s@),
        ensures
            final(self).wrote(old(self), s@),
    {
        self.output.append(s);
        proof {
            lemma_count_nl_concat(old(self).output@, s@);
        }
        let n = count_newlines(s);
        self.current_line = self.current_line + n as u32;
    }

    fn newline(&mut self)
        requires
            old(self).lines_ok(),
            old(self).room(nl()),
        ensures
            final(self).wrote(old(self), nl()),
    {
        push_char(&mut self.output, '\n');
        proof {
            lemma_nl_count();
            assert(self.output@ =~= old(self).output@ + nl());
            lemma_count_nl_concat(old(self).output@, nl());
        }
        self.current_line = self.current_line + 1;
    }

    fn write_indent(&mut self)
        requires
            old(self).lines_ok(),
        ensures
            final(self).wrote(old(self), indent_text(old(self).indent as nat)),
    {
        let mut k: usize = 0;
        while k < self.indent
            invariant
                k <= self.indent,
                self.indent == old(self).indent,
                self.current_line == old(self).current_line,
                self.source_map@ == old(self).source_map@,
                self.with_runtime == old(self).with_runtime,
                self.output@ == old(self).output@ + indent_text(k as nat),
                old(self).lines_ok(),
            decreases self.indent - k,
        {
            push_char(&mut self.output, ' ');
            push_char(&mut self.output, ' ');
            proof {
                assert(indent_text((k + 1) as nat) == indent_text(k as nat) + seq![' ', ' ']);
                assert(self.output@ =~= old(self).output@ + indent_text((k + 1) as nat));
            }
            k = k + 1;
        }
        proof {
            lemma_indent_no_nl(self.indent as nat);
            lemma_count_nl_concat(old(self).output@, indent_text(self.indent as nat));
        }
    }

    fn record_span(&mut self, span: Span)
        ensures
            entries_v(final(self).source_map@) == entries_v(old(self).source_map@) + own_entry(
                span,
                old(self).current_line as int,
            ),
            final(self).output == old(self).output,
            final(self).current_line == old(self).current_line,
            final(self).indent == old(self).indent,
            final(self).with_runtime == old(self).with_runtime,
    {
        if span.start_line != 0 {
            self.source_map.push(MapEntry { r_line: self.current_line, rr_span: span });
        }
        proof {
            assert(entries_v(self.source_map@) =~= entries_v(old(self).source_map@) + own_entry(
                span,
                old(self).current_line as int,
            ));
        }
    }

    /// `self` is `prev` with `t` written and the entries `m` recorded.
    spec fn emitted(&self, prev: &Emitter, t: Seq<char>, m: Seq<(int, Span)>) -> bool {
        &&& self.output@ == prev.output@ + t
        &&& self.lines_ok()
        &&& entries_v(self.source_map@) == entries_v(prev.source_map@) + m
        &&& self.indent == prev.indent
        &&& self.with_runtime == prev.with_runtime
    }

    /// Writes `s` and ends the line.
    fn write_line(&mut self, s: &str)
        requires
            old(self).lines_ok(),
            old(self).room(s@ + nl()),
        ensures
            final(self).wrote(old(self), s@ + nl()),
    {
        proof {
            lemma_nl_count();
            lemma_count_nl_concat(s@, nl());
            lemma_count_nl_concat(old(self).output@, s@);
        }
        self.write(s);
        self.newline();
        assert(self.output@ =~= old(self).output@ + (s@ + nl()));
    }

    /// Writes the runtime marker of a statement at `span`, where one is due.
    fn emit_mark(&mut self, span: Span)
        requires
            old(self).lines_ok(),
            old(self).room(mark_text(span, old(self).indent as nat, old(self).with_runtime)),
        ensures
            final(self).wrote(
                old(self),
                mark_text(span, old(self).indent as nat, old(self).with_runtime),
            ),
    {
        if self.with_runtime && span.start_line != 0 {
            let mut m = String::new();
            push_indent(&mut m, self.indent);
            m.append("rr_mark(");
            push_decimal(&mut m, span.start_line as u64);
            m.append(", ");
            push_decimal(&mut m, span.start_col as u64);
            m.append(");");
            assert(m@ + nl() =~= mark_text(span, self.indent as nat, self.with_runtime));
            self.write_line(m.as_str());
        } else {
            assert(self.output@ =~= old(self).output@ + mark_text(
                span,
                self.indent as nat,
                self.with_runtime,
            ));
        }
    }

    /// Writes a nested block one level deeper.
    fn emit_block(&mut self, body: &Vec<IRStmt>)
        requires
            old(self).lines_ok(),
            old(self).room(
                stmts_text(view_stmts(body@), old(self).indent as nat + 1, old(self).with_runtime),
            ),
            old(self).indent + 1 + stmts_size(view_stmts(body@)) <= usize::MAX,
        ensures
            final(self).emitted(
                old(self),
                stmts_text(view_stmts(body@), old(self).indent as nat + 1, old(self).with_runtime),
                stmts_map(
                    view_stmts(body@),
                    old(self).indent as nat + 1,
                    old(self).with_runtime,
                    old(self).current_line as int,
                ),
            ),
        decreases stmts_size(view_stmts(body@)), 4nat,
    {
        self.indent = self.indent + 1;
        self.emit_stmts(body);
        self.indent = self.indent - 1;
    }

    /// Writes a statement list.
    #[verifier::rlimit(100)]
    #[verifier::spinoff_prover]
    fn emit_stmts(&mut self, v: &Vec<IRStmt>)
        requires
            old(self).lines_ok(),
            old(self).room(stmts_text(view_stmts(v@), old(self).indent as nat, old(self).with_runtime)),
            old(self).indent + stmts_size(view_stmts(v@)) <= usize::MAX,
        ensures
            final(self).emitted(
                old(self),
                stmts_text(view_stmts(v@), old(self).indent as nat, old(self).with_runtime),
                stmts_map(
                    view_stmts(v@),
                    old(self).indent as nat,
                    old(self).with_runtime,
                    old(self).current_line as int,
                ),
            ),
        decreases stmts_size(view_stmts(v@)), 3nat,
    {
        let ghost ind = self.indent as nat;
        let ghost wr = self.with_runtime;
        let ghost line0 = self.current_line as int;
        let ghost sv = view_stmts(v@);
        proof {
            lemma_view_stmts(v@);
        }
        let mut i: usize = 0;
        while i < v.len()
            invariant
                i <= v@.len(),
                ind == old(self).indent,
                wr == old(self).with_runtime,
                line0 == old(self).current_line,
                sv == view_stmts(v@),
                sv.len() == v@.len(),
                forall|j: int| 0 <= j < v@.len() ==> #[trigger] sv[j] == view_stmt(v@[j]),
                old(self).lines_ok(),
                old(self).room(stmts_text(sv, ind, wr)),
                old(self).indent + stmts_size(sv) <= usize::MAX,
                self.emitted(
                    old(self),
                    stmts_text(sv.take(i as int), ind, wr),
                    stmts_map(sv.take(i as int), ind, wr, line0),
                ),
            decreases v@.len() - i,
        {
            proof {
                lemma_stmts_step(sv, i as int, ind, wr, line0);
                lemma_stmts_size_elem(sv, i as int);
                lemma_count_nl_concat(old(self).output@, stmts_text(sv.take(i as int), ind, wr));
                lemma_count_nl_concat(stmts_text(sv.take(i as int), ind, wr), stmt_text(sv[i as int], ind, wr));
            }
            assert(sv[i as int] == v[i as int]@);
            self.emit_stmt(&v[i]);
            assert(self.output@ =~= old(self).output@ + stmts_text(sv.take(i + 1), ind, wr));
            assert(entries_v(self.source_map@) =~= entries_v(old(self).source_map@) + stmts_map(
                sv.take(i + 1),
                ind,
                wr,
                line0,
            ));
            i = i + 1;
        }
        assert(sv.take(i as int) =~= sv);
    }

    /// Writes one statement: its runtime marker where due, then its code.
    fn emit_stmt(&mut self, s: &IRStmt)
        requires
            old(self).lines_ok(),
            old(self).room(stmt_text(s@, old(self).indent as nat, old(self).with_runtime)),
            old(self).indent + stmt_size(s@) <= usize::MAX,
        ensures
            final(self).emitted(
                old(self),
                stmt_text(s@, old(self).indent as nat, old(self).with_runtime),
                stmt_map(
                    s@,
                    old(self).indent as nat,
                    old(self).with_runtime,
                    old(self).current_line as int,
                ),
            ),
        decreases stmt_size(s@), 2nat,
    {
        let ghost ind = self.indent as nat;
        let ghost wr = self.with_runtime;
        let ghost line0 = self.current_line as int;
        proof {
            lemma_count_nl_concat(mark_text(s.span, ind, wr), stmt_body_text(s@, ind, wr));
        }
        self.record_span(s.span);
        self.emit_mark(s.span);
        proof {
            lemma_count_nl_concat(old(self).output@, mark_text(s.span, ind, wr));
        }
        self.emit_body(s);
        assert(self.output@ =~= old(self).output@ + stmt_text(s@, ind, wr));
        assert(entries_v(self.source_map@) =~= entries_v(old(self).source_map@) + stmt_map(
            s@,
            ind,
            wr,
            line0,
        ));
    }

    /// Writes the code of a statement, after its runtime marker.
    fn emit_body(&mut self, s: &IRStmt)
        requires
            old(self).lines_ok(),
            old(self).room(stmt_body_text(s@, old(self).indent as nat, old(self).with_runtime)),
            old(self).indent + stmt_size(s@) <= usize::MAX,
        ensures
            final(self).emitted(
                old(self),
                stmt_body_text(s@, old(self).indent as nat, old(self).with_runtime),
                nested_map(
                    s@,
                    old(self).indent as nat,
                    old(self).with_runtime,
                    old(self).current_line as int,
                ),
            ),
        decreases stmt_size(s@), 1nat,
    {
        assert(s@.kind == view_stmt_kind(s.kind));
        match &s.kind {
            IRStmtKind::FnDecl { .. } => self.emit_fn_decl(s),
            IRStmtKind::If { .. } => self.emit_if(s),
            IRStmtKind::While { .. } => self.emit_while(s),
            IRStmtKind::For { .. } => self.emit_for(s),
            _ => self.emit_simple(s),
        }
    }

    /// Writes an assignment, an expression statement or a `return`.
    fn emit_simple(&mut self, s: &IRStmt)
        requires
            s.kind is Assign || s.kind is ExprStmt || s.kind is Return,
            old(self).lines_ok(),
            old(self).room(stmt_body_text(s@, old(self).indent as nat, old(self).with_runtime)),
        ensures
            final(self).emitted(
                old(self),
                stmt_body_text(s@, old(self).indent as nat, old(self).with_runtime),
                nested_map(
                    s@,
                    old(self).indent as nat,
                    old(self).with_runtime,
                    old(self).current_line as int,
                ),
            ),
    {
        let ghost t = stmt_body_text(s@, self.indent as nat, self.with_runtime);
        assert(s@.kind == view_stmt_kind(s.kind));
        let mut b = String::new();
        push_indent(&mut b, self.indent);
        match &s.kind {
            IRStmtKind::Assign { target, value } => {
                push_lvalue(&mut b, target, self.with_runtime);
                b.append(" <- ");
                push_expr(&mut b, value, self.with_runtime);
                b.append(";");
                assert(b@ + nl() =~= t);
            },
            IRStmtKind::ExprStmt { expr } => {
                push_expr(&mut b, expr, self.with_runtime);
                b.append(";");
                assert(b@ + nl() =~= t);
            },
            IRStmtKind::Return { value } => {
                b.append("return(");
                match value {
                    Some(v) => push_expr(&mut b, v, self.with_runtime),
                    None => b.append("NULL"),
                }
                b.append(");");
                assert(b@ + nl() =~= t);
            },
            _ => {
                assert(false);
            },
        }
        self.write_line(b.as_str());
        assert(entries_v(self.source_map@) =~= entries_v(old(self).source_map@) + nested_map(
            s@,
            self.indent as nat,
            self.with_runtime,
            old(self).current_line as int,
        ));
    }

    /// Writes a function definition.
    fn emit_fn_decl(&mut self, s: &IRStmt)
        requires
            s.kind is FnDecl,
            old(self).lines_ok(),
            old(self).room(stmt_body_text(s@, old(self).indent as nat, old(self).with_runtime)),
            old(self).indent + stmt_size(s@) <= usize::MAX,
        ensures
            final(self).emitted(
                old(self),
                stmt_body_text(s@, old(self).indent as nat, old(self).with_runtime),
                nested_map(
                    s@,
                    old(self).indent as nat,
                    old(self).with_runtime,
                    old(self).current_line as int,
                ),
            ),
        decreases stmt_size(s@), 0nat,
    {
        let ghost ind = self.indent as nat;
        let ghost wr = self.with_runtime;
        assert(s@.kind == view_stmt_kind(s.kind));
        match &s.kind {
            IRStmtKind::FnDecl { name, params, body } => {
                let ghost head = fn_head(name@, view_strings(params@), ind);
                let ghost inner = stmts_text(view_stmts(body@), ind + 1, wr);
                let ghost tail = indent_text(ind) + "};"@ + nl();
                assert(stmt_body_text(s@, ind, wr) == head + inner + tail);
                let mut h = String::new();
                push_indent(&mut h, self.indent);
                h.append(name.as_str());
                h.append(" <- function(");
                push_names(&mut h, params);
                h.append(") {");
                assert(h@ + nl() =~= head);
                proof {
                    lemma_count_nl_concat(head, inner);
                    lemma_count_nl_concat(head + inner, tail);
                }
                self.write_line(h.as_str());
                proof {
                    lemma_count_nl_concat(old(self).output@, head);
                }
                self.emit_block(body);
                let mut c = String::new();
                push_indent(&mut c, self.indent);
                c.append("};");
                assert(c@ + nl() =~= tail);
                proof {
                    lemma_count_nl_concat(old(self).output@ + head, inner);
                    assert(old(self).output@ + head + inner =~= self.output@);
                }
                self.write_line(c.as_str());
                assert(self.output@ =~= old(self).output@ + (head + inner + tail));
                assert(entries_v(self.source_map@) =~= entries_v(old(self).source_map@)
                    + nested_map(s@, ind, wr, old(self).current_line as int));
            },
            _ => {
                assert(false);
            },
        }
    }

    /// Writes a conditional.
    fn emit_if(&mut self, s: &IRStmt)
        requires
            s.kind is If,
            old(self).lines_ok(),
            old(self).room(stmt_body_text(s@, old(self).indent as nat, old(self).with_runtime)),
            old(self).indent + stmt_size(s@) <= usize::MAX,
        ensures
            final(self).emitted(
                old(self),
                stmt_body_text(s@, old(self).indent as nat, old(self).with_runtime),
                nested_map(
                    s@,
                    old(self).indent as nat,
                    old(self).with_runtime,
                    old(self).current_line as int,
                ),
            ),
        decreases stmt_size(s@), 0nat,
    {
        let ghost ind = self.indent as nat;
        let ghost wr = self.with_runtime;
        assert(s@.kind == view_stmt_kind(s.kind));
        match &s.kind {
            IRStmtKind::If { cond, then_blk, else_blk } => {
                let ghost head = if_head(cond@, ind, wr);
                let ghost then_t = stmts_text(view_stmts(then_blk@), ind + 1, wr);
                let ghost else_t = match else_blk {
                    Some(eb) => else_head(ind) + stmts_text(view_stmts(eb@), ind + 1, wr),
                    None => Seq::<char>::empty(),
                };
                let ghost tail = close_text(ind);
                assert(stmt_body_text(s@, ind, wr) == head + then_t + else_t + tail);
                proof {
                    lemma_count_nl_concat(head, then_t);
                    lemma_count_nl_concat(head + then_t, else_t);
                    lemma_count_nl_concat(head + then_t + else_t, tail);
                }
                let mut h = String::new();
                push_indent(&mut h, self.indent);
                h.append("if (rr_truthy1(");
                push_expr(&mut h, cond, self.with_runtime);
                h.append(")) {");
                assert(h@ + nl() =~= head);
                self.write_line(h.as_str());
                proof {
                    lemma_count_nl_concat(old(self).output@, head);
                }
                self.emit_block(then_blk);
                proof {
                    lemma_count_nl_concat(old(self).output@ + head, then_t);
                    assert(old(self).output@ + head + then_t =~= self.output@);
                }
                let ghost mid = self.output@;
                let ghost mid_map = entries_v(self.source_map@);
                match else_blk {
                    Some(eb) => {
                        let mut e = String::new();
                        push_indent(&mut e, self.indent);
                        e.append("} else {");
                        assert(e@ + nl() =~= else_head(ind));
                        proof {
                            lemma_count_nl_concat(else_head(ind), stmts_text(view_stmts(eb@), ind + 1, wr));
                        }
                        self.write_line(e.as_str());
                        proof {
                            lemma_count_nl_concat(mid, else_head(ind));
                        }
                        self.emit_block(eb);
                        assert(self.output@ =~= mid + else_t);
                    },
                    None => {
                        assert(self.output@ =~= mid + else_t);
                    },
                }
                proof {
                    lemma_count_nl_concat(mid, else_t);
                }
                let mut c = String::new();
                push_indent(&mut c, self.indent);
                c.append("}");
                assert(c@ + nl() =~= tail);
                self.write_line(c.as_str());
                assert(self.output@ =~= old(self).output@ + (head + then_t + else_t + tail));
                assert(entries_v(self.source_map@) =~= entries_v(old(self).source_map@)
                    + nested_map(s@, ind, wr, old(self).current_line as int));
            },
            _ => {
                assert(false);
            },
        }
    }

    /// Writes a `while` loop.
    fn emit_while(&mut self, s: &IRStmt)
        requires
            s.kind is While,
            old(self).lines_ok(),
            old(self).room(stmt_body_text(s@, old(self).indent as nat, old(self).with_runtime)),
            old(self).indent + stmt_size(s@) <= usize::MAX,
        ensures
            final(self).emitted(
                old(self),
                stmt_body_text(s@, old(self).indent as nat, old(self).with_runtime),
                nested_map(
                    s@,
                    old(self).indent as nat,
                    old(self).with_runtime,
                    old(self).current_line as int,
                ),
            ),
        decreases stmt_size(s@), 0nat,
    {
        let ghost ind = self.indent as nat;
        let ghost wr = self.with_runtime;
        assert(s@.kind == view_stmt_kind(s.kind));
        match &s.kind {
            IRStmtKind::While { cond, body } => {
                let ghost head = while_head(cond@, ind, wr);
                let ghost inner = stmts_text(view_stmts(body@), ind + 1, wr);
                let ghost tail = close_text(ind);
                assert(stmt_body_text(s@, ind, wr) == head + inner + tail);
                proof {
                    lemma_count_nl_concat(head, inner);
                    lemma_count_nl_concat(head + inner, tail);
                }
                let mut h = String::new();
                push_indent(&mut h, self.indent);
                h.append("while (rr_truthy1(");
                push_expr(&mut h, cond, self.with_runtime);
                h.append(")) {");
                assert(h@ + nl() =~= head);
                self.write_line(h.as_str());
                proof {
                    lemma_count_nl_concat(old(self).output@, head);
                }
                self.emit_block(body);
                proof {
                    lemma_count_nl_concat(old(self).output@ + head, inner);
                    assert(old(self).output@ + head + inner =~= self.output@);
                }
                let mut c = String::new();
                push_indent(&mut c, self.indent);
                c.append("}");
                assert(c@ + nl() =~= tail);
                self.write_line(c.as_str());
                assert(self.output@ =~= old(self).output@ + (head + inner + tail));
                assert(entries_v(self.source_map@) =~= entries_v(old(self).source_map@)
                    + nested_map(s@, ind, wr, old(self).current_line as int));
            },
            _ => {
                assert(false);
            },
        }
    }

    /// Writes a `for` loop.
    fn emit_for(&mut self, s: &IRStmt)
        requires
            s.kind is For,
            old(self).lines_ok(),
            old(self).room(stmt_body_text(s@, old(self).indent as nat, old(self).with_runtime)),
            old(self).indent + stmt_size(s@) <= usize::MAX,
        ensures
            final(self).emitted(
                old(self),
                stmt_body_text(s@, old(self).indent as nat, old(self).with_runtime),
                nested_map(
                    s@,
                    old(self).indent as nat,
                    old(self).with_runtime,
                    old(self).current_line as int,
                ),
            ),
        decreases stmt_size(s@), 0nat,
    {
        let ghost ind = self.indent as nat;
        let ghost wr = self.with_runtime;
        assert(s@.kind == view_stmt_kind(s.kind));
        match &s.kind {
            IRStmtKind::For { var, seq, body } => {
                let ghost head = for_head(var@, seq@, ind, wr);
                let ghost inner = stmts_text(view_stmts(body@), ind + 1, wr);
                let ghost tail = close_text(ind);
                assert(stmt_body_text(s@, ind, wr) == head + inner + tail);
                proof {
                    lemma_count_nl_concat(head, inner);
                    lemma_count_nl_concat(head + inner, tail);
                }
                let mut h = String::new();
                push_indent(&mut h, self.indent);
                h.append("for (");
                h.append(var.as_str());
                h.append(" in ");
                push_expr(&mut h, seq, self.with_runtime);
                h.append(") {");
                assert(h@ + nl() =~= head);
                self.write_line(h.as_str());
                proof {
                    lemma_count_nl_concat(old(self).output@, head);
                }
                self.emit_block(body);
                proof {
                    lemma_count_nl_concat(old(self).output@ + head, inner);
                    assert(old(self).output@ + head + inner =~= self.output@);
                }
                let mut c = String::new();
                push_indent(&mut c, self.indent);
                c.append("}");
                assert(c@ + nl() =~= tail);
                self.write_line(c.as_str());
                assert(self.output@ =~= old(self).output@ + (head + inner + tail));
                assert(entries_v(self.source_map@) =~= entries_v(old(self).source_map@)
                    + nested_map(s@, ind, wr, old(self).current_line as int));
            },
            _ => {
                assert(false);
            },
        }
    }

    /// Writes `prog` after the text written so far, preceded by the runtime
    /// prelude `runtime` when `with_runtime` is set, and gives back the whole
    /// text together with the source map, which the emitter hands over and
    /// empties. With the runtime present, each statement that has a source
    /// location is preceded by an `rr_mark(line, col);` line, and vector
    /// arithmetic is wrapped in a length check.
    pub fn emit_program(&mut self, prog: IRProgram, with_runtime: bool, runtime: &str) -> (r: RR<
        (String, Vec<MapEntry>),
    >)
        requires
            old(self).wf(),
            1 + count_nl(program_text(old(self)@.output, prog@, with_runtime, runtime@))
                <= u32::MAX,
            stmts_size(prog@) <= usize::MAX,
        ensures
            r matches Ok((out, map)) && out@ == program_text(
                old(self)@.output,
                prog@,
                with_runtime,
                runtime@,
            ) && entries_v(map@) == old(self)@.map + program_map(
                old(self)@.output,
                prog@,
                with_runtime,
                runtime@,
            ),
            final(self)@ == (EmitterV {
                output: program_text(old(self)@.output, prog@, with_runtime, runtime@),
                line: 1 + count_nl(program_text(old(self)@.output, prog@, with_runtime, runtime@)) as int,
                map: Seq::empty(),
                indent: 0,
                with_runtime,
            }),
            final(self).wf(),
    {
        let ghost pre = prelude_text(self.output@, with_runtime, runtime@);
        proof {
            lemma_count_nl_concat(pre, stmts_text(prog@, 0, with_runtime));
            lemma_count_nl_concat(self.output@, runtime@);
        }
        self.with_runtime = with_runtime;
        if with_runtime {
            self.write(runtime);
        }
        assert(self.output@ == pre);
        self.emit_stmts(&prog.stmts);
        let out = self.output.clone();
        let mut map: Vec<MapEntry> = Vec::new();
        std::mem::swap(&mut map, &mut self.source_map);
        proof {
            assert(entries_v(self.source_map@) =~= Seq::empty());
        }
        Ok((out, map))
    }
}

} // verus!
