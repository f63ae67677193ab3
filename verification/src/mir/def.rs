use vstd::prelude::*;

use crate::mir::flow::Facts;
use crate::syntax::ast::{BinOp, Lit, UnaryOp};
use crate::utils::Span;

verus! {

/// Index of a value in `FnIR::values`.
pub type ValueId = usize;

/// Index of a block in `FnIR::blocks`.
pub type BlockId = usize;

#[allow(inconsistent_fields)]
#[derive(Debug)]
pub enum ValueKind {
    Const(Lit),
    Phi { args: Vec<(ValueId, BlockId)> },
    Param { index: usize },
    Load { var: String },
    Len { base: ValueId },
    Indices { base: ValueId },
    Range { start: ValueId, end: ValueId },
    Binary { op: BinOp, lhs: ValueId, rhs: ValueId },
    Unary { op: UnaryOp, rhs: ValueId },
    Call { callee: String, args: Vec<ValueId>, names: Vec<Option<String>> },
    Index1D { base: ValueId, idx: ValueId, is_safe: bool, is_na_safe: bool },
    Index2D { base: ValueId, r: ValueId, c: ValueId },
}

#[derive(Debug)]
pub struct Value {
    pub id: ValueId,
    pub kind: ValueKind,
    pub span: Span,
    pub facts: Facts,
    pub origin_var: Option<String>,
    pub phi_block: Option<BlockId>,
}

#[derive(Debug)]
pub enum Instr {
    Assign { dst: String, src: ValueId, span: Span },
    Eval { val: ValueId, span: Span },
    StoreIndex1D {
        base: ValueId,
        idx: ValueId,
        val: ValueId,
        is_safe: bool,
        is_na_safe: bool,
        is_vector: bool,
        span: Span,
    },
    StoreIndex2D { base: ValueId, r: ValueId, c: ValueId, val: ValueId, span: Span },
}

#[derive(Debug)]
pub enum Terminator {
    Goto(BlockId),
    If { cond: ValueId, then_bb: BlockId, else_bb: BlockId },
    Return(Option<ValueId>),
    Unreachable,
}

#[derive(Debug)]
pub struct Block {
    pub id: BlockId,
    pub instrs: Vec<Instr>,
    pub term: Terminator,
}

/// A function in MIR form: a control-flow graph of blocks over a table of
/// SSA values.
#[derive(Debug)]
pub struct FnIR {
    pub name: String,
    pub params: Vec<String>,
    pub blocks: Vec<Block>,
    pub values: Vec<Value>,
    pub entry: BlockId,
    pub body_head: BlockId,
    pub unsupported_dynamic: bool,
    pub fallback_reasons: Vec<String>,
}

/// The values that a value of this kind reads, in the order in which they
/// are listed.
pub open spec fn value_operands(kind: ValueKind) -> Seq<ValueId> {
    match kind {
        ValueKind::Phi { args } => args@.map_values(|a: (ValueId, BlockId)| a.0),
        ValueKind::Len { base } => seq![base],
        ValueKind::Indices { base } => seq![base],
        ValueKind::Range { start, end } => seq![start, end],
        ValueKind::Binary { lhs, rhs, .. } => seq![lhs, rhs],
        ValueKind::Unary { rhs, .. } => seq![rhs],
        ValueKind::Call { args, .. } => args@,
        ValueKind::Index1D { base, idx, .. } => seq![base, idx],
        ValueKind::Index2D { base, r, c } => seq![base, r, c],
        _ => Seq::empty(),
    }
}

/// The values that an instruction reads.
pub open spec fn instr_operands(instr: Instr) -> Seq<ValueId> {
    match instr {
        Instr::Assign { src, .. } => seq![src],
        Instr::Eval { val, .. } => seq![val],
        Instr::StoreIndex1D { base, idx, val, .. } => seq![base, idx, val],
        Instr::StoreIndex2D { base, r, c, val, .. } => seq![base, r, c, val],
    }
}

/// The values that a terminator reads.
pub open spec fn term_operands(term: Terminator) -> Seq<ValueId> {
    match term {
        Terminator::If { cond, .. } => seq![cond],
        Terminator::Return(Some(v)) => seq![v],
        _ => Seq::empty(),
    }
}

pub open spec fn ids_below(ids: Seq<usize>, n: nat) -> bool {
    forall|j: int| 0 <= j < ids.len() ==> #[trigger] ids[j] < n
}

impl FnIR {
    /// Every value id that a value, an instruction or a terminator reads
    /// names an existing value.
    pub open spec fn value_ids_valid(&self) -> bool {
        &&& forall|i: int|
            0 <= i < self.values@.len() ==> ids_below(
                value_operands(#[trigger] self.values@[i].kind),
                self.values@.len(),
            )
        &&& forall|b: int, k: int|
            0 <= b < self.blocks@.len() && 0 <= k < self.blocks@[b].instrs@.len() ==> ids_below(
                instr_operands(#[trigger] self.blocks@[b].instrs@[k]),
                self.values@.len(),
            )
        &&& forall|b: int|
            0 <= b < self.blocks@.len() ==> ids_below(
                term_operands(#[trigger] self.blocks@[b].term),
                self.values@.len(),
            )
    }

    pub fn new(name: String, params: Vec<String>) -> (f: FnIR)
        ensures
            f.name == name,
            f.params == params,
            f.blocks@.len() == 0,
            f.values@.len() == 0,
            f.entry == 0,
            f.body_head == 0,
            !f.unsupported_dynamic,
            f.fallback_reasons@.len() == 0,
    {
        FnIR {
            name,
            params,
            blocks: Vec::new(),
            values: Vec::new(),
            entry: 0,
            body_head: 0,
            unsupported_dynamic: false,
            fallback_reasons: Vec::new(),
        }
    }

    /// Appends an empty block ending in `Unreachable` and returns its id.
    pub fn add_block(&mut self) -> (id: BlockId)
        requires
            old(self).blocks@.len() < usize::MAX,
        ensures
            id == old(self).blocks@.len(),
            final(self).blocks@.len() == old(self).blocks@.len() + 1,
            forall|b: int| 0 <= b < id ==> final(self).blocks@[b] == old(self).blocks@[b],
            final(self).blocks@[id as int].id == id,
            final(self).blocks@[id as int].instrs@.len() == 0,
            final(self).blocks@[id as int].term is Unreachable,
            final(self).values == old(self).values,
            final(self).name == old(self).name,
            final(self).params == old(self).params,
            final(self).entry == old(self).entry,
            final(self).body_head == old(self).body_head,
            final(self).unsupported_dynamic == old(self).unsupported_dynamic,
            final(self).fallback_reasons == old(self).fallback_reasons,
    {
        let id = self.blocks.len();
        self.blocks.push(Block { id, instrs: Vec::new(), term: Terminator::Unreachable });
        id
    }

    /// Appends a value of the given kind and returns its id.
    pub fn add_value(
        &mut self,
        kind: ValueKind,
        span: Span,
        facts: Facts,
        origin_var: Option<String>,
    ) -> (id: ValueId)
        requires
            old(self).values@.len() < usize::MAX,
        ensures
            id == old(self).values@.len(),
            final(self).values@ == old(self).values@.push(
                Value { id, kind, span, facts, origin_var, phi_block: None },
            ),
            final(self).blocks == old(self).blocks,
            final(self).name == old(self).name,
            final(self).params == old(self).params,
            final(self).entry == old(self).entry,
            final(self).body_head == old(self).body_head,
            final(self).unsupported_dynamic == old(self).unsupported_dynamic,
            final(self).fallback_reasons == old(self).fallback_reasons,
    {
        let id = self.values.len();
        self.values.push(Value { id, kind, span, facts, origin_var, phi_block: None });
        id
    }
}

} // verus!
