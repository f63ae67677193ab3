//! Side-effect analysis over MIR: which values, instructions, blocks and
//! loops can be removed or reordered without changing behavior.
use vstd::prelude::*;

use std::collections::HashSet;

use crate::mir::def::{
    ids_below, instr_operands, term_operands, value_operands, Block, BlockId, FnIR, Instr, Terminator,
    Value, ValueId, ValueKind,
};
use crate::text::str_eq;

verus! {

broadcast use vstd::std_specs::hash::group_hash_axioms;

/// Callee names of builtins that have no side effects.
pub open spec fn pure_builtin(name: Seq<char>) -> bool {
    ||| name == "length"@
    ||| name == "seq_len"@
    ||| name == "seq_along"@
    ||| name == "abs"@
    ||| name == "sqrt"@
    ||| name == "sin"@
    ||| name == "cos"@
    ||| name == "tan"@
    ||| name == "log"@
    ||| name == "exp"@
    ||| name == "c"@
    ||| name == "sum"@
    ||| name == "mean"@
    ||| name == "var"@
    ||| name == "sd"@
    ||| name == "min"@
    ||| name == "max"@
    ||| name == "prod"@
    ||| name == "colSums"@
    ||| name == "rowSums"@
    ||| name == "%*%"@
    ||| name == "crossprod"@
    ||| name == "tcrossprod"@
    ||| name == "is.na"@
    ||| name == "is.finite"@
    ||| name == "rr_field_get"@
    ||| name == "rr_field_exists"@
    ||| name == "rr_list_rest"@
    ||| name == "rr_named_list"@
    ||| name == "rr_row_sum_range"@
    ||| name == "rr_col_sum_range"@
}

/// The side-effect-free builtins are exactly these 31 names: measuring,
/// sequence building, elementwise math, combining and folding vectors,
/// matrix products, `NA` tests and the runtime's record and range readers.
/// Every other callee, output functions such as `cat` or `print` among
/// them, may have effects.
pub proof fn lemma_pure_builtins(name: Seq<char>)
    ensures
        pure_builtin(name) <==> {
            ||| name == "length"@
            ||| name == "seq_len"@
            ||| name == "seq_along"@
            ||| name == "abs"@
            ||| name == "sqrt"@
            ||| name == "sin"@
            ||| name == "cos"@
            ||| name == "tan"@
            ||| name == "log"@
            ||| name == "exp"@
            ||| name == "c"@
            ||| name == "sum"@
            ||| name == "mean"@
            ||| name == "var"@
            ||| name == "sd"@
            ||| name == "min"@
            ||| name == "max"@
            ||| name == "prod"@
            ||| name == "colSums"@
            ||| name == "rowSums"@
            ||| name == "%*%"@
            ||| name == "crossprod"@
            ||| name == "tcrossprod"@
            ||| name == "is.na"@
            ||| name == "is.finite"@
            ||| name == "rr_field_get"@
            ||| name == "rr_field_exists"@
            ||| name == "rr_list_rest"@
            ||| name == "rr_named_list"@
            ||| name == "rr_row_sum_range"@
            ||| name == "rr_col_sum_range"@
        },
{
}

/// A call is pure only when its callee is one of the side-effect-free
/// builtins of `lemma_pure_builtins`, and its arguments are pure.
pub proof fn lemma_pure_call(values: Seq<Value>, vid: ValueId)
    requires
        vid < values.len(),
        values[vid as int].kind is Call,
        value_pure(values, vid),
    ensures
        pure_builtin(values[vid as int].kind->Call_callee@),
{
}

/// Whether a value of this kind can be pure, given pure operands.
pub open spec fn kind_may_be_pure(kind: ValueKind) -> bool {
    match kind {
        ValueKind::Const(_) => true,
        ValueKind::Binary { .. } => true,
        ValueKind::Unary { .. } => true,
        ValueKind::Phi { .. } => true,
        ValueKind::Call { callee, .. } => pure_builtin(callee@),
        ValueKind::Len { .. } => true,
        ValueKind::Indices { .. } => true,
        ValueKind::Range { .. } => true,
        ValueKind::Index1D { .. } => true,
        ValueKind::Index2D { .. } => true,
        _ => false,
    }
}

/// The number of value ids not yet on a dependency path.
pub open spec fn unvisited(path: Set<ValueId>) -> nat {
    Set::<ValueId>::full().difference(path).len()
}

pub proof fn lemma_unvisited_decreases(path: Set<ValueId>, vid: ValueId)
    requires
        !path.contains(vid),
    ensures
        unvisited(path.insert(vid)) < unvisited(path),
{
    <usize as vstd::set_lib::FiniteFull>::full_properties();
    assert(Set::<ValueId>::full().contains(vid));
    Set::<ValueId>::full().lemma_set_insert_diff_decreases(path, vid);
}

/// Value `vid` is pure when reached along the dependency path `path`: it
/// exists, is not already on the path (a cycle is never provably pure), its
/// kind can be pure, and each of its operands is pure along the path
/// extended with `vid`.
pub open spec fn pure_from(values: Seq<Value>, vid: ValueId, path: Set<ValueId>) -> bool
    decreases unvisited(path), 0nat,
{
    if path.contains(vid) || vid >= values.len() {
        false
    } else {
        proof {
            lemma_unvisited_decreases(path, vid);
        }
        kind_may_be_pure(values[vid as int].kind) && operands_pure(
            values,
            value_operands(values[vid as int].kind),
            path.insert(vid),
        )
    }
}

/// Every value of `ops` is pure along `path`.
pub open spec fn operands_pure(values: Seq<Value>, ops: Seq<ValueId>, path: Set<ValueId>) -> bool
    decreases unvisited(path), ops.len() + 1,
{
    if ops.len() == 0 {
        true
    } else {
        pure_from(values, ops[0], path) && operands_pure(values, ops.drop_first(), path)
    }
}

/// A value is pure when it is pure along the empty path.
pub open spec fn value_pure(values: Seq<Value>, vid: ValueId) -> bool {
    pure_from(values, vid, Set::empty())
}

/// An operand of a list that is pure along a path is itself pure along it.
pub proof fn lemma_operands_pure_elem(
    values: Seq<Value>,
    ops: Seq<ValueId>,
    path: Set<ValueId>,
    w: ValueId,
)
    requires
        operands_pure(values, ops, path),
        ops.contains(w),
    ensures
        pure_from(values, w, path),
    decreases ops.len(),
{
    if ops[0] != w {
        let k = choose|k: int| 0 <= k < ops.len() && ops[k] == w;
        assert(ops.drop_first()[k - 1] == w);
        lemma_operands_pure_elem(values, ops.drop_first(), path, w);
    }
}

/// The ids among the first `k` of `c`.
pub open spec fn prefix_ids(c: Seq<ValueId>, k: int) -> Set<ValueId> {
    Set::new(|x: ValueId| exists|i: int| 0 <= i < k && c[i] == x)
}

/// `c` is a dependency chain: each id names a value that reads the next.
pub open spec fn dependency_chain(values: Seq<Value>, c: Seq<ValueId>) -> bool {
    forall|k: int|
        0 <= k < c.len() - 1 ==> #[trigger] value_operands(values[c[k] as int].kind).contains(
            c[k + 1],
        )
}

proof fn lemma_chain_pure(values: Seq<Value>, c: Seq<ValueId>, k: int)
    requires
        dependency_chain(values, c),
        c.len() >= 1,
        0 <= k < c.len(),
        value_pure(values, c[0]),
    ensures
        pure_from(values, c[k], prefix_ids(c, k)),
    decreases k,
{
    if k == 0 {
        assert(prefix_ids(c, 0) =~= Set::<ValueId>::empty());
    } else {
        lemma_chain_pure(values, c, k - 1);
        let prev = c[k - 1];
        let path = prefix_ids(c, k - 1);
        let kk = k - 1;
        assert(value_operands(values[c[kk] as int].kind).contains(c[kk + 1]));
        assert(kk + 1 == k);
        lemma_operands_pure_elem(
            values,
            value_operands(values[prev as int].kind),
            path.insert(prev),
            c[k],
        );
        assert forall|x: ValueId| #[trigger] prefix_ids(c, k).contains(x) <==> path.insert(
            prev,
        ).contains(x) by {
            if prefix_ids(c, k).contains(x) {
                let i = choose|i: int| 0 <= i < k && c[i] == x;
                if i < k - 1 {
                    assert(path.contains(x));
                }
            }
            if path.contains(x) {
                let i = choose|i: int| 0 <= i < k - 1 && c[i] == x;
                assert(0 <= i < k && c[i] == x);
            }
            if x == prev {
                assert(0 <= k - 1 < k && c[k - 1] == x);
            }
        }
        assert(prefix_ids(c, k) =~= path.insert(prev));
    }
}

/// A value on a dependency cycle is never provably pure: if following
/// operands from `c[0]` leads back to `c[0]`, the value is impure.
pub proof fn lemma_cycle_impure(values: Seq<Value>, c: Seq<ValueId>)
    requires
        c.len() >= 2,
        c[0] == c.last(),
        dependency_chain(values, c),
    ensures
        !value_pure(values, c[0]),
{
    if value_pure(values, c[0]) {
        let k = c.len() - 1;
        lemma_chain_pure(values, c, k);
        assert(prefix_ids(c, k).contains(c[0]));
    }
}

/// An instruction is pure when it only evaluates a pure value.
pub open spec fn instr_pure(values: Seq<Value>, instr: Instr) -> bool {
    match instr {
        Instr::Assign { src, .. } => value_pure(values, src),
        Instr::Eval { val, .. } => value_pure(values, val),
        Instr::StoreIndex1D { .. } => false,
        Instr::StoreIndex2D { .. } => false,
    }
}

/// A terminator is pure when the value it reads, if any, is pure.
pub open spec fn term_pure(values: Seq<Value>, term: Terminator) -> bool {
    match term {
        Terminator::Return(Some(v)) => value_pure(values, v),
        Terminator::If { cond, .. } => value_pure(values, cond),
        _ => true,
    }
}

/// Every instruction of the block is pure.
pub open spec fn block_pure(values: Seq<Value>, block: Block) -> bool {
    forall|k: int| 0 <= k < block.instrs@.len() ==> instr_pure(values, #[trigger] block.instrs@[k])
}

proof fn lemma_operands_pure_forall(values: Seq<Value>, ops: Seq<ValueId>, path: Set<ValueId>)
    ensures
        operands_pure(values, ops, path) <==> forall|j: int|
            0 <= j < ops.len() ==> pure_from(values, #[trigger] ops[j], path),
    decreases ops.len(),
{
    if ops.len() > 0 {
        lemma_operands_pure_forall(values, ops.drop_first(), path);
        assert forall|j: int| 1 <= j < ops.len() implies ops.drop_first()[j - 1] == ops[j] by {}
        if forall|j: int| 0 <= j < ops.len() ==> pure_from(values, #[trigger] ops[j], path) {
            assert forall|j: int| 0 <= j < ops.drop_first().len() implies pure_from(
                values,
                #[trigger] ops.drop_first()[j],
                path,
            ) by {
                assert(ops.drop_first()[j] == ops[j + 1]);
            }
        }
    }
}

/// Whether a call to the builtin `callee` has no side effects.
pub fn call_is_pure(callee: &str) -> (r: bool)
    ensures
        r == pure_builtin(callee@),
{
    str_eq(callee, "length") || str_eq(callee, "seq_len") || str_eq(callee, "seq_along")
        || str_eq(callee, "abs") || str_eq(callee, "sqrt") || str_eq(callee, "sin") || str_eq(
        callee,
        "cos",
    ) || str_eq(callee, "tan") || str_eq(callee, "log") || str_eq(callee, "exp") || str_eq(
        callee,
        "c",
    ) || str_eq(callee, "sum") || str_eq(callee, "mean") || str_eq(callee, "var") || str_eq(
        callee,
        "sd",
    ) || str_eq(callee, "min") || str_eq(callee, "max") || str_eq(callee, "prod") || str_eq(
        callee,
        "colSums",
    ) || str_eq(callee, "rowSums") || str_eq(callee, "%*%") || str_eq(callee, "crossprod")
        || str_eq(callee, "tcrossprod") || str_eq(callee, "is.na") || str_eq(callee, "is.finite")
        || str_eq(callee, "rr_field_get") || str_eq(callee, "rr_field_exists") || str_eq(
        callee,
        "rr_list_rest",
    ) || str_eq(callee, "rr_named_list") || str_eq(callee, "rr_row_sum_range") || str_eq(
        callee,
        "rr_col_sum_range",
    )
}

fn rvalue_is_pure_inner(vid: ValueId, fn_ir: &FnIR, visiting: &mut HashSet<ValueId>) -> (r: bool)
    requires
        fn_ir.value_ids_valid(),
        vid < fn_ir.values@.len(),
    ensures
        r == pure_from(fn_ir.values@, vid, old(visiting)@),
        final(visiting)@ == old(visiting)@,
    decreases unvisited(old(visiting)@),
{
    let ghost values = fn_ir.values@;
    let ghost path = visiting@;
    if !visiting.insert(vid) {
        return false;
    }
    proof {
        lemma_unvisited_decreases(path, vid);
        assert(ids_below(value_operands(values[vid as int].kind), values.len()));
    }
    let ghost ops = value_operands(values[vid as int].kind);
    let ghost inner = path.insert(vid);
    let val = &fn_ir.values[vid];
    let pure = match &val.kind {
        ValueKind::Const(_) => true,
        ValueKind::Binary { lhs, rhs, .. } => {
            proof {
                lemma_operands_pure_forall(values, ops, inner);
                assert(ops[0] == *lhs && ops[1] == *rhs);
            }
            rvalue_is_pure_inner(*lhs, fn_ir, visiting) && rvalue_is_pure_inner(
                *rhs,
                fn_ir,
                visiting,
            )
        },
        ValueKind::Unary { rhs, .. } => {
            proof {
                lemma_operands_pure_forall(values, ops, inner);
                assert(ops[0] == *rhs);
            }
            rvalue_is_pure_inner(*rhs, fn_ir, visiting)
        },
        ValueKind::Phi { args } => {
            proof {
                lemma_operands_pure_forall(values, ops, inner);
            }
            let mut all = true;
            let mut i: usize = 0;
            while all && i < args.len()
                invariant
                    fn_ir.value_ids_valid(),
                    values == fn_ir.values@,
                    ops == args@.map_values(|a: (ValueId, BlockId)| a.0),
                    ids_below(ops, values.len()),
                    visiting@ == inner,
                    i <= args.len(),
                    all == forall|j: int| 0 <= j < i ==> pure_from(values, #[trigger] ops[j], inner),
                    path == old(visiting)@,
                    unvisited(inner) < unvisited(path),
                decreases args.len() - i,
            {
                let (v, _) = args[i];
                assert(ops[i as int] == v);
                all = rvalue_is_pure_inner(v, fn_ir, visiting);
                i = i + 1;
            }
            all
        },
        ValueKind::Call { callee, args, .. } => {
            if call_is_pure(callee.as_str()) {
                proof {
                    lemma_operands_pure_forall(values, ops, inner);
                }
                let mut all = true;
                let mut i: usize = 0;
                while all && i < args.len()
                    invariant
                        fn_ir.value_ids_valid(),
                        values == fn_ir.values@,
                        ops == args@,
                        ids_below(ops, values.len()),
                        visiting@ == inner,
                        i <= args.len(),
                        all == forall|j: int|
                            0 <= j < i ==> pure_from(values, #[trigger] ops[j], inner),
                        path == old(visiting)@,
                        unvisited(inner) < unvisited(path),
                    decreases args.len() - i,
                {
                    all = rvalue_is_pure_inner(args[i], fn_ir, visiting);
                    i = i + 1;
                }
                all
            } else {
                false
            }
        },
        ValueKind::Len { base } => {
            proof {
                lemma_operands_pure_forall(values, ops, inner);
                assert(ops[0] == *base);
            }
            rvalue_is_pure_inner(*base, fn_ir, visiting)
        },
        ValueKind::Indices { base } => {
            proof {
                lemma_operands_pure_forall(values, ops, inner);
                assert(ops[0] == *base);
            }
            rvalue_is_pure_inner(*base, fn_ir, visiting)
        },
        ValueKind::Range { start, end } => {
            proof {
                lemma_operands_pure_forall(values, ops, inner);
                assert(ops[0] == *start && ops[1] == *end);
            }
            rvalue_is_pure_inner(*start, fn_ir, visiting) && rvalue_is_pure_inner(
                *end,
                fn_ir,
                visiting,
            )
        },
        ValueKind::Index1D { base, idx, .. } => {
            proof {
                lemma_operands_pure_forall(values, ops, inner);
                assert(ops[0] == *base && ops[1] == *idx);
            }
            rvalue_is_pure_inner(*base, fn_ir, visiting) && rvalue_is_pure_inner(
                *idx,
                fn_ir,
                visiting,
            )
        },
        ValueKind::Index2D { base, r, c } => {
            proof {
                lemma_operands_pure_forall(values, ops, inner);
                assert(ops[0] == *base && ops[1] == *r && ops[2] == *c);
            }
            rvalue_is_pure_inner(*base, fn_ir, visiting) && rvalue_is_pure_inner(
                *r,
                fn_ir,
                visiting,
            ) && rvalue_is_pure_inner(*c, fn_ir, visiting)
        },
        _ => false,
    };
    visiting.remove(&vid);
    proof {
        assert(visiting@ =~= path);
    }
    pure
}

/// Whether evaluating value `vid` has no side effects: it is built only
/// from constants, arithmetic, indexing and calls to pure builtins, and its
/// dependencies form no cycle.
pub fn rvalue_is_pure(vid: ValueId, fn_ir: &FnIR) -> (r: bool)
    requires
        fn_ir.value_ids_valid(),
        vid < fn_ir.values@.len(),
    ensures
        r == value_pure(fn_ir.values@, vid),
{
    let mut visiting: HashSet<ValueId> = HashSet::new();
    rvalue_is_pure_inner(vid, fn_ir, &mut visiting)
}

/// Whether an instruction has no side effects.
pub fn stmt_is_pure(stmt: &Instr, fn_ir: &FnIR) -> (r: bool)
    requires
        fn_ir.value_ids_valid(),
        ids_below(instr_operands(*stmt), fn_ir.values@.len()),
    ensures
        r == instr_pure(fn_ir.values@, *stmt),
{
    match stmt {
        Instr::Assign { src, .. } => {
            assert(instr_operands(*stmt)[0] == *src);
            rvalue_is_pure(*src, fn_ir)
        },
        Instr::Eval { val, .. } => {
            assert(instr_operands(*stmt)[0] == *val);
            rvalue_is_pure(*val, fn_ir)
        },
        Instr::StoreIndex1D { .. } => false,
        Instr::StoreIndex2D { .. } => false,
    }
}

/// Whether every instruction of block `bid` (its terminator aside) is free
/// of side effects.
pub fn block_is_pure(bid: BlockId, fn_ir: &FnIR) -> (r: bool)
    requires
        fn_ir.value_ids_valid(),
        bid < fn_ir.blocks@.len(),
    ensures
        r == block_pure(fn_ir.values@, fn_ir.blocks@[bid as int]),
{
    let block = &fn_ir.blocks[bid];
    let mut all = true;
    let mut k: usize = 0;
    while all && k < block.instrs.len()
        invariant
            fn_ir.value_ids_valid(),
            bid < fn_ir.blocks@.len(),
            *block == fn_ir.blocks@[bid as int],
            k <= block.instrs@.len(),
            all == forall|j: int|
                0 <= j < k ==> instr_pure(fn_ir.values@, #[trigger] block.instrs@[j]),
        decreases block.instrs@.len() - k,
    {
        assert(ids_below(
            instr_operands(fn_ir.blocks@[bid as int].instrs@[k as int]),
            fn_ir.values@.len(),
        ));
        all = stmt_is_pure(&block.instrs[k], fn_ir);
        k = k + 1;
    }
    all
}

/// A block and its terminator are both free of side effects.
pub open spec fn block_and_term_pure(values: Seq<Value>, block: Block) -> bool {
    block_pure(values, block) && term_pure(values, block.term)
}

/// Whether a loop, given as the set of its body blocks, is free of side
/// effects: every instruction and every terminator of every body block.
pub fn loop_is_pure(fn_ir: &FnIR, body: &HashSet<BlockId>) -> (r: bool)
    requires
        fn_ir.value_ids_valid(),
        forall|b: BlockId| body@.contains(b) ==> b < fn_ir.blocks@.len(),
    ensures
        r == forall|b: BlockId|
            body@.contains(b) ==> block_and_term_pure(fn_ir.values@, #[trigger] fn_ir.blocks@[b as int]),
{
    broadcast use vstd::std_specs::hash::axiom_spec_hash_keys_iter;

    let ghost keys = vstd::std_specs::iter::IteratorSpec::remaining(
        &vstd::std_specs::hash::spec_hash_keys_iter(body),
    );
    for bid in it: body.iter()
        invariant
            fn_ir.value_ids_valid(),
            forall|b: BlockId| body@.contains(b) ==> b < fn_ir.blocks@.len(),
            it.seq() == keys,
            keys.unref().to_set() == body@,
            forall|k: int|
                0 <= k < it.index() ==> block_and_term_pure(
                    fn_ir.values@,
                    #[trigger] fn_ir.blocks@[*keys[k] as int],
                ),
    {
        let b = *bid;
        proof {
            assert(it.seq().unref()[it.index()] == b);
            assert(it.seq().unref().to_set().contains(b));
        }
        if !block_is_pure(b, fn_ir) {
            return false;
        }
        let t = match &fn_ir.blocks[b].term {
            Terminator::Return(Some(v)) => {
                assert(term_operands(fn_ir.blocks@[b as int].term)[0] == *v);
                rvalue_is_pure(*v, fn_ir)
            },
            Terminator::If { cond, .. } => {
                assert(term_operands(fn_ir.blocks@[b as int].term)[0] == *cond);
                rvalue_is_pure(*cond, fn_ir)
            },
            _ => true,
        };
        if !t {
            return false;
        }
    }
    proof {
        assert forall|b: BlockId| body@.contains(b) implies block_and_term_pure(
            fn_ir.values@,
            #[trigger] fn_ir.blocks@[b as int],
        ) by {
            assert(keys.unref().to_set().contains(b));
            let k = choose|k: int| 0 <= k < keys.len() && keys.unref()[k] == b;
            assert(*keys[k] == b);
        }
    }
    true
}

} // verus!
