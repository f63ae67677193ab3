use rr::mir::analyze::effects::{call_is_pure, rvalue_is_pure};
use rr::mir::def::{FnIR, Terminator, ValueKind};
use rr::mir::flow::Facts;
use rr::utils::Span;

#[test]
fn rr_bool_is_not_treated_as_pure_call() {
    assert!(!call_is_pure("rr_bool"));
}

#[test]
fn phi_cycle_does_not_recurse_forever() {
    let mut fn_ir = FnIR::new("phi_cycle".to_string(), vec![]);
    let b0 = fn_ir.add_block();
    fn_ir.entry = b0;
    fn_ir.body_head = b0;

    let phi = fn_ir.add_value(
        ValueKind::Phi { args: Vec::new() },
        Span::default(),
        Facts::empty(),
        None,
    );
    fn_ir.values[phi].kind = ValueKind::Phi {
        args: vec![(phi, b0)],
    };
    fn_ir.values[phi].phi_block = Some(b0);
    fn_ir.blocks[b0].term = Terminator::Return(Some(phi));

    assert!(!rvalue_is_pure(phi, &fn_ir));
}

use rr::mir::def::Instr;
use rr::mir::analyze::effects::{block_is_pure, loop_is_pure, stmt_is_pure};
use rr::syntax::ast::{BinOp, Lit};
use std::collections::HashSet;

fn konst(f: &mut FnIR, i: i64) -> usize {
    f.add_value(ValueKind::Const(Lit::Int(i)), Span::default(), Facts::empty(), None)
}

#[test]
fn two_phis_that_read_each_other_are_impure() {
    let mut f = FnIR::new("cycle2".to_string(), vec![]);
    let b0 = f.add_block();
    let a = f.add_value(ValueKind::Phi { args: Vec::new() }, Span::default(), Facts::empty(), None);
    let b = f.add_value(ValueKind::Phi { args: vec![(a, b0)] }, Span::default(), Facts::empty(), None);
    f.values[a].kind = ValueKind::Phi { args: vec![(b, b0)] };
    assert!(!rvalue_is_pure(a, &f));
    assert!(!rvalue_is_pure(b, &f));
}

#[test]
fn arithmetic_on_constants_is_pure_and_calls_follow_the_whitelist() {
    let mut f = FnIR::new("pure".to_string(), vec![]);
    let b0 = f.add_block();
    let one = konst(&mut f, 1);
    let two = konst(&mut f, 2);
    let sum = f.add_value(ValueKind::Binary { op: BinOp::Add, lhs: one, rhs: two }, Span::default(), Facts::empty(), None);
    let sq = f.add_value(
        ValueKind::Call { callee: "sqrt".to_string(), args: vec![sum], names: vec![None] },
        Span::default(),
        Facts::empty(),
        None,
    );
    let pr = f.add_value(
        ValueKind::Call { callee: "print".to_string(), args: vec![sum], names: vec![None] },
        Span::default(),
        Facts::empty(),
        None,
    );
    let load = f.add_value(ValueKind::Load { var: "x".to_string() }, Span::default(), Facts::empty(), None);
    assert!(rvalue_is_pure(sum, &f));
    assert!(rvalue_is_pure(sq, &f));
    assert!(!rvalue_is_pure(pr, &f));
    assert!(!rvalue_is_pure(load, &f));
    assert!(call_is_pure("length") && call_is_pure("%*%") && !call_is_pure("print"));

    let assign = Instr::Assign { dst: "y".to_string(), src: sq, span: Span::default() };
    let eval = Instr::Eval { val: pr, span: Span::default() };
    assert!(stmt_is_pure(&assign, &f));
    assert!(!stmt_is_pure(&eval, &f));

    f.blocks[b0].instrs.push(assign);
    f.blocks[b0].term = Terminator::Return(Some(sum));
    assert!(block_is_pure(b0, &f));
    let mut body = HashSet::new();
    body.insert(b0);
    assert!(loop_is_pure(&f, &body));

    let b1 = f.add_block();
    f.blocks[b1].instrs.push(eval);
    body.insert(b1);
    assert!(!block_is_pure(b1, &f));
    assert!(!loop_is_pure(&f, &body));
}
