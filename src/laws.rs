//! Laws of the instruction set, proved over the executor's specification.
use vstd::prelude::*;
use crate::value::{Value, FloatOp, Fault, is_zero_spec};
use crate::machine::{Op, Flow, Machine, Instruction, Event, op_spec, arith_spec, is_arith, step_post, is_first_named, splice};

verus! {

/// `dup` copies the top of a non-empty stack, `drop` on an empty stack leaves
/// it empty without a fault, and `print` on an empty stack underflows.
pub proof fn law_stack_discipline(s: Seq<Value>, fa: spec_fn(FloatOp, u64, u64) -> u64)
    ensures
        s.len() > 0 ==> op_spec(Op::Dup, s, fa) == Ok::<(Seq<Value>, Flow), Fault>((s.push(s.last()), Flow::Next)),
        op_spec(Op::Drop, Seq::<Value>::empty(), fa) == Ok::<(Seq<Value>, Flow), Fault>((Seq::<Value>::empty(), Flow::Next)),
        op_spec(Op::Print, Seq::<Value>::empty(), fa) == Err::<(Seq<Value>, Flow), Fault>(Fault::StackUnderflow),
{
}

/// With `a` below `b` on top, `swap` leaves `b` below `a`; with `c`, `b`, `a`
/// from below to the top, `rot` leaves `b`, `a`, `c`. What lies beneath is
/// untouched.
pub proof fn law_swap_rot(rest: Seq<Value>, a: Value, b: Value, c: Value, fa: spec_fn(FloatOp, u64, u64) -> u64)
    ensures
        op_spec(Op::Swap, rest.push(a).push(b), fa) == Ok::<(Seq<Value>, Flow), Fault>((rest.push(b).push(a), Flow::Next)),
        op_spec(Op::Rot, rest.push(c).push(b).push(a), fa) == Ok::<(Seq<Value>, Flow), Fault>(
            (rest.push(b).push(a).push(c), Flow::Next)),
{
    let s = rest.push(a).push(b);
    assert(s.subrange(0, s.len() - 2) =~= rest);
    let t = rest.push(c).push(b).push(a);
    assert(t.subrange(0, t.len() - 3) =~= rest);
}

/// Arithmetic on operands of different kinds, or on booleans or strings,
/// faults with `TypeMismatch`; integer division or remainder by zero, and
/// float division by a zero, fault with `DivisionByZero`.
pub proof fn law_arith_type_safety(op: Op, a: Value, b: Value, fa: spec_fn(FloatOp, u64, u64) -> u64)
    requires
        is_arith(op),
    ensures
        !((a is Int && b is Int) || (a is Float && b is Float)) ==> arith_spec(op, a, b, fa) == Err::<Value, Fault>(Fault::TypeMismatch),
        (op is Div || op is Mod) && a is Int && b == Value::Int(0) ==> arith_spec(op, a, b, fa) == Err::<Value, Fault>(Fault::DivisionByZero),
        op is Div && a is Float && b is Float && is_zero_spec(b->Float_0) ==> arith_spec(op, a, b, fa) == Err::<Value, Fault>(Fault::DivisionByZero),
{
}

/// A taken jump replaces itself, in the working sequence, by the whole body of
/// the first section of that name and leaves the cursor on its first
/// instruction: nothing returns to the jump afterwards.
pub proof fn law_jump_splices(m: Machine, m2: Machine, r: Result<Event, Fault>, fa: spec_fn(FloatOp, u64, u64) -> u64, i: int)
    requires
        m.cursor < m.code@.len(),
        m.code@[m.cursor as int] matches Instruction::Jump(l) && is_first_named(m.program@, i, l@),
        step_post(m, m2, r, fa),
    ensures
        r == Ok::<Event, Fault>(Event::Continue),
        m2.cursor == m.cursor,
        m2.stack@ == m.stack@,
        m2.code@ == splice(m.code@, m.cursor as int, m.program@[i].code@),
{
    let l = m.code@[m.cursor as int]->Jump_0;
    assert(m.program@[i].name@ == l@);
    let j = choose|j: int| is_first_named(m.program@, j, l@) && m2.code@ == splice(m.code@, m.cursor as int, m.program@[j].code@);
    if j < i {
        assert(m.program@[j].name@ != l@);
    } else if i < j {
        assert(m.program@[i].name@ != l@);
    }
}

} // verus!
