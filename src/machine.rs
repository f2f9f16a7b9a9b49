//! The executor: instruction semantics and the fetch-execute state machine.
use vstd::prelude::*;
use crate::value::{Value, ValueView, FloatOp, Fault, value_eq, is_zero_spec, float_model, float_total, float_apply, is_float_zero};

verus! {

/// The instructions that take no operand.
#[derive(Clone, Copy, Debug, PartialEq, Eq, Structural)]
pub enum Op {
    Eq,
    Ne,
    And,
    Or,
    Not,
    Add,
    Sub,
    Mul,
    Div,
    Mod,
    Dup,
    Swap,
    Over,
    Rot,
    Drop,
    Print,
    Exit,
}

/// One decoded instruction.
#[derive(Clone, Debug, PartialEq)]
pub enum Instruction {
    Push(Value),
    Jump(String),
    IfJmp(String),
    Op(Op),
}

/// A named block of instructions; the unit that jumps resolve against.
#[derive(Clone, Debug)]
pub struct Section {
    pub name: String,
    pub code: Vec<Instruction>,
}

/// An instruction as the loader's contract speaks of it.
pub enum InstrView {
    Push(ValueView),
    Jump(Seq<char>),
    IfJmp(Seq<char>),
    Op(Op),
}

impl View for Instruction {
    type V = InstrView;

    open spec fn view(&self) -> InstrView {
        match self {
            Instruction::Push(v) => InstrView::Push(v@),
            Instruction::Jump(l) => InstrView::Jump(l@),
            Instruction::IfJmp(l) => InstrView::IfJmp(l@),
            Instruction::Op(op) => InstrView::Op(*op),
        }
    }
}

/// A section as the loader's contract speaks of it.
pub struct SectionView {
    pub name: Seq<char>,
    pub code: Seq<InstrView>,
}

pub open spec fn code_view(code: Seq<Instruction>) -> Seq<InstrView> {
    code.map_values(|i: Instruction| i@)
}

pub open spec fn section_view(s: Section) -> SectionView {
    SectionView { name: s.name@, code: code_view(s.code@) }
}

pub open spec fn program_view(p: Seq<Section>) -> Seq<SectionView> {
    p.map_values(|s: Section| section_view(s))
}

/// What an instruction asks of the fetch-execute loop.
#[derive(Clone, Debug, PartialEq)]
pub enum Flow {
    Next,
    Output(Value),
    Halt,
    Goto(String),
}

/// What one step of the machine produced.
#[derive(Clone, Debug, PartialEq)]
pub enum Event {
    /// The step ran and the machine can go on.
    Continue,
    /// `print` showed this value; the machine can go on.
    Output(Value),
    /// The run is over: `exit` ran, or the cursor passed the last instruction.
    Halted,
}

pub open spec fn float_op_of(op: Op) -> FloatOp {
    match op {
        Op::Add => FloatOp::Add,
        Op::Sub => FloatOp::Sub,
        Op::Mul => FloatOp::Mul,
        _ => FloatOp::Div,
    }
}

pub open spec fn is_arith(op: Op) -> bool {
    op is Add || op is Sub || op is Mul || op is Div || op is Mod
}

/// Integer arithmetic `x op y`, where `x` is the operand popped first.
pub open spec fn int_arith(op: Op, x: usize, y: usize) -> Result<Value, Fault> {
    match op {
        Op::Add => if x + y <= usize::MAX {
            Ok(Value::Int((x + y) as usize))
        } else {
            Err(Fault::Overflow)
        },
        Op::Sub => if x >= y {
            Ok(Value::Int((x - y) as usize))
        } else {
            Err(Fault::Overflow)
        },
        Op::Mul => if x * y <= usize::MAX {
            Ok(Value::Int((x * y) as usize))
        } else {
            Err(Fault::Overflow)
        },
        Op::Div => if y == 0 {
            Err(Fault::DivisionByZero)
        } else {
            Ok(Value::Int((x / y) as usize))
        },
        _ => if y == 0 {
            Err(Fault::DivisionByZero)
        } else {
            Ok(Value::Int((x % y) as usize))
        },
    }
}

/// Arithmetic on two popped values, `a` popped first; `fa` gives the
/// floating-point results.
pub open spec fn arith_spec(
    op: Op,
    a: Value,
    b: Value,
    fa: spec_fn(FloatOp, u64, u64) -> u64,
) -> Result<Value, Fault> {
    match (a, b) {
        (Value::Int(x), Value::Int(y)) => int_arith(op, x, y),
        (Value::Float(x), Value::Float(y)) => if op is Mod {
            Err(Fault::TypeMismatch)
        } else if op is Div && is_zero_spec(y) {
            Err(Fault::DivisionByZero)
        } else {
            Ok(Value::Float(fa(float_op_of(op), x, y)))
        },
        _ => Err(Fault::TypeMismatch),
    }
}

/// The effect of an operand-free instruction on the stack `s` (top last).
pub open spec fn op_spec(
    op: Op,
    s: Seq<Value>,
    fa: spec_fn(FloatOp, u64, u64) -> u64,
) -> Result<(Seq<Value>, Flow), Fault> {
    let n = s.len();
    match op {
        Op::Drop => Ok((if n == 0 { s } else { s.drop_last() }, Flow::Next)),
        Op::Exit => Ok((s, Flow::Halt)),
        Op::Dup => if n == 0 { Err(Fault::StackUnderflow) } else { Ok((s.push(s.last()), Flow::Next)) },
        Op::Print => if n == 0 {
            Err(Fault::StackUnderflow)
        } else {
            Ok((s, Flow::Output(s.last())))
        },
        Op::Not => if n == 0 {
            Err(Fault::StackUnderflow)
        } else {
            match s.last() {
                Value::Bool(x) => Ok((s.drop_last().push(Value::Bool(!x)), Flow::Next)),
                _ => Err(Fault::TypeMismatch),
            }
        },
        Op::Rot => if n < 3 {
            Err(Fault::StackUnderflow)
        } else {
            Ok((s.subrange(0, n - 3).push(s[n - 2]).push(s[n - 1]).push(s[n - 3]), Flow::Next))
        },
        _ => if n < 2 {
            Err(Fault::StackUnderflow)
        } else {
            let a = s[n - 1];
            let b = s[n - 2];
            let rest = s.subrange(0, n - 2);
            match op {
                Op::Swap => Ok((rest.push(a).push(b), Flow::Next)),
                Op::Over => Ok((s.push(b), Flow::Next)),
                Op::Eq => Ok((rest.push(Value::Bool(value_eq(a, b))), Flow::Next)),
                Op::Ne => Ok((rest.push(Value::Bool(!value_eq(a, b))), Flow::Next)),
                Op::And => match (a, b) {
                    (Value::Bool(x), Value::Bool(y)) => Ok((rest.push(Value::Bool(x && y)), Flow::Next)),
                    _ => Err(Fault::TypeMismatch),
                },
                Op::Or => match (a, b) {
                    (Value::Bool(x), Value::Bool(y)) => Ok((rest.push(Value::Bool(x || y)), Flow::Next)),
                    _ => Err(Fault::TypeMismatch),
                },
                _ => match arith_spec(op, a, b, fa) {
                    Ok(v) => Ok((rest.push(v), Flow::Next)),
                    Err(e) => Err(e),
                },
            }
        },
    }
}

/// The effect of one instruction on the stack `s`.
pub open spec fn exec_spec(
    ins: Instruction,
    s: Seq<Value>,
    fa: spec_fn(FloatOp, u64, u64) -> u64,
) -> Result<(Seq<Value>, Flow), Fault> {
    match ins {
        Instruction::Push(v) => Ok((s.push(v), Flow::Next)),
        Instruction::Jump(l) => Ok((s, Flow::Goto(l))),
        Instruction::IfJmp(l) => if s.len() == 0 {
            Err(Fault::StackUnderflow)
        } else {
            match s.last() {
                Value::Bool(x) => Ok((s, if x { Flow::Goto(l) } else { Flow::Next })),
                Value::Int(k) => Ok((s, if k == 0 { Flow::Goto(l) } else { Flow::Next })),
                _ => Err(Fault::TypeMismatch),
            }
        },
        Instruction::Op(op) => op_spec(op, s, fa),
    }
}

/// The outcome of `exec_spec` as the executable code reports it.
pub open spec fn exec_post(
    spec_r: Result<(Seq<Value>, Flow), Fault>,
    r: Result<Flow, Fault>,
    s2: Seq<Value>,
) -> bool {
    match spec_r {
        Ok((t, fl)) => r == Ok::<Flow, Fault>(fl) && s2 == t,
        Err(e) => r == Err::<Flow, Fault>(e),
    }
}

fn arith<F: Fn(FloatOp, u64, u64) -> u64>(op: Op, a: &Value, b: &Value, f: &F) -> (r: Result<Value, Fault>)
    requires
        is_arith(op),
        float_total(*f),
    ensures
        forall|fa: spec_fn(FloatOp, u64, u64) -> u64|
            float_model(*f, fa) ==> r == arith_spec(op, *a, *b, fa),
{
    match (a, b) {
        (Value::Int(x), Value::Int(y)) => {
            let (x, y) = (*x, *y);
            match op {
                Op::Add => match x.checked_add(y) {
                    Some(z) => Ok(Value::Int(z)),
                    None => Err(Fault::Overflow),
                },
                Op::Sub => if x >= y {
                    Ok(Value::Int(x - y))
                } else {
                    Err(Fault::Overflow)
                },
                Op::Mul => match x.checked_mul(y) {
                    Some(z) => Ok(Value::Int(z)),
                    None => Err(Fault::Overflow),
                },
                Op::Div => if y == 0 {
                    Err(Fault::DivisionByZero)
                } else {
                    Ok(Value::Int(x / y))
                },
                _ => if y == 0 {
                    Err(Fault::DivisionByZero)
                } else {
                    Ok(Value::Int(x % y))
                },
            }
        },
        (Value::Float(x), Value::Float(y)) => {
            let fop = match op {
                Op::Add => FloatOp::Add,
                Op::Sub => FloatOp::Sub,
                Op::Mul => FloatOp::Mul,
                Op::Div => FloatOp::Div,
                _ => {
                    return Err(Fault::TypeMismatch);
                },
            };
            if fop == FloatOp::Div && is_float_zero(*y) {
                Err(Fault::DivisionByZero)
            } else {
                Ok(Value::Float(float_apply(f, fop, *x, *y)))
            }
        },
        _ => Err(Fault::TypeMismatch),
    }
}

/// Runs one operand-free instruction on `stack`.
pub fn exec_op<F: Fn(FloatOp, u64, u64) -> u64>(op: Op, stack: &mut Vec<Value>, f: &F) -> (r: Result<Flow, Fault>)
    requires
        float_total(*f),
    ensures
        forall|fa: spec_fn(FloatOp, u64, u64) -> u64|
            float_model(*f, fa) ==> exec_post(op_spec(op, old(stack)@, fa), r, final(stack)@),
{
    let n = stack.len();
    let ghost s0 = stack@;
    match op {
        Op::Drop => {
            stack.pop();
            return Ok(Flow::Next);
        },
        Op::Exit => {
            return Ok(Flow::Halt);
        },
        Op::Dup => {
            if n == 0 {
                return Err(Fault::StackUnderflow);
            }
            let v = stack[n - 1].duplicate();
            stack.push(v);
            return Ok(Flow::Next);
        },
        Op::Print => {
            if n == 0 {
                return Err(Fault::StackUnderflow);
            }
            return Ok(Flow::Output(stack[n - 1].duplicate()));
        },
        Op::Not => {
            if n == 0 {
                return Err(Fault::StackUnderflow);
            }
            let a = stack.pop().unwrap();
            return match a {
                Value::Bool(x) => {
                    stack.push(Value::Bool(!x));
                    Ok(Flow::Next)
                },
                _ => Err(Fault::TypeMismatch),
            };
        },
        Op::Rot => {
            if n < 3 {
                return Err(Fault::StackUnderflow);
            }
            let a = stack.pop().unwrap();
            let b = stack.pop().unwrap();
            let c = stack.pop().unwrap();
            stack.push(b);
            stack.push(a);
            stack.push(c);
            assert(stack@ =~= s0.subrange(0, n - 3).push(s0[n - 2]).push(s0[n - 1]).push(s0[n - 3]));
            return Ok(Flow::Next);
        },
        _ => {},
    }
    if n < 2 {
        return Err(Fault::StackUnderflow);
    }
    if op == Op::Over {
        let b = stack[n - 2].duplicate();
        stack.push(b);
        return Ok(Flow::Next);
    }
    let a = stack.pop().unwrap();
    let b = stack.pop().unwrap();
    assert(stack@ =~= s0.subrange(0, n - 2));
    match op {
        Op::Swap => {
            stack.push(a);
            stack.push(b);
            Ok(Flow::Next)
        },
        Op::Eq => {
            let e = a.equals(&b);
            stack.push(Value::Bool(e));
            Ok(Flow::Next)
        },
        Op::Ne => {
            let e = a.equals(&b);
            stack.push(Value::Bool(!e));
            Ok(Flow::Next)
        },
        Op::And | Op::Or => match (a, b) {
            (Value::Bool(x), Value::Bool(y)) => {
                stack.push(Value::Bool(if op == Op::And { x && y } else { x || y }));
                Ok(Flow::Next)
            },
            _ => Err(Fault::TypeMismatch),
        },
        _ => {
            match arith(op, &a, &b, f) {
                Ok(v) => {
                    stack.push(v);
                    Ok(Flow::Next)
                },
                Err(e) => Err(e),
            }
        },
    }
}

/// Runs one instruction on `stack`, leaving control flow to the caller.
pub fn execute<F: Fn(FloatOp, u64, u64) -> u64>(ins: &Instruction, stack: &mut Vec<Value>, f: &F) -> (r: Result<Flow, Fault>)
    requires
        float_total(*f),
    ensures
        forall|fa: spec_fn(FloatOp, u64, u64) -> u64|
            float_model(*f, fa) ==> exec_post(exec_spec(*ins, old(stack)@, fa), r, final(stack)@),
{
    match ins {
        Instruction::Push(v) => {
            stack.push(v.duplicate());
            Ok(Flow::Next)
        },
        Instruction::Jump(l) => Ok(Flow::Goto(l.clone())),
        Instruction::IfJmp(l) => {
            let n = stack.len();
            if n == 0 {
                return Err(Fault::StackUnderflow);
            }
            let taken = match &stack[n - 1] {
                Value::Bool(x) => *x,
                Value::Int(k) => *k == 0,
                _ => {
                    return Err(Fault::TypeMismatch);
                },
            };
            if taken {
                Ok(Flow::Goto(l.clone()))
            } else {
                Ok(Flow::Next)
            }
        },
        Instruction::Op(op) => exec_op(*op, stack, f),
    }
}

impl Instruction {
    /// A copy of this instruction.
    pub fn duplicate(&self) -> (r: Instruction)
        ensures
            r == *self,
    {
        match self {
            Instruction::Push(v) => Instruction::Push(v.duplicate()),
            Instruction::Jump(l) => Instruction::Jump(l.clone()),
            Instruction::IfJmp(l) => Instruction::IfJmp(l.clone()),
            Instruction::Op(op) => Instruction::Op(*op),
        }
    }
}

/// Section `i` is the first one in `p` named `name`.
pub open spec fn is_first_named(p: Seq<Section>, i: int, name: Seq<char>) -> bool {
    &&& 0 <= i < p.len()
    &&& p[i].name@ == name
    &&& forall|j: int| 0 <= j < i ==> p[j].name@ != name
}

/// Some section of `p` is named `name`.
pub open spec fn has_section(p: Seq<Section>, name: Seq<char>) -> bool {
    exists|i: int| 0 <= i < p.len() && p[i].name@ == name
}

/// The index of the first section named `name`, in source order.
pub fn find_section(p: &Vec<Section>, name: &String) -> (r: Option<usize>)
    ensures
        match r {
            Some(i) => is_first_named(p@, i as int, name@),
            None => !has_section(p@, name@),
        },
{
    let mut i: usize = 0;
    while i < p.len()
        invariant
            i <= p@.len(),
            forall|j: int| 0 <= j < i ==> p@[j].name@ != name@,
        decreases p@.len() - i,
    {
        if p[i].name == *name {
            return Some(i);
        }
        i = i + 1;
    }
    None
}

/// `code` with the instruction at `at` replaced by `body`.
pub open spec fn splice(code: Seq<Instruction>, at: int, body: Seq<Instruction>) -> Seq<Instruction> {
    code.subrange(0, at) + body + code.subrange(at + 1, code.len() as int)
}

/// A copy of `code` with the instruction at `at` replaced by `body`.
pub fn splice_code(code: &Vec<Instruction>, at: usize, body: &Vec<Instruction>) -> (r: Vec<Instruction>)
    requires
        at < code@.len(),
    ensures
        r@ == splice(code@, at as int, body@),
{
    let mut r: Vec<Instruction> = Vec::new();
    let mut i: usize = 0;
    while i < at
        invariant
            i <= at < code@.len(),
            r@ == code@.subrange(0, i as int),
        decreases at - i,
    {
        r.push(code[i].duplicate());
        i = i + 1;
        assert(r@ =~= code@.subrange(0, i as int));
    }
    let mut k: usize = 0;
    while k < body.len()
        invariant
            k <= body@.len(),
            r@ == code@.subrange(0, at as int) + body@.subrange(0, k as int),
        decreases body@.len() - k,
    {
        r.push(body[k].duplicate());
        k = k + 1;
        assert(r@ =~= code@.subrange(0, at as int) + body@.subrange(0, k as int));
    }
    assert(body@.subrange(0, body@.len() as int) =~= body@);
    let n = code.len();
    let mut j: usize = at + 1;
    while j < code.len()
        invariant
            at < j <= code@.len(),
            r@ == code@.subrange(0, at as int) + body@ + code@.subrange(at + 1, j as int),
        decreases code@.len() - j,
    {
        r.push(code[j].duplicate());
        j = j + 1;
        assert(r@ =~= code@.subrange(0, at as int) + body@ + code@.subrange(at + 1, j as int));
    }
    r
}

/// An element-by-element copy of `code`.
pub fn copy_code(code: &Vec<Instruction>) -> (r: Vec<Instruction>)
    ensures
        r@ == code@,
{
    let mut r: Vec<Instruction> = Vec::new();
    let mut i: usize = 0;
    while i < code.len()
        invariant
            i <= code@.len(),
            r@ == code@.subrange(0, i as int),
        decreases code@.len() - i,
    {
        r.push(code[i].duplicate());
        i = i + 1;
        assert(r@ =~= code@.subrange(0, i as int));
    }
    assert(code@.subrange(0, code@.len() as int) =~= code@);
    r
}

/// The state of a run: the section table, the working instruction sequence,
/// the cursor into it, and the operand stack (top last).
pub struct Machine {
    pub program: Vec<Section>,
    pub code: Vec<Instruction>,
    pub cursor: usize,
    pub stack: Vec<Value>,
}

/// The characters of the entry section's name.
pub open spec fn main_name() -> Seq<char> {
    seq!['m', 'a', 'i', 'n']
}

/// The machine `m2` and the event `r` are what one step from `m` gives,
/// with `fa` giving the floating-point results.
pub open spec fn step_post(
    m: Machine,
    m2: Machine,
    r: Result<Event, Fault>,
    fa: spec_fn(FloatOp, u64, u64) -> u64,
) -> bool {
    &&& m2.program@ == m.program@
    &&& if m.cursor >= m.code@.len() {
        r == Ok::<Event, Fault>(Event::Halted) && m2.code@ == m.code@ && m2.cursor == m.cursor
            && m2.stack@ == m.stack@
    } else {
        match exec_spec(m.code@[m.cursor as int], m.stack@, fa) {
            Err(e) => r == Err::<Event, Fault>(e),
            Ok((s2, fl)) => match fl {
                Flow::Next => r == Ok::<Event, Fault>(Event::Continue) && m2.stack@ == s2
                    && m2.code@ == m.code@ && m2.cursor == m.cursor + 1,
                Flow::Output(v) => r == Ok::<Event, Fault>(Event::Output(v)) && m2.stack@ == s2
                    && m2.code@ == m.code@ && m2.cursor == m.cursor + 1,
                Flow::Halt => r == Ok::<Event, Fault>(Event::Halted) && m2.stack@ == s2
                    && m2.code@ == m.code@ && m2.cursor == m.code@.len(),
                Flow::Goto(l) => if has_section(m.program@, l@) {
                    exists|i: int|
                        is_first_named(m.program@, i, l@) && r == Ok::<Event, Fault>(Event::Continue)
                            && m2.stack@ == s2 && m2.cursor == m.cursor
                            && m2.code@ == splice(m.code@, m.cursor as int, m.program@[i].code@)
                } else {
                    r == Err::<Event, Fault>(Fault::UnknownLabel)
                },
            },
        }
    }
}

impl Machine {
    /// A machine about to run the first section named `main`, with an empty
    /// stack; `NoMainSection` when there is none.
    pub fn new(program: Vec<Section>) -> (r: Result<Machine, Fault>)
        ensures
            match r {
                Ok(m) => exists|i: int|
                    is_first_named(program@, i, main_name()) && m.program@ == program@
                        && m.code@ == program@[i].code@ && m.cursor == 0 && m.stack@.len() == 0,
                Err(e) => e == Fault::NoMainSection && !has_section(program@, main_name()),
            },
    {
        let cs = vec!['m', 'a', 'i', 'n'];
        assert(cs@ =~= main_name());
        let main = crate::text::string_from(&cs);
        match find_section(&program, &main) {
            None => Err(Fault::NoMainSection),
            Some(i) => {
                let code = copy_code(&program[i].code);
                assert(is_first_named(program@, i as int, main_name()));
                Ok(Machine { program, code, cursor: 0, stack: Vec::new() })
            },
        }
    }

    /// The run has ended: no instruction is left at the cursor.
    pub open spec fn halted(&self) -> bool {
        self.cursor >= self.code@.len()
    }

    pub fn is_halted(&self) -> (r: bool)
        ensures
            r == self.halted(),
    {
        self.cursor >= self.code.len()
    }

    /// Executes the instruction at the cursor. `f` performs floating-point
    /// arithmetic on binary64 bit patterns.
    pub fn step<F: Fn(FloatOp, u64, u64) -> u64>(&mut self, f: &F) -> (r: Result<Event, Fault>)
        requires
            float_total(*f),
        ensures
            forall|fa: spec_fn(FloatOp, u64, u64) -> u64|
                float_model(*f, fa) ==> step_post(*old(self), *final(self), r, fa),
    {
        let len = self.code.len();
        if self.cursor >= len {
            return Ok(Event::Halted);
        }
        let ins = self.code[self.cursor].duplicate();
        let fl = execute(&ins, &mut self.stack, f)?;
        match fl {
            Flow::Next => {
                self.cursor = self.cursor + 1;
                Ok(Event::Continue)
            },
            Flow::Output(v) => {
                self.cursor = self.cursor + 1;
                Ok(Event::Output(v))
            },
            Flow::Halt => {
                self.cursor = len;
                Ok(Event::Halted)
            },
            Flow::Goto(label) => match find_section(&self.program, &label) {
                None => Err(Fault::UnknownLabel),
                Some(i) => {
                    let code = splice_code(&self.code, self.cursor, &self.program[i].code);
                    self.code = code;
                    Ok(Event::Continue)
                },
            },
        }
    }
}

} // verus!
