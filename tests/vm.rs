use stackvm::{load, Event, Fault, FloatOp, Instruction, LoadError, Machine, Op, ParseError, Section, Value};

fn float_arith(op: FloatOp, a: u64, b: u64) -> u64 {
    let (x, y) = (f64::from_bits(a), f64::from_bits(b));
    let r = match op {
        FloatOp::Add => x + y,
        FloatOp::Sub => x - y,
        FloatOp::Mul => x * y,
        FloatOp::Div => x / y,
    };
    r.to_bits()
}

fn decode_float(s: String) -> Option<u64> {
    s.parse::<f64>().ok().map(f64::to_bits)
}

fn render(v: &Value) -> String {
    match v {
        Value::Bool(b) => format!("{}", b),
        Value::Int(n) => format!("{}", n),
        Value::Float(bits) => format!("{}", f64::from_bits(*bits)),
        Value::Str(s) => s.clone(),
    }
}

struct Run {
    output: String,
    stack: Vec<Value>,
    halted: bool,
}

fn run_capped(source: &str, cap: usize) -> Result<Run, Fault> {
    let program = load(source, &decode_float).expect("program loads");
    let mut m = Machine::new(program)?;
    let mut output = String::new();
    for _ in 0..cap {
        match m.step(&float_arith)? {
            Event::Continue => {}
            Event::Output(v) => output.push_str(&render(&v)),
            Event::Halted => {
                return Ok(Run { output, stack: m.stack, halted: true });
            }
        }
    }
    Ok(Run { output, stack: m.stack, halted: false })
}

fn run(source: &str) -> Result<Run, Fault> {
    run_capped(source, 10_000)
}

fn output_of(source: &str) -> String {
    let r = run(source).expect("no fault");
    assert!(r.halted);
    r.output
}

fn fault_of(source: &str) -> Fault {
    match run(source) {
        Err(f) => f,
        Ok(_) => panic!("expected a fault"),
    }
}

fn load_error(source: &str) -> LoadError {
    match load(source, &decode_float) {
        Err(e) => e,
        Ok(_) => panic!("expected a load error"),
    }
}

#[test]
fn literal_int_prints() {
    assert_eq!(output_of("push 3\nprint"), "3");
}

#[test]
fn literal_float_prints() {
    assert_eq!(output_of("push 3.5\nprint"), "3.5");
}

#[test]
fn literal_bool_prints() {
    assert_eq!(output_of("push true\nprint\npush false\nprint"), "truefalse");
}

#[test]
fn literal_string_escapes_expand() {
    assert_eq!(output_of("push \"hi\\nthere\"\nprint"), "hi\nthere");
    assert_eq!(output_of("push \"a\\rb c\"\nprint"), "a\rb c");
}

#[test]
fn string_literal_quotes_trimmed_at_both_ends() {
    assert_eq!(output_of("push \"\"x\"\"\nprint"), "x");
}

#[test]
fn dup_on_single_value() {
    let r = run("push 5\ndup").unwrap();
    assert_eq!(r.stack, vec![Value::Int(5), Value::Int(5)]);
}

#[test]
fn drop_on_empty_stack_is_harmless() {
    let r = run("drop").unwrap();
    assert!(r.halted);
    assert!(r.stack.is_empty());
}

#[test]
fn print_on_empty_stack_underflows() {
    assert_eq!(fault_of("print"), Fault::StackUnderflow);
}

#[test]
fn swap_exchanges_top_two() {
    let r = run("push 9\npush 1\npush 2\nswap").unwrap();
    assert_eq!(r.stack, vec![Value::Int(9), Value::Int(2), Value::Int(1)]);
}

#[test]
fn rot_moves_third_to_top() {
    let r = run("push 9\npush 1\npush 2\npush 3\nrot").unwrap();
    assert_eq!(r.stack, vec![Value::Int(9), Value::Int(2), Value::Int(3), Value::Int(1)]);
}

#[test]
fn over_copies_second() {
    let r = run("push 1\npush 2\nover").unwrap();
    assert_eq!(r.stack, vec![Value::Int(1), Value::Int(2), Value::Int(1)]);
    assert_eq!(fault_of("push 1\nover"), Fault::StackUnderflow);
}

#[test]
fn add_int_and_bool_mismatch() {
    assert_eq!(fault_of("push 1\npush true\nadd"), Fault::TypeMismatch);
}

#[test]
fn divide_by_zero_faults() {
    assert_eq!(fault_of("push 0\npush 5\ndiv"), Fault::DivisionByZero);
    assert_eq!(fault_of("push 0\npush 5\nmod"), Fault::DivisionByZero);
    assert_eq!(fault_of("push 0.0\npush 1.0\ndiv"), Fault::DivisionByZero);
}

#[test]
fn divide_uses_top_as_dividend() {
    let r = run("push 5\npush 0\ndiv").unwrap();
    assert_eq!(r.stack, vec![Value::Int(0)]);
    let r = run("push 4\npush 10\ndiv").unwrap();
    assert_eq!(r.stack, vec![Value::Int(2)]);
    let r = run("push 4\npush 10\nmod").unwrap();
    assert_eq!(r.stack, vec![Value::Int(2)]);
}

#[test]
fn float_addition() {
    assert_eq!(output_of("push 1.5\npush 2.5\nadd\nprint"), "4");
}

#[test]
fn float_modulo_mismatch() {
    assert_eq!(fault_of("push 1.5\npush 2.5\nmod"), Fault::TypeMismatch);
    assert_eq!(fault_of("push 1\npush 2.5\nadd"), Fault::TypeMismatch);
}

#[test]
fn integer_arithmetic() {
    assert_eq!(run("push 3\npush 5\nsub").unwrap().stack, vec![Value::Int(2)]);
    assert_eq!(run("push 6\npush 7\nmul").unwrap().stack, vec![Value::Int(42)]);
    assert_eq!(run("push 6\npush 7\nadd").unwrap().stack, vec![Value::Int(13)]);
}

#[test]
fn integer_overflow_faults() {
    assert_eq!(fault_of("push 5\npush 3\nsub"), Fault::Overflow);
    assert_eq!(fault_of("push 18446744073709551615\npush 1\nadd"), Fault::Overflow);
}

#[test]
fn comparison_across_kinds() {
    assert_eq!(run("push 1\npush true\neq").unwrap().stack, vec![Value::Bool(false)]);
    assert_eq!(run("push 1\npush true\nne").unwrap().stack, vec![Value::Bool(true)]);
    assert_eq!(run("push \"a\"\npush \"a\"\neq").unwrap().stack, vec![Value::Bool(true)]);
    assert_eq!(run("push 0.0\npush -0.0\neq").unwrap().stack, vec![Value::Bool(true)]);
}

#[test]
fn logic_operators() {
    assert_eq!(run("push true\npush false\nand").unwrap().stack, vec![Value::Bool(false)]);
    assert_eq!(run("push true\npush false\nor").unwrap().stack, vec![Value::Bool(true)]);
    assert_eq!(run("push true\nnot").unwrap().stack, vec![Value::Bool(false)]);
    assert_eq!(fault_of("push 1\nnot"), Fault::TypeMismatch);
}

#[test]
fn jump_splice_never_returns() {
    let src = "jump loop\npush 7\n::loop:\npush 1\nprint\njump loop";
    let r = run_capped(src, 300).unwrap();
    assert!(!r.halted);
    assert_eq!(r.output, "1".repeat(100));
}

#[test]
fn jump_continues_after_spliced_body() {
    let src = "jump body\npush 7\nprint\n::body:\npush 1\nprint";
    assert_eq!(output_of(src), "17");
}

#[test]
fn ifjmp_taken_on_true_or_zero() {
    let src = "push 0\nifjmp t\npush 2\nprint\n::t:\npush 1\nprint";
    assert_eq!(output_of(src), "12");
    let src = "push false\nifjmp t\npush 2\nprint\n::t:\npush 1\nprint";
    assert_eq!(output_of(src), "2");
    assert_eq!(fault_of("push \"s\"\nifjmp t"), Fault::TypeMismatch);
    assert_eq!(fault_of("ifjmp t"), Fault::StackUnderflow);
}

#[test]
fn unknown_label_faults() {
    assert_eq!(fault_of("jump nowhere"), Fault::UnknownLabel);
}

#[test]
fn exit_stops_the_run() {
    assert_eq!(output_of("push 1\nprint\nexit\nprint"), "1");
}

#[test]
fn missing_main_faults() {
    let program = load("::foo:\npush 1\nprint", &decode_float).unwrap();
    assert!(matches!(Machine::new(program), Err(Fault::NoMainSection)));
}

#[test]
fn explicit_main_section() {
    assert_eq!(output_of("::helper:\npush 2\n::main:\npush 1\nprint"), "1");
}

#[test]
fn sections_in_source_order() {
    let program = load("# comment\n/ another\n\npush 1\n::a::\nadd\n::empty:\n::b:\nPrInT", &decode_float).unwrap();
    let names: Vec<&str> = program.iter().map(|s: &Section| s.name.as_str()).collect();
    assert_eq!(names, vec!["main", "a", "b"]);
    assert!(matches!(program[0].code[0], Instruction::Push(Value::Int(1))));
    assert!(matches!(program[1].code[0], Instruction::Op(Op::Add)));
    assert!(matches!(program[2].code[0], Instruction::Op(Op::Print)));
}

#[test]
fn crlf_lines() {
    assert_eq!(output_of("push 4\r\nprint\r\n"), "4");
}

#[test]
fn parse_errors() {
    assert_eq!(load_error("push 1\npush"), LoadError { kind: ParseError::MissingOperand, line: 2 });
    assert_eq!(load_error("jump"), LoadError { kind: ParseError::MissingOperand, line: 1 });
    assert_eq!(load_error("ifjmp "), LoadError { kind: ParseError::MissingOperand, line: 1 });
    assert_eq!(load_error("push 1x"), LoadError { kind: ParseError::InvalidLiteral, line: 1 });
    assert_eq!(load_error("push 1.x"), LoadError { kind: ParseError::InvalidLiteral, line: 1 });
    assert_eq!(load_error("push 99999999999999999999"), LoadError { kind: ParseError::InvalidLiteral, line: 1 });
    assert_eq!(load_error("\nfrob"), LoadError { kind: ParseError::UnknownInstruction, line: 2 });
}

#[test]
fn integer_literal_forms() {
    assert_eq!(run("push +12").unwrap().stack, vec![Value::Int(12)]);
    assert_eq!(load_error("push -1").kind, ParseError::InvalidLiteral);
}
