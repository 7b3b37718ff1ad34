use rox::chunk::{Chunk, Instruction, OpCode};
use rox::error::Error;
use rox::value::Value;
use rox::vm::{Action, Vm};

fn number(x: f64) -> Value {
    Value::Double(x.to_bits())
}

fn float(value: Value) -> f64 {
    f64::from_bits(value.bits())
}

fn compute(op: OpCode, lhs: Value, rhs: Value) -> Value {
    let (a, b) = (float(lhs), float(rhs));
    number(match op {
        OpCode::Add => a + b,
        OpCode::Subtract => a - b,
        OpCode::Multiply => a * b,
        OpCode::Divide => a / b,
        _ => unreachable!(),
    })
}

/// Runs the chunk as a caller would and returns what was printed and how
/// the run ended.
fn execute(chunk: Chunk) -> (String, Result<(), Error>, Vm) {
    assert!(chunk.is_well_formed());
    let mut vm = Vm::init();
    let mut printed = String::new();
    let mut step = vm.interpret(chunk);
    loop {
        let action = match step {
            Ok(action) => action,
            Err(e) => return (printed, Err(e), vm),
        };
        step = match action {
            Action::Halt => return (printed, Ok(()), vm),
            Action::Echo(value) | Action::Print(value) => {
                printed.push_str(&action.output(&format!("{}", float(value))).unwrap());
                vm.run()
            }
            Action::PrintEmpty => {
                printed.push_str(&action.output("").unwrap());
                vm.run()
            }
            Action::Binary { op, lhs, rhs } => vm.resume(compute(op, lhs, rhs)),
            Action::Negate(value) => vm.resume(number(-float(value))),
        };
    }
}

fn program(constants: &[f64], code: &[Instruction]) -> Chunk {
    let mut chunk = Chunk::new();
    for c in constants {
        chunk.add_constant(number(*c));
    }
    for i in code {
        chunk.write(*i);
    }
    chunk
}

fn constant(offset: u32) -> Instruction {
    Instruction::Constant { op: OpCode::Constant, line: 1, offset }
}

const ADD: Instruction = Instruction::Add { op: OpCode::Add, line: 1 };
const SUBTRACT: Instruction = Instruction::Subtract { op: OpCode::Subtract, line: 1 };
const MULTIPLY: Instruction = Instruction::Multiply { op: OpCode::Multiply, line: 1 };
const DIVIDE: Instruction = Instruction::Divide { op: OpCode::Divide, line: 1 };
const NEGATE: Instruction = Instruction::Negate { op: OpCode::Negate, line: 1 };
const RETURN: Instruction = Instruction::Return { op: OpCode::Return, line: 1 };

const STACK_EMPTY: &str = "failed to get a value from the stack. The stack is empty.";

#[test]
fn equal_constants_subtract_to_zero() {
    let chunk = program(&[10.5, 10.5], &[constant(0), constant(1), SUBTRACT, RETURN]);
    let (printed, result, vm) = execute(chunk);
    assert!(result.is_ok());
    assert_eq!(printed, "10.5\n10.5\n0\n");
    assert!(vm.stack().is_empty());
}

#[test]
fn return_on_an_empty_stack_prints_the_marker() {
    let (printed, result, vm) = execute(program(&[], &[RETURN]));
    assert!(result.is_ok());
    assert_eq!(printed, "<empty>\n");
    assert!(vm.stack().is_empty());
}

#[test]
fn return_on_an_empty_stack_is_the_empty_action() {
    let mut vm = Vm::init();
    assert!(matches!(vm.interpret(program(&[], &[RETURN, RETURN])), Ok(Action::PrintEmpty)));
    assert!(matches!(vm.run(), Ok(Action::PrintEmpty)));
    assert!(matches!(vm.run(), Ok(Action::Halt)));
}

#[test]
fn binary_on_an_empty_stack_fails_and_halts() {
    for op in [ADD, SUBTRACT, MULTIPLY, DIVIDE] {
        let (printed, result, mut vm) = execute(program(&[1.0], &[op, constant(0), RETURN]));
        match result {
            Err(Error::RuntimeError(message)) => assert_eq!(message, STACK_EMPTY),
            other => panic!("{:?}", other),
        }
        assert_eq!(printed, "");
        assert!(vm.stack().is_empty());
        assert!(matches!(vm.run(), Ok(Action::Halt)));
    }
}

#[test]
fn binary_on_one_operand_fails_and_halts() {
    for op in [ADD, SUBTRACT, MULTIPLY, DIVIDE] {
        let (printed, result, mut vm) = execute(program(&[1.0], &[constant(0), op, RETURN]));
        match result {
            Err(Error::RuntimeError(message)) => assert_eq!(message, STACK_EMPTY),
            other => panic!("{:?}", other),
        }
        assert_eq!(printed, "1\n");
        assert!(vm.stack().is_empty());
        assert!(matches!(vm.run(), Ok(Action::Halt)));
    }
}

#[test]
fn negate_on_an_empty_stack_fails() {
    let (_, result, _) = execute(program(&[], &[NEGATE, RETURN]));
    match result {
        Err(Error::RuntimeError(message)) => assert_eq!(message, STACK_EMPTY),
        other => panic!("{:?}", other),
    }
}

#[test]
fn operands_come_left_then_right() {
    let mut vm = Vm::init();
    let chunk = program(&[8.0, 2.0], &[constant(0), constant(1), DIVIDE, RETURN]);
    assert!(matches!(vm.interpret(chunk), Ok(Action::Echo(v)) if float(v) == 8.0));
    assert!(matches!(vm.run(), Ok(Action::Echo(v)) if float(v) == 2.0));
    match vm.run() {
        Ok(Action::Binary { op, lhs, rhs }) => {
            assert_eq!(op, OpCode::Divide);
            assert_eq!(float(lhs), 8.0);
            assert_eq!(float(rhs), 2.0);
        }
        other => panic!("{:?}", other),
    }
    assert!(vm.stack().is_empty());
    assert!(matches!(vm.resume(number(4.0)), Ok(Action::Print(v)) if float(v) == 4.0));
    assert!(matches!(vm.run(), Ok(Action::Halt)));
    assert!(matches!(vm.run(), Ok(Action::Halt)));
}

#[test]
fn arithmetic_runs_through() {
    let chunk = program(
        &[1.5, 2.0, 4.0],
        &[constant(0), constant(1), ADD, constant(2), MULTIPLY, NEGATE, constant(1), DIVIDE, RETURN],
    );
    let (printed, result, _) = execute(chunk);
    assert!(result.is_ok());
    assert_eq!(printed, "1.5\n2\n4\n2\n-7\n");
}

#[test]
fn division_by_zero_is_not_a_failure() {
    let (printed, result, _) = execute(program(&[1.0, 0.0], &[constant(0), constant(1), DIVIDE, RETURN]));
    assert!(result.is_ok());
    assert_eq!(printed, "1\n0\ninf\n");
}

#[test]
fn a_chunk_brings_its_stack() {
    let mut chunk = program(&[], &[ADD, RETURN]);
    chunk.stack.push(number(1.0));
    chunk.stack.push(number(2.0));
    let (printed, result, _) = execute(chunk);
    assert!(result.is_ok());
    assert_eq!(printed, "3\n");
}

#[test]
fn an_empty_program_halts_at_once() {
    let mut vm = Vm::init();
    assert!(matches!(vm.run(), Ok(Action::Halt)));
    assert!(matches!(vm.interpret(Chunk::new()), Ok(Action::Halt)));
    assert_eq!(vm.chunk().code.len(), 0);
}

#[test]
fn actions_print_values_and_the_marker() {
    let v = number(1.0);
    assert_eq!(Action::Echo(v).output("1"), Some("1\n".to_string()));
    assert_eq!(Action::Print(v).output("1"), Some("1\n".to_string()));
    assert_eq!(Action::PrintEmpty.output("1"), Some("<empty>\n".to_string()));
    assert_eq!(Action::Negate(v).output("1"), None);
    assert_eq!(Action::Halt.output("1"), None);
    assert_eq!(Action::Binary { op: OpCode::Add, lhs: v, rhs: v }.output("1"), None);
}

#[test]
fn errors_render_with_their_prefix() {
    assert_eq!(Error::CompileError("Unterminated string.".to_string()).render(), "Compile Error: Unterminated string.");
    assert_eq!(Error::RuntimeError(STACK_EMPTY.to_string()).render(), format!("Runtime Error: {}", STACK_EMPTY));
}

#[test]
fn a_constant_outside_the_pool_stops_the_machine_there() {
    let chunk = program(&[2.0], &[constant(0), NEGATE, constant(1), RETURN]);
    assert!(!chunk.is_well_formed());
    assert!(chunk.is_ready_at(0));
    assert!(chunk.is_ready_at(1));
    assert!(!chunk.is_ready_at(2));
    assert!(chunk.is_ready_at(3));
    assert!(chunk.is_ready_at(4));
    let mut vm = Vm::init();
    assert!(vm.ready());
    assert!(matches!(vm.interpret(chunk), Ok(Action::Echo(v)) if float(v) == 2.0));
    assert!(vm.ready());
    assert!(matches!(vm.run(), Ok(Action::Negate(v)) if float(v) == 2.0));
    vm.push(number(-2.0));
    assert!(!vm.ready());
    assert!(!vm.halted());
    assert_eq!(vm.stack().len(), 1);
}
