use vstd::prelude::*;
use vstd::string::*;
use crate::chunk::{Chunk, Instruction, OpCode};
use crate::error::Error;
use crate::value::Value;

verus! {

/// What the caller is to do after an instruction has run.
#[derive(Clone, Copy, Debug)]
pub enum Action {
    /// A constant was pushed: print it, then go on.
    Echo(Value),
    /// Two operands were popped: compute `lhs op rhs` and resume with it.
    Binary { op: OpCode, lhs: Value, rhs: Value },
    /// One operand was popped: negate it and resume with the result.
    Negate(Value),
    /// The program's value was popped: print it, then go on.
    Print(Value),
    /// The program produced no value: print the empty marker, then go on.
    PrintEmpty,
    /// No instruction is left.
    Halt,
}

impl Action {
    /// What the action prints, where `value` is the text of the value that
    /// it carries: that text and a line end for an echo or a result, the
    /// empty marker and a line end where there is no result, nothing for
    /// the other actions.
    pub open spec fn spec_output(self, value: Seq<char>) -> Option<Seq<char>> {
        match self {
            Action::Echo(_) | Action::Print(_) => Some(value + "\n"@),
            Action::PrintEmpty => Some("<empty>\n"@),
            _ => None,
        }
    }

    /// What the action prints, where `value` is the text of the value that
    /// it carries.
    pub fn output(&self, value: &str) -> (text: Option<String>)
        ensures
            match self.spec_output(value@) {
                Some(due) => text matches Some(given) && given@ == due,
                None => text is None,
            },
    {
        match self {
            Action::Echo(_) | Action::Print(_) => {
                let mut text = String::from_str(value);
                text.append("\n");
                Some(text)
            },
            Action::PrintEmpty => Some(String::from_str("<empty>\n")),
            _ => None,
        }
    }
}

/// The machine as a mathematical value.
pub struct Machine {
    pub code: Seq<Instruction>,
    pub constants: Seq<Value>,
    pub stack: Seq<Value>,
    pub ip: int,
}

impl Machine {
    /// The instruction pointer lies in the code.
    pub open spec fn wf(self) -> bool {
        0 <= self.ip <= self.code.len()
    }

    /// The next instruction can run: where it is a constant instruction, it
    /// names a value that the pool holds. A halted machine is ready.
    pub open spec fn ready(self) -> bool {
        self.halted() || self.code[self.ip].in_pool(self.constants.len() as int)
    }

    pub open spec fn halted(self) -> bool {
        self.ip >= self.code.len()
    }

    /// The number of operands that the next instruction must find on the
    /// stack.
    pub open spec fn operands_needed(self) -> int {
        if self.halted() {
            0
        } else {
            match self.code[self.ip].spec_opcode() {
                OpCode::Add | OpCode::Subtract | OpCode::Multiply | OpCode::Divide => 2,
                OpCode::Negate => 1,
                _ => 0,
            }
        }
    }

    /// Whether the next instruction fails for want of operands.
    pub open spec fn underflows(self) -> bool {
        self.stack.len() < self.operands_needed()
    }

    /// What the next instruction asks of the caller; `None` where it fails
    /// for want of operands.
    pub open spec fn action(self) -> Option<Action> {
        if self.halted() {
            Some(Action::Halt)
        } else if self.underflows() {
            None
        } else {
            let top = self.stack.len() - 1;
            Some(
                match self.code[self.ip] {
                    Instruction::Constant { offset, .. } => Action::Echo(
                        self.constants[offset as int],
                    ),
                    Instruction::Negate { .. } => Action::Negate(self.stack[top]),
                    Instruction::Return { .. } => if self.stack.len() == 0 {
                        Action::PrintEmpty
                    } else {
                        Action::Print(self.stack[top])
                    },
                    binary => Action::Binary {
                        op: binary.spec_opcode(),
                        lhs: self.stack[top - 1],
                        rhs: self.stack[top],
                    },
                },
            )
        }
    }

    /// The machine after its next instruction: halted with an empty stack
    /// where the instruction fails, else one instruction further, with the
    /// constant pushed or the operands popped.
    pub open spec fn next(self) -> Machine {
        if self.halted() {
            self
        } else if self.underflows() {
            Machine { stack: Seq::empty(), ip: self.code.len() as int, ..self }
        } else {
            let stack = match self.code[self.ip] {
                Instruction::Constant { offset, .. } => self.stack.push(
                    self.constants[offset as int],
                ),
                Instruction::Negate { .. } => self.stack.drop_last(),
                Instruction::Return { .. } => if self.stack.len() == 0 {
                    self.stack
                } else {
                    self.stack.drop_last()
                },
                _ => self.stack.drop_last().drop_last(),
            };
            Machine { stack, ip: self.ip + 1, ..self }
        }
    }

    /// The machine after the caller has handed in a computed value.
    pub open spec fn given(self, value: Value) -> Machine {
        Machine { stack: self.stack.push(value), ..self }
    }
}

/// The machine that starts on `chunk`: its code, pool and stack, and the
/// instruction pointer at the first instruction.
pub open spec fn loaded(chunk: Chunk) -> Machine {
    Machine { code: chunk.code@, constants: chunk.constants@, stack: chunk.stack@, ip: 0 }
}

/// Whether `result` reports what `action` says: the action itself, or the
/// failure of an empty stack.
pub open spec fn reports(result: Result<Action, Error>, action: Option<Action>) -> bool {
    match action {
        Some(due) => result matches Ok(given) && given == due,
        None => result matches Err(Error::RuntimeError(msg)) && msg@
            == "failed to get a value from the stack. The stack is empty."@,
    }
}

/// A stack machine that executes a chunk one instruction at a time and
/// leaves printing and arithmetic to its caller.
pub struct Vm {
    chunk: Chunk,
    ip: usize,
}

impl View for Vm {
    type V = Machine;

    closed spec fn view(&self) -> Machine {
        Machine {
            code: self.chunk.code@,
            constants: self.chunk.constants@,
            stack: self.chunk.stack@,
            ip: self.ip as int,
        }
    }
}

impl Default for Vm {
    fn default() -> (vm: Vm)
        ensures
            vm@.wf(),
            vm@.code.len() == 0,
            vm@.constants.len() == 0,
            vm@.stack.len() == 0,
            vm@.ip == 0,
    {
        Vm::init()
    }
}

impl Vm {
    /// A machine with no program.
    pub fn init() -> (vm: Vm)
        ensures
            vm@.wf(),
            vm@.code.len() == 0,
            vm@.constants.len() == 0,
            vm@.stack.len() == 0,
            vm@.ip == 0,
    {
        Vm { chunk: Chunk::new(), ip: 0 }
    }

    /// Takes `chunk` as the program, with the stack that it brings, and runs
    /// its first instruction.
    pub fn interpret(&mut self, chunk: Chunk) -> (result: Result<Action, Error>)
        requires
            loaded(chunk).ready(),
        ensures
            final(self)@.wf(),
            final(self)@ == loaded(chunk).next(),
            reports(result, loaded(chunk).action()),
    {
        self.chunk = chunk;
        self.ip = 0;
        self.run()
    }

    /// Runs the next instruction and says what it asks of the caller. A
    /// failure halts the machine.
    pub fn run(&mut self) -> (result: Result<Action, Error>)
        requires
            old(self)@.wf(),
            old(self)@.ready(),
        ensures
            final(self)@.wf(),
            final(self)@ == old(self)@.next(),
            reports(result, old(self)@.action()),
    {
        if self.ip >= self.chunk.code.len() {
            return Ok(Action::Halt);
        }
        let instr = self.chunk.code[self.ip];
        self.ip += 1;
        let result = match instr {
            Instruction::Constant { offset, .. } => {
                let constant = self.read_constant(offset as usize);
                self.chunk.stack.push(constant);
                Ok(Action::Echo(constant))
            },
            Instruction::Add { .. } => self.pop_operands(OpCode::Add),
            Instruction::Subtract { .. } => self.pop_operands(OpCode::Subtract),
            Instruction::Multiply { .. } => self.pop_operands(OpCode::Multiply),
            Instruction::Divide { .. } => self.pop_operands(OpCode::Divide),
            Instruction::Negate { .. } => match self.pop_from_stack() {
                Ok(value) => Ok(Action::Negate(value)),
                Err(e) => Err(e),
            },
            Instruction::Return { .. } => match self.chunk.stack.pop() {
                Some(value) => Ok(Action::Print(value)),
                None => Ok(Action::PrintEmpty),
            },
        };
        if result.is_err() {
            self.ip = self.chunk.code.len();
        }
        proof {
            assert(self@.stack =~= old(self)@.next().stack);
        }
        result
    }

    /// Pushes `value`, the result of the arithmetic that the last action
    /// asked for.
    pub fn push(&mut self, value: Value)
        requires
            old(self)@.wf(),
        ensures
            final(self)@.wf(),
            final(self)@ == old(self)@.given(value),
    {
        self.chunk.stack.push(value);
    }

    /// Pushes `value`, the result of the arithmetic that the last action
    /// asked for, and runs the next instruction.
    pub fn resume(&mut self, value: Value) -> (result: Result<Action, Error>)
        requires
            old(self)@.wf(),
            old(self)@.ready(),
        ensures
            final(self)@.wf(),
            final(self)@ == old(self)@.given(value).next(),
            reports(result, old(self)@.given(value).action()),
    {
        self.push(value);
        self.run()
    }

    /// Whether the next instruction can run: a constant instruction that
    /// names no value of the pool cannot.
    pub fn ready(&self) -> (ready: bool)
        ensures
            ready == self@.ready(),
    {
        self.chunk.is_ready_at(self.ip)
    }

    /// Whether no instruction is left to run.
    pub fn halted(&self) -> (halted: bool)
        ensures
            halted == self@.halted(),
    {
        self.ip >= self.chunk.code.len()
    }

    /// The value stack, bottom first.
    pub fn stack(&self) -> (stack: &Vec<Value>)
        ensures
            stack@ == self@.stack,
    {
        &self.chunk.stack
    }

    /// The chunk that the machine runs.
    pub fn chunk(&self) -> (chunk: &Chunk)
        ensures
            chunk.code@ == self@.code,
            chunk.constants@ == self@.constants,
            chunk.stack@ == self@.stack,
    {
        &self.chunk
    }

    fn read_constant(&self, index: usize) -> (constant: Value)
        requires
            index < self@.constants.len(),
        ensures
            constant == self@.constants[index as int],
    {
        self.chunk.constants[index]
    }

    /// Pops the right operand, then the left one. Where one is missing the
    /// stack is left empty.
    fn pop_operands(&mut self, op: OpCode) -> (result: Result<Action, Error>)
        ensures
            final(self)@.code == old(self)@.code,
            final(self)@.constants == old(self)@.constants,
            final(self)@.ip == old(self)@.ip,
            old(self)@.stack.len() >= 2 ==> final(self)@.stack == old(
                self,
            )@.stack.drop_last().drop_last() && result == Ok::<Action, Error>(
                Action::Binary {
                    op,
                    lhs: old(self)@.stack[old(self)@.stack.len() - 2],
                    rhs: old(self)@.stack.last(),
                },
            ),
            old(self)@.stack.len() < 2 ==> final(self)@.stack.len() == 0 && reports(result, None),
    {
        let rhs = match self.pop_from_stack() {
            Ok(value) => value,
            Err(e) => {
                return Err(e);
            },
        };
        let lhs = match self.pop_from_stack() {
            Ok(value) => value,
            Err(e) => {
                return Err(e);
            },
        };
        Ok(Action::Binary { op, lhs, rhs })
    }

    fn pop_from_stack(&mut self) -> (result: Result<Value, Error>)
        ensures
            final(self)@.code == old(self)@.code,
            final(self)@.constants == old(self)@.constants,
            final(self)@.ip == old(self)@.ip,
            old(self)@.stack.len() > 0 ==> final(self)@.stack == old(self)@.stack.drop_last()
                && result == Ok::<Value, Error>(old(self)@.stack.last()),
            old(self)@.stack.len() == 0 ==> final(self)@.stack.len() == 0 && (result matches Err(
                Error::RuntimeError(msg),
            ) && msg@ == "failed to get a value from the stack. The stack is empty."@),
    {
        match self.chunk.stack.pop() {
            Some(value) => Ok(value),
            None => Err(
                Error::RuntimeError(
                    String::from_str("failed to get a value from the stack. The stack is empty."),
                ),
            ),
        }
    }
}

} // verus!
