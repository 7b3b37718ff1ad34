use vstd::prelude::*;
use vstd::string::*;
use crate::text::{center, centered, decimal, decimal_text, pad_left, zero_padded};
use crate::value::Value;

verus! {

#[derive(Clone, Copy, Debug, PartialEq, Eq, Structural)]
pub enum OpCode {
    Constant,
    Add,
    Subtract,
    Multiply,
    Divide,
    Negate,
    Return,
}

/// One operation of the stream, with the source line that produced it and,
/// for a constant, its index in the constant pool.
#[derive(Clone, Copy, Debug)]
pub enum Instruction {
    Constant { op: OpCode, line: u32, offset: u32 },
    Add { op: OpCode, line: u32 },
    Subtract { op: OpCode, line: u32 },
    Multiply { op: OpCode, line: u32 },
    Divide { op: OpCode, line: u32 },
    Negate { op: OpCode, line: u32 },
    Return { op: OpCode, line: u32 },
}

/// The name under which an operation is listed.
pub open spec fn mnemonic(op: OpCode) -> Seq<char> {
    match op {
        OpCode::Constant => "OP_CONSTANT"@,
        OpCode::Add => "OP_ADD"@,
        OpCode::Subtract => "OP_SUBTRACT"@,
        OpCode::Multiply => "OP_MULTIPLY"@,
        OpCode::Divide => "OP_DIVIDE"@,
        OpCode::Negate => "OP_NEGATE"@,
        OpCode::Return => "OP_RETURN"@,
    }
}

/// The line column of a listing: a bar where there is an instruction before
/// and the line is the line of that one, else the line's number; four
/// characters wide.
pub open spec fn line_column(line: u32, prev_line: Option<u32>) -> Seq<char> {
    if prev_line == Some(line) {
        center("|"@, 4)
    } else {
        center(decimal(line as nat), 4)
    }
}

/// The name of the instruction, for a constant its index in the pool and
/// its text in quotes, and the end of the line.
pub open spec fn operation_text(instruction: Instruction, constants: Seq<String>) -> Seq<char> {
    match instruction {
        Instruction::Constant { offset, .. } => mnemonic(OpCode::Constant) + " "@ + decimal(
            offset as nat,
        ) + " '"@ + constants[offset as int]@ + "'\n"@,
        _ => mnemonic(instruction.spec_opcode()) + "\n"@,
    }
}

/// What a listing shows of an instruction after its index: the line column,
/// a space and the operation.
pub open spec fn instruction_text(
    instruction: Instruction,
    prev_line: Option<u32>,
    constants: Seq<String>,
) -> Seq<char> {
    line_column(instruction.spec_line(), prev_line) + " "@ + operation_text(instruction, constants)
}

/// The line that the instruction before `index` carries; none for the
/// first instruction, which has no instruction before it.
pub open spec fn line_before(code: Seq<Instruction>, index: int) -> Option<u32> {
    if index <= 0 {
        None
    } else {
        Some(code[index - 1].spec_line())
    }
}

/// The listing's line for the instruction at `index`.
pub open spec fn listing_line(code: Seq<Instruction>, constants: Seq<String>, index: int) -> Seq<
    char,
> {
    pad_left(decimal(index as nat), 4, '0') + " "@ + instruction_text(
        code[index],
        line_before(code, index),
        constants,
    )
}

/// The listing of the first `count` instructions.
pub open spec fn listing(code: Seq<Instruction>, constants: Seq<String>, count: int) -> Seq<char>
    decreases count,
{
    if count <= 0 {
        Seq::empty()
    } else {
        listing(code, constants, count - 1) + listing_line(code, constants, count - 1)
    }
}

/// The texts of the first `count` values, each in square brackets.
pub open spec fn bracketed(values: Seq<String>, count: int) -> Seq<char>
    decreases count,
{
    if count <= 0 {
        Seq::empty()
    } else {
        bracketed(values, count - 1) + "["@ + values[count - 1]@ + "]"@
    }
}

impl Instruction {
    /// The source line that the instruction carries.
    pub open spec fn spec_line(self) -> u32 {
        match self {
            Instruction::Constant { line, .. } => line,
            Instruction::Add { line, .. } => line,
            Instruction::Subtract { line, .. } => line,
            Instruction::Multiply { line, .. } => line,
            Instruction::Divide { line, .. } => line,
            Instruction::Negate { line, .. } => line,
            Instruction::Return { line, .. } => line,
        }
    }

    /// The operation that the variant stands for.
    pub open spec fn spec_opcode(self) -> OpCode {
        match self {
            Instruction::Constant { .. } => OpCode::Constant,
            Instruction::Add { .. } => OpCode::Add,
            Instruction::Subtract { .. } => OpCode::Subtract,
            Instruction::Multiply { .. } => OpCode::Multiply,
            Instruction::Divide { .. } => OpCode::Divide,
            Instruction::Negate { .. } => OpCode::Negate,
            Instruction::Return { .. } => OpCode::Return,
        }
    }

    /// Whether the instruction names a constant that a pool of `pool`
    /// values holds; true of every other instruction.
    pub open spec fn in_pool(self, pool: int) -> bool {
        match self {
            Instruction::Constant { offset, .. } => offset < pool,
            _ => true,
        }
    }

    pub fn line(&self) -> (line: u32)
        ensures
            line == self.spec_line(),
    {
        match self {
            Instruction::Constant { line, .. } => *line,
            Instruction::Add { line, .. } => *line,
            Instruction::Subtract { line, .. } => *line,
            Instruction::Multiply { line, .. } => *line,
            Instruction::Divide { line, .. } => *line,
            Instruction::Negate { line, .. } => *line,
            Instruction::Return { line, .. } => *line,
        }
    }

    /// Appends the line column and `name` to `out`, ends the line, and
    /// returns `line`, the line to compare the next instruction's with.
    /// `prev_line` is the line of the instruction before, if there is one.
    pub fn display_simple(out: &mut String, prev_line: Option<u32>, line: u32, name: &str) -> (shown:
        u32)
        ensures
            shown == line,
            final(out)@ == old(out)@ + line_column(line, prev_line) + " "@ + name@ + "\n"@,
    {
        Chunk::print_line(out, line, prev_line);
        out.append(" ");
        out.append(name);
        out.append("\n");
        line
    }

    /// Appends the line column, the name of the constant instruction, the
    /// constant's index and its text in quotes to `out`, ends the line, and
    /// returns `line`.
    pub fn display_constant(
        constants: &Vec<String>,
        out: &mut String,
        prev_line: Option<u32>,
        line: u32,
        offset: u32,
    ) -> (shown: u32)
        requires
            offset < constants@.len(),
        ensures
            shown == line,
            final(out)@ == old(out)@ + line_column(line, prev_line) + " "@ + "OP_CONSTANT"@ + " "@
                + decimal(offset as nat) + " '"@ + constants@[offset as int]@ + "'\n"@,
    {
        Chunk::print_line(out, line, prev_line);
        out.append(" ");
        out.append("OP_CONSTANT");
        out.append(" ");
        out.append(decimal_text(offset as u64).as_str());
        out.append(" '");
        out.append(constants[offset as usize].as_str());
        out.append("'\n");
        line
    }

    /// What a listing shows of the instruction after its index.
    pub fn show(&self, prev_line: Option<u32>, constants: &Vec<String>) -> (text: String)
        requires
            self.in_pool(constants@.len() as int),
        ensures
            text@ == instruction_text(*self, prev_line, constants@),
    {
        let mut text = String::new();
        match *self {
            Instruction::Constant { line, offset, .. } => {
                Instruction::display_constant(constants, &mut text, prev_line, line, offset);
            },
            Instruction::Add { line, .. } => {
                Instruction::display_simple(&mut text, prev_line, line, "OP_ADD");
            },
            Instruction::Subtract { line, .. } => {
                Instruction::display_simple(&mut text, prev_line, line, "OP_SUBTRACT");
            },
            Instruction::Multiply { line, .. } => {
                Instruction::display_simple(&mut text, prev_line, line, "OP_MULTIPLY");
            },
            Instruction::Divide { line, .. } => {
                Instruction::display_simple(&mut text, prev_line, line, "OP_DIVIDE");
            },
            Instruction::Negate { line, .. } => {
                Instruction::display_simple(&mut text, prev_line, line, "OP_NEGATE");
            },
            Instruction::Return { line, .. } => {
                Instruction::display_simple(&mut text, prev_line, line, "OP_RETURN");
            },
        }
        assert(text@ =~= instruction_text(*self, prev_line, constants@));
        text
    }

    pub fn opcode(&self) -> (op: OpCode)
        ensures
            op == self.spec_opcode(),
    {
        match self {
            Instruction::Constant { .. } => OpCode::Constant,
            Instruction::Add { .. } => OpCode::Add,
            Instruction::Subtract { .. } => OpCode::Subtract,
            Instruction::Multiply { .. } => OpCode::Multiply,
            Instruction::Divide { .. } => OpCode::Divide,
            Instruction::Negate { .. } => OpCode::Negate,
            Instruction::Return { .. } => OpCode::Return,
        }
    }
}

/// A program and its execution state: the instructions in order, the
/// constant pool that they index, and the value stack.
pub struct Chunk {
    pub code: Vec<Instruction>,
    pub constants: Vec<Value>,
    pub stack: Vec<Value>,
}

impl Default for Chunk {
    fn default() -> (chunk: Chunk)
        ensures
            chunk.code@.len() == 0,
            chunk.constants@.len() == 0,
            chunk.stack@.len() == 0,
    {
        Chunk::new()
    }
}

impl Chunk {
    /// Every constant instruction names a value that the pool holds.
    pub open spec fn well_formed(&self) -> bool {
        forall|i: int|
            0 <= i < self.code@.len() ==> (#[trigger] self.code@[i]).in_pool(
                self.constants@.len() as int,
            )
    }

    /// An empty chunk.
    pub fn new() -> (chunk: Chunk)
        ensures
            chunk.code@.len() == 0,
            chunk.constants@.len() == 0,
            chunk.stack@.len() == 0,
            chunk.well_formed(),
    {
        Chunk { code: Vec::new(), constants: Vec::new(), stack: Vec::new() }
    }

    /// Appends `instruction` as it is, line included, and leaves every
    /// earlier instruction, the pool and the stack as they were.
    pub fn write(&mut self, instruction: Instruction)
        ensures
            final(self).code@ == old(self).code@.push(instruction),
            final(self).code@.last().spec_line() == instruction.spec_line(),
            final(self).constants@ == old(self).constants@,
            final(self).stack@ == old(self).stack@,
    {
        self.code.push(instruction);
    }

    /// Appends `constant` to the pool and returns its index there.
    pub fn add_constant(&mut self, constant: Value) -> (index: u32)
        requires
            old(self).constants@.len() <= u32::MAX,
        ensures
            index == old(self).constants@.len(),
            final(self).constants@ == old(self).constants@.push(constant),
            final(self).code@ == old(self).code@,
            final(self).stack@ == old(self).stack@,
    {
        self.constants.push(constant);
        let index = (self.constants.len() - 1) as u32;
        index
    }

    /// The listing of every instruction in order, one line each. `constants`
    /// holds the text of each value of the pool.
    pub fn list(&self, constants: &Vec<String>) -> (text: String)
        requires
            self.well_formed(),
            constants@.len() == self.constants@.len(),
        ensures
            text@ == listing(self.code@, constants@, self.code@.len() as int),
    {
        let mut text = String::new();
        let mut prev_line: Option<u32> = None;
        let mut index: usize = 0;
        while index < self.code.len()
            invariant
                self.well_formed(),
                constants@.len() == self.constants@.len(),
                index <= self.code@.len(),
                prev_line == line_before(self.code@, index as int),
                text@ == listing(self.code@, constants@, index as int),
            decreases self.code@.len() - index,
        {
            let ghost before = text@;
            let instruction = self.code[index];
            assert(instruction.in_pool(self.constants@.len() as int));
            let shown = instruction.show(prev_line, constants);
            text.append(zero_padded(index as u64).as_str());
            text.append(" ");
            text.append(shown.as_str());
            prev_line = Some(instruction.line());
            assert(text@ =~= before + listing_line(self.code@, constants@, index as int));
            index += 1;
        }
        text
    }

    /// The listing under a heading that holds `name`, as it is printed: an
    /// empty line, the heading, the listing, and an empty line.
    pub fn disassemble(&self, name: &str, constants: &Vec<String>) -> (text: String)
        requires
            self.well_formed(),
            constants@.len() == self.constants@.len(),
        ensures
            text@ == "\n== "@ + name@ + " ==\n"@ + listing(
                self.code@,
                constants@,
                self.code@.len() as int,
            ) + "\n"@,
    {
        let mut text = String::from_str("\n== ");
        text.append(name);
        text.append(" ==\n");
        text.append(self.list(constants).as_str());
        text.append("\n");
        text
    }

    /// The stack as one line: a tab, then the text of each value in square
    /// brackets, bottom first. `values` holds the text of each value of the
    /// stack.
    pub fn print_stack(&self, values: &Vec<String>) -> (text: String)
        requires
            values@.len() == self.stack@.len(),
        ensures
            text@ == "\t"@ + bracketed(values@, values@.len() as int) + "\n"@,
    {
        let mut text = String::from_str("\t");
        let mut i: usize = 0;
        while i < values.len()
            invariant
                i <= values@.len(),
                text@ == "\t"@ + bracketed(values@, i as int),
            decreases values@.len() - i,
        {
            text.append("[");
            text.append(values[i].as_str());
            text.append("]");
            i += 1;
            assert(text@ =~= "\t"@ + bracketed(values@, i as int));
        }
        text.append("\n");
        text
    }

    /// Appends the line column to `out`. `prev_line` is the line of the
    /// instruction before, if there is one.
    pub fn print_line(out: &mut String, line: u32, prev_line: Option<u32>)
        ensures
            final(out)@ == old(out)@ + line_column(line, prev_line),
    {
        let shared = match prev_line {
            Some(prev) => prev == line,
            None => false,
        };
        if shared {
            // The instruction before is on the same line of the source.
            proof {
                reveal_strlit("|");
                reveal_strlit(" |  ");
                assert(" |  "@ =~= center("|"@, 4));
            }
            out.append(" |  ");
        } else {
            out.append(centered(line as u64).as_str());
        }
    }

    /// Whether the instruction at `index` can run: there is none, or it is
    /// no constant instruction, or it names a value that the pool holds.
    pub fn is_ready_at(&self, index: usize) -> (ready: bool)
        ensures
            ready == (index >= self.code@.len() || self.code@[index as int].in_pool(
                self.constants@.len() as int,
            )),
    {
        if index >= self.code.len() {
            return true;
        }
        match self.code[index] {
            Instruction::Constant { offset, .. } => (offset as usize) < self.constants.len(),
            _ => true,
        }
    }

    /// Whether every constant instruction names a value that the pool holds.
    pub fn is_well_formed(&self) -> (ok: bool)
        ensures
            ok == self.well_formed(),
    {
        let mut i: usize = 0;
        while i < self.code.len()
            invariant
                i <= self.code@.len(),
                forall|j: int|
                    0 <= j < i ==> (#[trigger] self.code@[j]).in_pool(self.constants@.len() as int),
            decreases self.code@.len() - i,
        {
            match self.code[i] {
                Instruction::Constant { offset, .. } => {
                    if offset as usize >= self.constants.len() {
                        return false;
                    }
                },
                _ => {},
            }
            i += 1;
        }
        true
    }
}

} // verus!
