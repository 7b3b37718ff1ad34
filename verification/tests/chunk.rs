use rox::chunk::{Chunk, Instruction, OpCode};
use rox::compiler::dump_line;
use rox::scanner::TokenKind;
use rox::text::{centered, decimal_text, padded, zero_padded};
use rox::value::Value;

fn number(x: f64) -> Value {
    Value::Double(x.to_bits())
}

fn texts(chunk: &Chunk) -> Vec<String> {
    chunk.constants.iter().map(|v| format!("{}", f64::from_bits(v.bits()))).collect()
}

fn sample() -> Chunk {
    let mut chunk = Chunk::new();
    let offset = chunk.add_constant(number(1.2));
    chunk.write(Instruction::Constant { op: OpCode::Constant, line: 123, offset });
    chunk.write(Instruction::Negate { op: OpCode::Negate, line: 123 });
    chunk.write(Instruction::Return { op: OpCode::Return, line: 124 });
    chunk
}

#[test]
fn write_keeps_the_line_it_was_given() {
    let mut chunk = Chunk::new();
    let lines = [1u32, 1, 7, 0, u32::MAX, 3];
    for (i, line) in lines.iter().enumerate() {
        let instruction = match i % 3 {
            0 => Instruction::Add { op: OpCode::Add, line: *line },
            1 => Instruction::Constant { op: OpCode::Constant, line: *line, offset: 9 },
            _ => Instruction::Return { op: OpCode::Return, line: *line },
        };
        chunk.write(instruction);
        assert_eq!(chunk.code.len(), i + 1);
        for (j, earlier) in lines[..=i].iter().enumerate() {
            assert_eq!(chunk.code[j].line(), *earlier);
        }
    }
    assert_eq!(chunk.code[1].opcode(), OpCode::Constant);
    assert!(chunk.constants.is_empty());
    assert!(chunk.stack.is_empty());
}

#[test]
fn constants_get_rising_indices() {
    let mut chunk = Chunk::new();
    assert_eq!(chunk.add_constant(number(1.0)), 0);
    assert_eq!(chunk.add_constant(number(1.0)), 1);
    assert_eq!(chunk.add_constant(number(2.0)), 2);
    assert_eq!(chunk.constants.len(), 3);
    assert_eq!(chunk.constants[2].bits(), 2.0f64.to_bits());
    assert!(chunk.code.is_empty());
}

#[test]
fn well_formed_chunks_name_constants_in_the_pool() {
    let mut chunk = sample();
    assert!(chunk.is_well_formed());
    chunk.write(Instruction::Constant { op: OpCode::Constant, line: 1, offset: 1 });
    assert!(!chunk.is_well_formed());
    chunk.add_constant(number(0.0));
    assert!(chunk.is_well_formed());
    assert!(Chunk::new().is_well_formed());
}

#[test]
fn listing_marks_a_shared_line_with_a_bar() {
    let chunk = sample();
    assert_eq!(
        chunk.list(&texts(&chunk)),
        "0000 123  OP_CONSTANT 0 '1.2'\n0001  |   OP_NEGATE\n0002 124  OP_RETURN\n"
    );
}

#[test]
fn listing_shows_every_operation() {
    let mut chunk = Chunk::new();
    chunk.add_constant(number(10.5));
    chunk.add_constant(number(-3.0));
    chunk.write(Instruction::Constant { op: OpCode::Constant, line: 1, offset: 1 });
    chunk.write(Instruction::Add { op: OpCode::Add, line: 2 });
    chunk.write(Instruction::Subtract { op: OpCode::Subtract, line: 2 });
    chunk.write(Instruction::Multiply { op: OpCode::Multiply, line: 10 });
    chunk.write(Instruction::Divide { op: OpCode::Divide, line: 1000 });
    chunk.write(Instruction::Negate { op: OpCode::Negate, line: 12345 });
    chunk.write(Instruction::Return { op: OpCode::Return, line: 12345 });
    let expected = "0000  1   OP_CONSTANT 1 '-3'\n\
                    0001  2   OP_ADD\n\
                    0002  |   OP_SUBTRACT\n\
                    0003  10  OP_MULTIPLY\n\
                    0004 1000 OP_DIVIDE\n\
                    0005 12345 OP_NEGATE\n\
                    0006  |   OP_RETURN\n";
    assert_eq!(chunk.list(&texts(&chunk)), expected);
}

#[test]
fn first_instruction_shows_its_line_number() {
    let mut chunk = Chunk::new();
    chunk.write(Instruction::Return { op: OpCode::Return, line: 0 });
    assert_eq!(chunk.list(&Vec::new()), "0000  0   OP_RETURN\n");
    chunk.write(Instruction::Return { op: OpCode::Return, line: 0 });
    chunk.write(Instruction::Add { op: OpCode::Add, line: 1 });
    assert_eq!(
        chunk.list(&Vec::new()),
        "0000  0   OP_RETURN\n0001  |   OP_RETURN\n0002  1   OP_ADD\n"
    );
}

#[test]
fn disassembly_has_a_heading() {
    let chunk = sample();
    assert_eq!(
        chunk.disassemble("test chunk", &texts(&chunk)),
        "\n== test chunk ==\n0000 123  OP_CONSTANT 0 '1.2'\n0001  |   OP_NEGATE\n0002 124  OP_RETURN\n\n"
    );
    assert_eq!(Chunk::new().disassemble("", &Vec::new()), "\n==  ==\n\n");
}

#[test]
fn display_functions_append_and_return_the_line() {
    let mut out = String::from(">");
    assert_eq!(Instruction::display_simple(&mut out, Some(3), 4, "OP_ADD"), 4);
    assert_eq!(out, "> 4   OP_ADD\n");
    assert_eq!(Instruction::display_simple(&mut out, Some(4), 4, "OP_RETURN"), 4);
    assert_eq!(out, "> 4   OP_ADD\n |   OP_RETURN\n");
    let mut out = String::new();
    let constants = vec!["1".to_string(), "2.5".to_string()];
    assert_eq!(Instruction::display_constant(&constants, &mut out, None, 77, 1), 77);
    assert_eq!(out, " 77  OP_CONSTANT 1 '2.5'\n");
    let mut out = String::new();
    Chunk::print_line(&mut out, 5, Some(5));
    Chunk::print_line(&mut out, 5, Some(6));
    Chunk::print_line(&mut out, 0, None);
    assert_eq!(out, " |   5   0  ");
}

#[test]
fn stack_line_brackets_each_value() {
    let mut chunk = Chunk::new();
    assert_eq!(chunk.print_stack(&Vec::new()), "\t\n");
    chunk.stack.push(number(1.0));
    chunk.stack.push(number(2.5));
    assert_eq!(chunk.print_stack(&vec!["1".to_string(), "2.5".to_string()]), "\t[1][2.5]\n");
}

#[test]
fn numbers_format_as_the_standard_formatter_does() {
    for n in [0u64, 1, 9, 10, 11, 99, 100, 101, 999, 1000, 1001, 9999, 10000, 123456, 4294967295, u64::MAX] {
        assert_eq!(decimal_text(n), format!("{}", n));
        assert_eq!(zero_padded(n), format!("{:0>4}", n));
        assert_eq!(centered(n), format!("{:^4}", n));
    }
}

#[test]
fn padding_fills_to_the_width() {
    for s in ["", "a", "Eof", "GreaterEqual", "fourteen chars", "more than fourteen"] {
        assert_eq!(padded(s, 14), format!("{:14}", s));
    }
    assert_eq!(padded("ab", 0), "ab");
}

#[test]
fn dump_lines_show_line_kind_and_lexeme() {
    assert_eq!(dump_line(TokenKind::Number, 1, 0, "12"), "1\tNumber          '12'\n");
    assert_eq!(dump_line(TokenKind::Plus, 1, 1, "+"), "|\tPlus            '+'\n");
    assert_eq!(dump_line(TokenKind::GreaterEqual, 12, 1, ">="), "12\tGreaterEqual    '>='\n");
    assert_eq!(dump_line(TokenKind::Eof, 3, 3, ""), format!("|\t{:14}  '{}'\n", "Eof", ""));
}
