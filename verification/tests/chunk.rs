use rslox::chunk::{Chunk, OpCode, OpcodeLine};
use rslox::value::Value;

fn run(start: usize, end: usize, line_number: i32) -> OpcodeLine {
    OpcodeLine { start, end, line_number }
}

#[test]
fn line_table_has_one_run_per_line() {
    let mut chunk = Chunk::init();
    for line in [1, 1, 1, 2, 2] {
        chunk.write(OpCode::OpAdd, line);
    }
    chunk.end_line_parsing();
    assert_eq!(chunk.lines, vec![run(0, 2, 1), run(3, 4, 2)]);
    assert_eq!(chunk.get_line_number(2), Some(1));
    assert_eq!(chunk.get_line_number(3), Some(2));
    assert_eq!(chunk.get_line_number(0), Some(1));
    assert_eq!(chunk.get_line_number(4), Some(2));
    assert_eq!(chunk.get_line_number(5), None);
}

#[test]
fn open_run_is_not_in_the_table_until_it_is_closed() {
    let mut chunk = Chunk::init();
    chunk.write(OpCode::OpNegate, 7);
    chunk.write(OpCode::OpReturn, 7);
    assert_eq!(chunk.lines, vec![]);
    assert_eq!(chunk.get_line_number(0), None);
    chunk.end_line_parsing();
    assert_eq!(chunk.lines, vec![run(0, 1, 7)]);
    assert_eq!(chunk.get_line_number(1), Some(7));
}

#[test]
fn closing_twice_changes_nothing() {
    let mut chunk = Chunk::init();
    chunk.write(OpCode::OpReturn, 3);
    chunk.end_line_parsing();
    chunk.end_line_parsing();
    assert_eq!(chunk.lines, vec![run(0, 0, 3)]);
}

#[test]
fn closing_an_empty_chunk_adds_no_run() {
    let mut chunk = Chunk::init();
    chunk.end_line_parsing();
    assert_eq!(chunk.lines, vec![]);
    assert_eq!(chunk.code, vec![]);
}

#[test]
fn writing_after_closing_starts_a_new_run() {
    let mut chunk = Chunk::init();
    chunk.write(OpCode::OpAdd, 1);
    chunk.end_line_parsing();
    chunk.write(OpCode::OpAdd, 1);
    chunk.write(OpCode::OpAdd, 4);
    chunk.end_line_parsing();
    assert_eq!(chunk.lines, vec![run(0, 0, 1), run(1, 1, 1), run(2, 2, 4)]);
}

#[test]
fn line_may_come_back() {
    let mut chunk = Chunk::init();
    for line in [5, 6, 5] {
        chunk.write(OpCode::OpNegate, line);
    }
    chunk.end_line_parsing();
    assert_eq!(chunk.lines, vec![run(0, 0, 5), run(1, 1, 6), run(2, 2, 5)]);
    assert_eq!(chunk.get_line_number(2), Some(5));
}

#[test]
fn constants_are_numbered_in_order_and_kept_twice() {
    let mut chunk = Chunk::init();
    let one = Value::Literal(String::from("1"));
    assert_eq!(chunk.add_constant(one.clone()), 0);
    assert_eq!(chunk.add_constant(Value::Computed(9)), 1);
    assert_eq!(chunk.add_constant(one.clone()), 2);
    assert_eq!(chunk.get_constant(0), one);
    assert_eq!(chunk.get_constant(1), Value::Computed(9));
    assert_eq!(chunk.get_constant(2), one);
    assert_eq!(chunk.constants.len(), 3);
}

#[test]
fn write_appends_the_instruction() {
    let mut chunk = Chunk::init();
    chunk.write(OpCode::OpConstant(0), 1);
    chunk.write(OpCode::OpReturn, 1);
    assert_eq!(chunk.code, vec![OpCode::OpConstant(0), OpCode::OpReturn]);
}

#[test]
fn listing_has_a_row_for_each_instruction() {
    let mut chunk = Chunk::init();
    let one = chunk.add_constant(Value::Literal(String::from("1.5")));
    let two = chunk.add_constant(Value::Computed(42));
    chunk.write(OpCode::OpConstant(one), 3);
    chunk.write(OpCode::OpConstant(two), 3);
    chunk.write(OpCode::OpAdd, 12);
    chunk.write(OpCode::OpReturn, 12);
    chunk.end_line_parsing();
    assert_eq!(
        chunk.disassemble("test chunk"),
        vec![
            "== test chunk ==",
            "0000 3 OP_CONSTANT: 0 '1.5'",
            "0001 3 OP_CONSTANT: 1 '#42'",
            "0002 12 OP_ADD ",
            "0003 12 OP_RETURN ",
            "== end chunk ==",
        ]
    );
}

#[test]
fn row_shows_minus_one_where_the_table_has_no_line() {
    let mut chunk = Chunk::init();
    chunk.write(OpCode::OpNegate, 3);
    assert_eq!(chunk.disassemble_instruction(0, &OpCode::OpNegate), "0000 -1 OP_NEGATE ");
    assert_eq!(chunk.disassemble_instruction(12345, &OpCode::OpSubtract), "12345 -1 OP_SUBTRACT ");
    chunk.end_line_parsing();
    assert_eq!(chunk.disassemble_instruction(0, &OpCode::OpNegate), "0000 3 OP_NEGATE ");
}

#[test]
fn row_shows_a_negative_line() {
    let mut chunk = Chunk::init();
    chunk.write(OpCode::OpMultiply, i32::MIN);
    chunk.write(OpCode::OpDivide, -7);
    chunk.end_line_parsing();
    assert_eq!(chunk.disassemble_instruction(0, &OpCode::OpMultiply), "0000 -2147483648 OP_MULTIPLY ");
    assert_eq!(chunk.disassemble_instruction(1, &OpCode::OpDivide), "0001 -7 OP_DIVIDE ");
}

#[test]
fn instruction_names() {
    assert_eq!(OpCode::OpReturn.to_string(), "OP_RETURN");
    assert_eq!(OpCode::OpAdd.to_string(), "OP_ADD");
    assert_eq!(OpCode::OpSubtract.to_string(), "OP_SUBTRACT");
    assert_eq!(OpCode::OpMultiply.to_string(), "OP_MULTIPLY");
    assert_eq!(OpCode::OpDivide.to_string(), "OP_DIVIDE");
    assert_eq!(OpCode::OpNegate.to_string(), "OP_NEGATE");
    assert_eq!(OpCode::OpConstant(0).to_string(), "OP_CONSTANT: 0");
    assert_eq!(OpCode::OpConstant(1090).to_string(), "OP_CONSTANT: 1090");
}

#[test]
fn values_as_a_listing_shows_them() {
    assert_eq!(Value::Literal(String::from("3.14")).to_string(), "3.14");
    assert_eq!(Value::Computed(0).to_string(), "#0");
    assert_eq!(Value::Computed(u64::MAX).to_string(), "#18446744073709551615");
}
