use rslox::chunk::{Chunk, OpCode};
use rslox::compiler::{compile, Parser};
use rslox::value::Value;
use rslox::vm::{InterpretResult, Signal, VM};

fn decode(value: &Value) -> f64 {
    match value {
        Value::Literal(text) => text.parse().unwrap(),
        Value::Computed(bits) => f64::from_bits(*bits),
    }
}

fn encode(number: f64) -> Value {
    Value::Computed(number.to_bits())
}

/// Runs the chunk to its end, doing the arithmetic that the machine asks for.
fn run(chunk: &Chunk) -> (InterpretResult, Option<f64>) {
    let mut vm = VM::init();
    let mut signal = vm.interpret(chunk);
    loop {
        signal = match signal {
            Signal::Binary(operator, left, right) => {
                let (left, right) = (decode(&left), decode(&right));
                let result = match operator {
                    OpCode::OpAdd => left + right,
                    OpCode::OpSubtract => left - right,
                    OpCode::OpMultiply => left * right,
                    OpCode::OpDivide => left / right,
                    other => panic!("not a binary operator: {:?}", other),
                };
                vm.resume(chunk, encode(result))
            }
            Signal::Negate(operand) => vm.resume(chunk, encode(-decode(&operand))),
            Signal::Done(result, value) => return (result, value.map(|value| decode(&value))),
        }
    }
}

fn evaluate(source: &str) -> f64 {
    let (chunk, ok) = compile(source);
    assert!(ok);
    let (result, value) = run(&chunk);
    assert_eq!(result, InterpretResult::Success);
    value.unwrap()
}

fn literal(text: &str) -> Value {
    Value::Literal(String::from(text))
}

#[test]
fn multiplication_binds_tighter_than_addition() {
    assert_eq!(evaluate("2 + 3 * 4"), 14.0);
}

#[test]
fn grouping_overrides_precedence() {
    assert_eq!(evaluate("(1 + 2) * 3"), 9.0);
}

#[test]
fn negation_of_a_literal() {
    assert_eq!(evaluate("-5"), -5.0);
}

#[test]
fn subtraction_and_division_group_to_the_left() {
    assert_eq!(evaluate("10 - 4 - 3"), 3.0);
    assert_eq!(evaluate("16 / 4 / 2"), 2.0);
}

#[test]
fn unary_minus_binds_tighter_than_binary_operators() {
    assert_eq!(evaluate("-2 * 3"), -6.0);
    assert_eq!(evaluate("4 - -2"), 6.0);
    assert_eq!(evaluate("--3"), 3.0);
}

#[test]
fn fractions_and_nested_groups() {
    assert_eq!(evaluate("1.5 + 2.25"), 3.75);
    assert_eq!(evaluate("((2)) * (3 + (4 - 1))"), 12.0);
}

#[test]
fn division_by_zero_is_not_an_error() {
    assert_eq!(evaluate("1 / 0"), f64::INFINITY);
    assert!(evaluate("0 / 0").is_nan());
}

#[test]
fn comments_and_line_breaks_are_passed_over() {
    assert_eq!(evaluate("1 + // one\n 2 // two"), 3.0);
}

#[test]
fn compiled_code_is_postfix() {
    let (chunk, ok) = compile("2 + 3 * 4");
    assert!(ok);
    assert_eq!(
        chunk.code,
        vec![
            OpCode::OpConstant(0),
            OpCode::OpConstant(1),
            OpCode::OpConstant(2),
            OpCode::OpMultiply,
            OpCode::OpAdd,
            OpCode::OpReturn,
        ]
    );
    assert_eq!(chunk.constants, vec![literal("2"), literal("3"), literal("4")]);
    assert_eq!(chunk.lines.len(), 1);
    assert_eq!(chunk.get_line_number(5), Some(0));
}

#[test]
fn equal_literals_get_a_constant_each() {
    let (chunk, ok) = compile("1 + 1");
    assert!(ok);
    assert_eq!(chunk.constants, vec![literal("1"), literal("1")]);
    assert_eq!(
        chunk.code,
        vec![OpCode::OpConstant(0), OpCode::OpConstant(1), OpCode::OpAdd, OpCode::OpReturn]
    );
}

#[test]
fn instruction_is_on_the_line_of_the_token_consumed_last() {
    let (chunk, ok) = compile("1\n+\n2");
    assert!(ok);
    chunk.code.iter().for_each(|_| ());
    let lines: Vec<Option<i32>> = (0..chunk.code.len()).map(|i| chunk.get_line_number(i)).collect();
    assert_eq!(lines, vec![Some(0), Some(2), Some(2), Some(2)]);
}

#[test]
fn unmatched_parenthesis_fails_to_compile() {
    let (_, ok) = compile("(1 + 2");
    assert!(!ok);
}

#[test]
fn compile_errors_are_recorded_once_per_run() {
    let parser = Parser::compile("(1 + 2");
    assert!(parser.had_error);
    assert_eq!(parser.errors.len(), 1);
    assert_eq!(parser.errors[0].line, 0);
    assert_eq!(parser.errors[0].location, " at end");
    assert_eq!(parser.errors[0].message, "Expect ')' after expression.");
}

#[test]
fn missing_operand_fails_to_compile() {
    let parser = Parser::compile("1 +");
    assert!(parser.had_error);
    assert_eq!(parser.errors.len(), 1);
    assert_eq!(parser.errors[0].location, " at end");
    assert_eq!(parser.errors[0].message, "Expect expression.");
}

#[test]
fn trailing_tokens_fail_to_compile() {
    let parser = Parser::compile("1 2");
    assert!(parser.had_error);
    assert_eq!(parser.errors.len(), 1);
    assert_eq!(parser.errors[0].location, " at '2'");
    assert_eq!(parser.errors[0].message, "Expect end of expression.");
}

#[test]
fn empty_source_fails_to_compile() {
    let (_, ok) = compile("");
    assert!(!ok);
}

#[test]
fn lexical_error_fails_to_compile_and_is_reported_first() {
    let parser = Parser::compile("1 + @ 2\n)");
    assert!(parser.had_error);
    assert_eq!(parser.errors.len(), 1);
    assert_eq!(parser.errors[0].line, 0);
    assert_eq!(parser.errors[0].location, "");
    assert_eq!(parser.errors[0].message, "Invalid token.");
}

#[test]
fn unterminated_string_fails_to_compile() {
    let (_, ok) = compile("1 + \"abc");
    assert!(!ok);
}

#[test]
fn add_without_operands_is_a_runtime_error() {
    let mut chunk = Chunk::init();
    chunk.write(OpCode::OpAdd, 1);
    chunk.end_line_parsing();
    let (result, value) = run(&chunk);
    assert_eq!(result, InterpretResult::RuntimeError);
    assert_eq!(value, None);
}

#[test]
fn binary_operator_with_one_operand_is_a_runtime_error() {
    for operator in [OpCode::OpAdd, OpCode::OpSubtract, OpCode::OpMultiply, OpCode::OpDivide] {
        let mut chunk = Chunk::init();
        let index = chunk.add_constant(literal("1"));
        chunk.write(OpCode::OpConstant(index), 1);
        chunk.write(operator, 1);
        let mut vm = VM::init();
        assert_eq!(vm.interpret(&chunk), Signal::Done(InterpretResult::RuntimeError, None));
        assert_eq!(vm.stack, vec![literal("1")]);
        assert_eq!(vm.ip, None);
    }
}

#[test]
fn negate_without_operand_is_a_runtime_error() {
    let mut chunk = Chunk::init();
    chunk.write(OpCode::OpNegate, 1);
    let (result, _) = run(&chunk);
    assert_eq!(result, InterpretResult::RuntimeError);
}

#[test]
fn return_on_an_empty_stack_succeeds_without_a_value() {
    let mut chunk = Chunk::init();
    chunk.write(OpCode::OpReturn, 1);
    assert_eq!(run(&chunk), (InterpretResult::Success, None));
}

#[test]
fn running_off_the_end_succeeds_without_a_value() {
    let mut chunk = Chunk::init();
    let index = chunk.add_constant(literal("1"));
    chunk.write(OpCode::OpConstant(index), 1);
    assert_eq!(run(&chunk), (InterpretResult::Success, None));
    assert_eq!(run(&Chunk::init()), (InterpretResult::Success, None));
}

#[test]
fn return_ends_the_run() {
    let mut chunk = Chunk::init();
    let index = chunk.add_constant(literal("8"));
    chunk.write(OpCode::OpConstant(index), 1);
    chunk.write(OpCode::OpReturn, 1);
    chunk.write(OpCode::OpAdd, 1);
    assert_eq!(run(&chunk), (InterpretResult::Success, Some(8.0)));
}

#[test]
fn machine_hands_out_operands_left_then_right() {
    let mut chunk = Chunk::init();
    let seven = chunk.add_constant(literal("7"));
    let two = chunk.add_constant(literal("2"));
    chunk.write(OpCode::OpConstant(seven), 1);
    chunk.write(OpCode::OpConstant(two), 1);
    chunk.write(OpCode::OpSubtract, 1);
    chunk.write(OpCode::OpReturn, 1);
    let mut vm = VM::init();
    assert_eq!(vm.interpret(&chunk), Signal::Binary(OpCode::OpSubtract, literal("7"), literal("2")));
    assert_eq!(vm.ip, Some(3));
    assert_eq!(vm.stack, vec![]);
    assert_eq!(
        vm.resume(&chunk, Value::Computed(5)),
        Signal::Done(InterpretResult::Success, Some(Value::Computed(5)))
    );
    assert_eq!(vm.ip, None);
}

#[test]
fn stack_does_not_leak_into_the_next_run() {
    let mut chunk = Chunk::init();
    let index = chunk.add_constant(literal("1"));
    chunk.write(OpCode::OpConstant(index), 1);
    chunk.write(OpCode::OpConstant(index), 1);
    chunk.write(OpCode::OpNegate, 1);
    let mut vm = VM::init();
    assert_eq!(vm.interpret(&chunk), Signal::Negate(literal("1")));
    assert_eq!(vm.stack, vec![literal("1")]);
    let mut only_add = Chunk::init();
    only_add.write(OpCode::OpAdd, 1);
    assert_eq!(vm.interpret(&only_add), Signal::Done(InterpretResult::RuntimeError, None));
    assert_eq!(vm.stack, vec![]);
}

#[test]
fn resuming_a_machine_that_is_not_running_does_nothing() {
    let mut vm = VM::init();
    let chunk = Chunk::init();
    assert_eq!(vm.resume(&chunk, Value::Computed(1)), Signal::Done(InterpretResult::Success, None));
    assert_eq!(vm.stack, vec![]);
}

#[test]
fn source_that_does_not_compile_is_not_run() {
    let mut vm = VM::init();
    vm.stack.push(Value::Computed(3));
    vm.ip = Some(9);
    let (parser, signal) = vm.interpret_source("(1 + 2");
    assert_eq!(signal, Signal::Done(InterpretResult::CompileError, None));
    assert!(parser.had_error);
    assert_eq!(parser.errors.len(), 1);
    assert_eq!(vm.stack, vec![Value::Computed(3)]);
    assert_eq!(vm.ip, Some(9));
}

#[test]
fn source_that_compiles_is_run_up_to_its_first_operation() {
    let mut vm = VM::init();
    let (parser, signal) = vm.interpret_source("6 / (1 + 2)");
    assert!(!parser.had_error);
    assert_eq!(signal, Signal::Binary(OpCode::OpAdd, literal("1"), literal("2")));
    assert_eq!(vm.stack, vec![literal("6")]);
    let signal = vm.resume(&parser.chunk, Value::Computed(33));
    assert_eq!(signal, Signal::Binary(OpCode::OpDivide, literal("6"), Value::Computed(33)));
    let signal = vm.resume(&parser.chunk, Value::Computed(2));
    assert_eq!(signal, Signal::Done(InterpretResult::Success, Some(Value::Computed(2))));
}

#[test]
fn source_of_one_number_returns_the_literal() {
    let mut vm = VM::init();
    let (_, signal) = vm.interpret_source("  42.0 ");
    assert_eq!(signal, Signal::Done(InterpretResult::Success, Some(literal("42.0"))));
    assert_eq!(vm.ip, None);
    assert_eq!(vm.stack, vec![]);
}

#[test]
fn compiled_chunk_has_its_constants_in_range() {
    let (chunk, ok) = compile("1 + 2 * (3 - 4)");
    assert!(ok);
    assert!(chunk.has_constants_in_range());
    let mut broken = Chunk::init();
    broken.add_constant(literal("1"));
    broken.write(OpCode::OpConstant(0), 1);
    assert!(broken.has_constants_in_range());
    broken.write(OpCode::OpConstant(1), 1);
    assert!(!broken.has_constants_in_range());
}
