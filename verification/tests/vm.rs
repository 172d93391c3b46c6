use apoloo::bytecodes::Bytecodes;
use apoloo::opcode::OpCode;
use apoloo::value::{Value, ValueRepr};
use apoloo::vm::{InterpretResult, Step, VM, STACK_MAX};

fn chunk(code: &[u8], constants: Vec<Value>) -> Bytecodes {
    let mut chunk = Bytecodes::new();
    for byte in code {
        chunk.write(*byte);
    }
    for value in constants {
        chunk.add_const(value);
    }
    chunk
}

fn machine(code: &[u8], constants: Vec<Value>) -> VM {
    let mut vm = VM::new();
    vm.interpret(chunk(code, constants));
    vm
}

fn number(x: f64) -> Value {
    Value(ValueRepr::Number(x.to_bits()))
}

fn text(s: &str) -> Value {
    Value(ValueRepr::String(s.to_string()))
}

fn numbers_on(vm: &VM) -> Vec<f64> {
    vm.stack
        .iter()
        .map(|v| match v.0 {
            ValueRepr::Number(b) => f64::from_bits(b),
            _ => f64::NAN,
        })
        .collect()
}

fn failed(step: Step) -> bool {
    matches!(step, Step::Done(InterpretResult::InterpretRuntimeError))
}

#[test]
fn new_machine_is_empty() {
    let vm = VM::new();
    assert!(vm.is_end());
    assert_eq!(vm.ip, 0);
    assert!(vm.stack.is_empty());
    assert!(vm.globals.is_empty());
    assert_eq!(STACK_MAX, 256);
}

#[test]
fn return_ends_the_run() {
    let mut vm = machine(&[0], vec![]);
    assert!(!vm.is_end());
    assert!(matches!(vm.step(), Step::Done(InterpretResult::InterpretOk)));
    assert_eq!(vm.ip, 1);
    assert!(vm.is_end());
}

#[test]
fn running_off_the_end_is_a_runtime_error() {
    let mut vm = machine(&[7], vec![]);
    assert!(matches!(vm.step(), Step::Continue));
    assert!(failed(vm.step()));
    assert_eq!(vm.message, "Malformed bytecode.");
    assert!(vm.stack.is_empty());
}

#[test]
fn truncated_operand_is_a_runtime_error() {
    for code in [&[1u8][..], &[19, 0], &[23, 0], &[24], &[20], &[21], &[16]] {
        let mut vm = machine(code, vec![number(1.0)]);
        assert!(failed(vm.step()));
        assert_eq!(vm.message, "Malformed bytecode.");
    }
}

#[test]
fn unknown_instruction_is_a_runtime_error() {
    for byte in [25u8, 99, 255] {
        let mut vm = machine(&[byte, 0], vec![]);
        assert!(failed(vm.step()));
        assert_eq!(vm.message, "Malformed bytecode.");
    }
}

#[test]
fn constants_and_literals_are_pushed() {
    let mut vm = machine(&[1, 1, 7, 8, 9, 0], vec![number(1.0), text("two")]);
    assert!(matches!(vm.run(4), Step::Continue));
    assert_eq!(vm.ip, 5);
    assert_eq!(vm.stack.len(), 4);
    assert!(matches!(&vm.stack[0].0, ValueRepr::String(s) if s == "two"));
    assert!(matches!(vm.stack[1].0, ValueRepr::Nil()));
    assert!(matches!(vm.stack[2].0, ValueRepr::Boolean(true)));
    assert!(matches!(vm.stack[3].0, ValueRepr::Boolean(false)));
}

#[test]
fn constant_out_of_the_pool_is_a_runtime_error() {
    let mut vm = machine(&[1, 1, 0], vec![number(1.0)]);
    assert!(failed(vm.step()));
    assert_eq!(vm.message, "Malformed bytecode.");
}

#[test]
fn run_with_no_budget_does_nothing() {
    let mut vm = machine(&[7, 0], vec![]);
    assert!(matches!(vm.run(0), Step::Continue));
    assert_eq!(vm.ip, 0);
    assert!(vm.stack.is_empty());
}

#[test]
fn run_stops_at_the_first_event() {
    let mut vm = machine(&[7, 14, 8, 14, 0], vec![]);
    assert!(matches!(vm.run(100), Step::Print(Value(ValueRepr::Nil()))));
    assert_eq!(vm.ip, 2);
    assert!(matches!(vm.run(100), Step::Print(Value(ValueRepr::Boolean(true)))));
    assert!(matches!(vm.run(100), Step::Done(InterpretResult::InterpretOk)));
}

#[test]
fn pop_n_zero_does_nothing() {
    let mut vm = machine(&[7, 8, 20, 0, 0], vec![]);
    vm.run(2);
    assert!(matches!(vm.step(), Step::Continue));
    assert_eq!(vm.stack.len(), 2);
    assert_eq!(vm.ip, 4);
}

#[test]
fn pop_n_then_pop_n_zero_is_pop_n() {
    let mut with = machine(&[7, 8, 9, 20, 2, 20, 0, 0], vec![]);
    let mut without = machine(&[7, 8, 9, 20, 2, 0], vec![]);
    with.run(5);
    without.run(4);
    assert_eq!(with.stack.len(), 1);
    assert_eq!(without.stack.len(), 1);
    assert!(with.stack[0] == without.stack[0]);
    assert!(matches!(with.stack[0].0, ValueRepr::Nil()));
}

#[test]
fn pop_discards_the_top() {
    let mut vm = machine(&[7, 8, 15, 20, 1, 15], vec![]);
    vm.run(3);
    assert_eq!(vm.stack.len(), 1);
    vm.run(1);
    assert!(vm.stack.is_empty());
    assert!(failed(vm.step()));
    assert_eq!(vm.message, "Stack underflow.");
}

#[test]
fn pop_n_of_too_many_is_a_runtime_error() {
    let mut vm = machine(&[7, 20, 2], vec![]);
    vm.run(1);
    assert!(failed(vm.step()));
    assert_eq!(vm.message, "Stack underflow.");
    assert!(vm.stack.is_empty());
}

#[test]
fn locals_are_read_and_written_in_their_slots() {
    // nil, true, get 0, set 1 (writes nil over true), false, set 0
    let mut vm = machine(&[7, 8, 21, 0, 22, 1, 9, 22, 0, 0], vec![]);
    vm.run(3);
    assert_eq!(vm.stack.len(), 3);
    assert!(matches!(vm.stack[2].0, ValueRepr::Nil()));
    vm.run(1);
    assert_eq!(vm.stack.len(), 3);
    assert!(matches!(vm.stack[1].0, ValueRepr::Nil()));
    vm.run(2);
    assert_eq!(vm.stack.len(), 4);
    assert!(matches!(vm.stack[0].0, ValueRepr::Boolean(false)));
    assert!(matches!(vm.stack[3].0, ValueRepr::Boolean(false)));
}

#[test]
fn local_slot_beyond_the_stack_is_a_runtime_error() {
    let mut vm = machine(&[7, 21, 1], vec![]);
    vm.run(1);
    assert!(failed(vm.step()));
    assert_eq!(vm.message, "Stack underflow.");
    let mut vm = machine(&[22, 0], vec![]);
    assert!(failed(vm.step()));
}

#[test]
fn globals_are_defined_read_and_set() {
    // true; define g; nil; set g; pop; get g
    let mut vm = machine(&[8, 16, 0, 7, 18, 0, 15, 17, 0, 0], vec![text("g")]);
    vm.run(2);
    assert!(vm.stack.is_empty());
    assert!(matches!(vm.globals.get("g").unwrap().0, ValueRepr::Boolean(true)));
    vm.run(2);
    assert_eq!(vm.stack.len(), 1);
    assert!(matches!(vm.globals.get("g").unwrap().0, ValueRepr::Nil()));
    vm.run(2);
    assert_eq!(vm.stack.len(), 1);
    assert!(matches!(vm.stack[0].0, ValueRepr::Nil()));
}

#[test]
fn undefined_globals_are_runtime_errors() {
    let mut vm = machine(&[17, 0], vec![text("missing")]);
    assert!(failed(vm.step()));
    assert_eq!(vm.message, "Undefined variable 'missing'.");
    let mut vm = machine(&[7, 18, 0], vec![text("other")]);
    vm.run(1);
    assert!(failed(vm.step()));
    assert_eq!(vm.message, "Undefined variable 'other'.");
    assert!(vm.globals.is_empty());
}

#[test]
fn global_name_must_be_a_text() {
    for op in [16u8, 17, 18] {
        let mut vm = machine(&[7, op, 0], vec![number(1.0)]);
        vm.run(1);
        assert!(failed(vm.step()));
        assert_eq!(vm.message, "Malformed bytecode.");
        let mut vm = machine(&[7, op, 3], vec![text("g")]);
        vm.run(1);
        assert!(failed(vm.step()));
        assert_eq!(vm.message, "Malformed bytecode.");
    }
}

#[test]
fn arithmetic_is_handed_to_the_host() {
    for (byte, op) in [
        (3u8, OpCode::OpAdd),
        (4, OpCode::OpSubtract),
        (5, OpCode::OpMultiple),
        (6, OpCode::OpDivide),
    ] {
        let mut vm = machine(&[1, 0, 1, 1, byte, 0], vec![number(6.0), number(3.0)]);
        match vm.run(10) {
            Step::Arithmetic(asked, left, right) => {
                assert_eq!(asked, op);
                assert_eq!(f64::from_bits(left), 6.0);
                assert_eq!(f64::from_bits(right), 3.0);
            }
            other => panic!("{:?}", other),
        }
        assert!(vm.stack.is_empty());
        assert_eq!(vm.ip, 5);
        assert!(matches!(vm.resume(9.0f64.to_bits()), Step::Continue));
        assert_eq!(numbers_on(&vm), vec![9.0]);
        assert_eq!(vm.ip, 5);
        assert!(matches!(vm.run(10), Step::Done(InterpretResult::InterpretOk)));
    }
}

#[test]
fn arithmetic_on_other_values_is_a_runtime_error() {
    for (byte, message) in [
        (3u8, "Operands must be two numbers or two strings"),
        (4, "Operands must be numbers"),
        (5, "Operands must be numbers"),
        (6, "Operands must be numbers"),
    ] {
        for constants in [
            vec![number(1.0), text("a")],
            vec![text("a"), number(1.0)],
            vec![Value::new(), number(1.0)],
            vec![Value(ValueRepr::Boolean(true)), Value(ValueRepr::Boolean(true))],
        ] {
            let mut vm = machine(&[1, 0, 1, 1, byte, 0], constants);
            assert!(failed(vm.run(10)));
            assert_eq!(vm.message, message);
            assert_eq!(vm.ip, 4);
            assert!(vm.stack.is_empty());
        }
    }
    let mut vm = machine(&[1, 0, 1, 1, 4, 0], vec![text("a"), text("b")]);
    assert!(failed(vm.run(10)));
    assert_eq!(vm.message, "Operands must be numbers");
}

#[test]
fn texts_are_joined_by_the_machine() {
    let mut vm = machine(&[1, 0, 1, 1, 3, 0], vec![text("ab"), text("cd")]);
    assert!(matches!(vm.run(3), Step::Continue));
    assert_eq!(vm.stack.len(), 1);
    assert!(matches!(&vm.stack[0].0, ValueRepr::String(s) if s == "abcd"));
}

#[test]
fn binary_instructions_need_two_operands() {
    for byte in [3u8, 4, 5, 6, 11, 12, 13] {
        let mut vm = machine(&[7, byte], vec![]);
        vm.run(1);
        assert!(failed(vm.step()));
        assert_eq!(vm.message, "Stack underflow.");
    }
    for byte in [2u8, 10, 14, 15, 19] {
        let mut vm = machine(&[byte, 0, 0], vec![]);
        assert!(failed(vm.step()));
        assert_eq!(vm.message, "Stack underflow.");
    }
}

#[test]
fn negate_flips_the_sign() {
    let mut vm = machine(&[1, 0, 2, 1, 1, 2, 0], vec![number(1.5), number(-0.0)]);
    vm.run(4);
    assert_eq!(numbers_on(&vm), vec![-1.5, 0.0]);
    assert!(vm.stack[1] == number(0.0));
    assert!(matches!(vm.stack[1].0, ValueRepr::Number(0)));
    let mut vm = machine(&[8, 2], vec![]);
    assert!(failed(vm.run(2)));
    assert_eq!(vm.message, "Operand must be a number.");
}

#[test]
fn not_tests_truthiness() {
    let mut vm = machine(&[7, 10, 8, 10, 1, 0, 10, 0], vec![number(0.0)]);
    vm.run(6);
    assert!(matches!(vm.stack[0].0, ValueRepr::Boolean(true)));
    assert!(matches!(vm.stack[1].0, ValueRepr::Boolean(false)));
    assert!(matches!(vm.stack[2].0, ValueRepr::Boolean(false)));
}

#[test]
fn equal_and_order_compare_the_two_top_values() {
    let mut vm = machine(&[1, 0, 1, 1, 13, 1, 0, 1, 1, 12, 1, 0, 1, 0, 11, 0], vec![
        number(1.0),
        number(2.0),
    ]);
    vm.run(9);
    assert_eq!(vm.stack.len(), 3);
    assert!(matches!(vm.stack[0].0, ValueRepr::Boolean(true)));
    assert!(matches!(vm.stack[1].0, ValueRepr::Boolean(false)));
    assert!(matches!(vm.stack[2].0, ValueRepr::Boolean(true)));
    let mut vm = machine(&[1, 0, 7, 13], vec![number(1.0)]);
    assert!(failed(vm.run(3)));
    assert_eq!(vm.message, "Operands must be two numbers or two strings");
}

#[test]
fn jumps_move_the_instruction_pointer() {
    // jump +2 over "nil nil" to "true"
    let mut vm = machine(&[23, 0, 2, 7, 7, 8, 0], vec![]);
    assert!(matches!(vm.step(), Step::Continue));
    assert_eq!(vm.ip, 5);
    // 16-bit distance, high byte first
    let mut code = vec![23u8, 1, 4];
    code.extend(std::iter::repeat(7u8).take(260));
    code.push(0);
    let mut vm = machine(&code, vec![]);
    vm.step();
    assert_eq!(vm.ip, 263);
    assert!(matches!(vm.step(), Step::Done(InterpretResult::InterpretOk)));
}

#[test]
fn jump_if_false_keeps_the_condition() {
    let mut vm = machine(&[9, 19, 0, 1, 7, 0], vec![]);
    vm.run(2);
    assert_eq!(vm.ip, 5);
    assert_eq!(vm.stack.len(), 1);
    let mut vm = machine(&[8, 19, 0, 1, 7, 0], vec![]);
    vm.run(2);
    assert_eq!(vm.ip, 4);
    assert_eq!(vm.stack.len(), 1);
    let mut vm = machine(&[7, 19, 0, 1, 7, 0], vec![]);
    vm.run(2);
    assert_eq!(vm.ip, 5);
}

#[test]
fn loop_jumps_back() {
    let mut vm = machine(&[7, 15, 24, 0, 5], vec![]);
    vm.run(3);
    assert_eq!(vm.ip, 0);
    assert!(vm.stack.is_empty());
    vm.run(3);
    assert_eq!(vm.ip, 0);
}

#[test]
fn jumps_add_their_distance_wherever_it_leads() {
    let mut vm = machine(&[23, 0, 1], vec![]);
    assert!(matches!(vm.step(), Step::Continue));
    assert_eq!(vm.ip, 4);
    assert!(vm.is_end());
    assert!(failed(vm.step()));
    assert_eq!(vm.message, "Malformed bytecode.");
    let mut vm = machine(&[7, 19, 1, 0, 0], vec![]);
    vm.run(1);
    assert!(matches!(vm.process(&OpCode::OpJumpIfFalse), Step::Continue));
    assert_eq!(vm.ip, 1 + 3 + 256);
    assert_eq!(vm.stack.len(), 1);
    assert!(matches!(vm.stack[0].0, ValueRepr::Nil()));
    assert!(failed(vm.step()));
    let mut vm = machine(&[8, 19, 1, 0, 0], vec![]);
    vm.run(1);
    assert!(matches!(vm.process(&OpCode::OpJumpIfFalse), Step::Continue));
    assert_eq!(vm.ip, 4);
    assert_eq!(vm.stack.len(), 1);
    let mut vm = machine(&[23, 0, 0], vec![]);
    assert!(matches!(vm.step(), Step::Continue));
    assert_eq!(vm.ip, 3);
}

#[test]
fn loops_before_the_start_of_the_code_are_runtime_errors() {
    let mut vm = machine(&[24, 0, 4], vec![]);
    assert!(failed(vm.step()));
    assert_eq!(vm.message, "Malformed bytecode.");
    let mut vm = machine(&[24, 0, 3], vec![]);
    assert!(matches!(vm.step(), Step::Continue));
    assert_eq!(vm.ip, 0);
}

#[test]
fn the_stack_holds_no_more_than_its_limit() {
    let mut vm = machine(&[7, 24, 0, 4], vec![]);
    assert!(failed(vm.run(10_000)));
    assert_eq!(vm.message, "Stack overflow.");
    assert!(vm.stack.is_empty());
    let mut vm = machine(&[7, 24, 0, 4], vec![]);
    assert!(matches!(vm.run(2 * 256 - 1), Step::Continue));
    assert_eq!(vm.stack.len(), 256);
    assert!(failed(vm.resume(0)));
    assert_eq!(vm.message, "Stack overflow.");
}

#[test]
fn print_hands_the_value_to_the_host() {
    let mut vm = machine(&[1, 0, 14, 0], vec![text("out")]);
    match vm.run(5) {
        Step::Print(value) => assert!(matches!(&value.0, ValueRepr::String(s) if s == "out")),
        other => panic!("{:?}", other),
    }
    assert!(vm.stack.is_empty());
    assert_eq!(vm.ip, 3);
}

#[test]
fn interpret_keeps_the_globals_and_clears_the_stack() {
    let mut vm = machine(&[8, 16, 0, 7, 7], vec![text("g")]);
    vm.run(4);
    assert_eq!(vm.stack.len(), 2);
    vm.interpret(chunk(&[17, 0, 0], vec![text("g")]));
    assert_eq!(vm.ip, 0);
    assert!(vm.stack.is_empty());
    vm.run(1);
    assert!(matches!(vm.stack[0].0, ValueRepr::Boolean(true)));
    vm.free();
    assert!(vm.stack.is_empty());
    assert!(vm.globals.is_empty());
    assert!(vm.code.code.is_empty());
    assert!(vm.is_end());
}

#[test]
fn is_falsey_tests_truthiness() {
    let vm = VM::new();
    assert!(vm.is_falsey(&Value::new()));
    assert!(vm.is_falsey(&Value(ValueRepr::Boolean(false))));
    assert!(!vm.is_falsey(&Value(ValueRepr::Boolean(true))));
    assert!(!vm.is_falsey(&number(0.0)));
    assert!(!vm.is_falsey(&text("")));
}

#[test]
fn process_runs_the_instruction_at_the_pointer() {
    let mut vm = machine(&[7, 8, 20, 0, 20, 2, 0], vec![]);
    vm.run(2);
    assert!(matches!(vm.process(&OpCode::OpPopN), Step::Continue));
    assert_eq!(vm.stack.len(), 2);
    assert!(matches!(vm.stack[0].0, ValueRepr::Nil()));
    assert!(matches!(vm.stack[1].0, ValueRepr::Boolean(true)));
    assert!(vm.globals.is_empty());
    assert_eq!(vm.ip, 4);
    assert!(matches!(vm.process(&OpCode::OpPopN), Step::Continue));
    assert!(vm.stack.is_empty());
    assert_eq!(vm.ip, 6);
    assert!(matches!(vm.process(&OpCode::OpReturn), Step::Done(InterpretResult::InterpretOk)));
}

#[test]
fn pop_n_keeps_the_values_below_in_order() {
    let mut vm = machine(&[7, 8, 9, 8, 20, 2, 20, 0, 0], vec![]);
    vm.run(4);
    assert!(matches!(vm.process(&OpCode::OpPopN), Step::Continue));
    assert!(matches!(vm.process(&OpCode::OpPopN), Step::Continue));
    assert_eq!(vm.stack.len(), 2);
    assert!(matches!(vm.stack[0].0, ValueRepr::Nil()));
    assert!(matches!(vm.stack[1].0, ValueRepr::Boolean(true)));
    assert_eq!(vm.ip, 8);
}
