//! End-to-end runs of the virtual machine.

use chicken::value::Value;
use chicken::vm::{ErrorKind, VMBuilder, VMState};

/// A source line holding the word `chicken` the given number of times.
fn chicken_line(n: usize) -> String {
    let mut parts: Vec<&str> = Vec::new();
    for _ in 0..n {
        parts.push("chicken");
    }
    parts.join(" ")
}

/// Chicken source text whose lines decode to the given opcodes.
fn source_from_opcodes(ops: &[usize]) -> String {
    let lines: Vec<String> = ops.iter().map(|&n| chicken_line(n)).collect();
    lines.join("\n")
}

/// The opcodes of a program that builds the given text and exits: the first
/// character is pushed, every further one is pushed and concatenated.
fn print_text_opcodes(text: &str) -> Vec<usize> {
    let mut ops = Vec::new();
    let mut first = true;
    for c in text.chars() {
        ops.push(c as usize + 10);
        ops.push(9);
        if !first {
            ops.push(2);
        }
        first = false;
    }
    ops.push(0);
    ops
}

#[test]
fn quine() {
    assert_eq!(
        VMBuilder::from_chicken("chicken").build().run(),
        Ok("chicken".to_string())
    )
}

#[test]
fn cat() {
    let source = source_from_opcodes(&[11, 6, 0]);
    assert_eq!(
        VMBuilder::from_chicken(&source)
            .input(Value::Str("this is a test".to_string()))
            .build()
            .run(),
        Ok("this is a test".to_string())
    )
}

#[test]
fn cat_raw_opcodes() {
    assert_eq!(
        VMBuilder::from_opcodes(vec![11, 6, 0])
            .input(Value::Str("Chicken Power".to_string()))
            .build()
            .run(),
        Ok("Chicken Power".to_string())
    )
}

#[test]
fn hello_world() {
    let source = source_from_opcodes(&print_text_opcodes("Hello world"));
    assert_eq!(
        VMBuilder::from_chicken(&source).build().run(),
        Ok("Hello world".to_string())
    )
}

#[test]
fn char_entity_decoded_on_exit() {
    // Push 72, wrap it as the entity "&#72;", exit: the run decodes it to H.
    let vm_result = VMBuilder::from_opcodes(vec![82, 9, 0]).build().run();
    assert_eq!(vm_result, Ok("H".to_string()));
}

#[test]
fn char_normal_mode() {
    let vm_result = VMBuilder::from_opcodes(vec![82, 9, 0])
        .normal_char()
        .build()
        .run();
    assert_eq!(vm_result, Ok("H".to_string()));
}

#[test]
fn char_normal_mode_rejects_negative() {
    // 0 - 1 gives -1, which names no character in normal mode.
    let vm_result = VMBuilder::from_opcodes(vec![10, 11, 3, 9])
        .normal_char()
        .build()
        .run();
    assert_eq!(vm_result.unwrap_err().kind, ErrorKind::InvalidCharacter);
}

#[test]
fn load_indexes_input_characters() {
    // Push 1, load cell 1 (the input string) at index 1.
    let vm_result = VMBuilder::from_opcodes(vec![11, 6, 1, 0])
        .input(Value::Str("abc".to_string()))
        .build()
        .run();
    assert_eq!(vm_result, Ok("b".to_string()));
}

#[test]
fn empty_program_exits_with_invalid_final_value() {
    // The sentinel exits at once; the popped top is the sentinel's neighbour,
    // the undefined input, which is not a string.
    let vm_result = VMBuilder::from_opcodes(vec![]).build().run();
    assert_eq!(
        vm_result.unwrap_err().kind,
        ErrorKind::InvalidFinalValue
    );
}

#[test]
fn negative_opcode_is_invalid() {
    let vm_result = VMBuilder::from_opcodes(vec![-1]).build().run();
    assert_eq!(vm_result.unwrap_err().kind, ErrorKind::InvalidOpcode);
}

#[test]
fn store_with_bad_address_fails() {
    // Push a value, push the word as the address: it coerces to NaN.
    let vm_result = VMBuilder::from_opcodes(vec![11, 1, 7]).build().run();
    assert_eq!(vm_result.unwrap_err().kind, ErrorKind::InvalidAddress);
}

#[test]
fn jump_with_bad_offset_fails() {
    let vm_result = VMBuilder::from_opcodes(vec![11, 1, 8]).build().run();
    assert_eq!(vm_result.unwrap_err().kind, ErrorKind::InvalidOffset);
}

#[test]
fn jump_below_stack_base_overflows() {
    // Condition 1, then 0 - 100 as the offset: far below the stack base.
    let vm_result = VMBuilder::from_opcodes(vec![11, 10, 110, 3, 8]).build().run();
    assert_eq!(vm_result.unwrap_err().kind, ErrorKind::JumpOverflow);
}

#[test]
fn store_underflow() {
    // A one-cell stack: the cell is fetched as STORE and popped as its own
    // address, and no value is left to store.
    let mut vm = VMState {
        stack: vec![Value::Num(7)],
        program_counter: 0,
        debug: false,
        normal_char: false,
        exited: false,
    };
    let err = vm.step().unwrap_err();
    assert_eq!(err.kind, ErrorKind::StackUnderflow);
}

#[test]
fn initial_layout() {
    let vm = VMBuilder::from_opcodes(vec![11, 6, 0])
        .input(Value::Str("x".to_string()))
        .build();
    assert_eq!(vm.program_counter, 2);
    assert_eq!(vm.stack.len(), 6);
    assert!(matches!(vm.stack[0], Value::Ptr(0)));
    assert!(matches!(vm.stack[2], Value::Num(11)));
    assert!(matches!(vm.stack[5], Value::Num(0)));
    assert!(!vm.exited);
}

#[test]
fn step_after_exit_is_a_no_op() {
    let mut vm = VMBuilder::from_opcodes(vec![]).build();
    while !vm.exited {
        vm.step().unwrap();
    }
    let pc = vm.program_counter;
    let len = vm.stack.len();
    assert!(vm.step().is_ok());
    assert_eq!(vm.program_counter, pc);
    assert_eq!(vm.stack.len(), len);
}

#[test]
fn rerun_after_exit_is_safe() {
    let mut vm = VMBuilder::from_chicken("chicken").build();
    assert_eq!(vm.run(), Ok("chicken".to_string()));
    // The machine stays exited; a second run performs no step and reports
    // the non-string it finds on top.
    let second = vm.run();
    assert!(vm.exited);
    assert_eq!(second.unwrap_err().kind, ErrorKind::InvalidFinalValue);
}

#[test]
fn compare_pushes_booleans() {
    // 2 == 2 leaves True on the stack; truthy JUMP takes it.
    let vm_result = VMBuilder::from_opcodes(vec![12, 12, 5, 0]).build().run();
    // COMPARE leaves True, and the exit pops it: not a string.
    assert_eq!(
        vm_result.unwrap_err().kind,
        ErrorKind::InvalidFinalValue
    );
}

#[test]
fn add_concatenates_chicken_strings() {
    // Two pushed words concatenated.
    let vm_result = VMBuilder::from_opcodes(vec![1, 1, 2, 0]).build().run();
    assert_eq!(vm_result, Ok("chickenchicken".to_string()));
}

#[test]
fn add_renders_numbers_next_to_strings() {
    // "chicken" + 32 renders the number in decimal.
    let vm_result = VMBuilder::from_opcodes(vec![1, 42, 2, 0]).build().run();
    assert_eq!(vm_result, Ok("chicken32".to_string()));
}
