//! The code-generation backend end to end: selection, stack allocation,
//! legalization, and emission.
use ca_compiler::asm_symbols::{
    AsmGenError, AsmImmediateValue, AsmInstruction, AsmOperand, AsmProgram, AsmSymbol,
    PseudoRegister, StackAddress,
};
use ca_compiler::binary_instruction::{AsmBinaryInstruction, AsmDirectBinaryOperators};
use ca_compiler::ledger::{AppendOnlyHashMap, ToStackAllocated};
use ca_compiler::parse::{Identifier, SupportedBinaryOperators, SupportedUnaryOperators};
use ca_compiler::tacky::{
    BinaryInstruction, TackyFunction, TackyInstruction, TackyProgram, TackyValue, TackyVariable,
};
use ca_compiler::unary_instruction::AsmUnaryInstruction;

fn one_binary_program(op: SupportedBinaryOperators, left: &str, right: &str) -> TackyProgram {
    let instructions = vec![
        TackyInstruction::BinaryInstruction(BinaryInstruction::new(
            op,
            TackyValue::new_constant(left),
            TackyValue::new_constant(right),
            TackyVariable::new(0),
        )),
        TackyInstruction::Return(TackyValue::new_var(0)),
    ];
    TackyProgram {
        function: TackyFunction {
            name: Identifier::new(String::from("main")),
            instructions,
            pop_context: None,
        },
        pop_context: None,
    }
}

fn wrap_body(body: &str) -> String {
    let mut text = String::from("    .globl main\nmain:\n    pushq %rbp\n    movq %rsp, %rbp\n");
    text.push_str(body);
    text.push_str("    movq %rbp, %rsp\n    popq %rbp\n    ret\n");
    text.push_str(".section .note.GNU-stack,\"\",@progbits\n");
    text
}

#[test]
fn divide_emits_hardware_sequence() {
    let program = one_binary_program(SupportedBinaryOperators::Divide, "17", "5");
    let assembly = AsmProgram::from_tacky_program(program).unwrap().to_asm_code().unwrap();
    let expected = wrap_body(
        "    subq $4, %rsp\n    mov $17, %eax\n    cdq\n    movl $5, %r10d\n    idivl %r10d\n    mov %eax, -0(%rbp)\n    mov -0(%rbp), %eax\n",
    );
    assert_eq!(assembly, expected);
}

#[test]
fn modulo_moves_remainder_register_out() {
    let program = one_binary_program(SupportedBinaryOperators::Modulo, "17", "5");
    let assembly = AsmProgram::from_tacky_program(program).unwrap().to_asm_code().unwrap();
    let expected = wrap_body(
        "    subq $4, %rsp\n    mov $17, %eax\n    cdq\n    movl $5, %r10d\n    idivl %r10d\n    mov %edx, -0(%rbp)\n    mov -0(%rbp), %eax\n",
    );
    assert_eq!(assembly, expected);
}

#[test]
fn less_than_clears_compares_and_sets() {
    let program = one_binary_program(SupportedBinaryOperators::LessThan, "3", "5");
    let assembly = AsmProgram::from_tacky_program(program).unwrap().to_asm_code().unwrap();
    let expected = wrap_body(
        "    subq $4, %rsp\n    movl $3, %r11d\n    cmpl $5, %r11d\n    movl $0, %r10d\n    movl %r10d, -0(%rbp)\n    setl -0(%rbp)\n    mov -0(%rbp), %eax\n",
    );
    assert_eq!(assembly, expected);
}

#[test]
fn greater_than_uses_its_own_flag() {
    let program = one_binary_program(SupportedBinaryOperators::GreaterThan, "5", "3");
    let assembly = AsmProgram::from_tacky_program(program).unwrap().to_asm_code().unwrap();
    assert!(assembly.contains("setg -0(%rbp)"));
}

#[test]
fn add_expands_to_move_then_add() {
    let program = one_binary_program(SupportedBinaryOperators::Add, "1", "2");
    let assembly = AsmProgram::from_tacky_program(program).unwrap().to_asm_code().unwrap();
    let expected = wrap_body(
        "    subq $4, %rsp\n    movl $1, %r10d\n    movl %r10d, -0(%rbp)\n    addl $2, -0(%rbp)\n    mov -0(%rbp), %eax\n",
    );
    assert_eq!(assembly, expected);
}

#[test]
fn pipeline_is_deterministic() {
    let first = AsmProgram::from_tacky_program(one_binary_program(
        SupportedBinaryOperators::Divide,
        "17",
        "5",
    ))
    .unwrap()
    .to_asm_code()
    .unwrap();
    let second = AsmProgram::from_tacky_program(one_binary_program(
        SupportedBinaryOperators::Divide,
        "17",
        "5",
    ))
    .unwrap()
    .to_asm_code()
    .unwrap();
    assert_eq!(first, second);
}

#[test]
fn multiply_never_runs_on_two_stack_operands() {
    let instruction = AsmBinaryInstruction {
        operator: AsmDirectBinaryOperators::Multiply,
        source: AsmOperand::Stack(StackAddress::new(4, 4)),
        destination: AsmOperand::Stack(StackAddress::new(8, 4)),
    };
    let text = instruction.to_asm_code().unwrap();
    assert_eq!(
        text,
        "movl -4(%rbp), %r10d\nmovl -8(%rbp), %r11d\nimull %r10d, %r11d\nmovl %r11d, -8(%rbp)"
    );
}

#[test]
fn allocation_is_total_and_injective() {
    let program = TackyProgram {
        function: TackyFunction {
            name: Identifier::new(String::from("main")),
            instructions: vec![
                TackyInstruction::BinaryInstruction(BinaryInstruction::new(
                    SupportedBinaryOperators::Add,
                    TackyValue::new_constant("1"),
                    TackyValue::new_var(7),
                    TackyVariable::new(9),
                )),
                TackyInstruction::Return(TackyValue::new_var(9)),
            ],
            pop_context: None,
        },
        pop_context: None,
    };
    let asm_program = AsmProgram::from_tacky_program(program).unwrap();
    let ledger = AppendOnlyHashMap::new();
    let (_allocated, result) = asm_program.to_stack_allocated(0, &ledger);
    let entries = result.new_stack_allocations.get_inner_map().clone();
    assert_eq!(entries.len(), 2);
    let mut offsets: Vec<u64> = entries.iter().map(|e| e.1).collect();
    offsets.sort();
    offsets.dedup();
    assert_eq!(offsets.len(), 2);
    for offset in offsets {
        assert_eq!(offset % 4, 0);
    }
    let mut ids: Vec<u64> = entries.iter().map(|e| e.0).collect();
    ids.sort();
    assert_eq!(ids, vec![7, 9]);
}

#[test]
fn allocation_pass_is_idempotent() {
    let program = one_binary_program(SupportedBinaryOperators::Subtract, "9", "4");
    let asm_program = AsmProgram::from_tacky_program(program).unwrap();
    let ledger = AppendOnlyHashMap::new();
    let (allocated, first) = asm_program.to_stack_allocated(0, &ledger);
    let ledger2 = AppendOnlyHashMap::new();
    let (again, second) = allocated.to_stack_allocated(first.new_stack_value, &ledger2);
    assert_eq!(second.new_stack_value, first.new_stack_value);
    assert_eq!(second.new_stack_allocations.get_inner_map().len(), 0);
    assert_eq!(
        again.to_asm_code().unwrap().as_str(),
        allocated.clone().to_asm_code().unwrap().as_str()
    );
}

#[test]
fn pseudo_register_at_emission_is_an_internal_error() {
    let operand = AsmOperand::Pseudo(PseudoRegister::new(3, String::from("t3")));
    match operand.to_asm_code() {
        Err(AsmGenError::InvalidInstructionType(_)) => {},
        other => panic!("expected an internal-state error, got {:?}", other),
    }
}

#[test]
fn logical_not_is_unsupported_at_emission() {
    let instruction = AsmUnaryInstruction {
        operator: SupportedUnaryOperators::Not,
        destination: AsmOperand::Stack(StackAddress::new(4, 4)),
    };
    match instruction.to_asm_code() {
        Err(AsmGenError::UnsupportedInstruction(_)) => {},
        other => panic!("expected an unsupported-construct error, got {:?}", other),
    }
}

#[test]
fn assignment_operator_is_unsupported_at_selection() {
    let program = one_binary_program(SupportedBinaryOperators::AssignEqual, "1", "2");
    match AsmProgram::from_tacky_program(program) {
        Err(AsmGenError::UnsupportedInstruction(_)) => {},
        other => panic!("expected an unsupported-construct error, got {:?}", other.map(|_| ())),
    }
}

#[test]
fn immediate_values_render_with_dollar_sign() {
    assert_eq!(AsmImmediateValue::new(12345).to_asm_code().unwrap(), "$12345");
    assert_eq!(StackAddress::new(16, 4).to_asm_code().unwrap(), "-16(%rbp)");
}

#[test]
fn sign_extension_renders_alone() {
    assert_eq!(AsmInstruction::SignExtension.to_asm_code().unwrap(), "cdq");
}

#[test]
fn no_emitted_line_touches_memory_twice() {
    let instructions = vec![
        TackyInstruction::BinaryInstruction(BinaryInstruction::new(
            SupportedBinaryOperators::Add,
            TackyValue::new_var(1),
            TackyValue::new_var(2),
            TackyVariable::new(3),
        )),
        TackyInstruction::BinaryInstruction(BinaryInstruction::new(
            SupportedBinaryOperators::Multiply,
            TackyValue::new_var(1),
            TackyValue::new_var(3),
            TackyVariable::new(4),
        )),
        TackyInstruction::BinaryInstruction(BinaryInstruction::new(
            SupportedBinaryOperators::LessThan,
            TackyValue::new_var(4),
            TackyValue::new_var(2),
            TackyVariable::new(5),
        )),
        TackyInstruction::Return(TackyValue::new_var(5)),
    ];
    let program = TackyProgram {
        function: TackyFunction {
            name: Identifier::new(String::from("main")),
            instructions,
            pop_context: None,
        },
        pop_context: None,
    };
    let assembly = AsmProgram::from_tacky_program(program).unwrap().to_asm_code().unwrap();
    for line in assembly.lines() {
        let memory_operands = line.matches("(%rbp)").count();
        assert!(memory_operands <= 1, "two memory operands on one line: {}", line);
    }
}
