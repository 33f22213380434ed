//! The allocation ledger, the numeral utilities, and IR flattening.
use ca_compiler::asm_symbols::HasPopContexts;
use ca_compiler::asm_symbols::PseudoRegister;
use ca_compiler::emit::{i64_to_string, u64_to_string};
use ca_compiler::ledger::{AppendOnlyHashMap, BufferedHashMap, DiffableHashMap};
use ca_compiler::parse::{
    ASTConstant, Expression, ExpressionVariant, Operators, PoppedTokenContext,
    SupportedBinaryOperators, SupportedUnaryOperators,
};
use ca_compiler::tacky::{PrintableTacky, TackyInstruction, TackyValue};
use ca_compiler::terms::clip_after_space;

#[test]
fn ledger_refuses_duplicate_bindings() {
    let mut ledger = AppendOnlyHashMap::new();
    assert!(ledger.insert(1, 0).is_ok());
    assert!(ledger.insert(1, 4).is_err());
    assert_eq!(ledger.get(&1), Some(&0));
    assert_eq!(ledger.get(&2), None);
}

#[test]
fn overlay_reads_through_and_buffers_proposals() {
    let mut base = AppendOnlyHashMap::new();
    base.insert(1, 0).unwrap();
    let mut overlay = BufferedHashMap::new(&base);
    assert_eq!(overlay.get(&1), Some(&0));
    assert!(overlay.insert(1, 8).is_err());
    assert!(overlay.insert(2, 4).is_ok());
    assert_eq!(overlay.get(&2), Some(&4));
    assert_eq!(base.get(&2), None);
    let changes = overlay.build_changes();
    assert_eq!(changes.get(&2), Some(&4));
    assert_eq!(changes.get(&1), None);
    let mut merged = base;
    assert!(merged.apply_changes(&changes).is_ok());
    assert_eq!(merged.get(&2), Some(&4));
    assert!(merged.apply_changes(&changes).is_err());
}

#[test]
fn numerals_render_in_decimal() {
    assert_eq!(u64_to_string(0), "0");
    assert_eq!(u64_to_string(40720), "40720");
    assert_eq!(u64_to_string(u64::MAX), "18446744073709551615");
    assert_eq!(i64_to_string(-12), "-12");
    assert_eq!(i64_to_string(7), "7");
    assert_eq!(i64_to_string(i64::MIN), "-9223372036854775808");
}

#[test]
fn constants_parse_as_numbers_or_refuse() {
    assert_eq!(ASTConstant::new("17").to_u64(), Some(17));
    assert_eq!(ASTConstant::new("0").to_u64(), Some(0));
    assert_eq!(ASTConstant::new("").to_u64(), None);
    assert_eq!(ASTConstant::new("1x").to_u64(), None);
    assert_eq!(ASTConstant::new("99999999999999999999").to_u64(), None);
    assert_eq!(ASTConstant::new("65537").to_usize(), Some(65537));
}

#[test]
fn unrolling_a_unary_expression_makes_one_temporary() {
    let expr = ExpressionVariant::UnaryOperation(
        SupportedUnaryOperators::Subtract,
        Box::new(Expression::new(ExpressionVariant::Constant(ASTConstant::new("2")))),
    );
    let result = TackyInstruction::unroll_expression(&expr, 0);
    assert_eq!(result.instructions.len(), 1);
    assert_eq!(result.next_free_var_id, 1);
    match &result.value {
        TackyValue::Var(v) => assert_eq!(v.id, 0),
        other => panic!("expected a temporary, got {:?}", other),
    }
}

#[test]
fn short_circuit_unrolls_into_jumps_and_labels() {
    let one = Expression::new(ExpressionVariant::Constant(ASTConstant::new("1")));
    let zero = Expression::new(ExpressionVariant::Constant(ASTConstant::new("0")));
    let expr = ExpressionVariant::BinaryOperation(
        SupportedBinaryOperators::And,
        Box::new(one),
        Box::new(zero),
    );
    let result = TackyInstruction::unroll_expression(&expr, 0);
    assert_eq!(result.next_free_var_id, 1);
    assert_eq!(result.instructions.len(), 7);
    let mut jumps = 0;
    let mut labels = 0;
    let mut copies = 0;
    for instruction in &result.instructions {
        match instruction {
            TackyInstruction::JumpIfZeroInstruction(_) => jumps += 1,
            TackyInstruction::JumpInstruction(_) => jumps += 1,
            TackyInstruction::LabelInstruction(_) => labels += 1,
            TackyInstruction::CopyInstruction(_) => copies += 1,
            _ => {},
        }
    }
    assert_eq!(jumps, 3);
    assert_eq!(labels, 2);
    assert_eq!(copies, 2);
}

#[test]
fn provenance_renders_as_comment_lines() {
    let pseudo = PseudoRegister::new(1, String::from("t1")).with_added_pop_context(Some(
        PoppedTokenContext::new(1, 2, 10, 20),
    ));
    assert_eq!(
        pseudo.contexts_to_string(),
        "// TOKEN_RANGE[1, 2], SOURCE_RANGE[10, 20]\n"
    );
    let bare = PseudoRegister::new(2, String::from("t2"));
    assert_eq!(bare.contexts_to_string(), "\n");
}

#[test]
fn clipping_stops_at_the_first_space() {
    assert_eq!(clip_after_space(String::from("Term { position: 0 }")), "Term");
    assert_eq!(clip_after_space(String::from("bare")), "bare");
    assert_eq!(clip_after_space(String::from(" leading")), " leading");
}

#[test]
fn printing_a_return_indents_its_value() {
    let instruction = TackyInstruction::Return(TackyValue::new_var(3));
    assert_eq!(
        instruction.print_tacky_code(1),
        "    Return:\n        Var: id=3, name=\n"
    );
}

#[test]
fn operator_tables_answer_exactly() {
    assert_eq!(
        SupportedBinaryOperators::from_operator(Operators::LessThanOrEqual),
        Some(SupportedBinaryOperators::LessOrEqual)
    );
    assert_eq!(SupportedUnaryOperators::from_operator(Operators::LogicalAnd), None);
    assert!(SupportedBinaryOperators::And.is_short_circuit());
    assert!(!SupportedBinaryOperators::Add.is_short_circuit());
    assert_eq!(SupportedBinaryOperators::Multiply.to_precedence(), 50);
    assert_eq!(SupportedBinaryOperators::Or.to_precedence(), 5);
}
