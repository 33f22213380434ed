//! The cellular-automaton expression algebra: construction, multiplication,
//! expansion, and the diagnostic position trail.
use std::collections::HashMap;
use ca_compiler::terms::{
    validate_debug_info_exists, AbstractExpression, Expression, Product, Term,
};

fn spawn_test_pos_empty_expr() -> Expression {
    Term::new(-1, 0, false) * Term::new(0, 0, false) * Term::new(1, 1, false)
        | Term::new(-1, 0, false) * Term::new(0, 1, false) * Term::new(1, 0, false)
        | Term::new(-1, 1, false) * Term::new(0, 1, false) * Term::new(1, 0, false)
        | Term::new(-1, 1, false) * Term::new(0, 0, false) * Term::new(1, 1, false)
        | Term::new(-1, 1, false) * Term::new(0, 1, false) * Term::new(1, 1, false)
}

fn spawn_test_neg_empty_expr() -> Expression {
    Term::new(-1, 0, false) * Term::new(0, 0, false) * Term::new(1, 0, false)
        | Term::new(-1, 0, false) * Term::new(0, 1, false) * Term::new(1, 1, false)
        | Term::new(-1, 1, false) * Term::new(0, 1, false) * Term::new(1, 1, false)
        | Term::new(-1, 0, false) * Term::new(0, 0, false) * Term::new(1, 0, false)
        | Term::new(-1, 0, false) * Term::new(0, 0, false) * Term::new(1, 0, false)
}

#[test]
fn a_test() {
    let a = Term::new(0, 1, false);
    let b = Term::new(0, 1, true);
    assert_eq!(a, b)
}

#[test]
fn expr_mul_test() {
    let a = Term::new(0, 1, false) | Term::new(1, 1, false);
    let b = Term::new(2, 1, false) | Term::new(2, 1, false);
    let c = a * b;
    println!("EXPR_MUL_TEST: {:?}", c._to_string("A"));
    assert_eq!(c._get_num_products(), 4);
}

#[test]
fn expansion_test() {
    let pos_exp: Expression = spawn_test_pos_empty_expr();
    let neg_exp: Expression = spawn_test_neg_empty_expr();

    let expr_mapping: HashMap<u8, Expression> =
        [(0, pos_exp.clone()), (1, neg_exp.clone())].iter().cloned().collect();

    let pos_seed_exp = Term::new(0, 0, false);
    let neg_seed_exp = Term::new(0, 1, false);
    let pos_expanded_expr = pos_seed_exp._expand_steps(&expr_mapping, 1);
    let neg_expanded_expr = neg_seed_exp._expand_steps(&expr_mapping, 1);

    println!("\nEXPANSION_CMP");
    println!("POS_EXPR {}", pos_expanded_expr._to_string("A"));
    println!("POS_B_EXP {}", pos_exp._to_string("A"));
    println!("NEG_B_EXP {}", neg_exp._to_string("A"));
    assert_eq!(pos_expanded_expr, pos_exp);
    assert_eq!(neg_expanded_expr, neg_exp);
}

#[test]
fn chain_expansion_test() {
    let pos_exp: Expression = spawn_test_pos_empty_expr();
    let neg_exp: Expression = spawn_test_neg_empty_expr();

    let expr_mapping: HashMap<u8, Expression> =
        [(0, pos_exp.clone()), (1, neg_exp.clone())].iter().cloned().collect();

    let pos_seed_exp = Term::new(0, 0, false) * Term::new(1, 0, false);
    let pos_expanded_expr = pos_seed_exp._expand_steps(&expr_mapping, 1);

    println!("\nEXPANSION_CMP_2");
    println!("CHAIN_POS_EXPR {}", pos_expanded_expr._to_string("A"));
    assert_eq!(pos_expanded_expr._get_product(0).unwrap()._get_num_terms(), 6);
}

#[test]
fn product_debug_info_test() {
    let pos_exp: Expression = spawn_test_pos_empty_expr();
    let neg_exp: Expression = spawn_test_neg_empty_expr();

    let expr_mapping: HashMap<u8, Expression> =
        [(0, pos_exp.clone()), (1, neg_exp.clone())].iter().cloned().collect();

    let pos_seed_prod = Term::new(0, 0, false) * Term::new(1, 0, false);

    for steps in 1..3 {
        println!("\nEXPANSION_CMP_DEBUG_{}", steps);
        let pos_expanded_expr = pos_seed_prod._expand_steps(&expr_mapping, steps);
        assert!(validate_debug_info_exists(&pos_expanded_expr));
    }
}

#[test]
fn term_debug_info_test() {
    let pos_exp: Expression = spawn_test_pos_empty_expr();
    let neg_exp: Expression = spawn_test_neg_empty_expr();

    let expr_mapping: HashMap<u8, Expression> =
        [(0, pos_exp.clone()), (1, neg_exp.clone())].iter().cloned().collect();

    let pos_seed_term = Term::new(0, 0, false);

    for steps in 1..3 {
        println!("\nEXPANSION_CMP_DEBUG_{}", steps);
        let pos_expanded_expr = pos_seed_term._expand_steps(&expr_mapping, steps);
        assert!(validate_debug_info_exists(&pos_expanded_expr));
    }
}

#[test]
fn correct_expr_pos_test() {
    let pos_exp: Expression = spawn_test_pos_empty_expr();
    let neg_exp: Expression = spawn_test_neg_empty_expr();

    let expr_mapping: HashMap<u8, Expression> =
        [(0, pos_exp.clone()), (1, neg_exp.clone())].iter().cloned().collect();

    let pos_seed_term = Term::new(0, 0, false);

    for steps in 1..3 {
        println!("\nEXPANSION_CMP_DEBUG_{}", steps);
        let pos_expanded_expr = pos_seed_term._expand_steps(&expr_mapping, steps);

        for (product_index, product) in pos_expanded_expr.products.iter().enumerate() {
            for (term_index, term) in product._terms.iter().enumerate() {
                let position_info = &term._debug_info.position_info;
                assert!(
                    position_info.is_some(),
                    "Term {:?} at product_idx {} term_idx {} does not have position info",
                    term,
                    product_index,
                    term_index
                );
                if let Some(pos_info) = position_info {
                    assert_eq!(pos_info.product_idx, product_index as u64);
                    assert_eq!(pos_info.term_idx, term_index as u64);
                }
            }
        }
    }
}

#[test]
fn correct_product_length_test() {
    let p = Term::new(0, 0, false) * Term::new(1, 0, false);
    assert_eq!(p._terms.len(), 2);
    let p_padded = p.pad_terms(5).unwrap();
    assert_eq!(p_padded._terms.len(), 5);
}

#[test]
fn substitution_reads_cells_with_a_default() {
    let mut cells: HashMap<i64, u8> = HashMap::new();
    cells.insert(0, 1);
    let holds = Term::new(0, 1, false) * Term::new(1, 0, false);
    assert!(holds._sub(&cells, 0));
    let fails = Term::new(0, 1, false) * Term::new(1, 1, false);
    assert!(!fails._sub(&cells, 0));
    let either = fails | Term::new(0, 1, false)._to_product();
    assert!(either._sub(&cells, 0));
}

#[test]
fn offsets_move_every_cell() {
    let p = Term::new(-1, 1, false) * Term::new(2, 0, false);
    let moved = p.offset(10);
    assert_eq!(moved._terms[0].position, 9);
    assert_eq!(moved._terms[1].position, 12);
    assert_eq!(moved._terms[0].state, 1);
}

#[test]
fn padding_refuses_a_shorter_length() {
    let p = Term::new(0, 0, false) * Term::new(1, 0, false);
    assert!(p.pad_terms(1).is_none());
    let e = p.to_expression();
    assert_eq!(e.pad_products(3).unwrap().products.len(), 3);
}
