use mdnt_extractor::decompose::{n_leafs, DecomposeCorePattern, Patterns, RewriteError, RewriteFailure};
use mdnt_extractor::expr::{AdviceQuery, Expr, FieldConst, Phase};

fn advice(column: usize, rotation: i32) -> Expr {
    Expr::Advice(AdviceQuery { column, rotation, phase: Phase::First })
}

fn c(v: u64) -> Expr {
    Expr::Constant(FieldConst::from_u64(v))
}

fn sum(a: Expr, b: Expr) -> Expr {
    Expr::Sum(Box::new(a), Box::new(b))
}

fn product(a: Expr, b: Expr) -> Expr {
    Expr::Product(Box::new(a), Box::new(b))
}

fn neg(a: Expr) -> Expr {
    Expr::Negated(Box::new(a))
}

/// Row polynomial `c(row + 2) * a1 + a0(next) - a0`.
fn row_poly(row: usize) -> Expr {
    sum(sum(product(c(row as u64 + 2), advice(1, 0)), advice(0, 1)), neg(advice(0, 0)))
}

fn render(e: &Expr) -> String {
    match e {
        Expr::Constant(k) => format!("{}", k.l0),
        Expr::Advice(q) => format!("a{}[{}]", q.column, q.rotation),
        Expr::Sum(l, r) => format!("({} + {})", render(l), render(r)),
        Expr::Product(l, r) => format!("{}*{}", render(l), render(r)),
        Expr::Negated(l) => format!("-{}", render(l)),
        other => format!("{other:?}"),
    }
}

#[test]
fn match_gate_only_decompose_core_arith() {
    let p = DecomposeCorePattern;
    assert!(p.match_gate("arith_gate", "decompose core", 1).is_ok());
    assert_eq!(p.match_gate("arith_gate", "decompose core", 2), Err(RewriteError::NoMatch));
    assert_eq!(p.match_gate("other", "decompose core", 1), Err(RewriteError::NoMatch));
    assert_eq!(p.match_gate("arith_gate", "core", 1), Err(RewriteError::NoMatch));
}

#[test]
fn recursive_rows_unroll_into_one_equality() {
    let rows: Vec<(usize, Expr)> = (0..4).map(|r| (r, row_poly(r))).collect();
    let out = DecomposeCorePattern.rewrite_gate(vec![rows], 0);
    assert_eq!(out.len(), 1);
    assert_eq!(out[0].lhs.0, 0);
    assert_eq!(render(&out[0].lhs.1), "a0[0]");
    assert_eq!(out[0].rhs.0, 0);
    assert_eq!(
        render(&out[0].rhs.1),
        "((((2*a1[0] + 3*a1[1]) + 4*a1[2]) + a0[4]) + 5*a1[3])"
    );
}

#[test]
fn single_row_keeps_its_terms() {
    let out = DecomposeCorePattern.rewrite_gate(vec![vec![(3, row_poly(0))]], 3);
    assert_eq!(out.len(), 1);
    assert_eq!(render(&out[0].rhs.1), "(a0[1] + 2*a1[0])");
}

#[test]
fn products_are_ordered_by_coefficient() {
    // w = 9*a1 + 2*a2 + 5*a3, anchored by -a0.
    let poly = sum(
        sum(product(c(9), advice(1, 0)), product(c(2), advice(2, 0))),
        sum(product(c(5), advice(3, 0)), neg(advice(0, 0))),
    );
    let out = DecomposeCorePattern.rewrite_gate(vec![vec![(0, poly)]], 0);
    assert_eq!(render(&out[0].rhs.1), "((2*a2[0] + 5*a3[0]) + 9*a1[0])");
}

#[test]
fn missing_anchor_falls_back_to_zero_constraints() {
    let p0 = sum(product(c(2), advice(1, 0)), advice(0, 1));
    let p1 = sum(product(c(3), advice(1, 0)), advice(0, 1));
    let out = DecomposeCorePattern.rewrite_gate(vec![vec![(0, p0), (1, p1)]], 0);
    assert_eq!(out.len(), 2);
    assert_eq!(out[1].lhs.0, 1);
    assert_eq!(render(&out[1].lhs.1), "(3*a1[0] + a0[1])");
    assert_eq!(out[1].rhs.0, 1);
    assert_eq!(render(&out[1].rhs.1), "0");
}

#[test]
fn non_recursive_row_falls_back() {
    // Row 0 does not refer to the next row, and it is not the last row.
    let p0 = sum(product(c(2), advice(1, 0)), neg(advice(0, 0)));
    let out = DecomposeCorePattern.rewrite_gate(vec![vec![(0, p0), (1, row_poly(1))]], 0);
    assert_eq!(out.len(), 2);
}

#[test]
fn nested_sum_falls_back() {
    let p0 = sum(product(sum(c(1), c(2)), advice(1, 0)), neg(advice(0, 0)));
    let out = DecomposeCorePattern.rewrite_gate(vec![vec![(0, p0)]], 0);
    assert_eq!(out.len(), 1);
    assert_eq!(render(&out[0].rhs.1), "0");
}

#[test]
fn failure_messages() {
    assert_eq!(RewriteFailure::EmptyExprs.message(), "Exprs list is empty");
    assert_eq!(RewriteFailure::NotRecursive.message(), "Not recursive");
    assert_eq!(RewriteFailure::NoLhsAnchor.message(), "Could not find the lhs anchor");
}

#[test]
fn patterns_follow_the_flag() {
    assert_eq!(Patterns { decompose_core: true }.patterns().len(), 1);
    assert_eq!(Patterns { decompose_core: false }.patterns().len(), 0);
}

#[test]
fn constants_compare_numerically() {
    let small = FieldConst { l0: u64::MAX, l1: 0, l2: 0, l3: 0 };
    let big = FieldConst { l0: 0, l1: 1, l2: 0, l3: 0 };
    assert!(small.le(&big));
    assert!(!big.le(&small));
    assert!(big.le(&big));
}

#[test]
fn leaf_count_of_sum_trees() {
    let adv = |c: usize| Expr::Advice(AdviceQuery { column: c, rotation: 0, phase: Phase::First });
    assert_eq!(n_leafs(&adv(0)), 1);
    let s = Expr::Sum(Box::new(adv(0)), Box::new(Expr::Sum(Box::new(adv(1)), Box::new(adv(2)))));
    assert_eq!(n_leafs(&s), 3);
    // A sum under a product is one leaf.
    let p = Expr::Product(Box::new(s), Box::new(Expr::Constant(FieldConst::from_u64(2))));
    assert_eq!(n_leafs(&p), 1);
}
