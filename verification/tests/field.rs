use mdnt_extractor::expr::{AdviceQuery, Expr, FieldConst, Phase};
use mdnt_extractor::field::{fold_constant, fq_debug};
use mdnt_extractor::lookups::error::LookupError;

fn c(v: u64) -> Expr {
    Expr::Constant(FieldConst::from_u64(v))
}

fn r_minus(k: u64) -> FieldConst {
    FieldConst {
        l0: 0xffff_ffff_0000_0001 - k,
        l1: 0x53bd_a402_fffe_5bfe,
        l2: 0x3339_d808_09a1_d805,
        l3: 0x73ed_a753_299d_7d48,
    }
}

#[test]
fn fold_wraps_around_the_modulus() {
    // (r - 1) + 2 = 1
    let e = Expr::Sum(Box::new(Expr::Constant(r_minus(1))), Box::new(c(2)));
    assert_eq!(fold_constant(&e), Some(FieldConst::from_u64(1)));
    // -(0) = 0
    let e = Expr::Negated(Box::new(c(0)));
    assert_eq!(fold_constant(&e), Some(FieldConst::from_u64(0)));
    // -(5) = r - 5
    let e = Expr::Negated(Box::new(c(5)));
    assert_eq!(fold_constant(&e), Some(r_minus(5)));
    // (r - 1) * (r - 1) = 1
    let e = Expr::Product(Box::new(Expr::Constant(r_minus(1))), Box::new(Expr::Constant(r_minus(1))));
    assert_eq!(fold_constant(&e), Some(FieldConst::from_u64(1)));
}

#[test]
fn fold_treats_selectors_as_one() {
    let e = Expr::Scaled(Box::new(Expr::Selector(3)), FieldConst::from_u64(9));
    assert_eq!(fold_constant(&e), Some(FieldConst::from_u64(9)));
    let e = Expr::Product(Box::new(Expr::Selector(0)), Box::new(Expr::Selector(1)));
    assert_eq!(fold_constant(&e), Some(FieldConst::from_u64(1)));
}

#[test]
fn fold_of_queries_is_none() {
    let adv = Expr::Advice(AdviceQuery { column: 0, rotation: 0, phase: Phase::First });
    assert_eq!(fold_constant(&adv), None);
    assert_eq!(fold_constant(&Expr::Challenge(0)), None);
    let e = Expr::Product(Box::new(c(0)), Box::new(adv));
    assert_eq!(fold_constant(&e), None);
}

#[test]
fn large_product_is_reduced() {
    // 2^63 * 2^63 = 2^126, below the modulus.
    let big = FieldConst::from_u64(1u64 << 63);
    let e = Expr::Product(Box::new(Expr::Constant(big)), Box::new(Expr::Constant(big)));
    assert_eq!(fold_constant(&e), Some(FieldConst { l0: 0, l1: 1u64 << 62, l2: 0, l3: 0 }));
}

#[test]
fn debug_text_matches_the_curve_library() {
    for v in [0u64, 11, 255, u64::MAX] {
        let lib = format!("{:?}", midnight_curves::Fq::from(v));
        assert_eq!(fq_debug(FieldConst::from_u64(v)), lib);
    }
    assert_eq!(
        fq_debug(r_minus(1)),
        "Fq(0x73eda753299d7d483339d80809a1d80553bda402fffe5bfeffffffff00000000)"
    );
}

#[test]
fn wrong_tag_message() {
    let err = LookupError::WrongTag { tag: 12, folded: FieldConst::from_u64(11) };
    assert_eq!(
        err.message().unwrap(),
        "Was expecting tag to be equal to 12 but got Fq(0x000000000000000000000000000000000000000000000000000000000000000b)"
    );
    let expr = Expr::Sum(
        Box::new(Expr::Negated(Box::new(c(12)))),
        Box::new(Expr::Advice(AdviceQuery { column: 2, rotation: -1, phase: Phase::Second })),
    );
    assert_eq!(
        LookupError::NotConstant(expr).message().unwrap(),
        "Was expecting a constant expression but got Sum(Negated(Constant(Fq(0x000000000000000000000000000000000000000000000000000000000000000c))), Advice { column_index: 2, rotation: Rotation(-1), phase: Phase(1) })"
    );
}
