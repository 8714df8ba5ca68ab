use mdnt_extractor::cells::{CellReprSize, FreshVar, Gt1, Loaded, NonZero, Zero};
use mdnt_extractor::expr::FieldConst;
use mdnt_extractor::text::append_decimal;

#[test]
fn cell_sizes() {
    assert_eq!(FreshVar::size(), 1);
    assert_eq!(Zero::<u8>::size(), 0);
    assert_eq!(Loaded::<u8>::size(), 0);
    assert_eq!(NonZero::<usize>::size(), 0);
    assert_eq!(Gt1::<Loaded<u8>>::size(), 0);
}

#[test]
fn loaded_values_accepted() {
    assert!(NonZero::accept(0u8).is_none());
    assert_eq!(NonZero::accept(5usize).unwrap().0, 5);
    assert!(Gt1::accept(Loaded(FieldConst::from_u64(0))).is_none());
    assert!(Gt1::accept(Loaded(FieldConst::from_u64(1))).is_none());
    assert!(Gt1::accept(Loaded(FieldConst::from_u64(2))).is_some());
    assert!(Gt1::accept(Loaded(FieldConst { l0: 1, l1: 1, l2: 0, l3: 0 })).is_some());
}

#[test]
fn decimal_numerals() {
    let mut s = String::from("n=");
    append_decimal(&mut s, 0);
    append_decimal(&mut s, 1398102);
    assert_eq!(s, "n=01398102");
}
