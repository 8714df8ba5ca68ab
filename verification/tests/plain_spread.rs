use mdnt_extractor::spread::spread_bound;

#[test]
fn test_2_to_the_11th() {
    let n = 11u32;
    assert_eq!(2048, 1 << n);
    assert_eq!(1398102, spread_bound(n));
}

#[test]
fn test_2_to_the_10th() {
    let n = 10u32;
    assert_eq!(1024, 1 << n);
    assert_eq!(349526, spread_bound(n));
}

#[test]
fn spread_bound_of_small_widths() {
    assert_eq!(1, spread_bound(0));
    assert_eq!(2, spread_bound(1));
    assert_eq!(6, spread_bound(2));
    assert_eq!(22, spread_bound(3));
}

#[test]
fn spread_bound_grows_with_the_width() {
    for n in 1..32u32 {
        assert!(spread_bound(n - 1) < spread_bound(n));
    }
}
