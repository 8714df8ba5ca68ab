use mdnt_extractor::expr::{AdviceQuery, Expr, FieldConst, Phase, Query};
use mdnt_extractor::ir::{BoolExpr, Lookup, Operand, Stmt, Temps};
use mdnt_extractor::lookups::automaton::{AutomatonLookup, IgnoreLookup};
use mdnt_extractor::lookups::error::LookupError;
use mdnt_extractor::lookups::mux::{HandlerSlot, LookupMux};
use mdnt_extractor::lookups::plain_spread::PlainSpreadLookup;
use mdnt_extractor::lookups::plain_spread3::{
    AnySpread, PlainSpreadLookup3, Spread12, SpreadByTag, SpreadByteLookup,
};
use mdnt_extractor::lookups::range::{indices_valid, to_set, TagRangeLookup};

fn advice(column: usize, rotation: i32) -> Expr {
    Expr::Advice(AdviceQuery { column, rotation, phase: Phase::First })
}

fn fixed(column: usize) -> Expr {
    Expr::Fixed(Query { column, rotation: 0 })
}

fn lookup(name: &str, inputs: Vec<Expr>) -> Lookup {
    Lookup { name: name.to_string(), idx: 0, inputs }
}

fn constant_of(op: &Operand) -> u64 {
    match op {
        Operand::Expr(Expr::Constant(c)) => {
            assert_eq!((c.l1, c.l2, c.l3), (0, 0, 0));
            c.l0
        }
        other => panic!("not a constant: {other:?}"),
    }
}

/// The statement and the lookup it is located at.
fn located(s: Stmt) -> (Stmt, String, usize) {
    match s {
        Stmt::AtLookup(name, idx, body) => (*body, name, idx),
        other => panic!("not located: {other:?}"),
    }
}

fn inner(s: &Stmt) -> &Stmt {
    match s {
        Stmt::AtLookup(_, _, body) => body,
        other => other,
    }
}

fn is_temp(op: &Operand, t: usize) -> bool {
    matches!(op, Operand::Temp(x) if *x == t)
}

#[test]
fn spread3_any_spread_bounds_rows() {
    let handler = PlainSpreadLookup3::new("spread", "unspread", AnySpread);
    let mut temps = Temps::new();
    let stmt = handler
        .on_lookup(&lookup("any", vec![advice(3, 0)]), &mut temps)
        .unwrap();
    assert_eq!(temps.next, 2);
    let parts = match stmt {
        Stmt::Sequence(v) => v,
        other => panic!("{other:?}"),
    };
    assert_eq!(parts.len(), 3);
    let rows = match &parts[0] {
        Stmt::Assert(BoolExpr::Or(rows)) => rows,
        other => panic!("{other:?}"),
    };
    assert_eq!(rows.len(), 14);
    for (t, row) in rows.iter().enumerate() {
        let atoms = match row {
            BoolExpr::And(a) => a,
            other => panic!("{other:?}"),
        };
        assert_eq!(atoms.len(), 3);
        match (&atoms[0], &atoms[1], &atoms[2]) {
            (BoolExpr::Eq(tag, tv), dense_check, spread_check) => {
                assert_eq!(constant_of(tag), 13);
                assert_eq!(constant_of(tv), t as u64);
                if t == 0 {
                    assert!(matches!(dense_check, BoolExpr::Eq(d, z) if is_temp(d, 0) && constant_of(z) == 0));
                    assert!(matches!(spread_check, BoolExpr::Eq(_, z) if constant_of(z) == 0));
                } else {
                    assert!(matches!(dense_check, BoolExpr::Lt(d, b) if is_temp(d, 0) && constant_of(b) == 1u64 << t));
                    assert!(matches!(spread_check, BoolExpr::Le(_, b) if constant_of(b) == (8u64.pow(t as u32) - 1) / 7));
                }
            }
            other => panic!("{other:?}"),
        }
    }
    // The spread call writes temporary 1, constrained to the spread value; the unspread
    // call writes straight into the dense temporary.
    match &parts[1] {
        Stmt::Sequence(c) => {
            assert!(matches!(&c[0], Stmt::Call(m, ins, outs) if m == "spread" && is_temp(&ins[0], 0) && outs == &vec![1]));
            assert!(matches!(&c[1], Stmt::Eq(Operand::Expr(_), t) if is_temp(t, 1)));
        }
        other => panic!("{other:?}"),
    }
    match &parts[2] {
        Stmt::Sequence(c) => {
            assert!(matches!(&c[0], Stmt::Call(m, _, outs) if m == "unspread" && outs == &vec![0]));
            assert!(matches!(&c[1], Stmt::Empty));
        }
        other => panic!("{other:?}"),
    }
}

#[test]
fn spread3_byte_lookup_uses_dense_input() {
    let handler = PlainSpreadLookup3::new("spread", "unspread", SpreadByteLookup);
    let mut temps = Temps { next: 7 };
    let inputs = vec![Expr::Constant(FieldConst::from_u64(8)), advice(1, 0), advice(2, 0)];
    let stmt = handler
        .on_lookup(&lookup("byte", inputs), &mut temps)
        .unwrap();
    assert_eq!(temps.next, 9);
    let parts = match stmt {
        Stmt::Sequence(v) => v,
        other => panic!("{other:?}"),
    };
    match &parts[2] {
        Stmt::Sequence(c) => {
            assert!(matches!(&c[0], Stmt::Call(m, _, outs) if m == "unspread" && outs == &vec![8]));
            assert!(matches!(&c[1], Stmt::Eq(Operand::Expr(Expr::Advice(q)), t) if q.column == 1 && is_temp(t, 8)));
        }
        other => panic!("{other:?}"),
    }
}

#[test]
fn spread3_by_tag_ends_with_the_tag_12_bound() {
    let handler = PlainSpreadLookup3::new("s", "u", SpreadByTag);
    let mut temps = Temps::new();
    let stmt = handler.on_lookup(&lookup("bytag", vec![advice(0, 0), advice(1, 0)]), &mut temps).unwrap();
    let parts = match stmt {
        Stmt::Sequence(v) => v,
        other => panic!("{other:?}"),
    };
    match &parts[0] {
        Stmt::Assert(BoolExpr::Or(rows)) => {
            assert_eq!(rows.len(), 15);
            assert!(matches!(&rows[13], BoolExpr::And(a) if a.len() == 3));
            assert!(matches!(&rows[14], BoolExpr::Le(Operand::Expr(Expr::Advice(q)), b)
                if q.column == 1 && constant_of(b) == (8u64.pow(12) - 1) / 7));
        }
        other => panic!("{other:?}"),
    }
    // The other modes keep the fourteen rows.
    let handler = PlainSpreadLookup3::new("s", "u", AnySpread);
    let stmt = handler.on_lookup(&lookup("any", vec![advice(0, 0)]), &mut temps).unwrap();
    match stmt {
        Stmt::Sequence(v) => assert!(matches!(&v[0], Stmt::Assert(BoolExpr::Or(rows)) if rows.len() == 14)),
        other => panic!("{other:?}"),
    }
}

#[test]
fn spread3_input_count_error() {
    let handler = PlainSpreadLookup3::new("s", "u", SpreadByTag);
    let mut temps = Temps::new();
    let err = handler
        .on_lookup(&lookup("bytag", vec![advice(0, 0)]), &mut temps)
        .unwrap_err();
    assert!(matches!(err, LookupError::InputCount { expected: 2, got: 1 }));
    assert_eq!(err.message().unwrap(), "Lookup mode expects 2 inputs but got 1");
    assert_eq!(temps.next, 0);
}

#[test]
fn spread3_tag_checks() {
    let handler = PlainSpreadLookup3::new("s", "u", Spread12);
    let mut temps = Temps::new();
    let inputs = vec![fixed(0), advice(1, 0)];
    let err = handler
        .on_lookup(&lookup("twelve", inputs), &mut temps)
        .unwrap_err();
    assert!(matches!(err, LookupError::NotConstant(Expr::Fixed(_))));
    assert_eq!(
        err.message().unwrap(),
        "Was expecting a constant expression but got Fixed { column_index: 0, rotation: Rotation(0) }"
    );
    let inputs = vec![Expr::Constant(FieldConst::from_u64(11)), advice(1, 0)];
    let err = handler
        .on_lookup(&lookup("twelve", inputs), &mut temps)
        .unwrap_err();
    assert!(matches!(err, LookupError::WrongTag { tag: 12, folded } if folded == FieldConst::from_u64(11)));
    assert_eq!(temps.next, 0);
    let inputs = vec![Expr::Constant(FieldConst::from_u64(12)), advice(1, 0)];
    assert!(handler.on_lookup(&lookup("twelve", inputs), &mut temps).is_ok());
    assert_eq!(temps.next, 2);
}

#[test]
fn spread3_tag_folds_with_selectors_on() {
    let handler = PlainSpreadLookup3::new("s", "u", Spread12);
    let mut temps = Temps::new();
    // q * 5 + 7 with the selector on.
    let tag = Expr::Sum(
        Box::new(Expr::Product(
            Box::new(Expr::Selector(0)),
            Box::new(Expr::Constant(FieldConst::from_u64(5))),
        )),
        Box::new(Expr::Constant(FieldConst::from_u64(7))),
    );
    assert!(handler.on_lookup(&lookup("twelve", vec![tag, advice(1, 0)]), &mut temps).is_ok());
    // 3 scaled by 4.
    let tag = Expr::Scaled(Box::new(Expr::Constant(FieldConst::from_u64(3))), FieldConst::from_u64(4));
    assert!(handler.on_lookup(&lookup("twelve", vec![tag, advice(1, 0)]), &mut temps).is_ok());
    // -(1) is r - 1 in the field.
    let tag = Expr::Negated(Box::new(Expr::Constant(FieldConst::from_u64(1))));
    let err = handler
        .on_lookup(&lookup("twelve", vec![tag, advice(1, 0)]), &mut temps)
        .unwrap_err();
    let r_minus_one = FieldConst {
        l0: 0xffff_ffff_0000_0000,
        l1: 0x53bd_a402_fffe_5bfe,
        l2: 0x3339_d808_09a1_d805,
        l3: 0x73ed_a753_299d_7d48,
    };
    assert!(matches!(err, LookupError::WrongTag { tag: 12, folded } if folded == r_minus_one));
    // A sum with a query in it folds to no constant.
    let tag = Expr::Sum(Box::new(Expr::Constant(FieldConst::from_u64(12))), Box::new(advice(0, 0)));
    let err = handler
        .on_lookup(&lookup("twelve", vec![tag, advice(1, 0)]), &mut temps)
        .unwrap_err();
    assert!(matches!(err, LookupError::NotConstant(Expr::Sum(_, _))));
    // 13 + (-1) is 12.
    let tag = Expr::Sum(
        Box::new(Expr::Constant(FieldConst::from_u64(13))),
        Box::new(Expr::Negated(Box::new(Expr::Constant(FieldConst::from_u64(1))))),
    );
    assert!(handler.on_lookup(&lookup("twelve", vec![tag, advice(1, 0)]), &mut temps).is_ok());
}

#[test]
fn plain_spread_lookup_statement() {
    let handler = PlainSpreadLookup::new("spread", "unspread");
    let mut temps = Temps { next: 4 };
    let mut sha = lookup("sha", vec![fixed(0), advice(1, 0), advice(2, 0)]);
    sha.idx = 7;
    let stmt = handler.on_lookup(&sha, &mut temps);
    assert_eq!(temps.next, 6);
    let (body, name, idx) = located(stmt);
    assert_eq!((name.as_str(), idx), ("sha", 7));
    let parts = match body {
        Stmt::Sequence(v) => v,
        other => panic!("{other:?}"),
    };
    assert_eq!(parts.len(), 5);
    // Every statement of the sequence carries the lookup's location.
    for p in &parts {
        assert!(matches!(p, Stmt::AtLookup(n, 7, _) if n == "sha"));
    }
    let rows = match inner(&parts[0]) {
        Stmt::Assert(BoolExpr::Or(rows)) => rows,
        other => panic!("{other:?}"),
    };
    // Tag 0 and the ten widths of the table.
    assert_eq!(rows.len(), 11);
    match &rows[9] {
        BoolExpr::And(atoms) => {
            assert_eq!(atoms.len(), 3);
            assert!(matches!(&atoms[0], BoolExpr::Eq(_, t) if constant_of(t) == 11));
            assert!(matches!(&atoms[1], BoolExpr::Lt(_, b) if constant_of(b) == 2048));
            assert!(matches!(&atoms[2], BoolExpr::Lt(_, b) if constant_of(b) == 1398102));
        }
        other => panic!("{other:?}"),
    }
    assert!(matches!(inner(&parts[1]), Stmt::Call(m, _, outs) if m == "spread" && outs == &vec![4]));
    assert!(matches!(inner(&parts[3]), Stmt::Call(m, _, outs) if m == "unspread" && outs == &vec![5]));
}

#[test]
fn plain_spread_pair_count_error() {
    let handler = PlainSpreadLookup::new("spread", "unspread");
    let mut temps = Temps::new();
    let lookups = vec![
        lookup("a", vec![fixed(0), advice(1, 0), advice(2, 0)]),
        lookup("b", vec![fixed(0), advice(1, 0), advice(2, 0)]),
        lookup("c", vec![fixed(0), advice(1, 0), advice(2, 0)]),
    ];
    let err = handler.on_lookups(&lookups, &mut temps).unwrap_err();
    assert_eq!(
        err.message().unwrap(),
        "Unexpected input. Was expecting two lookups but got 3: a, b, c"
    );
    // Without two lookups the inputs are not read: short ones are refused by count.
    let short = vec![lookup("x", vec![])];
    let err = handler.on_lookups(&short, &mut temps).unwrap_err();
    assert_eq!(err.message().unwrap(), "Unexpected input. Was expecting two lookups but got 1: x");
    assert_eq!(temps.next, 0);
    let pair = vec![
        lookup("a", vec![fixed(0), advice(1, 0), advice(2, 0)]),
        lookup("b", vec![fixed(0), advice(3, 0), advice(4, 0)]),
    ];
    let stmt = handler.on_lookups(&pair, &mut temps).unwrap();
    assert_eq!(temps.next, 4);
    match stmt {
        Stmt::Sequence(v) => {
            assert_eq!(v.len(), 3);
            // Both axioms conclude that the second spread value, then the first, is
            // determined.
            for stmt in &v[1..] {
                match stmt {
                    Stmt::Assert(BoolExpr::Implies(_, rhs)) => match &**rhs {
                        BoolExpr::And(both) => {
                            assert!(matches!(&both[0], BoolExpr::Det(Operand::Expr(Expr::Advice(q))) if q.column == 4));
                            assert!(matches!(&both[1], BoolExpr::Det(Operand::Expr(Expr::Advice(q))) if q.column == 2));
                        }
                        other => panic!("{other:?}"),
                    },
                    other => panic!("{other:?}"),
                }
            }
        }
        other => panic!("{other:?}"),
    }
}

#[test]
fn range_indices_validation() {
    assert!(indices_valid([0], [1, 2]));
    assert!(!indices_valid([0, 0], [1]));
    assert!(!indices_valid([0], [1, 1]));
    assert!(!indices_valid([1], [0, 1]));
    let set = to_set([3, 1, 3]);
    assert_eq!(set.len(), 2);
    assert!(set.contains(&1) && set.contains(&3));
}

#[test]
fn range_lookup_rows() {
    let c = FieldConst::from_u64;
    let lookup_handler = TagRangeLookup::new([0], [1], vec![([c(1)], [c(4)]), ([c(2)], [c(16)])]);
    let stmt = lookup_handler.on_lookup(&lookup("r", vec![fixed(0), advice(5, 0)]));
    let (stmt, name, idx) = located(stmt);
    assert_eq!((name.as_str(), idx), ("r", 0));
    match stmt {
        Stmt::Assert(BoolExpr::Or(rows)) => {
            assert_eq!(rows.len(), 2);
            assert!(matches!(&rows[1], BoolExpr::And(a) if a.len() == 2
                && matches!(&a[0], BoolExpr::Eq(Operand::Expr(Expr::Fixed(_)), t) if constant_of(t) == 2)
                && matches!(&a[1], BoolExpr::Lt(Operand::Expr(Expr::Advice(q)), b) if q.column == 5 && constant_of(b) == 16)));
        }
        other => panic!("{other:?}"),
    }
}

#[test]
fn automaton_invalid_word_and_statement() {
    let handler = AutomatonLookup::new("automaton", 8);
    let mut temps = Temps { next: 10 };
    let inputs = vec![advice(0, 0), advice(1, 0), advice(2, 0), advice(3, 0)];
    let stmt = handler.on_lookup(&lookup("aut", inputs), &mut temps);
    assert_eq!(temps.next, 13);
    let (stmt, name, _) = located(stmt);
    assert_eq!(name, "aut");
    match stmt {
        Stmt::Sequence(v) => {
            assert!(v.iter().all(|s| matches!(s, Stmt::AtLookup(n, 0, _) if n == "aut")));
            assert!(matches!(inner(&v[0]), Stmt::Assert(BoolExpr::Le(_, w)) if constant_of(w) == 257));
            assert!(matches!(inner(&v[1]), Stmt::Call(m, _, outs) if m == "automaton" && outs == &vec![10, 11, 12]));
            // The copies inside are not located themselves.
            assert!(matches!(inner(&v[2]), Stmt::Sequence(c) if c.len() == 3 && matches!(&c[0], Stmt::Eq(_, _))));
        }
        other => panic!("{other:?}"),
    }
}

#[test]
fn ignore_lookup_is_empty() {
    let stmt = IgnoreLookup.on_lookup(&lookup("x", vec![]));
    assert!(matches!(stmt, Stmt::Empty));
}

#[test]
fn mux_dispatch_and_partition() {
    let mux = LookupMux::new().with("a").with("b");
    assert_eq!(mux.handler_for("b").unwrap(), HandlerSlot::Handler(1));
    let err = mux.handler_for("z").unwrap_err();
    assert_eq!(err.message().unwrap(), "Missing handler for lookup 'z'");
    let names: Vec<String> = ["b", "a", "z", "b", "y"].iter().map(|s| s.to_string()).collect();
    let err = mux.partition(&names).unwrap_err();
    assert_eq!(err.message().unwrap(), "Lookups , z, y did not match any handler!");
    let with_fallback = LookupMux::new().with("a").with("b").fallback();
    assert_eq!(with_fallback.handler_for("z").unwrap(), HandlerSlot::Fallback);
    let sel = with_fallback.partition(&names).unwrap();
    assert_eq!(sel, vec![vec![1], vec![0, 3], vec![2, 4]]);
    assert_eq!(with_fallback.describe(), "LookupMux handlers: 2 (fallback: true)");
}

#[test]
fn mux_first_handler_wins() {
    let mux = LookupMux::new().with("a").with("a");
    let names = vec!["a".to_string()];
    assert_eq!(mux.partition(&names).unwrap(), vec![vec![0], vec![]]);
}
