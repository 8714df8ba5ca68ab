use mdnt_extractor::chips::{Chip, Type};
use mdnt_extractor::query::{interleave, is_whitespace, HarnessName, Query, QueryPart};

fn strings(v: &[&str]) -> Vec<String> {
    v.iter().map(|s| s.to_string()).collect()
}

#[test]
fn harness_name_parts() {
    let name = HarnessName::from("add/assert_equal/native/field");
    assert_eq!(name.instruction(), "add");
    assert_eq!(name.method(), "assert_equal");
    assert_eq!(name.chip(), "native");
    assert_eq!(name.ty(), "field");
    let empty = HarnessName::from("///");
    assert_eq!(empty.instruction(), "");
    assert_eq!(empty.ty(), "");
}

#[test]
fn empty_query_matches_everything() {
    let q = Query::new(&vec![], None, None, &vec![], &vec![]);
    assert!(q.matches("x/y/z/w"));
    assert_eq!(q.render(), "*/*/*/*");
}

#[test]
fn query_filters_each_part() {
    let q = Query::new(
        &strings(&["add", "mul"]),
        Some(Chip::NativeGadget),
        Some(Type::Field),
        &strings(&["m1", "m2"]),
        &strings(&["m2"]),
    );
    assert!(q.matches("add/m1/native-gadget/field"));
    assert!(q.matches("mul/m1/native-gadget/field"));
    assert!(!q.matches("sub/m1/native-gadget/field"));
    assert!(!q.matches("add/m2/native-gadget/field"));
    assert!(!q.matches("add/m3/native-gadget/field"));
    assert!(!q.matches("add/m1/native_gadget/field"));
    assert!(!q.matches("add/m1/native-gadget/bit"));
    assert_eq!(q.render(), "add|mul/(m1|m2)&!m2/native-gadget/field");
}

#[test]
fn blacklist_alone() {
    let q = Query::new(&vec![], None, None, &vec![], &strings(&["slow one"]));
    assert!(q.matches("a/fast/c/d"));
    assert!(!q.matches("a/slow one/c/d"));
    assert_eq!(q.render(), "*/!\"slow one\"/*/*");
}

#[test]
fn query_parts_render() {
    let part = QueryPart::Or(vec![
        QueryPart::Exact("a b".to_string()),
        QueryPart::And(vec![QueryPart::Wildcard, QueryPart::Negated("c".to_string())]),
    ]);
    assert_eq!(part.render(), "\"a b\"|(*&!c)");
    assert!(part.needs_parens());
    assert!(part.matches("a b"));
    assert!(part.matches("d"));
    assert!(!part.matches("c"));
    assert_eq!(interleave(&vec![QueryPart::Wildcard, QueryPart::Exact("x".to_string())], "/"), "*/x");
    assert!(QueryPart::new_part(None).matches("anything"));
    assert!(QueryPart::new_instructions_part(&vec![]).matches("anything"));
    assert!(!QueryPart::new_method_part(&strings(&["a"]), &vec![]).matches("b"));
}

#[test]
fn chip_and_type_names() {
    assert_eq!(Chip::P2RDecomposition.name(false), "p2r-decomposition");
    assert_eq!(Chip::P2RDecomposition.name(true), "p2r_decomposition");
    assert_eq!(Chip::RipeMd160.name(true), "ripemd160");
    assert_eq!(Chip::MapGadget.name(false), "map");
    assert_eq!(Chip::HashToCurve.name(false), "hash-to-curve");
    assert_eq!(Type::Biguint.name(), "biguint");
    assert_eq!(Type::Point.name(), "point");
}

#[test]
fn quoting_follows_unicode_whitespace() {
    for (name, quoted) in [("c d", true), ("c\u{a0}d", true), ("c\u{3000}d", true), ("cd", false), ("c\u{200b}d", false)] {
        let part = QueryPart::new_part(Some(name));
        let r = part.render();
        assert_eq!(r.starts_with('"'), quoted, "{name:?}");
    }
}

#[test]
fn whitespace_matches_std() {
    for c in (0u32..0x3100).filter_map(char::from_u32) {
        assert_eq!(is_whitespace(c), c.is_whitespace(), "{:#x}", c as u32);
    }
}

#[test]
fn chip_names_are_lowercase_and_distinct() {
    let all = [
        Chip::Native, Chip::NativeGadget, Chip::Field, Chip::Poseidon, Chip::Pow2Range,
        Chip::P2RDecomposition, Chip::Sha256, Chip::Ecc, Chip::ForeignEccNative,
        Chip::ForeignEccField, Chip::Vector, Chip::Biguint, Chip::Stdlib, Chip::Automaton,
        Chip::Base64, Chip::HashToCurve, Chip::MapGadget, Chip::Parser, Chip::VarlenPoseidon,
        Chip::VarlenSha256, Chip::RipeMd160,
    ];
    for (i, c) in all.iter().enumerate() {
        let s = c.name(false);
        assert_eq!(s, s.to_lowercase());
        assert_eq!(c.name(true), s.replace('-', "_"));
        for d in &all[i + 1..] {
            assert_ne!(d.name(false), s);
            assert_ne!(d.name(true), c.name(true));
        }
    }
}
