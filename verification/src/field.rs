//! Arithmetic in the scalar field of BLS12-381, the field of the extracted circuits, and
//! the folding of expressions that are constant once every selector is on.

use vstd::prelude::*;
use vstd::string::StringExecFns;
use crate::expr::{AdviceQuery, Expr, FieldConst, Phase, Query, limb_base};
use crate::text::{append_decimal, append_hex_fixed, append_signed_decimal, decimal, hex_fixed, signed_decimal};

verus! {

/// The order `r` of the scalar field of BLS12-381.
pub open spec fn field_modulus() -> nat {
    0x73eda753299d7d483339d80809a1d80553bda402fffe5bfeffffffff00000001nat
}

/// The constant holds a field element in its canonical form: its value is below `r`.
pub open spec fn is_canonical(c: FieldConst) -> bool {
    c.value() < field_modulus()
}

/// The limbs of a value below `2^256`.
pub open spec fn const_of_value(n: nat) -> FieldConst {
    let b = limb_base();
    FieldConst {
        l0: (n % b) as u64,
        l1: ((n / b) % b) as u64,
        l2: ((n / b / b) % b) as u64,
        l3: ((n / b / b / b) % b) as u64,
    }
}

proof fn lemma_split_limb(x: nat, lo: nat, hi: nat)
    requires
        lo < limb_base(),
        x == lo + limb_base() * hi,
    ensures
        x % limb_base() == lo,
        x / limb_base() == hi,
{
    vstd::arithmetic::div_mod::lemma_fundamental_div_mod_converse(
        x as int,
        limb_base() as int,
        hi as int,
        lo as int,
    );
}

/// The limbs of a constant are those of its value: two constants with the same value are
/// the same constant.
pub proof fn lemma_limbs_of_value(c: FieldConst)
    ensures
        c == const_of_value(c.value()),
{
    let b = limb_base();
    let h2 = c.l2 as nat + b * c.l3 as nat;
    let h1 = c.l1 as nat + b * h2;
    lemma_split_limb(c.value(), c.l0 as nat, h1);
    lemma_split_limb(h1, c.l1 as nat, h2);
    lemma_split_limb(h2, c.l2 as nat, c.l3 as nat);
    vstd::arithmetic::div_mod::lemma_small_mod(c.l3 as nat, b);
    vstd::arithmetic::div_mod::lemma_div_of0(b as int);
    assert((c.l3 as nat) / b == 0) by {
        vstd::arithmetic::div_mod::lemma_basic_div(c.l3 as int, b as int);
    }
}

/// `midnight_curves::Fq` addition: the sum of two canonical elements, taken by their
/// little-endian limbs, in canonical form.
#[verifier::external_body]
fn fq_add(a: FieldConst, b: FieldConst) -> (r: FieldConst)
    requires
        is_canonical(a),
        is_canonical(b),
    ensures
        r == const_of_value((a.value() + b.value()) % field_modulus()),
{
    let x = midnight_curves::Fq::from_u64s_le(&[a.l0, a.l1, a.l2, a.l3]).unwrap();
    let y = midnight_curves::Fq::from_u64s_le(&[b.l0, b.l1, b.l2, b.l3]).unwrap();
    let s = (&x + &y).to_bytes_le();
    FieldConst {
        l0: u64::from_le_bytes(s[0..8].try_into().unwrap()),
        l1: u64::from_le_bytes(s[8..16].try_into().unwrap()),
        l2: u64::from_le_bytes(s[16..24].try_into().unwrap()),
        l3: u64::from_le_bytes(s[24..32].try_into().unwrap()),
    }
}

/// `midnight_curves::Fq` multiplication: the product of two canonical elements, taken by
/// their little-endian limbs, in canonical form.
#[verifier::external_body]
fn fq_mul(a: FieldConst, b: FieldConst) -> (r: FieldConst)
    requires
        is_canonical(a),
        is_canonical(b),
    ensures
        r == const_of_value((a.value() * b.value()) % field_modulus()),
{
    let x = midnight_curves::Fq::from_u64s_le(&[a.l0, a.l1, a.l2, a.l3]).unwrap();
    let y = midnight_curves::Fq::from_u64s_le(&[b.l0, b.l1, b.l2, b.l3]).unwrap();
    let p = (&x * &y).to_bytes_le();
    FieldConst {
        l0: u64::from_le_bytes(p[0..8].try_into().unwrap()),
        l1: u64::from_le_bytes(p[8..16].try_into().unwrap()),
        l2: u64::from_le_bytes(p[16..24].try_into().unwrap()),
        l3: u64::from_le_bytes(p[24..32].try_into().unwrap()),
    }
}

/// `midnight_curves::Fq` negation: the additive inverse of a canonical element, taken by
/// its little-endian limbs, in canonical form.
#[verifier::external_body]
fn fq_neg(a: FieldConst) -> (r: FieldConst)
    requires
        is_canonical(a),
    ensures
        r == const_of_value(((field_modulus() - a.value()) as nat) % field_modulus()),
{
    let x = midnight_curves::Fq::from_u64s_le(&[a.l0, a.l1, a.l2, a.l3]).unwrap();
    let n = (-x).to_bytes_le();
    FieldConst {
        l0: u64::from_le_bytes(n[0..8].try_into().unwrap()),
        l1: u64::from_le_bytes(n[8..16].try_into().unwrap()),
        l2: u64::from_le_bytes(n[16..24].try_into().unwrap()),
        l3: u64::from_le_bytes(n[24..32].try_into().unwrap()),
    }
}

/// Every constant of the expression is canonical.
pub open spec fn constants_canonical(e: Expr) -> bool
    decreases e,
{
    match e {
        Expr::Constant(c) => is_canonical(c),
        Expr::Negated(inner) => constants_canonical(*inner),
        Expr::Sum(l, r) => constants_canonical(*l) && constants_canonical(*r),
        Expr::Product(l, r) => constants_canonical(*l) && constants_canonical(*r),
        Expr::Scaled(inner, c) => constants_canonical(*inner) && is_canonical(c),
        _ => true,
    }
}

/// Every constant of every expression is canonical.
pub open spec fn all_canonical(es: Seq<Expr>) -> bool {
    forall|i: int| 0 <= i < es.len() ==> #[trigger] constants_canonical(es[i])
}

/// The value of the expression with every selector on, where it has one: it has none
/// where it queries a column or a challenge.
pub open spec fn spec_fold(e: Expr) -> Option<nat>
    decreases e,
{
    let r = field_modulus();
    match e {
        Expr::Constant(c) => Some(c.value()),
        Expr::Selector(_) => Some(1),
        Expr::Negated(inner) => match spec_fold(*inner) {
            Some(v) => Some(((r - v) as nat) % r),
            None => None,
        },
        Expr::Sum(a, b) => match (spec_fold(*a), spec_fold(*b)) {
            (Some(x), Some(y)) => Some((x + y) % r),
            _ => None,
        },
        Expr::Product(a, b) => match (spec_fold(*a), spec_fold(*b)) {
            (Some(x), Some(y)) => Some((x * y) % r),
            _ => None,
        },
        Expr::Scaled(a, c) => match spec_fold(*a) {
            Some(x) => Some((x * c.value()) % r),
            None => None,
        },
        _ => None,
    }
}

/// Evaluates the expression assuming selectors are on.
pub fn fold_constant(e: &Expr) -> (r: Option<FieldConst>)
    requires
        constants_canonical(*e),
    ensures
        match r {
            Some(c) => spec_fold(*e) == Some(c.value()) && is_canonical(c),
            None => spec_fold(*e) is None,
        },
    decreases e,
{
    proof {
        lemma_const_of_value_canonical();
    }
    match e {
        Expr::Constant(c) => Some(*c),
        Expr::Selector(_) => Some(FieldConst::from_u64(1)),
        Expr::Negated(inner) => match fold_constant(inner) {
            Some(v) => Some(fq_neg(v)),
            None => None,
        },
        Expr::Sum(a, b) => {
            let x = fold_constant(a);
            let y = fold_constant(b);
            match (x, y) {
                (Some(x), Some(y)) => Some(fq_add(x, y)),
                _ => None,
            }
        },
        Expr::Product(a, b) => {
            let x = fold_constant(a);
            let y = fold_constant(b);
            match (x, y) {
                (Some(x), Some(y)) => Some(fq_mul(x, y)),
                _ => None,
            }
        },
        Expr::Scaled(a, c) => match fold_constant(a) {
            Some(x) => Some(fq_mul(x, *c)),
            None => None,
        },
        _ => None,
    }
}

/// Below the modulus, the limbs of a value spell it.
proof fn lemma_const_of_value_canonical()
    ensures
        forall|n: nat| #![trigger const_of_value(n)]
            n < field_modulus() ==> const_of_value(n).value() == n && is_canonical(const_of_value(n)),
{
    assert forall|n: nat| #![trigger const_of_value(n)] n < field_modulus() implies const_of_value(n).value() == n
        && is_canonical(const_of_value(n)) by {
        lemma_const_of_value_spells(n);
    }
}

proof fn lemma_const_of_value_spells(n: nat)
    requires
        n < field_modulus(),
    ensures
        const_of_value(n).value() == n,
{
    let b = limb_base();
    let q1 = n / b;
    let q2 = q1 / b;
    let q3 = q2 / b;
    vstd::arithmetic::div_mod::lemma_fundamental_div_mod(n as int, b as int);
    vstd::arithmetic::div_mod::lemma_fundamental_div_mod(q1 as int, b as int);
    vstd::arithmetic::div_mod::lemma_fundamental_div_mod(q2 as int, b as int);
    vstd::arithmetic::div_mod::lemma_mod_bound(n as int, b as int);
    vstd::arithmetic::div_mod::lemma_mod_bound(q1 as int, b as int);
    vstd::arithmetic::div_mod::lemma_mod_bound(q2 as int, b as int);
    vstd::arithmetic::div_mod::lemma_div_denominator(n as int, b as int, b as int);
    vstd::arithmetic::div_mod::lemma_div_denominator(n as int, (b * b) as int, b as int);
    assert(n < (b * b * b) * b);
    vstd::arithmetic::div_mod::lemma_multiply_divide_lt(n as int, (b * b * b) as int, b as int);
    assert(q3 < b);
    vstd::arithmetic::div_mod::lemma_small_mod(q3, b);
}


/// A field element as `midnight_curves::Fq`'s `Debug` prints it: `Fq(0x`, the 64
/// lower-case hexadecimal digits of its canonical value, most significant first, `)`.
pub open spec fn spec_fq_debug(c: FieldConst) -> Seq<char> {
    "Fq(0x"@ + hex_fixed(c.l3 as nat, 16) + hex_fixed(c.l2 as nat, 16) + hex_fixed(c.l1 as nat, 16)
        + hex_fixed(c.l0 as nat, 16) + ")"@
}

/// The field element as the circuit library's `Debug` prints it.
pub fn fq_debug(c: FieldConst) -> (r: String)
    ensures
        r@ == spec_fq_debug(c),
{
    let mut out = String::from_str("Fq(0x");
    append_hex_fixed(&mut out, c.l3, 16);
    append_hex_fixed(&mut out, c.l2, 16);
    append_hex_fixed(&mut out, c.l1, 16);
    append_hex_fixed(&mut out, c.l0, 16);
    out.append(")");
    proof {
        assert(out@ =~= spec_fq_debug(c));
    }
    out
}


/// A query of a fixed or an instance column as the circuit library's `Debug` shows it,
/// without the query's index.
pub open spec fn query_text(kind: Seq<char>, q: Query) -> Seq<char> {
    kind + " { column_index: "@ + decimal(q.column as nat) + ", rotation: Rotation("@ + signed_decimal(
        q.rotation as int,
    ) + ") }"@
}

/// The number of an advice phase.
pub open spec fn phase_number(p: Phase) -> nat {
    match p {
        Phase::First => 0,
        Phase::Second => 1,
        Phase::Third => 2,
    }
}

/// A query of an advice column as the circuit library's `Debug` shows it, without the
/// query's index; the phase is shown where it is not the first.
pub open spec fn advice_text(q: AdviceQuery) -> Seq<char> {
    "Advice { column_index: "@ + decimal(q.column as nat) + ", rotation: Rotation("@ + signed_decimal(
        q.rotation as int,
    ) + ")"@ + (if q.phase == Phase::First {
        Seq::empty()
    } else {
        ", phase: Phase("@ + decimal(phase_number(q.phase)) + ")"@
    }) + " }"@
}

/// The expression in the notation of the circuit library's `Debug`: variants and fields
/// by name, field elements as `Fq(0x...)`; selectors and challenges are shown by their
/// index, and the queries' indices, which the expressions here do not hold, are left out.
pub open spec fn expr_text(e: Expr) -> Seq<char>
    decreases e,
{
    match e {
        Expr::Constant(c) => "Constant("@ + spec_fq_debug(c) + ")"@,
        Expr::Selector(i) => "Selector("@ + decimal(i as nat) + ")"@,
        Expr::Fixed(q) => query_text("Fixed"@, q),
        Expr::Advice(q) => advice_text(q),
        Expr::Instance(q) => query_text("Instance"@, q),
        Expr::Challenge(i) => "Challenge("@ + decimal(i as nat) + ")"@,
        Expr::Negated(a) => "Negated("@ + expr_text(*a) + ")"@,
        Expr::Sum(a, b) => "Sum("@ + expr_text(*a) + ", "@ + expr_text(*b) + ")"@,
        Expr::Product(a, b) => "Product("@ + expr_text(*a) + ", "@ + expr_text(*b) + ")"@,
        Expr::Scaled(a, c) => "Scaled("@ + expr_text(*a) + ", "@ + spec_fq_debug(c) + ")"@,
    }
}

fn append_query_text(out: &mut String, kind: &str, q: Query)
    ensures
        final(out)@ == old(out)@ + query_text(kind@, q),
{
    let ghost start = out@;
    out.append(kind);
    out.append(" { column_index: ");
    append_decimal(out, q.column);
    out.append(", rotation: Rotation(");
    append_signed_decimal(out, q.rotation);
    out.append(") }");
    proof {
        assert(out@ =~= start + query_text(kind@, q));
    }
}

fn append_advice_text(out: &mut String, q: AdviceQuery)
    ensures
        final(out)@ == old(out)@ + advice_text(q),
{
    let ghost start = out@;
    out.append("Advice { column_index: ");
    append_decimal(out, q.column);
    out.append(", rotation: Rotation(");
    append_signed_decimal(out, q.rotation);
    out.append(")");
    match q.phase {
        Phase::First => {},
        Phase::Second => {
            out.append(", phase: Phase(");
            append_decimal(out, 1);
            out.append(")");
        },
        Phase::Third => {
            out.append(", phase: Phase(");
            append_decimal(out, 2);
            out.append(")");
        },
    }
    out.append(" }");
    proof {
        assert(out@ =~= start + advice_text(q));
    }
}

/// Appends the expression in the notation of the circuit library's `Debug`.
pub fn append_expr_text(out: &mut String, e: &Expr)
    ensures
        final(out)@ == old(out)@ + expr_text(*e),
    decreases e,
{
    let ghost start = out@;
    match e {
        Expr::Constant(c) => {
            out.append("Constant(");
            let f = fq_debug(*c);
            out.append(f.as_str());
            out.append(")");
        },
        Expr::Selector(i) => {
            out.append("Selector(");
            append_decimal(out, *i);
            out.append(")");
        },
        Expr::Fixed(q) => append_query_text(out, "Fixed", *q),
        Expr::Advice(q) => append_advice_text(out, *q),
        Expr::Instance(q) => append_query_text(out, "Instance", *q),
        Expr::Challenge(i) => {
            out.append("Challenge(");
            append_decimal(out, *i);
            out.append(")");
        },
        Expr::Negated(a) => {
            out.append("Negated(");
            append_expr_text(out, a);
            out.append(")");
        },
        Expr::Sum(a, b) => {
            out.append("Sum(");
            append_expr_text(out, a);
            out.append(", ");
            append_expr_text(out, b);
            out.append(")");
        },
        Expr::Product(a, b) => {
            out.append("Product(");
            append_expr_text(out, a);
            out.append(", ");
            append_expr_text(out, b);
            out.append(")");
        },
        Expr::Scaled(a, c) => {
            out.append("Scaled(");
            append_expr_text(out, a);
            out.append(", ");
            let f = fq_debug(*c);
            out.append(f.as_str());
            out.append(")");
        },
    }
    proof {
        assert(out@ =~= start + expr_text(*e));
    }
}

} // verus!
