//! Polynomial expressions over the columns of a PLONKish constraint system.
//!
//! A field element is held by its canonical value, as four little-endian 64-bit limbs;
//! a column query is held by its column index and its rotation.

use vstd::prelude::*;

verus! {

/// Canonical value of a field element, as little-endian 64-bit limbs.
#[derive(Clone, Copy, Debug, PartialEq, Eq, Structural)]
pub struct FieldConst {
    pub l0: u64,
    pub l1: u64,
    pub l2: u64,
    pub l3: u64,
}

/// `2^64`.
pub open spec fn limb_base() -> nat {
    0x1_0000_0000_0000_0000
}

impl FieldConst {
    /// The integer that the limbs spell.
    pub open spec fn value(self) -> nat {
        self.l0 as nat + limb_base() * (self.l1 as nat + limb_base() * (self.l2 as nat
            + limb_base() * self.l3 as nat))
    }

    /// The constant with the given small value, in specifications.
    pub open spec fn from_u64_spec(v: u64) -> FieldConst {
        FieldConst { l0: v, l1: 0, l2: 0, l3: 0 }
    }

    /// The constant with the given small value.
    pub fn from_u64(v: u64) -> (r: FieldConst)
        ensures
            r.value() == v,
            r == (FieldConst { l0: v, l1: 0, l2: 0, l3: 0 }),
    {
        FieldConst { l0: v, l1: 0, l2: 0, l3: 0 }
    }

    /// The zero element.
    pub fn zero() -> (r: FieldConst)
        ensures
            r.value() == 0,
    {
        FieldConst::from_u64(0)
    }

    /// Numeric comparison: `self <= other` as integers.
    pub fn le(&self, other: &FieldConst) -> (r: bool)
        ensures
            r == (self.value() <= other.value()),
    {
        proof {
            lemma_limb_order(self.l2 as nat, other.l2 as nat, self.l3 as nat, other.l3 as nat);
            let hi_a = self.l2 as nat + limb_base() * self.l3 as nat;
            let hi_b = other.l2 as nat + limb_base() * other.l3 as nat;
            lemma_limb_order(self.l1 as nat, other.l1 as nat, hi_a, hi_b);
            let mid_a = self.l1 as nat + limb_base() * hi_a;
            let mid_b = other.l1 as nat + limb_base() * hi_b;
            lemma_limb_order(self.l0 as nat, other.l0 as nat, mid_a, mid_b);
        }
        if self.l3 != other.l3 {
            self.l3 < other.l3
        } else if self.l2 != other.l2 {
            self.l2 < other.l2
        } else if self.l1 != other.l1 {
            self.l1 < other.l1
        } else {
            self.l0 <= other.l0
        }
    }
}

/// A constant whose value is below 2^64 has its value in its lowest limb.
pub proof fn lemma_value_small(c: FieldConst)
    ensures
        c.value() < limb_base() ==> c == FieldConst::from_u64_spec(c.l0),
{
    let b = limb_base();
    let hi = c.l1 as nat + b * (c.l2 as nat + b * c.l3 as nat);
    if hi > 0 {
        assert(b * hi >= b) by (nonlinear_arith)
            requires
                hi > 0,
                b > 0,
        ;
    }
    if c.value() < b {
        assert(hi == 0);
        assert(c.l1 == 0);
        assert(b * (c.l2 as nat + b * c.l3 as nat) == 0);
        assert(c.l2 as nat + b * c.l3 as nat == 0) by (nonlinear_arith)
            requires
                b * (c.l2 as nat + b * c.l3 as nat) == 0,
                b > 0,
        ;
    }
}

/// A limb below the base decides the order only where the higher parts agree.
proof fn lemma_limb_order(x: nat, y: nat, hx: nat, hy: nat)
    requires
        x < limb_base(),
        y < limb_base(),
    ensures
        (x + limb_base() * hx < y + limb_base() * hy) <==> (hx < hy || (hx == hy && x < y)),
        (x + limb_base() * hx == y + limb_base() * hy) <==> (hx == hy && x == y),
{
    let b = limb_base();
    if hx < hy {
        assert(b * hx + b <= b * hy) by (nonlinear_arith)
            requires
                hx < hy,
                b > 0,
        ;
    } else if hy < hx {
        assert(b * hy + b <= b * hx) by (nonlinear_arith)
            requires
                hy < hx,
                b > 0,
        ;
    }
}

/// A query of a fixed or an instance column: the column's index and the rotation
/// relative to the current row.
#[derive(Clone, Copy, Debug, PartialEq, Eq, Structural)]
pub struct Query {
    pub column: usize,
    pub rotation: i32,
}

/// The phase in which an advice column is assigned.
#[derive(Clone, Copy, Debug, PartialEq, Eq, Structural)]
pub enum Phase {
    First,
    Second,
    Third,
}

/// A query of an advice column.
#[derive(Clone, Copy, Debug, PartialEq, Eq, Structural)]
pub struct AdviceQuery {
    pub column: usize,
    pub rotation: i32,
    pub phase: Phase,
}

/// A polynomial expression of a gate or a lookup.
#[derive(Debug)]
pub enum Expr {
    Constant(FieldConst),
    Selector(usize),
    Fixed(Query),
    Advice(AdviceQuery),
    Instance(Query),
    Challenge(usize),
    Negated(Box<Expr>),
    Sum(Box<Expr>, Box<Expr>),
    Product(Box<Expr>, Box<Expr>),
    Scaled(Box<Expr>, FieldConst),
}

/// Number of nodes of an expression tree.
pub open spec fn expr_size(e: Expr) -> nat
    decreases e,
{
    match e {
        Expr::Negated(inner) => 1 + expr_size(*inner),
        Expr::Sum(l, r) => 1 + expr_size(*l) + expr_size(*r),
        Expr::Product(l, r) => 1 + expr_size(*l) + expr_size(*r),
        Expr::Scaled(inner, _) => 1 + expr_size(*inner),
        _ => 1,
    }
}

impl Expr {
    /// A copy of the whole tree.
    pub fn deep_clone(&self) -> (r: Expr)
        ensures
            r == *self,
        decreases self,
    {
        match self {
            Expr::Constant(c) => Expr::Constant(*c),
            Expr::Selector(s) => Expr::Selector(*s),
            Expr::Fixed(q) => Expr::Fixed(*q),
            Expr::Advice(q) => Expr::Advice(*q),
            Expr::Instance(q) => Expr::Instance(*q),
            Expr::Challenge(c) => Expr::Challenge(*c),
            Expr::Negated(inner) => Expr::Negated(Box::new((**inner).deep_clone())),
            Expr::Sum(l, r) => Expr::Sum(Box::new((**l).deep_clone()), Box::new((**r).deep_clone())),
            Expr::Product(l, r) => Expr::Product(
                Box::new((**l).deep_clone()),
                Box::new((**r).deep_clone()),
            ),
            Expr::Scaled(inner, c) => Expr::Scaled(Box::new((**inner).deep_clone()), *c),
        }
    }
}

/// Copies every expression of a sequence.
pub fn clone_exprs(v: &Vec<Expr>) -> (r: Vec<Expr>)
    ensures
        r@ == v@,
{
    let mut r: Vec<Expr> = Vec::new();
    let mut i: usize = 0;
    while i < v.len()
        invariant
            i <= v.len(),
            r@ == v@.take(i as int),
        decreases v.len() - i,
    {
        r.push(v[i].deep_clone());
        i += 1;
        assert(r@ =~= v@.take(i as int));
    }
    assert(v@.take(v.len() as int) =~= v@);
    r
}

} // verus!
