//! Values that harnesses load from, or store into, the cells of a circuit: how many cells
//! each takes, and which loaded values each accepts.

use vstd::prelude::*;
use std::marker::PhantomData;
use crate::expr::FieldConst;

verus! {

/// How many cells a value takes in the circuit.
pub trait CellReprSize {
    spec fn spec_size() -> nat;

    fn size() -> (r: usize)
        ensures
            r == Self::spec_size(),
    ;
}

/// A fresh variable that occupies one cell but doesn't write anything to it.
pub struct FreshVar;

impl CellReprSize for FreshVar {
    open spec fn spec_size() -> nat {
        1
    }

    fn size() -> (r: usize) {
        1
    }
}

/// A value that takes no cell.
pub struct Zero<T>(pub PhantomData<T>);

impl<T> CellReprSize for Zero<T> {
    open spec fn spec_size() -> nat {
        0
    }

    fn size() -> (r: usize) {
        0
    }
}

/// A field constant, taken from the harness's constants rather than from cells.
pub struct Loaded<F>(pub F);

impl<F> CellReprSize for Loaded<F> {
    open spec fn spec_size() -> nat {
        0
    }

    fn size() -> (r: usize) {
        0
    }
}

/// Marker for the types with a zero value that `NonZero` can hold.
pub trait ZeroTraitSealed {}

/// The types with a zero value.
pub trait ZeroTrait: ZeroTraitSealed {
    spec fn spec_is_zero(&self) -> bool;

    fn is_zero(&self) -> (r: bool)
        ensures
            r == self.spec_is_zero(),
    ;
}

impl ZeroTraitSealed for u8 {}

impl ZeroTrait for u8 {
    open spec fn spec_is_zero(&self) -> bool {
        *self == 0
    }

    fn is_zero(&self) -> (r: bool) {
        *self == 0
    }
}

impl ZeroTraitSealed for usize {}

impl ZeroTrait for usize {
    open spec fn spec_is_zero(&self) -> bool {
        *self == 0
    }

    fn is_zero(&self) -> (r: bool) {
        *self == 0
    }
}

/// A value that is not zero.
pub struct NonZero<T: ZeroTrait>(pub T);

impl<T: ZeroTrait> CellReprSize for NonZero<T> {
    open spec fn spec_size() -> nat {
        0
    }

    fn size() -> (r: usize) {
        0
    }
}

impl<T: ZeroTrait> NonZero<T> {
    /// A loaded value is kept when it is not zero; a zero is loaded again.
    pub fn accept(t: T) -> (r: Option<NonZero<T>>)
        ensures
            t.spec_is_zero() ==> r is None,
            !t.spec_is_zero() ==> (r matches Some(n) && n.0 == t),
    {
        if t.is_zero() {
            None
        } else {
            Some(NonZero(t))
        }
    }
}

/// A constant greater than 1.
pub struct Gt1<S>(pub S);

impl<S: CellReprSize> CellReprSize for Gt1<S> {
    open spec fn spec_size() -> nat {
        S::spec_size()
    }

    fn size() -> (r: usize) {
        S::size()
    }
}

impl Gt1<Loaded<FieldConst>> {
    /// A loaded constant is kept when it is neither 0 nor 1; such a constant is loaded
    /// again.
    pub fn accept(s: Loaded<FieldConst>) -> (r: Option<Gt1<Loaded<FieldConst>>>)
        ensures
            (s.0.value() == 0 || s.0.value() == 1) ==> r is None,
            !(s.0.value() == 0 || s.0.value() == 1) ==> (r matches Some(g) && g.0.0 == s.0),
    {
        let zero = FieldConst::from_u64(0);
        let one = FieldConst::from_u64(1);
        if s.0 == zero || s.0 == one {
            proof {
                assert(s.0.value() == 0 || s.0.value() == 1);
            }
            None
        } else {
            proof {
                assert(s.0 != zero && s.0 != one);
                assert(s.0.value() != 0 && s.0.value() != 1) by {
                    crate::expr::lemma_value_small(s.0);
                }
            }
            Some(Gt1(s))
        }
    }
}

} // verus!
