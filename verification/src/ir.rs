//! The intermediate representation that the lookup handlers emit, and the lookups they
//! receive.

use vstd::prelude::*;
use vstd::string::StringExecFns;
use crate::expr::{Expr, FieldConst};

verus! {

/// An operand of a statement: an expression of the circuit or a temporary variable.
#[derive(Debug)]
pub enum Operand {
    Expr(Expr),
    Temp(usize),
}

impl Operand {
    /// A copy of the operand.
    pub fn deep_clone(&self) -> (r: Operand)
        ensures
            r == *self,
    {
        match self {
            Operand::Expr(e) => Operand::Expr(e.deep_clone()),
            Operand::Temp(t) => Operand::Temp(*t),
        }
    }
}

/// The constant expression with a small value.
pub open spec fn const_operand(v: nat) -> Operand {
    Operand::Expr(Expr::Constant(FieldConst { l0: v as u64, l1: 0, l2: 0, l3: 0 }))
}

/// An operand that holds a small constant.
pub fn mk_const(v: u64) -> (r: Operand)
    ensures
        r == const_operand(v as nat),
{
    Operand::Expr(Expr::Constant(FieldConst::from_u64(v)))
}

/// A boolean formula over operands.
#[derive(Debug)]
pub enum BoolExpr {
    Eq(Operand, Operand),
    Lt(Operand, Operand),
    Le(Operand, Operand),
    /// The operand is determined by the inputs of the circuit.
    Det(Operand),
    And(Vec<BoolExpr>),
    Or(Vec<BoolExpr>),
    Implies(Box<BoolExpr>, Box<BoolExpr>),
}

/// A statement of the intermediate representation.
#[derive(Debug)]
pub enum Stmt {
    Empty,
    Sequence(Vec<Stmt>),
    /// A call of a module: its name, its inputs and the temporaries its outputs go to.
    Call(String, Vec<Operand>, Vec<usize>),
    /// An equality constraint.
    Eq(Operand, Operand),
    Assert(BoolExpr),
    /// The statement, located at the lookup of this name and index.
    AtLookup(String, usize, Box<Stmt>),
}

/// Whether `s` is located at the lookup of name `name` and index `idx`.
pub open spec fn is_at_lookup(s: Stmt, name: Seq<char>, idx: usize) -> bool {
    s matches Stmt::AtLookup(n, i, _) && n@ == name && i == idx
}

/// The statement without its location, where it has one.
pub open spec fn unlocated(s: Stmt) -> Stmt {
    match s {
        Stmt::AtLookup(_, _, b) => *b,
        _ => s,
    }
}

/// Whether `out` is `s` located at the lookup, where `s` has no location yet, and `s`
/// itself where it has one.
pub open spec fn located_as(out: Stmt, s: Stmt, name: Seq<char>, idx: usize) -> bool {
    if s is AtLookup {
        out == s
    } else {
        is_at_lookup(out, name, idx) && unlocated(out) == s
    }
}

/// Whether `out` is the sequence of `children` located at the lookup, with the location
/// passed on to each child that has none.
pub open spec fn located_seq(out: Stmt, children: Seq<Stmt>, name: Seq<char>, idx: usize) -> bool {
    &&& is_at_lookup(out, name, idx)
    &&& unlocated(out) matches Stmt::Sequence(v) && v@.len() == children.len() && forall|k: int|
        0 <= k < children.len() ==> located_as(#[trigger] v@[k], children[k], name, idx)
}

/// Locates the statement at the lookup, unless it has a location already.
pub fn locate(s: Stmt, name: &str, idx: usize) -> (r: Stmt)
    ensures
        located_as(r, s, name@, idx),
{
    match s {
        Stmt::AtLookup(n, i, b) => Stmt::AtLookup(n, i, b),
        other => Stmt::AtLookup(String::from_str(name), idx, Box::new(other)),
    }
}

/// The sequence of the statements located at the lookup, with the location passed on to
/// each statement that has none.
pub fn locate_seq(children: Vec<Stmt>, name: &str, idx: usize) -> (r: Stmt)
    ensures
        located_seq(r, children@, name@, idx),
{
    let ghost orig = children@;
    let mut rest = children;
    let mut out: Vec<Stmt> = Vec::new();
    while rest.len() > 0
        invariant
            out@.len() + rest@.len() == orig.len(),
            rest@ == orig.subrange(out@.len() as int, orig.len() as int),
            forall|k: int| 0 <= k < out@.len() ==> located_as(#[trigger] out@[k], orig[k], name@, idx),
        decreases rest.len(),
    {
        let ghost k = out@.len() as int;
        let s = rest.remove(0);
        assert(s == orig[k]);
        out.push(locate(s, name, idx));
        assert(rest@ =~= orig.subrange(k + 1, orig.len() as int));
    }
    Stmt::AtLookup(String::from_str(name), idx, Box::new(Stmt::Sequence(out)))
}

/// Whether `s` calls `module` on `inputs`, with its outputs in `outputs`.
pub open spec fn is_call(s: Stmt, module: Seq<char>, inputs: Seq<Operand>, outputs: Seq<usize>) -> bool {
    s matches Stmt::Call(m, ins, outs) && m@ == module && ins@ == inputs && outs@ == outputs
}

/// Whether `b` is the conjunction of exactly the given formulas.
pub open spec fn is_and(b: BoolExpr, parts: Seq<BoolExpr>) -> bool {
    b matches BoolExpr::And(v) && v@ == parts
}

/// Whether `b` is the disjunction, row by row, of the conjunctions of the given rows.
pub open spec fn is_or_of_ands(b: BoolExpr, rows: Seq<Seq<BoolExpr>>) -> bool {
    b matches BoolExpr::Or(v) && v@.len() == rows.len() && forall|i: int|
        0 <= i < rows.len() ==> is_and(#[trigger] v@[i], rows[i])
}

/// A lookup of the circuit: its name, its index among the lookups, and the expressions it
/// looks up.
pub struct Lookup {
    pub name: String,
    pub idx: usize,
    pub inputs: Vec<Expr>,
}

/// The supply of fresh temporaries: they are numbered from `next` on.
pub struct Temps {
    pub next: usize,
}

impl Temps {
    /// A supply that starts at 0.
    pub fn new() -> (r: Temps)
        ensures
            r.next == 0,
    {
        Temps { next: 0 }
    }

    /// Hands out the next temporary.
    pub fn next_temp(&mut self) -> (r: usize)
        requires
            old(self).next < usize::MAX,
        ensures
            r == old(self).next,
            final(self).next == old(self).next + 1,
    {
        let t = self.next;
        self.next = self.next + 1;
        t
    }
}

} // verus!
