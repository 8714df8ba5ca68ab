//! Lookup handler for the three-column plain/spread table: `(tag, dense, spread)`.
//!
//! For a lookup in the form `(8, x, ~x)` it generates
//!
//! ```text
//! x < 2^8
//! ~x <= (8^8 - 1)/7
//! ~x = Spread(x)
//! x = Unspread(~x)
//! ```

use vstd::prelude::*;
use vstd::arithmetic::power2::pow2;
use crate::expr::{Expr, FieldConst};
use crate::ir::{BoolExpr, Lookup, Operand, Stmt, Temps, const_operand, is_call, is_or_of_ands, mk_const};
use crate::lookups::error::LookupError;
use crate::field::{all_canonical, const_of_value, constants_canonical, fold_constant, lemma_limbs_of_value, spec_fold};

verus! {

/// The four ways in which the table is queried.
#[derive(Clone, Copy, Debug, PartialEq, Eq, Structural)]
pub enum ModeKind {
    AnySpread,
    Spread12,
    SpreadByTag,
    SpreadByteLookup,
}

/// Strategy that says how the lookup's inputs map to the tag, the dense value and the
/// spread value.
pub trait PlainSpreadLookup3Mode {
    spec fn spec_kind(&self) -> ModeKind;

    fn kind(&self) -> (r: ModeKind)
        ensures
            r == self.spec_kind(),
    ;
}

/// The lookup queries a spread value that is valid on the whole table: the single input
/// is the spread value, the tag is 13 and the dense value is a temporary.
pub struct AnySpread;

/// The lookup queries a spread value that is valid for tag 12: the inputs are the tag,
/// which must be the constant 12, and the spread value; the dense value is a temporary.
pub struct Spread12;

/// The lookup queries a spread value that is valid for any tag: the inputs are the tag
/// and the spread value; the dense value is a temporary. Its bounds end with the
/// alternative `~x <= (8^12 - 1)/7`.
pub struct SpreadByTag;

/// The lookup queries a spread value that is valid for tag 8: the inputs are the tag,
/// which must be the constant 8, the dense value and the spread value.
pub struct SpreadByteLookup;

impl PlainSpreadLookup3Mode for AnySpread {
    open spec fn spec_kind(&self) -> ModeKind {
        ModeKind::AnySpread
    }

    fn kind(&self) -> (r: ModeKind) {
        ModeKind::AnySpread
    }
}

impl PlainSpreadLookup3Mode for Spread12 {
    open spec fn spec_kind(&self) -> ModeKind {
        ModeKind::Spread12
    }

    fn kind(&self) -> (r: ModeKind) {
        ModeKind::Spread12
    }
}

impl PlainSpreadLookup3Mode for SpreadByTag {
    open spec fn spec_kind(&self) -> ModeKind {
        ModeKind::SpreadByTag
    }

    fn kind(&self) -> (r: ModeKind) {
        ModeKind::SpreadByTag
    }
}

impl PlainSpreadLookup3Mode for SpreadByteLookup {
    open spec fn spec_kind(&self) -> ModeKind {
        ModeKind::SpreadByteLookup
    }

    fn kind(&self) -> (r: ModeKind) {
        ModeKind::SpreadByteLookup
    }
}

/// Number of inputs that the mode expects.
pub open spec fn expected_inputs(kind: ModeKind) -> usize {
    match kind {
        ModeKind::AnySpread => 1,
        ModeKind::Spread12 => 2,
        ModeKind::SpreadByTag => 2,
        ModeKind::SpreadByteLookup => 3,
    }
}

/// The constant that the mode's tag input must fold to, if it checks one.
pub open spec fn expected_tag(kind: ModeKind) -> Option<u64> {
    match kind {
        ModeKind::Spread12 => Some(12),
        ModeKind::SpreadByteLookup => Some(8),
        _ => None,
    }
}

/// The error of the validation of a lookup, if any: first the number of inputs, then
/// the value that the tag input folds to with every selector on (`spec_fold`).
pub open spec fn spec_validation(kind: ModeKind, inputs: Seq<Expr>) -> Option<LookupError> {
    if inputs.len() != expected_inputs(kind) as int {
        Some(LookupError::InputCount { expected: expected_inputs(kind), got: inputs.len() as usize })
    } else {
        match expected_tag(kind) {
            None => None,
            Some(v) => spec_tag_check(inputs[0], v),
        }
    }
}

/// The error of checking that `tag` folds to the constant `value`, if any.
pub open spec fn spec_tag_check(tag: Expr, value: u64) -> Option<LookupError> {
    match spec_fold(tag) {
        None => Some(LookupError::NotConstant(tag)),
        Some(f) => if f == value as nat {
            None
        } else {
            Some(LookupError::WrongTag { tag: value, folded: const_of_value(f) })
        },
    }
}

/// The rows of the assertion: tag 0 forces a zero dense and a zero spread value; tag `t`
/// in `1..14` bounds the dense value below `2^t` and the spread value by `(8^t - 1)/7`.
pub open spec fn inequality_rows(tag: Operand, dense: Operand, spread: Operand) -> Seq<Seq<BoolExpr>> {
    Seq::new(
        14,
        |t: int|
            if t == 0 {
                seq![
                    BoolExpr::Eq(tag, const_operand(0)),
                    BoolExpr::Eq(dense, const_operand(0)),
                    BoolExpr::Eq(spread, const_operand(0)),
                ]
            } else {
                seq![
                    BoolExpr::Eq(tag, const_operand(t as nat)),
                    BoolExpr::Lt(dense, const_operand(pow2(t as nat))),
                    BoolExpr::Le(spread, const_operand(((pow2(3 * (t as nat)) - 1) / 7) as nat)),
                ]
            },
    )
}

/// The last alternative of the spread-by-tag mode: the spread value of a tag of at most
/// 12, `~x <= (8^12 - 1)/7`.
pub open spec fn by_tag_alternative(spread: Operand) -> BoolExpr {
    BoolExpr::Le(spread, const_operand(((pow2(36) - 1) / 7) as nat))
}

/// The assertion of the bounds: the disjunction of the conjunctions of the rows, and,
/// in the spread-by-tag mode, then the bound `~x <= (8^12 - 1)/7`.
pub open spec fn is_bounds_assertion(b: BoolExpr, kind: ModeKind, tag: Operand, dense: Operand, spread: Operand) -> bool {
    let rows = inequality_rows(tag, dense, spread);
    &&& b matches BoolExpr::Or(v)
    &&& v@.len() == rows.len() + if kind == ModeKind::SpreadByTag { 1int } else { 0int }
    &&& forall|i: int| 0 <= i < rows.len() ==> crate::ir::is_and(#[trigger] v@[i], rows[i])
    &&& kind == ModeKind::SpreadByTag ==> v@[rows.len() as int] == by_tag_alternative(spread)
}

/// Index of the spread value among the inputs.
pub open spec fn spread_index(kind: ModeKind) -> int {
    match kind {
        ModeKind::AnySpread => 0,
        ModeKind::SpreadByteLookup => 2,
        _ => 1,
    }
}

/// The tag operand of the mode.
pub open spec fn tag_operand(kind: ModeKind, inputs: Seq<Expr>) -> Operand {
    match kind {
        ModeKind::AnySpread => const_operand(13),
        _ => Operand::Expr(inputs[0]),
    }
}

/// The dense operand of the mode: the second input, or the first fresh temporary.
pub open spec fn dense_operand(kind: ModeKind, inputs: Seq<Expr>, t0: usize) -> Operand {
    match kind {
        ModeKind::SpreadByteLookup => Operand::Expr(inputs[1]),
        _ => Operand::Temp(t0),
    }
}

/// The statement of one lookup: the assertion of the bounds, the call of the spread
/// module on the dense value with its output constrained to the spread value, and the
/// call of the unspread module on the spread value, whose output is the dense value's
/// temporary where it has one, and else a temporary constrained to the dense value.
pub open spec fn spread3_stmt(
    s: Stmt,
    spread_module: Seq<char>,
    unspread_module: Seq<char>,
    kind: ModeKind,
    inputs: Seq<Expr>,
    t0: usize,
) -> bool {
    let tag = tag_operand(kind, inputs);
    let dense = dense_operand(kind, inputs, t0);
    let spread = Operand::Expr(inputs[spread_index(kind)]);
    let ts: usize = if kind == ModeKind::SpreadByteLookup {
        t0
    } else {
        (t0 + 1) as usize
    };
    &&& s matches Stmt::Sequence(v)
    &&& v@.len() == 3
    &&& v@[0] matches Stmt::Assert(b) && is_bounds_assertion(b, kind, tag, dense, spread)
    &&& v@[1] matches Stmt::Sequence(c) && c@.len() == 2 && is_call(c@[0], spread_module, seq![dense], seq![ts])
        && c@[1] == Stmt::Eq(spread, Operand::Temp(ts))
    &&& v@[2] matches Stmt::Sequence(c) && c@.len() == 2 && if kind == ModeKind::SpreadByteLookup {
        is_call(c@[0], unspread_module, seq![spread], seq![(ts + 1) as usize]) && c@[1] == Stmt::Eq(
            dense,
            Operand::Temp((ts + 1) as usize),
        )
    } else {
        is_call(c@[0], unspread_module, seq![spread], seq![t0]) && c@[1] is Empty
    }
}

/// Where the operands of a three-column lookup come from: in the byte mode, `(tag, x, ~x)`
/// gives the tag at index 0, the dense value `x` at index 1 and the spread value `~x` at
/// index 2; with tag 12 or a tag of any width, `(tag, ~x)` gives the spread value at
/// index 1 and the dense value is a fresh temporary; otherwise `(~x)` gives the spread
/// value at index 0, under the tag 13. The bounds are asserted on these operands, the
/// spread module maps the dense value to the spread value, and the unspread module maps
/// the spread value back to the dense value.
pub proof fn lemma_spread3_operands(
    s: Stmt,
    spread_module: Seq<char>,
    unspread_module: Seq<char>,
    kind: ModeKind,
    inputs: Seq<Expr>,
    t0: usize,
)
    requires
        spread3_stmt(s, spread_module, unspread_module, kind, inputs, t0),
    ensures
        ({
            let (tag, dense, spread) = match kind {
                ModeKind::SpreadByteLookup => (
                    Operand::Expr(inputs[0]),
                    Operand::Expr(inputs[1]),
                    Operand::Expr(inputs[2]),
                ),
                ModeKind::AnySpread => (
                    Operand::Expr(Expr::Constant(FieldConst { l0: 13, l1: 0, l2: 0, l3: 0 })),
                    Operand::Temp(t0),
                    Operand::Expr(inputs[0]),
                ),
                _ => (Operand::Expr(inputs[0]), Operand::Temp(t0), Operand::Expr(inputs[1])),
            };
            &&& s matches Stmt::Sequence(v)
            &&& v@[0] matches Stmt::Assert(b) && is_bounds_assertion(b, kind, tag, dense, spread)
            &&& v@[1] matches Stmt::Sequence(c) && c@[0] matches Stmt::Call(_, ins, outs) && ins@
                == seq![dense] && c@[1] == Stmt::Eq(spread, Operand::Temp(outs@[0]))
            &&& v@[2] matches Stmt::Sequence(c) && c@[0] matches Stmt::Call(_, ins, outs) && ins@
                == seq![spread] && if kind == ModeKind::SpreadByteLookup {
                c@[1] == Stmt::Eq(dense, Operand::Temp(outs@[0]))
            } else {
                dense == Operand::Temp(outs@[0]) && c@[1] is Empty
            }
        }),
{
}

/// Lookup handler that adds a range check for a plain-spread pair and calls a module
/// that declares that the latter is a functional dependency of the former.
pub struct PlainSpreadLookup3<M: PlainSpreadLookup3Mode> {
    spread_module: &'static str,
    unspread_module: &'static str,
    mode: M,
}

/// The lookup must have exactly `size` inputs.
fn ensure_lookup_size(n_inputs: usize, size: usize) -> (r: Result<(), LookupError>)
    ensures
        n_inputs == size ==> r is Ok,
        n_inputs != size ==> r == Err::<(), LookupError>(LookupError::InputCount { expected: size, got: n_inputs }),
{
    if n_inputs != size {
        return Err(LookupError::InputCount { expected: size, got: n_inputs });
    }
    Ok(())
}

/// The tag folds, with every selector on, to the constant `value`.
fn ensure_tag_is_constant_value(expr: &Expr, value: u64) -> (r: Result<(), LookupError>)
    requires
        constants_canonical(*expr),
    ensures
        match spec_tag_check(*expr, value) {
            None => r is Ok,
            Some(e) => r == Err::<(), LookupError>(e),
        },
{
    match fold_constant(expr) {
        None => Err(LookupError::NotConstant(expr.deep_clone())),
        Some(f) => {
            proof {
                lemma_limbs_of_value(f);
                lemma_limbs_of_value(FieldConst::from_u64_spec(value));
            }
            if f == FieldConst::from_u64(value) {
                Ok(())
            } else {
                Err(LookupError::WrongTag { tag: value, folded: f })
            }
        },
    }
}

/// Calls `name` on `input`; its output goes to `output`'s temporary where `output` is one,
/// and else to a fresh temporary that is then constrained to equal `output`.
fn create_call(name: &'static str, input: Operand, output: Operand, temps: &mut Temps) -> (r: Stmt)
    requires
        output is Expr ==> old(temps).next < usize::MAX,
    ensures
        match output {
            Operand::Temp(t) => r matches Stmt::Sequence(v) && v@.len() == 2 && is_call(
                v@[0],
                name@,
                seq![input],
                seq![t],
            ) && v@[1] is Empty && final(temps).next == old(temps).next,
            Operand::Expr(_) => r matches Stmt::Sequence(v) && v@.len() == 2 && is_call(
                v@[0],
                name@,
                seq![input],
                seq![old(temps).next],
            ) && v@[1] == Stmt::Eq(output, Operand::Temp(old(temps).next)) && final(temps).next
                == old(temps).next + 1,
        },
{
    let (temp, reused) = reuse_temp_or_create(&output, temps);
    let mut ins: Vec<Operand> = Vec::new();
    ins.push(input);
    let mut outs: Vec<usize> = Vec::new();
    outs.push(temp);
    let call = Stmt::Call(name.to_owned(), ins, outs);
    let out_constr = if !reused {
        Stmt::Eq(output, Operand::Temp(temp))
    } else {
        Stmt::Empty
    };
    let mut v: Vec<Stmt> = Vec::new();
    v.push(call);
    v.push(out_constr);
    Stmt::Sequence(v)
}

/// The temporary of `expr` where it is one (reused), else a fresh one.
fn reuse_temp_or_create(expr: &Operand, temps: &mut Temps) -> (r: (usize, bool))
    requires
        *expr is Expr ==> old(temps).next < usize::MAX,
    ensures
        match *expr {
            Operand::Temp(t) => r == (t, true) && final(temps).next == old(temps).next,
            Operand::Expr(_) => r == (old(temps).next, false) && final(temps).next == old(temps).next
                + 1,
        },
{
    match expr {
        Operand::Temp(t) => (*t, true),
        Operand::Expr(_) => (temps.next_temp(), false),
    }
}

fn inequality_row(tag: &Operand, dense: &Operand, spread: &Operand, t: u64) -> (r: BoolExpr)
    requires
        1 <= t < 14,
    ensures
        crate::ir::is_and(r, inequality_rows(*tag, *dense, *spread)[t as int]),
{
    proof {
        vstd::arithmetic::power2::lemma2_to64();
        vstd::bits::lemma_u64_pow2_no_overflow(t as nat);
        vstd::bits::lemma_u64_pow2_no_overflow((3 * t) as nat);
        vstd::arithmetic::power2::lemma_pow2_pos((3 * t) as nat);
        vstd::bits::lemma_u64_shl_is_mul(1, t);
        vstd::bits::lemma_u64_shl_is_mul(1, (3 * t) as u64);
    }
    let dense_bound: u64 = 1u64 << t;
    let spread_bound: u64 = ((1u64 << (3 * t)) - 1) / 7;
    let mut parts: Vec<BoolExpr> = Vec::new();
    parts.push(BoolExpr::Eq(tag.deep_clone(), mk_const(t)));
    parts.push(BoolExpr::Lt(dense.deep_clone(), mk_const(dense_bound)));
    parts.push(BoolExpr::Le(spread.deep_clone(), mk_const(spread_bound)));
    assert(parts@ =~= inequality_rows(*tag, *dense, *spread)[t as int]);
    BoolExpr::And(parts)
}

/// Generates the inequalities based on the mode.
fn inequalities(kind: ModeKind, tag: Operand, dense: Operand, spread: Operand) -> (r: Stmt)
    ensures
        r matches Stmt::Assert(b) && is_bounds_assertion(b, kind, tag, dense, spread),
{
    let mut rows: Vec<BoolExpr> = Vec::new();
    let mut zero: Vec<BoolExpr> = Vec::new();
    zero.push(BoolExpr::Eq(tag.deep_clone(), mk_const(0)));
    zero.push(BoolExpr::Eq(dense.deep_clone(), mk_const(0)));
    zero.push(BoolExpr::Eq(spread.deep_clone(), mk_const(0)));
    assert(zero@ =~= inequality_rows(tag, dense, spread)[0]);
    rows.push(BoolExpr::And(zero));
    let mut t: u64 = 1;
    while t < 14
        invariant
            1 <= t <= 14,
            rows@.len() == t,
            forall|i: int|
                0 <= i < t ==> crate::ir::is_and(#[trigger] rows@[i], inequality_rows(tag, dense, spread)[i]),
        decreases 14 - t,
    {
        rows.push(inequality_row(&tag, &dense, &spread, t));
        t += 1;
    }
    if kind == ModeKind::SpreadByTag {
        proof {
            vstd::arithmetic::power2::lemma2_to64_rest();
        }
        rows.push(BoolExpr::Le(spread.deep_clone(), mk_const(9817068105)));
    }
    BoolExpr::Or(rows).into_assert()
}

impl BoolExpr {
    /// The assertion of the formula.
    pub fn into_assert(self) -> (r: Stmt)
        ensures
            r == Stmt::Assert(self),
    {
        Stmt::Assert(self)
    }
}

impl<M: PlainSpreadLookup3Mode> PlainSpreadLookup3<M> {
    pub closed spec fn spec_spread_module(&self) -> &'static str {
        self.spread_module
    }

    pub closed spec fn spec_unspread_module(&self) -> &'static str {
        self.unspread_module
    }

    pub closed spec fn spec_mode(&self) -> ModeKind {
        self.mode.spec_kind()
    }

    /// A handler that calls the two given modules and reads the lookups as `mode` says.
    pub fn new(spread_module: &'static str, unspread_module: &'static str, mode: M) -> (r: Self)
        ensures
            r.spec_spread_module() == spread_module,
            r.spec_unspread_module() == unspread_module,
            r.spec_mode() == mode.spec_kind(),
    {
        Self { spread_module, unspread_module, mode }
    }

    /// The statement of one lookup. The modes with a fixed tag first check that the tag
    /// input folds to that constant with every selector on.
    pub fn on_lookup(&self, lookup: &Lookup, temps: &mut Temps) -> (r: Result<Stmt, LookupError>)
        requires
            old(temps).next + 2 <= usize::MAX,
            all_canonical(lookup.inputs@),
        ensures
            match spec_validation(self.spec_mode(), lookup.inputs@) {
                Some(e) => r == Err::<Stmt, LookupError>(e) && final(temps).next == old(temps).next,
                None => r matches Ok(s) && spread3_stmt(
                    s,
                    self.spec_spread_module()@,
                    self.spec_unspread_module()@,
                    self.spec_mode(),
                    lookup.inputs@,
                    old(temps).next,
                ) && final(temps).next == old(temps).next + 2,
            },
    {
        let kind = self.mode.kind();
        let n = lookup.inputs.len();
        let expected: usize = match kind {
            ModeKind::AnySpread => 1,
            ModeKind::Spread12 => 2,
            ModeKind::SpreadByTag => 2,
            ModeKind::SpreadByteLookup => 3,
        };
        match ensure_lookup_size(n, expected) {
            Ok(()) => {},
            Err(e) => {
                return Err(e);
            },
        }
        match kind {
            ModeKind::Spread12 => {
                match ensure_tag_is_constant_value(&lookup.inputs[0], 12) {
                    Ok(()) => {},
                    Err(e) => {
                        return Err(e);
                    },
                }
            },
            ModeKind::SpreadByteLookup => {
                match ensure_tag_is_constant_value(&lookup.inputs[0], 8) {
                    Ok(()) => {},
                    Err(e) => {
                        return Err(e);
                    },
                }
            },
            _ => {},
        }
        let tag = match kind {
            ModeKind::AnySpread => mk_const(13),
            _ => Operand::Expr(lookup.inputs[0].deep_clone()),
        };
        let spread_idx: usize = match kind {
            ModeKind::AnySpread => 0,
            ModeKind::SpreadByteLookup => 2,
            _ => 1,
        };
        let spread = Operand::Expr(lookup.inputs[spread_idx].deep_clone());
        let dense = match kind {
            ModeKind::SpreadByteLookup => Operand::Expr(lookup.inputs[1].deep_clone()),
            _ => Operand::Temp(temps.next_temp()),
        };
        let spread_call = create_call(self.spread_module, dense.deep_clone(), spread.deep_clone(), temps);
        let unspread_call = create_call(self.unspread_module, spread.deep_clone(), dense.deep_clone(), temps);
        let ineqs = inequalities(kind, tag, dense, spread);
        let mut v: Vec<Stmt> = Vec::new();
        v.push(ineqs);
        v.push(spread_call);
        v.push(unspread_call);
        Ok(Stmt::Sequence(v))
    }
}

} // verus!
