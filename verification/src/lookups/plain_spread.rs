//! Lookup handler for the plain/spread pairs of the SHA-256 table: `(tag, plain, spread)`.

use vstd::prelude::*;
use vstd::arithmetic::power2::pow2;
use crate::expr::{Expr, FieldConst};
use vstd::string::StrSliceExecFns;
use crate::ir::{BoolExpr, Lookup, Operand, Stmt, Temps, is_at_lookup, is_call, locate_seq, unlocated};
use crate::lookups::error::LookupError;
use crate::lookups::range::{TagRangeLookup, range_check_stmt, row_views, spec_indices_valid};
use crate::spread::{spec_spread_bound, spread_bound};
use crate::text::{join_strings, joined, string_views};

verus! {

/// The widths of the table's tags other than 0, as the SHA-256 chip lays them out.
pub open spec fn table_widths() -> Seq<u32> {
    seq![2u32, 3, 4, 5, 6, 7, 9, 10, 11, 12]
}

/// The rows of the range table: tag 0 admits plain and spread values below 1; tag `n`
/// admits plain values below `2^n` and spread values below `spread_bound(n)`.
pub open spec fn plain_spread_table() -> Seq<(Seq<FieldConst>, Seq<FieldConst>)> {
    Seq::new(
        11,
        |k: int|
            if k == 0 {
                (
                    seq![FieldConst::from_u64_spec(0)],
                    seq![FieldConst::from_u64_spec(1), FieldConst::from_u64_spec(1)],
                )
            } else {
                let n = table_widths()[k - 1];
                (
                    seq![FieldConst::from_u64_spec(n as u64)],
                    seq![
                        FieldConst::from_u64_spec(pow2(n as nat) as u64),
                        FieldConst::from_u64_spec(spec_spread_bound(n as nat) as u64),
                    ],
                )
            },
    )
}

/// The table of the SHA-256 chip's plain/spread lookups: tag 0 with both values below 1,
/// then the tags 2, 3, 4, 5, 6, 7, 9, 10, 11 and 12, each with plain values below `2^n`
/// and spread values below the spread bound of `n` bits.
pub proof fn lemma_plain_spread_table()
    ensures
        plain_spread_table().len() == 11,
        plain_spread_table()[0] == (seq![FieldConst::from_u64_spec(0)], seq![FieldConst::from_u64_spec(1), FieldConst::from_u64_spec(1)]),
        plain_spread_table()[1] == (seq![FieldConst::from_u64_spec(2)], seq![FieldConst::from_u64_spec(4), FieldConst::from_u64_spec(6)]),
        plain_spread_table()[2] == (seq![FieldConst::from_u64_spec(3)], seq![FieldConst::from_u64_spec(8), FieldConst::from_u64_spec(22)]),
        plain_spread_table()[3] == (seq![FieldConst::from_u64_spec(4)], seq![FieldConst::from_u64_spec(16), FieldConst::from_u64_spec(86)]),
        plain_spread_table()[4] == (seq![FieldConst::from_u64_spec(5)], seq![FieldConst::from_u64_spec(32), FieldConst::from_u64_spec(342)]),
        plain_spread_table()[5] == (seq![FieldConst::from_u64_spec(6)], seq![FieldConst::from_u64_spec(64), FieldConst::from_u64_spec(1366)]),
        plain_spread_table()[6] == (seq![FieldConst::from_u64_spec(7)], seq![FieldConst::from_u64_spec(128), FieldConst::from_u64_spec(5462)]),
        plain_spread_table()[7] == (seq![FieldConst::from_u64_spec(9)], seq![FieldConst::from_u64_spec(512), FieldConst::from_u64_spec(87382)]),
        plain_spread_table()[8] == (seq![FieldConst::from_u64_spec(10)], seq![FieldConst::from_u64_spec(1024), FieldConst::from_u64_spec(349526)]),
        plain_spread_table()[9] == (seq![FieldConst::from_u64_spec(11)], seq![FieldConst::from_u64_spec(2048), FieldConst::from_u64_spec(1398102)]),
        plain_spread_table()[10] == (seq![FieldConst::from_u64_spec(12)], seq![FieldConst::from_u64_spec(4096), FieldConst::from_u64_spec(5592406)]),
{
    vstd::arithmetic::power2::lemma2_to64();
    assert(table_widths()[6] == 9);
}

/// Lookup handler that adds a range check for a plain-spread pair and calls a module
/// that declares that the latter is a functional dependency of the former.
pub struct PlainSpreadLookup {
    range_check: TagRangeLookup<1, 2>,
    spread_module: &'static str,
    unspread_module: &'static str,
}

fn table_row(n: u32) -> (r: ([FieldConst; 1], [FieldConst; 2]))
    requires
        n < 32,
    ensures
        r.0@ == seq![FieldConst::from_u64_spec(n as u64)],
        r.1@ == seq![
            FieldConst::from_u64_spec(pow2(n as nat) as u64),
            FieldConst::from_u64_spec(spec_spread_bound(n as nat) as u64),
        ],
{
    proof {
        vstd::bits::lemma_u64_pow2_no_overflow(n as nat);
        vstd::bits::lemma_u64_shl_is_mul(1, n as u64);
    }
    let tag = [FieldConst::from_u64(n as u64)];
    let bounds = [FieldConst::from_u64(1u64 << (n as u64)), FieldConst::from_u64(spread_bound(n))];
    assert(tag@ =~= seq![FieldConst::from_u64_spec(n as u64)]);
    assert(bounds@ =~= seq![
        FieldConst::from_u64_spec(pow2(n as nat) as u64),
        FieldConst::from_u64_spec(spec_spread_bound(n as nat) as u64),
    ]);
    (tag, bounds)
}

impl PlainSpreadLookup {
    pub closed spec fn spec_spread_module(&self) -> &'static str {
        self.spread_module
    }

    pub closed spec fn spec_unspread_module(&self) -> &'static str {
        self.unspread_module
    }

    /// The range check: tag at index 0, plain and spread values at indices 1 and 2, over
    /// the table's rows.
    pub closed spec fn spec_range_ok(&self) -> bool {
        &&& self.range_check.spec_tag_indices() == seq![0usize]
        &&& self.range_check.spec_value_indices() == seq![1usize, 2]
        &&& self.range_check.spec_rows() == plain_spread_table()
    }

    /// A handler that calls the two given modules.
    pub fn new(spread_module: &'static str, unspread_module: &'static str) -> (r: Self)
        ensures
            r.spec_spread_module() == spread_module,
            r.spec_unspread_module() == unspread_module,
            r.spec_range_ok(),
    {
        let lengths: [u32; 10] = [2, 3, 4, 5, 6, 7, 9, 10, 11, 12];
        let mut table: Vec<([FieldConst; 1], [FieldConst; 2])> = Vec::new();
        let zero_tag = [FieldConst::from_u64(0)];
        let zero_bounds = [FieldConst::from_u64(1), FieldConst::from_u64(1)];
        assert(zero_tag@ =~= seq![FieldConst::from_u64_spec(0)]);
        assert(zero_bounds@ =~= seq![FieldConst::from_u64_spec(1), FieldConst::from_u64_spec(1)]);
        table.push((zero_tag, zero_bounds));
        assert(row_views(table@)[0] == plain_spread_table()[0]);
        assert(row_views(table@) =~= plain_spread_table().take(1));
        assert(lengths@ =~= table_widths());
        let mut i: usize = 0;
        while i < 10
            invariant
                i <= 10,
                lengths@ == table_widths(),
                table@.len() == i + 1,
                row_views(table@) =~= plain_spread_table().take(i + 1),
            decreases 10 - i,
        {
            let n = lengths[i];
            assert(n < 32);
            let row = table_row(n);
            let ghost before = table@;
            table.push(row);
            assert(n == table_widths()[i as int]);
            let ghost expected = plain_spread_table()[i + 1];
            assert(expected.0 == seq![FieldConst::from_u64_spec(n as u64)]);
            assert(row.0@ == expected.0);
            assert(row.1@ == expected.1);
            assert((row.0@, row.1@) == expected);
            assert(table@[i + 1] == row);
            assert(row_views(table@)[i + 1] == expected);
            assert forall|k: int| 0 <= k < i + 2 implies row_views(table@)[k]
                == plain_spread_table().take(i + 2)[k] by {
                if k < i + 1 {
                    assert(table@[k] == before[k]);
                    assert(row_views(before)[k] == plain_spread_table().take(i + 1)[k]);
                }
            }
            i += 1;
            assert(row_views(table@) =~= plain_spread_table().take(i + 1));
        }
        let tag_indices: [usize; 1] = [0];
        let value_indices: [usize; 2] = [1, 2];
        assert(spec_indices_valid(tag_indices@, value_indices@)) by {
            assert(tag_indices@ =~= seq![0usize]);
            assert(value_indices@ =~= seq![1usize, 2]);
        }
        let range_check = TagRangeLookup::new(tag_indices, value_indices, table);
        assert(range_check.spec_tag_indices() =~= seq![0usize]);
        assert(range_check.spec_value_indices() =~= seq![1usize, 2]);
        assert(plain_spread_table().take(11) =~= plain_spread_table());
        PlainSpreadLookup { range_check, spread_module, unspread_module }
    }

    /// The statement of one lookup `(tag, plain, spread)`: the range check, the call of
    /// the spread module on the plain value with its output constrained to the spread
    /// value, and the call of the unspread module on the spread value with its output
    /// constrained to the plain value; the sequence and each of its statements are located
    /// at the lookup.
    pub fn on_lookup(&self, lookup: &Lookup, temps: &mut Temps) -> (r: Stmt)
        requires
            self.spec_range_ok(),
            lookup.inputs.len() >= 3,
            old(temps).next + 2 <= usize::MAX,
        ensures
            plain_spread_stmt(
                r,
                lookup.name@,
                lookup.idx,
                lookup.inputs@,
                self.spec_spread_module()@,
                self.spec_unspread_module()@,
                old(temps).next,
            ),
            final(temps).next == old(temps).next + 2,
    {
        let values = self.range_check.value_exprs(lookup);
        let range_check_ir = self.range_check.on_lookup(lookup);
        let plain = &values[0];
        let spread = &values[1];
        let t0 = temps.next_temp();
        let mut ins: Vec<Operand> = Vec::new();
        ins.push(Operand::Expr(plain.deep_clone()));
        let mut outs: Vec<usize> = Vec::new();
        outs.push(t0);
        let spread_call = Stmt::Call(self.spread_module.to_owned(), ins, outs);
        let spread_out_constr = Stmt::Eq(Operand::Expr(spread.deep_clone()), Operand::Temp(t0));
        let t1 = temps.next_temp();
        let mut ins2: Vec<Operand> = Vec::new();
        ins2.push(Operand::Expr(spread.deep_clone()));
        let mut outs2: Vec<usize> = Vec::new();
        outs2.push(t1);
        let unspread_call = Stmt::Call(self.unspread_module.to_owned(), ins2, outs2);
        let unspread_out_constr = Stmt::Eq(Operand::Expr(plain.deep_clone()), Operand::Temp(t1));
        let mut v: Vec<Stmt> = Vec::new();
        v.push(range_check_ir);
        v.push(spread_call);
        v.push(spread_out_constr);
        v.push(unspread_call);
        v.push(unspread_out_constr);
        let ghost children = v@;
        let r = locate_seq(v, lookup.name.as_str(), lookup.idx);
        proof {
            let w = unlocated(r)->Sequence_0@;
            assert(Seq::new(5, |k: int| unlocated(w[k])) =~= Seq::new(
                5,
                |k: int| unlocated(children[k]),
            ));
            assert(is_at_lookup(w[0], lookup.name@, lookup.idx));
        }
        r
    }

    /// The statement of a pair of lookups: both lookups' statements, then the axioms that
    /// where `s2 + 2 * s1`, and where `s1 + 2 * s2`, is determined, so are `s2` and `s1`.
    pub fn on_lookups(&self, lookups: &Vec<Lookup>, temps: &mut Temps) -> (r: Result<Stmt, LookupError>)
        requires
            self.spec_range_ok(),
            lookups.len() == 2 ==> forall|i: int| 0 <= i < 2 ==> (#[trigger] lookups@[i]).inputs.len() >= 3,
            old(temps).next + 4 <= usize::MAX,
        ensures
            lookups.len() != 2 ==> (r matches Err(LookupError::LookupCount { got, names }) && got
                == lookups.len() && names@ == joined(lookup_names(lookups@), ", "@)
                && final(temps).next == old(temps).next),
            lookups.len() == 2 ==> (r matches Ok(s) && plain_spread_pair_stmt(
                s,
                lookups@[0],
                lookups@[1],
                self.spec_spread_module()@,
                self.spec_unspread_module()@,
                old(temps).next,
            )),
    {
        if lookups.len() != 2 {
            let mut names: Vec<String> = Vec::new();
            let mut i: usize = 0;
            while i < lookups.len()
                invariant
                    i <= lookups.len(),
                    string_views(names@) =~= lookup_names(lookups@).take(i as int),
                decreases lookups.len() - i,
            {
                let ghost before = names@;
                names.push(lookups[i].name.clone());
                assert(string_views(names@) =~= string_views(before).push(lookups@[i as int].name@));
                assert(lookup_names(lookups@).take(i + 1) =~= lookup_names(lookups@).take(i as int).push(
                    lookups@[i as int].name@,
                ));
                i += 1;
            }
            assert(lookup_names(lookups@).take(lookups.len() as int) =~= lookup_names(lookups@));
            return Err(LookupError::LookupCount { got: lookups.len(), names: join_strings(&names, ", ") });
        }
        let first = self.on_lookup(&lookups[0], temps);
        let second = self.on_lookup(&lookups[1], temps);
        let mut per_lookup: Vec<Stmt> = Vec::new();
        per_lookup.push(first);
        per_lookup.push(second);
        let fst_spread = &lookups[0].inputs[2];
        let snd_spread = &lookups[1].inputs[2];
        let det_axioms1 = det_axiom(snd_spread, fst_spread, snd_spread, fst_spread);
        let det_axioms2 = det_axiom(fst_spread, snd_spread, snd_spread, fst_spread);
        let mut v: Vec<Stmt> = Vec::new();
        v.push(Stmt::Sequence(per_lookup));
        v.push(det_axioms1);
        v.push(det_axioms2);
        Ok(Stmt::Sequence(v))
    }
}

/// The names of the lookups.
pub open spec fn lookup_names(lookups: Seq<Lookup>) -> Seq<Seq<char>> {
    lookups.map_values(|l: Lookup| l.name@)
}

/// The sum `a + 2 * b`.
pub open spec fn weighted_sum(a: Expr, b: Expr) -> Expr {
    Expr::Sum(
        Box::new(a),
        Box::new(Expr::Product(Box::new(Expr::Constant(FieldConst::from_u64_spec(2))), Box::new(b))),
    )
}

/// Whether `s` asserts that where `a + 2 * b` is determined, so are `x` and `y`, in this
/// order.
pub open spec fn is_det_axiom(s: Stmt, a: Expr, b: Expr, x: Expr, y: Expr) -> bool {
    s matches Stmt::Assert(BoolExpr::Implies(lhs, rhs)) && *lhs == BoolExpr::Det(
        Operand::Expr(weighted_sum(a, b)),
    ) && crate::ir::is_and(*rhs, seq![BoolExpr::Det(Operand::Expr(x)), BoolExpr::Det(Operand::Expr(y))])
}

fn det_axiom(a: &Expr, b: &Expr, x: &Expr, y: &Expr) -> (r: Stmt)
    ensures
        is_det_axiom(r, *a, *b, *x, *y),
{
    let sum = Expr::Sum(
        Box::new(a.deep_clone()),
        Box::new(Expr::Product(Box::new(Expr::Constant(FieldConst::from_u64(2))), Box::new(b.deep_clone()))),
    );
    let mut both: Vec<BoolExpr> = Vec::new();
    both.push(BoolExpr::Det(Operand::Expr(x.deep_clone())));
    both.push(BoolExpr::Det(Operand::Expr(y.deep_clone())));
    assert(both@ =~= seq![BoolExpr::Det(Operand::Expr(*x)), BoolExpr::Det(Operand::Expr(*y))]);
    Stmt::Assert(BoolExpr::Implies(Box::new(BoolExpr::Det(Operand::Expr(sum))), Box::new(BoolExpr::And(both))))
}

/// The statement of one lookup, with the temporaries from `t0` on, located at the lookup
/// `name`, `idx`: the sequence and each of its five statements carry the location.
pub open spec fn plain_spread_stmt(
    s: Stmt,
    name: Seq<char>,
    idx: usize,
    inputs: Seq<Expr>,
    spread_module: Seq<char>,
    unspread_module: Seq<char>,
    t0: usize,
) -> bool {
    &&& is_at_lookup(s, name, idx)
    &&& unlocated(s) matches Stmt::Sequence(v)
    &&& v@.len() == 5
    &&& forall|k: int| 0 <= k < 5 ==> is_at_lookup(#[trigger] v@[k], name, idx)
    &&& plain_spread_parts(Seq::new(5, |k: int| unlocated(v@[k])), inputs, spread_module, unspread_module, t0)
}

/// The five statements of one lookup, without their locations.
pub open spec fn plain_spread_parts(
    v: Seq<Stmt>,
    inputs: Seq<Expr>,
    spread_module: Seq<char>,
    unspread_module: Seq<char>,
    t0: usize,
) -> bool {
    let plain = Operand::Expr(inputs[1]);
    let spread = Operand::Expr(inputs[2]);
    &&& v.len() == 5
    &&& range_check_stmt(v[0], inputs, seq![0usize], seq![1usize, 2], plain_spread_table())
    &&& is_call(v[1], spread_module, seq![plain], seq![t0])
    &&& v[2] == Stmt::Eq(spread, Operand::Temp(t0))
    &&& is_call(v[3], unspread_module, seq![spread], seq![(t0 + 1) as usize])
    &&& v[4] == Stmt::Eq(plain, Operand::Temp((t0 + 1) as usize))
}

/// The statement of a pair of lookups.
pub open spec fn plain_spread_pair_stmt(
    s: Stmt,
    first: Lookup,
    second: Lookup,
    spread_module: Seq<char>,
    unspread_module: Seq<char>,
    t0: usize,
) -> bool {
    &&& s matches Stmt::Sequence(v)
    &&& v@.len() == 3
    &&& v@[0] matches Stmt::Sequence(w) && w@.len() == 2 && plain_spread_stmt(
        w@[0],
        first.name@,
        first.idx,
        first.inputs@,
        spread_module,
        unspread_module,
        t0,
    ) && plain_spread_stmt(
        w@[1],
        second.name@,
        second.idx,
        second.inputs@,
        spread_module,
        unspread_module,
        (t0 + 2) as usize,
    )
    &&& is_det_axiom(v@[1], second.inputs@[2], first.inputs@[2], second.inputs@[2], first.inputs@[2])
    &&& is_det_axiom(v@[2], first.inputs@[2], second.inputs@[2], second.inputs@[2], first.inputs@[2])
}

} // verus!
