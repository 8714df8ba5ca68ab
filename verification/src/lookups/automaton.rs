//! Lookup handler for the transition table of parsing automata.

use vstd::prelude::*;
use vstd::arithmetic::power2::pow2;
use crate::expr::{Expr, FieldConst};
use vstd::string::StrSliceExecFns;
use crate::ir::{BoolExpr, Lookup, Operand, Stmt, Temps, is_at_lookup, is_call, locate_seq, unlocated};

verus! {

/// Lookup callback that handles parsing automata.
#[derive(Debug, Clone)]
pub struct AutomatonLookup {
    automaton_module: &'static str,
    invalid_word: u64,
}

/// The statement of a lookup `(state, letter, next_state, output)`: the letter is at
/// most the invalid word, the automaton module maps the state to three temporaries, and
/// the three temporaries equal the lookup's other inputs. The sequence and each of its
/// three statements are located at the lookup `name`, `idx`.
pub open spec fn automaton_stmt(
    s: Stmt,
    name: Seq<char>,
    idx: usize,
    inputs: Seq<Expr>,
    module: Seq<char>,
    invalid_word: u64,
    t0: usize,
) -> bool {
    &&& is_at_lookup(s, name, idx)
    &&& unlocated(s) matches Stmt::Sequence(w)
    &&& w@.len() == 3
    &&& forall|k: int| 0 <= k < 3 ==> is_at_lookup(#[trigger] w@[k], name, idx)
    &&& automaton_parts(Seq::new(3, |k: int| unlocated(w@[k])), inputs, module, invalid_word, t0)
}

/// The three statements of an automaton lookup, without their locations.
pub open spec fn automaton_parts(
    v: Seq<Stmt>,
    inputs: Seq<Expr>,
    module: Seq<char>,
    invalid_word: u64,
    t0: usize,
) -> bool {
    &&& v.len() == 3
    &&& v[0] == Stmt::Assert(
        BoolExpr::Le(
            Operand::Expr(inputs[1]),
            Operand::Expr(Expr::Constant(FieldConst::from_u64_spec(invalid_word))),
        ),
    )
    &&& is_call(
        v[1],
        module,
        seq![Operand::Expr(inputs[0])],
        seq![t0, (t0 + 1) as usize, (t0 + 2) as usize],
    )
    &&& v[2] matches Stmt::Sequence(c) && c@ == seq![
        Stmt::Eq(Operand::Expr(inputs[1]), Operand::Temp(t0)),
        Stmt::Eq(Operand::Expr(inputs[2]), Operand::Temp((t0 + 1) as usize)),
        Stmt::Eq(Operand::Expr(inputs[3]), Operand::Temp((t0 + 2) as usize)),
    ]
}

/// In the statement of an automaton lookup `(state, letter, next_state, output)`, the
/// range check bounds the letter, the input at index 1, by the invalid word; the letter
/// is also the input that the first copy equates with the call's first output, while the
/// state, the input at index 0, is the call's only argument.
pub proof fn lemma_automaton_bounds_letter(
    s: Stmt,
    name: Seq<char>,
    idx: usize,
    inputs: Seq<Expr>,
    module: Seq<char>,
    invalid_word: u64,
    t0: usize,
)
    requires
        automaton_stmt(s, name, idx, inputs, module, invalid_word, t0),
    ensures
        unlocated(s) matches Stmt::Sequence(w) && {
            &&& unlocated(w@[0]) == Stmt::Assert(
                BoolExpr::Le(
                    Operand::Expr(inputs[1]),
                    Operand::Expr(Expr::Constant(FieldConst { l0: invalid_word, l1: 0, l2: 0, l3: 0 })),
                ),
            )
            &&& unlocated(w@[1]) matches Stmt::Call(_, ins, outs) && ins@ == seq![Operand::Expr(inputs[0])]
                && outs@.len() == 3 && outs@[0] == t0
            &&& unlocated(w@[2]) matches Stmt::Sequence(c) && c@[0] == Stmt::Eq(Operand::Expr(inputs[1]), Operand::Temp(t0))
        },
{
    let w = unlocated(s)->Sequence_0@;
    assert(unlocated(w[0]) == Seq::new(3, |k: int| unlocated(w[k]))[0]);
    assert(unlocated(w[1]) == Seq::new(3, |k: int| unlocated(w[k]))[1]);
    assert(unlocated(w[2]) == Seq::new(3, |k: int| unlocated(w[k]))[2]);
}

impl AutomatonLookup {
    pub closed spec fn spec_module(&self) -> &'static str {
        self.automaton_module
    }

    /// The value that marks a letter outside the alphabet.
    pub closed spec fn spec_invalid_word(&self) -> u64 {
        self.invalid_word
    }

    /// Creates a new lookup handler for the automata of the given module, whose letters
    /// take `bitsize` bits: the invalid word is `2^bitsize + 1`.
    pub fn new(automaton_module: &'static str, bitsize: u64) -> (r: Self)
        requires
            bitsize < 64,
        ensures
            r.spec_module() == automaton_module,
            r.spec_invalid_word() == pow2(bitsize as nat) + 1,
    {
        proof {
            vstd::bits::lemma_u64_pow2_no_overflow(bitsize as nat);
            vstd::bits::lemma_u64_shl_is_mul(1, bitsize);
        }
        let invalid_word = (1u64 << bitsize) + 1;
        Self { automaton_module, invalid_word }
    }

    /// The statement of one lookup, located at the lookup.
    pub fn on_lookup(&self, lookup: &Lookup, temps: &mut Temps) -> (r: Stmt)
        requires
            lookup.inputs.len() >= 4,
            old(temps).next + 3 <= usize::MAX,
        ensures
            automaton_stmt(
                r,
                lookup.name@,
                lookup.idx,
                lookup.inputs@,
                self.spec_module()@,
                self.spec_invalid_word(),
                old(temps).next,
            ),
            final(temps).next == old(temps).next + 3,
    {
        let o0 = temps.next_temp();
        let o1 = temps.next_temp();
        let o2 = temps.next_temp();
        let mut ins: Vec<Operand> = Vec::new();
        ins.push(Operand::Expr(lookup.inputs[0].deep_clone()));
        let mut outs: Vec<usize> = Vec::new();
        outs.push(o0);
        outs.push(o1);
        outs.push(o2);
        let automaton_call = Stmt::Call(self.automaton_module.to_owned(), ins, outs);
        let mut copies: Vec<Stmt> = Vec::new();
        copies.push(Stmt::Eq(Operand::Expr(lookup.inputs[1].deep_clone()), Operand::Temp(o0)));
        copies.push(Stmt::Eq(Operand::Expr(lookup.inputs[2].deep_clone()), Operand::Temp(o1)));
        copies.push(Stmt::Eq(Operand::Expr(lookup.inputs[3].deep_clone()), Operand::Temp(o2)));
        let range_check = Stmt::Assert(
            BoolExpr::Le(
                Operand::Expr(lookup.inputs[1].deep_clone()),
                Operand::Expr(Expr::Constant(FieldConst::from_u64(self.invalid_word))),
            ),
        );
        let mut v: Vec<Stmt> = Vec::new();
        v.push(range_check);
        v.push(automaton_call);
        v.push(Stmt::Sequence(copies));
        proof {
            let t0 = old(temps).next;
            assert(outs@ =~= seq![t0, (t0 + 1) as usize, (t0 + 2) as usize]);
            assert(ins@ =~= seq![Operand::Expr(lookup.inputs@[0])]);
            assert(copies@ =~= seq![
                Stmt::Eq(Operand::Expr(lookup.inputs@[1]), Operand::Temp(t0)),
                Stmt::Eq(Operand::Expr(lookup.inputs@[2]), Operand::Temp((t0 + 1) as usize)),
                Stmt::Eq(Operand::Expr(lookup.inputs@[3]), Operand::Temp((t0 + 2) as usize)),
            ]);
        }
        let ghost children = v@;
        let r = locate_seq(v, lookup.name.as_str(), lookup.idx);
        proof {
            let w = unlocated(r)->Sequence_0@;
            assert(Seq::new(3, |k: int| unlocated(w[k])) =~= children);
        }
        r
    }
}

/// Lookup callback that emits an empty statement.
#[derive(Debug, Copy, Clone)]
pub struct IgnoreLookup;

impl IgnoreLookup {
    /// The statement of any lookup: nothing.
    pub fn on_lookup(&self, lookup: &Lookup) -> (r: Stmt)
        ensures
            r == Stmt::Empty,
    {
        Stmt::Empty
    }
}

} // verus!
