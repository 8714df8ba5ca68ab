//! Range checks through lookups into a table of `TAGS` tag columns and `VALUES` value
//! columns: a lookup passes when, for some row of the table, its tags equal the row's
//! tags and each of its values is below the row's bound for that value.

use vstd::prelude::*;
use std::collections::HashSet;
use crate::expr::{Expr, FieldConst};
use vstd::string::StrSliceExecFns;
use crate::ir::{BoolExpr, Lookup, Operand, Stmt, is_at_lookup, is_or_of_ands, locate, unlocated};

verus! {

broadcast use vstd::std_specs::hash::group_hash_axioms;

/// Maps a set of tag values to a set of ranges.
pub struct TagsToRangesMap<T, V, const TAGS: usize, const VALUES: usize>(
    pub Vec<([T; TAGS], [V; VALUES])>,
);

/// The set of the given indices.
pub fn to_set<const N: usize>(values: [usize; N]) -> (r: HashSet<usize>)
    ensures
        r@ == values@.to_set(),
{
    let mut set: HashSet<usize> = HashSet::new();
    let mut i: usize = 0;
    while i < N
        invariant
            i <= N,
            values@.len() == N,
            set@ == values@.take(i as int).to_set(),
        decreases N - i,
    {
        proof {
            assert(values@.take(i + 1) =~= values@.take(i as int).push(values@[i as int]));
            values@.take(i as int).lemma_push_to_set_commute(values@[i as int]);
        }
        set.insert(values[i]);
        i += 1;
    }
    assert(values@.take(N as int) =~= values@);
    set
}

/// No index occurs twice, and no index is both a tag and a value.
pub open spec fn spec_indices_valid(tags: Seq<usize>, values: Seq<usize>) -> bool {
    &&& tags.no_duplicates()
    &&& values.no_duplicates()
    &&& forall|i: int, j: int| 0 <= i < tags.len() && 0 <= j < values.len() ==> tags[i] != values[j]
}

/// Whether the indices make a valid table: no duplicate indices in either array and no
/// index on double duty.
pub fn indices_valid<const TAGS: usize, const VALUES: usize>(
    tag_indices: [usize; TAGS],
    value_indices: [usize; VALUES],
) -> (r: bool)
    ensures
        r == spec_indices_valid(tag_indices@, value_indices@),
{
    let tags_set = to_set(tag_indices);
    let values_set = to_set(value_indices);
    proof {
        if tag_indices@.no_duplicates() {
            tag_indices@.unique_seq_to_set();
        }
        if tags_set@.len() == TAGS {
            tag_indices@.lemma_no_dup_set_cardinality();
        }
        if value_indices@.no_duplicates() {
            value_indices@.unique_seq_to_set();
        }
        if values_set@.len() == VALUES {
            value_indices@.lemma_no_dup_set_cardinality();
        }
    }
    if tags_set.len() != TAGS || values_set.len() != VALUES {
        return false;
    }
    let mut i: usize = 0;
    while i < VALUES
        invariant
            i <= VALUES,
            value_indices@.len() == VALUES,
            tags_set@ == tag_indices@.to_set(),
            forall|a: int, b: int|
                0 <= a < tag_indices@.len() && 0 <= b < i ==> tag_indices@[a] != value_indices@[b],
        decreases VALUES - i,
    {
        if tags_set.contains(&value_indices[i]) {
            proof {
                assert(tag_indices@.to_set().contains(value_indices@[i as int]));
                let a = choose|a: int| 0 <= a < tag_indices@.len() && tag_indices@[a] == value_indices@[i as int];
                assert(tag_indices@[a] == value_indices@[i as int]);
            }
            return false;
        }
        proof {
            assert forall|a: int| 0 <= a < tag_indices@.len() implies tag_indices@[a]
                != value_indices@[i as int] by {
                if tag_indices@[a] == value_indices@[i as int] {
                    assert(tag_indices@.to_set().contains(tag_indices@[a]));
                }
            }
        }
        i += 1;
    }
    true
}

/// Lookup callback for handling lookups used for range constraints based on a N+M column
/// approach where N columns contain tags and M contain the contents of the lookup.
pub struct TagRangeLookup<const TAGS: usize, const VALUES: usize> {
    ranges: TagsToRangesMap<FieldConst, FieldConst, TAGS, VALUES>,
    tag_indices: [usize; TAGS],
    value_indices: [usize; VALUES],
}

/// The rows of a table, each as its tags and its value bounds.
pub open spec fn row_views<const TAGS: usize, const VALUES: usize>(
    rows: Seq<([FieldConst; TAGS], [FieldConst; VALUES])>,
) -> Seq<(Seq<FieldConst>, Seq<FieldConst>)> {
    rows.map_values(|r: ([FieldConst; TAGS], [FieldConst; VALUES])| (r.0@, r.1@))
}

/// The operand of a constant.
pub open spec fn fe_operand(c: FieldConst) -> Operand {
    Operand::Expr(Expr::Constant(c))
}

/// The conjunction for one row of the table: each tag input equals the row's tag, each
/// value input is below the row's bound.
pub open spec fn range_row(
    tag_exprs: Seq<Expr>,
    value_exprs: Seq<Expr>,
    tags: Seq<FieldConst>,
    bounds: Seq<FieldConst>,
) -> Seq<BoolExpr> {
    Seq::new(tag_exprs.len(), |i: int| BoolExpr::Eq(Operand::Expr(tag_exprs[i]), fe_operand(tags[i])))
        + Seq::new(
        value_exprs.len(),
        |j: int| BoolExpr::Lt(Operand::Expr(value_exprs[j]), fe_operand(bounds[j])),
    )
}

/// Whether `s` asserts that the inputs at the tag and value indices fit one of the rows.
pub open spec fn range_check_stmt(
    s: Stmt,
    inputs: Seq<Expr>,
    tag_indices: Seq<usize>,
    value_indices: Seq<usize>,
    rows: Seq<(Seq<FieldConst>, Seq<FieldConst>)>,
) -> bool {
    s matches Stmt::Assert(b) && is_or_of_ands(
        b,
        rows.map_values(
            |row: (Seq<FieldConst>, Seq<FieldConst>)|
                range_row(
                    Seq::new(tag_indices.len(), |i: int| inputs[tag_indices[i] as int]),
                    Seq::new(value_indices.len(), |i: int| inputs[value_indices[i] as int]),
                    row.0,
                    row.1,
                ),
        ),
    )
}

impl<const TAGS: usize, const VALUES: usize> TagRangeLookup<TAGS, VALUES> {
    pub closed spec fn spec_tag_indices(&self) -> Seq<usize> {
        self.tag_indices@
    }

    pub closed spec fn spec_value_indices(&self) -> Seq<usize> {
        self.value_indices@
    }

    /// The rows of the table: each row's tags and value bounds.
    pub closed spec fn spec_rows(&self) -> Seq<(Seq<FieldConst>, Seq<FieldConst>)> {
        row_views(self.ranges.0@)
    }

    /// Creates a new lookup handler with the given ranges associated with their tags.
    /// The arrays `tag_indices` and `value_indices` are the indices (not the columns!)
    /// in the lookup's expressions that represent each.
    ///
    /// For example, for a lookup with 1 tag and 2 values, where the tag's expression is
    /// the first one from the list the arrays are then [0] and [1,2]
    pub fn new(
        tag_indices: [usize; TAGS],
        value_indices: [usize; VALUES],
        ranges: Vec<([FieldConst; TAGS], [FieldConst; VALUES])>,
    ) -> (r: Self)
        requires
            spec_indices_valid(tag_indices@, value_indices@),
        ensures
            r.spec_tag_indices() == tag_indices@,
            r.spec_value_indices() == value_indices@,
            r.spec_rows() == row_views(ranges@),
    {
        TagRangeLookup { ranges: TagsToRangesMap(ranges), tag_indices, value_indices }
    }

    /// The lookup's inputs at the tag indices.
    pub fn tag_exprs(&self, lookup: &Lookup) -> (r: Vec<Expr>)
        requires
            forall|i: int| 0 <= i < TAGS ==> #[trigger] self.spec_tag_indices()[i] < lookup.inputs.len(),
        ensures
            r@ == Seq::new(TAGS as nat, |i: int| lookup.inputs@[self.spec_tag_indices()[i] as int]),
    {
        let mut out: Vec<Expr> = Vec::new();
        let mut i: usize = 0;
        while i < TAGS
            invariant
                i <= TAGS,
                self.tag_indices@.len() == TAGS,
                forall|k: int| 0 <= k < TAGS ==> #[trigger] self.spec_tag_indices()[k] < lookup.inputs.len(),
                out@ =~= Seq::new(i as nat, |k: int| lookup.inputs@[self.spec_tag_indices()[k] as int]),
            decreases TAGS - i,
        {
            let idx = self.tag_indices[i];
            out.push(lookup.inputs[idx].deep_clone());
            i += 1;
        }
        out
    }

    /// The lookup's inputs at the value indices.
    pub fn value_exprs(&self, lookup: &Lookup) -> (r: Vec<Expr>)
        requires
            forall|i: int| 0 <= i < VALUES ==> #[trigger] self.spec_value_indices()[i] < lookup.inputs.len(),
        ensures
            r@ == Seq::new(VALUES as nat, |i: int| lookup.inputs@[self.spec_value_indices()[i] as int]),
    {
        let mut out: Vec<Expr> = Vec::new();
        let mut i: usize = 0;
        while i < VALUES
            invariant
                i <= VALUES,
                self.value_indices@.len() == VALUES,
                forall|k: int| 0 <= k < VALUES ==> #[trigger] self.spec_value_indices()[k] < lookup.inputs.len(),
                out@ =~= Seq::new(i as nat, |k: int| lookup.inputs@[self.spec_value_indices()[k] as int]),
            decreases VALUES - i,
        {
            let idx = self.value_indices[i];
            out.push(lookup.inputs[idx].deep_clone());
            i += 1;
        }
        out
    }

    fn process_row(
        &self,
        tag_exprs: &Vec<Expr>,
        value_exprs: &Vec<Expr>,
        tags: &[FieldConst; TAGS],
        values: &[FieldConst; VALUES],
    ) -> (r: BoolExpr)
        requires
            tag_exprs.len() == TAGS,
            value_exprs.len() == VALUES,
        ensures
            crate::ir::is_and(r, range_row(tag_exprs@, value_exprs@, tags@, values@)),
    {
        let mut parts: Vec<BoolExpr> = Vec::new();
        let mut i: usize = 0;
        while i < TAGS
            invariant
                i <= TAGS,
                tag_exprs.len() == TAGS,
                tags@.len() == TAGS,
                parts@ =~= Seq::new(
                    i as nat,
                    |k: int| BoolExpr::Eq(Operand::Expr(tag_exprs@[k]), fe_operand(tags@[k])),
                ),
            decreases TAGS - i,
        {
            parts.push(BoolExpr::Eq(Operand::Expr(tag_exprs[i].deep_clone()), Operand::Expr(Expr::Constant(tags[i]))));
            i += 1;
        }
        let mut j: usize = 0;
        while j < VALUES
            invariant
                j <= VALUES,
                value_exprs.len() == VALUES,
                values@.len() == VALUES,
                parts@ =~= Seq::new(
                    TAGS as nat,
                    |k: int| BoolExpr::Eq(Operand::Expr(tag_exprs@[k]), fe_operand(tags@[k])),
                ) + Seq::new(
                    j as nat,
                    |k: int| BoolExpr::Lt(Operand::Expr(value_exprs@[k]), fe_operand(values@[k])),
                ),
            decreases VALUES - j,
        {
            parts.push(BoolExpr::Lt(Operand::Expr(value_exprs[j].deep_clone()), Operand::Expr(Expr::Constant(values[j]))));
            j += 1;
        }
        BoolExpr::And(parts)
    }

    /// The assertion that the lookup's tags and values fit some row of the table, located
    /// at the lookup.
    pub fn on_lookup(&self, lookup: &Lookup) -> (r: Stmt)
        requires
            forall|i: int| 0 <= i < TAGS ==> #[trigger] self.spec_tag_indices()[i] < lookup.inputs.len(),
            forall|i: int| 0 <= i < VALUES ==> #[trigger] self.spec_value_indices()[i] < lookup.inputs.len(),
        ensures
            is_at_lookup(r, lookup.name@, lookup.idx),
            range_check_stmt(
                unlocated(r),
                lookup.inputs@,
                self.spec_tag_indices(),
                self.spec_value_indices(),
                self.spec_rows(),
            ),
    {
        let tag_exprs = self.tag_exprs(lookup);
        let value_exprs = self.value_exprs(lookup);
        let mut rows: Vec<BoolExpr> = Vec::new();
        let mut r: usize = 0;
        while r < self.ranges.0.len()
            invariant
                r <= self.ranges.0.len(),
                tag_exprs.len() == TAGS,
                value_exprs.len() == VALUES,
                rows@.len() == r,
                forall|k: int|
                    0 <= k < r ==> crate::ir::is_and(
                        #[trigger] rows@[k],
                        range_row(tag_exprs@, value_exprs@, self.ranges.0@[k].0@, self.ranges.0@[k].1@),
                    ),
            decreases self.ranges.0.len() - r,
        {
            let row = self.process_row(&tag_exprs, &value_exprs, &self.ranges.0[r].0, &self.ranges.0[r].1);
            rows.push(row);
            r += 1;
        }
        locate(Stmt::Assert(BoolExpr::Or(rows)), lookup.name.as_str(), lookup.idx)
    }
}

} // verus!
