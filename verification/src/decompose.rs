//! Gate rewrite pattern for the decomposition constraints of the core decomposition chip.
//!
//! Every row of a matched gate holds a polynomial `x + (y + (z + -w))`. Its sums are flattened
//! into the leaves `[x, y, z, -w]`; the leaf `-w`, a negated advice query at rotation 0,
//! is the left-hand side of the row's equality `w = x + y + z`. When a leaf of the right
//! hand side queries the same column as `w` at another rotation, the equality is
//! recursive: the next row's equality, with its rotations moved by one row, replaces that
//! leaf. Unrolled over all rows, the terms are ordered by their coefficients and summed
//! up again from the left, giving one equality for the whole region. A region that does
//! not fit this shape keeps one `polynomial == 0` constraint per row.

use vstd::prelude::*;
use crate::expr::{AdviceQuery, Expr, FieldConst, Phase, Query, clone_exprs, expr_size};
use crate::text::str_eq;

verus! {

broadcast use vstd::seq_lib::group_seq_properties;

/// Why a region could not be rewritten into a single equality.
#[derive(Clone, Copy, Debug, PartialEq, Eq, Structural)]
pub enum RewriteFailure {
    /// The region has no polynomial.
    EmptyExprs,
    /// A leaf of a flattened sum holds a sum inside another operation.
    NestedSum,
    /// No leaf is a negated advice query at rotation 0.
    NoLhsAnchor,
    /// A row before the last does not refer to the next one.
    NotRecursive,
    /// The unrolled right-hand side has no term.
    NoAnchorRhs,
}

impl RewriteFailure {
    /// The reason, in words.
    pub fn message(&self) -> (r: &'static str)
        ensures
            r@ == match *self {
                RewriteFailure::EmptyExprs => "Exprs list is empty"@,
                RewriteFailure::NestedSum => "The expressions inside a non-sum contains sums"@,
                RewriteFailure::NoLhsAnchor => "Could not find the lhs anchor"@,
                RewriteFailure::NotRecursive => "Not recursive"@,
                RewriteFailure::NoAnchorRhs => "No anchor rhs"@,
            },
    {
        match self {
            RewriteFailure::EmptyExprs => "Exprs list is empty",
            RewriteFailure::NestedSum => "The expressions inside a non-sum contains sums",
            RewriteFailure::NoLhsAnchor => "Could not find the lhs anchor",
            RewriteFailure::NotRecursive => "Not recursive",
            RewriteFailure::NoAnchorRhs => "No anchor rhs",
        }
    }
}

/// Whether the expression has a sum anywhere inside it.
pub open spec fn spec_contains_sum(e: Expr) -> bool
    decreases e,
{
    match e {
        Expr::Negated(inner) => spec_contains_sum(*inner),
        Expr::Sum(_, _) => true,
        Expr::Product(l, r) => spec_contains_sum(*l) || spec_contains_sum(*r),
        Expr::Scaled(inner, _) => spec_contains_sum(*inner),
        _ => false,
    }
}

/// Number of leaves of the expression's tree of sums.
pub open spec fn spec_n_leafs(e: Expr) -> nat
    decreases e,
{
    match e {
        Expr::Sum(l, r) => spec_n_leafs(*l) + spec_n_leafs(*r),
        _ => 1,
    }
}

/// Returns true if the expression contains a sum operand inside.
fn contains_sum(e: &Expr) -> (r: bool)
    ensures
        r == spec_contains_sum(*e),
    decreases e,
{
    match e {
        Expr::Negated(inner) => contains_sum(inner),
        Expr::Sum(_, _) => true,
        Expr::Product(l, r) => contains_sum(l) || contains_sum(r),
        Expr::Scaled(inner, _) => contains_sum(inner),
        _ => false,
    }
}

/// The leaf count of a sum is the sum of its operands' counts; every other expression,
/// sums inside it included, is one leaf; so every expression has at least one leaf.
pub proof fn lemma_n_leafs(e: Expr)
    ensures
        spec_n_leafs(e) >= 1,
        e matches Expr::Sum(a, b) ==> spec_n_leafs(e) == spec_n_leafs(*a) + spec_n_leafs(*b),
        !(e is Sum) ==> spec_n_leafs(e) == 1,
    decreases e,
{
    if let Expr::Sum(a, b) = e {
        lemma_n_leafs(*a);
        lemma_n_leafs(*b);
    }
}

/// Returns how many leaf nodes a flattened-sum version of this expression would have.
pub fn n_leafs(e: &Expr) -> (r: usize)
    requires
        spec_n_leafs(*e) <= usize::MAX,
    ensures
        r == spec_n_leafs(*e),
    decreases e,
{
    match e {
        Expr::Sum(l, r) => n_leafs(l) + n_leafs(r),
        _ => 1,
    }
}

/// Total number of nodes of the expressions of a work list.
pub open spec fn queue_size(q: Seq<Expr>) -> nat
    decreases q.len(),
{
    if q.len() == 0 {
        0
    } else {
        expr_size(q[0]) + queue_size(q.drop_first())
    }
}

proof fn lemma_queue_size_push(q: Seq<Expr>, x: Expr)
    ensures
        queue_size(q.push(x)) == queue_size(q) + expr_size(x),
    decreases q.len(),
{
    if q.len() > 0 {
        assert(q.push(x).drop_first() =~= q.drop_first().push(x));
        lemma_queue_size_push(q.drop_first(), x);
    } else {
        assert(q.push(x).drop_first() =~= Seq::<Expr>::empty());
    }
}

proof fn lemma_expr_size_pos(e: Expr)
    ensures
        expr_size(e) >= 1,
{
}

/// Popping the front of a work list, and replacing a sum there by its operands at the
/// back, both shrink the list's total size.
proof fn lemma_queue_step(queue: Seq<Expr>)
    requires
        queue.len() > 0,
    ensures
        queue_size(queue.drop_first()) < queue_size(queue),
        match queue[0] {
            Expr::Sum(l, r) => queue_size(queue.drop_first().push(*l).push(*r)) < queue_size(
                queue,
            ),
            _ => true,
        },
{
    lemma_expr_size_pos(queue[0]);
    if let Expr::Sum(l, r) = queue[0] {
        lemma_queue_size_push(queue.drop_first(), *l);
        lemma_queue_size_push(queue.drop_first().push(*l), *r);
    }
}

#[via_fn]
proof fn bfs_leaves_decreases(queue: Seq<Expr>) {
    if queue.len() > 0 {
        lemma_queue_step(queue);
    }
}

/// The leaves of the sums of a work list of expressions, taken breadth first: a sum at
/// the front of the list puts its two operands at the back; any other expression is a
/// leaf, and the flattening fails (`None`) at the first leaf that still holds a sum.
pub open spec fn bfs_leaves(queue: Seq<Expr>) -> Option<Seq<Expr>>
    decreases queue_size(queue),
    via bfs_leaves_decreases
{
    if queue.len() == 0 {
        Some(Seq::empty())
    } else {
        match queue[0] {
            Expr::Sum(l, r) => bfs_leaves(queue.drop_first().push(*l).push(*r)),
            _ => if spec_contains_sum(queue[0]) {
                None
            } else {
                match bfs_leaves(queue.drop_first()) {
                    Some(rest) => Some(seq![queue[0]] + rest),
                    None => None,
                }
            },
        }
    }
}

/// The flattened sums of one expression.
pub open spec fn spec_flatten(e: Expr) -> Option<Seq<Expr>> {
    bfs_leaves(seq![e])
}

/// Total number of sum leaves of the expressions of a work list.
pub open spec fn queue_leafs(q: Seq<Expr>) -> nat
    decreases q.len(),
{
    if q.len() == 0 {
        0
    } else {
        spec_n_leafs(q[0]) + queue_leafs(q.drop_first())
    }
}

proof fn lemma_queue_leafs_push(q: Seq<Expr>, x: Expr)
    ensures
        queue_leafs(q.push(x)) == queue_leafs(q) + spec_n_leafs(x),
    decreases q.len(),
{
    if q.len() > 0 {
        assert(q.push(x).drop_first() =~= q.drop_first().push(x));
        lemma_queue_leafs_push(q.drop_first(), x);
    } else {
        assert(q.push(x).drop_first() =~= Seq::<Expr>::empty());
    }
}

proof fn lemma_bfs_leaves(queue: Seq<Expr>)
    ensures
        bfs_leaves(queue) matches Some(leaves) ==> {
            &&& leaves.len() == queue_leafs(queue)
            &&& forall|i: int| 0 <= i < leaves.len() ==> !(#[trigger] leaves[i] is Sum) && !spec_contains_sum(leaves[i])
        },
    decreases queue_size(queue),
{
    if queue.len() > 0 {
        lemma_queue_step(queue);
        match queue[0] {
            Expr::Sum(l, r) => {
                let q2 = queue.drop_first().push(*l).push(*r);
                lemma_bfs_leaves(q2);
                lemma_queue_leafs_push(queue.drop_first(), *l);
                lemma_queue_leafs_push(queue.drop_first().push(*l), *r);
            },
            _ => {
                lemma_bfs_leaves(queue.drop_first());
                if let Some(rest) = bfs_leaves(queue.drop_first()) {
                    if !spec_contains_sum(queue[0]) {
                        let leaves = seq![queue[0]] + rest;
                        assert forall|i: int| 0 <= i < leaves.len() implies !(#[trigger] leaves[i] is Sum) && !spec_contains_sum(leaves[i]) by {
                            if i > 0 {
                                assert(leaves[i] == rest[i - 1]);
                            }
                        }
                    }
                }
            },
        }
    }
}

/// Flattening an expression's sums gives as many leaves as the tree of sums has, and no
/// leaf is or holds a sum.
pub proof fn lemma_flatten_leaves(e: Expr)
    ensures
        spec_flatten(e) matches Some(leaves) ==> {
            &&& leaves.len() == spec_n_leafs(e)
            &&& forall|i: int| 0 <= i < leaves.len() ==> !(#[trigger] leaves[i] is Sum) && !spec_contains_sum(leaves[i])
        },
{
    lemma_bfs_leaves(seq![e]);
    assert(seq![e].drop_first() =~= Seq::<Expr>::empty());
    assert(queue_leafs(seq![e]) == spec_n_leafs(e) + queue_leafs(Seq::<Expr>::empty()));
}

/// Flattens the expression tree of all sums. Fails if a leaf node has a sum inside.
fn flatten_sums(expr: &Expr) -> (r: Result<Vec<Expr>, RewriteFailure>)
    requires
        spec_n_leafs(*expr) <= usize::MAX,
    ensures
        match r {
            Ok(v) => spec_flatten(*expr) == Some(v@),
            Err(f) => spec_flatten(*expr) is None && f == RewriteFailure::NestedSum,
        },
{
    let mut sums: Vec<Expr> = Vec::with_capacity(n_leafs(expr));
    let mut worklist: std::collections::VecDeque<Expr> = std::collections::VecDeque::new();
    worklist.push_back(expr.deep_clone());
    assert(worklist@ =~= seq![*expr]);
    while worklist.len() > 0
        invariant
            spec_flatten(*expr) == match bfs_leaves(worklist@) {
                Some(rest) => Some(sums@ + rest),
                None => None::<Seq<Expr>>,
            },
        decreases queue_size(worklist@),
    {
        proof {
            lemma_queue_step(worklist@);
        }
        let ghost before = worklist@;
        let popped = worklist.pop_front();
        let e = match popped {
            Some(e) => e,
            None => {
                return Err(RewriteFailure::NestedSum);
            },
        };
        assert(worklist@ =~= before.drop_first());
        match e {
            Expr::Sum(lhs, rhs) => {
                worklist.push_back(*lhs);
                worklist.push_back(*rhs);
            },
            e => {
                if contains_sum(&e) {
                    return Err(RewriteFailure::NestedSum);
                }
                proof {
                    assert(sums@.push(e) + bfs_leaves(worklist@).unwrap_or(Seq::empty())
                        =~= sums@ + (seq![e] + bfs_leaves(worklist@).unwrap_or(Seq::empty())));
                }
                sums.push(e);
            },
        }
    }
    Ok(sums)
}

/// Whether two advice queries read the same cell: same column and same rotation (the
/// phase is not compared).
pub open spec fn spec_advice_query_eq(a: AdviceQuery, b: AdviceQuery) -> bool {
    a.column == b.column && a.rotation == b.rotation
}

/// Because the definition of equality in == takes into account things that we don't care
/// about and would make queries that we would consider equal not to be.
fn advice_query_eq(lhs: &AdviceQuery, rhs: &AdviceQuery) -> (r: bool)
    ensures
        r == spec_advice_query_eq(*lhs, *rhs),
{
    lhs.column == rhs.column && lhs.rotation == rhs.rotation
}

/// The left-hand side `w` of a row's equality `w = rhs` refers to another row when no
/// advice query of `rhs` reads `w`'s own cell and some advice query of `rhs` reads `w`'s
/// column at another rotation.
pub open spec fn spec_is_recursive(lhs: AdviceQuery, rhs: Seq<Expr>) -> bool {
    &&& forall|i: int|
        0 <= i < rhs.len() && #[trigger] rhs[i] is Advice ==> !spec_advice_query_eq(
            rhs[i]->Advice_0,
            lhs,
        )
    &&& exists|i: int|
        0 <= i < rhs.len() && #[trigger] rhs[i] is Advice && rhs[i]->Advice_0.column == lhs.column
            && rhs[i]->Advice_0.rotation != lhs.rotation
}

/// Returns true if for a given equality there is an advice query with a rotation other
/// than 0 to the same advice column in the lhs of the equality and the rhs is not
/// self-referential to the lhs.
fn is_recursive(lhs: &AdviceQuery, rhs: &Vec<Expr>) -> (r: bool)
    ensures
        r == spec_is_recursive(*lhs, rhs@),
{
    let mut i: usize = 0;
    while i < rhs.len()
        invariant
            i <= rhs.len(),
            forall|j: int|
                0 <= j < i && #[trigger] rhs@[j] is Advice ==> !spec_advice_query_eq(
                    rhs@[j]->Advice_0,
                    *lhs,
                ),
        decreases rhs.len() - i,
    {
        if let Expr::Advice(q) = &rhs[i] {
            if advice_query_eq(q, lhs) {
                assert(rhs@[i as int] is Advice);
                return false;
            }
        }
        i += 1;
    }
    let mut k: usize = 0;
    while k < rhs.len()
        invariant
            k <= rhs.len(),
            forall|j: int|
                0 <= j < rhs.len() && #[trigger] rhs@[j] is Advice ==> !spec_advice_query_eq(
                    rhs@[j]->Advice_0,
                    *lhs,
                ),
            forall|j: int|
                0 <= j < k && #[trigger] rhs@[j] is Advice ==> !(rhs@[j]->Advice_0.column
                    == lhs.column && rhs@[j]->Advice_0.rotation != lhs.rotation),
        decreases rhs.len() - k,
    {
        if let Expr::Advice(q) = &rhs[k] {
            if q.column == lhs.column && q.rotation != lhs.rotation {
                assert(rhs@[k as int] is Advice);
                return true;
            }
        }
        k += 1;
    }
    false
}

/// A negated advice query at rotation 0: the anchor of a row's equality.
pub open spec fn is_anchor(e: Expr) -> bool {
    match e {
        Expr::Negated(x) => match *x {
            Expr::Advice(q) => q.rotation == 0,
            _ => false,
        },
        _ => false,
    }
}

/// The advice query under an anchor.
pub open spec fn anchor_query(e: Expr) -> AdviceQuery
    recommends
        is_anchor(e),
{
    match e {
        Expr::Negated(x) => match *x {
            Expr::Advice(q) => q,
            _ => AdviceQuery { column: 0, rotation: 0, phase: Phase::First },
        },
        _ => AdviceQuery { column: 0, rotation: 0, phase: Phase::First },
    }
}

/// Index of the first anchor of the leaves, or -1 when there is none.
pub open spec fn first_anchor(s: Seq<Expr>) -> int
    decreases s.len(),
{
    if s.len() == 0 {
        -1
    } else if is_anchor(s[0]) {
        0
    } else {
        let r = first_anchor(s.drop_first());
        if r < 0 {
            -1
        } else {
            r + 1
        }
    }
}

proof fn lemma_first_anchor(s: Seq<Expr>, i: int)
    requires
        0 <= i <= s.len(),
        forall|j: int| 0 <= j < i ==> !is_anchor(#[trigger] s[j]),
        i < s.len() ==> is_anchor(s[i]),
    ensures
        first_anchor(s) == if i == s.len() {
            -1
        } else {
            i
        },
    decreases i,
{
    if i > 0 {
        assert(!is_anchor(s[0]));
        assert forall|j: int| 0 <= j < i - 1 implies !is_anchor(#[trigger] s.drop_first()[j]) by {
            assert(s.drop_first()[j] == s[j + 1]);
        }
        lemma_first_anchor(s.drop_first(), i - 1);
    }
}

fn anchor_of(e: &Expr) -> (r: Option<AdviceQuery>)
    ensures
        r == if is_anchor(*e) {
            Some(anchor_query(*e))
        } else {
            None::<AdviceQuery>
        },
{
    match e {
        Expr::Negated(x) => match &**x {
            Expr::Advice(q) => if q.rotation == 0 {
                Some(*q)
            } else {
                None
            },
            _ => None,
        },
        _ => None,
    }
}

/// The equality of one row: its polynomial's leaves, with the first anchor taken out by
/// a swap with the last leaf, make up the right-hand side.
pub open spec fn spec_row_equation(e: Expr) -> Result<(AdviceQuery, Seq<Expr>), RewriteFailure> {
    match spec_flatten(e) {
        None => Err(RewriteFailure::NestedSum),
        Some(leaves) => {
            let p = first_anchor(leaves);
            if p < 0 {
                Err(RewriteFailure::NoLhsAnchor)
            } else {
                Ok((anchor_query(leaves[p]), leaves.update(p, leaves.last()).drop_last()))
            }
        },
    }
}

/// The equalities of the first `k` rows, in order, or the failure of the first row that
/// does not give one. A row before the last row that is not recursive fails.
pub open spec fn spec_equations(exprs: Seq<(usize, Expr)>, k: nat) -> Result<
    Seq<(usize, AdviceQuery, Seq<Expr>)>,
    RewriteFailure,
>
    decreases k,
{
    if k == 0 || k > exprs.len() {
        Ok(Seq::empty())
    } else {
        match spec_equations(exprs, (k - 1) as nat) {
            Err(f) => Err(f),
            Ok(prev) => {
                let row = exprs[k - 1].0;
                match spec_row_equation(exprs[k - 1].1) {
                    Err(f) => Err(f),
                    Ok(eq) => if !spec_is_recursive(eq.0, eq.1) && row < exprs.last().0 {
                        Err(RewriteFailure::NotRecursive)
                    } else {
                        Ok(prev.push((row, eq.0, eq.1)))
                    },
                }
            },
        }
    }
}

/// Whether a rotation moved by `by` rows stays within `i32`.
pub open spec fn rot_fits(r: i32, by: int) -> bool {
    i32::MIN <= r + by <= i32::MAX
}

/// Whether every query of the expression can be moved by `by` rows. A sum cannot be
/// moved: the leaves of a flattened sum never are sums.
pub open spec fn expr_bump_fits(e: Expr, by: int) -> bool
    decreases e,
{
    match e {
        Expr::Fixed(q) => rot_fits(q.rotation, by),
        Expr::Advice(q) => rot_fits(q.rotation, by),
        Expr::Instance(q) => rot_fits(q.rotation, by),
        Expr::Negated(inner) => expr_bump_fits(*inner, by),
        Expr::Sum(_, _) => false,
        Expr::Product(l, r) => expr_bump_fits(*l, by) && expr_bump_fits(*r, by),
        Expr::Scaled(inner, _) => expr_bump_fits(*inner, by),
        _ => true,
    }
}

/// The advice query moved by `by` rows.
pub open spec fn bump_query(q: AdviceQuery, by: int) -> AdviceQuery {
    AdviceQuery { column: q.column, rotation: (q.rotation + by) as i32, phase: q.phase }
}

/// The expression with the rotation of every column query moved by `by` rows.
pub open spec fn bump_e(e: Expr, by: int) -> Expr
    decreases e,
{
    match e {
        Expr::Fixed(q) => Expr::Fixed(Query { column: q.column, rotation: (q.rotation + by) as i32 }),
        Expr::Advice(q) => Expr::Advice(bump_query(q, by)),
        Expr::Instance(q) => Expr::Instance(
            Query { column: q.column, rotation: (q.rotation + by) as i32 },
        ),
        Expr::Negated(inner) => Expr::Negated(Box::new(bump_e(*inner, by))),
        Expr::Product(l, r) => Expr::Product(Box::new(bump_e(*l, by)), Box::new(bump_e(*r, by))),
        Expr::Scaled(inner, c) => Expr::Scaled(Box::new(bump_e(*inner, by)), c),
        _ => e,
    }
}

pub open spec fn bump_fn(by: int) -> spec_fn(Expr) -> Expr {
    |x: Expr| bump_e(x, by)
}

fn bump_rot(r: i32, by: i32) -> (o: i32)
    requires
        rot_fits(r, by as int),
    ensures
        o == r + by,
{
    r + by
}

fn bump_advice_query(q: &AdviceQuery, offset: i32) -> (r: AdviceQuery)
    requires
        rot_fits(q.rotation, offset as int),
    ensures
        r == bump_query(*q, offset as int),
{
    AdviceQuery { column: q.column, rotation: bump_rot(q.rotation, offset), phase: q.phase }
}

fn bump_expr(e: &Expr, by: i32) -> (r: Expr)
    requires
        expr_bump_fits(*e, by as int),
    ensures
        r == bump_e(*e, by as int),
    decreases e,
{
    match e {
        Expr::Fixed(q) => Expr::Fixed(Query { column: q.column, rotation: bump_rot(q.rotation, by) }),
        Expr::Advice(q) => Expr::Advice(bump_advice_query(q, by)),
        Expr::Instance(q) => Expr::Instance(
            Query { column: q.column, rotation: bump_rot(q.rotation, by) },
        ),
        Expr::Negated(inner) => Expr::Negated(Box::new(bump_expr(inner, by))),
        Expr::Product(l, r) => Expr::Product(
            Box::new(bump_expr(l, by)),
            Box::new(bump_expr(r, by)),
        ),
        Expr::Scaled(inner, c) => Expr::Scaled(Box::new(bump_expr(inner, by)), *c),
        _ => e.deep_clone(),
    }
}

/// Moves the rotation of every query of an equality by `by` rows.
fn bump_offsets(lhs: &AdviceQuery, rhs: &Vec<Expr>, by: i32) -> (r: (AdviceQuery, Vec<Expr>))
    requires
        rot_fits(lhs.rotation, by as int),
        forall|i: int| 0 <= i < rhs.len() ==> expr_bump_fits(#[trigger] rhs@[i], by as int),
    ensures
        r.0 == bump_query(*lhs, by as int),
        r.1@ == rhs@.map_values(bump_fn(by as int)),
{
    let q = bump_advice_query(lhs, by);
    let mut out: Vec<Expr> = Vec::new();
    let mut i: usize = 0;
    while i < rhs.len()
        invariant
            i <= rhs.len(),
            forall|j: int| 0 <= j < rhs.len() ==> expr_bump_fits(#[trigger] rhs@[j], by as int),
            out@ =~= rhs@.take(i as int).map_values(bump_fn(by as int)),
        decreases rhs.len() - i,
    {
        out.push(bump_expr(&rhs[i], by));
        i += 1;
        assert(out@ =~= rhs@.take(i as int).map_values(bump_fn(by as int)));
    }
    assert(rhs@.take(rhs.len() as int) =~= rhs@);
    (q, out)
}

/// A term that the unrolled row replaces: an advice query of the given cell.
pub open spec fn keep_term(q: AdviceQuery) -> spec_fn(Expr) -> bool {
    |x: Expr| !(x is Advice && spec_advice_query_eq(x->Advice_0, q))
}

fn retain_unmatched(terms: Vec<Expr>, q: &AdviceQuery) -> (r: Vec<Expr>)
    ensures
        r@ == terms@.filter(keep_term(*q)),
{
    let mut out: Vec<Expr> = Vec::new();
    let mut i: usize = 0;
    while i < terms.len()
        invariant
            i <= terms.len(),
            out@ == terms@.take(i as int).filter(keep_term(*q)),
        decreases terms.len() - i,
    {
        let keep = match &terms[i] {
            Expr::Advice(a) => !advice_query_eq(a, q),
            _ => true,
        };
        proof {
            assert(terms@.take(i + 1) =~= terms@.take(i as int).push(terms@[i as int]));
            terms@.take(i as int).lemma_filter_push(terms@[i as int], keep_term(*q));
        }
        if keep {
            out.push(terms[i].deep_clone());
        }
        i += 1;
    }
    assert(terms@.take(terms.len() as int) =~= terms@);
    out
}

/// Index of the last equality of the given row (a later equality of a row replaces an
/// earlier one), or -1.
pub open spec fn find_row(eqs: Seq<(usize, AdviceQuery, Seq<Expr>)>, row: int) -> int
    decreases eqs.len(),
{
    if eqs.len() == 0 {
        -1
    } else if eqs.last().0 == row {
        eqs.len() - 1
    } else {
        find_row(eqs.drop_last(), row)
    }
}

/// Whether some equality is for the given row.
pub open spec fn row_present(eqs: Seq<(usize, AdviceQuery, Seq<Expr>)>, row: int) -> bool {
    exists|i: int| 0 <= i < eqs.len() && eqs[i].0 == row
}

proof fn lemma_find_row(eqs: Seq<(usize, AdviceQuery, Seq<Expr>)>, row: int)
    ensures
        -1 <= find_row(eqs, row) < eqs.len(),
        find_row(eqs, row) >= 0 ==> eqs[find_row(eqs, row)].0 == row,
        row_present(eqs, row) ==> find_row(eqs, row) >= 0,
    decreases eqs.len(),
{
    if eqs.len() > 0 && eqs.last().0 != row {
        lemma_find_row(eqs.drop_last(), row);
        if row_present(eqs, row) {
            let i = choose|i: int| 0 <= i < eqs.len() && eqs[i].0 == row;
            assert(eqs.drop_last()[i].0 == row);
        }
    }
}

/// The equality of the given row.
pub open spec fn lookup(eqs: Seq<(usize, AdviceQuery, Seq<Expr>)>, row: int) -> (
    usize,
    AdviceQuery,
    Seq<Expr>,
) {
    eqs[find_row(eqs, row)]
}

/// The right-hand side after unrolling the first `k` rows: each further row's equality,
/// moved down to the first row, takes the place of the terms that query its left-hand
/// side's cell, its own terms going to the end.
pub open spec fn unroll(eqs: Seq<(usize, AdviceQuery, Seq<Expr>)>, base: int, k: nat) -> Seq<Expr>
    decreases k,
{
    if k <= 1 {
        lookup(eqs, base).2
    } else {
        let off = k - 1;
        let e = lookup(eqs, base + off);
        unroll(eqs, base, (k - 1) as nat).filter(keep_term(bump_query(e.1, off))) + e.2.map_values(
            bump_fn(off),
        )
    }
}

/// A term of the unrolled right-hand side that the ordering can compare: an advice query,
/// or a constant times an advice query.
pub open spec fn sortable_term(e: Expr) -> bool {
    match e {
        Expr::Advice(_) => true,
        Expr::Product(l, r) => *l is Constant && *r is Advice,
        _ => false,
    }
}

/// `a` goes before `b`: both are products and `a`'s constant is the smaller one.
pub open spec fn term_less(a: Expr, b: Expr) -> bool {
    match (a, b) {
        (Expr::Product(al, _), Expr::Product(bl, _)) => match (*al, *bl) {
            (Expr::Constant(ca), Expr::Constant(cb)) => ca.value() < cb.value(),
            _ => false,
        },
        _ => false,
    }
}

/// Inserts `x` at the end of `s`, then moves it left past every term that it goes before.
pub open spec fn insert_term(s: Seq<Expr>, x: Expr) -> Seq<Expr>
    decreases s.len(),
{
    if s.len() > 0 && term_less(x, s.last()) {
        insert_term(s.drop_last(), x).push(s.last())
    } else {
        s.push(x)
    }
}

/// Insertion sort by `term_less`: products ordered by their constants, stable, an advice
/// query staying behind the terms that come before it.
pub open spec fn sort_terms_spec(s: Seq<Expr>) -> Seq<Expr>
    decreases s.len(),
{
    if s.len() == 0 {
        s
    } else {
        insert_term(sort_terms_spec(s.drop_last()), s.last())
    }
}

proof fn lemma_insert_term_len(s: Seq<Expr>, x: Expr)
    ensures
        insert_term(s, x).len() == s.len() + 1,
        forall|e: Expr| #[trigger] insert_term(s, x).contains(e) ==> s.contains(e) || e == x,
    decreases s.len(),
{
    if s.len() > 0 && term_less(x, s.last()) {
        lemma_insert_term_len(s.drop_last(), x);
        assert forall|e: Expr| #[trigger] insert_term(s, x).contains(e) implies s.contains(e)
            || e == x by {
            let t = insert_term(s.drop_last(), x);
            let j = choose|j: int| 0 <= j < t.push(s.last()).len() && t.push(s.last())[j] == e;
            if j < t.len() {
                assert(t.contains(e));
                if e != x {
                    let k = choose|k: int| 0 <= k < s.drop_last().len() && s.drop_last()[k] == e;
                    assert(s[k] == e);
                }
            } else {
                assert(s[s.len() - 1] == e);
            }
        }
    } else {
        assert forall|e: Expr| #[trigger] insert_term(s, x).contains(e) implies s.contains(e)
            || e == x by {
            let j = choose|j: int| 0 <= j < s.push(x).len() && s.push(x)[j] == e;
            if j < s.len() {
                assert(s[j] == e);
            }
        }
    }
}

fn term_less_exec(a: &Expr, b: &Expr) -> (r: bool)
    requires
        sortable_term(*a),
        sortable_term(*b),
    ensures
        r == term_less(*a, *b),
{
    match (a, b) {
        (Expr::Product(al, _), Expr::Product(bl, _)) => match (&**al, &**bl) {
            (Expr::Constant(ca), Expr::Constant(cb)) => !cb.le(ca),
            _ => false,
        },
        _ => false,
    }
}

/// Orders the terms as the unrolled equality presents them.
#[verifier::spinoff_prover]
#[verifier::rlimit(40)]
fn sort_terms(terms: &Vec<Expr>) -> (r: Vec<Expr>)
    requires
        terms.len() >= 2 ==> forall|i: int| 0 <= i < terms.len() ==> sortable_term(#[trigger] terms@[i]),
    ensures
        r@ == sort_terms_spec(terms@),
{
    let mut out: Vec<Expr> = Vec::new();
    let mut i: usize = 0;
    while i < terms.len()
        invariant
            i <= terms.len(),
            terms.len() >= 2 ==> forall|k: int| 0 <= k < terms.len() ==> sortable_term(#[trigger] terms@[k]),
            out@ == sort_terms_spec(terms@.take(i as int)),
            out.len() == i,
            terms.len() >= 2 ==> forall|k: int| 0 <= k < out.len() ==> sortable_term(#[trigger] out@[k]),
        decreases terms.len() - i,
    {
        let x = terms[i].deep_clone();
        let mut j: usize = out.len();
        while j > 0 && term_less_exec(&x, &out[j - 1])
            invariant
                j <= out.len(),
                x == terms@[i as int],
                i < terms.len(),
                terms.len() >= 2 ==> forall|k: int| 0 <= k < terms.len() ==> sortable_term(#[trigger] terms@[k]),
                terms.len() >= 2 ==> forall|k: int| 0 <= k < out.len() ==> sortable_term(#[trigger] out@[k]),
                out.len() == i,
                insert_term(out@, x) == insert_term(out@.take(j as int), x) + out@.skip(j as int),
            decreases j,
        {
            proof {
                let t = out@.take(j as int);
                assert(t.drop_last() =~= out@.take(j - 1));
                assert(t.last() == out@[j - 1]);
                assert(out@.skip(j - 1) =~= seq![out@[j - 1]] + out@.skip(j as int));
                assert(insert_term(t.drop_last(), x).push(t.last()) + out@.skip(j as int)
                    =~= insert_term(out@.take(j - 1), x) + out@.skip(j - 1));
            }
            j -= 1;
        }
        proof {
            let t = out@.take(j as int);
            if j > 0 {
                assert(t.last() == out@[j - 1]);
            }
            assert(insert_term(t, x) == t.push(x));
            assert(out@.insert(j as int, x) =~= t.push(x) + out@.skip(j as int));
            assert(terms@.take(i + 1).drop_last() =~= terms@.take(i as int));
            lemma_insert_term_len(out@, x);
        }
        out.insert(j, x);
        proof {
            assert forall|k: int| 0 <= k < out.len() && terms.len() >= 2 implies sortable_term(
                #[trigger] out@[k],
            ) by {
                let old_out = sort_terms_spec(terms@.take(i as int));
                assert(insert_term(old_out, terms@[i as int]).contains(out@[k]));
                if out@[k] != terms@[i as int] {
                    let m = choose|m: int| 0 <= m < old_out.len() && old_out[m] == out@[k];
                }
            }
        }
        i += 1;
    }
    assert(terms@.take(terms.len() as int) =~= terms@);
    out
}

proof fn lemma_insert_term_multiset(s: Seq<Expr>, x: Expr)
    ensures
        insert_term(s, x).to_multiset() =~= s.to_multiset().insert(x),
    decreases s.len(),
{
    broadcast use vstd::seq_lib::group_to_multiset_ensures;
    broadcast use vstd::multiset::group_multiset_axioms;

    if s.len() > 0 && term_less(x, s.last()) {
        lemma_insert_term_multiset(s.drop_last(), x);
        assert(s.drop_last().push(s.last()) =~= s);
    }
}

/// The ordering of the unrolled terms keeps every term: it is a permutation.
pub proof fn lemma_sort_terms_permutes(s: Seq<Expr>)
    ensures
        sort_terms_spec(s).to_multiset() =~= s.to_multiset(),
    decreases s.len(),
{
    broadcast use vstd::seq_lib::group_to_multiset_ensures;

    if s.len() > 0 {
        lemma_sort_terms_permutes(s.drop_last());
        lemma_insert_term_multiset(sort_terms_spec(s.drop_last()), s.last());
        assert(s.drop_last().push(s.last()) =~= s);
    }
}

/// A term's coefficient: the constant of a product `c * a`.
pub open spec fn term_coefficient(e: Expr) -> nat {
    match e {
        Expr::Product(l, _) => match *l {
            Expr::Constant(c) => c.value(),
            _ => 0,
        },
        _ => 0,
    }
}

/// A product of a constant and an advice query.
pub open spec fn is_weighted_advice(e: Expr) -> bool {
    e matches Expr::Product(l, r) && *l is Constant && *r is Advice
}

/// Whether the terms are products whose coefficients never decrease.
pub open spec fn ordered_products(s: Seq<Expr>) -> bool {
    &&& forall|i: int| 0 <= i < s.len() ==> is_weighted_advice(#[trigger] s[i])
    &&& forall|i: int, j: int|
        0 <= i < j < s.len() ==> term_coefficient(#[trigger] s[i]) <= term_coefficient(#[trigger] s[j])
}

proof fn lemma_insert_term_ordered(s: Seq<Expr>, x: Expr)
    requires
        ordered_products(s),
        is_weighted_advice(x),
    ensures
        ordered_products(insert_term(s, x)),
    decreases s.len(),
{
    lemma_insert_term_len(s, x);
    if s.len() > 0 && term_less(x, s.last()) {
        let t = s.drop_last();
        assert forall|i: int, j: int|
            0 <= i < j < t.len() implies term_coefficient(#[trigger] t[i]) <= term_coefficient(#[trigger] t[j]) by {
            assert(t[i] == s[i] && t[j] == s[j]);
        }
        lemma_insert_term_ordered(t, x);
        lemma_insert_term_len(t, x);
        let u = insert_term(t, x);
        assert forall|i: int| 0 <= i < u.len() implies term_coefficient(#[trigger] u[i]) <= term_coefficient(s.last()) by {
            assert(u.contains(u[i]));
            if u[i] != x {
                let k = choose|k: int| 0 <= k < t.len() && t[k] == u[i];
                assert(s[k] == t[k]);
            }
        }
        assert forall|i: int| 0 <= i < u.push(s.last()).len() implies is_weighted_advice(#[trigger] u.push(s.last())[i]) by {
            if i < u.len() {
                assert(u.contains(u[i]));
                if u[i] != x {
                    let k = choose|k: int| 0 <= k < t.len() && t[k] == u[i];
                    assert(s[k] == t[k]);
                }
            }
        }
    } else {
        assert forall|i: int| 0 <= i < s.len() implies term_coefficient(#[trigger] s[i]) <= term_coefficient(x) by {
            if s.len() > 0 && i < s.len() - 1 {
                assert(term_coefficient(s[i]) <= term_coefficient(s[s.len() - 1]));
            }
        }
    }
}

/// Where all the unrolled terms are products of a constant and an advice query, the
/// ordering sorts them by their constants.
pub proof fn lemma_sort_terms_orders_products(s: Seq<Expr>)
    requires
        forall|i: int| 0 <= i < s.len() ==> is_weighted_advice(#[trigger] s[i]),
    ensures
        ordered_products(sort_terms_spec(s)),
    decreases s.len(),
{
    if s.len() > 0 {
        assert forall|i: int| 0 <= i < s.drop_last().len() implies is_weighted_advice(#[trigger] s.drop_last()[i]) by {
            assert(s.drop_last()[i] == s[i]);
        }
        lemma_sort_terms_orders_products(s.drop_last());
        lemma_insert_term_ordered(sort_terms_spec(s.drop_last()), s.last());
    }
}

/// The terms summed up from the left: `((t0 + t1) + t2) + ...`.
pub open spec fn sum_left(s: Seq<Expr>) -> Expr
    recommends
        s.len() > 0,
    decreases s.len(),
{
    if s.len() <= 1 {
        s[0]
    } else {
        Expr::Sum(Box::new(sum_left(s.drop_last())), Box::new(s.last()))
    }
}

/// The equality of one row of the region: `lhs = rhs[0] + rhs[1] + ...`.
pub struct RowEquality {
    pub row: usize,
    pub lhs: AdviceQuery,
    pub rhs: Vec<Expr>,
}

impl View for RowEquality {
    type V = (usize, AdviceQuery, Seq<Expr>);

    open spec fn view(&self) -> (usize, AdviceQuery, Seq<Expr>) {
        (self.row, self.lhs, self.rhs@)
    }
}

/// The views of a list of equalities.
pub open spec fn eq_views(v: Seq<RowEquality>) -> Seq<(usize, AdviceQuery, Seq<Expr>)> {
    v.map_values(|e: RowEquality| e@)
}

/// Whether an equality moved down by `by` rows stays within the rotations of `i32`.
pub open spec fn row_bump_ok(eqs: Seq<(usize, AdviceQuery, Seq<Expr>)>, base: int, by: int) -> bool {
    let e = lookup(eqs, base + by);
    &&& rot_fits(e.1.rotation, by)
    &&& forall|j: int| 0 <= j < e.2.len() ==> expr_bump_fits(#[trigger] e.2[j], by)
}

/// The inputs on which the unrolling runs to its end: every row of the region has an
/// equality, the row offsets fit in `i32` and so do the moved rotations, and the terms
/// that are to be ordered can be compared.
pub open spec fn process_safe(eqs: Seq<(usize, AdviceQuery, Seq<Expr>)>, n: nat, base: nat) -> bool {
    &&& forall|row: int|
        base <= row < base + (if n > 0 {
            n
        } else {
            1
        }) ==> #[trigger] row_present(eqs, row)
    &&& n <= i32::MAX + 1
    &&& forall|k: int| 1 <= k < n ==> #[trigger] row_bump_ok(eqs, base as int, k)
    &&& unroll(eqs, base as int, n).len() >= 2 ==> forall|i: int|
        0 <= i < unroll(eqs, base as int, n).len() ==> sortable_term(
            #[trigger] unroll(eqs, base as int, n)[i],
        )
}

/// The single equality of the region, anchored at the first row.
pub open spec fn spec_process(eqs: Seq<(usize, AdviceQuery, Seq<Expr>)>, n: nat, base: nat) -> Result<
    ((usize, Expr), (usize, Expr)),
    RewriteFailure,
> {
    let terms = sort_terms_spec(unroll(eqs, base as int, n));
    if terms.len() == 0 {
        Err(RewriteFailure::NoAnchorRhs)
    } else {
        Ok(
            (
                (base as usize, Expr::Advice(lookup(eqs, base as int).1)),
                (base as usize, sum_left(terms)),
            ),
        )
    }
}

fn find_row_exec(eqs: &Vec<RowEquality>, row: usize) -> (r: usize)
    requires
        row_present(eq_views(eqs@), row as int),
    ensures
        r as int == find_row(eq_views(eqs@), row as int),
        r < eqs.len(),
{
    proof {
        lemma_find_row(eq_views(eqs@), row as int);
    }
    let mut i: usize = eqs.len();
    while i > 0
        invariant
            i <= eqs.len(),
            find_row(eq_views(eqs@), row as int) == find_row(eq_views(eqs@).take(i as int), row as int),
        decreases i,
    {
        proof {
            assert(eq_views(eqs@).take(i as int).drop_last() =~= eq_views(eqs@).take(i - 1));
        }
        if eqs[i - 1].row == row {
            return i - 1;
        }
        i -= 1;
    }
    proof {
        assert(eq_views(eqs@).take(0) =~= Seq::<(usize, AdviceQuery, Seq<Expr>)>::empty());
    }
    0
}

fn sum_terms(terms: &Vec<Expr>) -> (r: Expr)
    requires
        terms.len() > 0,
    ensures
        r == sum_left(terms@),
{
    let mut acc = terms[0].deep_clone();
    let mut i: usize = 1;
    proof {
        assert(terms@.take(1).len() == 1);
    }
    while i < terms.len()
        invariant
            1 <= i <= terms.len(),
            acc == sum_left(terms@.take(i as int)),
        decreases terms.len() - i,
    {
        proof {
            assert(terms@.take(i + 1).drop_last() =~= terms@.take(i as int));
        }
        acc = Expr::Sum(Box::new(acc), Box::new(terms[i].deep_clone()));
        i += 1;
    }
    assert(terms@.take(terms.len() as int) =~= terms@);
    acc
}

/// Takes the recursive equality and unrolls it over the rows of the region.
fn process_rec_equality(eqs: Vec<RowEquality>, n_rows: usize, base_row: usize) -> (r: Result<
    ((usize, Expr), (usize, Expr)),
    RewriteFailure,
>)
    requires
        process_safe(eq_views(eqs@), n_rows as nat, base_row as nat),
    ensures
        r == spec_process(eq_views(eqs@), n_rows as nat, base_row as nat),
        r matches Ok(((l, _), (m, _))) ==> l == base_row && m == base_row,
{
    let ghost views = eq_views(eqs@);
    assert(row_present(views, base_row as int));
    let anchor = find_row_exec(&eqs, base_row);
    assert(views[anchor as int] == eqs@[anchor as int]@);
    let anchor_lhs = eqs[anchor].lhs;
    let mut anchor_rhs = clone_exprs(&eqs[anchor].rhs);
    assert(anchor_rhs@ == unroll(views, base_row as int, 1));
    let mut row_offset: usize = 1;
    while row_offset < n_rows
        invariant
            1 <= row_offset,
            row_offset <= n_rows || n_rows == 0,
            n_rows == 0 ==> row_offset == 1,
            views == eq_views(eqs@),
            process_safe(views, n_rows as nat, base_row as nat),
            anchor_rhs@ == unroll(views, base_row as int, row_offset as nat),
        decreases n_rows - row_offset,
    {
        let ghost row_i: int = base_row + row_offset;
        assert(row_present(views, row_i));
        proof {
            lemma_find_row(views, row_i);
        }
        let row = base_row + row_offset;
        let idx = find_row_exec(&eqs, row);
        assert(row_bump_ok(views, base_row as int, row_offset as int));
        assert(views[idx as int] == eqs@[idx as int]@);
        assert(lookup(views, base_row + row_offset) == eqs@[idx as int]@);
        assert forall|i: int| 0 <= i < eqs[idx as int].rhs.len() implies expr_bump_fits(
            #[trigger] eqs[idx as int].rhs@[i],
            row_offset as int,
        ) by {
            assert(eqs[idx as int].rhs@[i] == lookup(views, base_row + row_offset).2[i]);
        }
        let by: i32 = row_offset as i32;
        assert(by as int == row_offset as int);
        let (bumped_lhs, bumped_rhs) = bump_offsets(&eqs[idx].lhs, &eqs[idx].rhs, by);
        let mut kept = retain_unmatched(anchor_rhs, &bumped_lhs);
        let mut extra = bumped_rhs;
        kept.append(&mut extra);
        anchor_rhs = kept;
        row_offset += 1;
        assert(anchor_rhs@ == unroll(views, base_row as int, row_offset as nat));
    }
    assert(anchor_rhs@ == unroll(views, base_row as int, row_offset as nat));
    proof {
        if n_rows == 0 {
            assert(unroll(views, base_row as int, 0) == unroll(views, base_row as int, 1));
            assert(anchor_rhs@ == unroll(views, base_row as int, n_rows as nat));
        } else {
            assert(row_offset == n_rows);
            assert(anchor_rhs@ == unroll(views, base_row as int, n_rows as nat));
        }
    }
    assert(anchor_rhs@ == unroll(views, base_row as int, n_rows as nat));
    let terms = sort_terms(&anchor_rhs);
    if terms.len() == 0 {
        return Err(RewriteFailure::NoAnchorRhs);
    }
    let rhs = sum_terms(&terms);
    Ok(((base_row, Expr::Advice(anchor_lhs)), (base_row, rhs)))
}

/// The rewrite of one region: the single unrolled equality, or the failure that
/// prevents it.
pub open spec fn spec_try_rewrite(exprs: Seq<(usize, Expr)>, base: nat) -> Result<
    ((usize, Expr), (usize, Expr)),
    RewriteFailure,
> {
    if exprs.len() == 0 {
        Err(RewriteFailure::EmptyExprs)
    } else {
        match spec_equations(exprs, exprs.len()) {
            Err(f) => Err(f),
            Ok(eqs) => spec_process(eqs, exprs.len(), base),
        }
    }
}

/// The regions that the rewrite handles without a panic: where every row gives an
/// equality, the unrolling can run to its end.
pub open spec fn rewrite_safe(exprs: Seq<(usize, Expr)>, base: nat) -> bool {
    exprs.len() > 0 ==> match spec_equations(exprs, exprs.len()) {
        Ok(eqs) => process_safe(eqs, exprs.len(), base),
        Err(_) => true,
    }
}

/// Every polynomial's number of leaves fits in `usize`.
pub open spec fn leaves_fit(exprs: Seq<(usize, Expr)>) -> bool {
    forall|i: int| 0 <= i < exprs.len() ==> spec_n_leafs(#[trigger] exprs[i].1) <= usize::MAX
}

proof fn lemma_equations_err_persists(exprs: Seq<(usize, Expr)>, k: nat, m: nat)
    requires
        k <= m <= exprs.len(),
        spec_equations(exprs, k) is Err,
    ensures
        spec_equations(exprs, m) == spec_equations(exprs, k),
    decreases m - k,
{
    if k < m {
        lemma_equations_err_persists(exprs, k, (m - 1) as nat);
    }
}

/// Attempts to rewrite the polynomials as a 1-row decomposition equality constraint.
fn try_rewrite(exprs: &Vec<(usize, Expr)>, base_row: usize) -> (r: Result<
    ((usize, Expr), (usize, Expr)),
    RewriteFailure,
>)
    requires
        leaves_fit(exprs@),
        rewrite_safe(exprs@, base_row as nat),
    ensures
        r == spec_try_rewrite(exprs@, base_row as nat),
        r matches Ok(((l, _), (m, _))) ==> l == base_row && m == base_row,
{
    if exprs.len() == 0 {
        return Err(RewriteFailure::EmptyExprs);
    }
    let last_row = exprs[exprs.len() - 1].0;
    let mut eqs: Vec<RowEquality> = Vec::new();
    assert(eq_views(eqs@) =~= Seq::<(usize, AdviceQuery, Seq<Expr>)>::empty());
    let mut i: usize = 0;
    while i < exprs.len()
        invariant
            i <= exprs.len(),
            exprs.len() > 0,
            last_row == exprs@.last().0,
            leaves_fit(exprs@),
            spec_equations(exprs@, i as nat) == Ok::<_, RewriteFailure>(eq_views(eqs@)),
        decreases exprs.len() - i,
    {
        let row = exprs[i].0;
        assert(spec_n_leafs(exprs@[i as int].1) <= usize::MAX);
        let mut leaves = match flatten_sums(&exprs[i].1) {
            Ok(v) => v,
            Err(f) => {
                proof {
                    lemma_equations_err_persists(exprs@, (i + 1) as nat, exprs.len() as nat);
                }
                return Err(f);
            },
        };
        let mut p: usize = 0;
        while p < leaves.len() && anchor_of(&leaves[p]).is_none()
            invariant
                p <= leaves.len(),
                forall|j: int| 0 <= j < p ==> !is_anchor(#[trigger] leaves@[j]),
            decreases leaves.len() - p,
        {
            p += 1;
        }
        proof {
            lemma_first_anchor(leaves@, p as int);
        }
        if p == leaves.len() {
            proof {
                lemma_equations_err_persists(exprs@, (i + 1) as nat, exprs.len() as nat);
            }
            return Err(RewriteFailure::NoLhsAnchor);
        }
        let lhs = match anchor_of(&leaves[p]) {
            Some(q) => q,
            None => {
                return Err(RewriteFailure::NoLhsAnchor);
            },
        };
        let ghost before = leaves@;
        leaves.swap_remove(p);
        assert(leaves@ == before.update(p as int, before.last()).drop_last());
        if !is_recursive(&lhs, &leaves) && row < last_row {
            proof {
                lemma_equations_err_persists(exprs@, (i + 1) as nat, exprs.len() as nat);
            }
            return Err(RewriteFailure::NotRecursive);
        }
        let ghost old_eqs = eqs@;
        eqs.push(RowEquality { row, lhs, rhs: leaves });
        proof {
            assert(eq_views(eqs@) =~= eq_views(old_eqs).push((row, lhs, before.update(
                p as int,
                before.last(),
            ).drop_last())));
        }
        i += 1;
    }
    process_rec_equality(eqs, exprs.len(), base_row)
}

/// An equality between two expressions, each evaluated at its row.
pub struct RowConstraint {
    pub lhs: (usize, Expr),
    pub rhs: (usize, Expr),
}

/// The fallback constraint of one row: `polynomial == 0`.
pub open spec fn zero_constraint(p: (usize, Expr)) -> RowConstraint {
    RowConstraint { lhs: p, rhs: (p.0, Expr::Constant(FieldConst { l0: 0, l1: 0, l2: 0, l3: 0 })) }
}

/// A region's rewrite, where it succeeds, is one constraint whose two sides are both
/// evaluated at the region's start row; where it fails, each polynomial is constrained to
/// zero at its own row.
pub proof fn lemma_rewrite_rows(exprs: Seq<(usize, Expr)>, base: nat)
    requires
        base <= usize::MAX,
    ensures
        spec_try_rewrite(exprs, base) matches Ok(((l, _), (m, _))) ==> l == base && m == base,
        spec_try_rewrite(exprs, base) is Ok ==> spec_rewrite_poly(exprs, base).len() == 1
            && spec_rewrite_poly(exprs, base)[0].lhs.0 == base
            && spec_rewrite_poly(exprs, base)[0].rhs.0 == base,
        spec_try_rewrite(exprs, base) is Err ==> spec_rewrite_poly(exprs, base).len() == exprs.len()
            && forall|i: int|
            0 <= i < exprs.len() ==> (#[trigger] spec_rewrite_poly(exprs, base)[i]).lhs == exprs[i]
                && spec_rewrite_poly(exprs, base)[i].rhs.0 == exprs[i].0,
{
}

/// The constraints of one region: its single unrolled equality, or one `== 0`
/// constraint per row when the region does not fit the pattern.
pub open spec fn spec_rewrite_poly(exprs: Seq<(usize, Expr)>, base: nat) -> Seq<RowConstraint> {
    match spec_try_rewrite(exprs, base) {
        Ok(eq) => seq![RowConstraint { lhs: eq.0, rhs: eq.1 }],
        Err(_) => exprs.map_values(|p: (usize, Expr)| zero_constraint(p)),
    }
}

/// Rewrites the polynomials as either the nicer 1-row decomposition or just one per row
/// as fallback.
fn rewrite_poly(exprs: Vec<(usize, Expr)>, stmts: &mut Vec<RowConstraint>, base_row: usize)
    requires
        leaves_fit(exprs@),
        rewrite_safe(exprs@, base_row as nat),
    ensures
        final(stmts)@ == old(stmts)@ + spec_rewrite_poly(exprs@, base_row as nat),
{
    match try_rewrite(&exprs, base_row) {
        Ok((lhs, rhs)) => {
            stmts.push(RowConstraint { lhs, rhs });
        },
        Err(_) => {
            let ghost start = stmts@;
            let mut i: usize = 0;
            while i < exprs.len()
                invariant
                    i <= exprs.len(),
                    stmts@ == start + exprs@.take(i as int).map_values(
                        |p: (usize, Expr)| zero_constraint(p),
                    ),
                decreases exprs.len() - i,
            {
                let row = exprs[i].0;
                let c = RowConstraint {
                    lhs: (row, exprs[i].1.deep_clone()),
                    rhs: (row, Expr::Constant(FieldConst::zero())),
                };
                stmts.push(c);
                i += 1;
                assert(stmts@ =~= start + exprs@.take(i as int).map_values(
                    |p: (usize, Expr)| zero_constraint(p),
                ));
            }
            assert(exprs@.take(exprs.len() as int) =~= exprs@);
        },
    }
}

/// A gate that does not fit the pattern.
#[derive(Clone, Copy, Debug, PartialEq, Eq, Structural)]
pub enum RewriteError {
    NoMatch,
}

/// Gate rewrite pattern for decomposition constraints.
///
/// The high-level logic is to create an array of expressions representing all the sums
/// in the polynomials, `x + (y + (z + w))` becomes `[x,y,z,w]`. The left hand side of the
/// equality must be a negated advice query in that array. To compose the equality we
/// remove that query from the array. In the previous example lets assume `w` is the
/// query, we are left with an equality as `(w, [x,y,z])`.
///
/// Then, to chain the sequence we check for another advice query that points to the same
/// column but not the same offset. For `(w, [x,y,z])` and `(w', [x',y',z'])`, assuming
/// `z` is that query then `z ~ w'`. We join the sequence by removing the recursive query
/// and adding the rhs of the corresponding equality: `(w, [x,y,x',y',z'])`.
///
/// Finally, we reconstruct the sum and emit the constraint: `w = (((x + y) + x') + y') + z'`.
#[derive(Clone, Copy, Debug, Default)]
pub struct DecomposeCorePattern;

/// The constraints of all the regions, in order.
pub open spec fn spec_rewrite_gate(polys: Seq<Seq<(usize, Expr)>>, base: nat) -> Seq<RowConstraint>
    decreases polys.len(),
{
    if polys.len() == 0 {
        Seq::empty()
    } else {
        spec_rewrite_gate(polys.drop_last(), base) + spec_rewrite_poly(polys.last(), base)
    }
}

/// The polynomials of each row group, as sequences.
pub open spec fn poly_views(polys: Seq<Vec<(usize, Expr)>>) -> Seq<Seq<(usize, Expr)>> {
    polys.map_values(|v: Vec<(usize, Expr)>| v@)
}

impl DecomposeCorePattern {
    /// The pattern applies to the single polynomial of the arithmetic gate of the
    /// `decompose core` region.
    pub fn match_gate(&self, gate_name: &str, region_name: &str, n_polynomials: usize) -> (r:
        Result<(), RewriteError>)
        ensures
            r is Ok <==> (gate_name@ == "arith_gate"@ && region_name@ == "decompose core"@
                && n_polynomials == 1),
    {
        if str_eq(gate_name, "arith_gate") && str_eq(region_name, "decompose core")
            && n_polynomials == 1 {
            Ok(())
        } else {
            Err(RewriteError::NoMatch)
        }
    }

    /// Rewrites the polynomials of a matched gate, given per row group, with its first
    /// row as the row of the unrolled equalities.
    pub fn rewrite_gate(&self, polynomials_per_row: Vec<Vec<(usize, Expr)>>, start_row: usize) -> (r:
        Vec<RowConstraint>)
        requires
            forall|i: int|
                0 <= i < polynomials_per_row.len() ==> leaves_fit(#[trigger] polynomials_per_row@[i]@)
                    && rewrite_safe(polynomials_per_row@[i]@, start_row as nat),
        ensures
            r@ == spec_rewrite_gate(poly_views(polynomials_per_row@), start_row as nat),
    {
        let mut stmts: Vec<RowConstraint> = Vec::new();
        let mut i: usize = 0;
        let mut polys = polynomials_per_row;
        let ghost all = polys@;
        while i < polys.len()
            invariant
                i <= polys.len(),
                polys@ == all,
                forall|k: int|
                    0 <= k < all.len() ==> leaves_fit(#[trigger] all[k]@) && rewrite_safe(
                        all[k]@,
                        start_row as nat,
                    ),
                stmts@ == spec_rewrite_gate(poly_views(all).take(i as int), start_row as nat),
            decreases polys.len() - i,
        {
            let mut exprs: Vec<(usize, Expr)> = Vec::new();
            let mut j: usize = 0;
            while j < polys[i].len()
                invariant
                    j <= polys@[i as int].len(),
                    i < polys.len(),
                    exprs@ == polys@[i as int]@.take(j as int),
                decreases polys@[i as int].len() - j,
            {
                exprs.push((polys[i][j].0, polys[i][j].1.deep_clone()));
                j += 1;
                assert(exprs@ =~= polys@[i as int]@.take(j as int));
            }
            assert(exprs@ =~= polys@[i as int]@);
            rewrite_poly(exprs, &mut stmts, start_row);
            proof {
                assert(poly_views(all).take(i + 1).drop_last() =~= poly_views(all).take(i as int));
            }
            i += 1;
        }
        assert(poly_views(all).take(all.len() as int) =~= poly_views(all));
        stmts
    }
}

/// The rewrite patterns for custom gates that the extraction applies.
pub struct Patterns {
    pub decompose_core: bool,
}

impl Patterns {
    /// The decomposition pattern when it is enabled, else none.
    pub fn patterns(&self) -> (r: Vec<DecomposeCorePattern>)
        ensures
            r.len() == if self.decompose_core {
                1nat
            } else {
                0nat
            },
    {
        let mut patterns: Vec<DecomposeCorePattern> = Vec::new();
        if self.decompose_core {
            patterns.push(DecomposeCorePattern);
        }
        patterns
    }
}

} // verus!
