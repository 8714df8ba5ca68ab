//! Bookkeeping of the extraction layouter: where regions start, where the constants of
//! the regions go, and how the cells of lookup tables are assigned.
//!
//! Columns are named by integers that the caller assigns to them.

use vstd::prelude::*;
use vstd::string::StringExecFns;
use std::collections::HashMap;
use crate::expr::FieldConst;

verus! {

broadcast use vstd::std_specs::hash::group_hash_axioms;

/// The first unused row of a column, 0 where the column was never used.
pub open spec fn first_unused(m: Map<u64, usize>, c: u64) -> nat {
    if m.contains_key(c) {
        m[c] as nat
    } else {
        0
    }
}

/// The earliest row from which none of the columns is in use.
pub open spec fn region_start(m: Map<u64, usize>, cols: Seq<u64>) -> nat
    decreases cols.len(),
{
    if cols.len() == 0 {
        0
    } else {
        let prev = region_start(m, cols.drop_last());
        let here = first_unused(m, cols.last());
        if prev >= here {
            prev
        } else {
            here
        }
    }
}

proof fn lemma_region_start_bounds(m: Map<u64, usize>, cols: Seq<u64>)
    ensures
        forall|i: int| 0 <= i < cols.len() ==> first_unused(m, #[trigger] cols[i]) <= region_start(m, cols),
        cols.len() == 0 ==> region_start(m, cols) == 0,
        cols.len() > 0 ==> exists|i: int| 0 <= i < cols.len() && first_unused(m, #[trigger] cols[i]) == region_start(m, cols),
    decreases cols.len(),
{
    if cols.len() > 0 {
        lemma_region_start_bounds(m, cols.drop_last());
        assert forall|i: int| 0 <= i < cols.len() implies first_unused(m, #[trigger] cols[i]) <= region_start(m, cols) by {
            if i < cols.len() - 1 {
                assert(cols[i] == cols.drop_last()[i]);
            }
        }
        if cols.len() > 1 && region_start(m, cols.drop_last()) >= first_unused(m, cols.last()) {
            let i = choose|i: int| 0 <= i < cols.drop_last().len() && first_unused(m, #[trigger] cols.drop_last()[i]) == region_start(m, cols.drop_last());
            assert(cols[i] == cols.drop_last()[i]);
        } else {
            assert(first_unused(m, cols[cols.len() - 1]) == region_start(m, cols));
        }
    }
}

/// The column usage after a region of `rows` rows that starts at `start` takes `cols`.
pub open spec fn after_region(m: Map<u64, usize>, cols: Seq<u64>, start: nat, rows: nat) -> Map<u64, usize> {
    m.union_prefer_right(Map::new(|c: u64| cols.contains(c), |c: u64| (start + rows) as usize))
}

/// A constant that a region assigns to an advice cell: the cell's region, its row in
/// the region and its column, and the constant.
#[derive(Clone, Copy, Debug, PartialEq, Eq, Structural)]
pub struct ConstantCell {
    pub region: usize,
    pub row_offset: usize,
    pub column: u64,
    pub value: FieldConst,
}

/// A constant placed in the constants column, and the advice cell it is copied to.
#[derive(Clone, Copy, Debug, PartialEq, Eq, Structural)]
pub struct ConstantCopy {
    pub fixed_column: u64,
    pub fixed_row: usize,
    pub value: FieldConst,
    pub advice_column: u64,
    pub advice_row: usize,
}

/// Why a layout step failed.
#[derive(Clone, Copy, Debug, PartialEq, Eq, Structural)]
pub enum LayoutError {
    /// A region assigns constants and there is no constants column.
    NotEnoughColumnsForConstants,
}

/// The rows at which the regions start and the first unused row of each column.
pub struct RegionLayout {
    regions: Vec<usize>,
    columns: HashMap<u64, usize>,
}

impl RegionLayout {
    pub closed spec fn spec_regions(&self) -> Seq<usize> {
        self.regions@
    }

    pub closed spec fn spec_columns(&self) -> Map<u64, usize> {
        self.columns@
    }

    /// No region and no used column.
    pub fn new() -> (r: Self)
        ensures
            r.spec_regions() == Seq::<usize>::empty(),
            r.spec_columns() == Map::<u64, usize>::empty(),
    {
        RegionLayout { regions: Vec::new(), columns: HashMap::new() }
    }

    /// The row at which the next region would start if it took these columns.
    pub fn start_for(&self, shape_columns: &Vec<u64>) -> (r: usize)
        ensures
            r == region_start(self.spec_columns(), shape_columns@),
    {
        let mut start: usize = 0;
        let mut i: usize = 0;
        while i < shape_columns.len()
            invariant
                i <= shape_columns.len(),
                start == region_start(self.columns@, shape_columns@.take(i as int)),
            decreases shape_columns.len() - i,
        {
            proof {
                assert(shape_columns@.take(i + 1).drop_last() =~= shape_columns@.take(i as int));
            }
            let used: usize = match self.columns.get(&shape_columns[i]) {
                Some(r) => *r,
                None => 0,
            };
            if used > start {
                start = used;
            }
            i += 1;
        }
        assert(shape_columns@.take(shape_columns.len() as int) =~= shape_columns@);
        start
    }

    /// Lays out a region that takes `shape_columns` over `row_count` rows: it starts at
    /// the earliest row for which none of its columns is in use, and its columns are in
    /// use up to its end afterwards.
    pub fn place_region(&mut self, shape_columns: &Vec<u64>, row_count: usize) -> (start: usize)
        requires
            region_start(old(self).spec_columns(), shape_columns@) + row_count <= usize::MAX,
        ensures
            start == region_start(old(self).spec_columns(), shape_columns@),
            forall|i: int|
                0 <= i < shape_columns.len() ==> first_unused(
                    old(self).spec_columns(),
                    #[trigger] shape_columns@[i],
                ) <= start,
            shape_columns.len() > 0 ==> exists|i: int|
                0 <= i < shape_columns.len() && first_unused(
                    old(self).spec_columns(),
                    #[trigger] shape_columns@[i],
                ) == start,
            final(self).spec_regions() == old(self).spec_regions().push(start),
            final(self).spec_columns() == after_region(
                old(self).spec_columns(),
                shape_columns@,
                start as nat,
                row_count as nat,
            ),
    {
        let start = self.start_for(shape_columns);
        proof {
            lemma_region_start_bounds(self.columns@, shape_columns@);
        }
        self.regions.push(start);
        let ghost before = self.columns@;
        let end: usize = start + row_count;
        let mut i: usize = 0;
        while i < shape_columns.len()
            invariant
                i <= shape_columns.len(),
                end == start + row_count,
                self.regions@ == old(self).regions@.push(start),
                self.columns@ == after_region(before, shape_columns@.take(i as int), start as nat, row_count as nat),
            decreases shape_columns.len() - i,
        {
            self.columns.insert(shape_columns[i], end);
            proof {
                let t = shape_columns@.take(i as int);
                let t1 = shape_columns@.take(i + 1);
                assert(t1 =~= t.push(shape_columns@[i as int]));
                assert(self.columns@ =~= after_region(before, t1, start as nat, row_count as nat)) by {
                    assert forall|c: u64| #[trigger] t1.contains(c) <==> (t.contains(c) || c == shape_columns@[i as int]) by {
                        if t1.contains(c) {
                            let k = choose|k: int| 0 <= k < t1.len() && t1[k] == c;
                            if k < i {
                                assert(t[k] == c);
                            }
                        }
                        if t.contains(c) {
                            let k = choose|k: int| 0 <= k < t.len() && t[k] == c;
                            assert(t1[k] == c);
                        }
                        if c == shape_columns@[i as int] {
                            assert(t1[i as int] == c);
                        }
                    }
                }
            }
            i += 1;
        }
        assert(shape_columns@.take(shape_columns.len() as int) =~= shape_columns@);
        start
    }

    /// The row of a region's cell in the whole circuit: the region's start plus the
    /// cell's row in the region.
    pub fn absolute_row(&self, region: usize, offset: usize) -> (r: usize)
        requires
            region < self.spec_regions().len(),
            self.spec_regions()[region as int] + offset <= usize::MAX,
        ensures
            r == self.spec_regions()[region as int] + offset,
    {
        self.regions[region] + offset
    }

    /// Assigns a fixed cell of a region: the cell's row in the whole circuit and its
    /// value, or the error of a value that is not known.
    pub fn assign_fixed(&self, column: usize, region: usize, offset: usize, value: Option<FieldConst>) -> (r:
        Result<(usize, FieldConst), String>)
        requires
            region < self.spec_regions().len(),
            self.spec_regions()[region as int] + offset <= usize::MAX,
        ensures
            match value {
                Some(v) => r == Ok::<(usize, FieldConst), String>(
                    ((self.spec_regions()[region as int] + offset) as usize, v),
                ),
                None => r matches Err(m) && m@ == "Unknown fixed value assigned to cell ("@
                    + crate::text::decimal(column as nat) + ", "@ + crate::text::decimal(offset as nat)
                    + ")"@,
            },
    {
        let row = self.absolute_row(region, offset);
        match value {
            Some(v) => Ok((row, v)),
            None => {
                let mut m = String::from_str("Unknown fixed value assigned to cell (");
                crate::text::append_decimal(&mut m, column);
                m.append(", ");
                crate::text::append_decimal(&mut m, offset);
                m.append(")");
                Err(m)
            },
        }
    }

    /// Places the constants of the last region, in order, in the constants column from its
    /// first unused row on, each copied to its advice cell.
    pub fn assign_constants(&mut self, constants_column: Option<u64>, cells: &Vec<ConstantCell>) -> (r: Result<
        Vec<ConstantCopy>,
        LayoutError,
    >)
        requires
            forall|k: int|
                0 <= k < cells.len() ==> (#[trigger] cells@[k]).region < old(self).spec_regions().len()
                    && old(self).spec_regions()[cells@[k].region as int] + cells@[k].row_offset <= usize::MAX,
            constants_column matches Some(col) ==> first_unused(old(self).spec_columns(), col) + cells.len() <= usize::MAX,
        ensures
            final(self).spec_regions() == old(self).spec_regions(),
            match constants_column {
                None => if cells.len() == 0 {
                    r matches Ok(v) && v@.len() == 0 && final(self).spec_columns() == old(self).spec_columns()
                } else {
                    r == Err::<Vec<ConstantCopy>, LayoutError>(LayoutError::NotEnoughColumnsForConstants)
                        && final(self).spec_columns() == old(self).spec_columns()
                },
                Some(col) => {
                    let base = first_unused(old(self).spec_columns(), col);
                    &&& r matches Ok(v) && v@ == Seq::new(
                        cells.len() as nat,
                        |k: int|
                            ConstantCopy {
                                fixed_column: col,
                                fixed_row: (base + k) as usize,
                                value: cells@[k].value,
                                advice_column: cells@[k].column,
                                advice_row: (old(self).spec_regions()[cells@[k].region as int]
                                    + cells@[k].row_offset) as usize,
                            },
                    )
                    &&& final(self).spec_columns() == old(self).spec_columns().insert(
                        col,
                        (base + cells.len()) as usize,
                    )
                },
            },
    {
        match constants_column {
            None => {
                if cells.len() > 0 {
                    Err(LayoutError::NotEnoughColumnsForConstants)
                } else {
                    Ok(Vec::new())
                }
            },
            Some(col) => {
                let base: usize = match self.columns.get(&col) {
                    Some(r) => *r,
                    None => 0,
                };
                let mut next: usize = base;
                let mut out: Vec<ConstantCopy> = Vec::new();
                let mut k: usize = 0;
                while k < cells.len()
                    invariant
                        k <= cells.len(),
                        next == base + k,
                        base == first_unused(self.columns@, col),
                        base + cells.len() <= usize::MAX,
                        forall|j: int|
                            0 <= j < cells.len() ==> (#[trigger] cells@[j]).region < self.regions@.len()
                                && self.regions@[cells@[j].region as int] + cells@[j].row_offset <= usize::MAX,
                        out@ == Seq::new(
                            k as nat,
                            |j: int|
                                ConstantCopy {
                                    fixed_column: col,
                                    fixed_row: (base + j) as usize,
                                    value: cells@[j].value,
                                    advice_column: cells@[j].column,
                                    advice_row: (self.regions@[cells@[j].region as int]
                                        + cells@[j].row_offset) as usize,
                                },
                        ),
                    decreases cells.len() - k,
                {
                    let cell = cells[k];
                    let advice_row = self.regions[cell.region] + cell.row_offset;
                    out.push(
                        ConstantCopy {
                            fixed_column: col,
                            fixed_row: next,
                            value: cell.value,
                            advice_column: cell.column,
                            advice_row,
                        },
                    );
                    next = next + 1;
                    k += 1;
                    proof {
                        assert(out@ =~= Seq::new(
                            k as nat,
                            |j: int|
                                ConstantCopy {
                                    fixed_column: col,
                                    fixed_row: (base + j) as usize,
                                    value: cells@[j].value,
                                    advice_column: cells@[j].column,
                                    advice_row: (self.regions@[cells@[j].region as int]
                                        + cells@[j].row_offset) as usize,
                                },
                        ));
                    }
                }
                self.columns.insert(col, next);
                Ok(out)
            },
        }
    }
}

/// Why a table assignment failed.
#[derive(Clone, Copy, Debug)]
pub enum TableError {
    /// The column belongs to a table that was assigned before.
    UsedColumn(u64),
    /// The column's default value (its value at row 0) was assigned a second time: the
    /// column, the first value and the second.
    OverwriteDefault(u64, FieldConst, FieldConst),
    /// The column has no default value, or a row below its length was not assigned.
    ColumnNotAssigned(u64),
    /// Two columns have different lengths: each column with its length, in order.
    UnevenColumnLengths((u64, usize), (u64, usize)),
    /// The value of a cell is not known.
    UnknownValue,
}

/// One column of a table being assigned: its default value and which rows are assigned.
pub struct TableColumnState {
    pub column: u64,
    pub default: Option<FieldConst>,
    pub assigned: Vec<bool>,
}

/// A column's state as plain values.
pub open spec fn col_view(c: TableColumnState) -> (u64, Option<FieldConst>, Seq<bool>) {
    (c.column, c.default, c.assigned@)
}

/// The states of the columns as plain values.
pub open spec fn cols_view(cs: Seq<TableColumnState>) -> Seq<(u64, Option<FieldConst>, Seq<bool>)> {
    cs.map_values(|c: TableColumnState| col_view(c))
}

/// The length of a column whose rows are all assigned from row 0 on, or the error.
pub open spec fn column_length(c: (u64, Option<FieldConst>, Seq<bool>)) -> Result<usize, TableError> {
    if c.1 is None || c.2.len() == 0 || exists|i: int| 0 <= i < c.2.len() && !c.2[i] {
        Err(TableError::ColumnNotAssigned(c.0))
    } else {
        Ok(c.2.len() as usize)
    }
}

/// The lengths of the first `k` columns, or the error of the first column without one.
pub open spec fn column_lengths(cols: Seq<(u64, Option<FieldConst>, Seq<bool>)>, k: nat) -> Result<
    Seq<(u64, usize)>,
    TableError,
>
    decreases k,
{
    if k == 0 || k > cols.len() {
        Ok(Seq::empty())
    } else {
        match column_lengths(cols, (k - 1) as nat) {
            Err(e) => Err(e),
            Ok(prev) => match column_length(cols[k - 1]) {
                Err(e) => Err(e),
                Ok(l) => Ok(prev.push((cols[k - 1].0, l))),
            },
        }
    }
}

/// The two pairs in increasing order.
pub open spec fn sorted_pair(a: (u64, usize), b: (u64, usize)) -> ((u64, usize), (u64, usize)) {
    if a.0 < b.0 || (a.0 == b.0 && a.1 <= b.1) {
        (a, b)
    } else {
        (b, a)
    }
}

/// Compares the lengths in order: each must equal the one before it.
pub open spec fn fold_lengths(ls: Seq<(u64, usize)>, k: nat) -> Result<(Option<u64>, usize), TableError>
    decreases k,
{
    if k == 0 || k > ls.len() {
        Ok((None, 0))
    } else {
        match fold_lengths(ls, (k - 1) as nat) {
            Err(e) => Err(e),
            Ok(acc) => {
                let cur = ls[k - 1];
                if acc.1 == 0 || acc.1 == cur.1 {
                    Ok((Some(cur.0), cur.1))
                } else {
                    let p = sorted_pair(cur, (acc.0.unwrap(), acc.1));
                    Err(TableError::UnevenColumnLengths(p.0, p.1))
                }
            },
        }
    }
}

/// The common length of the columns, taken in the given order, or the first error.
pub open spec fn table_length(cols: Seq<(u64, Option<FieldConst>, Seq<bool>)>) -> Result<usize, TableError> {
    match column_lengths(cols, cols.len()) {
        Err(e) => Err(e),
        Ok(ls) => match fold_lengths(ls, ls.len()) {
            Err(e) => Err(e),
            Ok(acc) => Ok(acc.1),
        },
    }
}

proof fn lemma_column_lengths(cols: Seq<(u64, Option<FieldConst>, Seq<bool>)>, k: nat)
    requires
        k <= cols.len(),
        forall|i: int| 0 <= i < cols.len() ==> (#[trigger] cols[i]).2.len() <= usize::MAX,
        column_lengths(cols, k) is Ok,
    ensures
        column_lengths(cols, k)->Ok_0.len() == k,
        forall|i: int| 0 <= i < k ==> column_length(#[trigger] cols[i]) == Ok::<usize, TableError>(column_lengths(cols, k)->Ok_0[i].1)
            && column_lengths(cols, k)->Ok_0[i].0 == cols[i].0,
    decreases k,
{
    if k > 0 {
        lemma_column_lengths(cols, (k - 1) as nat);
    }
}

proof fn lemma_fold_lengths(ls: Seq<(u64, usize)>, k: nat)
    requires
        k <= ls.len(),
        forall|i: int| 0 <= i < ls.len() ==> (#[trigger] ls[i]).1 > 0,
        fold_lengths(ls, k) is Ok,
    ensures
        forall|i: int| 0 <= i < k ==> (#[trigger] ls[i]).1 == fold_lengths(ls, k)->Ok_0.1,
        k == 0 ==> fold_lengths(ls, k)->Ok_0.1 == 0,
        k > 0 ==> fold_lengths(ls, k)->Ok_0.0 is Some,
    decreases k,
{
    if k > 0 {
        lemma_fold_lengths(ls, (k - 1) as nat);
    }
}

/// When the columns have a common length, every column has its default value and all
/// its rows up to that length assigned, and no more.
pub proof fn lemma_table_length_complete(cols: Seq<(u64, Option<FieldConst>, Seq<bool>)>)
    requires
        forall|i: int| 0 <= i < cols.len() ==> (#[trigger] cols[i]).2.len() <= usize::MAX,
        table_length(cols) is Ok,
    ensures
        forall|i: int|
            0 <= i < cols.len() ==> (#[trigger] cols[i]).1 is Some && cols[i].2.len() == table_length(cols)->Ok_0
                && forall|j: int| 0 <= j < cols[i].2.len() ==> cols[i].2[j],
{
    lemma_column_lengths(cols, cols.len());
    let ls = column_lengths(cols, cols.len())->Ok_0;
    assert forall|i: int| 0 <= i < ls.len() implies (#[trigger] ls[i]).1 > 0 by {
        assert(column_length(cols[i]) == Ok::<usize, TableError>(ls[i].1));
        assert(cols[i].2.len() > 0);
    }
    lemma_fold_lengths(ls, ls.len());
    assert forall|i: int| 0 <= i < cols.len() implies (#[trigger] cols[i]).1 is Some && cols[i].2.len()
        == table_length(cols)->Ok_0 && forall|j: int| 0 <= j < cols[i].2.len() ==> cols[i].2[j] by {
        assert(column_length(cols[i]) == Ok::<usize, TableError>(ls[i].1));
        assert(ls[i].1 == fold_lengths(ls, ls.len())->Ok_0.1);
    }
}

fn column_length_exec(c: &TableColumnState) -> (r: Result<usize, TableError>)
    ensures
        r == column_length(col_view(*c)),
{
    if c.default.is_none() || c.assigned.len() == 0 {
        return Err(TableError::ColumnNotAssigned(c.column));
    }
    let mut i: usize = 0;
    while i < c.assigned.len()
        invariant
            i <= c.assigned.len(),
            forall|j: int| 0 <= j < i ==> c.assigned@[j],
        decreases c.assigned.len() - i,
    {
        if !c.assigned[i] {
            return Err(TableError::ColumnNotAssigned(c.column));
        }
        i += 1;
    }
    Ok(c.assigned.len())
}

/// Checks that all table columns have the same length and all cells up to that length
/// are assigned; returns that length.
pub fn compute_table_lengths(cols: &Vec<TableColumnState>) -> (r: Result<usize, TableError>)
    ensures
        r == table_length(cols_view(cols@)),
{
    let ghost cv = cols_view(cols@);
    let mut lengths: Vec<(u64, usize)> = Vec::new();
    let mut i: usize = 0;
    while i < cols.len()
        invariant
            i <= cols.len(),
            cv == cols_view(cols@),
            column_lengths(cv, i as nat) == Ok::<Seq<(u64, usize)>, TableError>(lengths@),
        decreases cols.len() - i,
    {
        match column_length_exec(&cols[i]) {
            Err(e) => {
                proof {
                    lemma_lengths_err_persists(cv, (i + 1) as nat, cols.len() as nat);
                }
                return Err(e);
            },
            Ok(l) => {
                lengths.push((cols[i].column, l));
            },
        }
        i += 1;
    }
    let mut acc_col: Option<u64> = None;
    let mut acc_len: usize = 0;
    let mut k: usize = 0;
    while k < lengths.len()
        invariant
            k <= lengths.len(),
            cv == cols_view(cols@),
            column_lengths(cv, cv.len()) == Ok::<Seq<(u64, usize)>, TableError>(lengths@),
            fold_lengths(lengths@, k as nat) == Ok::<(Option<u64>, usize), TableError>((acc_col, acc_len)),
            k > 0 ==> acc_col is Some,
        decreases lengths.len() - k,
    {
        let (col, col_len) = lengths[k];
        if acc_len == 0 || acc_len == col_len {
            acc_col = Some(col);
            acc_len = col_len;
        } else {
            let prev = match acc_col {
                Some(c) => c,
                None => 0,
            };
            let a = (col, col_len);
            let b = (prev, acc_len);
            let e = if col < prev || (col == prev && col_len <= acc_len) {
                TableError::UnevenColumnLengths(a, b)
            } else {
                TableError::UnevenColumnLengths(b, a)
            };
            proof {
                assert(fold_lengths(lengths@, (k + 1) as nat) == Err::<(Option<u64>, usize), TableError>(e));
                lemma_fold_err_persists(lengths@, (k + 1) as nat, lengths.len() as nat);
            }
            return Err(e);
        }
        k += 1;
    }
    Ok(acc_len)
}

proof fn lemma_lengths_err_persists(cols: Seq<(u64, Option<FieldConst>, Seq<bool>)>, k: nat, m: nat)
    requires
        k <= m <= cols.len(),
        column_lengths(cols, k) is Err,
    ensures
        column_lengths(cols, m) == column_lengths(cols, k),
    decreases m - k,
{
    if k < m {
        lemma_lengths_err_persists(cols, k, (m - 1) as nat);
    }
}

proof fn lemma_fold_err_persists(ls: Seq<(u64, usize)>, k: nat, m: nat)
    requires
        k <= m <= ls.len(),
        fold_lengths(ls, k) is Err,
    ensures
        fold_lengths(ls, m) == fold_lengths(ls, k),
    decreases m - k,
{
    if k < m {
        lemma_fold_err_persists(ls, k, (m - 1) as nat);
    }
}

/// Index of the column's state, or -1.
pub open spec fn col_index(cols: Seq<(u64, Option<FieldConst>, Seq<bool>)>, c: u64) -> int
    decreases cols.len(),
{
    if cols.len() == 0 {
        -1
    } else if cols.last().0 == c {
        cols.len() - 1
    } else {
        col_index(cols.drop_last(), c)
    }
}

proof fn lemma_col_index(cols: Seq<(u64, Option<FieldConst>, Seq<bool>)>, c: u64)
    ensures
        -1 <= col_index(cols, c) < cols.len(),
        col_index(cols, c) >= 0 ==> cols[col_index(cols, c)].0 == c,
        col_index(cols, c) < 0 ==> forall|i: int| 0 <= i < cols.len() ==> (#[trigger] cols[i]).0 != c,
    decreases cols.len(),
{
    if cols.len() > 0 && cols.last().0 != c {
        lemma_col_index(cols.drop_last(), c);
        assert forall|i: int| 0 <= i < cols.len() - 1 implies cols[i] == cols.drop_last()[i] by {}
    }
}

/// The columns with the column's state added (empty) where it has none.
pub open spec fn with_column(cols: Seq<(u64, Option<FieldConst>, Seq<bool>)>, c: u64) -> Seq<
    (u64, Option<FieldConst>, Seq<bool>),
> {
    if col_index(cols, c) >= 0 {
        cols
    } else {
        cols.push((c, None, Seq::empty()))
    }
}

/// The rows marked assigned, with `offset` marked too (the rows in between unassigned).
pub open spec fn mark_row(assigned: Seq<bool>, offset: nat) -> Seq<bool> {
    Seq::new(
        if assigned.len() > offset {
            assigned.len()
        } else {
            offset + 1
        },
        |i: int| i == offset || (i < assigned.len() && assigned[i]),
    )
}

/// Marking a row of a column assigns that row and no other: the rows assigned afterwards
/// are those assigned before and `offset`, and rows between the old end and `offset`
/// stay unassigned.
pub proof fn lemma_mark_row(assigned: Seq<bool>, offset: nat)
    ensures
        mark_row(assigned, offset).len() == if assigned.len() > offset {
            assigned.len()
        } else {
            offset + 1
        },
        mark_row(assigned, offset)[offset as int],
        forall|j: int|
            0 <= j < mark_row(assigned, offset).len() && j != offset ==> (#[trigger] mark_row(
                assigned,
                offset,
            )[j] <==> (j < assigned.len() && assigned[j])),
{
}

/// The assignment of the cells of one table.
pub struct TableAssignment {
    used_columns: Vec<u64>,
    columns: Vec<TableColumnState>,
    fixed: Vec<(u64, usize, FieldConst)>,
}

impl TableAssignment {
    pub closed spec fn spec_used(&self) -> Seq<u64> {
        self.used_columns@
    }

    pub closed spec fn spec_columns(&self) -> Seq<(u64, Option<FieldConst>, Seq<bool>)> {
        cols_view(self.columns@)
    }

    /// The cells assigned so far: column, row and value.
    pub closed spec fn spec_fixed(&self) -> Seq<(u64, usize, FieldConst)> {
        self.fixed@
    }

    /// A table whose columns must not be among `used_columns`, the columns of the tables
    /// assigned before.
    pub fn new(used_columns: Vec<u64>) -> (r: Self)
        ensures
            r.spec_used() == used_columns@,
            r.spec_columns() == Seq::<(u64, Option<FieldConst>, Seq<bool>)>::empty(),
            r.spec_fixed() == Seq::<(u64, usize, FieldConst)>::empty(),
    {
        let r = TableAssignment { used_columns, columns: Vec::new(), fixed: Vec::new() };
        assert(cols_view(r.columns@) =~= Seq::<(u64, Option<FieldConst>, Seq<bool>)>::empty());
        r
    }

    fn find_column(&self, column: u64) -> (r: Option<usize>)
        ensures
            match r {
                Some(i) => i as int == col_index(self.spec_columns(), column),
                None => col_index(self.spec_columns(), column) < 0,
            },
    {
        proof {
            lemma_col_index(self.spec_columns(), column);
        }
        let mut i: usize = self.columns.len();
        assert(self.spec_columns().take(i as int) =~= self.spec_columns());
        while i > 0
            invariant
                i <= self.columns.len(),
                self.spec_columns().len() == self.columns.len(),
                col_index(self.spec_columns(), column) == col_index(self.spec_columns().take(i as int), column),
            decreases i,
        {
            proof {
                assert(self.spec_columns().take(i as int).drop_last() =~= self.spec_columns().take(i - 1));
            }
            if self.columns[i - 1].column == column {
                return Some(i - 1);
            }
            i -= 1;
        }
        proof {
            assert(self.spec_columns().take(0) =~= Seq::<(u64, Option<FieldConst>, Seq<bool>)>::empty());
        }
        None
    }

    /// Assigns the value of a cell of the table (`None` where it is not known). The
    /// value at row 0 is the column's default; a column cannot get a second default.
    pub fn assign_cell(&mut self, column: u64, offset: usize, value: Option<FieldConst>) -> (r: Result<
        (),
        TableError,
    >)
        requires
            offset < usize::MAX,
        ensures
            final(self).spec_used() == old(self).spec_used(),
            old(self).spec_used().contains(column) ==> (r matches Err(TableError::UsedColumn(c)) && c == column
                && final(self).spec_columns() == old(self).spec_columns()
                && final(self).spec_fixed() == old(self).spec_fixed()),
            !old(self).spec_used().contains(column) ==> {
                let cols1 = with_column(old(self).spec_columns(), column);
                let i = col_index(cols1, column);
                match value {
                    None => r matches Err(TableError::UnknownValue) && final(self).spec_columns() == cols1
                        && final(self).spec_fixed() == old(self).spec_fixed(),
                    Some(v) => {
                        &&& final(self).spec_fixed() == old(self).spec_fixed().push((column, offset, v))
                        &&& if offset == 0 && cols1[i].1 is Some {
                            r matches Err(TableError::OverwriteDefault(c, d, n)) && c == column && Some(d) == cols1[i].1 && n == v
                                && final(self).spec_columns() == cols1
                        } else {
                            r is Ok && final(self).spec_columns() == cols1.update(
                                i,
                                (column, if offset == 0 {
                                    Some(v)
                                } else {
                                    cols1[i].1
                                }, mark_row(cols1[i].2, offset as nat)),
                            )
                        }
                    },
                }
            },
            (!old(self).spec_used().contains(column) && r is Ok) ==> {
                let cols1 = with_column(old(self).spec_columns(), column);
                let i = col_index(cols1, column);
                let before = cols1[i].2;
                let after = final(self).spec_columns()[i].2;
                &&& 0 <= i < final(self).spec_columns().len()
                &&& final(self).spec_columns()[i].0 == column
                &&& after.len() == if before.len() > offset {
                    before.len() as int
                } else {
                    offset + 1
                }
                &&& forall|j: int|
                    0 <= j < after.len() ==> (#[trigger] after[j] <==> (j == offset || (j < before.len()
                        && before[j])))
            },
    {
        let mut u: usize = 0;
        while u < self.used_columns.len()
            invariant
                u <= self.used_columns.len(),
                forall|j: int| 0 <= j < u ==> self.used_columns@[j] != column,
            decreases self.used_columns.len() - u,
        {
            if self.used_columns[u] == column {
                assert(self.used_columns@[u as int] == column);
                return Err(TableError::UsedColumn(column));
            }
            u += 1;
        }
        let idx = match self.find_column(column) {
            Some(i) => i,
            None => {
                let ghost before = self.columns@;
                self.columns.push(TableColumnState { column, default: None, assigned: Vec::new() });
                proof {
                    assert(cols_view(self.columns@) =~= cols_view(before).push((column, None, Seq::empty())));
                    lemma_col_index(cols_view(self.columns@), column);
                }
                self.columns.len() - 1
            },
        };
        let ghost cols1 = self.spec_columns();
        assert(cols1 == with_column(old(self).spec_columns(), column));
        assert(idx as int == col_index(cols1, column)) by {
            lemma_col_index(cols1, column);
        }
        assert(cols1.len() == self.columns.len());
        assert(idx < self.columns.len()) by {
            lemma_col_index(cols1, column);
        }
        let v = match value {
            None => {
                return Err(TableError::UnknownValue);
            },
            Some(v) => v,
        };
        self.fixed.push((column, offset, v));
        proof {
            lemma_col_index(cols1, column);
        }
        let ghost orig = cols1[idx as int];
        assert(col_view(self.columns@[idx as int]) == orig);
        let mut entry = self.columns.remove(idx);
        assert(col_view(entry) == orig);
        if offset == 0 {
            match entry.default {
                None => {
                    entry.default = Some(v);
                },
                Some(d) => {
                    self.columns.insert(idx, entry);
                    proof {
                        assert(cols_view(self.columns@) =~= cols1);
                    }
                    return Err(TableError::OverwriteDefault(column, d, v));
                },
            }
        }
        let ghost old_assigned = entry.assigned@;
        if entry.assigned.len() <= offset {
            entry.assigned.resize(offset + 1, false);
        }
        proof {
            assert forall|j: int| 0 <= j < entry.assigned@.len() implies entry.assigned@[j] == (j
                < old_assigned.len() && old_assigned[j]) by {
                if j < old_assigned.len() {
                    assert(entry.assigned@.subrange(0, old_assigned.len() as int)[j] == entry.assigned@[j]);
                }
            }
        }
        let ghost padded = entry.assigned@;
        entry.assigned.set(offset, true);
        proof {
            assert(padded.len() == if old_assigned.len() > offset {
                old_assigned.len()
            } else {
                (offset + 1) as nat
            });
            assert forall|j: int| 0 <= j < entry.assigned@.len() implies entry.assigned@[j] == mark_row(old_assigned, offset as nat)[j] by {
                if j != offset {
                    assert(entry.assigned@[j] == padded[j]);
                }
            }
            assert(entry.assigned@ =~= mark_row(old_assigned, offset as nat));
        }
        let ghost new_entry = col_view(entry);
        assert(new_entry == (column, if offset == 0 {
            Some(v)
        } else {
            orig.1
        }, mark_row(orig.2, offset as nat)));
        self.columns.insert(idx, entry);
        proof {
            assert(cols_view(self.columns@) =~= cols1.update(idx as int, new_entry));
            lemma_col_index(cols1, column);
        }
        Ok(())
    }

    /// Ends the table: checks that all its columns have the same length with every cell
    /// up to it assigned, then marks its columns as used. Returns that length and, per
    /// column, its default value, which fills the column from that row on.
    pub fn finish(self, used_columns: &mut Vec<u64>) -> (r: Result<(usize, Vec<(u64, FieldConst)>), TableError>)
        ensures
            match table_length(self.spec_columns()) {
                Err(e) => r == Err::<(usize, Vec<(u64, FieldConst)>), TableError>(e) && final(used_columns)@ == old(used_columns)@,
                Ok(n) => r matches Ok(res) && res.0 == n && res.1@ == self.spec_columns().map_values(
                    |c: (u64, Option<FieldConst>, Seq<bool>)| (c.0, c.1.unwrap()),
                ) && final(used_columns)@ == old(used_columns)@ + self.spec_columns().map_values(
                    |c: (u64, Option<FieldConst>, Seq<bool>)| c.0,
                ),
            },
    {
        let n = match compute_table_lengths(&self.columns) {
            Err(e) => {
                return Err(e);
            },
            Ok(n) => n,
        };
        proof {
            assert forall|i: int| 0 <= i < self.spec_columns().len() implies (#[trigger] self.spec_columns()[i]).2.len() <= usize::MAX by {
                assert(self.spec_columns()[i] == col_view(self.columns@[i]));
                assert(self.columns@[i].assigned@.len() == self.columns@[i].assigned.len());
            }
            lemma_table_length_complete(self.spec_columns());
        }
        let ghost cv = self.spec_columns();
        let ghost start = used_columns@;
        let mut fills: Vec<(u64, FieldConst)> = Vec::new();
        let mut i: usize = 0;
        while i < self.columns.len()
            invariant
                i <= self.columns.len(),
                cv == cols_view(self.columns@),
                forall|k: int| 0 <= k < cv.len() ==> (#[trigger] cv[k]).1 is Some,
                fills@ == cv.take(i as int).map_values(|c: (u64, Option<FieldConst>, Seq<bool>)| (c.0, c.1.unwrap())),
                used_columns@ == start + cv.take(i as int).map_values(|c: (u64, Option<FieldConst>, Seq<bool>)| c.0),
            decreases self.columns.len() - i,
        {
            let col = self.columns[i].column;
            assert(cv[i as int] == col_view(self.columns@[i as int]));
            let d = match self.columns[i].default {
                Some(d) => d,
                None => FieldConst::zero(),
            };
            used_columns.push(col);
            fills.push((col, d));
            i += 1;
            proof {
                assert(fills@ =~= cv.take(i as int).map_values(|c: (u64, Option<FieldConst>, Seq<bool>)| (c.0, c.1.unwrap())));
                assert(used_columns@ =~= start + cv.take(i as int).map_values(|c: (u64, Option<FieldConst>, Seq<bool>)| c.0));
            }
        }
        proof {
            assert(cv.take(cv.len() as int) =~= cv);
        }
        Ok((n, fills))
    }
}

} // verus!
