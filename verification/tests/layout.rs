use mdnt_extractor::expr::FieldConst;
use mdnt_extractor::layout::{
    compute_table_lengths, ConstantCell, LayoutError, RegionLayout, TableAssignment, TableColumnState,
    TableError,
};

#[test]
fn regions_start_after_their_columns_are_free() {
    let mut layout = RegionLayout::new();
    assert_eq!(layout.place_region(&vec![1, 2], 3), 0);
    assert_eq!(layout.place_region(&vec![2, 3], 2), 3);
    assert_eq!(layout.place_region(&vec![4], 1), 0);
    assert_eq!(layout.place_region(&vec![1, 3, 4], 1), 5);
    assert_eq!(layout.absolute_row(1, 1), 4);
}

#[test]
fn constants_go_to_the_constants_column_in_order() {
    let mut layout = RegionLayout::new();
    layout.place_region(&vec![1], 2);
    layout.place_region(&vec![1], 3);
    let cells = vec![
        ConstantCell { region: 1, row_offset: 0, column: 1, value: FieldConst::from_u64(7) },
        ConstantCell { region: 0, row_offset: 1, column: 1, value: FieldConst::from_u64(9) },
    ];
    let copies = layout.assign_constants(Some(100), &cells).unwrap();
    assert_eq!(copies.len(), 2);
    assert_eq!((copies[0].fixed_row, copies[0].advice_row), (0, 2));
    assert_eq!((copies[1].fixed_row, copies[1].advice_row), (1, 1));
    let more = layout.assign_constants(Some(100), &cells).unwrap();
    assert_eq!(more[0].fixed_row, 2);
    assert_eq!(layout.assign_constants(None, &cells).unwrap_err(), LayoutError::NotEnoughColumnsForConstants);
    assert!(layout.assign_constants(None, &vec![]).unwrap().is_empty());
}

#[test]
fn unknown_fixed_value() {
    let mut layout = RegionLayout::new();
    layout.place_region(&vec![1], 2);
    assert_eq!(layout.assign_fixed(3, 0, 1, None).unwrap_err(), "Unknown fixed value assigned to cell (3, 1)");
    assert_eq!(layout.assign_fixed(3, 0, 1, Some(FieldConst::from_u64(5))).unwrap().0, 1);
}

#[test]
fn table_cells_and_lengths() {
    let v = |x| Some(FieldConst::from_u64(x));
    let mut table = TableAssignment::new(vec![9]);
    assert!(matches!(table.assign_cell(9, 0, v(1)), Err(TableError::UsedColumn(9))));
    table.assign_cell(1, 0, v(0)).unwrap();
    table.assign_cell(1, 1, v(1)).unwrap();
    table.assign_cell(2, 1, v(2)).unwrap();
    assert!(matches!(table.assign_cell(2, 0, None), Err(TableError::UnknownValue)));
    table.assign_cell(2, 0, v(5)).unwrap();
    assert!(matches!(table.assign_cell(2, 0, v(6)), Err(TableError::OverwriteDefault(2, _, _))));
    let mut used = vec![9];
    let (len, fills) = table.finish(&mut used).unwrap();
    assert_eq!(len, 2);
    assert_eq!(used, vec![9, 1, 2]);
    assert_eq!(fills, vec![(1, FieldConst::from_u64(0)), (2, FieldConst::from_u64(5))]);
}

#[test]
fn table_length_errors() {
    let col = |c: u64, d: bool, a: Vec<bool>| TableColumnState {
        column: c,
        default: if d { Some(FieldConst::from_u64(0)) } else { None },
        assigned: a,
    };
    assert_eq!(compute_table_lengths(&vec![]).unwrap(), 0);
    assert!(matches!(compute_table_lengths(&vec![col(1, true, vec![true, false])]), Err(TableError::ColumnNotAssigned(1))));
    assert!(matches!(compute_table_lengths(&vec![col(4, false, vec![true])]), Err(TableError::ColumnNotAssigned(4))));
    let uneven = compute_table_lengths(&vec![col(5, true, vec![true, true]), col(3, true, vec![true])]);
    assert!(matches!(uneven, Err(TableError::UnevenColumnLengths((3, 1), (5, 2)))));
    assert_eq!(compute_table_lengths(&vec![col(5, true, vec![true; 3]), col(3, true, vec![true; 3])]).unwrap(), 3);
}
