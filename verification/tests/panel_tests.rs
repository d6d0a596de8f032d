use stock_tracker::panel::{grid_cell, grid_columns, grid_rows, Selection, MAX_SELECTED};

#[test]
fn click_picks_and_drops() {
    let mut selection = Selection::new();
    assert!(selection.is_empty());
    selection.toggle("AAPL");
    selection.toggle("MSFT");
    selection.toggle("SPY");
    assert_eq!(selection.len(), 3);
    assert!(selection.contains("MSFT"));
    assert_eq!(selection.find("MSFT"), Some(1));
    selection.toggle("MSFT");
    assert_eq!(selection.len(), 2);
    assert!(!selection.contains("MSFT"));
    assert_eq!(selection.find("MSFT"), None);
    assert_eq!(selection.symbol_at(0), "AAPL");
    assert_eq!(selection.symbol_at(1), "SPY");
    assert!(!selection.is_empty());
}

#[test]
fn ninth_pick_is_ignored() {
    let mut selection = Selection::new();
    let names = ["A", "B", "C", "D", "E", "F", "G", "H"];
    for name in names {
        selection.toggle(name);
    }
    assert_eq!(MAX_SELECTED, 8);
    assert_eq!(selection.len(), 8);
    selection.toggle("I");
    assert_eq!(selection.len(), 8);
    assert!(!selection.contains("I"));
    for (i, name) in names.iter().enumerate() {
        assert_eq!(selection.symbol_at(i), name);
    }
    selection.toggle("A");
    assert_eq!(selection.len(), 7);
    selection.toggle("I");
    assert_eq!(selection.len(), 8);
    assert_eq!(selection.symbol_at(7), "I");
    assert_eq!(selection.symbol_at(0), "B");
}

#[test]
fn grid_has_up_to_three_columns() {
    assert_eq!(grid_columns(1), 1);
    assert_eq!(grid_columns(2), 2);
    assert_eq!(grid_columns(4), 2);
    assert_eq!(grid_columns(5), 3);
    assert_eq!(grid_columns(8), 3);
    assert_eq!(grid_columns(0), 2);
}

#[test]
fn grid_rows_round_up() {
    assert_eq!(grid_rows(0), 0);
    assert_eq!(grid_rows(1), 1);
    assert_eq!(grid_rows(2), 1);
    assert_eq!(grid_rows(3), 2);
    assert_eq!(grid_rows(4), 2);
    assert_eq!(grid_rows(5), 2);
    assert_eq!(grid_rows(6), 2);
    assert_eq!(grid_rows(7), 3);
    assert_eq!(grid_rows(8), 3);
    assert_eq!(grid_rows(usize::MAX), usize::MAX / 3);
}

#[test]
fn grid_cells_fill_row_by_row() {
    assert_eq!(grid_cell(0, 1), (0, 0));
    assert_eq!(grid_cell(2, 3), (0, 1));
    assert_eq!(grid_cell(3, 4), (1, 1));
    assert_eq!(grid_cell(4, 5), (1, 1));
    assert_eq!(grid_cell(7, 8), (1, 2));
    for count in 1..=8usize {
        for index in 0..count {
            let (column, row) = grid_cell(index, count);
            assert!(column < grid_columns(count));
            assert!(row < grid_rows(count));
        }
    }
}
