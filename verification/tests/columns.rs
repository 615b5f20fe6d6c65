use tali::helpers::table::Columns;

#[test]
fn test_mark_for_recalc() {
    let mut cols = Columns::default();
    assert_eq!(cols.needs_recalculation, false);
    cols.mark_for_recalc();
    assert_eq!(cols.needs_recalculation, true);
}

#[test]
fn test_get() {
    let cols = Columns {
        widths: vec![5, 10, 15],
        needs_recalculation: false,
    };
    assert_eq!(cols.get(1), Some(10));
    assert_eq!(cols.get(3), None);
}

#[test]
fn test_get_or() {
    let cols = Columns {
        widths: vec![5, 10, 15],
        needs_recalculation: false,
    };
    assert_eq!(cols.get_or(1, 42), 10);
    assert_eq!(cols.get_or(3, 42), 42);
}

#[test]
fn test_calculate() {
    let mut cols = Columns::default();
    cols.mark_for_recalc();

    let rows = vec![
        vec!["Hello".to_string(), "World".to_string()],
        vec!["Rust".to_string(), "Lang".to_string()],
        vec!["LongerText".to_string(), "Test".to_string()],
    ];

    cols.calculate(&rows);
    assert_eq!(cols.widths, vec![10, 5]);
}

#[test]
fn test_iteration() {
    let cols = Columns {
        widths: vec![8, 12, 6],
        needs_recalculation: false,
    };
    let widths: Vec<usize> = cols.widths.clone();
    assert_eq!(widths, vec![8, 12, 6]);
}

#[test]
fn calculate_skips_when_not_marked() {
    let mut cols = Columns {
        widths: vec![1],
        needs_recalculation: false,
    };
    let rows = vec![vec!["wide cell".to_string()]];
    cols.calculate(&rows);
    assert_eq!(cols.widths, vec![1]);
}

#[test]
fn calculate_measures_visible_width_not_bytes() {
    let mut cols = Columns::default();
    cols.mark_for_recalc();
    // a colored cell: two visible characters inside eleven bytes of text
    let rows = vec![vec!["\x1b[31mab\x1b[0m".to_string()]];
    cols.calculate(&rows);
    assert_eq!(cols.widths, vec![2]);
}
