use tali::helpers::table::{Alignment, Separator, Table};

#[test]
fn test_table_from_csv() {
    let input = "a,b,c\nd,e,f";
    let table = Table::from_csv(input);
    assert_eq!(table.rows, vec![vec!["a", "b", "c"], vec!["d", "e", "f"]]);
}

#[test]
fn test_table_from_tsv() {
    let input = "a\tb\tc\nd\te\tf";
    let table = Table::from_tsv(input);
    assert_eq!(table.rows, vec![vec!["a", "b", "c"], vec!["d", "e", "f"]]);
}

#[test]
fn test_with_header() {
    let mut table = Table::from_csv("");
    table.with_header(vec!["Col1".to_string(), "Col2".to_string()]);
    assert_eq!(table.header, vec!["Col1", "Col2"]);
}

#[test]
fn test_with_footer() {
    let mut table = Table::from_csv("");
    table.with_footer(vec!["Total".to_string(), "42".to_string()]);
    assert_eq!(table.footer, vec!["Total", "42"]);
}

#[test]
fn test_with_alignments() {
    let mut table = Table::from_csv("");
    table.with_alignments(vec![Alignment::Left, Alignment::Right]);
    assert_eq!(table.alignments, vec![Alignment::Left, Alignment::Right]);
}

#[test]
fn test_with_separators() {
    let mut table = Table::from_csv("");
    table.with_horizontal_separator("---");
    table.with_vertical_separator("|");
    assert_eq!(table.separator.horizontal, "---");
    assert_eq!(table.separator.vertical, "|");
}

#[test]
fn test_add_row() {
    let mut table = Table::from_csv("");
    table.add_row(vec!["Data1".to_string(), "Data2".to_string()]);
    assert_eq!(table.rows, vec![vec!["Data1", "Data2"]]);
}

#[test]
fn test_display_output() {
    let mut table = Table::from_csv("a,b\nc,d");
    table.with_header(vec!["H1".to_string(), "H2".to_string()]);
    table.with_footer(vec!["F1".to_string(), "F2".to_string()]);
    let output = table.display();
    assert!(output.contains("H1"));
    assert!(output.contains("a"));
    assert!(output.contains("F1"));
}

#[test]
fn test_separator_default() {
    let separator = Separator::default();
    assert_eq!(separator.horizontal, "    ");
    assert_eq!(separator.vertical, "-");
}

#[test]
fn test_with_horizontal_separator() {
    let mut table = Table::from_csv("");
    table.with_horizontal_separator("|");
    assert_eq!(table.separator.horizontal, "|");
}

#[test]
fn test_with_vertical_separator() {
    let mut table = Table::from_csv("");
    table.with_vertical_separator("#");
    assert_eq!(table.separator.vertical, "#");
}

#[test]
fn test_table_iterator_order() {
    let mut table = Table::from_csv("a,b\nc,d");
    table.with_header(vec!["H1".to_string(), "H2".to_string()]);
    table.with_footer(vec!["F1".to_string(), "F2".to_string()]);

    let iterated: Vec<Vec<String>> = table.iter_rows();

    let expected = vec![
        vec!["H1".to_string(), "H2".to_string()],
        vec!["a".to_string(), "b".to_string()],
        vec!["c".to_string(), "d".to_string()],
        vec!["F1".to_string(), "F2".to_string()],
    ];

    assert_eq!(iterated, expected);
}

#[test]
fn test_table_iterator_empty_header() {
    let mut table = Table::from_csv("a,b\nc,d");
    table.with_footer(vec!["F1".to_string(), "F2".to_string()]);

    let iterated: Vec<Vec<String>> = table.iter_rows();

    let expected = vec![
        vec!["a".to_string(), "b".to_string()],
        vec!["c".to_string(), "d".to_string()],
        vec!["F1".to_string(), "F2".to_string()],
    ];

    assert_eq!(iterated, expected);
}

#[test]
fn test_table_iterator_empty_footer() {
    let mut table = Table::from_csv("a,b\nc,d");
    table.with_header(vec!["H1".to_string(), "H2".to_string()]);

    let iterated: Vec<Vec<String>> = table.iter_rows();

    let expected = vec![
        vec!["H1".to_string(), "H2".to_string()],
        vec!["a".to_string(), "b".to_string()],
        vec!["c".to_string(), "d".to_string()],
    ];

    assert_eq!(iterated, expected);
}

#[test]
fn test_table_iterator_empty_rows() {
    let mut table = Table::from_csv("");
    table.with_header(vec!["H1".to_string(), "H2".to_string()]);
    table.with_footer(vec!["F1".to_string(), "F2".to_string()]);

    let iterated: Vec<Vec<String>> = table.iter_rows();

    let expected = vec![
        vec!["H1".to_string(), "H2".to_string()],
        vec!["F1".to_string(), "F2".to_string()],
    ];

    assert_eq!(iterated, expected);
}

#[test]
fn display_pads_cells_to_column_width() {
    let mut table = Table::from_csv("a,b\nlong,d");
    let output = table.display();
    assert_eq!(output, "a       b    \nlong    d    \n");
}

#[test]
fn colored_cells_take_their_visible_width() {
    let mut table = Table::from_tsv("\x1b[31mab\x1b[0m\nabcd");
    let output = table.display();
    assert_eq!(output, "\x1b[31mab\x1b[0m      \nabcd    \n");
}
