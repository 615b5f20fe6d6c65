use tali::helpers::table::TableBuilder;

#[test]
fn test_builder_defaults() {
    let builder = TableBuilder::default();
    assert_eq!(builder.contents, "");
    assert_eq!(builder.delimiter, '\t');
    assert!(!builder.has_header);
    assert!(!builder.has_footer);
}

#[test]
fn test_builder_from_csv() {
    let builder = TableBuilder::from_csv("a,b,c\nd,e,f");
    assert_eq!(builder.delimiter, ',');
}

#[test]
fn test_builder_from_tsv() {
    let builder = TableBuilder::from_tsv("a\tb\tc\nd\te\tf");
    assert_eq!(builder.delimiter, '\t');
}

#[test]
fn test_builder_with_header_footer() {
    let mut builder = TableBuilder::new("a,b,c\nd,e,f\ng,h,i", ',');
    builder.with_header(true);
    builder.with_footer(true);
    assert!(builder.has_header);
    assert!(builder.has_footer);
}

#[test]
fn test_builder_build() {
    let mut builder = TableBuilder::from_csv("H1,H2\na,b\nc,d");
    builder.with_header(true);
    let table = builder.build();
    assert_eq!(table.header, vec!["H1", "H2"]);
    assert_eq!(table.rows, vec![vec!["a", "b"], vec!["c", "d"]]);
}

#[test]
fn build_trims_cells_and_keeps_empty_ones() {
    let table = TableBuilder::from_csv(" a , b \n,c").build();
    assert_eq!(table.rows, vec![vec!["a", "b"], vec!["", "c"]]);
}
