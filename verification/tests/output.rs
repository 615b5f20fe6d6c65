use tali::output::{display, Config, Format, JSONFormatter, Metric, TableFormatter};
use tali::scanner::{File, ScanResults, SortOrder};

fn record(path: &str, lines: usize, words: usize, chars: usize, bytes: u64) -> File {
    File::from_content(
        path.to_string(),
        &demo_lines(lines, words, chars),
        bytes,
    )
}

/// Builds content with the requested number of lines, words and characters:
/// every line holds its words, and the character budget is spent by widening
/// the last word.
fn demo_lines(lines: usize, words: usize, chars: usize) -> Vec<String> {
    assert!(lines >= 1 && words >= lines);
    let mut out = Vec::new();
    let mut words_left = words;
    let mut chars_used = 0;
    for l in 0..lines {
        let in_this = if l == lines - 1 {
            words_left
        } else {
            1
        };
        let mut line = Vec::new();
        for _ in 0..in_this {
            line.push("x".to_string());
            chars_used += 1;
        }
        words_left -= in_this;
        out.push(line.join(" "));
        chars_used += in_this - 1;
    }
    assert!(chars >= chars_used);
    let pad = chars - chars_used;
    let last = out.last().unwrap().clone() + &"x".repeat(pad);
    let n = out.len();
    out[n - 1] = last;
    out
}

fn simple_results() -> ScanResults {
    let mut results = ScanResults::new();
    results.push(record("a.txt", 1, 2, 5, 5));
    results
}

fn plain_config(format: Format) -> Config {
    let mut config = Config::default();
    config.use_colors = false;
    config.graph = false;
    config.format = format;
    config
}

#[test]
fn csv_output_lists_header_rows_and_footer() {
    let results = simple_results();
    let config = plain_config(Format::CSV);
    let out = display(results, config);
    assert_eq!(
        out,
        "Language,Path,Lines,Words,Chars,Bytes\nText,a.txt,1,2,5,5\nTotal,1,1,2,5,5"
    );
}

#[test]
fn tsv_output_uses_tabs() {
    let results = simple_results();
    let mut config = plain_config(Format::TSV);
    config.header = false;
    config.footer = false;
    let out = display(results, config);
    assert_eq!(out, "Text\ta.txt\t1\t2\t5\t5\n");
}

#[test]
fn json_output_serializes_everything() {
    let formatter = JSONFormatter::default();
    let results = simple_results();
    let out = formatter.render(&results);
    assert_eq!(
        out,
        "{\"files\":[{\"path\":\"a.txt\",\"lines\":1,\"words\":2,\"chars\":5,\"bytes\":5,\
         \"language\":\"Text\",\"count\":1}],\
         \"total\":{\"files\":1,\"lines\":1,\"words\":2,\"chars\":5,\"bytes\":5},\
         \"max\":{\"lines\":1,\"words\":2,\"chars\":5,\"bytes\":5}}"
    );
}

#[test]
fn json_escapes_quotes_and_controls() {
    let mut results = ScanResults::new();
    results.push(record("we\"ird\\path", 1, 1, 1, 1));
    let out = JSONFormatter::default().render(&results);
    assert!(out.contains("we\\\"ird\\\\path"));
}

#[test]
fn bar_is_proportional_to_the_maximum() {
    let mut results = ScanResults::new();
    results.push(record("big.txt", 1, 1, 1, 100));
    results.push(record("half.txt", 1, 1, 1, 50));
    results.push(record("none.txt", 1, 1, 1, 0));
    let mut config = plain_config(Format::Table);
    config.graph = true;
    config.graph_by = Metric::Bytes;
    config.graph_fill = "#".to_string();
    config.graph_blank = ".".to_string();
    config.graph_size = 20;

    let formatter = TableFormatter::default();
    let full = formatter.build_visualization(&results.files[0], &results, &config);
    let half = formatter.build_visualization(&results.files[1], &results, &config);
    let none = formatter.build_visualization(&results.files[2], &results, &config);
    assert_eq!(full, "#".repeat(20));
    assert_eq!(half, format!("{}{}", "#".repeat(10), ".".repeat(10)));
    assert_eq!(none, ".".repeat(20));
}

#[test]
fn bar_of_empty_results_never_divides() {
    let mut results = ScanResults::new();
    results.push(record("zero.txt", 1, 1, 1, 0));
    let mut config = plain_config(Format::Table);
    config.graph = true;
    config.graph_fill = "#".to_string();
    config.graph_blank = ".".to_string();
    config.graph_size = 20;
    let bar = TableFormatter::default().build_visualization(&results.files[0], &results, &config);
    assert_eq!(bar, ".".repeat(20));
}

#[test]
fn bar_rounds_to_the_nearest_glyph() {
    let mut results = ScanResults::new();
    results.push(record("max.txt", 1, 1, 1, 3));
    results.push(record("third.txt", 1, 1, 1, 1));
    let mut config = plain_config(Format::Table);
    config.graph = true;
    config.graph_fill = "#".to_string();
    config.graph_blank = ".".to_string();
    config.graph_size = 10;
    // 1/3 of 10 is 3.33..., which rounds to 3
    let bar = TableFormatter::default().build_visualization(&results.files[1], &results, &config);
    assert_eq!(bar, format!("{}{}", "#".repeat(3), ".".repeat(7)));
}

#[test]
fn colored_cells_wrap_in_rgb_sequences() {
    let mut results = ScanResults::new();
    results.push(record("a.rs", 1, 1, 1, 1));
    let mut table_config = plain_config(Format::Table);
    table_config.use_colors = true;
    let row = TableFormatter::default().build_row(&results.files[0], &results, &table_config);
    assert!(row.starts_with("\u{1b}[38;2;255;165;0mRust\u{1b}[0m"));
}

#[test]
fn plain_format_strips_decoration() {
    let results = simple_results();
    let mut config = Config::default();
    config.format = Format::Plain;
    let out = display(results, config);
    assert_eq!(out, "Text\ta.txt\t1\t2\t5\t5\n");
}

#[test]
fn table_format_pads_and_rules() {
    let results = simple_results();
    let mut config = plain_config(Format::Table);
    config.language = false;
    config.lines = false;
    config.words = false;
    config.chars = false;
    let out = display(results, config);
    assert_eq!(
        out,
        "Path     Bytes    \n---------------\na.txt        5    \n---------------\n1            5    \n"
    );
}

#[test]
fn metric_names_parse_with_aliases() {
    assert_eq!(Metric::parse("lines"), Some(Metric::Lines));
    assert_eq!(Metric::parse("W"), Some(Metric::Words));
    assert_eq!(Metric::parse("EXT"), Some(Metric::Language));
    assert_eq!(Metric::parse("file-count"), Some(Metric::Files));
    assert_eq!(Metric::parse("nonsense"), None);
    assert_eq!(Metric::Bytes.name(), "bytes");
}

#[test]
fn sort_orders_parse_with_aliases() {
    assert_eq!(SortOrder::parse("asc"), Some(SortOrder::Ascending));
    assert_eq!(SortOrder::parse("ASC"), Some(SortOrder::Ascending));
    assert_eq!(SortOrder::parse("d"), Some(SortOrder::Descending));
    assert_eq!(SortOrder::parse("Descending"), Some(SortOrder::Descending));
    assert_eq!(SortOrder::parse("sideways"), None);
}

#[test]
fn formats_parse_by_exact_name() {
    assert_eq!(Format::parse("table"), Some(Format::Table));
    assert_eq!(Format::parse("json"), Some(Format::JSON));
    assert_eq!(Format::parse("yaml"), None);
}

#[test]
fn grouped_display_shows_counts() {
    let mut results = ScanResults::new();
    results.push(record("a.rs", 1, 1, 1, 1));
    results.push(record("b.rs", 1, 1, 1, 1));
    let mut config = plain_config(Format::CSV);
    config.group_by_language = true;
    let out = display(results, config);
    assert_eq!(out, "Language,Files,Lines,Words,Chars,Bytes\nRust,2,2,2,2,2\nTotal,1,2,2,2,2");
}

#[test]
fn summary_display_lists_languages() {
    let mut results = ScanResults::new();
    results.push(record("a.rs", 1, 1, 1, 1));
    results.push(record("b.txt", 1, 1, 1, 1));
    let out = results.display();
    assert!(out.contains("Language"));
    assert!(out.contains("Rust"));
    assert!(out.contains("Total"));
}
