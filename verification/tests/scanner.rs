use tali::language::Language;
use tali::output::Metric;
use tali::scanner::{File, ScanEntry, ScanResults, Scanner, SortOrder};

fn lines_of(contents: &str) -> Vec<String> {
    contents.lines().map(|l| l.to_string()).collect()
}

fn file_entry(path: &str, contents: &str, bytes: u64) -> ScanEntry {
    ScanEntry {
        path: path.to_string(),
        lines: lines_of(contents),
        meta_bytes: Some(bytes),
    }
}

#[test]
fn test_scan_reader_metrics() {
    let contents = "We are\nreading this from\na buffered reader";
    let lines = lines_of(contents);

    let metrics = File::scan_reader(&lines);

    assert_eq!(metrics.path, "STDIN", "Path mismatch");
    assert_eq!(metrics.lines, 3, "Line count mismatch");
    assert_eq!(metrics.words, 8, "Word count mismatch");
    assert_eq!(metrics.chars, 40, "Character count mismatch");
    assert_eq!(metrics.bytes, contents.len() as u64, "Byte count mismatch");
    assert_eq!(metrics.language, Language::Text, "Language mismatch");
}

#[test]
fn scan_reader_of_empty_input_is_all_zero() {
    let lines: Vec<String> = Vec::new();
    let metrics = File::scan_reader(&lines);
    assert_eq!(metrics.lines, 0);
    assert_eq!(metrics.words, 0);
    assert_eq!(metrics.chars, 0);
    assert_eq!(metrics.bytes, 0);
}

#[test]
fn from_content_counts_and_classifies() {
    let file = File::from_content("src/main.rs".to_string(), &lines_of("fn main() {\n}\n"), 14);
    assert_eq!(file.lines, 2);
    assert_eq!(file.words, 4);
    assert_eq!(file.chars, 12);
    assert_eq!(file.bytes, 14);
    assert_eq!(file.language, Language::Rust);
    assert_eq!(file.count, 1);
}

#[test]
fn totals_and_max_follow_the_records() {
    let entries = vec![
        file_entry("a.txt", "one two three\nfour", 18),
        file_entry("b.md", "alpha\nbeta gamma\ndelta", 22),
    ];
    let results = Scanner::new().scan_serial(&entries);

    assert_eq!(results.files.len(), 2);
    assert_eq!(results.total.files, 2);
    assert_eq!(results.total.lines, 2 + 3);
    assert_eq!(results.total.words, 4 + 4);
    assert_eq!(results.total.chars, 17 + 20);
    assert_eq!(results.total.bytes, 18 + 22);
    assert_eq!(results.max.lines, 3);
    assert_eq!(results.max.words, 4);
    assert_eq!(results.max.chars, 20);
    assert_eq!(results.max.bytes, 22);
}

#[test]
fn serial_and_parallel_strategies_agree() {
    let batch_a = vec![
        file_entry("a.rs", "fn a() {}", 9),
        file_entry("b.rs", "fn b() {}\nfn c() {}", 19),
    ];
    let batch_b = vec![file_entry("c.txt", "words here", 10)];

    let mut all = Vec::new();
    all.extend(batch_a.iter().map(|e| ScanEntry {
        path: e.path.clone(),
        lines: e.lines.clone(),
        meta_bytes: e.meta_bytes,
    }));
    all.extend(batch_b.iter().map(|e| ScanEntry {
        path: e.path.clone(),
        lines: e.lines.clone(),
        meta_bytes: e.meta_bytes,
    }));

    let scanner = Scanner::new();
    let serial = scanner.scan_serial(&all);
    let local_a = scanner.scan_serial(&batch_a);
    let local_b = scanner.scan_serial(&batch_b);
    let parallel = scanner.scan_parallel(vec![local_a, local_b]);

    assert_eq!(serial.total.files, parallel.total.files);
    assert_eq!(serial.total.lines, parallel.total.lines);
    assert_eq!(serial.total.words, parallel.total.words);
    assert_eq!(serial.total.chars, parallel.total.chars);
    assert_eq!(serial.total.bytes, parallel.total.bytes);
    assert_eq!(serial.max.lines, parallel.max.lines);
    assert_eq!(serial.max.words, parallel.max.words);
    assert_eq!(serial.max.chars, parallel.max.chars);
    assert_eq!(serial.max.bytes, parallel.max.bytes);

    let mut serial_paths: Vec<String> = serial.files.iter().map(|f| f.path.clone()).collect();
    let mut parallel_paths: Vec<String> = parallel.files.iter().map(|f| f.path.clone()).collect();
    serial_paths.sort();
    parallel_paths.sort();
    assert_eq!(serial_paths, parallel_paths);
}

#[test]
fn grouping_condenses_by_language_and_recounts() {
    let entries = vec![
        file_entry("a.rs", "fn a() {}", 9),
        file_entry("b.rs", "fn b() {}", 9),
        file_entry("c.txt", "text", 4),
    ];
    let results = Scanner::new().scan_serial(&entries);
    let grouped = results.group_by_language();

    assert_eq!(grouped.files.len(), 2);
    assert_eq!(grouped.files[0].language, Language::Rust);
    assert_eq!(grouped.files[0].count, 2);
    assert_eq!(grouped.files[0].bytes, 18);
    assert_eq!(grouped.files[1].language, Language::Text);
    assert_eq!(grouped.files[1].count, 1);
    assert_eq!(grouped.total.files, 2);
    assert_eq!(grouped.total.bytes, 22);
    assert_eq!(grouped.max.bytes, 18);
}

#[test]
fn grouping_twice_changes_nothing() {
    let entries = vec![
        file_entry("a.rs", "fn a() {}", 9),
        file_entry("b.rs", "fn b() {}", 9),
        file_entry("c.txt", "text", 4),
    ];
    let results = Scanner::new().scan_serial(&entries);
    let once = results.group_by_language();
    let twice = once.group_by_language();

    assert_eq!(once.files.len(), twice.files.len());
    for (a, b) in once.files.iter().zip(twice.files.iter()) {
        assert_eq!(a.path, b.path);
        assert_eq!(a.lines, b.lines);
        assert_eq!(a.words, b.words);
        assert_eq!(a.chars, b.chars);
        assert_eq!(a.bytes, b.bytes);
        assert_eq!(a.count, b.count);
    }
    assert_eq!(once.total.bytes, twice.total.bytes);
    assert_eq!(once.max.bytes, twice.max.bytes);
}

#[test]
fn grouping_fixes_the_char_sum() {
    // the combined record's chars are the sum of the members' chars, not
    // anything drawn from the word counts
    let entries = vec![
        file_entry("a.rs", "abcde fgh", 9),
        file_entry("b.rs", "ij klm nop", 10),
    ];
    let results = Scanner::new().scan_serial(&entries);
    let grouped = results.group_by_language();
    assert_eq!(grouped.files.len(), 1);
    assert_eq!(grouped.files[0].chars, 9 + 10);
    assert_eq!(grouped.files[0].words, 2 + 3);
}

#[test]
fn sorting_ascending_then_descending_reverses() {
    let entries = vec![
        file_entry("small.txt", "a", 1),
        file_entry("big.txt", "aaaa", 4),
        file_entry("mid.txt", "aa", 2),
    ];
    let mut results = Scanner::new().scan_serial(&entries);

    results.sort_by(Metric::Bytes, &SortOrder::Ascending);
    let ascending: Vec<String> = results.files.iter().map(|f| f.path.clone()).collect();
    assert_eq!(ascending, vec!["small.txt", "mid.txt", "big.txt"]);

    results.sort_by(Metric::Bytes, &SortOrder::Descending);
    let descending: Vec<String> = results.files.iter().map(|f| f.path.clone()).collect();
    assert_eq!(descending, vec!["big.txt", "mid.txt", "small.txt"]);
}

#[test]
fn sorting_is_stable_for_equal_keys() {
    let entries = vec![
        file_entry("first.txt", "aa", 2),
        file_entry("second.txt", "bb", 2),
        file_entry("third.txt", "c", 1),
    ];
    let mut results = Scanner::new().scan_serial(&entries);

    results.sort_by(Metric::Bytes, &SortOrder::Ascending);
    let order: Vec<String> = results.files.iter().map(|f| f.path.clone()).collect();
    assert_eq!(order, vec!["third.txt", "first.txt", "second.txt"]);

    results.sort_by(Metric::Bytes, &SortOrder::Descending);
    let order: Vec<String> = results.files.iter().map(|f| f.path.clone()).collect();
    assert_eq!(order, vec!["first.txt", "second.txt", "third.txt"]);
}

#[test]
fn sorting_by_each_metric_uses_that_field() {
    let entries = vec![
        file_entry("lines.txt", "a\nb\nc", 5),
        file_entry("words.txt", "lots of words here now", 22),
    ];
    let mut results = Scanner::new().scan_serial(&entries);
    results.sort_by(Metric::Lines, &SortOrder::Descending);
    assert_eq!(results.files[0].path, "lines.txt");
    results.sort_by(Metric::Words, &SortOrder::Descending);
    assert_eq!(results.files[0].path, "words.txt");
}

#[test]
fn end_to_end_grouped_scan_of_two_files() {
    // one 3-line, 7-word, 40-byte text file and one 2-line, 4-word, 20-byte
    // markdown file, grouped by language
    let entries = vec![
        file_entry("notes.txt", "one two three\nfour five\nsix seven", 40),
        file_entry("readme.md", "alpha beta\ngamma delta", 20),
    ];
    let results = Scanner::new().scan_serial(&entries);
    let grouped = results.group_by_language();

    assert_eq!(grouped.files.len(), 2);
    assert_eq!(grouped.files[0].count, 1);
    assert_eq!(grouped.files[1].count, 1);
    assert_eq!(grouped.total.files, 2);
    assert_eq!(grouped.total.lines, 5);
    assert_eq!(grouped.total.words, 11);
    assert_eq!(grouped.total.bytes, 60);
    assert_eq!(grouped.max.lines, 3);
    assert_eq!(grouped.max.words, 7);
    assert_eq!(grouped.max.bytes, 40);
}

#[test]
fn results_can_be_merged_incrementally() {
    let mut global = ScanResults::new();
    let local = Scanner::new().scan_serial(&vec![file_entry("a.txt", "hi", 2)]);
    global.merge(local);
    assert_eq!(global.total.files, 1);
    assert_eq!(global.total.bytes, 2);

    let mut more = ScanResults::new();
    more.push(File::from_content("b.txt".to_string(), &lines_of("yo ho"), 5));
    global.merge(more);
    assert_eq!(global.total.files, 2);
    assert_eq!(global.total.bytes, 7);
    assert_eq!(global.max.bytes, 5);
}

#[test]
fn scanner_configuration_is_retained() {
    let mut scanner = Scanner::new();
    scanner.scan_depth(Some(3));
    scanner.max_filesize(Some(1024));
    scanner.ignore_hidden(true);
    scanner.run_parallel(true);
    assert_eq!(scanner.scan_depth, Some(3));
    assert_eq!(scanner.max_filesize, Some(1024));
    assert!(scanner.ignore_hidden);
    assert!(scanner.parallel);
}

#[test]
fn counters_render_exactly() {
    let entries = vec![file_entry("n.txt", "a b", 1023)];
    let results = Scanner::new().scan_serial(&entries);
    let grouped = results.group_by_language();
    assert_eq!(grouped.files[0].bytes.to_string(), "1023");
    assert_eq!(grouped.total.bytes, 1023);
}
