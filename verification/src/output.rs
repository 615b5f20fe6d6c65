//! The rendering configuration and the output dispatch: which columns to
//! show, grouping and sorting choices, visualization-bar settings, and the
//! selected output format.

pub mod delimiter;
pub mod json;
pub mod table;

pub use delimiter::DelimiterFormatter;
pub use json::JSONFormatter;
pub use table::TableFormatter;

use vstd::prelude::*;

use crate::language::{lower_of, lowercase};
use crate::scanner::accumulators::{max_of, totals_of};
use crate::scanner::file::{recs, Rec};
use crate::scanner::group::{count_sum, grouped_recs};
use crate::scanner::sort::sort_spec;
use crate::scanner::{ScanResults, SortOrder};
use crate::text::str_eq;

use delimiter::delim_format_spec;
use json::json_results;
use table::table_format_spec;

verus! {

/// A renderer from a result set and a configuration to output text. Each
/// implementation declares the exact text it produces, and `format` is held
/// to it, so a caller going through the trait keeps the full contract.
pub trait Formatter {
    /// The exact text this formatter produces for the given inputs.
    spec fn format_spec(&self, results: &ScanResults, config: &Config) -> Seq<char>;

    fn format(&self, results: &ScanResults, config: &Config) -> (r: String)
        ensures
            r@ == self.format_spec(results, config),
    ;
}

/// A column or quantity of the result model that sorting and the
/// visualization bar can be keyed by.
#[derive(Debug, Clone, Copy, PartialEq, Eq, Structural)]
pub enum Metric {
    Language,
    Files,
    Lines,
    Words,
    Chars,
    Bytes,
}

/// The metric named by an already-lowercased string, if any.
pub open spec fn parse_metric(s: Seq<char>) -> Option<Metric> {
    if s == "language"@ || s == "lang"@ || s == "kind"@ || s == "type"@ || s == "extension"@ || s
        == "ext"@ {
        Some(Metric::Language)
    } else if s == "files"@ || s == "file"@ || s == "f"@ || s == "file-count"@ || s == "count"@ {
        Some(Metric::Files)
    } else if s == "lines"@ || s == "line"@ || s == "l"@ {
        Some(Metric::Lines)
    } else if s == "words"@ || s == "word"@ || s == "w"@ {
        Some(Metric::Words)
    } else if s == "chars"@ || s == "char"@ || s == "c"@ {
        Some(Metric::Chars)
    } else if s == "bytes"@ || s == "byte"@ || s == "b"@ {
        Some(Metric::Bytes)
    } else {
        None
    }
}

impl Metric {
    /// Parse a [`Metric`] from its name or an alias, case-insensitively.
    pub fn parse(s: &str) -> (r: Option<Metric>)
        ensures
            r == parse_metric(lower_of(s@)),
    {
        let low = lowercase(s);
        let t = low.as_str();
        if str_eq(t, "language") || str_eq(t, "lang") || str_eq(t, "kind") || str_eq(t, "type")
            || str_eq(t, "extension") || str_eq(t, "ext") {
            Some(Metric::Language)
        } else if str_eq(t, "files") || str_eq(t, "file") || str_eq(t, "f") || str_eq(
            t,
            "file-count",
        ) || str_eq(t, "count") {
            Some(Metric::Files)
        } else if str_eq(t, "lines") || str_eq(t, "line") || str_eq(t, "l") {
            Some(Metric::Lines)
        } else if str_eq(t, "words") || str_eq(t, "word") || str_eq(t, "w") {
            Some(Metric::Words)
        } else if str_eq(t, "chars") || str_eq(t, "char") || str_eq(t, "c") {
            Some(Metric::Chars)
        } else if str_eq(t, "bytes") || str_eq(t, "byte") || str_eq(t, "b") {
            Some(Metric::Bytes)
        } else {
            None
        }
    }

    /// The lowercase name of the metric.
    pub fn name(&self) -> (r: String)
        ensures
            r@ == metric_name(*self),
    {
        match self {
            Metric::Language => "language".to_owned(),
            Metric::Files => "files".to_owned(),
            Metric::Lines => "lines".to_owned(),
            Metric::Words => "words".to_owned(),
            Metric::Chars => "chars".to_owned(),
            Metric::Bytes => "bytes".to_owned(),
        }
    }
}

/// The lowercase name of a metric.
pub open spec fn metric_name(m: Metric) -> Seq<char> {
    match m {
        Metric::Language => "language"@,
        Metric::Files => "files"@,
        Metric::Lines => "lines"@,
        Metric::Words => "words"@,
        Metric::Chars => "chars"@,
        Metric::Bytes => "bytes"@,
    }
}

/// The output format selector.
#[derive(Debug, Clone, Copy, PartialEq, Eq, Structural)]
pub enum Format {
    Table,
    Plain,
    JSON,
    TSV,
    CSV,
}

/// The format named by a string, if any; names are matched exactly.
pub open spec fn parse_format(s: Seq<char>) -> Option<Format> {
    if s == "table"@ {
        Some(Format::Table)
    } else if s == "plain"@ {
        Some(Format::Plain)
    } else if s == "json"@ {
        Some(Format::JSON)
    } else if s == "tsv"@ {
        Some(Format::TSV)
    } else if s == "csv"@ {
        Some(Format::CSV)
    } else {
        None
    }
}

impl Format {
    /// Parse a [`Format`] from its exact name.
    pub fn parse(s: &str) -> (r: Option<Format>)
        ensures
            r == parse_format(s@),
    {
        if str_eq(s, "table") {
            Some(Format::Table)
        } else if str_eq(s, "plain") {
            Some(Format::Plain)
        } else if str_eq(s, "json") {
            Some(Format::JSON)
        } else if str_eq(s, "tsv") {
            Some(Format::TSV)
        } else if str_eq(s, "csv") {
            Some(Format::CSV)
        } else {
            None
        }
    }
}

/// The full rendering configuration.
#[derive(Debug)]
pub struct Config {
    /// Show the path (or, when grouped, the file-count) column
    pub files: bool,
    /// Show the language column
    pub language: bool,
    /// Show the line-count column
    pub lines: bool,
    /// Show the word-count column
    pub words: bool,
    /// Show the char-count column
    pub chars: bool,
    /// Show the byte-count column
    pub bytes: bool,
    /// Group the records by language before rendering
    pub group_by_language: bool,
    /// The metric records are sorted by
    pub sort_by: Metric,
    /// The direction records are sorted in
    pub sort_order: SortOrder,
    /// Show the visualization bar column
    pub graph: bool,
    /// The metric the visualization bar is proportional to
    pub graph_by: Metric,
    /// The glyph for the filled part of the bar
    pub graph_fill: String,
    /// The glyph for the blank part of the bar
    pub graph_blank: String,
    /// The total width of the bar, in glyphs
    pub graph_size: usize,
    /// Render the header row
    pub header: bool,
    /// Render the footer row
    pub footer: bool,
    /// Pad cells to aligned columns
    pub alignment: bool,
    /// Wrap language and bar cells in ANSI color sequences
    pub use_colors: bool,
    /// The output format
    pub format: Format,
}

impl Default for Config {
    /// Every column enabled, grouped off, sorted by bytes descending, a
    /// twenty-glyph bar, colored table output.
    fn default() -> (r: Config)
        ensures
            r.files && r.language && r.lines && r.words && r.chars && r.bytes,
            !r.group_by_language,
            r.sort_by == Metric::Bytes,
            r.sort_order == SortOrder::Descending,
            r.graph,
            r.graph_by == Metric::Bytes,
            r.graph_fill@ == "\u{25ac}"@,
            r.graph_blank@ == " "@,
            r.graph_size == 20,
            r.header && r.footer && r.alignment && r.use_colors,
            r.format == Format::Table,
    {
        Config {
            files: true,
            language: true,
            lines: true,
            words: true,
            chars: true,
            bytes: true,
            group_by_language: false,
            sort_by: Metric::Bytes,
            sort_order: SortOrder::Descending,
            graph: true,
            graph_by: Metric::Bytes,
            graph_fill: "\u{25ac}".to_owned(),
            graph_blank: " ".to_owned(),
            graph_size: 20,
            header: true,
            footer: true,
            alignment: true,
            use_colors: true,
            format: Format::Table,
        }
    }
}

/// The configuration the plain format renders with: the same column
/// selection, but header, footer, bar, colors and padding forced off — a
/// script-friendly unpadded subset.
pub open spec fn plain_config(c: Config) -> Config {
    Config {
        files: c.files,
        language: c.language,
        lines: c.lines,
        words: c.words,
        chars: c.chars,
        bytes: c.bytes,
        group_by_language: c.group_by_language,
        sort_by: c.sort_by,
        sort_order: c.sort_order,
        graph: false,
        graph_by: c.graph_by,
        graph_fill: c.graph_fill,
        graph_blank: c.graph_blank,
        graph_size: c.graph_size,
        header: false,
        footer: false,
        alignment: false,
        use_colors: false,
        format: c.format,
    }
}

/// The full output of the pipeline for a well-formed result set: records
/// grouped when requested, sorted by the configured metric and direction,
/// then rendered in the selected format.
pub open spec fn display_spec(files: Seq<Rec>, c: Config) -> Seq<char> {
    let fs0 = if c.group_by_language {
        grouped_recs(files)
    } else {
        files
    };
    let fs = sort_spec(fs0, c.sort_by, c.sort_order);
    let t2 = totals_of(fs0);
    let m2 = max_of(fs0);
    match c.format {
        Format::Table => table_format_spec(fs, t2, m2, c),
        Format::Plain => delim_format_spec(fs, t2, plain_config(c), "\t"@),
        Format::JSON => json_results(fs, t2, m2),
        Format::TSV => delim_format_spec(fs, t2, c, "\t"@),
        Format::CSV => delim_format_spec(fs, t2, c, ","@),
    }
}

/// Formats the [`ScanResults`] based on the [`Config`] and returns the
/// output: grouping, sorting and the selected formatter applied in order.
pub fn display(results: ScanResults, config: Config) -> (r: String)
    requires
        results.wf(),
        config.group_by_language ==> count_sum(recs(results.files@)) <= usize::MAX,
    ensures
        r@ == display_spec(recs(results.files@), config),
{
    let ghost files0 = recs(results.files@);
    let ghost c0 = config;
    let mut config = config;
    let mut results = if config.group_by_language {
        results.group_by_language()
    } else {
        results
    };
    results.sort_by(config.sort_by, &config.sort_order);
    match config.format {
        Format::Table => TableFormatter::default().render(&results, &config),
        Format::Plain => {
            config.header = false;
            config.footer = false;
            config.graph = false;
            config.use_colors = false;
            config.alignment = false;
            proof {
                assert(config == plain_config(c0));
            }
            DelimiterFormatter::with("\t").render(&results, &config)
        },
        Format::JSON => JSONFormatter::default().render(&results),
        Format::TSV => DelimiterFormatter::with("\t").render(&results, &config),
        Format::CSV => DelimiterFormatter::with(",").render(&results, &config),
    }
}

} // verus!
