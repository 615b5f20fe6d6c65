//! The tabular formatter: one row per record with the selected columns, laid
//! out on the table engine with aligned, padded cells, an optional
//! visualization bar, and 24-bit color by classification.

use vstd::prelude::*;

use crate::helpers::path;
use crate::helpers::path::display_path;
use crate::helpers::table::columns::calc_widths;
use crate::helpers::table::{render_of, Alignment, Table};
use crate::language::{color_of, name_of, LangTag, Language};
use crate::scanner::accumulators::{MaxModel, TotalsModel};
use crate::scanner::file::{recs, Rec};
use crate::scanner::sort::{key_of, metric_key};
use crate::scanner::{File, Max, ScanResults};
use crate::text::{dec_rep, join_strs, join_with, repeat_seq, repeat_str, u64_to_string,
    usize_to_string, views, views2};

use super::{Config, Formatter, Metric};

verus! {

/// Text wrapped in the 24-bit foreground color sequence of a classification.
pub open spec fn colorize(t: LangTag, text: Seq<char>) -> Seq<char> {
    "\u{1b}[38;2;"@ + dec_rep(color_of(t).0 as nat) + ";"@ + dec_rep(color_of(t).1 as nat) + ";"@
        + dec_rep(color_of(t).2 as nat) + "m"@ + text + "\u{1b}[0m"@
}

/// A helper function to color a string according to the language's color.
pub fn color(language: &Language, text: &str) -> (r: String)
    ensures
        r@ == colorize(language@, text@),
{
    let (cr, cg, cb) = language.color();
    let mut s = "\u{1b}[38;2;".to_owned();
    s.append(u64_to_string(cr as u64).as_str());
    s.append(";");
    s.append(u64_to_string(cg as u64).as_str());
    s.append(";");
    s.append(u64_to_string(cb as u64).as_str());
    s.append("m");
    s.append(text);
    s.append("\u{1b}[0m");
    proof {
        assert(s@ =~= colorize(language@, text@));
    }
    s
}

/// The field of a maxima value selected by a metric; an unrecognized metric
/// falls back to the byte count.
pub open spec fn max_value(mx: MaxModel, m: Metric) -> nat {
    match m {
        Metric::Lines => mx.lines,
        Metric::Words => mx.words,
        Metric::Chars => mx.chars,
        _ => mx.bytes,
    }
}

/// Runtime selection of a maxima field.
pub fn max_key(mx: &Max, m: Metric) -> (r: u64)
    ensures
        r as nat == max_value(mx@, m),
{
    match m {
        Metric::Lines => mx.lines as u64,
        Metric::Words => mx.words as u64,
        Metric::Chars => mx.chars as u64,
        _ => mx.bytes,
    }
}

/// The number of filled glyphs in a visualization bar: the value's share of
/// the maximum, scaled to the bar size and rounded to the nearest glyph
/// (ties away from zero), clamped into the bar. A zero maximum fills
/// nothing.
pub open spec fn bar_fill_count(v: nat, m: nat, size: nat) -> nat {
    if m == 0 {
        0
    } else if v >= m {
        size
    } else {
        let q = (v * size) / m;
        let up: nat = if 2 * ((v * size) % m) >= m {
            1
        } else {
            0
        };
        if q + up > size {
            size
        } else {
            q + up
        }
    }
}

/// The visualization bar of a record: filled glyphs for its share of the
/// maximum, blank glyphs for the rest, colored by classification when colors
/// are on.
pub open spec fn bar_text(r: Rec, mx: MaxModel, c: Config) -> Seq<char> {
    let v = key_of(r, c.graph_by);
    let m = max_value(mx, c.graph_by);
    let k = bar_fill_count(v, m, c.graph_size as nat);
    let bar = repeat_seq(c.graph_fill@, k) + repeat_seq(
        c.graph_blank@,
        (c.graph_size - k) as nat,
    );
    if c.use_colors {
        colorize(r.language, bar)
    } else {
        bar
    }
}

/// The selected cells of one record's table row, in catalogue order:
/// language, path or count, the four counters, then the bar.
pub open spec fn row_cols(rec: Rec, mx: MaxModel, c: Config) -> Seq<Seq<char>> {
    let c1: Seq<Seq<char>> = if c.language {
        seq![
            if c.use_colors {
                colorize(rec.language, name_of(rec.language))
            } else {
                name_of(rec.language)
            },
        ]
    } else {
        Seq::empty()
    };
    let c2: Seq<Seq<char>> = if c.files {
        seq![
            if c.group_by_language {
                dec_rep(rec.count)
            } else {
                display_path(rec.path)
            },
        ]
    } else {
        Seq::empty()
    };
    let c3: Seq<Seq<char>> = if c.lines {
        seq![dec_rep(rec.lines)]
    } else {
        Seq::empty()
    };
    let c4: Seq<Seq<char>> = if c.words {
        seq![dec_rep(rec.words)]
    } else {
        Seq::empty()
    };
    let c5: Seq<Seq<char>> = if c.chars {
        seq![dec_rep(rec.chars)]
    } else {
        Seq::empty()
    };
    let c6: Seq<Seq<char>> = if c.bytes {
        seq![dec_rep(rec.bytes)]
    } else {
        Seq::empty()
    };
    let c7: Seq<Seq<char>> = if c.graph {
        seq![bar_text(rec, mx, c)]
    } else {
        Seq::empty()
    };
    c1 + c2 + c3 + c4 + c5 + c6 + c7
}

/// One record's row as tab-joined text with a trailing newline.
pub open spec fn row_text(rec: Rec, mx: MaxModel, c: Config) -> Seq<char> {
    join_with(row_cols(rec, mx, c), "\t"@) + "\n"@
}

/// All records' rows concatenated.
pub open spec fn rows_blob(files: Seq<Rec>, mx: MaxModel, c: Config) -> Seq<char>
    decreases files.len(),
{
    if files.len() == 0 {
        Seq::empty()
    } else {
        rows_blob(files.drop_last(), mx, c) + row_text(files.last(), mx, c)
    }
}

/// The selected header cells, `Files` replacing `Path` when grouped.
pub open spec fn header_cols(c: Config) -> Seq<Seq<char>> {
    let c1: Seq<Seq<char>> = if c.language {
        seq!["Language"@]
    } else {
        Seq::empty()
    };
    let c2: Seq<Seq<char>> = if c.files {
        seq![
            if c.group_by_language {
                "Files"@
            } else {
                "Path"@
            },
        ]
    } else {
        Seq::empty()
    };
    let c3: Seq<Seq<char>> = if c.lines {
        seq!["Lines"@]
    } else {
        Seq::empty()
    };
    let c4: Seq<Seq<char>> = if c.words {
        seq!["Words"@]
    } else {
        Seq::empty()
    };
    let c5: Seq<Seq<char>> = if c.chars {
        seq!["Chars"@]
    } else {
        Seq::empty()
    };
    let c6: Seq<Seq<char>> = if c.bytes {
        seq!["Bytes"@]
    } else {
        Seq::empty()
    };
    let c7: Seq<Seq<char>> = if c.graph {
        seq!["Graph"@]
    } else {
        Seq::empty()
    };
    c1 + c2 + c3 + c4 + c5 + c6 + c7
}

/// The selected footer cells: the label and the five totals; the bar column
/// gets no footer cell.
pub open spec fn footer_cols(t: TotalsModel, c: Config) -> Seq<Seq<char>> {
    let c1: Seq<Seq<char>> = if c.language {
        seq!["Total"@]
    } else {
        Seq::empty()
    };
    let c2: Seq<Seq<char>> = if c.files {
        seq![dec_rep(t.files)]
    } else {
        Seq::empty()
    };
    let c3: Seq<Seq<char>> = if c.lines {
        seq![dec_rep(t.lines)]
    } else {
        Seq::empty()
    };
    let c4: Seq<Seq<char>> = if c.words {
        seq![dec_rep(t.words)]
    } else {
        Seq::empty()
    };
    let c5: Seq<Seq<char>> = if c.chars {
        seq![dec_rep(t.chars)]
    } else {
        Seq::empty()
    };
    let c6: Seq<Seq<char>> = if c.bytes {
        seq![dec_rep(t.bytes)]
    } else {
        Seq::empty()
    };
    c1 + c2 + c3 + c4 + c5 + c6
}

/// The selected column alignments: numbers right, paths left, counts right,
/// the bar left.
pub open spec fn align_cols(c: Config) -> Seq<Alignment> {
    let c1: Seq<Alignment> = if c.language {
        seq![Alignment::Right]
    } else {
        Seq::empty()
    };
    let c2: Seq<Alignment> = if c.files {
        seq![
            if c.group_by_language {
                Alignment::Right
            } else {
                Alignment::Left
            },
        ]
    } else {
        Seq::empty()
    };
    let c3: Seq<Alignment> = if c.lines {
        seq![Alignment::Right]
    } else {
        Seq::empty()
    };
    let c4: Seq<Alignment> = if c.words {
        seq![Alignment::Right]
    } else {
        Seq::empty()
    };
    let c5: Seq<Alignment> = if c.chars {
        seq![Alignment::Right]
    } else {
        Seq::empty()
    };
    let c6: Seq<Alignment> = if c.bytes {
        seq![Alignment::Right]
    } else {
        Seq::empty()
    };
    let c7: Seq<Alignment> = if c.graph {
        seq![Alignment::Left]
    } else {
        Seq::empty()
    };
    c1 + c2 + c3 + c4 + c5 + c6 + c7
}

/// Widths narrowed back to machine words; every recalculated width is the
/// visible width of some cell, so the narrowing never truncates.
pub open spec fn to_widths(s: Seq<nat>) -> Seq<usize> {
    s.map_values(|n: nat| n as usize)
}

/// The rows the table's layout pass walks over for this formatter.
pub open spec fn tf_layout(
    header: Seq<Seq<char>>,
    parsed: Seq<Seq<Seq<char>>>,
    footer: Seq<Seq<char>>,
) -> Seq<Seq<Seq<char>>> {
    (if header.len() > 0 {
        seq![header]
    } else {
        Seq::<Seq<Seq<char>>>::empty()
    }) + parsed + (if footer.len() > 0 {
        seq![footer]
    } else {
        Seq::<Seq<Seq<char>>>::empty()
    })
}

/// The full output of the tabular formatter: the record rows parsed back
/// into a grid, header, footer and alignments applied as configured, widths
/// computed over the grid, and everything rendered with the default
/// separators.
pub open spec fn table_format_spec(
    files: Seq<Rec>,
    tot: TotalsModel,
    mx: MaxModel,
    c: Config,
) -> Seq<char> {
    let blob = rows_blob(files, mx, c);
    let parsed = crate::helpers::table::builder::built_rows(blob, '\t', false, false);
    let header: Seq<Seq<char>> = if c.header {
        header_cols(c)
    } else {
        Seq::empty()
    };
    let footer: Seq<Seq<char>> = if c.footer {
        footer_cols(tot, c)
    } else {
        Seq::empty()
    };
    let aligns: Seq<Alignment> = if c.alignment {
        align_cols(c)
    } else {
        Seq::empty()
    };
    let widths = to_widths(calc_widths(Seq::empty(), tf_layout(header, parsed, footer)));
    render_of(header, parsed, footer, "    "@, "-"@, aligns, widths)
}

#[derive(Debug)]
pub struct TableFormatter {}

impl Default for TableFormatter {
    /// The formatter is stateless.
    fn default() -> (r: TableFormatter) {
        TableFormatter {  }
    }
}

impl Formatter for TableFormatter {
    open spec fn format_spec(&self, results: &ScanResults, config: &Config) -> Seq<char> {
        table_format_spec(recs(results.files@), results.total@, results.max@, *config)
    }

    fn format(&self, results: &ScanResults, config: &Config) -> (r: String) {
        self.render(results, config)
    }
}

impl TableFormatter {
    /// Lay the result set out as a table: the contract pins the exact text
    /// produced for every record list and configuration.
    #[verifier::rlimit(80)]
    pub fn render(&self, results: &ScanResults, config: &Config) -> (r: String)
        ensures
            r@ == table_format_spec(recs(results.files@), results.total@, results.max@, *config),
    {
        let ghost frecs = recs(results.files@);
        let mut res = String::new();
        let n = results.files.len();
        let mut i: usize = 0;
        proof {
            assert(res@ =~= rows_blob(frecs.take(0), results.max@, *config));
        }
        while i < n
            invariant
                n == results.files@.len(),
                frecs == recs(results.files@),
                0 <= i <= n,
                res@ == rows_blob(frecs.take(i as int), results.max@, *config),
            decreases n - i,
        {
            let row = self.build_row(&results.files[i], results, config);
            res.append(row.as_str());
            proof {
                assert(frecs.take(i + 1).drop_last() =~= frecs.take(i as int));
                assert(frecs.take(i + 1).last() == frecs[i as int]);
                assert(frecs[i as int] == results.files@[i as int]@);
            }
            i = i + 1;
        }
        proof {
            assert(frecs.take(n as int) =~= frecs);
        }
        let mut table = Table::from_tsv(res.as_str());
        if config.header {
            let header = self.build_header(config);
            table.with_header(header);
        }
        if config.footer {
            let footer = self.build_footer(results, config);
            table.with_footer(footer);
        }
        if config.alignment {
            let alignments = self.build_alignments(config);
            table.with_alignments(alignments);
        }
        let ghost tpre = table;
        let out = table.display();
        proof {
            let blob = rows_blob(frecs, results.max@, *config);
            let parsed = crate::helpers::table::builder::built_rows(blob, '\t', false, false);
            let header: Seq<Seq<char>> = if config.header {
                header_cols(*config)
            } else {
                Seq::empty()
            };
            let footer: Seq<Seq<char>> = if config.footer {
                footer_cols(results.total@, *config)
            } else {
                Seq::empty()
            };
            let aligns: Seq<Alignment> = if config.alignment {
                align_cols(*config)
            } else {
                Seq::empty()
            };
            assert(views(tpre.header@) == header);
            assert(views2(tpre.rows@) == parsed);
            assert(views(tpre.footer@) == footer);
            assert(tpre.alignments@ == aligns);
            assert(crate::helpers::table::layout_rows(tpre) =~= tf_layout(header, parsed, footer));
            assert(table.columns.widths@.map_values(|w: usize| w as nat) =~= calc_widths(
                Seq::empty(),
                tf_layout(header, parsed, footer),
            )) by {
                assert(tpre.columns.widths@ =~= Seq::<usize>::empty());
            }
            assert(table.columns.widths@ =~= to_widths(
                calc_widths(Seq::empty(), tf_layout(header, parsed, footer)),
            ));
            assert(out@ == render_of(header, parsed, footer, "    "@, "-"@, aligns,
                table.columns.widths@));
        }
        out
    }

    /// The selected header cells for the configuration.
    #[verifier::rlimit(100)]
    #[verifier::spinoff_prover]
    pub fn build_header(&self, config: &Config) -> (r: Vec<String>)
        ensures
            views(r@) == header_cols(*config),
    {
        let ghost c = *config;
        let ghost e1: Seq<Seq<char>> = if c.language { seq!["Language"@] } else { Seq::empty() };
        let ghost e2: Seq<Seq<char>> = if c.files {
            seq![if c.group_by_language { "Files"@ } else { "Path"@ }]
        } else { Seq::empty() };
        let ghost e3: Seq<Seq<char>> = if c.lines { seq!["Lines"@] } else { Seq::empty() };
        let ghost e4: Seq<Seq<char>> = if c.words { seq!["Words"@] } else { Seq::empty() };
        let ghost e5: Seq<Seq<char>> = if c.chars { seq!["Chars"@] } else { Seq::empty() };
        let ghost e6: Seq<Seq<char>> = if c.bytes { seq!["Bytes"@] } else { Seq::empty() };
        let ghost e7: Seq<Seq<char>> = if c.graph { seq!["Graph"@] } else { Seq::empty() };
        let mut cols: Vec<String> = Vec::new();
        if config.language {
            cols.push("Language".to_owned());
        }
        proof { assert(views(cols@) =~= e1); }
        if config.files {
            if config.group_by_language {
                cols.push("Files".to_owned());
            } else {
                cols.push("Path".to_owned());
            }
        }
        proof { assert(views(cols@) =~= e1 + e2); }
        if config.lines {
            cols.push("Lines".to_owned());
        }
        proof { assert(views(cols@) =~= e1 + e2 + e3); }
        if config.words {
            cols.push("Words".to_owned());
        }
        proof { assert(views(cols@) =~= e1 + e2 + e3 + e4); }
        if config.chars {
            cols.push("Chars".to_owned());
        }
        proof { assert(views(cols@) =~= e1 + e2 + e3 + e4 + e5); }
        if config.bytes {
            cols.push("Bytes".to_owned());
        }
        proof { assert(views(cols@) =~= e1 + e2 + e3 + e4 + e5 + e6); }
        if config.graph {
            cols.push("Graph".to_owned());
        }
        proof {
            assert(views(cols@) =~= e1 + e2 + e3 + e4 + e5 + e6 + e7);
            assert(views(cols@) =~= header_cols(c));
        }
        cols
    }

    /// One record's tab-joined row.
    #[verifier::rlimit(100)]
    #[verifier::spinoff_prover]
    pub fn build_row(&self, file: &File, results: &ScanResults, config: &Config) -> (r: String)
        ensures
            r@ == row_text(file@, results.max@, *config),
    {
        let ghost c = *config;
        let ghost rec = file@;
        let ghost mx = results.max@;
        let ghost e1: Seq<Seq<char>> = if c.language {
            seq![if c.use_colors { colorize(rec.language, name_of(rec.language)) } else { name_of(rec.language) }]
        } else { Seq::empty() };
        let ghost e2: Seq<Seq<char>> = if c.files {
            seq![if c.group_by_language { dec_rep(rec.count) } else { display_path(rec.path) }]
        } else { Seq::empty() };
        let ghost e3: Seq<Seq<char>> = if c.lines { seq![dec_rep(rec.lines)] } else { Seq::empty() };
        let ghost e4: Seq<Seq<char>> = if c.words { seq![dec_rep(rec.words)] } else { Seq::empty() };
        let ghost e5: Seq<Seq<char>> = if c.chars { seq![dec_rep(rec.chars)] } else { Seq::empty() };
        let ghost e6: Seq<Seq<char>> = if c.bytes { seq![dec_rep(rec.bytes)] } else { Seq::empty() };
        let ghost e7: Seq<Seq<char>> = if c.graph { seq![bar_text(rec, mx, c)] } else { Seq::empty() };
        let mut cols: Vec<String> = Vec::new();
        if config.language {
            let nm = file.language.name();
            let lang = if config.use_colors {
                color(&file.language, nm.as_str())
            } else {
                nm
            };
            cols.push(lang);
        }
        proof { assert(views(cols@) =~= e1); }
        if config.files {
            let cell = if config.group_by_language {
                usize_to_string(file.count)
            } else {
                path::display(file.path.as_str())
            };
            cols.push(cell);
        }
        proof { assert(views(cols@) =~= e1 + e2); }
        if config.lines {
            cols.push(usize_to_string(file.lines));
        }
        proof { assert(views(cols@) =~= e1 + e2 + e3); }
        if config.words {
            cols.push(usize_to_string(file.words));
        }
        proof { assert(views(cols@) =~= e1 + e2 + e3 + e4); }
        if config.chars {
            cols.push(usize_to_string(file.chars));
        }
        proof { assert(views(cols@) =~= e1 + e2 + e3 + e4 + e5); }
        if config.bytes {
            cols.push(u64_to_string(file.bytes));
        }
        proof { assert(views(cols@) =~= e1 + e2 + e3 + e4 + e5 + e6); }
        if config.graph {
            let bar = self.build_visualization(file, results, config);
            cols.push(bar);
        }
        proof {
            assert(views(cols@) =~= e1 + e2 + e3 + e4 + e5 + e6 + e7);
            assert(views(cols@) =~= row_cols(rec, mx, c));
        }
        let mut r = join_strs(&cols, "\t");
        r.append("\n");
        proof {
            assert(r@ =~= row_text(rec, mx, c));
        }
        r
    }

    /// The proportional visualization bar for one record.
    #[verifier::rlimit(80)]
    pub fn build_visualization(&self, file: &File, results: &ScanResults, config: &Config) -> (r:
        String)
        ensures
            r@ == bar_text(file@, results.max@, *config),
    {
        let v = metric_key(file, config.graph_by);
        let m = max_key(&results.max, config.graph_by);
        let size = config.graph_size;
        let k: usize = if m == 0 {
            0
        } else if v >= m {
            size
        } else {
            proof {
                assert((v as u128) * (size as u128) < u128::MAX) by (nonlinear_arith)
                    requires
                        v as u128 <= 0xFFFF_FFFF_FFFF_FFFFu128,
                        size as u128 <= 0xFFFF_FFFF_FFFF_FFFFu128,
                ;
            }
            let prod: u128 = (v as u128) * (size as u128);
            let q = prod / (m as u128);
            let rem = prod % (m as u128);
            proof {
                assert(rem < m as u128);
                assert(q <= prod);
            }
            let est: u128 = q + (if 2 * rem >= (m as u128) {
                1
            } else {
                0
            });
            if est > (size as u128) {
                size
            } else {
                est as usize
            }
        };
        proof {
            assert(k as nat == bar_fill_count(
                key_of(file@, config.graph_by),
                max_value(results.max@, config.graph_by),
                size as nat,
            ));
        }
        let fill = repeat_str(config.graph_fill.as_str(), k);
        let blank = repeat_str(config.graph_blank.as_str(), size - k);
        let mut bar = fill;
        bar.append(blank.as_str());
        if config.use_colors {
            color(&file.language, bar.as_str())
        } else {
            bar
        }
    }

    /// The selected footer cells: the label and the totals.
    #[verifier::rlimit(100)]
    pub fn build_footer(&self, results: &ScanResults, config: &Config) -> (r: Vec<String>)
        ensures
            views(r@) == footer_cols(results.total@, *config),
    {
        let ghost c = *config;
        let ghost t = results.total@;
        let ghost e1: Seq<Seq<char>> = if c.language { seq!["Total"@] } else { Seq::empty() };
        let ghost e2: Seq<Seq<char>> = if c.files { seq![dec_rep(t.files)] } else { Seq::empty() };
        let ghost e3: Seq<Seq<char>> = if c.lines { seq![dec_rep(t.lines)] } else { Seq::empty() };
        let ghost e4: Seq<Seq<char>> = if c.words { seq![dec_rep(t.words)] } else { Seq::empty() };
        let ghost e5: Seq<Seq<char>> = if c.chars { seq![dec_rep(t.chars)] } else { Seq::empty() };
        let ghost e6: Seq<Seq<char>> = if c.bytes { seq![dec_rep(t.bytes)] } else { Seq::empty() };
        let mut cols: Vec<String> = Vec::new();
        if config.language {
            cols.push("Total".to_owned());
        }
        proof { assert(views(cols@) =~= e1); }
        if config.files {
            cols.push(usize_to_string(results.total.files));
        }
        proof { assert(views(cols@) =~= e1 + e2); }
        if config.lines {
            cols.push(usize_to_string(results.total.lines));
        }
        proof { assert(views(cols@) =~= e1 + e2 + e3); }
        if config.words {
            cols.push(usize_to_string(results.total.words));
        }
        proof { assert(views(cols@) =~= e1 + e2 + e3 + e4); }
        if config.chars {
            cols.push(usize_to_string(results.total.chars));
        }
        proof { assert(views(cols@) =~= e1 + e2 + e3 + e4 + e5); }
        if config.bytes {
            cols.push(u64_to_string(results.total.bytes));
        }
        proof {
            assert(views(cols@) =~= e1 + e2 + e3 + e4 + e5 + e6);
            assert(views(cols@) =~= footer_cols(t, c));
        }
        cols
    }

    /// The selected column alignments.
    #[verifier::rlimit(100)]
    #[verifier::spinoff_prover]
    pub fn build_alignments(&self, config: &Config) -> (r: Vec<Alignment>)
        ensures
            r@ == align_cols(*config),
    {
        let mut cols: Vec<Alignment> = Vec::new();
        if config.language {
            cols.push(Alignment::Right);
        }
        if config.files {
            if config.group_by_language {
                cols.push(Alignment::Right);
            } else {
                cols.push(Alignment::Left);
            }
        }
        if config.lines {
            cols.push(Alignment::Right);
        }
        if config.words {
            cols.push(Alignment::Right);
        }
        if config.chars {
            cols.push(Alignment::Right);
        }
        if config.bytes {
            cols.push(Alignment::Right);
        }
        if config.graph {
            cols.push(Alignment::Left);
        }
        proof {
            assert(cols@ =~= align_cols(*config));
        }
        cols
    }
}

} // verus!
