//! The delimited formatter: the same column selection as the table, cells
//! joined by a fixed delimiter with no width padding — machine-friendly CSV
//! or TSV output.

use vstd::prelude::*;

use crate::helpers::path;
use crate::helpers::path::display_path;
use crate::language::name_of;
use crate::scanner::accumulators::TotalsModel;
use crate::scanner::file::{recs, Rec};
use crate::scanner::{File, ScanResults};
use crate::text::{dec_rep, join_strs, join_with, usize_to_string, u64_to_string, views};

use super::table::footer_cols;
use super::{Config, Formatter};

verus! {

/// The selected cells of one record's delimited row: the plain language
/// name, the path or count, and the four counters; no bar and no color.
pub open spec fn delim_row_cols(rec: Rec, c: Config) -> Seq<Seq<char>> {
    let c1: Seq<Seq<char>> = if c.language {
        seq![name_of(rec.language)]
    } else {
        Seq::empty()
    };
    let c2: Seq<Seq<char>> = if c.files {
        seq![
            if c.group_by_language {
                dec_rep(rec.count)
            } else {
                display_path(rec.path)
            },
        ]
    } else {
        Seq::empty()
    };
    let c3: Seq<Seq<char>> = if c.lines {
        seq![dec_rep(rec.lines)]
    } else {
        Seq::empty()
    };
    let c4: Seq<Seq<char>> = if c.words {
        seq![dec_rep(rec.words)]
    } else {
        Seq::empty()
    };
    let c5: Seq<Seq<char>> = if c.chars {
        seq![dec_rep(rec.chars)]
    } else {
        Seq::empty()
    };
    let c6: Seq<Seq<char>> = if c.bytes {
        seq![dec_rep(rec.bytes)]
    } else {
        Seq::empty()
    };
    c1 + c2 + c3 + c4 + c5 + c6
}

/// The selected header cells of the delimited output.
pub open spec fn delim_header_cols(c: Config) -> Seq<Seq<char>> {
    let c1: Seq<Seq<char>> = if c.language {
        seq!["Language"@]
    } else {
        Seq::empty()
    };
    let c2: Seq<Seq<char>> = if c.files {
        seq![
            if c.group_by_language {
                "Files"@
            } else {
                "Path"@
            },
        ]
    } else {
        Seq::empty()
    };
    let c3: Seq<Seq<char>> = if c.lines {
        seq!["Lines"@]
    } else {
        Seq::empty()
    };
    let c4: Seq<Seq<char>> = if c.words {
        seq!["Words"@]
    } else {
        Seq::empty()
    };
    let c5: Seq<Seq<char>> = if c.chars {
        seq!["Chars"@]
    } else {
        Seq::empty()
    };
    let c6: Seq<Seq<char>> = if c.bytes {
        seq!["Bytes"@]
    } else {
        Seq::empty()
    };
    c1 + c2 + c3 + c4 + c5 + c6
}

/// One record's delimited row with a trailing newline.
pub open spec fn delim_row_text(rec: Rec, c: Config, d: Seq<char>) -> Seq<char> {
    join_with(delim_row_cols(rec, c), d) + "\n"@
}

/// All records' delimited rows concatenated.
pub open spec fn delim_rows(files: Seq<Rec>, c: Config, d: Seq<char>) -> Seq<char>
    decreases files.len(),
{
    if files.len() == 0 {
        Seq::empty()
    } else {
        delim_rows(files.drop_last(), c, d) + delim_row_text(files.last(), c, d)
    }
}

/// The full delimited output: an optional header line, the record rows, and
/// an optional footer line of totals without a trailing newline.
pub open spec fn delim_format_spec(
    files: Seq<Rec>,
    tot: TotalsModel,
    c: Config,
    d: Seq<char>,
) -> Seq<char> {
    let head: Seq<char> = if c.header {
        join_with(delim_header_cols(c), d) + "\n"@
    } else {
        Seq::empty()
    };
    let foot: Seq<char> = if c.footer {
        join_with(footer_cols(tot, c), d)
    } else {
        Seq::empty()
    };
    head + delim_rows(files, c, d) + foot
}

#[derive(Debug)]
pub struct DelimiterFormatter {
    /// The string placed between cells
    pub delimiter: String,
}

impl DelimiterFormatter {
    /// A formatter joining cells with the given delimiter.
    pub fn with(delimiter: &str) -> (r: DelimiterFormatter)
        ensures
            r.delimiter@ == delimiter@,
    {
        DelimiterFormatter { delimiter: delimiter.to_owned() }
    }

    /// The selected header cells joined by the delimiter.
    #[verifier::rlimit(100)]
    #[verifier::spinoff_prover]
    pub fn build_header(&self, config: &Config) -> (r: String)
        ensures
            r@ == join_with(delim_header_cols(*config), self.delimiter@) + "\n"@,
    {
        let ghost c = *config;
        let ghost e1: Seq<Seq<char>> = if c.language {
            seq!["Language"@]
        } else {
            Seq::empty()
        };
        let ghost e2: Seq<Seq<char>> = if c.files {
            seq![
                if c.group_by_language {
                    "Files"@
                } else {
                    "Path"@
                },
            ]
        } else {
            Seq::empty()
        };
        let ghost e3: Seq<Seq<char>> = if c.lines {
            seq!["Lines"@]
        } else {
            Seq::empty()
        };
        let ghost e4: Seq<Seq<char>> = if c.words {
            seq!["Words"@]
        } else {
            Seq::empty()
        };
        let ghost e5: Seq<Seq<char>> = if c.chars {
            seq!["Chars"@]
        } else {
            Seq::empty()
        };
        let ghost e6: Seq<Seq<char>> = if c.bytes {
            seq!["Bytes"@]
        } else {
            Seq::empty()
        };
        let mut cols: Vec<String> = Vec::new();
        if config.language {
            cols.push("Language".to_owned());
        }
        proof {
            assert(views(cols@) =~= e1);
        }
        if config.files {
            if config.group_by_language {
                cols.push("Files".to_owned());
            } else {
                cols.push("Path".to_owned());
            }
        }
        proof {
            assert(views(cols@) =~= e1 + e2);
        }
        if config.lines {
            cols.push("Lines".to_owned());
        }
        proof {
            assert(views(cols@) =~= e1 + e2 + e3);
        }
        if config.words {
            cols.push("Words".to_owned());
        }
        proof {
            assert(views(cols@) =~= e1 + e2 + e3 + e4);
        }
        if config.chars {
            cols.push("Chars".to_owned());
        }
        proof {
            assert(views(cols@) =~= e1 + e2 + e3 + e4 + e5);
        }
        if config.bytes {
            cols.push("Bytes".to_owned());
        }
        proof {
            assert(views(cols@) =~= e1 + e2 + e3 + e4 + e5 + e6);
            assert(views(cols@) =~= delim_header_cols(c));
        }
        let mut r = join_strs(&cols, self.delimiter.as_str());
        r.append("\n");
        r
    }

    /// One record's delimited row.
    #[verifier::rlimit(100)]
    #[verifier::spinoff_prover]
    pub fn build_row(&self, file: &File, config: &Config) -> (r: String)
        ensures
            r@ == delim_row_text(file@, *config, self.delimiter@),
    {
        let ghost c = *config;
        let ghost rec = file@;
        let ghost e1: Seq<Seq<char>> = if c.language {
            seq![name_of(rec.language)]
        } else {
            Seq::empty()
        };
        let ghost e2: Seq<Seq<char>> = if c.files {
            seq![
                if c.group_by_language {
                    dec_rep(rec.count)
                } else {
                    display_path(rec.path)
                },
            ]
        } else {
            Seq::empty()
        };
        let ghost e3: Seq<Seq<char>> = if c.lines {
            seq![dec_rep(rec.lines)]
        } else {
            Seq::empty()
        };
        let ghost e4: Seq<Seq<char>> = if c.words {
            seq![dec_rep(rec.words)]
        } else {
            Seq::empty()
        };
        let ghost e5: Seq<Seq<char>> = if c.chars {
            seq![dec_rep(rec.chars)]
        } else {
            Seq::empty()
        };
        let ghost e6: Seq<Seq<char>> = if c.bytes {
            seq![dec_rep(rec.bytes)]
        } else {
            Seq::empty()
        };
        let mut cols: Vec<String> = Vec::new();
        if config.language {
            cols.push(file.language.name());
        }
        proof {
            assert(views(cols@) =~= e1);
        }
        if config.files {
            let cell = if config.group_by_language {
                usize_to_string(file.count)
            } else {
                path::display(file.path.as_str())
            };
            cols.push(cell);
        }
        proof {
            assert(views(cols@) =~= e1 + e2);
        }
        if config.lines {
            cols.push(usize_to_string(file.lines));
        }
        proof {
            assert(views(cols@) =~= e1 + e2 + e3);
        }
        if config.words {
            cols.push(usize_to_string(file.words));
        }
        proof {
            assert(views(cols@) =~= e1 + e2 + e3 + e4);
        }
        if config.chars {
            cols.push(usize_to_string(file.chars));
        }
        proof {
            assert(views(cols@) =~= e1 + e2 + e3 + e4 + e5);
        }
        if config.bytes {
            cols.push(u64_to_string(file.bytes));
        }
        proof {
            assert(views(cols@) =~= e1 + e2 + e3 + e4 + e5 + e6);
            assert(views(cols@) =~= delim_row_cols(rec, c));
        }
        let mut r = join_strs(&cols, self.delimiter.as_str());
        r.append("\n");
        r
    }

    /// The footer line of totals, without a trailing newline.
    #[verifier::rlimit(100)]
    #[verifier::spinoff_prover]
    pub fn build_footer(&self, results: &ScanResults, config: &Config) -> (r: String)
        ensures
            r@ == join_with(footer_cols(results.total@, *config), self.delimiter@),
    {
        let cols = super::table::TableFormatter::default().build_footer(results, config);
        join_strs(&cols, self.delimiter.as_str())
    }

    /// Emit the result set as delimited text: the contract pins the exact
    /// text produced for every record list and configuration.
    pub fn render(&self, results: &ScanResults, config: &Config) -> (r: String)
        ensures
            r@ == delim_format_spec(
                recs(results.files@),
                results.total@,
                *config,
                self.delimiter@,
            ),
    {
        let ghost frecs = recs(results.files@);
        let mut res = String::new();
        if config.header {
            let head = self.build_header(config);
            res.append(head.as_str());
        }
        let ghost head_part = res@;
        let n = results.files.len();
        let mut i: usize = 0;
        proof {
            assert(res@ =~= head_part + delim_rows(frecs.take(0), *config, self.delimiter@));
        }
        while i < n
            invariant
                n == results.files@.len(),
                frecs == recs(results.files@),
                0 <= i <= n,
                res@ == head_part + delim_rows(frecs.take(i as int), *config, self.delimiter@),
            decreases n - i,
        {
            let row = self.build_row(&results.files[i], config);
            res.append(row.as_str());
            proof {
                assert(frecs.take(i + 1).drop_last() =~= frecs.take(i as int));
                assert(frecs.take(i + 1).last() == frecs[i as int]);
                assert(frecs[i as int] == results.files@[i as int]@);
                assert(res@ =~= head_part + delim_rows(frecs.take(i + 1), *config,
                    self.delimiter@));
            }
            i = i + 1;
        }
        proof {
            assert(frecs.take(n as int) =~= frecs);
        }
        if config.footer {
            let foot = self.build_footer(results, config);
            res.append(foot.as_str());
        }
        proof {
            assert(res@ =~= delim_format_spec(frecs, results.total@, *config, self.delimiter@));
        }
        res
    }
}

impl Formatter for DelimiterFormatter {
    open spec fn format_spec(&self, results: &ScanResults, config: &Config) -> Seq<char> {
        delim_format_spec(recs(results.files@), results.total@, *config, self.delimiter@)
    }

    fn format(&self, results: &ScanResults, config: &Config) -> (r: String) {
        self.render(results, config)
    }
}

} // verus!
