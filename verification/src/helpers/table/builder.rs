//! A builder for constructing a [`Table`][super::Table] from raw delimited
//! text: the input is split into lines and cells, cells are trimmed, and the
//! first and last rows can be designated header and footer.

use vstd::prelude::*;

use super::columns::Columns;
use super::separator::Separator;
use super::Table;
use crate::text::{split_char, split_lines, split_lines_exec, split_on, trim, trim_spec, views,
    views2};

verus! {

/// The parsed cells of delimited text: each line split on the delimiter,
/// every cell trimmed.
pub open spec fn parsed_rows(contents: Seq<char>, delimiter: char) -> Seq<Seq<Seq<char>>> {
    split_lines(contents).map_values(
        |line: Seq<char>| split_on(line, delimiter).map_values(|cell: Seq<char>| trim_spec(cell)),
    )
}

/// Where the parsed rows of a build end up: the first row becomes the header
/// when requested and present, the last row the footer when requested.
pub open spec fn built_header(
    contents: Seq<char>,
    delimiter: char,
    has_header: bool,
) -> Seq<Seq<char>> {
    let rows = parsed_rows(contents, delimiter);
    if has_header && rows.len() > 0 {
        rows[0]
    } else {
        Seq::empty()
    }
}

/// The body rows of a build, after header and footer are taken out.
pub open spec fn built_rows(
    contents: Seq<char>,
    delimiter: char,
    has_header: bool,
    has_footer: bool,
) -> Seq<Seq<Seq<char>>> {
    let rows = parsed_rows(contents, delimiter);
    let after_header = if has_header && rows.len() > 0 {
        rows.drop_first()
    } else {
        rows
    };
    if has_footer && after_header.len() > 0 {
        after_header.drop_last()
    } else {
        after_header
    }
}

/// The footer of a build: the last remaining row when requested and present.
pub open spec fn built_footer(
    contents: Seq<char>,
    delimiter: char,
    has_header: bool,
    has_footer: bool,
) -> Seq<Seq<char>> {
    let rows = parsed_rows(contents, delimiter);
    let after_header = if has_header && rows.len() > 0 {
        rows.drop_first()
    } else {
        rows
    };
    if has_footer && after_header.len() > 0 {
        after_header.last()
    } else {
        Seq::empty()
    }
}

/// Whether a table is the result of building the given input: parsed cells
/// distributed over header, rows and footer, default separators, no
/// alignments, and widths pending calculation.
pub open spec fn is_built_table(
    t: Table,
    contents: Seq<char>,
    delimiter: char,
    has_header: bool,
    has_footer: bool,
) -> bool {
    &&& views(t.header@) == built_header(contents, delimiter, has_header)
    &&& views2(t.rows@) == built_rows(contents, delimiter, has_header, has_footer)
    &&& views(t.footer@) == built_footer(contents, delimiter, has_header, has_footer)
    &&& t.separator.horizontal@ == "    "@
    &&& t.separator.vertical@ == "-"@
    &&& t.columns.widths@.len() == 0
    &&& t.columns.needs_recalculation
    &&& t.alignments@.len() == 0
}

/// A builder for constructing [`Table`][super::Table] instances from raw
/// text input.
#[derive(Debug)]
pub struct TableBuilder {
    /// Raw input string containing the table data
    pub contents: String,
    /// Whether the first row is treated as a header
    pub has_header: bool,
    /// Whether the last row is treated as a footer
    pub has_footer: bool,
    /// Delimiter used for splitting columns
    pub delimiter: char,
}

impl Default for TableBuilder {
    /// Empty contents split on tabs, with neither header nor footer.
    fn default() -> (r: TableBuilder)
        ensures
            r.contents@.len() == 0,
            r.delimiter == '\t',
            !r.has_header,
            !r.has_footer,
    {
        TableBuilder {
            contents: String::new(),
            delimiter: '\t',
            has_header: false,
            has_footer: false,
        }
    }
}

impl TableBuilder {
    /// Creates a new [`TableBuilder`] with the given input string and
    /// delimiter.
    pub fn new(input: &str, delimiter: char) -> (r: TableBuilder)
        ensures
            r.contents@ == input@,
            r.delimiter == delimiter,
            !r.has_header,
            !r.has_footer,
    {
        TableBuilder {
            contents: input.to_owned(),
            delimiter,
            has_header: false,
            has_footer: false,
        }
    }

    /// Set the raw contents of the table.
    pub fn from(&mut self, contents: &str)
        ensures
            final(self).contents@ == contents@,
            final(self).delimiter == old(self).delimiter,
            final(self).has_header == old(self).has_header,
            final(self).has_footer == old(self).has_footer,
    {
        self.contents = contents.to_owned();
    }

    /// Sets the delimiter for parsing columns.
    pub fn with_delimiter(&mut self, delimiter: char)
        ensures
            final(self).delimiter == delimiter,
            final(self).contents == old(self).contents,
            final(self).has_header == old(self).has_header,
            final(self).has_footer == old(self).has_footer,
    {
        self.delimiter = delimiter;
    }

    /// Marks whether the first row should be treated as a header.
    pub fn with_header(&mut self, yes: bool)
        ensures
            final(self).has_header == yes,
            final(self).contents == old(self).contents,
            final(self).delimiter == old(self).delimiter,
            final(self).has_footer == old(self).has_footer,
    {
        self.has_header = yes;
    }

    /// Marks whether the last row should be treated as a footer.
    pub fn with_footer(&mut self, yes: bool)
        ensures
            final(self).has_footer == yes,
            final(self).contents == old(self).contents,
            final(self).delimiter == old(self).delimiter,
            final(self).has_header == old(self).has_header,
    {
        self.has_footer = yes;
    }

    /// Constructs a [`TableBuilder`] from a CSV-formatted string.
    pub fn from_csv(input: &str) -> (r: TableBuilder)
        ensures
            r.contents@ == input@,
            r.delimiter == ',',
            !r.has_header,
            !r.has_footer,
    {
        TableBuilder::new(input, ',')
    }

    /// Constructs a [`TableBuilder`] from a TSV-formatted string.
    pub fn from_tsv(input: &str) -> (r: TableBuilder)
        ensures
            r.contents@ == input@,
            r.delimiter == '\t',
            !r.has_header,
            !r.has_footer,
    {
        TableBuilder::new(input, '\t')
    }

    /// Builds a [`Table`][super::Table] from the provided configuration.
    pub fn build(&self) -> (t: Table)
        ensures
            is_built_table(t, self.contents@, self.delimiter, self.has_header, self.has_footer),
    {
        let ghost goal = parsed_rows(self.contents@, self.delimiter);
        let lines = split_lines_exec(self.contents.as_str());
        let mut rows: Vec<Vec<String>> = Vec::new();
        let n = lines.len();
        let mut i: usize = 0;
        proof {
            assert(views2(rows@) =~= goal.take(0));
        }
        while i < n
            invariant
                n == lines@.len(),
                views(lines@) == split_lines(self.contents@),
                goal == parsed_rows(self.contents@, self.delimiter),
                0 <= i <= n,
                views2(rows@) == goal.take(i as int),
            decreases n - i,
        {
            let pieces = split_char(lines[i].as_str(), self.delimiter);
            let mut cells: Vec<String> = Vec::new();
            let m = pieces.len();
            let mut j: usize = 0;
            proof {
                assert(views(cells@) =~= views(pieces@).map_values(
                    |cell: Seq<char>| trim_spec(cell),
                ).take(0));
            }
            while j < m
                invariant
                    m == pieces@.len(),
                    0 <= j <= m,
                    views(cells@) == views(pieces@).map_values(
                        |cell: Seq<char>| trim_spec(cell),
                    ).take(j as int),
                decreases m - j,
            {
                let ghost cells0 = cells@;
                cells.push(trim(pieces[j].as_str()));
                proof {
                    let f = |cell: Seq<char>| trim_spec(cell);
                    let m2 = views(pieces@).map_values(f);
                    assert(m2.take(j as int).push(m2[j as int]) =~= m2.take(j + 1));
                    assert(m2[j as int] == trim_spec(pieces@[j as int]@));
                    assert(views(cells@) =~= views(cells0).push(cells@.last()@));
                }
                j = j + 1;
            }
            let ghost rows0 = rows@;
            rows.push(cells);
            proof {
                assert(views(pieces@).map_values(|cell: Seq<char>| trim_spec(cell)).take(m as int)
                    =~= views(pieces@).map_values(|cell: Seq<char>| trim_spec(cell)));
                assert(goal[i as int] =~= views(pieces@).map_values(
                    |cell: Seq<char>| trim_spec(cell),
                )) by {
                    assert(views(lines@)[i as int] == lines@[i as int]@);
                }
                assert(goal.take(i as int).push(goal[i as int]) =~= goal.take(i + 1));
                assert(views2(rows@) =~= views2(rows0).push(views(rows@.last()@)));
            }
            i = i + 1;
        }
        proof {
            assert(goal.take(n as int) =~= goal);
        }
        let mut rows = rows;
        let header: Vec<String> = if self.has_header && rows.len() > 0 {
            rows.remove(0)
        } else {
            Vec::new()
        };
        let footer: Vec<String> = if self.has_footer && rows.len() > 0 {
            let last = rows.len() - 1;
            rows.remove(last)
        } else {
            Vec::new()
        };
        let mut columns = Columns::default();
        columns.mark_for_recalc();
        let t = Table {
            header,
            rows,
            footer,
            separator: Separator::default(),
            columns,
            alignments: Vec::new(),
        };
        proof {
            assert(views(t.header@) =~= built_header(self.contents@, self.delimiter,
                self.has_header));
            assert(views2(t.rows@) =~= built_rows(self.contents@, self.delimiter, self.has_header,
                self.has_footer));
            assert(views(t.footer@) =~= built_footer(self.contents@, self.delimiter,
                self.has_header, self.has_footer));
        }
        t
    }
}

} // verus!
