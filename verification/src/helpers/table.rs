//! A table with header, rows and footer, configurable column alignments and
//! separators, and cached column widths.

pub mod builder;
pub mod columns;
pub mod separator;

pub use builder::TableBuilder;
pub use columns::Columns;
pub use separator::Separator;

use vstd::prelude::*;

use crate::helpers::ansi::{visible_width, visible_width_spec};
use crate::text::{
    blen, join_strs, join_with, push_spaces, repeat_seq, repeat_str, spaces, views, views2,
};
use columns::calc_widths;

verus! {

/// How a cell's text sits inside its padded column.
#[derive(Debug, Clone, Copy, PartialEq, Eq, Structural)]
pub enum Alignment {
    Left,
    Center,
    Right,
}

/// The number of pad characters a cell receives: nothing when its visible
/// width already fills the column, the missing visible width otherwise.
pub open spec fn pad_of(text: Seq<char>, width: nat) -> int {
    if visible_width_spec(text) < width {
        width - visible_width_spec(text)
    } else {
        0
    }
}

/// A cell padded to its column width under an alignment; centering puts the
/// odd pad character on the right.
pub open spec fn format_cell_spec(
    text: Seq<char>,
    width: nat,
    alignment: Option<Alignment>,
) -> Seq<char> {
    let pad = pad_of(text, width) as nat;
    match alignment {
        Some(Alignment::Center) => spaces(pad / 2) + text + spaces((pad - pad / 2) as nat),
        Some(Alignment::Right) => spaces(pad) + text,
        _ => text + spaces(pad),
    }
}

/// The width used for column `i` of a row: the cached width when one exists,
/// the cell's own visible width otherwise.
pub open spec fn width_at(widths: Seq<usize>, row: Seq<Seq<char>>, i: int) -> nat {
    if i < widths.len() {
        widths[i] as nat
    } else {
        visible_width_spec(row[i])
    }
}

/// The alignment applied to column `i`, if one was configured.
pub open spec fn align_at(aligns: Seq<Alignment>, i: int) -> Option<Alignment> {
    if i < aligns.len() {
        Some(aligns[i])
    } else {
        None
    }
}

/// The cells of a row from position `i` on, each padded and followed by the
/// horizontal separator.
pub open spec fn row_cells(
    row: Seq<Seq<char>>,
    widths: Seq<usize>,
    aligns: Seq<Alignment>,
    sep_h: Seq<char>,
    i: int,
) -> Seq<char>
    decreases row.len() - i,
{
    if i < 0 || i >= row.len() {
        Seq::empty()
    } else {
        format_cell_spec(row[i], width_at(widths, row, i), align_at(aligns, i)) + sep_h
            + row_cells(row, widths, aligns, sep_h, i + 1)
    }
}

/// A formatted row: its padded cells, each followed by the horizontal
/// separator, then a newline.
pub open spec fn format_row_spec(
    row: Seq<Seq<char>>,
    widths: Seq<usize>,
    aligns: Seq<Alignment>,
    sep_h: Seq<char>,
) -> Seq<char> {
    row_cells(row, widths, aligns, sep_h, 0) + "\n"@
}

/// The rule drawn between header and body or body and footer: each column
/// filled with the vertical glyph, columns joined by a run of it as wide in
/// glyphs as the horizontal separator is in bytes, closed by one more glyph
/// and a newline.
pub open spec fn vertical_rule_spec(
    widths: Seq<usize>,
    sep_v: Seq<char>,
    sep_h_bytes: nat,
) -> Seq<char> {

    join_with(
        widths.map_values(|w: usize| repeat_seq(sep_v, w as nat)),
        repeat_seq(sep_v, sep_h_bytes),
    ) + sep_v + "\n"@
}

/// Represents a table with headers, rows, and footers, along with
/// configurable column alignments and separators.
#[derive(Debug)]
pub struct Table {
    /// The header row
    pub header: Vec<String>,
    /// The table data
    pub rows: Vec<Vec<String>>,
    /// The footer row
    pub footer: Vec<String>,
    /// The column and row separators
    pub separator: Separator,
    /// The column width cache
    pub columns: Columns,
    /// The column alignments
    pub alignments: Vec<Alignment>,
}

/// The rows a table's width calculation walks over: the header when
/// non-empty, then the data rows, then the footer when non-empty.
pub open spec fn layout_rows(t: Table) -> Seq<Seq<Seq<char>>> {
    let head: Seq<Seq<Seq<char>>> = if t.header@.len() > 0 {
        seq![views(t.header@)]
    } else {
        Seq::empty()
    };
    let foot: Seq<Seq<Seq<char>>> = if t.footer@.len() > 0 {
        seq![views(t.footer@)]
    } else {
        Seq::empty()
    };
    head + views2(t.rows@) + foot
}

/// The data rows from index `i` on, each formatted.
pub open spec fn body_rows_spec(
    rows: Seq<Seq<Seq<char>>>,
    widths: Seq<usize>,
    aligns: Seq<Alignment>,
    sep_h: Seq<char>,
    i: int,
) -> Seq<char>
    decreases rows.len() - i,
{
    if i < 0 || i >= rows.len() {
        Seq::empty()
    } else {
        format_row_spec(rows[i], widths, aligns, sep_h) + body_rows_spec(
            rows,
            widths,
            aligns,
            sep_h,
            i + 1,
        )
    }
}

/// The full rendering of table content, given the widths its layout pass
/// computed: header row and rule when present, the data rows, then rule and
/// footer row when present.
pub open spec fn render_of(
    header: Seq<Seq<char>>,
    rows: Seq<Seq<Seq<char>>>,
    footer: Seq<Seq<char>>,
    sep_h: Seq<char>,
    sep_v: Seq<char>,
    aligns: Seq<Alignment>,
    widths: Seq<usize>,
) -> Seq<char> {
    let rule = vertical_rule_spec(widths, sep_v, blen(sep_h));
    let head: Seq<char> = if header.len() > 0 {
        format_row_spec(header, widths, aligns, sep_h) + rule
    } else {
        Seq::empty()
    };
    let body = body_rows_spec(rows, widths, aligns, sep_h, 0);
    let foot: Seq<char> = if footer.len() > 0 {
        rule + format_row_spec(footer, widths, aligns, sep_h)
    } else {
        Seq::empty()
    };
    head + body + foot
}

/// The rendering of a whole table value.
pub open spec fn render_spec(t: Table, widths: Seq<usize>) -> Seq<char> {
    render_of(
        views(t.header@),
        views2(t.rows@),
        views(t.footer@),
        t.separator.horizontal@,
        t.separator.vertical@,
        t.alignments@,
        widths,
    )
}

impl Table {
    /// Returns a new [`TableBuilder`] instance for constructing a table.
    pub fn builder() -> (r: TableBuilder)
        ensures
            r.contents@.len() == 0,
            r.delimiter == '\t',
            !r.has_header,
            !r.has_footer,
    {
        TableBuilder::default()
    }

    /// Construct a [`Table`] from a CSV-formatted string.
    pub fn from_csv(input: &str) -> (r: Table)
        ensures
            builder::is_built_table(r, input@, ',', false, false),
    {
        let b = TableBuilder::from_csv(input);
        b.build()
    }

    /// Construct a [`Table`] from a TSV-formatted string.
    pub fn from_tsv(input: &str) -> (r: Table)
        ensures
            builder::is_built_table(r, input@, '\t', false, false),
    {
        let b = TableBuilder::from_tsv(input);
        b.build()
    }

    /// Sets the header row of the table.
    pub fn with_header(&mut self, header: Vec<String>)
        ensures
            final(self).header == header,
            final(self).rows == old(self).rows,
            final(self).footer == old(self).footer,
            final(self).separator == old(self).separator,
            final(self).alignments == old(self).alignments,
            final(self).columns.widths == old(self).columns.widths,
            final(self).columns.needs_recalculation,
    {
        self.header = header;
        self.columns.mark_for_recalc();
    }

    /// Sets the footer row of the table.
    pub fn with_footer(&mut self, footer: Vec<String>)
        ensures
            final(self).footer == footer,
            final(self).header == old(self).header,
            final(self).rows == old(self).rows,
            final(self).separator == old(self).separator,
            final(self).alignments == old(self).alignments,
            final(self).columns.widths == old(self).columns.widths,
            final(self).columns.needs_recalculation,
    {
        self.footer = footer;
        self.columns.mark_for_recalc();
    }

    /// Configure the column alignments.
    pub fn with_alignments(&mut self, alignments: Vec<Alignment>)
        ensures
            final(self).alignments == alignments,
            final(self).header == old(self).header,
            final(self).rows == old(self).rows,
            final(self).footer == old(self).footer,
            final(self).separator == old(self).separator,
            final(self).columns == old(self).columns,
    {
        self.alignments = alignments;
    }

    /// Adds a row to the table.
    pub fn add_row(&mut self, row: Vec<String>)
        ensures
            final(self).rows@ == old(self).rows@.push(row),
            final(self).header == old(self).header,
            final(self).footer == old(self).footer,
            final(self).separator == old(self).separator,
            final(self).alignments == old(self).alignments,
            final(self).columns.widths == old(self).columns.widths,
            final(self).columns.needs_recalculation,
    {
        self.rows.push(row);
        self.columns.mark_for_recalc();
    }

    /// Builds the vertical rule between header or footer and the body.
    fn format_vertical_separator(&self) -> (r: String)
        ensures
            r@ == vertical_rule_spec(
                self.columns.widths@,
                self.separator.vertical@,
                blen(self.separator.horizontal@),
            ),
    {
        let widths = &self.columns.widths;
        let n = widths.len();
        let mut parts: Vec<String> = Vec::new();
        let mut i: usize = 0;
        while i < n
            invariant
                n == widths@.len(),
                widths@ == self.columns.widths@,
                0 <= i <= n,
                views(parts@) =~~= widths@.take(i as int).map_values(
                    |w: usize| repeat_seq(self.separator.vertical@, w as nat),
                ),
            decreases n - i,
        {
            let ghost parts0 = parts@;
            parts.push(repeat_str(self.separator.vertical.as_str(), widths[i]));
            proof {
                let f = |w: usize| repeat_seq(self.separator.vertical@, w as nat);
                assert(widths@.take(i as int).push(widths@[i as int]) =~= widths@.take(i + 1));
                assert(views(parts@) =~= views(parts0).push(parts@.last()@));
                assert(widths@.take(i + 1).map_values(f) =~= widths@.take(i as int).map_values(
                    f,
                ).push(f(widths@[i as int])));
            }
            i = i + 1;
        }
        proof {
            assert(widths@.take(n as int) =~= widths@);
            assert(widths@.take(n as int).map_values(
                |w: usize| repeat_seq(self.separator.vertical@, w as nat),
            ) =~= widths@.map_values(|w: usize| repeat_seq(self.separator.vertical@, w as nat)));
        }
        let sep = repeat_str(self.separator.vertical.as_str(), self.separator.horizontal.as_str().len());
        let mut r = join_strs(&parts, sep.as_str());
        r.append(self.separator.vertical.as_str());
        r.append("\n");
        proof {
            assert(r@ =~= vertical_rule_spec(
                self.columns.widths@,
                self.separator.vertical@,
                blen(self.separator.horizontal@),
            ));
        }
        r
    }

    /// Formats a single cell, padded to the column width per the alignment.
    fn format_cell(&self, text: &str, width: usize, alignment: Option<Alignment>) -> (r: String)
        ensures
            r@ == format_cell_spec(text@, width as nat, alignment),
    {
        let vw = visible_width(text);
        let pad: usize = if vw < width {
            width - vw
        } else {
            0
        };
        proof {
            assert(pad as nat == pad_of(text@, width as nat) as nat);
        }
        let mut r = String::new();
        match alignment {
            Some(Alignment::Center) => {
                let left = pad / 2;
                push_spaces(&mut r, left);
                r.append(text);
                push_spaces(&mut r, pad - left);
            },
            Some(Alignment::Right) => {
                push_spaces(&mut r, pad);
                r.append(text);
            },
            _ => {
                r.append(text);
                push_spaces(&mut r, pad);
            },
        }
        proof {
            assert(r@ =~= format_cell_spec(text@, width as nat, alignment));
        }
        r
    }

    /// Formats a row of data for display.
    fn format_row(&self, row: &Vec<String>) -> (r: String)
        ensures
            r@ == format_row_spec(
                views(row@),
                self.columns.widths@,
                self.alignments@,
                self.separator.horizontal@,
            ),
    {
        let mut r = String::new();
        let n = row.len();
        let mut i: usize = 0;
        let ghost vrow = views(row@);
        let ghost widths = self.columns.widths@;
        let ghost aligns = self.alignments@;
        let ghost sep_h = self.separator.horizontal@;
        proof {
            assert(r@ + row_cells(vrow, widths, aligns, sep_h, 0) =~= row_cells(
                vrow,
                widths,
                aligns,
                sep_h,
                0,
            ));
        }
        while i < n
            invariant
                n == row@.len(),
                vrow == views(row@),
                widths == self.columns.widths@,
                aligns == self.alignments@,
                sep_h == self.separator.horizontal@,
                0 <= i <= n,
                r@ + row_cells(vrow, widths, aligns, sep_h, i as int) == row_cells(
                    vrow,
                    widths,
                    aligns,
                    sep_h,
                    0,
                ),
            decreases n - i,
        {
            let ghost r0 = r@;
            let cell = &row[i];
            let fallback = visible_width(cell.as_str());
            let width = self.columns.get_or(i, fallback);
            let alignment = if i < self.alignments.len() {
                Some(self.alignments[i])
            } else {
                None
            };
            proof {
                assert(vrow[i as int] == row@[i as int]@);
                assert(width as nat == width_at(widths, vrow, i as int));
                assert(alignment == align_at(aligns, i as int));
            }
            let cell_text = self.format_cell(cell.as_str(), width, alignment);
            r.append(cell_text.as_str());
            r.append(self.separator.horizontal.as_str());
            proof {
                assert(r@ + row_cells(vrow, widths, aligns, sep_h, i + 1) =~= r0 + row_cells(
                    vrow,
                    widths,
                    aligns,
                    sep_h,
                    i as int,
                ));
            }
            i = i + 1;
        }
        r.append("\n");
        proof {
            assert(row_cells(vrow, widths, aligns, sep_h, n as int) =~= Seq::<char>::empty());
            assert(r@ =~= format_row_spec(vrow, widths, aligns, sep_h));
        }
        r
    }

    /// The rows of the table in layout order: the header when non-empty,
    /// every data row, then the footer when non-empty.
    pub fn iter_rows(&self) -> (r: Vec<Vec<String>>)
        ensures
            views2(r@) == layout_rows(*self),
    {
        let mut out: Vec<Vec<String>> = Vec::new();
        if self.header.len() > 0 {
            out.push(clone_row(&self.header));
        }
        let nr = self.rows.len();
        let mut k: usize = 0;
        proof {
            assert(views2(out@) =~= (if self.header@.len() > 0 {
                seq![views(self.header@)]
            } else {
                Seq::<Seq<Seq<char>>>::empty()
            }) + views2(self.rows@.take(0)));
        }
        while k < nr
            invariant
                nr == self.rows@.len(),
                0 <= k <= nr,
                views2(out@) == (if self.header@.len() > 0 {
                    seq![views(self.header@)]
                } else {
                    Seq::<Seq<Seq<char>>>::empty()
                }) + views2(self.rows@.take(k as int)),
            decreases nr - k,
        {
            let ghost out0 = out@;
            out.push(clone_row(&self.rows[k]));
            proof {
                assert(self.rows@.take(k as int).push(self.rows@[k as int]) =~= self.rows@.take(
                    k + 1,
                ));
                assert(views2(self.rows@.take(k + 1)) =~= views2(self.rows@.take(k as int)).push(
                    views(self.rows@[k as int]@),
                ));
                assert(views2(out@) =~= views2(out0).push(views(out@.last()@)));
                assert(views2(out@) =~= (if self.header@.len() > 0 {
                    seq![views(self.header@)]
                } else {
                    Seq::<Seq<Seq<char>>>::empty()
                }) + views2(self.rows@.take(k + 1)));
            }
            k = k + 1;
        }
        if self.footer.len() > 0 {
            let foot = clone_row(&self.footer);
            out.push(foot);
        }
        proof {
            assert(self.rows@.take(nr as int) =~= self.rows@);
            assert(views2(out@) =~= layout_rows(*self));
        }
        out
    }

    /// Generates a formatted string representation of the table: the column
    /// widths are recalculated if stale, then header, rows and footer are
    /// rendered with rules between header or footer and the body.
    pub fn display(&mut self) -> (r: String)
        ensures
            !final(self).columns.needs_recalculation,
            old(self).columns.needs_recalculation ==> {
                &&& final(self).columns.widths@.len() == calc_widths(
                    old(self).columns.widths@,
                    layout_rows(*old(self)),
                ).len()
                &&& forall|i: int|
                    0 <= i < final(self).columns.widths@.len()
                        ==> final(self).columns.widths@[i] as nat == calc_widths(
                        old(self).columns.widths@,
                        layout_rows(*old(self)),
                    )[i]
            },
            !old(self).columns.needs_recalculation ==> final(self).columns.widths == old(
                self,
            ).columns.widths,
            r@ == render_spec(*old(self), final(self).columns.widths@),
            final(self).header == old(self).header,
            final(self).rows == old(self).rows,
            final(self).footer == old(self).footer,
            final(self).separator == old(self).separator,
            final(self).alignments == old(self).alignments,
    {
        let ghost t0 = *old(self);
        let iter_rows = self.iter_rows();
        let nr = self.rows.len();
        self.columns.calculate(&iter_rows);
        let ghost widths = self.columns.widths@;
        let mut r = String::new();
        if self.header.len() > 0 {
            let head_row = self.format_row(&self.header);
            r.append(head_row.as_str());
            let rule = self.format_vertical_separator();
            r.append(rule.as_str());
        }
        let ghost head_part = r@;
        let ghost tcur = *self;
        let mut k2: usize = 0;
        proof {
            assert(r@ + body_rows_spec(
                views2(self.rows@),
                widths,
                self.alignments@,
                self.separator.horizontal@,
                0,
            ) =~= head_part + body_rows_spec(
                views2(self.rows@),
                widths,
                self.alignments@,
                self.separator.horizontal@,
                0,
            ));
        }
        while k2 < nr
            invariant
                *self == tcur,
                widths == self.columns.widths@,
                nr == self.rows@.len(),
                0 <= k2 <= nr,
                r@ + body_rows_spec(
                    views2(self.rows@),
                    widths,
                    self.alignments@,
                    self.separator.horizontal@,
                    k2 as int,
                ) == head_part + body_rows_spec(
                    views2(self.rows@),
                    widths,
                    self.alignments@,
                    self.separator.horizontal@,
                    0,
                ),
            decreases nr - k2,
        {
            let ghost r0 = r@;
            let row_text = self.format_row(&self.rows[k2]);
            r.append(row_text.as_str());
            proof {
                assert(views2(self.rows@)[k2 as int] == views(self.rows@[k2 as int]@));
                assert(r@ + body_rows_spec(
                    views2(self.rows@),
                    widths,
                    self.alignments@,
                    self.separator.horizontal@,
                    k2 + 1,
                ) =~= r0 + body_rows_spec(
                    views2(self.rows@),
                    widths,
                    self.alignments@,
                    self.separator.horizontal@,
                    k2 as int,
                ));
            }
            k2 = k2 + 1;
        }
        proof {
            assert(body_rows_spec(
                views2(self.rows@),
                widths,
                self.alignments@,
                self.separator.horizontal@,
                nr as int,
            ) =~= Seq::<char>::empty());
        }
        if self.footer.len() > 0 {
            let rule = self.format_vertical_separator();
            r.append(rule.as_str());
            let foot_row = self.format_row(&self.footer);
            r.append(foot_row.as_str());
        }
        proof {
            assert(r@ =~= render_spec(t0, final(self).columns.widths@));
        }
        r
    }
}

/// Copy a row of cells.
fn clone_row(row: &Vec<String>) -> (r: Vec<String>)
    ensures
        views(r@) == views(row@),
{
    let mut r: Vec<String> = Vec::new();
    let n = row.len();
    let mut i: usize = 0;
    proof {
        assert(views(r@) =~= views(row@.take(0)));
    }
    while i < n
        invariant
            n == row@.len(),
            0 <= i <= n,
            views(r@) == views(row@.take(i as int)),
        decreases n - i,
    {
        let ghost r0 = r@;
        r.push(row[i].clone());
        proof {
            assert(row@.take(i as int).push(row@[i as int]) =~= row@.take(i + 1));
            assert(views(r@) =~= views(r0).push(r@.last()@));
            assert(views(row@.take(i + 1)) =~= views(row@.take(i as int)).push(
                row@[i as int]@,
            ));
        }
        i = i + 1;
    }
    proof {
        assert(row@.take(n as int) =~= row@);
        assert(views(r@) =~~= views(row@));
    }
    r
}

} // verus!
