//! Column widths of a table, cached with a dirty flag: widths are only
//! recomputed on demand, and only when marked stale.

use vstd::prelude::*;

use crate::helpers::ansi::{visible_width, visible_width_spec};
use crate::text::{views, views2};

verus! {

/// The widest visible width found in column `i` over the given rows;
/// characters inside ANSI escape sequences contribute nothing.
pub open spec fn cell_max(rows: Seq<Seq<Seq<char>>>, i: int) -> nat
    decreases rows.len(),
{
    if rows.len() == 0 {
        0
    } else {
        let rest = cell_max(rows.drop_last(), i);
        let here: nat = if 0 <= i < rows.last().len() {
            visible_width_spec(rows.last()[i])
        } else {
            0
        };
        if here > rest {
            here
        } else {
            rest
        }
    }
}

/// The widest column count over the given rows.
pub open spec fn max_cols(rows: Seq<Seq<Seq<char>>>) -> nat
    decreases rows.len(),
{
    if rows.len() == 0 {
        0
    } else {
        let rest = max_cols(rows.drop_last());
        if rows.last().len() > rest {
            rows.last().len()
        } else {
            rest
        }
    }
}

/// The widths after a recalculation over `rows`, with the previously cached
/// widths serving as lower bounds for the columns they cover.
pub open spec fn calc_widths(base: Seq<usize>, rows: Seq<Seq<Seq<char>>>) -> Seq<nat> {
    Seq::new(
        max_cols(rows),
        |i: int|
            {
                let b: nat = if i < base.len() {
                    base[i] as nat
                } else {
                    0
                };
                if cell_max(rows, i) > b {
                    cell_max(rows, i)
                } else {
                    b
                }
            },
    )
}

/// Columns past every row's width have no cells and so no width.
proof fn lemma_cell_max_beyond(rows: Seq<Seq<Seq<char>>>, i: int)
    requires
        i >= max_cols(rows),
    ensures
        cell_max(rows, i) == 0,
    decreases rows.len(),
{
    if rows.len() > 0 {
        lemma_cell_max_beyond(rows.drop_last(), i);
    }
}

/// Represents the column widths of a table.
#[derive(Debug)]
pub struct Columns {
    /// Stores the computed widths for each column
    pub widths: Vec<usize>,
    /// Indicates whether the widths need to be recalculated
    pub needs_recalculation: bool,
}

impl Default for Columns {
    /// No widths, nothing marked for recalculation.
    fn default() -> (r: Columns)
        ensures
            r.widths@.len() == 0,
            !r.needs_recalculation,
    {
        Columns { widths: Vec::new(), needs_recalculation: false }
    }
}

impl Columns {
    /// Marks the column widths as needing recalculation.
    pub fn mark_for_recalc(&mut self)
        ensures
            final(self).needs_recalculation,
            final(self).widths == old(self).widths,
    {
        self.needs_recalculation = true;
    }

    /// Retrieves the width of the column at the given index, if it exists.
    pub fn get(&self, index: usize) -> (r: Option<usize>)
        ensures
            r == if index < self.widths@.len() {
                Some(self.widths@[index as int])
            } else {
                Option::<usize>::None
            },
    {
        if index < self.widths.len() {
            Some(self.widths[index])
        } else {
            None
        }
    }

    /// Retrieves the width of the column at the given index, or returns the
    /// fallback value.
    pub fn get_or(&self, index: usize, fallback: usize) -> (r: usize)
        ensures
            r == if index < self.widths@.len() {
                self.widths@[index as int]
            } else {
                fallback
            },
    {
        if index < self.widths.len() {
            self.widths[index]
        } else {
            fallback
        }
    }

    /// Calculates column widths over the provided rows, unless no
    /// recalculation is pending: each width becomes the widest cell of its
    /// column, previously cached widths acting as lower bounds.
    pub fn calculate(&mut self, rows: &Vec<Vec<String>>)
        ensures
            old(self).needs_recalculation ==> {
                &&& !final(self).needs_recalculation
                &&& final(self).widths@.len() == calc_widths(
                    old(self).widths@,
                    views2(rows@),
                ).len()
                &&& forall|i: int|
                    0 <= i < final(self).widths@.len() ==> final(self).widths@[i] as nat
                        == calc_widths(old(self).widths@, views2(rows@))[i]
            },
            !old(self).needs_recalculation ==> *final(self) == *old(self),
    {
        if !self.needs_recalculation {
            return ;
        }
        let ghost all = views2(rows@);
        let ghost base = self.widths@;
        let n = rows.len();
        let mut max_col_count: usize = 0;
        let mut k: usize = 0;
        proof {
            assert(all.take(0) =~= Seq::<Seq<Seq<char>>>::empty());
        }
        while k < n
            invariant
                n == rows@.len(),
                all == views2(rows@),
                0 <= k <= n,
                max_col_count as nat == max_cols(all.take(k as int)),
                self.widths@.len() == if base.len() > max_cols(all.take(k as int)) {
                    base.len()
                } else {
                    max_cols(all.take(k as int))
                },
                forall|i: int|
                    0 <= i < self.widths@.len() ==> #[trigger] self.widths@[i] as nat == ({
                        let b: nat = if i < base.len() {
                            base[i] as nat
                        } else {
                            0
                        };
                        if cell_max(all.take(k as int), i) > b {
                            cell_max(all.take(k as int), i)
                        } else {
                            b
                        }
                    }),
                self.needs_recalculation,
            decreases n - k,
        {
            let ghost prev = self.widths@;
            proof {
                assert(all.take(k + 1).drop_last() =~= all.take(k as int));
                assert(all.take(k + 1).last() == all[k as int]);
                assert(all[k as int] == views(rows@[k as int]@));
            }
            let row = &rows[k];
            let row_len = row.len();
            if row_len > max_col_count {
                max_col_count = row_len;
            }
            while self.widths.len() < row_len
                invariant
                    prev.len() <= self.widths@.len(),
                    self.widths@.len() <= if prev.len() > row_len as nat {
                        prev.len()
                    } else {
                        row_len as nat
                    },
                    forall|i: int| 0 <= i < prev.len() ==> self.widths@[i] == prev[i],
                    forall|i: int|
                        prev.len() <= i < self.widths@.len() ==> #[trigger] self.widths@[i] == 0,
                    self.needs_recalculation,
                decreases row_len - self.widths@.len(),
            {
                self.widths.push(0);
            }
            let mut j: usize = 0;
            let ghost grown = self.widths@;
            while j < row_len
                invariant
                    row_len == rows@[k as int]@.len(),
                    all == views2(rows@),
                    k < rows@.len(),
                    all[k as int] == views(rows@[k as int]@),
                    0 <= j <= row_len,
                    row_len <= self.widths@.len(),
                    self.widths@.len() == grown.len(),
                    forall|i: int|
                        j <= i < self.widths@.len() ==> #[trigger] self.widths@[i] == grown[i],
                    row@ == rows@[k as int]@,
                    forall|i: int|
                        0 <= i < j ==> #[trigger] self.widths@[i] as nat == ({
                            let here = visible_width_spec(all[k as int][i]);
                            if here > grown[i] as nat {
                                here
                            } else {
                                grown[i] as nat
                            }
                        }),
                    self.needs_recalculation,
                decreases row_len - j,
            {
                proof {
                    assert(all[k as int][j as int] == rows@[k as int]@[j as int]@);
                }
                let cl = visible_width(row[j].as_str());
                if cl > self.widths[j] {
                    self.widths[j] = cl;
                }
                j = j + 1;
            }
            proof {
                assert forall|i: int| 0 <= i < self.widths@.len() implies #[trigger] self.widths@[i]
                    as nat == ({
                    let b: nat = if i < base.len() {
                        base[i] as nat
                    } else {
                        0
                    };
                    if cell_max(all.take(k + 1), i) > b {
                        cell_max(all.take(k + 1), i)
                    } else {
                        b
                    }
                }) by {
                    if i >= max_cols(all.take(k as int)) {
                        lemma_cell_max_beyond(all.take(k as int), i);
                    }
                    assert(cell_max(all.take(k + 1), i) == ({
                        let rest = cell_max(all.take(k as int), i);
                        let here: nat = if 0 <= i < all[k as int].len() {
                            visible_width_spec(all[k as int][i])
                        } else {
                            0
                        };
                        if here > rest {
                            here
                        } else {
                            rest
                        }
                    }));
                    if i < row_len {
                        assert(self.widths@[i] as nat == ({
                            let here = visible_width_spec(all[k as int][i]);
                            if here > grown[i] as nat {
                                here
                            } else {
                                grown[i] as nat
                            }
                        }));
                        if i < prev.len() {
                            assert(grown[i] == prev[i]);
                        } else {
                            assert(grown[i] == 0);
                        }
                    } else {
                        assert(self.widths@[i] == grown[i]);
                        if i < prev.len() {
                            assert(grown[i] == prev[i]);
                        } else {
                            assert(grown[i] == 0);
                        }
                    }
                }
            }
            k = k + 1;
        }
        proof {
            assert(all.take(n as int) =~= all);
        }
        self.widths.truncate(max_col_count);
        self.needs_recalculation = false;
        proof {
            assert(final(self).widths@.len() == calc_widths(base, all).len());
        }
    }
}

} // verus!
