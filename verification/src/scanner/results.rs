//! The aggregate scan result: every per-file record together with running
//! totals and maxima. The invariant is that the accumulators always equal
//! the fold of the record list, so they never diverge from what a recount
//! would produce.

use vstd::prelude::*;

use super::accumulators::{
    lemma_totals_concat, lemma_totals_files, lemma_totals_permutation, lemma_totals_prefix,
    m_merge, m_track, max_of, t_add, t_fits, t_merge, totals_of, Max, Totals,
};
use super::file::{recs, File, Rec};
use super::group::{
    count_sum, grouped_recs, group_langs, lemma_count_sum_prefix, lemma_grouped_entry_bounds,
    lemma_grouped_langs, lemma_grouped_step_existing, lemma_grouped_step_new,
    lemma_group_langs_len, lemma_group_partition,
};
use crate::language::LangTag;
use super::sort::{
    le_exec, le_key, lemma_insert_at, lemma_sort_spec_ensures, sort_spec, SortOrder,
};
use crate::helpers::table::builder::{built_rows, TableBuilder};
use crate::helpers::table::columns::calc_widths;
use crate::helpers::table::{layout_rows, render_of, Alignment};
use crate::language::name_of;
use crate::output::table::{colorize, to_widths};
use crate::output::Metric;
use crate::text::{dec_rep, usize_to_string, views, views2};

verus! {

/// One summary line per grouped record: the colored language name, the file
/// count and the line count, tab-separated.
pub open spec fn summary_rows(gs: Seq<Rec>) -> Seq<char>
    decreases gs.len(),
{
    if gs.len() == 0 {
        Seq::empty()
    } else {
        summary_rows(gs.drop_last()) + colorize(gs.last().language, name_of(gs.last().language))
            + "\t"@ + dec_rep(gs.last().count) + "\t"@ + dec_rep(gs.last().lines) + "\n"@
    }
}

/// The rows the summary table's layout pass walks over.
pub open spec fn summary_layout(
    header: Seq<Seq<char>>,
    parsed: Seq<Seq<Seq<char>>>,
    footer: Seq<Seq<char>>,
) -> Seq<Seq<Seq<char>>> {
    seq![header] + parsed + seq![footer]
}

/// The per-language summary: grouped records rendered as a language, file
/// count and line count table with a total row.
pub open spec fn summary_spec(s: Seq<Rec>) -> Seq<char> {
    let gs = grouped_recs(s);
    let blob = summary_rows(gs);
    let parsed = built_rows(blob, '\t', false, false);
    let header = seq!["Language"@, "Files"@, "Lines"@];
    let footer = seq!["Total"@, dec_rep(totals_of(s).files)];
    let aligns = seq![Alignment::Left, Alignment::Center, Alignment::Right];
    let widths = to_widths(calc_widths(Seq::empty(), summary_layout(header, parsed, footer)));
    render_of(header, parsed, footer, "    "@, "-"@, aligns, widths)
}

/// Represents the aggregate scan results.
#[derive(Debug)]
pub struct ScanResults {
    /// The collection of all file records, with line, word, char and byte counts
    pub files: Vec<File>,
    /// The aggregate total number of files, lines, words, chars and bytes
    pub total: Totals,
    /// The maximum number of lines, words, chars and bytes over the records
    pub max: Max,
}

impl ScanResults {
    /// The accumulators are exactly the fold of the record list: the totals
    /// are the field-wise sums and the maxima the field-wise maxima over
    /// `files`.
    pub open spec fn wf(self) -> bool {
        &&& self.total@ == totals_of(recs(self.files@))
        &&& self.max@ == max_of(recs(self.files@))
    }

    /// An empty result set with zeroed accumulators.
    pub fn new() -> (r: ScanResults)
        ensures
            r.wf(),
            r.files@.len() == 0,
    {
        let r = ScanResults {
            files: Vec::new(),
            total: Totals::default(),
            max: Max::default(),
        };
        proof {
            assert(recs(r.files@) =~= Seq::<super::file::Rec>::empty());
        }
        r
    }

    /// Fold one record into the result set: the record is appended and both
    /// accumulators are updated.
    pub fn push(&mut self, file: File)
        requires
            old(self).wf(),
            t_fits(t_add(old(self).total@, file@)),
        ensures
            final(self).wf(),
            final(self).files@ == old(self).files@.push(file),
            final(self).total@ == t_add(old(self).total@, file@),
            final(self).max@ == m_track(old(self).max@, file@),
    {
        self.total.add(&file);
        self.max.track(&file);
        self.files.push(file);
        proof {
            assert(recs(self.files@).drop_last() =~= recs(old(self).files@));
            assert(recs(self.files@).last() == self.files@.last()@);
        }
    }

    /// Merge another result set into this one: its records are appended and
    /// the accumulators are combined field-wise, which leaves them equal to a
    /// fold over the combined record list.
    pub fn merge(&mut self, other: ScanResults)
        requires
            old(self).wf(),
            other.wf(),
            t_fits(t_merge(old(self).total@, other.total@)),
        ensures
            final(self).wf(),
            final(self).files@ == old(self).files@ + other.files@,
            final(self).total@ == t_merge(old(self).total@, other.total@),
            final(self).max@ == m_merge(old(self).max@, other.max@),
    {
        let ghost orecs = recs(other.files@);
        proof {
            lemma_totals_concat(recs(old(self).files@), orecs);
        }
        let ScanResults { files, total, max } = other;
        let mut files = files;
        self.total.merge(&total);
        self.max.merge(&max);
        self.files.append(&mut files);
        proof {
            assert(recs(self.files@) =~= recs(old(self).files@) + orecs);
        }
    }

    /// Groups the records by language and returns a new [`ScanResults`]: one
    /// combined record per language, in first-appearance order, with the
    /// accumulators recomputed over exactly the reduced set.
    pub fn group_by_language(&self) -> (r: ScanResults)
        requires
            self.wf(),
            count_sum(recs(self.files@)) <= usize::MAX,
        ensures
            r.wf(),
            recs(r.files@) == grouped_recs(recs(self.files@)),
    {
        let ghost s = recs(self.files@);
        let mut out: Vec<File> = Vec::new();
        let n = self.files.len();
        let mut i: usize = 0;
        proof {
            assert(s.take(0) =~= Seq::<Rec>::empty());
            assert(group_langs(s.take(0)) =~= Seq::<LangTag>::empty());
            assert(recs(out@) =~= grouped_recs(s.take(0)));
        }
        while i < n
            invariant
                n == self.files@.len(),
                s == recs(self.files@),
                self.wf(),
                count_sum(s) <= usize::MAX,
                0 <= i <= n,
                recs(out@) == grouped_recs(s.take(i as int)),
                out@.len() == group_langs(s.take(i as int)).len(),
            decreases n - i,
        {
            let ghost sp = s.take(i as int);
            proof {
                assert(sp.push(s[i as int]) =~= s.take(i + 1));
                lemma_grouped_langs(sp);
                assert(self.files@[i as int]@ == s[i as int]);
            }
            let f = self.files[i].dup();
            let olen = out.len();
            let ghost osnap = out@;
            let mut j: usize = 0;
            while j < olen
                invariant_except_break
                    out@ == osnap,
                    olen == out@.len(),
                    0 <= j <= olen,
                    forall|w: int|
                        0 <= w < j ==> (#[trigger] recs(out@)[w]).language != f@.language,
                ensures
                    out@ == osnap,
                    0 <= j <= olen,
                    j < olen ==> recs(out@)[j as int].language == f@.language,
                    forall|w: int|
                        0 <= w < j ==> (#[trigger] recs(out@)[w]).language != f@.language,
                decreases olen - j,
            {
                if out[j].language.eq(&f.language) {
                    break ;
                }
                j = j + 1;
            }
            if j < olen {
                proof {
                    assert(group_langs(sp)[j as int] == f@.language);
                    lemma_grouped_step_existing(sp, s[i as int], j as int);
                    lemma_grouped_langs(s.take(i + 1));
                    lemma_grouped_entry_bounds(s.take(i + 1), j as int);
                    lemma_totals_prefix(s, i + 1);
                    lemma_count_sum_prefix(s, i + 1);
                    lemma_totals_files(s);
                }
                let g = out.remove(j);
                let combined = g.add(f);
                out.insert(j, combined);
                proof {
                    assert(out@ =~= osnap.update(j as int, combined));
                    assert(recs(out@) =~= recs(osnap).update(j as int, combined@));
                }
            } else {
                proof {
                    assert(!group_langs(sp).contains(f@.language)) by {
                        if group_langs(sp).contains(f@.language) {
                            let w = choose|w: int|
                                0 <= w < group_langs(sp).len() && group_langs(sp)[w]
                                    == f@.language;
                            assert(recs(out@)[w].language == f@.language);
                        }
                    }
                    lemma_grouped_step_new(sp, s[i as int]);
                }
                out.push(f);
                proof {
                    assert(recs(out@) =~= recs(osnap).push(s[i as int]));
                }
            }
            i = i + 1;
        }
        proof {
            assert(s.take(n as int) =~= s);
        }
        let ghost grouped = grouped_recs(s);
        let mut r = ScanResults::new();
        let mut rest = out;
        let ghost total_groups = grouped.len();
        let ghost k: int = 0;
        proof {
            assert(rest@.skip(0) =~= rest@);
            assert(recs(r.files@) =~= grouped.take(0));
        }
        let ghost outseq = rest@;
        while rest.len() > 0
            invariant
                self.wf(),
                s == recs(self.files@),
                grouped == grouped_recs(s),
                recs(outseq) == grouped,
                0 <= k <= grouped.len(),
                rest@ == outseq.skip(k),
                r.wf(),
                recs(r.files@) == grouped.take(k),
            decreases rest@.len(),
        {
            proof {
                assert(outseq.skip(k)[0] == outseq[k]);
                lemma_group_partition(s);
                lemma_totals_prefix(grouped, k + 1);
                lemma_totals_files(grouped);
                lemma_totals_files(s);
                lemma_group_langs_len(s);
                assert(grouped.take(k + 1).drop_last() =~= grouped.take(k));
                assert(grouped.take(k + 1).last() == grouped[k]);
            }
            let record = rest.remove(0);
            r.push(record);
            proof {
                k = k + 1;
                assert(rest@ =~= outseq.skip(k));
                assert(recs(r.files@) =~= grouped.take(k));
            }
        }
        proof {
            assert(grouped.take(k) =~= grouped);
        }
        r
    }

    /// A quick per-language summary: the records grouped by language and
    /// laid out as a colored three-column table of language, file count and
    /// line count, with a total row.
    pub fn display(&self) -> (r: String)
        requires
            self.wf(),
            count_sum(recs(self.files@)) <= usize::MAX,
        ensures
            r@ == summary_spec(recs(self.files@)),
    {
        let ghost s = recs(self.files@);
        let grouped = self.group_by_language();
        let ghost gs = grouped_recs(s);
        let mut res = String::new();
        let n = grouped.files.len();
        let mut i: usize = 0;
        proof {
            assert(res@ =~= summary_rows(gs.take(0)));
        }
        while i < n
            invariant
                n == grouped.files@.len(),
                gs == recs(grouped.files@),
                0 <= i <= n,
                res@ == summary_rows(gs.take(i as int)),
            decreases n - i,
        {
            let file = &grouped.files[i];
            let nm = file.language.name();
            let cell = crate::output::table::color(&file.language, nm.as_str());
            res.append(cell.as_str());
            res.append("\t");
            res.append(usize_to_string(file.count).as_str());
            res.append("\t");
            res.append(usize_to_string(file.lines).as_str());
            res.append("\n");
            proof {
                assert(gs.take(i + 1).drop_last() =~= gs.take(i as int));
                assert(gs.take(i + 1).last() == gs[i as int]);
                assert(gs[i as int] == grouped.files@[i as int]@);
                assert(res@ =~= summary_rows(gs.take(i + 1)));
            }
            i = i + 1;
        }
        proof {
            assert(gs.take(n as int) =~= gs);
        }
        let builder = TableBuilder::new(res.as_str(), '\t');
        let mut table = builder.build();
        let mut header: Vec<String> = Vec::new();
        header.push("Language".to_owned());
        header.push("Files".to_owned());
        header.push("Lines".to_owned());
        let mut footer: Vec<String> = Vec::new();
        footer.push("Total".to_owned());
        footer.push(usize_to_string(self.total.files));
        let mut alignments: Vec<Alignment> = Vec::new();
        alignments.push(Alignment::Left);
        alignments.push(Alignment::Center);
        alignments.push(Alignment::Right);
        proof {
            assert(views(header@) =~= seq!["Language"@, "Files"@, "Lines"@]);
            assert(views(footer@) =~= seq!["Total"@, dec_rep(totals_of(s).files)]);
            assert(alignments@ =~= seq![Alignment::Left, Alignment::Center, Alignment::Right]);
        }
        table.with_header(header);
        table.with_footer(footer);
        table.with_alignments(alignments);
        let ghost tpre = table;
        let out = table.display();
        proof {
            let blob = summary_rows(gs);
            let parsed = built_rows(blob, '\t', false, false);
            let header2 = seq!["Language"@, "Files"@, "Lines"@];
            let footer2 = seq!["Total"@, dec_rep(totals_of(s).files)];
            let aligns = seq![Alignment::Left, Alignment::Center, Alignment::Right];
            assert(views(tpre.header@) == header2);
            assert(views2(tpre.rows@) == parsed);
            assert(views(tpre.footer@) == footer2);
            assert(layout_rows(tpre) =~= summary_layout(header2, parsed, footer2));
            assert(table.columns.widths@ =~= to_widths(
                calc_widths(Seq::empty(), summary_layout(header2, parsed, footer2)),
            )) by {
                assert(tpre.columns.widths@ =~= Seq::<usize>::empty());
                assert(table.columns.widths@.map_values(|w: usize| w as nat) =~= calc_widths(
                    Seq::empty(),
                    layout_rows(tpre),
                ));
            }
            assert(out@ == summary_spec(s));
        }
        out
    }

    /// Sort the records in place by the chosen metric and direction. The
    /// sort is stable: records with equal keys keep their relative order, as
    /// [`sort_spec`] inserts each record behind its equals.
    pub fn sort_by(&mut self, category: Metric, order: &SortOrder)
        requires
            old(self).wf(),
        ensures
            final(self).wf(),
            recs(final(self).files@) == sort_spec(recs(old(self).files@), category, *order),
            final(self).total == old(self).total,
            final(self).max == old(self).max,
    {
        let ghost orig = recs(self.files@);
        let ghost ofiles = self.files@;
        let ghost t0 = self.total;
        let ghost m0 = self.max;
        let n = self.files.len();
        let mut i: usize = 0;
        proof {
            assert(recs(self.files@).take(0) =~= sort_spec(orig.take(0), category, *order));
            assert(self.files@.skip(0) =~= ofiles.skip(0));
        }
        while i < n
            invariant
                n == self.files@.len(),
                n == orig.len(),
                orig == recs(ofiles),
                self.total == t0,
                self.max == m0,
                0 <= i <= n,
                recs(self.files@).take(i as int) == sort_spec(orig.take(i as int), category, *order),
                self.files@.skip(i as int) == ofiles.skip(i as int),
            decreases n - i,
        {
            let ghost u = self.files@;
            proof {
                assert(u.skip(i as int)[0] == u[i as int]);
                assert(ofiles.skip(i as int)[0] == ofiles[i as int]);
                assert(u[i as int] == ofiles[i as int]);
            }
            let x = self.files.remove(i);
            let ghost v1 = self.files@;
            let ghost prefix = recs(v1).take(i as int);
            proof {
                assert(v1 =~= u.remove(i as int));
                assert(v1.take(i as int) =~= u.take(i as int));
                assert(prefix =~= recs(u).take(i as int));
                assert(x@ == orig[i as int]);
            }
            let mut pos: usize = i;
            loop
                invariant_except_break
                    self.files@ == v1,
                    i <= v1.len(),
                    prefix == recs(v1).take(i as int),
                    0 <= pos <= i,
                    forall|w: int| pos <= w < i ==> !le_key(category, *order, #[trigger] prefix[w], x@),
                ensures
                    self.files@ == v1,
                    0 <= pos <= i,
                    forall|w: int| pos <= w < i ==> !le_key(category, *order, #[trigger] prefix[w], x@),
                    pos > 0 ==> le_key(category, *order, prefix[pos - 1], x@),
                decreases pos,
            {
                if pos == 0 {
                    break ;
                }
                if le_exec(category, order, &self.files[pos - 1], &x) {
                    proof {
                        assert(prefix[pos - 1] == self.files@[pos - 1]@);
                    }
                    break ;
                }
                proof {
                    assert(prefix[pos - 1] == self.files@[pos - 1]@);
                }
                pos = pos - 1;
            }
            self.files.insert(pos, x);
            proof {
                lemma_insert_at(prefix, x@, pos as int, category, *order);
                assert(self.files@ =~= v1.insert(pos as int, x));
                assert(recs(self.files@).take(i + 1) =~= prefix.insert(pos as int, x@));
                assert(orig.take(i + 1).drop_last() =~= orig.take(i as int));
                assert(orig.take(i + 1).last() == orig[i as int]);
                assert(recs(self.files@).take(i + 1) == sort_spec(orig.take(i + 1), category, *order));
                v1.insert_ensures(pos as int, x);
                assert forall|w: int| 0 <= w < n - i - 1 implies #[trigger] self.files@.skip(
                    i + 1,
                )[w] == ofiles.skip(i + 1)[w] by {
                    assert(self.files@.skip(i + 1)[w] == v1.insert(pos as int, x)[w + i + 1]);
                    assert(v1.insert(pos as int, x)[w + i + 1] == v1[w + i]);
                    assert(v1[w + i] == u[w + i + 1]);
                    assert(u.skip(i as int)[w + 1] == u[w + i + 1]);
                    assert(ofiles.skip(i as int)[w + 1] == ofiles[w + i + 1]);
                }
                assert(self.files@.skip(i + 1) =~= ofiles.skip(i + 1));
            }
            i = i + 1;
        }
        proof {
            assert(orig.take(n as int) =~= orig);
            assert(recs(self.files@).take(n as int) =~= recs(self.files@));
            lemma_sort_spec_ensures(orig, category, *order);
            lemma_totals_permutation(orig, sort_spec(orig, category, *order));
        }
    }
}

} // verus!
