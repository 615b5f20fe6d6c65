//! The scan pipeline: entries describing already-read sources are folded into
//! a single result set. Enumeration of directories, exclusion matching and the
//! reading of files and streams are outside collaborators; they hand the
//! scanner plain values (paths, content lines, metadata sizes) and receive a
//! [`ScanResults`] back. Both execution strategies fold with the same
//! associative accumulators, so they agree on totals and maxima.

pub mod accumulators;
pub mod group;
pub mod file;
pub mod results;
pub mod sort;

pub use accumulators::{Max, Totals};
pub use file::File;
pub use results::ScanResults;
pub use sort::SortOrder;

use vstd::prelude::*;

use crate::text::views;

use accumulators::{
    lemma_rec_le_totals, lemma_totals_concat, lemma_totals_permutation, lemma_totals_prefix,
    max_of, t_fits, totals_of,
};
use file::{file_rec, recs, stream_rec, Rec};

verus! {

/// One unit of scanning work: a source that has been read into memory.
/// A stream source carries no metadata size; its byte count is reconstructed
/// from the content.
#[derive(Debug)]
pub struct ScanEntry {
    /// The display path of the source
    pub path: String,
    /// The content, split into lines with terminators removed
    pub lines: Vec<String>,
    /// The byte size from filesystem metadata; absent for stream sources
    pub meta_bytes: Option<u64>,
}

/// The mathematical model of a [`ScanEntry`].
pub struct EntryModel {
    pub path: Seq<char>,
    pub lines: Seq<Seq<char>>,
    pub meta_bytes: Option<u64>,
}

impl View for ScanEntry {
    type V = EntryModel;

    open spec fn view(&self) -> EntryModel {
        EntryModel { path: self.path@, lines: views(self.lines@), meta_bytes: self.meta_bytes@ }
    }
}

/// The record an entry extracts to.
pub open spec fn entry_rec(e: EntryModel) -> Rec {
    match e.meta_bytes {
        Option::Some(b) => file_rec(e.path, e.lines, b as nat),
        Option::None => stream_rec(e.lines),
    }
}

/// The records a sequence of entries extracts to, in order.
pub open spec fn entry_recs(es: Seq<EntryModel>) -> Seq<Rec> {
    es.map_values(|e: EntryModel| entry_rec(e))
}

/// The models of a sequence of entries.
pub open spec fn entry_views(es: Seq<ScanEntry>) -> Seq<EntryModel> {
    es.map_values(|e: ScanEntry| e@)
}

/// A stream entry's reconstructed byte count must fit the machine's word, as
/// it is summed from in-memory line lengths.
pub open spec fn entry_fits(e: EntryModel) -> bool {
    e.meta_bytes is None ==> crate::scanner::file::total_bytes(e.lines) + e.lines.len()
        <= usize::MAX
}

/// The scanner configuration: recursion depth, file-size limit, hidden-file
/// policy and strategy selection. The directory enumerator that consults
/// these filters lives outside the scanner; the scanner itself folds the
/// entries the enumerator produced.
#[derive(Debug)]
pub struct Scanner {
    /// The maximum depth to recurse when scanning
    pub scan_depth: Option<usize>,
    /// Ignore files above this size limit
    pub max_filesize: Option<u64>,
    /// Ignore hidden files in the scan
    pub ignore_hidden: bool,
    /// Parallelize the scanning process
    pub parallel: bool,
}

impl Default for Scanner {
    /// A scanner with no limits, honoring hidden-file exclusion, serial.
    fn default() -> (r: Scanner)
        ensures
            r.scan_depth is None,
            r.max_filesize is None,
            !r.ignore_hidden,
            !r.parallel,
    {
        Scanner { scan_depth: None, max_filesize: None, ignore_hidden: false, parallel: false }
    }
}

impl Scanner {
    /// Instantiates a new [`Scanner`].
    pub fn new() -> (r: Scanner)
        ensures
            r.scan_depth is None,
            r.max_filesize is None,
            !r.ignore_hidden,
            !r.parallel,
    {
        Scanner::default()
    }

    /// Set the maximum depth to recurse when scanning.
    pub fn scan_depth(&mut self, depth: Option<usize>)
        ensures
            final(self).scan_depth == depth,
            final(self).max_filesize == old(self).max_filesize,
            final(self).ignore_hidden == old(self).ignore_hidden,
            final(self).parallel == old(self).parallel,
    {
        self.scan_depth = depth;
    }

    /// Set the file-size limit above which the scanner ignores a file.
    pub fn max_filesize(&mut self, size: Option<u64>)
        ensures
            final(self).max_filesize == size,
            final(self).scan_depth == old(self).scan_depth,
            final(self).ignore_hidden == old(self).ignore_hidden,
            final(self).parallel == old(self).parallel,
    {
        self.max_filesize = size;
    }

    /// Whether the scanner should ignore hidden files.
    pub fn ignore_hidden(&mut self, yes: bool)
        ensures
            final(self).ignore_hidden == yes,
            final(self).scan_depth == old(self).scan_depth,
            final(self).max_filesize == old(self).max_filesize,
            final(self).parallel == old(self).parallel,
    {
        self.ignore_hidden = yes;
    }

    /// Whether the scanning process runs with the concurrent strategy.
    pub fn run_parallel(&mut self, yes: bool)
        ensures
            final(self).parallel == yes,
            final(self).scan_depth == old(self).scan_depth,
            final(self).max_filesize == old(self).max_filesize,
            final(self).ignore_hidden == old(self).ignore_hidden,
    {
        self.parallel = yes;
    }

    /// Fold every entry into one result set. The record folding is the same
    /// for both strategies; when the concurrent strategy is selected the
    /// caller may instead build per-path local result sets and combine them
    /// with [`Scanner::scan_parallel`].
    pub fn scan(&self, entries: &Vec<ScanEntry>) -> (r: ScanResults)
        requires
            t_fits(totals_of(entry_recs(entry_views(entries@)))),
            forall|i: int|
                0 <= i < entries@.len() ==> entry_fits(#[trigger] entry_views(entries@)[i]),
        ensures
            r.wf(),
            recs(r.files@) == entry_recs(entry_views(entries@)),
    {
        self.scan_serial(entries)
    }

    /// The serial strategy: process every entry in sequence, folding each
    /// record directly into the shared record list and accumulators.
    pub fn scan_serial(&self, entries: &Vec<ScanEntry>) -> (r: ScanResults)
        requires
            t_fits(totals_of(entry_recs(entry_views(entries@)))),
            forall|i: int|
                0 <= i < entries@.len() ==> entry_fits(#[trigger] entry_views(entries@)[i]),
        ensures
            r.wf(),
            recs(r.files@) == entry_recs(entry_views(entries@)),
    {
        let ghost all = entry_recs(entry_views(entries@));
        let mut results = ScanResults::new();
        let n = entries.len();
        let mut i: usize = 0;
        proof {
            assert(recs(results.files@) =~= all.take(0));
        }
        while i < n
            invariant
                n == entries@.len(),
                all == entry_recs(entry_views(entries@)),
                t_fits(totals_of(all)),
                forall|j: int|
                    0 <= j < entries@.len() ==> entry_fits(#[trigger] entry_views(entries@)[j]),
                0 <= i <= n,
                results.wf(),
                recs(results.files@) == all.take(i as int),
            decreases n - i,
        {
            proof {
                assert(all[i as int] == entry_rec(entries@[i as int]@));
                lemma_rec_le_totals(all, i as int);
                lemma_totals_prefix(all, i + 1);
                assert(all.take(i + 1).drop_last() =~= all.take(i as int));
                assert(all.take(i + 1).last() == all[i as int]);
                crate::scanner::file::lemma_total_words_le_chars(entries@[i as int]@.lines);
                assert(entry_fits(entry_views(entries@)[i as int]));
            }
            let entry = &entries[i];
            let record = match entry.meta_bytes {
                Option::Some(b) => File::from_content(entry.path.clone(), &entry.lines, b),
                Option::None => File::scan_reader(&entry.lines),
            };
            results.push(record);
            proof {
                assert(recs(results.files@) =~= all.take(i + 1));
            }
            i = i + 1;
        }
        proof {
            assert(all.take(n as int) =~= all);
        }
        results
    }

    /// The merge step of the concurrent strategy: per-path local result sets,
    /// each accumulated independently, are combined under exclusive access
    /// into one global result set. The outcome carries the same totals and
    /// maxima as a serial fold over the concatenated records.
    pub fn scan_parallel(&self, locals: Vec<ScanResults>) -> (r: ScanResults)
        requires
            forall|i: int| 0 <= i < locals@.len() ==> (#[trigger] locals@[i]).wf(),
            t_fits(totals_of(concat_recs(locals@))),
        ensures
            r.wf(),
            recs(r.files@) == concat_recs(locals@),
    {
        let ghost orig = locals@;
        let mut global = ScanResults::new();
        let mut rest = locals;
        let ghost mut i: int = 0;
        proof {
            assert(recs(global.files@) =~= concat_recs(orig.take(0)));
            assert(rest@ =~= orig.skip(0));
        }
        while rest.len() > 0
            invariant
                0 <= i <= orig.len(),
                rest@ == orig.skip(i),
                t_fits(totals_of(concat_recs(orig))),
                forall|j: int| 0 <= j < orig.len() ==> (#[trigger] orig[j]).wf(),
                global.wf(),
                recs(global.files@) == concat_recs(orig.take(i)),
            decreases rest@.len(),
        {
            proof {
                assert(orig.skip(i)[0] == orig[i]);
                assert(orig[i].wf());
                lemma_concat_recs_take(orig, i);
                lemma_concat_split(orig, i + 1);
                lemma_totals_concat(concat_recs(orig.take(i)), recs(orig[i].files@));
                lemma_totals_concat(concat_recs(orig.take(i + 1)), concat_recs(orig.skip(i + 1)));
            }
            let local = rest.remove(0);
            global.merge(local);
            proof {
                i = i + 1;
                assert(rest@ =~= orig.skip(i));
            }
        }
        proof {
            assert(orig.take(i) =~= orig);
        }
        global
    }
}

/// However the records of a scan are distributed over workers and reordered
/// on arrival, the same multiset of records yields identical totals and
/// identical maxima: the serial and the concurrent strategy agree on every
/// aggregate.
pub proof fn lemma_strategies_agree(serial: Seq<Rec>, concurrent: Seq<Rec>)
    requires
        serial.to_multiset() == concurrent.to_multiset(),
    ensures
        totals_of(serial) == totals_of(concurrent),
        max_of(serial) == max_of(concurrent),
{
    lemma_totals_permutation(serial, concurrent);
}

/// The concatenation of the records of a sequence of result sets, in order.
pub open spec fn concat_recs(rs: Seq<ScanResults>) -> Seq<Rec>
    decreases rs.len(),
{
    if rs.len() == 0 {
        Seq::empty()
    } else {
        concat_recs(rs.drop_last()) + recs(rs.last().files@)
    }
}

pub proof fn lemma_concat_recs_take(rs: Seq<ScanResults>, i: int)
    requires
        0 <= i < rs.len(),
    ensures
        concat_recs(rs.take(i + 1)) == concat_recs(rs.take(i)) + recs(rs[i].files@),
{
    assert(rs.take(i + 1).drop_last() =~= rs.take(i));
    assert(rs.take(i + 1).last() == rs[i]);
}

/// A concatenation of record lists splits at any index into the prefix part
/// and the suffix part.
pub proof fn lemma_concat_split(rs: Seq<ScanResults>, i: int)
    requires
        0 <= i <= rs.len(),
    ensures
        concat_recs(rs) == concat_recs(rs.take(i)) + concat_recs(rs.skip(i)),
    decreases rs.len(),
{
    if i == rs.len() {
        assert(rs.take(i) =~= rs);
        assert(concat_recs(rs) =~= concat_recs(rs.take(i)) + concat_recs(rs.skip(i)));
    } else {
        let dl = rs.drop_last();
        lemma_concat_split(dl, i);
        assert(dl.take(i) =~= rs.take(i));
        assert(rs.skip(i).drop_last() =~= dl.skip(i));
        assert(rs.skip(i).last() == rs.last());
        assert(concat_recs(rs.skip(i)) == concat_recs(dl.skip(i)) + recs(rs.last().files@));
        assert(concat_recs(rs) =~= concat_recs(rs.take(i)) + concat_recs(rs.skip(i)));
    }
}

} // verus!
