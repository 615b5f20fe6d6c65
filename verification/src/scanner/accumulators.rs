//! Associative reducers over extracted records: running totals (field-wise
//! sums) and running maxima. Both are commutative and associative over the
//! multiset of records seen, which is what allows the concurrent scan
//! strategy to merge per-path results in any order.

use vstd::prelude::*;

use super::file::{recs, File, Rec};

verus! {

/// The mathematical model of a [`Totals`] accumulator.
pub struct TotalsModel {
    pub files: nat,
    pub lines: nat,
    pub words: nat,
    pub chars: nat,
    pub bytes: nat,
}

/// The mathematical model of a [`Max`] accumulator.
pub struct MaxModel {
    pub lines: nat,
    pub words: nat,
    pub chars: nat,
    pub bytes: nat,
}

/// Folding one record into a totals value.
pub open spec fn t_add(t: TotalsModel, r: Rec) -> TotalsModel {
    TotalsModel {
        files: t.files + 1,
        lines: t.lines + r.lines,
        words: t.words + r.words,
        chars: t.chars + r.chars,
        bytes: t.bytes + r.bytes,
    }
}

/// Combining two totals values field-wise.
pub open spec fn t_merge(a: TotalsModel, b: TotalsModel) -> TotalsModel {
    TotalsModel {
        files: a.files + b.files,
        lines: a.lines + b.lines,
        words: a.words + b.words,
        chars: a.chars + b.chars,
        bytes: a.bytes + b.bytes,
    }
}

pub open spec fn t_zero() -> TotalsModel {
    TotalsModel { files: 0, lines: 0, words: 0, chars: 0, bytes: 0 }
}

/// The field-wise sums over a sequence of records.
pub open spec fn totals_of(s: Seq<Rec>) -> TotalsModel
    decreases s.len(),
{
    if s.len() == 0 {
        t_zero()
    } else {
        t_add(totals_of(s.drop_last()), s.last())
    }
}

pub open spec fn max_nat(a: nat, b: nat) -> nat {
    if a >= b {
        a
    } else {
        b
    }
}

/// Folding one record into a running maximum.
pub open spec fn m_track(m: MaxModel, r: Rec) -> MaxModel {
    MaxModel {
        lines: max_nat(m.lines, r.lines),
        words: max_nat(m.words, r.words),
        chars: max_nat(m.chars, r.chars),
        bytes: max_nat(m.bytes, r.bytes),
    }
}

/// Combining two maxima field-wise.
pub open spec fn m_merge(a: MaxModel, b: MaxModel) -> MaxModel {
    MaxModel {
        lines: max_nat(a.lines, b.lines),
        words: max_nat(a.words, b.words),
        chars: max_nat(a.chars, b.chars),
        bytes: max_nat(a.bytes, b.bytes),
    }
}

pub open spec fn m_zero() -> MaxModel {
    MaxModel { lines: 0, words: 0, chars: 0, bytes: 0 }
}

/// The field-wise maxima over a sequence of records (zero when empty).
pub open spec fn max_of(s: Seq<Rec>) -> MaxModel
    decreases s.len(),
{
    if s.len() == 0 {
        m_zero()
    } else {
        m_track(max_of(s.drop_last()), s.last())
    }
}

/// Whether field-wise sums stay within the machine counters.
pub open spec fn t_fits(t: TotalsModel) -> bool {
    &&& t.files <= usize::MAX
    &&& t.lines <= usize::MAX
    &&& t.words <= usize::MAX
    &&& t.chars <= usize::MAX
    &&& t.bytes <= u64::MAX
}

/// Represents the accumulated total number of files, lines, words, chars and
/// bytes over a set of records.
#[derive(Debug)]
pub struct Totals {
    pub files: usize,
    pub lines: usize,
    pub words: usize,
    pub chars: usize,
    pub bytes: u64,
}

impl View for Totals {
    type V = TotalsModel;

    open spec fn view(&self) -> TotalsModel {
        TotalsModel {
            files: self.files as nat,
            lines: self.lines as nat,
            words: self.words as nat,
            chars: self.chars as nat,
            bytes: self.bytes as nat,
        }
    }
}

impl Default for Totals {
    /// The zero totals.
    fn default() -> (r: Totals)
        ensures
            r@ == t_zero(),
    {
        Totals { files: 0, lines: 0, words: 0, chars: 0, bytes: 0 }
    }
}

impl Totals {
    /// Add one record's statistics to the totals accumulator.
    pub fn add(&mut self, file: &File)
        requires
            t_fits(t_add(old(self)@, file@)),
        ensures
            final(self)@ == t_add(old(self)@, file@),
    {
        self.files = self.files + 1;
        self.lines = self.lines + file.lines;
        self.words = self.words + file.words;
        self.chars = self.chars + file.chars;
        self.bytes = self.bytes + file.bytes;
    }

    /// Combine another totals accumulator into this one field-wise.
    pub fn merge(&mut self, other: &Totals)
        requires
            t_fits(t_merge(old(self)@, other@)),
        ensures
            final(self)@ == t_merge(old(self)@, other@),
    {
        self.files = self.files + other.files;
        self.lines = self.lines + other.lines;
        self.words = self.words + other.words;
        self.chars = self.chars + other.chars;
        self.bytes = self.bytes + other.bytes;
    }
}

/// Represents the maximum number of lines, words, chars and bytes seen over a
/// set of records; zero-valued when the set is empty.
#[derive(Debug)]
pub struct Max {
    pub lines: usize,
    pub words: usize,
    pub chars: usize,
    pub bytes: u64,
}

impl View for Max {
    type V = MaxModel;

    open spec fn view(&self) -> MaxModel {
        MaxModel {
            lines: self.lines as nat,
            words: self.words as nat,
            chars: self.chars as nat,
            bytes: self.bytes as nat,
        }
    }
}

impl Default for Max {
    /// The zero maxima.
    fn default() -> (r: Max)
        ensures
            r@ == m_zero(),
    {
        Max { lines: 0, words: 0, chars: 0, bytes: 0 }
    }
}

impl Max {
    /// Update the running maxima by comparing against one record.
    pub fn track(&mut self, file: &File)
        ensures
            final(self)@ == m_track(old(self)@, file@),
    {
        if file.lines > self.lines {
            self.lines = file.lines;
        }
        if file.words > self.words {
            self.words = file.words;
        }
        if file.chars > self.chars {
            self.chars = file.chars;
        }
        if file.bytes > self.bytes {
            self.bytes = file.bytes;
        }
    }

    /// Combine another maxima accumulator into this one field-wise.
    pub fn merge(&mut self, other: &Max)
        ensures
            final(self)@ == m_merge(old(self)@, other@),
    {
        if other.lines > self.lines {
            self.lines = other.lines;
        }
        if other.words > self.words {
            self.words = other.words;
        }
        if other.chars > self.chars {
            self.chars = other.chars;
        }
        if other.bytes > self.bytes {
            self.bytes = other.bytes;
        }
    }
}

/// Totals over a concatenation are the merge of the two halves' totals: the
/// fold may be split anywhere, which justifies per-path local accumulation.
pub proof fn lemma_totals_concat(a: Seq<Rec>, b: Seq<Rec>)
    ensures
        totals_of(a + b) == t_merge(totals_of(a), totals_of(b)),
        max_of(a + b) == m_merge(max_of(a), max_of(b)),
    decreases b.len(),
{
    if b.len() == 0 {
        assert(a + b =~= a);
    } else {
        lemma_totals_concat(a, b.drop_last());
        assert((a + b).drop_last() =~= a + b.drop_last());
        assert((a + b).last() == b.last());
    }
}

/// Each record's fields are bounded by the totals over any sequence that
/// contains it.
pub proof fn lemma_rec_le_totals(s: Seq<Rec>, i: int)
    requires
        0 <= i < s.len(),
    ensures
        s[i].lines <= totals_of(s).lines,
        s[i].words <= totals_of(s).words,
        s[i].chars <= totals_of(s).chars,
        s[i].bytes <= totals_of(s).bytes,
        totals_of(s).files == s.len(),
    decreases s.len(),
{
    lemma_totals_files(s);
    if i < s.len() - 1 {
        lemma_rec_le_totals(s.drop_last(), i);
    }
}

/// The file total counts exactly the records.
pub proof fn lemma_totals_files(s: Seq<Rec>)
    ensures
        totals_of(s).files == s.len(),
    decreases s.len(),
{
    if s.len() > 0 {
        lemma_totals_files(s.drop_last());
    }
}

/// Totals over a prefix never exceed the totals over the whole sequence.
pub proof fn lemma_totals_prefix(s: Seq<Rec>, i: int)
    requires
        0 <= i <= s.len(),
    ensures
        totals_of(s.take(i)).files <= totals_of(s).files,
        totals_of(s.take(i)).lines <= totals_of(s).lines,
        totals_of(s.take(i)).words <= totals_of(s).words,
        totals_of(s.take(i)).chars <= totals_of(s).chars,
        totals_of(s.take(i)).bytes <= totals_of(s).bytes,
    decreases s.len(),
{
    if i < s.len() {
        lemma_totals_prefix(s.drop_last(), i);
        assert(s.drop_last().take(i) =~= s.take(i));
    } else {
        assert(s.take(i) =~= s);
    }
}

/// Totals and maxima are invariant under reordering: two sequences holding
/// the same multiset of records fold to the same totals and the same maxima.
/// This is the heart of the serial/concurrent equivalence.
pub proof fn lemma_totals_permutation(a: Seq<Rec>, b: Seq<Rec>)
    requires
        a.to_multiset() == b.to_multiset(),
    ensures
        totals_of(a) == totals_of(b),
        max_of(a) == max_of(b),
    decreases a.len(),
{
    broadcast use vstd::seq_lib::group_to_multiset_ensures;

    if a.len() == 0 {
        assert(b.to_multiset().len() == 0);
        assert(b =~= Seq::<Rec>::empty());
    } else {
        let x = a.last();
        assert(a.to_multiset().contains(x));
        assert(b.to_multiset().contains(x));
        assert(b.contains(x));
        let j = choose|j: int| 0 <= j < b.len() && b[j] == x;
        let b2 = b.remove(j);
        lemma_remove_last_multiset(b, j);
        lemma_remove_last_multiset(a, a.len() - 1);
        assert(a.remove(a.len() - 1) =~= a.drop_last());
        assert(a.drop_last().to_multiset() == b2.to_multiset());
        lemma_totals_permutation(a.drop_last(), b2);
        lemma_totals_remove(b, j);
    }
}

/// Removing the record at `j` and folding it back in gives the same totals
/// and maxima as folding the whole sequence.
pub proof fn lemma_totals_remove(s: Seq<Rec>, j: int)
    requires
        0 <= j < s.len(),
    ensures
        totals_of(s) == t_add(totals_of(s.remove(j)), s[j]),
        max_of(s) == m_track(max_of(s.remove(j)), s[j]),
    decreases s.len(),
{
    if j == s.len() - 1 {
        assert(s.remove(j) =~= s.drop_last());
    } else {
        lemma_totals_remove(s.drop_last(), j);
        assert(s.remove(j).drop_last() =~= s.drop_last().remove(j));
        assert(s.remove(j).last() == s.last());
    }
}

proof fn lemma_remove_last_multiset(b: Seq<Rec>, j: int)
    requires
        0 <= j < b.len(),
    ensures
        b.remove(j).to_multiset() == b.to_multiset().remove(b[j]),
{
    broadcast use vstd::seq_lib::group_to_multiset_ensures;

    b.to_multiset_ensures();
}

} // verus!
