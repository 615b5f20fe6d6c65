//! Ordering of scan results: the sort key drawn from a record for each
//! metric, the comparison for each direction, and a stable insertion-based
//! sort specification that the in-place sort is proved to implement exactly.
//! Stability is captured by the law that filtering on any key value commutes
//! with sorting, and sorting ascending then descending provably reverses a
//! record list with pairwise distinct keys.

use vstd::prelude::*;

use super::file::{File, Rec};
use crate::language::{lower_of, lowercase};
use crate::output::Metric;
use crate::text::str_eq;

verus! {

/// The direction records are sorted in.
#[derive(Debug, Clone, Copy, PartialEq, Eq, Structural)]
pub enum SortOrder {
    Ascending,
    Descending,
}

impl SortOrder {
    /// Parse a [`SortOrder`] from its name or an abbreviation of it,
    /// case-insensitively.
    pub fn parse(s: &str) -> (r: Option<SortOrder>)
        ensures
            r == parse_order(lower_of(s@)),
    {
        let low = lowercase(s);
        let t = low.as_str();
        if str_eq(t, "a") || str_eq(t, "asc") || str_eq(t, "ascending") {
            Some(SortOrder::Ascending)
        } else if str_eq(t, "d") || str_eq(t, "desc") || str_eq(t, "descending") {
            Some(SortOrder::Descending)
        } else {
            None
        }
    }
}

/// The order named by an already-lowercased string, if any.
pub open spec fn parse_order(s: Seq<char>) -> Option<SortOrder> {
    if s == "a"@ || s == "asc"@ || s == "ascending"@ {
        Some(SortOrder::Ascending)
    } else if s == "d"@ || s == "desc"@ || s == "descending"@ {
        Some(SortOrder::Descending)
    } else {
        None
    }
}

/// The numeric key a record is sorted by for a metric; an unrecognized metric
/// falls back to the byte count.
pub open spec fn key_of(r: Rec, m: Metric) -> nat {
    match m {
        Metric::Lines => r.lines,
        Metric::Words => r.words,
        Metric::Chars => r.chars,
        _ => r.bytes,
    }
}

/// The sort key of a record for a metric.
pub fn metric_key(f: &File, m: Metric) -> (r: u64)
    ensures
        r as nat == key_of(f@, m),
{
    match m {
        Metric::Lines => f.lines as u64,
        Metric::Words => f.words as u64,
        Metric::Chars => f.chars as u64,
        _ => f.bytes,
    }
}

/// Runtime comparison under the metric and direction.
pub fn le_exec(m: Metric, ord: &SortOrder, a: &File, b: &File) -> (r: bool)
    ensures
        r == le_key(m, *ord, a@, b@),
{
    match ord {
        SortOrder::Ascending => metric_key(a, m) <= metric_key(b, m),
        SortOrder::Descending => metric_key(a, m) >= metric_key(b, m),
    }
}

/// Whether `a` may stand before `b` under the metric and direction.
pub open spec fn le_key(m: Metric, ord: SortOrder, a: Rec, b: Rec) -> bool {
    match ord {
        SortOrder::Ascending => key_of(a, m) <= key_of(b, m),
        SortOrder::Descending => key_of(a, m) >= key_of(b, m),
    }
}

/// Whether `s` is sorted under the metric and direction.
pub open spec fn sorted(s: Seq<Rec>, m: Metric, ord: SortOrder) -> bool {
    forall|i: int, j: int| 0 <= i <= j < s.len() ==> le_key(m, ord, s[i], s[j])
}

/// Inserting `x` into `s` behind every element it need not precede: the
/// insertion step of a stable sort, since `x`, arriving later, stays behind
/// equal keys.
pub open spec fn insert_sorted(s: Seq<Rec>, x: Rec, m: Metric, ord: SortOrder) -> Seq<Rec>
    decreases s.len(),
{
    if s.len() == 0 {
        seq![x]
    } else if le_key(m, ord, s.last(), x) {
        s.push(x)
    } else {
        insert_sorted(s.drop_last(), x, m, ord).push(s.last())
    }
}

/// The stable sort of `s`: every element inserted in arrival order.
pub open spec fn sort_spec(s: Seq<Rec>, m: Metric, ord: SortOrder) -> Seq<Rec>
    decreases s.len(),
{
    if s.len() == 0 {
        Seq::empty()
    } else {
        insert_sorted(sort_spec(s.drop_last(), m, ord), s.last(), m, ord)
    }
}

pub proof fn lemma_insert_sorted_ensures(s: Seq<Rec>, x: Rec, m: Metric, ord: SortOrder)
    requires
        sorted(s, m, ord),
    ensures
        sorted(insert_sorted(s, x, m, ord), m, ord),
        insert_sorted(s, x, m, ord).to_multiset() == s.to_multiset().insert(x),
        insert_sorted(s, x, m, ord).len() == s.len() + 1,
    decreases s.len(),
{
    broadcast use vstd::seq_lib::group_to_multiset_ensures;

    let out = insert_sorted(s, x, m, ord);
    if s.len() == 0 {
        assert(out =~= Seq::empty().push(x));
        assert(out.to_multiset() =~= s.to_multiset().insert(x));
    } else if le_key(m, ord, s.last(), x) {
        assert forall|i: int, j: int| 0 <= i <= j < out.len() implies le_key(
            m,
            ord,
            out[i],
            out[j],
        ) by {
            if j == out.len() - 1 && i < j {
                assert(le_key(m, ord, s[i], s.last()));
            }
        }
    } else {
        let dl = s.drop_last();
        assert(forall|i: int, j: int|
            0 <= i <= j < dl.len() ==> le_key(m, ord, #[trigger] dl[i], #[trigger] dl[j]));
        lemma_insert_sorted_ensures(dl, x, m, ord);
        let inner = insert_sorted(dl, x, m, ord);
        assert forall|i: int, j: int| 0 <= i <= j < out.len() implies le_key(
            m,
            ord,
            out[i],
            out[j],
        ) by {
            if j == out.len() - 1 && i < j {
                // every element of `inner` is either from `s` (so ordered
                // before the last) or is `x` itself, which precedes the last
                assert(inner.to_multiset().contains(out[i]));
                if out[i] == x {
                } else {
                    assert(dl.to_multiset().contains(out[i]));
                    let w = choose|w: int| 0 <= w < dl.len() && dl[w] == out[i];
                    assert(le_key(m, ord, s[w], s.last()));
                }
            }
        }
        assert(out.to_multiset() =~= s.to_multiset().insert(x)) by {
            assert(dl.push(s.last()) =~= s);
            assert(s.to_multiset() == dl.to_multiset().insert(s.last()));
            assert(out.to_multiset() == inner.to_multiset().insert(s.last()));
        }
    }
}

pub proof fn lemma_sort_spec_ensures(s: Seq<Rec>, m: Metric, ord: SortOrder)
    ensures
        sorted(sort_spec(s, m, ord), m, ord),
        sort_spec(s, m, ord).to_multiset() == s.to_multiset(),
        sort_spec(s, m, ord).len() == s.len(),
    decreases s.len(),
{
    broadcast use vstd::seq_lib::group_to_multiset_ensures;

    if s.len() > 0 {
        lemma_sort_spec_ensures(s.drop_last(), m, ord);
        lemma_insert_sorted_ensures(sort_spec(s.drop_last(), m, ord), s.last(), m, ord);
        assert(s.drop_last().push(s.last()) =~= s);
        assert(s.to_multiset() == s.drop_last().to_multiset().insert(s.last()));
    }
}

proof fn lemma_filter_push(s: Seq<Rec>, a: Rec, p: spec_fn(Rec) -> bool)
    ensures
        s.push(a).filter(p) == if p(a) {
            s.filter(p).push(a)
        } else {
            s.filter(p)
        },
{
    reveal(Seq::filter);
    assert(s.push(a).drop_last() =~= s);
    assert(s.push(a).last() == a);
}

/// Inserting `x` leaves every key class untouched except `x`'s own, which
/// gains `x` at its end: the per-step form of stability.
pub proof fn lemma_insert_filter(s: Seq<Rec>, x: Rec, m: Metric, ord: SortOrder, k: nat)
    ensures
        insert_sorted(s, x, m, ord).filter(|r: Rec| key_of(r, m) == k) == if key_of(x, m) == k {
            s.filter(|r: Rec| key_of(r, m) == k).push(x)
        } else {
            s.filter(|r: Rec| key_of(r, m) == k)
        },
    decreases s.len(),
{
    let p = |r: Rec| key_of(r, m) == k;
    if s.len() == 0 {
        lemma_filter_push(Seq::empty(), x, p);
        reveal(Seq::filter);
        assert(Seq::<Rec>::empty().filter(p) =~= Seq::<Rec>::empty());
        assert(insert_sorted(s, x, m, ord) =~= Seq::empty().push(x));
        assert(s.filter(p) =~= Seq::<Rec>::empty());
    } else if le_key(m, ord, s.last(), x) {
        lemma_filter_push(s, x, p);
    } else {
        let dl = s.drop_last();
        lemma_insert_filter(dl, x, m, ord, k);
        lemma_filter_push(insert_sorted(dl, x, m, ord), s.last(), p);
        lemma_filter_push(dl, s.last(), p);
        assert(dl.push(s.last()) =~= s);
        // the hopped-over last element has a strictly different key than x
        assert(key_of(s.last(), m) != key_of(x, m));
    }
}

/// Stability: sorting commutes with filtering on any key value, so records
/// with equal keys keep their relative order.
pub proof fn lemma_sort_stable(s: Seq<Rec>, m: Metric, ord: SortOrder, k: nat)
    ensures
        sort_spec(s, m, ord).filter(|r: Rec| key_of(r, m) == k) == s.filter(
            |r: Rec| key_of(r, m) == k,
        ),
    decreases s.len(),
{
    let p = |r: Rec| key_of(r, m) == k;
    if s.len() == 0 {
        reveal(Seq::filter);
    } else {
        let dl = s.drop_last();
        lemma_sort_stable(dl, m, ord, k);
        lemma_insert_filter(sort_spec(dl, m, ord), s.last(), m, ord, k);
        lemma_filter_push(dl, s.last(), p);
        assert(dl.push(s.last()) =~= s);
    }
}

/// An insertion position found by scanning from the right realizes
/// `insert_sorted`: everything at or past `pos` must come strictly after `x`,
/// and the element just before `pos` (if any) need not.
pub proof fn lemma_insert_at(t: Seq<Rec>, x: Rec, pos: int, m: Metric, ord: SortOrder)
    requires
        0 <= pos <= t.len(),
        forall|j: int| pos <= j < t.len() ==> !le_key(m, ord, #[trigger] t[j], x),
        pos > 0 ==> le_key(m, ord, t[pos - 1], x),
    ensures
        insert_sorted(t, x, m, ord) == t.insert(pos, x),
    decreases t.len(),
{
    if t.len() == 0 {
        assert(insert_sorted(t, x, m, ord) =~= t.insert(0, x));
    } else if pos == t.len() {
        assert(le_key(m, ord, t.last(), x));
        assert(insert_sorted(t, x, m, ord) =~= t.insert(pos, x));
    } else {
        let dl = t.drop_last();
        assert(!le_key(m, ord, t[t.len() - 1], x));
        assert forall|j: int| pos <= j < dl.len() implies !le_key(m, ord, #[trigger] dl[j], x) by {
            assert(dl[j] == t[j]);
        }
        lemma_insert_at(dl, x, pos, m, ord);
        assert(insert_sorted(t, x, m, ord) =~= t.insert(pos, x));
    }
}

/// Whether all records carry pairwise distinct keys for the metric.
pub open spec fn distinct_keys(s: Seq<Rec>, m: Metric) -> bool {
    forall|i: int, j: int|
        0 <= i < j < s.len() ==> key_of(#[trigger] s[i], m) != key_of(#[trigger] s[j], m)
}

/// Inserting an element whose key beats every element of a descending list
/// puts it in front.
proof fn lemma_insert_all_beaten(s: Seq<Rec>, x: Rec, m: Metric, ord: SortOrder)
    requires
        forall|i: int| 0 <= i < s.len() ==> !le_key(m, ord, #[trigger] s[i], x),
    ensures
        insert_sorted(s, x, m, ord) == seq![x] + s,
    decreases s.len(),
{
    if s.len() == 0 {
        assert(insert_sorted(s, x, m, ord) =~= seq![x] + s);
    } else {
        lemma_insert_all_beaten(s.drop_last(), x, m, ord);
        assert(insert_sorted(s, x, m, ord) =~= seq![x] + s);
    }
}

/// Sorting a strictly ascending list descending reverses it exactly.
pub proof fn lemma_sort_desc_reverses(u: Seq<Rec>, m: Metric)
    requires
        sorted(u, m, SortOrder::Ascending),
        distinct_keys(u, m),
    ensures
        sort_spec(u, m, SortOrder::Descending) == u.reverse(),
    decreases u.len(),
{
    if u.len() == 0 {
        assert(sort_spec(u, m, SortOrder::Descending) =~= u.reverse());
    } else {
        let dl = u.drop_last();
        let x = u.last();
        assert(forall|i: int, j: int|
            0 <= i <= j < dl.len() ==> le_key(m, SortOrder::Ascending, #[trigger] dl[i], #[trigger] dl[j]));
        lemma_sort_desc_reverses(dl, m);
        let v = dl.reverse();
        assert forall|i: int| 0 <= i < v.len() implies !le_key(
            m,
            SortOrder::Descending,
            #[trigger] v[i],
            x,
        ) by {
            let w = v.len() - 1 - i;
            assert(v[i] == dl[w]);
            assert(le_key(m, SortOrder::Ascending, u[w], u[u.len() - 1]));
            assert(key_of(u[w], m) != key_of(u[u.len() - 1], m));
        }
        lemma_insert_all_beaten(v, x, m, SortOrder::Descending);
        assert(sort_spec(u, m, SortOrder::Descending) =~= u.reverse());
    }
}

/// Inserting a record whose key is fresh keeps the keys pairwise distinct.
proof fn lemma_insert_distinct(t: Seq<Rec>, x: Rec, m: Metric, ord: SortOrder)
    requires
        distinct_keys(t, m),
        forall|j: int| 0 <= j < t.len() ==> key_of(#[trigger] t[j], m) != key_of(x, m),
    ensures
        distinct_keys(insert_sorted(t, x, m, ord), m),
    decreases t.len(),
{
    broadcast use vstd::seq_lib::group_to_multiset_ensures;

    let out = insert_sorted(t, x, m, ord);
    if t.len() == 0 {
    } else if le_key(m, ord, t.last(), x) {
        assert(out == t.push(x));
        assert forall|i: int, j: int|
            0 <= i < j < out.len() implies key_of(#[trigger] out[i], m) != key_of(
            #[trigger] out[j],
            m,
        ) by {
            if j == out.len() - 1 {
                assert(out[i] == t[i]);
            }
        }
    } else {
        let dl = t.drop_last();
        assert(forall|i: int, j: int|
            0 <= i < j < dl.len() ==> key_of(#[trigger] dl[i], m) != key_of(#[trigger] dl[j], m));
        assert forall|j: int| 0 <= j < dl.len() implies key_of(#[trigger] dl[j], m) != key_of(
            x,
            m,
        ) by {
            assert(dl[j] == t[j]);
        }
        lemma_insert_distinct(dl, x, m, ord);
        let inner = insert_sorted(dl, x, m, ord);
        lemma_insert_sorted_multiset(dl, x, m, ord);
        assert forall|i: int, j: int|
            0 <= i < j < out.len() implies key_of(#[trigger] out[i], m) != key_of(
            #[trigger] out[j],
            m,
        ) by {
            if j == out.len() - 1 {
                // out[i] is an element of inner, so it is x or an element of t
                assert(inner.to_multiset().contains(out[i]));
                if out[i] == x {
                    assert(key_of(t[t.len() - 1], m) != key_of(x, m));
                } else {
                    assert(dl.to_multiset().contains(out[i]));
                    let w = choose|w: int| 0 <= w < dl.len() && dl[w] == out[i];
                    assert(key_of(t[w], m) != key_of(t[t.len() - 1], m));
                }
            }
        }
    }
}

/// The multiset content of an insertion, available without sortedness.
proof fn lemma_insert_sorted_multiset(s: Seq<Rec>, x: Rec, m: Metric, ord: SortOrder)
    ensures
        insert_sorted(s, x, m, ord).to_multiset() == s.to_multiset().insert(x),
    decreases s.len(),
{
    broadcast use vstd::seq_lib::group_to_multiset_ensures;

    if s.len() == 0 {
        assert(insert_sorted(s, x, m, ord) =~= Seq::empty().push(x));
        assert(insert_sorted(s, x, m, ord).to_multiset() =~= s.to_multiset().insert(x));
    } else if le_key(m, ord, s.last(), x) {
    } else {
        let dl = s.drop_last();
        lemma_insert_sorted_multiset(dl, x, m, ord);
        assert(dl.push(s.last()) =~= s);
        assert(s.to_multiset() == dl.to_multiset().insert(s.last()));
        assert(insert_sorted(s, x, m, ord).to_multiset() == insert_sorted(
            dl,
            x,
            m,
            ord,
        ).to_multiset().insert(s.last()));
        assert(s.to_multiset().insert(x) =~= dl.to_multiset().insert(x).insert(s.last()));
    }
}

/// Sorting keeps keys pairwise distinct.
pub proof fn lemma_distinct_after_sort(s: Seq<Rec>, m: Metric, ord: SortOrder)
    requires
        distinct_keys(s, m),
    ensures
        distinct_keys(sort_spec(s, m, ord), m),
    decreases s.len(),
{
    broadcast use vstd::seq_lib::group_to_multiset_ensures;

    if s.len() > 0 {
        let dl = s.drop_last();
        let x = s.last();
        assert(forall|i: int, j: int|
            0 <= i < j < dl.len() ==> key_of(#[trigger] dl[i], m) != key_of(#[trigger] dl[j], m));
        lemma_distinct_after_sort(dl, m, ord);
        let u = sort_spec(dl, m, ord);
        lemma_sort_spec_ensures(dl, m, ord);
        assert forall|j: int| 0 <= j < u.len() implies key_of(#[trigger] u[j], m) != key_of(
            x,
            m,
        ) by {
            assert(u.to_multiset().contains(u[j]));
            assert(dl.to_multiset().contains(u[j]));
            let w = choose|w: int| 0 <= w < dl.len() && dl[w] == u[j];
            assert(key_of(s[w], m) != key_of(s[s.len() - 1], m));
        }
        lemma_insert_distinct(u, x, m, ord);
    }
}

/// Sorting by a metric ascending and then descending reverses the record
/// order whenever the keys are pairwise distinct: the second sort turns the
/// first one's output around exactly.
pub proof fn lemma_sort_ascending_then_descending(s: Seq<Rec>, m: Metric)
    requires
        distinct_keys(s, m),
    ensures
        sort_spec(sort_spec(s, m, SortOrder::Ascending), m, SortOrder::Descending) == sort_spec(
            s,
            m,
            SortOrder::Ascending,
        ).reverse(),
{
    lemma_sort_spec_ensures(s, m, SortOrder::Ascending);
    lemma_distinct_after_sort(s, m, SortOrder::Ascending);
    lemma_sort_desc_reverses(sort_spec(s, m, SortOrder::Ascending), m);
}

} // verus!
