//! Grouping records by classification: the grouped form of a record list is
//! one combined record per language, in first-appearance order, whose numeric
//! fields are the field-wise sums over the group. The combine operation is
//! associative and commutative in those fields, so the fold is well defined;
//! the lemmas here give the partition law (group sums add up to the overall
//! sums) and idempotence (grouping a grouped list changes nothing).

use vstd::prelude::*;

use super::accumulators::{t_zero, totals_of, TotalsModel};
use super::file::{rec_add, Rec};
use crate::language::LangTag;

verus! {

/// The languages of `s` in order of first appearance.
pub open spec fn group_langs(s: Seq<Rec>) -> Seq<LangTag>
    decreases s.len(),
{
    if s.len() == 0 {
        Seq::empty()
    } else {
        let gs = group_langs(s.drop_last());
        if gs.contains(s.last().language) {
            gs
        } else {
            gs.push(s.last().language)
        }
    }
}

/// The members of `s` classified as `lang`.
pub open spec fn lang_filter(s: Seq<Rec>, lang: LangTag) -> Seq<Rec> {
    s.filter(|r: Rec| r.language == lang)
}

/// The left fold of a non-empty group with the combine operation.
pub open spec fn fold_add(g: Seq<Rec>) -> Rec
    decreases g.len(),
{
    if g.len() <= 1 {
        g[0]
    } else {
        rec_add(fold_add(g.drop_last()), g.last())
    }
}

/// The sum of the `count` fields over a sequence of records.
pub open spec fn count_sum(s: Seq<Rec>) -> nat
    decreases s.len(),
{
    if s.len() == 0 {
        0
    } else {
        count_sum(s.drop_last()) + s.last().count
    }
}

/// The grouped form of a record list: one combined record per language, in
/// first-appearance order.
pub open spec fn grouped_recs(s: Seq<Rec>) -> Seq<Rec> {
    group_langs(s).map_values(|lang: LangTag| fold_add(lang_filter(s, lang)))
}

/// Filtering distributes over push.
pub proof fn lemma_filter_push_rec(s: Seq<Rec>, a: Rec, p: spec_fn(Rec) -> bool)
    ensures
        s.push(a).filter(p) == if p(a) {
            s.filter(p).push(a)
        } else {
            s.filter(p)
        },
{
    reveal(Seq::filter);
    assert(s.push(a).drop_last() =~= s);
    assert(s.push(a).last() == a);
}

/// A language appears in the group list exactly when some record carries it.
pub proof fn lemma_group_langs_complete(s: Seq<Rec>, lang: LangTag)
    ensures
        group_langs(s).contains(lang) <==> lang_filter(s, lang).len() > 0,
    decreases s.len(),
{
    reveal(Seq::filter);
    if s.len() > 0 {
        lemma_group_langs_complete(s.drop_last(), lang);
        let gs = group_langs(s.drop_last());
        let gl = group_langs(s);
        assert(lang_filter(s, lang) == if s.last().language == lang {
            lang_filter(s.drop_last(), lang).push(s.last())
        } else {
            lang_filter(s.drop_last(), lang)
        }) by {
            assert(s.drop_last().push(s.last()) =~= s);
            lemma_filter_push_rec(s.drop_last(), s.last(), |r: Rec| r.language == lang);
        }
        if s.last().language == lang {
            assert(gl.contains(lang)) by {
                if !gs.contains(lang) {
                    assert(gl[gl.len() - 1] == lang);
                }
            }
        } else {
            if gl.contains(lang) {
                let w = choose|w: int| 0 <= w < gl.len() && gl[w] == lang;
                if !gs.contains(lang) {
                    assert(w < gs.len());
                    assert(gs[w] == lang);
                }
                assert(gs.contains(lang));
            }
            if gs.contains(lang) {
                let w = choose|w: int| 0 <= w < gs.len() && gs[w] == lang;
                assert(gl[w] == lang);
                assert(gl.contains(lang));
            }
        }
    }
}

/// The group list never repeats a language.
pub proof fn lemma_group_langs_distinct(s: Seq<Rec>)
    ensures
        forall|i: int, j: int|
            0 <= i < j < group_langs(s).len() ==> group_langs(s)[i] != group_langs(s)[j],
    decreases s.len(),
{
    if s.len() > 0 {
        lemma_group_langs_distinct(s.drop_last());
        let gs = group_langs(s.drop_last());
        if !gs.contains(s.last().language) {
            assert forall|i: int, j: int|
                0 <= i < j < group_langs(s).len() implies group_langs(s)[i] != group_langs(
                s,
            )[j] by {
                if j == group_langs(s).len() - 1 {
                    assert(group_langs(s)[i] == gs[i]);
                    assert(!gs.contains(s.last().language));
                }
            }
        }
    }
}

/// Every member of a group carries the group's language, and a non-empty
/// group folds to a record carrying it.
pub proof fn lemma_fold_add_fields(g: Seq<Rec>, lang: LangTag)
    requires
        g.len() > 0,
        forall|i: int| 0 <= i < g.len() ==> (#[trigger] g[i]).language == lang,
    ensures
        fold_add(g).language == lang,
        fold_add(g).path == g.last().path,
        fold_add(g).lines == totals_of(g).lines,
        fold_add(g).words == totals_of(g).words,
        fold_add(g).chars == totals_of(g).chars,
        fold_add(g).bytes == totals_of(g).bytes,
        fold_add(g).count == count_sum(g),
    decreases g.len(),
{
    if g.len() == 1 {
        assert(g.drop_last().len() == 0);
        assert(totals_of(g.drop_last()) == t_zero());
        assert(count_sum(g.drop_last()) == 0);
        assert(g.last() == g[0]);
    } else {
        let dl = g.drop_last();
        assert forall|i: int| 0 <= i < dl.len() implies (#[trigger] dl[i]).language == lang by {
            assert(dl[i] == g[i]);
        }
        lemma_fold_add_fields(dl, lang);
    }
}

/// Everything in a filtered group satisfies the filter.
pub proof fn lemma_lang_filter_members(s: Seq<Rec>, lang: LangTag)
    ensures
        forall|i: int|
            0 <= i < lang_filter(s, lang).len() ==> (#[trigger] lang_filter(s, lang)[i]).language
                == lang,
    decreases s.len(),
{
    reveal(Seq::filter);
    if s.len() > 0 {
        lemma_lang_filter_members(s.drop_last(), lang);
        assert(s.drop_last().push(s.last()) =~= s);
        lemma_filter_push_rec(s.drop_last(), s.last(), |r: Rec| r.language == lang);
        let f = lang_filter(s, lang);
        let fp = lang_filter(s.drop_last(), lang);
        assert forall|i: int| 0 <= i < f.len() implies (#[trigger] f[i]).language == lang by {
            if s.last().language == lang {
                assert(f == fp.push(s.last()));
                if i < f.len() - 1 {
                    assert(f[i] == fp[i]);
                }
            } else {
                assert(f[i] == fp[i]);
            }
        }
    }
}

/// Group sums are bounded by the overall sums.
pub proof fn lemma_totals_filter_le(s: Seq<Rec>, p: spec_fn(Rec) -> bool)
    ensures
        totals_of(s.filter(p)).lines <= totals_of(s).lines,
        totals_of(s.filter(p)).words <= totals_of(s).words,
        totals_of(s.filter(p)).chars <= totals_of(s).chars,
        totals_of(s.filter(p)).bytes <= totals_of(s).bytes,
        totals_of(s.filter(p)).files <= totals_of(s).files,
        count_sum(s.filter(p)) <= count_sum(s),
    decreases s.len(),
{
    reveal(Seq::filter);
    if s.len() > 0 {
        lemma_totals_filter_le(s.drop_last(), p);
        assert(s.drop_last().push(s.last()) =~= s);
        lemma_filter_push_rec(s.drop_last(), s.last(), p);
        let f = s.filter(p);
        let fp = s.drop_last().filter(p);
        if p(s.last()) {
            assert(f == fp.push(s.last()));
            assert(f.drop_last() =~= fp);
            assert(f.last() == s.last());
        } else {
            assert(f == fp);
        }
    }
}

/// The partition law: the numeric group sums over the grouped records add up
/// to exactly the sums over the original records, and the grouped counts sum
/// to the original counts.
pub proof fn lemma_group_partition(s: Seq<Rec>)
    ensures
        totals_of(grouped_recs(s)).lines == totals_of(s).lines,
        totals_of(grouped_recs(s)).words == totals_of(s).words,
        totals_of(grouped_recs(s)).chars == totals_of(s).chars,
        totals_of(grouped_recs(s)).bytes == totals_of(s).bytes,
        count_sum(grouped_recs(s)) == count_sum(s),
        totals_of(grouped_recs(s)).files == group_langs(s).len(),
    decreases s.len(),
{
    super::accumulators::lemma_totals_files(grouped_recs(s));
    if s.len() == 0 {
        assert(grouped_recs(s) =~= Seq::<Rec>::empty());
    } else {
        let sp = s.drop_last();
        let x = s.last();
        let lang = x.language;
        lemma_group_partition(sp);
        assert(sp.push(x) =~= s);
        // every language's filter either gains x (its own) or is unchanged
        assert forall|l: LangTag| l != lang implies lang_filter(s, l) == lang_filter(sp, l) by {
            lemma_filter_push_rec(sp, x, |r: Rec| r.language == l);
        }
        lemma_filter_push_rec(sp, x, |r: Rec| r.language == lang);
        assert(lang_filter(s, lang) == lang_filter(sp, lang).push(x));
        lemma_group_langs_complete(sp, lang);
        let gsp = group_langs(sp);
        let gs = group_langs(s);
        if gsp.contains(lang) {
            assert(gs == gsp);
            let k = choose|k: int| 0 <= k < gsp.len() && gsp[k] == lang;
            lemma_group_langs_distinct(sp);
            // grouped lists agree everywhere but at k, where x is folded in
            let ga = grouped_recs(sp);
            let gb = grouped_recs(s);
            assert(lang_filter(sp, lang).len() > 0);
            assert(gb[k] == rec_add(ga[k], x)) by {
                assert(fold_add(lang_filter(sp, lang).push(x)) == rec_add(
                    fold_add(lang_filter(sp, lang)),
                    x,
                )) by {
                    let g2 = lang_filter(sp, lang).push(x);
                    assert(g2.drop_last() =~= lang_filter(sp, lang));
                    assert(g2.len() > 1);
                }
            }
            assert(ga.remove(k) =~= gb.remove(k)) by {
                assert forall|w: int| 0 <= w < gs.len() && w != k implies gb[w] == ga[w] by {
                    assert(gs[w] != lang);
                }
            }
            super::accumulators::lemma_totals_remove(ga, k);
            super::accumulators::lemma_totals_remove(gb, k);
            lemma_count_sum_remove(ga, k);
            lemma_count_sum_remove(gb, k);
        } else {
            assert(gs == gsp.push(lang));
            assert(lang_filter(sp, lang).len() == 0);
            let ga = grouped_recs(sp);
            let gb = grouped_recs(s);
            assert(gb.drop_last() =~= ga) by {
                assert forall|w: int| 0 <= w < ga.len() implies gb[w] == ga[w] by {
                    lemma_group_langs_distinct(sp);
                    assert(gsp.contains(gsp[w]));
                    lemma_group_langs_complete(sp, gsp[w]);
                }
            }
            assert(gb.last() == x) by {
                assert(lang_filter(s, lang) =~= Seq::<Rec>::empty().push(x));
            }
        }
    }
}

/// Appending a record of a language already grouped at `k` folds it into
/// that one group and leaves every other group untouched.
pub proof fn lemma_grouped_step_existing(sp: Seq<Rec>, x: Rec, k: int)
    requires
        0 <= k < group_langs(sp).len(),
        group_langs(sp)[k] == x.language,
    ensures
        group_langs(sp.push(x)) == group_langs(sp),
        grouped_recs(sp.push(x)) == grouped_recs(sp).update(
            k,
            rec_add(grouped_recs(sp)[k], x),
        ),
{
    let s = sp.push(x);
    let lang = x.language;
    assert(s.drop_last() =~= sp);
    assert(s.last() == x);
    assert(group_langs(sp).contains(lang));
    assert(group_langs(s) == group_langs(sp));
    assert forall|l: LangTag| l != lang implies lang_filter(s, l) == lang_filter(sp, l) by {
        lemma_filter_push_rec(sp, x, |r: Rec| r.language == l);
    }
    lemma_filter_push_rec(sp, x, |r: Rec| r.language == lang);
    assert(lang_filter(s, lang) == lang_filter(sp, lang).push(x));
    lemma_group_langs_complete(sp, lang);
    lemma_group_langs_distinct(sp);
    let ga = grouped_recs(sp);
    let gb = grouped_recs(s);
    assert(gb[k] == rec_add(ga[k], x)) by {
        let g2 = lang_filter(sp, lang).push(x);
        assert(g2.drop_last() =~= lang_filter(sp, lang));
        assert(g2.len() > 1);
    }
    assert forall|w: int| 0 <= w < gb.len() && w != k implies gb[w] == ga[w] by {
        assert(group_langs(sp)[w] != lang);
    }
    assert(gb =~= ga.update(k, rec_add(ga[k], x)));
}

/// Appending a record of a language not yet grouped appends a fresh
/// singleton group.
pub proof fn lemma_grouped_step_new(sp: Seq<Rec>, x: Rec)
    requires
        !group_langs(sp).contains(x.language),
    ensures
        group_langs(sp.push(x)) == group_langs(sp).push(x.language),
        grouped_recs(sp.push(x)) == grouped_recs(sp).push(x),
{
    let s = sp.push(x);
    let lang = x.language;
    assert(s.drop_last() =~= sp);
    assert(s.last() == x);
    assert(group_langs(s) == group_langs(sp).push(lang));
    assert forall|l: LangTag| l != lang implies lang_filter(s, l) == lang_filter(sp, l) by {
        lemma_filter_push_rec(sp, x, |r: Rec| r.language == l);
    }
    lemma_filter_push_rec(sp, x, |r: Rec| r.language == lang);
    lemma_group_langs_complete(sp, lang);
    assert(lang_filter(s, lang) =~= Seq::<Rec>::empty().push(x));
    let ga = grouped_recs(sp);
    let gb = grouped_recs(s);
    assert forall|w: int| 0 <= w < ga.len() implies gb[w] == ga[w] by {
        assert(group_langs(sp).contains(group_langs(sp)[w]));
        assert(group_langs(sp)[w] != lang);
    }
    assert(gb.last() == x);
    assert(gb =~= ga.push(x));
}

/// A record's group carries its group's language; index form used by the
/// grouping loop.
pub proof fn lemma_grouped_langs(s: Seq<Rec>)
    ensures
        forall|j: int|
            0 <= j < group_langs(s).len() ==> (#[trigger] grouped_recs(s)[j]).language
                == group_langs(s)[j],
{
    assert forall|j: int| 0 <= j < group_langs(s).len() implies (#[trigger] grouped_recs(
        s,
    )[j]).language == group_langs(s)[j] by {
        lemma_group_member_lang(s, j);
    }
}

/// Each grouped record's numeric fields are bounded by the sums over the
/// records it was grouped from.
pub proof fn lemma_grouped_entry_bounds(s: Seq<Rec>, j: int)
    requires
        0 <= j < group_langs(s).len(),
    ensures
        grouped_recs(s)[j].lines <= totals_of(s).lines,
        grouped_recs(s)[j].words <= totals_of(s).words,
        grouped_recs(s)[j].chars <= totals_of(s).chars,
        grouped_recs(s)[j].bytes <= totals_of(s).bytes,
        grouped_recs(s)[j].count <= count_sum(s),
{
    let lang = group_langs(s)[j];
    assert(group_langs(s).contains(lang));
    lemma_group_langs_complete(s, lang);
    lemma_lang_filter_members(s, lang);
    lemma_fold_add_fields(lang_filter(s, lang), lang);
    lemma_totals_filter_le(s, |r: Rec| r.language == lang);
}

/// There are never more groups than records.
pub proof fn lemma_group_langs_len(s: Seq<Rec>)
    ensures
        group_langs(s).len() <= s.len(),
    decreases s.len(),
{
    if s.len() > 0 {
        lemma_group_langs_len(s.drop_last());
    }
}

/// Count sums over a prefix never exceed the whole.
pub proof fn lemma_count_sum_prefix(s: Seq<Rec>, i: int)
    requires
        0 <= i <= s.len(),
    ensures
        count_sum(s.take(i)) <= count_sum(s),
    decreases s.len(),
{
    if i < s.len() {
        lemma_count_sum_prefix(s.drop_last(), i);
        assert(s.drop_last().take(i) =~= s.take(i));
    } else {
        assert(s.take(i) =~= s);
    }
}

/// Removing one record splits the count sum.
pub proof fn lemma_count_sum_remove(s: Seq<Rec>, j: int)
    requires
        0 <= j < s.len(),
    ensures
        count_sum(s) == count_sum(s.remove(j)) + s[j].count,
    decreases s.len(),
{
    if j == s.len() - 1 {
        assert(s.remove(j) =~= s.drop_last());
    } else {
        lemma_count_sum_remove(s.drop_last(), j);
        assert(s.remove(j).drop_last() =~= s.drop_last().remove(j));
        assert(s.remove(j).last() == s.last());
    }
}

/// Grouping is idempotent: the grouped form of a grouped list is that list
/// itself, so grouping twice yields the same records, totals and maxima as
/// grouping once.
pub proof fn lemma_group_idempotent(s: Seq<Rec>)
    ensures
        grouped_recs(grouped_recs(s)) == grouped_recs(s),
{
    let u = grouped_recs(s);
    lemma_group_langs_distinct(s);
    assert forall|j: int| 0 <= j < u.len() implies #[trigger] u[j].language == group_langs(s)[j] by {
        lemma_group_member_lang(s, j);
    }
    lemma_group_of_distinct(u);
}

/// A grouped record carries its group's language.
proof fn lemma_group_member_lang(s: Seq<Rec>, j: int)
    requires
        0 <= j < group_langs(s).len(),
    ensures
        grouped_recs(s)[j].language == group_langs(s)[j],
{
    let lang = group_langs(s)[j];
    assert(group_langs(s).contains(lang));
    lemma_group_langs_complete(s, lang);
    lemma_lang_filter_members(s, lang);
    lemma_fold_add_fields(lang_filter(s, lang), lang);
}

/// Grouping a list whose languages are pairwise distinct is the identity.
pub proof fn lemma_group_of_distinct(u: Seq<Rec>)
    requires
        forall|i: int, j: int|
            0 <= i < j < u.len() ==> (#[trigger] u[i]).language != (#[trigger] u[j]).language,
    ensures
        grouped_recs(u) == u,
    decreases u.len(),
{
    reveal(Seq::filter);
    if u.len() == 0 {
        assert(grouped_recs(u) =~= u);
    } else {
        let up = u.drop_last();
        let x = u.last();
        lemma_group_of_distinct(up);
        assert(up.push(x) =~= u);
        assert(!group_langs(up).contains(x.language)) by {
            lemma_group_langs_complete(up, x.language);
            lemma_lang_filter_empty(up, x.language);
        }
        let gs = group_langs(u);
        assert(gs == group_langs(up).push(x.language));
        assert forall|l: LangTag| l != x.language implies lang_filter(u, l) == lang_filter(
            up,
            l,
        ) by {
            lemma_filter_push_rec(up, x, |r: Rec| r.language == l);
        }
        lemma_filter_push_rec(up, x, |r: Rec| r.language == x.language);
        assert(lang_filter(up, x.language) =~= Seq::<Rec>::empty()) by {
            lemma_lang_filter_empty(up, x.language);
        }
        assert(lang_filter(u, x.language) =~= Seq::<Rec>::empty().push(x));
        assert forall|j: int| 0 <= j < u.len() implies grouped_recs(u)[j] == u[j] by {
            if j < u.len() - 1 {
                assert(gs[j] == group_langs(up)[j]);
                lemma_group_langs_distinct(up);
                assert(grouped_recs(up)[j] == up[j]);
                assert(gs[j] != x.language) by {
                    assert(group_langs(up).contains(gs[j]));
                }
            }
        }
        assert(grouped_recs(u) =~= u);
    }
}

/// No record of `s` carries `lang` when its group filter is empty; stated in
/// the contrapositive direction needed above.
proof fn lemma_lang_filter_empty(s: Seq<Rec>, lang: LangTag)
    requires
        forall|i: int| 0 <= i < s.len() ==> (#[trigger] s[i]).language != lang,
    ensures
        lang_filter(s, lang).len() == 0,
    decreases s.len(),
{
    reveal(Seq::filter);
    if s.len() > 0 {
        lemma_lang_filter_empty(s.drop_last(), lang);
        assert(s.drop_last().push(s.last()) =~= s);
        lemma_filter_push_rec(s.drop_last(), s.last(), |r: Rec| r.language == lang);
    }
}

} // verus!
