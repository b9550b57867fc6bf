use vstd::prelude::*;
use crate::value::{Doc, well_formed};
use crate::merge::{
    key_index, key_index_upto, merge, merge_all, merge_in, entries_well_formed,
    lemma_key_index_upto_range, lemma_merge_all_well_formed,
};
use crate::flatten::{flat, flat_all, join_key, dotted};
use crate::schema::{version_key, version_of, pivot, pivot_entries, pivot_locales, path_of};
use crate::decode::normalized;
use crate::load::{SourceRecord, all_sources, flattened, load_spec};

verus! {

/// A version 1 document becomes the one document of its fallback locale, unchanged.
pub proof fn lemma_v1_is_single_locale(d: Doc, locale: Seq<char>)
    requires
        version_of(d) != 2,
    ensures
        normalized(d, locale) == seq![(locale, d)],
{
}

proof fn lemma_key_index_unique(es: Seq<(Seq<char>, Doc)>, n: int, i: int)
    requires
        0 <= i < n <= es.len(),
        forall|a: int, b: int| 0 <= a < b < es.len() ==> #[trigger] es[a].0 != #[trigger] es[b].0,
    ensures
        key_index_upto(es, es[i].0, n) == i,
    decreases n,
{
    if n - 1 != i {
        lemma_key_index_unique(es, n - 1, i);
    }
}

proof fn lemma_merge_all_self(x: Seq<(Seq<char>, Doc)>, n: int)
    requires
        0 <= n <= x.len(),
        forall|a: int, b: int| 0 <= a < b < x.len() ==> #[trigger] x[a].0 != #[trigger] x[b].0,
        forall|a: int| 0 <= a < x.len() ==> well_formed(#[trigger] x[a].1),
    ensures
        merge_all(x, x, n) == x,
    decreases x, n,
{
    if n > 0 {
        lemma_merge_all_self(x, n - 1);
        lemma_key_index_unique(x, x.len() as int, n - 1);
        lemma_merge_self(x[n - 1].1);
        assert(merge_in(x, x[n - 1].0, x[n - 1].1) =~= x);
    }
}

/// Merging a well-formed document with itself gives the document back.
pub proof fn lemma_merge_self(d: Doc)
    requires
        well_formed(d),
    ensures
        merge(d, d) == d,
    decreases d, 0int,
{
    if d is Obj {
        let x = d->Obj_0;
        lemma_merge_all_self(x, x.len() as int);
    }
}

/// A version 2 document that holds one text `s`, for locale `locale` at key `p`,
/// flattens to that one translation.
pub proof fn lemma_single_leaf(n: Seq<char>, p: Seq<char>, locale: Seq<char>, s: Seq<char>, fallback: Seq<char>)
    requires
        p != version_key(),
    ensures
        flattened(
            normalized(
                Doc::Obj(
                    seq![(version_key(), Doc::Num(n, Some(2u64))), (p, Doc::Obj(seq![(locale, Doc::Text(s))]))],
                ),
                fallback,
            ),
        ) == seq![(locale, seq![(p, s)])],
{
    let leaf = Doc::Obj(seq![(locale, Doc::Text(s))]);
    let es = seq![(version_key(), Doc::Num(n, Some(2u64))), (p, leaf)];
    let d = Doc::Obj(es);
    assert(key_index_upto(es, version_key(), 1) == 0);
    assert(key_index(es, version_key()) == 0);
    assert(version_of(d) == 2);
    let path = path_of(seq![], p);
    let ks = seq![Seq::<char>::empty(), p];
    assert(ks[0].len() == 0);
    assert(dotted(ks, 0) =~= seq![]);
    assert(dotted(ks, 1) =~= seq![]);
    assert(ks =~= seq![seq![], p]);
    assert(path =~= p);
    assert(pivot_entries(seq![], es, 0) =~= seq![]);
    assert(!(es[0].1 is Obj));
    assert(pivot_entries(seq![], es, 1) =~= seq![]);
    let frag = Doc::Obj(seq![(p, Doc::Text(s))]);
    assert(key_index(seq![], locale) == -1);
    assert(pivot_locales(seq![], p, leaf, 0) =~= seq![]);
    assert(merge_in(seq![], locale, frag) =~= seq![(locale, frag)]);
    assert(pivot_locales(seq![], p, leaf, 1) =~= seq![(locale, frag)]);
    assert(pivot_entries(seq![], es, 2) =~= seq![(locale, frag)]);
    let out = pivot(seq![], d);
    assert(out =~= seq![(locale, frag)]);
    let fl = flat(seq![], frag);
    assert(flat(p, Doc::Text(s)) =~= seq![(p, s)]);
    let fes = seq![(p, Doc::Text(s))];
    assert(flat_all(seq![], fes, 0) =~= seq![]);
    assert(join_key(seq![], fes[0].0) == p);
    assert(flat_all(seq![], fes, 1) =~= seq![(p, s)]);
    assert(fl =~= seq![(p, s)]);
    assert(flattened(out) =~= seq![(locale, seq![(p, s)])]);
}

/// Loading with an empty list of runtime sources gives what loading without any does.
pub proof fn lemma_empty_runtime(bundled: Seq<SourceRecord>, runtime: Vec<SourceRecord>)
    requires
        runtime@.len() == 0,
    ensures
        load_spec(all_sources(bundled, Some(runtime))) == load_spec(all_sources(bundled, None)),
{
    assert(bundled + runtime@ =~= bundled);
}

/// The value of the entry keyed `k` among the first `n`, if any.
pub open spec fn value_at_upto(es: Seq<(Seq<char>, Doc)>, k: Seq<char>, n: int) -> Option<Doc> {
    let i = key_index_upto(es, k, n);
    if i >= 0 {
        Some(es[i].1)
    } else {
        None
    }
}

/// The value of the entry keyed `k`, if any.
pub open spec fn value_at(es: Seq<(Seq<char>, Doc)>, k: Seq<char>) -> Option<Doc> {
    value_at_upto(es, k, es.len() as int)
}

/// What a key holds after a merge, from what it held on each side.
pub open spec fn combine(old: Option<Doc>, incoming: Option<Doc>) -> Option<Doc> {
    match incoming {
        None => old,
        Some(w) => match old {
            Some(u) => Some(merge(u, w)),
            None => Some(w),
        },
    }
}

proof fn lemma_key_index_same_keys(s1: Seq<(Seq<char>, Doc)>, s2: Seq<(Seq<char>, Doc)>, k: Seq<char>, n: int)
    requires
        0 <= n <= s1.len(),
        n <= s2.len(),
        forall|i: int| 0 <= i < n ==> s1[i].0 == s2[i].0,
    ensures
        key_index_upto(s1, k, n) == key_index_upto(s2, k, n),
    decreases n,
{
    if n > 0 {
        lemma_key_index_same_keys(s1, s2, k, n - 1);
    }
}

proof fn lemma_merge_in_at(es: Seq<(Seq<char>, Doc)>, k2: Seq<char>, d: Doc, k: Seq<char>)
    requires
        entries_well_formed(es),
    ensures
        value_at(merge_in(es, k2, d), k) == if k == k2 {
            combine(value_at(es, k), Some(d))
        } else {
            value_at(es, k)
        },
{
    lemma_key_index_upto_range(es, k2, es.len() as int);
    lemma_key_index_upto_range(es, k, es.len() as int);
    let r = merge_in(es, k2, d);
    let i = key_index(es, k2);
    if i >= 0 {
        assert forall|a: int| 0 <= a < es.len() implies es[a].0 == r[a].0 by {}
        lemma_key_index_same_keys(es, r, k, es.len() as int);
    } else {
        assert forall|a: int| 0 <= a < es.len() implies es[a].0 == r[a].0 by {}
        lemma_key_index_same_keys(es, r, k, es.len() as int);
        assert(key_index_upto(r, k, r.len() as int) == if k == k2 {
            es.len() as int
        } else {
            key_index_upto(r, k, es.len() as int)
        });
    }
}

proof fn lemma_merge_all_at(x: Seq<(Seq<char>, Doc)>, y: Seq<(Seq<char>, Doc)>, k: Seq<char>, n: int)
    requires
        entries_well_formed(x),
        entries_well_formed(y),
        0 <= n <= y.len(),
    ensures
        value_at(merge_all(x, y, n), k) == combine(value_at(x, k), value_at_upto(y, k, n)),
    decreases n,
{
    if n > 0 {
        lemma_merge_all_at(x, y, k, n - 1);
        lemma_merge_all_well_formed(x, y, n - 1);
        lemma_merge_in_at(merge_all(x, y, n - 1), y[n - 1].0, y[n - 1].1, k);
        lemma_key_index_upto_range(y, k, n - 1);
        if y[n - 1].0 == k {
            assert(key_index_upto(y, k, n - 1) == -1);
        }
    }
}

/// Deep merge of two objects, key by key: a key that only one side has keeps its
/// value, a key that both have holds the merge of the two values.
pub proof fn lemma_merge_by_key(x: Seq<(Seq<char>, Doc)>, y: Seq<(Seq<char>, Doc)>, k: Seq<char>)
    requires
        entries_well_formed(x),
        entries_well_formed(y),
    ensures
        value_at(merge(Doc::Obj(x), Doc::Obj(y))->Obj_0, k) == combine(value_at(x, k), value_at(y, k)),
{
    lemma_merge_all_at(x, y, k, y.len() as int);
}

/// Where the two sides are not both objects, the incoming value wins outright.
pub proof fn lemma_merge_incoming_wins(a: Doc, b: Doc)
    requires
        !(a is Obj && b is Obj),
    ensures
        merge(a, b) == b,
{
}

} // verus!
