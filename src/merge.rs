use vstd::prelude::*;
use crate::value::{Doc, StructuredValue, entries_view, lemma_object_view, well_formed};

verus! {

/// Position of the last entry among the first `n` whose key is `k`, or -1.
pub open spec fn key_index_upto(es: Seq<(Seq<char>, Doc)>, k: Seq<char>, n: int) -> int
    decreases n,
{
    if n <= 0 {
        -1
    } else if es[n - 1].0 == k {
        n - 1
    } else {
        key_index_upto(es, k, n - 1)
    }
}

/// Position of the entry whose key is `k`, or -1.
pub open spec fn key_index(es: Seq<(Seq<char>, Doc)>, k: Seq<char>) -> int {
    key_index_upto(es, k, es.len() as int)
}

/// Deep merge: objects take the union of their keys and merge the shared ones;
/// in every other case the incoming value wins.
pub open spec fn merge(a: Doc, b: Doc) -> Doc
    decreases b, 0int,
{
    if a is Obj && b is Obj {
        Doc::Obj(merge_all(a->Obj_0, b->Obj_0, b->Obj_0.len() as int))
    } else {
        b
    }
}

/// Merges `d` into the entry keyed `k`, or appends the entry when there is none.
pub open spec fn merge_in(es: Seq<(Seq<char>, Doc)>, k: Seq<char>, d: Doc) -> Seq<(Seq<char>, Doc)>
    decreases d, 1int,
{
    let i = key_index(es, k);
    if i >= 0 {
        es.update(i, (k, merge(es[i].1, d)))
    } else {
        es.push((k, d))
    }
}

/// Merges the first `n` entries of `ys`, in order, into `es`.
pub open spec fn merge_all(es: Seq<(Seq<char>, Doc)>, ys: Seq<(Seq<char>, Doc)>, n: int) -> Seq<(Seq<char>, Doc)>
    decreases ys, n,
{
    if n <= 0 || n > ys.len() {
        es
    } else {
        merge_in(merge_all(es, ys, n - 1), ys[n - 1].0, ys[n - 1].1)
    }
}

pub proof fn lemma_key_index_upto_range(es: Seq<(Seq<char>, Doc)>, k: Seq<char>, n: int)
    requires
        0 <= n <= es.len(),
    ensures
        -1 <= key_index_upto(es, k, n) < n,
        key_index_upto(es, k, n) >= 0 ==> es[key_index_upto(es, k, n)].0 == k,
        key_index_upto(es, k, n) == -1 ==> forall|i: int| 0 <= i < n ==> #[trigger] es[i].0 != k,
    decreases n,
{
    if n > 0 {
        lemma_key_index_upto_range(es, k, n - 1);
    }
}

/// Whether the entries have distinct keys and well-formed values.
pub open spec fn entries_well_formed(es: Seq<(Seq<char>, Doc)>) -> bool {
    (forall|i: int, j: int| 0 <= i < j < es.len() ==> #[trigger] es[i].0 != #[trigger] es[j].0)
        && (forall|i: int| 0 <= i < es.len() ==> well_formed(#[trigger] es[i].1))
}

/// Merging well-formed documents gives a well-formed document.
pub proof fn lemma_merge_well_formed(a: Doc, b: Doc)
    requires
        well_formed(a),
        well_formed(b),
    ensures
        well_formed(merge(a, b)),
    decreases b, 0int,
{
    if a is Obj && b is Obj {
        let y = b->Obj_0;
        lemma_merge_all_well_formed(a->Obj_0, y, y.len() as int);
        assert(entries_well_formed(merge(a, b)->Obj_0));
    }
}

proof fn lemma_merge_in_well_formed(es: Seq<(Seq<char>, Doc)>, k: Seq<char>, d: Doc)
    requires
        entries_well_formed(es),
        well_formed(d),
    ensures
        entries_well_formed(merge_in(es, k, d)),
    decreases d, 1int,
{
    lemma_key_index_upto_range(es, k, es.len() as int);
    let i = key_index(es, k);
    if i >= 0 {
        lemma_merge_well_formed(es[i].1, d);
        let r = merge_in(es, k, d);
        assert forall|a: int| 0 <= a < r.len() implies well_formed(#[trigger] r[a].1) by {
            if a != i {
                assert(r[a] == es[a]);
            }
        }
        assert forall|a: int, b: int| 0 <= a < b < r.len() implies #[trigger] r[a].0 != #[trigger] r[b].0 by {
            assert(r[a].0 == es[a].0);
            assert(r[b].0 == es[b].0);
        }
    } else {
        let r = merge_in(es, k, d);
        assert forall|a: int| 0 <= a < r.len() implies well_formed(#[trigger] r[a].1) by {
            if a < es.len() {
                assert(r[a] == es[a]);
            }
        }
        assert forall|a: int, b: int| 0 <= a < b < r.len() implies #[trigger] r[a].0 != #[trigger] r[b].0 by {
            assert(r[a] == es[a]);
            if b < es.len() {
                assert(r[b] == es[b]);
            }
        }
    }
}

pub(crate) proof fn lemma_merge_all_well_formed(es: Seq<(Seq<char>, Doc)>, ys: Seq<(Seq<char>, Doc)>, n: int)
    requires
        entries_well_formed(es),
        entries_well_formed(ys),
    ensures
        entries_well_formed(merge_all(es, ys, n)),
    decreases ys, n,
{
    if n > 0 && n <= ys.len() {
        lemma_merge_all_well_formed(es, ys, n - 1);
        lemma_merge_in_well_formed(merge_all(es, ys, n - 1), ys[n - 1].0, ys[n - 1].1);
    }
}

/// Finds the entry keyed `k`.
pub(crate) fn find_key(es: &Vec<(String, StructuredValue)>, k: &String) -> (r: Option<usize>)
    ensures
        match r {
            Some(i) => i as int == key_index(entries_view(es@), k@) && i < es@.len(),
            None => key_index(entries_view(es@), k@) == -1,
        },
{
    let ghost ev = entries_view(es@);
    let mut i: usize = es.len();
    while i > 0
        invariant
            i <= es@.len(),
            ev == entries_view(es@),
            key_index(ev, k@) == key_index_upto(ev, k@, i as int),
        decreases i,
    {
        if es[i - 1].0 == *k {
            return Some(i - 1);
        }
        i -= 1;
    }
    None
}

/// Merges `v` into the entry keyed `k` of `es`, or appends a copy of it.
pub(crate) fn merge_entry(es: &mut Vec<(String, StructuredValue)>, k: &String, v: &StructuredValue)
    ensures
        entries_view(final(es)@) == merge_in(entries_view(old(es)@), k@, v@),
    decreases v, 1int,
{
    let ghost ev = entries_view(es@);
    proof {
        lemma_key_index_upto_range(ev, k@, ev.len() as int);
    }
    match find_key(es, k) {
        Some(i) => {
            let (key, mut slot) = es.remove(i);
            merge_value(&mut slot, v);
            es.insert(i, (key, slot));
            assert(entries_view(es@) =~= merge_in(ev, k@, v@));
        },
        None => {
            es.push((k.clone(), v.duplicate()));
            assert(entries_view(es@) =~= merge_in(ev, k@, v@));
        },
    }
}

/// Merges `b` into `a`: objects take the union of their keys, recursively; in every
/// other case `a` becomes a copy of `b`.
pub fn merge_value(a: &mut StructuredValue, b: &StructuredValue)
    ensures
        final(a)@ == merge(old(a)@, b@),
        well_formed(old(a)@) && well_formed(b@) ==> well_formed(final(a)@),
    decreases b, 0int,
{
    proof {
        if well_formed(a@) && well_formed(b@) {
            lemma_merge_well_formed(a@, b@);
        }
    }
    match b {
        StructuredValue::Object(ys) => {
            let mut cur = StructuredValue::Null;
            std::mem::swap(a, &mut cur);
            match cur {
                StructuredValue::Object(mut xs) => {
                    let ghost x0 = entries_view(xs@);
                    let ghost yv = entries_view(ys@);
                    proof {
                        lemma_object_view(xs);
                        lemma_object_view(*ys);
                    }
                    let mut j: usize = 0;
                    while j < ys.len()
                        invariant
                            *b == StructuredValue::Object(*ys),
                            j <= ys@.len(),
                            yv == entries_view(ys@),
                            entries_view(xs@) == merge_all(x0, yv, j as int),
                        decreases ys@.len() - j,
                    {
                        proof {
                            assert(decreases_to!(b => b->Object_0));
                            assert(decreases_to!(*ys => ys@));
                            assert(decreases_to!(ys@ => ys@[j as int]));
                            assert(decreases_to!(ys@[j as int] => ys@[j as int].1));
                        }
                        merge_entry(&mut xs, &ys[j].0, &ys[j].1);
                        j += 1;
                    }
                    *a = StructuredValue::Object(xs);
                    proof {
                        lemma_object_view(xs);
                    }
                },
                _ => {
                    *a = b.duplicate();
                },
            }
        },
        _ => {
            *a = b.duplicate();
        },
    }
}

} // verus!
