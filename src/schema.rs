use vstd::prelude::*;
use crate::value::{Doc, StructuredValue, entries_view, lemma_object_view};
use crate::merge::{key_index, merge_in, merge_all, merge_entry, find_key, lemma_key_index_upto_range};
use crate::flatten::{dotted, format_keys};

verus! {

/// The key that holds a document's schema version.
pub open spec fn version_key() -> Seq<char> {
    seq!['_', 'v', 'e', 'r', 's', 'i', 'o', 'n']
}

/// The schema version of a document: the integer under `_version` at its root,
/// or 1 where the root is no object or that value is missing or not such an integer.
pub open spec fn version_of(d: Doc) -> u64 {
    if d is Obj && key_index(d->Obj_0, version_key()) >= 0 {
        let v = d->Obj_0[key_index(d->Obj_0, version_key())].1;
        if v is Num && v->Num_1 is Some {
            v->Num_1->0
        } else {
            1
        }
    } else {
        1
    }
}

/// The dotted path of `key` under `prefix`, empty parts left out.
pub open spec fn path_of(prefix: Seq<char>, key: Seq<char>) -> Seq<char> {
    dotted(seq![prefix, key], 2)
}

/// The locale-major documents that a key-major document gives under `prefix`.
pub open spec fn pivot(prefix: Seq<char>, d: Doc) -> Seq<(Seq<char>, Doc)>
    decreases d, 0int,
{
    if d is Obj {
        pivot_entries(prefix, d->Obj_0, d->Obj_0.len() as int)
    } else {
        seq![]
    }
}

/// What the first `n` entries of an object give under `prefix`.
pub open spec fn pivot_entries(prefix: Seq<char>, es: Seq<(Seq<char>, Doc)>, n: int) -> Seq<(Seq<char>, Doc)>
    decreases es, n,
{
    if n <= 0 || n > es.len() {
        seq![]
    } else {
        let acc = pivot_entries(prefix, es, n - 1);
        let value = es[n - 1].1;
        if value is Obj {
            pivot_locales(acc, path_of(prefix, es[n - 1].0), value, value->Obj_0.len() as int)
        } else {
            acc
        }
    }
}

/// Adds to `acc` what the first `m` entries of the object `value` give at `path`: a
/// text is that locale's translation of `path`; an object has the whole of `value`
/// pivoted again under `path`.
pub open spec fn pivot_locales(acc: Seq<(Seq<char>, Doc)>, path: Seq<char>, value: Doc, m: int) -> Seq<(Seq<char>, Doc)>
    decreases value, m,
{
    if !(value is Obj) || m <= 0 || m > value->Obj_0.len() {
        acc
    } else {
        let acc2 = pivot_locales(acc, path, value, m - 1);
        let (locale, text) = value->Obj_0[m - 1];
        if text is Text {
            merge_in(acc2, locale, Doc::Obj(seq![(path, text)]))
        } else if text is Obj {
            let inner = pivot(path, value);
            merge_all(acc2, inner, inner.len() as int)
        } else {
            acc2
        }
    }
}

/// Merges each entry of `ys`, in order, into `acc`.
pub fn merge_entries(acc: &mut Vec<(String, StructuredValue)>, ys: &Vec<(String, StructuredValue)>)
    ensures
        entries_view(final(acc)@) == merge_all(entries_view(old(acc)@), entries_view(ys@), ys@.len() as int),
{
    let ghost a0 = entries_view(acc@);
    let ghost yv = entries_view(ys@);
    let mut j: usize = 0;
    while j < ys.len()
        invariant
            j <= ys@.len(),
            yv == entries_view(ys@),
            entries_view(acc@) == merge_all(a0, yv, j as int),
        decreases ys@.len() - j,
    {
        merge_entry(acc, &ys[j].0, &ys[j].1);
        j += 1;
    }
}

/// Reads the schema version of a document.
pub fn get_version(data: &StructuredValue) -> (r: u64)
    ensures
        r == version_of(data@),
{
    match data {
        StructuredValue::Object(es) => {
            proof {
                lemma_object_view(*es);
                lemma_key_index_upto_range(entries_view(es@), version_key(), es@.len() as int);
                reveal_strlit("_version");
            }
            let name = "_version".to_owned();
            assert(name@ == version_key());
            match find_key(es, &name) {
                Some(i) => match &es[i].1 {
                    StructuredValue::Number(_, Some(u)) => *u,
                    _ => 1,
                },
                None => 1,
            }
        },
        _ => 1,
    }
}

/// Pivots a key-major document into one document per locale.
pub fn pivot_doc(key_prefix: &str, data: &StructuredValue) -> (r: Vec<(String, StructuredValue)>)
    ensures
        entries_view(r@) == pivot(key_prefix@, data@),
    decreases data, 0int,
{
    let mut trs: Vec<(String, StructuredValue)> = Vec::new();
    match data {
        StructuredValue::Object(es) => {
            let ghost ev = entries_view(es@);
            proof {
                lemma_object_view(*es);
            }
            let mut i: usize = 0;
            while i < es.len()
                invariant
                    *data == StructuredValue::Object(*es),
                    i <= es@.len(),
                    ev == entries_view(es@),
                    entries_view(trs@) == pivot_entries(key_prefix@, ev, i as int),
                decreases es@.len() - i,
            {
                let value = &es[i].1;
                match value {
                    StructuredValue::Object(sub) => {
                        let parts: [&str; 2] = [key_prefix, es[i].0.as_str()];
                        let key = format_keys(parts.as_slice());
                        assert(parts@.map_values(|k: &str| k@) =~= seq![key_prefix@, ev[i as int].0]);
                        let ghost sv = entries_view(sub@);
                        let ghost acc0 = entries_view(trs@);
                        proof {
                            lemma_object_view(*sub);
                        }
                        let mut j: usize = 0;
                        while j < sub.len()
                            invariant
                                *data == StructuredValue::Object(*es),
                                i < es@.len(),
                                ev == entries_view(es@),
                                *value == es@[i as int].1,
                                *value == StructuredValue::Object(*sub),
                                j <= sub@.len(),
                                sv == entries_view(sub@),
                                value@ == Doc::Obj(sv),
                                entries_view(trs@) == pivot_locales(acc0, key@, value@, j as int),
                            decreases sub@.len() - j,
                        {
                            let text = &sub[j].1;
                            match text {
                                StructuredValue::Str(_) => {
                                    let mut one: Vec<(String, StructuredValue)> = Vec::new();
                                    one.push((key.clone(), text.duplicate()));
                                    proof {
                                        lemma_object_view(one);
                                        assert(entries_view(one@) =~= seq![(key@, text@)]);
                                    }
                                    let frag = StructuredValue::Object(one);
                                    merge_entry(&mut trs, &sub[j].0, &frag);
                                },
                                StructuredValue::Object(_) => {
                                    proof {
                                        assert(decreases_to!(data => data->Object_0));
                                        assert(decreases_to!(*es => es@));
                                        assert(decreases_to!(es@ => es@[i as int]));
                                        assert(decreases_to!(es@[i as int] => es@[i as int].1));
                                    }
                                    let inner = pivot_doc(key.as_str(), value);
                                    merge_entries(&mut trs, &inner);
                                },
                                _ => {},
                            }
                            j += 1;
                        }
                    },
                    _ => {},
                }
                i += 1;
            }
        },
        _ => {},
    }
    trs
}

} // verus!
