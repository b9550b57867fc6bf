use vstd::prelude::*;
use vstd::string::*;
use crate::value::{Doc, StructuredValue, entries_view, lemma_object_view};

verus! {

/// Joins the non-empty keys among the first `n` with `.` between them.
pub open spec fn dotted(ks: Seq<Seq<char>>, n: int) -> Seq<char>
    decreases n,
{
    if n <= 0 {
        Seq::empty()
    } else {
        let p = dotted(ks, n - 1);
        if ks[n - 1].len() == 0 {
            p
        } else if p.len() == 0 {
            ks[n - 1]
        } else {
            p + seq!['.'] + ks[n - 1]
        }
    }
}

/// Joins the non-empty keys with `.` between them.
pub fn format_keys(keys: &[&str]) -> (r: String)
    ensures
        r@ == dotted(keys@.map_values(|k: &str| k@), keys@.len() as int),
{
    let ghost ks = keys@.map_values(|k: &str| k@);
    let mut out = String::new();
    let mut i: usize = 0;
    while i < keys.len()
        invariant
            i <= keys@.len(),
            ks == keys@.map_values(|k: &str| k@),
            out@ == dotted(ks, i as int),
        decreases keys@.len() - i,
    {
        let k: &str = keys[i];
        if !k.is_empty() {
            if !out.as_str().is_empty() {
                out.append(".");
                proof {
                    reveal_strlit(".");
                }
            }
            out.append(k);
        }
        i += 1;
    }
    out
}

/// A key under `prefix`: `prefix.k`, or `k` alone when the prefix is empty.
pub open spec fn join_key(prefix: Seq<char>, k: Seq<char>) -> Seq<char> {
    if prefix.len() == 0 {
        k
    } else {
        prefix + seq!['.'] + k
    }
}

/// The text that a leaf flattens to: arrays and null give the empty text.
pub open spec fn leaf_text(d: Doc) -> Seq<char> {
    match d {
        Doc::Text(s) => s,
        Doc::Num(n, _) => n,
        Doc::Bool(b) => if b {
            seq!['t', 'r', 'u', 'e']
        } else {
            seq!['f', 'a', 'l', 's', 'e']
        },
        _ => Seq::empty(),
    }
}

/// The pairs (dotted key, text) of a document under `prefix`, in the order of its entries.
pub open spec fn flat(prefix: Seq<char>, d: Doc) -> Seq<(Seq<char>, Seq<char>)>
    decreases d, 0int,
{
    if d is Obj {
        flat_all(prefix, d->Obj_0, d->Obj_0.len() as int)
    } else {
        seq![(prefix, leaf_text(d))]
    }
}

/// The pairs of the first `n` entries of an object under `prefix`.
pub open spec fn flat_all(prefix: Seq<char>, es: Seq<(Seq<char>, Doc)>, n: int) -> Seq<(Seq<char>, Seq<char>)>
    decreases es, n,
{
    if n <= 0 || n > es.len() {
        seq![]
    } else {
        flat_all(prefix, es, n - 1) + flat(join_key(prefix, es[n - 1].0), es[n - 1].1)
    }
}

/// The model of a list of (key, text) pairs.
pub open spec fn pairs_view(s: Seq<(String, String)>) -> Seq<(Seq<char>, Seq<char>)> {
    Seq::new(s.len(), |i: int| (s[i].0@, s[i].1@))
}

fn leaf_string(v: &StructuredValue) -> (r: String)
    requires
        !(v is Object),
    ensures
        r@ == leaf_text(v@),
{
    match v {
        StructuredValue::Str(s) => s.clone(),
        StructuredValue::Number(n, _) => n.clone(),
        StructuredValue::Bool(b) => {
            if *b {
                proof {
                    reveal_strlit("true");
                }
                "true".to_owned()
            } else {
                proof {
                    reveal_strlit("false");
                }
                "false".to_owned()
            }
        },
        _ => String::new(),
    }
}

/// Appends the pairs of `v` under `prefix` to `out`.
fn flatten_into(prefix: &str, v: &StructuredValue, out: &mut Vec<(String, String)>)
    ensures
        pairs_view(final(out)@) == pairs_view(old(out)@) + flat(prefix@, v@),
    decreases v,
{
    let ghost out0 = pairs_view(out@);
    match v {
        StructuredValue::Object(es) => {
            let ghost ev = entries_view(es@);
            proof {
                lemma_object_view(*es);
            }
            let mut i: usize = 0;
            while i < es.len()
                invariant
                    *v == StructuredValue::Object(*es),
                    i <= es@.len(),
                    ev == entries_view(es@),
                    pairs_view(out@) == out0 + flat_all(prefix@, ev, i as int),
                decreases es@.len() - i,
            {
                proof {
                    assert(decreases_to!(v => v->Object_0));
                    assert(decreases_to!(*es => es@));
                    assert(decreases_to!(es@ => es@[i as int]));
                    assert(decreases_to!(es@[i as int] => es@[i as int].1));
                }
                let mut key = prefix.to_owned();
                if prefix.is_empty() {
                    key = es[i].0.clone();
                } else {
                    key.append(".");
                    key.append(es[i].0.as_str());
                    proof {
                        reveal_strlit(".");
                    }
                }
                assert(key@ == join_key(prefix@, ev[i as int].0));
                flatten_into(key.as_str(), &es[i].1, out);
                assert(pairs_view(out@) =~= out0 + flat_all(prefix@, ev, i + 1));
                i += 1;
            }
        },
        _ => {
            let text = leaf_string(v);
            out.push((prefix.to_owned(), text));
            assert(pairs_view(out@) =~= out0 + flat(prefix@, v@));
        },
    }
}

/// The (dotted key, text) pairs of `v` under `prefix`, in the order of its entries.
pub fn flatten_keys(prefix: &str, v: &StructuredValue) -> (r: Vec<(String, String)>)
    ensures
        pairs_view(r@) == flat(prefix@, v@),
{
    let mut out: Vec<(String, String)> = Vec::new();
    flatten_into(prefix, v, &mut out);
    assert(pairs_view(out@) =~= flat(prefix@, v@));
    out
}

} // verus!
