use vstd::prelude::*;
use crate::value::{Doc, StructuredValue, entries_view};
use crate::merge::merge_all;
use crate::flatten::{flat, flatten_keys, pairs_view};
use crate::decode::{ParseError, parsed, parse_file};
use crate::schema::merge_entries;

verus! {

/// One source of translations: where it came from, the locale that its file name
/// gives, its extension and its text.
#[derive(Debug, Clone)]
pub struct SourceRecord {
    pub path: String,
    pub locale: String,
    pub ext: String,
    pub content: String,
}

/// A source that could not be read, and why.
#[derive(Debug)]
pub struct LoadError {
    pub path: String,
    pub error: ParseError,
}

/// Locale code to (dotted key, text) pairs; where a key repeats, the later pair holds.
pub type FlatTable = Vec<(String, Vec<(String, String)>)>;

/// The locale documents that a source gives, where it gives any.
pub open spec fn source_parsed(s: SourceRecord) -> Option<Seq<(Seq<char>, Doc)>> {
    parsed(s.content@, s.ext@, s.locale@)
}

/// Whether each of the first `n` sources can be read.
pub open spec fn all_parse(srcs: Seq<SourceRecord>, n: int) -> bool {
    forall|i: int| 0 <= i < n ==> (#[trigger] source_parsed(srcs[i])) is Some
}

/// The locale documents of the first `n` sources, each merged in turn over those before.
pub open spec fn accumulated(srcs: Seq<SourceRecord>, n: int) -> Seq<(Seq<char>, Doc)>
    decreases n,
{
    if n <= 0 {
        seq![]
    } else {
        let t = source_parsed(srcs[n - 1])->0;
        merge_all(accumulated(srcs, n - 1), t, t.len() as int)
    }
}

/// Each locale document flattened from the empty prefix.
pub open spec fn flattened(acc: Seq<(Seq<char>, Doc)>) -> Seq<(Seq<char>, Seq<(Seq<char>, Seq<char>)>)> {
    Seq::new(acc.len(), |i: int| (acc[i].0, flat(seq![], acc[i].1)))
}

/// The model of a flat table.
pub open spec fn table_view(t: Seq<(String, Vec<(String, String)>)>) -> Seq<(Seq<char>, Seq<(Seq<char>, Seq<char>)>)> {
    Seq::new(t.len(), |i: int| (t[i].0@, pairs_view(t[i].1@)))
}

/// The table that a list of sources gives, where every source can be read.
pub open spec fn load_spec(srcs: Seq<SourceRecord>) -> Option<Seq<(Seq<char>, Seq<(Seq<char>, Seq<char>)>)>> {
    if all_parse(srcs, srcs.len() as int) {
        Some(flattened(accumulated(srcs, srcs.len() as int)))
    } else {
        None
    }
}

/// The error of a load names the first source that cannot be read.
pub open spec fn first_failure(srcs: Seq<SourceRecord>, e: LoadError) -> bool {
    exists|i: int|
        0 <= i < srcs.len() && all_parse(srcs, i) && source_parsed(#[trigger] srcs[i]) is None
            && e.path@ == srcs[i].path@
}

/// Reads every source in order, merges each locale's documents and flattens them.
/// Fails on the first source that cannot be read.
pub fn load_locales(sources: &Vec<SourceRecord>) -> (r: Result<FlatTable, LoadError>)
    ensures
        r is Ok <==> load_spec(sources@) is Some,
        match r {
            Ok(t) => load_spec(sources@) == Some(table_view(t@)),
            Err(e) => first_failure(sources@, e),
        },
{
    let mut acc: Vec<(String, StructuredValue)> = Vec::new();
    let mut i: usize = 0;
    assert(entries_view(acc@) =~= seq![]);
    while i < sources.len()
        invariant
            i <= sources@.len(),
            all_parse(sources@, i as int),
            entries_view(acc@) == accumulated(sources@, i as int),
        decreases sources@.len() - i,
    {
        let src = &sources[i];
        match parse_file(src.content.as_str(), src.ext.as_str(), src.locale.as_str()) {
            Ok(trs) => {
                merge_entries(&mut acc, &trs);
            },
            Err(e) => {
                let err = LoadError { path: src.path.clone(), error: e };
                assert(source_parsed(sources@[i as int]) is None);
                assert(!all_parse(sources@, sources@.len() as int));
                return Err(err);
            },
        }
        i += 1;
    }
    let mut table: FlatTable = Vec::new();
    let mut k: usize = 0;
    while k < acc.len()
        invariant
            k <= acc@.len(),
            table@.len() == k,
            entries_view(acc@) == accumulated(sources@, sources@.len() as int),
            forall|j: int|
                0 <= j < k ==> #[trigger] table_view(table@)[j] == flattened(entries_view(acc@))[j],
        decreases acc@.len() - k,
    {
        let pairs = flatten_keys("", &acc[k].1);
        proof {
            reveal_strlit("");
            assert(""@ =~= seq![]);
        }
        let ghost before = table@;
        table.push((acc[k].0.clone(), pairs));
        assert forall|j: int| 0 <= j < k + 1 implies #[trigger] table_view(table@)[j] == flattened(
            entries_view(acc@),
        )[j] by {
            if j < k {
                assert(table@[j] == before[j]);
                assert(table_view(before)[j] == flattened(entries_view(acc@))[j]);
            }
        }
        k += 1;
    }
    assert(table_view(table@) =~= flattened(entries_view(acc@)));
    Ok(table)
}

/// Loads the bundled sources, then the runtime ones, if any, on top of them.
pub fn load_data(bundled: Vec<SourceRecord>, runtime: Option<Vec<SourceRecord>>) -> (r: Result<FlatTable, LoadError>)
    ensures
        r is Ok <==> load_spec(all_sources(bundled@, runtime)) is Some,
        match r {
            Ok(t) => load_spec(all_sources(bundled@, runtime)) == Some(table_view(t@)),
            Err(e) => first_failure(all_sources(bundled@, runtime), e),
        },
{
    let mut all = bundled;
    match runtime {
        Some(mut extra) => {
            all.append(&mut extra);
        },
        None => {},
    }
    load_locales(&all)
}

/// The bundled sources followed by the runtime ones.
pub open spec fn all_sources(bundled: Seq<SourceRecord>, runtime: Option<Vec<SourceRecord>>) -> Seq<SourceRecord> {
    match runtime {
        Some(rt) => bundled + rt@,
        None => bundled,
    }
}

} // verus!
