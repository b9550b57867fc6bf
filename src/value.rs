use vstd::prelude::*;

verus! {

/// The mathematical model of a decoded document.
pub enum Doc {
    Null,
    Bool(bool),
    /// A number: its canonical text and, where it is a non-negative integer that fits
    /// in 64 bits, its value.
    Num(Seq<char>, Option<u64>),
    Text(Seq<char>),
    List(Seq<Doc>),
    Obj(Seq<(Seq<char>, Doc)>),
}

/// A decoded document: the common shape that every source format decodes into.
/// A number is held as its canonical text, with its value where it is a
/// non-negative integer that fits in 64 bits.
#[derive(Debug, PartialEq)]
pub enum StructuredValue {
    Null,
    Bool(bool),
    Number(String, Option<u64>),
    Str(String),
    Array(Vec<StructuredValue>),
    Object(Vec<(String, StructuredValue)>),
}

impl StructuredValue {
    pub open spec fn view(self) -> Doc
        decreases self,
    {
        match self {
            StructuredValue::Null => Doc::Null,
            StructuredValue::Bool(b) => Doc::Bool(b),
            StructuredValue::Number(n, u) => Doc::Num(n@, u),
            StructuredValue::Str(s) => Doc::Text(s@),
            StructuredValue::Array(items) => Doc::List(
                Seq::new(items@.len(), |i: int| if 0 <= i < items@.len() { items@[i].view() } else { Doc::Null }),
            ),
            StructuredValue::Object(entries) => Doc::Obj(
                Seq::new(entries@.len(), |i: int|
                    if 0 <= i < entries@.len() {
                        (entries@[i].0@, entries@[i].1.view())
                    } else {
                        (Seq::empty(), Doc::Null)
                    },
                ),
            ),
        }
    }
}

/// Whether every object in a document has distinct keys, as every decoded document has.
pub open spec fn well_formed(d: Doc) -> bool
    decreases d,
{
    match d {
        Doc::Obj(es) => (forall|i: int, j: int|
            0 <= i < j < es.len() ==> #[trigger] es[i].0 != #[trigger] es[j].0) && (forall|i: int|
            0 <= i < es.len() ==> well_formed(#[trigger] es[i].1)),
        Doc::List(items) => forall|i: int| 0 <= i < items.len() ==> well_formed(#[trigger] items[i]),
        _ => true,
    }
}

/// The model of an object's entries, in order.
pub open spec fn entries_view(es: Seq<(String, StructuredValue)>) -> Seq<(Seq<char>, Doc)> {
    Seq::new(es.len(), |i: int| (es[i].0@, es[i].1.view()))
}

pub proof fn lemma_object_view(es: Vec<(String, StructuredValue)>)
    ensures
        StructuredValue::Object(es).view() == Doc::Obj(entries_view(es@)),
{
    assert(entries_view(es@) =~= StructuredValue::Object(es).view()->Obj_0);
}

impl StructuredValue {
    /// A copy of the whole tree.
    pub fn duplicate(&self) -> (r: StructuredValue)
        ensures
            r@ == self@,
        decreases self,
    {
        match self {
            StructuredValue::Null => StructuredValue::Null,
            StructuredValue::Bool(b) => StructuredValue::Bool(*b),
            StructuredValue::Number(n, u) => StructuredValue::Number(n.clone(), *u),
            StructuredValue::Str(s) => StructuredValue::Str(s.clone()),
            StructuredValue::Array(items) => {
                let mut out: Vec<StructuredValue> = Vec::new();
                let mut i: usize = 0;
                while i < items.len()
                    invariant
                        *self == StructuredValue::Array(*items),
                        i <= items@.len(),
                        out@.len() == i,
                        forall|j: int| 0 <= j < i ==> #[trigger] out@[j].view() == items@[j].view(),
                    decreases items@.len() - i,
                {
                    proof {
                        assert(decreases_to!(self => self->Array_0));
                        assert(decreases_to!(*items => items@));
                        assert(decreases_to!(items@ => items@[i as int]));
                    }
                    let c = items[i].duplicate();
                    out.push(c);
                    i += 1;
                }
                let r = StructuredValue::Array(out);
                assert(r.view()->List_0 =~= self.view()->List_0) by {
                    assert(r.view()->List_0.len() == out@.len());
                    assert forall|j: int| 0 <= j < out@.len() implies r.view()->List_0[j]
                        == self.view()->List_0[j] by {
                        assert(out@[j].view() == items@[j].view());
                    }
                }
                r
            },
            StructuredValue::Object(entries) => {
                let mut out: Vec<(String, StructuredValue)> = Vec::new();
                let mut i: usize = 0;
                while i < entries.len()
                    invariant
                        *self == StructuredValue::Object(*entries),
                        i <= entries@.len(),
                        out@.len() == i,
                        forall|j: int|
                            0 <= j < i ==> #[trigger] out@[j].0@ == entries@[j].0@ && out@[j].1.view()
                                == entries@[j].1.view(),
                    decreases entries@.len() - i,
                {
                    proof {
                        assert(decreases_to!(self => self->Object_0));
                        assert(decreases_to!(*entries => entries@));
                        assert(decreases_to!(entries@ => entries@[i as int]));
                        assert(decreases_to!(entries@[i as int] => entries@[i as int].1));
                    }
                    let c = entries[i].1.duplicate();
                    out.push((entries[i].0.clone(), c));
                    i += 1;
                }
                let r = StructuredValue::Object(out);
                assert(r.view()->Obj_0 =~= self.view()->Obj_0);
                r
            },
        }
    }
}

} // verus!
