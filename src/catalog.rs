use vstd::prelude::*;
use crate::load::{FlatTable, table_view};
use crate::flatten::pairs_view;

verus! {

/// The text of the last pair keyed `key` among the first `n`.
pub open spec fn find_text(ps: Seq<(Seq<char>, Seq<char>)>, key: Seq<char>, n: int) -> Option<Seq<char>>
    decreases n,
{
    if n <= 0 {
        None
    } else if ps[n - 1].0 == key {
        Some(ps[n - 1].1)
    } else {
        find_text(ps, key, n - 1)
    }
}

/// The pairs of the last table entry for `locale` among the first `n`.
pub open spec fn find_locale(
    t: Seq<(Seq<char>, Seq<(Seq<char>, Seq<char>)>)>,
    locale: Seq<char>,
    n: int,
) -> Option<Seq<(Seq<char>, Seq<char>)>>
    decreases n,
{
    if n <= 0 {
        None
    } else if t[n - 1].0 == locale {
        Some(t[n - 1].1)
    } else {
        find_locale(t, locale, n - 1)
    }
}

/// The translation of `key` for `locale` in a table.
pub open spec fn lookup(t: Seq<(Seq<char>, Seq<(Seq<char>, Seq<char>)>)>, locale: Seq<char>, key: Seq<char>) -> Option<Seq<char>> {
    match find_locale(t, locale, t.len() as int) {
        Some(ps) => find_text(ps, key, ps.len() as int),
        None => None,
    }
}

/// A loaded table and the locale currently selected.
#[derive(Debug)]
pub struct PluginI18n {
    pub data: FlatTable,
    pub locale: String,
}

fn copy_pairs(ps: &Vec<(String, String)>) -> (r: Vec<(String, String)>)
    ensures
        pairs_view(r@) == pairs_view(ps@),
{
    let mut out: Vec<(String, String)> = Vec::new();
    let mut i: usize = 0;
    while i < ps.len()
        invariant
            i <= ps@.len(),
            out@.len() == i,
            forall|j: int| 0 <= j < i ==> #[trigger] out@[j] == ps@[j],
        decreases ps@.len() - i,
    {
        out.push((ps[i].0.clone(), ps[i].1.clone()));
        i += 1;
    }
    assert(out@ =~= ps@);
    out
}

impl PluginI18n {
    /// A catalog over `data` with `locale` selected.
    pub fn new(locale: String, data: FlatTable) -> (r: Self)
        ensures
            r.locale@ == locale@,
            table_view(r.data@) == table_view(data@),
    {
        PluginI18n { data, locale }
    }

    /// The locale codes of the table, in its order.
    pub fn available_locales(&self) -> (r: Vec<String>)
        ensures
            r@.len() == self.data@.len(),
            forall|i: int| 0 <= i < r@.len() ==> #[trigger] r@[i]@ == self.data@[i].0@,
    {
        let mut out: Vec<String> = Vec::new();
        let mut i: usize = 0;
        while i < self.data.len()
            invariant
                i <= self.data@.len(),
                out@.len() == i,
                forall|j: int| 0 <= j < i ==> #[trigger] out@[j]@ == self.data@[j].0@,
            decreases self.data@.len() - i,
        {
            out.push(self.data[i].0.clone());
            i += 1;
        }
        out
    }

    /// The translation of `key` for the selected locale.
    pub fn translate(&self, key: &str) -> (r: Option<String>)
        ensures
            match r {
                Some(s) => lookup(table_view(self.data@), self.locale@, key@) == Some(s@),
                None => lookup(table_view(self.data@), self.locale@, key@) is None,
            },
    {
        let ghost t = table_view(self.data@);
        let mut i: usize = self.data.len();
        while i > 0
            invariant
                i <= self.data@.len(),
                t == table_view(self.data@),
                find_locale(t, self.locale@, t.len() as int) == find_locale(t, self.locale@, i as int),
            decreases i,
        {
            if self.data[i - 1].0 == self.locale {
                let ps = &self.data[i - 1].1;
                let ghost pv = pairs_view(ps@);
                assert(t[i - 1].1 == pv);
                assert(find_locale(t, self.locale@, i as int) == Some(pv));
                let k = key.to_owned();
                let mut j: usize = ps.len();
                while j > 0
                    invariant
                        j <= ps@.len(),
                        pv == pairs_view(ps@),
                        t == table_view(self.data@),
                        lookup(t, self.locale@, key@) == find_text(pv, key@, pv.len() as int),
                        k@ == key@,
                        find_text(pv, key@, pv.len() as int) == find_text(pv, key@, j as int),
                    decreases j,
                {
                    if ps[j - 1].0 == k {
                        return Some(ps[j - 1].1.clone());
                    }
                    j -= 1;
                }
                return None;
            }
            i -= 1;
        }
        None
    }

    /// A copy of the whole table.
    pub fn get_translations_data(&self) -> (r: FlatTable)
        ensures
            table_view(r@) == table_view(self.data@),
    {
        let mut out: FlatTable = Vec::new();
        let mut i: usize = 0;
        while i < self.data.len()
            invariant
                i <= self.data@.len(),
                out@.len() == i,
                forall|j: int| 0 <= j < i ==> #[trigger] table_view(out@)[j] == table_view(self.data@)[j],
            decreases self.data@.len() - i,
        {
            let ghost before = out@;
            let ps = copy_pairs(&self.data[i].1);
            out.push((self.data[i].0.clone(), ps));
            assert forall|j: int| 0 <= j < i + 1 implies #[trigger] table_view(out@)[j] == table_view(
                self.data@,
            )[j] by {
                if j < i {
                    assert(out@[j] == before[j]);
                    assert(table_view(before)[j] == table_view(self.data@)[j]);
                }
            }
            i += 1;
        }
        assert(table_view(out@) =~= table_view(self.data@));
        out
    }

    /// Selects another locale.
    pub fn set_locale(&mut self, locale: &str)
        ensures
            final(self).locale@ == locale@,
            final(self).data == old(self).data,
    {
        self.locale = locale.to_owned();
    }

    /// The locale selected.
    pub fn get_locale(&self) -> (r: String)
        ensures
            r@ == self.locale@,
    {
        self.locale.clone()
    }
}

} // verus!
