//! Key/value parameters of a deep link.
//!
//! A small string-keyed mapping kept as an entry list with pairwise distinct
//! keys; its mathematical face is a `Map<Seq<char>, Seq<char>>`. Inserting an
//! existing key replaces its value, so the last write wins.

use vstd::prelude::*;
use vstd::string::StrSliceExecFns;
use crate::text::str_eq;

verus! {

/// The mapping an entry list denotes: each entry binds its key, and a later
/// entry for the same key wins.
pub open spec fn map_of(es: Seq<(Seq<char>, Seq<char>)>) -> Map<Seq<char>, Seq<char>>
    decreases es.len(),
{
    if es.len() == 0 {
        Map::empty()
    } else {
        map_of(es.drop_last()).insert(es.last().0, es.last().1)
    }
}

/// No key occurs twice in the entry list.
pub open spec fn distinct_keys(es: Seq<(Seq<char>, Seq<char>)>) -> bool {
    forall|i: int, j: int| 0 <= i < j < es.len() ==> (#[trigger] es[i]).0 != (#[trigger] es[j]).0
}

proof fn lemma_map_of_present(es: Seq<(Seq<char>, Seq<char>)>, i: int)
    requires
        distinct_keys(es),
        0 <= i < es.len(),
    ensures
        map_of(es).contains_key(es[i].0),
        map_of(es)[es[i].0] == es[i].1,
    decreases es.len(),
{
    if i < es.len() - 1 {
        assert(es.drop_last()[i] == es[i]);
        lemma_map_of_present(es.drop_last(), i);
        assert(es[i].0 != es.last().0);
    }
}

proof fn lemma_map_of_absent(es: Seq<(Seq<char>, Seq<char>)>, k: Seq<char>)
    requires
        forall|i: int| 0 <= i < es.len() ==> (#[trigger] es[i]).0 != k,
    ensures
        !map_of(es).contains_key(k),
    decreases es.len(),
{
    if es.len() > 0 {
        lemma_map_of_absent(es.drop_last(), k);
    }
}

proof fn lemma_map_of_dom(es: Seq<(Seq<char>, Seq<char>)>)
    requires
        distinct_keys(es),
    ensures
        map_of(es).dom().finite(),
        map_of(es).dom().len() == es.len(),
    decreases es.len(),
{
    if es.len() > 0 {
        lemma_map_of_dom(es.drop_last());
        lemma_map_of_absent(es.drop_last(), es.last().0);
        assert(map_of(es).dom() =~= map_of(es.drop_last()).dom().insert(es.last().0));
    }
}

proof fn lemma_map_of_update(es: Seq<(Seq<char>, Seq<char>)>, i: int, v: Seq<char>)
    requires
        distinct_keys(es),
        0 <= i < es.len(),
    ensures
        map_of(es.update(i, (es[i].0, v))) =~= map_of(es).insert(es[i].0, v),
    decreases es.len(),
{
    let k = es[i].0;
    let up = es.update(i, (k, v));
    if i == es.len() - 1 {
        assert(up.drop_last() =~= es.drop_last());
        assert(up.last() == (k, v));
    } else {
        assert(up.drop_last() =~= es.drop_last().update(i, (k, v)));
        assert(es.drop_last()[i] == es[i]);
        lemma_map_of_update(es.drop_last(), i, v);
        assert(up.last() == es.last());
        assert(es.last().0 != k);
    }
}

/// A string-to-string parameter table with unique keys.
#[derive(Debug, Clone, PartialEq)]
pub struct ParamMap {
    entries: Vec<(String, String)>,
}

impl View for ParamMap {
    type V = Map<Seq<char>, Seq<char>>;

    closed spec fn view(&self) -> Map<Seq<char>, Seq<char>> {
        map_of(self.entries.deep_view())
    }
}

impl ParamMap {
    /// The entry list never binds a key twice.
    pub closed spec fn wf(&self) -> bool {
        distinct_keys(self.entries.deep_view())
    }

    /// An empty parameter table.
    pub fn new() -> (r: ParamMap)
        ensures
            r.wf(),
            r@ == Map::<Seq<char>, Seq<char>>::empty(),
    {
        let r = ParamMap { entries: Vec::new() };
        proof {
            assert(r.entries.deep_view() =~= Seq::<(Seq<char>, Seq<char>)>::empty());
        }
        r
    }

    /// Bind `key` to `value`, replacing any earlier binding of `key`.
    pub fn insert(&mut self, key: String, value: String)
        requires
            old(self).wf(),
        ensures
            final(self).wf(),
            final(self)@ == old(self)@.insert(key@, value@),
    {
        let ghost es = self.entries.deep_view();
        let n = self.entries.len();
        let mut i: usize = 0;
        while i < n
            invariant
                i <= n,
                n == self.entries@.len(),
                es == self.entries.deep_view(),
                old(self)@ == map_of(es),
                distinct_keys(es),
                forall|k: int| 0 <= k < i ==> (#[trigger] es[k]).0 != key@,
            decreases n - i,
        {
            if str_eq(self.entries[i].0.as_str(), key.as_str()) {
                let ghost kq = key@;
                let ghost vq = value@;
                proof {
                    assert(es[i as int].0 == kq);
                    lemma_map_of_update(es, i as int, vq);
                }
                self.entries[i] = (key, value);
                proof {
                    let ev = self.entries.deep_view();
                    assert(ev =~= es.update(i as int, (es[i as int].0, vq)));
                    assert forall|a: int, b: int|
                        0 <= a < b < ev.len() implies (#[trigger] ev[a]).0 != (
                    #[trigger] ev[b]).0 by {
                        assert(es[a].0 == ev[a].0);
                        assert(es[b].0 == ev[b].0);
                    }
                    assert(map_of(ev) =~= map_of(es).insert(kq, vq));
                }
                return;
            }
            i = i + 1;
        }
        proof {
            lemma_map_of_absent(es, key@);
        }
        self.entries.push((key, value));
        proof {
            assert(self.entries.deep_view() =~= es.push((key@, value@)));
            assert(self.entries.deep_view().drop_last() =~= es);
            assert forall|a: int, b: int|
                0 <= a < b < self.entries.deep_view().len() implies (#[trigger] self.entries.deep_view()[a]).0
                != (#[trigger] self.entries.deep_view()[b]).0 by {
                if b < es.len() {
                    assert(es[a].0 != es[b].0);
                } else {
                    assert(self.entries.deep_view()[a].0 == es[a].0);
                }
            }
            assert(final(self)@ =~= old(self)@.insert(key@, value@));
        }
    }

    /// Look `key` up; `Some` exactly when the table binds it.
    pub fn get(&self, key: &str) -> (r: Option<&String>)
        requires
            self.wf(),
        ensures
            match r {
                Some(v) => self@.contains_key(key@) && self@[key@] == v@,
                None => !self@.contains_key(key@),
            },
    {
        let ghost es = self.entries.deep_view();
        let n = self.entries.len();
        let mut i: usize = 0;
        while i < n
            invariant
                i <= n,
                n == self.entries@.len(),
                self.wf(),
                es == self.entries.deep_view(),
                forall|k: int| 0 <= k < i ==> (#[trigger] es[k]).0 != key@,
            decreases n - i,
        {
            if str_eq(self.entries[i].0.as_str(), key) {
                proof {
                    lemma_map_of_present(es, i as int);
                }
                return Some(&self.entries[i].1);
            }
            i = i + 1;
        }
        proof {
            lemma_map_of_absent(es, key@);
        }
        None
    }

    /// How many keys the table binds.
    pub fn len(&self) -> (r: usize)
        requires
            self.wf(),
        ensures
            r == self@.dom().len(),
    {
        proof {
            lemma_map_of_dom(self.entries.deep_view());
        }
        self.entries.len()
    }

    /// Whether the table binds no key at all.
    pub fn is_empty(&self) -> (r: bool)
        ensures
            r == (self@ == Map::<Seq<char>, Seq<char>>::empty()),
    {
        let ghost es = self.entries.deep_view();
        let r = self.entries.len() == 0;
        proof {
            if es.len() == 0 {
                assert(es =~= Seq::<(Seq<char>, Seq<char>)>::empty());
                assert(self@ =~= Map::<Seq<char>, Seq<char>>::empty());
            } else {
                assert(self@.contains_key(es.last().0));
                assert(!Map::<Seq<char>, Seq<char>>::empty().contains_key(es.last().0));
            }
        }
        r
    }

    /// The underlying entries, in insertion order; together they denote
    /// exactly this table's mapping.
    pub fn entries(&self) -> (r: &Vec<(String, String)>)
        ensures
            map_of(r.deep_view()) == self@,
    {
        &self.entries
    }

    /// The `i`th entry, for walking the table; its key is bound to its value.
    pub fn entry_at(&self, i: usize) -> (r: &(String, String))
        requires
            self.wf(),
            i < self@.dom().len(),
        ensures
            self@.contains_key(r.0@),
            self@[r.0@] == r.1@,
    {
        proof {
            lemma_map_of_dom(self.entries.deep_view());
            lemma_map_of_present(self.entries.deep_view(), i as int);
        }
        &self.entries[i]
    }
}

} // verus!
