//! The header map shared by requests and responses: field names mapped to
//! field values, case preserved, keys unique, last write wins.  Entries
//! keep their insertion position so that response serialization can emit
//! one line per entry deterministically.

use vstd::prelude::*;
use crate::scan::str_eq;

verus! {

/// A mapping from header field names to field values.
#[derive(Debug)]
pub struct HttpHeader {
    entries: Vec<(String, String)>,
}

impl View for HttpHeader {
    type V = Seq<(Seq<char>, Seq<char>)>;

    closed spec fn view(&self) -> Seq<(Seq<char>, Seq<char>)> {
        Seq::new(self.entries@.len(), |i: int| (self.entries@[i].0@, self.entries@[i].1@))
    }
}

/// No two entries share a field name.
pub open spec fn keys_unique(entries: Seq<(Seq<char>, Seq<char>)>) -> bool {
    forall|i: int, j: int| 0 <= i < j < entries.len() ==> entries[i].0 != entries[j].0
}

/// The value stored under field name `k`, if any.
pub open spec fn spec_get(entries: Seq<(Seq<char>, Seq<char>)>, k: Seq<char>) -> Option<Seq<char>>
    decreases entries.len(),
{
    if entries.len() == 0 {
        None
    } else if entries[0].0 == k {
        Some(entries[0].1)
    } else {
        spec_get(entries.drop_first(), k)
    }
}

/// Entries after writing `v` under `k`: an entry with name `k` keeps its
/// position and takes the new value; otherwise the entry is appended.
pub open spec fn spec_insert(
    entries: Seq<(Seq<char>, Seq<char>)>,
    k: Seq<char>,
    v: Seq<char>,
) -> Seq<(Seq<char>, Seq<char>)>
    decreases entries.len(),
{
    if entries.len() == 0 {
        seq![(k, v)]
    } else if entries[0].0 == k {
        seq![(k, v)] + entries.drop_first()
    } else {
        seq![entries[0]] + spec_insert(entries.drop_first(), k, v)
    }
}

/// While `k` is absent from the first `i` entries, inserting skips them.
proof fn lemma_insert_skip(entries: Seq<(Seq<char>, Seq<char>)>, k: Seq<char>, v: Seq<char>, i: int)
    requires
        0 <= i <= entries.len(),
        forall|j: int| 0 <= j < i ==> entries[j].0 != k,
    ensures
        spec_insert(entries, k, v) == entries.take(i) + spec_insert(entries.skip(i), k, v),
    decreases i,
{
    if i == 0 {
        assert(entries.skip(0) =~= entries);
        assert(entries.take(0) + spec_insert(entries, k, v) =~= spec_insert(entries, k, v));
    } else {
        lemma_insert_skip(entries.drop_first(), k, v, i - 1);
        assert(entries.drop_first().take(i - 1) =~= entries.take(i).drop_first());
        assert(entries.drop_first().skip(i - 1) =~= entries.skip(i));
        assert(seq![entries[0]] + (entries.drop_first().take(i - 1) + spec_insert(
            entries.skip(i),
            k,
            v,
        )) =~= entries.take(i) + spec_insert(entries.skip(i), k, v));
    }
}

/// Inserting under a name that no entry holds appends the new entry.
pub proof fn lemma_insert_fresh(entries: Seq<(Seq<char>, Seq<char>)>, k: Seq<char>, v: Seq<char>)
    requires
        forall|j: int| 0 <= j < entries.len() ==> entries[j].0 != k,
    ensures
        spec_insert(entries, k, v) == entries.push((k, v)),
{
    lemma_insert_skip(entries, k, v, entries.len() as int);
    assert(entries.skip(entries.len() as int) =~= Seq::<(Seq<char>, Seq<char>)>::empty());
    assert(entries.take(entries.len() as int) =~= entries);
    assert(entries + seq![(k, v)] =~= entries.push((k, v)));
}

/// While `k` is absent from the first `i` entries, lookup skips them.
proof fn lemma_get_skip(entries: Seq<(Seq<char>, Seq<char>)>, k: Seq<char>, i: int)
    requires
        0 <= i <= entries.len(),
        forall|j: int| 0 <= j < i ==> entries[j].0 != k,
    ensures
        spec_get(entries, k) == spec_get(entries.skip(i), k),
    decreases i,
{
    if i == 0 {
        assert(entries.skip(0) =~= entries);
    } else {
        lemma_get_skip(entries.drop_first(), k, i - 1);
        assert(entries.drop_first().skip(i - 1) =~= entries.skip(i));
    }
}

impl HttpHeader {
    /// Keys are unique; established on construction and kept by `insert`.
    pub open spec fn wf(&self) -> bool {
        keys_unique(self@)
    }

    /// An empty header map.
    pub fn new() -> (r: Self)
        ensures
            r@ == Seq::<(Seq<char>, Seq<char>)>::empty(),
            r.wf(),
    {
        let r = HttpHeader { entries: Vec::new() };
        proof {
            assert(r@ =~= Seq::<(Seq<char>, Seq<char>)>::empty());
        }
        r
    }

    /// Number of entries.
    pub fn len(&self) -> (n: usize)
        ensures
            n == self@.len(),
    {
        self.entries.len()
    }

    /// Write `value` under `name`; an existing entry with that name is
    /// overwritten in place, otherwise the entry is appended.
    pub fn insert(&mut self, name: String, value: String)
        requires
            old(self).wf(),
        ensures
            final(self)@ == spec_insert(old(self)@, name@, value@),
            final(self).wf(),
    {
        let len = self.entries.len();
        let mut i: usize = 0;
        while i < len
            invariant
                len == self.entries@.len(),
                0 <= i <= len,
                self.wf(),
                self@ == old(self)@,
                forall|j: int| 0 <= j < i ==> self@[j].0 != name@,
            decreases len - i,
        {
            let hit = str_eq(self.entries[i].0.as_str(), name.as_str());
            if hit {
                let ghost prev = self@;
                self.entries.set(i, (name, value));
                proof {
                    assert(prev[i as int].0 == name@);
                    lemma_insert_skip(prev, name@, value@, i as int);
                    assert(prev.skip(i as int)[0] == prev[i as int]);
                    assert(prev.skip(i as int).drop_first() =~= prev.skip(i as int + 1));
                    assert(self@ =~~= prev.take(i as int) + (seq![(name@, value@)] + prev.skip(
                        i as int + 1,
                    )));
                    assert(self@ =~~= spec_insert(prev, name@, value@));
                    assert(keys_unique(self@));
                }
                return ;
            }
            i = i + 1;
        }
        let ghost prev = self@;
        self.entries.push((name, value));
        proof {
            lemma_insert_skip(prev, name@, value@, prev.len() as int);
            assert(prev.skip(prev.len() as int) =~= Seq::<(Seq<char>, Seq<char>)>::empty());
            assert(prev.take(prev.len() as int) =~= prev);
            assert(self@ =~~= prev + seq![(name@, value@)]);
            assert(self@ =~~= spec_insert(prev, name@, value@));
            assert(keys_unique(self@));
        }
    }

    /// The value stored under `name`, if any.
    pub fn get<'a>(&'a self, name: &str) -> (r: Option<&'a String>)
        ensures
            match r {
                Some(v) => spec_get(self@, name@) == Some(v@),
                None => spec_get(self@, name@) is None,
            },
    {
        let len = self.entries.len();
        let mut i: usize = 0;
        while i < len
            invariant
                len == self.entries@.len(),
                0 <= i <= len,
                forall|j: int| 0 <= j < i ==> self@[j].0 != name@,
            decreases len - i,
        {
            let hit = str_eq(self.entries[i].0.as_str(), name);
            if hit {
                proof {
                    lemma_get_skip(self@, name@, i as int);
                    assert(self@.skip(i as int)[0] == self@[i as int]);
                }
                return Some(&self.entries[i].1);
            }
            i = i + 1;
        }
        proof {
            lemma_get_skip(self@, name@, len as int);
            assert(self@.skip(len as int) =~= Seq::<(Seq<char>, Seq<char>)>::empty());
        }
        None
    }

    /// The entry at position `i`, for serialization in entry order.
    pub fn entry(&self, i: usize) -> (r: &(String, String))
        requires
            i < self@.len(),
        ensures
            (r.0@, r.1@) == self@[i as int],
    {
        &self.entries[i]
    }
}

impl Default for HttpHeader {
    /// The default header map is empty.
    fn default() -> (r: Self)
        ensures
            r@ == Seq::<(Seq<char>, Seq<char>)>::empty(),
            r.wf(),
    {
        HttpHeader::new()
    }
}

} // verus!
