//! An insertion-ordered document model: the canonical representation of
//! filters, update descriptions, raw pipeline stages and sort orders that
//! the repository hands to the backing store.
//!
//! A [`Document`] is a sequence of key/value entries whose keys are
//! pairwise distinct; inserting an existing key replaces its value in
//! place, inserting a fresh key appends. The view of a document is the
//! sequence of its entries, with each key abstracted to its character
//! sequence.

use crate::text::str_eq;
use vstd::prelude::*;

verus! {

/// A single field value inside a [`Document`].
#[derive(Debug, PartialEq)]
pub enum Value {
    Null,
    Bool(bool),
    Int32(i32),
    Int64(i64),
    Str(String),
    /// Milliseconds since the Unix epoch.
    DateTime(i64),
    Array(Vec<Value>),
    Doc(Document),
}

/// An ordered key/value mapping with pairwise-distinct keys.
#[derive(Debug, PartialEq)]
pub struct Document {
    entries: Vec<(String, Value)>,
}

/// Pairwise-distinct keys over an entry sequence.
pub open spec fn keys_distinct(d: Seq<(Seq<char>, Value)>) -> bool {
    forall|i: int, j: int| 0 <= i < j < d.len() ==> d[i].0 != d[j].0
}

/// The index of the first entry of `d` whose key is `k`; `d.len()` if no
/// entry has that key.
pub open spec fn doc_first_index(d: Seq<(Seq<char>, Value)>, k: Seq<char>) -> int
    decreases d.len(),
{
    if d.len() == 0 {
        0
    } else if d[0].0 == k {
        0
    } else {
        1 + doc_first_index(d.drop_first(), k)
    }
}

/// Whether some entry of `d` has key `k`.
pub open spec fn doc_has_key(d: Seq<(Seq<char>, Value)>, k: Seq<char>) -> bool {
    exists|i: int| 0 <= i < d.len() && d[i].0 == k
}

/// Insertion into the entry sequence: replace in place if the key is
/// present, append otherwise.
pub open spec fn doc_insert(d: Seq<(Seq<char>, Value)>, k: Seq<char>, v: Value) -> Seq<
    (Seq<char>, Value),
> {
    if doc_has_key(d, k) {
        d.update(doc_first_index(d, k), (k, v))
    } else {
        d.push((k, v))
    }
}

/// The value stored under key `k`, if any.
pub open spec fn doc_get(d: Seq<(Seq<char>, Value)>, k: Seq<char>) -> Option<Value> {
    if doc_has_key(d, k) {
        Some(d[doc_first_index(d, k)].1)
    } else {
        None
    }
}

/// `doc_first_index` lands on the first entry with key `k`, or past the
/// end when no entry has that key.
pub proof fn lemma_doc_first_index(d: Seq<(Seq<char>, Value)>, k: Seq<char>)
    ensures
        0 <= doc_first_index(d, k) <= d.len(),
        doc_first_index(d, k) < d.len() ==> d[doc_first_index(d, k)].0 == k,
        forall|j: int| 0 <= j < doc_first_index(d, k) ==> d[j].0 != k,
        doc_has_key(d, k) <==> doc_first_index(d, k) < d.len(),
    decreases d.len(),
{
    if d.len() == 0 {
    } else if d[0].0 == k {
    } else {
        let rest = d.drop_first();
        lemma_doc_first_index(rest, k);
        assert forall|j: int| 0 <= j < doc_first_index(d, k) implies d[j].0 != k by {
            if j > 0 {
                assert(rest[j - 1] == d[j]);
            }
        }
        if doc_first_index(rest, k) < rest.len() {
            assert(d[1 + doc_first_index(rest, k)] == rest[doc_first_index(rest, k)]);
        }
        if doc_has_key(d, k) {
            let w = choose|i: int| 0 <= i < d.len() && d[i].0 == k;
            assert(rest[w - 1] == d[w]);
            assert(doc_has_key(rest, k));
        }
        if doc_has_key(rest, k) {
            let w = choose|i: int| 0 <= i < rest.len() && rest[i].0 == k;
            assert(d[w + 1] == rest[w]);
            assert(doc_has_key(d, k));
        }
    }
}

impl View for Document {
    type V = Seq<(Seq<char>, Value)>;

    closed spec fn view(&self) -> Seq<(Seq<char>, Value)> {
        Seq::new(self.entries@.len(), |i: int| (self.entries@[i].0@, self.entries@[i].1))
    }
}

impl Document {
    /// Well-formedness: the keys are pairwise distinct.
    pub open spec fn wf(&self) -> bool {
        keys_distinct(self@)
    }

    /// The empty document.
    pub fn new() -> (d: Document)
        ensures
            d@ == Seq::<(Seq<char>, Value)>::empty(),
            d.wf(),
    {
        let d = Document { entries: Vec::new() };
        proof {
            assert(d@ =~= Seq::<(Seq<char>, Value)>::empty());
        }
        d
    }

    /// The number of entries.
    pub fn len(&self) -> (n: usize)
        ensures
            n == self@.len(),
    {
        self.entries.len()
    }

    /// Whether the document has no entries.
    pub fn is_empty(&self) -> (r: bool)
        ensures
            r == (self@.len() == 0),
    {
        self.entries.len() == 0
    }

    /// The key of the entry at position `i`.
    pub fn key_at(&self, i: usize) -> (k: &String)
        requires
            i < self@.len(),
        ensures
            k@ == self@[i as int].0,
    {
        &self.entries[i].0
    }

    /// The value of the entry at position `i`.
    pub fn value_at(&self, i: usize) -> (v: &Value)
        requires
            i < self@.len(),
        ensures
            *v == self@[i as int].1,
    {
        &self.entries[i].1
    }

    /// Look a key up, returning the value stored under it, if any.
    pub fn get(&self, key: &str) -> (r: Option<&Value>)
        ensures
            match r {
                Some(v) => doc_get(self@, key@) == Some(*v),
                None => doc_get(self@, key@) is None,
            },
    {
        let n = self.entries.len();
        let mut i: usize = 0;
        while i < n
            invariant
                n == self@.len(),
                i <= n,
                forall|j: int| 0 <= j < i ==> self@[j].0 != key@,
            decreases n - i,
        {
            if str_eq(self.entries[i].0.as_str(), key) {
                proof {
                    lemma_doc_first_index(self@, key@);
                    assert(self@[i as int].0 == key@);
                    assert(doc_first_index(self@, key@) == i);
                }
                return Some(&self.entries[i].1);
            }
            i = i + 1;
        }
        proof {
            lemma_doc_first_index(self@, key@);
            assert(!doc_has_key(self@, key@));
        }
        None
    }

    /// Insert a key/value pair: replace the value in place when the key
    /// is already present, append a new entry otherwise.
    pub fn insert(&mut self, key: String, value: Value)
        requires
            old(self).wf(),
        ensures
            final(self)@ == doc_insert(old(self)@, key@, value),
            final(self).wf(),
    {
        let ghost d0 = self@;
        let n = self.entries.len();
        let mut i: usize = 0;
        while i < n
            invariant
                self@ == d0,
                d0 == old(self)@,
                old(self).wf(),
                n == d0.len(),
                i <= n,
                forall|j: int| 0 <= j < i ==> d0[j].0 != key@,
            decreases n - i,
        {
            if str_eq(self.entries[i].0.as_str(), key.as_str()) {
                proof {
                    lemma_doc_first_index(d0, key@);
                    assert(d0[i as int].0 == key@);
                    assert(doc_first_index(d0, key@) == i);
                }
                self.entries[i] = (key, value);
                proof {
                    assert(self@ =~= d0.update(i as int, (key@, value)));
                    assert(forall|m: int| 0 <= m < self@.len() ==> self@[m].0 == d0[m].0);
                }
                return ;
            }
            i = i + 1;
        }
        proof {
            lemma_doc_first_index(d0, key@);
            assert(!doc_has_key(d0, key@));
        }
        self.entries.push((key, value));
        proof {
            assert(self@ =~= d0.push((key@, value)));
            assert forall|a: int, b: int| 0 <= a < b < self@.len() implies self@[a].0
                != self@[b].0 by {
                if b == self@.len() - 1 {
                    assert(d0[a].0 != key@);
                }
            }
        }
    }

    /// Surrender the entries, keys still paired with their values in
    /// document order.
    pub fn take_entries(self) -> (es: Vec<(String, Value)>)
        ensures
            es@.len() == self@.len(),
            forall|i: int|
                0 <= i < es@.len() ==> (#[trigger] es@[i]).0@ == self@[i].0 && es@[i].1
                    == self@[i].1,
    {
        self.entries
    }
}

} // verus!
