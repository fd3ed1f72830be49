//! The update normalizer: splits a caller-supplied update description
//! into the canonical two-part form the backing store expects — a
//! replacement bucket under the reserved `$set` key plus zero or more
//! operator buckets — and always injects a fresh `updated_at` timestamp
//! into the replacement bucket.
//!
//! Keys are partitioned deterministically, in the order given:
//! a literal `$set` key is dropped (the replacement bucket is rebuilt
//! here and can never be injected by a caller), any other key starting
//! with the operator marker `$` keeps its own top-level bucket, and all
//! remaining keys are merged into the replacement bucket.

use crate::document::{
    doc_has_key, doc_insert, keys_distinct, lemma_doc_first_index, Document, Value,
};
use crate::text::{is_operator_key, key_is_operator, str_eq};
use crate::time::now_timestamp_millis;
use vstd::prelude::*;
use vstd::seq_lib::group_filter_ensures;

verus! {

/// The entries of `d` that keep their own operator bucket: keys marked
/// with the operator prefix, the reserved `$set` key excepted.
pub open spec fn operator_entries(d: Seq<(Seq<char>, Value)>) -> Seq<(Seq<char>, Value)> {
    d.filter(|e: (Seq<char>, Value)| is_operator_key(e.0) && e.0 != "$set"@)
}

/// The entries of `d` that are merged into the replacement bucket:
/// everything not marked as an operator.
pub open spec fn replacement_entries(d: Seq<(Seq<char>, Value)>) -> Seq<(Seq<char>, Value)> {
    d.filter(|e: (Seq<char>, Value)| !is_operator_key(e.0))
}

/// The replacement bucket: the replacement entries of `d`, with the
/// `updated_at` field set to the injected timestamp.
pub open spec fn set_bucket(d: Seq<(Seq<char>, Value)>, timestamp: i64) -> Seq<
    (Seq<char>, Value),
> {
    doc_insert(replacement_entries(d), "updated_at"@, Value::DateTime(timestamp))
}

/// What it means for `r` to be the normalization of the update
/// description `d` at time `timestamp`: the operator buckets of `d`, in
/// order, followed by one `$set` entry holding the replacement bucket.
pub open spec fn is_normalized(
    d: Seq<(Seq<char>, Value)>,
    timestamp: i64,
    r: Seq<(Seq<char>, Value)>,
) -> bool {
    let ops = operator_entries(d);
    &&& r.len() == ops.len() + 1
    &&& r.take(ops.len() as int) == ops
    &&& r.last().0 == "$set"@
    &&& r.last().1 is Doc
    &&& r.last().1->Doc_0@ == set_bucket(d, timestamp)
}

/// A sequence whose members all satisfy the predicate is its own
/// filtration.
proof fn lemma_filter_all(
    s: Seq<(Seq<char>, Value)>,
    pred: spec_fn((Seq<char>, Value)) -> bool,
)
    requires
        forall|i: int| 0 <= i < s.len() ==> pred(#[trigger] s[i]),
    ensures
        s.filter(pred) == s,
    decreases s.len(),
{
    reveal(Seq::filter);
    if s.len() > 0 {
        lemma_filter_all(s.drop_last(), pred);
        assert(s.drop_last().push(s.last()) =~= s);
    }
}

/// Filtering a singleton keeps or drops its one member.
proof fn lemma_filter_one(e: (Seq<char>, Value), pred: spec_fn((Seq<char>, Value)) -> bool)
    ensures
        seq![e].filter(pred) == if pred(e) {
            seq![e]
        } else {
            Seq::<(Seq<char>, Value)>::empty()
        },
{
    reveal(Seq::filter);
    assert(seq![e].drop_last() =~= Seq::<(Seq<char>, Value)>::empty());
    assert(Seq::<(Seq<char>, Value)>::empty().filter(pred) =~= Seq::<(
        Seq<char>,
        Value,
    )>::empty());
    if pred(e) {
        assert(Seq::<(Seq<char>, Value)>::empty().push(e) =~= seq![e]);
    }
}

/// A sequence with no member satisfying the predicate filters to the
/// empty sequence.
proof fn lemma_filter_none(
    s: Seq<(Seq<char>, Value)>,
    pred: spec_fn((Seq<char>, Value)) -> bool,
)
    requires
        forall|i: int| 0 <= i < s.len() ==> !pred(#[trigger] s[i]),
    ensures
        s.filter(pred) == Seq::<(Seq<char>, Value)>::empty(),
    decreases s.len(),
{
    reveal(Seq::filter);
    if s.len() > 0 {
        lemma_filter_none(s.drop_last(), pred);
    }
}

/// A key absent from a sequence is absent from any filtration of it.
proof fn lemma_filter_key_absent(
    s: Seq<(Seq<char>, Value)>,
    pred: spec_fn((Seq<char>, Value)) -> bool,
    k: Seq<char>,
)
    requires
        forall|j: int| 0 <= j < s.len() ==> (#[trigger] s[j]).0 != k,
    ensures
        !doc_has_key(s.filter(pred), k),
    decreases s.len(),
{
    reveal(Seq::filter);
    if s.len() > 0 {
        lemma_filter_key_absent(s.drop_last(), pred, k);
        if doc_has_key(s.filter(pred), k) {
            let w = choose|i: int|
                0 <= i < s.filter(pred).len() && s.filter(pred)[i].0 == k;
            if pred(s.last()) {
                if w < s.filter(pred).len() - 1 {
                    assert(s.drop_last().filter(pred)[w].0 == k);
                }
            } else {
                assert(s.drop_last().filter(pred)[w].0 == k);
            }
        }
    } else {
        if doc_has_key(s.filter(pred), k) {
            let w = choose|i: int|
                0 <= i < s.filter(pred).len() && s.filter(pred)[i].0 == k;
        }
    }
}

/// Normalize an update description at the given timestamp. Pure and
/// deterministic: the result holds exactly the operator buckets of
/// `updates` in their original order, then the replacement bucket under
/// `$set` with `updated_at` set to `timestamp`.
pub fn normalize_updates_at(updates: Document, timestamp: i64) -> (r: Document)
    requires
        updates.wf(),
    ensures
        is_normalized(updates@, timestamp, r@),
        r.wf(),
{
    let ghost d = updates@;
    let ghost total = d.len() as int;
    let mut entries = updates.take_entries();
    let mut sets = Document::new();
    let mut ops = Document::new();
    proof {
        assert(d.take(0) =~= Seq::<(Seq<char>, Value)>::empty());
        reveal(Seq::filter);
    }
    while entries.len() > 0
        invariant
            total == d.len(),
            entries@.len() <= total,
            keys_distinct(d),
            forall|k: int|
                0 <= k < entries@.len() ==> ((#[trigger] entries@[k]).0@, entries@[k].1) == d[total
                    - entries@.len() + k],
            sets@ == replacement_entries(d.take(total - entries@.len())),
            ops@ == operator_entries(d.take(total - entries@.len())),
            sets.wf(),
            ops.wf(),
        decreases entries@.len(),
    {
        let ghost pos = total - entries@.len();
        let ghost done = d.take(pos);
        let (key, value) = entries.remove(0);
        proof {
            assert((key@, value) == d[pos]);
            assert(d.take(pos + 1) =~= done + seq![d[pos]]);
            Seq::filter_distributes_over_add(
                done,
                seq![d[pos]],
                |e: (Seq<char>, Value)| is_operator_key(e.0) && e.0 != "$set"@,
            );
            Seq::filter_distributes_over_add(
                done,
                seq![d[pos]],
                |e: (Seq<char>, Value)| !is_operator_key(e.0),
            );
            lemma_filter_one(d[pos], |e: (Seq<char>, Value)| is_operator_key(e.0) && e.0 != "$set"@);
            lemma_filter_one(d[pos], |e: (Seq<char>, Value)| !is_operator_key(e.0));
            assert forall|j: int| 0 <= j < done.len() implies (#[trigger] done[j]).0 != key@ by {
                assert(done[j] == d[j]);
                assert(d[j].0 != d[pos].0);
            }
            lemma_filter_key_absent(
                done,
                |e: (Seq<char>, Value)| is_operator_key(e.0) && e.0 != "$set"@,
                key@,
            );
            lemma_filter_key_absent(done, |e: (Seq<char>, Value)| !is_operator_key(e.0), key@);
        }
        if str_eq(key.as_str(), "$set") {
            proof {
                reveal_strlit("$set");
                assert(is_operator_key(key@));
                assert(ops@ + Seq::<(Seq<char>, Value)>::empty() =~= ops@);
                assert(sets@ + Seq::<(Seq<char>, Value)>::empty() =~= sets@);
            }
        } else if key_is_operator(key.as_str()) {
            proof {
                assert(!doc_has_key(ops@, key@));
            }
            ops.insert(key, value);
            proof {
                assert(ops@ =~= operator_entries(done) + seq![d[pos]]);
            }
        } else {
            proof {
                assert(!doc_has_key(sets@, key@));
            }
            sets.insert(key, value);
            proof {
                assert(sets@ =~= replacement_entries(done) + seq![d[pos]]);
            }
        }
    }
    proof {
        assert(d.take(total) =~= d);
    }
    let ghost ops_before = ops@;
    sets.insert("updated_at".to_owned(), Value::DateTime(timestamp));
    let ghost bucket = sets@;
    proof {
        broadcast use group_filter_ensures;

        assert forall|j: int| 0 <= j < ops_before.len() implies (#[trigger] ops_before[j]).0
            != "$set"@ by {
            assert((|e: (Seq<char>, Value)| is_operator_key(e.0) && e.0 != "$set"@)(
                ops_before[j],
            ));
        }
        assert(!doc_has_key(ops_before, "$set"@));
    }
    ops.insert("$set".to_owned(), Value::Doc(sets));
    proof {
        assert(bucket == set_bucket(d, timestamp));
        assert(ops@.take(operator_entries(d).len() as int) =~= operator_entries(d));
    }
    ops
}

/// Normalize an update description at the current wall-clock time.
pub fn normalize_updates(updates: Document) -> (r: Document)
    requires
        updates.wf(),
    ensures
        exists|timestamp: i64| is_normalized(updates@, timestamp, r@),
        r.wf(),
{
    let now = now_timestamp_millis();
    let r = normalize_updates_at(updates, now);
    proof {
        assert(is_normalized(updates@, now, r@));
    }
    r
}

/// The partitioning law: every key the normalizer routes to a top-level
/// operator bucket carries the operator marker and is not the reserved
/// `$set` key, and no key inside the replacement bucket carries the
/// operator marker.
pub proof fn lemma_normalize_partitions(
    d: Seq<(Seq<char>, Value)>,
    timestamp: i64,
    r: Seq<(Seq<char>, Value)>,
)
    requires
        is_normalized(d, timestamp, r),
    ensures
        forall|i: int|
            0 <= i < r.len() - 1 ==> is_operator_key((#[trigger] r[i]).0) && r[i].0 != "$set"@,
        forall|i: int|
            0 <= i < r.last().1->Doc_0@.len() ==> !is_operator_key(
                (#[trigger] r.last().1->Doc_0@[i]).0,
            ),
{
    broadcast use group_filter_ensures;

    let ops = operator_entries(d);
    assert forall|i: int| 0 <= i < r.len() - 1 implies is_operator_key((#[trigger] r[i]).0)
        && r[i].0 != "$set"@ by {
        assert(r[i] == r.take(ops.len() as int)[i]);
        assert((|e: (Seq<char>, Value)| is_operator_key(e.0) && e.0 != "$set"@)(ops[i]));
    }
    let repl = replacement_entries(d);
    let bucket = r.last().1->Doc_0@;
    lemma_doc_first_index(repl, "updated_at"@);
    assert forall|i: int| 0 <= i < bucket.len() implies !is_operator_key(
        (#[trigger] bucket[i]).0,
    ) by {
        reveal_strlit("updated_at");
        if doc_has_key(repl, "updated_at"@) {
            if i != crate::document::doc_first_index(repl, "updated_at"@) {
                assert(bucket[i] == repl[i]);
                assert((|e: (Seq<char>, Value)| !is_operator_key(e.0))(repl[i]));
            }
        } else {
            if i < repl.len() {
                assert(bucket[i] == repl[i]);
                assert((|e: (Seq<char>, Value)| !is_operator_key(e.0))(repl[i]));
            }
        }
    }
}

/// The idempotence law: normalizing a normalized document routes exactly
/// the same entries to the operator buckets, so the operator-bucket
/// partitioning is stable under re-normalization; all that changes is
/// the replacement bucket, rebuilt to hold only the newly injected
/// timestamp.
pub proof fn lemma_normalize_idempotent(
    d: Seq<(Seq<char>, Value)>,
    timestamp1: i64,
    r1: Seq<(Seq<char>, Value)>,
    timestamp2: i64,
    r2: Seq<(Seq<char>, Value)>,
)
    requires
        is_normalized(d, timestamp1, r1),
        is_normalized(r1, timestamp2, r2),
    ensures
        operator_entries(r1) == operator_entries(d),
        r2.take(r2.len() - 1) == r1.take(r1.len() - 1),
        r2.last().1->Doc_0@ == seq![("updated_at"@, Value::DateTime(timestamp2))],
{
    broadcast use group_filter_ensures;

    let ops = operator_entries(d);
    let pred = |e: (Seq<char>, Value)| is_operator_key(e.0) && e.0 != "$set"@;
    assert(r1 =~= r1.take(ops.len() as int) + seq![r1.last()]);
    Seq::filter_distributes_over_add(ops, seq![r1.last()], pred);
    assert forall|i: int| 0 <= i < ops.len() implies pred(#[trigger] ops[i]) by {
        assert(pred(ops[i]));
    }
    lemma_filter_all(ops, pred);
    lemma_filter_one(r1.last(), pred);
    assert(operator_entries(r1) =~= ops + Seq::<(Seq<char>, Value)>::empty());
    assert(operator_entries(r1) =~= ops);
    assert(r2.take(r2.len() - 1) == operator_entries(r1));

    let keep = |e: (Seq<char>, Value)| !is_operator_key(e.0);
    assert forall|i: int| 0 <= i < r1.len() implies !keep(#[trigger] r1[i]) by {
        reveal_strlit("$set");
        if i < r1.len() - 1 {
            assert(r1[i] == ops[i]);
            assert(pred(ops[i]));
        } else {
            assert(r1[i].0 == "$set"@);
        }
    }
    lemma_filter_none(r1, keep);
    assert(!doc_has_key(Seq::<(Seq<char>, Value)>::empty(), "updated_at"@));
    assert(set_bucket(r1, timestamp2) =~= seq![("updated_at"@, Value::DateTime(timestamp2))]);
}

} // verus!
