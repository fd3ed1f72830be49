//! The generic repository surface bound to a record type.
//!
//! Every operation of the repository is split into the part that
//! computes and the part that talks to the backing store. The
//! computing parts live here, verified: building the canonical query
//! values an operation submits, and mapping every reply of the store —
//! handed in as a plain value — to either the expected result or to
//! exactly one error of the taxonomy. The driver loop that performs
//! the network call is outside the crate; it owes each function here
//! nothing but the reply it received.

use crate::document::{Document, Value};
use crate::types::{CreateViewReply, DeleteResult, IndexSpec, InsertManyResult, ListOptions};
use crate::types::{CreateIndexesResult, MongooseError, UpdateResult};
use convert_case::Casing;
use vstd::prelude::*;
use vstd::string::{StrSliceExecFns, StringExecFns};

verus! {

/// The per-record-type capability hooks: the collection bound to the
/// type and the indexes it declares at migration points.
pub trait Model: Sized {
    /// The abstract name of the backing collection.
    spec fn spec_collection_name() -> Seq<char>;

    /// The name of the backing collection for this record type.
    fn collection_name() -> (name: String)
        ensures
            name@ == Self::spec_collection_name(),
    ;

    /// The indexes this record type declares.
    fn indexes() -> (ix: Vec<IndexSpec>);
}

/// The message reported when a single-document operation matches
/// nothing.
pub open spec fn no_match_message() -> Seq<char> {
    "no documents returned matching filter"@
}

// ---------------------------------------------------------------------
// Reply mapping: one function per repository operation, each pinning
// the result for every possible reply of the backing store.
// ---------------------------------------------------------------------
/// How `save` answers: the inserted record unchanged on success, an
/// `InsertOne` error carrying the store's message otherwise.
pub open spec fn save_outcome_spec<M>(
    record: M,
    reply: Result<(), String>,
    r: Result<M, MongooseError>,
) -> bool {
    match reply {
        Ok(_) => r == Result::<M, MongooseError>::Ok(record),
        Err(e) => r == Result::<M, MongooseError>::Err(MongooseError::InsertOne(e)),
    }
}

pub fn save_outcome<M>(record: M, reply: Result<(), String>) -> (r: Result<M, MongooseError>)
    ensures
        save_outcome_spec(record, reply, r),
{
    match reply {
        Ok(_) => Ok(record),
        Err(e) => Err(MongooseError::InsertOne(e)),
    }
}

/// How `read` answers: the one matching record; `NotFound` with a fixed
/// message when nothing matched. `NotFound` is reserved for zero
/// matching documents, so a transport failure of the fetch itself is
/// reported separately, under the read-category failure kind `List`.
pub open spec fn read_outcome_spec<M>(
    reply: Result<Option<M>, String>,
    r: Result<M, MongooseError>,
) -> bool {
    match reply {
        Ok(found) => match found {
            Some(m) => r == Result::<M, MongooseError>::Ok(m),
            None => r is Err && r->Err_0 is NotFound && r->Err_0->NotFound_0@
                == no_match_message(),
        },
        Err(e) => r == Result::<M, MongooseError>::Err(MongooseError::List(e)),
    }
}

pub fn read_outcome<M>(reply: Result<Option<M>, String>) -> (r: Result<M, MongooseError>)
    ensures
        read_outcome_spec(reply, r),
{
    match reply {
        Ok(found) => match found {
            Some(m) => Ok(m),
            None => Err(
                MongooseError::NotFound("no documents returned matching filter".to_owned()),
            ),
        },
        Err(e) => Err(MongooseError::List(e)),
    }
}

/// How `update` answers: the post-update document; `NotFound` when the
/// filter matched nothing; an `Update` error on a transport failure.
pub open spec fn update_outcome_spec<M>(
    reply: Result<Option<M>, String>,
    r: Result<M, MongooseError>,
) -> bool {
    match reply {
        Ok(found) => match found {
            Some(m) => r == Result::<M, MongooseError>::Ok(m),
            None => r is Err && r->Err_0 is NotFound && r->Err_0->NotFound_0@
                == no_match_message(),
        },
        Err(e) => r == Result::<M, MongooseError>::Err(MongooseError::Update(e)),
    }
}

pub fn update_outcome<M>(reply: Result<Option<M>, String>) -> (r: Result<M, MongooseError>)
    ensures
        update_outcome_spec(reply, r),
{
    match reply {
        Ok(found) => match found {
            Some(m) => Ok(m),
            None => Err(
                MongooseError::NotFound("no documents returned matching filter".to_owned()),
            ),
        },
        Err(e) => Err(MongooseError::Update(e)),
    }
}

/// How `bulkInsert` answers.
pub open spec fn bulk_insert_outcome_spec(
    reply: Result<InsertManyResult, String>,
    r: Result<InsertManyResult, MongooseError>,
) -> bool {
    match reply {
        Ok(ids) => r == Result::<InsertManyResult, MongooseError>::Ok(ids),
        Err(e) => r == Result::<InsertManyResult, MongooseError>::Err(
            MongooseError::BulkInsert(e),
        ),
    }
}

pub fn bulk_insert_outcome(reply: Result<InsertManyResult, String>) -> (r: Result<
    InsertManyResult,
    MongooseError,
>)
    ensures
        bulk_insert_outcome_spec(reply, r),
{
    match reply {
        Ok(ids) => Ok(ids),
        Err(e) => Err(MongooseError::BulkInsert(e)),
    }
}

/// How `bulkUpdate` answers: the matched/modified counts; zero matches
/// is not an error.
pub open spec fn bulk_update_outcome_spec(
    reply: Result<UpdateResult, String>,
    r: Result<UpdateResult, MongooseError>,
) -> bool {
    match reply {
        Ok(counts) => r == Result::<UpdateResult, MongooseError>::Ok(counts),
        Err(e) => r == Result::<UpdateResult, MongooseError>::Err(MongooseError::BulkUpdate(e)),
    }
}

pub fn bulk_update_outcome(reply: Result<UpdateResult, String>) -> (r: Result<
    UpdateResult,
    MongooseError,
>)
    ensures
        bulk_update_outcome_spec(reply, r),
{
    match reply {
        Ok(counts) => Ok(counts),
        Err(e) => Err(MongooseError::BulkUpdate(e)),
    }
}

/// How `delete` answers: the deletion count as the store reports it;
/// matching nothing is still success.
pub open spec fn delete_outcome_spec(
    reply: Result<DeleteResult, String>,
    r: Result<DeleteResult, MongooseError>,
) -> bool {
    match reply {
        Ok(d) => r == Result::<DeleteResult, MongooseError>::Ok(d),
        Err(e) => r == Result::<DeleteResult, MongooseError>::Err(MongooseError::Delete(e)),
    }
}

pub fn delete_outcome(reply: Result<DeleteResult, String>) -> (r: Result<
    DeleteResult,
    MongooseError,
>)
    ensures
        delete_outcome_spec(reply, r),
{
    match reply {
        Ok(d) => Ok(d),
        Err(e) => Err(MongooseError::Delete(e)),
    }
}

/// How `bulkDelete` answers.
pub open spec fn bulk_delete_outcome_spec(
    reply: Result<DeleteResult, String>,
    r: Result<DeleteResult, MongooseError>,
) -> bool {
    match reply {
        Ok(d) => r == Result::<DeleteResult, MongooseError>::Ok(d),
        Err(e) => r == Result::<DeleteResult, MongooseError>::Err(MongooseError::BulkDelete(e)),
    }
}

pub fn bulk_delete_outcome(reply: Result<DeleteResult, String>) -> (r: Result<
    DeleteResult,
    MongooseError,
>)
    ensures
        bulk_delete_outcome_spec(reply, r),
{
    match reply {
        Ok(d) => Ok(d),
        Err(e) => Err(MongooseError::BulkDelete(e)),
    }
}

/// How `count` answers: the non-negative count the store reports.
pub open spec fn count_outcome_spec(
    reply: Result<u64, String>,
    r: Result<u64, MongooseError>,
) -> bool {
    match reply {
        Ok(n) => r == Result::<u64, MongooseError>::Ok(n),
        Err(e) => r == Result::<u64, MongooseError>::Err(MongooseError::Count(e)),
    }
}

pub fn count_outcome(reply: Result<u64, String>) -> (r: Result<u64, MongooseError>)
    ensures
        count_outcome_spec(reply, r),
{
    match reply {
        Ok(n) => Ok(n),
        Err(e) => Err(MongooseError::Count(e)),
    }
}

/// How `createIndexes` answers: the names of the created indexes.
pub open spec fn create_indexes_outcome_spec(
    reply: Result<CreateIndexesResult, String>,
    r: Result<CreateIndexesResult, MongooseError>,
) -> bool {
    match reply {
        Ok(names) => r == Result::<CreateIndexesResult, MongooseError>::Ok(names),
        Err(e) => r == Result::<CreateIndexesResult, MongooseError>::Err(
            MongooseError::CreateIndex(e),
        ),
    }
}

pub fn create_indexes_outcome(reply: Result<CreateIndexesResult, String>) -> (r: Result<
    CreateIndexesResult,
    MongooseError,
>)
    ensures
        create_indexes_outcome_spec(reply, r),
{
    match reply {
        Ok(names) => Ok(names),
        Err(e) => Err(MongooseError::CreateIndex(e)),
    }
}

/// How `createView` answers: the postcondition is "the view exists or
/// did already", so both a fresh creation and a view of the same name
/// already existing count as success; only any other rejection is
/// reported as `false`, never as an error the caller must plan around.
pub fn create_view_outcome(reply: CreateViewReply) -> (r: bool)
    ensures
        r == (reply is Created || reply is AlreadyExists),
        r == !(reply is Failed),
{
    match reply {
        CreateViewReply::Created => true,
        CreateViewReply::AlreadyExists => true,
        CreateViewReply::Failed(_) => false,
    }
}

// ---------------------------------------------------------------------
// Streamed results: `list` and `aggregate` fetch item by item; each
// item either arrived (and, for aggregate, decoded) or carries the
// failure message. Collection is all-or-nothing: the first failure
// aborts the whole call.
// ---------------------------------------------------------------------
/// Every streamed item arrived intact.
pub open spec fn all_fetched_ok<M>(items: Seq<Result<M, String>>) -> bool {
    forall|i: int| 0 <= i < items.len() ==> (#[trigger] items[i]) is Ok
}

/// The streamed values, in arrival order.
pub open spec fn fetched_values<M>(items: Seq<Result<M, String>>) -> Seq<M> {
    items.map_values(|it: Result<M, String>| it->Ok_0)
}

/// The position of the first failed item; `items.len()` if none failed.
pub open spec fn first_fetch_error<M>(items: Seq<Result<M, String>>) -> int
    decreases items.len(),
{
    if items.len() == 0 {
        0
    } else if items[0] is Err {
        0
    } else {
        1 + first_fetch_error(items.drop_first())
    }
}

proof fn lemma_first_fetch_error_at<M>(items: Seq<Result<M, String>>, i: int)
    requires
        0 <= i < items.len(),
        items[i] is Err,
        forall|j: int| 0 <= j < i ==> (#[trigger] items[j]) is Ok,
    ensures
        first_fetch_error(items) == i,
    decreases i,
{
    if i > 0 {
        let rest = items.drop_first();
        assert forall|j: int| 0 <= j < i - 1 implies (#[trigger] rest[j]) is Ok by {
            assert(rest[j] == items[j + 1]);
        }
        assert(rest[i - 1] == items[i]);
        lemma_first_fetch_error_at(rest, i - 1);
    }
}

/// Fail-fast collection of streamed items: all the values in order, or
/// the message of the first failure.
pub open spec fn collect_outcome_spec<M>(
    items: Seq<Result<M, String>>,
    r: Result<Vec<M>, String>,
) -> bool {
    if all_fetched_ok(items) {
        r is Ok && r->Ok_0@ == fetched_values(items)
    } else {
        r is Err && r->Err_0 == items[first_fetch_error(items)]->Err_0
    }
}

fn collect_fetched<M>(items: Vec<Result<M, String>>) -> (r: Result<Vec<M>, String>)
    ensures
        collect_outcome_spec(items@, r),
{
    let ghost all = items@;
    let mut rest = items;
    let mut out: Vec<M> = Vec::new();
    while rest.len() > 0
        invariant
            all == items@,
            out@.len() + rest@.len() == all.len(),
            forall|k: int| 0 <= k < rest@.len() ==> #[trigger] rest@[k] == all[out@.len() + k],
            forall|j: int|
                0 <= j < out@.len() ==> (#[trigger] all[j]) is Ok && out@[j] == all[j]->Ok_0,
        decreases rest@.len(),
    {
        let ghost pos = out@.len() as int;
        let item = rest.remove(0);
        proof {
            assert(item == all[pos]);
        }
        match item {
            Ok(m) => {
                out.push(m);
            },
            Err(e) => {
                proof {
                    assert(all[pos] is Err);
                    assert(e == all[pos]->Err_0);
                    lemma_first_fetch_error_at(all, pos);
                    assert(!all_fetched_ok(all));
                }
                return Err(e);
            },
        }
    }
    proof {
        assert(all_fetched_ok(all));
        assert(out@ =~= fetched_values(all));
    }
    Ok(out)
}

/// How `list` answers: all fetched records in arrival order, or one
/// `List` error carrying the first failure, whether the query itself or
/// a single item failed.
pub open spec fn list_outcome_spec<M>(
    reply: Result<Vec<Result<M, String>>, String>,
    r: Result<Vec<M>, MongooseError>,
) -> bool {
    match reply {
        Ok(items) => {
            if all_fetched_ok(items@) {
                r is Ok && r->Ok_0@ == fetched_values(items@)
            } else {
                r is Err && r->Err_0 == MongooseError::List(
                    items@[first_fetch_error(items@)]->Err_0,
                )
            }
        },
        Err(e) => r == Result::<Vec<M>, MongooseError>::Err(MongooseError::List(e)),
    }
}

pub fn list_outcome<M>(reply: Result<Vec<Result<M, String>>, String>) -> (r: Result<
    Vec<M>,
    MongooseError,
>)
    ensures
        list_outcome_spec(reply, r),
{
    match reply {
        Ok(items) => match collect_fetched(items) {
            Ok(values) => Ok(values),
            Err(e) => Err(MongooseError::List(e)),
        },
        Err(e) => Err(MongooseError::List(e)),
    }
}

/// How `aggregate` answers: all decoded rows in arrival order, or one
/// `Aggregate` error carrying the first failure — a row that fails to
/// decode aborts the whole call, no partial results are returned.
pub open spec fn aggregate_outcome_spec<T>(
    reply: Result<Vec<Result<T, String>>, String>,
    r: Result<Vec<T>, MongooseError>,
) -> bool {
    match reply {
        Ok(rows) => {
            if all_fetched_ok(rows@) {
                r is Ok && r->Ok_0@ == fetched_values(rows@)
            } else {
                r is Err && r->Err_0 == MongooseError::Aggregate(
                    rows@[first_fetch_error(rows@)]->Err_0,
                )
            }
        },
        Err(e) => r == Result::<Vec<T>, MongooseError>::Err(MongooseError::Aggregate(e)),
    }
}

pub fn aggregate_outcome<T>(reply: Result<Vec<Result<T, String>>, String>) -> (r: Result<
    Vec<T>,
    MongooseError,
>)
    ensures
        aggregate_outcome_spec(reply, r),
{
    match reply {
        Ok(rows) => match collect_fetched(rows) {
            Ok(values) => Ok(values),
            Err(e) => Err(MongooseError::Aggregate(e)),
        },
        Err(e) => Err(MongooseError::Aggregate(e)),
    }
}

// ---------------------------------------------------------------------
// Query construction.
// ---------------------------------------------------------------------
/// The filter a read-by-identifier submits: one `_id` entry.
pub fn id_filter(id: String) -> (d: Document)
    ensures
        d@.len() == 1,
        d@[0].0 == "_id"@,
        d@[0].1 == Value::Str(id),
        d.wf(),
{
    let ghost value = Value::Str(id);
    let mut d = Document::new();
    d.insert("_id".to_owned(), Value::Str(id));
    proof {
        assert(d@ == Seq::<(Seq<char>, Value)>::empty().push(("_id"@, value)));
    }
    d
}

/// Everything a `list` call submits to the backing store.
#[derive(Debug, PartialEq)]
pub struct FindQuery {
    pub filter: Document,
    pub skip: u64,
    pub limit: i64,
    pub sort: Document,
}

/// What `list_query` builds from a filter and options.
pub open spec fn list_query_spec(
    filter: Document,
    options: ListOptions,
    q: FindQuery,
) -> bool {
    q.filter == filter && q.skip == options.skip && q.limit == options.limit && q.sort
        == options.sort
}

/// Build the find request of a `list` call: the options bound the
/// query exactly as given.
pub fn list_query(filter: Document, options: ListOptions) -> (q: FindQuery)
    ensures
        list_query_spec(filter, options, q),
{
    let ListOptions { limit, skip, sort } = options;
    FindQuery { filter, skip, limit, sort }
}

/// Unspecified list options.
pub open spec fn is_default_options(o: ListOptions) -> bool {
    o.limit == 1000 && o.skip == 0 && o.sort@ == Seq::<(Seq<char>, Value)>::empty()
}

/// The bounded-by-default law: a `list` whose options were left unset
/// submits a query limited to the documented default bound of 1000
/// documents — an unset limit is never interpreted as "no limit".
pub proof fn lemma_unset_limit_is_bounded(filter: Document, options: ListOptions, q: FindQuery)
    requires
        is_default_options(options),
        list_query_spec(filter, options, q),
    ensures
        q.limit == 1000,
{
}

// ---------------------------------------------------------------------
// Laws relating the operations.
// ---------------------------------------------------------------------
/// The round-trip law: when the store acknowledges an insert and later
/// hands the same record back for its identifier, `save` returns the
/// record unchanged and the read returns a record equal to it.
pub proof fn lemma_save_read_round_trip<M>(
    record: M,
    saved: Result<M, MongooseError>,
    fetched: Result<M, MongooseError>,
)
    requires
        save_outcome_spec(record, Result::<(), String>::Ok(()), saved),
        read_outcome_spec(Result::<Option<M>, String>::Ok(Some(record)), fetched),
    ensures
        saved == Result::<M, MongooseError>::Ok(record),
        fetched == Result::<M, MongooseError>::Ok(record),
{
}

/// The error-separation law: `NotFound` is reserved for zero matching
/// documents — a transport failure of a single-document read is
/// reported under a different kind.
pub proof fn lemma_read_failure_distinct_from_not_found<M>(
    e: String,
    r: Result<M, MongooseError>,
)
    requires
        read_outcome_spec(Result::<Option<M>, String>::Err(e), r),
    ensures
        r is Err,
        !(r->Err_0 is NotFound),
{
}

/// The delete-missing law: deleting with a filter that matches nothing
/// is still success — the store reports zero deletions — while a
/// subsequent read of the deleted identifier reports `NotFound`.
pub proof fn lemma_delete_missing_succeeds<M>(
    outcome: Result<DeleteResult, MongooseError>,
    reread: Result<M, MongooseError>,
)
    requires
        delete_outcome_spec(
            Result::<DeleteResult, String>::Ok((DeleteResult { deleted_count: 0 })),
            outcome,
        ),
        read_outcome_spec(Result::<Option<M>, String>::Ok(None), reread),
    ensures
        outcome is Ok,
        outcome->Ok_0.deleted_count == 0,
        reread is Err,
        reread->Err_0 is NotFound,
{
}

// ---------------------------------------------------------------------
// Collection-name derivation.
// ---------------------------------------------------------------------
/// A `::` path separator starts at position `j`.
pub open spec fn sep_at(s: Seq<char>, j: int) -> bool {
    0 <= j && j + 2 <= s.len() && s[j] == ':' && s[j + 1] == ':'
}

/// The sequence contains a `::` path separator.
pub open spec fn contains_sep(s: Seq<char>) -> bool {
    exists|j: int| sep_at(s, j)
}

/// What follows the last `::` of a path; the whole sequence when it has
/// no separator. Separators are consumed left to right, never
/// overlapping.
pub open spec fn spec_last_segment(s: Seq<char>) -> Seq<char>
    decreases s.len(),
{
    if !contains_sep(s) {
        s
    } else if sep_at(s, 0) {
        spec_last_segment(s.skip(2))
    } else {
        spec_last_segment(s.skip(1))
    }
}

spec fn last_segment_from(s: Seq<char>, k: int) -> Seq<char> {
    if contains_sep(s.skip(k)) {
        spec_last_segment(s.skip(k))
    } else {
        s.skip(k)
    }
}

proof fn lemma_last_segment_step(s: Seq<char>, k: int, i: int)
    requires
        0 <= k <= i,
        sep_at(s, i),
        forall|j: int| k <= j < i ==> !sep_at(s, j),
    ensures
        last_segment_from(s, k) == last_segment_from(s, i + 2),
    decreases i - k,
{
    let t = s.skip(k);
    assert(sep_at(t, i - k));
    assert(contains_sep(t));
    if k == i {
        assert(sep_at(t, 0));
        assert(t.skip(2) =~= s.skip(k + 2));
        if !contains_sep(s.skip(i + 2)) {
            assert(spec_last_segment(t) == spec_last_segment(s.skip(i + 2)));
            assert(spec_last_segment(s.skip(i + 2)) == s.skip(i + 2));
        }
    } else {
        assert(!sep_at(s, k));
        assert(!sep_at(t, 0)) by {
            if sep_at(t, 0) {
                assert(sep_at(s, k));
            }
        }
        assert(t.skip(1) =~= s.skip(k + 1));
        lemma_last_segment_step(s, k + 1, i);
        assert(contains_sep(s.skip(k + 1))) by {
            assert(sep_at(s.skip(k + 1), i - (k + 1)));
        }
        assert(spec_last_segment(t) == spec_last_segment(s.skip(k + 1)));
    }
}

proof fn lemma_last_segment_tail(s: Seq<char>, k: int)
    requires
        0 <= k <= s.len(),
        forall|j: int| k <= j ==> !sep_at(s, j),
    ensures
        last_segment_from(s, k) == s.skip(k),
{
    if contains_sep(s.skip(k)) {
        let w = choose|j: int| sep_at(s.skip(k), j);
        assert(sep_at(s, k + w));
        assert(false);
    }
}

/// The trailing segment of a path: everything after its last `::`.
fn last_segment<'a>(s: &'a str) -> (r: &'a str)
    ensures
        r@ == spec_last_segment(s@),
{
    let n = s.unicode_len();
    let mut i: usize = 0;
    let mut start: usize = 0;
    proof {
        assert(s@.skip(0) =~= s@);
    }
    if n >= 1 {
        while i < n - 1
            invariant
                1 <= n,
                n == s@.len(),
                start <= i,
                i <= n,
                forall|j: int| start <= j < i ==> !sep_at(s@, j),
                spec_last_segment(s@) == last_segment_from(s@, start as int),
            decreases n - i,
        {
            if s.get_char(i) == ':' && s.get_char(i + 1) == ':' {
                proof {
                    assert(sep_at(s@, i as int));
                    lemma_last_segment_step(s@, start as int, i as int);
                }
                start = i + 2;
                i = i + 2;
            } else {
                proof {
                    assert(!sep_at(s@, i as int));
                }
                i = i + 1;
            }
        }
    }
    proof {
        assert forall|j: int| start <= j implies !sep_at(s@, j) by {
            if j < i {
            } else {
                assert(j + 1 >= n);
            }
        }
        lemma_last_segment_tail(s@, start as int);
        assert(s@.subrange(start as int, n as int) =~= s@.skip(start as int));
    }
    s.substring_char(start, n)
}

/// What convert_case's snake-case conversion returns; the result
/// depends on the input characters alone.
pub uninterp spec fn snake_of(s: Seq<char>) -> Seq<char>;

/// Relies on convert_case's `Casing::to_case` with the snake-case
/// target: a pure function of the input string.
#[verifier::external_body]
fn to_snake_case(s: &str) -> (r: String)
    ensures
        r@ == snake_of(s@),
{
    s.to_case(convert_case::Case::Snake)
}

/// Append the plural marker unless the name already ends in `s`.
pub open spec fn spec_pluralize(s: Seq<char>) -> Seq<char> {
    if s.len() > 0 && s[s.len() - 1] == 's' {
        s
    } else {
        s + "s"@
    }
}

/// The collection name derived from a type path: its trailing segment,
/// snake-cased and pluralized.
pub open spec fn spec_derived_name(type_path: Seq<char>) -> Seq<char> {
    spec_pluralize(snake_of(spec_last_segment(type_path)))
}

/// Derive a collection name from a type path, as
/// [`spec_derived_name`] describes.
pub fn derive_collection_name(type_path: &str) -> (r: String)
    ensures
        r@ == spec_derived_name(type_path@),
{
    let segment = last_segment(type_path);
    let snake = to_snake_case(segment);
    let n = snake.as_str().unicode_len();
    if n > 0 && snake.as_str().get_char(n - 1) == 's' {
        snake
    } else {
        snake.concat("s")
    }
}

// ---------------------------------------------------------------------
// Identifier generation.
// ---------------------------------------------------------------------
/// Relies on `nanoid::format` with nanoid's operating-system random
/// source: the returned identifier is `size` characters long, each
/// drawn from the given alphabet. The alphabet must be ASCII, non-empty
/// and at most 255 symbols, and at least one character is requested:
/// outside those bounds `format` panics or never returns.
#[verifier::external_body]
fn nanoid_format(alphabet: &[char], size: usize) -> (r: String)
    requires
        1 <= alphabet@.len() <= 255,
        1 <= size,
        forall|i: int| 0 <= i < alphabet@.len() ==> ((#[trigger] alphabet@[i]) as u32) < 128,
    ensures
        r@.len() == size,
        forall|j: int| 0 <= j < r@.len() ==> alphabet@.contains(#[trigger] r@[j]),
{
    nanoid::format(nanoid::rngs::default, alphabet, size)
}

/// Generate a fresh 20-character record identifier of uppercase ASCII
/// letters.
pub fn generate_id() -> (r: String)
    ensures
        r@.len() == 20,
        forall|j: int| 0 <= j < r@.len() ==> 'A' <= #[trigger] r@[j] <= 'Z',
{
    let alphabet: [char; 26] = [
        'A',
        'B',
        'C',
        'D',
        'E',
        'F',
        'G',
        'H',
        'I',
        'J',
        'K',
        'L',
        'M',
        'N',
        'O',
        'P',
        'Q',
        'R',
        'S',
        'T',
        'U',
        'V',
        'W',
        'X',
        'Y',
        'Z',
    ];
    let id = nanoid_format(alphabet.as_slice(), 20);
    proof {
        assert forall|j: int| 0 <= j < id@.len() implies 'A' <= #[trigger] id@[j] <= 'Z' by {
            let w = choose|i: int| 0 <= i < alphabet@.len() && alphabet@[i] == id@[j];
            assert('A' <= alphabet@[w] <= 'Z');
        }
    }
    id
}

} // verus!
