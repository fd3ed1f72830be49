//! The shared vocabulary of the repository: the error taxonomy, list
//! options, typed aggregation stages, index descriptors, and the
//! summaries the backing store reports for bulk operations.

use crate::document::{Document, Value};
use vstd::prelude::*;
use vstd::string::StringExecFns;

verus! {

/// One failure kind per operation category. Each variant carries a
/// human-readable context string describing the underlying cause.
#[derive(Debug)]
pub enum MongooseError {
    NotFound(String),
    InsertOne(String),
    BulkInsert(String),
    List(String),
    Update(String),
    BulkUpdate(String),
    Delete(String),
    BulkDelete(String),
    Count(String),
    Aggregate(String),
    CreateIndex(String),
}

impl MongooseError {
    pub fn not_found(error: String) -> (r: Self)
        ensures
            r == MongooseError::NotFound(error),
    {
        MongooseError::NotFound(error)
    }

    pub fn insert_one(error: String) -> (r: Self)
        ensures
            r == MongooseError::InsertOne(error),
    {
        MongooseError::InsertOne(error)
    }

    pub fn bulk_insert(error: String) -> (r: Self)
        ensures
            r == MongooseError::BulkInsert(error),
    {
        MongooseError::BulkInsert(error)
    }

    pub fn list(error: String) -> (r: Self)
        ensures
            r == MongooseError::List(error),
    {
        MongooseError::List(error)
    }

    pub fn update(error: String) -> (r: Self)
        ensures
            r == MongooseError::Update(error),
    {
        MongooseError::Update(error)
    }

    pub fn bulk_update(error: String) -> (r: Self)
        ensures
            r == MongooseError::BulkUpdate(error),
    {
        MongooseError::BulkUpdate(error)
    }

    pub fn delete(error: String) -> (r: Self)
        ensures
            r == MongooseError::Delete(error),
    {
        MongooseError::Delete(error)
    }

    pub fn bulk_delete(error: String) -> (r: Self)
        ensures
            r == MongooseError::BulkDelete(error),
    {
        MongooseError::BulkDelete(error)
    }

    pub fn count(error: String) -> (r: Self)
        ensures
            r == MongooseError::Count(error),
    {
        MongooseError::Count(error)
    }

    pub fn aggregate(error: String) -> (r: Self)
        ensures
            r == MongooseError::Aggregate(error),
    {
        MongooseError::Aggregate(error)
    }

    pub fn create_index(error: String) -> (r: Self)
        ensures
            r == MongooseError::CreateIndex(error),
    {
        MongooseError::CreateIndex(error)
    }

    /// The full human-readable message: a fixed prefix naming the failed
    /// operation, followed by the context string.
    pub open spec fn spec_message(&self) -> Seq<char> {
        match *self {
            MongooseError::NotFound(s) => "no document found: "@ + s@,
            MongooseError::InsertOne(s) => "error inserting document: "@ + s@,
            MongooseError::BulkInsert(s) => "error bulk inserting documents: "@ + s@,
            MongooseError::List(s) => "error listing documents: "@ + s@,
            MongooseError::Update(s) => "error updating document: "@ + s@,
            MongooseError::BulkUpdate(s) => "error bulk updating documents: "@ + s@,
            MongooseError::Delete(s) => "error deleting document: "@ + s@,
            MongooseError::BulkDelete(s) => "error bulk deleting documents: "@ + s@,
            MongooseError::Count(s) => "error counting documents: "@ + s@,
            MongooseError::Aggregate(s) => "error aggregating documents: "@ + s@,
            MongooseError::CreateIndex(s) => "error creating indexes: "@ + s@,
        }
    }

    /// Render the error as its human-readable message.
    pub fn message(&self) -> (r: String)
        ensures
            r@ == self.spec_message(),
    {
        match self {
            MongooseError::NotFound(s) => join_message("no document found: ", s),
            MongooseError::InsertOne(s) => join_message("error inserting document: ", s),
            MongooseError::BulkInsert(s) => join_message("error bulk inserting documents: ", s),
            MongooseError::List(s) => join_message("error listing documents: ", s),
            MongooseError::Update(s) => join_message("error updating document: ", s),
            MongooseError::BulkUpdate(s) => join_message("error bulk updating documents: ", s),
            MongooseError::Delete(s) => join_message("error deleting document: ", s),
            MongooseError::BulkDelete(s) => join_message("error bulk deleting documents: ", s),
            MongooseError::Count(s) => join_message("error counting documents: ", s),
            MongooseError::Aggregate(s) => join_message("error aggregating documents: ", s),
            MongooseError::CreateIndex(s) => join_message("error creating indexes: ", s),
        }
    }
}

fn join_message(prefix: &str, detail: &String) -> (r: String)
    ensures
        r@ == prefix@ + detail@,
{
    let mut m = prefix.to_owned();
    m.append(detail.as_str());
    m
}

/// Bounds on a list query: maximum result count, skip offset and sort
/// order. An unspecified limit is never "no limit": the default bounds
/// the result set to 1000 documents.
#[derive(Debug, PartialEq)]
pub struct ListOptions {
    pub limit: i64,
    pub skip: u64,
    pub sort: Document,
}

impl Default for ListOptions {
    /// The documented default bounds: at most 1000 documents, no skip,
    /// no sort order.
    fn default() -> (r: Self)
        ensures
            r.limit == 1000,
            r.skip == 0,
            r.sort@ == Seq::<(Seq<char>, Value)>::empty(),
            r.sort.wf(),
    {
        ListOptions { limit: 1000, skip: 0, sort: Document::new() }
    }
}

/// The field correspondence of a join stage: which foreign collection to
/// join, which fields to match, and the output field to fill.
#[derive(Debug, PartialEq)]
pub struct LookupStage {
    pub from: String,
    pub local_field: String,
    pub foreign_field: String,
    pub as_field: String,
}

/// One typed step of an aggregation pipeline. Ordering between stages is
/// significant and preserved exactly as supplied.
#[derive(Debug, PartialEq)]
pub enum PipelineStage {
    Match(Document),
    Lookup(LookupStage),
    Unwind(String),
    Project(Document),
    AddFields(Document),
    Limit(i64),
    Sort(Document),
}

/// The direction of one indexed field.
#[derive(Clone, Copy, Debug, PartialEq, Eq, Structural)]
pub enum IndexOrder {
    Ascending,
    Descending,
    Text,
}

/// One field of an index: its name and direction.
#[derive(Debug, PartialEq)]
pub struct IndexField {
    pub name: String,
    pub order: IndexOrder,
}

/// A declarative index specification: an ordered field list, the
/// uniqueness and sparseness flags, and an optional time-to-live.
#[derive(Debug, PartialEq)]
pub struct IndexSpec {
    pub fields: Vec<IndexField>,
    pub unique: bool,
    pub sparse: bool,
    pub expire_after_secs: Option<u64>,
}

/// The document value that encodes one index direction.
pub open spec fn order_value_matches(o: IndexOrder, v: Value) -> bool {
    match o {
        IndexOrder::Ascending => v == Value::Int32(1),
        IndexOrder::Descending => v == Value::Int32(-1i32),
        IndexOrder::Text => v is Str && v->Str_0@ == "text"@,
    }
}

/// The token naming one index direction inside the default index name.
pub open spec fn spec_order_token(o: IndexOrder) -> Seq<char> {
    match o {
        IndexOrder::Ascending => "1"@,
        IndexOrder::Descending => "-1"@,
        IndexOrder::Text => "text"@,
    }
}

/// The name the backing store gives an index by default: the field
/// names and direction tokens, all joined with underscores.
pub open spec fn spec_index_name(fields: Seq<IndexField>) -> Seq<char>
    decreases fields.len(),
{
    if fields.len() == 0 {
        Seq::<char>::empty()
    } else if fields.len() == 1 {
        fields[0].name@ + "_"@ + spec_order_token(fields[0].order)
    } else {
        spec_index_name(fields.drop_last()) + "_"@ + fields.last().name@ + "_"@
            + spec_order_token(fields.last().order)
    }
}

impl IndexSpec {
    /// Well-formedness: the indexed field names are pairwise distinct.
    pub open spec fn wf(&self) -> bool {
        forall|i: int, j: int|
            0 <= i < j < self.fields@.len() ==> self.fields@[i].name@ != self.fields@[j].name@
    }

    /// The key document submitted to the backing store: one entry per
    /// indexed field, in order, each carrying its direction value.
    pub fn key_document(&self) -> (d: Document)
        requires
            self.wf(),
        ensures
            d@.len() == self.fields@.len(),
            forall|i: int|
                0 <= i < d@.len() ==> (#[trigger] d@[i]).0 == self.fields@[i].name@
                    && order_value_matches(self.fields@[i].order, d@[i].1),
            d.wf(),
    {
        let mut d = Document::new();
        let n = self.fields.len();
        let mut i: usize = 0;
        while i < n
            invariant
                i <= n,
                n == self.fields@.len(),
                self.wf(),
                d.wf(),
                d@.len() == i,
                forall|j: int|
                    0 <= j < i ==> (#[trigger] d@[j]).0 == self.fields@[j].name@
                        && order_value_matches(self.fields@[j].order, d@[j].1),
            decreases n - i,
        {
            let field = &self.fields[i];
            let v = match field.order {
                IndexOrder::Ascending => Value::Int32(1),
                IndexOrder::Descending => Value::Int32(-1),
                IndexOrder::Text => Value::Str("text".to_owned()),
            };
            let ghost d0 = d@;
            let ghost value = v;
            proof {
                assert(forall|j: int| 0 <= j < i ==> (#[trigger] d0[j]).0 != field.name@);
                assert(!crate::document::doc_has_key(d0, field.name@));
            }
            d.insert(field.name.clone(), v);
            proof {
                assert(d@ == d0.push((field.name@, value)));
            }
            i = i + 1;
        }
        d
    }

    /// The name the backing store derives for this index when none is
    /// supplied explicitly.
    pub fn default_name(&self) -> (r: String)
        ensures
            r@ == spec_index_name(self.fields@),
    {
        let mut name = String::new();
        let n = self.fields.len();
        let mut i: usize = 0;
        while i < n
            invariant
                i <= n,
                n == self.fields@.len(),
                name@ == spec_index_name(self.fields@.take(i as int)),
            decreases n - i,
        {
            if i > 0 {
                name.append("_");
            }
            let field = &self.fields[i];
            name.append(field.name.as_str());
            name.append("_");
            match field.order {
                IndexOrder::Ascending => name.append("1"),
                IndexOrder::Descending => name.append("-1"),
                IndexOrder::Text => name.append("text"),
            }
            proof {
                let taken = self.fields@.take(i + 1);
                assert(taken.drop_last() =~= self.fields@.take(i as int));
                assert(taken.last() == self.fields@[i as int]);
                if i == 0 {
                    assert(Seq::<char>::empty() + self.fields@[0].name@ =~= self.fields@[0].name@);
                }
            }
            i = i + 1;
        }
        proof {
            assert(self.fields@.take(n as int) =~= self.fields@);
        }
        name
    }
}

/// What the backing store reports for a view declaration: the view was
/// created, a view of the same name already existed, or the request was
/// rejected for some other reason (with the store's message).
#[derive(Debug, PartialEq)]
pub enum CreateViewReply {
    Created,
    AlreadyExists,
    Failed(String),
}

/// What the backing store reports for a bulk insert: the identifiers of
/// the inserted documents, in submission order.
#[derive(Debug, PartialEq)]
pub struct InsertManyResult {
    pub inserted_ids: Vec<String>,
}

/// What the backing store reports for a bulk update.
#[derive(Clone, Copy, Debug, PartialEq, Eq, Structural)]
pub struct UpdateResult {
    pub matched_count: u64,
    pub modified_count: u64,
}

/// What the backing store reports for a delete.
#[derive(Clone, Copy, Debug, PartialEq, Eq, Structural)]
pub struct DeleteResult {
    pub deleted_count: u64,
}

/// What the backing store reports for an index creation: the names of
/// the indexes now present.
#[derive(Debug, PartialEq)]
pub struct CreateIndexesResult {
    pub index_names: Vec<String>,
}

} // verus!
