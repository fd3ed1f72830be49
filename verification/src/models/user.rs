//! The example record type persisted in the `users` collection.

use crate::model::{generate_id, Model};
use crate::time::now_timestamp_millis;
use crate::types::{IndexField, IndexOrder, IndexSpec};
use vstd::prelude::*;

verus! {

/// A user record. Timestamps are milliseconds since the Unix epoch.
#[derive(Clone, Debug, PartialEq)]
pub struct User {
    pub id: String,
    pub username: String,
    pub age: u32,
    pub created_at: i64,
    pub updated_at: i64,
}

impl Default for User {
    /// A fresh user: a 20-character generated identifier, an empty
    /// username, age zero, and both timestamps at the same moment.
    fn default() -> (u: User)
        ensures
            u.id@.len() == 20,
            u.username@.len() == 0,
            u.age == 0,
            u.created_at == u.updated_at,
    {
        let now = now_timestamp_millis();
        User {
            id: generate_id(),
            username: String::new(),
            age: 0,
            created_at: now,
            updated_at: now,
        }
    }
}

impl Model for User {
    open spec fn spec_collection_name() -> Seq<char> {
        "users"@
    }

    fn collection_name() -> (name: String) {
        "users".to_owned()
    }

    /// One unique ascending index on `username`.
    fn indexes() -> (ix: Vec<IndexSpec>)
        ensures
            ix@.len() == 1,
            ix@[0].fields@.len() == 1,
            ix@[0].fields@[0].name@ == "username"@,
            ix@[0].fields@[0].order == IndexOrder::Ascending,
            ix@[0].unique,
            !ix@[0].sparse,
            ix@[0].expire_after_secs is None,
            ix@[0].wf(),
    {
        let mut fields: Vec<IndexField> = Vec::new();
        fields.push(IndexField { name: "username".to_owned(), order: IndexOrder::Ascending });
        let mut ix: Vec<IndexSpec> = Vec::new();
        ix.push(IndexSpec { fields, unique: true, sparse: false, expire_after_secs: None });
        ix
    }
}

} // verus!
