use mongoose::document::{Document, Value};
use mongoose::types::{
    IndexField, IndexOrder, IndexSpec, ListOptions, MongooseError,
};

fn field(name: &str, order: IndexOrder) -> IndexField {
    IndexField {
        name: name.to_string(),
        order,
    }
}

#[test]
fn list_options_default_is_bounded() {
    let options = ListOptions::default();
    assert_eq!(options.limit, 1_000);
    assert_eq!(options.skip, 0);
    assert_eq!(options.sort, Document::new());
}

#[test]
fn error_constructors_build_their_variant() {
    let m = "boom".to_string();
    assert!(matches!(MongooseError::not_found(m.clone()), MongooseError::NotFound(s) if s == m));
    assert!(matches!(MongooseError::insert_one(m.clone()), MongooseError::InsertOne(s) if s == m));
    assert!(
        matches!(MongooseError::bulk_insert(m.clone()), MongooseError::BulkInsert(s) if s == m)
    );
    assert!(matches!(MongooseError::list(m.clone()), MongooseError::List(s) if s == m));
    assert!(matches!(MongooseError::update(m.clone()), MongooseError::Update(s) if s == m));
    assert!(
        matches!(MongooseError::bulk_update(m.clone()), MongooseError::BulkUpdate(s) if s == m)
    );
    assert!(matches!(MongooseError::delete(m.clone()), MongooseError::Delete(s) if s == m));
    assert!(
        matches!(MongooseError::bulk_delete(m.clone()), MongooseError::BulkDelete(s) if s == m)
    );
    assert!(matches!(MongooseError::count(m.clone()), MongooseError::Count(s) if s == m));
    assert!(matches!(MongooseError::aggregate(m.clone()), MongooseError::Aggregate(s) if s == m));
    assert!(
        matches!(MongooseError::create_index(m.clone()), MongooseError::CreateIndex(s) if s == m)
    );
}

#[test]
fn error_messages_name_the_operation() {
    assert_eq!(
        MongooseError::not_found("missing".to_string()).message(),
        "no document found: missing"
    );
    assert_eq!(
        MongooseError::insert_one("io".to_string()).message(),
        "error inserting document: io"
    );
    assert_eq!(
        MongooseError::bulk_insert("io".to_string()).message(),
        "error bulk inserting documents: io"
    );
    assert_eq!(
        MongooseError::list("io".to_string()).message(),
        "error listing documents: io"
    );
    assert_eq!(
        MongooseError::update("io".to_string()).message(),
        "error updating document: io"
    );
    assert_eq!(
        MongooseError::bulk_update("io".to_string()).message(),
        "error bulk updating documents: io"
    );
    assert_eq!(
        MongooseError::delete("io".to_string()).message(),
        "error deleting document: io"
    );
    assert_eq!(
        MongooseError::bulk_delete("io".to_string()).message(),
        "error bulk deleting documents: io"
    );
    assert_eq!(
        MongooseError::count("io".to_string()).message(),
        "error counting documents: io"
    );
    assert_eq!(
        MongooseError::aggregate("io".to_string()).message(),
        "error aggregating documents: io"
    );
    assert_eq!(
        MongooseError::create_index("io".to_string()).message(),
        "error creating indexes: io"
    );
}

#[test]
fn create_indexes() {
    // a typical migration set: unique username and slug, a sparse text
    // index, and a compound unique email/created_at index
    let username = IndexSpec {
        fields: vec![field("username", IndexOrder::Ascending)],
        unique: true,
        sparse: false,
        expire_after_secs: None,
    };
    let slug = IndexSpec {
        fields: vec![field("slug", IndexOrder::Ascending)],
        unique: true,
        sparse: false,
        expire_after_secs: None,
    };
    let text = IndexSpec {
        fields: vec![field("slug", IndexOrder::Text)],
        unique: false,
        sparse: true,
        expire_after_secs: None,
    };
    let compound = IndexSpec {
        fields: vec![
            field("email", IndexOrder::Ascending),
            field("created_at", IndexOrder::Descending),
        ],
        unique: true,
        sparse: false,
        expire_after_secs: None,
    };
    assert_eq!(username.default_name(), "username_1");
    assert_eq!(slug.default_name(), "slug_1");
    assert_eq!(text.default_name(), "slug_text");
    assert_eq!(compound.default_name(), "email_1_created_at_-1");

    let keys = compound.key_document();
    assert_eq!(keys.len(), 2);
    assert_eq!(keys.get("email"), Some(&Value::Int32(1)));
    assert_eq!(keys.get("created_at"), Some(&Value::Int32(-1)));
    let text_keys = text.key_document();
    assert_eq!(text_keys.get("slug"), Some(&Value::Str("text".to_string())));
}

#[test]
fn create_ttl_indexes() {
    let ttl = IndexSpec {
        fields: vec![field("created_at", IndexOrder::Ascending)],
        unique: false,
        sparse: false,
        expire_after_secs: Some(60),
    };
    assert_eq!(ttl.expire_after_secs, Some(60));
    assert_eq!(ttl.default_name(), "created_at_1");
    let keys = ttl.key_document();
    assert_eq!(keys.get("created_at"), Some(&Value::Int32(1)));
}
