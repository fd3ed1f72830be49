use mongoose::connection::default_connection_uri;
use mongoose::document::{Document, Value};
use mongoose::model::{
    aggregate_outcome, bulk_delete_outcome, bulk_insert_outcome, bulk_update_outcome,
    count_outcome, create_indexes_outcome, create_view_outcome, delete_outcome,
    derive_collection_name, generate_id, id_filter, list_outcome, list_query, read_outcome,
    save_outcome, update_outcome, Model,
};
use mongoose::models::user::User;
use mongoose::types::{
    CreateIndexesResult, CreateViewReply, DeleteResult, IndexOrder, InsertManyResult, ListOptions,
    MongooseError, UpdateResult,
};

fn sample_user(name: &str, age: u32) -> User {
    User {
        id: generate_id(),
        username: name.to_string(),
        age,
        created_at: 1_000,
        updated_at: 1_000,
    }
}

#[test]
fn create_one() {
    let user = sample_user("u1", 30);
    let saved = save_outcome(user.clone(), Ok(()));
    assert_eq!(saved.unwrap(), user);
    let failed = save_outcome(user, Err("wire broke".to_string()));
    assert!(matches!(
        failed,
        Err(MongooseError::InsertOne(m)) if m == "wire broke"
    ));
}

#[test]
fn read() {
    let user = sample_user("u2", 41);
    let fetched = read_outcome(Ok(Some(user.clone())));
    assert_eq!(fetched.unwrap(), user);
    let missing: Result<User, _> = read_outcome(Ok(None));
    assert!(matches!(
        missing,
        Err(MongooseError::NotFound(m)) if m == "no documents returned matching filter"
    ));
    // a transport failure is reported apart from the zero-match NotFound
    let broken: Result<User, _> = read_outcome(Err("io".to_string()));
    assert!(matches!(broken, Err(MongooseError::List(m)) if m == "io"));
}

#[test]
fn read_by_id() {
    // round trip: the saved record, fetched back under its identifier,
    // comes back equal
    let user = sample_user("u3", 18);
    let filter = id_filter(user.id.clone());
    assert_eq!(filter.len(), 1);
    assert_eq!(filter.get("_id"), Some(&Value::Str(user.id.clone())));
    let saved = save_outcome(user.clone(), Ok(())).unwrap();
    let fetched = read_outcome(Ok(Some(saved))).unwrap();
    assert_eq!(fetched, user);
}

#[test]
fn bulk_insert() {
    let ids = InsertManyResult {
        inserted_ids: (0..5).map(|_| generate_id()).collect(),
    };
    let expected = ids.inserted_ids.clone();
    let inserted = bulk_insert_outcome(Ok(ids)).unwrap();
    assert_eq!(inserted.inserted_ids.len(), 5);
    assert_eq!(inserted.inserted_ids, expected);
    assert!(matches!(
        bulk_insert_outcome(Err("io".to_string())),
        Err(MongooseError::BulkInsert(m)) if m == "io"
    ));
}

#[test]
fn list() {
    let users: Vec<Result<User, String>> =
        (0..5).map(|i| Ok(sample_user("u", i))).collect();
    let listed = list_outcome(Ok(users)).unwrap();
    assert_eq!(listed.len(), 5);
    let empty: Vec<User> = list_outcome(Ok(vec![])).unwrap();
    assert!(empty.is_empty());
    let broken: Result<Vec<User>, _> = list_outcome(Err("io".to_string()));
    assert!(matches!(broken, Err(MongooseError::List(m)) if m == "io"));
}

#[test]
fn list_stops_at_first_cursor_failure() {
    let items: Vec<Result<User, String>> = vec![
        Ok(sample_user("a", 1)),
        Err("cursor died".to_string()),
        Ok(sample_user("b", 2)),
        Err("later".to_string()),
    ];
    let listed = list_outcome(Ok(items));
    assert!(matches!(
        listed,
        Err(MongooseError::List(m)) if m == "cursor died"
    ));
}

#[test]
fn pagination() {
    // ten records sorted by ascending age, limited to ten
    let mut sort = Document::new();
    sort.insert("age".to_string(), Value::Int32(1));
    let q = list_query(
        Document::new(),
        ListOptions {
            limit: 10,
            skip: 0,
            sort,
        },
    );
    assert_eq!(q.limit, 10);
    assert_eq!(q.skip, 0);
    assert_eq!(q.sort.get("age"), Some(&Value::Int32(1)));

    let ages = [2u32, 4, 7, 11, 13, 25, 31, 44, 80, 99];
    let reply: Vec<Result<User, String>> =
        ages.iter().map(|a| Ok(sample_user("u", *a))).collect();
    let listed = list_outcome(Ok(reply)).unwrap();
    assert_eq!(listed.len(), 10);
    for pair in listed.windows(2) {
        assert!(pair[0].age <= pair[1].age);
    }
}

#[test]
fn unset_limit_stays_bounded() {
    let q = list_query(Document::new(), ListOptions::default());
    assert_eq!(q.limit, 1_000);
}

#[test]
fn update_returns_post_update_document() {
    let before = sample_user("u4", 30);
    let mut after = before.clone();
    after.age = 29;
    after.updated_at = 2_000;
    let updated = update_outcome(Ok(Some(after.clone()))).unwrap();
    assert_eq!(updated.age, before.age - 1);
    assert!(updated.updated_at > before.updated_at);
}

#[test]
fn update_missing_is_not_found() {
    let missing: Result<User, _> = update_outcome(Ok(None));
    assert!(matches!(
        missing,
        Err(MongooseError::NotFound(m)) if m == "no documents returned matching filter"
    ));
    let broken: Result<User, _> = update_outcome(Err("io".to_string()));
    assert!(matches!(broken, Err(MongooseError::Update(m)) if m == "io"));
}

#[test]
fn bulk_update() {
    let counts = bulk_update_outcome(Ok(UpdateResult {
        matched_count: 4,
        modified_count: 3,
    }))
    .unwrap();
    assert_eq!(counts.matched_count, 4);
    assert_eq!(counts.modified_count, 3);
    assert!(matches!(
        bulk_update_outcome(Err("io".to_string())),
        Err(MongooseError::BulkUpdate(m)) if m == "io"
    ));
}

#[test]
fn delete_one() {
    let deleted = delete_outcome(Ok(DeleteResult { deleted_count: 1 })).unwrap();
    assert_eq!(deleted.deleted_count, 1);
    assert!(matches!(
        delete_outcome(Err("io".to_string())),
        Err(MongooseError::Delete(m)) if m == "io"
    ));
}

#[test]
fn delete_missing_still_succeeds() {
    // deleting a record that does not exist succeeds with a zero count,
    // and reading it afterwards reports NotFound
    let outcome = delete_outcome(Ok(DeleteResult { deleted_count: 0 }));
    assert_eq!(outcome.unwrap().deleted_count, 0);
    let reread: Result<User, _> = read_outcome(Ok(None));
    assert!(matches!(reread, Err(MongooseError::NotFound(_))));
}

#[test]
fn bulk_delete() {
    let deleted = bulk_delete_outcome(Ok(DeleteResult { deleted_count: 10 })).unwrap();
    assert_eq!(deleted.deleted_count, 10);
    assert!(matches!(
        bulk_delete_outcome(Err("io".to_string())),
        Err(MongooseError::BulkDelete(m)) if m == "io"
    ));
}

#[test]
fn count() {
    assert_eq!(count_outcome(Ok(42)).unwrap(), 42);
    assert!(matches!(
        count_outcome(Err("io".to_string())),
        Err(MongooseError::Count(m)) if m == "io"
    ));
}

#[test]
fn aggregate_collects_decoded_rows() {
    let rows: Vec<Result<u64, String>> = vec![Ok(1), Ok(2), Ok(3)];
    assert_eq!(aggregate_outcome(Ok(rows)).unwrap(), vec![1, 2, 3]);
    let broken: Result<Vec<u64>, _> = aggregate_outcome(Err("io".to_string()));
    assert!(matches!(broken, Err(MongooseError::Aggregate(m)) if m == "io"));
}

#[test]
fn aggregate_decode_failure_aborts_whole_call() {
    let rows: Vec<Result<u64, String>> =
        vec![Ok(1), Err("bad row".to_string()), Ok(3)];
    let out = aggregate_outcome(Ok(rows));
    assert!(matches!(
        out,
        Err(MongooseError::Aggregate(m)) if m == "bad row"
    ));
}

#[test]
fn create_indexes_reports_names() {
    let names = CreateIndexesResult {
        index_names: vec!["username_1".to_string()],
    };
    let created = create_indexes_outcome(Ok(names)).unwrap();
    assert_eq!(created.index_names, vec!["username_1".to_string()]);
    assert!(matches!(
        create_indexes_outcome(Err("io".to_string())),
        Err(MongooseError::CreateIndex(m)) if m == "io"
    ));
}

#[test]
fn create_view_tolerates_pre_existing_view() {
    assert!(create_view_outcome(CreateViewReply::Created));
    // a view of the same name already existing still counts as success
    assert!(create_view_outcome(CreateViewReply::AlreadyExists));
    assert!(!create_view_outcome(CreateViewReply::Failed(
        "invalid pipeline".to_string()
    )));
}

#[test]
fn collection_names_are_snake_cased_and_pluralized() {
    assert_eq!(derive_collection_name("User"), "users");
    assert_eq!(derive_collection_name("mongoose::models::user::User"), "users");
    assert_eq!(derive_collection_name("UserProfile"), "user_profiles");
    assert_eq!(derive_collection_name("Address"), "address");
    assert_eq!(derive_collection_name("Post"), "posts");
}

#[test]
fn generated_ids_are_long_uppercase_and_distinct() {
    let a = generate_id();
    let b = generate_id();
    assert_eq!(a.len(), 20);
    assert!(a.chars().all(|c| c.is_ascii_uppercase()));
    assert_ne!(a, b);
}

#[test]
fn user_defaults() {
    let u = User::default();
    assert_eq!(u.id.len(), 20);
    assert!(u.username.is_empty());
    assert_eq!(u.age, 0);
    assert_eq!(u.created_at, u.updated_at);
}

#[test]
fn user_hooks() {
    assert_eq!(User::collection_name(), "users");
    let ix = User::indexes();
    assert_eq!(ix.len(), 1);
    assert!(ix[0].unique);
    assert!(!ix[0].sparse);
    assert_eq!(ix[0].expire_after_secs, None);
    assert_eq!(ix[0].fields.len(), 1);
    assert_eq!(ix[0].fields[0].name, "username");
    assert_eq!(ix[0].fields[0].order, IndexOrder::Ascending);
    assert_eq!(ix[0].default_name(), "username_1");
}

#[test]
fn default_uri_names_the_local_database() {
    assert_eq!(
        default_connection_uri(),
        "mongodb://localhost:27017/mongoose-rs-local?connectTimeoutMS=10000&maxPoolSize=500"
    );
}
