use kinto::client::KintoClient;
use kinto::error::KintoError;
use kinto::json::JsonValue;
use kinto::paths::{extract_ids_from_path, Paths};
use kinto::request::{
    classify_status, hydrate_envelope, ETagMatch, GetRecord, KintoRequest, PluralEndpoint,
    UpdateRecord,
};
use kinto::server::ServerState;

fn setup_client() -> KintoClient {
    KintoClient::new("https://kinto.dev/v1", None)
}

fn obj(entries: Vec<(&str, JsonValue)>) -> JsonValue {
    JsonValue::Object(entries.into_iter().map(|(k, v)| (k.to_string(), v)).collect())
}

#[test]
fn test_path_builder_canonical_shapes() {
    assert_eq!(Paths::Buckets.build(), "/buckets");
    assert_eq!(Paths::Bucket("food").build(), "/buckets/food");
    assert_eq!(Paths::Collections("food").build(), "/buckets/food/collections");
    assert_eq!(Paths::Collection("food", "meat").build(), "/buckets/food/collections/meat");
    assert_eq!(
        Paths::Records("food", "meat").build(),
        "/buckets/food/collections/meat/records"
    );
    assert_eq!(
        Paths::Record("food", "meat", "entrecote").build(),
        "/buckets/food/collections/meat/records/entrecote"
    );
}

#[test]
fn test_extract_ids_round_trip() {
    let ids = extract_ids_from_path("/buckets/food/collections/meat/records");
    assert_eq!(ids.bucket.as_deref(), Some("food"));
    assert_eq!(ids.collection.as_deref(), Some("meat"));
    assert_eq!(ids.record, None);

    let ids = extract_ids_from_path("/buckets/food");
    assert_eq!(ids.bucket.as_deref(), Some("food"));
    assert_eq!(ids.collection, None);

    let ids = extract_ids_from_path("/buckets/food/collections/meat/records/entrecote");
    assert_eq!(ids.bucket.as_deref(), Some("food"));
    assert_eq!(ids.collection.as_deref(), Some("meat"));
    assert_eq!(ids.record.as_deref(), Some("entrecote"));

    let ids = extract_ids_from_path("/buckets");
    assert_eq!(ids.bucket, None);
    assert_eq!(ids.collection, None);
    assert_eq!(ids.record, None);
}

#[test]
fn test_classification_precedence() {
    assert_eq!(classify_status(304), Some(KintoError::NotModified));
    assert_eq!(classify_status(412), Some(KintoError::PreconditionFailed));
    assert_eq!(classify_status(404), Some(KintoError::RequestError(404)));
    assert_eq!(classify_status(403), Some(KintoError::RequestError(403)));
    assert_eq!(classify_status(500), Some(KintoError::RequestError(500)));
    assert_eq!(classify_status(200), None);
    assert_eq!(classify_status(201), None);
}

#[test]
fn test_hydrate_envelope_rejects_unparsed_body() {
    let client = setup_client();
    let r = hydrate_envelope(&client, "/buckets/food", 200, None);
    assert_eq!(r.unwrap_err(), KintoError::MalformedResponse);

    let r = hydrate_envelope(&client, "/buckets/food", 200, Some(JsonValue::new_object()));
    let w = r.unwrap();
    assert_eq!(w.status, 200);
    assert_eq!(w.path, "/buckets/food");
}

#[test]
fn test_payload_setters_do_not_clobber() {
    let mut body = JsonValue::new_object();
    body.set("data", obj(vec![("good", JsonValue::Bool(true))]));
    body.set("permissions", obj(vec![("read", JsonValue::Array(vec![]))]));
    assert_eq!(
        body.get("data"),
        Some(&obj(vec![("good", JsonValue::Bool(true))]))
    );
    assert_eq!(
        body.get("permissions"),
        Some(&obj(vec![("read", JsonValue::Array(vec![]))]))
    );
    // writing one key again replaces only that key
    body.set("data", JsonValue::Num(4));
    assert_eq!(body.get("data"), Some(&JsonValue::Num(4)));
    assert_eq!(
        body.get("permissions"),
        Some(&obj(vec![("read", JsonValue::Array(vec![]))]))
    );
}

#[test]
fn test_create_then_second_create_is_request_error() {
    // bucket "food" created with {"good": true}: the answer carries the
    // identifier and the document; a second creation under the same
    // identifier is a request error.
    let mut server = ServerState::new();
    let mut bucket = setup_client().bucket("food");
    bucket.data = Some(obj(vec![("good", JsonValue::Bool(true))]));
    bucket.create(&mut server).unwrap();
    let data = bucket.data.clone().unwrap();
    assert_eq!(data.get("id"), Some(&JsonValue::Str("food".to_string())));
    assert_eq!(data.get("good"), Some(&JsonValue::Bool(true)));

    let mut again = setup_client().bucket("food");
    let err = again.create(&mut server).unwrap_err();
    assert!(matches!(err, KintoError::RequestError(_)));
}

#[test]
fn test_update_nonexistent_is_request_error() {
    let mut server = ServerState::new();
    let mut bucket = setup_client().bucket("food");
    let err = bucket.update(&mut server).unwrap_err();
    assert!(matches!(err, KintoError::RequestError(_)));
}

#[test]
fn test_update_strictly_increases_timestamp() {
    let mut server = ServerState::new();
    let mut bucket = setup_client().bucket("food");
    bucket.create(&mut server).unwrap();
    let t1 = bucket.timestamp.unwrap();
    bucket.update(&mut server).unwrap();
    let t2 = bucket.timestamp.unwrap();
    assert!(t2 > t1);
    bucket.update(&mut server).unwrap();
    let t3 = bucket.timestamp.unwrap();
    assert!(t3 > t2);
}

#[test]
fn test_stale_conditional_update_fails_and_preserves_resource() {
    let mut server = ServerState::new();
    let mut bucket = setup_client().bucket("food");
    bucket.data = Some(obj(vec![("v", JsonValue::Num(1))]));
    bucket.create(&mut server).unwrap();
    let stale = bucket.timestamp.unwrap();

    // another writer advances the resource
    let mut other = setup_client().bucket("food");
    other.data = Some(obj(vec![("v", JsonValue::Num(2))]));
    other.set(&mut server).unwrap();

    // the first writer still carries the stale revision token
    bucket.data = Some(obj(vec![("v", JsonValue::Num(3))]));
    bucket.timestamp = Some(stale);
    let err = bucket.update(&mut server).unwrap_err();
    assert_eq!(err, KintoError::PreconditionFailed);

    // the server-side resource is unchanged: a load still sees the winner
    let mut check = setup_client().bucket("food");
    check.load(&mut server).unwrap();
    let data = check.data.unwrap();
    assert_eq!(data.get("v"), Some(&JsonValue::Num(2)));
}

#[test]
fn test_conditional_read_not_modified() {
    let mut server = ServerState::new();
    let mut bucket = setup_client().bucket("food");
    bucket.create(&mut server).unwrap();
    let ts = bucket.timestamp.unwrap();

    let mut req = GetRecord::new(setup_client(), Paths::Bucket("food").build());
    req.if_none_match(ETagMatch::Token(ts));
    let err = req.send(&mut server).unwrap_err();
    assert_eq!(err, KintoError::NotModified);
}

#[test]
fn test_list_counts_each_creation() {
    let mut server = ServerState::new();
    let mut collection = setup_client().bucket("food").collection("meat");
    collection.create(&mut server).unwrap();
    assert_eq!(collection.list_records(&mut server).unwrap().len(), 0);
    for name in ["one", "two", "three"] {
        let mut rec = setup_client().bucket("food").collection("meat").record(name);
        rec.create(&mut server).unwrap();
    }
    let ids = collection.list_records(&mut server).unwrap();
    assert_eq!(ids, vec!["one".to_string(), "two".to_string(), "three".to_string()]);
    collection.delete_records(&mut server).unwrap();
    assert_eq!(collection.list_records(&mut server).unwrap().len(), 0);
}

#[test]
fn test_delete_then_load_is_request_error() {
    let mut server = ServerState::new();
    let mut bucket = setup_client().bucket("food");
    bucket.create(&mut server).unwrap();
    bucket.delete(&mut server).unwrap();
    let err = bucket.load(&mut server).unwrap_err();
    assert!(matches!(err, KintoError::RequestError(_)));
    let err = bucket.delete(&mut server).unwrap_err();
    assert!(matches!(err, KintoError::RequestError(_)));
}

#[test]
fn test_bucket_permissions_round_trip() {
    let p = kinto::bucket::BucketPermissions {
        read: vec!["alice".to_string()],
        write: vec!["bob".to_string(), "carol".to_string()],
        create_collection: vec![],
        create_group: vec!["dave".to_string()],
    };
    let q = kinto::bucket::BucketPermissions::from_json(&p.to_json());
    assert_eq!(q.read, vec!["alice".to_string()]);
    assert_eq!(q.write, vec!["bob".to_string(), "carol".to_string()]);
    assert!(q.create_collection.is_empty());
    assert_eq!(q.create_group, vec!["dave".to_string()]);
}

#[test]
fn test_record_permissions_round_trip() {
    let p = kinto::record::RecordPermissions {
        read: Some(vec!["alice".to_string()]),
        write: None,
    };
    let q = kinto::record::RecordPermissions::from_json(&p.to_json());
    assert_eq!(q.read, Some(vec!["alice".to_string()]));
    assert_eq!(q.write, None);
}

#[test]
fn test_limit_and_conditions_on_requests() {
    let mut req = kinto::request::GetCollection::new(
        setup_client(),
        Paths::Collections("food").build(),
    );
    req.limit(5);
    assert_eq!(req.preparer.limit, Some(5));

    let mut upd = UpdateRecord::new(setup_client(), Paths::Bucket("food").build());
    upd.if_match(ETagMatch::Token(7));
    assert_eq!(upd.preparer.if_match, Some(ETagMatch::Token(7)));
}

#[test]
fn test_json_get_distinguishes_keys() {
    let v = obj(vec![
        ("alpha", JsonValue::Num(1)),
        ("beta", JsonValue::Num(2)),
    ]);
    assert_eq!(v.get("alpha"), Some(&JsonValue::Num(1)));
    assert_eq!(v.get("beta"), Some(&JsonValue::Num(2)));
    assert_eq!(v.get("gamma"), None);
    assert_eq!(JsonValue::Null.get("alpha"), None);
}

#[test]
fn test_generated_identifiers_are_distinct() {
    let mut server = ServerState::new();
    let mut bucket = setup_client().bucket("food");
    bucket.create(&mut server).unwrap();
    let c1 = bucket.new_collection(&mut server).unwrap();
    let c2 = bucket.new_collection(&mut server).unwrap();
    assert_ne!(c1.id, c2.id);
    assert!(!c1.id.is_empty());
    let ids = bucket.list_collections(&mut server).unwrap();
    assert_eq!(ids.len(), 2);
}

#[test]
fn test_patch_requires_existing_resource() {
    let mut server = ServerState::new();
    let mut bucket = setup_client().bucket("food");
    bucket.create(&mut server).unwrap();

    let mut patch = kinto::request::PatchRecord::new(setup_client(), Paths::Bucket("nope").build());
    let err = patch.send(&mut server).unwrap_err();
    assert!(matches!(err, KintoError::RequestError(_)));

    let patch = kinto::request::PatchRecord::new(setup_client(), Paths::Bucket("food").build());
    let w = patch.send(&mut server).unwrap();
    assert_eq!(w.status, 200);
}

#[test]
fn test_list_and_delete_buckets() {
    let mut server = ServerState::new();
    let client = setup_client();
    assert_eq!(client.list_buckets(&mut server).unwrap().len(), 0);
    client.bucket("food").create(&mut server).unwrap();
    client.bucket("drink").create(&mut server).unwrap();
    assert_eq!(
        client.list_buckets(&mut server).unwrap(),
        vec!["food".to_string(), "drink".to_string()]
    );
    client.delete_buckets(&mut server).unwrap();
    assert_eq!(client.list_buckets(&mut server).unwrap().len(), 0);
}
