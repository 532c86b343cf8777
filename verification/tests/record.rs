use kinto::bucket::Bucket;
use kinto::client::KintoClient;
use kinto::collection::Collection;
use kinto::json::JsonValue;
use kinto::record::Record;
use kinto::server::ServerState;

fn setup_client() -> KintoClient {
    KintoClient::new("https://kinto.dev/v1", None)
}

fn setup_bucket() -> Bucket {
    setup_client().bucket("food")
}

fn setup_collection() -> Collection {
    setup_bucket().collection("meat")
}

fn setup_record() -> Record {
    setup_collection().record("entrecote")
}

fn obj(entries: Vec<(&str, JsonValue)>) -> JsonValue {
    JsonValue::Object(entries.into_iter().map(|(k, v)| (k.to_string(), v)).collect())
}

#[test]
fn test_create_record() {
    let mut server = ServerState::new();
    let mut record = setup_record();
    record.data = Some(obj(vec![("good", JsonValue::Bool(true))]));
    record.create(&mut server).unwrap();
    let data = record.data.clone().unwrap();

    assert_eq!(data.get("id"), Some(&JsonValue::Str("entrecote".to_string())));
    assert_eq!(data.get("good"), Some(&JsonValue::Bool(true)));
}

#[test]
fn test_create_record_fails_on_existing() {
    let mut server = ServerState::new();
    let mut record = setup_record();

    // Create
    record.create(&mut server).unwrap();

    // Tries to create again
    record.create(&mut server).unwrap_err();
}

#[test]
fn test_load_record() {
    let mut server = ServerState::new();
    let mut record = setup_record();
    record.set(&mut server).unwrap();
    let create_data = record.data.clone().unwrap();

    // Cleanup stored data to make sure load works
    record.data = Some(JsonValue::new_object());

    record.load(&mut server).unwrap();
    let load_data = record.data.unwrap();

    assert_eq!(create_data, load_data);
}

#[test]
fn test_load_record_fails_on_not_existing() {
    let mut server = ServerState::new();
    let mut record = setup_record();
    record.load(&mut server).unwrap_err();
}

#[test]
fn test_update_record() {
    let mut server = ServerState::new();
    let mut record = setup_record();

    record.create(&mut server).unwrap();
    let create_data = record.data.clone().unwrap();

    record.update(&mut server).unwrap();
    let update_data = record.data.unwrap();

    assert_eq!(create_data.get("id"), update_data.get("id"));
    assert!(create_data.get("last_modified") != update_data.get("last_modified"));
}

#[test]
fn test_update_record_fails_on_not_existing() {
    let mut server = ServerState::new();
    let client = setup_collection();
    let mut record = client.record("food");
    record.update(&mut server).unwrap_err();
}

#[test]
fn test_default_record_permissions_travel_nothing() {
    let p = kinto::record::RecordPermissions::default();
    assert_eq!(p.read, None);
    assert_eq!(p.write, None);
    assert_eq!(p.to_json(), JsonValue::Object(vec![]));
}
