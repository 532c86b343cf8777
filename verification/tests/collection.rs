use kinto::client::KintoClient;
use kinto::collection::Collection;
use kinto::bucket::Bucket;
use kinto::json::JsonValue;
use kinto::server::ServerState;

fn setup_client() -> KintoClient {
    KintoClient::new("https://kinto.dev/v1", None)
}

fn setup_bucket() -> Bucket {
    setup_client().bucket("food")
}

fn setup_collection() -> Collection {
    setup_bucket().collection("meat")
}

fn obj(entries: Vec<(&str, JsonValue)>) -> JsonValue {
    JsonValue::Object(entries.into_iter().map(|(k, v)| (k.to_string(), v)).collect())
}

#[test]
fn test_create_collection() {
    let mut server = ServerState::new();
    let mut collection = setup_collection();
    collection.data = Some(obj(vec![("good", JsonValue::Bool(true))]));

    collection.create(&mut server).unwrap();
    let data = collection.data.clone().unwrap();

    assert_eq!(data.get("id"), Some(&JsonValue::Str("meat".to_string())));
    assert_eq!(data.get("good"), Some(&JsonValue::Bool(true)));
}

#[test]
fn test_create_collection_fails_on_existing() {
    let mut server = ServerState::new();
    let mut collection = setup_collection();

    // Create
    collection.create(&mut server).unwrap();

    // Tries to create again
    match collection.create(&mut server) {
        Ok(_) => panic!(""),
        Err(_) => (),
    }
}

#[test]
fn test_load_collection() {
    let mut server = ServerState::new();
    let mut collection = setup_collection();
    collection.set(&mut server).unwrap();
    let create_data = collection.data.clone().unwrap();

    // Cleanup stored data to make sure load works
    collection.data = Some(JsonValue::new_object());

    collection.load(&mut server).unwrap();
    let load_data = collection.data.unwrap();

    assert_eq!(create_data, load_data);
}

#[test]
fn test_load_collection_fails_on_not_existing() {
    let mut server = ServerState::new();
    let mut collection = setup_collection();
    match collection.load(&mut server) {
        Ok(_) => panic!(""),
        Err(_) => (),
    }
}

#[test]
fn test_update_collection() {
    let mut server = ServerState::new();
    let mut collection = setup_collection();

    collection.create(&mut server).unwrap();
    let create_data = collection.data.clone().unwrap();

    collection.update(&mut server).unwrap();
    let update_data = collection.data.unwrap();

    assert_eq!(create_data.get("id"), update_data.get("id"));
    assert!(create_data.get("last_modified") != update_data.get("last_modified"));
}

#[test]
fn test_update_collection_fails_on_not_existing() {
    let mut server = ServerState::new();
    let client = setup_bucket();
    let mut collection = client.collection("food");
    match collection.update(&mut server) {
        Ok(_) => panic!(""),
        Err(_) => (),
    }
}

#[test]
fn test_get_record() {
    let collection = setup_collection();
    let record = collection.record("entrecote");
    assert_eq!(record.id, "entrecote");
    assert!(record.data == None);
}

#[test]
fn test_new_record() {
    let mut server = ServerState::new();
    let mut collection = setup_collection();
    collection.create(&mut server).unwrap();
    let record = collection.new_record(&mut server).unwrap();
    assert!(record.data != None);
    let data = record.data.clone().unwrap();
    assert_eq!(data.get("id"), Some(&JsonValue::Str(record.id.clone())));
}

#[test]
fn test_list_records() {
    let mut server = ServerState::new();
    let mut collection = setup_collection();
    collection.create(&mut server).unwrap();
    assert_eq!(collection.list_records(&mut server).unwrap().len(), 0);
    collection.new_record(&mut server).unwrap();
    assert_eq!(collection.list_records(&mut server).unwrap().len(), 1);
}

#[test]
fn test_delete_records() {
    let mut server = ServerState::new();
    let mut collection = setup_collection();
    collection.create(&mut server).unwrap();
    collection.new_record(&mut server).unwrap();
    assert_eq!(collection.list_records(&mut server).unwrap().len(), 1);
    collection.delete_records(&mut server).unwrap();
    assert_eq!(collection.list_records(&mut server).unwrap().len(), 0);
}

#[test]
fn test_list_records_request() {
    let mut collection = setup_collection();
    let request = collection.list_records_request();
    assert_eq!(request.preparer.path, "/buckets/food/collections/meat/records");
}

#[test]
fn test_delete_records_request() {
    let mut collection = setup_collection();
    let request = collection.delete_records_request();
    assert_eq!(request.preparer.path, "/buckets/food/collections/meat/records");
}

#[test]
fn test_create_records_request() {
    let mut collection = setup_collection();
    let request = collection.create_record_request();
    assert_eq!(request.preparer.path, "/buckets/food/collections/meat/records");
}
