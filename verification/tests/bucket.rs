use kinto::bucket::Bucket;
use kinto::client::KintoClient;
use kinto::json::JsonValue;
use kinto::server::ServerState;

fn setup_client() -> KintoClient {
    KintoClient::new("https://kinto.dev/v1", None)
}

fn setup_bucket() -> Bucket {
    setup_client().bucket("food")
}

fn obj(entries: Vec<(&str, JsonValue)>) -> JsonValue {
    JsonValue::Object(entries.into_iter().map(|(k, v)| (k.to_string(), v)).collect())
}

#[test]
fn test_create_bucket() {
    let mut server = ServerState::new();
    let mut bucket = setup_bucket();
    bucket.data = Some(obj(vec![("good", JsonValue::Bool(true))]));

    bucket.create(&mut server).unwrap();
    let data = bucket.data.clone().unwrap();

    assert_eq!(data.get("id"), Some(&JsonValue::Str("food".to_string())));
    assert_eq!(data.get("good"), Some(&JsonValue::Bool(true)));
}

#[test]
fn test_create_bucket_fails_on_existing() {
    let mut server = ServerState::new();
    let mut bucket = setup_bucket();

    // Create
    bucket.create(&mut server).unwrap();

    // Tries to create again
    match bucket.create(&mut server) {
        Ok(_) => panic!(""),
        Err(_) => (),
    }
}

#[test]
fn test_load_bucket() {
    let mut server = ServerState::new();
    let mut bucket = setup_bucket();
    bucket.set(&mut server).unwrap();
    let create_data = bucket.data.clone().unwrap();

    // Cleanup stored data to make sure load works
    bucket.data = Some(JsonValue::new_object());

    bucket.load(&mut server).unwrap();
    let load_data = bucket.data.unwrap();

    assert_eq!(create_data, load_data);
}

#[test]
fn test_load_bucket_fails_on_not_existing() {
    let mut server = ServerState::new();
    let mut bucket = setup_bucket();
    match bucket.load(&mut server) {
        Ok(_) => panic!(""),
        Err(_) => (),
    }
}

#[test]
fn test_update_bucket() {
    let mut server = ServerState::new();
    let mut bucket = setup_bucket();

    bucket.create(&mut server).unwrap();
    let create_data = bucket.data.clone().unwrap();

    bucket.update(&mut server).unwrap();
    let update_data = bucket.data.unwrap();

    assert_eq!(create_data.get("id"), update_data.get("id"));
    assert!(create_data.get("last_modified") != update_data.get("last_modified"));
}

#[test]
fn test_update_bucket_fails_on_not_existing() {
    let mut server = ServerState::new();
    let client = setup_client();
    let mut bucket = client.bucket("food");
    match bucket.update(&mut server) {
        Ok(_) => panic!(""),
        Err(_) => (),
    }
}

#[test]
fn test_get_collection() {
    let bucket = setup_bucket();
    let collection = bucket.collection("meat");
    assert_eq!(collection.id, "meat");
    assert!(collection.data == None);
}

#[test]
fn test_new_collection() {
    let mut server = ServerState::new();
    let mut bucket = setup_bucket();
    bucket.create(&mut server).unwrap();
    let collection = bucket.new_collection(&mut server).unwrap();
    assert!(collection.data != None);
    let data = collection.data.clone().unwrap();
    assert_eq!(data.get("id"), Some(&JsonValue::Str(collection.id.clone())));
}

#[test]
fn test_list_collections() {
    let mut server = ServerState::new();
    let mut bucket = setup_bucket();
    bucket.create(&mut server).unwrap();
    assert_eq!(bucket.list_collections(&mut server).unwrap().len(), 0);
    bucket.new_collection(&mut server).unwrap();
    assert_eq!(bucket.list_collections(&mut server).unwrap().len(), 1);
}

#[test]
fn test_delete_collections() {
    let mut server = ServerState::new();
    let mut bucket = setup_bucket();
    bucket.create(&mut server).unwrap();
    bucket.new_collection(&mut server).unwrap();
    assert_eq!(bucket.list_collections(&mut server).unwrap().len(), 1);
    bucket.delete_collections(&mut server).unwrap();
    assert_eq!(bucket.list_collections(&mut server).unwrap().len(), 0);
}

#[test]
fn test_list_collections_request() {
    let mut bucket = setup_bucket();
    let request = bucket.list_collections_request();
    assert_eq!(request.preparer.path, "/buckets/food/collections");
}

#[test]
fn test_delete_collections_request() {
    let mut bucket = setup_bucket();
    let request = bucket.delete_collections_request();
    assert_eq!(request.preparer.path, "/buckets/food/collections");
}

#[test]
fn test_create_collection_request() {
    let mut bucket = setup_bucket();
    let request = bucket.create_collection_request();
    assert_eq!(request.preparer.path, "/buckets/food/collections");
}
