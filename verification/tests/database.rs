use mongodb::bson::Document;
use mongodb::options::ClientOptions;
use mongodb::{Client, Collection};
use pattern_of_doom::database::cache::{Cache, CHATCOLLECTION, USERCOLLECTION};
use pattern_of_doom::database::mongodb_uri;

fn collections() -> (Collection<Document>, Collection<Document>) {
    let rt = tokio::runtime::Runtime::new().unwrap();
    rt.block_on(async {
        let options = ClientOptions::parse("mongodb://localhost:27017").await.unwrap();
        let client = Client::with_options(options).unwrap();
        let db = client.database("Pattern_Of_Doom");
        (db.collection::<Document>(CHATCOLLECTION), db.collection::<Document>(USERCOLLECTION))
    })
}

#[test]
fn connection_string() {
    assert_eq!(
        mongodb_uri("pw"),
        "mongodb+srv://waneexw:pw@main.3thc3.mongodb.net/?retryWrites=true&w=majority&appName=main"
    );
}

#[test]
fn collection_names() {
    assert_eq!(CHATCOLLECTION, "Chat");
    assert_eq!(USERCOLLECTION, "UserAccounts");
}

#[test]
fn cache_reads_back_what_it_keeps() {
    let (chat, users) = collections();
    let mut cache = Cache::new();
    assert!(cache.is_empty());
    assert!(cache.get_collection("Chat".to_string()).is_none());
    cache.set("Chat".to_string(), chat.clone());
    assert!(!cache.is_empty());
    assert_eq!(cache.get_collection("Chat".to_string()).unwrap().name(), "Chat");
    assert!(cache.get_collection("UserAccounts".to_string()).is_none());
    cache.set("UserAccounts".to_string(), users.clone());
    assert_eq!(cache.get_collection("UserAccounts".to_string()).unwrap().name(), "UserAccounts");
    assert_eq!(cache.get_collection("Chat".to_string()).unwrap().name(), "Chat");
    cache.set("Chat".to_string(), users);
    assert_eq!(cache.get_collection("Chat".to_string()).unwrap().name(), "UserAccounts");
}

#[test]
fn cache_after_a_sequence_of_sets() {
    let (chat, users) = collections();
    let mut cache = Cache::new();
    cache.set("a".to_string(), chat.clone());
    cache.set("b".to_string(), users.clone());
    cache.set("a".to_string(), users.clone());
    cache.set("c".to_string(), chat.clone());
    assert_eq!(cache.get_collection("a".to_string()).unwrap().name(), "UserAccounts");
    assert_eq!(cache.get_collection("b".to_string()).unwrap().name(), "UserAccounts");
    assert_eq!(cache.get_collection("c".to_string()).unwrap().name(), "Chat");
    assert!(cache.get_collection("d".to_string()).is_none());
}
