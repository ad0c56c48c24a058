use mqtt_broker::cache::{MetadataCache, MetadataCacheAction, MetadataCacheType};
use mqtt_broker::cluster_storage::ClusterStorage;
use mqtt_broker::config::Rocksdb;
use mqtt_broker::metadata::{Session, Topic, User};

fn session(c: &str) -> Session {
    Session { client_id: c.to_string(), session_expiry: 30, is_contain_last_will: false }
}

#[test]
fn cache_tracks_logins_and_connections() {
    let mut m = MetadataCache::new();
    assert!(!m.is_login(1));
    m.login_success(1);
    assert!(m.is_login(1));
    m.set_client_id(1, "c1".to_string());
    m.set_session("c1".to_string(), session("c1"));
    assert!(m.session_info.contains_key(&"c1".to_string()));
    m.remove_connect_id(1);
    assert!(!m.is_login(1));
    assert!(!m.session_info.contains_key(&"c1".to_string()));
    assert_eq!(m.get_client_id(1), None);
    m.remove_connect_id(2);
}

#[test]
fn cache_topics_and_users() {
    let mut m = MetadataCache::new();
    let name = "/t".to_string();
    assert!(!m.topic_exists(&name));
    m.set_topic(&name, &Topic { topic_id: "id1".to_string(), topic_name: name.clone() });
    assert!(m.topic_exists(&name));
    let u = User { username: "u".to_string(), password: "p".to_string(), is_superuser: false };
    m.apply_user_change(MetadataCacheAction::Save, MetadataCacheType::User, u.clone());
    assert!(m.user_info.contains_key(&"u".to_string()));
    m.apply_user_change(MetadataCacheAction::Del, MetadataCacheType::Topic, u.clone());
    assert!(m.user_info.contains_key(&"u".to_string()));
    m.apply_user_change(MetadataCacheAction::Del, MetadataCacheType::User, u);
    assert!(!m.user_info.contains_key(&"u".to_string()));
}

#[test]
fn cluster_storage_set_get_delete() {
    let mut s = ClusterStorage::new();
    assert_eq!(s.get("k".to_string()), None);
    s.set("k".to_string(), vec![1, 2, 3]);
    assert!(s.key_exists("k".to_string()));
    assert_eq!(s.get("k".to_string()), Some(vec![1, 2, 3]));
    s.set("k".to_string(), vec![4]);
    assert_eq!(s.get("k".to_string()), Some(vec![4]));
    s.delete("k".to_string());
    assert!(!s.key_exists("k".to_string()));
    s.save_broker_info();
    s.get_broker_info();
}

#[test]
fn rocksdb_default_open_files() {
    assert_eq!(Rocksdb::default_settings().max_open_files, Some(100));
}
