use fusefs::config::{get_mountpoint_from_env, get_store_from_env};
use fusefs::consts::{DEFAULT_MOUNTPOINT, DEFAULT_STORE_TYPE, SOCKET_UPGRADE_PATH};
use fusefs::store::store::StoreType;

#[test]
fn defaults_are_the_documented_ones() {
    assert_eq!(DEFAULT_STORE_TYPE, StoreType::InMemory);
    assert_eq!(DEFAULT_MOUNTPOINT, "/tmp/fusefs");
    assert_eq!(SOCKET_UPGRADE_PATH, "/tmp/fusefs_upgrade.sock");
}

#[test]
fn store_is_chosen_by_its_word() {
    assert_eq!(get_store_from_env(Some("etcd"), StoreType::InMemory), StoreType::Etcd);
    assert_eq!(get_store_from_env(Some("in-mem"), StoreType::Etcd), StoreType::InMemory);
    assert_eq!(get_store_from_env(None, StoreType::Etcd), StoreType::Etcd);
    assert_eq!(get_store_from_env(None, StoreType::InMemory), StoreType::InMemory);
}

#[test]
fn unknown_store_words_give_the_default() {
    for word in ["", "Etcd", "ETCD", "etcd ", "memory", "in-memory", "in_mem"] {
        assert_eq!(get_store_from_env(Some(word), StoreType::InMemory), StoreType::InMemory);
        assert_eq!(get_store_from_env(Some(word), StoreType::Etcd), StoreType::Etcd);
    }
}

#[test]
fn mountpoint_is_the_value_or_the_default() {
    assert_eq!(
        get_mountpoint_from_env(Some("/mnt/x".to_string()), "/tmp/fusefs".to_string()),
        "/mnt/x"
    );
    assert_eq!(get_mountpoint_from_env(None, "/tmp/fusefs".to_string()), "/tmp/fusefs");
    assert_eq!(get_mountpoint_from_env(Some(String::new()), "/tmp/fusefs".to_string()), "");
}
