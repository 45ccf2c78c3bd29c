use bucket_creds::parsers::cos_map::{parse_cos_map, BaselineRegistry, CosMapItem};

fn plain_item(host: &str, port: u16) -> CosMapItem {
    CosMapItem {
        host: host.to_string(),
        port,
        api_key: None,
        access_key: None,
        secret_key: None,
        ttl: None,
    }
}

#[test]
fn has_hmac_needs_both_keys() {
    let mut config = plain_item("h", 1);
    assert!(!config.has_hmac());
    config.access_key = Some("AK".to_string());
    assert!(!config.has_hmac());
    config.secret_key = Some("SK".to_string());
    assert!(config.has_hmac());
    config.access_key = None;
    assert!(!config.has_hmac());
}

#[test]
fn has_api_key_follows_the_field() {
    let mut config = plain_item("h", 1);
    assert!(!config.has_api_key());
    config.api_key = Some("K".to_string());
    assert!(config.has_api_key());
    assert!(!config.has_hmac());
}

#[test]
fn clone_copies_every_field() {
    let config = CosMapItem {
        host: "s3.example.net".to_string(),
        port: 8443,
        api_key: Some("K".to_string()),
        access_key: Some("AK".to_string()),
        secret_key: Some("SK".to_string()),
        ttl: Some(90),
    };
    let copy = config.clone();
    assert_eq!(copy, config);
    assert_eq!(copy.host, "s3.example.net");
    assert_eq!(copy.port, 8443);
    assert_eq!(copy.api_key.as_deref(), Some("K"));
    assert_eq!(copy.access_key.as_deref(), Some("AK"));
    assert_eq!(copy.secret_key.as_deref(), Some("SK"));
    assert_eq!(copy.ttl, Some(90));
}

#[test]
fn empty_registry_knows_no_bucket() {
    let registry = BaselineRegistry::new();
    assert!(registry.lookup("logs").is_none());
    assert!(registry.lookup("").is_none());
}

#[test]
fn lookup_finds_what_was_inserted() {
    let mut registry = BaselineRegistry::new();
    registry.insert("logs".to_string(), plain_item("a.example", 443));
    registry.insert("media".to_string(), plain_item("b.example", 80));
    assert_eq!(registry.lookup("logs"), Some(&plain_item("a.example", 443)));
    assert_eq!(registry.lookup("media"), Some(&plain_item("b.example", 80)));
    assert!(registry.lookup("log").is_none());
    assert!(registry.lookup("logs ").is_none());
}

#[test]
fn insert_replaces_an_earlier_configuration() {
    let mut registry = BaselineRegistry::new();
    registry.insert("logs".to_string(), plain_item("old.example", 1));
    registry.insert("logs".to_string(), plain_item("new.example", 2));
    assert_eq!(registry.lookup("logs"), Some(&plain_item("new.example", 2)));
}

#[test]
fn parse_cos_map_of_no_rows_is_empty() {
    let registry = parse_cos_map(Vec::new());
    assert!(registry.lookup("logs").is_none());
}

#[test]
fn parse_cos_map_builds_one_item_per_row() {
    let registry = parse_cos_map(vec![
        (
            "logs".to_string(),
            "a.example".to_string(),
            443,
            Some("K1".to_string()),
        ),
        ("media".to_string(), "b.example".to_string(), 80, None),
    ]);
    let logs = registry.lookup("logs").expect("logs is listed");
    assert_eq!(logs.host, "a.example");
    assert_eq!(logs.port, 443);
    assert_eq!(logs.api_key.as_deref(), Some("K1"));
    assert_eq!(logs.access_key, None);
    assert_eq!(logs.secret_key, None);
    assert_eq!(logs.ttl, None);
    let media = registry.lookup("media").expect("media is listed");
    assert_eq!(media.host, "b.example");
    assert_eq!(media.port, 80);
    assert_eq!(media.api_key, None);
    assert!(registry.lookup("other").is_none());
}

#[test]
fn parse_cos_map_lets_the_last_row_of_a_bucket_stand() {
    let registry = parse_cos_map(vec![
        ("logs".to_string(), "first.example".to_string(), 1, None),
        ("media".to_string(), "m.example".to_string(), 2, None),
        (
            "logs".to_string(),
            "last.example".to_string(),
            3,
            Some("K".to_string()),
        ),
    ]);
    let logs = registry.lookup("logs").expect("logs is listed");
    assert_eq!(logs.host, "last.example");
    assert_eq!(logs.port, 3);
    assert_eq!(logs.api_key.as_deref(), Some("K"));
    assert_eq!(registry.lookup("media").expect("media is listed").port, 2);
}
