use cachix::config::{resolve_push_credential, BinaryCacheConfig, Config, PushCredential};

#[test]
fn default_configuration() {
    let config = Config::load(None);
    assert_eq!(config.hostname, "https://cachix.org");
    assert!(config.auth_token.is_none());
    assert!(config.binary_caches.is_empty());
    let stored = Config {
        auth_token: None,
        hostname: "h".to_string(),
        binary_caches: Vec::new(),
    };
    assert_eq!(Config::load(Some(stored)).hostname, "h");
}

#[test]
fn secret_key_that_was_set_is_found() {
    let mut config = Config::default();
    config.set_secret_key("a", "1");
    config.set_secret_key("b", "2");
    config.set_secret_key("a", "3");
    assert_eq!(config.get_secret_key("a"), Some("3"));
    assert_eq!(config.get_secret_key("b"), Some("2"));
    assert_eq!(config.get_secret_key("c"), None);
    let names: Vec<&str> = config.binary_caches.iter().map(|c| c.name.as_str()).collect();
    assert_eq!(names, ["a", "b"]);
}

#[test]
fn first_of_two_caches_counts() {
    let entry = |key: &str| BinaryCacheConfig {
        name: "a".to_string(),
        secret_key: key.to_string(),
    };
    let mut config = Config {
        auth_token: None,
        hostname: String::new(),
        binary_caches: vec![entry("1"), entry("2")],
    };
    assert_eq!(config.get_secret_key("a"), Some("1"));
    config.set_secret_key("a", "9");
    assert_eq!(config.binary_caches[0].secret_key, "9");
    assert_eq!(config.binary_caches[1].secret_key, "2");
}

#[test]
fn credentials_of_the_environment_come_first() {
    let mut config = Config::default();
    config.set_auth_token("ct".to_string());
    config.set_secret_key("a", "ck");
    let c = resolve_push_credential(&config, "a", Some("ek".into()), Some("et".into())).unwrap();
    assert_eq!((c.signing_key(), c.auth_token()), (Some("ek"), Some("et")));
    let c = resolve_push_credential(&config, "a", None, None).unwrap();
    assert_eq!((c.signing_key(), c.auth_token()), (Some("ck"), Some("ct")));
    let c = resolve_push_credential(&config, "b", None, None).unwrap();
    assert!(matches!(c, PushCredential::Token(_)));
    assert_eq!((c.signing_key(), c.auth_token()), (None, Some("ct")));
}

#[test]
fn signing_key_without_a_token() {
    let c = resolve_push_credential(&Config::default(), "a", Some("k".into()), None).unwrap();
    assert_eq!((c.signing_key(), c.auth_token()), (Some("k"), None));
}

#[test]
fn no_credentials() {
    let e = resolve_push_credential(&Config::default(), "a", None, None).unwrap_err();
    assert_eq!(
        e.message(),
        "No credentials found for cache 'a'. \
         Set CACHIX_AUTH_TOKEN or CACHIX_SIGNING_KEY, \
         or run 'cachix authtoken' to configure."
    );
}
