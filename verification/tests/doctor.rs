use std::path::PathBuf;

use cachix::api::types::{BinaryCache, CompressionMethod, Permission};
use cachix::config::Config;
use cachix::doctor::{
    cmd_doctor, doctor_cache, doctor_cache_failed, doctor_conf, doctor_config, doctor_nix,
    doctor_start, doctor_store_path, Checkup, ConfFile, DoctorEvent, DoctorState,
};
use cachix::nixconf::NixConf;

const PATH: &str = "/nix/store/aaaaaaaaaaaaaaaaaaaaaaaaaaaaaaa1-test";

fn cache(permission: Permission, method: Option<CompressionMethod>) -> BinaryCache {
    BinaryCache {
        name: "c".to_string(),
        uri: "https://c.cachix.org".to_string(),
        is_public: true,
        public_signing_keys: Vec::new(),
        github_username: None,
        permission,
        preferred_compression_method: method,
    }
}

#[test]
fn doctor_on_nix_and_configuration() {
    assert_eq!(doctor_nix(Some("nix (Nix) 2.18\n")), "Nix: nix (Nix) 2.18");
    assert_eq!(doctor_nix(None), "Nix: NOT FOUND");
    let mut cfg = Config::default();
    assert_eq!(
        doctor_config(&cfg),
        ["Config hostname: https://cachix.org", "Auth token: not set"]
    );
    cfg.set_auth_token("t".to_string());
    assert_eq!(doctor_config(&cfg)[1], "Auth token: configured");
}

#[test]
fn doctor_on_caches() {
    for permission in [Permission::Read, Permission::Write, Permission::Admin] {
        for method in [None, Some(CompressionMethod::Xz), Some(CompressionMethod::Zstd)] {
            assert_eq!(
                doctor_cache("c", &cache(permission, method)),
                [
                    "Cache 'c': OK (public: true)".to_string(),
                    "  URI: https://c.cachix.org".to_string(),
                    format!("  Permission: {permission:?}"),
                    format!("  Compression: {method:?}"),
                ]
            );
        }
    }
    assert_eq!(doctor_cache_failed("c", "e"), "Cache 'c': FAILED (e)");
    assert_eq!(doctor_store_path("/s", true), "  Store path /s: CACHED");
    assert_eq!(doctor_store_path("/s", false), "  Store path /s: NOT CACHED");
    assert_eq!(
        doctor_conf("/p", Some("x y")),
        ["nix.conf (/p): found", "  substituters: x y"]
    );
    assert_eq!(doctor_conf("/p", None), ["nix.conf (/p): found"]);
}

/// What the doctor finds where it looks.
struct World {
    nix: Option<&'static str>,
    connected: Result<(), &'static str>,
    cache: Result<(), &'static str>,
    store_path: Result<bool, &'static str>,
    user_conf: Result<Option<&'static str>, &'static str>,
    root_conf: Result<Option<&'static str>, &'static str>,
}

fn sound() -> World {
    World {
        nix: Some("v"),
        connected: Ok(()),
        cache: Ok(()),
        store_path: Ok(true),
        user_conf: Ok(Some("substituters = s\n")),
        root_conf: Ok(None),
    }
}

fn found(
    path: &str,
    text: &Result<Option<&'static str>, &'static str>,
) -> Result<Option<(String, NixConf)>, String> {
    match text {
        Ok(text) => {
            Ok(text.map(|t| (path.to_string(), NixConf::load(PathBuf::from(path), Some(t)))))
        }
        Err(e) => Err(e.to_string()),
    }
}

/// The lines, what was asked of caches, and the error.
fn run(
    world: &World,
    cache_name: Option<&str>,
    store_path: Option<&str>,
) -> (Vec<String>, Vec<String>, Option<String>) {
    let cfg = Config::default();
    let checkup = Checkup {
        cache_name: cache_name.map(String::from),
        store_path: store_path.map(String::from),
    };
    let (mut lines, mut state) = doctor_start();
    let mut asked = Vec::new();
    loop {
        let event = match &state {
            DoctorState::Nix => DoctorEvent::Nix(world.nix.map(String::from)),
            DoctorState::Connecting => {
                DoctorEvent::Connected(world.connected.map_err(String::from))
            }
            DoctorState::Cache(name) => {
                asked.push(name.clone());
                let cache = world.cache.map(|_| cache(Permission::Read, None));
                DoctorEvent::Cache(cache.map_err(String::from))
            }
            DoctorState::StorePath { name, store_path, hash } => {
                asked.push(format!("{name} {store_path} {hash}"));
                DoctorEvent::StorePath(world.store_path.map_err(String::from))
            }
            DoctorState::Conf(ConfFile::User) => DoctorEvent::Conf(found("/u", &world.user_conf)),
            DoctorState::Conf(ConfFile::Root) => DoctorEvent::Conf(found("/r", &world.root_conf)),
            DoctorState::Done => return (lines, asked, None),
            DoctorState::Failed(e) => return (lines, asked, Some(e.clone())),
        };
        let (more, next) = cmd_doctor(state, event, &cfg, &checkup);
        lines.extend(more);
        state = next;
    }
}

#[test]
fn doctor_on_all() {
    let (lines, asked, error) = run(&sound(), Some("c"), Some(PATH));
    assert_eq!(
        lines,
        [
            "Cachix Doctor".to_string(),
            "=============".to_string(),
            "Nix: v".to_string(),
            "Config hostname: https://cachix.org".to_string(),
            "Auth token: not set".to_string(),
            "Cache 'c': OK (public: true)".to_string(),
            "  URI: https://c.cachix.org".to_string(),
            "  Permission: Read".to_string(),
            "  Compression: None".to_string(),
            format!("  Store path {PATH}: CACHED"),
            "nix.conf (/u): found".to_string(),
            "  substituters: s".to_string(),
            "\nDoctor check complete.".to_string(),
        ]
    );
    assert_eq!(
        asked,
        ["c".to_string(), format!("c {PATH} aaaaaaaaaaaaaaaaaaaaaaaaaaaaaaa1")]
    );
    assert_eq!(error, None);
}

#[test]
fn doctor_without_a_cache() {
    let (lines, asked, error) = run(&sound(), None, Some(PATH));
    assert_eq!(
        lines[5..],
        [
            "  (no cache specified, use --cache to check a specific cache)",
            "nix.conf (/u): found",
            "  substituters: s",
            "\nDoctor check complete.",
        ]
    );
    assert!(asked.is_empty());
    assert_eq!(error, None);
}

#[test]
fn doctor_on_a_cache_that_fails() {
    let world = World { cache: Err("gone"), root_conf: Ok(Some("x = 1\n")), ..sound() };
    let (lines, asked, error) = run(&world, Some("c"), Some(PATH));
    assert_eq!(
        lines[5..],
        [
            "Cache 'c': FAILED (gone)",
            "nix.conf (/u): found",
            "  substituters: s",
            "nix.conf (/r): found",
            "\nDoctor check complete.",
        ]
    );
    assert_eq!(asked, ["c"]);
    assert_eq!(error, None);
}

#[test]
fn doctor_gives_up() {
    let world = World { nix: None, ..sound() };
    let (lines, asked, error) = run(&world, Some("c"), Some(PATH));
    assert_eq!(lines, ["Cachix Doctor", "=============", "Nix: NOT FOUND"]);
    assert!(asked.is_empty());
    assert_eq!(error.as_deref(), Some("nix is not installed or not in PATH"));

    let world = World { connected: Err("no client"), ..sound() };
    let (lines, asked, error) = run(&world, Some("c"), Some(PATH));
    assert_eq!(lines.len(), 5);
    assert!(asked.is_empty());
    assert_eq!(error.as_deref(), Some("no client"));

    let (lines, asked, error) = run(&sound(), Some("c"), Some("/x"));
    assert_eq!(lines.len(), 9);
    assert_eq!(asked, ["c"]);
    assert_eq!(error.as_deref(), Some("not a valid store path"));
    let (_, _, error) = run(&sound(), Some("c"), Some("/nix/store/x"));
    assert_eq!(error.as_deref(), Some("store path basename too short: /nix/store/x"));

    let world = World { store_path: Err("down"), ..sound() };
    assert_eq!(run(&world, Some("c"), Some(PATH)).2.as_deref(), Some("down"));
    assert_eq!(run(&world, Some("c"), None).2, None);

    let world = World { user_conf: Err("unreadable"), ..sound() };
    let (lines, _, error) = run(&world, None, None);
    assert_eq!(lines.len(), 6);
    assert_eq!(error.as_deref(), Some("unreadable"));
    let world = World { root_conf: Err("unreadable"), ..sound() };
    let (lines, _, error) = run(&world, None, None);
    assert_eq!(lines.len(), 8);
    assert_eq!(error.as_deref(), Some("unreadable"));
}

#[test]
fn doctor_on_a_store_path_that_is_missing() {
    let world = World { store_path: Ok(false), ..sound() };
    let (lines, _, _) = run(&world, Some("c"), Some(PATH));
    assert_eq!(lines[9], format!("  Store path {PATH}: NOT CACHED"));
}
