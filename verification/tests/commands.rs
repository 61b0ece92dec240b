use std::path::PathBuf;

use cachix::api::types::{CompressionMethod, DaemonClientMessage, PinKeep};
use cachix::cli::{
    CompressionMethodArg, ConfigCommand, DeployCommand, InstallModeArg, PushArgs,
};
use cachix::commands::{
    cmd_authtoken, cmd_config, cmd_daemon, cmd_deploy, cmd_pin, cmd_push, cmd_watch_exec, deploy_variable,
    given_paths, install_mode, make_api_client, make_api_client_with_credential,
    make_push_options, netrc_action, override_hostname, ConfigOutcome, DaemonRequest,
    DeployClientError, NetrcAction,
};
use cachix::config::{Config, PushCredential};
use cachix::nixconf::InstallMode;

#[test]
fn host_of_the_command_line() {
    let mut cfg = Config::default();
    cfg.hostname = "https://mine".to_string();
    override_hostname(&mut cfg, "https://cachix.org");
    assert_eq!(cfg.hostname, "https://mine");
    override_hostname(&mut cfg, "https://other");
    assert_eq!(cfg.hostname, "https://other");
}

#[test]
fn auth_tokens() {
    let mut cfg = Config::default();
    cmd_authtoken(&mut cfg, Some("  tok \n".into()), None).unwrap();
    assert_eq!(cfg.auth_token.as_deref(), Some("tok"));
    cmd_authtoken(&mut cfg, None, Some(" t2".into())).unwrap();
    assert_eq!(cfg.auth_token.as_deref(), Some(" t2"));
    let e = cmd_authtoken(&mut cfg, None, None).unwrap_err();
    assert_eq!(e.message(), "auth token argument is required (or use --stdin)");
    let e = cmd_authtoken(&mut cfg, Some(" \n".into()), Some("x".into())).unwrap_err();
    assert_eq!(e.message(), "auth token cannot be empty");
    assert_eq!(cfg.auth_token.as_deref(), Some(" t2"));
}

#[test]
fn configuration_values() {
    let mut cfg = Config::default();
    let get = |key: &str| ConfigCommand::Get { key: key.to_string() };
    let set = |key: &str, value: &str| ConfigCommand::Update {
        key: key.to_string(),
        value: value.to_string(),
    };
    let got = cmd_config(&mut cfg, get("hostname")).unwrap();
    assert!(matches!(got, ConfigOutcome::Value(v) if v == "https://cachix.org"));
    assert!(matches!(cmd_config(&mut cfg, set("hostname", "h")), Ok(ConfigOutcome::Updated)));
    assert_eq!(cfg.hostname, "h");
    let e = cmd_config(&mut cfg, get("x")).unwrap_err();
    assert_eq!(e.message(), "unknown config key: x");
    assert!(cmd_config(&mut cfg, set("x", "y")).is_err());
    assert_eq!(cfg.hostname, "h");
}

#[test]
fn modes_and_options() {
    assert_eq!(install_mode(InstallModeArg::Nixos), InstallMode::NixOS);
    assert_eq!(install_mode(InstallModeArg::RootNixconf), InstallMode::RootNixConf);
    assert_eq!(install_mode(InstallModeArg::UserNixconf), InstallMode::UserNixConf);
    let args = |compression_method: Option<CompressionMethodArg>| PushArgs {
        compression_level: 5,
        compression_method,
        chunk_size: 6,
        num_concurrent_chunks: 7,
        jobs: 8,
        omit_deriver: true,
    };
    let opts = make_push_options(&args(Some(CompressionMethodArg::Xz)));
    assert_eq!(opts.compression_method, CompressionMethod::Xz);
    assert_eq!((opts.compression_level, opts.chunk_size), (5, 6));
    assert_eq!((opts.num_concurrent_chunks, opts.jobs, opts.omit_deriver), (7, 8, true));
    assert_eq!(make_push_options(&args(None)).compression_method, CompressionMethod::Zstd);
    let opts = make_push_options(&args(Some(CompressionMethodArg::Zstd)));
    assert_eq!(opts.compression_method, CompressionMethod::Zstd);
}

#[test]
fn netrc_of_private_caches() {
    let mut cfg = Config::default();
    assert!(matches!(netrc_action(true, &cfg), NetrcAction::Leave));
    assert!(matches!(netrc_action(false, &cfg), NetrcAction::Warn));
    cfg.set_auth_token("t".to_string());
    assert!(matches!(netrc_action(false, &cfg), NetrcAction::Write(t) if t == "t"));
    assert!(matches!(netrc_action(true, &cfg), NetrcAction::Leave));
}

#[test]
fn paths_to_push() {
    let lines = ["/a".to_string(), "  ".to_string(), " /b".to_string()];
    assert_eq!(given_paths(Vec::new(), &lines), ["/a", " /b"]);
    assert_eq!(given_paths(vec!["/c".to_string()], &lines), ["/c"]);
    assert_eq!(cmd_push(Vec::new(), &lines).unwrap(), ["/a", " /b"]);
    assert_eq!(cmd_push(Vec::new(), &[]).unwrap_err().message(), "no store paths provided");
    let outcome = cmd_watch_exec(Vec::new());
    assert_eq!(outcome.message, "no new store paths to push");
    assert!(outcome.push.is_none());
    let outcome = cmd_watch_exec(lines.to_vec());
    assert_eq!(outcome.message, "found 3 new store paths");
    assert_eq!(outcome.push.unwrap(), lines);
}

#[test]
fn pins() {
    let pin = |days: Option<u64>, revisions: Option<u64>, forever: bool| {
        cmd_pin("n", "/s", vec!["a".to_string()], days, revisions, forever)
    };
    assert!(matches!(pin(Some(1), Some(2), true).keep, Some(PinKeep::Forever)));
    assert!(matches!(pin(Some(1), Some(2), false).keep, Some(PinKeep::Days(1))));
    assert!(matches!(pin(None, Some(2), false).keep, Some(PinKeep::Revisions(2))));
    let p = pin(None, None, false);
    assert!(p.keep.is_none());
    assert_eq!((p.name.as_str(), p.store_path.as_str()), ("n", "/s"));
    assert_eq!(p.artifacts, ["a"]);
}

#[test]
fn clients() {
    let mut cfg = Config::default();
    cfg.hostname = "https://h/".to_string();
    assert_eq!(make_api_client(&cfg).unwrap().auth_token(), None);
    cfg.set_auth_token("ct".to_string());
    let api = make_api_client(&cfg).unwrap();
    assert_eq!((api.base_url(), api.auth_token()), ("https://h", Some("ct")));
    let token = PushCredential::Token("pt".to_string());
    let api = make_api_client_with_credential(&cfg, &token).unwrap();
    assert_eq!(api.auth_token(), Some("pt"));
    let key = PushCredential::SigningKey { auth_token: None, signing_key: "k".to_string() };
    let api = make_api_client_with_credential(&cfg, &key).unwrap();
    assert_eq!(api.auth_token(), Some("ct"));
}

#[test]
fn deploy_clients() {
    let cfg = Config::default();
    let agent = DeployCommand::Agent {
        agent_name: "a".to_string(),
        profile: "p".to_string(),
        bootstrap: false,
    };
    let activate = DeployCommand::Activate {
        deploy_spec: PathBuf::from("s.json"),
        agent: Vec::new(),
        async_mode: false,
    };
    assert_eq!(deploy_variable(&agent), "CACHIX_AGENT_TOKEN");
    assert_eq!(deploy_variable(&activate), "CACHIX_ACTIVATE_TOKEN");
    assert_eq!(cmd_deploy(&cfg, &agent, Some("t")).unwrap().auth_token(), Some("t"));
    match cmd_deploy(&cfg, &activate, None) {
        Err(DeployClientError::Command(e)) => assert_eq!(
            e.message(),
            "CACHIX_ACTIVATE_TOKEN environment variable is required"
        ),
        _ => panic!("no error"),
    }
    match cmd_deploy(&cfg, &agent, Some("a\nb")) {
        Err(DeployClientError::Api(e)) => assert_eq!(e.message, "invalid auth token"),
        _ => panic!("no error"),
    }
}

#[test]
fn messages_to_the_daemon() {
    let paths = |m: Option<DaemonClientMessage>| match m {
        Some(DaemonClientMessage::ClientPushRequest(r)) => {
            (r.store_paths.join(" "), r.subscribe_to_updates)
        }
        _ => panic!("no push request"),
    };
    let push = |given: &[&str]| DaemonRequest::Push {
        wait: false,
        paths: given.iter().map(|p| p.to_string()).collect(),
        stdin_lines: vec!["/x".to_string(), " ".to_string()],
    };
    assert_eq!(paths(cmd_daemon(push(&["/a", "/b"]))), ("/a /b".to_string(), false));
    assert_eq!(paths(cmd_daemon(push(&[]))), ("/x".to_string(), false));
    let exec = |new_paths: Vec<String>| cmd_daemon(DaemonRequest::WatchExec { new_paths });
    assert_eq!(paths(exec(vec!["/n".to_string()])), ("/n".to_string(), true));
    assert!(exec(Vec::new()).is_none());
    assert!(matches!(cmd_daemon(DaemonRequest::Stop), Some(DaemonClientMessage::ClientStop)));
    assert!(matches!(
        cmd_daemon(DaemonRequest::Doctor),
        Some(DaemonClientMessage::ClientDiagnosticsRequest)
    ));
}
