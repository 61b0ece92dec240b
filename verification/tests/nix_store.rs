use cachix::nix::store::{
    closure_command, deriver_command, dump_nar, is_pushable, is_valid_path, new_paths,
    path_info_command, query_closure, query_deriver, query_path_info, query_references, realise,
    realise_command, references_command, snapshot_store, watch_store, watched_path, CommandOutput,
    PathInfo, PathInfoAnswer, PathInfoEntry, StoreCommand,
};

fn output(success: bool, stdout: &str, stderr: &str) -> CommandOutput {
    CommandOutput { success, stdout: stdout.to_string(), stderr: stderr.to_string() }
}

fn line(command: StoreCommand) -> String {
    format!("{} {}", command.program, command.args.join(" "))
}

fn info(path: &str) -> PathInfo {
    PathInfo {
        path: path.to_string(),
        nar_hash: "h".to_string(),
        nar_size: 3,
        references: Vec::new(),
        deriver: None,
    }
}

#[test]
fn commands() {
    assert!(closure_command(&[]).is_none());
    let paths = ["/a".to_string(), "/b".to_string()];
    assert_eq!(line(closure_command(&paths).unwrap()), "nix-store --query --requisites /a /b");
    assert_eq!(line(deriver_command("/a")), "nix-store --query --deriver /a");
    assert_eq!(line(references_command("/a")), "nix-store --query --references /a");
    assert_eq!(line(dump_nar("/a")), "nix-store --dump /a");
    assert_eq!(line(path_info_command("/a")), "nix path-info --json /a");
    assert_eq!(line(realise_command("/a")), "nix-store --realise /a");
    assert_eq!(line(is_valid_path("/a")), "nix-store --check-validity /a");
    assert_eq!(line(watch_store()), "inotifywait -m -e create --format %f /nix/store");
}

#[test]
fn answers_of_nix_store() {
    assert_eq!(query_closure(&output(true, "/a\n\n/b\n", "")).unwrap(), ["/a", "/b"]);
    assert_eq!(
        query_closure(&output(false, "/a", "oops")).unwrap_err().message(),
        "nix-store --query --requisites failed: oops"
    );
    assert_eq!(query_references(&output(true, "/a\n", "")).unwrap(), ["/a"]);
    assert_eq!(
        query_references(&output(false, "", "oops")).unwrap_err().message(),
        "nix-store --query --references failed: oops"
    );
    assert!(realise(&output(true, "", "")).is_ok());
    assert_eq!(
        realise(&output(false, "", "oops")).unwrap_err().message(),
        "nix-store --realise failed: oops"
    );
}

#[test]
fn derivers() {
    assert_eq!(query_deriver(&output(true, " /d.drv\n", "")).as_deref(), Some("/d.drv"));
    assert_eq!(query_deriver(&output(true, "unknown-deriver\n", "")), None);
    assert_eq!(query_deriver(&output(true, "\n", "")), None);
    assert_eq!(query_deriver(&output(false, "/d.drv", "")), None);
}

#[test]
fn path_infos() {
    let entry = |names_path: bool| PathInfoAnswer::Object {
        first: Some(PathInfoEntry {
            store_path: "/key".to_string(),
            names_path,
            info: info("/own"),
        }),
    };
    assert_eq!(query_path_info(entry(true)).unwrap().path, "/own");
    let found = query_path_info(entry(false)).unwrap();
    assert_eq!((found.path.as_str(), found.nar_size), ("/key", 3));
    let array = PathInfoAnswer::Array { entries: vec![info("/1"), info("/2")] };
    assert_eq!(query_path_info(array).unwrap().path, "/1");
    let message = |a: PathInfoAnswer| query_path_info(a).unwrap_err().message();
    assert_eq!(message(PathInfoAnswer::Object { first: None }), "empty path-info response");
    assert_eq!(message(PathInfoAnswer::Array { entries: Vec::new() }), "no path info returned");
    assert_eq!(
        message(PathInfoAnswer::Failed { stderr: "oops".to_string() }),
        "nix path-info failed: oops"
    );
}

#[test]
fn watched_paths() {
    assert_eq!(watched_path("x"), "/nix/store/x");
    assert!(is_pushable("/nix/store/x"));
    assert!(!is_pushable("/tmp/x"));
    assert!(!is_pushable("/nix/store/x.drv"));
    assert!(!is_pushable("/nix/store/x.lock"));
}

#[test]
fn new_paths_are_the_difference() {
    let before = snapshot_store("a\nb\n");
    let after = snapshot_store("c\nb\nd\nc\n");
    assert_eq!(before, ["/nix/store/a", "/nix/store/b"]);
    assert_eq!(new_paths(&before, &after), ["/nix/store/c", "/nix/store/d"]);
    assert!(new_paths(&after, &after).is_empty());
}
