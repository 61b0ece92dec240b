use cachix::import::{
    copy_command, import_step, list_command, list_narinfos, narinfo_field, narinfo_hash,
    narinfo_item, parse_s3_uri, restore_command, s3_source, ImportError, ImportEvent, ImportItem,
    ImportState, S3Source, UrlParts,
};
use cachix::nix::store::CommandOutput;

fn source() -> S3Source {
    S3Source { bucket: "b".to_string(), endpoint: "E".to_string(), region: "R".to_string() }
}

#[test]
fn uris_of_buckets() {
    let s = parse_s3_uri("s3://bucket?endpoint=https%3A%2F%2Fs3.example.com&region=eu-west-1");
    let s = s.unwrap();
    assert_eq!(s.bucket, "bucket");
    assert_eq!(s.endpoint, "https://s3.example.com");
    assert_eq!(s.region, "eu-west-1");
    let s = parse_s3_uri("s3://bucket?endpoint=x&endpoint=y").unwrap();
    assert_eq!((s.endpoint.as_str(), s.region.as_str()), ("y", "us-east-1"));
}

#[test]
fn uris_that_are_refused() {
    let message = |uri: &str| parse_s3_uri(uri).unwrap_err().message();
    assert_eq!(message("not a uri"), "invalid S3 URI");
    assert_eq!(message("https://bucket?endpoint=x"), "expected s3:// URI scheme");
    assert_eq!(message("s3:bucket?endpoint=x"), "missing bucket name in S3 URI");
    assert_eq!(message("s3://bucket?region=x"), "missing endpoint parameter");
}

#[test]
fn parts_of_a_uri() {
    let parts = |scheme: &str, host: Option<&str>, query: &[(&str, &str)]| UrlParts {
        scheme: scheme.to_string(),
        host: host.map(|h| h.to_string()),
        query: query.iter().map(|(k, v)| (k.to_string(), v.to_string())).collect(),
    };
    let s = s3_source(&parts("s3", Some("b"), &[("endpoint", "1"), ("endpoint", "2")])).unwrap();
    assert_eq!((s.bucket.as_str(), s.endpoint.as_str()), ("b", "2"));
    assert!(matches!(s3_source(&parts("S3", None, &[])), Err(ImportError::WrongScheme)));
    assert!(matches!(s3_source(&parts("s3", None, &[])), Err(ImportError::MissingBucket)));
    assert!(matches!(s3_source(&parts("s3", Some("b"), &[])), Err(ImportError::MissingEndpoint)));
}

#[test]
fn commands_for_a_bucket() {
    let c = list_command(&source());
    assert_eq!(c.program, "aws");
    assert_eq!(
        c.args,
        ["s3", "ls", "s3://b/", "--endpoint-url", "E", "--region", "R", "--recursive"]
    );
    let c = copy_command(&source(), "k.narinfo", "-");
    assert_eq!(
        c.args,
        ["s3", "cp", "s3://b/k.narinfo", "-", "--endpoint-url", "E", "--region", "R"]
    );
    let c = restore_command("/nix/store/x");
    assert_eq!((c.program.as_str(), c.args.join(" ")), ("nix-store", "--restore /nix/store/x".into()));
}

#[test]
fn listing_of_a_bucket() {
    let output = |success: bool, stdout: &str| CommandOutput {
        success,
        stdout: stdout.to_string(),
        stderr: "oops".to_string(),
    };
    let listing = "2024-01-01 10:00:00  12 abc.narinfo\n\n2024 nar/x.nar.xz\n  def.narinfo  \n";
    assert_eq!(list_narinfos(&output(true, listing)).unwrap(), ["abc.narinfo", "def.narinfo"]);
    assert_eq!(
        list_narinfos(&output(false, listing)).unwrap_err().message(),
        "aws s3 ls failed: oops"
    );
    assert_eq!(narinfo_hash("abc.narinfo"), "abc");
}

#[test]
fn fields_of_a_narinfo() {
    let narinfo = "StorePath:  /nix/store/x \nURL: nar/x.nar.xz\nURL: other\n";
    assert_eq!(narinfo_field(narinfo, "StorePath: ").as_deref(), Some("/nix/store/x"));
    assert_eq!(narinfo_field(narinfo, "Sig: "), None);
    let item = narinfo_item(narinfo).unwrap();
    assert_eq!((item.store_path.as_str(), item.nar_url.as_str()), ("/nix/store/x", "nar/x.nar.xz"));
    assert!(narinfo_item("StorePath: /nix/store/x\n").is_none());
    assert!(narinfo_item("URL: nar/x\n").is_none());
}

fn item() -> ImportItem {
    ImportItem { store_path: "/nix/store/x".to_string(), nar_url: "u".to_string() }
}

#[test]
fn import_of_a_file() {
    let s = import_step(ImportState::Checking, ImportEvent::No);
    assert!(matches!(s, ImportState::FetchingNarinfo));
    let s = import_step(s, ImportEvent::Narinfo(Some(item())));
    assert!(matches!(&s, ImportState::FetchingNar(i) if i.nar_url == "u"));
    let s = import_step(s, ImportEvent::Yes);
    assert!(matches!(&s, ImportState::Restoring(i) if i.store_path == "/nix/store/x"));
    let s = import_step(s, ImportEvent::Yes);
    assert!(matches!(&s, ImportState::Pushing(i) if i.store_path == "/nix/store/x"));
    assert!(matches!(import_step(s, ImportEvent::Yes), ImportState::Over));
}

#[test]
fn files_that_are_passed_over() {
    let over = |s: ImportState, e: ImportEvent| matches!(import_step(s, e), ImportState::Over);
    assert!(over(ImportState::Checking, ImportEvent::Yes));
    assert!(over(ImportState::FetchingNarinfo, ImportEvent::No));
    assert!(over(ImportState::FetchingNarinfo, ImportEvent::Narinfo(None)));
    assert!(over(ImportState::FetchingNar(item()), ImportEvent::No));
    assert!(over(ImportState::Restoring(item()), ImportEvent::No));
    assert!(over(ImportState::Pushing(item()), ImportEvent::No));
}
