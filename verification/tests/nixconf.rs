use std::path::PathBuf;

use cachix::nixconf::netrc::{netrc_domain, netrc_target, write_netrc};
use cachix::nixconf::{
    conf_target, nixos_module_file, remove_cache, use_cache, use_cache_nixos, ConfTarget,
    InstallMode, NixConf, NixConfError,
};

fn conf(contents: &str) -> NixConf {
    NixConf::load(PathBuf::from("/tmp/nix.conf"), Some(contents))
}

#[test]
fn missing_file_has_no_settings() {
    let conf = NixConf::load(PathBuf::from("/tmp/none"), None);
    assert_eq!(conf.get("substituters"), None);
    assert_eq!(conf.save(), "\n");
    assert_eq!(conf.path, PathBuf::from("/tmp/none"));
}

#[test]
fn get_reads_the_last_setting() {
    let conf = conf("a = 1\n  b=2 3 \nab = 4\na = 5\n");
    assert_eq!(conf.get("a").as_deref(), Some("5"));
    assert_eq!(conf.get("b").as_deref(), Some("2 3"));
    assert_eq!(conf.get("ab").as_deref(), Some("4"));
    assert_eq!(conf.get("c"), None);
}

#[test]
fn set_replaces_or_appends() {
    let mut conf = conf("a = 1\nb = 2\n");
    conf.set("a", "9");
    conf.set("c", "3");
    assert_eq!(conf.save(), "a = 9\nb = 2\nc = 3\n");
    assert_eq!(conf.get("a").as_deref(), Some("9"));
    assert_eq!(conf.get("b").as_deref(), Some("2"));
}

#[test]
fn set_counts_where_two_lines_set_the_key() {
    let mut conf = conf("k = a\nx = 1\nk = b\n");
    conf.set("k", "c");
    assert_eq!(conf.get("k").as_deref(), Some("c"));
    assert_eq!(conf.save(), "k = a\nx = 1\nk = c\n");
}

#[test]
fn lists_where_two_lines_set_the_key() {
    let mut conf = conf("k = a\nk = b c\n");
    conf.add_to_list("k", "d");
    assert_eq!(conf.get("k").as_deref(), Some("b c d"));
    conf.remove_from_list("k", "c");
    assert_eq!(conf.get("k").as_deref(), Some("b d"));
    conf.remove_from_list("k", "b");
    conf.remove_from_list("k", "d");
    assert_eq!(conf.get("k"), None);
}

#[test]
fn removed_key_is_gone() {
    let mut conf = conf("a = 1\nb = 2\na=3\n");
    conf.remove_key("a");
    assert_eq!(conf.save(), "b = 2\n");
    assert_eq!(conf.get("a"), None);
    assert_eq!(conf.get("b").as_deref(), Some("2"));
}

#[test]
fn list_values_are_added_once_and_removed() {
    let mut conf = conf("");
    conf.add_to_list("k", "x");
    conf.add_to_list("k", "y");
    conf.add_to_list("k", "x");
    assert_eq!(conf.get("k").as_deref(), Some("x y"));
    conf.remove_from_list("k", "x");
    assert_eq!(conf.get("k").as_deref(), Some("y"));
    conf.remove_from_list("k", "y");
    assert_eq!(conf.get("k"), None);
    conf.remove_from_list("k", "y");
    assert_eq!(conf.get("k"), None);
}

#[test]
fn includes_are_added_once() {
    let mut conf = conf("  !include b.conf\n");
    assert!(conf.has_include("b.conf"));
    assert!(!conf.has_include("a.conf"));
    conf.add_include("b.conf", false);
    conf.add_include("a.conf", true);
    conf.add_include("c.conf", false);
    assert_eq!(conf.save(), "  !include b.conf\n!include a.conf\ninclude c.conf\n");
    assert!(conf.has_include("a.conf"));
}

#[test]
fn saved_file_is_loaded_back() {
    let text = "a = 1\n# comment\n\nb = 2\n";
    assert_eq!(conf(text).save(), text);
}

#[test]
fn cache_is_configured_and_removed_again() {
    let mut conf = conf("substituters = https://cache.nixos.org\n");
    let keys = ["k-1:AAAA".to_string(), "k-2:BBBB".to_string()];
    use_cache(&mut conf, "https://k.cachix.org", &keys);
    assert_eq!(
        conf.get("substituters").as_deref(),
        Some("https://cache.nixos.org https://k.cachix.org")
    );
    assert_eq!(conf.get("trusted-public-keys").as_deref(), Some("k-1:AAAA k-2:BBBB"));
    remove_cache(&mut conf, "https://k.cachix.org", &keys);
    assert_eq!(conf.get("substituters").as_deref(), Some("https://cache.nixos.org"));
    assert_eq!(conf.get("trusted-public-keys"), None);
}

#[test]
fn cache_configured_twice() {
    let mut conf = conf("# mine\nsubstituters = b a\nx = 1\ntrusted-public-keys = k-2:BBBB\n");
    let keys = ["k-1:AAAA".to_string(), "k-2:BBBB".to_string()];
    use_cache(&mut conf, "u", &keys);
    let once = conf.save();
    assert_eq!(
        once,
        "# mine\nsubstituters = b a u\nx = 1\ntrusted-public-keys = k-2:BBBB k-1:AAAA\n"
    );
    use_cache(&mut conf, "u", &keys);
    assert_eq!(conf.save(), once);
}

#[test]
fn undone_addition_leaves_all_lines() {
    let text = "# k\na = 1\nkey = 2\n";
    let mut conf = conf(text);
    conf.add_to_list("k", "x");
    assert_eq!(conf.save(), "# k\na = 1\nkey = 2\nk = x\n");
    conf.remove_from_list("k", "x");
    assert_eq!(conf.save(), text);
}

#[test]
fn clone_is_a_copy() {
    let mut first = conf("a = 1\n");
    let second = first.clone();
    first.set("a", "2");
    assert_eq!(second.get("a").as_deref(), Some("1"));
    assert_eq!(second.path, PathBuf::from("/tmp/nix.conf"));
    assert_eq!(second.save(), "a = 1\n");
}

#[test]
fn keys_with_spaces_inside() {
    let mut conf = conf("my key = 1\n");
    conf.set("my", "2");
    assert_eq!(conf.get("my key").as_deref(), Some("1"));
    assert_eq!(conf.get("my").as_deref(), Some("2"));
}

#[test]
fn file_for_each_mode() {
    assert_eq!(conf_target(InstallMode::NixOS, true, false), Ok(ConfTarget::NixosModule));
    assert_eq!(conf_target(InstallMode::RootNixConf, false, false), Ok(ConfTarget::RootConf));
    assert_eq!(
        conf_target(InstallMode::RootNixConf, true, false),
        Ok(ConfTarget::OutputDirectory)
    );
    assert_eq!(conf_target(InstallMode::UserNixConf, false, true), Ok(ConfTarget::UserConf));
    assert_eq!(
        conf_target(InstallMode::UserNixConf, true, false),
        Err(NixConfError::NoConfigDirectory)
    );
    assert_eq!(netrc_target(true, false), Ok(ConfTarget::OutputDirectory));
    assert_eq!(netrc_target(false, true), Ok(ConfTarget::UserConf));
    assert_eq!(
        netrc_target(false, false).unwrap_err().message(),
        "could not determine config directory"
    );
}

#[test]
fn nixos_module_of_a_cache() {
    assert_eq!(nixos_module_file("foo"), "cachix/foo.nix");
    let keys = ["foo-1:AAAA".to_string(), "foo-2:BBBB".to_string()];
    let expected = r#"# WARNING: this file is generated by cachix. Do not edit.
{
  nix.settings = {
    substituters = [
      "https://foo.example.org"
    ];
    trusted-public-keys = [
      "foo-1:AAAA"
      "foo-2:BBBB"
    ];
  };
}
"#;
    assert_eq!(use_cache_nixos("https://foo.example.org", &keys), expected);
    assert!(use_cache_nixos("u", &[]).contains("trusted-public-keys = [\n    ];\n"));
}

#[test]
fn netrc_entries_of_other_machines_stay() {
    let other = "machine cachix.org.example login l password p\n";
    assert_eq!(
        write_netrc(other, "https://cachix.org", "t"),
        "machine cachix.org.example login l password p\nmachine cachix.org login authtoken password t\n"
    );
    let old = "machine\tcachix.org login x\r\n# machine cachix.org\nmachine a.cachix.org\n";
    assert_eq!(
        write_netrc(old, "https://cachix.org", "t"),
        "machine a.cachix.org\nmachine cachix.org login authtoken password t\n"
    );
}

#[test]
fn netrc_line_with_two_entries_is_replaced() {
    let old = "machine a.org login l password p machine cachix.org login authtoken password old\n";
    assert_eq!(
        write_netrc(old, "https://cachix.org", "t"),
        "machine cachix.org login authtoken password t\n"
    );
    assert_eq!(
        write_netrc(old, "https://b.org", "t"),
        format!("{old}machine b.org login authtoken password t\n")
    );
}

#[test]
fn netrc_entry_is_added_or_replaced() {
    assert_eq!(netrc_domain("https://cachix.org/"), "cachix.org");
    assert_eq!(netrc_domain("http://localhost:3000"), "localhost:3000");
    let first = write_netrc("", "https://cachix.org", "t1");
    assert_eq!(first, "machine cachix.org login authtoken password t1\n");
    let other = write_netrc(&first, "https://example.com", "t2");
    assert_eq!(
        other,
        "machine cachix.org login authtoken password t1\nmachine example.com login authtoken password t2\n"
    );
    let again = write_netrc(&other, "https://cachix.org", "t3");
    assert_eq!(
        again,
        "machine example.com login authtoken password t2\nmachine cachix.org login authtoken password t3\n"
    );
}

#[test]
fn settings_survive_saving() {
    let mut conf = conf("");
    conf.set("a", "1");
    conf.add_to_list("b", "x");
    conf.add_to_list("b", "y");
    conf.remove_key("c");
    let saved = conf.save();
    let loaded = NixConf::load(PathBuf::from("/tmp/nix.conf"), Some(&saved));
    assert_eq!(loaded.get("a").as_deref(), Some("1"));
    assert_eq!(loaded.get("b").as_deref(), Some("x y"));
    assert_eq!(loaded.save(), saved);
    assert_eq!(NixConf::load(PathBuf::from("/tmp/nix.conf"), Some("\n")).get("a"), None);
}
