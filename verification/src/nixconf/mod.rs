//! The settings of nix.conf, the NixOS module of a cache and the netrc file.

use vstd::prelude::*;
use vstd::string::*;

use crate::text;

pub mod laws;
pub mod netrc;

pub use crate::nixconf::netrc::write_netrc;

verus! {

/// The path of a file, which the library carries and does not read.
#[verifier::external_type_specification]
#[verifier::external_body]
pub struct ExPathBuf(std::path::PathBuf);

/// `PathBuf::clone` gives a duplicate of the path.
pub assume_specification[ <std::path::PathBuf as Clone>::clone ](
    path: &std::path::PathBuf,
) -> (r: std::path::PathBuf)
    ensures
        r == *path,
;

/// The value that a line of nix.conf gives to `key`, if it sets it: `key`, an
/// equals sign and the value, with white space around each.
pub open spec fn setting(line: Seq<char>, key: Seq<char>) -> Option<Seq<char>> {
    match text::strip_prefix(text::trim(line), key) {
        Some(rest) => {
            let rest = text::trim_start(rest);
            if rest.len() > 0 && rest[0] == '=' {
                Some(text::trim(rest.drop_first()))
            } else {
                None
            }
        },
        None => None,
    }
}

/// The line that gives `value` to `key`.
pub open spec fn setting_line(key: Seq<char>, value: Seq<char>) -> Seq<char> {
    key + " = "@ + value
}

/// The value of `key`: that of the last line that sets it.
pub open spec fn get_in(lines: Seq<Seq<char>>, key: Seq<char>) -> Option<Seq<char>>
    decreases lines.len(),
{
    if lines.len() == 0 {
        None
    } else {
        match setting(lines.last(), key) {
            Some(value) => Some(value),
            None => get_in(lines.drop_last(), key),
        }
    }
}

/// The lines with the line that gives `key` its value replaced, which is the last one
/// that sets it, or, where none does, with a line added.
pub open spec fn set_in(lines: Seq<Seq<char>>, key: Seq<char>, value: Seq<char>) -> Seq<Seq<char>>
    decreases lines.len(),
{
    if get_in(lines, key) is None {
        lines.push(setting_line(key, value))
    } else if setting(lines.last(), key) is Some {
        lines.drop_last().push(setting_line(key, value))
    } else {
        set_in(lines.drop_last(), key, value).push(lines.last())
    }
}

/// Where `set_in` writes: the last line that sets the key, or the end.
pub(crate) proof fn lemma_set_at(
    lines: Seq<Seq<char>>,
    key: Seq<char>,
    value: Seq<char>,
    at: int,
)
    requires
        0 <= at <= lines.len(),
        at < lines.len() ==> setting(lines[at], key) is Some,
        forall|j: int| at < j < lines.len() ==> setting(#[trigger] lines[j], key) is None,
        at == lines.len() ==> forall|j: int|
            0 <= j < lines.len() ==> setting(#[trigger] lines[j], key) is None,
    ensures
        set_in(lines, key, value) == if at < lines.len() {
            lines.update(at, setting_line(key, value))
        } else {
            lines.push(setting_line(key, value))
        },
        get_in(lines, key) == if at < lines.len() {
            setting(lines[at], key)
        } else {
            None
        },
    decreases lines.len(),
{
    let line = setting_line(key, value);
    if lines.len() > 0 {
        let init = lines.drop_last();
        if at == lines.len() {
            assert(setting(lines[lines.len() - 1], key) is None);
            lemma_set_at(init, key, value, init.len() as int);
        } else if at == lines.len() - 1 {
            assert(lines.update(at, line) == init.push(line));
        } else {
            assert(setting(lines[lines.len() - 1], key) is None);
            assert(init[at] == lines[at]);
            lemma_set_at(init, key, value, at);
            assert(lines.update(at, line) == init.update(at, line).push(lines.last()));
        }
    }
}

/// The lines that do not set `key`.
pub open spec fn remove_in(lines: Seq<Seq<char>>, key: Seq<char>) -> Seq<Seq<char>>
    decreases lines.len(),
{
    if lines.len() == 0 {
        lines
    } else if setting(lines.last(), key) is Some {
        remove_in(lines.drop_last(), key)
    } else {
        remove_in(lines.drop_last(), key).push(lines.last())
    }
}

/// The values of a setting that is a list: the words of its value.
pub open spec fn list_in(lines: Seq<Seq<char>>, key: Seq<char>) -> Seq<Seq<char>> {
    match get_in(lines, key) {
        Some(value) => text::words(value),
        None => seq![],
    }
}

/// The lines with `value` added to the end of the list `key`, unless it is there.
pub open spec fn add_in(lines: Seq<Seq<char>>, key: Seq<char>, value: Seq<char>) -> Seq<Seq<char>> {
    let existing = match get_in(lines, key) {
        Some(v) => v,
        None => seq![],
    };
    if text::words(existing).contains(value) {
        lines
    } else if existing.len() == 0 {
        set_in(lines, key, value)
    } else {
        set_in(lines, key, existing + " "@ + value)
    }
}

/// Whether a text is another than `value`.
pub open spec fn other_than(value: Seq<char>) -> spec_fn(Seq<char>) -> bool {
    |v: Seq<char>| v != value
}

/// The elements of `values` other than `value`.
pub open spec fn without(values: Seq<Seq<char>>, value: Seq<char>) -> Seq<Seq<char>> {
    values.filter(other_than(value))
}

/// The lines with `value` taken out of the list `key`; the setting goes with its
/// last value.
pub open spec fn drop_in(lines: Seq<Seq<char>>, key: Seq<char>, value: Seq<char>) -> Seq<
    Seq<char>,
> {
    match get_in(lines, key) {
        Some(existing) => {
            let kept = without(text::words(existing), value);
            if kept.len() == 0 {
                remove_in(lines, key)
            } else {
                set_in(lines, key, text::join(kept, " "@))
            }
        },
        None => lines,
    }
}

/// Whether a line includes the file `path`.
pub open spec fn includes(line: Seq<char>, path: Seq<char>) -> bool {
    ||| text::trim(line) == "include "@ + path
    ||| text::trim(line) == "!include "@ + path
}

/// Whether a line among `lines` includes the file `path`.
pub open spec fn includes_in(lines: Seq<Seq<char>>, path: Seq<char>) -> bool {
    exists|i: int| 0 <= i < lines.len() && includes(#[trigger] lines[i], path)
}

/// The lines with `values` added to the list `key`, one after the other.
pub open spec fn add_all_in(
    lines: Seq<Seq<char>>,
    key: Seq<char>,
    values: Seq<Seq<char>>,
) -> Seq<Seq<char>>
    decreases values.len(),
{
    if values.len() == 0 {
        lines
    } else {
        add_in(add_all_in(lines, key, values.drop_last()), key, values.last())
    }
}

/// The lines with `values` taken out of the list `key`, one after the other.
pub open spec fn drop_all_in(
    lines: Seq<Seq<char>>,
    key: Seq<char>,
    values: Seq<Seq<char>>,
) -> Seq<Seq<char>>
    decreases values.len(),
{
    if values.len() == 0 {
        lines
    } else {
        drop_in(drop_all_in(lines, key, values.drop_last()), key, values.last())
    }
}

/// Represents a parsed nix.conf file.
#[derive(Debug)]
pub struct NixConf {
    pub path: std::path::PathBuf,
    lines: Vec<String>,
}

impl View for NixConf {
    type V = Seq<Seq<char>>;

    closed spec fn view(&self) -> Seq<Seq<char>> {
        text::texts(self.lines@)
    }
}

impl Clone for NixConf {
    fn clone(&self) -> (r: NixConf)
        ensures
            r@ == self@,
            r.location() == self.location(),
    {
        let mut lines: Vec<String> = Vec::new();
        for i in 0..self.lines.len()
            invariant
                lines@ == self.lines@.take(i as int),
        {
            lines.push(self.lines[i].clone());
            assert(lines@ == self.lines@.take(i + 1));
        }
        assert(lines@ == self.lines@);
        NixConf { path: self.path.clone(), lines }
    }
}

/// Computes `setting`.
fn read_setting(line: &str, key: &str) -> (r: Option<String>)
    ensures
        text::opt_text(r) == setting(line@, key@),
{
    let trimmed = text::trimmed(line);
    match text::after_prefix(trimmed.as_str(), key) {
        Some(rest) => {
            let rest = text::trimmed_start(rest.as_str());
            proof {
                reveal_strlit("=");
                assert("="@ == seq!['=']);
                assert("="@.is_prefix_of(rest@) <==> rest@.len() > 0 && rest@[0] == '=') by {
                    if rest@.len() > 0 {
                        assert(rest@.subrange(0, 1) == seq![rest@[0]]);
                        assert(seq![rest@[0]][0] == rest@[0]);
                        assert("="@[0] == '=');
                    }
                }
                if rest@.len() > 0 {
                    assert(rest@.skip(1) == rest@.drop_first());
                }
            }
            match text::after_prefix(rest.as_str(), "=") {
                Some(value) => Some(text::trimmed(value.as_str())),
                None => None,
            }
        },
        None => None,
    }
}

/// Computes `setting_line`.
fn write_setting(key: &str, value: &str) -> (r: String)
    ensures
        r@ == setting_line(key@, value@),
{
    let mut r = key.to_string();
    r.append(" = ");
    r.append(value);
    r
}

impl NixConf {
    /// The path of the file.
    pub closed spec fn location(self) -> std::path::PathBuf {
        self.path
    }

    /// The settings in the text of a nix.conf file, of which there are none where there
    /// is no file.
    pub fn load(path: std::path::PathBuf, contents: Option<&str>) -> (r: NixConf)
        ensures
            r@ == match contents {
                Some(contents) => text::lines(contents@),
                None => Seq::empty(),
            },
            r.location() == path,
    {
        let lines = match contents {
            Some(contents) => text::split_lines(contents),
            None => Vec::new(),
        };
        assert(contents is None ==> text::texts(lines@) == Seq::<Seq<char>>::empty());
        NixConf { path, lines }
    }

    /// The text to write to the file.
    pub fn save(&self) -> (r: String)
        ensures
            r@ == text::join(self@, "\n"@) + "\n"@,
    {
        let mut r = text::joined(self.lines.as_slice(), "\n");
        r.append("\n");
        r
    }

    /// Get the value of a setting.
    pub fn get(&self, key: &str) -> (r: Option<String>)
        ensures
            text::opt_text(r) == get_in(self@, key@),
    {
        let mut i: usize = self.lines.len();
        assert(self@.take(i as int) == self@);
        while i > 0
            invariant
                i <= self.lines@.len(),
                get_in(self@, key@) == get_in(self@.take(i as int), key@),
            decreases i,
        {
            assert(self@.take(i as int).last() == self.lines@[i - 1]@);
            assert(self@.take(i as int).drop_last() == self@.take(i - 1));
            let value = read_setting(self.lines[i - 1].as_str(), key);
            if value.is_some() {
                return value;
            }
            i = i - 1;
        }
        None
    }

    /// Add a value to a space-separated list setting.
    pub fn add_to_list(&mut self, key: &str, value: &str)
        ensures
            final(self)@ == add_in(old(self)@, key@, value@),
            final(self).location() == old(self).location(),
    {
        let existing = match self.get(key) {
            Some(v) => v,
            None => String::new(),
        };
        let values = text::split_words(existing.as_str());
        if text::holds(values.as_slice(), value) {
            return;
        }
        if existing.as_str().is_empty() {
            self.set(key, value);
        } else {
            let mut new_value = existing;
            new_value.append(" ");
            new_value.append(value);
            self.set(key, new_value.as_str());
        }
    }

    /// Remove a value from a space-separated list setting.
    pub fn remove_from_list(&mut self, key: &str, value: &str)
        ensures
            final(self)@ == drop_in(old(self)@, key@, value@),
            final(self).location() == old(self).location(),
    {
        if let Some(existing) = self.get(key) {
            let values = text::split_words(existing.as_str());
            let kept = other_values(values.as_slice(), value);
            assert(text::texts(kept@).len() == kept@.len());
            if kept.len() == 0 {
                self.remove_key(key);
            } else {
                self.set(key, text::joined(kept.as_slice(), " ").as_str());
            }
        }
    }

    /// Set a key to a value. Updates existing line or appends.
    pub fn set(&mut self, key: &str, value: &str)
        ensures
            final(self)@ == set_in(old(self)@, key@, value@),
            final(self).location() == old(self).location(),
    {
        let ghost before = self@;
        let mut n: usize = self.lines.len();
        while n > 0
            invariant
                n <= self.lines@.len(),
                self@ == before,
                before == old(self)@,
                self.location() == old(self).location(),
                forall|j: int| n <= j < before.len() ==> setting(#[trigger] before[j], key@) is None,
            decreases n,
        {
            assert(before[n - 1] == self.lines@[n - 1]@);
            if read_setting(self.lines[n - 1].as_str(), key).is_some() {
                proof {
                    lemma_set_at(before, key@, value@, n - 1);
                }
                self.lines.set(n - 1, write_setting(key, value));
                assert(self@ == before.update(n - 1, setting_line(key@, value@)));
                return;
            }
            n = n - 1;
        }
        proof {
            lemma_set_at(before, key@, value@, before.len() as int);
        }
        self.lines.push(write_setting(key, value));
        assert(self@ == before.push(setting_line(key@, value@)));
    }

    /// Remove a key entirely.
    pub fn remove_key(&mut self, key: &str)
        ensures
            final(self)@ == remove_in(old(self)@, key@),
            final(self).location() == old(self).location(),
    {
        let ghost before = self@;
        let mut kept: Vec<String> = Vec::new();
        let mut i: usize = 0;
        assert(text::texts(kept@) == remove_in(before.take(0), key@));
        while i < self.lines.len()
            invariant
                i <= self.lines@.len(),
                self@ == before,
                self.location() == old(self).location(),
                text::texts(kept@) == remove_in(before.take(i as int), key@),
            decreases self.lines@.len() - i,
        {
            assert(before.take(i + 1).last() == self.lines@[i as int]@);
            assert(before.take(i + 1).drop_last() == before.take(i as int));
            if read_setting(self.lines[i].as_str(), key).is_none() {
                let ghost shorter = text::texts(kept@);
                kept.push(self.lines[i].clone());
                assert(text::texts(kept@) == shorter.push(self.lines@[i as int]@));
            }
            i = i + 1;
        }
        assert(before.take(i as int) == before);
        self.lines = kept;
    }

    /// Check if an include directive exists for a file.
    pub fn has_include(&self, include_path: &str) -> (r: bool)
        ensures
            r == includes_in(self@, include_path@),
    {
        let mut plain = "include ".to_string();
        plain.append(include_path);
        let mut optional = "!include ".to_string();
        optional.append(include_path);
        let mut i: usize = 0;
        while i < self.lines.len()
            invariant
                i <= self.lines@.len(),
                plain@ == "include "@ + include_path@,
                optional@ == "!include "@ + include_path@,
                forall|j: int| 0 <= j < i ==> !includes(#[trigger] self@[j], include_path@),
            decreases self.lines@.len() - i,
        {
            let trimmed = text::trimmed(self.lines[i].as_str());
            assert(self@[i as int] == self.lines@[i as int]@);
            if trimmed == plain || trimmed == optional {
                assert(includes(self@[i as int], include_path@));
                return true;
            }
            i = i + 1;
        }
        false
    }

    /// Add an include directive.
    pub fn add_include(&mut self, include_path: &str, optional: bool)
        ensures
            final(self)@ == if includes_in(old(self)@, include_path@) {
                old(self)@
            } else if optional {
                old(self)@.push("!include "@ + include_path@)
            } else {
                old(self)@.push("include "@ + include_path@)
            },
            final(self).location() == old(self).location(),
    {
        if self.has_include(include_path) {
            return;
        }
        let ghost before = self@;
        let mut line = if optional {
            "!include ".to_string()
        } else {
            "include ".to_string()
        };
        line.append(include_path);
        self.lines.push(line);
        assert(self@ == before.push(line@));
    }
}

/// Computes `without`.
fn other_values(values: &[String], value: &str) -> (r: Vec<String>)
    ensures
        text::texts(r@) == without(text::texts(values@), value@),
{
    let ghost all = text::texts(values@);
    let ghost keep = other_than(value@);
    let mut kept: Vec<String> = Vec::new();
    let mut i: usize = 0;
    proof {
        reveal(Seq::filter);
        assert(text::texts(kept@) == all.take(0).filter(keep));
    }
    while i < values.len()
        invariant
            i <= values@.len(),
            all == text::texts(values@),
            keep == other_than(value@),
            text::texts(kept@) == all.take(i as int).filter(keep),
        decreases values@.len() - i,
    {
        proof {
            reveal(Seq::filter);
            assert(all.take(i + 1).drop_last() == all.take(i as int));
            assert(all.take(i + 1).last() == values@[i as int]@);
        }
        if !text::same_text(values[i].as_str(), value) {
            let ghost shorter = text::texts(kept@);
            kept.push(values[i].clone());
            assert(text::texts(kept@) == shorter.push(values@[i as int]@));
        }
        i = i + 1;
    }
    assert(all.take(i as int) == all);
    kept
}

/// The lines with a cache configured: its address among the substituters, and its
/// public keys among the trusted ones.
pub open spec fn use_in(
    lines: Seq<Seq<char>>,
    cache_uri: Seq<char>,
    public_keys: Seq<Seq<char>>,
) -> Seq<Seq<char>> {
    add_all_in(
        add_in(lines, "substituters"@, cache_uri),
        "trusted-public-keys"@,
        public_keys,
    )
}

/// The lines with a cache taken out again.
pub open spec fn unuse_in(
    lines: Seq<Seq<char>>,
    cache_uri: Seq<char>,
    public_keys: Seq<Seq<char>>,
) -> Seq<Seq<char>> {
    drop_all_in(
        drop_in(lines, "substituters"@, cache_uri),
        "trusted-public-keys"@,
        public_keys,
    )
}

/// Configure a binary cache in nix.conf.
pub fn use_cache(conf: &mut NixConf, cache_uri: &str, public_keys: &[String])
    ensures
        final(conf)@ == use_in(old(conf)@, cache_uri@, text::texts(public_keys@)),
        final(conf).location() == old(conf).location(),
{
    conf.add_to_list("substituters", cache_uri);
    let ghost first = conf@;
    let ghost keys = text::texts(public_keys@);
    let mut i: usize = 0;
    assert(add_all_in(first, "trusted-public-keys"@, keys.take(0)) == first);
    while i < public_keys.len()
        invariant
            i <= public_keys@.len(),
            keys == text::texts(public_keys@),
            conf@ == add_all_in(first, "trusted-public-keys"@, keys.take(i as int)),
            conf.location() == old(conf).location(),
        decreases public_keys@.len() - i,
    {
        assert(keys.take(i + 1).drop_last() == keys.take(i as int));
        assert(keys.take(i + 1).last() == public_keys@[i as int]@);
        conf.add_to_list("trusted-public-keys", public_keys[i].as_str());
        i = i + 1;
    }
    assert(keys.take(i as int) == keys);
}

/// Remove a binary cache from nix.conf.
pub fn remove_cache(conf: &mut NixConf, cache_uri: &str, public_keys: &[String])
    ensures
        final(conf)@ == unuse_in(old(conf)@, cache_uri@, text::texts(public_keys@)),
        final(conf).location() == old(conf).location(),
{
    conf.remove_from_list("substituters", cache_uri);
    let ghost first = conf@;
    let ghost keys = text::texts(public_keys@);
    let mut i: usize = 0;
    assert(drop_all_in(first, "trusted-public-keys"@, keys.take(0)) == first);
    while i < public_keys.len()
        invariant
            i <= public_keys@.len(),
            keys == text::texts(public_keys@),
            conf@ == drop_all_in(first, "trusted-public-keys"@, keys.take(i as int)),
            conf.location() == old(conf).location(),
        decreases public_keys@.len() - i,
    {
        assert(keys.take(i + 1).drop_last() == keys.take(i as int));
        assert(keys.take(i + 1).last() == public_keys@[i as int]@);
        conf.remove_from_list("trusted-public-keys", public_keys[i].as_str());
        i = i + 1;
    }
    assert(keys.take(i as int) == keys);
}

/// Installation mode for `cachix use`.
#[derive(Debug, Clone, Copy, PartialEq, Eq, Structural)]
pub enum InstallMode {
    NixOS,
    RootNixConf,
    UserNixConf,
}

/// Which file a cache is configured in.
#[derive(Debug, Clone, Copy, PartialEq, Eq, Structural)]
pub enum ConfTarget {
    /// A module in the NixOS configuration folder.
    NixosModule,
    /// /etc/nix/nix.conf
    RootConf,
    /// nix/nix.conf in the user's configuration directory.
    UserConf,
    /// nix.conf in the output directory.
    OutputDirectory,
}

/// Why there is no file to configure a cache in.
#[derive(Debug, Clone, Copy, PartialEq, Eq, Structural)]
pub enum NixConfError {
    NoConfigDirectory,
}

impl NixConfError {
    /// The message for the user.
    pub fn message(&self) -> (r: String)
        ensures
            r@ == "could not determine config directory"@,
    {
        "could not determine config directory".to_string()
    }
}

/// The file for an installation mode. The user's configuration directory has to be
/// known for the user mode even where an output directory is given.
pub fn conf_target(mode: InstallMode, has_output_dir: bool, has_config_dir: bool) -> (r: Result<
    ConfTarget,
    NixConfError,
>)
    ensures
        r == match mode {
            InstallMode::NixOS => Ok(ConfTarget::NixosModule),
            InstallMode::RootNixConf => if has_output_dir {
                Ok(ConfTarget::OutputDirectory)
            } else {
                Ok(ConfTarget::RootConf)
            },
            InstallMode::UserNixConf => if !has_config_dir {
                Err(NixConfError::NoConfigDirectory)
            } else if has_output_dir {
                Ok(ConfTarget::OutputDirectory)
            } else {
                Ok(ConfTarget::UserConf)
            },
        },
{
    match mode {
        InstallMode::NixOS => Ok(ConfTarget::NixosModule),
        InstallMode::RootNixConf => {
            if has_output_dir {
                Ok(ConfTarget::OutputDirectory)
            } else {
                Ok(ConfTarget::RootConf)
            }
        },
        InstallMode::UserNixConf => {
            if !has_config_dir {
                Err(NixConfError::NoConfigDirectory)
            } else if has_output_dir {
                Ok(ConfTarget::OutputDirectory)
            } else {
                Ok(ConfTarget::UserConf)
            }
        },
    }
}

/// The file of the NixOS module of a cache, below the configuration folder.
pub fn nixos_module_file(cache_name: &str) -> (r: String)
    ensures
        r@ == "cachix/"@ + cache_name@ + ".nix"@,
{
    let mut r = "cachix/".to_string();
    r.append(cache_name);
    r.append(".nix");
    r
}

/// A text as an item of a list of the module.
pub open spec fn module_item(item: Seq<char>) -> Seq<char> {
    "      \""@ + item + "\""@
}

/// The lines of a NixOS module that configures a cache: its address is the substituter,
/// and its public keys are the trusted ones.
pub open spec fn module_lines(cache_uri: Seq<char>, public_keys: Seq<Seq<char>>) -> Seq<Seq<char>> {
    seq![
        "# WARNING: this file is generated by cachix. Do not edit."@,
        "{"@,
        "  nix.settings = {"@,
        "    substituters = ["@,
        module_item(cache_uri),
        "    ];"@,
        "    trusted-public-keys = ["@,
    ] + public_keys.map_values(|key: Seq<char>| module_item(key)) + seq!["    ];"@, "  };"@, "}"@]
}

/// Computes `module_item`.
fn write_item(item: &str) -> (r: String)
    ensures
        r@ == module_item(item@),
{
    let mut r = "      \"".to_string();
    r.append(item);
    r.append("\"");
    r
}

/// Generate a NixOS module that configures the cache.
pub fn use_cache_nixos(cache_uri: &str, public_keys: &[String]) -> (r: String)
    ensures
        r@ == text::join(module_lines(cache_uri@, text::texts(public_keys@)), "\n"@) + "\n"@,
{
    let ghost keys = text::texts(public_keys@);
    let ghost items = keys.map_values(|key: Seq<char>| module_item(key));
    let mut lines: Vec<String> = Vec::new();
    lines.push("# WARNING: this file is generated by cachix. Do not edit.".to_string());
    lines.push("{".to_string());
    lines.push("  nix.settings = {".to_string());
    lines.push("    substituters = [".to_string());
    lines.push(write_item(cache_uri));
    lines.push("    ];".to_string());
    lines.push("    trusted-public-keys = [".to_string());
    let ghost head = text::texts(lines@);
    assert(head == module_lines(cache_uri@, keys).take(7));
    for i in 0..public_keys.len()
        invariant
            keys == text::texts(public_keys@),
            items == keys.map_values(|key: Seq<char>| module_item(key)),
            text::texts(lines@) == head + items.take(i as int),
    {
        let ghost before = text::texts(lines@);
        lines.push(write_item(public_keys[i].as_str()));
        assert(items[i as int] == module_item(keys[i as int]));
        assert(text::texts(lines@) == before.push(items[i as int]));
        assert(items.take(i + 1) == items.take(i as int).push(items[i as int]));
    }
    assert(items.take(public_keys@.len() as int) == items);
    let ghost before = text::texts(lines@);
    lines.push("    ];".to_string());
    lines.push("  };".to_string());
    lines.push("}".to_string());
    assert(text::texts(lines@) == before + seq!["    ];"@, "  };"@, "}"@]);
    assert(text::texts(lines@) == module_lines(cache_uri@, keys));
    let mut r = text::joined(lines.as_slice(), "\n");
    r.append("\n");
    r
}

}
