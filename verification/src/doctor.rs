//! The doctor: what it looks at, in which order, and what it says of it.

use vstd::prelude::*;
use vstd::string::*;

use crate::api::types::{BinaryCache, CompressionMethod, Permission};
use crate::commands::CommandError;
use crate::config::Config;
use crate::nix::sign;
use crate::nixconf;
use crate::nixconf::NixConf;
use crate::text;

verus! {

/// What the doctor says of Nix, from what `nix --version` writes where it succeeds.
pub fn doctor_nix(version: Option<&str>) -> (r: String)
    ensures
        r@ == match version {
            Some(version) => "Nix: "@ + text::trim(version@),
            None => "Nix: NOT FOUND"@,
        },
{
    match version {
        Some(version) => {
            let mut line = "Nix: ".to_string();
            line.append(text::trimmed(version).as_str());
            line
        },
        None => "Nix: NOT FOUND".to_string(),
    }
}

/// What the doctor says of the configuration.
pub fn doctor_config(cfg: &Config) -> (r: Vec<String>)
    ensures
        text::texts(r@) == config_lines(*cfg),
{
    let mut host = "Config hostname: ".to_string();
    host.append(cfg.hostname.as_str());
    let mut token = "Auth token: ".to_string();
    token.append(
        if cfg.auth_token.is_some() {
            "configured"
        } else {
            "not set"
        },
    );
    let mut lines: Vec<String> = Vec::new();
    lines.push(host);
    lines.push(token);
    assert(text::texts(lines@) == config_lines(*cfg));
    lines
}

/// The name of a permission.
pub open spec fn permission_name(permission: Permission) -> Seq<char> {
    match permission {
        Permission::Read => "Read"@,
        Permission::Write => "Write"@,
        Permission::Admin => "Admin"@,
    }
}

/// The name of a preferred compression method.
pub open spec fn preference_name(method: Option<CompressionMethod>) -> Seq<char> {
    match method {
        Some(CompressionMethod::Xz) => "Some(Xz)"@,
        Some(CompressionMethod::Zstd) => "Some(Zstd)"@,
        None => "None"@,
    }
}

/// What the doctor says of a cache.
pub fn doctor_cache(name: &str, cache: &BinaryCache) -> (r: Vec<String>)
    ensures
        text::texts(r@) == cache_lines(name@, *cache),
{
    let mut first = "Cache '".to_string();
    first.append(name);
    first.append("': OK (public: ");
    first.append(
        if cache.is_public {
            "true"
        } else {
            "false"
        },
    );
    first.append(")");
    let mut uri = "  URI: ".to_string();
    uri.append(cache.uri.as_str());
    let mut permission = "  Permission: ".to_string();
    permission.append(
        match cache.permission {
            Permission::Read => "Read",
            Permission::Write => "Write",
            Permission::Admin => "Admin",
        },
    );
    let mut compression = "  Compression: ".to_string();
    compression.append(
        match cache.preferred_compression_method {
            Some(CompressionMethod::Xz) => "Some(Xz)",
            Some(CompressionMethod::Zstd) => "Some(Zstd)",
            None => "None",
        },
    );
    let ghost texts = seq![first@, uri@, permission@, compression@];
    let mut lines: Vec<String> = Vec::new();
    lines.push(first);
    lines.push(uri);
    lines.push(permission);
    lines.push(compression);
    assert(text::texts(lines@) == texts);
    lines
}

/// What the doctor says of a cache that it cannot get.
pub fn doctor_cache_failed(name: &str, error: &str) -> (r: String)
    ensures
        r@ == "Cache '"@ + name@ + "': FAILED ("@ + error@ + ")"@,
{
    let mut r = "Cache '".to_string();
    r.append(name);
    r.append("': FAILED (");
    r.append(error);
    r.append(")");
    r
}

/// What the doctor says of a store path, from whether the cache has it.
pub fn doctor_store_path(store_path: &str, cached: bool) -> (r: String)
    ensures
        r@ == store_path_line(store_path@, cached),
{
    let mut r = "  Store path ".to_string();
    r.append(store_path);
    r.append(": ");
    r.append(
        if cached {
            "CACHED"
        } else {
            "NOT CACHED"
        },
    );
    r
}

/// What the doctor says of a nix.conf file.
pub fn doctor_conf(path: &str, substituters: Option<&str>) -> (r: Vec<String>)
    ensures
        text::texts(r@) == conf_lines(path@, text::opt_str(substituters)),
{
    let mut first = "nix.conf (".to_string();
    first.append(path);
    first.append("): found");
    let ghost found = first@;
    let mut lines: Vec<String> = Vec::new();
    lines.push(first);
    match substituters {
        Some(substituters) => {
            let mut second = "  substituters: ".to_string();
            second.append(substituters);
            let ghost told = second@;
            lines.push(second);
            assert(text::texts(lines@) == seq![found, told]);
        },
        None => {
            assert(text::texts(lines@) == seq![found]);
        },
    }
    lines
}

/// A nix.conf file that the doctor looks at.
#[derive(Debug, Clone, Copy, PartialEq, Eq, Structural)]
pub enum ConfFile {
    /// That of the user.
    User,
    /// That of the machine.
    Root,
}

/// How far the doctor has come. The states name what is to be done next.
#[derive(Debug)]
pub enum DoctorState {
    /// The version of Nix is to be found out.
    Nix,
    /// The client is to be made.
    Connecting,
    /// The cache of this name is to be asked for.
    Cache(String),
    /// The cache is to be asked for the store path with this hash.
    StorePath { name: String, store_path: String, hash: String },
    /// This file is to be read.
    Conf(ConfFile),
    /// All is done.
    Done,
    /// The doctor gave up, with this error.
    Failed(String),
}

/// What a `DoctorState` says.
pub enum DoctorStateView {
    Nix,
    Connecting,
    Cache(Seq<char>),
    StorePath { name: Seq<char>, store_path: Seq<char>, hash: Seq<char> },
    Conf(ConfFile),
    Done,
    Failed(Seq<char>),
}

impl View for DoctorState {
    type V = DoctorStateView;

    open spec fn view(&self) -> DoctorStateView {
        match self {
            DoctorState::Nix => DoctorStateView::Nix,
            DoctorState::Connecting => DoctorStateView::Connecting,
            DoctorState::Cache(name) => DoctorStateView::Cache(name@),
            DoctorState::StorePath { name, store_path, hash } => DoctorStateView::StorePath {
                name: name@,
                store_path: store_path@,
                hash: hash@,
            },
            DoctorState::Conf(file) => DoctorStateView::Conf(*file),
            DoctorState::Done => DoctorStateView::Done,
            DoctorState::Failed(error) => DoctorStateView::Failed(error@),
        }
    }
}

/// What became of what was to be done.
#[derive(Debug)]
pub enum DoctorEvent {
    /// What `nix --version` writes, where it succeeds.
    Nix(Option<String>),
    /// The client was made, or the error.
    Connected(Result<(), String>),
    /// The cache, or the error.
    Cache(Result<BinaryCache, String>),
    /// Whether the cache has the store path, or the error.
    StorePath(Result<bool, String>),
    /// The path of a file as it is shown, and what the file holds, where there is one,
    /// or the error.
    Conf(Result<Option<(String, NixConf)>, String>),
}

/// What the doctor is asked about.
#[derive(Debug)]
pub struct Checkup {
    pub cache_name: Option<String>,
    pub store_path: Option<String>,
}

/// The lines that the doctor writes first, and what is to be done first.
pub fn doctor_start() -> (r: (Vec<String>, DoctorState))
    ensures
        text::texts(r.0@) == seq!["Cachix Doctor"@, "============="@],
        r.1@ is Nix,
{
    let mut lines: Vec<String> = Vec::new();
    lines.push("Cachix Doctor".to_string());
    lines.push("=============".to_string());
    assert(text::texts(lines@) == seq!["Cachix Doctor"@, "============="@]);
    (lines, DoctorState::Nix)
}

/// The lines on a configuration.
pub open spec fn config_lines(cfg: Config) -> Seq<Seq<char>> {
    seq![
        "Config hostname: "@ + cfg.hostname@,
        "Auth token: "@ + if cfg.auth_token is Some {
            "configured"@
        } else {
            "not set"@
        },
    ]
}

/// The lines on a cache.
pub open spec fn cache_lines(name: Seq<char>, cache: BinaryCache) -> Seq<Seq<char>> {
    seq![
        "Cache '"@ + name + "': OK (public: "@ + if cache.is_public {
            "true"@
        } else {
            "false"@
        } + ")"@,
        "  URI: "@ + cache.uri@,
        "  Permission: "@ + permission_name(cache.permission),
        "  Compression: "@ + preference_name(cache.preferred_compression_method),
    ]
}

/// The line on a store path.
pub open spec fn store_path_line(store_path: Seq<char>, cached: bool) -> Seq<char> {
    "  Store path "@ + store_path + ": "@ + if cached {
        "CACHED"@
    } else {
        "NOT CACHED"@
    }
}

/// The lines on a nix.conf file.
pub open spec fn conf_lines(path: Seq<char>, substituters: Option<Seq<char>>) -> Seq<Seq<char>> {
    match substituters {
        Some(substituters) => seq![
            "nix.conf ("@ + path + "): found"@,
            "  substituters: "@ + substituters,
        ],
        None => seq!["nix.conf ("@ + path + "): found"@],
    }
}

/// What follows when the client is made: the cache is asked for where one is named.
pub open spec fn after_connecting(checkup: Checkup) -> DoctorStateView {
    match checkup.cache_name {
        Some(name) => DoctorStateView::Cache(name@),
        None => DoctorStateView::Conf(ConfFile::User),
    }
}

/// The error on what is no store path.
pub open spec fn store_path_error(store_path: Seq<char>) -> Seq<char> {
    if sign::basename(store_path) is None {
        "not a valid store path"@
    } else {
        "store path basename too short: "@ + store_path
    }
}

/// What follows when the cache was gotten: it is asked for the store path where one is
/// given and has a hash.
pub open spec fn after_cache(checkup: Checkup, name: Seq<char>) -> DoctorStateView {
    match checkup.store_path {
        Some(path) => match sign::hash_part(path@) {
            Some(hash) => DoctorStateView::StorePath { name, store_path: path@, hash },
            None => DoctorStateView::Failed(store_path_error(path@)),
        },
        None => DoctorStateView::Conf(ConfFile::User),
    }
}

/// What follows when a nix.conf file was looked at.
pub open spec fn after_conf(file: ConfFile) -> DoctorStateView {
    match file {
        ConfFile::User => DoctorStateView::Conf(ConfFile::Root),
        ConfFile::Root => DoctorStateView::Done,
    }
}

/// The next state of the doctor. An event that answers nothing changes nothing. That a
/// cache cannot be gotten ends nothing.
pub open spec fn next_state(
    state: DoctorStateView,
    event: DoctorEvent,
    checkup: Checkup,
) -> DoctorStateView {
    match (state, event) {
        (DoctorStateView::Nix, DoctorEvent::Nix(Some(_))) => DoctorStateView::Connecting,
        (DoctorStateView::Nix, DoctorEvent::Nix(None)) => DoctorStateView::Failed(
            CommandError::NixNotFound.message_text(),
        ),
        (DoctorStateView::Connecting, DoctorEvent::Connected(Ok(_))) => after_connecting(checkup),
        (DoctorStateView::Connecting, DoctorEvent::Connected(Err(error))) =>
            DoctorStateView::Failed(error@),
        (DoctorStateView::Cache(name), DoctorEvent::Cache(Ok(_))) => after_cache(checkup, name),
        (DoctorStateView::Cache(_), DoctorEvent::Cache(Err(_))) => DoctorStateView::Conf(
            ConfFile::User,
        ),
        (DoctorStateView::StorePath { .. }, DoctorEvent::StorePath(Ok(_))) =>
            DoctorStateView::Conf(ConfFile::User),
        (DoctorStateView::StorePath { .. }, DoctorEvent::StorePath(Err(error))) =>
            DoctorStateView::Failed(error@),
        (DoctorStateView::Conf(file), DoctorEvent::Conf(Ok(_))) => after_conf(file),
        (DoctorStateView::Conf(_), DoctorEvent::Conf(Err(error))) => DoctorStateView::Failed(
            error@,
        ),
        _ => state,
    }
}

/// What the doctor writes when a nix.conf file was looked at. After the last one it is
/// done.
pub open spec fn conf_report(file: ConfFile, found: Option<(String, NixConf)>) -> Seq<Seq<char>> {
    let lines = match found {
        Some(found) => conf_lines(found.0@, nixconf::get_in(found.1@, "substituters"@)),
        None => Seq::empty(),
    };
    match file {
        ConfFile::User => lines,
        ConfFile::Root => lines + seq!["\nDoctor check complete."@],
    }
}

/// What the doctor writes of what became of what was to be done.
pub open spec fn report(
    state: DoctorStateView,
    event: DoctorEvent,
    cfg: Config,
    checkup: Checkup,
) -> Seq<Seq<char>> {
    match (state, event) {
        (DoctorStateView::Nix, DoctorEvent::Nix(Some(version))) => seq![
            "Nix: "@ + text::trim(version@),
        ] + config_lines(cfg),
        (DoctorStateView::Nix, DoctorEvent::Nix(None)) => seq!["Nix: NOT FOUND"@],
        (DoctorStateView::Connecting, DoctorEvent::Connected(Ok(_))) => if checkup.cache_name
            is None {
            seq!["  (no cache specified, use --cache to check a specific cache)"@]
        } else {
            Seq::empty()
        },
        (DoctorStateView::Cache(name), DoctorEvent::Cache(Ok(cache))) => cache_lines(name, cache),
        (DoctorStateView::Cache(name), DoctorEvent::Cache(Err(error))) => seq![
            "Cache '"@ + name + "': FAILED ("@ + error@ + ")"@,
        ],
        (DoctorStateView::StorePath { store_path, .. }, DoctorEvent::StorePath(Ok(cached))) =>
            seq![store_path_line(store_path, cached)],
        (DoctorStateView::Conf(file), DoctorEvent::Conf(Ok(found))) => conf_report(file, found),
        _ => Seq::empty(),
    }
}

/// One line.
fn one_line(line: String) -> (r: Vec<String>)
    ensures
        text::texts(r@) == seq![line@],
{
    let mut lines: Vec<String> = Vec::new();
    lines.push(line);
    assert(text::texts(lines@) == seq![line@]);
    lines
}

/// The lines on a nix.conf file and what follows.
fn conf_step(file: ConfFile, found: Option<(String, NixConf)>) -> (r: (Vec<String>, DoctorState))
    ensures
        text::texts(r.0@) == conf_report(file, found),
        r.1@ == after_conf(file),
{
    let mut lines: Vec<String> = match found {
        Some((path, conf)) => match conf.get("substituters") {
            Some(substituters) => doctor_conf(path.as_str(), Some(substituters.as_str())),
            None => doctor_conf(path.as_str(), None),
        },
        None => Vec::new(),
    };
    let ghost earlier = text::texts(lines@);
    match file {
        ConfFile::User => {
            assert(earlier == conf_report(file, found));
            (lines, DoctorState::Conf(ConfFile::Root))
        },
        ConfFile::Root => {
            lines.push("\nDoctor check complete.".to_string());
            assert(text::texts(lines@) == earlier + seq!["\nDoctor check complete."@]);
            (lines, DoctorState::Done)
        },
    }
}

/// A step of the doctor: the lines to write, and what is to be done next.
pub fn cmd_doctor(state: DoctorState, event: DoctorEvent, cfg: &Config, checkup: &Checkup) -> (r: (
    Vec<String>,
    DoctorState,
))
    ensures
        text::texts(r.0@) == report(state@, event, *cfg, *checkup),
        r.1@ == next_state(state@, event, *checkup),
{
    let none: Vec<String> = Vec::new();
    assert(text::texts(none@) == Seq::<Seq<char>>::empty());
    match (state, event) {
        (DoctorState::Nix, DoctorEvent::Nix(Some(version))) => {
            let mut lines = one_line(doctor_nix(Some(version.as_str())));
            let mut more = doctor_config(cfg);
            let ghost all = text::texts(lines@) + text::texts(more@);
            lines.append(&mut more);
            assert(text::texts(lines@) == all);
            (lines, DoctorState::Connecting)
        },
        (DoctorState::Nix, DoctorEvent::Nix(None)) => (
            one_line(doctor_nix(None)),
            DoctorState::Failed(CommandError::NixNotFound.message()),
        ),
        (DoctorState::Connecting, DoctorEvent::Connected(Ok(_))) => match &checkup.cache_name {
            Some(name) => (none, DoctorState::Cache(name.clone())),
            None => (
                one_line(
                    "  (no cache specified, use --cache to check a specific cache)".to_string(),
                ),
                DoctorState::Conf(ConfFile::User),
            ),
        },
        (DoctorState::Connecting, DoctorEvent::Connected(Err(error))) => (
            none,
            DoctorState::Failed(error),
        ),
        (DoctorState::Cache(name), DoctorEvent::Cache(Ok(cache))) => {
            let lines = doctor_cache(name.as_str(), &cache);
            match &checkup.store_path {
                Some(path) => match sign::store_path_hash(path.as_str()) {
                    Ok(hash) => (
                        lines,
                        DoctorState::StorePath { name, store_path: path.clone(), hash },
                    ),
                    Err(e) => (lines, DoctorState::Failed(e.message())),
                },
                None => (lines, DoctorState::Conf(ConfFile::User)),
            }
        },
        (DoctorState::Cache(name), DoctorEvent::Cache(Err(error))) => (
            one_line(doctor_cache_failed(name.as_str(), error.as_str())),
            DoctorState::Conf(ConfFile::User),
        ),
        (DoctorState::StorePath { name: _, store_path, hash: _ }, DoctorEvent::StorePath(
            Ok(cached),
        )) => (
            one_line(doctor_store_path(store_path.as_str(), cached)),
            DoctorState::Conf(ConfFile::User),
        ),
        (DoctorState::StorePath { .. }, DoctorEvent::StorePath(Err(error))) => (
            none,
            DoctorState::Failed(error),
        ),
        (DoctorState::Conf(file), DoctorEvent::Conf(Ok(found))) => conf_step(file, found),
        (DoctorState::Conf(_), DoctorEvent::Conf(Err(error))) => (none, DoctorState::Failed(error)),
        (state, _) => (none, state),
    }
}

/// The state of the doctor after the given events.
pub open spec fn after(checkup: Checkup, events: Seq<DoctorEvent>) -> DoctorStateView
    decreases events.len(),
{
    if events.len() == 0 {
        DoctorStateView::Nix
    } else {
        next_state(after(checkup, events.drop_last()), events.last(), checkup)
    }
}

/// A cache is asked for only where one is named, and it is that one.
pub proof fn named_cache_is_asked_for(checkup: Checkup, events: Seq<DoctorEvent>)
    requires
        after(checkup, events) is Cache,
    ensures
        text::opt_text(checkup.cache_name) == Some(after(checkup, events)->Cache_0),
    decreases events.len(),
{
    let init = events.drop_last();
    if after(checkup, init) is Cache {
        named_cache_is_asked_for(checkup, init);
    }
}

/// A cache is asked for a store path only where the cache is the named one and was gotten,
/// and the path is the given one, by its hash.
pub proof fn given_path_is_asked_for(checkup: Checkup, events: Seq<DoctorEvent>)
    requires
        after(checkup, events) is StorePath,
    ensures
        after(checkup, events) matches DoctorStateView::StorePath { name, store_path, hash } && {
            &&& text::opt_text(checkup.cache_name) == Some(name)
            &&& text::opt_text(checkup.store_path) == Some(store_path)
            &&& sign::hash_part(store_path) == Some(hash)
            &&& exists|k: int|
                0 <= k < events.len() && (#[trigger] events[k] matches DoctorEvent::Cache(Ok(_)))
                    && after(checkup, events.take(k)) == DoctorStateView::Cache(name)
        },
    decreases events.len(),
{
    let init = events.drop_last();
    if after(checkup, init) is StorePath {
        given_path_is_asked_for(checkup, init);
        let name = after(checkup, init)->StorePath_name;
        let k = choose|k: int|
            0 <= k < init.len() && (#[trigger] init[k] matches DoctorEvent::Cache(Ok(_))) && after(
                checkup,
                init.take(k),
            ) == DoctorStateView::Cache(name);
        assert(events[k] == init[k]);
        assert(events.take(k) == init.take(k));
    } else {
        named_cache_is_asked_for(checkup, init);
        let k = events.len() - 1;
        assert(events.take(k) == init);
        assert(events[k] == events.last());
    }
}

/// What the doctor finds where it looks.
pub struct Findings {
    pub nix: Option<String>,
    pub connected: Result<(), String>,
    pub cache: Result<BinaryCache, String>,
    pub store_path: Result<bool, String>,
    pub user_conf: Result<Option<(String, NixConf)>, String>,
    pub root_conf: Result<Option<(String, NixConf)>, String>,
}

/// What becomes of what is to be done in a state.
pub open spec fn finding(findings: Findings, state: DoctorStateView) -> DoctorEvent {
    match state {
        DoctorStateView::Connecting => DoctorEvent::Connected(findings.connected),
        DoctorStateView::Cache(_) => DoctorEvent::Cache(findings.cache),
        DoctorStateView::StorePath { .. } => DoctorEvent::StorePath(findings.store_path),
        DoctorStateView::Conf(ConfFile::User) => DoctorEvent::Conf(findings.user_conf),
        DoctorStateView::Conf(ConfFile::Root) => DoctorEvent::Conf(findings.root_conf),
        _ => DoctorEvent::Nix(findings.nix),
    }
}

/// The state of the doctor after some steps.
pub open spec fn state_after(findings: Findings, checkup: Checkup, steps: nat) -> DoctorStateView
    decreases steps,
{
    if steps == 0 {
        DoctorStateView::Nix
    } else {
        let state = state_after(findings, checkup, (steps - 1) as nat);
        next_state(state, finding(findings, state), checkup)
    }
}

/// Whether the store path stops nothing: it is not asked about, or it has a hash and the
/// cache answers.
pub open spec fn path_passes(findings: Findings, checkup: Checkup) -> bool {
    ||| checkup.cache_name is None
    ||| findings.cache is Err
    ||| checkup.store_path is None
    ||| sign::hash_part(checkup.store_path->0@) is Some && findings.store_path is Ok
}

/// The doctor ends. It gives up where there is no Nix, no client, no answer on the store
/// path, or a nix.conf file that cannot be read, and for nothing else: neither a cache that
/// is not named nor one that cannot be gotten stops it.
pub proof fn doctor_ends(findings: Findings, checkup: Checkup)
    ensures
        ({
            let end = state_after(findings, checkup, 6);
            let passes = findings.nix is Some && findings.connected is Ok && path_passes(
                findings,
                checkup,
            ) && findings.user_conf is Ok && findings.root_conf is Ok;
            &&& passes ==> end is Done
            &&& !passes ==> end is Failed
        }),
{
    reveal_with_fuel(state_after, 7);
}

/// The doctor goes from one check to the next: from Nix to the client, from that to the cache
/// that is named, from that to the store path that is given, and then to the two nix.conf
/// files. A check that is not asked for is left out.
pub proof fn doctor_goes_on(
    checkup: Checkup,
    version: String,
    cache: BinaryCache,
    name: Seq<char>,
    store_path: Seq<char>,
    hash: Seq<char>,
    cached: bool,
    found: Option<(String, NixConf)>,
)
    ensures
        next_state(DoctorStateView::Nix, DoctorEvent::Nix(Some(version)), checkup)
            == DoctorStateView::Connecting,
        checkup.cache_name is Some ==> next_state(
            DoctorStateView::Connecting,
            DoctorEvent::Connected(Ok(())),
            checkup,
        ) == DoctorStateView::Cache(checkup.cache_name->0@),
        checkup.cache_name is None ==> next_state(
            DoctorStateView::Connecting,
            DoctorEvent::Connected(Ok(())),
            checkup,
        ) == DoctorStateView::Conf(ConfFile::User),
        checkup.store_path is None ==> next_state(
            DoctorStateView::Cache(name),
            DoctorEvent::Cache(Ok(cache)),
            checkup,
        ) == DoctorStateView::Conf(ConfFile::User),
        checkup.store_path is Some && sign::hash_part(checkup.store_path->0@) is Some
            ==> next_state(DoctorStateView::Cache(name), DoctorEvent::Cache(Ok(cache)), checkup)
            == (DoctorStateView::StorePath {
            name,
            store_path: checkup.store_path->0@,
            hash: sign::hash_part(checkup.store_path->0@)->0,
        }),
        next_state(
            DoctorStateView::StorePath { name, store_path, hash },
            DoctorEvent::StorePath(Ok(cached)),
            checkup,
        ) == DoctorStateView::Conf(ConfFile::User),
        next_state(DoctorStateView::Conf(ConfFile::User), DoctorEvent::Conf(Ok(found)), checkup)
            == DoctorStateView::Conf(ConfFile::Root),
        next_state(DoctorStateView::Conf(ConfFile::Root), DoctorEvent::Conf(Ok(found)), checkup)
            == DoctorStateView::Done,
{
}

/// The doctor gives up with the error where there is no Nix, no client, no answer on the
/// store path or a file that cannot be read, and goes on where the cache cannot be gotten.
pub proof fn doctor_on_errors(
    checkup: Checkup,
    error: String,
    cache: BinaryCache,
    name: Seq<char>,
    store_path: Seq<char>,
    hash: Seq<char>,
    file: ConfFile,
)
    ensures
        next_state(DoctorStateView::Nix, DoctorEvent::Nix(None), checkup)
            == DoctorStateView::Failed("nix is not installed or not in PATH"@),
        next_state(DoctorStateView::Connecting, DoctorEvent::Connected(Err(error)), checkup)
            == DoctorStateView::Failed(error@),
        next_state(DoctorStateView::Cache(name), DoctorEvent::Cache(Err(error)), checkup)
            == DoctorStateView::Conf(ConfFile::User),
        checkup.store_path is Some && sign::basename(checkup.store_path->0@) is None
            ==> next_state(DoctorStateView::Cache(name), DoctorEvent::Cache(Ok(cache)), checkup)
            == DoctorStateView::Failed("not a valid store path"@),
        checkup.store_path is Some && sign::basename(checkup.store_path->0@) is Some
            && sign::hash_part(checkup.store_path->0@) is None ==> next_state(
            DoctorStateView::Cache(name),
            DoctorEvent::Cache(Ok(cache)),
            checkup,
        ) == DoctorStateView::Failed("store path basename too short: "@ + checkup.store_path->0@),
        next_state(
            DoctorStateView::StorePath { name, store_path, hash },
            DoctorEvent::StorePath(Err(error)),
            checkup,
        ) == DoctorStateView::Failed(error@),
        next_state(DoctorStateView::Conf(file), DoctorEvent::Conf(Err(error)), checkup)
            == DoctorStateView::Failed(error@),
{
}

/// The outcome of the doctor, from what it finds: it is done exactly if there are Nix and a
/// client, both files can be read where they are, and the cache that was gotten answers for the
/// store path that was given, which has a hash.
pub proof fn doctor_is_done_or_gives_up(findings: Findings, checkup: Checkup)
    ensures
        state_after(findings, checkup, 6) is Done <==> findings.nix is Some && findings.connected
            is Ok && findings.user_conf is Ok && findings.root_conf is Ok && (checkup.cache_name
            is Some && findings.cache is Ok && checkup.store_path is Some ==> findings.store_path
            is Ok && sign::hash_part(checkup.store_path->0@) is Some),
        state_after(findings, checkup, 6) is Done || state_after(findings, checkup, 6) is Failed,
{
    doctor_ends(findings, checkup);
}

/// What the doctor writes on Nix, the configuration and the cache.
pub proof fn doctor_writes_on_nix_and_the_cache(
    cfg: Config,
    checkup: Checkup,
    version: String,
    name: Seq<char>,
    cache: BinaryCache,
    error: String,
)
    ensures
        report(DoctorStateView::Nix, DoctorEvent::Nix(Some(version)), cfg, checkup) == seq![
            "Nix: "@ + text::trim(version@),
            "Config hostname: "@ + cfg.hostname@,
            "Auth token: "@ + if cfg.auth_token is Some {
                "configured"@
            } else {
                "not set"@
            },
        ],
        report(DoctorStateView::Nix, DoctorEvent::Nix(None), cfg, checkup) == seq![
            "Nix: NOT FOUND"@,
        ],
        checkup.cache_name is None ==> report(
            DoctorStateView::Connecting,
            DoctorEvent::Connected(Ok(())),
            cfg,
            checkup,
        ) == seq!["  (no cache specified, use --cache to check a specific cache)"@],
        checkup.cache_name is Some ==> report(
            DoctorStateView::Connecting,
            DoctorEvent::Connected(Ok(())),
            cfg,
            checkup,
        ).len() == 0,
        report(DoctorStateView::Cache(name), DoctorEvent::Cache(Err(error)), cfg, checkup) == seq![
            "Cache '"@ + name + "': FAILED ("@ + error@ + ")"@,
        ],
        report(DoctorStateView::Cache(name), DoctorEvent::Cache(Ok(cache)), cfg, checkup) == seq![
            "Cache '"@ + name + "': OK (public: "@ + if cache.is_public {
                "true"@
            } else {
                "false"@
            } + ")"@,
            "  URI: "@ + cache.uri@,
            "  Permission: "@ + if cache.permission == Permission::Read {
                "Read"@
            } else if cache.permission == Permission::Write {
                "Write"@
            } else {
                "Admin"@
            },
            "  Compression: "@ + if cache.preferred_compression_method is None {
                "None"@
            } else if cache.preferred_compression_method == Some(CompressionMethod::Xz) {
                "Some(Xz)"@
            } else {
                "Some(Zstd)"@
            },
        ],
{
}

/// What the doctor writes on a store path and the nix.conf files, and that it ends with saying
/// that it is done.
pub proof fn doctor_writes_on_paths_and_files(
    cfg: Config,
    checkup: Checkup,
    name: Seq<char>,
    store_path: Seq<char>,
    hash: Seq<char>,
    path: String,
    conf: NixConf,
)
    ensures
        report(
            DoctorStateView::StorePath { name, store_path, hash },
            DoctorEvent::StorePath(Ok(true)),
            cfg,
            checkup,
        ) == seq!["  Store path "@ + store_path + ": "@ + "CACHED"@],
        report(
            DoctorStateView::StorePath { name, store_path, hash },
            DoctorEvent::StorePath(Ok(false)),
            cfg,
            checkup,
        ) == seq!["  Store path "@ + store_path + ": "@ + "NOT CACHED"@],
        ({
            let lines = match nixconf::get_in(conf@, "substituters"@) {
                Some(substituters) => seq![
                    "nix.conf ("@ + path@ + "): found"@,
                    "  substituters: "@ + substituters,
                ],
                None => seq!["nix.conf ("@ + path@ + "): found"@],
            };
            let found = DoctorEvent::Conf(Ok(Some((path, conf))));
            &&& report(DoctorStateView::Conf(ConfFile::User), found, cfg, checkup) == lines
            &&& report(DoctorStateView::Conf(ConfFile::Root), found, cfg, checkup) == lines.push(
                "\nDoctor check complete."@,
            )
        }),
        report(
            DoctorStateView::Conf(ConfFile::User),
            DoctorEvent::Conf(Ok(None)),
            cfg,
            checkup,
        ).len() == 0,
        report(
            DoctorStateView::Conf(ConfFile::Root),
            DoctorEvent::Conf(Ok(None)),
            cfg,
            checkup,
        ) == seq!["\nDoctor check complete."@],
{
}

/// A state says what it holds.
pub proof fn states_say_what_they_hold(
    name: String,
    store_path: String,
    hash: String,
    file: ConfFile,
)
    ensures
        DoctorState::Nix@ is Nix,
        DoctorState::Connecting@ is Connecting,
        DoctorState::Cache(name)@ == DoctorStateView::Cache(name@),
        (DoctorState::StorePath { name, store_path, hash })@ == (DoctorStateView::StorePath {
            name: name@,
            store_path: store_path@,
            hash: hash@,
        }),
        DoctorState::Conf(file)@ == DoctorStateView::Conf(file),
        DoctorState::Done@ is Done,
        DoctorState::Failed(name)@ == DoctorStateView::Failed(name@),
{
}

/// An event that does not answer what is to be done changes nothing, and nothing is written
/// of it; and so it is once the doctor has come to its end.
pub proof fn other_events_leave_the_doctor(
    state: DoctorStateView,
    event: DoctorEvent,
    cfg: Config,
    checkup: Checkup,
)
    requires
        !(state is Nix && event is Nix),
        !(state is Connecting && event is Connected),
        !(state is Cache && event is Cache),
        !(state is StorePath && event is StorePath),
        !(state is Conf && event is Conf),
    ensures
        next_state(state, event, checkup) == state,
        report(state, event, cfg, checkup).len() == 0,
{
}

}
