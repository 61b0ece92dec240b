//! What the commands decide.

use vstd::prelude::*;
use vstd::string::*;

use crate::api::client;
use crate::api::client::{ApiClient, ApiError};
use crate::api::types::{CompressionMethod, DaemonClientMessage, PinCreate, PinKeep};
use crate::cli::{CompressionMethodArg, ConfigCommand, DeployCommand, InstallModeArg, PushArgs};
use crate::config;
use crate::config::{Config, PushCredential};
use crate::daemon;
use crate::nixconf::InstallMode;
use crate::push::PushOptions;
use crate::text;

verus! {

/// Why a command does nothing.
#[derive(Debug)]
pub enum CommandError {
    MissingToken,
    EmptyToken,
    UnknownKey(String),
    NoStorePaths,
    MissingVariable(String),
    NixNotFound,
}

impl CommandError {
    /// The text of the message for the user.
    pub open spec fn message_text(self) -> Seq<char> {
        match self {
            CommandError::MissingToken => "auth token argument is required (or use --stdin)"@,
            CommandError::EmptyToken => "auth token cannot be empty"@,
            CommandError::UnknownKey(key) => "unknown config key: "@ + key@,
            CommandError::NoStorePaths => "no store paths provided"@,
            CommandError::MissingVariable(name) => name@ + " environment variable is required"@,
            CommandError::NixNotFound => "nix is not installed or not in PATH"@,
        }
    }

    /// The message for the user.
    pub fn message(&self) -> (r: String)
        ensures
            r@ == self.message_text(),
    {
        match self {
            CommandError::MissingToken => {
                "auth token argument is required (or use --stdin)".to_string()
            },
            CommandError::EmptyToken => "auth token cannot be empty".to_string(),
            CommandError::UnknownKey(key) => {
                let mut r = "unknown config key: ".to_string();
                r.append(key.as_str());
                r
            },
            CommandError::NoStorePaths => "no store paths provided".to_string(),
            CommandError::MissingVariable(name) => {
                let mut r = name.clone();
                r.append(" environment variable is required");
                r
            },
            CommandError::NixNotFound => "nix is not installed or not in PATH".to_string(),
        }
    }
}

/// The host to use: that of the command line, unless it is the default one.
pub fn override_hostname(cfg: &mut Config, hostname: &str)
    ensures
        final(cfg).hostname@ == if hostname@ == "https://cachix.org"@ {
            old(cfg).hostname@
        } else {
            hostname@
        },
        final(cfg).auth_token == old(cfg).auth_token,
        final(cfg).binary_caches == old(cfg).binary_caches,
{
    if !text::same_text(hostname, "https://cachix.org") {
        cfg.hostname = hostname.to_string();
    }
}

/// The token that the user gives: the line that was read, without the white space at
/// either end, or else the argument.
pub open spec fn given_token(line: Option<Seq<char>>, token: Option<Seq<char>>) -> Option<
    Seq<char>,
> {
    match line {
        Some(line) => Some(text::trim(line)),
        None => token,
    }
}

/// Set the auth token: `line` is the line that was read, where the token is read from
/// the standard input, and `token` the argument.
pub fn cmd_authtoken(cfg: &mut Config, line: Option<String>, token: Option<String>) -> (r: Result<
    (),
    CommandError,
>)
    ensures
        ({
            let given = given_token(text::opt_text(line), text::opt_text(token));
            match r {
                Ok(()) => {
                    &&& given is Some
                    &&& given->0.len() > 0
                    &&& text::opt_text(final(cfg).auth_token) == given
                    &&& final(cfg).hostname == old(cfg).hostname
                    &&& final(cfg).binary_caches == old(cfg).binary_caches
                },
                Err(e) => {
                    &&& *final(cfg) == *old(cfg)
                    &&& if given is None {
                        e is MissingToken
                    } else {
                        given->0.len() == 0 && e is EmptyToken
                    }
                },
            }
        }),
        line is None && token is None <==> r is Err && r->Err_0 is MissingToken,
        line is None && token is Some && token->0@.len() > 0 ==> r is Ok && text::opt_text(
            final(cfg).auth_token,
        ) == Some(token->0@),
        line is Some && text::trim(line->0@).len() > 0 ==> r is Ok && text::opt_text(
            final(cfg).auth_token,
        ) == Some(text::trim(line->0@)),
{
    let token = match line {
        Some(line) => text::trimmed(line.as_str()),
        None => match token {
            Some(token) => token,
            None => return Err(CommandError::MissingToken),
        },
    };
    if token.as_str().is_empty() {
        return Err(CommandError::EmptyToken);
    }
    cfg.set_auth_token(token);
    Ok(())
}

/// What a config command ends with.
#[derive(Debug)]
pub enum ConfigOutcome {
    /// A value to print.
    Value(String),
    /// The configuration is to be saved.
    Updated,
}

/// Get or set a configuration value. The host is the only one.
pub fn cmd_config(cfg: &mut Config, command: ConfigCommand) -> (r: Result<
    ConfigOutcome,
    CommandError,
>)
    ensures
        final(cfg).auth_token == old(cfg).auth_token,
        final(cfg).binary_caches == old(cfg).binary_caches,
        match command {
            ConfigCommand::Get { key } => {
                &&& final(cfg).hostname == old(cfg).hostname
                &&& if key@ == "hostname"@ {
                    r is Ok && r->Ok_0 is Value && r->Ok_0->Value_0@ == old(cfg).hostname@
                } else {
                    r is Err && r->Err_0 == CommandError::UnknownKey(key)
                }
            },
            ConfigCommand::Update { key, value } => if key@ == "hostname"@ {
                r is Ok && r->Ok_0 is Updated && final(cfg).hostname == value
            } else {
                r is Err && r->Err_0 == CommandError::UnknownKey(key) && final(cfg).hostname
                    == old(cfg).hostname
            },
        },
{
    match command {
        ConfigCommand::Get { key } => {
            if text::same_text(key.as_str(), "hostname") {
                Ok(ConfigOutcome::Value(cfg.hostname.clone()))
            } else {
                Err(CommandError::UnknownKey(key))
            }
        },
        ConfigCommand::Update { key, value } => {
            if text::same_text(key.as_str(), "hostname") {
                cfg.hostname = value;
                Ok(ConfigOutcome::Updated)
            } else {
                Err(CommandError::UnknownKey(key))
            }
        },
    }
}

/// The installation mode that the user asks for.
pub fn install_mode(mode: InstallModeArg) -> (r: InstallMode)
    ensures
        r == match mode {
            InstallModeArg::Nixos => InstallMode::NixOS,
            InstallModeArg::RootNixconf => InstallMode::RootNixConf,
            InstallModeArg::UserNixconf => InstallMode::UserNixConf,
        },
{
    match mode {
        InstallModeArg::Nixos => InstallMode::NixOS,
        InstallModeArg::RootNixconf => InstallMode::RootNixConf,
        InstallModeArg::UserNixconf => InstallMode::UserNixConf,
    }
}

/// What is done about the netrc file when a cache is configured.
#[derive(Debug)]
pub enum NetrcAction {
    /// Nothing: the cache is public.
    Leave,
    /// Write the token.
    Write(String),
    /// Warn that there is no token.
    Warn,
}

/// What is done about the netrc file when a cache is configured: a private cache needs
/// the auth token.
pub fn netrc_action(is_public: bool, cfg: &Config) -> (r: NetrcAction)
    ensures
        match r {
            NetrcAction::Leave => is_public,
            NetrcAction::Write(token) => !is_public && text::opt_text(cfg.auth_token) == Some(
                token@,
            ),
            NetrcAction::Warn => !is_public && cfg.auth_token is None,
        },
{
    if is_public {
        return NetrcAction::Leave;
    }
    match &cfg.auth_token {
        Some(token) => NetrcAction::Write(token.clone()),
        None => NetrcAction::Warn,
    }
}

/// Whether a line holds more than white space.
pub open spec fn says_something() -> spec_fn(Seq<char>) -> bool {
    |line: Seq<char>| text::trim(line).len() > 0
}

/// The store paths that the user gives: those on the command line, or where there are
/// none, the lines of the standard input that hold more than white space.
pub fn given_paths(paths: Vec<String>, stdin_lines: &[String]) -> (r: Vec<String>)
    ensures
        text::texts(r@) == if paths@.len() > 0 {
            text::texts(paths@)
        } else {
            text::texts(stdin_lines@).filter(says_something())
        },
{
    if paths.len() > 0 {
        return paths;
    }
    let ghost all = text::texts(stdin_lines@);
    let mut out: Vec<String> = Vec::new();
    let mut i: usize = 0;
    proof {
        reveal(Seq::filter);
        assert(text::texts(out@) == all.take(0).filter(says_something()));
    }
    while i < stdin_lines.len()
        invariant
            i <= stdin_lines@.len(),
            all == text::texts(stdin_lines@),
            text::texts(out@) == all.take(i as int).filter(says_something()),
        decreases stdin_lines@.len() - i,
    {
        proof {
            reveal(Seq::filter);
            assert(all.take(i + 1).drop_last() == all.take(i as int));
            assert(all.take(i + 1).last() == stdin_lines@[i as int]@);
        }
        let trimmed = text::trimmed(stdin_lines[i].as_str());
        if !trimmed.as_str().is_empty() {
            let ghost shorter = text::texts(out@);
            out.push(stdin_lines[i].clone());
            assert(text::texts(out@) == shorter.push(stdin_lines@[i as int]@));
        }
        i = i + 1;
    }
    assert(all.take(i as int) == all);
    out
}

/// The store paths to push, of which there has to be one.
pub fn cmd_push(paths: Vec<String>, stdin_lines: &[String]) -> (r: Result<
    Vec<String>,
    CommandError,
>)
    ensures
        ({
            let given = if paths@.len() > 0 {
                text::texts(paths@)
            } else {
                text::texts(stdin_lines@).filter(says_something())
            };
            match r {
                Ok(paths) => given.len() > 0 && text::texts(paths@) == given,
                Err(e) => given.len() == 0 && e is NoStorePaths,
            }
        }),
{
    let given = given_paths(paths, stdin_lines);
    if given.len() == 0 {
        assert(text::texts(given@).len() == 0);
        return Err(CommandError::NoStorePaths);
    }
    assert(text::texts(given@).len() > 0);
    Ok(given)
}

/// What is done after a command was run: what the user is told, and the store paths to
/// push, if there are any.
#[derive(Debug)]
pub struct WatchExecOutcome {
    pub message: String,
    pub push: Option<Vec<String>>,
}

/// What is done after a command was run that added the given store paths: they are
/// pushed, where there are any.
pub fn cmd_watch_exec(new_paths: Vec<String>) -> (r: WatchExecOutcome)
    ensures
        if new_paths@.len() == 0 {
            r.message@ == "no new store paths to push"@ && r.push is None
        } else {
            &&& r.message@ == "found "@ + text::decimal(new_paths@.len()) + " new store paths"@
            &&& r.push == Some(new_paths)
        },
{
    if new_paths.len() == 0 {
        return WatchExecOutcome {
            message: "no new store paths to push".to_string(),
            push: None,
        };
    }
    let mut message = "found ".to_string();
    message.append(text::decimal_text(new_paths.len() as u64).as_str());
    message.append(" new store paths");
    WatchExecOutcome { message, push: Some(new_paths) }
}

/// How long a pin is kept: forever, or for a number of days, or a number of revisions,
/// by the first of them that is given.
pub open spec fn kept(days: Option<u64>, revisions: Option<u64>, forever: bool) -> Option<
    PinKeep,
> {
    if forever {
        Some(PinKeep::Forever)
    } else if days is Some {
        Some(PinKeep::Days(days->0))
    } else if revisions is Some {
        Some(PinKeep::Revisions(revisions->0))
    } else {
        None
    }
}

/// The pin to create.
pub fn cmd_pin(
    pin_name: &str,
    store_path: &str,
    artifacts: Vec<String>,
    keep_days: Option<u64>,
    keep_revisions: Option<u64>,
    keep_forever: bool,
) -> (r: PinCreate)
    ensures
        r.name@ == pin_name@,
        r.store_path@ == store_path@,
        r.artifacts == artifacts,
        r.keep == kept(keep_days, keep_revisions, keep_forever),
        keep_forever ==> r.keep == Some(PinKeep::Forever),
        !keep_forever && keep_days is Some ==> r.keep == Some(PinKeep::Days(keep_days->0)),
        !keep_forever && keep_days is None && keep_revisions is Some ==> r.keep == Some(
            PinKeep::Revisions(keep_revisions->0),
        ),
        r.keep is None <==> !keep_forever && keep_days is None && keep_revisions is None,
{
    let keep = if keep_forever {
        Some(PinKeep::Forever)
    } else {
        match keep_days {
            Some(days) => Some(PinKeep::Days(days)),
            None => match keep_revisions {
                Some(revisions) => Some(PinKeep::Revisions(revisions)),
                None => None,
            },
        }
    };
    PinCreate { name: pin_name.to_string(), store_path: store_path.to_string(), artifacts, keep }
}

/// What a client wants from the daemon.
#[derive(Debug)]
pub enum DaemonRequest {
    /// Push store paths, which are read from the standard input where none are given.
    Push { wait: bool, paths: Vec<String>, stdin_lines: Vec<String> },
    /// Stop.
    Stop,
    /// Push the store paths that a command has added, and wait for it.
    WatchExec { new_paths: Vec<String> },
    /// Say whether it is healthy.
    Doctor,
}

/// The message to the daemon. Where a command has added no store paths, there is none.
pub fn cmd_daemon(request: DaemonRequest) -> (r: Option<DaemonClientMessage>)
    ensures
        match request {
            DaemonRequest::Push { wait, paths, stdin_lines } => {
                &&& r is Some
                &&& r->0 is ClientPushRequest
                &&& r->0->ClientPushRequest_0.subscribe_to_updates == wait
                &&& text::texts(r->0->ClientPushRequest_0.store_paths@) == if paths@.len() > 0 {
                    text::texts(paths@)
                } else {
                    text::texts(stdin_lines@).filter(says_something())
                }
            },
            DaemonRequest::Stop => r is Some && r->0 is ClientStop,
            DaemonRequest::WatchExec { new_paths } => if new_paths@.len() == 0 {
                r is None
            } else {
                &&& r is Some
                &&& r->0 is ClientPushRequest
                &&& r->0->ClientPushRequest_0.subscribe_to_updates
                &&& r->0->ClientPushRequest_0.store_paths == new_paths
            },
            DaemonRequest::Doctor => r is Some && r->0 is ClientDiagnosticsRequest,
        },
{
    match request {
        DaemonRequest::Push { wait, paths, stdin_lines } => {
            let given = given_paths(paths, stdin_lines.as_slice());
            Some(daemon::daemon_push(given, wait))
        },
        DaemonRequest::Stop => Some(DaemonClientMessage::ClientStop),
        DaemonRequest::WatchExec { new_paths } => {
            if new_paths.len() == 0 {
                None
            } else {
                Some(daemon::daemon_push(new_paths, true))
            }
        },
        DaemonRequest::Doctor => Some(DaemonClientMessage::ClientDiagnosticsRequest),
    }
}

/// The variable that holds the token for a deploy command.
pub open spec fn token_variable(command: DeployCommand) -> Seq<char> {
    match command {
        DeployCommand::Activate { .. } => "CACHIX_ACTIVATE_TOKEN"@,
        DeployCommand::Agent { .. } => "CACHIX_AGENT_TOKEN"@,
    }
}

/// The name of the variable that holds the token for a deploy command.
pub fn deploy_variable(command: &DeployCommand) -> (r: &'static str)
    ensures
        r@ == token_variable(*command),
        command is Activate ==> r@ == "CACHIX_ACTIVATE_TOKEN"@,
        command is Agent ==> r@ == "CACHIX_AGENT_TOKEN"@,
{
    match command {
        DeployCommand::Activate { .. } => "CACHIX_ACTIVATE_TOKEN",
        DeployCommand::Agent { .. } => "CACHIX_AGENT_TOKEN",
    }
}

/// Why no client was made for a deploy command.
#[derive(Debug)]
pub enum DeployClientError {
    Command(CommandError),
    Api(ApiError),
}

/// The client for a deploy command, from the value of its variable. It presents the
/// token of the variable, whatever the configuration holds.
pub fn cmd_deploy(cfg: &Config, command: &DeployCommand, token: Option<&str>) -> (r: Result<
    ApiClient,
    DeployClientError,
>)
    ensures
        match token {
            None => {
                &&& r is Err
                &&& r->Err_0 is Command
                &&& r->Err_0->Command_0 is MissingVariable
                &&& r->Err_0->Command_0->MissingVariable_0@ == token_variable(*command)
                &&& command is Activate ==> r->Err_0->Command_0->MissingVariable_0@
                    == "CACHIX_ACTIVATE_TOKEN"@
                &&& command is Agent ==> r->Err_0->Command_0->MissingVariable_0@
                    == "CACHIX_AGENT_TOKEN"@
            },
            Some(token) => match r {
                Ok(api) => client::is_client(cfg.hostname@, Some(token@), Ok(api)),
                Err(DeployClientError::Api(e)) => client::is_client(
                    cfg.hostname@,
                    Some(token@),
                    Err(e),
                ),
                Err(_) => false,
            },
        },
{
    match token {
        None => Err(
            DeployClientError::Command(
                CommandError::MissingVariable(deploy_variable(command).to_string()),
            ),
        ),
        Some(token) => match ApiClient::new(cfg.hostname.as_str(), Some(token)) {
            Ok(api) => Ok(api),
            Err(e) => Err(DeployClientError::Api(e)),
        },
    }
}

/// The client for the configured host and token.
pub fn make_api_client(cfg: &Config) -> (r: Result<ApiClient, ApiError>)
    ensures
        client::is_client(cfg.hostname@, text::opt_text(cfg.auth_token), r),
{
    match &cfg.auth_token {
        Some(token) => ApiClient::new(cfg.hostname.as_str(), Some(token.as_str())),
        None => ApiClient::new(cfg.hostname.as_str(), None),
    }
}

/// The client for the configured host, with the token of the credential, or the
/// configured one where the credential has none.
pub fn make_api_client_with_credential(cfg: &Config, credential: &PushCredential) -> (r: Result<
    ApiClient,
    ApiError,
>)
    ensures
        client::is_client(
            cfg.hostname@,
            config::first_of(credential.token_text(), text::opt_text(cfg.auth_token)),
            r,
        ),
{
    match credential.auth_token() {
        Some(token) => ApiClient::new(cfg.hostname.as_str(), Some(token)),
        None => make_api_client(cfg),
    }
}

/// The push options that the user asks for. The method is zstd unless another is given.
pub fn make_push_options(args: &PushArgs) -> (r: PushOptions)
    ensures
        r == (PushOptions {
            compression_method: if args.compression_method == Some(CompressionMethodArg::Xz) {
                CompressionMethod::Xz
            } else {
                CompressionMethod::Zstd
            },
            compression_level: args.compression_level,
            chunk_size: args.chunk_size,
            num_concurrent_chunks: args.num_concurrent_chunks,
            jobs: args.jobs,
            omit_deriver: args.omit_deriver,
        }),
{
    let compression_method = match args.compression_method {
        Some(CompressionMethodArg::Xz) => CompressionMethod::Xz,
        Some(CompressionMethodArg::Zstd) => CompressionMethod::Zstd,
        None => CompressionMethod::Zstd,
    };
    PushOptions {
        compression_method,
        compression_level: args.compression_level,
        chunk_size: args.chunk_size,
        num_concurrent_chunks: args.num_concurrent_chunks,
        jobs: args.jobs,
        omit_deriver: args.omit_deriver,
    }
}

/// A pin is kept as it was asked for. Forever counts before days, and days before
/// revisions; whatever number is given is the number of the pin.
pub proof fn pin_is_kept_as_given(days: u64, revisions: u64, other: Option<u64>)
    ensures
        kept(Some(days), other, false) == Some(PinKeep::Days(days)),
        kept(None, Some(revisions), false) == Some(PinKeep::Revisions(revisions)),
        kept(None, None, false) is None,
        kept(other, Some(revisions), true) == Some(PinKeep::Forever),
        kept(other, None, true) == Some(PinKeep::Forever),
{
}

/// A token that is read is the whole line without the white space around it, and counts
/// before the argument, which counts as it is given.
pub proof fn token_is_the_line_or_the_argument(
    before: Seq<char>,
    token: Seq<char>,
    behind: Seq<char>,
    argument: Option<Seq<char>>,
)
    requires
        text::is_blank(before),
        text::is_blank(behind),
        token.len() > 0 ==> !text::is_white_space(token[0]) && !text::is_white_space(token.last()),
    ensures
        given_token(Some(before + token + behind), argument) == Some(token),
        given_token(None, argument) == argument,
{
    text::both_ends_are_trimmed(before, token, behind);
}

/// A line of the standard input is a store path exactly if a character of it is no white
/// space.
pub proof fn lines_with_text_are_paths(line: Seq<char>)
    ensures
        says_something()(line) <==> exists|i: int|
            0 <= i < line.len() && !text::is_white_space(#[trigger] line[i]),
{
    text::blank_texts_trim_to_nothing(line);
}

/// The messages say what is amiss, with the whole key or name that it is about.
pub proof fn command_messages(text: String)
    ensures
        CommandError::MissingToken.message_text()
            == "auth token argument is required (or use --stdin)"@,
        CommandError::EmptyToken.message_text() == "auth token cannot be empty"@,
        CommandError::UnknownKey(text).message_text() == "unknown config key: "@ + text@,
        CommandError::NoStorePaths.message_text() == "no store paths provided"@,
        CommandError::MissingVariable(text).message_text() == text@
            + " environment variable is required"@,
        CommandError::NixNotFound.message_text() == "nix is not installed or not in PATH"@,
{
}

/// An activation reads its token from one variable, and an agent from another.
pub proof fn token_variables(command: DeployCommand)
    ensures
        command is Activate ==> token_variable(command) == "CACHIX_ACTIVATE_TOKEN"@,
        command is Agent ==> token_variable(command) == "CACHIX_AGENT_TOKEN"@,
{
}

}
