//! Deployments: the agent that carries them out, and their activation.

use vstd::prelude::*;
use vstd::string::*;

use crate::api::types;
use crate::api::types::{
    AgentMessage, BackendMessage, DeployAgentResponse, DeploySpec, DeploymentDetails,
    DeploymentStatus, Timestamp,
};
use crate::nix::store;
use crate::nix::store::StoreCommand;
use crate::text;

verus! {

/// The address of the WebSocket of a service.
pub open spec fn socket_of(base_url: Seq<char>) -> Seq<char> {
    text::replace(text::replace(base_url, "https://"@, "wss://"@), "http://"@, "ws://"@) + "/ws"@
}

/// The host of a service: its address without the scheme.
pub open spec fn host_of(base_url: Seq<char>) -> Seq<char> {
    text::trim_start_matches(text::trim_start_matches(base_url, "https://"@), "http://"@)
}

/// Computes `socket_of`.
pub fn ws_url(base_url: &str) -> (r: String)
    ensures
        r@ == socket_of(base_url@),
        r@ == text::replace(
            text::replace(base_url@, "https://"@, "wss://"@),
            "http://"@,
            "ws://"@,
        ) + "/ws"@,
{
    proof {
        reveal_strlit("https://");
        reveal_strlit("http://");
    }
    let secure = text::replaced(base_url, "https://", "wss://");
    let mut r = text::replaced(secure.as_str(), "http://", "ws://");
    r.append("/ws");
    r
}

/// Computes `host_of`.
pub fn ws_host(base_url: &str) -> (r: String)
    ensures
        r@ == host_of(base_url@),
        r@ == text::trim_start_matches(
            text::trim_start_matches(base_url@, "https://"@),
            "http://"@,
        ),
{
    let r = text::drop_leading(base_url, "https://");
    text::drop_leading(r.as_str(), "http://")
}

/// An agent connects by a secure WebSocket where the service is reached securely, and
/// by a plain one where it is not, at the host of the service.
pub proof fn socket_follows_scheme(rest: Seq<char>)
    requires
        !text::contains(rest, "https://"@),
        !text::contains(rest, "http://"@),
    ensures
        socket_of("https://"@ + rest) == "wss://"@ + rest + "/ws"@,
        socket_of("http://"@ + rest) == "ws://"@ + rest + "/ws"@,
        host_of("https://"@ + rest) == rest,
        host_of("http://"@ + rest) == rest,
{
    let https = "https://"@;
    let http = "http://"@;
    reveal_strlit("https://");
    reveal_strlit("http://");
    reveal_strlit("wss://");
    reveal_strlit("ws://");
    text::lemma_replace_nothing(rest, https, "wss://"@);
    text::lemma_replace_nothing(rest, http, "ws://"@);
    assert(rest.skip(0) == rest);
    assert(!https.is_prefix_of(rest));
    assert(!http.is_prefix_of(rest));
    let secure = https + rest;
    assert(secure.subrange(0, https.len() as int) == https);
    assert(secure.skip(https.len() as int) == rest);
    text::lemma_replace_behind("wss://"@, rest, http, "ws://"@);
    let plain = http + rest;
    assert(plain.subrange(0, http.len() as int) == http);
    assert(plain.skip(http.len() as int) == rest);
    if https.is_prefix_of(plain) {
        assert(plain.subrange(0, https.len() as int)[4] == https[4]);
    }
    let tail = http.skip(1);
    assert(plain.skip(1) == tail + rest);
    text::lemma_replace_behind(tail, rest, https, "wss://"@);
    assert(text::replace(plain, https, "wss://"@) == seq![plain[0]] + (tail + rest));
    assert(seq![plain[0]] + (tail + rest) == plain);
    assert(text::trim_start_matches(secure, https) == text::trim_start_matches(rest, https));
    assert(text::trim_start_matches(plain, http) == text::trim_start_matches(rest, http));
}

/// The headers with which an agent connects.
pub fn agent_headers(
    base_url: &str,
    agent_name: &str,
    agent_token: &str,
    version: &str,
    system: &str,
    websocket_key: &str,
) -> (r: Vec<(String, String)>)
    ensures
        types::pair_texts(r@) == seq![
            ("Authorization"@, "Bearer "@ + agent_token@),
            ("X-Agent-Name"@, agent_name@),
            ("X-Agent-Version"@, version@),
            ("X-Agent-System"@, system@),
            ("Sec-WebSocket-Key"@, websocket_key@),
            ("Sec-WebSocket-Version"@, "13"@),
            ("Host"@, host_of(base_url@)),
            ("Connection"@, "Upgrade"@),
            ("Upgrade"@, "websocket"@),
        ],
{
    let mut authorization = "Bearer ".to_string();
    authorization.append(agent_token);
    let mut headers: Vec<(String, String)> = Vec::new();
    headers.push(("Authorization".to_string(), authorization));
    headers.push(("X-Agent-Name".to_string(), agent_name.to_string()));
    headers.push(("X-Agent-Version".to_string(), version.to_string()));
    headers.push(("X-Agent-System".to_string(), system.to_string()));
    headers.push(("Sec-WebSocket-Key".to_string(), websocket_key.to_string()));
    headers.push(("Sec-WebSocket-Version".to_string(), "13".to_string()));
    headers.push(("Host".to_string(), ws_host(base_url)));
    headers.push(("Connection".to_string(), "Upgrade".to_string()));
    headers.push(("Upgrade".to_string(), "websocket".to_string()));
    assert(types::pair_texts(headers@) == seq![
        ("Authorization"@, "Bearer "@ + agent_token@),
        ("X-Agent-Name"@, agent_name@),
        ("X-Agent-Version"@, version@),
        ("X-Agent-System"@, system@),
        ("Sec-WebSocket-Key"@, websocket_key@),
        ("Sec-WebSocket-Version"@, "13"@),
        ("Host"@, host_of(base_url@)),
        ("Connection"@, "Upgrade"@),
        ("Upgrade"@, "websocket"@),
    ]);
    headers
}

/// What comes from the WebSocket. A text is a message of the service, or cannot be
/// read.
#[derive(Debug)]
pub enum SocketEvent {
    Text { text: String, message: Option<BackendMessage> },
    Ping(Vec<u8>),
    Close,
    Other,
    /// The connection ended without a close message.
    Ended,
    ReadFailed,
}

/// What the agent does then.
#[derive(Debug)]
pub enum AgentAction {
    /// Go on.
    Continue,
    /// Carry out a deployment.
    Deploy(DeploymentDetails),
    /// Send a pong with the data of the ping.
    Pong(Vec<u8>),
    /// End.
    Stop,
    /// End with an error.
    Fail(String),
}

/// What the agent does upon what came from the WebSocket.
pub fn run_agent(event: SocketEvent) -> (r: AgentAction)
    ensures
        match event {
            SocketEvent::Text { text, message: None } => r is Fail && r->Fail_0@
                == "failed to parse backend message: "@ + text@,
            SocketEvent::Text { message: Some(BackendMessage::AgentRegistered(_)), .. } =>
                r is Continue,
            SocketEvent::Text { message: Some(BackendMessage::Deployment(details)), .. } => r
                == AgentAction::Deploy(details),
            SocketEvent::Ping(data) => r == AgentAction::Pong(data),
            SocketEvent::Close => r is Stop,
            SocketEvent::Other => r is Continue,
            SocketEvent::Ended => r is Stop,
            SocketEvent::ReadFailed => r is Fail && r->Fail_0@ == "WebSocket read error"@,
        },
{
    match event {
        SocketEvent::Text { text, message } => match message {
            None => {
                let mut error = "failed to parse backend message: ".to_string();
                error.append(text.as_str());
                AgentAction::Fail(error)
            },
            Some(BackendMessage::AgentRegistered(_)) => AgentAction::Continue,
            Some(BackendMessage::Deployment(details)) => AgentAction::Deploy(details),
        },
        SocketEvent::Ping(data) => AgentAction::Pong(data),
        SocketEvent::Close => AgentAction::Stop,
        SocketEvent::Other => AgentAction::Continue,
        SocketEvent::Ended => AgentAction::Stop,
        SocketEvent::ReadFailed => AgentAction::Fail("WebSocket read error".to_string()),
    }
}

/// What a deployment script is told of its deployment.
#[derive(Debug)]
pub struct DeploymentPayload {
    pub store_path: String,
    pub deployment_id: String,
    pub index: i64,
    pub rollback_script: Option<String>,
    pub profile: Option<String>,
}

/// How far a deployment has come. The states name what is to be done next.
#[derive(Debug)]
pub enum DeployState {
    /// The store path is to be realised.
    Realising,
    /// It is to be found out whether the store path has a deployment script.
    FindingScript,
    /// The deployment script is to be run.
    RunningScript,
    /// The profile is to be set.
    SettingProfile,
    /// It is to be found out whether the store path has a switch script.
    FindingSwitch,
    /// The switch script is to be run.
    Switching,
    /// It is over.
    Succeeded,
    Failed,
}

/// The next state of a deployment. `yes` is whether what was to be done succeeded,
/// or what was to be found out is so.
pub open spec fn next_state(state: DeployState, yes: bool) -> DeployState {
    match state {
        DeployState::Realising => if yes {
            DeployState::FindingScript
        } else {
            DeployState::Failed
        },
        DeployState::FindingScript => if yes {
            DeployState::RunningScript
        } else {
            DeployState::SettingProfile
        },
        DeployState::RunningScript => if yes {
            DeployState::Succeeded
        } else {
            DeployState::Failed
        },
        DeployState::SettingProfile => if yes {
            DeployState::FindingSwitch
        } else {
            DeployState::Failed
        },
        DeployState::FindingSwitch => if yes {
            DeployState::Switching
        } else {
            DeployState::Succeeded
        },
        DeployState::Switching => if yes {
            DeployState::Succeeded
        } else {
            DeployState::Failed
        },
        DeployState::Succeeded => DeployState::Succeeded,
        DeployState::Failed => DeployState::Failed,
    }
}

/// Computes `next_state`.
pub fn execute_deployment(state: DeployState, yes: bool) -> (r: DeployState)
    ensures
        r == next_state(state, yes),
{
    match state {
        DeployState::Realising => {
            if yes {
                DeployState::FindingScript
            } else {
                DeployState::Failed
            }
        },
        DeployState::FindingScript => {
            if yes {
                DeployState::RunningScript
            } else {
                DeployState::SettingProfile
            }
        },
        DeployState::RunningScript => {
            if yes {
                DeployState::Succeeded
            } else {
                DeployState::Failed
            }
        },
        DeployState::SettingProfile => {
            if yes {
                DeployState::FindingSwitch
            } else {
                DeployState::Failed
            }
        },
        DeployState::FindingSwitch => {
            if yes {
                DeployState::Switching
            } else {
                DeployState::Succeeded
            }
        },
        DeployState::Switching => {
            if yes {
                DeployState::Succeeded
            } else {
                DeployState::Failed
            }
        },
        DeployState::Succeeded => DeployState::Succeeded,
        DeployState::Failed => DeployState::Failed,
    }
}

/// What the machine of an agent does with a deployment: whether each step succeeds,
/// and which scripts the store path has.
pub struct Machine {
    pub realises: bool,
    pub has_script: bool,
    pub script_succeeds: bool,
    pub sets_profile: bool,
    pub has_switch: bool,
    pub switch_succeeds: bool,
}

/// What the machine answers in a state.
pub open spec fn answer(machine: Machine, state: DeployState) -> bool {
    match state {
        DeployState::Realising => machine.realises,
        DeployState::FindingScript => machine.has_script,
        DeployState::RunningScript => machine.script_succeeds,
        DeployState::SettingProfile => machine.sets_profile,
        DeployState::FindingSwitch => machine.has_switch,
        DeployState::Switching => machine.switch_succeeds,
        DeployState::Succeeded => true,
        DeployState::Failed => false,
    }
}

/// The state after a number of steps on a machine.
pub open spec fn state_after(machine: Machine, steps: nat) -> DeployState
    decreases steps,
{
    if steps == 0 {
        DeployState::Realising
    } else {
        let state = state_after(machine, (steps - 1) as nat);
        next_state(state, answer(machine, state))
    }
}

/// Whether a deployment on a machine succeeds: the store path is realised, and its
/// deployment script succeeds, or where it has none, the profile is set and the
/// switch script, where it has one, succeeds.
pub open spec fn deploys(machine: Machine) -> bool {
    machine.realises && if machine.has_script {
        machine.script_succeeds
    } else {
        machine.sets_profile && (machine.has_switch ==> machine.switch_succeeds)
    }
}

/// A deployment is over after at most five steps, and has then succeeded exactly if
/// the steps that it needs did.
pub proof fn deployment_ends(machine: Machine)
    ensures
        state_after(machine, 5) == if deploys(machine) {
            DeployState::Succeeded
        } else {
            DeployState::Failed
        },
{
    reveal_with_fuel(state_after, 6);
}

/// The message that a deployment has started.
pub open spec fn started_message(id: types::Uuid, time: Timestamp) -> AgentMessage {
    AgentMessage::DeploymentStarted { id, time, closure_size: None }
}

/// The message that a deployment is over.
pub open spec fn finished_message(
    id: types::Uuid,
    time: Timestamp,
    success: bool,
) -> AgentMessage {
    AgentMessage::DeploymentFinished { id, time, has_succeeded: success }
}

/// A deployment that the agent carries out.
#[derive(Debug)]
pub struct Deploying {
    pub details: DeploymentDetails,
    pub state: DeployState,
}

/// Start a deployment: the message to send, and the deployment.
pub fn start_deployment(details: DeploymentDetails, time: Timestamp) -> (r: (
    AgentMessage,
    Deploying,
))
    ensures
        r.0 == started_message(details.id, time),
        r.0 == (AgentMessage::DeploymentStarted { id: details.id, time, closure_size: None }),
        r.1 == (Deploying { details, state: DeployState::Realising }),
{
    let message = AgentMessage::DeploymentStarted { id: details.id, time, closure_size: None };
    (message, Deploying { details, state: DeployState::Realising })
}

/// What comes of a step of a deployment.
#[derive(Debug)]
pub enum DeployStep {
    /// The deployment goes on.
    Next(Deploying),
    /// It is over: the message to send, and what the agent does then.
    Finished(AgentMessage, AgentAction),
}

/// Go on with a deployment. `yes` is whether what was to be done succeeded, or what was to
/// be found out is so. When it is over, its own result is sent, and in bootstrap mode the
/// agent ends.
pub fn deployment_step(
    deploying: Deploying,
    yes: bool,
    time: Timestamp,
    bootstrap: bool,
) -> (r: DeployStep)
    ensures
        ({
            let state = next_state(deploying.state, yes);
            if state is Succeeded || state is Failed {
                &&& r is Finished
                &&& r->Finished_0 == finished_message(deploying.details.id, time, state is Succeeded)
                &&& bootstrap ==> r->Finished_1 is Stop
                &&& !bootstrap ==> r->Finished_1 is Continue
            } else {
                r == DeployStep::Next(Deploying { details: deploying.details, state })
            }
        }),
        r matches DeployStep::Finished(message, _) ==> message == (
        AgentMessage::DeploymentFinished {
            id: deploying.details.id,
            time,
            has_succeeded: next_state(deploying.state, yes) is Succeeded,
        }),
{
    let Deploying { details, state } = deploying;
    let state = execute_deployment(state, yes);
    let success = match &state {
        DeployState::Succeeded => true,
        DeployState::Failed => false,
        _ => return DeployStep::Next(Deploying { details, state }),
    };
    let action = if bootstrap {
        AgentAction::Stop
    } else {
        AgentAction::Continue
    };
    DeployStep::Finished(
        AgentMessage::DeploymentFinished { id: details.id, time, has_succeeded: success },
        action,
    )
}

/// What is sent when a deployment goes on from a state on a machine: that it is over, with
/// its result, when it is.
pub open spec fn sent_from(
    machine: Machine,
    id: types::Uuid,
    state: DeployState,
    time: Timestamp,
    steps: nat,
) -> Seq<AgentMessage>
    decreases steps,
{
    if steps == 0 || state is Succeeded || state is Failed {
        Seq::empty()
    } else {
        let next = next_state(state, answer(machine, state));
        if next is Succeeded || next is Failed {
            seq![finished_message(id, time, next is Succeeded)]
        } else {
            sent_from(machine, id, next, time, (steps - 1) as nat)
        }
    }
}

/// All that the agent sends for a deployment on a machine.
pub open spec fn sent(
    machine: Machine,
    id: types::Uuid,
    started: Timestamp,
    finished: Timestamp,
) -> Seq<AgentMessage> {
    seq![started_message(id, started)] + sent_from(
        machine,
        id,
        DeployState::Realising,
        finished,
        5,
    )
}

/// A deployment is answered by two messages: that it has started, and then that it is
/// over, with whether it succeeded on the machine.
pub proof fn deployment_is_answered(
    machine: Machine,
    id: types::Uuid,
    started: Timestamp,
    finished: Timestamp,
)
    ensures
        sent(machine, id, started, finished) == seq![
            started_message(id, started),
            finished_message(id, finished, deploys(machine)),
        ],
{
    reveal_with_fuel(sent_from, 6);
}

/// Where the deployment script of a store path is.
pub fn deployment_script(store_path: &str) -> (r: String)
    ensures
        r@ == store_path@ + "/.cachix-deployment"@,
{
    let mut r = store_path.to_string();
    r.append("/.cachix-deployment");
    r
}

/// What the deployment script of a deployment is told.
pub fn deployment_payload(details: &DeploymentDetails, profile: Option<&str>) -> (r:
    DeploymentPayload)
    ensures
        r.store_path@ == details.store_path@,
        r.deployment_id@ == types::uuid_text(details.id.value),
        r.index == details.index,
        text::opt_text(r.rollback_script) == text::opt_text(details.rollback_script),
        text::opt_text(r.profile) == text::opt_str(profile),
{
    DeploymentPayload {
        store_path: details.store_path.clone(),
        deployment_id: details.id.to_text(),
        index: details.index,
        rollback_script: match &details.rollback_script {
            Some(script) => Some(script.clone()),
            None => None,
        },
        profile: match profile {
            Some(profile) => Some(profile.to_string()),
            None => None,
        },
    }
}

/// The profile that a deployment sets.
pub fn profile_path(profile: Option<&str>) -> (r: String)
    ensures
        r@ == match profile {
            Some(profile) => profile@,
            None => "/nix/var/nix/profiles/system"@,
        },
{
    match profile {
        Some(profile) => profile.to_string(),
        None => "/nix/var/nix/profiles/system".to_string(),
    }
}

/// The command that sets a profile to a store path.
pub fn activate_profile(store_path: &str, profile_path: &str) -> (r: StoreCommand)
    ensures
        r@.0 == "nix-env"@,
        r@.1 == seq!["--profile"@, profile_path@, "--set"@, store_path@],
{
    let r = store::command_of("nix-env", &["--profile", profile_path, "--set", store_path]);
    assert(r@.1 == seq!["--profile"@, profile_path@, "--set"@, store_path@]);
    r
}

/// The command that switches to the configuration in a store path.
pub fn switch_command(store_path: &str) -> (r: StoreCommand)
    ensures
        r@.0 == store_path@ + "/bin/switch-to-configuration"@,
        r@.1 == seq!["switch"@],
{
    let mut script = store_path.to_string();
    script.append("/bin/switch-to-configuration");
    let r = store::command_of(script.as_str(), &["switch"]);
    assert(r@.1 == seq!["switch"@]);
    r
}

/// Why a deployment was not activated.
#[derive(Debug)]
pub enum ActivateError {
    NoMatchingAgents,
    Failed { deployment_id: types::Uuid, agent: String },
    Cancelled { deployment_id: types::Uuid, agent: String },
}

impl ActivateError {
    /// The text of the message for the user.
    pub open spec fn message_text(self) -> Seq<char> {
        match self {
            ActivateError::NoMatchingAgents => "no matching agents found in deploy spec"@,
            ActivateError::Failed { deployment_id, agent } => "deployment "@ + types::uuid_text(
                deployment_id.value,
            ) + " for agent '"@ + agent@ + "' failed"@,
            ActivateError::Cancelled { deployment_id, agent } => "deployment "@
                + types::uuid_text(deployment_id.value) + " for agent '"@ + agent@
                + "' was cancelled"@,
        }
    }

    /// The message for the user.
    pub fn message(&self) -> (r: String)
        ensures
            r@ == self.message_text(),
    {
        match self {
            ActivateError::NoMatchingAgents => {
                "no matching agents found in deploy spec".to_string()
            },
            ActivateError::Failed { deployment_id, agent } => {
                let mut r = "deployment ".to_string();
                r.append(deployment_id.to_text().as_str());
                r.append(" for agent '");
                r.append(agent.as_str());
                r.append("' failed");
                r
            },
            ActivateError::Cancelled { deployment_id, agent } => {
                let mut r = "deployment ".to_string();
                r.append(deployment_id.to_text().as_str());
                r.append(" for agent '");
                r.append(agent.as_str());
                r.append("' was cancelled");
                r
            },
        }
    }
}

/// Whether an agent is one of those named.
pub open spec fn named_in(names: Seq<Seq<char>>) -> spec_fn((Seq<char>, Seq<char>)) -> bool {
    |agent: (Seq<char>, Seq<char>)| names.contains(agent.0)
}

/// The agents that a deployment is activated for: all of them, or those that are
/// named, where some are.
pub open spec fn selected(
    agents: Seq<(Seq<char>, Seq<char>)>,
    names: Seq<Seq<char>>,
) -> Seq<(Seq<char>, Seq<char>)> {
    if names.len() == 0 {
        agents
    } else {
        agents.filter(named_in(names))
    }
}

/// Restrict a deploy spec to the named agents, where some are named.
pub fn select_agents(spec: DeploySpec, names: &[String]) -> (r: Result<DeploySpec, ActivateError>)
    requires
        spec.wf(),
    ensures
        ({
            let agents = types::pair_texts(spec.agents@);
            let chosen = selected(agents, text::texts(names@));
            match r {
                Ok(spec2) => {
                    &&& names@.len() > 0 ==> chosen.len() > 0
                    &&& types::pair_texts(spec2.agents@) == chosen
                    &&& spec2.rollback_script == spec.rollback_script
                    &&& spec2.wf()
                },
                Err(e) => {
                    &&& names@.len() > 0
                    &&& chosen.len() == 0
                    &&& e is NoMatchingAgents
                },
            }
        }),
{
    if names.len() == 0 {
        return Ok(spec);
    }
    let ghost agents = types::pair_texts(spec.agents@);
    let ghost keep = named_in(text::texts(names@));
    let mut kept: Vec<(String, String)> = Vec::new();
    let mut i: usize = 0;
    proof {
        reveal(Seq::filter);
        assert(types::pair_texts(kept@) == agents.take(0).filter(keep));
    }
    while i < spec.agents.len()
        invariant
            i <= spec.agents@.len(),
            agents == types::pair_texts(spec.agents@),
            keep == named_in(text::texts(names@)),
            types::pair_texts(kept@) == agents.take(i as int).filter(keep),
        decreases spec.agents@.len() - i,
    {
        proof {
            reveal(Seq::filter);
            assert(agents.take(i + 1).drop_last() == agents.take(i as int));
            assert(agents.take(i + 1).last() == agents[i as int]);
        }
        if text::holds(names, spec.agents[i].0.as_str()) {
            let ghost shorter = types::pair_texts(kept@);
            kept.push((spec.agents[i].0.clone(), spec.agents[i].1.clone()));
            assert(types::pair_texts(kept@) == shorter.push(agents[i as int]));
        }
        i = i + 1;
    }
    assert(agents.take(i as int) == agents);
    if kept.len() == 0 {
        assert(types::pair_texts(kept@).len() == 0);
        return Err(ActivateError::NoMatchingAgents);
    }
    proof {
        lemma_filter_keeps_distinct(agents, keep);
        assert(types::pair_texts(kept@).len() > 0);
    }
    Ok(DeploySpec { agents: kept, rollback_script: spec.rollback_script })
}

proof fn lemma_filter_keeps_distinct(
    pairs: Seq<(Seq<char>, Seq<char>)>,
    keep: spec_fn((Seq<char>, Seq<char>)) -> bool,
)
    requires
        types::distinct_keys(pairs),
    ensures
        types::distinct_keys(pairs.filter(keep)),
    decreases pairs.len(),
{
    reveal(Seq::filter);
    if pairs.len() > 0 {
        let init = pairs.drop_last();
        let kept = init.filter(keep);
        assert(types::distinct_keys(init)) by {
            assert forall|i: int, j: int| 0 <= i < j < init.len() implies (#[trigger] init[i]).0
                != (#[trigger] init[j]).0 by {
                assert(pairs[i] == init[i] && pairs[j] == init[j]);
            }
        }
        lemma_filter_keeps_distinct(init, keep);
        if keep(pairs.last()) {
            let all = kept.push(pairs.last());
            assert forall|i: int, j: int| 0 <= i < j < all.len() implies (#[trigger] all[i]).0 != (
            #[trigger] all[j]).0 by {
                if j == kept.len() {
                    assert(kept.contains(kept[i]));
                    init.lemma_filter_contains_rev(keep, kept[i]);
                    let k = choose|k: int| 0 <= k < init.len() && init[k] == kept[i];
                    assert(pairs[k].0 != pairs[pairs.len() - 1].0);
                } else {
                    assert(kept[i].0 != kept[j].0);
                }
            }
        }
    }
}

/// A deployment is activated for those agents of the deploy spec that are named, with
/// the store paths that the deploy spec gives them, or for all where none is named.
pub proof fn selected_agents_are_named(
    agents: Seq<(Seq<char>, Seq<char>)>,
    names: Seq<Seq<char>>,
    agent: (Seq<char>, Seq<char>),
)
    ensures
        selected(agents, names).contains(agent) <==> agents.contains(agent) && (names.len() == 0
            || names.contains(agent.0)),
{
    if names.len() > 0 {
        let keep = named_in(names);
        if agents.filter(keep).contains(agent) {
            agents.lemma_filter_contains_rev(keep, agent);
            assert(keep(agent));
        }
        if agents.contains(agent) && names.contains(agent.0) {
            let i = choose|i: int| 0 <= i < agents.len() && agents[i] == agent;
            assert(keep(agents[i]));
            agents.lemma_filter_contains(keep, i);
        }
    }
}

/// What the status of a deployment means to who waits for it: whether it is over, or
/// why it did not succeed.
fn poll(agent: &DeployAgentResponse, status: DeploymentStatus) -> (r: Result<
    bool,
    ActivateError,
>)
    ensures
        match status {
            DeploymentStatus::Succeeded => r == Ok::<bool, ActivateError>(true),
            DeploymentStatus::Failed => {
                &&& r is Err
                &&& r->Err_0 is Failed
                &&& r->Err_0->Failed_deployment_id == agent.deployment_id
                &&& r->Err_0->Failed_agent@ == agent.name@
            },
            DeploymentStatus::Cancelled => {
                &&& r is Err
                &&& r->Err_0 is Cancelled
                &&& r->Err_0->Cancelled_deployment_id == agent.deployment_id
                &&& r->Err_0->Cancelled_agent@ == agent.name@
            },
            DeploymentStatus::Pending => r == Ok::<bool, ActivateError>(false),
            DeploymentStatus::InProgress => r == Ok::<bool, ActivateError>(false),
        },
{
    match status {
        DeploymentStatus::Succeeded => Ok(true),
        DeploymentStatus::Failed => Err(
            ActivateError::Failed {
                deployment_id: agent.deployment_id,
                agent: agent.name.clone(),
            },
        ),
        DeploymentStatus::Cancelled => Err(
            ActivateError::Cancelled {
                deployment_id: agent.deployment_id,
                agent: agent.name.clone(),
            },
        ),
        DeploymentStatus::Pending => Ok(false),
        DeploymentStatus::InProgress => Ok(false),
    }
}

/// How far an activated deployment has come.
#[derive(Debug)]
pub enum Activation {
    /// The deployment of the agent at this position is waited for.
    Waiting(usize),
    /// It is over, with a message for the user.
    Done(String),
}

/// What is done once a deployment for a number of agents was activated: in async mode
/// nothing is waited for.
pub fn activate(agents: usize, async_mode: bool) -> (r: Activation)
    ensures
        if async_mode {
            r is Done && r->Done_0@
                == "deployment activated (async mode, not waiting for completion)"@
        } else if agents == 0 {
            r is Done && r->Done_0@ == "all deployments completed successfully"@
        } else {
            r == Activation::Waiting(0)
        },
{
    if async_mode {
        Activation::Done(
            "deployment activated (async mode, not waiting for completion)".to_string(),
        )
    } else if agents == 0 {
        Activation::Done("all deployments completed successfully".to_string())
    } else {
        Activation::Waiting(0)
    }
}

/// The number of deployments that are over after a status, where some already were, or
/// nothing where one of them did not succeed.
pub open spec fn over_after(over: nat, status: DeploymentStatus) -> Option<nat> {
    match status {
        DeploymentStatus::Succeeded => Some(over + 1),
        DeploymentStatus::Failed => None,
        DeploymentStatus::Cancelled => None,
        DeploymentStatus::Pending => Some(over),
        DeploymentStatus::InProgress => Some(over),
    }
}

/// What is done upon the status of the deployment that is waited for.
pub fn after_status(agents: &[DeployAgentResponse], at: usize, status: DeploymentStatus) -> (r:
    Result<Activation, ActivateError>)
    requires
        at < agents@.len(),
    ensures
        match over_after(at as nat, status) {
            None => {
                &&& r is Err
                &&& r->Err_0 is Failed <==> status == DeploymentStatus::Failed
                &&& r->Err_0.message_text() == "deployment "@ + types::uuid_text(
                    agents@[at as int].deployment_id.value,
                ) + " for agent '"@ + agents@[at as int].name@ + if status
                    == DeploymentStatus::Failed {
                    "' failed"@
                } else {
                    "' was cancelled"@
                }
            },
            Some(over) => {
                &&& r is Ok
                &&& over < agents@.len() ==> r->Ok_0 is Waiting && r->Ok_0->Waiting_0 == over
                &&& over == agents@.len() ==> r->Ok_0 is Done && r->Ok_0->Done_0@
                    == "all deployments completed successfully"@
            },
        },
        status == DeploymentStatus::Failed || status == DeploymentStatus::Cancelled <==> r is Err,
        status == DeploymentStatus::Pending || status == DeploymentStatus::InProgress ==> r->Ok_0
            == Activation::Waiting(at),
        status == DeploymentStatus::Succeeded && at + 1 < agents@.len() ==> r->Ok_0
            == Activation::Waiting((at + 1) as usize),
        status == DeploymentStatus::Succeeded && at + 1 == agents@.len() ==> r->Ok_0 is Done,
{
    match poll(&agents[at], status) {
        Err(e) => Err(e),
        Ok(false) => Ok(Activation::Waiting(at)),
        Ok(true) => {
            if at + 1 < agents.len() {
                Ok(Activation::Waiting(at + 1))
            } else {
                Ok(Activation::Done("all deployments completed successfully".to_string()))
            }
        },
    }
}

/// The number of deployments that are over after the given statuses, or nothing where
/// one of them did not succeed.
pub open spec fn over_in(statuses: Seq<DeploymentStatus>) -> Option<nat>
    decreases statuses.len(),
{
    if statuses.len() == 0 {
        Some(0)
    } else {
        match over_in(statuses.drop_last()) {
            Some(over) => over_after(over, statuses.last()),
            None => None,
        }
    }
}

/// Whether a status is one of success.
pub open spec fn is_succeeded() -> spec_fn(DeploymentStatus) -> bool {
    |status: DeploymentStatus| status == DeploymentStatus::Succeeded
}

/// Deployments are over exactly when as many statuses of success have come, and none
/// of failure or cancellation.
pub proof fn over_means_succeeded(statuses: Seq<DeploymentStatus>)
    ensures
        over_in(statuses) == if statuses.contains(DeploymentStatus::Failed)
            || statuses.contains(DeploymentStatus::Cancelled) {
            None
        } else {
            Some(statuses.filter(is_succeeded()).len())
        },
    decreases statuses.len(),
{
    reveal(Seq::filter);
    if statuses.len() > 0 {
        let init = statuses.drop_last();
        let last = statuses.last();
        over_means_succeeded(init);
        assert(statuses == init.push(last));
        assert forall|x: DeploymentStatus| #[trigger]
            statuses.contains(x) <==> init.contains(x) || x == last by {
            assert(statuses[init.len() as int] == last);
            if init.contains(x) {
                let i = choose|i: int| 0 <= i < init.len() && init[i] == x;
                assert(statuses[i] == x);
            }
            if statuses.contains(x) {
                let i = choose|i: int| 0 <= i < statuses.len() && statuses[i] == x;
                if i < init.len() {
                    assert(init[i] == x);
                }
            }
        }
    }
}

/// The steps of a deployment in their order: the store path is realised, and then its script
/// is run, or where it has none, the profile is set and then the configuration switched to,
/// where it can be. It is over as soon as one of them fails.
pub proof fn deployment_takes_its_steps(machine: Machine)
    ensures
        state_after(machine, 0) is Realising,
        !machine.realises ==> state_after(machine, 1) is Failed,
        machine.realises ==> state_after(machine, 1) is FindingScript,
        machine.realises && machine.has_script ==> state_after(machine, 2) is RunningScript && (
        if machine.script_succeeds {
            state_after(machine, 3) is Succeeded
        } else {
            state_after(machine, 3) is Failed
        }),
        machine.realises && !machine.has_script ==> state_after(machine, 2) is SettingProfile,
        machine.realises && !machine.has_script && !machine.sets_profile ==> state_after(
            machine,
            3,
        ) is Failed,
        machine.realises && !machine.has_script && machine.sets_profile ==> state_after(
            machine,
            3,
        ) is FindingSwitch && (if machine.has_switch {
            state_after(machine, 4) is Switching && (if machine.switch_succeeds {
                state_after(machine, 5) is Succeeded
            } else {
                state_after(machine, 5) is Failed
            })
        } else {
            state_after(machine, 4) is Succeeded
        }),
{
    reveal_with_fuel(state_after, 6);
}

/// A deployment that is over stays as it ended.
pub proof fn ended_deployments_stay(yes: bool)
    ensures
        next_state(DeployState::Succeeded, yes) is Succeeded,
        next_state(DeployState::Failed, yes) is Failed,
{
}

/// A deployment on a machine is answered by its start and then by its own result: success
/// exactly if the store path is realised, and its script succeeds, or where it has none, the
/// profile is set and the switch, where there is one, succeeds.
pub proof fn deployment_is_answered_with_its_result(
    machine: Machine,
    id: types::Uuid,
    started: Timestamp,
    finished: Timestamp,
)
    ensures
        sent(machine, id, started, finished) == seq![
            AgentMessage::DeploymentStarted { id, time: started, closure_size: None },
            AgentMessage::DeploymentFinished {
                id,
                time: finished,
                has_succeeded: machine.realises && (machine.has_script && machine.script_succeeds
                    || !machine.has_script && machine.sets_profile && (!machine.has_switch
                    || machine.switch_succeeds)),
            },
        ],
{
    deployment_is_answered(machine, id, started, finished);
}

/// The agents of a deploy spec are selected one by one, in their order: all where none is
/// named, and else those that are named.
pub proof fn agents_are_selected_one_by_one(
    first: Seq<(Seq<char>, Seq<char>)>,
    second: Seq<(Seq<char>, Seq<char>)>,
    agent: (Seq<char>, Seq<char>),
    names: Seq<Seq<char>>,
)
    ensures
        selected(first + second, names) == selected(first, names) + selected(second, names),
        selected(seq![agent], names) == if names.len() == 0 || names.contains(agent.0) {
            seq![agent]
        } else {
            Seq::empty()
        },
        selected(first, Seq::empty()) == first,
{
    let keep = named_in(names);
    let none = Seq::<(Seq<char>, Seq<char>)>::empty();
    Seq::filter_distributes_over_add(first, second, keep);
    reveal(Seq::filter);
    assert(seq![agent].drop_last() == none && seq![agent].last() == agent);
    assert(none.filter(keep) == none);
    assert(none.push(agent) == seq![agent]);
}

/// Only a success ends the wait for a deployment, and a failure or a cancellation the whole.
pub proof fn statuses_count(over: nat)
    ensures
        over_after(over, DeploymentStatus::Succeeded) == Some(over + 1),
        over_after(over, DeploymentStatus::Pending) == Some(over),
        over_after(over, DeploymentStatus::InProgress) == Some(over),
        over_after(over, DeploymentStatus::Failed) is None,
        over_after(over, DeploymentStatus::Cancelled) is None,
{
}

/// The scheme of a service decides that of its WebSocket, and the rest of the address is the
/// same; an address without a scheme is left as it is.
pub proof fn other_addresses_stay(address: Seq<char>)
    requires
        !text::contains(address, "https://"@),
        !text::contains(address, "http://"@),
    ensures
        socket_of(address) == address + "/ws"@,
        host_of(address) == address,
{
    reveal_strlit("https://");
    reveal_strlit("http://");
    text::lemma_replace_nothing(address, "https://"@, "wss://"@);
    text::lemma_replace_nothing(address, "http://"@, "ws://"@);
    assert(address.skip(0) == address);
    text::repetitions_are_taken_away(address, "https://"@);
    text::repetitions_are_taken_away(address, "http://"@);
}

/// The messages name the deployment and the agent in full.
pub proof fn activation_messages(deployment_id: types::Uuid, agent: String)
    ensures
        ActivateError::NoMatchingAgents.message_text()
            == "no matching agents found in deploy spec"@,
        (ActivateError::Failed { deployment_id, agent }).message_text() == "deployment "@
            + types::uuid_text(deployment_id.value) + " for agent '"@ + agent@ + "' failed"@,
        (ActivateError::Cancelled { deployment_id, agent }).message_text() == "deployment "@
            + types::uuid_text(deployment_id.value) + " for agent '"@ + agent@
            + "' was cancelled"@,
{
}

}
