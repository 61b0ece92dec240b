use cachix::api::types::{
    AgentInformation, AgentMessage, BackendMessage, DeployAgentResponse, DeploySpec,
    DeploymentDetails, DeploymentStatus, Timestamp, Uuid,
};
use cachix::deploy::{
    activate, activate_profile, after_status, agent_headers, deployment_payload,
    deployment_script, deployment_step, execute_deployment, profile_path, run_agent,
    select_agents, start_deployment, switch_command, ws_host, ws_url, Activation, AgentAction,
    DeployState, DeployStep, SocketEvent,
};

fn details() -> DeploymentDetails {
    DeploymentDetails {
        store_path: "/nix/store/x".to_string(),
        id: Uuid { value: 1 },
        index: 4,
        rollback_script: Some("roll".to_string()),
    }
}

#[test]
fn addresses_of_the_socket() {
    assert_eq!(ws_url("https://cachix.org"), "wss://cachix.org/ws");
    assert_eq!(ws_url("http://localhost:3000"), "ws://localhost:3000/ws");
    assert_eq!(ws_host("https://cachix.org"), "cachix.org");
    assert_eq!(ws_host("http://localhost:3000"), "localhost:3000");
}

#[test]
fn headers_of_an_agent() {
    let headers = agent_headers("https://cachix.org", "a", "t", "1.0", "linux", "key");
    let texts: Vec<String> = headers.iter().map(|(k, v)| format!("{k}: {v}")).collect();
    assert_eq!(
        texts,
        [
            "Authorization: Bearer t",
            "X-Agent-Name: a",
            "X-Agent-Version: 1.0",
            "X-Agent-System: linux",
            "Sec-WebSocket-Key: key",
            "Sec-WebSocket-Version: 13",
            "Host: cachix.org",
            "Connection: Upgrade",
            "Upgrade: websocket",
        ]
    );
}

#[test]
fn events_of_the_socket() {
    let text = |message: Option<BackendMessage>| {
        run_agent(SocketEvent::Text { text: "T".to_string(), message })
    };
    assert!(matches!(text(None), AgentAction::Fail(e) if e == "failed to parse backend message: T"));
    let registered = BackendMessage::AgentRegistered(AgentInformation {
        cache: None,
        id: Uuid { value: 1 },
    });
    assert!(matches!(text(Some(registered)), AgentAction::Continue));
    let deployment = BackendMessage::Deployment(details());
    assert!(matches!(text(Some(deployment)), AgentAction::Deploy(d) if d.index == 4));
    assert!(matches!(run_agent(SocketEvent::Ping(vec![1])), AgentAction::Pong(d) if d == [1]));
    assert!(matches!(run_agent(SocketEvent::Close), AgentAction::Stop));
    assert!(matches!(run_agent(SocketEvent::Ended), AgentAction::Stop));
    assert!(matches!(run_agent(SocketEvent::Other), AgentAction::Continue));
    let failed = run_agent(SocketEvent::ReadFailed);
    assert!(matches!(failed, AgentAction::Fail(e) if e == "WebSocket read error"));
}

const STARTED: Timestamp = Timestamp { secs: 5, nanos: 6 };
const FINISHED: Timestamp = Timestamp { secs: 7, nanos: 8 };

fn deploy(answers: &[bool], bootstrap: bool) -> (Vec<AgentMessage>, AgentAction) {
    let (started, mut deploying) = start_deployment(details(), STARTED);
    for yes in answers {
        match deployment_step(deploying, *yes, FINISHED, bootstrap) {
            DeployStep::Next(next) => deploying = next,
            DeployStep::Finished(finished, then) => return (vec![started, finished], then),
        }
    }
    panic!("the deployment is not over")
}

#[test]
fn deployment_is_answered_with_its_own_result() {
    let runs: [(&[bool], bool); 7] = [
        (&[false], false),
        (&[true, true, true], true),
        (&[true, true, false], false),
        (&[true, false, false], false),
        (&[true, false, true, false], true),
        (&[true, false, true, true, true], true),
        (&[true, false, true, true, false], false),
    ];
    for (answers, success) in runs {
        let (messages, then) = deploy(answers, false);
        assert!(matches!(
            messages[0],
            AgentMessage::DeploymentStarted { id: Uuid { value: 1 }, closure_size: None, time } if time == STARTED
        ));
        assert!(matches!(
            messages[1],
            AgentMessage::DeploymentFinished { id: Uuid { value: 1 }, has_succeeded, time }
                if has_succeeded == success && time == FINISHED
        ));
        assert!(matches!(then, AgentAction::Continue));
    }
}

#[test]
fn bootstrap_ends_after_a_deployment() {
    assert!(matches!(deploy(&[false], true).1, AgentAction::Stop));
    assert!(matches!(deploy(&[true, true, true], true).1, AgentAction::Stop));
    assert!(matches!(deploy(&[true, true, true], false).1, AgentAction::Continue));
}

fn run(answers: &[bool]) -> String {
    let mut state = DeployState::Realising;
    for yes in answers {
        state = execute_deployment(state, *yes);
    }
    format!("{state:?}")
}

#[test]
fn deployments() {
    assert_eq!(run(&[false]), "Failed");
    assert_eq!(run(&[true, true, true]), "Succeeded");
    assert_eq!(run(&[true, true, false]), "Failed");
    assert_eq!(run(&[true, false, false]), "Failed");
    assert_eq!(run(&[true, false, true, false]), "Succeeded");
    assert_eq!(run(&[true, false, true, true, true]), "Succeeded");
    assert_eq!(run(&[true, false, true, true, false]), "Failed");
    assert_eq!(run(&[true, false, true, true, false, true]), "Failed");
}

#[test]
fn scripts_and_commands() {
    assert_eq!(deployment_script("/nix/store/x"), "/nix/store/x/.cachix-deployment");
    assert_eq!(profile_path(None), "/nix/var/nix/profiles/system");
    assert_eq!(profile_path(Some("/p")), "/p");
    let command = activate_profile("/nix/store/x", "/p");
    assert_eq!(command.program, "nix-env");
    assert_eq!(command.args, ["--profile", "/p", "--set", "/nix/store/x"]);
    let command = switch_command("/nix/store/x");
    assert_eq!(command.program, "/nix/store/x/bin/switch-to-configuration");
    assert_eq!(command.args, ["switch"]);
    let payload = deployment_payload(&details(), Some("/p"));
    assert_eq!(payload.store_path, "/nix/store/x");
    assert_eq!(payload.deployment_id, "00000000-0000-0000-0000-000000000001");
    assert_eq!(payload.index, 4);
    assert_eq!(payload.rollback_script.as_deref(), Some("roll"));
    assert_eq!(payload.profile.as_deref(), Some("/p"));
}

fn spec() -> DeploySpec {
    DeploySpec {
        agents: vec![
            ("a".to_string(), "/1".to_string()),
            ("b".to_string(), "/2".to_string()),
        ],
        rollback_script: None,
    }
}

#[test]
fn named_agents_are_selected() {
    assert_eq!(select_agents(spec(), &[]).unwrap().agents.len(), 2);
    let chosen = select_agents(spec(), &["b".to_string(), "z".to_string()]).unwrap();
    assert_eq!(chosen.agents, [("b".to_string(), "/2".to_string())]);
    let e = select_agents(spec(), &["z".to_string()]).unwrap_err();
    assert_eq!(e.message(), "no matching agents found in deploy spec");
}

fn agent(name: &str, n: u128) -> DeployAgentResponse {
    DeployAgentResponse {
        id: Uuid { value: 0 },
        name: name.to_string(),
        deployment_id: Uuid { value: n },
        log_url: None,
    }
}

#[test]
fn deployments_are_waited_for() {
    assert!(matches!(activate(2, true), Activation::Done(m) if m.contains("async mode")));
    assert!(matches!(activate(0, false), Activation::Done(_)));
    assert!(matches!(activate(2, false), Activation::Waiting(0)));
    let agents = [agent("a", 1), agent("b", 2)];
    let step = |at: usize, s: DeploymentStatus| after_status(&agents, at, s);
    assert!(matches!(step(0, DeploymentStatus::Pending), Ok(Activation::Waiting(0))));
    assert!(matches!(step(0, DeploymentStatus::InProgress), Ok(Activation::Waiting(0))));
    assert!(matches!(step(0, DeploymentStatus::Succeeded), Ok(Activation::Waiting(1))));
    let done = step(1, DeploymentStatus::Succeeded);
    assert!(matches!(done, Ok(Activation::Done(m)) if m == "all deployments completed successfully"));
    assert_eq!(
        step(1, DeploymentStatus::Failed).unwrap_err().message(),
        "deployment 00000000-0000-0000-0000-000000000002 for agent 'b' failed"
    );
    assert_eq!(
        step(0, DeploymentStatus::Cancelled).unwrap_err().message(),
        "deployment 00000000-0000-0000-0000-000000000001 for agent 'a' was cancelled"
    );
}
