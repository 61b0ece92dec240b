use cachix::api::types::{
    DaemonClientMessage, DaemonServerMessage, PushEvent, PushRequest,
};
use cachix::daemon::{
    daemon_doctor, daemon_push, daemon_stop, diagnostics, error_message, finish_path,
    handle_client, listen_event, push_progress, run_daemon, send_message, start_job, DaemonAction, ListenAction,
    ListenEvent, Progress,
};

fn shown(message: &DaemonServerMessage) -> String {
    match message {
        DaemonServerMessage::DaemonPong => "pong".to_string(),
        DaemonServerMessage::DaemonExit(i) => format!("exit {} {}", i.exit_code, i.exit_message),
        DaemonServerMessage::DaemonPushEvent(PushEvent::PushStarted { path }) => {
            format!("started {path}")
        }
        DaemonServerMessage::DaemonPushEvent(PushEvent::PushCompleted { path }) => {
            format!("completed {path}")
        }
        DaemonServerMessage::DaemonPushEvent(PushEvent::PushFailed { path, error }) => {
            format!("failed {path} {error}")
        }
        DaemonServerMessage::DaemonPushEvent(PushEvent::AllComplete) => "all".to_string(),
        DaemonServerMessage::DaemonError(e) => format!("error {}", e.message),
        DaemonServerMessage::DaemonDiagnosticsResult(d) => {
            format!("diagnostics {} {}", d.is_healthy, d.message)
        }
    }
}

fn reply(line: Result<DaemonClientMessage, String>, allow_stop: bool) -> String {
    match handle_client(line, allow_stop) {
        DaemonAction::Reply(m) => shown(&m),
        DaemonAction::ReplyAndStop(m) => format!("{}, stop", shown(&m)),
        DaemonAction::Push(r) => format!("push {}", r.store_paths.join(" ")),
        DaemonAction::Diagnose => "diagnose".to_string(),
    }
}

#[test]
fn lines_of_clients() {
    assert_eq!(reply(Err("bad".to_string()), true), "error invalid message: bad");
    assert_eq!(reply(Ok(DaemonClientMessage::ClientPing), true), "pong");
    assert_eq!(
        reply(Ok(DaemonClientMessage::ClientStop), true),
        "exit 0 stopped by client, stop"
    );
    assert_eq!(
        reply(Ok(DaemonClientMessage::ClientStop), false),
        "error remote stop is disabled"
    );
    assert_eq!(reply(Ok(DaemonClientMessage::ClientDiagnosticsRequest), true), "diagnose");
    let push = daemon_push(vec!["/a".to_string(), "/b".to_string()], true);
    assert_eq!(reply(Ok(push), true), "push /a /b");
}

#[test]
fn health() {
    assert_eq!(shown(&diagnostics(true)), "diagnostics true daemon is healthy");
    assert_eq!(shown(&diagnostics(false)), "diagnostics false failed to reach cachix API");
    assert_eq!(
        daemon_doctor(Some(Ok(diagnostics(true)))),
        Ok(Some("Daemon is healthy: daemon is healthy".to_string()))
    );
    assert_eq!(
        daemon_doctor(Some(Ok(diagnostics(false)))),
        Ok(Some("Daemon is unhealthy: failed to reach cachix API".to_string()))
    );
    assert_eq!(daemon_doctor(Some(Ok(DaemonServerMessage::DaemonPong))), Ok(None));
    assert_eq!(daemon_doctor(None), Ok(None));
    assert_eq!(daemon_doctor(Some(Err("bad".to_string()))), Err("bad".to_string()));
}

#[test]
fn listening() {
    assert_eq!(run_daemon(ListenEvent::Accepted), ListenAction::Serve);
    assert_eq!(run_daemon(ListenEvent::AcceptFailed), ListenAction::Fail);
    assert_eq!(run_daemon(ListenEvent::Interrupted), ListenAction::Stop);
    assert_eq!(run_daemon(ListenEvent::StoppedByClient), ListenAction::Stop);
}

#[test]
fn stop_request_ends_the_daemon() {
    let event = |message: DaemonClientMessage, allow_stop: bool| {
        listen_event(&handle_client(Ok(message), allow_stop))
    };
    assert_eq!(
        event(DaemonClientMessage::ClientStop, true),
        Some(ListenEvent::StoppedByClient)
    );
    assert_eq!(event(DaemonClientMessage::ClientStop, false), None);
    assert_eq!(event(DaemonClientMessage::ClientPing, true), None);
}

fn run(paths: &[&str], subscribe: bool, errors: &[Option<&str>]) -> (Vec<String>, Vec<String>) {
    let request = PushRequest {
        store_paths: paths.iter().map(|p| p.to_string()).collect(),
        subscribe_to_updates: subscribe,
    };
    let (messages, mut job) = start_job(request);
    let mut sent: Vec<String> = messages.iter().map(shown).collect();
    let mut pushed = Vec::new();
    while let Some(current) = job {
        let error = errors[pushed.len()].map(|e| e.to_string());
        pushed.push(current.path().to_string());
        let (messages, next) = finish_path(current, error);
        sent.extend(messages.iter().map(shown));
        job = next;
    }
    (sent, pushed)
}

#[test]
fn subscriber_is_told_of_each_path() {
    let (sent, pushed) = run(&["/a", "/b"], true, &[None, Some("oops")]);
    assert_eq!(pushed, ["/a", "/b"]);
    assert_eq!(
        sent,
        ["started /a", "completed /a", "started /b", "failed /b oops", "all"]
    );
    assert_eq!(run(&[], true, &[]).0, ["all"]);
}

#[test]
fn others_are_told_nothing() {
    let (sent, pushed) = run(&["/a", "/b"], false, &[None, Some("oops")]);
    assert!(sent.is_empty());
    assert_eq!(pushed, ["/a", "/b"]);
}

#[test]
fn waiting_client() {
    let event = |e: PushEvent| push_progress(Some(Ok(DaemonServerMessage::DaemonPushEvent(e))));
    assert!(matches!(event(PushEvent::PushStarted { path: "/a".into() }), Progress::Waiting));
    assert!(matches!(event(PushEvent::AllComplete), Progress::Done));
    let failed = push_progress(Some(Ok(error_message("x".to_string()))));
    assert!(matches!(failed, Progress::Failed(e) if e == "daemon error: x"));
    let pong = push_progress(Some(Ok(DaemonServerMessage::DaemonPong)));
    assert!(matches!(pong, Progress::Waiting));
    let unreadable = push_progress(Some(Err("bad".to_string())));
    assert!(matches!(unreadable, Progress::Failed(e) if e == "bad"));
    assert!(matches!(push_progress(None), Progress::Done));
}

#[test]
fn stopping_client() {
    let answer = |allow_stop: bool| match handle_client(
        Ok(DaemonClientMessage::ClientStop),
        allow_stop,
    ) {
        DaemonAction::Reply(m) => m,
        DaemonAction::ReplyAndStop(m) => m,
        _ => panic!("no answer"),
    };
    assert_eq!(daemon_stop(Some(Ok(answer(true)))), Ok(Some("stopped by client".to_string())));
    assert_eq!(
        daemon_stop(Some(Ok(answer(false)))),
        Err("daemon refused to stop: remote stop is disabled".to_string())
    );
    assert_eq!(daemon_stop(Some(Ok(DaemonServerMessage::DaemonPong))), Ok(None));
    assert_eq!(daemon_stop(None), Ok(None));
    assert_eq!(daemon_stop(Some(Err("bad".to_string()))), Err("bad".to_string()));
}

#[test]
fn messages_on_lines() {
    let both = format!("{}{}", send_message("{\"a\":1}"), send_message("{}"));
    assert_eq!(both, "{\"a\":1}\n{}\n");
    assert_eq!(cachix::text::split_lines(&both), ["{\"a\":1}", "{}"]);
}

#[test]
fn waiting_client_is_done_with_the_last_message() {
    let request = PushRequest {
        store_paths: vec!["/a".to_string(), "/b".to_string()],
        subscribe_to_updates: true,
    };
    let (mut messages, mut job) = start_job(request);
    while let Some(current) = job {
        let (more, next) = finish_path(current, Some("oops".to_string()));
        messages.extend(more);
        job = next;
    }
    let last = messages.pop().unwrap();
    assert_eq!(messages.len(), 4);
    for message in messages {
        assert!(matches!(push_progress(Some(Ok(message))), Progress::Waiting));
    }
    assert!(matches!(push_progress(Some(Ok(last))), Progress::Done));
}
