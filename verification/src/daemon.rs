//! The push daemon: its side of the protocol, and that of its clients.

use vstd::prelude::*;
use vstd::string::*;

use crate::api::types::{
    DaemonClientMessage, DaemonDiagnostics, DaemonError, DaemonExitInfo, DaemonServerMessage,
    PushEvent, PushRequest, ServerMessageView,
};
use crate::text;

verus! {

/// What the daemon does upon a line from a client.
#[derive(Debug)]
pub enum DaemonAction {
    /// Send a message.
    Reply(DaemonServerMessage),
    /// Send a message, stop the daemon and leave the client.
    ReplyAndStop(DaemonServerMessage),
    /// Start to push.
    Push(PushRequest),
    /// Find out whether the service can be reached, and send the result.
    Diagnose,
}

/// The message that tells a client of an error.
pub fn error_message(message: String) -> (r: DaemonServerMessage)
    ensures
        r@ == (ServerMessageView::Error { message: message@ }),
{
    DaemonServerMessage::DaemonError(DaemonError { message })
}

/// The answer to a stop request.
pub open spec fn stop_answer(allow_stop: bool) -> ServerMessageView {
    if allow_stop {
        ServerMessageView::Exit { code: 0, message: "stopped by client"@ }
    } else {
        ServerMessageView::Error { message: "remote stop is disabled"@ }
    }
}

/// What the daemon does upon a line from a client, which is a message or is refused
/// with an error.
pub fn handle_client(line: Result<DaemonClientMessage, String>, allow_stop: bool) -> (r:
    DaemonAction)
    ensures
        match line {
            Err(error) => r is Reply && r->Reply_0@ == (ServerMessageView::Error {
                message: "invalid message: "@ + error@,
            }),
            Ok(DaemonClientMessage::ClientPing) => r is Reply && r->Reply_0@
                == ServerMessageView::Pong,
            Ok(DaemonClientMessage::ClientStop) => is_stop_action(allow_stop, r),
            Ok(DaemonClientMessage::ClientPushRequest(request)) => r == DaemonAction::Push(
                request,
            ),
            Ok(DaemonClientMessage::ClientDiagnosticsRequest) => r is Diagnose,
        },
        line is Ok && line->Ok_0 is ClientStop && allow_stop ==> r is ReplyAndStop
            && r->ReplyAndStop_0@ == (ServerMessageView::Exit {
            code: 0,
            message: "stopped by client"@,
        }),
        line is Ok && line->Ok_0 is ClientStop && !allow_stop ==> r is Reply && r->Reply_0@ == (
        ServerMessageView::Error { message: "remote stop is disabled"@ }),
{
    let message = match line {
        Ok(message) => message,
        Err(error) => {
            let mut text = "invalid message: ".to_string();
            text.append(error.as_str());
            return DaemonAction::Reply(error_message(text));
        },
    };
    match message {
        DaemonClientMessage::ClientPing => DaemonAction::Reply(DaemonServerMessage::DaemonPong),
        DaemonClientMessage::ClientStop => {
            if allow_stop {
                DaemonAction::ReplyAndStop(
                    DaemonServerMessage::DaemonExit(
                        DaemonExitInfo {
                            exit_code: 0,
                            exit_message: "stopped by client".to_string(),
                        },
                    ),
                )
            } else {
                DaemonAction::Reply(error_message("remote stop is disabled".to_string()))
            }
        },
        DaemonClientMessage::ClientPushRequest(request) => DaemonAction::Push(request),
        DaemonClientMessage::ClientDiagnosticsRequest => DaemonAction::Diagnose,
    }
}

/// The result of the diagnostics, from whether the service could be reached.
pub fn diagnostics(healthy: bool) -> (r: DaemonServerMessage)
    ensures
        r@ == (ServerMessageView::Diagnostics {
            is_healthy: healthy,
            message: if healthy {
                "daemon is healthy"@
            } else {
                "failed to reach cachix API"@
            },
        }),
{
    DaemonServerMessage::DaemonDiagnosticsResult(
        DaemonDiagnostics {
            is_healthy: healthy,
            message: if healthy {
                "daemon is healthy".to_string()
            } else {
                "failed to reach cachix API".to_string()
            },
        },
    )
}

/// What happened to the daemon while it listened.
#[derive(Debug, Clone, Copy, PartialEq, Eq, Structural)]
pub enum ListenEvent {
    Accepted,
    AcceptFailed,
    Interrupted,
    StoppedByClient,
}

/// What the daemon does then.
#[derive(Debug, Clone, Copy, PartialEq, Eq, Structural)]
pub enum ListenAction {
    /// Serve the client, and go on.
    Serve,
    /// Listen no more, and end.
    Stop,
    /// End with the error "accept failed".
    Fail,
}

/// What the daemon does upon an event.
pub open spec fn listen_action(event: ListenEvent) -> ListenAction {
    match event {
        ListenEvent::Accepted => ListenAction::Serve,
        ListenEvent::AcceptFailed => ListenAction::Fail,
        ListenEvent::Interrupted => ListenAction::Stop,
        ListenEvent::StoppedByClient => ListenAction::Stop,
    }
}

/// Computes `listen_action`.
pub fn run_daemon(event: ListenEvent) -> (r: ListenAction)
    ensures
        r == listen_action(event),
{
    match event {
        ListenEvent::Accepted => ListenAction::Serve,
        ListenEvent::AcceptFailed => ListenAction::Fail,
        ListenEvent::Interrupted => ListenAction::Stop,
        ListenEvent::StoppedByClient => ListenAction::Stop,
    }
}

/// What the daemon is told when it has done what a line from a client asks for.
pub open spec fn event_of(action: DaemonAction) -> Option<ListenEvent> {
    match action {
        DaemonAction::ReplyAndStop(_) => Some(ListenEvent::StoppedByClient),
        _ => None,
    }
}

/// Computes `event_of`.
pub fn listen_event(action: &DaemonAction) -> (r: Option<ListenEvent>)
    ensures
        r == event_of(*action),
{
    match action {
        DaemonAction::ReplyAndStop(_) => Some(ListenEvent::StoppedByClient),
        _ => None,
    }
}

/// Whether `action` is what the daemon does upon a stop request.
pub open spec fn is_stop_action(allow_stop: bool, action: DaemonAction) -> bool {
    if allow_stop {
        action is ReplyAndStop && action->ReplyAndStop_0@ == stop_answer(true)
    } else {
        action is Reply && action->Reply_0@ == stop_answer(false)
    }
}

/// A stop request ends the daemon exactly if clients may stop it.
pub proof fn stop_request_ends_daemon(allow_stop: bool, action: DaemonAction)
    requires
        is_stop_action(allow_stop, action),
    ensures
        allow_stop ==> event_of(action) is Some && listen_action(event_of(action)->0)
            == ListenAction::Stop,
        !allow_stop ==> event_of(action) is None,
{
}

/// A push request that the daemon works on: it pushes the path at `at`.
#[derive(Debug)]
pub struct PushJob {
    pub store_paths: Vec<String>,
    pub subscribe: bool,
    pub at: usize,
}

impl PushJob {
    /// There is a path to push.
    pub open spec fn wf(self) -> bool {
        self.at < self.store_paths@.len()
    }

    /// The path to push.
    pub fn path(&self) -> (r: &str)
        requires
            self.wf(),
        ensures
            r@ == self.store_paths@[self.at as int]@,
    {
        self.store_paths[self.at].as_str()
    }
}

/// What a subscriber is sent before the path at `at` is pushed, or when all are done.
pub open spec fn before_path(paths: Seq<Seq<char>>, subscribe: bool, at: nat) -> Seq<
    ServerMessageView,
> {
    if !subscribe {
        Seq::empty()
    } else if at < paths.len() {
        seq![ServerMessageView::Started { path: paths[at as int] }]
    } else {
        seq![ServerMessageView::AllComplete]
    }
}

/// What a subscriber is sent when a path was pushed, or when its push failed with an
/// error.
pub open spec fn after_path(path: Seq<char>, subscribe: bool, error: Option<Seq<char>>) -> Seq<
    ServerMessageView,
> {
    if !subscribe {
        Seq::empty()
    } else {
        match error {
            None => seq![ServerMessageView::Completed { path }],
            Some(error) => seq![ServerMessageView::Failed { path, error }],
        }
    }
}

/// The views of messages.
pub open spec fn message_views(messages: Seq<DaemonServerMessage>) -> Seq<ServerMessageView> {
    messages.map_values(|m: DaemonServerMessage| m@)
}

/// Go on with a push request at the path at `at`: what to send, and the job, if
/// there is a path left.
fn begin_path(store_paths: Vec<String>, subscribe: bool, at: usize) -> (r: (
    Vec<DaemonServerMessage>,
    Option<PushJob>,
))
    ensures
        message_views(r.0@) == before_path(text::texts(store_paths@), subscribe, at as nat),
        r.1 == if at < store_paths@.len() {
            Some(PushJob { store_paths, subscribe, at })
        } else {
            None
        },
{
    let mut messages: Vec<DaemonServerMessage> = Vec::new();
    if at < store_paths.len() {
        if subscribe {
            messages.push(
                DaemonServerMessage::DaemonPushEvent(
                    PushEvent::PushStarted { path: store_paths[at].clone() },
                ),
            );
        }
        assert(message_views(messages@) == before_path(
            text::texts(store_paths@),
            subscribe,
            at as nat,
        ));
        (messages, Some(PushJob { store_paths, subscribe, at }))
    } else {
        if subscribe {
            messages.push(DaemonServerMessage::DaemonPushEvent(PushEvent::AllComplete));
        }
        assert(message_views(messages@) == before_path(
            text::texts(store_paths@),
            subscribe,
            at as nat,
        ));
        (messages, None)
    }
}

/// Start to work on a push request: what to send, and the job, if there is a path
/// to push.
pub fn start_job(request: PushRequest) -> (r: (Vec<DaemonServerMessage>, Option<PushJob>))
    ensures
        message_views(r.0@) == before_path(
            text::texts(request.store_paths@),
            request.subscribe_to_updates,
            0,
        ),
        r.1 == if request.store_paths@.len() > 0 {
            Some(
                PushJob {
                    store_paths: request.store_paths,
                    subscribe: request.subscribe_to_updates,
                    at: 0,
                },
            )
        } else {
            None
        },
{
    begin_path(request.store_paths, request.subscribe_to_updates, 0)
}

/// Go on with a push request when its path was pushed or its push failed: what to
/// send, and the job, if there is a path left.
pub fn finish_path(job: PushJob, error: Option<String>) -> (r: (
    Vec<DaemonServerMessage>,
    Option<PushJob>,
))
    requires
        job.wf(),
    ensures
        message_views(r.0@) == after_path(
            job.store_paths@[job.at as int]@,
            job.subscribe,
            text::opt_text(error),
        ) + before_path(text::texts(job.store_paths@), job.subscribe, (job.at + 1) as nat),
        r.1 == if job.at + 1 < job.store_paths@.len() {
            Some(PushJob { at: (job.at + 1) as usize, ..job })
        } else {
            None
        },
{
    let mut messages: Vec<DaemonServerMessage> = Vec::new();
    if job.subscribe {
        let path = job.store_paths[job.at].clone();
        let event = match error {
            None => PushEvent::PushCompleted { path },
            Some(error) => PushEvent::PushFailed { path, error },
        };
        messages.push(DaemonServerMessage::DaemonPushEvent(event));
    }
    assert(message_views(messages@) == after_path(
        job.store_paths@[job.at as int]@,
        job.subscribe,
        text::opt_text(error),
    ));
    let ghost reported = message_views(messages@);
    assert(job.at < job.store_paths.len());
    let (begun, next) = begin_path(job.store_paths, job.subscribe, job.at + 1);
    let ghost started = message_views(begun@);
    let mut begun = begun;
    messages.append(&mut begun);
    assert(message_views(messages@) == reported + started);
    (messages, next)
}

/// What a push request sends from the path at `at` on, where the pushes end with the
/// given errors.
pub open spec fn sent_from(
    paths: Seq<Seq<char>>,
    subscribe: bool,
    errors: Seq<Option<Seq<char>>>,
    at: nat,
) -> Seq<ServerMessageView>
    decreases paths.len() - at,
{
    if at >= paths.len() {
        Seq::empty()
    } else {
        after_path(paths[at as int], subscribe, errors[at as int]) + before_path(
            paths,
            subscribe,
            at + 1,
        ) + sent_from(paths, subscribe, errors, at + 1)
    }
}

/// All that a push request sends, where the pushes end with the given errors.
pub open spec fn sent(
    paths: Seq<Seq<char>>,
    subscribe: bool,
    errors: Seq<Option<Seq<char>>>,
) -> Seq<ServerMessageView> {
    before_path(paths, subscribe, 0) + sent_from(paths, subscribe, errors, 0)
}

/// That a path is pushed, and then how that ended, for each path from `at` on; and at
/// last that all are done.
pub open spec fn report_from(
    paths: Seq<Seq<char>>,
    errors: Seq<Option<Seq<char>>>,
    at: nat,
) -> Seq<ServerMessageView>
    decreases paths.len() - at,
{
    if at >= paths.len() {
        seq![ServerMessageView::AllComplete]
    } else {
        seq![
            ServerMessageView::Started { path: paths[at as int] },
            match errors[at as int] {
                None => ServerMessageView::Completed { path: paths[at as int] },
                Some(error) => ServerMessageView::Failed { path: paths[at as int], error },
            },
        ] + report_from(paths, errors, at + 1)
    }
}

proof fn lemma_sent_from(paths: Seq<Seq<char>>, errors: Seq<Option<Seq<char>>>, at: nat)
    requires
        at <= paths.len(),
    ensures
        before_path(paths, true, at) + sent_from(paths, true, errors, at) == report_from(
            paths,
            errors,
            at,
        ),
    decreases paths.len() - at,
{
    if at < paths.len() {
        lemma_sent_from(paths, errors, at + 1);
        let begun = before_path(paths, true, at);
        let ended = after_path(paths[at as int], true, errors[at as int]);
        let next = before_path(paths, true, at + 1);
        let rest = sent_from(paths, true, errors, at + 1);
        assert(begun + (ended + next + rest) == (begun + ended) + (next + rest));
        assert(begun + ended == seq![begun[0], ended[0]]);
    } else {
        assert(before_path(paths, true, at) + Seq::<ServerMessageView>::empty() == before_path(
            paths,
            true,
            at,
        ));
    }
}

/// A subscriber is told of each path in turn, when its push starts and how it ended,
/// and at last that all are done. Who has not subscribed is sent nothing.
pub proof fn subscriber_is_told_all(paths: Seq<Seq<char>>, errors: Seq<Option<Seq<char>>>)
    ensures
        sent(paths, true, errors) == report_from(paths, errors, 0),
        sent(paths, false, errors).len() == 0,
{
    lemma_sent_from(paths, errors, 0);
    lemma_nothing_sent(paths, errors, 0);
}

proof fn lemma_nothing_sent(paths: Seq<Seq<char>>, errors: Seq<Option<Seq<char>>>, at: nat)
    ensures
        sent_from(paths, false, errors, at).len() == 0,
    decreases paths.len() - at,
{
    if at < paths.len() {
        lemma_nothing_sent(paths, errors, at + 1);
    }
}

/// A message as it is sent: its text on a line of its own.
pub fn send_message(json: &str) -> (r: String)
    ensures
        r@ == json@ + "\n"@,
{
    let mut r = json.to_string();
    r.append("\n");
    r
}

/// Messages that are sent one after the other are read back line by line.
pub proof fn messages_are_read_back(first: Seq<char>, rest: Seq<char>)
    requires
        text::is_line(first),
    ensures
        text::lines((first + "\n"@) + rest) == seq![first] + text::lines(rest),
{
    reveal_strlit("\n");
    assert((first + "\n"@) + rest == first + seq!['\n'] + rest);
    text::lemma_lines_of_line(first, rest);
}

/// The message of a client that wants paths pushed, and told of it where it waits.
pub fn daemon_push(store_paths: Vec<String>, wait: bool) -> (r: DaemonClientMessage)
    ensures
        r == DaemonClientMessage::ClientPushRequest(
            PushRequest { store_paths, subscribe_to_updates: wait },
        ),
{
    DaemonClientMessage::ClientPushRequest(PushRequest { store_paths, subscribe_to_updates: wait })
}

/// How far a waiting client has come.
#[derive(Debug)]
pub enum Progress {
    Waiting,
    Done,
    Failed(String),
}

/// What a line from the daemon means to a client that waits for its paths to be pushed. A
/// line that is no message ends the waiting with its error, and so does the end of the
/// connection, without one.
pub fn push_progress(line: Option<Result<DaemonServerMessage, String>>) -> (r: Progress)
    ensures
        match line {
            None => r is Done,
            Some(Err(error)) => r == Progress::Failed(error),
            Some(Ok(message)) => match message@ {
                ServerMessageView::AllComplete => r is Done,
                ServerMessageView::Error { message } => r is Failed && r->Failed_0@
                    == "daemon error: "@ + message,
                _ => r is Waiting,
            },
        },
{
    let message = match line {
        None => return Progress::Done,
        Some(Err(error)) => return Progress::Failed(error),
        Some(Ok(message)) => message,
    };
    match message {
        DaemonServerMessage::DaemonPushEvent(PushEvent::AllComplete) => Progress::Done,
        DaemonServerMessage::DaemonError(error) => {
            let mut text = "daemon error: ".to_string();
            text.append(error.message.as_str());
            Progress::Failed(text)
        },
        _ => Progress::Waiting,
    }
}

/// Whether a waiting client waits on after a message.
pub open spec fn waits_after(message: ServerMessageView) -> bool {
    !(message is AllComplete) && !(message is Error)
}

/// A client that waits for its paths waits on through all messages of its push
/// request but the last, and is done with that.
pub proof fn waiting_client_sees_all(paths: Seq<Seq<char>>, errors: Seq<Option<Seq<char>>>)
    ensures
        ({
            let messages = sent(paths, true, errors);
            &&& messages.len() > 0
            &&& messages.last() is AllComplete
            &&& forall|i: int|
                0 <= i < messages.len() - 1 ==> waits_after(#[trigger] messages[i])
        }),
{
    subscriber_is_told_all(paths, errors);
    lemma_waits(paths, errors, 0);
}

proof fn lemma_waits(paths: Seq<Seq<char>>, errors: Seq<Option<Seq<char>>>, at: nat)
    ensures
        ({
            let messages = report_from(paths, errors, at);
            &&& messages.len() > 0
            &&& messages.last() is AllComplete
            &&& forall|i: int|
                0 <= i < messages.len() - 1 ==> waits_after(#[trigger] messages[i])
        }),
    decreases paths.len() - at,
{
    if at < paths.len() {
        lemma_waits(paths, errors, at + 1);
        let messages = report_from(paths, errors, at);
        let rest = report_from(paths, errors, at + 1);
        assert(messages.last() == rest.last());
        assert forall|i: int| 0 <= i < messages.len() - 1 implies waits_after(
            #[trigger] messages[i],
        ) by {
            if i >= 2 {
                assert(messages[i] == rest[i - 2]);
            }
        }
    }
}

/// What an answer to a stop request means: the message that the daemon leaves, or
/// the error.
pub open spec fn stop_outcome(answer: ServerMessageView) -> Result<Option<Seq<char>>, Seq<char>> {
    match answer {
        ServerMessageView::Exit { message, .. } => Ok(Some(message)),
        ServerMessageView::Error { message } => Err("daemon refused to stop: "@ + message),
        _ => Ok(None),
    }
}

/// A client that asks the daemon to stop learns that it stopped, or that it may not
/// stop it.
pub proof fn stop_request_is_answered(allow_stop: bool)
    ensures
        stop_outcome(stop_answer(allow_stop)) == if allow_stop {
            Ok(Some("stopped by client"@))
        } else {
            Err("daemon refused to stop: "@ + "remote stop is disabled"@)
        },
{
}

/// What the line that answers a stop request means: the message that the daemon leaves,
/// where it stopped, or the error where it refused or the line is no message.
pub fn daemon_stop(line: Option<Result<DaemonServerMessage, String>>) -> (r: Result<
    Option<String>,
    String,
>)
    ensures
        match line {
            None => r == Ok::<Option<String>, String>(None),
            Some(Err(error)) => r == Err::<Option<String>, String>(error),
            Some(Ok(answer)) => match r {
                Ok(message) => stop_outcome(answer@) == Ok::<_, Seq<char>>(
                    text::opt_text(message),
                ),
                Err(error) => stop_outcome(answer@) == Err::<Option<Seq<char>>, _>(error@),
            },
        },
        line matches Some(Ok(answer)) ==> match answer@ {
            ServerMessageView::Exit { message, .. } => r is Ok && text::opt_text(r->Ok_0) == Some(
                message,
            ),
            ServerMessageView::Error { message } => r is Err && r->Err_0@
                == "daemon refused to stop: "@ + message,
            _ => r == Ok::<Option<String>, String>(None),
        },
{
    let answer = match line {
        None => return Ok(None),
        Some(Err(error)) => return Err(error),
        Some(Ok(answer)) => answer,
    };
    match answer {
        DaemonServerMessage::DaemonExit(info) => Ok(Some(info.exit_message)),
        DaemonServerMessage::DaemonError(error) => {
            let mut text = "daemon refused to stop: ".to_string();
            text.append(error.message.as_str());
            Err(text)
        },
        _ => Ok(None),
    }
}

/// What the line that answers a diagnostics request tells the user, if it is a message.
pub fn daemon_doctor(line: Option<Result<DaemonServerMessage, String>>) -> (r: Result<
    Option<String>,
    String,
>)
    ensures
        match line {
            None => r == Ok::<Option<String>, String>(None),
            Some(Err(error)) => r == Err::<Option<String>, String>(error),
            Some(Ok(answer)) => r is Ok && text::opt_text(r->Ok_0) == match answer@ {
                ServerMessageView::Diagnostics { is_healthy, message } => Some(
                    if is_healthy {
                        "Daemon is healthy: "@ + message
                    } else {
                        "Daemon is unhealthy: "@ + message
                    },
                ),
                _ => None,
            },
        },
{
    let answer = match line {
        None => return Ok(None),
        Some(Err(error)) => return Err(error),
        Some(Ok(answer)) => answer,
    };
    match answer {
        DaemonServerMessage::DaemonDiagnosticsResult(result) => {
            let mut text = if result.is_healthy {
                "Daemon is healthy: ".to_string()
            } else {
                "Daemon is unhealthy: ".to_string()
            };
            text.append(result.message.as_str());
            Ok(Some(text))
        },
        _ => Ok(None),
    }
}

/// A subscriber is sent two messages for each path, in the order of the paths: that its push
/// starts, and then that it is completed, or that it failed with its own error. The last
/// message is that all are done. Who has not subscribed is sent nothing.
pub proof fn two_messages_for_each_path(paths: Seq<Seq<char>>, errors: Seq<Option<Seq<char>>>)
    ensures
        sent(paths, true, errors).len() == 2 * paths.len() + 1,
        forall|i: int|
            0 <= i < paths.len() ==> {
                &&& sent(paths, true, errors)[2 * i] == (ServerMessageView::Started {
                    path: #[trigger] paths[i],
                })
                &&& errors[i] is None ==> sent(paths, true, errors)[2 * i + 1] == (
                ServerMessageView::Completed { path: paths[i] })
                &&& errors[i] is Some ==> sent(paths, true, errors)[2 * i + 1] == (
                ServerMessageView::Failed { path: paths[i], error: errors[i]->0 })
            },
        sent(paths, true, errors).last() == ServerMessageView::AllComplete,
        sent(paths, false, errors) == Seq::<ServerMessageView>::empty(),
{
    subscriber_is_told_all(paths, errors);
    lemma_report_at(paths, errors, 0);
    let all = sent(paths, true, errors);
    assert forall|i: int| 0 <= i < paths.len() implies {
        &&& all[2 * i] == (ServerMessageView::Started { path: #[trigger] paths[i] })
        &&& errors[i] is None ==> all[2 * i + 1] == (ServerMessageView::Completed {
            path: paths[i],
        })
        &&& errors[i] is Some ==> all[2 * i + 1] == (ServerMessageView::Failed {
            path: paths[i],
            error: errors[i]->0,
        })
    } by {
        assert(all[2 * (i - 0)] == all[2 * i]);
    }
}

proof fn lemma_report_at(paths: Seq<Seq<char>>, errors: Seq<Option<Seq<char>>>, at: nat)
    requires
        at <= paths.len(),
    ensures
        ({
            let all = report_from(paths, errors, at);
            &&& all.len() == 2 * (paths.len() - at) + 1
            &&& all.last() == ServerMessageView::AllComplete
            &&& forall|i: int|
                at <= i < paths.len() ==> {
                    &&& all[2 * (i - at)] == (ServerMessageView::Started {
                        path: #[trigger] paths[i],
                    })
                    &&& errors[i] is None ==> all[2 * (i - at) + 1] == (
                    ServerMessageView::Completed { path: paths[i] })
                    &&& errors[i] is Some ==> all[2 * (i - at) + 1] == (
                    ServerMessageView::Failed { path: paths[i], error: errors[i]->0 })
                }
        }),
    decreases paths.len() - at,
{
    if at < paths.len() {
        lemma_report_at(paths, errors, at + 1);
        let rest = report_from(paths, errors, at + 1);
        let all = report_from(paths, errors, at);
        assert(all.last() == rest.last());
        assert forall|i: int| at <= i < paths.len() implies {
            &&& all[2 * (i - at)] == (ServerMessageView::Started { path: #[trigger] paths[i] })
            &&& errors[i] is None ==> all[2 * (i - at) + 1] == (ServerMessageView::Completed {
                path: paths[i],
            })
            &&& errors[i] is Some ==> all[2 * (i - at) + 1] == (ServerMessageView::Failed {
                path: paths[i],
                error: errors[i]->0,
            })
        } by {
            if i > at {
                assert(all[2 * (i - at)] == rest[2 * (i - (at + 1))]);
                assert(all[2 * (i - at) + 1] == rest[2 * (i - (at + 1)) + 1]);
            }
        }
    }
}

/// What is sent before and after a path, to a subscriber and to another.
pub proof fn messages_around_a_path(paths: Seq<Seq<char>>, at: nat, error: Seq<char>)
    ensures
        at < paths.len() ==> before_path(paths, true, at) == seq![
            ServerMessageView::Started { path: paths[at as int] },
        ],
        before_path(paths, true, paths.len()) == seq![ServerMessageView::AllComplete],
        before_path(paths, false, at).len() == 0,
        after_path(paths[at as int], true, None) == seq![
            ServerMessageView::Completed { path: paths[at as int] },
        ],
        after_path(paths[at as int], true, Some(error)) == seq![
            ServerMessageView::Failed { path: paths[at as int], error },
        ],
        after_path(paths[at as int], false, Some(error)).len() == 0,
        after_path(paths[at as int], false, None).len() == 0,
{
}

/// The daemon serves who connects, ends when it is interrupted or stopped by a client, and
/// fails when it cannot accept; only what stops it makes it stop.
pub proof fn daemon_serves_until_it_is_stopped(event: ListenEvent, action: DaemonAction)
    ensures
        listen_action(event) == ListenAction::Serve <==> event == ListenEvent::Accepted,
        listen_action(event) == ListenAction::Fail <==> event == ListenEvent::AcceptFailed,
        listen_action(event) == ListenAction::Stop <==> event == ListenEvent::Interrupted || event
            == ListenEvent::StoppedByClient,
        event_of(action) is Some <==> action is ReplyAndStop,
        event_of(action) is Some ==> event_of(action)->0 == ListenEvent::StoppedByClient,
{
}

/// A client that may stop the daemon is told that it stopped, and another that it may not.
pub proof fn stop_request_is_granted_or_refused(allow_stop: bool, action: DaemonAction)
    requires
        is_stop_action(allow_stop, action),
    ensures
        allow_stop ==> action is ReplyAndStop && action->ReplyAndStop_0@ == (
        ServerMessageView::Exit { code: 0, message: "stopped by client"@ }),
        !allow_stop ==> action is Reply && action->Reply_0@ == (ServerMessageView::Error {
            message: "remote stop is disabled"@,
        }),
{
}

/// What a client that asks the daemon to stop learns from each answer.
pub proof fn answers_to_a_stop_request(code: i32, message: Seq<char>, other: ServerMessageView)
    ensures
        stop_outcome(ServerMessageView::Exit { code, message }) == Ok::<_, Seq<char>>(
            Some(message),
        ),
        stop_outcome(ServerMessageView::Error { message }) == Err::<Option<Seq<char>>, _>(
            "daemon refused to stop: "@ + message,
        ),
        !(other is Exit) && !(other is Error) ==> stop_outcome(other) == Ok::<
            Option<Seq<char>>,
            Seq<char>,
        >(None),
{
}

/// The messages that are sent say what they hold, each in its place.
pub proof fn sent_messages_say_what_they_hold(messages: Seq<DaemonServerMessage>, i: int)
    requires
        0 <= i < messages.len(),
    ensures
        message_views(messages).len() == messages.len(),
        message_views(messages)[i] == messages[i]@,
{
}

}
