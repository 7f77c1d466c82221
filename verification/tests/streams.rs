use openshell::gateway::exec::{
    ChannelMessage, ExecPlan, ExecSandboxEvent, RunEffect, RunExec, RunReply, StreamEffect,
    StreamExec, StreamReply,
};
use openshell::gateway::logs::LogFilter;
use openshell::gateway::model::{
    Payload, Sandbox, SandboxLogLine, SandboxPhase, SandboxStreamEvent,
};
use openshell::gateway::ssh_proxy::{
    build_preface, payload_to_sign, preface, preface_at, read_line, reply_is_ok, signed_preface, Input,
    LineReader, ProxyEffect, ProxyReply, SshProxy,
};
use openshell::gateway::watch::{Watch, WatchEffect, WatchReply, WatchSandboxRequest};
use openshell::status::{Code, Status};

// ---- watching ----

fn sandbox(phase: SandboxPhase) -> Sandbox {
    Sandbox {
        id: "i".to_string(),
        name: "n".to_string(),
        namespace: "default".to_string(),
        spec: None,
        status: None,
        phase,
        created_at_ms: 0,
        current_policy_version: 0,
        extra: vec![],
    }
}

fn log_event(source: &str, timestamp_ms: i64) -> SandboxStreamEvent {
    SandboxStreamEvent {
        payload: Some(Payload::Log(SandboxLogLine {
            sandbox_id: "i".to_string(),
            timestamp_ms,
            level: "INFO".to_string(),
            source: source.to_string(),
            extra: vec![],
        })),
    }
}

fn request(stop_on_terminal: bool) -> WatchSandboxRequest {
    WatchSandboxRequest {
        id: "i".to_string(),
        follow_status: true,
        follow_logs: true,
        follow_events: false,
        log_tail_lines: 0,
        stop_on_terminal,
        filter: LogFilter {
            since_ms: 50,
            sources: vec!["sandbox".to_string()],
            min_level: String::new(),
        },
    }
}

fn step(watch: Watch, reply: WatchReply) -> Watch {
    assert!(watch.can_take(&reply));
    watch.resume(reply)
}

fn sent_time(watch: &Watch) -> i64 {
    match watch.effect() {
        Some(WatchEffect::Send(event)) => match &event.payload {
            Some(Payload::Log(log)) => log.timestamp_ms,
            _ => panic!("no log line"),
        },
        _ => panic!("nothing to send"),
    }
}

#[test]
fn watch_needs_an_id() {
    let mut nobody = request(false);
    nobody.id = String::new();
    match Watch::begin(nobody) {
        Err(err) => assert_eq!((err.code(), err.message()), (Code::InvalidArgument, "id is required")),
        Ok(_) => panic!("started"),
    }
}

#[test]
fn watch_begins_with_snapshot_and_tail() {
    let watch = Watch::begin(request(false)).unwrap_or_else(|_| panic!("refused"));
    assert!(matches!(
        watch.effect(),
        Some(WatchEffect::Subscribe { status: true, logs: true, events: false, .. })
    ));
    let watch = step(watch, WatchReply::Done);
    assert!(matches!(watch.effect(), Some(WatchEffect::Fetch(_))));
    let watch = step(watch, WatchReply::Sandbox(Ok(Some(sandbox(SandboxPhase::Ready)))));
    assert!(matches!(watch.effect(), Some(WatchEffect::Index(_))));
    let watch = step(watch, WatchReply::Done);
    assert!(matches!(watch.effect(), Some(WatchEffect::Send(_))));
    // The snapshot's fate does not matter.
    let watch = step(watch, WatchReply::Sent(false));
    assert!(matches!(watch.effect(), Some(WatchEffect::Tail { lines: 200, .. })));
    let watch = step(
        watch,
        WatchReply::Events(vec![
            log_event("sandbox", 10),
            log_event("sandbox", 60),
            log_event("gateway", 70),
            log_event("sandbox", 80),
        ]),
    );
    assert_eq!(sent_time(&watch), 60);
    let watch = step(watch, WatchReply::Sent(true));
    assert_eq!(sent_time(&watch), 80);
    let watch = step(watch, WatchReply::Sent(true));
    assert!(matches!(watch.effect(), Some(WatchEffect::Wait)));

    // Later lines are not held to the time.
    let watch = step(watch, WatchReply::Log(Ok(log_event("sandbox", 1))));
    assert_eq!(sent_time(&watch), 1);
    let watch = step(watch, WatchReply::Sent(true));
    let watch = step(watch, WatchReply::Log(Ok(log_event("", 100))));
    assert!(matches!(watch.effect(), Some(WatchEffect::Wait)));
    // Events of the platform are not filtered.
    let watch = step(watch, WatchReply::Platform(Ok(log_event("", 100))));
    assert_eq!(sent_time(&watch), 100);
    let watch = step(watch, WatchReply::Sent(false));
    assert!(watch.effect().is_none());
}

#[test]
fn watch_stops_once_the_sandbox_is_ready() {
    let watch = Watch::begin(request(true)).unwrap_or_else(|_| panic!("refused"));
    let watch = step(watch, WatchReply::Done);
    let watch = step(watch, WatchReply::Sandbox(Ok(Some(sandbox(SandboxPhase::Error)))));
    let watch = step(watch, WatchReply::Done);
    let watch = step(watch, WatchReply::Sent(true));
    let watch = step(watch, WatchReply::Events(vec![]));
    let watch = step(watch, WatchReply::Status(Ok(())));
    let watch = step(watch, WatchReply::Sandbox(Ok(Some(sandbox(SandboxPhase::Ready)))));
    let watch = step(watch, WatchReply::Done);
    assert!(matches!(watch.effect(), Some(WatchEffect::Send(_))));
    let watch = step(watch, WatchReply::Sent(true));
    assert!(watch.effect().is_none());
}

#[test]
fn watch_ends_with_the_sandbox() {
    let waiting = || {
        let watch = Watch::begin(request(false)).unwrap_or_else(|_| panic!("refused"));
        let watch = step(watch, WatchReply::Done);
        let watch = step(watch, WatchReply::Sandbox(Ok(Some(sandbox(SandboxPhase::Ready)))));
        let watch = step(watch, WatchReply::Done);
        let watch = step(watch, WatchReply::Sent(true));
        step(watch, WatchReply::Events(vec![]))
    };
    let watch = step(waiting(), WatchReply::Status(Ok(())));
    let watch = step(watch, WatchReply::Sandbox(Ok(None)));
    assert!(watch.effect().is_none());

    let watch = step(waiting(), WatchReply::Status(Ok(())));
    let watch = step(watch, WatchReply::Sandbox(Err("gone".to_string())));
    match watch.effect() {
        Some(WatchEffect::SendError(status)) => {
            assert_eq!(status.message(), "fetch sandbox failed: gone");
        }
        _ => panic!("no error"),
    }
    assert!(step(watch, WatchReply::Sent(true)).effect().is_none());

    let lagged = Status::new(Code::Internal, "lagged");
    let watch = step(waiting(), WatchReply::Log(Err(lagged)));
    assert!(matches!(watch.effect(), Some(WatchEffect::SendError(_))));
}

#[test]
fn watch_of_an_unknown_sandbox_fails() {
    let watch = Watch::begin(request(false)).unwrap_or_else(|_| panic!("refused"));
    let watch = step(watch, WatchReply::Done);
    let watch = step(watch, WatchReply::Sandbox(Ok(None)));
    match watch.effect() {
        Some(WatchEffect::SendError(status)) => {
            assert_eq!((status.code(), status.message()), (Code::NotFound, "sandbox not found"));
        }
        _ => panic!("no error"),
    }
}

// ---- the greeting ----

#[test]
fn preface_of_known_values() {
    assert_eq!(
        preface("tok", "secret", 1_700_000_000, "nonce"),
        "NSSH1 tok 1700000000 nonce cd667bb657ba3dc91a8bb882375016d4b6ce85cfd8cf83d730359e99345e0124\n"
    );
    assert_eq!(
        preface("t", "s", -5, "n"),
        "NSSH1 t -5 n 9bd56a6b08f04e011bde14403647ea62e58653cb5a0923c34df942f6925bafdc\n"
    );
}

#[test]
fn preface_is_signed_over_its_fields() {
    assert_eq!(payload_to_sign("tok", -5, "n"), "tok|-5|n");
    assert_eq!(signed_preface("tok", 12, "n", "sig"), "NSSH1 tok 12 n sig\n");
    assert_eq!(preface_at("t", "s", Some(7), "n"), Ok(preface("t", "s", 7, "n")));
    assert_eq!(preface_at("t", "s", None, "n"), Err("time error".to_string()));
}

#[test]
fn fresh_preface_has_five_fields() {
    let line = build_preface("token", "secret").unwrap();
    assert!(line.ends_with('\n'));
    let fields: Vec<&str> = line.trim_end().split(' ').collect();
    assert_eq!(fields.len(), 5);
    assert_eq!((fields[0], fields[1]), ("NSSH1", "token"));
    assert!(fields[2].parse::<i64>().unwrap() > 1_600_000_000);
    assert_eq!(fields[3].len(), 36);
    assert_eq!(fields[4].len(), 64);
    assert_ne!(line, build_preface("token", "secret").unwrap());
}

#[test]
fn lines_are_read_up_to_their_end() {
    assert_eq!(read_line(&b"OK\nrest".to_vec()), "OK");
    assert_eq!(read_line(&b"OK".to_vec()), "OK");
    assert_eq!(read_line(&b"\n".to_vec()), "");
    assert_eq!(read_line(&vec![]), "");
    assert_eq!(read_line(&vec![b'a'; 3000]).len(), 1025);
    assert_eq!(read_line(&vec![0x61, 0xFF, 0x62]), "a\u{FFFD}b");
    assert_eq!(read_line(&"é\n".as_bytes().to_vec()), "é");
}

#[test]
fn reader_tells_when_a_line_is_complete() {
    let mut reader = LineReader::new();
    assert!(!reader.take(Some(b'a')));
    assert!(reader.take(Some(b'\n')));
    assert_eq!(reader.line(), "a");
    let mut reader = LineReader::new();
    assert!(reader.take(None));
    assert_eq!(reader.line(), "");
}

#[test]
fn replies_are_judged_without_white_space() {
    assert!(reply_is_ok("OK"));
    assert!(reply_is_ok(" OK\r"));
    assert!(!reply_is_ok("ok"));
    assert!(!reply_is_ok("NOT OK"));
    assert!(!reply_is_ok(""));
}

fn turn(proxy: SshProxy, reply: ProxyReply) -> SshProxy {
    assert!(proxy.can_take(&reply));
    proxy.resume(reply)
}

fn greeted() -> SshProxy {
    let proxy =
        SshProxy::start_single_use_ssh_proxy("host".to_string(), 2222, "secret".to_string());
    assert!(matches!(proxy.effect(), Some(ProxyEffect::Accept)));
    let proxy = turn(proxy, ProxyReply::Worked(true));
    assert!(matches!(proxy.effect(), Some(ProxyEffect::Connect { port: 2222, .. })));
    let proxy = turn(proxy, ProxyReply::Worked(true));
    match proxy.effect() {
        Some(ProxyEffect::Write(line)) => assert!(line.starts_with("NSSH1 ")),
        _ => panic!("no greeting"),
    }
    turn(proxy, ProxyReply::Worked(true))
}

fn answer(mut proxy: SshProxy, reply: &[u8]) -> SshProxy {
    for byte in reply {
        assert!(matches!(proxy.effect(), Some(ProxyEffect::Read)));
        proxy = turn(proxy, ProxyReply::Input(Input::Byte(*byte)));
    }
    proxy
}

#[test]
fn proxy_relays_once_the_sandbox_agrees() {
    let proxy = answer(greeted(), b"OK\n");
    assert!(matches!(proxy.effect(), Some(ProxyEffect::Relay)));
    assert!(turn(proxy, ProxyReply::Worked(true)).effect().is_none());
    let proxy = turn(answer(greeted(), b" OK"), ProxyReply::Input(Input::End));
    assert!(matches!(proxy.effect(), Some(ProxyEffect::Relay)));
}

#[test]
fn proxy_ends_where_anything_fails() {
    assert!(answer(greeted(), b"DENIED\n").effect().is_none());
    assert!(turn(greeted(), ProxyReply::Input(Input::Failed)).effect().is_none());
    assert!(turn(greeted(), ProxyReply::Input(Input::End)).effect().is_none());
    assert!(answer(greeted(), &vec![b'x'; 1025]).effect().is_none());
    let proxy = SshProxy::start_single_use_ssh_proxy(String::new(), 1, String::new());
    assert!(turn(proxy, ProxyReply::Worked(false)).effect().is_none());
    assert!(SshProxy::greet(Err("time error".to_string())).effect().is_none());
}

// ---- running a command ----

fn plan(timeout_seconds: u32) -> ExecPlan {
    ExecPlan {
        sandbox_id: "i".to_string(),
        target_host: "host".to_string(),
        target_port: 2222,
        command: "ls".to_string(),
        stdin: vec![],
        timeout_seconds,
        handshake_secret: "secret".to_string(),
    }
}

fn exit_sent(stream: &StreamExec) -> i32 {
    match stream.effect() {
        Some(StreamEffect::Send(ExecSandboxEvent::Exit(code))) => *code,
        _ => panic!("no exit code"),
    }
}

#[test]
fn finished_command_joins_the_proxy_and_tells_its_code() {
    let stream = StreamExec::begin(plan(0));
    assert!(matches!(stream.effect(), Some(StreamEffect::StartProxy { port: 2222, .. })));
    let stream = stream.resume(StreamReply::ProxyStarted(Ok(4000)));
    assert!(matches!(
        stream.effect(),
        Some(StreamEffect::Run { port: 4000, limit_seconds: None, .. })
    ));
    assert!(!stream.can_take(&StreamReply::TimedOut));
    let stream = stream.resume(StreamReply::Ran(Ok(3)));
    assert!(matches!(stream.effect(), Some(StreamEffect::JoinProxy)));
    let stream = stream.resume(StreamReply::Done);
    assert_eq!(exit_sent(&stream), 3);
    assert!(stream.resume(StreamReply::Done).effect().is_none());
}

#[test]
fn slow_command_is_told_before_the_proxy_is_joined() {
    let stream = StreamExec::begin(plan(5)).resume(StreamReply::ProxyStarted(Ok(1)));
    assert!(matches!(
        stream.effect(),
        Some(StreamEffect::Run { port: 1, limit_seconds: Some(5), .. })
    ));
    assert!(stream.can_take(&StreamReply::TimedOut));
    let stream = stream.resume(StreamReply::TimedOut);
    assert_eq!(exit_sent(&stream), 124);
    let stream = stream.resume(StreamReply::Done);
    assert!(matches!(stream.effect(), Some(StreamEffect::JoinProxy)));
    assert!(stream.resume(StreamReply::Done).effect().is_none());
}

#[test]
fn command_that_cannot_run_is_reported() {
    let stream = StreamExec::begin(plan(5));
    let stream = stream.resume(StreamReply::ProxyStarted(Err("no port".to_string())));
    match stream.effect() {
        Some(StreamEffect::SendError(status)) => {
            assert_eq!(status.message(), "failed to start ssh proxy: no port");
        }
        _ => panic!("no error"),
    }
    let stream = StreamExec::begin(plan(5)).resume(StreamReply::ProxyStarted(Ok(1)));
    let stream = stream.resume(StreamReply::Ran(Err(Status::new(Code::PermissionDenied, "x"))));
    assert!(matches!(stream.effect(), Some(StreamEffect::SendError(_))));
    assert!(stream.resume(StreamReply::Done).effect().is_none());
}

fn ok() -> RunReply {
    RunReply::Step(Ok(()))
}

fn running(stdin: &[u8]) -> RunExec {
    let run = RunExec::run_exec_with_russh(4000, "ls".to_string(), stdin.to_vec());
    assert!(matches!(run.effect(), Some(RunEffect::Connect(4000))));
    let run = run.resume(ok());
    assert!(matches!(run.effect(), Some(RunEffect::Transport)));
    let run = run.resume(ok());
    assert!(matches!(run.effect(), Some(RunEffect::Authenticate("sandbox"))));
    let run = run.resume(RunReply::Authenticated(Ok(true)));
    assert!(matches!(run.effect(), Some(RunEffect::OpenChannel)));
    let run = run.resume(ok());
    assert!(matches!(run.effect(), Some(RunEffect::Execute(_))));
    let mut run = run.resume(ok());
    if !stdin.is_empty() {
        assert!(matches!(run.effect(), Some(RunEffect::SendInput(_))));
        run = run.resume(ok());
    }
    assert!(matches!(run.effect(), Some(RunEffect::CloseInput)));
    let run = run.resume(ok());
    assert!(matches!(run.effect(), Some(RunEffect::Wait)));
    run
}

fn message(run: RunExec, message: ChannelMessage) -> RunExec {
    let reply = RunReply::Message(Some(message));
    assert!(run.can_take(&reply));
    run.resume(reply)
}

fn exit_code(run: RunExec) -> i32 {
    assert!(matches!(run.effect(), Some(RunEffect::CloseChannel)));
    let run = run.resume(RunReply::Done);
    assert!(matches!(run.effect(), Some(RunEffect::Disconnect)));
    let run = run.resume(RunReply::Done);
    assert!(run.effect().is_none());
    run.finish().unwrap_or_else(|_| panic!("failed"))
}

#[test]
fn output_is_passed_on() {
    let run = message(running(b"in"), ChannelMessage::Data(b"out".to_vec()));
    match run.effect() {
        Some(RunEffect::Send(ExecSandboxEvent::Stdout(data))) => assert_eq!(data, b"out"),
        _ => panic!("no output"),
    }
    let run = run.resume(RunReply::Done);
    let run = message(run, ChannelMessage::ExtendedData(b"err".to_vec()));
    match run.effect() {
        Some(RunEffect::Send(ExecSandboxEvent::Stderr(data))) => assert_eq!(data, b"err"),
        _ => panic!("no output"),
    }
    let run = run.resume(RunReply::Done);
    let run = message(run, ChannelMessage::Other);
    let run = message(run, ChannelMessage::ExitStatus(7));
    let run = message(run, ChannelMessage::Close);
    assert_eq!(exit_code(run), 7);
}

#[test]
fn exit_codes() {
    assert_eq!(exit_code(running(b"").resume(RunReply::Message(None))), 1);
    let run = message(running(b""), ChannelMessage::ExitStatus(0));
    assert_eq!(exit_code(run.resume(RunReply::Message(None))), 0);
    let run = message(running(b""), ChannelMessage::ExitStatus(u32::MAX));
    assert_eq!(exit_code(message(run, ChannelMessage::Close)), i32::MAX);
    let run = message(running(b""), ChannelMessage::ExitStatus(3));
    let run = message(run, ChannelMessage::ExitStatus(4));
    assert_eq!(exit_code(message(run, ChannelMessage::Close)), 4);
}

fn failure(run: RunExec) -> (Code, String) {
    match run.finish() {
        Err(status) => (status.code(), status.message().to_string()),
        Ok(_) => panic!("no error"),
    }
}

#[test]
fn every_step_can_fail() {
    let bad = || RunReply::Step(Err("e".to_string()));
    let start = || RunExec::run_exec_with_russh(1, "ls".to_string(), b"x".to_vec());
    let internal = |text: &str| (Code::Internal, text.to_string());
    let run = start().resume(bad());
    assert_eq!(failure(run), internal("failed to connect to ssh proxy: e"));
    let run = start().resume(ok()).resume(bad());
    assert_eq!(failure(run), internal("failed to establish ssh transport: e"));
    let connected = || start().resume(ok()).resume(ok());
    let run = connected().resume(RunReply::Authenticated(Err("e".to_string())));
    assert_eq!(failure(run), internal("failed to authenticate ssh session: e"));
    let run = connected().resume(RunReply::Authenticated(Ok(false)));
    assert_eq!(
        failure(run),
        (Code::PermissionDenied, "ssh authentication rejected by sandbox".to_string())
    );
    let let_in = || connected().resume(RunReply::Authenticated(Ok(true)));
    assert_eq!(failure(let_in().resume(bad())), internal("failed to open ssh channel: e"));
    let run = let_in().resume(ok()).resume(bad());
    assert_eq!(failure(run), internal("failed to execute command over ssh: e"));
    let run = let_in().resume(ok()).resume(ok()).resume(bad());
    assert_eq!(failure(run), internal("failed to send ssh stdin payload: e"));
    let run = let_in().resume(ok()).resume(ok()).resume(ok()).resume(bad());
    assert_eq!(failure(run), internal("failed to close ssh stdin: e"));
}
