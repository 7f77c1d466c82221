//! What holds of a command from its request to its end.
use crate::exec_command::{
    command_text, command_text_reads_back, intended_words, is_env_key, remote_command, shell_word,
    shell_words, workdir_reads_back, ExecSandboxRequest,
};
use crate::gateway::exec::{
    ChannelMessage, ExecPlan, ExecSandbox, ExecSandboxEvent, ExecSettings, RunEffect, RunExec,
    RunReply, StreamEffect, StreamExec, StreamReply,
};
use crate::gateway::flow::{Effect, Flow, Reply};
use crate::gateway::model::{Sandbox, SandboxPhase};
use crate::gateway::world::{ends, World};
use crate::status::{Code, Status};
use crate::string_map::{
    lemma_sorted_keys_exist, lemma_text_lt_order, sorted_keys, text_lt,
};
use crate::text::{is_ascii_alphanumeric, is_ascii_letter};
use vstd::prelude::*;

verus! {

/// `replies` take a connection through `states`, one by one.
pub open spec fn is_run(states: Seq<RunExec>, replies: Seq<RunReply>) -> bool {
    &&& states.len() == replies.len() + 1
    &&& forall|i: int|
        0 <= i < replies.len() ==> states[i].follows(#[trigger] replies[i], states[i + 1])
}

/// The bytes that were handed over for the command to read in the first `k` steps.
pub open spec fn input_until(states: Seq<RunExec>, k: int) -> Seq<u8>
    decreases k,
{
    if k <= 0 {
        Seq::empty()
    } else {
        match states[k - 1].asks() {
            Some(RunEffect::SendInput(bytes)) => input_until(states, k - 1) + bytes@,
            _ => input_until(states, k - 1),
        }
    }
}

/// The commands that were handed over to be executed in the first `k` steps.
pub open spec fn executed_until(states: Seq<RunExec>, k: int) -> Seq<Seq<char>>
    decreases k,
{
    if k <= 0 {
        Seq::empty()
    } else {
        match states[k - 1].asks() {
            Some(RunEffect::Execute(command)) => executed_until(states, k - 1).push(command@),
            _ => executed_until(states, k - 1),
        }
    }
}

/// How often the command was told in the first `k` steps that there is no more to read.
pub open spec fn closed_until(states: Seq<RunExec>, k: int) -> nat
    decreases k,
{
    if k <= 0 {
        0
    } else {
        match states[k - 1].asks() {
            Some(RunEffect::CloseInput) => closed_until(states, k - 1) + 1,
            _ => closed_until(states, k - 1),
        }
    }
}

/// The events that the client was sent in the first `k` steps.
pub open spec fn sent_until(states: Seq<RunExec>, k: int) -> Seq<ExecSandboxEvent>
    decreases k,
{
    if k <= 0 {
        Seq::empty()
    } else {
        match states[k - 1].asks() {
            Some(RunEffect::Send(event)) => sent_until(states, k - 1).push(*event),
            _ => sent_until(states, k - 1),
        }
    }
}

/// What the command wrote in the first `k` steps, to either stream, in order.
pub open spec fn written_until(replies: Seq<RunReply>, k: int) -> Seq<ExecSandboxEvent>
    decreases k,
{
    if k <= 0 {
        Seq::empty()
    } else {
        match replies[k - 1] {
            RunReply::Message(Some(ChannelMessage::Data(data))) => written_until(
                replies,
                k - 1,
            ).push(ExecSandboxEvent::Stdout(data)),
            RunReply::Message(Some(ChannelMessage::ExtendedData(data))) => written_until(
                replies,
                k - 1,
            ).push(ExecSandboxEvent::Stderr(data)),
            _ => written_until(replies, k - 1),
        }
    }
}

/// The last exit status that the command reported in the first `k` steps, if it did.
pub open spec fn status_until(replies: Seq<RunReply>, k: int) -> Option<u32>
    decreases k,
{
    if k <= 0 {
        None
    } else {
        match replies[k - 1] {
            RunReply::Message(Some(ChannelMessage::ExitStatus(status))) => Some(status),
            _ => status_until(replies, k - 1),
        }
    }
}

/// Here the sandbox was asked to let its user in, and `reply` says that it did.
pub open spec fn lets_in(at: RunExec, reply: RunReply) -> bool {
    &&& at.asks() matches Some(RunEffect::Authenticate(user)) && user@ == "sandbox"@
    &&& reply == RunReply::Authenticated(Ok(true))
}

/// The sandbox let its user in in one of the first `k` steps.
pub open spec fn let_in_until(states: Seq<RunExec>, replies: Seq<RunReply>, k: int) -> bool {
    exists|j: int| 0 <= j < k && #[trigger] lets_in(states[j], replies[j])
}

/// The reply says that a step worked.
pub open spec fn worked(reply: RunReply) -> bool {
    reply == RunReply::Step(Ok(())) || reply == RunReply::Authenticated(Ok(true))
}

/// An exit code for an exit status: the status, or the largest code where it is larger; one
/// where there is none.
pub open spec fn is_code_for(code: i32, status: Option<u32>) -> bool {
    match status {
        Some(status) => if status <= 0x7FFF_FFFF {
            code == status
        } else {
            code == 0x7FFF_FFFF
        },
        None => code == 1,
    }
}

/// The exit code at hand is the one for what was reported.
spec fn keeps_code(exit_code: Option<i32>, status: Option<u32>) -> bool {
    match exit_code {
        Some(code) => status is Some && is_code_for(code, status),
        None => status is None,
    }
}

/// Where a run stands after `k` steps.
spec fn stands_at(
    states: Seq<RunExec>,
    replies: Seq<RunReply>,
    command: Seq<char>,
    stdin: Seq<u8>,
    k: int,
) -> bool {
    let unstarted = input_until(states, k).len() == 0 && executed_until(states, k).len() == 0
        && closed_until(states, k) == 0 && sent_until(states, k).len() == 0 && written_until(
        replies,
        k,
    ).len() == 0 && status_until(replies, k) is None;
    let started = executed_until(states, k) == seq![command] && let_in_until(states, replies, k);
    let running = started && input_until(states, k) == stdin && closed_until(states, k) == 1;
    let quiet = sent_until(states, k).len() == 0 && written_until(replies, k).len() == 0
        && status_until(replies, k) is None;
    let told = sent_until(states, k) == written_until(replies, k);
    match states[k] {
        RunExec::Connect { command: c, stdin: s, .. } => k == 0 && unstarted && c@ == command && s@
            == stdin,
        RunExec::Transport { command: c, stdin: s } => unstarted && c@ == command && s@ == stdin,
        RunExec::Authenticate { command: c, stdin: s } => unstarted && c@ == command && s@ == stdin,
        RunExec::OpenChannel { command: c, stdin: s } => unstarted && c@ == command && s@ == stdin
            && let_in_until(states, replies, k),
        RunExec::Execute { command: c, stdin: s } => unstarted && c@ == command && s@ == stdin
            && let_in_until(states, replies, k),
        RunExec::SendInput { stdin: s } => started && quiet && s@ == stdin && input_until(
            states,
            k,
        ).len() == 0 && closed_until(states, k) == 0,
        RunExec::CloseInput => started && quiet && input_until(states, k) == stdin && closed_until(
            states,
            k,
        ) == 0,
        RunExec::Wait { exit_code } => running && told && keeps_code(
            exit_code,
            status_until(replies, k),
        ),
        RunExec::Send { event, exit_code } => running && sent_until(states, k).push(event)
            == written_until(replies, k) && keeps_code(exit_code, status_until(replies, k)),
        RunExec::CloseChannel { exit_code } => running && told && keeps_code(
            exit_code,
            status_until(replies, k),
        ),
        RunExec::Disconnect { exit_code } => running && told && keeps_code(
            exit_code,
            status_until(replies, k),
        ),
        RunExec::Done(Ok(code)) => running && told && is_code_for(code, status_until(replies, k)),
        RunExec::Done(Err(_)) => true,
    }
}

proof fn lemma_stands_at(
    states: Seq<RunExec>,
    replies: Seq<RunReply>,
    port: u16,
    command: String,
    stdin: Vec<u8>,
    k: int,
)
    requires
        is_run(states, replies),
        RunExec::begins(port, command, stdin, states[0]),
        0 <= k < states.len(),
    ensures
        stands_at(states, replies, command@, stdin@, k),
    decreases k,
{
    if k > 0 {
        lemma_stands_at(states, replies, port, command, stdin, k - 1);
        let before = states[k - 1];
        let reply = replies[k - 1];
        assert(before.follows(reply, states[k]));
        if let_in_until(states, replies, k - 1) {
            let j = choose|j: int| 0 <= j < k - 1 && #[trigger] lets_in(states[j], replies[j]);
            assert(lets_in(states[j], replies[j]));
            assert(let_in_until(states, replies, k));
        }
        if before is Authenticate && reply == RunReply::Authenticated(Ok(true)) {
            assert(lets_in(states[k - 1], replies[k - 1]));
            assert(let_in_until(states, replies, k));
        }
        if before is Execute {
            assert(executed_until(states, k - 1) =~= Seq::empty());
            assert(executed_until(states, k) =~= seq![command@]);
            if stdin@.len() == 0 {
                assert(input_until(states, k) =~= stdin@);
            }
        }
        if before is SendInput {
            assert(input_until(states, k) =~= stdin@);
        }
        if before is CloseInput {
            assert(sent_until(states, k) =~= written_until(replies, k));
        }
    }
}

/// A command that is run is the one that was asked for, is run once, and reads exactly the
/// bytes that were given for it: they are all handed over before it is told that there is no
/// more, and it is told so once, before its output is waited for.
pub proof fn command_reads_its_input(
    states: Seq<RunExec>,
    replies: Seq<RunReply>,
    port: u16,
    command: String,
    stdin: Vec<u8>,
    k: int,
)
    requires
        is_run(states, replies),
        RunExec::begins(port, command, stdin, states[0]),
        0 <= k < states.len(),
    ensures
        states[0].asks() == Some(RunEffect::Connect(port)),
        states[k].asks() matches Some(RunEffect::Execute(text)) ==> text@ == command@
            && executed_until(states, k).len() == 0,
        states[k].asks() matches Some(RunEffect::SendInput(bytes)) ==> bytes@ == stdin@
            && input_until(states, k).len() == 0 && closed_until(states, k) == 0
            && executed_until(states, k) == seq![command@],
        states[k].asks() == Some(RunEffect::CloseInput) ==> input_until(states, k) == stdin@
            && closed_until(states, k) == 0 && executed_until(states, k) == seq![command@],
        states[k].asks() == Some(RunEffect::Wait) || (states[k] matches RunExec::Done(Ok(_)))
            ==> input_until(states, k) == stdin@ && closed_until(states, k) == 1
            && executed_until(states, k) == seq![command@],
{
    lemma_stands_at(states, replies, port, command, stdin, k);
}

/// No command is executed, and nothing is handed over for it to read, before the sandbox has
/// let its user in.
pub proof fn nothing_runs_before_authentication(
    states: Seq<RunExec>,
    replies: Seq<RunReply>,
    port: u16,
    command: String,
    stdin: Vec<u8>,
    k: int,
)
    requires
        is_run(states, replies),
        RunExec::begins(port, command, stdin, states[0]),
        0 <= k < states.len(),
        (states[k].asks() matches Some(effect) && (effect is OpenChannel || effect is Execute
            || effect is SendInput || effect is CloseInput || effect is Wait || effect is Send))
            || (states[k] matches RunExec::Done(Ok(_))),
    ensures
        let_in_until(states, replies, k),
{
    lemma_stands_at(states, replies, port, command, stdin, k);
}

/// Whenever the command's output is waited for, and when the run has come to its end, the
/// client has been sent exactly what the command has written, in order, each piece as coming
/// from the stream it was written to. The code at the end is for the last exit status that was
/// reported.
pub proof fn output_and_exit_code_reach_the_client(
    states: Seq<RunExec>,
    replies: Seq<RunReply>,
    port: u16,
    command: String,
    stdin: Vec<u8>,
    k: int,
)
    requires
        is_run(states, replies),
        RunExec::begins(port, command, stdin, states[0]),
        0 <= k < states.len(),
    ensures
        states[k].asks() == Some(RunEffect::Wait) ==> sent_until(states, k) == written_until(
            replies,
            k,
        ),
        states[k] matches RunExec::Done(Ok(code)) ==> sent_until(states, k) == written_until(
            replies,
            k,
        ) && is_code_for(code, status_until(replies, k)),
{
    lemma_stands_at(states, replies, port, command, stdin, k);
}

/// Where every step works, the command is reached: after six of them, or seven where there is
/// something for it to read, its output is waited for.
pub proof fn working_steps_reach_the_command(
    states: Seq<RunExec>,
    replies: Seq<RunReply>,
    port: u16,
    command: String,
    stdin: Vec<u8>,
)
    requires
        is_run(states, replies),
        RunExec::begins(port, command, stdin, states[0]),
        replies.len() == (if stdin@.len() == 0 {
            6int
        } else {
            7int
        }),
        forall|i: int| 0 <= i < replies.len() ==> worked(#[trigger] replies[i]),
    ensures
        states.last().asks() == Some(RunEffect::Wait),
{
    assert(states[0].follows(replies[0], states[1]));
    assert(states[1].follows(replies[1], states[2]));
    assert(states[2].follows(replies[2], states[3]));
    assert(states[3].follows(replies[3], states[4]));
    assert(states[4].follows(replies[4], states[5]));
    assert(states[5].follows(replies[5], states[6]));
    if stdin@.len() > 0 {
        assert(states[6].follows(replies[6], states[7]));
    }
}

/// A step that does not work ends the connection, and the error ends with the reason. A user
/// who is not let in is told that they have no permission.
pub proof fn failed_step_ends_the_run(at: RunExec, reply: RunReply, next: RunExec, reason: String)
    requires
        at.follows(reply, next),
        reply == RunReply::Step(Err(reason)) || reply == RunReply::Authenticated(Err(reason))
            || reply == RunReply::Authenticated(Ok(false)),
    ensures
        next.asks() is None,
        next matches RunExec::Done(Err(status)) && if reply is Authenticated
            && reply->Authenticated_0 is Ok {
            status.code == Code::PermissionDenied
        } else {
            status.code == Code::Internal && status.message@.len() >= reason@.len()
                && status.message@.skip(status.message@.len() - reason@.len()) =~= reason@
        },
{
}

/// A message of a running command does not end the connection, unless it says that the channel
/// is closed. Once it is closed or has nothing left, the channel is closed here too, the
/// connection is ended, and the run is over with an exit code.
pub proof fn run_ends_with_its_channel(
    running: RunExec,
    message: Option<ChannelMessage>,
    next: RunExec,
    then: RunExec,
    end: RunExec,
)
    requires
        running.asks() == Some(RunEffect::Wait),
        running.follows(RunReply::Message(message), next),
        next.follows(RunReply::Done, then),
        then.follows(RunReply::Done, end),
        message is None || message == Some(ChannelMessage::Close),
    ensures
        next.asks() == Some(RunEffect::CloseChannel),
        then.asks() == Some(RunEffect::Disconnect),
        end matches RunExec::Done(Ok(_)),
{
}

/// A message that does not close the channel leaves the command running.
pub proof fn messages_leave_the_command_running(
    running: RunExec,
    message: ChannelMessage,
    next: RunExec,
)
    requires
        running.asks() == Some(RunEffect::Wait),
        running.follows(RunReply::Message(Some(message)), next),
        message !is Close,
    ensures
        match message {
            ChannelMessage::Data(data) => next.asks() == Some(
                RunEffect::Send(&ExecSandboxEvent::Stdout(data)),
            ),
            ChannelMessage::ExtendedData(data) => next.asks() == Some(
                RunEffect::Send(&ExecSandboxEvent::Stderr(data)),
            ),
            _ => next.asks() == Some(RunEffect::Wait),
        },
{
}

/// The proxy is started to where the plan says, and what is run through it is the plan's
/// command with the plan's bytes to read. A time limit of zero is none.
pub proof fn plan_is_carried_out(plan: ExecPlan, start: StreamExec, port: u16, running: StreamExec)
    requires
        StreamExec::begins(plan, start),
        start.follows(StreamReply::ProxyStarted(Ok(port)), running),
    ensures
        start.asks() matches Some(StreamEffect::StartProxy { host, port: to, secret }) && {
            &&& host@ == plan.target_host@
            &&& to == plan.target_port
            &&& secret@ == plan.handshake_secret@
        },
        running.asks() matches Some(
            StreamEffect::Run { port: at, command, stdin, limit_seconds },
        ) && {
            &&& at == port
            &&& command@ == plan.command@
            &&& stdin@ == plan.stdin@
            &&& limit_seconds is None <==> plan.timeout_seconds == 0
            &&& limit_seconds matches Some(limit) ==> limit == plan.timeout_seconds
        },
        plan.timeout_seconds > 0 ==> running.takes(StreamReply::TimedOut),
        forall|ran: Result<i32, Status>| #[trigger] running.takes(StreamReply::Ran(ran)),
{
}

/// A command that ends has its proxy joined, and its exit code is the last thing that the
/// client is told.
pub proof fn exit_code_is_told(
    running: StreamExec,
    code: i32,
    joining: StreamExec,
    telling: StreamExec,
    end: StreamExec,
)
    requires
        running.follows(StreamReply::Ran(Ok(code)), joining),
        joining.follows(StreamReply::Done, telling),
        telling.follows(StreamReply::Done, end),
    ensures
        joining.asks() == Some(StreamEffect::JoinProxy),
        telling.asks() == Some(StreamEffect::Send(&ExecSandboxEvent::Exit(code))),
        end.asks() is None,
{
}

/// A command that takes too long ends with the exit code one hundred and twenty-four, and then
/// its proxy is joined.
pub proof fn timeout_is_told(
    running: StreamExec,
    telling: StreamExec,
    joining: StreamExec,
    end: StreamExec,
)
    requires
        running.follows(StreamReply::TimedOut, telling),
        telling.follows(StreamReply::Done, joining),
        joining.follows(StreamReply::Done, end),
    ensures
        telling.asks() == Some(StreamEffect::Send(&ExecSandboxEvent::Exit(124))),
        joining.asks() == Some(StreamEffect::JoinProxy),
        end.asks() is None,
{
}

/// A command that cannot be run, or whose proxy cannot be started, ends with the error, and
/// nothing else is told.
pub proof fn failure_is_told(
    at: StreamExec,
    reply: StreamReply,
    telling: StreamExec,
    end: StreamExec,
)
    requires
        reply is Ran && reply->Ran_0 is Err || reply is ProxyStarted && reply->ProxyStarted_0
            is Err,
        at.follows(reply, telling),
        telling.follows(StreamReply::Done, end),
    ensures
        telling.asks() matches Some(StreamEffect::SendError(status)) && match reply {
            StreamReply::Ran(Err(told)) => *status == told,
            StreamReply::ProxyStarted(Err(reason)) => {
                &&& status.code == Code::Internal
                &&& status.message@ == "failed to start ssh proxy: "@ + reason@
            },
            _ => false,
        },
        end.asks() is None,
{
}

/// A command that is planned reads the bytes of the request, has the request's time limit, and
/// is run in the sandbox of the request by the settings' secret and port. Where the sandbox has
/// no pod, it is reached under its name.
pub proof fn plan_is_for_the_request(
    world: World,
    request: ExecSandboxRequest,
    settings: ExecSettings,
    flow: ExecSandbox,
    last: ExecSandbox,
    after: World,
    steps: nat,
)
    requires
        ExecSandbox::begins(request, settings, flow),
        ends(flow, world, last, after, steps),
        last matches ExecSandbox::Done(Ok(_)),
    ensures
        last matches ExecSandbox::Done(Ok(plan)) && {
            let sandbox = world.sandboxes[request.sandbox_id@];
            &&& plan.stdin@ == request.stdin@
            &&& plan.timeout_seconds == request.timeout_seconds
            &&& plan.target_port == settings.ssh_port
            &&& plan.handshake_secret@ == settings.handshake_secret@
            &&& plan.sandbox_id@ == sandbox.id
            &&& sandbox.status is None || sandbox.status->0.agent_pod.len() == 0
                ==> plan.target_host@ == sandbox.name + "."@ + settings.namespace@
                + ".svc.cluster.local"@
        },
{
    reveal_with_fuel(ends, 3);
}

/// A command for a ready sandbox that has a name and no pod is planned, where it is not empty
/// and the names of its environment are valid.
pub proof fn ready_sandbox_runs_commands(
    world: World,
    request: ExecSandboxRequest,
    settings: ExecSettings,
    flow: ExecSandbox,
    last: ExecSandbox,
    after: World,
    steps: nat,
)
    requires
        request.sandbox_id@.len() > 0,
        request.command@.len() > 0,
        forall|key: Seq<char>| #[trigger]
            request.environment.deep_view().contains_key(key) ==> is_variable_name(key),
        world.sandboxes.contains_key(request.sandbox_id@),
        world.sandboxes[request.sandbox_id@].phase == SandboxPhase::Ready,
        world.sandboxes[request.sandbox_id@].status is None,
        world.sandboxes[request.sandbox_id@].name.len() > 0,
        ExecSandbox::begins(request, settings, flow),
        ends(flow, world, last, after, steps),
    ensures
        last matches ExecSandbox::Done(Ok(_)),
{
    assert forall|key: Seq<char>| #[trigger]
        request.environment.deep_view().contains_key(key) implies is_env_key(key) by {
        variable_names(key);
    }
    reveal_with_fuel(ends, 3);
}

/// The names that a variable may have are exactly those that begin with a letter or an
/// underscore and go on with letters, digits and underscores.
pub proof fn variable_names(key: Seq<char>)
    ensures
        is_env_key(key) <==> is_variable_name(key),
{
    if is_env_key(key) {
        assert forall|i: int| 0 <= i < key.len() implies ('a' <= #[trigger] key[i] <= 'z' || 'A'
            <= key[i] <= 'Z' || '0' <= key[i] <= '9' || key[i] == '_') by {
            if i > 0 {
                assert(key[i] == '_' || is_ascii_alphanumeric(key[i]));
            }
        }
    }
    if is_variable_name(key) {
        assert(key[0] == '_' || is_ascii_letter(key[0]));
    }
}

/// A letter or an underscore, and behind it letters, digits and underscores.
pub open spec fn is_variable_name(key: Seq<char>) -> bool {
    &&& key.len() > 0
    &&& !('0' <= key[0] <= '9')
    &&& forall|i: int|
        0 <= i < key.len() ==> ('a' <= #[trigger] key[i] <= 'z' || 'A' <= key[i] <= 'Z' || '0'
            <= key[i] <= '9' || key[i] == '_')
}

/// A sandbox that has a pod is reached at the pod's address.
pub proof fn sandbox_is_reached_at_its_pod(
    request: ExecSandboxRequest,
    settings: ExecSettings,
    flow: ExecSandbox,
    sandbox: Sandbox,
    resolving: ExecSandbox,
    ip: String,
    end: ExecSandbox,
)
    requires
        ExecSandbox::begins(request, settings, flow),
        sandbox.phase == SandboxPhase::Ready,
        sandbox.status matches Some(status) && status.agent_pod@.len() > 0,
        flow.follows(Reply::Sandbox(Ok(Some(sandbox))), resolving),
        resolving.follows(Reply::PodIp(Ok(Some(ip))), end),
    ensures
        flow.asks() == Some(Effect::SandboxById(&request.sandbox_id)),
        resolving.asks() == Some(Effect::AgentPodIp(&sandbox.status->0.agent_pod)),
        end.asks() is None,
        end.outcome() matches Ok(plan) && {
            &&& plan.target_host@ == ip@
            &&& plan.target_port == settings.ssh_port
            &&& plan.sandbox_id@ == sandbox.id@
            &&& plan.stdin@ == request.stdin@
            &&& plan.timeout_seconds == request.timeout_seconds
            &&& plan.handshake_secret@ == settings.handshake_secret@
        },
{
}

/// A request that is not complete, a sandbox that is not there, and one that is not ready are
/// each refused with a code of their own.
pub proof fn refused_commands_say_why(
    world: World,
    request: ExecSandboxRequest,
    settings: ExecSettings,
    flow: ExecSandbox,
    last: ExecSandbox,
    after: World,
    steps: nat,
)
    requires
        ExecSandbox::begins(request, settings, flow),
        ends(flow, world, last, after, steps),
    ensures
        request.sandbox_id@.len() == 0 || request.command@.len() == 0 || (exists|key: Seq<char>|
         #[trigger]
            request.environment.deep_view().contains_key(key) && !is_variable_name(key)) ==> (
        last.outcome() matches Err(status) && status.code == Code::InvalidArgument),
        request.sandbox_id@.len() > 0 && request.command@.len() > 0 && (forall|key: Seq<char>|
         #[trigger]
            request.environment.deep_view().contains_key(key) ==> is_variable_name(key))
            && !world.sandboxes.contains_key(request.sandbox_id@) ==> (last.outcome() matches Err(
            status,
        ) && status.code == Code::NotFound),
        request.sandbox_id@.len() > 0 && request.command@.len() > 0 && (forall|key: Seq<char>|
         #[trigger]
            request.environment.deep_view().contains_key(key) ==> is_variable_name(key))
            && world.sandboxes.contains_key(request.sandbox_id@)
            && world.sandboxes[request.sandbox_id@].phase != SandboxPhase::Ready ==> (
        last.outcome() matches Err(status) && status.code == Code::FailedPrecondition),
{
    let environment = request.environment.deep_view();
    assert forall|key: Seq<char>| is_env_key(key) <==> is_variable_name(key) by {
        variable_names(key);
    }
    if exists|key: Seq<char>| #[trigger]
        environment.contains_key(key) && !is_variable_name(key) {
        let key = choose|key: Seq<char>| #[trigger]
            environment.contains_key(key) && !is_variable_name(key);
        assert(!is_env_key(key));
    }
    reveal_with_fuel(ends, 3);
}

/// The shell reads `text` as `command`, with an assignment in front of it for each variable of
/// `environment` and nothing else.
pub open spec fn runs(
    text: Seq<char>,
    environment: Map<Seq<char>, Seq<char>>,
    command: Seq<Seq<char>>,
) -> bool {
    shell_words(text) matches Some(words) && {
        let n = environment.dom().len() as int;
        &&& words.len() == n + command.len()
        &&& words.skip(n) == command
        &&& forall|key: Seq<char>| #[trigger]
            environment.contains_key(key) ==> exists|i: int|
                0 <= i < n && #[trigger] words[i] == key + seq!['='] + environment[key]
    }
}

/// What is run is what the request says: its command, with the arguments in their order and
/// whatever they are made of, and its variables. Where it has a working directory, the shell
/// first changes to that directory, and runs the command only if that works.
pub proof fn request_is_what_is_run(
    environment: Map<Seq<char>, Seq<char>>,
    command: Seq<Seq<char>>,
    workdir: Seq<char>,
)
    requires
        environment.dom().finite(),
        forall|key: Seq<char>| #[trigger] environment.contains_key(key) ==> is_variable_name(key),
    ensures
        workdir.len() == 0 ==> runs(
            remote_command(environment, command, workdir),
            environment,
            command,
        ),
        workdir.len() > 0 ==> exists|change: Seq<char>, rest: Seq<char>|
            remote_command(environment, command, workdir) == #[trigger] (change + " && "@ + rest)
                && shell_words(change) == Some(seq!["cd"@, workdir]) && runs(
                rest,
                environment,
                command,
            ),
{
    assert forall|key: Seq<char>| #[trigger] environment.contains_key(key) implies is_env_key(
        key,
    ) by {
        variable_names(key);
    }
    command_text_reads_back(environment, command);
    let words = intended_words(environment, command);
    let keys = sorted_keys(environment.dom());
    lemma_sorted_keys_exist(environment.dom());
    lemma_text_lt_order();
    assert forall|i: int, j: int| 0 <= i < j < keys.len() implies keys[i] != keys[j] by {
        assert(text_lt(keys[i], keys[j]));
        assert(!text_lt(keys[i], keys[i]));
    }
    assert(keys.no_duplicates());
    keys.unique_seq_to_set();
    assert(words.skip(keys.len() as int) =~= command);
    assert forall|key: Seq<char>| #[trigger] environment.contains_key(key) implies exists|i: int|
        0 <= i < keys.len() && #[trigger] words[i] == key + seq!['='] + environment[key] by {
        assert(keys.to_set().contains(key));
        let i = choose|i: int| 0 <= i < keys.len() && keys[i] == key;
        assert(words[i] == key + seq!['='] + environment[key]);
    }
    let rest = command_text(environment, command);
    assert(runs(rest, environment, command));
    if workdir.len() > 0 {
        workdir_reads_back(workdir);
        let change = "cd "@ + shell_word(workdir);
        assert(remote_command(environment, command, workdir) == change + " && "@ + rest);
    }
}

/// A connection takes what can come of the work it asks for.
pub proof fn connections_take_what_comes(
    at: RunExec,
    result: Result<(), String>,
    let_in: Result<bool, String>,
    message: Option<ChannelMessage>,
)
    ensures
        at.asks() matches Some(effect) ==> match effect {
            RunEffect::Authenticate(_) => at.takes(RunReply::Authenticated(let_in)),
            RunEffect::Wait => at.takes(RunReply::Message(message)),
            RunEffect::Send(_) => at.takes(RunReply::Done),
            RunEffect::CloseChannel => at.takes(RunReply::Done),
            RunEffect::Disconnect => at.takes(RunReply::Done),
            _ => at.takes(RunReply::Step(result)),
        },
{
}

} // verus!
