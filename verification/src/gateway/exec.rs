//! Running a command in a sandbox.
use crate::exec_command::{
    build_remote_exec_command, is_env_key, is_valid_env_key, remote_command, ExecSandboxRequest,
};
use crate::gateway::flow::{Effect, Flow, Reply};
use crate::gateway::model::{Sandbox, SandboxPhase};
use crate::gateway::world::{ends, World};
use crate::status::{fails, Code, Status};
use crate::string_map::{lemma_sorted_keys_exist, sorted_keys, StringMap};
use crate::text::concat3;
use vstd::pervasive::unreached;
use vstd::prelude::*;

verus! {

/// Finding where a sandbox can be reached.
pub enum ResolveExecTarget {
    /// The address of the sandbox's pod is asked for.
    PodIp { agent_pod: String, ssh_port: u16 },
    Done(Result<(String, u16), Status>),
}

impl ResolveExecTarget {
    pub open spec fn failed(self, code: Code, text: Seq<char>) -> bool {
        self matches ResolveExecTarget::Done(r) && fails(r, code, text)
    }

    /// Finding where `sandbox` can be reached starts as `flow`: at its pod, where it has
    /// one, else under its name in the cluster.
    pub open spec fn begins(
        sandbox: Sandbox,
        namespace: Seq<char>,
        ssh_port: u16,
        flow: Self,
    ) -> bool {
        if sandbox.status matches Some(status) && status.agent_pod@.len() > 0 {
            flow == (ResolveExecTarget::PodIp {
                agent_pod: sandbox.status->0.agent_pod,
                ssh_port,
            })
        } else if sandbox.name@.len() == 0 {
            flow.failed(Code::FailedPrecondition, "sandbox has no name"@)
        } else {
            flow matches ResolveExecTarget::Done(Ok(target)) && target.0@ == sandbox.name@ + "."@
                + namespace + ".svc.cluster.local"@ && target.1 == ssh_port
        }
    }
}

/// Starts finding where `sandbox` can be reached.
pub fn resolve_sandbox_exec_target(sandbox: &Sandbox, namespace: &str, ssh_port: u16) -> (flow:
    ResolveExecTarget)
    ensures
        ResolveExecTarget::begins(*sandbox, namespace@, ssh_port, flow),
{
    if let Some(status) = &sandbox.status {
        if !status.agent_pod.as_str().is_empty() {
            return ResolveExecTarget::PodIp { agent_pod: status.agent_pod.clone(), ssh_port };
        }
    }
    if sandbox.name.as_str().is_empty() {
        return ResolveExecTarget::Done(
            Err(Status::new(Code::FailedPrecondition, "sandbox has no name")),
        );
    }
    let mut host = concat3(sandbox.name.as_str(), ".", namespace);
    host.append(".svc.cluster.local");
    ResolveExecTarget::Done(Ok((host, ssh_port)))
}

impl Flow for ResolveExecTarget {
    type Output = (String, u16);

    open spec fn asks(&self) -> Option<Effect<'_>> {
        match self {
            ResolveExecTarget::PodIp { agent_pod, .. } => Some(Effect::AgentPodIp(agent_pod)),
            ResolveExecTarget::Done(_) => None,
        }
    }

    open spec fn follows(&self, reply: Reply, next: Self) -> bool {
        match (*self, reply) {
            (ResolveExecTarget::PodIp { ssh_port, .. }, Reply::PodIp(found)) => match found {
                Ok(Some(ip)) => next == ResolveExecTarget::Done(Ok((ip, ssh_port))),
                Ok(None) => next.failed(
                    Code::FailedPrecondition,
                    "sandbox agent pod IP is not available"@,
                ),
                Err(e) => next.failed(Code::Internal, "failed to resolve agent pod IP: "@ + e@),
            },
            _ => false,
        }
    }

    open spec fn outcome(&self) -> Result<(String, u16), Status> {
        self->0
    }

    fn effect(&self) -> (r: Option<Effect<'_>>) {
        match self {
            ResolveExecTarget::PodIp { agent_pod, .. } => Some(Effect::AgentPodIp(agent_pod)),
            ResolveExecTarget::Done(_) => None,
        }
    }

    fn resume(self, reply: Reply) -> (next: Self) {
        match (self, reply) {
            (ResolveExecTarget::PodIp { ssh_port, .. }, Reply::PodIp(found)) => match found {
                Ok(Some(ip)) => ResolveExecTarget::Done(Ok((ip, ssh_port))),
                Ok(None) => ResolveExecTarget::Done(
                    Err(
                        Status::new(
                            Code::FailedPrecondition,
                            "sandbox agent pod IP is not available",
                        ),
                    ),
                ),
                Err(e) => ResolveExecTarget::Done(
                    Err(Status::internal("failed to resolve agent pod IP: ", e.as_str())),
                ),
            },
            _ => unreached(),
        }
    }

    fn finish(self) -> (r: Result<(String, u16), Status>) {
        match self {
            ResolveExecTarget::Done(r) => r,
            _ => unreached(),
        }
    }
}

/// The settings that running a command depends on.
#[derive(Debug)]
pub struct ExecSettings {
    pub namespace: String,
    pub ssh_port: u16,
    pub handshake_secret: String,
}

/// What to run, and where.
#[derive(Debug)]
pub struct ExecPlan {
    pub sandbox_id: String,
    pub target_host: String,
    pub target_port: u16,
    pub command: String,
    pub stdin: Vec<u8>,
    pub timeout_seconds: u32,
    pub handshake_secret: String,
}

/// `plan` runs what `request` asks for in the sandbox `sandbox_id` at `target`.
pub open spec fn carries_out(
    plan: ExecPlan,
    request: ExecSandboxRequest,
    sandbox_id: String,
    target: (String, u16),
    handshake_secret: String,
) -> bool {
    &&& plan.sandbox_id == sandbox_id
    &&& plan.target_host == target.0
    &&& plan.target_port == target.1
    &&& plan.command@ == remote_command(
        request.environment.deep_view(),
        request.command.deep_view(),
        request.workdir@,
    )
    &&& plan.stdin == request.stdin
    &&& plan.timeout_seconds == request.timeout_seconds
    &&& plan.handshake_secret == handshake_secret
}

/// Preparing to run a command in a sandbox.
pub enum ExecSandbox {
    FetchSandbox { request: ExecSandboxRequest, settings: ExecSettings },
    /// The address of the sandbox's pod is asked for.
    Resolve {
        request: ExecSandboxRequest,
        sandbox_id: String,
        handshake_secret: String,
        agent_pod: String,
        ssh_port: u16,
    },
    Done(Result<ExecPlan, Status>),
}

/// Every variable of an environment has a valid name.
pub open spec fn valid_environment(environment: Map<Seq<char>, Seq<char>>) -> bool {
    forall|key: Seq<char>| #[trigger] environment.contains_key(key) ==> is_env_key(key)
}

fn environment_is_valid(environment: &StringMap<String>) -> (r: bool)
    ensures
        r == valid_environment(environment.deep_view()),
{
    let n = environment.len();
    let ghost keys = sorted_keys(environment@.dom());
    let ghost view = environment.deep_view();
    proof {
        lemma_sorted_keys_exist(environment@.dom());
    }
    for i in 0..n
        invariant
            view == environment.deep_view(),
            keys == sorted_keys(environment@.dom()),
            n == keys.len(),
            forall|j: int| 0 <= j < i ==> is_env_key(#[trigger] keys[j]),
    {
        let key = environment.key_at(i);
        if !is_valid_env_key(key.as_str()) {
            assert(view.contains_key(key@));
            return false;
        }
    }
    proof {
        assert forall|key: Seq<char>| #[trigger] view.contains_key(key) implies is_env_key(key) by {
            assert(keys.to_set().contains(key));
            let i = choose|i: int| 0 <= i < keys.len() && keys[i] == key;
            assert(is_env_key(keys[i]));
        }
    }
    true
}

impl ExecSandbox {
    pub open spec fn failed(self, code: Code, text: Seq<char>) -> bool {
        self matches ExecSandbox::Done(r) && fails(r, code, text)
    }

    /// Preparing to run what `request` asks for starts as `flow`.
    pub open spec fn begins(
        request: ExecSandboxRequest,
        settings: ExecSettings,
        flow: Self,
    ) -> bool {
        if request.sandbox_id@.len() == 0 {
            flow.failed(Code::InvalidArgument, "sandbox_id is required"@)
        } else if request.command@.len() == 0 {
            flow.failed(Code::InvalidArgument, "command is required"@)
        } else if !valid_environment(request.environment.deep_view()) {
            flow.failed(
                Code::InvalidArgument,
                "environment keys must match ^[A-Za-z_][A-Za-z0-9_]*$"@,
            )
        } else {
            flow == (ExecSandbox::FetchSandbox { request, settings })
        }
    }

    /// Starts preparing to run what `request` asks for.
    pub fn begin(request: ExecSandboxRequest, settings: ExecSettings) -> (flow: Self)
        ensures
            Self::begins(request, settings, flow),
    {
        if request.sandbox_id.as_str().is_empty() {
            return ExecSandbox::Done(
                Err(Status::new(Code::InvalidArgument, "sandbox_id is required")),
            );
        }
        if request.command.len() == 0 {
            return ExecSandbox::Done(
                Err(Status::new(Code::InvalidArgument, "command is required")),
            );
        }
        if !environment_is_valid(&request.environment) {
            return ExecSandbox::Done(
                Err(
                    Status::new(
                        Code::InvalidArgument,
                        "environment keys must match ^[A-Za-z_][A-Za-z0-9_]*$",
                    ),
                ),
            );
        }
        ExecSandbox::FetchSandbox { request, settings }
    }

    /// With the search for the sandbox's address at `target`, preparing goes on as `next`.
    pub open spec fn plans(
        request: ExecSandboxRequest,
        sandbox_id: String,
        handshake_secret: String,
        target: ResolveExecTarget,
        next: Self,
    ) -> bool {
        match target {
            ResolveExecTarget::Done(Ok(found)) => next matches ExecSandbox::Done(Ok(plan))
                && carries_out(plan, request, sandbox_id, found, handshake_secret),
            ResolveExecTarget::Done(Err(status)) => next == ExecSandbox::Done(Err(status)),
            ResolveExecTarget::PodIp { agent_pod, ssh_port } => next == (ExecSandbox::Resolve {
                request,
                sandbox_id,
                handshake_secret,
                agent_pod,
                ssh_port,
            }),
        }
    }

    fn plan(
        request: ExecSandboxRequest,
        sandbox_id: String,
        handshake_secret: String,
        target: ResolveExecTarget,
    ) -> (next: Self)
        ensures
            Self::plans(request, sandbox_id, handshake_secret, target, next),
    {
        match target {
            ResolveExecTarget::Done(Ok(found)) => {
                let command = build_remote_exec_command(&request);
                ExecSandbox::Done(
                    Ok(
                        ExecPlan {
                            sandbox_id,
                            target_host: found.0,
                            target_port: found.1,
                            command,
                            stdin: request.stdin,
                            timeout_seconds: request.timeout_seconds,
                            handshake_secret,
                        },
                    ),
                )
            },
            ResolveExecTarget::Done(Err(status)) => ExecSandbox::Done(Err(status)),
            ResolveExecTarget::PodIp { agent_pod, ssh_port } => ExecSandbox::Resolve {
                request,
                sandbox_id,
                handshake_secret,
                agent_pod,
                ssh_port,
            },
        }
    }
}

impl Flow for ExecSandbox {
    type Output = ExecPlan;

    open spec fn asks(&self) -> Option<Effect<'_>> {
        match self {
            ExecSandbox::FetchSandbox { request, .. } => Some(
                Effect::SandboxById(&request.sandbox_id),
            ),
            ExecSandbox::Resolve { agent_pod, .. } => Some(Effect::AgentPodIp(agent_pod)),
            ExecSandbox::Done(_) => None,
        }
    }

    open spec fn follows(&self, reply: Reply, next: Self) -> bool {
        match (*self, reply) {
            (
                ExecSandbox::FetchSandbox { request, settings },
                Reply::Sandbox(found),
            ) => match found {
                Err(e) => next.failed(Code::Internal, "fetch sandbox failed: "@ + e@),
                Ok(None) => next.failed(Code::NotFound, "sandbox not found"@),
                Ok(Some(sandbox)) => if sandbox.phase != SandboxPhase::Ready {
                    next.failed(Code::FailedPrecondition, "sandbox is not ready"@)
                } else {
                    exists|target: ResolveExecTarget| #[trigger]
                        ResolveExecTarget::begins(
                            sandbox,
                            settings.namespace@,
                            settings.ssh_port,
                            target,
                        ) && Self::plans(
                            request,
                            sandbox.id,
                            settings.handshake_secret,
                            target,
                            next,
                        )
                },
            },
            (
                ExecSandbox::Resolve {
                    request,
                    sandbox_id,
                    handshake_secret,
                    agent_pod,
                    ssh_port,
                },
                reply,
            ) => exists|found: ResolveExecTarget| #[trigger]
                (ResolveExecTarget::PodIp { agent_pod, ssh_port }).follows(reply, found)
                    && Self::plans(
                    request,
                    sandbox_id,
                    handshake_secret,
                    found,
                    next,
                ),
            _ => false,
        }
    }

    open spec fn outcome(&self) -> Result<ExecPlan, Status> {
        self->0
    }

    fn effect(&self) -> (r: Option<Effect<'_>>) {
        match self {
            ExecSandbox::FetchSandbox { request, .. } => Some(
                Effect::SandboxById(&request.sandbox_id),
            ),
            ExecSandbox::Resolve { agent_pod, .. } => Some(Effect::AgentPodIp(agent_pod)),
            ExecSandbox::Done(_) => None,
        }
    }

    fn resume(self, reply: Reply) -> (next: Self) {
        match self {
            ExecSandbox::FetchSandbox { request, settings } => match reply {
                Reply::Sandbox(found) => match found {
                    Err(e) => ExecSandbox::Done(
                        Err(Status::internal("fetch sandbox failed: ", e.as_str())),
                    ),
                    Ok(None) => ExecSandbox::Done(
                        Err(Status::new(Code::NotFound, "sandbox not found")),
                    ),
                    Ok(Some(sandbox)) => {
                        if sandbox.phase != SandboxPhase::Ready {
                            return ExecSandbox::Done(
                                Err(Status::new(Code::FailedPrecondition, "sandbox is not ready")),
                            );
                        }
                        let target = resolve_sandbox_exec_target(
                            &sandbox,
                            settings.namespace.as_str(),
                            settings.ssh_port,
                        );
                        Self::plan(request, sandbox.id, settings.handshake_secret, target)
                    },
                },
                _ => unreached(),
            },
            ExecSandbox::Resolve {
                request,
                sandbox_id,
                handshake_secret,
                agent_pod,
                ssh_port,
            } => {
                let target = ResolveExecTarget::PodIp { agent_pod, ssh_port };
                let found = target.resume(reply);
                Self::plan(request, sandbox_id, handshake_secret, found)
            },
            ExecSandbox::Done(_) => unreached(),
        }
    }

    fn finish(self) -> (r: Result<ExecPlan, Status>) {
        match self {
            ExecSandbox::Done(r) => r,
            _ => unreached(),
        }
    }
}

/// An event of a running command.
#[derive(Debug)]
pub enum ExecSandboxEvent {
    Stdout(Vec<u8>),
    Stderr(Vec<u8>),
    Exit(i32),
}

/// The exit code of a command that took too long.
pub const TIMED_OUT: i32 = 124;

/// How long a command may take: zero stands for no limit.
pub open spec fn time_limit(timeout_seconds: u32) -> Option<u32> {
    if timeout_seconds == 0 {
        None
    } else {
        Some(timeout_seconds)
    }
}

fn limit_of(timeout_seconds: u32) -> (r: Option<u32>)
    ensures
        r == time_limit(timeout_seconds),
{
    if timeout_seconds == 0 {
        None
    } else {
        Some(timeout_seconds)
    }
}

/// Work that running a command asks for.
#[derive(Debug)]
pub enum StreamEffect<'a> {
    /// Start a proxy to the sandbox.
    StartProxy { host: &'a String, port: u16, secret: &'a String },
    /// Run the command through the proxy at `port`, for `limit_seconds` at most where
    /// there is such a limit.
    Run { port: u16, command: &'a String, stdin: &'a Vec<u8>, limit_seconds: Option<u32> },
    /// Wait for the proxy to end.
    JoinProxy,
    /// Send an event to the client.
    Send(&'a ExecSandboxEvent),
    /// Send an error to the client.
    SendError(&'a Status),
}

/// What came of the work that running a command asked for.
#[derive(Debug)]
pub enum StreamReply {
    /// The port that the proxy listens on.
    ProxyStarted(Result<u16, String>),
    /// The command's exit code, or why it could not be run.
    Ran(Result<i32, Status>),
    /// The command took too long.
    TimedOut,
    Done,
}

/// Running a command and telling the client of its end.
pub enum StreamExec {
    StartProxy { plan: ExecPlan },
    Run { port: u16, command: String, stdin: Vec<u8>, limit_seconds: Option<u32> },
    /// The command took too long: the client is told, and the proxy ends.
    SendTimeout { event: ExecSandboxEvent },
    JoinTimedOut,
    /// The command has ended: the proxy ends, and the client is told.
    Join { exit_code: i32 },
    SendExit { event: ExecSandboxEvent },
    /// The command could not be run.
    SendError { status: Status },
    Done,
}

impl StreamExec {
    /// Carrying out `plan` starts as `flow`.
    pub open spec fn begins(plan: ExecPlan, flow: Self) -> bool {
        flow == (StreamExec::StartProxy { plan })
    }

    /// Starts carrying out `plan`.
    pub fn begin(plan: ExecPlan) -> (flow: Self)
        ensures
            flow == (StreamExec::StartProxy { plan }),
            Self::begins(plan, flow),
    {
        StreamExec::StartProxy { plan }
    }

    /// The work that comes next; `None` once all is done.
    pub open spec fn asks(&self) -> Option<StreamEffect<'_>> {
        match self {
            StreamExec::StartProxy { plan } => Some(
                StreamEffect::StartProxy {
                    host: &plan.target_host,
                    port: plan.target_port,
                    secret: &plan.handshake_secret,
                },
            ),
            StreamExec::Run { port, command, stdin, limit_seconds } => Some(
                StreamEffect::Run {
                    port: *port,
                    command,
                    stdin,
                    limit_seconds: *limit_seconds,
                },
            ),
            StreamExec::SendTimeout { event } => Some(StreamEffect::Send(event)),
            StreamExec::JoinTimedOut => Some(StreamEffect::JoinProxy),
            StreamExec::Join { .. } => Some(StreamEffect::JoinProxy),
            StreamExec::SendExit { event } => Some(StreamEffect::Send(event)),
            StreamExec::SendError { status } => Some(StreamEffect::SendError(status)),
            StreamExec::Done => None,
        }
    }

    /// Running the command can go on from `reply`. A command without a limit cannot take
    /// too long.
    pub open spec fn takes(&self, reply: StreamReply) -> bool {
        match self {
            StreamExec::StartProxy { .. } => reply is ProxyStarted,
            StreamExec::Run { limit_seconds, .. } => reply is Ran || (reply is TimedOut
                && *limit_seconds is Some),
            StreamExec::Done => false,
            _ => reply is Done,
        }
    }

    /// Whether running the command can go on from `reply`.
    pub fn can_take(&self, reply: &StreamReply) -> (r: bool)
        ensures
            r == self.takes(*reply),
    {
        match (self, reply) {
            (StreamExec::StartProxy { .. }, StreamReply::ProxyStarted(_)) => true,
            (StreamExec::Run { .. }, StreamReply::Ran(_)) => true,
            (StreamExec::Run { limit_seconds, .. }, StreamReply::TimedOut) => {
                limit_seconds.is_some()
            },
            (StreamExec::SendTimeout { .. }, StreamReply::Done) => true,
            (StreamExec::JoinTimedOut, StreamReply::Done) => true,
            (StreamExec::Join { .. }, StreamReply::Done) => true,
            (StreamExec::SendExit { .. }, StreamReply::Done) => true,
            (StreamExec::SendError { .. }, StreamReply::Done) => true,
            _ => false,
        }
    }

    /// From here, `reply` leads to `next`.
    pub open spec fn follows(&self, reply: StreamReply, next: Self) -> bool {
        match (*self, reply) {
            (StreamExec::StartProxy { plan }, StreamReply::ProxyStarted(started)) => match started {
                Err(e) => next matches StreamExec::SendError { status } && status.says(
                    Code::Internal,
                    "failed to start ssh proxy: "@ + e@,
                ),
                Ok(port) => next == (StreamExec::Run {
                    port,
                    command: plan.command,
                    stdin: plan.stdin,
                    limit_seconds: time_limit(plan.timeout_seconds),
                }),
            },
            (StreamExec::Run { .. }, StreamReply::Ran(ran)) => match ran {
                Err(status) => next == (StreamExec::SendError { status }),
                Ok(exit_code) => next == (StreamExec::Join { exit_code }),
            },
            (StreamExec::Run { .. }, StreamReply::TimedOut) => next == (StreamExec::SendTimeout {
                event: ExecSandboxEvent::Exit(TIMED_OUT),
            }),
            (StreamExec::SendTimeout { .. }, StreamReply::Done) => next
                == StreamExec::JoinTimedOut,
            (StreamExec::JoinTimedOut, StreamReply::Done) => next == StreamExec::Done,
            (StreamExec::Join { exit_code }, StreamReply::Done) => next == (StreamExec::SendExit {
                event: ExecSandboxEvent::Exit(exit_code),
            }),
            (StreamExec::SendExit { .. }, StreamReply::Done) => next == StreamExec::Done,
            (StreamExec::SendError { .. }, StreamReply::Done) => next == StreamExec::Done,
            _ => false,
        }
    }

    /// The work that comes next; `None` once all is done.
    pub fn effect(&self) -> (r: Option<StreamEffect<'_>>)
        ensures
            r == self.asks(),
    {
        match self {
            StreamExec::StartProxy { plan } => Some(
                StreamEffect::StartProxy {
                    host: &plan.target_host,
                    port: plan.target_port,
                    secret: &plan.handshake_secret,
                },
            ),
            StreamExec::Run { port, command, stdin, limit_seconds } => Some(
                StreamEffect::Run {
                    port: *port,
                    command,
                    stdin,
                    limit_seconds: *limit_seconds,
                },
            ),
            StreamExec::SendTimeout { event } => Some(StreamEffect::Send(event)),
            StreamExec::JoinTimedOut => Some(StreamEffect::JoinProxy),
            StreamExec::Join { .. } => Some(StreamEffect::JoinProxy),
            StreamExec::SendExit { event } => Some(StreamEffect::Send(event)),
            StreamExec::SendError { status } => Some(StreamEffect::SendError(status)),
            StreamExec::Done => None,
        }
    }

    /// Goes on from what came of the work.
    pub fn resume(self, reply: StreamReply) -> (next: Self)
        requires
            self.takes(reply),
        ensures
            self.follows(reply, next),
    {
        match (self, reply) {
            (StreamExec::StartProxy { plan }, StreamReply::ProxyStarted(started)) => match started {
                Err(e) => StreamExec::SendError {
                    status: Status::internal("failed to start ssh proxy: ", e.as_str()),
                },
                Ok(port) => StreamExec::Run {
                    port,
                    command: plan.command,
                    stdin: plan.stdin,
                    limit_seconds: limit_of(plan.timeout_seconds),
                },
            },
            (StreamExec::Run { .. }, StreamReply::Ran(ran)) => match ran {
                Err(status) => StreamExec::SendError { status },
                Ok(exit_code) => StreamExec::Join { exit_code },
            },
            (StreamExec::Run { .. }, StreamReply::TimedOut) => StreamExec::SendTimeout {
                event: ExecSandboxEvent::Exit(TIMED_OUT),
            },
            (StreamExec::SendTimeout { .. }, StreamReply::Done) => StreamExec::JoinTimedOut,
            (StreamExec::JoinTimedOut, StreamReply::Done) => StreamExec::Done,
            (StreamExec::Join { exit_code }, StreamReply::Done) => StreamExec::SendExit {
                event: ExecSandboxEvent::Exit(exit_code),
            },
            (StreamExec::SendExit { .. }, StreamReply::Done) => StreamExec::Done,
            (StreamExec::SendError { .. }, StreamReply::Done) => StreamExec::Done,
            _ => unreached(),
        }
    }
}

impl StreamExec {
    /// The client has been told how the command ended.
    pub open spec fn told(self) -> bool {
        self is JoinTimedOut || self is Done
    }

    /// What is about to be sent is an exit code.
    pub open spec fn valid(self) -> bool {
        match self {
            StreamExec::SendTimeout { event } => event is Exit,
            StreamExec::SendExit { event } => event is Exit,
            _ => true,
        }
    }
}

/// The client is told how a command ended exactly once: whatever is sent is an exit code or
/// an error, it is sent while the client has not been told, and nothing is sent after it.
pub proof fn client_is_told_once(at: StreamExec, reply: StreamReply, next: StreamExec)
    requires
        at.valid(),
        at.follows(reply, next),
    ensures
        next.valid(),
        next.told() <==> at.told() || (at.asks() matches Some(effect) && (effect is Send
            || effect is SendError)),
        at.asks() matches Some(StreamEffect::Send(event)) ==> !at.told() && event is Exit,
        at.asks() matches Some(StreamEffect::SendError(_)) ==> !at.told(),
{
}

/// A command is run only in a sandbox that is there and ready, and with an environment whose
/// names are all valid. What is run is the command that was asked for.
pub proof fn commands_run_in_ready_sandboxes(
    world: World,
    request: ExecSandboxRequest,
    settings: ExecSettings,
    flow: ExecSandbox,
    last: ExecSandbox,
    after: World,
    steps: nat,
)
    requires
        ExecSandbox::begins(request, settings, flow),
        ends(flow, world, last, after, steps),
    ensures
        after == world,
        match last {
            ExecSandbox::Done(Ok(plan)) => {
                &&& world.sandboxes.contains_key(request.sandbox_id@)
                &&& world.sandboxes[request.sandbox_id@].phase == SandboxPhase::Ready
                &&& valid_environment(request.environment.deep_view())
                &&& plan.sandbox_id@ == world.sandboxes[request.sandbox_id@].id
                &&& plan.command@ == remote_command(
                    request.environment.deep_view(),
                    request.command.deep_view(),
                    request.workdir@,
                )
            },
            ExecSandbox::Done(Err(_)) => true,
            _ => false,
        },
{
    reveal_with_fuel(ends, 3);
}

/// The user that a command runs as.
pub const SSH_USER: &'static str = "sandbox";

/// Work that the shell connection asks for.
#[derive(Debug)]
pub enum RunEffect<'a> {
    /// Connect to the proxy at this port.
    Connect(u16),
    /// Agree on the transport.
    Transport,
    /// Authenticate as this user, without a credential.
    Authenticate(&'static str),
    OpenChannel,
    /// Have the command executed.
    Execute(&'a String),
    /// Send what the command is to read.
    SendInput(&'a Vec<u8>),
    CloseInput,
    /// Wait for a message on the channel.
    Wait,
    /// Send an event to the client.
    Send(&'a ExecSandboxEvent),
    CloseChannel,
    Disconnect,
}

/// A message on the channel of a running command.
#[derive(Debug)]
pub enum ChannelMessage {
    Data(Vec<u8>),
    ExtendedData(Vec<u8>),
    ExitStatus(u32),
    Close,
    Other,
}

/// What came of the work that the shell connection asked for.
#[derive(Debug)]
pub enum RunReply {
    /// Whether a step worked, or why not.
    Step(Result<(), String>),
    /// Whether the user was let in, or why that could not be told.
    Authenticated(Result<bool, String>),
    /// The next message, if the channel has one left.
    Message(Option<ChannelMessage>),
    Done,
}

/// The shell connection that runs a command.
pub enum RunExec {
    Connect { port: u16, command: String, stdin: Vec<u8> },
    Transport { command: String, stdin: Vec<u8> },
    Authenticate { command: String, stdin: Vec<u8> },
    OpenChannel { command: String, stdin: Vec<u8> },
    Execute { command: String, stdin: Vec<u8> },
    SendInput { stdin: Vec<u8> },
    CloseInput,
    /// The command runs. `exit_code` is the last one that was reported.
    Wait { exit_code: Option<i32> },
    Send { event: ExecSandboxEvent, exit_code: Option<i32> },
    CloseChannel { exit_code: Option<i32> },
    Disconnect { exit_code: Option<i32> },
    Done(Result<i32, Status>),
}

/// An exit status as an exit code: the largest one where it does not fit.
pub open spec fn exit_code_of(exit_status: u32) -> i32 {
    if exit_status <= i32::MAX {
        exit_status as i32
    } else {
        i32::MAX
    }
}

fn convert_exit_status(exit_status: u32) -> (r: i32)
    ensures
        r == exit_code_of(exit_status),
{
    if exit_status <= 0x7FFF_FFFF {
        exit_status as i32
    } else {
        i32::MAX
    }
}

impl RunExec {
    pub open spec fn failed(self, code: Code, text: Seq<char>) -> bool {
        self matches RunExec::Done(r) && fails(r, code, text)
    }

    /// Running `command` through the proxy at `port`, with `stdin` to read, starts as `flow`.
    pub open spec fn begins(port: u16, command: String, stdin: Vec<u8>, flow: Self) -> bool {
        flow == (RunExec::Connect { port, command, stdin })
    }

    /// Starts running `command` through the proxy at `local_proxy_port`, with `stdin_payload` to
    /// read.
    pub fn run_exec_with_russh(
        local_proxy_port: u16,
        command: String,
        stdin_payload: Vec<u8>,
    ) -> (flow: Self)
        ensures
            flow == (RunExec::Connect { port: local_proxy_port, command, stdin: stdin_payload }),
            Self::begins(local_proxy_port, command, stdin_payload, flow),
    {
        RunExec::Connect { port: local_proxy_port, command, stdin: stdin_payload }
    }

    /// The work that comes next; `None` once the connection is over.
    pub open spec fn asks(&self) -> Option<RunEffect<'_>> {
        match self {
            RunExec::Connect { port, .. } => Some(RunEffect::Connect(*port)),
            RunExec::Transport { .. } => Some(RunEffect::Transport),
            RunExec::Authenticate { .. } => Some(RunEffect::Authenticate(SSH_USER)),
            RunExec::OpenChannel { .. } => Some(RunEffect::OpenChannel),
            RunExec::Execute { command, .. } => Some(RunEffect::Execute(command)),
            RunExec::SendInput { stdin } => Some(RunEffect::SendInput(stdin)),
            RunExec::CloseInput => Some(RunEffect::CloseInput),
            RunExec::Wait { .. } => Some(RunEffect::Wait),
            RunExec::Send { event, .. } => Some(RunEffect::Send(event)),
            RunExec::CloseChannel { .. } => Some(RunEffect::CloseChannel),
            RunExec::Disconnect { .. } => Some(RunEffect::Disconnect),
            RunExec::Done(_) => None,
        }
    }

    /// The connection can go on from `reply`.
    pub open spec fn takes(&self, reply: RunReply) -> bool {
        match self {
            RunExec::Connect { .. } => reply is Step,
            RunExec::Transport { .. } => reply is Step,
            RunExec::Authenticate { .. } => reply is Authenticated,
            RunExec::OpenChannel { .. } => reply is Step,
            RunExec::Execute { .. } => reply is Step,
            RunExec::SendInput { .. } => reply is Step,
            RunExec::CloseInput => reply is Step,
            RunExec::Wait { .. } => reply is Message,
            RunExec::Send { .. } => reply is Done,
            RunExec::CloseChannel { .. } => reply is Done,
            RunExec::Disconnect { .. } => reply is Done,
            RunExec::Done(_) => false,
        }
    }

    /// Whether the connection can go on from `reply`.
    pub fn can_take(&self, reply: &RunReply) -> (r: bool)
        ensures
            r == self.takes(*reply),
    {
        match (self, reply) {
            (RunExec::Connect { .. }, RunReply::Step(_)) => true,
            (RunExec::Transport { .. }, RunReply::Step(_)) => true,
            (RunExec::Authenticate { .. }, RunReply::Authenticated(_)) => true,
            (RunExec::OpenChannel { .. }, RunReply::Step(_)) => true,
            (RunExec::Execute { .. }, RunReply::Step(_)) => true,
            (RunExec::SendInput { .. }, RunReply::Step(_)) => true,
            (RunExec::CloseInput, RunReply::Step(_)) => true,
            (RunExec::Wait { .. }, RunReply::Message(_)) => true,
            (RunExec::Send { .. }, RunReply::Done) => true,
            (RunExec::CloseChannel { .. }, RunReply::Done) => true,
            (RunExec::Disconnect { .. }, RunReply::Done) => true,
            _ => false,
        }
    }

    /// A step that did not work ends the connection with an error; one that did leads to
    /// `onward`.
    pub open spec fn steps(
        result: Result<(), String>,
        attempt: Seq<char>,
        onward: Self,
        next: Self,
    ) -> bool {
        match result {
            Err(e) => next.failed(Code::Internal, attempt + e@),
            Ok(_) => next == onward,
        }
    }

    fn step(result: Result<(), String>, attempt: &str, onward: Self) -> (next: Self)
        ensures
            Self::steps(result, attempt@, onward, next),
    {
        match result {
            Err(e) => RunExec::Done(Err(Status::internal(attempt, e.as_str()))),
            Ok(_) => onward,
        }
    }

    /// From here, `reply` leads to `next`. A command that never reports an exit status ends
    /// with the code one.
    pub open spec fn follows(&self, reply: RunReply, next: Self) -> bool {
        match (*self, reply) {
            (RunExec::Connect { command, stdin, .. }, RunReply::Step(result)) => Self::steps(
                result,
                "failed to connect to ssh proxy: "@,
                RunExec::Transport { command, stdin },
                next,
            ),
            (RunExec::Transport { command, stdin }, RunReply::Step(result)) => Self::steps(
                result,
                "failed to establish ssh transport: "@,
                RunExec::Authenticate { command, stdin },
                next,
            ),
            (
                RunExec::Authenticate { command, stdin },
                RunReply::Authenticated(result),
            ) => match result {
                Err(e) => next.failed(
                    Code::Internal,
                    "failed to authenticate ssh session: "@ + e@,
                ),
                Ok(false) => next.failed(
                    Code::PermissionDenied,
                    "ssh authentication rejected by sandbox"@,
                ),
                Ok(true) => next == (RunExec::OpenChannel { command, stdin }),
            },
            (RunExec::OpenChannel { command, stdin }, RunReply::Step(result)) => Self::steps(
                result,
                "failed to open ssh channel: "@,
                RunExec::Execute { command, stdin },
                next,
            ),
            (RunExec::Execute { stdin, .. }, RunReply::Step(result)) => Self::steps(
                result,
                "failed to execute command over ssh: "@,
                if stdin@.len() == 0 {
                    RunExec::CloseInput
                } else {
                    RunExec::SendInput { stdin }
                },
                next,
            ),
            (RunExec::SendInput { .. }, RunReply::Step(result)) => Self::steps(
                result,
                "failed to send ssh stdin payload: "@,
                RunExec::CloseInput,
                next,
            ),
            (RunExec::CloseInput, RunReply::Step(result)) => Self::steps(
                result,
                "failed to close ssh stdin: "@,
                RunExec::Wait { exit_code: None },
                next,
            ),
            (RunExec::Wait { exit_code }, RunReply::Message(message)) => match message {
                None => next == (RunExec::CloseChannel { exit_code }),
                Some(ChannelMessage::Close) => next == (RunExec::CloseChannel { exit_code }),
                Some(ChannelMessage::Data(data)) => next == (RunExec::Send {
                    event: ExecSandboxEvent::Stdout(data),
                    exit_code,
                }),
                Some(ChannelMessage::ExtendedData(data)) => next == (RunExec::Send {
                    event: ExecSandboxEvent::Stderr(data),
                    exit_code,
                }),
                Some(ChannelMessage::ExitStatus(exit_status)) => next == (RunExec::Wait {
                    exit_code: Some(exit_code_of(exit_status)),
                }),
                Some(ChannelMessage::Other) => next == (RunExec::Wait { exit_code }),
            },
            (RunExec::Send { exit_code, .. }, RunReply::Done) => next == (RunExec::Wait {
                exit_code,
            }),
            (RunExec::CloseChannel { exit_code }, RunReply::Done) => next == (RunExec::Disconnect {
                exit_code,
            }),
            (RunExec::Disconnect { exit_code }, RunReply::Done) => next == RunExec::Done(
                Ok(
                    match exit_code {
                        Some(code) => code,
                        None => 1,
                    },
                ),
            ),
            _ => false,
        }
    }

    /// The work that comes next; `None` once the connection is over.
    pub fn effect(&self) -> (r: Option<RunEffect<'_>>)
        ensures
            r == self.asks(),
    {
        match self {
            RunExec::Connect { port, .. } => Some(RunEffect::Connect(*port)),
            RunExec::Transport { .. } => Some(RunEffect::Transport),
            RunExec::Authenticate { .. } => Some(RunEffect::Authenticate(SSH_USER)),
            RunExec::OpenChannel { .. } => Some(RunEffect::OpenChannel),
            RunExec::Execute { command, .. } => Some(RunEffect::Execute(command)),
            RunExec::SendInput { stdin } => Some(RunEffect::SendInput(stdin)),
            RunExec::CloseInput => Some(RunEffect::CloseInput),
            RunExec::Wait { .. } => Some(RunEffect::Wait),
            RunExec::Send { event, .. } => Some(RunEffect::Send(event)),
            RunExec::CloseChannel { .. } => Some(RunEffect::CloseChannel),
            RunExec::Disconnect { .. } => Some(RunEffect::Disconnect),
            RunExec::Done(_) => None,
        }
    }

    /// Goes on from what came of the work.
    pub fn resume(self, reply: RunReply) -> (next: Self)
        requires
            self.takes(reply),
        ensures
            self.follows(reply, next),
    {
        match (self, reply) {
            (RunExec::Connect { command, stdin, .. }, RunReply::Step(result)) => Self::step(
                result,
                "failed to connect to ssh proxy: ",
                RunExec::Transport { command, stdin },
            ),
            (RunExec::Transport { command, stdin }, RunReply::Step(result)) => Self::step(
                result,
                "failed to establish ssh transport: ",
                RunExec::Authenticate { command, stdin },
            ),
            (
                RunExec::Authenticate { command, stdin },
                RunReply::Authenticated(result),
            ) => match result {
                Err(e) => RunExec::Done(
                    Err(Status::internal("failed to authenticate ssh session: ", e.as_str())),
                ),
                Ok(let_in) => if let_in {
                    RunExec::OpenChannel { command, stdin }
                } else {
                    RunExec::Done(
                        Err(
                            Status::new(
                                Code::PermissionDenied,
                                "ssh authentication rejected by sandbox",
                            ),
                        ),
                    )
                },
            },
            (RunExec::OpenChannel { command, stdin }, RunReply::Step(result)) => Self::step(
                result,
                "failed to open ssh channel: ",
                RunExec::Execute { command, stdin },
            ),
            (RunExec::Execute { stdin, .. }, RunReply::Step(result)) => {
                let onward = if stdin.len() == 0 {
                    RunExec::CloseInput
                } else {
                    RunExec::SendInput { stdin }
                };
                Self::step(result, "failed to execute command over ssh: ", onward)
            },
            (RunExec::SendInput { .. }, RunReply::Step(result)) => Self::step(
                result,
                "failed to send ssh stdin payload: ",
                RunExec::CloseInput,
            ),
            (RunExec::CloseInput, RunReply::Step(result)) => Self::step(
                result,
                "failed to close ssh stdin: ",
                RunExec::Wait { exit_code: None },
            ),
            (RunExec::Wait { exit_code }, RunReply::Message(message)) => match message {
                None => RunExec::CloseChannel { exit_code },
                Some(ChannelMessage::Close) => RunExec::CloseChannel { exit_code },
                Some(ChannelMessage::Data(data)) => RunExec::Send {
                    event: ExecSandboxEvent::Stdout(data),
                    exit_code,
                },
                Some(ChannelMessage::ExtendedData(data)) => RunExec::Send {
                    event: ExecSandboxEvent::Stderr(data),
                    exit_code,
                },
                Some(ChannelMessage::ExitStatus(exit_status)) => RunExec::Wait {
                    exit_code: Some(convert_exit_status(exit_status)),
                },
                Some(ChannelMessage::Other) => RunExec::Wait { exit_code },
            },
            (RunExec::Send { exit_code, .. }, RunReply::Done) => RunExec::Wait { exit_code },
            (RunExec::CloseChannel { exit_code }, RunReply::Done) => RunExec::Disconnect {
                exit_code,
            },
            (RunExec::Disconnect { exit_code }, RunReply::Done) => RunExec::Done(
                Ok(
                    match exit_code {
                        Some(code) => code,
                        None => 1,
                    },
                ),
            ),
            _ => unreached(),
        }
    }

    /// The result, once the connection is over.
    pub fn finish(self) -> (r: Result<i32, Status>)
        requires
            self.asks() is None,
        ensures
            r == self->Done_0,
    {
        match self {
            RunExec::Done(r) => r,
            _ => unreached(),
        }
    }
}

/// What the client is sent for `messages`, in order.
pub open spec fn relayed(messages: Seq<ChannelMessage>) -> Seq<ExecSandboxEvent>
    decreases messages.len(),
{
    if messages.len() == 0 {
        Seq::empty()
    } else {
        let before = relayed(messages.drop_last());
        match messages.last() {
            ChannelMessage::Data(data) => before.push(ExecSandboxEvent::Stdout(data)),
            ChannelMessage::ExtendedData(data) => before.push(ExecSandboxEvent::Stderr(data)),
            _ => before,
        }
    }
}

/// The last exit code that `messages` report, if there is one.
pub open spec fn reported(messages: Seq<ChannelMessage>) -> Option<i32>
    decreases messages.len(),
{
    if messages.len() == 0 {
        None
    } else {
        match messages.last() {
            ChannelMessage::ExitStatus(exit_status) => Some(exit_code_of(exit_status)),
            _ => reported(messages.drop_last()),
        }
    }
}

/// One turn of a running command: the channel gives a message, or the client is sent an
/// event.
pub enum Turn {
    Received(ChannelMessage),
    Sent(ExecSandboxEvent),
}

/// `turn` takes the connection from `before` to `after`.
pub open spec fn turns(before: RunExec, turn: Turn, after: RunExec) -> bool {
    match turn {
        Turn::Received(message) => before is Wait && before.follows(
            RunReply::Message(Some(message)),
            after,
        ),
        Turn::Sent(sent) => (before matches RunExec::Send { event, .. } && event == sent)
            && before.follows(RunReply::Done, after),
    }
}

/// The messages among `history`, in order.
pub open spec fn messages_of(history: Seq<Turn>) -> Seq<ChannelMessage>
    decreases history.len(),
{
    if history.len() == 0 {
        Seq::empty()
    } else {
        match history.last() {
            Turn::Received(message) => messages_of(history.drop_last()).push(message),
            Turn::Sent(_) => messages_of(history.drop_last()),
        }
    }
}

/// The events among `history`, in order.
pub open spec fn events_of(history: Seq<Turn>) -> Seq<ExecSandboxEvent>
    decreases history.len(),
{
    if history.len() == 0 {
        Seq::empty()
    } else {
        match history.last() {
            Turn::Received(_) => events_of(history.drop_last()),
            Turn::Sent(event) => events_of(history.drop_last()).push(event),
        }
    }
}

/// `history` takes a command that has just started to `at`.
pub open spec fn has_run(history: Seq<Turn>, at: RunExec) -> bool
    decreases history.len(),
{
    if history.len() == 0 {
        at == (RunExec::Wait { exit_code: None })
    } else {
        exists|before: RunExec|
            has_run(history.drop_last(), before) && #[trigger] turns(before, history.last(), at)
    }
}

/// While a command runs, everything it writes is passed on to the client in order, and
/// the exit code at hand is the last one it reported.
pub proof fn output_is_passed_on_in_order(history: Seq<Turn>, at: RunExec)
    requires
        has_run(history, at),
    ensures
        match at {
            RunExec::Wait { exit_code } => events_of(history) == relayed(messages_of(history))
                && exit_code == reported(messages_of(history)),
            RunExec::Send { event, exit_code } => events_of(history).push(event) == relayed(
                messages_of(history),
            ) && exit_code == reported(messages_of(history)),
            RunExec::CloseChannel { exit_code } => events_of(history) == relayed(
                messages_of(history),
            ) && exit_code == reported(messages_of(history)),
            _ => false,
        },
    decreases history.len(),
{
    if history.len() > 0 {
        let init = history.drop_last();
        let before = choose|before: RunExec|
            has_run(init, before) && #[trigger] turns(before, history.last(), at);
        output_is_passed_on_in_order(init, before);
        if let Turn::Received(message) = history.last() {
            assert(messages_of(history).drop_last() =~= messages_of(init));
            assert(messages_of(history).last() == message);
        }
    }
}

} // verus!
