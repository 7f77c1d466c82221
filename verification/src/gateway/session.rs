//! Shell access to sandboxes: granting and revoking it.
use crate::clock::clock_reading;
use crate::gateway::flow::{Effect, Flow, Reply};
use crate::gateway::model::{Sandbox, SandboxPhase, SshSession};
use crate::ident::{is_uuid, new_uuid};
use crate::status::{fails, Code, Status};
use vstd::pervasive::unreached;
use vstd::prelude::*;

verus! {

/// Where clients go for shell access.
#[derive(Debug)]
pub struct Gateway {
    pub host: String,
    pub port: u16,
    pub connect_path: String,
}

/// A grant of shell access, and where to use it.
#[derive(Debug)]
pub struct CreateSshSessionResponse {
    pub sandbox_id: String,
    pub token: String,
    pub gateway_host: String,
    pub gateway_port: u32,
    pub gateway_scheme: String,
    pub connect_path: String,
    pub host_key_fingerprint: String,
}

/// Granting shell access to a sandbox.
pub enum CreateSshSession {
    FetchSandbox { sandbox_id: String, gateway: Gateway },
    /// The grant needs a name,
    Name { sandbox_id: String, token: String, created_at_ms: i64, gateway: Gateway },
    /// and is stored.
    Persist { session: SshSession, gateway: Gateway },
    Done(Result<CreateSshSessionResponse, Status>),
}

/// `response` tells a client of the grant `session` and of `gateway`.
pub open spec fn tells(
    response: CreateSshSessionResponse,
    session: SshSession,
    gateway: Gateway,
) -> bool {
    &&& response.sandbox_id == session.sandbox_id
    &&& response.token == session.token
    &&& response.gateway_host == gateway.host
    &&& response.gateway_port == gateway.port
    &&& response.gateway_scheme@ == "https"@
    &&& response.connect_path == gateway.connect_path
    &&& response.host_key_fingerprint@.len() == 0
}

impl CreateSshSession {
    pub open spec fn failed(self, code: Code, text: Seq<char>) -> bool {
        self matches CreateSshSession::Done(r) && fails(r, code, text)
    }

    /// Granting shell access to the sandbox `sandbox_id` starts as `flow`.
    pub open spec fn begins(sandbox_id: String, gateway: Gateway, flow: Self) -> bool {
        if sandbox_id@.len() == 0 {
            flow.failed(Code::InvalidArgument, "sandbox_id is required"@)
        } else {
            flow == (CreateSshSession::FetchSandbox { sandbox_id, gateway })
        }
    }

    /// Starts granting shell access to the sandbox with the id `sandbox_id`.
    pub fn begin(sandbox_id: String, gateway: Gateway) -> (flow: Self)
        ensures
            Self::begins(sandbox_id, gateway, flow),
    {
        if sandbox_id.as_str().is_empty() {
            CreateSshSession::Done(
                Err(Status::new(Code::InvalidArgument, "sandbox_id is required")),
            )
        } else {
            CreateSshSession::FetchSandbox { sandbox_id, gateway }
        }
    }

    /// For the sandbox that was found, with the token `token` and at the time `now`,
    /// granting goes on as `flow`. Only a sandbox that is ready can be accessed.
    pub open spec fn grants(
        sandbox_id: String,
        gateway: Gateway,
        sandbox: Sandbox,
        token: String,
        now: Result<i64, String>,
        flow: Self,
    ) -> bool {
        if sandbox.phase != SandboxPhase::Ready {
            flow.failed(Code::FailedPrecondition, "sandbox is not ready"@)
        } else {
            match now {
                Err(e) => flow.failed(Code::Internal, "timestamp generation failed: "@ + e@),
                Ok(created_at_ms) => flow == (CreateSshSession::Name {
                    sandbox_id,
                    token,
                    created_at_ms,
                    gateway,
                }),
            }
        }
    }

    /// Goes on for the sandbox that was found, with the token `token` and at the time
    /// `now`.
    pub fn grant(
        sandbox_id: String,
        gateway: Gateway,
        sandbox: Sandbox,
        token: String,
        now: Result<i64, String>,
    ) -> (flow: Self)
        ensures
            Self::grants(sandbox_id, gateway, sandbox, token, now, flow),
    {
        if sandbox.phase != SandboxPhase::Ready {
            return CreateSshSession::Done(
                Err(Status::new(Code::FailedPrecondition, "sandbox is not ready")),
            );
        }
        match now {
            Err(e) => CreateSshSession::Done(
                Err(Status::internal("timestamp generation failed: ", e.as_str())),
            ),
            Ok(created_at_ms) => CreateSshSession::Name {
                sandbox_id,
                token,
                created_at_ms,
                gateway,
            },
        }
    }
}

impl Flow for CreateSshSession {
    type Output = CreateSshSessionResponse;

    open spec fn asks(&self) -> Option<Effect<'_>> {
        match self {
            CreateSshSession::FetchSandbox { sandbox_id, .. } => Some(
                Effect::SandboxById(sandbox_id),
            ),
            CreateSshSession::Name { .. } => Some(Effect::GenerateName),
            CreateSshSession::Persist { session, .. } => Some(Effect::PutSession(session)),
            CreateSshSession::Done(_) => None,
        }
    }

    open spec fn follows(&self, reply: Reply, next: Self) -> bool {
        match (*self, reply) {
            (
                CreateSshSession::FetchSandbox { sandbox_id, gateway },
                Reply::Sandbox(found),
            ) => match found {
                Err(e) => next.failed(Code::Internal, "fetch sandbox failed: "@ + e@),
                Ok(None) => next.failed(Code::NotFound, "sandbox not found"@),
                Ok(Some(sandbox)) => exists|token: String, now: Result<i64, String>|
                    is_uuid(token@) && (now matches Ok(ms) ==> ms >= 0) && #[trigger] Self::grants(
                        sandbox_id,
                        gateway,
                        sandbox,
                        token,
                        now,
                        next,
                    ),
            },
            (
                CreateSshSession::Name { sandbox_id, token, created_at_ms, gateway },
                Reply::Name(name),
            ) => next == (CreateSshSession::Persist {
                session: SshSession {
                    id: token,
                    sandbox_id,
                    token,
                    created_at_ms,
                    revoked: false,
                    name,
                },
                gateway,
            }),
            (CreateSshSession::Persist { session, gateway }, Reply::Stored(stored)) => match stored {
                Err(e) => next.failed(Code::Internal, "persist ssh session failed: "@ + e@),
                Ok(_) => next matches CreateSshSession::Done(Ok(response)) && tells(
                    response,
                    session,
                    gateway,
                ),
            },
            _ => false,
        }
    }

    open spec fn outcome(&self) -> Result<CreateSshSessionResponse, Status> {
        self->0
    }

    fn effect(&self) -> (r: Option<Effect<'_>>) {
        match self {
            CreateSshSession::FetchSandbox { sandbox_id, .. } => Some(
                Effect::SandboxById(sandbox_id),
            ),
            CreateSshSession::Name { .. } => Some(Effect::GenerateName),
            CreateSshSession::Persist { session, .. } => Some(Effect::PutSession(session)),
            CreateSshSession::Done(_) => None,
        }
    }

    fn resume(self, reply: Reply) -> (next: Self) {
        match (self, reply) {
            (
                CreateSshSession::FetchSandbox { sandbox_id, gateway },
                Reply::Sandbox(found),
            ) => match found {
                Err(e) => CreateSshSession::Done(
                    Err(Status::internal("fetch sandbox failed: ", e.as_str())),
                ),
                Ok(None) => CreateSshSession::Done(
                    Err(Status::new(Code::NotFound, "sandbox not found")),
                ),
                Ok(Some(sandbox)) => {
                    let token = new_uuid();
                    let now = clock_reading();
                    Self::grant(sandbox_id, gateway, sandbox, token, now)
                },
            },
            (
                CreateSshSession::Name { sandbox_id, token, created_at_ms, gateway },
                Reply::Name(name),
            ) => CreateSshSession::Persist {
                session: SshSession {
                    id: token.clone(),
                    sandbox_id,
                    token,
                    created_at_ms,
                    revoked: false,
                    name,
                },
                gateway,
            },
            (CreateSshSession::Persist { session, gateway }, Reply::Stored(stored)) => match stored {
                Err(e) => CreateSshSession::Done(
                    Err(Status::internal("persist ssh session failed: ", e.as_str())),
                ),
                Ok(_) => CreateSshSession::Done(
                    Ok(
                        CreateSshSessionResponse {
                            sandbox_id: session.sandbox_id,
                            token: session.token,
                            gateway_host: gateway.host,
                            gateway_port: gateway.port as u32,
                            gateway_scheme: "https".to_owned(),
                            connect_path: gateway.connect_path,
                            host_key_fingerprint: String::new(),
                        },
                    ),
                ),
            },
            _ => unreached(),
        }
    }

    fn finish(self) -> (r: Result<CreateSshSessionResponse, Status>) {
        match self {
            CreateSshSession::Done(r) => r,
            _ => unreached(),
        }
    }
}

/// Revoking a grant of shell access.
pub enum RevokeSshSession {
    Fetch { token: String },
    /// The grant, marked as revoked, is stored.
    Persist { session: SshSession },
    /// Whether there was such a grant.
    Done(Result<bool, Status>),
}

impl RevokeSshSession {
    pub open spec fn failed(self, code: Code, text: Seq<char>) -> bool {
        self matches RevokeSshSession::Done(r) && fails(r, code, text)
    }

    /// The request for `token` starts as `flow`.
    pub open spec fn begins(token: String, flow: Self) -> bool {
        if token@.len() == 0 {
            flow.failed(Code::InvalidArgument, "token is required"@)
        } else {
            flow == (RevokeSshSession::Fetch { token })
        }
    }

    /// Starts revoking the grant with the token `token`.
    pub fn begin(token: String) -> (flow: Self)
        ensures
            Self::begins(token, flow),
    {
        if token.as_str().is_empty() {
            RevokeSshSession::Done(Err(Status::new(Code::InvalidArgument, "token is required")))
        } else {
            RevokeSshSession::Fetch { token }
        }
    }
}

impl Flow for RevokeSshSession {
    type Output = bool;

    open spec fn asks(&self) -> Option<Effect<'_>> {
        match self {
            RevokeSshSession::Fetch { token } => Some(Effect::SessionById(token)),
            RevokeSshSession::Persist { session } => Some(Effect::PutSession(session)),
            RevokeSshSession::Done(_) => None,
        }
    }

    open spec fn follows(&self, reply: Reply, next: Self) -> bool {
        match (*self, reply) {
            (RevokeSshSession::Fetch { .. }, Reply::Session(found)) => match found {
                Err(e) => next.failed(Code::Internal, "fetch ssh session failed: "@ + e@),
                Ok(None) => next == RevokeSshSession::Done(Ok(false)),
                Ok(Some(session)) => next == (RevokeSshSession::Persist {
                    session: SshSession { revoked: true, ..session },
                }),
            },
            (RevokeSshSession::Persist { .. }, Reply::Stored(stored)) => match stored {
                Err(e) => next.failed(Code::Internal, "persist ssh session failed: "@ + e@),
                Ok(_) => next == RevokeSshSession::Done(Ok(true)),
            },
            _ => false,
        }
    }

    open spec fn outcome(&self) -> Result<bool, Status> {
        self->0
    }

    fn effect(&self) -> (r: Option<Effect<'_>>) {
        match self {
            RevokeSshSession::Fetch { token } => Some(Effect::SessionById(token)),
            RevokeSshSession::Persist { session } => Some(Effect::PutSession(session)),
            RevokeSshSession::Done(_) => None,
        }
    }

    fn resume(self, reply: Reply) -> (next: Self) {
        match (self, reply) {
            (RevokeSshSession::Fetch { .. }, Reply::Session(found)) => match found {
                Err(e) => RevokeSshSession::Done(
                    Err(Status::internal("fetch ssh session failed: ", e.as_str())),
                ),
                Ok(None) => RevokeSshSession::Done(Ok(false)),
                Ok(Some(session)) => RevokeSshSession::Persist {
                    session: SshSession { revoked: true, ..session },
                },
            },
            (RevokeSshSession::Persist { .. }, Reply::Stored(stored)) => match stored {
                Err(e) => RevokeSshSession::Done(
                    Err(Status::internal("persist ssh session failed: ", e.as_str())),
                ),
                Ok(_) => RevokeSshSession::Done(Ok(true)),
            },
            _ => unreached(),
        }
    }

    fn finish(self) -> (r: Result<bool, Status>) {
        match self {
            RevokeSshSession::Done(r) => r,
            _ => unreached(),
        }
    }
}

} // verus!
