//! Policies: serving them, revising them, and following how revisions fare.
use crate::clock::clock_reading;
use crate::gateway::flow::{Effect, Flow, LoadResult, Reply};
use crate::gateway::model::{
    PolicyRecord, PolicyStatus, Sandbox, SandboxPolicy, SandboxSpec,
};
use crate::gateway::policy_rules::{
    deterministic_policy_hash, mode_change, policy_hash, policy_record_to_revision, show_version,
    shown_version, shows, static_change, validate_network_mode_unchanged,
    validate_static_fields_unchanged, SandboxPolicyRevision,
};
use crate::gateway::sandbox::{or_default, with_default};
use crate::ident::{is_uuid, new_uuid};
use crate::status::{fails, Code, Status};
use crate::text::same_text;
use vstd::pervasive::unreached;
use vstd::prelude::*;

verus! {

/// The policy that a sandbox is to apply.
#[derive(Debug)]
pub struct GetSandboxPolicyResponse {
    pub policy: Option<SandboxPolicy>,
    pub version: u32,
    pub policy_hash: String,
}

/// Serving a sandbox its policy.
pub enum GetSandboxPolicy {
    FetchSandbox { sandbox_id: String },
    FetchLatest { sandbox_id: String, spec: Option<SandboxSpec> },
    /// There is no revision yet: the policy that the sandbox was created with becomes
    /// the first one,
    Backfill { sandbox_id: String, policy_id: String, policy: SandboxPolicy, hash: String },
    /// which is loaded already.
    MarkLoaded { sandbox_id: String, policy: SandboxPolicy, hash: String },
    Done(Result<GetSandboxPolicyResponse, Status>),
}

impl GetSandboxPolicy {
    pub open spec fn failed(self, code: Code, text: Seq<char>) -> bool {
        self matches GetSandboxPolicy::Done(r) && fails(r, code, text)
    }

    /// Serving has ended with the first revision, made of `policy`.
    pub open spec fn served_first(self, policy: SandboxPolicy, hash: String) -> bool {
        self == GetSandboxPolicy::Done(
            Ok(
                GetSandboxPolicyResponse {
                    policy: Some(policy),
                    version: 1,
                    policy_hash: hash,
                },
            ),
        )
    }

    /// Starts serving the sandbox with the id `sandbox_id` its policy.
    pub fn begin(sandbox_id: String) -> (flow: Self)
        ensures
            flow == (GetSandboxPolicy::FetchSandbox { sandbox_id }),
    {
        GetSandboxPolicy::FetchSandbox { sandbox_id }
    }

    /// Goes on to store `policy`, with the digest `hash`, as the first revision, under the id
    /// `policy_id`.
    pub fn backfill(
        sandbox_id: String,
        policy: SandboxPolicy,
        hash: String,
        policy_id: String,
    ) -> (flow: Self)
        ensures
            flow == (GetSandboxPolicy::Backfill { sandbox_id, policy_id, policy, hash }),
    {
        GetSandboxPolicy::Backfill { sandbox_id, policy_id, policy, hash }
    }
}

impl Flow for GetSandboxPolicy {
    type Output = GetSandboxPolicyResponse;

    open spec fn asks(&self) -> Option<Effect<'_>> {
        match self {
            GetSandboxPolicy::FetchSandbox { sandbox_id } => Some(Effect::SandboxById(sandbox_id)),
            GetSandboxPolicy::FetchLatest { sandbox_id, .. } => Some(
                Effect::LatestPolicy(sandbox_id),
            ),
            GetSandboxPolicy::Backfill { sandbox_id, policy_id, policy, hash } => Some(
                Effect::PutPolicyRevision { id: policy_id, sandbox_id, version: 1, policy, hash },
            ),
            GetSandboxPolicy::MarkLoaded { sandbox_id, .. } => Some(
                Effect::UpdatePolicyStatus {
                    sandbox_id,
                    version: 1,
                    result: LoadResult::Loaded,
                    load_error: None,
                    loaded_at_ms: None,
                },
            ),
            GetSandboxPolicy::Done(_) => None,
        }
    }

    open spec fn follows(&self, reply: Reply, next: Self) -> bool {
        match (*self, reply) {
            (
                GetSandboxPolicy::FetchSandbox { sandbox_id },
                Reply::Sandbox(found),
            ) => match found {
                Err(e) => next.failed(Code::Internal, "fetch sandbox failed: "@ + e@),
                Ok(None) => next.failed(Code::NotFound, "sandbox not found"@),
                Ok(Some(sandbox)) => next == (GetSandboxPolicy::FetchLatest {
                    sandbox_id,
                    spec: sandbox.spec,
                }),
            },
            (
                GetSandboxPolicy::FetchLatest { sandbox_id, spec },
                Reply::Policy(latest),
            ) => match latest {
                Err(e) => next.failed(Code::Internal, "fetch policy history failed: "@ + e@),
                Ok(Some(record)) => match record.policy {
                    Err(e) => next.failed(Code::Internal, "decode policy failed: "@ + e@),
                    Ok(policy) => next == GetSandboxPolicy::Done(
                        Ok(
                            GetSandboxPolicyResponse {
                                policy: Some(policy),
                                version: shown_version(record.version),
                                policy_hash: record.policy_hash,
                            },
                        ),
                    ),
                },
                Ok(None) => match spec {
                    None => next.failed(Code::Internal, "sandbox has no spec"@),
                    Some(spec) => match spec.policy {
                        None => next.failed(
                            Code::FailedPrecondition,
                            "sandbox has no policy configured"@,
                        ),
                        Some(policy) => next matches GetSandboxPolicy::Backfill {
                            sandbox_id: sandbox,
                            policy_id,
                            policy: first,
                            hash,
                        } && sandbox == sandbox_id && is_uuid(policy_id@) && first == policy
                            && hash@ == policy_hash(policy.deep_view()),
                    },
                },
            },
            (
                GetSandboxPolicy::Backfill { sandbox_id, policy_id, policy, hash },
                Reply::Stored(stored),
            ) => match stored {
                Err(_) => next.served_first(policy, hash),
                Ok(_) => next == (GetSandboxPolicy::MarkLoaded { sandbox_id, policy, hash }),
            },
            (GetSandboxPolicy::MarkLoaded { sandbox_id, policy, hash }, Reply::Changed(_)) => {
                next.served_first(policy, hash)
            },
            _ => false,
        }
    }

    open spec fn outcome(&self) -> Result<GetSandboxPolicyResponse, Status> {
        self->0
    }

    fn effect(&self) -> (r: Option<Effect<'_>>) {
        match self {
            GetSandboxPolicy::FetchSandbox { sandbox_id } => Some(Effect::SandboxById(sandbox_id)),
            GetSandboxPolicy::FetchLatest { sandbox_id, .. } => Some(
                Effect::LatestPolicy(sandbox_id),
            ),
            GetSandboxPolicy::Backfill { sandbox_id, policy_id, policy, hash } => Some(
                Effect::PutPolicyRevision { id: policy_id, sandbox_id, version: 1, policy, hash },
            ),
            GetSandboxPolicy::MarkLoaded { sandbox_id, .. } => Some(
                Effect::UpdatePolicyStatus {
                    sandbox_id,
                    version: 1,
                    result: LoadResult::Loaded,
                    load_error: None,
                    loaded_at_ms: None,
                },
            ),
            GetSandboxPolicy::Done(_) => None,
        }
    }

    fn resume(self, reply: Reply) -> (next: Self) {
        match (self, reply) {
            (
                GetSandboxPolicy::FetchSandbox { sandbox_id },
                Reply::Sandbox(found),
            ) => match found {
                Err(e) => GetSandboxPolicy::Done(
                    Err(Status::internal("fetch sandbox failed: ", e.as_str())),
                ),
                Ok(None) => GetSandboxPolicy::Done(
                    Err(Status::new(Code::NotFound, "sandbox not found")),
                ),
                Ok(Some(sandbox)) => GetSandboxPolicy::FetchLatest {
                    sandbox_id,
                    spec: sandbox.spec,
                },
            },
            (
                GetSandboxPolicy::FetchLatest { sandbox_id, spec },
                Reply::Policy(latest),
            ) => match latest {
                Err(e) => GetSandboxPolicy::Done(
                    Err(Status::internal("fetch policy history failed: ", e.as_str())),
                ),
                Ok(Some(record)) => match record.policy {
                    Err(e) => GetSandboxPolicy::Done(
                        Err(Status::internal("decode policy failed: ", e.as_str())),
                    ),
                    Ok(policy) => GetSandboxPolicy::Done(
                        Ok(
                            GetSandboxPolicyResponse {
                                policy: Some(policy),
                                version: show_version(record.version),
                                policy_hash: record.policy_hash,
                            },
                        ),
                    ),
                },
                Ok(None) => match spec {
                    None => GetSandboxPolicy::Done(
                        Err(Status::new(Code::Internal, "sandbox has no spec")),
                    ),
                    Some(spec) => match spec.policy {
                        None => GetSandboxPolicy::Done(
                            Err(
                                Status::new(
                                    Code::FailedPrecondition,
                                    "sandbox has no policy configured",
                                ),
                            ),
                        ),
                        Some(policy) => {
                            let hash = deterministic_policy_hash(&policy);
                            Self::backfill(sandbox_id, policy, hash, new_uuid())
                        },
                    },
                },
            },
            (
                GetSandboxPolicy::Backfill { sandbox_id, policy, hash, .. },
                Reply::Stored(stored),
            ) => match stored {
                Err(_) => GetSandboxPolicy::Done(
                    Ok(
                        GetSandboxPolicyResponse {
                            policy: Some(policy),
                            version: 1,
                            policy_hash: hash,
                        },
                    ),
                ),
                Ok(_) => GetSandboxPolicy::MarkLoaded { sandbox_id, policy, hash },
            },
            (GetSandboxPolicy::MarkLoaded { policy, hash, .. }, Reply::Changed(_)) => {
                GetSandboxPolicy::Done(
                    Ok(
                        GetSandboxPolicyResponse {
                            policy: Some(policy),
                            version: 1,
                            policy_hash: hash,
                        },
                    ),
                )
            },
            _ => unreached(),
        }
    }

    fn finish(self) -> (r: Result<GetSandboxPolicyResponse, Status>) {
        match self {
            GetSandboxPolicy::Done(r) => r,
            _ => unreached(),
        }
    }
}

/// The request to revise the policy of a sandbox.
#[derive(Debug)]
pub struct UpdateSandboxPolicyRequest {
    pub name: String,
    pub policy: Option<SandboxPolicy>,
}

/// The revision that is in force after an update.
#[derive(Debug)]
pub struct UpdateSandboxPolicyResponse {
    pub version: u32,
    pub policy_hash: String,
}

/// Revising the policy of a sandbox.
pub enum UpdateSandboxPolicy {
    FetchSandbox { name: String, policy: SandboxPolicy },
    FetchLatest { sandbox_id: String, policy: SandboxPolicy, hash: String },
    /// The policy differs from the latest revision and becomes the next one;
    Persist {
        sandbox_id: String,
        policy_id: String,
        version: i64,
        policy: SandboxPolicy,
        hash: String,
    },
    /// older revisions that are still pending are superseded,
    Supersede { sandbox_id: String, version: i64, hash: String },
    /// and the sandbox's watchers are told.
    Announce { sandbox_id: String, version: i64, hash: String },
    Done(Result<UpdateSandboxPolicyResponse, Status>),
}

/// Why the policy of `sandbox` cannot be revised to `policy`, if it cannot.
pub open spec fn update_refusal(sandbox: Sandbox, policy: SandboxPolicy) -> Option<
    (Code, Seq<char>),
> {
    match sandbox.spec {
        None => Some((Code::Internal, "sandbox has no spec"@)),
        Some(spec) => match spec.policy {
            None => Some((Code::FailedPrecondition, "sandbox has no policy configured"@)),
            Some(baseline) => match static_change(baseline.deep_view(), policy.deep_view()) {
                Some(text) => Some((Code::InvalidArgument, text)),
                None => match mode_change(baseline.deep_view(), policy.deep_view()) {
                    Some(text) => Some((Code::InvalidArgument, text)),
                    None => None,
                },
            },
        },
    }
}

fn check_update(sandbox: &Sandbox, policy: &SandboxPolicy) -> (r: Result<(), Status>)
    ensures
        match update_refusal(*sandbox, *policy) {
            None => r is Ok,
            Some((code, text)) => fails(r, code, text),
        },
{
    match &sandbox.spec {
        None => Err(Status::new(Code::Internal, "sandbox has no spec")),
        Some(spec) => match &spec.policy {
            None => Err(Status::new(Code::FailedPrecondition, "sandbox has no policy configured")),
            Some(baseline) => {
                match validate_static_fields_unchanged(baseline, policy) {
                    Err(e) => Err(e),
                    Ok(_) => validate_network_mode_unchanged(baseline, policy),
                }
            },
        },
    }
}

impl UpdateSandboxPolicy {
    pub open spec fn failed(self, code: Code, text: Seq<char>) -> bool {
        self matches UpdateSandboxPolicy::Done(r) && fails(r, code, text)
    }

    /// The update that `request` asks for starts as `flow`.
    pub open spec fn begins(request: UpdateSandboxPolicyRequest, flow: Self) -> bool {
        if request.name@.len() == 0 {
            flow.failed(Code::InvalidArgument, "name is required"@)
        } else {
            match request.policy {
                None => flow.failed(Code::InvalidArgument, "policy is required"@),
                Some(policy) => flow == (UpdateSandboxPolicy::FetchSandbox {
                    name: request.name,
                    policy,
                }),
            }
        }
    }

    /// Starts the update that `request` asks for.
    pub fn begin(request: UpdateSandboxPolicyRequest) -> (flow: Self)
        ensures
            Self::begins(request, flow),
    {
        if request.name.as_str().is_empty() {
            return UpdateSandboxPolicy::Done(
                Err(Status::new(Code::InvalidArgument, "name is required")),
            );
        }
        match request.policy {
            None => UpdateSandboxPolicy::Done(
                Err(Status::new(Code::InvalidArgument, "policy is required")),
            ),
            Some(policy) => UpdateSandboxPolicy::FetchSandbox { name: request.name, policy },
        }
    }

    /// With `latest` the newest revision, the update of the sandbox `sandbox_id` to
    /// `policy`, which has the digest `hash`, goes on as `flow`, with `policy_id` the id of
    /// the new revision. A policy with the digest of the newest revision changes nothing.
    pub open spec fn revises(
        sandbox_id: String,
        policy: SandboxPolicy,
        hash: String,
        latest: Option<PolicyRecord>,
        policy_id: String,
        flow: Self,
    ) -> bool {
        if latest matches Some(record) && record.policy_hash@ == hash@ {
            flow == UpdateSandboxPolicy::Done(
                Ok(
                    UpdateSandboxPolicyResponse {
                        version: shown_version(latest->0.version),
                        policy_hash: hash,
                    },
                ),
            )
        } else {
            flow == (UpdateSandboxPolicy::Persist {
                sandbox_id,
                policy_id,
                version: match latest {
                    Some(record) => (record.version + 1) as i64,
                    None => 1,
                },
                policy,
                hash,
            })
        }
    }

    /// Goes on from the newest revision, with `policy_id` the id of a new one.
    pub fn revise(
        sandbox_id: String,
        policy: SandboxPolicy,
        hash: String,
        latest: Option<PolicyRecord>,
        policy_id: String,
    ) -> (flow: Self)
        requires
            latest matches Some(record) ==> record.version < i64::MAX || record.policy_hash@
                == hash@,
        ensures
            Self::revises(sandbox_id, policy, hash, latest, policy_id, flow),
    {
        let version: i64 = match latest {
            None => 1,
            Some(record) => {
                if same_text(record.policy_hash.as_str(), hash.as_str()) {
                    return UpdateSandboxPolicy::Done(
                        Ok(
                            UpdateSandboxPolicyResponse {
                                version: show_version(record.version),
                                policy_hash: hash,
                            },
                        ),
                    );
                }
                record.version + 1
            },
        };
        UpdateSandboxPolicy::Persist { sandbox_id, policy_id, version, policy, hash }
    }
}

impl Flow for UpdateSandboxPolicy {
    type Output = UpdateSandboxPolicyResponse;

    open spec fn asks(&self) -> Option<Effect<'_>> {
        match self {
            UpdateSandboxPolicy::FetchSandbox { name, .. } => Some(Effect::SandboxByName(name)),
            UpdateSandboxPolicy::FetchLatest { sandbox_id, hash, .. } => Some(
                Effect::PolicyToRevise { sandbox_id, hash },
            ),
            UpdateSandboxPolicy::Persist { sandbox_id, policy_id, version, policy, hash } => Some(
                Effect::PutPolicyRevision {
                    id: policy_id,
                    sandbox_id,
                    version: *version,
                    policy,
                    hash,
                },
            ),
            UpdateSandboxPolicy::Supersede { sandbox_id, version, .. } => Some(
                Effect::SupersedeOlderPolicies { sandbox_id, version: *version },
            ),
            UpdateSandboxPolicy::Announce { sandbox_id, .. } => Some(Effect::Notify(sandbox_id)),
            UpdateSandboxPolicy::Done(_) => None,
        }
    }

    open spec fn follows(&self, reply: Reply, next: Self) -> bool {
        match (*self, reply) {
            (
                UpdateSandboxPolicy::FetchSandbox { name, policy },
                Reply::Sandbox(found),
            ) => match found {
                Err(e) => next.failed(Code::Internal, "fetch sandbox failed: "@ + e@),
                Ok(None) => next.failed(Code::NotFound, "sandbox not found"@),
                Ok(Some(sandbox)) => match update_refusal(sandbox, policy) {
                    Some((code, text)) => next.failed(code, text),
                    None => next matches UpdateSandboxPolicy::FetchLatest {
                        sandbox_id,
                        policy: new,
                        hash,
                    } && sandbox_id == sandbox.id && new == policy && hash@ == policy_hash(
                        policy.deep_view(),
                    ),
                },
            },
            (
                UpdateSandboxPolicy::FetchLatest { sandbox_id, policy, hash },
                Reply::Policy(latest),
            ) => match latest {
                Err(e) => next.failed(Code::Internal, "fetch latest policy failed: "@ + e@),
                Ok(latest) => exists|policy_id: String|
                    is_uuid(policy_id@) && #[trigger] Self::revises(
                        sandbox_id,
                        policy,
                        hash,
                        latest,
                        policy_id,
                        next,
                    ),
            },
            (
                UpdateSandboxPolicy::Persist { sandbox_id, policy_id, version, policy, hash },
                Reply::Stored(stored),
            ) => match stored {
                Err(e) => next.failed(Code::Internal, "persist policy revision failed: "@ + e@),
                Ok(_) => next == (UpdateSandboxPolicy::Supersede { sandbox_id, version, hash }),
            },
            (
                UpdateSandboxPolicy::Supersede { sandbox_id, version, hash },
                Reply::Stored(_),
            ) => next == (UpdateSandboxPolicy::Announce { sandbox_id, version, hash }),
            (UpdateSandboxPolicy::Announce { sandbox_id, version, hash }, Reply::Done) => next
                == UpdateSandboxPolicy::Done(
                Ok(
                    UpdateSandboxPolicyResponse {
                        version: shown_version(version),
                        policy_hash: hash,
                    },
                ),
            ),
            _ => false,
        }
    }

    open spec fn outcome(&self) -> Result<UpdateSandboxPolicyResponse, Status> {
        self->0
    }

    fn effect(&self) -> (r: Option<Effect<'_>>) {
        match self {
            UpdateSandboxPolicy::FetchSandbox { name, .. } => Some(Effect::SandboxByName(name)),
            UpdateSandboxPolicy::FetchLatest { sandbox_id, hash, .. } => Some(
                Effect::PolicyToRevise { sandbox_id, hash },
            ),
            UpdateSandboxPolicy::Persist { sandbox_id, policy_id, version, policy, hash } => Some(
                Effect::PutPolicyRevision {
                    id: policy_id,
                    sandbox_id,
                    version: *version,
                    policy,
                    hash,
                },
            ),
            UpdateSandboxPolicy::Supersede { sandbox_id, version, .. } => Some(
                Effect::SupersedeOlderPolicies { sandbox_id, version: *version },
            ),
            UpdateSandboxPolicy::Announce { sandbox_id, .. } => Some(Effect::Notify(sandbox_id)),
            UpdateSandboxPolicy::Done(_) => None,
        }
    }

    fn resume(self, reply: Reply) -> (next: Self) {
        match (self, reply) {
            (
                UpdateSandboxPolicy::FetchSandbox { policy, .. },
                Reply::Sandbox(found),
            ) => match found {
                Err(e) => UpdateSandboxPolicy::Done(
                    Err(Status::internal("fetch sandbox failed: ", e.as_str())),
                ),
                Ok(None) => UpdateSandboxPolicy::Done(
                    Err(Status::new(Code::NotFound, "sandbox not found")),
                ),
                Ok(Some(sandbox)) => match check_update(&sandbox, &policy) {
                    Err(e) => UpdateSandboxPolicy::Done(Err(e)),
                    Ok(_) => {
                        let hash = deterministic_policy_hash(&policy);
                        UpdateSandboxPolicy::FetchLatest { sandbox_id: sandbox.id, policy, hash }
                    },
                },
            },
            (
                UpdateSandboxPolicy::FetchLatest { sandbox_id, policy, hash },
                Reply::Policy(latest),
            ) => match latest {
                Err(e) => UpdateSandboxPolicy::Done(
                    Err(Status::internal("fetch latest policy failed: ", e.as_str())),
                ),
                Ok(latest) => {
                    let policy_id = new_uuid();
                    Self::revise(sandbox_id, policy, hash, latest, policy_id)
                },
            },
            (
                UpdateSandboxPolicy::Persist { sandbox_id, version, hash, .. },
                Reply::Stored(stored),
            ) => match stored {
                Err(e) => UpdateSandboxPolicy::Done(
                    Err(Status::internal("persist policy revision failed: ", e.as_str())),
                ),
                Ok(_) => UpdateSandboxPolicy::Supersede { sandbox_id, version, hash },
            },
            (
                UpdateSandboxPolicy::Supersede { sandbox_id, version, hash },
                Reply::Stored(_),
            ) => UpdateSandboxPolicy::Announce { sandbox_id, version, hash },
            (UpdateSandboxPolicy::Announce { version, hash, .. }, Reply::Done) => {
                UpdateSandboxPolicy::Done(
                    Ok(
                        UpdateSandboxPolicyResponse {
                            version: show_version(version),
                            policy_hash: hash,
                        },
                    ),
                )
            },
            _ => unreached(),
        }
    }

    fn finish(self) -> (r: Result<UpdateSandboxPolicyResponse, Status>) {
        match self {
            UpdateSandboxPolicy::Done(r) => r,
            _ => unreached(),
        }
    }
}

/// How a policy revision fares, and which one the sandbox applies.
#[derive(Debug)]
pub struct GetSandboxPolicyStatusResponse {
    pub revision: Option<SandboxPolicyRevision>,
    pub active_version: u32,
}

/// Finding out how a policy revision fares.
pub enum GetSandboxPolicyStatus {
    FetchSandbox { name: String, version: u32 },
    /// The revision with the number `version`, or the newest where it is zero.
    FetchPolicy { sandbox_id: String, version: u32, active_version: u32 },
    Done(Result<GetSandboxPolicyStatusResponse, Status>),
}

impl GetSandboxPolicyStatus {
    pub open spec fn failed(self, code: Code, text: Seq<char>) -> bool {
        self matches GetSandboxPolicyStatus::Done(r) && fails(r, code, text)
    }

    /// Finding out how a revision of the sandbox `name` fares starts as `flow`.
    pub open spec fn begins(name: String, version: u32, flow: Self) -> bool {
        if name@.len() == 0 {
            flow.failed(Code::InvalidArgument, "name is required"@)
        } else {
            flow == (GetSandboxPolicyStatus::FetchSandbox { name, version })
        }
    }

    /// Starts finding out how a revision of the sandbox called `name` fares.
    pub fn begin(name: String, version: u32) -> (flow: Self)
        ensures
            Self::begins(name, version, flow),
    {
        if name.as_str().is_empty() {
            GetSandboxPolicyStatus::Done(
                Err(Status::new(Code::InvalidArgument, "name is required")),
            )
        } else {
            GetSandboxPolicyStatus::FetchSandbox { name, version }
        }
    }
}

impl Flow for GetSandboxPolicyStatus {
    type Output = GetSandboxPolicyStatusResponse;

    open spec fn asks(&self) -> Option<Effect<'_>> {
        match self {
            GetSandboxPolicyStatus::FetchSandbox { name, .. } => Some(Effect::SandboxByName(name)),
            GetSandboxPolicyStatus::FetchPolicy { sandbox_id, version, .. } => if *version == 0 {
                Some(Effect::LatestPolicy(sandbox_id))
            } else {
                Some(Effect::PolicyByVersion { sandbox_id, version: *version as i64 })
            },
            GetSandboxPolicyStatus::Done(_) => None,
        }
    }

    open spec fn follows(&self, reply: Reply, next: Self) -> bool {
        match (*self, reply) {
            (
                GetSandboxPolicyStatus::FetchSandbox { name, version },
                Reply::Sandbox(found),
            ) => match found {
                Err(e) => next.failed(Code::Internal, "fetch sandbox failed: "@ + e@),
                Ok(None) => next.failed(Code::NotFound, "sandbox not found"@),
                Ok(Some(sandbox)) => next == (GetSandboxPolicyStatus::FetchPolicy {
                    sandbox_id: sandbox.id,
                    version,
                    active_version: sandbox.current_policy_version,
                }),
            },
            (
                GetSandboxPolicyStatus::FetchPolicy { sandbox_id, version, active_version },
                Reply::Policy(found),
            ) => match found {
                Err(e) => next.failed(Code::Internal, "fetch policy failed: "@ + e@),
                Ok(None) => next.failed(
                    Code::NotFound,
                    "no policy revision found for this sandbox"@,
                ),
                Ok(Some(record)) => next matches GetSandboxPolicyStatus::Done(Ok(response)) && {
                    &&& response.revision matches Some(revision) && shows(revision, record, true)
                    &&& response.active_version == active_version
                },
            },
            _ => false,
        }
    }

    open spec fn outcome(&self) -> Result<GetSandboxPolicyStatusResponse, Status> {
        self->0
    }

    fn effect(&self) -> (r: Option<Effect<'_>>) {
        match self {
            GetSandboxPolicyStatus::FetchSandbox { name, .. } => Some(Effect::SandboxByName(name)),
            GetSandboxPolicyStatus::FetchPolicy { sandbox_id, version, .. } => if *version == 0 {
                Some(Effect::LatestPolicy(sandbox_id))
            } else {
                Some(Effect::PolicyByVersion { sandbox_id, version: *version as i64 })
            },
            GetSandboxPolicyStatus::Done(_) => None,
        }
    }

    fn resume(self, reply: Reply) -> (next: Self) {
        match (self, reply) {
            (
                GetSandboxPolicyStatus::FetchSandbox { version, .. },
                Reply::Sandbox(found),
            ) => match found {
                Err(e) => GetSandboxPolicyStatus::Done(
                    Err(Status::internal("fetch sandbox failed: ", e.as_str())),
                ),
                Ok(None) => GetSandboxPolicyStatus::Done(
                    Err(Status::new(Code::NotFound, "sandbox not found")),
                ),
                Ok(Some(sandbox)) => GetSandboxPolicyStatus::FetchPolicy {
                    sandbox_id: sandbox.id,
                    version,
                    active_version: sandbox.current_policy_version,
                },
            },
            (
                GetSandboxPolicyStatus::FetchPolicy { active_version, .. },
                Reply::Policy(found),
            ) => match found {
                Err(e) => GetSandboxPolicyStatus::Done(
                    Err(Status::internal("fetch policy failed: ", e.as_str())),
                ),
                Ok(None) => GetSandboxPolicyStatus::Done(
                    Err(Status::new(Code::NotFound, "no policy revision found for this sandbox")),
                ),
                Ok(Some(record)) => GetSandboxPolicyStatus::Done(
                    Ok(
                        GetSandboxPolicyStatusResponse {
                            revision: Some(policy_record_to_revision(record, true)),
                            active_version,
                        },
                    ),
                ),
            },
            _ => unreached(),
        }
    }

    fn finish(self) -> (r: Result<GetSandboxPolicyStatusResponse, Status>) {
        match self {
            GetSandboxPolicyStatus::Done(r) => r,
            _ => unreached(),
        }
    }
}

/// Listing the policy revisions of a sandbox.
pub enum ListSandboxPolicies {
    FetchSandbox { name: String, limit: u32, offset: u32 },
    FetchPolicies { sandbox_id: String, limit: u32, offset: u32 },
    Done(Result<Vec<SandboxPolicyRevision>, Status>),
}

/// `list` shows `records`, one by one, without their policies.
pub open spec fn shows_all(list: Seq<SandboxPolicyRevision>, records: Seq<PolicyRecord>) -> bool {
    &&& list.len() == records.len()
    &&& forall|i: int| 0 <= i < records.len() ==> shows(#[trigger] list[i], records[i], false)
}

fn show_all(records: Vec<PolicyRecord>) -> (r: Vec<SandboxPolicyRevision>)
    ensures
        shows_all(r@, records@),
{
    let mut list: Vec<SandboxPolicyRevision> = Vec::new();
    for record in it: records
        invariant
            it.seq() == records@,
            list@.len() == it.index(),
            forall|j: int| 0 <= j < list@.len() ==> shows(#[trigger] list@[j], records@[j], false),
    {
        list.push(policy_record_to_revision(record, false));
    }
    list
}

impl ListSandboxPolicies {
    pub open spec fn failed(self, code: Code, text: Seq<char>) -> bool {
        self matches ListSandboxPolicies::Done(r) && fails(r, code, text)
    }

    /// Listing the policy revisions of the sandbox `name` starts as `flow`.
    pub open spec fn begins(name: String, limit: u32, offset: u32, flow: Self) -> bool {
        if name@.len() == 0 {
            flow.failed(Code::InvalidArgument, "name is required"@)
        } else {
            flow == (ListSandboxPolicies::FetchSandbox {
                name,
                limit: or_default(limit, 50),
                offset,
            })
        }
    }

    /// Starts listing `limit` policy revisions at most, or fifty where it is zero, of the
    /// sandbox called `name`, after the first `offset`.
    pub fn begin(name: String, limit: u32, offset: u32) -> (flow: Self)
        ensures
            Self::begins(name, limit, offset, flow),
    {
        if name.as_str().is_empty() {
            ListSandboxPolicies::Done(Err(Status::new(Code::InvalidArgument, "name is required")))
        } else {
            ListSandboxPolicies::FetchSandbox { name, limit: with_default(limit, 50), offset }
        }
    }
}

impl Flow for ListSandboxPolicies {
    type Output = Vec<SandboxPolicyRevision>;

    open spec fn asks(&self) -> Option<Effect<'_>> {
        match self {
            ListSandboxPolicies::FetchSandbox { name, .. } => Some(Effect::SandboxByName(name)),
            ListSandboxPolicies::FetchPolicies { sandbox_id, limit, offset } => Some(
                Effect::ListPolicies { sandbox_id, limit: *limit, offset: *offset },
            ),
            ListSandboxPolicies::Done(_) => None,
        }
    }

    open spec fn follows(&self, reply: Reply, next: Self) -> bool {
        match (*self, reply) {
            (
                ListSandboxPolicies::FetchSandbox { name, limit, offset },
                Reply::Sandbox(found),
            ) => match found {
                Err(e) => next.failed(Code::Internal, "fetch sandbox failed: "@ + e@),
                Ok(None) => next.failed(Code::NotFound, "sandbox not found"@),
                Ok(Some(sandbox)) => next == (ListSandboxPolicies::FetchPolicies {
                    sandbox_id: sandbox.id,
                    limit,
                    offset,
                }),
            },
            (ListSandboxPolicies::FetchPolicies { .. }, Reply::Policies(found)) => match found {
                Err(e) => next.failed(Code::Internal, "list policies failed: "@ + e@),
                Ok(records) => next matches ListSandboxPolicies::Done(Ok(list)) && shows_all(
                    list@,
                    records@,
                ),
            },
            _ => false,
        }
    }

    open spec fn outcome(&self) -> Result<Vec<SandboxPolicyRevision>, Status> {
        self->0
    }

    fn effect(&self) -> (r: Option<Effect<'_>>) {
        match self {
            ListSandboxPolicies::FetchSandbox { name, .. } => Some(Effect::SandboxByName(name)),
            ListSandboxPolicies::FetchPolicies { sandbox_id, limit, offset } => Some(
                Effect::ListPolicies { sandbox_id, limit: *limit, offset: *offset },
            ),
            ListSandboxPolicies::Done(_) => None,
        }
    }

    fn resume(self, reply: Reply) -> (next: Self) {
        match (self, reply) {
            (
                ListSandboxPolicies::FetchSandbox { limit, offset, .. },
                Reply::Sandbox(found),
            ) => match found {
                Err(e) => ListSandboxPolicies::Done(
                    Err(Status::internal("fetch sandbox failed: ", e.as_str())),
                ),
                Ok(None) => ListSandboxPolicies::Done(
                    Err(Status::new(Code::NotFound, "sandbox not found")),
                ),
                Ok(Some(sandbox)) => ListSandboxPolicies::FetchPolicies {
                    sandbox_id: sandbox.id,
                    limit,
                    offset,
                },
            },
            (ListSandboxPolicies::FetchPolicies { .. }, Reply::Policies(found)) => match found {
                Err(e) => ListSandboxPolicies::Done(
                    Err(Status::internal("list policies failed: ", e.as_str())),
                ),
                Ok(records) => ListSandboxPolicies::Done(Ok(show_all(records))),
            },
            _ => unreached(),
        }
    }

    fn finish(self) -> (r: Result<Vec<SandboxPolicyRevision>, Status>) {
        match self {
            ListSandboxPolicies::Done(r) => r,
            _ => unreached(),
        }
    }
}

/// A sandbox's report of how a policy revision fares.
#[derive(Debug)]
pub struct ReportPolicyStatusRequest {
    pub sandbox_id: String,
    pub version: u32,
    /// The status, where its number has a name.
    pub status: Option<PolicyStatus>,
    pub load_error: String,
}

/// Taking in a sandbox's report of how a policy revision fares.
pub enum ReportPolicyStatus {
    Update {
        sandbox_id: String,
        version: u32,
        result: LoadResult,
        load_error: Option<String>,
        loaded_at_ms: Option<i64>,
    },
    /// The revision is loaded: older ones that are still pending are superseded,
    Supersede { sandbox_id: String, version: u32 },
    /// the sandbox,
    FetchSandbox { sandbox_id: String, version: u32 },
    /// where it is there, is stored with the revision as the one it applies,
    PutSandbox { sandbox_id: String, sandbox: Sandbox },
    /// and its watchers are told.
    Announce { sandbox_id: String },
    Done(Result<(), Status>),
}

impl ReportPolicyStatus {
    pub open spec fn failed(self, code: Code, text: Seq<char>) -> bool {
        self matches ReportPolicyStatus::Done(r) && fails(r, code, text)
    }

    /// Taking in the report `request` at the time `now` starts as `flow`.
    pub open spec fn begins(
        request: ReportPolicyStatusRequest,
        now: Result<i64, String>,
        flow: Self,
    ) -> bool {
        if request.sandbox_id@.len() == 0 {
            flow.failed(Code::InvalidArgument, "sandbox_id is required"@)
        } else if request.version == 0 {
            flow.failed(Code::InvalidArgument, "version is required"@)
        } else {
            match request.status {
                Some(PolicyStatus::Loaded) => match now {
                    Err(e) => flow.failed(Code::Internal, "timestamp error: "@ + e@),
                    Ok(ms) => flow == (ReportPolicyStatus::Update {
                        sandbox_id: request.sandbox_id,
                        version: request.version,
                        result: LoadResult::Loaded,
                        load_error: None,
                        loaded_at_ms: Some(ms),
                    }),
                },
                Some(PolicyStatus::Failed) => flow == (ReportPolicyStatus::Update {
                    sandbox_id: request.sandbox_id,
                    version: request.version,
                    result: LoadResult::Failed,
                    load_error: if request.load_error@.len() == 0 {
                        None
                    } else {
                        Some(request.load_error)
                    },
                    loaded_at_ms: None,
                }),
                _ => flow.failed(Code::InvalidArgument, "status must be LOADED or FAILED"@),
            }
        }
    }

    /// Starts taking in the report `request` at the time `now`.
    pub fn begin_at(request: ReportPolicyStatusRequest, now: Result<i64, String>) -> (flow: Self)
        ensures
            Self::begins(request, now, flow),
    {
        if request.sandbox_id.as_str().is_empty() {
            return ReportPolicyStatus::Done(
                Err(Status::new(Code::InvalidArgument, "sandbox_id is required")),
            );
        }
        if request.version == 0 {
            return ReportPolicyStatus::Done(
                Err(Status::new(Code::InvalidArgument, "version is required")),
            );
        }
        match request.status {
            Some(PolicyStatus::Loaded) => match now {
                Err(e) => ReportPolicyStatus::Done(
                    Err(Status::internal("timestamp error: ", e.as_str())),
                ),
                Ok(ms) => ReportPolicyStatus::Update {
                    sandbox_id: request.sandbox_id,
                    version: request.version,
                    result: LoadResult::Loaded,
                    load_error: None,
                    loaded_at_ms: Some(ms),
                },
            },
            Some(PolicyStatus::Failed) => {
                let silent = request.load_error.as_str().is_empty();
                ReportPolicyStatus::Update {
                    sandbox_id: request.sandbox_id,
                    version: request.version,
                    result: LoadResult::Failed,
                    load_error: if silent {
                        None
                    } else {
                        Some(request.load_error)
                    },
                    loaded_at_ms: None,
                }
            },
            _ => ReportPolicyStatus::Done(
                Err(Status::new(Code::InvalidArgument, "status must be LOADED or FAILED")),
            ),
        }
    }

    /// Starts taking in the report `request` now.
    pub fn begin(request: ReportPolicyStatusRequest) -> (flow: Self)
        ensures
            exists|now: Result<i64, String>| #[trigger]
                Self::begins(request, now, flow) && (now matches Ok(ms) ==> ms >= 0),
    {
        let now = clock_reading();
        Self::begin_at(request, now)
    }
}

impl Flow for ReportPolicyStatus {
    type Output = ();

    open spec fn asks(&self) -> Option<Effect<'_>> {
        match self {
            ReportPolicyStatus::Update {
                sandbox_id,
                version,
                result,
                load_error,
                loaded_at_ms,
            } => Some(
                Effect::UpdatePolicyStatus {
                    sandbox_id,
                    version: *version as i64,
                    result: *result,
                    load_error: match load_error {
                        Some(error) => Some(error),
                        None => None,
                    },
                    loaded_at_ms: *loaded_at_ms,
                },
            ),
            ReportPolicyStatus::Supersede { sandbox_id, version } => Some(
                Effect::SupersedeOlderPolicies { sandbox_id, version: *version as i64 },
            ),
            ReportPolicyStatus::FetchSandbox { sandbox_id, .. } => Some(
                Effect::SandboxById(sandbox_id),
            ),
            ReportPolicyStatus::PutSandbox { sandbox, .. } => Some(Effect::PutSandbox(sandbox)),
            ReportPolicyStatus::Announce { sandbox_id } => Some(Effect::Notify(sandbox_id)),
            ReportPolicyStatus::Done(_) => None,
        }
    }

    open spec fn follows(&self, reply: Reply, next: Self) -> bool {
        match (*self, reply) {
            (
                ReportPolicyStatus::Update { sandbox_id, version, result, .. },
                Reply::Changed(updated),
            ) => match updated {
                Err(e) => next.failed(Code::Internal, "update policy status failed: "@ + e@),
                Ok(false) => next.failed(Code::NotFound, "policy revision not found"@),
                Ok(true) => if result == LoadResult::Loaded {
                    next == (ReportPolicyStatus::Supersede { sandbox_id, version })
                } else {
                    next == ReportPolicyStatus::Done(Ok(()))
                },
            },
            (ReportPolicyStatus::Supersede { sandbox_id, version }, Reply::Stored(_)) => next == (
            ReportPolicyStatus::FetchSandbox { sandbox_id, version }),
            (
                ReportPolicyStatus::FetchSandbox { sandbox_id, version },
                Reply::Sandbox(found),
            ) => match found {
                Ok(Some(sandbox)) => next == (ReportPolicyStatus::PutSandbox {
                    sandbox_id,
                    sandbox: Sandbox { current_policy_version: version, ..sandbox },
                }),
                _ => next == (ReportPolicyStatus::Announce { sandbox_id }),
            },
            (ReportPolicyStatus::PutSandbox { sandbox_id, .. }, Reply::Stored(_)) => next == (
            ReportPolicyStatus::Announce { sandbox_id }),
            (ReportPolicyStatus::Announce { .. }, Reply::Done) => next == ReportPolicyStatus::Done(
                Ok(()),
            ),
            _ => false,
        }
    }

    open spec fn outcome(&self) -> Result<(), Status> {
        self->0
    }

    fn effect(&self) -> (r: Option<Effect<'_>>) {
        match self {
            ReportPolicyStatus::Update {
                sandbox_id,
                version,
                result,
                load_error,
                loaded_at_ms,
            } => Some(
                Effect::UpdatePolicyStatus {
                    sandbox_id,
                    version: *version as i64,
                    result: *result,
                    load_error: match load_error {
                        Some(error) => Some(error),
                        None => None,
                    },
                    loaded_at_ms: *loaded_at_ms,
                },
            ),
            ReportPolicyStatus::Supersede { sandbox_id, version } => Some(
                Effect::SupersedeOlderPolicies { sandbox_id, version: *version as i64 },
            ),
            ReportPolicyStatus::FetchSandbox { sandbox_id, .. } => Some(
                Effect::SandboxById(sandbox_id),
            ),
            ReportPolicyStatus::PutSandbox { sandbox, .. } => Some(Effect::PutSandbox(sandbox)),
            ReportPolicyStatus::Announce { sandbox_id } => Some(Effect::Notify(sandbox_id)),
            ReportPolicyStatus::Done(_) => None,
        }
    }

    fn resume(self, reply: Reply) -> (next: Self) {
        match (self, reply) {
            (
                ReportPolicyStatus::Update { sandbox_id, version, result, .. },
                Reply::Changed(updated),
            ) => match updated {
                Err(e) => ReportPolicyStatus::Done(
                    Err(Status::internal("update policy status failed: ", e.as_str())),
                ),
                Ok(updated) => if !updated {
                    ReportPolicyStatus::Done(
                        Err(Status::new(Code::NotFound, "policy revision not found")),
                    )
                } else if result == LoadResult::Loaded {
                    ReportPolicyStatus::Supersede { sandbox_id, version }
                } else {
                    ReportPolicyStatus::Done(Ok(()))
                },
            },
            (
                ReportPolicyStatus::Supersede { sandbox_id, version },
                Reply::Stored(_),
            ) => ReportPolicyStatus::FetchSandbox { sandbox_id, version },
            (
                ReportPolicyStatus::FetchSandbox { sandbox_id, version },
                Reply::Sandbox(found),
            ) => match found {
                Ok(Some(sandbox)) => ReportPolicyStatus::PutSandbox {
                    sandbox_id,
                    sandbox: Sandbox { current_policy_version: version, ..sandbox },
                },
                _ => ReportPolicyStatus::Announce { sandbox_id },
            },
            (
                ReportPolicyStatus::PutSandbox { sandbox_id, .. },
                Reply::Stored(_),
            ) => ReportPolicyStatus::Announce { sandbox_id },
            (ReportPolicyStatus::Announce { .. }, Reply::Done) => ReportPolicyStatus::Done(Ok(())),
            _ => unreached(),
        }
    }

    fn finish(self) -> (r: Result<(), Status>) {
        match self {
            ReportPolicyStatus::Done(r) => r,
            _ => unreached(),
        }
    }
}

} // verus!
