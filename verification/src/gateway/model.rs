//! The records that the gateway keeps and the messages it exchanges.
use crate::string_map::StringMap;
use vstd::prelude::*;

verus! {

/// Where a sandbox stands in its life.
#[derive(Debug, Clone, Copy, PartialEq, Eq, Structural)]
pub enum SandboxPhase {
    Unspecified,
    Provisioning,
    Ready,
    Error,
    Deleting,
    Unknown,
    /// A number that has no name.
    Unrecognized(i32),
}

/// A policy for a sandbox. Each section is held in its encoded form, in which equal
/// sections have equal bytes.
#[derive(Debug, Clone)]
pub struct SandboxPolicy {
    pub version: u32,
    pub filesystem: Option<Vec<u8>>,
    pub landlock: Option<Vec<u8>>,
    pub process: Option<Vec<u8>>,
    pub inference: Option<Vec<u8>>,
    /// The rule for each network endpoint, by name.
    pub network_policies: StringMap<Vec<u8>>,
    /// What the gateway passes on without reading it.
    pub extra: Vec<u8>,
}

/// The bytes of an encoded section, if it is there.
pub open spec fn section(bytes: Option<Vec<u8>>) -> Option<Seq<u8>> {
    match bytes {
        Some(bytes) => Some(bytes@),
        None => None,
    }
}

/// What a policy holds.
#[verifier::ext_equal]
pub struct PolicyView {
    pub version: u32,
    pub filesystem: Option<Seq<u8>>,
    pub landlock: Option<Seq<u8>>,
    pub process: Option<Seq<u8>>,
    pub inference: Option<Seq<u8>>,
    pub network_policies: Map<Seq<char>, Seq<u8>>,
    pub extra: Seq<u8>,
}

impl DeepView for SandboxPolicy {
    type V = PolicyView;

    open spec fn deep_view(&self) -> PolicyView {
        PolicyView {
            version: self.version,
            filesystem: section(self.filesystem),
            landlock: section(self.landlock),
            process: section(self.process),
            inference: section(self.inference),
            network_policies: self.network_policies@.map_values(|rule: Vec<u8>| rule@),
            extra: self.extra@,
        }
    }
}

/// What a sandbox is made from.
#[derive(Debug, Clone)]
pub struct SandboxTemplate {
    pub image: String,
    /// What the gateway passes on without reading it.
    pub extra: Vec<u8>,
}

/// What a client asks of a sandbox.
#[derive(Debug, Clone)]
pub struct SandboxSpec {
    pub policy: Option<SandboxPolicy>,
    pub providers: Vec<String>,
    pub template: Option<SandboxTemplate>,
    /// What the gateway passes on without reading it.
    pub extra: Vec<u8>,
}

/// What the cluster reports of a sandbox.
#[derive(Debug, Clone)]
pub struct SandboxStatus {
    pub agent_pod: String,
    /// What the gateway passes on without reading it.
    pub extra: Vec<u8>,
}

/// What a template holds.
#[verifier::ext_equal]
pub struct TemplateView {
    pub image: Seq<char>,
    pub extra: Seq<u8>,
}

impl DeepView for SandboxTemplate {
    type V = TemplateView;

    open spec fn deep_view(&self) -> TemplateView {
        TemplateView { image: self.image@, extra: self.extra@ }
    }
}

/// What a client's wishes for a sandbox hold.
#[verifier::ext_equal]
pub struct SpecView {
    pub policy: Option<PolicyView>,
    pub providers: Seq<Seq<char>>,
    pub template: Option<TemplateView>,
    pub extra: Seq<u8>,
}

impl DeepView for SandboxSpec {
    type V = SpecView;

    open spec fn deep_view(&self) -> SpecView {
        SpecView {
            policy: self.policy.deep_view(),
            providers: self.providers.deep_view(),
            template: self.template.deep_view(),
            extra: self.extra@,
        }
    }
}

/// What the cluster's report of a sandbox holds.
#[verifier::ext_equal]
pub struct StatusView {
    pub agent_pod: Seq<char>,
    pub extra: Seq<u8>,
}

impl DeepView for SandboxStatus {
    type V = StatusView;

    open spec fn deep_view(&self) -> StatusView {
        StatusView { agent_pod: self.agent_pod@, extra: self.extra@ }
    }
}

#[derive(Debug, Clone)]
pub struct Sandbox {
    pub id: String,
    pub name: String,
    pub namespace: String,
    pub spec: Option<SandboxSpec>,
    pub status: Option<SandboxStatus>,
    pub phase: SandboxPhase,
    pub created_at_ms: i64,
    pub current_policy_version: u32,
    /// What the gateway passes on without reading it.
    pub extra: Vec<u8>,
}

/// What a sandbox holds.
#[verifier::ext_equal]
pub struct SandboxView {
    pub id: Seq<char>,
    pub name: Seq<char>,
    pub namespace: Seq<char>,
    pub spec: Option<SpecView>,
    pub status: Option<StatusView>,
    pub phase: SandboxPhase,
    pub created_at_ms: i64,
    pub current_policy_version: u32,
    pub extra: Seq<u8>,
}

impl DeepView for Sandbox {
    type V = SandboxView;

    open spec fn deep_view(&self) -> SandboxView {
        SandboxView {
            id: self.id@,
            name: self.name@,
            namespace: self.namespace@,
            spec: self.spec.deep_view(),
            status: self.status.deep_view(),
            phase: self.phase,
            created_at_ms: self.created_at_ms,
            current_policy_version: self.current_policy_version,
            extra: self.extra@,
        }
    }
}

/// A source of credentials that sandboxes can use.
#[derive(Debug)]
pub struct Provider {
    pub id: String,
    pub name: String,
    pub kind: String,
    pub credentials: StringMap<String>,
    pub config: StringMap<String>,
}

/// What a provider holds.
#[verifier::ext_equal]
pub struct ProviderView {
    pub id: Seq<char>,
    pub name: Seq<char>,
    pub kind: Seq<char>,
    pub credentials: Map<Seq<char>, Seq<char>>,
    pub config: Map<Seq<char>, Seq<char>>,
}

impl DeepView for Provider {
    type V = ProviderView;

    open spec fn deep_view(&self) -> ProviderView {
        ProviderView {
            id: self.id@,
            name: self.name@,
            kind: self.kind@,
            credentials: self.credentials.deep_view(),
            config: self.config.deep_view(),
        }
    }
}

impl Provider {
    /// What the store calls providers.
    pub fn object_type() -> (r: &'static str)
        ensures
            r@ == "provider"@,
    {
        "provider"
    }

    /// What the store finds a provider by.
    pub fn object_id(&self) -> (r: &str)
        ensures
            r@ == self.id@,
    {
        self.id.as_str()
    }

    /// What clients find a provider by.
    pub fn object_name(&self) -> (r: &str)
        ensures
            r@ == self.name@,
    {
        self.name.as_str()
    }
}

/// A grant of shell access to a sandbox.
#[derive(Debug)]
pub struct SshSession {
    pub id: String,
    pub sandbox_id: String,
    pub token: String,
    pub created_at_ms: i64,
    pub revoked: bool,
    pub name: String,
}

/// What a grant of shell access holds.
#[verifier::ext_equal]
pub struct SessionView {
    pub id: Seq<char>,
    pub sandbox_id: Seq<char>,
    pub token: Seq<char>,
    pub created_at_ms: i64,
    pub revoked: bool,
    pub name: Seq<char>,
}

impl DeepView for SshSession {
    type V = SessionView;

    open spec fn deep_view(&self) -> SessionView {
        SessionView {
            id: self.id@,
            sandbox_id: self.sandbox_id@,
            token: self.token@,
            created_at_ms: self.created_at_ms,
            revoked: self.revoked,
            name: self.name@,
        }
    }
}

/// How a policy revision fares.
#[derive(Debug, Clone, Copy, PartialEq, Eq, Structural)]
pub enum PolicyStatus {
    Unspecified,
    Pending,
    Loaded,
    Failed,
    Superseded,
}

/// A policy revision as it is stored.
#[derive(Debug)]
pub struct PolicyRecord {
    pub version: i64,
    /// The policy, or why the stored bytes could not be decoded.
    pub policy: Result<SandboxPolicy, String>,
    pub policy_hash: String,
    pub status: String,
    pub load_error: Option<String>,
    pub created_at_ms: i64,
    pub loaded_at_ms: Option<i64>,
}

/// A sandbox as it is stored.
#[derive(Debug)]
pub struct SandboxRecord {
    /// The sandbox, or why the stored bytes could not be decoded.
    pub sandbox: Result<Sandbox, String>,
    pub created_at_ms: i64,
}

/// A line of a sandbox's log.
#[derive(Debug, Clone)]
pub struct SandboxLogLine {
    pub sandbox_id: String,
    pub timestamp_ms: i64,
    pub level: String,
    pub source: String,
    /// What the gateway passes on without reading it.
    pub extra: Vec<u8>,
}

/// What an event in a watcher's stream carries.
#[derive(Debug, Clone)]
pub enum Payload {
    Sandbox(Sandbox),
    Log(SandboxLogLine),
    /// Anything else, in its encoded form.
    Other(Vec<u8>),
}

/// An event in a watcher's stream.
#[derive(Debug, Clone)]
pub struct SandboxStreamEvent {
    pub payload: Option<Payload>,
}

/// Log lines that a sandbox sends.
#[derive(Debug)]
pub struct PushSandboxLogsRequest {
    pub sandbox_id: String,
    pub logs: Vec<SandboxLogLine>,
}

} // verus!
