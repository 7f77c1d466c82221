//! Handlers as values that ask for outside work and go on from its outcome.
use crate::gateway::model::{
    PolicyRecord, Provider, PushSandboxLogsRequest, Sandbox, SandboxLogLine, SandboxPolicy,
    SandboxRecord, SandboxStreamEvent, SshSession,
};
use crate::status::Status;
use crate::text::same_text;
use vstd::prelude::*;

verus! {

/// What a sandbox reports of a policy revision it was given.
#[derive(Debug, Clone, Copy, PartialEq, Eq, Structural)]
pub enum LoadResult {
    Loaded,
    Failed,
}

/// Outside work that a handler asks for.
#[derive(Debug)]
pub enum Effect<'a> {
    /// Make up a name.
    GenerateName,
    /// Fetch a sandbox from the store.
    SandboxById(&'a String),
    SandboxByName(&'a String),
    ListSandboxes { limit: u32, offset: u32 },
    /// Store a sandbox, in place of the one with its id.
    PutSandbox(&'a Sandbox),
    /// Drop the sandbox with this id from the store.
    DeleteSandbox(&'a String),
    ProviderByName(&'a String),
    ListProviders { limit: u32, offset: u32 },
    /// Store a provider, in place of the one with its id.
    PutProvider(&'a Provider),
    DeleteProviderByName(&'a String),
    SessionById(&'a String),
    PutSession(&'a SshSession),
    /// Fetch the newest policy revision of a sandbox.
    LatestPolicy(&'a String),
    /// Fetch the newest policy revision of a sandbox, for a policy with the digest `hash` to
    /// come after it.
    PolicyToRevise { sandbox_id: &'a String, hash: &'a String },
    PolicyByVersion { sandbox_id: &'a String, version: i64 },
    ListPolicies { sandbox_id: &'a String, limit: u32, offset: u32 },
    /// Store a policy revision, its policy encoded.
    PutPolicyRevision {
        id: &'a String,
        sandbox_id: &'a String,
        version: i64,
        policy: &'a SandboxPolicy,
        hash: &'a String,
    },
    UpdatePolicyStatus {
        sandbox_id: &'a String,
        version: i64,
        result: LoadResult,
        load_error: Option<&'a String>,
        loaded_at_ms: Option<i64>,
    },
    /// Mark older revisions than `version` as superseded.
    SupersedeOlderPolicies { sandbox_id: &'a String, version: i64 },
    /// Enter a sandbox in the index.
    IndexSandbox(&'a Sandbox),
    /// Take the sandbox with this id out of the index.
    UnindexSandbox(&'a String),
    /// Tell the watchers of the sandbox with this id that it changed.
    Notify(&'a String),
    /// Create a sandbox in the cluster.
    CreateInCluster(&'a Sandbox),
    /// Delete the sandbox with this name from the cluster.
    DeleteInCluster(&'a String),
    /// Find the address of a pod.
    AgentPodIp(&'a String),
    /// Read the last log events of a sandbox.
    Tail { sandbox_id: &'a String, lines: u32 },
    /// Wait for the next batch of log lines of the request.
    NextLogBatch,
    /// Publish log lines, in order.
    PublishLogs(&'a Vec<SandboxLogLine>),
}

/// An error of the cluster.
#[derive(Debug)]
pub struct ClusterError {
    /// The status code of the reply, where the cluster gave one.
    pub api_code: Option<u16>,
    pub message: String,
}

/// What came of outside work.
#[derive(Debug)]
pub enum Reply {
    /// Work that has no outcome is done.
    Done,
    Name(String),
    Sandbox(Result<Option<Sandbox>, String>),
    Sandboxes(Result<Vec<SandboxRecord>, String>),
    Provider(Result<Option<Provider>, String>),
    /// Providers as they are stored: each one, or why it could not be decoded.
    Providers(Result<Vec<Result<Provider, String>>, String>),
    Session(Result<Option<SshSession>, String>),
    Policy(Result<Option<PolicyRecord>, String>),
    Policies(Result<Vec<PolicyRecord>, String>),
    Stored(Result<(), String>),
    /// Whether there was something to delete or update.
    Changed(Result<bool, String>),
    Created(Result<(), ClusterError>),
    PodIp(Result<Option<String>, String>),
    Events(Vec<SandboxStreamEvent>),
    LogBatch(Result<Option<PushSandboxLogsRequest>, String>),
}

/// `reply` is of the kind that `effect` is answered with. A revision that another is to
/// come after, because their digests differ, does not have the highest of all version
/// numbers.
pub open spec fn answers(effect: Effect<'_>, reply: Reply) -> bool {
    match effect {
        Effect::GenerateName => reply is Name,
        Effect::SandboxById(_) => reply is Sandbox,
        Effect::SandboxByName(_) => reply is Sandbox,
        Effect::ListSandboxes { .. } => reply is Sandboxes,
        Effect::PutSandbox(_) => reply is Stored,
        Effect::DeleteSandbox(_) => reply is Changed,
        Effect::ProviderByName(_) => reply is Provider,
        Effect::ListProviders { .. } => reply is Providers,
        Effect::PutProvider(_) => reply is Stored,
        Effect::DeleteProviderByName(_) => reply is Changed,
        Effect::SessionById(_) => reply is Session,
        Effect::PutSession(_) => reply is Stored,
        Effect::LatestPolicy(_) => reply is Policy,
        Effect::PolicyToRevise { hash, .. } => reply matches Reply::Policy(found) && (
        found matches Ok(Some(record)) ==> record.version < i64::MAX || record.policy_hash@
            == hash@),
        Effect::PolicyByVersion { .. } => reply is Policy,
        Effect::ListPolicies { .. } => reply is Policies,
        Effect::PutPolicyRevision { .. } => reply is Stored,
        Effect::UpdatePolicyStatus { .. } => reply is Changed,
        Effect::SupersedeOlderPolicies { .. } => reply is Stored,
        Effect::IndexSandbox(_) => reply is Done,
        Effect::UnindexSandbox(_) => reply is Done,
        Effect::Notify(_) => reply is Done,
        Effect::CreateInCluster(_) => reply is Created,
        Effect::DeleteInCluster(_) => reply is Changed,
        Effect::AgentPodIp(_) => reply is PodIp,
        Effect::Tail { .. } => reply is Events,
        Effect::NextLogBatch => reply is LogBatch,
        Effect::PublishLogs(_) => reply is Done,
    }
}

/// Whether `reply` is of the kind that `effect` is answered with.
pub fn is_answer(effect: &Effect<'_>, reply: &Reply) -> (r: bool)
    ensures
        r == answers(*effect, *reply),
{
    match (effect, reply) {
        (Effect::GenerateName, Reply::Name(_)) => true,
        (Effect::SandboxById(_), Reply::Sandbox(_)) => true,
        (Effect::SandboxByName(_), Reply::Sandbox(_)) => true,
        (Effect::ListSandboxes { .. }, Reply::Sandboxes(_)) => true,
        (Effect::PutSandbox(_), Reply::Stored(_)) => true,
        (Effect::DeleteSandbox(_), Reply::Changed(_)) => true,
        (Effect::ProviderByName(_), Reply::Provider(_)) => true,
        (Effect::ListProviders { .. }, Reply::Providers(_)) => true,
        (Effect::PutProvider(_), Reply::Stored(_)) => true,
        (Effect::DeleteProviderByName(_), Reply::Changed(_)) => true,
        (Effect::SessionById(_), Reply::Session(_)) => true,
        (Effect::PutSession(_), Reply::Stored(_)) => true,
        (Effect::LatestPolicy(_), Reply::Policy(_)) => true,
        (Effect::PolicyToRevise { hash, .. }, Reply::Policy(found)) => match found {
            Ok(Some(record)) => record.version < i64::MAX || same_text(
                record.policy_hash.as_str(),
                hash.as_str(),
            ),
            _ => true,
        },
        (Effect::PolicyByVersion { .. }, Reply::Policy(_)) => true,
        (Effect::ListPolicies { .. }, Reply::Policies(_)) => true,
        (Effect::PutPolicyRevision { .. }, Reply::Stored(_)) => true,
        (Effect::UpdatePolicyStatus { .. }, Reply::Changed(_)) => true,
        (Effect::SupersedeOlderPolicies { .. }, Reply::Stored(_)) => true,
        (Effect::IndexSandbox(_), Reply::Done) => true,
        (Effect::UnindexSandbox(_), Reply::Done) => true,
        (Effect::Notify(_), Reply::Done) => true,
        (Effect::CreateInCluster(_), Reply::Created(_)) => true,
        (Effect::DeleteInCluster(_), Reply::Changed(_)) => true,
        (Effect::AgentPodIp(_), Reply::PodIp(_)) => true,
        (Effect::Tail { .. }, Reply::Events(_)) => true,
        (Effect::NextLogBatch, Reply::LogBatch(_)) => true,
        (Effect::PublishLogs(_), Reply::Done) => true,
        _ => false,
    }
}

/// A handler in the middle of its work.
pub trait Flow: Sized {
    type Output;

    /// The work that comes next; `None` once the answer is there.
    spec fn asks(&self) -> Option<Effect<'_>>;

    /// From here, `reply` leads to `next`.
    spec fn follows(&self, reply: Reply, next: Self) -> bool;

    /// The answer, once it is there.
    spec fn outcome(&self) -> Result<Self::Output, Status>;

    /// The work that comes next; `None` once the answer is there.
    fn effect(&self) -> (r: Option<Effect<'_>>)
        ensures
            r == self.asks(),
    ;

    /// Goes on from what came of the work.
    fn resume(self, reply: Reply) -> (next: Self)
        requires
            self.asks() matches Some(effect) && answers(effect, reply),
        ensures
            self.follows(reply, next),
    ;

    /// The answer.
    fn finish(self) -> (r: Result<Self::Output, Status>)
        requires
            self.asks() is None,
        ensures
            r == self.outcome(),
    ;
}

/// `list` is what `records` hold, where all of them could be decoded.
pub open spec fn decoded<T>(records: Seq<Result<T, String>>, list: Seq<T>) -> bool {
    &&& list.len() == records.len()
    &&& forall|i: int|
        0 <= i < records.len() ==> #[trigger] records[i] == Ok::<T, String>(list[i])
}

/// `records[i]` is the first one that could not be decoded.
pub open spec fn first_undecoded<T>(records: Seq<Result<T, String>>, i: int) -> bool {
    &&& 0 <= i < records.len()
    &&& records[i] is Err
    &&& forall|j: int| 0 <= j < i ==> #[trigger] records[j] is Ok
}

/// What `records` hold, or the first error among them.
pub(crate) fn decode_all<T>(records: Vec<Result<T, String>>) -> (r: Result<Vec<T>, String>)
    ensures
        match r {
            Ok(list) => decoded(records@, list@),
            Err(e) => exists|i: int| #[trigger]
                first_undecoded(records@, i) && records@[i] == Err::<T, String>(e),
        },
{
    let mut list: Vec<T> = Vec::new();
    for record in it: records
        invariant
            it.seq() == records@,
            list@.len() == it.index(),
            forall|j: int|
                0 <= j < list@.len() ==> #[trigger] records@[j] == Ok::<T, String>(list@[j]),
    {
        match record {
            Ok(item) => {
                list.push(item);
            },
            Err(e) => {
                assert(first_undecoded(records@, it.index()));
                return Err(e);
            },
        }
    }
    Ok(list)
}

} // verus!
