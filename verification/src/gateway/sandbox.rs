//! Sandboxes: creating, reading, listing and deleting them.
use crate::gateway::flow::{ClusterError, Effect, Flow, Reply};
use crate::gateway::model::{Sandbox, SandboxPhase, SandboxRecord, SandboxSpec, SandboxTemplate};
use crate::ident::{is_uuid, new_uuid};
use crate::status::{fails, Code, Status};
use crate::text::{concat, concat3};
use vstd::pervasive::unreached;
use vstd::prelude::*;

verus! {

/// The number `requested`, or `default` where it is zero.
pub open spec fn or_default(requested: u32, default: u32) -> u32 {
    if requested == 0 {
        default
    } else {
        requested
    }
}

pub(crate) fn with_default(requested: u32, default: u32) -> (r: u32)
    ensures
        r == or_default(requested, default),
{
    if requested == 0 {
        default
    } else {
        requested
    }
}

/// The request to create a sandbox.
#[derive(Debug)]
pub struct CreateSandboxRequest {
    pub name: String,
    pub spec: Option<SandboxSpec>,
}

/// What a sandbox will be made of, once its providers are known to exist.
pub struct SandboxPlan {
    pub name: String,
    pub spec: SandboxSpec,
    pub namespace: String,
    pub default_image: String,
}

/// `template` is `given` with an image: the one it names, else `default_image`.
pub open spec fn has_image(
    template: SandboxTemplate,
    given: Option<SandboxTemplate>,
    default_image: String,
) -> bool {
    match given {
        Some(given) => {
            &&& template.extra == given.extra
            &&& template.image == (if given.image@.len() == 0 {
                default_image
            } else {
                given.image
            })
        },
        None => template.extra@.len() == 0 && template.image == default_image,
    }
}

/// `sandbox` is the new sandbox with the id `id` that `plan` is for.
pub open spec fn is_planned(sandbox: Sandbox, plan: SandboxPlan, id: String) -> bool {
    &&& sandbox.id == id
    &&& sandbox.name@ == (if plan.name@.len() == 0 {
        "sandbox-"@ + id@
    } else {
        plan.name@
    })
    &&& sandbox.namespace == plan.namespace
    &&& sandbox.spec matches Some(spec) && {
        &&& spec.template matches Some(template) && has_image(
            template,
            plan.spec.template,
            plan.default_image,
        )
        &&& spec == (SandboxSpec { template: spec.template, ..plan.spec })
    }
    &&& sandbox.status is None
    &&& sandbox.phase == SandboxPhase::Provisioning
    &&& sandbox.created_at_ms == 0
    &&& sandbox.current_policy_version == 0
    &&& sandbox.extra@.len() == 0
}

/// The new sandbox with the id `id` that `plan` is for.
pub fn new_sandbox(plan: SandboxPlan, id: String) -> (sandbox: Sandbox)
    ensures
        is_planned(sandbox, plan, id),
{
    let SandboxPlan { name, spec, namespace, default_image } = plan;
    let SandboxSpec { policy, providers, template, extra } = spec;
    let template = match template {
        Some(given) => if given.image.as_str().is_empty() {
            SandboxTemplate { image: default_image, extra: given.extra }
        } else {
            given
        },
        None => SandboxTemplate { image: default_image, extra: Vec::new() },
    };
    let name = if name.as_str().is_empty() {
        concat("sandbox-", id.as_str())
    } else {
        name
    };
    Sandbox {
        id,
        name,
        namespace,
        spec: Some(SandboxSpec { policy, providers, template: Some(template), extra }),
        status: None,
        phase: SandboxPhase::Provisioning,
        created_at_ms: 0,
        current_policy_version: 0,
        extra: Vec::new(),
    }
}

/// Creating a sandbox.
pub enum CreateSandbox {
    /// The provider `name` must exist; those in `rest` are checked after it.
    CheckProvider { name: String, rest: Vec<String>, plan: SandboxPlan },
    /// The sandbox is entered in the index,
    Index { sandbox: Sandbox },
    /// stored,
    Persist { sandbox: Sandbox },
    /// announced to its watchers,
    Announce { sandbox: Sandbox },
    /// and created in the cluster.
    Create { sandbox: Sandbox },
    /// The cluster did not create it: it is dropped from the store,
    Discard { id: String, status: Status },
    /// taken out of the index,
    Unindex { id: String, status: Status },
    /// and its watchers are told.
    AnnounceGone { id: String, status: Status },
    Done(Result<Sandbox, Status>),
}

impl CreateSandbox {
    pub open spec fn failed(self, code: Code, text: Seq<char>) -> bool {
        self matches CreateSandbox::Done(r) && fails(r, code, text)
    }

    /// With the providers `names` still to check, the creation stands at `flow`.
    pub open spec fn stands(names: Seq<String>, plan: SandboxPlan, flow: Self) -> bool {
        if names.len() == 0 {
            flow matches CreateSandbox::Index { sandbox } && is_uuid(sandbox.id@) && is_planned(
                sandbox,
                plan,
                sandbox.id,
            )
        } else {
            flow matches CreateSandbox::CheckProvider { name, rest, plan: kept } && name
                == names[0] && rest@ == names.skip(1) && kept == plan
        }
    }

    /// The creation that `request` asks for starts as `flow`.
    pub open spec fn begins(
        request: CreateSandboxRequest,
        namespace: String,
        default_image: String,
        flow: Self,
    ) -> bool {
        match request.spec {
            None => flow.failed(Code::InvalidArgument, "spec is required"@),
            Some(spec) => if spec.policy is None {
                flow.failed(Code::InvalidArgument, "spec.policy is required"@)
            } else {
                Self::stands(
                    spec.providers@,
                    SandboxPlan { name: request.name, spec, namespace, default_image },
                    flow,
                )
            },
        }
    }

    fn stand(names: Vec<String>, plan: SandboxPlan) -> (flow: Self)
        ensures
            Self::stands(names@, plan, flow),
    {
        if names.len() == 0 {
            CreateSandbox::Index { sandbox: new_sandbox(plan, new_uuid()) }
        } else {
            let mut rest = names;
            let name = rest.remove(0);
            assert(rest@ =~= names@.skip(1));
            CreateSandbox::CheckProvider { name, rest, plan }
        }
    }

    /// Starts the creation that `request` asks for.
    pub fn begin(request: CreateSandboxRequest, namespace: String, default_image: String) -> (flow:
        Self)
        ensures
            Self::begins(request, namespace, default_image, flow),
    {
        let CreateSandboxRequest { name, spec } = request;
        match spec {
            None => CreateSandbox::Done(
                Err(Status::new(Code::InvalidArgument, "spec is required")),
            ),
            Some(spec) => {
                if spec.policy.is_none() {
                    return CreateSandbox::Done(
                        Err(Status::new(Code::InvalidArgument, "spec.policy is required")),
                    );
                }
                let names = spec.providers.clone();
                assert(names@ =~= spec.providers@);
                Self::stand(names, SandboxPlan { name, spec, namespace, default_image })
            },
        }
    }
}

/// The status code with which the cluster says that a name is taken.
pub const CONFLICT: u16 = 409;

/// The answer to a creation that the cluster refused says `code` and `text`.
pub open spec fn creation_refusal(error: ClusterError) -> (Code, Seq<char>) {
    if error.api_code == Some(CONFLICT) {
        (Code::AlreadyExists, "sandbox already exists"@)
    } else {
        (Code::Internal, "create sandbox in kubernetes failed: "@ + error.message@)
    }
}

fn refuse_creation(error: ClusterError) -> (r: Status)
    ensures
        r.says(creation_refusal(error).0, creation_refusal(error).1),
{
    if let Some(code) = error.api_code {
        if code == CONFLICT {
            return Status::new(Code::AlreadyExists, "sandbox already exists");
        }
    }
    Status::internal("create sandbox in kubernetes failed: ", error.message.as_str())
}

impl Flow for CreateSandbox {
    type Output = Sandbox;

    open spec fn asks(&self) -> Option<Effect<'_>> {
        match self {
            CreateSandbox::CheckProvider { name, .. } => Some(Effect::ProviderByName(name)),
            CreateSandbox::Index { sandbox } => Some(Effect::IndexSandbox(sandbox)),
            CreateSandbox::Persist { sandbox } => Some(Effect::PutSandbox(sandbox)),
            CreateSandbox::Announce { sandbox } => Some(Effect::Notify(&sandbox.id)),
            CreateSandbox::Create { sandbox } => Some(Effect::CreateInCluster(sandbox)),
            CreateSandbox::Discard { id, .. } => Some(Effect::DeleteSandbox(id)),
            CreateSandbox::Unindex { id, .. } => Some(Effect::UnindexSandbox(id)),
            CreateSandbox::AnnounceGone { id, .. } => Some(Effect::Notify(id)),
            CreateSandbox::Done(_) => None,
        }
    }

    open spec fn follows(&self, reply: Reply, next: Self) -> bool {
        match (*self, reply) {
            (
                CreateSandbox::CheckProvider { name, rest, plan },
                Reply::Provider(found),
            ) => match found {
                Err(e) => next.failed(Code::Internal, "fetch provider failed: "@ + e@),
                Ok(None) => next.failed(
                    Code::FailedPrecondition,
                    "provider '"@ + name@ + "' not found"@,
                ),
                Ok(Some(_)) => Self::stands(rest@, plan, next),
            },
            (CreateSandbox::Index { sandbox }, Reply::Done) => next == (CreateSandbox::Persist {
                sandbox,
            }),
            (CreateSandbox::Persist { sandbox }, Reply::Stored(stored)) => match stored {
                Err(e) => next.failed(Code::Internal, "persist sandbox failed: "@ + e@),
                Ok(_) => next == (CreateSandbox::Announce { sandbox }),
            },
            (CreateSandbox::Announce { sandbox }, Reply::Done) => next == (CreateSandbox::Create {
                sandbox,
            }),
            (CreateSandbox::Create { sandbox }, Reply::Created(created)) => match created {
                Ok(_) => next == CreateSandbox::Done(Ok(sandbox)),
                Err(error) => next matches CreateSandbox::Discard { id, status } && id
                    == sandbox.id && status.says(
                    creation_refusal(error).0,
                    creation_refusal(error).1,
                ),
            },
            (CreateSandbox::Discard { id, status }, Reply::Changed(_)) => next == (
            CreateSandbox::Unindex { id, status }),
            (CreateSandbox::Unindex { id, status }, Reply::Done) => next == (
            CreateSandbox::AnnounceGone { id, status }),
            (CreateSandbox::AnnounceGone { id, status }, Reply::Done) => next
                == CreateSandbox::Done(Err(status)),
            _ => false,
        }
    }

    open spec fn outcome(&self) -> Result<Sandbox, Status> {
        self->0
    }

    fn effect(&self) -> (r: Option<Effect<'_>>) {
        match self {
            CreateSandbox::CheckProvider { name, .. } => Some(Effect::ProviderByName(name)),
            CreateSandbox::Index { sandbox } => Some(Effect::IndexSandbox(sandbox)),
            CreateSandbox::Persist { sandbox } => Some(Effect::PutSandbox(sandbox)),
            CreateSandbox::Announce { sandbox } => Some(Effect::Notify(&sandbox.id)),
            CreateSandbox::Create { sandbox } => Some(Effect::CreateInCluster(sandbox)),
            CreateSandbox::Discard { id, .. } => Some(Effect::DeleteSandbox(id)),
            CreateSandbox::Unindex { id, .. } => Some(Effect::UnindexSandbox(id)),
            CreateSandbox::AnnounceGone { id, .. } => Some(Effect::Notify(id)),
            CreateSandbox::Done(_) => None,
        }
    }

    fn resume(self, reply: Reply) -> (next: Self) {
        match (self, reply) {
            (
                CreateSandbox::CheckProvider { name, rest, plan },
                Reply::Provider(found),
            ) => match found {
                Err(e) => CreateSandbox::Done(
                    Err(Status::internal("fetch provider failed: ", e.as_str())),
                ),
                Ok(None) => {
                    let message = concat3("provider '", name.as_str(), "' not found");
                    CreateSandbox::Done(Err(Status { code: Code::FailedPrecondition, message }))
                },
                Ok(Some(_)) => Self::stand(rest, plan),
            },
            (CreateSandbox::Index { sandbox }, Reply::Done) => CreateSandbox::Persist { sandbox },
            (CreateSandbox::Persist { sandbox }, Reply::Stored(stored)) => match stored {
                Err(e) => CreateSandbox::Done(
                    Err(Status::internal("persist sandbox failed: ", e.as_str())),
                ),
                Ok(_) => CreateSandbox::Announce { sandbox },
            },
            (CreateSandbox::Announce { sandbox }, Reply::Done) => CreateSandbox::Create { sandbox },
            (CreateSandbox::Create { sandbox }, Reply::Created(created)) => match created {
                Ok(_) => CreateSandbox::Done(Ok(sandbox)),
                Err(error) => CreateSandbox::Discard {
                    id: sandbox.id,
                    status: refuse_creation(error),
                },
            },
            (CreateSandbox::Discard { id, status }, Reply::Changed(_)) => CreateSandbox::Unindex {
                id,
                status,
            },
            (CreateSandbox::Unindex { id, status }, Reply::Done) => CreateSandbox::AnnounceGone {
                id,
                status,
            },
            (CreateSandbox::AnnounceGone { status, .. }, Reply::Done) => CreateSandbox::Done(
                Err(status),
            ),
            _ => unreached(),
        }
    }

    fn finish(self) -> (r: Result<Sandbox, Status>) {
        match self {
            CreateSandbox::Done(r) => r,
            _ => unreached(),
        }
    }
}

/// Reading a sandbox.
pub enum GetSandbox {
    Fetch { name: String },
    Done(Result<Sandbox, Status>),
}

impl GetSandbox {
    pub open spec fn failed(self, code: Code, text: Seq<char>) -> bool {
        self matches GetSandbox::Done(r) && fails(r, code, text)
    }

    /// The request for `name` starts as `flow`.
    pub open spec fn begins(name: String, flow: Self) -> bool {
        if name@.len() == 0 {
            flow.failed(Code::InvalidArgument, "name is required"@)
        } else {
            flow == (GetSandbox::Fetch { name })
        }
    }

    /// Starts reading the sandbox called `name`.
    pub fn begin(name: String) -> (flow: Self)
        ensures
            Self::begins(name, flow),
    {
        if name.as_str().is_empty() {
            GetSandbox::Done(Err(Status::new(Code::InvalidArgument, "name is required")))
        } else {
            GetSandbox::Fetch { name }
        }
    }
}

impl Flow for GetSandbox {
    type Output = Sandbox;

    open spec fn asks(&self) -> Option<Effect<'_>> {
        match self {
            GetSandbox::Fetch { name } => Some(Effect::SandboxByName(name)),
            GetSandbox::Done(_) => None,
        }
    }

    open spec fn follows(&self, reply: Reply, next: Self) -> bool {
        match (*self, reply) {
            (GetSandbox::Fetch { .. }, Reply::Sandbox(found)) => match found {
                Err(e) => next.failed(Code::Internal, "fetch sandbox failed: "@ + e@),
                Ok(None) => next.failed(Code::NotFound, "sandbox not found"@),
                Ok(Some(sandbox)) => next == GetSandbox::Done(Ok(sandbox)),
            },
            _ => false,
        }
    }

    open spec fn outcome(&self) -> Result<Sandbox, Status> {
        self->0
    }

    fn effect(&self) -> (r: Option<Effect<'_>>) {
        match self {
            GetSandbox::Fetch { name } => Some(Effect::SandboxByName(name)),
            GetSandbox::Done(_) => None,
        }
    }

    fn resume(self, reply: Reply) -> (next: Self) {
        match (self, reply) {
            (GetSandbox::Fetch { .. }, Reply::Sandbox(found)) => match found {
                Err(e) => GetSandbox::Done(
                    Err(Status::internal("fetch sandbox failed: ", e.as_str())),
                ),
                Ok(None) => GetSandbox::Done(Err(Status::new(Code::NotFound, "sandbox not found"))),
                Ok(Some(sandbox)) => GetSandbox::Done(Ok(sandbox)),
            },
            _ => unreached(),
        }
    }

    fn finish(self) -> (r: Result<Sandbox, Status>) {
        match self {
            GetSandbox::Done(r) => r,
            _ => unreached(),
        }
    }
}

/// `list` is what `records` hold, where all of them could be decoded: each sandbox
/// with the creation time of its record.
pub open spec fn listed(records: Seq<SandboxRecord>, list: Seq<Sandbox>) -> bool {
    &&& list.len() == records.len()
    &&& forall|i: int|
        0 <= i < records.len() ==> ((#[trigger] records[i]).sandbox matches Ok(sandbox) && list[i]
            == (Sandbox { created_at_ms: records[i].created_at_ms, ..sandbox }))
}

/// `records[i]` is the first one that could not be decoded.
pub open spec fn first_unreadable(records: Seq<SandboxRecord>, i: int) -> bool {
    &&& 0 <= i < records.len()
    &&& records[i].sandbox is Err
    &&& forall|j: int| 0 <= j < i ==> (#[trigger] records[j]).sandbox is Ok
}

/// The sandboxes that `records` hold, or the first error among them.
fn read_records(records: Vec<SandboxRecord>) -> (r: Result<Vec<Sandbox>, String>)
    ensures
        match r {
            Ok(list) => listed(records@, list@),
            Err(e) => exists|i: int| #[trigger]
                first_unreadable(records@, i) && records@[i].sandbox == Err::<Sandbox, String>(e),
        },
{
    let mut list: Vec<Sandbox> = Vec::new();
    for record in it: records
        invariant
            it.seq() == records@,
            list@.len() == it.index(),
            forall|j: int|
                0 <= j < list@.len() ==> ((#[trigger] records@[j]).sandbox matches Ok(sandbox)
                    && list@[j] == (Sandbox {
                    created_at_ms: records@[j].created_at_ms,
                    ..sandbox
                })),
    {
        match record.sandbox {
            Ok(sandbox) => {
                list.push(Sandbox { created_at_ms: record.created_at_ms, ..sandbox });
            },
            Err(e) => {
                assert(first_unreadable(records@, it.index()));
                return Err(e);
            },
        }
    }
    Ok(list)
}

/// Listing sandboxes.
pub enum ListSandboxes {
    Fetch { limit: u32, offset: u32 },
    Done(Result<Vec<Sandbox>, Status>),
}

impl ListSandboxes {
    pub open spec fn failed(self, code: Code, text: Seq<char>) -> bool {
        self matches ListSandboxes::Done(r) && fails(r, code, text)
    }

    /// Starts listing `limit` sandboxes at most, or a hundred where it is zero, after the
    /// first `offset`.
    pub fn begin(limit: u32, offset: u32) -> (flow: Self)
        ensures
            flow == (ListSandboxes::Fetch { limit: or_default(limit, 100), offset }),
    {
        ListSandboxes::Fetch { limit: with_default(limit, 100), offset }
    }
}

impl Flow for ListSandboxes {
    type Output = Vec<Sandbox>;

    open spec fn asks(&self) -> Option<Effect<'_>> {
        match *self {
            ListSandboxes::Fetch { limit, offset } => Some(Effect::ListSandboxes { limit, offset }),
            ListSandboxes::Done(_) => None,
        }
    }

    open spec fn follows(&self, reply: Reply, next: Self) -> bool {
        match (*self, reply) {
            (ListSandboxes::Fetch { .. }, Reply::Sandboxes(found)) => match found {
                Err(e) => next.failed(Code::Internal, "list sandboxes failed: "@ + e@),
                Ok(records) => {
                    ||| next matches ListSandboxes::Done(Ok(list)) && listed(records@, list@)
                    ||| exists|i: int| #[trigger]
                        first_unreadable(records@, i) && next.failed(
                            Code::Internal,
                            "decode sandbox failed: "@ + records@[i].sandbox->Err_0@,
                        )
                },
            },
            _ => false,
        }
    }

    open spec fn outcome(&self) -> Result<Vec<Sandbox>, Status> {
        self->0
    }

    fn effect(&self) -> (r: Option<Effect<'_>>) {
        match self {
            ListSandboxes::Fetch { limit, offset } => Some(
                Effect::ListSandboxes { limit: *limit, offset: *offset },
            ),
            ListSandboxes::Done(_) => None,
        }
    }

    fn resume(self, reply: Reply) -> (next: Self) {
        match (self, reply) {
            (ListSandboxes::Fetch { .. }, Reply::Sandboxes(found)) => match found {
                Err(e) => ListSandboxes::Done(
                    Err(Status::internal("list sandboxes failed: ", e.as_str())),
                ),
                Ok(records) => match read_records(records) {
                    Ok(list) => ListSandboxes::Done(Ok(list)),
                    Err(e) => ListSandboxes::Done(
                        Err(Status::internal("decode sandbox failed: ", e.as_str())),
                    ),
                },
            },
            _ => unreached(),
        }
    }

    fn finish(self) -> (r: Result<Vec<Sandbox>, Status>) {
        match self {
            ListSandboxes::Done(r) => r,
            _ => unreached(),
        }
    }
}

/// Deleting a sandbox.
pub enum DeleteSandbox {
    Fetch { name: String },
    /// The sandbox, marked as going, is stored,
    Persist { sandbox: Sandbox },
    /// entered in the index,
    Index { sandbox: Sandbox },
    /// announced to its watchers,
    Announce { sandbox: Sandbox },
    /// and deleted from the cluster.
    Delete { sandbox: Sandbox },
    /// The cluster did not know it: it is dropped from the store.
    Discard { id: String },
    /// Whether the cluster had something to delete.
    Done(Result<bool, Status>),
}

impl DeleteSandbox {
    pub open spec fn failed(self, code: Code, text: Seq<char>) -> bool {
        self matches DeleteSandbox::Done(r) && fails(r, code, text)
    }

    /// The request for `name` starts as `flow`.
    pub open spec fn begins(name: String, flow: Self) -> bool {
        if name@.len() == 0 {
            flow.failed(Code::InvalidArgument, "name is required"@)
        } else {
            flow == (DeleteSandbox::Fetch { name })
        }
    }

    /// Starts deleting the sandbox called `name`.
    pub fn begin(name: String) -> (flow: Self)
        ensures
            Self::begins(name, flow),
    {
        if name.as_str().is_empty() {
            DeleteSandbox::Done(Err(Status::new(Code::InvalidArgument, "name is required")))
        } else {
            DeleteSandbox::Fetch { name }
        }
    }
}

impl Flow for DeleteSandbox {
    type Output = bool;

    open spec fn asks(&self) -> Option<Effect<'_>> {
        match self {
            DeleteSandbox::Fetch { name } => Some(Effect::SandboxByName(name)),
            DeleteSandbox::Persist { sandbox } => Some(Effect::PutSandbox(sandbox)),
            DeleteSandbox::Index { sandbox } => Some(Effect::IndexSandbox(sandbox)),
            DeleteSandbox::Announce { sandbox } => Some(Effect::Notify(&sandbox.id)),
            DeleteSandbox::Delete { sandbox } => Some(Effect::DeleteInCluster(&sandbox.name)),
            DeleteSandbox::Discard { id } => Some(Effect::DeleteSandbox(id)),
            DeleteSandbox::Done(_) => None,
        }
    }

    open spec fn follows(&self, reply: Reply, next: Self) -> bool {
        match (*self, reply) {
            (DeleteSandbox::Fetch { .. }, Reply::Sandbox(found)) => match found {
                Err(e) => next.failed(Code::Internal, "fetch sandbox failed: "@ + e@),
                Ok(None) => next.failed(Code::NotFound, "sandbox not found"@),
                Ok(Some(sandbox)) => next == (DeleteSandbox::Persist {
                    sandbox: Sandbox { phase: SandboxPhase::Deleting, ..sandbox },
                }),
            },
            (DeleteSandbox::Persist { sandbox }, Reply::Stored(stored)) => match stored {
                Err(e) => next.failed(Code::Internal, "persist sandbox failed: "@ + e@),
                Ok(_) => next == (DeleteSandbox::Index { sandbox }),
            },
            (DeleteSandbox::Index { sandbox }, Reply::Done) => next == (DeleteSandbox::Announce {
                sandbox,
            }),
            (DeleteSandbox::Announce { sandbox }, Reply::Done) => next == (DeleteSandbox::Delete {
                sandbox,
            }),
            (DeleteSandbox::Delete { sandbox }, Reply::Changed(changed)) => match changed {
                Err(e) => next.failed(
                    Code::Internal,
                    "delete sandbox in kubernetes failed: "@ + e@,
                ),
                Ok(true) => next == DeleteSandbox::Done(Ok(true)),
                Ok(false) => next == (DeleteSandbox::Discard { id: sandbox.id }),
            },
            (DeleteSandbox::Discard { .. }, Reply::Changed(_)) => next == DeleteSandbox::Done(
                Ok(false),
            ),
            _ => false,
        }
    }

    open spec fn outcome(&self) -> Result<bool, Status> {
        self->0
    }

    fn effect(&self) -> (r: Option<Effect<'_>>) {
        match self {
            DeleteSandbox::Fetch { name } => Some(Effect::SandboxByName(name)),
            DeleteSandbox::Persist { sandbox } => Some(Effect::PutSandbox(sandbox)),
            DeleteSandbox::Index { sandbox } => Some(Effect::IndexSandbox(sandbox)),
            DeleteSandbox::Announce { sandbox } => Some(Effect::Notify(&sandbox.id)),
            DeleteSandbox::Delete { sandbox } => Some(Effect::DeleteInCluster(&sandbox.name)),
            DeleteSandbox::Discard { id } => Some(Effect::DeleteSandbox(id)),
            DeleteSandbox::Done(_) => None,
        }
    }

    fn resume(self, reply: Reply) -> (next: Self) {
        match (self, reply) {
            (DeleteSandbox::Fetch { .. }, Reply::Sandbox(found)) => match found {
                Err(e) => DeleteSandbox::Done(
                    Err(Status::internal("fetch sandbox failed: ", e.as_str())),
                ),
                Ok(None) => DeleteSandbox::Done(
                    Err(Status::new(Code::NotFound, "sandbox not found")),
                ),
                Ok(Some(sandbox)) => DeleteSandbox::Persist {
                    sandbox: Sandbox { phase: SandboxPhase::Deleting, ..sandbox },
                },
            },
            (DeleteSandbox::Persist { sandbox }, Reply::Stored(stored)) => match stored {
                Err(e) => DeleteSandbox::Done(
                    Err(Status::internal("persist sandbox failed: ", e.as_str())),
                ),
                Ok(_) => DeleteSandbox::Index { sandbox },
            },
            (DeleteSandbox::Index { sandbox }, Reply::Done) => DeleteSandbox::Announce { sandbox },
            (DeleteSandbox::Announce { sandbox }, Reply::Done) => DeleteSandbox::Delete { sandbox },
            (DeleteSandbox::Delete { sandbox }, Reply::Changed(changed)) => match changed {
                Err(e) => DeleteSandbox::Done(
                    Err(Status::internal("delete sandbox in kubernetes failed: ", e.as_str())),
                ),
                Ok(deleted) => if deleted {
                    DeleteSandbox::Done(Ok(true))
                } else {
                    DeleteSandbox::Discard { id: sandbox.id }
                },
            },
            (DeleteSandbox::Discard { .. }, Reply::Changed(_)) => DeleteSandbox::Done(Ok(false)),
            _ => unreached(),
        }
    }

    fn finish(self) -> (r: Result<bool, Status>) {
        match self {
            DeleteSandbox::Done(r) => r,
            _ => unreached(),
        }
    }
}

} // verus!
