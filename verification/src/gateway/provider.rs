//! Providers: creating, reading, listing, changing and deleting them.
use crate::gateway::flow::{decode_all, decoded, first_undecoded, Effect, Flow, Reply};
use crate::gateway::model::Provider;
use crate::ident::{is_uuid, new_uuid};
use crate::status::{fails, Code, Status};
use crate::text::{trim, trimmed};
use vstd::pervasive::unreached;
use vstd::prelude::*;

verus! {

/// Creating a provider.
pub enum CreateProviderRecord {
    /// The provider needs a name.
    Name { provider: Provider },
    /// Its name must not be taken.
    Lookup { provider: Provider },
    /// It is complete and goes to the store.
    Persist { provider: Provider },
    Done(Result<Provider, Status>),
}

impl CreateProviderRecord {
    /// The creation has failed with the code `code` and the message `text`.
    pub open spec fn failed(self, code: Code, text: Seq<char>) -> bool {
        self matches CreateProviderRecord::Done(r) && fails(r, code, text)
    }

    /// The creation of the named provider `provider` starts as `flow`: one without a
    /// type or without credentials is refused.
    pub open spec fn checks(provider: Provider, flow: Self) -> bool {
        if trimmed(provider.kind@).len() == 0 {
            flow.failed(Code::InvalidArgument, "provider.type is required"@)
        } else if provider.credentials@ == Map::<Seq<char>, String>::empty() {
            flow.failed(Code::InvalidArgument, "provider.credentials must not be empty"@)
        } else {
            flow == CreateProviderRecord::Lookup { provider }
        }
    }

    /// The creation of `provider` starts as `flow`. Without a name it is given one first.
    pub open spec fn begins(provider: Provider, flow: Self) -> bool {
        if provider.name@.len() == 0 {
            flow == (CreateProviderRecord::Name { provider })
        } else {
            Self::checks(provider, flow)
        }
    }

    fn check(provider: Provider) -> (flow: Self)
        ensures
            Self::checks(provider, flow),
    {
        if trim(provider.kind.as_str()).as_str().is_empty() {
            return CreateProviderRecord::Done(
                Err(Status::new(Code::InvalidArgument, "provider.type is required")),
            );
        }
        if provider.credentials.is_empty() {
            return CreateProviderRecord::Done(
                Err(Status::new(Code::InvalidArgument, "provider.credentials must not be empty")),
            );
        }
        CreateProviderRecord::Lookup { provider }
    }

    /// Goes on to store `provider` under the id `id`.
    pub fn persist(provider: Provider, id: String) -> (flow: Self)
        ensures
            flow == (CreateProviderRecord::Persist { provider: Provider { id, ..provider } }),
    {
        CreateProviderRecord::Persist { provider: Provider { id, ..provider } }
    }
}

/// Starts the creation of `provider`.
pub fn create_provider_record(provider: Provider) -> (flow: CreateProviderRecord)
    ensures
        CreateProviderRecord::begins(provider, flow),
{
    if provider.name.as_str().is_empty() {
        CreateProviderRecord::Name { provider }
    } else {
        CreateProviderRecord::check(provider)
    }
}

impl Flow for CreateProviderRecord {
    type Output = Provider;

    open spec fn asks(&self) -> Option<Effect<'_>> {
        match self {
            CreateProviderRecord::Name { .. } => Some(Effect::GenerateName),
            CreateProviderRecord::Lookup { provider } => Some(
                Effect::ProviderByName(&provider.name),
            ),
            CreateProviderRecord::Persist { provider } => Some(Effect::PutProvider(provider)),
            CreateProviderRecord::Done(_) => None,
        }
    }

    open spec fn follows(&self, reply: Reply, next: Self) -> bool {
        match (*self, reply) {
            (CreateProviderRecord::Name { provider }, Reply::Name(name)) => Self::checks(
                Provider { name, ..provider },
                next,
            ),
            (
                CreateProviderRecord::Lookup { provider },
                Reply::Provider(found),
            ) => match found {
                Err(e) => next.failed(Code::Internal, "fetch provider failed: "@ + e@),
                Ok(Some(_)) => next.failed(Code::AlreadyExists, "provider already exists"@),
                Ok(None) => next matches CreateProviderRecord::Persist { provider: complete }
                    && is_uuid(complete.id@) && complete == (Provider {
                    id: complete.id,
                    ..provider
                }),
            },
            (CreateProviderRecord::Persist { provider }, Reply::Stored(stored)) => match stored {
                Err(e) => next.failed(Code::Internal, "persist provider failed: "@ + e@),
                Ok(_) => next == CreateProviderRecord::Done(Ok(provider)),
            },
            _ => false,
        }
    }

    open spec fn outcome(&self) -> Result<Provider, Status> {
        self->0
    }

    fn effect(&self) -> (r: Option<Effect<'_>>) {
        match self {
            CreateProviderRecord::Name { .. } => Some(Effect::GenerateName),
            CreateProviderRecord::Lookup { provider } => Some(
                Effect::ProviderByName(&provider.name),
            ),
            CreateProviderRecord::Persist { provider } => Some(Effect::PutProvider(provider)),
            CreateProviderRecord::Done(_) => None,
        }
    }

    fn resume(self, reply: Reply) -> (next: Self) {
        match (self, reply) {
            (CreateProviderRecord::Name { provider }, Reply::Name(name)) => Self::check(
                Provider { name, ..provider },
            ),
            (
                CreateProviderRecord::Lookup { provider },
                Reply::Provider(found),
            ) => match found {
                Err(e) => CreateProviderRecord::Done(
                    Err(Status::internal("fetch provider failed: ", e.as_str())),
                ),
                Ok(Some(_)) => CreateProviderRecord::Done(
                    Err(Status::new(Code::AlreadyExists, "provider already exists")),
                ),
                Ok(None) => Self::persist(provider, new_uuid()),
            },
            (CreateProviderRecord::Persist { provider }, Reply::Stored(stored)) => match stored {
                Err(e) => CreateProviderRecord::Done(
                    Err(Status::internal("persist provider failed: ", e.as_str())),
                ),
                Ok(_) => CreateProviderRecord::Done(Ok(provider)),
            },
            _ => unreached(),
        }
    }

    fn finish(self) -> (r: Result<Provider, Status>) {
        match self {
            CreateProviderRecord::Done(r) => r,
            _ => unreached(),
        }
    }
}

/// Reading a provider.
pub enum GetProviderRecord {
    Fetch { name: String },
    Done(Result<Provider, Status>),
}

impl GetProviderRecord {
    pub open spec fn failed(self, code: Code, text: Seq<char>) -> bool {
        self matches GetProviderRecord::Done(r) && fails(r, code, text)
    }

    /// Reading the provider called `name` starts as `flow`.
    pub open spec fn begins(name: String, flow: Self) -> bool {
        if name@.len() == 0 {
            flow.failed(Code::InvalidArgument, "name is required"@)
        } else {
            flow == GetProviderRecord::Fetch { name }
        }
    }
}

/// Starts reading the provider called `name`.
pub fn get_provider_record(name: String) -> (flow: GetProviderRecord)
    ensures
        GetProviderRecord::begins(name, flow),
{
    if name.as_str().is_empty() {
        GetProviderRecord::Done(Err(Status::new(Code::InvalidArgument, "name is required")))
    } else {
        GetProviderRecord::Fetch { name }
    }
}

impl Flow for GetProviderRecord {
    type Output = Provider;

    open spec fn asks(&self) -> Option<Effect<'_>> {
        match self {
            GetProviderRecord::Fetch { name } => Some(Effect::ProviderByName(name)),
            GetProviderRecord::Done(_) => None,
        }
    }

    open spec fn follows(&self, reply: Reply, next: Self) -> bool {
        match (*self, reply) {
            (GetProviderRecord::Fetch { .. }, Reply::Provider(found)) => match found {
                Err(e) => next.failed(Code::Internal, "fetch provider failed: "@ + e@),
                Ok(None) => next.failed(Code::NotFound, "provider not found"@),
                Ok(Some(provider)) => next == GetProviderRecord::Done(Ok(provider)),
            },
            _ => false,
        }
    }

    open spec fn outcome(&self) -> Result<Provider, Status> {
        self->0
    }

    fn effect(&self) -> (r: Option<Effect<'_>>) {
        match self {
            GetProviderRecord::Fetch { name } => Some(Effect::ProviderByName(name)),
            GetProviderRecord::Done(_) => None,
        }
    }

    fn resume(self, reply: Reply) -> (next: Self) {
        match (self, reply) {
            (GetProviderRecord::Fetch { .. }, Reply::Provider(found)) => match found {
                Err(e) => GetProviderRecord::Done(
                    Err(Status::internal("fetch provider failed: ", e.as_str())),
                ),
                Ok(None) => GetProviderRecord::Done(
                    Err(Status::new(Code::NotFound, "provider not found")),
                ),
                Ok(Some(provider)) => GetProviderRecord::Done(Ok(provider)),
            },
            _ => unreached(),
        }
    }

    fn finish(self) -> (r: Result<Provider, Status>) {
        match self {
            GetProviderRecord::Done(r) => r,
            _ => unreached(),
        }
    }
}

/// Listing providers.
pub enum ListProviderRecords {
    Fetch { limit: u32, offset: u32 },
    Done(Result<Vec<Provider>, Status>),
}

impl ListProviderRecords {
    pub open spec fn failed(self, code: Code, text: Seq<char>) -> bool {
        self matches ListProviderRecords::Done(r) && fails(r, code, text)
    }
}

/// Starts listing `limit` providers at most, after the first `offset`.
pub fn list_provider_records(limit: u32, offset: u32) -> (flow: ListProviderRecords)
    ensures
        flow == (ListProviderRecords::Fetch { limit, offset }),
{
    ListProviderRecords::Fetch { limit, offset }
}

impl Flow for ListProviderRecords {
    type Output = Vec<Provider>;

    open spec fn asks(&self) -> Option<Effect<'_>> {
        match *self {
            ListProviderRecords::Fetch { limit, offset } => Some(
                Effect::ListProviders { limit, offset },
            ),
            ListProviderRecords::Done(_) => None,
        }
    }

    open spec fn follows(&self, reply: Reply, next: Self) -> bool {
        match (*self, reply) {
            (ListProviderRecords::Fetch { .. }, Reply::Providers(found)) => match found {
                Err(e) => next.failed(Code::Internal, "list providers failed: "@ + e@),
                Ok(records) => {
                    ||| next matches ListProviderRecords::Done(Ok(list)) && decoded(
                        records@,
                        list@,
                    )
                    ||| exists|i: int| #[trigger]
                        first_undecoded(records@, i) && next.failed(
                            Code::Internal,
                            "decode provider failed: "@ + records@[i]->Err_0@,
                        )
                },
            },
            _ => false,
        }
    }

    open spec fn outcome(&self) -> Result<Vec<Provider>, Status> {
        self->0
    }

    fn effect(&self) -> (r: Option<Effect<'_>>) {
        match self {
            ListProviderRecords::Fetch { limit, offset } => Some(
                Effect::ListProviders { limit: *limit, offset: *offset },
            ),
            ListProviderRecords::Done(_) => None,
        }
    }

    fn resume(self, reply: Reply) -> (next: Self) {
        match (self, reply) {
            (ListProviderRecords::Fetch { .. }, Reply::Providers(found)) => match found {
                Err(e) => ListProviderRecords::Done(
                    Err(Status::internal("list providers failed: ", e.as_str())),
                ),
                Ok(records) => match decode_all(records) {
                    Ok(list) => ListProviderRecords::Done(Ok(list)),
                    Err(e) => ListProviderRecords::Done(
                        Err(Status::internal("decode provider failed: ", e.as_str())),
                    ),
                },
            },
            _ => unreached(),
        }
    }

    fn finish(self) -> (r: Result<Vec<Provider>, Status>) {
        match self {
            ListProviderRecords::Done(r) => r,
            _ => unreached(),
        }
    }
}

/// Changing a provider.
pub enum UpdateProviderRecord {
    /// The provider must exist.
    Lookup { provider: Provider },
    /// The changed provider goes to the store.
    Persist { updated: Provider },
    Done(Result<Provider, Status>),
}

impl UpdateProviderRecord {
    pub open spec fn failed(self, code: Code, text: Seq<char>) -> bool {
        self matches UpdateProviderRecord::Done(r) && fails(r, code, text)
    }

    /// Changing the provider with the name of `provider` starts as `flow`.
    pub open spec fn begins(provider: Provider, flow: Self) -> bool {
        if provider.name@.len() == 0 {
            flow.failed(Code::InvalidArgument, "provider.name is required"@)
        } else if trimmed(provider.kind@).len() == 0 {
            flow.failed(Code::InvalidArgument, "provider.type is required"@)
        } else {
            flow == UpdateProviderRecord::Lookup { provider }
        }
    }
}

/// Starts changing the provider with the name of `provider`.
pub fn update_provider_record(provider: Provider) -> (flow: UpdateProviderRecord)
    ensures
        UpdateProviderRecord::begins(provider, flow),
{
    if provider.name.as_str().is_empty() {
        return UpdateProviderRecord::Done(
            Err(Status::new(Code::InvalidArgument, "provider.name is required")),
        );
    }
    if trim(provider.kind.as_str()).as_str().is_empty() {
        return UpdateProviderRecord::Done(
            Err(Status::new(Code::InvalidArgument, "provider.type is required")),
        );
    }
    UpdateProviderRecord::Lookup { provider }
}

impl Flow for UpdateProviderRecord {
    type Output = Provider;

    open spec fn asks(&self) -> Option<Effect<'_>> {
        match self {
            UpdateProviderRecord::Lookup { provider } => Some(
                Effect::ProviderByName(&provider.name),
            ),
            UpdateProviderRecord::Persist { updated } => Some(Effect::PutProvider(updated)),
            UpdateProviderRecord::Done(_) => None,
        }
    }

    open spec fn follows(&self, reply: Reply, next: Self) -> bool {
        match (*self, reply) {
            (
                UpdateProviderRecord::Lookup { provider },
                Reply::Provider(found),
            ) => match found {
                Err(e) => next.failed(Code::Internal, "fetch provider failed: "@ + e@),
                Ok(None) => next.failed(Code::NotFound, "provider not found"@),
                Ok(Some(existing)) => next == (UpdateProviderRecord::Persist {
                    updated: Provider { id: existing.id, name: existing.name, ..provider },
                }),
            },
            (UpdateProviderRecord::Persist { updated }, Reply::Stored(stored)) => match stored {
                Err(e) => next.failed(Code::Internal, "persist provider failed: "@ + e@),
                Ok(_) => next == UpdateProviderRecord::Done(Ok(updated)),
            },
            _ => false,
        }
    }

    open spec fn outcome(&self) -> Result<Provider, Status> {
        self->0
    }

    fn effect(&self) -> (r: Option<Effect<'_>>) {
        match self {
            UpdateProviderRecord::Lookup { provider } => Some(
                Effect::ProviderByName(&provider.name),
            ),
            UpdateProviderRecord::Persist { updated } => Some(Effect::PutProvider(updated)),
            UpdateProviderRecord::Done(_) => None,
        }
    }

    fn resume(self, reply: Reply) -> (next: Self) {
        match (self, reply) {
            (
                UpdateProviderRecord::Lookup { provider },
                Reply::Provider(found),
            ) => match found {
                Err(e) => UpdateProviderRecord::Done(
                    Err(Status::internal("fetch provider failed: ", e.as_str())),
                ),
                Ok(None) => UpdateProviderRecord::Done(
                    Err(Status::new(Code::NotFound, "provider not found")),
                ),
                Ok(Some(existing)) => UpdateProviderRecord::Persist {
                    updated: Provider { id: existing.id, name: existing.name, ..provider },
                },
            },
            (UpdateProviderRecord::Persist { updated }, Reply::Stored(stored)) => match stored {
                Err(e) => UpdateProviderRecord::Done(
                    Err(Status::internal("persist provider failed: ", e.as_str())),
                ),
                Ok(_) => UpdateProviderRecord::Done(Ok(updated)),
            },
            _ => unreached(),
        }
    }

    fn finish(self) -> (r: Result<Provider, Status>) {
        match self {
            UpdateProviderRecord::Done(r) => r,
            _ => unreached(),
        }
    }
}

/// Deleting a provider.
pub enum DeleteProviderRecord {
    Delete { name: String },
    Done(Result<bool, Status>),
}

impl DeleteProviderRecord {
    pub open spec fn failed(self, code: Code, text: Seq<char>) -> bool {
        self matches DeleteProviderRecord::Done(r) && fails(r, code, text)
    }

    /// Deleting the provider called `name` starts as `flow`.
    pub open spec fn begins(name: String, flow: Self) -> bool {
        if name@.len() == 0 {
            flow.failed(Code::InvalidArgument, "name is required"@)
        } else {
            flow == DeleteProviderRecord::Delete { name }
        }
    }
}

/// Starts deleting the provider called `name`.
pub fn delete_provider_record(name: String) -> (flow: DeleteProviderRecord)
    ensures
        DeleteProviderRecord::begins(name, flow),
{
    if name.as_str().is_empty() {
        DeleteProviderRecord::Done(Err(Status::new(Code::InvalidArgument, "name is required")))
    } else {
        DeleteProviderRecord::Delete { name }
    }
}

impl Flow for DeleteProviderRecord {
    type Output = bool;

    open spec fn asks(&self) -> Option<Effect<'_>> {
        match self {
            DeleteProviderRecord::Delete { name } => Some(Effect::DeleteProviderByName(name)),
            DeleteProviderRecord::Done(_) => None,
        }
    }

    open spec fn follows(&self, reply: Reply, next: Self) -> bool {
        match (*self, reply) {
            (DeleteProviderRecord::Delete { .. }, Reply::Changed(changed)) => match changed {
                Err(e) => next.failed(Code::Internal, "delete provider failed: "@ + e@),
                Ok(deleted) => next == DeleteProviderRecord::Done(Ok(deleted)),
            },
            _ => false,
        }
    }

    open spec fn outcome(&self) -> Result<bool, Status> {
        self->0
    }

    fn effect(&self) -> (r: Option<Effect<'_>>) {
        match self {
            DeleteProviderRecord::Delete { name } => Some(Effect::DeleteProviderByName(name)),
            DeleteProviderRecord::Done(_) => None,
        }
    }

    fn resume(self, reply: Reply) -> (next: Self) {
        match (self, reply) {
            (DeleteProviderRecord::Delete { .. }, Reply::Changed(changed)) => match changed {
                Err(e) => DeleteProviderRecord::Done(
                    Err(Status::internal("delete provider failed: ", e.as_str())),
                ),
                Ok(deleted) => DeleteProviderRecord::Done(Ok(deleted)),
            },
            _ => unreached(),
        }
    }

    fn finish(self) -> (r: Result<bool, Status>) {
        match self {
            DeleteProviderRecord::Done(r) => r,
            _ => unreached(),
        }
    }
}

} // verus!
