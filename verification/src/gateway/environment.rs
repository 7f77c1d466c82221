//! The environment that a sandbox gets from its providers.
use crate::exec_command::{is_env_key, is_valid_env_key};
use crate::gateway::flow::{Effect, Flow, Reply};
use crate::gateway::model::ProviderView;
use crate::gateway::world::{ends, world_answers, World};
use crate::status::{fails, Code, Status};
use crate::string_map::{lemma_sorted_keys_exist, lists, sorted_keys, StringMap};
use crate::text::concat3;
use vstd::pervasive::unreached;
use vstd::prelude::*;

verus! {

/// `environment` with those of `credentials` added that can be environment variables
/// and whose names are not taken yet.
pub open spec fn merged(
    environment: Map<Seq<char>, Seq<char>>,
    credentials: Map<Seq<char>, Seq<char>>,
) -> Map<Seq<char>, Seq<char>> {
    credentials.restrict(Set::new(|key: Seq<char>| is_env_key(key))).union_prefer_right(environment)
}

/// Adds those of `credentials` that can be environment variables and whose names are
/// not taken yet.
fn merge_credentials(environment: &mut StringMap<String>, credentials: &StringMap<String>)
    ensures
        final(environment).deep_view() == merged(
            old(environment).deep_view(),
            credentials.deep_view(),
        ),
{
    let ghost before = environment.deep_view();
    let ghost all = credentials.deep_view();
    let n = credentials.len();
    let ghost keys = sorted_keys(credentials@.dom());
    proof {
        lemma_sorted_keys_exist(credentials@.dom());
        assert(all.restrict(keys.take(0).to_set()) =~= Map::<Seq<char>, Seq<char>>::empty());
        assert(environment.deep_view() =~= merged(before, all.restrict(keys.take(0).to_set())));
    }
    for i in 0..n
        invariant
            all == credentials.deep_view(),
            keys == sorted_keys(credentials@.dom()),
            n == keys.len(),
            lists(keys, credentials@.dom()),
            environment.deep_view() == merged(before, all.restrict(keys.take(i as int).to_set())),
    {
        let key = credentials.key_at(i);
        let ghost had = environment.deep_view();
        let ghost seen = keys.take(i as int).to_set();
        let ghost now = keys.take(i + 1).to_set();
        proof {
            let k = keys[i as int];
            let head = keys.take(i as int);
            let longer = keys.take(i + 1);
            assert(longer =~= head.push(k));
            assert(now =~= seen.insert(k)) by {
                assert forall|x: Seq<char>| seen.insert(k).contains(x) implies now.contains(x) by {
                    if x == k {
                        assert(longer[i as int] == k);
                    } else {
                        let j = choose|j: int| 0 <= j < head.len() && head[j] == x;
                        assert(longer[j] == x);
                    }
                }
            }
        }
        if is_valid_env_key(key.as_str()) && !environment.contains_key(key.as_str()) {
            let value = credentials.value_at(i);
            environment.insert(key.clone(), value.clone());
            assert(!had.contains_key(key@));
            assert(environment.deep_view() =~= had.insert(key@, all[key@]));
        }
        proof {
            let k = keys[i as int];
            let got = environment.deep_view();
            let want = merged(before, all.restrict(now));
            assert(all.contains_key(k));
            assert(had == merged(before, all.restrict(seen)));
            assert forall|x: Seq<char>| got.contains_key(x) implies got[x] == want[x] by {
                if before.contains_key(x) {
                    assert(want[x] == before[x]);
                    assert(had[x] == before[x]);
                } else {
                    assert(want[x] == all.restrict(now)[x]);
                    if had.contains_key(x) {
                        assert(seen.contains(x));
                        assert(had[x] == all.restrict(seen)[x]);
                    }
                }
            }
            assert(got =~= want);
        }
    }
    proof {
        assert(keys.take(n as int) =~= keys);
        assert(all.restrict(keys.to_set()) =~= all);
    }
}

/// Collecting the credentials of several providers.
pub enum ResolveProviderEnvironment {
    /// The next provider is `name`; the ones in `rest` come after it.
    Fetch { name: String, rest: Vec<String>, environment: StringMap<String> },
    Done(Result<StringMap<String>, Status>),
}

impl ResolveProviderEnvironment {
    pub open spec fn failed(self, code: Code, text: Seq<char>) -> bool {
        self matches ResolveProviderEnvironment::Done(r) && fails(r, code, text)
    }

    /// With `environment` collected and the providers `names` to come, the collection
    /// stands at `flow`.
    pub open spec fn stands(
        names: Seq<String>,
        environment: Map<Seq<char>, Seq<char>>,
        flow: Self,
    ) -> bool {
        if names.len() == 0 {
            flow matches ResolveProviderEnvironment::Done(Ok(result)) && result.deep_view()
                == environment
        } else {
            flow matches ResolveProviderEnvironment::Fetch { name, rest, environment: collected }
                && name == names[0] && rest@ == names.skip(1) && collected.deep_view()
                == environment
        }
    }

    fn stand(names: Vec<String>, environment: StringMap<String>) -> (flow: Self)
        ensures
            Self::stands(names@, environment.deep_view(), flow),
    {
        if names.len() == 0 {
            ResolveProviderEnvironment::Done(Ok(environment))
        } else {
            let mut rest = names;
            let name = rest.remove(0);
            assert(rest@ =~= names@.skip(1));
            ResolveProviderEnvironment::Fetch { name, rest, environment }
        }
    }
}

/// Starts collecting the credentials of the providers `provider_names` into one
/// environment. Where two of them have the same key, the first one's value stays.
pub fn resolve_provider_environment(provider_names: Vec<String>) -> (flow:
    ResolveProviderEnvironment)
    ensures
        ResolveProviderEnvironment::stands(provider_names@, Map::empty(), flow),
{
    let environment: StringMap<String> = StringMap::new();
    assert(environment.deep_view() =~= Map::<Seq<char>, Seq<char>>::empty());
    ResolveProviderEnvironment::stand(provider_names, environment)
}

impl Flow for ResolveProviderEnvironment {
    type Output = StringMap<String>;

    open spec fn asks(&self) -> Option<Effect<'_>> {
        match self {
            ResolveProviderEnvironment::Fetch { name, .. } => Some(Effect::ProviderByName(name)),
            ResolveProviderEnvironment::Done(_) => None,
        }
    }

    open spec fn follows(&self, reply: Reply, next: Self) -> bool {
        match (*self, reply) {
            (
                ResolveProviderEnvironment::Fetch { name, rest, environment },
                Reply::Provider(found),
            ) => match found {
                Err(e) => next.failed(
                    Code::Internal,
                    "failed to fetch provider '"@ + name@ + "': "@ + e@,
                ),
                Ok(None) => next.failed(
                    Code::FailedPrecondition,
                    "provider '"@ + name@ + "' not found"@,
                ),
                Ok(Some(provider)) => Self::stands(
                    rest@,
                    merged(environment.deep_view(), provider.credentials.deep_view()),
                    next,
                ),
            },
            _ => false,
        }
    }

    open spec fn outcome(&self) -> Result<StringMap<String>, Status> {
        self->0
    }

    fn effect(&self) -> (r: Option<Effect<'_>>) {
        match self {
            ResolveProviderEnvironment::Fetch { name, .. } => Some(Effect::ProviderByName(name)),
            ResolveProviderEnvironment::Done(_) => None,
        }
    }

    fn resume(self, reply: Reply) -> (next: Self) {
        match (self, reply) {
            (
                ResolveProviderEnvironment::Fetch { name, rest, environment },
                Reply::Provider(found),
            ) => match found {
                Err(e) => {
                    let attempt = concat3("failed to fetch provider '", name.as_str(), "': ");
                    ResolveProviderEnvironment::Done(
                        Err(Status::internal(attempt.as_str(), e.as_str())),
                    )
                },
                Ok(None) => {
                    let message = concat3("provider '", name.as_str(), "' not found");
                    ResolveProviderEnvironment::Done(
                        Err(Status { code: Code::FailedPrecondition, message }),
                    )
                },
                Ok(Some(provider)) => {
                    let mut environment = environment;
                    merge_credentials(&mut environment, &provider.credentials);
                    Self::stand(rest, environment)
                },
            },
            _ => unreached(),
        }
    }

    fn finish(self) -> (r: Result<StringMap<String>, Status>) {
        match self {
            ResolveProviderEnvironment::Done(r) => r,
            _ => unreached(),
        }
    }
}

/// Finding the environment of a sandbox.
pub enum GetSandboxProviderEnvironment {
    FetchSandbox { sandbox_id: String },
    /// The sandbox is there, and its providers' credentials are collected.
    Resolve(ResolveProviderEnvironment),
    Done(Status),
}

/// Starts finding the environment of the sandbox with the id `sandbox_id`.
pub fn get_sandbox_provider_environment(sandbox_id: String) -> (flow:
    GetSandboxProviderEnvironment)
    ensures
        flow == (GetSandboxProviderEnvironment::FetchSandbox { sandbox_id }),
{
    GetSandboxProviderEnvironment::FetchSandbox { sandbox_id }
}

impl GetSandboxProviderEnvironment {
    pub open spec fn failed(self, code: Code, text: Seq<char>) -> bool {
        self matches GetSandboxProviderEnvironment::Done(status) && status.says(code, text)
    }
}

impl Flow for GetSandboxProviderEnvironment {
    type Output = StringMap<String>;

    open spec fn asks(&self) -> Option<Effect<'_>> {
        match self {
            GetSandboxProviderEnvironment::FetchSandbox { sandbox_id } => Some(
                Effect::SandboxById(sandbox_id),
            ),
            GetSandboxProviderEnvironment::Resolve(resolve) => resolve.asks(),
            GetSandboxProviderEnvironment::Done(_) => None,
        }
    }

    open spec fn follows(&self, reply: Reply, next: Self) -> bool {
        match (*self, reply) {
            (
                GetSandboxProviderEnvironment::FetchSandbox { .. },
                Reply::Sandbox(found),
            ) => match found {
                Err(e) => next.failed(Code::Internal, "fetch sandbox failed: "@ + e@),
                Ok(None) => next.failed(Code::NotFound, "sandbox not found"@),
                Ok(Some(sandbox)) => match sandbox.spec {
                    None => next.failed(Code::Internal, "sandbox has no spec"@),
                    Some(spec) => next matches GetSandboxProviderEnvironment::Resolve(resolve)
                        && ResolveProviderEnvironment::stands(
                        spec.providers@,
                        Map::empty(),
                        resolve,
                    ),
                },
            },
            (GetSandboxProviderEnvironment::Resolve(resolve), reply) => {
                next matches GetSandboxProviderEnvironment::Resolve(resolved) && resolve.follows(
                    reply,
                    resolved,
                )
            },
            _ => false,
        }
    }

    open spec fn outcome(&self) -> Result<StringMap<String>, Status> {
        match *self {
            GetSandboxProviderEnvironment::Resolve(resolve) => resolve.outcome(),
            GetSandboxProviderEnvironment::Done(status) => Err(status),
            _ => arbitrary(),
        }
    }

    fn effect(&self) -> (r: Option<Effect<'_>>) {
        match self {
            GetSandboxProviderEnvironment::FetchSandbox { sandbox_id } => Some(
                Effect::SandboxById(sandbox_id),
            ),
            GetSandboxProviderEnvironment::Resolve(resolve) => resolve.effect(),
            GetSandboxProviderEnvironment::Done(_) => None,
        }
    }

    fn resume(self, reply: Reply) -> (next: Self) {
        match self {
            GetSandboxProviderEnvironment::FetchSandbox { .. } => match reply {
                Reply::Sandbox(found) => match found {
                    Err(e) => GetSandboxProviderEnvironment::Done(
                        Status::internal("fetch sandbox failed: ", e.as_str()),
                    ),
                    Ok(None) => GetSandboxProviderEnvironment::Done(
                        Status::new(Code::NotFound, "sandbox not found"),
                    ),
                    Ok(Some(sandbox)) => match sandbox.spec {
                        None => GetSandboxProviderEnvironment::Done(
                            Status::new(Code::Internal, "sandbox has no spec"),
                        ),
                        Some(spec) => GetSandboxProviderEnvironment::Resolve(
                            resolve_provider_environment(spec.providers),
                        ),
                    },
                },
                _ => unreached(),
            },
            GetSandboxProviderEnvironment::Resolve(resolve) => {
                GetSandboxProviderEnvironment::Resolve(resolve.resume(reply))
            },
            GetSandboxProviderEnvironment::Done(_) => unreached(),
        }
    }

    fn finish(self) -> (r: Result<StringMap<String>, Status>) {
        match self {
            GetSandboxProviderEnvironment::Resolve(resolve) => resolve.finish(),
            GetSandboxProviderEnvironment::Done(status) => Err(status),
            _ => unreached(),
        }
    }
}

/// `environment` with the credentials of `providers` added, one provider after the other.
pub open spec fn merged_all(
    environment: Map<Seq<char>, Seq<char>>,
    providers: Seq<ProviderView>,
) -> Map<Seq<char>, Seq<char>>
    decreases providers.len(),
{
    if providers.len() == 0 {
        environment
    } else {
        merged_all(merged(environment, providers[0].credentials), providers.skip(1))
    }
}

/// The providers called `names` in the store.
pub open spec fn named_providers(world: World, names: Seq<String>) -> Seq<ProviderView> {
    Seq::new(names.len(), |i: int| world.providers[names[i]@])
}

proof fn lemma_resolve_ends(
    world: World,
    names: Seq<String>,
    environment: Map<Seq<char>, Seq<char>>,
    flow: ResolveProviderEnvironment,
    last: ResolveProviderEnvironment,
    after: World,
    steps: nat,
)
    requires
        ResolveProviderEnvironment::stands(names, environment, flow),
        ends(flow, world, last, after, steps),
        forall|i: int| 0 <= i < names.len() ==> world.providers.contains_key(#[trigger] names[i]@),
    ensures
        last matches ResolveProviderEnvironment::Done(Ok(result)) && result.deep_view()
            == merged_all(environment, named_providers(world, names)),
        after == world,
    decreases steps,
{
    if names.len() > 0 {
        let effect = flow.asks()->0;
        let (reply, next, between) = choose|
            reply: Reply,
            next: ResolveProviderEnvironment,
            between: World,
        |
            {
                &&& #[trigger] world_answers(world, effect, reply, between)
                &&& #[trigger] flow.follows(reply, next)
                &&& ends(next, between, last, after, (steps - 1) as nat)
            };
        let providers = named_providers(world, names);
        let rest = names.skip(1);
        assert(names[0] == flow->name);
        assert(world.providers.contains_key(names[0]@));
        assert(flow->rest@ == rest);
        assert forall|i: int| 0 <= i < rest.len() implies world.providers.contains_key(
            #[trigger] rest[i]@,
        ) by {
            assert(rest[i] == names[i + 1]);
        }
        lemma_resolve_ends(
            world,
            rest,
            merged(environment, providers[0].credentials),
            next,
            last,
            after,
            (steps - 1) as nat,
        );
        assert(named_providers(world, rest) =~= providers.skip(1));
    }
}

proof fn lemma_merged_all(
    environment: Map<Seq<char>, Seq<char>>,
    providers: Seq<ProviderView>,
    key: Seq<char>,
)
    ensures
        environment.contains_key(key) ==> merged_all(environment, providers).contains_key(key)
            && merged_all(environment, providers)[key] == environment[key],
        !environment.contains_key(key) && merged_all(environment, providers).contains_key(key)
            ==> is_env_key(key) && exists|i: int| #[trigger]
            gives_first(providers, i, key) && merged_all(environment, providers)[key]
                == providers[i].credentials[key],
        !environment.contains_key(key) && is_env_key(key) && (exists|i: int|
            0 <= i < providers.len() && #[trigger] providers[i].credentials.contains_key(key))
            ==> merged_all(environment, providers).contains_key(key),
    decreases providers.len(),
{
    if providers.len() > 0 {
        let next = merged(environment, providers[0].credentials);
        let rest = providers.skip(1);
        lemma_merged_all(next, rest, key);
        let all = merged_all(environment, providers);
        if !environment.contains_key(key) {
            if next.contains_key(key) {
                assert(gives_first(providers, 0, key));
            } else if all.contains_key(key) {
                let i = choose|i: int| #[trigger]
                    gives_first(rest, i, key) && all[key] == rest[i].credentials[key];
                assert(providers[i + 1] == rest[i]);
                assert forall|j: int| 0 <= j < i + 1 implies !(
                #[trigger] providers[j]).credentials.contains_key(key) by {
                    if j > 0 {
                        assert(rest[j - 1] == providers[j]);
                    }
                }
                assert(gives_first(providers, i + 1, key));
            }
            if is_env_key(key) && exists|i: int|
                0 <= i < providers.len() && #[trigger] providers[i].credentials.contains_key(key) {
                let i = choose|i: int|
                    0 <= i < providers.len() && #[trigger] providers[i].credentials.contains_key(
                        key,
                    );
                if i > 0 {
                    assert(rest[i - 1] == providers[i]);
                    assert(rest[i - 1].credentials.contains_key(key));
                }
            }
        }
    }
}

/// The provider in place `i` is the first that has a credential with the key `key`.
pub open spec fn gives_first(providers: Seq<ProviderView>, i: int, key: Seq<char>) -> bool {
    &&& 0 <= i < providers.len()
    &&& providers[i].credentials.contains_key(key)
    &&& forall|j: int|
        0 <= j < i ==> !(#[trigger] providers[j]).credentials.contains_key(key)
}

/// Where every provider is in the store, the environment holds exactly the credentials
/// whose keys can be environment variables, and each has the value that the first
/// provider with that key gives it. Nothing of the providers' configuration is in it.
pub proof fn first_provider_wins(
    world: World,
    names: Seq<String>,
    flow: ResolveProviderEnvironment,
    last: ResolveProviderEnvironment,
    after: World,
    steps: nat,
    key: Seq<char>,
)
    requires
        ResolveProviderEnvironment::stands(names, Map::empty(), flow),
        ends(flow, world, last, after, steps),
        forall|i: int| 0 <= i < names.len() ==> world.providers.contains_key(#[trigger] names[i]@),
    ensures
        after == world,
        last matches ResolveProviderEnvironment::Done(Ok(environment)) && {
            let providers = named_providers(world, names);
            &&& environment.deep_view().contains_key(key) <==> is_env_key(key) && exists|i: int|
                0 <= i < providers.len() && #[trigger] providers[i].credentials.contains_key(key)
            &&& forall|i: int| #[trigger]
                gives_first(providers, i, key) && is_env_key(key)
                    ==> environment.deep_view()[key] == providers[i].credentials[key]
        },
{
    let providers = named_providers(world, names);
    lemma_resolve_ends(world, names, Map::empty(), flow, last, after, steps);
    lemma_merged_all(Map::empty(), providers, key);
    let environment = merged_all(Map::empty(), providers);
    assert forall|i: int| #[trigger]
        gives_first(providers, i, key) && is_env_key(key) implies environment[key]
        == providers[i].credentials[key] by {
        assert(providers[i].credentials.contains_key(key));
        let j = choose|j: int| #[trigger]
            gives_first(providers, j, key) && environment[key] == providers[j].credentials[key];
        assert(i == j);
    }
}

/// The first provider that is not in the store fails the whole environment, and the
/// error names it.
pub proof fn missing_provider_is_named(
    world: World,
    names: Seq<String>,
    environment: Map<Seq<char>, Seq<char>>,
    flow: ResolveProviderEnvironment,
    last: ResolveProviderEnvironment,
    after: World,
    steps: nat,
    missing: int,
)
    requires
        ResolveProviderEnvironment::stands(names, environment, flow),
        ends(flow, world, last, after, steps),
        0 <= missing < names.len(),
        !world.providers.contains_key(names[missing]@),
        forall|i: int| 0 <= i < missing ==> world.providers.contains_key(#[trigger] names[i]@),
    ensures
        last.failed(
            Code::FailedPrecondition,
            "provider '"@ + names[missing]@ + "' not found"@,
        ),
        after == world,
    decreases steps,
{
    let effect = flow.asks()->0;
    let (reply, next, between) = choose|
        reply: Reply,
        next: ResolveProviderEnvironment,
        between: World,
    |
        {
            &&& #[trigger] world_answers(world, effect, reply, between)
            &&& #[trigger] flow.follows(reply, next)
            &&& ends(next, between, last, after, (steps - 1) as nat)
        };
    if missing == 0 {
        reveal_with_fuel(ends, 2);
    } else {
        assert(world.providers.contains_key(names[0]@));
        let rest = names.skip(1);
        assert(rest[missing - 1] == names[missing]);
        assert forall|i: int| 0 <= i < missing - 1 implies world.providers.contains_key(
            #[trigger] rest[i]@,
        ) by {
            assert(rest[i] == names[i + 1]);
        }
        missing_provider_is_named(
            world,
            rest,
            merged(environment, world.providers[names[0]@].credentials),
            next,
            last,
            after,
            (steps - 1) as nat,
            missing - 1,
        );
    }
}

} // verus!
