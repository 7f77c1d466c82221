//! What holds of the environment that a sandbox gets from its providers.
use crate::gateway::environment::{
    first_provider_wins, gives_first, named_providers, GetSandboxProviderEnvironment,
    ResolveProviderEnvironment,
};
use crate::gateway::exec_laws::{is_variable_name, variable_names};
use crate::gateway::flow::{Flow, Reply};
use crate::gateway::model::Sandbox;
use crate::gateway::sandbox::{CreateSandbox, CreateSandboxRequest};
use crate::gateway::sandbox_laws::created_sandbox_is_as_requested;
use crate::gateway::world::{ends, world_answers, World};
use crate::status::Code;
use vstd::prelude::*;

verus! {

/// The provider in place `i` of `names` has a credential for `key`.
pub open spec fn has_credential(
    world: World,
    names: Seq<Seq<char>>,
    i: int,
    key: Seq<char>,
) -> bool {
    &&& 0 <= i < names.len()
    &&& world.providers.contains_key(names[i])
    &&& world.providers[names[i]].credentials.contains_key(key)
}

/// `environment` is what the providers called `names` give: a variable for each credential
/// whose key can be a variable's name, with the value that the first provider with that key has
/// for it.
pub open spec fn is_given(
    environment: Map<Seq<char>, Seq<char>>,
    world: World,
    names: Seq<Seq<char>>,
) -> bool {
    &&& forall|key: Seq<char>| #[trigger]
        environment.contains_key(key) <==> is_variable_name(key) && exists|i: int| #[trigger]
            has_credential(world, names, i, key)
    &&& forall|key: Seq<char>, i: int|
        #![trigger has_credential(world, names, i, key)]
        is_variable_name(key) && has_credential(world, names, i, key) && (forall|j: int|
            0 <= j < i ==> !(#[trigger] has_credential(world, names, j, key)))
            ==> environment[key] == world.providers[names[i]].credentials[key]
}

proof fn lemma_resolve_within(
    world: World,
    resolve: ResolveProviderEnvironment,
    last: GetSandboxProviderEnvironment,
    after: World,
    steps: nat,
) -> (end: ResolveProviderEnvironment)
    requires
        ends(GetSandboxProviderEnvironment::Resolve(resolve), world, last, after, steps),
    ensures
        last == GetSandboxProviderEnvironment::Resolve(end),
        ends(resolve, world, end, after, steps),
    decreases steps,
{
    let flow = GetSandboxProviderEnvironment::Resolve(resolve);
    match resolve.asks() {
        None => resolve,
        Some(effect) => {
            let (reply, next, between) = choose|
                reply: Reply,
                next: GetSandboxProviderEnvironment,
                between: World,
            |
                {
                    &&& #[trigger] world_answers(world, effect, reply, between)
                    &&& #[trigger] flow.follows(reply, next)
                    &&& ends(next, between, last, after, (steps - 1) as nat)
                };
            let inner = next->Resolve_0;
            assert(resolve.follows(reply, inner));
            lemma_resolve_within(between, inner, last, after, (steps - 1) as nat)
        },
    }
}

/// The environment of a sandbox whose providers are all there is what those providers give it.
/// Reading it changes nothing.
pub proof fn environment_is_what_providers_give(
    world: World,
    id: String,
    last: GetSandboxProviderEnvironment,
    after: World,
    steps: nat,
)
    requires
        world.sandboxes.contains_key(id@),
        world.sandboxes[id@].spec is Some,
        forall|i: int|
            0 <= i < world.sandboxes[id@].spec->0.providers.len() ==> world.providers.contains_key(
                #[trigger] world.sandboxes[id@].spec->0.providers[i],
            ),
        ends(
            GetSandboxProviderEnvironment::FetchSandbox { sandbox_id: id },
            world,
            last,
            after,
            steps,
        ),
    ensures
        after == world,
        last.outcome() matches Ok(environment) && is_given(
            environment.deep_view(),
            world,
            world.sandboxes[id@].spec->0.providers,
        ),
{
    let flow = GetSandboxProviderEnvironment::FetchSandbox { sandbox_id: id };
    let effect = flow.asks()->0;
    let (reply, next, between) = choose|
        reply: Reply,
        next: GetSandboxProviderEnvironment,
        between: World,
    |
        {
            &&& #[trigger] world_answers(world, effect, reply, between)
            &&& #[trigger] flow.follows(reply, next)
            &&& ends(next, between, last, after, (steps - 1) as nat)
        };
    let sandbox = reply->Sandbox_0->Ok_0->0;
    assert(sandbox.deep_view() == world.sandboxes[id@]);
    let spec_of = sandbox.spec->0;
    let names = spec_of.providers@;
    let keys = world.sandboxes[id@].spec->0.providers;
    assert(keys == spec_of.providers.deep_view());
    assert(keys.len() == names.len());
    assert forall|i: int| 0 <= i < names.len() implies (#[trigger] names[i])@ == keys[i] by {}
    let resolve = next->Resolve_0;
    let end = lemma_resolve_within(world, resolve, last, after, (steps - 1) as nat);
    assert forall|i: int| 0 <= i < names.len() implies world.providers.contains_key(
        #[trigger] names[i]@,
    ) by {
        assert(world.providers.contains_key(keys[i]));
    }
    let providers = named_providers(world, names);
    first_provider_wins(
        world,
        names,
        resolve,
        end,
        after,
        (steps - 1) as nat,
        Seq::empty(),
    );
    let environment = end->0->Ok_0.deep_view();
    assert forall|key: Seq<char>| #[trigger]
        environment.contains_key(key) <==> is_variable_name(key) && exists|i: int| #[trigger]
            has_credential(world, keys, i, key) by {
        first_provider_wins(world, names, resolve, end, after, (steps - 1) as nat, key);
        variable_names(key);
        if exists|i: int| #[trigger] has_credential(world, keys, i, key) {
            let i = choose|i: int| #[trigger] has_credential(world, keys, i, key);
            assert(providers[i].credentials.contains_key(key));
        }
        if environment.contains_key(key) {
            let i = choose|i: int|
                0 <= i < providers.len() && #[trigger] providers[i].credentials.contains_key(key);
            assert(names[i]@ == keys[i]);
            assert(has_credential(world, keys, i, key));
        }
    }
    assert forall|key: Seq<char>, i: int|
        #![trigger has_credential(world, keys, i, key)]
        is_variable_name(key) && has_credential(world, keys, i, key) && (forall|j: int|
            0 <= j < i ==> !(#[trigger] has_credential(world, keys, j, key))) implies environment[key]
        == world.providers[keys[i]].credentials[key] by {
        first_provider_wins(world, names, resolve, end, after, (steps - 1) as nat, key);
        variable_names(key);
        assert(names[i]@ == keys[i]);
        assert forall|j: int| 0 <= j < i implies !(
        #[trigger] providers[j]).credentials.contains_key(key) by {
            assert(names[j]@ == keys[j]);
            assert(!has_credential(world, keys, j, key));
        }
        assert(gives_first(providers, i, key));
    }
}

/// A created sandbox gets the credentials of the providers that the request named, as they are
/// in the store.
pub proof fn created_sandbox_gets_its_credentials(
    world: World,
    request: CreateSandboxRequest,
    namespace: String,
    default_image: String,
    create: (CreateSandbox, CreateSandbox),
    created: Sandbox,
    between: World,
    create_steps: nat,
    last: GetSandboxProviderEnvironment,
    after: World,
    steps: nat,
)
    requires
        CreateSandbox::begins(request, namespace, default_image, create.0),
        ends(create.0, world, create.1, between, create_steps),
        create.1 == CreateSandbox::Done(Ok(created)),
        ends(
            GetSandboxProviderEnvironment::FetchSandbox { sandbox_id: created.id },
            between,
            last,
            after,
            steps,
        ),
    ensures
        request.spec is Some,
        last.outcome() matches Ok(environment) && is_given(
            environment.deep_view(),
            world,
            request.spec->0.providers.deep_view(),
        ),
        after == between,
{
    created_sandbox_is_as_requested(
        world,
        request,
        namespace,
        default_image,
        create.0,
        create.1,
        created,
        between,
        create_steps,
    );
    environment_is_what_providers_give(between, created.id, last, after, steps);
    let names = request.spec->0.providers.deep_view();
    let environment = last.outcome()->Ok_0.deep_view();
    assert forall|i: int, key: Seq<char>| #[trigger]
        has_credential(between, names, i, key) == has_credential(world, names, i, key) by {}
    assert forall|key: Seq<char>| #[trigger]
        environment.contains_key(key) <==> is_variable_name(key) && exists|i: int| #[trigger]
            has_credential(world, names, i, key) by {
        if exists|i: int| #[trigger] has_credential(world, names, i, key) {
            let i = choose|i: int| #[trigger] has_credential(world, names, i, key);
            assert(has_credential(between, names, i, key));
        }
        if exists|i: int| #[trigger] has_credential(between, names, i, key) {
            let i = choose|i: int| #[trigger] has_credential(between, names, i, key);
            assert(has_credential(world, names, i, key));
        }
    }
    assert forall|key: Seq<char>, i: int|
        #![trigger has_credential(world, names, i, key)]
        is_variable_name(key) && has_credential(world, names, i, key) && (forall|j: int|
            0 <= j < i ==> !(#[trigger] has_credential(world, names, j, key)))
            implies environment[key] == world.providers[names[i]].credentials[key] by {
        assert(has_credential(between, names, i, key));
        assert forall|j: int| 0 <= j < i implies !(#[trigger] has_credential(
            between,
            names,
            j,
            key,
        )) by {
            assert(!has_credential(world, names, j, key));
        }
    }
}

/// A sandbox that is not there has no environment, and one without a spec has none either.
pub proof fn unknown_sandbox_has_no_environment(
    world: World,
    id: String,
    last: GetSandboxProviderEnvironment,
    after: World,
    steps: nat,
)
    requires
        world.sandboxes.contains_key(id@) ==> world.sandboxes[id@].spec is None,
        ends(
            GetSandboxProviderEnvironment::FetchSandbox { sandbox_id: id },
            world,
            last,
            after,
            steps,
        ),
    ensures
        after == world,
        last.outcome() matches Err(status) && status.code == (if world.sandboxes.contains_key(id@) {
            Code::Internal
        } else {
            Code::NotFound
        }),
{
    reveal_with_fuel(ends, 2);
}

} // verus!
