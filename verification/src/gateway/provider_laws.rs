//! What holds of providers across requests.
use crate::gateway::flow::{first_undecoded, Effect, Flow, Reply};
use crate::gateway::model::{Provider, ProviderView};
use crate::gateway::provider::{
    CreateProviderRecord, DeleteProviderRecord, GetProviderRecord, ListProviderRecords,
    UpdateProviderRecord,
};
use crate::gateway::world::{
    ends, goes_through, holds_providers, lemma_page_of_all, page_of, world_answers, World,
};
use crate::status::Code;
use crate::text::trimmed;
use vstd::prelude::*;

verus! {

/// Every provider stands under its own name.
pub open spec fn well_named(world: World) -> bool {
    forall|name: Seq<char>| #[trigger]
        world.providers.contains_key(name) ==> world.providers[name].name == name
}

/// How a creation that has passed its checks ends.
proof fn lemma_create_ends(
    world: World,
    provider: Provider,
    flow: CreateProviderRecord,
    last: CreateProviderRecord,
    after: World,
    steps: nat,
)
    requires
        CreateProviderRecord::checks(provider, flow),
        ends(flow, world, last, after, steps),
    ensures
        if flow !is Lookup {
            last == flow && after == world
        } else if world.providers.contains_key(provider.name@) {
            last.failed(Code::AlreadyExists, "provider already exists"@) && after == world
        } else {
            &&& last matches CreateProviderRecord::Done(Ok(created))
            &&& created.deep_view() == (ProviderView {
                id: created.id@,
                ..provider.deep_view()
            })
            &&& created.id@.len() > 0
            &&& after == (World {
                providers: world.providers.insert(provider.name@, created.deep_view()),
                ..world
            })
        },
{
    reveal_with_fuel(ends, 3);
}

/// How the creation of a provider that is given no name ends.
proof fn lemma_unnamed_create_ends(
    world: World,
    provider: Provider,
    create: (CreateProviderRecord, CreateProviderRecord),
    after: World,
    steps: nat,
)
    requires
        provider.name@.len() == 0,
        CreateProviderRecord::begins(provider, create.0),
        ends(create.0, world, create.1, after, steps),
    ensures
        create.1 matches CreateProviderRecord::Done(Ok(created)) ==> {
            &&& created.deep_view() == (ProviderView {
                id: created.id@,
                name: created.name@,
                ..provider.deep_view()
            })
            &&& created.id@.len() > 0
            &&& created.name@.len() > 0
            &&& after == (World {
                providers: world.providers.insert(created.name@, created.deep_view()),
                ..world
            })
        },
{
    let effect = create.0.asks()->0;
    let (reply, next, same) = choose|reply: Reply, next: CreateProviderRecord, same: World|
        {
            &&& #[trigger] world_answers(world, effect, reply, same)
            &&& #[trigger] create.0.follows(reply, next)
            &&& ends(next, same, create.1, after, (steps - 1) as nat)
        };
    let named = Provider { name: reply->Name_0, ..provider };
    lemma_create_ends(world, named, next, create.1, after, (steps - 1) as nat);
}

/// A created provider is in the store under its name, with the type, credentials and
/// configuration it was given and an id of its own, and reading it by its name gives
/// it back. It has the name it was given, or one made up for it where it was given none.
pub proof fn created_provider_is_found(
    world: World,
    provider: Provider,
    create: (CreateProviderRecord, CreateProviderRecord),
    created: Provider,
    between: World,
    create_steps: nat,
    get: (GetProviderRecord, GetProviderRecord),
    after: World,
    get_steps: nat,
)
    requires
        CreateProviderRecord::begins(provider, create.0),
        ends(create.0, world, create.1, between, create_steps),
        create.1 == CreateProviderRecord::Done(Ok(created)),
        GetProviderRecord::begins(created.name, get.0),
        ends(get.0, between, get.1, after, get_steps),
    ensures
        created.id@.len() > 0,
        created.name@.len() > 0,
        provider.name@.len() > 0 ==> created.name@ == provider.name@,
        created.deep_view() == (ProviderView {
            id: created.id@,
            name: created.name@,
            ..provider.deep_view()
        }),
        get.1 matches GetProviderRecord::Done(Ok(found)) && found.deep_view()
            == created.deep_view(),
        after == between,
{
    if provider.name@.len() > 0 {
        lemma_create_ends(world, provider, create.0, create.1, between, create_steps);
    } else {
        lemma_unnamed_create_ends(world, provider, create, between, create_steps);
    }
    reveal_with_fuel(ends, 2);
}

/// `provider` is in `list`.
pub open spec fn is_listed(provider: ProviderView, list: Seq<Provider>) -> bool {
    exists|i: int| 0 <= i < list.len() && (#[trigger] list[i]).deep_view() == provider
}

/// `provider` is in the store.
pub open spec fn is_stored(provider: ProviderView, world: World) -> bool {
    exists|name: Seq<char>| #[trigger]
        world.providers.contains_key(name) && world.providers[name] == provider
}

/// A list that lets as many through as there are holds every provider in the store, and
/// nothing else.
pub proof fn all_providers_are_listed(
    world: World,
    limit: u32,
    list: ListProviderRecords,
    after: World,
    steps: nat,
)
    requires
        world.providers.dom().finite(),
        world.providers.len() <= limit,
        ends(ListProviderRecords::Fetch { limit, offset: 0 }, world, list, after, steps),
    ensures
        list matches ListProviderRecords::Done(Ok(all)) && {
            &&& all@.len() == world.providers.len()
            &&& forall|name: Seq<char>| #[trigger]
                world.providers.contains_key(name) ==> is_listed(world.providers[name], all@)
            &&& forall|i: int|
                0 <= i < all@.len() ==> is_stored((#[trigger] all@[i]).deep_view(), world)
        },
        after == world,
{
    reveal_with_fuel(ends, 2);
    let flow = ListProviderRecords::Fetch { limit, offset: 0 };
    let effect = flow.asks()->0;
    let (reply, next, same) = choose|reply: Reply, next: ListProviderRecords, same: World|
        {
            &&& #[trigger] world_answers(world, effect, reply, same)
            &&& #[trigger] flow.follows(reply, next)
            &&& ends(next, same, list, after, (steps - 1) as nat)
        };
    let records = reply->Providers_0->Ok_0@;
    let order = choose|order: Seq<Seq<char>>| #[trigger]
        goes_through(order, world.providers.dom()) && holds_providers(
            records,
            world.providers,
            page_of(order, limit, 0),
        );
    lemma_page_of_all(order, world.providers.dom(), limit);
    assert(forall|i: int| !(#[trigger] first_undecoded(records, i)));
    let all = list->0->Ok_0@;
    assert forall|name: Seq<char>| #[trigger] world.providers.contains_key(name) implies is_listed(
        world.providers[name],
        all,
    ) by {
        assert(order.contains(name));
        let i = order.index_of(name);
        assert(records[i] is Ok && all[i].deep_view() == world.providers[name]);
    }
    assert forall|i: int| 0 <= i < all.len() implies is_stored(
        (#[trigger] all[i]).deep_view(),
        world,
    ) by {
        assert(records[i] is Ok);
        assert(order.contains(order[i]));
        assert(world.providers.contains_key(order[i]));
    }
}

/// A created provider is listed as it was answered, where the list lets as many through as
/// there are.
pub proof fn created_provider_is_listed(
    world: World,
    provider: Provider,
    create: (CreateProviderRecord, CreateProviderRecord),
    created: Provider,
    between: World,
    create_steps: nat,
    limit: u32,
    list: ListProviderRecords,
    after: World,
    list_steps: nat,
)
    requires
        CreateProviderRecord::begins(provider, create.0),
        ends(create.0, world, create.1, between, create_steps),
        create.1 == CreateProviderRecord::Done(Ok(created)),
        between.providers.dom().finite(),
        between.providers.len() <= limit,
        ends(ListProviderRecords::Fetch { limit, offset: 0 }, between, list, after, list_steps),
    ensures
        list matches ListProviderRecords::Done(Ok(all)) && is_listed(created.deep_view(), all@),
        after == between,
{
    if provider.name@.len() > 0 {
        lemma_create_ends(world, provider, create.0, create.1, between, create_steps);
    } else {
        lemma_unnamed_create_ends(world, provider, create, between, create_steps);
    }
    assert(between.providers.contains_key(created.name@));
    all_providers_are_listed(between, limit, list, after, list_steps);
}

/// A second provider of the same name is refused, and the store stays as it was.
pub proof fn duplicate_name_is_refused(
    world: World,
    provider: Provider,
    create: (CreateProviderRecord, CreateProviderRecord),
    after: World,
    steps: nat,
)
    requires
        provider.name@.len() > 0,
        trimmed(provider.kind@).len() > 0,
        provider.credentials@ != Map::<Seq<char>, String>::empty(),
        world.providers.contains_key(provider.name@),
        CreateProviderRecord::begins(provider, create.0),
        ends(create.0, world, create.1, after, steps),
    ensures
        create.1.failed(Code::AlreadyExists, "provider already exists"@),
        after == world,
{
    lemma_create_ends(world, provider, create.0, create.1, after, steps);
}

/// A provider without a type or without credentials is never stored.
pub proof fn incomplete_provider_is_refused(
    world: World,
    provider: Provider,
    create: (CreateProviderRecord, CreateProviderRecord),
    after: World,
    steps: nat,
)
    requires
        trimmed(provider.kind@).len() == 0 || provider.credentials@ == Map::<
            Seq<char>,
            String,
        >::empty(),
        CreateProviderRecord::begins(provider, create.0),
        ends(create.0, world, create.1, after, steps),
    ensures
        create.1 matches CreateProviderRecord::Done(Err(status)) && status.code
            == Code::InvalidArgument,
        after == world,
{
    reveal_with_fuel(ends, 3);
}

/// Changing a provider keeps its id and its name, takes the rest from the request, and
/// touches no other provider; a provider that is not there is not found.
pub proof fn update_keeps_id_and_name(
    world: World,
    provider: Provider,
    update: (UpdateProviderRecord, UpdateProviderRecord),
    after: World,
    steps: nat,
)
    requires
        well_named(world),
        provider.name@.len() > 0,
        trimmed(provider.kind@).len() > 0,
        UpdateProviderRecord::begins(provider, update.0),
        ends(update.0, world, update.1, after, steps),
    ensures
        if world.providers.contains_key(provider.name@) {
            &&& update.1 matches UpdateProviderRecord::Done(Ok(updated))
            &&& updated.deep_view() == (ProviderView {
                id: world.providers[provider.name@].id,
                ..provider.deep_view()
            })
            &&& after == (World {
                providers: world.providers.insert(provider.name@, updated.deep_view()),
                ..world
            })
        } else {
            update.1.failed(Code::NotFound, "provider not found"@) && after == world
        },
{
    reveal_with_fuel(ends, 3);
}

/// Deleting tells whether the provider was there. After it the provider is gone: it is
/// not found, and a second deletion has nothing to delete.
pub proof fn deleted_provider_is_gone(
    world: World,
    name: String,
    delete: (DeleteProviderRecord, DeleteProviderRecord),
    between: World,
    delete_steps: nat,
    again: (DeleteProviderRecord, DeleteProviderRecord),
    after: World,
    again_steps: nat,
    get: (GetProviderRecord, GetProviderRecord),
    unchanged: World,
    get_steps: nat,
)
    requires
        name@.len() > 0,
        DeleteProviderRecord::begins(name, delete.0),
        ends(delete.0, world, delete.1, between, delete_steps),
        DeleteProviderRecord::begins(name, again.0),
        ends(again.0, between, again.1, after, again_steps),
        GetProviderRecord::begins(name, get.0),
        ends(get.0, between, get.1, unchanged, get_steps),
    ensures
        delete.1 == DeleteProviderRecord::Done(Ok(world.providers.contains_key(name@))),
        between == (World { providers: world.providers.remove(name@), ..world }),
        again.1 == DeleteProviderRecord::Done(Ok(false)),
        after == between,
        get.1.failed(Code::NotFound, "provider not found"@),
{
    reveal_with_fuel(ends, 2);
    assert(world.providers.remove(name@).remove(name@) =~= world.providers.remove(name@));
}

/// Every provider stays under its own name, whatever is created or changed.
pub proof fn names_stay_right<F: Flow>(
    flow: F,
    world: World,
    last: F,
    after: World,
    steps: nat,
)
    requires
        well_named(world),
        ends(flow, world, last, after, steps),
    ensures
        well_named(after),
    decreases steps,
{
    if let Some(effect) = flow.asks() {
        let (reply, next, between) = choose|reply: Reply, next: F, between: World|
            {
                &&& #[trigger] world_answers(world, effect, reply, between)
                &&& #[trigger] flow.follows(reply, next)
                &&& ends(next, between, last, after, (steps - 1) as nat)
            };
        assert(well_named(between));
        names_stay_right(next, between, last, after, (steps - 1) as nat);
    }
}

/// A provider that has a name which is free, a type and credentials is created and stored.
pub proof fn complete_provider_is_created(
    world: World,
    provider: Provider,
    create: (CreateProviderRecord, CreateProviderRecord),
    after: World,
    steps: nat,
)
    requires
        provider.name@.len() > 0,
        trimmed(provider.kind@).len() > 0,
        exists|key: Seq<char>| #[trigger] provider.credentials@.contains_key(key),
        !world.providers.contains_key(provider.name@),
        CreateProviderRecord::begins(provider, create.0),
        ends(create.0, world, create.1, after, steps),
    ensures
        create.1 matches CreateProviderRecord::Done(Ok(created)) && {
            &&& created.name@ == provider.name@
            &&& created.kind@ == provider.kind@
            &&& created.credentials.deep_view() == provider.credentials.deep_view()
            &&& created.config.deep_view() == provider.config.deep_view()
            &&& after.providers.contains_key(provider.name@)
            &&& after.providers[provider.name@] == created.deep_view()
        },
{
    lemma_create_ends(world, provider, create.0, create.1, after, steps);
}

/// A list asks for as many providers as it is to hold, from where it is to begin, and holds what
/// the store gives, in the store's order.
pub proof fn list_holds_what_the_store_gives(
    limit: u32,
    offset: u32,
    records: Vec<Result<Provider, String>>,
    next: ListProviderRecords,
)
    requires
        (ListProviderRecords::Fetch { limit, offset }).follows(Reply::Providers(Ok(records)), next),
        forall|i: int| 0 <= i < records@.len() ==> #[trigger] records@[i] is Ok,
    ensures
        (ListProviderRecords::Fetch { limit, offset }).asks() == Some(
            Effect::ListProviders { limit, offset },
        ),
        next.outcome() matches Ok(list) && {
            &&& list@.len() == records@.len()
            &&& forall|i: int|
                0 <= i < list@.len() ==> records@[i] == Ok::<Provider, String>(#[trigger] list@[i])
        },
{
    assert(forall|i: int| !(#[trigger] first_undecoded(records@, i)));
    let list = next.outcome()->Ok_0;
    assert forall|i: int| 0 <= i < list@.len() implies records@[i] == Ok::<Provider, String>(
        #[trigger] list@[i],
    ) by {
        assert(records@[i] is Ok);
    }
}

} // verus!
