//! What holds of sandboxes across requests.
use crate::gateway::flow::{ClusterError, Effect, Flow, Reply};
use crate::gateway::model::{Sandbox, SandboxPhase, SandboxRecord, SandboxView};
use crate::gateway::sandbox::{
    first_unreadable, is_planned, or_default, CreateSandbox, CreateSandboxRequest, DeleteSandbox, GetSandbox,
    ListSandboxes, SandboxPlan,
};
use crate::gateway::world::{
    ends, goes_through, holds_sandboxes, lemma_page_of_all, page_of, world_answers, World,
};
use crate::ident::is_uuid;
use crate::status::{Code, Status};
use vstd::prelude::*;

verus! {

/// How a creation ends whose providers are all there.
proof fn lemma_creation_ends(
    world: World,
    sandbox: Sandbox,
    last: CreateSandbox,
    after: World,
    steps: nat,
)
    requires
        ends(CreateSandbox::Index { sandbox }, world, last, after, steps),
    ensures
        match last {
            CreateSandbox::Done(Ok(created)) => created == sandbox && after == (World {
                sandboxes: world.sandboxes.insert(sandbox.id@, sandbox.deep_view()),
                ..world
            }),
            CreateSandbox::Done(Err(_)) => after == (World {
                sandboxes: world.sandboxes.insert(sandbox.id@, sandbox.deep_view()).remove(
                    sandbox.id@,
                ),
                ..world
            }),
            _ => false,
        },
{
    reveal_with_fuel(ends, 8);
}

/// A sandbox that the cluster does not create leaves nothing behind in the store.
pub proof fn refused_creation_leaves_no_trace(
    world: World,
    sandbox: Sandbox,
    last: CreateSandbox,
    after: World,
    steps: nat,
)
    requires
        !world.sandboxes.contains_key(sandbox.id@),
        ends(CreateSandbox::Index { sandbox }, world, last, after, steps),
        last matches CreateSandbox::Done(Err(_)),
    ensures
        after == world,
{
    lemma_creation_ends(world, sandbox, last, after, steps);
    assert(world.sandboxes.insert(sandbox.id@, sandbox.deep_view()).remove(sandbox.id@)
        =~= world.sandboxes);
}

proof fn lemma_checked_creation_ends(
    world: World,
    names: Seq<String>,
    plan: SandboxPlan,
    flow: CreateSandbox,
    last: CreateSandbox,
    after: World,
    steps: nat,
)
    requires
        CreateSandbox::stands(names, plan, flow),
        ends(flow, world, last, after, steps),
    ensures
        match last {
            CreateSandbox::Done(Ok(sandbox)) => {
                &&& is_uuid(sandbox.id@)
                &&& is_planned(sandbox, plan, sandbox.id)
                &&& after == (World {
                    sandboxes: world.sandboxes.insert(sandbox.id@, sandbox.deep_view()),
                    ..world
                })
                &&& forall|i: int|
                    0 <= i < names.len() ==> world.providers.contains_key(#[trigger] names[i]@)
            },
            CreateSandbox::Done(Err(_)) => after == world || exists|id: Seq<char>| #[trigger]
                is_uuid(id) && after == (World { sandboxes: world.sandboxes.remove(id), ..world }),
            _ => false,
        },
    decreases steps,
{
    if names.len() == 0 {
        let sandbox = flow->Index_sandbox;
        lemma_creation_ends(world, sandbox, last, after, steps);
        assert(world.sandboxes.insert(sandbox.id@, sandbox.deep_view()).remove(sandbox.id@)
            =~= world.sandboxes.remove(sandbox.id@));
        assert(is_uuid(sandbox.id@));
    } else {
        let effect = flow.asks()->0;
        let (reply, next, between) = choose|reply: Reply, next: CreateSandbox, between: World|
            {
                &&& #[trigger] world_answers(world, effect, reply, between)
                &&& #[trigger] flow.follows(reply, next)
                &&& ends(next, between, last, after, (steps - 1) as nat)
            };
        if world.providers.contains_key(names[0]@) {
            let rest = names.skip(1);
            lemma_checked_creation_ends(
                world,
                rest,
                plan,
                next,
                last,
                after,
                (steps - 1) as nat,
            );
            if last is Done && last->0 is Ok {
                assert forall|i: int| 0 <= i < names.len() implies world.providers.contains_key(
                    #[trigger] names[i]@,
                ) by {
                    if i > 0 {
                        assert(rest[i - 1] == names[i]);
                    }
                }
            }
        } else {
            reveal_with_fuel(ends, 2);
        }
    }
}

/// A creation either stores the sandbox that was asked for, with an id of its own, a
/// resolved image and providers that all exist, or it answers with an error and no sandbox
/// is added to the store.
pub proof fn creation_is_all_or_nothing(
    world: World,
    request: CreateSandboxRequest,
    namespace: String,
    default_image: String,
    flow: CreateSandbox,
    last: CreateSandbox,
    after: World,
    steps: nat,
)
    requires
        CreateSandbox::begins(request, namespace, default_image, flow),
        ends(flow, world, last, after, steps),
    ensures
        match last {
            CreateSandbox::Done(Ok(sandbox)) => {
                &&& request.spec matches Some(spec) && spec.policy is Some
                &&& is_uuid(sandbox.id@)
                &&& is_planned(
                    sandbox,
                    SandboxPlan {
                        name: request.name,
                        spec: request.spec->0,
                        namespace,
                        default_image,
                    },
                    sandbox.id,
                )
                &&& after == (World {
                    sandboxes: world.sandboxes.insert(sandbox.id@, sandbox.deep_view()),
                    ..world
                })
                &&& forall|i: int|
                    0 <= i < request.spec->0.providers@.len() ==> world.providers.contains_key(
                        #[trigger] request.spec->0.providers@[i]@,
                    )
            },
            CreateSandbox::Done(Err(_)) => after.sandboxes.submap_of(world.sandboxes),
            _ => false,
        },
{
    reveal_with_fuel(ends, 2);
    if let Some(spec) = request.spec {
        if spec.policy is Some {
            lemma_checked_creation_ends(
                world,
                spec.providers@,
                SandboxPlan { name: request.name, spec, namespace, default_image },
                flow,
                last,
                after,
                steps,
            );
        }
    }
}

/// A created sandbox is what was asked for, and is in the store as it was answered: it has the
/// request's policy, providers and whatever else the request holds, its image or the default
/// one, and its name or one made of its id. It is new, so nothing has been applied to it yet.
/// Its providers are all there, and nothing else in the store has changed.
pub proof fn created_sandbox_is_as_requested(
    world: World,
    request: CreateSandboxRequest,
    namespace: String,
    default_image: String,
    flow: CreateSandbox,
    last: CreateSandbox,
    created: Sandbox,
    after: World,
    steps: nat,
)
    requires
        CreateSandbox::begins(request, namespace, default_image, flow),
        ends(flow, world, last, after, steps),
        last == CreateSandbox::Done(Ok(created)),
    ensures
        request.spec matches Some(asked) && {
            let stored = after.sandboxes[created.id@];
            let wish = asked.deep_view();
            &&& asked.policy is Some
            &&& after.sandboxes.contains_key(created.id@)
            &&& stored == created.deep_view()
            &&& stored.spec matches Some(kept) && {
                &&& kept.policy == wish.policy
                &&& kept.providers == wish.providers
                &&& kept.extra == wish.extra
                &&& kept.template matches Some(template) && match wish.template {
                    Some(given) => {
                        &&& template.extra == given.extra
                        &&& given.image.len() > 0 ==> template.image == given.image
                        &&& given.image.len() == 0 ==> template.image == default_image@
                    },
                    None => template.extra.len() == 0 && template.image == default_image@,
                }
            }
            &&& stored.name == (if request.name@.len() > 0 {
                request.name@
            } else {
                "sandbox-"@ + stored.id
            })
            &&& stored.id == created.id@
            &&& stored.namespace == namespace@
            &&& stored.phase == SandboxPhase::Provisioning
            &&& stored.status is None
            &&& stored.current_policy_version == 0
            &&& forall|i: int|
                0 <= i < wish.providers.len() ==> world.providers.contains_key(
                    #[trigger] wish.providers[i],
                )
        },
        after.providers == world.providers,
        after.policies == world.policies,
        after.sessions == world.sessions,
        forall|id: Seq<char>|
            #![trigger after.sandboxes.contains_key(id)]
            #![trigger world.sandboxes.contains_key(id)]
            id != created.id@ ==> after.sandboxes.contains_key(id)
                == world.sandboxes.contains_key(id) && after.sandboxes[id] == world.sandboxes[id],
{
    creation_is_all_or_nothing(
        world,
        request,
        namespace,
        default_image,
        flow,
        last,
        after,
        steps,
    );
    let asked = request.spec->0;
    let wish = asked.deep_view();
    assert forall|i: int| 0 <= i < wish.providers.len() implies world.providers.contains_key(
        #[trigger] wish.providers[i],
    ) by {
        assert(world.providers.contains_key(asked.providers@[i]@));
    }
}

/// `status` says that the cluster did not create a sandbox.
pub open spec fn is_cluster_refusal(status: Status) -> bool {
    ||| status.code == Code::AlreadyExists && status.message@ == "sandbox already exists"@
    ||| status.code == Code::Internal && exists|reason: Seq<char>|
        status.message@ == #[trigger] ("create sandbox in kubernetes failed: "@ + reason)
}

proof fn lemma_only_the_cluster_refuses(
    world: World,
    names: Seq<String>,
    plan: SandboxPlan,
    flow: CreateSandbox,
    last: CreateSandbox,
    after: World,
    steps: nat,
)
    requires
        CreateSandbox::stands(names, plan, flow),
        forall|i: int| 0 <= i < names.len() ==> world.providers.contains_key(#[trigger] names[i]@),
        ends(flow, world, last, after, steps),
    ensures
        last matches CreateSandbox::Done(r) && (r matches Err(status) ==> is_cluster_refusal(
            status,
        )),
    decreases steps,
{
    if names.len() == 0 {
        reveal_with_fuel(ends, 8);
    } else {
        let effect = flow.asks()->0;
        let (reply, next, between) = choose|reply: Reply, next: CreateSandbox, between: World|
            {
                &&& #[trigger] world_answers(world, effect, reply, between)
                &&& #[trigger] flow.follows(reply, next)
                &&& ends(next, between, last, after, (steps - 1) as nat)
            };
        assert(world.providers.contains_key(names[0]@));
        let rest = names.skip(1);
        assert forall|i: int| 0 <= i < rest.len() implies world.providers.contains_key(
            #[trigger] rest[i]@,
        ) by {
            assert(rest[i] == names[i + 1]);
        }
        lemma_only_the_cluster_refuses(
            world,
            rest,
            plan,
            next,
            last,
            after,
            (steps - 1) as nat,
        );
    }
}

/// A request that has a policy and names only providers that are in the store is refused by
/// nobody but the cluster.
pub proof fn complete_request_is_created(
    world: World,
    request: CreateSandboxRequest,
    namespace: String,
    default_image: String,
    flow: CreateSandbox,
    last: CreateSandbox,
    after: World,
    steps: nat,
)
    requires
        request.spec matches Some(spec) && spec.policy is Some,
        forall|i: int|
            0 <= i < request.spec->0.providers@.len() ==> world.providers.contains_key(
                #[trigger] request.spec->0.providers@[i]@,
            ),
        CreateSandbox::begins(request, namespace, default_image, flow),
        ends(flow, world, last, after, steps),
    ensures
        last matches CreateSandbox::Done(r) && (r matches Err(status) ==> is_cluster_refusal(
            status,
        )),
{
    let spec_of = request.spec->0;
    lemma_only_the_cluster_refuses(
        world,
        spec_of.providers@,
        SandboxPlan { name: request.name, spec: spec_of, namespace, default_image },
        flow,
        last,
        after,
        steps,
    );
}

/// Reading a sandbox by its name gives it as it is stored.
pub proof fn stored_sandbox_is_found(
    world: World,
    id: Seq<char>,
    name: String,
    flow: GetSandbox,
    last: GetSandbox,
    after: World,
    steps: nat,
)
    requires
        name@.len() > 0,
        world.is_named(id, name@),
        GetSandbox::begins(name, flow),
        ends(flow, world, last, after, steps),
    ensures
        last matches GetSandbox::Done(Ok(sandbox)) && sandbox.deep_view() == world.sandboxes[id],
        after == world,
{
    reveal_with_fuel(ends, 2);
}

/// A created sandbox can be read by its name as it was answered, where no other sandbox has
/// that name.
pub proof fn created_sandbox_is_found(
    world: World,
    request: CreateSandboxRequest,
    namespace: String,
    default_image: String,
    create: (CreateSandbox, CreateSandbox),
    created: Sandbox,
    between: World,
    create_steps: nat,
    get: (GetSandbox, GetSandbox),
    after: World,
    get_steps: nat,
)
    requires
        CreateSandbox::begins(request, namespace, default_image, create.0),
        ends(create.0, world, create.1, between, create_steps),
        create.1 == CreateSandbox::Done(Ok(created)),
        !world.has_sandbox_named(created.name@),
        GetSandbox::begins(created.name, get.0),
        ends(get.0, between, get.1, after, get_steps),
    ensures
        get.1 matches GetSandbox::Done(Ok(found)) && found.deep_view() == created.deep_view(),
        after == between,
{
    creation_is_all_or_nothing(
        world,
        request,
        namespace,
        default_image,
        create.0,
        create.1,
        between,
        create_steps,
    );
    reveal_strlit("sandbox-");
    let id = created.id@;
    assert(between.is_named(id, created.name@)) by {
        assert forall|other: Seq<char>| #[trigger]
            between.sandboxes.contains_key(other) && between.sandboxes[other].name
                == created.name@ implies other == id by {
            if other != id {
                assert(world.sandboxes.contains_key(other));
            }
        }
    }
    stored_sandbox_is_found(between, id, created.name, get.0, get.1, after, get_steps);
}

/// `sandbox` is listed as the store has it, with the creation time of its record.
pub open spec fn lists(sandbox: Sandbox, stored: SandboxView) -> bool {
    sandbox.deep_view() == (SandboxView { created_at_ms: sandbox.created_at_ms, ..stored })
}

/// `stored` is in `list`.
pub open spec fn is_listed(stored: SandboxView, list: Seq<Sandbox>) -> bool {
    exists|i: int| 0 <= i < list.len() && lists(#[trigger] list[i], stored)
}

/// `sandbox` is listed from the store.
pub open spec fn is_stored(sandbox: Sandbox, world: World) -> bool {
    exists|id: Seq<char>| #[trigger]
        world.sandboxes.contains_key(id) && lists(sandbox, world.sandboxes[id])
}

/// A list that lets as many through as there are holds every sandbox in the store, and
/// nothing else.
pub proof fn all_sandboxes_are_listed(
    world: World,
    limit: u32,
    list: ListSandboxes,
    after: World,
    steps: nat,
)
    requires
        world.sandboxes.dom().finite(),
        world.sandboxes.len() <= limit,
        ends(ListSandboxes::Fetch { limit, offset: 0 }, world, list, after, steps),
    ensures
        list matches ListSandboxes::Done(Ok(all)) && {
            &&& all@.len() == world.sandboxes.len()
            &&& forall|id: Seq<char>| #[trigger]
                world.sandboxes.contains_key(id) ==> is_listed(world.sandboxes[id], all@)
            &&& forall|i: int| 0 <= i < all@.len() ==> is_stored(#[trigger] all@[i], world)
        },
        after == world,
{
    reveal_with_fuel(ends, 2);
    let flow = ListSandboxes::Fetch { limit, offset: 0 };
    let effect = flow.asks()->0;
    let (reply, next, same) = choose|reply: Reply, next: ListSandboxes, same: World|
        {
            &&& #[trigger] world_answers(world, effect, reply, same)
            &&& #[trigger] flow.follows(reply, next)
            &&& ends(next, same, list, after, (steps - 1) as nat)
        };
    let records = reply->Sandboxes_0->Ok_0@;
    let order = choose|order: Seq<Seq<char>>| #[trigger]
        goes_through(order, world.sandboxes.dom()) && holds_sandboxes(
            records,
            world.sandboxes,
            page_of(order, limit, 0),
        );
    lemma_page_of_all(order, world.sandboxes.dom(), limit);
    assert(forall|i: int| !(#[trigger] first_unreadable(records, i)));
    let all = list->0->Ok_0@;
    assert forall|id: Seq<char>| #[trigger] world.sandboxes.contains_key(id) implies is_listed(
        world.sandboxes[id],
        all,
    ) by {
        assert(order.contains(id));
        let i = order.index_of(id);
        assert(records[i].sandbox is Ok && lists(all[i], world.sandboxes[id]));
    }
    assert forall|i: int| 0 <= i < all.len() implies is_stored(#[trigger] all[i], world) by {
        assert(records[i].sandbox is Ok);
        assert(order.contains(order[i]));
        assert(world.sandboxes.contains_key(order[i]));
    }
}

/// A created sandbox is listed as it was answered, but for its creation time, which is that
/// of its record. The list has to let as many through as there are.
pub proof fn created_sandbox_is_listed(
    world: World,
    request: CreateSandboxRequest,
    namespace: String,
    default_image: String,
    create: (CreateSandbox, CreateSandbox),
    created: Sandbox,
    between: World,
    create_steps: nat,
    limit: u32,
    list: ListSandboxes,
    after: World,
    list_steps: nat,
)
    requires
        CreateSandbox::begins(request, namespace, default_image, create.0),
        ends(create.0, world, create.1, between, create_steps),
        create.1 == CreateSandbox::Done(Ok(created)),
        between.sandboxes.dom().finite(),
        between.sandboxes.len() <= limit,
        ends(ListSandboxes::Fetch { limit, offset: 0 }, between, list, after, list_steps),
    ensures
        list matches ListSandboxes::Done(Ok(all)) && is_listed(created.deep_view(), all@),
        after == between,
{
    creation_is_all_or_nothing(
        world,
        request,
        namespace,
        default_image,
        create.0,
        create.1,
        between,
        create_steps,
    );
    assert(between.sandboxes.contains_key(created.id@));
    all_sandboxes_are_listed(between, limit, list, after, list_steps);
}

/// A sandbox that nobody is called is not found.
pub proof fn unknown_sandbox_is_not_found(
    world: World,
    name: String,
    flow: GetSandbox,
    last: GetSandbox,
    after: World,
    steps: nat,
)
    requires
        name@.len() > 0,
        !world.has_sandbox_named(name@),
        GetSandbox::begins(name, flow),
        ends(flow, world, last, after, steps),
    ensures
        last.failed(Code::NotFound, "sandbox not found"@),
        after == world,
{
    reveal_with_fuel(ends, 2);
}

/// Deleting a sandbox marks it as going. Where the cluster had nothing to delete, the
/// sandbox is dropped from the store at once, and otherwise it stays there, marked, until
/// the cluster is done with it.
pub proof fn deletion_marks_or_drops(
    world: World,
    id: Seq<char>,
    name: String,
    flow: DeleteSandbox,
    last: DeleteSandbox,
    after: World,
    steps: nat,
)
    requires
        name@.len() > 0,
        world.is_named(id, name@),
        DeleteSandbox::begins(name, flow),
        ends(flow, world, last, after, steps),
    ensures
        match last {
            DeleteSandbox::Done(Ok(false)) => after == (World {
                sandboxes: world.sandboxes.remove(id),
                ..world
            }),
            DeleteSandbox::Done(_) => after == (World {
                sandboxes: world.sandboxes.insert(
                    id,
                    SandboxView { phase: SandboxPhase::Deleting, ..world.sandboxes[id] },
                ),
                ..world
            }),
            _ => false,
        },
{
    reveal_with_fuel(ends, 7);
    let going = SandboxView { phase: SandboxPhase::Deleting, ..world.sandboxes[id] };
    assert(world.sandboxes.insert(id, going).remove(id) =~= world.sandboxes.remove(id));
}

/// A number that is asked for is used, and only where none is, the default is.
pub proof fn requested_number_is_used(requested: u32, default: u32)
    ensures
        requested > 0 ==> or_default(requested, default) == requested,
        or_default(0, default) == default,
{
}

/// A sandbox that is created is entered in the index, stored, announced to its watchers and
/// then created in the cluster, each time as it is answered. Where the cluster creates it, the
/// request is answered with it.
pub proof fn creation_goes_through_its_steps(
    sandbox: Sandbox,
    storing: CreateSandbox,
    announcing: CreateSandbox,
    creating: CreateSandbox,
    end: CreateSandbox,
)
    requires
        (CreateSandbox::Index { sandbox }).follows(Reply::Done, storing),
        storing.follows(Reply::Stored(Ok(())), announcing),
        announcing.follows(Reply::Done, creating),
        creating.follows(Reply::Created(Ok(())), end),
    ensures
        (CreateSandbox::Index { sandbox }).asks() == Some(Effect::IndexSandbox(&sandbox)),
        storing.asks() == Some(Effect::PutSandbox(&sandbox)),
        announcing.asks() == Some(Effect::Notify(&sandbox.id)),
        creating.asks() == Some(Effect::CreateInCluster(&sandbox)),
        end.asks() is None,
        end.outcome() == Ok::<Sandbox, Status>(sandbox),
{
}

/// A sandbox that the cluster refuses is dropped from the store and from the index, its
/// watchers are told, and the request is answered with why. A name that is taken is told apart
/// from every other reason.
pub proof fn refused_creation_is_rolled_back(
    creating: CreateSandbox,
    sandbox: Sandbox,
    error: ClusterError,
    discarding: CreateSandbox,
    dropped: Result<bool, String>,
    unindexing: CreateSandbox,
    announcing: CreateSandbox,
    end: CreateSandbox,
)
    requires
        creating.asks() == Some(Effect::CreateInCluster(&sandbox)),
        creating.follows(Reply::Created(Err(error)), discarding),
        discarding.follows(Reply::Changed(dropped), unindexing),
        unindexing.follows(Reply::Done, announcing),
        announcing.follows(Reply::Done, end),
    ensures
        discarding.asks() == Some(Effect::DeleteSandbox(&sandbox.id)),
        unindexing.asks() == Some(Effect::UnindexSandbox(&sandbox.id)),
        announcing.asks() == Some(Effect::Notify(&sandbox.id)),
        end.asks() is None,
        end.outcome() matches Err(status) && if error.api_code == Some(409u16) {
            status.code == Code::AlreadyExists
        } else {
            &&& status.code == Code::Internal
            &&& status.message@ == "create sandbox in kubernetes failed: "@ + error.message@
        },
{
}

/// A request without a spec or without a policy, and one that names a provider that is not
/// there, is refused, and nothing is stored.
pub proof fn incomplete_request_is_refused(
    world: World,
    request: CreateSandboxRequest,
    namespace: String,
    default_image: String,
    flow: CreateSandbox,
    last: CreateSandbox,
    after: World,
    steps: nat,
)
    requires
        request.spec is None || request.spec->0.policy is None,
        CreateSandbox::begins(request, namespace, default_image, flow),
        ends(flow, world, last, after, steps),
    ensures
        last matches CreateSandbox::Done(Err(status)) && status.code == Code::InvalidArgument,
        after == world,
{
}

/// The first provider that is not there is named in the refusal, and nothing is stored.
pub proof fn unknown_provider_is_named(
    world: World,
    names: Seq<String>,
    plan: SandboxPlan,
    flow: CreateSandbox,
    last: CreateSandbox,
    after: World,
    steps: nat,
    missing: int,
)
    requires
        CreateSandbox::stands(names, plan, flow),
        ends(flow, world, last, after, steps),
        0 <= missing < names.len(),
        !world.providers.contains_key(names[missing]@),
        forall|i: int| 0 <= i < missing ==> world.providers.contains_key(#[trigger] names[i]@),
    ensures
        last matches CreateSandbox::Done(Err(status)) && status.code == Code::FailedPrecondition
            && status.message@ == "provider '"@ + names[missing]@ + "' not found"@,
        after == world,
    decreases steps,
{
    let effect = flow.asks()->0;
    let (reply, next, between) = choose|reply: Reply, next: CreateSandbox, between: World|
        {
            &&& #[trigger] world_answers(world, effect, reply, between)
            &&& #[trigger] flow.follows(reply, next)
            &&& ends(next, between, last, after, (steps - 1) as nat)
        };
    if missing == 0 {
        reveal_with_fuel(ends, 2);
    } else {
        assert(world.providers.contains_key(names[0]@));
        let rest = names.skip(1);
        assert(rest[missing - 1] == names[missing]);
        assert forall|i: int| 0 <= i < missing - 1 implies world.providers.contains_key(
            #[trigger] rest[i]@,
        ) by {
            assert(rest[i] == names[i + 1]);
        }
        unknown_provider_is_named(
            world,
            rest,
            plan,
            next,
            last,
            after,
            (steps - 1) as nat,
            missing - 1,
        );
    }
}

/// A sandbox that is deleted is marked as going, and stored, entered in the index and announced
/// so, before the cluster is asked to delete what it has under the sandbox's name. The answer
/// is whether the cluster had something; where it had nothing, the sandbox is dropped from the
/// store.
pub proof fn deletion_goes_through_its_steps(
    name: String,
    sandbox: Sandbox,
    storing: DeleteSandbox,
    indexing: DeleteSandbox,
    announcing: DeleteSandbox,
    deleting: DeleteSandbox,
    had: bool,
    then: DeleteSandbox,
    dropped: Result<bool, String>,
    end: DeleteSandbox,
)
    requires
        name@.len() > 0,
        (DeleteSandbox::Fetch { name }).follows(Reply::Sandbox(Ok(Some(sandbox))), storing),
        storing.follows(Reply::Stored(Ok(())), indexing),
        indexing.follows(Reply::Done, announcing),
        announcing.follows(Reply::Done, deleting),
        deleting.follows(Reply::Changed(Ok(had)), then),
        !had ==> then.follows(Reply::Changed(dropped), end),
    ensures
        ({
            let going = Sandbox { phase: SandboxPhase::Deleting, ..sandbox };
            &&& (DeleteSandbox::Fetch { name }).asks() == Some(Effect::SandboxByName(&name))
            &&& storing.asks() == Some(Effect::PutSandbox(&going))
            &&& indexing.asks() == Some(Effect::IndexSandbox(&going))
            &&& announcing.asks() == Some(Effect::Notify(&sandbox.id))
            &&& deleting.asks() == Some(Effect::DeleteInCluster(&sandbox.name))
            &&& had ==> then.asks() is None && then.outcome() == Ok::<bool, Status>(true)
            &&& !had ==> then.asks() == Some(Effect::DeleteSandbox(&sandbox.id)) && end.asks() is None
                && end.outcome() == Ok::<bool, Status>(false)
        }),
{
}

/// A list asks for as many sandboxes as it is to hold, from where it is to begin, and holds what
/// the store gives, in the store's order, each with the creation time of its record.
pub proof fn list_holds_what_the_store_gives(
    limit: u32,
    offset: u32,
    records: Vec<SandboxRecord>,
    next: ListSandboxes,
)
    requires
        (ListSandboxes::Fetch { limit, offset }).follows(Reply::Sandboxes(Ok(records)), next),
        forall|i: int| 0 <= i < records@.len() ==> (#[trigger] records@[i]).sandbox is Ok,
    ensures
        (ListSandboxes::Fetch { limit, offset }).asks() == Some(
            Effect::ListSandboxes { limit, offset },
        ),
        next.outcome() matches Ok(list) && {
            &&& list@.len() == records@.len()
            &&& forall|i: int|
                0 <= i < list@.len() ==> (#[trigger] list@[i]).created_at_ms
                    == records@[i].created_at_ms && lists(
                    list@[i],
                    records@[i].sandbox->Ok_0.deep_view(),
                )
        },
{
    assert(forall|i: int| !(#[trigger] first_unreadable(records@, i)));
    let list = next.outcome()->Ok_0;
    assert forall|i: int| 0 <= i < list@.len() implies (#[trigger] list@[i]).created_at_ms
        == records@[i].created_at_ms && lists(list@[i], records@[i].sandbox->Ok_0.deep_view()) by {
        assert(records@[i].sandbox is Ok);
    }
}

} // verus!
