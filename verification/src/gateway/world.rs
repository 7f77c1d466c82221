//! A model of the gateway's surroundings, for what holds across requests.
use crate::gateway::flow::{answers, Effect, Flow, LoadResult, Reply};
use crate::gateway::model::{
    PolicyRecord, PolicyStatus, PolicyView, Provider, ProviderView, SandboxRecord, SandboxView,
    SessionView,
};
use crate::gateway::policy_rules::status_of;
use vstd::prelude::*;

verus! {

/// A policy revision in the store.
#[verifier::ext_equal]
pub struct RevisionView {
    pub version: i64,
    pub policy: PolicyView,
    pub hash: Seq<char>,
    pub status: PolicyStatus,
}

/// What the store holds.
#[verifier::ext_equal]
pub struct World {
    /// Providers, by name.
    pub providers: Map<Seq<char>, ProviderView>,
    /// Sandboxes, by id.
    pub sandboxes: Map<Seq<char>, SandboxView>,
    /// The policy revisions of each sandbox, the newest last.
    pub policies: Map<Seq<char>, Seq<RevisionView>>,
    /// Grants of shell access, by id.
    pub sessions: Map<Seq<char>, SessionView>,
}

impl World {
    /// The policy revisions of the sandbox `id`.
    pub open spec fn history(self, id: Seq<char>) -> Seq<RevisionView> {
        if self.policies.contains_key(id) {
            self.policies[id]
        } else {
            Seq::empty()
        }
    }

    /// Some sandbox is called `name`.
    pub open spec fn has_sandbox_named(self, name: Seq<char>) -> bool {
        exists|id: Seq<char>| #[trigger]
            self.sandboxes.contains_key(id) && self.sandboxes[id].name == name
    }

    /// The sandbox `id` is called `name`, and no other is.
    pub open spec fn is_named(self, id: Seq<char>, name: Seq<char>) -> bool {
        &&& self.sandboxes.contains_key(id)
        &&& self.sandboxes[id].id == id
        &&& self.sandboxes[id].name == name
        &&& forall|other: Seq<char>| #[trigger]
            self.sandboxes.contains_key(other) && self.sandboxes[other].name == name ==> other
                == id
    }
}

/// `record` is the stored form of `revision`.
pub open spec fn stores(record: PolicyRecord, revision: RevisionView) -> bool {
    &&& record.version == revision.version
    &&& record.policy matches Ok(policy) && policy.deep_view() == revision.policy
    &&& record.policy_hash@ == revision.hash
    &&& status_of(record.status@) == revision.status
}

/// `order` goes through `keys`, each of them once.
pub open spec fn goes_through<K>(order: Seq<K>, keys: Set<K>) -> bool {
    &&& order.no_duplicates()
    &&& forall|key: K| #[trigger] order.contains(key) <==> keys.contains(key)
}

/// What follows on the first `offset` of `order`, `limit` of it at most.
pub open spec fn page_of<K>(order: Seq<K>, limit: u32, offset: u32) -> Seq<K> {
    let rest = if offset < order.len() {
        order.skip(offset as int)
    } else {
        Seq::empty()
    };
    if limit < rest.len() {
        rest.take(limit as int)
    } else {
        rest
    }
}

/// `records` are those of `providers` that stand under `names`, one by one.
pub open spec fn holds_providers(
    records: Seq<Result<Provider, String>>,
    providers: Map<Seq<char>, ProviderView>,
    names: Seq<Seq<char>>,
) -> bool {
    &&& records.len() == names.len()
    &&& forall|i: int|
        0 <= i < records.len() ==> (#[trigger] records[i] matches Ok(provider)
            && provider.deep_view() == providers[names[i]])
}

/// `records` are those of `sandboxes` that stand under `ids`, one by one.
pub open spec fn holds_sandboxes(
    records: Seq<SandboxRecord>,
    sandboxes: Map<Seq<char>, SandboxView>,
    ids: Seq<Seq<char>>,
) -> bool {
    &&& records.len() == ids.len()
    &&& forall|i: int|
        0 <= i < records.len() ==> ((#[trigger] records[i]).sandbox matches Ok(sandbox)
            && sandbox.deep_view() == sandboxes[ids[i]])
}

/// `found` is a revision of `history` with the number `version`, if it has one.
pub open spec fn is_numbered(
    history: Seq<RevisionView>,
    version: i64,
    found: Option<PolicyRecord>,
) -> bool {
    match found {
        Some(record) => exists|i: int|
            0 <= i < history.len() && (#[trigger] history[i]).version == version && stores(
                record,
                history[i],
            ),
        None => forall|i: int|
            0 <= i < history.len() ==> (#[trigger] history[i]).version != version,
    }
}

/// A page that takes as many as there are holds all of them.
pub proof fn lemma_page_of_all<K>(order: Seq<K>, keys: Set<K>, limit: u32)
    requires
        goes_through(order, keys),
        keys.finite(),
        keys.len() <= limit,
    ensures
        page_of(order, limit, 0) == order,
        order.len() == keys.len(),
{
    order.unique_seq_to_set();
    assert(order.to_set() =~= keys);
    assert(order.skip(0) =~= order);
    assert(Seq::<K>::empty() =~= order || order.len() > 0);
}

/// `history` with the status of the revision `version` changed.
pub open spec fn with_status(
    history: Seq<RevisionView>,
    version: i64,
    result: LoadResult,
) -> Seq<RevisionView> {
    history.map_values(
        |revision: RevisionView|
            if revision.version == version {
                RevisionView { status: result.status(), ..revision }
            } else {
                revision
            },
    )
}

/// `now` is `before` with revisions before `version` superseded: all that were still pending,
/// and perhaps others.
pub open spec fn supersedes(
    before: Seq<RevisionView>,
    version: i64,
    now: Seq<RevisionView>,
) -> bool {
    &&& now.len() == before.len()
    &&& forall|i: int|
        #![trigger now[i]]
        #![trigger before[i]]
        0 <= i < now.len() ==> now[i] == before[i] || (before[i].version < version && now[i] == (
        RevisionView { status: PolicyStatus::Superseded, ..before[i] }))
    &&& forall|i: int|
        #![trigger now[i]]
        #![trigger before[i]]
        0 <= i < now.len() && before[i].version < version && before[i].status
            == PolicyStatus::Pending ==> now[i].status == PolicyStatus::Superseded
}

/// No revision of `history` before `version` is still pending.
pub open spec fn none_pending_before(history: Seq<RevisionView>, version: i64) -> bool {
    forall|i: int|
        0 <= i < history.len() && (#[trigger] history[i]).version < version ==> history[i].status
            != PolicyStatus::Pending
}

/// Where the store holds `world` and works, `effect` can be answered with `reply`, and the
/// store holds `after` from then on. The cluster and whatever else is not the store may
/// answer as they like.
pub open spec fn world_answers(
    world: World,
    effect: Effect<'_>,
    reply: Reply,
    after: World,
) -> bool {
    &&& answers(effect, reply)
    &&& match (effect, reply) {
        (Effect::GenerateName, Reply::Name(name)) => name@.len() > 0 && after == world,
        (Effect::ProviderByName(name), Reply::Provider(Ok(found))) => {
            &&& after == world
            &&& match found {
                Some(provider) => world.providers.contains_key(name@) && provider.deep_view()
                    == world.providers[name@],
                None => !world.providers.contains_key(name@),
            }
        },
        (Effect::PutProvider(provider), Reply::Stored(Ok(_))) => after == (World {
            providers: world.providers.insert(provider.name@, provider.deep_view()),
            ..world
        }),
        (Effect::DeleteProviderByName(name), Reply::Changed(Ok(deleted))) => {
            &&& deleted == world.providers.contains_key(name@)
            &&& after == (World { providers: world.providers.remove(name@), ..world })
        },
        (Effect::SandboxById(id), Reply::Sandbox(Ok(found))) => {
            &&& after == world
            &&& match found {
                Some(sandbox) => world.sandboxes.contains_key(id@) && sandbox.deep_view()
                    == world.sandboxes[id@],
                None => !world.sandboxes.contains_key(id@),
            }
        },
        (Effect::SandboxByName(name), Reply::Sandbox(Ok(found))) => {
            &&& after == world
            &&& match found {
                Some(sandbox) => exists|id: Seq<char>| #[trigger]
                    world.sandboxes.contains_key(id) && sandbox.deep_view() == world.sandboxes[id]
                        && sandbox.name@ == name@,
                None => !world.has_sandbox_named(name@),
            }
        },
        (Effect::PutSandbox(sandbox), Reply::Stored(Ok(_))) => after == (World {
            sandboxes: world.sandboxes.insert(sandbox.id@, sandbox.deep_view()),
            ..world
        }),
        (Effect::DeleteSandbox(id), Reply::Changed(Ok(deleted))) => {
            &&& deleted == world.sandboxes.contains_key(id@)
            &&& after == (World { sandboxes: world.sandboxes.remove(id@), ..world })
        },
        (Effect::SessionById(id), Reply::Session(Ok(found))) => {
            &&& after == world
            &&& match found {
                Some(session) => world.sessions.contains_key(id@) && session.deep_view()
                    == world.sessions[id@],
                None => !world.sessions.contains_key(id@),
            }
        },
        (Effect::PutSession(session), Reply::Stored(Ok(_))) => after == (World {
            sessions: world.sessions.insert(session.id@, session.deep_view()),
            ..world
        }),
        (Effect::LatestPolicy(id), Reply::Policy(Ok(found))) => {
            after == world && is_latest(world.history(id@), found)
        },
        (Effect::PolicyToRevise { sandbox_id, .. }, Reply::Policy(Ok(found))) => {
            after == world && is_latest(world.history(sandbox_id@), found)
        },
        (Effect::PutPolicyRevision { id, sandbox_id, version, policy, hash }, Reply::Stored(Ok(_))) => {
            after == (World {
                policies: world.policies.insert(
                    sandbox_id@,
                    world.history(sandbox_id@).push(
                        RevisionView {
                            version,
                            policy: policy.deep_view(),
                            hash: hash@,
                            status: PolicyStatus::Pending,
                        },
                    ),
                ),
                ..world
            })
        },
        (Effect::UpdatePolicyStatus { sandbox_id, version, result, .. }, Reply::Changed(Ok(updated))) => {
            &&& updated == exists|i: int|
                0 <= i < world.history(sandbox_id@).len() && #[trigger] world.history(
                    sandbox_id@,
                )[i].version == version
            &&& after == (World {
                policies: world.policies.insert(
                    sandbox_id@,
                    with_status(world.history(sandbox_id@), version, result),
                ),
                ..world
            })
        },
        (Effect::SupersedeOlderPolicies { sandbox_id, version }, Reply::Stored(Ok(_))) => {
            &&& supersedes(world.history(sandbox_id@), version, after.history(sandbox_id@))
            &&& after == (World {
                policies: world.policies.insert(sandbox_id@, after.history(sandbox_id@)),
                ..world
            })
        },
        (Effect::PolicyByVersion { sandbox_id, version }, Reply::Policy(Ok(found))) => {
            after == world && is_numbered(world.history(sandbox_id@), version, found)
        },
        (Effect::ListSandboxes { limit, offset }, Reply::Sandboxes(Ok(records))) => {
            &&& after == world
            &&& exists|order: Seq<Seq<char>>| #[trigger]
                goes_through(order, world.sandboxes.dom()) && holds_sandboxes(
                    records@,
                    world.sandboxes,
                    page_of(order, limit, offset),
                )
        },
        (Effect::ListProviders { limit, offset }, Reply::Providers(Ok(records))) => {
            &&& after == world
            &&& exists|order: Seq<Seq<char>>| #[trigger]
                goes_through(order, world.providers.dom()) && holds_providers(
                    records@,
                    world.providers,
                    page_of(order, limit, offset),
                )
        },
        (Effect::ListPolicies { .. }, Reply::Policies(Ok(_))) => after == world,
        (Effect::IndexSandbox(_), _) => after == world,
        (Effect::UnindexSandbox(_), _) => after == world,
        (Effect::Notify(_), _) => after == world,
        (Effect::CreateInCluster(_), _) => after == world,
        (Effect::DeleteInCluster(_), _) => after == world,
        (Effect::AgentPodIp(_), _) => after == world,
        (Effect::Tail { .. }, _) => after == world,
        (Effect::NextLogBatch, _) => after == world,
        (Effect::PublishLogs(_), _) => after == world,
        _ => false,
    }
}

/// `found` is the newest revision of `history`, if it has one.
pub open spec fn is_latest(history: Seq<RevisionView>, found: Option<PolicyRecord>) -> bool {
    match found {
        Some(record) => history.len() > 0 && stores(record, history.last()),
        None => history.len() == 0,
    }
}

/// Where the store holds `world` and works, `flow` can end as `last` in `steps` steps, with
/// the store holding `after`.
pub open spec fn ends<F: Flow>(flow: F, world: World, last: F, after: World, steps: nat) -> bool
    decreases steps,
{
    match flow.asks() {
        None => steps == 0 && last == flow && after == world,
        Some(effect) => steps > 0 && exists|reply: Reply, next: F, between: World|
            {
                &&& #[trigger] world_answers(world, effect, reply, between)
                &&& #[trigger] flow.follows(reply, next)
                &&& ends(next, between, last, after, (steps - 1) as nat)
            },
    }
}

} // verus!
