//! What holds of policies across requests.
use crate::bytes::{lemma_native_bytes, native_bytes, pow256};
use crate::gateway::flow::{Effect, Flow, LoadResult, Reply};
use crate::gateway::model::{
    PolicyRecord, PolicyStatus, PolicyView, Sandbox, SandboxPolicy, SandboxView,
};
use crate::gateway::policy::{
    update_refusal, GetSandboxPolicy, GetSandboxPolicyStatus, ListSandboxPolicies,
    ReportPolicyStatus, ReportPolicyStatusRequest, UpdateSandboxPolicy, UpdateSandboxPolicyRequest,
    UpdateSandboxPolicyResponse,
};
use crate::gateway::policy_rules::{
    is_proxied, policy_bytes, policy_hash, rule_bytes, section_bytes, shown_version, shows,
    status_of, SandboxPolicyRevision,
};
use crate::gateway::world::{
    ends, none_pending_before, supersedes, with_status, world_answers, RevisionView, World,
};
use crate::status::Code;
use crate::string_map::{
    lemma_sorted_keys_exist, lemma_text_lt_order, sorted_keys, text_lt,
};
use vstd::prelude::*;
use vstd::utf8::encode_utf8;

verus! {

/// Policies with the same contents have the same digest, in whatever order their rules
/// were entered.
pub proof fn same_contents_same_hash(a: SandboxPolicy, b: SandboxPolicy)
    requires
        a.deep_view() == b.deep_view(),
    ensures
        policy_hash(a.deep_view()) == policy_hash(b.deep_view()),
{
}

/// A revision that is stored keeps the sections that are applied at startup, and keeps the
/// network blocked or proxied, as in the policy that the sandbox was created with.
pub proof fn accepted_update_keeps_startup_sections(sandbox: Sandbox, policy: SandboxPolicy)
    requires
        update_refusal(sandbox, policy) is None,
    ensures
        ({
            let baseline = sandbox.spec->0.policy->0.deep_view();
            let new = policy.deep_view();
            &&& sandbox.spec is Some
            &&& sandbox.spec->0.policy is Some
            &&& new.filesystem == baseline.filesystem
            &&& new.landlock == baseline.landlock
            &&& new.process == baseline.process
            &&& is_proxied(new) == is_proxied(baseline)
        }),
{
}

/// Every section that is not applied at startup can be revised: a policy that keeps those
/// three, and has network rules exactly if the policy that the sandbox was created with has
/// some, is not refused, whatever its version, its rules, its inference section and the rest
/// of it are.
pub proof fn dynamic_sections_can_be_revised(
    sandbox: Sandbox,
    baseline: SandboxPolicy,
    policy: SandboxPolicy,
)
    requires
        sandbox.spec matches Some(spec) && spec.policy == Some(baseline),
        policy.deep_view().filesystem == baseline.deep_view().filesystem,
        policy.deep_view().landlock == baseline.deep_view().landlock,
        policy.deep_view().process == baseline.deep_view().process,
        (exists|name: Seq<char>| #[trigger]
            policy.deep_view().network_policies.contains_key(name)) <==> (exists|name: Seq<char>|
         #[trigger]
            baseline.deep_view().network_policies.contains_key(name)),
    ensures
        update_refusal(sandbox, policy) is None,
{
    let new = policy.deep_view().network_policies;
    let old_rules = baseline.deep_view().network_policies;
    let none = Map::<Seq<char>, Seq<u8>>::empty();
    if new != none {
        assert(exists|name: Seq<char>| #[trigger] new.contains_key(name)) by {
            if forall|name: Seq<char>| !(#[trigger] new.contains_key(name)) {
                assert(new =~= none);
            }
        }
    }
    if old_rules != none {
        assert(exists|name: Seq<char>| #[trigger] old_rules.contains_key(name)) by {
            if forall|name: Seq<char>| !(#[trigger] old_rules.contains_key(name)) {
                assert(old_rules =~= none);
            }
        }
    }
}

/// A change of a section that is applied at startup, of the first network rule or of the last
/// one, is refused as an argument that is not valid.
pub proof fn startup_sections_cannot_be_revised(
    sandbox: Sandbox,
    baseline: SandboxPolicy,
    policy: SandboxPolicy,
)
    requires
        sandbox.spec matches Some(spec) && spec.policy == Some(baseline),
        ({
            let new = policy.deep_view();
            let old_policy = baseline.deep_view();
            ||| new.filesystem != old_policy.filesystem
            ||| new.landlock != old_policy.landlock
            ||| new.process != old_policy.process
            ||| (exists|name: Seq<char>| #[trigger] new.network_policies.contains_key(name)) != (
            exists|name: Seq<char>| #[trigger] old_policy.network_policies.contains_key(name))
        }),
    ensures
        update_refusal(sandbox, policy) matches Some((code, _)) && code == Code::InvalidArgument,
{
    let new = policy.deep_view().network_policies;
    let old_rules = baseline.deep_view().network_policies;
    let none = Map::<Seq<char>, Seq<u8>>::empty();
    if new == none {
        assert(forall|name: Seq<char>| !(#[trigger] new.contains_key(name)));
    } else if forall|name: Seq<char>| !(#[trigger] new.contains_key(name)) {
        assert(new =~= none);
    }
    if old_rules == none {
        assert(forall|name: Seq<char>| !(#[trigger] old_rules.contains_key(name)));
    } else if forall|name: Seq<char>| !(#[trigger] old_rules.contains_key(name)) {
        assert(old_rules =~= none);
    }
}

/// The revisions of a sandbox are numbered from one up.
pub open spec fn counted(history: Seq<RevisionView>) -> bool {
    forall|i: int| 0 <= i < history.len() ==> (#[trigger] history[i]).version == i + 1
}

/// How an update ends that has passed its checks.
proof fn lemma_update_ends(
    world: World,
    sandbox_id: String,
    policy: SandboxPolicy,
    hash: String,
    last: UpdateSandboxPolicy,
    after: World,
    steps: nat,
)
    requires
        hash@ == policy_hash(policy.deep_view()),
        counted(world.history(sandbox_id@)),
        ends(
            UpdateSandboxPolicy::FetchLatest { sandbox_id, policy, hash },
            world,
            last,
            after,
            steps,
        ),
    ensures
        last matches UpdateSandboxPolicy::Done(Ok(response)) && {
            let before = world.history(sandbox_id@);
            let now = after.history(sandbox_id@);
            &&& response.policy_hash@ == policy_hash(policy.deep_view())
            &&& counted(now)
            &&& now.len() > 0
            &&& response.version == shown_version(now.last().version)
            &&& now.last().hash == policy_hash(policy.deep_view())
            &&& if before.len() > 0 && before.last().hash == policy_hash(policy.deep_view()) {
                after == world
            } else {
                &&& now.len() == before.len() + 1
                &&& now.last().policy == policy.deep_view()
                &&& now.last().status == PolicyStatus::Pending
                &&& none_pending_before(now, now.last().version)
            }
            &&& after.sandboxes == world.sandboxes
        },
{
    reveal_with_fuel(ends, 2);
    let flow = UpdateSandboxPolicy::FetchLatest { sandbox_id, policy, hash };
    let effect = flow.asks()->0;
    let (reply, next, between) = choose|
        reply: Reply,
        next: UpdateSandboxPolicy,
        between: World,
    |
        {
            &&& #[trigger] world_answers(world, effect, reply, between)
            &&& #[trigger] flow.follows(reply, next)
            &&& ends(next, between, last, after, (steps - 1) as nat)
        };
    let before = world.history(sandbox_id@);
    if before.len() > 0 && before.last().hash == hash@ {
        assert(last == next);
    } else {
        assert(next is Persist);
        let version = next->Persist_version;
        assert(version == before.len() + 1);
        let added = before.push(
            RevisionView {
                version,
                policy: policy.deep_view(),
                hash: hash@,
                status: PolicyStatus::Pending,
            },
        );
        reveal_with_fuel(ends, 4);
        let now = after.history(sandbox_id@);
        assert(supersedes(added, version, now));
        assert(counted(now)) by {
            assert forall|i: int| 0 <= i < now.len() implies (#[trigger] now[i]).version == i
                + 1 by {
                assert(now[i].version == added[i].version);
            }
        }
        assert(now.last() == added.last());
        assert(none_pending_before(now, version)) by {
            assert forall|i: int| 0 <= i < now.len() && (#[trigger] now[i]).version
                < version implies now[i].status != PolicyStatus::Pending by {
                assert(now[i].version == added[i].version);
            }
        }
    }
}

/// After an update, the sandbox is served the revision that the update answered with: the
/// same version and the same digest, and, where the update stored a new revision, the very
/// policy that was sent.
pub proof fn updated_policy_is_served(
    world: World,
    id: String,
    request: UpdateSandboxPolicyRequest,
    update: (UpdateSandboxPolicy, UpdateSandboxPolicy),
    response: UpdateSandboxPolicyResponse,
    between: World,
    update_steps: nat,
    get: (GetSandboxPolicy, GetSandboxPolicy),
    after: World,
    get_steps: nat,
)
    requires
        world.is_named(id@, request.name@),
        counted(world.history(id@)),
        UpdateSandboxPolicy::begins(request, update.0),
        ends(update.0, world, update.1, between, update_steps),
        update.1 == UpdateSandboxPolicy::Done(Ok(response)),
        get.0 == (GetSandboxPolicy::FetchSandbox { sandbox_id: id }),
        ends(get.0, between, get.1, after, get_steps),
    ensures
        request.policy is Some,
        get.1 matches GetSandboxPolicy::Done(Ok(served)) && {
            &&& served.version == response.version
            &&& served.policy_hash@ == response.policy_hash@
            &&& served.policy_hash@ == policy_hash(request.policy->0.deep_view())
            &&& between != world ==> (served.policy matches Some(policy) && policy.deep_view()
                == request.policy->0.deep_view())
        },
        after == between,
        counted(between.history(id@)),
{
    reveal_with_fuel(ends, 2);
    let policy = request.policy->0;
    let effect = update.0.asks()->0;
    let (reply, next, mid) = choose|reply: Reply, next: UpdateSandboxPolicy, mid: World|
        {
            &&& #[trigger] world_answers(world, effect, reply, mid)
            &&& #[trigger] update.0.follows(reply, next)
            &&& ends(next, mid, update.1, between, (update_steps - 1) as nat)
        };
    let sandbox_id = next->FetchLatest_sandbox_id;
    assert(sandbox_id@ == id@);
    let hash = next->FetchLatest_hash;
    lemma_update_ends(
        world,
        sandbox_id,
        policy,
        hash,
        update.1,
        between,
        (update_steps - 1) as nat,
    );
    reveal_with_fuel(ends, 3);
}

/// After an update that stored a new revision, that revision is pending and no older one
/// still is.
pub proof fn update_supersedes_pending_revisions(
    world: World,
    id: Seq<char>,
    request: UpdateSandboxPolicyRequest,
    update: (UpdateSandboxPolicy, UpdateSandboxPolicy),
    response: UpdateSandboxPolicyResponse,
    after: World,
    steps: nat,
)
    requires
        world.is_named(id, request.name@),
        counted(world.history(id)),
        UpdateSandboxPolicy::begins(request, update.0),
        ends(update.0, world, update.1, after, steps),
        update.1 == UpdateSandboxPolicy::Done(Ok(response)),
        after != world,
    ensures
        ({
            let now = after.history(id);
            &&& now.len() == world.history(id).len() + 1
            &&& now.last().status == PolicyStatus::Pending
            &&& none_pending_before(now, now.last().version)
        }),
{
    reveal_with_fuel(ends, 2);
    let effect = update.0.asks()->0;
    let (reply, next, mid) = choose|reply: Reply, next: UpdateSandboxPolicy, mid: World|
        {
            &&& #[trigger] world_answers(world, effect, reply, mid)
            &&& #[trigger] update.0.follows(reply, next)
            &&& ends(next, mid, update.1, after, (steps - 1) as nat)
        };
    let sandbox_id = next->FetchLatest_sandbox_id;
    assert(sandbox_id@ == id);
    lemma_update_ends(
        world,
        sandbox_id,
        request.policy->0,
        next->FetchLatest_hash,
        update.1,
        after,
        (steps - 1) as nat,
    );
}

/// How serving a policy ends.
proof fn lemma_serving_ends(
    world: World,
    id: String,
    last: GetSandboxPolicy,
    after: World,
    steps: nat,
)
    requires
        world.sandboxes.contains_key(id@),
        ends(GetSandboxPolicy::FetchSandbox { sandbox_id: id }, world, last, after, steps),
    ensures
        last matches GetSandboxPolicy::Done(Ok(served)) ==> {
            let now = after.history(id@);
            &&& now.len() > 0
            &&& served.version == shown_version(now.last().version)
            &&& served.policy_hash@ == now.last().hash
            &&& served.policy matches Some(policy) && policy.deep_view() == now.last().policy
            &&& world.history(id@).len() > 0 ==> after == world
            &&& world.history(id@).len() == 0 ==> now.len() == 1 && now[0].version == 1
        },
        after.sandboxes == world.sandboxes,
{
    reveal_with_fuel(ends, 5);
    if world.history(id@).len() == 0 && last->0 is Ok {
        let now = after.history(id@);
        assert(now.len() == 1);
    }
}

/// Serving a policy twice gives the same version, the same digest and the same policy. The
/// first time, the policy that the sandbox was created with becomes the first revision.
pub proof fn serving_is_stable(
    world: World,
    id: String,
    first: GetSandboxPolicy,
    between: World,
    first_steps: nat,
    second: GetSandboxPolicy,
    after: World,
    second_steps: nat,
)
    requires
        world.sandboxes.contains_key(id@),
        ends(GetSandboxPolicy::FetchSandbox { sandbox_id: id }, world, first, between, first_steps),
        ends(
            GetSandboxPolicy::FetchSandbox { sandbox_id: id },
            between,
            second,
            after,
            second_steps,
        ),
        first matches GetSandboxPolicy::Done(Ok(_)),
    ensures
        second matches GetSandboxPolicy::Done(Ok(again)) && {
            let served = first->0->Ok_0;
            &&& again.version == served.version
            &&& again.policy_hash@ == served.policy_hash@
            &&& again.policy.deep_view() == served.policy.deep_view()
        },
        after == between,
        world.history(id@).len() == 0 ==> first->0->Ok_0.version == 1 && counted(
            between.history(id@),
        ),
{
    lemma_serving_ends(world, id, first, between, first_steps);
    lemma_serving_ends(between, id, second, after, second_steps);
    reveal_with_fuel(ends, 3);
}

/// How a report that is taken in leaves the store.
proof fn lemma_report_ends(
    world: World,
    name: String,
    request: ReportPolicyStatusRequest,
    now: Result<i64, String>,
    report: (ReportPolicyStatus, ReportPolicyStatus),
    after: World,
    steps: nat,
)
    requires
        world.is_named(request.sandbox_id@, name@),
        ReportPolicyStatus::begins(request, now, report.0),
        ends(report.0, world, report.1, after, steps),
        report.1 == ReportPolicyStatus::Done(Ok(())),
    ensures
        request.version > 0,
        request.status == Some(PolicyStatus::Loaded) || request.status == Some(
            PolicyStatus::Failed,
        ),
        after.is_named(request.sandbox_id@, name@),
        after.sandboxes[request.sandbox_id@].current_policy_version == (if request.status == Some(
            PolicyStatus::Loaded,
        ) {
            request.version
        } else {
            world.sandboxes[request.sandbox_id@].current_policy_version
        }),
        exists|i: int|
            0 <= i < after.history(request.sandbox_id@).len() && (#[trigger] after.history(
                request.sandbox_id@,
            )[i]).version == request.version,
        forall|i: int|
            0 <= i < after.history(request.sandbox_id@).len() && (#[trigger] after.history(
                request.sandbox_id@,
            )[i]).version == request.version ==> request.status == Some(
                after.history(request.sandbox_id@)[i].status,
            ),
{
    reveal_with_fuel(ends, 6);
    let id = request.sandbox_id@;
    let version = request.version as i64;
    let result = report.0->Update_result;
    let before = world.history(id);
    let marked = with_status(before, version, result);
    let left = after.history(id);
    let k = choose|k: int| 0 <= k < before.len() && #[trigger] before[k].version == version;
    assert(marked[k].version == version);
    if result == LoadResult::Loaded {
        assert(supersedes(marked, version, left));
    } else {
        assert(left == marked);
    }
    assert(left[k].version == version);
    assert forall|i: int|
        0 <= i < left.len() && (#[trigger] left[i]).version == request.version implies request.status
        == Some(left[i].status) by {
        assert(marked[i].version == version);
        assert(before[i].version == version);
    }
}

/// After a sandbox has reported a revision as loaded, that revision counts as loaded and is
/// the one that the sandbox applies, and no older one is still pending.
pub proof fn loaded_revision_becomes_active(
    world: World,
    request: ReportPolicyStatusRequest,
    now: Result<i64, String>,
    report: (ReportPolicyStatus, ReportPolicyStatus),
    after: World,
    steps: nat,
    i: int,
)
    requires
        world.sandboxes.contains_key(request.sandbox_id@),
        world.sandboxes[request.sandbox_id@].id == request.sandbox_id@,
        request.status == Some(PolicyStatus::Loaded),
        ReportPolicyStatus::begins(request, now, report.0),
        ends(report.0, world, report.1, after, steps),
        report.1 == ReportPolicyStatus::Done(Ok(())),
        0 <= i < world.history(request.sandbox_id@).len(),
        world.history(request.sandbox_id@)[i].version == request.version,
    ensures
        after.sandboxes == world.sandboxes.insert(
            request.sandbox_id@,
            SandboxView {
                current_policy_version: request.version,
                ..world.sandboxes[request.sandbox_id@]
            },
        ),
        after.history(request.sandbox_id@).len() == world.history(request.sandbox_id@).len(),
        after.history(request.sandbox_id@)[i] == (RevisionView {
            status: PolicyStatus::Loaded,
            ..world.history(request.sandbox_id@)[i]
        }),
        none_pending_before(after.history(request.sandbox_id@), request.version as i64),
{
    reveal_with_fuel(ends, 6);
    let id = request.sandbox_id@;
    let version = request.version as i64;
    let marked = with_status(world.history(id), version, LoadResult::Loaded);
    assert(supersedes(marked, version, after.history(id)));
}

/// After a sandbox has reported that it loaded a revision, or failed to, the status of that
/// revision is shown as reported, and a revision that was loaded as the one that the sandbox
/// applies.
pub proof fn reported_status_is_shown(
    world: World,
    name: String,
    request: ReportPolicyStatusRequest,
    now: Result<i64, String>,
    report: (ReportPolicyStatus, ReportPolicyStatus),
    between: World,
    report_steps: nat,
    get: (GetSandboxPolicyStatus, GetSandboxPolicyStatus),
    after: World,
    get_steps: nat,
)
    requires
        name@.len() > 0,
        world.is_named(request.sandbox_id@, name@),
        ReportPolicyStatus::begins(request, now, report.0),
        ends(report.0, world, report.1, between, report_steps),
        report.1 == ReportPolicyStatus::Done(Ok(())),
        GetSandboxPolicyStatus::begins(name, request.version, get.0),
        ends(get.0, between, get.1, after, get_steps),
    ensures
        get.1 matches GetSandboxPolicyStatus::Done(Ok(response)) && {
            &&& response.revision matches Some(revision) && {
                &&& revision.version == request.version
                &&& request.status == Some(revision.status)
            }
            &&& response.active_version == (if request.status == Some(PolicyStatus::Loaded) {
                request.version
            } else {
                world.sandboxes[request.sandbox_id@].current_policy_version
            })
        },
        request.status == Some(PolicyStatus::Loaded) || request.status == Some(
            PolicyStatus::Failed,
        ),
        after == between,
{
    lemma_report_ends(world, name, request, now, report, between, report_steps);
    reveal_with_fuel(ends, 3);
}

/// What is told of the revision that a sandbox applies is what the store has of it.
pub proof fn status_tells_active_version(
    world: World,
    id: Seq<char>,
    name: String,
    version: u32,
    flow: GetSandboxPolicyStatus,
    last: GetSandboxPolicyStatus,
    after: World,
    steps: nat,
)
    requires
        world.is_named(id, name@),
        GetSandboxPolicyStatus::begins(name, version, flow),
        ends(flow, world, last, after, steps),
    ensures
        last matches GetSandboxPolicyStatus::Done(Ok(response)) ==> response.active_version
            == world.sandboxes[id].current_policy_version,
        after == world,
{
    reveal_with_fuel(ends, 3);
}

/// `policy` keeps the sections of `baseline` that are applied at startup, and has network rules
/// exactly if `baseline` has some.
pub open spec fn keeps_startup_sections(policy: PolicyView, baseline: PolicyView) -> bool {
    &&& policy.filesystem == baseline.filesystem
    &&& policy.landlock == baseline.landlock
    &&& policy.process == baseline.process
    &&& (exists|name: Seq<char>| #[trigger] policy.network_policies.contains_key(name)) <==> (
    exists|name: Seq<char>| #[trigger] baseline.network_policies.contains_key(name))
}

/// An update whose policy keeps what is applied at startup is accepted, and the revision that
/// is in force afterwards is the one that was sent: where the newest revision has another
/// digest, the policy is stored behind it under the next number. Any other update is refused as
/// an argument that is not valid, and changes nothing.
pub proof fn updates_are_accepted_or_change_nothing(
    world: World,
    id: Seq<char>,
    request: UpdateSandboxPolicyRequest,
    policy: SandboxPolicy,
    update: (UpdateSandboxPolicy, UpdateSandboxPolicy),
    after: World,
    steps: nat,
)
    requires
        request.name@.len() > 0,
        request.policy == Some(policy),
        world.is_named(id, request.name@),
        world.sandboxes[id].spec matches Some(spec) && spec.policy is Some,
        counted(world.history(id)),
        world.history(id).len() < u32::MAX,
        UpdateSandboxPolicy::begins(request, update.0),
        ends(update.0, world, update.1, after, steps),
    ensures
        ({
            let baseline = world.sandboxes[id].spec->0.policy->0;
            let before = world.history(id);
            let now = after.history(id);
            if keeps_startup_sections(policy.deep_view(), baseline) {
                &&& update.1 matches UpdateSandboxPolicy::Done(Ok(response))
                &&& response.version == now.len()
                &&& response.policy_hash@ == now.last().hash
                &&& now.last().hash == policy_hash(policy.deep_view())
                &&& before.len() == 0 || before.last().hash != policy_hash(policy.deep_view()) ==> {
                    &&& now.len() == before.len() + 1
                    &&& now.last().policy == policy.deep_view()
                    &&& now.last().version == before.len() + 1
                }
                &&& before.len() > 0 && before.last().hash == policy_hash(policy.deep_view())
                    ==> after == world
            } else {
                &&& update.1 matches UpdateSandboxPolicy::Done(Err(status))
                &&& status.code == Code::InvalidArgument
                &&& after == world
            }
        }),
        after.sandboxes == world.sandboxes,
{
    reveal_with_fuel(ends, 2);
    let effect = update.0.asks()->0;
    let (reply, next, mid) = choose|reply: Reply, next: UpdateSandboxPolicy, mid: World|
        {
            &&& #[trigger] world_answers(world, effect, reply, mid)
            &&& #[trigger] update.0.follows(reply, next)
            &&& ends(next, mid, update.1, after, (steps - 1) as nat)
        };
    let sandbox = reply->Sandbox_0->Ok_0->0;
    assert(sandbox.deep_view() == world.sandboxes[id]);
    let baseline = sandbox.spec->0.policy->0;
    assert(baseline.deep_view() == world.sandboxes[id].spec->0.policy->0);
    if keeps_startup_sections(policy.deep_view(), baseline.deep_view()) {
        dynamic_sections_can_be_revised(sandbox, baseline, policy);
        let sandbox_id = next->FetchLatest_sandbox_id;
        assert(sandbox_id@ == id);
        lemma_update_ends(
            world,
            sandbox_id,
            policy,
            next->FetchLatest_hash,
            update.1,
            after,
            (steps - 1) as nat,
        );
    } else {
        startup_sections_cannot_be_revised(sandbox, baseline, policy);
    }
}

/// Until there is a revision, a sandbox is served the policy that it was created with, as the
/// first revision. That revision is stored, and is loaded already.
pub proof fn first_policy_is_the_created_one(
    world: World,
    id: String,
    last: GetSandboxPolicy,
    after: World,
    steps: nat,
)
    requires
        world.sandboxes.contains_key(id@),
        world.sandboxes[id@].spec matches Some(spec) && spec.policy is Some,
        world.history(id@).len() == 0,
        ends(GetSandboxPolicy::FetchSandbox { sandbox_id: id }, world, last, after, steps),
    ensures
        ({
            let policy = world.sandboxes[id@].spec->0.policy->0;
            &&& last matches GetSandboxPolicy::Done(Ok(served))
            &&& served.policy matches Some(given) && given.deep_view() == policy
            &&& served.version == 1
            &&& served.policy_hash@ == policy_hash(policy)
            &&& after.history(id@) == seq![
                RevisionView {
                    version: 1,
                    policy,
                    hash: policy_hash(policy),
                    status: PolicyStatus::Loaded,
                },
            ]
        }),
{
    reveal_with_fuel(ends, 5);
    let policy = world.sandboxes[id@].spec->0.policy->0;
    let now = after.history(id@);
    assert(now.len() == 1);
    assert(now =~= seq![
        RevisionView {
            version: 1,
            policy,
            hash: policy_hash(policy),
            status: PolicyStatus::Loaded,
        },
    ]);
}

/// Once there are revisions, a sandbox is served the newest one, and that changes nothing.
pub proof fn newest_revision_is_served(
    world: World,
    id: String,
    last: GetSandboxPolicy,
    after: World,
    steps: nat,
)
    requires
        world.sandboxes.contains_key(id@),
        counted(world.history(id@)),
        0 < world.history(id@).len() <= u32::MAX,
        ends(GetSandboxPolicy::FetchSandbox { sandbox_id: id }, world, last, after, steps),
    ensures
        last matches GetSandboxPolicy::Done(Ok(served)) && {
            let newest = world.history(id@).last();
            &&& served.policy matches Some(given) && given.deep_view() == newest.policy
            &&& served.version == world.history(id@).len()
            &&& served.policy_hash@ == newest.hash
        },
        after == world,
{
    reveal_with_fuel(ends, 3);
}

/// A report is stored as it was sent: what was loaded with the time of the report, and what
/// failed with its error, where there is one.
pub proof fn report_is_stored_as_sent(
    request: ReportPolicyStatusRequest,
    now: i64,
    flow: ReportPolicyStatus,
)
    requires
        request.sandbox_id@.len() > 0,
        request.version > 0,
        request.status == Some(PolicyStatus::Loaded) || request.status == Some(
            PolicyStatus::Failed,
        ),
        ReportPolicyStatus::begins(request, Ok(now), flow),
    ensures
        flow.asks() matches Some(
            Effect::UpdatePolicyStatus { sandbox_id, version, result, load_error, loaded_at_ms },
        ) && {
            &&& sandbox_id@ == request.sandbox_id@
            &&& version == request.version
            &&& request.status == Some(PolicyStatus::Loaded) ==> {
                &&& result == LoadResult::Loaded
                &&& load_error is None
                &&& loaded_at_ms == Some(now)
            }
            &&& request.status == Some(PolicyStatus::Failed) ==> {
                &&& result == LoadResult::Failed
                &&& load_error is None <==> request.load_error@.len() == 0
                &&& load_error matches Some(error) ==> error@ == request.load_error@
                &&& loaded_at_ms is None
            }
        },
{
}

/// A report on a revision that is there is taken in, and one on a revision that is not there is
/// answered so and changes no revision.
pub proof fn reports_on_revisions_are_taken_in(
    world: World,
    request: ReportPolicyStatusRequest,
    now: i64,
    report: (ReportPolicyStatus, ReportPolicyStatus),
    after: World,
    steps: nat,
)
    requires
        request.sandbox_id@.len() > 0,
        request.version > 0,
        request.status == Some(PolicyStatus::Loaded) || request.status == Some(
            PolicyStatus::Failed,
        ),
        ReportPolicyStatus::begins(request, Ok(now), report.0),
        ends(report.0, world, report.1, after, steps),
    ensures
        if exists|i: int|
            0 <= i < world.history(request.sandbox_id@).len() && (#[trigger] world.history(
                request.sandbox_id@,
            )[i]).version == request.version {
            report.1 == ReportPolicyStatus::Done(Ok(()))
        } else {
            &&& report.1 matches ReportPolicyStatus::Done(Err(status))
            &&& status.code == Code::NotFound
            &&& after.history(request.sandbox_id@) == world.history(request.sandbox_id@)
            &&& after.sandboxes == world.sandboxes
        },
{
    reveal_with_fuel(ends, 6);
    let id = request.sandbox_id@;
    let version = request.version as i64;
    let before = world.history(id);
    if forall|i: int| 0 <= i < before.len() ==> (#[trigger] before[i]).version != request.version {
        let marked = with_status(before, version, report.0->Update_result);
        assert(marked =~= before) by {
            assert forall|i: int| 0 <= i < before.len() implies marked[i] == before[i] by {
                assert(before[i].version != request.version);
            }
        }
        assert(after.history(id) == marked);
    }
}

/// What is shown of a revision is what is stored of it: the one with the number that was asked
/// for, or the newest where that is zero, with its policy.
pub proof fn status_shows_the_stored_revision(
    world: World,
    id: Seq<char>,
    name: String,
    version: u32,
    flow: GetSandboxPolicyStatus,
    last: GetSandboxPolicyStatus,
    after: World,
    steps: nat,
)
    requires
        name@.len() > 0,
        world.is_named(id, name@),
        counted(world.history(id)),
        world.history(id).len() <= u32::MAX,
        GetSandboxPolicyStatus::begins(name, version, flow),
        ends(flow, world, last, after, steps),
    ensures
        ({
            let history = world.history(id);
            let at = if version == 0 {
                history.len() - 1
            } else {
                version - 1
            };
            if 0 <= at < history.len() {
                &&& last matches GetSandboxPolicyStatus::Done(Ok(response))
                &&& response.revision matches Some(revision) && {
                    &&& revision.version == at + 1
                    &&& revision.policy_hash@ == history[at].hash
                    &&& revision.status == history[at].status
                    &&& revision.policy matches Some(policy) && policy.deep_view()
                        == history[at].policy
                }
            } else {
                &&& last matches GetSandboxPolicyStatus::Done(Err(status))
                &&& status.code == Code::NotFound
            }
        }),
{
    reveal_with_fuel(ends, 3);
    let history = world.history(id);
    if 0 < version <= history.len() {
        assert(history[version - 1].version == version);
    }
}

/// The revisions of a sandbox are listed one by one as they are stored, without their policies,
/// as many as were asked for or fifty.
pub proof fn revisions_are_listed_as_stored(
    name: String,
    limit: u32,
    offset: u32,
    start: ListSandboxPolicies,
    sandbox: Sandbox,
    fetching: ListSandboxPolicies,
    records: Vec<PolicyRecord>,
    end: ListSandboxPolicies,
)
    requires
        name@.len() > 0,
        ListSandboxPolicies::begins(name, limit, offset, start),
        start.follows(Reply::Sandbox(Ok(Some(sandbox))), fetching),
        fetching.follows(Reply::Policies(Ok(records)), end),
    ensures
        start.asks() == Some(Effect::SandboxByName(&name)),
        fetching.asks() matches Some(Effect::ListPolicies { sandbox_id, limit: most, offset: from })
            && sandbox_id@ == sandbox.id@ && most == (if limit == 0 {
            50
        } else {
            limit
        }) && from == offset,
        end.outcome() matches Ok(list) && {
            &&& list@.len() == records@.len()
            &&& forall|i: int|
                0 <= i < list@.len() ==> {
                    &&& 0 <= records@[i].version <= u32::MAX ==> (#[trigger] list@[i]).version
                        == records@[i].version
                    &&& list@[i].policy_hash@ == records@[i].policy_hash@
                    &&& list@[i].created_at_ms == records@[i].created_at_ms
                    &&& list@[i].policy is None
                    &&& records@[i].load_error matches Some(error) ==> list@[i].load_error@
                        == error@
                    &&& records@[i].load_error is None ==> list@[i].load_error@.len() == 0
                }
        },
{
}

/// After a revision is stored, older ones are superseded and the sandbox's watchers are told,
/// before the update is answered.
pub proof fn watchers_are_told_of_revisions(
    sandbox_id: String,
    policy_id: String,
    version: i64,
    policy: SandboxPolicy,
    hash: String,
    superseding: UpdateSandboxPolicy,
    superseded: Result<(), String>,
    announcing: UpdateSandboxPolicy,
    end: UpdateSandboxPolicy,
)
    requires
        (UpdateSandboxPolicy::Persist { sandbox_id, policy_id, version, policy, hash }).follows(
            Reply::Stored(Ok(())),
            superseding,
        ),
        superseding.follows(Reply::Stored(superseded), announcing),
        announcing.follows(Reply::Done, end),
    ensures
        superseding.asks() == Some(
            Effect::SupersedeOlderPolicies { sandbox_id: &sandbox_id, version },
        ),
        announcing.asks() == Some(Effect::Notify(&sandbox_id)),
        end.asks() is None,
        end.outcome() is Ok,
{
}

/// Two policies that differ in one section alone have different bytes to be digested, so the
/// digest is made of every section and of the version.
pub proof fn every_section_is_digested(a: PolicyView, b: PolicyView)
    requires
        ({
            ||| a.version != b.version && b == (PolicyView { version: b.version, ..a })
            ||| section_bytes(a.filesystem) != section_bytes(b.filesystem) && b == (PolicyView {
                filesystem: b.filesystem,
                ..a
            })
            ||| section_bytes(a.landlock) != section_bytes(b.landlock) && b == (PolicyView {
                landlock: b.landlock,
                ..a
            })
            ||| section_bytes(a.process) != section_bytes(b.process) && b == (PolicyView {
                process: b.process,
                ..a
            })
            ||| section_bytes(a.inference) != section_bytes(b.inference) && b == (PolicyView {
                inference: b.inference,
                ..a
            })
        }),
    ensures
        policy_bytes(a) != policy_bytes(b),
{
    let va = native_bytes(a.version as nat, 4, true);
    let vb = native_bytes(b.version as nat, 4, true);
    let rules = rule_bytes(sorted_keys(a.network_policies.dom()), a.network_policies);
    let fa = section_bytes(a.filesystem);
    let fb = section_bytes(b.filesystem);
    let la = section_bytes(a.landlock);
    let lb = section_bytes(b.landlock);
    let pa = section_bytes(a.process);
    let pb = section_bytes(b.process);
    let ia = section_bytes(a.inference);
    let ib = section_bytes(b.inference);
    assert(policy_bytes(a) == va + fa + la + pa + rules + ia);
    assert(policy_bytes(b) == vb + fb + lb + pb + rules + ib);
    lemma_regroup(va, fa, la, pa, rules, ia);
    lemma_regroup(vb, fb, lb, pb, rules, ib);
    if policy_bytes(a) == policy_bytes(b) {
        if a.version != b.version {
            lemma_versions_have_own_bytes(a.version, b.version);
            lemma_same_within(Seq::empty(), va, vb, fa + la + pa + rules + ia);
        } else if fa != fb {
            lemma_same_within(va, fa, fb, la + pa + rules + ia);
        } else if la != lb {
            lemma_same_within(va + fa, la, lb, pa + rules + ia);
        } else if pa != pb {
            lemma_same_within(va + fa + la, pa, pb, rules + ia);
        } else {
            lemma_same_within(va + fa + la + pa + rules, ia, ib, Seq::empty());
        }
    }
}

proof fn lemma_versions_have_own_bytes(a: u32, b: u32)
    requires
        a != b,
    ensures
        native_bytes(a as nat, 4, true) != native_bytes(b as nat, 4, true),
{
    reveal_with_fuel(pow256, 5);
    assert(pow256(4) == 0x1_0000_0000);
    lemma_native_bytes(a as nat, 4, true);
    lemma_native_bytes(b as nat, 4, true);
}

proof fn lemma_regroup(
    a: Seq<u8>,
    b: Seq<u8>,
    c: Seq<u8>,
    d: Seq<u8>,
    e: Seq<u8>,
    f: Seq<u8>,
)
    ensures
        a + b + c + d + e + f == Seq::<u8>::empty() + a + (b + c + d + e + f),
        a + b + c + d + e + f == a + b + (c + d + e + f),
        a + b + c + d + e + f == (a + b) + c + (d + e + f),
        a + b + c + d + e + f == (a + b + c) + d + (e + f),
        a + b + c + d + e + f == (a + b + c + d + e) + f + Seq::<u8>::empty(),
{
    let whole = a + b + c + d + e + f;
    assert(whole =~= Seq::<u8>::empty() + a + (b + c + d + e + f));
    assert(whole =~= a + b + (c + d + e + f));
    assert(whole =~= (a + b) + c + (d + e + f));
    assert(whole =~= (a + b + c) + d + (e + f));
    assert(whole =~= (a + b + c + d + e) + f + Seq::<u8>::empty());
}

/// What stands between the same two parts is the same where the whole is.
proof fn lemma_same_within(head: Seq<u8>, one: Seq<u8>, other: Seq<u8>, tail: Seq<u8>)
    ensures
        head + one + tail == head + other + tail ==> one == other,
{
    if head + one + tail == head + other + tail {
        let whole = head + one + tail;
        assert(whole.len() == head.len() + one.len() + tail.len());
        assert((head + other + tail).len() == head.len() + other.len() + tail.len());
        assert forall|i: int| 0 <= i < one.len() implies one[i] == other[i] by {
            assert(whole[head.len() + i] == one[i]);
            assert((head + other + tail)[head.len() + i] == other[i]);
        }
        assert(one =~= other);
    }
}

/// Every rule is digested too: a change of one rule changes the bytes that the digest is made
/// of.
pub proof fn every_rule_is_digested(policy: PolicyView, name: Seq<char>, rule: Seq<u8>)
    requires
        policy.network_policies.dom().finite(),
        policy.network_policies.contains_key(name),
        policy.network_policies[name] != rule,
    ensures
        policy_bytes(policy) != policy_bytes(
            PolicyView { network_policies: policy.network_policies.insert(name, rule), ..policy },
        ),
{
    let rules = policy.network_policies;
    let changed = rules.insert(name, rule);
    assert(changed.dom() =~= rules.dom());
    let keys = sorted_keys(rules.dom());
    lemma_sorted_keys_exist(rules.dom());
    assert(keys.to_set().contains(name));
    let at = choose|at: int| 0 <= at < keys.len() && keys[at] == name;
    lemma_text_lt_order();
    assert forall|i: int, j: int| 0 <= i < j < keys.len() implies keys[i] != keys[j] by {
        assert(text_lt(keys[i], keys[j]));
        assert(!text_lt(keys[i], keys[i]));
    }
    assert(keys.no_duplicates());
    lemma_rule_among_rules(keys, rules, name, rule);
    let v = native_bytes(policy.version as nat, 4, true);
    let f = section_bytes(policy.filesystem);
    let l = section_bytes(policy.landlock);
    let p = section_bytes(policy.process);
    let i = section_bytes(policy.inference);
    let one = rule_bytes(keys, rules);
    let other = rule_bytes(keys, changed);
    let b = PolicyView { network_policies: changed, ..policy };
    assert(policy_bytes(policy) == v + f + l + p + one + i);
    assert(policy_bytes(b) == v + f + l + p + other + i);
    lemma_same_within(v + f + l + p, one, other, i);
}

proof fn lemma_rule_among_rules(
    keys: Seq<Seq<char>>,
    rules: Map<Seq<char>, Seq<u8>>,
    name: Seq<char>,
    rule: Seq<u8>,
)
    requires
        keys.no_duplicates(),
        rules.contains_key(name),
        rules[name] != rule,
    ensures
        keys.contains(name) ==> rule_bytes(keys, rules) != rule_bytes(
            keys,
            rules.insert(name, rule),
        ),
        !keys.contains(name) ==> rule_bytes(keys, rules) == rule_bytes(
            keys,
            rules.insert(name, rule),
        ),
    decreases keys.len(),
{
    if keys.len() > 0 {
        let changed = rules.insert(name, rule);
        let rest = keys.drop_last();
        let last = keys.last();
        lemma_rule_among_rules(rest, rules, name, rule);
        let before = rule_bytes(rest, rules);
        let after = rule_bytes(rest, changed);
        let key = encode_utf8(last);
        if last == name {
            assert(!rest.contains(name)) by {
                if rest.contains(name) {
                    let i = choose|i: int| 0 <= i < rest.len() && rest[i] == name;
                    assert(keys[i] == keys[keys.len() - 1]);
                }
            }
            assert(keys[keys.len() - 1] == name);
            assert(before + key + rules[name] =~= (before + key) + rules[name] + Seq::<u8>::empty());
            assert(before + key + rule =~= (before + key) + rule + Seq::<u8>::empty());
            lemma_same_within(before + key, rules[name], rule, Seq::empty());
        } else {
            assert(keys.contains(name) == rest.contains(name)) by {
                if keys.contains(name) {
                    let i = choose|i: int| 0 <= i < keys.len() && keys[i] == name;
                    assert(rest[i] == name);
                }
                if rest.contains(name) {
                    let i = choose|i: int| 0 <= i < rest.len() && rest[i] == name;
                    assert(keys[i] == name);
                }
            }
            let none = Seq::<u8>::empty();
            assert(before + key + rules[last] =~= none + before + (key + rules[last]));
            assert(after + key + rules[last] =~= none + after + (key + rules[last]));
            lemma_same_within(none, before, after, key + rules[last]);
        }
    }
}

/// After a report that a revision is loaded, the sandbox is stored with that revision as the one
/// it applies and with all else as it was, and its watchers are told.
pub proof fn watchers_are_told_of_reports(
    sandbox_id: String,
    version: u32,
    superseded: Result<(), String>,
    fetching: ReportPolicyStatus,
    sandbox: Sandbox,
    storing: ReportPolicyStatus,
    stored: Result<(), String>,
    announcing: ReportPolicyStatus,
    end: ReportPolicyStatus,
)
    requires
        (ReportPolicyStatus::Supersede { sandbox_id, version }).follows(
            Reply::Stored(superseded),
            fetching,
        ),
        fetching.follows(Reply::Sandbox(Ok(Some(sandbox))), storing),
        storing.follows(Reply::Stored(stored), announcing),
        announcing.follows(Reply::Done, end),
    ensures
        (ReportPolicyStatus::Supersede { sandbox_id, version }).asks() == Some(
            Effect::SupersedeOlderPolicies { sandbox_id: &sandbox_id, version: version as i64 },
        ),
        fetching.asks() == Some(Effect::SandboxById(&sandbox_id)),
        storing.asks() == Some(
            Effect::PutSandbox(&Sandbox { current_policy_version: version, ..sandbox }),
        ),
        announcing.asks() == Some(Effect::Notify(&sandbox_id)),
        end.asks() is None,
        end.outcome() is Ok,
{
}

/// A sandbox is served its first policy even where that cannot be stored.
pub proof fn first_policy_is_served_in_any_case(
    sandbox_id: String,
    policy_id: String,
    policy: SandboxPolicy,
    hash: String,
    stored: Result<(), String>,
    next: GetSandboxPolicy,
    marked: Result<bool, String>,
    end: GetSandboxPolicy,
)
    requires
        (GetSandboxPolicy::Backfill { sandbox_id, policy_id, policy, hash }).follows(
            Reply::Stored(stored),
            next,
        ),
        stored is Ok ==> next.follows(Reply::Changed(marked), end),
        stored is Err ==> end == next,
    ensures
        end.asks() is None,
        end.outcome() matches Ok(served) && served.policy == Some(policy) && served.version == 1
            && served.policy_hash == hash,
{
}

/// What is shown of a revision is its record, with its policy only where that was asked for and
/// can be decoded, and with zero or nothing for what it does not have.
pub proof fn shown_revision_is_its_record(
    revision: SandboxPolicyRevision,
    record: PolicyRecord,
    include_policy: bool,
)
    requires
        shows(revision, record, include_policy),
    ensures
        0 <= record.version <= u32::MAX ==> revision.version == record.version,
        revision.policy_hash@ == record.policy_hash@,
        revision.created_at_ms == record.created_at_ms,
        record.loaded_at_ms matches Some(ms) ==> revision.loaded_at_ms == ms,
        record.loaded_at_ms is None ==> revision.loaded_at_ms == 0,
        record.load_error matches Some(error) ==> revision.load_error@ == error@,
        record.load_error is None ==> revision.load_error@.len() == 0,
        revision.policy is Some <==> include_policy && record.policy is Ok,
        revision.policy matches Some(policy) ==> record.policy == Ok::<SandboxPolicy, String>(
            policy,
        ),
{
}

/// The texts that statuses are stored as are told apart, and a text that is none of them stands
/// for no status in particular.
pub proof fn statuses_are_told_apart(text: Seq<char>)
    ensures
        status_of("pending"@) == PolicyStatus::Pending,
        status_of("loaded"@) == PolicyStatus::Loaded,
        status_of("failed"@) == PolicyStatus::Failed,
        status_of("superseded"@) == PolicyStatus::Superseded,
        text != "pending"@ && text != "loaded"@ && text != "failed"@ && text != "superseded"@
            ==> status_of(text) == PolicyStatus::Unspecified,
{
    reveal_strlit("pending");
    reveal_strlit("loaded");
    reveal_strlit("failed");
    reveal_strlit("superseded");
    assert("pending"@[0] == 'p' && "loaded"@[0] == 'l' && "failed"@[0] == 'f' && "superseded"@[0]
        == 's');
}

/// A change that is refused is refused for the first section that must not change, in the order
/// filesystem, landlock, process, network.
pub proof fn refusal_names_the_section(
    sandbox: Sandbox,
    baseline: SandboxPolicy,
    policy: SandboxPolicy,
    text: Seq<char>,
)
    requires
        sandbox.spec matches Some(spec) && spec.policy == Some(baseline),
        update_refusal(sandbox, policy) == Some((Code::InvalidArgument, text)),
    ensures
        ({
            let new = policy.deep_view();
            let from = baseline.deep_view();
            if new.filesystem != from.filesystem {
                text
                    == "filesystem policy cannot be changed on a live sandbox (applied at startup)"@
            } else if new.landlock != from.landlock {
                text == "landlock policy cannot be changed on a live sandbox (applied at startup)"@
            } else if new.process != from.process {
                text == "process policy cannot be changed on a live sandbox (applied at startup)"@
            } else {
                is_proxied(new) != is_proxied(from)
            }
        }),
{
}

} // verus!
