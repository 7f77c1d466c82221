//! What holds of shell access across requests.
use crate::gateway::model::{SandboxPhase, SessionView};
use crate::gateway::session::{CreateSshSession, Gateway, RevokeSshSession};
use crate::gateway::world::{ends, World};
use crate::ident::is_uuid;
use crate::status::Code;
use vstd::prelude::*;

verus! {

/// Shell access is granted only to a sandbox that is ready. The grant is stored under its
/// token, which is fresh, and is not revoked.
pub proof fn access_is_granted_to_ready_sandboxes(
    world: World,
    sandbox_id: String,
    gateway: Gateway,
    flow: CreateSshSession,
    last: CreateSshSession,
    after: World,
    steps: nat,
)
    requires
        CreateSshSession::begins(sandbox_id, gateway, flow),
        ends(flow, world, last, after, steps),
    ensures
        match last {
            CreateSshSession::Done(Ok(response)) => {
                &&& world.sandboxes.contains_key(sandbox_id@)
                &&& world.sandboxes[sandbox_id@].phase == SandboxPhase::Ready
                &&& is_uuid(response.token@)
                &&& response.sandbox_id@ == sandbox_id@
                &&& after.sessions.contains_key(response.token@)
                &&& after.sessions[response.token@] == (SessionView {
                    id: response.token@,
                    sandbox_id: sandbox_id@,
                    token: response.token@,
                    revoked: false,
                    ..after.sessions[response.token@]
                })
                &&& after == (World {
                    sessions: world.sessions.insert(
                        response.token@,
                        after.sessions[response.token@],
                    ),
                    ..world
                })
            },
            CreateSshSession::Done(Err(_)) => after == world,
            _ => false,
        },
{
    reveal_with_fuel(ends, 4);
}

/// A sandbox that is not ready is refused shell access.
pub proof fn sandboxes_that_are_not_ready_are_refused(
    world: World,
    sandbox_id: String,
    gateway: Gateway,
    flow: CreateSshSession,
    last: CreateSshSession,
    after: World,
    steps: nat,
)
    requires
        sandbox_id@.len() > 0,
        world.sandboxes.contains_key(sandbox_id@),
        world.sandboxes[sandbox_id@].phase != SandboxPhase::Ready,
        CreateSshSession::begins(sandbox_id, gateway, flow),
        ends(flow, world, last, after, steps),
    ensures
        last.failed(Code::FailedPrecondition, "sandbox is not ready"@),
        after == world,
{
    reveal_with_fuel(ends, 4);
}

/// Revoking tells whether there was such a grant. A grant that was revoked is kept, marked
/// as revoked, with all else about it unchanged.
pub proof fn revoked_access_stays_revoked(
    world: World,
    token: String,
    flow: RevokeSshSession,
    last: RevokeSshSession,
    after: World,
    steps: nat,
)
    requires
        token@.len() > 0,
        world.sessions.contains_key(token@) ==> world.sessions[token@].id == token@,
        RevokeSshSession::begins(token, flow),
        ends(flow, world, last, after, steps),
    ensures
        last == RevokeSshSession::Done(Ok(world.sessions.contains_key(token@))),
        after == (if world.sessions.contains_key(token@) {
            World {
                sessions: world.sessions.insert(
                    token@,
                    SessionView { revoked: true, ..world.sessions[token@] },
                ),
                ..world
            }
        } else {
            world
        }),
{
    reveal_with_fuel(ends, 3);
}

/// A client that is granted access is told where to go: to the gateway's host and port, over
/// https, at its path.
pub proof fn granted_access_says_where_to_go(
    world: World,
    sandbox_id: String,
    gateway: Gateway,
    flow: CreateSshSession,
    last: CreateSshSession,
    after: World,
    steps: nat,
)
    requires
        CreateSshSession::begins(sandbox_id, gateway, flow),
        ends(flow, world, last, after, steps),
    ensures
        last matches CreateSshSession::Done(Ok(response)) ==> {
            &&& response.gateway_host@ == gateway.host@
            &&& response.gateway_port == gateway.port
            &&& response.gateway_scheme@ == "https"@
            &&& response.connect_path@ == gateway.connect_path@
            &&& response.host_key_fingerprint@.len() == 0
        },
{
    reveal_with_fuel(ends, 4);
}

/// A sandbox that is ready is granted access, unless the time cannot be told. One that is not
/// there is not found.
pub proof fn ready_sandboxes_are_granted_access(
    world: World,
    sandbox_id: String,
    gateway: Gateway,
    flow: CreateSshSession,
    last: CreateSshSession,
    after: World,
    steps: nat,
)
    requires
        sandbox_id@.len() > 0,
        world.sandboxes.contains_key(sandbox_id@) ==> world.sandboxes[sandbox_id@].phase
            == SandboxPhase::Ready,
        CreateSshSession::begins(sandbox_id, gateway, flow),
        ends(flow, world, last, after, steps),
    ensures
        world.sandboxes.contains_key(sandbox_id@) ==> match last {
            CreateSshSession::Done(Ok(_)) => true,
            CreateSshSession::Done(Err(status)) => status.code == Code::Internal
                && exists|reason: Seq<char>|
                status.message@ == #[trigger] ("timestamp generation failed: "@ + reason),
            _ => false,
        },
        !world.sandboxes.contains_key(sandbox_id@) ==> (last matches CreateSshSession::Done(
            Err(status),
        ) && status.code == Code::NotFound),
{
    reveal_with_fuel(ends, 4);
}

} // verus!
