//! What holds of a watch from its beginning to its end.
use crate::gateway::log_laws::{filters_let_wanted_lines_through, is_followed, is_wanted};
use crate::gateway::logs::LogFilter;
use crate::gateway::model::{Payload, Sandbox, SandboxPhase, SandboxStreamEvent};
use crate::gateway::watch::{
    replayed, replays, Watch, WatchEffect, WatchReply, WatchSandboxRequest,
};
use crate::status::{Code, Status};
use vstd::prelude::*;

verus! {

/// The event that shows a sandbox.
pub open spec fn showing(sandbox: Sandbox) -> SandboxStreamEvent {
    SandboxStreamEvent { payload: Some(Payload::Sandbox(sandbox)) }
}

/// `event` shows a sandbox that is ready.
pub open spec fn shows_ready(event: SandboxStreamEvent) -> bool {
    event.payload matches Some(Payload::Sandbox(sandbox)) && sandbox.phase == SandboxPhase::Ready
}

/// The watch knows of a sandbox that it is about to show whether it is the last event.
pub open spec fn knows_last(watch: Watch) -> bool {
    match watch {
        Watch::SendSnapshot { request, event, last } => last == (request.stop_on_terminal
            && shows_ready(event)),
        Watch::SendUpdate { request, event, last } => last == (request.stop_on_terminal
            && shows_ready(event)),
        _ => true,
    }
}

/// A watch ends only where there is a reason for it: an error was sent, the watcher is gone,
/// the sandbox is, or the watch is to stop once the sandbox is ready and has shown it so.
pub proof fn watch_ends_with_a_reason(watch: Watch, reply: WatchReply, next: Watch)
    requires
        knows_last(watch),
        watch.follows(reply, next),
    ensures
        knows_last(next),
        next.asks() is None ==> {
            ||| watch.asks() matches Some(WatchEffect::SendError(_))
            ||| reply == WatchReply::Sent(false)
            ||| reply == WatchReply::Sandbox(Ok(None))
            ||| (watch.asks() matches Some(WatchEffect::Send(event)) && shows_ready(*event)
                && (watch.request_of() matches Some(request) && request.stop_on_terminal))
        },
        watch.asks() matches Some(WatchEffect::Send(event)) && reply == WatchReply::Sent(true)
            && !(shows_ready(*event) && (watch.request_of() matches Some(request)
            && request.stop_on_terminal)) ==> next.request_of() is Some && next.request_of()
            == watch.request_of(),
{
}

/// A change of the sandbox is fetched, entered in the index and sent. The watch then waits for
/// more, unless the watcher is gone, or the watch is to stop once the sandbox is ready and it
/// is.
pub proof fn every_change_is_shown(
    request: WatchSandboxRequest,
    sandbox: Sandbox,
    fetching: Watch,
    indexing: Watch,
    sending: Watch,
    sent: bool,
    then: Watch,
)
    requires
        (Watch::Wait { request }).follows(WatchReply::Status(Ok(())), fetching),
        fetching.follows(WatchReply::Sandbox(Ok(Some(sandbox))), indexing),
        indexing.follows(WatchReply::Done, sending),
        sending.follows(WatchReply::Sent(sent), then),
    ensures
        fetching.asks() == Some(WatchEffect::Fetch(&request.id)),
        indexing.asks() == Some(WatchEffect::Index(&sandbox)),
        sending.asks() == Some(WatchEffect::Send(&showing(sandbox))),
        then == (if !sent || (request.stop_on_terminal && sandbox.phase == SandboxPhase::Ready) {
            Watch::Done
        } else {
            Watch::Wait { request }
        }),
{
}

/// A sandbox that is gone when it is to be shown again ends the watch without an error.
pub proof fn watch_ends_with_the_sandbox(
    request: WatchSandboxRequest,
    fetching: Watch,
    then: Watch,
)
    requires
        (Watch::Wait { request }).follows(WatchReply::Status(Ok(())), fetching),
        fetching.follows(WatchReply::Sandbox(Ok(None)), then),
    ensures
        then.asks() is None,
{
}

/// An event that comes in while the watch waits is sent on as it is, where it is no log line or
/// one that the watcher follows, and so is every event of the platform. The watch then waits
/// for more as long as the watcher is there. A line that is not followed is passed over.
pub proof fn live_events_are_sent_on(
    request: WatchSandboxRequest,
    reply: WatchReply,
    event: SandboxStreamEvent,
    next: Watch,
    sent: bool,
    then: Watch,
)
    requires
        reply == WatchReply::Log(Ok(event)) || reply == WatchReply::Platform(Ok(event)),
        (Watch::Wait { request }).follows(reply, next),
        next.follows(WatchReply::Sent(sent), then) || next == (Watch::Wait { request }),
    ensures
        reply is Platform || !(event.payload matches Some(Payload::Log(_))) || (event.payload matches Some(
            Payload::Log(log),
        ) && is_followed(log, request.filter)) ==> {
            &&& next.asks() == Some(WatchEffect::Send(&event))
            &&& then == (if sent {
                Watch::Wait { request }
            } else {
                Watch::Done
            })
        },
        reply is Log && (event.payload matches Some(Payload::Log(log)) && !is_followed(
            log,
            request.filter,
        )) ==> next == (Watch::Wait { request }),
{
    if let Some(Payload::Log(log)) = event.payload {
        filters_let_wanted_lines_through(log, request.filter);
    }
}

/// What can no longer be followed ends the watch with the error that says why.
pub proof fn lost_subscription_is_told(
    request: WatchSandboxRequest,
    reply: WatchReply,
    status: Status,
    telling: Watch,
    sent: bool,
    end: Watch,
)
    requires
        reply == WatchReply::Status(Err(status)) || reply == WatchReply::Log(Err(status)) || reply
            == WatchReply::Platform(Err(status)),
        (Watch::Wait { request }).follows(reply, telling),
        telling.follows(WatchReply::Sent(sent), end),
    ensures
        telling.asks() == Some(WatchEffect::SendError(&status)),
        end.asks() is None,
{
}

/// A watch subscribes to what the watcher asked to follow before it looks at the sandbox, and
/// begins with the sandbox as it is. Where it does not end with that, it goes on with the last
/// log events, as many as were asked for or two hundred, if logs are followed, and waits
/// otherwise.
pub proof fn watch_begins_with_a_snapshot(
    request: WatchSandboxRequest,
    start: Watch,
    fetching: Watch,
    sandbox: Sandbox,
    indexing: Watch,
    sending: Watch,
    sent: bool,
    then: Watch,
)
    requires
        Watch::begins(request, Ok(start)),
        start.follows(WatchReply::Done, fetching),
        fetching.follows(WatchReply::Sandbox(Ok(Some(sandbox))), indexing),
        indexing.follows(WatchReply::Done, sending),
        sending.follows(WatchReply::Sent(sent), then),
    ensures
        request.id@.len() > 0,
        start.asks() == Some(
            WatchEffect::Subscribe {
                id: &request.id,
                status: request.follow_status,
                logs: request.follow_logs,
                events: request.follow_events,
            },
        ),
        fetching.asks() == Some(WatchEffect::Fetch(&request.id)),
        indexing.asks() == Some(WatchEffect::Index(&sandbox)),
        sending.asks() == Some(WatchEffect::Send(&showing(sandbox))),
        if request.stop_on_terminal && sandbox.phase == SandboxPhase::Ready {
            then.asks() is None
        } else if request.follow_logs {
            then.asks() == Some(
                WatchEffect::Tail {
                    id: &request.id,
                    lines: if request.log_tail_lines == 0 {
                        200
                    } else {
                        request.log_tail_lines
                    },
                },
            )
        } else {
            then.asks() == Some(WatchEffect::Wait)
        },
        then.request_of() matches Some(kept) ==> {
            &&& kept.id == request.id
            &&& kept.stop_on_terminal == request.stop_on_terminal
            &&& kept.filter == request.filter
        },
{
}

/// A watch on a sandbox that is not there, or that cannot be fetched, ends with an error, and a
/// watch on no sandbox in particular is not begun; every other one is.
pub proof fn unknown_sandboxes_are_not_watched(
    request: WatchSandboxRequest,
    begun: Result<Watch, Status>,
    fetching: Watch,
    found: Result<Option<Sandbox>, String>,
    telling: Watch,
)
    requires
        Watch::begins(request, begun),
        begun matches Ok(start) ==> start.follows(WatchReply::Done, fetching) && fetching.follows(
            WatchReply::Sandbox(found),
            telling,
        ),
        !(found matches Ok(Some(_))),
    ensures
        begun is Ok <==> request.id@.len() > 0,
        begun matches Err(status) ==> status.code == Code::InvalidArgument,
        begun is Ok ==> (telling.asks() matches Some(WatchEffect::SendError(status)) && status.code
            == (if found is Ok {
            Code::NotFound
        } else {
            Code::Internal
        })),
{
}

/// An event from before the watch is wanted by the watcher.
pub open spec fn is_replayed(event: SandboxStreamEvent, filter: LogFilter) -> bool {
    event.payload matches Some(Payload::Log(log)) ==> is_wanted(log, filter)
}

/// `replies` take a watch through `states`, one by one.
pub open spec fn is_watch(states: Seq<Watch>, replies: Seq<WatchReply>) -> bool {
    &&& states.len() == replies.len() + 1
    &&& forall|i: int|
        0 <= i < replies.len() ==> states[i].follows(#[trigger] replies[i], states[i + 1])
}

proof fn lemma_replay_stands(
    request: WatchSandboxRequest,
    events: Vec<SandboxStreamEvent>,
    states: Seq<Watch>,
    replies: Seq<WatchReply>,
    k: int,
)
    requires
        is_watch(states, replies),
        states[0] == (Watch::Tail { request }),
        replies.len() > 0,
        replies[0] == WatchReply::Events(events),
        forall|i: int| 0 < i < replies.len() ==> #[trigger] replies[i] == WatchReply::Sent(true),
        0 <= k < replies.len(),
        k <= replayed(events@, request.filter).len(),
    ensures
        Watch::replays_on(request, replayed(events@, request.filter).skip(k), states[k + 1]),
    decreases k,
{
    let kept = replayed(events@, request.filter);
    assert(states[k].follows(replies[k], states[k + 1]));
    if k == 0 {
        assert(kept.skip(0) =~= kept);
    } else {
        lemma_replay_stands(request, events, states, replies, k - 1);
        assert(kept.skip(k - 1).skip(1) =~= kept.skip(k));
    }
}

/// As long as the watcher is there, they are sent, in order, exactly those of the last log
/// events that they want, and then the watch waits.
pub proof fn wanted_events_are_replayed(
    request: WatchSandboxRequest,
    events: Vec<SandboxStreamEvent>,
    states: Seq<Watch>,
    replies: Seq<WatchReply>,
)
    requires
        is_watch(states, replies),
        states[0] == (Watch::Tail { request }),
        replies.len() == 1 + events@.filter(
            |event: SandboxStreamEvent| is_replayed(event, request.filter),
        ).len(),
        replies[0] == WatchReply::Events(events),
        forall|i: int| 0 < i < replies.len() ==> #[trigger] replies[i] == WatchReply::Sent(true),
    ensures
        ({
            let wanted = events@.filter(
                |event: SandboxStreamEvent| is_replayed(event, request.filter),
            );
            &&& forall|i: int|
                0 <= i < wanted.len() ==> states[i + 1].asks() == Some(
                    WatchEffect::Send(&#[trigger] wanted[i]),
                )
            &&& states.last() == (Watch::Wait { request })
        }),
{
    let filter = request.filter;
    let wanted = events@.filter(|event: SandboxStreamEvent| is_replayed(event, filter));
    let one = |event: SandboxStreamEvent| is_replayed(event, filter);
    let other = |event: SandboxStreamEvent| replays(event, filter);
    assert forall|event: SandboxStreamEvent| #[trigger] one(event) == other(event) by {
        if let Some(Payload::Log(log)) = event.payload {
            filters_let_wanted_lines_through(log, filter);
        }
    }
    assert(one =~= other);
    let kept = replayed(events@, filter);
    assert(kept == wanted);
    assert forall|i: int| 0 <= i < wanted.len() implies states[i + 1].asks() == Some(
        WatchEffect::Send(&#[trigger] wanted[i]),
    ) by {
        lemma_replay_stands(request, events, states, replies, i);
        assert(kept.skip(i)[0] == wanted[i]);
    }
    lemma_replay_stands(request, events, states, replies, wanted.len() as int);
}

/// A watch ends once the watcher is gone, at whatever event after the first one that shows.
pub proof fn watch_ends_with_its_watcher(watch: Watch, next: Watch)
    requires
        watch.follows(WatchReply::Sent(false), next),
        !(watch is SendSnapshot),
    ensures
        next.asks() is None,
{
}

/// A sandbox that cannot be fetched when it is to be shown again ends the watch with an error.
pub proof fn lost_sandbox_is_told(
    request: WatchSandboxRequest,
    fetching: Watch,
    reason: String,
    telling: Watch,
)
    requires
        (Watch::Wait { request }).follows(WatchReply::Status(Ok(())), fetching),
        fetching.follows(WatchReply::Sandbox(Err(reason)), telling),
    ensures
        telling.asks() matches Some(WatchEffect::SendError(status)) && status.code == Code::Internal
            && status.message@ == "fetch sandbox failed: "@ + reason@,
{
}

/// A watch takes what can come of the work it asks for.
pub proof fn watches_take_what_comes(
    watch: Watch,
    found: Result<Option<Sandbox>, String>,
    sent: bool,
    events: Vec<SandboxStreamEvent>,
    change: Result<(), Status>,
    event: Result<SandboxStreamEvent, Status>,
)
    ensures
        watch.asks() matches Some(effect) ==> match effect {
            WatchEffect::Subscribe { .. } => watch.takes(WatchReply::Done),
            WatchEffect::Fetch(_) => watch.takes(WatchReply::Sandbox(found)),
            WatchEffect::Index(_) => watch.takes(WatchReply::Done),
            WatchEffect::Send(_) => watch.takes(WatchReply::Sent(sent)),
            WatchEffect::SendError(_) => watch.takes(WatchReply::Sent(sent)),
            WatchEffect::Tail { .. } => watch.takes(WatchReply::Events(events)),
            WatchEffect::Wait => watch.takes(WatchReply::Status(change)) && watch.takes(
                WatchReply::Log(event),
            ) && watch.takes(WatchReply::Platform(event)),
        },
{
}

} // verus!
