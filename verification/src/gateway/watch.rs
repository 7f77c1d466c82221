//! Watching a sandbox: a stream of its state, its logs and its platform's events.
use crate::gateway::logs::LogFilter;
use crate::gateway::model::{Payload, Sandbox, SandboxPhase, SandboxStreamEvent};
use crate::gateway::sandbox::{or_default, with_default};
use crate::status::{fails, Code, Status};
use vstd::pervasive::unreached;
use vstd::prelude::*;

verus! {

/// The request to watch a sandbox.
#[derive(Debug)]
pub struct WatchSandboxRequest {
    pub id: String,
    pub follow_status: bool,
    pub follow_logs: bool,
    pub follow_events: bool,
    /// How many of the last log events to begin with; zero for two hundred.
    pub log_tail_lines: u32,
    /// Whether the stream ends once the sandbox is ready.
    pub stop_on_terminal: bool,
    pub filter: LogFilter,
}

/// Work that a watch asks for.
#[derive(Debug)]
pub enum WatchEffect<'a> {
    /// Subscribe to the changes of a sandbox that are to be followed.
    Subscribe { id: &'a String, status: bool, logs: bool, events: bool },
    /// Fetch the sandbox with this id from the store.
    Fetch(&'a String),
    /// Enter a sandbox in the index.
    Index(&'a Sandbox),
    /// Send an event to the watcher.
    Send(&'a SandboxStreamEvent),
    /// Send an error to the watcher.
    SendError(&'a Status),
    /// Read the last log events of a sandbox.
    Tail { id: &'a String, lines: u32 },
    /// Wait for the next change from any subscription.
    Wait,
}

/// What came of the work that a watch asked for.
#[derive(Debug)]
pub enum WatchReply {
    Done,
    Sandbox(Result<Option<Sandbox>, String>),
    /// Whether the watcher is still there.
    Sent(bool),
    Events(Vec<SandboxStreamEvent>),
    /// The sandbox has changed, or why its changes can no longer be followed.
    Status(Result<(), Status>),
    /// A log event, or why there can be no more.
    Log(Result<SandboxStreamEvent, Status>),
    /// An event of the platform, or why there can be no more.
    Platform(Result<SandboxStreamEvent, Status>),
}

/// A watch on a sandbox.
pub enum Watch {
    /// Subscribing comes first, so that no change after the snapshot is missed.
    Subscribe { request: WatchSandboxRequest },
    /// The watcher begins with the sandbox as it is.
    FetchSnapshot { request: WatchSandboxRequest },
    IndexSnapshot { request: WatchSandboxRequest, sandbox: Sandbox },
    SendSnapshot { request: WatchSandboxRequest, event: SandboxStreamEvent, last: bool },
    /// The last log events follow.
    Tail { request: WatchSandboxRequest },
    Replay {
        request: WatchSandboxRequest,
        event: SandboxStreamEvent,
        rest: Vec<SandboxStreamEvent>,
    },
    /// From here on the watcher gets what changes.
    Wait { request: WatchSandboxRequest },
    FetchUpdate { request: WatchSandboxRequest },
    IndexUpdate { request: WatchSandboxRequest, sandbox: Sandbox },
    SendUpdate { request: WatchSandboxRequest, event: SandboxStreamEvent, last: bool },
    SendLive { request: WatchSandboxRequest, event: SandboxStreamEvent },
    /// The stream ends with an error.
    SendError { status: Status },
    Done,
}

/// An event passes the filter for the log events that a watcher begins with.
pub open spec fn replays(event: SandboxStreamEvent, filter: LogFilter) -> bool {
    event.payload matches Some(Payload::Log(log)) ==> filter.passes(log)
}

/// An event passes the filter for the log events that come in later.
pub open spec fn relays(event: SandboxStreamEvent, filter: LogFilter) -> bool {
    event.payload matches Some(Payload::Log(log)) ==> filter.keeps(log)
}

/// The events that a watcher begins with.
pub open spec fn replayed(events: Seq<SandboxStreamEvent>, filter: LogFilter) -> Seq<
    SandboxStreamEvent,
> {
    events.filter(|event: SandboxStreamEvent| replays(event, filter))
}

fn replay(event: &SandboxStreamEvent, filter: &LogFilter) -> (r: bool)
    ensures
        r == replays(*event, *filter),
{
    match &event.payload {
        Some(Payload::Log(log)) => filter.pass(log),
        _ => true,
    }
}

fn relay(event: &SandboxStreamEvent, filter: &LogFilter) -> (r: bool)
    ensures
        r == relays(*event, *filter),
{
    match &event.payload {
        Some(Payload::Log(log)) => filter.keep(log),
        _ => true,
    }
}

fn replay_all(events: Vec<SandboxStreamEvent>, filter: &LogFilter) -> (r: Vec<SandboxStreamEvent>)
    ensures
        r@ == replayed(events@, *filter),
{
    let mut kept: Vec<SandboxStreamEvent> = Vec::new();
    let ghost pred = |event: SandboxStreamEvent| replays(event, *filter);
    assert(events@.take(0).filter(pred) =~= Seq::<SandboxStreamEvent>::empty()) by {
        reveal(Seq::filter);
    }
    for event in it: events
        invariant
            it.seq() == events@,
            pred == (|event: SandboxStreamEvent| replays(event, *filter)),
            kept@ == events@.take(it.index()).filter(pred),
    {
        let ghost i = it.index();
        proof {
            reveal(Seq::filter);
            assert(events@.take(i + 1).drop_last() =~= events@.take(i));
            assert(events@.take(i + 1).last() == event);
        }
        if replay(&event, filter) {
            kept.push(event);
        }
    }
    assert(events@.take(events@.len() as int) =~= events@);
    kept
}

impl Watch {
    /// The watch that `request` asks for, or why there is none, is `r`.
    pub open spec fn begins(request: WatchSandboxRequest, r: Result<Self, Status>) -> bool {
        if request.id@.len() == 0 {
            fails(r, Code::InvalidArgument, "id is required"@)
        } else {
            r == Ok::<Self, Status>(
                Watch::Subscribe {
                    request: WatchSandboxRequest {
                        log_tail_lines: or_default(request.log_tail_lines, 200),
                        ..request
                    },
                },
            )
        }
    }

    /// Starts the watch that `request` asks for.
    pub fn begin(request: WatchSandboxRequest) -> (r: Result<Self, Status>)
        ensures
            Self::begins(request, r),
    {
        if request.id.as_str().is_empty() {
            return Err(Status::new(Code::InvalidArgument, "id is required"));
        }
        let log_tail_lines = with_default(request.log_tail_lines, 200);
        Ok(Watch::Subscribe { request: WatchSandboxRequest { log_tail_lines, ..request } })
    }

    /// The work that comes next; `None` once the stream has ended.
    pub open spec fn asks(&self) -> Option<WatchEffect<'_>> {
        match self {
            Watch::Subscribe { request } => Some(
                WatchEffect::Subscribe {
                    id: &request.id,
                    status: request.follow_status,
                    logs: request.follow_logs,
                    events: request.follow_events,
                },
            ),
            Watch::FetchSnapshot { request } => Some(WatchEffect::Fetch(&request.id)),
            Watch::IndexSnapshot { sandbox, .. } => Some(WatchEffect::Index(sandbox)),
            Watch::SendSnapshot { event, .. } => Some(WatchEffect::Send(event)),
            Watch::Tail { request } => Some(
                WatchEffect::Tail { id: &request.id, lines: request.log_tail_lines },
            ),
            Watch::Replay { event, .. } => Some(WatchEffect::Send(event)),
            Watch::Wait { .. } => Some(WatchEffect::Wait),
            Watch::FetchUpdate { request } => Some(WatchEffect::Fetch(&request.id)),
            Watch::IndexUpdate { sandbox, .. } => Some(WatchEffect::Index(sandbox)),
            Watch::SendUpdate { event, .. } => Some(WatchEffect::Send(event)),
            Watch::SendLive { event, .. } => Some(WatchEffect::Send(event)),
            Watch::SendError { status } => Some(WatchEffect::SendError(status)),
            Watch::Done => None,
        }
    }

    /// The watch can go on from `reply`.
    pub open spec fn takes(&self, reply: WatchReply) -> bool {
        match self.asks() {
            None => false,
            Some(effect) => match effect {
                WatchEffect::Subscribe { .. } => reply is Done,
                WatchEffect::Fetch(_) => reply is Sandbox,
                WatchEffect::Index(_) => reply is Done,
                WatchEffect::Send(_) => reply is Sent,
                WatchEffect::SendError(_) => reply is Sent,
                WatchEffect::Tail { .. } => reply is Events,
                WatchEffect::Wait => reply is Status || reply is Log || reply is Platform,
            },
        }
    }

    /// Whether the watch can go on from `reply`.
    pub fn can_take(&self, reply: &WatchReply) -> (r: bool)
        ensures
            r == self.takes(*reply),
    {
        match (self, reply) {
            (Watch::Subscribe { .. }, WatchReply::Done) => true,
            (Watch::FetchSnapshot { .. }, WatchReply::Sandbox(_)) => true,
            (Watch::IndexSnapshot { .. }, WatchReply::Done) => true,
            (Watch::SendSnapshot { .. }, WatchReply::Sent(_)) => true,
            (Watch::Tail { .. }, WatchReply::Events(_)) => true,
            (Watch::Replay { .. }, WatchReply::Sent(_)) => true,
            (Watch::Wait { .. }, WatchReply::Status(_)) => true,
            (Watch::Wait { .. }, WatchReply::Log(_)) => true,
            (Watch::Wait { .. }, WatchReply::Platform(_)) => true,
            (Watch::FetchUpdate { .. }, WatchReply::Sandbox(_)) => true,
            (Watch::IndexUpdate { .. }, WatchReply::Done) => true,
            (Watch::SendUpdate { .. }, WatchReply::Sent(_)) => true,
            (Watch::SendLive { .. }, WatchReply::Sent(_)) => true,
            (Watch::SendError { .. }, WatchReply::Sent(_)) => true,
            _ => false,
        }
    }

    /// The stream ends with an error that says `text`.
    pub open spec fn fails_with(self, code: Code, text: Seq<char>) -> bool {
        self matches Watch::SendError { status } && status.says(code, text)
    }

    /// The sandbox is as the watcher waits for it to be, so the stream ends with it.
    pub open spec fn is_last(request: WatchSandboxRequest, sandbox: Sandbox) -> bool {
        request.stop_on_terminal && sandbox.phase == SandboxPhase::Ready
    }

    /// With `events` still to replay, the watch stands at `next`.
    pub open spec fn replays_on(
        request: WatchSandboxRequest,
        events: Seq<SandboxStreamEvent>,
        next: Self,
    ) -> bool {
        if events.len() == 0 {
            next == (Watch::Wait { request })
        } else {
            next matches Watch::Replay { request: kept, event, rest } && kept == request && event
                == events[0] && rest@ == events.skip(1)
        }
    }

    /// From here, `reply` leads to `next`.
    pub open spec fn follows(&self, reply: WatchReply, next: Self) -> bool {
        match (*self, reply) {
            (Watch::Subscribe { request }, WatchReply::Done) => next == (Watch::FetchSnapshot {
                request,
            }),
            (Watch::FetchSnapshot { request }, WatchReply::Sandbox(found)) => match found {
                Ok(Some(sandbox)) => next == (Watch::IndexSnapshot { request, sandbox }),
                Ok(None) => next.fails_with(Code::NotFound, "sandbox not found"@),
                Err(e) => next.fails_with(Code::Internal, "fetch sandbox failed: "@ + e@),
            },
            (Watch::IndexSnapshot { request, sandbox }, WatchReply::Done) => next == (
            Watch::SendSnapshot {
                request,
                event: SandboxStreamEvent { payload: Some(Payload::Sandbox(sandbox)) },
                last: Self::is_last(request, sandbox),
            }),
            (Watch::SendSnapshot { request, last, .. }, WatchReply::Sent(_)) => if last {
                next == Watch::Done
            } else if request.follow_logs {
                next == (Watch::Tail { request })
            } else {
                next == (Watch::Wait { request })
            },
            (Watch::Tail { request }, WatchReply::Events(events)) => Self::replays_on(
                request,
                replayed(events@, request.filter),
                next,
            ),
            (Watch::Replay { request, rest, .. }, WatchReply::Sent(sent)) => if sent {
                Self::replays_on(request, rest@, next)
            } else {
                next == Watch::Done
            },
            (Watch::Wait { request }, WatchReply::Status(change)) => match change {
                Ok(_) => next == (Watch::FetchUpdate { request }),
                Err(status) => next == (Watch::SendError { status }),
            },
            (Watch::Wait { request }, WatchReply::Log(log)) => match log {
                Ok(event) => if relays(event, request.filter) {
                    next == (Watch::SendLive { request, event })
                } else {
                    next == (Watch::Wait { request })
                },
                Err(status) => next == (Watch::SendError { status }),
            },
            (Watch::Wait { request }, WatchReply::Platform(event)) => match event {
                Ok(event) => next == (Watch::SendLive { request, event }),
                Err(status) => next == (Watch::SendError { status }),
            },
            (Watch::FetchUpdate { request }, WatchReply::Sandbox(found)) => match found {
                Ok(Some(sandbox)) => next == (Watch::IndexUpdate { request, sandbox }),
                Ok(None) => next == Watch::Done,
                Err(e) => next.fails_with(Code::Internal, "fetch sandbox failed: "@ + e@),
            },
            (Watch::IndexUpdate { request, sandbox }, WatchReply::Done) => next == (
            Watch::SendUpdate {
                request,
                event: SandboxStreamEvent { payload: Some(Payload::Sandbox(sandbox)) },
                last: Self::is_last(request, sandbox),
            }),
            (Watch::SendUpdate { request, last, .. }, WatchReply::Sent(sent)) => if !sent || last {
                next == Watch::Done
            } else {
                next == (Watch::Wait { request })
            },
            (Watch::SendLive { request, .. }, WatchReply::Sent(sent)) => if sent {
                next == (Watch::Wait { request })
            } else {
                next == Watch::Done
            },
            (Watch::SendError { .. }, WatchReply::Sent(_)) => next == Watch::Done,
            _ => false,
        }
    }

    /// The work that comes next; `None` once the stream has ended.
    pub fn effect(&self) -> (r: Option<WatchEffect<'_>>)
        ensures
            r == self.asks(),
    {
        match self {
            Watch::Subscribe { request } => Some(
                WatchEffect::Subscribe {
                    id: &request.id,
                    status: request.follow_status,
                    logs: request.follow_logs,
                    events: request.follow_events,
                },
            ),
            Watch::FetchSnapshot { request } => Some(WatchEffect::Fetch(&request.id)),
            Watch::IndexSnapshot { sandbox, .. } => Some(WatchEffect::Index(sandbox)),
            Watch::SendSnapshot { event, .. } => Some(WatchEffect::Send(event)),
            Watch::Tail { request } => Some(
                WatchEffect::Tail { id: &request.id, lines: request.log_tail_lines },
            ),
            Watch::Replay { event, .. } => Some(WatchEffect::Send(event)),
            Watch::Wait { .. } => Some(WatchEffect::Wait),
            Watch::FetchUpdate { request } => Some(WatchEffect::Fetch(&request.id)),
            Watch::IndexUpdate { sandbox, .. } => Some(WatchEffect::Index(sandbox)),
            Watch::SendUpdate { event, .. } => Some(WatchEffect::Send(event)),
            Watch::SendLive { event, .. } => Some(WatchEffect::Send(event)),
            Watch::SendError { status } => Some(WatchEffect::SendError(status)),
            Watch::Done => None,
        }
    }

    fn replay_on(request: WatchSandboxRequest, events: Vec<SandboxStreamEvent>) -> (next: Self)
        ensures
            Self::replays_on(request, events@, next),
    {
        if events.len() == 0 {
            Watch::Wait { request }
        } else {
            let mut rest = events;
            let event = rest.remove(0);
            assert(rest@ =~= events@.skip(1));
            Watch::Replay { request, event, rest }
        }
    }

    /// Goes on from what came of the work.
    pub fn resume(self, reply: WatchReply) -> (next: Self)
        requires
            self.takes(reply),
        ensures
            self.follows(reply, next),
    {
        match (self, reply) {
            (Watch::Subscribe { request }, WatchReply::Done) => Watch::FetchSnapshot { request },
            (Watch::FetchSnapshot { request }, WatchReply::Sandbox(found)) => match found {
                Ok(Some(sandbox)) => Watch::IndexSnapshot { request, sandbox },
                Ok(None) => Watch::SendError {
                    status: Status::new(Code::NotFound, "sandbox not found"),
                },
                Err(e) => Watch::SendError {
                    status: Status::internal("fetch sandbox failed: ", e.as_str()),
                },
            },
            (Watch::IndexSnapshot { request, sandbox }, WatchReply::Done) => {
                let last = request.stop_on_terminal && sandbox.phase == SandboxPhase::Ready;
                let event = SandboxStreamEvent { payload: Some(Payload::Sandbox(sandbox)) };
                Watch::SendSnapshot { request, event, last }
            },
            (Watch::SendSnapshot { request, last, .. }, WatchReply::Sent(_)) => if last {
                Watch::Done
            } else if request.follow_logs {
                Watch::Tail { request }
            } else {
                Watch::Wait { request }
            },
            (Watch::Tail { request }, WatchReply::Events(events)) => {
                let events = replay_all(events, &request.filter);
                Self::replay_on(request, events)
            },
            (Watch::Replay { request, rest, .. }, WatchReply::Sent(sent)) => if sent {
                Self::replay_on(request, rest)
            } else {
                Watch::Done
            },
            (Watch::Wait { request }, WatchReply::Status(change)) => match change {
                Ok(_) => Watch::FetchUpdate { request },
                Err(status) => Watch::SendError { status },
            },
            (Watch::Wait { request }, WatchReply::Log(log)) => match log {
                Ok(event) => if relay(&event, &request.filter) {
                    Watch::SendLive { request, event }
                } else {
                    Watch::Wait { request }
                },
                Err(status) => Watch::SendError { status },
            },
            (Watch::Wait { request }, WatchReply::Platform(event)) => match event {
                Ok(event) => Watch::SendLive { request, event },
                Err(status) => Watch::SendError { status },
            },
            (Watch::FetchUpdate { request }, WatchReply::Sandbox(found)) => match found {
                Ok(Some(sandbox)) => Watch::IndexUpdate { request, sandbox },
                Ok(None) => Watch::Done,
                Err(e) => Watch::SendError {
                    status: Status::internal("fetch sandbox failed: ", e.as_str()),
                },
            },
            (Watch::IndexUpdate { request, sandbox }, WatchReply::Done) => {
                let last = request.stop_on_terminal && sandbox.phase == SandboxPhase::Ready;
                let event = SandboxStreamEvent { payload: Some(Payload::Sandbox(sandbox)) };
                Watch::SendUpdate { request, event, last }
            },
            (Watch::SendUpdate { request, last, .. }, WatchReply::Sent(sent)) => if !sent || last {
                Watch::Done
            } else {
                Watch::Wait { request }
            },
            (Watch::SendLive { request, .. }, WatchReply::Sent(sent)) => if sent {
                Watch::Wait { request }
            } else {
                Watch::Done
            },
            (Watch::SendError { .. }, WatchReply::Sent(_)) => Watch::Done,
            _ => unreached(),
        }
    }

    /// The request that a watch is for, as long as it goes on.
    pub open spec fn request_of(self) -> Option<WatchSandboxRequest> {
        match self {
            Watch::Subscribe { request } => Some(request),
            Watch::FetchSnapshot { request } => Some(request),
            Watch::IndexSnapshot { request, .. } => Some(request),
            Watch::SendSnapshot { request, .. } => Some(request),
            Watch::Tail { request } => Some(request),
            Watch::Replay { request, .. } => Some(request),
            Watch::Wait { request } => Some(request),
            Watch::FetchUpdate { request } => Some(request),
            Watch::IndexUpdate { request, .. } => Some(request),
            Watch::SendUpdate { request, .. } => Some(request),
            Watch::SendLive { request, .. } => Some(request),
            Watch::SendError { .. } => None,
            Watch::Done => None,
        }
    }

    /// Every log line from before the watch that is still to be sent passes the watcher's
    /// filter by time, source and level.
    pub open spec fn filtered(self) -> bool {
        match self {
            Watch::Replay { request, event, rest } => {
                &&& replays(event, request.filter)
                &&& forall|i: int|
                    0 <= i < rest@.len() ==> replays(#[trigger] rest@[i], request.filter)
            },
            _ => true,
        }
    }
}

/// A watch is for the same request from its beginning to its end, and what it replays
/// passes the request's filter.
pub proof fn watch_keeps_request_and_filter(watch: Watch, reply: WatchReply, next: Watch)
    requires
        watch.filtered(),
        watch.follows(reply, next),
    ensures
        next.filtered(),
        next.request_of() is Some ==> next.request_of() == watch.request_of(),
{
    match (watch, reply) {
        (Watch::Tail { request }, WatchReply::Events(events)) => {
            let filter = request.filter;
            let pred = |event: SandboxStreamEvent| replays(event, filter);
            let kept = replayed(events@, filter);
            assert forall|i: int| 0 <= i < kept.len() implies replays(#[trigger] kept[i], filter) by {
                events@.lemma_filter_pred(pred, i);
            }
        },
        (Watch::Replay { request, rest, .. }, WatchReply::Sent(_)) => {},
        _ => {},
    }
}

/// A log line that comes in while the watch waits is sent exactly if it passes the
/// filter by its source and its level.
pub proof fn live_logs_are_filtered(
    request: WatchSandboxRequest,
    event: SandboxStreamEvent,
    next: Watch,
)
    requires
        (Watch::Wait { request }).follows(WatchReply::Log(Ok(event)), next),
    ensures
        next is SendLive <==> relays(event, request.filter),
        next is SendLive ==> next->SendLive_event == event,
        next !is SendLive ==> next == (Watch::Wait { request }),
{
}

/// A watch that is to stop once the sandbox is ready sends the ready sandbox and ends,
/// at its beginning and at every later change alike.
pub proof fn watch_stops_once_ready(
    watch: Watch,
    request: WatchSandboxRequest,
    sandbox: Sandbox,
    sending: Watch,
    sent: bool,
    end: Watch,
)
    requires
        request.stop_on_terminal,
        sandbox.phase == SandboxPhase::Ready,
        watch == (Watch::IndexSnapshot { request, sandbox }) || watch == (Watch::IndexUpdate {
            request,
            sandbox,
        }),
        watch.follows(WatchReply::Done, sending),
        sending.follows(WatchReply::Sent(sent), end),
    ensures
        sending.asks() == Some(
            WatchEffect::Send(&SandboxStreamEvent { payload: Some(Payload::Sandbox(sandbox)) }),
        ),
        end == Watch::Done,
{
}

} // verus!
