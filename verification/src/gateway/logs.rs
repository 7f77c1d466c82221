//! Logs: which lines a reader gets, and which lines a sandbox may send.
use crate::gateway::flow::{Effect, Flow, Reply};
use crate::gateway::model::{
    Payload, PushSandboxLogsRequest, SandboxLogLine, SandboxStreamEvent,
};
use crate::gateway::sandbox::{or_default, with_default};
use crate::status::{fails, Code, Status};
use crate::text::same_text;
use vstd::pervasive::unreached;
use vstd::prelude::*;

verus! {

/// The source that a line is taken to have: one without a source is the gateway's.
pub open spec fn effective_source(source: Seq<char>) -> Seq<char> {
    if source.len() == 0 {
        "gateway"@
    } else {
        source
    }
}

/// A line with the source `source` passes a filter for the sources `filters`.
pub open spec fn source_passes(source: Seq<char>, filters: Seq<String>) -> bool {
    exists|i: int| 0 <= i < filters.len() && #[trigger] filters[i]@ == effective_source(source)
}

/// Whether a line's source is one of `filters`. A line without a source is the
/// gateway's.
pub fn source_matches(log_source: &str, filters: &Vec<String>) -> (r: bool)
    ensures
        r == source_passes(log_source@, filters@),
{
    let effective = if log_source.is_empty() {
        "gateway"
    } else {
        log_source
    };
    for i in 0..filters.len()
        invariant
            effective@ == effective_source(log_source@),
            forall|j: int|
                0 <= j < i ==> #[trigger] filters@[j]@ != effective_source(log_source@),
    {
        if same_text(filters[i].as_str(), effective) {
            assert(filters@[i as int]@ == effective_source(log_source@));
            return true;
        }
    }
    false
}

/// A text in upper case.
pub uninterp spec fn upper_case(text: Seq<char>) -> Seq<char>;

/// Calls `str::to_uppercase`. Claims that the result depends on the text alone.
#[verifier::external_body]
fn to_upper_case(text: &str) -> (r: String)
    ensures
        r@ == upper_case(text@),
{
    text.to_uppercase()
}

/// How far down a level stands, the most severe first. Levels that are not known have the
/// number after the last.
pub open spec fn rank_of(level: Seq<char>) -> int {
    if level == "ERROR"@ {
        0
    } else if level == "WARN"@ {
        1
    } else if level == "INFO"@ {
        2
    } else if level == "DEBUG"@ {
        3
    } else if level == "TRACE"@ {
        4
    } else {
        5
    }
}

/// How far down the level written `level`, in upper case, stands.
pub fn level_rank(level: &str) -> (r: u8)
    ensures
        r == rank_of(level@),
{
    if same_text(level, "ERROR") {
        0
    } else if same_text(level, "WARN") {
        1
    } else if same_text(level, "INFO") {
        2
    } else if same_text(level, "DEBUG") {
        3
    } else if same_text(level, "TRACE") {
        4
    } else {
        5
    }
}

/// Whether the level written `level` is at least as severe as the one written `limit`, both
/// in upper case. A level that is not known counts as severe enough for every limit.
pub fn at_least_as_severe(level: &str, limit: &str) -> (r: bool)
    ensures
        r == (rank_of(level@) == 5 || rank_of(level@) <= rank_of(limit@)),
{
    let rank: u8 = level_rank(level);
    rank == 5 || rank <= level_rank(limit)
}

/// A line of the level `level` passes a filter for the level `min_level`. Lines of levels that
/// are not known always pass.
pub open spec fn level_passes(level: Seq<char>, min_level: Seq<char>) -> bool {
    ||| min_level.len() == 0
    ||| rank_of(upper_case(level)) == 5
    ||| rank_of(upper_case(level)) <= rank_of(upper_case(min_level))
}

/// Whether a line's level is at least as severe as `min_level`. Without a level to
/// compare to, every line is, and so is one of a level that is not known.
pub fn level_matches(log_level: &str, min_level: &str) -> (r: bool)
    ensures
        r == level_passes(log_level@, min_level@),
{
    if min_level.is_empty() {
        return true;
    }
    let level = to_upper_case(log_level);
    let limit = to_upper_case(min_level);
    at_least_as_severe(level.as_str(), limit.as_str())
}

/// Every line passes the filter for the level it has itself.
pub proof fn own_level_passes(level: Seq<char>)
    ensures
        level_passes(level, level),
{
}

/// A line of a level that is not known passes the filter for every level.
pub proof fn unknown_level_passes(level: Seq<char>, min_level: Seq<char>)
    requires
        upper_case(level) != "ERROR"@,
        upper_case(level) != "WARN"@,
        upper_case(level) != "INFO"@,
        upper_case(level) != "DEBUG"@,
        upper_case(level) != "TRACE"@,
    ensures
        level_passes(level, min_level),
{
}

/// What passes the filter for a level passes the filter for every level below it.
pub proof fn lower_filters_let_more_through(level: Seq<char>, high: Seq<char>, low: Seq<char>)
    requires
        high.len() > 0,
        level_passes(level, high),
        rank_of(upper_case(high)) <= rank_of(upper_case(low)),
    ensures
        level_passes(level, low),
{
}

/// Which lines a reader wants.
#[derive(Debug)]
pub struct LogFilter {
    /// No lines from before this time; zero for no such bound.
    pub since_ms: i64,
    /// Only lines from these sources; empty for all.
    pub sources: Vec<String>,
    /// Only lines at least as severe as this, and those of levels that are not known; empty
    /// for all.
    pub min_level: String,
}

impl LogFilter {
    /// A line passes by its source and its level.
    pub open spec fn keeps(&self, log: SandboxLogLine) -> bool {
        &&& self.sources@.len() == 0 || source_passes(log.source@, self.sources@)
        &&& level_passes(log.level@, self.min_level@)
    }

    /// A line passes by its time, its source and its level.
    pub open spec fn passes(&self, log: SandboxLogLine) -> bool {
        &&& self.since_ms > 0 ==> log.timestamp_ms >= self.since_ms
        &&& self.keeps(log)
    }

    /// Whether a line passes by its source and its level.
    pub fn keep(&self, log: &SandboxLogLine) -> (r: bool)
        ensures
            r == self.keeps(*log),
    {
        if self.sources.len() > 0 && !source_matches(log.source.as_str(), &self.sources) {
            return false;
        }
        level_matches(log.level.as_str(), self.min_level.as_str())
    }

    /// Whether a line passes by its time, its source and its level.
    pub fn pass(&self, log: &SandboxLogLine) -> (r: bool)
        ensures
            r == self.passes(*log),
    {
        if self.since_ms > 0 && log.timestamp_ms < self.since_ms {
            return false;
        }
        self.keep(log)
    }
}

/// The log lines in `events` that pass `filter`, in order.
pub open spec fn passing_logs(events: Seq<SandboxStreamEvent>, filter: LogFilter) -> Seq<
    SandboxLogLine,
>
    decreases events.len(),
{
    if events.len() == 0 {
        Seq::empty()
    } else {
        let before = passing_logs(events.drop_last(), filter);
        match events.last().payload {
            Some(Payload::Log(log)) => if filter.passes(log) {
                before.push(log)
            } else {
                before
            },
            _ => before,
        }
    }
}

fn pass_logs(events: Vec<SandboxStreamEvent>, filter: &LogFilter) -> (r: Vec<SandboxLogLine>)
    ensures
        r@ == passing_logs(events@, *filter),
{
    let mut logs: Vec<SandboxLogLine> = Vec::new();
    for event in it: events
        invariant
            it.seq() == events@,
            logs@ == passing_logs(events@.take(it.index()), *filter),
    {
        let ghost i = it.index();
        proof {
            assert(events@.take(i + 1).drop_last() =~= events@.take(i));
            assert(events@.take(i + 1).last() == event);
        }
        if let Some(Payload::Log(log)) = event.payload {
            if filter.pass(&log) {
                logs.push(log);
            }
        }
    }
    assert(events@.take(events@.len() as int) =~= events@);
    logs
}

/// Every line that a reader gets passes the reader's filter and was in the events.
pub proof fn passing_logs_pass(events: Seq<SandboxStreamEvent>, filter: LogFilter, i: int)
    requires
        0 <= i < passing_logs(events, filter).len(),
    ensures
        filter.passes(passing_logs(events, filter)[i]),
        exists|j: int|
            0 <= j < events.len() && (#[trigger] events[j]).payload == Some(
                Payload::Log(passing_logs(events, filter)[i]),
            ),
    decreases events.len(),
{
    let before = passing_logs(events.drop_last(), filter);
    if i < before.len() {
        passing_logs_pass(events.drop_last(), filter, i);
        let j = choose|j: int|
            0 <= j < events.drop_last().len() && (#[trigger] events.drop_last()[j]).payload == Some(
                Payload::Log(before[i]),
            );
        assert(events[j] == events.drop_last()[j]);
    } else {
        assert(events[events.len() - 1] == events.last());
    }
}

/// The request for the logs of a sandbox.
#[derive(Debug)]
pub struct GetSandboxLogsRequest {
    pub sandbox_id: String,
    /// How many of the last events to look at; zero for two thousand.
    pub lines: u32,
    pub filter: LogFilter,
}

/// The logs of a sandbox.
#[derive(Debug)]
pub struct GetSandboxLogsResponse {
    pub logs: Vec<SandboxLogLine>,
    /// How many events were looked at.
    pub buffer_total: u32,
}

/// Reading the logs of a sandbox.
pub enum GetSandboxLogs {
    Tail { sandbox_id: String, lines: u32, filter: LogFilter },
    Done(Result<GetSandboxLogsResponse, Status>),
}

impl GetSandboxLogs {
    pub open spec fn failed(self, code: Code, text: Seq<char>) -> bool {
        self matches GetSandboxLogs::Done(r) && fails(r, code, text)
    }

    /// Reading the logs that `request` asks for starts as `flow`.
    pub open spec fn begins(request: GetSandboxLogsRequest, flow: Self) -> bool {
        if request.sandbox_id@.len() == 0 {
            flow.failed(Code::InvalidArgument, "sandbox_id is required"@)
        } else {
            flow == (GetSandboxLogs::Tail {
                sandbox_id: request.sandbox_id,
                lines: or_default(request.lines, 2000),
                filter: request.filter,
            })
        }
    }

    /// Starts reading the logs that `request` asks for.
    pub fn begin(request: GetSandboxLogsRequest) -> (flow: Self)
        ensures
            Self::begins(request, flow),
    {
        if request.sandbox_id.as_str().is_empty() {
            GetSandboxLogs::Done(
                Err(Status::new(Code::InvalidArgument, "sandbox_id is required")),
            )
        } else {
            GetSandboxLogs::Tail {
                sandbox_id: request.sandbox_id,
                lines: with_default(request.lines, 2000),
                filter: request.filter,
            }
        }
    }
}

impl Flow for GetSandboxLogs {
    type Output = GetSandboxLogsResponse;

    open spec fn asks(&self) -> Option<Effect<'_>> {
        match self {
            GetSandboxLogs::Tail { sandbox_id, lines, .. } => Some(
                Effect::Tail { sandbox_id, lines: *lines },
            ),
            GetSandboxLogs::Done(_) => None,
        }
    }

    open spec fn follows(&self, reply: Reply, next: Self) -> bool {
        match (*self, reply) {
            (GetSandboxLogs::Tail { filter, .. }, Reply::Events(events)) => {
                next matches GetSandboxLogs::Done(Ok(response)) && response.logs@ == passing_logs(
                    events@,
                    filter,
                ) && response.buffer_total == events.len() as u32
            },
            _ => false,
        }
    }

    open spec fn outcome(&self) -> Result<GetSandboxLogsResponse, Status> {
        self->0
    }

    fn effect(&self) -> (r: Option<Effect<'_>>) {
        match self {
            GetSandboxLogs::Tail { sandbox_id, lines, .. } => Some(
                Effect::Tail { sandbox_id, lines: *lines },
            ),
            GetSandboxLogs::Done(_) => None,
        }
    }

    fn resume(self, reply: Reply) -> (next: Self) {
        match (self, reply) {
            (GetSandboxLogs::Tail { filter, .. }, Reply::Events(events)) => {
                #[verifier::truncate]
                let buffer_total: u32 = events.len() as u32;
                GetSandboxLogs::Done(
                    Ok(GetSandboxLogsResponse { logs: pass_logs(events, &filter), buffer_total }),
                )
            },
            _ => unreached(),
        }
    }

    fn finish(self) -> (r: Result<GetSandboxLogsResponse, Status>) {
        match self {
            GetSandboxLogs::Done(r) => r,
            _ => unreached(),
        }
    }
}

/// How many lines of one batch are taken in.
pub const BATCH_LIMIT: usize = 100;

/// `log` is the line that a sandbox sent as `sent` in a batch for `sandbox_id`: it
/// comes from that sandbox, whatever it says of itself.
pub open spec fn taken_in(log: SandboxLogLine, sent: SandboxLogLine, sandbox_id: Seq<char>) -> bool {
    &&& log.source@ == "sandbox"@
    &&& log.sandbox_id@ == sandbox_id
    &&& log == (SandboxLogLine { source: log.source, sandbox_id: log.sandbox_id, ..sent })
}

/// `logs` are the lines of `batch` that are published: the first hundred, or none
/// where the batch names no sandbox.
pub open spec fn published(logs: Seq<SandboxLogLine>, batch: PushSandboxLogsRequest) -> bool {
    if batch.sandbox_id@.len() == 0 {
        logs.len() == 0
    } else {
        &&& logs.len() == (if batch.logs@.len() <= BATCH_LIMIT {
            batch.logs@.len() as int
        } else {
            BATCH_LIMIT as int
        })
        &&& forall|i: int|
            0 <= i < logs.len() ==> taken_in(
                #[trigger] logs[i],
                batch.logs@[i],
                batch.sandbox_id@,
            )
    }
}

/// The lines of a batch that are published.
pub fn accept_batch(batch: PushSandboxLogsRequest) -> (r: Vec<SandboxLogLine>)
    ensures
        published(r@, batch),
{
    let PushSandboxLogsRequest { sandbox_id, logs: sent } = batch;
    let mut logs: Vec<SandboxLogLine> = Vec::new();
    if sandbox_id.as_str().is_empty() {
        return logs;
    }
    let mut kept = sent;
    kept.truncate(BATCH_LIMIT);
    for log in it: kept
        invariant
            it.seq() == kept@,
            logs@.len() == it.index(),
            forall|j: int|
                0 <= j < logs@.len() ==> taken_in(#[trigger] logs@[j], kept@[j], sandbox_id@),
    {
        logs.push(
            SandboxLogLine {
                source: "sandbox".to_owned(),
                sandbox_id: sandbox_id.clone(),
                ..log
            },
        );
    }
    logs
}

/// Taking in the log lines that a sandbox streams.
pub enum PushSandboxLogs {
    /// Waiting for a batch.
    Next,
    /// The lines of a batch are published.
    Publish { logs: Vec<SandboxLogLine> },
    Done(Result<(), Status>),
}

impl PushSandboxLogs {
    pub open spec fn failed(self, code: Code, text: Seq<char>) -> bool {
        self matches PushSandboxLogs::Done(r) && fails(r, code, text)
    }

    /// Starts taking in what a sandbox streams.
    pub fn begin() -> (flow: Self)
        ensures
            flow == PushSandboxLogs::Next,
    {
        PushSandboxLogs::Next
    }
}

impl Flow for PushSandboxLogs {
    type Output = ();

    open spec fn asks(&self) -> Option<Effect<'_>> {
        match self {
            PushSandboxLogs::Next => Some(Effect::NextLogBatch),
            PushSandboxLogs::Publish { logs } => Some(Effect::PublishLogs(logs)),
            PushSandboxLogs::Done(_) => None,
        }
    }

    open spec fn follows(&self, reply: Reply, next: Self) -> bool {
        match (*self, reply) {
            (PushSandboxLogs::Next, Reply::LogBatch(batch)) => match batch {
                Err(e) => next.failed(Code::Internal, "stream error: "@ + e@),
                Ok(None) => next == PushSandboxLogs::Done(Ok(())),
                Ok(Some(batch)) => next matches PushSandboxLogs::Publish { logs } && published(
                    logs@,
                    batch,
                ),
            },
            (PushSandboxLogs::Publish { .. }, Reply::Done) => next == PushSandboxLogs::Next,
            _ => false,
        }
    }

    open spec fn outcome(&self) -> Result<(), Status> {
        self->0
    }

    fn effect(&self) -> (r: Option<Effect<'_>>) {
        match self {
            PushSandboxLogs::Next => Some(Effect::NextLogBatch),
            PushSandboxLogs::Publish { logs } => Some(Effect::PublishLogs(logs)),
            PushSandboxLogs::Done(_) => None,
        }
    }

    fn resume(self, reply: Reply) -> (next: Self) {
        match (self, reply) {
            (PushSandboxLogs::Next, Reply::LogBatch(batch)) => match batch {
                Err(e) => PushSandboxLogs::Done(
                    Err(Status::internal("stream error: ", e.as_str())),
                ),
                Ok(None) => PushSandboxLogs::Done(Ok(())),
                Ok(Some(batch)) => PushSandboxLogs::Publish { logs: accept_batch(batch) },
            },
            (PushSandboxLogs::Publish { .. }, Reply::Done) => PushSandboxLogs::Next,
            _ => unreached(),
        }
    }

    fn finish(self) -> (r: Result<(), Status>) {
        match self {
            PushSandboxLogs::Done(r) => r,
            _ => unreached(),
        }
    }
}

} // verus!
