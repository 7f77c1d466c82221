//! What holds of the lines that readers get and sandboxes send.
use crate::gateway::flow::{Effect, Flow, Reply};
use crate::gateway::logs::{
    level_passes, passing_logs, rank_of, upper_case, GetSandboxLogs, GetSandboxLogsRequest,
    LogFilter, PushSandboxLogs,
};
use crate::gateway::model::{
    Payload, PushSandboxLogsRequest, SandboxLogLine, SandboxStreamEvent,
};
use crate::status::Code;
use vstd::prelude::*;

verus! {

/// The levels that are known, the most severe first.
pub open spec fn known_levels() -> Seq<Seq<char>> {
    seq!["ERROR"@, "WARN"@, "INFO"@, "DEBUG"@, "TRACE"@]
}

/// A line of the level `level` is severe enough where `min` is the least severe level that is
/// wanted. Neither is held to its case. A level that is not known holds nothing back.
pub open spec fn is_severe_enough(level: Seq<char>, min: Seq<char>) -> bool {
    ||| min.len() == 0
    ||| forall|i: int|
        0 <= i < known_levels().len() ==> #[trigger] known_levels()[i] != upper_case(level)
    ||| forall|j: int|
        0 <= j < known_levels().len() ==> #[trigger] known_levels()[j] != upper_case(min)
    ||| exists|i: int, j: int|
        0 <= i <= j < known_levels().len() && #[trigger] known_levels()[i] == upper_case(level)
            && #[trigger] known_levels()[j] == upper_case(min)
}

/// A line comes from one of the sources that are wanted, where only some are. One that names no
/// source comes from the gateway.
pub open spec fn is_from(log: SandboxLogLine, sources: Seq<String>) -> bool {
    ||| sources.len() == 0
    ||| exists|i: int|
        0 <= i < sources.len() && #[trigger] sources[i]@ == (if log.source@.len() == 0 {
            "gateway"@
        } else {
            log.source@
        })
}

/// A line is wanted by a reader who follows the log.
pub open spec fn is_followed(log: SandboxLogLine, filter: LogFilter) -> bool {
    is_from(log, filter.sources@) && is_severe_enough(log.level@, filter.min_level@)
}

/// A line is wanted by a reader of what is in the log already: it is also no older than what
/// they ask for.
pub open spec fn is_wanted(log: SandboxLogLine, filter: LogFilter) -> bool {
    is_followed(log, filter) && (filter.since_ms <= 0 || log.timestamp_ms >= filter.since_ms)
}

/// A line passes by its level exactly where it is severe enough.
pub proof fn levels_pass_by_severity(level: Seq<char>, min: Seq<char>)
    ensures
        level_passes(level, min) <==> is_severe_enough(level, min),
{
    reveal_strlit("ERROR");
    reveal_strlit("WARN");
    reveal_strlit("INFO");
    reveal_strlit("DEBUG");
    reveal_strlit("TRACE");
    let known = known_levels();
    assert(known[0][0] == 'E' && known[1][0] == 'W' && known[2][0] == 'I' && known[3][0] == 'D'
        && known[4][0] == 'T');
    assert forall|text: Seq<char>| 0 <= #[trigger] rank_of(text) < 5 implies known[rank_of(text)]
        == text by {}
    assert forall|i: int| 0 <= i < known.len() implies rank_of(#[trigger] known[i]) == i by {}
    let a = rank_of(upper_case(level));
    let b = rank_of(upper_case(min));
    if level_passes(level, min) && min.len() > 0 && a < 5 && b < 5 {
        assert(known[a] == upper_case(level) && known[b] == upper_case(min));
    }
    if level_passes(level, min) && min.len() > 0 && a == 5 {
        assert forall|i: int| 0 <= i < known.len() implies #[trigger] known[i] != upper_case(
            level,
        ) by {}
    }
    if level_passes(level, min) && min.len() > 0 && b == 5 {
        assert forall|j: int| 0 <= j < known.len() implies #[trigger] known[j] != upper_case(
            min,
        ) by {}
    }
}

/// A filter lets a line through exactly where the line is wanted.
pub proof fn filters_let_wanted_lines_through(log: SandboxLogLine, filter: LogFilter)
    ensures
        filter.keeps(log) <==> is_followed(log, filter),
        filter.passes(log) <==> is_wanted(log, filter),
{
    levels_pass_by_severity(log.level@, filter.min_level@);
}

/// A filter that asks for nothing in particular lets every line through.
pub proof fn empty_filters_let_all_through(log: SandboxLogLine, filter: LogFilter)
    requires
        filter.sources@.len() == 0,
        filter.min_level@.len() == 0,
        filter.since_ms <= 0,
    ensures
        filter.keeps(log),
        filter.passes(log),
{
}

/// The lines among `events`, in order.
pub open spec fn lines_of(events: Seq<SandboxStreamEvent>) -> Seq<SandboxLogLine>
    decreases events.len(),
{
    if events.len() == 0 {
        Seq::empty()
    } else {
        match events.last().payload {
            Some(Payload::Log(log)) => lines_of(events.drop_last()).push(log),
            _ => lines_of(events.drop_last()),
        }
    }
}

proof fn lemma_passing_lines(events: Seq<SandboxStreamEvent>, filter: LogFilter)
    ensures
        passing_logs(events, filter) == lines_of(events).filter(
            |log: SandboxLogLine| is_wanted(log, filter),
        ),
    decreases events.len(),
{
    reveal(Seq::filter);
    if events.len() > 0 {
        lemma_passing_lines(events.drop_last(), filter);
        if let Some(Payload::Log(log)) = events.last().payload {
            filters_let_wanted_lines_through(log, filter);
            assert(lines_of(events).drop_last() =~= lines_of(events.drop_last()));
        }
    }
}

/// A reader gets, in order, exactly the wanted lines among the events that were looked at, and
/// is told how many those were. As many of the last events are looked at as were asked for, or
/// two thousand.
pub proof fn readers_get_all_they_want(
    request: GetSandboxLogsRequest,
    flow: GetSandboxLogs,
    events: Vec<SandboxStreamEvent>,
    next: GetSandboxLogs,
)
    requires
        request.sandbox_id@.len() > 0,
        GetSandboxLogs::begins(request, flow),
        flow.follows(Reply::Events(events), next),
    ensures
        flow.asks() matches Some(Effect::Tail { sandbox_id, lines }) && sandbox_id@
            == request.sandbox_id@ && lines == (if request.lines == 0 {
            2000
        } else {
            request.lines
        }),
        next.asks() is None,
        next.outcome() matches Ok(response) && {
            &&& response.logs@ == lines_of(events@).filter(
                |log: SandboxLogLine| is_wanted(log, request.filter),
            )
            &&& events@.len() <= u32::MAX ==> response.buffer_total == events@.len()
        },
{
    lemma_passing_lines(events@, request.filter);
}

/// A batch is published at once, up to its hundredth line, in order. Each line keeps its time,
/// its level and what else it holds, and is taken to come from the sandbox that the batch is
/// from. Then the next batch is waited for.
pub proof fn batches_are_published(
    waiting: PushSandboxLogs,
    batch: PushSandboxLogsRequest,
    publishing: PushSandboxLogs,
    then: PushSandboxLogs,
)
    requires
        waiting.asks() == Some(Effect::NextLogBatch),
        waiting.follows(Reply::LogBatch(Ok(Some(batch))), publishing),
        publishing.follows(Reply::Done, then),
    ensures
        publishing.asks() matches Some(Effect::PublishLogs(logs)) && {
            &&& batch.sandbox_id@.len() == 0 ==> logs@.len() == 0
            &&& batch.sandbox_id@.len() > 0 && batch.logs@.len() <= 100 ==> logs@.len()
                == batch.logs@.len()
            &&& batch.sandbox_id@.len() > 0 && batch.logs@.len() > 100 ==> logs@.len() == 100
            &&& forall|i: int|
                0 <= i < logs@.len() ==> {
                    &&& (#[trigger] logs@[i]).sandbox_id@ == batch.sandbox_id@
                    &&& logs@[i].source@ == "sandbox"@
                    &&& logs@[i].timestamp_ms == batch.logs@[i].timestamp_ms
                    &&& logs@[i].level@ == batch.logs@[i].level@
                    &&& logs@[i].extra@ == batch.logs@[i].extra@
                }
        },
        then.asks() == Some(Effect::NextLogBatch),
{
}

/// A stream of batches that ends is taken in, and one that breaks is reported.
pub proof fn end_of_batches_is_told(
    waiting: PushSandboxLogs,
    batch: Result<Option<PushSandboxLogsRequest>, String>,
    next: PushSandboxLogs,
)
    requires
        waiting.asks() == Some(Effect::NextLogBatch),
        waiting.follows(Reply::LogBatch(batch), next),
        !(batch matches Ok(Some(_))),
    ensures
        next.asks() is None,
        match batch {
            Ok(_) => next.outcome() is Ok,
            Err(reason) => next.outcome() matches Err(status) && status.code == Code::Internal
                && status.message@ == "stream error: "@ + reason@,
        },
{
}

} // verus!
