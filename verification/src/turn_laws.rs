//! What one prompt turn promises: whatever the agent says reaches the one who follows
//! the turn, and the turn ends as the agent, or the first stage that failed, ended it.

use crate::acp_executor::{
    call_views, end_calls, event_calls, failure_notice, law_answered_session_is_silent, next_stage,
    session_events, stage_after, stage_event, told, turn_after, turn_of, turn_succeeded, CallView,
    EndView, HandlerCall, LifecycleStage, SessionResult, StageOutcome, TurnView, EXIT_GRACE_SECS,
};
use crate::codec::compact_text;
use crate::json::{Json, JsonTree};
use crate::paths::UnixPath;
use crate::session::{
    event_of, event_view, first_content_text, granted_option, plan_lines, plain_text, AcpEvent,
    ContentBlock, EventView, SessionUpdate, StopReason, ToolCallContent, ToolCallStatus,
};
use crate::text::{joined, lossy_text};
use vstd::prelude::*;

verus! {

proof fn lemma_stages_in_order(starts: Seq<StageOutcome>, rest: Seq<StageOutcome>)
    requires
        starts.len() <= 5,
        forall|i: int| 0 <= i < starts.len() ==> (#[trigger] starts[i]) is Succeeded,
    ensures
        stage_after(LifecycleStage::Spawn, starts) == seq![
            LifecycleStage::Spawn,
            LifecycleStage::TakeStdin,
            LifecycleStage::TakeStdout,
            LifecycleStage::Initialize,
            LifecycleStage::NewSession,
            LifecycleStage::Prompt,
        ][starts.len() as int],
        session_events(LifecycleStage::Spawn, starts + rest) == session_events(
            stage_after(LifecycleStage::Spawn, starts),
            rest,
        ),
        stage_after(LifecycleStage::Spawn, starts + rest) == stage_after(
            stage_after(LifecycleStage::Spawn, starts),
            rest,
        ),
{
    lemma_quiet_start(LifecycleStage::Spawn, starts, rest);
    reveal_with_fuel(stage_after, 6);
}

proof fn lemma_quiet_start(
    stage: LifecycleStage,
    starts: Seq<StageOutcome>,
    rest: Seq<StageOutcome>,
)
    requires
        forall|i: int| 0 <= i < starts.len() ==> (#[trigger] starts[i]) is Succeeded,
    ensures
        session_events(stage, starts + rest) == session_events(stage_after(stage, starts), rest),
        stage_after(stage, starts + rest) == stage_after(stage_after(stage, starts), rest),
    decreases starts.len(),
{
    if starts.len() == 0 {
        assert(starts + rest =~= rest);
    } else {
        assert((starts + rest).drop_first() =~= starts.drop_first() + rest);
        assert((starts + rest)[0] == starts[0]);
        lemma_quiet_start(next_stage(stage, starts[0]), starts.drop_first(), rest);
    }
}

/// A session that starts without a fault, and whose prompt is answered, sends the
/// agent's own reason to stop, and nothing else, whatever becomes of the cleaning up.
pub proof fn law_answered_session_sends_the_reason(
    starts: Seq<StageOutcome>,
    reason: StopReason,
    rest: Seq<StageOutcome>,
)
    requires
        starts.len() == 5,
        forall|i: int| 0 <= i < starts.len() ==> (#[trigger] starts[i]) is Succeeded,
    ensures
        session_events(
            LifecycleStage::Spawn,
            starts + seq![StageOutcome::Answered(reason)] + rest,
        ) == seq![EventView::Done(reason)],
        stage_after(
            LifecycleStage::Spawn,
            starts + seq![StageOutcome::Answered(reason)],
        ) == LifecycleStage::EndTerminals,
{
    let answered = seq![StageOutcome::Answered(reason)];
    let after = answered + rest;
    lemma_stages_in_order(starts, after);
    lemma_stages_in_order(starts, answered);
    assert(starts + answered + rest =~= starts + after);
    assert(after.drop_first() =~= rest);
    assert(after[0] == StageOutcome::Answered(reason));
    assert(answered.drop_first() =~= Seq::empty());
    law_answered_session_is_silent(LifecycleStage::EndTerminals, rest);
    assert(session_events(LifecycleStage::Prompt, after) =~= seq![EventView::Done(reason)]);
    assert(stage_after(LifecycleStage::Prompt, answered) == stage_after(
        next_stage(LifecycleStage::Prompt, answered[0]),
        answered.drop_first(),
    ));
}

/// The turn of such a session, after whatever the agent said before, ends with the
/// agent's own reason, and is a success exactly if the agent stopped by itself or at a
/// limit.
pub proof fn law_turn_ends_with_the_agents_reason(
    said: Seq<EventView>,
    starts: Seq<StageOutcome>,
    reason: StopReason,
    rest: Seq<StageOutcome>,
)
    requires
        starts.len() == 5,
        forall|i: int| 0 <= i < starts.len() ==> (#[trigger] starts[i]) is Succeeded,
        forall|i: int|
            0 <= i < said.len() ==> !((#[trigger] said[i]) is Done) && !(said[i] is Failed),
    ensures
        ({
            let turn = turn_of(
                said + session_events(
                    LifecycleStage::Spawn,
                    starts + seq![StageOutcome::Answered(reason)] + rest,
                ),
            );
            &&& turn.end == Some(EndView::Done(reason))
            &&& turn.output == turn_of(said).output
            &&& turn_succeeded(turn) <==> reason == StopReason::EndTurn || reason
                == StopReason::MaxTokens || reason == StopReason::MaxTurnRequests
        }),
{
    law_answered_session_sends_the_reason(starts, reason, rest);
    lemma_no_end_yet(said);
    let all = said + seq![EventView::Done(reason)];
    assert(all.drop_last() =~= said);
    assert(all.last() == EventView::Done(reason));
}

/// A session that fails at a stage up to the prompt is over at once, and sends nothing
/// but the message of that stage.
pub proof fn law_failed_session_says_where(
    starts: Seq<StageOutcome>,
    rest: Seq<StageOutcome>,
)
    requires
        starts.len() <= 5,
        forall|i: int| 0 <= i < starts.len() ==> (#[trigger] starts[i]) is Succeeded,
    ensures
        session_events(
            LifecycleStage::Spawn,
            starts + seq![StageOutcome::Failed] + rest,
        ) == seq![
            EventView::Failed(
                seq![
                    "Failed to spawn ACP process"@,
                    "No stdin"@,
                    "No stdout"@,
                    "ACP initialize failed"@,
                    "ACP session/new failed"@,
                    "ACP session/prompt failed"@,
                ][starts.len() as int],
            ),
        ],
        stage_after(
            LifecycleStage::Spawn,
            starts + seq![StageOutcome::Failed] + rest,
        ) == LifecycleStage::Ended,
{
    let failed = seq![StageOutcome::Failed];
    let after = failed + rest;
    lemma_stages_in_order(starts, after);
    assert(starts + failed + rest =~= starts + after);
    assert(after.drop_first() =~= rest);
    assert(after[0] == StageOutcome::Failed);
    law_answered_session_is_silent(LifecycleStage::Ended, rest);
    law_ended_session_stays_ended(rest);
    let stage = stage_after(LifecycleStage::Spawn, starts);
    assert(session_events(stage, after) =~= seq![stage_event(stage, StageOutcome::Failed)->0]);
}

/// A session that has ended stays so.
pub proof fn law_ended_session_stays_ended(rest: Seq<StageOutcome>)
    ensures
        stage_after(LifecycleStage::Ended, rest) == LifecycleStage::Ended,
    decreases rest.len(),
{
    if rest.len() > 0 {
        law_ended_session_stays_ended(rest.drop_first());
    }
}

/// Once the prompt has been answered, the terminals are ended, the agent is asked to
/// clean up and given two seconds to exit, whatever becomes of each; and the agent is
/// killed exactly if it has not exited by then.
pub proof fn law_answered_session_cleans_up(
    terminals: StageOutcome,
    cancel: StageOutcome,
    exited: StageOutcome,
    killed: StageOutcome,
)
    ensures
        stage_after(LifecycleStage::EndTerminals, seq![terminals]) == LifecycleStage::Cancel,
        stage_after(LifecycleStage::EndTerminals, seq![terminals, cancel])
            == LifecycleStage::AwaitExit,
        stage_after(LifecycleStage::EndTerminals, seq![terminals, cancel, exited]) == if exited
            is Failed {
            LifecycleStage::Kill
        } else {
            LifecycleStage::Ended
        },
        stage_after(LifecycleStage::EndTerminals, seq![terminals, cancel, exited, killed])
            == LifecycleStage::Ended,
        EXIT_GRACE_SECS == 2,
{
    reveal_with_fuel(stage_after, 5);
    let one = seq![terminals];
    let two = seq![terminals, cancel];
    let three = seq![terminals, cancel, exited];
    let four = seq![terminals, cancel, exited, killed];
    assert(one.drop_first() =~= Seq::empty());
    assert(two.drop_first() =~= seq![cancel]);
    assert(seq![cancel].drop_first() =~= Seq::empty());
    assert(three.drop_first() =~= seq![cancel, exited]);
    assert(seq![cancel, exited].drop_first() =~= seq![exited]);
    assert(seq![exited].drop_first() =~= Seq::empty());
    assert(four.drop_first() =~= seq![cancel, exited, killed]);
    assert(seq![cancel, exited, killed].drop_first() =~= seq![exited, killed]);
    assert(seq![exited, killed].drop_first() =~= seq![killed]);
    assert(seq![killed].drop_first() =~= Seq::empty());
}

proof fn lemma_no_end_yet(events: Seq<EventView>)
    requires
        forall|i: int|
            0 <= i < events.len() ==> !((#[trigger] events[i]) is Done) && !(events[i] is Failed),
    ensures
        turn_of(events).end is None,
    decreases events.len(),
{
    if events.len() > 0 {
        assert(!(events[events.len() - 1] is Done));
        lemma_no_end_yet(events.drop_last());
    }
}

/// A turn begins with nothing said. While it lasts, a text is added to the end of its
/// output as it is; nothing else changes the output, and nothing but a reason to stop or
/// a failure ends it, as it is given.
pub proof fn law_turn_takes_in_events(events: Seq<EventView>, event: EventView)
    requires
        turn_of(events).end is None,
    ensures
        turn_of(Seq::empty()).output == Seq::<char>::empty(),
        turn_of(Seq::empty()).end is None,
        turn_of(events.push(event)).output == (match event {
            EventView::Text(text) => turn_of(events).output + text,
            _ => turn_of(events).output,
        }),
        turn_of(events.push(event)).end == (match event {
            EventView::Done(reason) => Some(EndView::Done(reason)),
            EventView::Failed(message) => Some(EndView::Failed(message)),
            _ => None,
        }),
{
    assert(events.push(event).drop_last() =~= events);
}

/// Nothing changes a turn that has ended.
pub proof fn law_ended_turn_is_final(turn: TurnView, event: EventView)
    requires
        turn.end is Some,
    ensures
        turn_after(turn, event) == turn,
{
}

/// A turn is a success exactly if the agent gave one of three reasons to stop; one that
/// failed, or whose events stopped without an end, is not.
pub proof fn law_success_is_the_agents(turn: TurnView, message: Seq<char>)
    ensures
        turn.end == Some(EndView::Done(StopReason::EndTurn)) ==> turn_succeeded(turn),
        turn.end == Some(EndView::Done(StopReason::MaxTokens)) ==> turn_succeeded(turn),
        turn.end == Some(EndView::Done(StopReason::MaxTurnRequests)) ==> turn_succeeded(turn),
        turn.end == Some(EndView::Done(StopReason::Refusal)) ==> !turn_succeeded(turn),
        turn.end == Some(EndView::Done(StopReason::Cancelled)) ==> !turn_succeeded(turn),
        turn.end == Some(EndView::Done(StopReason::Other)) ==> !turn_succeeded(turn),
        turn.end == Some(EndView::Failed(message)) ==> !turn_succeeded(turn),
        turn.end is None ==> !turn_succeeded(turn),
{
}

/// One who follows a turn is told of each event as it came, in order: nth of the nth.
pub proof fn law_events_are_told_as_they_came(events: Seq<EventView>, i: int)
    requires
        forall|j: int|
            0 <= j < events.len() ==> !((#[trigger] events[j]) is Done) && !(events[j] is Failed),
        0 <= i < events.len(),
    ensures
        event_calls(events).len() == events.len(),
        events[i] matches EventView::Text(text) ==> event_calls(events)[i] == CallView::Text(text),
        events[i] matches EventView::ToolCall { name, id, input } ==> event_calls(events)[i]
            == (CallView::ToolCall { name, id, input }),
        events[i] matches EventView::ToolResult { id, output } ==> event_calls(events)[i]
            == (CallView::ToolResult { id, output }),
        events[i] matches EventView::Error(message) ==> event_calls(events)[i] == CallView::Error(
            message,
        ),
    decreases events.len(),
{
    let front = events.drop_last();
    lemma_no_end_yet(front);
    if front.len() > 0 {
        if i < front.len() {
            law_events_are_told_as_they_came(front, i);
            assert(front[i] == events[i]);
        } else {
            law_events_are_told_as_they_came(front, 0);
        }
    } else {
        assert(event_calls(front).len() == 0);
    }
}

/// At the end of a turn one who follows it is told of a failure, by its message, and
/// then of the end: with the time it took, one turn, no tokens, the agent's context
/// window, and an error exactly if the agent did not stop by itself or at a limit.
pub proof fn law_end_of_a_turn_is_told(turn: TurnView, duration_ms: u64, context_window: u64)
    ensures
        ({
            let fine = turn.end == Some(EndView::Done(StopReason::EndTurn)) || turn.end == Some(
                EndView::Done(StopReason::MaxTokens),
            ) || turn.end == Some(EndView::Done(StopReason::MaxTurnRequests));
            let calls = end_calls(turn, duration_ms, context_window);
            &&& calls.last() == CallView::Complete(
                SessionResult {
                    duration_ms,
                    num_turns: 1,
                    is_error: !fine,
                    input_tokens: 0,
                    output_tokens: 0,
                    cache_read_tokens: 0,
                    cache_write_tokens: 0,
                    context_window,
                },
            )
            &&& turn.end matches Some(EndView::Failed(message)) ==> calls.len() == 2 && calls[0]
                == CallView::Error("ACP session failed: "@ + message)
            &&& !(turn.end matches Some(EndView::Failed(_))) ==> calls.len() == 1
        }),
{
}

/// All that is told of a turn is what is told of its events, and then of its end.
pub proof fn law_end_comes_after_the_events(
    events: Seq<EventView>,
    duration_ms: u64,
    context_window: u64,
)
    ensures
        ({
            let all = told(events, duration_ms, context_window);
            let n = event_calls(events).len();
            &&& all.take(n as int) == event_calls(events)
            &&& all.skip(n as int) == end_calls(turn_of(events), duration_ms, context_window)
        }),
{
    let all = told(events, duration_ms, context_window);
    let n = event_calls(events).len() as int;
    assert(all.take(n) =~= event_calls(events));
    assert(all.skip(n) =~= end_calls(turn_of(events), duration_ms, context_window));
}

proof fn lemma_first_content_text(content: Seq<ToolCallContent>, i: int)
    requires
        0 <= i < content.len(),
        content[i] matches ToolCallContent::Content(ContentBlock::Text(_)),
        forall|j: int|
            0 <= j < i ==> !((#[trigger] content[j]) matches ToolCallContent::Content(
                ContentBlock::Text(_),
            )),
    ensures
        content[i] matches ToolCallContent::Content(ContentBlock::Text(text))
            && first_content_text(content) == Some(text@),
    decreases i,
{
    if i > 0 {
        let rest = content.drop_first();
        assert(!(content[0] matches ToolCallContent::Content(ContentBlock::Text(_))));
        assert forall|j: int| 0 <= j < i - 1 implies !((
        #[trigger] rest[j]) matches ToolCallContent::Content(ContentBlock::Text(_))) by {
            assert(rest[j] == content[j + 1]);
        }
        lemma_first_content_text(rest, i - 1);
    }
}

proof fn lemma_no_content_text(content: Seq<ToolCallContent>)
    requires
        forall|j: int|
            0 <= j < content.len() ==> !((#[trigger] content[j]) matches ToolCallContent::Content(
                ContentBlock::Text(_),
            )),
    ensures
        first_content_text(content) is None,
    decreases content.len(),
{
    if content.len() > 0 {
        assert(!(content[0] matches ToolCallContent::Content(ContentBlock::Text(_))));
        let rest = content.drop_first();
        assert forall|j: int| 0 <= j < rest.len() implies !((
        #[trigger] rest[j]) matches ToolCallContent::Content(ContentBlock::Text(_))) by {
            assert(rest[j] == content[j + 1]);
        }
        lemma_no_content_text(rest);
    }
}

/// The result of a completed tool call is the first text in its content, whatever its
/// raw output is, and whether or not there is one.
pub proof fn law_tool_result_is_its_first_text(
    tool_call_id: String,
    content: Vec<ToolCallContent>,
    raw_output: Option<Json>,
    i: int,
    text: String,
)
    requires
        0 <= i < content@.len(),
        content@[i] == ToolCallContent::Content(ContentBlock::Text(text)),
        forall|j: int|
            0 <= j < i ==> !((#[trigger] content@[j]) matches ToolCallContent::Content(
                ContentBlock::Text(_),
            )),
    ensures
        event_of(
            SessionUpdate::ToolCallUpdate {
                tool_call_id,
                status: Some(ToolCallStatus::Completed),
                content: Some(content),
                raw_output,
            },
        ) == Some(EventView::ToolResult { id: tool_call_id@, output: text@ }),
{
    lemma_first_content_text(content@, i);
}

/// The result of a completed tool call without a text in its content is its raw output:
/// a string as it is, anything else in JSON notation, and nothing where there is none.
pub proof fn law_tool_result_without_text_is_raw(
    tool_call_id: String,
    content: Option<Vec<ToolCallContent>>,
    raw_output: Option<Json>,
)
    requires
        content matches Some(list) ==> forall|j: int|
            0 <= j < list@.len() ==> !((#[trigger] list@[j]) matches ToolCallContent::Content(
                ContentBlock::Text(_),
            )),
    ensures
        event_of(
            SessionUpdate::ToolCallUpdate {
                tool_call_id,
                status: Some(ToolCallStatus::Completed),
                content,
                raw_output,
            },
        ) == Some(
            EventView::ToolResult {
                id: tool_call_id@,
                output: match raw_output {
                    None => Seq::empty(),
                    Some(output) => match output@ {
                        JsonTree::Text(text) => text,
                        other => compact_text(other),
                    },
                },
            },
        ),
{
    if let Some(list) = content {
        lemma_no_content_text(list@);
    }
}

/// A tool call that is not completed has no result as yet.
pub proof fn law_unfinished_tool_call_has_no_result(
    tool_call_id: String,
    status: Option<ToolCallStatus>,
    content: Option<Vec<ToolCallContent>>,
    raw_output: Option<Json>,
)
    requires
        status != Some(ToolCallStatus::Completed),
    ensures
        event_of(
            SessionUpdate::ToolCallUpdate { tool_call_id, status, content, raw_output },
        ) is None,
{
}

/// What the agent says is passed on as it is; content of another kind is not.
pub proof fn law_agents_words_are_passed_on(text: String)
    ensures
        event_of(SessionUpdate::AgentMessageChunk(ContentBlock::Text(text))) == Some(
            EventView::Text(text@),
        ),
        event_of(SessionUpdate::AgentMessageChunk(ContentBlock::Other)) is None,
        event_of(SessionUpdate::Other) is None,
{
}

/// A tool call is shown with its title, its name and its input: the one that it reports,
/// or else the first place that it is about. One that says neither is not shown.
pub proof fn law_tool_call_shows_its_input(
    title: String,
    tool_call_id: String,
    raw_input: Option<Json>,
    locations: Vec<UnixPath>,
)
    ensures
        ({
            let event = event_of(
                SessionUpdate::ToolCall { title, tool_call_id, raw_input, locations },
            );
            &&& event is None <==> raw_input is None && locations@.len() == 0
            &&& raw_input matches Some(input) ==> event == Some(
                EventView::ToolCall { name: title@, id: tool_call_id@, input: input@ },
            )
            &&& raw_input is None && locations@.len() > 0 ==> event == Some(
                EventView::ToolCall {
                    name: title@,
                    id: tool_call_id@,
                    input: JsonTree::Object(
                        map!["path"@ => JsonTree::Text(lossy_text(locations@[0]@))],
                    ),
                },
            )
        }),
{
    assert(Map::<Seq<char>, JsonTree>::empty().insert(
        "path"@,
        JsonTree::Text(lossy_text(locations@[0]@)),
    ) =~= map!["path"@ => JsonTree::Text(lossy_text(locations@[0]@))]);
}

/// A plan is shown under a heading, with a line for each entry, in order: one entry
/// more adds its line at the end. A plan without entries is not shown.
pub proof fn law_plan_shows_its_entries(plan: Vec<String>, longer: Vec<String>, entry: String)
    requires
        longer@ == plan@.push(entry),
    ensures
        plan@.len() == 0 ==> event_of(SessionUpdate::Plan(plan)) is None,
        plan@.len() == 0 ==> event_of(SessionUpdate::Plan(longer)) == Some(
            EventView::Text("\n## Plan\n"@ + "- "@ + entry@ + "\n"@),
        ),
        plan@.len() > 0 ==> (event_of(SessionUpdate::Plan(plan)) matches Some(
            EventView::Text(text),
        ) && event_of(SessionUpdate::Plan(longer)) == Some(
            EventView::Text(text + "- "@ + entry@ + "\n"@),
        )),
{
    let lines = plan_lines(plan@);
    let more = plan_lines(longer@);
    assert(more =~= lines.push("- "@ + entry@));
    assert(more.drop_last() =~= lines);
    if plan@.len() == 0 {
        assert("\n## Plan\n"@ + joined(more, "\n"@) + "\n"@ =~= "\n## Plan\n"@ + "- "@ + entry@
            + "\n"@);
    } else {
        assert("\n## Plan\n"@ + joined(more, "\n"@) + "\n"@ =~= "\n## Plan\n"@ + joined(
            lines,
            "\n"@,
        ) + "\n"@ + "- "@ + entry@ + "\n"@);
    }
}

/// Every request for permission is granted: by the first option that is offered, or,
/// where none is, by an option that says so.
pub proof fn law_permission_is_granted(options: Seq<String>)
    ensures
        options.len() > 0 ==> granted_option(options) == options[0]@,
        options.len() == 0 ==> granted_option(options) == "allowed"@,
{
}

/// The text of a JSON string is its characters.
pub proof fn law_plain_text_of_a_string(text: Seq<char>, other: JsonTree)
    ensures
        plain_text(JsonTree::Text(text)) == text,
        !(other is Text) ==> plain_text(other) == compact_text(other),
{
}

/// What a turn's failure is announced as keeps the reason.
pub proof fn law_failure_keeps_its_reason(turn: TurnView, message: Seq<char>)
    requires
        turn.end == Some(EndView::Failed(message)),
    ensures
        failure_notice(turn) matches Some(notice) && notice.skip(notice.len() - message.len())
            == message,
{
    let notice = "ACP session failed: "@ + message;
    assert(notice.skip(notice.len() - message.len()) =~= message);
}

/// An event that is sent holds what it was made of.
pub proof fn law_event_holds_what_it_was_made_of(
    text: String,
    name: String,
    id: String,
    input: Json,
    reason: StopReason,
)
    ensures
        event_view(Some(AcpEvent::Text(text))) == Some(EventView::Text(text@)),
        event_view(Some(AcpEvent::ToolCall { name, id, input })) == Some(
            EventView::ToolCall { name: name@, id: id@, input: input@ },
        ),
        event_view(Some(AcpEvent::ToolResult { id, output: text })) == Some(
            EventView::ToolResult { id: id@, output: text@ },
        ),
        event_view(Some(AcpEvent::Error(text))) == Some(EventView::Error(text@)),
        event_view(Some(AcpEvent::Done(reason))) == Some(EventView::Done(reason)),
        event_view(Some(AcpEvent::Failed(text))) == Some(EventView::Failed(text@)),
        event_view(None) is None,
{
}

/// One who follows a turn is handed what the call holds.
pub proof fn law_call_holds_what_it_was_made_of(
    text: String,
    name: String,
    id: String,
    input: Json,
    result: SessionResult,
    calls: Seq<HandlerCall>,
    i: int,
)
    requires
        0 <= i < calls.len(),
    ensures
        HandlerCall::Text(text)@ == CallView::Text(text@),
        (HandlerCall::ToolCall { name, id, input })@ == (CallView::ToolCall {
            name: name@,
            id: id@,
            input: input@,
        }),
        (HandlerCall::ToolResult { id, output: text })@ == (CallView::ToolResult {
            id: id@,
            output: text@,
        }),
        HandlerCall::Error(text)@ == CallView::Error(text@),
        HandlerCall::Complete(result)@ == CallView::Complete(result),
        HandlerCall::Nothing@ is Nothing,
        call_views(calls).len() == calls.len(),
        call_views(calls)[i] == calls[i]@,
{
}

/// Nothing but a failure disturbs the course of a session, and nothing but the prompt and
/// a failure before its answer sends anything.
pub proof fn law_only_failure_disturbs(stage: LifecycleStage, reason: StopReason)
    requires
        !(stage is Prompt),
    ensures
        next_stage(stage, StageOutcome::Answered(reason)) == next_stage(
            stage,
            StageOutcome::Succeeded,
        ),
        stage_event(stage, StageOutcome::Answered(reason)) is None,
        stage_event(stage, StageOutcome::Succeeded) is None,
{
}

} // verus!
