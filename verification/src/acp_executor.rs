//! The executor for agents that speak the Agent Client Protocol: the course of a
//! session, and what the events of one prompt turn come to.

use crate::exit_status::text_view;
use crate::json::{Json, JsonTree};
use crate::paths::UnixPath;
use crate::session::{event_of, event_view, AcpEvent, EventView, SessionUpdate, StopReason};
use vstd::prelude::*;
use vstd::string::StringExecFns;

verus! {

/// The command that an agent is started with.
#[derive(Debug)]
pub struct CliBackend {
    pub command: String,
    pub args: Vec<String>,
}

/// Runs prompts against an agent, in a workspace.
#[derive(Debug)]
pub struct AcpExecutor {
    backend: CliBackend,
    workspace_root: UnixPath,
    context_window: u64,
}

impl AcpExecutor {
    /// The command that the agent is started with.
    pub closed spec fn spec_backend(self) -> CliBackend {
        self.backend
    }

    /// The directory that the agent works in.
    pub closed spec fn spec_workspace_root(self) -> Seq<u8> {
        self.workspace_root@
    }

    /// The number of tokens that the agent's context holds; zero if unknown.
    pub closed spec fn spec_context_window(self) -> u64 {
        self.context_window
    }

    /// An executor that knows nothing of the agent's context window.
    pub fn new(backend: CliBackend, workspace_root: UnixPath) -> (executor: AcpExecutor)
        ensures
            executor.spec_backend() == backend,
            executor.spec_workspace_root() == workspace_root@,
            executor.spec_context_window() == 0,
    {
        AcpExecutor { backend, workspace_root, context_window: 0 }
    }

    /// Sets the number of tokens that the agent's context holds.
    pub fn set_context_window(&mut self, context_window: u64)
        ensures
            final(self).spec_context_window() == context_window,
            final(self).spec_backend() == old(self).spec_backend(),
            final(self).spec_workspace_root() == old(self).spec_workspace_root(),
    {
        self.context_window = context_window;
    }

    /// The command that the agent is started with.
    pub fn backend(&self) -> (backend: &CliBackend)
        ensures
            *backend == self.spec_backend(),
    {
        &self.backend
    }

    /// The directory that the agent works in.
    pub fn workspace_root(&self) -> (root: &UnixPath)
        ensures
            root@ == self.spec_workspace_root(),
    {
        &self.workspace_root
    }

    /// The number of tokens that the agent's context holds; zero if unknown.
    pub fn context_window(&self) -> (tokens: u64)
        ensures
            tokens == self.spec_context_window(),
    {
        self.context_window
    }
}

/// How a turn ended.
#[derive(Debug)]
pub enum TurnEnd {
    Done(StopReason),
    Failed(String),
}

/// How a turn ended, by its content.
pub enum EndView {
    Done(StopReason),
    Failed(Seq<char>),
}

/// A turn, by its content.
pub struct TurnView {
    pub output: Seq<char>,
    pub end: Option<EndView>,
}

/// What a handler is to be told.
#[derive(Debug)]
pub enum HandlerCall {
    Text(String),
    ToolCall { name: String, id: String, input: Json },
    ToolResult { id: String, output: String },
    Error(String),
    /// The turn is over.
    Complete(SessionResult),
    Nothing,
}

/// What a handler is to be told, by its content.
pub enum CallView {
    Text(Seq<char>),
    ToolCall { name: Seq<char>, id: Seq<char>, input: JsonTree },
    ToolResult { id: Seq<char>, output: Seq<char> },
    Error(Seq<char>),
    Complete(SessionResult),
    Nothing,
}

impl HandlerCall {
    pub open spec fn view(self) -> CallView {
        match self {
            HandlerCall::Text(text) => CallView::Text(text@),
            HandlerCall::ToolCall { name, id, input } => CallView::ToolCall {
                name: name@,
                id: id@,
                input: input@,
            },
            HandlerCall::ToolResult { id, output } => CallView::ToolResult {
                id: id@,
                output: output@,
            },
            HandlerCall::Error(message) => CallView::Error(message@),
            HandlerCall::Complete(result) => CallView::Complete(result),
            HandlerCall::Nothing => CallView::Nothing,
        }
    }
}

/// What a handler is told of an event: everything but the end of the turn.
pub open spec fn handler_call(event: EventView) -> CallView {
    match event {
        EventView::Text(text) => CallView::Text(text),
        EventView::ToolCall { name, id, input } => CallView::ToolCall { name, id, input },
        EventView::ToolResult { id, output } => CallView::ToolResult { id, output },
        EventView::Error(message) => CallView::Error(message),
        EventView::Done(_) | EventView::Failed(_) => CallView::Nothing,
    }
}

/// A turn after an event. Once it has ended, nothing changes it.
pub open spec fn turn_after(turn: TurnView, event: EventView) -> TurnView {
    if turn.end is Some {
        turn
    } else {
        match event {
            EventView::Text(text) => TurnView { output: turn.output + text, ..turn },
            EventView::Done(reason) => TurnView { end: Some(EndView::Done(reason)), ..turn },
            EventView::Failed(message) => TurnView { end: Some(EndView::Failed(message)), ..turn },
            _ => turn,
        }
    }
}

/// A turn that has just begun.
pub open spec fn fresh_turn() -> TurnView {
    TurnView { output: Seq::empty(), end: None }
}

/// The turn that a sequence of events makes.
pub open spec fn turn_of(events: Seq<EventView>) -> TurnView
    decreases events.len(),
{
    if events.len() == 0 {
        fresh_turn()
    } else {
        turn_after(turn_of(events.drop_last()), events.last())
    }
}

/// The texts of a sequence of events, put together.
pub open spec fn streamed_text(events: Seq<EventView>) -> Seq<char>
    decreases events.len(),
{
    if events.len() == 0 {
        Seq::empty()
    } else {
        match events.last() {
            EventView::Text(text) => streamed_text(events.drop_last()) + text,
            _ => streamed_text(events.drop_last()),
        }
    }
}

/// Whether an event ends the turn.
pub open spec fn ends_turn(event: EventView) -> bool {
    event is Done || event is Failed
}

/// While a turn lasts, its output is the text that was streamed.
pub proof fn law_output_is_streamed_text(events: Seq<EventView>)
    requires
        forall|i: int| 0 <= i < events.len() ==> !ends_turn(#[trigger] events[i]),
    ensures
        turn_of(events).end is None,
        turn_of(events).output == streamed_text(events),
    decreases events.len(),
{
    if events.len() > 0 {
        law_output_is_streamed_text(events.drop_last());
        assert(!ends_turn(events[events.len() - 1]));
    }
}

/// The first event that ends a turn decides how it ended; what comes later is not
/// looked at.
pub proof fn law_first_end_decides(
    before: Seq<EventView>,
    end: EventView,
    later: Seq<EventView>,
)
    requires
        forall|i: int| 0 <= i < before.len() ==> !ends_turn(#[trigger] before[i]),
        ends_turn(end),
    ensures
        turn_of(before.push(end) + later) == (TurnView {
            output: streamed_text(before),
            end: Some(
                match end {
                    EventView::Failed(message) => EndView::Failed(message),
                    _ => EndView::Done(end->Done_0),
                },
            ),
        }),
    decreases later.len(),
{
    law_output_is_streamed_text(before);
    assert(before.push(end).drop_last() =~= before);
    if later.len() == 0 {
        assert(before.push(end) + later =~= before.push(end));
    } else {
        let all = before.push(end) + later;
        assert(all.drop_last() =~= before.push(end) + later.drop_last());
        law_first_end_decides(before, end, later.drop_last());
    }
}

/// One prompt turn, as far as it has come.
#[derive(Debug)]
pub struct Turn {
    output: String,
    end: Option<TurnEnd>,
}

impl Turn {
    pub closed spec fn view(self) -> TurnView {
        TurnView {
            output: self.output@,
            end: match self.end {
                Some(TurnEnd::Done(reason)) => Some(EndView::Done(reason)),
                Some(TurnEnd::Failed(message)) => Some(EndView::Failed(message@)),
                None => None,
            },
        }
    }

    /// A turn that has just begun.
    pub fn new() -> (turn: Turn)
        ensures
            turn@ == fresh_turn(),
    {
        let turn = Turn { output: String::new(), end: None };
        assert(turn@.output =~= Seq::empty());
        turn
    }

    /// Whether the turn has ended.
    pub fn is_over(&self) -> (over: bool)
        ensures
            over == (self@.end is Some),
    {
        self.end.is_some()
    }

    /// The text that was streamed so far.
    pub fn output(&self) -> (output: &str)
        ensures
            output@ == self@.output,
    {
        self.output.as_str()
    }

    /// Takes in an event, and says what a handler is to be told of it.
    pub fn take(&mut self, event: AcpEvent) -> (call: HandlerCall)
        requires
            old(self)@.end is None,
        ensures
            final(self)@ == turn_after(old(self)@, event@),
            call@ == handler_call(event@),
    {
        match event {
            AcpEvent::Text(text) => {
                self.output.append(text.as_str());
                HandlerCall::Text(text)
            },
            AcpEvent::ToolCall { name, id, input } => HandlerCall::ToolCall { name, id, input },
            AcpEvent::ToolResult { id, output } => HandlerCall::ToolResult { id, output },
            AcpEvent::Error(message) => HandlerCall::Error(message),
            AcpEvent::Done(reason) => {
                self.end = Some(TurnEnd::Done(reason));
                HandlerCall::Nothing
            },
            AcpEvent::Failed(message) => {
                self.end = Some(TurnEnd::Failed(message));
                HandlerCall::Nothing
            },
        }
    }
}

/// Whether a turn was a success: the agent stopped by itself, or at a limit.
pub open spec fn turn_succeeded(turn: TurnView) -> bool {
    match turn.end {
        Some(EndView::Done(reason)) => reason is EndTurn || reason is MaxTokens || reason
            is MaxTurnRequests,
        _ => false,
    }
}

/// What a handler is told of a turn that failed.
pub open spec fn failure_notice(turn: TurnView) -> Option<Seq<char>> {
    match turn.end {
        Some(EndView::Failed(message)) => Some("ACP session failed: "@ + message),
        _ => None,
    }
}

/// What a handler is told at the end of a turn. This protocol reports no tokens.
#[derive(Clone, Copy, Debug, PartialEq, Eq, Structural)]
pub struct SessionResult {
    pub duration_ms: u64,
    pub num_turns: u32,
    pub is_error: bool,
    pub input_tokens: u64,
    pub output_tokens: u64,
    pub cache_read_tokens: u64,
    pub cache_write_tokens: u64,
    pub context_window: u64,
}

/// How a run came to its end.
#[derive(Clone, Copy, Debug, PartialEq, Eq, Structural)]
pub enum TerminationType {
    /// It ended by itself.
    Natural,
    /// It was ended from outside.
    Interrupted,
}

/// What a turn came to. This protocol reports no tokens.
#[derive(Debug)]
pub struct TurnResult {
    pub output: String,
    pub stripped_output: String,
    pub extracted_text: String,
    pub success: bool,
    pub exit_code: Option<i32>,
    pub termination: TerminationType,
    pub input_tokens: u64,
    pub output_tokens: u64,
    pub cache_read_tokens: u64,
    pub cache_write_tokens: u64,
    pub num_turns: u32,
}

/// What is left to do when a turn is over: tell the handler the rest, in order, and
/// return the result.
#[derive(Debug)]
pub struct TurnReport {
    pub calls: Vec<HandlerCall>,
    pub result: TurnResult,
}

/// The end of a turn, as a handler is told.
pub open spec fn session_result(
    turn: TurnView,
    duration_ms: u64,
    context_window: u64,
) -> SessionResult {
    SessionResult {
        duration_ms,
        num_turns: 1,
        is_error: !turn_succeeded(turn),
        input_tokens: 0,
        output_tokens: 0,
        cache_read_tokens: 0,
        cache_write_tokens: 0,
        context_window,
    }
}

/// What a handler is told when a turn is over: of a failure, and then of the end.
pub open spec fn end_calls(
    turn: TurnView,
    duration_ms: u64,
    context_window: u64,
) -> Seq<CallView> {
    let complete = CallView::Complete(session_result(turn, duration_ms, context_window));
    match failure_notice(turn) {
        Some(notice) => seq![CallView::Error(notice), complete],
        None => seq![complete],
    }
}

/// Calls, by their content.
pub open spec fn call_views(calls: Seq<HandlerCall>) -> Seq<CallView> {
    calls.map_values(|call: HandlerCall| call@)
}

/// What a handler is told of the events of a turn, up to the one that ends it.
pub open spec fn event_calls(events: Seq<EventView>) -> Seq<CallView>
    decreases events.len(),
{
    if events.len() == 0 {
        Seq::empty()
    } else if turn_of(events.drop_last()).end is Some {
        event_calls(events.drop_last())
    } else {
        event_calls(events.drop_last()).push(handler_call(events.last()))
    }
}

/// All that a handler is told of a turn.
pub open spec fn told(
    events: Seq<EventView>,
    duration_ms: u64,
    context_window: u64,
) -> Seq<CallView> {
    event_calls(events) + end_calls(turn_of(events), duration_ms, context_window)
}

proof fn lemma_events_tell_no_end(events: Seq<EventView>)
    ensures
        forall|i: int|
            0 <= i < event_calls(events).len() ==> !((#[trigger] event_calls(events)[i])
                is Complete),
    decreases events.len(),
{
    if events.len() > 0 {
        lemma_events_tell_no_end(events.drop_last());
    }
}

/// A handler is told of the end of a turn once, and last: whether the turn was an
/// error, the context window, one turn, and no tokens.
pub proof fn law_end_is_told_once_and_last(
    events: Seq<EventView>,
    duration_ms: u64,
    context_window: u64,
)
    ensures
        ({
            let calls = told(events, duration_ms, context_window);
            &&& calls.len() > 0
            &&& calls.last() == CallView::Complete(
                session_result(turn_of(events), duration_ms, context_window),
            )
            &&& forall|i: int| 0 <= i < calls.len() - 1 ==> !((#[trigger] calls[i]) is Complete)
        }),
{
    let calls = told(events, duration_ms, context_window);
    let first = event_calls(events);
    lemma_events_tell_no_end(events);
    assert forall|i: int| 0 <= i < calls.len() - 1 implies !((#[trigger] calls[i]) is Complete) by {
        if i < first.len() {
            assert(calls[i] == first[i]);
        }
    }
}

impl AcpExecutor {
    /// Concludes a turn. One whose events stopped without an end is a failure
    /// without a message. A turn of this protocol always ends by itself.
    pub fn conclude(&self, turn: Turn, duration_ms: u64) -> (report: TurnReport)
        ensures
            call_views(report.calls@) == end_calls(
                turn@,
                duration_ms,
                self.spec_context_window(),
            ),
            report.result.output@ == turn@.output,
            report.result.stripped_output@ == turn@.output,
            report.result.extracted_text@ == turn@.output,
            report.result.success == turn_succeeded(turn@),
            report.result.exit_code == Some(
                if turn_succeeded(turn@) {
                    0i32
                } else {
                    1i32
                },
            ),
            report.result.termination == TerminationType::Natural,
            report.result.input_tokens == 0,
            report.result.output_tokens == 0,
            report.result.cache_read_tokens == 0,
            report.result.cache_write_tokens == 0,
            report.result.num_turns == 1,
    {
        let success = match &turn.end {
            Some(TurnEnd::Done(reason)) => match reason {
                StopReason::EndTurn | StopReason::MaxTokens | StopReason::MaxTurnRequests => true,
                _ => false,
            },
            _ => false,
        };
        let mut calls: Vec<HandlerCall> = Vec::new();
        if let Some(TurnEnd::Failed(message)) = &turn.end {
            let mut notice = "ACP session failed: ".to_owned();
            notice.append(message.as_str());
            calls.push(HandlerCall::Error(notice));
        }
        calls.push(
            HandlerCall::Complete(
                SessionResult {
                    duration_ms,
                    num_turns: 1,
                    is_error: !success,
                    input_tokens: 0,
                    output_tokens: 0,
                    cache_read_tokens: 0,
                    cache_write_tokens: 0,
                    context_window: self.context_window,
                },
            ),
        );
        assert(call_views(calls@) =~= end_calls(turn@, duration_ms, self.spec_context_window()));
        TurnReport {
            calls,
            result: TurnResult {
                output: turn.output.clone(),
                stripped_output: turn.output.clone(),
                extracted_text: turn.output,
                success,
                exit_code: if success {
                    Some(0)
                } else {
                    Some(1)
                },
                termination: TerminationType::Natural,
                input_tokens: 0,
                output_tokens: 0,
                cache_read_tokens: 0,
                cache_write_tokens: 0,
                num_turns: 1,
            },
        }
    }
}

/// How long an agent is given to exit after its session was cancelled, in seconds.
pub const EXIT_GRACE_SECS: u64 = 2;

/// What a session is about to do.
#[derive(Clone, Copy, Debug, PartialEq, Eq, Structural)]
pub enum LifecycleStage {
    Spawn,
    TakeStdin,
    TakeStdout,
    Initialize,
    NewSession,
    /// Send the prompt, and report how the turn ended.
    Prompt,
    /// End all terminals that are left.
    EndTerminals,
    /// Ask the agent to clean up.
    Cancel,
    /// Give the agent time to exit.
    AwaitExit,
    Kill,
    Ended,
}

/// The message of a session that fails at a stage; nothing for a stage at which
/// failure does not matter.
pub open spec fn failure_message(stage: LifecycleStage) -> Option<Seq<char>> {
    match stage {
        LifecycleStage::Spawn => Some("Failed to spawn ACP process"@),
        LifecycleStage::TakeStdin => Some("No stdin"@),
        LifecycleStage::TakeStdout => Some("No stdout"@),
        LifecycleStage::Initialize => Some("ACP initialize failed"@),
        LifecycleStage::NewSession => Some("ACP session/new failed"@),
        LifecycleStage::Prompt => Some("ACP session/prompt failed"@),
        _ => None,
    }
}

/// What became of a stage.
#[derive(Clone, Copy, Debug, PartialEq, Eq, Structural)]
pub enum StageOutcome {
    Succeeded,
    /// The prompt was answered, and the turn ended for a reason.
    Answered(StopReason),
    Failed,
}

/// Whether an outcome is one that a stage can have: a prompt that succeeds is answered.
pub open spec fn outcome_fits(stage: LifecycleStage, outcome: StageOutcome) -> bool {
    stage is Prompt ==> !(outcome is Succeeded)
}

/// Whether an outcome ends the session with a failure.
pub open spec fn breaks_session(stage: LifecycleStage, outcome: StageOutcome) -> bool {
    outcome is Failed && failure_message(stage) is Some
}

/// The event that a stage gives rise to, if any.
pub open spec fn stage_event(stage: LifecycleStage, outcome: StageOutcome) -> Option<EventView> {
    if breaks_session(stage, outcome) {
        Some(EventView::Failed(failure_message(stage)->0))
    } else {
        match (stage, outcome) {
            (LifecycleStage::Prompt, StageOutcome::Answered(reason)) => Some(
                EventView::Done(reason),
            ),
            _ => None,
        }
    }
}

/// The stage that follows another.
pub open spec fn next_stage(stage: LifecycleStage, outcome: StageOutcome) -> LifecycleStage {
    if breaks_session(stage, outcome) {
        LifecycleStage::Ended
    } else {
        match stage {
            LifecycleStage::Spawn => LifecycleStage::TakeStdin,
            LifecycleStage::TakeStdin => LifecycleStage::TakeStdout,
            LifecycleStage::TakeStdout => LifecycleStage::Initialize,
            LifecycleStage::Initialize => LifecycleStage::NewSession,
            LifecycleStage::NewSession => LifecycleStage::Prompt,
            LifecycleStage::Prompt => LifecycleStage::EndTerminals,
            LifecycleStage::EndTerminals => LifecycleStage::Cancel,
            LifecycleStage::Cancel => LifecycleStage::AwaitExit,
            LifecycleStage::AwaitExit => if outcome is Failed {
                LifecycleStage::Kill
            } else {
                LifecycleStage::Ended
            },
            LifecycleStage::Kill => LifecycleStage::Ended,
            LifecycleStage::Ended => LifecycleStage::Ended,
        }
    }
}

/// The message of a session that fails at a stage, where failure matters.
fn failure_text(stage: LifecycleStage) -> (message: Option<String>)
    ensures
        text_view(message) == failure_message(stage),
{
    match stage {
        LifecycleStage::Spawn => Some("Failed to spawn ACP process".to_owned()),
        LifecycleStage::TakeStdin => Some("No stdin".to_owned()),
        LifecycleStage::TakeStdout => Some("No stdout".to_owned()),
        LifecycleStage::Initialize => Some("ACP initialize failed".to_owned()),
        LifecycleStage::NewSession => Some("ACP session/new failed".to_owned()),
        LifecycleStage::Prompt => Some("ACP session/prompt failed".to_owned()),
        _ => None,
    }
}

impl LifecycleStage {
    /// What follows a stage, and the event that is to be sent before it.
    pub fn next(self, outcome: StageOutcome) -> (next: (LifecycleStage, Option<AcpEvent>))
        requires
            outcome_fits(self, outcome),
        ensures
            next.0 == next_stage(self, outcome),
            event_view(next.1) == stage_event(self, outcome),
            self is Prompt ==> (outcome matches StageOutcome::Answered(reason) ==> next.1 == Some(
                AcpEvent::Done(reason),
            )),
    {
        if let StageOutcome::Failed = outcome {
            if let Some(message) = failure_text(self) {
                return (LifecycleStage::Ended, Some(AcpEvent::Failed(message)));
            }
        }
        match self {
            LifecycleStage::Spawn => (LifecycleStage::TakeStdin, None),
            LifecycleStage::TakeStdin => (LifecycleStage::TakeStdout, None),
            LifecycleStage::TakeStdout => (LifecycleStage::Initialize, None),
            LifecycleStage::Initialize => (LifecycleStage::NewSession, None),
            LifecycleStage::NewSession => (LifecycleStage::Prompt, None),
            LifecycleStage::Prompt => (
                LifecycleStage::EndTerminals,
                match outcome {
                    StageOutcome::Answered(reason) => Some(AcpEvent::Done(reason)),
                    _ => None,
                },
            ),
            LifecycleStage::EndTerminals => (LifecycleStage::Cancel, None),
            LifecycleStage::Cancel => (LifecycleStage::AwaitExit, None),
            LifecycleStage::AwaitExit => (
                match outcome {
                    StageOutcome::Failed => LifecycleStage::Kill,
                    _ => LifecycleStage::Ended,
                },
                None,
            ),
            LifecycleStage::Kill => (LifecycleStage::Ended, None),
            LifecycleStage::Ended => (LifecycleStage::Ended, None),
        }
    }
}

/// Whether a stage comes after the prompt was answered.
pub open spec fn after_prompt(stage: LifecycleStage) -> bool {
    match stage {
        LifecycleStage::EndTerminals | LifecycleStage::Cancel | LifecycleStage::AwaitExit
        | LifecycleStage::Kill | LifecycleStage::Ended => true,
        _ => false,
    }
}

/// The stage that a session is at after a number of outcomes.
pub open spec fn stage_after(stage: LifecycleStage, outcomes: Seq<StageOutcome>) -> LifecycleStage
    decreases outcomes.len(),
{
    if outcomes.len() == 0 {
        stage
    } else {
        stage_after(next_stage(stage, outcomes[0]), outcomes.drop_first())
    }
}

/// The events that a session sends from a stage on.
pub open spec fn session_events(stage: LifecycleStage, outcomes: Seq<StageOutcome>) -> Seq<
    EventView,
>
    decreases outcomes.len(),
{
    if outcomes.len() == 0 {
        Seq::empty()
    } else {
        let rest = session_events(next_stage(stage, outcomes[0]), outcomes.drop_first());
        match stage_event(stage, outcomes[0]) {
            Some(event) => seq![event] + rest,
            None => rest,
        }
    }
}

/// Whether each outcome is one that its stage can have.
pub open spec fn outcomes_fit(stage: LifecycleStage, outcomes: Seq<StageOutcome>) -> bool
    decreases outcomes.len(),
{
    outcomes.len() > 0 ==> outcome_fits(stage, outcomes[0]) && outcomes_fit(
        next_stage(stage, outcomes[0]),
        outcomes.drop_first(),
    )
}

/// What an agent notifies of in the course of a session does not end its turn.
pub proof fn law_notifications_do_not_end_turn(update: SessionUpdate)
    ensures
        event_of(update) matches Some(event) ==> !ends_turn(event),
{
}

/// Once the prompt has been answered, or the session has failed, it sends nothing more.
pub proof fn law_answered_session_is_silent(stage: LifecycleStage, outcomes: Seq<StageOutcome>)
    requires
        after_prompt(stage),
    ensures
        session_events(stage, outcomes) == Seq::<EventView>::empty(),
        after_prompt(stage_after(stage, outcomes)),
    decreases outcomes.len(),
{
    if outcomes.len() > 0 {
        law_answered_session_is_silent(
            next_stage(stage, outcomes[0]),
            outcomes.drop_first(),
        );
    }
}

/// A session sends one event that ends its turn, and no other: as soon as the prompt
/// has been answered or a stage has failed, and not before.
pub proof fn law_session_ends_turn_once(stage: LifecycleStage, outcomes: Seq<StageOutcome>)
    requires
        !after_prompt(stage),
        outcomes_fit(stage, outcomes),
    ensures
        after_prompt(stage_after(stage, outcomes)) ==> session_events(stage, outcomes).len() == 1
            && ends_turn(session_events(stage, outcomes)[0]),
        !after_prompt(stage_after(stage, outcomes)) ==> session_events(stage, outcomes).len() == 0,
    decreases outcomes.len(),
{
    if outcomes.len() > 0 {
        let next = next_stage(stage, outcomes[0]);
        if after_prompt(next) {
            law_answered_session_is_silent(next, outcomes.drop_first());
            assert(stage_event(stage, outcomes[0]) is Some);
        } else {
            law_session_ends_turn_once(next, outcomes.drop_first());
        }
    }
}

} // verus!
