use ralph_robot::acp_executor::{
    AcpExecutor, CliBackend, HandlerCall, LifecycleStage, SessionResult, StageOutcome,
    TerminationType, Turn, TurnReport, EXIT_GRACE_SECS,
};
use ralph_robot::json::Json;
use ralph_robot::paths::UnixPath;
use ralph_robot::session::{AcpEvent, StopReason};

fn executor() -> AcpExecutor {
    let backend = CliBackend { command: "kiro-cli".to_string(), args: vec!["acp".to_string()] };
    AcpExecutor::new(backend, UnixPath::from_text("/tmp"))
}

fn report_of(events: Vec<AcpEvent>) -> TurnReport {
    let mut turn = Turn::new();
    for event in events {
        if turn.is_over() {
            break;
        }
        turn.take(event);
    }
    executor().conclude(turn, 12)
}

/// The notice of a failure, if the handler is told of one before the end.
fn failure(report: &TurnReport) -> Option<String> {
    match report.calls.as_slice() {
        [HandlerCall::Complete(_)] => None,
        [HandlerCall::Error(notice), HandlerCall::Complete(_)] => Some(notice.clone()),
        other => panic!("unexpected calls: {other:?}"),
    }
}

/// The end of the turn, as the handler is told last.
fn session(report: &TurnReport) -> SessionResult {
    match report.calls.last() {
        Some(HandlerCall::Complete(result)) => *result,
        other => panic!("unexpected call: {other:?}"),
    }
}

#[test]
fn test_acp_executor_new() {
    let backend = CliBackend { command: "kiro-cli".to_string(), args: vec!["acp".to_string()] };
    let executor = AcpExecutor::new(backend, UnixPath::from_text("/tmp"));
    assert_eq!(executor.backend().command, "kiro-cli");
    assert_eq!(executor.workspace_root().as_bytes(), b"/tmp");
}

#[test]
fn the_context_window_is_unknown_until_it_is_set() {
    let mut executor = executor();
    assert_eq!(executor.context_window(), 0);
    executor.set_context_window(200_000);
    assert_eq!(executor.context_window(), 200_000);
    assert_eq!(executor.backend().command, "kiro-cli");
    let report = executor.conclude(Turn::new(), 5);
    assert_eq!(session(&report).context_window, 200_000);
    assert_eq!(session(&report).duration_ms, 5);
}

/// A failed session gives a graceful error.
#[test]
fn test_acp_failed_event_returns_error_not_panic() {
    let mut turn = Turn::new();
    turn.take(AcpEvent::Text("partial output".to_string()));
    turn.take(AcpEvent::Failed("session/prompt failed".to_string()));
    assert!(turn.is_over());
    assert!(turn.output().contains("partial"));

    let report = executor().conclude(turn, 1);
    assert!(failure(&report).is_some());
    assert!(failure(&report).unwrap().contains("session/prompt failed"));
    assert!(!report.result.success);
}

#[test]
fn the_handler_is_told_of_each_event() {
    let mut turn = Turn::new();
    assert!(matches!(turn.take(AcpEvent::Text("a".to_string())), HandlerCall::Text(t) if t == "a"));
    let call = AcpEvent::ToolCall {
        name: "ls".to_string(),
        id: "1".to_string(),
        input: Json::Unsigned(3),
    };
    match turn.take(call) {
        HandlerCall::ToolCall { name, id, input } => {
            assert_eq!(name, "ls");
            assert_eq!(id, "1");
            assert_eq!(input.as_i64(), Some(3));
        }
        other => panic!("unexpected call: {other:?}"),
    }
    let result = AcpEvent::ToolResult { id: "1".to_string(), output: "x".to_string() };
    assert!(matches!(
        turn.take(result),
        HandlerCall::ToolResult { id, output } if id == "1" && output == "x"
    ));
    assert!(matches!(
        turn.take(AcpEvent::Error("bad".to_string())),
        HandlerCall::Error(e) if e == "bad"
    ));
    assert!(!turn.is_over());
    assert!(matches!(turn.take(AcpEvent::Done(StopReason::EndTurn)), HandlerCall::Nothing));
    assert!(turn.is_over());
    assert_eq!(turn.output(), "a");
}

#[test]
fn a_turn_succeeds_when_the_agent_stops_by_itself_or_at_a_limit() {
    for reason in [StopReason::EndTurn, StopReason::MaxTokens, StopReason::MaxTurnRequests] {
        let report = report_of(vec![AcpEvent::Text("hi".to_string()), AcpEvent::Done(reason)]);
        assert!(report.result.success);
        assert!(!session(&report).is_error);
        assert_eq!(report.result.exit_code, Some(0));
        assert_eq!(failure(&report), None);
        assert_eq!(report.result.output, "hi");
        assert_eq!(report.result.stripped_output, "hi");
        assert_eq!(report.result.extracted_text, "hi");
        assert_eq!(report.result.num_turns, 1);
        assert_eq!(report.result.termination, TerminationType::Natural);
    }
    for reason in [StopReason::Refusal, StopReason::Cancelled, StopReason::Other] {
        let report = report_of(vec![AcpEvent::Done(reason)]);
        assert!(!report.result.success);
        assert!(session(&report).is_error);
        assert_eq!(report.result.exit_code, Some(1));
        assert_eq!(failure(&report), None);
    }
}

#[test]
fn events_that_stop_without_an_end_are_a_failure_without_a_message() {
    let report = report_of(vec![AcpEvent::Text("half".to_string())]);
    assert!(!report.result.success);
    assert_eq!(failure(&report), None);
    assert_eq!(report.result.output, "half");
}

#[test]
fn the_first_end_decides() {
    let report = report_of(vec![
        AcpEvent::Text("one ".to_string()),
        AcpEvent::Text("two".to_string()),
        AcpEvent::Done(StopReason::EndTurn),
        AcpEvent::Failed("late".to_string()),
        AcpEvent::Text(" three".to_string()),
    ]);
    assert!(report.result.success);
    assert_eq!(report.result.output, "one two");
    assert_eq!(session(&report).duration_ms, 12);
}

#[test]
fn a_failure_is_announced() {
    let report = report_of(vec![AcpEvent::Failed("No stdin".to_string())]);
    assert_eq!(failure(&report), Some("ACP session failed: No stdin".to_string()));
    assert_eq!(report.result.exit_code, Some(1));
}

#[test]
fn a_session_runs_through_its_stages() {
    let mut stage = LifecycleStage::Spawn;
    let mut seen = vec![stage];
    let mut events: Vec<AcpEvent> = Vec::new();
    while stage != LifecycleStage::Ended {
        let outcome = match stage {
            LifecycleStage::Prompt => StageOutcome::Answered(StopReason::Refusal),
            _ => StageOutcome::Succeeded,
        };
        let (next, event) = stage.next(outcome);
        events.extend(event);
        stage = next;
        seen.push(stage);
    }
    assert!(matches!(events.as_slice(), [AcpEvent::Done(StopReason::Refusal)]));
    assert_eq!(
        seen,
        vec![
            LifecycleStage::Spawn,
            LifecycleStage::TakeStdin,
            LifecycleStage::TakeStdout,
            LifecycleStage::Initialize,
            LifecycleStage::NewSession,
            LifecycleStage::Prompt,
            LifecycleStage::EndTerminals,
            LifecycleStage::Cancel,
            LifecycleStage::AwaitExit,
            LifecycleStage::Ended,
        ]
    );
    assert_eq!(EXIT_GRACE_SECS, 2);
}

#[test]
fn a_session_that_fails_says_where() {
    let cases = [
        (LifecycleStage::Spawn, "Failed to spawn ACP process"),
        (LifecycleStage::TakeStdin, "No stdin"),
        (LifecycleStage::TakeStdout, "No stdout"),
        (LifecycleStage::Initialize, "ACP initialize failed"),
        (LifecycleStage::NewSession, "ACP session/new failed"),
        (LifecycleStage::Prompt, "ACP session/prompt failed"),
    ];
    for (stage, message) in cases {
        match stage.next(StageOutcome::Failed) {
            (LifecycleStage::Ended, Some(AcpEvent::Failed(text))) => assert_eq!(text, message),
            other => panic!("unexpected outcome: {other:?}"),
        }
    }
}

#[test]
fn a_session_whose_prompt_was_answered_does_not_fail() {
    let after = [
        (LifecycleStage::EndTerminals, LifecycleStage::Cancel),
        (LifecycleStage::Cancel, LifecycleStage::AwaitExit),
        (LifecycleStage::AwaitExit, LifecycleStage::Kill),
        (LifecycleStage::Kill, LifecycleStage::Ended),
        (LifecycleStage::Ended, LifecycleStage::Ended),
    ];
    for (stage, next) in after {
        let (followed, event) = stage.next(StageOutcome::Failed);
        assert_eq!(followed, next);
        assert!(event.is_none());
    }
}

#[test]
fn the_end_of_a_turn_is_told_once_and_last() {
    let mut executor = executor();
    executor.set_context_window(64_000);
    let mut turn = Turn::new();
    let mut calls = vec![
        turn.take(AcpEvent::Text("a".to_string())),
        turn.take(AcpEvent::Failed("gone".to_string())),
    ];
    let report = executor.conclude(turn, 7);
    assert_eq!(report.result.termination, TerminationType::Natural);
    calls.extend(report.calls);
    let ends =
        calls.iter().filter(|call| matches!(call, HandlerCall::Complete(_))).count();
    assert_eq!(ends, 1);
    match calls.last() {
        Some(HandlerCall::Complete(result)) => assert_eq!(
            *result,
            SessionResult {
                duration_ms: 7,
                num_turns: 1,
                is_error: true,
                input_tokens: 0,
                output_tokens: 0,
                cache_read_tokens: 0,
                cache_write_tokens: 0,
                context_window: 64_000,
            }
        ),
        other => panic!("unexpected call: {other:?}"),
    }
}
