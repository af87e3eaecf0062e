use ralph_robot::codec::parse_json;
use ralph_robot::json::Json;
use ralph_robot::paths::UnixPath;
use ralph_robot::session::{
    request_permission, session_event, AcpEvent, ContentBlock, SessionUpdate, ToolCallContent,
    ToolCallStatus,
};

fn text(content: &str) -> ToolCallContent {
    ToolCallContent::Content(ContentBlock::Text(content.to_string()))
}

fn result_of(
    content: Option<Vec<ToolCallContent>>,
    raw_output: Option<Json>,
) -> Option<AcpEvent> {
    session_event(SessionUpdate::ToolCallUpdate {
        tool_call_id: "call-1".to_string(),
        status: Some(ToolCallStatus::Completed),
        content,
        raw_output,
    })
}

fn output_of(event: Option<AcpEvent>) -> String {
    match event {
        Some(AcpEvent::ToolResult { id, output }) => {
            assert_eq!(id, "call-1");
            output
        }
        other => panic!("unexpected event: {other:?}"),
    }
}

#[test]
fn a_message_chunk_is_text() {
    let chunk = SessionUpdate::AgentMessageChunk(ContentBlock::Text("hello".to_string()));
    assert!(matches!(session_event(chunk), Some(AcpEvent::Text(t)) if t == "hello"));
    assert!(session_event(SessionUpdate::AgentMessageChunk(ContentBlock::Other)).is_none());
    assert!(session_event(SessionUpdate::Other).is_none());
}

#[test]
fn a_tool_call_that_says_nothing_yet_is_skipped() {
    let call = SessionUpdate::ToolCall {
        title: "ls".to_string(),
        tool_call_id: "call-1".to_string(),
        raw_input: None,
        locations: vec![],
    };
    assert!(session_event(call).is_none());
}

#[test]
fn a_tool_call_shows_its_input() {
    let call = SessionUpdate::ToolCall {
        title: "Read file".to_string(),
        tool_call_id: "call-2".to_string(),
        raw_input: Some(parse_json(r#"{"path":"a.txt","lines":3}"#).unwrap()),
        locations: vec![UnixPath::from_text("/elsewhere")],
    };
    match session_event(call) {
        Some(AcpEvent::ToolCall { name, id, input }) => {
            assert_eq!(name, "Read file");
            assert_eq!(id, "call-2");
            assert_eq!(input.get("path").and_then(|p| p.as_str()), Some("a.txt"));
            assert_eq!(input.get("lines").and_then(|n| n.as_i64()), Some(3));
        }
        other => panic!("unexpected event: {other:?}"),
    }
}

#[test]
fn a_tool_call_without_input_shows_its_first_place() {
    let call = SessionUpdate::ToolCall {
        title: "Edit".to_string(),
        tool_call_id: "call-3".to_string(),
        raw_input: None,
        locations: vec![UnixPath::from_text("/w/a.rs"), UnixPath::from_text("/w/b.rs")],
    };
    match session_event(call) {
        Some(AcpEvent::ToolCall { input, .. }) => {
            assert_eq!(input.to_text(), r#"{"path":"/w/a.rs"}"#);
        }
        other => panic!("unexpected event: {other:?}"),
    }
    let odd = SessionUpdate::ToolCall {
        title: "Edit".to_string(),
        tool_call_id: "call-4".to_string(),
        raw_input: None,
        locations: vec![UnixPath::from_bytes(b"/w/\xff".to_vec())],
    };
    match session_event(odd) {
        Some(AcpEvent::ToolCall { input, .. }) => {
            assert_eq!(input.get("path").and_then(|p| p.as_str()), Some("/w/\u{fffd}"));
        }
        other => panic!("unexpected event: {other:?}"),
    }
}

#[test]
fn only_a_completed_tool_call_has_a_result() {
    for status in [
        None,
        Some(ToolCallStatus::Pending),
        Some(ToolCallStatus::InProgress),
        Some(ToolCallStatus::Failed),
    ] {
        let update = SessionUpdate::ToolCallUpdate {
            tool_call_id: "call-1".to_string(),
            status,
            content: Some(vec![text("x")]),
            raw_output: None,
        };
        assert!(session_event(update).is_none());
    }
}

#[test]
fn a_result_is_the_first_text_there_is() {
    let content = vec![
        ToolCallContent::Other,
        ToolCallContent::Content(ContentBlock::Other),
        text("first"),
        text("second"),
    ];
    let raw = Some(Json::Text("raw".to_string()));
    assert_eq!(output_of(result_of(Some(content), raw)), "first");
}

#[test]
fn a_result_without_text_is_the_raw_output() {
    let raw = Some(Json::Text("raw".to_string()));
    assert_eq!(output_of(result_of(Some(vec![ToolCallContent::Other]), raw)), "raw");
    let raw = Some(parse_json(r#"{ "b": [1, 2.5, null], "a": "x" }"#).unwrap());
    assert_eq!(output_of(result_of(None, raw)), r#"{"a":"x","b":[1,2.5,null]}"#);
    assert_eq!(output_of(result_of(None, None)), "");
}

#[test]
fn a_plan_is_a_list() {
    let plan = SessionUpdate::Plan(vec!["one".to_string(), "two".to_string()]);
    assert!(matches!(
        session_event(plan),
        Some(AcpEvent::Text(t)) if t == "\n## Plan\n- one\n- two\n"
    ));
    let plan = SessionUpdate::Plan(vec!["".to_string()]);
    assert!(matches!(session_event(plan), Some(AcpEvent::Text(t)) if t == "\n## Plan\n- \n"));
    assert!(session_event(SessionUpdate::Plan(vec![])).is_none());
}

#[test]
fn permission_is_granted_by_the_first_option() {
    assert_eq!(request_permission(&["yes".to_string(), "no".to_string()]), "yes");
    assert_eq!(request_permission(&[]), "allowed");
}
