use ralph_robot::codec::parse_json;
use ralph_robot::json::Json;
use ralph_robot::paths::UnixPath;
use ralph_robot::robot_domain::{ApiError, ApiErrorCode, RobotDomain};

fn domain() -> RobotDomain {
    RobotDomain::new(UnixPath::from_text("/w"))
}

fn json(text: &str) -> Json {
    parse_json(text).unwrap()
}

fn refused(params: &str) -> String {
    let error = domain().respond(&json(params), "now").unwrap_err();
    assert_eq!(error.code, ApiErrorCode::InvalidParams);
    error.message
}

fn answered(response: &str) -> String {
    let params = format!(r#"{{"id":1,"loop_id":"l","token":"t",{response}}}"#);
    domain().respond(&json(&params), "now").unwrap().0.response
}

#[test]
fn robot_question_and_checkin_return_null_or_file_payload() {
    let domain = domain();
    assert!(domain.question(None).unwrap().is_none());
    assert!(domain.checkin(None).unwrap().is_none());
    assert_eq!(domain.question_path().display(), "/w/.ralph/api/robot-question.json");
    assert_eq!(domain.checkin_path().display(), "/w/.ralph/api/robot-checkin.json");

    let question = domain
        .question(Some(
            r#"{"id":7,"loop_id":"loop-1","response_token":"token-7","payload":"Need review?","hat":"executor","iteration":3}"#,
        ))
        .unwrap()
        .unwrap();
    assert_eq!(question.get("id").and_then(Json::as_i64), Some(7));
    assert_eq!(question.get("response_token").and_then(Json::as_str), Some("token-7"));

    let checkin = domain
        .checkin(Some(
            r#"{"iteration":3,"elapsed_seconds":12,"context":{"current_hat":"executor"}}"#,
        ))
        .unwrap()
        .unwrap();
    assert_eq!(checkin.get("iteration").and_then(Json::as_i64), Some(3));
}

#[test]
fn a_file_that_is_no_json_is_an_internal_error() {
    let error = domain().clone().question(Some("{")).unwrap_err();
    assert_eq!(error.code, ApiErrorCode::Internal);
    assert_eq!(
        error.message,
        "failed to parse /w/.ralph/api/robot-question.json: EOF while parsing an object at line 1 column 1"
    );
    let error = domain().checkin(Some("")).unwrap_err();
    assert!(error.message.starts_with("failed to parse /w/.ralph/api/robot-checkin.json: "));
}

#[test]
fn robot_respond_writes_web_robot_compatible_response() {
    let params =
        json(r#"{"id":7,"loop_id":"loop-1","response_token":"token-7","response":"Approved"}"#);
    let (done, write) = domain().respond(&params, "2024-01-01T00:00:00+00:00").unwrap();
    assert_eq!(done.question_id, 7);
    assert_eq!(done.response, "Approved");
    assert_eq!(write.path.display(), "/w/.ralph/api/robot-response.json");
    assert_eq!(write.tmp_path.display(), "/w/.ralph/api/robot-response.json.tmp");

    let file = json(&String::from_utf8(write.bytes).unwrap());
    assert_eq!(file.get("id").and_then(Json::as_i64), Some(7));
    assert_eq!(file.get("loop_id").and_then(Json::as_str), Some("loop-1"));
    assert_eq!(file.get("response_token").and_then(Json::as_str), Some("token-7"));
    assert_eq!(file.get("response").and_then(Json::as_str), Some("Approved"));
    assert_eq!(
        file.get("timestamp").and_then(Json::as_str),
        Some("2024-01-01T00:00:00+00:00")
    );
}

#[test]
fn an_answer_must_name_the_question() {
    assert_eq!(refused("[]"), "robot.respond params must be an object");
    assert_eq!(
        refused("{}"),
        "missing or invalid integer field 'questionId'/'question_id'/'id'"
    );
    assert_eq!(
        refused(r#"{"id":"7"}"#),
        "missing or invalid integer field 'questionId'/'question_id'/'id'"
    );
    assert_eq!(
        refused(r#"{"id":7}"#),
        "missing or invalid string field 'loopId'/'loop_id'"
    );
    assert_eq!(
        refused(r#"{"id":7,"loop_id":" \t"}"#),
        "missing or invalid string field 'loopId'/'loop_id'"
    );
    // The first text counts, even where a later one would do.
    assert_eq!(
        refused(r#"{"id":7,"loopId":"","loop_id":"l"}"#),
        "missing or invalid string field 'loopId'/'loop_id'"
    );
    assert_eq!(
        refused(r#"{"id":7,"loop_id":"l","token":1}"#),
        "missing or invalid string field 'responseToken'/'response_token'/'token'"
    );
}

#[test]
fn the_names_of_the_parameters_have_an_order() {
    let params = json(
        r#"{"questionId":1,"question_id":2,"id":3,"loopId":"a","loop_id":"b","responseToken":"c","token":"d","response":"r","text":"s"}"#,
    );
    let (done, write) = domain().respond(&params, "now").unwrap();
    assert_eq!(done.question_id, 1);
    assert_eq!(done.response, "r");
    let file = json(&String::from_utf8(write.bytes).unwrap());
    assert_eq!(file.get("loop_id").and_then(Json::as_str), Some("a"));
    assert_eq!(file.get("response_token").and_then(Json::as_str), Some("c"));
}

#[test]
fn an_answer_must_have_content() {
    let start = r#"{"id":7,"loop_id":"l","token":"t""#;
    assert_eq!(
        refused(&format!("{start}}}")),
        "robot.respond requires response, message, text, or payload"
    );
    assert_eq!(
        refused(&format!(r#"{start},"response":""}}"#)),
        "robot response cannot be empty"
    );
    assert_eq!(
        refused(&format!(r#"{start},"response":null,"text":"x"}}"#)),
        "robot response cannot be null"
    );
}

#[test]
fn an_answer_that_is_no_text_is_written_as_json() {
    assert_eq!(answered(r#""message":"m""#), "m");
    assert_eq!(answered(r#""text":" ""#), " ");
    assert_eq!(answered(r#""payload":{"b":1,"a":[2]}"#), r#"{"a":[2],"b":1}"#);
    assert_eq!(answered(r#""response":[1,2]"#), "[1,2]");
    assert_eq!(answered(r#""response":true"#), "true");
    assert_eq!(answered(r#""response":4.5"#), "4.5");
}

#[test]
fn robot_guidance_appends_to_current_events() {
    let params = json(r#"{"text":"Focus on cancellation"}"#);
    let (done, append) =
        domain().guidance(&params, Ok(".ralph/events-active.jsonl"), "now").unwrap();
    assert_eq!(done.text, "Focus on cancellation");
    assert_eq!(append.path.display(), "/w/.ralph/events-active.jsonl");

    let lines = append.line.lines().collect::<Vec<_>>();
    assert_eq!(lines.len(), 1);
    assert!(append.line.ends_with('\n'));
    let event = json(lines[0]);
    assert_eq!(event.get("topic").and_then(Json::as_str), Some("human.guidance"));
    assert_eq!(event.get("payload").and_then(Json::as_str), Some("Focus on cancellation"));
    assert_eq!(event.get("ts").and_then(Json::as_str), Some("now"));
}

#[test]
fn guidance_of_several_lines_is_one_line() {
    let params = json(r#"{"message":"one\ntwo"}"#);
    let (_, append) = domain().guidance(&params, Ok(" events \n"), "now").unwrap();
    assert_eq!(
        append.line,
        "{\"payload\":\"one\\ntwo\",\"topic\":\"human.guidance\",\"ts\":\"now\"}\n"
    );
    assert_eq!(append.path.display(), "/w/events");
}

#[test]
fn robot_guidance_rejects_parent_dir_current_events_marker() {
    let params = json(r#"{"text":"Do not escape"}"#);
    let error = domain().guidance(&params, Ok("../outside.jsonl"), "now").unwrap_err();
    assert_eq!(error.code, ApiErrorCode::InvalidParams);
    assert_eq!(
        error.message,
        "active events marker must not contain parent directory components"
    );
}

#[test]
fn guidance_is_refused_for_the_first_fault() {
    let unread: Result<&str, &str> = Err("No such file");
    let error = domain().guidance(&json("3"), unread, "now").unwrap_err();
    assert_eq!(error.message, "robot.guidance params must be an object");
    let error = domain().guidance(&json(r#"{"text":" "}"#), unread, "now").unwrap_err();
    assert_eq!(error.message, "missing or invalid string field 'text'/'message'/'payload'");
    let error = domain().guidance(&json(r#"{"text":"x"}"#), unread, "now").unwrap_err();
    assert_eq!(error.code, ApiErrorCode::NotFound);
    assert_eq!(
        error.message,
        "failed to read active events marker /w/.ralph/current-events: No such file"
    );
    assert_eq!(domain().marker_path().display(), "/w/.ralph/current-events");
}

#[test]
fn events_stay_in_the_workspace() {
    let domain = domain();
    assert_eq!(domain.active_events_path("a/b").unwrap().display(), "/w/a/b");
    assert_eq!(domain.active_events_path("/w/a").unwrap().display(), "/w/a");
    assert_eq!(
        domain.active_events_path("/elsewhere/a").unwrap_err().message,
        "active events marker resolves outside workspace"
    );
    assert_eq!(
        domain.active_events_path("/wide").unwrap_err().message,
        "active events marker resolves outside workspace"
    );
    assert_eq!(
        domain.active_events_path(" \n").unwrap_err().message,
        "active events marker is empty"
    );
    assert_eq!(
        domain.active_events_path("/w/a/../../b").unwrap_err().message,
        "active events marker must not contain parent directory components"
    );
}

#[test]
fn failures_of_files_are_internal() {
    let a = UnixPath::from_text("/w/a");
    let b = UnixPath::from_text("/w/b");
    let error = ApiError::file_failed("write", &a, "disk full");
    assert_eq!(error.code, ApiErrorCode::Internal);
    assert_eq!(error.message, "failed to write /w/a: disk full");
    let error = ApiError::move_failed(&a, &b, "busy");
    assert_eq!(error.message, "failed to move /w/a to /w/b: busy");
    assert_eq!(error.code, ApiErrorCode::Internal);
}
