use ralph_robot::api_files::FileWrite;
use ralph_robot::codec::parse_json;
use ralph_robot::paths::UnixPath;
use ralph_robot::robot_domain::RobotDomain;
use ralph_robot::web_robot::{
    extract_correlated_response, extract_response, hat_of, iteration_of, ActiveQuestion,
    CheckinContext, QuestionPlan, ResponseRead, RobotError, WaitStep, WebRobotService,
};

fn service(timeout_secs: u64) -> WebRobotService {
    WebRobotService::new(UnixPath::from_text("/w"), timeout_secs, "loop-1".to_string())
}

fn text_of(write: &FileWrite) -> String {
    String::from_utf8(write.bytes.clone()).unwrap()
}

/// Asks a question, writes its file, and gives the file's text.
fn ask(service: &mut WebRobotService, payload: &str) -> (i32, String) {
    match service.send_question(payload, None) {
        Ok(QuestionPlan::Write { question, write }) => {
            assert_eq!(write.path.display(), "/w/.ralph/api/robot-question.json");
            assert_eq!(write.tmp_path.display(), "/w/.ralph/api/robot-question.json.tmp");
            let id = question.id;
            let text = text_of(&write);
            service.question_written(question);
            (id, text)
        }
        other => panic!("unexpected plan: {other:?}"),
    }
}

fn read(text: &str) -> serde_json::Value {
    serde_json::from_str(text).unwrap()
}

/// An answer to the question in a file.
fn correlated_response(question_file: &str, key: &str, value: &str) -> String {
    let question = read(question_file);
    let mut map = serde_json::Map::new();
    map.insert("id".to_string(), question["id"].clone());
    map.insert("loop_id".to_string(), question["loop_id"].clone());
    map.insert("response_token".to_string(), question["response_token"].clone());
    map.insert(key.to_string(), serde_json::Value::from(value));
    serde_json::Value::Object(map).to_string()
}

/// One look at the answer's file while waiting.
fn look(
    service: &mut WebRobotService,
    response_file: Option<&str>,
    shutdown: bool,
    elapsed_secs: u64,
) -> WaitStep {
    let question = service.wait_for_response(None).unwrap();
    let response = service.read_response(&question, response_file);
    let step = service.wait_step(response, shutdown, elapsed_secs);
    if !matches!(step, WaitStep::Sleep(_)) {
        service.question_closed();
    }
    step
}

fn question(id: i32, token: &str) -> ActiveQuestion {
    ActiveQuestion { id, response_token: token.to_string() }
}

#[test]
fn send_question_writes_question_file_and_preserves_uncorrelated_response() {
    let mut service = service(300);
    let (id, file) = ask(&mut service, r#"{"question":"Proceed?","hat":"planner","iteration":7}"#);
    assert_eq!(id, 1);
    let question = read(&file);
    assert_eq!(question["id"], 1);
    assert_eq!(question["payload_json"]["question"], "Proceed?");
    assert_eq!(question["hat"], "planner");
    assert_eq!(question["iteration"], 7);
    assert_eq!(question["loop_id"], "loop-1");
    assert!(question["response_token"].as_str().is_some());
    assert_eq!(question["timeout_seconds"], 300);
    assert!(question["timestamp"].as_str().is_some());
    assert_eq!(
        question["payload"],
        r#"{"question":"Proceed?","hat":"planner","iteration":7}"#
    );

    let active = service.wait_for_response(None).unwrap();
    let response = service.read_response(&active, Some(r#"{"response":"already answered"}"#));
    assert!(matches!(response, ResponseRead::Incomplete));
    assert!(!response.is_discarded());
}

#[test]
fn wait_for_response_consumes_correlated_preexisting_response() {
    let mut service = service(300);
    let (_, file) = ask(&mut service, "Need approval?");
    let response = correlated_response(&file, "response", "approved");

    let step = look(&mut service, Some(&response), false, 0);
    assert!(matches!(step, WaitStep::Answered(text) if text == "approved"));
    assert!(!service.has_active_question());
}

#[test]
fn restart_reuses_existing_question_and_accepts_preexisting_response() {
    let mut initial_service = service(300);
    let (original_id, original_file) = ask(&mut initial_service, "Need approval?");
    let response = correlated_response(&original_file, "response", "approved while down");

    let mut restarted = service(300);
    let reused_id = match restarted.send_question("Need approval after restart?", Some(&original_file))
    {
        Ok(QuestionPlan::Reuse(id)) => id,
        other => panic!("unexpected plan: {other:?}"),
    };
    assert_eq!(reused_id, original_id);
    let active = restarted.wait_for_response(None).unwrap();
    assert_eq!(read(&original_file)["response_token"], active.response_token);

    let step = look(&mut restarted, Some(&response), false, 0);
    assert!(matches!(step, WaitStep::Answered(text) if text == "approved while down"));
    let (next_id, _) = ask(&mut restarted, "Another");
    assert_eq!(next_id, original_id + 1);
}

#[test]
fn send_question_extracts_nested_human_interact_context() {
    let mut service = service(300);
    let (_, file) = ask(
        &mut service,
        r#"{"question":"Proceed?","context":{"current_hat":"planner","iteration":7}}"#,
    );
    let question = read(&file);
    assert_eq!(question["payload_json"]["question"], "Proceed?");
    assert_eq!(question["hat"], "planner");
    assert_eq!(question["iteration"], 7);
}

#[test]
fn send_checkin_writes_checkin_file() {
    let service = service(300);
    let context = CheckinContext {
        current_hat: Some("executor".to_string()),
        open_tasks: 2,
        closed_tasks: 3,
        cumulative_cost: serde_json::Number::from_f64(1.25),
    };
    let (result, write) = service.send_checkin(4, 1_234, Some(&context));
    assert_eq!(result, 0);
    assert_eq!(write.path.display(), "/w/.ralph/api/robot-checkin.json");

    let checkin = read(&text_of(&write));
    assert_eq!(checkin["iteration"], 4);
    assert_eq!(checkin["elapsed_seconds"], 1);
    assert_eq!(checkin["elapsed_millis"], 1234);
    assert_eq!(checkin["loop_id"], "loop-1");
    assert_eq!(checkin["context"]["current_hat"], "executor");
    assert_eq!(checkin["context"]["open_tasks"], 2);
    assert_eq!(checkin["context"]["closed_tasks"], 3);
    assert_eq!(checkin["context"]["cumulative_cost"], 1.25);
    assert!(checkin["timestamp"].as_str().is_some());
}

#[test]
fn a_checkin_may_say_little() {
    let service = service(300);
    let (_, write) = service.send_checkin_at(0, 999, None, "now");
    assert_eq!(
        read(&text_of(&write)).to_string(),
        r#"{"context":null,"elapsed_millis":999,"elapsed_seconds":0,"iteration":0,"loop_id":"loop-1","timestamp":"now"}"#
    );
    let context = CheckinContext {
        current_hat: None,
        open_tasks: 0,
        closed_tasks: u64::MAX,
        cumulative_cost: None,
    };
    let (_, write) = service.send_checkin_at(u32::MAX, u64::MAX, Some(&context), "now");
    let checkin = read(&text_of(&write));
    assert!(checkin["context"]["current_hat"].is_null());
    assert!(checkin["context"]["cumulative_cost"].is_null());
    assert_eq!(checkin["context"]["closed_tasks"], u64::MAX);
    assert_eq!(checkin["elapsed_seconds"], u64::MAX / 1000);
}

#[test]
fn wait_for_response_removes_stale_uncorrelated_response() {
    let mut service = service(300);
    ask(&mut service, "Need approval?");
    let active = service.wait_for_response(None).unwrap();
    let response = service.read_response(
        &active,
        Some(r#"{"id":999,"loop_id":"loop-1","response_token":"stale","response":"old"}"#),
    );
    assert!(matches!(response, ResponseRead::Stale));
    assert!(response.is_discarded());
    assert!(matches!(service.wait_step(response, false, 0), WaitStep::Sleep(250)));
}

#[test]
fn wait_for_response_times_out_and_cleans_question() {
    let mut service = service(1);
    ask(&mut service, "Need approval?");
    assert!(matches!(look(&mut service, None, false, 0), WaitStep::Sleep(250)));
    assert!(matches!(look(&mut service, None, false, 1), WaitStep::TimedOut));
    assert!(!service.has_active_question());
}

#[test]
fn timeout_zero_waits_until_response_without_timing_out() {
    let mut service = service(0);
    let (_, file) = ask(&mut service, "Need approval?");
    assert!(matches!(look(&mut service, None, false, 0), WaitStep::Sleep(250)));
    assert!(matches!(look(&mut service, None, false, u64::MAX), WaitStep::Sleep(250)));
    let response = correlated_response(&file, "message", "continue");
    let step = look(&mut service, Some(&response), false, u64::MAX);
    assert!(matches!(step, WaitStep::Answered(text) if text == "continue"));
}

#[test]
fn timeout_zero_still_honors_shutdown() {
    let mut service = service(0);
    ask(&mut service, "Need approval?");
    assert!(matches!(look(&mut service, None, true, 0), WaitStep::Interrupted));
    assert!(!service.has_active_question());
}

#[test]
fn wait_for_response_retries_partial_json_until_correlated_response_arrives() {
    let mut service = service(1);
    let (_, file) = ask(&mut service, "Need approval?");
    let step = look(&mut service, Some(r#"{"response":"par"#), false, 0);
    assert!(matches!(step, WaitStep::Sleep(250)));
    let response = correlated_response(&file, "response", "ready");
    let step = look(&mut service, Some(&response), false, 0);
    assert!(matches!(step, WaitStep::Answered(text) if text == "ready"));
}

#[test]
fn wait_for_response_retries_valid_incomplete_json_until_response_arrives() {
    let mut service = service(1);
    let (_, file) = ask(&mut service, "Need approval?");
    let step = look(&mut service, Some(r#"{"id":1,"loop_id":"loop-1"}"#), false, 0);
    assert!(matches!(step, WaitStep::Sleep(250)));
    let response = correlated_response(&file, "response", "complete");
    let step = look(&mut service, Some(&response), false, 0);
    assert!(matches!(step, WaitStep::Answered(text) if text == "complete"));
}

#[test]
fn an_answer_comes_before_a_shutdown_and_the_end_of_the_time() {
    let service = service(1);
    let step = service.wait_step(ResponseRead::Ready("x".to_string()), true, 9);
    assert!(matches!(step, WaitStep::Answered(text) if text == "x"));
    assert!(matches!(service.wait_step(ResponseRead::Incomplete, true, 9), WaitStep::Interrupted));
    let invalid = ResponseRead::Invalid("m".to_string());
    assert!(matches!(service.wait_step(invalid, false, 1), WaitStep::TimedOut));
}

#[test]
fn a_question_that_waits_is_reused() {
    let mut service = service(300);
    let (id, _) = ask(&mut service, "first");
    // What the file says does not matter while the question is known.
    assert!(matches!(
        service.send_question("second", Some("not json")),
        Ok(QuestionPlan::Reuse(reused)) if reused == id
    ));
    service.question_closed();
    let (next, _) = ask(&mut service, "third");
    assert_eq!(next, id + 1);
}

#[test]
fn a_number_is_used_up_even_if_the_file_cannot_be_written() {
    let mut service = service(300);
    assert!(matches!(
        service.send_question("x", None),
        Ok(QuestionPlan::Write { question, .. }) if question.id == 1
    ));
    assert!(!service.has_active_question());
    assert!(matches!(
        service.send_question("x", None),
        Ok(QuestionPlan::Write { question, .. }) if question.id == 2
    ));
}

#[test]
fn the_document_of_a_question_is_exact() {
    let mut service = service(7);
    match service.send_question_at("{\"metadata\":{\"hat\":null}}", None, 55, "now") {
        Ok(QuestionPlan::Write { question, write }) => {
            assert_eq!(question.response_token, "loop-1-1-55");
            assert_eq!(
                read(&text_of(&write)).to_string(),
                "{\"hat\":null,\"id\":1,\"iteration\":null,\"loop_id\":\"loop-1\",\"payload\":\"{\\\"metadata\\\":{\\\"hat\\\":null}}\",\"payload_json\":{\"metadata\":{\"hat\":null}},\"response_token\":\"loop-1-1-55\",\"timeout_seconds\":7,\"timestamp\":\"now\"}"
            );
        }
        other => panic!("unexpected plan: {other:?}"),
    }
    match service.send_question_at("plain text", None, -5, "now") {
        Ok(QuestionPlan::Write { question, write }) => {
            assert_eq!(question.response_token, "loop-1-2--5");
            assert!(read(&text_of(&write))["payload_json"].is_null());
        }
        other => panic!("unexpected plan: {other:?}"),
    }
}

#[test]
fn the_first_path_to_a_hat_counts() {
    let cases = [
        (r#"{"hat":"a","current_hat":"b"}"#, "a"),
        (r#"{"current_hat":"b","context":{"hat":"c"}}"#, "b"),
        (r#"{"context":{"hat":"c","current_hat":"d"}}"#, "c"),
        (r#"{"context":{"current_hat":"d"},"metadata":{"hat":"e"}}"#, "d"),
        (r#"{"metadata":{"hat":"e","current_hat":"f"}}"#, "e"),
        (r#"{"metadata":{"current_hat":"f"}}"#, "f"),
    ];
    for (payload, hat) in cases {
        let (_, file) = ask(&mut service(1), payload);
        assert_eq!(read(&file)["hat"], hat);
    }
    let (_, file) = ask(&mut service(1), r#"{"metadata":{"iteration":3},"context":{"iteration":2}}"#);
    assert_eq!(read(&file)["iteration"], 2);
    let (_, file) = ask(&mut service(1), r#"{"metadata":{"iteration":3}}"#);
    assert_eq!(read(&file)["iteration"], 3);
    let (_, file) = ask(&mut service(1), r#"["hat"]"#);
    assert!(read(&file)["hat"].is_null());
}

#[test]
fn a_question_of_another_loop_is_not_taken_up() {
    let files = [
        r#"{"id":5,"loop_id":"loop-2","response_token":"t"}"#,
        r#"{"id":5,"response_token":"t"}"#,
        r#"{"loop_id":"loop-1","response_token":"t"}"#,
        r#"{"id":5,"loop_id":"loop-1"}"#,
        r#"{"id":2147483648,"loop_id":"loop-1","token":"t"}"#,
        "[]",
    ];
    for file in files {
        let mut service = service(1);
        assert!(service.get_active_question(Some(file)).unwrap().is_none());
        assert!(matches!(
            service.send_question("x", Some(file)),
            Ok(QuestionPlan::Write { question, .. }) if question.id == 1
        ));
    }
}

#[test]
fn a_question_that_is_taken_up_keeps_its_number() {
    let mut service = service(1);
    let file = r#"{"id":41,"loop_id":"loop-1","token":"t"}"#;
    let found = service.get_active_question(Some(file)).unwrap().unwrap();
    assert_eq!((found.id, found.response_token.as_str()), (41, "t"));
    service.question_closed();
    assert_eq!(ask(&mut service, "x").0, 42);
    service.question_closed();
    let file = r#"{"id":3,"loop_id":"loop-1","token":"t"}"#;
    assert_eq!(service.get_active_question(Some(file)).unwrap().unwrap().id, 3);
    service.question_closed();
    assert_eq!(ask(&mut service, "x").0, 43);
}

#[test]
fn numbers_start_again_when_they_run_out() {
    let mut service = service(1);
    let file = r#"{"id":2147483647,"loop_id":"loop-1","token":"t"}"#;
    assert_eq!(service.get_active_question(Some(file)).unwrap().unwrap().id, i32::MAX);
    service.question_closed();
    assert_eq!(ask(&mut service, "x").0, i32::MAX);
    service.question_closed();
    assert_eq!(ask(&mut service, "x").0, i32::MIN);
}

#[test]
fn a_question_file_that_is_no_json_is_an_error() {
    let mut service = service(1);
    let error = service.send_question("x", Some("{")).unwrap_err();
    assert_eq!(error.message, "failed to parse /w/.ralph/api/robot-question.json");
    assert_eq!(
        error.cause.as_deref(),
        Some("EOF while parsing an object at line 1 column 1")
    );
    let error = service.wait_for_response(Some("{")).unwrap_err();
    assert_eq!(error.message, "failed to parse /w/.ralph/api/robot-question.json");
    let error = service.wait_for_response(None).unwrap_err();
    assert_eq!(error.message, "no active web robot question");
    assert_eq!(error.cause, None);
    let path = UnixPath::from_text("/w/x");
    let error = RobotError::file_failed("remove", &path, "busy".to_string());
    assert_eq!(error.message, "failed to remove /w/x");
    assert_eq!(error.cause.as_deref(), Some("busy"));
}

#[test]
fn an_answer_must_name_the_question_the_loop_and_the_token() {
    let asked = question(5, "t");
    let cases = [
        ("\"x\"", "stale"),
        (r#"{"loop_id":"l","token":"t","response":"r"}"#, "incomplete"),
        (r#"{"id":6,"loop_id":"l","token":"t","response":"r"}"#, "stale"),
        (r#"{"id":"5","question_id":5,"loop_id":"l","token":"t","response":"r"}"#, "r"),
        (r#"{"id":5,"token":"t","response":"r"}"#, "incomplete"),
        (r#"{"id":5,"loop_id":"m","token":"t","response":"r"}"#, "stale"),
        (r#"{"id":5,"loop_id":"l","response":"r"}"#, "incomplete"),
        (r#"{"id":5,"loop_id":"l","response_token":"u","token":"t","response":"r"}"#, "stale"),
        (r#"{"id":5,"loop_id":"l","token":"t"}"#, "incomplete"),
        (r#"{"id":5,"loop_id":"l","token":"t","response":null}"#, "incomplete"),
        (r#"{"id":5,"loop_id":"l","token":"t","response":null,"text":"x"}"#, "invalid"),
        (r#"{"id":5,"loop_id":"l","token":"t","response":""}"#, ""),
        (r#"{"id":5,"loop_id":"l","token":"t","message":{"a":1}}"#, r#"{"a":1}"#),
        (r#"{"id":5,"loop_id":"l","token":"t","payload":12}"#, "12"),
    ];
    for (document, expected) in cases {
        let json = parse_json(document).unwrap();
        let read = extract_correlated_response(&json, &asked, "l");
        let shown = match read {
            ResponseRead::Ready(text) => text,
            ResponseRead::Incomplete => "incomplete".to_string(),
            ResponseRead::Stale => "stale".to_string(),
            ResponseRead::Invalid(message) => {
                assert_eq!(message, "response field 'response' is null");
                "invalid".to_string()
            }
        };
        assert_eq!(shown, expected, "{document}");
    }
}

#[test]
fn the_content_of_an_answer_is_extracted() {
    let content = |text: &str| extract_response(&parse_json(text).unwrap());
    assert_eq!(content("\"x\""), Ok("x".to_string()));
    assert_eq!(content("[1]"), Ok("[1]".to_string()));
    assert_eq!(content("null"), Ok("null".to_string()));
    assert_eq!(content(r#"{"text":"b","message":"a"}"#), Ok("a".to_string()));
    assert_eq!(content(r#"{"payload":[true]}"#), Ok("[true]".to_string()));
    assert_eq!(
        content(r#"{"message":null,"text":"x"}"#),
        Err("response field 'message' is null".to_string())
    );
    assert_eq!(
        content("{}"),
        Err("robot response must contain one of: response, message, text, payload".to_string())
    );
}

#[test]
fn an_answer_through_the_api_reaches_the_loop() {
    let mut service = service(300);
    let (id, file) = ask(&mut service, "Need approval?");
    let token = read(&file)["response_token"].as_str().unwrap().to_string();
    let params = format!(
        r#"{{"questionId":{id},"loopId":"loop-1","responseToken":"{token}","message":{{"ok":true}}}}"#
    );
    let domain = RobotDomain::new(UnixPath::from_text("/w"));
    let (_, write) = domain.respond(&parse_json(&params).unwrap(), "now").unwrap();
    assert_eq!(write.path.display(), service.response_path().display());
    let step = look(&mut service, Some(&text_of(&write)), false, 0);
    assert!(matches!(step, WaitStep::Answered(text) if text == r#"{"ok":true}"#));
}

#[test]
fn an_answer_to_another_question_does_not_reach_the_loop() {
    let domain = RobotDomain::new(UnixPath::from_text("/w"));
    let params = parse_json(r#"{"id":5,"loop_id":"l","token":"t","text":"x"}"#).unwrap();
    let (_, write) = domain.respond(&params, "now").unwrap();
    let document = parse_json(&text_of(&write)).unwrap();
    for (asked, loop_id) in [
        (question(6, "t"), "l"),
        (question(5, "u"), "l"),
        (question(5, "t"), "m"),
    ] {
        assert!(matches!(
            extract_correlated_response(&document, &asked, loop_id),
            ResponseRead::Stale
        ));
    }
}

#[test]
fn a_question_with_numbers_and_depth_is_taken_up_again() {
    let deep = format!("{}0.1{}", "[".repeat(126), "]".repeat(126));
    let (id, file) = ask(&mut service(300), &deep);
    let mut restarted = service(300);
    let found = restarted.get_active_question(Some(&file)).unwrap().unwrap();
    assert_eq!(found.id, id);

    // One level more, and the file cannot be read again.
    let deeper = format!("{}0{}", "[".repeat(127), "]".repeat(127));
    let (_, file) = ask(&mut service(300), &deeper);
    assert!(service(300).get_active_question(Some(&file)).is_err());
}

#[test]
fn tokens_tell_questions_apart() {
    let mut service = service(1);
    let mut tokens = Vec::new();
    for micros in [0i64, 1, 11] {
        match service.send_question_at("x", None, micros, "now") {
            Ok(QuestionPlan::Write { question, .. }) => tokens.push(question.response_token),
            other => panic!("unexpected plan: {other:?}"),
        }
    }
    assert_eq!(tokens, vec!["loop-1-1-0", "loop-1-2-1", "loop-1-3-11"]);
}

#[test]
fn the_service_knows_its_files() {
    let service = service(300);
    assert_eq!(service.timeout_secs(), 300);
    assert_eq!(service.loop_id(), "loop-1");
    assert_eq!(service.api_dir().display(), "/w/.ralph/api");
    assert_eq!(service.question_path().display(), "/w/.ralph/api/robot-question.json");
    assert_eq!(service.response_path().display(), "/w/.ralph/api/robot-response.json");
    assert_eq!(service.checkin_path().display(), "/w/.ralph/api/robot-checkin.json");
}

#[test]
fn the_clock_is_read() {
    let mut service = service(300);
    let before = chrono::Utc::now().timestamp_micros();
    let (_, file) = ask(&mut service, "x");
    let after = chrono::Utc::now().timestamp_micros();
    let question = read(&file);
    let token = question["response_token"].as_str().unwrap();
    let micros: i64 = token.strip_prefix("loop-1-1-").unwrap().parse().unwrap();
    assert!(before <= micros && micros <= after);
    let timestamp = question["timestamp"].as_str().unwrap();
    let parsed = chrono::DateTime::parse_from_rfc3339(timestamp).unwrap();
    assert!(before <= parsed.timestamp_micros() && parsed.timestamp_micros() <= after);
}

#[test]
fn an_answer_file_that_is_of_no_use_is_discarded() {
    assert!(ResponseRead::Stale.is_discarded());
    assert!(ResponseRead::Invalid("m".to_string()).is_discarded());
    assert!(!ResponseRead::Incomplete.is_discarded());
    assert!(!ResponseRead::Ready("x".to_string()).is_discarded());
}

#[test]
fn numbers_grow_from_question_to_question() {
    let mut service = service(300);
    assert!(!service.has_given_out(1));
    let (first, _) = ask(&mut service, "one?");
    assert!(service.has_given_out(first));
    assert!(!service.has_given_out(first + 1));
    service.question_closed();
    let (second, _) = ask(&mut service, "two?");
    assert!(second > first);
    assert!(service.has_given_out(i32::MAX));
}

#[test]
fn a_question_is_found_in_a_document_of_its_loop() {
    let service = service(300);
    let found = |text: &str| service.hydrate_active_question(&parse_json(text).unwrap());
    let question = found(r#"{"id":4,"loop_id":"loop-1","response_token":"t"}"#).unwrap();
    assert_eq!(question.id, 4);
    assert_eq!(question.response_token, "t");
    assert_eq!(found(r#"{"id":4,"loop_id":"loop-1","token":"u"}"#).unwrap().response_token, "u");
    assert!(found(r#"{"id":4,"loop_id":"loop-2","token":"u"}"#).is_none());
    assert!(found(r#"{"id":"4","loop_id":"loop-1","token":"u"}"#).is_none());
    assert!(found(r#"{"id":4,"loop_id":"loop-1"}"#).is_none());
    assert!(found("[]").is_none());
}

#[test]
fn the_document_of_a_question_follows_its_payload() {
    let payload = Some(parse_json(r#"{"context":{"hat":"h"},"metadata":{"iteration":3}}"#).unwrap());
    assert_eq!(hat_of(&payload).as_str(), Some("h"));
    assert_eq!(iteration_of(&payload).as_i64(), Some(3));
    assert!(hat_of(&None).is_null());
    assert!(iteration_of(&None).is_null());

    let service = service(300);
    let asked = question(4, "t");
    let document = service.question_json(&asked, "p", payload, "now");
    assert_eq!(document.get("hat").and_then(|hat| hat.as_str()), Some("h"));
    assert_eq!(document.get("iteration").and_then(|number| number.as_i64()), Some(3));
    assert_eq!(document.get("payload").and_then(|text| text.as_str()), Some("p"));
    assert!(document.get("payload_json").unwrap().is_object());
    let plain = service.question_json(&asked, "p", None, "now");
    assert!(plain.get("hat").unwrap().is_null());
}

#[test]
fn a_member_name_kept_by_the_parser_is_read_back_unless_it_is_the_first() {
    let payload = r#"{"!":1,"$serde_json::private::RawValue":"x"}"#;
    let (id, file) = ask(&mut service(300), payload);
    let question = read(&file);
    assert_eq!(question["payload_json"]["$serde_json::private::RawValue"], "x");
    assert_eq!(question["payload_json"]["!"], 1);
    let found = service(300).get_active_question(Some(&file)).unwrap().unwrap();
    assert_eq!(found.id, id);
}
