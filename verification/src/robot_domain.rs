//! The robot methods of the API: reading what the loop asks and reports, answering
//! its question, and giving it guidance.

use crate::api_files::{
    checkin_file, checkin_path, put_two, question_file, question_path, response_file,
    write_json_atomic, writes, ApiFile, FileWrite,
};
use crate::codec::{
    compact_text, lemma_flat_rereadable, parse_json, parse_outcome, pretty_text, reads_as,
    rereadable,
};
use crate::json::{
    first_int, first_member, first_text, no_members, put, views, Json, JsonTree,
};
use crate::paths::{
    absolute, climbs, law_followed_path_goes_down, law_relative_path_stays_below, parts,
    path_join, path_starts_with, UnixPath,
};
use crate::text::{blank, is_blank, join, joined, lossy_text, trim, trimmed};
use vstd::prelude::*;
use vstd::string::StringExecFns;
use vstd::utf8::encode_utf8;

verus! {

/// What kind of error a method is answered with.
#[derive(Clone, Copy, Debug, PartialEq, Eq, Structural)]
pub enum ApiErrorCode {
    InvalidParams,
    NotFound,
    Internal,
}

/// The error that a method is answered with, by its content.
pub struct ApiErrorView {
    pub code: ApiErrorCode,
    pub message: Seq<char>,
}

/// The error that a method is answered with.
#[derive(Debug)]
pub struct ApiError {
    pub code: ApiErrorCode,
    pub message: String,
}

/// An error that is the caller's fault.
pub open spec fn invalid(message: Seq<char>) -> ApiErrorView {
    ApiErrorView { code: ApiErrorCode::InvalidParams, message }
}

/// The message that something could not be done to a file.
pub open spec fn file_failure(action: Seq<char>, path: Seq<u8>, reason: Seq<char>) -> Seq<char> {
    "failed to "@ + action + " "@ + lossy_text(path) + ": "@ + reason
}

fn file_failure_text(action: &str, path: &UnixPath, reason: &str) -> (message: String)
    ensures
        message@ == file_failure(action@, path@, reason@),
{
    let mut message = "failed to ".to_owned();
    let shown = path.display();
    put_two(&mut message, action, " ");
    put_two(&mut message, shown.as_str(), ": ");
    message.append(reason);
    message
}

impl ApiError {
    pub open spec fn view(self) -> ApiErrorView {
        ApiErrorView { code: self.code, message: self.message@ }
    }

    /// An error that is the caller's fault.
    pub fn invalid_params(message: String) -> (error: ApiError)
        ensures
            error@ == invalid(message@),
    {
        ApiError { code: ApiErrorCode::InvalidParams, message }
    }

    /// The answer where something cannot be done to a file.
    pub fn file_failed(action: &str, path: &UnixPath, reason: &str) -> (error: ApiError)
        ensures
            error@ == (ApiErrorView {
                code: ApiErrorCode::Internal,
                message: file_failure(action@, path@, reason@),
            }),
    {
        ApiError {
            code: ApiErrorCode::Internal,
            message: file_failure_text(action, path, reason),
        }
    }

    /// The answer where a written file cannot be moved to its place.
    pub fn move_failed(from: &UnixPath, to: &UnixPath, reason: &str) -> (error: ApiError)
        ensures
            error@ == (ApiErrorView {
                code: ApiErrorCode::Internal,
                message: "failed to move "@ + lossy_text(from@) + " to "@ + lossy_text(to@) + ": "@
                    + reason@,
            }),
    {
        let mut message = "failed to move ".to_owned();
        let from_shown = from.display();
        let to_shown = to.display();
        put_two(&mut message, from_shown.as_str(), " to ");
        put_two(&mut message, to_shown.as_str(), ": ");
        message.append(reason);
        ApiError { code: ApiErrorCode::Internal, message }
    }
}

/// The refusal of parameters that are no object.
pub open spec fn not_an_object(method: Seq<char>) -> ApiErrorView {
    invalid(method + " params must be an object"@)
}

/// Names in a list of alternatives.
pub open spec fn alternatives(names: Seq<Seq<char>>) -> Seq<char> {
    joined(names, "'/'"@)
}

/// An integer that must be there under one of some names.
pub open spec fn required_int(params: JsonTree, names: Seq<Seq<char>>) -> Result<
    i64,
    ApiErrorView,
> {
    match first_int(params, names) {
        Some(n) => Ok(n),
        None => Err(
            invalid("missing or invalid integer field '"@ + alternatives(names) + "'"@),
        ),
    }
}

/// A text that must be there under one of some names: the first text counts, and it
/// must not be blank.
pub open spec fn required_text(params: JsonTree, names: Seq<Seq<char>>) -> Result<
    Seq<char>,
    ApiErrorView,
> {
    match first_text(params, names) {
        Some(text) if !blank(text) => Ok(text),
        _ => Err(invalid("missing or invalid string field '"@ + alternatives(names) + "'"@)),
    }
}

/// The names under which an answer's content may stand.
pub open spec fn content_names() -> Seq<Seq<char>> {
    seq!["response"@, "message"@, "text"@, "payload"@]
}

/// The content of an answer: the first one there is counts.
pub open spec fn answer_content(params: JsonTree) -> Result<Seq<char>, ApiErrorView> {
    match first_member(params, content_names()) {
        None => Err(invalid("robot.respond requires response, message, text, or payload"@)),
        Some(JsonTree::Text(text)) => if text.len() > 0 {
            Ok(text)
        } else {
            Err(invalid("robot response cannot be empty"@))
        },
        Some(JsonTree::Null) => Err(invalid("robot response cannot be null"@)),
        Some(other) => Ok(compact_text(other)),
    }
}

/// An answer to a question, by its content.
pub struct AnswerView {
    pub question_id: i64,
    pub loop_id: Seq<char>,
    pub response_token: Seq<char>,
    pub response: Seq<char>,
}

/// The names under which the number of the question may stand.
pub open spec fn question_id_names() -> Seq<Seq<char>> {
    seq!["questionId"@, "question_id"@, "id"@]
}

/// The names under which the loop may stand.
pub open spec fn loop_id_names() -> Seq<Seq<char>> {
    seq!["loopId"@, "loop_id"@]
}

/// The names under which the token of the question may stand.
pub open spec fn token_names() -> Seq<Seq<char>> {
    seq!["responseToken"@, "response_token"@, "token"@]
}

/// The answer that parameters give, or the first fault that they have.
pub open spec fn answer_of(params: JsonTree) -> Result<AnswerView, ApiErrorView> {
    if !(params is Object) {
        Err(not_an_object("robot.respond"@))
    } else {
        match required_int(params, question_id_names()) {
            Err(error) => Err(error),
            Ok(question_id) => match required_text(params, loop_id_names()) {
                Err(error) => Err(error),
                Ok(loop_id) => match required_text(params, token_names()) {
                    Err(error) => Err(error),
                    Ok(response_token) => match answer_content(params) {
                        Err(error) => Err(error),
                        Ok(response) => Ok(
                            AnswerView { question_id, loop_id, response_token, response },
                        ),
                    },
                },
            },
        }
    }
}

/// The document by which an answer reaches the loop.
pub open spec fn answer_document(answer: AnswerView, timestamp: Seq<char>) -> JsonTree {
    JsonTree::Object(
        Map::empty().insert("id"@, JsonTree::Int(answer.question_id as int)).insert(
            "loop_id"@,
            JsonTree::Text(answer.loop_id),
        ).insert("response_token"@, JsonTree::Text(answer.response_token)).insert(
            "response"@,
            JsonTree::Text(answer.response),
        ).insert("timestamp"@, JsonTree::Text(timestamp)),
    )
}

/// The names under which guidance may stand.
pub open spec fn guidance_names() -> Seq<Seq<char>> {
    seq!["text"@, "message"@, "payload"@]
}

/// The guidance that parameters give, or the fault that they have.
pub open spec fn guidance_of(params: JsonTree) -> Result<Seq<char>, ApiErrorView> {
    if !(params is Object) {
        Err(not_an_object("robot.guidance"@))
    } else {
        required_text(params, guidance_names())
    }
}

/// The file that says where events go.
pub open spec fn marker_file(root: Seq<u8>) -> Seq<u8> {
    path_join(root, encode_utf8(".ralph/current-events"@))
}

/// The file that events go to, by what the marker says.
pub open spec fn events_file(root: Seq<u8>, marker: Seq<char>) -> Result<Seq<u8>, ApiErrorView> {
    let path = encode_utf8(trimmed(marker));
    if trimmed(marker).len() == 0 {
        Err(invalid("active events marker is empty"@))
    } else if climbs(path) {
        Err(invalid("active events marker must not contain parent directory components"@))
    } else if !path_starts_with(path_join(root, path), root) {
        Err(invalid("active events marker resolves outside workspace"@))
    } else {
        Ok(path_join(root, path))
    }
}

/// An event, as a document.
pub open spec fn event_document(
    topic: Seq<char>,
    payload: Seq<char>,
    timestamp: Seq<char>,
) -> JsonTree {
    JsonTree::Object(
        Map::empty().insert("topic"@, JsonTree::Text(topic)).insert(
            "payload"@,
            JsonTree::Text(payload),
        ).insert("ts"@, JsonTree::Text(timestamp)),
    )
}

/// What an answer wrote.
#[derive(Debug)]
pub struct RobotResponseWrite {
    pub question_id: i64,
    pub response: String,
}

/// What guidance wrote.
#[derive(Debug)]
pub struct RobotGuidanceWrite {
    pub text: String,
}

/// A line that is to be added to a file.
#[derive(Debug)]
pub struct FileAppend {
    pub path: UnixPath,
    pub line: String,
}

fn field_list(names: &[&str]) -> (list: String)
    ensures
        list@ == alternatives(views(names@)),
{
    let mut parts: Vec<String> = Vec::new();
    let mut i: usize = 0;
    while i < names.len()
        invariant
            i <= names.len(),
            parts@.len() == i,
            forall|j: int| 0 <= j < i ==> (#[trigger] parts@[j])@ == names@[j]@,
        decreases names.len() - i,
    {
        parts.push(names[i].to_owned());
        i = i + 1;
    }
    assert(parts@.map_values(|part: String| part@) =~= views(names@));
    join(parts.as_slice(), "'/'")
}

fn field_error(start: &str, names: &[&str]) -> (error: ApiError)
    ensures
        error@ == invalid(start@ + alternatives(views(names@)) + "'"@),
{
    let mut message = start.to_owned();
    let list = field_list(names);
    put_two(&mut message, list.as_str(), "'");
    ApiError::invalid_params(message)
}

fn required_i64(params: &Json, names: &[&str]) -> (value: Result<i64, ApiError>)
    ensures
        match value {
            Ok(n) => required_int(params@, views(names@)) == Ok::<i64, ApiErrorView>(n),
            Err(error) => required_int(params@, views(names@)) == Err::<i64, ApiErrorView>(error@),
        },
{
    match params.first_i64(names) {
        Some(n) => Ok(n),
        None => Err(field_error("missing or invalid integer field '", names)),
    }
}

fn required_string(params: &Json, names: &[&str]) -> (value: Result<String, ApiError>)
    ensures
        match value {
            Ok(text) => required_text(params@, views(names@)) == Ok::<Seq<char>, ApiErrorView>(
                text@,
            ),
            Err(error) => required_text(params@, views(names@)) == Err::<Seq<char>, ApiErrorView>(
                error@,
            ),
        },
{
    match params.first_str(names) {
        Some(text) => if is_blank(text) {
            Err(field_error("missing or invalid string field '", names))
        } else {
            Ok(text.to_owned())
        },
        None => Err(field_error("missing or invalid string field '", names)),
    }
}

fn required_response(params: &Json) -> (value: Result<String, ApiError>)
    ensures
        match value {
            Ok(text) => answer_content(params@) == Ok::<Seq<char>, ApiErrorView>(text@),
            Err(error) => answer_content(params@) == Err::<Seq<char>, ApiErrorView>(error@),
        },
{
    let names: [&str; 4] = ["response", "message", "text", "payload"];
    assert(views(names@) =~= content_names());
    let value = match params.first_of(names.as_slice()) {
        Some(value) => value,
        None => return Err(
            ApiError::invalid_params(
                "robot.respond requires response, message, text, or payload".to_owned(),
            ),
        ),
    };
    match value.as_str() {
        Some(text) => if text.is_empty() {
            Err(ApiError::invalid_params("robot response cannot be empty".to_owned()))
        } else {
            Ok(text.to_owned())
        },
        None => if value.is_null() {
            Err(ApiError::invalid_params("robot response cannot be null".to_owned()))
        } else {
            Ok(value.to_text())
        },
    }
}

fn object_params(params: &Json, method: &str) -> (checked: Result<(), ApiError>)
    ensures
        match checked {
            Ok(_) => params@ is Object,
            Err(error) => !(params@ is Object) && error@ == not_an_object(method@),
        },
{
    if params.is_object() {
        Ok(())
    } else {
        let mut message = method.to_owned();
        message.append(" params must be an object");
        Err(ApiError::invalid_params(message))
    }
}

/// What a file holds, given its text if it is there.
pub open spec fn document_in(path: Seq<u8>, raw: Option<Seq<char>>) -> Result<
    Option<JsonTree>,
    ApiErrorView,
> {
    match raw {
        None => Ok(None),
        Some(text) => match parse_outcome(text) {
            Ok(tree) => Ok(Some(tree)),
            Err(reason) => Err(
                ApiErrorView {
                    code: ApiErrorCode::Internal,
                    message: file_failure("parse"@, path, reason),
                },
            ),
        },
    }
}

/// A borrowed text that may be missing, by its content.
pub open spec fn raw_view(raw: Option<&str>) -> Option<Seq<char>> {
    match raw {
        Some(text) => Some(text@),
        None => None,
    }
}

/// Whether a reading is the one that a statement gives.
pub open spec fn reading_is(
    read: Result<Option<Json>, ApiError>,
    stated: Result<Option<JsonTree>, ApiErrorView>,
) -> bool {
    match read {
        Ok(Some(json)) => stated == Ok::<Option<JsonTree>, ApiErrorView>(Some(json@)),
        Ok(None) => stated == Ok::<Option<JsonTree>, ApiErrorView>(None),
        Err(error) => stated == Err::<Option<JsonTree>, ApiErrorView>(error@),
    }
}

fn read_optional_json(path: &UnixPath, raw: Option<&str>) -> (read: Result<Option<Json>, ApiError>)
    ensures
        reading_is(read, document_in(path@, raw_view(raw))),
{
    match raw {
        None => Ok(None),
        Some(text) => match parse_json(text) {
            Ok(json) => Ok(Some(json)),
            Err(reason) => Err(ApiError::file_failed("parse", path, reason.as_str())),
        },
    }
}

/// The line that an event is written as: on one line, to be read as the event.
fn event_line(topic: &str, payload: &str, timestamp: &str) -> (line: String)
    ensures
        line@ == compact_text(event_document(topic@, payload@, timestamp@)).push('\n'),
        !compact_text(event_document(topic@, payload@, timestamp@)).contains('\n'),
        reads_as(
            compact_text(event_document(topic@, payload@, timestamp@)),
            event_document(topic@, payload@, timestamp@),
        ),
{
    let mut entries = no_members();
    put(&mut entries, "topic", Json::Text(topic.to_owned()));
    put(&mut entries, "payload", Json::Text(payload.to_owned()));
    put(&mut entries, "ts", Json::Text(timestamp.to_owned()));
    let event = Json::Object(entries);
    let ghost document = event_document(topic@, payload@, timestamp@);
    assert(event@ == document);
    proof {
        lemma_event_rereadable(topic@, payload@, timestamp@);
    }
    let mut line = event.to_text();
    line.append("\n");
    proof {
        reveal_strlit("\n");
        assert(line@ =~= compact_text(document).push('\n'));
    }
    line
}

proof fn lemma_event_rereadable(topic: Seq<char>, payload: Seq<char>, timestamp: Seq<char>)
    ensures
        rereadable(event_document(topic, payload, timestamp)),
{
    reveal_strlit("topic");
    reveal_strlit("payload");
    reveal_strlit("ts");
    lemma_flat_rereadable(event_document(topic, payload, timestamp));
}

proof fn lemma_answer_rereadable(answer: AnswerView, timestamp: Seq<char>)
    ensures
        rereadable(answer_document(answer, timestamp)),
{
    reveal_strlit("id");
    reveal_strlit("loop_id");
    reveal_strlit("response_token");
    reveal_strlit("response");
    reveal_strlit("timestamp");
    lemma_flat_rereadable(answer_document(answer, timestamp));
}

/// The robot methods, in a workspace.
#[derive(Debug)]
pub struct RobotDomain {
    workspace_root: UnixPath,
}

impl RobotDomain {
    /// The workspace.
    pub closed spec fn root(self) -> Seq<u8> {
        self.workspace_root@
    }

    /// The robot methods, in a workspace.
    pub fn new(workspace_root: UnixPath) -> (domain: RobotDomain)
        ensures
            domain.root() == workspace_root@,
    {
        RobotDomain { workspace_root }
    }

    /// The file of the open question.
    pub fn question_path(&self) -> (path: UnixPath)
        ensures
            path@ == question_file(self.root()),
    {
        question_path(&self.workspace_root)
    }

    /// The file of the last check-in.
    pub fn checkin_path(&self) -> (path: UnixPath)
        ensures
            path@ == checkin_file(self.root()),
    {
        checkin_path(&self.workspace_root)
    }

    /// The file that says where events go.
    pub fn marker_path(&self) -> (path: UnixPath)
        ensures
            path@ == marker_file(self.root()),
    {
        self.workspace_root.join(&UnixPath::from_text(".ralph/current-events"))
    }

    /// The open question, given the text of its file if it is there.
    pub fn question(&self, raw: Option<&str>) -> (question: Result<Option<Json>, ApiError>)
        ensures
            reading_is(question, document_in(question_file(self.root()), raw_view(raw))),
    {
        read_optional_json(&self.question_path(), raw)
    }

    /// The last check-in, given the text of its file if it is there.
    pub fn checkin(&self, raw: Option<&str>) -> (checkin: Result<Option<Json>, ApiError>)
        ensures
            reading_is(checkin, document_in(checkin_file(self.root()), raw_view(raw))),
    {
        read_optional_json(&self.checkin_path(), raw)
    }

    /// Answers a question. What is returned comes with the file that is to be
    /// written, which reads as the answer.
    pub fn respond(&self, params: &Json, timestamp: &str) -> (answered: Result<
        (RobotResponseWrite, FileWrite),
        ApiError,
    >)
        ensures
            match answered {
                Ok((done, write)) => answer_of(params@) matches Ok(answer) && done.question_id
                    == answer.question_id && done.response@ == answer.response && writes(
                    write,
                    response_file(self.root()),
                    answer_document(answer, timestamp@),
                ) && reads_as(
                    pretty_text(answer_document(answer, timestamp@)),
                    answer_document(answer, timestamp@),
                ),
                Err(error) => answer_of(params@) == Err::<AnswerView, ApiErrorView>(error@),
            },
    {
        if let Err(error) = object_params(params, "robot.respond") {
            return Err(error);
        }
        let id_names: [&str; 3] = ["questionId", "question_id", "id"];
        let loop_names: [&str; 2] = ["loopId", "loop_id"];
        let token_name_list: [&str; 3] = ["responseToken", "response_token", "token"];
        assert(views(id_names@) =~= question_id_names());
        assert(views(loop_names@) =~= loop_id_names());
        assert(views(token_name_list@) =~= token_names());
        let question_id: i64 = match required_i64(params, id_names.as_slice()) {
            Ok(id) => id,
            Err(error) => return Err(error),
        };
        let loop_id = match required_string(params, loop_names.as_slice()) {
            Ok(text) => text,
            Err(error) => return Err(error),
        };
        let response_token = match required_string(params, token_name_list.as_slice()) {
            Ok(text) => text,
            Err(error) => return Err(error),
        };
        let response = match required_response(params) {
            Ok(text) => text,
            Err(error) => return Err(error),
        };
        let ghost answer = AnswerView {
            question_id,
            loop_id: loop_id@,
            response_token: response_token@,
            response: response@,
        };
        let mut entries = no_members();
        put(&mut entries, "id", Json::Signed(question_id));
        put(&mut entries, "loop_id", Json::Text(loop_id));
        put(&mut entries, "response_token", Json::Text(response_token));
        put(&mut entries, "response", Json::Text(response.clone()));
        put(&mut entries, "timestamp", Json::Text(timestamp.to_owned()));
        let document = Json::Object(entries);
        assert(document@ == answer_document(answer, timestamp@));
        proof {
            lemma_answer_rereadable(answer, timestamp@);
        }
        let write = write_json_atomic(&self.workspace_root, ApiFile::Response, &document);
        Ok((RobotResponseWrite { question_id, response }, write))
    }

    /// The file that events go to, by what the marker says.
    pub fn active_events_path(&self, marker: &str) -> (path: Result<UnixPath, ApiError>)
        ensures
            match path {
                Ok(path) => events_file(self.root(), marker@) == Ok::<Seq<u8>, ApiErrorView>(path@),
                Err(error) => events_file(self.root(), marker@) == Err::<Seq<u8>, ApiErrorView>(
                    error@,
                ),
            },
    {
        let marker = trim(marker);
        if marker.is_empty() {
            return Err(ApiError::invalid_params("active events marker is empty".to_owned()));
        }
        let marker_path = UnixPath::from_text(marker);
        if marker_path.has_parent_part() {
            return Err(
                ApiError::invalid_params(
                    "active events marker must not contain parent directory components".to_owned(),
                ),
            );
        }
        let resolved = self.workspace_root.join(&marker_path);
        if !resolved.starts_with(&self.workspace_root) {
            return Err(
                ApiError::invalid_params(
                    "active events marker resolves outside workspace".to_owned(),
                ),
            );
        }
        Ok(resolved)
    }

    /// Gives guidance, given the text of the marker, or the reason why it cannot be
    /// read. What is returned comes with the line that is to be added to the file of
    /// events.
    pub fn guidance(
        &self,
        params: &Json,
        marker: Result<&str, &str>,
        timestamp: &str,
    ) -> (given: Result<(RobotGuidanceWrite, FileAppend), ApiError>)
        ensures
            match given {
                Ok((done, append)) => guidance_of(params@) == Ok::<Seq<char>, ApiErrorView>(
                    done.text@,
                ) && marker is Ok && events_file(self.root(), marker->Ok_0@) == Ok::<
                    Seq<u8>,
                    ApiErrorView,
                >(append.path@) && append.line@ == compact_text(
                    event_document("human.guidance"@, done.text@, timestamp@),
                ).push('\n') && !compact_text(
                    event_document("human.guidance"@, done.text@, timestamp@),
                ).contains('\n') && reads_as(
                    compact_text(event_document("human.guidance"@, done.text@, timestamp@)),
                    event_document("human.guidance"@, done.text@, timestamp@),
                ),
                Err(error) => guidance_refusal(self.root(), params@, marker_view(marker)) == Some(
                    error@,
                ),
            },
            given is Ok <==> guidance_refusal(self.root(), params@, marker_view(marker)) is None,
    {
        if let Err(error) = object_params(params, "robot.guidance") {
            return Err(error);
        }
        let names: [&str; 3] = ["text", "message", "payload"];
        assert(views(names@) =~= guidance_names());
        let text = match required_string(params, names.as_slice()) {
            Ok(text) => text,
            Err(error) => return Err(error),
        };
        let marker_text = match marker {
            Ok(marker_text) => marker_text,
            Err(reason) => {
                let message = file_failure_text(
                    "read active events marker",
                    &self.marker_path(),
                    reason,
                );
                return Err(ApiError { code: ApiErrorCode::NotFound, message });
            },
        };
        let path = match self.active_events_path(marker_text) {
            Ok(path) => path,
            Err(error) => return Err(error),
        };
        let line = event_line("human.guidance", text.as_str(), timestamp);
        Ok((RobotGuidanceWrite { text }, FileAppend { path, line }))
    }
}

/// What is known of the marker, by its content.
pub open spec fn marker_view(marker: Result<&str, &str>) -> Result<Seq<char>, Seq<char>> {
    match marker {
        Ok(text) => Ok(text@),
        Err(reason) => Err(reason@),
    }
}

/// Why guidance is refused, if it is: for its parameters, for a marker that cannot
/// be read, or for what the marker says, in this order.
pub open spec fn guidance_refusal(
    root: Seq<u8>,
    params: JsonTree,
    marker: Result<Seq<char>, Seq<char>>,
) -> Option<ApiErrorView> {
    match guidance_of(params) {
        Err(error) => Some(error),
        Ok(_) => match marker {
            Err(reason) => Some(
                ApiErrorView {
                    code: ApiErrorCode::NotFound,
                    message: file_failure(
                        "read active events marker"@,
                        marker_file(root),
                        reason,
                    ),
                },
            ),
            Ok(text) => match events_file(root, text) {
                Err(error) => Some(error),
                Ok(_) => None,
            },
        },
    }
}

impl Clone for RobotDomain {
    fn clone(&self) -> (copy: RobotDomain)
        ensures
            copy.root() == self.root(),
    {
        RobotDomain { workspace_root: self.workspace_root.clone() }
    }
}

/// Events never go to a file outside the workspace: past the parts of the workspace
/// the path has nothing but names.
pub proof fn law_events_stay_in_workspace(root: Seq<u8>, marker: Seq<char>, i: int)
    requires
        root.len() > 0,
        events_file(root, marker) is Ok,
        parts(root).len() <= i < parts(events_file(root, marker)->Ok_0).len(),
    ensures
        path_starts_with(events_file(root, marker)->Ok_0, root),
        parts(events_file(root, marker)->Ok_0)[i] is Name,
{
    law_followed_path_goes_down(root, encode_utf8(trimmed(marker)), i);
}

/// A marker that names a place relative to the workspace, and climbs nowhere, is
/// always followed.
pub proof fn law_relative_marker_accepted(root: Seq<u8>, marker: Seq<char>)
    requires
        trimmed(marker).len() > 0,
        !absolute(encode_utf8(trimmed(marker))),
        !climbs(encode_utf8(trimmed(marker))),
    ensures
        events_file(root, marker) is Ok,
{
    law_relative_path_stays_below(root, encode_utf8(trimmed(marker)));
}

} // verus!
