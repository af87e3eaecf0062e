//! The loop's side of the robot protocol: it asks a question by writing a file, and
//! waits for a file with the answer.
//!
//! Files are read and written by the caller. Each function here takes what was read
//! and says what is to be written, removed or waited for.

use crate::api_files::{
    api_dir, api_dir_path, checkin_file, checkin_path, question_file, question_path,
    response_file, response_path, write_json_atomic, writes, ApiFile, FileWrite,
};
use crate::clock::{now_micros, now_rfc3339};
use crate::codec::{parse_json, parse_outcome};
use crate::document_laws::law_question_says_what_was_asked;
use crate::json::{
    at_path, first_int, first_text, member, no_members, number_tree, put, views, Json, JsonTree,
};
use crate::paths::UnixPath;
use crate::robot_domain::{content_names, raw_view};
use crate::session::plain_text;
use crate::text::{lossy_text, signed_decimal, signed_decimal_text};
use vstd::prelude::*;
use vstd::string::StringExecFns;

verus! {

/// How long to wait between two looks at the answer's file, in milliseconds.
pub const POLL_INTERVAL_MILLIS: u64 = 250;

/// A question that waits for its answer, by its content.
pub struct QuestionView {
    pub id: i32,
    pub response_token: Seq<char>,
}

/// A question that waits for its answer.
#[derive(Debug)]
pub struct ActiveQuestion {
    pub id: i32,
    pub response_token: String,
}

impl ActiveQuestion {
    pub open spec fn view(self) -> QuestionView {
        QuestionView { id: self.id, response_token: self.response_token@ }
    }
}

impl Clone for ActiveQuestion {
    fn clone(&self) -> (copy: ActiveQuestion)
        ensures
            copy@ == self@,
    {
        ActiveQuestion { id: self.id, response_token: self.response_token.clone() }
    }
}

/// An optional question, by its content.
pub open spec fn question_view(question: Option<ActiveQuestion>) -> Option<QuestionView> {
    match question {
        Some(question) => Some(question@),
        None => None,
    }
}

/// The service, by its content.
pub struct ServiceView {
    pub root: Seq<u8>,
    pub timeout_secs: u64,
    pub loop_id: Seq<char>,
    pub next_question_id: i32,
    pub active: Option<QuestionView>,
}

/// Whether the number of a question that waits is used up: the next number is beyond
/// it, unless numbers have run out.
pub open spec fn numbered(service: ServiceView) -> bool {
    service.active matches Some(question) ==> within_numbers(question.id, service)
}

/// Whether a number is below the next one, unless numbers have run out.
pub open spec fn within_numbers(id: i32, service: ServiceView) -> bool {
    id < i32::MAX ==> id < service.next_question_id
}

/// What went wrong, by its content.
pub struct RobotErrorView {
    pub message: Seq<char>,
    pub cause: Option<Seq<char>>,
}

/// What went wrong, and what caused it.
#[derive(Debug)]
pub struct RobotError {
    pub message: String,
    pub cause: Option<String>,
}

impl RobotError {
    pub open spec fn view(self) -> RobotErrorView {
        RobotErrorView {
            message: self.message@,
            cause: match self.cause {
                Some(cause) => Some(cause@),
                None => None,
            },
        }
    }

    /// Something could not be done to a file.
    pub fn file_failed(action: &str, path: &UnixPath, cause: String) -> (error: RobotError)
        ensures
            error@ == file_error(action@, path@, cause@),
    {
        let mut message = "failed to ".to_owned();
        message.append(action);
        message.append(" ");
        let shown = path.display();
        message.append(shown.as_str());
        RobotError { message, cause: Some(cause) }
    }
}

/// The error that something could not be done to a file.
pub open spec fn file_error(action: Seq<char>, path: Seq<u8>, cause: Seq<char>) -> RobotErrorView {
    RobotErrorView {
        message: "failed to "@ + action + " "@ + lossy_text(path),
        cause: Some(cause),
    }
}

/// The question that a document holds, if it is one of the given loop.
pub open spec fn question_in(document: JsonTree, loop_id: Seq<char>) -> Option<QuestionView> {
    if !(document is Object) || first_text(document, seq!["loop_id"@]) != Some(loop_id) {
        None
    } else {
        match (
            first_int(document, seq!["id"@]),
            first_text(document, seq!["response_token"@, "token"@]),
        ) {
            (Some(id), Some(response_token)) => if i32::MIN <= id <= i32::MAX {
                Some(QuestionView { id: id as i32, response_token })
            } else {
                None
            },
            _ => None,
        }
    }
}

/// The number after a question's, as far as numbers go.
pub open spec fn number_after(id: i32) -> i32 {
    if id == i32::MAX {
        i32::MAX
    } else {
        (id + 1) as i32
    }
}

/// The service after it has looked for a question that waits, given the text of the
/// question's file if it is there. A question that it knows of comes first; one that
/// it finds keeps its number from being used again.
pub open spec fn hydrated(service: ServiceView, raw: Option<Seq<char>>) -> Result<
    ServiceView,
    RobotErrorView,
> {
    if service.active is Some {
        Ok(service)
    } else {
        match raw {
            None => Ok(service),
            Some(text) => match parse_outcome(text) {
                Err(cause) => Err(file_error("parse"@, question_file(service.root), cause)),
                Ok(document) => match question_in(document, service.loop_id) {
                    None => Ok(service),
                    Some(question) => Ok(
                        ServiceView {
                            next_question_id: if number_after(question.id)
                                > service.next_question_id {
                                number_after(question.id)
                            } else {
                                service.next_question_id
                            },
                            active: Some(question),
                            ..service
                        },
                    ),
                },
            },
        }
    }
}

/// The token of a question.
pub open spec fn question_token(loop_id: Seq<char>, id: i32, micros: i64) -> Seq<char> {
    loop_id + "-"@ + signed_decimal(id as int) + "-"@ + signed_decimal(micros as int)
}

/// The first of some paths that leads anywhere in a document; `null` without one.
pub open spec fn found_at(document: Option<JsonTree>, paths: Seq<Seq<Seq<char>>>) -> JsonTree
    decreases paths.len(),
{
    if document is None || paths.len() == 0 {
        JsonTree::Null
    } else {
        match at_path(document->0, paths[0]) {
            Some(found) => found,
            None => found_at(document, paths.drop_first()),
        }
    }
}

/// Where a payload may say which hat is worn.
pub open spec fn hat_paths() -> Seq<Seq<Seq<char>>> {
    seq![
        seq!["hat"@],
        seq!["current_hat"@],
        seq!["context"@, "hat"@],
        seq!["context"@, "current_hat"@],
        seq!["metadata"@, "hat"@],
        seq!["metadata"@, "current_hat"@],
    ]
}

/// Where a payload may say which iteration it is.
pub open spec fn iteration_paths() -> Seq<Seq<Seq<char>>> {
    seq![seq!["iteration"@], seq!["context"@, "iteration"@], seq!["metadata"@, "iteration"@]]
}

/// A payload as a document, where it is one.
pub open spec fn payload_document(payload: Seq<char>) -> Option<JsonTree> {
    match parse_outcome(payload) {
        Ok(document) => Some(document),
        Err(_) => None,
    }
}

/// The document by which a question is asked.
pub open spec fn question_document(
    service: ServiceView,
    question: QuestionView,
    payload: Seq<char>,
    timestamp: Seq<char>,
) -> JsonTree {
    question_document_of(service, question, payload, payload_document(payload), timestamp)
}

/// The document by which a question is asked, given its payload as a document, where
/// it is one.
pub open spec fn question_document_of(
    service: ServiceView,
    question: QuestionView,
    payload: Seq<char>,
    parsed: Option<JsonTree>,
    timestamp: Seq<char>,
) -> JsonTree {
    JsonTree::Object(
        Map::empty().insert("id"@, JsonTree::Int(question.id as int)).insert(
            "response_token"@,
            JsonTree::Text(question.response_token),
        ).insert("payload"@, JsonTree::Text(payload)).insert(
            "payload_json"@,
            match parsed {
                Some(document) => document,
                None => JsonTree::Null,
            },
        ).insert("hat"@, found_at(parsed, hat_paths())).insert(
            "iteration"@,
            found_at(parsed, iteration_paths()),
        ).insert("loop_id"@, JsonTree::Text(service.loop_id)).insert(
            "timestamp"@,
            JsonTree::Text(timestamp),
        ).insert("timeout_seconds"@, JsonTree::Int(service.timeout_secs as int)),
    )
}

/// The question that the service asks next.
pub open spec fn next_question(service: ServiceView, micros: i64) -> QuestionView {
    QuestionView {
        id: service.next_question_id,
        response_token: question_token(service.loop_id, service.next_question_id, micros),
    }
}

/// The number that follows the last one that was used; numbers start again at the
/// lowest one when they run out.
pub open spec fn number_used(id: i32) -> i32 {
    if id == i32::MAX {
        i32::MIN
    } else {
        (id + 1) as i32
    }
}

/// What to do to ask a question.
#[derive(Debug)]
pub enum QuestionPlan {
    /// A question waits already: its number.
    Reuse(i32),
    /// Write the file. The question is asked when it is written.
    Write { question: ActiveQuestion, write: FileWrite },
}

/// The service after a question has been asked for, up to the writing of its file.
pub open spec fn asked(service: ServiceView) -> ServiceView {
    if service.active is Some {
        service
    } else {
        ServiceView { next_question_id: number_used(service.next_question_id), ..service }
    }
}

/// What a look at the answer's file amounts to, by its content.
pub enum ResponseView {
    Ready(Seq<char>),
    Incomplete,
    Stale,
    Invalid(Seq<char>),
}

/// What a look at the answer's file amounts to.
#[derive(Debug)]
pub enum ResponseRead {
    /// The answer.
    Ready(String),
    /// There is no answer yet.
    Incomplete,
    /// The answer is to another question.
    Stale,
    /// The answer says nothing.
    Invalid(String),
}

impl ResponseRead {
    pub open spec fn view(self) -> ResponseView {
        match self {
            ResponseRead::Ready(text) => ResponseView::Ready(text@),
            ResponseRead::Incomplete => ResponseView::Incomplete,
            ResponseRead::Stale => ResponseView::Stale,
            ResponseRead::Invalid(message) => ResponseView::Invalid(message@),
        }
    }

    /// Whether the answer's file is to be removed after this look at it.
    pub fn is_discarded(&self) -> (r: bool)
        ensures
            r == discards(self@),
    {
        match self {
            ResponseRead::Stale => true,
            ResponseRead::Invalid(_) => true,
            _ => false,
        }
    }
}

/// The first of some names that an object has a member under.
pub open spec fn first_name(document: JsonTree, names: Seq<Seq<char>>) -> Option<Seq<char>>
    decreases names.len(),
{
    if names.len() == 0 {
        None
    } else if member(document, names[0]) is Some {
        Some(names[0])
    } else {
        first_name(document, names.drop_first())
    }
}

/// The content of an answer: a string as it is, of an object the first of the members
/// that may hold it, and anything else in JSON notation.
pub open spec fn response_content(document: JsonTree) -> Result<Seq<char>, Seq<char>> {
    if !(document is Object) {
        Ok(plain_text(document))
    } else {
        match first_name(document, content_names()) {
            None => Err("robot response must contain one of: response, message, text, payload"@),
            Some(name) => match member(document, name)->0 {
                JsonTree::Null => Err("response field '"@ + name + "' is null"@),
                content => Ok(plain_text(content)),
            },
        }
    }
}

/// Whether an object has a member under one of some names that is not `null`.
pub open spec fn has_content(document: JsonTree, names: Seq<Seq<char>>) -> bool {
    exists|i: int|
        0 <= i < names.len() && member(document, #[trigger] names[i]) is Some && !(member(
            document,
            names[i],
        )->0 is Null)
}

/// What a document amounts to as the answer to a question of a loop. It must name the
/// question by its number, its loop and its token. Where it names another, it is
/// stale; where it does not say, or has no content, it is incomplete.
pub open spec fn correlated(
    document: JsonTree,
    question: QuestionView,
    loop_id: Seq<char>,
) -> ResponseView {
    let id = first_int(document, seq!["id"@, "question_id"@]);
    let named_loop = first_text(document, seq!["loop_id"@]);
    let token = first_text(document, seq!["response_token"@, "token"@]);
    if !(document is Object) {
        ResponseView::Stale
    } else if id is None {
        ResponseView::Incomplete
    } else if id->0 != question.id {
        ResponseView::Stale
    } else if named_loop is None {
        ResponseView::Incomplete
    } else if named_loop->0 != loop_id {
        ResponseView::Stale
    } else if token is None {
        ResponseView::Incomplete
    } else if token->0 != question.response_token {
        ResponseView::Stale
    } else if !has_content(document, content_names()) {
        ResponseView::Incomplete
    } else {
        match response_content(document) {
            Ok(text) => ResponseView::Ready(text),
            Err(message) => ResponseView::Invalid(message),
        }
    }
}

/// What the answer's file amounts to, given its text if it is there. A text that is
/// no JSON is taken for one that is still being written.
pub open spec fn response_in(
    raw: Option<Seq<char>>,
    question: QuestionView,
    loop_id: Seq<char>,
) -> ResponseView {
    match raw {
        None => ResponseView::Incomplete,
        Some(text) => match parse_outcome(text) {
            Err(_) => ResponseView::Incomplete,
            Ok(document) => correlated(document, question, loop_id),
        },
    }
}

/// Whether the answer's file is to be removed after a look at it.
pub open spec fn discards(response: ResponseView) -> bool {
    response is Stale || response is Invalid
}

/// What one who waits for an answer does next, by its content.
pub enum WaitView {
    Answered(Seq<char>),
    Interrupted,
    TimedOut,
    Sleep(u64),
}

/// What one who waits for an answer does next. In all cases but the last the
/// question's file and the answer's are removed first.
#[derive(Debug)]
pub enum WaitStep {
    /// Return the answer.
    Answered(String),
    /// Return nothing: the loop is shutting down.
    Interrupted,
    /// Return nothing: the time is up.
    TimedOut,
    /// Look again after some milliseconds.
    Sleep(u64),
}

impl WaitStep {
    pub open spec fn view(self) -> WaitView {
        match self {
            WaitStep::Answered(text) => WaitView::Answered(text@),
            WaitStep::Interrupted => WaitView::Interrupted,
            WaitStep::TimedOut => WaitView::TimedOut,
            WaitStep::Sleep(millis) => WaitView::Sleep(millis),
        }
    }
}

/// What follows a look at the answer's file: an answer comes before a shutdown, and
/// a shutdown before the end of the time. A time of zero does not end.
pub open spec fn wait_view(
    response: ResponseView,
    shutdown: bool,
    timeout_secs: u64,
    elapsed_secs: u64,
) -> WaitView {
    match response {
        ResponseView::Ready(text) => WaitView::Answered(text),
        _ => if shutdown {
            WaitView::Interrupted
        } else if timeout_secs != 0 && elapsed_secs >= timeout_secs {
            WaitView::TimedOut
        } else {
            WaitView::Sleep(POLL_INTERVAL_MILLIS)
        },
    }
}

/// What a loop reports of itself beside its iteration. A cost that is no number has
/// none here.
#[derive(Debug)]
pub struct CheckinContext {
    pub current_hat: Option<String>,
    pub open_tasks: u64,
    pub closed_tasks: u64,
    pub cumulative_cost: Option<serde_json::Number>,
}

/// What a loop reports of itself, as a document.
pub open spec fn context_document(context: Option<&CheckinContext>) -> JsonTree {
    match context {
        None => JsonTree::Null,
        Some(context) => JsonTree::Object(
            Map::empty().insert(
                "current_hat"@,
                match context.current_hat {
                    Some(hat) => JsonTree::Text(hat@),
                    None => JsonTree::Null,
                },
            ).insert("open_tasks"@, JsonTree::Int(context.open_tasks as int)).insert(
                "closed_tasks"@,
                JsonTree::Int(context.closed_tasks as int),
            ).insert(
                "cumulative_cost"@,
                match context.cumulative_cost {
                    Some(cost) => number_tree(cost),
                    None => JsonTree::Null,
                },
            ),
        ),
    }
}

/// The document by which a loop reports.
pub open spec fn checkin_document(
    service: ServiceView,
    iteration: u32,
    elapsed_millis: u64,
    context: Option<&CheckinContext>,
    timestamp: Seq<char>,
) -> JsonTree {
    JsonTree::Object(
        Map::empty().insert("iteration"@, JsonTree::Int(iteration as int)).insert(
            "elapsed_seconds"@,
            JsonTree::Int(elapsed_millis as int / 1000),
        ).insert("elapsed_millis"@, JsonTree::Int(elapsed_millis as int)).insert(
            "loop_id"@,
            JsonTree::Text(service.loop_id),
        ).insert("timestamp"@, JsonTree::Text(timestamp)).insert(
            "context"@,
            context_document(context),
        ),
    )
}

/// The loop's side of the robot protocol.
#[derive(Debug)]
pub struct WebRobotService {
    workspace_root: UnixPath,
    timeout_secs: u64,
    loop_id: String,
    next_question_id: i32,
    active_question: Option<ActiveQuestion>,
}

impl WebRobotService {
    pub closed spec fn view(self) -> ServiceView {
        ServiceView {
            root: self.workspace_root@,
            timeout_secs: self.timeout_secs,
            loop_id: self.loop_id@,
            next_question_id: self.next_question_id,
            active: question_view(self.active_question),
        }
    }

    #[verifier::type_invariant]
    spec fn in_order(self) -> bool {
        numbered(self@)
    }

    /// A service that has asked nothing yet.
    pub fn new(workspace_root: UnixPath, timeout_secs: u64, loop_id: String) -> (service:
        WebRobotService)
        ensures
            service@ == (ServiceView {
                root: workspace_root@,
                timeout_secs,
                loop_id: loop_id@,
                next_question_id: 1,
                active: None,
            }),
            numbered(service@),
    {
        WebRobotService {
            workspace_root,
            timeout_secs,
            loop_id,
            next_question_id: 1,
            active_question: None,
        }
    }

    /// How long an answer is waited for, in seconds; zero for as long as it takes.
    pub fn timeout_secs(&self) -> (secs: u64)
        ensures
            secs == self@.timeout_secs,
    {
        self.timeout_secs
    }

    /// The loop that asks.
    pub fn loop_id(&self) -> (loop_id: &str)
        ensures
            loop_id@ == self@.loop_id,
    {
        self.loop_id.as_str()
    }

    /// The directory of the files.
    pub fn api_dir(&self) -> (path: UnixPath)
        ensures
            path@ == api_dir(self@.root),
    {
        api_dir_path(&self.workspace_root)
    }

    /// The file of the open question.
    pub fn question_path(&self) -> (path: UnixPath)
        ensures
            path@ == question_file(self@.root),
    {
        question_path(&self.workspace_root)
    }

    /// The file of the answer.
    pub fn response_path(&self) -> (path: UnixPath)
        ensures
            path@ == response_file(self@.root),
    {
        response_path(&self.workspace_root)
    }

    /// The file of the last check-in.
    pub fn checkin_path(&self) -> (path: UnixPath)
        ensures
            path@ == checkin_file(self@.root),
    {
        checkin_path(&self.workspace_root)
    }

    /// Whether the service knows of a question that waits, so that its file need not
    /// be read.
    pub fn has_active_question(&self) -> (known: bool)
        ensures
            known == (self@.active is Some),
    {
        self.active_question.is_some()
    }

    /// The question that a document holds, if it is one of this loop.
    pub fn hydrate_active_question(&self, document: &Json) -> (question: Option<ActiveQuestion>)
        ensures
            question_view(question) == question_in(document@, self@.loop_id),
    {
        let loop_names: [&str; 1] = ["loop_id"];
        let id_names: [&str; 1] = ["id"];
        let token_names: [&str; 2] = ["response_token", "token"];
        assert(views(loop_names@) =~= seq!["loop_id"@]);
        assert(views(id_names@) =~= seq!["id"@]);
        assert(views(token_names@) =~= seq!["response_token"@, "token"@]);
        if !document.is_object() {
            return None;
        }
        match document.first_str(loop_names.as_slice()) {
            Some(named_loop) => {
                if named_loop.to_owned() != self.loop_id {
                    return None;
                }
            },
            None => return None,
        }
        let id: i64 = match document.first_i64(id_names.as_slice()) {
            Some(id) => id,
            None => return None,
        };
        if id < i32::MIN as i64 || id > i32::MAX as i64 {
            return None;
        }
        match document.first_str(token_names.as_slice()) {
            Some(token) => Some(
                ActiveQuestion { id: id as i32, response_token: token.to_owned() },
            ),
            None => None,
        }
    }

    /// Looks for a question that waits, given the text of its file if it is there.
    pub fn get_active_question(&mut self, raw: Option<&str>) -> (found: Result<
        Option<ActiveQuestion>,
        RobotError,
    >)
        ensures
            match found {
                Ok(question) => hydrated(old(self)@, raw_view(raw)) == Ok::<
                    ServiceView,
                    RobotErrorView,
                >(final(self)@) && question_view(question) == final(self)@.active,
                Err(error) => hydrated(old(self)@, raw_view(raw)) == Err::<
                    ServiceView,
                    RobotErrorView,
                >(error@) && final(self)@ == old(self)@,
            },
            numbered(final(self)@),
    {
        proof {
            use_type_invariant(&*self);
        }
        if let Some(question) = &self.active_question {
            return Ok(Some(question.clone()));
        }
        let text = match raw {
            Some(text) => text,
            None => return Ok(None),
        };
        let document = match parse_json(text) {
            Ok(document) => document,
            Err(cause) => {
                return Err(RobotError::file_failed("parse", &self.question_path(), cause));
            },
        };
        let question = match self.hydrate_active_question(&document) {
            Some(question) => question,
            None => return Ok(None),
        };
        let after: i32 = if question.id == i32::MAX {
            i32::MAX
        } else {
            question.id + 1
        };
        if after > self.next_question_id {
            self.next_question_id = after;
        }
        self.active_question = Some(question.clone());
        Ok(Some(question))
    }

    /// Asks a question, given the text of the question's file if it is there, and the
    /// time. A question that waits is asked again in its place.
    pub fn send_question_at(
        &mut self,
        payload: &str,
        raw: Option<&str>,
        micros: i64,
        timestamp: &str,
    ) -> (plan: Result<QuestionPlan, RobotError>)
        ensures
            question_planned(
                old(self)@,
                final(self)@,
                payload@,
                raw_view(raw),
                micros,
                timestamp@,
                plan,
            ),
            numbered(final(self)@),
            plan matches Ok(QuestionPlan::Write { question, .. }) ==> within_numbers(
                question.id,
                final(self)@,
            ),
    {
        let waiting = match self.get_active_question(raw) {
            Ok(waiting) => waiting,
            Err(error) => return Err(error),
        };
        if let Some(question) = waiting {
            return Ok(QuestionPlan::Reuse(question.id));
        }
        let ghost service = self@;
        let id: i32 = self.next_question_id;
        self.next_question_id = if id == i32::MAX {
            i32::MIN
        } else {
            id + 1
        };
        let mut response_token = self.loop_id.clone();
        let id_text = signed_decimal_text(id as i64);
        let micros_text = signed_decimal_text(micros);
        response_token.append("-");
        response_token.append(id_text.as_str());
        response_token.append("-");
        response_token.append(micros_text.as_str());
        assert(response_token@ == question_token(service.loop_id, id, micros));
        let question = ActiveQuestion { id, response_token };
        let parsed = match parse_json(payload) {
            Ok(document) => Some(document),
            Err(_) => None,
        };
        let document = self.question_json(&question, payload, parsed, timestamp);
        let write = write_json_atomic(&self.workspace_root, ApiFile::Question, &document);
        Ok(QuestionPlan::Write { question, write })
    }

    /// Asks a question, given the text of the question's file if it is there.
    pub fn send_question(&mut self, payload: &str, raw: Option<&str>) -> (plan: Result<
        QuestionPlan,
        RobotError,
    >)
        ensures
            exists|micros: i64, timestamp: Seq<char>| #[trigger]
                question_planned(
                    old(self)@,
                    final(self)@,
                    payload@,
                    raw_view(raw),
                    micros,
                    timestamp,
                    plan,
                ),
            numbered(final(self)@),
            plan matches Ok(QuestionPlan::Write { question, .. }) ==> within_numbers(
                question.id,
                final(self)@,
            ),
    {
        let micros: i64 = now_micros();
        let timestamp = now_rfc3339();
        self.send_question_at(payload, raw, micros, timestamp.as_str())
    }

    /// The document by which a question is asked, given its payload as a document,
    /// where it is one.
    pub fn question_json(
        &self,
        question: &ActiveQuestion,
        payload: &str,
        parsed: Option<Json>,
        timestamp: &str,
    ) -> (document: Json)
        ensures
            document@ == question_document_of(
                self@,
                question@,
                payload@,
                document_view(parsed),
                timestamp@,
            ),
            document@ is Object,
            document@->Object_0["payload"@] == JsonTree::Text(payload@),
    {
        proof {
            law_question_says_what_was_asked(
                self@,
                question@,
                payload@,
                document_view(parsed),
                timestamp@,
            );
        }
        let hat = hat_of(&parsed);
        let iteration = iteration_of(&parsed);
        let mut entries = no_members();
        put(&mut entries, "id", Json::Signed(question.id as i64));
        put(&mut entries, "response_token", Json::Text(question.response_token.clone()));
        put(&mut entries, "payload", Json::Text(payload.to_owned()));
        put(
            &mut entries,
            "payload_json",
            match parsed {
                Some(document) => document,
                None => Json::Null,
            },
        );
        put(&mut entries, "hat", hat);
        put(&mut entries, "iteration", iteration);
        put(&mut entries, "loop_id", Json::Text(self.loop_id.clone()));
        put(&mut entries, "timestamp", Json::Text(timestamp.to_owned()));
        put(&mut entries, "timeout_seconds", Json::Unsigned(self.timeout_secs));
        Json::Object(entries)
    }

    /// Whether a number has been used up. The largest one counts as such: it is given
    /// again and again.
    pub fn has_given_out(&self, id: i32) -> (r: bool)
        ensures
            r == within_numbers(id, self@),
    {
        id == i32::MAX || id < self.next_question_id
    }

    /// The file of a question has been written. The question must have a number that
    /// was used up.
    pub fn question_written(&mut self, question: ActiveQuestion)
        requires
            within_numbers(question.id, old(self)@),
        ensures
            final(self)@ == (ServiceView { active: Some(question@), ..old(self)@ }),
            numbered(final(self)@),
    {
        self.active_question = Some(question);
    }

    /// The files of a question and its answer have been removed.
    pub fn question_closed(&mut self)
        ensures
            final(self)@ == (ServiceView { active: None, ..old(self)@ }),
            numbered(final(self)@),
    {
        self.active_question = None;
    }

    /// Starts to wait for an answer, given the text of the question's file if it is
    /// there.
    pub fn wait_for_response(&mut self, raw: Option<&str>) -> (question: Result<
        ActiveQuestion,
        RobotError,
    >)
        ensures
            match question {
                Ok(question) => hydrated(old(self)@, raw_view(raw)) == Ok::<
                    ServiceView,
                    RobotErrorView,
                >(final(self)@) && final(self)@.active == Some(question@),
                Err(error) => (hydrated(old(self)@, raw_view(raw)) == Err::<
                    ServiceView,
                    RobotErrorView,
                >(error@) && final(self)@ == old(self)@) || (hydrated(old(self)@, raw_view(raw))
                    == Ok::<ServiceView, RobotErrorView>(final(self)@) && final(self)@.active
                    is None && error@ == nothing_waits()),
            },
            numbered(final(self)@),
    {
        match self.get_active_question(raw) {
            Ok(Some(question)) => Ok(question),
            Ok(None) => Err(
                RobotError { message: "no active web robot question".to_owned(), cause: None },
            ),
            Err(error) => Err(error),
        }
    }

    /// What the answer's file amounts to, given its text if it is there.
    pub fn read_response(&self, question: &ActiveQuestion, raw: Option<&str>) -> (response:
        ResponseRead)
        ensures
            response@ == response_in(raw_view(raw), question@, self@.loop_id),
    {
        match raw {
            None => ResponseRead::Incomplete,
            Some(text) => match parse_json(text) {
                Ok(document) => extract_correlated_response(
                    &document,
                    question,
                    self.loop_id.as_str(),
                ),
                Err(_) => ResponseRead::Incomplete,
            },
        }
    }

    /// What follows a look at the answer's file.
    pub fn wait_step(&self, response: ResponseRead, shutdown: bool, elapsed_secs: u64) -> (step:
        WaitStep)
        ensures
            step@ == wait_view(response@, shutdown, self@.timeout_secs, elapsed_secs),
            !(response is Ready) && !shutdown && (self@.timeout_secs == 0 || elapsed_secs
                < self@.timeout_secs) ==> step == WaitStep::Sleep(POLL_INTERVAL_MILLIS),
            step is TimedOut ==> self@.timeout_secs > 0 && elapsed_secs >= self@.timeout_secs,
    {
        if let ResponseRead::Ready(text) = response {
            return WaitStep::Answered(text);
        }
        if shutdown {
            WaitStep::Interrupted
        } else if self.timeout_secs != 0 && elapsed_secs >= self.timeout_secs {
            WaitStep::TimedOut
        } else {
            WaitStep::Sleep(POLL_INTERVAL_MILLIS)
        }
    }

    /// Reports, given the time. What is returned comes with the file that is to be
    /// written.
    pub fn send_checkin_at(
        &self,
        iteration: u32,
        elapsed_millis: u64,
        context: Option<&CheckinContext>,
        timestamp: &str,
    ) -> (sent: (i32, FileWrite))
        ensures
            sent.0 == 0,
            writes(
                sent.1,
                checkin_file(self@.root),
                checkin_document(self@, iteration, elapsed_millis, context, timestamp@),
            ),
    {
        let context = context_json(context);
        let mut entries = no_members();
        put(&mut entries, "iteration", Json::Unsigned(iteration as u64));
        put(&mut entries, "elapsed_seconds", Json::Unsigned(elapsed_millis / 1000));
        put(&mut entries, "elapsed_millis", Json::Unsigned(elapsed_millis));
        put(&mut entries, "loop_id", Json::Text(self.loop_id.clone()));
        put(&mut entries, "timestamp", Json::Text(timestamp.to_owned()));
        put(&mut entries, "context", context);
        (0, write_json_atomic(&self.workspace_root, ApiFile::Checkin, &Json::Object(entries)))
    }

    /// Reports. What is returned comes with the file that is to be written.
    pub fn send_checkin(
        &self,
        iteration: u32,
        elapsed_millis: u64,
        context: Option<&CheckinContext>,
    ) -> (sent: (i32, FileWrite))
        ensures
            sent.0 == 0,
            exists|timestamp: Seq<char>|
                writes(
                    sent.1,
                    checkin_file(self@.root),
                    #[trigger] checkin_document(
                        self@,
                        iteration,
                        elapsed_millis,
                        context,
                        timestamp,
                    ),
                ),
    {
        let timestamp = now_rfc3339();
        self.send_checkin_at(iteration, elapsed_millis, context, timestamp.as_str())
    }
}

/// The error of one who waits where no question does.
pub open spec fn nothing_waits() -> RobotErrorView {
    RobotErrorView { message: "no active web robot question"@, cause: None }
}

/// What asking a question does: it fails where the question's file cannot be read,
/// gives the number of a question that waits, and else takes the next number and
/// gives the file to be written.
pub open spec fn question_planned(
    before: ServiceView,
    after: ServiceView,
    payload: Seq<char>,
    raw: Option<Seq<char>>,
    micros: i64,
    timestamp: Seq<char>,
    plan: Result<QuestionPlan, RobotError>,
) -> bool {
    match hydrated(before, raw) {
        Err(error) => {
            &&& after == before
            &&& plan is Err
            &&& plan->Err_0@ == error
        },
        Ok(service) => {
            &&& after == asked(service)
            &&& plan is Ok
            &&& match service.active {
                Some(waiting) => plan->Ok_0 == QuestionPlan::Reuse(waiting.id),
                None => plan->Ok_0 matches QuestionPlan::Write { question, write } && question@
                    == next_question(service, micros) && writes(
                    write,
                    question_file(service.root),
                    question_document(
                        service,
                        next_question(service, micros),
                        payload,
                        timestamp,
                    ),
                ),
            }
        },
    }
}

/// A document, if there is one, by its content.
pub open spec fn document_view(document: Option<Json>) -> Option<JsonTree> {
    match document {
        Some(document) => Some(document@),
        None => None,
    }
}

/// The hat that a payload names.
pub fn hat_of(document: &Option<Json>) -> (hat: Json)
    ensures
        hat@ == found_at(document_view(*document), hat_paths()),
{
    let paths: [&[&str]; 6] = [
        &["hat"],
        &["current_hat"],
        &["context", "hat"],
        &["context", "current_hat"],
        &["metadata", "hat"],
        &["metadata", "current_hat"],
    ];
    assert(paths_view(paths@) =~= hat_paths()) by {
        assert(views(paths@[0]@) =~= hat_paths()[0]);
        assert(views(paths@[1]@) =~= hat_paths()[1]);
        assert(views(paths@[2]@) =~= hat_paths()[2]);
        assert(views(paths@[3]@) =~= hat_paths()[3]);
        assert(views(paths@[4]@) =~= hat_paths()[4]);
        assert(views(paths@[5]@) =~= hat_paths()[5]);
    }
    first_json_path(document, paths.as_slice())
}

/// The iteration that a payload names.
pub fn iteration_of(document: &Option<Json>) -> (iteration: Json)
    ensures
        iteration@ == found_at(document_view(*document), iteration_paths()),
{
    let paths: [&[&str]; 3] = [
        &["iteration"],
        &["context", "iteration"],
        &["metadata", "iteration"],
    ];
    assert(paths_view(paths@) =~= iteration_paths()) by {
        assert(views(paths@[0]@) =~= iteration_paths()[0]);
        assert(views(paths@[1]@) =~= iteration_paths()[1]);
        assert(views(paths@[2]@) =~= iteration_paths()[2]);
    }
    first_json_path(document, paths.as_slice())
}

/// The characters of each name of some paths.
pub open spec fn paths_view(paths: Seq<&[&str]>) -> Seq<Seq<Seq<char>>> {
    paths.map_values(|path: &[&str]| views(path@))
}

/// The first of some paths that leads anywhere in a document; `null` without one.
fn first_json_path(document: &Option<Json>, paths: &[&[&str]]) -> (value: Json)
    ensures
        value@ == found_at(document_view(*document), paths_view(paths@)),
{
    let held = match document {
        Some(held) => held,
        None => return Json::Null,
    };
    let mut i: usize = 0;
    assert(paths_view(paths@).skip(0) =~= paths_view(paths@));
    while i < paths.len()
        invariant
            i <= paths.len(),
            document_view(*document) == Some(held@),
            found_at(Some(held@), paths_view(paths@)) == found_at(
                Some(held@),
                paths_view(paths@).skip(i as int),
            ),
        decreases paths.len() - i,
    {
        assert(paths_view(paths@).skip(i as int)[0] == views(paths@[i as int]@));
        assert(paths_view(paths@).skip(i as int).drop_first() =~= paths_view(paths@).skip(i + 1));
        if let Some(found) = held.at(paths[i]) {
            return found.clone();
        }
        i = i + 1;
    }
    Json::Null
}

/// What a loop reports of itself, as a document.
fn context_json(context: Option<&CheckinContext>) -> (document: Json)
    ensures
        document@ == context_document(context),
{
    match context {
        None => Json::Null,
        Some(context) => {
            let mut entries = no_members();
            put(
                &mut entries,
                "current_hat",
                match &context.current_hat {
                    Some(hat) => Json::Text(hat.clone()),
                    None => Json::Null,
                },
            );
            put(&mut entries, "open_tasks", Json::Unsigned(context.open_tasks));
            put(&mut entries, "closed_tasks", Json::Unsigned(context.closed_tasks));
            put(
                &mut entries,
                "cumulative_cost",
                match &context.cumulative_cost {
                    Some(cost) => Json::Number(cost.clone()),
                    None => Json::Null,
                },
            );
            Json::Object(entries)
        },
    }
}

/// The content of an answer.
pub fn extract_response(document: &Json) -> (content: Result<String, String>)
    ensures
        match content {
            Ok(text) => response_content(document@) == Ok::<Seq<char>, Seq<char>>(text@),
            Err(message) => response_content(document@) == Err::<Seq<char>, Seq<char>>(message@),
        },
{
    if !document.is_object() {
        return Ok(document.to_plain_text());
    }
    let names: [&str; 4] = ["response", "message", "text", "payload"];
    assert(views(names@) =~= content_names());
    let mut i: usize = 0;
    assert(views(names@).skip(0) =~= views(names@));
    while i < names.len()
        invariant
            i <= names.len(),
            document@ is Object,
            first_name(document@, views(names@)) == first_name(
                document@,
                views(names@).skip(i as int),
            ),
            views(names@) == content_names(),
        decreases names.len() - i,
    {
        assert(views(names@).skip(i as int)[0] == names@[i as int]@);
        assert(views(names@).skip(i as int).drop_first() =~= views(names@).skip(i + 1));
        if let Some(value) = document.get(names[i]) {
            if value.is_null() {
                let mut message = "response field '".to_owned();
                message.append(names[i]);
                message.append("' is null");
                return Err(message);
            }
            return Ok(value.to_plain_text());
        }
        i = i + 1;
    }
    Err("robot response must contain one of: response, message, text, payload".to_owned())
}

/// Whether an object has a member under one of some names that is not `null`.
fn any_content(document: &Json, names: &[&str]) -> (r: bool)
    ensures
        r == has_content(document@, views(names@)),
{
    let mut i: usize = 0;
    while i < names.len()
        invariant
            i <= names.len(),
            forall|j: int|
                0 <= j < i ==> !(member(document@, #[trigger] views(names@)[j]) is Some && !(member(
                    document@,
                    views(names@)[j],
                )->0 is Null)),
        decreases names.len() - i,
    {
        assert(views(names@)[i as int] == names@[i as int]@);
        if let Some(value) = document.get(names[i]) {
            if !value.is_null() {
                return true;
            }
        }
        i = i + 1;
    }
    false
}

/// What a document amounts to as the answer to a question of a loop.
pub fn extract_correlated_response(
    document: &Json,
    question: &ActiveQuestion,
    loop_id: &str,
) -> (response: ResponseRead)
    ensures
        response@ == correlated(document@, question@, loop_id@),
{
    let id_names: [&str; 2] = ["id", "question_id"];
    let loop_names: [&str; 1] = ["loop_id"];
    let token_names: [&str; 2] = ["response_token", "token"];
    let names: [&str; 4] = ["response", "message", "text", "payload"];
    assert(views(id_names@) =~= seq!["id"@, "question_id"@]);
    assert(views(loop_names@) =~= seq!["loop_id"@]);
    assert(views(token_names@) =~= seq!["response_token"@, "token"@]);
    assert(views(names@) =~= content_names());
    if !document.is_object() {
        return ResponseRead::Stale;
    }
    match document.first_i64(id_names.as_slice()) {
        Some(id) => {
            if id != question.id as i64 {
                return ResponseRead::Stale;
            }
        },
        None => return ResponseRead::Incomplete,
    }
    match document.first_str(loop_names.as_slice()) {
        Some(named_loop) => {
            if named_loop.to_owned() != loop_id.to_owned() {
                return ResponseRead::Stale;
            }
        },
        None => return ResponseRead::Incomplete,
    }
    match document.first_str(token_names.as_slice()) {
        Some(token) => {
            if token.to_owned() != question.response_token {
                return ResponseRead::Stale;
            }
        },
        None => return ResponseRead::Incomplete,
    }
    if !any_content(document, names.as_slice()) {
        return ResponseRead::Incomplete;
    }
    match extract_response(document) {
        Ok(text) => ResponseRead::Ready(text),
        Err(message) => ResponseRead::Invalid(message),
    }
}

} // verus!
