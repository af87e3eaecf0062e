//! What each step of the robot protocol promises by itself: what is asked, which answer
//! is taken, how long it is waited for, and what is refused.

use crate::api_files::question_file;
use crate::codec::{compact_text, parse_outcome, pretty_text};
use crate::json::{
    first_int, first_text, law_first_member_counts, member, Json, JsonTree,
};
use crate::paths::{climbs, path_join, path_starts_with};
use crate::robot_domain::{
    alternatives, answer_content, answer_of, content_names, document_in, events_file,
    file_failure, guidance_of, guidance_refusal, invalid, marker_file, marker_view, raw_view,
    reading_is, required_int, required_text, AnswerView, ApiError, ApiErrorCode, ApiErrorView,
};
use crate::text::{blank, joined, lossy_text, signed_decimal, trimmed};
use crate::web_robot::{
    asked, correlated, discards, document_view, file_error, first_name, has_content, hydrated,
    next_question, nothing_waits, number_after, number_used, question_document, question_in,
    question_planned, question_token, question_view, response_content, response_in, wait_view,
    ActiveQuestion, QuestionPlan, QuestionView, ResponseRead, ResponseView, RobotError,
    RobotErrorView, ServiceView, WaitStep, WaitView,
};
use vstd::prelude::*;
use vstd::utf8::encode_utf8;

verus! {

/// Without an answer and without a shutdown the waiting goes on, with a look every
/// quarter of a second, until the time is up, and for as long as it takes where there is
/// no limit. It is given up for the time only when there is a limit and it has passed.
pub proof fn law_waiting_lasts_until_the_time_is_up(
    response: ResponseView,
    shutdown: bool,
    timeout_secs: u64,
    elapsed_secs: u64,
)
    ensures
        !(response is Ready) && !shutdown && (timeout_secs == 0 || elapsed_secs < timeout_secs)
            ==> wait_view(response, shutdown, timeout_secs, elapsed_secs) == WaitView::Sleep(250),
        !(response is Ready) && !shutdown && timeout_secs > 0 && elapsed_secs >= timeout_secs
            ==> wait_view(response, shutdown, timeout_secs, elapsed_secs) is TimedOut,
        wait_view(response, shutdown, timeout_secs, elapsed_secs) is TimedOut ==> timeout_secs > 0
            && elapsed_secs >= timeout_secs && !shutdown && !(response is Ready),
        wait_view(response, shutdown, timeout_secs, elapsed_secs) is Interrupted <==> shutdown
            && !(response is Ready),
        wait_view(response, shutdown, timeout_secs, elapsed_secs) is Answered <==> response
            is Ready,
        response matches ResponseView::Ready(text) ==> wait_view(
            response,
            shutdown,
            timeout_secs,
            elapsed_secs,
        ) == WaitView::Answered(text),
{
}

/// Waiting longer never brings back time: who has given up for the time after a while
/// would have done so after any longer while, and not after a shorter one than the limit.
pub proof fn law_time_only_runs_out(
    response: ResponseView,
    timeout_secs: u64,
    sooner: u64,
    later: u64,
)
    requires
        sooner <= later,
        wait_view(response, false, timeout_secs, sooner) is TimedOut,
    ensures
        wait_view(response, false, timeout_secs, later) is TimedOut,
        sooner >= timeout_secs > 0,
{
}

/// A document is taken for the answer to a question only if it is an object that names
/// the number, the loop and the token of that question. One that names another, or is no
/// object, is stale; one that leaves out what is looked at next is not complete.
pub proof fn law_answer_must_name_its_question(
    document: JsonTree,
    question: QuestionView,
    loop_id: Seq<char>,
)
    ensures
        ({
            let id = first_int(document, seq!["id"@, "question_id"@]);
            let named = first_text(document, seq!["loop_id"@]);
            let token = first_text(document, seq!["response_token"@, "token"@]);
            let seen = correlated(document, question, loop_id);
            let same_id = id matches Some(n) && n == question.id;
            let same_loop = named == Some(loop_id);
            let same_token = token == Some(question.response_token);
            &&& !(document is Object) ==> seen is Stale
            &&& document is Object && id is None ==> seen is Incomplete
            &&& document is Object && id is Some && !same_id ==> seen is Stale
            &&& document is Object && same_id && named is None ==> seen is Incomplete
            &&& document is Object && same_id && named is Some && !same_loop ==> seen is Stale
            &&& document is Object && same_id && same_loop && token is None ==> seen is Incomplete
            &&& document is Object && same_id && same_loop && token is Some && !same_token
                ==> seen is Stale
            &&& seen is Ready || seen is Invalid ==> document is Object && same_id && same_loop
                && same_token
        }),
{
}

/// An answer that names its question is read by the first of its members that may hold
/// it: a string as it is, anything else in JSON notation. If that member is `null`, the
/// answer is invalid where another holds something, and not complete where none does.
pub proof fn law_content_of_an_answer(
    members: Map<Seq<char>, JsonTree>,
    question: QuestionView,
    loop_id: Seq<char>,
    i: int,
)
    requires
        first_int(JsonTree::Object(members), seq!["id"@, "question_id"@]) == Some(
            question.id as i64,
        ),
        first_text(JsonTree::Object(members), seq!["loop_id"@]) == Some(loop_id),
        first_text(JsonTree::Object(members), seq!["response_token"@, "token"@]) == Some(
            question.response_token,
        ),
        0 <= i <= 4,
        ({
            let names = seq!["response"@, "message"@, "text"@, "payload"@];
            &&& i < 4 ==> members.dom().contains(names[i])
            &&& forall|j: int| 0 <= j < i ==> !members.dom().contains(#[trigger] names[j])
        }),
    ensures
        ({
            let names = seq!["response"@, "message"@, "text"@, "payload"@];
            let seen = correlated(JsonTree::Object(members), question, loop_id);
            let other = exists|j: int|
                0 <= j < 4 && members.dom().contains(#[trigger] names[j]) && !(members[names[j]]
                    is Null);
            &&& i == 4 ==> seen is Incomplete
            &&& i < 4 ==> (members[names[i]] matches JsonTree::Text(text) ==> seen
                == ResponseView::Ready(text))
            &&& i < 4 && !(members[names[i]] is Text) && !(members[names[i]] is Null) ==> seen
                == ResponseView::Ready(compact_text(members[names[i]]))
            &&& i < 4 && members[names[i]] is Null && other ==> seen == ResponseView::Invalid(
                "response field '"@ + names[i] + "' is null"@,
            )
            &&& i < 4 && members[names[i]] is Null && !other ==> seen is Incomplete
        }),
{
    let names = seq!["response"@, "message"@, "text"@, "payload"@];
    let document = JsonTree::Object(members);
    assert(content_names() =~= names);
    lemma_first_name(members, names, i);
    if i < 4 && !(members[names[i]] is Null) {
        assert(member(document, names[i]) is Some);
        assert(has_content(document, names));
    }
    if has_content(document, names) {
        let j = choose|j: int|
            0 <= j < names.len() && member(document, #[trigger] names[j]) is Some && !(member(
                document,
                names[j],
            )->0 is Null);
        assert(members.dom().contains(names[j]));
    }
    if exists|j: int|
        0 <= j < 4 && members.dom().contains(#[trigger] names[j]) && !(members[names[j]] is Null) {
        let j = choose|j: int|
            0 <= j < 4 && members.dom().contains(#[trigger] names[j]) && !(members[names[j]]
                is Null);
        assert(member(document, names[j]) is Some);
        assert(has_content(document, names));
    }
}

proof fn lemma_first_name(members: Map<Seq<char>, JsonTree>, names: Seq<Seq<char>>, i: int)
    requires
        0 <= i <= names.len(),
        i < names.len() ==> members.dom().contains(names[i]),
        forall|j: int| 0 <= j < i ==> !members.dom().contains(#[trigger] names[j]),
    ensures
        i < names.len() ==> first_name(JsonTree::Object(members), names) == Some(names[i]),
        i == names.len() ==> first_name(JsonTree::Object(members), names) is None,
    decreases names.len(),
{
    if i > 0 {
        let rest = names.drop_first();
        assert(!members.dom().contains(names[0]));
        assert forall|j: int| 0 <= j < i - 1 implies !members.dom().contains(
            #[trigger] rest[j],
        ) by {
            assert(rest[j] == names[j + 1]);
        }
        lemma_first_name(members, rest, i - 1);
    }
}

/// The content of an answer that is no object is the answer itself: a string as it is,
/// anything else in JSON notation. Of an object it is that of the first member that may
/// hold it.
pub proof fn law_content_of_any_document(
    text: Seq<char>,
    other: JsonTree,
    members: Map<Seq<char>, JsonTree>,
    i: int,
)
    requires
        0 <= i <= 4,
        ({
            let names = seq!["response"@, "message"@, "text"@, "payload"@];
            &&& i < 4 ==> members.dom().contains(names[i])
            &&& forall|j: int| 0 <= j < i ==> !members.dom().contains(#[trigger] names[j])
        }),
    ensures
        response_content(JsonTree::Text(text)) == Ok::<Seq<char>, Seq<char>>(text),
        !(other is Text) && !(other is Object) ==> response_content(other) == Ok::<
            Seq<char>,
            Seq<char>,
        >(compact_text(other)),
        ({
            let names = seq!["response"@, "message"@, "text"@, "payload"@];
            let content = response_content(JsonTree::Object(members));
            &&& i == 4 ==> content == Err::<Seq<char>, Seq<char>>(
                "robot response must contain one of: response, message, text, payload"@,
            )
            &&& i < 4 ==> (match members[names[i]] {
                JsonTree::Null => content == Err::<Seq<char>, Seq<char>>(
                    "response field '"@ + names[i] + "' is null"@,
                ),
                JsonTree::Text(held) => content == Ok::<Seq<char>, Seq<char>>(held),
                held => content == Ok::<Seq<char>, Seq<char>>(compact_text(held)),
            })
        }),
{
    let names = seq!["response"@, "message"@, "text"@, "payload"@];
    assert(content_names() =~= names);
    lemma_first_name(members, names, i);
}

/// An answer's file is read as the document that it spells. One that is missing, or
/// spells none as yet, is not complete.
pub proof fn law_answer_file_is_read_as_it_is(
    text: Seq<char>,
    question: QuestionView,
    loop_id: Seq<char>,
)
    ensures
        response_in(None, question, loop_id) is Incomplete,
        parse_outcome(text) is Err ==> response_in(Some(text), question, loop_id) is Incomplete,
        parse_outcome(text) matches Ok(document) ==> response_in(Some(text), question, loop_id)
            == correlated(document, question, loop_id),
{
}

/// An answer's file is removed exactly if it is of no use: it is for another question,
/// or says nothing. One that is read, or that may still become an answer, is kept.
pub proof fn law_useless_answers_are_discarded(text: Seq<char>)
    ensures
        discards(ResponseView::Stale),
        discards(ResponseView::Invalid(text)),
        !discards(ResponseView::Incomplete),
        !discards(ResponseView::Ready(text)),
{
}

/// A document is a question of a loop exactly if it is an object with that loop, a number
/// of 32 bits, and a token; and it is then the question with that number and that token.
pub proof fn law_question_is_what_its_file_says(
    document: JsonTree,
    loop_id: Seq<char>,
    question: QuestionView,
)
    ensures
        question_in(document, loop_id) == Some(question) <==> document is Object && first_text(
            document,
            seq!["loop_id"@],
        ) == Some(loop_id) && first_int(document, seq!["id"@]) == Some(question.id as i64)
            && first_text(document, seq!["response_token"@, "token"@]) == Some(
            question.response_token,
        ),
{
}

/// A service that knows of no question takes up the one in the file, if it is its own,
/// and then goes on with the number after it, or its own next one if that is greater.
/// Nothing else of it changes. Without a file, or with that of another loop, it stays as
/// it is; a file that cannot be read is an error that says which file, and why.
pub proof fn law_question_file_is_taken_up(
    service: ServiceView,
    text: Seq<char>,
    document: JsonTree,
    question: QuestionView,
    cause: Seq<char>,
)
    requires
        service.active is None,
    ensures
        hydrated(service, None) == Ok::<ServiceView, RobotErrorView>(service),
        parse_outcome(text) == Err::<JsonTree, Seq<char>>(cause) ==> hydrated(service, Some(text))
            == Err::<ServiceView, RobotErrorView>(
            RobotErrorView {
                message: "failed to parse "@ + lossy_text(question_file(service.root)),
                cause: Some(cause),
            },
        ),
        parse_outcome(text) == Ok::<JsonTree, Seq<char>>(document) && question_in(
            document,
            service.loop_id,
        ) is None ==> hydrated(service, Some(text)) == Ok::<ServiceView, RobotErrorView>(service),
        parse_outcome(text) == Ok::<JsonTree, Seq<char>>(document) && question_in(
            document,
            service.loop_id,
        ) == Some(question) ==> (hydrated(service, Some(text)) matches Ok(after) && after.active
            == Some(question) && after.root == service.root && after.loop_id == service.loop_id
            && after.timeout_secs == service.timeout_secs && after.next_question_id
            >= service.next_question_id && (question.id < i32::MAX ==> after.next_question_id
            > question.id) && (after.next_question_id == service.next_question_id
            || after.next_question_id == question.id + 1 || after.next_question_id == question.id)
            && (question.id == i32::MAX ==> after.next_question_id == i32::MAX)),
{
    reveal_strlit("failed to ");
    reveal_strlit("parse");
    reveal_strlit(" ");
    reveal_strlit("failed to parse ");
    let shown = lossy_text(question_file(service.root));
    assert("failed to "@ + "parse"@ + " "@ + shown =~= "failed to parse "@ + shown);
}

/// The number after a question's is the next one, as far as numbers go; a number that is
/// used up is followed by the next one, and the greatest by the lowest.
pub proof fn law_next_number(id: i32)
    ensures
        id < i32::MAX ==> number_after(id) == id + 1 && number_used(id) == id + 1,
        number_after(i32::MAX) == i32::MAX,
        number_used(i32::MAX) == i32::MIN,
{
}

/// A question that is asked has the next number, and a token of the loop, the number and
/// the time. Asking uses up the number, and changes nothing else.
pub proof fn law_new_question_has_the_next_number(service: ServiceView, micros: i64)
    requires
        service.active is None,
    ensures
        next_question(service, micros).id == service.next_question_id,
        next_question(service, micros).response_token == service.loop_id + "-"@ + signed_decimal(
            service.next_question_id as int,
        ) + "-"@ + signed_decimal(micros as int),
        asked(service).active is None,
        asked(service).root == service.root,
        asked(service).loop_id == service.loop_id,
        asked(service).timeout_secs == service.timeout_secs,
        service.next_question_id < i32::MAX ==> asked(service).next_question_id
            == service.next_question_id + 1,
        service.next_question_id == i32::MAX ==> asked(service).next_question_id == i32::MIN,
{
}

/// Asking, where no question waits, gives the next number and a file for the question in
/// which the payload stands as it was given. The question of another loop does not count.
pub proof fn law_asking_writes_the_question(
    before: ServiceView,
    after: ServiceView,
    payload: Seq<char>,
    raw: Option<Seq<char>>,
    micros: i64,
    timestamp: Seq<char>,
    plan: Result<QuestionPlan, RobotError>,
)
    requires
        before.active is None,
        raw matches Some(text) ==> (parse_outcome(text) matches Ok(document) && question_in(
            document,
            before.loop_id,
        ) is None),
        question_planned(before, after, payload, raw, micros, timestamp, plan),
    ensures
        plan matches Ok(QuestionPlan::Write { question, write }) && question.id
            == before.next_question_id && question.response_token@ == question_token(
            before.loop_id,
            before.next_question_id,
            micros,
        ) && write.path@ == question_file(before.root) && write.tmp_path@ == question_file(
            before.root,
        ) + encode_utf8(".tmp"@) && write.bytes@ == encode_utf8(
            pretty_text(question_document(before, question@, payload, timestamp)),
        ),
        after.active is None,
        before.next_question_id < i32::MAX ==> after.next_question_id == before.next_question_id
            + 1,
        after.root == before.root,
        after.loop_id == before.loop_id,
        after.timeout_secs == before.timeout_secs,
{
}

/// Asking while a question waits, be it one that is known or one in the file, writes
/// nothing and gives that question's number.
pub proof fn law_asking_again_gives_the_same_question(
    before: ServiceView,
    after: ServiceView,
    payload: Seq<char>,
    raw: Option<Seq<char>>,
    micros: i64,
    timestamp: Seq<char>,
    plan: Result<QuestionPlan, RobotError>,
    waiting: QuestionView,
)
    requires
        question_planned(before, after, payload, raw, micros, timestamp, plan),
    ensures
        before.active == Some(waiting) ==> plan == Ok::<QuestionPlan, RobotError>(
            QuestionPlan::Reuse(waiting.id),
        ) && after == before,
        before.active is None && raw is Some && (parse_outcome(raw->0) matches Ok(document)
            && question_in(document, before.loop_id) == Some(waiting)) ==> plan == Ok::<
            QuestionPlan,
            RobotError,
        >(QuestionPlan::Reuse(waiting.id)) && after.active == Some(waiting),
        before.active is None && raw is Some && parse_outcome(raw->0) is Err ==> plan is Err
            && after == before,
{
}

/// What goes wrong with a file is said by what was tried, with which file, and why; and
/// one who waits where no question does is told so.
pub proof fn law_robot_errors_say_what_and_why(
    action: Seq<char>,
    path: Seq<u8>,
    cause: Seq<char>,
)
    ensures
        file_error(action, path, cause).message == "failed to "@ + action + " "@ + lossy_text(
            path,
        ),
        file_error(action, path, cause).cause == Some(cause),
        file_failure(action, path, cause) == "failed to "@ + action + " "@ + lossy_text(path)
            + ": "@ + cause,
        nothing_waits().message == "no active web robot question"@,
        nothing_waits().cause is None,
{
}

/// An integer that must be there is the first one there is under its names, and its
/// absence is the caller's fault; a text that must be there is the first one, and must
/// not be blank.
pub proof fn law_required_fields(
    params: JsonTree,
    names: Seq<Seq<char>>,
    n: i64,
    text: Seq<char>,
)
    ensures
        required_int(params, names) == Ok::<i64, ApiErrorView>(n) <==> first_int(params, names)
            == Some(n),
        required_text(params, names) == Ok::<Seq<char>, ApiErrorView>(text) <==> first_text(
            params,
            names,
        ) == Some(text) && !blank(text),
        required_int(params, names) matches Err(error) ==> error.code
            == ApiErrorCode::InvalidParams && error.message
            == "missing or invalid integer field '"@ + joined(names, "'/'"@) + "'"@,
        required_text(params, names) matches Err(error) ==> error.code
            == ApiErrorCode::InvalidParams && error.message
            == "missing or invalid string field '"@ + joined(names, "'/'"@) + "'"@,
        alternatives(names) == joined(names, "'/'"@),
{
}

/// What is answered is the first of the members that may hold it: a string as it is,
/// anything else in JSON notation. An empty string, `null`, and nothing at all are
/// refused, each with its reason.
pub proof fn law_answered_content(members: Map<Seq<char>, JsonTree>, i: int)
    requires
        0 <= i <= 4,
        ({
            let names = seq!["response"@, "message"@, "text"@, "payload"@];
            &&& i < 4 ==> members.dom().contains(names[i])
            &&& forall|j: int| 0 <= j < i ==> !members.dom().contains(#[trigger] names[j])
        }),
    ensures
        ({
            let names = seq!["response"@, "message"@, "text"@, "payload"@];
            let content = answer_content(JsonTree::Object(members));
            &&& i == 4 ==> content == Err::<Seq<char>, ApiErrorView>(
                ApiErrorView {
                    code: ApiErrorCode::InvalidParams,
                    message: "robot.respond requires response, message, text, or payload"@,
                },
            )
            &&& i < 4 ==> (match members[names[i]] {
                JsonTree::Null => content == Err::<Seq<char>, ApiErrorView>(
                    ApiErrorView {
                        code: ApiErrorCode::InvalidParams,
                        message: "robot response cannot be null"@,
                    },
                ),
                JsonTree::Text(held) => if held.len() == 0 {
                    content == Err::<Seq<char>, ApiErrorView>(
                        ApiErrorView {
                            code: ApiErrorCode::InvalidParams,
                            message: "robot response cannot be empty"@,
                        },
                    )
                } else {
                    content == Ok::<Seq<char>, ApiErrorView>(held)
                },
                held => content == Ok::<Seq<char>, ApiErrorView>(compact_text(held)),
            })
        }),
{
    let names = seq!["response"@, "message"@, "text"@, "payload"@];
    assert(content_names() =~= names);
    law_first_member_counts(members, names, i);
}

/// Parameters give an answer exactly if they are an object with a number, a loop and a
/// token that are not blank, and a content; the answer is made of these. Else the first
/// fault is told, in this order.
pub proof fn law_answer_is_made_of_its_parameters(params: JsonTree)
    ensures
        ({
            let id = required_int(params, seq!["questionId"@, "question_id"@, "id"@]);
            let named = required_text(params, seq!["loopId"@, "loop_id"@]);
            let token = required_text(
                params,
                seq!["responseToken"@, "response_token"@, "token"@],
            );
            let content = answer_content(params);
            let answer = answer_of(params);
            &&& !(params is Object) ==> (answer matches Err(error) && error.code
                == ApiErrorCode::InvalidParams && error.message
                == "robot.respond params must be an object"@)
            &&& params is Object && id is Err ==> (answer matches Err(error) && id == Err::<
                i64,
                ApiErrorView,
            >(error))
            &&& params is Object && id is Ok && named is Err ==> (answer matches Err(error)
                && named == Err::<Seq<char>, ApiErrorView>(error))
            &&& params is Object && id is Ok && named is Ok && token is Err ==> (
            answer matches Err(error) && token == Err::<Seq<char>, ApiErrorView>(error))
            &&& params is Object && id is Ok && named is Ok && token is Ok && content is Err ==> (
            answer matches Err(error) && content == Err::<Seq<char>, ApiErrorView>(error))
            &&& params is Object && id is Ok && named is Ok && token is Ok && content is Ok
                ==> answer == Ok::<AnswerView, ApiErrorView>(
                AnswerView {
                    question_id: id->Ok_0,
                    loop_id: named->Ok_0,
                    response_token: token->Ok_0,
                    response: content->Ok_0,
                },
            )
        }),
{
    reveal_strlit("robot.respond");
    reveal_strlit(" params must be an object");
    reveal_strlit("robot.respond params must be an object");
    assert("robot.respond"@ + " params must be an object"@
        =~= "robot.respond params must be an object"@);
}

/// Guidance is the first text under its names, and must not be blank.
pub proof fn law_guidance_is_the_text_given(params: JsonTree, text: Seq<char>)
    ensures
        guidance_of(params) == Ok::<Seq<char>, ApiErrorView>(text) <==> params is Object
            && first_text(params, seq!["text"@, "message"@, "payload"@]) == Some(text) && !blank(
            text,
        ),
        !(params is Object) ==> (guidance_of(params) matches Err(error) && error.code
            == ApiErrorCode::InvalidParams && error.message
            == "robot.guidance params must be an object"@),
{
    reveal_strlit("robot.guidance");
    reveal_strlit(" params must be an object");
    reveal_strlit("robot.guidance params must be an object");
    assert("robot.guidance"@ + " params must be an object"@
        =~= "robot.guidance params must be an object"@);
}

/// Events go to the place that the marker names, without the white space around it:
/// below the workspace where it is relative, and by itself where it is absolute. A marker
/// that says nothing, that climbs, or that leads out of the workspace is refused.
pub proof fn law_events_go_where_the_marker_says(root: Seq<u8>, marker: Seq<char>)
    ensures
        ({
            let place = encode_utf8(trimmed(marker));
            let whole = path_join(root, place);
            let to = events_file(root, marker);
            &&& to is Ok <==> trimmed(marker).len() > 0 && !climbs(place) && path_starts_with(
                whole,
                root,
            )
            &&& to matches Ok(path) ==> path == whole
            &&& to matches Err(error) ==> error.code == ApiErrorCode::InvalidParams
            &&& trimmed(marker).len() == 0 ==> (to matches Err(error) && error.message
                == "active events marker is empty"@)
            &&& trimmed(marker).len() > 0 && climbs(place) ==> (to matches Err(error)
                && error.message
                == "active events marker must not contain parent directory components"@)
            &&& trimmed(marker).len() > 0 && !climbs(place) && !path_starts_with(whole, root) ==> (
            to matches Err(error) && error.message
                == "active events marker resolves outside workspace"@)
        }),
{
}

/// Guidance is refused for its parameters, for a marker that cannot be read, or for what
/// the marker says, in this order, and for nothing else.
pub proof fn law_guidance_is_refused_for_a_reason(
    root: Seq<u8>,
    params: JsonTree,
    marker: Result<Seq<char>, Seq<char>>,
)
    ensures
        ({
            let refusal = guidance_refusal(root, params, marker);
            &&& guidance_of(params) matches Err(error) ==> refusal == Some(error)
            &&& guidance_of(params) is Ok ==> (marker matches Err(reason) ==> refusal == Some(
                ApiErrorView {
                    code: ApiErrorCode::NotFound,
                    message: "failed to "@ + "read active events marker"@ + " "@ + lossy_text(
                        marker_file(root),
                    ) + ": "@ + reason,
                },
            ))
            &&& guidance_of(params) is Ok && marker is Ok ==> (refusal is None <==> events_file(
                root,
                marker->Ok_0,
            ) is Ok) && (events_file(root, marker->Ok_0) matches Err(error) ==> refusal == Some(
                error,
            ))
        }),
        marker_file(root) == path_join(root, encode_utf8(".ralph/current-events"@)),
{
}

/// A file is read as the document that it spells; one that is missing holds none, and one
/// that spells none is an error that says which file, and why.
pub proof fn law_file_is_read_as_it_is(path: Seq<u8>, text: Seq<char>)
    ensures
        document_in(path, None) == Ok::<Option<JsonTree>, ApiErrorView>(None),
        parse_outcome(text) matches Ok(tree) ==> document_in(path, Some(text)) == Ok::<
            Option<JsonTree>,
            ApiErrorView,
        >(Some(tree)),
        parse_outcome(text) matches Err(reason) ==> document_in(path, Some(text)) == Err::<
            Option<JsonTree>,
            ApiErrorView,
        >(
            ApiErrorView {
                code: ApiErrorCode::Internal,
                message: "failed to "@ + "parse"@ + " "@ + lossy_text(path) + ": "@ + reason,
            },
        ),
        invalid(text).code == ApiErrorCode::InvalidParams,
        invalid(text).message == text,
{
}

/// What is handed over is what was handed in: a text, a marker, a question, a document,
/// an error, each by its content.
pub proof fn law_what_is_handed_over(
    text: &str,
    question: ActiveQuestion,
    document: Json,
    error: ApiError,
    owned: String,
    cause: String,
)
    ensures
        raw_view(Some(text)) == Some(text@),
        raw_view(None) is None,
        marker_view(Ok(text)) == Ok::<Seq<char>, Seq<char>>(text@),
        marker_view(Err(text)) == Err::<Seq<char>, Seq<char>>(text@),
        question_view(Some(question)) == Some(question@),
        question_view(None) is None,
        question@.id == question.id,
        question@.response_token == question.response_token@,
        document_view(Some(document)) == Some(document@),
        document_view(None) is None,
        reading_is(Ok(Some(document)), Ok(Some(document@))),
        reading_is(Ok(None), Ok(None)),
        reading_is(Err(error), Err(error@)),
        !reading_is(Ok(None), Ok(Some(document@))),
        !reading_is(Ok(None), Err(error@)),
        error@.code == error.code,
        error@.message == error.message@,
        (RobotError { message: owned, cause: Some(cause) })@ == (RobotErrorView {
            message: owned@,
            cause: Some(cause@),
        }),
        (RobotError { message: owned, cause: None })@ == (RobotErrorView {
            message: owned@,
            cause: None,
        }),
        ResponseRead::Ready(owned)@ == ResponseView::Ready(owned@),
        ResponseRead::Incomplete@ is Incomplete,
        ResponseRead::Stale@ is Stale,
        ResponseRead::Invalid(owned)@ == ResponseView::Invalid(owned@),
        WaitStep::Answered(owned)@ == WaitView::Answered(owned@),
        WaitStep::Interrupted@ is Interrupted,
        WaitStep::TimedOut@ is TimedOut,
        WaitStep::Sleep(250)@ == WaitView::Sleep(250),
{
}

} // verus!
