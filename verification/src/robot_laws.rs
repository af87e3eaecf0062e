//! What the two sides of the robot protocol promise each other.

use crate::codec::{
    comes_back, lemma_flat_rereadable, nests_within, parse_outcome, pretty_text, reader_depth,
    reads_as, rereadable, reserved_name, same_plain_members,
};
use crate::json::{at_path, first_int, first_text, member, JsonTree};
use crate::robot_domain::{
    answer_document, content_names, document_in, AnswerView, ApiErrorView,
};
use crate::text::{law_signed_decimal_distinct, signed_decimal};
use crate::web_robot::{
    asked, correlated, discards, first_name, found_at, has_content, hat_paths, hydrated,
    iteration_paths, next_question, number_after, numbered, payload_document,
    question_document, question_in, question_token, response_in, wait_view, within_numbers,
    QuestionView, ResponseView, RobotErrorView,
    ServiceView, WaitView, POLL_INTERVAL_MILLIS,
};
use vstd::prelude::*;

verus! {

/// A document that is written to a file, and that holds no number but integers, is read
/// from it unchanged. It must nest no deeper than the reader goes, and no object in it
/// may open with the reserved name.
pub proof fn law_written_document_is_read(tree: JsonTree, path: Seq<u8>)
    requires
        comes_back(pretty_text(tree), tree),
        rereadable(tree),
    ensures
        document_in(path, Some(pretty_text(tree))) == Ok::<Option<JsonTree>, ApiErrorView>(
            Some(tree),
        ),
{
}

/// An answer that names a question of a loop by its number, its loop and its token
/// reaches the loop as it was given: the file that it is written to is read as ready,
/// with the answer's content.
pub proof fn law_answer_reaches_loop(
    answer: AnswerView,
    timestamp: Seq<char>,
    question: QuestionView,
    loop_id: Seq<char>,
)
    requires
        answer.question_id == question.id,
        answer.loop_id == loop_id,
        answer.response_token == question.response_token,
        reads_as(
            pretty_text(answer_document(answer, timestamp)),
            answer_document(answer, timestamp),
        ),
    ensures
        response_in(
            Some(pretty_text(answer_document(answer, timestamp))),
            question,
            loop_id,
        ) == ResponseView::Ready(answer.response),
{
    let document = answer_document(answer, timestamp);
    lemma_answer_members(answer, timestamp);
    assert(content_names()[0] == "response"@);
    assert(has_content(document, content_names()));
    assert(first_name(document, content_names()) == Some("response"@));
}

/// An answer to any other question is told apart and does not reach the loop.
pub proof fn law_other_answers_are_stale(
    answer: AnswerView,
    timestamp: Seq<char>,
    question: QuestionView,
    loop_id: Seq<char>,
)
    requires
        answer.question_id != question.id || answer.loop_id != loop_id || answer.response_token
            != question.response_token,
    ensures
        correlated(answer_document(answer, timestamp), question, loop_id) is Stale,
        discards(correlated(answer_document(answer, timestamp), question, loop_id)),
{
    lemma_answer_members(answer, timestamp);
}

proof fn lemma_answer_members(answer: AnswerView, timestamp: Seq<char>)
    ensures
        ({
            let document = answer_document(answer, timestamp);
            &&& first_int(document, seq!["id"@, "question_id"@]) == Some(answer.question_id)
            &&& first_text(document, seq!["loop_id"@]) == Some(answer.loop_id)
            &&& first_text(document, seq!["response_token"@, "token"@]) == Some(
                answer.response_token,
            )
            &&& member(document, "response"@) == Some(JsonTree::Text(answer.response))
        }),
{
    reveal_strlit("id");
    reveal_strlit("loop_id");
    reveal_strlit("response_token");
    reveal_strlit("response");
    reveal_strlit("timestamp");
    let document = answer_document(answer, timestamp);
    assert("id"@.len() != "loop_id"@.len());
    assert("response"@.len() != "timestamp"@.len());
    assert("response_token"@.len() != "timestamp"@.len());
    assert(member(document, "id"@) == Some(JsonTree::Int(answer.question_id as int)));
    assert(member(document, "loop_id"@) == Some(JsonTree::Text(answer.loop_id)));
    assert(member(document, "response_token"@) == Some(JsonTree::Text(answer.response_token)));
    assert(seq!["id"@, "question_id"@][0] == "id"@);
    assert(seq!["loop_id"@][0] == "loop_id"@);
    assert(seq!["response_token"@, "token"@][0] == "response_token"@);
}

/// Nothing is taken for the answer to a question that does not name its number, its
/// loop and its token.
pub proof fn law_only_own_answers_accepted(
    raw: Option<Seq<char>>,
    question: QuestionView,
    loop_id: Seq<char>,
)
    requires
        response_in(raw, question, loop_id) is Ready,
    ensures
        raw is Some,
        parse_outcome(raw->0) is Ok,
        ({
            let document = parse_outcome(raw->0)->Ok_0;
            &&& first_int(document, seq!["id"@, "question_id"@]) == Some(question.id as i64)
            &&& first_text(document, seq!["loop_id"@]) == Some(loop_id)
            &&& first_text(document, seq!["response_token"@, "token"@]) == Some(
                question.response_token,
            )
        }),
{
}

/// A file that is missing, or is no JSON as yet, is left alone and looked at again.
pub proof fn law_unfinished_file_is_kept(
    raw: Option<Seq<char>>,
    question: QuestionView,
    loop_id: Seq<char>,
)
    requires
        raw matches Some(text) ==> parse_outcome(text) is Err,
    ensures
        response_in(raw, question, loop_id) is Incomplete,
        !discards(response_in(raw, question, loop_id)),
{
}

proof fn lemma_nests_deeper(tree: JsonTree, depth: nat, more: nat)
    requires
        nests_within(tree, depth),
        depth <= more,
    ensures
        nests_within(tree, more),
    decreases depth,
{
    match tree {
        JsonTree::Array(items) => {
            assert forall|i: int| 0 <= i < items.len() implies nests_within(
                #[trigger] items[i],
                (more - 1) as nat,
            ) by {
                lemma_nests_deeper(items[i], (depth - 1) as nat, (more - 1) as nat);
            }
        },
        JsonTree::Object(members) => {
            assert forall|name: Seq<char>| members.dom().contains(name) implies nests_within(
                #[trigger] members[name],
                (more - 1) as nat,
            ) by {
                lemma_nests_deeper(members[name], (depth - 1) as nat, (more - 1) as nat);
            }
        },
        _ => {},
    }
}

proof fn lemma_part_nests(tree: JsonTree, path: Seq<Seq<char>>, depth: nat)
    requires
        nests_within(tree, depth),
    ensures
        at_path(tree, path) matches Some(part) ==> nests_within(part, depth),
    decreases path.len(),
{
    if path.len() > 0 {
        if let Some(next) = member(tree, path[0]) {
            lemma_nests_deeper(next, (depth - 1) as nat, depth);
            lemma_part_nests(next, path.drop_first(), depth);
        }
    }
}

proof fn lemma_found_nests(document: Option<JsonTree>, paths: Seq<Seq<Seq<char>>>, depth: nat)
    requires
        document matches Some(tree) ==> nests_within(tree, depth),
    ensures
        nests_within(found_at(document, paths), depth),
    decreases paths.len(),
{
    if document is Some && paths.len() > 0 {
        lemma_part_nests(document->0, paths[0], depth);
        lemma_found_nests(document, paths.drop_first(), depth);
    }
}

/// Whether a payload, put into a question, leaves the question readable: it may nest
/// one level less than a document by itself.
pub open spec fn fits_question(payload: Seq<char>) -> bool {
    payload_document(payload) matches Some(tree) ==> nests_within(
        tree,
        (reader_depth() - 1) as nat,
    )
}

proof fn lemma_question_members(
    service: ServiceView,
    question: QuestionView,
    payload: Seq<char>,
    timestamp: Seq<char>,
)
    ensures
        ({
            let document = question_document(service, question, payload, timestamp);
            let members = document->Object_0;
            &&& members.dom().contains("id"@) && members["id"@] == JsonTree::Int(
                question.id as int,
            )
            &&& members.dom().contains("response_token"@) && members["response_token"@]
                == JsonTree::Text(question.response_token)
            &&& members.dom().contains("loop_id"@) && members["loop_id"@] == JsonTree::Text(
                service.loop_id,
            )
            &&& !members.dom().contains(reserved_name())
            &&& fits_question(payload) ==> nests_within(document, reader_depth())
        }),
{
    let document = question_document(service, question, payload, timestamp);
    let members = document->Object_0;
    reveal_strlit("$serde_json::private::RawValue");
    reveal_strlit("id");
    reveal_strlit("response_token");
    reveal_strlit("payload");
    reveal_strlit("payload_json");
    reveal_strlit("hat");
    reveal_strlit("iteration");
    reveal_strlit("loop_id");
    reveal_strlit("timestamp");
    reveal_strlit("timeout_seconds");
    assert("payload"@[0] != "loop_id"@[0]);
    assert("id"@.len() == 2);
    assert("response_token"@.len() == 14);
    assert("payload"@.len() == 7);
    assert("payload_json"@.len() == 12);
    assert("hat"@.len() == 3);
    assert("iteration"@.len() == 9);
    assert("loop_id"@.len() == 7);
    assert("timestamp"@.len() == 9);
    assert("timeout_seconds"@.len() == 15);
    assert(reserved_name().len() == 30);
    if fits_question(payload) {
        let depth = (reader_depth() - 1) as nat;
        let parsed = payload_document(payload);
        lemma_found_nests(parsed, hat_paths(), depth);
        lemma_found_nests(parsed, iteration_paths(), depth);
        assert forall|name: Seq<char>| members.dom().contains(name) implies nests_within(
            #[trigger] members[name],
            depth,
        ) by {}
    }
}

/// A question whose payload fits can be read again.
pub proof fn law_fitting_question_is_readable(
    service: ServiceView,
    question: QuestionView,
    payload: Seq<char>,
    timestamp: Seq<char>,
)
    requires
        comes_back(
            pretty_text(question_document(service, question, payload, timestamp)),
            question_document(service, question, payload, timestamp),
        ),
        fits_question(payload),
    ensures
        parse_outcome(pretty_text(question_document(service, question, payload, timestamp))) is Ok,
{
    lemma_question_members(service, question, payload, timestamp);
}

/// A loop that is started again takes up the question that it had asked: a file that
/// was written for a question, and that can be read, is read as the same question, and
/// its number is not used again.
pub proof fn law_restart_takes_up_question(
    service: ServiceView,
    question: QuestionView,
    payload: Seq<char>,
    timestamp: Seq<char>,
    restarted: ServiceView,
)
    requires
        comes_back(
            pretty_text(question_document(service, question, payload, timestamp)),
            question_document(service, question, payload, timestamp),
        ),
        parse_outcome(pretty_text(question_document(service, question, payload, timestamp))) is Ok,
        restarted.loop_id == service.loop_id,
        restarted.active is None,
    ensures
        ({
            let text = pretty_text(question_document(service, question, payload, timestamp));
            &&& hydrated(restarted, Some(text)) is Ok
            &&& hydrated(restarted, Some(text))->Ok_0.active == Some(question)
            &&& hydrated(restarted, Some(text))->Ok_0.next_question_id >= number_after(
                question.id,
            )
        }),
{
    let document = question_document(service, question, payload, timestamp);
    let text = pretty_text(document);
    lemma_question_members(service, question, payload, timestamp);
    let read = parse_outcome(text)->Ok_0;
    assert(same_plain_members(document, read));
    lemma_flat_rereadable(document->Object_0["id"@]);
    lemma_flat_rereadable(document->Object_0["response_token"@]);
    lemma_flat_rereadable(document->Object_0["loop_id"@]);
    assert(member(read, "id"@) == Some(JsonTree::Int(question.id as int)));
    assert(member(read, "response_token"@) == Some(JsonTree::Text(question.response_token)));
    assert(member(read, "loop_id"@) == Some(JsonTree::Text(service.loop_id)));
    assert(seq!["id"@][0] == "id"@);
    assert(seq!["loop_id"@][0] == "loop_id"@);
    assert(seq!["response_token"@, "token"@][0] == "response_token"@);
    assert(first_text(read, seq!["loop_id"@]) == Some(service.loop_id));
    assert(first_int(read, seq!["id"@]) == Some(question.id as i64));
    assert(first_text(read, seq!["response_token"@, "token"@]) == Some(question.response_token));
    assert(question_in(read, restarted.loop_id) == Some(question));
}

/// The question of another loop is not taken up.
pub proof fn law_other_loops_question_ignored(
    service: ServiceView,
    document: JsonTree,
    text: Seq<char>,
)
    requires
        reads_as(text, document),
        service.active is None,
        first_text(document, seq!["loop_id"@]) != Some(service.loop_id),
    ensures
        hydrated(service, Some(text)) == Ok::<ServiceView, RobotErrorView>(
            service,
        ),
{
}

/// Each question gets a number of its own: the next number is beyond those of the
/// question that is asked and of the one that is taken up, until numbers run out.
pub proof fn law_numbers_are_not_reused(service: ServiceView, raw: Option<Seq<char>>)
    requires
        service.active is None,
    ensures
        service.next_question_id < i32::MAX ==> asked(service).next_question_id
            > service.next_question_id,
        hydrated(service, raw) matches Ok(after) ==> after.next_question_id
            >= service.next_question_id && (after.active matches Some(question) ==> question.id
            < i32::MAX ==> after.next_question_id > question.id),
{
}

/// From every state that the service can be in, a question that is asked after the one
/// that waits has a greater number, until numbers run out.
pub proof fn law_numbers_grow(service: ServiceView, micros: i64)
    requires
        numbered(service),
        service.active matches Some(question) && question.id < i32::MAX,
    ensures
        next_question(ServiceView { active: None, ..service }, micros).id
            > service.active->0.id,
        numbered(asked(ServiceView { active: None, ..service })),
        within_numbers(
            next_question(ServiceView { active: None, ..service }, micros).id,
            asked(ServiceView { active: None, ..service }),
        ),
{
}

/// While a question waits, asking does not use up a number, whatever the question's
/// file says.
pub proof fn law_waiting_question_is_kept(service: ServiceView, raw: Option<Seq<char>>)
    requires
        service.active is Some,
    ensures
        hydrated(service, raw) == Ok::<ServiceView, RobotErrorView>(service),
        asked(service) == service,
{
}

/// Two questions of a loop have two tokens.
pub proof fn law_tokens_are_distinct(
    loop_id: Seq<char>,
    id: i32,
    micros: i64,
    other_id: i32,
    other_micros: i64,
)
    requires
        question_token(loop_id, id, micros) == question_token(loop_id, other_id, other_micros),
    ensures
        id == other_id,
        micros == other_micros,
{
    let a = signed_decimal(id as int);
    let b = signed_decimal(other_id as int);
    let c = signed_decimal(micros as int);
    let d = signed_decimal(other_micros as int);
    law_signed_decimal_distinct(id as int, other_id as int);
    law_signed_decimal_distinct(other_id as int, id as int);
    law_signed_decimal_distinct(micros as int, other_micros as int);
    reveal_strlit("-");
    let first = question_token(loop_id, id, micros);
    let second = question_token(loop_id, other_id, other_micros);
    let start: int = loop_id.len() as int + 1;
    assert(first[start + a.len()] == '-');
    assert(second[start + b.len()] == '-');
    if a.len() < b.len() {
        assert(second[start + a.len()] == b[a.len() as int]);
    } else if b.len() < a.len() {
        assert(first[start + b.len()] == a[b.len() as int]);
    }
    assert(a =~= b) by {
        assert forall|i: int| 0 <= i < a.len() implies a[i] == b[i] by {
            assert(first[start + i] == a[i]);
            assert(second[start + i] == b[i]);
        }
    }
    assert(c =~= first.skip(start + a.len() + 1));
    assert(d =~= second.skip(start + b.len() + 1));
}

/// An answer that is there is returned, even when the loop is shutting down or the
/// time is up.
pub proof fn law_answer_comes_first(
    text: Seq<char>,
    shutdown: bool,
    timeout_secs: u64,
    elapsed_secs: u64,
)
    ensures
        wait_view(ResponseView::Ready(text), shutdown, timeout_secs, elapsed_secs)
            == WaitView::Answered(text),
{
}

/// A time of zero never runs out, but a shutdown still ends the waiting.
pub proof fn law_zero_timeout_waits(response: ResponseView, shutdown: bool, elapsed_secs: u64)
    requires
        !(response is Ready),
    ensures
        wait_view(response, shutdown, 0, elapsed_secs) == if shutdown {
            WaitView::Interrupted
        } else {
            WaitView::Sleep(POLL_INTERVAL_MILLIS)
        },
{
}

/// Without an answer the waiting ends at the latest when the time is up.
pub proof fn law_timeout_ends_waiting(
    response: ResponseView,
    shutdown: bool,
    timeout_secs: u64,
    elapsed_secs: u64,
)
    requires
        timeout_secs > 0,
        elapsed_secs >= timeout_secs,
    ensures
        !(wait_view(response, shutdown, timeout_secs, elapsed_secs) is Sleep),
{
}

} // verus!
