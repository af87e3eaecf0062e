//! What stands in the documents that are written: each says what it was written for, and
//! nothing else.

use crate::codec::{
    comes_back, lemma_flat_rereadable, opens_reserved, parse_outcome, pretty_text,
    reserved_name, same_plain_members,
};
use crate::json::{at_path, number_tree, JsonTree};
use crate::robot_domain::{answer_document, event_document, AnswerView};
use crate::web_robot::{
    checkin_document, context_document, found_at, hat_paths, iteration_paths, payload_document,
    question_document, question_document_of, CheckinContext, QuestionView, ServiceView,
};
use vstd::prelude::*;

verus! {

/// A question's document holds the number and the token of the question, the payload as
/// it was given and as a document where it is one, the loop that asks, the time, and how
/// long an answer is waited for.
pub proof fn law_question_says_what_was_asked(
    service: ServiceView,
    question: QuestionView,
    payload: Seq<char>,
    parsed: Option<JsonTree>,
    timestamp: Seq<char>,
)
    ensures
        question_document_of(service, question, payload, parsed, timestamp) is Object,
        ({
            let members = question_document_of(
                service,
                question,
                payload,
                parsed,
                timestamp,
            )->Object_0;
            &&& members.dom() == set![
                "id"@,
                "response_token"@,
                "payload"@,
                "payload_json"@,
                "hat"@,
                "iteration"@,
                "loop_id"@,
                "timestamp"@,
                "timeout_seconds"@,
            ]
            &&& members["id"@] == JsonTree::Int(question.id as int)
            &&& members["response_token"@] == JsonTree::Text(question.response_token)
            &&& members["payload"@] == JsonTree::Text(payload)
            &&& parsed matches Some(document) ==> members["payload_json"@] == document
            &&& parsed is None ==> members["payload_json"@] is Null
            &&& members["hat"@] == found_at(parsed, hat_paths())
            &&& members["iteration"@] == found_at(parsed, iteration_paths())
            &&& members["loop_id"@] == JsonTree::Text(service.loop_id)
            &&& members["timestamp"@] == JsonTree::Text(timestamp)
            &&& members["timeout_seconds"@] == JsonTree::Int(service.timeout_secs as int)
        }),
{
    lemma_names_differ();
    let members = question_document_of(service, question, payload, parsed, timestamp)->Object_0;
    assert(members.dom() =~= set![
        "id"@,
        "response_token"@,
        "payload"@,
        "payload_json"@,
        "hat"@,
        "iteration"@,
        "loop_id"@,
        "timestamp"@,
        "timeout_seconds"@,
    ]);
}

proof fn lemma_names_differ()
    ensures
        "id"@.len() == 2,
        "response_token"@.len() == 14,
        "response"@.len() == 8,
        "payload"@.len() == 7,
        "payload_json"@.len() == 12,
        "hat"@.len() == 3,
        "iteration"@.len() == 9,
        "loop_id"@.len() == 7,
        "timestamp"@.len() == 9,
        "timeout_seconds"@.len() == 15,
        "payload"@ != "loop_id"@,
        "iteration"@ != "timestamp"@,
        "elapsed_seconds"@.len() == 15,
        "elapsed_millis"@.len() == 14,
        "context"@.len() == 7,
        "context"@ != "loop_id"@,
        "current_hat"@.len() == 11,
        "open_tasks"@.len() == 10,
        "closed_tasks"@.len() == 12,
        "cumulative_cost"@.len() == 15,
        "topic"@.len() == 5,
        "ts"@.len() == 2,
        "metadata"@.len() == 8,
        reserved_name().len() == 30,
{
    reveal_strlit("id");
    reveal_strlit("response_token");
    reveal_strlit("response");
    reveal_strlit("payload");
    reveal_strlit("payload_json");
    reveal_strlit("hat");
    reveal_strlit("iteration");
    reveal_strlit("loop_id");
    reveal_strlit("timestamp");
    reveal_strlit("timeout_seconds");
    reveal_strlit("elapsed_seconds");
    reveal_strlit("elapsed_millis");
    reveal_strlit("context");
    reveal_strlit("current_hat");
    reveal_strlit("open_tasks");
    reveal_strlit("closed_tasks");
    reveal_strlit("cumulative_cost");
    reveal_strlit("topic");
    reveal_strlit("ts");
    reveal_strlit("metadata");
    reveal_strlit("$serde_json::private::RawValue");
    assert("payload"@[0] == 'p');
    assert("loop_id"@[0] == 'l');
    assert("context"@[0] == 'c');
    assert("iteration"@[0] == 'i');
    assert("timestamp"@[0] == 't');
}

/// Whoever reads the file that was written for a question gets the text that was asked,
/// be it JSON or not, with the number, the token, the loop and the time to answer it in.
pub proof fn law_reader_gets_what_was_asked(
    service: ServiceView,
    question: QuestionView,
    payload: Seq<char>,
    timestamp: Seq<char>,
)
    requires
        comes_back(
            pretty_text(question_document(service, question, payload, timestamp)),
            question_document(service, question, payload, timestamp),
        ),
        parse_outcome(pretty_text(question_document(service, question, payload, timestamp))) is Ok,
    ensures
        ({
            let read = parse_outcome(
                pretty_text(question_document(service, question, payload, timestamp)),
            )->Ok_0;
            &&& read is Object
            &&& read->Object_0.dom().contains("payload"@) && read->Object_0["payload"@]
                == JsonTree::Text(payload)
            &&& read->Object_0.dom().contains("id"@) && read->Object_0["id"@] == JsonTree::Int(
                question.id as int,
            )
            &&& read->Object_0.dom().contains("response_token"@)
                && read->Object_0["response_token"@] == JsonTree::Text(question.response_token)
            &&& read->Object_0.dom().contains("loop_id"@) && read->Object_0["loop_id"@]
                == JsonTree::Text(service.loop_id)
            &&& read->Object_0.dom().contains("timestamp"@) && read->Object_0["timestamp"@]
                == JsonTree::Text(timestamp)
            &&& read->Object_0.dom().contains("timeout_seconds"@)
                && read->Object_0["timeout_seconds"@] == JsonTree::Int(service.timeout_secs as int)
        }),
{
    lemma_names_differ();
    law_question_says_what_was_asked(
        service,
        question,
        payload,
        payload_document(payload),
        timestamp,
    );
    let document = question_document(service, question, payload, timestamp);
    let members = document->Object_0;
    assert(!members.dom().contains(reserved_name()));
    assert(!opens_reserved(members));
    let read = parse_outcome(pretty_text(document))->Ok_0;
    assert(same_plain_members(document, read));
    lemma_flat_rereadable(members["payload"@]);
    lemma_flat_rereadable(members["id"@]);
    lemma_flat_rereadable(members["response_token"@]);
    lemma_flat_rereadable(members["loop_id"@]);
    lemma_flat_rereadable(members["timestamp"@]);
    lemma_flat_rereadable(members["timeout_seconds"@]);
}

/// A payload that is JSON goes into the question's document as that document, and one
/// that is none as nothing; its text goes there in both cases.
pub proof fn law_payload_is_parsed_once(
    service: ServiceView,
    question: QuestionView,
    payload: Seq<char>,
    timestamp: Seq<char>,
)
    ensures
        ({
            let members = question_document(service, question, payload, timestamp)->Object_0;
            &&& members["payload"@] == JsonTree::Text(payload)
            &&& parse_outcome(payload) matches Ok(document) ==> members["payload_json"@]
                == document
            &&& parse_outcome(payload) is Err ==> members["payload_json"@] is Null
                && members["hat"@] is Null && members["iteration"@] is Null
        }),
{
    law_question_says_what_was_asked(
        service,
        question,
        payload,
        payload_document(payload),
        timestamp,
    );
}

/// Of some paths, the first that leads anywhere counts; where none does, or there is no
/// document, nothing is found.
pub proof fn law_first_path_counts(tree: JsonTree, paths: Seq<Seq<Seq<char>>>, i: int)
    requires
        0 <= i <= paths.len(),
        i < paths.len() ==> at_path(tree, paths[i]) is Some,
        forall|j: int| 0 <= j < i ==> at_path(tree, #[trigger] paths[j]) is None,
    ensures
        i < paths.len() ==> found_at(Some(tree), paths) == at_path(tree, paths[i])->0,
        i == paths.len() ==> found_at(Some(tree), paths) is Null,
        found_at(None, paths) is Null,
    decreases paths.len(),
{
    if i > 0 {
        let rest = paths.drop_first();
        assert(at_path(tree, paths[0]) is None);
        assert forall|j: int| 0 <= j < i - 1 implies at_path(tree, #[trigger] rest[j]) is None by {
            assert(rest[j] == paths[j + 1]);
        }
        law_first_path_counts(tree, rest, i - 1);
    }
}

/// What the member of a member is.
pub open spec fn inner(
    members: Map<Seq<char>, JsonTree>,
    outer: Seq<char>,
    name: Seq<char>,
) -> Option<JsonTree> {
    if members.dom().contains(outer) && members[outer] is Object
        && members[outer]->Object_0.dom().contains(name) {
        Some(members[outer]->Object_0[name])
    } else {
        None
    }
}

proof fn lemma_short_paths(members: Map<Seq<char>, JsonTree>, outer: Seq<char>, name: Seq<char>)
    ensures
        at_path(JsonTree::Object(members), seq![name]) == (if members.dom().contains(name) {
            Some(members[name])
        } else {
            None
        }),
        at_path(JsonTree::Object(members), seq![outer, name]) == inner(members, outer, name),
{
    reveal_with_fuel(at_path, 3);
    assert(seq![name].drop_first() =~= Seq::empty());
    assert(seq![outer, name].drop_first() =~= seq![name]);
    assert(seq![outer, name][0] == outer);
    assert(seq![name][0] == name);
}

/// The hat of a question is the one that its payload names: as the hat, or the current
/// hat, by itself, in its context or in its metadata, in this order.
pub proof fn law_hat_is_the_first_named(members: Map<Seq<char>, JsonTree>, other: JsonTree)
    ensures
        ({
            let hat = found_at(Some(JsonTree::Object(members)), hat_paths());
            if members.dom().contains("hat"@) {
                hat == members["hat"@]
            } else if members.dom().contains("current_hat"@) {
                hat == members["current_hat"@]
            } else if inner(members, "context"@, "hat"@) is Some {
                Some(hat) == inner(members, "context"@, "hat"@)
            } else if inner(members, "context"@, "current_hat"@) is Some {
                Some(hat) == inner(members, "context"@, "current_hat"@)
            } else if inner(members, "metadata"@, "hat"@) is Some {
                Some(hat) == inner(members, "metadata"@, "hat"@)
            } else if inner(members, "metadata"@, "current_hat"@) is Some {
                Some(hat) == inner(members, "metadata"@, "current_hat"@)
            } else {
                hat is Null
            }
        }),
        !(other is Object) ==> found_at(Some(other), hat_paths()) is Null,
        found_at(None, hat_paths()) is Null,
{
    lemma_short_paths(members, "context"@, "hat"@);
    lemma_short_paths(members, "context"@, "current_hat"@);
    lemma_short_paths(members, "metadata"@, "hat"@);
    lemma_short_paths(members, "metadata"@, "current_hat"@);
    let tree = JsonTree::Object(members);
    let paths = hat_paths();
    let i: int = if at_path(tree, paths[0]) is Some {
        0
    } else if at_path(tree, paths[1]) is Some {
        1
    } else if at_path(tree, paths[2]) is Some {
        2
    } else if at_path(tree, paths[3]) is Some {
        3
    } else if at_path(tree, paths[4]) is Some {
        4
    } else if at_path(tree, paths[5]) is Some {
        5
    } else {
        6
    };
    law_first_path_counts(tree, paths, i);
    if !(other is Object) {
        law_first_path_counts(other, paths, 6);
    }
}

/// The iteration of a question is the one that its payload names: by itself, in its
/// context or in its metadata, in this order.
pub proof fn law_iteration_is_the_first_named(members: Map<Seq<char>, JsonTree>, other: JsonTree)
    ensures
        ({
            let iteration = found_at(Some(JsonTree::Object(members)), iteration_paths());
            if members.dom().contains("iteration"@) {
                iteration == members["iteration"@]
            } else if inner(members, "context"@, "iteration"@) is Some {
                Some(iteration) == inner(members, "context"@, "iteration"@)
            } else if inner(members, "metadata"@, "iteration"@) is Some {
                Some(iteration) == inner(members, "metadata"@, "iteration"@)
            } else {
                iteration is Null
            }
        }),
        !(other is Object) ==> found_at(Some(other), iteration_paths()) is Null,
        found_at(None, iteration_paths()) is Null,
{
    lemma_short_paths(members, "context"@, "iteration"@);
    lemma_short_paths(members, "metadata"@, "iteration"@);
    let tree = JsonTree::Object(members);
    let paths = iteration_paths();
    let i: int = if at_path(tree, paths[0]) is Some {
        0
    } else if at_path(tree, paths[1]) is Some {
        1
    } else if at_path(tree, paths[2]) is Some {
        2
    } else {
        3
    };
    law_first_path_counts(tree, paths, i);
    if !(other is Object) {
        law_first_path_counts(other, paths, 3);
    }
}

/// A check-in's document holds the iteration, the time that has passed, in milliseconds
/// and in whole seconds, the loop, the time of the report, and the context.
pub proof fn law_checkin_says_how_far_the_loop_is(
    service: ServiceView,
    iteration: u32,
    elapsed_millis: u64,
    context: Option<&CheckinContext>,
    timestamp: Seq<char>,
)
    ensures
        checkin_document(service, iteration, elapsed_millis, context, timestamp) is Object,
        ({
            let members = checkin_document(
                service,
                iteration,
                elapsed_millis,
                context,
                timestamp,
            )->Object_0;
            &&& members.dom() == set![
                "iteration"@,
                "elapsed_seconds"@,
                "elapsed_millis"@,
                "loop_id"@,
                "timestamp"@,
                "context"@,
            ]
            &&& members["iteration"@] == JsonTree::Int(iteration as int)
            &&& members["elapsed_millis"@] == JsonTree::Int(elapsed_millis as int)
            &&& members["elapsed_seconds"@] matches JsonTree::Int(seconds) && 1000 * seconds
                <= elapsed_millis < 1000 * seconds + 1000
            &&& members["loop_id"@] == JsonTree::Text(service.loop_id)
            &&& members["timestamp"@] == JsonTree::Text(timestamp)
            &&& members["context"@] == context_document(context)
        }),
{
    lemma_names_differ();
    let members = checkin_document(
        service,
        iteration,
        elapsed_millis,
        context,
        timestamp,
    )->Object_0;
    assert(members.dom() =~= set![
        "iteration"@,
        "elapsed_seconds"@,
        "elapsed_millis"@,
        "loop_id"@,
        "timestamp"@,
        "context"@,
    ]);
}

/// The context of a check-in holds the hat, the two numbers of tasks and the cost, as
/// they were given; what is not given is `null`.
pub proof fn law_context_says_what_was_given(context: &CheckinContext)
    ensures
        context_document(None) is Null,
        context_document(Some(context)) is Object,
        ({
            let members = context_document(Some(context))->Object_0;
            &&& members.dom() == set![
                "current_hat"@,
                "open_tasks"@,
                "closed_tasks"@,
                "cumulative_cost"@,
            ]
            &&& context.current_hat matches Some(hat) ==> members["current_hat"@]
                == JsonTree::Text(hat@)
            &&& context.current_hat is None ==> members["current_hat"@] is Null
            &&& members["open_tasks"@] == JsonTree::Int(context.open_tasks as int)
            &&& members["closed_tasks"@] == JsonTree::Int(context.closed_tasks as int)
            &&& context.cumulative_cost matches Some(cost) ==> members["cumulative_cost"@]
                == number_tree(cost)
            &&& context.cumulative_cost is None ==> members["cumulative_cost"@] is Null
        }),
{
    lemma_names_differ();
    let members = context_document(Some(context))->Object_0;
    assert(members.dom() =~= set![
        "current_hat"@,
        "open_tasks"@,
        "closed_tasks"@,
        "cumulative_cost"@,
    ]);
}

/// An answer's document holds the number, the loop and the token of the question that it
/// answers, the answer as it was given, and the time.
pub proof fn law_answer_says_what_it_answers(answer: AnswerView, timestamp: Seq<char>)
    ensures
        answer_document(answer, timestamp) is Object,
        ({
            let members = answer_document(answer, timestamp)->Object_0;
            &&& members.dom() == set![
                "id"@,
                "loop_id"@,
                "response_token"@,
                "response"@,
                "timestamp"@,
            ]
            &&& members["id"@] == JsonTree::Int(answer.question_id as int)
            &&& members["loop_id"@] == JsonTree::Text(answer.loop_id)
            &&& members["response_token"@] == JsonTree::Text(answer.response_token)
            &&& members["response"@] == JsonTree::Text(answer.response)
            &&& members["timestamp"@] == JsonTree::Text(timestamp)
        }),
{
    lemma_names_differ();
    let members = answer_document(answer, timestamp)->Object_0;
    assert(members.dom() =~= set![
        "id"@,
        "loop_id"@,
        "response_token"@,
        "response"@,
        "timestamp"@,
    ]);
}

/// An event's document holds its topic, its payload and its time, as they were given.
pub proof fn law_event_says_what_happened(
    topic: Seq<char>,
    payload: Seq<char>,
    timestamp: Seq<char>,
)
    ensures
        event_document(topic, payload, timestamp) is Object,
        ({
            let members = event_document(topic, payload, timestamp)->Object_0;
            &&& members.dom() == set!["topic"@, "payload"@, "ts"@]
            &&& members["topic"@] == JsonTree::Text(topic)
            &&& members["payload"@] == JsonTree::Text(payload)
            &&& members["ts"@] == JsonTree::Text(timestamp)
        }),
{
    lemma_names_differ();
    let members = event_document(topic, payload, timestamp)->Object_0;
    assert(members.dom() =~= set!["topic"@, "payload"@, "ts"@]);
}

} // verus!
