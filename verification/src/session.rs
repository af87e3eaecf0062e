//! A session with an agent: the events of its turn, what the agent's notifications
//! amount to, and how its requests for permission are granted.

use crate::codec::compact_text;
use crate::json::{no_members, put, Json, JsonTree};
use crate::paths::UnixPath;
use crate::text::{join, joined, lossy_text};
use vstd::prelude::*;
use vstd::string::StringExecFns;

verus! {

/// A piece of content. Only text is of interest.
#[derive(Debug)]
pub enum ContentBlock {
    Text(String),
    Other,
}

/// What a tool call has produced so far.
#[derive(Debug)]
pub enum ToolCallContent {
    Content(ContentBlock),
    Other,
}

/// How far a tool call has come.
#[derive(Clone, Copy, Debug, PartialEq, Eq, Structural)]
pub enum ToolCallStatus {
    Pending,
    InProgress,
    Completed,
    Failed,
}

/// What an agent notifies its client of.
#[derive(Debug)]
pub enum SessionUpdate {
    AgentMessageChunk(ContentBlock),
    ToolCall {
        title: String,
        tool_call_id: String,
        raw_input: Option<Json>,
        locations: Vec<UnixPath>,
    },
    ToolCallUpdate {
        tool_call_id: String,
        status: Option<ToolCallStatus>,
        content: Option<Vec<ToolCallContent>>,
        raw_output: Option<Json>,
    },
    /// The entries of a plan.
    Plan(Vec<String>),
    Other,
}

/// Why a turn ended.
#[derive(Clone, Copy, Debug, PartialEq, Eq, Structural)]
pub enum StopReason {
    EndTurn,
    MaxTokens,
    MaxTurnRequests,
    Refusal,
    Cancelled,
    Other,
}

/// What the client side of a session tells the executor.
#[derive(Debug)]
pub enum AcpEvent {
    Text(String),
    ToolCall { name: String, id: String, input: Json },
    ToolResult { id: String, output: String },
    Error(String),
    /// The prompt has been answered.
    Done(StopReason),
    /// The session has failed.
    Failed(String),
}

/// An event, by its content.
pub enum EventView {
    Text(Seq<char>),
    ToolCall { name: Seq<char>, id: Seq<char>, input: JsonTree },
    ToolResult { id: Seq<char>, output: Seq<char> },
    Error(Seq<char>),
    Done(StopReason),
    Failed(Seq<char>),
}

impl AcpEvent {
    pub open spec fn view(self) -> EventView {
        match self {
            AcpEvent::Text(text) => EventView::Text(text@),
            AcpEvent::ToolCall { name, id, input } => EventView::ToolCall {
                name: name@,
                id: id@,
                input: input@,
            },
            AcpEvent::ToolResult { id, output } => EventView::ToolResult {
                id: id@,
                output: output@,
            },
            AcpEvent::Error(message) => EventView::Error(message@),
            AcpEvent::Done(reason) => EventView::Done(reason),
            AcpEvent::Failed(message) => EventView::Failed(message@),
        }
    }
}

/// An optional event, by its content.
pub open spec fn event_view(event: Option<AcpEvent>) -> Option<EventView> {
    match event {
        Some(event) => Some(event@),
        None => None,
    }
}

/// The input that a tool call shows: the one it reports, or else the first place
/// that it is about.
pub open spec fn tool_input(raw_input: Option<Json>, locations: Seq<UnixPath>) -> JsonTree {
    match raw_input {
        Some(input) => input@,
        None => if locations.len() > 0 {
            JsonTree::Object(
                Map::empty().insert("path"@, JsonTree::Text(lossy_text(locations[0]@))),
            )
        } else {
            JsonTree::Null
        },
    }
}

/// The first text in what a tool call has produced.
pub open spec fn first_content_text(content: Seq<ToolCallContent>) -> Option<Seq<char>>
    decreases content.len(),
{
    if content.len() == 0 {
        None
    } else if let ToolCallContent::Content(ContentBlock::Text(text)) = content[0] {
        Some(text@)
    } else {
        first_content_text(content.drop_first())
    }
}

/// The text of a JSON value: a string as it is, anything else in JSON notation.
pub open spec fn plain_text(tree: JsonTree) -> Seq<char> {
    match tree {
        JsonTree::Text(text) => text,
        other => compact_text(other),
    }
}

/// What a finished tool call has put out.
pub open spec fn tool_output(
    content: Option<Vec<ToolCallContent>>,
    raw_output: Option<Json>,
) -> Seq<char> {
    let structured = match content {
        Some(content) => first_content_text(content@),
        None => None,
    };
    match structured {
        Some(text) => text,
        None => match raw_output {
            Some(output) => plain_text(output@),
            None => Seq::empty(),
        },
    }
}

/// The lines of a plan.
pub open spec fn plan_lines(entries: Seq<String>) -> Seq<Seq<char>> {
    entries.map_values(|entry: String| "- "@ + entry@)
}

/// What a notification amounts to. A tool call is shown once it says what it is
/// about, its result once it is completed, and a plan if it has entries.
pub open spec fn event_of(update: SessionUpdate) -> Option<EventView> {
    match update {
        SessionUpdate::AgentMessageChunk(ContentBlock::Text(text)) => Some(EventView::Text(text@)),
        SessionUpdate::ToolCall { title, tool_call_id, raw_input, locations } => if raw_input
            is None && locations@.len() == 0 {
            None
        } else {
            Some(
                EventView::ToolCall {
                    name: title@,
                    id: tool_call_id@,
                    input: tool_input(raw_input, locations@),
                },
            )
        },
        SessionUpdate::ToolCallUpdate { tool_call_id, status, content, raw_output } => if status
            == Some(ToolCallStatus::Completed) {
            Some(
                EventView::ToolResult {
                    id: tool_call_id@,
                    output: tool_output(content, raw_output),
                },
            )
        } else {
            None
        },
        SessionUpdate::Plan(entries) => if entries@.len() == 0 {
            None
        } else {
            Some(
                EventView::Text(
                    "\n## Plan\n"@ + joined(plan_lines(entries@), "\n"@) + "\n"@,
                ),
            )
        },
        _ => None,
    }
}

fn content_text(content: &Vec<ToolCallContent>) -> (text: Option<String>)
    ensures
        text is Some <==> first_content_text(content@) is Some,
        text matches Some(found) ==> first_content_text(content@) == Some(found@),
{
    let mut i: usize = 0;
    assert(content@.skip(0) =~= content@);
    while i < content.len()
        invariant
            i <= content.len(),
            first_content_text(content@) == first_content_text(content@.skip(i as int)),
        decreases content.len() - i,
    {
        assert(content@.skip(i as int)[0] == content@[i as int]);
        assert(content@.skip(i as int).drop_first() =~= content@.skip(i + 1));
        if let ToolCallContent::Content(block) = &content[i] {
            if let ContentBlock::Text(text) = block {
                return Some(text.clone());
            }
        }
        i = i + 1;
    }
    None
}

impl Json {
    /// The text of a JSON value: a string as it is, anything else in JSON notation.
    pub fn to_plain_text(&self) -> (text: String)
        ensures
            text@ == plain_text(self@),
    {
        match self.as_str() {
            Some(text) => text.to_owned(),
            None => self.to_text(),
        }
    }
}

fn plan_text(entries: &Vec<String>) -> (text: String)
    ensures
        text@ == joined(plan_lines(entries@), "\n"@),
{
    let mut lines: Vec<String> = Vec::new();
    let mut i: usize = 0;
    while i < entries.len()
        invariant
            i <= entries.len(),
            lines@.len() == i,
            forall|j: int| 0 <= j < i ==> (#[trigger] lines@[j])@ == "- "@ + entries@[j]@,
        decreases entries.len() - i,
    {
        let mut line = "- ".to_owned();
        line.append(entries[i].as_str());
        lines.push(line);
        i = i + 1;
    }
    assert(lines@.map_values(|line: String| line@) =~= plan_lines(entries@));
    join(lines.as_slice(), "\n")
}

/// What a notification amounts to.
pub fn session_event(update: SessionUpdate) -> (event: Option<AcpEvent>)
    ensures
        event_view(event) == event_of(update),
{
    match update {
        SessionUpdate::AgentMessageChunk(block) => match block {
            ContentBlock::Text(text) => Some(AcpEvent::Text(text)),
            ContentBlock::Other => None,
        },
        SessionUpdate::ToolCall { title, tool_call_id, raw_input, locations } => {
            if raw_input.is_none() && locations.len() == 0 {
                return None;
            }
            let ghost shown = tool_input(raw_input, locations@);
            let input = match raw_input {
                Some(input) => input,
                None => {
                    let path = locations[0].display();
                    let mut entries = no_members();
                    put(&mut entries, "path", Json::Text(path));
                    Json::Object(entries)
                },
            };
            assert(input@ == shown);
            Some(AcpEvent::ToolCall { name: title, id: tool_call_id, input })
        },
        SessionUpdate::ToolCallUpdate { tool_call_id, status, content, raw_output } => {
            let completed = match status {
                Some(status) => status == ToolCallStatus::Completed,
                None => false,
            };
            if !completed {
                return None;
            }
            let structured = match &content {
                Some(content) => content_text(content),
                None => None,
            };
            let output = match structured {
                Some(text) => text,
                None => match &raw_output {
                    Some(output) => output.to_plain_text(),
                    None => String::new(),
                },
            };
            assert(output@ =~= tool_output(content, raw_output));
            Some(AcpEvent::ToolResult { id: tool_call_id, output })
        },
        SessionUpdate::Plan(entries) => {
            if entries.len() == 0 {
                return None;
            }
            let mut text = "\n## Plan\n".to_owned();
            let lines = plan_text(&entries);
            text.append(lines.as_str());
            text.append("\n");
            Some(AcpEvent::Text(text))
        },
        SessionUpdate::Other => None,
    }
}

/// The option by which a request for permission is granted: the first that is
/// offered.
pub open spec fn granted_option(options: Seq<String>) -> Seq<char> {
    if options.len() > 0 {
        options[0]@
    } else {
        "allowed"@
    }
}

/// Grants a request for permission.
pub fn request_permission(options: &[String]) -> (option: String)
    ensures
        option@ == granted_option(options@),
{
    if options.len() > 0 {
        options[0].clone()
    } else {
        "allowed".to_owned()
    }
}

} // verus!
