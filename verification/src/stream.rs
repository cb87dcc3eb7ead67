//! What a model streams back, line by line.
use vstd::prelude::*;

use crate::config::text_in;
use crate::json::{
    array_view, first_in, get_in, json_failure, json_first, json_get, json_in, json_items,
    json_maybe, json_read, json_text, json_u64, lemma_array_items, owned_text, parse_json, Json,
    JsonView,
};
use crate::text::{same, starts_with, text_after, trim, trimmed};

verus! {

/// What a line adds to a tool call of the answer.
#[derive(Clone, Debug, PartialEq, Eq)]
pub struct OpenAiToolCallDelta {
    pub index: usize,
    pub id: Option<String>,
    pub name: Option<String>,
    pub arguments: Option<String>,
}

/// How many tokens a request took.
#[derive(Clone, Copy, Debug, PartialEq, Eq, Structural)]
pub struct ModelUsage {
    pub input_tokens: u64,
    pub output_tokens: u64,
    pub total_tokens: u64,
}

/// What a line of the stream says.
#[derive(Debug)]
pub enum OpenAiStreamEvent {
    Delta { content: Option<String>, tool_calls: Vec<OpenAiToolCallDelta> },
    ProviderContextItem { provider: String, item: Json },
    Done,
    Other,
}

/// What a line adds to a tool call, as a value.
pub struct DeltaView {
    pub index: usize,
    pub id: Option<Seq<char>>,
    pub name: Option<Seq<char>>,
    pub arguments: Option<Seq<char>>,
}

/// What a line of the stream says, as a value.
pub enum StreamView {
    Delta { content: Option<Seq<char>>, tool_calls: Seq<DeltaView> },
    ProviderContextItem { provider: Seq<char>, item: JsonView },
    Done,
    Other,
}

impl View for OpenAiToolCallDelta {
    type V = DeltaView;

    open spec fn view(&self) -> DeltaView {
        DeltaView {
            index: self.index,
            id: text_in(self.id),
            name: text_in(self.name),
            arguments: text_in(self.arguments),
        }
    }
}

/// What the additions are.
pub open spec fn deltas_view(deltas: Seq<OpenAiToolCallDelta>) -> Seq<DeltaView> {
    Seq::new(deltas.len(), |i: int| deltas[i]@)
}

impl View for OpenAiStreamEvent {
    type V = StreamView;

    open spec fn view(&self) -> StreamView {
        match *self {
            OpenAiStreamEvent::Delta { content, tool_calls } => StreamView::Delta {
                content: text_in(content),
                tool_calls: deltas_view(tool_calls@),
            },
            OpenAiStreamEvent::ProviderContextItem { provider, item } =>
                StreamView::ProviderContextItem { provider: provider@, item: item@ },
            OpenAiStreamEvent::Done => StreamView::Done,
            OpenAiStreamEvent::Other => StreamView::Other,
        }
    }
}

/// What is said of an answer that hit its bound.
pub const TRUNCATED: &'static str = "model response was truncated at the output token limit";

/// What is said of a stream that failed without a word.
pub const STREAM_FAILED: &'static str = "Codex Responses stream failed";

/// The name under which the provider of logins is known.
pub const CODEX_PROVIDER: &'static str = "codex-oauth";

/// The data of a line of the stream.
pub open spec fn line_data(line: Seq<char>) -> Option<Seq<char>> {
    if line.len() >= 5 && line.take(5) == "data:"@ {
        Some(trimmed(line.skip(5)))
    } else {
        None
    }
}

/// A number as an index, if it fits.
pub open spec fn index_of(number: Option<u64>) -> Option<usize> {
    match number {
        Some(found) => if found <= usize::MAX {
            Some(found as usize)
        } else {
            None
        },
        None => None,
    }
}

/// What an item of a list of tool calls adds, if it says to which.
pub open spec fn call_delta(call: JsonView) -> Option<DeltaView> {
    match index_of(json_u64(json_get(call, "index"@))) {
        Some(index) => Some(
            DeltaView {
                index,
                id: json_text(json_get(call, "id"@)),
                name: json_text(json_in(json_get(call, "function"@), "name"@)),
                arguments: json_text(json_in(json_get(call, "function"@), "arguments"@)),
            },
        ),
        None => None,
    }
}

/// What the items of a list of tool calls add.
pub open spec fn call_deltas(calls: Seq<JsonView>) -> Seq<DeltaView>
    decreases calls.len(),
{
    if calls.len() == 0 {
        Seq::empty()
    } else {
        let before = call_deltas(calls.drop_last());
        match call_delta(calls.last()) {
            Some(delta) => before.push(delta),
            None => before,
        }
    }
}

/// The change that the first choice of a chunk brings.
pub open spec fn chunk_delta(value: JsonView) -> Option<JsonView> {
    json_in(json_first(json_get(value, "choices"@)), "delta"@)
}

/// What the data of a line of a chat stream says.
pub open spec fn chat_event(value: JsonView) -> Result<StreamView, Seq<char>> {
    if json_text(json_in(json_first(json_get(value, "choices"@)), "finish_reason"@)) == Some(
        "length"@,
    ) {
        Err(TRUNCATED@)
    } else {
        let content = json_text(json_in(chunk_delta(value), "content"@));
        let tool_calls = match json_items(json_in(chunk_delta(value), "tool_calls"@)) {
            Some(calls) => call_deltas(calls),
            None => Seq::empty(),
        };
        if content is None && tool_calls.len() == 0 {
            Ok(StreamView::Other)
        } else {
            Ok(StreamView::Delta { content, tool_calls })
        }
    }
}

/// The message of a stream that failed.
pub open spec fn failure_message(value: JsonView) -> Seq<char> {
    let said = match json_in(json_in(json_get(value, "response"@), "error"@), "message"@) {
        Some(message) => Some(message),
        None => match json_in(json_get(value, "error"@), "message"@) {
            Some(message) => Some(message),
            None => json_get(value, "message"@),
        },
    };
    match json_text(said) {
        Some(message) => message,
        None => STREAM_FAILED@,
    }
}

/// The tool call that a finished item of a response is.
pub open spec fn item_delta(value: JsonView) -> DeltaView {
    let item = json_get(value, "item"@);
    DeltaView {
        index: match index_of(json_u64(json_get(value, "output_index"@))) {
            Some(index) => index,
            None => 0,
        },
        id: json_text(json_in(item, "call_id"@)),
        name: json_text(json_in(item, "name"@)),
        arguments: json_text(json_in(item, "arguments"@)),
    }
}

/// What the data of a line of a responses stream says.
pub open spec fn responses_event(value: JsonView) -> Result<StreamView, Seq<char>> {
    let item_kind = json_text(json_in(json_get(value, "item"@), "type"@));
    match json_text(json_get(value, "type"@)) {
        None => Ok(StreamView::Other),
        Some(kind) => if kind == "response.output_text.delta"@ {
            Ok(
                StreamView::Delta {
                    content: json_text(json_get(value, "delta"@)),
                    tool_calls: Seq::empty(),
                },
            )
        } else if kind == "response.output_item.done"@ && item_kind == Some("function_call"@) {
            Ok(StreamView::Delta { content: None, tool_calls: seq![item_delta(value)] })
        } else if kind == "response.output_item.done"@ && item_kind == Some("reasoning"@) {
            match json_get(value, "item"@) {
                Some(item) => Ok(
                    StreamView::ProviderContextItem { provider: CODEX_PROVIDER@, item },
                ),
                None => Ok(StreamView::Other),
            }
        } else if kind == "response.completed"@ {
            Ok(StreamView::Done)
        } else if kind == "response.failed"@ || kind == "response.incomplete"@ || kind
            == "error"@ {
            Err(failure_message(value))
        } else {
            Ok(StreamView::Other)
        },
    }
}

/// What the data of a line says.
pub open spec fn data_event(value: JsonView) -> Result<StreamView, Seq<char>> {
    if json_get(value, "type"@) is Some {
        responses_event(value)
    } else {
        chat_event(value)
    }
}

/// What a line of the stream says.
pub open spec fn stream_event(line: Seq<char>) -> Result<StreamView, Seq<char>> {
    match line_data(line) {
        None => Ok(StreamView::Other),
        Some(data) => if data == "[DONE]"@ {
            Ok(StreamView::Done)
        } else {
            match json_read(data) {
                Some(value) => data_event(value),
                None => Err(json_failure(data)),
            }
        },
    }
}

/// Whether this is what is said.
pub open spec fn says(
    result: Result<OpenAiStreamEvent, String>,
    said: Result<StreamView, Seq<char>>,
) -> bool {
    match result {
        Ok(event) => said == Ok::<StreamView, Seq<char>>(event@),
        Err(error) => said == Err::<StreamView, Seq<char>>(error@),
    }
}

fn data_of(line: &str) -> (data: Option<String>)
    ensures
        match data {
            Some(found) => line_data(line@) == Some(found@),
            None => line_data(line@) is None,
        },
{
    proof {
        reveal_strlit("data:");
    }
    if line.unicode_len() >= 5 && starts_with(line, "data:") {
        assert(line@.take(5) =~= "data:"@);
        let rest = text_after(line, 5);
        assert(rest@ =~= line@.skip(5));
        Some(trim(rest.as_str()))
    } else {
        assert(line@.len() >= 5 && line@.take(5) == "data:"@ ==> crate::text::occurs_at(
            line@,
            "data:"@,
            0,
        )) by {
            assert(line@.len() >= 5 ==> line@.subrange(0, 5) =~= line@.take(5));
        }
        None
    }
}

fn as_index(number: Option<u64>) -> (index: Option<usize>)
    ensures
        index == index_of(number),
{
    match number {
        Some(found) => if found <= usize::MAX as u64 {
            Some(found as usize)
        } else {
            None
        },
        None => None,
    }
}

fn read_call(call: &Json) -> (delta: Option<OpenAiToolCallDelta>)
    ensures
        match delta {
            Some(found) => call_delta(call@) == Some(found@),
            None => call_delta(call@) is None,
        },
{
    match as_index(call.u64_at("index")) {
        Some(index) => {
            let function = call.get("function");
            Some(
                OpenAiToolCallDelta {
                    index,
                    id: owned_text(call.get("id")),
                    name: owned_text(get_in(function, "name")),
                    arguments: owned_text(get_in(function, "arguments")),
                },
            )
        },
        None => None,
    }
}

fn read_calls(calls: &Vec<Json>) -> (deltas: Vec<OpenAiToolCallDelta>)
    ensures
        deltas_view(deltas@) == call_deltas(array_view(calls@)),
{
    broadcast use lemma_array_items;

    let mut deltas: Vec<OpenAiToolCallDelta> = Vec::new();
    let ghost all = array_view(calls@);
    let mut place: usize = 0;
    assert(all.take(0) =~= Seq::<JsonView>::empty());
    assert(deltas_view(deltas@) =~= Seq::<DeltaView>::empty());
    while place < calls.len()
        invariant
            place <= calls@.len(),
            all == array_view(calls@),
            all.len() == calls@.len(),
            forall|i: int| 0 <= i < calls@.len() ==> #[trigger] all[i] == calls@[i]@,
            deltas_view(deltas@) == call_deltas(all.take(place as int)),
        decreases calls@.len() - place,
    {
        assert(all.take(place + 1).drop_last() =~= all.take(place as int));
        assert(all.take(place + 1).last() == calls@[place as int]@);
        let ghost before = deltas@;
        if let Some(delta) = read_call(&calls[place]) {
            deltas.push(delta);
            assert(deltas_view(deltas@) =~= deltas_view(before).push(delta@));
        }
        place += 1;
    }
    assert(all.take(place as int) =~= all);
    deltas
}

fn chat_stream_event(value: &Json) -> (result: Result<OpenAiStreamEvent, String>)
    ensures
        says(result, chat_event(value@)),
{
    let choice = first_in(value.get("choices"));
    if let Some(reason) = crate::json::text_in(get_in(choice, "finish_reason")) {
        if same(reason, "length") {
            return Err(TRUNCATED.to_owned());
        }
    }
    let delta = get_in(choice, "delta");
    let content = owned_text(get_in(delta, "content"));
    let tool_calls = match get_in(delta, "tool_calls") {
        Some(calls) => match calls.as_array() {
            Some(items) => read_calls(items),
            None => Vec::new(),
        },
        None => Vec::new(),
    };
    assert(tool_calls@.len() == 0 ==> deltas_view(tool_calls@) =~= Seq::<DeltaView>::empty());
    assert(deltas_view(tool_calls@).len() == tool_calls@.len());
    if content.is_none() && tool_calls.len() == 0 {
        Ok(OpenAiStreamEvent::Other)
    } else {
        Ok(OpenAiStreamEvent::Delta { content, tool_calls })
    }
}

fn failure_text(value: &Json) -> (text: String)
    ensures
        text@ == failure_message(value@),
{
    let said = match get_in(get_in(value.get("response"), "error"), "message") {
        Some(message) => Some(message),
        None => match get_in(value.get("error"), "message") {
            Some(message) => Some(message),
            None => value.get("message"),
        },
    };
    match owned_text(said) {
        Some(message) => message,
        None => STREAM_FAILED.to_owned(),
    }
}

fn is_text(text: Option<&str>, expected: &str) -> (result: bool)
    ensures
        result == (match text {
            Some(found) => found@ == expected@,
            None => false,
        }),
{
    match text {
        Some(found) => same(found, expected),
        None => false,
    }
}

/// What the data of a line of a responses stream says.
pub fn responses_stream_event(value: &Json) -> (result: Result<OpenAiStreamEvent, String>)
    ensures
        says(result, responses_event(value@)),
{
    let item = value.get("item");
    let item_kind = crate::json::text_in(get_in(item, "type"));
    let kind = match value.text_at("type") {
        Some(kind) => kind,
        None => return Ok(OpenAiStreamEvent::Other),
    };
    if same(kind, "response.output_text.delta") {
        let tool_calls: Vec<OpenAiToolCallDelta> = Vec::new();
        assert(deltas_view(tool_calls@) =~= Seq::<DeltaView>::empty());
        return Ok(OpenAiStreamEvent::Delta { content: owned_text(value.get("delta")), tool_calls });
    }
    if same(kind, "response.output_item.done") && is_text(item_kind, "function_call") {
        let delta = OpenAiToolCallDelta {
            index: match as_index(value.u64_at("output_index")) {
                Some(index) => index,
                None => 0,
            },
            id: owned_text(get_in(item, "call_id")),
            name: owned_text(get_in(item, "name")),
            arguments: owned_text(get_in(item, "arguments")),
        };
        assert(delta@ == item_delta(value@));
        let mut tool_calls: Vec<OpenAiToolCallDelta> = Vec::new();
        tool_calls.push(delta);
        assert(deltas_view(tool_calls@) =~= seq![item_delta(value@)]);
        return Ok(OpenAiStreamEvent::Delta { content: None, tool_calls });
    }
    if same(kind, "response.output_item.done") && is_text(item_kind, "reasoning") {
        return match item {
            Some(item) => Ok(
                OpenAiStreamEvent::ProviderContextItem {
                    provider: CODEX_PROVIDER.to_owned(),
                    item: item.copy(),
                },
            ),
            None => Ok(OpenAiStreamEvent::Other),
        };
    }
    if same(kind, "response.completed") {
        return Ok(OpenAiStreamEvent::Done);
    }
    if same(kind, "response.failed") || same(kind, "response.incomplete") || same(kind, "error") {
        return Err(failure_text(value));
    }
    Ok(OpenAiStreamEvent::Other)
}

/// What the data of a line says, once it is read.
pub fn stream_event_of(value: &Json) -> (result: Result<OpenAiStreamEvent, String>)
    ensures
        says(result, data_event(value@)),
{
    if value.get("type").is_some() {
        responses_stream_event(value)
    } else {
        chat_stream_event(value)
    }
}

/// What the line of the stream says.
pub fn openai_stream_event(line: &str) -> (result: Result<OpenAiStreamEvent, String>)
    ensures
        says(result, stream_event(line@)),
{
    match data_of(line) {
        None => Ok(OpenAiStreamEvent::Other),
        Some(data) => if same(data.as_str(), "[DONE]") {
            Ok(OpenAiStreamEvent::Done)
        } else {
            match parse_json(data.as_str()) {
                Ok(value) => stream_event_of(&value),
                Err(error) => Err(error),
            }
        },
    }
}

/// The first of two values that is there.
pub open spec fn either(first: Option<JsonView>, second: Option<JsonView>) -> Option<JsonView> {
    if first is Some {
        first
    } else {
        second
    }
}

/// The sum of two numbers, or the largest number.
pub open spec fn saturating_sum(left: u64, right: u64) -> u64 {
    if left + right > u64::MAX {
        u64::MAX
    } else {
        (left + right) as u64
    }
}

/// The tokens that the data of a line reports, by either set of names. A total that is missing is
/// the sum.
pub open spec fn data_usage(value: JsonView) -> Option<ModelUsage> {
    let usage = either(
        json_in(json_get(value, "response"@), "usage"@),
        json_get(value, "usage"@),
    );
    let input = json_u64(either(json_in(usage, "input_tokens"@), json_in(usage, "prompt_tokens"@)));
    let output = json_u64(
        either(json_in(usage, "output_tokens"@), json_in(usage, "completion_tokens"@)),
    );
    match (input, output) {
        (Some(input_tokens), Some(output_tokens)) => Some(
            ModelUsage {
                input_tokens,
                output_tokens,
                total_tokens: match json_u64(json_in(usage, "total_tokens"@)) {
                    Some(total) => total,
                    None => saturating_sum(input_tokens, output_tokens),
                },
            },
        ),
        _ => None,
    }
}

/// The tokens that a line of the stream reports.
pub open spec fn stream_usage(line: Seq<char>) -> Result<Option<ModelUsage>, Seq<char>> {
    match line_data(line) {
        None => Ok(None),
        Some(data) => if data == "[DONE]"@ {
            Ok(None)
        } else {
            match json_read(data) {
                Some(value) => Ok(data_usage(value)),
                None => Err(json_failure(data)),
            }
        },
    }
}

fn number_in(value: Option<&Json>) -> (number: Option<u64>)
    ensures
        number == json_u64(json_maybe(value)),
{
    match value {
        Some(json) => json.as_u64(),
        None => None,
    }
}

fn either_of<'a>(first: Option<&'a Json>, second: Option<&'a Json>) -> (found: Option<&'a Json>)
    ensures
        json_maybe(found) == either(json_maybe(first), json_maybe(second)),
{
    if first.is_some() {
        first
    } else {
        second
    }
}

/// The tokens that the data of a line reports, once it is read.
pub fn stream_usage_of(value: &Json) -> (usage: Option<ModelUsage>)
    ensures
        usage == data_usage(value@),
{
    let usage = either_of(get_in(value.get("response"), "usage"), value.get("usage"));
    let input = number_in(either_of(get_in(usage, "input_tokens"), get_in(usage, "prompt_tokens")));
    let output = number_in(
        either_of(get_in(usage, "output_tokens"), get_in(usage, "completion_tokens")),
    );
    let total = number_in(get_in(usage, "total_tokens"));
    match (input, output) {
        (Some(input_tokens), Some(output_tokens)) => {
            let total_tokens = match total {
                Some(total) => total,
                None => match input_tokens.checked_add(output_tokens) {
                    Some(sum) => sum,
                    None => u64::MAX,
                },
            };
            Some(ModelUsage { input_tokens, output_tokens, total_tokens })
        },
        _ => None,
    }
}

/// The tokens that the line of the stream reports.
pub fn openai_stream_usage(line: &str) -> (result: Result<Option<ModelUsage>, String>)
    ensures
        match result {
            Ok(usage) => stream_usage(line@) == Ok::<Option<ModelUsage>, Seq<char>>(usage),
            Err(error) => stream_usage(line@) == Err::<Option<ModelUsage>, Seq<char>>(error@),
        },
{
    match data_of(line) {
        None => Ok(None),
        Some(data) => if same(data.as_str(), "[DONE]") {
            Ok(None)
        } else {
            match parse_json(data.as_str()) {
                Ok(value) => Ok(stream_usage_of(&value)),
                Err(error) => Err(error),
            }
        },
    }
}

} // verus!
