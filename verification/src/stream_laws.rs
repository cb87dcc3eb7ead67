//! What can be relied on of a line of a stream: where a stream ends, when it has failed, and that
//! texts, tool calls, items and tokens come out of a line as they went in.
use vstd::prelude::*;

use crate::json::{
    json_failure, json_first, json_get, json_read, json_text, json_u64, JsonView,
};
use crate::stream::{
    call_deltas, data_event, data_usage, line_data, stream_event, stream_usage, DeltaView,
    ModelUsage, StreamView,
};
use crate::text::{is_blank, is_white_space, trimmed, trimmed_end, trimmed_start};

verus! {

/// Whether a value says of itself what kind it is.
pub open spec fn typed(value: JsonView, kind: Seq<char>) -> bool {
    json_get(value, "type"@) == Some(JsonView::Text(kind))
}

/// Whether a line holds a value.
pub open spec fn holds(line: Seq<char>, value: JsonView) -> bool {
    line_data(line) matches Some(data) && data != "[DONE]"@ && json_read(data) == Some(value)
}

/// Whether the first choice of a chunk is this one.
pub open spec fn chooses(value: JsonView, choice: JsonView) -> bool {
    &&& json_get(value, "type"@) is None
    &&& json_first(json_get(value, "choices"@)) == Some(choice)
}

/// Whether a choice was cut off at its bound.
pub open spec fn cut_off(choice: JsonView) -> bool {
    json_get(choice, "finish_reason"@) == Some(JsonView::Text("length"@))
}

proof fn lemma_kinds_differ()
    ensures
        "response.completed"@ != "response.output_text.delta"@,
        "response.completed"@ != "response.output_item.done"@,
        "response.completed"@ != "response.failed"@,
        "response.completed"@ != "response.incomplete"@,
        "response.completed"@ != "error"@,
        "response.failed"@ != "response.output_text.delta"@,
        "response.failed"@ != "response.output_item.done"@,
        "response.incomplete"@ != "response.output_text.delta"@,
        "response.incomplete"@ != "response.output_item.done"@,
        "error"@ != "response.output_text.delta"@,
        "error"@ != "response.output_item.done"@,
        "response.output_text.delta"@ != "response.output_item.done"@,
        "function_call"@ != "reasoning"@,
{
    reveal_strlit("response.completed");
    reveal_strlit("response.output_text.delta");
    reveal_strlit("response.output_item.done");
    reveal_strlit("response.failed");
    reveal_strlit("response.incomplete");
    reveal_strlit("error");
    reveal_strlit("function_call");
    reveal_strlit("reasoning");
    assert("response.completed"@.len() == 18);
    assert("response.output_text.delta"@.len() == 26);
    assert("response.output_item.done"@.len() == 25);
    assert("response.failed"@.len() == 15);
    assert("response.incomplete"@.len() == 19);
    assert("error"@.len() == 5);
    assert("function_call"@.len() == 13);
    assert("reasoning"@.len() == 9);
}

proof fn lemma_start_trimmed(before: Seq<char>, text: Seq<char>)
    requires
        is_blank(before),
    ensures
        trimmed_start(before + text) == trimmed_start(text),
    decreases before.len(),
{
    if before.len() == 0 {
        assert(before + text =~= text);
    } else {
        assert(is_white_space(before[0]));
        assert forall|i: int| 0 <= i < before.drop_first().len() implies is_white_space(
            #[trigger] before.drop_first()[i],
        ) by {
            assert(is_white_space(before[i + 1]));
        }
        lemma_start_trimmed(before.drop_first(), text);
        assert((before + text).drop_first() =~= before.drop_first() + text);
    }
}

proof fn lemma_end_trimmed(text: Seq<char>, after: Seq<char>)
    requires
        is_blank(after),
    ensures
        trimmed_end(text + after) == trimmed_end(text),
    decreases after.len(),
{
    if after.len() == 0 {
        assert(text + after =~= text);
    } else {
        assert(is_white_space(after.last()));
        assert forall|i: int| 0 <= i < after.drop_last().len() implies is_white_space(
            #[trigger] after.drop_last()[i],
        ) by {
            assert(is_white_space(after[i]));
        }
        lemma_end_trimmed(text, after.drop_last());
        assert((text + after).drop_last() =~= text + after.drop_last());
    }
}

/// Text comes out of a trim as it is, without any white space around it.
pub proof fn law_trim_takes_only_the_blanks_around(
    before: Seq<char>,
    text: Seq<char>,
    after: Seq<char>,
)
    requires
        is_blank(before),
        is_blank(after),
        text.len() > 0,
        !is_white_space(text[0]),
        !is_white_space(text.last()),
    ensures
        trimmed(before + text + after) == text,
{
    assert(before + text + after =~= before + (text + after));
    lemma_start_trimmed(before, text + after);
    assert((text + after)[0] == text[0]);
    assert(trimmed_start(text + after) == text + after);
    lemma_end_trimmed(text, after);
    assert(trimmed_end(text) == text);
}

/// What is put behind `data:` on a line is the data of the line, whatever white space is around
/// it, and only such lines have data.
pub proof fn law_line_carries_its_data(before: Seq<char>, data: Seq<char>, after: Seq<char>)
    requires
        is_blank(before),
        is_blank(after),
        data.len() > 0,
        !is_white_space(data[0]),
        !is_white_space(data.last()),
    ensures
        line_data("data:"@ + before + data + after) == Some(data),
        forall|line: Seq<char>| #[trigger]
            line_data(line) is Some <==> line.len() >= 5 && line.subrange(0, 5) == "data:"@,
{
    reveal_strlit("data:");
    let line = "data:"@ + before + data + after;
    assert(line.take(5) =~= "data:"@);
    assert(line.skip(5) =~= before + data + after);
    law_trim_takes_only_the_blanks_around(before, data, after);
    assert forall|line: Seq<char>| #[trigger] line_data(line) is Some <==> line.len() >= 5
        && line.subrange(0, 5) == "data:"@ by {
        if line.len() >= 5 {
            assert(line.take(5) =~= line.subrange(0, 5));
        }
    }
}

/// A stream ends where its data is `[DONE]` or a response that is completed, and nowhere else.
pub proof fn law_stream_ends_only_when_it_is_done(line: Seq<char>)
    ensures
        stream_event(line) == Ok::<StreamView, Seq<char>>(StreamView::Done) <==> (line_data(
            line,
        ) == Some("[DONE]"@) || exists|value: JsonView| #[trigger]
            holds(line, value) && typed(value, "response.completed"@)),
{
    lemma_kinds_differ();
    if let Some(data) = line_data(line) {
        if data != "[DONE]"@ {
            if let Some(value) = json_read(data) {
                assert(holds(line, value));
            }
        }
    }
}

/// A line is a failure if and only if its data cannot be read, is a response that failed, is
/// incomplete or is an error, or is a chunk whose choice was cut off at its bound.
pub proof fn law_failures_are_never_passed_over(line: Seq<char>)
    ensures
        stream_event(line) is Err <==> {
            ||| line_data(line) matches Some(data) && data != "[DONE]"@ && json_read(data) is None
            ||| exists|value: JsonView| #[trigger]
                holds(line, value) && (typed(value, "response.failed"@) || typed(
                    value,
                    "response.incomplete"@,
                ) || typed(value, "error"@))
            ||| exists|value: JsonView, choice: JsonView|
                holds(line, value) && #[trigger] chooses(value, choice) && cut_off(choice)
        },
{
    lemma_kinds_differ();
    if let Some(data) = line_data(line) {
        if data != "[DONE]"@ {
            if let Some(value) = json_read(data) {
                assert(holds(line, value));
                if let Some(choice) = json_first(json_get(value, "choices"@)) {
                    if json_get(value, "type"@) is None {
                        assert(chooses(value, choice));
                    }
                }
            }
        }
    }
}

/// A response that failed says why: the message of the error within it, else the one of the error
/// beside it, else its own; where there is none that is a text, that the stream failed.
pub proof fn law_failure_says_why(value: JsonView, kind: Seq<char>, message: Seq<char>)
    requires
        kind == "response.failed"@ || kind == "response.incomplete"@ || kind == "error"@,
        typed(value, kind),
    ensures
        ({
            let within = json_get(
                match json_get(
                    match json_get(value, "response"@) {
                        Some(response) => response,
                        None => JsonView::Null,
                    },
                    "error"@,
                ) {
                    Some(error) => error,
                    None => JsonView::Null,
                },
                "message"@,
            );
            let beside = json_get(
                match json_get(value, "error"@) {
                    Some(error) => error,
                    None => JsonView::Null,
                },
                "message"@,
            );
            let own = json_get(value, "message"@);
            let said = JsonView::Text(message);
            &&& within == Some(said) ==> data_event(value) == Err::<StreamView, Seq<char>>(message)
            &&& within is None && beside == Some(said) ==> data_event(value) == Err::<
                StreamView,
                Seq<char>,
            >(message)
            &&& within is None && beside is None && own == Some(said) ==> data_event(value)
                == Err::<StreamView, Seq<char>>(message)
            &&& within is None && beside is None && own is None ==> data_event(value) == Err::<
                StreamView,
                Seq<char>,
            >("Codex Responses stream failed"@)
        }),
{
    lemma_kinds_differ();
}

/// A chunk that was cut off fails with one text, whatever else it holds.
pub proof fn law_cut_off_answer_says_so(value: JsonView, choice: JsonView)
    requires
        chooses(value, choice),
        cut_off(choice),
    ensures
        data_event(value) == Err::<StreamView, Seq<char>>(
            "model response was truncated at the output token limit"@,
        ),
{
}

/// The text of a chunk comes out of it as it went in, and so does the text of a response.
pub proof fn law_streamed_text_is_read(value: JsonView, choice: JsonView, delta: JsonView, text: Seq<char>)
    ensures
        chooses(value, choice) && !cut_off(choice) && json_get(choice, "delta"@) == Some(delta)
            && json_get(delta, "content"@) == Some(JsonView::Text(text)) ==> (data_event(value)
            matches Ok(StreamView::Delta { content, tool_calls }) && content == Some(text)),
        typed(value, "response.output_text.delta"@) && json_get(value, "delta"@) == Some(
            JsonView::Text(text),
        ) ==> (data_event(value) matches Ok(StreamView::Delta { content, tool_calls }) && content
            == Some(text) && tool_calls.len() == 0),
{
    lemma_kinds_differ();
}

/// A text comes out of a line only if it is in it, and so do tool calls and items.
pub proof fn law_nothing_is_made_up(value: JsonView)
    ensures
        data_event(value) matches Ok(StreamView::Delta { content: Some(text), tool_calls }) ==> {
            ||| typed(value, "response.output_text.delta"@) && json_get(value, "delta"@) == Some(
                JsonView::Text(text),
            )
            ||| exists|choice: JsonView, delta: JsonView|
                #![trigger chooses(value, choice), json_get(delta, "content"@)]
                chooses(value, choice) && json_get(choice, "delta"@) == Some(delta) && json_get(
                    delta,
                    "content"@,
                ) == Some(JsonView::Text(text))
        },
        data_event(value) matches Ok(StreamView::ProviderContextItem { provider, item }) ==> {
            &&& provider == "codex-oauth"@
            &&& json_get(value, "item"@) == Some(item)
            &&& typed(item, "reasoning"@)
            &&& typed(value, "response.output_item.done"@)
        },
        data_event(value) == Ok::<StreamView, Seq<char>>(StreamView::Done) ==> typed(
            value,
            "response.completed"@,
        ),
{
    lemma_kinds_differ();
    if let Some(choice) = json_first(json_get(value, "choices"@)) {
        if json_get(value, "type"@) is None {
            assert(chooses(value, choice));
        }
    }
}

/// What a model wants back of its reasoning comes out of a line as it went in.
pub proof fn law_reasoning_is_kept(value: JsonView, item: JsonView)
    requires
        typed(value, "response.output_item.done"@),
        json_get(value, "item"@) == Some(item),
        typed(item, "reasoning"@),
    ensures
        data_event(value) == Ok::<StreamView, Seq<char>>(
            StreamView::ProviderContextItem { provider: "codex-oauth"@, item },
        ),
{
    lemma_kinds_differ();
}

/// A tool call that is done comes out of a line with its place, identity, name and arguments.
pub proof fn law_finished_tool_call_is_read(
    value: JsonView,
    item: JsonView,
    index: u32,
    id: Seq<char>,
    name: Seq<char>,
    arguments: Seq<char>,
)
    requires
        typed(value, "response.output_item.done"@),
        json_get(value, "item"@) == Some(item),
        typed(item, "function_call"@),
        json_get(value, "output_index"@) == Some(JsonView::Integer(index as int)),
        json_get(item, "call_id"@) == Some(JsonView::Text(id)),
        json_get(item, "name"@) == Some(JsonView::Text(name)),
        json_get(item, "arguments"@) == Some(JsonView::Text(arguments)),
    ensures
        data_event(value) matches Ok(StreamView::Delta { content: None, tool_calls }) && tool_calls
            == seq![
            DeltaView {
                index: index as usize,
                id: Some(id),
                name: Some(name),
                arguments: Some(arguments),
            },
        ],
{
    lemma_kinds_differ();
}

/// A tool call that is done and does not say its place comes out as the first; what it does not say is
/// left open.
pub proof fn law_finished_tool_call_without_a_place_is_the_first(value: JsonView, item: JsonView)
    requires
        typed(value, "response.output_item.done"@),
        json_get(value, "item"@) == Some(item),
        typed(item, "function_call"@),
        json_get(value, "output_index"@) is None,
    ensures
        data_event(value) matches Ok(StreamView::Delta { content: None, tool_calls })
            && tool_calls.len() == 1 && tool_calls[0].index == 0 && (json_get(item, "call_id"@)
            is None ==> tool_calls[0].id is None) && (json_get(item, "name"@) is None
            ==> tool_calls[0].name is None) && (json_get(item, "arguments"@) is None
            ==> tool_calls[0].arguments is None),
{
    lemma_kinds_differ();
}

/// Whether an item of a list of tool calls says to which call it adds.
pub open spec fn adds_to(call: JsonView, index: int) -> bool {
    json_get(call, "index"@) == Some(JsonView::Integer(index))
}

/// The pieces of tool calls come out of a chunk in their order and as they went in, each by itself;
/// a piece that does not say to which call it adds does not come out.
pub proof fn law_pieces_of_tool_calls_are_read(
    first: Seq<JsonView>,
    second: Seq<JsonView>,
    call: JsonView,
    function: JsonView,
    index: u32,
)
    ensures
        call_deltas(first + second) == call_deltas(first) + call_deltas(second),
        adds_to(call, index as int) && json_get(call, "function"@) == Some(function)
            ==> call_deltas(seq![call]) == seq![
            DeltaView {
                index: index as usize,
                id: json_text(json_get(call, "id"@)),
                name: json_text(json_get(function, "name"@)),
                arguments: json_text(json_get(function, "arguments"@)),
            },
        ],
        json_u64(json_get(call, "index"@)) is None ==> call_deltas(seq![call]).len() == 0,
    decreases second.len(),
{
    if second.len() == 0 {
        assert(first + second =~= first);
        assert(call_deltas(first) + call_deltas(second) =~= call_deltas(first));
    } else {
        law_pieces_of_tool_calls_are_read(first, second.drop_last(), call, function, index);
        assert((first + second).drop_last() =~= first + second.drop_last());
        assert(call_deltas(first + second) =~= call_deltas(first) + call_deltas(second));
    }
    assert(seq![call].drop_last() =~= Seq::<JsonView>::empty());
    assert(call_deltas(seq![call].drop_last()) =~= Seq::<DeltaView>::empty());
    if adds_to(call, index as int) {
        assert(call_deltas(seq![call]).len() == 1);
    }
}

/// A chunk gives out what the list in its choice adds to tool calls, and nothing else.
pub proof fn law_chunk_gives_out_its_tool_calls(
    value: JsonView,
    choice: JsonView,
    delta: JsonView,
    calls: Seq<JsonView>,
)
    requires
        chooses(value, choice),
        !cut_off(choice),
        json_get(choice, "delta"@) == Some(delta),
        json_get(delta, "tool_calls"@) == Some(JsonView::Array(calls)),
    ensures
        call_deltas(calls).len() > 0 ==> (data_event(value) matches Ok(
            StreamView::Delta { content, tool_calls },
        ) && tool_calls == call_deltas(calls) && content == json_text(
            json_get(delta, "content"@),
        )),
        call_deltas(calls).len() == 0 && json_text(json_get(delta, "content"@)) is None
            ==> data_event(value) == Ok::<StreamView, Seq<char>>(StreamView::Other),
{
}

/// Whether a value reports these tokens, by either set of names.
pub open spec fn reports(usage: JsonView, input: u64, output: u64) -> bool {
    ||| json_u64(json_get(usage, "input_tokens"@)) == Some(input) && json_u64(
        json_get(usage, "output_tokens"@),
    ) == Some(output)
    ||| json_get(usage, "input_tokens"@) is None && json_get(usage, "output_tokens"@) is None
        && json_u64(json_get(usage, "prompt_tokens"@)) == Some(input) && json_u64(
        json_get(usage, "completion_tokens"@),
    ) == Some(output)
}

/// The tokens that a line reports come out of it as they went in: those of the response before
/// those beside it, with the total that is given, or else the sum, held at the largest number.
pub proof fn law_reported_tokens_are_read(
    value: JsonView,
    response: JsonView,
    usage: JsonView,
    input: u64,
    output: u64,
)
    requires
        (json_get(value, "response"@) == Some(response) && json_get(response, "usage"@) == Some(
            usage,
        )) || (json_get(value, "response"@) is None && json_get(value, "usage"@) == Some(usage)),
        reports(usage, input, output),
    ensures
        data_usage(value) matches Some(tokens) && tokens.input_tokens == input
            && tokens.output_tokens == output && match json_u64(json_get(usage, "total_tokens"@)) {
            Some(total) => tokens.total_tokens == total,
            None => tokens.total_tokens <= input + output && (tokens.total_tokens == input + output
                || tokens.total_tokens == u64::MAX),
        },
{
}

/// Tokens are reported only by a line that holds a value that reports both kinds.
pub proof fn law_tokens_are_not_made_up(line: Seq<char>)
    ensures
        stream_usage(line) matches Ok(Some(tokens)) ==> exists|value: JsonView|
            #[trigger] holds(line, value) && data_usage(value) == Some(tokens),
        forall|value: JsonView| #[trigger]
            holds(line, value) ==> stream_usage(line) == Ok::<Option<ModelUsage>, Seq<char>>(
                data_usage(value),
            ) && stream_event(line) == data_event(value),
        line_data(line) is None || line_data(line) == Some("[DONE]"@) ==> stream_usage(line)
            == Ok::<Option<ModelUsage>, Seq<char>>(None),
        forall|value: JsonView| #[trigger]
            data_usage(value) is Some ==> json_get(value, "usage"@) is Some || json_get(
                value,
                "response"@,
            ) is Some,
{
    if let Some(data) = line_data(line) {
        if data != "[DONE]"@ {
            match json_read(data) {
                Some(value) => {
                    assert(holds(line, value));
                },
                None => {
                    assert(stream_usage(line) == Err::<Option<ModelUsage>, Seq<char>>(
                        json_failure(data),
                    ));
                },
            }
        }
    }
}

/// Lines without data and values of other kinds say nothing, and data that cannot be read fails
/// with what is said of it.
pub proof fn law_other_lines_say_nothing(line: Seq<char>, value: JsonView)
    ensures
        line_data(line) is None ==> stream_event(line) == Ok::<StreamView, Seq<char>>(
            StreamView::Other,
        ),
        line_data(line) matches Some(data) && data != "[DONE]"@ && json_read(data) is None
            ==> stream_event(line) == Err::<StreamView, Seq<char>>(json_failure(line_data(line)->0))
            && stream_usage(line) == Err::<Option<ModelUsage>, Seq<char>>(
            json_failure(line_data(line)->0),
        ),
        json_get(value, "type"@) is Some && !typed(value, "response.output_text.delta"@) && !typed(
            value,
            "response.output_item.done"@,
        ) && !typed(value, "response.completed"@) && !typed(value, "response.failed"@) && !typed(
            value,
            "response.incomplete"@,
        ) && !typed(value, "error"@) ==> data_event(value) == Ok::<StreamView, Seq<char>>(
            StreamView::Other,
        ),
        json_get(value, "type"@) is None && json_get(value, "choices"@) is None ==> data_event(
            value,
        ) == Ok::<StreamView, Seq<char>>(StreamView::Other),
{
}

} // verus!
