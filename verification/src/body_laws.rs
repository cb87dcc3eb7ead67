//! What can be relied on of the body of a request: that the whole conversation is in it, text by
//! text and in its order, with the tools that are offered and the parameters of the model.
use vstd::prelude::*;

use crate::config::{ModelView, ProviderType};
use crate::json::{json_get, json_items, json_text, JsonView};
use crate::model::{
    body_of, chat_body, codex_body, common_messages, paragraphs, request_parameters, responses_call,
    responses_calls, responses_part, responses_parts, responses_state, responses_step,
    responses_tool, responses_tool_list, ResponsesInput,
};
use crate::stream_laws::typed;

verus! {

proof fn lemma_keys_differ()
    ensures
        "type"@.len() == 4 && "type"@[0] == 't' && "type"@[1] == 'y',
        "text"@.len() == 4 && "text"@[0] == 't' && "text"@[1] == 'e',
        "role"@.len() == 4 && "role"@[0] == 'r' && "role"@[1] == 'o',
        "name"@.len() == 4 && "name"@[0] == 'n' && "name"@[1] == 'a',
        "content"@.len() == 7 && "content"@[0] == 'c' && "content"@[1] == 'o',
        "call_id"@.len() == 7 && "call_id"@[0] == 'c' && "call_id"@[1] == 'a',
        "include"@.len() == 7 && "include"@[0] == 'i' && "include"@[1] == 'n',
        "summary"@.len() == 7 && "summary"@[0] == 's' && "summary"@[1] == 'u',
        "output"@.len() == 6 && "output"@[0] == 'o' && "output"@[3] == 'p',
        "strict"@.len() == 6 && "strict"@[0] == 's' && "strict"@[3] == 'i',
        "stream"@.len() == 6 && "stream"@[0] == 's' && "stream"@[3] == 'e',
        "effort"@.len() == 6 && "effort"@[0] == 'e',
        "model"@.len() == 5 && "model"@[0] == 'm',
        "input"@.len() == 5 && "input"@[0] == 'i',
        "store"@.len() == 5 && "store"@[0] == 's',
        "tools"@.len() == 5 && "tools"@[0] == 't',
        "image_url"@.len() == 9 && "image_url"@[0] == 'i',
        "reasoning"@.len() == 9 && "reasoning"@[0] == 'r',
        "arguments"@.len() == 9 && "arguments"@[0] == 'a',
        "description"@.len() == 11 && "description"@[0] == 'd',
        "tool_choice"@.len() == 11 && "tool_choice"@[0] == 't',
        "parameters"@.len() == 10,
        "instructions"@.len() == 12,
        "messages"@.len() == 8,
        "stream_options"@.len() == 14,
        "include_usage"@.len() == 13,
        "parallel_tool_calls"@.len() == 19,
        "system"@.len() == 6 && "system"@[0] == 's',
        "user"@.len() == 4 && "user"@[0] == 'u',
        "assistant"@.len() == 9,
        "tool"@.len() == 4 && "tool"@[0] == 't',
        "input_text"@.len() == 10 && "input_text"@[0] == 'i',
        "output_text"@.len() == 11,
{
    reveal_strlit("type");
    reveal_strlit("text");
    reveal_strlit("role");
    reveal_strlit("name");
    reveal_strlit("content");
    reveal_strlit("call_id");
    reveal_strlit("include");
    reveal_strlit("summary");
    reveal_strlit("output");
    reveal_strlit("strict");
    reveal_strlit("stream");
    reveal_strlit("effort");
    reveal_strlit("model");
    reveal_strlit("input");
    reveal_strlit("store");
    reveal_strlit("tools");
    reveal_strlit("image_url");
    reveal_strlit("reasoning");
    reveal_strlit("arguments");
    reveal_strlit("description");
    reveal_strlit("tool_choice");
    reveal_strlit("parameters");
    reveal_strlit("instructions");
    reveal_strlit("messages");
    reveal_strlit("stream_options");
    reveal_strlit("include_usage");
    reveal_strlit("parallel_tool_calls");
    reveal_strlit("system");
    reveal_strlit("user");
    reveal_strlit("assistant");
    reveal_strlit("tool");
    reveal_strlit("input_text");
    reveal_strlit("output_text");
}

/// A request that nothing has been said in.
pub open spec fn silent() -> ResponsesInput {
    ResponsesInput { instructions: Seq::empty(), input: Seq::empty() }
}

/// Whether a message is one of the conversation in a role, and no provider's own.
pub open spec fn in_role(message: JsonView, role: Seq<char>) -> bool {
    &&& json_text(json_get(message, "_me_provider"@)) is None
    &&& json_get(message, "role"@) == Some(JsonView::Text(role))
}

proof fn lemma_calls_behind(input: Seq<JsonView>, calls: Seq<JsonView>, count: int)
    requires
        0 <= count <= calls.len(),
    ensures
        match (
            responses_calls(input, calls, count),
            responses_calls(Seq::empty(), calls, count),
        ) {
            (Ok(behind), Ok(alone)) => behind == input + alone,
            (Err(one), Err(other)) => one == other,
            _ => false,
        },
    decreases count,
{
    if count > 0 {
        lemma_calls_behind(input, calls, count - 1);
        if let Ok(item) = responses_call(calls[count - 1]) {
            if let Ok(alone) = responses_calls(Seq::empty(), calls, count - 1) {
                assert((input + alone).push(item) =~= input + alone.push(item));
            }
        }
    } else {
        assert(input + Seq::<JsonView>::empty() =~= input);
    }
}

/// Every message is translated by itself: what it adds stands behind what was there, and what was
/// there stays. So the items of a conversation come in the order of its messages.
pub proof fn law_messages_are_translated_one_by_one(state: ResponsesInput, message: JsonView)
    ensures
        match (responses_step(state, message), responses_step(silent(), message)) {
            (Ok(after), Ok(alone)) => after.instructions == state.instructions + alone.instructions
                && after.input == state.input + alone.input,
            (Err(one), Err(other)) => one == other,
            _ => false,
        },
{
    let none = Seq::<JsonView>::empty();
    assert(state.input + none =~= state.input);
    assert(state.instructions + Seq::<Seq<char>>::empty() =~= state.instructions);
    assert forall|item: JsonView| #[trigger] state.input.push(item) == state.input + none.push(
        item,
    ) by {
        assert(state.input.push(item) =~= state.input + none.push(item));
    }
    assert forall|text: Seq<char>| #[trigger]
        state.instructions.push(text) == state.instructions + Seq::<Seq<char>>::empty().push(
            text,
        ) by {
        assert(state.instructions.push(text) =~= state.instructions + Seq::<Seq<char>>::empty().push(
            text,
        ));
    }
    if let Some(calls) = json_items(json_get(message, "tool_calls"@)) {
        assert forall|input: Seq<JsonView>|
            match (
                #[trigger] responses_calls(input, calls, calls.len() as int),
                responses_calls(none, calls, calls.len() as int),
            ) {
                (Ok(behind), Ok(alone)) => behind == input + alone,
                (Err(one), Err(other)) => one == other,
                _ => false,
            } by {
            lemma_calls_behind(input, calls, calls.len() as int);
        }
        assert forall|item: JsonView, tail: Seq<JsonView>|
            #[trigger] (state.input.push(item) + tail) == state.input + (none.push(item) + tail) by {
            assert(state.input.push(item) + tail =~= state.input + (none.push(item) + tail));
        }
        assert forall|tail: Seq<JsonView>| #[trigger] (none + tail) == tail by {
            assert(none + tail =~= tail);
        }
    }
}

/// A conversation is refused only for one of its messages, and what the first messages were
/// translated to stands first in what all of them are.
pub proof fn law_earlier_items_stay(messages: Seq<JsonView>, early: int, late: int)
    requires
        0 <= early <= late <= messages.len(),
        responses_state(messages, late) is Ok,
    ensures
        responses_state(messages, early) is Ok,
        ({
            let first = responses_state(messages, early)->Ok_0;
            let all = responses_state(messages, late)->Ok_0;
            &&& first.input.len() <= all.input.len()
            &&& all.input.take(first.input.len() as int) == first.input
            &&& first.instructions.len() <= all.instructions.len()
            &&& all.instructions.take(first.instructions.len() as int) == first.instructions
        }),
    decreases late - early,
{
    let first = responses_state(messages, early)->Ok_0;
    if early < late {
        law_earlier_items_stay(messages, early, late - 1);
        let before = responses_state(messages, late - 1)->Ok_0;
        law_messages_are_translated_one_by_one(before, messages[late - 1]);
        let all = responses_state(messages, late)->Ok_0;
        assert(all.input.take(first.input.len() as int) =~= before.input.take(
            first.input.len() as int,
        ));
        assert(all.instructions.take(first.instructions.len() as int)
            =~= before.instructions.take(first.instructions.len() as int));
    } else {
        assert(first.input.take(first.input.len() as int) =~= first.input);
        assert(first.instructions.take(first.instructions.len() as int) =~= first.instructions);
    }
}

/// Whether an item is what a tool put out.
pub open spec fn is_output(item: JsonView, id: Seq<char>, output: Seq<char>) -> bool {
    &&& typed(item, "function_call_output"@)
    &&& json_get(item, "call_id"@) == Some(JsonView::Text(id))
    &&& json_get(item, "output"@) == Some(JsonView::Text(output))
}

/// Whether an item is a call of a tool.
pub open spec fn is_call(item: JsonView, id: Seq<char>, name: Seq<char>, arguments: Seq<char>) -> bool {
    &&& typed(item, "function_call"@)
    &&& json_get(item, "call_id"@) == Some(JsonView::Text(id))
    &&& json_get(item, "name"@) == Some(JsonView::Text(name))
    &&& json_get(item, "arguments"@) == Some(JsonView::Text(arguments))
}

/// Whether an item is a message with parts.
pub open spec fn is_message(item: JsonView, role: Seq<char>, parts: Seq<JsonView>) -> bool {
    &&& typed(item, "message"@)
    &&& json_get(item, "role"@) == Some(JsonView::Text(role))
    &&& json_get(item, "content"@) == Some(JsonView::Array(parts))
}

/// Whether a part is a text, of the kind that its role has.
pub open spec fn is_text(part: JsonView, role: Seq<char>, text: Seq<char>) -> bool {
    &&& typed(
        part,
        if role == "assistant"@ {
            "output_text"@
        } else {
            "input_text"@
        },
    )
    &&& json_get(part, "text"@) == Some(JsonView::Text(text))
}

/// What a tool put out becomes one item with exactly that text, under the identity of its call;
/// without an identity or a text there is none.
pub proof fn law_tool_output_is_translated(message: JsonView, id: Seq<char>, output: Seq<char>)
    requires
        in_role(message, "tool"@),
    ensures
        json_get(message, "tool_call_id"@) == Some(JsonView::Text(id)) && json_get(
            message,
            "content"@,
        ) == Some(JsonView::Text(output)) ==> (responses_step(silent(), message) matches Ok(alone)
            && alone.input.len() == 1 && is_output(alone.input[0], id, output)
            && alone.instructions.len() == 0),
        responses_step(silent(), message) is Ok <==> json_text(
            json_get(message, "tool_call_id"@),
        ) is Some && json_text(json_get(message, "content"@)) is Some,
{
    lemma_keys_differ();
}

/// In a whole conversation every output of a tool reaches the model as it is.
pub proof fn law_tool_output_reaches_the_model(
    messages: Seq<JsonView>,
    place: int,
    id: Seq<char>,
    output: Seq<char>,
)
    requires
        0 <= place < messages.len(),
        responses_state(messages, messages.len() as int) is Ok,
        in_role(messages[place], "tool"@),
        json_get(messages[place], "tool_call_id"@) == Some(JsonView::Text(id)),
        json_get(messages[place], "content"@) == Some(JsonView::Text(output)),
    ensures
        exists|k: int|
            0 <= k < responses_state(messages, messages.len() as int)->Ok_0.input.len()
                && is_output(
                #[trigger] responses_state(messages, messages.len() as int)->Ok_0.input[k],
                id,
                output,
            ),
{
    let all = responses_state(messages, messages.len() as int)->Ok_0;
    law_earlier_items_stay(messages, place + 1, messages.len() as int);
    law_earlier_items_stay(messages, place, messages.len() as int);
    let before = responses_state(messages, place)->Ok_0;
    let after = responses_state(messages, place + 1)->Ok_0;
    law_messages_are_translated_one_by_one(before, messages[place]);
    law_tool_output_is_translated(messages[place], id, output);
    let k = before.input.len() as int;
    assert(after.input[k] == responses_step(silent(), messages[place])->Ok_0.input[0]);
    assert(all.input.take(after.input.len() as int)[k] == all.input[k]);
}

/// What the user or the model said becomes one message in the same role with exactly that text; a
/// message without text becomes none.
pub proof fn law_text_is_translated(message: JsonView, role: Seq<char>, text: Seq<char>)
    requires
        role == "user"@ || role == "assistant"@,
        in_role(message, role),
        json_get(message, "content"@) == Some(JsonView::Text(text)),
        json_items(json_get(message, "tool_calls"@)) is None,
    ensures
        responses_step(silent(), message) matches Ok(alone) && alone.instructions.len() == 0 && if text.len() == 0 {
            alone.input.len() == 0
        } else {
            &&& alone.input.len() == 1
            &&& exists|parts: Seq<JsonView>|
                #[trigger] is_message(alone.input[0], role, parts) && parts.len() == 1 && is_text(
                    parts[0],
                    role,
                    text,
                )
        },
{
    lemma_keys_differ();
    if text.len() > 0 {
        let alone = responses_step(silent(), message)->Ok_0;
        let part = crate::model::text_part(role, text);
        assert(is_text(part, role, text));
        assert(is_message(alone.input[0], role, seq![part]));
    }
}

proof fn lemma_call_items(calls: Seq<JsonView>, count: int, place: int)
    requires
        0 <= place < count <= calls.len(),
        responses_calls(Seq::empty(), calls, count) is Ok,
    ensures
        ({
            let items = responses_calls(Seq::empty(), calls, count)->Ok_0;
            &&& items.len() == count
            &&& responses_call(calls[place]) == Ok::<JsonView, Seq<char>>(items[place])
        }),
    decreases count,
{
    lemma_call_items_len(calls, count);
    lemma_call_items_len(calls, count - 1);
    if place < count - 1 {
        lemma_call_items(calls, count - 1, place);
        let before = responses_calls(Seq::empty(), calls, count - 1)->Ok_0;
        assert(responses_calls(Seq::empty(), calls, count)->Ok_0[place] == before[place]);
    }
}

proof fn lemma_call_items_len(calls: Seq<JsonView>, count: int)
    requires
        0 <= count <= calls.len(),
        responses_calls(Seq::empty(), calls, count) is Ok,
    ensures
        responses_calls(Seq::empty(), calls, count)->Ok_0.len() == count,
    decreases count,
{
    if count > 0 {
        lemma_call_items_len(calls, count - 1);
    }
}

/// Every call of a tool becomes one item with its identity, its name and its arguments as they are,
/// in the order of the calls and behind what the model said with them.
pub proof fn law_tool_calls_are_translated(
    message: JsonView,
    calls: Seq<JsonView>,
    place: int,
    function: JsonView,
    id: Seq<char>,
    name: Seq<char>,
    arguments: Seq<char>,
)
    requires
        in_role(message, "assistant"@),
        json_get(message, "tool_calls"@) == Some(JsonView::Array(calls)),
        responses_step(silent(), message) is Ok,
        0 <= place < calls.len(),
        json_get(calls[place], "id"@) == Some(JsonView::Text(id)),
        json_get(calls[place], "function"@) == Some(function),
        json_get(function, "name"@) == Some(JsonView::Text(name)),
        json_get(function, "arguments"@) == Some(JsonView::Text(arguments)),
    ensures
        ({
            let input = responses_step(silent(), message)->Ok_0.input;
            let said = input.len() - calls.len();
            &&& said == 0 || said == 1
            &&& said == 1 ==> typed(input[0], "message"@)
            &&& is_call(input[said + place], id, name, arguments)
            &&& json_text(json_get(message, "content"@)) matches Some(text) ==> (said == 1 <==> text.len()
                > 0)
        }),
{
    lemma_keys_differ();
    let none = Seq::<JsonView>::empty();
    let parts = crate::model::message_parts(message, "assistant"@)->Ok_0;
    let before = crate::model::with_message(none, "assistant"@, parts);
    lemma_calls_behind(before, calls, calls.len() as int);
    lemma_call_items(calls, calls.len() as int, place);
    let items = responses_calls(none, calls, calls.len() as int)->Ok_0;
    let input = responses_step(silent(), message)->Ok_0.input;
    assert(input == before + items);
    assert(input[before.len() + place] == items[place]);
}

/// A call without an identity, a name or arguments is refused.
pub proof fn law_incomplete_calls_are_refused(call: JsonView)
    ensures
        responses_call(call) is Ok <==> json_text(json_get(call, "id"@)) is Some && (json_get(
            call,
            "function"@,
        ) matches Some(function) && json_text(json_get(function, "name"@)) is Some && json_text(
            json_get(function, "arguments"@),
        ) is Some),
{
}

/// What a provider wants back goes to that provider as it is, and to no other.
pub proof fn law_items_go_back_to_their_provider(message: JsonView, provider: Seq<char>, item: JsonView)
    requires
        json_get(message, "_me_provider"@) == Some(JsonView::Text(provider)),
    ensures
        provider == "codex-oauth"@ && json_get(message, "item"@) == Some(item) ==> responses_step(
            silent(),
            message,
        ) == Ok::<ResponsesInput, Seq<char>>(
            ResponsesInput { instructions: Seq::empty(), input: seq![item] },
        ),
        provider != "codex-oauth"@ ==> responses_step(silent(), message) == Ok::<
            ResponsesInput,
            Seq<char>,
        >(silent()),
        provider == "codex-oauth"@ && json_get(message, "item"@) is None ==> responses_step(
            silent(),
            message,
        ) is Err,
{
    assert(Seq::<JsonView>::empty().push(item) =~= seq![item]);
}

/// The word of the system becomes instructions as it is, and no item; where there is no text, it
/// becomes nothing.
pub proof fn law_word_of_the_system_is_an_instruction(message: JsonView)
    requires
        in_role(message, "system"@),
    ensures
        responses_step(silent(), message) matches Ok(alone) && alone.input.len() == 0 && match json_text(
            json_get(message, "content"@),
        ) {
            Some(text) => if text.len() > 0 {
                alone.instructions == seq![text]
            } else {
                alone.instructions.len() == 0
            },
            None => alone.instructions.len() == 0,
        },
{
    lemma_keys_differ();
    if let Some(text) = json_text(json_get(message, "content"@)) {
        assert(Seq::<Seq<char>>::empty().push(text) =~= seq![text]);
    }
}

/// A message that is no provider's own and has no role, or one that is not known, is refused.
pub proof fn law_unknown_roles_are_refused(message: JsonView)
    requires
        json_text(json_get(message, "_me_provider"@)) is None,
        !in_role(message, "system"@),
        !in_role(message, "user"@),
        !in_role(message, "assistant"@),
        !in_role(message, "tool"@),
    ensures
        responses_step(silent(), message) is Err,
{
}

/// Parts of a message are translated one by one and in their order. A text stays the text that it
/// is and an empty one falls away; an image of the user stays the image that it is; all else is
/// refused.
pub proof fn law_parts_are_translated(
    parts: Seq<JsonView>,
    role: Seq<char>,
    count: int,
    part: JsonView,
    kind: Seq<char>,
)
    ensures
        0 <= count < parts.len() ==> match (
            responses_parts(parts, role, count),
            responses_part(parts[count], role),
        ) {
            (Ok(before), Ok(Some(next))) => responses_parts(parts, role, count + 1) == Ok::<
                Seq<JsonView>,
                Seq<char>,
            >(before.push(next)),
            (Ok(before), Ok(None)) => responses_parts(parts, role, count + 1) == Ok::<
                Seq<JsonView>,
                Seq<char>,
            >(before),
            _ => responses_parts(parts, role, count + 1) is Err,
        },
        typed(part, kind) && (kind == "text"@ || kind == "input_text"@ || kind == "output_text"@)
            ==> match json_text(json_get(part, "text"@)) {
            Some(text) => if text.len() > 0 {
                responses_part(part, role) matches Ok(Some(found)) && is_text(found, role, text)
            } else {
                responses_part(part, role) == Ok::<Option<JsonView>, Seq<char>>(None)
            },
            None => responses_part(part, role) is Err,
        },
        typed(part, "image_url"@) && role == "user"@ ==> match json_get(part, "image_url"@) {
            Some(image) => match json_text(json_get(image, "url"@)) {
                Some(url) => responses_part(part, role) matches Ok(Some(found)) && typed(
                    found,
                    "input_image"@,
                ) && json_get(found, "image_url"@) == Some(JsonView::Text(url)),
                None => responses_part(part, role) is Err,
            },
            None => responses_part(part, role) is Err,
        },
        typed(part, "image_url"@) && role != "user"@ ==> responses_part(part, role) is Err,
        typed(part, kind) && kind != "text"@ && kind != "input_text"@ && kind != "output_text"@
            && kind != "image_url"@ ==> responses_part(part, role) is Err,
        json_text(json_get(part, "type"@)) is None ==> responses_part(part, role) is Err,
{
    lemma_keys_differ();
}

/// The parts of a message are all in the one item that it becomes, if there are any left.
pub proof fn law_message_keeps_its_parts(message: JsonView, role: Seq<char>, parts: Seq<JsonView>)
    requires
        role == "user"@ || role == "assistant"@,
        in_role(message, role),
        json_get(message, "content"@) == Some(JsonView::Array(parts)),
        json_items(json_get(message, "tool_calls"@)) is None,
    ensures
        match responses_parts(parts, role, parts.len() as int) {
            Ok(kept) => responses_step(silent(), message) matches Ok(alone) && if kept.len() > 0 {
                alone.input.len() == 1 && is_message(alone.input[0], role, kept)
            } else {
                alone.input.len() == 0
            },
            Err(_) => responses_step(silent(), message) is Err,
        },
{
    lemma_keys_differ();
}

/// Instructions come together as they are, with an empty line between any two.
pub proof fn law_instructions_are_joined(first: Seq<Seq<char>>, second: Seq<Seq<char>>)
    requires
        first.len() > 0,
        second.len() > 0,
    ensures
        paragraphs(first + second) == paragraphs(first) + "\n\n"@ + paragraphs(second),
        forall|text: Seq<char>| #[trigger] paragraphs(seq![text]) == text,
    decreases second.len(),
{
    assert((first + second).drop_last() =~= first + second.drop_last());
    if second.len() == 1 {
        assert(first + second.drop_last() =~= first);
    } else {
        law_instructions_are_joined(first, second.drop_last());
        assert(paragraphs(first) + "\n\n"@ + paragraphs(second.drop_last()) + "\n\n"@ + second.last()
            =~= paragraphs(first) + "\n\n"@ + (paragraphs(second.drop_last()) + "\n\n"@
            + second.last()));
    }
}

/// A function that is offered keeps its name, its parameters and what is said of it; what is not a
/// function with a name and parameters is refused.
pub proof fn law_offered_tools_are_translated(
    tools: Seq<JsonView>,
    count: int,
    place: int,
)
    requires
        0 <= place < count <= tools.len(),
        responses_tool_list(tools, count) is Ok,
    ensures
        responses_tool_list(tools, count)->Ok_0.len() == count,
        is_offer(tools[place], responses_tool_list(tools, count)->Ok_0[place]),
    decreases count,
{
    lemma_keys_differ();
    lemma_tools_len(tools, count);
    lemma_tools_len(tools, count - 1);
    if place < count - 1 {
        law_offered_tools_are_translated(tools, count - 1, place);
        let before = responses_tool_list(tools, count - 1)->Ok_0;
        assert(responses_tool_list(tools, count)->Ok_0[place] == before[place]);
    }
}

proof fn lemma_tools_len(tools: Seq<JsonView>, count: int)
    requires
        0 <= count <= tools.len(),
        responses_tool_list(tools, count) is Ok,
    ensures
        responses_tool_list(tools, count)->Ok_0.len() == count,
    decreases count,
{
    if count > 0 {
        lemma_tools_len(tools, count - 1);
    }
}

/// Whether an offer in the form of the Responses API is that of a tool.
pub open spec fn is_offer(tool: JsonView, offer: JsonView) -> bool {
    &&& typed(tool, "function"@)
    &&& typed(offer, "function"@)
    &&& json_get(tool, "function"@) matches Some(function)
    &&& json_get(offer, "name"@) is Some
    &&& json_get(offer, "name"@) == json_get(function, "name"@)
    &&& json_get(offer, "parameters"@) is Some
    &&& json_get(offer, "parameters"@) == json_get(function, "parameters"@)
    &&& json_get(function, "description"@) is Some ==> json_get(offer, "description"@) == json_get(
        function,
        "description"@,
    )
    &&& json_get(function, "strict"@) is Some ==> json_get(offer, "strict"@) == json_get(
        function,
        "strict"@,
    )
    &&& json_get(function, "strict"@) is None ==> json_get(offer, "strict"@) == Some(
        JsonView::Bool(false),
    )
}

/// A tool is refused only if it is no function or has no name or no parameters.
pub proof fn law_functions_are_not_refused(tool: JsonView, function: JsonView)
    ensures
        typed(tool, "function"@) && json_get(tool, "function"@) == Some(function) && json_get(
            function,
            "name"@,
        ) is Some && json_get(function, "parameters"@) is Some ==> responses_tool(tool) is Ok,
{
}

/// What every provider is told of a conversation in the form of chat completions: each message that
/// is no provider's own, as it is and in its order.
pub proof fn law_conversation_is_sent_as_it_is(first: Seq<JsonView>, second: Seq<JsonView>, message: JsonView)
    ensures
        common_messages(first + second) == common_messages(first) + common_messages(second),
        common_messages(seq![message]) == (if json_get(message, "_me_provider"@) is None {
            seq![message]
        } else {
            Seq::empty()
        }),
    decreases second.len(),
{
    if second.len() == 0 {
        assert(first + second =~= first);
        assert(common_messages(first) + common_messages(second) =~= common_messages(first));
    } else {
        law_conversation_is_sent_as_it_is(first, second.drop_last(), message);
        assert((first + second).drop_last() =~= first + second.drop_last());
        assert(common_messages(first + second) =~= common_messages(first) + common_messages(second));
    }
    assert(seq![message].drop_last() =~= Seq::<JsonView>::empty());
    assert(common_messages(seq![message].drop_last()) =~= Seq::<JsonView>::empty());
    assert(Seq::<JsonView>::empty().push(message) =~= seq![message]);
}

/// The body of a request in the form of chat completions names the model, carries the conversation
/// and the tools, says whether it streams, asks for the tokens where it does, and keeps every other
/// parameter as it is.
pub proof fn law_chat_body_carries_the_conversation(
    model: ModelView,
    messages: Seq<JsonView>,
    tools: Seq<JsonView>,
    effort: Option<Seq<char>>,
    stream: bool,
    key: Seq<char>,
)
    requires
        chat_body(model, messages, tools, effort, stream) is Ok,
    ensures
        ({
            let body = chat_body(model, messages, tools, effort, stream)->Ok_0;
            &&& request_parameters(model, effort) is Ok
            &&& json_get(body, "model"@) == Some(JsonView::Text(model.model))
            &&& json_get(body, "messages"@) == Some(JsonView::Array(common_messages(messages)))
            &&& json_get(body, "stream"@) == Some(JsonView::Bool(stream))
            &&& tools.len() > 0 ==> json_get(body, "tools"@) == Some(JsonView::Array(tools))
                && json_get(body, "parallel_tool_calls"@) == Some(JsonView::Bool(true))
            &&& stream ==> (json_get(body, "stream_options"@) matches Some(options) && json_get(
                options,
                "include_usage"@,
            ) == Some(JsonView::Bool(true)))
            &&& key != "model"@ && key != "messages"@ && key != "stream"@ && key
                != "stream_options"@ && key != "tools"@ && key != "parallel_tool_calls"@
                ==> json_get(body, key) == json_get(
                JsonView::Object(request_parameters(model, effort)->Ok_0),
                key,
            )
        }),
{
    lemma_keys_differ();
}

/// The parameters of an effort come before those of the model, which all others stay; an effort
/// that the model does not take is refused.
pub proof fn law_effort_changes_only_its_parameters(
    model: ModelView,
    effort: Option<Seq<char>>,
    parameters: Map<Seq<char>, JsonView>,
    key: Seq<char>,
)
    requires
        model.parameters == JsonView::Object(parameters),
    ensures
        effort matches Some(named) && !model.takes_effort(named) ==> request_parameters(
            model,
            effort,
        ) is Err,
        request_parameters(model, effort) matches Ok(found) ==> match model.effort_table(effort) {
            Some(table) => if json_get(table, key) is Some {
                json_get(JsonView::Object(found), key) == json_get(table, key)
            } else {
                json_get(JsonView::Object(found), key) == json_get(model.parameters, key)
            },
            None => found == parameters,
        },
{
}

/// The body of a request in the form of the Responses API names the model, carries the instructions
/// and the items of the conversation and the tools, says whether it streams, is not kept by the
/// provider, asks for the reasoning to be handed back, and keeps every other parameter as it is.
pub proof fn law_codex_body_carries_the_conversation(
    model: ModelView,
    messages: Seq<JsonView>,
    tools: Seq<JsonView>,
    effort: Option<Seq<char>>,
    stream: bool,
    key: Seq<char>,
)
    requires
        codex_body(model, messages, tools, effort, stream) is Ok,
    ensures
        responses_state(messages, messages.len() as int) is Ok,
        responses_tool_list(tools, tools.len() as int) is Ok,
        ({
            let body = codex_body(model, messages, tools, effort, stream)->Ok_0;
            let said = responses_state(messages, messages.len() as int)->Ok_0;
            let offered = responses_tool_list(tools, tools.len() as int)->Ok_0;
            &&& json_get(body, "model"@) == Some(JsonView::Text(model.model))
            &&& json_get(body, "instructions"@) == Some(
                JsonView::Text(paragraphs(said.instructions)),
            )
            &&& json_get(body, "input"@) == Some(JsonView::Array(said.input))
            &&& json_get(body, "stream"@) == Some(JsonView::Bool(stream))
            &&& json_get(body, "store"@) == Some(JsonView::Bool(false))
            &&& json_get(body, "include"@) == Some(
                JsonView::Array(seq![JsonView::Text("reasoning.encrypted_content"@)]),
            )
            &&& tools.len() > 0 ==> json_get(body, "tools"@) == Some(JsonView::Array(offered))
                && json_get(body, "tool_choice"@) == Some(JsonView::Text("auto"@)) && json_get(
                body,
                "parallel_tool_calls"@,
            ) == Some(JsonView::Bool(true))
            &&& effort matches Some(named) ==> model.takes_effort(named) && (named != "unset"@ ==> (
            json_get(body, "reasoning"@) matches Some(asked) && json_get(asked, "effort"@) == Some(
                JsonView::Text(named),
            ) && json_get(asked, "summary"@) == Some(JsonView::Text("auto"@))))
            &&& effort is None || effort == Some("unset"@) ==> json_get(body, "reasoning"@)
                == json_get(model.parameters, "reasoning"@)
            &&& key != "model"@ && key != "instructions"@ && key != "input"@ && key != "stream"@
                && key != "store"@ && key != "include"@ && key != "tools"@ && key != "tool_choice"@
                && key != "parallel_tool_calls"@ && key != "reasoning"@ ==> json_get(body, key)
                == json_get(model.parameters, key)
        }),
{
    lemma_keys_differ();
    lemma_tools_len(tools, tools.len() as int);
}

/// What a request does not set stays as the parameters have it: the tools where none are offered,
/// the options of a stream where there is none, and where there is, all of them but the one that
/// asks for the tokens.
pub proof fn law_bodies_leave_the_rest_alone(
    model: ModelView,
    messages: Seq<JsonView>,
    effort: Option<Seq<char>>,
    stream: bool,
    tools: Seq<JsonView>,
    key: Seq<char>,
)
    requires
        key == "tools"@ || key == "parallel_tool_calls"@ || key == "tool_choice"@,
    ensures
        chat_body(model, messages, Seq::empty(), effort, stream) matches Ok(body) ==> json_get(
            body,
            key,
        ) == json_get(JsonView::Object(request_parameters(model, effort)->Ok_0), key),
        codex_body(model, messages, Seq::empty(), effort, stream) matches Ok(body) ==> json_get(
            body,
            key,
        ) == json_get(model.parameters, key),
        chat_body(model, messages, tools, effort, false) matches Ok(body) ==> json_get(
            body,
            "stream_options"@,
        ) == json_get(
            JsonView::Object(request_parameters(model, effort)->Ok_0),
            "stream_options"@,
        ),
{
    lemma_keys_differ();
    reveal_with_fuel(responses_tool_list, 1);
}

/// Asking for the tokens leaves the other options of a stream as they are.
pub proof fn law_stream_options_are_kept(
    model: ModelView,
    messages: Seq<JsonView>,
    tools: Seq<JsonView>,
    effort: Option<Seq<char>>,
    option: Seq<char>,
)
    requires
        chat_body(model, messages, tools, effort, true) is Ok,
        option != "include_usage"@,
    ensures
        ({
            let body = chat_body(model, messages, tools, effort, true)->Ok_0;
            let given = JsonView::Object(request_parameters(model, effort)->Ok_0);
            &&& json_get(body, "stream_options"@) is Some
            &&& json_get(json_get(body, "stream_options"@)->0, option) == (match json_get(
                given,
                "stream_options"@,
            ) {
                Some(options) => json_get(options, option),
                None => None,
            })
        }),
{
    lemma_keys_differ();
}

/// A body is refused only for what is wrong with its parameters, its effort, its messages or its
/// tools, and a model is asked in the form of its provider.
pub proof fn law_bodies_are_refused_only_for_cause(
    model: ModelView,
    messages: Seq<JsonView>,
    tools: Seq<JsonView>,
    effort: Option<Seq<char>>,
    stream: bool,
)
    ensures
        model.parameters is Object && (effort matches Some(named) ==> model.takes_effort(named))
            && responses_state(messages, messages.len() as int) is Ok && responses_tool_list(
            tools,
            tools.len() as int,
        ) is Ok <==> codex_body(model, messages, tools, effort, stream) is Ok,
        model.parameters is Object && (effort matches Some(named) ==> model.takes_effort(named))
            && model.effort_table(effort) is None && !stream ==> chat_body(
            model,
            messages,
            tools,
            effort,
            stream,
        ) is Ok,
        chat_body(model, messages, tools, effort, stream) is Ok ==> model.parameters is Object && (
        effort matches Some(named) ==> model.takes_effort(named)),
        model.provider == ProviderType::CodexOauth ==> body_of(
            model,
            messages,
            tools,
            effort,
            stream,
        ) == codex_body(model, messages, tools, effort, stream),
        model.provider == ProviderType::OpenaiCompatible ==> body_of(
            model,
            messages,
            tools,
            effort,
            stream,
        ) == chat_body(model, messages, tools, effort, stream),
{
}

/// Every model takes the effort that stands for none, which adds nothing to a request, and of the
/// others those that it lists, each with its own parameters.
pub proof fn law_models_take_the_efforts_they_list(model: ModelView, effort: Seq<char>)
    ensures
        model.takes_effort("unset"@),
        model.effort_table(Some("unset"@)) is None,
        model.effort_table(None) is None,
        effort != "unset"@ ==> (model.takes_effort(effort) <==> exists|i: int|
            0 <= i < model.reasoning_efforts.len() && #[trigger] model.reasoning_efforts[i]
                == effort),
        effort != "unset"@ ==> model.effort_table(Some(effort)) == json_get(
            model.effort_parameters,
            effort,
        ),
        !model.reserve_output_context ==> model.reserved_output(Some(effort)) == 0,
{
    if model.reasoning_efforts.contains(effort) {
        let i = choose|i: int|
            0 <= i < model.reasoning_efforts.len() && model.reasoning_efforts[i] == effort;
        assert(model.reasoning_efforts[i] == effort);
    }
}

/// A model that keeps room for its answers keeps what a request of the effort bounds them to, else
/// what any request does, else the most that it answers.
pub proof fn law_reserved_room_is_the_bound(
    model: ModelView,
    effort: Option<Seq<char>>,
    bound: Seq<char>,
    limit: u64,
)
    requires
        model.reserve_output_context,
        bound == "max_output_tokens"@ || (bound == "max_completion_tokens"@ && json_get(
            model.parameters,
            "max_output_tokens"@,
        ) is None) || (bound == "max_tokens"@ && json_get(
            model.parameters,
            "max_output_tokens"@,
        ) is None && json_get(model.parameters, "max_completion_tokens"@) is None),
    ensures
        model.effort_table(effort) is None && json_get(model.parameters, bound) == Some(
            JsonView::Integer(limit as int),
        ) ==> model.reserved_output(effort) == limit,
        model.effort_table(effort) matches Some(table) && json_get(table, "max_output_tokens"@)
            == Some(JsonView::Integer(limit as int)) ==> model.reserved_output(effort) == limit,
        model.effort_table(effort) matches Some(table) && json_get(table, "max_output_tokens"@)
            is None && json_get(table, "max_completion_tokens"@) == Some(
            JsonView::Integer(limit as int),
        ) ==> model.reserved_output(effort) == limit,
        model.effort_table(effort) matches Some(table) && json_get(table, "max_output_tokens"@)
            is None && json_get(table, "max_completion_tokens"@) is None && json_get(
            table,
            "max_tokens"@,
        ) == Some(JsonView::Integer(limit as int)) ==> model.reserved_output(effort) == limit,
        model.effort_table(effort) is None && bound == "max_tokens"@ && json_get(
            model.parameters,
            bound,
        ) is None ==> model.reserved_output(effort) == (match model.max_output_tokens {
            Some(most) => most,
            None => 0,
        }),
{
    reveal_strlit("max_output_tokens");
    reveal_strlit("max_completion_tokens");
    reveal_strlit("max_tokens");
    assert("max_output_tokens"@.len() == 17);
    assert("max_completion_tokens"@.len() == 21);
    assert("max_tokens"@.len() == 10);
}

} // verus!
