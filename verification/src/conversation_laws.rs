//! What can be relied on of the conversation that is put before a model: that nothing of what was
//! asked, said, called, put out or summed up is lost in it, and that it only grows.
use vstd::prelude::*;

use crate::context::{
    batch_calls, calling_message, chat_state, chat_step, context_start, context_state,
    context_step, detail_value, end_value, first_messages, first_user_prompt, follow_up_prompt,
    image_message, injection, main_context, manager_prompt, parent_agent_prompt, profile_in,
    provider_message, shown_form, structured, succeeded, title_exchange, tool_message, user_prompt,
    with_images, ContextState, MainContextInput, UpdatesView,
};
use crate::event::{
    event_with, CompactKind, CompactState, Computed, Event, EventBody, EventId, ToolCall,
    ToolResultState,
};
use crate::file_scope::after_result;
use crate::json::{json_get, json_read, json_text, json_written, JsonView};
use crate::message_laws::{
    law_answers_can_be_read_back, law_calling_message_holds_both, law_calls_can_be_read_back,
    law_items_can_be_read_back, shows_call,
};
use crate::model::role_message;
use crate::profile::MainAgentProfile;
use crate::stage_laws::{law_message_says_its_content, speaks};
use crate::tool_calls::tool_call_with;

verus! {

/// Whether messages are others with more behind them.
pub open spec fn grows(before: Seq<JsonView>, after: Seq<JsonView>) -> bool {
    before.len() <= after.len() && after.take(before.len() as int) == before
}

proof fn lemma_grows_twice(one: Seq<JsonView>, two: Seq<JsonView>, three: Seq<JsonView>)
    requires
        grows(one, two),
        grows(two, three),
    ensures
        grows(one, three),
{
    assert(three.take(one.len() as int) =~= two.take(one.len() as int)) by {
        assert forall|i: int| 0 <= i < one.len() implies three[i] == two[i] by {
            assert(three.take(two.len() as int)[i] == two[i]);
        }
    }
}

proof fn lemma_push_grows(before: Seq<JsonView>, message: JsonView)
    ensures
        grows(before, before.push(message)),
        grows(before, before),
{
    assert(before.push(message).take(before.len() as int) =~= before);
    assert(before.take(before.len() as int) =~= before);
}

/// What the model said in a message.
pub open spec fn spoken_in(message: JsonView) -> Seq<char> {
    if json_get(message, "role"@) == Some(JsonView::Text("assistant"@)) {
        match json_text(json_get(message, "content"@)) {
            Some(text) => text,
            None => Seq::empty(),
        }
    } else {
        Seq::empty()
    }
}

/// What the model said in messages, all of it in a row.
pub open spec fn spoken(messages: Seq<JsonView>) -> Seq<char>
    decreases messages.len(),
{
    if messages.len() == 0 {
        Seq::empty()
    } else {
        spoken(messages.drop_last()) + spoken_in(messages.last())
    }
}

/// What the model said by the first events, all of it in a row.
pub open spec fn said_by(events: Seq<Event>, count: int) -> Seq<char>
    decreases count,
{
    if count <= 0 {
        Seq::empty()
    } else {
        match events[count - 1].body {
            EventBody::AssistResponse(response) => said_by(events, count - 1) + response.content@,
            _ => said_by(events, count - 1),
        }
    }
}

/// What the model has said in a conversation, also where it is no message yet.
pub open spec fn said_so_far(state: ContextState) -> Seq<char> {
    spoken(state.messages) + state.assistant
}

proof fn lemma_roles_differ()
    ensures
        "assistant"@ != "user"@,
        "assistant"@ != "tool"@,
        "assistant"@ != "system"@,
        "role"@ != "_me_provider"@,
        "role"@ != "item"@,
        "role"@ != "content"@,
{
    reveal_strlit("assistant");
    reveal_strlit("user");
    reveal_strlit("tool");
    reveal_strlit("system");
    reveal_strlit("role");
    reveal_strlit("_me_provider");
    reveal_strlit("item");
    reveal_strlit("content");
    assert("assistant"@.len() == 9);
    assert("user"@.len() == 4);
    assert("tool"@.len() == 4);
    assert("system"@.len() == 6);
    assert("role"@.len() == 4 && "role"@[0] == 'r');
    assert("item"@.len() == 4 && "item"@[0] == 'i');
    assert("_me_provider"@.len() == 12);
    assert("content"@.len() == 7);
}

proof fn lemma_spoken_push(messages: Seq<JsonView>, message: JsonView)
    ensures
        spoken(messages.push(message)) == spoken(messages) + spoken_in(message),
{
    assert(messages.push(message).drop_last() =~= messages);
}

proof fn lemma_quiet_push(messages: Seq<JsonView>, message: JsonView)
    requires
        spoken_in(message).len() == 0,
    ensures
        spoken(messages.push(message)) == spoken(messages),
{
    lemma_spoken_push(messages, message);
    assert(spoken(messages) + spoken_in(message) =~= spoken(messages));
}

proof fn lemma_told(state: ContextState, content: Seq<char>)
    ensures
        grows(state.messages, state.told(content).messages),
        said_so_far(state.told(content)) == said_so_far(state),
        state.told(content).messages.len() == state.messages.len() + 1,
        speaks(state.told(content).messages.last(), "user"@, content),
        state.told(content).assistant == state.assistant,
{
    lemma_roles_differ();
    law_message_says_its_content("user"@, content, "role"@);
    lemma_push_grows(state.messages, role_message("user"@, content));
    lemma_quiet_push(state.messages, role_message("user"@, content));
}

proof fn lemma_flushed(state: ContextState)
    ensures
        grows(state.messages, state.flushed().messages),
        said_so_far(state.flushed()) == said_so_far(state),
        state.flushed().assistant.len() == 0,
        state.assistant.len() > 0 ==> state.flushed().messages.len() == state.messages.len() + 1
            && speaks(state.flushed().messages.last(), "assistant"@, state.assistant),
        state.assistant.len() == 0 ==> state.flushed() == state,
{
    let message = role_message("assistant"@, state.assistant);
    law_message_says_its_content("assistant"@, state.assistant, "role"@);
    lemma_push_grows(state.messages, message);
    lemma_spoken_push(state.messages, message);
    assert(spoken(state.messages) + state.assistant + Seq::<char>::empty() =~= spoken(
        state.messages,
    ) + state.assistant);
}

proof fn lemma_with_images(
    state: ContextState,
    effective: Seq<Event>,
    count: int,
    api_call_id: EventId,
)
    requires
        with_images(state, effective, count, api_call_id) is Ok,
    ensures
        grows(state.messages, with_images(state, effective, count, api_call_id)->Ok_0.messages),
        said_so_far(with_images(state, effective, count, api_call_id)->Ok_0) == said_so_far(state),
        with_images(state, effective, count, api_call_id)->Ok_0.batches == state.batches,
        with_images(state, effective, count, api_call_id)->Ok_0.assistant == state.assistant,
    decreases count,
{
    lemma_push_grows(state.messages, JsonView::Null);
    if count > 0 {
        lemma_with_images(state, effective, count - 1, api_call_id);
        let before = with_images(state, effective, count - 1, api_call_id)->Ok_0;
        let event = effective[count - 1];
        let place = before.images[event.id];
        if let EventBody::ImageContent(image) = effective[place as int].body {
            if let Ok(message) = image_message(effective[place as int].id, image) {
                lemma_roles_differ();
                assert(json_get(message, "role"@) == Some(JsonView::Text("user"@)));
                lemma_push_grows(before.messages, message);
                lemma_grows_twice(state.messages, before.messages, before.messages.push(message));
                lemma_quiet_push(before.messages, message);
            }
        }
    }
}

/// What the model said up to an event is in the conversation up to it, and nothing else is; an
/// event takes no message away, and changes none.
pub proof fn law_events_only_add(input: MainContextInput, state: ContextState, place: int)
    requires
        context_step(input, state, place) is Ok,
    ensures
        grows(state.messages, context_step(input, state, place)->Ok_0.messages),
        said_so_far(context_step(input, state, place)->Ok_0) == said_so_far(state) + (
        match input.effective@[place].body {
            EventBody::AssistResponse(response) => response.content@,
            _ => Seq::empty(),
        }),
{
    let event = input.effective@[place];
    let next = context_step(input, state, place)->Ok_0;
    let flushed = state.flushed();
    lemma_flushed(state);
    lemma_push_grows(state.messages, JsonView::Null);
    assert(said_so_far(state) + Seq::<char>::empty() =~= said_so_far(state));
    match event.body {
        EventBody::UserPrompt(content) => {
            lemma_asked(state, user_prompt(content@));
            let asked = flushed.told(user_prompt(content@));
            lemma_told(asked, injection("set_title_required"@, input.first_prompt_reminder@));
            lemma_grows_twice(
                state.messages,
                asked.messages,
                asked.told(
                    injection("set_title_required"@, input.first_prompt_reminder@),
                ).messages,
            );
        },
        EventBody::ManagerPrompt(content) => {
            lemma_asked(state, manager_prompt(content@));
        },
        EventBody::ParentAgentPrompt(content) => {
            lemma_asked(state, parent_agent_prompt(content@));
        },
        EventBody::FollowUpPrompt(prompt) => {
            lemma_asked(state, follow_up_prompt(prompt.content@));
        },
        EventBody::AssistResponse(response) => {
            assert(spoken(state.messages) + (state.assistant + response.content@) =~= spoken(
                state.messages,
            ) + state.assistant + response.content@);
        },
        EventBody::ModelContextItem(item) => {
            let value = json_read(item.content@)->0;
            let message = provider_message(item.provider@, value);
            lemma_item(flushed, item.provider@, value);
            lemma_grows_twice(state.messages, flushed.messages, flushed.messages.push(message));
        },
        EventBody::ToolCall(call) => {
            if !state.batches.contains(call.api_call_id) {
                let calls = batch_calls(
                    input.effective@,
                    input.effective@.len() as int,
                    call.api_call_id,
                    input.catalog,
                );
                let message = calling_message(state.assistant, calls);
                law_calling_message_holds_both(state.assistant, calls);
                lemma_push_grows(state.messages, message);
                lemma_spoken_push(state.messages, message);
                assert(spoken_in(message) =~= state.assistant);
                assert(spoken(state.messages) + state.assistant + Seq::<char>::empty() =~= spoken(
                    state.messages,
                ) + state.assistant);
            }
        },
        EventBody::ToolCallResult(result) => {
            lemma_result(input, state, place);
        },
        EventBody::WorkMapPendingReminder(_) => {
            lemma_asked(
                state,
                injection("workmap_pending"@, crate::prompts::WORKMAP_PENDING_REMINDER_PROMPT@),
            );
        },
        EventBody::CompactStateUpdate(update) => {
            if update.state == CompactState::Completed {
                lemma_summed(input, state, place);
            }
        },
        _ => {},
    }
}

proof fn lemma_asked(state: ContextState, content: Seq<char>)
    ensures
        grows(state.messages, state.flushed().told(content).messages),
        said_so_far(state.flushed().told(content)) == said_so_far(state),
{
    lemma_flushed(state);
    lemma_told(state.flushed(), content);
    lemma_grows_twice(
        state.messages,
        state.flushed().messages,
        state.flushed().told(content).messages,
    );
}

proof fn lemma_item(state: ContextState, provider: Seq<char>, item: JsonView)
    ensures
        grows(state.messages, state.with_message(provider_message(provider, item)).messages),
        said_so_far(state.with_message(provider_message(provider, item))) == said_so_far(state),
{
    let message = provider_message(provider, item);
    lemma_roles_differ();
    assert(json_get(message, "role"@) is None);
    lemma_push_grows(state.messages, message);
    lemma_quiet_push(state.messages, message);
}

proof fn lemma_summed(input: MainContextInput, state: ContextState, place: int)
    requires
        context_step(input, state, place) is Ok,
        input.effective@[place].body matches EventBody::CompactStateUpdate(update) && update.state
            == CompactState::Completed,
    ensures
        grows(state.messages, context_step(input, state, place)->Ok_0.messages),
        said_so_far(context_step(input, state, place)->Ok_0) == said_so_far(state),
{
    let texts = crate::context::compact_texts(
        input.compacts@,
        input.effective@[place].id,
    )->0;
    let one = injection("compact_summary"@, texts.continuation@);
    lemma_asked(state, one);
    let summed = state.flushed().told(one);
    assert forall|content: Seq<char>|
        grows(state.messages, (#[trigger] summed.told(content)).messages) && said_so_far(
            summed.told(content),
        ) == said_so_far(state) by {
        lemma_told(summed, content);
        lemma_grows_twice(state.messages, summed.messages, summed.told(content).messages);
    }
    assert forall|first: Seq<char>, content: Seq<char>|
        grows(state.messages, (#[trigger] summed.told(first).told(content)).messages)
            && said_so_far(summed.told(first).told(content)) == said_so_far(state) by {
        lemma_told(summed.told(first), content);
        lemma_grows_twice(
            state.messages,
            summed.told(first).messages,
            summed.told(first).told(content).messages,
        );
    }
}

/// The answer of a tool as it is shown, and the conversation with it.
proof fn lemma_result(input: MainContextInput, state: ContextState, place: int)
    requires
        context_step(input, state, place) is Ok,
        input.effective@[place].body is ToolCallResult,
    ensures
        grows(state.messages, context_step(input, state, place)->Ok_0.messages),
        said_so_far(context_step(input, state, place)->Ok_0) == said_so_far(state),
        context_step(input, state, place)->Ok_0.batches == state.batches,
        ({
            let result = input.effective@[place].body->ToolCallResult_0;
            let next = context_step(input, state, place)->Ok_0;
            let id = input.effective@[place].id;
            &&& tool_call_with(input.edb@, result.tool_call_id) matches Some(call)
            &&& next.messages.len() > state.messages.len()
            &&& next.messages[state.messages.len() as int] == tool_message(
                call.provider_call_id@,
                shown_answer(input, state, place),
            )
            &&& !input.image_input_supported ==> next.messages.len() == state.messages.len() + 1
        }),
{
    let event = input.effective@[place];
    let result = event.body->ToolCallResult_0;
    let call = tool_call_with(input.edb@, result.tool_call_id)->0;
    let visible = shown_answer(input, state, place);
    let message = tool_message(call.provider_call_id@, visible);
    law_answers_can_be_read_back(call.provider_call_id@, visible);
    lemma_roles_differ();
    lemma_push_grows(state.messages, message);
    lemma_quiet_push(state.messages, message);
    let next = context_step(input, state, place)->Ok_0;
    let count = input.effective@.len() as int;
    assert forall|answered: ContextState|
        (#[trigger] with_images(answered, input.effective@, count, call.api_call_id)) is Ok implies grows(
        answered.messages,
        with_images(answered, input.effective@, count, call.api_call_id)->Ok_0.messages,
    ) && said_so_far(with_images(answered, input.effective@, count, call.api_call_id)->Ok_0)
        == said_so_far(answered) && with_images(
        answered,
        input.effective@,
        count,
        call.api_call_id,
    )->Ok_0.batches == answered.batches by {
        lemma_with_images(answered, input.effective@, count, call.api_call_id);
    }
    let pushed = state.messages.push(message);
    assert(grows(pushed, next.messages)) by {
        lemma_push_grows(pushed, JsonView::Null);
    }
    lemma_grows_twice(state.messages, pushed, next.messages);
    assert(next.messages.take(pushed.len() as int)[state.messages.len() as int] == message);
}

/// What a running tool has put out up to now.
pub open spec fn output_so_far(state: ContextState, tool_call: EventId) -> UpdatesView {
    if state.outputs.dom().contains(tool_call) {
        state.outputs[tool_call]
    } else {
        UpdatesView::empty()
    }
}

/// The answer of a tool as it is shown: in the form that was made for it or as it is, and with the
/// ranges that may be edited where a file was read.
pub open spec fn shown_answer(input: MainContextInput, state: ContextState, place: int) -> JsonView {
    let result = input.effective@[place].body->ToolCallResult_0;
    let call = tool_call_with(input.edb@, result.tool_call_id)->0;
    after_result(
        state.files,
        call.name@,
        json_read(call.arguments@),
        result.state == ToolResultState::Succeeded,
        shown_form(
            input.forms@,
            input.effective@[place].id,
            structured(
                output_so_far(state, result.tool_call_id),
                end_value(result.state, result.exit_code, detail_value(result.detail@)),
            ),
        ),
    ).1
}

/// What a tool answered becomes a message under the identity that the provider gave the call, right
/// behind what was there. Where no file was read, it is the answer with all that the tool put out,
/// in the form that was made for it, if one was.
pub proof fn law_answers_are_put_before_the_model(
    input: MainContextInput,
    state: ContextState,
    place: int,
)
    requires
        context_step(input, state, place) is Ok,
        input.effective@[place].body is ToolCallResult,
    ensures
        ({
            let result = input.effective@[place].body->ToolCallResult_0;
            let next = context_step(input, state, place)->Ok_0;
            &&& tool_call_with(input.edb@, result.tool_call_id) matches Some(call)
            &&& next.messages.len() > state.messages.len()
            &&& is_answer(
                next.messages[state.messages.len() as int],
                call.provider_call_id@,
                shown_answer(input, state, place),
            )
            &&& call.name@ != "File.Read"@ || result.state != ToolResultState::Succeeded
                ==> shown_answer(input, state, place) == shown_form(
                input.forms@,
                input.effective@[place].id,
                structured(
                    output_so_far(state, result.tool_call_id),
                    end_value(result.state, result.exit_code, detail_value(result.detail@)),
                ),
            )
            &&& !input.image_input_supported ==> next.messages.len() == state.messages.len() + 1
        }),
{
    lemma_result(input, state, place);
    let result = input.effective@[place].body->ToolCallResult_0;
    let call = tool_call_with(input.edb@, result.tool_call_id)->0;
    law_answers_can_be_read_back(call.provider_call_id@, shown_answer(input, state, place));
}

/// Whether a message is what a tool answered.
pub open spec fn is_answer(message: JsonView, id: Seq<char>, value: JsonView) -> bool {
    &&& json_get(message, "role"@) == Some(JsonView::Text("tool"@))
    &&& json_get(message, "tool_call_id"@) == Some(JsonView::Text(id))
    &&& json_get(message, "content"@) == Some(JsonView::Text(json_written(value)))
}

/// What a running tool puts out is kept for its own answer and no other's, and is given up once it
/// has answered.
pub proof fn law_output_waits_for_its_answer(
    input: MainContextInput,
    state: ContextState,
    place: int,
    tool_call: EventId,
)
    requires
        context_step(input, state, place) is Ok,
    ensures
        ({
            let next = context_step(input, state, place)->Ok_0;
            match input.effective@[place].body {
                EventBody::ToolInfoUpdate(info) => {
                    &&& next.messages == state.messages
                    &&& output_so_far(next, info.tool_call_id) == output_so_far(
                        state,
                        info.tool_call_id,
                    ).with_update(info)
                    &&& tool_call != info.tool_call_id ==> output_so_far(next, tool_call)
                        == output_so_far(state, tool_call)
                },
                EventBody::ToolCallResult(result) => true,
                _ => output_so_far(next, tool_call) == output_so_far(state, tool_call),
            }
        }),
{
}

/// What the model is asked stands in the conversation in an envelope that says who asked, behind all
/// that was said before; the first prompt of the user is followed by the word on titles.
pub proof fn law_prompts_are_put_before_the_model(
    input: MainContextInput,
    state: ContextState,
    place: int,
)
    requires
        context_step(input, state, place) is Ok,
    ensures
        ({
            let event = input.effective@[place];
            let before = state.flushed().messages;
            let after = context_step(input, state, place)->Ok_0.messages;
            match event.body {
                EventBody::UserPrompt(content) => {
                    let first = first_user_prompt(input.edb@) == Some(event.id);
                    &&& grows(before, after)
                    &&& after.len() == before.len() + (if first {
                        2int
                    } else {
                        1
                    })
                    &&& speaks(after[before.len() as int], "user"@, user_prompt(content@))
                    &&& first ==> speaks(
                        after.last(),
                        "user"@,
                        injection("set_title_required"@, input.first_prompt_reminder@),
                    )
                },
                EventBody::ManagerPrompt(content) => grows(before, after) && after.len()
                    == before.len() + 1 && speaks(
                    after.last(),
                    "user"@,
                    manager_prompt(content@),
                ),
                EventBody::ParentAgentPrompt(content) => grows(before, after) && after.len()
                    == before.len() + 1 && speaks(
                    after.last(),
                    "user"@,
                    parent_agent_prompt(content@),
                ),
                EventBody::FollowUpPrompt(prompt) => grows(before, after) && after.len()
                    == before.len() + 1 && speaks(
                    after.last(),
                    "user"@,
                    follow_up_prompt(prompt.content@),
                ),
                EventBody::WorkMapPendingReminder(_) => grows(before, after) && after.len()
                    == before.len() + 1 && speaks(
                    after.last(),
                    "user"@,
                    injection(
                        "workmap_pending"@,
                        crate::prompts::WORKMAP_PENDING_REMINDER_PROMPT@,
                    ),
                ),
                EventBody::ModelContextItem(item) => {
                    &&& grows(before, after)
                    &&& after.len() == before.len() + 1
                    &&& json_get(after.last(), "_me_provider"@) == Some(
                        JsonView::Text(item.provider@),
                    )
                    &&& json_get(after.last(), "item"@) == json_read(item.content@)
                    &&& json_read(item.content@) is Some
                },
                _ => true,
            }
        }),
{
    let event = input.effective@[place];
    let flushed = state.flushed();
    assert forall|content: Seq<char>|
        grows(flushed.messages, (#[trigger] flushed.told(content)).messages)
            && flushed.told(content).messages.len() == flushed.messages.len() + 1 && speaks(
            flushed.told(content).messages.last(),
            "user"@,
            content,
        ) by {
        lemma_told(flushed, content);
    }
    match event.body {
        EventBody::UserPrompt(content) => {
            let asked = flushed.told(user_prompt(content@));
            let word = injection("set_title_required"@, input.first_prompt_reminder@);
            lemma_told(asked, word);
            lemma_grows_twice(flushed.messages, asked.messages, asked.told(word).messages);
            assert(asked.told(word).messages[flushed.messages.len() as int]
                == asked.messages.last());
        },
        EventBody::ModelContextItem(item) => {
            let value = json_read(item.content@)->0;
            law_items_can_be_read_back(item.provider@, value);
            lemma_push_grows(flushed.messages, provider_message(item.provider@, value));
        },
        _ => {},
    }
}

/// The model is told the summary of a compaction that completed: how to go on; then a worker is
/// told the prompt of its manager again, and any other agent what happened before.
pub proof fn law_summaries_are_put_before_the_model(
    input: MainContextInput,
    state: ContextState,
    place: int,
)
    requires
        context_step(input, state, place) is Ok,
        input.effective@[place].body is CompactStateUpdate,
    ensures
        ({
            let event = input.effective@[place];
            let update = event.body->CompactStateUpdate_0;
            let texts = crate::context::compact_texts(input.compacts@, event.id)->0;
            let before = state.flushed().messages;
            let after = context_step(input, state, place)->Ok_0.messages;
            let worker = profile_in(input.edb@) == Some(MainAgentProfile::Worker);
            if update.state == CompactState::Completed {
                &&& grows(before, after)
                &&& after.len() > before.len()
                &&& speaks(
                    after[before.len() as int],
                    "user"@,
                    injection("compact_summary"@, texts.continuation@),
                )
                &&& !worker ==> after.len() == before.len() + 2 && (texts.turn_history matches
                    Computed::Value(history) && speaks(
                    after.last(),
                    "user"@,
                    injection("turn_history"@, history@),
                ))
                &&& worker && update.kind == CompactKind::WorkerSingleTurn ==> {
                    &&& event_with(input.edb@, update.prompt_id) matches Some(asked)
                    &&& asked.body matches EventBody::ManagerPrompt(content)
                    &&& after.len() == before.len() + 3
                    &&& speaks(after.last(), "user"@, manager_prompt(content@))
                }
            } else {
                after == before
            }
        }),
{
    let event = input.effective@[place];
    let update = event.body->CompactStateUpdate_0;
    let texts = crate::context::compact_texts(input.compacts@, event.id)->0;
    let flushed = state.flushed();
    lemma_push_grows(flushed.messages, JsonView::Null);
    let one = injection("compact_summary"@, texts.continuation@);
    let summed = flushed.told(one);
    lemma_told(flushed, one);
    assert forall|content: Seq<char>|
        grows(flushed.messages, (#[trigger] summed.told(content)).messages) && speaks(
            summed.told(content).messages.last(),
            "user"@,
            content,
        ) && summed.told(content).messages[flushed.messages.len() as int]
            == summed.messages.last() by {
        lemma_told(summed, content);
        lemma_grows_twice(flushed.messages, summed.messages, summed.told(content).messages);
    }
    assert forall|first: Seq<char>, content: Seq<char>|
        grows(flushed.messages, (#[trigger] summed.told(first).told(content)).messages) && speaks(
            summed.told(first).told(content).messages.last(),
            "user"@,
            content,
        ) && summed.told(first).told(content).messages[flushed.messages.len() as int]
            == summed.messages.last() by {
        lemma_told(summed.told(first), content);
        lemma_grows_twice(
            flushed.messages,
            summed.told(first).messages,
            summed.told(first).told(content).messages,
        );
    }
}

/// Events that are none of the conversation leave it as it is.
pub proof fn law_other_events_are_not_shown(input: MainContextInput, state: ContextState, place: int)
    ensures
        ({
            let body = input.effective@[place].body;
            body is AgentKindDef || body is AgentTurn || body is SystemPrompt || body
                is ApiStateUpdate || body is ContextUsageEstimate || body is UserTurnAborted || body
                is ModelChanged || body is ReasoningEffortChanged || body is AgentTitleChanged
                || body is WorkMapMutation || body is TerminalSessionCreated || body
                is TerminalSessionState ==> context_step(input, state, place) == Ok::<
                ContextState,
                Seq<char>,
            >(state)
        }),
{
}

/// How many tool calls of a request there are among the first events.
pub open spec fn calls_among(events: Seq<Event>, count: int, api_call_id: EventId) -> nat
    decreases count,
{
    if count <= 0 {
        0
    } else {
        calls_among(events, count - 1, api_call_id) + (if events[count - 1].body matches
            EventBody::ToolCall(call) && call.api_call_id == api_call_id {
            1nat
        } else {
            0nat
        })
    }
}

/// The calls of a request are all in its list, one entry each and in their order, and each can be
/// read back from its entry.
pub proof fn law_batches_hold_every_call(
    events: Seq<Event>,
    count: int,
    place: int,
    api_call_id: EventId,
    catalog: &crate::catalog::ToolboxCatalog,
)
    requires
        0 <= place < count <= events.len(),
    ensures
        batch_calls(events, count, api_call_id, catalog).len() == calls_among(
            events,
            count,
            api_call_id,
        ),
        events[place].body matches EventBody::ToolCall(call) && call.api_call_id == api_call_id
            ==> calls_among(events, place, api_call_id) < calls_among(events, count, api_call_id)
            && shows_call(
            batch_calls(events, count, api_call_id, catalog)[calls_among(
                events,
                place,
                api_call_id,
            ) as int],
            events[place].body->ToolCall_0,
            catalog,
        ),
    decreases count,
{
    lemma_batch_len(events, count, api_call_id, catalog);
    lemma_batch_len(events, count - 1, api_call_id, catalog);
    if let EventBody::ToolCall(call) = events[count - 1].body {
        law_calls_can_be_read_back(call, catalog);
    }
    if place < count - 1 {
        law_batches_hold_every_call(events, count - 1, place, api_call_id, catalog);
    }
}

proof fn lemma_batch_len(
    events: Seq<Event>,
    count: int,
    api_call_id: EventId,
    catalog: &crate::catalog::ToolboxCatalog,
)
    ensures
        batch_calls(events, count, api_call_id, catalog).len() == calls_among(
            events,
            count,
            api_call_id,
        ),
    decreases count,
{
    if count > 0 {
        lemma_batch_len(events, count - 1, api_call_id, catalog);
    }
}

/// Whether the messages hold one with the calls of a request.
pub open spec fn holds_batch(
    messages: Seq<JsonView>,
    input: MainContextInput,
    api_call_id: EventId,
) -> bool {
    exists|i: int|
        0 <= i < messages.len() && json_get(#[trigger] messages[i], "role"@) == Some(
            JsonView::Text("assistant"@),
        ) && json_get(messages[i], "tool_calls"@) == Some(
            JsonView::Array(
                batch_calls(
                    input.effective@,
                    input.effective@.len() as int,
                    api_call_id,
                    input.catalog,
                ),
            ),
        )
}

proof fn lemma_batch_stays(
    before: Seq<JsonView>,
    after: Seq<JsonView>,
    input: MainContextInput,
    api_call_id: EventId,
)
    requires
        grows(before, after),
        holds_batch(before, input, api_call_id),
    ensures
        holds_batch(after, input, api_call_id),
{
    let i = choose|i: int|
        0 <= i < before.len() && json_get(#[trigger] before[i], "role"@) == Some(
            JsonView::Text("assistant"@),
        ) && json_get(before[i], "tool_calls"@) == Some(
            JsonView::Array(
                batch_calls(
                    input.effective@,
                    input.effective@.len() as int,
                    api_call_id,
                    input.catalog,
                ),
            ),
        );
    assert(after.take(before.len() as int)[i] == after[i]);
}

proof fn lemma_batches(input: MainContextInput, start: ContextState, count: int)
    requires
        0 <= count <= input.effective@.len(),
        context_state(input, start, count) is Ok,
        start.batches == Set::<EventId>::empty(),
    ensures
        ({
            let state = context_state(input, start, count)->Ok_0;
            &&& grows(start.messages, state.messages)
            &&& said_so_far(state) == said_so_far(start) + said_by(input.effective@, count)
            &&& forall|api_call_id: EventId| #[trigger]
                state.batches.contains(api_call_id) ==> holds_batch(
                    state.messages,
                    input,
                    api_call_id,
                )
            &&& forall|i: int|
                0 <= i < count ==> ((#[trigger] input.effective@[i]).body matches
                    EventBody::ToolCall(call) ==> state.batches.contains(call.api_call_id))
        }),
    decreases count,
{
    if count <= 0 {
        lemma_push_grows(start.messages, JsonView::Null);
        assert(said_so_far(start) + said_by(input.effective@, count) =~= said_so_far(start));
    } else {
        lemma_batches(input, start, count - 1);
        let before = context_state(input, start, count - 1)->Ok_0;
        let after = context_state(input, start, count)->Ok_0;
        law_events_only_add(input, before, count - 1);
        lemma_grows_twice(start.messages, before.messages, after.messages);
        let event = input.effective@[count - 1];
        assert(said_so_far(after) =~= said_so_far(start) + said_by(input.effective@, count));
        if event.body is ToolCallResult {
            lemma_result(input, before, count - 1);
        }
        assert forall|api_call_id: EventId| #[trigger]
            after.batches.contains(api_call_id) implies holds_batch(
            after.messages,
            input,
            api_call_id,
        ) by {
            if before.batches.contains(api_call_id) {
                lemma_batch_stays(before.messages, after.messages, input, api_call_id);
            } else {
                let calls = batch_calls(
                    input.effective@,
                    input.effective@.len() as int,
                    api_call_id,
                    input.catalog,
                );
                law_calling_message_holds_both(before.assistant, calls);
                assert(after.messages.last() == calling_message(before.assistant, calls));
            }
        }
    }
}

/// In what is put before a model every tool call among the events that count can be read back: a
/// message of the model holds an entry with the identity that the provider gave the call, the name
/// that the model knows and exactly the arguments of the log.
pub proof fn law_every_call_is_put_before_the_model(input: MainContextInput, place: int)
    requires
        main_context(input) is Ok,
        0 <= place < input.effective@.len(),
        input.effective@[place].body is ToolCall,
    ensures
        exists|i: int|
            #![trigger main_context(input)->Ok_0.messages[i]]
            0 <= i < main_context(input)->Ok_0.messages.len() && shows_call_at(
                main_context(input)->Ok_0.messages[i],
                calls_among(
                    input.effective@,
                    place,
                    input.effective@[place].body->ToolCall_0.api_call_id,
                ) as int,
                input.effective@[place].body->ToolCall_0,
                input.catalog,
            ),
{
    let call = input.effective@[place].body->ToolCall_0;
    let count = input.effective@.len() as int;
    let prompt = role_words(input);
    let messages = first_messages(input, prompt)->Ok_0;
    let start = context_start(messages);
    let state = context_state(input, start, count)->Ok_0;
    lemma_batches(input, start, count);
    lemma_flushed(state);
    assert(state.batches.contains(call.api_call_id));
    let all = main_context(input)->Ok_0.messages;
    lemma_batch_stays(state.messages, all, input, call.api_call_id);
    law_batches_hold_every_call(
        input.effective@,
        count,
        place,
        call.api_call_id,
        input.catalog,
    );
    let i = choose|i: int|
        0 <= i < all.len() && json_get(#[trigger] all[i], "role"@) == Some(
            JsonView::Text("assistant"@),
        ) && json_get(all[i], "tool_calls"@) == Some(
            JsonView::Array(batch_calls(input.effective@, count, call.api_call_id, input.catalog)),
        );
    assert(shows_call_at(
        all[i],
        calls_among(input.effective@, place, call.api_call_id) as int,
        call,
        input.catalog,
    ));
}

/// Whether a message of the model shows a tool call at a place among its calls.
pub open spec fn shows_call_at(
    message: JsonView,
    place: int,
    call: ToolCall,
    catalog: &crate::catalog::ToolboxCatalog,
) -> bool {
    &&& json_get(message, "role"@) == Some(JsonView::Text("assistant"@))
    &&& json_get(message, "tool_calls"@) matches Some(JsonView::Array(entries))
    &&& 0 <= place < entries.len()
    &&& shows_call(entries[place], call, catalog)
}

/// All that the model said in the events that count is in what is put before it, in its order, and
/// nothing else is said in its name.
pub proof fn law_nothing_said_is_lost(input: MainContextInput)
    requires
        main_context(input) is Ok,
    ensures
        spoken(main_context(input)->Ok_0.messages) == said_by(
            input.effective@,
            input.effective@.len() as int,
        ),
{
    let count = input.effective@.len() as int;
    let prompt = role_words(input);
    let messages = first_messages(input, prompt)->Ok_0;
    let start = context_start(messages);
    lemma_batches(input, start, count);
    let state = context_state(input, start, count)->Ok_0;
    lemma_flushed(state);
    lemma_quiet_start(input, prompt);
    assert(said_so_far(start) =~= Seq::<char>::empty());
    let all = main_context(input)->Ok_0.messages;
    assert(spoken(all) + Seq::<char>::empty() =~= spoken(all));
    assert(said_so_far(start) + said_by(input.effective@, count) =~= said_by(
        input.effective@,
        count,
    ));
    assert(state.flushed().assistant =~= Seq::<char>::empty());
}

proof fn lemma_quiet_start(input: MainContextInput, prompt: Seq<char>)
    requires
        first_messages(input, prompt) is Ok,
    ensures
        spoken(first_messages(input, prompt)->Ok_0).len() == 0,
{
    let messages = first_messages(input, prompt)->Ok_0;
    let exchange = title_exchange(input)->Ok_0;
    let none = Seq::<JsonView>::empty();
    let system = role_message("system"@, prompt);
    lemma_roles_differ();
    law_message_says_its_content("system"@, prompt, "role"@);
    lemma_quiet_push(none, system);
    assert(none.push(system) =~= seq![system]);
    if exchange.len() == 0 {
        assert(messages =~= seq![system]);
    } else {
        let one = exchange[0];
        let two = exchange[1];
        assert forall|calls: Seq<JsonView>|
            spoken_in(#[trigger] calling_message(Seq::empty(), calls)).len() == 0 by {
            law_calling_message_holds_both(Seq::empty(), calls);
        }
        assert forall|id: Seq<char>, value: JsonView|
            spoken_in(#[trigger] tool_message(id, value)).len() == 0 by {
            law_answers_can_be_read_back(id, value);
        }
        lemma_quiet_push(seq![system], one);
        lemma_quiet_push(seq![system].push(one), two);
        assert(messages =~= seq![system].push(one).push(two));
    }
}

/// What is put before a model of the first events stands first in what is put before it of all of
/// them.
pub proof fn law_conversation_only_grows(
    input: MainContextInput,
    start: ContextState,
    early: int,
    late: int,
)
    requires
        0 <= early <= late,
        context_state(input, start, late) is Ok,
    ensures
        context_state(input, start, early) is Ok,
        grows(
            context_state(input, start, early)->Ok_0.messages,
            context_state(input, start, late)->Ok_0.messages,
        ),
    decreases late - early,
{
    if early < late {
        law_conversation_only_grows(input, start, early, late - 1);
        let before = context_state(input, start, late - 1)->Ok_0;
        law_events_only_add(input, before, late - 1);
        lemma_grows_twice(
            context_state(input, start, early)->Ok_0.messages,
            before.messages,
            context_state(input, start, late)->Ok_0.messages,
        );
    } else {
        lemma_push_grows(context_state(input, start, early)->Ok_0.messages, JsonView::Null);
    }
}

/// The answer of every tool among the events that count is in what is put before the model, under
/// the identity that the provider gave the call.
pub proof fn law_every_answer_is_put_before_the_model(input: MainContextInput, place: int)
    requires
        main_context(input) is Ok,
        0 <= place < input.effective@.len(),
        input.effective@[place].body is ToolCallResult,
    ensures
        ({
            let result = input.effective@[place].body->ToolCallResult_0;
            let start = context_start(first_messages(input, role_words(input))->Ok_0);
            let before = context_state(input, start, place);
            &&& before is Ok
            &&& tool_call_with(input.edb@, result.tool_call_id) matches Some(call)
            &&& exists|i: int|
                #![trigger main_context(input)->Ok_0.messages[i]]
                0 <= i < main_context(input)->Ok_0.messages.len() && is_answer(
                    main_context(input)->Ok_0.messages[i],
                    call.provider_call_id@,
                    shown_answer(input, before->Ok_0, place),
                )
        }),
{
    let count = input.effective@.len() as int;
    let start = context_start(first_messages(input, role_words(input))->Ok_0);
    law_conversation_only_grows(input, start, place, count);
    law_conversation_only_grows(input, start, place + 1, count);
    let before = context_state(input, start, place)->Ok_0;
    law_answers_are_put_before_the_model(input, before, place);
    let after = context_state(input, start, place + 1)->Ok_0;
    let state = context_state(input, start, count)->Ok_0;
    lemma_flushed(state);
    let all = main_context(input)->Ok_0.messages;
    lemma_grows_twice(after.messages, state.messages, all);
    let i = before.messages.len() as int;
    assert(all.take(after.messages.len() as int)[i] == all[i]);
}

/// The word of the system in a context.
pub open spec fn role_words(input: MainContextInput) -> Seq<char> {
    crate::model::paragraphs(crate::system_word::system_words(input)->Ok_0)
}

/// The image of every call of a request that succeeded is shown to the model, once all of its calls
/// have ended; an image of a call that did not succeed is not.
pub proof fn law_images_are_put_before_the_model(
    state: ContextState,
    effective: Seq<Event>,
    count: int,
    api_call_id: EventId,
    which: int,
    image_place: usize,
)
    requires
        0 <= which < count <= effective.len(),
        with_images(state, effective, count, api_call_id) is Ok,
        effective[which].body matches EventBody::ToolCall(call) && call.api_call_id == api_call_id,
        succeeded(effective, effective[which].id),
        state.images.dom().contains(effective[which].id),
        state.images[effective[which].id] == image_place,
        effective[image_place as int].body is ImageContent,
        forall|j: int| 0 <= j < which ==> (#[trigger] effective[j]).id != effective[which].id,
    ensures
        exists|i: int|
            #![trigger with_images(state, effective, count, api_call_id)->Ok_0.messages[i]]
            state.messages.len() <= i < with_images(
                state,
                effective,
                count,
                api_call_id,
            )->Ok_0.messages.len() && image_message(
                effective[image_place as int].id,
                effective[image_place as int].body->ImageContent_0,
            ) == Ok::<JsonView, Seq<char>>(
                with_images(state, effective, count, api_call_id)->Ok_0.messages[i],
            ),
    decreases count,
{
    let before = with_images(state, effective, count - 1, api_call_id)->Ok_0;
    let after = with_images(state, effective, count, api_call_id)->Ok_0;
    lemma_with_images(state, effective, count - 1, api_call_id);
    lemma_images_left(state, effective, count - 1, api_call_id);
    if which < count - 1 {
        law_images_are_put_before_the_model(
            state,
            effective,
            count - 1,
            api_call_id,
            which,
            image_place,
        );
        let i = choose|i: int|
            #![trigger before.messages[i]]
            state.messages.len() <= i < before.messages.len() && image_message(
                effective[image_place as int].id,
                effective[image_place as int].body->ImageContent_0,
            ) == Ok::<JsonView, Seq<char>>(before.messages[i]);
        assert(after.messages[i] == before.messages[i]);
    } else {
        assert(before.images.dom().contains(effective[which].id));
        assert(after.messages.last() == after.messages[before.messages.len() as int]);
    }
}

proof fn lemma_images_left(
    state: ContextState,
    effective: Seq<Event>,
    count: int,
    api_call_id: EventId,
)
    requires
        0 <= count <= effective.len(),
        with_images(state, effective, count, api_call_id) is Ok,
    ensures
        forall|id: EventId| #[trigger]
            state.images.dom().contains(id) && (forall|j: int|
                0 <= j < count ==> (#[trigger] effective[j]).id != id) ==> with_images(
                state,
                effective,
                count,
                api_call_id,
            )->Ok_0.images.dom().contains(id) && with_images(
                state,
                effective,
                count,
                api_call_id,
            )->Ok_0.images[id] == state.images[id],
    decreases count,
{
    if count > 0 {
        lemma_images_left(state, effective, count - 1, api_call_id);
        let after = with_images(state, effective, count, api_call_id)->Ok_0;
        let before = with_images(state, effective, count - 1, api_call_id)->Ok_0;
        assert forall|id: EventId| #[trigger]
            state.images.dom().contains(id) && (forall|j: int|
                0 <= j < count ==> (#[trigger] effective[j]).id != id) implies after.images.dom().contains(
            id,
        ) && after.images[id] == state.images[id] by {
            assert(effective[count - 1].id != id);
            assert(before.images.dom().contains(id));
        }
    }
}

/// No image is shown of calls that did not succeed.
pub proof fn law_images_of_failures_are_not_shown(
    state: ContextState,
    effective: Seq<Event>,
    count: int,
    api_call_id: EventId,
)
    requires
        0 <= count <= effective.len(),
        with_images(state, effective, count, api_call_id) is Ok,
        forall|i: int, j: int|
            #![trigger effective[i], effective[j]]
            0 <= i < count && 0 <= j < effective.len() && effective[i].body is ToolCall ==> !(
            effective[j].body matches EventBody::ToolCallResult(result) && result.tool_call_id
                == effective[i].id && result.state == ToolResultState::Succeeded),
    ensures
        with_images(state, effective, count, api_call_id) == Ok::<ContextState, Seq<char>>(state),
    decreases count,
{
    if count > 0 {
        law_images_of_failures_are_not_shown(state, effective, count - 1, api_call_id);
        if effective[count - 1].body is ToolCall {
            assert(!succeeded(effective, effective[count - 1].id));
        }
    }
}

/// A chat bot's conversation is what was asked and what was answered, each as it is: prompts in the
/// role of the user, answers in that of the model, and what a provider wants back.
pub proof fn law_chats_are_put_before_the_model(state: ContextState, event: Event)
    requires
        chat_step(state, event) is Ok,
    ensures
        ({
            let before = state.flushed().messages;
            let next = chat_step(state, event)->Ok_0;
            let after = next.messages;
            &&& grows(state.messages, after)
            &&& match event.body {
                EventBody::UserPrompt(content) => grows(before, after) && after.len()
                    == before.len() + 1 && speaks(after.last(), "user"@, content@),
                EventBody::ManagerPrompt(content) => grows(before, after) && after.len()
                    == before.len() + 1 && speaks(after.last(), "user"@, content@),
                EventBody::ParentAgentPrompt(content) => grows(before, after) && after.len()
                    == before.len() + 1 && speaks(after.last(), "user"@, content@),
                EventBody::ModelContextItem(item) => {
                    &&& grows(before, after)
                    &&& after.len() == before.len() + 1
                    &&& json_get(after.last(), "_me_provider"@) == Some(
                        JsonView::Text(item.provider@),
                    )
                    &&& json_get(after.last(), "item"@) == json_read(item.content@)
                    &&& json_read(item.content@) is Some
                },
                _ => after == state.messages,
            }
            &&& said_so_far(next) == said_so_far(state) + (match event.body {
                EventBody::AssistResponse(response) => response.content@,
                _ => Seq::empty(),
            })
        }),
{
    let flushed = state.flushed();
    lemma_flushed(state);
    lemma_push_grows(state.messages, JsonView::Null);
    assert(said_so_far(state) + Seq::<char>::empty() =~= said_so_far(state));
    assert forall|content: Seq<char>|
        grows(flushed.messages, (#[trigger] flushed.told(content)).messages)
            && flushed.told(content).messages.len() == flushed.messages.len() + 1 && speaks(
            flushed.told(content).messages.last(),
            "user"@,
            content,
        ) && grows(state.messages, flushed.told(content).messages) && said_so_far(
            flushed.told(content),
        ) == said_so_far(state) by {
        lemma_told(flushed, content);
        lemma_asked(state, content);
    }
    match event.body {
        EventBody::ModelContextItem(item) => {
            let value = json_read(item.content@)->0;
            let message = provider_message(item.provider@, value);
            law_items_can_be_read_back(item.provider@, value);
            lemma_item(flushed, item.provider@, value);
            lemma_push_grows(flushed.messages, message);
            lemma_grows_twice(state.messages, flushed.messages, flushed.messages.push(message));
        },
        EventBody::AssistResponse(response) => {
            assert(spoken(state.messages) + (state.assistant + response.content@) =~= spoken(
                state.messages,
            ) + state.assistant + response.content@);
        },
        _ => {},
    }
}

/// All that a chat bot's model said is in what is put before it, in its order.
pub proof fn law_nothing_said_in_a_chat_is_lost(effective: Seq<Event>, count: int)
    requires
        0 <= count <= effective.len(),
        chat_state(effective, count) is Ok,
    ensures
        spoken(chat_state(effective, count)->Ok_0.flushed().messages) == said_by(effective, count),
        said_so_far(chat_state(effective, count)->Ok_0) == said_by(effective, count),
    decreases count,
{
    let state = chat_state(effective, count)->Ok_0;
    if count > 0 {
        law_nothing_said_in_a_chat_is_lost(effective, count - 1);
        law_chats_are_put_before_the_model(
            chat_state(effective, count - 1)->Ok_0,
            effective[count - 1],
        );
        assert(said_so_far(state) =~= said_by(effective, count));
    } else {
        assert(said_so_far(state) =~= Seq::<char>::empty());
    }
    lemma_flushed(state);
    assert(said_so_far(state.flushed()) =~= spoken(state.flushed().messages));
}

/// The call that set the title stays in what is put before a model, with its answer, where it is no
/// longer among the events that count.
pub proof fn law_title_stays_before_the_model(input: MainContextInput)
    requires
        title_exchange(input) is Ok,
        title_exchange(input)->Ok_0.len() > 0,
    ensures
        ({
            let exchange = title_exchange(input)->Ok_0;
            &&& exchange.len() == 2
            &&& crate::context::last_title(input.edb@) matches Some(event)
            &&& event.body matches EventBody::AgentTitleChanged(change)
            &&& change.tool_call_id matches Some(id)
            &&& tool_call_with(input.edb@, id) matches Some(call)
            &&& shows_call_at(exchange[0], 0, call, input.catalog)
            &&& json_get(exchange[1], "role"@) == Some(JsonView::Text("tool"@))
            &&& json_get(exchange[1], "tool_call_id"@) == Some(
                JsonView::Text(call.provider_call_id@),
            )
        }),
{
    let event = crate::context::last_title(input.edb@)->0;
    let change = event.body->AgentTitleChanged_0;
    let id = change.tool_call_id->0;
    let call = tool_call_with(input.edb@, id)->0;
    let result = crate::context::first_result(input.edb@, id)->0;
    let entry = crate::context::call_view(call, input.catalog);
    law_calling_message_holds_both(Seq::empty(), seq![entry]);
    law_calls_can_be_read_back(call, input.catalog);
    law_answers_can_be_read_back(
        call.provider_call_id@,
        crate::context::title_result(input, result),
    );
}

} // verus!
