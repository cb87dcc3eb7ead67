//! The word of the system: it comes first in what is put before a model, nothing else speaks in
//! its role, and nothing that happens in a conversation changes it.
use vstd::prelude::*;

use crate::context::{
    calling_message, context_start, context_state, context_step, first_messages, image_message,
    kind_in, main_context, offered_catalog, profile_in, profile_or_standard, prompt_parts,
    provider_message, system_prompts, title_exchange, tool_message, with_images, ContextState,
    MainContextInput,
};
use crate::event::{AgentKind, Event, EventBody, EventId};
use crate::json::{json_get, JsonView};
use crate::model::{paragraphs, role_message};
use crate::profile::MainAgentProfile;
use crate::prompts::{
    system_prompt, PartsView, MANAGER_SYSTEM_PROMPT_NAME, WORKER_SYSTEM_PROMPT_NAME,
};

verus! {

/// Whether a message speaks in the role of the system.
pub open spec fn is_system(message: JsonView) -> bool {
    json_get(message, "role"@) == Some(JsonView::Text("system"@))
}

/// Whether the messages begin with one, and none behind it speaks in the role of the system.
pub open spec fn begins_with(messages: Seq<JsonView>, first: JsonView) -> bool {
    &&& messages.len() > 0
    &&& messages[0] == first
    &&& forall|i: int| 0 < i < messages.len() ==> !is_system(#[trigger] messages[i])
}

/// The names of the system's prompts in a log, in their order.
pub open spec fn prompts_named(events: Seq<Event>) -> Seq<Seq<char>>
    decreases events.len(),
{
    if events.len() == 0 {
        Seq::empty()
    } else {
        let before = prompts_named(events.drop_last());
        match events.last().body {
            EventBody::SystemPrompt(name) => before.push(name@),
            _ => before,
        }
    }
}

proof fn lemma_keys_differ()
    ensures
        "role"@ != "content"@,
        "role"@ != "tool_calls"@,
        "role"@ != "tool_call_id"@,
        "role"@ != "_me_provider"@,
        "role"@ != "item"@,
        "system"@ != "user"@,
        "system"@ != "assistant"@,
        "system"@ != "tool"@,
{
    reveal_strlit("role");
    reveal_strlit("content");
    reveal_strlit("tool_calls");
    reveal_strlit("tool_call_id");
    reveal_strlit("_me_provider");
    reveal_strlit("item");
    reveal_strlit("system");
    reveal_strlit("user");
    reveal_strlit("assistant");
    reveal_strlit("tool");
    assert("role"@.len() == 4);
    assert("content"@.len() == 7);
    assert("tool_calls"@.len() == 10);
    assert("tool_call_id"@.len() == 12);
    assert("_me_provider"@.len() == 12);
    assert("role"@[0] == 'r');
    assert("item"@[0] == 'i');
    assert("system"@.len() == 6);
    assert("user"@.len() == 4);
    assert("assistant"@.len() == 9);
    assert("tool"@.len() == 4);
}

proof fn lemma_role_message(role: Seq<char>, content: Seq<char>)
    ensures
        is_system(role_message(role, content)) <==> role == "system"@,
{
    lemma_keys_differ();
    assert(json_get(role_message(role, content), "role"@) == Some(JsonView::Text(role)));
}

proof fn lemma_calling_message(said: Seq<char>, calls: Seq<JsonView>)
    ensures
        !is_system(calling_message(said, calls)),
{
    lemma_keys_differ();
    assert(json_get(calling_message(said, calls), "role"@) == Some(
        JsonView::Text("assistant"@),
    ));
}

proof fn lemma_tool_message(provider_call_id: Seq<char>, value: JsonView)
    ensures
        !is_system(tool_message(provider_call_id, value)),
{
    lemma_keys_differ();
    assert(json_get(tool_message(provider_call_id, value), "role"@) == Some(
        JsonView::Text("tool"@),
    ));
}

proof fn lemma_provider_message(provider: Seq<char>, item: JsonView)
    ensures
        !is_system(provider_message(provider, item)),
{
    lemma_keys_differ();
    assert(json_get(provider_message(provider, item), "role"@) is None);
}

proof fn lemma_flushed(state: ContextState, first: JsonView)
    requires
        begins_with(state.messages, first),
    ensures
        begins_with(state.flushed().messages, first),
{
    lemma_keys_differ();
    lemma_role_message("assistant"@, state.assistant);
}

proof fn lemma_told(state: ContextState, first: JsonView, content: Seq<char>)
    requires
        begins_with(state.messages, first),
    ensures
        begins_with(state.told(content).messages, first),
{
    lemma_keys_differ();
    lemma_role_message("user"@, content);
}

proof fn lemma_with_images(
    state: ContextState,
    first: JsonView,
    effective: Seq<Event>,
    count: int,
    api_call_id: EventId,
)
    requires
        begins_with(state.messages, first),
        with_images(state, effective, count, api_call_id) is Ok,
    ensures
        begins_with(with_images(state, effective, count, api_call_id)->Ok_0.messages, first),
    decreases count,
{
    if count > 0 {
        lemma_with_images(state, first, effective, count - 1, api_call_id);
        let before = with_images(state, effective, count - 1, api_call_id)->Ok_0;
        let event = effective[count - 1];
        let place = before.images[event.id];
        if let EventBody::ImageContent(image) = effective[place as int].body {
            lemma_keys_differ();
            if let Ok(message) = image_message(effective[place as int].id, image) {
                assert(json_get(message, "role"@) == Some(JsonView::Text("user"@)));
            }
        }
    }
}

proof fn lemma_step(input: MainContextInput, state: ContextState, first: JsonView, place: int)
    requires
        begins_with(state.messages, first),
        context_step(input, state, place) is Ok,
    ensures
        begins_with(context_step(input, state, place)->Ok_0.messages, first),
{
    lemma_flushed(state, first);
    assert forall|other: ContextState, content: Seq<char>|
        begins_with(other.messages, first) implies begins_with(
        (#[trigger] other.told(content)).messages,
        first,
    ) by {
        lemma_told(other, first, content);
    }
    assert forall|said: Seq<char>, calls: Seq<JsonView>| !is_system(
        #[trigger] calling_message(said, calls),
    ) by {
        lemma_calling_message(said, calls);
    }
    assert forall|provider: Seq<char>, item: JsonView| !is_system(
        #[trigger] provider_message(provider, item),
    ) by {
        lemma_provider_message(provider, item);
    }
    if let EventBody::ToolCallResult(result) = input.effective@[place].body {
        lemma_after_tool_result(input, state, first, place);
    }
}

proof fn lemma_after_tool_result(
    input: MainContextInput,
    state: ContextState,
    first: JsonView,
    place: int,
)
    requires
        begins_with(state.messages, first),
        input.effective@[place].body is ToolCallResult,
        context_step(input, state, place) is Ok,
    ensures
        begins_with(context_step(input, state, place)->Ok_0.messages, first),
{
    assert forall|provider_call_id: Seq<char>, value: JsonView| !is_system(
        #[trigger] tool_message(provider_call_id, value),
    ) by {
        lemma_tool_message(provider_call_id, value);
    }
    let effective = input.effective@;
    assert forall|answered: ContextState, api_call_id: EventId|
        begins_with(answered.messages, first) && (#[trigger] with_images(
            answered,
            effective,
            effective.len() as int,
            api_call_id,
        )) is Ok implies begins_with(
        with_images(answered, effective, effective.len() as int, api_call_id)->Ok_0.messages,
        first,
    ) by {
        lemma_with_images(answered, first, effective, effective.len() as int, api_call_id);
    }
}

proof fn lemma_state(input: MainContextInput, start: ContextState, first: JsonView, count: int)
    requires
        begins_with(start.messages, first),
        context_state(input, start, count) is Ok,
    ensures
        begins_with(context_state(input, start, count)->Ok_0.messages, first),
    decreases count,
{
    if count > 0 {
        lemma_state(input, start, first, count - 1);
        lemma_step(input, context_state(input, start, count - 1)->Ok_0, first, count - 1);
    }
}

/// The prompts of the system that a log asks for, in their order, or why they cannot be given.
pub open spec fn system_words(input: MainContextInput) -> Result<Seq<Seq<char>>, Seq<char>> {
    let definition = kind_in(input.edb@)->0;
    system_prompts(
        input.edb@,
        input.edb@.len() as int,
        prompt_parts(input, offered_catalog(input, definition.kind).prompt@),
        definition.kind,
        profile_or_standard(profile_in(input.edb@)),
    )
}

/// What is put before a model begins with the word of the system, which is the prompts that the log
/// names, and no other message speaks in that role.
pub proof fn law_only_the_first_message_is_the_systems(input: MainContextInput)
    requires
        main_context(input) is Ok,
    ensures
        system_words(input) is Ok,
        begins_with(
            main_context(input)->Ok_0.messages,
            role_message("system"@, paragraphs(system_words(input)->Ok_0)),
        ),
        is_system(main_context(input)->Ok_0.messages[0]),
{
    let prompt = paragraphs(system_words(input)->Ok_0);
    let first = role_message("system"@, prompt);
    lemma_role_message("system"@, prompt);
    let messages = first_messages(input, prompt)->Ok_0;
    let exchange = title_exchange(input)->Ok_0;
    assert forall|i: int| 0 < i < messages.len() implies !is_system(#[trigger] messages[i]) by {
        assert(messages[i] == exchange[i - 1]);
        assert forall|said: Seq<char>, calls: Seq<JsonView>| !is_system(
            #[trigger] calling_message(said, calls),
        ) by {
            lemma_calling_message(said, calls);
        }
        assert forall|provider_call_id: Seq<char>, value: JsonView| !is_system(
            #[trigger] tool_message(provider_call_id, value),
        ) by {
            lemma_tool_message(provider_call_id, value);
        }
    }
    let start = context_start(messages);
    let count = input.effective@.len() as int;
    lemma_state(input, start, first, count);
    lemma_flushed(context_state(input, start, count)->Ok_0, first);
}

/// The part that an agent plays, by the names of its prompts.
spec fn profile_by(names: Seq<Seq<char>>) -> Option<MainAgentProfile>
    decreases names.len(),
{
    if names.len() == 0 {
        None
    } else if names[0] == MANAGER_SYSTEM_PROMPT_NAME@ {
        Some(MainAgentProfile::Manager)
    } else if names[0] == WORKER_SYSTEM_PROMPT_NAME@ {
        Some(MainAgentProfile::Worker)
    } else {
        profile_by(names.skip(1))
    }
}

/// The prompts of the system, by their names.
spec fn prompts_by(
    names: Seq<Seq<char>>,
    parts: PartsView,
    agent_kind: AgentKind,
    profile: MainAgentProfile,
) -> Result<Seq<Seq<char>>, Seq<char>>
    decreases names.len(),
{
    if names.len() == 0 {
        Ok(Seq::empty())
    } else {
        match prompts_by(names.drop_last(), parts, agent_kind, profile) {
            Err(error) => Err(error),
            Ok(before) => match system_prompt(names.last(), parts, agent_kind, profile) {
                Err(error) => Err(error),
                Ok(prompt) => Ok(before.push(prompt)),
            },
        }
    }
}

proof fn lemma_first_name(events: Seq<Event>)
    requires
        events.len() > 0,
    ensures
        prompts_named(events) == (match events[0].body {
            EventBody::SystemPrompt(name) => seq![name@],
            _ => Seq::empty(),
        }) + prompts_named(events.skip(1)),
    decreases events.len(),
{
    let head = match events[0].body {
        EventBody::SystemPrompt(name) => seq![name@],
        _ => Seq::empty(),
    };
    if events.len() == 1 {
        assert(events.skip(1) =~= Seq::<Event>::empty());
        assert(events.drop_last() =~= Seq::<Event>::empty());
        assert(prompts_named(events.drop_last()) =~= Seq::<Seq<char>>::empty());
        assert(prompts_named(events.skip(1)) =~= Seq::<Seq<char>>::empty());
        assert(prompts_named(events) =~= head + prompts_named(events.skip(1)));
    } else {
        lemma_first_name(events.drop_last());
        assert(events.drop_last().skip(1) =~= events.skip(1).drop_last());
        assert(prompts_named(events) =~= head + prompts_named(events.skip(1)));
    }
}

proof fn lemma_profile_by(events: Seq<Event>)
    ensures
        profile_in(events) == profile_by(prompts_named(events)),
    decreases events.len(),
{
    if events.len() > 0 {
        lemma_first_name(events);
        lemma_profile_by(events.skip(1));
        let rest = prompts_named(events.skip(1));
        match events[0].body {
            EventBody::SystemPrompt(name) => {
                assert(prompts_named(events).skip(1) =~= rest);
            },
            _ => {
                assert(prompts_named(events) =~= rest);
            },
        }
    }
}

proof fn lemma_prompts_by(
    events: Seq<Event>,
    count: int,
    parts: PartsView,
    agent_kind: AgentKind,
    profile: MainAgentProfile,
)
    requires
        0 <= count <= events.len(),
    ensures
        system_prompts(events, count, parts, agent_kind, profile) == prompts_by(
            prompts_named(events.take(count)),
            parts,
            agent_kind,
            profile,
        ),
    decreases count,
{
    if count > 0 {
        lemma_prompts_by(events, count - 1, parts, agent_kind, profile);
        assert(events.take(count).drop_last() =~= events.take(count - 1));
        let before = prompts_named(events.take(count - 1));
        if let EventBody::SystemPrompt(name) = events[count - 1].body {
            assert(before.push(name@).drop_last() =~= before);
        }
    }
}

/// The word of the system stays the same whatever is asked, answered, cleared, taken back or
/// compacted: two logs of agents of one kind that name the same prompts put the same first message
/// before a model, where what the program tells of itself is the same.
pub proof fn law_word_of_the_system_stays(one: MainContextInput, other: MainContextInput)
    requires
        main_context(one) is Ok,
        main_context(other) is Ok,
        kind_in(one.edb@)->0.kind == kind_in(other.edb@)->0.kind,
        prompts_named(one.edb@) == prompts_named(other.edb@),
        one.catalog == other.catalog,
        one.restricted == other.restricted,
        one.parent_system_prompt == other.parent_system_prompt,
        one.environment_prompt@ == other.environment_prompt@,
        one.title_prompt@ == other.title_prompt@,
    ensures
        main_context(one)->Ok_0.messages[0] == main_context(other)->Ok_0.messages[0],
{
    law_only_the_first_message_is_the_systems(one);
    law_only_the_first_message_is_the_systems(other);
    lemma_profile_by(one.edb@);
    lemma_profile_by(other.edb@);
    let kind = kind_in(one.edb@)->0.kind;
    let parts = prompt_parts(one, offered_catalog(one, kind).prompt@);
    let profile = profile_or_standard(profile_in(one.edb@));
    lemma_prompts_by(one.edb@, one.edb@.len() as int, parts, kind, profile);
    lemma_prompts_by(other.edb@, other.edb@.len() as int, parts, kind, profile);
    assert(one.edb@.take(one.edb@.len() as int) =~= one.edb@);
    assert(other.edb@.take(other.edb@.len() as int) =~= other.edb@);
}

} // verus!
