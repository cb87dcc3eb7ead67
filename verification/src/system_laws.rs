//! What can be relied on of the word of the system: it holds every prompt that a log names, and goes
//! with the tools that the agent may use.
use vstd::prelude::*;

use crate::agent_laws::{lemma_mentioned, lemma_mentioned_before, mentions, mentions_at};
use crate::context::{
    kind_in, main_context, offered_catalog, profile_in, profile_or_standard,
    prompt_parts, system_prompts, title_result, MainContextInput,
};
use crate::event::{AgentKind, Event, EventBody, ToolCallResult};
use crate::json::{array_view, json_get, JsonView};
use crate::model::paragraphs;
use crate::profile::MainAgentProfile;
use crate::prompts::{system_prompt, PartsView};
use crate::stage_laws::law_message_says_its_content;
use crate::system_word::{law_only_the_first_message_is_the_systems, system_words};

verus! {

/// What an agent is, as the prompts of its log say: a manager or a worker by the first prompt that
/// names either, and nothing of the kind without one.
pub proof fn law_prompts_say_what_an_agent_is(events: Seq<Event>, event: Event)
    ensures
        profile_in(Seq::empty()) is None,
        event.body matches EventBody::SystemPrompt(name) ==> {
            &&& name@ == "manager"@ ==> profile_in(seq![event] + events) == Some(
                MainAgentProfile::Manager,
            )
            &&& name@ == "worker"@ ==> profile_in(seq![event] + events) == Some(
                MainAgentProfile::Worker,
            )
            &&& name@ != "manager"@ && name@ != "worker"@ ==> profile_in(seq![event] + events)
                == profile_in(events)
        },
        !(event.body is SystemPrompt) ==> profile_in(seq![event] + events) == profile_in(events),
{
    reveal_strlit("manager");
    reveal_strlit("worker");
    assert("manager"@.len() == 7 && "worker"@.len() == 6);
    assert((seq![event] + events).skip(1) =~= events);
}

/// Every prompt that a log names is written, in the order of the log.
proof fn lemma_prompts_written(
    events: Seq<Event>,
    count: int,
    place: int,
    parts: PartsView,
    kind: AgentKind,
    profile: MainAgentProfile,
) -> (which: int)
    requires
        0 <= place < count <= events.len(),
        events[place].body is SystemPrompt,
        system_prompts(events, count, parts, kind, profile) is Ok,
    ensures
        events[place].body matches EventBody::SystemPrompt(name) && (system_prompt(
            name@,
            parts,
            kind,
            profile,
        ) matches Ok(text) && 0 <= which < system_prompts(
            events,
            count,
            parts,
            kind,
            profile,
        )->Ok_0.len() && system_prompts(events, count, parts, kind, profile)->Ok_0[which] == text),
    decreases count,
{
    let before = system_prompts(events, count - 1, parts, kind, profile)->Ok_0;
    if place == count - 1 {
        before.len() as int
    } else {
        let which = lemma_prompts_written(events, count - 1, place, parts, kind, profile);
        assert(system_prompts(events, count, parts, kind, profile)->Ok_0[which] == before[which]);
        which
    }
}

/// A row of texts has each of them in it.
proof fn lemma_in_paragraphs(texts: Seq<Seq<char>>, place: int)
    requires
        0 <= place < texts.len(),
    ensures
        mentions(paragraphs(texts), texts[place]),
    decreases texts.len(),
{
    if texts.len() == 1 {
        assert(texts[0].subrange(0, texts[0].len() as int) =~= texts[0]);
        assert(mentions_at(paragraphs(texts), texts[0], 0));
    } else {
        let before = paragraphs(texts.drop_last());
        if place == texts.len() - 1 {
            lemma_mentioned(before + "\n\n"@, texts[place]);
        } else {
            lemma_in_paragraphs(texts.drop_last(), place);
            lemma_mentioned_before(before, texts[place], "\n\n"@);
            lemma_mentioned_before(before + "\n\n"@, texts[place], texts.last());
        }
    }
}

/// Every prompt that the log of an agent names is in the first message that is put before the model,
/// which speaks for the system.
pub proof fn law_every_prompt_is_put_before_the_model(input: MainContextInput, place: int)
    requires
        main_context(input) is Ok,
        0 <= place < input.edb@.len(),
        input.edb@[place].body is SystemPrompt,
    ensures
        kind_in(input.edb@) matches Some(definition) && ({
            let catalog = offered_catalog(input, definition.kind);
            let parts = prompt_parts(input, catalog.prompt@);
            let profile = profile_or_standard(profile_in(input.edb@));
            let message = main_context(input)->Ok_0.messages[0];
            &&& input.edb@[place].body matches EventBody::SystemPrompt(name)
            &&& system_prompt(name@, parts, definition.kind, profile) matches Ok(text)
            &&& json_get(message, "role"@) == Some(JsonView::Text("system"@))
            &&& json_get(message, "content"@) matches Some(JsonView::Text(word))
            &&& mentions(word, text)
        }),
{
    law_only_the_first_message_is_the_systems(input);
    let kind = kind_in(input.edb@)->0.kind;
    let parts = prompt_parts(input, offered_catalog(input, kind).prompt@);
    let profile = profile_or_standard(profile_in(input.edb@));
    let count = input.edb@.len() as int;
    let words = system_words(input)->Ok_0;
    assert(words == system_prompts(input.edb@, count, parts, kind, profile)->Ok_0);
    let which = lemma_prompts_written(input.edb@, count, place, parts, kind, profile);
    lemma_in_paragraphs(words, which);
    law_message_says_its_content("system"@, paragraphs(words), "role"@);
}

/// The prompts of an agent are made of its own surroundings, and of its own tools: a sub-agent that is
/// no worker has the tools that it may use, and others have all. The model is offered the same tools
/// as the prompt describes.
pub proof fn law_agents_are_offered_what_they_may_use(input: MainContextInput)
    requires
        main_context(input) is Ok,
    ensures
        kind_in(input.edb@) matches Some(definition) && ({
            let catalog = offered_catalog(input, definition.kind);
            let limited = definition.kind == AgentKind::SubAgent && profile_in(input.edb@) != Some(
                MainAgentProfile::Worker,
            );
            &&& limited ==> catalog == *input.restricted
            &&& !limited ==> catalog == *input.catalog
            &&& main_context(input)->Ok_0.tools == array_view(catalog.definitions@)
            &&& prompt_parts(input, catalog.prompt@).toolbox_prompt == catalog.prompt@
            &&& prompt_parts(input, catalog.prompt@).environment_prompt == input.environment_prompt@
            &&& prompt_parts(input, catalog.prompt@).title_prompt == input.title_prompt@
            &&& input.parent_system_prompt matches Some(prompt) ==> prompt_parts(
                input,
                catalog.prompt@,
            ).parent_system_prompt == Some(prompt@)
        }),
{
}

/// The result of setting a title is shown in the form that there is, or else says that the call
/// succeeded so.
pub proof fn law_title_results_say_what_was_set(input: MainContextInput, result: ToolCallResult)
    ensures
        input.title_form matches Some(form) ==> title_result(input, result) == form@,
        input.title_form is None ==> ({
            let shown = json_get(title_result(input, result), "result"@);
            &&& shown matches Some(end)
            &&& json_get(end, "detail"@) == Some(JsonView::Text(input.title_success@))
            &&& json_get(end, "state"@) == Some(JsonView::Text(result.state.name()))
        }),
{
    reveal_strlit("detail");
    reveal_strlit("state");
    reveal_strlit("exit_code");
    reveal_strlit("result");
    assert("detail"@.len() == 6 && "state"@.len() == 5 && "exit_code"@.len() == 9);
}

} // verus!
