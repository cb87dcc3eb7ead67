//! The conversation as it is put before a model.
use vstd::prelude::*;

use base64::engine::general_purpose::STANDARD;
use base64::Engine;
use std::collections::{HashMap, HashSet};
use vstd::std_specs::hash::*;

use crate::catalog::ToolboxCatalog;
use crate::event::{
    event_with, find_event, AgentKind, AgentKindDef, CompactKind, CompactState, CompactStateUpdate,
    Computed, Event, EventBody, EventDataBase, EventId, ImageContent, ModelContextItem, ToolCall,
    ToolCallResult, ToolInfoContent, ToolInfoUpdate, ToolResultState,
};
use crate::file_scope::{after_result, scopes_ok, FileEditScopeProjection, ScopeView};
use crate::json::{
    array_view, json_failure, json_read, json_written, lemma_array_items, lemma_array_push,
    parse_json, write_json, Json, JsonView,
};
use crate::model::{paragraphs, role_message, ModelContext};
use crate::profile::MainAgentProfile;
use crate::prompts::{
    resolve_main_system_prompt, slice_in, system_prompt, PartsView, PromptParts,
    MANAGER_SYSTEM_PROMPT_NAME, WORKER_SYSTEM_PROMPT_NAME, WORKMAP_PENDING_REMINDER_PROMPT,
};
use crate::text::{decimal, escaped, join3, push_decimal, same, say1, say2, xml_escape};
use crate::tool_calls::{find_tool_call, tool_call_with};

verus! {

broadcast use vstd::std_specs::hash::group_hash_axioms;

/// A text in an envelope of a kind.
pub open spec fn envelope(opening: Seq<char>, content: Seq<char>, closing: Seq<char>) -> Seq<char> {
    opening + escaped(content) + closing
}

fn enveloped(opening: &str, content: &str, closing: &str) -> (text: String)
    ensures
        text@ == envelope(opening@, content@, closing@),
{
    join3(opening, xml_escape(content).as_str(), closing)
}

/// A prompt of the user.
pub open spec fn user_prompt(content: Seq<char>) -> Seq<char> {
    envelope("<user_prompt>\n"@, content, "\n</user_prompt>"@)
}

/// A prompt of a manager.
pub open spec fn manager_prompt(content: Seq<char>) -> Seq<char> {
    envelope("<manager_prompt>\n"@, content, "\n</manager_prompt>"@)
}

/// A prompt of a parent agent.
pub open spec fn parent_agent_prompt(content: Seq<char>) -> Seq<char> {
    envelope("<parent_agent_prompt>\n"@, content, "\n</parent_agent_prompt>"@)
}

/// A prompt that the user added to a running turn.
pub open spec fn follow_up_prompt(content: Seq<char>) -> Seq<char> {
    envelope("<follow_up_prompt>\n"@, content, "\n</follow_up_prompt>"@)
}

/// A word of the system in the middle of a conversation.
pub open spec fn injection(kind: Seq<char>, content: Seq<char>) -> Seq<char> {
    "<system_prompt_injection type=\""@ + escaped(kind) + "\">\n"@ + escaped(content)
        + "\n</system_prompt_injection>"@
}

/// The prompt of the user in its envelope.
pub fn user_prompt_envelope(content: &str) -> (text: String)
    ensures
        text@ == user_prompt(content@),
{
    enveloped("<user_prompt>\n", content, "\n</user_prompt>")
}

/// The prompt of the manager in its envelope.
pub fn manager_prompt_envelope(content: &str) -> (text: String)
    ensures
        text@ == manager_prompt(content@),
{
    enveloped("<manager_prompt>\n", content, "\n</manager_prompt>")
}

/// The prompt of the parent agent in its envelope.
pub fn parent_agent_prompt_envelope(content: &str) -> (text: String)
    ensures
        text@ == parent_agent_prompt(content@),
{
    enveloped("<parent_agent_prompt>\n", content, "\n</parent_agent_prompt>")
}

/// The added prompt in its envelope.
pub fn follow_up_prompt_envelope(content: &str) -> (text: String)
    ensures
        text@ == follow_up_prompt(content@),
{
    enveloped("<follow_up_prompt>\n", content, "\n</follow_up_prompt>")
}

/// The word of the system in its envelope.
pub fn system_prompt_injection_envelope(kind: &str, content: &str) -> (text: String)
    ensures
        text@ == injection(kind@, content@),
{
    let mut text = join3(
        "<system_prompt_injection type=\"",
        xml_escape(kind).as_str(),
        "\">\n",
    );
    text.append(xml_escape(content).as_str());
    text.append("\n</system_prompt_injection>");
    text
}

/// What a running tool has put out: frames of a terminal, and the rest.
#[derive(Debug)]
pub struct ToolUpdates {
    pub terminal: Vec<Json>,
    pub other: Vec<Json>,
}

/// What a running tool has put out, as a value.
pub struct UpdatesView {
    pub terminal: Seq<JsonView>,
    pub other: Seq<JsonView>,
}

impl View for ToolUpdates {
    type V = UpdatesView;

    open spec fn view(&self) -> UpdatesView {
        UpdatesView { terminal: array_view(self.terminal@), other: array_view(self.other@) }
    }
}

impl UpdatesView {
    /// The tool has put out nothing.
    pub open spec fn empty() -> UpdatesView {
        UpdatesView { terminal: Seq::empty(), other: Seq::empty() }
    }

    /// With one more piece of output.
    pub open spec fn with_update(self, info: ToolInfoUpdate) -> UpdatesView {
        match info.content {
            ToolInfoContent::Text(content) => UpdatesView {
                other: self.other.push(
                    JsonView::Object(
                        Map::empty().insert("stream"@, JsonView::Text(info.stream.name())).insert(
                            "text"@,
                            JsonView::Text(content@),
                        ),
                    ),
                ),
                ..self
            },
            ToolInfoContent::Terminal(frame) => UpdatesView {
                terminal: self.terminal.push(read_or_text(frame@)),
                ..self
            },
        }
    }
}

/// The value that a text gives, or the text where it gives none.
pub open spec fn read_or_text(text: Seq<char>) -> JsonView {
    match json_read(text) {
        Some(value) => value,
        None => JsonView::Text(text),
    }
}

/// The value that the text gives, or the text where it gives none.
pub fn value_or_text(text: &str) -> (value: Json)
    ensures
        value@ == read_or_text(text@),
{
    match parse_json(text) {
        Ok(value) => value,
        Err(_) => Json::text(text),
    }
}

/// The detail of a tool result, if it has any.
pub open spec fn detail_value(detail: Seq<char>) -> Option<JsonView> {
    if detail.len() == 0 {
        None
    } else {
        Some(read_or_text(detail))
    }
}

/// The end of a tool call as a value.
pub open spec fn end_value(
    state: ToolResultState,
    exit_code: Option<i32>,
    detail: Option<JsonView>,
) -> JsonView {
    let base = Map::<Seq<char>, JsonView>::empty().insert(
        "state"@,
        JsonView::Text(state.name()),
    ).insert(
        "exit_code"@,
        match exit_code {
            Some(code) => JsonView::Integer(code as int),
            None => JsonView::Null,
        },
    );
    JsonView::Object(
        match detail {
            Some(value) => base.insert("detail"@, value),
            None => base,
        },
    )
}

/// A tool result as a value: its output, if any, and its end.
pub open spec fn structured(updates: UpdatesView, end: JsonView) -> JsonView {
    if updates.terminal.len() > 0 {
        let base = Map::<Seq<char>, JsonView>::empty().insert(
            "terminal_updates"@,
            JsonView::Array(updates.terminal),
        ).insert("result"@, end);
        JsonView::Object(
            if updates.other.len() > 0 {
                base.insert("other_updates"@, JsonView::Array(updates.other))
            } else {
                base
            },
        )
    } else {
        let base = Map::<Seq<char>, JsonView>::empty().insert("result"@, end);
        JsonView::Object(
            if updates.other.len() > 0 {
                base.insert("updates"@, JsonView::Array(updates.other))
            } else {
                base
            },
        )
    }
}

fn end_of(state: ToolResultState, exit_code: Option<i32>, detail: Option<Json>) -> (value: Json)
    ensures
        value@ == end_value(
            state,
            exit_code,
            match detail {
                Some(json) => Some(json@),
                None => None,
            },
        ),
{
    let code = match exit_code {
        Some(code) => Json::Signed(code as i64),
        None => Json::Null,
    };
    let base = Json::object().with("state", Json::text(state.label())).with("exit_code", code);
    match detail {
        Some(value) => base.with("detail", value),
        None => base,
    }
}

fn structured_of(updates: ToolUpdates, end: Json) -> (value: Json)
    ensures
        value@ == structured(updates@, end@),
{
    broadcast use lemma_array_items;

    if updates.terminal.len() > 0 {
        let base = Json::object().with("terminal_updates", Json::Array(updates.terminal)).with(
            "result",
            end,
        );
        if updates.other.len() > 0 {
            base.with("other_updates", Json::Array(updates.other))
        } else {
            base
        }
    } else {
        let base = Json::object().with("result", end);
        if updates.other.len() > 0 {
            base.with("updates", Json::Array(updates.other))
        } else {
            base
        }
    }
}

/// The tool result as a value, before anything of it is cut.
pub fn structured_tool_result_value(updates: ToolUpdates, result: &ToolCallResult) -> (value: Json)
    ensures
        value@ == structured(
            updates@,
            end_value(result.state, result.exit_code, detail_value(result.detail@)),
        ),
{
    let detail = if result.detail.as_str().unicode_len() == 0 {
        None
    } else {
        Some(value_or_text(result.detail.as_str()))
    };
    structured_of(updates, end_of(result.state, result.exit_code, detail))
}

/// The form in which a tool result is shown to a model where that is not its own, because some of
/// it was cut.
#[derive(Debug)]
pub struct ResultForm {
    pub result_id: EventId,
    pub value: Json,
}

/// The form in which a tool result is shown.
pub open spec fn shown_form(forms: Seq<ResultForm>, result_id: EventId, own: JsonView) -> JsonView
    decreases forms.len(),
{
    if forms.len() == 0 {
        own
    } else if forms[0].result_id == result_id {
        forms[0].value@
    } else {
        shown_form(forms.skip(1), result_id, own)
    }
}

/// The form in which the tool result is shown.
pub fn form_of(forms: &Vec<ResultForm>, result_id: EventId, own: Json) -> (value: Json)
    ensures
        value@ == shown_form(forms@, result_id, own@),
{
    let mut place: usize = 0;
    assert(forms@.skip(0) =~= forms@);
    while place < forms.len()
        invariant
            place <= forms@.len(),
            shown_form(forms@.skip(place as int), result_id, own@) == shown_form(
                forms@,
                result_id,
                own@,
            ),
        decreases forms@.len() - place,
    {
        assert(forms@.skip(place as int).skip(1) =~= forms@.skip(place + 1));
        if forms[place].result_id == result_id {
            return forms[place].value.copy();
        }
        place += 1;
    }
    own
}

/// What is said to a model when a compaction has ended: how to go on, and what happened before, or
/// why that cannot be said. `event_id` is the event of the end.
#[derive(Debug)]
pub struct CompactTexts {
    pub event_id: EventId,
    pub continuation: String,
    pub turn_history: Computed<String>,
}

/// What is said of the compaction that ended with an event.
pub open spec fn compact_texts(texts: Seq<CompactTexts>, event_id: EventId) -> Option<CompactTexts>
    decreases texts.len(),
{
    if texts.len() == 0 {
        None
    } else if texts[0].event_id == event_id {
        Some(texts[0])
    } else {
        compact_texts(texts.skip(1), event_id)
    }
}

fn find_compact_texts(texts: &Vec<CompactTexts>, event_id: EventId) -> (found: Option<
    &CompactTexts,
>)
    ensures
        match found {
            Some(entry) => compact_texts(texts@, event_id) == Some(*entry),
            None => compact_texts(texts@, event_id) is None,
        },
{
    let mut place: usize = 0;
    assert(texts@.skip(0) =~= texts@);
    while place < texts.len()
        invariant
            place <= texts@.len(),
            compact_texts(texts@.skip(place as int), event_id) == compact_texts(texts@, event_id),
        decreases texts@.len() - place,
    {
        assert(texts@.skip(place as int).skip(1) =~= texts@.skip(place + 1));
        if texts[place].event_id == event_id {
            return Some(&texts[place]);
        }
        place += 1;
    }
    None
}

/// What a conversation is put before a model from. `effective` are the events that still count,
/// `restricted` the catalog of agents that may neither control agents nor set titles, and
/// `title_form` the form in which the result of a title is shown where it is not its own.
pub struct MainContextInput<'a> {
    pub edb: &'a EventDataBase,
    pub effective: &'a Vec<Event>,
    pub catalog: &'a ToolboxCatalog,
    pub restricted: &'a ToolboxCatalog,
    pub parent_system_prompt: Option<&'a str>,
    pub environment_prompt: &'a str,
    pub title_prompt: &'a str,
    pub first_prompt_reminder: &'a str,
    pub title_success: &'a str,
    pub title_form: Option<&'a Json>,
    pub forms: &'a Vec<ResultForm>,
    pub compacts: &'a Vec<CompactTexts>,
    pub image_input_supported: bool,
}

/// Whether there is a word on every compaction that has ended.
pub open spec fn has_compact_texts(effective: Seq<Event>, texts: Seq<CompactTexts>) -> bool {
    forall|i: int|
        0 <= i < effective.len() ==> ((#[trigger] effective[i]).body matches
            EventBody::CompactStateUpdate(update) ==> (update.state == CompactState::Completed
            ==> compact_texts(texts, effective[i].id) is Some))
}

/// A conversation under way.
pub struct ContextState {
    pub messages: Seq<JsonView>,
    pub assistant: Seq<char>,
    pub outputs: Map<EventId, UpdatesView>,
    pub images: Map<EventId, usize>,
    pub batches: Set<EventId>,
    pub files: Map<Seq<char>, ScopeView>,
}

impl ContextState {
    /// After what the model has said has become a message.
    pub open spec fn flushed(self) -> ContextState {
        if self.assistant.len() == 0 {
            self
        } else {
            ContextState {
                messages: self.messages.push(role_message("assistant"@, self.assistant)),
                assistant: Seq::empty(),
                ..self
            }
        }
    }

    /// With one more message.
    pub open spec fn with_message(self, message: JsonView) -> ContextState {
        ContextState { messages: self.messages.push(message), ..self }
    }

    /// With one more message in the role of the user.
    pub open spec fn told(self, content: Seq<char>) -> ContextState {
        self.with_message(role_message("user"@, content))
    }
}

/// The first prompt of the user.
pub open spec fn first_user_prompt(events: Seq<Event>) -> Option<EventId>
    decreases events.len(),
{
    if events.len() == 0 {
        None
    } else if events[0].body is UserPrompt {
        Some(events[0].id)
    } else {
        first_user_prompt(events.skip(1))
    }
}

/// The part that the agent of a log plays, as its prompts say.
pub open spec fn profile_in(events: Seq<Event>) -> Option<MainAgentProfile>
    decreases events.len(),
{
    if events.len() == 0 {
        None
    } else {
        match events[0].body {
            EventBody::SystemPrompt(name) => if name@ == MANAGER_SYSTEM_PROMPT_NAME@ {
                Some(MainAgentProfile::Manager)
            } else if name@ == WORKER_SYSTEM_PROMPT_NAME@ {
                Some(MainAgentProfile::Worker)
            } else {
                profile_in(events.skip(1))
            },
            _ => profile_in(events.skip(1)),
        }
    }
}

/// What kind of agent a log belongs to, as its first event says.
pub open spec fn kind_in(events: Seq<Event>) -> Option<AgentKindDef> {
    if events.len() == 0 {
        None
    } else {
        match events[0].body {
            EventBody::AgentKindDef(definition) => Some(definition),
            _ => None,
        }
    }
}

/// A tool call as it is shown to a model.
pub open spec fn call_view(call: ToolCall, catalog: &ToolboxCatalog) -> JsonView {
    JsonView::Object(
        Map::empty().insert("id"@, JsonView::Text(call.provider_call_id@)).insert(
            "type"@,
            JsonView::Text("function"@),
        ).insert(
            "function"@,
            JsonView::Object(
                Map::empty().insert("name"@, JsonView::Text(catalog.called(call.name@))).insert(
                    "arguments"@,
                    JsonView::Text(call.arguments@),
                ),
            ),
        ),
    )
}

/// The tool calls of a request among the first events, as they are shown to a model.
pub open spec fn batch_calls(
    effective: Seq<Event>,
    count: int,
    api_call_id: EventId,
    catalog: &ToolboxCatalog,
) -> Seq<JsonView>
    decreases count,
{
    if count <= 0 {
        Seq::empty()
    } else {
        let before = batch_calls(effective, count - 1, api_call_id, catalog);
        match effective[count - 1].body {
            EventBody::ToolCall(call) => if call.api_call_id == api_call_id {
                before.push(call_view(call, catalog))
            } else {
                before
            },
            _ => before,
        }
    }
}

/// What a model said and the tools that it called with it.
pub open spec fn calling_message(said: Seq<char>, calls: Seq<JsonView>) -> JsonView {
    JsonView::Object(
        Map::empty().insert("role"@, JsonView::Text("assistant"@)).insert(
            "content"@,
            if said.len() == 0 {
                JsonView::Null
            } else {
                JsonView::Text(said)
            },
        ).insert("tool_calls"@, JsonView::Array(calls)),
    )
}

/// What a tool answered.
pub open spec fn tool_message(provider_call_id: Seq<char>, value: JsonView) -> JsonView {
    JsonView::Object(
        Map::empty().insert("role"@, JsonView::Text("tool"@)).insert(
            "tool_call_id"@,
            JsonView::Text(provider_call_id),
        ).insert("content"@, JsonView::Text(json_written(value))),
    )
}

/// Whether the event is the end of a tool call of the request, later than another end.
pub open spec fn later_end(
    event: Event,
    events: Seq<Event>,
    result_id: EventId,
    api_call_id: EventId,
) -> bool {
    &&& event.id > result_id
    &&& event.body matches EventBody::ToolCallResult(later)
    &&& tool_call_with(events, later.tool_call_id) matches Some(call)
    &&& call.api_call_id == api_call_id
}

/// Whether a tool call of the request ends later.
pub open spec fn ends_later(
    effective: Seq<Event>,
    events: Seq<Event>,
    result_id: EventId,
    api_call_id: EventId,
) -> bool {
    exists|i: int|
        0 <= i < effective.len() && later_end(
            #[trigger] effective[i],
            events,
            result_id,
            api_call_id,
        )
}

/// Whether the event is the success of a tool call.
pub open spec fn is_success(event: Event, tool_call_id: EventId) -> bool {
    &&& event.body matches EventBody::ToolCallResult(result)
    &&& result.tool_call_id == tool_call_id
    &&& result.state == ToolResultState::Succeeded
}

/// Whether the tool call succeeded.
pub open spec fn succeeded(effective: Seq<Event>, tool_call_id: EventId) -> bool {
    exists|i: int| 0 <= i < effective.len() && is_success(#[trigger] effective[i], tool_call_id)
}

/// The Base64 form of bytes, with padding.
pub uninterp spec fn base64_text(bytes: Seq<u8>) -> Seq<char>;

/// `base64`'s `Engine::encode` of its standard engine: the text is named.
#[verifier::external_body]
fn encode_base64(bytes: &Vec<u8>) -> (text: String)
    ensures
        text@ == base64_text(bytes@),
{
    STANDARD.encode(bytes)
}

/// What is said of an image.
pub open spec fn image_text(image: ImageContent) -> Seq<char> {
    "Stored image content from "@ + image.source@ + " ("@ + decimal(image.width as nat) + "x"@
        + decimal(image.height as nat) + ", "@ + image.format@ + ", sha256 "@
        + image.content_sha256@ + ")."@
}

/// An image as it is put before a model, given its Base64 form.
pub open spec fn image_view(image: ImageContent, encoded: Seq<char>) -> JsonView {
    JsonView::Object(
        Map::empty().insert("role"@, JsonView::Text("user"@)).insert(
            "content"@,
            JsonView::Array(
                seq![
                    JsonView::Object(
                        Map::empty().insert("type"@, JsonView::Text("text"@)).insert(
                            "text"@,
                            JsonView::Text(image_text(image)),
                        ),
                    ),
                    JsonView::Object(
                        Map::empty().insert("type"@, JsonView::Text("image_url"@)).insert(
                            "image_url"@,
                            JsonView::Object(
                                Map::empty().insert(
                                    "url"@,
                                    JsonView::Text("data:image/png;base64,"@ + encoded),
                                ),
                            ),
                        ),
                    ),
                ],
            ),
        ),
    )
}

/// An image as it is put before a model, or what is said where it cannot be.
pub open spec fn image_message(id: EventId, image: ImageContent) -> Result<JsonView, Seq<char>> {
    match image.png {
        Computed::Value(png) => Ok(image_view(image, base64_text(png@))),
        Computed::Failure(reason) => Err(
            "cannot project ImageContentEvent "@ + decimal(id as nat) + " from "@ + image.source@
                + " as PNG: "@ + reason@,
        ),
    }
}

/// The image as it is put before a model, given its Base64 form.
pub fn image_message_of(image: &ImageContent, encoded: &str) -> (message: Json)
    ensures
        message@ == image_view(*image, encoded@),
{
    broadcast use lemma_array_items;

    let mut said = join3("Stored image content from ", image.source.as_str(), " (");
    push_decimal(&mut said, image.width as u64);
    said.append("x");
    push_decimal(&mut said, image.height as u64);
    said.append(", ");
    said.append(image.format.as_str());
    said.append(", sha256 ");
    said.append(image.content_sha256.as_str());
    said.append(").");
    let mut url = "data:image/png;base64,".to_owned();
    url.append(encoded);
    let text_part = Json::object().with("type", Json::text("text")).with("text", Json::Text(said));
    let image_part = Json::object().with("type", Json::text("image_url")).with(
        "image_url",
        Json::object().with("url", Json::Text(url)),
    );
    let ghost parts = seq![text_part@, image_part@];
    let mut content: Vec<Json> = Vec::new();
    content.push(text_part);
    content.push(image_part);
    assert(array_view(content@) =~= parts);
    Json::object().with("role", Json::text("user")).with("content", Json::Array(content))
}

/// The image as it is put before a model.
pub fn image_context_message(id: EventId, image: &ImageContent) -> (result: Result<Json, String>)
    ensures
        match result {
            Ok(message) => image_message(id, *image) == Ok::<JsonView, Seq<char>>(message@),
            Err(error) => image_message(id, *image) == Err::<JsonView, Seq<char>>(error@),
        },
{
    match &image.png {
        Computed::Value(png) => Ok(image_message_of(image, encode_base64(png).as_str())),
        Computed::Failure(reason) => {
            let mut text = say1("cannot project ImageContentEvent ", id, " from ");
            text.append(image.source.as_str());
            text.append(" as PNG: ");
            text.append(reason.as_str());
            Err(text)
        },
    }
}

/// A conversation after the images of the successful calls of a request among the first events.
pub open spec fn with_images(
    state: ContextState,
    effective: Seq<Event>,
    count: int,
    api_call_id: EventId,
) -> Result<ContextState, Seq<char>>
    decreases count,
{
    if count <= 0 {
        Ok(state)
    } else {
        match with_images(state, effective, count - 1, api_call_id) {
            Err(error) => Err(error),
            Ok(before) => {
                let event = effective[count - 1];
                match event.body {
                    EventBody::ToolCall(call) => if call.api_call_id == api_call_id && succeeded(
                        effective,
                        event.id,
                    ) && before.images.dom().contains(event.id) {
                        let place = before.images[event.id];
                        match effective[place as int].body {
                            EventBody::ImageContent(image) => match image_message(
                                effective[place as int].id,
                                image,
                            ) {
                                Err(error) => Err(error),
                                Ok(message) => Ok(
                                    ContextState {
                                        images: before.images.remove(event.id),
                                        ..before
                                    }.with_message(message),
                                ),
                            },
                            _ => Ok(before),
                        }
                    } else {
                        Ok(before)
                    },
                    _ => Ok(before),
                }
            },
        }
    }
}

/// What a provider wants back, as a message, given what its text reads as.
pub open spec fn provider_message(provider: Seq<char>, item: JsonView) -> JsonView {
    JsonView::Object(
        Map::empty().insert("_me_provider"@, JsonView::Text(provider)).insert("item"@, item),
    )
}

/// What a worker is told with the prompt that its compaction took away.
pub const MANAGER_PROMPT_RESTORED: &'static str =
    "The exact Manager instruction for the compacted Worker turn follows. It is retained so its wording and boundaries remain available. Use the compact summary to determine what has already completed and the precise continuation point; do not repeat completed operations merely because the instruction appears again.";

/// A conversation after a compaction has ended.
pub open spec fn after_compact(
    state: ContextState,
    events: Seq<Event>,
    profile: Option<MainAgentProfile>,
    update: CompactStateUpdate,
    texts: CompactTexts,
) -> Result<ContextState, Seq<char>> {
    let summed = state.told(injection("compact_summary"@, texts.continuation@));
    if profile == Some(MainAgentProfile::Worker) && update.kind == CompactKind::WorkerSingleTurn {
        match event_with(events, update.prompt_id) {
            Some(Event { id: _, body: EventBody::ManagerPrompt(content) }) => Ok(
                summed.told(
                    injection("worker_manager_prompt_restored"@, MANAGER_PROMPT_RESTORED@),
                ).told(manager_prompt(content@)),
            ),
            _ => Err(
                "Worker Compact "@ + decimal(update.compact_id as nat)
                    + " references non-Manager prompt "@ + decimal(update.prompt_id as nat) + ""@,
            ),
        }
    } else if profile != Some(MainAgentProfile::Worker) {
        match texts.turn_history {
            Computed::Value(history) => Ok(summed.told(injection("turn_history"@, history@))),
            Computed::Failure(reason) => Err(reason@),
        }
    } else {
        Ok(summed)
    }
}

/// A conversation after a tool call has ended.
pub open spec fn after_tool_result(
    input: MainContextInput,
    state: ContextState,
    id: EventId,
    result: ToolCallResult,
) -> Result<ContextState, Seq<char>> {
    let effective = input.effective@;
    match tool_call_with(input.edb@, result.tool_call_id) {
        None => Err(
            "tool result "@ + decimal(id as nat) + " references missing call "@ + decimal(
                result.tool_call_id as nat,
            ) + ""@,
        ),
        Some(call) => {
            let updates = if state.outputs.dom().contains(result.tool_call_id) {
                state.outputs[result.tool_call_id]
            } else {
                UpdatesView::empty()
            };
            let own = structured(
                updates,
                end_value(result.state, result.exit_code, detail_value(result.detail@)),
            );
            let (files, visible) = after_result(
                state.files,
                call.name@,
                json_read(call.arguments@),
                result.state == ToolResultState::Succeeded,
                shown_form(input.forms@, id, own),
            );
            let answered = ContextState {
                outputs: state.outputs.remove(result.tool_call_id),
                files,
                ..state
            }.with_message(tool_message(call.provider_call_id@, visible));
            if input.image_input_supported && !ends_later(
                effective,
                input.edb@,
                id,
                call.api_call_id,
            ) {
                with_images(answered, effective, effective.len() as int, call.api_call_id)
            } else {
                Ok(answered)
            }
        },
    }
}

/// A conversation after one more event.
pub open spec fn context_step(input: MainContextInput, state: ContextState, place: int) -> Result<
    ContextState,
    Seq<char>,
> {
    let effective = input.effective@;
    let event = effective[place];
    match event.body {
        EventBody::UserPrompt(content) => {
            let asked = state.flushed().told(user_prompt(content@));
            if first_user_prompt(input.edb@) == Some(event.id) {
                Ok(
                    asked.told(
                        injection("set_title_required"@, input.first_prompt_reminder@),
                    ),
                )
            } else {
                Ok(asked)
            }
        },
        EventBody::ManagerPrompt(content) => Ok(state.flushed().told(manager_prompt(content@))),
        EventBody::ParentAgentPrompt(content) => Ok(
            state.flushed().told(parent_agent_prompt(content@)),
        ),
        EventBody::FollowUpPrompt(prompt) => Ok(
            state.flushed().told(follow_up_prompt(prompt.content@)),
        ),
        EventBody::AssistResponse(response) => Ok(
            ContextState { assistant: state.assistant + response.content@, ..state },
        ),
        EventBody::ModelContextItem(item) => match json_read(item.content@) {
            Some(value) => Ok(
                state.flushed().with_message(provider_message(item.provider@, value)),
            ),
            None => Err(json_failure(item.content@)),
        },
        EventBody::ToolCall(call) => if state.batches.contains(call.api_call_id) {
            Ok(state)
        } else {
            Ok(
                ContextState {
                    batches: state.batches.insert(call.api_call_id),
                    assistant: Seq::empty(),
                    ..state
                }.with_message(
                    calling_message(
                        state.assistant,
                        batch_calls(
                            effective,
                            effective.len() as int,
                            call.api_call_id,
                            input.catalog,
                        ),
                    ),
                ),
            )
        },
        EventBody::ToolInfoUpdate(info) => {
            let before = if state.outputs.dom().contains(info.tool_call_id) {
                state.outputs[info.tool_call_id]
            } else {
                UpdatesView::empty()
            };
            Ok(
                ContextState {
                    outputs: state.outputs.insert(info.tool_call_id, before.with_update(info)),
                    ..state
                },
            )
        },
        EventBody::ImageContent(image) => Ok(
            ContextState {
                images: state.images.insert(image.tool_call_id, place as usize),
                ..state
            },
        ),
        EventBody::ToolCallResult(result) => after_tool_result(input, state, event.id, result),
        EventBody::WorkMapPendingReminder(_) => Ok(
            state.flushed().told(injection("workmap_pending"@, WORKMAP_PENDING_REMINDER_PROMPT@)),
        ),
        EventBody::CompactStateUpdate(update) => if update.state == CompactState::Completed {
            after_compact(
                state.flushed(),
                input.edb@,
                profile_in(input.edb@),
                update,
                compact_texts(input.compacts@, event.id)->0,
            )
        } else {
            Ok(state.flushed())
        },
        _ => Ok(state),
    }
}

/// A conversation after the first events.
pub open spec fn context_state(input: MainContextInput, start: ContextState, count: int) -> Result<
    ContextState,
    Seq<char>,
>
    decreases count,
{
    if count <= 0 {
        Ok(start)
    } else {
        match context_state(input, start, count - 1) {
            Err(error) => Err(error),
            Ok(state) => context_step(input, state, count - 1),
        }
    }
}

proof fn lemma_context_error_stays(
    input: MainContextInput,
    start: ContextState,
    early: int,
    late: int,
)
    requires
        early <= late,
        context_state(input, start, early) is Err,
    ensures
        context_state(input, start, late) == context_state(input, start, early),
    decreases late - early,
{
    if early < late {
        lemma_context_error_stays(input, start, early, late - 1);
    }
}

proof fn lemma_images_error_stays(
    state: ContextState,
    effective: Seq<Event>,
    early: int,
    late: int,
    api_call_id: EventId,
)
    requires
        early <= late,
        with_images(state, effective, early, api_call_id) is Err,
    ensures
        with_images(state, effective, late, api_call_id) == with_images(
            state,
            effective,
            early,
            api_call_id,
        ),
    decreases late - early,
{
    if early < late {
        lemma_images_error_stays(state, effective, early, late - 1, api_call_id);
    }
}

/// The last change of the title.
pub open spec fn last_title(events: Seq<Event>) -> Option<Event>
    decreases events.len(),
{
    if events.len() == 0 {
        None
    } else if events.last().body is AgentTitleChanged {
        Some(events.last())
    } else {
        last_title(events.drop_last())
    }
}

/// The first end of a tool call.
pub open spec fn first_result(events: Seq<Event>, tool_call_id: EventId) -> Option<ToolCallResult>
    decreases events.len(),
{
    if events.len() == 0 {
        None
    } else {
        match events[0].body {
            EventBody::ToolCallResult(result) => if result.tool_call_id == tool_call_id {
                Some(result)
            } else {
                first_result(events.skip(1), tool_call_id)
            },
            _ => first_result(events.skip(1), tool_call_id),
        }
    }
}

/// Whether an event of the identity is among the events.
pub open spec fn has_id(events: Seq<Event>, id: EventId) -> bool {
    exists|i: int| 0 <= i < events.len() && (#[trigger] events[i]).id == id
}

/// The result of setting a title as it is shown to a model.
pub open spec fn title_result(input: MainContextInput, result: ToolCallResult) -> JsonView {
    match input.title_form {
        Some(form) => form@,
        None => structured(
            UpdatesView::empty(),
            end_value(
                result.state,
                result.exit_code,
                Some(JsonView::Text(input.title_success@)),
            ),
        ),
    }
}

/// The messages of the call that set the title, where it is no longer among the events that count.
pub open spec fn title_exchange(input: MainContextInput) -> Result<Seq<JsonView>, Seq<char>> {
    match last_title(input.edb@) {
        Some(Event { id, body: EventBody::AgentTitleChanged(change) }) => match change.tool_call_id {
            None => Ok(Seq::empty()),
            Some(tool_call) => if has_id(input.effective@, id) {
                Ok(Seq::empty())
            } else {
                match tool_call_with(input.edb@, tool_call) {
                    None => Err(
                        "Agent title change "@ + decimal(id as nat) + " references missing call "@
                            + decimal(tool_call as nat) + ""@,
                    ),
                    Some(call) => match first_result(input.edb@, tool_call) {
                        None => Err(
                            "committed SetTitle call "@ + decimal(tool_call as nat)
                                + " has no tool result"@,
                        ),
                        Some(result) => if result.state != ToolResultState::Succeeded {
                            Err(
                                "committed SetTitle call "@ + decimal(tool_call as nat)
                                    + " did not succeed"@,
                            )
                        } else {
                            Ok(
                                seq![
                                    calling_message(
                                        Seq::empty(),
                                        seq![call_view(call, input.catalog)],
                                    ),
                                    tool_message(
                                        call.provider_call_id@,
                                        title_result(input, result),
                                    ),
                                ],
                            )
                        },
                    },
                }
            },
        },
        _ => Ok(Seq::empty()),
    }
}

/// The prompts of the system that the first events name.
pub open spec fn system_prompts(
    events: Seq<Event>,
    count: int,
    parts: PartsView,
    agent_kind: AgentKind,
    profile: MainAgentProfile,
) -> Result<Seq<Seq<char>>, Seq<char>>
    decreases count,
{
    if count <= 0 {
        Ok(Seq::empty())
    } else {
        match system_prompts(events, count - 1, parts, agent_kind, profile) {
            Err(error) => Err(error),
            Ok(before) => match events[count - 1].body {
                EventBody::SystemPrompt(name) => match system_prompt(
                    name@,
                    parts,
                    agent_kind,
                    profile,
                ) {
                    Err(error) => Err(error),
                    Ok(prompt) => Ok(before.push(prompt)),
                },
                _ => Ok(before),
            },
        }
    }
}

proof fn lemma_prompts_error_stays(
    events: Seq<Event>,
    early: int,
    late: int,
    parts: PartsView,
    agent_kind: AgentKind,
    profile: MainAgentProfile,
)
    requires
        early <= late,
        system_prompts(events, early, parts, agent_kind, profile) is Err,
    ensures
        system_prompts(events, late, parts, agent_kind, profile) == system_prompts(
            events,
            early,
            parts,
            agent_kind,
            profile,
        ),
    decreases late - early,
{
    if early < late {
        lemma_prompts_error_stays(events, early, late - 1, parts, agent_kind, profile);
    }
}

/// The conversation as it is put before a model.
pub struct ContextView {
    pub messages: Seq<JsonView>,
    pub tools: Seq<JsonView>,
}

/// Whether an agent may neither control agents nor set titles.
pub open spec fn restricts_tools(agent_kind: AgentKind, profile: Option<MainAgentProfile>) -> bool {
    agent_kind == AgentKind::SubAgent && profile != Some(MainAgentProfile::Worker)
}

/// The catalog that an agent is offered.
pub open spec fn offered_catalog(input: MainContextInput, agent_kind: AgentKind) -> ToolboxCatalog {
    if restricts_tools(agent_kind, profile_in(input.edb@)) {
        *input.restricted
    } else {
        *input.catalog
    }
}

/// The texts that the prompts of an agent are made of.
pub open spec fn prompt_parts(input: MainContextInput, toolbox_prompt: Seq<char>) -> PartsView {
    PartsView {
        toolbox_prompt,
        parent_system_prompt: slice_in(input.parent_system_prompt),
        title_prompt: input.title_prompt@,
        environment_prompt: input.environment_prompt@,
    }
}

/// What is said of a log that does not say what agent it belongs to.
pub const NO_AGENT_KIND: &'static str = "EDB must begin with its AgentKindDef event";

/// What is said where the system says nothing.
pub const NO_SYSTEM_PROMPT: &'static str = "MainAgent ModelContext has no system prompt";

/// A conversation that begins with messages.
pub open spec fn context_start(messages: Seq<JsonView>) -> ContextState {
    ContextState {
        messages,
        assistant: Seq::empty(),
        outputs: Map::empty(),
        images: Map::empty(),
        batches: Set::empty(),
        files: Map::empty(),
    }
}

/// The messages before the events: the word of the system, and the title where it would be lost.
pub open spec fn first_messages(input: MainContextInput, prompt: Seq<char>) -> Result<
    Seq<JsonView>,
    Seq<char>,
> {
    if prompt.len() == 0 {
        Err(NO_SYSTEM_PROMPT@)
    } else {
        match title_exchange(input) {
            Err(error) => Err(error),
            Ok(exchange) => Ok(seq![role_message("system"@, prompt)] + exchange),
        }
    }
}

/// The messages of the conversation behind the word of the system.
pub open spec fn main_messages(input: MainContextInput, prompt: Seq<char>) -> Result<
    Seq<JsonView>,
    Seq<char>,
> {
    match first_messages(input, prompt) {
        Err(error) => Err(error),
        Ok(messages) => match context_state(
            input,
            context_start(messages),
            input.effective@.len() as int,
        ) {
            Err(error) => Err(error),
            Ok(state) => Ok(state.flushed().messages),
        },
    }
}

/// The profile that counts where the log names none.
pub open spec fn profile_or_standard(profile: Option<MainAgentProfile>) -> MainAgentProfile {
    match profile {
        Some(found) => found,
        None => MainAgentProfile::Standard,
    }
}

/// The conversation of a main agent as it is put before a model.
pub open spec fn main_context(input: MainContextInput) -> Result<ContextView, Seq<char>> {
    match kind_in(input.edb@) {
        None => Err(NO_AGENT_KIND@),
        Some(definition) => {
            let catalog = offered_catalog(input, definition.kind);
            match system_prompts(
                input.edb@,
                input.edb@.len() as int,
                prompt_parts(input, catalog.prompt@),
                definition.kind,
                profile_or_standard(profile_in(input.edb@)),
            ) {
                Err(error) => Err(error),
                Ok(prompts) => match main_messages(input, paragraphs(prompts)) {
                    Err(error) => Err(error),
                    Ok(messages) => Ok(
                        ContextView { messages, tools: array_view(catalog.definitions@) },
                    ),
                },
            }
        },
    }
}

/// A conversation under way, as it is built.
struct ContextDraft {
    context: ModelContext,
    assistant: String,
    outputs: HashMap<u64, ToolUpdates>,
    images: HashMap<u64, usize>,
    batches: HashSet<u64>,
    files: FileEditScopeProjection,
}

spec fn updates_of(outputs: Map<u64, ToolUpdates>) -> Map<EventId, UpdatesView> {
    outputs.map_values(|updates: ToolUpdates| updates@)
}

impl View for ContextDraft {
    type V = ContextState;

    closed spec fn view(&self) -> ContextState {
        ContextState {
            messages: self.context.said(),
            assistant: self.assistant@,
            outputs: updates_of(self.outputs@),
            images: self.images@,
            batches: self.batches@,
            files: self.files@,
        }
    }
}

spec fn places_ok(images: Map<EventId, usize>, effective: Seq<Event>) -> bool {
    forall|id: EventId| #[trigger]
        images.dom().contains(id) ==> images[id] < effective.len() && effective[images[id] as int].body
            is ImageContent
}

spec fn draft_ok(draft: ContextDraft, effective: Seq<Event>) -> bool {
    scopes_ok(draft@.files) && places_ok(draft@.images, effective)
}

impl ContextDraft {
    fn flush(&mut self)
        ensures
            final(self)@ == old(self)@.flushed(),
    {
        if self.assistant.as_str().unicode_len() > 0 {
            self.context.push("assistant", self.assistant.as_str());
            self.assistant = String::new();
            assert(self.assistant@ =~= Seq::<char>::empty());
        }
    }

    fn tell(&mut self, content: &str)
        ensures
            final(self)@ == old(self)@.told(content@),
    {
        self.context.push("user", content);
    }

    fn push_message(&mut self, message: Json)
        ensures
            final(self)@ == old(self)@.with_message(message@),
    {
        self.context.push_value(message);
    }

    fn note_output(&mut self, info: &ToolInfoUpdate)
        ensures
            final(self)@ == (ContextState {
                outputs: old(self)@.outputs.insert(
                    info.tool_call_id,
                    (if old(self)@.outputs.dom().contains(info.tool_call_id) {
                        old(self)@.outputs[info.tool_call_id]
                    } else {
                        UpdatesView::empty()
                    }).with_update(*info),
                ),
                ..old(self)@
            }),
    {
        let mut updates = self.take_output(info.tool_call_id);
        match &info.content {
            ToolInfoContent::Text(content) => {
                let item = Json::object().with("stream", Json::text(info.stream.label())).with(
                    "text",
                    Json::text(content.as_str()),
                );
                proof {
                    lemma_array_push(updates.other@, item);
                }
                updates.other.push(item);
            },
            ToolInfoContent::Terminal(frame) => {
                let item = value_or_text(frame.as_str());
                proof {
                    lemma_array_push(updates.terminal@, item);
                }
                updates.terminal.push(item);
            },
        }
        let ghost before = self.outputs@;
        assert(updates_of(before) == old(self)@.outputs.remove(info.tool_call_id));
        self.outputs.insert(info.tool_call_id, updates);
        assert(self.outputs@ == before.insert(info.tool_call_id, updates));
        assert(updates_of(self.outputs@) =~= updates_of(before).insert(
            info.tool_call_id,
            updates@,
        ));
        assert(updates_of(self.outputs@) =~= old(self)@.outputs.insert(
            info.tool_call_id,
            updates@,
        ));
    }

    fn take_output(&mut self, tool_call_id: EventId) -> (updates: ToolUpdates)
        ensures
            updates@ == (if old(self)@.outputs.dom().contains(tool_call_id) {
                old(self)@.outputs[tool_call_id]
            } else {
                UpdatesView::empty()
            }),
            final(self)@ == (ContextState {
                outputs: old(self)@.outputs.remove(tool_call_id),
                ..old(self)@
            }),
    {
        broadcast use lemma_array_items;

        let taken = self.outputs.remove(&tool_call_id);
        assert(updates_of(self.outputs@) =~= old(self)@.outputs.remove(tool_call_id));
        match taken {
            Some(updates) => updates,
            None => {
                let updates = ToolUpdates { terminal: Vec::new(), other: Vec::new() };
                assert(updates@.terminal =~= Seq::<JsonView>::empty());
                assert(updates@.other =~= Seq::<JsonView>::empty());
                updates
            },
        }
    }
}

fn call_value(call: &ToolCall, catalog: &ToolboxCatalog) -> (value: Json)
    ensures
        value@ == call_view(*call, catalog),
{
    Json::object().with("id", Json::text(call.provider_call_id.as_str())).with(
        "type",
        Json::text("function"),
    ).with(
        "function",
        Json::object().with("name", Json::Text(catalog.api_name(call.name.as_str()))).with(
            "arguments",
            Json::text(call.arguments.as_str()),
        ),
    )
}

fn calling_value(said: &str, calls: Vec<Json>) -> (value: Json)
    ensures
        value@ == calling_message(said@, array_view(calls@)),
{
    let content = if said.unicode_len() == 0 {
        Json::Null
    } else {
        Json::text(said)
    };
    Json::object().with("role", Json::text("assistant")).with("content", content).with(
        "tool_calls",
        Json::Array(calls),
    )
}

fn tool_value(provider_call_id: &str, value: &Json) -> (message: Json)
    ensures
        message@ == tool_message(provider_call_id@, value@),
{
    Json::object().with("role", Json::text("tool")).with(
        "tool_call_id",
        Json::text(provider_call_id),
    ).with("content", Json::Text(write_json(value)))
}

fn collect_batch(effective: &Vec<Event>, api_call_id: EventId, catalog: &ToolboxCatalog) -> (calls:
    Vec<Json>)
    ensures
        array_view(calls@) == batch_calls(
            effective@,
            effective@.len() as int,
            api_call_id,
            catalog,
        ),
{
    broadcast use lemma_array_items;

    let mut calls: Vec<Json> = Vec::new();
    let mut place: usize = 0;
    assert(array_view(calls@) =~= Seq::<JsonView>::empty());
    while place < effective.len()
        invariant
            place <= effective@.len(),
            array_view(calls@) == batch_calls(effective@, place as int, api_call_id, catalog),
        decreases effective@.len() - place,
    {
        if let EventBody::ToolCall(call) = &effective[place].body {
            if call.api_call_id == api_call_id {
                let value = call_value(call, catalog);
                proof {
                    lemma_array_push(calls@, value);
                }
                calls.push(value);
            }
        }
        place += 1;
    }
    calls
}

fn has_later_end(
    effective: &Vec<Event>,
    events: &Vec<Event>,
    result_id: EventId,
    api_call_id: EventId,
) -> (found: bool)
    ensures
        found == ends_later(effective@, events@, result_id, api_call_id),
{
    let mut place: usize = 0;
    while place < effective.len()
        invariant
            place <= effective@.len(),
            forall|i: int|
                0 <= i < place ==> !later_end(
                    #[trigger] effective@[i],
                    events@,
                    result_id,
                    api_call_id,
                ),
        decreases effective@.len() - place,
    {
        if let EventBody::ToolCallResult(later) = &effective[place].body {
            if effective[place].id > result_id {
                if let Some(call) = find_tool_call(events, later.tool_call_id) {
                    if call.api_call_id == api_call_id {
                        assert(later_end(
                            effective@[place as int],
                            events@,
                            result_id,
                            api_call_id,
                        ));
                        return true;
                    }
                }
            }
        }
        place += 1;
    }
    false
}

fn has_succeeded(effective: &Vec<Event>, tool_call_id: EventId) -> (found: bool)
    ensures
        found == succeeded(effective@, tool_call_id),
{
    let mut place: usize = 0;
    while place < effective.len()
        invariant
            place <= effective@.len(),
            forall|i: int|
                0 <= i < place ==> !is_success(#[trigger] effective@[i], tool_call_id),
        decreases effective@.len() - place,
    {
        if let EventBody::ToolCallResult(result) = &effective[place].body {
            if result.tool_call_id == tool_call_id && result.state == ToolResultState::Succeeded {
                assert(is_success(effective@[place as int], tool_call_id));
                return true;
            }
        }
        place += 1;
    }
    false
}

fn push_images(draft: &mut ContextDraft, effective: &Vec<Event>, api_call_id: EventId) -> (result:
    Result<(), String>)
    requires
        draft_ok(*old(draft), effective@),
    ensures
        match with_images(old(draft)@, effective@, effective@.len() as int, api_call_id) {
            Ok(state) => result is Ok && final(draft)@ == state && draft_ok(
                *final(draft),
                effective@,
            ),
            Err(text) => match result {
                Ok(_) => false,
                Err(error) => error@ == text,
            },
        },
{
    let mut place: usize = 0;
    let ghost start = draft@;
    while place < effective.len()
        invariant
            place <= effective@.len(),
            start == old(draft)@,
            draft_ok(*draft, effective@),
            with_images(start, effective@, place as int, api_call_id) == Ok::<
                ContextState,
                Seq<char>,
            >(draft@),
        decreases effective@.len() - place,
    {
        let id = effective[place].id;
        if let EventBody::ToolCall(call) = &effective[place].body {
            if call.api_call_id == api_call_id && has_succeeded(effective, id) {
                let ghost before = draft@;
                if let Some(found) = draft.images.remove(&id) {
                    assert(before.images.dom().contains(id));
                    assert(found == before.images[id]);
                    if let EventBody::ImageContent(image) = &effective[found].body {
                        match image_context_message(effective[found].id, image) {
                            Ok(message) => {
                                draft.push_message(message);
                            },
                            Err(error) => {
                                proof {
                                    lemma_images_error_stays(
                                        start,
                                        effective@,
                                        place + 1,
                                        effective@.len() as int,
                                        api_call_id,
                                    );
                                }
                                return Err(error);
                            },
                        }
                    }
                } else {
                    assert(draft@.images =~= before.images);
                }
            }
        }
        place += 1;
    }
    Ok(())
}

fn push_tool_result(
    draft: &mut ContextDraft,
    input: &MainContextInput,
    id: EventId,
    result: &ToolCallResult,
) -> (done: Result<(), String>)
    requires
        draft_ok(*old(draft), input.effective@),
    ensures
        match after_tool_result(*input, old(draft)@, id, *result) {
            Ok(state) => done is Ok && final(draft)@ == state && draft_ok(
                *final(draft),
                input.effective@,
            ),
            Err(text) => match done {
                Ok(_) => false,
                Err(error) => error@ == text,
            },
        },
{
    let call = match find_tool_call(&input.edb.events, result.tool_call_id) {
        Some(call) => call,
        None => return Err(
            say2("tool result ", id, " references missing call ", result.tool_call_id, ""),
        ),
    };
    let updates = draft.take_output(result.tool_call_id);
    let own = structured_tool_result_value(updates, result);
    let mut visible = form_of(input.forms, id, own);
    let arguments = match parse_json(call.arguments.as_str()) {
        Ok(json) => Some(json),
        Err(_) => None,
    };
    draft.files.apply_result(call, &arguments, result, &mut visible);
    draft.push_message(tool_value(call.provider_call_id.as_str(), &visible));
    if input.image_input_supported && !has_later_end(
        input.effective,
        &input.edb.events,
        id,
        call.api_call_id,
    ) {
        push_images(draft, input.effective, call.api_call_id)
    } else {
        Ok(())
    }
}

fn find_profile(events: &Vec<Event>) -> (profile: Option<MainAgentProfile>)
    ensures
        profile == profile_in(events@),
{
    let mut place: usize = 0;
    assert(events@.skip(0) =~= events@);
    while place < events.len()
        invariant
            place <= events@.len(),
            profile_in(events@.skip(place as int)) == profile_in(events@),
        decreases events@.len() - place,
    {
        assert(events@.skip(place as int).skip(1) =~= events@.skip(place + 1));
        if let EventBody::SystemPrompt(name) = &events[place].body {
            if same(name.as_str(), MANAGER_SYSTEM_PROMPT_NAME) {
                return Some(MainAgentProfile::Manager);
            }
            if same(name.as_str(), WORKER_SYSTEM_PROMPT_NAME) {
                return Some(MainAgentProfile::Worker);
            }
        }
        place += 1;
    }
    None
}

/// What kind of agent the log belongs to, as its first event says.
pub fn agent_kind_definition(events: &Vec<Event>) -> (definition: Option<&AgentKindDef>)
    ensures
        match definition {
            Some(found) => kind_in(events@) == Some(*found),
            None => kind_in(events@) is None,
        },
{
    if events.len() == 0 {
        return None;
    }
    match &events[0].body {
        EventBody::AgentKindDef(definition) => Some(definition),
        _ => None,
    }
}

fn find_first_user_prompt(events: &Vec<Event>) -> (id: Option<EventId>)
    ensures
        id == first_user_prompt(events@),
{
    let mut place: usize = 0;
    assert(events@.skip(0) =~= events@);
    while place < events.len()
        invariant
            place <= events@.len(),
            first_user_prompt(events@.skip(place as int)) == first_user_prompt(events@),
        decreases events@.len() - place,
    {
        assert(events@.skip(place as int).skip(1) =~= events@.skip(place + 1));
        if let EventBody::UserPrompt(_) = &events[place].body {
            return Some(events[place].id);
        }
        place += 1;
    }
    None
}

fn push_compact(
    draft: &mut ContextDraft,
    input: &MainContextInput,
    update: &CompactStateUpdate,
    texts: &CompactTexts,
) -> (done: Result<(), String>)
    ensures
        match after_compact(
            old(draft)@,
            input.edb@,
            profile_in(input.edb@),
            *update,
            *texts,
        ) {
            Ok(state) => done is Ok && final(draft)@ == state,
            Err(text) => match done {
                Ok(_) => false,
                Err(error) => error@ == text,
            },
        },
        final(draft)@.files == old(draft)@.files,
        final(draft)@.images == old(draft)@.images,
{
    let profile = find_profile(&input.edb.events);
    let summary = system_prompt_injection_envelope("compact_summary", texts.continuation.as_str());
    draft.tell(summary.as_str());
    let is_worker = match profile {
        Some(MainAgentProfile::Worker) => true,
        _ => false,
    };
    if is_worker {
        if update.kind == CompactKind::WorkerSingleTurn {
            if let Some(event) = find_event(&input.edb.events, update.prompt_id) {
                if let EventBody::ManagerPrompt(content) = &event.body {
                    let restored = system_prompt_injection_envelope(
                        "worker_manager_prompt_restored",
                        MANAGER_PROMPT_RESTORED,
                    );
                    draft.tell(restored.as_str());
                    draft.tell(manager_prompt_envelope(content.as_str()).as_str());
                    return Ok(());
                }
            }
            return Err(
                say2(
                    "Worker Compact ",
                    update.compact_id,
                    " references non-Manager prompt ",
                    update.prompt_id,
                    "",
                ),
            );
        }
        return Ok(());
    }
    match &texts.turn_history {
        Computed::Value(history) => {
            let told = system_prompt_injection_envelope("turn_history", history.as_str());
            draft.tell(told.as_str());
            Ok(())
        },
        Computed::Failure(reason) => Err(reason.clone()),
    }
}

fn push_user_prompt(draft: &mut ContextDraft, input: &MainContextInput, place: usize)
    requires
        place < input.effective@.len(),
        input.effective@[place as int].body is UserPrompt,
        draft_ok(*old(draft), input.effective@),
    ensures
        context_step(*input, old(draft)@, place as int) == Ok::<ContextState, Seq<char>>(
            final(draft)@,
        ),
        draft_ok(*final(draft), input.effective@),
{
    if let EventBody::UserPrompt(content) = &input.effective[place].body {
        draft.flush();
        draft.tell(user_prompt_envelope(content.as_str()).as_str());
        let first = match find_first_user_prompt(&input.edb.events) {
            Some(id) => id == input.effective[place].id,
            None => false,
        };
        if first {
            let told = system_prompt_injection_envelope(
                "set_title_required",
                input.first_prompt_reminder,
            );
            draft.tell(told.as_str());
        }
    }
}

fn push_calls(draft: &mut ContextDraft, input: &MainContextInput, place: usize, call: &ToolCall)
    requires
        place < input.effective@.len(),
        input.effective@[place as int].body == EventBody::ToolCall(*call),
        draft_ok(*old(draft), input.effective@),
    ensures
        context_step(*input, old(draft)@, place as int) == Ok::<ContextState, Seq<char>>(
            final(draft)@,
        ),
        draft_ok(*final(draft), input.effective@),
{
    if draft.batches.contains(&call.api_call_id) {
        return ;
    }
    draft.batches.insert(call.api_call_id);
    let calls = collect_batch(input.effective, call.api_call_id, input.catalog);
    let message = calling_value(draft.assistant.as_str(), calls);
    draft.assistant = String::new();
    assert(draft.assistant@ =~= Seq::<char>::empty());
    draft.push_message(message);
}

fn push_event(draft: &mut ContextDraft, input: &MainContextInput, place: usize) -> (done: Result<
    (),
    String,
>)
    requires
        place < input.effective@.len(),
        draft_ok(*old(draft), input.effective@),
        has_compact_texts(input.effective@, input.compacts@),
    ensures
        match context_step(*input, old(draft)@, place as int) {
            Ok(state) => done is Ok && final(draft)@ == state && draft_ok(
                *final(draft),
                input.effective@,
            ),
            Err(text) => match done {
                Ok(_) => false,
                Err(error) => error@ == text,
            },
        },
{
    let event = &input.effective[place];
    assert(*event == input.effective@[place as int]);
    match &event.body {
        EventBody::UserPrompt(_) => {
            push_user_prompt(draft, input, place);
        },
        EventBody::ManagerPrompt(content) => {
            draft.flush();
            draft.tell(manager_prompt_envelope(content.as_str()).as_str());
        },
        EventBody::ParentAgentPrompt(content) => {
            draft.flush();
            draft.tell(parent_agent_prompt_envelope(content.as_str()).as_str());
        },
        EventBody::FollowUpPrompt(prompt) => {
            draft.flush();
            draft.tell(follow_up_prompt_envelope(prompt.content.as_str()).as_str());
        },
        EventBody::AssistResponse(response) => {
            draft.assistant.append(response.content.as_str());
        },
        EventBody::ModelContextItem(item) => {
            draft.flush();
            match parse_json(item.content.as_str()) {
                Ok(value) => {
                    draft.push_message(provider_value(item.provider.as_str(), value));
                },
                Err(error) => return Err(error),
            }
        },
        EventBody::ToolCall(call) => {
            push_calls(draft, input, place, call);
        },
        EventBody::ToolInfoUpdate(info) => {
            draft.note_output(info);
        },
        EventBody::ImageContent(image) => {
            let ghost before = draft@.images;
            draft.images.insert(image.tool_call_id, place);
            assert(draft@.images == before.insert(image.tool_call_id, place));
        },
        EventBody::ToolCallResult(result) => {
            return push_tool_result(draft, input, event.id, result);
        },
        EventBody::WorkMapPendingReminder(_) => {
            draft.flush();
            let told = system_prompt_injection_envelope(
                "workmap_pending",
                WORKMAP_PENDING_REMINDER_PROMPT,
            );
            draft.tell(told.as_str());
        },
        EventBody::CompactStateUpdate(update) => {
            draft.flush();
            if update.state == CompactState::Completed {
                if let Some(texts) = find_compact_texts(input.compacts, event.id) {
                    return push_compact(draft, input, update, texts);
                }
            }
        },
        _ => {},
    }
    Ok(())
}

/// What a provider wants back, as a message.
pub fn provider_value(provider: &str, item: Json) -> (message: Json)
    ensures
        message@ == provider_message(provider@, item@),
{
    Json::object().with("_me_provider", Json::text(provider)).with("item", item)
}

fn find_last_title(events: &Vec<Event>) -> (place: Option<usize>)
    ensures
        match place {
            Some(found) => found < events@.len() && last_title(events@) == Some(
                events@[found as int],
            ) && events@[found as int].body is AgentTitleChanged,
            None => last_title(events@) is None,
        },
{
    let mut place: usize = events.len();
    assert(events@.take(place as int) =~= events@);
    while place > 0
        invariant
            place <= events@.len(),
            last_title(events@.take(place as int)) == last_title(events@),
        decreases place,
    {
        assert(events@.take(place as int).drop_last() =~= events@.take(place - 1));
        place -= 1;
        if let EventBody::AgentTitleChanged(_) = &events[place].body {
            return Some(place);
        }
    }
    None
}

fn find_first_result(events: &Vec<Event>, tool_call_id: EventId) -> (result: Option<
    &ToolCallResult,
>)
    ensures
        match result {
            Some(found) => first_result(events@, tool_call_id) == Some(*found),
            None => first_result(events@, tool_call_id) is None,
        },
{
    let mut place: usize = 0;
    assert(events@.skip(0) =~= events@);
    while place < events.len()
        invariant
            place <= events@.len(),
            first_result(events@.skip(place as int), tool_call_id) == first_result(
                events@,
                tool_call_id,
            ),
        decreases events@.len() - place,
    {
        assert(events@.skip(place as int).skip(1) =~= events@.skip(place + 1));
        if let EventBody::ToolCallResult(result) = &events[place].body {
            if result.tool_call_id == tool_call_id {
                return Some(result);
            }
        }
        place += 1;
    }
    None
}

fn find_id(events: &Vec<Event>, id: EventId) -> (found: bool)
    ensures
        found == has_id(events@, id),
{
    let mut place: usize = 0;
    while place < events.len()
        invariant
            place <= events@.len(),
            forall|i: int| 0 <= i < place ==> (#[trigger] events@[i]).id != id,
        decreases events@.len() - place,
    {
        if events[place].id == id {
            return true;
        }
        place += 1;
    }
    false
}

/// The messages of the call that set the title, where it is no longer among the events that count.
pub fn preserve_title_exchange_after_context_boundary(input: &MainContextInput) -> (result: Result<
    Vec<Json>,
    String,
>)
    ensures
        match result {
            Ok(messages) => title_exchange(*input) == Ok::<Seq<JsonView>, Seq<char>>(
                array_view(messages@),
            ),
            Err(error) => title_exchange(*input) == Err::<Seq<JsonView>, Seq<char>>(error@),
        },
{
    broadcast use lemma_array_items;

    let mut messages: Vec<Json> = Vec::new();
    assert(array_view(messages@) =~= Seq::<JsonView>::empty());
    let place = match find_last_title(&input.edb.events) {
        Some(place) => place,
        None => return Ok(messages),
    };
    let id = input.edb.events[place].id;
    let tool_call = match &input.edb.events[place].body {
        EventBody::AgentTitleChanged(change) => match change.tool_call_id {
            Some(tool_call) => tool_call,
            None => return Ok(messages),
        },
        _ => return Ok(messages),
    };
    if find_id(input.effective, id) {
        return Ok(messages);
    }
    let call = match find_tool_call(&input.edb.events, tool_call) {
        Some(call) => call,
        None => return Err(
            say2("Agent title change ", id, " references missing call ", tool_call, ""),
        ),
    };
    let result = match find_first_result(&input.edb.events, tool_call) {
        Some(result) => result,
        None => return Err(say1("committed SetTitle call ", tool_call, " has no tool result")),
    };
    if result.state != ToolResultState::Succeeded {
        return Err(say1("committed SetTitle call ", tool_call, " did not succeed"));
    }
    let shown = match input.title_form {
        Some(form) => form.copy(),
        None => {
            let updates = ToolUpdates { terminal: Vec::new(), other: Vec::new() };
            assert(updates@.terminal =~= Seq::<JsonView>::empty());
            assert(updates@.other =~= Seq::<JsonView>::empty());
            structured_of(
                updates,
                end_of(result.state, result.exit_code, Some(Json::text(input.title_success))),
            )
        },
    };
    let mut calls: Vec<Json> = Vec::new();
    calls.push(call_value(call, input.catalog));
    assert(array_view(calls@) =~= seq![call_view(*call, input.catalog)]);
    assert(""@ =~= Seq::<char>::empty()) by {
        reveal_strlit("");
    }
    let calling = calling_value("", calls);
    let answer = tool_value(call.provider_call_id.as_str(), &shown);
    let ghost exchange = seq![calling@, answer@];
    messages.push(calling);
    messages.push(answer);
    assert(array_view(messages@) =~= exchange);
    Ok(messages)
}

fn join_prompts(
    events: &Vec<Event>,
    parts: &PromptParts,
    agent_kind: AgentKind,
    profile: MainAgentProfile,
) -> (result: Result<String, String>)
    ensures
        match system_prompts(events@, events@.len() as int, parts@, agent_kind, profile) {
            Ok(prompts) => match result {
                Ok(text) => text@ == paragraphs(prompts),
                Err(_) => false,
            },
            Err(said) => match result {
                Ok(_) => false,
                Err(error) => error@ == said,
            },
        },
{
    let mut text = String::new();
    let mut started = false;
    let mut place: usize = 0;
    let ghost mut prompts: Seq<Seq<char>> = Seq::empty();
    assert(text@ =~= paragraphs(prompts));
    while place < events.len()
        invariant
            place <= events@.len(),
            system_prompts(events@, place as int, parts@, agent_kind, profile) == Ok::<
                Seq<Seq<char>>,
                Seq<char>,
            >(prompts),
            text@ == paragraphs(prompts),
            started == (prompts.len() > 0),
        decreases events@.len() - place,
    {
        if let EventBody::SystemPrompt(name) = &events[place].body {
            match resolve_main_system_prompt(name.as_str(), parts, agent_kind, profile) {
                Ok(prompt) => {
                    if started {
                        text.append("\n\n");
                    }
                    text.append(prompt.as_str());
                    started = true;
                    proof {
                        let more = prompts.push(prompt@);
                        assert(more.drop_last() =~= prompts);
                        assert(text@ =~= paragraphs(more));
                        prompts = more;
                    }
                },
                Err(error) => {
                    proof {
                        lemma_prompts_error_stays(
                            events@,
                            place + 1,
                            events@.len() as int,
                            parts@,
                            agent_kind,
                            profile,
                        );
                    }
                    return Err(error);
                },
            }
        }
        place += 1;
    }
    Ok(text)
}

fn project_messages(input: &MainContextInput, prompt: &str) -> (result: Result<Vec<Json>, String>)
    requires
        has_compact_texts(input.effective@, input.compacts@),
    ensures
        match result {
            Ok(messages) => main_messages(*input, prompt@) == Ok::<Seq<JsonView>, Seq<char>>(
                array_view(messages@),
            ),
            Err(error) => main_messages(*input, prompt@) == Err::<Seq<JsonView>, Seq<char>>(error@),
        },
{
    broadcast use lemma_array_items;

    if prompt.unicode_len() == 0 {
        return Err(NO_SYSTEM_PROMPT.to_owned());
    }
    let exchange = match preserve_title_exchange_after_context_boundary(input) {
        Ok(exchange) => exchange,
        Err(error) => return Err(error),
    };
    let mut context = ModelContext::default();
    context.push("system", prompt);
    let mut index: usize = 0;
    let ghost first = context.said();
    assert(first =~= seq![role_message("system"@, prompt@)]);
    while index < exchange.len()
        invariant
            index <= exchange@.len(),
            array_view(exchange@).len() == exchange@.len(),
            forall|i: int| 0 <= i < exchange@.len() ==> #[trigger] array_view(exchange@)[i]
                == exchange@[i]@,
            context.said() == first + array_view(exchange@).take(index as int),
        decreases exchange@.len() - index,
    {
        assert(array_view(exchange@).take(index + 1) =~= array_view(exchange@).take(
            index as int,
        ).push(exchange@[index as int]@));
        context.push_value(exchange[index].copy());
        index += 1;
    }
    assert(array_view(exchange@).take(index as int) =~= array_view(exchange@));
    let mut draft = ContextDraft {
        context,
        assistant: String::new(),
        outputs: HashMap::new(),
        images: HashMap::new(),
        batches: HashSet::new(),
        files: FileEditScopeProjection::new(),
    };
    let ghost start = context_start(first + array_view(exchange@));
    assert(draft@.assistant =~= Seq::<char>::empty());
    assert(draft@.outputs =~= Map::<EventId, UpdatesView>::empty());
    assert(draft@ == start);
    let mut place: usize = 0;
    while place < input.effective.len()
        invariant
            place <= input.effective@.len(),
            has_compact_texts(input.effective@, input.compacts@),
            draft_ok(draft, input.effective@),
            context_state(*input, start, place as int) == Ok::<ContextState, Seq<char>>(draft@),
            first_messages(*input, prompt@) == Ok::<Seq<JsonView>, Seq<char>>(start.messages),
            start == context_start(start.messages),
        decreases input.effective@.len() - place,
    {
        match push_event(&mut draft, input, place) {
            Ok(()) => {},
            Err(error) => {
                proof {
                    lemma_context_error_stays(
                        *input,
                        start,
                        place + 1,
                        input.effective@.len() as int,
                    );
                }
                return Err(error);
            },
        }
        place += 1;
    }
    draft.flush();
    Ok(draft.context.messages)
}

/// The conversation of a main agent as it is put before a model.
pub fn main_model_context(input: &MainContextInput) -> (result: Result<ModelContext, String>)
    requires
        has_compact_texts(input.effective@, input.compacts@),
    ensures
        match main_context(*input) {
            Ok(view) => match result {
                Ok(context) => context.said() == view.messages && context.offered() == view.tools,
                Err(_) => false,
            },
            Err(text) => match result {
                Ok(_) => false,
                Err(error) => error@ == text,
            },
        },
{
    let agent_kind = match agent_kind_definition(&input.edb.events) {
        Some(definition) => definition.kind,
        None => return Err(NO_AGENT_KIND.to_owned()),
    };
    let profile = find_profile(&input.edb.events);
    let is_worker = match profile {
        Some(MainAgentProfile::Worker) => true,
        _ => false,
    };
    let catalog = if agent_kind == AgentKind::SubAgent && !is_worker {
        input.restricted
    } else {
        input.catalog
    };
    let parts = PromptParts {
        toolbox_prompt: catalog.prompt.as_str(),
        parent_system_prompt: input.parent_system_prompt,
        title_prompt: input.title_prompt,
        environment_prompt: input.environment_prompt,
    };
    let counted = match profile {
        Some(found) => found,
        None => MainAgentProfile::Standard,
    };
    let prompt = match join_prompts(&input.edb.events, &parts, agent_kind, counted) {
        Ok(prompt) => prompt,
        Err(error) => return Err(error),
    };
    match project_messages(input, prompt.as_str()) {
        Ok(messages) => Ok(
            ModelContext { messages, tools: crate::model_api::copy_items(&catalog.definitions) },
        ),
        Err(error) => Err(error),
    }
}

/// The conversation of a chat bot after one more event.
pub open spec fn chat_step(state: ContextState, event: Event) -> Result<ContextState, Seq<char>> {
    match event.body {
        EventBody::UserPrompt(content) => Ok(state.flushed().told(content@)),
        EventBody::ManagerPrompt(content) => Ok(state.flushed().told(content@)),
        EventBody::ParentAgentPrompt(content) => Ok(state.flushed().told(content@)),
        EventBody::AssistResponse(response) => Ok(
            ContextState { assistant: state.assistant + response.content@, ..state },
        ),
        EventBody::ModelContextItem(item) => match json_read(item.content@) {
            Some(value) => Ok(
                state.flushed().with_message(provider_message(item.provider@, value)),
            ),
            None => Err(json_failure(item.content@)),
        },
        _ => Ok(state),
    }
}

/// The conversation of a chat bot after the first events.
pub open spec fn chat_state(effective: Seq<Event>, count: int) -> Result<ContextState, Seq<char>>
    decreases count,
{
    if count <= 0 {
        Ok(context_start(Seq::empty()))
    } else {
        match chat_state(effective, count - 1) {
            Err(error) => Err(error),
            Ok(state) => chat_step(state, effective[count - 1]),
        }
    }
}

proof fn lemma_chat_error_stays(effective: Seq<Event>, early: int, late: int)
    requires
        early <= late,
        chat_state(effective, early) is Err,
    ensures
        chat_state(effective, late) == chat_state(effective, early),
    decreases late - early,
{
    if early < late {
        lemma_chat_error_stays(effective, early, late - 1);
    }
}

/// How many events of the log come up to the one of the identity, with it.
pub fn context_end(edb: &EventDataBase, end_id: EventId) -> (result: Result<usize, String>)
    ensures
        match crate::event::order_of(edb@, end_id) {
            Some(order) => result == Ok::<usize, String>((order + 1) as usize) && order < edb@.len(),
            None => match result {
                Ok(_) => false,
                Err(error) => error@ == "ModelContext end event "@ + decimal(end_id as nat)
                    + " does not exist"@,
            },
        },
{
    let count = edb.len();
    match edb.order_of(end_id) {
        Some(order) => if order < count {
            Ok(order + 1)
        } else {
            Ok(count)
        },
        None => Err(say1("ModelContext end event ", end_id, " does not exist")),
    }
}

/// The conversation of a chat bot as it is put before a model. `effective` are the events that
/// still count of those up to the end of the context.
pub fn model_context(effective: &Vec<Event>) -> (result: Result<ModelContext, String>)
    ensures
        match chat_state(effective@, effective@.len() as int) {
            Ok(state) => match result {
                Ok(context) => context.said() == state.flushed().messages && context.offered()
                    == Seq::<JsonView>::empty(),
                Err(_) => false,
            },
            Err(text) => match result {
                Ok(_) => false,
                Err(error) => error@ == text,
            },
        },
{
    broadcast use lemma_array_items;

    let mut draft = ContextDraft {
        context: ModelContext::default(),
        assistant: String::new(),
        outputs: HashMap::new(),
        images: HashMap::new(),
        batches: HashSet::new(),
        files: FileEditScopeProjection::new(),
    };
    assert(draft@.messages =~= Seq::<JsonView>::empty());
    assert(draft@.assistant =~= Seq::<char>::empty());
    assert(draft@.outputs =~= Map::<EventId, UpdatesView>::empty());
    let mut place: usize = 0;
    while place < effective.len()
        invariant
            place <= effective@.len(),
            chat_state(effective@, place as int) == Ok::<ContextState, Seq<char>>(draft@),
        decreases effective@.len() - place,
    {
        match &effective[place].body {
            EventBody::UserPrompt(content) => {
                draft.flush();
                draft.tell(content.as_str());
            },
            EventBody::ManagerPrompt(content) => {
                draft.flush();
                draft.tell(content.as_str());
            },
            EventBody::ParentAgentPrompt(content) => {
                draft.flush();
                draft.tell(content.as_str());
            },
            EventBody::AssistResponse(response) => {
                draft.assistant.append(response.content.as_str());
            },
            EventBody::ModelContextItem(item) => {
                draft.flush();
                match parse_json(item.content.as_str()) {
                    Ok(value) => {
                        draft.push_message(provider_value(item.provider.as_str(), value));
                    },
                    Err(error) => {
                        proof {
                            lemma_chat_error_stays(
                                effective@,
                                place + 1,
                                effective@.len() as int,
                            );
                        }
                        return Err(error);
                    },
                }
            },
            _ => {},
        }
        place += 1;
    }
    draft.flush();
    let tools: Vec<Json> = Vec::new();
    assert(array_view(tools@) =~= Seq::<JsonView>::empty());
    Ok(ModelContext { messages: draft.context.messages, tools })
}

} // verus!
