//! Requests to models: what is sent, and which model is asked.
use vstd::prelude::*;

use crate::config::{ModelView, ProviderType, UNSET_EFFORT};
use crate::json::{
    array_view, get_in, json_get, json_in, json_items, json_text, json_u64, lemma_array_items,
    lemma_array_push, Json, JsonView,
};
use crate::stream::CODEX_PROVIDER;
use crate::text::{join3, same};

verus! {

/// The conversation that a request carries, and the tools that it offers.
#[derive(Debug)]
pub struct ModelContext {
    pub messages: Vec<Json>,
    pub tools: Vec<Json>,
}

/// A message of a role.
pub open spec fn role_message(role: Seq<char>, content: Seq<char>) -> JsonView {
    JsonView::Object(
        Map::empty().insert("role"@, JsonView::Text(role)).insert(
            "content"@,
            JsonView::Text(content),
        ),
    )
}

fn message_of(role: &str, content: &str) -> (message: Json)
    ensures
        message@ == role_message(role@, content@),
{
    Json::object().with("role", Json::text(role)).with("content", Json::text(content))
}

impl Default for ModelContext {
    fn default() -> (context: ModelContext)
        ensures
            context.messages@.len() == 0,
            context.tools@.len() == 0,
    {
        ModelContext { messages: Vec::new(), tools: Vec::new() }
    }
}

impl ModelContext {
    /// The messages.
    pub open spec fn said(&self) -> Seq<JsonView> {
        array_view(self.messages@)
    }

    /// The tools.
    pub open spec fn offered(&self) -> Seq<JsonView> {
        array_view(self.tools@)
    }

    /// A conversation of one message of the user.
    pub fn user(prompt: &str) -> (context: ModelContext)
        ensures
            context.said() == seq![role_message("user"@, prompt@)],
            context.offered() == Seq::<JsonView>::empty(),
    {
        let mut context = ModelContext::default();
        context.push("user", prompt);
        context
    }

    /// Appends a message of a role.
    pub fn push(&mut self, role: &str, content: &str)
        ensures
            final(self).said() == old(self).said().push(role_message(role@, content@)),
            final(self).tools == old(self).tools,
    {
        self.push_value(message_of(role, content));
    }

    /// Appends a message.
    pub fn push_value(&mut self, message: Json)
        ensures
            final(self).messages@ == old(self).messages@.push(message),
            final(self).said() == old(self).said().push(message@),
            final(self).tools == old(self).tools,
    {
        proof {
            lemma_array_push(self.messages@, message);
        }
        self.messages.push(message);
    }
}

/// What a request in the form of the Responses API is made of: what the system says, and the items
/// of the conversation.
pub struct ResponsesInput {
    pub instructions: Seq<Seq<char>>,
    pub input: Seq<JsonView>,
}

/// What is said where a text is missing.
pub open spec fn missing_text(pointer: Seq<char>) -> Seq<char> {
    "ModelContext item is missing "@ + pointer + ""@
}

/// The kind of a part of a text of the role.
pub open spec fn text_kind(role: Seq<char>) -> Seq<char> {
    if role == "assistant"@ {
        "output_text"@
    } else {
        "input_text"@
    }
}

/// A part of a message that is a text.
pub open spec fn text_part(role: Seq<char>, text: Seq<char>) -> JsonView {
    JsonView::Object(
        Map::empty().insert("type"@, JsonView::Text(text_kind(role))).insert(
            "text"@,
            JsonView::Text(text),
        ),
    )
}

/// What a part of a message becomes, if anything: texts stay texts, images of the user stay images.
pub open spec fn responses_part(part: JsonView, role: Seq<char>) -> Result<
    Option<JsonView>,
    Seq<char>,
> {
    match json_text(json_get(part, "type"@)) {
        None => Err("ModelContext content part has no type"@),
        Some(kind) => if kind == "text"@ || kind == "input_text"@ || kind == "output_text"@ {
            match json_text(json_get(part, "text"@)) {
                None => Err(missing_text("/text"@)),
                Some(text) => if text.len() == 0 {
                    Ok(None)
                } else {
                    Ok(Some(text_part(role, text)))
                },
            }
        } else if kind == "image_url"@ && role == "user"@ {
            match json_text(json_in(json_get(part, "image_url"@), "url"@)) {
                None => Err(missing_text("/image_url/url"@)),
                Some(url) => Ok(
                    Some(
                        JsonView::Object(
                            Map::empty().insert(
                                "type"@,
                                JsonView::Text("input_image"@),
                            ).insert("image_url"@, JsonView::Text(url)),
                        ),
                    ),
                ),
            }
        } else {
            Err("unsupported Codex Responses "@ + role + " content type "@ + kind + ""@)
        },
    }
}

/// What the first parts of a message become.
pub open spec fn responses_parts(parts: Seq<JsonView>, role: Seq<char>, count: int) -> Result<
    Seq<JsonView>,
    Seq<char>,
>
    decreases count,
{
    if count <= 0 {
        Ok(Seq::empty())
    } else {
        match responses_parts(parts, role, count - 1) {
            Err(error) => Err(error),
            Ok(before) => match responses_part(parts[count - 1], role) {
                Err(error) => Err(error),
                Ok(None) => Ok(before),
                Ok(Some(part)) => Ok(before.push(part)),
            },
        }
    }
}

/// The parts of a message of the user or of the model.
pub open spec fn message_parts(message: JsonView, role: Seq<char>) -> Result<
    Seq<JsonView>,
    Seq<char>,
> {
    match json_get(message, "content"@) {
        Some(JsonView::Text(content)) => if content.len() == 0 {
            Ok(Seq::empty())
        } else {
            Ok(seq![text_part(role, content)])
        },
        Some(JsonView::Array(parts)) => responses_parts(parts, role, parts.len() as int),
        _ => Ok(Seq::empty()),
    }
}

/// The item of a tool call.
pub open spec fn responses_call(call: JsonView) -> Result<JsonView, Seq<char>> {
    let function = json_get(call, "function"@);
    match json_text(json_get(call, "id"@)) {
        None => Err(missing_text("/id"@)),
        Some(id) => match json_text(json_in(function, "name"@)) {
            None => Err(missing_text("/function/name"@)),
            Some(name) => match json_text(json_in(function, "arguments"@)) {
                None => Err(missing_text("/function/arguments"@)),
                Some(arguments) => Ok(
                    JsonView::Object(
                        Map::empty().insert("type"@, JsonView::Text("function_call"@)).insert(
                            "call_id"@,
                            JsonView::Text(id),
                        ).insert("name"@, JsonView::Text(name)).insert(
                            "arguments"@,
                            JsonView::Text(arguments),
                        ),
                    ),
                ),
            },
        },
    }
}

/// The items of the first tool calls behind other items.
pub open spec fn responses_calls(input: Seq<JsonView>, calls: Seq<JsonView>, count: int) -> Result<
    Seq<JsonView>,
    Seq<char>,
>
    decreases count,
{
    if count <= 0 {
        Ok(input)
    } else {
        match responses_calls(input, calls, count - 1) {
            Err(error) => Err(error),
            Ok(before) => match responses_call(calls[count - 1]) {
                Err(error) => Err(error),
                Ok(item) => Ok(before.push(item)),
            },
        }
    }
}

/// The item of a message with its parts, if it has any.
pub open spec fn with_message(
    input: Seq<JsonView>,
    role: Seq<char>,
    parts: Seq<JsonView>,
) -> Seq<JsonView> {
    if parts.len() == 0 {
        input
    } else {
        input.push(
            JsonView::Object(
                Map::empty().insert("type"@, JsonView::Text("message"@)).insert(
                    "role"@,
                    JsonView::Text(role),
                ).insert("content"@, JsonView::Array(parts)),
            ),
        )
    }
}

/// What one message adds to a request.
pub open spec fn responses_step(state: ResponsesInput, message: JsonView) -> Result<
    ResponsesInput,
    Seq<char>,
> {
    match json_text(json_get(message, "_me_provider"@)) {
        Some(provider) => if provider == CODEX_PROVIDER@ {
            match json_get(message, "item"@) {
                Some(item) => Ok(ResponsesInput { input: state.input.push(item), ..state }),
                None => Err("Codex provider context message has no item"@),
            }
        } else {
            Ok(state)
        },
        None => match json_text(json_get(message, "role"@)) {
            None => Err("ModelContext message has no role"@),
            Some(role) => if role == "system"@ {
                match json_text(json_get(message, "content"@)) {
                    Some(content) => if content.len() == 0 {
                        Ok(state)
                    } else {
                        Ok(
                            ResponsesInput {
                                instructions: state.instructions.push(content),
                                ..state
                            },
                        )
                    },
                    None => Ok(state),
                }
            } else if role == "user"@ || role == "assistant"@ {
                match message_parts(message, role) {
                    Err(error) => Err(error),
                    Ok(parts) => {
                        let input = with_message(state.input, role, parts);
                        match json_items(json_get(message, "tool_calls"@)) {
                            Some(calls) => if role == "assistant"@ {
                                match responses_calls(input, calls, calls.len() as int) {
                                    Err(error) => Err(error),
                                    Ok(input) => Ok(ResponsesInput { input, ..state }),
                                }
                            } else {
                                Ok(ResponsesInput { input, ..state })
                            },
                            None => Ok(ResponsesInput { input, ..state }),
                        }
                    },
                }
            } else if role == "tool"@ {
                match json_text(json_get(message, "tool_call_id"@)) {
                    None => Err(missing_text("/tool_call_id"@)),
                    Some(id) => match json_text(json_get(message, "content"@)) {
                        None => Err(missing_text("/content"@)),
                        Some(output) => Ok(
                            ResponsesInput {
                                input: state.input.push(
                                    JsonView::Object(
                                        Map::empty().insert(
                                            "type"@,
                                            JsonView::Text("function_call_output"@),
                                        ).insert("call_id"@, JsonView::Text(id)).insert(
                                            "output"@,
                                            JsonView::Text(output),
                                        ),
                                    ),
                                ),
                                ..state
                            },
                        ),
                    },
                }
            } else {
                Err("unsupported ModelContext role "@ + role + ""@)
            },
        },
    }
}

/// What the first messages make of a request.
pub open spec fn responses_state(messages: Seq<JsonView>, count: int) -> Result<
    ResponsesInput,
    Seq<char>,
>
    decreases count,
{
    if count <= 0 {
        Ok(ResponsesInput { instructions: Seq::empty(), input: Seq::empty() })
    } else {
        match responses_state(messages, count - 1) {
            Err(error) => Err(error),
            Ok(state) => responses_step(state, messages[count - 1]),
        }
    }
}

proof fn lemma_responses_error_stays(messages: Seq<JsonView>, early: int, late: int)
    requires
        early <= late,
        responses_state(messages, early) is Err,
    ensures
        responses_state(messages, late) == responses_state(messages, early),
    decreases late - early,
{
    if early < late {
        lemma_responses_error_stays(messages, early, late - 1);
    }
}

proof fn lemma_parts_error_stays(parts: Seq<JsonView>, role: Seq<char>, early: int, late: int)
    requires
        early <= late,
        responses_parts(parts, role, early) is Err,
    ensures
        responses_parts(parts, role, late) == responses_parts(parts, role, early),
    decreases late - early,
{
    if early < late {
        lemma_parts_error_stays(parts, role, early, late - 1);
    }
}

proof fn lemma_calls_error_stays(
    input: Seq<JsonView>,
    calls: Seq<JsonView>,
    early: int,
    late: int,
)
    requires
        early <= late,
        responses_calls(input, calls, early) is Err,
    ensures
        responses_calls(input, calls, late) == responses_calls(input, calls, early),
    decreases late - early,
{
    if early < late {
        lemma_calls_error_stays(input, calls, early, late - 1);
    }
}

/// Texts in a row, with an empty line between any two.
pub open spec fn paragraphs(texts: Seq<Seq<char>>) -> Seq<char>
    decreases texts.len(),
{
    if texts.len() == 0 {
        Seq::empty()
    } else if texts.len() == 1 {
        texts[0]
    } else {
        paragraphs(texts.drop_last()) + "\n\n"@ + texts.last()
    }
}

fn missing(pointer: &str) -> (text: String)
    ensures
        text@ == missing_text(pointer@),
{
    join3("ModelContext item is missing ", pointer, "")
}

fn text_part_of(role: &str, text: &str) -> (part: Json)
    ensures
        part@ == text_part(role@, text@),
{
    let kind = if same(role, "assistant") {
        "output_text"
    } else {
        "input_text"
    };
    Json::object().with("type", Json::text(kind)).with("text", Json::text(text))
}

fn part_of(part: &Json, role: &str) -> (result: Result<Option<Json>, String>)
    ensures
        match result {
            Ok(Some(found)) => responses_part(part@, role@) == Ok::<Option<JsonView>, Seq<char>>(
                Some(found@),
            ),
            Ok(None) => responses_part(part@, role@) == Ok::<Option<JsonView>, Seq<char>>(None),
            Err(error) => responses_part(part@, role@) == Err::<Option<JsonView>, Seq<char>>(
                error@,
            ),
        },
{
    let kind = match part.text_at("type") {
        Some(kind) => kind,
        None => return Err("ModelContext content part has no type".to_owned()),
    };
    if same(kind, "text") || same(kind, "input_text") || same(kind, "output_text") {
        match part.text_at("text") {
            None => Err(missing("/text")),
            Some(text) => if text.unicode_len() == 0 {
                Ok(None)
            } else {
                Ok(Some(text_part_of(role, text)))
            },
        }
    } else if same(kind, "image_url") && same(role, "user") {
        match crate::json::text_in(get_in(part.get("image_url"), "url")) {
            None => Err(missing("/image_url/url")),
            Some(url) => Ok(
                Some(
                    Json::object().with("type", Json::text("input_image")).with(
                        "image_url",
                        Json::text(url),
                    ),
                ),
            ),
        }
    } else {
        let mut text = join3("unsupported Codex Responses ", role, " content type ");
        text.append(kind);
        text.append("");
        Err(text)
    }
}

fn parts_of(parts: &Vec<Json>, role: &str) -> (result: Result<Vec<Json>, String>)
    ensures
        match result {
            Ok(found) => responses_parts(array_view(parts@), role@, parts@.len() as int) == Ok::<
                Seq<JsonView>,
                Seq<char>,
            >(array_view(found@)),
            Err(error) => responses_parts(array_view(parts@), role@, parts@.len() as int) == Err::<
                Seq<JsonView>,
                Seq<char>,
            >(error@),
        },
{
    broadcast use lemma_array_items;

    let mut found: Vec<Json> = Vec::new();
    let ghost all = array_view(parts@);
    let mut place: usize = 0;
    while place < parts.len()
        invariant
            place <= parts@.len(),
            all == array_view(parts@),
            forall|i: int| 0 <= i < parts@.len() ==> #[trigger] all[i] == parts@[i]@,
            responses_parts(all, role@, place as int) == Ok::<Seq<JsonView>, Seq<char>>(
                array_view(found@),
            ),
        decreases parts@.len() - place,
    {
        assert(all[place as int] == parts@[place as int]@);
        match part_of(&parts[place], role) {
            Err(error) => {
                proof {
                    lemma_parts_error_stays(all, role@, place + 1, parts@.len() as int);
                }
                return Err(error);
            },
            Ok(None) => {},
            Ok(Some(part)) => {
                proof {
                    lemma_array_push(found@, part);
                }
                found.push(part);
            },
        }
        place += 1;
    }
    Ok(found)
}

fn message_parts_of(message: &Json, role: &str) -> (result: Result<Vec<Json>, String>)
    ensures
        match result {
            Ok(found) => message_parts(message@, role@) == Ok::<Seq<JsonView>, Seq<char>>(
                array_view(found@),
            ),
            Err(error) => message_parts(message@, role@) == Err::<Seq<JsonView>, Seq<char>>(error@),
        },
{
    broadcast use lemma_array_items;

    let mut none: Vec<Json> = Vec::new();
    match message.get("content") {
        Some(Json::Text(content)) => {
            if content.as_str().unicode_len() > 0 {
                let part = text_part_of(role, content.as_str());
                proof {
                    lemma_array_push(none@, part);
                }
                none.push(part);
                assert(array_view(none@) =~= seq![text_part(role@, content@)]);
            }
            Ok(none)
        },
        Some(Json::Array(parts)) => parts_of(parts, role),
        _ => Ok(none),
    }
}

fn call_of(call: &Json) -> (result: Result<Json, String>)
    ensures
        match result {
            Ok(item) => responses_call(call@) == Ok::<JsonView, Seq<char>>(item@),
            Err(error) => responses_call(call@) == Err::<JsonView, Seq<char>>(error@),
        },
{
    let function = call.get("function");
    let id = match call.text_at("id") {
        Some(id) => id,
        None => return Err(missing("/id")),
    };
    let name = match crate::json::text_in(get_in(function, "name")) {
        Some(name) => name,
        None => return Err(missing("/function/name")),
    };
    let arguments = match crate::json::text_in(get_in(function, "arguments")) {
        Some(arguments) => arguments,
        None => return Err(missing("/function/arguments")),
    };
    Ok(
        Json::object().with("type", Json::text("function_call")).with(
            "call_id",
            Json::text(id),
        ).with("name", Json::text(name)).with("arguments", Json::text(arguments)),
    )
}

fn push_calls(input: &mut Vec<Json>, calls: &Vec<Json>) -> (result: Result<(), String>)
    ensures
        match result {
            Ok(_) => responses_calls(
                array_view(old(input)@),
                array_view(calls@),
                calls@.len() as int,
            ) == Ok::<Seq<JsonView>, Seq<char>>(array_view(final(input)@)),
            Err(error) => responses_calls(
                array_view(old(input)@),
                array_view(calls@),
                calls@.len() as int,
            ) == Err::<Seq<JsonView>, Seq<char>>(error@),
        },
{
    broadcast use lemma_array_items;

    let ghost all = array_view(calls@);
    let ghost start = array_view(input@);
    let mut place: usize = 0;
    while place < calls.len()
        invariant
            place <= calls@.len(),
            all == array_view(calls@),
            start == array_view(old(input)@),
            forall|i: int| 0 <= i < calls@.len() ==> #[trigger] all[i] == calls@[i]@,
            responses_calls(start, all, place as int) == Ok::<Seq<JsonView>, Seq<char>>(
                array_view(input@),
            ),
        decreases calls@.len() - place,
    {
        assert(all[place as int] == calls@[place as int]@);
        match call_of(&calls[place]) {
            Err(error) => {
                proof {
                    lemma_calls_error_stays(start, all, place + 1, calls@.len() as int);
                }
                return Err(error);
            },
            Ok(item) => {
                proof {
                    lemma_array_push(input@, item);
                }
                input.push(item);
            },
        }
        place += 1;
    }
    Ok(())
}

/// A request under way.
struct ResponsesDraft {
    instructions: String,
    started: bool,
    input: Vec<Json>,
}

spec fn drafts(draft: ResponsesDraft, state: ResponsesInput) -> bool {
    &&& draft.instructions@ == paragraphs(state.instructions)
    &&& draft.started == (state.instructions.len() > 0)
    &&& array_view(draft.input@) == state.input
}

proof fn lemma_paragraphs_push(texts: Seq<Seq<char>>, text: Seq<char>)
    ensures
        paragraphs(texts.push(text)) == (if texts.len() == 0 {
            text
        } else {
            paragraphs(texts) + "\n\n"@ + text
        }),
{
    assert(texts.push(text).drop_last() =~= texts);
}

fn push_instruction(draft: &mut ResponsesDraft, content: &str, Ghost(state): Ghost<ResponsesInput>)
    requires
        drafts(*old(draft), state),
    ensures
        drafts(
            *final(draft),
            ResponsesInput { instructions: state.instructions.push(content@), ..state },
        ),
{
    proof {
        lemma_paragraphs_push(state.instructions, content@);
    }
    if draft.started {
        draft.instructions.append("\n\n");
    }
    draft.instructions.append(content);
    draft.started = true;
    assert(draft.instructions@ =~= paragraphs(state.instructions.push(content@)));
}

fn push_message(draft: &mut ResponsesDraft, message: &Json, Ghost(state): Ghost<ResponsesInput>) -> (
result: Result<(), String>)
    requires
        drafts(*old(draft), state),
    ensures
        match result {
            Ok(_) => match responses_step(state, message@) {
                Ok(next) => drafts(*final(draft), next),
                Err(_) => false,
            },
            Err(error) => responses_step(state, message@) == Err::<ResponsesInput, Seq<char>>(
                error@,
            ),
        },
{
    broadcast use lemma_array_items;

    if let Some(provider) = message.text_at("_me_provider") {
        if same(provider, CODEX_PROVIDER) {
            match message.get("item") {
                Some(item) => {
                    let item = item.copy();
                    proof {
                        lemma_array_push(draft.input@, item);
                    }
                    draft.input.push(item);
                },
                None => return Err("Codex provider context message has no item".to_owned()),
            }
        }
        return Ok(());
    }
    let role = match message.text_at("role") {
        Some(role) => role,
        None => return Err("ModelContext message has no role".to_owned()),
    };
    if same(role, "system") {
        if let Some(content) = message.text_at("content") {
            if content.unicode_len() > 0 {
                push_instruction(draft, content, Ghost(state));
            }
        }
        return Ok(());
    }
    if same(role, "user") || same(role, "assistant") {
        let parts = match message_parts_of(message, role) {
            Ok(parts) => parts,
            Err(error) => return Err(error),
        };
        if parts.len() > 0 {
            let item = Json::object().with("type", Json::text("message")).with(
                "role",
                Json::text(role),
            ).with("content", Json::Array(parts));
            proof {
                lemma_array_push(draft.input@, item);
            }
            draft.input.push(item);
        }
        if same(role, "assistant") {
            if let Some(value) = message.get("tool_calls") {
                if let Some(calls) = value.as_array() {
                    return push_calls(&mut draft.input, calls);
                }
            }
        }
        return Ok(());
    }
    if same(role, "tool") {
        let id = match message.text_at("tool_call_id") {
            Some(id) => id,
            None => return Err(missing("/tool_call_id")),
        };
        let output = match message.text_at("content") {
            Some(output) => output,
            None => return Err(missing("/content")),
        };
        let item = Json::object().with("type", Json::text("function_call_output")).with(
            "call_id",
            Json::text(id),
        ).with("output", Json::text(output));
        proof {
            lemma_array_push(draft.input@, item);
        }
        draft.input.push(item);
        return Ok(());
    }
    Err(join3("unsupported ModelContext role ", role, ""))
}

/// The conversation in the form of the Responses API: what the system says, and the items.
pub fn responses_input(messages: &Vec<Json>) -> (result: Result<(String, Vec<Json>), String>)
    ensures
        match responses_state(array_view(messages@), messages@.len() as int) {
            Ok(state) => match result {
                Ok((instructions, input)) => instructions@ == paragraphs(state.instructions)
                    && array_view(input@) == state.input,
                Err(_) => false,
            },
            Err(text) => match result {
                Ok(_) => false,
                Err(error) => error@ == text,
            },
        },
{
    broadcast use lemma_array_items;

    let ghost all = array_view(messages@);
    let input: Vec<Json> = Vec::new();
    let mut draft = ResponsesDraft { instructions: String::new(), started: false, input };
    assert(draft.instructions@ =~= Seq::<char>::empty());
    assert(array_view(draft.input@) =~= Seq::<JsonView>::empty());
    let mut place: usize = 0;
    while place < messages.len()
        invariant
            place <= messages@.len(),
            all == array_view(messages@),
            forall|i: int| 0 <= i < messages@.len() ==> #[trigger] all[i] == messages@[i]@,
            match responses_state(all, place as int) {
                Ok(state) => drafts(draft, state),
                Err(_) => false,
            },
        decreases messages@.len() - place,
    {
        assert(all[place as int] == messages@[place as int]@);
        let ghost state = responses_state(all, place as int)->Ok_0;
        match push_message(&mut draft, &messages[place], Ghost(state)) {
            Ok(()) => {},
            Err(error) => {
                proof {
                    lemma_responses_error_stays(all, place + 1, messages@.len() as int);
                }
                return Err(error);
            },
        }
        place += 1;
    }
    Ok((draft.instructions, draft.input))
}

/// An entry that must be there, or what is said where it is not.
pub open spec fn needed(value: Option<JsonView>, said: Seq<char>) -> Result<JsonView, Seq<char>> {
    match value {
        Some(found) => Ok(found),
        None => Err(said),
    }
}

/// A tool in the form of the Responses API.
pub open spec fn responses_tool(tool: JsonView) -> Result<JsonView, Seq<char>> {
    if json_text(json_get(tool, "type"@)) != Some("function"@) {
        Err("Codex Responses only supports function tools"@)
    } else {
        match json_get(tool, "function"@) {
            Some(JsonView::Object(entries)) => {
                let function = JsonView::Object(entries);
                match needed(json_get(function, "name"@), "function tool has no name"@) {
                    Err(said) => Err(said),
                    Ok(name) => match needed(
                        json_get(function, "parameters"@),
                        "function tool has no parameters"@,
                    ) {
                        Err(said) => Err(said),
                        Ok(parameters) => Ok(
                            JsonView::Object(
                                Map::empty().insert("type"@, JsonView::Text("function"@)).insert(
                                    "name"@,
                                    name,
                                ).insert(
                                    "description"@,
                                    match json_get(function, "description"@) {
                                        Some(description) => description,
                                        None => JsonView::Text(""@),
                                    },
                                ).insert("parameters"@, parameters).insert(
                                    "strict"@,
                                    match json_get(function, "strict"@) {
                                        Some(strict) => strict,
                                        None => JsonView::Bool(false),
                                    },
                                ),
                            ),
                        ),
                    },
                }
            },
            _ => Err("function tool has no function object"@),
        }
    }
}

/// The first tools in the form of the Responses API.
pub open spec fn responses_tool_list(tools: Seq<JsonView>, count: int) -> Result<
    Seq<JsonView>,
    Seq<char>,
>
    decreases count,
{
    if count <= 0 {
        Ok(Seq::empty())
    } else {
        match responses_tool_list(tools, count - 1) {
            Err(error) => Err(error),
            Ok(before) => match responses_tool(tools[count - 1]) {
                Err(error) => Err(error),
                Ok(tool) => Ok(before.push(tool)),
            },
        }
    }
}

proof fn lemma_tools_error_stays(tools: Seq<JsonView>, early: int, late: int)
    requires
        early <= late,
        responses_tool_list(tools, early) is Err,
    ensures
        responses_tool_list(tools, late) == responses_tool_list(tools, early),
    decreases late - early,
{
    if early < late {
        lemma_tools_error_stays(tools, early, late - 1);
    }
}

fn tool_of(tool: &Json) -> (result: Result<Json, String>)
    ensures
        match result {
            Ok(found) => responses_tool(tool@) == Ok::<JsonView, Seq<char>>(found@),
            Err(error) => responses_tool(tool@) == Err::<JsonView, Seq<char>>(error@),
        },
{
    let is_function = match tool.text_at("type") {
        Some(kind) => same(kind, "function"),
        None => false,
    };
    if !is_function {
        return Err("Codex Responses only supports function tools".to_owned());
    }
    let function = match tool.get("function") {
        Some(function) => function,
        None => return Err("function tool has no function object".to_owned()),
    };
    if !function.is_object() {
        return Err("function tool has no function object".to_owned());
    }
    let name = match function.get("name") {
        Some(name) => name.copy(),
        None => return Err("function tool has no name".to_owned()),
    };
    let parameters = match function.get("parameters") {
        Some(parameters) => parameters.copy(),
        None => return Err("function tool has no parameters".to_owned()),
    };
    let description = match function.get("description") {
        Some(description) => description.copy(),
        None => Json::text(""),
    };
    let strict = match function.get("strict") {
        Some(strict) => strict.copy(),
        None => Json::Bool(false),
    };
    Ok(
        Json::object().with("type", Json::text("function")).with("name", name).with(
            "description",
            description,
        ).with("parameters", parameters).with("strict", strict),
    )
}

/// The tools in the form of the Responses API.
pub fn responses_tools(tools: &Vec<Json>) -> (result: Result<Vec<Json>, String>)
    ensures
        match result {
            Ok(found) => responses_tool_list(array_view(tools@), tools@.len() as int) == Ok::<
                Seq<JsonView>,
                Seq<char>,
            >(array_view(found@)),
            Err(error) => responses_tool_list(array_view(tools@), tools@.len() as int) == Err::<
                Seq<JsonView>,
                Seq<char>,
            >(error@),
        },
{
    broadcast use lemma_array_items;

    let ghost all = array_view(tools@);
    let mut found: Vec<Json> = Vec::new();
    let mut place: usize = 0;
    while place < tools.len()
        invariant
            place <= tools@.len(),
            all == array_view(tools@),
            forall|i: int| 0 <= i < tools@.len() ==> #[trigger] all[i] == tools@[i]@,
            responses_tool_list(all, place as int) == Ok::<Seq<JsonView>, Seq<char>>(
                array_view(found@),
            ),
        decreases tools@.len() - place,
    {
        assert(all[place as int] == tools@[place as int]@);
        match tool_of(&tools[place]) {
            Err(error) => {
                proof {
                    lemma_tools_error_stays(all, place + 1, tools@.len() as int);
                }
                return Err(error);
            },
            Ok(tool) => {
                proof {
                    lemma_array_push(found@, tool);
                }
                found.push(tool);
            },
        }
        place += 1;
    }
    Ok(found)
}

/// What is said of parameters that are no table.
pub const NOT_A_TABLE: &'static str = "model parameters must be a table";

/// What is said of an effort that a model does not take.
pub open spec fn unsupported_effort(model: Seq<char>, effort: Seq<char>) -> Seq<char> {
    ("model "@ + model + " does not support reasoning effort "@) + effort + ""@
}

/// The messages that are meant for every provider.
pub open spec fn common_messages(messages: Seq<JsonView>) -> Seq<JsonView>
    decreases messages.len(),
{
    if messages.len() == 0 {
        Seq::empty()
    } else {
        let before = common_messages(messages.drop_last());
        if json_get(messages.last(), "_me_provider"@) is None {
            before.push(messages.last())
        } else {
            before
        }
    }
}

/// The parameters of a request under an effort.
pub open spec fn request_parameters(model: ModelView, effort: Option<Seq<char>>) -> Result<
    Map<Seq<char>, JsonView>,
    Seq<char>,
> {
    match model.parameters {
        JsonView::Object(parameters) => if effort matches Some(named) && !model.takes_effort(
            named,
        ) {
            Err(unsupported_effort(model.name, effort->0))
        } else {
            match model.effort_table(effort) {
                None => Ok(parameters),
                Some(JsonView::Object(more)) => Ok(parameters.union_prefer_right(more)),
                Some(_) => Err(NOT_A_TABLE@),
            }
        },
        _ => Err(NOT_A_TABLE@),
    }
}

/// A request that streams also asks for the tokens that it takes.
pub open spec fn with_stream_usage(body: Map<Seq<char>, JsonView>) -> Result<
    Map<Seq<char>, JsonView>,
    Seq<char>,
> {
    match json_get(JsonView::Object(body), "stream_options"@) {
        None => Ok(
            body.insert(
                "stream_options"@,
                JsonView::Object(Map::empty().insert("include_usage"@, JsonView::Bool(true))),
            ),
        ),
        Some(JsonView::Object(options)) => Ok(
            body.insert(
                "stream_options"@,
                JsonView::Object(options.insert("include_usage"@, JsonView::Bool(true))),
            ),
        ),
        Some(_) => Err("model parameter stream_options must be an object"@),
    }
}

/// The body of a request in the form of chat completions.
pub open spec fn chat_body(
    model: ModelView,
    messages: Seq<JsonView>,
    tools: Seq<JsonView>,
    effort: Option<Seq<char>>,
    stream: bool,
) -> Result<JsonView, Seq<char>> {
    match request_parameters(model, effort) {
        Err(error) => Err(error),
        Ok(parameters) => {
            let body = parameters.insert("model"@, JsonView::Text(model.model)).insert(
                "messages"@,
                JsonView::Array(common_messages(messages)),
            ).insert("stream"@, JsonView::Bool(stream));
            let streamed = if stream {
                with_stream_usage(body)
            } else {
                Ok(body)
            };
            match streamed {
                Err(error) => Err(error),
                Ok(body) => Ok(
                    JsonView::Object(
                        if tools.len() == 0 {
                            body
                        } else {
                            body.insert("tools"@, JsonView::Array(tools)).insert(
                                "parallel_tool_calls"@,
                                JsonView::Bool(true),
                            )
                        },
                    ),
                ),
            }
        },
    }
}

/// How an effort is asked for in the form of the Responses API.
pub open spec fn reasoning(effort: Seq<char>) -> JsonView {
    JsonView::Object(
        Map::empty().insert("effort"@, JsonView::Text(effort)).insert(
            "summary"@,
            JsonView::Text("auto"@),
        ),
    )
}

/// The body of a request in the form of the Responses API.
pub open spec fn codex_body(
    model: ModelView,
    messages: Seq<JsonView>,
    tools: Seq<JsonView>,
    effort: Option<Seq<char>>,
    stream: bool,
) -> Result<JsonView, Seq<char>> {
    match model.parameters {
        JsonView::Object(parameters) => match responses_state(messages, messages.len() as int) {
            Err(error) => Err(error),
            Ok(state) => match responses_tool_list(tools, tools.len() as int) {
                Err(error) => Err(error),
                Ok(offered) => if effort matches Some(named) && !model.takes_effort(named) {
                    Err(unsupported_effort(model.name, effort->0))
                } else {
                    let asked = match effort {
                        Some(named) => if named == UNSET_EFFORT@ {
                            parameters
                        } else {
                            parameters.insert("reasoning"@, reasoning(named))
                        },
                        None => parameters,
                    };
                    let body = asked.insert("model"@, JsonView::Text(model.model)).insert(
                        "instructions"@,
                        JsonView::Text(paragraphs(state.instructions)),
                    ).insert("input"@, JsonView::Array(state.input)).insert(
                        "stream"@,
                        JsonView::Bool(stream),
                    ).insert("store"@, JsonView::Bool(false)).insert(
                        "include"@,
                        JsonView::Array(seq![JsonView::Text("reasoning.encrypted_content"@)]),
                    );
                    Ok(
                        JsonView::Object(
                            if offered.len() == 0 {
                                body
                            } else {
                                body.insert("tools"@, JsonView::Array(offered)).insert(
                                    "tool_choice"@,
                                    JsonView::Text("auto"@),
                                ).insert("parallel_tool_calls"@, JsonView::Bool(true))
                            },
                        ),
                    )
                },
            },
        },
        _ => Err(NOT_A_TABLE@),
    }
}

/// The body of a request to a model.
pub open spec fn body_of(
    model: ModelView,
    messages: Seq<JsonView>,
    tools: Seq<JsonView>,
    effort: Option<Seq<char>>,
    stream: bool,
) -> Result<JsonView, Seq<char>> {
    if model.provider == ProviderType::CodexOauth {
        codex_body(model, messages, tools, effort, stream)
    } else {
        chat_body(model, messages, tools, effort, stream)
    }
}

/// Whether this is the body that is owed.
pub open spec fn is_body(result: Result<Json, String>, owed: Result<JsonView, Seq<char>>) -> bool {
    match result {
        Ok(body) => owed == Ok::<JsonView, Seq<char>>(body@),
        Err(error) => owed == Err::<JsonView, Seq<char>>(error@),
    }
}

/// Sets a bound of the answer that is larger than the limit to the limit.
pub open spec fn clamped_at(body: Map<Seq<char>, JsonView>, name: Seq<char>, limit: u64) -> Map<
    Seq<char>,
    JsonView,
> {
    match json_u64(json_get(JsonView::Object(body), name)) {
        Some(current) => if current > limit {
            body.insert(name, JsonView::Integer(limit as int))
        } else {
            body
        },
        None => body,
    }
}

/// A body with each bound of the answer at the limit at most.
pub open spec fn clamped(body: Map<Seq<char>, JsonView>, limit: u64) -> Map<Seq<char>, JsonView> {
    clamped_at(
        clamped_at(clamped_at(body, "max_output_tokens"@, limit), "max_completion_tokens"@, limit),
        "max_tokens"@,
        limit,
    )
}

/// What is said of a body that is no object.
pub const BODY_NOT_AN_OBJECT: &'static str = "model request body must be an object";

fn clamp_one(body: &mut Json, name: &str, limit: u64)
    requires
        old(body)@ is Object,
    ensures
        final(body)@ == JsonView::Object(clamped_at(old(body)@->Object_0, name@, limit)),
{
    if let Some(current) = body.u64_at(name) {
        if current > limit {
            body.insert(name, Json::Unsigned(limit));
        }
    }
}

/// Sets each bound of the answer that is larger than the limit to the limit. No bound is added.
pub fn clamp_output_limit(body: &mut Json, limit: u64) -> (result: Result<(), String>)
    ensures
        match old(body)@ {
            JsonView::Object(entries) => result is Ok && final(body)@ == JsonView::Object(
                clamped(entries, limit),
            ),
            _ => match result {
                Ok(_) => false,
                Err(error) => error@ == BODY_NOT_AN_OBJECT@ && final(body)@ == old(body)@,
            },
        },
{
    if !body.is_object() {
        return Err(BODY_NOT_AN_OBJECT.to_owned());
    }
    clamp_one(body, "max_output_tokens", limit);
    clamp_one(body, "max_completion_tokens", limit);
    clamp_one(body, "max_tokens", limit);
    Ok(())
}

proof fn lemma_clamped_at(
    body: Map<Seq<char>, JsonView>,
    name: Seq<char>,
    limit: u64,
    key: Seq<char>,
)
    ensures
        clamped_at(body, name, limit).dom() == body.dom(),
        key != name ==> json_get(JsonView::Object(clamped_at(body, name, limit)), key) == json_get(
            JsonView::Object(body),
            key,
        ),
        match json_u64(json_get(JsonView::Object(body), name)) {
            Some(current) => json_u64(
                json_get(JsonView::Object(clamped_at(body, name, limit)), name),
            ) == Some(
                if current > limit {
                    limit
                } else {
                    current
                },
            ),
            None => clamped_at(body, name, limit) == body,
        },
{
    assert(clamped_at(body, name, limit).dom() =~= body.dom());
}

/// Limiting the answer adds no entry and drops none, leaves every entry but the three bounds as it
/// is, and never raises a bound.
pub proof fn law_limit_only_lowers_bounds(
    body: Map<Seq<char>, JsonView>,
    limit: u64,
    key: Seq<char>,
)
    ensures
        clamped(body, limit).dom() == body.dom(),
        key != "max_output_tokens"@ && key != "max_completion_tokens"@ && key != "max_tokens"@
            ==> json_get(JsonView::Object(clamped(body, limit)), key) == json_get(
            JsonView::Object(body),
            key,
        ),
        match (
            json_u64(json_get(JsonView::Object(body), key)),
            json_u64(json_get(JsonView::Object(clamped(body, limit)), key)),
        ) {
            (Some(before), Some(after)) => after <= before && (after == before || after == limit),
            (before, after) => before is None && json_get(
                JsonView::Object(clamped(body, limit)),
                key,
            ) == json_get(JsonView::Object(body), key),
        },
        (key == "max_output_tokens"@ || key == "max_completion_tokens"@ || key == "max_tokens"@)
            ==> (json_u64(json_get(JsonView::Object(clamped(body, limit)), key)) matches Some(
            after,
        ) ==> after <= limit),
{
    let one = clamped_at(body, "max_output_tokens"@, limit);
    let two = clamped_at(one, "max_completion_tokens"@, limit);
    lemma_clamped_at(body, "max_output_tokens"@, limit, key);
    lemma_clamped_at(one, "max_completion_tokens"@, limit, key);
    lemma_clamped_at(two, "max_tokens"@, limit, key);
    lemma_clamped_at(one, "max_completion_tokens"@, limit, "max_output_tokens"@);
    lemma_clamped_at(two, "max_tokens"@, limit, "max_output_tokens"@);
    lemma_clamped_at(two, "max_tokens"@, limit, "max_completion_tokens"@);
    reveal_strlit("max_output_tokens");
    reveal_strlit("max_completion_tokens");
    reveal_strlit("max_tokens");
    assert("max_output_tokens"@.len() == 17);
    assert("max_completion_tokens"@.len() == 21);
    assert("max_tokens"@.len() == 10);
}

/// Limiting the answer twice is the same as limiting it once.
pub proof fn law_limit_twice_is_once(body: Map<Seq<char>, JsonView>, limit: u64)
    ensures
        clamped(clamped(body, limit), limit) == clamped(body, limit),
{
    let once = clamped(body, limit);
    law_limit_only_lowers_bounds(body, limit, "max_output_tokens"@);
    law_limit_only_lowers_bounds(body, limit, "max_completion_tokens"@);
    law_limit_only_lowers_bounds(body, limit, "max_tokens"@);
    assert(clamped_at(once, "max_output_tokens"@, limit) == once);
    assert(clamped_at(once, "max_completion_tokens"@, limit) == once);
    assert(clamped_at(once, "max_tokens"@, limit) == once);
}

} // verus!
