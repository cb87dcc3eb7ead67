//! The models that are talked to: their requests and the one that is active.
use vstd::prelude::*;

use crate::config::{
    effort_view, find_model, model_place, models_view, ModelConfig, ModelView, ProviderType,
    UNSET_EFFORT,
};
use crate::json::{
    array_view, from_value, json_held, lemma_array_items, lemma_array_push, object_view, Json,
    JsonView,
};
use crate::model::{
    body_of, clamp_output_limit, clamped, codex_body, common_messages, is_body, reasoning,
    request_parameters, responses_input, responses_tools, unsupported_effort, ModelContext,
    BODY_NOT_AN_OBJECT, NOT_A_TABLE,
};
use crate::stream::{openai_stream_event, stream_event, OpenAiStreamEvent};
use crate::text::{characters, join3, same, text_between};

verus! {

/// A table of TOML.
#[verifier::external_type_specification]
#[verifier::external_body]
#[verifier::reject_recursive_types(K)]
#[verifier::reject_recursive_types(V)]
pub struct ExTomlMap<K, V>(toml::map::Map<K, V>);

/// A value of TOML.
#[verifier::external_type_specification]
#[verifier::external_body]
pub struct ExTomlValue(toml::Value);

/// What a table of TOML holds, as a JSON value.
pub uninterp spec fn table_held(table: toml::map::Map<String, toml::Value>) -> JsonView;

/// `serde_json::to_value` of a TOML table: it does not fail, and what it gives is named.
#[verifier::external_body]
fn table_value(table: &toml::map::Map<String, toml::Value>) -> (result: Option<serde_json::Value>)
    ensures
        match result {
            Some(value) => json_held(value) == table_held(*table),
            None => false,
        },
{
    serde_json::to_value(table).ok()
}

/// The parameters of a model, once their table is a JSON value.
pub fn parameters_of(value: Json) -> (result: Result<Json, String>)
    ensures
        match result {
            Ok(json) => value@ is Object && json@ == value@,
            Err(error) => !(value@ is Object) && error@ == NOT_A_TABLE@,
        },
{
    if value.is_object() {
        Ok(value)
    } else {
        Err(NOT_A_TABLE.to_owned())
    }
}

/// The parameters of a model out of its table.
pub fn toml_table_to_json(table: &toml::map::Map<String, toml::Value>) -> (result: Result<
    Json,
    String,
>)
    ensures
        match result {
            Ok(json) => table_held(*table) is Object && json@ == table_held(*table),
            Err(error) => !(table_held(*table) is Object) && error@ == NOT_A_TABLE@,
        },
{
    match table_value(table) {
        Some(value) => parameters_of(from_value(value)),
        None => Err(NOT_A_TABLE.to_owned()),
    }
}

/// A text without the slashes at its end.
pub open spec fn without_last_slashes(text: Seq<char>) -> Seq<char>
    decreases text.len(),
{
    if text.len() > 0 && text.last() == '/' {
        without_last_slashes(text.drop_last())
    } else {
        text
    }
}

/// A text without the slashes at its start.
pub open spec fn without_first_slashes(text: Seq<char>) -> Seq<char>
    decreases text.len(),
{
    if text.len() > 0 && text[0] == '/' {
        without_first_slashes(text.skip(1))
    } else {
        text
    }
}

fn trim_last_slashes(text: &str) -> (result: String)
    ensures
        result@ == without_last_slashes(text@),
{
    let list = characters(text);
    let mut end: usize = list.len();
    assert(list@.take(end as int) =~= text@);
    while end > 0 && list[end - 1] == '/'
        invariant
            end <= list@.len(),
            without_last_slashes(list@.take(end as int)) == without_last_slashes(text@),
        decreases end,
    {
        assert(list@.take(end as int).drop_last() =~= list@.take(end - 1));
        end -= 1;
    }
    let result = text_between(&list, 0, end);
    assert(result@ =~= list@.take(end as int));
    result
}

fn trim_first_slashes(text: &str) -> (result: String)
    ensures
        result@ == without_first_slashes(text@),
{
    let list = characters(text);
    let mut from: usize = 0;
    assert(list@.skip(0) =~= text@);
    while from < list.len() && list[from] == '/'
        invariant
            from <= list@.len(),
            without_first_slashes(list@.skip(from as int)) == without_first_slashes(text@),
        decreases list@.len() - from,
    {
        assert(list@.skip(from as int).skip(1) =~= list@.skip(from + 1));
        from += 1;
    }
    let result = text_between(&list, from, list.len());
    assert(result@ =~= list@.skip(from as int));
    result
}

/// A model that requests can be made to.
#[derive(Debug)]
pub struct ModelApi {
    pub model: ModelConfig,
}

/// What is said of a model whose provider is not implemented.
pub open spec fn not_implemented(provider: ProviderType) -> Seq<char> {
    "provider "@ + provider.name() + " is not implemented"@
}

fn keep_common(messages: &Vec<Json>) -> (kept: Vec<Json>)
    ensures
        array_view(kept@) == common_messages(array_view(messages@)),
{
    broadcast use lemma_array_items;

    let ghost all = array_view(messages@);
    let mut kept: Vec<Json> = Vec::new();
    let mut place: usize = 0;
    assert(all.take(0) =~= Seq::<JsonView>::empty());
    assert(array_view(kept@) =~= Seq::<JsonView>::empty());
    while place < messages.len()
        invariant
            place <= messages@.len(),
            all == array_view(messages@),
            all.len() == messages@.len(),
            forall|i: int| 0 <= i < messages@.len() ==> #[trigger] all[i] == messages@[i]@,
            array_view(kept@) == common_messages(all.take(place as int)),
        decreases messages@.len() - place,
    {
        assert(all.take(place + 1).drop_last() =~= all.take(place as int));
        assert(all.take(place + 1).last() == messages@[place as int]@);
        if messages[place].get("_me_provider").is_none() {
            let message = messages[place].copy();
            proof {
                lemma_array_push(kept@, message);
            }
            kept.push(message);
        }
        place += 1;
    }
    assert(all.take(place as int) =~= all);
    kept
}

pub(crate) fn copy_items(items: &Vec<Json>) -> (copy: Vec<Json>)
    ensures
        array_view(copy@) == array_view(items@),
{
    let mut copy: Vec<Json> = Vec::new();
    let mut place: usize = 0;
    assert(items@.take(0) =~= Seq::<Json>::empty());
    while place < items.len()
        invariant
            place <= items@.len(),
            array_view(copy@) == array_view(items@.take(place as int)),
        decreases items@.len() - place,
    {
        assert(items@.take(place + 1).drop_last() =~= items@.take(place as int));
        let item = items[place].copy();
        proof {
            lemma_array_push(copy@, item);
        }
        copy.push(item);
        place += 1;
    }
    assert(items@.take(place as int) =~= items@);
    copy
}

proof fn lemma_union_push(
    left: Map<Seq<char>, JsonView>,
    right: Map<Seq<char>, JsonView>,
    key: Seq<char>,
    value: JsonView,
)
    ensures
        left.union_prefer_right(right.insert(key, value)) == left.union_prefer_right(right).insert(
            key,
            value,
        ),
{
    assert(left.union_prefer_right(right.insert(key, value)) =~= left.union_prefer_right(
        right,
    ).insert(key, value));
}

/// Adds the entries of another object, which take the place of those of the same key.
fn extend(body: &mut Json, more: &Vec<(String, Json)>)
    requires
        old(body)@ is Object,
    ensures
        final(body)@ == JsonView::Object(
            old(body)@->Object_0.union_prefer_right(object_view(more@)),
        ),
{
    let mut place: usize = 0;
    let ghost start = body@->Object_0;
    assert(more@.take(0) =~= Seq::<(String, Json)>::empty());
    assert(start.union_prefer_right(object_view(more@.take(0))) =~= start);
    while place < more.len()
        invariant
            place <= more@.len(),
            body@ == JsonView::Object(
                start.union_prefer_right(object_view(more@.take(place as int))),
            ),
        decreases more@.len() - place,
    {
        assert(more@.take(place + 1).drop_last() =~= more@.take(place as int));
        proof {
            lemma_union_push(
                start,
                object_view(more@.take(place as int)),
                more@[place as int].0@,
                more@[place as int].1@,
            );
        }
        body.insert(more[place].0.as_str(), more[place].1.copy());
        place += 1;
    }
    assert(more@.take(place as int) =~= more@);
}

impl ModelApi {
    /// Takes a model if requests to its provider can be made.
    pub fn new(model: ModelConfig) -> (result: Result<ModelApi, String>)
        ensures
            match result {
                Ok(api) => model.provider.implemented() && api.model == model,
                Err(error) => !model.provider.implemented() && error@ == not_implemented(
                    model.provider,
                ),
            },
    {
        if !model.provider.is_implemented() {
            return Err(join3("provider ", model.provider.label(), " is not implemented"));
        }
        Ok(ModelApi { model })
    }

    /// Refuses an effort that the model does not take.
    pub fn validate_effort(&self, effort: &str) -> (result: Result<(), String>)
        ensures
            match result {
                Ok(_) => self.model@.takes_effort(effort@),
                Err(error) => !self.model@.takes_effort(effort@) && error@ == unsupported_effort(
                    self.model@.name,
                    effort@,
                ),
            },
    {
        validate_effort(&self.model, effort)
    }

    /// The name of the model.
    pub fn model_name(&self) -> (name: &str)
        ensures
            name@ == self.model@.name,
    {
        self.model.name.as_str()
    }

    /// How much of the context is kept free for the answer.
    pub fn output_token_reservation(&self, effort: Option<&str>) -> (reserved: u64)
        ensures
            reserved == self.model@.reserved_output(effort_view(effort)),
    {
        self.model.output_token_reservation(effort)
    }

    /// The address that requests go to, with one slash between its two halves.
    pub fn endpoint(&self) -> (address: String)
        ensures
            address@ == without_last_slashes(self.model@.base_url) + "/"@ + without_first_slashes(
                self.model@.endpoint,
            ),
    {
        let base = trim_last_slashes(self.model.base_url.as_str());
        let tail = trim_first_slashes(self.model.endpoint.as_str());
        join3(base.as_str(), "/", tail.as_str())
    }

    /// The body of a request.
    pub fn request_body(&self, context: &ModelContext, effort: Option<&str>, stream: bool) -> (
    result: Result<Json, String>)
        ensures
            is_body(
                result,
                body_of(
                    self.model@,
                    context.said(),
                    context.offered(),
                    effort_view(effort),
                    stream,
                ),
            ),
    {
        if self.model.provider == ProviderType::CodexOauth {
            return self.codex_request_body(context, effort, stream);
        }
        let mut body = match self.parameters(effort) {
            Ok(body) => body,
            Err(error) => return Err(error),
        };
        body.insert("model", Json::text(self.model.model.as_str()));
        body.insert("messages", Json::Array(keep_common(&context.messages)));
        body.insert("stream", Json::Bool(stream));
        if stream {
            let options = match body.get("stream_options") {
                Some(options) => options.copy(),
                None => Json::object(),
            };
            if !options.is_object() {
                return Err("model parameter stream_options must be an object".to_owned());
            }
            let options = options.with("include_usage", Json::Bool(true));
            body.insert("stream_options", options);
        }
        broadcast use lemma_array_items;

        if context.tools.len() > 0 {
            body.insert("tools", Json::Array(copy_items(&context.tools)));
            body.insert("parallel_tool_calls", Json::Bool(true));
        }
        Ok(body)
    }

    fn parameters(&self, effort: Option<&str>) -> (result: Result<Json, String>)
        ensures
            match result {
                Ok(body) => match request_parameters(self.model@, effort_view(effort)) {
                    Ok(parameters) => body@ == JsonView::Object(parameters),
                    Err(_) => false,
                },
                Err(error) => request_parameters(self.model@, effort_view(effort)) == Err::<
                    Map<Seq<char>, JsonView>,
                    Seq<char>,
                >(error@),
            },
    {
        if !self.model.parameters.is_object() {
            return Err(NOT_A_TABLE.to_owned());
        }
        let mut body = self.model.parameters.copy();
        if let Some(named) = effort {
            match self.validate_effort(named) {
                Ok(()) => {},
                Err(error) => return Err(error),
            }
        }
        match self.model.effort_parameters_of(effort) {
            Some(Json::Object(more)) => {
                extend(&mut body, more);
                Ok(body)
            },
            Some(_) => Err(NOT_A_TABLE.to_owned()),
            None => Ok(body),
        }
    }

    fn codex_request_body(&self, context: &ModelContext, effort: Option<&str>, stream: bool) -> (
    result: Result<Json, String>)
        ensures
            is_body(
                result,
                codex_body(
                    self.model@,
                    context.said(),
                    context.offered(),
                    effort_view(effort),
                    stream,
                ),
            ),
    {
        broadcast use lemma_array_items;

        if !self.model.parameters.is_object() {
            return Err(NOT_A_TABLE.to_owned());
        }
        let mut body = self.model.parameters.copy();
        let (instructions, input) = match responses_input(&context.messages) {
            Ok(parts) => parts,
            Err(error) => return Err(error),
        };
        let tools = match responses_tools(&context.tools) {
            Ok(tools) => tools,
            Err(error) => return Err(error),
        };
        if let Some(named) = effort {
            match self.validate_effort(named) {
                Ok(()) => {},
                Err(error) => return Err(error),
            }
            if !same(named, UNSET_EFFORT) {
                body.insert(
                    "reasoning",
                    Json::object().with("effort", Json::text(named)).with(
                        "summary",
                        Json::text("auto"),
                    ),
                );
            }
        }
        body.insert("model", Json::text(self.model.model.as_str()));
        body.insert("instructions", Json::Text(instructions));
        body.insert("input", Json::Array(input));
        body.insert("stream", Json::Bool(stream));
        body.insert("store", Json::Bool(false));
        let mut wanted: Vec<Json> = Vec::new();
        let content = Json::text("reasoning.encrypted_content");
        proof {
            lemma_array_push(wanted@, content);
        }
        wanted.push(content);
        assert(array_view(wanted@) =~= seq![JsonView::Text("reasoning.encrypted_content"@)]);
        body.insert("include", Json::Array(wanted));
        if tools.len() > 0 {
            body.insert("tools", Json::Array(tools));
            body.insert("tool_choice", Json::text("auto"));
            body.insert("parallel_tool_calls", Json::Bool(true));
        }
        Ok(body)
    }

    /// The body of a request that streams its answer, bounded by a limit where the provider takes
    /// one.
    pub fn complete_stream_with_output_limit(
        &self,
        context: &ModelContext,
        effort: Option<&str>,
        output_limit: Option<u64>,
    ) -> (result: Result<Json, String>)
        ensures
            is_body(
                result,
                stream_body(
                    self.model@,
                    body_of(
                        self.model@,
                        context.said(),
                        context.offered(),
                        effort_view(effort),
                        true,
                    ),
                    output_limit,
                ),
            ),
    {
        let mut body = match self.request_body(context, effort, true) {
            Ok(body) => body,
            Err(error) => return Err(error),
        };
        if self.model.provider != ProviderType::CodexOauth {
            if let Some(limit) = output_limit {
                match clamp_output_limit(&mut body, limit) {
                    Ok(()) => {},
                    Err(error) => return Err(error),
                }
            }
        }
        Ok(body)
    }

    /// The file that keeps the login of the model.
    pub fn codex_credential_file(&self) -> (result: Result<String, String>)
        ensures
            match self.model@.credential_file {
                Some(path) => result matches Ok(found) && found@ == path,
                None => result matches Err(error) && error@ == "model "@ + self.model@.name
                    + " has no credential file"@,
            },
    {
        match &self.model.credential_file {
            Some(path) => Ok(path.clone()),
            None => Err(join3("model ", self.model.name.as_str(), " has no credential file")),
        }
    }

    /// What is said of a request that the provider refused.
    pub fn refusal(&self, status: &str, message: &str) -> (text: String)
        ensures
            text@ == refused(self.model.provider, status@, message@),
    {
        let mut text = if self.model.provider == ProviderType::CodexOauth {
            join3("Codex model request failed with ", status, ": ")
        } else {
            join3("model request failed with ", status, ": ")
        };
        text.append(message);
        text
    }
}

/// What is said of a request that a provider refused.
pub open spec fn refused(provider: ProviderType, status: Seq<char>, message: Seq<char>) -> Seq<
    char,
> {
    if provider == ProviderType::CodexOauth {
        "Codex model request failed with "@ + status + ": "@ + message
    } else {
        "model request failed with "@ + status + ": "@ + message
    }
}

/// The body of a request that streams, with the limit on its answer.
pub open spec fn stream_body(
    model: ModelView,
    body: Result<JsonView, Seq<char>>,
    output_limit: Option<u64>,
) -> Result<JsonView, Seq<char>> {
    match (body, output_limit) {
        (Ok(JsonView::Object(entries)), Some(limit)) => if model.provider
            == ProviderType::CodexOauth {
            body
        } else {
            Ok(JsonView::Object(clamped(entries, limit)))
        },
        (Ok(_), Some(_)) => if model.provider == ProviderType::CodexOauth {
            body
        } else {
            Err(BODY_NOT_AN_OBJECT@)
        },
        _ => body,
    }
}

/// Refuses an effort that the model does not take.
pub fn validate_effort(model: &ModelConfig, effort: &str) -> (result: Result<(), String>)
    ensures
        match result {
            Ok(_) => model@.takes_effort(effort@),
            Err(error) => !model@.takes_effort(effort@) && error@ == unsupported_effort(
                model@.name,
                effort@,
            ),
        },
{
    if model.takes(effort) {
        Ok(())
    } else {
        let start = join3("model ", model.name.as_str(), " does not support reasoning effort ");
        Err(join3(start.as_str(), effort, ""))
    }
}

/// What is next when the provider of logins has answered: one refreshed login is tried where the
/// first is not authorized.
#[derive(Clone, Copy, Debug, PartialEq, Eq, Structural)]
pub enum CodexReply {
    Accepted,
    Refresh,
    Refused,
}

/// What is next after an answer with the status.
pub fn codex_reply(status: u16, refreshed: bool) -> (next: CodexReply)
    ensures
        next == (if status == 401 && !refreshed {
            CodexReply::Refresh
        } else if 200 <= status <= 299 {
            CodexReply::Accepted
        } else {
            CodexReply::Refused
        }),
{
    if status == 401 && !refreshed {
        CodexReply::Refresh
    } else if 200 <= status && status <= 299 {
        CodexReply::Accepted
    } else {
        CodexReply::Refused
    }
}

/// What is said of a stream that broke off.
pub const STREAM_CLOSED: &'static str =
    "Codex Responses stream closed before response.completed";

/// The lines of a stream under way.
#[derive(Debug)]
pub struct StreamWatch {
    pub provider: ProviderType,
    pub completed: bool,
}

impl StreamWatch {
    /// A stream of which nothing has come yet.
    pub fn new(provider: ProviderType) -> (watch: StreamWatch)
        ensures
            watch.provider == provider,
            !watch.completed,
    {
        StreamWatch { provider, completed: false }
    }

    /// Takes note of a line. Empty lines say nothing; whether the line is to be handed on is the
    /// result.
    pub fn on_line(&mut self, line: &str) -> (result: Result<bool, String>)
        ensures
            final(self).provider == old(self).provider,
            if line@.len() == 0 {
                result == Ok::<bool, String>(false) && *final(self) == *old(self)
            } else if old(self).provider != ProviderType::CodexOauth {
                result == Ok::<bool, String>(true) && *final(self) == *old(self)
            } else {
                match stream_event(line@) {
                    Ok(event) => result == Ok::<bool, String>(true) && final(self).completed == (
                    old(self).completed || event is Done),
                    Err(text) => *final(self) == *old(self) && match result {
                        Ok(_) => false,
                        Err(error) => error@ == text,
                    },
                }
            },
    {
        if line.unicode_len() == 0 {
            return Ok(false);
        }
        if self.provider == ProviderType::CodexOauth {
            match openai_stream_event(line) {
                Ok(OpenAiStreamEvent::Done) => {
                    self.completed = true;
                },
                Ok(_) => {},
                Err(error) => return Err(error),
            }
        }
        Ok(true)
    }

    /// Takes note of the end.
    pub fn finish(&self) -> (result: Result<(), String>)
        ensures
            match result {
                Ok(_) => self.provider != ProviderType::CodexOauth || self.completed,
                Err(error) => self.provider == ProviderType::CodexOauth && !self.completed && error@
                    == STREAM_CLOSED@,
            },
    {
        if self.provider == ProviderType::CodexOauth && !self.completed {
            Err(STREAM_CLOSED.to_owned())
        } else {
            Ok(())
        }
    }
}

/// The models that are set up, and the one that is talked to.
#[derive(Debug)]
pub struct ModelRuntime {
    pub models: Vec<ModelConfig>,
    pub active: ModelApi,
}

/// What is said of a name that no model has.
pub open spec fn no_such_model(name: Seq<char>) -> Seq<char> {
    "model "@ + name + " does not exist"@
}

/// What is wrong with talking to the model of a name, if anything.
pub open spec fn activation_problem(models: Seq<ModelView>, name: Seq<char>) -> Option<Seq<char>> {
    match model_place(models, name) {
        None => Some(no_such_model(name)),
        Some(place) => if models[place].provider.implemented() {
            None
        } else {
            Some(not_implemented(models[place].provider))
        },
    }
}

/// The model of a name that can be talked to, once more.
fn find_api(models: &Vec<ModelConfig>, name: &str) -> (result: Result<ModelApi, String>)
    ensures
        match result {
            Ok(api) => activation_problem(models_view(models@), name@) is None && api.model@
                == models_view(models@)[model_place(models_view(models@), name@)->0],
            Err(error) => activation_problem(models_view(models@), name@) == Some(error@),
        },
{
    match find_model(models, name) {
        None => Err(join3("model ", name, " does not exist")),
        Some(place) => {
            assert(models_view(models@)[place as int] == models@[place as int]@);
            let model = models[place].copy();
            assert(model@.provider == model.provider);
            ModelApi::new(model)
        },
    }
}

impl ModelRuntime {
    /// Whether requests to the active model can be made.
    pub open spec fn wf(&self) -> bool {
        self.active.model.provider.implemented()
    }

    /// Starts with the model of the name.
    pub fn new(models: Vec<ModelConfig>, initial_model: &str) -> (result: Result<
        ModelRuntime,
        String,
    >)
        ensures
            match result {
                Ok(runtime) => {
                    &&& activation_problem(models_view(models@), initial_model@) is None
                    &&& runtime.models == models
                    &&& runtime.active.model@ == models_view(models@)[model_place(
                        models_view(models@),
                        initial_model@,
                    )->0]
                    &&& runtime.wf()
                },
                Err(error) => activation_problem(models_view(models@), initial_model@) == Some(
                    error@,
                ),
            },
    {
        match find_api(&models, initial_model) {
            Ok(active) => {
                assert(active.model@.provider == active.model.provider);
                Ok(ModelRuntime { models, active })
            },
            Err(error) => Err(error),
        }
    }

    /// Knows the one model only.
    pub fn single(active: ModelApi) -> (runtime: ModelRuntime)
        ensures
            models_view(runtime.models@) == seq![active.model@],
            runtime.active == active,
    {
        let mut models: Vec<ModelConfig> = Vec::new();
        models.push(active.model.copy());
        assert(models_view(models@) =~= seq![active.model@]);
        ModelRuntime { models, active }
    }

    /// Talks to the model of the name from now on. Where that fails, the active model stays.
    pub fn activate(&mut self, name: &str) -> (result: Result<(), String>)
        requires
            old(self).wf(),
        ensures
            final(self).wf(),
            final(self).models == old(self).models,
            if old(self).active.model@.name == name@ {
                result is Ok && *final(self) == *old(self)
            } else {
                match activation_problem(models_view(old(self).models@), name@) {
                    None => result is Ok && final(self).active.model@ == models_view(
                        old(self).models@,
                    )[model_place(models_view(old(self).models@), name@)->0],
                    Some(text) => *final(self) == *old(self) && match result {
                        Ok(_) => false,
                        Err(error) => error@ == text,
                    },
                }
            },
    {
        if same(self.active.model.name.as_str(), name) {
            return Ok(());
        }
        match find_api(&self.models, name) {
            Ok(active) => {
                assert(active.model@.provider == active.model.provider);
                self.active = active;
                Ok(())
            },
            Err(error) => Err(error),
        }
    }

    /// Whether the model of the name could be talked to.
    pub fn validate_activation(&self, name: &str) -> (result: Result<(), String>)
        ensures
            match result {
                Ok(_) => activation_problem(models_view(self.models@), name@) is None,
                Err(error) => activation_problem(models_view(self.models@), name@) == Some(error@),
            },
    {
        match find_api(&self.models, name) {
            Ok(_) => Ok(()),
            Err(error) => Err(error),
        }
    }

    /// The model of the name.
    pub fn model(&self, name: &str) -> (model: Option<&ModelConfig>)
        ensures
            match model {
                Some(found) => model_place(models_view(self.models@), name@) matches Some(place)
                    && found@ == models_view(self.models@)[place],
                None => model_place(models_view(self.models@), name@) is None,
            },
    {
        match find_model(&self.models, name) {
            Some(place) => {
                assert(models_view(self.models@)[place as int] == self.models@[place as int]@);
                Some(&self.models[place])
            },
            None => None,
        }
    }

    /// The model that is talked to.
    pub fn active_model(&self) -> (model: &ModelConfig)
        ensures
            *model == self.active.model,
    {
        &self.active.model
    }

    /// The model that is talked to, for requests.
    pub fn api(&self) -> (api: &ModelApi)
        ensures
            *api == self.active,
    {
        &self.active
    }
}

} // verus!
