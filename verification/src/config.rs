//! The models that can be talked to, and how they are set up.
use vstd::prelude::*;

use crate::json::{json_get, json_u64, Json, JsonView};
use crate::text::{same, views};

verus! {

/// The effort that stands for none.
pub const UNSET_EFFORT: &'static str = "unset";

/// How a model is reached.
#[derive(Clone, Copy, Debug, PartialEq, Eq, Structural)]
pub enum ProviderType {
    OpenaiCompatible,
    CodexOauth,
    Anthropic,
}

impl ProviderType {
    /// What the provider is called.
    pub open spec fn name(self) -> Seq<char> {
        match self {
            ProviderType::OpenaiCompatible => "openai-compatible"@,
            ProviderType::CodexOauth => "codex-oauth"@,
            ProviderType::Anthropic => "anthropic"@,
        }
    }

    /// What the provider is called.
    pub fn label(self) -> (name: &'static str)
        ensures
            name@ == self.name(),
    {
        match self {
            ProviderType::OpenaiCompatible => "openai-compatible",
            ProviderType::CodexOauth => "codex-oauth",
            ProviderType::Anthropic => "anthropic",
        }
    }

    /// Whether requests to the provider can be made.
    pub open spec fn implemented(self) -> bool {
        self == ProviderType::OpenaiCompatible || self == ProviderType::CodexOauth
    }

    /// Whether requests to the provider can be made.
    pub fn is_implemented(self) -> (result: bool)
        ensures
            result == self.implemented(),
    {
        match self {
            ProviderType::OpenaiCompatible => true,
            ProviderType::CodexOauth => true,
            ProviderType::Anthropic => false,
        }
    }
}

/// What a model can do.
#[derive(Debug)]
pub struct ModelCapabilities {
    pub context_window: u64,
    pub max_output_tokens: Option<u64>,
    pub reasoning_efforts: Vec<String>,
    pub input_modalities: Vec<String>,
}

/// How a model is set up. The parameters are a JSON object, and the parameters by effort are a JSON
/// object of such objects.
#[derive(Debug)]
pub struct ModelConfig {
    pub name: String,
    pub provider: ProviderType,
    pub reserve_output_context: bool,
    pub base_url: String,
    pub endpoint: String,
    pub api_key: Option<String>,
    pub api_key_env: Option<String>,
    pub credential_file: Option<String>,
    pub model: String,
    pub source_url: Option<String>,
    pub timeout_seconds: u64,
    pub capabilities: ModelCapabilities,
    pub parameters: Json,
    pub effort_parameters: Json,
}

/// How a model is set up, as a value.
pub struct ModelView {
    pub name: Seq<char>,
    pub provider: ProviderType,
    pub reserve_output_context: bool,
    pub base_url: Seq<char>,
    pub endpoint: Seq<char>,
    pub api_key: Option<Seq<char>>,
    pub api_key_env: Option<Seq<char>>,
    pub credential_file: Option<Seq<char>>,
    pub model: Seq<char>,
    pub source_url: Option<Seq<char>>,
    pub timeout_seconds: u64,
    pub context_window: u64,
    pub max_output_tokens: Option<u64>,
    pub reasoning_efforts: Seq<Seq<char>>,
    pub input_modalities: Seq<Seq<char>>,
    pub parameters: JsonView,
    pub effort_parameters: JsonView,
}

/// The text that there may be.
pub open spec fn text_in(text: Option<String>) -> Option<Seq<char>> {
    match text {
        Some(found) => Some(found@),
        None => None,
    }
}

impl View for ModelConfig {
    type V = ModelView;

    open spec fn view(&self) -> ModelView {
        ModelView {
            name: self.name@,
            provider: self.provider,
            reserve_output_context: self.reserve_output_context,
            base_url: self.base_url@,
            endpoint: self.endpoint@,
            api_key: text_in(self.api_key),
            api_key_env: text_in(self.api_key_env),
            credential_file: text_in(self.credential_file),
            model: self.model@,
            source_url: text_in(self.source_url),
            timeout_seconds: self.timeout_seconds,
            context_window: self.capabilities.context_window,
            max_output_tokens: self.capabilities.max_output_tokens,
            reasoning_efforts: views(self.capabilities.reasoning_efforts@),
            input_modalities: views(self.capabilities.input_modalities@),
            parameters: self.parameters@,
            effort_parameters: self.effort_parameters@,
        }
    }
}

/// What the models are.
pub open spec fn models_view(models: Seq<ModelConfig>) -> Seq<ModelView> {
    Seq::new(models.len(), |i: int| models[i]@)
}

/// The place of the first model of a name.
pub open spec fn model_place(models: Seq<ModelView>, name: Seq<char>) -> Option<int>
    decreases models.len(),
{
    if models.len() == 0 {
        None
    } else {
        match model_place(models.drop_last(), name) {
            Some(place) => Some(place),
            None => if models.last().name == name {
                Some(models.len() - 1)
            } else {
                None
            },
        }
    }
}

/// The place of a model is that of the first one that has the name.
pub proof fn lemma_model_place(models: Seq<ModelView>, name: Seq<char>)
    ensures
        match model_place(models, name) {
            Some(place) => {
                &&& 0 <= place < models.len()
                &&& models[place].name == name
                &&& forall|i: int| 0 <= i < place ==> (#[trigger] models[i]).name != name
            },
            None => forall|i: int| 0 <= i < models.len() ==> (#[trigger] models[i]).name != name,
        },
    decreases models.len(),
{
    if models.len() > 0 {
        let front = models.drop_last();
        lemma_model_place(front, name);
        assert(forall|i: int| 0 <= i < front.len() ==> front[i] == models[i]);
        match model_place(front, name) {
            Some(place) => {
                assert(front[place] == models[place]);
            },
            None => {
                assert forall|i: int| 0 <= i < models.len() - 1 implies (#[trigger] models[i]).name
                    != name by {
                    assert(front[i] == models[i]);
                }
            },
        }
    }
}

/// The place of the first model of the name.
pub fn find_model(models: &Vec<ModelConfig>, name: &str) -> (place: Option<usize>)
    ensures
        match place {
            Some(found) => model_place(models_view(models@), name@) == Some(found as int)
                && found < models@.len(),
            None => model_place(models_view(models@), name@) is None,
        },
{
    let mut place: usize = 0;
    proof {
        lemma_model_place(models_view(models@), name@);
    }
    while place < models.len()
        invariant
            place <= models@.len(),
            forall|i: int| 0 <= i < place ==> (#[trigger] models_view(models@)[i]).name != name@,
        decreases models@.len() - place,
    {
        assert(models_view(models@)[place as int] == models@[place as int]@);
        if same(models[place].name.as_str(), name) {
            proof {
                lemma_model_place(models_view(models@), name@);
            }
            return Some(place);
        }
        place += 1;
    }
    None
}

/// Texts that are the same.
pub fn copy_texts(texts: &Vec<String>) -> (copy: Vec<String>)
    ensures
        copy@ == texts@,
{
    let mut copy: Vec<String> = Vec::new();
    let mut place: usize = 0;
    while place < texts.len()
        invariant
            place <= texts@.len(),
            copy@ == texts@.take(place as int),
        decreases texts@.len() - place,
    {
        assert(texts@.take(place + 1) =~= texts@.take(place as int).push(texts@[place as int]));
        copy.push(texts[place].clone());
        place += 1;
    }
    assert(texts@.take(place as int) =~= texts@);
    copy
}

/// The text that there may be, once more.
pub fn copy_text(text: &Option<String>) -> (copy: Option<String>)
    ensures
        copy == *text,
{
    match text {
        Some(found) => Some(found.clone()),
        None => None,
    }
}

/// Whether one of the texts is the one looked for.
pub fn has_text(texts: &Vec<String>, text: &str) -> (found: bool)
    ensures
        found == views(texts@).contains(text@),
{
    let mut place: usize = 0;
    while place < texts.len()
        invariant
            place <= texts@.len(),
            forall|i: int| 0 <= i < place ==> #[trigger] views(texts@)[i] != text@,
        decreases texts@.len() - place,
    {
        assert(views(texts@)[place as int] == texts@[place as int]@);
        if same(texts[place].as_str(), text) {
            return true;
        }
        place += 1;
    }
    false
}

/// The bound on the answer that the parameters give: the first of its three names counts.
pub open spec fn output_limit(parameters: JsonView) -> Option<u64> {
    match json_u64(json_get(parameters, "max_output_tokens"@)) {
        Some(limit) => Some(limit),
        None => match json_u64(json_get(parameters, "max_completion_tokens"@)) {
            Some(limit) => Some(limit),
            None => json_u64(json_get(parameters, "max_tokens"@)),
        },
    }
}

fn output_limit_of(parameters: &Json) -> (limit: Option<u64>)
    ensures
        limit == output_limit(parameters@),
{
    match parameters.u64_at("max_output_tokens") {
        Some(limit) => Some(limit),
        None => match parameters.u64_at("max_completion_tokens") {
            Some(limit) => Some(limit),
            None => parameters.u64_at("max_tokens"),
        },
    }
}

impl ModelView {
    /// Whether the model takes the effort. Every model takes none.
    pub open spec fn takes_effort(self, effort: Seq<char>) -> bool {
        effort == UNSET_EFFORT@ || self.reasoning_efforts.contains(effort)
    }

    /// The parameters that the effort adds to a request.
    pub open spec fn effort_table(self, effort: Option<Seq<char>>) -> Option<JsonView> {
        match effort {
            Some(named) => if named == UNSET_EFFORT@ {
                None
            } else {
                json_get(self.effort_parameters, named)
            },
            None => None,
        }
    }

    /// How much of the context is kept free for the answer: nothing unless the model asks for it,
    /// else the bound that a request sends, else the most that the model answers.
    pub open spec fn reserved_output(self, effort: Option<Seq<char>>) -> u64 {
        if !self.reserve_output_context {
            0
        } else {
            let by_effort = match self.effort_table(effort) {
                Some(table) => output_limit(table),
                None => None,
            };
            match by_effort {
                Some(limit) => limit,
                None => match output_limit(self.parameters) {
                    Some(limit) => limit,
                    None => match self.max_output_tokens {
                        Some(limit) => limit,
                        None => 0,
                    },
                },
            }
        }
    }
}

impl ModelConfig {
    /// A model that is set up in the same way.
    pub fn copy(&self) -> (copy: ModelConfig)
        ensures
            copy@ == self@,
    {
        let capabilities = ModelCapabilities {
            context_window: self.capabilities.context_window,
            max_output_tokens: self.capabilities.max_output_tokens,
            reasoning_efforts: copy_texts(&self.capabilities.reasoning_efforts),
            input_modalities: copy_texts(&self.capabilities.input_modalities),
        };
        ModelConfig {
            name: self.name.clone(),
            provider: self.provider,
            reserve_output_context: self.reserve_output_context,
            base_url: self.base_url.clone(),
            endpoint: self.endpoint.clone(),
            api_key: copy_text(&self.api_key),
            api_key_env: copy_text(&self.api_key_env),
            credential_file: copy_text(&self.credential_file),
            model: self.model.clone(),
            source_url: copy_text(&self.source_url),
            timeout_seconds: self.timeout_seconds,
            capabilities,
            parameters: self.parameters.copy(),
            effort_parameters: self.effort_parameters.copy(),
        }
    }

    /// Whether the model takes the effort.
    pub fn takes(&self, effort: &str) -> (result: bool)
        ensures
            result == self@.takes_effort(effort@),
    {
        same(effort, UNSET_EFFORT) || has_text(&self.capabilities.reasoning_efforts, effort)
    }

    /// The parameters that the effort adds to a request.
    pub fn effort_parameters_of(&self, effort: Option<&str>) -> (table: Option<&Json>)
        ensures
            match table {
                Some(found) => self@.effort_table(effort_view(effort)) == Some(found@),
                None => self@.effort_table(effort_view(effort)) is None,
            },
    {
        match effort {
            Some(named) => if same(named, UNSET_EFFORT) {
                None
            } else {
                self.effort_parameters.get(named)
            },
            None => None,
        }
    }

    /// How much of the context is kept free for the answer.
    pub fn output_token_reservation(&self, effort: Option<&str>) -> (reserved: u64)
        ensures
            reserved == self@.reserved_output(effort_view(effort)),
    {
        if !self.reserve_output_context {
            return 0;
        }
        if let Some(table) = self.effort_parameters_of(effort) {
            if let Some(limit) = output_limit_of(table) {
                return limit;
            }
        }
        match output_limit_of(&self.parameters) {
            Some(limit) => limit,
            None => match self.capabilities.max_output_tokens {
                Some(limit) => limit,
                None => 0,
            },
        }
    }
}

/// The effort that there may be.
pub open spec fn effort_view(effort: Option<&str>) -> Option<Seq<char>> {
    match effort {
        Some(named) => Some(named@),
        None => None,
    }
}

/// The models that are set up, and the one that is taken unless another is asked for.
#[derive(Debug)]
pub struct GlobalConfig {
    pub version: u32,
    pub default_model: String,
    pub models: Vec<ModelConfig>,
}

/// The models that are set up, as a value.
pub struct GlobalView {
    pub version: u32,
    pub default_model: Seq<char>,
    pub models: Seq<ModelView>,
}

impl View for GlobalConfig {
    type V = GlobalView;

    open spec fn view(&self) -> GlobalView {
        GlobalView {
            version: self.version,
            default_model: self.default_model@,
            models: models_view(self.models@),
        }
    }
}

} // verus!
