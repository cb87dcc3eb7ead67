//! The logic of a conversational agent host: the event history and its rules, the model
//! requests, the response streams, the model context and the transfer of model settings.
pub mod agent;
pub mod agent_laws;
pub mod agent_loop;
pub mod answer_laws;
pub mod api_calls;
pub mod archive;
pub mod batches;
pub mod body_laws;
pub mod buffers;
pub mod call_laws;
pub mod catalog;
pub mod compact_run;
pub mod compacts;
pub mod config;
pub mod context;
pub mod conversation_laws;
pub mod copies;
pub mod credential_laws;
pub mod edit_scopes;
pub mod event;
pub mod event_laws;
pub mod file_scope;
pub mod first_log;
pub mod history_laws;
pub mod input_laws;
pub mod input_queue;
pub mod inputs;
pub mod json;
pub mod later;
pub mod limits;
pub mod log_laws;
pub mod loop_laws;
pub mod message_laws;
pub mod model;
pub mod model_api;
pub mod notes;
pub mod observer;
pub mod profile;
pub mod prompts;
pub mod request;
pub mod request_laws;
pub mod restart;
pub mod restart_laws;
pub mod runtime;
pub mod runtime_laws;
pub mod scope_laws;
pub mod sessions;
pub mod stage_laws;
pub mod startup;
pub mod stream;
pub mod stream_laws;
pub mod summaries;
pub mod support;
pub mod system_laws;
pub mod system_word;
pub mod text;
pub mod text_laws;
pub mod tool_calls;
pub mod tool_laws;
pub mod tools;
pub mod transfer;
pub mod tries;
pub mod turns;
pub mod upkeep;
pub mod validate;

