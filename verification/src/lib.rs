//! MPrism model protocol library.

pub mod text;
pub mod sse;
pub mod json;
pub mod error;
pub mod types;
pub mod finish;
pub mod secret;
pub mod usage;
pub mod http_error;
pub mod pending;
pub mod decode;
pub mod openai_chunk;
pub mod anthropic_events;
pub mod gemini_events;
pub mod responses_events;
pub mod stream_driver;
pub mod app_error;
pub mod generation;
pub mod chat_request;
pub mod wire;
pub mod openai_wire;
pub mod anthropic_wire;
pub mod responses_wire;
pub mod gemini_wire;
pub mod message_log;
pub mod endpoint;
pub mod headers;
pub mod models;
pub mod prepare;
pub mod stored;
pub mod settings_doc;
pub mod session_meta;
pub mod provider_select;
pub mod messages;
pub mod registry;
pub mod log_redact;
pub mod files;
