//! The logic of a proxy that serves an OpenAI-compatible API from a
//! ChatGPT/Codex subscription.

pub mod account_laws;
pub mod auth;
pub mod bytes;
pub mod chat;
pub mod chat_collect;
pub mod chat_laws;
pub mod chat_reply;
pub mod chat_request_laws;
pub mod chat_stream;
pub mod clock;
pub mod config;
pub mod encoding;
pub mod errors;
pub mod flow;
pub mod form_laws;
pub mod gate;
pub mod headers;
pub mod image_laws;
pub mod images;
pub mod json;
pub mod json_codec;
pub mod login;
pub mod models;
pub mod multipart;
pub mod proxy;
pub mod proxy_laws;
pub mod sse;
pub mod text;
pub mod text_laws;
pub mod usage;
pub mod usage_laws;
