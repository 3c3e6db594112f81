//! Verified core of an HTTP client SDK for the OpenAI and Anthropic APIs.
pub mod clock;
pub mod config;
pub mod error;
pub mod execute_options;
pub mod json;
pub mod numbers;
pub mod pagination;
pub mod resources;
pub mod retry;
pub mod sse;
pub mod stream_typing;
pub mod stream_typing_clu;
pub mod text;
pub mod transport;
pub mod urls;
pub mod webhooks;
