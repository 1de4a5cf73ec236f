//! A model-aware gateway library.
//!
//! The crate routes inference traffic by model id: it loads a model map from a
//! configuration document, renders chat templates into prompts, translates
//! OpenAI-style chat and completion requests into native generation requests
//! (and the responses back), and decides how native RPC calls are dispatched.
//! The asynchronous transport around these decisions lives outside the
//! library; everything here is plain data in, plain data out.

pub mod chat;
pub mod config;
pub mod completions;
pub mod generation;
pub mod handlers;
pub mod logprobs;
pub mod openai;
pub mod ordbits;
pub mod params;
pub mod rpc;
pub mod template;
pub mod text;

pub use config::{ConfigError, ModelMap, ModelMapV1, ModelMapV2, ServiceAddr};
pub use openai::Message;
pub use template::{ChatTemplate, RawChatTemplate};
