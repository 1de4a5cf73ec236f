//! The OpenAI-compatible surface: chat and completion requests as the HTTP
//! facade hands them to the adapter, and the responses and stream chunks the
//! adapter hands back. Temperatures, masses, penalties and log-probabilities
//! are carried as binary32 bit patterns (see `ordbits`).

use vstd::prelude::*;
use crate::generation::FinishReason;

verus! {

/// One chat message.
#[derive(Clone, Debug)]
pub struct Message {
    pub role: String,
    pub content: String,
    pub name: Option<String>,
}

impl Message {
    /// A message with the given role and content.
    pub fn new(role: &str, content: &str, name: Option<String>) -> (r: Message)
        ensures
            r.role@ == role@,
            r.content@ == content@,
            r.name == name,
    {
        Message { role: role.to_owned(), content: content.to_owned(), name }
    }
}

/// The OpenAI `stop` field: one stop sequence or several.
#[derive(Clone, Debug)]
pub enum StopTokens {
    Array(Vec<String>),
    Single(String),
}

/// An OpenAI chat-completion request, reduced to the fields this gateway
/// reads.
#[derive(Clone, Debug)]
pub struct ChatCompletionRequest {
    pub model: String,
    pub messages: Vec<Message>,
    pub stream: Option<bool>,
    pub best_of: Option<u32>,
    pub use_beam_search: Option<bool>,
    /// Binary32 bit pattern of the requested temperature.
    pub temperature_bits: Option<u32>,
    pub top_k: Option<u32>,
    /// Binary32 bit pattern of the requested nucleus mass.
    pub top_p_bits: Option<u32>,
    pub seed: Option<u64>,
    pub max_tokens: Option<u32>,
    pub min_tokens: Option<u32>,
    pub stop: Option<StopTokens>,
    /// Binary32 bit pattern of the requested repetition penalty.
    pub repetition_penalty_bits: Option<u32>,
    /// Whether per-token log-probabilities are requested.
    pub logprobs: Option<bool>,
    /// How many alternatives per token are requested.
    pub top_logprobs: Option<u32>,
}

/// An OpenAI completion request, reduced to the fields this gateway reads.
#[derive(Clone, Debug)]
pub struct CompletionRequest {
    pub model: String,
    pub prompt: String,
    pub stream: Option<bool>,
    pub best_of: Option<u32>,
    pub use_beam_search: Option<bool>,
    /// Binary32 bit pattern of the requested temperature.
    pub temperature_bits: Option<u32>,
    pub top_k: Option<u32>,
    /// Binary32 bit pattern of the requested nucleus mass.
    pub top_p_bits: Option<u32>,
    pub seed: Option<u64>,
    pub max_tokens: Option<u32>,
    pub min_tokens: Option<u32>,
    pub stop: Option<StopTokens>,
    /// Binary32 bit pattern of the requested repetition penalty.
    pub repetition_penalty_bits: Option<u32>,
    /// How many alternatives per token are requested; presence also asks for
    /// per-token log-probabilities.
    pub logprobs: Option<u32>,
    /// Whether the prompt is echoed back in the response.
    pub echo: Option<bool>,
}

/// Token accounting of a response.
#[derive(Clone, Copy, Debug, PartialEq, Eq, Structural)]
pub struct Usage {
    pub completion_tokens: u32,
    pub prompt_tokens: u32,
    pub total_tokens: u32,
}

/// The message, or message delta, of a chat choice.
#[derive(Clone, Debug)]
pub struct ChatCompletionMessage {
    pub role: Option<String>,
    pub content: Option<String>,
}

/// One alternative token in a chat log-probability entry.
#[derive(Clone, Debug)]
pub struct ChatCompletionTopLogprob {
    pub token: String,
    pub logprob_bits: u32,
}

/// The log-probability entry of one chat token.
#[derive(Clone, Debug)]
pub struct ChatCompletionLogprob {
    pub token: String,
    pub logprob_bits: u32,
    pub top_logprobs: Option<Vec<ChatCompletionTopLogprob>>,
}

/// The log-probabilities of a chat choice.
#[derive(Clone, Debug)]
pub struct ChatCompletionLogprobs {
    pub content: Vec<ChatCompletionLogprob>,
}

/// One choice of a unary chat response.
#[derive(Clone, Debug)]
pub struct ChatCompletionChoice {
    pub index: u32,
    pub message: ChatCompletionMessage,
    pub logprobs: Option<ChatCompletionLogprobs>,
    pub finish_reason: FinishReason,
}

/// A unary chat response. Its serialized object tag is `chat.completion`.
#[derive(Clone, Debug)]
pub struct ChatCompletionResponse {
    pub id: String,
    pub created: i64,
    pub model: String,
    pub system_fingerprint: Option<String>,
    pub choices: Vec<ChatCompletionChoice>,
    pub usage: Usage,
}

/// One choice of a chat stream chunk.
#[derive(Clone, Debug)]
pub struct ChatCompletionChunkChoice {
    pub delta: ChatCompletionMessage,
    pub index: u32,
    pub logprobs: Option<ChatCompletionLogprobs>,
    pub finish_reason: Option<FinishReason>,
}

/// One chunk of a chat response stream. Its serialized object tag is
/// `chat.completion.chunk`.
#[derive(Clone, Debug)]
pub struct ChatCompletionChunk {
    pub id: String,
    pub choices: Vec<ChatCompletionChunkChoice>,
    pub created: i64,
    pub model: String,
    pub usage: Option<Usage>,
}

/// One event of a chat response stream: a JSON chunk, or the terminal
/// sentinel whose serialized data is the literal `[DONE]`.
#[derive(Clone, Debug)]
pub enum ChatEvent {
    Chunk(ChatCompletionChunk),
    Done,
}

/// An insertion-ordered token-to-log-probability mapping: the pairs in
/// insertion order, each token text at most once.
#[derive(Clone, Debug)]
pub struct TopLogprobEntry {
    pub token: String,
    pub logprob_bits: u32,
}

/// The log-probabilities of a completion choice, as parallel arrays.
#[derive(Clone, Debug)]
pub struct CompletionLogprobs {
    /// Left empty: byte offsets are not yet computed.
    pub text_offset: Vec<u32>,
    pub token_logprobs_bits: Vec<u32>,
    pub tokens: Vec<String>,
    pub top_logprobs: Option<Vec<Vec<TopLogprobEntry>>>,
}

/// One choice of a completion response.
#[derive(Clone, Debug)]
pub struct CompletionChoice {
    pub index: u32,
    pub text: Option<String>,
    pub logprobs: Option<CompletionLogprobs>,
    pub finish_reason: Option<FinishReason>,
}

/// A completion response; streamed completion chunks reuse this shape. Its
/// serialized object tag is `text_completion`.
#[derive(Clone, Debug)]
pub struct CompletionResponse {
    pub id: String,
    pub created: i64,
    pub model: String,
    pub system_fingerprint: Option<String>,
    pub choices: Vec<CompletionChoice>,
    pub usage: Option<Usage>,
}

/// One event of a completion response stream: a JSON chunk, or the terminal
/// sentinel whose serialized data is the literal `[DONE]`.
#[derive(Clone, Debug)]
pub enum CompletionEvent {
    Chunk(CompletionResponse),
    Done,
}

/// An error the HTTP facade returns without calling upstream: a status code
/// and a message body.
#[derive(Clone, Debug)]
pub struct HttpError {
    pub status: u16,
    pub message: String,
}

} // verus!
