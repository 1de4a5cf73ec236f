//! The native generation protocol: the request a generation upstream accepts
//! and the response it returns, modelled as plain data. Log-probabilities are
//! carried as raw binary32 bit patterns (see `ordbits`).

use vstd::prelude::*;

verus! {

/// How the upstream picks tokens.
#[derive(Clone, Copy, Debug, PartialEq, Eq, Structural)]
pub enum DecodingMethod {
    Greedy,
    Sample,
}

/// Sampling settings of a generation request.
#[derive(Clone, Debug)]
pub struct SamplingParameters {
    /// Binary32 bit pattern of the sampling temperature.
    pub temperature_bits: u32,
    pub top_k: u32,
    /// Binary32 bit pattern of the nucleus-sampling mass.
    pub top_p_bits: u32,
    /// Binary32 bit pattern of the typical-decoding mass.
    pub typical_p_bits: u32,
    pub seed: Option<u64>,
}

/// Stopping settings of a generation request.
#[derive(Clone, Debug)]
pub struct StoppingCriteria {
    pub max_new_tokens: u32,
    pub min_new_tokens: u32,
    pub time_limit_millis: u32,
    pub stop_sequences: Vec<String>,
    pub include_stop_sequence: Option<bool>,
}

/// Which extras the upstream is asked to return.
#[derive(Clone, Copy, Debug, PartialEq, Eq, Structural)]
pub struct ResponseOptions {
    pub input_text: bool,
    pub generated_tokens: bool,
    pub input_tokens: bool,
    pub token_logprobs: bool,
    pub token_ranks: bool,
    pub top_n_tokens: u32,
}

/// Decoding settings of a generation request. A length penalty is never
/// produced by this adapter.
#[derive(Clone, Debug)]
pub struct DecodingParameters {
    /// Binary32 bit pattern of the repetition penalty.
    pub repetition_penalty_bits: u32,
}

/// The full parameter block of a generation request. Beam-search settings are
/// never produced by this adapter, so none are carried.
#[derive(Clone, Debug)]
pub struct Parameters {
    pub method: DecodingMethod,
    pub sampling: Option<SamplingParameters>,
    pub stopping: Option<StoppingCriteria>,
    pub response: Option<ResponseOptions>,
    pub decoding: Option<DecodingParameters>,
    pub truncate_input_tokens: u32,
}

/// One generation input.
#[derive(Clone, Debug)]
pub struct GenerationRequest {
    pub text: String,
}

/// A unary generation call: a batch of inputs under one model id.
#[derive(Clone, Debug)]
pub struct BatchedGenerationRequest {
    pub model_id: String,
    pub prefix_id: Option<String>,
    pub requests: Vec<GenerationRequest>,
    pub params: Option<Parameters>,
}

/// A streaming generation call: a single input under one model id.
#[derive(Clone, Debug)]
pub struct SingleGenerationRequest {
    pub model_id: String,
    pub prefix_id: Option<String>,
    pub request: Option<GenerationRequest>,
    pub params: Option<Parameters>,
}

/// Why the upstream stopped generating.
#[derive(Clone, Copy, Debug, PartialEq, Eq, Structural)]
pub enum StopReason {
    NotFinished,
    MaxTokens,
    EosToken,
    Cancelled,
    TimeLimit,
    StopSequence,
    TokenLimit,
    Error,
}

/// One alternative token with its log-probability bit pattern.
#[derive(Clone, Debug)]
pub struct TopToken {
    pub text: String,
    pub logprob_bits: u32,
}

/// One generated or input token with its log-probability bit pattern and the
/// alternatives considered at its position.
#[derive(Clone, Debug)]
pub struct TokenInfo {
    pub text: String,
    pub logprob_bits: u32,
    pub top_tokens: Vec<TopToken>,
}

/// One message of a generation response or response stream.
#[derive(Clone, Debug)]
pub struct GenerationResponse {
    pub input_token_count: u32,
    pub generated_token_count: u32,
    pub text: String,
    pub stop_reason: StopReason,
    pub tokens: Vec<TokenInfo>,
    pub input_tokens: Vec<TokenInfo>,
}

/// The response of a unary generation call.
#[derive(Clone, Debug)]
pub struct BatchedGenerationResponse {
    pub responses: Vec<GenerationResponse>,
}

/// The finish reason the OpenAI surface reports for a completed choice.
#[derive(Clone, Copy, Debug, PartialEq, Eq, Structural)]
pub enum FinishReason {
    Length,
    Stop,
    Abort,
}

/// How a native stop reason reads on the OpenAI surface: token budgets map to
/// `Length`, natural ends to `Stop`, interruptions to `Abort`, and a response
/// that is not finished maps to nothing.
pub open spec fn spec_finish_reason(sr: StopReason) -> Option<FinishReason> {
    match sr {
        StopReason::MaxTokens | StopReason::TokenLimit => Some(FinishReason::Length),
        StopReason::StopSequence | StopReason::EosToken => Some(FinishReason::Stop),
        StopReason::Cancelled | StopReason::TimeLimit | StopReason::Error => Some(
            FinishReason::Abort,
        ),
        StopReason::NotFinished => None,
    }
}

/// Maps a native stop reason to the OpenAI finish reason.
pub fn finish_reason_of(sr: StopReason) -> (r: Option<FinishReason>)
    ensures
        r == spec_finish_reason(sr),
{
    match sr {
        StopReason::MaxTokens | StopReason::TokenLimit => Some(FinishReason::Length),
        StopReason::StopSequence | StopReason::EosToken => Some(FinishReason::Stop),
        StopReason::Cancelled | StopReason::TimeLimit | StopReason::Error => Some(
            FinishReason::Abort,
        ),
        StopReason::NotFinished => None,
    }
}

impl FinishReason {
    /// The word the OpenAI surface serializes for this finish reason.
    pub fn as_str(&self) -> (r: &'static str)
        ensures
            *self == FinishReason::Length ==> r@ == "length"@,
            *self == FinishReason::Stop ==> r@ == "stop"@,
            *self == FinishReason::Abort ==> r@ == "abort"@,
    {
        match self {
            FinishReason::Length => "length",
            FinishReason::Stop => "stop",
            FinishReason::Abort => "abort",
        }
    }
}

} // verus!
