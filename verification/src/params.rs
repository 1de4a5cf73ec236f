//! The OpenAI-to-native parameter mapping: how a chat or completion request
//! becomes the parameter block of a native generation request.

use vstd::prelude::*;
use crate::generation::{
    BatchedGenerationRequest, DecodingMethod, DecodingParameters, GenerationRequest, Parameters,
    ResponseOptions, SamplingParameters, SingleGenerationRequest, StoppingCriteria,
};
use crate::openai::{ChatCompletionRequest, CompletionRequest, StopTokens};
use crate::ordbits::{bits32_is_nan, bits32_le, is_nan_bits32, le_bits32};

verus! {

/// Binary32 bit pattern of the sampling threshold: one hundred-thousandth.
/// A requested temperature below it (and no seed) selects greedy decoding.
pub const SAMPLING_EPS_BITS: u32 = 0x3727c5ac;

/// Binary32 bit pattern of one, the default temperature and nucleus mass.
pub const ONE_BITS: u32 = 0x3f800000;

/// The temperature the mapping uses: the requested one, or one.
pub open spec fn spec_effective_temperature(t: Option<u32>) -> u32 {
    match t {
        Some(b) => b,
        None => ONE_BITS,
    }
}

/// The decoding method: sampling when the effective temperature reaches the
/// sampling threshold (a NaN temperature never does) or when a seed is given,
/// greedy otherwise.
pub open spec fn spec_decoding_method(t: Option<u32>, seed: Option<u64>) -> DecodingMethod {
    let temp = spec_effective_temperature(t);
    if (!bits32_is_nan(temp) && bits32_le(SAMPLING_EPS_BITS, temp)) || seed is Some {
        DecodingMethod::Sample
    } else {
        DecodingMethod::Greedy
    }
}

/// The native stop sequences: the one sequence, the given list, or none.
pub open spec fn spec_stop_sequences(stop: &Option<StopTokens>) -> Seq<Seq<char>> {
    match stop {
        Some(StopTokens::Array(tokens)) => tokens@.map_values(|s: String| s@),
        Some(StopTokens::Single(token)) => seq![token@],
        None => Seq::empty(),
    }
}

/// The views of a sequence of strings.
pub open spec fn str_views(v: Seq<String>) -> Seq<Seq<char>> {
    v.map_values(|s: String| s@)
}

/// An option, or a default.
pub open spec fn opt_or<T>(o: Option<T>, d: T) -> T {
    match o {
        Some(x) => x,
        None => d,
    }
}

/// Decides the decoding method on the request fields.
pub fn decoding_method(t: Option<u32>, seed: Option<u64>) -> (r: DecodingMethod)
    ensures
        r == spec_decoding_method(t, seed),
{
    let temp = match t {
        Some(b) => b,
        None => ONE_BITS,
    };
    if (!is_nan_bits32(temp) && le_bits32(SAMPLING_EPS_BITS, temp)) || seed.is_some() {
        DecodingMethod::Sample
    } else {
        DecodingMethod::Greedy
    }
}

/// Copies the OpenAI `stop` field into native stop sequences.
fn stop_sequences_of(stop: &Option<StopTokens>) -> (r: Vec<String>)
    ensures
        str_views(r@) == spec_stop_sequences(stop),
{
    match stop {
        Some(StopTokens::Array(tokens)) => {
            let r = tokens.clone();
            proof {
                assert(str_views(r@) =~= spec_stop_sequences(stop));
            }
            r
        },
        Some(StopTokens::Single(token)) => {
            let mut r: Vec<String> = Vec::new();
            r.push(token.clone());
            proof {
                assert(str_views(r@) =~= spec_stop_sequences(stop));
            }
            r
        },
        None => {
            let r: Vec<String> = Vec::new();
            proof {
                assert(str_views(r@) =~= spec_stop_sequences(stop));
            }
            r
        },
    }
}

/// Whether the parameter block `p` maps the shared (non-response-options)
/// fields of a request with the given fields: effective temperature, method,
/// sampling defaults, stopping bounds with the given stop sequences, and the
/// repetition penalty, with nothing truncated and no time limit.
pub open spec fn params_common_ok(
    p: &Parameters,
    temperature_bits: Option<u32>,
    top_k: Option<u32>,
    top_p_bits: Option<u32>,
    seed: Option<u64>,
    max_tokens: Option<u32>,
    min_tokens: Option<u32>,
    stop: &Option<StopTokens>,
    repetition_penalty_bits: Option<u32>,
) -> bool {
    &&& p.method == spec_decoding_method(temperature_bits, seed)
    &&& p.sampling == Some(
        SamplingParameters {
            temperature_bits: spec_effective_temperature(temperature_bits),
            top_k: opt_or(top_k, 0),
            top_p_bits: opt_or(top_p_bits, ONE_BITS),
            typical_p_bits: 0,
            seed,
        },
    )
    &&& p.stopping is Some
    &&& p.stopping->0.max_new_tokens == opt_or(max_tokens, 16)
    &&& p.stopping->0.min_new_tokens == opt_or(min_tokens, 0)
    &&& p.stopping->0.time_limit_millis == 0
    &&& str_views(p.stopping->0.stop_sequences@) == spec_stop_sequences(stop)
    &&& p.stopping->0.include_stop_sequence is None
    &&& p.decoding is Some
    &&& p.decoding->0.repetition_penalty_bits == opt_or(repetition_penalty_bits, 0)
    &&& p.truncate_input_tokens == 0
}

/// The response options a chat request asks for: token details only when
/// `logprobs` is set, and then as many alternatives as `top_logprobs` gives
/// (one when absent); never the input text or input tokens.
pub open spec fn spec_chat_response_options(req: &ChatCompletionRequest) -> ResponseOptions {
    let generated_tokens = opt_or(req.logprobs, false);
    ResponseOptions {
        input_text: false,
        generated_tokens,
        input_tokens: false,
        token_logprobs: generated_tokens,
        token_ranks: false,
        top_n_tokens: if generated_tokens {
            opt_or(req.top_logprobs, 1)
        } else {
            0
        },
    }
}

/// The response options a completion request asks for: the input text when
/// echoing, token details when `logprobs` is present, input tokens when both,
/// and as many alternatives as `logprobs` gives.
pub open spec fn spec_completion_response_options(req: &CompletionRequest) -> ResponseOptions {
    let input_text = opt_or(req.echo, false);
    let generated_tokens = req.logprobs is Some;
    ResponseOptions {
        input_text,
        generated_tokens,
        input_tokens: input_text && generated_tokens,
        token_logprobs: generated_tokens,
        token_ranks: false,
        top_n_tokens: opt_or(req.logprobs, 0),
    }
}

/// Maps a chat request onto the native parameter block.
pub fn chat_parameters(req: &ChatCompletionRequest) -> (p: Parameters)
    ensures
        params_common_ok(
            &p,
            req.temperature_bits,
            req.top_k,
            req.top_p_bits,
            req.seed,
            req.max_tokens,
            req.min_tokens,
            &req.stop,
            req.repetition_penalty_bits,
        ),
        p.response == Some(spec_chat_response_options(req)),
{
    let generated_tokens = req.logprobs.unwrap_or(false);
    let top_n_tokens = if generated_tokens {
        req.top_logprobs.unwrap_or(1)
    } else {
        0
    };
    let response = ResponseOptions {
        input_text: false,
        generated_tokens,
        input_tokens: false,
        token_logprobs: generated_tokens,
        token_ranks: false,
        top_n_tokens,
    };
    build_parameters(
        req.temperature_bits,
        req.top_k,
        req.top_p_bits,
        req.seed,
        req.max_tokens,
        req.min_tokens,
        &req.stop,
        req.repetition_penalty_bits,
        response,
    )
}

/// Maps a completion request onto the native parameter block.
pub fn completion_parameters(req: &CompletionRequest) -> (p: Parameters)
    ensures
        params_common_ok(
            &p,
            req.temperature_bits,
            req.top_k,
            req.top_p_bits,
            req.seed,
            req.max_tokens,
            req.min_tokens,
            &req.stop,
            req.repetition_penalty_bits,
        ),
        p.response == Some(spec_completion_response_options(req)),
{
    let input_text = req.echo.unwrap_or(false);
    let generated_tokens = req.logprobs.is_some();
    let response = ResponseOptions {
        input_text,
        generated_tokens,
        input_tokens: input_text && generated_tokens,
        token_logprobs: generated_tokens,
        token_ranks: false,
        top_n_tokens: req.logprobs.unwrap_or(0),
    };
    build_parameters(
        req.temperature_bits,
        req.top_k,
        req.top_p_bits,
        req.seed,
        req.max_tokens,
        req.min_tokens,
        &req.stop,
        req.repetition_penalty_bits,
        response,
    )
}

/// Assembles the parameter block from the shared fields and the prepared
/// response options.
fn build_parameters(
    temperature_bits: Option<u32>,
    top_k: Option<u32>,
    top_p_bits: Option<u32>,
    seed: Option<u64>,
    max_tokens: Option<u32>,
    min_tokens: Option<u32>,
    stop: &Option<StopTokens>,
    repetition_penalty_bits: Option<u32>,
    response: ResponseOptions,
) -> (p: Parameters)
    ensures
        params_common_ok(
            &p,
            temperature_bits,
            top_k,
            top_p_bits,
            seed,
            max_tokens,
            min_tokens,
            stop,
            repetition_penalty_bits,
        ),
        p.response == Some(response),
{
    let method = decoding_method(temperature_bits, seed);
    let temperature = match temperature_bits {
        Some(b) => b,
        None => ONE_BITS,
    };
    let sampling = SamplingParameters {
        temperature_bits: temperature,
        top_k: top_k.unwrap_or(0),
        top_p_bits: top_p_bits.unwrap_or(ONE_BITS),
        typical_p_bits: 0,
        seed,
    };
    let stopping = StoppingCriteria {
        max_new_tokens: max_tokens.unwrap_or(16),
        min_new_tokens: min_tokens.unwrap_or(0),
        time_limit_millis: 0,
        stop_sequences: stop_sequences_of(stop),
        include_stop_sequence: None,
    };
    let decoding = DecodingParameters { repetition_penalty_bits: repetition_penalty_bits.unwrap_or(0) };
    Parameters {
        method,
        sampling: Some(sampling),
        stopping: Some(stopping),
        response: Some(response),
        decoding: Some(decoding),
        truncate_input_tokens: 0,
    }
}

/// Wraps a chat request and its rendered prompt as a unary generation call:
/// the prompt is the sole input.
pub fn chat_generation_request(req: &ChatCompletionRequest, prompt: String) -> (r:
    BatchedGenerationRequest)
    ensures
        r.model_id@ == req.model@,
        r.prefix_id is None,
        r.requests@.len() == 1,
        r.requests@[0].text == prompt,
        r.params is Some,
        params_common_ok(
            &r.params->0,
            req.temperature_bits,
            req.top_k,
            req.top_p_bits,
            req.seed,
            req.max_tokens,
            req.min_tokens,
            &req.stop,
            req.repetition_penalty_bits,
        ),
        r.params->0.response == Some(spec_chat_response_options(req)),
{
    let params = chat_parameters(req);
    let mut requests: Vec<GenerationRequest> = Vec::new();
    requests.push(GenerationRequest { text: prompt });
    BatchedGenerationRequest {
        model_id: req.model.clone(),
        prefix_id: None,
        requests,
        params: Some(params),
    }
}

/// Wraps a chat request and its rendered prompt as a streaming generation
/// call.
pub fn chat_generation_stream_request(req: &ChatCompletionRequest, prompt: String) -> (r:
    SingleGenerationRequest)
    ensures
        r.model_id@ == req.model@,
        r.prefix_id is None,
        r.request == Some(GenerationRequest { text: prompt }),
        r.params is Some,
        params_common_ok(
            &r.params->0,
            req.temperature_bits,
            req.top_k,
            req.top_p_bits,
            req.seed,
            req.max_tokens,
            req.min_tokens,
            &req.stop,
            req.repetition_penalty_bits,
        ),
        r.params->0.response == Some(spec_chat_response_options(req)),
{
    let params = chat_parameters(req);
    SingleGenerationRequest {
        model_id: req.model.clone(),
        prefix_id: None,
        request: Some(GenerationRequest { text: prompt }),
        params: Some(params),
    }
}

/// Wraps a completion request as a unary generation call: the prompt is used
/// as given.
pub fn completion_generation_request(req: &CompletionRequest) -> (r: BatchedGenerationRequest)
    ensures
        r.model_id@ == req.model@,
        r.prefix_id is None,
        r.requests@.len() == 1,
        r.requests@[0].text@ == req.prompt@,
        r.params is Some,
        params_common_ok(
            &r.params->0,
            req.temperature_bits,
            req.top_k,
            req.top_p_bits,
            req.seed,
            req.max_tokens,
            req.min_tokens,
            &req.stop,
            req.repetition_penalty_bits,
        ),
        r.params->0.response == Some(spec_completion_response_options(req)),
{
    let params = completion_parameters(req);
    let mut requests: Vec<GenerationRequest> = Vec::new();
    requests.push(GenerationRequest { text: req.prompt.clone() });
    BatchedGenerationRequest {
        model_id: req.model.clone(),
        prefix_id: None,
        requests,
        params: Some(params),
    }
}

/// Wraps a completion request as a streaming generation call.
pub fn completion_generation_stream_request(req: &CompletionRequest) -> (r:
    SingleGenerationRequest)
    ensures
        r.model_id@ == req.model@,
        r.prefix_id is None,
        r.request is Some,
        r.request->0.text@ == req.prompt@,
        r.params is Some,
        params_common_ok(
            &r.params->0,
            req.temperature_bits,
            req.top_k,
            req.top_p_bits,
            req.seed,
            req.max_tokens,
            req.min_tokens,
            &req.stop,
            req.repetition_penalty_bits,
        ),
        r.params->0.response == Some(spec_completion_response_options(req)),
{
    let params = completion_parameters(req);
    SingleGenerationRequest {
        model_id: req.model.clone(),
        prefix_id: None,
        request: Some(GenerationRequest { text: req.prompt.clone() }),
        params: Some(params),
    }
}

} // verus!
