use fmaas_router::generation::DecodingMethod;
use fmaas_router::openai::{ChatCompletionRequest, CompletionRequest, StopTokens};
use fmaas_router::params::{
    chat_parameters, completion_parameters, decoding_method, ONE_BITS, SAMPLING_EPS_BITS,
};

fn base_chat_request() -> ChatCompletionRequest {
    ChatCompletionRequest {
        model: "m".to_string(),
        messages: vec![],
        stream: None,
        best_of: None,
        use_beam_search: None,
        temperature_bits: None,
        top_k: None,
        top_p_bits: None,
        seed: None,
        max_tokens: None,
        min_tokens: None,
        stop: None,
        repetition_penalty_bits: None,
        logprobs: None,
        top_logprobs: None,
    }
}

fn base_completion_request() -> CompletionRequest {
    CompletionRequest {
        model: "m".to_string(),
        prompt: "p".to_string(),
        stream: None,
        best_of: None,
        use_beam_search: None,
        temperature_bits: None,
        top_k: None,
        top_p_bits: None,
        seed: None,
        max_tokens: None,
        min_tokens: None,
        stop: None,
        repetition_penalty_bits: None,
        logprobs: None,
        echo: None,
    }
}

#[test]
fn sampling_eps_and_one_match_their_values() {
    assert_eq!(SAMPLING_EPS_BITS, 1e-5f32.to_bits());
    assert_eq!(ONE_BITS, 1.0f32.to_bits());
}

#[test]
fn zero_temperature_without_seed_is_greedy() {
    let r = decoding_method(Some(0.0f32.to_bits()), None);
    assert_eq!(r, DecodingMethod::Greedy);
}

#[test]
fn zero_temperature_with_seed_samples() {
    let r = decoding_method(Some(0.0f32.to_bits()), Some(42));
    assert_eq!(r, DecodingMethod::Sample);
}

#[test]
fn warm_temperature_samples() {
    let r = decoding_method(Some(0.7f32.to_bits()), None);
    assert_eq!(r, DecodingMethod::Sample);
}

#[test]
fn default_temperature_samples() {
    let r = decoding_method(None, None);
    assert_eq!(r, DecodingMethod::Sample);
}

#[test]
fn chat_parameter_defaults() {
    let p = chat_parameters(&base_chat_request());
    assert_eq!(p.method, DecodingMethod::Sample);
    let sampling = p.sampling.unwrap();
    assert_eq!(sampling.temperature_bits, 1.0f32.to_bits());
    assert_eq!(sampling.top_k, 0);
    assert_eq!(sampling.top_p_bits, 1.0f32.to_bits());
    assert_eq!(sampling.typical_p_bits, 0);
    assert_eq!(sampling.seed, None);
    let stopping = p.stopping.unwrap();
    assert_eq!(stopping.max_new_tokens, 16);
    assert_eq!(stopping.min_new_tokens, 0);
    assert_eq!(stopping.time_limit_millis, 0);
    assert!(stopping.stop_sequences.is_empty());
    assert_eq!(stopping.include_stop_sequence, None);
    let response = p.response.unwrap();
    assert!(!response.input_text);
    assert!(!response.generated_tokens);
    assert!(!response.input_tokens);
    assert!(!response.token_logprobs);
    assert!(!response.token_ranks);
    assert_eq!(response.top_n_tokens, 0);
    assert_eq!(p.decoding.unwrap().repetition_penalty_bits, 0);
    assert_eq!(p.truncate_input_tokens, 0);
}

#[test]
fn chat_logprobs_default_one_alternative() {
    let mut req = base_chat_request();
    req.logprobs = Some(true);
    let p = chat_parameters(&req);
    let response = p.response.unwrap();
    assert!(response.generated_tokens);
    assert!(response.token_logprobs);
    assert_eq!(response.top_n_tokens, 1);
}

#[test]
fn chat_stop_single_token_is_wrapped() {
    let mut req = base_chat_request();
    req.stop = Some(StopTokens::Single("###".to_string()));
    let p = chat_parameters(&req);
    assert_eq!(p.stopping.unwrap().stop_sequences, vec!["###".to_string()]);
}

#[test]
fn chat_stop_array_passes_through() {
    let mut req = base_chat_request();
    req.stop = Some(StopTokens::Array(vec!["a".to_string(), "b".to_string()]));
    let p = chat_parameters(&req);
    assert_eq!(
        p.stopping.unwrap().stop_sequences,
        vec!["a".to_string(), "b".to_string()]
    );
}

#[test]
fn completion_echo_and_logprobs_options() {
    let mut req = base_completion_request();
    req.echo = Some(true);
    req.logprobs = Some(3);
    let p = completion_parameters(&req);
    let response = p.response.unwrap();
    assert!(response.input_text);
    assert!(response.generated_tokens);
    assert!(response.input_tokens);
    assert!(response.token_logprobs);
    assert_eq!(response.top_n_tokens, 3);
}

#[test]
fn completion_logprobs_presence_alone_requests_tokens() {
    let mut req = base_completion_request();
    req.logprobs = Some(0);
    let p = completion_parameters(&req);
    let response = p.response.unwrap();
    assert!(response.generated_tokens);
    assert!(!response.input_tokens);
    assert_eq!(response.top_n_tokens, 0);
}
