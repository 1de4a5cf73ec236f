use fmaas_router::chat::{chat_stream_collect, chat_unary_response};
use fmaas_router::completions::{completion_stream_collect, completion_unary_response};
use fmaas_router::generation::{FinishReason, GenerationResponse, StopReason, TokenInfo};
use fmaas_router::openai::{ChatEvent, CompletionEvent, Usage};

fn msg(text: &str, stop: StopReason) -> GenerationResponse {
    GenerationResponse {
        input_token_count: 0,
        generated_token_count: 0,
        text: text.to_string(),
        stop_reason: stop,
        tokens: vec![],
        input_tokens: vec![],
    }
}

#[test]
fn chat_stream_role_chunk_first_and_done_last() {
    let mut first = msg("", StopReason::NotFinished);
    first.input_token_count = 3;
    let mut last = msg("!", StopReason::EosToken);
    last.generated_token_count = 2;
    let upstream = vec![first, msg("Hello", StopReason::NotFinished), last];
    let events = chat_stream_collect("id-1".to_string(), 7, "m".to_string(), 0, upstream);
    assert_eq!(events.len(), 4);
    match &events[0] {
        ChatEvent::Chunk(c) => {
            assert_eq!(c.id, "id-1");
            assert_eq!(c.choices.len(), 1);
            assert_eq!(c.choices[0].delta.role.as_deref(), Some("assistant"));
            assert!(c.choices[0].delta.content.is_none());
            assert!(c.choices[0].finish_reason.is_none());
            assert!(c.usage.is_none());
        },
        ChatEvent::Done => panic!("role chunk expected first"),
    }
    assert!(matches!(events[3], ChatEvent::Done));
}

#[test]
fn chat_stream_concatenates_upstream_texts() {
    let mut first = msg("", StopReason::NotFinished);
    first.input_token_count = 3;
    let mut last = msg("!", StopReason::EosToken);
    last.generated_token_count = 2;
    let upstream = vec![first, msg("Hello", StopReason::NotFinished), last];
    let events = chat_stream_collect("id-1".to_string(), 7, "m".to_string(), 0, upstream);
    let mut contents = String::new();
    for e in &events {
        if let ChatEvent::Chunk(c) = e {
            if let Some(text) = &c.choices[0].delta.content {
                contents.push_str(text);
            }
        }
    }
    assert_eq!(contents, "Hello!");
    // The non-terminal body chunk carries no finish reason and no usage; the
    // terminal one carries both.
    match &events[1] {
        ChatEvent::Chunk(c) => {
            assert!(c.choices[0].finish_reason.is_none());
            assert!(c.usage.is_none());
        },
        _ => panic!(),
    }
    match &events[2] {
        ChatEvent::Chunk(c) => {
            assert_eq!(c.choices[0].finish_reason, Some(FinishReason::Stop));
            assert_eq!(
                c.usage,
                Some(Usage { completion_tokens: 2, prompt_tokens: 3, total_tokens: 5 })
            );
        },
        _ => panic!(),
    }
}

#[test]
fn completion_stream_with_echo_buffers_prefixes() {
    // Upstream: the first message carries the prompt token count and the
    // echoed input text, the second the input tokens, then two body messages.
    let mut m1 = msg("PREFIX", StopReason::NotFinished);
    m1.input_token_count = 3;
    let mut m2 = msg("", StopReason::NotFinished);
    m2.input_tokens = vec![
        TokenInfo { text: "t0".to_string(), logprob_bits: 0, top_tokens: vec![] },
        TokenInfo { text: "t1".to_string(), logprob_bits: 0, top_tokens: vec![] },
        TokenInfo { text: "t2".to_string(), logprob_bits: 0, top_tokens: vec![] },
    ];
    let m3 = msg("A", StopReason::NotFinished);
    let mut m4 = msg("B", StopReason::EosToken);
    m4.generated_token_count = 2;
    let events = completion_stream_collect(
        "id-2".to_string(),
        9,
        "m".to_string(),
        0,
        true,
        vec![m1, m2, m3, m4],
    );
    assert_eq!(events.len(), 3);
    match &events[0] {
        CompletionEvent::Chunk(c) => {
            assert_eq!(c.choices[0].text.as_deref(), Some("PREFIXA"));
            assert!(c.choices[0].finish_reason.is_none());
            assert!(c.usage.is_none());
        },
        _ => panic!("chunk expected"),
    }
    match &events[1] {
        CompletionEvent::Chunk(c) => {
            assert_eq!(c.choices[0].text.as_deref(), Some("B"));
            assert_eq!(c.choices[0].finish_reason, Some(FinishReason::Stop));
            assert_eq!(
                c.usage,
                Some(Usage { completion_tokens: 2, prompt_tokens: 3, total_tokens: 5 })
            );
        },
        _ => panic!("chunk expected"),
    }
    assert!(matches!(events[2], CompletionEvent::Done));
}

#[test]
fn completion_stream_without_echo() {
    let mut m1 = msg("", StopReason::NotFinished);
    m1.input_token_count = 1;
    let mut m2 = msg("out", StopReason::MaxTokens);
    m2.generated_token_count = 4;
    let events =
        completion_stream_collect("id".to_string(), 0, "m".to_string(), 0, false, vec![m1, m2]);
    assert_eq!(events.len(), 2);
    match &events[0] {
        CompletionEvent::Chunk(c) => {
            assert_eq!(c.choices[0].text.as_deref(), Some("out"));
            assert_eq!(c.choices[0].finish_reason, Some(FinishReason::Length));
            assert_eq!(
                c.usage,
                Some(Usage { completion_tokens: 4, prompt_tokens: 1, total_tokens: 5 })
            );
        },
        _ => panic!(),
    }
}

#[test]
fn chat_unary_assembles_choice_and_usage() {
    let mut g = msg("hello", StopReason::StopSequence);
    g.input_token_count = 10;
    g.generated_token_count = 5;
    let c = chat_unary_response("rid".to_string(), 3, "m".to_string(), 0, g).unwrap();
    assert_eq!(c.id, "rid");
    assert_eq!(c.created, 3);
    assert_eq!(c.model, "m");
    assert_eq!(c.choices.len(), 1);
    assert_eq!(c.choices[0].index, 0);
    assert_eq!(c.choices[0].message.role.as_deref(), Some("assistant"));
    assert_eq!(c.choices[0].message.content.as_deref(), Some("hello"));
    assert_eq!(c.choices[0].finish_reason, FinishReason::Stop);
    assert_eq!(
        c.usage,
        Usage { completion_tokens: 5, prompt_tokens: 10, total_tokens: 15 }
    );
}

#[test]
fn chat_unary_rejects_unfinished_response() {
    let g = msg("x", StopReason::NotFinished);
    let e = chat_unary_response("rid".to_string(), 0, "m".to_string(), 0, g).unwrap_err();
    assert_eq!(e.status, 500);
}

#[test]
fn completion_unary_prepends_input_tokens() {
    let mut g = msg("text", StopReason::TimeLimit);
    g.input_token_count = 2;
    g.generated_token_count = 1;
    g.input_tokens = vec![TokenInfo {
        text: "in".to_string(),
        logprob_bits: (-0.1f32).to_bits(),
        top_tokens: vec![],
    }];
    g.tokens = vec![TokenInfo {
        text: "out".to_string(),
        logprob_bits: (-0.2f32).to_bits(),
        top_tokens: vec![],
    }];
    let c = completion_unary_response("rid".to_string(), 0, "m".to_string(), 0, g).unwrap();
    assert_eq!(c.choices[0].text.as_deref(), Some("text"));
    assert_eq!(c.choices[0].finish_reason, Some(FinishReason::Abort));
    let lp = c.choices[0].logprobs.as_ref().unwrap();
    assert_eq!(lp.tokens, vec!["in".to_string(), "out".to_string()]);
    assert_eq!(
        c.usage,
        Some(Usage { completion_tokens: 1, prompt_tokens: 2, total_tokens: 3 })
    );
}
