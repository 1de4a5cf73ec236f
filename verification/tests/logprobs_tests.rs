use fmaas_router::generation::{TokenInfo, TopToken};

fn token(text: &str, lp: f32, tops: Vec<(&str, f32)>) -> TokenInfo {
    TokenInfo {
        text: text.to_string(),
        logprob_bits: lp.to_bits(),
        top_tokens: tops
            .into_iter()
            .map(|(t, l)| TopToken { text: t.to_string(), logprob_bits: l.to_bits() })
            .collect(),
    }
}

#[test]
fn chat_logprobs_none_for_no_tokens() {
    assert!(fmaas_router::chat::create_logprobs(vec![], 2).is_none());
}

#[test]
fn chat_logprobs_sorted_dedup_and_bounded() {
    let tokens = vec![token(
        "the",
        -0.5,
        vec![("a", -2.0), ("the", -9.0), ("b", -1.0)],
    )];
    let lp = fmaas_router::chat::create_logprobs(tokens, 3).unwrap();
    assert_eq!(lp.content.len(), 1);
    let e = &lp.content[0];
    assert_eq!(e.token, "the");
    assert_eq!(e.logprob_bits, (-0.5f32).to_bits());
    let tops = e.top_logprobs.as_ref().unwrap();
    // Bounded by one more than the number of alternatives.
    assert!(tops.len() <= 4);
    // The chosen token's last-written value wins over the alternative entry.
    assert_eq!(tops.len(), 3);
    // Sorted ascending by log-probability.
    for w in tops.windows(2) {
        assert!(f32::from_bits(w[0].logprob_bits) <= f32::from_bits(w[1].logprob_bits));
    }
    // No duplicate token strings.
    for i in 0..tops.len() {
        for j in (i + 1)..tops.len() {
            assert_ne!(tops[i].token, tops[j].token);
        }
    }
    // Last write wins: "the" carries the chosen token's value.
    let the = tops.iter().find(|t| t.token == "the").unwrap();
    assert_eq!(the.logprob_bits, (-0.5f32).to_bits());
}

#[test]
fn chat_logprobs_without_alternatives_requested() {
    let tokens = vec![token("x", -1.0, vec![("y", -2.0)])];
    let lp = fmaas_router::chat::create_logprobs(tokens, 0).unwrap();
    assert!(lp.content[0].top_logprobs.is_none());
}

#[test]
fn completion_logprobs_parallel_arrays() {
    let tokens = vec![
        token("a", -1.0, vec![("b", -2.0)]),
        token("c", -0.25, vec![]),
    ];
    let lp = fmaas_router::completions::create_logprobs(tokens, 1).unwrap();
    assert_eq!(lp.tokens, vec!["a".to_string(), "c".to_string()]);
    assert_eq!(
        lp.token_logprobs_bits,
        vec![(-1.0f32).to_bits(), (-0.25f32).to_bits()]
    );
    assert!(lp.text_offset.is_empty());
    let tops = lp.top_logprobs.as_ref().unwrap();
    assert_eq!(tops.len(), 2);
    assert_eq!(tops[0].len(), 2);
    assert!(
        f32::from_bits(tops[0][0].logprob_bits) <= f32::from_bits(tops[0][1].logprob_bits)
    );
}

#[test]
fn completion_logprobs_greatest_value_wins() {
    // The same text occurs as an alternative with a greater log-probability
    // than the chosen token's: the greater one is kept.
    let tokens = vec![token("t", -5.0, vec![("t", -0.5)])];
    let lp = fmaas_router::completions::create_logprobs(tokens, 2).unwrap();
    let tops = lp.top_logprobs.as_ref().unwrap();
    assert_eq!(tops[0].len(), 1);
    assert_eq!(tops[0][0].token, "t");
    assert_eq!(tops[0][0].logprob_bits, (-0.5f32).to_bits());
}

#[test]
fn completion_logprobs_none_for_no_tokens() {
    assert!(fmaas_router::completions::create_logprobs(vec![], 2).is_none());
}
