use fmaas_router::generation::{BatchedGenerationRequest, SingleGenerationRequest};
use fmaas_router::handlers::{chat_preflight, completions_preflight};
use fmaas_router::openai::{ChatCompletionRequest, CompletionRequest, Message};
use fmaas_router::rpc::{
    aggregate_models_info, embedding_tasks_gate, extract_model_id, generate_gate,
    generate_stream_gate, get_models_info_gate, info_fanout_plan, lookup_client, tokenize_gate,
    unimplemented_error, BatchedTokenizeRequest, ClientRegistry, EmbeddingTasksRequest, Metadata,
    ModelInfoRequest, ModelInfoResponse, NlpAction, RpcCode,
};
use fmaas_router::ModelMap;

fn meta(pairs: &[(&str, &str)]) -> Metadata {
    Metadata {
        pairs: pairs.iter().map(|(k, v)| (k.to_string(), v.to_string())).collect(),
    }
}

#[test]
fn missing_model_id_is_invalid_argument() {
    let e = extract_model_id(&meta(&[("other", "x")])).unwrap_err();
    assert_eq!(e.code, RpcCode::InvalidArgument);
    assert_eq!(e.message, "Missing required model ID");
}

#[test]
fn model_id_read_from_metadata() {
    let id = extract_model_id(&meta(&[("mm-model-id", "model-7")])).unwrap();
    assert_eq!(id, "model-7");
}

#[test]
fn unknown_model_is_not_found() {
    let registry: ClientRegistry<u32> = ClientRegistry::build(vec![("known".to_string(), 1)]);
    let e = lookup_client(&registry, "nope").unwrap_err();
    assert_eq!(e.code, RpcCode::NotFound);
    assert_eq!(e.message, "Unrecognized model_id: nope");
    assert_eq!(lookup_client(&registry, "known").unwrap(), &1);
}

#[test]
fn embedding_tasks_short_circuits_on_empty_texts() {
    let md = meta(&[("mm-model-id", "m")]);
    let r = embedding_tasks_gate(&md, &EmbeddingTasksRequest { texts: vec![] }).unwrap();
    assert!(matches!(r, NlpAction::RespondDefault));
    let r = embedding_tasks_gate(
        &md,
        &EmbeddingTasksRequest { texts: vec!["t".to_string()] },
    )
    .unwrap();
    assert!(matches!(r, NlpAction::Forward(id) if id == "m"));
}

#[test]
fn embedding_tasks_requires_model_id() {
    let e = embedding_tasks_gate(&meta(&[]), &EmbeddingTasksRequest { texts: vec![] })
        .unwrap_err();
    assert_eq!(e.code, RpcCode::InvalidArgument);
    assert_eq!(e.message, "Missing required model ID");
}

#[test]
fn info_fanout_plans_one_request_per_id() {
    let plan = info_fanout_plan(&ModelInfoRequest {
        model_ids: vec!["a".to_string(), "b".to_string()],
    });
    assert_eq!(plan.len(), 2);
    assert_eq!(plan[0].model_ids, vec!["a".to_string()]);
    assert_eq!(plan[1].model_ids, vec!["b".to_string()]);
}

#[test]
fn info_fanout_aggregates_in_input_order() {
    let parts = vec![
        ModelInfoResponse { models: vec!["A1", "A2"] },
        ModelInfoResponse { models: vec!["B1"] },
    ];
    let all = aggregate_models_info(parts);
    assert_eq!(all.models, vec!["A1", "A2", "B1"]);
}

#[test]
fn info_empty_request_short_circuits() {
    let r: Option<ModelInfoResponse<u8>> =
        get_models_info_gate(&ModelInfoRequest { model_ids: vec![] });
    assert!(r.unwrap().models.is_empty());
}

#[test]
fn generation_gates() {
    let r = generate_gate(&BatchedGenerationRequest {
        model_id: "m".to_string(),
        prefix_id: None,
        requests: vec![],
        params: None,
    });
    assert!(r.unwrap().responses.is_empty());
    let e = generate_stream_gate(&SingleGenerationRequest {
        model_id: "m".to_string(),
        prefix_id: None,
        request: None,
        params: None,
    })
    .unwrap_err();
    assert_eq!(e.code, RpcCode::InvalidArgument);
    assert_eq!(e.message, "missing request");
    let r: Option<fmaas_router::rpc::BatchedTokenizeResponse<u8>> =
        tokenize_gate(&BatchedTokenizeRequest { model_id: "m".to_string(), requests: vec![] });
    assert!(r.unwrap().responses.is_empty());
    let e = unimplemented_error();
    assert_eq!(e.code, RpcCode::Unimplemented);
    assert_eq!(e.message, "not implemented");
}

fn chat_request(model: &str) -> ChatCompletionRequest {
    ChatCompletionRequest {
        model: model.to_string(),
        messages: vec![Message::new("user", "hi", None)],
        stream: None,
        best_of: None,
        use_beam_search: None,
        temperature_bits: None,
        top_k: None,
        top_p_bits: None,
        seed: None,
        max_tokens: None,
        min_tokens: None,
        stop: None,
        repetition_penalty_bits: None,
        logprobs: None,
        top_logprobs: None,
    }
}

fn fixture_map() -> ModelMap {
    ModelMap::load_str(
        "generation:\n  m1: host-a:9000\nchat_templates:\n  m1:\n    bos_token: \"<s>\"\n    eos_token: \"</s>\"\n    source: \"{{ bos_token }}{% for m in messages %}{{ m['content'] }}{% endfor %}\"\n",
    )
    .unwrap()
}

#[test]
fn chat_preflight_best_of_is_not_implemented() {
    let registry: ClientRegistry<u32> = ClientRegistry::build(vec![("m1".to_string(), 1)]);
    let mut req = chat_request("m1");
    req.best_of = Some(2);
    let e = chat_preflight(&registry, &fixture_map(), &req).unwrap_err();
    assert_eq!(e.status, 501);
    assert_eq!(e.message, "`best_of` is not yet implemented");
}

#[test]
fn chat_preflight_beam_search_is_not_implemented() {
    let registry: ClientRegistry<u32> = ClientRegistry::build(vec![("m1".to_string(), 1)]);
    let mut req = chat_request("m1");
    req.use_beam_search = Some(true);
    let e = chat_preflight(&registry, &fixture_map(), &req).unwrap_err();
    assert_eq!(e.status, 501);
    assert_eq!(e.message, "`use_beam_search` is not yet implemented");
}

#[test]
fn chat_preflight_unknown_model_is_422() {
    let registry: ClientRegistry<u32> = ClientRegistry::build(vec![("m1".to_string(), 1)]);
    let e = chat_preflight(&registry, &fixture_map(), &chat_request("no-such")).unwrap_err();
    assert_eq!(e.status, 422);
    assert_eq!(e.message, "Unrecognized model id `no-such`");
}

#[test]
fn chat_preflight_missing_template_is_422() {
    let registry: ClientRegistry<u32> =
        ClientRegistry::build(vec![("m1".to_string(), 1), ("m2".to_string(), 2)]);
    let e = chat_preflight(&registry, &fixture_map(), &chat_request("m2")).unwrap_err();
    assert_eq!(e.status, 422);
    assert_eq!(e.message, "Chat template not found for model id `m2`");
}

#[test]
fn chat_preflight_renders_prompt_and_mints_id() {
    let registry: ClientRegistry<u32> = ClientRegistry::build(vec![("m1".to_string(), 1)]);
    let p = chat_preflight(&registry, &fixture_map(), &chat_request("m1")).unwrap();
    assert_eq!(p.prompt, "<s>hi");
    assert!(p.request_id.starts_with("chatcmpl-"));
    assert_eq!(p.request_id.len(), "chatcmpl-".len() + 32);
    assert!(!p.stream);
    assert_eq!(p.n_logprobs, 0);
}

#[test]
fn chat_preflight_raised_error_is_400() {
    let registry: ClientRegistry<u32> = ClientRegistry::build(vec![("m1".to_string(), 1)]);
    let map = ModelMap::load_str(
        "generation:\n  m1: host-a\nchat_templates:\n  m1:\n    bos_token: \"\"\n    eos_token: \"\"\n    source: \"{{ raise_exception('no way') }}\"\n",
    )
    .unwrap();
    let e = chat_preflight(&registry, &map, &chat_request("m1")).unwrap_err();
    assert_eq!(e.status, 400);
    assert!(e.message.contains("no way"), "unexpected message: {}", e.message);
}

#[test]
fn completions_preflight_gates_and_mints_id() {
    let registry: ClientRegistry<u32> = ClientRegistry::build(vec![("m1".to_string(), 1)]);
    let req = CompletionRequest {
        model: "m1".to_string(),
        prompt: "p".to_string(),
        stream: Some(true),
        best_of: None,
        use_beam_search: None,
        temperature_bits: None,
        top_k: None,
        top_p_bits: None,
        seed: None,
        max_tokens: None,
        min_tokens: None,
        stop: None,
        repetition_penalty_bits: None,
        logprobs: Some(2),
        echo: Some(true),
    };
    let p = completions_preflight(&registry, &req).unwrap();
    assert!(p.request_id.starts_with("cmpl-"));
    assert_eq!(p.request_id.len(), "cmpl-".len() + 32);
    assert!(p.stream);
    assert!(p.echo);
    assert_eq!(p.n_logprobs, 2);
    let mut bad = req;
    bad.model = "zzz".to_string();
    let e = completions_preflight(&registry, &bad).unwrap_err();
    assert_eq!(e.status, 422);
    assert_eq!(e.message, "Unrecognized model id `zzz`");
}

#[test]
fn metadata_first_pair_wins() {
    let md = meta(&[("mm-model-id", "first"), ("mm-model-id", "second")]);
    assert_eq!(extract_model_id(&md).unwrap(), "first");
}

#[test]
fn registry_first_registration_wins() {
    let registry: ClientRegistry<u32> =
        ClientRegistry::build(vec![("m".to_string(), 1), ("m".to_string(), 2)]);
    assert_eq!(lookup_client(&registry, "m").unwrap(), &1);
    assert_eq!(registry.len(), 2);
}
