use fmaas_router::openai::Message;
use fmaas_router::template::{normalize_source, ChatTemplate, RawChatTemplate};
use fmaas_router::ModelMap;

#[test]
fn test_render_chat_template() {
    let s = r#"
        generation:
            mistralai/mistral-7b-instruct-v0-2: mistral-7b-instruct-v0-2-inference-server
        chat_templates:
            mistralai/mistral-7b-instruct-v0-2:
                bos_token: "<s>"
                eos_token: "</s>"
                source: >-
                    {{ bos_token }}{% for message in messages %}
                        {% if (message['role'] == 'user') != (loop.index0 % 2 == 0) %}
                            {{ raise_exception('Conversation roles must alternate user/assistant/user/assistant/...') }}
                        {% endif %}
                        {% if message['role'] == 'user' %}
                            {{ '[INST] ' + message['content'] + ' [/INST]' }}
                        {% elif message['role'] == 'assistant' %}
                            {{ message['content'] + eos_token}}
                        {% else %}
                            {{ raise_exception('Only user and assistant roles are supported!') }}
                        {% endif %}
                    {% endfor %}
        "#;
    let model_map: ModelMap = ModelMap::load_str(s).unwrap();
    let messages = vec![
        Message::new("user", "Hey, how are you?", None),
        Message::new("assistant", "Good. How can I help you?", None),
        Message::new(
            "user",
            "I'm just testing to make sure templating works.",
            None,
        ),
    ];
    let chat_template = model_map
        .find_chat_template("mistralai/mistral-7b-instruct-v0-2")
        .unwrap();
    let prompt = chat_template.render(&messages).unwrap();
    assert_eq!(
        prompt,
        "<s>[INST] Hey, how are you? [/INST]Good. How can I help you?</s>[INST] I'm just testing to make sure templating works. [/INST]"
    )
}

#[test]
fn render_rejects_non_alternating_roles() {
    let raw = RawChatTemplate {
        bos_token: "<s>".to_string(),
        eos_token: "</s>".to_string(),
        source: "{{ bos_token }}{% for message in messages %}{% if (message['role'] == 'user') != (loop.index0 % 2 == 0) %}{{ raise_exception('Conversation roles must alternate user/assistant/user/assistant/...') }}{% endif %}{% if message['role'] == 'user' %}{{ '[INST] ' + message['content'] + ' [/INST]' }}{% elif message['role'] == 'assistant' %}{{ message['content'] + eos_token}}{% endif %}{% endfor %}".to_string(),
    };
    let template = ChatTemplate::compile(&raw).unwrap();
    let messages = vec![
        Message::new("user", "a", None),
        Message::new("user", "b", None),
    ];
    let err = template.render(&messages).unwrap_err();
    assert!(err.contains("Conversation roles must alternate"), "unexpected error: {err}");
}

#[test]
fn render_is_deterministic() {
    let raw = RawChatTemplate {
        bos_token: "<s>".to_string(),
        eos_token: "</s>".to_string(),
        source: "{{ bos_token }}{% for m in messages %}{{ m['content'] }}{% endfor %}".to_string(),
    };
    let template = ChatTemplate::compile(&raw).unwrap();
    let messages = vec![Message::new("user", "hi", None)];
    let a = template.render(&messages).unwrap();
    let b = template.render(&messages).unwrap();
    assert_eq!(a, b);
    assert_eq!(a, "<s>hi");
}

#[test]
fn normalize_trims_each_line_and_joins() {
    let normalized = normalize_source("  a b \n\tc\n  \n d");
    assert_eq!(normalized, "a bcd");
}

#[test]
fn compile_rejects_bad_source() {
    let raw = RawChatTemplate {
        bos_token: String::new(),
        eos_token: String::new(),
        source: "{% if %}".to_string(),
    };
    assert!(ChatTemplate::compile(&raw).is_err());
}
