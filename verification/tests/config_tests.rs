use fmaas_router::config::{parse_service_addr, ConfigError, ModelMap, ModelMapV1, ServiceAddr};

fn chars(s: &str) -> Vec<char> {
    s.chars().collect()
}

#[test]
fn parse_addr_with_port() {
    let a = parse_service_addr(&chars("host-a:9000")).unwrap();
    assert_eq!(a.hostname, "host-a");
    assert_eq!(a.port, Some(9000));
}

#[test]
fn parse_addr_without_port() {
    let a = parse_service_addr(&chars("host-b")).unwrap();
    assert_eq!(a.hostname, "host-b");
    assert_eq!(a.port, None);
}

#[test]
fn parse_addr_bad_port() {
    let e = parse_service_addr(&chars("host:90x0")).unwrap_err();
    assert!(matches!(&e, ConfigError::InvalidPort(p) if p == "90x0"));
    assert_eq!(e.message(), "Invalid port in configured service name: 90x0");
}

#[test]
fn parse_addr_port_out_of_range() {
    let e = parse_service_addr(&chars("host:65536")).unwrap_err();
    assert!(matches!(&e, ConfigError::InvalidPort(p) if p == "65536"));
}

#[test]
fn parse_addr_two_colons() {
    let e = parse_service_addr(&chars("host:90:1")).unwrap_err();
    assert!(matches!(e, ConfigError::TooManyColons(_)));
    assert_eq!(
        e.message(),
        "Configured service name contains more than one : character"
    );
}

#[test]
fn load_legacy_map() {
    let m = ModelMap::load_str("model-a: host-a:9000\nmodel-b: host-b\n").unwrap();
    let gen = m.generation().unwrap();
    assert_eq!(gen.len(), 2);
    assert_eq!(gen[0].0, "model-a");
    assert_eq!(gen[0].1.hostname, "host-a");
    assert_eq!(gen[0].1.port, Some(9000));
    assert_eq!(gen[1].0, "model-b");
    assert_eq!(gen[1].1.port, None);
    assert!(m.embeddings().is_none());
    assert!(m.chat_templates().is_none());
}

#[test]
fn load_legacy_duplicate_key() {
    let e = ModelMap::load_str("m: a\nm: b\n").unwrap_err();
    assert!(matches!(&e, ConfigError::DuplicateKey(k) if k == "m"));
}

#[test]
fn load_current_map_sections() {
    let s = "generation:\n  model-a: host-a:9000\nembeddings:\n  model-c: host-c\n";
    let m = ModelMap::load_str(s).unwrap();
    let gen = m.generation().unwrap();
    assert_eq!(gen.len(), 1);
    assert_eq!(gen[0].0, "model-a");
    assert_eq!(gen[0].1.port, Some(9000));
    let emb = m.embeddings().unwrap();
    assert_eq!(emb.len(), 1);
    assert_eq!(emb[0].0, "model-c");
    assert!(m.chat_templates().unwrap().is_empty());
}

#[test]
fn load_empty_document_is_legacy() {
    let m = ModelMap::load_str("").unwrap();
    let gen = m.generation().unwrap();
    assert!(gen.is_empty());
}

#[test]
fn load_skips_comments_and_blanks() {
    let m = ModelMap::load_str("# a comment\n\nmodel-a: host-a\n").unwrap();
    assert_eq!(m.generation().unwrap().len(), 1);
}

#[test]
fn dump_then_load_round_trip() {
    let entries = vec![
        (
            "model-a".to_string(),
            ServiceAddr { hostname: "host-a".to_string(), port: Some(9000) },
        ),
        (
            "model-b".to_string(),
            ServiceAddr { hostname: "host-b".to_string(), port: None },
        ),
    ];
    let v1 = ModelMapV1(entries);
    let text = v1.dump();
    assert_eq!(text, "model-a: host-a:9000\nmodel-b: host-b\n");
    let reloaded = ModelMap::load_str(&text).unwrap();
    let gen = reloaded.generation().unwrap();
    assert_eq!(gen.len(), 2);
    assert_eq!(gen[0].0, "model-a");
    assert_eq!(gen[0].1.hostname, "host-a");
    assert_eq!(gen[0].1.port, Some(9000));
    assert_eq!(gen[1].0, "model-b");
    assert_eq!(gen[1].1.hostname, "host-b");
    assert_eq!(gen[1].1.port, None);
}

#[test]
fn dump_then_load_round_trip_port_edges() {
    let entries = vec![
        ("m0".to_string(), ServiceAddr { hostname: "h0".to_string(), port: Some(0) }),
        ("m1".to_string(), ServiceAddr { hostname: "h1".to_string(), port: Some(65535) }),
    ];
    let text = ModelMapV1(entries).dump();
    let reloaded = ModelMap::load_str(&text).unwrap();
    let gen = reloaded.generation().unwrap();
    assert_eq!(gen[0].1.port, Some(0));
    assert_eq!(gen[1].1.port, Some(65535));
}

#[test]
fn load_current_template_with_outdent_closing_block() {
    let s = "chat_templates:\n  m:\n    bos_token: b\n    eos_token: e\n    source: >-\n      {{ bos_token }}\n      x\n  n:\n    bos_token: b2\n    eos_token: e2\n    source: plain\n";
    let m = ModelMap::load_str(s).unwrap();
    let tpls = m.chat_templates().unwrap();
    assert_eq!(tpls.len(), 2);
    assert_eq!(tpls[0].0, "m");
    assert_eq!(tpls[1].0, "n");
    assert!(m.find_chat_template("n").is_some());
}

#[test]
fn load_current_incomplete_template_fails() {
    let s = "chat_templates:\n  m:\n    bos_token: b\n    source: plain\n";
    let e = ModelMap::load_str(s).unwrap_err();
    assert!(matches!(&e, ConfigError::IncompleteTemplate(k) if k == "m"));
}

#[test]
fn load_current_duplicate_template_model_fails() {
    let s = "chat_templates:\n  m:\n    bos_token: b\n    eos_token: e\n    source: plain\n  m:\n    bos_token: b\n    eos_token: e\n    source: plain\n";
    let e = ModelMap::load_str(s).unwrap_err();
    assert!(matches!(&e, ConfigError::DuplicateKey(k) if k == "m"));
}

#[test]
fn target_port_defaults_when_absent() {
    let a = ServiceAddr { hostname: "h".to_string(), port: None };
    assert_eq!(a.target_port(8033), 8033);
    let b = ServiceAddr { hostname: "h".to_string(), port: Some(1) };
    assert_eq!(b.target_port(8033), 1);
}
