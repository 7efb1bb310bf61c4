use cosmic_scribe::models::{catalog_models, catalog_models_from_json, CatalogModel, CatalogProvider};

fn model(id: &str, name: Option<&str>, price: Option<&str>) -> CatalogModel {
    CatalogModel { id: id.into(), name: name.map(String::from), input_price: price.map(String::from) }
}

#[test]
fn catalogue_entries_are_recommended_first_then_by_id() {
    let providers = vec![
        CatalogProvider {
            id: "openai".into(),
            name: Some("OpenAI".into()),
            models: Some(vec![model("gpt-4o-mini", Some("GPT-4o mini"), Some("0.15")), model("o1", None, None)]),
        },
        CatalogProvider { id: "empty".into(), name: None, models: None },
        CatalogProvider {
            id: "deepseek".into(),
            name: None,
            models: Some(vec![
                model("deepseek-chat", Some("DeepSeek Chat"), Some("0.27")),
                model("long", Some(&"n".repeat(100)), None),
                model("coder", Some("Coder"), Some("1")),
            ]),
        },
    ];
    let entries = catalog_models(&providers);
    let ids: Vec<&str> = entries.iter().map(|e| e.id.as_str()).collect();
    assert_eq!(ids, vec!["deepseek/deepseek-chat", "openai/gpt-4o-mini", "deepseek/coder", "openai/o1"]);
    assert!(entries[0].rec && entries[1].rec && !entries[2].rec);
    assert_eq!(entries[0].name, "DeepSeek Chat (deepseek)");
    assert_eq!(entries[1].pricing, "$0.15/1M");
    assert_eq!(entries[3].name, "o1 (OpenAI)");
    assert_eq!(entries[3].pricing, "$?/1M");
}

#[test]
fn catalogue_json_is_read_into_entries() {
    let data = br#"{
        "openai": {"name": "OpenAI", "models": {"gpt-4o-mini": {"name": "GPT-4o mini", "pricing": {"input": "0.15"}}, "o1": {}}},
        "empty": {"name": 5},
        "deepseek": {"models": {"deepseek-chat": {"name": "DeepSeek Chat"}}}
    }"#;
    let entries = catalog_models_from_json(data);
    let ids: Vec<&str> = entries.iter().map(|e| e.id.as_str()).collect();
    assert_eq!(ids, vec!["deepseek/deepseek-chat", "openai/gpt-4o-mini", "openai/o1"]);
    assert_eq!(entries[0].name, "DeepSeek Chat (deepseek)");
    assert_eq!(entries[0].pricing, "$?/1M");
    assert_eq!(entries[1].pricing, "$0.15/1M");
    assert_eq!(entries[2].name, "o1 (OpenAI)");
    assert!(catalog_models_from_json(b"[1,2]").is_empty());
    assert!(catalog_models_from_json(b"{oops").is_empty());
}
