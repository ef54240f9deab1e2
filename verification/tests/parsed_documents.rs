use widget_identity_creator::{
    extract_dynamic_fields_parsed, get_field_value_parsed, get_widget_config_info_parsed,
    parse_json, update_sample_value, validate_sample_data_parsed, validate_widget_config_parsed,
    DynamicFieldSpec,
};

fn parsed(text: &str) -> Result<serde_json::Value, String> {
    serde_json::from_str::<serde_json::Value>(text).map_err(|e| e.to_string())
}

#[test]
fn parse_json_gives_the_document_or_the_error_text() {
    assert_eq!(parse_json("[1, 2]"), parsed("[1, 2]"));
    assert_eq!(parse_json("[1, 2"), parsed("[1, 2"));
    assert!(parse_json("tru").is_err());
}

#[test]
fn checks_on_parsed_documents() {
    let config = parsed(r#"{"surfaces": {"s": {"components": {"c": {"fields": {
        "f": {"value_type": "data", "value": "v", "presentation_type": "text"},
        "g": {"value_type": "data", "value": "v", "presentation_type": "number"}
    }}}}}}"#);
    assert_eq!(
        validate_widget_config_parsed(&config),
        vec!["Data field 'v' is defined multiple times in widget configuration with conflicting presentation types ('text' vs 'number' in s.c.g).".to_string()]
    );
    assert_eq!(
        extract_dynamic_fields_parsed(&config),
        vec![DynamicFieldSpec { name: "v".to_string(), presentation_type: "text".to_string() }]
    );
    let sample = parsed(r#"{"data": {"dynamic": [{"name": "v", "type": 1, "value": "x"}]}}"#);
    assert_eq!(
        validate_sample_data_parsed(&config, &sample)[1..],
        [
            "Field 'v' has presentation_type 'number' so 'type' must be 2 (found Some(1))".to_string(),
            "Field 'v' must have a numeric 'value'".to_string(),
        ]
    );
    assert_eq!(get_field_value_parsed(&sample, "v", "text"), "x");
    assert_eq!(
        validate_widget_config_parsed(&Err("bad".to_string())),
        vec!["Invalid JSON in widget config: bad".to_string()]
    );
    assert_eq!(
        validate_sample_data_parsed(&config, &Err("worse".to_string()))[1],
        "Invalid JSON in sample data: worse"
    );
    assert_eq!(get_widget_config_info_parsed(&parsed(r#"{"config_id": "c", "status": "s"}"#)), Some(("c".to_string(), "s".to_string())));
}

#[test]
fn update_of_a_parsed_sample() {
    let v = update_sample_value(parsed(r#"{"data": {"dynamic": []}, "x": 1}"#), "t", "text", "hi");
    assert_eq!(v, parsed(r#"{"x": 1, "data": {"dynamic": [{"name": "t", "type": 1, "value": "hi"}]}}"#).unwrap());
    let w = update_sample_value(Err("broken".to_string()), "n", "number", "4");
    assert_eq!(w, parsed(r#"{"data": {"dynamic": [{"name": "n", "type": 2, "value": 4}]}}"#).unwrap());
}
