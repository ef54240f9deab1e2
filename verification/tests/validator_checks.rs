use widget_identity_creator::{
    extract_dynamic_fields, get_field_value, get_widget_config_info, validate_sample_data,
    validate_widget_config, DynamicFieldSpec,
};

fn parse_error(text: &str) -> String {
    serde_json::from_str::<serde_json::Value>(text).unwrap_err().to_string()
}

const CONFIG: &str = r#"{
  "config_id": "cfg-1",
  "status": "draft",
  "surfaces": {
    "main": {
      "components": {
        "header": {
          "fields": {
            "avatar": {"value_type": "data", "value": "avatar_url", "presentation_type": "image"},
            "label": {"value_type": "static", "value": "Hello", "presentation_type": "text"},
            "title": {"value_type": "data", "value": "title", "presentation_type": "text"}
          }
        },
        "stats": {
          "fields": {
            "count": {"value_type": "data", "value": "count", "presentation_type": "number"},
            "empty": {"value_type": "data", "value": "", "presentation_type": "text"}
          }
        }
      }
    }
  }
}"#;

const GOOD_SAMPLE: &str = r#"{
  "data": {
    "dynamic": [
      {"name": "avatar_url", "type": 3, "value": {"url": "https://example.com/a.png"}},
      {"name": "title", "type": 1, "value": "Champion"},
      {"name": "count", "type": 2, "value": 12}
    ]
  }
}"#;

#[test]
fn widget_config_without_conflicts_has_no_errors() {
    assert_eq!(validate_widget_config(CONFIG), Vec::<String>::new());
}

#[test]
fn widget_config_invalid_json() {
    let errors = validate_widget_config("{");
    assert_eq!(errors, vec![format!("Invalid JSON in widget config: {}", parse_error("{"))]);
}

#[test]
fn widget_config_conflicting_presentation_types() {
    let config = r#"{"surfaces": {
        "a": {"components": {"c1": {"fields": {"f1": {"value_type": "data", "value": "x", "presentation_type": "text"}}}}},
        "b": {"components": {"c2": {"fields": {
            "f2": {"value_type": "data", "value": "x", "presentation_type": "image"},
            "f3": {"value_type": "data", "value": "x", "presentation_type": "text"},
            "f4": {"value_type": "data", "value": "x", "presentation_type": "number"}
        }}}}
    }}"#;
    let errors = validate_widget_config(config);
    assert_eq!(
        errors,
        vec![
            "Data field 'x' is defined multiple times in widget configuration with conflicting presentation types ('text' vs 'image' in b.c2.f2).".to_string(),
            "Data field 'x' is defined multiple times in widget configuration with conflicting presentation types ('text' vs 'number' in b.c2.f4).".to_string(),
        ]
    );
}

#[test]
fn widget_config_array_of_documents_is_walked_in_order() {
    let config = r#"[
        {"surfaces": {"s": {"components": {"c": {"fields": {"f": {"value_type": "data", "value": "n", "presentation_type": "number"}}}}}}},
        {"surfaces": {"t": {"components": {"d": {"fields": {"g": {"value_type": "data", "value": "n", "presentation_type": "text"}}}}}}}
    ]"#;
    assert_eq!(
        validate_widget_config(config),
        vec!["Data field 'n' is defined multiple times in widget configuration with conflicting presentation types ('number' vs 'text' in t.d.g).".to_string()]
    );
}

#[test]
fn widget_config_other_shapes_have_no_fields() {
    assert!(validate_widget_config("42").is_empty());
    assert!(validate_widget_config("[]").is_empty());
    assert!(validate_widget_config(r#"{"surfaces": []}"#).is_empty());
    assert!(extract_dynamic_fields(r#"{"surfaces": {"s": {"components": 3}}}"#).is_empty());
}

#[test]
fn dynamic_fields_first_of_each_name() {
    let specs = extract_dynamic_fields(CONFIG);
    assert_eq!(
        specs,
        vec![
            DynamicFieldSpec { name: "avatar_url".to_string(), presentation_type: "image".to_string() },
            DynamicFieldSpec { name: "title".to_string(), presentation_type: "text".to_string() },
            DynamicFieldSpec { name: "count".to_string(), presentation_type: "number".to_string() },
        ]
    );
}

#[test]
fn dynamic_fields_distinct_names() {
    let config = r#"{"surfaces": {"s": {"components": {"c": {"fields": {
        "a": {"value_type": "data", "value": "x", "presentation_type": "text"},
        "b": {"value_type": "data", "value": "y"},
        "c": {"value_type": "data", "value": "x", "presentation_type": "image"}
    }}}}}}"#;
    let specs = extract_dynamic_fields(config);
    assert_eq!(
        specs,
        vec![
            DynamicFieldSpec { name: "x".to_string(), presentation_type: "text".to_string() },
            DynamicFieldSpec { name: "y".to_string(), presentation_type: "".to_string() },
        ]
    );
    assert!(extract_dynamic_fields("not json").is_empty());
}

#[test]
fn sample_matching_config_has_no_errors() {
    assert_eq!(validate_sample_data(CONFIG, GOOD_SAMPLE), Vec::<String>::new());
}

#[test]
fn sample_with_invalid_config_reports_only_the_config() {
    let errors = validate_sample_data("{\"a\":", GOOD_SAMPLE);
    assert_eq!(errors, vec![format!("Invalid JSON in widget config: {}", parse_error("{\"a\":"))]);
}

#[test]
fn sample_invalid_json() {
    let errors = validate_sample_data(CONFIG, "[1,");
    assert_eq!(errors, vec![format!("Invalid JSON in sample data: {}", parse_error("[1,"))]);
}

#[test]
fn sample_without_dynamic_array() {
    assert_eq!(
        validate_sample_data(CONFIG, r#"{"data": {}}"#),
        vec!["Sample data is missing the 'data.dynamic' array.".to_string()]
    );
    assert_eq!(
        validate_sample_data(CONFIG, r#"{"data": {"dynamic": {}}}"#),
        vec!["Sample data is missing the 'data.dynamic' array.".to_string()]
    );
}

#[test]
fn sample_duplicates_and_missing_fields() {
    let sample = r#"{"data": {"dynamic": [
        {"name": "title", "type": 1, "value": "A"},
        {"name": "title", "type": 1, "value": "B"},
        {"name": "count", "type": 2, "value": 3},
        {"name": "title", "type": 1, "value": "C"}
    ]}}"#;
    assert_eq!(
        validate_sample_data(CONFIG, sample),
        vec![
            "Duplicate data field 'title' found in sample data.".to_string(),
            "Duplicate data field 'title' found in sample data.".to_string(),
            "Missing dynamic field 'avatar_url' (required for main.header.avatar)".to_string(),
        ]
    );
}

#[test]
fn sample_entry_type_and_value_errors() {
    let sample = r#"{"data": {"dynamic": [
        {"name": "avatar_url", "type": 1, "value": {"url": "not a url"}},
        {"name": "title", "value": 5},
        {"name": "count", "type": 2, "value": "12"}
    ]}}"#;
    assert_eq!(
        validate_sample_data(CONFIG, sample),
        vec![
            "Field 'avatar_url' has presentation_type 'image' so 'type' must be 3 (found Some(1))".to_string(),
            "Field 'avatar_url' url is not a valid URL: 'not a url'".to_string(),
            "Field 'title' has presentation_type 'text' so 'type' must be 1 (found None)".to_string(),
            "Field 'title' must have a string 'value'".to_string(),
            "Field 'count' must have a numeric 'value'".to_string(),
        ]
    );
}

#[test]
fn sample_image_value_shapes() {
    let sample = r#"{"data": {"dynamic": [
        {"name": "avatar_url", "type": 3, "value": "https://example.com"},
        {"name": "title", "type": 1, "value": "t"},
        {"name": "count", "type": -7, "value": 1.5}
    ]}}"#;
    assert_eq!(
        validate_sample_data(CONFIG, sample),
        vec![
            "Field 'avatar_url' must have 'value' as an object like {\"url\": \"...\"}".to_string(),
            "Field 'count' has presentation_type 'number' so 'type' must be 2 (found Some(-7))".to_string(),
        ]
    );
    let sample2 = r#"{"data": {"dynamic": [
        {"name": "avatar_url", "type": 3, "value": {"link": "x"}},
        {"name": "title", "type": 1, "value": "t"},
        {"name": "count", "type": 2.0, "value": 1}
    ]}}"#;
    assert_eq!(
        validate_sample_data(CONFIG, sample2),
        vec![
            "Field 'avatar_url' 'value' object must contain a string 'url'".to_string(),
            "Field 'count' has presentation_type 'number' so 'type' must be 2 (found None)".to_string(),
        ]
    );
}

#[test]
fn sample_unknown_presentation_type_is_not_checked() {
    let config = r#"{"surfaces": {"s": {"components": {"c": {"fields": {
        "f": {"value_type": "data", "value": "v", "presentation_type": "video"}
    }}}}}}"#;
    let sample = r#"{"data": {"dynamic": [{"name": "v", "type": 9}]}}"#;
    assert!(validate_sample_data(config, sample).is_empty());
}

#[test]
fn sample_report_starts_with_config_report() {
    let config = r#"{"surfaces": {
        "a": {"components": {"c": {"fields": {"f": {"value_type": "data", "value": "x", "presentation_type": "text"}}}}},
        "b": {"components": {"c": {"fields": {"f": {"value_type": "data", "value": "x", "presentation_type": "image"}}}}}
    }}"#;
    let config_errors = validate_widget_config(config);
    let sample_errors = validate_sample_data(config, r#"{"data": {"dynamic": []}}"#);
    assert_eq!(config_errors.len(), 1);
    assert_eq!(&sample_errors[..1], &config_errors[..]);
    assert_eq!(sample_errors[1], "Missing dynamic field 'x' (required for a.c.f)");
}

#[test]
fn field_values_by_presentation_type() {
    assert_eq!(get_field_value(GOOD_SAMPLE, "avatar_url", "image"), "https://example.com/a.png");
    assert_eq!(get_field_value(GOOD_SAMPLE, "title", "text"), "Champion");
    assert_eq!(get_field_value(GOOD_SAMPLE, "count", "number"), "12");
    assert_eq!(get_field_value(GOOD_SAMPLE, "count", "text"), "");
    assert_eq!(get_field_value(GOOD_SAMPLE, "missing", "text"), "");
    assert_eq!(get_field_value("nope", "title", "text"), "");
    assert_eq!(get_field_value(r#"{"data": {}}"#, "title", "text"), "");
}

#[test]
fn field_values_of_numbers() {
    let sample = r#"{"data": {"dynamic": [
        {"name": "a", "value": 1.5},
        {"name": "b", "value": "7 apples"},
        {"name": "c", "value": -3},
        {"name": "d", "value": true},
        {"name": "a", "value": 99}
    ]}}"#;
    assert_eq!(get_field_value(sample, "a", "number"), "1.5");
    assert_eq!(get_field_value(sample, "b", "number"), "7 apples");
    assert_eq!(get_field_value(sample, "c", "number"), "-3");
    assert_eq!(get_field_value(sample, "d", "number"), "");
}

#[test]
fn config_info_of_object_and_array() {
    assert_eq!(get_widget_config_info(CONFIG), Some(("cfg-1".to_string(), "draft".to_string())));
    assert_eq!(
        get_widget_config_info(r#"[{"config_id": "a", "status": "published"}, {"config_id": "b", "status": "draft"}]"#),
        Some(("a".to_string(), "published".to_string()))
    );
    assert_eq!(get_widget_config_info("[]"), None);
    assert_eq!(get_widget_config_info(r#"[1]"#), None);
    assert_eq!(get_widget_config_info(r#"{"config_id": "a"}"#), None);
    assert_eq!(get_widget_config_info(r#"{"config_id": 1, "status": "draft"}"#), None);
    assert_eq!(get_widget_config_info("{"), None);
}

#[test]
fn unused_sample_entry_changes_nothing() {
    let with_extra = GOOD_SAMPLE.replace(
        r#"{"name": "count", "type": 2, "value": 12}"#,
        r#"{"name": "count", "type": 2, "value": 12}, {"name": "unused", "type": 9}"#,
    );
    assert_ne!(with_extra, GOOD_SAMPLE);
    assert_eq!(validate_sample_data(CONFIG, &with_extra), validate_sample_data(CONFIG, GOOD_SAMPLE));
    let partial = r#"{"data": {"dynamic": [{"name": "title", "type": 2, "value": "x"}]}}"#;
    let partial_extra = r#"{"data": {"dynamic": [{"name": "title", "type": 2, "value": "x"}, {"name": "zzz"}]}}"#;
    assert_eq!(validate_sample_data(CONFIG, partial_extra), validate_sample_data(CONFIG, partial));
}

#[test]
fn single_document_list_checks_like_the_document() {
    let conflicting = r#"{"config_id": "k", "status": "Draft", "surfaces": {"s": {"components": {"c": {"fields": {
        "a": {"value_type": "data", "value": "x", "presentation_type": "text"},
        "b": {"value_type": "data", "value": "x", "presentation_type": "number"}}}}}}}"#;
    for doc in [CONFIG, conflicting] {
        let list = format!("[{doc}]");
        assert_eq!(validate_widget_config(&list), validate_widget_config(doc));
        assert_eq!(extract_dynamic_fields(&list), extract_dynamic_fields(doc));
        assert_eq!(get_widget_config_info(&list), get_widget_config_info(doc));
        assert_eq!(validate_sample_data(&list, GOOD_SAMPLE), validate_sample_data(doc, GOOD_SAMPLE));
    }
}

#[test]
fn static_fields_change_nothing() {
    let more = CONFIG.replace(
        r#""label": {"value_type": "static", "value": "Hello", "presentation_type": "text"},"#,
        r#""label": {"value_type": "static", "value": "Hello", "presentation_type": "text"},
            "aaa": {"value_type": "static", "value": "title", "presentation_type": "image"},
            "nameless": {"value_type": "data", "value": "", "presentation_type": "image"},
            "numbered": {"value_type": "data", "value": 5, "presentation_type": "image"},"#,
    );
    assert_ne!(more, CONFIG);
    assert_eq!(validate_widget_config(&more), validate_widget_config(CONFIG));
    assert_eq!(extract_dynamic_fields(&more), extract_dynamic_fields(CONFIG));
    assert_eq!(validate_sample_data(&more, GOOD_SAMPLE), validate_sample_data(CONFIG, GOOD_SAMPLE));
}

#[test]
fn no_conflicts_means_one_type_per_name() {
    let config = r#"[{"surfaces": {"s": {"components": {"c": {"fields": {
        "a": {"value_type": "data", "value": "x", "presentation_type": "image"},
        "b": {"value_type": "data", "value": "y", "presentation_type": "text"}}}}}}},
        {"surfaces": {"t": {"components": {"d": {"fields": {
        "e": {"value_type": "data", "value": "x", "presentation_type": "image"}}}}}}}]"#;
    assert!(validate_widget_config(config).is_empty());
    let specs = extract_dynamic_fields(config);
    assert_eq!(specs.len(), 2);
    assert_eq!(specs[0].name, "x");
    assert_eq!(specs[0].presentation_type, "image");
    assert_eq!(specs[1].name, "y");
    assert_eq!(specs[1].presentation_type, "text");
}

#[test]
fn filling_every_field_passes_validation() {
    for start in ["", "garbage", r#"{"data": {"dynamic": [{"name": "title", "type": 7, "value": 1}]}}"#] {
        let mut sample = start.to_string();
        for spec in extract_dynamic_fields(CONFIG) {
            let val = match spec.presentation_type.as_str() {
                "image" => "https://example.com/pic.png",
                "number" => "2.5",
                _ => "words",
            };
            widget_identity_creator::update_sample_data(&mut sample, &spec.name, &spec.presentation_type, val);
        }
        assert_eq!(validate_sample_data(CONFIG, &sample), Vec::<String>::new());
    }
}
