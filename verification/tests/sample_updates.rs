use widget_identity_creator::{get_field_value, update_sample_data, validate_sample_data};

fn pretty(compact: &str) -> String {
    let v: serde_json::Value = serde_json::from_str(compact).unwrap();
    serde_json::to_string_pretty(&v).unwrap()
}

#[test]
fn update_creates_the_document_and_entry() {
    let mut sample = String::new();
    update_sample_data(&mut sample, "title", "text", "Hello");
    assert_eq!(sample, pretty(r#"{"data":{"dynamic":[{"name":"title","type":1,"value":"Hello"}]}}"#));
    assert_eq!(get_field_value(&sample, "title", "text"), "Hello");
}

#[test]
fn update_replaces_a_document_that_is_not_an_object() {
    let mut sample = "[1, 2]".to_string();
    update_sample_data(&mut sample, "n", "number", "5");
    assert_eq!(sample, pretty(r#"{"data":{"dynamic":[{"name":"n","type":2,"value":5}]}}"#));
}

#[test]
fn update_repairs_data_and_dynamic() {
    let mut sample = r#"{"keep": true, "data": 3}"#.to_string();
    update_sample_data(&mut sample, "pic", "image", "https://x.y/z.png");
    assert_eq!(
        sample,
        pretty(r#"{"keep":true,"data":{"dynamic":[{"name":"pic","type":3,"value":{"url":"https://x.y/z.png"}}]}}"#)
    );
    let mut sample2 = r#"{"data": {"other": 1, "dynamic": "x"}}"#.to_string();
    update_sample_data(&mut sample2, "t", "text", "v");
    assert_eq!(
        sample2,
        pretty(r#"{"data":{"other":1,"dynamic":[{"name":"t","type":1,"value":"v"}]}}"#)
    );
}

#[test]
fn update_changes_the_first_entry_of_the_name_only() {
    let mut sample = r#"{"data": {"dynamic": [
        {"name": "a", "type": 1, "value": "x"},
        {"name": "pic", "type": 1, "value": {"url": "old", "alt": "kept"}, "extra": 1},
        {"name": "pic", "type": 3, "value": {"url": "second"}}
    ]}}"#.to_string();
    update_sample_data(&mut sample, "pic", "image", "new");
    assert_eq!(
        sample,
        pretty(r#"{"data":{"dynamic":[
            {"name":"a","type":1,"value":"x"},
            {"name":"pic","type":3,"value":{"url":"new","alt":"kept"},"extra":1},
            {"name":"pic","type":3,"value":{"url":"second"}}
        ]}}"#)
    );
    assert_eq!(get_field_value(&sample, "pic", "image"), "new");
}

#[test]
fn update_number_values() {
    let mut sample = r#"{"data": {"dynamic": [{"name": "n", "type": 1, "value": "x"}]}}"#.to_string();
    update_sample_data(&mut sample, "n", "number", "+007");
    assert_eq!(sample, pretty(r#"{"data":{"dynamic":[{"name":"n","type":2,"value":7}]}}"#));
    assert_eq!(get_field_value(&sample, "n", "number"), "7");

    update_sample_data(&mut sample, "n", "number", "-12");
    assert_eq!(get_field_value(&sample, "n", "number"), "-12");

    update_sample_data(&mut sample, "n", "number", "2.5");
    assert_eq!(sample, pretty(r#"{"data":{"dynamic":[{"name":"n","type":2,"value":2.5}]}}"#));
    assert_eq!(get_field_value(&sample, "n", "number"), "2.5");

    update_sample_data(&mut sample, "n", "number", "twelve");
    assert_eq!(sample, pretty(r#"{"data":{"dynamic":[{"name":"n","type":2,"value":"twelve"}]}}"#));
    assert_eq!(get_field_value(&sample, "n", "number"), "twelve");

    update_sample_data(&mut sample, "n", "number", "inf");
    assert_eq!(get_field_value(&sample, "n", "number"), "inf");
}

#[test]
fn update_number_beyond_i64_is_a_float() {
    let mut sample = String::new();
    update_sample_data(&mut sample, "big", "number", "9223372036854775808");
    let expected = serde_json::Number::from_f64("9223372036854775808".parse::<f64>().unwrap())
        .unwrap()
        .to_string();
    assert_eq!(get_field_value(&sample, "big", "number"), expected);
    let mut sample2 = String::new();
    update_sample_data(&mut sample2, "min", "number", "-9223372036854775808");
    assert_eq!(get_field_value(&sample2, "min", "number"), "-9223372036854775808");
}

#[test]
fn written_entries_pass_the_entry_check() {
    let config = r#"{"surfaces": {"s": {"components": {"c": {"fields": {
        "a": {"value_type": "data", "value": "pic", "presentation_type": "image"},
        "b": {"value_type": "data", "value": "count", "presentation_type": "number"},
        "c": {"value_type": "data", "value": "title", "presentation_type": "text"}
    }}}}}}"#;
    let mut sample = r#"{"data": {"dynamic": [{"name": "count", "type": 1, "value": {}}]}}"#.to_string();
    update_sample_data(&mut sample, "pic", "image", "https://example.com/p.png");
    update_sample_data(&mut sample, "count", "number", "3");
    update_sample_data(&mut sample, "title", "text", "T");
    assert!(validate_sample_data(config, &sample).is_empty());
    update_sample_data(&mut sample, "pic", "image", "no url");
    update_sample_data(&mut sample, "count", "number", "many");
    assert_eq!(
        validate_sample_data(config, &sample),
        vec![
            "Field 'pic' url is not a valid URL: 'no url'".to_string(),
            "Field 'count' must have a numeric 'value'".to_string(),
        ]
    );
}

#[test]
fn deeply_nested_sample_still_reads_back() {
    let deep = format!("{}1{}", "[".repeat(120), "]".repeat(120));
    let mut sample = format!(r#"{{"other": {deep}, "data": {{"dynamic": []}}}}"#);
    update_sample_data(&mut sample, "title", "text", "Deep");
    assert!(serde_json::from_str::<serde_json::Value>(&sample).is_ok());
    assert_eq!(get_field_value(&sample, "title", "text"), "Deep");
    update_sample_data(&mut sample, "n", "number", "-42");
    assert_eq!(get_field_value(&sample, "n", "number"), "-42");
    assert_eq!(get_field_value(&sample, "title", "text"), "Deep");
}

#[test]
fn written_value_reads_back_from_any_text() {
    for start in ["", "not json", "[]", "{\"data\": []}", "{\"data\": {\"dynamic\": {}}}"] {
        for (pres, val) in [("text", "hello"), ("image", "https://a.b/c.png"), ("number", "7"), ("number", "abc"), ("other", "")] {
            let mut sample = start.to_string();
            update_sample_data(&mut sample, "f", pres, val);
            assert_eq!(get_field_value(&sample, "f", pres), val);
        }
    }
}

#[test]
fn largest_float_reads_back_as_a_number() {
    let mut sample = String::new();
    update_sample_data(&mut sample, "big", "number", "1.7976931348623157e308");
    assert!(serde_json::from_str::<serde_json::Value>(&sample).is_ok());
    assert!(!get_field_value(&sample, "big", "number").is_empty());
}

#[test]
fn repeated_update_changes_nothing() {
    let starts = [
        "",
        r#"{"z": 1, "a": [true, null], "data": {"keep": "x", "dynamic": [{"name": "o", "type": 1, "value": "v"}]}}"#,
        r#"{"data": {"dynamic": [{"value": {"alt": "a", "url": "u"}, "name": "pic", "type": 3, "extra": 1}]}}"#,
    ];
    for start in starts {
        for (name, pres, val) in [("pic", "image", "https://a.b/c.png"), ("n", "number", "12"), ("n", "number", "2.5"), ("t", "text", "hi")] {
            let mut sample = start.to_string();
            update_sample_data(&mut sample, name, pres, val);
            let once = sample.clone();
            update_sample_data(&mut sample, name, pres, val);
            assert_eq!(sample, once);
        }
    }
}

#[test]
fn updated_members_come_in_key_order() {
    let mut sample = r#"{"zeta": 1, "data": {"dynamic": []}, "alpha": 2}"#.to_string();
    update_sample_data(&mut sample, "f", "text", "v");
    let alpha = sample.find("\"alpha\"").unwrap();
    let data = sample.find("\"data\"").unwrap();
    let zeta = sample.find("\"zeta\"").unwrap();
    assert!(alpha < data && data < zeta);
    let name = sample.find("\"name\"").unwrap();
    let ty = sample.find("\"type\"").unwrap();
    let value = sample.find("\"value\"").unwrap();
    assert!(name < ty && ty < value);
}
