//! The checks of a widget configuration and of the sample data written for it.

use vstd::prelude::*;
use crate::json::{Json, value_model, result_model, json_text_parse, parse_json};
use crate::fields::{
    DataField, field_views, text_views, data_fields, collect_data_fields,
    conflicting_fields, conflict_errors, first_occurrences, lemma_first_occurrences_names,
};
use crate::text::{str_eq, owned};
use crate::json::{
    value_get, value_as_array, value_as_str, value_as_object, value_number_text, number_text,
    json_get, json_get_str, models,
};
use crate::fields::str_member_or_empty;
use crate::sample::{first_entry, find_entry, lemma_first_entry};
use crate::sample::{
    dynamic_entries, duplicate_errors, field_checks, duplicate_entries, check_fields, push_message,
};

verus! {

/// A data field that the sample data has to provide, with its presentation type.
#[derive(Clone, Debug)]
pub struct DynamicFieldSpec {
    pub name: String,
    pub presentation_type: String,
}

impl View for DynamicFieldSpec {
    type V = (Seq<char>, Seq<char>);

    open spec fn view(&self) -> (Seq<char>, Seq<char>) {
        (self.name@, self.presentation_type@)
    }
}

impl PartialEq for DynamicFieldSpec {
    fn eq(&self, other: &Self) -> (r: bool) {
        self.name == other.name && self.presentation_type == other.presentation_type
    }
}

impl vstd::std_specs::cmp::PartialEqSpecImpl for DynamicFieldSpec {
    open spec fn obeys_eq_spec() -> bool {
        true
    }

    open spec fn eq_spec(&self, other: &Self) -> bool {
        self@ == other@
    }
}

pub open spec fn spec_views(v: Seq<DynamicFieldSpec>) -> Seq<(Seq<char>, Seq<char>)> {
    v.map_values(|s: DynamicFieldSpec| s@)
}

/// What `validate_widget_config` reports for the outcome of parsing the
/// configuration.
pub open spec fn widget_config_report(parsed: Result<Json, Seq<char>>) -> Seq<Seq<char>> {
    match parsed {
        Err(e) => seq!["Invalid JSON in widget config: "@ + e],
        Ok(config) => conflict_errors(data_fields(config)),
    }
}

/// What `extract_dynamic_fields` returns for the outcome of parsing the
/// configuration.
pub open spec fn dynamic_fields_report(parsed: Result<Json, Seq<char>>) -> Seq<(Seq<char>, Seq<char>)> {
    match parsed {
        Err(_) => Seq::empty(),
        Ok(config) => first_occurrences(data_fields(config)),
    }
}

fn invalid_json_text(prefix: &str, e: &String) -> (r: String)
    ensures
        r@ == prefix@ + e@,
{
    let mut m = owned(prefix);
    m.append(e.as_str());
    m
}

/// The problems of a parsed widget configuration: the parse error, or one
/// message for each data field that repeats a name with another
/// presentation type.
pub fn validate_widget_config_parsed(parsed: &Result<serde_json::Value, String>) -> (r: Vec<String>)
    ensures
        text_views(r@) == widget_config_report(result_model(*parsed)),
{
    match parsed {
        Ok(config) => {
            let fields = collect_data_fields(config);
            conflicting_fields(&fields)
        },
        Err(e) => {
            let mut errors: Vec<String> = Vec::new();
            errors.push(invalid_json_text("Invalid JSON in widget config: ", e));
            assert(text_views(errors@) == seq!["Invalid JSON in widget config: "@ + e@]);
            errors
        },
    }
}

/// The problems of a widget configuration given as JSON text.
pub fn validate_widget_config(config_json: &str) -> (r: Vec<String>)
    ensures
        text_views(r@) == widget_config_report(json_text_parse(config_json@)),
{
    let parsed = parse_json(config_json);
    validate_widget_config_parsed(&parsed)
}

fn has_spec_named(specs: &Vec<DynamicFieldSpec>, name: &str) -> (r: bool)
    ensures
        r == exists|k: int| 0 <= k < specs@.len() && (#[trigger] spec_views(specs@)[k]).0 == name@,
{
    let mut k: usize = 0;
    while k < specs.len()
        invariant
            0 <= k <= specs@.len(),
            forall|m: int| 0 <= m < k ==> (#[trigger] spec_views(specs@)[m]).0 != name@,
        decreases specs@.len() - k,
    {
        if str_eq(specs[k].name.as_str(), name) {
            assert(spec_views(specs@)[k as int].0 == name@);
            return true;
        }
        k = k + 1;
    }
    false
}

/// The first field of each name among a list of data fields.
pub fn dynamic_fields_of(fields: &Vec<DataField>) -> (r: Vec<DynamicFieldSpec>)
    ensures
        spec_views(r@) == first_occurrences(field_views(fields@)),
{
    let ghost fs = field_views(fields@);
    let mut specs: Vec<DynamicFieldSpec> = Vec::new();
    let mut i: usize = 0;
    while i < fields.len()
        invariant
            fs == field_views(fields@),
            0 <= i <= fields@.len(),
            spec_views(specs@) == first_occurrences(fs.take(i as int)),
        decreases fields@.len() - i,
    {
        let ghost pre = fs.take(i + 1);
        assert(pre.drop_last() == fs.take(i as int));
        assert(pre.last() == fields@[i as int]@);
        proof {
            lemma_first_occurrences_names(fs.take(i as int), fields@[i as int].name@);
        }
        let ghost prev = specs@;
        if !has_spec_named(&specs, fields[i].name.as_str()) {
            let s = DynamicFieldSpec {
                name: fields[i].name.clone(),
                presentation_type: fields[i].presentation_type.clone(),
            };
            specs.push(s);
            assert(spec_views(specs@) == spec_views(prev).push(s@));
        }
        assert(spec_views(specs@) == first_occurrences(pre));
        i = i + 1;
    }
    assert(fs.take(i as int) == fs);
    specs
}

/// The data fields of a parsed widget configuration, one for each name, in
/// the order in which the names first occur; none for a parse error.
pub fn extract_dynamic_fields_parsed(parsed: &Result<serde_json::Value, String>) -> (r: Vec<
    DynamicFieldSpec,
>)
    ensures
        spec_views(r@) == dynamic_fields_report(result_model(*parsed)),
{
    match parsed {
        Ok(config) => {
            let fields = collect_data_fields(config);
            dynamic_fields_of(&fields)
        },
        Err(_) => {
            let v: Vec<DynamicFieldSpec> = Vec::new();
            assert(spec_views(v@) == Seq::<(Seq<char>, Seq<char>)>::empty());
            v
        },
    }
}

/// The data fields of a widget configuration given as JSON text.
pub fn extract_dynamic_fields(config_json: &str) -> (r: Vec<DynamicFieldSpec>)
    ensures
        spec_views(r@) == dynamic_fields_report(json_text_parse(config_json@)),
{
    let parsed = parse_json(config_json);
    extract_dynamic_fields_parsed(&parsed)
}

/// What `validate_sample_data` reports for the outcomes of parsing the
/// configuration and the sample data.
pub open spec fn sample_report(config: Result<Json, Seq<char>>, sample: Result<Json, Seq<char>>) -> Seq<Seq<char>> {
    let base = widget_config_report(config);
    match config {
        Err(_) => base,
        Ok(c) => match sample {
            Err(e) => base.push("Invalid JSON in sample data: "@ + e),
            Ok(s) => match dynamic_entries(s) {
                None => base.push("Sample data is missing the 'data.dynamic' array."@),
                Some(es) => base + duplicate_errors(es) + field_checks(data_fields(c), es),
            },
        },
    }
}

/// The problems of parsed sample data against a parsed configuration: those
/// of the configuration; then, when both parsed, the parse error of the
/// sample, or a missing `data.dynamic` array, or the entries that repeat a
/// name followed by the problems of the entry of each data field.
pub fn validate_sample_data_parsed(
    config: &Result<serde_json::Value, String>,
    sample: &Result<serde_json::Value, String>,
) -> (r: Vec<String>)
    ensures
        text_views(r@) == sample_report(result_model(*config), result_model(*sample)),
{
    let mut errors = validate_widget_config_parsed(config);
    let cfg = match config {
        Ok(c) => c,
        Err(_) => {
            return errors;
        },
    };
    let smp = match sample {
        Ok(s) => s,
        Err(e) => {
            push_message(&mut errors, invalid_json_text("Invalid JSON in sample data: ", e));
            return errors;
        },
    };
    let dynamic_arr = match value_get(smp, "data") {
        Some(d) => match value_get(d, "dynamic") {
            Some(x) => value_as_array(x),
            None => None,
        },
        None => None,
    };
    let arr = match dynamic_arr {
        Some(a) => a,
        None => {
            push_message(&mut errors, owned("Sample data is missing the 'data.dynamic' array."));
            return errors;
        },
    };
    assert(dynamic_entries(value_model(*smp)) == Some(models(arr@)));
    let ghost base = text_views(errors@);
    let mut dups = duplicate_entries(arr);
    let ghost dv = text_views(dups@);
    errors.append(&mut dups);
    assert(text_views(errors@) == base + dv);
    let fields = collect_data_fields(cfg);
    check_fields(&mut errors, &fields, arr);
    errors
}

/// The problems of sample data against a widget configuration, both given
/// as JSON text.
pub fn validate_sample_data(config_json: &str, sample_data: &str) -> (r: Vec<String>)
    ensures
        text_views(r@) == sample_report(json_text_parse(config_json@), json_text_parse(sample_data@)),
{
    let config = parse_json(config_json);
    let sample = parse_json(sample_data);
    validate_sample_data_parsed(&config, &sample)
}

/// The text shown for the value of an entry, by presentation type: the
/// `url` of an image value, the printed number (or the text) of a number
/// value, the text of any other value; empty where there is none.
pub open spec fn entry_value_text(entry: Json, pres: Seq<char>) -> Seq<char> {
    if pres == "image"@ {
        match json_get(entry, "value"@) {
            Some(v) => str_member_or_empty(v, "url"@),
            None => Seq::empty(),
        }
    } else if pres == "number"@ {
        match json_get(entry, "value"@) {
            Some(Json::Number(n)) => number_text(n),
            Some(Json::Str(t)) => t,
            _ => Seq::empty(),
        }
    } else {
        str_member_or_empty(entry, "value"@)
    }
}

/// What `get_field_value` returns for the outcome of parsing the sample data.
pub open spec fn field_value_report(parsed: Result<Json, Seq<char>>, name: Seq<char>, pres: Seq<char>) -> Seq<char> {
    match parsed {
        Err(_) => Seq::empty(),
        Ok(sample) => match dynamic_entries(sample) {
            None => Seq::empty(),
            Some(es) => match first_entry(es, name) {
                None => Seq::empty(),
                Some(j) => entry_value_text(es[j], pres),
            },
        },
    }
}

fn str_or_empty(v: Option<&str>) -> (r: String)
    ensures
        r@ == match v {
            Some(s) => s@,
            None => Seq::empty(),
        },
{
    match v {
        Some(s) => owned(s),
        None => String::new(),
    }
}

/// The text shown for the sample value of the data field `name`, shown as
/// `pres_type`, in parsed sample data; empty where the data, the
/// `data.dynamic` array or an entry of that name is missing.
pub fn get_field_value_parsed(parsed: &Result<serde_json::Value, String>, name: &str, pres_type: &str) -> (r: String)
    ensures
        r@ == field_value_report(result_model(*parsed), name@, pres_type@),
{
    let sample = match parsed {
        Ok(v) => v,
        Err(_) => {
            return String::new();
        },
    };
    let dynamic_arr = match value_get(sample, "data") {
        Some(d) => match value_get(d, "dynamic") {
            Some(x) => value_as_array(x),
            None => None,
        },
        None => None,
    };
    let arr = match dynamic_arr {
        Some(a) => a,
        None => {
            return String::new();
        },
    };
    let idx: usize = match find_entry(arr, name) {
        Some(i) => i,
        None => {
            return String::new();
        },
    };
    proof {
        lemma_first_entry(models(arr@), name@);
        reveal_strlit("image");
        reveal_strlit("number");
    }
    let ghost es = models(arr@);
    assert(es[idx as int] == value_model(arr@[idx as int]));
    assert(first_entry(es, name@) == Some(idx as int));
    let entry = &arr[idx];
    if str_eq(pres_type, "image") {
        let url = match value_get(entry, "value") {
            Some(v) => match value_get(v, "url") {
                Some(u) => value_as_str(u),
                None => None,
            },
            None => None,
        };
        str_or_empty(url)
    } else if str_eq(pres_type, "number") {
        match value_get(entry, "value") {
            Some(v) => match value_number_text(v) {
                Some(t) => t,
                None => match value_as_str(v) {
                    Some(s) => owned(s),
                    None => String::new(),
                },
            },
            None => String::new(),
        }
    } else {
        let v = match value_get(entry, "value") {
            Some(v) => value_as_str(v),
            None => None,
        };
        str_or_empty(v)
    }
}

/// The text shown for the sample value of a data field, the sample data
/// given as JSON text.
pub fn get_field_value(sample_data: &str, name: &str, pres_type: &str) -> (r: String)
    ensures
        r@ == field_value_report(json_text_parse(sample_data@), name@, pres_type@),
{
    let parsed = parse_json(sample_data);
    get_field_value_parsed(&parsed, name, pres_type)
}

/// The `config_id` and `status` of a configuration: those of its first
/// document if it is an array, else of itself; `None` unless that document is
/// an object with both as texts.
pub open spec fn config_info_report(parsed: Result<Json, Seq<char>>) -> Option<(Seq<char>, Seq<char>)> {
    match parsed {
        Err(_) => None,
        Ok(config) => {
            let doc = match config {
                Json::Array(items) => if items.len() > 0 {
                    Some(items[0])
                } else {
                    None
                },
                _ => Some(config),
            };
            match doc {
                Some(d) => if d is Object {
                    match (json_get_str(d, "config_id"@), json_get_str(d, "status"@)) {
                        (Some(id), Some(status)) => Some((id, status)),
                        _ => None,
                    }
                } else {
                    None
                },
                None => None,
            }
        },
    }
}

fn get_str<'a>(v: &'a serde_json::Value, key: &str) -> (r: Option<&'a str>)
    ensures
        match r {
            Some(s) => json_get_str(value_model(*v), key@) == Some(s@),
            None => json_get_str(value_model(*v), key@) is None,
        },
{
    match value_get(v, key) {
        Some(x) => value_as_str(x),
        None => None,
    }
}

/// The `config_id` and `status` of a parsed widget configuration.
pub fn get_widget_config_info_parsed(parsed: &Result<serde_json::Value, String>) -> (r: Option<(String, String)>)
    ensures
        match r {
            Some(p) => config_info_report(result_model(*parsed)) == Some((p.0@, p.1@)),
            None => config_info_report(result_model(*parsed)) is None,
        },
{
    let config = match parsed {
        Ok(v) => v,
        Err(_) => {
            return None;
        },
    };
    let doc: &serde_json::Value = match value_as_array(config) {
        Some(items) => {
            if items.len() == 0 {
                return None;
            }
            assert(models(items@)[0] == value_model(items@[0]));
            &items[0]
        },
        None => config,
    };
    match value_as_object(doc) {
        Some(_) => {},
        None => {
            return None;
        },
    }
    let config_id = match get_str(doc, "config_id") {
        Some(s) => owned(s),
        None => {
            return None;
        },
    };
    let status = match get_str(doc, "status") {
        Some(s) => owned(s),
        None => {
            return None;
        },
    };
    Some((config_id, status))
}

/// The `config_id` and `status` of a widget configuration given as JSON text.
pub fn get_widget_config_info(config_json: &str) -> (r: Option<(String, String)>)
    ensures
        match r {
            Some(p) => config_info_report(json_text_parse(config_json@)) == Some((p.0@, p.1@)),
            None => config_info_report(json_text_parse(config_json@)) is None,
        },
{
    let parsed = parse_json(config_json);
    get_widget_config_info_parsed(&parsed)
}

} // verus!
