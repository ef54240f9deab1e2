//! The checks of the sample data against the data fields of a configuration.
//!
//! The sample data is a document whose `data.dynamic` array lists one entry
//! for each data field: its `name`, its `type` (3 for an image, 1 for a
//! text, 2 for a number) and its `value`.

use vstd::prelude::*;
use crate::json::{
    Json, value_model, models, json_get, json_get_str, json_as_i64, value_get, value_as_str,
    value_as_i64, value_is_object, value_is_string, value_is_number,
};
use crate::fields::{DataField, DataFieldView, field_views, text_views};
use crate::text::{str_eq, owned, option_i64_text, option_i64_debug};

verus! {

/// Whether `reqwest::Url::parse` accepts a text.
pub uninterp spec fn url_parse_ok(text: Seq<char>) -> bool;

/// `reqwest::Url::parse(text).is_ok()`; claimed: the answer is the one
/// `url_parse_ok` names for the text.
#[verifier::external_body]
pub fn url_parses(text: &str) -> (r: bool)
    ensures
        r == url_parse_ok(text@),
{
    reqwest::Url::parse(text).is_ok()
}

pub fn push_message(errors: &mut Vec<String>, m: String)
    ensures
        text_views(final(errors)@) == text_views(old(errors)@).push(m@),
{
    let ghost prev = errors@;
    errors.push(m);
    assert(text_views(errors@) == text_views(prev).push(m@));
}

/// The `type` of an entry: `get("type").and_then(as_i64)`.
pub open spec fn entry_type(entry: Json) -> Option<i64> {
    match json_get(entry, "type"@) {
        Some(t) => json_as_i64(t),
        None => None,
    }
}

/// The message for an entry whose `type` does not fit its presentation type.
pub open spec fn type_message(name: Seq<char>, pres: Seq<char>, found: Option<i64>) -> Seq<char> {
    if pres == "image"@ {
        "Field '"@ + name + "' has presentation_type 'image' so 'type' must be 3 (found "@
            + option_i64_debug(found) + ")"@
    } else if pres == "text"@ {
        "Field '"@ + name + "' has presentation_type 'text' so 'type' must be 1 (found "@
            + option_i64_debug(found) + ")"@
    } else {
        "Field '"@ + name + "' has presentation_type 'number' so 'type' must be 2 (found "@
            + option_i64_debug(found) + ")"@
    }
}

/// The problems of the `value` of an image entry.
pub open spec fn image_value_errors(name: Seq<char>, value: Option<Json>) -> Seq<Seq<char>> {
    match value {
        Some(v) => if v is Object {
            match json_get_str(v, "url"@) {
                Some(url) => if url_parse_ok(url) {
                    Seq::empty()
                } else {
                    seq!["Field '"@ + name + "' url is not a valid URL: '"@ + url + "'"@]
                },
                None => seq!["Field '"@ + name + "' 'value' object must contain a string 'url'"@],
            }
        } else {
            seq!["Field '"@ + name + "' must have 'value' as an object like {\"url\": \"...\"}"@]
        },
        None => seq!["Field '"@ + name + "' must have 'value' as an object like {\"url\": \"...\"}"@],
    }
}

/// The problems of the sample entry of a data field, by its presentation
/// type; none for a presentation type other than image, text and number.
pub open spec fn entry_errors(name: Seq<char>, pres: Seq<char>, entry: Json) -> Seq<Seq<char>> {
    let found = entry_type(entry);
    let value = json_get(entry, "value"@);
    if pres == "image"@ {
        (if found == Some(3i64) { Seq::empty() } else { seq![type_message(name, pres, found)] })
            + image_value_errors(name, value)
    } else if pres == "text"@ {
        (if found == Some(1i64) { Seq::empty() } else { seq![type_message(name, pres, found)] })
            + (if value matches Some(Json::Str(_)) {
            Seq::empty()
        } else {
            seq!["Field '"@ + name + "' must have a string 'value'"@]
        })
    } else if pres == "number"@ {
        (if found == Some(2i64) { Seq::empty() } else { seq![type_message(name, pres, found)] })
            + (if value matches Some(Json::Number(_)) {
            Seq::empty()
        } else {
            seq!["Field '"@ + name + "' must have a numeric 'value'"@]
        })
    } else {
        Seq::empty()
    }
}

fn message2(a: &str, b: &str, c: &str) -> (r: String)
    ensures
        r@ == a@ + b@ + c@,
{
    let mut m = owned(a);
    m.append(b);
    m.append(c);
    m
}

fn type_text(name: &str, pres: &str, found: Option<i64>) -> (r: String)
    ensures
        r@ == type_message(name@, pres@, found),
{
    proof {
        reveal_strlit("image");
        reveal_strlit("text");
    }
    let head = if str_eq(pres, "image") {
        "' has presentation_type 'image' so 'type' must be 3 (found "
    } else if str_eq(pres, "text") {
        "' has presentation_type 'text' so 'type' must be 1 (found "
    } else {
        "' has presentation_type 'number' so 'type' must be 2 (found "
    };
    let mut m = message2("Field '", name, head);
    let t = option_i64_text(found);
    m.append(t.as_str());
    m.append(")");
    m
}

/// Adds the problems of the sample entry of the data field `val_name`,
/// shown as `pres_type`.
pub fn validate_dynamic_entry(
    errors: &mut Vec<String>,
    val_name: &str,
    pres_type: &str,
    entry: &serde_json::Value,
)
    ensures
        text_views(final(errors)@) == text_views(old(errors)@) + entry_errors(
            val_name@,
            pres_type@,
            value_model(*entry),
        ),
{
    let ghost e = value_model(*entry);
    let ghost start = text_views(errors@);
    let type_val: Option<i64> = match value_get(entry, "type") {
        Some(t) => value_as_i64(t),
        None => None,
    };
    let value_val = value_get(entry, "value");
    assert(type_val == entry_type(e));
    proof {
        reveal_strlit("image");
        reveal_strlit("text");
        reveal_strlit("number");
    }
    if str_eq(pres_type, "image") {
        if type_val != Some(3i64) {
            push_message(errors, type_text(val_name, pres_type, type_val));
        }
        let ghost mid = text_views(errors@);
        match value_val {
            Some(val_obj) => {
                if value_is_object(val_obj) {
                    let url = match value_get(val_obj, "url") {
                        Some(u) => value_as_str(u),
                        None => None,
                    };
                    match url {
                        Some(url_str) => {
                            if !url_parses(url_str) {
                                push_message(
                                    errors,
                                    message2(
                                        "Field '",
                                        val_name,
                                        "' url is not a valid URL: '",
                                    ).concat(url_str).concat("'"),
                                );
                            }
                        },
                        None => {
                            push_message(
                                errors,
                                message2(
                                    "Field '",
                                    val_name,
                                    "' 'value' object must contain a string 'url'",
                                ),
                            );
                        },
                    }
                } else {
                    push_message(
                        errors,
                        message2(
                            "Field '",
                            val_name,
                            "' must have 'value' as an object like {\"url\": \"...\"}",
                        ),
                    );
                }
            },
            None => {
                push_message(
                    errors,
                    message2(
                        "Field '",
                        val_name,
                        "' must have 'value' as an object like {\"url\": \"...\"}",
                    ),
                );
            },
        }
        assert(text_views(errors@) == mid + image_value_errors(val_name@, json_get(e, "value"@)));
    } else if str_eq(pres_type, "text") {
        if type_val != Some(1i64) {
            push_message(errors, type_text(val_name, pres_type, type_val));
        }
        let is_str = match value_val {
            Some(v) => value_is_string(v),
            None => false,
        };
        if !is_str {
            push_message(errors, message2("Field '", val_name, "' must have a string 'value'"));
        }
    } else if str_eq(pres_type, "number") {
        if type_val != Some(2i64) {
            push_message(errors, type_text(val_name, pres_type, type_val));
        }
        let is_num = match value_val {
            Some(v) => value_is_number(v),
            None => false,
        };
        if !is_num {
            push_message(errors, message2("Field '", val_name, "' must have a numeric 'value'"));
        }
    }
    assert(text_views(errors@) == start + entry_errors(val_name@, pres_type@, e));
}

/// The `name` of a sample entry: `get("name").and_then(as_str)`.
pub open spec fn entry_name(e: Json) -> Option<Seq<char>> {
    json_get_str(e, "name"@)
}

/// Whether an entry among `es` is named `n`.
pub open spec fn has_entry_named(es: Seq<Json>, n: Seq<char>) -> bool {
    exists|k: int| 0 <= k < es.len() && entry_name(#[trigger] es[k]) == Some(n)
}

/// One message for each entry whose name an earlier entry already has.
pub open spec fn duplicate_errors(es: Seq<Json>) -> Seq<Seq<char>>
    decreases es.len(),
{
    if es.len() == 0 {
        Seq::empty()
    } else {
        let prev = duplicate_errors(es.drop_last());
        match entry_name(es.last()) {
            Some(n) => if has_entry_named(es.drop_last(), n) {
                prev.push("Duplicate data field '"@ + n + "' found in sample data."@)
            } else {
                prev
            },
            None => prev,
        }
    }
}

/// The index of the first entry named `n`.
pub open spec fn first_entry(es: Seq<Json>, n: Seq<char>) -> Option<int>
    decreases es.len(),
{
    if es.len() == 0 {
        None
    } else {
        match first_entry(es.drop_last(), n) {
            Some(j) => Some(j),
            None => if entry_name(es.last()) == Some(n) {
                Some(es.len() - 1)
            } else {
                None
            },
        }
    }
}

pub proof fn lemma_first_entry(es: Seq<Json>, n: Seq<char>)
    ensures
        match first_entry(es, n) {
            Some(j) => 0 <= j < es.len() && entry_name(es[j]) == Some(n) && forall|k: int|
                0 <= k < j ==> entry_name(#[trigger] es[k]) != Some(n),
            None => forall|k: int| 0 <= k < es.len() ==> entry_name(#[trigger] es[k]) != Some(n),
        },
    decreases es.len(),
{
    if es.len() > 0 {
        lemma_first_entry(es.drop_last(), n);
        assert forall|k: int| 0 <= k < es.len() - 1 implies (#[trigger] es[k]) == es.drop_last()[k] by {}
    }
}

/// The message for a data field that has no sample entry.
pub open spec fn missing_message(f: DataFieldView) -> Seq<char> {
    "Missing dynamic field '"@ + f.name + "' (required for "@ + f.surface + "."@ + f.component
        + "."@ + f.field + ")"@
}

/// The problems of the sample entries of a list of data fields, field by
/// field: a missing entry, or the problems of the first entry of the name.
pub open spec fn field_checks(fs: Seq<DataFieldView>, es: Seq<Json>) -> Seq<Seq<char>>
    decreases fs.len(),
{
    if fs.len() == 0 {
        Seq::empty()
    } else {
        let f = fs.last();
        field_checks(fs.drop_last(), es) + match first_entry(es, f.name) {
            None => seq![missing_message(f)],
            Some(j) => entry_errors(f.name, f.presentation_type, es[j]),
        }
    }
}

/// The entries of `data.dynamic`, when it is an array.
pub open spec fn dynamic_entries(sample: Json) -> Option<Seq<Json>> {
    match json_get(sample, "data"@) {
        Some(d) => match json_get(d, "dynamic"@) {
            Some(Json::Array(es)) => Some(es),
            _ => None,
        },
        None => None,
    }
}

/// `e.get("name").and_then(as_str)`.
pub fn entry_name_of(e: &serde_json::Value) -> (r: Option<&str>)
    ensures
        match r {
            Some(s) => entry_name(value_model(*e)) == Some(s@),
            None => entry_name(value_model(*e)) is None,
        },
{
    match value_get(e, "name") {
        Some(n) => value_as_str(n),
        None => None,
    }
}

/// The index of the first entry named `name`.
pub fn find_entry(entries: &Vec<serde_json::Value>, name: &str) -> (r: Option<usize>)
    ensures
        match r {
            Some(i) => first_entry(models(entries@), name@) == Some(i as int),
            None => first_entry(models(entries@), name@) is None,
        },
{
    let ghost es = models(entries@);
    proof {
        lemma_first_entry(es, name@);
    }
    let mut k: usize = 0;
    while k < entries.len()
        invariant
            es == models(entries@),
            0 <= k <= entries@.len(),
            forall|m: int| 0 <= m < k ==> entry_name(#[trigger] es[m]) != Some(name@),
            match first_entry(es, name@) {
                Some(j) => 0 <= j < es.len() && entry_name(es[j]) == Some(name@) && forall|m: int|
                    0 <= m < j ==> entry_name(#[trigger] es[m]) != Some(name@),
                None => forall|m: int| 0 <= m < es.len() ==> entry_name(#[trigger] es[m]) != Some(name@),
            },
        decreases entries@.len() - k,
    {
        let found = match entry_name_of(&entries[k]) {
            Some(n) => str_eq(n, name),
            None => false,
        };
        if found {
            proof {
                assert(entry_name(es[k as int]) == Some(name@));
                match first_entry(es, name@) {
                    Some(j) => {
                        assert(j == k as int);
                    },
                    None => {},
                }
            }
            return Some(k);
        }
        k = k + 1;
    }
    None
}

fn named_before(entries: &Vec<serde_json::Value>, upto: usize, name: &str) -> (r: bool)
    requires
        upto <= entries@.len(),
    ensures
        r == has_entry_named(models(entries@).take(upto as int), name@),
{
    let ghost es = models(entries@).take(upto as int);
    let mut k: usize = 0;
    while k < upto
        invariant
            upto <= entries@.len(),
            es == models(entries@).take(upto as int),
            0 <= k <= upto,
            forall|m: int| 0 <= m < k ==> entry_name(#[trigger] es[m]) != Some(name@),
        decreases upto - k,
    {
        let found = match entry_name_of(&entries[k]) {
            Some(n) => str_eq(n, name),
            None => false,
        };
        if found {
            assert(entry_name(es[k as int]) == Some(name@));
            return true;
        }
        k = k + 1;
    }
    false
}

/// The duplicate-name messages of the sample entries.
pub fn duplicate_entries(entries: &Vec<serde_json::Value>) -> (r: Vec<String>)
    ensures
        text_views(r@) == duplicate_errors(models(entries@)),
{
    let ghost es = models(entries@);
    let mut errors: Vec<String> = Vec::new();
    let mut i: usize = 0;
    while i < entries.len()
        invariant
            es == models(entries@),
            0 <= i <= entries@.len(),
            text_views(errors@) == duplicate_errors(es.take(i as int)),
        decreases entries@.len() - i,
    {
        let ghost pre = es.take(i + 1);
        assert(pre.drop_last() == es.take(i as int));
        assert(pre.last() == es[i as int]);
        match entry_name_of(&entries[i]) {
            Some(name) => {
                if named_before(entries, i, name) {
                    push_message(
                        &mut errors,
                        message2("Duplicate data field '", name, "' found in sample data."),
                    );
                }
            },
            None => {},
        }
        assert(text_views(errors@) == duplicate_errors(pre));
        i = i + 1;
    }
    assert(es.take(i as int) == es);
    errors
}

fn missing_text(f: &DataField) -> (r: String)
    ensures
        r@ == missing_message(f@),
{
    let mut m = message2("Missing dynamic field '", f.name.as_str(), "' (required for ");
    m.append(f.surface.as_str());
    m.append(".");
    m.append(f.component.as_str());
    m.append(".");
    m.append(f.field.as_str());
    m.append(")");
    m
}

/// Adds the problems of the sample entries of each data field.
pub fn check_fields(errors: &mut Vec<String>, fields: &Vec<DataField>, entries: &Vec<serde_json::Value>)
    ensures
        text_views(final(errors)@) == text_views(old(errors)@) + field_checks(
            field_views(fields@),
            models(entries@),
        ),
{
    let ghost fs = field_views(fields@);
    let ghost es = models(entries@);
    let ghost start = text_views(errors@);
    let mut i: usize = 0;
    while i < fields.len()
        invariant
            fs == field_views(fields@),
            es == models(entries@),
            0 <= i <= fields@.len(),
            text_views(errors@) == start + field_checks(fs.take(i as int), es),
        decreases fields@.len() - i,
    {
        let ghost pre = fs.take(i + 1);
        assert(pre.drop_last() == fs.take(i as int));
        assert(pre.last() == fields@[i as int]@);
        let ghost before = text_views(errors@);
        let f = &fields[i];
        let ghost tail = match first_entry(es, fields@[i as int].name@) {
            None => seq![missing_message(fields@[i as int]@)],
            Some(j) => entry_errors(fields@[i as int].name@, fields@[i as int].presentation_type@, es[j]),
        };
        match find_entry(entries, f.name.as_str()) {
            None => {
                push_message(errors, missing_text(f));
                assert(text_views(errors@) == before + tail);
            },
            Some(j) => {
                proof {
                    lemma_first_entry(es, f.name@);
                }
                assert(es[j as int] == value_model(entries@[j as int]));
                assert(first_entry(es, f.name@) == Some(j as int));
                assert(f@ == fields@[i as int]@);
                validate_dynamic_entry(errors, f.name.as_str(), f.presentation_type.as_str(), &entries[j]);
                assert(text_views(errors@) == before + tail);
            },
        }
        assert(field_checks(pre, es) == field_checks(fs.take(i as int), es) + tail);
        assert(text_views(errors@) == before + tail);
        assert(start + field_checks(pre, es) =~= start + field_checks(fs.take(i as int), es) + tail);
        i = i + 1;
    }
    assert(fs.take(i as int) == fs);
}

} // verus!
