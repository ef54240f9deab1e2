//! Writing the value of one data field into the sample data.

use vstd::prelude::*;
use vstd::math::max;
use crate::json::{
    json_depth, nesting_limit, canonical, floats_read_back, lemma_items_depth, lemma_member_depth, Json, JsonNumber, value_model, models, result_model, json_get, entries_get, members_of,
    json_similar, json_text_parse, json_pretty, parse_json, value_get, value_is_object, value_is_array,
    new_object, value_from_vec, value_from_string, value_from_i64, value_into_vec, object_insert,
    object_take, to_pretty_text,
};
use crate::sample::{first_entry, find_entry, lemma_first_entry};
use crate::text::{str_eq, owned, int_parse, parse_i64};
use crate::laws::{expected_read_back, law_written_value_reads_back};
use crate::validator::field_value_report;

verus! {

/// The JSON number that serde_json makes (`Number::from_f64`) of the `f64`
/// that `str::parse` reads from a text, if the text reads as a finite `f64`.
pub uninterp spec fn float_number_json(text: Seq<char>) -> Option<Json>;

/// `text.parse()` as an `f64`, then `Number::from_f64` and `Value::Number`;
/// `None` where the text does not parse or the number is not finite.
/// Claimed: the outcome is the one `float_number_json` names for the text,
/// and a JSON number.
#[verifier::external_body]
fn float_number_value(text: &str) -> (r: Option<serde_json::Value>)
    ensures
        match r {
            Some(v) => float_number_json(text@) == Some(value_model(v)) && value_model(v) is Number,
            None => float_number_json(text@) is None,
        },
{
    match text.parse() {
        Ok(f) => serde_json::Number::from_f64(f).map(serde_json::Value::Number),
        Err(_) => None,
    }
}

/// The member names and presentation types used here are distinct texts.
pub proof fn lemma_key_literals()
    ensures
        "type"@ != "value"@,
        "name"@ != "type"@,
        "name"@ != "value"@,
        "data"@ != "dynamic"@,
        "image"@ != "number"@,
        "image"@ != "text"@,
        "number"@ != "text"@,
{
    reveal_strlit("type");
    reveal_strlit("value");
    reveal_strlit("name");
    reveal_strlit("data");
    reveal_strlit("dynamic");
    reveal_strlit("image");
    reveal_strlit("number");
    reveal_strlit("text");
    assert("type"@.len() == 4);
    assert("value"@.len() == 5);
    assert("name"@.len() == 4);
    assert("name"@[0] != "type"@[0]);
    assert("data"@.len() == 4);
    assert("dynamic"@.len() == 7);
    assert("image"@.len() == 5);
    assert("number"@.len() == 6);
    assert("text"@.len() == 4);
}

/// The value stored for a number field from the text typed for it: an
/// integer where the text reads as an `i64`, else the number of its `f64`
/// reading where that is finite, else the text itself.
pub open spec fn number_entry_value(text: Seq<char>) -> Json {
    match int_parse(text) {
        Some(i) => Json::Number(JsonNumber::Int(i as int)),
        None => match float_number_json(text) {
            Some(j) => j,
            None => Json::Str(text),
        },
    }
}

/// The `type` code of a presentation type: 3 for an image, 2 for a number,
/// 1 for anything else.
pub open spec fn type_code(pres: Seq<char>) -> int {
    if pres == "image"@ {
        3
    } else if pres == "number"@ {
        2
    } else {
        1
    }
}

/// `j` is an object whose members are those of `base` (`null` having none)
/// but for `key`, which is bound to a value of which `inner` holds.
pub open spec fn object_like(j: Json, base: Json, key: Seq<char>, inner: spec_fn(Json) -> bool) -> bool {
    &&& j is Object
    &&& forall|k: Seq<char>|
        k != key ==> #[trigger] entries_get(members_of(j), k) == entries_get(members_of(base), k)
    &&& match entries_get(members_of(j), key) {
        Some(x) => inner(x),
        None => false,
    }
}

/// The new `value` of an entry after `text` is written to it.
pub open spec fn value_updated(v: Json, old_value: Option<Json>, pres: Seq<char>, text: Seq<char>) -> bool {
    if pres == "image"@ {
        let base = match old_value {
            Some(o) => if o is Object {
                o
            } else {
                Json::Null
            },
            None => Json::Null,
        };
        object_like(v, base, "url"@, |u: Json| u == Json::Str(text))
    } else if pres == "number"@ {
        v == number_entry_value(text)
    } else {
        v == Json::Str(text)
    }
}

/// `e` is the entry `old` after `text` is written to it: its `type` is set
/// from the presentation type and its `value` updated; the other members
/// stay.
pub open spec fn entry_updated(e: Json, old: Json, pres: Seq<char>, text: Seq<char>) -> bool {
    &&& e is Object
    &&& forall|k: Seq<char>|
        k != "type"@ && k != "value"@ ==> #[trigger] entries_get(members_of(e), k) == entries_get(
            members_of(old),
            k,
        )
    &&& entries_get(members_of(e), "type"@) == Some(Json::Number(JsonNumber::Int(type_code(pres))))
    &&& match entries_get(members_of(e), "value"@) {
        Some(v) => value_updated(v, entries_get(members_of(old), "value"@), pres, text),
        None => false,
    }
}

/// `e` is the entry added for the field `name`, shown as `pres`, after
/// `text` is written to it: it has a `name`, the `type` of the presentation
/// type and the new `value`, and nothing else.
pub open spec fn fresh_entry(e: Json, name: Seq<char>, pres: Seq<char>, text: Seq<char>) -> bool {
    &&& e is Object
    &&& forall|k: Seq<char>|
        k != "name"@ && k != "type"@ && k != "value"@ ==> (#[trigger] entries_get(members_of(e), k)) is None
    &&& entries_get(members_of(e), "name"@) == Some(Json::Str(name))
    &&& entries_get(members_of(e), "type"@) == Some(Json::Number(JsonNumber::Int(type_code(pres))))
    &&& match entries_get(members_of(e), "value"@) {
        Some(v) => value_updated(v, None, pres, text),
        None => false,
    }
}

/// The entries after `text` is written for the field `name`: the first entry
/// of that name is updated in place, or a new entry, updated, is added at
/// the end; the others stay.
pub open spec fn items_updated(
    items: Seq<Json>,
    old: Seq<Json>,
    name: Seq<char>,
    pres: Seq<char>,
    text: Seq<char>,
) -> bool {
    match first_entry(old, name) {
        Some(i) => {
            &&& items.len() == old.len()
            &&& forall|j: int| 0 <= j < old.len() && j != i ==> #[trigger] items[j] == old[j]
            &&& entry_updated(items[i], old[i], pres, text)
        },
        None => {
            &&& items.len() == old.len() + 1
            &&& forall|j: int| 0 <= j < old.len() ==> #[trigger] items[j] == old[j]
            &&& fresh_entry(items[old.len() as int], name, pres, text)
        },
    }
}

/// The sample document that the update starts from: the parsed document if
/// it is an object; else `{"data": {"dynamic": []}}`, whose members other
/// than `data` are those of `null`.
pub open spec fn sample_base(parsed: Result<Json, Seq<char>>) -> Json {
    match parsed {
        Ok(j) => if j is Object {
            j
        } else {
            Json::Null
        },
        Err(_) => Json::Null,
    }
}

/// The `data` object that the update starts from (`null` standing for a new
/// one).
pub open spec fn data_base(sample: Json) -> Json {
    match json_get(sample, "data"@) {
        Some(d) => if d is Object {
            d
        } else {
            Json::Null
        },
        None => Json::Null,
    }
}

/// The entries of `dynamic` that the update starts from (none where it is
/// not an array).
pub open spec fn items_base(data: Json) -> Seq<Json> {
    match json_get(data, "dynamic"@) {
        Some(Json::Array(items)) => items,
        _ => Seq::empty(),
    }
}

/// `out` is the sample document after `text` is written for the field
/// `name`, shown as `pres`: the members of the document and of its `data`
/// stay, and `data.dynamic` holds the updated entries.
pub open spec fn sample_updated(
    out: Json,
    parsed: Result<Json, Seq<char>>,
    name: Seq<char>,
    pres: Seq<char>,
    text: Seq<char>,
) -> bool {
    let s = sample_base(parsed);
    let d = data_base(s);
    let items = items_base(d);
    object_like(
        out,
        s,
        "data"@,
        |d2: Json|
            object_like(
                d2,
                d,
                "dynamic"@,
                |a: Json| a matches Json::Array(items2) && items_updated(items2, items, name, pres, text),
            ),
    )
}

/// The value stored for a number field from the text typed for it.
fn number_value(text: &str) -> (r: serde_json::Value)
    ensures
        value_model(r) == number_entry_value(text@),
        json_depth(value_model(r)) == 0,
{
    // Where the text reads as an `i64` it also reads as an `f64` without a
    // fractional part, so the integer is stored.
    match parse_i64(text) {
        Some(i) => value_from_i64(i),
        None => match float_number_value(text) {
            Some(v) => v,
            None => value_from_string(owned(text)),
        },
    }
}

/// Writes `new_val` into a sample entry, as a field shown as `pres`.
fn update_entry(target: &mut serde_json::Value, pres: &str, new_val: &str)
    requires
        value_model(*old(target)) is Object,
    ensures
        entry_updated(value_model(*final(target)), value_model(*old(target)), pres@, new_val@),
        json_depth(value_model(*final(target))) <= max(json_depth(value_model(*old(target))) as int, 2),
{
    proof {
        lemma_key_literals();
    }
    if str_eq(pres, "image") {
        object_insert(target, "type", value_from_i64(3));
        let is_obj = match value_get(target, "value") {
            Some(v) => value_is_object(v),
            None => false,
        };
        if !is_obj {
            let mut o = new_object();
            object_insert(&mut o, "url", value_from_string(owned(new_val)));
            object_insert(target, "value", o);
        } else {
            let ghost t0 = value_model(*target);
            let mut v = object_take(target, "value");
            proof {
                lemma_member_depth(members_of(t0), "value"@);
            }
            object_insert(&mut v, "url", value_from_string(owned(new_val)));
            object_insert(target, "value", v);
        }
    } else if str_eq(pres, "number") {
        object_insert(target, "type", value_from_i64(2));
        let v = number_value(new_val);
        object_insert(target, "value", v);
    } else {
        object_insert(target, "type", value_from_i64(1));
        object_insert(target, "value", value_from_string(owned(new_val)));
    }
}

/// `e` is the entry added for the field `name`, shown as `pres`, before
/// anything is written to it: `{"name": name, "type": code, "value": empty}`,
/// the empty value being `{"url": ""}`, `0` or `""`.
pub open spec fn new_entry_like(e: Json, name: Seq<char>, pres: Seq<char>) -> bool {
    &&& e is Object
    &&& forall|k: Seq<char>|
        k != "name"@ && k != "type"@ && k != "value"@ ==> (#[trigger] entries_get(members_of(e), k)) is None
    &&& entries_get(members_of(e), "name"@) == Some(Json::Str(name))
    &&& entries_get(members_of(e), "type"@) == Some(Json::Number(JsonNumber::Int(type_code(pres))))
    &&& match entries_get(members_of(e), "value"@) {
        Some(v) => if pres == "image"@ {
            object_like(v, Json::Null, "url"@, |u: Json| u == Json::Str(Seq::empty()))
        } else if pres == "number"@ {
            v == Json::Number(JsonNumber::Int(0))
        } else {
            v == Json::Str(Seq::empty())
        },
        None => false,
    }
}

proof fn lemma_fresh_entry(x: Json, e: Json, name: Seq<char>, pres: Seq<char>, text: Seq<char>)
    requires
        new_entry_like(e, name, pres),
        entry_updated(x, e, pres, text),
    ensures
        fresh_entry(x, name, pres, text),
{
    lemma_key_literals();
    let v = entries_get(members_of(x), "value"@)->0;
    if pres == "image"@ {
        let o = entries_get(members_of(e), "value"@)->0;
        assert forall|k: Seq<char>| k != "url"@ implies #[trigger] entries_get(members_of(v), k)
            == entries_get(members_of(Json::Null), k) by {
            assert(entries_get(members_of(v), k) == entries_get(members_of(o), k));
        }
    }
}

/// The entry added for a field that has none.
fn new_entry(name: &str, pres: &str) -> (r: serde_json::Value)
    ensures
        new_entry_like(value_model(r), name@, pres@),
        json_depth(value_model(r)) <= 2,
{
    proof {
        lemma_key_literals();
        reveal_strlit("");
    }
    let mut e = new_object();
    object_insert(&mut e, "name", value_from_string(owned(name)));
    if str_eq(pres, "image") {
        object_insert(&mut e, "type", value_from_i64(3));
        let mut o = new_object();
        object_insert(&mut o, "url", value_from_string(String::new()));
        object_insert(&mut e, "value", o);
    } else if str_eq(pres, "number") {
        object_insert(&mut e, "type", value_from_i64(2));
        object_insert(&mut e, "value", value_from_i64(0));
    } else {
        object_insert(&mut e, "type", value_from_i64(1));
        object_insert(&mut e, "value", value_from_string(String::new()));
    }
    e
}

/// `{"dynamic": []}`.
fn default_data() -> (r: serde_json::Value)
    ensures
        object_like(value_model(r), Json::Null, "dynamic"@, |a: Json| a == Json::Array(Seq::empty())),
        json_depth(value_model(r)) <= 2,
{
    let mut d = new_object();
    let items: Vec<serde_json::Value> = Vec::new();
    let a = value_from_vec(items);
    assert(models(items@) == Seq::<Json>::empty());
    object_insert(&mut d, "dynamic", a);
    d
}

/// The sample document after `new_val` is written for the field `name`,
/// shown as `pres_type`, starting from the outcome of parsing the sample
/// data: the document if it is an object, else `{"data": {"dynamic": []}}`.
/// `data` becomes an object and `data.dynamic` an array where they are not;
/// the first entry named `name` is updated, or a new one added at the end.
pub fn update_sample_value(
    parsed: Result<serde_json::Value, String>,
    name: &str,
    pres_type: &str,
    new_val: &str,
) -> (r: serde_json::Value)
    ensures
        sample_updated(value_model(r), result_model(parsed), name@, pres_type@, new_val@),
        json_depth(value_model(r)) <= max(json_depth(sample_base(result_model(parsed))) as int, 5),
        canonical(value_model(r)),
{
    proof {
        lemma_key_literals();
    }
    let ghost s0 = sample_base(result_model(parsed));
    let ghost d0 = data_base(s0);
    let ghost items0 = items_base(d0);
    // How deeply the result may nest: as the sample, or as a new entry does.
    let ghost bound: int = max(json_depth(s0) as int, 5);
    let mut sample = match parsed {
        Ok(v) => v,
        Err(_) => {
            let mut s = new_object();
            object_insert(&mut s, "data", default_data());
            s
        },
    };
    if !value_is_object(&sample) {
        let mut s = new_object();
        object_insert(&mut s, "data", default_data());
        sample = s;
    }
    assert(json_depth(value_model(sample)) <= bound);
    // The sample is an object; its members other than `data` are those of s0.
    assert(value_model(sample) is Object);
    assert(forall|k: Seq<char>| k != "data"@ ==> #[trigger] entries_get(members_of(value_model(sample)), k)
        == entries_get(members_of(s0), k));
    let data_ok = match value_get(&sample, "data") {
        Some(d) => value_is_object(d),
        None => false,
    };
    if !data_ok {
        object_insert(&mut sample, "data", default_data());
    }
    proof {
        lemma_member_depth(members_of(value_model(sample)), "data"@);
    }
    let mut data = object_take(&mut sample, "data");
    assert(json_depth(value_model(data)) <= bound - 1);
    assert(json_depth(value_model(sample)) <= bound);
    // `data` is an object whose members other than `dynamic` are those of d0,
    // and whose `dynamic`, if an array, holds items0.
    assert(value_model(data) is Object);
    assert(forall|k: Seq<char>| k != "dynamic"@ ==> #[trigger] entries_get(members_of(value_model(data)), k)
        == entries_get(members_of(d0), k));
    assert(match json_get(value_model(data), "dynamic"@) {
        Some(Json::Array(items)) => items == items0,
        _ => true,
    });
    let dyn_ok = match value_get(&data, "dynamic") {
        Some(a) => value_is_array(a),
        None => false,
    };
    if !dyn_ok {
        let items: Vec<serde_json::Value> = Vec::new();
        assert(models(items@) == Seq::<Json>::empty());
        object_insert(&mut data, "dynamic", value_from_vec(items));
    }
    assert(json_depth(value_model(data)) <= bound - 1);
    proof {
        lemma_member_depth(members_of(value_model(data)), "dynamic"@);
    }
    let dynv = object_take(&mut data, "dynamic");
    assert(json_depth(value_model(dynv)) <= bound - 2);
    assert(json_depth(value_model(data)) <= bound - 1);
    let ghost dyn_model = value_model(dynv);
    let mut arr: Vec<serde_json::Value> = match value_into_vec(dynv) {
        Some(a) => a,
        None => Vec::new(),
    };
    proof {
        lemma_items_depth(models(arr@), (bound - 3) as nat);
        assert(forall|j: int| 0 <= j < arr@.len() ==> json_depth(#[trigger] models(arr@)[j]) <= bound - 3);
    }
    assert(models(arr@) == items0);
    let ghost found = first_entry(items0, name@);
    let n0: usize = arr.len();
    assert(items0.len() == n0);
    let idx: usize = match find_entry(&arr, name) {
        Some(i) => {
            proof {
                lemma_first_entry(items0, name@);
                assert(found == Some(i as int));
                assert(items0[i as int] == value_model(arr@[i as int]));
                assert(json_get(items0[i as int], "name"@) is Some);
            }
            i
        },
        None => {
            let e = new_entry(name, pres_type);
            arr.push(e);
            assert(value_model(arr@[arr@.len() - 1]) is Object);
            arr.len() - 1
        },
    };
    let ghost before = arr@;
    proof {
        lemma_first_entry(items0, name@);
    }
    assert(idx < arr@.len());
    assert(value_model(arr@[idx as int]) is Object);
    let mut target = arr.remove(idx);
    let ghost t0 = value_model(target);
    update_entry(&mut target, pres_type, new_val);
    let ghost t1 = value_model(target);
    arr.insert(idx, target);
    let ghost items2 = models(arr@);
    assert(items_updated(items2, items0, name@, pres_type@, new_val@)) by {
        match found {
            Some(i) => {
                assert(i == idx as int);
                assert forall|j: int| 0 <= j < items0.len() && j != i implies #[trigger] items2[j] == items0[j] by {
                    assert(arr@[j] == before[j]);
                }
                assert(items2[i] == t1);
            },
            None => {
                assert(idx as int == items0.len());
                assert forall|j: int| 0 <= j < items0.len() implies #[trigger] items2[j] == items0[j] by {
                    assert(arr@[j] == before[j]);
                }
                assert(items2[idx as int] == t1);
                lemma_fresh_entry(t1, t0, name@, pres_type@, new_val@);
            },
        }
    }
    proof {
        assert forall|j: int| 0 <= j < items2.len() implies json_depth(#[trigger] items2[j]) <= bound - 3 by {
            if j != idx as int {
                assert(items2[j] == value_model(before[j]));
            }
        }
        lemma_items_depth(items2, (bound - 3) as nat);
    }
    object_insert(&mut data, "dynamic", value_from_vec(arr));
    let ghost data3 = value_model(data);
    assert(json_depth(data3) <= bound - 1);
    object_insert(&mut sample, "data", data);
    assert(object_like(
        data3,
        d0,
        "dynamic"@,
        |a: Json| a matches Json::Array(items2) && items_updated(items2, items0, name@, pres_type@, new_val@),
    ));
    sample
}

/// `after` is the printed text of `out`, the document written from the
/// sample data text `before` when `text` is written for the field `name`,
/// shown as `pres`: `out` is updated as `sample_updated` says, walks its
/// objects in key order, and nests less deeply than the parser's limit;
/// `after` reads back as `out` (`json_similar`), and exactly as `out` where
/// the non-integer numbers of `out` read back exactly; and reading the field
/// gives back what was written (`expected_read_back`).
pub open spec fn printed_update(
    out: Json,
    before: Seq<char>,
    after: Seq<char>,
    name: Seq<char>,
    pres: Seq<char>,
    text: Seq<char>,
) -> bool {
    &&& sample_updated(out, json_text_parse(before), name, pres, text)
    &&& canonical(out)
    &&& json_depth(out) < nesting_limit()
    &&& json_pretty(out) == Some(after)
    &&& json_text_parse(after) matches Ok(back) && json_similar(out, back)
    &&& floats_read_back(out) ==> json_text_parse(after) == Ok::<Json, Seq<char>>(out)
    &&& expected_read_back(pres, text) is Some ==> field_value_report(
        json_text_parse(after),
        name,
        pres,
    ) == expected_read_back(pres, text)->0
}

/// `after` is the sample data text `before` once `text` is written for the
/// field `name`, shown as `pres` (`printed_update`, for some document).
pub open spec fn text_updated(
    before: Seq<char>,
    after: Seq<char>,
    name: Seq<char>,
    pres: Seq<char>,
    text: Seq<char>,
) -> bool {
    exists|out: Json| #[trigger] printed_update(out, before, after, name, pres, text)
}

/// Writes `new_val` for the field `name`, shown as `pres_type`, into the
/// sample data text, which becomes the pretty-printed updated document.
pub fn update_sample_data(sample_data: &mut String, name: &str, pres_type: &str, new_val: &str)
    ensures
        text_updated(old(sample_data)@, final(sample_data)@, name@, pres_type@, new_val@),
{
    let parsed = parse_json(sample_data.as_str());
    assert(json_depth(sample_base(json_text_parse(old(sample_data)@))) < nesting_limit());
    let updated = update_sample_value(parsed, name, pres_type, new_val);
    let ghost out = value_model(updated);
    match to_pretty_text(&updated) {
        Some(pretty) => {
            *sample_data = pretty;
            proof {
                match json_text_parse(sample_data@) {
                    Ok(back) => {
                        if expected_read_back(pres_type@, new_val@) is Some {
                            law_written_value_reads_back(
                                out,
                                back,
                                json_text_parse(old(sample_data)@),
                                name@,
                                pres_type@,
                                new_val@,
                            );
                        }
                    },
                    Err(_) => {},
                }
            }
        },
        None => {},
    }
    assert(printed_update(out, old(sample_data)@, sample_data@, name@, pres_type@, new_val@));
}

} // verus!
