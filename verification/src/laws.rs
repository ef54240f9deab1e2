//! What holds across the functions of the library.

use vstd::prelude::*;
use crate::json::{
    canonical, floats_read_back, lemma_canonical_parts, lemma_sorted_same,
    json_text_parse, Json, JsonNumber, json_get, entries_get, members_of, json_as_str, json_get_str, json_similar,
    seq_similar, members_similar, int_text,
};
use crate::sample::{
    entry_name, first_entry, lemma_first_entry, dynamic_entries, entry_errors, entry_type,
    url_parse_ok, has_entry_named, duplicate_errors, field_checks, image_value_errors,
    missing_message, type_message,
};
use crate::fields::{
    conflict_message, DataFieldView, data_fields, first_occurrences, first_named, lemma_first_named,
    lemma_first_occurrences_names, conflict_errors, config_documents, data_field_of, fields_data,
    object_members_at, components_data, surfaces_data, documents_data,
};
use crate::validator::{widget_config_report, sample_report, dynamic_fields_report, config_info_report};
use crate::fields::str_member_or_empty;
use crate::text::{int_parse, option_i64_debug};
use crate::update::{
    lemma_key_literals, text_updated, printed_update,
    sample_updated, items_updated, entry_updated, fresh_entry, value_updated, number_entry_value,
    float_number_json, sample_base, data_base, items_base, type_code,
};
use crate::validator::{field_value_report, entry_value_text};

verus! {

proof fn lemma_seq_similar_index(xs: Seq<Json>, ys: Seq<Json>)
    requires
        seq_similar(xs, ys),
    ensures
        xs.len() == ys.len(),
        forall|i: int| 0 <= i < xs.len() ==> json_similar(#[trigger] xs[i], ys[i]),
    decreases xs.len(),
{
    if xs.len() > 0 {
        lemma_seq_similar_index(xs.drop_first(), ys.drop_first());
        assert forall|i: int| 0 <= i < xs.len() implies json_similar(#[trigger] xs[i], ys[i]) by {
            if i > 0 {
                assert(xs[i] == xs.drop_first()[i - 1]);
                assert(ys[i] == ys.drop_first()[i - 1]);
            }
        }
    }
}

proof fn lemma_members_similar_get(xs: Seq<(Seq<char>, Json)>, ys: Seq<(Seq<char>, Json)>, k: Seq<char>)
    requires
        members_similar(xs, ys),
    ensures
        match entries_get(xs, k) {
            Some(x) => entries_get(ys, k) matches Some(y) && json_similar(x, y),
            None => entries_get(ys, k) is None,
        },
    decreases xs.len(),
{
    if xs.len() > 0 {
        lemma_members_similar_get(xs.drop_first(), ys.drop_first(), k);
    }
}

/// Reading a member of similar documents finds similar values.
proof fn lemma_similar_get(a: Json, b: Json, k: Seq<char>)
    requires
        json_similar(a, b),
    ensures
        match json_get(a, k) {
            Some(x) => json_get(b, k) matches Some(y) && json_similar(x, y),
            None => json_get(b, k) is None,
        },
{
    match a {
        Json::Object(xs) => {
            match b {
                Json::Object(ys) => {
                    lemma_members_similar_get(xs, ys, k);
                },
                _ => {},
            }
        },
        _ => {},
    }
}

proof fn lemma_similar_str(a: Json, b: Json)
    requires
        json_similar(a, b),
    ensures
        json_as_str(a) == json_as_str(b),
{
}

proof fn lemma_similar_get_str(a: Json, b: Json, k: Seq<char>)
    requires
        json_similar(a, b),
    ensures
        json_get_str(a, k) == json_get_str(b, k),
        str_member_or_empty(a, k) == str_member_or_empty(b, k),
{
    lemma_similar_get(a, b, k);
    match json_get(a, k) {
        Some(x) => {
            lemma_similar_str(x, json_get(b, k)->0);
        },
        None => {},
    }
}

proof fn lemma_first_entry_same_names(xs: Seq<Json>, ys: Seq<Json>, n: Seq<char>)
    requires
        xs.len() == ys.len(),
        forall|i: int| 0 <= i < xs.len() ==> entry_name(#[trigger] xs[i]) == entry_name(ys[i]),
    ensures
        first_entry(xs, n) == first_entry(ys, n),
    decreases xs.len(),
{
    if xs.len() > 0 {
        let px = xs.drop_last();
        let py = ys.drop_last();
        assert forall|i: int| 0 <= i < px.len() implies entry_name(#[trigger] px[i]) == entry_name(py[i]) by {
            assert(px[i] == xs[i]);
            assert(py[i] == ys[i]);
        }
        lemma_first_entry_same_names(px, py, n);
        assert(entry_name(xs.last()) == entry_name(ys.last()));
    }
}

/// What reading a field gives back after a text was written to it: the
/// text; for a number field, the decimal text of the integer it reads as,
/// or the text itself where it reads as no number; nothing is said of a
/// text that reads as a number that is not an integer.
pub open spec fn expected_read_back(pres: Seq<char>, text: Seq<char>) -> Option<Seq<char>> {
    if pres == "number"@ {
        match int_parse(text) {
            Some(i) => Some(int_text(i as int)),
            None => if float_number_json(text) is None {
                Some(text)
            } else {
                None
            },
        }
    } else {
        Some(text)
    }
}

/// In the updated entries, the first entry named `name` is the one written.
proof fn lemma_updated_index(items2: Seq<Json>, items0: Seq<Json>, name: Seq<char>, pres: Seq<char>, text: Seq<char>)
    requires
        items_updated(items2, items0, name, pres, text),
    ensures
        first_entry(items2, name) matches Some(i) && (match first_entry(items0, name) {
            Some(j) => i == j && entry_updated(items2[i], items0[j], pres, text),
            None => i == items0.len() && fresh_entry(items2[i], name, pres, text),
        }),
{
    lemma_key_literals();
    lemma_first_entry(items0, name);
    lemma_first_entry(items2, name);
    match first_entry(items0, name) {
        Some(i) => {
            assert(entries_get(members_of(items2[i]), "name"@) == entries_get(members_of(items0[i]), "name"@));
            assert(entry_name(items2[i]) == Some(name));
            assert forall|k: int| 0 <= k < i implies entry_name(#[trigger] items2[k]) != Some(name) by {
                assert(items2[k] == items0[k]);
            }
        },
        None => {
            let i: int = items0.len() as int;
            assert(entry_name(items2[i]) == Some(name));
            assert forall|k: int| 0 <= k < i implies entry_name(#[trigger] items2[k]) != Some(name) by {
                assert(items2[k] == items0[k]);
            }
        },
    }
}

/// The value written to an entry reads back as `expected_read_back`.
proof fn lemma_entry_read_back(e: Json, back: Json, old_value: Option<Json>, pres: Seq<char>, text: Seq<char>)
    requires
        e is Object,
        entries_get(members_of(e), "value"@) matches Some(v) && value_updated(v, old_value, pres, text),
        json_similar(e, back),
        expected_read_back(pres, text) is Some,
    ensures
        entry_value_text(back, pres) == expected_read_back(pres, text)->0,
{
    lemma_key_literals();
    reveal_strlit("url");
    let v = entries_get(members_of(e), "value"@)->0;
    assert(json_get(e, "value"@) == Some(v));
    lemma_similar_get(e, back, "value"@);
    let w = json_get(back, "value"@)->0;
    if pres == "image"@ {
        assert(json_get(v, "url"@) == Some(Json::Str(text)));
        lemma_similar_get_str(v, w, "url"@);
    } else if pres == "number"@ {
        match int_parse(text) {
            Some(i) => {
                assert(v == Json::Number(JsonNumber::Int(i as int)));
                assert(w == v);
            },
            None => {
                assert(v == Json::Str(text));
                assert(w == v);
            },
        }
    } else {
        assert(v == Json::Str(text));
        lemma_similar_get_str(e, back, "value"@);
    }
}

/// A field written into the sample data reads back: when the document after
/// the update (`out`) is read back from its text as `back`, the value read
/// for the field is the text written (see `expected_read_back`).
pub proof fn law_written_value_reads_back(
    out: Json,
    back: Json,
    parsed: Result<Json, Seq<char>>,
    name: Seq<char>,
    pres: Seq<char>,
    text: Seq<char>,
)
    requires
        sample_updated(out, parsed, name, pres, text),
        json_similar(out, back),
        expected_read_back(pres, text) is Some,
    ensures
        field_value_report(Ok(back), name, pres) == expected_read_back(pres, text)->0,
{
    reveal_strlit("data");
    reveal_strlit("dynamic");
    let s = sample_base(parsed);
    let d = data_base(s);
    let items0 = items_base(d);
    let d2 = entries_get(members_of(out), "data"@)->0;
    assert(json_get(out, "data"@) == Some(d2));
    let a2 = entries_get(members_of(d2), "dynamic"@)->0;
    assert(json_get(d2, "dynamic"@) == Some(a2));
    let items2 = a2->Array_0;
    assert(items_updated(items2, items0, name, pres, text));
    lemma_similar_get(out, back, "data"@);
    let d3 = json_get(back, "data"@)->0;
    lemma_similar_get(d2, d3, "dynamic"@);
    let a3 = json_get(d3, "dynamic"@)->0;
    let items3 = a3->Array_0;
    assert(dynamic_entries(back) == Some(items3));
    lemma_seq_similar_index(items2, items3);
    assert forall|i: int| 0 <= i < items2.len() implies entry_name(#[trigger] items2[i]) == entry_name(items3[i]) by {
        lemma_similar_get_str(items2[i], items3[i], "name"@);
    }
    lemma_first_entry_same_names(items2, items3, name);
    lemma_updated_index(items2, items0, name, pres, text);
    let i: int = first_entry(items2, name)->0;
    lemma_first_entry(items2, name);
    assert(0 <= i < items2.len());
    assert(json_similar(items2[i], items3[i]));
    lemma_key_literals();
    match first_entry(items0, name) {
        Some(j) => {
            lemma_entry_read_back(
                items2[i],
                items3[i],
                entries_get(members_of(items0[j]), "value"@),
                pres,
                text,
            );
        },
        None => {
            lemma_entry_read_back(items2[i], items3[i], None, pres, text);
        },
    }
}

/// The problems that the entry check finds in an entry written by the
/// editor: none, but for an image whose text is not a URL that parses, and
/// a number field whose text gives no JSON number.
pub open spec fn written_entry_errors(name: Seq<char>, pres: Seq<char>, text: Seq<char>) -> Seq<Seq<char>> {
    if pres == "image"@ && !url_parse_ok(text) {
        seq!["Field '"@ + name + "' url is not a valid URL: '"@ + text + "'"@]
    } else if pres == "number"@ && !(number_entry_value(text) is Number) {
        seq!["Field '"@ + name + "' must have a numeric 'value'"@]
    } else {
        Seq::empty()
    }
}

proof fn lemma_written_value_errors(e: Json, old_value: Option<Json>, name: Seq<char>, pres: Seq<char>, text: Seq<char>)
    requires
        e is Object,
        json_get(e, "type"@) == Some(Json::Number(JsonNumber::Int(type_code(pres)))),
        json_get(e, "value"@) matches Some(v) && value_updated(v, old_value, pres, text),
    ensures
        entry_errors(name, pres, e) == written_entry_errors(name, pres, text),
{
    reveal_strlit("url");
    reveal_strlit("image");
    reveal_strlit("number");
    reveal_strlit("text");
    assert("image"@.len() == 5 && "number"@.len() == 6 && "text"@.len() == 4);
    let v = json_get(e, "value"@)->0;
    assert(entry_type(e) == Some(type_code(pres) as i64));
    if pres == "image"@ {
        assert(v is Object);
        assert(json_get_str(v, "url"@) == Some(text));
        assert(entry_errors(name, pres, e) =~= written_entry_errors(name, pres, text));
    } else if pres == "number"@ {
        assert(entry_errors(name, pres, e) =~= written_entry_errors(name, pres, text));
    } else if pres == "text"@ {
        assert(entry_errors(name, pres, e) =~= written_entry_errors(name, pres, text));
    }
}

/// An entry written by the editor has the `type` of its presentation type
/// and a `value` of the expected kind: the entry check finds no problem in
/// it but an image text that is not a URL or a number text that is no
/// number (`written_entry_errors`). This holds of an existing entry that is
/// updated and of a new one.
pub proof fn law_written_entry_passes_check(
    e: Json,
    old: Json,
    name: Seq<char>,
    pres: Seq<char>,
    text: Seq<char>,
)
    requires
        entry_updated(e, old, pres, text) || fresh_entry(e, name, pres, text),
    ensures
        entry_errors(name, pres, e) == written_entry_errors(name, pres, text),
{
    lemma_key_literals();
    if entry_updated(e, old, pres, text) {
        lemma_written_value_errors(e, entries_get(members_of(old), "value"@), name, pres, text);
    } else {
        lemma_written_value_errors(e, None, name, pres, text);
    }
}

/// The data fields that `extract_dynamic_fields` lists have distinct names;
/// every data field of the configuration has its name among them; and each
/// is the name and presentation type of the first data field of that name.
pub proof fn law_dynamic_fields_distinct_and_complete(config: Json)
    ensures
        forall|i: int, j: int|
            0 <= i < j < first_occurrences(data_fields(config)).len() ==> (#[trigger] first_occurrences(data_fields(config))[i]).0
                != (#[trigger] first_occurrences(data_fields(config))[j]).0,
        forall|i: int|
            0 <= i < data_fields(config).len() ==> exists|k: int|
                0 <= k < first_occurrences(data_fields(config)).len()
                    && (#[trigger] first_occurrences(data_fields(config))[k]).0 == (#[trigger] data_fields(config)[i]).name,
        forall|k: int|
            0 <= k < first_occurrences(data_fields(config)).len() ==> (first_named(
                data_fields(config),
                (#[trigger] first_occurrences(data_fields(config))[k]).0,
            ) matches Some(i) && data_fields(config)[i].presentation_type
                == first_occurrences(data_fields(config))[k].1),
{
    lemma_first_occurrences(data_fields(config));
}

proof fn lemma_first_occurrences(fs: Seq<DataFieldView>)
    ensures
        forall|i: int, j: int|
            0 <= i < j < first_occurrences(fs).len() ==> (#[trigger] first_occurrences(fs)[i]).0
                != (#[trigger] first_occurrences(fs)[j]).0,
        forall|i: int|
            0 <= i < fs.len() ==> exists|k: int|
                0 <= k < first_occurrences(fs).len() && (#[trigger] first_occurrences(fs)[k]).0
                    == (#[trigger] fs[i]).name,
        forall|k: int|
            0 <= k < first_occurrences(fs).len() ==> (first_named(
                fs,
                (#[trigger] first_occurrences(fs)[k]).0,
            ) matches Some(i) && fs[i].presentation_type == first_occurrences(fs)[k].1),
    decreases fs.len(),
{
    if fs.len() > 0 {
        let p = fs.drop_last();
        let f = fs.last();
        lemma_first_occurrences(p);
        lemma_first_occurrences_names(p, f.name);
        lemma_first_named(p, f.name);
        let fo = first_occurrences(fs);
        let fp = first_occurrences(p);
        assert forall|k: int| 0 <= k < fp.len() implies (first_named(fs, (#[trigger] fp[k]).0) matches Some(i)
            && fs[i].presentation_type == fp[k].1) by {
            let i: int = first_named(p, fp[k].0)->0;
            lemma_first_named(p, fp[k].0);
            assert(fs[i] == p[i]);
        }
        if first_named(p, f.name) is Some {
            assert(fo == fp);
            assert forall|i: int| 0 <= i < fs.len() implies exists|k: int|
                0 <= k < fo.len() && (#[trigger] fo[k]).0 == (#[trigger] fs[i]).name by {
                if i < p.len() {
                    assert(fs[i] == p[i]);
                } else {
                    lemma_first_occurrences_names(p, f.name);
                }
            }
        } else {
            assert(fo == fp.push((f.name, f.presentation_type)));
            assert forall|i: int, j: int| 0 <= i < j < fo.len() implies (#[trigger] fo[i]).0 != (#[trigger] fo[j]).0 by {
                if j == fp.len() {
                    if fo[i].0 == f.name {
                        assert(fp[i].0 == f.name);
                    }
                } else {
                    assert(fo[i] == fp[i] && fo[j] == fp[j]);
                }
            }
            assert forall|i: int| 0 <= i < fs.len() implies exists|k: int|
                0 <= k < fo.len() && (#[trigger] fo[k]).0 == (#[trigger] fs[i]).name by {
                if i < p.len() {
                    assert(fs[i] == p[i]);
                    let k = choose|k: int| 0 <= k < fp.len() && (#[trigger] fp[k]).0 == p[i].name;
                    assert(fo[k] == fp[k]);
                } else {
                    assert(fo[fp.len() as int].0 == fs[i].name);
                }
            }
            assert forall|k: int| 0 <= k < fo.len() implies (first_named(fs, (#[trigger] fo[k]).0) matches Some(i)
                && fs[i].presentation_type == fo[k].1) by {
                if k < fp.len() {
                    assert(fo[k] == fp[k]);
                } else {
                    assert(first_named(fs, f.name) == Some(fs.len() - 1));
                }
            }
        }
    }
}

/// `validate_sample_data` reports first what `validate_widget_config`
/// reports for the same configuration.
pub proof fn law_sample_report_starts_with_config_report(
    config: Result<Json, Seq<char>>,
    sample: Result<Json, Seq<char>>,
)
    ensures
        widget_config_report(config).len() <= sample_report(config, sample).len(),
        sample_report(config, sample).take(widget_config_report(config).len() as int) == widget_config_report(
            config,
        ),
{
    let base = widget_config_report(config);
    assert(base.take(base.len() as int) =~= base);
    match config {
        Err(_) => {},
        Ok(c) => match sample {
            Err(e) => {
                assert(sample_report(config, sample).take(base.len() as int) =~= base);
            },
            Ok(s) => match dynamic_entries(s) {
                None => {
                    assert(sample_report(config, sample).take(base.len() as int) =~= base);
                },
                Some(es) => {
                    assert(sample_report(config, sample).take(base.len() as int) =~= base);
                },
            },
        },
    }
}

/// A configuration whose data fields all have distinct names has no
/// conflicting presentation types.
pub proof fn law_distinct_names_have_no_conflicts(config: Json)
    requires
        forall|i: int, j: int|
            0 <= i < j < data_fields(config).len() ==> (#[trigger] data_fields(config)[i]).name
                != (#[trigger] data_fields(config)[j]).name,
    ensures
        conflict_errors(data_fields(config)) == Seq::<Seq<char>>::empty(),
{
    lemma_distinct_no_conflicts(data_fields(config));
}

proof fn lemma_distinct_no_conflicts(fs: Seq<DataFieldView>)
    requires
        forall|i: int, j: int| 0 <= i < j < fs.len() ==> (#[trigger] fs[i]).name != (#[trigger] fs[j]).name,
    ensures
        conflict_errors(fs) == Seq::<Seq<char>>::empty(),
    decreases fs.len(),
{
    if fs.len() > 0 {
        let p = fs.drop_last();
        assert forall|i: int, j: int| 0 <= i < j < p.len() implies (#[trigger] p[i]).name != (#[trigger] p[j]).name by {
            assert(p[i] == fs[i] && p[j] == fs[j]);
        }
        lemma_distinct_no_conflicts(p);
        lemma_first_named(p, fs.last().name);
        if first_named(p, fs.last().name) is Some {
            let i: int = first_named(p, fs.last().name)->0;
            assert(p[i] == fs[i]);
            assert(fs[i].name != fs[fs.len() - 1].name);
        }
    }
}


/// Where `validate_widget_config` reports nothing, every data field of the
/// configuration has the presentation type that `extract_dynamic_fields`
/// lists for its name.
pub proof fn law_no_conflicts_means_one_type_per_name(config: Json)
    requires
        widget_config_report(Ok(config)).len() == 0,
    ensures
        forall|i: int, k: int|
            0 <= i < data_fields(config).len() && 0 <= k < dynamic_fields_report(Ok(config)).len()
                && (#[trigger] data_fields(config)[i]).name == (#[trigger] dynamic_fields_report(
                Ok(config),
            )[k]).0 ==> data_fields(config)[i].presentation_type == dynamic_fields_report(
                Ok(config),
            )[k].1,
{
    let fs = data_fields(config);
    let fo = first_occurrences(fs);
    lemma_first_occurrences(fs);
    lemma_no_conflicts_first_type(fs);
    assert forall|i: int, k: int| 0 <= i < fs.len() && 0 <= k < fo.len() && (#[trigger] fs[i]).name
        == (#[trigger] fo[k]).0 implies fs[i].presentation_type == fo[k].1 by {
        assert(first_named(fs, fo[k].0) matches Some(j) && fs[j].presentation_type == fo[k].1);
        assert(first_named(fs, fs[i].name) matches Some(j) && fs[j].presentation_type
            == fs[i].presentation_type);
    }
}

proof fn lemma_no_conflicts_first_type(fs: Seq<DataFieldView>)
    requires
        conflict_errors(fs).len() == 0,
    ensures
        forall|i: int|
            0 <= i < fs.len() ==> (first_named(fs, (#[trigger] fs[i]).name) matches Some(j)
                && fs[j].presentation_type == fs[i].presentation_type),
    decreases fs.len(),
{
    if fs.len() > 0 {
        let p = fs.drop_last();
        let f = fs.last();
        lemma_first_named(p, f.name);
        if let Some(j) = first_named(p, f.name) {
            if fs[j].presentation_type != f.presentation_type {
                assert(conflict_errors(fs).len() == conflict_errors(p).len() + 1);
            }
        }
        assert(conflict_errors(p).len() == 0);
        lemma_no_conflicts_first_type(p);
        assert forall|i: int| 0 <= i < fs.len() implies (first_named(fs, (#[trigger] fs[i]).name) matches Some(j)
            && fs[j].presentation_type == fs[i].presentation_type) by {
            if i < p.len() {
                assert(fs[i] == p[i]);
                let j = first_named(p, p[i].name)->0;
                lemma_first_named(p, p[i].name);
                assert(fs[j] == p[j]);
            }
        }
    }
}


/// Adding to `data.dynamic` an entry that no data field of the
/// configuration names, and whose name no other entry has, changes nothing
/// that `validate_sample_data` reports.
pub proof fn law_unused_entry_changes_nothing(
    config: Result<Json, Seq<char>>,
    sample: Json,
    more: Json,
    e: Json,
)
    requires
        dynamic_entries(sample) is Some,
        dynamic_entries(more) == Some(dynamic_entries(sample)->0.push(e)),
        match entry_name(e) {
            Some(n) => !has_entry_named(dynamic_entries(sample)->0, n) && match config {
                Ok(c) => forall|i: int|
                    0 <= i < data_fields(c).len() ==> (#[trigger] data_fields(c)[i]).name != n,
                Err(_) => true,
            },
            None => true,
        },
    ensures
        sample_report(config, Ok(more)) == sample_report(config, Ok(sample)),
{
    let es = dynamic_entries(sample)->0;
    let es2 = es.push(e);
    assert(es2.drop_last() =~= es);
    assert(duplicate_errors(es2) == duplicate_errors(es));
    if let Ok(c) = config {
        lemma_field_checks_extra_entry(data_fields(c), es, e);
    }
}

proof fn lemma_field_checks_extra_entry(fs: Seq<DataFieldView>, es: Seq<Json>, e: Json)
    requires
        forall|i: int| 0 <= i < fs.len() ==> entry_name(e) != Some((#[trigger] fs[i]).name),
    ensures
        field_checks(fs, es.push(e)) == field_checks(fs, es),
    decreases fs.len(),
{
    if fs.len() > 0 {
        let p = fs.drop_last();
        let f = fs.last();
        assert forall|i: int| 0 <= i < p.len() implies entry_name(e) != Some((#[trigger] p[i]).name) by {
            assert(p[i] == fs[i]);
        }
        lemma_field_checks_extra_entry(p, es, e);
        let es2 = es.push(e);
        assert(es2.drop_last() =~= es);
        assert(entry_name(e) != Some(fs[fs.len() - 1].name));
        lemma_first_entry(es, f.name);
        assert(first_entry(es2, f.name) == first_entry(es, f.name));
        if let Some(j) = first_entry(es, f.name) {
            assert(es2[j] == es[j]);
        }
    }
}


/// A configuration that is a list of one document, itself no list, is
/// checked like that document: the same problems, the same data fields, the
/// same report on any sample data, the same id and status.
pub proof fn law_single_document_list(doc: Json, sample: Result<Json, Seq<char>>)
    requires
        !(doc is Array),
    ensures
        widget_config_report(Ok(Json::Array(seq![doc]))) == widget_config_report(Ok(doc)),
        dynamic_fields_report(Ok(Json::Array(seq![doc]))) == dynamic_fields_report(Ok(doc)),
        sample_report(Ok(Json::Array(seq![doc])), sample) == sample_report(Ok(doc), sample),
        config_info_report(Ok(Json::Array(seq![doc]))) == config_info_report(Ok(doc)),
{
    assert(config_documents(doc) == seq![doc]);
    assert(data_fields(Json::Array(seq![doc])) == data_fields(doc));
}

/// A member of a component's `fields` that declares no data field (its
/// `value_type` is not `"data"`, or its `value` is no text or an empty one)
/// adds nothing to the data fields, wherever it stands among the members.
pub proof fn law_non_data_member_adds_nothing(
    surface: Seq<char>,
    component: Seq<char>,
    fields: Seq<(Seq<char>, Json)>,
    k: int,
    m: (Seq<char>, Json),
)
    requires
        0 <= k <= fields.len(),
        data_field_of(surface, component, m) is None,
    ensures
        fields_data(surface, component, fields.insert(k, m)) == fields_data(surface, component, fields),
    decreases fields.len(),
{
    let f2 = fields.insert(k, m);
    if k == fields.len() {
        assert(f2.drop_last() =~= fields);
        assert(fields_data(surface, component, f2) =~= fields_data(surface, component, fields));
    } else {
        let p = fields.drop_last();
        assert(f2.drop_last() =~= p.insert(k, m));
        assert(f2.last() == fields.last());
        law_non_data_member_adds_nothing(surface, component, p, k, m);
    }
}


/// No two sample entries have the same name.
pub open spec fn distinct_entry_names(es: Seq<Json>) -> bool {
    forall|a: int, b: int|
        0 <= a < b < es.len() && (#[trigger] entry_name(es[a])) is Some ==> entry_name(es[a])
            != #[trigger] entry_name(es[b])
}

/// The first entry named `n` is there and passes the check of a field shown
/// as `p`.
pub open spec fn entry_passes(es: Seq<Json>, n: Seq<char>, p: Seq<char>) -> bool {
    first_entry(es, n) matches Some(j) && entry_errors(n, p, es[j]).len() == 0
}

proof fn lemma_distinct_no_duplicates(es: Seq<Json>)
    requires
        distinct_entry_names(es),
    ensures
        duplicate_errors(es).len() == 0,
    decreases es.len(),
{
    if es.len() > 0 {
        let p = es.drop_last();
        assert forall|a: int, b: int|
            0 <= a < b < p.len() && (#[trigger] entry_name(p[a])) is Some implies entry_name(p[a])
                != #[trigger] entry_name(p[b]) by {
            assert(p[a] == es[a] && p[b] == es[b]);
        }
        lemma_distinct_no_duplicates(p);
        if let Some(n) = entry_name(es.last()) {
            if has_entry_named(p, n) {
                let k = choose|k: int| 0 <= k < p.len() && entry_name(#[trigger] p[k]) == Some(n);
                assert(p[k] == es[k]);
                assert(entry_name(es[k]) != entry_name(es[es.len() - 1]));
            }
        }
    }
}

/// Similar entries pass or fail the entry check alike.
proof fn lemma_similar_entry_errors(a: Json, b: Json, name: Seq<char>, pres: Seq<char>)
    requires
        json_similar(a, b),
    ensures
        entry_errors(name, pres, a) == entry_errors(name, pres, b),
{
    reveal_strlit("url");
    lemma_similar_get(a, b, "type"@);
    lemma_similar_get(a, b, "value"@);
    assert(entry_type(a) == entry_type(b));
    match json_get(a, "value"@) {
        Some(v) => {
            let w = json_get(b, "value"@)->0;
            lemma_similar_get_str(v, w, "url"@);
            assert(v is Object <==> w is Object);
            assert(v is Str ==> v == w);
            assert(w is Str ==> v is Str);
            assert(v is Number <==> w is Number);
            assert(image_value_errors(name, json_get(a, "value"@)) == image_value_errors(name, json_get(b, "value"@)));
        },
        None => {},
    }
}

/// The entries that an update starts from are those of `data.dynamic`, or
/// none.
proof fn lemma_base_items(s: Json)
    ensures
        items_base(data_base(sample_base(Ok(s)))) == match dynamic_entries(s) {
            Some(es) => es,
            None => Seq::<Json>::empty(),
        },
{
}


/// One update by the editor keeps the entry names distinct, leaves the
/// entries of other names as they were, and writes an entry for `name` that
/// passes where the text is valid; all of which survives reading the printed
/// text back.
proof fn lemma_fill_step(
    parsed: Result<Json, Seq<char>>,
    out: Json,
    back: Json,
    name: Seq<char>,
    pres: Seq<char>,
    text: Seq<char>,
    done: Seq<(Seq<char>, Seq<char>)>,
)
    requires
        distinct_entry_names(items_base(data_base(sample_base(parsed)))),
        forall|k: int|
            0 <= k < done.len() ==> (#[trigger] done[k]).0 != name && entry_passes(
                items_base(data_base(sample_base(parsed))),
                done[k].0,
                done[k].1,
            ),
        sample_updated(out, parsed, name, pres, text),
        json_similar(out, back),
        written_entry_errors(name, pres, text).len() == 0,
    ensures
        dynamic_entries(back) matches Some(es) && distinct_entry_names(es) && forall|k: int|
            0 <= k < done.len() + 1 ==> entry_passes(
                es,
                (#[trigger] done.push((name, pres))[k]).0,
                done.push((name, pres))[k].1,
            ),
{
    reveal_strlit("data");
    reveal_strlit("dynamic");
    lemma_key_literals();
    let items0 = items_base(data_base(sample_base(parsed)));
    let d2 = entries_get(members_of(out), "data"@)->0;
    assert(json_get(out, "data"@) == Some(d2));
    let a2 = entries_get(members_of(d2), "dynamic"@)->0;
    assert(json_get(d2, "dynamic"@) == Some(a2));
    let items2 = a2->Array_0;
    assert(items_updated(items2, items0, name, pres, text));
    lemma_similar_get(out, back, "data"@);
    let d3 = json_get(back, "data"@)->0;
    lemma_similar_get(d2, d3, "dynamic"@);
    let a3 = json_get(d3, "dynamic"@)->0;
    let items3 = a3->Array_0;
    assert(dynamic_entries(back) == Some(items3));
    lemma_seq_similar_index(items2, items3);
    assert forall|i: int| 0 <= i < items2.len() implies entry_name(#[trigger] items2[i]) == entry_name(items3[i]) by {
        lemma_similar_get_str(items2[i], items3[i], "name"@);
    }
    lemma_first_entry(items0, name);
    lemma_updated_index(items2, items0, name, pres, text);
    // The names of the updated entries: those of before, and `name` at the
    // end where no entry had it.
    assert forall|j: int| 0 <= j < items0.len() implies entry_name(#[trigger] items2[j]) == entry_name(items0[j]) by {
        if let Some(i) = first_entry(items0, name) {
            if j == i {
                assert(entries_get(members_of(items2[i]), "name"@) == entries_get(members_of(items0[i]), "name"@));
            }
        }
    }
    if first_entry(items0, name) is None {
        assert(entry_name(items2[items0.len() as int]) == Some(name));
    }
    assert(distinct_entry_names(items2)) by {
        assert forall|a: int, b: int|
            0 <= a < b < items2.len() && (#[trigger] entry_name(items2[a])) is Some implies entry_name(items2[a])
                != #[trigger] entry_name(items2[b]) by {
            if b == items0.len() {
                assert(entry_name(items0[a]) != Some(name));
            }
        }
    }
    assert(distinct_entry_names(items3)) by {
        assert forall|a: int, b: int|
            0 <= a < b < items3.len() && (#[trigger] entry_name(items3[a])) is Some implies entry_name(items3[a])
                != #[trigger] entry_name(items3[b]) by {
            assert(entry_name(items2[a]) == entry_name(items3[a]));
            assert(entry_name(items2[b]) == entry_name(items3[b]));
        }
    }
    lemma_first_entry(items2, name);
    let dn = done.push((name, pres));
    assert forall|k: int| 0 <= k < dn.len() implies entry_passes(items3, (#[trigger] dn[k]).0, dn[k].1) by {
        let n = dn[k].0;
        let p = dn[k].1;
        lemma_first_entry_same_names(items2, items3, n);
        if k < done.len() {
            assert(dn[k] == done[k]);
            let j = first_entry(items0, n)->0;
            lemma_first_entry(items0, n);
            if first_entry(items0, name) is None {
                assert(items2.drop_last() =~= items0);
            } else {
                lemma_first_entry_same_names(items0, items2.take(items0.len() as int), n);
                assert(items2.take(items0.len() as int) =~= items2);
            }
            assert(first_entry(items2, n) == Some(j));
            assert(items2[j] == items0[j]);
            lemma_similar_entry_errors(items2[j], items3[j], n, p);
        } else {
            let i = first_entry(items2, name)->0;
            match first_entry(items0, name) {
                Some(j) => law_written_entry_passes_check(items2[i], items0[j], name, pres, text),
                None => law_written_entry_passes_check(items2[i], Json::Null, name, pres, text),
            }
            lemma_similar_entry_errors(items2[i], items3[i], name, pres);
        }
    }
}


/// Filling in every field that `extract_dynamic_fields` lists through
/// `update_sample_data`, one after another and each with a valid text (an
/// image a URL, a number a finite number), gives sample data that
/// `validate_sample_data` passes, where the configuration reports no
/// problem, lists at least one field, and the sample data started from has
/// no entry name twice (or is no document with a `data.dynamic` array).
pub proof fn law_filling_every_field_passes(config: Json, texts: Seq<Seq<char>>, vals: Seq<Seq<char>>)
    requires
        widget_config_report(Ok(config)).len() == 0,
        vals.len() == dynamic_fields_report(Ok(config)).len(),
        vals.len() > 0,
        texts.len() == vals.len() + 1,
        json_text_parse(texts[0]) matches Ok(s) ==> (dynamic_entries(s) matches Some(es)
            ==> distinct_entry_names(es)),
        forall|i: int|
            0 <= i < vals.len() ==> text_updated(
                texts[i],
                texts[i + 1],
                (#[trigger] dynamic_fields_report(Ok(config))[i]).0,
                dynamic_fields_report(Ok(config))[i].1,
                vals[i],
            ),
        forall|i: int|
            0 <= i < vals.len() ==> written_entry_errors(
                (#[trigger] dynamic_fields_report(Ok(config))[i]).0,
                dynamic_fields_report(Ok(config))[i].1,
                vals[i],
            ).len() == 0,
    ensures
        sample_report(Ok(config), json_text_parse(texts[vals.len() as int])).len() == 0,
{
    let sp = dynamic_fields_report(Ok(config));
    let fs = data_fields(config);
    lemma_fill_prefix(config, texts, vals, vals.len() as int);
    let b = json_text_parse(texts[vals.len() as int])->Ok_0;
    let es = dynamic_entries(b)->0;
    lemma_distinct_no_duplicates(es);
    law_dynamic_fields_distinct_and_complete(config);
    law_no_conflicts_means_one_type_per_name(config);
    assert forall|i: int| 0 <= i < fs.len() implies entry_passes(es, (#[trigger] fs[i]).name, fs[i].presentation_type) by {
        let k = choose|k: int| 0 <= k < sp.len() && (#[trigger] sp[k]).0 == fs[i].name;
        assert(fs[i].presentation_type == sp[k].1);
    }
    lemma_field_checks_pass(fs, es);
}

proof fn lemma_fill_prefix(config: Json, texts: Seq<Seq<char>>, vals: Seq<Seq<char>>, m: int)
    requires
        vals.len() == dynamic_fields_report(Ok(config)).len(),
        texts.len() == vals.len() + 1,
        json_text_parse(texts[0]) matches Ok(s) ==> (dynamic_entries(s) matches Some(es)
            ==> distinct_entry_names(es)),
        forall|i: int|
            0 <= i < vals.len() ==> text_updated(
                texts[i],
                texts[i + 1],
                (#[trigger] dynamic_fields_report(Ok(config))[i]).0,
                dynamic_fields_report(Ok(config))[i].1,
                vals[i],
            ),
        forall|i: int|
            0 <= i < vals.len() ==> written_entry_errors(
                (#[trigger] dynamic_fields_report(Ok(config))[i]).0,
                dynamic_fields_report(Ok(config))[i].1,
                vals[i],
            ).len() == 0,
        1 <= m <= vals.len(),
    ensures
        json_text_parse(texts[m]) matches Ok(b) && dynamic_entries(b) matches Some(es)
            && distinct_entry_names(es) && forall|k: int|
            0 <= k < m ==> entry_passes(
                es,
                (#[trigger] dynamic_fields_report(Ok(config))[k]).0,
                dynamic_fields_report(Ok(config))[k].1,
            ),
    decreases m,
{
    let sp = dynamic_fields_report(Ok(config));
    law_dynamic_fields_distinct_and_complete(config);
    let parsed = json_text_parse(texts[m - 1]);
    let done = sp.take(m - 1);
    let name = sp[m - 1].0;
    let pres = sp[m - 1].1;
    match parsed {
        Ok(s0) => lemma_base_items(s0),
        Err(_) => {},
    }
    if m > 1 {
        lemma_fill_prefix(config, texts, vals, m - 1);
    }
    assert forall|k: int| 0 <= k < done.len() implies (#[trigger] done[k]).0 != name && entry_passes(
        items_base(data_base(sample_base(parsed))),
        done[k].0,
        done[k].1,
    ) by {
        assert(done[k] == sp[k]);
    }
    assert(text_updated(texts[m - 1], texts[m], name, pres, vals[m - 1]));
    let out = choose|out: Json| #[trigger] printed_update(out, texts[m - 1], texts[m], name, pres, vals[m - 1]);
    let back = json_text_parse(texts[m])->Ok_0;
    assert(written_entry_errors(sp[m - 1].0, sp[m - 1].1, vals[m - 1]).len() == 0);
    lemma_fill_step(parsed, out, back, name, pres, vals[m - 1], done);
    assert(done.push((name, pres)) =~= sp.take(m));
    let es = dynamic_entries(back)->0;
    assert forall|k: int| 0 <= k < m implies entry_passes(es, (#[trigger] sp[k]).0, sp[k].1) by {
        assert(sp.take(m)[k] == sp[k]);
    }
}

proof fn lemma_field_checks_pass(fs: Seq<DataFieldView>, es: Seq<Json>)
    requires
        forall|i: int| 0 <= i < fs.len() ==> entry_passes(es, (#[trigger] fs[i]).name, fs[i].presentation_type),
    ensures
        field_checks(fs, es).len() == 0,
    decreases fs.len(),
{
    if fs.len() > 0 {
        let p = fs.drop_last();
        assert forall|i: int| 0 <= i < p.len() implies entry_passes(es, (#[trigger] p[i]).name, p[i].presentation_type) by {
            assert(p[i] == fs[i]);
        }
        lemma_field_checks_pass(p, es);
        assert(entry_passes(es, fs[fs.len() - 1].name, fs[fs.len() - 1].presentation_type));
    }
}


/// `xs2` is `xs` with the element at `i` changed, and no other.
pub open spec fn one_changed(xs2: Seq<Json>, xs: Seq<Json>, i: int) -> bool {
    &&& xs2.len() == xs.len()
    &&& 0 <= i < xs.len()
    &&& forall|j: int| 0 <= j < xs.len() && j != i ==> #[trigger] xs2[j] == xs[j]
}

/// `ms2` is `ms` with the value of the member at `i` changed, and nothing
/// else.
pub open spec fn member_changed(ms2: Seq<(Seq<char>, Json)>, ms: Seq<(Seq<char>, Json)>, i: int) -> bool {
    &&& ms2.len() == ms.len()
    &&& 0 <= i < ms.len()
    &&& ms2[i].0 == ms[i].0
    &&& forall|j: int| 0 <= j < ms.len() && j != i ==> #[trigger] ms2[j] == ms[j]
}

/// The surfaces of the document at `d` of a configuration.
pub open spec fn surfaces_in(config: Json, d: int) -> Seq<(Seq<char>, Json)> {
    object_members_at(config_documents(config)[d], "surfaces"@)
}

/// The components of the surface at `s` of the document at `d`.
pub open spec fn components_in(config: Json, d: int, s: int) -> Seq<(Seq<char>, Json)> {
    object_members_at(surfaces_in(config, d)[s].1, "components"@)
}

/// The fields of the component at `c` of the surface at `s` of the document
/// at `d`.
pub open spec fn fields_in(config: Json, d: int, s: int, c: int) -> Seq<(Seq<char>, Json)> {
    object_members_at(components_in(config, d, s)[c].1, "fields"@)
}

/// Adding to the `fields` of one component a member that declares no data
/// field (its `value_type` is not `"data"`, or its `value` is no text or an
/// empty one), wherever it lands among the members, changes nothing that
/// `validate_widget_config`, `extract_dynamic_fields` or
/// `validate_sample_data` report.
pub proof fn law_non_data_field_changes_nothing(
    config: Json,
    config2: Json,
    d: int,
    s: int,
    c: int,
    k: int,
    m: (Seq<char>, Json),
    sample: Result<Json, Seq<char>>,
)
    requires
        one_changed(config_documents(config2), config_documents(config), d),
        member_changed(surfaces_in(config2, d), surfaces_in(config, d), s),
        member_changed(components_in(config2, d, s), components_in(config, d, s), c),
        0 <= k <= fields_in(config, d, s, c).len(),
        fields_in(config2, d, s, c) == fields_in(config, d, s, c).insert(k, m),
        data_field_of(surfaces_in(config, d)[s].0, components_in(config, d, s)[c].0, m) is None,
    ensures
        widget_config_report(Ok(config2)) == widget_config_report(Ok(config)),
        dynamic_fields_report(Ok(config2)) == dynamic_fields_report(Ok(config)),
        sample_report(Ok(config2), sample) == sample_report(Ok(config), sample),
{
    let sn = surfaces_in(config, d)[s].0;
    let cn = components_in(config, d, s)[c].0;
    law_non_data_member_adds_nothing(sn, cn, fields_in(config, d, s, c), k, m);
    lemma_components_congruent(sn, components_in(config2, d, s), components_in(config, d, s), c);
    lemma_surfaces_congruent(surfaces_in(config2, d), surfaces_in(config, d), s);
    lemma_documents_congruent(config_documents(config2), config_documents(config), d);
    assert(data_fields(config2) == data_fields(config));
}

proof fn lemma_components_congruent(
    sn: Seq<char>,
    cm2: Seq<(Seq<char>, Json)>,
    cm: Seq<(Seq<char>, Json)>,
    c: int,
)
    requires
        member_changed(cm2, cm, c),
        fields_data(sn, cm[c].0, object_members_at(cm2[c].1, "fields"@)) == fields_data(
            sn,
            cm[c].0,
            object_members_at(cm[c].1, "fields"@),
        ),
    ensures
        components_data(sn, cm2) == components_data(sn, cm),
    decreases cm.len(),
{
    let n = cm.len() - 1;
    if c == n {
        assert(cm2.drop_last() =~= cm.drop_last());
    } else {
        assert(member_changed(cm2.drop_last(), cm.drop_last(), c));
        lemma_components_congruent(sn, cm2.drop_last(), cm.drop_last(), c);
        assert(cm2[n] == cm[n]);
    }
}

proof fn lemma_surfaces_congruent(sm2: Seq<(Seq<char>, Json)>, sm: Seq<(Seq<char>, Json)>, s: int)
    requires
        member_changed(sm2, sm, s),
        components_data(sm[s].0, object_members_at(sm2[s].1, "components"@)) == components_data(
            sm[s].0,
            object_members_at(sm[s].1, "components"@),
        ),
    ensures
        surfaces_data(sm2) == surfaces_data(sm),
    decreases sm.len(),
{
    let n = sm.len() - 1;
    if s == n {
        assert(sm2.drop_last() =~= sm.drop_last());
    } else {
        assert(member_changed(sm2.drop_last(), sm.drop_last(), s));
        lemma_surfaces_congruent(sm2.drop_last(), sm.drop_last(), s);
        assert(sm2[n] == sm[n]);
    }
}

proof fn lemma_documents_congruent(docs2: Seq<Json>, docs: Seq<Json>, d: int)
    requires
        one_changed(docs2, docs, d),
        surfaces_data(object_members_at(docs2[d], "surfaces"@)) == surfaces_data(
            object_members_at(docs[d], "surfaces"@),
        ),
    ensures
        documents_data(docs2) == documents_data(docs),
    decreases docs.len(),
{
    let n = docs.len() - 1;
    if d == n {
        assert(docs2.drop_last() =~= docs.drop_last());
    } else {
        assert(one_changed(docs2.drop_last(), docs.drop_last(), d));
        lemma_documents_congruent(docs2.drop_last(), docs.drop_last(), d);
        assert(docs2[n] == docs[n]);
    }
}


/// Writing the same text for the same field a second time changes nothing,
/// byte for byte, where the non-integer numbers of the document that the
/// first write printed read back exactly.
pub proof fn law_repeated_update_changes_nothing(
    out1: Json,
    t0: Seq<char>,
    t1: Seq<char>,
    t2: Seq<char>,
    name: Seq<char>,
    pres: Seq<char>,
    text: Seq<char>,
)
    requires
        printed_update(out1, t0, t1, name, pres, text),
        floats_read_back(out1),
        text_updated(t1, t2, name, pres, text),
    ensures
        t2 == t1,
{
    let out2 = choose|out: Json| #[trigger] printed_update(out, t1, t2, name, pres, text);
    assert(json_text_parse(t1) == Ok::<Json, Seq<char>>(out1));
    lemma_update_again(out1, json_text_parse(t0), out2, name, pres, text);
}

/// Updating a document that an update of the same field with the same text
/// wrote gives that document again.
proof fn lemma_update_again(
    out1: Json,
    parsed: Result<Json, Seq<char>>,
    out2: Json,
    name: Seq<char>,
    pres: Seq<char>,
    text: Seq<char>,
)
    requires
        sample_updated(out1, parsed, name, pres, text),
        canonical(out1),
        sample_updated(out2, Ok(out1), name, pres, text),
        canonical(out2),
    ensures
        out2 == out1,
{
    reveal_strlit("data");
    reveal_strlit("dynamic");
    reveal_strlit("url");
    lemma_key_literals();
    let items0 = items_base(data_base(sample_base(parsed)));
    let d1 = entries_get(members_of(out1), "data"@)->0;
    assert(json_get(out1, "data"@) == Some(d1));
    let a1 = entries_get(members_of(d1), "dynamic"@)->0;
    assert(json_get(d1, "dynamic"@) == Some(a1));
    let items1 = a1->Array_0;
    assert(items_updated(items1, items0, name, pres, text));
    assert(sample_base(Ok(out1)) == out1);
    assert(data_base(out1) == d1);
    assert(items_base(d1) == items1);
    let d2 = entries_get(members_of(out2), "data"@)->0;
    assert(json_get(out2, "data"@) == Some(d2));
    let a2 = entries_get(members_of(d2), "dynamic"@)->0;
    assert(json_get(d2, "dynamic"@) == Some(a2));
    let items2 = a2->Array_0;
    assert(items_updated(items2, items1, name, pres, text));
    lemma_canonical_parts(out1, "data"@);
    lemma_canonical_parts(d1, "dynamic"@);
    lemma_canonical_parts(a1, "dynamic"@);
    lemma_canonical_parts(out2, "data"@);
    lemma_canonical_parts(d2, "dynamic"@);
    lemma_canonical_parts(a2, "dynamic"@);
    lemma_updated_index(items1, items0, name, pres, text);
    let i = first_entry(items1, name)->0;
    lemma_first_entry(items1, name);
    assert(0 <= i < items1.len() && items2.len() == items1.len());
    assert(canonical(items1[i]) && canonical(items2[i]));
    let e1 = items1[i];
    let e2 = items2[i];
    assert(entry_updated(e2, e1, pres, text));
    // `e1` has the type and value written; so does `e2`.
    assert(entries_get(members_of(e1), "type"@) == Some(Json::Number(JsonNumber::Int(type_code(pres)))));
    let v1 = entries_get(members_of(e1), "value"@)->0;
    let v2 = entries_get(members_of(e2), "value"@)->0;
    assert(value_updated(v1, match first_entry(items0, name) {
        Some(j) => entries_get(members_of(items0[j]), "value"@),
        None => None,
    }, pres, text));
    assert(value_updated(v2, Some(v1), pres, text));
    lemma_canonical_parts(e1, "value"@);
    lemma_canonical_parts(e2, "value"@);
    assert(json_get(e1, "value"@) == Some(v1));
    assert(json_get(e2, "value"@) == Some(v2));
    if pres == "image"@ {
        assert(v1 is Object);
        assert forall|k: Seq<char>| #[trigger] entries_get(members_of(v2), k) == entries_get(members_of(v1), k) by {
        }
        lemma_sorted_same(members_of(v2), members_of(v1));
    }
    assert(v2 == v1);
    assert forall|k: Seq<char>| #[trigger] entries_get(members_of(e2), k) == entries_get(members_of(e1), k) by {
    }
    lemma_sorted_same(members_of(e2), members_of(e1));
    assert(e2 == e1);
    assert(items2 =~= items1) by {
        assert forall|j: int| 0 <= j < items1.len() implies items2[j] == items1[j] by {
        }
    }
    assert forall|k: Seq<char>| #[trigger] entries_get(members_of(d2), k) == entries_get(members_of(d1), k) by {
    }
    lemma_sorted_same(members_of(d2), members_of(d1));
    assert(d2 == d1);
    assert forall|k: Seq<char>| #[trigger] entries_get(members_of(out2), k) == entries_get(members_of(out1), k) by {
    }
    lemma_sorted_same(members_of(out2), members_of(out1));
}


/// The data field at `i` has a field of the same name before it, and the
/// first such field has another presentation type.
pub open spec fn conflicts_with_first(fs: Seq<DataFieldView>, i: int) -> bool {
    exists|j: int|
        #![trigger fs[j]]
        0 <= j < i && fs[j].name == fs[i].name && (forall|k: int|
            0 <= k < j ==> (#[trigger] fs[k]).name != fs[i].name) && fs[j].presentation_type
            != fs[i].presentation_type
}

/// The positions of the data fields that conflict with the first field of
/// their name.
pub open spec fn conflict_positions(fs: Seq<DataFieldView>) -> Set<int> {
    Set::new(|i: int| 0 <= i < fs.len() && conflicts_with_first(fs, i))
}

/// `validate_widget_config` reports each data field whose presentation type
/// differs from that of the first field of its name, naming both types and
/// the field's place, and reports nothing else: one message per such field.
pub proof fn law_each_conflict_reported(config: Json)
    ensures
        forall|i: int, j: int|
            0 <= j < i < data_fields(config).len() && (#[trigger] data_fields(config)[j]).name
                == (#[trigger] data_fields(config)[i]).name && (forall|k: int|
                0 <= k < j ==> (#[trigger] data_fields(config)[k]).name != data_fields(config)[i].name)
                && data_fields(config)[j].presentation_type != data_fields(config)[i].presentation_type
                ==> widget_config_report(Ok(config)).contains(
                "Data field '"@ + data_fields(config)[i].name
                    + "' is defined multiple times in widget configuration with conflicting presentation types ('"@
                    + data_fields(config)[j].presentation_type + "' vs '"@
                    + data_fields(config)[i].presentation_type + "' in "@ + data_fields(config)[i].surface
                    + "."@ + data_fields(config)[i].component + "."@ + data_fields(config)[i].field
                    + ")."@,
            ),
        conflict_positions(data_fields(config)).finite(),
        widget_config_report(Ok(config)).len() == conflict_positions(data_fields(config)).len(),
{
    lemma_conflict_report(data_fields(config));
}

proof fn lemma_conflict_report(fs: Seq<DataFieldView>)
    ensures
        forall|i: int, j: int|
            0 <= j < i < fs.len() && (#[trigger] fs[j]).name == (#[trigger] fs[i]).name && (forall|k: int|
                0 <= k < j ==> (#[trigger] fs[k]).name != fs[i].name) && fs[j].presentation_type
                != fs[i].presentation_type ==> conflict_errors(fs).contains(
                "Data field '"@ + fs[i].name
                    + "' is defined multiple times in widget configuration with conflicting presentation types ('"@
                    + fs[j].presentation_type + "' vs '"@ + fs[i].presentation_type + "' in "@
                    + fs[i].surface + "."@ + fs[i].component + "."@ + fs[i].field + ")."@,
            ),
        conflict_positions(fs).finite(),
        conflict_errors(fs).len() == conflict_positions(fs).len(),
    decreases fs.len(),
{
    if fs.len() == 0 {
        assert(conflict_positions(fs) =~= Set::<int>::empty());
    } else {
        let p = fs.drop_last();
        let f = fs.last();
        let n = p.len() as int;
        lemma_conflict_report(p);
        lemma_first_named(p, f.name);
        let prev = conflict_errors(p);
        assert forall|k: int| 0 <= k < n implies #[trigger] fs[k] == p[k] by {}
        // Positions before the last conflict as they did in `p`.
        assert forall|i: int| 0 <= i < n implies conflicts_with_first(fs, i) == conflicts_with_first(p, i) by {
            if conflicts_with_first(fs, i) {
                let j = choose|j: int|
                    #![trigger fs[j]]
                    0 <= j < i && fs[j].name == fs[i].name && (forall|k: int|
                        0 <= k < j ==> (#[trigger] fs[k]).name != fs[i].name) && fs[j].presentation_type
                        != fs[i].presentation_type;
                assert(p[j] == fs[j]);
                assert forall|k: int| 0 <= k < j implies (#[trigger] p[k]).name != p[i].name by {
                    assert(p[k] == fs[k]);
                }
            }
            if conflicts_with_first(p, i) {
                let j = choose|j: int|
                    #![trigger p[j]]
                    0 <= j < i && p[j].name == p[i].name && (forall|k: int|
                        0 <= k < j ==> (#[trigger] p[k]).name != p[i].name) && p[j].presentation_type
                        != p[i].presentation_type;
                assert(p[j] == fs[j]);
                assert forall|k: int| 0 <= k < j implies (#[trigger] fs[k]).name != fs[i].name by {
                    assert(p[k] == fs[k]);
                }
            }
        }
        // The last position conflicts exactly where the definition pushes.
        let last_conflicts = match first_named(p, f.name) {
            Some(j) => fs[j].presentation_type != f.presentation_type,
            None => false,
        };
        assert(conflicts_with_first(fs, n) == last_conflicts) by {
            if conflicts_with_first(fs, n) {
                let j = choose|j: int|
                    #![trigger fs[j]]
                    0 <= j < n && fs[j].name == fs[n].name && (forall|k: int|
                        0 <= k < j ==> (#[trigger] fs[k]).name != fs[n].name) && fs[j].presentation_type
                        != fs[n].presentation_type;
                assert(p[j] == fs[j]);
                let j0 = first_named(p, f.name)->0;
                assert(fs[j0] == p[j0]);
                assert(j == j0);
            }
            if last_conflicts {
                let j0 = first_named(p, f.name)->0;
                assert(fs[j0] == p[j0]);
                assert forall|k: int| 0 <= k < j0 implies (#[trigger] fs[k]).name != fs[n].name by {
                    assert(p[k] == fs[k]);
                }
            }
        }
        if last_conflicts {
            assert(conflict_positions(fs) =~= conflict_positions(p).insert(n));
            assert(!conflict_positions(p).contains(n));
            assert(conflict_errors(fs) == prev.push(conflict_message(fs[first_named(p, f.name)->0].presentation_type, f)));
        } else {
            assert(conflict_positions(fs) =~= conflict_positions(p));
            assert(conflict_errors(fs) == prev);
        }
        assert forall|i: int, j: int|
            0 <= j < i < fs.len() && (#[trigger] fs[j]).name == (#[trigger] fs[i]).name && (forall|k: int|
                0 <= k < j ==> (#[trigger] fs[k]).name != fs[i].name) && fs[j].presentation_type
                != fs[i].presentation_type implies conflict_errors(fs).contains(
                "Data field '"@ + fs[i].name
                    + "' is defined multiple times in widget configuration with conflicting presentation types ('"@
                    + fs[j].presentation_type + "' vs '"@ + fs[i].presentation_type + "' in "@
                    + fs[i].surface + "."@ + fs[i].component + "."@ + fs[i].field + ")."@,
            ) by {
            if i < n {
                assert(p[i] == fs[i] && p[j] == fs[j]);
                assert forall|k: int| 0 <= k < j implies (#[trigger] p[k]).name != p[i].name by {
                    assert(p[k] == fs[k]);
                }
                let m = "Data field '"@ + p[i].name
                    + "' is defined multiple times in widget configuration with conflicting presentation types ('"@
                    + p[j].presentation_type + "' vs '"@ + p[i].presentation_type + "' in "@
                    + p[i].surface + "."@ + p[i].component + "."@ + p[i].field + ")."@;
                assert(prev.contains(m));
                let q = choose|q: int| 0 <= q < prev.len() && prev[q] == m;
                assert(conflict_errors(fs)[q] == m);
            } else {
                let j0 = first_named(p, f.name)->0;
                assert(fs[j0] == p[j0]);
                if j < j0 {
                    assert(p[j] == fs[j]);
                } else if j0 < j {
                    assert(p[j0] == fs[j0]);
                }
                assert(j == j0);
                assert(conflict_errors(fs)[prev.len() as int] == conflict_message(fs[j].presentation_type, f));
            }
        }
    }
}


/// The problems of the entry of a data field are part of what the field
/// checks report.
proof fn lemma_field_checks_has(fs: Seq<DataFieldView>, es: Seq<Json>, i: int, m: Seq<char>)
    requires
        0 <= i < fs.len(),
        (match first_entry(es, fs[i].name) {
            None => seq![missing_message(fs[i])],
            Some(j) => entry_errors(fs[i].name, fs[i].presentation_type, es[j]),
        }).contains(m),
    ensures
        field_checks(fs, es).contains(m),
    decreases fs.len(),
{
    let p = fs.drop_last();
    let prev = field_checks(p, es);
    let tail = match first_entry(es, fs.last().name) {
        None => seq![missing_message(fs.last())],
        Some(j) => entry_errors(fs.last().name, fs.last().presentation_type, es[j]),
    };
    assert(field_checks(fs, es) == prev + tail);
    if i == fs.len() - 1 {
        let q = choose|q: int| 0 <= q < tail.len() && tail[q] == m;
        assert((prev + tail)[prev.len() + q] == m);
    } else {
        assert(p[i] == fs[i]);
        lemma_field_checks_has(p, es, i, m);
        let q = choose|q: int| 0 <= q < prev.len() && prev[q] == m;
        assert((prev + tail)[q] == m);
    }
}

/// What the field checks report is part of what `validate_sample_data`
/// reports.
proof fn lemma_report_has_field_check(config: Json, sample: Json, es: Seq<Json>, m: Seq<char>)
    requires
        dynamic_entries(sample) == Some(es),
        field_checks(data_fields(config), es).contains(m),
    ensures
        sample_report(Ok(config), Ok(sample)).contains(m),
{
    let base = widget_config_report(Ok(config)) + duplicate_errors(es);
    let fc = field_checks(data_fields(config), es);
    assert(sample_report(Ok(config), Ok(sample)) == base + fc);
    let q = choose|q: int| 0 <= q < fc.len() && fc[q] == m;
    assert((base + fc)[base.len() + q] == m);
}

/// `validate_sample_data` reports a data field of the configuration for
/// which no sample entry has its name.
pub proof fn law_missing_entry_reported(config: Json, sample: Json, es: Seq<Json>, f: DataFieldView)
    requires
        data_fields(config).contains(f),
        dynamic_entries(sample) == Some(es),
        forall|k: int| 0 <= k < es.len() ==> entry_name(#[trigger] es[k]) != Some(f.name),
    ensures
        sample_report(Ok(config), Ok(sample)).contains(
            "Missing dynamic field '"@ + f.name + "' (required for "@ + f.surface + "."@ + f.component
                + "."@ + f.field + ")"@,
        ),
{
    let fs = data_fields(config);
    let i = choose|i: int| 0 <= i < fs.len() && fs[i] == f;
    lemma_first_entry(es, f.name);
    assert(first_entry(es, f.name) is None);
    let m = missing_message(f);
    assert(seq![m][0] == m);
    lemma_field_checks_has(fs, es, i, m);
    lemma_report_has_field_check(config, sample, es, m);
}

/// For the first sample entry of the name of a data field shown as text,
/// number or image, `validate_sample_data` reports a `type` that is not
/// exactly 1, 2 or 3, and a `value` that is not a string, not a number, or
/// not an object with a string `url` that parses as a URL.
pub proof fn law_entry_problems_reported(
    config: Json,
    sample: Json,
    es: Seq<Json>,
    f: DataFieldView,
    j: int,
)
    requires
        data_fields(config).contains(f),
        dynamic_entries(sample) == Some(es),
        0 <= j < es.len(),
        entry_name(es[j]) == Some(f.name),
        forall|k: int| 0 <= k < j ==> entry_name(#[trigger] es[k]) != Some(f.name),
    ensures
        f.presentation_type == "text"@ && entry_type(es[j]) != Some(1i64) ==> sample_report(
            Ok(config),
            Ok(sample),
        ).contains(
            "Field '"@ + f.name + "' has presentation_type 'text' so 'type' must be 1 (found "@
                + option_i64_debug(entry_type(es[j])) + ")"@,
        ),
        f.presentation_type == "number"@ && entry_type(es[j]) != Some(2i64) ==> sample_report(
            Ok(config),
            Ok(sample),
        ).contains(
            "Field '"@ + f.name + "' has presentation_type 'number' so 'type' must be 2 (found "@
                + option_i64_debug(entry_type(es[j])) + ")"@,
        ),
        f.presentation_type == "image"@ && entry_type(es[j]) != Some(3i64) ==> sample_report(
            Ok(config),
            Ok(sample),
        ).contains(
            "Field '"@ + f.name + "' has presentation_type 'image' so 'type' must be 3 (found "@
                + option_i64_debug(entry_type(es[j])) + ")"@,
        ),
        f.presentation_type == "text"@ && !(json_get(es[j], "value"@) matches Some(Json::Str(_)))
            ==> sample_report(Ok(config), Ok(sample)).contains(
            "Field '"@ + f.name + "' must have a string 'value'"@,
        ),
        f.presentation_type == "number"@ && !(json_get(es[j], "value"@) matches Some(Json::Number(_)))
            ==> sample_report(Ok(config), Ok(sample)).contains(
            "Field '"@ + f.name + "' must have a numeric 'value'"@,
        ),
        f.presentation_type == "image"@ && !(json_get(es[j], "value"@) matches Some(Json::Object(_)))
            ==> sample_report(Ok(config), Ok(sample)).contains(
            "Field '"@ + f.name + "' must have 'value' as an object like {\"url\": \"...\"}"@,
        ),
        f.presentation_type == "image"@ && (json_get(es[j], "value"@) matches Some(Json::Object(_)))
            && json_get_str(json_get(es[j], "value"@)->0, "url"@) is None ==> sample_report(
            Ok(config),
            Ok(sample),
        ).contains("Field '"@ + f.name + "' 'value' object must contain a string 'url'"@),
        f.presentation_type == "image"@ && (json_get(es[j], "value"@) matches Some(Json::Object(_)))
            && (json_get_str(json_get(es[j], "value"@)->0, "url"@) is Some) && !url_parse_ok(
            json_get_str(json_get(es[j], "value"@)->0, "url"@)->0,
        ) ==> sample_report(Ok(config), Ok(sample)).contains(
            "Field '"@ + f.name + "' url is not a valid URL: '"@ + json_get_str(
                json_get(es[j], "value"@)->0,
                "url"@,
            )->0 + "'"@,
        ),
{
    let fs = data_fields(config);
    let i = choose|i: int| 0 <= i < fs.len() && fs[i] == f;
    lemma_first_entry(es, f.name);
    assert(first_entry(es, f.name) == Some(j));
    lemma_key_literals();
    reveal_strlit("text");
    reveal_strlit("image");
    reveal_strlit("number");
    let e = es[j];
    let errs = entry_errors(f.name, f.presentation_type, e);
    let found = entry_type(e);
    let value = json_get(e, "value"@);
    assert forall|m: Seq<char>| errs.contains(m) implies sample_report(Ok(config), Ok(sample)).contains(m) by {
        lemma_field_checks_has(fs, es, i, m);
        lemma_report_has_field_check(config, sample, es, m);
    }
    let tm = type_message(f.name, f.presentation_type, found);
    if f.presentation_type == "text"@ {
        let tp: Seq<Seq<char>> = if found == Some(1i64) { Seq::empty() } else { seq![tm] };
        let vp: Seq<Seq<char>> = if value matches Some(Json::Str(_)) {
            Seq::empty()
        } else {
            seq!["Field '"@ + f.name + "' must have a string 'value'"@]
        };
        assert(errs == tp + vp);
        if found != Some(1i64) {
            assert(errs[0] == tm);
            assert(errs.contains(tm));
            assert(tm == "Field '"@ + f.name + "' has presentation_type 'text' so 'type' must be 1 (found "@
                + option_i64_debug(found) + ")"@);
            assert(sample_report(Ok(config), Ok(sample)).contains(tm));
        }
        if vp.len() > 0 {
            assert(errs[tp.len() as int] == vp[0]);
            assert(errs.contains(vp[0]));
            assert(sample_report(Ok(config), Ok(sample)).contains(vp[0]));
        }
    } else if f.presentation_type == "number"@ {
        let tp: Seq<Seq<char>> = if found == Some(2i64) { Seq::empty() } else { seq![tm] };
        let vp: Seq<Seq<char>> = if value matches Some(Json::Number(_)) {
            Seq::empty()
        } else {
            seq!["Field '"@ + f.name + "' must have a numeric 'value'"@]
        };
        assert(errs == tp + vp);
        if found != Some(2i64) {
            assert(errs[0] == tm);
            assert(errs.contains(tm));
            assert(tm == "Field '"@ + f.name + "' has presentation_type 'number' so 'type' must be 2 (found "@
                + option_i64_debug(found) + ")"@);
            assert(sample_report(Ok(config), Ok(sample)).contains(tm));
        }
        if vp.len() > 0 {
            assert(errs[tp.len() as int] == vp[0]);
            assert(errs.contains(vp[0]));
            assert(sample_report(Ok(config), Ok(sample)).contains(vp[0]));
        }
    } else if f.presentation_type == "image"@ {
        let tp: Seq<Seq<char>> = if found == Some(3i64) { Seq::empty() } else { seq![tm] };
        let vp = image_value_errors(f.name, value);
        assert(errs == tp + vp);
        if found != Some(3i64) {
            assert(errs[0] == tm);
            assert(errs.contains(tm));
            assert(tm == "Field '"@ + f.name + "' has presentation_type 'image' so 'type' must be 3 (found "@
                + option_i64_debug(found) + ")"@);
            assert(sample_report(Ok(config), Ok(sample)).contains(tm));
        }
        if vp.len() > 0 {
            assert(errs[tp.len() as int] == vp[0]);
            assert(errs.contains(vp[0]));
            assert(sample_report(Ok(config), Ok(sample)).contains(vp[0]));
        }
    }
}


/// A sample entry of the right `type` and `value` for a field shown as
/// `pres`: text 1 and a string, number 2 and a number, image 3 and an object
/// whose `url` is a string that parses as a URL; any entry for another
/// presentation type.
pub open spec fn entry_fits(e: Json, pres: Seq<char>) -> bool {
    &&& pres == "text"@ ==> entry_type(e) == Some(1i64) && (json_get(e, "value"@) matches Some(Json::Str(_)))
    &&& pres == "number"@ ==> entry_type(e) == Some(2i64) && (json_get(e, "value"@) matches Some(Json::Number(_)))
    &&& pres == "image"@ ==> entry_type(e) == Some(3i64) && (json_get(e, "value"@) matches Some(Json::Object(_)))
        && (json_get_str(json_get(e, "value"@)->0, "url"@) is Some) && url_parse_ok(
        json_get_str(json_get(e, "value"@)->0, "url"@)->0,
    )
}

/// `validate_sample_data` reports nothing where the data fields of one name
/// share a presentation type, the sample has a `data.dynamic` array with no
/// name twice, and the first entry of each data field's name fits the field.
pub proof fn law_fitting_sample_passes(config: Json, sample: Json, es: Seq<Json>)
    requires
        forall|a: int, b: int|
            0 <= a < data_fields(config).len() && 0 <= b < data_fields(config).len()
                && (#[trigger] data_fields(config)[a]).name == (#[trigger] data_fields(config)[b]).name
                ==> data_fields(config)[a].presentation_type == data_fields(config)[b].presentation_type,
        dynamic_entries(sample) == Some(es),
        distinct_entry_names(es),
        forall|i: int|
            0 <= i < data_fields(config).len() ==> exists|j: int|
                0 <= j < es.len() && entry_name(#[trigger] es[j]) == Some(
                    (#[trigger] data_fields(config)[i]).name,
                ) && entry_fits(es[j], data_fields(config)[i].presentation_type),
    ensures
        sample_report(Ok(config), Ok(sample)) == Seq::<Seq<char>>::empty(),
{
    let fs = data_fields(config);
    lemma_conflict_report(fs);
    assert(conflict_positions(fs) =~= Set::<int>::empty()) by {
        assert forall|i: int| !(#[trigger] conflict_positions(fs).contains(i)) by {
            if 0 <= i < fs.len() && conflicts_with_first(fs, i) {
                let j = choose|j: int|
                    #![trigger fs[j]]
                    0 <= j < i && fs[j].name == fs[i].name && (forall|k: int|
                        0 <= k < j ==> (#[trigger] fs[k]).name != fs[i].name) && fs[j].presentation_type
                        != fs[i].presentation_type;
                assert(fs[j].presentation_type == fs[i].presentation_type);
            }
        }
    }
    lemma_distinct_no_duplicates(es);
    lemma_key_literals();
    reveal_strlit("text");
    reveal_strlit("image");
    reveal_strlit("number");
    reveal_strlit("url");
    assert forall|i: int| 0 <= i < fs.len() implies entry_passes(es, (#[trigger] fs[i]).name, fs[i].presentation_type) by {
        let j = choose|j: int|
            0 <= j < es.len() && entry_name(#[trigger] es[j]) == Some(fs[i].name) && entry_fits(
                es[j],
                fs[i].presentation_type,
            );
        lemma_first_entry(es, fs[i].name);
        let j0 = first_entry(es, fs[i].name)->0;
        if j0 != j {
            if j0 < j {
                assert(entry_name(es[j0]) != entry_name(es[j]));
            }
        }
        assert(j0 == j);
        let e = es[j];
        let pres = fs[i].presentation_type;
        if pres == "image"@ {
            assert(image_value_errors(fs[i].name, json_get(e, "value"@)) =~= Seq::<Seq<char>>::empty());
        }
        assert(entry_errors(fs[i].name, pres, e) =~= Seq::<Seq<char>>::empty());
    }
    lemma_field_checks_pass(fs, es);
    assert(sample_report(Ok(config), Ok(sample)) =~= Seq::<Seq<char>>::empty());
}


proof fn lemma_duplicate_errors_has(es: Seq<Json>, a: int, b: int)
    requires
        0 <= a < b < es.len(),
        entry_name(es[b]) is Some,
        entry_name(es[a]) == entry_name(es[b]),
    ensures
        duplicate_errors(es).contains(
            "Duplicate data field '"@ + entry_name(es[b])->0 + "' found in sample data."@,
        ),
    decreases es.len(),
{
    let p = es.drop_last();
    let prev = duplicate_errors(p);
    if b == es.len() - 1 {
        let n = entry_name(es[b])->0;
        assert(p[a] == es[a]);
        assert(has_entry_named(p, n));
        assert(duplicate_errors(es) == prev.push("Duplicate data field '"@ + n + "' found in sample data."@));
        assert(duplicate_errors(es)[prev.len() as int] == "Duplicate data field '"@ + n + "' found in sample data."@);
    } else {
        assert(p[a] == es[a] && p[b] == es[b]);
        lemma_duplicate_errors_has(p, a, b);
        let m = "Duplicate data field '"@ + entry_name(es[b])->0 + "' found in sample data."@;
        let q = choose|q: int| 0 <= q < prev.len() && prev[q] == m;
        assert(duplicate_errors(es)[q] == m);
    }
}

/// `validate_sample_data` reports each sample entry whose name an earlier
/// entry already has.
pub proof fn law_duplicate_entry_reported(config: Json, sample: Json, es: Seq<Json>, a: int, b: int)
    requires
        dynamic_entries(sample) == Some(es),
        0 <= a < b < es.len(),
        entry_name(es[b]) is Some,
        entry_name(es[a]) == entry_name(es[b]),
    ensures
        sample_report(Ok(config), Ok(sample)).contains(
            "Duplicate data field '"@ + entry_name(es[b])->0 + "' found in sample data."@,
        ),
{
    lemma_duplicate_errors_has(es, a, b);
    let m = "Duplicate data field '"@ + entry_name(es[b])->0 + "' found in sample data."@;
    let base = widget_config_report(Ok(config));
    let d = duplicate_errors(es);
    let rest = field_checks(data_fields(config), es);
    assert(sample_report(Ok(config), Ok(sample)) == base + d + rest);
    let q = choose|q: int| 0 <= q < d.len() && d[q] == m;
    assert((base + d + rest)[base.len() + q] == m);
}

} // verus!
