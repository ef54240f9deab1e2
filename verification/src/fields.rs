//! The data fields that a widget configuration declares.
//!
//! A configuration is one document or an array of documents; each holds
//! `surfaces`, each surface `components`, each component `fields`. A field
//! whose `value_type` is `"data"` names, in `value`, an entry of the sample
//! data, shown as its `presentation_type`.

use vstd::prelude::*;
use crate::json::{
    Json, value_model, map_model, models, value_as_array, json_get, json_get_str, value_get, value_as_str,
    value_as_object, map_entries,
};
use crate::text::{str_eq, owned};

verus! {

/// One data field of a widget configuration, with the path that leads to it.
pub struct DataField {
    pub surface: String,
    pub component: String,
    pub field: String,
    pub name: String,
    pub presentation_type: String,
}

pub struct DataFieldView {
    pub surface: Seq<char>,
    pub component: Seq<char>,
    pub field: Seq<char>,
    pub name: Seq<char>,
    pub presentation_type: Seq<char>,
}

impl View for DataField {
    type V = DataFieldView;

    open spec fn view(&self) -> DataFieldView {
        DataFieldView {
            surface: self.surface@,
            component: self.component@,
            field: self.field@,
            name: self.name@,
            presentation_type: self.presentation_type@,
        }
    }
}

pub open spec fn field_views(v: Seq<DataField>) -> Seq<DataFieldView> {
    v.map_values(|d: DataField| d@)
}

/// `get(key)`, `as_str`, and `""` where either finds nothing.
pub open spec fn str_member_or_empty(j: Json, key: Seq<char>) -> Seq<char> {
    match json_get_str(j, key) {
        Some(s) => s,
        None => Seq::empty(),
    }
}

/// The members of the object found under `key`, none where there is no object.
pub open spec fn object_members_at(j: Json, key: Seq<char>) -> Seq<(Seq<char>, Json)> {
    match json_get(j, key) {
        Some(Json::Object(es)) => es,
        _ => Seq::empty(),
    }
}

/// The data field that a member of a component's `fields` declares, if any:
/// its `value_type` is `"data"` and its `value` is a text that is not empty.
pub open spec fn data_field_of(
    surface: Seq<char>,
    component: Seq<char>,
    member: (Seq<char>, Json),
) -> Option<DataFieldView> {
    let name = str_member_or_empty(member.1, "value"@);
    if json_get_str(member.1, "value_type"@) == Some("data"@) && name.len() > 0 {
        Some(
            DataFieldView {
                surface,
                component,
                field: member.0,
                name,
                presentation_type: str_member_or_empty(member.1, "presentation_type"@),
            },
        )
    } else {
        None
    }
}

pub open spec fn option_seq<A>(o: Option<A>) -> Seq<A> {
    match o {
        Some(a) => seq![a],
        None => Seq::empty(),
    }
}

pub open spec fn fields_data(
    surface: Seq<char>,
    component: Seq<char>,
    fields: Seq<(Seq<char>, Json)>,
) -> Seq<DataFieldView>
    decreases fields.len(),
{
    if fields.len() == 0 {
        Seq::empty()
    } else {
        fields_data(surface, component, fields.drop_last()) + option_seq(
            data_field_of(surface, component, fields.last()),
        )
    }
}

pub open spec fn components_data(
    surface: Seq<char>,
    components: Seq<(Seq<char>, Json)>,
) -> Seq<DataFieldView>
    decreases components.len(),
{
    if components.len() == 0 {
        Seq::empty()
    } else {
        components_data(surface, components.drop_last()) + fields_data(
            surface,
            components.last().0,
            object_members_at(components.last().1, "fields"@),
        )
    }
}

pub open spec fn surfaces_data(surfaces: Seq<(Seq<char>, Json)>) -> Seq<DataFieldView>
    decreases surfaces.len(),
{
    if surfaces.len() == 0 {
        Seq::empty()
    } else {
        surfaces_data(surfaces.drop_last()) + components_data(
            surfaces.last().0,
            object_members_at(surfaces.last().1, "components"@),
        )
    }
}

pub open spec fn documents_data(documents: Seq<Json>) -> Seq<DataFieldView>
    decreases documents.len(),
{
    if documents.len() == 0 {
        Seq::empty()
    } else {
        documents_data(documents.drop_last()) + surfaces_data(
            object_members_at(documents.last(), "surfaces"@),
        )
    }
}

/// The documents of a configuration: the elements of an array, or the
/// configuration itself.
pub open spec fn config_documents(config: Json) -> Seq<Json> {
    match config {
        Json::Array(items) => items,
        _ => seq![config],
    }
}

/// Every data field of a configuration, in the order of its walk.
pub open spec fn data_fields(config: Json) -> Seq<DataFieldView> {
    documents_data(config_documents(config))
}

/// `get(key).and_then(as_str).unwrap_or("")`.
fn get_str_or_empty<'a>(v: &'a serde_json::Value, key: &str) -> (r: &'a str)
    ensures
        r@ == str_member_or_empty(value_model(*v), key@),
{
    proof {
        reveal_strlit("");
    }
    match value_get(v, key) {
        Some(x) => match value_as_str(x) {
            Some(s) => s,
            None => "",
        },
        None => "",
    }
}

/// `get(key).and_then(as_object)`.
fn get_object<'a>(v: &'a serde_json::Value, key: &str) -> (r: Option<
    &'a serde_json::Map<String, serde_json::Value>,
>)
    ensures
        match r {
            Some(m) => object_members_at(value_model(*v), key@) == map_model(*m),
            None => object_members_at(value_model(*v), key@) == Seq::<(Seq<char>, Json)>::empty(),
        },
{
    match value_get(v, key) {
        Some(x) => value_as_object(x),
        None => None,
    }
}

fn field_data(surface: &str, component: &str, field: &str, field_val: &serde_json::Value) -> (r:
    Option<DataField>)
    ensures
        match r {
            Some(d) => data_field_of(surface@, component@, (field@, value_model(*field_val)))
                == Some(d@),
            None => data_field_of(surface@, component@, (field@, value_model(*field_val))) is None,
        },
{
    let value_type = get_str_or_empty(field_val, "value_type");
    proof {
        reveal_strlit("data");
    }
    if str_eq(value_type, "data") {
        let val_name = get_str_or_empty(field_val, "value");
        let pres_type = get_str_or_empty(field_val, "presentation_type");
        if val_name.is_empty() {
            return None;
        }
        let d = DataField {
            surface: owned(surface),
            component: owned(component),
            field: owned(field),
            name: owned(val_name),
            presentation_type: owned(pres_type),
        };
        // A non-empty `value_type` was found, so it is a text.
        assert("data"@.len() == 4);
        assert(json_get_str(value_model(*field_val), "value_type"@) == Some("data"@));
        assert(d@ == DataFieldView {
            surface: surface@,
            component: component@,
            field: field@,
            name: val_name@,
            presentation_type: pres_type@,
        });
        Some(d)
    } else {
        assert(json_get_str(value_model(*field_val), "value_type"@) != Some("data"@));
        None
    }
}

fn push_fields(
    surface: &str,
    component: &str,
    fields: &serde_json::Map<String, serde_json::Value>,
    out: &mut Vec<DataField>,
)
    ensures
        field_views(final(out)@) == field_views(old(out)@) + fields_data(
            surface@,
            component@,
            map_model(*fields),
        ),
{
    let entries = map_entries(fields);
    let ghost es = map_model(*fields);
    let mut i: usize = 0;
    while i < entries.len()
        invariant
            0 <= i <= entries@.len(),
            entries@.len() == es.len(),
            es == map_model(*fields),
            forall|j: int|
                0 <= j < entries@.len() ==> (#[trigger] entries@[j]).0@ == es[j].0
                    && value_model(*entries@[j].1) == es[j].1,
            field_views(out@) == field_views(old(out)@) + fields_data(
                surface@,
                component@,
                es.take(i as int),
            ),
        decreases entries@.len() - i,
    {
        let (fname, fval) = entries[i];
        let d = field_data(surface, component, fname.as_str(), fval);
        assert(es.take(i + 1).drop_last() == es.take(i as int));
        assert(es.take(i + 1).last() == es[i as int]);
        let ghost prev = out@;
        match d {
            Some(d) => {
                out.push(d);
                assert(field_views(out@) == field_views(prev).push(d@));
            },
            None => {},
        }
        assert(field_views(out@) == field_views(old(out)@) + fields_data(
            surface@,
            component@,
            es.take(i + 1),
        ));
        i = i + 1;
    }
    assert(es.take(i as int) == es);
}

fn push_components(
    surface: &str,
    components: &serde_json::Map<String, serde_json::Value>,
    out: &mut Vec<DataField>,
)
    ensures
        field_views(final(out)@) == field_views(old(out)@) + components_data(
            surface@,
            map_model(*components),
        ),
{
    let entries = map_entries(components);
    let ghost es = map_model(*components);
    let mut i: usize = 0;
    while i < entries.len()
        invariant
            0 <= i <= entries@.len(),
            entries@.len() == es.len(),
            es == map_model(*components),
            forall|j: int|
                0 <= j < entries@.len() ==> (#[trigger] entries@[j]).0@ == es[j].0
                    && value_model(*entries@[j].1) == es[j].1,
            field_views(out@) == field_views(old(out)@) + components_data(surface@, es.take(i as int)),
        decreases entries@.len() - i,
    {
        let (cname, cval) = entries[i];
        assert(es.take(i + 1).drop_last() == es.take(i as int));
        assert(es.take(i + 1).last() == es[i as int]);
        let ghost prev = out@;
        match get_object(cval, "fields") {
            Some(fields) => {
                push_fields(surface, cname.as_str(), fields, out);
            },
            None => {},
        }
        assert(field_views(out@) == field_views(old(out)@) + components_data(surface@, es.take(i + 1)));
        i = i + 1;
    }
    assert(es.take(i as int) == es);
}

fn push_surfaces(surfaces: &serde_json::Map<String, serde_json::Value>, out: &mut Vec<DataField>)
    ensures
        field_views(final(out)@) == field_views(old(out)@) + surfaces_data(map_model(*surfaces)),
{
    let entries = map_entries(surfaces);
    let ghost es = map_model(*surfaces);
    let mut i: usize = 0;
    while i < entries.len()
        invariant
            0 <= i <= entries@.len(),
            entries@.len() == es.len(),
            es == map_model(*surfaces),
            forall|j: int|
                0 <= j < entries@.len() ==> (#[trigger] entries@[j]).0@ == es[j].0
                    && value_model(*entries@[j].1) == es[j].1,
            field_views(out@) == field_views(old(out)@) + surfaces_data(es.take(i as int)),
        decreases entries@.len() - i,
    {
        let (sname, sval) = entries[i];
        assert(es.take(i + 1).drop_last() == es.take(i as int));
        assert(es.take(i + 1).last() == es[i as int]);
        match get_object(sval, "components") {
            Some(components) => {
                push_components(sname.as_str(), components, out);
            },
            None => {},
        }
        assert(field_views(out@) == field_views(old(out)@) + surfaces_data(es.take(i + 1)));
        i = i + 1;
    }
    assert(es.take(i as int) == es);
}

fn push_document(document: &serde_json::Value, out: &mut Vec<DataField>)
    ensures
        field_views(final(out)@) == field_views(old(out)@) + surfaces_data(
            object_members_at(value_model(*document), "surfaces"@),
        ),
{
    match get_object(document, "surfaces") {
        Some(surfaces) => {
            push_surfaces(surfaces, out);
        },
        None => {
            assert(field_views(out@) == field_views(old(out)@) + surfaces_data(
                Seq::<(Seq<char>, Json)>::empty(),
            ));
        },
    }
}

/// Every data field of a configuration document, in the order of its walk:
/// for each document (the elements of an array, or the value itself), for
/// each surface, component and field in turn; fields whose `value` is empty
/// are left out.
pub fn collect_data_fields(config: &serde_json::Value) -> (r: Vec<DataField>)
    ensures
        field_views(r@) == data_fields(value_model(*config)),
{
    let mut out: Vec<DataField> = Vec::new();
    assert(field_views(out@) == Seq::<DataFieldView>::empty());
    match value_as_array(config) {
        Some(items) => {
            let ghost docs = models(items@);
            let mut i: usize = 0;
            while i < items.len()
                invariant
                    0 <= i <= items@.len(),
                    docs == models(items@),
                    value_model(*config) == Json::Array(docs),
                    field_views(out@) == documents_data(docs.take(i as int)),
                decreases items@.len() - i,
            {
                assert(docs.take(i + 1).drop_last() == docs.take(i as int));
                assert(docs.take(i + 1).last() == value_model(items@[i as int]));
                push_document(&items[i], &mut out);
                i = i + 1;
            }
            assert(docs.take(i as int) == docs);
        },
        None => {
            push_document(config, &mut out);
            let ghost one = seq![value_model(*config)];
            assert(one.drop_last() == Seq::<Json>::empty());
            assert(one.last() == value_model(*config));
            assert(documents_data(Seq::<Json>::empty()) == Seq::<DataFieldView>::empty());
            assert(documents_data(one) == surfaces_data(
                object_members_at(value_model(*config), "surfaces"@),
            ));
            assert(config_documents(value_model(*config)) == one);
        },
    }
    out
}

/// The index of the first field named `name`.
pub open spec fn first_named(fs: Seq<DataFieldView>, name: Seq<char>) -> Option<int>
    decreases fs.len(),
{
    if fs.len() == 0 {
        None
    } else {
        match first_named(fs.drop_last(), name) {
            Some(j) => Some(j),
            None => if fs.last().name == name {
                Some(fs.len() - 1)
            } else {
                None
            },
        }
    }
}

pub proof fn lemma_first_named(fs: Seq<DataFieldView>, name: Seq<char>)
    ensures
        match first_named(fs, name) {
            Some(j) => 0 <= j < fs.len() && fs[j].name == name && forall|k: int|
                0 <= k < j ==> (#[trigger] fs[k]).name != name,
            None => forall|k: int| 0 <= k < fs.len() ==> (#[trigger] fs[k]).name != name,
        },
    decreases fs.len(),
{
    if fs.len() > 0 {
        lemma_first_named(fs.drop_last(), name);
        assert forall|k: int| 0 <= k < fs.len() - 1 implies (#[trigger] fs[k]) == fs.drop_last()[k] by {}
    }
}

/// The message for a field whose presentation type differs from the one of
/// the first field of the same name.
pub open spec fn conflict_message(existing: Seq<char>, f: DataFieldView) -> Seq<char> {
    "Data field '"@ + f.name
        + "' is defined multiple times in widget configuration with conflicting presentation types ('"@
        + existing + "' vs '"@ + f.presentation_type + "' in "@ + f.surface + "."@ + f.component
        + "."@ + f.field + ")."@
}

/// One message for each field whose name was seen before with another
/// presentation type (compared with the first field of that name).
pub open spec fn conflict_errors(fs: Seq<DataFieldView>) -> Seq<Seq<char>>
    decreases fs.len(),
{
    if fs.len() == 0 {
        Seq::empty()
    } else {
        let prev = conflict_errors(fs.drop_last());
        let f = fs.last();
        match first_named(fs.drop_last(), f.name) {
            Some(j) => if fs[j].presentation_type != f.presentation_type {
                prev.push(conflict_message(fs[j].presentation_type, f))
            } else {
                prev
            },
            None => prev,
        }
    }
}

pub open spec fn text_views(v: Seq<String>) -> Seq<Seq<char>> {
    v.map_values(|s: String| s@)
}

/// The index of the first of `fields[..upto]` named `name`.
fn find_first(fields: &Vec<DataField>, upto: usize, name: &str) -> (r: Option<usize>)
    requires
        upto <= fields@.len(),
    ensures
        r == match first_named(field_views(fields@).take(upto as int), name@) {
            Some(j) => Some(j as usize),
            None => None::<usize>,
        },
{
    let ghost fs = field_views(fields@).take(upto as int);
    proof {
        lemma_first_named(fs, name@);
    }
    let mut k: usize = 0;
    while k < upto
        invariant
            upto <= fields@.len(),
            fs == field_views(fields@).take(upto as int),
            0 <= k <= upto,
            forall|m: int| 0 <= m < k ==> (#[trigger] fs[m]).name != name@,
            match first_named(fs, name@) {
                Some(j) => 0 <= j < fs.len() && fs[j].name == name@ && forall|m: int|
                    0 <= m < j ==> (#[trigger] fs[m]).name != name@,
                None => forall|m: int| 0 <= m < fs.len() ==> (#[trigger] fs[m]).name != name@,
            },
        decreases upto - k,
    {
        assert(fs[k as int] == fields@[k as int]@);
        if str_eq(fields[k].name.as_str(), name) {
            proof {
                match first_named(fs, name@) {
                    Some(j) => {
                        assert(j == k as int);
                    },
                    None => {
                        assert(fs[k as int].name == name@);
                    },
                }
            }
            return Some(k);
        }
        k = k + 1;
    }
    None
}

fn conflict_text(existing: &str, f: &DataField) -> (r: String)
    ensures
        r@ == conflict_message(existing@, f@),
{
    let mut m = String::new();
    m.append("Data field '");
    m.append(f.name.as_str());
    m.append(
        "' is defined multiple times in widget configuration with conflicting presentation types ('",
    );
    m.append(existing);
    m.append("' vs '");
    m.append(f.presentation_type.as_str());
    m.append("' in ");
    m.append(f.surface.as_str());
    m.append(".");
    m.append(f.component.as_str());
    m.append(".");
    m.append(f.field.as_str());
    m.append(").");
    m
}

/// The conflict messages of a list of data fields.
pub fn conflicting_fields(fields: &Vec<DataField>) -> (r: Vec<String>)
    ensures
        text_views(r@) == conflict_errors(field_views(fields@)),
{
    let ghost fs = field_views(fields@);
    let mut errors: Vec<String> = Vec::new();
    let mut i: usize = 0;
    while i < fields.len()
        invariant
            fs == field_views(fields@),
            0 <= i <= fields@.len(),
            text_views(errors@) == conflict_errors(fs.take(i as int)),
        decreases fields@.len() - i,
    {
        let ghost pre = fs.take(i + 1);
        assert(pre.drop_last() == fs.take(i as int));
        assert(pre.last() == fields@[i as int]@);
        let ghost prev = errors@;
        match find_first(fields, i, fields[i].name.as_str()) {
            Some(j) => {
                proof {
                    lemma_first_named(fs.take(i as int), fields@[i as int].name@);
                }
                assert(pre[j as int] == fs[j as int]);
                if fields[j].presentation_type != fields[i].presentation_type {
                    let m = conflict_text(fields[j].presentation_type.as_str(), &fields[i]);
                    errors.push(m);
                    assert(text_views(errors@) == text_views(prev).push(m@));
                }
            },
            None => {},
        }
        assert(text_views(errors@) == conflict_errors(pre));
        i = i + 1;
    }
    assert(fs.take(i as int) == fs);
    errors
}

/// The name and presentation type of the first field of each name, in the
/// order in which the names first occur.
pub open spec fn first_occurrences(fs: Seq<DataFieldView>) -> Seq<(Seq<char>, Seq<char>)>
    decreases fs.len(),
{
    if fs.len() == 0 {
        Seq::empty()
    } else {
        let prev = first_occurrences(fs.drop_last());
        if first_named(fs.drop_last(), fs.last().name) is Some {
            prev
        } else {
            prev.push((fs.last().name, fs.last().presentation_type))
        }
    }
}

pub proof fn lemma_first_occurrences_names(fs: Seq<DataFieldView>, name: Seq<char>)
    ensures
        (exists|k: int| 0 <= k < first_occurrences(fs).len() && (#[trigger] first_occurrences(fs)[k]).0 == name)
            <==> first_named(fs, name) is Some,
    decreases fs.len(),
{
    if fs.len() > 0 {
        let p = fs.drop_last();
        lemma_first_occurrences_names(p, name);
        lemma_first_occurrences_names(p, fs.last().name);
        let fo = first_occurrences(fs);
        let fp = first_occurrences(p);
        if first_named(p, fs.last().name) is Some {
            assert(fo == fp);
        } else {
            assert(fo == fp.push((fs.last().name, fs.last().presentation_type)));
            if first_named(fs, name) is Some {
                if first_named(p, name) is Some {
                    let k = choose|k: int| 0 <= k < fp.len() && (#[trigger] fp[k]).0 == name;
                    assert(fo[k] == fp[k]);
                } else {
                    assert(fo[fp.len() as int].0 == name);
                }
            }
            if exists|k: int| 0 <= k < fo.len() && (#[trigger] fo[k]).0 == name {
                let k = choose|k: int| 0 <= k < fo.len() && (#[trigger] fo[k]).0 == name;
                if k < fp.len() {
                    assert(fp[k] == fo[k]);
                }
            }
        }
    }
}

} // verus!
