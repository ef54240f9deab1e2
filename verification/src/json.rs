//! A mathematical model of `serde_json::Value` and the trusted operations on it.

use vstd::prelude::*;

verus! {

/// `serde_json::Value`, opaque: what it holds is `value_model`.
#[verifier::external_type_specification]
#[verifier::external_body]
pub struct ExValue(serde_json::Value);

/// `serde_json::Map`, opaque: what it holds is `map_model`.
#[verifier::external_type_specification]
#[verifier::external_body]
#[verifier::reject_recursive_types(K)]
#[verifier::reject_recursive_types(V)]
pub struct ExMap<K, V>(serde_json::Map<K, V>);

/// The numbers of a JSON document: integers (as serde_json keeps them when
/// they fit `u64` or `i64`) and other numbers, given by the text that
/// serde_json prints for them.
pub enum JsonNumber {
    Int(int),
    Float(Seq<char>),
}

/// A JSON document. Object members are listed in the order in which the
/// object is walked.
pub enum Json {
    Null,
    Bool(bool),
    Number(JsonNumber),
    Str(Seq<char>),
    Array(Seq<Json>),
    Object(Seq<(Seq<char>, Json)>),
}

/// What a `serde_json::Value` holds.
pub uninterp spec fn value_model(v: serde_json::Value) -> Json;

/// What a `serde_json::Map` holds, member by member, in the order of its walk.
pub uninterp spec fn map_model(m: serde_json::Map<String, serde_json::Value>) -> Seq<(Seq<char>, Json)>;

/// `serde_json::from_str::<Value>` on a text: the document, or the text of the error.
pub uninterp spec fn json_text_parse(text: Seq<char>) -> Result<Json, Seq<char>>;

/// `serde_json::to_string_pretty` of a document: the text, or `None` for an error.
pub uninterp spec fn json_pretty(j: Json) -> Option<Seq<char>>;

/// The value of the first member named `key`.
pub open spec fn entries_get(es: Seq<(Seq<char>, Json)>, key: Seq<char>) -> Option<Json>
    decreases es.len(),
{
    if es.len() == 0 {
        None
    } else if es[0].0 == key {
        Some(es[0].1)
    } else {
        entries_get(es.drop_first(), key)
    }
}

/// `Value::get` with a string key.
pub open spec fn json_get(j: Json, key: Seq<char>) -> Option<Json> {
    match j {
        Json::Object(es) => entries_get(es, key),
        _ => None,
    }
}

pub open spec fn json_as_str(j: Json) -> Option<Seq<char>> {
    match j {
        Json::Str(s) => Some(s),
        _ => None,
    }
}

pub open spec fn json_as_i64(j: Json) -> Option<i64> {
    match j {
        Json::Number(JsonNumber::Int(i)) => if i64::MIN <= i <= i64::MAX {
            Some(i as i64)
        } else {
            None
        },
        _ => None,
    }
}

/// `get(key)` followed by `as_str`.
pub open spec fn json_get_str(j: Json, key: Seq<char>) -> Option<Seq<char>> {
    match json_get(j, key) {
        Some(v) => json_as_str(v),
        None => None,
    }
}

pub open spec fn models(vs: Seq<serde_json::Value>) -> Seq<Json> {
    vs.map_values(|v: serde_json::Value| value_model(v))
}

pub open spec fn result_model(r: Result<serde_json::Value, String>) -> Result<Json, Seq<char>> {
    match r {
        Ok(v) => Ok(value_model(v)),
        Err(e) => Err(e@),
    }
}

/// How deeply arrays and objects nest in a document: 0 for any other value,
/// one more than the deepest element or member for an array or an object.
pub open spec fn json_depth(j: Json) -> nat
    decreases j,
{
    match j {
        Json::Array(xs) => 1 + items_depth(xs),
        Json::Object(ms) => 1 + members_depth(ms),
        _ => 0,
    }
}

/// The deepest nesting among a list of documents, 0 for none.
pub open spec fn items_depth(xs: Seq<Json>) -> nat
    decreases xs,
{
    if xs.len() == 0 {
        0
    } else {
        let a = json_depth(xs[0]);
        let b = items_depth(xs.drop_first());
        if a > b { a } else { b }
    }
}

/// The deepest nesting among the values of a list of members, 0 for none.
pub open spec fn members_depth(ms: Seq<(Seq<char>, Json)>) -> nat
    decreases ms,
{
    if ms.len() == 0 {
        0
    } else {
        let a = json_depth(ms[0].1);
        let b = members_depth(ms.drop_first());
        if a > b { a } else { b }
    }
}

/// A list of documents nests as deeply as its deepest element.
pub proof fn lemma_items_depth(xs: Seq<Json>, k: nat)
    ensures
        forall|i: int| 0 <= i < xs.len() ==> json_depth(#[trigger] xs[i]) <= items_depth(xs),
        (forall|i: int| 0 <= i < xs.len() ==> json_depth(#[trigger] xs[i]) <= k) ==> items_depth(xs) <= k,
    decreases xs.len(),
{
    if xs.len() > 0 {
        let t = xs.drop_first();
        lemma_items_depth(t, k);
        assert forall|i: int| 0 <= i < xs.len() implies json_depth(#[trigger] xs[i]) <= items_depth(xs) by {
            if i > 0 {
                assert(xs[i] == t[i - 1]);
            }
        }
        if forall|i: int| 0 <= i < xs.len() ==> json_depth(#[trigger] xs[i]) <= k {
            assert forall|i: int| 0 <= i < t.len() implies json_depth(#[trigger] t[i]) <= k by {
                assert(t[i] == xs[i + 1]);
            }
        }
    }
}

/// The value of a member nests less deeply than its object.
pub proof fn lemma_member_depth(ms: Seq<(Seq<char>, Json)>, key: Seq<char>)
    ensures
        entries_get(ms, key) matches Some(x) ==> json_depth(x) <= members_depth(ms),
    decreases ms.len(),
{
    if ms.len() > 0 {
        lemma_member_depth(ms.drop_first(), key);
    }
}

/// The order of `String` keys, by which serde_json's map walks them: by
/// character codes from the left, a prefix before a longer key.
pub open spec fn key_less(a: Seq<char>, b: Seq<char>) -> bool
    decreases a.len(),
{
    if b.len() == 0 {
        false
    } else if a.len() == 0 {
        true
    } else if a[0] != b[0] {
        (a[0] as u32) < (b[0] as u32)
    } else {
        key_less(a.drop_first(), b.drop_first())
    }
}

/// The members are walked in ascending key order, each key once.
pub open spec fn sorted_keys(ms: Seq<(Seq<char>, Json)>) -> bool {
    forall|i: int, j: int| 0 <= i < j < ms.len() ==> key_less(#[trigger] ms[i].0, #[trigger] ms[j].0)
}

/// Every object in the document walks its members in ascending key order,
/// each key once, as a map of serde_json does.
pub open spec fn canonical(j: Json) -> bool
    decreases j,
{
    match j {
        Json::Array(xs) => items_canonical(xs),
        Json::Object(ms) => sorted_keys(ms) && members_canonical(ms),
        _ => true,
    }
}

pub open spec fn items_canonical(xs: Seq<Json>) -> bool
    decreases xs,
{
    xs.len() == 0 || (canonical(xs[0]) && items_canonical(xs.drop_first()))
}

pub open spec fn members_canonical(ms: Seq<(Seq<char>, Json)>) -> bool
    decreases ms,
{
    ms.len() == 0 || (canonical(ms[0].1) && members_canonical(ms.drop_first()))
}

/// Every number of the document that is not an integer has a text that
/// `from_str` reads back as that same number.
pub open spec fn floats_read_back(j: Json) -> bool
    decreases j,
{
    match j {
        Json::Number(JsonNumber::Float(t)) => json_text_parse(t) == Ok::<Json, Seq<char>>(Json::Number(JsonNumber::Float(t))),
        Json::Array(xs) => items_read_back(xs),
        Json::Object(ms) => members_read_back(ms),
        _ => true,
    }
}

pub open spec fn items_read_back(xs: Seq<Json>) -> bool
    decreases xs,
{
    xs.len() == 0 || (floats_read_back(xs[0]) && items_read_back(xs.drop_first()))
}

pub open spec fn members_read_back(ms: Seq<(Seq<char>, Json)>) -> bool
    decreases ms,
{
    ms.len() == 0 || (floats_read_back(ms[0].1) && members_read_back(ms.drop_first()))
}

/// No key comes before itself, and of two keys at most one comes first.
pub proof fn lemma_key_less_asymmetric(a: Seq<char>, b: Seq<char>)
    ensures
        !(key_less(a, b) && key_less(b, a)),
        !key_less(a, a),
    decreases a.len(),
{
    if a.len() > 0 && b.len() > 0 && a[0] == b[0] {
        lemma_key_less_asymmetric(a.drop_first(), b.drop_first());
    }
    if a.len() > 0 {
        lemma_key_less_asymmetric(a.drop_first(), a.drop_first());
    }
}

/// In sorted members, each member is the one found by its key, and a key
/// is found only where a member has it.
pub proof fn lemma_sorted_lookup(ms: Seq<(Seq<char>, Json)>, k: Seq<char>)
    requires
        sorted_keys(ms),
    ensures
        forall|i: int| 0 <= i < ms.len() ==> entries_get(ms, (#[trigger] ms[i]).0) == Some(ms[i].1),
        entries_get(ms, k) is Some ==> exists|i: int| 0 <= i < ms.len() && (#[trigger] ms[i]).0 == k,
    decreases ms.len(),
{
    if ms.len() > 0 {
        let t = ms.drop_first();
        assert(sorted_keys(t)) by {
            assert forall|i: int, j: int| 0 <= i < j < t.len() implies key_less(#[trigger] t[i].0, #[trigger] t[j].0) by {
                assert(t[i] == ms[i + 1] && t[j] == ms[j + 1]);
            }
        }
        lemma_sorted_lookup(t, k);
        assert forall|i: int| 0 <= i < ms.len() implies entries_get(ms, (#[trigger] ms[i]).0) == Some(ms[i].1) by {
            if i > 0 {
                assert(ms[i] == t[i - 1]);
                assert(key_less(ms[0].0, ms[i].0));
                lemma_key_less_asymmetric(ms[0].0, ms[i].0);
            }
        }
        if entries_get(ms, k) is Some && ms[0].0 != k {
            let i = choose|i: int| 0 <= i < t.len() && (#[trigger] t[i]).0 == k;
            assert(ms[i + 1] == t[i]);
        }
    }
}

/// Two objects whose members are sorted and found alike are the same.
pub proof fn lemma_sorted_same(a: Seq<(Seq<char>, Json)>, b: Seq<(Seq<char>, Json)>)
    requires
        sorted_keys(a),
        sorted_keys(b),
        forall|k: Seq<char>| #[trigger] entries_get(a, k) == entries_get(b, k),
    ensures
        a == b,
    decreases a.len(),
{
    if a.len() == 0 {
        if b.len() > 0 {
            lemma_sorted_lookup(b, b[0].0);
            assert(entries_get(b, b[0].0) is Some);
            assert(entries_get(a, b[0].0) is None);
        }
        assert(a =~= b);
    } else {
        lemma_sorted_lookup(a, a[0].0);
        assert(entries_get(a, a[0].0) == Some(a[0].1));
        assert(entries_get(b, a[0].0) is Some);
        lemma_sorted_lookup(b, a[0].0);
        let ka = a[0].0;
        let kb = b[0].0;
        lemma_sorted_lookup(b, kb);
        assert(entries_get(b, kb) == Some(b[0].1));
        lemma_sorted_lookup(a, kb);
        let q = choose|q: int| 0 <= q < a.len() && (#[trigger] a[q]).0 == kb;
        let r = choose|r: int| 0 <= r < b.len() && (#[trigger] b[r]).0 == ka;
        if q > 0 && r > 0 {
            assert(key_less(a[0].0, a[q].0));
            assert(key_less(b[0].0, b[r].0));
            lemma_key_less_asymmetric(ka, kb);
        }
        assert(ka == kb);
        assert(a[0] == b[0]);
        let ta = a.drop_first();
        let tb = b.drop_first();
        assert(sorted_keys(ta)) by {
            assert forall|i: int, j: int| 0 <= i < j < ta.len() implies key_less(#[trigger] ta[i].0, #[trigger] ta[j].0) by {
                assert(ta[i] == a[i + 1] && ta[j] == a[j + 1]);
            }
        }
        assert(sorted_keys(tb)) by {
            assert forall|i: int, j: int| 0 <= i < j < tb.len() implies key_less(#[trigger] tb[i].0, #[trigger] tb[j].0) by {
                assert(tb[i] == b[i + 1] && tb[j] == b[j + 1]);
            }
        }
        assert forall|k: Seq<char>| #[trigger] entries_get(ta, k) == entries_get(tb, k) by {
            if k == ka {
                lemma_sorted_lookup(ta, k);
                lemma_sorted_lookup(tb, k);
                if entries_get(ta, k) is Some {
                    let i = choose|i: int| 0 <= i < ta.len() && (#[trigger] ta[i]).0 == k;
                    assert(ta[i] == a[i + 1]);
                    assert(key_less(a[0].0, a[i + 1].0));
                    lemma_key_less_asymmetric(ka, ka);
                }
                if entries_get(tb, k) is Some {
                    let i = choose|i: int| 0 <= i < tb.len() && (#[trigger] tb[i]).0 == k;
                    assert(tb[i] == b[i + 1]);
                    assert(key_less(b[0].0, b[i + 1].0));
                    lemma_key_less_asymmetric(ka, ka);
                }
            } else {
                assert(entries_get(a, k) == entries_get(ta, k));
                assert(entries_get(b, k) == entries_get(tb, k));
            }
        }
        lemma_sorted_same(ta, tb);
        assert(a =~= b) by {
            assert forall|i: int| 0 <= i < a.len() implies a[i] == b[i] by {
                if i > 0 {
                    assert(a[i] == ta[i - 1] && b[i] == tb[i - 1]);
                }
            }
        }
    }
}

/// The parts of a canonical document are canonical.
pub proof fn lemma_canonical_parts(j: Json, k: Seq<char>)
    requires
        canonical(j),
    ensures
        json_get(j, k) matches Some(x) ==> canonical(x),
        j matches Json::Array(xs) ==> forall|i: int| 0 <= i < xs.len() ==> canonical(#[trigger] xs[i]),
{
    match j {
        Json::Object(ms) => lemma_member_canonical(ms, k),
        Json::Array(xs) => lemma_items_canonical(xs),
        _ => {},
    }
}

proof fn lemma_member_canonical(ms: Seq<(Seq<char>, Json)>, k: Seq<char>)
    requires
        members_canonical(ms),
    ensures
        entries_get(ms, k) matches Some(x) ==> canonical(x),
    decreases ms.len(),
{
    if ms.len() > 0 {
        lemma_member_canonical(ms.drop_first(), k);
    }
}

proof fn lemma_items_canonical(xs: Seq<Json>)
    requires
        items_canonical(xs),
    ensures
        forall|i: int| 0 <= i < xs.len() ==> canonical(#[trigger] xs[i]),
    decreases xs.len(),
{
    if xs.len() > 0 {
        let t = xs.drop_first();
        lemma_items_canonical(t);
        assert forall|i: int| 0 <= i < xs.len() implies canonical(#[trigger] xs[i]) by {
            if i > 0 {
                assert(xs[i] == t[i - 1]);
            }
        }
    }
}

/// The parser's nesting limit: `from_str` refuses a text whose arrays and
/// objects nest this deep.
pub open spec fn nesting_limit() -> nat {
    128
}

/// Parses a JSON text with `serde_json::from_str`; an error is given by its
/// `Display` text. Claimed: the outcome is the one `json_text_parse` names
/// for the text, and a document read nests less deeply than the parser's
/// limit.
#[verifier::external_body]
pub fn parse_json(text: &str) -> (r: Result<serde_json::Value, String>)
    ensures
        result_model(r) == json_text_parse(text@),
        r matches Ok(v) ==> json_depth(value_model(v)) < nesting_limit(),
{
    match serde_json::from_str::<serde_json::Value>(text) {
        Ok(v) => Ok(v),
        Err(e) => Err(e.to_string()),
    }
}

/// `Value::get` with a string key: the member of an object, `None` for any
/// other value or a missing key.
#[verifier::external_body]
pub fn value_get<'a>(v: &'a serde_json::Value, key: &str) -> (r: Option<&'a serde_json::Value>)
    ensures
        match r {
            Some(x) => json_get(value_model(*v), key@) == Some(value_model(*x)),
            None => json_get(value_model(*v), key@) is None,
        },
{
    v.get(key)
}


/// `Value::as_object`: the map of an object, `None` for any other value.
#[verifier::external_body]
pub fn value_as_object(v: &serde_json::Value) -> (r: Option<&serde_json::Map<String, serde_json::Value>>)
    ensures
        match r {
            Some(m) => value_model(*v) == Json::Object(map_model(*m)),
            None => !(value_model(*v) is Object),
        },
{
    v.as_object()
}

/// `Map::iter`, collected: the members of a map in the order of its walk.
#[verifier::external_body]
pub fn map_entries(m: &serde_json::Map<String, serde_json::Value>) -> (r: Vec<(&String, &serde_json::Value)>)
    ensures
        r@.len() == map_model(*m).len(),
        forall|i: int|
            0 <= i < r@.len() ==> (#[trigger] r@[i]).0@ == map_model(*m)[i].0
                && value_model(*r@[i].1) == map_model(*m)[i].1,
{
    m.iter().collect()
}

/// `Value::as_array`: the elements of an array, `None` for any other value.
#[verifier::external_body]
pub fn value_as_array(v: &serde_json::Value) -> (r: Option<&Vec<serde_json::Value>>)
    ensures
        match r {
            Some(a) => value_model(*v) == Json::Array(models(a@)),
            None => !(value_model(*v) is Array),
        },
{
    v.as_array()
}

/// `Value::as_str`: the text of a string, `None` for any other value.
#[verifier::external_body]
pub fn value_as_str(v: &serde_json::Value) -> (r: Option<&str>)
    ensures
        match r {
            Some(s) => json_as_str(value_model(*v)) == Some(s@),
            None => json_as_str(value_model(*v)) is None,
        },
{
    v.as_str()
}

/// `Value::as_i64`: an integer number that fits `i64`, `None` otherwise.
#[verifier::external_body]
pub fn value_as_i64(v: &serde_json::Value) -> (r: Option<i64>)
    ensures
        r == json_as_i64(value_model(*v)),
{
    v.as_i64()
}

/// `Value::is_number`.
#[verifier::external_body]
pub fn value_is_number(v: &serde_json::Value) -> (r: bool)
    ensures
        r == (value_model(*v) is Number),
{
    v.is_number()
}

/// `Value::is_object`.
#[verifier::external_body]
pub fn value_is_object(v: &serde_json::Value) -> (r: bool)
    ensures
        r == (value_model(*v) is Object),
{
    v.is_object()
}

/// `Value::is_array`.
#[verifier::external_body]
pub fn value_is_array(v: &serde_json::Value) -> (r: bool)
    ensures
        r == (value_model(*v) is Array),
{
    v.is_array()
}

/// `Value::is_string`.
#[verifier::external_body]
pub fn value_is_string(v: &serde_json::Value) -> (r: bool)
    ensures
        r == (value_model(*v) is Str),
{
    v.is_string()
}

/// The decimal text of an integer, as `itoa` (and so serde_json) prints it.
pub open spec fn int_text(i: int) -> Seq<char> {
    if i < 0 {
        seq!['-'] + nat_text((-i) as nat)
    } else {
        nat_text(i as nat)
    }
}

pub open spec fn digit_char(d: nat) -> char {
    if d == 0 { '0' }
    else if d == 1 { '1' }
    else if d == 2 { '2' }
    else if d == 3 { '3' }
    else if d == 4 { '4' }
    else if d == 5 { '5' }
    else if d == 6 { '6' }
    else if d == 7 { '7' }
    else if d == 8 { '8' }
    else { '9' }
}

pub open spec fn nat_text(n: nat) -> Seq<char>
    decreases n,
{
    if n < 10 {
        seq![digit_char(n)]
    } else {
        nat_text(n / 10).push(digit_char(n % 10))
    }
}

/// The text that `Number`'s `Display` prints.
pub open spec fn number_text(n: JsonNumber) -> Seq<char> {
    match n {
        JsonNumber::Int(i) => int_text(i),
        JsonNumber::Float(t) => t,
    }
}

/// `Value::as_number` followed by `Number`'s `to_string`: the printed text of
/// a number, `None` for any other value.
#[verifier::external_body]
pub fn value_number_text(v: &serde_json::Value) -> (r: Option<String>)
    ensures
        match r {
            Some(t) => value_model(*v) matches Json::Number(n) && t@ == number_text(n),
            None => !(value_model(*v) is Number),
        },
{
    match v.as_number() {
        Some(n) => Some(n.to_string()),
        None => None,
    }
}

/// `Value::Object(Map::new())`.
#[verifier::external_body]
pub fn new_object() -> (r: serde_json::Value)
    ensures
        value_model(r) == Json::Object(Seq::empty()),
{
    serde_json::Value::Object(serde_json::Map::new())
}

/// `Value::Array` of the given elements.
#[verifier::external_body]
pub fn value_from_vec(items: Vec<serde_json::Value>) -> (r: serde_json::Value)
    ensures
        value_model(r) == Json::Array(models(items@)),
{
    serde_json::Value::Array(items)
}

/// `Value::String` of the given text.
#[verifier::external_body]
pub fn value_from_string(s: String) -> (r: serde_json::Value)
    ensures
        value_model(r) == Json::Str(s@),
{
    serde_json::Value::String(s)
}

/// `Value::Number` of an `i64`.
#[verifier::external_body]
pub fn value_from_i64(i: i64) -> (r: serde_json::Value)
    ensures
        value_model(r) == Json::Number(JsonNumber::Int(i as int)),
{
    serde_json::Value::Number(i.into())
}

/// The elements of an array value, taken by value; `None` for any other value.
#[verifier::external_body]
pub fn value_into_vec(v: serde_json::Value) -> (r: Option<Vec<serde_json::Value>>)
    ensures
        match r {
            Some(a) => value_model(v) == Json::Array(models(a@)),
            None => !(value_model(v) is Array),
        },
{
    match v {
        serde_json::Value::Array(a) => Some(a),
        _ => None,
    }
}

/// The members of an object, or none for `null` (which `IndexMut` turns
/// into an empty object before it writes).
pub open spec fn members_of(j: Json) -> Seq<(Seq<char>, Json)> {
    match j {
        Json::Object(es) => es,
        _ => Seq::empty(),
    }
}

/// `j` is an object in which `key` is bound to `x` and every other key is
/// bound as in `base`.
pub open spec fn object_with(j: Json, base: Json, key: Seq<char>, x: Json) -> bool {
    &&& j is Object
    &&& forall|k: Seq<char>|
        #[trigger] entries_get(members_of(j), k) == if k == key {
            Some(x)
        } else {
            entries_get(members_of(base), k)
        }
}

/// `v[key] = x` through `Value`'s `IndexMut` with a string key: `null`
/// becomes an object first; the member is added or replaced, so the object
/// nests no deeper than before or than one level above `x`. Its map is a
/// `BTreeMap`, as is every map of a `Value`: the result walks the members of
/// each of its objects in ascending key order, each key once (`canonical`).
#[verifier::external_body]
pub fn object_insert(v: &mut serde_json::Value, key: &str, x: serde_json::Value)
    requires
        value_model(*old(v)) is Object || value_model(*old(v)) is Null,
    ensures
        object_with(value_model(*final(v)), value_model(*old(v)), key@, value_model(x)),
        json_depth(value_model(*final(v))) <= json_depth(value_model(*old(v)))
            || json_depth(value_model(*final(v))) <= 1 + json_depth(value_model(x)),
        canonical(value_model(*final(v))),
{
    v[key] = x;
}

/// `v[key].take()`: the member `key` is replaced by `null` (added as `null`
/// if missing, `null` becoming an object first) and its old value returned.
#[verifier::external_body]
pub fn object_take(v: &mut serde_json::Value, key: &str) -> (r: serde_json::Value)
    requires
        value_model(*old(v)) is Object || value_model(*old(v)) is Null,
    ensures
        value_model(r) == match json_get(value_model(*old(v)), key@) {
            Some(x) => x,
            None => Json::Null,
        },
        object_with(value_model(*final(v)), value_model(*old(v)), key@, Json::Null),
        json_depth(value_model(*final(v))) <= json_depth(value_model(*old(v)))
            || json_depth(value_model(*final(v))) == 1,
{
    v[key].take()
}

/// `b` is `a` read back from its JSON text: the same structure, texts,
/// member names and integers; a number that is not an integer reads back as
/// such a number, not necessarily the same one (serde_json parses those
/// with best-effort precision).
pub open spec fn json_similar(a: Json, b: Json) -> bool
    decreases a,
{
    match a {
        Json::Array(xs) => match b {
            Json::Array(ys) => seq_similar(xs, ys),
            _ => false,
        },
        Json::Object(xs) => match b {
            Json::Object(ys) => members_similar(xs, ys),
            _ => false,
        },
        Json::Number(JsonNumber::Float(_)) => b matches Json::Number(JsonNumber::Float(_)),
        _ => b == a,
    }
}

pub open spec fn seq_similar(xs: Seq<Json>, ys: Seq<Json>) -> bool
    decreases xs,
{
    &&& xs.len() == ys.len()
    &&& xs.len() > 0 ==> json_similar(xs[0], ys[0]) && seq_similar(xs.drop_first(), ys.drop_first())
}

pub open spec fn members_similar(xs: Seq<(Seq<char>, Json)>, ys: Seq<(Seq<char>, Json)>) -> bool
    decreases xs,
{
    &&& xs.len() == ys.len()
    &&& xs.len() > 0 ==> xs[0].0 == ys[0].0 && json_similar(xs[0].1, ys[0].1) && members_similar(
        xs.drop_first(),
        ys.drop_first(),
    )
}

/// `serde_json::to_string_pretty`, its error dropped. Claimed: printing a
/// `Value` succeeds (its map keys are strings and its numbers finite), the
/// text is the one `json_pretty` names for the document, and `from_str`
/// reads the text back (`json_similar`), without fail where the document
/// nests less deeply than the parser's limit (the text nests as the document
/// does); and it reads back the very document where, besides, each of its
/// numbers that is not an integer has a text that reads back as itself
/// (members come back in key order, as the map walks them).
#[verifier::external_body]
pub fn to_pretty_text(v: &serde_json::Value) -> (r: Option<String>)
    ensures
        r is Some,
        match r {
            Some(s) => json_pretty(value_model(*v)) == Some(s@),
            None => json_pretty(value_model(*v)) is None,
        },
        r matches Some(s) ==> (json_depth(value_model(*v)) < nesting_limit()
            ==> json_text_parse(s@) is Ok),
        r matches Some(s) ==> (json_depth(value_model(*v)) < nesting_limit() && floats_read_back(
            value_model(*v),
        ) ==> json_text_parse(s@) == Ok::<Json, Seq<char>>(value_model(*v))),
        r matches Some(s) ==> (json_text_parse(s@) matches Ok(back) ==> json_similar(
            value_model(*v),
            back,
        )),
{
    serde_json::to_string_pretty(v).ok()
}

} // verus!
