//! JSON values as the library reads and builds them.
//!
//! Bodies are parsed and printed by `serde_json` (through [`parse_json`], [`parse_json_text`]
//! and [`to_json_bytes`]); what the proxy reads out of a value and how it rewrites one is
//! stated here over [`Json`]. Objects keep the order of their keys, as `serde_json` does with
//! `preserve_order`.

use vstd::prelude::*;

use crate::text::str_eq;

verus! {

/// `serde_json`'s value, held only inside the conversions below.
#[verifier::external_type_specification]
#[verifier::external_body]
pub struct ExValue(serde_json::Value);

/// `serde_json`'s number, held only inside the conversions below.
#[verifier::external_type_specification]
#[verifier::external_body]
pub struct ExNumber(serde_json::Number);

/// A JSON number as `serde_json` keeps it: a non-negative integer, a negative integer, or
/// anything else, kept by its shortest decimal text.
#[derive(Debug, Clone, PartialEq)]
pub enum JsonNumber {
    PosInt(u64),
    NegInt(i64),
    Float(String),
}

/// A JSON value.
#[derive(Debug)]
pub enum Json {
    Null,
    Bool(bool),
    Number(JsonNumber),
    String(String),
    Array(Vec<Json>),
    Object(Vec<(String, Json)>),
}

/// The mathematical value of a [`JsonNumber`].
pub ghost enum NumberModel {
    PosInt(u64),
    NegInt(i64),
    Float(Seq<char>),
}

/// The mathematical value of a [`Json`]: strings by their characters, arrays and objects by
/// the sequences of their items and entries.
pub ghost enum JsonModel {
    Null,
    Bool(bool),
    Number(NumberModel),
    String(Seq<char>),
    Array(Seq<JsonModel>),
    Object(Seq<(Seq<char>, JsonModel)>),
}

impl View for JsonNumber {
    type V = NumberModel;

    open spec fn view(&self) -> NumberModel {
        match self {
            JsonNumber::PosInt(n) => NumberModel::PosInt(*n),
            JsonNumber::NegInt(n) => NumberModel::NegInt(*n),
            JsonNumber::Float(t) => NumberModel::Float(t@),
        }
    }
}

/// The model of a value, item by item.
pub open spec fn json_model(j: Json) -> JsonModel
    decreases j,
{
    match j {
        Json::Null => JsonModel::Null,
        Json::Bool(b) => JsonModel::Bool(b),
        Json::Number(n) => JsonModel::Number(n@),
        Json::String(s) => JsonModel::String(s@),
        Json::Array(xs) => JsonModel::Array(
            Seq::new(
                xs@.len(),
                |i: int|
                    if 0 <= i < xs@.len() {
                        json_model(xs@[i])
                    } else {
                        JsonModel::Null
                    },
            ),
        ),
        Json::Object(es) => JsonModel::Object(
            Seq::new(
                es@.len(),
                |i: int|
                    if 0 <= i < es@.len() {
                        (es@[i].0@, json_model(es@[i].1))
                    } else {
                        (Seq::empty(), JsonModel::Null)
                    },
            ),
        ),
    }
}

impl View for Json {
    type V = JsonModel;

    open spec fn view(&self) -> JsonModel {
        json_model(*self)
    }
}

/// The value of the first entry named `key`.
pub open spec fn lookup(entries: Seq<(Seq<char>, JsonModel)>, key: Seq<char>) -> Option<JsonModel>
    decreases entries.len(),
{
    if entries.len() == 0 {
        None
    } else if entries[0].0 == key {
        Some(entries[0].1)
    } else {
        lookup(entries.drop_first(), key)
    }
}

/// The member `key` of an object; `None` for a missing member or a value that is not an
/// object (`Value::get`).
pub open spec fn member(j: JsonModel, key: Seq<char>) -> Option<JsonModel> {
    match j {
        JsonModel::Object(entries) => lookup(entries, key),
        _ => None,
    }
}

/// `value[key]`: the member, or `null` when there is none.
pub open spec fn at(j: JsonModel, key: Seq<char>) -> JsonModel {
    match member(j, key) {
        Some(v) => v,
        None => JsonModel::Null,
    }
}

/// The text of a string value.
pub open spec fn text_of(j: JsonModel) -> Option<Seq<char>> {
    match j {
        JsonModel::String(s) => Some(s),
        _ => None,
    }
}

/// A number that fits in `u64` (`Value::as_u64`).
pub open spec fn u64_of(j: JsonModel) -> Option<u64> {
    match j {
        JsonModel::Number(NumberModel::PosInt(n)) => Some(n),
        _ => None,
    }
}

/// A string value.
pub open spec fn jstr(s: Seq<char>) -> JsonModel {
    JsonModel::String(s)
}

/// An integer value as `serde_json` keeps an `i64`: non-negative ones as `PosInt`.
pub open spec fn jint(n: i64) -> JsonModel {
    if n >= 0 {
        JsonModel::Number(NumberModel::PosInt(n as u64))
    } else {
        JsonModel::Number(NumberModel::NegInt(n))
    }
}

/// What `serde_json::from_slice::<Value>` makes of a body: `None` when it is not JSON.
pub uninterp spec fn json_parse(bytes: Seq<u8>) -> Option<JsonModel>;

/// What `serde_json::from_str::<Value>` makes of a text: `None` when it is not JSON.
pub uninterp spec fn json_parse_text(text: Seq<char>) -> Option<JsonModel>;

/// The bytes `serde_json::to_vec` prints for a value.
pub uninterp spec fn json_print(j: JsonModel) -> Seq<u8>;

/// Parses a body with `serde_json::from_slice` into a [`Json`]. The result is a function of
/// the bytes alone; what it is on given bytes is `serde_json`'s grammar and is not stated.
#[verifier::external_body]
pub(crate) fn parse_json(bytes: &[u8]) -> (r: Option<Json>)
    ensures
        json_parse(bytes@) == match r {
            Some(j) => Some(j@),
            None => None::<JsonModel>,
        },
{
    serde_json::from_slice::<serde_json::Value>(bytes).ok().map(json_from_value)
}

/// Parses a text with `serde_json::from_str` into a [`Json`]. The result is a function of the
/// text alone and is not stated further.
#[verifier::external_body]
pub(crate) fn parse_json_text(text: &str) -> (r: Option<Json>)
    ensures
        json_parse_text(text@) == match r {
            Some(j) => Some(j@),
            None => None::<JsonModel>,
        },
{
    serde_json::from_str::<serde_json::Value>(text).ok().map(json_from_value)
}

/// Prints a value with `serde_json::to_vec` (keys in their order). The bytes are a function
/// of the value alone and are not stated further.
#[verifier::external_body]
pub(crate) fn to_json_bytes(j: &Json) -> (r: Vec<u8>)
    ensures
        r@ == json_print(j@),
{
    serde_json::to_vec(&value_from_json(j)).unwrap_or_default()
}

impl Json {
    /// Reads a JSON body.
    pub fn from_bytes(bytes: &[u8]) -> (r: Option<Json>)
        ensures
            json_parse(bytes@) == match r {
                Some(j) => Some(j@),
                None => None::<JsonModel>,
            },
    {
        parse_json(bytes)
    }

    /// Reads a JSON text.
    pub fn from_text(text: &str) -> (r: Option<Json>)
        ensures
            json_parse_text(text@) == match r {
                Some(j) => Some(j@),
                None => None::<JsonModel>,
            },
    {
        parse_json_text(text)
    }

    /// The JSON text of the value, keys in their order.
    pub fn to_bytes(&self) -> (r: Vec<u8>)
        ensures
            r@ == json_print(self@),
    {
        to_json_bytes(self)
    }
}

/// One for one from `serde_json::Value`.
#[verifier::external_body]
fn json_from_value(value: serde_json::Value) -> Json {
    match value {
        serde_json::Value::Null => Json::Null,
        serde_json::Value::Bool(b) => Json::Bool(b),
        serde_json::Value::Number(n) => Json::Number(number_from(n)),
        serde_json::Value::String(s) => Json::String(s),
        serde_json::Value::Array(items) => Json::Array(items.into_iter().map(json_from_value).collect()),
        serde_json::Value::Object(map) => Json::Object(map.into_iter().map(|(k, v)| (k, json_from_value(v))).collect()),
    }
}

/// One for one from `serde_json::Number`.
#[verifier::external_body]
fn number_from(n: serde_json::Number) -> JsonNumber {
    match (n.as_u64(), n.as_i64()) {
        (Some(u), _) => JsonNumber::PosInt(u),
        (None, Some(i)) => JsonNumber::NegInt(i),
        (None, None) => JsonNumber::Float(n.to_string()),
    }
}

/// One for one into a `serde_json::Value` number (a float goes back through its text).
#[verifier::external_body]
fn value_from_number(n: &JsonNumber) -> serde_json::Value {
    match n {
        JsonNumber::PosInt(u) => serde_json::Value::from(*u),
        JsonNumber::NegInt(i) => serde_json::Value::from(*i),
        JsonNumber::Float(s) => s.parse::<serde_json::Number>().map(serde_json::Value::Number).unwrap_or(serde_json::Value::Null),
    }
}

/// One for one into `serde_json::Value`.
#[verifier::external_body]
fn value_from_json(j: &Json) -> serde_json::Value {
    match j {
        Json::Null => serde_json::Value::Null,
        Json::Bool(b) => serde_json::Value::Bool(*b),
        Json::Number(n) => value_from_number(n),
        Json::String(s) => serde_json::Value::String(s.clone()),
        Json::Array(items) => serde_json::Value::Array(items.iter().map(value_from_json).collect()),
        Json::Object(entries) => serde_json::Value::Object(entries.iter().map(|(k, v)| (k.clone(), value_from_json(v))).collect()),
    }
}

/// The member `key` of an object (`Value::get`).
pub fn get<'a>(j: &'a Json, key: &str) -> (r: Option<&'a Json>)
    ensures
        match r {
            Some(v) => member(j@, key@) == Some(v@),
            None => member(j@, key@) is None,
        },
{
    match j {
        Json::Object(entries) => {
            let ghost model = j@->Object_0;
            assert(model.skip(0) =~= model);
            let mut i: usize = 0;
            while i < entries.len()
                invariant
                    i <= entries@.len(),
                    j@ == JsonModel::Object(model),
                    model.len() == entries@.len(),
                    forall|k: int| 0 <= k < entries@.len() ==> #[trigger] model[k] == (entries@[k].0@, entries@[k].1@),
                    lookup(model, key@) == lookup(model.skip(i as int), key@),
                decreases entries@.len() - i,
            {
                assert(model.skip(i as int).drop_first() =~= model.skip(i + 1));
                assert(model.skip(i as int)[0] == model[i as int]);
                if str_eq(entries[i].0.as_str(), key) {
                    return Some(&entries[i].1);
                }
                i = i + 1;
            }
            None
        },
        _ => None,
    }
}

/// The text of a string value (`Value::as_str`).
pub fn as_text(j: &Json) -> (r: Option<&String>)
    ensures
        match r {
            Some(s) => text_of(j@) == Some(s@),
            None => text_of(j@) is None,
        },
{
    match j {
        Json::String(s) => Some(s),
        _ => None,
    }
}

/// The member `key` when it is a string.
pub fn text_member<'a>(j: &'a Json, key: &str) -> (r: Option<&'a String>)
    ensures
        match r {
            Some(s) => member(j@, key@) == Some(JsonModel::String(s@)),
            None => !(member(j@, key@) matches Some(JsonModel::String(_))),
        },
{
    match get(j, key) {
        Some(v) => as_text(v),
        None => None,
    }
}

/// Whether a value is `null`.
pub fn is_null(j: &Json) -> (r: bool)
    ensures
        r == (j@ is Null),
{
    match j {
        Json::Null => true,
        _ => false,
    }
}

/// A number that fits in `u64` (`Value::as_u64`).
pub fn as_u64(j: &Json) -> (r: Option<u64>)
    ensures
        r == u64_of(j@),
{
    match j {
        Json::Number(JsonNumber::PosInt(n)) => Some(*n),
        _ => None,
    }
}

/// Whether two numbers are the same.
pub fn number_eq(a: &JsonNumber, b: &JsonNumber) -> (r: bool)
    ensures
        r == (a@ == b@),
{
    match (a, b) {
        (JsonNumber::PosInt(x), JsonNumber::PosInt(y)) => *x == *y,
        (JsonNumber::NegInt(x), JsonNumber::NegInt(y)) => *x == *y,
        (JsonNumber::Float(x), JsonNumber::Float(y)) => str_eq(x.as_str(), y.as_str()),
        _ => false,
    }
}

/// Whether two values are the same JSON (`Value`'s `==`).
pub fn json_eq(a: &Json, b: &Json) -> (r: bool)
    ensures
        r == (a@ == b@),
    decreases *a,
{
    match (a, b) {
        (Json::Null, Json::Null) => true,
        (Json::Bool(x), Json::Bool(y)) => *x == *y,
        (Json::Number(x), Json::Number(y)) => number_eq(x, y),
        (Json::String(x), Json::String(y)) => str_eq(x.as_str(), y.as_str()),
        (Json::Array(xs), Json::Array(ys)) => {
            let ghost mx = a@->Array_0;
            let ghost my = b@->Array_0;
            if xs.len() != ys.len() {
                assert(mx.len() != my.len());
                return false;
            }
            let mut i: usize = 0;
            while i < xs.len()
                invariant
                    xs@.len() == ys@.len(),
                    a@ == JsonModel::Array(mx),
                    b@ == JsonModel::Array(my),
                    mx.len() == xs@.len(),
                    my.len() == ys@.len(),
                    forall|k: int| 0 <= k < xs@.len() ==> #[trigger] mx[k] == xs@[k]@,
                    forall|k: int| 0 <= k < ys@.len() ==> #[trigger] my[k] == ys@[k]@,
                    i <= xs@.len(),
                    forall|k: int| 0 <= k < i ==> mx[k] == my[k],
                    decreases_to!(*a => *xs),
                decreases xs@.len() - i,
            {
                assert(decreases_to!(*xs => xs@));
                assert(decreases_to!(xs@ => xs@[i as int]));
                if !json_eq(&xs[i], &ys[i]) {
                    assert(mx[i as int] != my[i as int]);
                    return false;
                }
                i = i + 1;
            }
            assert(mx =~= my);
            true
        },
        (Json::Object(xs), Json::Object(ys)) => {
            let ghost mx = a@->Object_0;
            let ghost my = b@->Object_0;
            if xs.len() != ys.len() {
                assert(mx.len() != my.len());
                return false;
            }
            let mut i: usize = 0;
            while i < xs.len()
                invariant
                    xs@.len() == ys@.len(),
                    a@ == JsonModel::Object(mx),
                    b@ == JsonModel::Object(my),
                    mx.len() == xs@.len(),
                    my.len() == ys@.len(),
                    forall|k: int| 0 <= k < xs@.len() ==> #[trigger] mx[k] == (xs@[k].0@, xs@[k].1@),
                    forall|k: int| 0 <= k < ys@.len() ==> #[trigger] my[k] == (ys@[k].0@, ys@[k].1@),
                    i <= xs@.len(),
                    forall|k: int| 0 <= k < i ==> mx[k] == my[k],
                    decreases_to!(*a => *xs),
                decreases xs@.len() - i,
            {
                assert(decreases_to!(*xs => xs@));
                assert(decreases_to!(xs@ => xs@[i as int]));
                assert(decreases_to!(xs@[i as int] => xs@[i as int].1));
                if !str_eq(xs[i].0.as_str(), ys[i].0.as_str()) {
                    assert(mx[i as int] != my[i as int]);
                    return false;
                }
                if !json_eq(&xs[i].1, &ys[i].1) {
                    assert(mx[i as int] != my[i as int]);
                    return false;
                }
                i = i + 1;
            }
            assert(mx =~= my);
            true
        },
        _ => false,
    }
}

/// The member `key` when it is a string.
pub open spec fn text_field(j: JsonModel, key: Seq<char>) -> Option<Seq<char>> {
    match member(j, key) {
        Some(JsonModel::String(s)) => Some(s),
        _ => None,
    }
}

/// The member `key` when it is a boolean.
pub open spec fn bool_field(j: JsonModel, key: Seq<char>) -> Option<bool> {
    match member(j, key) {
        Some(JsonModel::Bool(b)) => Some(b),
        _ => None,
    }
}

/// The member `key` read as an optional string field: absent or `null` is `Some(None)`, a
/// string is `Some(Some(..))`, anything else does not read.
pub open spec fn opt_text_field(j: JsonModel, key: Seq<char>) -> Option<Option<Seq<char>>> {
    match member(j, key) {
        None => Some(None),
        Some(JsonModel::Null) => Some(None),
        Some(JsonModel::String(s)) => Some(Some(s)),
        Some(_) => None,
    }
}

/// The member `key` when it is a boolean.
pub fn get_bool(j: &Json, key: &str) -> (r: Option<bool>)
    ensures
        r == bool_field(j@, key@),
{
    match get(j, key) {
        Some(Json::Bool(b)) => Some(*b),
        _ => None,
    }
}

/// The member `key` read as an optional string field.
pub fn get_opt_text(j: &Json, key: &str) -> (r: Option<Option<String>>)
    ensures
        match r {
            Some(Some(s)) => opt_text_field(j@, key@) == Some(Some(s@)),
            Some(None) => opt_text_field(j@, key@) == Some(None::<Seq<char>>),
            None => opt_text_field(j@, key@) is None,
        },
{
    match get(j, key) {
        None => Some(None),
        Some(Json::Null) => Some(None),
        Some(Json::String(s)) => Some(Some(s.clone())),
        Some(_) => None,
    }
}

/// The member `key` of an object, taken out of it.
pub fn take_member(j: Json, key: &str) -> (r: Option<Json>)
    ensures
        match r {
            Some(v) => member(j@, key@) == Some(v@),
            None => member(j@, key@) is None,
        },
{
    let ghost whole = j@;
    match j {
        Json::Object(mut entries) => {
            let ghost model = whole->Object_0;
            assert(model.skip(0) =~= model);
            let mut i: usize = 0;
            while i < entries.len()
                invariant
                    i <= entries@.len(),
                    model.len() == entries@.len(),
                    forall|k: int| 0 <= k < entries@.len() ==> #[trigger] model[k] == (entries@[k].0@, entries@[k].1@),
                    lookup(model, key@) == lookup(model.skip(i as int), key@),
                    member(whole, key@) == lookup(model, key@),
                    whole == j@,
                decreases entries@.len() - i,
            {
                assert(model.skip(i as int).drop_first() =~= model.skip(i + 1));
                assert(model.skip(i as int)[0] == model[i as int]);
                if str_eq(entries[i].0.as_str(), key) {
                    let ghost before = entries@;
                    assert(model[i as int] == (before[i as int].0@, before[i as int].1@));
                    let (_, v) = entries.remove(i);
                    assert(v == before[i as int].1);
                    return Some(v);
                }
                i = i + 1;
            }
            None
        },
        _ => None,
    }
}

/// Appends bytes.
pub fn append_bytes(out: &mut Vec<u8>, bytes: &[u8])
    ensures
        final(out)@ == old(out)@ + bytes@,
{
    let mut i: usize = 0;
    while i < bytes.len()
        invariant
            i <= bytes@.len(),
            out@ == old(out)@ + bytes@.take(i as int),
        decreases bytes@.len() - i,
    {
        out.push(bytes[i]);
        assert(bytes@.take(i + 1) =~= bytes@.take(i as int).push(bytes@[i as int]));
        i = i + 1;
    }
    assert(bytes@.take(bytes@.len() as int) =~= bytes@);
}

/// The models of the entries of an object.
pub open spec fn entry_models(es: Seq<(String, Json)>) -> Seq<(Seq<char>, JsonModel)> {
    Seq::new(es.len(), |i: int| (es[i].0@, es[i].1@))
}

/// The model of an object is the object of its entries' models.
pub proof fn lemma_object_model(es: Vec<(String, Json)>)
    ensures
        Json::Object(es)@ == JsonModel::Object(entry_models(es@)),
{
    assert(Json::Object(es)@->Object_0 =~= entry_models(es@));
}

/// The index of the first entry named `key`.
pub open spec fn first_index(es: Seq<(Seq<char>, JsonModel)>, key: Seq<char>) -> Option<int>
    decreases es.len(),
{
    if es.len() == 0 {
        None
    } else if es[0].0 == key {
        Some(0)
    } else {
        match first_index(es.drop_first(), key) {
            Some(i) => Some(i + 1),
            None => None,
        }
    }
}

/// The first entry named `key` is the one `lookup` finds.
pub proof fn lemma_first_index(es: Seq<(Seq<char>, JsonModel)>, key: Seq<char>)
    ensures
        match first_index(es, key) {
            Some(i) => 0 <= i < es.len() && es[i].0 == key && lookup(es, key) == Some(es[i].1)
                && forall|k: int| 0 <= k < i ==> (#[trigger] es[k]).0 != key,
            None => lookup(es, key) is None && forall|k: int| 0 <= k < es.len() ==> (#[trigger] es[k]).0 != key,
        },
    decreases es.len(),
{
    if es.len() > 0 {
        lemma_first_index(es.drop_first(), key);
        if es[0].0 != key {
            match first_index(es.drop_first(), key) {
                Some(i) => {
                    assert forall|k: int| 0 <= k < i + 1 implies (#[trigger] es[k]).0 != key by {
                        if k > 0 {
                            assert(es[k] == es.drop_first()[k - 1]);
                        }
                    }
                },
                None => {
                    assert forall|k: int| 0 <= k < es.len() implies (#[trigger] es[k]).0 != key by {
                        if k > 0 {
                            assert(es[k] == es.drop_first()[k - 1]);
                        }
                    }
                },
            }
        }
    }
}

/// `es` with `key` set to `v`: the first entry named `key` replaced in place, or a new entry
/// at the end (what `Map::insert` and `entry(..).or_insert(..)` do to an object of
/// `serde_json` that keeps its order).
pub open spec fn put_member(es: Seq<(Seq<char>, JsonModel)>, key: Seq<char>, v: JsonModel) -> Seq<(Seq<char>, JsonModel)> {
    match first_index(es, key) {
        Some(i) => es.update(i, (key, v)),
        None => es.push((key, v)),
    }
}

/// The index of the first entry named `key`.
pub fn entry_index(es: &Vec<(String, Json)>, key: &str) -> (r: Option<usize>)
    ensures
        match r {
            Some(i) => first_index(entry_models(es@), key@) == Some(i as int),
            None => first_index(entry_models(es@), key@) is None,
        },
{
    let ghost m = entry_models(es@);
    proof {
        lemma_first_index(m, key@);
    }
    let mut i: usize = 0;
    while i < es.len()
        invariant
            i <= es@.len(),
            m == entry_models(es@),
            forall|k: int| 0 <= k < i ==> (#[trigger] m[k]).0 != key@,
            match first_index(m, key@) {
                Some(j) => 0 <= j < m.len() && m[j].0 == key@ && forall|k: int| 0 <= k < j ==> (#[trigger] m[k]).0 != key@,
                None => forall|k: int| 0 <= k < m.len() ==> (#[trigger] m[k]).0 != key@,
            },
        decreases es@.len() - i,
    {
        assert(m[i as int].0 == es@[i as int].0@);
        if str_eq(es[i].0.as_str(), key) {
            return Some(i);
        }
        i = i + 1;
    }
    None
}

/// Sets `key` to `v` in an object's entries.
pub fn put_entry(es: &mut Vec<(String, Json)>, key: &str, v: Json)
    ensures
        entry_models(final(es)@) == put_member(entry_models(old(es)@), key@, v@),
{
    let ghost before = entry_models(es@);
    match entry_index(es, key) {
        Some(i) => {
            proof {
                lemma_first_index(before, key@);
            }
            es.set(i, (key.to_owned(), v));
            assert(entry_models(es@) =~= before.update(i as int, (key@, v@)));
        },
        None => {
            es.push((key.to_owned(), v));
            assert(entry_models(es@) =~= before.push((key@, v@)));
        },
    }
}

/// Takes the first entry named `key` out of an object's entries, with its place.
pub fn take_entry(es: &mut Vec<(String, Json)>, key: &str) -> (r: Option<(usize, Json)>)
    ensures
        match r {
            Some((i, v)) => first_index(entry_models(old(es)@), key@) == Some(i as int) && v@ == entry_models(old(es)@)[i as int].1
                && entry_models(final(es)@) == entry_models(old(es)@).remove(i as int),
            None => first_index(entry_models(old(es)@), key@) is None && final(es)@ == old(es)@,
        },
{
    let ghost before = entry_models(es@);
    match entry_index(es, key) {
        Some(i) => {
            proof {
                lemma_first_index(before, key@);
            }
            let ghost vb = es@;
            let (_, v) = es.remove(i);
            assert(entry_models(es@) =~= before.remove(i as int));
            Some((i, v))
        },
        None => None,
    }
}

/// Puts an entry back at the place it was taken from: the entries are those with `key` set.
pub fn restore_entry(es: &mut Vec<(String, Json)>, i: usize, key: &str, v: Json)
    requires
        i <= old(es)@.len(),
    ensures
        entry_models(final(es)@) == entry_models(old(es)@).insert(i as int, (key@, v@)),
{
    let ghost before = entry_models(es@);
    let ghost vb = es@;
    es.insert(i, (key.to_owned(), v));
    assert forall|k: int| 0 <= k < es@.len() implies #[trigger] entry_models(es@)[k] == before.insert(i as int, (key@, v@))[k] by {
        if k < i {
            assert(es@[k] == vb[k]);
        } else if k > i {
            assert(es@[k] == vb[k - 1]);
        }
    }
    assert(entry_models(es@) =~= before.insert(i as int, (key@, v@)));
}

/// Taking an entry out and putting it back with a new value is setting it.
pub proof fn lemma_take_restore(es: Seq<(Seq<char>, JsonModel)>, key: Seq<char>, i: int, v: JsonModel)
    requires
        first_index(es, key) == Some(i),
    ensures
        0 <= i < es.len(),
        es.remove(i).insert(i, (key, v)) == put_member(es, key, v),
{
    lemma_first_index(es, key);
    assert(es.remove(i).insert(i, (key, v)) =~= es.update(i, (key, v)));
}

} // verus!
