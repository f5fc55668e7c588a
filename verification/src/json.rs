//! A JSON value as the web client reads the server's messages.

use vstd::prelude::*;
use crate::model::opt_str_view;
use crate::dashboard::text_views;
use crate::text::str_eq;

verus! {

/// A JSON value. A number keeps only what the client reads of it: its value where
/// it is an integer from zero to `u64::MAX`.
pub enum Json {
    Null,
    Bool(bool),
    Number(Option<u64>),
    Str(String),
    Array(Vec<Json>),
    Object(Vec<(String, Json)>),
}

/// The mathematical value of a JSON value.
pub enum JsonView {
    Null,
    Bool(bool),
    Number(Option<u64>),
    Str(Seq<char>),
    Array(Seq<JsonView>),
    Object(Seq<(Seq<char>, JsonView)>),
}

/// The mathematical value of a JSON value.
pub open spec fn json_view(j: Json) -> JsonView
    decreases j,
{
    match j {
        Json::Null => JsonView::Null,
        Json::Bool(b) => JsonView::Bool(b),
        Json::Number(n) => JsonView::Number(n),
        Json::Str(s) => JsonView::Str(s@),
        Json::Array(v) => JsonView::Array(Seq::new(v@.len(), |i: int| {
            if 0 <= i < v@.len() {
                proof { assert(decreases_to!(j => v@[i])); }
                json_view(v@[i])
            } else {
                JsonView::Null
            }
        })),
        Json::Object(v) => JsonView::Object(Seq::new(v@.len(), |i: int| {
            if 0 <= i < v@.len() {
                proof { assert(decreases_to!(j => v@[i].1)); }
                (v@[i].0@, json_view(v@[i].1))
            } else {
                (Seq::empty(), JsonView::Null)
            }
        })),
    }
}

impl View for Json {
    type V = JsonView;

    open spec fn view(&self) -> JsonView {
        json_view(*self)
    }
}

/// `serde_json::Value`, a parsed JSON value.
#[verifier::external_type_specification]
#[verifier::external_body]
pub struct ExJsonValue(serde_json::Value);

/// What `serde_json::from_str` reads from a text: the JSON value, or the parser's
/// message where the text is not JSON.
pub uninterp spec fn json_read(text: Seq<char>) -> Result<JsonView, Seq<char>>;

/// The JSON value of a parsed `serde_json::Value`, variant for variant; a number is
/// kept as what `Number::as_u64` gives of it.
#[verifier::external_body]
fn json_model(v: &serde_json::Value) -> Json {
    match v {
        serde_json::Value::Null => Json::Null,
        serde_json::Value::Bool(b) => Json::Bool(*b),
        serde_json::Value::Number(n) => Json::Number(n.as_u64()),
        serde_json::Value::String(t) => Json::Str(t.clone()),
        serde_json::Value::Array(a) => Json::Array(a.iter().map(json_model).collect()),
        serde_json::Value::Object(m) => Json::Object(m.iter().map(|(k, x)| (k.clone(), json_model(x))).collect()),
    }
}

/// Parses a text with `serde_json::from_str` into a `serde_json::Value`: the value in
/// this model, or the parser's message (its `Display` form).
#[verifier::external_body]
pub(crate) fn parse_json(text: &str) -> (r: Result<Json, String>)
    ensures
        match r {
            Ok(j) => json_read(text@) == Ok::<JsonView, Seq<char>>(j@),
            Err(m) => json_read(text@) == Err::<JsonView, Seq<char>>(m@),
        },
{
    match serde_json::from_str::<serde_json::Value>(text) {
        Ok(v) => Ok(json_model(&v)),
        Err(e) => Err(e.to_string()),
    }
}

/// The value under `key` among the entries of an object: the first entry with it.
pub open spec fn entry_of(es: Seq<(Seq<char>, JsonView)>, key: Seq<char>) -> Option<JsonView>
    decreases es.len(),
{
    if es.len() == 0 {
        None
    } else if es[0].0 == key {
        Some(es[0].1)
    } else {
        entry_of(es.drop_first(), key)
    }
}

/// The value under `key` of an object; none for a value that is no object.
pub open spec fn get_field(v: JsonView, key: Seq<char>) -> Option<JsonView> {
    match v {
        JsonView::Object(es) => entry_of(es, key),
        _ => None,
    }
}

/// The value under `key` of a value that may be missing.
pub open spec fn field_of(o: Option<JsonView>, key: Seq<char>) -> Option<JsonView> {
    match o {
        Some(v) => get_field(v, key),
        None => None,
    }
}

/// The text of a value that is a string.
pub open spec fn json_text(o: Option<JsonView>) -> Option<Seq<char>> {
    match o {
        Some(JsonView::Str(t)) => Some(t),
        _ => None,
    }
}

/// The number of a value that is an integer from zero to `u64::MAX`.
pub open spec fn json_number(o: Option<JsonView>) -> Option<u64> {
    match o {
        Some(JsonView::Number(Some(n))) => Some(n),
        _ => None,
    }
}

/// The truth value of a value that is a boolean.
pub open spec fn json_flag(o: Option<JsonView>) -> Option<bool> {
    match o {
        Some(JsonView::Bool(b)) => Some(b),
        _ => None,
    }
}

/// The items of a value that is an array.
pub open spec fn json_list(o: Option<JsonView>) -> Option<Seq<JsonView>> {
    match o {
        Some(JsonView::Array(items)) => Some(items),
        _ => None,
    }
}

/// The texts among the items, in order.
pub open spec fn texts_in(s: Seq<JsonView>) -> Seq<Seq<char>>
    decreases s.len(),
{
    if s.len() == 0 {
        Seq::empty()
    } else {
        let rest = texts_in(s.drop_last());
        match s.last() {
            JsonView::Str(t) => rest.push(t),
            _ => rest,
        }
    }
}

/// The integers from zero to `u64::MAX` among the items, in order.
pub open spec fn numbers_in(s: Seq<JsonView>) -> Seq<u64>
    decreases s.len(),
{
    if s.len() == 0 {
        Seq::empty()
    } else {
        let rest = numbers_in(s.drop_last());
        match s.last() {
            JsonView::Number(Some(n)) => rest.push(n),
            _ => rest,
        }
    }
}

/// The views of a list of values.
pub open spec fn json_views(s: Seq<Json>) -> Seq<JsonView> {
    s.map_values(|j: Json| j@)
}

proof fn lemma_entry_skip(es: Seq<(Seq<char>, JsonView)>, key: Seq<char>, i: int)
    requires
        0 <= i < es.len(),
        es[i].0 != key,
    ensures
        entry_of(es.skip(i), key) == entry_of(es.skip(i + 1), key),
{
    assert(es.skip(i).drop_first() =~= es.skip(i + 1));
}

/// The value under `key` of an object.
pub fn field<'a>(v: &'a Json, key: &str) -> (r: Option<&'a Json>)
    ensures
        match r {
            Some(x) => get_field(v@, key@) == Some(x@),
            None => get_field(v@, key@) is None,
        },
{
    match v {
        Json::Object(es) => {
            let ghost ev = match v@ {
                JsonView::Object(e) => e,
                _ => Seq::empty(),
            };
            assert(ev.len() == es@.len());
            assert(ev.skip(0) =~= ev);
            let mut i: usize = 0;
            while i < es.len()
                invariant
                    i <= es@.len(),
                    ev.len() == es@.len(),
                    forall|k: int| 0 <= k < es@.len() ==> #[trigger] ev[k] == (es@[k].0@, es@[k].1@),
                    get_field(v@, key@) == entry_of(ev.skip(i as int), key@),
                    v@ == JsonView::Object(ev),
                decreases es@.len() - i,
            {
                assert(ev[i as int] == (es@[i as int].0@, es@[i as int].1@));
                if str_eq(es[i].0.as_str(), key) {
                    assert(ev.skip(i as int)[0] == ev[i as int]);
                    return Some(&es[i].1);
                }
                proof { lemma_entry_skip(ev, key@, i as int); }
                i = i + 1;
            }
            None
        },
        _ => None,
    }
}

/// The text under `key`, where it is a string.
pub fn text_field(v: &Json, key: &str) -> (r: Option<String>)
    ensures
        opt_str_view(r) == json_text(get_field(v@, key@)),
{
    match field(v, key) {
        Some(Json::Str(t)) => Some(t.clone()),
        _ => None,
    }
}

/// The number under `key`, where it is an integer from zero to `u64::MAX`.
pub fn number_field(v: &Json, key: &str) -> (r: Option<u64>)
    ensures
        r == json_number(get_field(v@, key@)),
{
    match field(v, key) {
        Some(Json::Number(n)) => *n,
        _ => None,
    }
}

/// The truth value under `key`, where it is a boolean.
pub fn flag_field(v: &Json, key: &str) -> (r: Option<bool>)
    ensures
        r == json_flag(get_field(v@, key@)),
{
    match field(v, key) {
        Some(Json::Bool(b)) => Some(*b),
        _ => None,
    }
}

/// The items under `key`, where it is an array.
pub fn list_field<'a>(v: &'a Json, key: &str) -> (r: Option<&'a Vec<Json>>)
    ensures
        match r {
            Some(l) => json_list(get_field(v@, key@)) == Some(json_views(l@)),
            None => json_list(get_field(v@, key@)) is None,
        },
{
    let f = field(v, key);
    match f {
        Some(Json::Array(items)) => {
            let ghost fv = f->0@;
            assert(json_views(items@) =~= match fv {
                JsonView::Array(s) => s,
                _ => Seq::empty(),
            });
            Some(items)
        },
        _ => None,
    }
}

/// The texts among the items, in order.
pub fn texts_in_list(items: &Vec<Json>) -> (r: Vec<String>)
    ensures
        text_views(r@) == texts_in(json_views(items@)),
{
    let mut r: Vec<String> = Vec::new();
    let mut i: usize = 0;
    while i < items.len()
        invariant
            i <= items@.len(),
            text_views(r@) == texts_in(json_views(items@).take(i as int)),
        decreases items@.len() - i,
    {
        let ghost before = r@;
        assert(json_views(items@).take(i as int + 1).drop_last() =~= json_views(items@).take(i as int));
        match &items[i] {
            Json::Str(t) => {
                r.push(t.clone());
                assert(text_views(r@) =~= text_views(before).push(t@));
            },
            _ => {},
        }
        i = i + 1;
    }
    assert(json_views(items@).take(items@.len() as int) =~= json_views(items@));
    r
}

/// The integers from zero to `u64::MAX` among the items, in order.
pub fn numbers_in_list(items: &Vec<Json>) -> (r: Vec<u64>)
    ensures
        r@ == numbers_in(json_views(items@)),
{
    let mut r: Vec<u64> = Vec::new();
    let mut i: usize = 0;
    while i < items.len()
        invariant
            i <= items@.len(),
            r@ == numbers_in(json_views(items@).take(i as int)),
        decreases items@.len() - i,
    {
        assert(json_views(items@).take(i as int + 1).drop_last() =~= json_views(items@).take(i as int));
        match &items[i] {
            Json::Number(Some(n)) => {
                r.push(*n);
            },
            _ => {},
        }
        i = i + 1;
    }
    assert(json_views(items@).take(items@.len() as int) =~= json_views(items@));
    r
}

} // verus!
