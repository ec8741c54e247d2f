//! JSON values.

use serde_json::Value;
use vstd::prelude::*;

use crate::text;

verus! {

/// A JSON number. A number that is no 64-bit integer is kept as its text.
#[derive(Debug, PartialEq)]
pub enum Number {
    Unsigned(u64),
    Negative(i64),
    Float(String),
}

/// A JSON value. The members of an object keep their order.
#[derive(Debug, PartialEq)]
pub enum Json {
    Null,
    Bool(bool),
    Number(Number),
    Text(String),
    Array(Vec<Json>),
    Object(Vec<(String, Json)>),
}

/// The model of a JSON number.
pub enum NumberView {
    Unsigned(u64),
    Negative(i64),
    Float(Seq<char>),
}

/// The model of a JSON value.
pub enum JsonView {
    Null,
    Bool(bool),
    Number(NumberView),
    Text(Seq<char>),
    Array(Seq<JsonView>),
    Object(Seq<(Seq<char>, JsonView)>),
}

impl View for Number {
    type V = NumberView;

    open spec fn view(&self) -> NumberView {
        match self {
            Number::Unsigned(n) => NumberView::Unsigned(*n),
            Number::Negative(n) => NumberView::Negative(*n),
            Number::Float(text) => NumberView::Float(text@),
        }
    }
}

/// The model of a JSON value.
pub open spec fn json_view(j: Json) -> JsonView
    decreases j,
{
    match j {
        Json::Null => JsonView::Null,
        Json::Bool(b) => JsonView::Bool(b),
        Json::Number(n) => JsonView::Number(n@),
        Json::Text(s) => JsonView::Text(s@),
        Json::Array(items) => JsonView::Array(
            Seq::new(
                items@.len(),
                |i: int|
                    if 0 <= i < items@.len() {
                        json_view(items@[i])
                    } else {
                        JsonView::Null
                    },
            ),
        ),
        Json::Object(members) => JsonView::Object(
            Seq::new(
                members@.len(),
                |i: int|
                    if 0 <= i < members@.len() {
                        (members@[i].0@, json_view(members@[i].1))
                    } else {
                        (Seq::empty(), JsonView::Null)
                    },
            ),
        ),
    }
}

impl View for Json {
    type V = JsonView;

    open spec fn view(&self) -> JsonView {
        json_view(*self)
    }
}

/// The model of an optional JSON value.
pub open spec fn opt_json(value: Option<Json>) -> Option<JsonView> {
    match value {
        Some(value) => Some(value@),
        None => None,
    }
}

impl Clone for Number {
    fn clone(&self) -> (r: Self)
        ensures
            r@ == self@,
    {
        match self {
            Number::Unsigned(n) => Number::Unsigned(*n),
            Number::Negative(n) => Number::Negative(*n),
            Number::Float(text) => Number::Float(text.clone()),
        }
    }
}

impl Clone for Json {
    fn clone(&self) -> (r: Self)
        ensures
            r@ == self@,
        decreases self,
    {
        match self {
            Json::Null => Json::Null,
            Json::Bool(b) => Json::Bool(*b),
            Json::Number(n) => Json::Number(n.clone()),
            Json::Text(s) => Json::Text(s.clone()),
            Json::Array(items) => {
                let mut out: Vec<Json> = Vec::new();
                let mut i: usize = 0;
                while i < items.len()
                    invariant
                        i <= items@.len(),
                        out@.len() == i,
                        forall|k: int| 0 <= k < i ==> (#[trigger] out@[k])@ == items@[k]@,
                        *self == Json::Array(*items),
                    decreases items@.len() - i,
                {
                    proof {
                        assert(decreases_to!(*self => self->Array_0));
                        assert(decreases_to!(items@ => items@[i as int]));
                    }
                    out.push(items[i].clone());
                    i = i + 1;
                }
                let r = Json::Array(out);
                proof {
                    assert(r@->Array_0 =~= self@->Array_0);
                }
                r
            },
            Json::Object(members) => {
                let mut out: Vec<(String, Json)> = Vec::new();
                let mut i: usize = 0;
                while i < members.len()
                    invariant
                        i <= members@.len(),
                        out@.len() == i,
                        forall|k: int|
                            0 <= k < i ==> (#[trigger] out@[k]).0@ == members@[k].0@ && out@[k].1@
                                == members@[k].1@,
                        *self == Json::Object(*members),
                    decreases members@.len() - i,
                {
                    proof {
                        assert(decreases_to!(*self => self->Object_0));
                        assert(decreases_to!(members@ => members@[i as int]));
                    }
                    out.push((members[i].0.clone(), members[i].1.clone()));
                    i = i + 1;
                }
                let r = Json::Object(out);
                proof {
                    assert(r@->Object_0 =~= self@->Object_0);
                }
                r
            },
        }
    }
}

/// The position of the first member with a key, from position `i` on.
pub open spec fn member_index(members: Seq<(Seq<char>, JsonView)>, i: int, key: Seq<char>) -> Option<
    int,
>
    decreases members.len() - i,
{
    if i < 0 || i >= members.len() {
        None
    } else if members[i].0 == key {
        Some(i)
    } else {
        member_index(members, i + 1, key)
    }
}

/// The value of a member of an object. A value that is no object has no members.
pub open spec fn member(value: JsonView, key: Seq<char>) -> Option<JsonView> {
    match value {
        JsonView::Object(members) => match member_index(members, 0, key) {
            Some(i) => Some(members[i].1),
            None => None,
        },
        _ => None,
    }
}

/// An object's members after one more is set: it takes the place of a member of the same key, or
/// comes last.
pub open spec fn with_member(
    members: Seq<(Seq<char>, JsonView)>,
    key: Seq<char>,
    value: JsonView,
) -> Seq<(Seq<char>, JsonView)> {
    match member_index(members, 0, key) {
        Some(i) => members.update(i, (key, value)),
        None => members.push((key, value)),
    }
}

/// The models of an object's members.
pub open spec fn members_view(members: Seq<(String, Json)>) -> Seq<(Seq<char>, JsonView)> {
    Seq::new(members.len(), |i: int| (members[i].0@, members[i].1@))
}

/// The models of a list of values.
pub open spec fn items_view(items: Seq<Json>) -> Seq<JsonView> {
    Seq::new(items.len(), |i: int| items[i]@)
}

/// The model of an object is the object of its members' models, and of an array the array of its
/// items' models.
pub broadcast proof fn lemma_json_view(value: Json)
    ensures
        value matches Json::Object(members) ==> #[trigger] value@ == JsonView::Object(
            members_view(members@),
        ),
        value matches Json::Array(items) ==> value@ == JsonView::Array(items_view(items@)),
{
    match value {
        Json::Object(members) => {
            assert(value@->Object_0 =~= members_view(members@));
        },
        Json::Array(items) => {
            assert(value@->Array_0 =~= items_view(items@));
        },
        _ => {},
    }
}

/// The position of the first member with a key.
fn position(members: &Vec<(String, Json)>, key: &str) -> (r: Option<usize>)
    ensures
        match r {
            Some(i) => i < members@.len() && member_index(members_view(members@), 0, key@) == Some(
                i as int,
            ),
            None => member_index(members_view(members@), 0, key@) is None,
        },
{
    let ghost view = members_view(members@);
    let mut i: usize = 0;
    while i < members.len()
        invariant
            i <= members@.len(),
            view == members_view(members@),
            member_index(view, 0, key@) == member_index(view, i as int, key@),
        decreases members@.len() - i,
    {
        if text::same(members[i].0.as_str(), key) {
            return Some(i);
        }
        i = i + 1;
    }
    None
}

/// Sets a member of an object.
pub fn set_member(members: &mut Vec<(String, Json)>, key: String, value: Json)
    ensures
        members_view(final(members)@) == with_member(members_view(old(members)@), key@, value@),
{
    let ghost before = members_view(members@);
    let ghost name = key@;
    let ghost model = value@;
    match position(members, key.as_str()) {
        Some(i) => {
            members[i] = (key, value);
            proof {
                assert(members_view(members@) =~= before.update(i as int, (name, model)));
            }
        },
        None => {
            members.push((key, value));
            proof {
                assert(members_view(members@) =~= before.push((name, model)));
            }
        },
    }
}

impl Json {
    /// The value of a member of an object.
    pub fn get(&self, key: &str) -> (r: Option<&Json>)
        ensures
            match r {
                Some(value) => member(self@, key@) == Some(value@),
                None => member(self@, key@) is None,
            },
    {
        match self {
            Json::Object(members) => {
                proof {
                    lemma_json_view(*self);
                }
                match position(members, key) {
                    Some(i) => Some(&members[i].1),
                    None => None,
                }
            },
            _ => None,
        }
    }

    /// The text of a value that is text.
    pub fn as_str(&self) -> (r: Option<&str>)
        ensures
            match r {
                Some(s) => self@ == JsonView::Text(s@),
                None => self@ !is Text,
            },
    {
        match self {
            Json::Text(s) => Some(s.as_str()),
            _ => None,
        }
    }
}

/// An object with no members yet.
pub fn no_members() -> (r: Vec<(String, Json)>)
    ensures
        members_view(r@) == Seq::<(Seq<char>, JsonView)>::empty(),
{
    let r: Vec<(String, Json)> = Vec::new();
    proof {
        assert(members_view(r@) =~= Seq::<(Seq<char>, JsonView)>::empty());
    }
    r
}

/// Members with one more at the end.
pub fn and_member(members: Vec<(String, Json)>, key: &str, value: Json) -> (r: Vec<(String, Json)>)
    ensures
        members_view(r@) == members_view(members@).push((key@, value@)),
{
    let mut out = members;
    let ghost model = value@;
    out.push((key.to_owned(), value));
    proof {
        assert(members_view(out@) =~= members_view(members@).push((key@, model)));
    }
    out
}

/// The object with the given members.
pub fn object(members: Vec<(String, Json)>) -> (r: Json)
    ensures
        r@ == JsonView::Object(members_view(members@)),
{
    let r = Json::Object(members);
    proof {
        lemma_json_view(r);
    }
    r
}

/// The array of the given items.
pub fn array(items: Vec<Json>) -> (r: Json)
    ensures
        r@ == JsonView::Array(items_view(items@)),
{
    let r = Json::Array(items);
    proof {
        lemma_json_view(r);
    }
    r
}

/// The array of one item.
pub fn array_of_one(item: Json) -> (r: Json)
    ensures
        r@ == JsonView::Array(seq![item@]),
{
    let mut items: Vec<Json> = Vec::new();
    items.push(item);
    let r = Json::Array(items);
    proof {
        lemma_json_view(r);
        assert(r@->Array_0 =~= seq![item@]);
    }
    r
}

/// A list of texts as an array.
pub fn array_of_texts(items: &Vec<&str>) -> (r: Json)
    ensures
        r@ == JsonView::Array(Seq::new(items@.len(), |i: int| JsonView::Text(items@[i]@))),
{
    let mut out: Vec<Json> = Vec::new();
    let mut i: usize = 0;
    while i < items.len()
        invariant
            i <= items@.len(),
            out@.len() == i,
            forall|k: int| 0 <= k < i ==> (#[trigger] out@[k])@ == JsonView::Text(items@[k]@),
        decreases items@.len() - i,
    {
        out.push(text_value(items[i]));
        i = i + 1;
    }
    let r = Json::Array(out);
    proof {
        lemma_json_view(r);
        assert(r@->Array_0 =~= Seq::new(items@.len(), |i: int| JsonView::Text(items@[i]@)));
    }
    r
}

/// A text as a JSON value.
pub fn text_value(s: &str) -> (r: Json)
    ensures
        r@ == JsonView::Text(s@),
{
    Json::Text(s.to_owned())
}

/// A count as a JSON value.
pub fn count_value(n: u64) -> (r: Json)
    ensures
        r@ == JsonView::Number(NumberView::Unsigned(n)),
{
    Json::Number(Number::Unsigned(n))
}

/// A member of an object, where it is text.
pub open spec fn text_member(value: JsonView, key: Seq<char>) -> Option<Seq<char>> {
    match member(value, key) {
        Some(JsonView::Text(s)) => Some(s),
        _ => None,
    }
}

/// A value of the JSON crate.
#[verifier::external_type_specification]
#[verifier::external_body]
pub struct ExJsonValue(Value);

/// The same value as a `serde_json::Value`, variant for variant. A number that is no integer is
/// read from its text by `serde_json::from_str`. Nothing is claimed of the result.
#[verifier::external_body]
fn to_value(j: &Json) -> (r: Value) {
    match j {
        Json::Null => Value::Null,
        Json::Bool(b) => Value::Bool(*b),
        Json::Number(Number::Unsigned(n)) => Value::from(*n),
        Json::Number(Number::Negative(n)) => Value::from(*n),
        Json::Number(Number::Float(t)) => serde_json::from_str(t).unwrap_or_default(),
        Json::Text(s) => s.as_str().into(),
        Json::Array(v) => Value::Array(v.iter().map(to_value).collect()),
        Json::Object(m) => Value::Object(m.iter().map(|(k, v)| (k.clone(), to_value(v))).collect()),
    }
}

/// The same value as a `Json`, variant for variant. A number that is no integer keeps its text.
/// Nothing is claimed of the result.
#[verifier::external_body]
fn from_value(value: &Value) -> (r: Json) {
    match value {
        Value::Null => Json::Null,
        Value::Bool(b) => Json::Bool(*b),
        Value::Number(n) => Json::Number(
            n.as_u64().map(Number::Unsigned).or(n.as_i64().map(Number::Negative))
                .unwrap_or(Number::Float(n.to_string())),
        ),
        Value::String(s) => Json::Text(s.clone()),
        Value::Array(v) => Json::Array(v.iter().map(from_value).collect()),
        Value::Object(m) => Json::Object(m.iter().map(|(k, v)| (k.clone(), from_value(v))).collect()),
    }
}

/// The compact text of a JSON value, as `serde_json` writes it.
pub uninterp spec fn json_text(j: JsonView) -> Seq<char>;

/// `serde_json::Value::to_string`: the compact text of a value. The contract names the result; it
/// is a function of the value alone.
#[verifier::external_body]
pub(crate) fn to_text(j: &Json) -> (r: String)
    ensures
        r@ == json_text(j@),
{
    to_value(j).to_string()
}

/// The indented text of a JSON value, as `serde_json` writes it; empty where it cannot be written.
pub uninterp spec fn json_pretty_text(j: JsonView) -> Seq<char>;

/// `serde_json::to_string_pretty`: the indented text of a value. The contract names the result; it
/// is a function of the value alone.
#[verifier::external_body]
pub(crate) fn to_pretty_text(j: &Json) -> (r: String)
    ensures
        r@ == json_pretty_text(j@),
{
    serde_json::to_string_pretty(&to_value(j)).unwrap_or_default()
}

/// What `serde_json` reads from a text: a value, or why the text is no JSON.
pub uninterp spec fn json_parsed(s: Seq<char>) -> Result<JsonView, Seq<char>>;

/// `serde_json::from_str`: the value that a text stands for, or the text of the error. The contract
/// names the result; it is a function of the text alone.
#[verifier::external_body]
pub(crate) fn parse(s: &str) -> (r: Result<Json, String>)
    ensures
        match r {
            Ok(value) => json_parsed(s@) == Ok::<JsonView, Seq<char>>(value@),
            Err(error) => json_parsed(s@) == Err::<JsonView, Seq<char>>(error@),
        },
{
    match serde_json::from_str::<Value>(s) {
        Ok(value) => Ok(from_value(&value)),
        Err(error) => Err(error.to_string()),
    }
}

/// A member of an object to which one more is appended: the one that it had, and else the one that
/// is appended.
pub broadcast proof fn lemma_member_push(
    members: Seq<(Seq<char>, JsonView)>,
    key: Seq<char>,
    value: JsonView,
    wanted: Seq<char>,
)
    ensures
        #[trigger] member(JsonView::Object(members.push((key, value))), wanted) == (match member(
            JsonView::Object(members),
            wanted,
        ) {
            Some(found) => Some(found),
            None => if wanted == key {
                Some(value)
            } else {
                None
            },
        }),
{
    lemma_index_push(members, 0, key, value, wanted);
}

proof fn lemma_index_push(
    members: Seq<(Seq<char>, JsonView)>,
    i: int,
    key: Seq<char>,
    value: JsonView,
    wanted: Seq<char>,
)
    requires
        0 <= i <= members.len(),
    ensures
        member_index(members.push((key, value)), i, wanted) == (match member_index(
            members,
            i,
            wanted,
        ) {
            Some(found) => Some(found),
            None => if wanted == key {
                Some(members.len() as int)
            } else {
                None
            },
        }),
        member_index(members, i, wanted) matches Some(found) ==> i <= found < members.len(),
    decreases members.len() - i,
{
    let more = members.push((key, value));
    if i < members.len() {
        assert(more[i] == members[i]);
        lemma_index_push(members, i + 1, key, value, wanted);
    } else {
        assert(more[i] == (key, value));
        assert(member_index(more, i + 1, wanted) is None);
    }
}

/// An object without members has no member.
pub broadcast proof fn lemma_no_member(wanted: Seq<char>)
    ensures
        #[trigger] member(JsonView::Object(Seq::empty()), wanted) is None,
{
}

/// A member that is set is the one that is found afterwards, and all others are as they were.
pub proof fn lemma_set_member_is_found(
    members: Seq<(Seq<char>, JsonView)>,
    key: Seq<char>,
    value: JsonView,
    other: Seq<char>,
)
    requires
        other != key,
    ensures
        member(JsonView::Object(with_member(members, key, value)), key) == Some(value),
        member(JsonView::Object(with_member(members, key, value)), other) == member(
            JsonView::Object(members),
            other,
        ),
{
    lemma_index_push(members, 0, key, value, key);
    lemma_index_push(members, 0, key, value, other);
    match member_index(members, 0, key) {
        Some(i) => {
            lemma_index_key(members, 0, key);
            lemma_index_key(members, 0, other);
            lemma_index_update(members, 0, i, key, value, key);
            lemma_index_update(members, 0, i, key, value, other);
        },
        None => {},
    }
}

proof fn lemma_index_key(members: Seq<(Seq<char>, JsonView)>, i: int, wanted: Seq<char>)
    requires
        0 <= i,
    ensures
        member_index(members, i, wanted) matches Some(found) ==> i <= found < members.len()
            && members[found].0 == wanted,
    decreases members.len() - i,
{
    if i < members.len() && members[i].0 != wanted {
        lemma_index_key(members, i + 1, wanted);
    }
}

proof fn lemma_index_update(
    members: Seq<(Seq<char>, JsonView)>,
    i: int,
    at: int,
    key: Seq<char>,
    value: JsonView,
    wanted: Seq<char>,
)
    requires
        0 <= i,
        0 <= at < members.len(),
        members[at].0 == key,
    ensures
        member_index(members.update(at, (key, value)), i, wanted) == member_index(
            members,
            i,
            wanted,
        ),
    decreases members.len() - i,
{
    if i < members.len() {
        lemma_index_update(members, i + 1, at, key, value, wanted);
    }
}

/// A JSON value is modelled part by part, in order.
pub proof fn lemma_json_is_modelled(
    value: Json,
    items: Vec<Json>,
    members: Vec<(String, Json)>,
    i: int,
)
    ensures
        Json::Null@ is Null,
        value is Bool ==> value@ == JsonView::Bool(value->Bool_0),
        value is Number ==> value@ == JsonView::Number(value->Number_0@),
        value is Text ==> value@ == JsonView::Text(value->Text_0@),
        value == Json::Array(items) ==> value@ is Array && value@->Array_0.len() == items@.len() && (
        0 <= i < items@.len() ==> value@->Array_0[i] == items@[i]@),
        value == Json::Object(members) ==> value@ is Object && value@->Object_0.len()
            == members@.len() && (0 <= i < members@.len() ==> value@->Object_0[i].0
            == members@[i].0@ && value@->Object_0[i].1 == members@[i].1@),
        opt_json(Some(value)) == Some(value@),
        opt_json(None) is None,
{
    lemma_json_view(value);
    reveal_with_fuel(json_view, 2);
}

/// A member is found by its key, and the first of several is.
pub proof fn lemma_member_is_found(
    members: Seq<(Seq<char>, JsonView)>,
    key: Seq<char>,
    k: int,
    text: Seq<char>,
)
    requires
        0 <= k < members.len(),
        members[k].0 == key,
        forall|i: int| 0 <= i < k ==> (#[trigger] members[i]).0 != key,
    ensures
        member(JsonView::Object(members), key) == Some(members[k].1),
        members[k].1 == JsonView::Text(text) ==> text_member(JsonView::Object(members), key)
            == Some(text),
        !(members[k].1 is Text) ==> text_member(JsonView::Object(members), key) is None,
{
    lemma_index_found(members, 0, key, k);
}

proof fn lemma_index_found(
    members: Seq<(Seq<char>, JsonView)>,
    from: int,
    key: Seq<char>,
    k: int,
)
    requires
        0 <= from <= k < members.len(),
        members[k].0 == key,
        forall|i: int| from <= i < k ==> (#[trigger] members[i]).0 != key,
    ensures
        member_index(members, from, key) == Some(k),
    decreases k - from,
{
    if from < k {
        lemma_index_found(members, from + 1, key, k);
    }
}

} // verus!
