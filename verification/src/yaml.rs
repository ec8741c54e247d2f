//! YAML values.

use serde_yaml::value::{Tag, TaggedValue};
use serde_yaml::Value;
use vstd::prelude::*;

use crate::json::{Number, NumberView};

verus! {

/// A YAML value. The entries of a mapping keep their order.
#[derive(Debug, PartialEq)]
pub enum Yaml {
    Null,
    Bool(bool),
    Number(Number),
    Text(String),
    Sequence(Vec<Yaml>),
    Mapping(Vec<(Yaml, Yaml)>),
    Tagged(String, Box<Yaml>),
}

/// The model of a YAML value.
pub enum YamlView {
    Null,
    Bool(bool),
    Number(NumberView),
    Text(Seq<char>),
    Sequence(Seq<YamlView>),
    Mapping(Seq<(YamlView, YamlView)>),
    Tagged(Seq<char>, Box<YamlView>),
}

/// The model of a YAML value.
pub open spec fn yaml_view(y: Yaml) -> YamlView
    decreases y,
{
    match y {
        Yaml::Null => YamlView::Null,
        Yaml::Bool(b) => YamlView::Bool(b),
        Yaml::Number(n) => YamlView::Number(n@),
        Yaml::Text(s) => YamlView::Text(s@),
        Yaml::Sequence(items) => YamlView::Sequence(
            Seq::new(
                items@.len(),
                |i: int|
                    if 0 <= i < items@.len() {
                        yaml_view(items@[i])
                    } else {
                        YamlView::Null
                    },
            ),
        ),
        Yaml::Mapping(entries) => YamlView::Mapping(
            Seq::new(
                entries@.len(),
                |i: int|
                    if 0 <= i < entries@.len() {
                        (yaml_view(entries@[i].0), yaml_view(entries@[i].1))
                    } else {
                        (YamlView::Null, YamlView::Null)
                    },
            ),
        ),
        Yaml::Tagged(tag, value) => YamlView::Tagged(tag@, Box::new(yaml_view(*value))),
    }
}

impl View for Yaml {
    type V = YamlView;

    open spec fn view(&self) -> YamlView {
        yaml_view(*self)
    }
}

/// A value of the YAML crate.
#[verifier::external_type_specification]
#[verifier::external_body]
pub struct ExYamlValue(Value);

/// The same value as a `serde_yaml::Value`, variant for variant. A number that is no integer is
/// read from its text by `serde_yaml::from_str`. Nothing is claimed of the result.
#[verifier::external_body]
fn to_value(y: &Yaml) -> (r: Value) {
    match y {
        Yaml::Null => Value::Null,
        Yaml::Bool(b) => Value::Bool(*b),
        Yaml::Number(Number::Unsigned(n)) => Value::from(*n),
        Yaml::Number(Number::Negative(n)) => Value::from(*n),
        Yaml::Number(Number::Float(t)) => serde_yaml::from_str(t).unwrap_or_default(),
        Yaml::Text(s) => s.as_str().into(),
        Yaml::Sequence(v) => Value::Sequence(v.iter().map(to_value).collect()),
        Yaml::Mapping(m) => Value::Mapping(m.iter().map(|(k, v)| (to_value(k), to_value(v))).collect()),
        Yaml::Tagged(t, v) => to_tagged(t, v),
    }
}

/// A value with a tag as a `serde_yaml::Value`. Nothing is claimed of the result.
#[verifier::external_body]
fn to_tagged(tag: &String, value: &Yaml) -> (r: Value) {
    Value::Tagged(Box::new(TaggedValue {
        tag: Tag::new(format!("!{tag}")),
        value: to_value(value),
    }))
}

/// The YAML text of a value, as `serde_yaml` writes it; empty where it cannot be written.
pub uninterp spec fn yaml_text(y: YamlView) -> Seq<char>;

/// `serde_yaml::to_string`: the YAML text of a value. The contract names the result; it is a
/// function of the value alone.
#[verifier::external_body]
pub(crate) fn to_text(y: &Yaml) -> (r: String)
    ensures
        r@ == yaml_text(y@),
{
    serde_yaml::to_string(&to_value(y)).unwrap_or_default()
}

/// The same value as a `Yaml`, variant for variant. A number that is no integer keeps its text, and
/// a tag its name without the exclamation mark. Nothing is claimed of the result.
#[verifier::external_body]
fn from_value(value: &Value) -> (r: Yaml) {
    match value {
        Value::Null => Yaml::Null,
        Value::Bool(b) => Yaml::Bool(*b),
        Value::Number(n) => Yaml::Number(
            n.as_u64().map(Number::Unsigned).or(n.as_i64().map(Number::Negative))
                .unwrap_or(Number::Float(n.to_string())),
        ),
        Value::String(s) => Yaml::Text(s.clone()),
        Value::Sequence(v) => Yaml::Sequence(v.iter().map(from_value).collect()),
        Value::Mapping(m) => Yaml::Mapping(m.iter().map(|(k, v)| (from_value(k), from_value(v))).collect()),
        Value::Tagged(_) => from_tagged(value),
    }
}

/// A value with a tag as a `Yaml`; any other value as `from_value` has it. Nothing is claimed of the
/// result.
#[verifier::external_body]
fn from_tagged(value: &Value) -> (r: Yaml) {
    match value {
        Value::Tagged(t) => Yaml::Tagged(t.tag.to_string().split_off(1), Box::new(from_value(&t.value))),
        other => from_value(other),
    }
}

/// What `serde_yaml` reads from a text: a value, or why the text is no YAML.
pub uninterp spec fn yaml_parsed(s: Seq<char>) -> Result<YamlView, Seq<char>>;

/// `serde_yaml::from_str`: the value that a text stands for, or the text of the error. The contract
/// names the result; it is a function of the text alone.
#[verifier::external_body]
pub(crate) fn parse(s: &str) -> (r: Result<Yaml, String>)
    ensures
        match r {
            Ok(value) => yaml_parsed(s@) == Ok::<YamlView, Seq<char>>(value@),
            Err(error) => yaml_parsed(s@) == Err::<YamlView, Seq<char>>(error@),
        },
{
    match serde_yaml::from_str::<Value>(s) {
        Ok(value) => Ok(from_value(&value)),
        Err(error) => Err(error.to_string()),
    }
}

/// A YAML value is modelled part by part, in order.
pub proof fn lemma_yaml_is_modelled(y: Yaml, items: Vec<Yaml>, entries: Vec<(Yaml, Yaml)>, i: int)
    ensures
        Yaml::Null@ is Null,
        y is Bool ==> y@ == YamlView::Bool(y->Bool_0),
        y is Number ==> y@ == YamlView::Number(y->Number_0@),
        y is Text ==> y@ == YamlView::Text(y->Text_0@),
        y == Yaml::Sequence(items) ==> y@ is Sequence && y@->Sequence_0.len() == items@.len() && (0
            <= i < items@.len() ==> y@->Sequence_0[i] == items@[i]@),
        y == Yaml::Mapping(entries) ==> y@ is Mapping && y@->Mapping_0.len() == entries@.len() && (0
            <= i < entries@.len() ==> y@->Mapping_0[i].0 == entries@[i].0@ && y@->Mapping_0[i].1
            == entries@[i].1@),
{
    reveal_with_fuel(yaml_view, 2);
}

} // verus!
