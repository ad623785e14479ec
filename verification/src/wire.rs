//! Reading JSON text.

use vstd::prelude::*;

use crate::json::{
    field_views, integer_of, item_views, lemma_tree, measure_of, ordered, unsigned_of, Json, Number,
    NumberView, Tree,
};
use crate::measure::Measure;
use crate::watch::number_text_of;

verus! {

// ---------------------------------------------------------------------------------------------
// The JSON reader
// ---------------------------------------------------------------------------------------------

/// A value as `serde_json` holds it.
#[verifier::external_type_specification]
#[verifier::external_body]
pub struct ExValue(serde_json::Value);

/// The value that a `serde_json::Value` holds.
pub uninterp spec fn value_held(v: serde_json::Value) -> Tree;

/// What `serde_json::from_str` makes of a text: a value, or what it says of the error.
pub uninterp spec fn text_read(text: Seq<char>) -> Result<Tree, Seq<char>>;

/// What `serde_json::from_slice` makes of bytes: a value, or what it says of the error.
pub uninterp spec fn bytes_read(bytes: Seq<u8>) -> Result<Tree, Seq<char>>;

/// What a reading came to.
pub open spec fn outcome(r: Result<Json, String>) -> Result<Tree, Seq<char>> {
    match r {
        Ok(j) => Ok(j@),
        Err(e) => Err(e@),
    }
}

/// One layer of a value.
enum Layer<'a> {
    Null,
    Bool(bool),
    Number,
    Text(&'a String),
    List(&'a Vec<serde_json::Value>),
    Object(Vec<(&'a String, &'a serde_json::Value)>),
}

/// What the values hold.
spec fn values_held(v: Seq<serde_json::Value>) -> Seq<Tree> {
    v.map_values(|x: serde_json::Value| value_held(x))
}

/// What the members of an object hold.
spec fn entries_held(v: Seq<(&String, &serde_json::Value)>) -> Seq<(Seq<char>, Tree)> {
    v.map_values(|f: (&String, &serde_json::Value)| (f.0@, value_held(*f.1)))
}

/// `serde_json::from_str`, into a value: the outcome depends on the text alone.
#[verifier::external_body]
fn parse_text(text: &str) -> (r: Result<serde_json::Value, String>)
    ensures
        match r {
            Ok(v) => text_read(text@) == Ok::<Tree, Seq<char>>(value_held(v)),
            Err(e) => text_read(text@) == Err::<Tree, Seq<char>>(e@),
        },
{
    serde_json::from_str::<serde_json::Value>(text).map_err(|e| e.to_string())
}

/// `serde_json::from_slice`, into a value: the outcome depends on the bytes alone.
#[verifier::external_body]
fn parse_bytes(bytes: &[u8]) -> (r: Result<serde_json::Value, String>)
    ensures
        match r {
            Ok(v) => bytes_read(bytes@) == Ok::<Tree, Seq<char>>(value_held(v)),
            Err(e) => bytes_read(bytes@) == Err::<Tree, Seq<char>>(e@),
        },
{
    serde_json::from_slice::<serde_json::Value>(bytes).map_err(|e| e.to_string())
}

/// The variants of `serde_json::Value`, which are those of JSON. The members of an object come in
/// the order of their keys, each once.
#[verifier::external_body]
fn layer(v: &serde_json::Value) -> (r: Layer<'_>)
    ensures
        match r {
            Layer::Null => value_held(*v) == Tree::Null,
            Layer::Bool(b) => value_held(*v) == Tree::Bool(b),
            Layer::Number => value_held(*v) is Number,
            Layer::Text(s) => value_held(*v) == Tree::Text(s@),
            Layer::List(items) => value_held(*v) == Tree::List(values_held(items@)),
            Layer::Object(fields) => value_held(*v) == Tree::Object(entries_held(fields@))
                && ordered(entries_held(fields@)),
        },
{
    match v {
        serde_json::Value::Null => Layer::Null,
        serde_json::Value::Bool(b) => Layer::Bool(*b),
        serde_json::Value::Number(_) => Layer::Number,
        serde_json::Value::String(s) => Layer::Text(s),
        serde_json::Value::Array(items) => Layer::List(items),
        serde_json::Value::Object(fields) => Layer::Object(fields.iter().collect()),
    }
}

/// `serde_json::Value::as_u64`: the number, where it is an integer that is not less than zero.
#[verifier::external_body]
fn as_u64(v: &serde_json::Value) -> (r: Option<u64>)
    ensures
        r == unsigned_of(Some(value_held(*v))),
{
    v.as_u64()
}

/// `serde_json::Value::as_i64`: the number, where it is an integer that fits.
#[verifier::external_body]
fn as_i64(v: &serde_json::Value) -> (r: Option<i64>)
    ensures
        r == integer_of(Some(value_held(*v))),
{
    v.as_i64()
}

/// `serde_json::Value::as_f64`, by its encoding: every number has one, an integer that of the
/// quantity nearest to it.
#[verifier::external_body]
fn as_measure(v: &serde_json::Value) -> (r: Option<u64>)
    ensures
        r == match value_held(*v) {
            Tree::Number(n) => Some(measure_of(n).bits),
            _ => None,
        },
{
    v.as_f64().map(|x| x.to_bits())
}

/// A number of `serde_json` as it is displayed: the digits of an integer, and the text that goes
/// with a quantity.
#[verifier::external_body]
fn displayed(v: &serde_json::Value) -> (r: String)
    requires
        value_held(*v) is Number,
    ensures
        value_held(*v) matches Tree::Number(n) ==> r@ == number_text_of(n),
{
    v.to_string()
}

fn held_number(v: &serde_json::Value) -> (r: Number)
    requires
        value_held(*v) is Number,
    ensures
        value_held(*v) == Tree::Number(r@),
{
    if let Some(u) = as_u64(v) {
        return Number::Unsigned(u);
    }
    if let Some(i) = as_i64(v) {
        return Number::Negative(i);
    }
    let bits: u64 = as_measure(v).unwrap();
    Number::Float(Measure { bits }, displayed(v))
}

fn held(v: &serde_json::Value) -> (r: Json)
    ensures
        r@ == value_held(*v),
    decreases value_held(*v),
{
    match layer(v) {
        Layer::Null => Json::Null,
        Layer::Bool(b) => Json::Bool(b),
        Layer::Number => Json::Number(held_number(v)),
        Layer::Text(s) => Json::Text(s.clone()),
        Layer::List(items) => {
            let ghost all = values_held(items@);
            let mut out: Vec<Json> = Vec::new();
            let mut i: usize = 0;
            while i < items.len()
                invariant
                    i <= items.len(),
                    all == values_held(items@),
                    value_held(*v) == Tree::List(all),
                    item_views(out@) == all.subrange(0, i as int),
                decreases items.len() - i,
            {
                let ghost before = out@;
                assert(all[i as int] == value_held(items@[i as int]));
                assert(decreases_to!(value_held(*v) => value_held(*v)->List_0));
                assert(decreases_to!(all => all[i as int]));
                out.push(held(&items[i]));
                assert(item_views(out@) == item_views(before).push(all[i as int]));
                assert(all.subrange(0, i + 1) == all.subrange(0, i as int).push(all[i as int]));
                i = i + 1;
            }
            assert(all.subrange(0, all.len() as int) == all);
            Json::list(out)
        },
        Layer::Object(fields) => {
            let ghost all = entries_held(fields@);
            let mut out: Vec<(String, Json)> = Vec::new();
            let mut i: usize = 0;
            while i < fields.len()
                invariant
                    i <= fields.len(),
                    all == entries_held(fields@),
                    value_held(*v) == Tree::Object(all),
                    field_views(out@) == all.subrange(0, i as int),
                decreases fields.len() - i,
            {
                let ghost before = out@;
                assert(all[i as int] == (fields@[i as int].0@, value_held(*fields@[i as int].1)));
                assert(decreases_to!(value_held(*v) => value_held(*v)->Object_0));
                assert(decreases_to!(all => all[i as int]));
                assert(decreases_to!(all[i as int] => all[i as int].1));
                out.push((fields[i].0.clone(), held(fields[i].1)));
                assert(field_views(out@) == field_views(before).push(all[i as int]));
                assert(all.subrange(0, i + 1) == all.subrange(0, i as int).push(all[i as int]));
                i = i + 1;
            }
            assert(all.subrange(0, all.len() as int) == all);
            let r = Json::Object(out);
            proof {
                lemma_tree(r);
            }
            r
        },
    }
}

// ---------------------------------------------------------------------------------------------
// Integers as quantities
// ---------------------------------------------------------------------------------------------

/// The text that `serde_json` writes of an integer that is read as a quantity (5 is written as 5.0).
pub uninterp spec fn quantity_text(n: int) -> Seq<char>;

/// What `serde_json` writes of `Value::as_f64` of an integer, taken back into a `Value`: the same text
/// for the same integer. Every integer of this range is a number there (`Number::from_i128`), and its
/// quantity is finite. How it is written is not stated.
#[verifier::external_body]
fn written_quantity(n: i128) -> (r: String)
    requires
        i64::MIN <= n <= u64::MAX,
    ensures
        r@ == quantity_text(n as int),
{
    let held = serde_json::Value::from(serde_json::Number::from_i128(n));
    serde_json::Value::from(held.as_f64()).to_string()
}

/// A number as a quantity: an integer is the one nearest to it.
pub open spec fn quantity_of(n: NumberView) -> NumberView {
    match n {
        NumberView::Unsigned(v) => NumberView::Float(measure_of(n), quantity_text(v as int)),
        NumberView::Negative(v) => NumberView::Float(measure_of(n), quantity_text(v as int)),
        NumberView::Float(_, _) => n,
    }
}

impl Number {
    /// This number as a quantity: an integer is the one nearest to it.
    pub fn quantity(&self) -> (r: Number)
        ensures
            r@ == quantity_of(self@),
    {
        match self {
            Number::Unsigned(v) => Number::Float(self.measure(), written_quantity(*v as i128)),
            Number::Negative(v) => Number::Float(self.measure(), written_quantity(*v as i128)),
            Number::Float(m, t) => Number::Float(*m, t.clone()),
        }
    }
}

/// Reading a number as a quantity changes nothing of its value, and to do it again nothing at all.
pub proof fn quantities_keep_their_value(n: NumberView)
    ensures
        measure_of(quantity_of(n)) == measure_of(n),
        quantity_of(quantity_of(n)) == quantity_of(n),
{
}

// ---------------------------------------------------------------------------------------------
// Reading
// ---------------------------------------------------------------------------------------------

/// The value that a text holds, or what the reader says of the error.
pub fn read_json(text: &str) -> (r: Result<Json, String>)
    ensures
        outcome(r) == text_read(text@),
{
    match parse_text(text) {
        Ok(v) => Ok(held(&v)),
        Err(e) => Err(e),
    }
}

/// The value that bytes hold, or what the reader says of the error.
pub fn read_json_bytes(bytes: &[u8]) -> (r: Result<Json, String>)
    ensures
        outcome(r) == bytes_read(bytes@),
{
    match parse_bytes(bytes) {
        Ok(v) => Ok(held(&v)),
        Err(e) => Err(e),
    }
}

} // verus!
