//! The library's JSON value model.
//!
//! Callers hand the runtime loosely typed JSON; the marshaller reads it
//! against an expected structural type. The model mirrors what a dynamic
//! JSON document exposes: null, booleans, numbers, strings, arrays and
//! objects. A number records which of the three numeric readings exist:
//! a signed 64-bit reading, an unsigned 64-bit reading past the signed
//! range, or only a binary floating-point reading, carried as its IEEE
//! 754 bit pattern so that no floating-point arithmetic is ever needed
//! to move it around.

use vstd::prelude::*;

verus! {

/// A JSON number, by which of its readings exist.
#[derive(Debug, Clone, Copy, PartialEq, Eq, Structural)]
pub enum JsonNum {
    /// Representable as a signed 64-bit integer.
    Int(i64),
    /// An unsigned value above the signed 64-bit range.
    UInt(u64),
    /// Only a floating-point reading: the IEEE 754 binary64 bit pattern.
    FloatBits(u64),
}

/// One field of a JSON object.
#[derive(Debug)]
pub struct JsonField {
    pub name: String,
    pub value: Json,
}

/// A JSON value.
#[derive(Debug)]
pub enum Json {
    Null,
    Bool(bool),
    Num(JsonNum),
    Str(String),
    Arr(Vec<Json>),
    Obj(Vec<JsonField>),
}

/// Mathematical model of a JSON value: strings become character
/// sequences, arrays and objects become sequences.
#[verifier::ext_equal]
pub enum SpecJson {
    Null,
    Bool(bool),
    Int(i64),
    UInt(u64),
    FloatBits(u64),
    Str(Seq<char>),
    Arr(Seq<SpecJson>),
    Obj(Seq<(Seq<char>, SpecJson)>),
}

pub open spec fn view_json_seq(s: Seq<Json>) -> Seq<SpecJson>
    decreases s,
{
    if s.len() == 0 {
        Seq::empty()
    } else {
        seq![view_json(s[0])] + view_json_seq(s.subrange(1, s.len() as int))
    }
}

pub open spec fn view_json_fields(s: Seq<JsonField>) -> Seq<(Seq<char>, SpecJson)>
    decreases s,
{
    if s.len() == 0 {
        Seq::empty()
    } else {
        seq![(s[0].name@, view_json(s[0].value))] + view_json_fields(
            s.subrange(1, s.len() as int),
        )
    }
}

pub open spec fn view_json(j: Json) -> SpecJson
    decreases j,
{
    match j {
        Json::Null => SpecJson::Null,
        Json::Bool(b) => SpecJson::Bool(b),
        Json::Num(JsonNum::Int(i)) => SpecJson::Int(i),
        Json::Num(JsonNum::UInt(u)) => SpecJson::UInt(u),
        Json::Num(JsonNum::FloatBits(f)) => SpecJson::FloatBits(f),
        Json::Str(s) => SpecJson::Str(s@),
        Json::Arr(items) => SpecJson::Arr(view_json_seq(items@)),
        Json::Obj(entries) => SpecJson::Obj(view_json_fields(entries@)),
    }
}

impl View for Json {
    type V = SpecJson;

    open spec fn view(&self) -> SpecJson {
        view_json(*self)
    }
}

/// The view of a value sequence is the sequence of element views.
pub proof fn lemma_view_json_seq(s: Seq<Json>)
    ensures
        view_json_seq(s).len() == s.len(),
        forall|i: int| 0 <= i < s.len() ==> view_json_seq(s)[i] == view_json(#[trigger] s[i]),
    decreases s,
{
    if s.len() > 0 {
        let tail = s.subrange(1, s.len() as int);
        lemma_view_json_seq(tail);
        assert forall|i: int| 0 <= i < s.len() implies view_json_seq(s)[i] == view_json(
            s[i],
        ) by {
            if i > 0 {
                assert(tail[i - 1] == s[i]);
                assert(view_json_seq(s)[i] == view_json_seq(tail)[i - 1]);
            }
        }
    }
}

/// The view of a field list is the list of (name, value view) pairs.
pub proof fn lemma_view_json_fields(s: Seq<JsonField>)
    ensures
        view_json_fields(s).len() == s.len(),
        forall|i: int|
            0 <= i < s.len() ==> view_json_fields(s)[i] == ((#[trigger] s[i]).name@, view_json(
                s[i].value,
            )),
    decreases s,
{
    if s.len() > 0 {
        let tail = s.subrange(1, s.len() as int);
        lemma_view_json_fields(tail);
        assert forall|i: int| 0 <= i < s.len() implies view_json_fields(s)[i] == ((s[i]).name@,
        view_json(s[i].value)) by {
            if i > 0 {
                assert(tail[i - 1] == s[i]);
                assert(view_json_fields(s)[i] == view_json_fields(tail)[i - 1]);
            }
        }
    }
}

/// First field of the object with the given name, if any.
pub open spec fn spec_obj_get(entries: Seq<(Seq<char>, SpecJson)>, key: Seq<char>) -> Option<
    SpecJson,
>
    decreases entries,
{
    if entries.len() == 0 {
        None
    } else if entries[0].0 == key {
        Some(entries[0].1)
    } else {
        spec_obj_get(entries.subrange(1, entries.len() as int), key)
    }
}

impl Clone for Json {
    /// A clone has the same mathematical value.
    fn clone(&self) -> (r: Self)
        ensures
            r@ == self@,
    {
        clone_json(self)
    }
}

impl Clone for JsonField {
    /// A clone keeps the field name and value.
    fn clone(&self) -> (r: Self)
        ensures
            r.name@ == self.name@,
            r.value@ == self.value@,
    {
        JsonField { name: self.name.clone(), value: clone_json(&self.value) }
    }
}

fn clone_json(j: &Json) -> (r: Json)
    ensures
        r@ == j@,
    decreases j,
{
    match j {
        Json::Null => Json::Null,
        Json::Bool(b) => Json::Bool(*b),
        Json::Num(n) => Json::Num(*n),
        Json::Str(s) => Json::Str(s.clone()),
        Json::Arr(items) => {
            let out = clone_json_vec(items);
            let r = Json::Arr(out);
            proof {
                assert(r@ =~= j@);
            }
            r
        },
        Json::Obj(entries) => {
            let out = clone_json_fields(entries);
            let r = Json::Obj(out);
            proof {
                assert(r@ =~= j@);
            }
            r
        },
    }
}

fn clone_json_vec(items: &Vec<Json>) -> (r: Vec<Json>)
    ensures
        view_json_seq(r@) == view_json_seq(items@),
    decreases items,
{
    let mut out: Vec<Json> = Vec::new();
    let mut i: usize = 0;
    while i < items.len()
        invariant
            i <= items.len(),
            out@.len() == i as int,
            forall|k: int| 0 <= k < i as int ==> view_json(#[trigger] out@[k]) == view_json(
                items@[k],
            ),
        decreases items.len() - i,
    {
        let c = clone_json(&items[i]);
        out.push(c);
        i += 1;
    }
    proof {
        lemma_view_json_seq(out@);
        lemma_view_json_seq(items@);
        assert forall|k: int| 0 <= k < out@.len() implies view_json_seq(out@)[k]
            == view_json_seq(items@)[k] by {
            assert(view_json(out@[k]) == view_json(items@[k]));
        }
        assert(view_json_seq(out@) =~= view_json_seq(items@));
    }
    out
}

fn clone_json_fields(entries: &Vec<JsonField>) -> (r: Vec<JsonField>)
    ensures
        view_json_fields(r@) == view_json_fields(entries@),
    decreases entries,
{
    let mut out: Vec<JsonField> = Vec::new();
    let mut i: usize = 0;
    while i < entries.len()
        invariant
            i <= entries.len(),
            out@.len() == i as int,
            forall|k: int|
                0 <= k < i as int ==> (#[trigger] out@[k]).name@ == entries@[k].name@
                    && view_json(out@[k].value) == view_json(entries@[k].value),
        decreases entries.len() - i,
    {
        let name = entries[i].name.clone();
        let value = clone_json(&entries[i].value);
        out.push(JsonField { name, value });
        i += 1;
    }
    proof {
        lemma_view_json_fields(out@);
        lemma_view_json_fields(entries@);
        assert forall|k: int| 0 <= k < out@.len() implies view_json_fields(out@)[k]
            == view_json_fields(entries@)[k] by {
            assert(out@[k].name@ == entries@[k].name@);
            assert(view_json(out@[k].value) == view_json(entries@[k].value));
        }
        assert(view_json_fields(out@) =~= view_json_fields(entries@));
    }
    out
}

} // verus!
