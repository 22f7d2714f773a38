//! The component value model: the structurally typed values that a
//! component function consumes and produces. Floating-point values are
//! carried as their IEEE 754 bit patterns; the runtime moves them between
//! representations without ever doing floating-point arithmetic.

use vstd::prelude::*;
use crate::shape::view_names;

verus! {

/// One field of a record value.
#[derive(Debug)]
pub struct NamedVal {
    pub name: String,
    pub value: ComponentValue,
}

/// A structurally typed component value.
#[derive(Debug)]
pub enum ComponentValue {
    Bool(bool),
    S8(i8),
    S16(i16),
    S32(i32),
    S64(i64),
    U8(u8),
    U16(u16),
    U32(u32),
    U64(u64),
    /// IEEE 754 binary32 bit pattern.
    Float32(u32),
    /// IEEE 754 binary64 bit pattern.
    Float64(u64),
    Char(char),
    Text(String),
    OptionVal(Option<Box<ComponentValue>>),
    ResultVal(Result<Option<Box<ComponentValue>>, Option<Box<ComponentValue>>>),
    List(Vec<ComponentValue>),
    Tuple(Vec<ComponentValue>),
    Record(Vec<NamedVal>),
    Variant(String, Option<Box<ComponentValue>>),
    Enum(String),
    Flags(Vec<String>),
    /// An opaque resource handle, never built from JSON.
    Resource,
}

/// Mathematical model of a component value.
#[verifier::ext_equal]
pub enum SpecValue {
    Bool(bool),
    S8(i8),
    S16(i16),
    S32(i32),
    S64(i64),
    U8(u8),
    U16(u16),
    U32(u32),
    U64(u64),
    Float32(u32),
    Float64(u64),
    Char(char),
    Text(Seq<char>),
    OptionVal(Option<Box<SpecValue>>),
    ResultVal(Result<Option<Box<SpecValue>>, Option<Box<SpecValue>>>),
    List(Seq<SpecValue>),
    Tuple(Seq<SpecValue>),
    Record(Seq<(Seq<char>, SpecValue)>),
    Variant(Seq<char>, Option<Box<SpecValue>>),
    Enum(Seq<char>),
    Flags(Seq<Seq<char>>),
    Resource,
}

pub open spec fn view_value_opt(o: Option<Box<ComponentValue>>) -> Option<Box<SpecValue>>
    decreases o,
{
    match o {
        Option::None => Option::None,
        Option::Some(b) => Option::Some(Box::new(view_value(*b))),
    }
}

pub open spec fn view_value_seq(s: Seq<ComponentValue>) -> Seq<SpecValue>
    decreases s,
{
    if s.len() == 0 {
        Seq::empty()
    } else {
        seq![view_value(s[0])] + view_value_seq(s.subrange(1, s.len() as int))
    }
}

pub open spec fn view_named_vals(s: Seq<NamedVal>) -> Seq<(Seq<char>, SpecValue)>
    decreases s,
{
    if s.len() == 0 {
        Seq::empty()
    } else {
        seq![(s[0].name@, view_value(s[0].value))] + view_named_vals(
            s.subrange(1, s.len() as int),
        )
    }
}

pub open spec fn view_value(v: ComponentValue) -> SpecValue
    decreases v,
{
    match v {
        ComponentValue::Bool(b) => SpecValue::Bool(b),
        ComponentValue::S8(n) => SpecValue::S8(n),
        ComponentValue::S16(n) => SpecValue::S16(n),
        ComponentValue::S32(n) => SpecValue::S32(n),
        ComponentValue::S64(n) => SpecValue::S64(n),
        ComponentValue::U8(n) => SpecValue::U8(n),
        ComponentValue::U16(n) => SpecValue::U16(n),
        ComponentValue::U32(n) => SpecValue::U32(n),
        ComponentValue::U64(n) => SpecValue::U64(n),
        ComponentValue::Float32(bits) => SpecValue::Float32(bits),
        ComponentValue::Float64(bits) => SpecValue::Float64(bits),
        ComponentValue::Char(c) => SpecValue::Char(c),
        ComponentValue::Text(s) => SpecValue::Text(s@),
        ComponentValue::OptionVal(o) => SpecValue::OptionVal(view_value_opt(o)),
        ComponentValue::ResultVal(res) => SpecValue::ResultVal(
            match res {
                Result::Ok(o) => Result::Ok(view_value_opt(o)),
                Result::Err(o) => Result::Err(view_value_opt(o)),
            },
        ),
        ComponentValue::List(items) => SpecValue::List(view_value_seq(items@)),
        ComponentValue::Tuple(items) => SpecValue::Tuple(view_value_seq(items@)),
        ComponentValue::Record(fields) => SpecValue::Record(view_named_vals(fields@)),
        ComponentValue::Variant(name, payload) => SpecValue::Variant(
            name@,
            view_value_opt(payload),
        ),
        ComponentValue::Enum(name) => SpecValue::Enum(name@),
        ComponentValue::Flags(names) => SpecValue::Flags(view_names(names@)),
        ComponentValue::Resource => SpecValue::Resource,
    }
}

impl View for ComponentValue {
    type V = SpecValue;

    open spec fn view(&self) -> SpecValue {
        view_value(*self)
    }
}

/// The view of a value sequence is the sequence of element views.
pub proof fn lemma_view_value_seq(s: Seq<ComponentValue>)
    ensures
        view_value_seq(s).len() == s.len(),
        forall|i: int| 0 <= i < s.len() ==> view_value_seq(s)[i] == view_value(#[trigger] s[i]),
    decreases s,
{
    if s.len() > 0 {
        let tail = s.subrange(1, s.len() as int);
        lemma_view_value_seq(tail);
        assert forall|i: int| 0 <= i < s.len() implies view_value_seq(s)[i] == view_value(
            s[i],
        ) by {
            if i > 0 {
                assert(tail[i - 1] == s[i]);
                assert(view_value_seq(s)[i] == view_value_seq(tail)[i - 1]);
            }
        }
    }
}

/// The view of a record field list, pointwise.
pub proof fn lemma_view_named_vals(s: Seq<NamedVal>)
    ensures
        view_named_vals(s).len() == s.len(),
        forall|i: int|
            0 <= i < s.len() ==> view_named_vals(s)[i] == ((#[trigger] s[i]).name@, view_value(
                s[i].value,
            )),
    decreases s,
{
    if s.len() > 0 {
        let tail = s.subrange(1, s.len() as int);
        lemma_view_named_vals(tail);
        assert forall|i: int| 0 <= i < s.len() implies view_named_vals(s)[i] == ((s[i]).name@,
        view_value(s[i].value)) by {
            if i > 0 {
                assert(tail[i - 1] == s[i]);
                assert(view_named_vals(s)[i] == view_named_vals(tail)[i - 1]);
            }
        }
    }
}

} // verus!
