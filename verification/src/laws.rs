//! The round-trip law of the marshaller: a JSON value in canonical form
//! under a shape converts to a component value, and converting that
//! value back gives the original JSON exactly. Canonical form is the
//! image of `spec_to_json`: what the runtime itself hands out. Inputs
//! the marshaller accepts only by coercion (numeric strings, boolean
//! words, variant shorthand) convert fine but read back normalized, so
//! they are not canonical; the resource shape has no canonical form at
//! all, since its marshalling is a defined failure both ways.

use vstd::prelude::*;
use crate::jsonval::SpecJson;
use crate::jsonval::spec_obj_get;
use crate::shape::SpecType;
use crate::value::SpecValue;
use crate::marshal::{spec_to_component, spec_to_json, spec_to_component_seq,
    spec_to_component_tuple, spec_to_component_fields, spec_to_variant_case, spec_to_variant_bare,
    spec_to_json_seq, spec_to_json_fields, spec_flag_strs, spec_flag_words_arr, spec_json_name,
    spec_all_members, lemma_obj_get_skip};
use crate::fbits::{spec_f64_to_f32_exact, spec_f64_nonfinite, lemma_f32_exact_round_trip};

verus! {

/// A JSON value is canonical under a shape when it is exactly what the
/// reverse conversion of some component value of that shape produces.
pub open spec fn spec_canonical(v: SpecJson, t: SpecType) -> bool
    decreases t, 0nat, 0nat,
{
    match t {
        SpecType::Bool => v is Bool,
        SpecType::S8 => v matches SpecJson::Int(i) && i8::MIN <= i <= i8::MAX,
        SpecType::S16 => v matches SpecJson::Int(i) && i16::MIN <= i <= i16::MAX,
        SpecType::S32 => v matches SpecJson::Int(i) && i32::MIN <= i <= i32::MAX,
        SpecType::S64 => v is Int,
        SpecType::U8 => v matches SpecJson::Int(i) && 0 <= i <= u8::MAX,
        SpecType::U16 => v matches SpecJson::Int(i) && 0 <= i <= u16::MAX,
        SpecType::U32 => v matches SpecJson::Int(i) && 0 <= i <= u32::MAX,
        SpecType::U64 => (v matches SpecJson::Int(i) && i >= 0) || (v matches SpecJson::UInt(u)
            && u > i64::MAX),
        SpecType::Float32 => v matches SpecJson::FloatBits(b) && spec_f64_to_f32_exact(b) is Some
            && !spec_f64_nonfinite(b),
        SpecType::Float64 => v matches SpecJson::FloatBits(b) && !spec_f64_nonfinite(b),
        SpecType::Char => v matches SpecJson::Str(s) && s.len() == 1,
        SpecType::Text => v is Str,
        SpecType::OptionOf(inner) => v == SpecJson::Null || (v != SpecJson::Null && v
            != SpecJson::Str(""@) && spec_canonical(v, *inner)),
        SpecType::ResultOf(ok, err) => v matches SpecJson::Obj(entries) && entries.len() == 1
            && ((entries[0].0 == "ok"@ && (match ok {
            Some(okt) => spec_canonical(entries[0].1, *okt),
            None => entries[0].1 == SpecJson::Null,
        })) || (entries[0].0 == "err"@ && (match err {
            Some(errt) => spec_canonical(entries[0].1, *errt),
            None => entries[0].1 == SpecJson::Null,
        }))),
        SpecType::ListOf(inner) => v matches SpecJson::Arr(items) && spec_canonical_seq(
            items,
            *inner,
        ),
        SpecType::TupleOf(types) => v matches SpecJson::Arr(items) && items.len() == types.len()
            && spec_canonical_tuple(items, types),
        SpecType::Record(fields) => v matches SpecJson::Obj(entries) && entries.len()
            == fields.len() && (forall|i: int, j: int|
            0 <= i < j < fields.len() ==> (#[trigger] fields[i]).0 != (#[trigger] fields[j]).0)
            && spec_canonical_fields(entries, fields),
        SpecType::Variant(cases) => (v matches SpecJson::Str(s) && spec_to_variant_bare(s, cases)
            is Some) || (v matches SpecJson::Obj(entries) && entries.len() == 1
            && spec_canonical_case(entries[0].0, entries[0].1, cases)),
        SpecType::Enum(names) => v matches SpecJson::Str(s) && names.contains(s),
        SpecType::Flags(names) => v matches SpecJson::Arr(items) && spec_canonical_flags(
            items,
            names,
        ),
        SpecType::Resource => false,
    }
}

pub open spec fn spec_canonical_seq(items: Seq<SpecJson>, inner: SpecType) -> bool
    decreases inner, items.len(), 1nat,
{
    if items.len() == 0 {
        true
    } else {
        spec_canonical(items[0], inner) && spec_canonical_seq(
            items.subrange(1, items.len() as int),
            inner,
        )
    }
}

pub open spec fn spec_canonical_tuple(items: Seq<SpecJson>, types: Seq<SpecType>) -> bool
    decreases types, 0nat, 1nat,
{
    if types.len() == 0 {
        true
    } else if items.len() == 0 {
        false
    } else {
        spec_canonical(items[0], types[0]) && spec_canonical_tuple(
            items.subrange(1, items.len() as int),
            types.subrange(1, types.len() as int),
        )
    }
}

pub open spec fn spec_canonical_fields(
    entries: Seq<(Seq<char>, SpecJson)>,
    fields: Seq<(Seq<char>, SpecType)>,
) -> bool
    decreases fields, 0nat, 1nat,
{
    if fields.len() == 0 {
        true
    } else if entries.len() == 0 {
        false
    } else {
        entries[0].0 == fields[0].0 && spec_json_name(fields[0].0) == fields[0].0
            && spec_canonical(entries[0].1, fields[0].1) && spec_canonical_fields(
            entries.subrange(1, entries.len() as int),
            fields.subrange(1, fields.len() as int),
        )
    }
}

pub open spec fn spec_canonical_case(
    name: Seq<char>,
    payload: SpecJson,
    cases: Seq<(Seq<char>, Option<SpecType>)>,
) -> bool
    decreases cases, 0nat, 1nat,
{
    if cases.len() == 0 {
        false
    } else if cases[0].0 == name {
        match cases[0].1 {
            Some(pt) => spec_canonical(payload, pt),
            None => false,
        }
    } else {
        spec_canonical_case(name, payload, cases.subrange(1, cases.len() as int))
    }
}

pub open spec fn spec_canonical_flags(items: Seq<SpecJson>, names: Seq<Seq<char>>) -> bool
    decreases items.len(),
{
    if items.len() == 0 {
        true
    } else {
        (items[0] matches SpecJson::Str(s) && names.contains(s)) && spec_canonical_flags(
            items.subrange(1, items.len() as int),
            names,
        )
    }
}

/// The round-trip law: converting a canonical JSON value to a component
/// value succeeds, and converting the result back gives the value
/// unchanged. The resource shape is the stated exception: it has no
/// canonical form, and its conversion fails in both directions.
pub proof fn lemma_round_trip(v: SpecJson, t: SpecType)
    requires
        spec_canonical(v, t),
    ensures
        spec_to_component(v, t) is Some,
        spec_to_json(spec_to_component(v, t)->Some_0) == v,
    decreases t, 0nat, 0nat,
{
    match t {
        SpecType::Bool => {
            assert(spec_to_component(v, t) is Some);
            assert(spec_to_json(spec_to_component(v, t)->Some_0) == v);
        },
        SpecType::S8 => {
            assert(spec_to_component(v, t) is Some);
            assert(spec_to_json(spec_to_component(v, t)->Some_0) == v);
        },
        SpecType::S16 => {
            assert(spec_to_component(v, t) is Some);
            assert(spec_to_json(spec_to_component(v, t)->Some_0) == v);
        },
        SpecType::S32 => {
            assert(spec_to_component(v, t) is Some);
            assert(spec_to_json(spec_to_component(v, t)->Some_0) == v);
        },
        SpecType::S64 => {
            assert(spec_to_component(v, t) is Some);
            assert(spec_to_json(spec_to_component(v, t)->Some_0) == v);
        },
        SpecType::U8 => {
            assert(spec_to_component(v, t) is Some);
            assert(spec_to_json(spec_to_component(v, t)->Some_0) == v);
        },
        SpecType::U16 => {
            assert(spec_to_component(v, t) is Some);
            assert(spec_to_json(spec_to_component(v, t)->Some_0) == v);
        },
        SpecType::U32 => {
            assert(spec_to_component(v, t) is Some);
            assert(spec_to_json(spec_to_component(v, t)->Some_0) == v);
        },
        SpecType::U64 => {
            assert(spec_to_component(v, t) is Some);
            assert(spec_to_json(spec_to_component(v, t)->Some_0) == v);
        },
        SpecType::Float32 => {
            let b = v->FloatBits_0;
            lemma_f32_exact_round_trip(b);
            assert(spec_to_component(v, t) is Some);
            assert(spec_to_json(spec_to_component(v, t)->Some_0) == v);
        },
        SpecType::Float64 => {
            assert(spec_to_component(v, t) is Some);
            assert(spec_to_json(spec_to_component(v, t)->Some_0) == v);
        },
        SpecType::Char => {
            let s = v->Str_0;
            assert(seq![s[0]] =~= s);
            assert(spec_to_component(v, t) is Some);
            assert(spec_to_json(spec_to_component(v, t)->Some_0) == v);
        },
        SpecType::Text => {
            assert(spec_to_component(v, t) is Some);
            assert(spec_to_json(spec_to_component(v, t)->Some_0) == v);
        },
        SpecType::OptionOf(inner) => {
            if v != SpecJson::Null {
                lemma_round_trip(v, *inner);
            }
            assert(spec_to_component(v, t) is Some);
            assert(spec_to_json(spec_to_component(v, t)->Some_0) == v);
        },
        SpecType::ResultOf(ok, err) => {
            let entries = v->Obj_0;
            reveal_strlit("ok");
            reveal_strlit("err");
            assert("ok"@.len() == 2 && "err"@.len() == 3);
            if entries[0].0 == "ok"@ {
                assert(spec_obj_get(entries, "ok"@) == Some(entries[0].1));
                match ok {
                    Some(okt) => {
                        lemma_round_trip(entries[0].1, *okt);
                        let x = spec_to_component(entries[0].1, *okt)->Some_0;
                        assert(spec_to_json(SpecValue::ResultVal(Ok(Some(Box::new(x)))))
                            =~= SpecJson::Obj(seq![("ok"@, spec_to_json(x))]));
                        assert(("ok"@, spec_to_json(x)) == (entries[0].0, entries[0].1));
                        assert(seq![("ok"@, spec_to_json(x))] =~= entries);
                        assert(SpecJson::Obj(seq![("ok"@, spec_to_json(x))]) =~= v);
                        assert(spec_to_component(v, t) is Some);
                        assert(spec_to_json(spec_to_component(v, t)->Some_0) == v);
                    },
                    None => {
                        assert(spec_to_json(SpecValue::ResultVal(Ok(None))) =~= SpecJson::Obj(
                            seq![("ok"@, SpecJson::Null)],
                        ));
                        assert(("ok"@, SpecJson::Null) == (entries[0].0, entries[0].1));
                        assert(seq![("ok"@, SpecJson::Null)] =~= entries);
                        assert(SpecJson::Obj(seq![("ok"@, SpecJson::Null)]) =~= v);
                        assert(spec_to_component(v, t) is Some);
                        assert(spec_to_json(spec_to_component(v, t)->Some_0) == v);
                    },
                }
            } else {
                assert(entries[0].0 == "err"@);
                assert(entries.subrange(1, entries.len() as int).len() == 0);
                assert(spec_obj_get(entries.subrange(1, entries.len() as int), "ok"@) is None);
                assert(spec_obj_get(entries, "ok"@) is None);
                assert(spec_obj_get(entries, "err"@) == Some(entries[0].1));
                match err {
                    Some(errt) => {
                        lemma_round_trip(entries[0].1, *errt);
                        let x = spec_to_component(entries[0].1, *errt)->Some_0;
                        assert(spec_to_json(SpecValue::ResultVal(Err(Some(Box::new(x)))))
                            =~= SpecJson::Obj(seq![("err"@, spec_to_json(x))]));
                        assert(("err"@, spec_to_json(x)) == (entries[0].0, entries[0].1));
                        assert(seq![("err"@, spec_to_json(x))] =~= entries);
                        assert(SpecJson::Obj(seq![("err"@, spec_to_json(x))]) =~= v);
                        assert(spec_to_component(v, t) is Some);
                        assert(spec_to_json(spec_to_component(v, t)->Some_0) == v);
                    },
                    None => {
                        assert(spec_to_json(SpecValue::ResultVal(Err(None))) =~= SpecJson::Obj(
                            seq![("err"@, SpecJson::Null)],
                        ));
                        assert(("err"@, SpecJson::Null) == (entries[0].0, entries[0].1));
                        assert(seq![("err"@, SpecJson::Null)] =~= entries);
                        assert(SpecJson::Obj(seq![("err"@, SpecJson::Null)]) =~= v);
                        assert(spec_to_component(v, t) is Some);
                        assert(spec_to_json(spec_to_component(v, t)->Some_0) == v);
                    },
                }
            }
        },
        SpecType::ListOf(inner) => {
            let items = v->Arr_0;
            lemma_round_trip_seq(items, *inner);
            assert(SpecJson::Arr(
                spec_to_json_seq(spec_to_component_seq(items, *inner)->Some_0),
            ) =~= v);
            assert(spec_to_component(v, t) is Some);
            assert(spec_to_json(spec_to_component(v, t)->Some_0) == v);
        },
        SpecType::TupleOf(types) => {
            let items = v->Arr_0;
            lemma_round_trip_tuple(items, types);
            assert(SpecJson::Arr(
                spec_to_json_seq(spec_to_component_tuple(items, types)->Some_0),
            ) =~= v);
            assert(spec_to_component(v, t) is Some);
            assert(spec_to_json(spec_to_component(v, t)->Some_0) == v);
        },
        SpecType::Record(fields) => {
            let entries = v->Obj_0;
            lemma_canonical_fields_index(entries, fields);
            assert forall|i: int, j: int|
                0 <= i < j < entries.len() implies (#[trigger] entries[i]).0 != (
            #[trigger] entries[j]).0 by {
                assert(entries[i].0 == fields[i].0);
                assert(entries[j].0 == fields[j].0);
            }
            assert(entries =~= entries.subrange(0, entries.len() as int));
            assert forall|i: int| 0 <= i < fields.len() implies (#[trigger] fields[i]).0
                == entries[0 + i].0 by {
                assert(entries[i].0 == fields[i].0);
            }
            lemma_round_trip_fields(entries, entries, fields, 0);
            assert(SpecJson::Obj(
                spec_to_json_fields(spec_to_component_fields(entries, fields)->Some_0),
            ) =~= v);
            assert(spec_to_component(v, t) is Some);
            assert(spec_to_json(spec_to_component(v, t)->Some_0) == v);
        },
        SpecType::Variant(cases) => {
            match v {
                SpecJson::Str(s) => {
                    lemma_bare_variant_value(s, cases);
                    assert(spec_to_component(v, t) is Some);
                    assert(spec_to_json(spec_to_component(v, t)->Some_0) == v);
                },
                SpecJson::Obj(entries) => {
                    lemma_round_trip_case(entries[0].0, entries[0].1, cases);
                    let x = spec_to_variant_case(entries[0].0, entries[0].1, cases)->Some_0;
                    assert((entries[0].0, entries[0].1) == entries[0]);
                    assert(seq![(entries[0].0, entries[0].1)] =~= entries);
                    assert(spec_to_json(x) =~= v);
                    assert(spec_to_component(v, t) is Some);
                    assert(spec_to_json(spec_to_component(v, t)->Some_0) == v);
                },
                _ => {},
            }
        },
        SpecType::Enum(names) => {
            assert(spec_to_component(v, t) is Some);
            assert(spec_to_json(spec_to_component(v, t)->Some_0) == v);
        },
        SpecType::Flags(names) => {
            let items = v->Arr_0;
            lemma_round_trip_flags(items, names);
            let words = spec_flag_words_arr(items);
            assert(SpecJson::Arr(spec_flag_strs(words)) =~= v);
            assert forall|i: int| 0 <= i < words.len() implies names.contains(
                #[trigger] words[i],
            ) by {
                assert(items[i] matches SpecJson::Str(s) && s == words[i] && names.contains(s));
            }
            assert(spec_all_members(words, names));
            assert(spec_to_component(v, t) is Some);
            assert(spec_to_json(spec_to_component(v, t)->Some_0) == v);
        },
        SpecType::Resource => {},
    }
}

/// The stated exception: a resource handle never marshals from JSON,
/// whatever the value — the failure is defined, not a silent default.
/// (The reverse direction marks it with an explicit opaque placeholder
/// rather than failing silently.)
pub proof fn lemma_resource_never_marshals(v: SpecJson)
    ensures
        spec_to_component(v, SpecType::Resource) is None,
{
}

/// The law, elementwise over a list's items.
proof fn lemma_round_trip_seq(items: Seq<SpecJson>, inner: SpecType)
    requires
        spec_canonical_seq(items, inner),
    ensures
        spec_to_component_seq(items, inner) is Some,
        spec_to_json_seq(spec_to_component_seq(items, inner)->Some_0) == items,
    decreases inner, items.len(), 1nat,
{
    if items.len() == 0 {
        assert(spec_to_json_seq(Seq::empty()) =~= Seq::<SpecJson>::empty());
        assert(Seq::<SpecJson>::empty() =~= items);
    } else {
        let tail = items.subrange(1, items.len() as int);
        lemma_round_trip(items[0], inner);
        lemma_round_trip_seq(tail, inner);
        let x = spec_to_component(items[0], inner)->Some_0;
        let rest = spec_to_component_seq(tail, inner)->Some_0;
        let vals = seq![x] + rest;
        assert(spec_to_component_seq(items, inner) == Some(vals));
        assert(vals.subrange(1, vals.len() as int) =~= rest);
        assert(spec_to_json_seq(vals) =~= seq![spec_to_json(x)] + spec_to_json_seq(rest));
        assert(seq![spec_to_json(x)] + spec_to_json_seq(rest) =~= items);
    }
}

/// The law, pairwise over a tuple's items and shapes.
proof fn lemma_round_trip_tuple(items: Seq<SpecJson>, types: Seq<SpecType>)
    requires
        items.len() == types.len(),
        spec_canonical_tuple(items, types),
    ensures
        spec_to_component_tuple(items, types) is Some,
        spec_to_json_seq(spec_to_component_tuple(items, types)->Some_0) == items,
    decreases types, 0nat, 1nat,
{
    if types.len() == 0 {
        assert(spec_to_json_seq(Seq::empty()) =~= Seq::<SpecJson>::empty());
        assert(Seq::<SpecJson>::empty() =~= items);
    } else {
        let ti = items.subrange(1, items.len() as int);
        let tt = types.subrange(1, types.len() as int);
        lemma_round_trip(items[0], types[0]);
        lemma_round_trip_tuple(ti, tt);
        let x = spec_to_component(items[0], types[0])->Some_0;
        let rest = spec_to_component_tuple(ti, tt)->Some_0;
        let vals = seq![x] + rest;
        assert(spec_to_component_tuple(items, types) == Some(vals));
        assert(vals.subrange(1, vals.len() as int) =~= rest);
        assert(spec_to_json_seq(vals) =~= seq![spec_to_json(x)] + spec_to_json_seq(rest));
        assert(seq![spec_to_json(x)] + spec_to_json_seq(rest) =~= items);
    }
}

/// A canonical record object lines its entries up with the declared
/// fields, name for name.
proof fn lemma_canonical_fields_index(
    entries: Seq<(Seq<char>, SpecJson)>,
    fields: Seq<(Seq<char>, SpecType)>,
)
    requires
        entries.len() == fields.len(),
        spec_canonical_fields(entries, fields),
    ensures
        forall|i: int|
            0 <= i < fields.len() ==> (#[trigger] entries[i]).0 == fields[i].0,
    decreases fields.len(),
{
    if fields.len() > 0 {
        let te = entries.subrange(1, entries.len() as int);
        let tf = fields.subrange(1, fields.len() as int);
        lemma_canonical_fields_index(te, tf);
        assert forall|i: int| 0 <= i < fields.len() implies (#[trigger] entries[i]).0
            == fields[i].0 by {
            if i > 0 {
                assert(te[i - 1] == entries[i]);
                assert(tf[i - 1] == fields[i]);
            }
        }
    }
}

/// The law over a record's declared fields. The whole object is carried
/// along so that each name's lookup lands on its own entry: names are
/// unique and entries sit in declaration order after the processed
/// prefix.
proof fn lemma_round_trip_fields(
    whole: Seq<(Seq<char>, SpecJson)>,
    entries: Seq<(Seq<char>, SpecJson)>,
    fields: Seq<(Seq<char>, SpecType)>,
    off: int,
)
    requires
        0 <= off,
        whole.len() == off + fields.len(),
        entries =~= whole.subrange(off, whole.len() as int),
        entries.len() == fields.len(),
        spec_canonical_fields(entries, fields),
        forall|i: int, j: int|
            0 <= i < j < whole.len() ==> (#[trigger] whole[i]).0 != (#[trigger] whole[j]).0,
        forall|i: int|
            0 <= i < fields.len() ==> (#[trigger] fields[i]).0 == whole[off + i].0,
    ensures
        spec_to_component_fields(whole, fields) is Some,
        spec_to_json_fields(spec_to_component_fields(whole, fields)->Some_0) == entries,
    decreases fields, 0nat, 1nat,
{
    if fields.len() == 0 {
        assert(spec_to_json_fields(Seq::empty()) =~= Seq::<(Seq<char>, SpecJson)>::empty());
        assert(Seq::<(Seq<char>, SpecJson)>::empty() =~= entries);
    } else {
        let te = entries.subrange(1, entries.len() as int);
        let tf = fields.subrange(1, fields.len() as int);
        assert(entries[0] == whole[off]);
        assert forall|k: int| 0 <= k < off implies (#[trigger] whole[k]).0 != fields[0].0 by {
            assert(whole[off].0 == fields[0].0);
        }
        lemma_obj_get_skip(whole, fields[0].0, off);
        let sub = whole.subrange(off, whole.len() as int);
        assert(sub[0] == whole[off]);
        assert(spec_obj_get(whole, fields[0].0) == Some(entries[0].1));
        lemma_round_trip(entries[0].1, fields[0].1);
        let x = spec_to_component(entries[0].1, fields[0].1)->Some_0;
        assert(te =~= whole.subrange(off + 1, whole.len() as int));
        assert forall|i: int| 0 <= i < tf.len() implies (#[trigger] tf[i]).0 == whole[off + 1
            + i].0 by {
            assert(tf[i] == fields[i + 1]);
        }
        lemma_round_trip_fields(whole, te, tf, off + 1);
        let rest = spec_to_component_fields(whole, tf)->Some_0;
        let vals = seq![(fields[0].0, x)] + rest;
        assert(spec_to_component_fields(whole, fields) == Some(vals));
        assert(vals.subrange(1, vals.len() as int) =~= rest);
        assert(spec_to_json_fields(vals) =~= seq![
            (spec_json_name(fields[0].0), spec_to_json(x)),
        ] + spec_to_json_fields(rest));
        assert((spec_json_name(fields[0].0), spec_to_json(x)) == entries[0]);
        assert(seq![(spec_json_name(fields[0].0), spec_to_json(x))] + spec_to_json_fields(rest)
            =~= entries);
    }
}

/// A bare string that names a payload-less case converts to that case,
/// which reads back as the bare string.
proof fn lemma_bare_variant_value(s: Seq<char>, cases: Seq<(Seq<char>, Option<SpecType>)>)
    requires
        spec_to_variant_bare(s, cases) is Some,
    ensures
        spec_to_variant_bare(s, cases) == Some(SpecValue::Variant(s, None)),
    decreases cases,
{
    if cases.len() > 0 && cases[0].0 != s {
        lemma_bare_variant_value(s, cases.subrange(1, cases.len() as int));
    }
}

/// The law for a canonical single-field variant object.
proof fn lemma_round_trip_case(
    name: Seq<char>,
    payload: SpecJson,
    cases: Seq<(Seq<char>, Option<SpecType>)>,
)
    requires
        spec_canonical_case(name, payload, cases),
    ensures
        spec_to_variant_case(name, payload, cases) is Some,
        spec_to_json(spec_to_variant_case(name, payload, cases)->Some_0) == SpecJson::Obj(
            seq![(name, payload)],
        ),
    decreases cases, 0nat, 1nat,
{
    if cases[0].0 == name {
        let pt = cases[0].1->Some_0;
        lemma_round_trip(payload, pt);
        let x = spec_to_component(payload, pt)->Some_0;
        assert(spec_to_variant_case(name, payload, cases) == Some(
            SpecValue::Variant(name, Some(Box::new(x))),
        ));
        assert(spec_to_json(SpecValue::Variant(name, Some(Box::new(x)))) =~= SpecJson::Obj(
            seq![(name, payload)],
        ));
    } else {
        lemma_round_trip_case(name, payload, cases.subrange(1, cases.len() as int));
    }
}

/// The law for a canonical flags array: every item is a declared name.
proof fn lemma_round_trip_flags(items: Seq<SpecJson>, names: Seq<Seq<char>>)
    requires
        spec_canonical_flags(items, names),
    ensures
        spec_flag_words_arr(items).len() == items.len(),
        forall|i: int|
            0 <= i < items.len() ==> (#[trigger] items[i] matches SpecJson::Str(s) && s
                == spec_flag_words_arr(items)[i] && names.contains(s)),
        spec_flag_strs(spec_flag_words_arr(items)) == items,
    decreases items.len(),
{
    if items.len() == 0 {
        assert(spec_flag_strs(Seq::empty()) =~= Seq::<SpecJson>::empty());
        assert(Seq::<SpecJson>::empty() =~= items);
    } else {
        let tail = items.subrange(1, items.len() as int);
        lemma_round_trip_flags(tail, names);
        let s0 = items[0]->Str_0;
        let words = spec_flag_words_arr(items);
        assert(words =~= seq![s0] + spec_flag_words_arr(tail));
        assert forall|i: int|
            0 <= i < items.len() implies (#[trigger] items[i] matches SpecJson::Str(s) && s
            == words[i] && names.contains(s)) by {
            if i > 0 {
                assert(tail[i - 1] == items[i]);
                assert(words[i] == spec_flag_words_arr(tail)[i - 1]);
            }
        }
        assert(words[0] == s0);
        assert(words.subrange(1, words.len() as int) =~= spec_flag_words_arr(tail));
        assert(spec_flag_strs(words) =~= seq![SpecJson::Str(s0)] + spec_flag_strs(
            spec_flag_words_arr(tail),
        ));
        assert(seq![SpecJson::Str(s0)] + spec_flag_strs(spec_flag_words_arr(tail)) =~= items);
    }
}

} // verus!
