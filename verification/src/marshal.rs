//! The value marshaller: converts a JSON value into a component value
//! under an expected structural type, and converts component values back
//! to JSON. Conversion is total over every shape except the resource
//! handle, whose marshalling is a defined failure. A JSON value is never
//! coerced silently out of range: integers are range-checked against the
//! target width, and a floating-point coercion that would have to round
//! is refused. Floating-point values travel as raw bits, and the
//! marshaller performs no decimal reading or writing of them: a numeric
//! string offered for a floating-point target, and a float-carried
//! number offered for a text target, are defined errors rather than
//! coercions.

use vstd::prelude::*;
use vstd::string::StringExecFns;
use crate::jsonval::{Json, JsonField, JsonNum, SpecJson, view_json, view_json_seq,
    view_json_fields, spec_obj_get, lemma_view_json_seq, lemma_view_json_fields};
use crate::shape::{StructuralType, SpecType, FieldDecl, CaseDecl, view_shape, view_shape_seq,
    view_field_decls, view_case_decls, view_case_payload, view_names, lemma_view_shape_seq,
    lemma_view_field_decls, lemma_view_case_decls, lemma_view_names, lemma_view_names_push,
    view_shape_opt};
use crate::value::{ComponentValue, SpecValue, NamedVal, view_value, view_value_seq,
    view_named_vals, lemma_view_value_seq, lemma_view_named_vals};
use crate::numparse::{spec_parse_i64, spec_parse_u64, spec_dec_i64, spec_dec_digits, parse_i64,
    parse_u64, format_i64, format_u64};
use crate::strutil::{spec_lower, ascii_lower, str_eq, chars_vec, string_from_chars, push_char,
    first_char};
use crate::fbits::{spec_exact_f64, spec_f64_to_f32_exact, spec_f32_to_f64, spec_f64_nonfinite,
    exact_f64_bits, f64_to_f32_exact, f32_to_f64_bits, f64_bits_nonfinite};

verus! {

/// What a JSON value reads as when a signed 64-bit integer is wanted:
/// its signed reading, a parsed numeric string, or a boolean as 0 or 1.
pub open spec fn spec_json_as_i64(v: SpecJson) -> Option<i64> {
    match v {
        SpecJson::Int(i) => Some(i),
        SpecJson::Str(s) => spec_parse_i64(s),
        SpecJson::Bool(b) => Some(
            if b {
                1i64
            } else {
                0i64
            },
        ),
        _ => None,
    }
}

/// The unsigned reading of a JSON value.
pub open spec fn spec_json_as_u64(v: SpecJson) -> Option<u64> {
    match v {
        SpecJson::Int(i) => if i >= 0 {
            Some(i as u64)
        } else {
            None
        },
        SpecJson::UInt(u) => Some(u),
        SpecJson::Str(s) => spec_parse_u64(s),
        SpecJson::Bool(b) => Some(
            if b {
                1u64
            } else {
                0u64
            },
        ),
        _ => None,
    }
}

/// The boolean reading of a JSON value: native booleans, a closed set
/// of lower-cased words, and numbers through their signed 64-bit
/// reading — nonzero is true, and a number with no such reading (a
/// float-carried one, or an unsigned above the signed range) reads as
/// false rather than failing.
pub open spec fn spec_json_as_bool(v: SpecJson) -> Option<bool> {
    match v {
        SpecJson::Bool(b) => Some(b),
        SpecJson::Int(i) => Some(i != 0),
        SpecJson::UInt(u) => Some(u <= i64::MAX && u != 0),
        SpecJson::FloatBits(_) => Some(false),
        SpecJson::Str(s) => {
            let l = spec_lower(s);
            if l == "true"@ || l == "1"@ || l == "yes"@ {
                Some(true)
            } else if l == "false"@ || l == "0"@ || l == "no"@ || l == ""@ {
                Some(false)
            } else {
                None
            }
        },
        _ => None,
    }
}

/// The exact binary64 reading of a JSON value.
pub open spec fn spec_json_as_f64(v: SpecJson) -> Option<u64> {
    match v {
        SpecJson::FloatBits(b) => Some(b),
        SpecJson::Int(i) => if i < 0 {
            spec_exact_f64(((-(i as int)) as u64), true)
        } else {
            spec_exact_f64(i as u64, false)
        },
        SpecJson::UInt(u) => spec_exact_f64(u, false),
        SpecJson::Bool(b) => Some(
            if b {
                0x3FF0_0000_0000_0000u64
            } else {
                0u64
            },
        ),
        _ => None,
    }
}

/// The textual reading of a JSON value: strings pass, integers and
/// booleans are written out, null reads as the empty string. A
/// float-carried number has no textual reading here.
pub open spec fn spec_json_as_text(v: SpecJson) -> Option<Seq<char>> {
    match v {
        SpecJson::Str(s) => Some(s),
        SpecJson::Int(i) => Some(spec_dec_i64(i)),
        SpecJson::UInt(u) => Some(spec_dec_digits(u as nat)),
        SpecJson::Bool(b) => Some(
            if b {
                "true"@
            } else {
                "false"@
            },
        ),
        SpecJson::Null => Some(""@),
        _ => None,
    }
}

/// Splitting a flags string at commas, trimming ASCII blanks.
pub open spec fn spec_is_blank(c: char) -> bool {
    c == ' ' || c == '\t' || c == '\n' || c == '\r'
}

pub open spec fn spec_trim(s: Seq<char>) -> Seq<char>
    decreases s.len(),
{
    if s.len() > 0 && spec_is_blank(s[0]) {
        spec_trim(s.drop_first())
    } else if s.len() > 0 && spec_is_blank(s.last()) {
        spec_trim(s.drop_last())
    } else {
        s
    }
}

/// Index of the first comma, or the length when there is none.
pub open spec fn spec_first_comma(s: Seq<char>) -> nat
    decreases s.len(),
{
    if s.len() == 0 {
        0
    } else if s[0] == ',' {
        0
    } else {
        1 + spec_first_comma(s.drop_first())
    }
}

/// The first-comma index is in range, points at a comma when one
/// exists, and nothing before it is a comma.
pub proof fn lemma_first_comma(s: Seq<char>)
    ensures
        spec_first_comma(s) <= s.len(),
        spec_first_comma(s) < s.len() ==> s[spec_first_comma(s) as int] == ',',
        forall|k: int| 0 <= k < spec_first_comma(s) ==> s[k] != ',',
    decreases s.len(),
{
    if s.len() > 0 && s[0] != ',' {
        lemma_first_comma(s.drop_first());
        let fc = spec_first_comma(s);
        assert forall|k: int| 0 <= k < fc implies s[k] != ',' by {
            if k > 0 {
                assert(s.drop_first()[k - 1] == s[k]);
            }
        }
    }
}

pub open spec fn spec_split_commas(s: Seq<char>) -> Seq<Seq<char>>
    decreases s.len(),
{
    let fc = spec_first_comma(s);
    if fc >= s.len() {
        seq![spec_trim(s)]
    } else {
        seq![spec_trim(s.subrange(0, fc as int))] + spec_split_commas(
            s.subrange(fc as int + 1, s.len() as int),
        )
    }
}

/// The flag names a JSON value carries: the strings of an array, with
/// non-strings passed over, or one comma-separated string.
pub open spec fn spec_flag_words_arr(items: Seq<SpecJson>) -> Seq<Seq<char>>
    decreases items,
{
    if items.len() == 0 {
        Seq::empty()
    } else {
        let rest = spec_flag_words_arr(items.drop_first());
        match items[0] {
            SpecJson::Str(s) => seq![s] + rest,
            _ => rest,
        }
    }
}

pub open spec fn spec_flag_words(v: SpecJson) -> Option<Seq<Seq<char>>> {
    match v {
        SpecJson::Arr(items) => Some(spec_flag_words_arr(items)),
        SpecJson::Str(s) => Some(spec_split_commas(s)),
        _ => None,
    }
}

pub open spec fn spec_all_members(words: Seq<Seq<char>>, names: Seq<Seq<char>>) -> bool {
    forall|i: int| 0 <= i < words.len() ==> names.contains(#[trigger] words[i])
}

/// Conversion of a JSON value to a component value under an expected
/// shape. `None` is a defined conversion failure.
pub open spec fn spec_to_component(v: SpecJson, t: SpecType) -> Option<SpecValue>
    decreases t, 0nat, 0nat,
{
    match t {
        SpecType::Bool => match spec_json_as_bool(v) {
            Some(b) => Some(SpecValue::Bool(b)),
            None => None,
        },
        SpecType::S8 => match spec_json_as_i64(v) {
            Some(n) => if i8::MIN <= n <= i8::MAX {
                Some(SpecValue::S8(n as i8))
            } else {
                None
            },
            None => None,
        },
        SpecType::S16 => match spec_json_as_i64(v) {
            Some(n) => if i16::MIN <= n <= i16::MAX {
                Some(SpecValue::S16(n as i16))
            } else {
                None
            },
            None => None,
        },
        SpecType::S32 => match spec_json_as_i64(v) {
            Some(n) => if i32::MIN <= n <= i32::MAX {
                Some(SpecValue::S32(n as i32))
            } else {
                None
            },
            None => None,
        },
        SpecType::S64 => match spec_json_as_i64(v) {
            Some(n) => Some(SpecValue::S64(n)),
            None => None,
        },
        SpecType::U8 => match spec_json_as_u64(v) {
            Some(n) => if n <= u8::MAX {
                Some(SpecValue::U8(n as u8))
            } else {
                None
            },
            None => None,
        },
        SpecType::U16 => match spec_json_as_u64(v) {
            Some(n) => if n <= u16::MAX {
                Some(SpecValue::U16(n as u16))
            } else {
                None
            },
            None => None,
        },
        SpecType::U32 => match spec_json_as_u64(v) {
            Some(n) => if n <= u32::MAX {
                Some(SpecValue::U32(n as u32))
            } else {
                None
            },
            None => None,
        },
        SpecType::U64 => match spec_json_as_u64(v) {
            Some(n) => Some(SpecValue::U64(n)),
            None => None,
        },
        SpecType::Float32 => match spec_json_as_f64(v) {
            Some(b) => match spec_f64_to_f32_exact(b) {
                Some(b32) => Some(SpecValue::Float32(b32)),
                None => None,
            },
            None => None,
        },
        SpecType::Float64 => match spec_json_as_f64(v) {
            Some(b) => Some(SpecValue::Float64(b)),
            None => None,
        },
        SpecType::Char => match v {
            SpecJson::Str(s) => if s.len() > 0 {
                Some(SpecValue::Char(s[0]))
            } else {
                None
            },
            _ => None,
        },
        SpecType::Text => match spec_json_as_text(v) {
            Some(s) => Some(SpecValue::Text(s)),
            None => None,
        },
        SpecType::OptionOf(inner) => {
            if v == SpecJson::Null || v == SpecJson::Str(""@) {
                Some(SpecValue::OptionVal(None))
            } else {
                match spec_to_component(v, *inner) {
                    Some(x) => Some(SpecValue::OptionVal(Some(Box::new(x)))),
                    None => None,
                }
            }
        },
        SpecType::ResultOf(ok, err) => {
            let explicit_ok = match v {
                SpecJson::Obj(entries) => spec_obj_get(entries, "ok"@),
                _ => None,
            };
            let explicit_err = match v {
                SpecJson::Obj(entries) => spec_obj_get(entries, "err"@),
                _ => None,
            };
            if explicit_ok is Some {
                match ok {
                    Some(okt) => match spec_to_component(explicit_ok->Some_0, *okt) {
                        Some(x) => Some(SpecValue::ResultVal(Ok(Some(Box::new(x))))),
                        None => None,
                    },
                    None => Some(SpecValue::ResultVal(Ok(None))),
                }
            } else if explicit_err is Some {
                match err {
                    Some(errt) => match spec_to_component(explicit_err->Some_0, *errt) {
                        Some(x) => Some(SpecValue::ResultVal(Err(Some(Box::new(x))))),
                        None => None,
                    },
                    None => Some(SpecValue::ResultVal(Err(None))),
                }
            } else {
                match ok {
                    Some(okt) => match spec_to_component(v, *okt) {
                        Some(x) => Some(SpecValue::ResultVal(Ok(Some(Box::new(x))))),
                        None => None,
                    },
                    None => Some(SpecValue::ResultVal(Ok(None))),
                }
            }
        },
        SpecType::ListOf(inner) => match v {
            SpecJson::Arr(items) => match spec_to_component_seq(items, *inner) {
                Some(vals) => Some(SpecValue::List(vals)),
                None => None,
            },
            _ => None,
        },
        SpecType::TupleOf(types) => match v {
            SpecJson::Arr(items) => if items.len() == types.len() {
                match spec_to_component_tuple(items, types) {
                    Some(vals) => Some(SpecValue::Tuple(vals)),
                    None => None,
                }
            } else {
                None
            },
            _ => None,
        },
        SpecType::Record(fields) => match v {
            SpecJson::Obj(entries) => match spec_to_component_fields(entries, fields) {
                Some(vals) => Some(SpecValue::Record(vals)),
                None => None,
            },
            _ => None,
        },
        SpecType::Variant(cases) => match v {
            SpecJson::Obj(entries) => if entries.len() == 1 {
                spec_to_variant_case(entries[0].0, entries[0].1, cases)
            } else {
                None
            },
            SpecJson::Str(s) => spec_to_variant_bare(s, cases),
            _ => None,
        },
        SpecType::Enum(names) => match v {
            SpecJson::Str(s) => if names.contains(s) {
                Some(SpecValue::Enum(s))
            } else {
                None
            },
            _ => None,
        },
        SpecType::Flags(names) => match spec_flag_words(v) {
            Some(words) => if spec_all_members(words, names) {
                Some(SpecValue::Flags(words))
            } else {
                None
            },
            None => None,
        },
        SpecType::Resource => None,
    }
}

/// Elementwise conversion of a list's items.
pub open spec fn spec_to_component_seq(items: Seq<SpecJson>, inner: SpecType) -> Option<
    Seq<SpecValue>,
>
    decreases inner, items.len(), 1nat,
{
    if items.len() == 0 {
        Some(Seq::empty())
    } else {
        match spec_to_component(items[0], inner) {
            Some(x) => match spec_to_component_seq(items.subrange(1, items.len() as int), inner) {
                Some(rest) => Some(seq![x] + rest),
                None => None,
            },
            None => None,
        }
    }
}

/// Pairwise conversion of a tuple's items against its item shapes.
pub open spec fn spec_to_component_tuple(items: Seq<SpecJson>, types: Seq<SpecType>) -> Option<
    Seq<SpecValue>,
>
    decreases types, 0nat, 1nat,
{
    if types.len() == 0 {
        Some(Seq::empty())
    } else if items.len() == 0 {
        None
    } else {
        match spec_to_component(items[0], types[0]) {
            Some(x) => match spec_to_component_tuple(
                items.subrange(1, items.len() as int),
                types.subrange(1, types.len() as int),
            ) {
                Some(rest) => Some(seq![x] + rest),
                None => None,
            },
            None => None,
        }
    }
}

/// Declared record fields, each looked up by name in the object and
/// converted; a missing field is a failure, extra fields are passed over.
pub open spec fn spec_to_component_fields(
    entries: Seq<(Seq<char>, SpecJson)>,
    fields: Seq<(Seq<char>, SpecType)>,
) -> Option<Seq<(Seq<char>, SpecValue)>>
    decreases fields, 0nat, 1nat,
{
    if fields.len() == 0 {
        Some(Seq::empty())
    } else {
        match spec_obj_get(entries, fields[0].0) {
            None => None,
            Some(fv) => match spec_to_component(fv, fields[0].1) {
                Some(x) => match spec_to_component_fields(
                    entries,
                    fields.subrange(1, fields.len() as int),
                ) {
                    Some(rest) => Some(seq![(fields[0].0, x)] + rest),
                    None => None,
                },
                None => None,
            },
        }
    }
}

/// A single-field object against a variant's cases: the first case with
/// the field's name wins; its payload is converted if one is declared.
pub open spec fn spec_to_variant_case(
    name: Seq<char>,
    payload: SpecJson,
    cases: Seq<(Seq<char>, Option<SpecType>)>,
) -> Option<SpecValue>
    decreases cases, 0nat, 1nat,
{
    if cases.len() == 0 {
        None
    } else if cases[0].0 == name {
        match cases[0].1 {
            Some(pt) => match spec_to_component(payload, pt) {
                Some(x) => Some(SpecValue::Variant(name, Some(Box::new(x)))),
                None => None,
            },
            None => Some(SpecValue::Variant(name, None)),
        }
    } else {
        spec_to_variant_case(name, payload, cases.subrange(1, cases.len() as int))
    }
}

/// A bare string against a variant's cases: it names a payload-less
/// case, which is taken without a payload; naming a payload-carrying
/// case bare is a failure, as is an unknown name.
pub open spec fn spec_to_variant_bare(
    s: Seq<char>,
    cases: Seq<(Seq<char>, Option<SpecType>)>,
) -> Option<SpecValue>
    decreases cases,
{
    if cases.len() == 0 {
        None
    } else if cases[0].0 == s {
        match cases[0].1 {
            None => Some(SpecValue::Variant(s, None)),
            Some(_) => None,
        }
    } else {
        spec_to_variant_bare(s, cases.subrange(1, cases.len() as int))
    }
}

/// JSON rendering of a field or case name: the component separator `-`
/// becomes the JSON-friendly `_`.
pub open spec fn spec_json_name(s: Seq<char>) -> Seq<char> {
    s.map_values(
        |c: char|
            if c == '-' {
                '_'
            } else {
                c
            },
    )
}

/// The JSON number an unsigned 64-bit value reads back as: the signed
/// reading where it fits, the unsigned one above that.
pub open spec fn spec_u64_to_json(u: u64) -> SpecJson {
    if u <= i64::MAX {
        SpecJson::Int(u as i64)
    } else {
        SpecJson::UInt(u)
    }
}

/// Conversion of a component value back to JSON: the structural inverse
/// of `spec_to_component`, up to each shape's own normalization.
pub open spec fn spec_to_json(cv: SpecValue) -> SpecJson
    decreases cv,
{
    match cv {
        SpecValue::Bool(b) => SpecJson::Bool(b),
        SpecValue::S8(n) => SpecJson::Int(n as i64),
        SpecValue::S16(n) => SpecJson::Int(n as i64),
        SpecValue::S32(n) => SpecJson::Int(n as i64),
        SpecValue::S64(n) => SpecJson::Int(n),
        SpecValue::U8(n) => SpecJson::Int(n as i64),
        SpecValue::U16(n) => SpecJson::Int(n as i64),
        SpecValue::U32(n) => SpecJson::Int(n as i64),
        SpecValue::U64(n) => spec_u64_to_json(n),
        SpecValue::Float32(b32) => {
            let wide = spec_f32_to_f64(b32);
            if spec_f64_nonfinite(wide) {
                SpecJson::Null
            } else {
                SpecJson::FloatBits(wide)
            }
        },
        SpecValue::Float64(b) => if spec_f64_nonfinite(b) {
            SpecJson::Null
        } else {
            SpecJson::FloatBits(b)
        },
        SpecValue::Char(c) => SpecJson::Str(seq![c]),
        SpecValue::Text(s) => SpecJson::Str(s),
        SpecValue::OptionVal(o) => match o {
            None => SpecJson::Null,
            Some(x) => spec_to_json(*x),
        },
        SpecValue::ResultVal(res) => match res {
            Ok(Some(x)) => SpecJson::Obj(seq![("ok"@, spec_to_json(*x))]),
            Ok(None) => SpecJson::Obj(seq![("ok"@, SpecJson::Null)]),
            Err(Some(x)) => SpecJson::Obj(seq![("err"@, spec_to_json(*x))]),
            Err(None) => SpecJson::Obj(seq![("err"@, SpecJson::Null)]),
        },
        SpecValue::List(items) => SpecJson::Arr(spec_to_json_seq(items)),
        SpecValue::Tuple(items) => SpecJson::Arr(spec_to_json_seq(items)),
        SpecValue::Record(fields) => SpecJson::Obj(spec_to_json_fields(fields)),
        SpecValue::Variant(name, payload) => match payload {
            Some(x) => SpecJson::Obj(seq![(name, spec_to_json(*x))]),
            None => SpecJson::Str(name),
        },
        SpecValue::Enum(name) => SpecJson::Str(name),
        SpecValue::Flags(names) => SpecJson::Arr(spec_flag_strs(names)),
        SpecValue::Resource => SpecJson::Obj(seq![("resource"@, SpecJson::Str("opaque"@))]),
    }
}

pub open spec fn spec_to_json_seq(items: Seq<SpecValue>) -> Seq<SpecJson>
    decreases items,
{
    if items.len() == 0 {
        Seq::empty()
    } else {
        seq![spec_to_json(items[0])] + spec_to_json_seq(items.subrange(1, items.len() as int))
    }
}

pub open spec fn spec_to_json_fields(fields: Seq<(Seq<char>, SpecValue)>) -> Seq<
    (Seq<char>, SpecJson),
>
    decreases fields,
{
    if fields.len() == 0 {
        Seq::empty()
    } else {
        seq![(spec_json_name(fields[0].0), spec_to_json(fields[0].1))] + spec_to_json_fields(
            fields.subrange(1, fields.len() as int),
        )
    }
}

pub open spec fn spec_flag_strs(names: Seq<Seq<char>>) -> Seq<SpecJson>
    decreases names,
{
    if names.len() == 0 {
        Seq::empty()
    } else {
        seq![SpecJson::Str(names[0])] + spec_flag_strs(names.subrange(1, names.len() as int))
    }
}

/// Looking a name up is unmoved by dropping a prefix of other names.
pub proof fn lemma_obj_get_skip(entries: Seq<(Seq<char>, SpecJson)>, key: Seq<char>, i: int)
    requires
        0 <= i <= entries.len(),
        forall|k: int| 0 <= k < i ==> (#[trigger] entries[k]).0 != key,
    ensures
        spec_obj_get(entries, key) == spec_obj_get(
            entries.subrange(i, entries.len() as int),
            key,
        ),
    decreases i,
{
    if i > 0 {
        assert((entries[0]).0 != key);
        let tail = entries.subrange(1, entries.len() as int);
        assert(spec_obj_get(entries, key) == spec_obj_get(tail, key));
        assert forall|k: int| 0 <= k < i - 1 implies (#[trigger] tail[k]).0 != key by {
            assert(tail[k] == entries[k + 1]);
        }
        lemma_obj_get_skip(tail, key, i - 1);
        assert(tail.subrange(i - 1, tail.len() as int) =~= entries.subrange(
            i,
            entries.len() as int,
        ));
        assert(spec_obj_get(tail, key) == spec_obj_get(
            entries.subrange(i, entries.len() as int),
            key,
        ));
    } else {
        assert(entries.subrange(0, entries.len() as int) =~= entries);
    }
}

/// First field of an object value, by name.
pub fn obj_get<'a>(entries: &'a Vec<JsonField>, key: &str) -> (r: Option<&'a Json>)
    ensures
        match r {
            Some(j) => spec_obj_get(view_json_fields(entries@), key@) == Some(view_json(*j)),
            None => spec_obj_get(view_json_fields(entries@), key@) is None,
        },
{
    proof {
        lemma_view_json_fields(entries@);
    }
    let ghost ev = view_json_fields(entries@);
    let mut i: usize = 0;
    while i < entries.len()
        invariant
            i <= entries.len(),
            ev == view_json_fields(entries@),
            ev.len() == entries@.len(),
            forall|k: int|
                0 <= k < entries@.len() ==> #[trigger] ev[k] == (entries@[k].name@, view_json(
                    entries@[k].value,
                )),
            forall|k: int| 0 <= k < i ==> (#[trigger] ev[k]).0 != key@,
        decreases entries.len() - i,
    {
        if str_eq(entries[i].name.as_str(), key) {
            proof {
                lemma_obj_get_skip(ev, key@, i as int);
                let sub = ev.subrange(i as int, ev.len() as int);
                assert(sub[0] == ev[i as int]);
            }
            return Some(&entries[i].value);
        }
        i += 1;
    }
    proof {
        lemma_obj_get_skip(ev, key@, entries@.len() as int);
        assert(ev.subrange(ev.len() as int, ev.len() as int).len() == 0);
    }
    None
}

/// The JSON renderings of a value sequence, pointwise.
pub proof fn lemma_spec_to_json_seq(s: Seq<SpecValue>)
    ensures
        spec_to_json_seq(s).len() == s.len(),
        forall|i: int| 0 <= i < s.len() ==> spec_to_json_seq(s)[i] == spec_to_json(
            #[trigger] s[i],
        ),
    decreases s,
{
    if s.len() > 0 {
        let tail = s.subrange(1, s.len() as int);
        lemma_spec_to_json_seq(tail);
        assert forall|i: int| 0 <= i < s.len() implies spec_to_json_seq(s)[i] == spec_to_json(
            s[i],
        ) by {
            if i > 0 {
                assert(tail[i - 1] == s[i]);
                assert(spec_to_json_seq(s)[i] == spec_to_json_seq(tail)[i - 1]);
            }
        }
    }
}

/// The JSON renderings of a record's fields, pointwise.
pub proof fn lemma_spec_to_json_fields(s: Seq<(Seq<char>, SpecValue)>)
    ensures
        spec_to_json_fields(s).len() == s.len(),
        forall|i: int|
            0 <= i < s.len() ==> spec_to_json_fields(s)[i] == (spec_json_name(
                (#[trigger] s[i]).0,
            ), spec_to_json(s[i].1)),
    decreases s,
{
    if s.len() > 0 {
        let tail = s.subrange(1, s.len() as int);
        lemma_spec_to_json_fields(tail);
        assert forall|i: int| 0 <= i < s.len() implies spec_to_json_fields(s)[i] == (
        spec_json_name((s[i]).0), spec_to_json(s[i].1)) by {
            if i > 0 {
                assert(tail[i - 1] == s[i]);
                assert(spec_to_json_fields(s)[i] == spec_to_json_fields(tail)[i - 1]);
            }
        }
    }
}

/// The JSON strings of a flag-name list, pointwise.
pub proof fn lemma_spec_flag_strs(s: Seq<Seq<char>>)
    ensures
        spec_flag_strs(s).len() == s.len(),
        forall|i: int| 0 <= i < s.len() ==> spec_flag_strs(s)[i] == SpecJson::Str(
            #[trigger] s[i],
        ),
    decreases s,
{
    if s.len() > 0 {
        let tail = s.subrange(1, s.len() as int);
        lemma_spec_flag_strs(tail);
        assert forall|i: int| 0 <= i < s.len() implies spec_flag_strs(s)[i] == SpecJson::Str(
            s[i],
        ) by {
            if i > 0 {
                assert(tail[i - 1] == s[i]);
                assert(spec_flag_strs(s)[i] == spec_flag_strs(tail)[i - 1]);
            }
        }
    }
}

/// Renders a name with `-` separators turned into `_`.
pub fn json_name(s: &str) -> (r: String)
    ensures
        r@ == spec_json_name(s@),
{
    let v = chars_vec(s);
    let mut out: Vec<char> = Vec::new();
    let mut i: usize = 0;
    while i < v.len()
        invariant
            i <= v.len(),
            v@ == s@,
            out@ == spec_json_name(s@.subrange(0, i as int)),
        decreases v.len() - i,
    {
        let c = v[i];
        let rc: char = if c == '-' {
            '_'
        } else {
            c
        };
        out.push(rc);
        proof {
            assert(out@ =~= spec_json_name(s@.subrange(0, i as int + 1)));
        }
        i += 1;
    }
    proof {
        assert(s@.subrange(0, s@.len() as int) =~= s@);
    }
    string_from_chars(&out)
}

/// Converts a component value back to JSON.
pub fn to_json(cv: &ComponentValue) -> (r: Json)
    ensures
        r@ == spec_to_json(cv@),
    decreases cv,
{
    match cv {
        ComponentValue::Bool(b) => Json::Bool(*b),
        ComponentValue::S8(n) => Json::Num(JsonNum::Int(*n as i64)),
        ComponentValue::S16(n) => Json::Num(JsonNum::Int(*n as i64)),
        ComponentValue::S32(n) => Json::Num(JsonNum::Int(*n as i64)),
        ComponentValue::S64(n) => Json::Num(JsonNum::Int(*n)),
        ComponentValue::U8(n) => Json::Num(JsonNum::Int(*n as i64)),
        ComponentValue::U16(n) => Json::Num(JsonNum::Int(*n as i64)),
        ComponentValue::U32(n) => Json::Num(JsonNum::Int(*n as i64)),
        ComponentValue::U64(n) => {
            if *n <= 0x7FFF_FFFF_FFFF_FFFF {
                Json::Num(JsonNum::Int(*n as i64))
            } else {
                Json::Num(JsonNum::UInt(*n))
            }
        },
        ComponentValue::Float32(b32) => {
            let wide = f32_to_f64_bits(*b32);
            if f64_bits_nonfinite(wide) {
                Json::Null
            } else {
                Json::Num(JsonNum::FloatBits(wide))
            }
        },
        ComponentValue::Float64(b) => {
            if f64_bits_nonfinite(*b) {
                Json::Null
            } else {
                Json::Num(JsonNum::FloatBits(*b))
            }
        },
        ComponentValue::Char(c) => {
            let mut s = String::new();
            push_char(&mut s, *c);
            proof {
                assert(s@ =~= seq![*c]);
            }
            Json::Str(s)
        },
        ComponentValue::Text(s) => Json::Str(s.clone()),
        ComponentValue::OptionVal(o) => match o {
            Option::None => Json::Null,
            Option::Some(x) => to_json(x),
        },
        ComponentValue::ResultVal(res) => {
            let (key, payload): (&str, Option<&Box<ComponentValue>>) = match res {
                Result::Ok(Option::Some(x)) => ("ok", Some(x)),
                Result::Ok(Option::None) => ("ok", None),
                Result::Err(Option::Some(x)) => ("err", Some(x)),
                Result::Err(Option::None) => ("err", None),
            };
            let inner: Json = match payload {
                Option::Some(x) => to_json(x),
                Option::None => Json::Null,
            };
            let mut entries: Vec<JsonField> = Vec::new();
            entries.push(JsonField { name: key.to_owned(), value: inner });
            let r = Json::Obj(entries);
            proof {
                lemma_view_json_fields(entries@);
                assert(view_json_fields(entries@) =~= seq![(key@, view_json(entries@[0].value))]);
                assert(r@ =~= spec_to_json(cv@));
            }
            r
        },
        ComponentValue::List(items) => {
            let out = to_json_vec(items);
            let r = Json::Arr(out);
            proof {
                assert(r@ =~= spec_to_json(cv@));
            }
            r
        },
        ComponentValue::Tuple(items) => {
            let out = to_json_vec(items);
            let r = Json::Arr(out);
            proof {
                assert(r@ =~= spec_to_json(cv@));
            }
            r
        },
        ComponentValue::Record(fields) => {
            let out = to_json_fields(fields);
            let r = Json::Obj(out);
            proof {
                assert(r@ =~= spec_to_json(cv@));
            }
            r
        },
        ComponentValue::Variant(name, payload) => match payload {
            Option::Some(x) => {
                let inner = to_json(x);
                let mut entries: Vec<JsonField> = Vec::new();
                entries.push(JsonField { name: name.clone(), value: inner });
                let r = Json::Obj(entries);
                proof {
                    lemma_view_json_fields(entries@);
                    assert(view_json_fields(entries@) =~= seq![
                        (name@, view_json(entries@[0].value)),
                    ]);
                    assert(r@ =~= spec_to_json(cv@));
                }
                r
            },
            Option::None => Json::Str(name.clone()),
        },
        ComponentValue::Enum(name) => Json::Str(name.clone()),
        ComponentValue::Flags(names) => {
            let mut out: Vec<Json> = Vec::new();
            let mut i: usize = 0;
            while i < names.len()
                invariant
                    i <= names.len(),
                    out@.len() == i as int,
                    forall|k: int|
                        0 <= k < i as int ==> view_json(#[trigger] out@[k]) == SpecJson::Str(
                            names@[k]@,
                        ),
                decreases names.len() - i,
            {
                out.push(Json::Str(names[i].clone()));
                i += 1;
            }
            let r = Json::Arr(out);
            proof {
                lemma_view_json_seq(out@);
                lemma_view_names(names@);
                lemma_spec_flag_strs(view_names(names@));
                assert forall|k: int| 0 <= k < out@.len() implies view_json_seq(out@)[k]
                    == spec_flag_strs(view_names(names@))[k] by {
                    assert(view_json(out@[k]) == SpecJson::Str(names@[k]@));
                    assert(view_names(names@)[k] == names@[k]@);
                }
                assert(view_json_seq(out@) =~= spec_flag_strs(view_names(names@)));
                assert(r@ =~= spec_to_json(cv@));
            }
            r
        },
        ComponentValue::Resource => {
            let mut entries: Vec<JsonField> = Vec::new();
            entries.push(
                JsonField { name: "resource".to_owned(), value: Json::Str("opaque".to_owned()) },
            );
            let r = Json::Obj(entries);
            proof {
                lemma_view_json_fields(entries@);
                assert(view_json_fields(entries@) =~= seq![
                    ("resource"@, view_json(entries@[0].value)),
                ]);
                assert(r@ =~= spec_to_json(cv@));
            }
            r
        },
    }
}

fn to_json_vec(items: &Vec<ComponentValue>) -> (r: Vec<Json>)
    ensures
        view_json_seq(r@) == spec_to_json_seq(view_value_seq(items@)),
    decreases items,
{
    let mut out: Vec<Json> = Vec::new();
    let mut i: usize = 0;
    while i < items.len()
        invariant
            i <= items.len(),
            out@.len() == i as int,
            forall|k: int| 0 <= k < i as int ==> view_json(#[trigger] out@[k]) == spec_to_json(
                view_value(items@[k]),
            ),
        decreases items.len() - i,
    {
        let j = to_json(&items[i]);
        out.push(j);
        i += 1;
    }
    proof {
        lemma_view_json_seq(out@);
        lemma_view_value_seq(items@);
        lemma_spec_to_json_seq(view_value_seq(items@));
        assert forall|k: int| 0 <= k < out@.len() implies view_json_seq(out@)[k]
            == spec_to_json_seq(view_value_seq(items@))[k] by {
            assert(view_json(out@[k]) == spec_to_json(view_value(items@[k])));
            assert(view_value_seq(items@)[k] == view_value(items@[k]));
        }
        assert(view_json_seq(out@) =~= spec_to_json_seq(view_value_seq(items@)));
    }
    out
}

fn to_json_fields(fields: &Vec<NamedVal>) -> (r: Vec<JsonField>)
    ensures
        view_json_fields(r@) == spec_to_json_fields(view_named_vals(fields@)),
    decreases fields,
{
    let mut out: Vec<JsonField> = Vec::new();
    let mut i: usize = 0;
    while i < fields.len()
        invariant
            i <= fields.len(),
            out@.len() == i as int,
            forall|k: int|
                0 <= k < i as int ==> (#[trigger] out@[k]).name@ == spec_json_name(
                    fields@[k].name@,
                ) && view_json(out@[k].value) == spec_to_json(view_value(fields@[k].value)),
        decreases fields.len() - i,
    {
        let name = json_name(fields[i].name.as_str());
        let value = to_json(&fields[i].value);
        out.push(JsonField { name, value });
        i += 1;
    }
    proof {
        lemma_view_json_fields(out@);
        lemma_view_named_vals(fields@);
        lemma_spec_to_json_fields(view_named_vals(fields@));
        assert forall|k: int| 0 <= k < out@.len() implies view_json_fields(out@)[k]
            == spec_to_json_fields(view_named_vals(fields@))[k] by {
            assert(out@[k].name@ == spec_json_name(fields@[k].name@));
            assert(view_json(out@[k].value) == spec_to_json(view_value(fields@[k].value)));
            assert(view_named_vals(fields@)[k] == (fields@[k].name@, view_value(
                fields@[k].value,
            )));
        }
        assert(view_json_fields(out@) =~= spec_to_json_fields(view_named_vals(fields@)));
    }
    out
}

/// A conversion failure, with the offending input named.
#[derive(Debug)]
pub struct MarshalError {
    pub message: String,
}

fn merr(m: &str) -> (r: MarshalError)
    ensures
        r.message@ == m@,
{
    MarshalError { message: m.to_owned() }
}

pub fn merr_with(m: &str, detail: &str) -> (r: MarshalError)
    ensures
        r.message@ == m@ + detail@,
{
    MarshalError { message: m.to_owned().concat(detail) }
}

/// The signed 64-bit reading of a JSON value.
pub fn json_as_i64(v: &Json) -> (r: Option<i64>)
    ensures
        r == spec_json_as_i64(v@),
{
    match v {
        Json::Num(JsonNum::Int(i)) => Some(*i),
        Json::Str(s) => parse_i64(s.as_str()),
        Json::Bool(b) => Some(
            if *b {
                1
            } else {
                0
            },
        ),
        _ => None,
    }
}

/// The unsigned 64-bit reading of a JSON value.
pub fn json_as_u64(v: &Json) -> (r: Option<u64>)
    ensures
        r == spec_json_as_u64(v@),
{
    match v {
        Json::Num(JsonNum::Int(i)) => if *i >= 0 {
            Some(*i as u64)
        } else {
            None
        },
        Json::Num(JsonNum::UInt(u)) => Some(*u),
        Json::Str(s) => parse_u64(s.as_str()),
        Json::Bool(b) => Some(
            if *b {
                1
            } else {
                0
            },
        ),
        _ => None,
    }
}

/// The boolean reading of a JSON value.
pub fn json_as_bool(v: &Json) -> (r: Option<bool>)
    ensures
        r == spec_json_as_bool(v@),
{
    match v {
        Json::Bool(b) => Some(*b),
        Json::Num(JsonNum::Int(i)) => Some(*i != 0),
        Json::Num(JsonNum::UInt(u)) => Some(*u <= 0x7FFF_FFFF_FFFF_FFFF && *u != 0),
        Json::Num(JsonNum::FloatBits(_)) => Some(false),
        Json::Str(s) => {
            let l = ascii_lower(s.as_str());
            let ls = l.as_str();
            if str_eq(ls, "true") || str_eq(ls, "1") || str_eq(ls, "yes") {
                Some(true)
            } else if str_eq(ls, "false") || str_eq(ls, "0") || str_eq(ls, "no") || str_eq(
                ls,
                "",
            ) {
                Some(false)
            } else {
                None
            }
        },
        _ => None,
    }
}

/// The exact binary64 reading of a JSON value.
pub fn json_as_f64(v: &Json) -> (r: Option<u64>)
    ensures
        r == spec_json_as_f64(v@),
{
    match v {
        Json::Num(JsonNum::FloatBits(b)) => Some(*b),
        Json::Num(JsonNum::Int(i)) => {
            if *i < 0 {
                let mag: u64 = if *i == i64::MIN {
                    0x8000_0000_0000_0000
                } else {
                    (-*i) as u64
                };
                exact_f64_bits(mag, true)
            } else {
                exact_f64_bits(*i as u64, false)
            }
        },
        Json::Num(JsonNum::UInt(u)) => exact_f64_bits(*u, false),
        Json::Bool(b) => Some(
            if *b {
                0x3FF0_0000_0000_0000
            } else {
                0
            },
        ),
        _ => None,
    }
}

/// The textual reading of a JSON value.
pub fn json_as_text(v: &Json) -> (r: Option<String>)
    ensures
        match r {
            Some(s) => spec_json_as_text(v@) == Some(s@),
            None => spec_json_as_text(v@) is None,
        },
{
    match v {
        Json::Str(s) => Some(s.clone()),
        Json::Num(JsonNum::Int(i)) => Some(format_i64(*i)),
        Json::Num(JsonNum::UInt(u)) => Some(format_u64(*u)),
        Json::Bool(b) => Some(
            if *b {
                "true".to_owned()
            } else {
                "false".to_owned()
            },
        ),
        Json::Null => Some("".to_owned()),
        _ => None,
    }
}

/// Elementwise conversion succeeds exactly when every element converts,
/// and then gives the elements' conversions in order.
pub proof fn lemma_to_component_seq(items: Seq<SpecJson>, inner: SpecType)
    ensures
        match spec_to_component_seq(items, inner) {
            Some(vals) => vals.len() == items.len() && forall|i: int|
                0 <= i < items.len() ==> spec_to_component(#[trigger] items[i], inner) == Some(
                    vals[i],
                ),
            None => exists|i: int|
                0 <= i < items.len() && spec_to_component(#[trigger] items[i], inner) is None,
        },
    decreases items.len(),
{
    if items.len() > 0 {
        let tail = items.subrange(1, items.len() as int);
        lemma_to_component_seq(tail, inner);
        assert(forall|i: int| 0 <= i < tail.len() ==> #[trigger] tail[i] == items[i + 1]);
        if spec_to_component(items[0], inner) is None {
            assert(spec_to_component(items[0], inner) is None);
        } else {
            match spec_to_component_seq(tail, inner) {
                Some(rest) => {
                    let x = spec_to_component(items[0], inner)->Some_0;
                    let vals = seq![x] + rest;
                    assert(spec_to_component_seq(items, inner) == Some(vals));
                    assert forall|i: int|
                        0 <= i < items.len() implies spec_to_component(
                        #[trigger] items[i],
                        inner,
                    ) == Some(vals[i]) by {
                        if i > 0 {
                            assert(tail[i - 1] == items[i]);
                            assert(vals[i] == rest[i - 1]);
                        }
                    }
                },
                None => {
                    let k = choose|k: int|
                        0 <= k < tail.len() && spec_to_component(#[trigger] tail[k], inner)
                            is None;
                    assert(spec_to_component(items[k + 1], inner) is None);
                },
            }
        }
    }
}

/// Pairwise conversion of equal-length item and shape lists.
pub proof fn lemma_to_component_tuple(items: Seq<SpecJson>, types: Seq<SpecType>)
    requires
        items.len() == types.len(),
    ensures
        match spec_to_component_tuple(items, types) {
            Some(vals) => vals.len() == items.len() && forall|i: int|
                0 <= i < items.len() ==> spec_to_component(#[trigger] items[i], types[i]) == Some(
                    vals[i],
                ),
            None => exists|i: int|
                0 <= i < items.len() && spec_to_component(#[trigger] items[i], types[i]) is None,
        },
    decreases types.len(),
{
    if types.len() > 0 {
        let ti = items.subrange(1, items.len() as int);
        let tt = types.subrange(1, types.len() as int);
        lemma_to_component_tuple(ti, tt);
        assert(forall|i: int| 0 <= i < ti.len() ==> #[trigger] ti[i] == items[i + 1]);
        assert(forall|i: int| 0 <= i < tt.len() ==> #[trigger] tt[i] == types[i + 1]);
        if spec_to_component(items[0], types[0]) is None {
            assert(spec_to_component(items[0], types[0]) is None);
        } else {
            match spec_to_component_tuple(ti, tt) {
                Some(rest) => {
                    let x = spec_to_component(items[0], types[0])->Some_0;
                    let vals = seq![x] + rest;
                    assert(spec_to_component_tuple(items, types) == Some(vals));
                    assert forall|i: int|
                        0 <= i < items.len() implies spec_to_component(
                        #[trigger] items[i],
                        types[i],
                    ) == Some(vals[i]) by {
                        if i > 0 {
                            assert(ti[i - 1] == items[i]);
                            assert(tt[i - 1] == types[i]);
                            assert(vals[i] == rest[i - 1]);
                        }
                    }
                },
                None => {
                    let k = choose|k: int|
                        0 <= k < ti.len() && spec_to_component(#[trigger] ti[k], tt[k]) is None;
                    assert(spec_to_component(items[k + 1], types[k + 1]) is None);
                },
            }
        }
    }
}

/// One declared record field converts when it is present in the object
/// and its value converts under the declared shape.
pub open spec fn spec_field_ok(
    entries: Seq<(Seq<char>, SpecJson)>,
    f: (Seq<char>, SpecType),
) -> bool {
    match spec_obj_get(entries, f.0) {
        None => false,
        Some(fv) => spec_to_component(fv, f.1) is Some,
    }
}

pub open spec fn spec_field_val(
    entries: Seq<(Seq<char>, SpecJson)>,
    f: (Seq<char>, SpecType),
) -> (Seq<char>, SpecValue) {
    (f.0, spec_to_component(spec_obj_get(entries, f.0)->Some_0, f.1)->Some_0)
}

/// Record conversion succeeds exactly when every declared field does,
/// and then lists the fields in declaration order.
pub proof fn lemma_to_component_fields(
    entries: Seq<(Seq<char>, SpecJson)>,
    fields: Seq<(Seq<char>, SpecType)>,
)
    ensures
        match spec_to_component_fields(entries, fields) {
            Some(vals) => vals.len() == fields.len() && forall|i: int|
                0 <= i < fields.len() ==> spec_field_ok(entries, #[trigger] fields[i]) && vals[i]
                    == spec_field_val(entries, fields[i]),
            None => exists|i: int|
                0 <= i < fields.len() && !spec_field_ok(entries, #[trigger] fields[i]),
        },
    decreases fields.len(),
{
    if fields.len() > 0 {
        let tail = fields.subrange(1, fields.len() as int);
        lemma_to_component_fields(entries, tail);
        assert(forall|i: int| 0 <= i < tail.len() ==> #[trigger] tail[i] == fields[i + 1]);
        if !spec_field_ok(entries, fields[0]) {
            assert(!spec_field_ok(entries, fields[0]));
        } else {
            match spec_to_component_fields(entries, tail) {
                Some(rest) => {
                    let x = spec_field_val(entries, fields[0]);
                    let vals = seq![x] + rest;
                    assert(spec_to_component_fields(entries, fields) == Some(vals));
                    assert forall|i: int|
                        0 <= i < fields.len() implies spec_field_ok(
                        entries,
                        #[trigger] fields[i],
                    ) && vals[i] == spec_field_val(entries, fields[i]) by {
                        if i > 0 {
                            assert(tail[i - 1] == fields[i]);
                            assert(vals[i] == rest[i - 1]);
                        }
                    }
                },
                None => {
                    let k = choose|k: int|
                        0 <= k < tail.len() && !spec_field_ok(entries, #[trigger] tail[k]);
                    assert(!spec_field_ok(entries, fields[k + 1]));
                },
            }
        }
    }
}

/// The index of the first declared field that is missing or fails to
/// convert; the field count when every one converts.
pub open spec fn spec_first_field_fail(
    entries: Seq<(Seq<char>, SpecJson)>,
    fields: Seq<(Seq<char>, SpecType)>,
) -> int
    decreases fields.len(),
{
    if fields.len() == 0 {
        0
    } else if !spec_field_ok(entries, fields[0]) {
        0
    } else {
        1 + spec_first_field_fail(entries, fields.subrange(1, fields.len() as int))
    }
}

/// When every field before `i` converts and the one at `i` does not,
/// `i` is the first failing one.
pub proof fn lemma_first_field_fail(
    entries: Seq<(Seq<char>, SpecJson)>,
    fields: Seq<(Seq<char>, SpecType)>,
    i: int,
)
    requires
        0 <= i < fields.len(),
        forall|k: int| 0 <= k < i ==> spec_field_ok(entries, #[trigger] fields[k]),
        !spec_field_ok(entries, fields[i]),
    ensures
        spec_first_field_fail(entries, fields) == i,
    decreases i,
{
    let tail = fields.subrange(1, fields.len() as int);
    if i > 0 {
        assert(spec_field_ok(entries, fields[0]));
        assert(forall|k: int| 0 <= k < tail.len() ==> #[trigger] tail[k] == fields[k + 1]);
        assert(tail[i - 1] == fields[i]);
        lemma_first_field_fail(entries, tail, i - 1);
    }
}

/// Scanning a variant's cases is unmoved by dropping unmatched ones.
pub proof fn lemma_variant_case_skip(
    name: Seq<char>,
    payload: SpecJson,
    cases: Seq<(Seq<char>, Option<SpecType>)>,
    i: int,
)
    requires
        0 <= i <= cases.len(),
        forall|k: int| 0 <= k < i ==> (#[trigger] cases[k]).0 != name,
    ensures
        spec_to_variant_case(name, payload, cases) == spec_to_variant_case(
            name,
            payload,
            cases.subrange(i, cases.len() as int),
        ),
    decreases i,
{
    if i > 0 {
        assert((cases[0]).0 != name);
        let tail = cases.subrange(1, cases.len() as int);
        assert forall|k: int| 0 <= k < i - 1 implies (#[trigger] tail[k]).0 != name by {
            assert(tail[k] == cases[k + 1]);
        }
        lemma_variant_case_skip(name, payload, tail, i - 1);
        assert(tail.subrange(i - 1, tail.len() as int) =~= cases.subrange(
            i,
            cases.len() as int,
        ));
    } else {
        assert(cases.subrange(0, cases.len() as int) =~= cases);
    }
}

/// The same for a bare string against the cases.
pub proof fn lemma_variant_bare_skip(
    s: Seq<char>,
    cases: Seq<(Seq<char>, Option<SpecType>)>,
    i: int,
)
    requires
        0 <= i <= cases.len(),
        forall|k: int| 0 <= k < i ==> (#[trigger] cases[k]).0 != s,
    ensures
        spec_to_variant_bare(s, cases) == spec_to_variant_bare(
            s,
            cases.subrange(i, cases.len() as int),
        ),
    decreases i,
{
    if i > 0 {
        assert((cases[0]).0 != s);
        let tail = cases.subrange(1, cases.len() as int);
        assert forall|k: int| 0 <= k < i - 1 implies (#[trigger] tail[k]).0 != s by {
            assert(tail[k] == cases[k + 1]);
        }
        lemma_variant_bare_skip(s, tail, i - 1);
        assert(tail.subrange(i - 1, tail.len() as int) =~= cases.subrange(
            i,
            cases.len() as int,
        ));
    } else {
        assert(cases.subrange(0, cases.len() as int) =~= cases);
    }
}

fn is_blank(c: char) -> (r: bool)
    ensures
        r == spec_is_blank(c),
{
    c == ' ' || c == '\t' || c == '\n' || c == '\r'
}

/// The blank-trimmed middle of a character range.
fn trim_range(v: &Vec<char>, from: usize, to: usize) -> (r: Vec<char>)
    requires
        from <= to <= v@.len(),
    ensures
        r@ == spec_trim(v@.subrange(from as int, to as int)),
{
    let mut a = from;
    let mut b = to;
    while a < b && (is_blank(v[a]) || is_blank(v[b - 1]))
        invariant
            from <= a <= b <= to <= v@.len(),
            spec_trim(v@.subrange(from as int, to as int)) == spec_trim(
                v@.subrange(a as int, b as int),
            ),
        decreases b - a,
    {
        if is_blank(v[a]) {
            proof {
                let cur = v@.subrange(a as int, b as int);
                assert(cur.drop_first() =~= v@.subrange(a as int + 1, b as int));
            }
            a += 1;
        } else {
            proof {
                let cur = v@.subrange(a as int, b as int);
                assert(cur.drop_last() =~= v@.subrange(a as int, b as int - 1));
            }
            b -= 1;
        }
    }
    let mut out: Vec<char> = Vec::new();
    let mut i = a;
    while i < b
        invariant
            a <= i <= b <= v@.len(),
            out@ =~= v@.subrange(a as int, i as int),
        decreases b - i,
    {
        out.push(v[i]);
        proof {
            assert(out@ =~= v@.subrange(a as int, i as int + 1));
        }
        i += 1;
    }
    proof {
        assert(out@ =~= v@.subrange(a as int, b as int));
    }
    out
}

/// Splits a flags string at commas, trimming each piece.
fn split_commas(s: &str) -> (r: Vec<String>)
    ensures
        view_names(r@) == spec_split_commas(s@),
{
    let v = chars_vec(s);
    let mut out: Vec<String> = Vec::new();
    let mut start: usize = 0;
    let mut i: usize = 0;
    proof {
        assert(s@.subrange(0, s@.len() as int) =~= s@);
        assert(view_names(out@) + spec_split_commas(s@) =~= spec_split_commas(s@));
    }
    while i < v.len()
        invariant
            start <= i <= v@.len(),
            v@ == s@,
            forall|k: int| start <= k < i ==> v@[k] != ',',
            spec_split_commas(s@) =~= view_names(out@) + spec_split_commas(
                s@.subrange(start as int, s@.len() as int),
            ),
        decreases v.len() - i,
    {
        if v[i] == ',' {
            let piece = trim_range(&v, start, i);
            let ps = string_from_chars(&piece);
            proof {
                let sub = s@.subrange(start as int, s@.len() as int);
                lemma_first_comma(sub);
                let fc = spec_first_comma(sub);
                assert(forall|k: int|
                    0 <= k < sub.len() ==> #[trigger] sub[k] == s@[start + k]);
                assert(sub[i - start as int] == ',');
                if fc < i - start as int {
                    assert(sub[fc as int] != ',');
                    assert(false);
                }
                if fc > i - start as int {
                    assert(false);
                }
                assert(fc == i - start as int);
                assert(sub.subrange(0, fc as int) =~= s@.subrange(start as int, i as int));
                assert(sub.subrange(fc as int + 1, sub.len() as int) =~= s@.subrange(
                    i as int + 1,
                    s@.len() as int,
                ));
                lemma_view_names_push(out@, ps);
                assert(spec_split_commas(s@) =~= view_names(out@.push(ps))
                    + spec_split_commas(s@.subrange(i as int + 1, s@.len() as int)));
            }
            out.push(ps);
            start = i + 1;
        }
        i += 1;
    }
    let piece = trim_range(&v, start, v.len());
    let ps = string_from_chars(&piece);
    proof {
        let sub = s@.subrange(start as int, s@.len() as int);
        lemma_first_comma(sub);
        let fc = spec_first_comma(sub);
        assert(forall|k: int| 0 <= k < sub.len() ==> #[trigger] sub[k] == s@[start + k]);
        if fc < sub.len() {
            assert(sub[fc as int] == ',');
            assert(false);
        }
        assert(spec_split_commas(sub) =~= seq![spec_trim(sub)]);
        lemma_view_names_push(out@, ps);
        assert(view_names(out@.push(ps)) =~= spec_split_commas(s@));
    }
    out.push(ps);
    out
}

/// The flag words a JSON value carries, or a failure on other shapes.
fn flag_words(v: &Json) -> (r: Result<Vec<String>, MarshalError>)
    ensures
        match r {
            Ok(ws) => spec_flag_words(v@) == Some(view_names(ws@)),
            Err(_) => spec_flag_words(v@) is None,
        },
{
    match v {
        Json::Arr(items) => {
            let mut out: Vec<String> = Vec::new();
            let mut i: usize = 0;
            proof {
                lemma_view_json_seq(items@);
                let full = view_json_seq(items@);
                assert(full.subrange(0, items@.len() as int) =~= full);
                assert(view_names(out@) + spec_flag_words_arr(full) =~= spec_flag_words_arr(
                    full,
                ));
            }
            while i < items.len()
                invariant
                    i <= items@.len(),
                    view_json_seq(items@).len() == items@.len(),
                    forall|k: int|
                        0 <= k < items@.len() ==> #[trigger] view_json_seq(items@)[k]
                            == view_json(items@[k]),
                    spec_flag_words_arr(view_json_seq(items@)) =~= view_names(out@)
                        + spec_flag_words_arr(
                        view_json_seq(items@).subrange(i as int, items@.len() as int),
                    ),
                decreases items.len() - i,
            {
                let ghost full = view_json_seq(items@);
                let ghost sub = full.subrange(i as int, items@.len() as int);
                proof {
                    assert(sub[0] == full[i as int]);
                    assert(sub.drop_first() =~= full.subrange(i as int + 1, items@.len() as int));
                }
                match &items[i] {
                    Json::Str(w) => {
                        let ws = w.clone();
                        proof {
                            lemma_view_names_push(out@, ws);
                            assert(spec_flag_words_arr(full) =~= view_names(out@.push(ws))
                                + spec_flag_words_arr(sub.drop_first()));
                        }
                        out.push(ws);
                    },
                    _ => {
                        proof {
                            assert(spec_flag_words_arr(full) =~= view_names(out@)
                                + spec_flag_words_arr(sub.drop_first()));
                        }
                    },
                }
                i += 1;
            }
            proof {
                let full = view_json_seq(items@);
                assert(full.subrange(items@.len() as int, items@.len() as int).len() == 0);
                assert(view_names(out@) + Seq::<Seq<char>>::empty() =~= view_names(out@));
            }
            Ok(out)
        },
        Json::Str(s) => Ok(split_commas(s.as_str())),
        _ => Err(merr("expected array or string for flags type")),
    }
}

/// Membership of a word in a declared name list.
pub fn name_listed(names: &Vec<String>, w: &str) -> (r: bool)
    ensures
        r == view_names(names@).contains(w@),
{
    proof {
        lemma_view_names(names@);
    }
    let mut i: usize = 0;
    while i < names.len()
        invariant
            i <= names@.len(),
            view_names(names@).len() == names@.len(),
            forall|k: int|
                0 <= k < names@.len() ==> #[trigger] view_names(names@)[k] == names@[k]@,
            forall|k: int| 0 <= k < i ==> #[trigger] view_names(names@)[k] != w@,
        decreases names.len() - i,
    {
        if str_eq(names[i].as_str(), w) {
            proof {
                assert(view_names(names@)[i as int] == w@);
            }
            return true;
        }
        i += 1;
    }
    proof {
        assert forall|k: int| 0 <= k < view_names(names@).len() implies view_names(names@)[k]
            != w@ by {}
    }
    false
}

/// One side of a fallible result: with a declared payload shape the
/// value converts under it; without one the value is passed over.
pub open spec fn spec_result_side(
    pv: SpecJson,
    side: Option<Box<SpecType>>,
    is_ok: bool,
) -> Option<SpecValue> {
    match side {
        Some(st) => match spec_to_component(pv, *st) {
            Some(x) => Some(
                SpecValue::ResultVal(
                    if is_ok {
                        Ok(Some(Box::new(x)))
                    } else {
                        Err(Some(Box::new(x)))
                    },
                ),
            ),
            None => None,
        },
        None => Some(
            SpecValue::ResultVal(
                if is_ok {
                    Ok(None)
                } else {
                    Err(None)
                },
            ),
        ),
    }
}

/// Converts a JSON value to a component value under the expected shape.
#[verifier::rlimit(100)]
pub fn to_component(v: &Json, t: &StructuralType) -> (r: Result<ComponentValue, MarshalError>)
    ensures
        r is Ok ==> spec_to_component(v@, t@) == Some((r->Ok_0)@),
        r is Err ==> spec_to_component(v@, t@) is None,
    decreases t, 0nat,
{
    match t {
        StructuralType::Bool => return match json_as_bool(v) {
            Some(b) => {
                proof {
                    assert(spec_to_component(v@, t@) == Some(SpecValue::Bool(b)));
                }
                Ok(ComponentValue::Bool(b))
            },
            None => Err(merr("cannot convert value to bool")),
        },
        StructuralType::S8 => return match json_as_i64(v) {
            Some(n) => if -128 <= n && n <= 127 {
                proof {
                    assert(spec_to_component(v@, t@) == Some(SpecValue::S8(n as i8)));
                }
                Ok(ComponentValue::S8(n as i8))
            } else {
                Err(merr("integer out of range for s8"))
            },
            None => Err(merr("cannot convert value to integer")),
        },
        StructuralType::S16 => return match json_as_i64(v) {
            Some(n) => if -32768 <= n && n <= 32767 {
                proof {
                    assert(spec_to_component(v@, t@) == Some(SpecValue::S16(n as i16)));
                }
                Ok(ComponentValue::S16(n as i16))
            } else {
                Err(merr("integer out of range for s16"))
            },
            None => Err(merr("cannot convert value to integer")),
        },
        StructuralType::S32 => return match json_as_i64(v) {
            Some(n) => if -0x8000_0000 <= n && n <= 0x7FFF_FFFF {
                proof {
                    assert(spec_to_component(v@, t@) == Some(SpecValue::S32(n as i32)));
                }
                Ok(ComponentValue::S32(n as i32))
            } else {
                Err(merr("integer out of range for s32"))
            },
            None => Err(merr("cannot convert value to integer")),
        },
        StructuralType::S64 => return match json_as_i64(v) {
            Some(n) => {
                proof {
                    assert(spec_to_component(v@, t@) == Some(SpecValue::S64(n)));
                }
                Ok(ComponentValue::S64(n))
            },
            None => Err(merr("cannot convert value to integer")),
        },
        StructuralType::U8 => return match json_as_u64(v) {
            Some(n) => if n <= 255 {
                proof {
                    assert(spec_to_component(v@, t@) == Some(SpecValue::U8(n as u8)));
                }
                Ok(ComponentValue::U8(n as u8))
            } else {
                Err(merr("integer out of range for u8"))
            },
            None => Err(merr("cannot convert value to unsigned integer")),
        },
        StructuralType::U16 => return match json_as_u64(v) {
            Some(n) => if n <= 65535 {
                proof {
                    assert(spec_to_component(v@, t@) == Some(SpecValue::U16(n as u16)));
                }
                Ok(ComponentValue::U16(n as u16))
            } else {
                Err(merr("integer out of range for u16"))
            },
            None => Err(merr("cannot convert value to unsigned integer")),
        },
        StructuralType::U32 => return match json_as_u64(v) {
            Some(n) => if n <= 0xFFFF_FFFF {
                proof {
                    assert(spec_to_component(v@, t@) == Some(SpecValue::U32(n as u32)));
                }
                Ok(ComponentValue::U32(n as u32))
            } else {
                Err(merr("integer out of range for u32"))
            },
            None => Err(merr("cannot convert value to unsigned integer")),
        },
        StructuralType::U64 => return match json_as_u64(v) {
            Some(n) => {
                proof {
                    assert(spec_to_component(v@, t@) == Some(SpecValue::U64(n)));
                }
                Ok(ComponentValue::U64(n))
            },
            None => Err(merr("cannot convert value to unsigned integer")),
        },
        StructuralType::Float32 => return match json_as_f64(v) {
            Some(b) => match f64_to_f32_exact(b) {
                Some(b32) => {
                    proof {
                        assert(spec_to_component(v@, t@) == Some(SpecValue::Float32(b32)));
                    }
                    Ok(ComponentValue::Float32(b32))
                },
                None => Err(merr("value is not exactly representable as float32")),
            },
            None => Err(merr("cannot convert value to float")),
        },
        StructuralType::Float64 => return match json_as_f64(v) {
            Some(b) => {
                proof {
                    assert(spec_to_component(v@, t@) == Some(SpecValue::Float64(b)));
                }
                Ok(ComponentValue::Float64(b))
            },
            None => Err(merr("cannot convert value to float")),
        },
        StructuralType::Char => return match v {
            Json::Str(s) => match first_char(s.as_str()) {
                Some(c) => {
                    let r = char_value(c);
                    proof {
                        assert(spec_to_component(v@, t@) == Some(r@));
                    }
                    Ok(r)
                },
                None => Err(merr("empty string cannot be converted to char")),
            },
            _ => Err(merr("cannot convert value to char")),
        },
        StructuralType::Text => return match json_as_text(v) {
            Some(s) => {
                proof {
                    assert(spec_to_component(v@, t@) == Some(SpecValue::Text(s@)));
                }
                Ok(ComponentValue::Text(s))
            },
            None => Err(merr("cannot convert value to string")),
        },
        StructuralType::OptionOf(inner) => {
            let is_absent = match v {
                Json::Null => true,
                Json::Str(s) => s.as_str().is_empty(),
                _ => false,
            };
            proof {
                reveal_strlit("");
                if is_absent {
                    match v {
                        Json::Str(s) => {
                            assert(s@ =~= ""@);
                        },
                        _ => {},
                    }
                } else {
                    match v {
                        Json::Str(s) => {
                            assert(s@ != ""@);
                        },
                        _ => {},
                    }
                }
            }
            if is_absent {
                proof {
                    assert(spec_to_component(v@, t@) == Some(SpecValue::OptionVal(None)));
                }
                return Ok(ComponentValue::OptionVal(None));
            } else {
                match to_component(v, inner) {
                    Ok(x) => {
                        let r = ComponentValue::OptionVal(Some(Box::new(x)));
                        proof {
                            assert(spec_to_component(v@, t@) == Some(r@));
                        }
                        return Ok(r);
                    },
                    Err(e) => return Err(e),
                }
            }
        },
        StructuralType::ResultOf(ok, err) => {
            let explicit_ok: Option<&Json> = match v {
                Json::Obj(entries) => obj_get(entries, "ok"),
                _ => None,
            };
            match explicit_ok {
                Some(ov) => {
                    let r = marshal_result_side(ov, ok, true);
                    proof {
                        match &r {
                            Ok(cv) => {
                                assert(spec_to_component(v@, t@) == Some(cv@));
                            },
                            Err(_) => {
                                assert(spec_to_component(v@, t@) is None);
                            },
                        }
                    }
                    return r;
                },
                None => {
                    let explicit_err: Option<&Json> = match v {
                        Json::Obj(entries) => obj_get(entries, "err"),
                        _ => None,
                    };
                    match explicit_err {
                        Some(ev) => {
                            let r = marshal_result_side(ev, err, false);
                            proof {
                                match &r {
                                    Ok(cv) => {
                                        assert(spec_to_component(v@, t@) == Some(cv@));
                                    },
                                    Err(_) => {
                                        assert(spec_to_component(v@, t@) is None);
                                    },
                                }
                            }
                            return r;
                        },
                        None => {
                            let r = marshal_result_side(v, ok, true);
                            proof {
                                match &r {
                                    Ok(cv) => {
                                        assert(spec_to_component(v@, t@) == Some(cv@));
                                    },
                                    Err(_) => {
                                        assert(spec_to_component(v@, t@) is None);
                                    },
                                }
                            }
                            return r;
                        },
                    }
                },
            }
        },
        StructuralType::ListOf(inner) => return match v {
            Json::Arr(items) => match marshal_seq(items, inner) {
                Ok(vs) => {
                    let r = ComponentValue::List(vs);
                    proof {
                        assert(spec_to_component(v@, t@) == Some(r@));
                    }
                    Ok(r)
                },
                Err(e) => Err(e),
            },
            _ => Err(merr("expected array for list type")),
        },
        StructuralType::TupleOf(types) => return match v {
            Json::Arr(items) => {
                proof {
                    lemma_view_json_seq(items@);
                    lemma_view_shape_seq(types@);
                }
                if items.len() == types.len() {
                    match marshal_tuple(items, types) {
                        Ok(vs) => {
                            let r = ComponentValue::Tuple(vs);
                            proof {
                                assert(spec_to_component(v@, t@) == Some(r@));
                            }
                            Ok(r)
                        },
                        Err(e) => Err(e),
                    }
                } else {
                    Err(merr("tuple length mismatch"))
                }
            },
            _ => Err(merr("expected array for tuple type")),
        },
        StructuralType::Record(fields) => return match v {
            Json::Obj(entries) => match marshal_fields(entries, fields) {
                Ok(nvs) => {
                    let r = ComponentValue::Record(nvs);
                    proof {
                        assert(spec_to_component(v@, t@) == Some(r@));
                    }
                    Ok(r)
                },
                Err(e) => Err(e),
            },
            _ => Err(merr("expected object for record type")),
        },
        StructuralType::Variant(cases) => match v {
            Json::Obj(entries) => {
                proof {
                    lemma_view_json_fields(entries@);
                }
                if entries.len() == 1 {
                    let r = marshal_case(entries[0].name.as_str(), &entries[0].value, cases);
                    proof {
                        match &r {
                            Ok(cv) => {
                                assert(spec_to_component(v@, t@) == Some(cv@));
                            },
                            Err(_) => {
                                assert(spec_to_component(v@, t@) is None);
                            },
                        }
                    }
                    return r;
                } else {
                    return Err(merr("cannot convert value to variant"));
                }
            },
            Json::Str(s) => {
                let r = marshal_bare(s.as_str(), cases);
                proof {
                    match &r {
                        Ok(cv) => {
                            assert(spec_to_component(v@, t@) == Some(cv@));
                        },
                        Err(_) => {
                            assert(spec_to_component(v@, t@) is None);
                        },
                    }
                }
                return r;
            },
            _ => return Err(merr("cannot convert value to variant")),
        },
        StructuralType::Enum(names) => return match v {
            Json::Str(s) => if name_listed(names, s.as_str()) {
                proof {
                    assert(spec_to_component(v@, t@) == Some(SpecValue::Enum(s@)));
                }
                Ok(ComponentValue::Enum(s.clone()))
            } else {
                Err(merr_with("unknown enum value: ", s.as_str()))
            },
            _ => Err(merr("expected string for enum type")),
        },
        StructuralType::Flags(names) => return match flag_words(v) {
            Ok(words) => {
                proof {
                    lemma_view_names(words@);
                }
                let mut i: usize = 0;
                while i < words.len()
                    invariant
                        i <= words@.len(),
                        t@ == view_shape(*t),
                        *t matches StructuralType::Flags(ns) && ns@ == names@,
                        spec_flag_words(v@) == Some(view_names(words@)),
                        view_names(words@).len() == words@.len(),
                        forall|k: int|
                            0 <= k < words@.len() ==> #[trigger] view_names(words@)[k]
                                == words@[k]@,
                        forall|k: int|
                            0 <= k < i ==> view_names(names@).contains(
                                #[trigger] view_names(words@)[k],
                            ),
                    decreases words.len() - i,
                {
                    if !name_listed(names, words[i].as_str()) {
                        proof {
                            assert(!view_names(names@).contains(
                                view_names(words@)[i as int],
                            ));
                            assert(!spec_all_members(view_names(words@), view_names(names@)));
                        }
                        return Err(merr_with("unknown flag: ", words[i].as_str()));
                    }
                    i += 1;
                }
                proof {
                    assert(spec_all_members(view_names(words@), view_names(names@)));
                    assert(spec_to_component(v@, t@) == Some(
                        SpecValue::Flags(view_names(words@)),
                    ));
                }
                Ok(ComponentValue::Flags(words))
            },
            Err(e) => Err(e),
        },
        StructuralType::Resource => return Err(
            merr("resource types are not supported in JSON conversion"),
        ),
    }
}

/// A character as a component value. A character drawn out of an
/// optional value does not carry the typing fact the constructor's view
/// needs; routing it through a call re-establishes it.
fn char_value(c: char) -> (r: ComponentValue)
    ensures
        r@ == SpecValue::Char(c),
{
    ComponentValue::Char(c)
}

/// One side of a fallible result value.
fn marshal_result_side(pv: &Json, side: &Option<Box<StructuralType>>, is_ok: bool) -> (r: Result<
    ComponentValue,
    MarshalError,
>)
    ensures
        match r {
            Ok(cv) => spec_result_side(pv@, view_shape_opt(*side), is_ok) == Some(cv@),
            Err(_) => spec_result_side(pv@, view_shape_opt(*side), is_ok) is None,
        },
    decreases side, 1nat,
{
    match side {
        Option::Some(st) => match to_component(pv, st) {
            Ok(x) => {
                if is_ok {
                    Ok(ComponentValue::ResultVal(Ok(Some(Box::new(x)))))
                } else {
                    Ok(ComponentValue::ResultVal(Err(Some(Box::new(x)))))
                }
            },
            Err(e) => Err(e),
        },
        Option::None => {
            if is_ok {
                Ok(ComponentValue::ResultVal(Ok(None)))
            } else {
                Ok(ComponentValue::ResultVal(Err(None)))
            }
        },
    }
}

/// Elementwise conversion of a JSON array against a list's item shape.
fn marshal_seq(items: &Vec<Json>, inner: &StructuralType) -> (r: Result<
    Vec<ComponentValue>,
    MarshalError,
>)
    ensures
        match r {
            Ok(vs) => spec_to_component_seq(view_json_seq(items@), inner@) == Some(
                view_value_seq(vs@),
            ),
            Err(_) => spec_to_component_seq(view_json_seq(items@), inner@) is None,
        },
    decreases inner, 1nat,
{
    let ghost jview = view_json_seq(items@);
    proof {
        lemma_view_json_seq(items@);
        lemma_to_component_seq(jview, inner@);
    }
    let mut out: Vec<ComponentValue> = Vec::new();
    let mut i: usize = 0;
    while i < items.len()
        invariant
            i <= items@.len(),
            jview == view_json_seq(items@),
            jview.len() == items@.len(),
            forall|k: int| 0 <= k < items@.len() ==> #[trigger] jview[k] == view_json(items@[k]),
            out@.len() == i as int,
            forall|k: int|
                0 <= k < i ==> spec_to_component(#[trigger] jview[k], inner@) == Some(
                    view_value(out@[k]),
                ),
        decreases items.len() - i,
    {
        match to_component(&items[i], inner) {
            Ok(x) => {
                out.push(x);
            },
            Err(e) => {
                proof {
                    lemma_to_component_seq(jview, inner@);
                    assert(spec_to_component(jview[i as int], inner@) is None);
                }
                return Err(e);
            },
        }
        i += 1;
    }
    proof {
        lemma_view_value_seq(out@);
        lemma_to_component_seq(jview, inner@);
        match spec_to_component_seq(jview, inner@) {
            Some(vals) => {
                assert forall|k: int| 0 <= k < out@.len() implies vals[k] == view_value_seq(
                    out@,
                )[k] by {
                    assert(spec_to_component(jview[k], inner@) == Some(view_value(out@[k])));
                    assert(view_value_seq(out@)[k] == view_value(out@[k]));
                }
                assert(vals =~= view_value_seq(out@));
            },
            None => {
                let k = choose|k: int|
                    0 <= k < jview.len() && spec_to_component(#[trigger] jview[k], inner@)
                        is None;
                assert(spec_to_component(jview[k], inner@) == Some(view_value(out@[k])));
                assert(false);
            },
        }
    }
    Ok(out)
}

/// Pairwise conversion of a JSON array against a tuple's item shapes.
fn marshal_tuple(items: &Vec<Json>, types: &Vec<StructuralType>) -> (r: Result<
    Vec<ComponentValue>,
    MarshalError,
>)
    requires
        items@.len() == types@.len(),
    ensures
        match r {
            Ok(vs) => spec_to_component_tuple(view_json_seq(items@), view_shape_seq(types@))
                == Some(view_value_seq(vs@)),
            Err(_) => spec_to_component_tuple(view_json_seq(items@), view_shape_seq(types@))
                is None,
        },
    decreases types, 1nat,
{
    let ghost jview = view_json_seq(items@);
    let ghost tview = view_shape_seq(types@);
    proof {
        lemma_view_json_seq(items@);
        lemma_view_shape_seq(types@);
        lemma_to_component_tuple(jview, tview);
    }
    let mut out: Vec<ComponentValue> = Vec::new();
    let mut i: usize = 0;
    while i < items.len()
        invariant
            i <= items@.len(),
            items@.len() == types@.len(),
            jview == view_json_seq(items@),
            tview == view_shape_seq(types@),
            jview.len() == items@.len(),
            tview.len() == types@.len(),
            forall|k: int| 0 <= k < items@.len() ==> #[trigger] jview[k] == view_json(items@[k]),
            forall|k: int| 0 <= k < types@.len() ==> #[trigger] tview[k] == view_shape(types@[k]),
            out@.len() == i as int,
            forall|k: int|
                0 <= k < i ==> spec_to_component(#[trigger] jview[k], tview[k]) == Some(
                    view_value(out@[k]),
                ),
        decreases items.len() - i,
    {
        match to_component(&items[i], &types[i]) {
            Ok(x) => {
                out.push(x);
            },
            Err(e) => {
                proof {
                    lemma_to_component_tuple(jview, tview);
                    assert(spec_to_component(jview[i as int], tview[i as int]) is None);
                }
                return Err(e);
            },
        }
        i += 1;
    }
    proof {
        lemma_view_value_seq(out@);
        lemma_to_component_tuple(jview, tview);
        match spec_to_component_tuple(jview, tview) {
            Some(vals) => {
                assert forall|k: int| 0 <= k < out@.len() implies vals[k] == view_value_seq(
                    out@,
                )[k] by {
                    assert(spec_to_component(jview[k], tview[k]) == Some(view_value(out@[k])));
                    assert(view_value_seq(out@)[k] == view_value(out@[k]));
                }
                assert(vals =~= view_value_seq(out@));
            },
            None => {
                let k = choose|k: int|
                    0 <= k < jview.len() && spec_to_component(#[trigger] jview[k], tview[k])
                        is None;
                assert(spec_to_component(jview[k], tview[k]) == Some(view_value(out@[k])));
                assert(false);
            },
        }
    }
    Ok(out)
}

/// One declared record field, converted under its declared shape.
fn marshal_field(fv: &Json, fd: &FieldDecl) -> (r: Result<ComponentValue, MarshalError>)
    ensures
        match r {
            Ok(cv) => spec_to_component(fv@, view_shape(fd.shape)) == Some(cv@),
            Err(_) => spec_to_component(fv@, view_shape(fd.shape)) is None,
        },
    decreases fd, 1nat,
{
    to_component(fv, &fd.shape)
}

/// Declared record fields looked up in the object and converted; the
/// first missing or ill-shaped field is the one reported, and a missing
/// one is reported by name in the message.
fn marshal_fields(entries: &Vec<JsonField>, fields: &Vec<FieldDecl>) -> (r: Result<
    Vec<NamedVal>,
    MarshalError,
>)
    ensures
        match r {
            Ok(nvs) => spec_to_component_fields(
                view_json_fields(entries@),
                view_field_decls(fields@),
            ) == Some(view_named_vals(nvs@)),
            Err(e) => {
                let ev = view_json_fields(entries@);
                let fv = view_field_decls(fields@);
                let i = spec_first_field_fail(ev, fv);
                &&& spec_to_component_fields(ev, fv) is None
                &&& 0 <= i < fv.len()
                &&& !spec_field_ok(ev, fv[i])
                &&& (spec_obj_get(ev, fv[i].0) is None ==> e.message@ == "missing field: "@
                    + fv[i].0)
            },
        },
    decreases fields, 1nat,
{
    let ghost eview = view_json_fields(entries@);
    let ghost fview = view_field_decls(fields@);
    proof {
        lemma_view_json_fields(entries@);
        lemma_view_field_decls(fields@);
        lemma_to_component_fields(eview, fview);
    }
    let mut out: Vec<NamedVal> = Vec::new();
    let mut i: usize = 0;
    while i < fields.len()
        invariant
            i <= fields@.len(),
            eview == view_json_fields(entries@),
            fview == view_field_decls(fields@),
            fview.len() == fields@.len(),
            forall|k: int|
                0 <= k < fields@.len() ==> #[trigger] fview[k] == (fields@[k].name@, view_shape(
                    fields@[k].shape,
                )),
            out@.len() == i as int,
            forall|k: int|
                0 <= k < i ==> spec_field_ok(eview, #[trigger] fview[k]) && (out@[k].name@,
                view_value(out@[k].value)) == spec_field_val(eview, fview[k]),
        decreases fields.len() - i,
    {
        match obj_get(entries, fields[i].name.as_str()) {
            Option::None => {
                proof {
                    lemma_to_component_fields(eview, fview);
                    assert(!spec_field_ok(eview, fview[i as int]));
                    lemma_first_field_fail(eview, fview, i as int);
                    assert(spec_obj_get(eview, fview[i as int].0) is None);
                }
                return Err(merr_with("missing field: ", fields[i].name.as_str()));
            },
            Option::Some(fv) => match marshal_field(fv, &fields[i]) {
                Ok(x) => {
                    let name = fields[i].name.clone();
                    out.push(NamedVal { name, value: x });
                },
                Err(e) => {
                    proof {
                        lemma_to_component_fields(eview, fview);
                        assert(!spec_field_ok(eview, fview[i as int]));
                        lemma_first_field_fail(eview, fview, i as int);
                        assert(spec_obj_get(eview, fview[i as int].0) is Some);
                    }
                    return Err(e);
                },
            },
        }
        i += 1;
    }
    proof {
        lemma_view_named_vals(out@);
        lemma_to_component_fields(eview, fview);
        match spec_to_component_fields(eview, fview) {
            Some(vals) => {
                assert forall|k: int| 0 <= k < out@.len() implies view_named_vals(out@)[k]
                    == vals[k] by {
                    assert((out@[k].name@, view_value(out@[k].value)) == spec_field_val(
                        eview,
                        fview[k],
                    ));
                    assert(view_named_vals(out@)[k] == (out@[k].name@, view_value(
                        out@[k].value,
                    )));
                }
                assert(vals =~= view_named_vals(out@));
            },
            None => {
                let k = choose|k: int|
                    0 <= k < fview.len() && !spec_field_ok(eview, #[trigger] fview[k]);
                assert(spec_field_ok(eview, fview[k]));
                assert(false);
            },
        }
    }
    Ok(out)
}

/// A declared case's payload, converted if the case declares one.
fn marshal_case_payload(pj: &Json, cd: &CaseDecl) -> (r: Result<
    Option<ComponentValue>,
    MarshalError,
>)
    ensures
        match view_case_payload(cd.payload) {
            Some(pt) => match r {
                Ok(o) => o is Some && spec_to_component(pj@, pt) == Some(view_value(o->Some_0)),
                Err(_) => spec_to_component(pj@, pt) is None,
            },
            None => r is Ok && r->Ok_0 is None,
        },
    decreases cd, 1nat,
{
    match &cd.payload {
        Option::None => Ok(None),
        Option::Some(b) => match to_component(pj, b) {
            Ok(x) => Ok(Some(x)),
            Err(e) => Err(e),
        },
    }
}

/// A single-field object against a variant's declared cases.
fn marshal_case(name: &str, payload: &Json, cases: &Vec<CaseDecl>) -> (r: Result<
    ComponentValue,
    MarshalError,
>)
    ensures
        match r {
            Ok(cv) => spec_to_variant_case(name@, payload@, view_case_decls(cases@)) == Some(
                cv@,
            ),
            Err(_) => spec_to_variant_case(name@, payload@, view_case_decls(cases@)) is None,
        },
    decreases cases, 1nat,
{
    let ghost cview = view_case_decls(cases@);
    proof {
        lemma_view_case_decls(cases@);
    }
    let mut i: usize = 0;
    while i < cases.len()
        invariant
            i <= cases@.len(),
            cview == view_case_decls(cases@),
            cview.len() == cases@.len(),
            forall|k: int|
                0 <= k < cases@.len() ==> #[trigger] cview[k] == (cases@[k].name@,
                view_case_payload(cases@[k].payload)),
            forall|k: int| 0 <= k < i ==> (#[trigger] cview[k]).0 != name@,
        decreases cases.len() - i,
    {
        if str_eq(cases[i].name.as_str(), name) {
            proof {
                lemma_variant_case_skip(name@, payload@, cview, i as int);
                let sub = cview.subrange(i as int, cview.len() as int);
                assert(sub[0] == cview[i as int]);
            }
            match marshal_case_payload(payload, &cases[i]) {
                Ok(Option::Some(x)) => {
                    return Ok(ComponentValue::Variant(name.to_owned(), Some(Box::new(x))));
                },
                Ok(Option::None) => {
                    return Ok(ComponentValue::Variant(name.to_owned(), None));
                },
                Err(e) => {
                    return Err(e);
                },
            }
        }
        i += 1;
    }
    proof {
        lemma_variant_case_skip(name@, payload@, cview, cview.len() as int);
        assert(cview.subrange(cview.len() as int, cview.len() as int).len() == 0);
    }
    Err(merr_with("unknown variant case: ", name))
}

/// A bare string naming a payload-less variant case.
fn marshal_bare(s: &str, cases: &Vec<CaseDecl>) -> (r: Result<ComponentValue, MarshalError>)
    ensures
        match r {
            Ok(cv) => spec_to_variant_bare(s@, view_case_decls(cases@)) == Some(cv@),
            Err(_) => spec_to_variant_bare(s@, view_case_decls(cases@)) is None,
        },
{
    let ghost cview = view_case_decls(cases@);
    proof {
        lemma_view_case_decls(cases@);
    }
    let mut i: usize = 0;
    while i < cases.len()
        invariant
            i <= cases@.len(),
            cview == view_case_decls(cases@),
            cview.len() == cases@.len(),
            forall|k: int|
                0 <= k < cases@.len() ==> #[trigger] cview[k] == (cases@[k].name@,
                view_case_payload(cases@[k].payload)),
            forall|k: int| 0 <= k < i ==> (#[trigger] cview[k]).0 != s@,
        decreases cases.len() - i,
    {
        if str_eq(cases[i].name.as_str(), s) {
            proof {
                lemma_variant_bare_skip(s@, cview, i as int);
                let sub = cview.subrange(i as int, cview.len() as int);
                assert(sub[0] == cview[i as int]);
            }
            match &cases[i].payload {
                Option::None => {
                    return Ok(ComponentValue::Variant(s.to_owned(), None));
                },
                Option::Some(_) => {
                    return Err(merr_with("variant case needs a payload: ", s));
                },
            }
        }
        i += 1;
    }
    proof {
        lemma_variant_bare_skip(s@, cview, cview.len() as int);
        assert(cview.subrange(cview.len() as int, cview.len() as int).len() == 0);
    }
    Err(merr_with("unknown variant case: ", s))
}

} // verus!
