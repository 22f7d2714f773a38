//! Interface introspection: turns a compiled artifact's export surface
//! into a catalog of tool descriptors. A directly exported function
//! becomes a tool under its own name; a named interface's functions
//! become tools under a normalized `interface_function` name, with the
//! namespace separators replaced so that names stay globally unique. For
//! each function a JSON Schema is synthesized from its parameter shapes,
//! with one positional property per parameter, all required.

use vstd::prelude::*;
use crate::jsonval::{Json, JsonField, SpecJson, view_json, view_json_seq, view_json_fields,
    lemma_view_json_seq, lemma_view_json_fields};
use crate::shape::{StructuralType, SpecType, view_shape, view_shape_seq, view_field_decls,
    view_names, lemma_view_shape_seq, lemma_view_field_decls, lemma_view_names, clone_shape_list};
use crate::strutil::{chars_vec, string_from_chars};
use crate::types::ToolParameter;
use crate::marshal::{obj_get, spec_flag_words_arr};
use crate::numparse::{format_u64, spec_dec_digits};
use vstd::string::StringExecFns;

verus! {

/// The shape of one exported function: its parameter and result shapes.
#[derive(Debug)]
pub struct FuncModel {
    pub params: Vec<StructuralType>,
    pub results: Vec<StructuralType>,
}

/// A function nested in a named interface export.
#[derive(Debug)]
pub struct NamedFunc {
    pub name: String,
    pub func: FuncModel,
}

/// One item of a component's export surface.
#[derive(Debug)]
pub enum ExportItem {
    /// A directly exported function.
    Func { name: String, func: FuncModel },
    /// A named interface holding nested function exports.
    Interface { name: String, functions: Vec<NamedFunc> },
}

/// A published tool: name, description, synthesized input schema, the
/// path to bind the function by, and the ordered parameter bindings.
#[derive(Debug)]
pub struct ToolDescriptor {
    pub name: String,
    pub description: String,
    pub input_schema: Json,
    pub interface_name: Option<String>,
    pub function_name: String,
    pub param_names: Vec<String>,
    pub param_types: Vec<StructuralType>,
    pub results: Vec<StructuralType>,
}

/// Mathematical model of a tool descriptor.
#[verifier::ext_equal]
pub struct SpecDescriptor {
    pub name: Seq<char>,
    pub description: Seq<char>,
    pub input_schema: SpecJson,
    pub interface_name: Option<Seq<char>>,
    pub function_name: Seq<char>,
    pub param_names: Seq<Seq<char>>,
    pub param_types: Seq<SpecType>,
    pub results: Seq<SpecType>,
}

impl View for ToolDescriptor {
    type V = SpecDescriptor;

    open spec fn view(&self) -> SpecDescriptor {
        SpecDescriptor {
            name: self.name@,
            description: self.description@,
            input_schema: view_json(self.input_schema),
            interface_name: match self.interface_name {
                Option::None => Option::None,
                Option::Some(s) => Option::Some(s@),
            },
            function_name: self.function_name@,
            param_names: view_names(self.param_names@),
            param_types: view_shape_seq(self.param_types@),
            results: view_shape_seq(self.results@),
        }
    }
}

/// A descriptor is well formed when it binds one name per parameter.
pub open spec fn spec_descriptor_wf(d: SpecDescriptor) -> bool {
    d.param_names.len() == d.param_types.len()
}

impl Clone for ToolDescriptor {
    /// A clone has the same mathematical descriptor.
    fn clone(&self) -> (r: Self)
        ensures
            r@ == self@,
    {
        let interface_name = match &self.interface_name {
            Option::None => Option::None,
            Option::Some(s) => Option::Some(s.clone()),
        };
        let r = ToolDescriptor {
            name: self.name.clone(),
            description: self.description.clone(),
            input_schema: self.input_schema.clone(),
            interface_name,
            function_name: self.function_name.clone(),
            param_names: clone_strings(&self.param_names),
            param_types: clone_shape_list(&self.param_types),
            results: clone_shape_list(&self.results),
        };
        proof {
            assert(r@ =~= self@);
        }
        r
    }
}

/// Clones a list of strings, keeping each one's characters.
pub fn clone_strings(names: &Vec<String>) -> (r: Vec<String>)
    ensures
        view_names(r@) == view_names(names@),
        r@.len() == names@.len(),
{
    let mut out: Vec<String> = Vec::new();
    let mut i: usize = 0;
    while i < names.len()
        invariant
            i <= names.len(),
            out@.len() == i as int,
            forall|k: int| 0 <= k < i as int ==> (#[trigger] out@[k])@ == names@[k]@,
        decreases names.len() - i,
    {
        let c = names[i].clone();
        out.push(c);
        i += 1;
    }
    proof {
        lemma_view_names(out@);
        lemma_view_names(names@);
        assert forall|k: int| 0 <= k < out@.len() implies view_names(out@)[k] == view_names(
            names@,
        )[k] by {
            assert(out@[k]@ == names@[k]@);
        }
        assert(view_names(out@) =~= view_names(names@));
    }
    out
}

/// The normalized tool name of an interface function: the namespace
/// separators `:` and `/` become `_`, and the function name follows
/// after one more `_`.
pub open spec fn spec_normalize_sep(c: char) -> char {
    if c == ':' || c == '/' {
        '_'
    } else {
        c
    }
}

pub open spec fn spec_normalize_tool_name(interface: Seq<char>, function: Seq<char>) -> Seq<
    char,
> {
    interface.map_values(|c: char| spec_normalize_sep(c)) + seq!['_'] + function
}

/// Builds the normalized `interface_function` tool name.
pub fn normalize_tool_name(interface: &str, function: &str) -> (r: String)
    ensures
        r@ == spec_normalize_tool_name(interface@, function@),
{
    let iv = chars_vec(interface);
    let fv = chars_vec(function);
    let mut out: Vec<char> = Vec::new();
    let mut i: usize = 0;
    while i < iv.len()
        invariant
            i <= iv.len(),
            iv@ == interface@,
            out@ == interface@.subrange(0, i as int).map_values(
                |c: char| spec_normalize_sep(c),
            ),
        decreases iv.len() - i,
    {
        let c = iv[i];
        let rc: char = if c == ':' || c == '/' {
            '_'
        } else {
            c
        };
        out.push(rc);
        proof {
            assert(out@ =~= interface@.subrange(0, i as int + 1).map_values(
                |c: char| spec_normalize_sep(c),
            ));
        }
        i += 1;
    }
    out.push('_');
    let mut j: usize = 0;
    while j < fv.len()
        invariant
            j <= fv.len(),
            iv@ == interface@,
            fv@ == function@,
            out@ == interface@.subrange(0, interface@.len() as int).map_values(
                |c: char| spec_normalize_sep(c),
            ).push('_') + function@.subrange(0, j as int),
        decreases fv.len() - j,
    {
        out.push(fv[j]);
        proof {
            assert(out@ =~= interface@.subrange(0, interface@.len() as int).map_values(
                |c: char| spec_normalize_sep(c),
            ).push('_') + function@.subrange(0, j as int + 1));
        }
        j += 1;
    }
    proof {
        assert(interface@.subrange(0, interface@.len() as int) =~= interface@);
        assert(function@.subrange(0, function@.len() as int) =~= function@);
        assert(out@ =~= spec_normalize_tool_name(interface@, function@));
    }
    string_from_chars(&out)
}

/// The JSON Schema synthesized for one parameter shape: primitive
/// shapes name their JSON type, lists and options and records recurse,
/// and every other shape falls back to a string schema.
pub open spec fn spec_type_schema(t: SpecType) -> SpecJson
    decreases t, 0nat,
{
    match t {
        SpecType::Bool => spec_schema_kind("boolean"@),
        SpecType::S8 => spec_schema_kind("integer"@),
        SpecType::S16 => spec_schema_kind("integer"@),
        SpecType::S32 => spec_schema_kind("integer"@),
        SpecType::S64 => spec_schema_kind("integer"@),
        SpecType::U8 => spec_schema_kind("integer"@),
        SpecType::U16 => spec_schema_kind("integer"@),
        SpecType::U32 => spec_schema_kind("integer"@),
        SpecType::U64 => spec_schema_kind("integer"@),
        SpecType::Float32 => spec_schema_kind("number"@),
        SpecType::Float64 => spec_schema_kind("number"@),
        SpecType::Char => spec_schema_kind("string"@),
        SpecType::Text => spec_schema_kind("string"@),
        SpecType::ListOf(inner) => SpecJson::Obj(
            seq![
                ("type"@, SpecJson::Str("array"@)),
                ("items"@, spec_type_schema(*inner)),
            ],
        ),
        SpecType::OptionOf(inner) => SpecJson::Obj(
            seq![
                (
                    "oneOf"@,
                    SpecJson::Arr(
                        seq![spec_type_schema(*inner), spec_schema_kind("null"@)],
                    ),
                ),
            ],
        ),
        SpecType::Record(fields) => SpecJson::Obj(
            seq![
                ("type"@, SpecJson::Str("object"@)),
                ("properties"@, SpecJson::Obj(spec_field_schemas(fields))),
                ("required"@, SpecJson::Arr(spec_required_names(fields))),
            ],
        ),
        _ => spec_schema_kind("string"@),
    }
}

pub open spec fn spec_schema_kind(kind: Seq<char>) -> SpecJson {
    SpecJson::Obj(seq![("type"@, SpecJson::Str(kind))])
}

pub open spec fn spec_field_schemas(fields: Seq<(Seq<char>, SpecType)>) -> Seq<
    (Seq<char>, SpecJson),
>
    decreases fields, 0nat,
{
    if fields.len() == 0 {
        Seq::empty()
    } else {
        seq![(fields[0].0, spec_type_schema(fields[0].1))] + spec_field_schemas(
            fields.subrange(1, fields.len() as int),
        )
    }
}

pub open spec fn spec_required_names(fields: Seq<(Seq<char>, SpecType)>) -> Seq<SpecJson>
    decreases fields,
{
    if fields.len() == 0 {
        Seq::empty()
    } else {
        seq![SpecJson::Str(fields[0].0)] + spec_required_names(
            fields.subrange(1, fields.len() as int),
        )
    }
}

/// Synthesizes the JSON Schema of one parameter shape.
pub fn type_schema(t: &StructuralType) -> (r: Json)
    ensures
        r@ == spec_type_schema(t@),
    decreases t, 1nat,
{
    match t {
        StructuralType::Bool => schema_kind("boolean"),
        StructuralType::S8 => schema_kind("integer"),
        StructuralType::S16 => schema_kind("integer"),
        StructuralType::S32 => schema_kind("integer"),
        StructuralType::S64 => schema_kind("integer"),
        StructuralType::U8 => schema_kind("integer"),
        StructuralType::U16 => schema_kind("integer"),
        StructuralType::U32 => schema_kind("integer"),
        StructuralType::U64 => schema_kind("integer"),
        StructuralType::Float32 => schema_kind("number"),
        StructuralType::Float64 => schema_kind("number"),
        StructuralType::Char => schema_kind("string"),
        StructuralType::Text => schema_kind("string"),
        StructuralType::ListOf(inner) => {
            let items = type_schema(inner);
            let mut entries: Vec<JsonField> = Vec::new();
            entries.push(JsonField { name: "type".to_owned(), value: Json::Str("array".to_owned()) });
            entries.push(JsonField { name: "items".to_owned(), value: items });
            let r = Json::Obj(entries);
            proof {
                lemma_view_json_fields(entries@);
                assert(view_json_fields(entries@) =~= seq![
                    (entries@[0].name@, view_json(entries@[0].value)),
                    (entries@[1].name@, view_json(entries@[1].value)),
                ]);
                assert(r@ =~= spec_type_schema(t@));
            }
            r
        },
        StructuralType::OptionOf(inner) => {
            let inner_schema = type_schema(inner);
            let null_schema = schema_kind("null");
            let mut alts: Vec<Json> = Vec::new();
            alts.push(inner_schema);
            alts.push(null_schema);
            let mut entries: Vec<JsonField> = Vec::new();
            entries.push(JsonField { name: "oneOf".to_owned(), value: Json::Arr(alts) });
            let r = Json::Obj(entries);
            proof {
                lemma_view_json_fields(entries@);
                assert(view_json_fields(entries@) =~= seq![
                    (entries@[0].name@, view_json(entries@[0].value)),
                ]);
                lemma_view_json_seq(entries@[0].value->Arr_0@);
                assert(view_json_seq(entries@[0].value->Arr_0@) =~= seq![
                    view_json(entries@[0].value->Arr_0@[0]),
                    view_json(entries@[0].value->Arr_0@[1]),
                ]);
                assert(r@ =~= spec_type_schema(t@));
            }
            r
        },
        StructuralType::Record(fields) => {
            let (props, req) = record_field_schemas(fields);
            let ghost fview = view_field_decls(fields@);
            let mut entries: Vec<JsonField> = Vec::new();
            entries.push(JsonField { name: "type".to_owned(), value: Json::Str("object".to_owned()) });
            entries.push(JsonField { name: "properties".to_owned(), value: Json::Obj(props) });
            entries.push(JsonField { name: "required".to_owned(), value: Json::Arr(req) });
            let r = Json::Obj(entries);
            proof {
                lemma_view_json_fields(entries@);
                assert(view_json_fields(entries@) =~= seq![
                    (entries@[0].name@, view_json(entries@[0].value)),
                    (entries@[1].name@, view_json(entries@[1].value)),
                    (entries@[2].name@, view_json(entries@[2].value)),
                ]);
                assert(r@ =~= spec_type_schema(t@));
            }
            r
        },
        _ => schema_kind("string"),
    }
}

/// The per-field schemas and required names of a record shape.
fn record_field_schemas(fields: &Vec<crate::shape::FieldDecl>) -> (r: (Vec<JsonField>, Vec<Json>))
    ensures
        view_json_fields(r.0@) == spec_field_schemas(view_field_decls(fields@)),
        view_json_seq(r.1@) == spec_required_names(view_field_decls(fields@)),
    decreases fields, 2nat,
{
    let ghost fview = view_field_decls(fields@);
    proof {
        lemma_view_field_decls(fields@);
    }
    let mut props: Vec<JsonField> = Vec::new();
    let mut req: Vec<Json> = Vec::new();
    let mut i: usize = 0;
    while i < fields.len()
        invariant
            i <= fields@.len(),
            fview == view_field_decls(fields@),
            fview.len() == fields@.len(),
            forall|k: int|
                0 <= k < fields@.len() ==> #[trigger] fview[k] == (fields@[k].name@, view_shape(
                    fields@[k].shape,
                )),
            props@.len() == i as int,
            req@.len() == i as int,
            forall|k: int|
                0 <= k < i ==> (#[trigger] props@[k]).name@ == fview[k].0 && view_json(
                    props@[k].value,
                ) == spec_type_schema(fview[k].1),
            forall|k: int|
                0 <= k < i ==> view_json(#[trigger] req@[k]) == SpecJson::Str(fview[k].0),
        decreases fields.len() - i,
    {
        let name = fields[i].name.clone();
        let schema = field_schema(&fields[i]);
        props.push(JsonField { name, value: schema });
        req.push(Json::Str(fields[i].name.clone()));
        i += 1;
    }
    proof {
        lemma_view_json_fields(props@);
        lemma_field_schemas(fview);
        assert forall|k: int| 0 <= k < props@.len() implies view_json_fields(props@)[k]
            == spec_field_schemas(fview)[k] by {
            assert(props@[k].name@ == fview[k].0);
            assert(view_json(props@[k].value) == spec_type_schema(fview[k].1));
        }
        assert(view_json_fields(props@) =~= spec_field_schemas(fview));
        lemma_view_json_seq(req@);
        lemma_required_names(fview);
        assert forall|k: int| 0 <= k < req@.len() implies view_json_seq(req@)[k]
            == spec_required_names(fview)[k] by {
            assert(view_json(req@[k]) == SpecJson::Str(fview[k].0));
        }
        assert(view_json_seq(req@) =~= spec_required_names(fview));
    }
    (props, req)
}

/// One record field's schema, under its declared shape.
fn field_schema(fd: &crate::shape::FieldDecl) -> (r: Json)
    ensures
        r@ == spec_type_schema(view_shape(fd.shape)),
    decreases fd, 1nat,
{
    type_schema(&fd.shape)
}

/// A one-field `{"type": kind}` schema object.
fn schema_kind(kind: &str) -> (r: Json)
    ensures
        r@ == spec_schema_kind(kind@),
{
    let mut entries: Vec<JsonField> = Vec::new();
    entries.push(JsonField { name: "type".to_owned(), value: Json::Str(kind.to_owned()) });
    let r = Json::Obj(entries);
    proof {
        lemma_view_json_fields(entries@);
        assert(r@ =~= spec_schema_kind(kind@));
    }
    r
}

/// The field schema list, pointwise.
pub proof fn lemma_field_schemas(fields: Seq<(Seq<char>, SpecType)>)
    ensures
        spec_field_schemas(fields).len() == fields.len(),
        forall|i: int|
            0 <= i < fields.len() ==> spec_field_schemas(fields)[i] == ((#[trigger] fields[i]).0,
            spec_type_schema(fields[i].1)),
    decreases fields,
{
    if fields.len() > 0 {
        let tail = fields.subrange(1, fields.len() as int);
        lemma_field_schemas(tail);
        assert forall|i: int| 0 <= i < fields.len() implies spec_field_schemas(fields)[i] == ((
        fields[i]).0, spec_type_schema(fields[i].1)) by {
            if i > 0 {
                assert(tail[i - 1] == fields[i]);
                assert(spec_field_schemas(fields)[i] == spec_field_schemas(tail)[i - 1]);
            }
        }
    }
}

/// The required-name list, pointwise.
pub proof fn lemma_required_names(fields: Seq<(Seq<char>, SpecType)>)
    ensures
        spec_required_names(fields).len() == fields.len(),
        forall|i: int|
            0 <= i < fields.len() ==> spec_required_names(fields)[i] == SpecJson::Str(
                (#[trigger] fields[i]).0,
            ),
    decreases fields,
{
    if fields.len() > 0 {
        let tail = fields.subrange(1, fields.len() as int);
        lemma_required_names(tail);
        assert forall|i: int| 0 <= i < fields.len() implies spec_required_names(fields)[i]
            == SpecJson::Str((fields[i]).0) by {
            if i > 0 {
                assert(tail[i - 1] == fields[i]);
                assert(spec_required_names(fields)[i] == spec_required_names(tail)[i - 1]);
            }
        }
    }
}

/// The positional name of the parameter at an index.
pub open spec fn spec_param_name(i: nat) -> Seq<char> {
    "param"@ + spec_dec_digits(i)
}

/// The synthesized input schema of a parameter list: an object schema
/// with one positionally named property per parameter, all required.
pub open spec fn spec_input_schema(params: Seq<SpecType>) -> SpecJson {
    SpecJson::Obj(
        seq![
            ("type"@, SpecJson::Str("object"@)),
            (
                "properties"@,
                SpecJson::Obj(
                    Seq::new(
                        params.len(),
                        |i: int| (spec_param_name(i as nat), spec_type_schema(params[i])),
                    ),
                ),
            ),
            (
                "required"@,
                SpecJson::Arr(
                    Seq::new(params.len(), |i: int| SpecJson::Str(spec_param_name(i as nat))),
                ),
            ),
        ],
    )
}

/// The descriptor a function export gives rise to.
pub open spec fn spec_descriptor(
    name: Seq<char>,
    interface_name: Option<Seq<char>>,
    function_name: Seq<char>,
    params: Seq<SpecType>,
    results: Seq<SpecType>,
) -> SpecDescriptor {
    SpecDescriptor {
        name,
        description: "Function exported from a component"@,
        input_schema: spec_input_schema(params),
        interface_name,
        function_name,
        param_names: Seq::new(params.len(), |i: int| spec_param_name(i as nat)),
        param_types: params,
        results,
    }
}

/// Builds the tool descriptor of one exported function: positional
/// parameter names, a synthesized object schema, and the binding path.
pub fn create_tool_info_from_func(
    name: &str,
    interface_name: Option<&str>,
    function_name: &str,
    func: &FuncModel,
) -> (r: ToolDescriptor)
    ensures
        r@ == spec_descriptor(
            name@,
            match interface_name {
                Option::None => Option::None,
                Option::Some(s) => Option::Some(s@),
            },
            function_name@,
            view_shape_seq(func.params@),
            view_shape_seq(func.results@),
        ),
        spec_descriptor_wf(r@),
{
    let ghost pview = view_shape_seq(func.params@);
    proof {
        lemma_view_shape_seq(func.params@);
    }
    let mut props: Vec<JsonField> = Vec::new();
    let mut req: Vec<Json> = Vec::new();
    let mut names: Vec<String> = Vec::new();
    let mut i: usize = 0;
    while i < func.params.len()
        invariant
            i <= func.params@.len(),
            pview == view_shape_seq(func.params@),
            pview.len() == func.params@.len(),
            forall|k: int|
                0 <= k < func.params@.len() ==> #[trigger] pview[k] == view_shape(
                    func.params@[k],
                ),
            props@.len() == i as int,
            req@.len() == i as int,
            names@.len() == i as int,
            forall|k: int|
                0 <= k < i ==> (#[trigger] props@[k]).name@ == spec_param_name(k as nat)
                    && view_json(props@[k].value) == spec_type_schema(pview[k]),
            forall|k: int|
                0 <= k < i ==> view_json(#[trigger] req@[k]) == SpecJson::Str(
                    spec_param_name(k as nat),
                ),
            forall|k: int| 0 <= k < i ==> (#[trigger] names@[k])@ == spec_param_name(k as nat),
        decreases func.params.len() - i,
    {
        let pname = "param".to_owned().concat(format_u64(i as u64).as_str());
        proof {
            assert(pname@ == spec_param_name(i as nat));
        }
        let schema = type_schema(&func.params[i]);
        props.push(JsonField { name: pname.clone(), value: schema });
        req.push(Json::Str(pname.clone()));
        names.push(pname);
        i += 1;
    }
    let mut entries: Vec<JsonField> = Vec::new();
    entries.push(JsonField { name: "type".to_owned(), value: Json::Str("object".to_owned()) });
    entries.push(JsonField { name: "properties".to_owned(), value: Json::Obj(props) });
    entries.push(JsonField { name: "required".to_owned(), value: Json::Arr(req) });
    let input_schema = Json::Obj(entries);
    let iface: Option<String> = match interface_name {
        Option::None => Option::None,
        Option::Some(s) => Option::Some(s.to_owned()),
    };
    let r = ToolDescriptor {
        name: name.to_owned(),
        description: "Function exported from a component".to_owned(),
        input_schema,
        interface_name: iface,
        function_name: function_name.to_owned(),
        param_names: names,
        param_types: clone_shape_list(&func.params),
        results: clone_shape_list(&func.results),
    };
    proof {
        lemma_view_json_fields(entries@);
        assert(view_json_fields(entries@) =~= seq![
            (entries@[0].name@, view_json(entries@[0].value)),
            (entries@[1].name@, view_json(entries@[1].value)),
            (entries@[2].name@, view_json(entries@[2].value)),
        ]);
        lemma_view_json_fields(entries@[1].value->Obj_0@);
        assert forall|k: int|
            0 <= k < entries@[1].value->Obj_0@.len() implies view_json_fields(
            entries@[1].value->Obj_0@,
        )[k] == (spec_param_name(k as nat), spec_type_schema(pview[k])) by {
            assert(entries@[1].value->Obj_0@[k].name@ == spec_param_name(k as nat));
            assert(view_json(entries@[1].value->Obj_0@[k].value) == spec_type_schema(pview[k]));
        }
        assert(view_json_fields(entries@[1].value->Obj_0@) =~= Seq::new(
            pview.len(),
            |k: int| (spec_param_name(k as nat), spec_type_schema(pview[k])),
        ));
        lemma_view_json_seq(entries@[2].value->Arr_0@);
        assert forall|k: int|
            0 <= k < entries@[2].value->Arr_0@.len() implies view_json_seq(
            entries@[2].value->Arr_0@,
        )[k] == SpecJson::Str(spec_param_name(k as nat)) by {
            assert(view_json(entries@[2].value->Arr_0@[k]) == SpecJson::Str(
                spec_param_name(k as nat),
            ));
        }
        assert(view_json_seq(entries@[2].value->Arr_0@) =~= Seq::new(
            pview.len(),
            |k: int| SpecJson::Str(spec_param_name(k as nat)),
        ));
        lemma_view_names(r.param_names@);
        assert forall|k: int| 0 <= k < r.param_names@.len() implies view_names(r.param_names@)[k]
            == spec_param_name(k as nat) by {
            assert(r.param_names@[k]@ == spec_param_name(k as nat));
        }
        assert(view_names(r.param_names@) =~= Seq::new(
            pview.len(),
            |k: int| spec_param_name(k as nat),
        ));
        assert(r@ =~= spec_descriptor(
            name@,
            match interface_name {
                Option::None => Option::<Seq<char>>::None,
                Option::Some(s) => Option::Some(s@),
            },
            function_name@,
            pview,
            view_shape_seq(func.results@),
        ));
    }
    r
}

/// The views of a descriptor list, pointwise.
pub open spec fn view_descriptors(s: Seq<ToolDescriptor>) -> Seq<SpecDescriptor>
    decreases s,
{
    if s.len() == 0 {
        Seq::empty()
    } else {
        seq![s[0]@] + view_descriptors(s.subrange(1, s.len() as int))
    }
}

pub proof fn lemma_view_descriptors(s: Seq<ToolDescriptor>)
    ensures
        view_descriptors(s).len() == s.len(),
        forall|i: int| 0 <= i < s.len() ==> view_descriptors(s)[i] == (#[trigger] s[i])@,
    decreases s,
{
    if s.len() > 0 {
        let tail = s.subrange(1, s.len() as int);
        lemma_view_descriptors(tail);
        assert forall|i: int| 0 <= i < s.len() implies view_descriptors(s)[i] == (s[i])@ by {
            if i > 0 {
                assert(tail[i - 1] == s[i]);
                assert(view_descriptors(s)[i] == view_descriptors(tail)[i - 1]);
            }
        }
    }
}

/// Appending a descriptor appends its view.
pub proof fn lemma_view_descriptors_push(s: Seq<ToolDescriptor>, d: ToolDescriptor)
    ensures
        view_descriptors(s.push(d)) == view_descriptors(s) + seq![d@],
{
    lemma_view_descriptors(s.push(d));
    lemma_view_descriptors(s);
    assert forall|k: int|
        0 <= k < s.len() + 1 implies view_descriptors(s.push(d))[k] == (view_descriptors(s)
        + seq![d@])[k] by {
        if k < s.len() {
            assert(s.push(d)[k] == s[k]);
        } else {
            assert(s.push(d)[k] == d);
        }
    }
    assert(view_descriptors(s.push(d)) =~= view_descriptors(s) + seq![d@]);
}

/// The tools an interface export's functions give rise to, in order.
pub open spec fn spec_iface_tools(iface: Seq<char>, fns: Seq<NamedFunc>) -> Seq<SpecDescriptor>
    decreases fns,
{
    if fns.len() == 0 {
        Seq::empty()
    } else {
        seq![
            spec_descriptor(
                spec_normalize_tool_name(iface, fns[0].name@),
                Option::Some(iface),
                fns[0].name@,
                view_shape_seq(fns[0].func.params@),
                view_shape_seq(fns[0].func.results@),
            ),
        ] + spec_iface_tools(iface, fns.subrange(1, fns.len() as int))
    }
}

/// The tool catalog an export surface gives rise to: direct function
/// exports under their own names, interface functions under normalized
/// names, in export order.
pub open spec fn spec_tools_of(exports: Seq<ExportItem>) -> Seq<SpecDescriptor>
    decreases exports,
{
    if exports.len() == 0 {
        Seq::empty()
    } else {
        let head = match exports[0] {
            ExportItem::Func { name, func } => seq![
                spec_descriptor(
                    name@,
                    Option::None,
                    name@,
                    view_shape_seq(func.params@),
                    view_shape_seq(func.results@),
                ),
            ],
            ExportItem::Interface { name, functions } => spec_iface_tools(name@, functions@),
        };
        head + spec_tools_of(exports.subrange(1, exports.len() as int))
    }
}

/// Walks an export surface and produces its tool catalog.
pub fn extract_tools_from_component(exports: &Vec<ExportItem>) -> (r: Vec<ToolDescriptor>)
    ensures
        view_descriptors(r@) == spec_tools_of(exports@),
        forall|i: int|
            0 <= i < r@.len() ==> spec_descriptor_wf(#[trigger] view_descriptors(r@)[i]),
{
    let mut out: Vec<ToolDescriptor> = Vec::new();
    let mut i: usize = 0;
    proof {
        assert(exports@.subrange(0, exports@.len() as int) =~= exports@);
        assert(view_descriptors(out@) + spec_tools_of(exports@) =~= spec_tools_of(exports@));
    }
    while i < exports.len()
        invariant
            i <= exports@.len(),
            spec_tools_of(exports@) =~= view_descriptors(out@) + spec_tools_of(
                exports@.subrange(i as int, exports@.len() as int),
            ),
            forall|k: int| 0 <= k < out@.len() ==> spec_descriptor_wf((#[trigger] out@[k])@),
        decreases exports.len() - i,
    {
        let ghost sub = exports@.subrange(i as int, exports@.len() as int);
        proof {
            assert(sub[0] == exports@[i as int]);
            assert(sub.subrange(1, sub.len() as int) =~= exports@.subrange(
                i as int + 1,
                exports@.len() as int,
            ));
        }
        match &exports[i] {
            ExportItem::Func { name, func } => {
                let d = create_tool_info_from_func(name.as_str(), None, name.as_str(), func);
                proof {
                    lemma_view_descriptors_push(out@, d);
                }
                out.push(d);
            },
            ExportItem::Interface { name, functions } => {
                proof {
                    assert(functions@.subrange(0, functions@.len() as int) =~= functions@);
                    assert(spec_tools_of(sub) =~= spec_iface_tools(name@, functions@)
                        + spec_tools_of(
                        exports@.subrange(i as int + 1, exports@.len() as int),
                    ));
                    assert(view_descriptors(out@) + spec_tools_of(sub) =~= view_descriptors(out@)
                        + spec_iface_tools(name@, functions@) + spec_tools_of(
                        exports@.subrange(i as int + 1, exports@.len() as int),
                    ));
                }
                let mut j: usize = 0;
                while j < functions.len()
                    invariant
                        j <= functions@.len(),
                        i < exports@.len(),
                        exports@[i as int] matches ExportItem::Interface {
                            name: n2,
                            functions: f2,
                        } && n2@ == name@ && f2@ == functions@,
                        spec_tools_of(exports@) =~= view_descriptors(out@) + spec_iface_tools(
                            name@,
                            functions@.subrange(j as int, functions@.len() as int),
                        ) + spec_tools_of(
                            exports@.subrange(i as int + 1, exports@.len() as int),
                        ),
                        forall|k: int|
                            0 <= k < out@.len() ==> spec_descriptor_wf((#[trigger] out@[k])@),
                    decreases functions.len() - j,
                {
                    let ghost fsub = functions@.subrange(j as int, functions@.len() as int);
                    proof {
                        assert(fsub[0] == functions@[j as int]);
                        assert(fsub.subrange(1, fsub.len() as int) =~= functions@.subrange(
                            j as int + 1,
                            functions@.len() as int,
                        ));
                    }
                    let tool_name = normalize_tool_name(name.as_str(), functions[j].name.as_str());
                    let d = create_tool_info_from_func(
                        tool_name.as_str(),
                        Some(name.as_str()),
                        functions[j].name.as_str(),
                        &functions[j].func,
                    );
                    proof {
                        lemma_view_descriptors_push(out@, d);
                        assert(spec_iface_tools(name@, fsub) =~= seq![d@] + spec_iface_tools(
                            name@,
                            fsub.subrange(1, fsub.len() as int),
                        ));
                        assert(view_descriptors(out@) + spec_iface_tools(name@, fsub)
                            =~= view_descriptors(out@.push(d)) + spec_iface_tools(
                            name@,
                            fsub.subrange(1, fsub.len() as int),
                        ));
                    }
                    out.push(d);
                    j += 1;
                }
                proof {
                    assert(spec_iface_tools(
                        name@,
                        functions@.subrange(functions@.len() as int, functions@.len() as int),
                    ) =~= Seq::<SpecDescriptor>::empty());
                }
            },
        }
        i += 1;
    }
    proof {
        assert(spec_tools_of(exports@.subrange(exports@.len() as int, exports@.len() as int))
            =~= Seq::<SpecDescriptor>::empty());
        assert(view_descriptors(out@) =~= spec_tools_of(exports@));
        lemma_view_descriptors(out@);
        assert forall|k: int|
            0 <= k < out@.len() implies spec_descriptor_wf(
            #[trigger] view_descriptors(out@)[k],
        ) by {
            assert(view_descriptors(out@)[k] == out@[k]@);
            assert(spec_descriptor_wf(out@[k]@));
        }
    }
    out
}

/// The tool names of the host's own management operations: excluded
/// from the tenant-facing catalog.
pub open spec fn spec_builtin_names() -> Seq<Seq<char>> {
    seq![
        "load-component"@,
        "unload-component"@,
        "list-components"@,
        "search-components"@,
        "grant-network-permission"@,
        "revoke-network-permission"@,
        "grant-storage-permission"@,
        "revoke-storage-permission"@,
        "grant-environment-variable-permission"@,
        "revoke-environment-variable-permission"@,
        "reset-permission"@,
        "get-policy"@,
    ]
}

/// The management denylist, as strings.
pub fn builtin_tool_names() -> (r: Vec<String>)
    ensures
        view_names(r@) == spec_builtin_names(),
{
    let mut out: Vec<String> = Vec::new();
    out.push("load-component".to_owned());
    out.push("unload-component".to_owned());
    out.push("list-components".to_owned());
    out.push("search-components".to_owned());
    out.push("grant-network-permission".to_owned());
    out.push("revoke-network-permission".to_owned());
    out.push("grant-storage-permission".to_owned());
    out.push("revoke-storage-permission".to_owned());
    out.push("grant-environment-variable-permission".to_owned());
    out.push("revoke-environment-variable-permission".to_owned());
    out.push("reset-permission".to_owned());
    out.push("get-policy".to_owned());
    proof {
        lemma_view_names(out@);
        assert(out@[0]@ == "load-component"@);
        assert(out@[1]@ == "unload-component"@);
        assert(out@[2]@ == "list-components"@);
        assert(out@[3]@ == "search-components"@);
        assert(out@[4]@ == "grant-network-permission"@);
        assert(out@[5]@ == "revoke-network-permission"@);
        assert(out@[6]@ == "grant-storage-permission"@);
        assert(out@[7]@ == "revoke-storage-permission"@);
        assert(out@[8]@ == "grant-environment-variable-permission"@);
        assert(out@[9]@ == "revoke-environment-variable-permission"@);
        assert(out@[10]@ == "reset-permission"@);
        assert(out@[11]@ == "get-policy"@);
        assert(view_names(out@) =~= spec_builtin_names());
    }
    out
}

/// The catalog with the management tools left out, order kept.
pub open spec fn spec_filter_builtin(tools: Seq<SpecDescriptor>) -> Seq<SpecDescriptor>
    decreases tools.len(),
{
    if tools.len() == 0 {
        Seq::empty()
    } else {
        let rest = spec_filter_builtin(tools.subrange(1, tools.len() as int));
        if spec_builtin_names().contains(tools[0].name) {
            rest
        } else {
            seq![tools[0]] + rest
        }
    }
}

/// Drops the host's own management tools from a published list: they
/// are not tenant-facing.
pub fn filter_builtin_tools(tools: Vec<ToolDescriptor>) -> (r: Vec<ToolDescriptor>)
    ensures
        view_descriptors(r@) == spec_filter_builtin(view_descriptors(tools@)),
{
    let deny = builtin_tool_names();
    let ghost tview = view_descriptors(tools@);
    proof {
        lemma_view_descriptors(tools@);
        assert(tview.subrange(0, tview.len() as int) =~= tview);
        assert(view_descriptors(Seq::<ToolDescriptor>::empty()) + spec_filter_builtin(tview)
            =~= spec_filter_builtin(tview));
    }
    let mut out: Vec<ToolDescriptor> = Vec::new();
    let mut i: usize = 0;
    while i < tools.len()
        invariant
            i <= tools@.len(),
            view_names(deny@) == spec_builtin_names(),
            tview == view_descriptors(tools@),
            tview.len() == tools@.len(),
            forall|k: int| 0 <= k < tools@.len() ==> (#[trigger] tools@[k])@ == tview[k],
            spec_filter_builtin(tview) =~= view_descriptors(out@) + spec_filter_builtin(
                tview.subrange(i as int, tview.len() as int),
            ),
        decreases tools.len() - i,
    {
        let ghost sub = tview.subrange(i as int, tview.len() as int);
        proof {
            assert(sub[0] == tview[i as int]);
            assert(sub.subrange(1, sub.len() as int) =~= tview.subrange(
                i as int + 1,
                tview.len() as int,
            ));
        }
        if !crate::marshal::name_listed(&deny, tools[i].name.as_str()) {
            let d = tools[i].clone();
            proof {
                lemma_view_descriptors_push(out@, d);
                assert(view_descriptors(out@) + spec_filter_builtin(sub) =~= view_descriptors(
                    out@.push(d),
                ) + spec_filter_builtin(sub.subrange(1, sub.len() as int)));
            }
            out.push(d);
        } else {
            proof {
                assert(view_descriptors(out@) + spec_filter_builtin(sub) =~= view_descriptors(
                    out@,
                ) + spec_filter_builtin(sub.subrange(1, sub.len() as int)));
            }
        }
        i += 1;
    }
    proof {
        assert(spec_filter_builtin(tview.subrange(tview.len() as int, tview.len() as int))
            =~= Seq::<SpecDescriptor>::empty());
        assert(view_descriptors(out@) =~= spec_filter_builtin(tview));
    }
    out
}

/// What one schema property reads as: its name, description, whether
/// it is listed required, and its declared type, `string` by default.
pub open spec fn spec_param_of(
    name: Seq<char>,
    prop: SpecJson,
    reqs: Seq<Seq<char>>,
) -> (Seq<char>, Seq<char>, bool, Seq<char>) {
    let desc = match prop {
        SpecJson::Obj(entries) => match crate::jsonval::spec_obj_get(entries, "description"@) {
            Some(SpecJson::Str(s)) => s,
            _ => ""@,
        },
        _ => ""@,
    };
    let ptype = match prop {
        SpecJson::Obj(entries) => match crate::jsonval::spec_obj_get(entries, "type"@) {
            Some(SpecJson::Str(s)) => s,
            _ => "string"@,
        },
        _ => "string"@,
    };
    (name, desc, reqs.contains(name), ptype)
}

/// The parameters a schema object declares, in property order.
pub open spec fn spec_params_of(
    props: Seq<(Seq<char>, SpecJson)>,
    reqs: Seq<Seq<char>>,
) -> Seq<(Seq<char>, Seq<char>, bool, Seq<char>)>
    decreases props.len(),
{
    if props.len() == 0 {
        Seq::empty()
    } else {
        seq![spec_param_of(props[0].0, props[0].1, reqs)] + spec_params_of(
            props.subrange(1, props.len() as int),
            reqs,
        )
    }
}

/// The required names a schema lists: the strings of its `required`
/// array, other values passed over.
pub open spec fn spec_schema_reqs(schema: SpecJson) -> Seq<Seq<char>> {
    match schema {
        SpecJson::Obj(entries) => match crate::jsonval::spec_obj_get(entries, "required"@) {
            Some(SpecJson::Arr(items)) => spec_flag_words_arr(items),
            _ => Seq::empty(),
        },
        _ => Seq::empty(),
    }
}

/// The declared parameters of a schema: one per property of its
/// `properties` object, or none when there is no such object.
pub open spec fn spec_extract_params(schema: SpecJson) -> Seq<
    (Seq<char>, Seq<char>, bool, Seq<char>),
> {
    match schema {
        SpecJson::Obj(entries) => match crate::jsonval::spec_obj_get(entries, "properties"@) {
            Some(SpecJson::Obj(props)) => spec_params_of(props, spec_schema_reqs(schema)),
            _ => Seq::empty(),
        },
        _ => Seq::empty(),
    }
}

/// The view of a parameter list, pointwise.
pub open spec fn view_params(s: Seq<ToolParameter>) -> Seq<
    (Seq<char>, Seq<char>, bool, Seq<char>),
>
    decreases s,
{
    if s.len() == 0 {
        Seq::empty()
    } else {
        seq![(s[0].name@, s[0].description@, s[0].required, s[0].param_type@)] + view_params(
            s.subrange(1, s.len() as int),
        )
    }
}

pub proof fn lemma_view_params(s: Seq<ToolParameter>)
    ensures
        view_params(s).len() == s.len(),
        forall|i: int|
            0 <= i < s.len() ==> view_params(s)[i] == ((#[trigger] s[i]).name@,
            s[i].description@, s[i].required, s[i].param_type@),
    decreases s,
{
    if s.len() > 0 {
        let tail = s.subrange(1, s.len() as int);
        lemma_view_params(tail);
        assert forall|i: int| 0 <= i < s.len() implies view_params(s)[i] == ((s[i]).name@,
        s[i].description@, s[i].required, s[i].param_type@) by {
            if i > 0 {
                assert(tail[i - 1] == s[i]);
                assert(view_params(s)[i] == view_params(tail)[i - 1]);
            }
        }
    }
}

/// Reads a tool's declared parameters back out of its JSON Schema.
pub fn extract_parameters_from_schema(schema: &Json) -> (r: Vec<ToolParameter>)
    ensures
        view_params(r@) == spec_extract_params(schema@),
{
    let props: &Vec<JsonField> = match schema {
        Json::Obj(entries) => match obj_get(entries, "properties") {
            Option::Some(Json::Obj(props)) => props,
            _ => {
                return Vec::new();
            },
        },
        _ => {
            return Vec::new();
        },
    };
    let reqs: Vec<String> = match schema {
        Json::Obj(entries) => match obj_get(entries, "required") {
            Option::Some(Json::Arr(items)) => collect_strings(items),
            _ => Vec::new(),
        },
        _ => {
            proof {
                assert(false);
            }
            Vec::new()
        },
    };
    let ghost rv = view_names(reqs@);
    let ghost pview = view_json_fields(props@);
    proof {
        assert(rv == spec_schema_reqs(schema@));
        lemma_view_json_fields(props@);
        lemma_view_names(reqs@);
    }
    let mut out: Vec<ToolParameter> = Vec::new();
    let mut i: usize = 0;
    while i < props.len()
        invariant
            i <= props@.len(),
            pview == view_json_fields(props@),
            pview.len() == props@.len(),
            rv == view_names(reqs@),
            forall|k: int|
                0 <= k < props@.len() ==> #[trigger] pview[k] == (props@[k].name@, view_json(
                    props@[k].value,
                )),
            out@.len() == i as int,
            forall|k: int|
                0 <= k < i ==> ((#[trigger] out@[k]).name@, out@[k].description@,
                out@[k].required, out@[k].param_type@) == spec_param_of(
                    pview[k].0,
                    pview[k].1,
                    rv,
                ),
        decreases props.len() - i,
    {
        let name = props[i].name.clone();
        let desc: String = match &props[i].value {
            Json::Obj(pentries) => match obj_get(pentries, "description") {
                Option::Some(Json::Str(s)) => s.clone(),
                _ => "".to_owned(),
            },
            _ => "".to_owned(),
        };
        let ptype: String = match &props[i].value {
            Json::Obj(pentries) => match obj_get(pentries, "type") {
                Option::Some(Json::Str(s)) => s.clone(),
                _ => "string".to_owned(),
            },
            _ => "string".to_owned(),
        };
        let required = crate::marshal::name_listed(&reqs, name.as_str());
        proof {
            reveal_strlit("");
        }
        out.push(ToolParameter { name, description: desc, required, param_type: ptype });
        i += 1;
    }
    proof {
        lemma_view_params(out@);
        lemma_params_of_index(pview, rv);
        assert forall|k: int| 0 <= k < out@.len() implies view_params(out@)[k] == spec_params_of(
            pview,
            rv,
        )[k] by {
            assert((out@[k].name@, out@[k].description@, out@[k].required, out@[k].param_type@)
                == spec_param_of(pview[k].0, pview[k].1, rv));
        }
        assert(view_params(out@) =~= spec_params_of(pview, rv));
    }
    out
}

/// The declared parameter tuples, pointwise.
pub proof fn lemma_params_of_index(props: Seq<(Seq<char>, SpecJson)>, reqs: Seq<Seq<char>>)
    ensures
        spec_params_of(props, reqs).len() == props.len(),
        forall|i: int|
            0 <= i < props.len() ==> spec_params_of(props, reqs)[i] == spec_param_of(
                (#[trigger] props[i]).0,
                props[i].1,
                reqs,
            ),
    decreases props.len(),
{
    if props.len() > 0 {
        let tail = props.subrange(1, props.len() as int);
        lemma_params_of_index(tail, reqs);
        assert forall|i: int| 0 <= i < props.len() implies spec_params_of(props, reqs)[i]
            == spec_param_of((props[i]).0, props[i].1, reqs) by {
            if i > 0 {
                assert(tail[i - 1] == props[i]);
                assert(spec_params_of(props, reqs)[i] == spec_params_of(tail, reqs)[i - 1]);
            }
        }
    }
}

/// The strings of a JSON array, non-strings passed over.
fn collect_strings(items: &Vec<Json>) -> (r: Vec<String>)
    ensures
        view_names(r@) == spec_flag_words_arr(view_json_seq(items@)),
{
    let mut out: Vec<String> = Vec::new();
    let mut i: usize = 0;
    proof {
        lemma_view_json_seq(items@);
        let full = view_json_seq(items@);
        assert(full.subrange(0, items@.len() as int) =~= full);
        assert(view_names(out@) + spec_flag_words_arr(full) =~= spec_flag_words_arr(full));
    }
    while i < items.len()
        invariant
            i <= items@.len(),
            view_json_seq(items@).len() == items@.len(),
            forall|k: int|
                0 <= k < items@.len() ==> #[trigger] view_json_seq(items@)[k] == view_json(
                    items@[k],
                ),
            spec_flag_words_arr(view_json_seq(items@)) =~= view_names(out@)
                + spec_flag_words_arr(
                view_json_seq(items@).subrange(i as int, items@.len() as int),
            ),
        decreases items.len() - i,
    {
        let ghost full = view_json_seq(items@);
        let ghost sub = full.subrange(i as int, items@.len() as int);
        proof {
            assert(sub[0] == full[i as int]);
            assert(sub.drop_first() =~= full.subrange(i as int + 1, items@.len() as int));
        }
        match &items[i] {
            Json::Str(w) => {
                let ws = w.clone();
                proof {
                    crate::shape::lemma_view_names_push(out@, ws);
                    assert(spec_flag_words_arr(full) =~= view_names(out@.push(ws))
                        + spec_flag_words_arr(sub.drop_first()));
                }
                out.push(ws);
            },
            _ => {
                proof {
                    assert(spec_flag_words_arr(full) =~= view_names(out@)
                        + spec_flag_words_arr(sub.drop_first()));
                }
            },
        }
        i += 1;
    }
    proof {
        let full = view_json_seq(items@);
        assert(full.subrange(items@.len() as int, items@.len() as int).len() == 0);
        assert(view_names(out@) + Seq::<Seq<char>>::empty() =~= view_names(out@));
    }
    out
}

} // verus!
