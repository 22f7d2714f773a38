//! The per-call execution pipeline's decision logic: resolving the
//! descriptor is the registry's job; here the call's arguments are bound
//! one parameter at a time — the first missing or ill-shaped parameter
//! is the one reported — the results are folded back to JSON, and the
//! reply is framed. The asynchronous instantiation and invocation of
//! the compiled artifact happen outside; every call is handed a fresh,
//! single-use execution context, never a shared one.

use vstd::prelude::*;
use crate::jsonval::{Json, JsonField, SpecJson, view_json, view_json_fields, view_json_seq,
    spec_obj_get, lemma_view_json_fields, lemma_view_json_seq};
use crate::shape::{SpecType, view_names, lemma_view_names, view_shape, view_shape_seq,
    lemma_view_shape_seq};
use crate::value::{ComponentValue, SpecValue, view_value, view_value_seq, lemma_view_value_seq};
use crate::marshal::{MarshalError, to_component, to_json, spec_to_component, spec_to_json,
    spec_to_json_seq, lemma_spec_to_json_seq, obj_get, merr_with};
use crate::introspect::{ToolDescriptor, SpecDescriptor, spec_descriptor_wf};
use crate::registry::{Registry, ResolveError, spec_resolve, lemma_resolved_descriptor_wf};
use crate::types::ToolResult;
use vstd::string::StringExecFns;

verus! {

/// The key-value capability attached to one call, scoped to one
/// component and tenant pair.
#[derive(Debug, Clone)]
pub struct KvScope {
    pub component_id: String,
    pub tenant_id: String,
}

/// A single-use execution sandbox: created immediately before a call,
/// discarded immediately after, never reused or shared.
#[derive(Debug)]
pub struct ExecutionContext {
    /// The call inherits the host's standard streams.
    pub inherit_stdio: bool,
    /// The optional attached key-value capability.
    pub kv: Option<KvScope>,
}

/// Allocates the fresh, isolated context of one call.
pub fn fresh_context(kv: Option<KvScope>) -> (r: ExecutionContext)
    ensures
        r.inherit_stdio == true,
        r.kv == kv,
{
    ExecutionContext { inherit_stdio: true, kv }
}

/// The store key prefix of one component and tenant pair: state a tool
/// persists is scoped by it and by nothing else.
pub fn kv_prefix(component_id: &str, tenant_id: &str) -> (r: String)
    ensures
        r@ == "mecp:app:"@ + component_id@ + ":"@ + tenant_id@ + ":"@,
{
    let r = "mecp:app:".to_owned().concat(component_id).concat(":").concat(tenant_id).concat(
        ":",
    );
    proof {
        assert(r@ =~= "mecp:app:"@ + component_id@ + ":"@ + tenant_id@ + ":"@);
    }
    r
}

/// Binding a call's arguments: each declared parameter is looked up by
/// name in the JSON arguments and converted under its declared shape,
/// in order; the first missing or ill-shaped one fails the binding.
pub open spec fn spec_marshal_args(
    args: SpecJson,
    names: Seq<Seq<char>>,
    types: Seq<SpecType>,
) -> Option<Seq<SpecValue>>
    decreases names.len(),
{
    if names.len() == 0 {
        Some(Seq::empty())
    } else {
        let av = match args {
            SpecJson::Obj(entries) => spec_obj_get(entries, names[0]),
            _ => None,
        };
        match av {
            None => None,
            Some(a) => match spec_to_component(a, types[0]) {
                None => None,
                Some(x) => match spec_marshal_args(
                    args,
                    names.subrange(1, names.len() as int),
                    types.subrange(1, types.len() as int),
                ) {
                    None => None,
                    Some(rest) => Some(seq![x] + rest),
                },
            },
        }
    }
}

/// One parameter binds when it is present and its value converts.
pub open spec fn spec_arg_ok(args: SpecJson, name: Seq<char>, t: SpecType) -> bool {
    match (match args {
        SpecJson::Obj(entries) => spec_obj_get(entries, name),
        _ => None,
    }) {
        None => false,
        Some(a) => spec_to_component(a, t) is Some,
    }
}

pub open spec fn spec_arg_val(args: SpecJson, name: Seq<char>, t: SpecType) -> SpecValue {
    spec_to_component(
        (match args {
            SpecJson::Obj(entries) => spec_obj_get(entries, name),
            _ => None,
        })->Some_0,
        t,
    )->Some_0
}

/// The JSON value supplied for one parameter name, when the arguments
/// are an object that carries it.
pub open spec fn spec_arg_lookup(args: SpecJson, name: Seq<char>) -> Option<SpecJson> {
    match args {
        SpecJson::Obj(entries) => spec_obj_get(entries, name),
        _ => None,
    }
}

/// The index of the first parameter that fails to bind; the parameter
/// count when every one binds.
pub open spec fn spec_first_unbound(
    args: SpecJson,
    names: Seq<Seq<char>>,
    types: Seq<SpecType>,
) -> int
    decreases names.len(),
{
    if names.len() == 0 {
        0
    } else if !spec_arg_ok(args, names[0], types[0]) {
        0
    } else {
        1 + spec_first_unbound(
            args,
            names.subrange(1, names.len() as int),
            types.subrange(1, types.len() as int),
        )
    }
}

/// When every parameter before `i` binds and the one at `i` does not,
/// `i` is the first unbound one.
pub proof fn lemma_first_unbound(
    args: SpecJson,
    names: Seq<Seq<char>>,
    types: Seq<SpecType>,
    i: int,
)
    requires
        names.len() == types.len(),
        0 <= i < names.len(),
        forall|k: int| 0 <= k < i ==> spec_arg_ok(args, #[trigger] names[k], types[k]),
        !spec_arg_ok(args, names[i], types[i]),
    ensures
        spec_first_unbound(args, names, types) == i,
    decreases i,
{
    let tn = names.subrange(1, names.len() as int);
    let tt = types.subrange(1, types.len() as int);
    if i > 0 {
        assert(spec_arg_ok(args, names[0], types[0]));
        assert(forall|k: int| 0 <= k < tn.len() ==> #[trigger] tn[k] == names[k + 1]);
        assert(forall|k: int| 0 <= k < tt.len() ==> #[trigger] tt[k] == types[k + 1]);
        assert(tn[i - 1] == names[i]);
        assert(!spec_arg_ok(args, tn[i - 1], tt[i - 1]));
        lemma_first_unbound(args, tn, tt, i - 1);
    }
}

/// Binding succeeds exactly when every parameter binds, and then gives
/// the bound values in declaration order.
pub proof fn lemma_marshal_args(args: SpecJson, names: Seq<Seq<char>>, types: Seq<SpecType>)
    requires
        names.len() == types.len(),
    ensures
        match spec_marshal_args(args, names, types) {
            Some(vals) => vals.len() == names.len() && forall|i: int|
                0 <= i < names.len() ==> spec_arg_ok(args, #[trigger] names[i], types[i])
                    && vals[i] == spec_arg_val(args, names[i], types[i]),
            None => exists|i: int|
                0 <= i < names.len() && !spec_arg_ok(args, #[trigger] names[i], types[i]),
        },
    decreases names.len(),
{
    if names.len() > 0 {
        let tn = names.subrange(1, names.len() as int);
        let tt = types.subrange(1, types.len() as int);
        lemma_marshal_args(args, tn, tt);
        assert(forall|i: int| 0 <= i < tn.len() ==> #[trigger] tn[i] == names[i + 1]);
        assert(forall|i: int| 0 <= i < tt.len() ==> #[trigger] tt[i] == types[i + 1]);
        if !spec_arg_ok(args, names[0], types[0]) {
            assert(!spec_arg_ok(args, names[0], types[0]));
        } else {
            match spec_marshal_args(args, tn, tt) {
                Some(rest) => {
                    let x = spec_arg_val(args, names[0], types[0]);
                    let vals = seq![x] + rest;
                    assert(spec_marshal_args(args, names, types) == Some(vals));
                    assert forall|i: int|
                        0 <= i < names.len() implies spec_arg_ok(args, #[trigger] names[i], types[i])
                        && vals[i] == spec_arg_val(args, names[i], types[i]) by {
                        if i > 0 {
                            assert(tn[i - 1] == names[i]);
                            assert(tt[i - 1] == types[i]);
                            assert(vals[i] == rest[i - 1]);
                        }
                    }
                },
                None => {
                    let k = choose|k: int|
                        0 <= k < tn.len() && !spec_arg_ok(args, #[trigger] tn[k], tt[k]);
                    assert(!spec_arg_ok(args, names[k + 1], types[k + 1]));
                },
            }
        }
    }
}

/// Binds a call's arguments against the descriptor's declared
/// parameters; the first missing or ill-shaped parameter is the one
/// reported, and a missing one is reported by name in the message.
pub fn marshal_args(desc: &ToolDescriptor, args: &Json) -> (r: Result<
    Vec<ComponentValue>,
    MarshalError,
>)
    requires
        spec_descriptor_wf(desc@),
    ensures
        match r {
            Ok(vals) => spec_marshal_args(args@, desc@.param_names, desc@.param_types) == Some(
                view_value_seq(vals@),
            ),
            Err(e) => {
                let i = spec_first_unbound(args@, desc@.param_names, desc@.param_types);
                &&& spec_marshal_args(args@, desc@.param_names, desc@.param_types) is None
                &&& 0 <= i < desc@.param_names.len()
                &&& !spec_arg_ok(args@, desc@.param_names[i], desc@.param_types[i])
                &&& (spec_arg_lookup(args@, desc@.param_names[i]) is None ==> e.message@
                    == "missing parameter: "@ + desc@.param_names[i])
            },
        },
{
    let ghost nview = desc@.param_names;
    let ghost tview = desc@.param_types;
    proof {
        lemma_view_names(desc.param_names@);
        lemma_view_shape_seq(desc.param_types@);
        lemma_marshal_args(args@, nview, tview);
    }
    let mut out: Vec<ComponentValue> = Vec::new();
    let mut i: usize = 0;
    while i < desc.param_names.len()
        invariant
            i <= desc.param_names@.len(),
            desc.param_names@.len() == desc.param_types@.len(),
            nview == view_names(desc.param_names@),
            tview == view_shape_seq(desc.param_types@),
            nview.len() == desc.param_names@.len(),
            tview.len() == desc.param_types@.len(),
            forall|k: int|
                0 <= k < desc.param_names@.len() ==> (#[trigger] desc.param_names@[k])@
                    == nview[k],
            forall|k: int|
                0 <= k < desc.param_types@.len() ==> view_shape(
                    #[trigger] desc.param_types@[k],
                ) == tview[k],
            out@.len() == i as int,
            forall|k: int|
                0 <= k < i ==> spec_arg_ok(args@, #[trigger] nview[k], tview[k]) && view_value(
                    out@[k],
                ) == spec_arg_val(args@, nview[k], tview[k]),
        decreases desc.param_names@.len() - i,
    {
        let pname = &desc.param_names[i];
        let found: Option<&Json> = match args {
            Json::Obj(entries) => obj_get(entries, pname.as_str()),
            _ => None,
        };
        match found {
            Option::None => {
                proof {
                    lemma_marshal_args(args@, nview, tview);
                    assert(!spec_arg_ok(args@, nview[i as int], tview[i as int]));
                    lemma_first_unbound(args@, nview, tview, i as int);
                    assert(spec_arg_lookup(args@, nview[i as int]) is None);
                }
                return Err(merr_with("missing parameter: ", pname.as_str()));
            },
            Option::Some(av) => {
                match to_component(av, &desc.param_types[i]) {
                    Ok(x) => {
                        out.push(x);
                    },
                    Err(e) => {
                        proof {
                            lemma_marshal_args(args@, nview, tview);
                            assert(!spec_arg_ok(args@, nview[i as int], tview[i as int]));
                            lemma_first_unbound(args@, nview, tview, i as int);
                            assert(spec_arg_lookup(args@, nview[i as int]) is Some);
                        }
                        return Err(e);
                    },
                }
            },
        }
        i += 1;
    }
    proof {
        lemma_view_value_seq(out@);
        lemma_marshal_args(args@, nview, tview);
        match spec_marshal_args(args@, nview, tview) {
            Some(vals) => {
                assert forall|k: int| 0 <= k < out@.len() implies vals[k] == view_value_seq(
                    out@,
                )[k] by {
                    assert(view_value(out@[k]) == spec_arg_val(args@, nview[k], tview[k]));
                }
                assert(vals =~= view_value_seq(out@));
            },
            None => {
                let k = choose|k: int|
                    0 <= k < nview.len() && !spec_arg_ok(args@, #[trigger] nview[k], tview[k]);
                assert(spec_arg_ok(args@, nview[k], tview[k]));
                assert(false);
            },
        }
    }
    Ok(out)
}

/// Why a call could not even start.
#[derive(Debug)]
pub enum CallError {
    /// The tool or its component could not be resolved.
    Resolution(ResolveError),
    /// An argument failed to bind.
    Arguments(MarshalError),
}

/// Everything a call needs before the outside work starts: the owning
/// component, the binding path, the bound arguments, and a fresh
/// context. Resolution and binding decide here; instantiating and
/// invoking the artifact is the host's outside work, and every failure
/// on the way is a reported error, never a panic.
#[derive(Debug)]
pub struct CallPlan {
    pub component_id: String,
    pub interface_name: Option<String>,
    pub function_name: String,
    pub params: Vec<ComponentValue>,
    pub results: Vec<crate::shape::StructuralType>,
    pub context: ExecutionContext,
}

/// Plans one call against the registry: resolves the tool, binds the
/// arguments under its declared parameters, and allocates the call's
/// fresh context. Exactly the resolution and binding rules decide the
/// outcome.
pub fn plan_call(
    reg: &Registry,
    tool_name: &str,
    explicit: Option<&str>,
    args: &Json,
    kv: Option<KvScope>,
) -> (r: Result<CallPlan, CallError>)
    requires
        reg.wf(),
    ensures
        ({
            let resolution = spec_resolve(
                reg.components@,
                reg.tool_index@,
                tool_name@,
                match explicit {
                    Option::None => Option::None,
                    Option::Some(c) => Option::Some(c@),
                },
            );
            match r {
                Ok(plan) => resolution matches Ok(p) && {
                    let d = p.1;
                    &&& plan.component_id@ == p.0
                    &&& (match plan.interface_name {
                        Option::None => d.interface_name is None,
                        Option::Some(s) => d.interface_name == Option::Some(s@),
                    })
                    &&& plan.function_name@ == d.function_name
                    &&& spec_marshal_args(args@, d.param_names, d.param_types) == Some(
                        view_value_seq(plan.params@),
                    )
                    &&& view_shape_seq(plan.results@) == d.results
                    &&& plan.context.inherit_stdio
                    &&& plan.context.kv == kv
                },
                Err(CallError::Resolution(e)) => resolution == Err::<
                    (Seq<char>, SpecDescriptor),
                    ResolveError,
                >(e),
                Err(CallError::Arguments(e)) => resolution matches Ok(p) && {
                    let i = spec_first_unbound(args@, p.1.param_names, p.1.param_types);
                    &&& spec_marshal_args(args@, p.1.param_names, p.1.param_types) is None
                    &&& 0 <= i < p.1.param_names.len()
                    &&& !spec_arg_ok(args@, p.1.param_names[i], p.1.param_types[i])
                    &&& (spec_arg_lookup(args@, p.1.param_names[i]) is None ==> e.message@
                        == "missing parameter: "@ + p.1.param_names[i])
                },
            }
        }),
{
    let (component_id, descriptor) = match reg.resolve(tool_name, explicit) {
        Ok(p) => p,
        Err(e) => {
            return Err(CallError::Resolution(e));
        },
    };
    proof {
        lemma_resolved_descriptor_wf(
            *reg,
            tool_name@,
            match explicit {
                Option::None => Option::<Seq<char>>::None,
                Option::Some(c) => Option::Some(c@),
            },
        );
    }
    let params = match marshal_args(&descriptor, args) {
        Ok(vals) => vals,
        Err(e) => {
            return Err(CallError::Arguments(e));
        },
    };
    let context = fresh_context(kv);
    Ok(
        CallPlan {
            component_id,
            interface_name: descriptor.interface_name,
            function_name: descriptor.function_name,
            params,
            results: descriptor.results,
            context,
        },
    )
}

/// How a call's results read back as JSON: a single result is the value
/// itself, none is null, several are an array.
pub open spec fn spec_results_to_json(results: Seq<SpecValue>) -> SpecJson {
    if results.len() == 1 {
        spec_to_json(results[0])
    } else if results.len() == 0 {
        SpecJson::Null
    } else {
        SpecJson::Arr(spec_to_json_seq(results))
    }
}

/// Folds a call's results back to JSON.
pub fn results_to_json(results: &Vec<ComponentValue>) -> (r: Json)
    ensures
        r@ == spec_results_to_json(view_value_seq(results@)),
{
    proof {
        lemma_view_value_seq(results@);
    }
    if results.len() == 1 {
        to_json(&results[0])
    } else if results.len() == 0 {
        Json::Null
    } else {
        let mut out: Vec<Json> = Vec::new();
        let mut i: usize = 0;
        while i < results.len()
            invariant
                i <= results@.len(),
                out@.len() == i as int,
                forall|k: int|
                    0 <= k < i ==> view_json(#[trigger] out@[k]) == spec_to_json(
                        view_value(results@[k]),
                    ),
            decreases results.len() - i,
        {
            let j = to_json(&results[i]);
            out.push(j);
            i += 1;
        }
        let r = Json::Arr(out);
        proof {
            lemma_view_json_seq(out@);
            lemma_view_value_seq(results@);
            lemma_spec_to_json_seq(view_value_seq(results@));
            assert forall|k: int| 0 <= k < out@.len() implies view_json_seq(out@)[k]
                == spec_to_json_seq(view_value_seq(results@))[k] by {
                assert(view_json(out@[k]) == spec_to_json(view_value(results@[k])));
                assert(view_value_seq(results@)[k] == view_value(results@[k]));
            }
            assert(view_json_seq(out@) =~= spec_to_json_seq(view_value_seq(results@)));
        }
        r
    }
}

/// Frames a call's reply: the converted result under one `result` key.
pub fn wrap_result(j: Json) -> (r: Json)
    ensures
        r@ == SpecJson::Obj(seq![("result"@, j@)]),
{
    let ghost jv = j@;
    let mut entries: Vec<JsonField> = Vec::new();
    entries.push(JsonField { name: "result".to_owned(), value: j });
    let r = Json::Obj(entries);
    proof {
        lemma_view_json_fields(entries@);
        assert(view_json_fields(entries@) =~= seq![("result"@, jv)]);
    }
    r
}

/// The caller-facing outcome of a call: a successful invocation's JSON
/// output, or the failure's message — a failed call is reported, never
/// fatal.
pub fn call_outcome(res: Result<Json, String>) -> (r: ToolResult)
    ensures
        match res {
            Ok(j) => r.success == true && r.output@ == j@ && r.error is None,
            Err(m) => r.success == false && r.output@ == SpecJson::Null && (r.error matches Some(
                e,
            ) && e@ == m@),
        },
{
    match res {
        Ok(j) => ToolResult { success: true, output: j, error: None },
        Err(m) => ToolResult { success: false, output: Json::Null, error: Some(m) },
    }
}

} // verus!
