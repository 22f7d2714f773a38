use mecp::engine::{call_outcome, fresh_context, kv_prefix, marshal_args, results_to_json,
    wrap_result, KvScope};
use mecp::introspect::{builtin_tool_names, create_tool_info_from_func,
    extract_parameters_from_schema, extract_tools_from_component, filter_builtin_tools,
    normalize_tool_name, ExportItem, FuncModel, NamedFunc};
use mecp::jsonval::{Json, JsonField, JsonNum};
use mecp::registry::{LoadStatus, Registry, ResolveError};
use mecp::shape::StructuralType;
use mecp::validate::{classify, is_wasm_component, BinaryKind};
use mecp::value::ComponentValue;

fn obj(fields: Vec<(&str, Json)>) -> Json {
    let mut out = Vec::new();
    for (name, value) in fields {
        out.push(JsonField { name: name.to_string(), value });
    }
    Json::Obj(out)
}

fn add_export() -> ExportItem {
    ExportItem::Func {
        name: "add".to_string(),
        func: FuncModel {
            params: vec![StructuralType::U32, StructuralType::U32],
            results: vec![StructuralType::U32],
        },
    }
}

fn field_str<'a>(j: &'a Json, key: &str) -> Option<&'a Json> {
    match j {
        Json::Obj(entries) => entries.iter().find(|f| f.name == key).map(|f| &f.value),
        _ => None,
    }
}

#[test]
fn validator_classifies_headers() {
    let component = [0x00, 0x61, 0x73, 0x6d, 0x0d, 0x00, 0x01, 0x00];
    let core = [0x00, 0x61, 0x73, 0x6d, 0x01, 0x00, 0x00, 0x00];
    let bad = [0x42, 0x61, 0x73, 0x6d, 0x0d, 0x00, 0x01, 0x00];
    assert_eq!(classify(&component), BinaryKind::Component);
    assert_eq!(classify(&core), BinaryKind::CoreModule);
    assert_eq!(classify(&bad), BinaryKind::Invalid);
    assert_eq!(classify(&component[..4]), BinaryKind::Invalid);
    assert!(is_wasm_component(&component));
    assert!(!is_wasm_component(&core));
    assert!(!is_wasm_component(&bad));
}

#[test]
fn introspection_builds_positional_schemas() {
    let exports = vec![add_export()];
    let tools = extract_tools_from_component(&exports);
    assert_eq!(tools.len(), 1);
    let d = &tools[0];
    assert_eq!(d.name, "add");
    assert_eq!(d.param_names, vec!["param0", "param1"]);
    assert!(d.interface_name.is_none());
    let props = field_str(&d.input_schema, "properties").unwrap();
    assert!(field_str(props, "param0").is_some());
    assert!(field_str(props, "param1").is_some());
}

#[test]
fn interface_exports_get_normalized_names() {
    let exports = vec![ExportItem::Interface {
        name: "local:counter/counter-ops".to_string(),
        functions: vec![NamedFunc {
            name: "get".to_string(),
            func: FuncModel { params: vec![], results: vec![StructuralType::U32] },
        }],
    }];
    let tools = extract_tools_from_component(&exports);
    assert_eq!(tools.len(), 1);
    assert_eq!(tools[0].name, "local_counter_counter-ops_get");
    assert_eq!(tools[0].interface_name.as_deref(), Some("local:counter/counter-ops"));
    assert_eq!(tools[0].function_name, "get");
}

#[test]
fn test_normalize_tool_name() {
    assert_eq!(
        normalize_tool_name("local:counter/counter-ops", "get"),
        "local_counter_counter-ops_get"
    );
}

#[test]
fn management_tools_are_filtered_from_the_catalog() {
    let deny = builtin_tool_names();
    assert_eq!(deny.len(), 12);
    let exports = vec![
        add_export(),
        ExportItem::Func {
            name: "load-component".to_string(),
            func: FuncModel { params: vec![], results: vec![] },
        },
    ];
    let tools = extract_tools_from_component(&exports);
    let kept = filter_builtin_tools(tools);
    assert_eq!(kept.len(), 1);
    assert_eq!(kept[0].name, "add");
}

#[test]
fn load_then_list_tools_shows_the_catalog() {
    let mut reg = Registry::new();
    let status = reg.publish("calc", extract_tools_from_component(&vec![add_export()]));
    assert_eq!(status, LoadStatus::New);
    let listed = reg.list_tools();
    assert_eq!(listed.len(), 1);
    match field_str(&listed[0], "name") {
        Some(Json::Str(s)) => assert_eq!(s, "add"),
        other => panic!("unexpected: {:?}", other),
    }
    assert_eq!(reg.list_components(), vec!["calc"]);
}

#[test]
fn reload_reports_replacement() {
    let mut reg = Registry::new();
    assert_eq!(reg.publish("calc", extract_tools_from_component(&vec![add_export()])), LoadStatus::New);
    assert_eq!(reg.publish("calc", extract_tools_from_component(&vec![add_export()])), LoadStatus::Replaced);
    assert_eq!(reg.list_tools().len(), 1);
}

#[test]
fn catalog_membership_is_load_order_independent() {
    let other = ExportItem::Func {
        name: "ping".to_string(),
        func: FuncModel { params: vec![], results: vec![] },
    };
    let mut r1 = Registry::new();
    r1.publish("a", extract_tools_from_component(&vec![add_export()]));
    r1.publish("b", extract_tools_from_component(&vec![other]));
    let mut r2 = Registry::new();
    let other2 = ExportItem::Func {
        name: "ping".to_string(),
        func: FuncModel { params: vec![], results: vec![] },
    };
    r2.publish("b", extract_tools_from_component(&vec![other2]));
    r2.publish("a", extract_tools_from_component(&vec![add_export()]));
    let names = |reg: &Registry| {
        let mut ns: Vec<String> = reg
            .list_tools()
            .iter()
            .map(|t| match field_str(t, "name") {
                Some(Json::Str(s)) => s.clone(),
                _ => panic!("missing name"),
            })
            .collect();
        ns.sort();
        ns
    };
    assert_eq!(names(&r1), names(&r2));
}

#[test]
fn resolution_reports_distinct_errors() {
    let mut reg = Registry::new();
    assert!(matches!(reg.resolve("add", None), Err(ResolveError::ToolNotFound)));
    reg.publish("calc", extract_tools_from_component(&vec![add_export()]));
    assert!(reg.resolve("add", None).is_ok());
    assert!(matches!(reg.resolve("add", Some("ghost")), Err(ResolveError::ComponentNotFound)));
    assert!(matches!(reg.resolve("sub", Some("calc")), Err(ResolveError::ToolNotInComponent)));
}

#[test]
fn unload_removes_tools_and_routes() {
    let mut reg = Registry::new();
    reg.publish("calc", extract_tools_from_component(&vec![add_export()]));
    let removed = reg.unload("calc").unwrap();
    assert_eq!(removed, vec!["add"]);
    assert!(matches!(reg.resolve("add", None), Err(ResolveError::ToolNotFound)));
    assert!(reg.list_tools().is_empty());
    assert!(matches!(reg.unload("calc"), Err(ResolveError::ComponentNotFound)));
}

#[test]
fn unloaded_names_leave_the_catalog() {
    let mut reg = Registry::new();
    reg.publish("calc", extract_tools_from_component(&vec![add_export()]));
    let other = ExportItem::Func {
        name: "mul".to_string(),
        func: FuncModel { params: vec![], results: vec![] },
    };
    reg.publish("mult", extract_tools_from_component(&vec![other]));
    reg.unload("calc").unwrap();
    let names: Vec<String> = reg
        .list_tools()
        .iter()
        .map(|t| match field_str(t, "name") {
            Some(Json::Str(s)) => s.clone(),
            _ => panic!("missing name"),
        })
        .collect();
    assert!(!names.contains(&"add".to_string()));
    assert!(names.contains(&"mul".to_string()));
}

#[test]
fn add_scenario_marshals_and_frames() {
    let desc = create_tool_info_from_func(
        "add",
        None,
        "add",
        &FuncModel {
            params: vec![StructuralType::U32, StructuralType::U32],
            results: vec![StructuralType::U32],
        },
    );
    let args = obj(vec![
        ("param0", Json::Num(JsonNum::Int(2))),
        ("param1", Json::Num(JsonNum::Int(3))),
    ]);
    let vals = marshal_args(&desc, &args).unwrap();
    let (x, y) = match (&vals[0], &vals[1]) {
        (ComponentValue::U32(a), ComponentValue::U32(b)) => (*a, *b),
        other => panic!("unexpected: {:?}", other),
    };
    let sum = x + y;
    assert_eq!(sum, 5);
    let framed = wrap_result(results_to_json(&vec![ComponentValue::U32(sum)]));
    match field_str(&framed, "result") {
        Some(Json::Num(JsonNum::Int(n))) => assert_eq!(*n, 5),
        other => panic!("unexpected: {:?}", other),
    }
    let coerced = obj(vec![
        ("param0", Json::Str("2".to_string())),
        ("param1", Json::Num(JsonNum::Int(3))),
    ]);
    let vals2 = marshal_args(&desc, &coerced).unwrap();
    assert!(matches!(vals2[0], ComponentValue::U32(2)));
    assert!(matches!(vals2[1], ComponentValue::U32(3)));
}

#[test]
fn add_scenario_coerces_string_arguments() {
    let desc = create_tool_info_from_func(
        "add",
        None,
        "add",
        &FuncModel {
            params: vec![StructuralType::U32, StructuralType::U32],
            results: vec![StructuralType::U32],
        },
    );
    let args = obj(vec![
        ("param0", Json::Str("2".to_string())),
        ("param1", Json::Num(JsonNum::Int(3))),
    ]);
    let vals = marshal_args(&desc, &args).unwrap();
    assert!(matches!(vals[0], ComponentValue::U32(2)));
}

#[test]
fn add_scenario_names_the_missing_parameter() {
    let desc = create_tool_info_from_func(
        "add",
        None,
        "add",
        &FuncModel {
            params: vec![StructuralType::U32, StructuralType::U32],
            results: vec![StructuralType::U32],
        },
    );
    let args = obj(vec![("param0", Json::Num(JsonNum::Int(2)))]);
    let err = marshal_args(&desc, &args).unwrap_err();
    assert!(err.message.contains("param1"));
}

#[test]
fn results_fold_back_by_arity() {
    assert!(matches!(results_to_json(&vec![]), Json::Null));
    match results_to_json(&vec![ComponentValue::U8(1), ComponentValue::U8(2)]) {
        Json::Arr(items) => assert_eq!(items.len(), 2),
        other => panic!("unexpected: {:?}", other),
    }
}

#[test]
fn contexts_are_built_fresh_per_call() {
    let scoped = fresh_context(Some(KvScope {
        component_id: "calc".to_string(),
        tenant_id: "7".to_string(),
    }));
    assert!(scoped.inherit_stdio);
    assert_eq!(scoped.kv.as_ref().unwrap().component_id, "calc");
    let bare = fresh_context(None);
    assert!(bare.kv.is_none());
    assert_eq!(kv_prefix("calc", "7"), "mecp:app:calc:7:");
}

#[test]
fn call_outcomes_never_escalate() {
    let ok = call_outcome(Ok(Json::Num(JsonNum::Int(5))));
    assert!(ok.success);
    assert!(ok.error.is_none());
    let err = call_outcome(Err("instantiation failed".to_string()));
    assert!(!err.success);
    assert!(matches!(err.output, Json::Null));
    assert_eq!(err.error.as_deref(), Some("instantiation failed"));
}

#[test]
fn test_extract_parameters_from_schema() {
    let schema = obj(vec![
        ("type", Json::Str("object".to_string())),
        (
            "properties",
            obj(vec![
                (
                    "amount",
                    obj(vec![
                        ("type", Json::Str("integer".to_string())),
                        ("description", Json::Str("Amount to increment".to_string())),
                    ]),
                ),
                (
                    "name",
                    obj(vec![
                        ("type", Json::Str("string".to_string())),
                        ("description", Json::Str("Name parameter".to_string())),
                    ]),
                ),
            ]),
        ),
        ("required", Json::Arr(vec![Json::Str("amount".to_string())])),
    ]);
    let params = extract_parameters_from_schema(&schema);
    assert_eq!(params.len(), 2);
    let amount_param = params.iter().find(|p| p.name == "amount").unwrap();
    assert!(amount_param.required);
    assert_eq!(amount_param.param_type, "integer");
    let name_param = params.iter().find(|p| p.name == "name").unwrap();
    assert!(!name_param.required);
    assert_eq!(name_param.param_type, "string");
}

#[test]
fn call_planning_composes_resolution_and_binding() {
    let mut reg = Registry::new();
    reg.publish("calc", extract_tools_from_component(&vec![add_export()]));
    let args = obj(vec![
        ("param0", Json::Num(JsonNum::Int(2))),
        ("param1", Json::Num(JsonNum::Int(3))),
    ]);
    let plan = mecp::engine::plan_call(&reg, "add", None, &args, None).unwrap();
    assert_eq!(plan.component_id, "calc");
    assert_eq!(plan.function_name, "add");
    assert!(plan.interface_name.is_none());
    assert_eq!(plan.params.len(), 2);
    assert!(plan.context.kv.is_none());
    let missing = mecp::engine::plan_call(&reg, "ghost", None, &args, None);
    assert!(matches!(
        missing,
        Err(mecp::engine::CallError::Resolution(ResolveError::ToolNotFound))
    ));
    let bad = obj(vec![("param0", Json::Num(JsonNum::Int(2)))]);
    match mecp::engine::plan_call(&reg, "add", None, &bad, None) {
        Err(mecp::engine::CallError::Arguments(e)) => {
            assert_eq!(e.message, "missing parameter: param1");
        }
        other => panic!("unexpected: {:?}", other),
    }
}
