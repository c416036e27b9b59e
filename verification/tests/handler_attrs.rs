use oasis_sdk::macros::handler_attrs::{
    attr_path_matches, cfg_attrs, client_method_ident, extract_generic_ty, find_attr,
    find_meta_key, gen_call_items, gen_module_items, gen_query_items, generate_once,
    module_name_arg, route, rpc_name, to_borrowed, unpack_handler_methods, unpack_method_args,
    AttrError, Attribute, Borrowed, CopyTypes, FnArg, GenerationRecord, Handlers, Lit, Meta,
    MetaNameValue, NestedMeta, ResultType, ReturnType, TraitMethod, Type,
};

fn path(name: &str, argument: Option<Type>) -> Type {
    Type::Path {
        last: name.to_string(),
        argument: argument.map(Box::new),
    }
}

fn plan(ty: &Type, copy_types: &CopyTypes) -> (bool, String) {
    let (borrowed, how) = to_borrowed(ty, copy_types);
    (borrowed, show(&how))
}

fn show(how: &Borrowed) -> String {
    match how {
        Borrowed::Ref => "&T".to_string(),
        Borrowed::RefElement => "&elem".to_string(),
        Borrowed::RefSlice => "&[elem]".to_string(),
        Borrowed::RefStr => "&str".to_string(),
        Borrowed::RefPath => "&Path".to_string(),
        Borrowed::Element => "elem".to_string(),
        Borrowed::Value => "T".to_string(),
        Borrowed::Inner(inner) => format!("in {}", show(inner)),
    }
}

fn strings(names: &[&str]) -> Vec<String> {
    names.iter().map(|n| n.to_string()).collect()
}

fn pair(name: &str, value: &str, is_ident: bool) -> NestedMeta {
    NestedMeta::NameValue(MetaNameValue {
        ident: Some(name.to_string()),
        lit: Lit::Str {
            value: value.to_string(),
            is_ident,
        },
    })
}

fn method(name: &str, inputs: Vec<FnArg>, attrs: Vec<Attribute>) -> TraitMethod {
    TraitMethod {
        ident: name.to_string(),
        attrs,
        has_receiver: false,
        inputs,
        output: ReturnType::Default,
    }
}

fn arg(name: &str, ty: Type) -> FnArg {
    FnArg {
        ident: Some(name.to_string()),
        ty,
    }
}

#[test]
fn kinds_have_their_names() {
    assert_eq!(Handlers::Calls.name(), "calls");
    assert_eq!(Handlers::Queries.name(), "queries");
    assert_eq!(Handlers::Calls.context_ty(), "TxContext");
    assert_eq!(Handlers::Queries.context_ty(), "Context");
    assert_eq!(Handlers::Calls.attr_name(), "call");
    assert_eq!(Handlers::Queries.attr_name(), "query");
    assert_eq!(Handlers::Calls.handler_fn_ident(), "handle_call");
    assert_eq!(Handlers::Queries.handler_fn_ident(), "handle_query");
    assert_eq!(Handlers::Calls.client_trait_ident(), "ClientCalls");
    assert_eq!(Handlers::Queries.client_trait_ident(), "ClientQueries");
}

#[test]
fn numbers_are_copy_types() {
    let mut copy_types = CopyTypes::new();
    for name in [
        "u8", "i8", "u16", "i16", "u32", "i32", "u64", "i64", "u128", "i128", "f32", "f64",
    ] {
        assert!(copy_types.is_copy_ty(name));
    }
    assert!(!copy_types.is_copy_ty("U8"));
    assert!(!copy_types.is_copy_ty("Address"));
    copy_types.register_copy_types(strings(&["Address", "Epoch"]));
    assert!(copy_types.is_copy_ty("Address"));
    assert!(copy_types.is_copy_ty("Epoch"));
    assert!(copy_types.is_copy_ty("u8"));
}

#[test]
fn arguments_are_borrowed_by_their_shape() {
    let copy_types = CopyTypes::new();
    assert_eq!(
        plan(&Type::Reference(Box::new(Type::Other)), &copy_types),
        (true, "&elem".to_string())
    );
    assert_eq!(
        plan(&Type::Array(Box::new(Type::Other)), &copy_types),
        (true, "&T".to_string())
    );
    assert_eq!(plan(&Type::Tuple, &copy_types), (true, "&T".to_string()));
    assert_eq!(plan(&Type::ImplTrait, &copy_types), (true, "&T".to_string()));
    assert_eq!(plan(&Type::TraitObject, &copy_types), (true, "&T".to_string()));
    assert_eq!(plan(&Type::Other, &copy_types), (false, "T".to_string()));
    assert_eq!(
        plan(&path("String", None), &copy_types),
        (true, "&str".to_string())
    );
    assert_eq!(
        plan(&path("PathBuf", None), &copy_types),
        (true, "&Path".to_string())
    );
    assert_eq!(
        plan(&path("Vec", Some(path("u8", None))), &copy_types),
        (true, "&[elem]".to_string())
    );
    assert_eq!(
        plan(&path("Cell", Some(path("String", None))), &copy_types),
        (false, "elem".to_string())
    );
    assert_eq!(plan(&path("u64", None), &copy_types), (false, "T".to_string()));
    assert_eq!(
        plan(&path("Address", None), &copy_types),
        (true, "&T".to_string())
    );
}

#[test]
fn wrappers_are_looked_through() {
    let copy_types = CopyTypes::new();
    for wrapper in ["Box", "Arc", "Rc", "RefCell", "Mutex", "RwLock"] {
        assert_eq!(
            plan(&path(wrapper, Some(path("u64", None))), &copy_types),
            (false, "in T".to_string())
        );
        assert_eq!(
            plan(&path(wrapper, Some(path("String", None))), &copy_types),
            (true, "in &str".to_string())
        );
    }
    let deep = path("Box", Some(path("Arc", Some(path("Vec", Some(Type::Other))))));
    assert_eq!(plan(&deep, &copy_types), (true, "in in &[elem]".to_string()));
    let grouped = Type::Group(Box::new(Type::Paren(Box::new(path("String", None)))));
    assert_eq!(plan(&grouped, &copy_types), (true, "&str".to_string()));
    let boxed = path("Box", Some(Type::Tuple));
    assert!(matches!(extract_generic_ty(&boxed), Type::Tuple));
}

#[test]
fn registered_types_are_passed_by_value() {
    let mut copy_types = CopyTypes::new();
    copy_types.register_copy_types(strings(&["Address"]));
    assert_eq!(plan(&path("Address", None), &copy_types), (false, "T".to_string()));
}

#[test]
fn generator_runs_once_for_each_module() {
    let mut record = GenerationRecord::new();
    assert!(!record.contains("src/a.rs"));
    assert_eq!(generate_once(&mut record, "src/a.rs".to_string(), || 1), Some(1));
    assert_eq!(generate_once(&mut record, "src/a.rs".to_string(), || 2), None);
    assert_eq!(generate_once(&mut record, "src/b.rs".to_string(), || 3), Some(3));
    assert!(record.contains("src/a.rs"));
    assert!(record.contains("src/b.rs"));
    assert!(!record.contains("src/c.rs"));
}

#[test]
fn attribute_paths_are_compared_from_the_end() {
    let expected = strings(&["sdk", "call"]);
    assert!(attr_path_matches(&strings(&["sdk", "call"]), &expected));
    assert!(attr_path_matches(&strings(&["call"]), &expected));
    assert!(attr_path_matches(&strings(&["oasis", "sdk", "call"]), &expected));
    assert!(!attr_path_matches(&strings(&["sdk", "query"]), &expected));
    assert!(!attr_path_matches(&strings(&["other", "call"]), &expected));
    assert!(attr_path_matches(&Vec::new(), &expected));
}

#[test]
fn first_matching_attribute_that_parses_is_found() {
    let attrs = vec![
        Attribute {
            path: strings(&["doc"]),
            meta: Some(Meta::Path),
        },
        Attribute {
            path: strings(&["sdk", "call"]),
            meta: None,
        },
        Attribute {
            path: strings(&["sdk", "call"]),
            meta: Some(Meta::List(Vec::new())),
        },
        Attribute {
            path: strings(&["call"]),
            meta: Some(Meta::Path),
        },
    ];
    assert_eq!(find_attr(&attrs, &strings(&["sdk", "call"])), Some(2));
    assert_eq!(find_attr(&attrs, &strings(&["sdk", "query"])), None);
    assert_eq!(find_attr(&attrs, &strings(&["doc"])), Some(0));
}

#[test]
fn meta_key_is_found_by_name() {
    let metas = vec![
        NestedMeta::Other,
        pair("name", "Insert", true),
        pair("client_method", "put", true),
        pair("name", "Other", true),
    ];
    assert_eq!(find_meta_key(&metas, "name"), Some(1));
    assert_eq!(find_meta_key(&metas, "client_method"), Some(2));
    assert_eq!(find_meta_key(&metas, "module_name"), None);
    assert_eq!(find_meta_key(&metas, "Name"), None);
}

#[test]
fn module_name_must_be_a_string() {
    assert_eq!(module_name_arg(&Vec::new()), Ok(None));
    assert_eq!(
        module_name_arg(&vec![pair("module_name", "MODULE_NAME", true)]),
        Ok(Some("MODULE_NAME".to_string()))
    );
    let other = NestedMeta::NameValue(MetaNameValue {
        ident: Some("module_name".to_string()),
        lit: Lit::Other,
    });
    assert_eq!(
        module_name_arg(&vec![other]),
        Err(AttrError::ExpectedModuleName)
    );
    assert_eq!(
        AttrError::ExpectedModuleName.message(),
        "expected `module_name` to be a valid path"
    );
}

#[test]
fn method_arguments_must_be_named() {
    let named = method("insert", vec![arg("key", Type::Other), arg("value", Type::Other)], Vec::new());
    let args = unpack_method_args(&named).unwrap();
    assert_eq!(args.len(), 2);
    assert_eq!(args[0].binding, "key");
    assert_eq!(args[0].position, 0);
    assert_eq!(args[1].binding, "value");
    assert_eq!(args[1].position, 1);
    let mut with_self = method("insert", Vec::new(), Vec::new());
    with_self.has_receiver = true;
    assert_eq!(
        unpack_method_args(&with_self).err(),
        Some(AttrError::SelfArgument)
    );
    let unnamed = method(
        "insert",
        vec![FnArg {
            ident: None,
            ty: Type::Other,
        }],
        Vec::new(),
    );
    assert_eq!(
        unpack_method_args(&unnamed).err(),
        Some(AttrError::UnnamedArgument)
    );
    assert_eq!(AttrError::SelfArgument.message(), "must not have a `self` argument");
    assert_eq!(AttrError::UnnamedArgument.message(), "all arguments must be named");
}

#[test]
fn handler_names_come_from_the_attribute_or_the_method() {
    let plain = method("get_balance", Vec::new(), Vec::new());
    assert_eq!(rpc_name(&plain, &Vec::new()), Ok("GetBalance".to_string()));
    assert_eq!(
        client_method_ident(&plain, &Vec::new()),
        Ok("get_balance".to_string())
    );
    let metas = vec![pair("name", "Balance", true), pair("client_method", "balance", true)];
    assert_eq!(rpc_name(&plain, &metas), Ok("Balance".to_string()));
    assert_eq!(client_method_ident(&plain, &metas), Ok("balance".to_string()));
    let bad = vec![pair("client_method", "not an ident", false)];
    assert_eq!(
        client_method_ident(&plain, &bad),
        Err(AttrError::ExpectedIdentifier)
    );
    let other = vec![NestedMeta::NameValue(MetaNameValue {
        ident: Some("name".to_string()),
        lit: Lit::Other,
    })];
    assert_eq!(rpc_name(&plain, &other), Err(AttrError::ExpectedLiteralString));
    assert_eq!(
        AttrError::ExpectedIdentifier.message(),
        "expected a valid identifier"
    );
    assert_eq!(
        AttrError::ExpectedLiteralString.message(),
        "expected a literal string containing valid identifier"
    );
}

#[test]
fn cfg_attributes_are_kept() {
    let attrs = vec![
        Attribute {
            path: strings(&["cfg"]),
            meta: None,
        },
        Attribute {
            path: strings(&["doc"]),
            meta: None,
        },
        Attribute {
            path: strings(&["cfg_attr"]),
            meta: None,
        },
        Attribute {
            path: strings(&["sdk", "cfg"]),
            meta: None,
        },
    ];
    assert_eq!(cfg_attrs(&attrs), vec![0, 2]);
}

#[test]
fn handlers_are_unpacked_in_order() {
    let methods = vec![
        method(
            "insert",
            vec![arg("key", path("Vec", Some(path("u8", None))))],
            vec![Attribute {
                path: strings(&["sdk", "call"]),
                meta: Some(Meta::List(vec![pair("name", "Put", true)])),
            }],
        ),
        method(
            "remove_key",
            vec![arg("key", path("String", None)), arg("force", path("u8", None))],
            vec![Attribute {
                path: strings(&["sdk", "query"]),
                meta: Some(Meta::List(vec![pair("name", "Ignored", true)])),
            }],
        ),
    ];
    let handlers = unpack_handler_methods(&methods, Handlers::Calls).unwrap();
    assert_eq!(handlers.len(), 2);
    assert_eq!(handlers[0].method, 0);
    assert_eq!(handlers[0].rpc_name, "Put");
    assert_eq!(handlers[0].client_method_ident, "insert");
    assert_eq!(handlers[1].rpc_name, "RemoveKey");
    assert_eq!(handlers[1].args.len(), 2);
    let items = gen_module_items(&handlers, Handlers::Calls);
    assert_eq!(items.handler_fn_ident, "handle_call");
    assert_eq!(items.context_ty, "TxContext");
    assert_eq!(items.arms.len(), 2);
    assert!(items.arms[0].serde_transparent);
    assert!(!items.arms[1].serde_transparent);
    assert_eq!(route("keyvalue", &items.arms, "keyvalue.Put"), Some(0));
    assert_eq!(route("keyvalue", &items.arms, "keyvalue.RemoveKey"), Some(1));
    assert_eq!(route("keyvalue", &items.arms, "keyvalue.put"), None);
    assert_eq!(route("keyvalue", &items.arms, "Keyvalue.Put"), None);
    assert_eq!(route("keyvalue", &items.arms, "other.Put"), None);
    assert_eq!(route("keyvalue", &items.arms, "keyvaluePut"), None);
    assert_eq!(route("keyvalue", &items.arms, "Put"), None);
}

#[test]
fn items_are_planned_for_calls_and_queries() {
    let mut record = GenerationRecord::new();
    let copy_types = CopyTypes::new();
    let mut get = method(
        "get",
        vec![arg("key", path("Vec", Some(path("u8", None)))), arg("n", path("u64", None))],
        Vec::new(),
    );
    get.output = ReturnType::Type(path("Result", Some(path("Value", None))));
    let mut plain = method("plain", vec![arg("n", path("u64", None))], Vec::new());
    plain.output = ReturnType::Type(path("Value", None));
    let methods = vec![get, plain, method("unit", Vec::new(), Vec::new())];
    let items = gen_query_items(
        &methods,
        &vec![pair("module_name", "MODULE_NAME", true)],
        &copy_types,
        &mut record,
        "src/kv.rs".to_string(),
    )
    .unwrap();
    assert_eq!(items.module_name, Some("MODULE_NAME".to_string()));
    assert_eq!(items.module.context_ty, "Context");
    assert_eq!(items.module.handler_fn_ident, "handle_query");
    assert!(items.client.struct_and_ctor);
    assert_eq!(items.client.trait_ident, "ClientQueries");
    assert_eq!(items.client.methods.len(), 3);
    let first = &items.client.methods[0];
    assert_eq!(first.method_ident, "get");
    assert_eq!(first.rpc_name, "Get");
    assert!(first.any_is_borrowed);
    assert!(!first.serde_transparent);
    assert!(matches!(first.result, ResultType::OkOfResult));
    assert_eq!(show(&first.args[0].ty), "&[elem]");
    assert_eq!(show(&first.args[1].ty), "T");
    let second = &items.client.methods[1];
    assert!(!second.any_is_borrowed);
    assert!(second.serde_transparent);
    assert!(matches!(second.result, ResultType::Same));
    assert!(matches!(items.client.methods[2].result, ResultType::Unit));

    let items = gen_call_items(
        &methods,
        &Vec::new(),
        &copy_types,
        &mut record,
        "src/kv.rs".to_string(),
    )
    .unwrap();
    assert_eq!(items.module_name, None);
    assert_eq!(items.module.context_ty, "TxContext");
    assert!(!items.client.struct_and_ctor);
    assert_eq!(items.client.trait_ident, "ClientCalls");
}

#[test]
fn nothing_is_planned_for_a_method_with_self() {
    let mut record = GenerationRecord::new();
    let mut bad = method("get", Vec::new(), Vec::new());
    bad.has_receiver = true;
    let failed = gen_call_items(
        &vec![bad],
        &Vec::new(),
        &CopyTypes::new(),
        &mut record,
        "src/kv.rs".to_string(),
    );
    assert_eq!(failed.err(), Some(AttrError::SelfArgument));
    assert!(!record.contains("src/kv.rs"));
}

#[test]
fn copy_type_is_registered_once() {
    let mut copy_types = CopyTypes::new();
    copy_types.register_copy_types(strings(&["Address", "u8", "Address"]));
    assert!(copy_types.is_copy_ty("Address"));
    assert!(copy_types.is_copy_ty("u8"));
    assert!(!copy_types.is_copy_ty("Epoch"));
    copy_types.register_copy_types(strings(&["Epoch", "Address"]));
    assert!(copy_types.is_copy_ty("Epoch"));
    assert!(copy_types.is_copy_ty("Address"));
}
