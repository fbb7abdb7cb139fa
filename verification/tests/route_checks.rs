use springboot::errors::BootError;
use springboot::route::apply_scope;
use springboot::route::args_new;
use springboot::route::bindings;
use springboot::route::AttrOption;
use springboot::route::HandlerAttr;
use springboot::route::HandlerRegistrar;
use springboot::route::HandlerSig;
use springboot::route::method_from_attr;
use springboot::route::method_name;
use springboot::route::MethodType;
use springboot::route::OptValue;
use springboot::route::parse_method;
use springboot::route::route_new;
use springboot::route::RouteArgs;
use springboot::route::with_methods;
use springboot::strutil::scope_path;

fn method_opt(verb: &str) -> AttrOption {
    AttrOption { key: "method".to_string(), value: OptValue::StrLit(verb.to_string()) }
}

fn handler(name: &str) -> HandlerSig {
    HandlerSig { name: name.to_string(), has_return_type: true }
}

#[test]
fn duplicate_verb_is_rejected() {
    let args = RouteArgs {
        path: "/x".to_string(),
        options: vec![method_opt("GET"), method_opt("GET")],
    };
    match route_new(&args, handler("h"), None) {
        Err(BootError::DuplicateVerbDeclaration { verb }) => assert_eq!(verb, "GET"),
        other => panic!("expected DuplicateVerbDeclaration, got {:?}", other),
    }
}

#[test]
fn zero_verbs_is_rejected() {
    let args = RouteArgs { path: "/x".to_string(), options: vec![] };
    match route_new(&args, handler("h"), None) {
        Err(BootError::ZeroVerbsDeclared) => {}
        other => panic!("expected ZeroVerbsDeclared, got {:?}", other),
    }
}

#[test]
fn multi_attribute_handler_with_no_verb_attribute_is_rejected() {
    let attrs = vec![
        HandlerAttr {
            name: "doc".to_string(),
            args: RouteArgs { path: "ignored".to_string(), options: vec![] },
        },
        HandlerAttr {
            name: "allow".to_string(),
            args: RouteArgs { path: "ignored".to_string(), options: vec![] },
        },
    ];
    match with_methods(&attrs, handler("h")) {
        Err(BootError::ZeroVerbsDeclared) => {}
        other => panic!("expected ZeroVerbsDeclared, got {:?}", other),
    }
}

#[test]
fn unknown_attribute_key_is_rejected() {
    let args = RouteArgs {
        path: "/x".to_string(),
        options: vec![AttrOption {
            key: "verb".to_string(),
            value: OptValue::StrLit("GET".to_string()),
        }],
    };
    match route_new(&args, handler("h"), None) {
        Err(BootError::UnknownAttributeKey { key }) => assert_eq!(key, "verb"),
        other => panic!("expected UnknownAttributeKey, got {:?}", other),
    }
}

#[test]
fn method_option_is_forbidden_in_single_verb_form() {
    let args = RouteArgs { path: "/x".to_string(), options: vec![method_opt("POST")] };
    match args_new(&args, Some(MethodType::Get)) {
        Err(BootError::MethodForbiddenHere) => {}
        other => panic!("expected MethodForbiddenHere, got {:?}", other),
    }
}

#[test]
fn non_literal_method_value_is_rejected() {
    let args = RouteArgs {
        path: "/x".to_string(),
        options: vec![AttrOption { key: "method".to_string(), value: OptValue::NotLiteral }],
    };
    match args_new(&args, None) {
        Err(BootError::AttributeValueNotString { key }) => assert_eq!(key, "method"),
        other => panic!("expected AttributeValueNotString, got {:?}", other),
    }
}

#[test]
fn lower_case_verb_token_is_unknown() {
    let args = RouteArgs { path: "/x".to_string(), options: vec![method_opt("get")] };
    match args_new(&args, None) {
        Err(BootError::UnknownVerb { verb }) => assert_eq!(verb, "get"),
        other => panic!("expected UnknownVerb, got {:?}", other),
    }
}

#[test]
fn handler_without_return_type_is_rejected() {
    let args = RouteArgs { path: "/x".to_string(), options: vec![method_opt("GET")] };
    let sig = HandlerSig { name: "h".to_string(), has_return_type: false };
    match route_new(&args, sig, None) {
        Err(BootError::MissingHandlerReturnType) => {}
        other => panic!("expected MissingHandlerReturnType, got {:?}", other),
    }
}

#[test]
fn every_verb_token_parses_and_prints() {
    let verbs = vec!["GET", "POST", "PUT", "DELETE", "HEAD", "OPTIONS", "TRACE", "PATCH"];
    for v in verbs {
        let m = parse_method(v).unwrap();
        assert_eq!(method_name(m), v);
    }
    assert_eq!(method_from_attr("post"), Some(MethodType::Post));
    assert_eq!(method_from_attr("doc"), None);
}

#[test]
fn multi_attribute_handler_yields_one_binding_per_attribute() {
    let attrs = vec![
        HandlerAttr {
            name: "get".to_string(),
            args: RouteArgs { path: "/a".to_string(), options: vec![] },
        },
        HandlerAttr {
            name: "doc".to_string(),
            args: RouteArgs { path: "ignored".to_string(), options: vec![] },
        },
        HandlerAttr {
            name: "delete".to_string(),
            args: RouteArgs { path: "/b".to_string(), options: vec![] },
        },
    ];
    let route = with_methods(&attrs, handler("example")).unwrap();
    let bs = bindings(&route);
    assert_eq!(bs.len(), 2);
    assert_eq!(bs[0].path, "/a");
    assert_eq!(bs[0].methods, vec![MethodType::Get]);
    assert_eq!(bs[0].handler, "example");
    assert_eq!(bs[1].path, "/b");
    assert_eq!(bs[1].methods, vec![MethodType::Delete]);
}

#[test]
fn registrar_appends_exactly_its_bindings() {
    let args = RouteArgs { path: "/x".to_string(), options: vec![method_opt("GET")] };
    let route = route_new(&args, handler("h"), None).unwrap();
    let router = route.register(Vec::new());
    assert_eq!(router.len(), 1);
    assert_eq!(router[0].path, "/x");
    let router = route.register(router);
    assert_eq!(router.len(), 2);
}

#[test]
fn nested_scopes_compose_left_to_right() {
    let inner = scope_path("/v1", "/x");
    assert_eq!(inner, "/v1/x");
    let outer = scope_path("/api", inner.as_str());
    assert_eq!(outer, "/api/v1/x");
}

#[test]
fn scope_never_duplicates_a_separator() {
    assert_eq!(scope_path("/api/", "/x"), "/api/x");
    assert_eq!(scope_path("/api", "x"), "/api/x");
    assert_eq!(scope_path("", "/x"), "/x");
    assert_eq!(scope_path("/api", ""), "/api");
}

#[test]
fn apply_scope_prefixes_every_binding() {
    let args = RouteArgs { path: "/x".to_string(), options: vec![method_opt("GET")] };
    let route = route_new(&args, handler("h"), None).unwrap();
    let bs = bindings(&route);
    let scoped = apply_scope("/api", &apply_scope("/v1", &bs));
    assert_eq!(scoped[0].path, "/api/v1/x");
    assert_eq!(scoped[0].handler, "h");
}
