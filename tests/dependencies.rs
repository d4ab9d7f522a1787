use fastrapi::dependencies::{
    execute_dependencies, ArgSource, DependencyInfo, InjectionType, RequestParams,
};
use fastrapi::security::PySecurityScopes;
use fastrapi::signatures::{
    build_injection_plan, parse_dependencies, text_contains, CallableSignature, DependencyError,
    ParamDefault, ParamDescriptor,
};

fn node(func: u64, name: &str, use_cache: bool, subs: Vec<DependencyInfo>) -> DependencyInfo {
    let plan = subs
        .iter()
        .map(|s| {
            let n = s.param_name.clone().unwrap();
            (n.clone(), InjectionType::Dependency(n))
        })
        .collect();
    DependencyInfo {
        func,
        is_async: false,
        param_name: Some(name.to_string()),
        scopes: Vec::new(),
        use_cache,
        sub_dependencies: subs,
        injection_plan: plan,
    }
}

fn no_params() -> RequestParams {
    RequestParams { path_params: Vec::new(), query_params: Vec::new() }
}

fn calls_of(plan: &fastrapi::dependencies::ResolutionPlan, f: u64) -> usize {
    plan.invocations.iter().filter(|i| i.func == f).count()
}

#[test]
fn shared_cached_dependency_runs_once() {
    let common = 1;
    let deps = vec![
        node(2, "a", true, vec![node(common, "c", true, Vec::new())]),
        node(3, "b", true, vec![node(common, "c", true, Vec::new())]),
    ];
    let plan = execute_dependencies(&deps, &no_params());
    assert_eq!(calls_of(&plan, common), 1);
    assert_eq!(plan.invocations.len(), 3);
    assert_eq!(plan.invocations[0].func, common);
    match &plan.invocations[2].arguments[0].1 {
        ArgSource::Result(i) => assert_eq!(*i, 0),
        _ => panic!("expected a dependency result"),
    }
    assert_eq!(plan.results, vec![("a".to_string(), 1), ("b".to_string(), 2)]);
}

#[test]
fn uncached_dependency_runs_per_position() {
    let common = 1;
    let deps = vec![
        node(2, "a", false, vec![node(common, "c", false, Vec::new())]),
        node(3, "b", false, vec![node(common, "c", false, Vec::new())]),
    ];
    let plan = execute_dependencies(&deps, &no_params());
    assert_eq!(calls_of(&plan, common), 2);
    assert_eq!(plan.invocations.len(), 4);
}

#[test]
fn parameters_come_from_path_then_query() {
    let mut d = node(5, "p", true, Vec::new());
    d.injection_plan = vec![
        ("id".to_string(), InjectionType::Parameter),
        ("q".to_string(), InjectionType::Parameter),
        ("missing".to_string(), InjectionType::Parameter),
        ("req".to_string(), InjectionType::Request),
        ("sec".to_string(), InjectionType::SecurityScopes),
    ];
    d.scopes = vec!["read".to_string()];
    let req = RequestParams {
        path_params: vec![("id".to_string(), "7".to_string())],
        query_params: vec![("id".to_string(), "8".to_string()), ("q".to_string(), "x".to_string())],
    };
    let plan = execute_dependencies(&vec![d], &req);
    let args = &plan.invocations[0].arguments;
    assert_eq!(args.len(), 4);
    assert!(matches!(&args[0].1, ArgSource::Value(v) if v == "7"));
    assert!(matches!(&args[1].1, ArgSource::Value(v) if v == "x"));
    assert!(matches!(&args[2].1, ArgSource::Request));
    assert!(matches!(&args[3].1, ArgSource::Scopes(s) if s == &vec!["read".to_string()]));
}

fn param(name: &str, annotation: &str, default: ParamDefault) -> ParamDescriptor {
    ParamDescriptor { name: name.to_string(), annotation: annotation.to_string(), default }
}

#[test]
fn parse_builds_tree_and_plans() {
    let table = vec![
        CallableSignature {
            func: 10,
            is_async: false,
            params: vec![
                param("self", "", ParamDefault::Depends { target: Some(11), use_cache: true }),
                param("user", "", ParamDefault::Depends { target: Some(11), use_cache: false }),
                param("q", "str", ParamDefault::Plain),
            ],
        },
        CallableSignature {
            func: 11,
            is_async: true,
            params: vec![
                param("token", "", ParamDefault::Security { target: Some(12), scopes: vec!["me".to_string()], use_cache: true }),
                param("request", "<class 'Request'>", ParamDefault::Plain),
                param("scopes", "SecurityScopes", ParamDefault::Plain),
                param("id", "int", ParamDefault::Plain),
            ],
        },
        CallableSignature { func: 12, is_async: false, params: Vec::new() },
    ];
    let deps = parse_dependencies(&table, 10).unwrap();
    assert_eq!(deps.len(), 1);
    let user = &deps[0];
    assert_eq!(user.func, 11);
    assert!(user.is_async);
    assert!(!user.use_cache);
    assert_eq!(user.param_name.as_deref(), Some("user"));
    assert_eq!(user.sub_dependencies.len(), 1);
    assert_eq!(user.sub_dependencies[0].scopes, vec!["me".to_string()]);
    let kinds: Vec<String> = user.injection_plan.iter().map(|(n, k)| format!("{}:{:?}", n, k)).collect();
    assert_eq!(kinds, vec!["token:Dependency(\"token\")", "request:Request", "scopes:SecurityScopes", "id:Parameter"]);
}

#[test]
fn parse_rejects_cycles_and_unknown_callables() {
    let cyc = vec![
        CallableSignature { func: 1, is_async: false, params: vec![param("a", "", ParamDefault::Depends { target: Some(2), use_cache: true })] },
        CallableSignature { func: 2, is_async: false, params: vec![param("b", "", ParamDefault::Depends { target: Some(1), use_cache: true })] },
    ];
    assert_eq!(parse_dependencies(&cyc, 1).unwrap_err(), DependencyError::Cycle(1));
    let unknown = vec![CallableSignature { func: 1, is_async: false, params: vec![param("a", "", ParamDefault::Depends { target: Some(5), use_cache: true })] }];
    assert_eq!(parse_dependencies(&unknown, 1).unwrap_err(), DependencyError::UnknownCallable(5));
    assert_eq!(parse_dependencies(&unknown, 9).unwrap_err(), DependencyError::UnknownCallable(9));
}

#[test]
fn injection_plan_precedence() {
    let subs = vec![node(3, "Request", true, Vec::new())];
    let params = vec![param("Request", "Request", ParamDefault::Plain), param("x", "", ParamDefault::Plain)];
    let plan = build_injection_plan(&params, &subs);
    assert!(matches!(&plan[0].1, InjectionType::Dependency(n) if n == "Request"));
    assert!(matches!(&plan[1].1, InjectionType::Parameter));
}

#[test]
fn substring_search() {
    assert!(text_contains("starlette.requests.Request", "Request"));
    assert!(!text_contains("Req", "Request"));
    assert!(text_contains("abc", ""));
}

#[test]
fn security_scopes_join() {
    let s = PySecurityScopes::new(Some(vec!["a".to_string(), "b c".to_string()]));
    assert_eq!(s.scope_str(), "a b c");
    assert_eq!(PySecurityScopes::new(None).scope_str(), "");
}
