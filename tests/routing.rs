use fastrapi::dispatch::{
    convert_response, dispatch, error_response, plan_arguments, ArgStep, CallForm, ContentType,
    DispatchError, PlanOutcome, RequestBody, ResponseBody, ReturnedValue,
};
use fastrapi::responses::{
    PyHTMLResponse, PyHTTPException, PyJSONResponse, PyPlainTextResponse, PyRedirectResponse,
};
use fastrapi::routes::{
    build_route_handler, make_route_key, parse_route_metadata, AnnotatedParam, ResponseType,
    RouteHandler, RouteRegistry, WebSocketRoutes,
};

fn handler(func: u64, validators: &[&str]) -> RouteHandler {
    RouteHandler {
        func,
        is_async: false,
        path_params: Vec::new(),
        param_validators: validators.iter().enumerate().map(|(i, n)| (n.to_string(), 100 + i as u64)).collect(),
        response_type: ResponseType::Auto,
        dependencies: Vec::new(),
    }
}

fn keys(k: &[&str]) -> RequestBody {
    RequestBody::Object(k.iter().map(|s| s.to_string()).collect())
}

#[test]
fn route_key_format() {
    assert_eq!(make_route_key("GET", "/users"), "GET /users");
}

#[test]
fn last_registration_wins() {
    let mut reg = RouteRegistry::new();
    reg.register("GET", "/items", handler(1, &[]));
    reg.register("POST", "/items", handler(2, &[]));
    reg.register("GET", "/items", handler(3, &[]));
    assert_eq!(reg.lookup("GET", "/items").unwrap().func, 3);
    assert_eq!(reg.lookup("POST", "/items").unwrap().func, 2);
    assert!(reg.lookup("PUT", "/items").is_none());
    let routes: Vec<(String, String)> = reg.routes().to_vec();
    assert_eq!(routes.len(), 2);
    assert_eq!(routes[0], ("GET".to_string(), "/items".to_string()));
}

#[test]
fn unregistered_route_is_not_found() {
    let mut reg = RouteRegistry::new();
    reg.register("GET", "/a", handler(1, &[]));
    let r = dispatch(&reg, "GET", "/b", &RequestBody::Absent);
    assert!(matches!(r, Err(DispatchError::NotFound)));
    let w = error_response(DispatchError::NotFound);
    assert_eq!(w.status, 404);
}

#[test]
fn two_body_params_missing_one() {
    let h = handler(7, &["user", "item"]);
    let plan = plan_arguments(&h, &keys(&["user"]));
    assert_eq!(plan.steps, vec![ArgStep::ValidateField { validator: 0, field: 0 }]);
    assert_eq!(plan.outcome, PlanOutcome::MissingField { validator: 1 });
    let w = error_response(DispatchError::MissingField(h.param_validators[1].0.clone()));
    assert_eq!(w.status, 422);
    match w.body {
        ResponseBody::Detail(d) => assert_eq!(d, "Missing required parameter: item"),
        _ => panic!("expected a detail body"),
    }
}

#[test]
fn two_body_params_both_present() {
    let h = handler(7, &["user", "item"]);
    let plan = plan_arguments(&h, &keys(&["item", "user"]));
    assert_eq!(
        plan.steps,
        vec![
            ArgStep::ValidateField { validator: 0, field: 1 },
            ArgStep::ValidateField { validator: 1, field: 0 },
        ]
    );
    assert_eq!(plan.outcome, PlanOutcome::Invoke);
    let ok = convert_response(ResponseType::Auto, ReturnedValue::Value("{\"ok\":true}".to_string()));
    assert_eq!(ok.status, 200);
}

#[test]
fn single_body_param_takes_whole_payload() {
    let h = handler(7, &["user"]);
    let plan = plan_arguments(&h, &RequestBody::Other);
    assert_eq!(plan.steps, vec![ArgStep::ValidateWhole { validator: 0 }]);
    assert_eq!(plan.outcome, PlanOutcome::Invoke);
}

#[test]
fn several_params_need_object() {
    let h = handler(7, &["a", "b"]);
    let plan = plan_arguments(&h, &RequestBody::Other);
    assert!(plan.steps.is_empty());
    assert_eq!(plan.outcome, PlanOutcome::PayloadNotObject);
    let w = error_response(DispatchError::PayloadNotObject);
    assert_eq!(w.status, 422);
}

#[test]
fn no_validators_pass_fields_through() {
    let h = handler(7, &[]);
    let plan = plan_arguments(&h, &keys(&["x", "y"]));
    assert_eq!(plan.steps, vec![ArgStep::PassField { field: 0 }, ArgStep::PassField { field: 1 }]);
    assert_eq!(plan.outcome, PlanOutcome::Invoke);
}

#[test]
fn fast_path_matches_general_path() {
    let mut reg = RouteRegistry::new();
    reg.register("GET", "/", handler(1, &[]));
    let fast = dispatch(&reg, "GET", "/", &RequestBody::Absent).unwrap();
    assert!(matches!(fast.1, CallForm::NoArguments));
    let general = dispatch(&reg, "GET", "/", &keys(&[])).unwrap();
    match general.1 {
        CallForm::Planned(p) => {
            assert!(p.steps.is_empty());
            assert_eq!(p.outcome, PlanOutcome::Invoke);
        }
        CallForm::NoArguments => panic!("expected a plan"),
    }
    let a = convert_response(ResponseType::Auto, ReturnedValue::Value("1".to_string()));
    let b = convert_response(ResponseType::Auto, ReturnedValue::Value("1".to_string()));
    assert_eq!((a.status, a.content_type), (b.status, b.content_type));
}

#[test]
fn convert_each_kind() {
    let h = convert_response(ResponseType::Html, ReturnedValue::Html(PyHTMLResponse::new("<p>".to_string(), 201)));
    assert_eq!((h.status, h.content_type), (201, ContentType::Html));
    let j = convert_response(ResponseType::Json, ReturnedValue::Json(PyJSONResponse::new("[]".to_string(), 42)));
    assert_eq!((j.status, j.content_type), (200, ContentType::Json));
    let t = convert_response(ResponseType::PlainText, ReturnedValue::PlainText(PyPlainTextResponse::new("hi".to_string(), 200)));
    assert_eq!(t.content_type, ContentType::PlainText);
    let p = convert_response(ResponseType::Redirect, ReturnedValue::Redirect(PyRedirectResponse::new("/x".to_string(), 301)));
    assert_eq!(p.status, 308);
    assert_eq!(p.location.as_deref(), Some("/x"));
    let q = convert_response(ResponseType::Redirect, ReturnedValue::Redirect(PyRedirectResponse::new("/y".to_string(), 307)));
    assert_eq!(q.status, 307);
    let n = convert_response(ResponseType::Auto, ReturnedValue::Nothing);
    assert_eq!(n.status, 204);
    let w = convert_response(ResponseType::Auto, ReturnedValue::Html(PyHTMLResponse::new("x".to_string(), 202)));
    assert_eq!((w.status, w.content_type), (202, ContentType::Html));
}

#[test]
fn mismatched_kind_is_internal_error() {
    let r = convert_response(ResponseType::Html, ReturnedValue::Value("1".to_string()));
    assert_eq!(r.status, 500);
    assert_eq!(r.content_type, ContentType::Unset);
}

#[test]
fn raised_and_failed_handlers() {
    let x = PyHTTPException::new(418, Some("teapot".to_string()), Some(vec![("X-A".to_string(), "1".to_string())]));
    let r = error_response(DispatchError::Raised(x));
    assert_eq!(r.status, 418);
    assert_eq!(r.headers.len(), 1);
    match r.body {
        ResponseBody::Detail(d) => assert_eq!(d, "teapot"),
        _ => panic!("expected a detail body"),
    }
    let bad = error_response(DispatchError::Raised(PyHTTPException::new(7, None, None)));
    assert_eq!(bad.status, 500);
    let f = error_response(DispatchError::HandlerFailed("boom".to_string()));
    assert_eq!(f.status, 500);
    match f.body {
        ResponseBody::Text(t) => assert_eq!(t, "Error in route handler: boom"),
        _ => panic!("expected text"),
    }
    let v = error_response(DispatchError::ValidationFailed("bad".to_string()));
    assert_eq!(v.status, 422);
    assert_eq!(error_response(DispatchError::Internal).status, 500);
}

#[test]
fn route_metadata_from_annotations() {
    let params = vec![
        AnnotatedParam { name: "user".to_string(), model: Some(9) },
        AnnotatedParam { name: "q".to_string(), model: None },
        AnnotatedParam { name: "return".to_string(), model: Some(10) },
    ];
    let (v, kind) = parse_route_metadata(&params, Some("<class 'fastrapi.PlainTextResponse'>"));
    assert_eq!(v, vec![("user".to_string(), 9)]);
    assert_eq!(kind, ResponseType::PlainText);
    assert_eq!(parse_route_metadata(&params, None).1, ResponseType::Auto);
    assert_eq!(parse_route_metadata(&params, Some("HTMLResponse")).1, ResponseType::Html);
    let h = build_route_handler("/u/{id}", 5, false, &params, Some("RedirectResponse"), Vec::new());
    assert_eq!(h.path_params, vec!["id"]);
    assert_eq!(h.response_type, ResponseType::Redirect);
    assert!(!h.is_fast_path());
}

#[test]
fn websocket_routes_last_wins() {
    let mut ws = WebSocketRoutes::new();
    ws.register("/ws", 1);
    ws.register("/ws", 2);
    assert_eq!(ws.lookup("/ws"), Some(2));
    assert_eq!(ws.lookup("/other"), None);
}
