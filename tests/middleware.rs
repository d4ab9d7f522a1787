use fastrapi::dispatch::{error_response, DispatchError};
use fastrapi::middleware::{
    after_middleware, build_cors_layer, check_host, parse_cors_params, parse_gzip_params,
    parse_session_params, parse_trusted_host_params, AllowList, ConfigError, CorsConfig,
    CorsOptions, HostVerdict, Layer, MiddlewareSet, MiddlewareStep, SessionOptions,
    TrustedHostMiddleware, GZipMiddleware,
};

fn strs(v: &[&str]) -> Vec<String> {
    v.iter().map(|s| s.to_string()).collect()
}

#[test]
fn cors_defaults_and_overrides() {
    let d = CorsConfig::default();
    assert_eq!(d.allow_methods, strs(&["GET", "POST", "PUT", "DELETE"]));
    assert_eq!(d.max_age, 600);
    let c = parse_cors_params(CorsOptions {
        allow_origins: Some(strs(&["*"])),
        allow_methods: None,
        allow_headers: Some(strs(&["x-a"])),
        allow_credentials: Some(true),
        expose_headers: None,
        max_age: Some(60),
    });
    assert_eq!(c.allow_origins, strs(&["*"]));
    assert_eq!(c.allow_methods.len(), 4);
    assert!(c.allow_credentials);
    assert_eq!(c.max_age, 60);
    let p = build_cors_layer(&c);
    assert!(matches!(p.origins, AllowList::Any));
    assert!(matches!(&p.headers, AllowList::Only(h) if h == &strs(&["x-a"])));
    assert!(p.expose_headers.is_none());
    assert_eq!(p.max_age_secs, 60);
}

#[test]
fn trusted_hosts() {
    let any = TrustedHostMiddleware::default();
    assert_eq!(check_host(&any, "example.com:8000"), HostVerdict::Allow);
    let t = parse_trusted_host_params(Some(strs(&["www.example.com", "*.api.test"])), None);
    assert!(t.www_redirect);
    assert_eq!(check_host(&t, "www.example.com"), HostVerdict::Allow);
    assert_eq!(check_host(&t, "v1.api.test:443"), HostVerdict::Allow);
    assert_eq!(check_host(&t, "example.com"), HostVerdict::RedirectToWww);
    assert_eq!(check_host(&t, "evil.com"), HostVerdict::Reject);
    let no_redirect = parse_trusted_host_params(Some(strs(&["www.example.com"])), Some(false));
    assert_eq!(check_host(&no_redirect, "example.com"), HostVerdict::Reject);
}

#[test]
fn gzip_and_session_options() {
    assert_eq!(GZipMiddleware::default(), GZipMiddleware::new(500, 9));
    assert_eq!(parse_gzip_params(Some(1000), None), GZipMiddleware::new(1000, 9));
    let none = SessionOptions { secret_key: None, session_cookie: None, max_age: None, path: None, same_site: None, https_only: None, domain: None };
    assert_eq!(parse_session_params(none).unwrap_err(), ConfigError::MissingSecretKey);
    let s = parse_session_params(SessionOptions { secret_key: Some("k".to_string()), session_cookie: None, max_age: None, path: None, same_site: Some("strict".to_string()), https_only: None, domain: None }).unwrap();
    assert_eq!(s.session_cookie, "session");
    assert_eq!(s.max_age, Some(1209600));
    assert_eq!(s.path, "/");
    assert_eq!(s.same_site, "strict");
    assert!(!s.https_only);
}

#[test]
fn layer_order() {
    let mut m = MiddlewareSet::new();
    m.register_foreign(40);
    m.register_foreign(41);
    m.cors = Some(CorsConfig::default());
    m.gzip = Some(GZipMiddleware::default());
    m.trusted_host = Some(TrustedHostMiddleware::default());
    assert_eq!(
        m.layers(),
        vec![Layer::Compression, Layer::Foreign(0), Layer::Foreign(1), Layer::Cors, Layer::TrustedHost]
    );
}

#[test]
fn middleware_continue_or_respond() {
    assert!(matches!(after_middleware(Ok(None)), MiddlewareStep::Continue));
    let w = error_response(DispatchError::Internal);
    assert!(matches!(after_middleware(Ok(Some(w))), MiddlewareStep::Respond(r) if r.status == 500));
    assert!(matches!(after_middleware(Err("x".to_string())), MiddlewareStep::Failed));
}
