//! Middleware configuration: defaults and options for CORS, trusted hosts,
//! compression and sessions; the trusted-host check; and the order in which
//! the layers wrap the pipeline.
use vstd::prelude::*;

use crate::dependencies::{clone_strings, strings_view};
use crate::dispatch::WireResponse;
use crate::CallableId;

verus! {

fn strings_of(a: &str, b: &str, c: &str, d: &str) -> (r: Vec<String>)
    ensures
        r@.len() == 4,
        r@[0]@ == a@,
        r@[1]@ == b@,
        r@[2]@ == c@,
        r@[3]@ == d@,
{
    let mut v: Vec<String> = Vec::new();
    v.push(String::from_str(a));
    v.push(String::from_str(b));
    v.push(String::from_str(c));
    v.push(String::from_str(d));
    v
}

/// Cross-origin resource sharing policy.
#[derive(Clone, Debug)]
pub struct CorsConfig {
    pub allow_origins: Vec<String>,
    pub allow_methods: Vec<String>,
    pub allow_headers: Vec<String>,
    pub allow_credentials: bool,
    pub expose_headers: Vec<String>,
    pub max_age: u64,
}

/// The same policy under the name users configure it by.
pub type CORSMiddleware = CorsConfig;

impl CorsConfig {
    /// No origins, the methods GET, POST, PUT and DELETE, no headers, no
    /// credentials, nothing exposed, and ten minutes of preflight caching.
    pub open spec fn is_default(&self) -> bool {
        &&& self.allow_origins@.len() == 0
        &&& self.allow_methods@.len() == 4
        &&& self.allow_methods@[0]@ == "GET"@
        &&& self.allow_methods@[1]@ == "POST"@
        &&& self.allow_methods@[2]@ == "PUT"@
        &&& self.allow_methods@[3]@ == "DELETE"@
        &&& self.allow_headers@.len() == 0
        &&& !self.allow_credentials
        &&& self.expose_headers@.len() == 0
        &&& self.max_age == 600
    }

    pub fn new(
        allow_origins: Vec<String>,
        allow_methods: Vec<String>,
        allow_headers: Vec<String>,
        allow_credentials: bool,
        expose_headers: Vec<String>,
        max_age: u64,
    ) -> (r: Self)
        ensures
            r.allow_origins == allow_origins,
            r.allow_methods == allow_methods,
            r.allow_headers == allow_headers,
            r.allow_credentials == allow_credentials,
            r.expose_headers == expose_headers,
            r.max_age == max_age,
    {
        CorsConfig {
            allow_origins,
            allow_methods,
            allow_headers,
            allow_credentials,
            expose_headers,
            max_age,
        }
    }
}

impl Default for CorsConfig {
    fn default() -> (r: Self)
        ensures
            r.is_default(),
    {
        CorsConfig {
            allow_origins: Vec::new(),
            allow_methods: strings_of("GET", "POST", "PUT", "DELETE"),
            allow_headers: Vec::new(),
            allow_credentials: false,
            expose_headers: Vec::new(),
            max_age: 600,
        }
    }
}

/// The CORS options a user passed; an absent one keeps its default.
#[derive(Clone, Debug)]
pub struct CorsOptions {
    pub allow_origins: Option<Vec<String>>,
    pub allow_methods: Option<Vec<String>>,
    pub allow_headers: Option<Vec<String>>,
    pub allow_credentials: Option<bool>,
    pub expose_headers: Option<Vec<String>>,
    pub max_age: Option<u64>,
}

/// The default policy with each given option in place of its default.
pub fn parse_cors_params(opts: CorsOptions) -> (r: CorsConfig)
    ensures
        opts.allow_origins.is_some() ==> r.allow_origins == opts.allow_origins.unwrap(),
        opts.allow_origins.is_none() ==> r.allow_origins@.len() == 0,
        opts.allow_methods.is_some() ==> r.allow_methods == opts.allow_methods.unwrap(),
        opts.allow_methods.is_none() ==> r.allow_methods@.len() == 4 && r.allow_methods@[0]@
            == "GET"@ && r.allow_methods@[1]@ == "POST"@ && r.allow_methods@[2]@ == "PUT"@
            && r.allow_methods@[3]@ == "DELETE"@,
        opts.allow_headers.is_some() ==> r.allow_headers == opts.allow_headers.unwrap(),
        opts.allow_headers.is_none() ==> r.allow_headers@.len() == 0,
        r.allow_credentials == match opts.allow_credentials {
            Some(b) => b,
            None => false,
        },
        opts.expose_headers.is_some() ==> r.expose_headers == opts.expose_headers.unwrap(),
        opts.expose_headers.is_none() ==> r.expose_headers@.len() == 0,
        r.max_age == match opts.max_age {
            Some(m) => m,
            None => 600u64,
        },
{
    let mut config = CorsConfig::default();
    if let Some(v) = opts.allow_origins {
        config.allow_origins = v;
    }
    if let Some(v) = opts.allow_methods {
        config.allow_methods = v;
    }
    if let Some(v) = opts.allow_headers {
        config.allow_headers = v;
    }
    if let Some(v) = opts.allow_credentials {
        config.allow_credentials = v;
    }
    if let Some(v) = opts.expose_headers {
        config.expose_headers = v;
    }
    if let Some(v) = opts.max_age {
        config.max_age = v;
    }
    config
}

/// A list that a `*` entry opens to everything.
#[derive(Clone, Debug)]
pub enum AllowList {
    Any,
    Only(Vec<String>),
}

/// What the wire-level CORS layer is built from.
#[derive(Clone, Debug)]
pub struct CorsPolicy {
    pub origins: AllowList,
    pub methods: AllowList,
    pub headers: AllowList,
    pub allow_credentials: bool,
    /// Headers to expose; absent when there are none.
    pub expose_headers: Option<Vec<String>>,
    pub max_age_secs: u64,
}

pub open spec fn has_wildcard(v: Seq<String>) -> bool {
    exists|i: int| 0 <= i < v.len() && (#[trigger] v[i])@ == "*"@
}

pub open spec fn allow_list_of(v: Vec<String>, a: AllowList) -> bool {
    if has_wildcard(v@) {
        a is Any
    } else {
        a is Only && strings_view(a->Only_0@) == strings_view(v@)
    }
}

fn allow_list(v: &Vec<String>) -> (r: AllowList)
    ensures
        allow_list_of(*v, r),
{
    let star = String::from_str("*");
    let mut j: usize = 0;
    while j < v.len()
        invariant
            j <= v@.len(),
            star@ == "*"@,
            forall|k: int| 0 <= k < j ==> (#[trigger] v@[k])@ != "*"@,
        decreases v@.len() - j,
    {
        if v[j] == star {
            return AllowList::Any;
        }
        j = j + 1;
    }
    AllowList::Only(clone_strings(v))
}

/// Decides the CORS layer: a `*` among the origins, methods or headers
/// allows any; credentials as configured; exposed headers only when some are
/// listed; the configured preflight cache time.
pub fn build_cors_layer(config: &CorsConfig) -> (r: CorsPolicy)
    ensures
        allow_list_of(config.allow_origins, r.origins),
        allow_list_of(config.allow_methods, r.methods),
        allow_list_of(config.allow_headers, r.headers),
        r.allow_credentials == config.allow_credentials,
        r.expose_headers.is_some() == (config.expose_headers@.len() > 0),
        r.expose_headers.is_some() ==> strings_view(r.expose_headers.unwrap()@) == strings_view(
            config.expose_headers@,
        ),
        r.max_age_secs == config.max_age,
{
    CorsPolicy {
        origins: allow_list(&config.allow_origins),
        methods: allow_list(&config.allow_methods),
        headers: allow_list(&config.allow_headers),
        allow_credentials: config.allow_credentials,
        expose_headers: if config.expose_headers.len() > 0 {
            Some(clone_strings(&config.expose_headers))
        } else {
            None
        },
        max_age_secs: config.max_age,
    }
}

/// Which `Host` headers a server answers to.
#[derive(Clone, Debug)]
pub struct TrustedHostMiddleware {
    pub allowed_hosts: Vec<String>,
    pub www_redirect: bool,
}

impl TrustedHostMiddleware {
    /// The given hosts, or every host (`*`) when none are given.
    pub fn new(allowed_hosts: Option<Vec<String>>, www_redirect: bool) -> (r: Self)
        ensures
            allowed_hosts.is_some() ==> r.allowed_hosts == allowed_hosts.unwrap(),
            allowed_hosts.is_none() ==> r.allowed_hosts@.len() == 1 && r.allowed_hosts@[0]@
                == "*"@,
            r.www_redirect == www_redirect,
    {
        let hosts = match allowed_hosts {
            Some(h) => h,
            None => {
                let mut v: Vec<String> = Vec::new();
                v.push(String::from_str("*"));
                v
            },
        };
        TrustedHostMiddleware { allowed_hosts: hosts, www_redirect }
    }
}

impl Default for TrustedHostMiddleware {
    fn default() -> (r: Self)
        ensures
            r.allowed_hosts@.len() == 1,
            r.allowed_hosts@[0]@ == "*"@,
            r.www_redirect,
    {
        TrustedHostMiddleware::new(None, true)
    }
}

/// Builds the trusted-host settings from the options a user passed; an
/// absent option keeps its default.
pub fn parse_trusted_host_params(allowed_hosts: Option<Vec<String>>, www_redirect: Option<bool>) -> (r:
    TrustedHostMiddleware)
    ensures
        allowed_hosts.is_some() ==> r.allowed_hosts == allowed_hosts.unwrap(),
        allowed_hosts.is_none() ==> r.allowed_hosts@.len() == 1 && r.allowed_hosts@[0]@ == "*"@,
        r.www_redirect == match www_redirect {
            Some(b) => b,
            None => true,
        },
{
    let redirect = match www_redirect {
        Some(b) => b,
        None => true,
    };
    TrustedHostMiddleware::new(allowed_hosts, redirect)
}

/// The host name of a `Host` header: everything before the first `:`.
pub open spec fn host_part(h: Seq<char>) -> Seq<char>
    decreases h.len(),
{
    if h.len() == 0 || h[0] == ':' {
        Seq::empty()
    } else {
        seq![h[0]] + host_part(h.drop_first())
    }
}

/// A pattern matches a host when equal to it, or when it starts with `*`
/// and the host ends with the rest of it (`*` alone matches every host).
pub open spec fn host_matches(pattern: Seq<char>, host: Seq<char>) -> bool {
    ||| pattern == host
    ||| pattern.len() >= 1 && pattern[0] == '*' && host.len() >= pattern.len() - 1
        && host.subrange(host.len() - (pattern.len() - 1), host.len() as int) == pattern.drop_first()
}

/// What the trusted-host layer does with a request.
#[derive(Clone, Copy, Debug, PartialEq, Eq, Structural)]
pub enum HostVerdict {
    /// Pass the request on.
    Allow,
    /// Redirect to the same URL on `www.` plus the host.
    RedirectToWww,
    /// Answer 400.
    Reject,
}

pub open spec fn host_verdict(allowed: Seq<Seq<char>>, www_redirect: bool, header: Seq<char>) -> HostVerdict {
    let host = host_part(header);
    if exists|i: int| 0 <= i < allowed.len() && host_matches(#[trigger] allowed[i], host) {
        HostVerdict::Allow
    } else if www_redirect && exists|i: int|
        0 <= i < allowed.len() && #[trigger] allowed[i] == "www."@ + host {
        HostVerdict::RedirectToWww
    } else {
        HostVerdict::Reject
    }
}

fn host_of(header: &str) -> (r: String)
    ensures
        r@ == host_part(header@),
{
    let n = header.unicode_len();
    let mut k: usize = 0;
    assert(header@.skip(0) =~= header@);
    assert(header@.take(0) + host_part(header@) =~= host_part(header@));
    while k < n
        invariant
            n == header@.len(),
            k <= n,
            host_part(header@) == header@.take(k as int) + host_part(header@.skip(k as int)),
        ensures
            k == n || header@[k as int] == ':',
            host_part(header@) == header@.take(k as int) + host_part(header@.skip(k as int)),
        decreases n - k,
    {
        if header.get_char(k) == ':' {
            break;
        }
        proof {
            let rest = header@.skip(k as int);
            assert(rest[0] == header@[k as int]);
            assert(rest.drop_first() =~= header@.skip(k as int + 1));
            assert(header@.take(k as int + 1) =~= header@.take(k as int) + seq![header@[k as int]]);
        }
        k = k + 1;
    }
    proof {
        let rest = header@.skip(k as int);
        if k < n {
            assert(rest[0] == header@[k as int]);
        }
        assert(rest.len() == 0 || rest[0] == ':');
    }
    assert(header@.take(k as int) + host_part(header@.skip(k as int)) =~= header@.take(k as int));
    String::from_str(header.substring_char(0, k))
}

fn pattern_matches(pattern: &String, host: &String) -> (r: bool)
    ensures
        r == host_matches(pattern@, host@),
{
    if *pattern == *host {
        return true;
    }
    let pn = pattern.as_str().unicode_len();
    let hn = host.as_str().unicode_len();
    if pn == 0 || pattern.as_str().get_char(0) != '*' || hn < pn - 1 {
        return false;
    }
    let tail = String::from_str(pattern.as_str().substring_char(1, pn));
    let suffix = String::from_str(host.as_str().substring_char(hn - (pn - 1), hn));
    assert(pattern@.drop_first() =~= pattern@.subrange(1, pn as int));
    suffix == tail
}

/// Checks a `Host` header against the allowed hosts.
pub fn check_host(config: &TrustedHostMiddleware, header: &str) -> (r: HostVerdict)
    ensures
        r == host_verdict(strings_view(config.allowed_hosts@), config.www_redirect, header@),
{
    let host = host_of(header);
    let www = String::from_str("www.").concat(host.as_str());
    let ghost allowed = strings_view(config.allowed_hosts@);
    let mut found_www = false;
    let mut j: usize = 0;
    while j < config.allowed_hosts.len()
        invariant
            j <= config.allowed_hosts@.len(),
            allowed == strings_view(config.allowed_hosts@),
            host@ == host_part(header@),
            www@ == "www."@ + host@,
            forall|k: int| 0 <= k < j ==> !host_matches(#[trigger] allowed[k], host@),
            found_www == exists|k: int| 0 <= k < j && #[trigger] allowed[k] == "www."@ + host@,
        decreases config.allowed_hosts@.len() - j,
    {
        if pattern_matches(&config.allowed_hosts[j], &host) {
            assert(host_matches(allowed[j as int], host@));
            return HostVerdict::Allow;
        }
        let ghost prev = found_www;
        if config.allowed_hosts[j] == www {
            found_www = true;
        }
        proof {
            assert(config.allowed_hosts@[j as int]@ == allowed[j as int]);
            if allowed[j as int] == "www."@ + host@ {
                assert(found_www);
            } else {
                assert(found_www == prev);
                if found_www {
                    let k = choose|k: int| 0 <= k < j && #[trigger] allowed[k] == "www."@ + host@;
                    assert(0 <= k < j + 1);
                }
            }
        }
        j = j + 1;
    }
    if config.www_redirect && found_www {
        HostVerdict::RedirectToWww
    } else {
        HostVerdict::Reject
    }
}

/// Response compression settings.
#[derive(Clone, Copy, Debug, PartialEq, Eq, Structural)]
pub struct GZipMiddleware {
    pub minimum_size: u32,
    pub compresslevel: u32,
}

impl GZipMiddleware {
    pub fn new(minimum_size: u32, compresslevel: u32) -> (r: Self)
        ensures
            r.minimum_size == minimum_size,
            r.compresslevel == compresslevel,
    {
        GZipMiddleware { minimum_size, compresslevel }
    }
}

impl Default for GZipMiddleware {
    /// Compress bodies of 500 bytes or more, at level 9.
    fn default() -> (r: Self)
        ensures
            r.minimum_size == 500,
            r.compresslevel == 9,
    {
        GZipMiddleware { minimum_size: 500, compresslevel: 9 }
    }
}

/// Builds the compression settings from the options a user passed; an
/// absent option keeps its default.
pub fn parse_gzip_params(minimum_size: Option<u32>, compresslevel: Option<u32>) -> (r: GZipMiddleware)
    ensures
        r.minimum_size == match minimum_size {
            Some(v) => v,
            None => 500u32,
        },
        r.compresslevel == match compresslevel {
            Some(v) => v,
            None => 9u32,
        },
{
    let mut config = GZipMiddleware::default();
    if let Some(v) = minimum_size {
        config.minimum_size = v;
    }
    if let Some(v) = compresslevel {
        config.compresslevel = v;
    }
    config
}

/// Signed-cookie session settings.
#[derive(Clone, Debug)]
pub struct SessionMiddleware {
    pub secret_key: String,
    pub session_cookie: String,
    pub max_age: Option<i64>,
    pub path: String,
    pub same_site: String,
    pub https_only: bool,
    pub domain: Option<String>,
}

impl SessionMiddleware {
    pub fn new(
        secret_key: String,
        session_cookie: String,
        max_age: Option<i64>,
        path: String,
        same_site: String,
        https_only: bool,
        domain: Option<String>,
    ) -> (r: Self)
        ensures
            r.secret_key == secret_key,
            r.session_cookie == session_cookie,
            r.max_age == max_age,
            r.path == path,
            r.same_site == same_site,
            r.https_only == https_only,
            r.domain == domain,
    {
        SessionMiddleware { secret_key, session_cookie, max_age, path, same_site, https_only, domain }
    }
}

/// The session options a user passed.
#[derive(Clone, Debug)]
pub struct SessionOptions {
    pub secret_key: Option<String>,
    pub session_cookie: Option<String>,
    pub max_age: Option<i64>,
    pub path: Option<String>,
    pub same_site: Option<String>,
    pub https_only: Option<bool>,
    pub domain: Option<String>,
}

/// Why middleware options were refused.
#[derive(Clone, Copy, Debug, PartialEq, Eq, Structural)]
pub enum ConfigError {
    /// Session middleware needs a secret key.
    MissingSecretKey,
}

/// Fourteen days, in seconds.
pub const SESSION_MAX_AGE: i64 = 1209600;

/// Builds the session settings: the secret key is required; every other
/// option keeps its default when absent (cookie `session`, fourteen days,
/// path `/`, `lax`, not HTTPS-only, no domain).
pub fn parse_session_params(opts: SessionOptions) -> (r: Result<SessionMiddleware, ConfigError>)
    ensures
        opts.secret_key.is_none() <==> r == Err::<SessionMiddleware, ConfigError>(
            ConfigError::MissingSecretKey,
        ),
        r.is_ok() ==> r.unwrap().secret_key == opts.secret_key.unwrap(),
        r.is_ok() ==> r.unwrap().session_cookie@ == match opts.session_cookie {
            Some(s) => s@,
            None => "session"@,
        },
        r.is_ok() ==> r.unwrap().max_age == Some(
            match opts.max_age {
                Some(m) => m,
                None => SESSION_MAX_AGE,
            },
        ),
        r.is_ok() ==> r.unwrap().path@ == match opts.path {
            Some(s) => s@,
            None => "/"@,
        },
        r.is_ok() ==> r.unwrap().same_site@ == match opts.same_site {
            Some(s) => s@,
            None => "lax"@,
        },
        r.is_ok() ==> r.unwrap().https_only == match opts.https_only {
            Some(b) => b,
            None => false,
        },
        r.is_ok() ==> r.unwrap().domain == opts.domain,
{
    let secret_key = match opts.secret_key {
        Some(k) => k,
        None => {
            return Err(ConfigError::MissingSecretKey);
        },
    };
    let session_cookie = match opts.session_cookie {
        Some(s) => s,
        None => String::from_str("session"),
    };
    let max_age = match opts.max_age {
        Some(m) => m,
        None => SESSION_MAX_AGE,
    };
    let path = match opts.path {
        Some(s) => s,
        None => String::from_str("/"),
    };
    let same_site = match opts.same_site {
        Some(s) => s,
        None => String::from_str("lax"),
    };
    let https_only = match opts.https_only {
        Some(b) => b,
        None => false,
    };
    Ok(
        SessionMiddleware::new(
            secret_key,
            session_cookie,
            Some(max_age),
            path,
            same_site,
            https_only,
            opts.domain,
        ),
    )
}

/// One layer around the pipeline.
#[derive(Clone, Copy, Debug, PartialEq, Eq, Structural)]
pub enum Layer {
    Session,
    Compression,
    /// The foreign middleware registered in this position.
    Foreign(usize),
    Cors,
    TrustedHost,
}

/// The middleware an application configured.
#[derive(Clone, Debug)]
pub struct MiddlewareSet {
    pub session: Option<SessionMiddleware>,
    pub gzip: Option<GZipMiddleware>,
    /// Foreign middleware functions, in registration order.
    pub foreign: Vec<CallableId>,
    pub cors: Option<CorsConfig>,
    pub trusted_host: Option<TrustedHostMiddleware>,
}

pub open spec fn opt_layer(present: bool, l: Layer) -> Seq<Layer> {
    if present {
        seq![l]
    } else {
        Seq::empty()
    }
}

/// Outermost first: session, compression, the foreign middleware in
/// registration order, CORS, trusted hosts.
pub open spec fn spec_layers(m: MiddlewareSet) -> Seq<Layer> {
    opt_layer(m.session.is_some(), Layer::Session) + opt_layer(m.gzip.is_some(), Layer::Compression)
        + Seq::new(m.foreign@.len(), |i: int| Layer::Foreign(i as usize)) + opt_layer(
        m.cors.is_some(),
        Layer::Cors,
    ) + opt_layer(m.trusted_host.is_some(), Layer::TrustedHost)
}

impl MiddlewareSet {
    pub fn new() -> (r: Self)
        ensures
            r.session.is_none(),
            r.gzip.is_none(),
            r.foreign@.len() == 0,
            r.cors.is_none(),
            r.trusted_host.is_none(),
    {
        MiddlewareSet { session: None, gzip: None, foreign: Vec::new(), cors: None, trusted_host: None }
    }

    /// Adds a foreign middleware function after those already registered.
    pub fn register_foreign(&mut self, func: CallableId)
        ensures
            final(self).foreign@ == old(self).foreign@.push(func),
            final(self).session == old(self).session,
            final(self).gzip == old(self).gzip,
            final(self).cors == old(self).cors,
            final(self).trusted_host == old(self).trusted_host,
    {
        self.foreign.push(func);
    }

    /// The layers in the order they wrap the pipeline, outermost first.
    pub fn layers(&self) -> (r: Vec<Layer>)
        ensures
            r@ == spec_layers(*self),
    {
        let mut out: Vec<Layer> = Vec::new();
        if self.session.is_some() {
            out.push(Layer::Session);
        }
        if self.gzip.is_some() {
            out.push(Layer::Compression);
        }
        let ghost head = out@;
        let mut i: usize = 0;
        while i < self.foreign.len()
            invariant
                i <= self.foreign@.len(),
                out@ == head + Seq::new(i as nat, |k: int| Layer::Foreign(k as usize)),
            decreases self.foreign@.len() - i,
        {
            out.push(Layer::Foreign(i));
            i = i + 1;
            assert(out@ =~= head + Seq::new(i as nat, |k: int| Layer::Foreign(k as usize)));
        }
        if self.cors.is_some() {
            out.push(Layer::Cors);
        }
        if self.trusted_host.is_some() {
            out.push(Layer::TrustedHost);
        }
        assert(out@ =~= spec_layers(*self));
        out
    }
}

/// What follows a foreign middleware call.
#[derive(Clone, Debug)]
pub enum MiddlewareStep {
    /// Pass the request to the next layer.
    Continue,
    /// Answer with this response; inner layers are skipped.
    Respond(WireResponse),
    /// The middleware raised: answer 500.
    Failed,
}

/// A foreign middleware that returns nothing lets the request through; one
/// that returns a response answers with it; one that raises fails the
/// request.
pub fn after_middleware(result: Result<Option<WireResponse>, String>) -> (r: MiddlewareStep)
    ensures
        match result {
            Ok(None) => r is Continue,
            Ok(Some(w)) => r == MiddlewareStep::Respond(w),
            Err(_) => r is Failed,
        },
{
    match result {
        Ok(None) => MiddlewareStep::Continue,
        Ok(Some(w)) => MiddlewareStep::Respond(w),
        Err(_) => MiddlewareStep::Failed,
    }
}

} // verus!
