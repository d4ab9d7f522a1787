//! The request pipeline: route lookup, argument planning for the body,
//! and turning a handler's outcome into a wire response.
use vstd::prelude::*;

use crate::responses::{
    PyHTMLResponse, PyHTTPException, PyJSONResponse, PyPlainTextResponse, PyRedirectResponse,
};
use crate::routes::{route_key, ResponseType, RouteHandler, RouteRegistry};

verus! {

/// The request body as the dispatcher sees it.
#[derive(Clone, Debug)]
pub enum RequestBody {
    /// The request carried no body.
    Absent,
    /// A JSON object; its keys in document order.
    Object(Vec<String>),
    /// Any other JSON value.
    Other,
}

/// One argument-building step, run in order before the handler is called.
#[derive(Clone, Copy, Debug, PartialEq, Eq, Structural)]
pub enum ArgStep {
    /// Validate the whole payload with validator number `validator` and bind
    /// the result to that validator's parameter.
    ValidateWhole { validator: usize },
    /// Validate payload field number `field` with validator number
    /// `validator` and bind the result to that validator's parameter.
    ValidateField { validator: usize, field: usize },
    /// Bind payload field number `field`, unvalidated, to the parameter of
    /// the same name.
    PassField { field: usize },
}

/// What follows the steps of a plan once they all succeed.
#[derive(Clone, Copy, Debug, PartialEq, Eq, Structural)]
pub enum PlanOutcome {
    /// Call the handler with the bound arguments.
    Invoke,
    /// Answer 422: the route needs an object body.
    PayloadNotObject,
    /// Answer 422: the sub-key of validator number `validator` is missing.
    MissingField { validator: usize },
}

/// The steps that build a handler's arguments, and what comes after them.
#[derive(Clone, Debug)]
pub struct ArgPlan {
    pub steps: Vec<ArgStep>,
    pub outcome: PlanOutcome,
}

pub open spec fn names_of(v: Seq<String>) -> Seq<Seq<char>> {
    v.map_values(|x: String| x@)
}

pub open spec fn validator_names(h: RouteHandler) -> Seq<Seq<char>> {
    h.param_validators@.map_values(|p: (String, u64)| p.0@)
}

/// The keys of an object body; an absent body counts as an empty object.
pub open spec fn body_keys(b: RequestBody) -> Option<Seq<Seq<char>>> {
    match b {
        RequestBody::Absent => Some(Seq::empty()),
        RequestBody::Object(keys) => Some(names_of(keys@)),
        RequestBody::Other => None,
    }
}

/// The position of the first key equal to `name`.
pub open spec fn find_field(keys: Seq<Seq<char>>, name: Seq<char>) -> Option<int>
    decreases keys.len(),
{
    if keys.len() == 0 {
        None
    } else {
        match find_field(keys.drop_last(), name) {
            Some(i) => Some(i),
            None => if keys.last() == name {
                Some(keys.len() - 1)
            } else {
                None
            },
        }
    }
}

/// Each validator in turn takes its own sub-key, up to the first one whose
/// sub-key is missing.
pub open spec fn field_steps(names: Seq<Seq<char>>, keys: Seq<Seq<char>>) -> (
    Seq<ArgStep>,
    PlanOutcome,
)
    decreases names.len(),
{
    if names.len() == 0 {
        (Seq::empty(), PlanOutcome::Invoke)
    } else {
        let (steps, outcome) = field_steps(names.drop_last(), keys);
        if outcome != PlanOutcome::Invoke {
            (steps, outcome)
        } else {
            match find_field(keys, names.last()) {
                Some(f) => (
                    steps.push(
                        ArgStep::ValidateField {
                            validator: (names.len() - 1) as usize,
                            field: f as usize,
                        },
                    ),
                    PlanOutcome::Invoke,
                ),
                None => (steps, PlanOutcome::MissingField { validator: (names.len() - 1) as usize }),
            }
        }
    }
}

/// Every field of the body passed through, in order.
pub open spec fn pass_steps(n: nat) -> Seq<ArgStep> {
    Seq::new(n, |i: int| ArgStep::PassField { field: i as usize })
}

/// Argument planning: one validator takes the whole payload; several need an
/// object body and take a sub-key each; none pass the object's fields through.
pub open spec fn spec_plan(names: Seq<Seq<char>>, keys: Option<Seq<Seq<char>>>) -> (
    Seq<ArgStep>,
    PlanOutcome,
) {
    if names.len() == 1 {
        (seq![ArgStep::ValidateWhole { validator: 0 }], PlanOutcome::Invoke)
    } else {
        match keys {
            None => (Seq::empty(), PlanOutcome::PayloadNotObject),
            Some(k) => if names.len() == 0 {
                (pass_steps(k.len()), PlanOutcome::Invoke)
            } else {
                field_steps(names, k)
            },
        }
    }
}

fn find_field_index(keys: &Vec<String>, name: &String) -> (r: Option<usize>)
    ensures
        r.is_some() == find_field(names_of(keys@), name@).is_some(),
        r.is_some() ==> r.unwrap() as int == find_field(names_of(keys@), name@).unwrap(),
{
    let ghost ks = names_of(keys@);
    let mut j: usize = 0;
    while j < keys.len()
        invariant
            j <= keys@.len(),
            ks == names_of(keys@),
            find_field(ks.take(j as int), name@).is_none(),
        decreases keys@.len() - j,
    {
        assert(ks.take(j as int + 1).drop_last() =~= ks.take(j as int));
        if keys[j] == *name {
            assert(find_field(ks.take(j as int + 1), name@) == Some(j as int));
            assert(ks.take(keys@.len() as int) =~= ks);
            proof {
                lemma_find_field_prefix(ks, name@, j as int + 1);
            }
            return Some(j);
        }
        j = j + 1;
    }
    assert(ks.take(j as int) =~= ks);
    None
}

/// A key found within a prefix is found at the same place in the whole.
proof fn lemma_find_field_prefix(keys: Seq<Seq<char>>, name: Seq<char>, n: int)
    requires
        0 <= n <= keys.len(),
        find_field(keys.take(n), name).is_some(),
    ensures
        find_field(keys, name) == find_field(keys.take(n), name),
    decreases keys.len() - n,
{
    if n < keys.len() {
        assert(keys.take(n + 1).drop_last() =~= keys.take(n));
        lemma_find_field_prefix(keys, name, n + 1);
    } else {
        assert(keys.take(n) =~= keys);
    }
}

/// Plans how the handler's arguments are built from the body.
pub fn plan_arguments(handler: &RouteHandler, body: &RequestBody) -> (r: ArgPlan)
    ensures
        (r.steps@, r.outcome) == spec_plan(validator_names(*handler), body_keys(*body)),
{
    let n = handler.param_validators.len();
    let ghost names = validator_names(*handler);
    if n == 1 {
        let steps = vec![ArgStep::ValidateWhole { validator: 0 }];
        assert(steps@ =~= seq![ArgStep::ValidateWhole { validator: 0 }]);
        return ArgPlan { steps, outcome: PlanOutcome::Invoke };
    }
    let empty: Vec<String> = Vec::new();
    let keys: &Vec<String> = match body {
        RequestBody::Absent => &empty,
        RequestBody::Object(k) => k,
        RequestBody::Other => {
            return ArgPlan { steps: Vec::new(), outcome: PlanOutcome::PayloadNotObject };
        },
    };
    assert(body_keys(*body) == Some(names_of(keys@))) by {
        assert(names_of(empty@) =~= Seq::<Seq<char>>::empty());
    }
    let mut steps: Vec<ArgStep> = Vec::new();
    if n == 0 {
        let mut f: usize = 0;
        while f < keys.len()
            invariant
                f <= keys@.len(),
                steps@ == pass_steps(f as nat),
            decreases keys@.len() - f,
        {
            steps.push(ArgStep::PassField { field: f });
            f = f + 1;
            assert(steps@ =~= pass_steps(f as nat));
        }
        assert(names_of(keys@).len() == keys@.len());
        return ArgPlan { steps, outcome: PlanOutcome::Invoke };
    }
    let mut outcome = PlanOutcome::Invoke;
    let mut v: usize = 0;
    while v < n
        invariant
            n == handler.param_validators@.len(),
            names == validator_names(*handler),
            v <= n,
            (steps@, outcome) == field_steps(names.take(v as int), names_of(keys@)),
        decreases n - v,
    {
        assert(names.take(v as int + 1).drop_last() =~= names.take(v as int));
        assert(names.take(v as int + 1).last() == handler.param_validators@[v as int].0@);
        if outcome == PlanOutcome::Invoke {
            match find_field_index(keys, &handler.param_validators[v].0) {
                Some(f) => {
                    steps.push(ArgStep::ValidateField { validator: v, field: f });
                },
                None => {
                    outcome = PlanOutcome::MissingField { validator: v };
                },
            }
        }
        v = v + 1;
    }
    assert(names.take(n as int) =~= names);
    ArgPlan { steps, outcome }
}

/// How the handler is called once the route is found.
#[derive(Clone, Debug)]
pub enum CallForm {
    /// Call it with no arguments at all.
    NoArguments,
    /// Build the arguments as the plan says, then call it.
    Planned(ArgPlan),
}

/// Finds the route and decides how its handler is called. A route on the
/// fast path that got no body is called with no arguments.
pub fn dispatch<'a>(registry: &'a RouteRegistry, method: &str, path: &str, body: &RequestBody) -> (r:
    Result<(&'a RouteHandler, CallForm), DispatchError>)
    requires
        registry.wf(),
    ensures
        r.is_err() == !registry@.contains_key(route_key(method@, path@)),
        r.is_err() ==> matches!(r, Err(DispatchError::NotFound)),
        r.is_ok() ==> *r.unwrap().0 == registry@[route_key(method@, path@)],
        r.is_ok() ==> match r.unwrap().1 {
            CallForm::NoArguments => r.unwrap().0.spec_fast_path() && (*body is Absent),
            CallForm::Planned(p) => !(r.unwrap().0.spec_fast_path() && (*body is Absent))
                && (p.steps@, p.outcome) == spec_plan(
                validator_names(*r.unwrap().0),
                body_keys(*body),
            ),
        },
{
    match registry.lookup(method, path) {
        None => Err(DispatchError::NotFound),
        Some(handler) => {
            let absent = match body {
                RequestBody::Absent => true,
                _ => false,
            };
            if handler.is_fast_path() && absent {
                Ok((handler, CallForm::NoArguments))
            } else {
                Ok((handler, CallForm::Planned(plan_arguments(handler, body))))
            }
        },
    }
}

/// A route on the fast path that gets an empty object body builds no
/// arguments and goes straight to the call: the same call as the fast path.
pub proof fn lemma_fast_path_same_call(handler: RouteHandler)
    requires
        handler.spec_fast_path(),
    ensures
        spec_plan(validator_names(handler), Some(Seq::empty())) == (
            Seq::<ArgStep>::empty(),
            PlanOutcome::Invoke,
        ),
        spec_plan(validator_names(handler), Some(Seq::empty())) == spec_plan(
            validator_names(handler),
            body_keys(RequestBody::Absent),
        ),
{
    assert(pass_steps(0) =~= Seq::<ArgStep>::empty());
}

/// Why a request did not reach, or did not get past, its handler.
#[derive(Clone, Debug)]
pub enum DispatchError {
    /// No route under the method and path.
    NotFound,
    /// The route needs an object body and got something else.
    PayloadNotObject,
    /// A structured body parameter's sub-key is absent; holds its name.
    MissingField(String),
    /// A validator rejected its input; holds the validator's message.
    ValidationFailed(String),
    /// The handler raised an HTTP exception.
    Raised(PyHTTPException),
    /// The handler raised anything else; holds its message.
    HandlerFailed(String),
    /// A dependency failed, the return value did not match the declared
    /// kind, or the worker pool failed.
    Internal,
}

/// The media type of a response body.
#[derive(Clone, Copy, Debug, PartialEq, Eq, Structural)]
pub enum ContentType {
    Unset,
    Json,
    Html,
    PlainText,
}

/// A response body.
#[derive(Clone, Debug)]
pub enum ResponseBody {
    Empty,
    /// Text sent as it stands.
    Text(String),
    /// A JSON document, already serialised.
    Json(String),
    /// A JSON object with the single member `detail`, holding this string.
    Detail(String),
}

/// What goes on the wire.
#[derive(Clone, Debug)]
pub struct WireResponse {
    pub status: u16,
    pub content_type: ContentType,
    pub body: ResponseBody,
    pub location: Option<String>,
    pub headers: Vec<(String, String)>,
}

/// A handler's return value, as the bridge classified it.
#[derive(Clone, Debug)]
pub enum ReturnedValue {
    Html(PyHTMLResponse),
    Json(PyJSONResponse),
    PlainText(PyPlainTextResponse),
    Redirect(PyRedirectResponse),
    /// The handler returned nothing.
    Nothing,
    /// Any other value, serialised as JSON.
    Value(String),
}

/// How a handler call ended.
#[derive(Clone, Debug)]
pub enum HandlerOutcome {
    Returned(ReturnedValue),
    Raised(PyHTTPException),
    Failed(String),
}

/// A status the wire accepts: three digits, 100 to 999.
pub open spec fn valid_status(s: u16) -> bool {
    100 <= s <= 999
}

/// A wrapper's status where the wire accepts it, 200 otherwise.
pub open spec fn status_or_ok(s: u16) -> u16 {
    if valid_status(s) {
        s
    } else {
        200
    }
}

fn checked_status(s: u16) -> (r: u16)
    ensures
        r == status_or_ok(s),
{
    if 100 <= s && s <= 999 {
        s
    } else {
        200
    }
}

fn plain(status: u16, content_type: ContentType, body: ResponseBody) -> (r: WireResponse)
    ensures
        r.status == status,
        r.content_type == content_type,
        r.body == body,
        r.location.is_none(),
        r.headers@.len() == 0,
{
    WireResponse { status, content_type, body, location: None, headers: Vec::new() }
}

/// The 500 answer that carries nothing.
pub open spec fn is_bare_internal_error(r: WireResponse) -> bool {
    &&& r.status == 500
    &&& r.content_type == ContentType::Unset
    &&& r.body is Empty
    &&& r.location.is_none()
    &&& r.headers@.len() == 0
}

/// The kind a value is converted as: the declared one, except that a route
/// with no declared kind converts a response wrapper as the wrapper's kind.
pub open spec fn effective_kind(declared: ResponseType, value: ReturnedValue) -> ResponseType {
    if declared == ResponseType::Auto {
        match value {
            ReturnedValue::Html(_) => ResponseType::Html,
            ReturnedValue::Json(_) => ResponseType::Json,
            ReturnedValue::PlainText(_) => ResponseType::PlainText,
            ReturnedValue::Redirect(_) => ResponseType::Redirect,
            _ => ResponseType::Auto,
        }
    } else {
        declared
    }
}

/// Turns a return value into a response, branching once on the kind declared
/// for the route. A value of another kind than the declared one is an
/// internal error; with no declared kind, nothing is sent as 204 and any
/// other plain value as JSON.
pub fn convert_response(declared: ResponseType, value: ReturnedValue) -> (r: WireResponse)
    ensures
        r.location.is_some() <==> (value is Redirect && effective_kind(declared, value)
            == ResponseType::Redirect),
        r.headers@.len() == 0,
        match (effective_kind(declared, value), value) {
            (ResponseType::Html, ReturnedValue::Html(h)) => r.status == status_or_ok(h.status_code)
                && r.content_type == ContentType::Html && r.body == ResponseBody::Text(h.content),
            (ResponseType::Json, ReturnedValue::Json(j)) => r.status == status_or_ok(j.status_code)
                && r.content_type == ContentType::Json && r.body == ResponseBody::Json(j.content),
            (ResponseType::PlainText, ReturnedValue::PlainText(t)) => r.status == status_or_ok(
                t.status_code,
            ) && r.content_type == ContentType::PlainText && r.body == ResponseBody::Text(
                t.content,
            ),
            (ResponseType::Redirect, ReturnedValue::Redirect(d)) => r.status == (if d.status_code
                == 301 {
                308u16
            } else {
                307u16
            }) && r.location == Some(d.url) && r.body is Empty && r.content_type
                == ContentType::Unset,
            (ResponseType::Auto, ReturnedValue::Nothing) => r.status == 204 && r.body is Empty
                && r.content_type == ContentType::Unset,
            (ResponseType::Auto, ReturnedValue::Value(j)) => r.status == 200 && r.content_type
                == ContentType::Json && r.body == ResponseBody::Json(j),
            _ => is_bare_internal_error(r),
        },
{
    let kind = match (declared, &value) {
        (ResponseType::Auto, ReturnedValue::Html(_)) => ResponseType::Html,
        (ResponseType::Auto, ReturnedValue::Json(_)) => ResponseType::Json,
        (ResponseType::Auto, ReturnedValue::PlainText(_)) => ResponseType::PlainText,
        (ResponseType::Auto, ReturnedValue::Redirect(_)) => ResponseType::Redirect,
        _ => declared,
    };
    match kind {
        ResponseType::Html => match value {
            ReturnedValue::Html(h) => plain(
                checked_status(h.status_code),
                ContentType::Html,
                ResponseBody::Text(h.content),
            ),
            _ => plain(500, ContentType::Unset, ResponseBody::Empty),
        },
        ResponseType::Json => match value {
            ReturnedValue::Json(j) => plain(
                checked_status(j.status_code),
                ContentType::Json,
                ResponseBody::Json(j.content),
            ),
            _ => plain(500, ContentType::Unset, ResponseBody::Empty),
        },
        ResponseType::PlainText => match value {
            ReturnedValue::PlainText(t) => plain(
                checked_status(t.status_code),
                ContentType::PlainText,
                ResponseBody::Text(t.content),
            ),
            _ => plain(500, ContentType::Unset, ResponseBody::Empty),
        },
        ResponseType::Redirect => match value {
            ReturnedValue::Redirect(d) => {
                let status: u16 = if d.status_code == 301 {
                    308
                } else {
                    307
                };
                WireResponse {
                    status,
                    content_type: ContentType::Unset,
                    body: ResponseBody::Empty,
                    location: Some(d.url),
                    headers: Vec::new(),
                }
            },
            _ => plain(500, ContentType::Unset, ResponseBody::Empty),
        },
        ResponseType::Auto => match value {
            ReturnedValue::Nothing => plain(204, ContentType::Unset, ResponseBody::Empty),
            ReturnedValue::Value(j) => plain(200, ContentType::Json, ResponseBody::Json(j)),
            _ => plain(500, ContentType::Unset, ResponseBody::Empty),
        },
    }
}

/// The message sent when a structured body parameter's sub-key is absent.
pub open spec fn missing_field_detail(name: Seq<char>) -> Seq<char> {
    "Missing required parameter: "@ + name
}

/// The message sent when a route that needs an object body got another value.
pub open spec fn not_object_detail() -> Seq<char> {
    "Payload must be an object for this route"@
}

/// The message sent when a handler raised something other than an HTTP
/// exception.
pub open spec fn handler_failed_text(message: Seq<char>) -> Seq<char> {
    "Error in route handler: "@ + message
}

/// The wire status of each error.
pub open spec fn error_status(e: DispatchError) -> u16 {
    match e {
        DispatchError::NotFound => 404,
        DispatchError::PayloadNotObject => 422,
        DispatchError::MissingField(_) => 422,
        DispatchError::ValidationFailed(_) => 422,
        DispatchError::Raised(x) => if valid_status(x.status_code) {
            x.status_code
        } else {
            500
        },
        DispatchError::HandlerFailed(_) => 500,
        DispatchError::Internal => 500,
    }
}

/// The response for an error: 404 for a missing route, 422 with a `detail`
/// for a rejected body, the raised status with its detail and headers for an
/// HTTP exception, 500 otherwise.
pub fn error_response(e: DispatchError) -> (r: WireResponse)
    ensures
        r.status == error_status(e),
        r.location.is_none(),
        !(e is Raised) ==> r.headers@.len() == 0,
        match e {
            DispatchError::NotFound => (r.body is Text) && r.body->Text_0@
                == "Route handler not found"@ && r.content_type == ContentType::PlainText,
            DispatchError::PayloadNotObject => (r.body is Detail) && r.body->Detail_0@
                == not_object_detail() && r.content_type == ContentType::Json,
            DispatchError::MissingField(name) => (r.body is Detail) && r.body->Detail_0@
                == missing_field_detail(name@) && r.content_type == ContentType::Json,
            DispatchError::ValidationFailed(m) => r.body == ResponseBody::Detail(m)
                && r.content_type == ContentType::Json,
            DispatchError::Raised(x) => (x.detail.is_some() ==> r.body == ResponseBody::Detail(
                x.detail.unwrap(),
            ) && r.content_type == ContentType::Json) && (x.detail.is_none() ==> r.body is Empty
                && r.content_type == ContentType::Unset) && (x.headers.is_some() ==> r.headers
                == x.headers.unwrap()) && (x.headers.is_none() ==> r.headers@.len() == 0),
            DispatchError::HandlerFailed(m) => (r.body is Text) && r.body->Text_0@
                == handler_failed_text(m@) && r.content_type == ContentType::PlainText,
            DispatchError::Internal => is_bare_internal_error(r),
        },
{
    match e {
        DispatchError::NotFound => plain(
            404,
            ContentType::PlainText,
            ResponseBody::Text(String::from_str("Route handler not found")),
        ),
        DispatchError::PayloadNotObject => plain(
            422,
            ContentType::Json,
            ResponseBody::Detail(String::from_str("Payload must be an object for this route")),
        ),
        DispatchError::MissingField(name) => {
            let detail = String::from_str("Missing required parameter: ").concat(name.as_str());
            plain(422, ContentType::Json, ResponseBody::Detail(detail))
        },
        DispatchError::ValidationFailed(m) => plain(422, ContentType::Json, ResponseBody::Detail(m)),
        DispatchError::Raised(x) => {
            let status: u16 = if 100 <= x.status_code && x.status_code <= 999 {
                x.status_code
            } else {
                500
            };
            let (content_type, body) = match x.detail {
                Some(d) => (ContentType::Json, ResponseBody::Detail(d)),
                None => (ContentType::Unset, ResponseBody::Empty),
            };
            let headers = match x.headers {
                Some(h) => h,
                None => Vec::new(),
            };
            WireResponse { status, content_type, body, location: None, headers }
        },
        DispatchError::HandlerFailed(m) => {
            let text = String::from_str("Error in route handler: ").concat(m.as_str());
            plain(500, ContentType::PlainText, ResponseBody::Text(text))
        },
        DispatchError::Internal => plain(500, ContentType::Unset, ResponseBody::Empty),
    }
}

} // verus!
