//! The route table: handler descriptors keyed by `"{METHOD} {path}"`.
use vstd::prelude::*;

use crate::dependencies::DependencyInfo;
use crate::params::{extract_path_param_names, path_param_names};
use crate::signatures::{contains_text, text_contains};
use crate::CallableId;

verus! {

/// How a handler's return value is turned into a response, fixed when the
/// route is registered.
#[derive(Clone, Copy, Debug, PartialEq, Eq, Structural)]
pub enum ResponseType {
    Json,
    Html,
    PlainText,
    Redirect,
    Auto,
}

/// Everything the dispatcher needs to know about one route.
#[derive(Debug)]
pub struct RouteHandler {
    pub func: CallableId,
    pub is_async: bool,
    pub path_params: Vec<String>,
    pub param_validators: Vec<(String, CallableId)>,
    pub response_type: ResponseType,
    pub dependencies: Vec<DependencyInfo>,
}

impl RouteHandler {
    /// A route runs on the fast path when it has no validators, no
    /// dependencies and a synchronous handler.
    pub open spec fn spec_fast_path(&self) -> bool {
        self.param_validators@.len() == 0 && self.dependencies@.len() == 0 && !self.is_async
    }

    pub fn is_fast_path(&self) -> (r: bool)
        ensures
            r == self.spec_fast_path(),
    {
        self.param_validators.len() == 0 && self.dependencies.len() == 0 && !self.is_async
    }
}

#[verifier::external_type_specification]
#[verifier::external_body]
#[verifier::reject_recursive_types(K)]
#[verifier::reject_recursive_types(V)]
#[verifier::reject_recursive_types(S)]
pub struct ExConcurrentMap<K, V, S>(papaya::HashMap<K, V, S>);

/// What a concurrent key-to-slot index holds.
pub uninterp spec fn slot_entries(m: papaya::HashMap<String, usize>) -> Map<Seq<char>, usize>;

pub open spec fn no_slots() -> Map<Seq<char>, usize> {
    Map::empty()
}

/// Relies on papaya::HashMap::new: the map starts empty.
#[verifier::external_body]
fn slots_new() -> (r: papaya::HashMap<String, usize>)
    ensures
        slot_entries(r) == no_slots(),
{
    papaya::HashMap::new()
}

/// Relies on papaya::HashMapRef::insert: the key now maps to the value and
/// every other key is unchanged.
#[verifier::external_body]
fn slots_insert(m: &mut papaya::HashMap<String, usize>, key: String, slot: usize)
    ensures
        slot_entries(*final(m)) == slot_entries(*old(m)).insert(key@, slot),
{
    m.pin().insert(key, slot);
}

/// Relies on papaya::HashMapRef::get: the value stored under the key, if any.
#[verifier::external_body]
fn slots_get(m: &papaya::HashMap<String, usize>, key: &str) -> (r: Option<usize>)
    ensures
        r == (if slot_entries(*m).contains_key(key@) {
            Some(slot_entries(*m)[key@])
        } else {
            None
        }),
{
    m.pin().get(key).copied()
}

/// The key under which a route is stored: the method, one space, the path.
pub open spec fn route_key(method: Seq<char>, path: Seq<char>) -> Seq<char> {
    method + seq![' '] + path
}

pub fn make_route_key(method: &str, path: &str) -> (r: String)
    ensures
        r@ == route_key(method@, path@),
{
    let mut key = String::from_str(method);
    proof {
        reveal_strlit(" ");
    }
    key.append(" ");
    key.append(path);
    key
}

/// The route table. Registration appends the descriptor and points the key at
/// it; lookups read through a concurrent index, so many threads may look up
/// routes at once.
pub struct RouteRegistry {
    index: papaya::HashMap<String, usize>,
    handlers: Vec<RouteHandler>,
    keys: Vec<(String, String)>,
}

impl RouteRegistry {
    pub closed spec fn wf(&self) -> bool {
        &&& forall|k: Seq<char>| #[trigger]
            slot_entries(self.index).contains_key(k) ==> slot_entries(self.index)[k]
                < self.handlers@.len()
        &&& forall|i: int|
            0 <= i < self.keys@.len() ==> slot_entries(self.index).contains_key(
                #[trigger] route_key(self.keys@[i].0@, self.keys@[i].1@),
            )
        &&& forall|k: Seq<char>| #[trigger]
            slot_entries(self.index).contains_key(k) ==> exists|i: int|
                0 <= i < self.keys@.len() && route_key(self.keys@[i].0@, self.keys@[i].1@) == k
        &&& forall|i: int, j: int|
            0 <= i < j < self.keys@.len() ==> route_key(self.keys@[i].0@, self.keys@[i].1@)
                != route_key(self.keys@[j].0@, self.keys@[j].1@)
    }

    /// The table as a map from route key to descriptor.
    pub closed spec fn view(&self) -> Map<Seq<char>, RouteHandler> {
        Map::new(
            |k: Seq<char>| slot_entries(self.index).contains_key(k),
            |k: Seq<char>| self.handlers@[slot_entries(self.index)[k] as int],
        )
    }

    /// How many registrations the table has taken, replacements included.
    pub closed spec fn registrations(&self) -> nat {
        self.handlers@.len()
    }

    /// The registered `(method, path)` pairs, each once, in order of first
    /// registration.
    pub closed spec fn spec_routes(&self) -> Seq<(Seq<char>, Seq<char>)> {
        self.keys@.map_values(|p: (String, String)| (p.0@, p.1@))
    }

    pub fn new() -> (r: Self)
        ensures
            r.wf(),
            r@ == Map::<Seq<char>, RouteHandler>::empty(),
            r.spec_routes().len() == 0,
            r.registrations() == 0,
    {
        let r = RouteRegistry { index: slots_new(), handlers: Vec::new(), keys: Vec::new() };
        assert(r@ =~= Map::<Seq<char>, RouteHandler>::empty());
        r
    }

    /// Stores `handler` under `"{method} {path}"`, replacing any earlier
    /// descriptor for that key.
    pub fn register(&mut self, method: &str, path: &str, handler: RouteHandler)
        requires
            old(self).wf(),
            old(self).registrations() < usize::MAX,
        ensures
            final(self).wf(),
            final(self)@ == old(self)@.insert(route_key(method@, path@), handler),
            final(self).registrations() == old(self).registrations() + 1,
            old(self)@.contains_key(route_key(method@, path@)) ==> final(self).spec_routes()
                == old(self).spec_routes(),
            !old(self)@.contains_key(route_key(method@, path@)) ==> final(self).spec_routes()
                == old(self).spec_routes().push((method@, path@)),
    {
        let key = make_route_key(method, path);
        let existing = slots_get(&self.index, key.as_str());
        let slot = self.handlers.len();
        self.handlers.push(handler);
        slots_insert(&mut self.index, key, slot);
        if existing.is_none() {
            self.keys.push((String::from_str(method), String::from_str(path)));
        }
        assert(self@ =~= old(self)@.insert(route_key(method@, path@), handler));
        if existing.is_none() {
            assert(self.spec_routes() =~= old(self).spec_routes().push((method@, path@)));
        } else {
            assert(self.spec_routes() =~= old(self).spec_routes());
        }
        assert forall|k: Seq<char>| #[trigger]
            slot_entries(self.index).contains_key(k) implies exists|i: int|
                0 <= i < self.keys@.len() && route_key(self.keys@[i].0@, self.keys@[i].1@)
                    == k by {
            if k == route_key(method@, path@) && existing.is_none() {
                let i = self.keys@.len() - 1;
                assert(route_key(self.keys@[i].0@, self.keys@[i].1@) == k);
            } else if k != route_key(method@, path@) {
                assert(slot_entries(old(self).index).contains_key(k));
                let i = choose|i: int|
                    0 <= i < old(self).keys@.len() && route_key(
                        old(self).keys@[i].0@,
                        old(self).keys@[i].1@,
                    ) == k;
                assert(self.keys@[i] == old(self).keys@[i]);
            }
        }
    }

    /// The registered `(method, path)` pairs, each once, in order of first
    /// registration.
    pub fn routes(&self) -> (r: &Vec<(String, String)>)
        ensures
            r@.map_values(|p: (String, String)| (p.0@, p.1@)) == self.spec_routes(),
    {
        &self.keys
    }

    /// The descriptor most recently registered under `"{method} {path}"`.
    pub fn lookup(&self, method: &str, path: &str) -> (r: Option<&RouteHandler>)
        requires
            self.wf(),
        ensures
            r.is_some() == self@.contains_key(route_key(method@, path@)),
            r.is_some() ==> *r.unwrap() == self@[route_key(method@, path@)],
    {
        let key = make_route_key(method, path);
        match slots_get(&self.index, key.as_str()) {
            Some(slot) => Some(&self.handlers[slot]),
            None => None,
        }
    }
}

} // verus!

verus! {

/// After `register(method, path, h)`, the table maps that exact key to `h`,
/// and every other key to what it mapped to before: the latest registration
/// of a key wins, and `lookup` returns it.
pub proof fn lemma_last_registration_wins(
    before: RouteRegistry,
    after: RouteRegistry,
    method: Seq<char>,
    path: Seq<char>,
    handler: RouteHandler,
    other: Seq<char>,
)
    requires
        after@ == before@.insert(route_key(method, path), handler),
        other != route_key(method, path),
    ensures
        after@.contains_key(route_key(method, path)),
        after@[route_key(method, path)] == handler,
        after@.contains_key(other) == before@.contains_key(other),
        after@.contains_key(other) ==> after@[other] == before@[other],
{
}

/// One annotated parameter of a handler: its name, and the validation model
/// when the annotation is one.
#[derive(Clone, Debug)]
pub struct AnnotatedParam {
    pub name: String,
    pub model: Option<CallableId>,
}

/// The parameters validated by a model, in order, with their models; the
/// return annotation is never one.
pub open spec fn validators_of(ps: Seq<AnnotatedParam>) -> Seq<(Seq<char>, CallableId)>
    decreases ps.len(),
{
    if ps.len() == 0 {
        Seq::empty()
    } else {
        let prev = validators_of(ps.drop_last());
        let p = ps.last();
        if p.name@ != "return"@ && p.model.is_some() {
            prev.push((p.name@, p.model.unwrap()))
        } else {
            prev
        }
    }
}

/// The response kind declared by a handler's return annotation, by the
/// wrapper name the annotation mentions first in this order: HTML, JSON,
/// plain text, redirect; undeclared otherwise.
pub open spec fn response_type_of(annotation: Option<Seq<char>>) -> ResponseType {
    match annotation {
        None => ResponseType::Auto,
        Some(t) => if contains_text(t, "HTMLResponse"@) {
            ResponseType::Html
        } else if contains_text(t, "JSONResponse"@) {
            ResponseType::Json
        } else if contains_text(t, "PlainTextResponse"@) {
            ResponseType::PlainText
        } else if contains_text(t, "RedirectResponse"@) {
            ResponseType::Redirect
        } else {
            ResponseType::Auto
        },
    }
}

pub open spec fn opt_view(s: Option<&str>) -> Option<Seq<char>> {
    match s {
        Some(t) => Some(t@),
        None => None,
    }
}

fn response_type_from(annotation: Option<&str>) -> (r: ResponseType)
    ensures
        r == response_type_of(opt_view(annotation)),
{
    match annotation {
        None => ResponseType::Auto,
        Some(t) => if text_contains(t, "HTMLResponse") {
            ResponseType::Html
        } else if text_contains(t, "JSONResponse") {
            ResponseType::Json
        } else if text_contains(t, "PlainTextResponse") {
            ResponseType::PlainText
        } else if text_contains(t, "RedirectResponse") {
            ResponseType::Redirect
        } else {
            ResponseType::Auto
        },
    }
}

/// The validators and the declared response kind of a handler.
pub fn parse_route_metadata(params: &Vec<AnnotatedParam>, return_annotation: Option<&str>) -> (r: (
    Vec<(String, CallableId)>,
    ResponseType,
))
    ensures
        r.0@.map_values(|v: (String, CallableId)| (v.0@, v.1)) == validators_of(params@),
        r.1 == response_type_of(opt_view(return_annotation)),
{
    let ret = String::from_str("return");
    let mut validators: Vec<(String, CallableId)> = Vec::new();
    let mut i: usize = 0;
    while i < params.len()
        invariant
            i <= params@.len(),
            ret@ == "return"@,
            validators@.map_values(|v: (String, CallableId)| (v.0@, v.1)) == validators_of(
                params@.take(i as int),
            ),
        decreases params@.len() - i,
    {
        assert(params@.take(i as int + 1).drop_last() =~= params@.take(i as int));
        let p = &params[i];
        let ghost before = validators@;
        if p.name != ret && p.model.is_some() {
            validators.push((p.name.clone(), p.model.unwrap()));
            assert(validators@.map_values(|v: (String, CallableId)| (v.0@, v.1)) =~= before.map_values(
                |v: (String, CallableId)| (v.0@, v.1),
            ).push((p.name@, p.model.unwrap())));
        }
        i = i + 1;
    }
    assert(params@.take(i as int) =~= params@);
    (validators, response_type_from(return_annotation))
}

/// The descriptor registered for a handler: its path parameters parsed from
/// the pattern, its validators and response kind from its annotations.
pub fn build_route_handler(
    path: &str,
    func: CallableId,
    is_async: bool,
    params: &Vec<AnnotatedParam>,
    return_annotation: Option<&str>,
    dependencies: Vec<DependencyInfo>,
) -> (r: RouteHandler)
    ensures
        r.func == func,
        r.is_async == is_async,
        r.path_params@.map_values(|x: String| x@) == path_param_names(path@),
        r.param_validators@.map_values(|v: (String, CallableId)| (v.0@, v.1)) == validators_of(
            params@,
        ),
        r.response_type == response_type_of(opt_view(return_annotation)),
        r.dependencies == dependencies,
{
    let (param_validators, response_type) = parse_route_metadata(params, return_annotation);
    RouteHandler {
        func,
        is_async,
        path_params: extract_path_param_names(path),
        param_validators,
        response_type,
        dependencies,
    }
}

/// WebSocket handlers keyed by `"WS {path}"`.
pub struct WebSocketRoutes {
    index: papaya::HashMap<String, usize>,
    handlers: Vec<CallableId>,
}

/// The key under which a WebSocket route is stored.
pub open spec fn websocket_key(path: Seq<char>) -> Seq<char> {
    seq!['W', 'S', ' '] + path
}

impl WebSocketRoutes {
    pub closed spec fn wf(&self) -> bool {
        forall|k: Seq<char>| #[trigger]
            slot_entries(self.index).contains_key(k) ==> slot_entries(self.index)[k]
                < self.handlers@.len()
    }

    pub closed spec fn view(&self) -> Map<Seq<char>, CallableId> {
        Map::new(
            |k: Seq<char>| slot_entries(self.index).contains_key(k),
            |k: Seq<char>| self.handlers@[slot_entries(self.index)[k] as int],
        )
    }

    pub closed spec fn registrations(&self) -> nat {
        self.handlers@.len()
    }

    pub fn new() -> (r: Self)
        ensures
            r.wf(),
            r@ == Map::<Seq<char>, CallableId>::empty(),
            r.registrations() == 0,
    {
        let r = WebSocketRoutes { index: slots_new(), handlers: Vec::new() };
        assert(r@ =~= Map::<Seq<char>, CallableId>::empty());
        r
    }

    fn key_of(path: &str) -> (r: String)
        ensures
            r@ == websocket_key(path@),
    {
        let mut key = String::from_str("WS ");
        proof {
            reveal_strlit("WS ");
        }
        key.append(path);
        key
    }

    /// Stores the handler for `path`, replacing any earlier one.
    pub fn register(&mut self, path: &str, handler: CallableId)
        requires
            old(self).wf(),
            old(self).registrations() < usize::MAX,
        ensures
            final(self).wf(),
            final(self)@ == old(self)@.insert(websocket_key(path@), handler),
            final(self).registrations() == old(self).registrations() + 1,
    {
        let key = Self::key_of(path);
        let slot = self.handlers.len();
        self.handlers.push(handler);
        slots_insert(&mut self.index, key, slot);
        assert(self@ =~= old(self)@.insert(websocket_key(path@), handler));
    }

    /// The handler most recently registered for `path`.
    pub fn lookup(&self, path: &str) -> (r: Option<CallableId>)
        requires
            self.wf(),
        ensures
            r.is_some() == self@.contains_key(websocket_key(path@)),
            r.is_some() ==> r.unwrap() == self@[websocket_key(path@)],
    {
        let key = Self::key_of(path);
        match slots_get(&self.index, key.as_str()) {
            Some(slot) => Some(self.handlers[slot]),
            None => None,
        }
    }
}

} // verus!
