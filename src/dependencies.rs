//! Dependency graph: building injection plans at registration time and
//! planning the per-request resolution with memoisation.
use vstd::prelude::*;

use crate::CallableId;

verus! {

/// Where the value of one formal parameter of a dependency comes from.
#[derive(Clone, Debug)]
pub enum InjectionType {
    /// The result of the sub-dependency that fills the parameter of this name.
    Dependency(String),
    /// A path parameter, or failing that a query parameter, of the same name.
    Parameter,
    /// The current request object.
    Request,
    /// A security-scopes value built from the dependency's scopes.
    SecurityScopes,
}

/// One parameter that is filled by calling another callable.
#[derive(Debug)]
pub struct DependencyInfo {
    pub func: CallableId,
    pub is_async: bool,
    pub param_name: Option<String>,
    pub scopes: Vec<String>,
    pub use_cache: bool,
    pub sub_dependencies: Vec<DependencyInfo>,
    pub injection_plan: Vec<(String, InjectionType)>,
}

/// An [`InjectionType`] with its name as a sequence of characters.
pub enum InjectionView {
    Dependency(Seq<char>),
    Parameter,
    Request,
    SecurityScopes,
}

pub open spec fn injection_view(t: InjectionType) -> InjectionView {
    match t {
        InjectionType::Dependency(n) => InjectionView::Dependency(n@),
        InjectionType::Parameter => InjectionView::Parameter,
        InjectionType::Request => InjectionView::Request,
        InjectionType::SecurityScopes => InjectionView::SecurityScopes,
    }
}

pub open spec fn plan_view(d: DependencyInfo) -> Seq<(Seq<char>, InjectionView)> {
    d.injection_plan@.map_values(|e: (String, InjectionType)| (e.0@, injection_view(e.1)))
}

pub open spec fn strings_view(v: Seq<String>) -> Seq<Seq<char>> {
    v.map_values(|x: String| x@)
}

pub open spec fn name_view(n: Option<String>) -> Option<Seq<char>> {
    match n {
        Some(s) => Some(s@),
        None => None,
    }
}

/// The path and query parameters of the current request.
#[derive(Clone, Debug)]
pub struct RequestParams {
    pub path_params: Vec<(String, String)>,
    pub query_params: Vec<(String, String)>,
}

pub type PairsView = Seq<(Seq<char>, Seq<char>)>;

pub open spec fn pairs_view(v: Seq<(String, String)>) -> PairsView {
    v.map_values(|p: (String, String)| (p.0@, p.1@))
}

/// The value of the last pair named `name`.
pub open spec fn last_pair(pairs: PairsView, name: Seq<char>) -> Option<Seq<char>>
    decreases pairs.len(),
{
    if pairs.len() == 0 {
        None
    } else if pairs.last().0 == name {
        Some(pairs.last().1)
    } else {
        last_pair(pairs.drop_last(), name)
    }
}

/// Where one argument of a planned call comes from.
#[derive(Clone, Debug)]
pub enum ArgSource {
    /// The result of the call with this position in the plan.
    Result(usize),
    /// A path or query parameter's value.
    Value(String),
    /// The current request object.
    Request,
    /// A security-scopes value holding these scopes.
    Scopes(Vec<String>),
}

pub enum SourceView {
    Result(nat),
    Value(Seq<char>),
    Request,
    Scopes(Seq<Seq<char>>),
}

pub open spec fn source_view(s: ArgSource) -> SourceView {
    match s {
        ArgSource::Result(i) => SourceView::Result(i as nat),
        ArgSource::Value(v) => SourceView::Value(v@),
        ArgSource::Request => SourceView::Request,
        ArgSource::Scopes(v) => SourceView::Scopes(strings_view(v@)),
    }
}

/// One call of a dependency callable, with its named arguments.
#[derive(Clone, Debug)]
pub struct Invocation {
    pub func: CallableId,
    pub is_async: bool,
    pub arguments: Vec<(String, ArgSource)>,
}

pub struct InvocationView {
    pub func: CallableId,
    pub is_async: bool,
    pub arguments: Seq<(Seq<char>, SourceView)>,
}

pub open spec fn invocation_view(i: Invocation) -> InvocationView {
    InvocationView {
        func: i.func,
        is_async: i.is_async,
        arguments: i.arguments@.map_values(|a: (String, ArgSource)| (a.0@, source_view(a.1))),
    }
}

/// The calls planned so far, and the memo table: each entry maps a callable
/// to the position of its call; the latest entry for a callable counts.
pub struct ResolveState {
    pub calls: Seq<InvocationView>,
    pub cache: Seq<(CallableId, nat)>,
}

pub open spec fn cache_lookup(cache: Seq<(CallableId, nat)>, f: CallableId) -> Option<nat>
    decreases cache.len(),
{
    if cache.len() == 0 {
        None
    } else if cache.last().0 == f {
        Some(cache.last().1)
    } else {
        cache_lookup(cache.drop_last(), f)
    }
}

/// The position of the last resolved sub-dependency that fills `name`.
pub open spec fn sub_lookup(subs: Seq<(Option<Seq<char>>, nat)>, name: Seq<char>) -> Option<nat>
    decreases subs.len(),
{
    if subs.len() == 0 {
        None
    } else if subs.last().0 == Some(name) {
        Some(subs.last().1)
    } else {
        sub_lookup(subs.drop_last(), name)
    }
}

/// The arguments that an injection plan yields. An argument whose source has
/// nothing for it (no such sub-dependency, no such parameter) is left out.
pub open spec fn build_args(
    plan: Seq<(Seq<char>, InjectionView)>,
    subs: Seq<(Option<Seq<char>>, nat)>,
    scopes: Seq<Seq<char>>,
    path: PairsView,
    query: PairsView,
) -> Seq<(Seq<char>, SourceView)>
    decreases plan.len(),
{
    if plan.len() == 0 {
        Seq::empty()
    } else {
        let prev = build_args(plan.drop_last(), subs, scopes, path, query);
        let name = plan.last().0;
        match plan.last().1 {
            InjectionView::Dependency(n) => match sub_lookup(subs, n) {
                Some(i) => prev.push((name, SourceView::Result(i))),
                None => prev,
            },
            InjectionView::Parameter => match last_pair(path, name) {
                Some(v) => prev.push((name, SourceView::Value(v))),
                None => match last_pair(query, name) {
                    Some(v) => prev.push((name, SourceView::Value(v))),
                    None => prev,
                },
            },
            InjectionView::Request => prev.push((name, SourceView::Request)),
            InjectionView::SecurityScopes => prev.push((name, SourceView::Scopes(scopes))),
        }
    }
}

/// Resolving one dependency: a memoised result is reused as it stands;
/// otherwise the sub-dependencies are resolved first, in order, then the
/// callable is called, and its result memoised if the dependency asks so.
pub open spec fn resolve_node(d: DependencyInfo, path: PairsView, query: PairsView, st: ResolveState) -> (
    ResolveState,
    nat,
)
    decreases d, 1nat,
{
    if d.use_cache && cache_lookup(st.cache, d.func).is_some() {
        (st, cache_lookup(st.cache, d.func).unwrap())
    } else {
        let (st1, subs) = resolve_forest(d.sub_dependencies@, path, query, st);
        let call = InvocationView {
            func: d.func,
            is_async: d.is_async,
            arguments: build_args(plan_view(d), subs, strings_view(d.scopes@), path, query),
        };
        let idx = st1.calls.len();
        (
            ResolveState {
                calls: st1.calls.push(call),
                cache: if d.use_cache {
                    st1.cache.push((d.func, idx))
                } else {
                    st1.cache
                },
            },
            idx,
        )
    }
}

/// Resolving dependencies in order; each yields its parameter name and the
/// position of the call that gives its value.
pub open spec fn resolve_forest(
    ds: Seq<DependencyInfo>,
    path: PairsView,
    query: PairsView,
    st: ResolveState,
) -> (ResolveState, Seq<(Option<Seq<char>>, nat)>)
    decreases ds, 0nat,
{
    if ds.len() == 0 {
        (st, Seq::empty())
    } else {
        let (st1, outs) = resolve_forest(ds.drop_last(), path, query, st);
        let (st2, i) = resolve_node(ds.last(), path, query, st1);
        (st2, outs.push((name_view(ds.last().param_name), i)))
    }
}

pub open spec fn cache_view(c: Seq<(CallableId, usize)>) -> Seq<(CallableId, nat)> {
    c.map_values(|p: (CallableId, usize)| (p.0, p.1 as nat))
}

pub open spec fn subs_view(v: Seq<(Option<String>, usize)>) -> Seq<(Option<Seq<char>>, nat)> {
    v.map_values(|p: (Option<String>, usize)| (name_view(p.0), p.1 as nat))
}

pub open spec fn state_of(calls: Seq<Invocation>, cache: Seq<(CallableId, usize)>) -> ResolveState {
    ResolveState { calls: calls.map_values(|i: Invocation| invocation_view(i)), cache: cache_view(cache) }
}

fn find_last_pair(pairs: &Vec<(String, String)>, name: &String) -> (r: Option<String>)
    ensures
        r.is_some() == last_pair(pairs_view(pairs@), name@).is_some(),
        r.is_some() ==> r.unwrap()@ == last_pair(pairs_view(pairs@), name@).unwrap(),
{
    let ghost ps = pairs_view(pairs@);
    let mut j = pairs.len();
    assert(ps.take(j as int) =~= ps);
    while j > 0
        invariant
            j <= pairs@.len(),
            ps == pairs_view(pairs@),
            last_pair(ps, name@) == last_pair(ps.take(j as int), name@),
        decreases j,
    {
        assert(ps.take(j as int).drop_last() =~= ps.take(j as int - 1));
        if pairs[j - 1].0 == *name {
            return Some(pairs[j - 1].1.clone());
        }
        j = j - 1;
    }
    None
}

fn find_cached(cache: &Vec<(CallableId, usize)>, f: CallableId) -> (r: Option<usize>)
    ensures
        r.is_some() == cache_lookup(cache_view(cache@), f).is_some(),
        r.is_some() ==> r.unwrap() as nat == cache_lookup(cache_view(cache@), f).unwrap(),
{
    let ghost cs = cache_view(cache@);
    let mut j = cache.len();
    assert(cs.take(j as int) =~= cs);
    while j > 0
        invariant
            j <= cache@.len(),
            cs == cache_view(cache@),
            cache_lookup(cs, f) == cache_lookup(cs.take(j as int), f),
        decreases j,
    {
        assert(cs.take(j as int).drop_last() =~= cs.take(j as int - 1));
        if cache[j - 1].0 == f {
            return Some(cache[j - 1].1);
        }
        j = j - 1;
    }
    None
}

fn find_sub(subs: &Vec<(Option<String>, usize)>, name: &String) -> (r: Option<usize>)
    ensures
        r.is_some() == sub_lookup(subs_view(subs@), name@).is_some(),
        r.is_some() ==> r.unwrap() as nat == sub_lookup(subs_view(subs@), name@).unwrap(),
{
    let ghost ss = subs_view(subs@);
    let mut j = subs.len();
    assert(ss.take(j as int) =~= ss);
    while j > 0
        invariant
            j <= subs@.len(),
            ss == subs_view(subs@),
            sub_lookup(ss, name@) == sub_lookup(ss.take(j as int), name@),
        decreases j,
    {
        assert(ss.take(j as int).drop_last() =~= ss.take(j as int - 1));
        let hit = match &subs[j - 1].0 {
            Some(n) => *n == *name,
            None => false,
        };
        if hit {
            return Some(subs[j - 1].1);
        }
        j = j - 1;
    }
    None
}

/// A copy of a list of strings.
pub fn clone_strings(v: &Vec<String>) -> (r: Vec<String>)
    ensures
        strings_view(r@) == strings_view(v@),
{
    let mut out: Vec<String> = Vec::new();
    let mut i: usize = 0;
    while i < v.len()
        invariant
            i <= v@.len(),
            strings_view(out@) == strings_view(v@.take(i as int)),
        decreases v@.len() - i,
    {
        let ghost before = out@;
        out.push(v[i].clone());
        assert(strings_view(out@) =~= strings_view(before).push(v@[i as int]@));
        assert(strings_view(v@.take(i as int + 1)) =~= strings_view(v@.take(i as int)).push(
            v@[i as int]@,
        ));
        i = i + 1;
    }
    assert(v@.take(i as int) =~= v@);
    out
}

fn build_arguments(d: &DependencyInfo, subs: &Vec<(Option<String>, usize)>, req: &RequestParams) -> (r:
    Vec<(String, ArgSource)>)
    ensures
        r@.map_values(|a: (String, ArgSource)| (a.0@, source_view(a.1))) == build_args(
            plan_view(*d),
            subs_view(subs@),
            strings_view(d.scopes@),
            pairs_view(req.path_params@),
            pairs_view(req.query_params@),
        ),
{
    let ghost plan = plan_view(*d);
    let ghost sv = subs_view(subs@);
    let ghost sc = strings_view(d.scopes@);
    let ghost pp = pairs_view(req.path_params@);
    let ghost qp = pairs_view(req.query_params@);
    let mut out: Vec<(String, ArgSource)> = Vec::new();
    let mut i: usize = 0;
    while i < d.injection_plan.len()
        invariant
            i <= d.injection_plan@.len(),
            plan == plan_view(*d),
            sv == subs_view(subs@),
            sc == strings_view(d.scopes@),
            pp == pairs_view(req.path_params@),
            qp == pairs_view(req.query_params@),
            out@.map_values(|a: (String, ArgSource)| (a.0@, source_view(a.1))) == build_args(
                plan.take(i as int),
                sv,
                sc,
                pp,
                qp,
            ),
        decreases d.injection_plan@.len() - i,
    {
        let ghost before = out@;
        assert(plan.take(i as int + 1).drop_last() =~= plan.take(i as int));
        let name = &d.injection_plan[i].0;
        let added: Option<ArgSource> = match &d.injection_plan[i].1 {
            InjectionType::Dependency(n) => match find_sub(subs, n) {
                Some(k) => Some(ArgSource::Result(k)),
                None => None,
            },
            InjectionType::Parameter => match find_last_pair(&req.path_params, name) {
                Some(v) => Some(ArgSource::Value(v)),
                None => match find_last_pair(&req.query_params, name) {
                    Some(v) => Some(ArgSource::Value(v)),
                    None => None,
                },
            },
            InjectionType::Request => Some(ArgSource::Request),
            InjectionType::SecurityScopes => Some(ArgSource::Scopes(clone_strings(&d.scopes))),
        };
        match added {
            Some(src) => {
                out.push((name.clone(), src));
                assert(out@.map_values(|a: (String, ArgSource)| (a.0@, source_view(a.1))) =~= before.map_values(
                    |a: (String, ArgSource)| (a.0@, source_view(a.1)),
                ).push((name@, source_view(src))));
            },
            None => {},
        }
        i = i + 1;
    }
    assert(plan.take(i as int) =~= plan);
    out
}

fn clone_name(n: &Option<String>) -> (r: Option<String>)
    ensures
        name_view(r) == name_view(*n),
{
    match n {
        Some(s) => Some(s.clone()),
        None => None,
    }
}

fn resolve_dependency(
    d: &DependencyInfo,
    req: &RequestParams,
    calls: &mut Vec<Invocation>,
    cache: &mut Vec<(CallableId, usize)>,
) -> (r: usize)
    ensures
        (state_of(final(calls)@, final(cache)@), r as nat) == resolve_node(
            *d,
            pairs_view(req.path_params@),
            pairs_view(req.query_params@),
            state_of(old(calls)@, old(cache)@),
        ),
    decreases d,
{
    if d.use_cache {
        match find_cached(cache, d.func) {
            Some(k) => {
                return k;
            },
            None => {},
        }
    }
    let ghost pp = pairs_view(req.path_params@);
    let ghost qp = pairs_view(req.query_params@);
    let ghost st0 = state_of(calls@, cache@);
    let ghost kids = d.sub_dependencies@;
    let mut subs: Vec<(Option<String>, usize)> = Vec::new();
    let mut i: usize = 0;
    while i < d.sub_dependencies.len()
        invariant
            i <= kids.len(),
            kids == d.sub_dependencies@,
            pp == pairs_view(req.path_params@),
            qp == pairs_view(req.query_params@),
            (state_of(calls@, cache@), subs_view(subs@)) == resolve_forest(
                kids.take(i as int),
                pp,
                qp,
                st0,
            ),
        decreases kids.len() - i,
    {
        assert(kids.take(i as int + 1).drop_last() =~= kids.take(i as int));
        assert(kids.take(i as int + 1).last() == kids[i as int]);
        let ghost subs_before = subs@;
        let k = resolve_dependency(&d.sub_dependencies[i], req, calls, cache);
        subs.push((clone_name(&d.sub_dependencies[i].param_name), k));
        assert(subs_view(subs@) =~= subs_view(subs_before).push(
            (name_view(kids[i as int].param_name), k as nat),
        ));
        i = i + 1;
    }
    assert(kids.take(i as int) =~= kids);
    let arguments = build_arguments(d, &subs, req);
    let idx = calls.len();
    let ghost calls_before = calls@;
    let ghost cache_before = cache@;
    calls.push(Invocation { func: d.func, is_async: d.is_async, arguments });
    assert(calls@.map_values(|c: Invocation| invocation_view(c)) =~= calls_before.map_values(
        |c: Invocation| invocation_view(c),
    ).push(invocation_view(calls@[idx as int])));
    if d.use_cache {
        cache.push((d.func, idx));
        assert(cache_view(cache@) =~= cache_view(cache_before).push((d.func, idx as nat)));
    }
    idx
}

/// The calls that resolve a route's dependencies for one request, in the
/// order they are made, and the handler arguments they fill.
#[derive(Clone, Debug)]
pub struct ResolutionPlan {
    pub invocations: Vec<Invocation>,
    /// Each named top-level dependency with the position of the call that
    /// gives its value.
    pub results: Vec<(String, usize)>,
}

pub open spec fn empty_state() -> ResolveState {
    ResolveState { calls: Seq::empty(), cache: Seq::empty() }
}

/// The named outputs of a resolution, in order.
pub open spec fn named_outputs(outs: Seq<(Option<Seq<char>>, nat)>) -> Seq<(Seq<char>, nat)>
    decreases outs.len(),
{
    if outs.len() == 0 {
        Seq::empty()
    } else {
        let prev = named_outputs(outs.drop_last());
        match outs.last().0 {
            Some(n) => prev.push((n, outs.last().1)),
            None => prev,
        }
    }
}

/// Plans the resolution of `deps` for one request with a fresh memo table:
/// depth-first, sub-dependencies before the dependency that needs them,
/// siblings in order, and a memoised callable called at most once.
pub fn execute_dependencies(deps: &Vec<DependencyInfo>, req: &RequestParams) -> (r: ResolutionPlan)
    ensures
        r.invocations@.map_values(|i: Invocation| invocation_view(i)) == resolve_forest(
            deps@,
            pairs_view(req.path_params@),
            pairs_view(req.query_params@),
            empty_state(),
        ).0.calls,
        r.results@.map_values(|p: (String, usize)| (p.0@, p.1 as nat)) == named_outputs(
            resolve_forest(
                deps@,
                pairs_view(req.path_params@),
                pairs_view(req.query_params@),
                empty_state(),
            ).1,
        ),
{
    let ghost pp = pairs_view(req.path_params@);
    let ghost qp = pairs_view(req.query_params@);
    let mut calls: Vec<Invocation> = Vec::new();
    let mut cache: Vec<(CallableId, usize)> = Vec::new();
    let mut subs: Vec<(Option<String>, usize)> = Vec::new();
    let mut results: Vec<(String, usize)> = Vec::new();
    assert(state_of(calls@, cache@).calls =~= empty_state().calls);
    assert(state_of(calls@, cache@).cache =~= empty_state().cache);
    assert(subs_view(subs@) =~= Seq::<(Option<Seq<char>>, nat)>::empty());
    assert(results@.map_values(|p: (String, usize)| (p.0@, p.1 as nat)) =~= Seq::<(Seq<char>, nat)>::empty());
    let mut i: usize = 0;
    while i < deps.len()
        invariant
            i <= deps@.len(),
            pp == pairs_view(req.path_params@),
            qp == pairs_view(req.query_params@),
            (state_of(calls@, cache@), subs_view(subs@)) == resolve_forest(
                deps@.take(i as int),
                pp,
                qp,
                empty_state(),
            ),
            results@.map_values(|p: (String, usize)| (p.0@, p.1 as nat)) == named_outputs(
                subs_view(subs@),
            ),
        decreases deps@.len() - i,
    {
        assert(deps@.take(i as int + 1).drop_last() =~= deps@.take(i as int));
        let ghost subs_before = subs@;
        let ghost results_before = results@;
        let k = resolve_dependency(&deps[i], req, &mut calls, &mut cache);
        subs.push((clone_name(&deps[i].param_name), k));
        assert(subs_view(subs@).drop_last() =~= subs_view(subs_before));
        match &deps[i].param_name {
            Some(n) => {
                results.push((n.clone(), k));
                assert(results@.map_values(|p: (String, usize)| (p.0@, p.1 as nat)) =~= results_before.map_values(
                    |p: (String, usize)| (p.0@, p.1 as nat),
                ).push((n@, k as nat)));
            },
            None => {},
        }
        i = i + 1;
    }
    assert(deps@.take(i as int) =~= deps@);
    ResolutionPlan { invocations: calls, results }
}

/// How many of the planned calls call `c`.
pub open spec fn count_calls(calls: Seq<InvocationView>, c: CallableId) -> nat
    decreases calls.len(),
{
    if calls.len() == 0 {
        0
    } else {
        count_calls(calls.drop_last(), c) + if calls.last().func == c {
            1nat
        } else {
            0nat
        }
    }
}

/// How many nodes of the tree under `d`, `d` included, call `c`.
pub open spec fn positions(d: DependencyInfo, c: CallableId) -> nat
    decreases d, 1nat,
{
    (if d.func == c {
        1nat
    } else {
        0nat
    }) + positions_forest(d.sub_dependencies@, c)
}

pub open spec fn positions_forest(ds: Seq<DependencyInfo>, c: CallableId) -> nat
    decreases ds, 0nat,
{
    if ds.len() == 0 {
        0
    } else {
        positions_forest(ds.drop_last(), c) + positions(ds.last(), c)
    }
}

/// Every node that calls `c` is memoised, and none has another such node
/// below it.
pub open spec fn memoised_once(d: DependencyInfo, c: CallableId) -> bool
    decreases d, 1nat,
{
    &&& (d.func == c ==> d.use_cache && positions_forest(d.sub_dependencies@, c) == 0)
    &&& memoised_once_forest(d.sub_dependencies@, c)
}

pub open spec fn memoised_once_forest(ds: Seq<DependencyInfo>, c: CallableId) -> bool
    decreases ds, 0nat,
{
    ds.len() > 0 ==> memoised_once_forest(ds.drop_last(), c) && memoised_once(ds.last(), c)
}

/// Whether a node has `c` in its tree is decided by its callable alone: the
/// callables in `s` are exactly those whose nodes reach `c`.
pub open spec fn reach_agrees(d: DependencyInfo, c: CallableId, s: Set<CallableId>) -> bool
    decreases d, 1nat,
{
    &&& (positions(d, c) > 0 <==> s.contains(d.func))
    &&& reach_agrees_forest(d.sub_dependencies@, c, s)
}

pub open spec fn reach_agrees_forest(ds: Seq<DependencyInfo>, c: CallableId, s: Set<CallableId>) -> bool
    decreases ds, 0nat,
{
    ds.len() > 0 ==> reach_agrees_forest(ds.drop_last(), c, s) && reach_agrees(ds.last(), c, s)
}

/// No memoised node has `c` in its tree.
pub open spec fn unmemoised_above(d: DependencyInfo, c: CallableId) -> bool
    decreases d, 1nat,
{
    &&& (positions(d, c) > 0 ==> !d.use_cache)
    &&& unmemoised_above_forest(d.sub_dependencies@, c)
}

pub open spec fn unmemoised_above_forest(ds: Seq<DependencyInfo>, c: CallableId) -> bool
    decreases ds, 0nat,
{
    ds.len() > 0 ==> unmemoised_above_forest(ds.drop_last(), c) && unmemoised_above(ds.last(), c)
}

proof fn lemma_count_push(calls: Seq<InvocationView>, x: InvocationView, c: CallableId)
    ensures
        count_calls(calls.push(x), c) == count_calls(calls, c) + if x.func == c {
            1nat
        } else {
            0nat
        },
{
    assert(calls.push(x).drop_last() =~= calls);
}

proof fn lemma_lookup_push(cache: Seq<(CallableId, nat)>, e: (CallableId, nat), f: CallableId)
    ensures
        cache_lookup(cache.push(e), f) == if e.0 == f {
            Some(e.1)
        } else {
            cache_lookup(cache, f)
        },
{
    assert(cache.push(e).drop_last() =~= cache);
}

/// A tree without `c` adds no call of `c`, leaves the memo entry of `c` as it
/// was, and never removes a call.
proof fn lemma_frame_node(d: DependencyInfo, path: PairsView, query: PairsView, st: ResolveState, c: CallableId)
    ensures
        forall|f: CallableId| #[trigger]
            count_calls(resolve_node(d, path, query, st).0.calls, f) >= count_calls(st.calls, f),
        positions(d, c) == 0 ==> count_calls(resolve_node(d, path, query, st).0.calls, c)
            == count_calls(st.calls, c),
        positions(d, c) == 0 ==> cache_lookup(resolve_node(d, path, query, st).0.cache, c)
            == cache_lookup(st.cache, c),
    decreases d, 1nat,
{
    if !(d.use_cache && cache_lookup(st.cache, d.func).is_some()) {
        let (st1, subs) = resolve_forest(d.sub_dependencies@, path, query, st);
        lemma_frame_forest(d.sub_dependencies@, path, query, st, c);
        let r = resolve_node(d, path, query, st).0;
        let call = r.calls.last();
        assert(r.calls == st1.calls.push(call));
        assert forall|f: CallableId| #[trigger]
            count_calls(r.calls, f) >= count_calls(st.calls, f) by {
            lemma_count_push(st1.calls, call, f);
        }
        lemma_count_push(st1.calls, call, c);
        if d.use_cache {
            lemma_lookup_push(st1.cache, (d.func, st1.calls.len()), c);
        }
    }
}

proof fn lemma_frame_forest(
    ds: Seq<DependencyInfo>,
    path: PairsView,
    query: PairsView,
    st: ResolveState,
    c: CallableId,
)
    ensures
        forall|f: CallableId| #[trigger]
            count_calls(resolve_forest(ds, path, query, st).0.calls, f) >= count_calls(st.calls, f),
        positions_forest(ds, c) == 0 ==> count_calls(resolve_forest(ds, path, query, st).0.calls, c)
            == count_calls(st.calls, c),
        positions_forest(ds, c) == 0 ==> cache_lookup(resolve_forest(ds, path, query, st).0.cache, c)
            == cache_lookup(st.cache, c),
    decreases ds, 0nat,
{
    if ds.len() > 0 {
        let (st1, outs) = resolve_forest(ds.drop_last(), path, query, st);
        lemma_frame_forest(ds.drop_last(), path, query, st, c);
        lemma_frame_node(ds.last(), path, query, st1, c);
    }
}

/// `c` has been called once and memoised, or neither.
pub open spec fn memo_consistent(st: ResolveState, c: CallableId) -> bool {
    ||| count_calls(st.calls, c) == 0 && cache_lookup(st.cache, c).is_none()
    ||| count_calls(st.calls, c) == 1 && cache_lookup(st.cache, c).is_some()
}

/// A memoised callable whose nodes reach `c` has been resolved only after
/// `c` was called.
pub open spec fn memo_covers(st: ResolveState, c: CallableId, s: Set<CallableId>) -> bool {
    forall|f: CallableId|
        s.contains(f) && #[trigger] cache_lookup(st.cache, f).is_some() ==> count_calls(
            st.calls,
            c,
        ) >= 1
}

proof fn lemma_memo_node(
    d: DependencyInfo,
    path: PairsView,
    query: PairsView,
    st: ResolveState,
    c: CallableId,
    s: Set<CallableId>,
)
    requires
        memoised_once(d, c),
        reach_agrees(d, c, s),
        memo_consistent(st, c),
        memo_covers(st, c, s),
    ensures
        memo_consistent(resolve_node(d, path, query, st).0, c),
        memo_covers(resolve_node(d, path, query, st).0, c, s),
        positions(d, c) > 0 ==> count_calls(resolve_node(d, path, query, st).0.calls, c) == 1,
    decreases d, 1nat,
{
    if !(d.use_cache && cache_lookup(st.cache, d.func).is_some()) {
        let kids = d.sub_dependencies@;
        let (st1, subs) = resolve_forest(kids, path, query, st);
        lemma_memo_forest(kids, path, query, st, c, s);
        lemma_frame_forest(kids, path, query, st, c);
        let r = resolve_node(d, path, query, st).0;
        let call = r.calls.last();
        assert(r.calls == st1.calls.push(call));
        assert(call.func == d.func);
        lemma_count_push(st1.calls, call, c);
        assert forall|f: CallableId|
            s.contains(f) && #[trigger] cache_lookup(r.cache, f).is_some() implies count_calls(
                r.calls,
                c,
            ) >= 1 by {
            if d.use_cache {
                lemma_lookup_push(st1.cache, (d.func, st1.calls.len()), f);
            }
            if f == d.func && d.use_cache {
                assert(positions(d, c) > 0);
            }
        }
        if d.use_cache {
            lemma_lookup_push(st1.cache, (d.func, st1.calls.len()), c);
        }
    }
}

proof fn lemma_memo_forest(
    ds: Seq<DependencyInfo>,
    path: PairsView,
    query: PairsView,
    st: ResolveState,
    c: CallableId,
    s: Set<CallableId>,
)
    requires
        memoised_once_forest(ds, c),
        reach_agrees_forest(ds, c, s),
        memo_consistent(st, c),
        memo_covers(st, c, s),
    ensures
        memo_consistent(resolve_forest(ds, path, query, st).0, c),
        memo_covers(resolve_forest(ds, path, query, st).0, c, s),
        positions_forest(ds, c) > 0 ==> count_calls(resolve_forest(ds, path, query, st).0.calls, c)
            == 1,
    decreases ds, 0nat,
{
    if ds.len() > 0 {
        let (st1, outs) = resolve_forest(ds.drop_last(), path, query, st);
        lemma_memo_forest(ds.drop_last(), path, query, st, c, s);
        lemma_memo_node(ds.last(), path, query, st1, c, s);
        lemma_frame_node(ds.last(), path, query, st1, c);
    }
}

/// A memoised dependency runs once per request, however many dependencies
/// share it: when every node that calls `c` is memoised and has no node
/// calling `c` below it, and whether a node reaches `c` depends on its
/// callable alone (as in trees built from signatures), the plan calls `c`
/// exactly once if it occurs in the tree, and never otherwise.
pub proof fn lemma_memoised_called_once(
    deps: Seq<DependencyInfo>,
    path: PairsView,
    query: PairsView,
    c: CallableId,
    reaching: Set<CallableId>,
)
    requires
        memoised_once_forest(deps, c),
        reach_agrees_forest(deps, c, reaching),
    ensures
        count_calls(resolve_forest(deps, path, query, empty_state()).0.calls, c) == if positions_forest(
            deps,
            c,
        ) > 0 {
            1nat
        } else {
            0nat
        },
{
    lemma_memo_forest(deps, path, query, empty_state(), c, reaching);
    lemma_frame_forest(deps, path, query, empty_state(), c);
}

proof fn lemma_unmemoised_node(d: DependencyInfo, path: PairsView, query: PairsView, st: ResolveState, c: CallableId)
    requires
        unmemoised_above(d, c),
    ensures
        count_calls(resolve_node(d, path, query, st).0.calls, c) == count_calls(st.calls, c)
            + positions(d, c),
    decreases d, 1nat,
{
    if positions(d, c) == 0 {
        lemma_frame_node(d, path, query, st, c);
    } else {
        let kids = d.sub_dependencies@;
        let (st1, subs) = resolve_forest(kids, path, query, st);
        lemma_unmemoised_forest(kids, path, query, st, c);
        let r = resolve_node(d, path, query, st).0;
        let call = r.calls.last();
        assert(r.calls == st1.calls.push(call));
        lemma_count_push(st1.calls, call, c);
    }
}

proof fn lemma_unmemoised_forest(
    ds: Seq<DependencyInfo>,
    path: PairsView,
    query: PairsView,
    st: ResolveState,
    c: CallableId,
)
    requires
        unmemoised_above_forest(ds, c),
    ensures
        count_calls(resolve_forest(ds, path, query, st).0.calls, c) == count_calls(st.calls, c)
            + positions_forest(ds, c),
    decreases ds, 0nat,
{
    if ds.len() > 0 {
        let (st1, outs) = resolve_forest(ds.drop_last(), path, query, st);
        lemma_unmemoised_forest(ds.drop_last(), path, query, st, c);
        lemma_unmemoised_node(ds.last(), path, query, st1, c);
    }
}

/// A dependency that is not memoised runs once per position it holds in the
/// tree: when no memoised node has `c` in its tree, the plan calls `c` as
/// many times as nodes of the tree call it.
pub proof fn lemma_unmemoised_called_per_position(
    deps: Seq<DependencyInfo>,
    path: PairsView,
    query: PairsView,
    c: CallableId,
)
    requires
        unmemoised_above_forest(deps, c),
    ensures
        count_calls(resolve_forest(deps, path, query, empty_state()).0.calls, c) == positions_forest(
            deps,
            c,
        ),
{
    lemma_unmemoised_forest(deps, path, query, empty_state(), c);
    assert(count_calls(empty_state().calls, c) == 0);
}

} // verus!
