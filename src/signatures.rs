//! Building dependency trees and injection plans from the introspected
//! signatures of foreign callables, at registration time.
use vstd::prelude::*;

use crate::dependencies::{
    injection_view, name_view, plan_view, strings_view, DependencyInfo, InjectionType,
    InjectionView,
};
use crate::CallableId;

verus! {

/// The default value of a formal parameter, as far as dependency injection
/// cares.
#[derive(Clone, Debug)]
pub enum ParamDefault {
    /// No dependency marker.
    Plain,
    /// A dependency marker: the callable to call (the marker's own, or else the
    /// parameter's annotation; absent when there is neither) and whether its
    /// result is memoised per request.
    Depends { target: Option<CallableId>, use_cache: bool },
    /// A security dependency marker: as `Depends`, with the scopes it demands.
    Security { target: Option<CallableId>, scopes: Vec<String>, use_cache: bool },
}

/// One formal parameter of a callable.
#[derive(Clone, Debug)]
pub struct ParamDescriptor {
    pub name: String,
    /// The annotation as text; empty when there is none.
    pub annotation: String,
    pub default: ParamDefault,
}

/// The introspected signature of one callable.
#[derive(Clone, Debug)]
pub struct CallableSignature {
    pub func: CallableId,
    pub is_async: bool,
    pub params: Vec<ParamDescriptor>,
}

/// Why a dependency tree could not be built.
#[derive(Clone, Copy, Debug, PartialEq, Eq, Structural)]
pub enum DependencyError {
    /// No signature is known for this callable.
    UnknownCallable(CallableId),
    /// This callable depends, directly or not, on itself.
    Cycle(CallableId),
}

/// `needle` occurs in `hay` as a contiguous run.
pub open spec fn contains_text(hay: Seq<char>, needle: Seq<char>) -> bool {
    exists|i: int| 0 <= i <= hay.len() - needle.len() && #[trigger] hay.subrange(i, i + needle.len()) == needle
}

/// Whether `needle` occurs in `hay`.
pub fn text_contains(hay: &str, needle: &str) -> (r: bool)
    ensures
        r == contains_text(hay@, needle@),
{
    let n = hay.unicode_len();
    let m = needle.unicode_len();
    if m > n {
        return false;
    }
    let mut i: usize = 0;
    while i <= n - m
        invariant
            n == hay@.len(),
            m == needle@.len(),
            m <= n,
            i <= n - m + 1,
            forall|k: int| 0 <= k < i ==> #[trigger] hay@.subrange(k, k + m) != needle@,
        decreases n - m + 1 - i,
    {
        let mut j: usize = 0;
        let mut same = true;
        while j < m
            invariant
                n == hay@.len(),
                m == needle@.len(),
                i + m <= n,
                j <= m,
                same == (forall|k: int| 0 <= k < j ==> hay@[i + k] == needle@[k]),
            decreases m - j,
        {
            if hay.get_char(i + j) != needle.get_char(j) {
                same = false;
            }
            j = j + 1;
        }
        if same {
            assert(hay@.subrange(i as int, i + m) =~= needle@);
            return true;
        }
        assert(hay@.subrange(i as int, i + m)[j as int - 1] == hay@[i + j - 1]);
        proof {
            let k = choose|k: int| 0 <= k < m && hay@[i + k] != needle@[k];
            assert(hay@.subrange(i as int, i + m)[k] != needle@[k]);
        }
        i = i + 1;
    }
    false
}

/// Some dependency among `subs` fills the parameter called `name`.
pub open spec fn fills_sub(subs: Seq<DependencyInfo>, name: Seq<char>) -> bool {
    exists|j: int| 0 <= j < subs.len() && name_view(#[trigger] subs[j].param_name) == Some(name)
}

/// How a parameter is filled, by precedence: by a sub-dependency of its name;
/// by the request, when its annotation mentions `Request`; by the security
/// scopes, when its annotation mentions `SecurityScopes`; else by a path or
/// query parameter.
pub open spec fn injection_for(p: ParamDescriptor, subs: Seq<DependencyInfo>) -> InjectionView {
    if fills_sub(subs, p.name@) {
        InjectionView::Dependency(p.name@)
    } else if contains_text(p.annotation@, "Request"@) {
        InjectionView::Request
    } else if contains_text(p.annotation@, "SecurityScopes"@) {
        InjectionView::SecurityScopes
    } else {
        InjectionView::Parameter
    }
}

/// One plan entry per formal parameter, in order.
pub open spec fn spec_injection_plan(params: Seq<ParamDescriptor>, subs: Seq<DependencyInfo>) -> Seq<
    (Seq<char>, InjectionView),
> {
    Seq::new(params.len(), |i: int| (params[i].name@, injection_for(params[i], subs)))
}

fn fills_any(subs: &Vec<DependencyInfo>, name: &String) -> (r: bool)
    ensures
        r == fills_sub(subs@, name@),
{
    let mut j: usize = 0;
    while j < subs.len()
        invariant
            j <= subs@.len(),
            forall|k: int| 0 <= k < j ==> name_view(#[trigger] subs@[k].param_name) != Some(name@),
        decreases subs@.len() - j,
    {
        let hit = match &subs[j].param_name {
            Some(n) => *n == *name,
            None => false,
        };
        if hit {
            return true;
        }
        j = j + 1;
    }
    false
}

/// Classifies each formal parameter of a dependency callable.
pub fn build_injection_plan(params: &Vec<ParamDescriptor>, subs: &Vec<DependencyInfo>) -> (r: Vec<
    (String, InjectionType),
>)
    ensures
        r@.map_values(|e: (String, InjectionType)| (e.0@, injection_view(e.1)))
            == spec_injection_plan(params@, subs@),
{
    let mut plan: Vec<(String, InjectionType)> = Vec::new();
    let mut i: usize = 0;
    while i < params.len()
        invariant
            i <= params@.len(),
            plan@.len() == i,
            forall|k: int|
                0 <= k < i ==> (#[trigger] plan@[k].0@, injection_view(plan@[k].1)) == (
                    params@[k].name@,
                    injection_for(params@[k], subs@),
                ),
        decreases params@.len() - i,
    {
        let p = &params[i];
        let kind = if fills_any(subs, &p.name) {
            InjectionType::Dependency(p.name.clone())
        } else if text_contains(p.annotation.as_str(), "Request") {
            InjectionType::Request
        } else if text_contains(p.annotation.as_str(), "SecurityScopes") {
            InjectionType::SecurityScopes
        } else {
            InjectionType::Parameter
        };
        plan.push((p.name.clone(), kind));
        i = i + 1;
    }
    assert(plan@.map_values(|e: (String, InjectionType)| (e.0@, injection_view(e.1)))
        =~= spec_injection_plan(params@, subs@));
    plan
}

/// Parameters that never take part in injection.
pub open spec fn skipped_name(n: Seq<char>) -> bool {
    n == "self"@ || n == "cls"@ || n == "return"@
}

pub open spec fn dep_target(p: ParamDescriptor) -> Option<CallableId> {
    match p.default {
        ParamDefault::Plain => None,
        ParamDefault::Depends { target, .. } => target,
        ParamDefault::Security { target, .. } => target,
    }
}

pub open spec fn scopes_of(p: ParamDescriptor) -> Seq<Seq<char>> {
    match p.default {
        ParamDefault::Security { scopes, .. } => strings_view(scopes@),
        _ => Seq::empty(),
    }
}

pub open spec fn use_cache_of(p: ParamDescriptor) -> bool {
    match p.default {
        ParamDefault::Plain => true,
        ParamDefault::Depends { use_cache, .. } => use_cache,
        ParamDefault::Security { use_cache, .. } => use_cache,
    }
}

/// A parameter that spawns a dependency node.
pub open spec fn is_marked(p: ParamDescriptor) -> bool {
    !skipped_name(p.name@) && dep_target(p).is_some()
}

/// The parameters that spawn dependency nodes, in order.
pub open spec fn marked_params(ps: Seq<ParamDescriptor>) -> Seq<ParamDescriptor>
    decreases ps.len(),
{
    if ps.len() == 0 {
        Seq::empty()
    } else if is_marked(ps.last()) {
        marked_params(ps.drop_last()).push(ps.last())
    } else {
        marked_params(ps.drop_last())
    }
}

/// The position of the first signature of `f`.
pub open spec fn sig_index(table: Seq<CallableSignature>, f: CallableId) -> Option<int>
    decreases table.len(),
{
    if table.len() == 0 {
        None
    } else {
        match sig_index(table.drop_last(), f) {
            Some(i) => Some(i),
            None => if table.last().func == f {
                Some(table.len() - 1)
            } else {
                None
            },
        }
    }
}

/// `deps` are the nodes built for the marked parameters `marked`, in order.
pub open spec fn built(table: Seq<CallableSignature>, marked: Seq<ParamDescriptor>, deps: Seq<DependencyInfo>) -> bool
    decreases deps, 0nat,
{
    &&& deps.len() == marked.len()
    &&& deps.len() > 0 ==> built(table, marked.drop_last(), deps.drop_last()) && entry_built(
        table,
        marked.last(),
        deps.last(),
    )
}

/// `d` is the node built for the marked parameter `p`: its callable is the
/// marker's target, read from the target's signature, with the target's own
/// dependencies below it and the target's injection plan.
pub open spec fn entry_built(table: Seq<CallableSignature>, p: ParamDescriptor, d: DependencyInfo) -> bool
    decreases d, 1nat,
{
    let t = dep_target(p).unwrap();
    &&& sig_index(table, t).is_some()
    &&& d.func == t
    &&& d.is_async == table[sig_index(table, t).unwrap()].is_async
    &&& name_view(d.param_name) == Some(p.name@)
    &&& strings_view(d.scopes@) == scopes_of(p)
    &&& d.use_cache == use_cache_of(p)
    &&& built(table, marked_params(table[sig_index(table, t).unwrap()].params@), d.sub_dependencies@)
    &&& plan_view(d) == spec_injection_plan(
        table[sig_index(table, t).unwrap()].params@,
        d.sub_dependencies@,
    )
}

/// The first failure met when expanding `f`, with `stack` the callables
/// being expanded; none when the expansion succeeds. `fuel` bounds the depth;
/// it never runs out from [`parse_outcome`], since a chain of callables that
/// never repeats has at most one callable per signature.
pub open spec fn expand_outcome(
    table: Seq<CallableSignature>,
    f: CallableId,
    stack: Seq<CallableId>,
    fuel: nat,
) -> Option<DependencyError>
    decreases fuel, 1nat, 0nat,
{
    if fuel == 0 {
        Some(DependencyError::Cycle(f))
    } else {
        match sig_index(table, f) {
            None => Some(DependencyError::UnknownCallable(f)),
            Some(i) => params_outcome(table, marked_params(table[i].params@), stack, fuel),
        }
    }
}

/// The first failure met when expanding the targets of the marked
/// parameters `ms`, in order: a target already being expanded is a cycle, a
/// target without a signature is unknown, and any other target is expanded.
pub open spec fn params_outcome(
    table: Seq<CallableSignature>,
    ms: Seq<ParamDescriptor>,
    stack: Seq<CallableId>,
    fuel: nat,
) -> Option<DependencyError>
    decreases fuel, 0nat, ms.len(),
{
    if ms.len() == 0 {
        None
    } else {
        match params_outcome(table, ms.drop_last(), stack, fuel) {
            Some(e) => Some(e),
            None => {
                let t = dep_target(ms.last()).unwrap();
                if stack.contains(t) {
                    Some(DependencyError::Cycle(t))
                } else if sig_index(table, t).is_none() {
                    Some(DependencyError::UnknownCallable(t))
                } else if fuel == 0 {
                    Some(DependencyError::Cycle(t))
                } else {
                    expand_outcome(table, t, stack.push(t), (fuel - 1) as nat)
                }
            },
        }
    }
}

/// The failure, if any, of building the dependencies of `func`.
pub open spec fn parse_outcome(table: Seq<CallableSignature>, func: CallableId) -> Option<DependencyError> {
    expand_outcome(table, func, seq![func], table.len() + 1)
}

proof fn lemma_outcome_extends(
    table: Seq<CallableSignature>,
    ms: Seq<ParamDescriptor>,
    k: int,
    stack: Seq<CallableId>,
    fuel: nat,
)
    requires
        0 <= k <= ms.len(),
        params_outcome(table, ms.take(k), stack, fuel).is_some(),
    ensures
        params_outcome(table, ms, stack, fuel) == params_outcome(table, ms.take(k), stack, fuel),
    decreases ms.len() - k,
{
    if k < ms.len() {
        assert(ms.take(k + 1).drop_last() =~= ms.take(k));
        lemma_outcome_extends(table, ms, k + 1, stack, fuel);
    } else {
        assert(ms.take(k) =~= ms);
    }
}

proof fn lemma_marked_prefix(ps: Seq<ParamDescriptor>, i: int)
    requires
        0 <= i <= ps.len(),
    ensures
        marked_params(ps.take(i)).len() <= marked_params(ps).len(),
        marked_params(ps.take(i)) == marked_params(ps).take(marked_params(ps.take(i)).len() as int),
    decreases ps.len() - i,
{
    if i < ps.len() {
        lemma_marked_prefix(ps, i + 1);
        assert(ps.take(i + 1).drop_last() =~= ps.take(i));
        let a = marked_params(ps.take(i));
        let b = marked_params(ps.take(i + 1));
        let w = marked_params(ps);
        assert(b.take(a.len() as int) =~= a);
        assert(w.take(b.len() as int).take(a.len() as int) =~= w.take(a.len() as int));
    } else {
        assert(ps.take(i) =~= ps);
        assert(marked_params(ps).take(marked_params(ps).len() as int) =~= marked_params(ps));
    }
}

pub open spec fn table_ids(table: Seq<CallableSignature>) -> Seq<CallableId> {
    table.map_values(|s: CallableSignature| s.func)
}

fn find_signature(table: &Vec<CallableSignature>, f: CallableId) -> (r: Option<usize>)
    ensures
        r.is_some() == sig_index(table@, f).is_some(),
        r.is_some() ==> r.unwrap() as int == sig_index(table@, f).unwrap(),
        r.is_some() ==> r.unwrap() < table@.len(),
        r.is_some() ==> table@[r.unwrap() as int].func == f,
{
    let mut j: usize = 0;
    while j < table.len()
        invariant
            j <= table@.len(),
            sig_index(table@.take(j as int), f).is_none(),
        decreases table@.len() - j,
    {
        assert(table@.take(j as int + 1).drop_last() =~= table@.take(j as int));
        if table[j].func == f {
            proof {
                lemma_sig_index_prefix(table@, f, j as int + 1);
            }
            return Some(j);
        }
        j = j + 1;
    }
    assert(table@.take(j as int) =~= table@);
    None
}

proof fn lemma_sig_index_prefix(table: Seq<CallableSignature>, f: CallableId, n: int)
    requires
        0 <= n <= table.len(),
        sig_index(table.take(n), f).is_some(),
    ensures
        sig_index(table, f) == sig_index(table.take(n), f),
        table[sig_index(table, f).unwrap()].func == f,
    decreases table.len() - n,
{
    if n < table.len() {
        assert(table.take(n + 1).drop_last() =~= table.take(n));
        lemma_sig_index_prefix(table, f, n + 1);
    } else {
        assert(table.take(n) =~= table);
        lemma_sig_index_found(table, f);
    }
}

proof fn lemma_sig_index_found(table: Seq<CallableSignature>, f: CallableId)
    requires
        sig_index(table, f).is_some(),
    ensures
        0 <= sig_index(table, f).unwrap() < table.len(),
        table[sig_index(table, f).unwrap()].func == f,
    decreases table.len(),
{
    if sig_index(table.drop_last(), f).is_some() {
        lemma_sig_index_found(table.drop_last(), f);
    }
}

fn stack_has(stack: &Vec<CallableId>, f: CallableId) -> (r: bool)
    ensures
        r == stack@.contains(f),
{
    let mut j: usize = 0;
    while j < stack.len()
        invariant
            j <= stack@.len(),
            forall|k: int| 0 <= k < j ==> stack@[k] != f,
        decreases stack@.len() - j,
    {
        if stack[j] == f {
            return true;
        }
        j = j + 1;
    }
    false
}

fn clone_scopes(v: &Vec<String>) -> (r: Vec<String>)
    ensures
        strings_view(r@) == strings_view(v@),
{
    let mut out: Vec<String> = Vec::new();
    let mut i: usize = 0;
    while i < v.len()
        invariant
            i <= v@.len(),
            out@.len() == i,
            forall|k: int| 0 <= k < i ==> #[trigger] out@[k]@ == v@[k]@,
        decreases v@.len() - i,
    {
        out.push(v[i].clone());
        i = i + 1;
    }
    assert(strings_view(out@) =~= strings_view(v@));
    out
}

/// Callables being expanded are distinct and all have signatures, so there
/// are no more of them than signatures.
proof fn lemma_stack_bound(table: Seq<CallableSignature>, stack: Seq<CallableId>)
    requires
        stack.no_duplicates(),
        forall|i: int| 0 <= i < stack.len() ==> table_ids(table).contains(#[trigger] stack[i]),
    ensures
        stack.len() <= table.len(),
{
    stack.unique_seq_to_set();
    let ids = table_ids(table);
    assert(stack.to_set().subset_of(ids.to_set())) by {
        assert forall|x: CallableId| stack.to_set().contains(x) implies ids.to_set().contains(x) by {
            let i = choose|i: int| 0 <= i < stack.len() && stack[i] == x;
            assert(table_ids(table).contains(stack[i]));
        }
    }
    ids.lemma_cardinality_of_set();
    vstd::set_lib::lemma_len_subset(stack.to_set(), ids.to_set());
}

fn expand(table: &Vec<CallableSignature>, idx: usize, stack: &mut Vec<CallableId>) -> (r: Result<
    Vec<DependencyInfo>,
    DependencyError,
>)
    requires
        idx < table@.len(),
        old(stack)@.no_duplicates(),
        old(stack)@.contains(table@[idx as int].func),
        forall|i: int|
            0 <= i < old(stack)@.len() ==> table_ids(table@).contains(#[trigger] old(stack)@[i]),
        sig_index(table@, table@[idx as int].func) == Some(idx as int),
    ensures
        final(stack)@ == old(stack)@,
        r.is_ok() ==> built(table@, marked_params(table@[idx as int].params@), r.unwrap()@),
        r.is_err() == expand_outcome(
            table@,
            table@[idx as int].func,
            old(stack)@,
            (table@.len() + 2 - old(stack)@.len()) as nat,
        ).is_some(),
        r matches Err(e) ==> Some(e) == expand_outcome(
            table@,
            table@[idx as int].func,
            old(stack)@,
            (table@.len() + 2 - old(stack)@.len()) as nat,
        ),
    decreases table@.len() - old(stack)@.len(),
{
    proof {
        lemma_stack_bound(table@, stack@);
    }
    let params = &table[idx].params;
    let ghost ps = params@;
    let ghost fuel = (table@.len() + 2 - stack@.len()) as nat;
    let ghost ms = marked_params(ps);
    assert(expand_outcome(table@, table@[idx as int].func, stack@, fuel) == params_outcome(
        table@,
        ms,
        stack@,
        fuel,
    ));
    assert(ps.take(0) =~= Seq::<ParamDescriptor>::empty());
    let mut deps: Vec<DependencyInfo> = Vec::new();
    let mut i: usize = 0;
    while i < params.len()
        invariant
            idx < table@.len(),
            ps == table@[idx as int].params@,
            params@ == ps,
            i <= ps.len(),
            stack@ == old(stack)@,
            stack@.no_duplicates(),
            forall|k: int| 0 <= k < stack@.len() ==> table_ids(table@).contains(#[trigger] stack@[k]),
            stack@.len() <= table@.len(),
            built(table@, marked_params(ps.take(i as int)), deps@),
            fuel == (table@.len() + 2 - stack@.len()) as nat,
            expand_outcome(table@, table@[idx as int].func, old(stack)@, fuel) == params_outcome(
                table@,
                ms,
                stack@,
                fuel,
            ),
            ms == marked_params(ps),
            params_outcome(table@, marked_params(ps.take(i as int)), stack@, fuel).is_none(),
        decreases ps.len() - i,
    {
        assert(ps.take(i as int + 1).drop_last() =~= ps.take(i as int));
        assert(ps.take(i as int + 1).last() == ps[i as int]);
        let p = &params[i];
        let skipped = p.name == String::from_str("self") || p.name == String::from_str("cls")
            || p.name == String::from_str("return");
        let target: Option<CallableId> = match &p.default {
            ParamDefault::Plain => None,
            ParamDefault::Depends { target, .. } => *target,
            ParamDefault::Security { target, .. } => *target,
        };
        assert(skipped == skipped_name(ps[i as int].name@));
        assert(target == dep_target(ps[i as int]));
        if !skipped && target.is_some() {
            let t = target.unwrap();
            let ghost m = marked_params(ps.take(i as int));
            proof {
                assert(marked_params(ps.take(i as int + 1)) == m.push(ps[i as int]));
                assert(m.push(ps[i as int]).drop_last() =~= m);
                lemma_marked_prefix(ps, i as int + 1);
                lemma_stack_bound(table@, stack@);
            }
            if stack_has(stack, t) {
                proof {
                    assert(params_outcome(table@, m.push(ps[i as int]), stack@, fuel) == Some(
                        DependencyError::Cycle(t),
                    ));
                    lemma_outcome_extends(table@, ms, m.len() + 1 as int, stack@, fuel);
                }
                return Err(DependencyError::Cycle(t));
            }
            let ti = match find_signature(table, t) {
                Some(k) => k,
                None => {
                    proof {
                        assert(params_outcome(table@, m.push(ps[i as int]), stack@, fuel) == Some(
                            DependencyError::UnknownCallable(t),
                        ));
                        lemma_outcome_extends(table@, ms, m.len() + 1 as int, stack@, fuel);
                    }
                    return Err(DependencyError::UnknownCallable(t));
                },
            };
            let ghost before = stack@;
            stack.push(t);
            proof {
                assert(table_ids(table@)[ti as int] == t);
                assert forall|k: int| 0 <= k < stack@.len() implies table_ids(table@).contains(
                    #[trigger] stack@[k],
                ) by {
                    if k == before.len() {
                        assert(table_ids(table@)[ti as int] == stack@[k]);
                    } else {
                        assert(stack@[k] == before[k]);
                    }
                }
                assert(stack@.no_duplicates()) by {
                    assert forall|a: int, b: int|
                        0 <= a < stack@.len() && 0 <= b < stack@.len() && a != b implies stack@[a]
                        != stack@[b] by {
                        if a < before.len() && b < before.len() {
                            assert(stack@[a] == before[a] && stack@[b] == before[b]);
                        } else if a < before.len() {
                            assert(before.contains(stack@[a]));
                        } else {
                            assert(before.contains(stack@[b]));
                        }
                    }
                }
                assert(stack@.contains(table@[ti as int].func)) by {
                    assert(stack@[before.len() as int] == t);
                }
                lemma_stack_bound(table@, stack@);
            }
            let ghost pushed = stack@;
            let rec = expand(table, ti, stack);
            stack.pop();
            assert(stack@ =~= before);
            proof {
                assert(pushed == before.push(t));
                assert(params_outcome(table@, m.push(ps[i as int]), stack@, fuel) == expand_outcome(
                    table@,
                    t,
                    pushed,
                    (fuel - 1) as nat,
                ));
            }
            let subs = match rec {
                Ok(v) => v,
                Err(e) => {
                    proof {
                        lemma_outcome_extends(table@, ms, m.len() + 1 as int, stack@, fuel);
                    }
                    return Err(e);
                },
            };
            let (scopes, use_cache) = match &p.default {
                ParamDefault::Plain => (Vec::new(), true),
                ParamDefault::Depends { use_cache, .. } => (Vec::new(), *use_cache),
                ParamDefault::Security { scopes, use_cache, .. } => (clone_scopes(scopes), *use_cache),
            };
            assert(strings_view(scopes@) == scopes_of(ps[i as int])) by {
                if ps[i as int].default !is Security {
                    assert(strings_view(scopes@) =~= Seq::<Seq<char>>::empty());
                }
            }
            let injection_plan = build_injection_plan(&table[ti].params, &subs);
            let d = DependencyInfo {
                func: t,
                is_async: table[ti].is_async,
                param_name: Some(p.name.clone()),
                scopes,
                use_cache,
                sub_dependencies: subs,
                injection_plan,
            };
            let ghost deps_before = deps@;
            deps.push(d);
            assert(deps@.drop_last() =~= deps_before);
            assert(entry_built(table@, ps[i as int], d));
            assert(is_marked(ps[i as int]));
            let ghost m = marked_params(ps.take(i as int));
            assert(marked_params(ps.take(i as int + 1)) == m.push(ps[i as int]));
            assert(m.push(ps[i as int]).drop_last() =~= m);
            assert(built(table@, m.push(ps[i as int]), deps@));
        } else {
            assert(!is_marked(ps[i as int]));
            assert(marked_params(ps.take(i as int + 1)) == marked_params(ps.take(i as int)));
        }
        i = i + 1;
    }
    assert(ps.take(i as int) =~= ps);
    Ok(deps)
}

/// Builds the dependency nodes of `func` from the signatures in `table`,
/// recursively, with each node's injection plan. Fails on a callable with no
/// signature, and on a callable that depends on itself.
pub fn parse_dependencies(table: &Vec<CallableSignature>, func: CallableId) -> (r: Result<
    Vec<DependencyInfo>,
    DependencyError,
>)
    ensures
        r.is_ok() ==> sig_index(table@, func).is_some() && built(
            table@,
            marked_params(table@[sig_index(table@, func).unwrap()].params@),
            r.unwrap()@,
        ),
        sig_index(table@, func).is_none() ==> r == Err::<Vec<DependencyInfo>, DependencyError>(
            DependencyError::UnknownCallable(func),
        ),
        r.is_err() == parse_outcome(table@, func).is_some(),
        r matches Err(e) ==> Some(e) == parse_outcome(table@, func),
{
    let idx = match find_signature(table, func) {
        Some(k) => k,
        None => {
            return Err(DependencyError::UnknownCallable(func));
        },
    };
    let mut stack: Vec<CallableId> = Vec::new();
    stack.push(func);
    proof {
        assert(stack@[0] == func);
        assert(table_ids(table@)[idx as int] == func);
        assert(stack@.contains(table@[idx as int].func));
        assert(stack@ == seq![func]);
    }
    expand(table, idx, &mut stack)
}

} // verus!
