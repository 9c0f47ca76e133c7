//! What every casting plan satisfies: each step names a defined sigil, a
//! sigil's dependencies run before it, only the requested sigil receives
//! the extra arguments, a reported cycle is a real cycle of the
//! dependency graph, and a cast that finds no error has explored a
//! dependency graph without cycles or undefined names.

use vstd::prelude::*;
use crate::config::{Sigil, find_spec, entry_names, lemma_find_spec};
use crate::plan::{Outcome, Fault, plan_spec, plan_deps_spec, dep_names, unvisited, lemma_unvisited_shrinks, lemma_name_defined};

verus! {

/// The dependencies of the sigil called `name` (none if it is undefined).
pub open spec fn deps_of(sigils: Seq<(String, Sigil)>, name: Seq<char>) -> Seq<Seq<char>> {
    match find_spec(sigils, name) {
        Some(i) => dep_names(sigils[i].1),
        None => seq![],
    }
}

/// Whether the spellbook defines a sigil called `name`.
pub open spec fn defined(sigils: Seq<(String, Sigil)>, name: Seq<char>) -> bool {
    find_spec(sigils, name) is Some
}

/// `b` is a dependency of the sigil `a`.
pub open spec fn depends_on(sigils: Seq<(String, Sigil)>, a: Seq<char>, b: Seq<char>) -> bool {
    defined(sigils, a) && deps_of(sigils, a).contains(b)
}

/// Each name of `c` is a dependency of the one before it.
pub open spec fn is_chain(sigils: Seq<(String, Sigil)>, c: Seq<Seq<char>>) -> bool {
    forall|i: int| 0 <= i < c.len() - 1 ==> #[trigger] depends_on(sigils, c[i], c[i + 1])
}

/// A step named `d` comes before position `i`.
pub open spec fn runs_before(steps: Seq<(Seq<char>, bool)>, i: int, d: Seq<char>) -> bool {
    exists|j: int| 0 <= j < i && #[trigger] steps[j].0 == d
}

/// Every dependency of a step's sigil has a step before it.
pub open spec fn deps_run_first(sigils: Seq<(String, Sigil)>, steps: Seq<(Seq<char>, bool)>) -> bool {
    forall|i: int, k: int|
        0 <= i < steps.len() && 0 <= k < deps_of(sigils, steps[i].0).len() ==> runs_before(
            steps,
            i,
            #[trigger] deps_of(sigils, steps[i].0)[k],
        )
}

/// Every step names a defined sigil.
pub open spec fn all_defined(sigils: Seq<(String, Sigil)>, steps: Seq<(Seq<char>, bool)>) -> bool {
    forall|i: int| 0 <= i < steps.len() ==> #[trigger] defined(sigils, steps[i].0)
}

/// No step receives the extra arguments.
pub open spec fn none_extra(steps: Seq<(Seq<char>, bool)>) -> bool {
    forall|i: int| 0 <= i < steps.len() ==> !(#[trigger] steps[i].1)
}

proof fn lemma_concat_props(
    sigils: Seq<(String, Sigil)>,
    a: Seq<(Seq<char>, bool)>,
    b: Seq<(Seq<char>, bool)>,
)
    requires
        deps_run_first(sigils, a),
        deps_run_first(sigils, b),
        all_defined(sigils, a),
        all_defined(sigils, b),
    ensures
        deps_run_first(sigils, a + b),
        all_defined(sigils, a + b),
        none_extra(a) && none_extra(b) ==> none_extra(a + b),
{
    let s = a + b;
    assert forall|i: int, k: int|
        0 <= i < s.len() && 0 <= k < deps_of(sigils, s[i].0).len() implies runs_before(
        s,
        i,
        #[trigger] deps_of(sigils, s[i].0)[k],
    ) by {
        let d = deps_of(sigils, s[i].0)[k];
        if i < a.len() {
            assert(s[i] == a[i]);
            assert(runs_before(a, i, d));
            let j = choose|j: int| 0 <= j < i && #[trigger] a[j].0 == d;
            assert(s[j] == a[j]);
        } else {
            assert(s[i] == b[i - a.len()]);
            assert(runs_before(b, i - a.len(), d));
            let j = choose|j: int| 0 <= j < i - a.len() && #[trigger] b[j].0 == d;
            assert(s[j + a.len()] == b[j]);
        }
    }
    assert forall|i: int| 0 <= i < s.len() implies #[trigger] defined(sigils, s[i].0) by {
        if i < a.len() {
            assert(s[i] == a[i]);
        } else {
            assert(s[i] == b[i - a.len()]);
        }
    }
    if none_extra(a) && none_extra(b) {
        assert forall|i: int| 0 <= i < s.len() implies !(#[trigger] s[i].1) by {
            if i < a.len() {
                assert(s[i] == a[i]);
            } else {
                assert(s[i] == b[i - a.len()]);
            }
        }
    }
}

/// Properties of the steps of `plan_spec(sigils, name, path)`.
pub open spec fn plan_steps_ok(sigils: Seq<(String, Sigil)>, name: Seq<char>, path: Seq<Seq<char>>, o: Outcome) -> bool {
    &&& deps_run_first(sigils, o.steps)
    &&& all_defined(sigils, o.steps)
    &&& o.fault is None ==> o.steps.len() > 0 && o.steps.last() == (name, path.len() == 0)
    &&& forall|i: int|
        0 <= i < o.steps.len() && #[trigger] o.steps[i].1 ==> path.len() == 0 && o.fault is None
            && i == o.steps.len() - 1
}

/// Properties of the steps of `plan_deps_spec(sigils, deps, path)`.
pub open spec fn plan_deps_steps_ok(sigils: Seq<(String, Sigil)>, deps: Seq<Seq<char>>, path: Seq<Seq<char>>, o: Outcome) -> bool {
    &&& deps_run_first(sigils, o.steps)
    &&& all_defined(sigils, o.steps)
    &&& o.fault is None ==> forall|k: int|
        0 <= k < deps.len() ==> runs_before(o.steps, o.steps.len() as int, #[trigger] deps[k])
    &&& path.len() > 0 ==> none_extra(o.steps)
}

proof fn lemma_plan_steps(sigils: Seq<(String, Sigil)>, name: Seq<char>, path: Seq<Seq<char>>)
    ensures
        plan_steps_ok(sigils, name, path, plan_spec(sigils, name, path)),
    decreases unvisited(entry_names(sigils), path), 0nat,
{
    let o = plan_spec(sigils, name, path);
    if path.contains(name) {
    } else {
        match find_spec(sigils, name) {
            None => {},
            Some(i) => {
                lemma_find_spec(sigils, name);
                lemma_name_defined(sigils, name, i);
                lemma_unvisited_shrinks(entry_names(sigils), path, name);
                let p2 = path.push(name);
                let deps = dep_names(sigils[i].1);
                lemma_plan_deps_steps(sigils, deps, p2);
                let sub = plan_deps_spec(sigils, deps, p2);
                if sub.fault is None {
                    let s = sub.steps.push((name, path.len() == 0));
                    assert(o.steps == s);
                    assert(deps_of(sigils, name) == deps);
                    assert forall|x: int, k: int|
                        0 <= x < s.len() && 0 <= k < deps_of(sigils, s[x].0).len() implies runs_before(
                        s,
                        x,
                        #[trigger] deps_of(sigils, s[x].0)[k],
                    ) by {
                        let d = deps_of(sigils, s[x].0)[k];
                        if x < sub.steps.len() {
                            assert(s[x] == sub.steps[x]);
                            assert(runs_before(sub.steps, x, d));
                            let j = choose|j: int| 0 <= j < x && #[trigger] sub.steps[j].0 == d;
                            assert(s[j] == sub.steps[j]);
                        } else {
                            assert(deps[k] == d);
                            assert(runs_before(sub.steps, sub.steps.len() as int, deps[k]));
                            let j = choose|j: int|
                                0 <= j < sub.steps.len() && #[trigger] sub.steps[j].0 == d;
                            assert(s[j] == sub.steps[j]);
                        }
                    }
                    assert forall|x: int| 0 <= x < s.len() implies #[trigger] defined(
                        sigils,
                        s[x].0,
                    ) by {
                        if x < sub.steps.len() {
                            assert(s[x] == sub.steps[x]);
                        }
                    }
                    assert forall|x: int|
                        0 <= x < s.len() && #[trigger] s[x].1 implies path.len() == 0 && o.fault is None
                        && x == s.len() - 1 by {
                        if x < sub.steps.len() {
                            assert(s[x] == sub.steps[x]);
                        }
                    }
                }
            },
        }
    }
}

proof fn lemma_plan_deps_steps(sigils: Seq<(String, Sigil)>, deps: Seq<Seq<char>>, path: Seq<Seq<char>>)
    ensures
        plan_deps_steps_ok(sigils, deps, path, plan_deps_spec(sigils, deps, path)),
    decreases unvisited(entry_names(sigils), path), deps.len() + 1,
{
    let o = plan_deps_spec(sigils, deps, path);
    if deps.len() > 0 {
        lemma_plan_steps(sigils, deps[0], path);
        let first = plan_spec(sigils, deps[0], path);
        if first.fault is None {
            let rest_deps = deps.drop_first();
            lemma_plan_deps_steps(sigils, rest_deps, path);
            let rest = plan_deps_spec(sigils, rest_deps, path);
            assert(path.len() > 0 ==> none_extra(first.steps)) by {
                if path.len() > 0 {
                    assert forall|x: int| 0 <= x < first.steps.len() implies !(
                    #[trigger] first.steps[x].1) by {}
                }
            }
            lemma_concat_props(sigils, first.steps, rest.steps);
            if rest.fault is None {
                let s = first.steps + rest.steps;
                assert forall|k: int| 0 <= k < deps.len() implies runs_before(
                    s,
                    s.len() as int,
                    #[trigger] deps[k],
                ) by {
                    if k == 0 {
                        let j = first.steps.len() - 1;
                        assert(s[j] == first.steps[j]);
                        assert(s[j].0 == deps[0]);
                    } else {
                        assert(rest_deps[k - 1] == deps[k]);
                        assert(runs_before(rest.steps, rest.steps.len() as int, rest_deps[k - 1]));
                        let j = choose|j: int|
                            0 <= j < rest.steps.len() && #[trigger] rest.steps[j].0 == deps[k];
                        assert(s[j + first.steps.len()] == rest.steps[j]);
                    }
                }
            }
        } else {
            assert(path.len() > 0 ==> none_extra(first.steps)) by {
                if path.len() > 0 {
                    assert forall|x: int| 0 <= x < first.steps.len() implies !(
                    #[trigger] first.steps[x].1) by {}
                }
            }
        }
    }
}

/// What a fault of `plan_spec(sigils, name, path)` says about the
/// dependency graph, `q` being a witness chain for a missing sigil.
pub open spec fn fault_explained(
    sigils: Seq<(String, Sigil)>,
    start: Seq<Seq<char>>,
    o: Outcome,
    q: Seq<Seq<char>>,
) -> bool {
    &&& o.fault matches Some(Fault::Cycle(c, n)) ==> {
        &&& c.contains(n)
        &&& is_chain(sigils, c.push(n))
        &&& c.len() + 1 >= start.len()
        &&& c.push(n).take(start.len() as int) == start
    }
    &&& o.fault matches Some(Fault::Missing(n)) ==> {
        &&& !defined(sigils, n)
        &&& is_chain(sigils, q)
        &&& q.len() >= start.len() > 0
        &&& q.last() == n
        &&& q.take(start.len() as int) == start
    }
}

proof fn lemma_chain_extend(sigils: Seq<(String, Sigil)>, c: Seq<Seq<char>>, x: Seq<char>)
    requires
        is_chain(sigils, c),
        c.len() > 0,
        depends_on(sigils, c.last(), x),
    ensures
        is_chain(sigils, c.push(x)),
{
    let d = c.push(x);
    assert forall|i: int| 0 <= i < d.len() - 1 implies #[trigger] depends_on(sigils, d[i], d[i + 1]) by {
        if i < c.len() - 1 {
            assert(d[i] == c[i] && d[i + 1] == c[i + 1]);
        }
    }
}

proof fn lemma_plan_faults(sigils: Seq<(String, Sigil)>, name: Seq<char>, path: Seq<Seq<char>>) -> (q: Seq<Seq<char>>)
    requires
        is_chain(sigils, path.push(name)),
    ensures
        fault_explained(sigils, path.push(name), plan_spec(sigils, name, path), q),
    decreases unvisited(entry_names(sigils), path), 0nat,
{
    let o = plan_spec(sigils, name, path);
    if path.contains(name) {
        assert(path.push(name).take(path.len() + 1 as int) =~= path.push(name));
        path.push(name)
    } else {
        match find_spec(sigils, name) {
            None => {
                assert(path.push(name).take(path.len() + 1 as int) =~= path.push(name));
                path.push(name)
            },
            Some(i) => {
                lemma_find_spec(sigils, name);
                lemma_name_defined(sigils, name, i);
                lemma_unvisited_shrinks(entry_names(sigils), path, name);
                let p2 = path.push(name);
                let deps = dep_names(sigils[i].1);
                assert(deps_of(sigils, name) == deps);
                assert forall|k: int| 0 <= k < deps.len() implies #[trigger] depends_on(
                    sigils,
                    p2.last(),
                    deps[k],
                ) by {
                    assert(deps.contains(deps[k]));
                }
                let q = lemma_plan_deps_faults(sigils, deps, p2);
                let sub = plan_deps_spec(sigils, deps, p2);
                if sub.fault is Some {
                    assert(o == sub);
                }
                if let Some(Fault::Cycle(c, n)) = sub.fault {
                    assert(c.push(n).take(p2.len() as int) =~= c.take(p2.len() as int));
                }
                q
            },
        }
    }
}

proof fn lemma_plan_deps_faults(sigils: Seq<(String, Sigil)>, deps: Seq<Seq<char>>, path: Seq<Seq<char>>) -> (q: Seq<Seq<char>>)
    requires
        is_chain(sigils, path),
        path.len() > 0,
        forall|k: int| 0 <= k < deps.len() ==> #[trigger] depends_on(sigils, path.last(), deps[k]),
    ensures
        plan_deps_spec(sigils, deps, path).fault matches Some(Fault::Cycle(c, n)) ==> {
            &&& c.contains(n)
            &&& is_chain(sigils, c.push(n))
            &&& c.len() >= path.len()
            &&& c.take(path.len() as int) == path
        },
        plan_deps_spec(sigils, deps, path).fault matches Some(Fault::Missing(n)) ==> {
            &&& !defined(sigils, n)
            &&& is_chain(sigils, q)
            &&& q.len() >= path.len()
            &&& q.last() == n
            &&& q.take(path.len() as int) == path
        },
    decreases unvisited(entry_names(sigils), path), deps.len() + 1,
{
    if deps.len() == 0 {
        path
    } else {
        assert(depends_on(sigils, path.last(), deps[0]));
        lemma_chain_extend(sigils, path, deps[0]);
        let q = lemma_plan_faults(sigils, deps[0], path);
        let first = plan_spec(sigils, deps[0], path);
        let start = path.push(deps[0]);
        if first.fault is Some {
            if let Some(Fault::Cycle(c, n)) = first.fault {
                assert(c.push(n).take(start.len() as int) == start);
                assert(c.take(path.len() as int) =~= start.take(path.len() as int));
                assert(start.take(path.len() as int) =~= path);
            }
            if let Some(Fault::Missing(n)) = first.fault {
                assert(q.take(path.len() as int) =~= start.take(path.len() as int));
                assert(start.take(path.len() as int) =~= path);
            }
            q
        } else {
            let rest = deps.drop_first();
            assert forall|k: int| 0 <= k < rest.len() implies #[trigger] depends_on(
                sigils,
                path.last(),
                rest[k],
            ) by {
                assert(rest[k] == deps[k + 1]);
            }
            lemma_plan_deps_faults(sigils, rest, path)
        }
    }
}

proof fn lemma_deps_all_ok(sigils: Seq<(String, Sigil)>, deps: Seq<Seq<char>>, path: Seq<Seq<char>>)
    requires
        plan_deps_spec(sigils, deps, path).fault is None,
    ensures
        forall|k: int| 0 <= k < deps.len() ==> (#[trigger] plan_spec(sigils, deps[k], path)).fault is None,
    decreases deps.len(),
{
    if deps.len() > 0 {
        lemma_deps_all_ok(sigils, deps.drop_first(), path);
        assert forall|k: int| 0 <= k < deps.len() implies (#[trigger] plan_spec(sigils, deps[k], path)).fault is None by {
            if k > 0 {
                assert(deps.drop_first()[k - 1] == deps[k]);
            }
        }
    }
}

proof fn lemma_ok_chains(sigils: Seq<(String, Sigil)>, path: Seq<Seq<char>>, c: Seq<Seq<char>>)
    requires
        c.len() > 0,
        plan_spec(sigils, c[0], path).fault is None,
        is_chain(sigils, c),
    ensures
        c.no_duplicates(),
        forall|i: int| 0 <= i < c.len() ==> !path.contains(#[trigger] c[i]),
        forall|i: int| 0 <= i < c.len() ==> #[trigger] defined(sigils, c[i]),
    decreases c.len(),
{
    let name = c[0];
    assert(!path.contains(name));
    lemma_find_spec(sigils, name);
    let i = find_spec(sigils, name)->0;
    assert(defined(sigils, name));
    let p2 = path.push(name);
    let deps = dep_names(sigils[i].1);
    lemma_deps_all_ok(sigils, deps, p2);
    if c.len() > 1 {
        let tail = c.drop_first();
        assert(depends_on(sigils, c[0int], c[0int + 1]));
        assert(deps_of(sigils, name) == deps);
        let k = choose|k: int| 0 <= k < deps.len() && deps[k] == c[1];
        assert(plan_spec(sigils, deps[k], p2).fault is None);
        assert forall|x: int| 0 <= x < tail.len() - 1 implies #[trigger] depends_on(
            sigils,
            tail[x],
            tail[x + 1],
        ) by {
            assert(tail[x] == c[x + 1] && tail[x + 1] == c[x + 2]);
            assert(depends_on(sigils, c[x + 1], c[x + 2]));
        }
        lemma_ok_chains(sigils, p2, tail);
        assert forall|x: int| 0 <= x < c.len() implies !path.contains(#[trigger] c[x]) by {
            if x > 0 {
                assert(c[x] == tail[x - 1]);
                assert(!p2.contains(tail[x - 1]));
                if path.contains(c[x]) {
                    let y = choose|y: int| 0 <= y < path.len() && path[y] == c[x];
                    assert(p2[y] == c[x]);
                }
            }
        }
        assert forall|x: int| 0 <= x < c.len() implies #[trigger] defined(sigils, c[x]) by {
            if x > 0 {
                assert(c[x] == tail[x - 1]);
            }
        }
        assert forall|x: int, y: int| 0 <= x < c.len() && 0 <= y < c.len() && x != y implies c[x]
            != c[y] by {
            if x > 0 && y > 0 {
                assert(c[x] == tail[x - 1] && c[y] == tail[y - 1]);
            } else if x == 0 {
                assert(c[y] == tail[y - 1]);
                assert(!p2.contains(tail[y - 1]));
                assert(p2[path.len() as int] == name);
            } else {
                assert(c[x] == tail[x - 1]);
                assert(!p2.contains(tail[x - 1]));
                assert(p2[path.len() as int] == name);
            }
        }
    }
}

/// Casting order: every step names a sigil the spellbook defines; every
/// dependency of a step's sigil has a step before it; only the final step
/// of a cast that finds no error receives the extra arguments, and that
/// step is the requested sigil.
pub proof fn law_casting_order(sigils: Seq<(String, Sigil)>, target: Seq<char>)
    ensures
        ({
            let o = plan_spec(sigils, target, seq![]);
            &&& all_defined(sigils, o.steps)
            &&& deps_run_first(sigils, o.steps)
            &&& o.fault is None ==> o.steps.len() > 0 && o.steps.last() == (target, true)
            &&& forall|i: int|
                0 <= i < o.steps.len() && #[trigger] o.steps[i].1 ==> o.fault is None && i
                    == o.steps.len() - 1
        }),
{
    lemma_plan_steps(sigils, target, seq![]);
}

/// A reported cyclic dependency is a real cycle reachable from the
/// requested sigil: the reported chain starts at the target, each name on
/// it is a dependency of the one before, and the repeated name is a
/// dependency of the last one and already on the chain.
pub proof fn law_cycle_is_real(sigils: Seq<(String, Sigil)>, target: Seq<char>)
    ensures
        plan_spec(sigils, target, seq![]).fault matches Some(Fault::Cycle(c, n)) ==> {
            &&& c.len() > 0
            &&& c[0] == target
            &&& c.contains(n)
            &&& is_chain(sigils, c.push(n))
        },
{
    let empty: Seq<Seq<char>> = seq![];
    assert(empty.push(target) =~= seq![target]);
    assert(is_chain(sigils, seq![target]));
    lemma_plan_faults(sigils, target, empty);
    if let Some(Fault::Cycle(c, n)) = plan_spec(sigils, target, empty).fault {
        let start = empty.push(target);
        assert(c.push(n).take(1) == start);
        assert(c.contains(n));
        let k = choose|k: int| 0 <= k < c.len() && c[k] == n;
        assert(c.push(n)[0] == c[0]);
        assert(c.push(n).take(1)[0] == c.push(n)[0]);
        assert(start[0] == target);
    }
}

/// A reported missing sigil is undefined and reachable from the requested
/// sigil along a chain of dependencies.
pub proof fn law_missing_is_reachable(sigils: Seq<(String, Sigil)>, target: Seq<char>)
    ensures
        plan_spec(sigils, target, seq![]).fault matches Some(Fault::Missing(n)) ==> {
            &&& !defined(sigils, n)
            &&& exists|c: Seq<Seq<char>>|
                c.len() > 0 && c[0] == target && c.last() == n && #[trigger] is_chain(sigils, c)
        },
{
    let empty: Seq<Seq<char>> = seq![];
    assert(empty.push(target) =~= seq![target]);
    assert(is_chain(sigils, seq![target]));
    let q = lemma_plan_faults(sigils, target, empty);
    if let Some(Fault::Missing(n)) = plan_spec(sigils, target, empty).fault {
        assert(q.take(1) == seq![target]);
        assert(q[0] == q.take(1)[0]);
        assert(is_chain(sigils, q));
    }
}

/// A cast that finds no error has explored a dependency graph without
/// cycles or undefined names: every chain of dependencies from the
/// requested sigil repeats no name and names only defined sigils.
pub proof fn law_success_means_acyclic(sigils: Seq<(String, Sigil)>, target: Seq<char>, c: Seq<Seq<char>>)
    requires
        plan_spec(sigils, target, seq![]).fault is None,
        c.len() > 0,
        c[0] == target,
        is_chain(sigils, c),
    ensures
        c.no_duplicates(),
        forall|i: int| 0 <= i < c.len() ==> #[trigger] defined(sigils, c[i]),
{
    lemma_ok_chains(sigils, seq![], c);
}

/// Casting `n` along some chain finds no error.
pub open spec fn runs_cleanly(sigils: Seq<(String, Sigil)>, n: Seq<char>) -> bool {
    exists|p: Seq<Seq<char>>| (#[trigger] plan_spec(sigils, n, p)).fault is None
}

/// Every step names a sigil whose own cast finds no error.
pub open spec fn all_clean(sigils: Seq<(String, Sigil)>, steps: Seq<(Seq<char>, bool)>) -> bool {
    forall|i: int| 0 <= i < steps.len() ==> #[trigger] runs_cleanly(sigils, steps[i].0)
}

proof fn lemma_concat_clean(sigils: Seq<(String, Sigil)>, a: Seq<(Seq<char>, bool)>, b: Seq<(Seq<char>, bool)>)
    requires
        all_clean(sigils, a),
        all_clean(sigils, b),
    ensures
        all_clean(sigils, a + b),
{
    let s = a + b;
    assert forall|i: int| 0 <= i < s.len() implies #[trigger] runs_cleanly(sigils, s[i].0) by {
        if i < a.len() {
            assert(s[i] == a[i]);
        } else {
            assert(s[i] == b[i - a.len()]);
        }
    }
}

proof fn lemma_plan_clean(sigils: Seq<(String, Sigil)>, name: Seq<char>, path: Seq<Seq<char>>)
    ensures
        all_clean(sigils, plan_spec(sigils, name, path).steps),
    decreases unvisited(entry_names(sigils), path), 0nat,
{
    let o = plan_spec(sigils, name, path);
    if !path.contains(name) {
        match find_spec(sigils, name) {
            None => {},
            Some(i) => {
                lemma_find_spec(sigils, name);
                lemma_name_defined(sigils, name, i);
                lemma_unvisited_shrinks(entry_names(sigils), path, name);
                let p2 = path.push(name);
                let deps = dep_names(sigils[i].1);
                lemma_plan_deps_clean(sigils, deps, p2);
                let sub = plan_deps_spec(sigils, deps, p2);
                if sub.fault is None {
                    let s = sub.steps.push((name, path.len() == 0));
                    assert(plan_spec(sigils, name, path).fault is None);
                    assert(runs_cleanly(sigils, name));
                    assert forall|x: int| 0 <= x < s.len() implies #[trigger] runs_cleanly(
                        sigils,
                        s[x].0,
                    ) by {
                        if x < sub.steps.len() {
                            assert(s[x] == sub.steps[x]);
                        }
                    }
                }
            },
        }
    }
}

proof fn lemma_plan_deps_clean(sigils: Seq<(String, Sigil)>, deps: Seq<Seq<char>>, path: Seq<Seq<char>>)
    ensures
        all_clean(sigils, plan_deps_spec(sigils, deps, path).steps),
    decreases unvisited(entry_names(sigils), path), deps.len() + 1,
{
    if deps.len() > 0 {
        lemma_plan_clean(sigils, deps[0], path);
        let first = plan_spec(sigils, deps[0], path);
        if first.fault is None {
            lemma_plan_deps_clean(sigils, deps.drop_first(), path);
            lemma_concat_clean(
                sigils,
                first.steps,
                plan_deps_spec(sigils, deps.drop_first(), path).steps,
            );
        }
    }
}

/// A sigil on a dependency cycle never runs: every chain of dependencies
/// that starts at the sigil of a step repeats no name and names only
/// defined sigils.
pub proof fn law_cycle_members_never_run(
    sigils: Seq<(String, Sigil)>,
    target: Seq<char>,
    i: int,
    c: Seq<Seq<char>>,
)
    requires
        0 <= i < plan_spec(sigils, target, seq![]).steps.len(),
        c.len() > 0,
        c[0] == plan_spec(sigils, target, seq![]).steps[i].0,
        is_chain(sigils, c),
    ensures
        c.no_duplicates(),
        forall|k: int| 0 <= k < c.len() ==> #[trigger] defined(sigils, c[k]),
{
    let steps = plan_spec(sigils, target, seq![]).steps;
    lemma_plan_clean(sigils, target, seq![]);
    assert(runs_cleanly(sigils, steps[i].0));
    let p = choose|p: Seq<Seq<char>>| (#[trigger] plan_spec(sigils, steps[i].0, p)).fault is None;
    lemma_ok_chains(sigils, p, c);
}

} // verus!
