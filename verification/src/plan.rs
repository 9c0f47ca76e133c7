//! Casting order: a sigil's dependencies are cast, depth first and in the
//! order they are listed, before the sigil itself.  A sigil that is reached
//! again while one of its own dependencies is being cast is a cyclic
//! dependency, and a name that the spellbook does not define is an error;
//! either stops the cast at that point, after the sigils that came before.

use vstd::prelude::*;
use crate::text::{str_views, copy_strings};
use crate::config::{GrimoireConfig, Sigil, find_entry, find_spec, entry_names, lemma_find_spec};

verus! {

/// One sigil to run, in casting order.  Only the sigil that was asked for
/// receives the extra command-line arguments; its dependencies run without.
#[derive(Debug)]
pub struct PlanStep {
    pub name: String,
    pub receives_extra_args: bool,
}

/// Why a cast stops before its target runs.
#[derive(Debug)]
pub enum CastError {
    /// `name` was reached again along the chain `path` of sigils being cast.
    CyclicDependency { path: Vec<String>, name: String },
    /// The spellbook defines no sigil called `name`.
    SigilNotFound { name: String },
}

/// The steps of a cast, and the error that ends it early, if any.  The
/// steps are those that run before the error is found.
#[derive(Debug)]
pub struct CastPlan {
    pub steps: Vec<PlanStep>,
    pub failure: Option<CastError>,
}

/// The mathematical form of a `CastError`.
pub enum Fault {
    Cycle(Seq<Seq<char>>, Seq<char>),
    Missing(Seq<char>),
}

/// The mathematical form of a `CastPlan`: the names of the steps with
/// whether each receives the extra arguments, and the fault.
pub struct Outcome {
    pub steps: Seq<(Seq<char>, bool)>,
    pub fault: Option<Fault>,
}

pub open spec fn step_view(s: PlanStep) -> (Seq<char>, bool) {
    (s.name@, s.receives_extra_args)
}

pub open spec fn steps_view(v: Seq<PlanStep>) -> Seq<(Seq<char>, bool)> {
    v.map_values(|s: PlanStep| step_view(s))
}

pub open spec fn fault_view(e: CastError) -> Fault {
    match e {
        CastError::CyclicDependency { path, name } => Fault::Cycle(str_views(path@), name@),
        CastError::SigilNotFound { name } => Fault::Missing(name@),
    }
}

pub open spec fn failure_view(e: Option<CastError>) -> Option<Fault> {
    match e {
        Some(e) => Some(fault_view(e)),
        None => None,
    }
}

impl CastPlan {
    pub open spec fn outcome(self) -> Outcome {
        Outcome { steps: steps_view(self.steps@), fault: failure_view(self.failure) }
    }
}

/// The dependency names of a sigil.
pub open spec fn dep_names(s: Sigil) -> Seq<Seq<char>> {
    str_views(s.depends@)
}

/// How many table entries are named outside `path`; it shrinks whenever a
/// defined sigil that is not yet on the path is pushed onto it.
pub open spec fn unvisited(names: Seq<Seq<char>>, path: Seq<Seq<char>>) -> nat
    decreases names.len(),
{
    if names.len() == 0 {
        0
    } else {
        unvisited(names.drop_last(), path) + if path.contains(names.last()) {
            0nat
        } else {
            1nat
        }
    }
}

pub proof fn lemma_unvisited_shrinks(names: Seq<Seq<char>>, path: Seq<Seq<char>>, x: Seq<char>)
    ensures
        unvisited(names, path.push(x)) <= unvisited(names, path),
        names.contains(x) && !path.contains(x) ==> unvisited(names, path.push(x)) < unvisited(
            names,
            path,
        ),
    decreases names.len(),
{
    if names.len() > 0 {
        let init = names.drop_last();
        lemma_unvisited_shrinks(init, path, x);
        assert(path.push(x).contains(names.last()) <== path.contains(names.last())) by {
            if path.contains(names.last()) {
                let k = choose|k: int| 0 <= k < path.len() && path[k] == names.last();
                assert(path.push(x)[k] == names.last());
            }
        }
        if names.last() == x {
            assert(path.push(x)[path.len() as int] == x);
        }
        if names.contains(x) && names.last() != x {
            let k = choose|k: int| 0 <= k < names.len() && names[k] == x;
            assert(init[k] == x);
        }
    }
}

/// Casting `name` while the sigils of `path` are being cast.
pub open spec fn plan_spec(sigils: Seq<(String, Sigil)>, name: Seq<char>, path: Seq<Seq<char>>) -> Outcome
    decreases unvisited(entry_names(sigils), path), 0nat,
{
    if path.contains(name) {
        Outcome { steps: seq![], fault: Some(Fault::Cycle(path, name)) }
    } else {
        match find_spec(sigils, name) {
            None => Outcome { steps: seq![], fault: Some(Fault::Missing(name)) },
            Some(i) => {
                proof {
                    lemma_find_spec(sigils, name);
                    lemma_name_defined(sigils, name, i);
                    lemma_unvisited_shrinks(entry_names(sigils), path, name);
                }
                let sub = plan_deps_spec(sigils, dep_names(sigils[i].1), path.push(name));
                if sub.fault is Some {
                    sub
                } else {
                    Outcome { steps: sub.steps.push((name, path.len() == 0)), fault: None }
                }
            },
        }
    }
}

/// Casting the dependencies `deps` in order, each with the chain `path`.
pub open spec fn plan_deps_spec(sigils: Seq<(String, Sigil)>, deps: Seq<Seq<char>>, path: Seq<Seq<char>>) -> Outcome
    decreases unvisited(entry_names(sigils), path), deps.len() + 1,
{
    if deps.len() == 0 {
        Outcome { steps: seq![], fault: None }
    } else {
        let first = plan_spec(sigils, deps[0], path);
        if first.fault is Some {
            first
        } else {
            let rest = plan_deps_spec(sigils, deps.drop_first(), path);
            Outcome { steps: first.steps + rest.steps, fault: rest.fault }
        }
    }
}

pub proof fn lemma_name_defined(sigils: Seq<(String, Sigil)>, name: Seq<char>, i: int)
    requires
        0 <= i < sigils.len(),
        sigils[i].0@ == name,
    ensures
        entry_names(sigils).contains(name),
{
    assert(entry_names(sigils)[i] == name);
}

/// Appends to `steps` the steps of casting `name` along `path`, and returns
/// the error that stops the cast, if any.
fn plan_into(
    sigils: &Vec<(String, Sigil)>,
    name: &String,
    path: &Vec<String>,
    steps: &mut Vec<PlanStep>,
) -> (fault: Option<CastError>)
    ensures
        steps_view(final(steps)@) == steps_view(old(steps)@) + plan_spec(
            sigils@,
            name@,
            str_views(path@),
        ).steps,
        failure_view(fault) == plan_spec(sigils@, name@, str_views(path@)).fault,
    decreases unvisited(entry_names(sigils@), str_views(path@)),
{
    let ghost p = str_views(path@);
    let ghost start = steps_view(steps@);
    let mut on_path = false;
    let mut k: usize = 0;
    while k < path.len()
        invariant
            k <= path@.len(),
            p == str_views(path@),
            on_path == exists|j: int| 0 <= j < k && p[j] == name@,
        decreases path@.len() - k,
    {
        assert(p[k as int] == path@[k as int]@);
        if path[k] == *name {
            on_path = true;
        }
        k = k + 1;
    }
    if on_path {
        assert(p.contains(name@));
        return Some(CastError::CyclicDependency { path: copy_strings(path), name: name.clone() });
    }
    assert(!p.contains(name@)) by {
        if p.contains(name@) {
            let j = choose|j: int| 0 <= j < p.len() && p[j] == name@;
            assert(p[j] == name@);
        }
    }
    let idx = match find_entry(sigils, name.as_str()) {
        Some(i) => i,
        None => {
            assert(steps_view(steps@) =~= start + Seq::<(Seq<char>, bool)>::empty());
            return Some(CastError::SigilNotFound { name: name.clone() });
        },
    };
    proof {
        lemma_find_spec(sigils@, name@);
        lemma_name_defined(sigils@, name@, idx as int);
        lemma_unvisited_shrinks(entry_names(sigils@), p, name@);
    }
    let deps = &sigils[idx].1.depends;
    let ghost dn = str_views(deps@);
    let mut sub_path = copy_strings(path);
    sub_path.push(name.clone());
    let ghost p2 = str_views(sub_path@);
    assert(p2 =~= p.push(name@));
    let ghost whole = plan_deps_spec(sigils@, dn, p2);
    assert(dn.skip(0) =~= dn);
    let mut j: usize = 0;
    while j < deps.len()
        invariant
            j <= deps@.len(),
            dn == str_views(deps@),
            dn == dep_names(sigils@[idx as int].1),
            idx < sigils@.len(),
            find_spec(sigils@, name@) == Some(idx as int),
            !p.contains(name@),
            p == str_views(path@),
            p2 == p.push(name@),
            p2 == str_views(sub_path@),
            unvisited(entry_names(sigils@), p2) < unvisited(entry_names(sigils@), p),
            whole == plan_deps_spec(sigils@, dn, p2),
            start == steps_view(old(steps)@),
            whole.fault == plan_deps_spec(sigils@, dn.skip(j as int), p2).fault,
            steps_view(steps@) + plan_deps_spec(sigils@, dn.skip(j as int), p2).steps == start
                + whole.steps,
        decreases deps@.len() - j,
    {
        let ghost before = steps_view(steps@);
        let ghost rest = dn.skip(j as int);
        assert(rest[0] == dn[j as int]);
        assert(rest.drop_first() =~= dn.skip(j + 1));
        let r = plan_into(sigils, &deps[j], &sub_path, steps);
        assert(steps_view(steps@) == before + plan_spec(sigils@, dn[j as int], p2).steps);
        if r.is_some() {
            assert(plan_deps_spec(sigils@, rest, p2) == plan_spec(sigils@, dn[j as int], p2));
            assert(whole.fault is Some);
            let ghost pth = plan_spec(sigils@, name@, p);
            assert(pth == whole);
            return r;
        }
        j = j + 1;
        assert(steps_view(steps@) + plan_deps_spec(sigils@, dn.skip(j as int), p2).steps =~= start
            + whole.steps);
    }
    assert(dn.skip(j as int) =~= Seq::<Seq<char>>::empty());
    assert(plan_deps_spec(sigils@, dn.skip(j as int), p2).steps =~= Seq::<(Seq<char>, bool)>::empty());
    assert(steps_view(steps@) =~= start + whole.steps);
    assert(whole.fault is None);
    let ghost before_push = steps@;
    let step = PlanStep { name: name.clone(), receives_extra_args: path.len() == 0 };
    steps.push(step);
    assert(steps@ == before_push.push(step));
    assert(steps_view(steps@) =~= steps_view(before_push).push(step_view(step)));
    assert(steps_view(steps@) =~= start + whole.steps.push((name@, p.len() == 0)));
    None
}

/// The casting plan for the sigil called `name`: the sigils that run, in
/// order, and the error that stops the cast, if any.
pub fn plan_cast(config: &GrimoireConfig, name: &str) -> (plan: CastPlan)
    ensures
        plan.outcome() == plan_spec(config.sigils@, name@, seq![]),
{
    let sigils = &config.sigils;
    let mut steps: Vec<PlanStep> = Vec::new();
    let target = String::from_str(name);
    let path: Vec<String> = Vec::new();
    assert(str_views(path@) =~= Seq::<Seq<char>>::empty());
    let failure = plan_into(sigils, &target, &path, &mut steps);
    assert(steps_view(steps@) =~= plan_spec(sigils@, name@, seq![]).steps);
    CastPlan { steps, failure }
}

/// The extra arguments a step's command receives: those given on the
/// command line for the requested sigil, none for its dependencies.
pub fn extra_args_for(step: &PlanStep, extra_args: &Vec<String>) -> (args: Vec<String>)
    ensures
        args@ == if step.receives_extra_args {
            extra_args@
        } else {
            Seq::<String>::empty()
        },
{
    let mut args: Vec<String> = Vec::new();
    if step.receives_extra_args {
        let mut i: usize = 0;
        while i < extra_args.len()
            invariant
                i <= extra_args@.len(),
                args@ == extra_args@.take(i as int),
            decreases extra_args@.len() - i,
        {
            args.push(extra_args[i].clone());
            i = i + 1;
            assert(args@ =~= extra_args@.take(i as int));
        }
        assert(extra_args@.take(extra_args@.len() as int) =~= extra_args@);
    }
    args
}

} // verus!
