use grimoire::config::{GrimoireConfig, Sigil};
use grimoire::plan::{extra_args_for, plan_cast, CastError, CastPlan, PlanStep};

fn sigil(run: &str, deps: &[&str]) -> Sigil {
    Sigil {
        description: None,
        language: None,
        run: run.to_string(),
        depends: deps.iter().map(|d| d.to_string()).collect(),
        args: Vec::new(),
        silent: false,
    }
}

fn book(entries: Vec<(&str, Sigil)>) -> GrimoireConfig {
    GrimoireConfig {
        version: "1".to_string(),
        ingredients: Vec::new(),
        sigils: entries.into_iter().map(|(n, s)| (n.to_string(), s)).collect(),
    }
}

fn names(plan: &CastPlan) -> Vec<(String, bool)> {
    plan.steps.iter().map(|s| (s.name.clone(), s.receives_extra_args)).collect()
}

fn owned(v: &[(&str, bool)]) -> Vec<(String, bool)> {
    v.iter().map(|(n, b)| (n.to_string(), *b)).collect()
}

#[test]
fn single_sigil_is_one_step_with_extra_args() {
    let config = book(vec![("hello", sigil("echo hi", &[]))]);
    let plan = plan_cast(&config, "hello");
    assert_eq!(names(&plan), owned(&[("hello", true)]));
    assert!(plan.failure.is_none());
}

#[test]
fn dependencies_run_first_in_listed_order() {
    let config = book(vec![
        ("a", sigil("a", &["b", "c"])),
        ("b", sigil("b", &["c"])),
        ("c", sigil("c", &[])),
    ]);
    let plan = plan_cast(&config, "a");
    assert_eq!(
        names(&plan),
        owned(&[("c", false), ("b", false), ("c", false), ("a", true)])
    );
    assert!(plan.failure.is_none());
}

#[test]
fn shared_dependency_runs_once_per_dependent() {
    let config = book(vec![
        ("top", sigil("t", &["left", "right"])),
        ("left", sigil("l", &["base"])),
        ("right", sigil("r", &["base"])),
        ("base", sigil("b", &[])),
    ]);
    let plan = plan_cast(&config, "top");
    assert_eq!(
        names(&plan),
        owned(&[
            ("base", false),
            ("left", false),
            ("base", false),
            ("right", false),
            ("top", true)
        ])
    );
}

#[test]
fn two_step_cycle_is_reported_with_its_path() {
    let config = book(vec![("a", sigil("a", &["b"])), ("b", sigil("b", &["a"]))]);
    let plan = plan_cast(&config, "a");
    assert!(plan.steps.is_empty());
    match plan.failure {
        Some(CastError::CyclicDependency { path, name }) => {
            assert_eq!(path, vec!["a".to_string(), "b".to_string()]);
            assert_eq!(name, "a");
        }
        _ => panic!("expected a cycle"),
    }
}

#[test]
fn self_dependency_is_a_cycle() {
    let config = book(vec![("loop", sigil("x", &["loop"]))]);
    let plan = plan_cast(&config, "loop");
    match plan.failure {
        Some(CastError::CyclicDependency { path, name }) => {
            assert_eq!(path, vec!["loop".to_string()]);
            assert_eq!(name, "loop");
        }
        _ => panic!("expected a cycle"),
    }
}

#[test]
fn steps_before_a_cycle_still_run() {
    let config = book(vec![
        ("a", sigil("a", &["ok", "b"])),
        ("ok", sigil("ok", &[])),
        ("b", sigil("b", &["b"])),
    ]);
    let plan = plan_cast(&config, "a");
    assert_eq!(names(&plan), owned(&[("ok", false)]));
    match plan.failure {
        Some(CastError::CyclicDependency { path, name }) => {
            assert_eq!(path, vec!["a".to_string(), "b".to_string()]);
            assert_eq!(name, "b");
        }
        _ => panic!("expected a cycle"),
    }
}

#[test]
fn unknown_target_is_not_found() {
    let config = book(vec![("a", sigil("a", &[]))]);
    let plan = plan_cast(&config, "nope");
    assert!(plan.steps.is_empty());
    match plan.failure {
        Some(CastError::SigilNotFound { name }) => assert_eq!(name, "nope"),
        _ => panic!("expected not found"),
    }
}

#[test]
fn unknown_dependency_is_not_found_after_earlier_steps() {
    let config = book(vec![
        ("a", sigil("a", &["b", "ghost"])),
        ("b", sigil("b", &[])),
    ]);
    let plan = plan_cast(&config, "a");
    assert_eq!(names(&plan), owned(&[("b", false)]));
    match plan.failure {
        Some(CastError::SigilNotFound { name }) => assert_eq!(name, "ghost"),
        _ => panic!("expected not found"),
    }
}

#[test]
fn extra_args_go_only_to_the_target() {
    let extra = vec!["--simulate".to_string()];
    let target = PlanStep { name: "run".to_string(), receives_extra_args: true };
    let dep = PlanStep { name: "build".to_string(), receives_extra_args: false };
    assert_eq!(extra_args_for(&target, &extra), extra);
    assert!(extra_args_for(&dep, &extra).is_empty());
}

#[test]
fn sigils_on_a_cycle_never_run() {
    let config = book(vec![
        ("top", sigil("t", &["fine", "loopy"])),
        ("fine", sigil("f", &[])),
        ("loopy", sigil("l", &["other"])),
        ("other", sigil("o", &["loopy"])),
    ]);
    let plan = plan_cast(&config, "top");
    assert_eq!(names(&plan), owned(&[("fine", false)]));
    assert!(matches!(plan.failure, Some(CastError::CyclicDependency { .. })));
}
