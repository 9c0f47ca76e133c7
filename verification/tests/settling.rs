use grimoire::invocation::build_invocation;
use grimoire::settle::{compiled_language_label, settle_compile, settle_run, ProcessOutcome, StepFailure};

fn v(x: &[&str]) -> Vec<String> {
    x.iter().map(|a| a.to_string()).collect()
}

#[test]
fn compile_success_goes_on_without_removing() {
    let inv = build_invocation("c", &"int main(){}".to_string(), false, &v(&[]), false);
    let s = settle_compile(&inv, ProcessOutcome::Succeeded);
    assert!(s.proceed && s.failure.is_none() && s.remove.is_empty());
}

#[test]
fn compile_failure_removes_scratch_files() {
    let inv = build_invocation("cpp", &"int main(){}".to_string(), false, &v(&[]), false);
    let s = settle_compile(&inv, ProcessOutcome::Failed);
    assert!(!s.proceed);
    assert!(matches!(s.failure, Some(StepFailure::CompileFailed)));
    assert_eq!(s.remove, v(&[".grimoire_tmp.cpp", ".grimoire_tmp"]));
}

#[test]
fn missing_compiler_still_removes_scratch_files() {
    let inv = build_invocation("c", &"int main(){}".to_string(), false, &v(&[]), false);
    let s = settle_compile(&inv, ProcessOutcome::Unstartable { permission_denied: false });
    assert!(matches!(s.failure, Some(StepFailure::CompilerUnavailable)));
    assert_eq!(s.remove, v(&[".grimoire_tmp.c", ".grimoire_tmp"]));
}

#[test]
fn run_outcomes_always_remove_and_map_to_errors() {
    let inv = build_invocation("c", &"main.c".to_string(), true, &v(&["x"]), true);
    let all = [
        (ProcessOutcome::Unstartable { permission_denied: true }, Some("perm")),
        (ProcessOutcome::Unstartable { permission_denied: false }, Some("spawn")),
        (ProcessOutcome::Unfinished, Some("wait")),
        (ProcessOutcome::Failed, Some("exit")),
        (ProcessOutcome::Succeeded, None),
    ];
    for (outcome, expected) in all {
        let s = settle_run(&inv, outcome);
        assert_eq!(s.remove, v(&[".grimoire_tmp.exe"]));
        let got = match s.failure {
            Some(StepFailure::PermissionDenied) => Some("perm"),
            Some(StepFailure::SpawnFailed) => Some("spawn"),
            Some(StepFailure::WaitFailed) => Some("wait"),
            Some(StepFailure::ExitFailed) => Some("exit"),
            Some(_) => Some("other"),
            None => None,
        };
        assert_eq!(got, expected);
        assert_eq!(s.proceed, expected.is_none());
    }
}

#[test]
fn interpreted_sigils_have_nothing_to_remove() {
    let inv = build_invocation("python", &"print(1)".to_string(), false, &v(&[]), false);
    let s = settle_run(&inv, ProcessOutcome::Unstartable { permission_denied: false });
    assert!(s.remove.is_empty());
    assert!(matches!(s.failure, Some(StepFailure::SpawnFailed)));
}

#[test]
fn compiled_labels() {
    assert_eq!(compiled_language_label("c"), "C");
    assert_eq!(compiled_language_label("cpp"), "C++");
    assert_eq!(compiled_language_label("c++"), "C++");
}
