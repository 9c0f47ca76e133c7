//! What happens after each process of a sigil: whether the cast goes on,
//! which error ends it, and which scratch files are removed.  Every file a
//! compiled sigil creates is removed whatever the compiler and the program
//! do, including when they cannot be started.

use vstd::prelude::*;
use crate::text::{str_views, copy_strings};
use crate::invocation::{Invocation, InvocationView, invocation_spec, Tongue, tongue_of, tongue_spec};

verus! {

/// How a process ended, as seen by the runner.
#[derive(Debug)]
pub enum ProcessOutcome {
    /// The process could not be started.
    Unstartable { permission_denied: bool },
    /// The process started but could not be waited for.
    Unfinished,
    /// The process exited unsuccessfully.
    Failed,
    /// The process exited successfully.
    Succeeded,
}

/// Why casting a sigil failed.
#[derive(Debug)]
pub enum StepFailure {
    /// The compiler could not be run.
    CompilerUnavailable,
    /// The compiler reported an error.
    CompileFailed,
    /// The command may not be executed.
    PermissionDenied,
    /// The interpreter or program could not be started.
    SpawnFailed,
    /// The command could not be waited for.
    WaitFailed,
    /// The command exited unsuccessfully.
    ExitFailed,
}

/// What to do after a process: the files to remove, the error that ends
/// the cast (if any), and whether the sigil's work goes on.
#[derive(Debug)]
pub struct Settlement {
    pub remove: Vec<String>,
    pub failure: Option<StepFailure>,
    pub proceed: bool,
}

/// The mathematical form of a `Settlement`.
pub struct SettlementView {
    pub remove: Seq<Seq<char>>,
    pub failure: Option<StepFailure>,
    pub proceed: bool,
}

impl Settlement {
    pub open spec fn view_of(self) -> SettlementView {
        SettlementView { remove: str_views(self.remove@), failure: self.failure, proceed: self.proceed }
    }
}

/// After the compile step: on success the program runs next and nothing is
/// removed yet; otherwise the scratch files are removed and the cast fails.
pub open spec fn settle_compile_spec(cleanup: Seq<Seq<char>>, o: ProcessOutcome) -> SettlementView {
    match o {
        ProcessOutcome::Succeeded => SettlementView { remove: seq![], failure: None, proceed: true },
        ProcessOutcome::Failed => SettlementView {
            remove: cleanup,
            failure: Some(StepFailure::CompileFailed),
            proceed: false,
        },
        _ => SettlementView {
            remove: cleanup,
            failure: Some(StepFailure::CompilerUnavailable),
            proceed: false,
        },
    }
}

/// After the command: the scratch files are removed in every case, and the
/// cast goes on only when the command succeeded.
pub open spec fn settle_run_spec(cleanup: Seq<Seq<char>>, o: ProcessOutcome) -> SettlementView {
    let failure = match o {
        ProcessOutcome::Unstartable { permission_denied } => if permission_denied {
            Some(StepFailure::PermissionDenied)
        } else {
            Some(StepFailure::SpawnFailed)
        },
        ProcessOutcome::Unfinished => Some(StepFailure::WaitFailed),
        ProcessOutcome::Failed => Some(StepFailure::ExitFailed),
        ProcessOutcome::Succeeded => None,
    };
    SettlementView { remove: cleanup, failure, proceed: failure is None }
}

/// What to do once the compile step of `inv` ended with `outcome`.
pub fn settle_compile(inv: &Invocation, outcome: ProcessOutcome) -> (s: Settlement)
    ensures
        s.view_of() == settle_compile_spec(str_views(inv.cleanup@), outcome),
{
    match outcome {
        ProcessOutcome::Succeeded => {
            let remove: Vec<String> = Vec::new();
            assert(str_views(remove@) =~= Seq::<Seq<char>>::empty());
            Settlement { remove, failure: None, proceed: true }
        },
        ProcessOutcome::Failed => Settlement {
            remove: copy_strings(&inv.cleanup),
            failure: Some(StepFailure::CompileFailed),
            proceed: false,
        },
        _ => Settlement {
            remove: copy_strings(&inv.cleanup),
            failure: Some(StepFailure::CompilerUnavailable),
            proceed: false,
        },
    }
}

/// What to do once the command of `inv` ended with `outcome`.
pub fn settle_run(inv: &Invocation, outcome: ProcessOutcome) -> (s: Settlement)
    ensures
        s.view_of() == settle_run_spec(str_views(inv.cleanup@), outcome),
{
    let failure = match outcome {
        ProcessOutcome::Unstartable { permission_denied } => if permission_denied {
            Some(StepFailure::PermissionDenied)
        } else {
            Some(StepFailure::SpawnFailed)
        },
        ProcessOutcome::Unfinished => Some(StepFailure::WaitFailed),
        ProcessOutcome::Failed => Some(StepFailure::ExitFailed),
        ProcessOutcome::Succeeded => None,
    };
    let proceed = failure.is_none();
    Settlement { remove: copy_strings(&inv.cleanup), failure, proceed }
}

/// The name of the language a compiled sigil is written in, as errors
/// show it.
pub fn compiled_language_label(lang: &str) -> (label: String)
    ensures
        label@ == if tongue_spec(lang@) == Tongue::Cpp {
            "C++"@
        } else {
            "C"@
        },
{
    match tongue_of(lang) {
        Tongue::Cpp => String::from_str("C++"),
        _ => String::from_str("C"),
    }
}

/// The files an invocation creates: its scratch source and the executable
/// its compile step writes.
pub open spec fn created_files(v: InvocationView) -> Seq<Seq<char>> {
    (match v.scratch_source {
        Some(s) => seq![s],
        None => seq![],
    }) + match v.compile {
        Some(c) => seq![c.1[2]],
        None => seq![],
    }
}

/// The files removed after a cast of the invocation `v` whose compile step
/// ended with `compiled` and whose command ended with `ran`.
pub open spec fn removed_files(v: InvocationView, compiled: ProcessOutcome, ran: ProcessOutcome) -> Seq<Seq<char>> {
    if v.compile is Some && !settle_compile_spec(v.cleanup, compiled).proceed {
        settle_compile_spec(v.cleanup, compiled).remove
    } else {
        settle_run_spec(v.cleanup, ran).remove
    }
}

/// No scratch file is left behind: whatever the compiler and the program
/// do, including failing to start, every file the invocation creates is
/// removed.
pub proof fn law_no_scratch_file_left(
    t: Tongue,
    cmd: Seq<char>,
    is_file: bool,
    extra: Seq<Seq<char>>,
    windows: bool,
    compiled: ProcessOutcome,
    ran: ProcessOutcome,
)
    ensures
        ({
            let v = invocation_spec(t, cmd, is_file, extra, windows);
            forall|f: Seq<char>| created_files(v).contains(f) ==> #[trigger] removed_files(
                v,
                compiled,
                ran,
            ).contains(f)
        }),
{
    let v = invocation_spec(t, cmd, is_file, extra, windows);
    let removed = removed_files(v, compiled, ran);
    assert(removed == v.cleanup);
    assert forall|f: Seq<char>| created_files(v).contains(f) implies #[trigger] removed_files(
        v,
        compiled,
        ran,
    ).contains(f) by {
        let k = choose|k: int| 0 <= k < created_files(v).len() && created_files(v)[k] == f;
        match t {
            Tongue::C | Tongue::Cpp => {
                if is_file {
                    assert(created_files(v) =~= seq![v.cleanup[0]]);
                    assert(v.cleanup[0] == f);
                } else {
                    assert(created_files(v) =~= v.cleanup);
                    assert(v.cleanup[k] == f);
                }
            },
            _ => {
                assert(created_files(v) =~= Seq::<Seq<char>>::empty());
            },
        }
    }
}

} // verus!
