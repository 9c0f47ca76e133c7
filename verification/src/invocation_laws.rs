//! What each tongue runs, stated per tongue over all commands and extra
//! arguments: which program, which flag, and where the extra arguments go.

use vstd::prelude::*;
use crate::invocation::{Tongue, tongue_spec, invocation_spec, join_spec, script_line};

verus! {

/// The language names select their tongues; every other name selects the
/// system shell.
pub proof fn law_language_names(lang: Seq<char>)
    ensures
        lang == "python"@ ==> tongue_spec(lang) == Tongue::Python,
        lang == "python3"@ ==> tongue_spec(lang) == Tongue::Python,
        lang == "javascript"@ ==> tongue_spec(lang) == Tongue::JavaScript,
        lang == "node"@ ==> tongue_spec(lang) == Tongue::JavaScript,
        lang == "c"@ ==> tongue_spec(lang) == Tongue::C,
        lang == "cpp"@ ==> tongue_spec(lang) == Tongue::Cpp,
        lang == "c++"@ ==> tongue_spec(lang) == Tongue::Cpp,
        lang == "bash"@ ==> tongue_spec(lang) == Tongue::Bash,
        lang == "zsh"@ ==> tongue_spec(lang) == Tongue::Zsh,
        lang == "powershell"@ ==> tongue_spec(lang) == Tongue::PowerShell,
        lang == "pwsh"@ ==> tongue_spec(lang) == Tongue::PowerShell,
        lang == "shell"@ ==> tongue_spec(lang) == Tongue::Shell,
{
    if lang == "python"@ {
        reveal_strlit("python");
    }
    if lang == "python3"@ {
        reveal_strlit("python3");
    }
    if lang == "javascript"@ {
        reveal_strlit("javascript");
        reveal_strlit("python");
        assert("javascript"@.len() != "python"@.len());
        assert("javascript"@ != "python"@);
        reveal_strlit("python3");
        assert("javascript"@.len() != "python3"@.len());
        assert("javascript"@ != "python3"@);
    }
    if lang == "node"@ {
        reveal_strlit("node");
        reveal_strlit("python");
        assert("node"@.len() != "python"@.len());
        assert("node"@ != "python"@);
        reveal_strlit("python3");
        assert("node"@.len() != "python3"@.len());
        assert("node"@ != "python3"@);
    }
    if lang == "c"@ {
        reveal_strlit("c");
        reveal_strlit("python");
        assert("c"@.len() != "python"@.len());
        assert("c"@ != "python"@);
        reveal_strlit("python3");
        assert("c"@.len() != "python3"@.len());
        assert("c"@ != "python3"@);
        reveal_strlit("javascript");
        assert("c"@.len() != "javascript"@.len());
        assert("c"@ != "javascript"@);
        reveal_strlit("node");
        assert("c"@.len() != "node"@.len());
        assert("c"@ != "node"@);
    }
    if lang == "cpp"@ {
        reveal_strlit("cpp");
        reveal_strlit("python");
        assert("cpp"@.len() != "python"@.len());
        assert("cpp"@ != "python"@);
        reveal_strlit("python3");
        assert("cpp"@.len() != "python3"@.len());
        assert("cpp"@ != "python3"@);
        reveal_strlit("javascript");
        assert("cpp"@.len() != "javascript"@.len());
        assert("cpp"@ != "javascript"@);
        reveal_strlit("node");
        assert("cpp"@.len() != "node"@.len());
        assert("cpp"@ != "node"@);
        reveal_strlit("c");
        assert("cpp"@.len() != "c"@.len());
        assert("cpp"@ != "c"@);
    }
    if lang == "c++"@ {
        reveal_strlit("c++");
        reveal_strlit("python");
        assert("c++"@.len() != "python"@.len());
        assert("c++"@ != "python"@);
        reveal_strlit("python3");
        assert("c++"@.len() != "python3"@.len());
        assert("c++"@ != "python3"@);
        reveal_strlit("javascript");
        assert("c++"@.len() != "javascript"@.len());
        assert("c++"@ != "javascript"@);
        reveal_strlit("node");
        assert("c++"@.len() != "node"@.len());
        assert("c++"@ != "node"@);
        reveal_strlit("c");
        assert("c++"@.len() != "c"@.len());
        assert("c++"@ != "c"@);
    }
    if lang == "bash"@ {
        reveal_strlit("bash");
        reveal_strlit("python");
        assert("bash"@.len() != "python"@.len());
        assert("bash"@ != "python"@);
        reveal_strlit("python3");
        assert("bash"@.len() != "python3"@.len());
        assert("bash"@ != "python3"@);
        reveal_strlit("javascript");
        assert("bash"@.len() != "javascript"@.len());
        assert("bash"@ != "javascript"@);
        reveal_strlit("node");
        assert("bash"@[0] != "node"@[0]);
        assert("bash"@ != "node"@);
        reveal_strlit("c");
        assert("bash"@.len() != "c"@.len());
        assert("bash"@ != "c"@);
        reveal_strlit("cpp");
        assert("bash"@.len() != "cpp"@.len());
        assert("bash"@ != "cpp"@);
        reveal_strlit("c++");
        assert("bash"@.len() != "c++"@.len());
        assert("bash"@ != "c++"@);
    }
    if lang == "zsh"@ {
        reveal_strlit("zsh");
        reveal_strlit("python");
        assert("zsh"@.len() != "python"@.len());
        assert("zsh"@ != "python"@);
        reveal_strlit("python3");
        assert("zsh"@.len() != "python3"@.len());
        assert("zsh"@ != "python3"@);
        reveal_strlit("javascript");
        assert("zsh"@.len() != "javascript"@.len());
        assert("zsh"@ != "javascript"@);
        reveal_strlit("node");
        assert("zsh"@.len() != "node"@.len());
        assert("zsh"@ != "node"@);
        reveal_strlit("c");
        assert("zsh"@.len() != "c"@.len());
        assert("zsh"@ != "c"@);
        reveal_strlit("cpp");
        assert("zsh"@[0] != "cpp"@[0]);
        assert("zsh"@ != "cpp"@);
        reveal_strlit("c++");
        assert("zsh"@[0] != "c++"@[0]);
        assert("zsh"@ != "c++"@);
        reveal_strlit("bash");
        assert("zsh"@.len() != "bash"@.len());
        assert("zsh"@ != "bash"@);
    }
    if lang == "powershell"@ {
        reveal_strlit("powershell");
        reveal_strlit("python");
        assert("powershell"@.len() != "python"@.len());
        assert("powershell"@ != "python"@);
        reveal_strlit("python3");
        assert("powershell"@.len() != "python3"@.len());
        assert("powershell"@ != "python3"@);
        reveal_strlit("javascript");
        assert("powershell"@[0] != "javascript"@[0]);
        assert("powershell"@ != "javascript"@);
        reveal_strlit("node");
        assert("powershell"@.len() != "node"@.len());
        assert("powershell"@ != "node"@);
        reveal_strlit("c");
        assert("powershell"@.len() != "c"@.len());
        assert("powershell"@ != "c"@);
        reveal_strlit("cpp");
        assert("powershell"@.len() != "cpp"@.len());
        assert("powershell"@ != "cpp"@);
        reveal_strlit("c++");
        assert("powershell"@.len() != "c++"@.len());
        assert("powershell"@ != "c++"@);
        reveal_strlit("bash");
        assert("powershell"@.len() != "bash"@.len());
        assert("powershell"@ != "bash"@);
        reveal_strlit("zsh");
        assert("powershell"@.len() != "zsh"@.len());
        assert("powershell"@ != "zsh"@);
    }
    if lang == "pwsh"@ {
        reveal_strlit("pwsh");
        reveal_strlit("python");
        assert("pwsh"@.len() != "python"@.len());
        assert("pwsh"@ != "python"@);
        reveal_strlit("python3");
        assert("pwsh"@.len() != "python3"@.len());
        assert("pwsh"@ != "python3"@);
        reveal_strlit("javascript");
        assert("pwsh"@.len() != "javascript"@.len());
        assert("pwsh"@ != "javascript"@);
        reveal_strlit("node");
        assert("pwsh"@[0] != "node"@[0]);
        assert("pwsh"@ != "node"@);
        reveal_strlit("c");
        assert("pwsh"@.len() != "c"@.len());
        assert("pwsh"@ != "c"@);
        reveal_strlit("cpp");
        assert("pwsh"@.len() != "cpp"@.len());
        assert("pwsh"@ != "cpp"@);
        reveal_strlit("c++");
        assert("pwsh"@.len() != "c++"@.len());
        assert("pwsh"@ != "c++"@);
        reveal_strlit("bash");
        assert("pwsh"@[0] != "bash"@[0]);
        assert("pwsh"@ != "bash"@);
        reveal_strlit("zsh");
        assert("pwsh"@.len() != "zsh"@.len());
        assert("pwsh"@ != "zsh"@);
    }
    if lang == "shell"@ {
        reveal_strlit("shell");
        reveal_strlit("python");
        assert("shell"@.len() != "python"@.len());
        assert("shell"@ != "python"@);
        reveal_strlit("python3");
        assert("shell"@.len() != "python3"@.len());
        assert("shell"@ != "python3"@);
        reveal_strlit("javascript");
        assert("shell"@.len() != "javascript"@.len());
        assert("shell"@ != "javascript"@);
        reveal_strlit("node");
        assert("shell"@.len() != "node"@.len());
        assert("shell"@ != "node"@);
        reveal_strlit("c");
        assert("shell"@.len() != "c"@.len());
        assert("shell"@ != "c"@);
        reveal_strlit("cpp");
        assert("shell"@.len() != "cpp"@.len());
        assert("shell"@ != "cpp"@);
        reveal_strlit("c++");
        assert("shell"@.len() != "c++"@.len());
        assert("shell"@ != "c++"@);
        reveal_strlit("bash");
        assert("shell"@.len() != "bash"@.len());
        assert("shell"@ != "bash"@);
        reveal_strlit("zsh");
        assert("shell"@.len() != "zsh"@.len());
        assert("shell"@ != "zsh"@);
        reveal_strlit("powershell");
        assert("shell"@.len() != "powershell"@.len());
        assert("shell"@ != "powershell"@);
        reveal_strlit("pwsh");
        assert("shell"@.len() != "pwsh"@.len());
        assert("shell"@ != "pwsh"@);
    }
}

/// A script file is run by its interpreter: the file path is the first
/// argument (after `-File` for PowerShell) and the extra arguments follow
/// unchanged; no code flag is used and nothing is compiled or scribed.
/// A file in the default shell is run directly with the extra arguments.
pub proof fn law_script_files_run_by_their_interpreter(cmd: Seq<char>, extra: Seq<Seq<char>>, windows: bool)
    ensures
        invocation_spec(Tongue::Python, cmd, true, extra, windows).run == ("python3"@, seq![cmd] + extra),
        invocation_spec(Tongue::JavaScript, cmd, true, extra, windows).run == ("node"@, seq![cmd] + extra),
        invocation_spec(Tongue::Bash, cmd, true, extra, windows).run == ("bash"@, seq![cmd] + extra),
        invocation_spec(Tongue::Zsh, cmd, true, extra, windows).run == ("zsh"@, seq![cmd] + extra),
        invocation_spec(Tongue::PowerShell, cmd, true, extra, windows).run == (
            "pwsh"@,
            seq!["-File"@, cmd] + extra,
        ),
        invocation_spec(Tongue::Shell, cmd, true, extra, windows).run == (cmd, extra),
        forall|t: Tongue|
            t != Tongue::C && t != Tongue::Cpp ==> {
                &&& (#[trigger] invocation_spec(t, cmd, true, extra, windows)).compile is None
                &&& invocation_spec(t, cmd, true, extra, windows).scratch_source is None
                &&& invocation_spec(t, cmd, true, extra, windows).cleanup.len() == 0
            },
{
}

/// Inline Python and JavaScript code is handed to the interpreter
/// verbatim after `-c` / `-e`, and the extra arguments follow as separate
/// arguments.
pub proof fn law_inline_code_is_passed_verbatim(cmd: Seq<char>, extra: Seq<Seq<char>>, windows: bool)
    ensures
        invocation_spec(Tongue::Python, cmd, false, extra, windows).run == (
            "python3"@,
            seq!["-c"@, cmd] + extra,
        ),
        invocation_spec(Tongue::JavaScript, cmd, false, extra, windows).run == (
            "node"@,
            seq!["-e"@, cmd] + extra,
        ),
{
}

/// Joining words with single spaces: no words give the empty string, one
/// word gives itself, and joining two non-empty lists puts one space
/// between their joins.
pub proof fn law_join_words(a: Seq<Seq<char>>, b: Seq<Seq<char>>, w: Seq<char>)
    ensures
        join_spec(seq![]) == Seq::<char>::empty(),
        join_spec(seq![w]) == w,
        a.len() > 0 && b.len() > 0 ==> join_spec(a + b) == join_spec(a) + " "@ + join_spec(b),
    decreases b.len(),
{
    if a.len() > 0 && b.len() > 0 {
        if b.len() == 1 {
            assert((a + b).drop_last() =~= a);
            assert((a + b).last() == b[0]);
        } else {
            let b2 = b.drop_last();
            law_join_words(a, b2, w);
            assert((a + b).drop_last() =~= a + b2);
            assert((a + b).last() == b.last());
            assert(join_spec(a + b2) == join_spec(a) + " "@ + join_spec(b2));
            assert(join_spec(b) == join_spec(b2) + " "@ + b.last());
            assert(join_spec(a + b) =~= join_spec(a) + " "@ + join_spec(b));
        }
    }
}

/// The inline script of a shell: the command, then a space and the extra
/// arguments joined by spaces, unless they join to nothing.
pub proof fn law_script_line(cmd: Seq<char>, extra: Seq<Seq<char>>)
    ensures
        extra.len() == 0 ==> script_line(cmd, extra) == cmd,
        join_spec(extra).len() > 0 ==> script_line(cmd, extra) == cmd + " "@ + join_spec(extra),
        join_spec(extra).len() == 0 ==> script_line(cmd, extra) == cmd,
{
}

/// Inline code in a shell is passed as exactly two arguments: the shell's
/// code flag and the script, which is the command with the extra
/// arguments appended after a space.
pub proof fn law_inline_shell_scripts(cmd: Seq<char>, extra: Seq<Seq<char>>, windows: bool)
    ensures
        ({
            let line = if join_spec(extra).len() == 0 {
                cmd
            } else {
                cmd + " "@ + join_spec(extra)
            };
            &&& invocation_spec(Tongue::Bash, cmd, false, extra, windows).run == ("bash"@, seq!["-c"@, line])
            &&& invocation_spec(Tongue::Zsh, cmd, false, extra, windows).run == ("zsh"@, seq!["-c"@, line])
            &&& invocation_spec(Tongue::PowerShell, cmd, false, extra, windows).run == (
                "pwsh"@,
                seq!["-Command"@, line],
            )
            &&& invocation_spec(Tongue::Shell, cmd, false, extra, false).run == ("sh"@, seq!["-c"@, line])
            &&& invocation_spec(Tongue::Shell, cmd, false, extra, true).run == ("cmd"@, seq!["/C"@, line])
        }),
{
}

/// Compiled tongues: inline code is scribed to a scratch source, which
/// `gcc` (C) or `g++` (C++) compiles, on its own arguments, into the
/// scratch executable; the executable runs with the extra arguments; both
/// scratch files are removed.  A source file is compiled in place and only
/// the executable is removed.
pub proof fn law_compiled_sigils(cmd: Seq<char>, extra: Seq<Seq<char>>, windows: bool)
    ensures
        ({
            let exe = if windows {
                ".grimoire_tmp.exe"@
            } else {
                ".grimoire_tmp"@
            };
            let exe_run = if windows {
                ".\\.grimoire_tmp.exe"@
            } else {
                "./.grimoire_tmp"@
            };
            let c = invocation_spec(Tongue::C, cmd, false, extra, windows);
            let cpp = invocation_spec(Tongue::Cpp, cmd, false, extra, windows);
            let cf = invocation_spec(Tongue::C, cmd, true, extra, windows);
            &&& c.scratch_source == Some(".grimoire_tmp.c"@)
            &&& c.compile == Some(("gcc"@, seq![".grimoire_tmp.c"@, "-o"@, exe]))
            &&& c.run == (exe_run, extra)
            &&& c.cleanup == seq![".grimoire_tmp.c"@, exe]
            &&& cpp.scratch_source == Some(".grimoire_tmp.cpp"@)
            &&& cpp.compile == Some(("g++"@, seq![".grimoire_tmp.cpp"@, "-o"@, exe]))
            &&& cpp.run == (exe_run, extra)
            &&& cpp.cleanup == seq![".grimoire_tmp.cpp"@, exe]
            &&& cf.scratch_source is None
            &&& cf.compile == Some(("gcc"@, seq![cmd, "-o"@, exe]))
            &&& cf.run == (exe_run, extra)
            &&& cf.cleanup == seq![exe]
        }),
{
}

} // verus!
