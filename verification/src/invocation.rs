//! Which process a sigil turns into: its tongue (language), the command to
//! run with its arguments, and for compiled tongues the compile step, the
//! scratch source file and the files to remove afterwards.

use vstd::prelude::*;
use crate::text::{str_eq, str_views, copy_strings};

verus! {

/// The runtimes a sigil can be written for.
#[derive(Debug)]
pub enum Tongue {
    Python,
    JavaScript,
    C,
    Cpp,
    Bash,
    Zsh,
    PowerShell,
    /// The system shell; also every language name not listed above.
    Shell,
}

/// The tongue a language name selects.
pub open spec fn tongue_spec(lang: Seq<char>) -> Tongue {
    if lang == "python"@ || lang == "python3"@ {
        Tongue::Python
    } else if lang == "javascript"@ || lang == "node"@ {
        Tongue::JavaScript
    } else if lang == "c"@ {
        Tongue::C
    } else if lang == "cpp"@ || lang == "c++"@ {
        Tongue::Cpp
    } else if lang == "bash"@ {
        Tongue::Bash
    } else if lang == "zsh"@ {
        Tongue::Zsh
    } else if lang == "powershell"@ || lang == "pwsh"@ {
        Tongue::PowerShell
    } else {
        Tongue::Shell
    }
}

/// The tongue a language name selects.
pub fn tongue_of(lang: &str) -> (t: Tongue)
    ensures
        t == tongue_spec(lang@),
{
    if str_eq(lang, "python") || str_eq(lang, "python3") {
        Tongue::Python
    } else if str_eq(lang, "javascript") || str_eq(lang, "node") {
        Tongue::JavaScript
    } else if str_eq(lang, "c") {
        Tongue::C
    } else if str_eq(lang, "cpp") || str_eq(lang, "c++") {
        Tongue::Cpp
    } else if str_eq(lang, "bash") {
        Tongue::Bash
    } else if str_eq(lang, "zsh") {
        Tongue::Zsh
    } else if str_eq(lang, "powershell") || str_eq(lang, "pwsh") {
        Tongue::PowerShell
    } else {
        Tongue::Shell
    }
}

/// The language names the runner knows, one per tongue.
pub fn tongue_names() -> (names: Vec<String>)
    ensures
        str_views(names@) == seq![
            "shell"@,
            "bash"@,
            "zsh"@,
            "powershell"@,
            "python"@,
            "javascript"@,
            "c"@,
            "cpp"@,
        ],
{
    let mut names: Vec<String> = Vec::new();
    names.push(String::from_str("shell"));
    names.push(String::from_str("bash"));
    names.push(String::from_str("zsh"));
    names.push(String::from_str("powershell"));
    names.push(String::from_str("python"));
    names.push(String::from_str("javascript"));
    names.push(String::from_str("c"));
    names.push(String::from_str("cpp"));
    assert(str_views(names@) =~= seq![
        "shell"@,
        "bash"@,
        "zsh"@,
        "powershell"@,
        "python"@,
        "javascript"@,
        "c"@,
        "cpp"@,
    ]);
    names
}

/// A program with its arguments.
#[derive(Debug)]
pub struct CommandSpec {
    pub program: String,
    pub args: Vec<String>,
}

/// What casting one sigil runs.
#[derive(Debug)]
pub struct Invocation {
    /// Before compiling, the run string is written to this file.
    pub scratch_source: Option<String>,
    /// The compile step of a compiled tongue.
    pub compile: Option<CommandSpec>,
    /// The command that performs the sigil.
    pub run: CommandSpec,
    /// Files to remove once the command has finished (or once compiling
    /// has failed).
    pub cleanup: Vec<String>,
}

/// The mathematical form of a `CommandSpec`.
pub open spec fn command_view(c: CommandSpec) -> (Seq<char>, Seq<Seq<char>>) {
    (c.program@, str_views(c.args@))
}

/// The mathematical form of an `Invocation`.
pub struct InvocationView {
    pub scratch_source: Option<Seq<char>>,
    pub compile: Option<(Seq<char>, Seq<Seq<char>>)>,
    pub run: (Seq<char>, Seq<Seq<char>>),
    pub cleanup: Seq<Seq<char>>,
}

impl Invocation {
    pub open spec fn view_of(self) -> InvocationView {
        InvocationView {
            scratch_source: match self.scratch_source {
                Some(s) => Some(s@),
                None => None,
            },
            compile: match self.compile {
                Some(c) => Some(command_view(c)),
                None => None,
            },
            run: command_view(self.run),
            cleanup: str_views(self.cleanup@),
        }
    }
}

/// The words joined by single spaces.
pub open spec fn join_spec(words: Seq<Seq<char>>) -> Seq<char>
    decreases words.len(),
{
    if words.len() == 0 {
        seq![]
    } else if words.len() == 1 {
        words[0]
    } else {
        join_spec(words.drop_last()) + " "@ + words.last()
    }
}

/// An inline script with the extra arguments appended after a space, when
/// they join to something non-empty.
pub open spec fn script_line(cmd: Seq<char>, extra: Seq<Seq<char>>) -> Seq<char> {
    if join_spec(extra).len() == 0 {
        cmd
    } else {
        cmd + " "@ + join_spec(extra)
    }
}

pub open spec fn plain(program: Seq<char>, args: Seq<Seq<char>>) -> InvocationView {
    InvocationView { scratch_source: None, compile: None, run: (program, args), cleanup: seq![] }
}

/// The scratch executable of a compiled tongue, and how to run it.
pub open spec fn scratch_exe(windows: bool) -> Seq<char> {
    if windows {
        ".grimoire_tmp.exe"@
    } else {
        ".grimoire_tmp"@
    }
}

pub open spec fn scratch_exe_run(windows: bool) -> Seq<char> {
    if windows {
        ".\\.grimoire_tmp.exe"@
    } else {
        "./.grimoire_tmp"@
    }
}

/// A compiled tongue: the run string, or the file it names, is compiled by
/// `compiler` into the scratch executable, which then runs with the extra
/// arguments.  An inline source is first written to `scratch_src`.
pub open spec fn compiled(
    compiler: Seq<char>,
    scratch_src: Seq<char>,
    cmd: Seq<char>,
    is_file: bool,
    extra: Seq<Seq<char>>,
    windows: bool,
) -> InvocationView {
    let src = if is_file {
        cmd
    } else {
        scratch_src
    };
    InvocationView {
        scratch_source: if is_file {
            None
        } else {
            Some(src)
        },
        compile: Some((compiler, seq![src, "-o"@, scratch_exe(windows)])),
        run: (scratch_exe_run(windows), extra),
        cleanup: if is_file {
            seq![scratch_exe(windows)]
        } else {
            seq![src, scratch_exe(windows)]
        },
    }
}

/// What a sigil in tongue `t` with command `cmd` runs: a script file is
/// handed to its interpreter with the extra arguments as separate
/// arguments; inline code is passed to the interpreter, with the extra
/// arguments as separate arguments (Python, JavaScript) or appended to the
/// script (shells).
pub open spec fn invocation_spec(
    t: Tongue,
    cmd: Seq<char>,
    is_file: bool,
    extra: Seq<Seq<char>>,
    windows: bool,
) -> InvocationView {
    match t {
        Tongue::Python => if is_file {
            plain("python3"@, seq![cmd] + extra)
        } else {
            plain("python3"@, seq!["-c"@, cmd] + extra)
        },
        Tongue::JavaScript => if is_file {
            plain("node"@, seq![cmd] + extra)
        } else {
            plain("node"@, seq!["-e"@, cmd] + extra)
        },
        Tongue::C => compiled("gcc"@, ".grimoire_tmp.c"@, cmd, is_file, extra, windows),
        Tongue::Cpp => compiled("g++"@, ".grimoire_tmp.cpp"@, cmd, is_file, extra, windows),
        Tongue::Bash => if is_file {
            plain("bash"@, seq![cmd] + extra)
        } else {
            plain("bash"@, seq!["-c"@, script_line(cmd, extra)])
        },
        Tongue::Zsh => if is_file {
            plain("zsh"@, seq![cmd] + extra)
        } else {
            plain("zsh"@, seq!["-c"@, script_line(cmd, extra)])
        },
        Tongue::PowerShell => if is_file {
            plain("pwsh"@, seq!["-File"@, cmd] + extra)
        } else {
            plain("pwsh"@, seq!["-Command"@, script_line(cmd, extra)])
        },
        Tongue::Shell => if is_file {
            plain(cmd, extra)
        } else if windows {
            plain("cmd"@, seq!["/C"@, script_line(cmd, extra)])
        } else {
            plain("sh"@, seq!["-c"@, script_line(cmd, extra)])
        },
    }
}

/// The words joined by single spaces.
pub fn join_words(words: &Vec<String>) -> (r: String)
    ensures
        r@ == join_spec(str_views(words@)),
{
    let ghost w = str_views(words@);
    let mut r = String::new();
    let mut i: usize = 0;
    while i < words.len()
        invariant
            i <= words@.len(),
            w == str_views(words@),
            r@ == join_spec(w.take(i as int)),
        decreases words@.len() - i,
    {
        assert(w.take(i + 1).drop_last() =~= w.take(i as int));
        assert(w.take(i + 1).last() == words@[i as int]@);
        if i > 0 {
            r.append(" ");
        } else {
            assert(w.take(1) =~= seq![w[0]]);
        }
        r.append(words[i].as_str());
        i = i + 1;
    }
    assert(w.take(words@.len() as int) =~= w);
    r
}

/// An inline script with the extra arguments appended.
fn script_line_of(cmd: &String, extra: &Vec<String>) -> (r: String)
    ensures
        r@ == script_line(cmd@, str_views(extra@)),
{
    let trailing = join_words(extra);
    if trailing.as_str().unicode_len() == 0 {
        cmd.clone()
    } else {
        let mut line = cmd.clone();
        line.append(" ");
        line.append(trailing.as_str());
        line
    }
}

/// `front` followed by copies of `extra`.
fn args_then(front: Vec<String>, extra: &Vec<String>) -> (r: Vec<String>)
    ensures
        str_views(r@) == str_views(front@) + str_views(extra@),
{
    let mut r = front;
    let mut tail = copy_strings(extra);
    let ghost a = r@;
    let ghost b = tail@;
    r.append(&mut tail);
    assert(r@ == a + b);
    assert(str_views(r@) =~= str_views(a) + str_views(b));
    r
}

fn one(a: String) -> (r: Vec<String>)
    ensures
        str_views(r@) == seq![a@],
{
    let mut r = Vec::new();
    r.push(a);
    assert(str_views(r@) =~= seq![a@]);
    r
}

fn two(a: String, b: String) -> (r: Vec<String>)
    ensures
        str_views(r@) == seq![a@, b@],
{
    let mut r = Vec::new();
    r.push(a);
    r.push(b);
    assert(str_views(r@) =~= seq![a@, b@]);
    r
}

fn plain_invocation(program: String, args: Vec<String>) -> (inv: Invocation)
    ensures
        inv.view_of() == plain(program@, str_views(args@)),
{
    let cleanup: Vec<String> = Vec::new();
    assert(str_views(cleanup@) =~= Seq::<Seq<char>>::empty());
    Invocation {
        scratch_source: None,
        compile: None,
        run: CommandSpec { program, args },
        cleanup,
    }
}

fn compiled_invocation(
    compiler: &str,
    scratch_src: &str,
    cmd: &String,
    is_file: bool,
    extra: &Vec<String>,
    windows: bool,
) -> (inv: Invocation)
    ensures
        inv.view_of() == compiled(compiler@, scratch_src@, cmd@, is_file, str_views(extra@), windows),
{
    let src = if is_file {
        cmd.clone()
    } else {
        String::from_str(scratch_src)
    };
    let exe = if windows {
        String::from_str(".grimoire_tmp.exe")
    } else {
        String::from_str(".grimoire_tmp")
    };
    let exe_run = if windows {
        String::from_str(".\\.grimoire_tmp.exe")
    } else {
        String::from_str("./.grimoire_tmp")
    };
    let mut compile_args: Vec<String> = Vec::new();
    compile_args.push(src.clone());
    compile_args.push(String::from_str("-o"));
    compile_args.push(exe.clone());
    assert(str_views(compile_args@) =~= seq![src@, "-o"@, exe@]);
    let mut cleanup: Vec<String> = Vec::new();
    let scratch_source = if is_file {
        None
    } else {
        cleanup.push(src.clone());
        Some(src)
    };
    cleanup.push(exe);
    let inv = Invocation {
        scratch_source,
        compile: Some(CommandSpec { program: String::from_str(compiler), args: compile_args }),
        run: CommandSpec { program: exe_run, args: copy_strings(extra) },
        cleanup,
    };
    assert(inv.view_of().cleanup =~= compiled(
        compiler@,
        scratch_src@,
        cmd@,
        is_file,
        str_views(extra@),
        windows,
    ).cleanup);
    inv
}

/// The invocation of a sigil written in `lang` whose (substituted) command
/// is `cmd`; `is_file` tells whether `cmd` names an existing file and
/// `windows` whether the host is Windows.
pub fn build_invocation(lang: &str, cmd: &String, is_file: bool, extra: &Vec<String>, windows: bool) -> (inv: Invocation)
    ensures
        inv.view_of() == invocation_spec(tongue_spec(lang@), cmd@, is_file, str_views(extra@), windows),
{
    let ghost x = str_views(extra@);
    match tongue_of(lang) {
        Tongue::Python => {
            let front = if is_file {
                one(cmd.clone())
            } else {
                two(String::from_str("-c"), cmd.clone())
            };
            plain_invocation(String::from_str("python3"), args_then(front, extra))
        },
        Tongue::JavaScript => {
            let front = if is_file {
                one(cmd.clone())
            } else {
                two(String::from_str("-e"), cmd.clone())
            };
            plain_invocation(String::from_str("node"), args_then(front, extra))
        },
        Tongue::C => compiled_invocation("gcc", ".grimoire_tmp.c", cmd, is_file, extra, windows),
        Tongue::Cpp => compiled_invocation("g++", ".grimoire_tmp.cpp", cmd, is_file, extra, windows),
        Tongue::Bash => {
            if is_file {
                plain_invocation(String::from_str("bash"), args_then(one(cmd.clone()), extra))
            } else {
                plain_invocation(String::from_str("bash"), two(String::from_str("-c"), script_line_of(cmd, extra)))
            }
        },
        Tongue::Zsh => {
            if is_file {
                plain_invocation(String::from_str("zsh"), args_then(one(cmd.clone()), extra))
            } else {
                plain_invocation(String::from_str("zsh"), two(String::from_str("-c"), script_line_of(cmd, extra)))
            }
        },
        Tongue::PowerShell => {
            if is_file {
                plain_invocation(
                    String::from_str("pwsh"),
                    args_then(two(String::from_str("-File"), cmd.clone()), extra),
                )
            } else {
                plain_invocation(
                    String::from_str("pwsh"),
                    two(String::from_str("-Command"), script_line_of(cmd, extra)),
                )
            }
        },
        Tongue::Shell => {
            if is_file {
                plain_invocation(cmd.clone(), copy_strings(extra))
            } else if windows {
                plain_invocation(String::from_str("cmd"), two(String::from_str("/C"), script_line_of(cmd, extra)))
            } else {
                plain_invocation(String::from_str("sh"), two(String::from_str("-c"), script_line_of(cmd, extra)))
            }
        },
    }
}

/// A script file receives the extra arguments as separate, trailing
/// arguments of its command, in every tongue.
pub proof fn law_script_files_take_separate_arguments(
    t: Tongue,
    cmd: Seq<char>,
    extra: Seq<Seq<char>>,
    windows: bool,
)
    ensures
        ({
            let a = invocation_spec(t, cmd, true, extra, windows).run.1;
            a.len() >= extra.len() && a.subrange(a.len() - extra.len(), a.len() as int) == extra
        }),
{
    let a = invocation_spec(t, cmd, true, extra, windows).run.1;
    assert(a.subrange(a.len() - extra.len(), a.len() as int) =~= extra);
}

/// The extra arguments never reach a compiler: the compile step of a
/// sigil is the same whatever extra arguments it is cast with.
pub proof fn law_compile_step_ignores_extra_arguments(
    t: Tongue,
    cmd: Seq<char>,
    is_file: bool,
    extra: Seq<Seq<char>>,
    windows: bool,
)
    ensures
        invocation_spec(t, cmd, is_file, extra, windows).compile == invocation_spec(
            t,
            cmd,
            is_file,
            seq![],
            windows,
        ).compile,
        invocation_spec(t, cmd, is_file, extra, windows).scratch_source == invocation_spec(
            t,
            cmd,
            is_file,
            seq![],
            windows,
        ).scratch_source,
{
}

} // verus!
