use grimoire::invocation::{build_invocation, join_words, tongue_names, tongue_of, Invocation, Tongue};
use grimoire::shebang::{detect_language_from_line, needs_shebang_detection, resolve_language};

fn s(x: &str) -> String {
    x.to_string()
}

fn v(x: &[&str]) -> Vec<String> {
    x.iter().map(|a| s(a)).collect()
}

fn run_of(inv: &Invocation) -> (String, Vec<String>) {
    (inv.run.program.clone(), inv.run.args.clone())
}

#[test]
fn language_names_select_tongues() {
    assert!(matches!(tongue_of("python"), Tongue::Python));
    assert!(matches!(tongue_of("python3"), Tongue::Python));
    assert!(matches!(tongue_of("node"), Tongue::JavaScript));
    assert!(matches!(tongue_of("javascript"), Tongue::JavaScript));
    assert!(matches!(tongue_of("c"), Tongue::C));
    assert!(matches!(tongue_of("c++"), Tongue::Cpp));
    assert!(matches!(tongue_of("cpp"), Tongue::Cpp));
    assert!(matches!(tongue_of("bash"), Tongue::Bash));
    assert!(matches!(tongue_of("zsh"), Tongue::Zsh));
    assert!(matches!(tongue_of("pwsh"), Tongue::PowerShell));
    assert!(matches!(tongue_of("powershell"), Tongue::PowerShell));
    assert!(matches!(tongue_of("shell"), Tongue::Shell));
    assert!(matches!(tongue_of("ruby"), Tongue::Shell));
}

#[test]
fn every_listed_name_is_known() {
    let names = tongue_names();
    assert_eq!(names, v(&["shell", "bash", "zsh", "powershell", "python", "javascript", "c", "cpp"]));
    for n in names.iter().skip(1) {
        assert!(!matches!(tongue_of(n), Tongue::Shell), "{n}");
    }
}

#[test]
fn inline_python_takes_separate_arguments() {
    let inv = build_invocation("python", &s("print('Hello World')"), false, &v(&["a", "b"]), false);
    assert_eq!(run_of(&inv), (s("python3"), v(&["-c", "print('Hello World')", "a", "b"])));
    assert!(inv.compile.is_none() && inv.scratch_source.is_none() && inv.cleanup.is_empty());
}

#[test]
fn script_file_javascript() {
    let inv = build_invocation("javascript", &s("scripts/test.js"), true, &v(&["x"]), false);
    assert_eq!(run_of(&inv), (s("node"), v(&["scripts/test.js", "x"])));
    let inline = build_invocation("node", &s("console.log(1)"), false, &v(&[]), false);
    assert_eq!(run_of(&inline), (s("node"), v(&["-e", "console.log(1)"])));
}

#[test]
fn inline_c_is_scribed_compiled_and_cleaned() {
    let inv = build_invocation("c", &s("int main(){}"), false, &v(&["--flag"]), false);
    assert_eq!(inv.scratch_source, Some(s(".grimoire_tmp.c")));
    let compile = inv.compile.as_ref().unwrap();
    assert_eq!(compile.program, "gcc");
    assert_eq!(compile.args, v(&[".grimoire_tmp.c", "-o", ".grimoire_tmp"]));
    assert_eq!(run_of(&inv), (s("./.grimoire_tmp"), v(&["--flag"])));
    assert_eq!(inv.cleanup, v(&[".grimoire_tmp.c", ".grimoire_tmp"]));
}

#[test]
fn cpp_file_on_windows() {
    let inv = build_invocation("cpp", &s("main.cpp"), true, &v(&[]), true);
    assert_eq!(inv.scratch_source, None);
    let compile = inv.compile.as_ref().unwrap();
    assert_eq!(compile.program, "g++");
    assert_eq!(compile.args, v(&["main.cpp", "-o", ".grimoire_tmp.exe"]));
    assert_eq!(run_of(&inv), (s(".\\.grimoire_tmp.exe"), v(&[])));
    assert_eq!(inv.cleanup, v(&[".grimoire_tmp.exe"]));
}

#[test]
fn shells_append_trailing_arguments_to_the_script() {
    let inv = build_invocation("bash", &s("cargo run --"), false, &v(&["--simulate", "-v"]), false);
    assert_eq!(run_of(&inv), (s("bash"), v(&["-c", "cargo run -- --simulate -v"])));
    let zsh = build_invocation("zsh", &s("ls"), false, &v(&[]), false);
    assert_eq!(run_of(&zsh), (s("zsh"), v(&["-c", "ls"])));
    let pwsh = build_invocation("pwsh", &s("Get-Date"), false, &v(&["x"]), true);
    assert_eq!(run_of(&pwsh), (s("pwsh"), v(&["-Command", "Get-Date x"])));
    let pwsh_file = build_invocation("powershell", &s("a.ps1"), true, &v(&["x"]), true);
    assert_eq!(run_of(&pwsh_file), (s("pwsh"), v(&["-File", "a.ps1", "x"])));
}

#[test]
fn default_shell_per_platform() {
    let unix = build_invocation("shell", &s("echo hi"), false, &v(&["there"]), false);
    assert_eq!(run_of(&unix), (s("sh"), v(&["-c", "echo hi there"])));
    let win = build_invocation("shell", &s("echo hi"), false, &v(&[]), true);
    assert_eq!(run_of(&win), (s("cmd"), v(&["/C", "echo hi"])));
    let file = build_invocation("shell", &s("./build.sh"), true, &v(&["a"]), false);
    assert_eq!(run_of(&file), (s("./build.sh"), v(&["a"])));
}

#[test]
fn empty_extra_words_are_still_joined() {
    assert_eq!(join_words(&v(&["a", "b", "c"])), "a b c");
    assert_eq!(join_words(&v(&[""])), "");
    assert_eq!(join_words(&v(&["", ""])), " ");
    let inv = build_invocation("bash", &s("x"), false, &v(&["", ""]), false);
    assert_eq!(run_of(&inv), (s("bash"), v(&["-c", "x  "])));
}

#[test]
fn shebang_lines() {
    assert_eq!(detect_language_from_line("#!/usr/bin/env python3\n"), Some(s("python3")));
    assert_eq!(detect_language_from_line("#!/bin/bash"), Some(s("bash")));
    assert_eq!(detect_language_from_line("#! node  \r\n"), Some(s("node")));
    assert_eq!(detect_language_from_line("#!/usr/bin/"), None);
    assert_eq!(detect_language_from_line("#!   \n"), None);
    assert_eq!(detect_language_from_line("#!"), None);
    assert_eq!(detect_language_from_line("echo hi"), None);
    assert_eq!(detect_language_from_line(""), None);
}

#[test]
fn shebang_matches_the_split_rules() {
    for line in ["#!/usr/bin/env python3\n", "#!/a/b c/d", "#! x/y\u{3000}", "#!/usr/bin/", "#!x"] {
        let expected = if line.starts_with("#!") {
            line[2..]
                .split_whitespace()
                .last()
                .map(|w| w.split('/').next_back().unwrap_or("").to_string())
                .filter(|i| !i.is_empty())
        } else {
            None
        };
        assert_eq!(detect_language_from_line(line), expected, "{line:?}");
    }
}

#[test]
fn language_choice() {
    assert!(needs_shebang_detection(&None, true, true));
    assert!(!needs_shebang_detection(&None, true, false));
    assert!(!needs_shebang_detection(&Some(s("c")), true, true));
    assert!(!needs_shebang_detection(&None, false, true));
    assert_eq!(resolve_language(&Some(s("c")), Some(s("python3"))), "c");
    assert_eq!(resolve_language(&None, Some(s("python3"))), "python3");
    assert_eq!(resolve_language(&None, None), "shell");
}
