use grimoire::args::{
    announcement, arg_action, arg_actions, fill_templates, render_command, variables, ArgAction,
};
use grimoire::config::{ArgDef, GrimoireConfig, Sigil};
use grimoire::text::{replace_all, str_eq, to_chars};

fn s(x: &str) -> String {
    x.to_string()
}

fn pairs(v: &[(&str, &str)]) -> Vec<(String, String)> {
    v.iter().map(|(a, b)| (s(a), s(b))).collect()
}

#[test]
fn replace_matches_std_replace() {
    let cases = [
        ("hello world", "o", "0"),
        ("aaa", "aa", "b"),
        ("{{x}}{{x}}", "{{x}}", "1"),
        ("{{{x}}}", "{{x}}", "v"),
        ("nothing here", "{{x}}", "v"),
        ("", "{{x}}", "v"),
        ("ünïcödé {{x}} ✓", "{{x}}", "→"),
        ("abab", "ab", ""),
    ];
    for (text, pat, to) in cases {
        assert_eq!(replace_all(text, pat, to), text.replace(pat, to), "{text} {pat} {to}");
    }
}

#[test]
fn chars_and_equality() {
    assert_eq!(to_chars("añb"), vec!['a', 'ñ', 'b']);
    assert!(str_eq("abc", "abc"));
    assert!(!str_eq("abc", "abd"));
    assert!(!str_eq("abc", "ab"));
}

#[test]
fn ingredients_fill_the_run_string() {
    let config = GrimoireConfig {
        version: s("1"),
        ingredients: pairs(&[("target_dir", "./release_bins"), ("c_compiler", "gcc")]),
        sigils: Vec::new(),
    };
    let sig = Sigil {
        description: None,
        language: Some(s("c")),
        run: s("{{c_compiler}} main.c -o {{target_dir}}/app\n"),
        depends: Vec::new(),
        args: Vec::new(),
        silent: false,
    };
    assert_eq!(render_command(&config, &sig, Vec::new()), "gcc main.c -o ./release_bins/app\n");
}

#[test]
fn arguments_shadow_ingredients() {
    let vars = variables(&pairs(&[("who", "world"), ("greet", "hi")]), pairs(&[("who", "mage")]));
    assert_eq!(vars, pairs(&[("who", "mage"), ("greet", "hi")]));
    assert_eq!(fill_templates(&s("{{greet}} {{who}}"), &vars), "hi mage");
}

#[test]
fn new_arguments_are_appended_to_the_variables() {
    let vars = variables(&pairs(&[("a", "1")]), pairs(&[("b", "2")]));
    assert_eq!(vars, pairs(&[("a", "1"), ("b", "2")]));
}

#[test]
fn unknown_placeholders_stay() {
    let vars = pairs(&[("a", "1")]);
    assert_eq!(fill_templates(&s("{{b}} and {{a}}"), &vars), "{{b}} and 1");
}

#[test]
fn run_string_without_placeholders_is_unchanged() {
    let vars = pairs(&[("a", "1"), ("b", "2")]);
    assert_eq!(fill_templates(&s("echo 'Welcome to Grimoire!'"), &vars), "echo 'Welcome to Grimoire!'");
}

#[test]
fn simple_argument_is_used() {
    match arg_action(&s("x"), &ArgDef::Simple(s("v"))) {
        ArgAction::Use(v) => assert_eq!(v, "v"),
        _ => panic!("expected a value"),
    }
}

#[test]
fn select_argument_prompts_from_its_default() {
    let def = ArgDef::Detailed {
        kind: s("select"),
        choices: Some(vec![s("Option 1"), s("Option 2"), s("Option 3")]),
        default: Some(s("Option 2")),
    };
    match arg_action(&s("opt"), &def) {
        ArgAction::Prompt { message, options, starting_cursor } => {
            assert_eq!(message, "Select opt:");
            assert_eq!(options, vec![s("Option 1"), s("Option 2"), s("Option 3")]);
            assert_eq!(starting_cursor, Some(1));
        }
        _ => panic!("expected a prompt"),
    }
}

#[test]
fn select_default_outside_the_choices_gives_no_cursor() {
    let def = ArgDef::Detailed {
        kind: s("select"),
        choices: Some(vec![s("a"), s("b")]),
        default: Some(s("z")),
    };
    match arg_action(&s("opt"), &def) {
        ArgAction::Prompt { starting_cursor, .. } => assert_eq!(starting_cursor, None),
        _ => panic!("expected a prompt"),
    }
}

#[test]
fn select_without_choices_uses_the_default() {
    let def = ArgDef::Detailed { kind: s("select"), choices: None, default: Some(s("d")) };
    match arg_action(&s("opt"), &def) {
        ArgAction::Use(v) => assert_eq!(v, "d"),
        _ => panic!("expected a value"),
    }
    let bare = ArgDef::Detailed { kind: s("select"), choices: None, default: None };
    assert!(matches!(arg_action(&s("opt"), &bare), ArgAction::Skip));
}

#[test]
fn other_kinds_use_the_default_or_skip() {
    let with = ArgDef::Detailed { kind: s("string"), choices: Some(vec![s("a")]), default: Some(s("d")) };
    match arg_action(&s("x"), &with) {
        ArgAction::Use(v) => assert_eq!(v, "d"),
        _ => panic!("expected a value"),
    }
    let without = ArgDef::Detailed { kind: s("string"), choices: None, default: None };
    assert!(matches!(arg_action(&s("x"), &without), ArgAction::Skip));
}

#[test]
fn actions_follow_the_argument_order() {
    let sig = Sigil {
        description: None,
        language: None,
        run: s("echo {{b}} {{a}}"),
        depends: Vec::new(),
        args: vec![(s("b"), ArgDef::Simple(s("2"))), (s("a"), ArgDef::Simple(s("1")))],
        silent: true,
    };
    let acts = arg_actions(&sig);
    assert_eq!(acts.len(), 2);
    assert_eq!(acts[0].0, "b");
    assert_eq!(acts[1].0, "a");
}

#[test]
fn announcement_shows_the_exact_command_unless_silent() {
    assert_eq!(announcement("hello", "echo hi", false), Some(s("> Executing [hello]: echo hi")));
    assert_eq!(announcement("hello", "echo hi", true), None);
}
