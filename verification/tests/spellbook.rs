use grimoire::config::{
    assemble_config, describe_sigils, extend_entries, find_entry, find_sigil, insert_entry,
    GrimoireConfig, RawConfig, Sigil,
};

fn s(x: &str) -> String {
    x.to_string()
}

fn sigil(run: &str, description: Option<&str>) -> Sigil {
    Sigil {
        description: description.map(s),
        language: None,
        run: s(run),
        depends: Vec::new(),
        args: Vec::new(),
        silent: false,
    }
}

#[test]
fn global_overrides_ingredients_and_task_overrides_sigil() {
    let raw = RawConfig {
        version: s("1"),
        ingredients: vec![(s("a"), s("1")), (s("b"), s("2"))],
        global: vec![(s("b"), s("20")), (s("c"), s("30"))],
        sigil: vec![(s("hello"), sigil("echo hi", None)), (s("bye"), sigil("echo bye", None))],
        task: vec![(s("hello"), sigil("echo HI", Some("loud")))],
    };
    let config = assemble_config(raw);
    assert_eq!(config.version, "1");
    assert_eq!(config.ingredients, vec![(s("a"), s("1")), (s("b"), s("20")), (s("c"), s("30"))]);
    let names: Vec<&str> = config.sigils.iter().map(|(n, _)| n.as_str()).collect();
    assert_eq!(names, vec!["hello", "bye"]);
    assert_eq!(find_sigil(&config, "hello").unwrap().run, "echo HI");
    assert_eq!(find_sigil(&config, "bye").unwrap().run, "echo bye");
    assert!(find_sigil(&config, "nope").is_none());
}

#[test]
fn lookups_find_the_first_entry() {
    let entries = vec![(s("x"), 1), (s("y"), 2), (s("x"), 3)];
    assert_eq!(find_entry(&entries, "x"), Some(0));
    assert_eq!(find_entry(&entries, "y"), Some(1));
    assert_eq!(find_entry(&entries, "z"), None);
}

#[test]
fn insert_replaces_in_place_or_appends() {
    let mut entries = vec![(s("x"), 1), (s("y"), 2)];
    insert_entry(&mut entries, s("x"), 10);
    assert_eq!(entries, vec![(s("x"), 10), (s("y"), 2)]);
    insert_entry(&mut entries, s("z"), 3);
    assert_eq!(entries, vec![(s("x"), 10), (s("y"), 2), (s("z"), 3)]);
    extend_entries(&mut entries, vec![(s("y"), 20), (s("w"), 4)]);
    assert_eq!(entries, vec![(s("x"), 10), (s("y"), 20), (s("z"), 3), (s("w"), 4)]);
}

#[test]
fn listing_keeps_the_file_order() {
    let config = GrimoireConfig {
        version: s("1"),
        ingredients: Vec::new(),
        sigils: vec![
            (s("zeta"), sigil("z", Some("last letter"))),
            (s("alpha"), sigil("a", None)),
        ],
    };
    assert_eq!(
        describe_sigils(&config),
        vec![(s("zeta"), s("last letter")), (s("alpha"), s("No description"))]
    );
}

#[test]
fn assembled_tables_keep_distinct_names() {
    let raw = RawConfig {
        version: s("1"),
        ingredients: vec![(s("a"), s("1"))],
        global: vec![(s("a"), s("2")), (s("b"), s("3")), (s("b"), s("4"))],
        sigil: vec![(s("x"), sigil("x", None))],
        task: vec![(s("x"), sigil("y", None)), (s("x"), sigil("z", None))],
    };
    let config = assemble_config(raw);
    assert_eq!(config.ingredients, vec![(s("a"), s("2")), (s("b"), s("4"))]);
    assert_eq!(config.sigils.len(), 1);
    assert_eq!(config.sigils[0].1.run, "z");
}
