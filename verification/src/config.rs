//! The spellbook: sigils, their arguments, global ingredients, and how the
//! tables of a `Grimoire.toml` are assembled into one configuration.
//!
//! Tables are kept as ordered lists of `(name, value)` entries, in the order
//! in which they were written.  A lookup finds the first entry with the
//! requested name; inserting a name that is already present replaces that
//! entry's value in place.

use vstd::prelude::*;
use crate::text::str_eq;
use crate::table_laws::law_extend_keeps_unique;

verus! {

/// One argument definition of a sigil.
#[derive(Debug)]
pub enum ArgDef {
    /// A fixed value.
    Simple(String),
    /// A typed argument; `kind == "select"` asks the user to choose one of
    /// `choices`, anything else falls back to `default`.
    Detailed { kind: String, choices: Option<Vec<String>>, default: Option<String> },
}

/// A task of the spellbook.
#[derive(Debug)]
pub struct Sigil {
    pub description: Option<String>,
    pub language: Option<String>,
    pub run: String,
    pub depends: Vec<String>,
    pub args: Vec<(String, ArgDef)>,
    pub silent: bool,
}

/// The spellbook as it is used to cast sigils.
#[derive(Debug)]
pub struct GrimoireConfig {
    pub version: String,
    pub ingredients: Vec<(String, String)>,
    pub sigils: Vec<(String, Sigil)>,
}

/// The tables of a `Grimoire.toml` as they were written: `[ingredients]`
/// and its alias `[global]`, `[sigil.*]` and its alias `[task.*]`.
#[derive(Debug)]
pub struct RawConfig {
    pub version: String,
    pub ingredients: Vec<(String, String)>,
    pub global: Vec<(String, String)>,
    pub sigil: Vec<(String, Sigil)>,
    pub task: Vec<(String, Sigil)>,
}

/// The names of a table, in order.
pub open spec fn entry_names<V>(entries: Seq<(String, V)>) -> Seq<Seq<char>> {
    entries.map_values(|e: (String, V)| e.0@)
}

/// Index of the first entry named `key`.
pub open spec fn find_spec<V>(entries: Seq<(String, V)>, key: Seq<char>) -> Option<int>
    decreases entries.len(),
{
    if entries.len() == 0 {
        None
    } else if entries[0].0@ == key {
        Some(0)
    } else {
        match find_spec(entries.drop_first(), key) {
            Some(i) => Some(i + 1),
            None => None,
        }
    }
}

/// The value of the first entry named `key`.
pub open spec fn lookup_spec<V>(entries: Seq<(String, V)>, key: Seq<char>) -> Option<V> {
    match find_spec(entries, key) {
        Some(i) => Some(entries[i].1),
        None => None,
    }
}

/// No two entries share a name.
pub open spec fn unique_names<V>(entries: Seq<(String, V)>) -> bool {
    forall|i: int, j: int|
        0 <= i < entries.len() && 0 <= j < entries.len() && i != j ==> entries[i].0@
            != entries[j].0@
}

/// Inserting `(k, v)`: replaces the first entry named like `k`, or appends.
pub open spec fn insert_spec<V>(entries: Seq<(String, V)>, kv: (String, V)) -> Seq<(String, V)> {
    match find_spec(entries, kv.0@) {
        Some(i) => entries.update(i, kv),
        None => entries.push(kv),
    }
}

/// Inserting the entries of `other`, one after the other, into `base`.
pub open spec fn extend_spec<V>(base: Seq<(String, V)>, other: Seq<(String, V)>) -> Seq<(String, V)>
    decreases other.len(),
{
    if other.len() == 0 {
        base
    } else {
        extend_spec(insert_spec(base, other[0]), other.drop_first())
    }
}

/// What `find_spec` finds: the first entry with that name, or none at all.
pub proof fn lemma_find_spec<V>(entries: Seq<(String, V)>, key: Seq<char>)
    ensures
        match find_spec(entries, key) {
            Some(i) => 0 <= i < entries.len() && entries[i].0@ == key && forall|j: int|
                0 <= j < i ==> entries[j].0@ != key,
            None => forall|j: int| 0 <= j < entries.len() ==> entries[j].0@ != key,
        },
    decreases entries.len(),
{
    if entries.len() > 0 {
        lemma_find_spec(entries.drop_first(), key);
        if entries[0].0@ != key {
            match find_spec(entries.drop_first(), key) {
                Some(i) => {
                    assert forall|j: int| 0 <= j < i + 1 implies entries[j].0@ != key by {
                        if j > 0 {
                            assert(entries[j] == entries.drop_first()[j - 1]);
                        }
                    }
                },
                None => {
                    assert forall|j: int| 0 <= j < entries.len() implies entries[j].0@ != key by {
                        if j > 0 {
                            assert(entries[j] == entries.drop_first()[j - 1]);
                        }
                    }
                },
            }
        }
    }
}

/// The first index of the entry named `key`, if there is one.
pub fn find_entry<V>(entries: &Vec<(String, V)>, key: &str) -> (r: Option<usize>)
    ensures
        r matches Some(i) ==> i < entries@.len() && find_spec(entries@, key@) == Some(i as int),
        r is None ==> find_spec(entries@, key@) is None,
{
    proof {
        lemma_find_spec(entries@, key@);
    }
    let n = entries.len();
    let mut i: usize = 0;
    while i < n
        invariant
            n == entries@.len(),
            i <= n,
            forall|j: int| 0 <= j < i ==> entries@[j].0@ != key@,
            match find_spec(entries@, key@) {
                Some(k) => 0 <= k < entries@.len() && entries@[k].0@ == key@ && forall|j: int|
                    0 <= j < k ==> entries@[j].0@ != key@,
                None => forall|j: int| 0 <= j < entries@.len() ==> entries@[j].0@ != key@,
            },
        decreases n - i,
    {
        if str_eq(entries[i].0.as_str(), key) {
            return Some(i);
        }
        i = i + 1;
    }
    None
}

/// Inserts `(key, value)`: an entry of the same name takes the new value in
/// place, otherwise the entry is appended.
pub fn insert_entry<V>(entries: &mut Vec<(String, V)>, key: String, value: V)
    ensures
        final(entries)@ == insert_spec(old(entries)@, (key, value)),
{
    match find_entry(entries, key.as_str()) {
        Some(i) => {
            entries.set(i, (key, value));
        },
        None => {
            entries.push((key, value));
        },
    }
}

/// Inserts every entry of `other`, in order, into `base`.
pub fn extend_entries<V>(base: &mut Vec<(String, V)>, other: Vec<(String, V)>)
    ensures
        final(base)@ == extend_spec(old(base)@, other@),
{
    let mut rest = other;
    while rest.len() > 0
        invariant
            extend_spec(old(base)@, other@) == extend_spec(base@, rest@),
        decreases rest.len(),
    {
        let ghost before = rest@;
        let (k, v) = rest.remove(0);
        assert(rest@ =~= before.drop_first());
        insert_entry(base, k, v);
    }
}

/// Assembles the spellbook from its tables: `[global]` entries are added to
/// the ingredients and `[task.*]` entries to the sigils, a later table
/// overriding an entry of the same name.
pub fn assemble_config(raw: RawConfig) -> (config: GrimoireConfig)
    ensures
        config.version == raw.version,
        config.ingredients@ == extend_spec(raw.ingredients@, raw.global@),
        config.sigils@ == extend_spec(raw.sigil@, raw.task@),
        unique_names(raw.ingredients@) ==> unique_names(config.ingredients@),
        unique_names(raw.sigil@) ==> unique_names(config.sigils@),
{
    proof {
        if unique_names(raw.ingredients@) {
            law_extend_keeps_unique(raw.ingredients@, raw.global@);
        }
        if unique_names(raw.sigil@) {
            law_extend_keeps_unique(raw.sigil@, raw.task@);
        }
    }
    let RawConfig { version, ingredients, global, sigil, task } = raw;
    let mut ingredients = ingredients;
    extend_entries(&mut ingredients, global);
    let mut sigils = sigil;
    extend_entries(&mut sigils, task);
    GrimoireConfig { version, ingredients, sigils }
}

/// The sigil of the spellbook called `name`.
pub fn find_sigil<'a>(config: &'a GrimoireConfig, name: &str) -> (s: Option<&'a Sigil>)
    ensures
        match s {
            Some(s) => lookup_spec(config.sigils@, name@) == Some(*s),
            None => lookup_spec(config.sigils@, name@) is None,
        },
{
    match find_entry(&config.sigils, name) {
        Some(i) => Some(&config.sigils[i].1),
        None => None,
    }
}

/// How a sigil is described in the listing.
pub open spec fn description_spec(s: Sigil) -> Seq<char> {
    match s.description {
        Some(d) => d@,
        None => "No description"@,
    }
}

/// The listing of the spellbook: each sigil's name with its description
/// (or `No description`), in the order the sigils are defined.
pub fn describe_sigils(config: &GrimoireConfig) -> (lines: Vec<(String, String)>)
    ensures
        lines@.len() == config.sigils@.len(),
        forall|i: int|
            0 <= i < lines@.len() ==> (#[trigger] lines@[i]).0@ == config.sigils@[i].0@ && lines@[i].1@
                == description_spec(config.sigils@[i].1),
{
    let mut lines: Vec<(String, String)> = Vec::new();
    let mut i: usize = 0;
    while i < config.sigils.len()
        invariant
            i <= config.sigils@.len(),
            lines@.len() == i,
            forall|j: int|
                0 <= j < i ==> (#[trigger] lines@[j]).0@ == config.sigils@[j].0@ && lines@[j].1@
                    == description_spec(config.sigils@[j].1),
        decreases config.sigils@.len() - i,
    {
        let entry = &config.sigils[i];
        let desc = match &entry.1.description {
            Some(d) => d.clone(),
            None => String::from_str("No description"),
        };
        lines.push((entry.0.clone(), desc));
        i = i + 1;
    }
    lines
}

} // verus!
