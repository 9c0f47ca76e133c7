//! Laws of the spellbook's tables and of placeholder substitution.

use vstd::prelude::*;
use crate::config::{find_spec, lookup_spec, insert_spec, extend_spec, unique_names, lemma_find_spec};
use crate::args::{fill_spec, placeholder, variables_spec};
use crate::text::{occurs_at, replace_all_spec};

verus! {

proof fn lemma_find_is<V>(entries: Seq<(String, V)>, key: Seq<char>, i: int)
    requires
        0 <= i < entries.len(),
        entries[i].0@ == key,
        forall|j: int| 0 <= j < i ==> entries[j].0@ != key,
    ensures
        find_spec(entries, key) == Some(i),
{
    lemma_find_spec(entries, key);
    match find_spec(entries, key) {
        Some(j) => {
            if j < i {
                assert(entries[j].0@ != key);
            } else if j > i {
                assert(entries[i].0@ != key);
            }
        },
        None => {
            assert(entries[i].0@ != key);
        },
    }
}

proof fn lemma_find_none<V>(entries: Seq<(String, V)>, key: Seq<char>)
    requires
        forall|j: int| 0 <= j < entries.len() ==> entries[j].0@ != key,
    ensures
        find_spec(entries, key) is None,
{
    lemma_find_spec(entries, key);
    if let Some(j) = find_spec(entries, key) {
        assert(entries[j].0@ != key);
    }
}

/// After inserting `(k, v)`, looking up `k` gives `v`, and every other
/// name looks up as before.
pub proof fn law_insert_lookup<V>(entries: Seq<(String, V)>, kv: (String, V), key: Seq<char>)
    ensures
        lookup_spec(insert_spec(entries, kv), key) == if kv.0@ == key {
            Some(kv.1)
        } else {
            lookup_spec(entries, key)
        },
{
    let e2 = insert_spec(entries, kv);
    lemma_find_spec(entries, kv.0@);
    lemma_find_spec(entries, key);
    match find_spec(entries, kv.0@) {
        Some(i) => {
            assert(e2 == entries.update(i, kv));
            if kv.0@ == key {
                lemma_find_is(e2, key, i);
            } else {
                match find_spec(entries, key) {
                    Some(j) => {
                        assert(j != i);
                        assert forall|x: int| 0 <= x < j implies e2[x].0@ != key by {
                            if x != i {
                                assert(e2[x] == entries[x]);
                            }
                        }
                        lemma_find_is(e2, key, j);
                    },
                    None => {
                        assert forall|x: int| 0 <= x < e2.len() implies e2[x].0@ != key by {
                            if x != i {
                                assert(e2[x] == entries[x]);
                            }
                        }
                        lemma_find_none(e2, key);
                    },
                }
            }
        },
        None => {
            assert(e2 == entries.push(kv));
            if kv.0@ == key {
                assert forall|x: int| 0 <= x < entries.len() implies e2[x].0@ != key by {
                    assert(e2[x] == entries[x]);
                }
                lemma_find_is(e2, key, entries.len() as int);
            } else {
                match find_spec(entries, key) {
                    Some(j) => {
                        assert forall|x: int| 0 <= x < j implies e2[x].0@ != key by {
                            assert(e2[x] == entries[x]);
                        }
                        assert(e2[j] == entries[j]);
                        lemma_find_is(e2, key, j);
                    },
                    None => {
                        assert forall|x: int| 0 <= x < e2.len() implies e2[x].0@ != key by {
                            if x < entries.len() {
                                assert(e2[x] == entries[x]);
                            }
                        }
                        lemma_find_none(e2, key);
                    },
                }
            }
        },
    }
}

/// Inserting keeps the names of a table distinct.
pub proof fn law_insert_keeps_unique<V>(entries: Seq<(String, V)>, kv: (String, V))
    requires
        unique_names(entries),
    ensures
        unique_names(insert_spec(entries, kv)),
{
    let e2 = insert_spec(entries, kv);
    lemma_find_spec(entries, kv.0@);
    match find_spec(entries, kv.0@) {
        Some(i) => {
            assert forall|x: int, y: int|
                0 <= x < e2.len() && 0 <= y < e2.len() && x != y implies e2[x].0@ != e2[y].0@ by {
                assert(e2[x].0@ == entries[x].0@);
                assert(e2[y].0@ == entries[y].0@);
            }
        },
        None => {
            assert forall|x: int, y: int|
                0 <= x < e2.len() && 0 <= y < e2.len() && x != y implies e2[x].0@ != e2[y].0@ by {
                if x < entries.len() && y < entries.len() {
                    assert(e2[x] == entries[x] && e2[y] == entries[y]);
                } else if x < entries.len() {
                    assert(e2[x] == entries[x]);
                } else {
                    assert(e2[y] == entries[y]);
                }
            }
        },
    }
}

/// Adding a table to another keeps the names distinct.
pub proof fn law_extend_keeps_unique<V>(base: Seq<(String, V)>, other: Seq<(String, V)>)
    requires
        unique_names(base),
    ensures
        unique_names(extend_spec(base, other)),
    decreases other.len(),
{
    if other.len() > 0 {
        law_insert_keeps_unique(base, other[0]);
        law_extend_keeps_unique(insert_spec(base, other[0]), other.drop_first());
    }
}

proof fn lemma_lookup_unfold<V>(entries: Seq<(String, V)>, key: Seq<char>)
    requires
        entries.len() > 0,
    ensures
        lookup_spec(entries, key) == if entries[0].0@ == key {
            Some(entries[0].1)
        } else {
            lookup_spec(entries.drop_first(), key)
        },
{
    if entries[0].0@ != key {
        match find_spec(entries.drop_first(), key) {
            Some(i) => {
                lemma_find_spec(entries.drop_first(), key);
                assert(entries[i + 1] == entries.drop_first()[i]);
            },
            None => {},
        }
    }
}

/// Adding the entries of `other` to `base` overrides: a name defined in
/// `other` takes its value there, any other name keeps its value in `base`.
pub proof fn law_extend_lookup<V>(base: Seq<(String, V)>, other: Seq<(String, V)>, key: Seq<char>)
    requires
        unique_names(other),
    ensures
        lookup_spec(extend_spec(base, other), key) == match lookup_spec(other, key) {
            Some(v) => Some(v),
            None => lookup_spec(base, key),
        },
    decreases other.len(),
{
    if other.len() > 0 {
        let rest = other.drop_first();
        assert forall|x: int, y: int|
            0 <= x < rest.len() && 0 <= y < rest.len() && x != y implies rest[x].0@ != rest[y].0@ by {
            assert(rest[x] == other[x + 1] && rest[y] == other[y + 1]);
        }
        law_extend_lookup(insert_spec(base, other[0]), rest, key);
        law_insert_lookup(base, other[0], key);
        lemma_lookup_unfold(other, key);
        if other[0].0@ == key {
            assert forall|j: int| 0 <= j < rest.len() implies rest[j].0@ != key by {
                assert(rest[j] == other[j + 1]);
            }
            lemma_find_none(rest, key);
        }
    }
}

/// Arguments shadow ingredients: in the variables of a run string, a
/// resolved argument's value wins over an ingredient of the same name, and
/// every other ingredient keeps its value.
pub proof fn law_arguments_shadow_ingredients(
    ingredients: Seq<(String, String)>,
    resolved: Seq<(String, String)>,
    key: Seq<char>,
)
    requires
        unique_names(resolved),
    ensures
        lookup_spec(variables_spec(ingredients, resolved), key) == match lookup_spec(resolved, key) {
            Some(v) => Some(v),
            None => lookup_spec(ingredients, key),
        },
{
    law_extend_lookup(ingredients, resolved, key);
}

proof fn lemma_replace_absent(s: Seq<char>, p: Seq<char>, t: Seq<char>)
    requires
        forall|i: int| !occurs_at(s, p, i),
    ensures
        replace_all_spec(s, p, t) == s,
    decreases s.len(),
{
    if s.len() > 0 && p.len() > 0 {
        let r = s.skip(1);
        assert forall|i: int| !occurs_at(r, p, i) by {
            if occurs_at(r, p, i) {
                assert(s.subrange(i + 1, i + 1 + p.len()) =~= r.subrange(i, i + p.len()));
                assert(occurs_at(s, p, i + 1));
            }
        }
        lemma_replace_absent(r, p, t);
        assert(!occurs_at(s, p, 0));
        assert(seq![s[0]] + r =~= s);
    }
}

/// Replacing a pattern that does not occur leaves a string unchanged.
pub proof fn law_replace_absent_is_identity(s: Seq<char>, p: Seq<char>, t: Seq<char>)
    requires
        forall|i: int| !occurs_at(s, p, i),
    ensures
        replace_all_spec(s, p, t) == s,
{
    lemma_replace_absent(s, p, t);
}

/// A run string in which no variable's placeholder occurs runs as written.
pub proof fn law_fill_without_placeholders(s: Seq<char>, vars: Seq<(String, String)>)
    requires
        forall|j: int, i: int| 0 <= j < vars.len() ==> !(#[trigger] occurs_at(s, placeholder(vars[j].0@), i)),
    ensures
        fill_spec(s, vars) == s,
    decreases vars.len(),
{
    if vars.len() > 0 {
        assert forall|i: int| !occurs_at(s, placeholder(vars[0].0@), i) by {
            assert(!occurs_at(s, placeholder(vars[0].0@), i));
        }
        lemma_replace_absent(s, placeholder(vars[0].0@), vars[0].1@);
        let rest = vars.drop_first();
        assert forall|j: int, i: int| 0 <= j < rest.len() implies !(#[trigger] occurs_at(s, placeholder(rest[j].0@), i)) by {
            assert(rest[j] == vars[j + 1]);
        }
        law_fill_without_placeholders(s, rest);
    }
}

/// Replacement is leftmost and non-overlapping: everything before the
/// first occurrence of the pattern is kept, that occurrence becomes the
/// replacement, and replacement resumes right after it.
pub proof fn law_replace_first_occurrence(s: Seq<char>, p: Seq<char>, t: Seq<char>, i: int)
    requires
        p.len() > 0,
        occurs_at(s, p, i),
        forall|j: int| 0 <= j < i ==> !occurs_at(s, p, j),
    ensures
        replace_all_spec(s, p, t) == s.take(i) + t + replace_all_spec(s.skip(i + p.len()), p, t),
    decreases i,
{
    if i == 0 {
        assert(s.take(0) + t =~= t);
    } else {
        assert(!occurs_at(s, p, 0));
        let r = s.skip(1);
        assert(r.subrange(i - 1, i - 1 + p.len()) =~= s.subrange(i, i + p.len()));
        assert forall|j: int| 0 <= j < i - 1 implies !occurs_at(r, p, j) by {
            if occurs_at(r, p, j) {
                assert(s.subrange(j + 1, j + 1 + p.len()) =~= r.subrange(j, j + p.len()));
                assert(occurs_at(s, p, j + 1));
            }
        }
        law_replace_first_occurrence(r, p, t, i - 1);
        assert(r.skip(i - 1 + p.len()) =~= s.skip(i + p.len()));
        assert(seq![s[0]] + r.take(i - 1) =~= s.take(i));
        assert(seq![s[0]] + (r.take(i - 1) + t + replace_all_spec(r.skip(i - 1 + p.len()), p, t))
            =~= s.take(i) + t + replace_all_spec(s.skip(i + p.len()), p, t));
    }
}

/// A placeholder is the name between double braces.
pub proof fn law_placeholder_shape(key: Seq<char>)
    ensures
        placeholder(key) == seq!['{', '{'] + key + seq!['}', '}'],
{
    reveal_strlit("{{");
    reveal_strlit("}}");
    assert("{{"@ =~= seq!['{', '{']);
    assert("}}"@ =~= seq!['}', '}']);
}

/// With no variables the run string is unchanged; substituting one more
/// variable replaces every occurrence of its placeholder, whatever its
/// value (the empty value too), in what the earlier variables produced.
pub proof fn law_fill_one_more(s: Seq<char>, vars: Seq<(String, String)>, kv: (String, String))
    ensures
        fill_spec(s, seq![]) == s,
        fill_spec(s, vars.push(kv)) == replace_all_spec(fill_spec(s, vars), placeholder(kv.0@), kv.1@),
    decreases vars.len(),
{
    let w = vars.push(kv);
    if vars.len() == 0 {
        assert(w[0] == kv);
        assert(w.drop_first() =~= Seq::<(String, String)>::empty());
        assert(fill_spec(s, vars) == s);
        assert(fill_spec(s, w) == fill_spec(
            replace_all_spec(s, placeholder(kv.0@), kv.1@),
            w.drop_first(),
        ));
    } else {
        assert(w[0] == vars[0]);
        assert(w.drop_first() =~= vars.drop_first().push(kv));
        law_fill_one_more(
            replace_all_spec(s, placeholder(vars[0].0@), vars[0].1@),
            vars.drop_first(),
            kv,
        );
    }
}

/// Substituting a single variable is replacing its placeholder by its
/// value.
pub proof fn law_fill_single(s: Seq<char>, kv: (String, String))
    ensures
        fill_spec(s, seq![kv]) == replace_all_spec(s, placeholder(kv.0@), kv.1@),
{
    let empty: Seq<(String, String)> = seq![];
    law_fill_one_more(s, empty, kv);
    assert(empty.push(kv) =~= seq![kv]);
}

} // verus!
