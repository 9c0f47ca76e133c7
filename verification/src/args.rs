//! Arguments and ingredients: what each argument of a sigil asks for, how
//! resolved arguments shadow the global ingredients, and how `{{name}}`
//! placeholders of a run string are filled in.

use vstd::prelude::*;
use crate::config::{ArgDef, GrimoireConfig, Sigil, extend_spec, extend_entries};
use crate::text::{str_eq, replace_all, replace_all_spec, str_views, copy_strings};

verus! {

/// What resolving one argument takes.
#[derive(Debug)]
pub enum ArgAction {
    /// The argument has this value.
    Use(String),
    /// Ask the user to pick one of `options`, showing `message`, with the
    /// cursor initially on `starting_cursor` when there is one.
    Prompt { message: String, options: Vec<String>, starting_cursor: Option<usize> },
    /// The argument stays unset.
    Skip,
}

/// The mathematical form of an `ArgAction`.
pub enum ArgStep {
    Value(Seq<char>),
    Ask(Seq<char>, Seq<Seq<char>>, Option<int>),
    Nothing,
}

pub open spec fn action_view(a: ArgAction) -> ArgStep {
    match a {
        ArgAction::Use(v) => ArgStep::Value(v@),
        ArgAction::Prompt { message, options, starting_cursor } => ArgStep::Ask(
            message@,
            str_views(options@),
            match starting_cursor {
                Some(c) => Some(c as int),
                None => None,
            },
        ),
        ArgAction::Skip => ArgStep::Nothing,
    }
}

/// The first position of `x` in `s`.
pub open spec fn position_spec(s: Seq<Seq<char>>, x: Seq<char>) -> Option<int>
    decreases s.len(),
{
    if s.len() == 0 {
        None
    } else if s[0] == x {
        Some(0)
    } else {
        match position_spec(s.drop_first(), x) {
            Some(i) => Some(i + 1),
            None => None,
        }
    }
}

/// The prompt shown for a select argument.
pub open spec fn prompt_message(name: Seq<char>) -> Seq<char> {
    "Select "@ + name + ":"@
}

/// What resolving the argument `name` defined by `def` takes: a simple
/// argument has its value; a `select` argument with choices asks the user,
/// starting on the default when it is one of the choices; otherwise the
/// default is used, if there is one.
pub open spec fn arg_action_spec(name: Seq<char>, def: ArgDef) -> ArgStep {
    match def {
        ArgDef::Simple(v) => ArgStep::Value(v@),
        ArgDef::Detailed { kind, choices, default } => {
            if kind@ == "select"@ && choices is Some {
                let opts = str_views(choices->0@);
                ArgStep::Ask(
                    prompt_message(name),
                    opts,
                    match default {
                        Some(d) => position_spec(opts, d@),
                        None => None,
                    },
                )
            } else {
                match default {
                    Some(d) => ArgStep::Value(d@),
                    None => ArgStep::Nothing,
                }
            }
        },
    }
}

/// The first position of `x` among `options`.
pub fn position_of(options: &Vec<String>, x: &String) -> (r: Option<usize>)
    ensures
        match r {
            Some(i) => position_spec(str_views(options@), x@) == Some(i as int),
            None => position_spec(str_views(options@), x@) is None,
        },
{
    let n = options.len();
    let mut i: usize = 0;
    let ghost s = str_views(options@);
    assert(s.skip(0) =~= s);
    while i < n
        invariant
            n == options@.len(),
            i <= n,
            s == str_views(options@),
            position_spec(s, x@) == match position_spec(s.skip(i as int), x@) {
                Some(k) => Some(k + i),
                None => None,
            },
        decreases n - i,
    {
        let ghost rest = s.skip(i as int);
        assert(rest[0] == s[i as int]);
        assert(rest.drop_first() =~= s.skip(i + 1));
        assert(s[i as int] == options@[i as int]@);
        if options[i] == *x {
            return Some(i);
        }
        i = i + 1;
    }
    assert(s.skip(i as int) =~= Seq::<Seq<char>>::empty());
    None
}

/// What resolving the argument `name`, defined by `def`, takes.
pub fn arg_action(name: &String, def: &ArgDef) -> (a: ArgAction)
    ensures
        action_view(a) == arg_action_spec(name@, *def),
{
    match def {
        ArgDef::Simple(v) => ArgAction::Use(v.clone()),
        ArgDef::Detailed { kind, choices, default } => {
            if str_eq(kind.as_str(), "select") && choices.is_some() {
                let opts = match choices {
                    Some(o) => o,
                    None => {
                        return ArgAction::Skip;
                    },
                };
                let mut message = String::from_str("Select ");
                message.append(name.as_str());
                message.append(":");
                let starting_cursor = match default {
                    Some(d) => position_of(opts, d),
                    None => None,
                };
                ArgAction::Prompt { message, options: copy_strings(opts), starting_cursor }
            } else {
                match default {
                    Some(d) => ArgAction::Use(d.clone()),
                    None => ArgAction::Skip,
                }
            }
        },
    }
}

/// The action of every argument of `sigil`, in the order they are defined.
pub fn arg_actions(sigil: &Sigil) -> (actions: Vec<(String, ArgAction)>)
    ensures
        actions@.len() == sigil.args@.len(),
        forall|i: int|
            0 <= i < actions@.len() ==> actions@[i].0@ == sigil.args@[i].0@ && action_view(
                #[trigger] actions@[i].1,
            ) == arg_action_spec(sigil.args@[i].0@, sigil.args@[i].1),
{
    let mut actions: Vec<(String, ArgAction)> = Vec::new();
    let mut i: usize = 0;
    while i < sigil.args.len()
        invariant
            i <= sigil.args@.len(),
            actions@.len() == i,
            forall|j: int|
                0 <= j < i ==> actions@[j].0@ == sigil.args@[j].0@ && action_view(
                    #[trigger] actions@[j].1,
                ) == arg_action_spec(sigil.args@[j].0@, sigil.args@[j].1),
        decreases sigil.args@.len() - i,
    {
        let entry = &sigil.args[i];
        let a = arg_action(&entry.0, &entry.1);
        actions.push((entry.0.clone(), a));
        i = i + 1;
    }
    actions
}

/// The placeholder that stands for the variable `key` in a run string.
pub open spec fn placeholder(key: Seq<char>) -> Seq<char> {
    "{{"@ + key + "}}"@
}

/// The run string after substituting, in order, the value of each variable
/// for every occurrence of its placeholder.
pub open spec fn fill_spec(s: Seq<char>, vars: Seq<(String, String)>) -> Seq<char>
    decreases vars.len(),
{
    if vars.len() == 0 {
        s
    } else {
        fill_spec(replace_all_spec(s, placeholder(vars[0].0@), vars[0].1@), vars.drop_first())
    }
}

/// The variables visible to a run string: the ingredients, with the
/// resolved arguments added on top (an argument shadows an ingredient of
/// the same name).
pub open spec fn variables_spec(ingredients: Seq<(String, String)>, resolved: Seq<(String, String)>) -> Seq<(String, String)> {
    extend_spec(ingredients, resolved)
}

/// A copy of a table of strings.
fn copy_table(v: &Vec<(String, String)>) -> (r: Vec<(String, String)>)
    ensures
        r@ == v@,
{
    let mut r: Vec<(String, String)> = Vec::new();
    let mut i: usize = 0;
    while i < v.len()
        invariant
            i <= v@.len(),
            r@ == v@.take(i as int),
        decreases v@.len() - i,
    {
        r.push((v[i].0.clone(), v[i].1.clone()));
        i = i + 1;
        assert(r@ =~= v@.take(i as int));
    }
    assert(v@.take(v@.len() as int) =~= v@);
    r
}

/// The variables visible to a run string.
pub fn variables(ingredients: &Vec<(String, String)>, resolved: Vec<(String, String)>) -> (vars: Vec<(String, String)>)
    ensures
        vars@ == variables_spec(ingredients@, resolved@),
{
    let mut vars = copy_table(ingredients);
    extend_entries(&mut vars, resolved);
    vars
}

/// Substitutes every variable of `vars`, in order, into `run`.
pub fn fill_templates(run: &String, vars: &Vec<(String, String)>) -> (r: String)
    ensures
        r@ == fill_spec(run@, vars@),
{
    let mut cur = run.clone();
    let mut i: usize = 0;
    assert(vars@.skip(0) =~= vars@);
    while i < vars.len()
        invariant
            i <= vars@.len(),
            fill_spec(run@, vars@) == fill_spec(cur@, vars@.skip(i as int)),
        decreases vars@.len() - i,
    {
        let ghost rest = vars@.skip(i as int);
        assert(rest[0] == vars@[i as int]);
        assert(rest.drop_first() =~= vars@.skip(i + 1));
        let mut ph = String::from_str("{{");
        ph.append(vars[i].0.as_str());
        ph.append("}}");
        proof {
            reveal_strlit("{{");
            reveal_strlit("}}");
        }
        assert(ph@ == placeholder(vars@[i as int].0@));
        cur = replace_all(cur.as_str(), ph.as_str(), vars[i].1.as_str());
        i = i + 1;
    }
    assert(vars@.skip(i as int) =~= Seq::<(String, String)>::empty());
    cur
}

/// The command a sigil runs: its run string with the ingredients of the
/// spellbook and the resolved arguments substituted.
pub fn render_command(config: &GrimoireConfig, sigil: &Sigil, resolved: Vec<(String, String)>) -> (cmd: String)
    ensures
        cmd@ == fill_spec(sigil.run@, variables_spec(config.ingredients@, resolved@)),
{
    let vars = variables(&config.ingredients, resolved);
    fill_templates(&sigil.run, &vars)
}

/// The line announcing a sigil before it runs: the exact command, unless
/// the sigil is silent.
pub open spec fn announcement_spec(name: Seq<char>, cmd: Seq<char>, silent: bool) -> Option<Seq<char>> {
    if silent {
        None
    } else {
        Some("> Executing ["@ + name + "]: "@ + cmd)
    }
}

/// The line announcing a sigil before it runs, unless it is silent.
pub fn announcement(name: &str, cmd: &str, silent: bool) -> (line: Option<String>)
    ensures
        match line {
            Some(l) => announcement_spec(name@, cmd@, silent) == Some(l@),
            None => announcement_spec(name@, cmd@, silent) is None,
        },
{
    if silent {
        None
    } else {
        let mut l = String::from_str("> Executing [");
        l.append(name);
        l.append("]: ");
        l.append(cmd);
        Some(l)
    }
}

} // verus!
