//! What each kind of argument definition resolves to.

use vstd::prelude::*;
use crate::config::ArgDef;
use crate::args::{ArgStep, arg_action_spec, position_spec};
use crate::text::str_views;

verus! {

/// The position of `x` in `s` is its first occurrence, if it occurs.
pub proof fn law_position(s: Seq<Seq<char>>, x: Seq<char>)
    ensures
        match position_spec(s, x) {
            Some(i) => 0 <= i < s.len() && s[i] == x && forall|j: int| 0 <= j < i ==> s[j] != x,
            None => !s.contains(x),
        },
    decreases s.len(),
{
    if s.len() > 0 {
        law_position(s.drop_first(), x);
        if s[0] != x {
            match position_spec(s.drop_first(), x) {
                Some(i) => {
                    assert(s[i + 1] == s.drop_first()[i]);
                    assert forall|j: int| 0 <= j < i + 1 implies s[j] != x by {
                        if j > 0 {
                            assert(s[j] == s.drop_first()[j - 1]);
                        }
                    }
                },
                None => {
                    if s.contains(x) {
                        let k = choose|k: int| 0 <= k < s.len() && s[k] == x;
                        assert(s.drop_first()[k - 1] == x);
                    }
                },
            }
        }
    }
}

/// A select argument with choices always asks the user, whatever its
/// default: the prompt is `Select <name>:`, the options are the choices in
/// order, and the cursor starts on the first choice equal to the default,
/// if there is one.
pub proof fn law_select_with_choices_asks(
    name: Seq<char>,
    kind: String,
    choices: Vec<String>,
    default: Option<String>,
)
    requires
        kind@ == "select"@,
    ensures
        arg_action_spec(name, ArgDef::Detailed { kind, choices: Some(choices), default })
            == ArgStep::Ask(
            "Select "@ + name + ":"@,
            str_views(choices@),
            match default {
                Some(d) => position_spec(str_views(choices@), d@),
                None => None,
            },
        ),
        default is None ==> arg_action_spec(
            name,
            ArgDef::Detailed { kind, choices: Some(choices), default },
        ) is Ask,
{
}

/// A simple argument has its value; any other argument that does not ask
/// takes its default, or stays unset when it has none.
pub proof fn law_arguments_without_prompt(
    name: Seq<char>,
    value: String,
    kind: String,
    choices: Option<Vec<String>>,
    default: Option<String>,
)
    ensures
        arg_action_spec(name, ArgDef::Simple(value)) == ArgStep::Value(value@),
        !(kind@ == "select"@ && choices is Some) ==> arg_action_spec(
            name,
            ArgDef::Detailed { kind, choices, default },
        ) == match default {
            Some(d) => ArgStep::Value(d@),
            None => ArgStep::Nothing,
        },
{
}

} // verus!
