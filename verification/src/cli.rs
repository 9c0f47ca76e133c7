//! The commands of the `grim` program.

use vstd::prelude::*;

verus! {

/// A parsed command line.
#[derive(Debug)]
pub struct Cli {
    pub command: Commands,
}

/// What the program is asked to do.
#[derive(Debug)]
pub enum Commands {
    /// Scribe a default `Grimoire.toml` in the current directory.
    Init,
    /// Cast the sigil `name`, handing `extra_args` to its command.
    Cast { name: String, extra_args: Vec<String> },
    /// List the sigils of the spellbook.
    Sigils,
    /// List the tongues (languages) the runner knows.
    Lang,
}

} // verus!
