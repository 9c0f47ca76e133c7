//! Grimoire: a language-agnostic task runner whose tasks ("sigils") are
//! declared in a `Grimoire.toml` spellbook.
//!
//! This crate holds the decisions the runner makes: how a spellbook is
//! assembled from its tables, in which order sigils and their dependencies
//! are cast (with cycle detection), how arguments and ingredients are
//! substituted into a run string, and which process invocation a sigil
//! turns into.  The surrounding program performs the file, terminal and
//! process work.

pub mod arg_laws;
pub mod args;
pub mod cli;
pub mod config;
pub mod invocation;
pub mod invocation_laws;
pub mod plan;
pub mod plan_laws;
pub mod settle;
pub mod shebang;
pub mod table_laws;
pub mod text;
