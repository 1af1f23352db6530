//! A declarative, distribution-aware installer and configurator.
//!
//! A configuration file describes named programs, each with per-distribution
//! shell commands for installation and configuration and an optional list of
//! dependent programs.  This crate holds the verified core: the program tree
//! model, distro-aware step resolution, the recursive install/configure
//! planning engine, the fail-fast step runner, and the state machine behind
//! the interactive tree browser.  Reading files, parsing them into the model,
//! spawning shells and drawing the terminal are left to the surrounding
//! binary, which hands plain values in and carries plans out.

pub mod browser;
pub mod cli;
pub mod configuration;
pub mod engine;
pub mod executor;
pub mod installation;
pub mod instructionset;
pub mod program;
pub mod steps;
pub mod util;

use vstd::prelude::*;

verus! {

/// The wildcard distribution token: a step group naming it applies on every
/// distribution.
pub open spec fn wildcard() -> Seq<char> {
    "*"@
}

} // verus!
