//! The modules that react to what happens on a chat service.

pub mod lua;
pub mod shell;
pub mod utils;

use vstd::prelude::*;

verus! {

/// The kinds of module.
#[derive(Copy, Clone, Debug, PartialEq, Eq, Structural)]
pub enum ModuleKind {
    Lua,
}

} // verus!
