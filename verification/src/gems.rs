//! What every gem shares: how it is constructed and how it describes itself.
use vstd::prelude::*;

verus! {

/// The standard constructor of a gem: every gem that can be registered is
/// made by `SomeGem::load()`, then configured through its builder methods.
pub trait GemBuilder: Sized {
    fn load() -> Self;
}

/// The role a gem plays in an application.
#[derive(Clone, Copy, Debug, PartialEq, Eq, Structural)]
pub enum GemKind {
    Integration,
    Theme,
}

/// The description a gem gives of itself.
pub struct GemMeta {
    pub name: &'static str,
    pub version: &'static str,
    pub description: &'static str,
    pub kind: GemKind,
}

} // verus!
