//! The Tailwind gem: build-time CSS generation from the classes a project uses.
pub mod compiler;
pub mod config;

use vstd::prelude::*;
use crate::gems::{GemKind, GemMeta};

verus! {

/// The Tailwind gem.
pub struct Gem;

/// A failure reported to the framework.
pub enum GemError {
    /// An error inside the gem, with its message.
    Internal(String),
}

impl Gem {
    /// How the gem describes itself.
    pub fn meta(&self) -> (m: GemMeta)
        ensures
            m.name@ == "tailwind"@,
            m.version@ == "0.1.0"@,
            m.description@ == "TailwindCSS build-time CSS generation"@,
            m.kind == GemKind::Theme,
    {
        GemMeta {
            name: "tailwind",
            version: "0.1.0",
            description: "TailwindCSS build-time CSS generation",
            kind: GemKind::Theme,
        }
    }
}

/// Tailwind CSS for the classes that `content` uses, a compile failure
/// reported as an internal error.
pub fn compile_source(content: &str) -> (r: Result<String, GemError>)
    ensures
        r matches Ok(css) && (css@.len() == 0 <==> compiler::accepted(
            compiler::class_names(content@),
        ).is_empty()),
        r matches Ok(css) && compiler::rendering_of(
            compiler::rules_for(compiler::accepted(compiler::class_names(content@))),
            css@,
        ),
{
    match compiler::compile_source(content) {
        Ok(css) => Ok(css),
        Err(e) => Err(GemError::Internal(e)),
    }
}

} // verus!
