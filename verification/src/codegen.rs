//! Generation of the target source text from a checked program.

use vstd::prelude::*;

pub mod arena;
pub mod expressions;
pub mod headers;
pub mod program;
pub mod queries;
pub mod records;
pub mod schedule;
pub mod shaders;
pub mod statements;
pub mod types;

verus! {

/// The code generator. It holds no state: every function's result depends on
/// its arguments alone.
#[derive(Debug, Clone, Copy, PartialEq, Eq, Structural)]
pub struct CodeGenerator;

impl CodeGenerator {
    /// A code generator.
    pub fn new() -> (r: CodeGenerator) {
        CodeGenerator
    }
}

} // verus!
