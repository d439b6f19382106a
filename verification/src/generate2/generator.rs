//! The interface of code generator plugins.

use vstd::prelude::*;

use crate::ir;

use super::{GeneratorError, GeneratorOutput};

verus! {

/// A code generator that transforms the intermediate representation into
/// source files.
pub trait Generator {
    /// The unique identifier of this generator, e.g. `rust`.
    fn name(&self) -> &str;

    /// The file extension of generated files, e.g. `rs`; may be empty.
    fn extension(&self) -> &str;

    /// Generates code from the schema: relative paths and their contents.
    fn generate(&self, schema: &ir::Schema) -> Result<GeneratorOutput, GeneratorError>;
}

} // verus!
