//! The arguments of one invocation, as plain values: which file to read,
//! which format to emit, the constant name, the tab size, and where the
//! output goes. Argument parsing itself lives outside the library.

use crate::language::Language;
use vstd::prelude::*;

verus! {

/// One invocation's settings.
pub struct Args {
    /// Path of the file whose bytes are encoded.
    pub input_file: String,
    /// The output format.
    pub language: Language,
    /// The identifier the generated declaration is bound to.
    pub output_const_name: String,
    /// Spaces per indentation level in the generated text.
    pub tab_size: usize,
    /// Where the text goes: a file path, or standard output when absent.
    pub output_file: Option<String>,
}

} // verus!
