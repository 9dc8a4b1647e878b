//! Grammar-driven text generation with grammatical-gender resolution.
//!
//! A table maps each symbol name to candidate text fragments.  Instantiating
//! a symbol picks one candidate (from process entropy, or deterministically
//! from a seed), recursively expands `{memoized}` and `{{fresh}}` symbol
//! references, resolves gendered word forms (`he/she`, `sorci·er·ère`)
//! against the gender carried by another symbol, and decodes escaped
//! characters in the final output.

pub mod chars;
pub mod codec;
pub mod engine;
pub mod errors;
pub mod gender;
pub mod generator;
pub mod graph;
pub mod json;
pub mod laws;
pub mod rng;
pub mod resolver;
pub mod scan;
pub mod table;

pub use errors::GenError;
pub use gender::Gender;
pub use generator::Generator;
