//! An SSA intermediate representation held as a compact byte-oriented
//! instruction stream, together with a streaming builder that mints fresh
//! value and label identifiers, a streaming decoder, a pretty-printer, and a
//! lowering pass that translates a small expression-tree IR into the stream.

pub mod buf;
pub mod compile;
pub mod encoding;
pub mod mir;
pub mod printing;
pub mod ssa;
