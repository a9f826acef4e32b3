//! Planning and decision logic for extracting a compressed archive onto disk.
//!
//! The crate decides *what* has to happen during an extraction: how many
//! workers to use, which entries each worker handles, where each entry lands
//! under the output directory, how one entry's bytes are streamed, and what a
//! failure means in each mode. Performing the file-system and archive calls
//! is left to the caller, which feeds the results back in.

pub mod engine;
pub mod extractor;
pub mod pipeline;
pub mod sanitize;
pub mod workers;
