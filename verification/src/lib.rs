//! A chunked speech-synthesis orchestration library.
//!
//! The pipeline splits input text into bounded-size chunks at grapheme
//! cluster boundaries, plans one synthesis request per chunk, collects the
//! per-chunk outcomes with deterministic fail-fast ordering, and assembles
//! the successful outputs into one merged artifact.

pub mod assembler;
pub mod chunker;
pub mod collector;
pub mod model;
pub mod naming;
pub mod pipeline;
