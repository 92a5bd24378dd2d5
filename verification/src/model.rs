//! The data model of one synthesis job: chunks, workspace, per-chunk
//! outcomes, and the error taxonomy.

use vstd::prelude::*;

verus! {

/// Fields of a local wall-clock timestamp, held as plain values.
#[derive(Clone, Copy, Debug, PartialEq, Eq, Structural)]
pub struct TimeFields {
    pub year: i32,
    pub month: u32,
    pub day: u32,
    pub hour: u32,
    pub minute: u32,
}

/// A contiguous, ordered, size-bounded segment of the original input text.
/// Ordering is defined solely by `index`; chunks are immutable once produced.
#[derive(Debug)]
pub struct Chunk {
    pub index: usize,
    pub text: String,
}

/// A uniquely named location that owns all files written for one job.
#[derive(Debug)]
pub struct Workspace {
    pub path: String,
    pub created: TimeFields,
}

/// The unit of work submitted to the pipeline; it exists for the duration
/// of one request.
#[derive(Debug)]
pub struct SynthesisJob {
    pub chunks: Vec<Chunk>,
    pub workspace: Workspace,
    pub voice: String,
}

/// One synthesis call to issue: which chunk, the text and voice to hand to
/// the collaborator, and the file the returned bytes are persisted to.
#[derive(Debug)]
pub struct SynthesisRequest {
    pub index: usize,
    pub text: String,
    pub voice: String,
    pub output_path: String,
}

/// Why one chunk's dispatched unit of work failed.
#[derive(Debug, PartialEq, Eq)]
pub enum ChunkFailure {
    /// The synthesis collaborator rejected or errored on the chunk.
    Synthesis(String),
    /// The chunk's bytes could not be persisted.
    Persistence(String),
    /// The unit terminated abnormally instead of reporting a result.
    Execution(String),
}

/// The reported result of one chunk's dispatched unit of work; exactly one
/// is produced per chunk, tagged with the chunk's index.
#[derive(Debug, PartialEq, Eq)]
pub struct ChunkOutcome {
    pub index: usize,
    pub result: Result<Vec<u8>, ChunkFailure>,
}

/// Everything that can make a job fail, reported as a single error.
#[derive(Debug, PartialEq, Eq)]
pub enum JobError {
    /// A required credential is missing; fatal before any chunking occurs.
    Configuration,
    /// The input was empty after chunking; fatal, no units dispatched.
    Validation,
    /// The workspace could not be created; fatal before dispatch.
    Allocation(String),
    /// The synthesis collaborator rejected or errored on the given chunk.
    Synthesis(usize, String),
    /// The given chunk's bytes could not be written locally.
    Persistence(usize, String),
    /// The given chunk's dispatched unit terminated abnormally.
    Execution(usize, String),
    /// The final concatenation failed.
    Assembly(String),
}

} // verus!
