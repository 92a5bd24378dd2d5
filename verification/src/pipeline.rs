//! The orchestration pipeline for one synthesis job.
//!
//! `prepare_job` gates and plans the job before any concurrent work starts;
//! `plan_requests` lays out exactly one synthesis call per chunk; and
//! `finish_job` decides the job's fate from the complete set of per-chunk
//! outcomes, whatever order they arrived in.

use vstd::prelude::*;
use crate::chunker::{chunk_spec, chunk_text, graphemes_of};
use crate::collector::{collect, collect_spec, indices_complete};
use crate::assembler::assemble;
use crate::model::{Chunk, ChunkOutcome, JobError, SynthesisJob, SynthesisRequest, TimeFields, Workspace};
use crate::naming::{
    chunk_file_name, chunk_file_name_spec, local_time_fields, time_fields_valid, workspace_name,
    workspace_name_spec,
};

verus! {

/// The request payload at the boundary: the text to synthesize.
pub struct UserInput {
    pub input: String,
}

/// The texts of a chunk sequence, in order.
pub open spec fn chunk_texts(cs: Seq<Chunk>) -> Seq<Seq<char>> {
    cs.map_values(|c: Chunk| c.text@)
}

/// Each chunk's `index` is its position: the indices are exactly `0 .. len`.
pub open spec fn chunks_indexed(cs: Seq<Chunk>) -> bool {
    forall|i: int| 0 <= i < cs.len() ==> (#[trigger] cs[i].index) == i
}

/// The job's chunks are the chunking of `input` at grapheme cluster
/// boundaries with at most `max` clusters each, indexed in order, and the
/// job carries the requested voice.
pub open spec fn job_matches(job: SynthesisJob, input: Seq<char>, voice: Seq<char>, max: int) -> bool {
    &&& chunk_texts(job.chunks@) == chunk_spec(graphemes_of(input), max)
    &&& chunk_texts(job.chunks@).flatten() == input
    &&& chunks_indexed(job.chunks@)
    &&& job.chunks@.len() > 0
    &&& job.voice@ == voice
}

/// Gates the job on the required credential: a missing key is fatal before
/// any chunking occurs.
pub fn require_api_key(key: Option<String>) -> (r: Result<String, JobError>)
    ensures
        key is Some ==> r == Ok::<String, JobError>(key->0),
        key is None ==> r == Err::<String, JobError>(JobError::Configuration),
{
    match key {
        Some(k) => Ok(k),
        None => Err(JobError::Configuration),
    }
}

/// Builds the job for one request: chunks the input at grapheme cluster
/// boundaries, rejects an empty input before anything is dispatched, and
/// names the workspace from the given allocation time.
pub fn prepare_job(input: &str, voice: &str, max_chunk_size: usize, now: TimeFields) -> (r: Result<
    SynthesisJob,
    JobError,
>)
    requires
        max_chunk_size >= 1,
    ensures
        input@.len() == 0 ==> r == Err::<SynthesisJob, JobError>(JobError::Validation),
        input@.len() > 0 ==> r is Ok && job_matches(
            r->Ok_0,
            input@,
            voice@,
            max_chunk_size as int,
        ) && r->Ok_0.workspace.path@ == workspace_name_spec(now) && r->Ok_0.workspace.created
            == now,
{
    let texts = chunk_text(input, max_chunk_size);
    if texts.is_empty() {
        return Err(JobError::Validation);
    }
    let ghost tv = texts.deep_view();
    let mut rest = texts;
    let mut chunks: Vec<Chunk> = Vec::new();
    proof {
        assert(rest.deep_view() =~= tv.skip(0));
    }
    while rest.len() > 0
        invariant
            chunks@.len() + rest@.len() == tv.len(),
            rest.deep_view() == tv.skip(chunks@.len() as int),
            forall|i: int|
                0 <= i < chunks@.len() ==> (#[trigger] chunks@[i]).index == i && chunks@[i].text@
                    == tv[i],
        decreases rest@.len(),
    {
        let ghost done = chunks@.len() as int;
        let ghost rv = rest.deep_view();
        let idx = chunks.len();
        let t = rest.remove(0);
        proof {
            assert(t@ == rv[0]);
            assert(rv[0] == tv[done]);
            assert(rest.deep_view() =~= rv.skip(1));
            assert(rv.skip(1) =~= tv.skip(done + 1));
        }
        chunks.push(Chunk { index: idx, text: t });
    }
    let path = workspace_name(&now);
    let job = SynthesisJob {
        chunks,
        workspace: Workspace { path, created: now },
        voice: voice.to_owned(),
    };
    proof {
        assert(chunk_texts(job.chunks@) =~= tv);
    }
    Ok(job)
}

/// Builds the job for one request, naming the workspace from the local
/// clock at the moment of the call.
pub fn prepare_job_now(input: &str, voice: &str, max_chunk_size: usize) -> (r: Result<
    SynthesisJob,
    JobError,
>)
    requires
        max_chunk_size >= 1,
    ensures
        input@.len() == 0 ==> r == Err::<SynthesisJob, JobError>(JobError::Validation),
        input@.len() > 0 ==> r is Ok && job_matches(
            r->Ok_0,
            input@,
            voice@,
            max_chunk_size as int,
        ) && time_fields_valid(r->Ok_0.workspace.created) && r->Ok_0.workspace.path@
            == workspace_name_spec(r->Ok_0.workspace.created),
{
    let now = local_time_fields();
    prepare_job(input, voice, max_chunk_size, now)
}

/// Lays out the dispatch: exactly one synthesis request per chunk, in chunk
/// order, each carrying that chunk's own text, the job's voice, and the
/// chunk-specific file its bytes are persisted to.
pub fn plan_requests(job: &SynthesisJob) -> (reqs: Vec<SynthesisRequest>)
    requires
        chunks_indexed(job.chunks@),
    ensures
        reqs@.len() == job.chunks@.len(),
        forall|i: int|
            0 <= i < reqs@.len() ==> {
                let rq = #[trigger] reqs@[i];
                &&& rq.index == i
                &&& rq.text@ == job.chunks@[i].text@
                &&& rq.voice@ == job.voice@
                &&& rq.output_path@ == chunk_file_name_spec(job.workspace.path@, i)
            },
{
    let mut reqs: Vec<SynthesisRequest> = Vec::new();
    let mut i: usize = 0;
    while i < job.chunks.len()
        invariant
            chunks_indexed(job.chunks@),
            i <= job.chunks@.len(),
            reqs@.len() == i,
            forall|k: int|
                0 <= k < reqs@.len() ==> {
                    let rq = #[trigger] reqs@[k];
                    &&& rq.index == k
                    &&& rq.text@ == job.chunks@[k].text@
                    &&& rq.voice@ == job.voice@
                    &&& rq.output_path@ == chunk_file_name_spec(job.workspace.path@, k)
                },
        decreases job.chunks@.len() - i,
    {
        let c = &job.chunks[i];
        let path = chunk_file_name(job.workspace.path.as_str(), c.index);
        reqs.push(
            SynthesisRequest {
                index: c.index,
                text: c.text.clone(),
                voice: job.voice.clone(),
                output_path: path,
            },
        );
        i = i + 1;
    }
    reqs
}

/// Decides one job's fate from the complete set of per-chunk outcomes:
/// either every chunk succeeded and the result is their byte outputs merged
/// in chunk index order, or the job fails with the lowest-index failure —
/// and with no merged artifact in that case.
pub fn finish_job(outcomes: Vec<ChunkOutcome>, expected: usize) -> (r: Result<Vec<u8>, JobError>)
    requires
        indices_complete(outcomes@, expected as int),
    ensures
        r is Ok ==> expected > 0 && collect_spec(outcomes@, expected as int) is Ok && r->Ok_0@
            == collect_spec(outcomes@, expected as int)->Ok_0.flatten(),
        r is Err ==> collect_spec(outcomes@, expected as int) == Err::<Seq<Seq<u8>>, JobError>(
            r->Err_0,
        ) || (expected == 0 && (r->Err_0 matches JobError::Assembly(m) && m@
            == "no chunk outputs to merge"@)),
{
    match collect(outcomes, expected) {
        Ok(parts) => {
            proof {
                assert(parts.deep_view().len() == expected as int);
                assert(parts@.len() == expected as int);
            }
            match assemble(&parts) {
                Ok(merged) => Ok(merged),
                Err(e) => Err(e),
            }
        },
        Err(e) => Err(e),
    }
}

} // verus!
