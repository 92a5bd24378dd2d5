use tts_pipeline::assembler::assemble;
use tts_pipeline::model::{ChunkFailure, ChunkOutcome, JobError, TimeFields};
use tts_pipeline::pipeline::{finish_job, plan_requests, prepare_job, prepare_job_now, require_api_key};

fn noon() -> TimeFields {
    TimeFields { year: 2025, month: 3, day: 21, hour: 12, minute: 25 }
}

fn ok(index: usize, bytes: &[u8]) -> ChunkOutcome {
    ChunkOutcome { index, result: Ok(bytes.to_vec()) }
}

#[test]
fn missing_credential_is_fatal() {
    assert_eq!(require_api_key(None), Err(JobError::Configuration));
    assert_eq!(
        require_api_key(Some("a-key".to_string())),
        Ok("a-key".to_string())
    );
}

#[test]
fn empty_input_is_rejected_before_dispatch() {
    let r = prepare_job("", "onyx", 4096, noon());
    assert_eq!(r.unwrap_err(), JobError::Validation);
}

#[test]
fn job_carries_chunks_workspace_and_voice() {
    let job = prepare_job("hello world", "onyx", 4, noon()).unwrap();
    assert_eq!(job.voice, "onyx");
    assert_eq!(job.workspace.path, "2025-03-21-12:25");
    let texts: Vec<&str> = job.chunks.iter().map(|c| c.text.as_str()).collect();
    assert_eq!(texts, vec!["hell", "o wo", "rld"]);
    for (i, c) in job.chunks.iter().enumerate() {
        assert_eq!(c.index, i);
    }
}

#[test]
fn one_request_per_chunk_with_its_own_text() {
    let job = prepare_job("abcdef", "onyx", 3, noon()).unwrap();
    let reqs = plan_requests(&job);
    assert_eq!(reqs.len(), 2);
    assert_eq!(reqs[0].index, 0);
    assert_eq!(reqs[0].text, "abc");
    assert_eq!(reqs[0].voice, "onyx");
    assert_eq!(reqs[0].output_path, "2025-03-21-12:25/speech-chunk-1.mp3");
    assert_eq!(reqs[1].index, 1);
    assert_eq!(reqs[1].text, "def");
    assert_eq!(reqs[1].voice, "onyx");
    assert_eq!(reqs[1].output_path, "2025-03-21-12:25/speech-chunk-2.mp3");
}

#[test]
fn merged_artifact_is_ordered_concatenation() {
    // 10,000 characters chunk into three pieces; the three stub outputs are
    // merged in chunk order, byte for byte.
    let input: String = "abcdefghij".repeat(1000);
    let job = prepare_job(&input, "onyx", 4096, noon()).unwrap();
    assert_eq!(job.chunks.len(), 3);
    let outcomes = vec![ok(0, b"A"), ok(1, b"B"), ok(2, b"C")];
    let merged = finish_job(outcomes, 3).unwrap();
    assert_eq!(merged, b"ABC".to_vec());
}

#[test]
fn assembly_ignores_completion_order() {
    let late_first = vec![ok(2, b"C"), ok(0, b"A"), ok(1, b"B")];
    let merged = finish_job(late_first, 3).unwrap();
    assert_eq!(merged, b"ABC".to_vec());
}

#[test]
fn one_failed_chunk_fails_the_whole_job() {
    // Three chunks; synthesis fails only for chunk index 1. The job reports
    // that failure and produces no merged artifact.
    let outcomes = vec![
        ok(0, b"A"),
        ChunkOutcome {
            index: 1,
            result: Err(ChunkFailure::Synthesis("collaborator said no".to_string())),
        },
        ok(2, b"C"),
    ];
    let r = finish_job(outcomes, 3);
    assert_eq!(
        r,
        Err(JobError::Synthesis(1, "collaborator said no".to_string()))
    );
}

#[test]
fn clock_named_workspace_has_the_expected_shape() {
    let job = prepare_job_now("hello", "onyx", 4096).unwrap();
    // YYYY-MM-DD-HH:MM for any current date.
    let name = job.workspace.path;
    let bytes: Vec<char> = name.chars().collect();
    assert_eq!(bytes.len(), 16);
    assert_eq!(bytes[4], '-');
    assert_eq!(bytes[7], '-');
    assert_eq!(bytes[10], '-');
    assert_eq!(bytes[13], ':');
    for (i, c) in bytes.iter().enumerate() {
        if ![4, 7, 10, 13].contains(&i) {
            assert!(c.is_ascii_digit());
        }
    }
    assert_eq!(job.chunks.len(), 1);
    assert_eq!(job.chunks[0].text, "hello");
}

#[test]
fn assemble_concatenates_in_order() {
    let parts = vec![b"A".to_vec(), b"B".to_vec(), b"C".to_vec()];
    assert_eq!(assemble(&parts).unwrap(), b"ABC".to_vec());
}

#[test]
fn assemble_rejects_nothing_to_merge() {
    let parts: Vec<Vec<u8>> = Vec::new();
    let err = assemble(&parts).unwrap_err();
    assert!(matches!(err, JobError::Assembly(_)));
}
