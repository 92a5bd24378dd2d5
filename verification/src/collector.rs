//! Collecting the per-chunk outcomes of one job.
//!
//! Completion order of the dispatched units is unspecified; the collector
//! re-orders outcomes by chunk index and applies fail-fast semantics: the
//! failure at the lowest chunk index decides the job, never the failure
//! that finished first in real time.

use vstd::prelude::*;
use crate::model::{ChunkFailure, ChunkOutcome, JobError};

verus! {

/// Some outcome in `s` is tagged with chunk index `j`.
pub open spec fn has_outcome_for(s: Seq<ChunkOutcome>, j: int) -> bool {
    exists|k: int| 0 <= k < s.len() && (#[trigger] s[k].index) == j
}

/// The outcome set is complete for `n` chunks: one outcome per chunk index,
/// the indices exactly `0 .. n` with no duplicates and no gaps.
pub open spec fn indices_complete(s: Seq<ChunkOutcome>, n: int) -> bool {
    &&& s.len() == n
    &&& forall|k: int| 0 <= k < s.len() ==> (#[trigger] s[k].index) < n
    &&& forall|k1: int, k2: int|
        #![trigger s[k1].index, s[k2].index]
        0 <= k1 < s.len() && 0 <= k2 < s.len() && k1 != k2 ==> s[k1].index != s[k2].index
    &&& forall|j: int| 0 <= j < n ==> #[trigger] has_outcome_for(s, j)
}

/// The position in `s` of the outcome for chunk `j`.
pub open spec fn outcome_pos(s: Seq<ChunkOutcome>, j: int) -> int {
    choose|k: int| 0 <= k < s.len() && s[k].index == j
}

/// The outcome reported for chunk `j`, wherever it sits in `s`.
pub open spec fn outcome_at(s: Seq<ChunkOutcome>, j: int) -> ChunkOutcome {
    s[outcome_pos(s, j)]
}

/// The job error that reports the failure of chunk `index`.
pub open spec fn failure_error(index: int, f: ChunkFailure) -> JobError {
    match f {
        ChunkFailure::Synthesis(m) => JobError::Synthesis(index as usize, m),
        ChunkFailure::Persistence(m) => JobError::Persistence(index as usize, m),
        ChunkFailure::Execution(m) => JobError::Execution(index as usize, m),
    }
}

/// The least chunk index in `t .. n` whose outcome is a failure, or `n` if
/// every outcome from `t` on succeeded.
pub open spec fn first_failed_from(s: Seq<ChunkOutcome>, n: int, t: int) -> int
    decreases n - t when t <= n
{
    if t >= n {
        n
    } else if outcome_at(s, t).result is Err {
        t
    } else {
        first_failed_from(s, n, t + 1)
    }
}

/// What collecting a complete outcome set yields: the chunk byte outputs in
/// chunk index order if every chunk succeeded, else the error of the
/// lowest-index failure.
pub open spec fn collect_spec(s: Seq<ChunkOutcome>, n: int) -> Result<Seq<Seq<u8>>, JobError> {
    let f = first_failed_from(s, n, 0);
    if f < n {
        Err(failure_error(f, outcome_at(s, f).result->Err_0))
    } else {
        Ok(Seq::new(n as nat, |j: int| outcome_at(s, j).result->Ok_0@))
    }
}

/// `first_failed_from(s, n, t)` is the least failed index at or after `t`.
proof fn lemma_first_failed_bounds(s: Seq<ChunkOutcome>, n: int, t: int)
    requires
        0 <= t <= n,
    ensures
        t <= first_failed_from(s, n, t) <= n,
        first_failed_from(s, n, t) < n ==> outcome_at(s, first_failed_from(s, n, t)).result is Err,
        forall|j: int|
            t <= j < first_failed_from(s, n, t) ==> (#[trigger] outcome_at(s, j).result) is Ok,
        forall|j: int|
            t <= j < n && (#[trigger] outcome_at(s, j).result) is Err ==> first_failed_from(
                s,
                n,
                t,
            ) <= j,
    decreases n - t,
{
    if t < n && !(outcome_at(s, t).result is Err) {
        lemma_first_failed_bounds(s, n, t + 1);
    }
}

/// Fail-fast determinism: the failure index that `collect_spec` reports is
/// the least failed index, however many chunks failed and in whatever order
/// their units finished.
pub proof fn lemma_first_failure(s: Seq<ChunkOutcome>, n: int)
    requires
        n >= 0,
    ensures
        0 <= first_failed_from(s, n, 0) <= n,
        first_failed_from(s, n, 0) < n ==> outcome_at(
            s,
            first_failed_from(s, n, 0),
        ).result is Err,
        forall|j: int|
            0 <= j < first_failed_from(s, n, 0) ==> (#[trigger] outcome_at(s, j).result) is Ok,
        forall|j: int|
            0 <= j < n && (#[trigger] outcome_at(s, j).result) is Err ==> first_failed_from(
                s,
                n,
                0,
            ) <= j,
{
    lemma_first_failed_bounds(s, n, 0);
}

/// All-or-nothing: if any chunk's outcome is a failure, collecting reports
/// an error, so no merged artifact can be produced from the result.
pub proof fn lemma_all_or_nothing(s: Seq<ChunkOutcome>, n: int, j: int)
    requires
        0 <= j < n,
        outcome_at(s, j).result is Err,
    ensures
        collect_spec(s, n) is Err,
{
    lemma_first_failed_bounds(s, n, 0);
}

/// Reports whether `outcomes` is a complete outcome set for `expected`
/// chunks: exactly one outcome per chunk index `0 .. expected`.
pub fn check_complete(outcomes: &Vec<ChunkOutcome>, expected: usize) -> (ok: bool)
    ensures
        ok == indices_complete(outcomes@, expected as int),
{
    let ghost s = outcomes@;
    if outcomes.len() != expected {
        return false;
    }
    let mut seen: Vec<bool> = Vec::new();
    let mut t: usize = 0;
    while t < expected
        invariant
            t <= expected,
            seen@.len() == t,
            forall|j: int| 0 <= j < t ==> !(#[trigger] seen@[j]),
        decreases expected - t,
    {
        seen.push(false);
        t = t + 1;
    }
    let mut k: usize = 0;
    while k < outcomes.len()
        invariant
            s == outcomes@,
            s.len() == expected,
            k <= s.len(),
            seen@.len() == expected,
            forall|k2: int| 0 <= k2 < k ==> (#[trigger] s[k2].index) < expected,
            forall|k1: int, k2: int|
                #![trigger s[k1].index, s[k2].index]
                0 <= k1 < k && 0 <= k2 < k && k1 != k2 ==> s[k1].index != s[k2].index,
            forall|j: int|
                0 <= j < expected ==> ((#[trigger] seen@[j]) <==> exists|k2: int|
                    0 <= k2 < k && (#[trigger] s[k2].index) == j),
        decreases outcomes.len() - k,
    {
        let idx = outcomes[k].index;
        if idx >= expected {
            return false;
        }
        if seen[idx] {
            return false;
        }
        seen[idx] = true;
        k = k + 1;
    }
    let mut j: usize = 0;
    while j < expected
        invariant
            s == outcomes@,
            s.len() == expected,
            j <= expected,
            seen@.len() == expected,
            forall|k2: int| 0 <= k2 < s.len() ==> (#[trigger] s[k2].index) < expected,
            forall|k1: int, k2: int|
                #![trigger s[k1].index, s[k2].index]
                0 <= k1 < s.len() && 0 <= k2 < s.len() && k1 != k2 ==> s[k1].index != s[k2].index,
            forall|j2: int|
                0 <= j2 < expected ==> ((#[trigger] seen@[j2]) <==> has_outcome_for(s, j2)),
            forall|j2: int| 0 <= j2 < j ==> #[trigger] has_outcome_for(s, j2),
        decreases expected - j,
    {
        if !seen[j] {
            return false;
        }
        j = j + 1;
    }
    true
}

/// Collects a complete set of per-chunk outcomes: waits on nothing (every
/// outcome has already arrived), re-orders by chunk index, and reports
/// either the byte outputs in chunk index order or the error of the
/// lowest-index failure — never the failure that arrived first.
pub fn collect(outcomes: Vec<ChunkOutcome>, expected: usize) -> (r: Result<Vec<Vec<u8>>, JobError>)
    requires
        indices_complete(outcomes@, expected as int),
    ensures
        r is Ok ==> collect_spec(outcomes@, expected as int) == Ok::<_, JobError>(
            r->Ok_0.deep_view(),
        ),
        r is Err ==> collect_spec(outcomes@, expected as int) == Err::<Seq<Seq<u8>>, _>(
            r->Err_0,
        ),
{
    let ghost s = outcomes@;
    let n = expected;
    let mut slots: Vec<Option<ChunkOutcome>> = Vec::new();
    let mut t: usize = 0;
    while t < n
        invariant
            t <= n,
            slots@.len() == t,
            forall|k: int| 0 <= k < t ==> (#[trigger] slots@[k]) is None,
        decreases n - t,
    {
        slots.push(None);
        t = t + 1;
    }
    let mut rest = outcomes;
    proof {
        assert(rest@ =~= s.subrange(0, rest@.len() as int));
    }
    while rest.len() > 0
        invariant
            indices_complete(s, n as int),
            rest@ == s.subrange(0, rest@.len() as int),
            rest@.len() <= s.len(),
            slots@.len() == n,
            forall|k: int|
                rest@.len() <= k < s.len() ==> slots@[#[trigger] s[k].index as int] == Some(s[k]),
            forall|j: int|
                0 <= j < n && (#[trigger] slots@[j]) is Some ==> exists|k: int|
                    rest@.len() <= k < s.len() && (#[trigger] s[k].index) == j,
        decreases rest@.len(),
    {
        let ghost c = rest@.len() as int;
        let o = rest.pop().unwrap();
        proof {
            assert(o == s[c - 1]);
            assert(s[c - 1].index < n);
            assert(rest@ =~= s.subrange(0, c - 1));
        }
        let idx = o.index;
        slots[idx] = Some(o);
        proof {
            assert forall|k: int|
                rest@.len() <= k < s.len() implies slots@[#[trigger] s[k].index as int] == Some(
                s[k],
            ) by {
                if k != c - 1 {
                    assert(s[k].index != s[c - 1].index);
                }
            }
        }
    }
    proof {
        assert forall|j: int| 0 <= j < n implies slots@[j] == Some(outcome_at(s, j)) by {
            assert(has_outcome_for(s, j));
            let k = choose|k: int| 0 <= k < s.len() && (#[trigger] s[k].index) == j;
            assert(slots@[s[k].index as int] == Some(s[k]));
            let p = outcome_pos(s, j);
            assert(0 <= p < s.len() && s[p].index == j);
            assert(p == k);
        }
    }
    let mut bytes: Vec<Vec<u8>> = Vec::new();
    let mut j: usize = 0;
    while j < n
        invariant
            s == outcomes@,
            n == expected,
            indices_complete(s, n as int),
            j <= n,
            slots@.len() == n - j,
            forall|j2: int| j <= j2 < n ==> slots@[j2 - j] == Some(outcome_at(s, j2)),
            bytes@.len() == j,
            forall|j2: int|
                0 <= j2 < j ==> (#[trigger] outcome_at(s, j2).result) is Ok && bytes.deep_view()[j2]
                    == outcome_at(s, j2).result->Ok_0@,
        decreases n - j,
    {
        let slot = slots.remove(0);
        let o = slot.unwrap();
        proof {
            assert(o == outcome_at(s, j as int));
        }
        match o.result {
            Ok(b) => {
                bytes.push(b);
            },
            Err(f) => {
                proof {
                    assert(outcome_at(s, j as int).result == Err::<Vec<u8>, ChunkFailure>(f));
                    lemma_first_failed_pinpoint(s, n as int, 0, j as int);
                    assert(first_failed_from(s, n as int, 0) == j as int);
                }
                let e = match f {
                    ChunkFailure::Synthesis(m) => JobError::Synthesis(j, m),
                    ChunkFailure::Persistence(m) => JobError::Persistence(j, m),
                    ChunkFailure::Execution(m) => JobError::Execution(j, m),
                };
                proof {
                    assert(collect_spec(s, n as int) == Err::<Seq<Seq<u8>>, JobError>(e));
                }
                return Err(e);
            },
        }
        j = j + 1;
    }
    proof {
        lemma_first_failed_pinpoint(s, n as int, 0, n as int);
        assert(bytes.deep_view() =~= Seq::new(
            n as nat,
            |j: int| outcome_at(s, j).result->Ok_0@,
        ));
    }
    Ok(bytes)
}

/// Two outcome sets that agree on the outcome of every chunk agree on every
/// first-failure scan.
proof fn lemma_first_failed_agree(o1: Seq<ChunkOutcome>, o2: Seq<ChunkOutcome>, n: int, t: int)
    requires
        0 <= t <= n,
        forall|j: int| 0 <= j < n ==> #[trigger] outcome_at(o1, j) == outcome_at(o2, j),
    ensures
        first_failed_from(o1, n, t) == first_failed_from(o2, n, t),
    decreases n - t,
{
    if t < n && !(outcome_at(o1, t).result is Err) {
        lemma_first_failed_agree(o1, o2, n, t + 1);
    }
}

/// Order independence: two complete outcome sets holding the same outcomes
/// — in whatever completion order the units delivered them — collect to the
/// same result: the same byte outputs in chunk index order, or the same
/// lowest-index failure.
pub proof fn lemma_collect_order_independent(
    o1: Seq<ChunkOutcome>,
    o2: Seq<ChunkOutcome>,
    n: int,
)
    requires
        indices_complete(o1, n),
        indices_complete(o2, n),
        o1.to_multiset() == o2.to_multiset(),
    ensures
        collect_spec(o1, n) == collect_spec(o2, n),
{
    broadcast use vstd::seq_lib::group_to_multiset_ensures;

    assert forall|j: int| 0 <= j < n implies #[trigger] outcome_at(o1, j) == outcome_at(
        o2,
        j,
    ) by {
        assert(has_outcome_for(o1, j));
        let k1 = choose|k: int| 0 <= k < o1.len() && (#[trigger] o1[k].index) == j;
        let p1 = outcome_pos(o1, j);
        assert(0 <= p1 < o1.len() && o1[p1].index == j);
        assert(outcome_at(o1, j) == o1[k1]);
        assert(o1.contains(o1[k1]));
        assert(o2.to_multiset().count(o1[k1]) > 0);
        assert(o2.contains(o1[k1]));
        let k2 = choose|k: int| 0 <= k < o2.len() && o2[k] == o1[k1];
        assert(o2[k2].index == j);
        let p2 = outcome_pos(o2, j);
        assert(has_outcome_for(o2, j));
        assert(0 <= p2 < o2.len() && o2[p2].index == j);
        assert(outcome_at(o2, j) == o1[k1]);
    }
    lemma_first_failed_agree(o1, o2, n, 0);
    lemma_first_failed_bounds(o1, n, 0);
    if first_failed_from(o1, n, 0) == n {
        assert(Seq::new(n as nat, |j: int| outcome_at(o1, j).result->Ok_0@) =~= Seq::new(
            n as nat,
            |j: int| outcome_at(o2, j).result->Ok_0@,
        ));
    }
}

/// If a failed index is reached without any earlier failure, it is the one
/// `first_failed_from` names.
proof fn lemma_first_failed_pinpoint(s: Seq<ChunkOutcome>, n: int, t: int, j: int)
    requires
        0 <= t <= j <= n,
        forall|i: int| t <= i < j ==> (#[trigger] outcome_at(s, i).result) is Ok,
        j < n ==> outcome_at(s, j).result is Err,
    ensures
        first_failed_from(s, n, t) == if j < n {
            j
        } else {
            n
        },
    decreases j - t,
{
    if t < j {
        lemma_first_failed_pinpoint(s, n, t + 1, j);
    }
}

} // verus!
