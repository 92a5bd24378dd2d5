//! Assembling ordered chunk outputs into one merged artifact.
//!
//! The merge is a raw stream concatenation, byte for byte, with no
//! reframing, header rewriting, or metadata stripping: valid per-chunk
//! streams of one codec family concatenated this way are accepted by common
//! decoders, and this approximation is an explicit contract of the system.

use vstd::prelude::*;
use crate::model::JobError;

verus! {

/// Concatenates the chunk byte outputs, in the order given, into one merged
/// artifact. Fails exactly when there is nothing to merge.
pub fn assemble(parts: &Vec<Vec<u8>>) -> (r: Result<Vec<u8>, JobError>)
    ensures
        r is Ok <==> parts@.len() > 0,
        r is Ok ==> r->Ok_0@ == parts.deep_view().flatten(),
        r is Err ==> (r->Err_0 matches JobError::Assembly(m) && m@ == "no chunk outputs to merge"@),
{
    if parts.len() == 0 {
        return Err(JobError::Assembly("no chunk outputs to merge".to_owned()));
    }
    let ghost pv = parts.deep_view();
    let mut merged: Vec<u8> = Vec::new();
    let mut i: usize = 0;
    proof {
        assert(pv.take(0) =~= Seq::<Seq<u8>>::empty());
        assert(merged@ =~= pv.take(0).flatten());
    }
    while i < parts.len()
        invariant
            pv == parts.deep_view(),
            pv.len() == parts@.len(),
            i <= parts@.len(),
            merged@ == pv.take(i as int).flatten(),
        decreases parts@.len() - i,
    {
        merged.extend_from_slice(parts[i].as_slice());
        proof {
            assert(parts@[i as int]@ == pv[i as int]);
            assert(pv.take(i + 1) =~= pv.take(i as int).push(pv[i as int]));
            pv.take(i as int).lemma_flatten_push(pv[i as int]);
        }
        i = i + 1;
    }
    proof {
        assert(pv.take(pv.len() as int) =~= pv);
    }
    Ok(merged)
}

} // verus!
