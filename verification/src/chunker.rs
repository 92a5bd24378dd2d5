//! Splitting input text into bounded-size chunks at grapheme cluster
//! boundaries.
//!
//! A chunk holds at most `max_clusters` user-perceived characters (extended
//! grapheme clusters), a boundary falls only between clusters, and the
//! chunks concatenated in order reproduce the input exactly.

use vstd::prelude::*;
use vstd::seq_lib::lemma_flatten_concat;
use unicode_segmentation::UnicodeSegmentation;

verus! {

/// The extended grapheme clusters of a character sequence, in order.
/// Which boundaries the Unicode segmentation rules choose depends on the
/// characters alone, so the clusters are a function of `s`.
pub uninterp spec fn graphemes_of(s: Seq<char>) -> Seq<Seq<char>>;

/// Relies on `unicode_segmentation::UnicodeSegmentation::graphemes`: it
/// yields the extended grapheme clusters of `s` in order, each a non-empty
/// sub-slice of `s`, and concatenating them in order gives back `s` itself.
#[verifier::external_body]
fn split_graphemes(s: &str) -> (clusters: Vec<String>)
    ensures
        clusters.deep_view() == graphemes_of(s@),
        clusters.deep_view().flatten() == s@,
        forall|i: int| 0 <= i < clusters.deep_view().len() ==> clusters.deep_view()[i].len() > 0,
{
    s.graphemes(true).map(|g| g.to_string()).collect()
}

/// The chunking of a cluster sequence: groups of `max` consecutive clusters,
/// each group joined into one chunk, with only the last group allowed to be
/// shorter than `max`.
pub open spec fn chunk_spec(gs: Seq<Seq<char>>, max: int) -> Seq<Seq<char>>
    recommends
        max >= 1,
    decreases gs.len() when max >= 1
{
    if gs.len() == 0 {
        Seq::empty()
    } else if gs.len() <= max {
        seq![gs.flatten()]
    } else {
        seq![gs.take(max).flatten()] + chunk_spec(gs.skip(max), max)
    }
}

/// Lossless partition: the chunks of `gs` concatenated in order are exactly
/// the concatenation of `gs` itself, whatever grouping size is used.
pub proof fn lemma_chunks_lossless(gs: Seq<Seq<char>>, max: int)
    requires
        max >= 1,
    ensures
        chunk_spec(gs, max).flatten() == gs.flatten(),
    decreases gs.len(),
{
    if gs.len() == 0 {
        assert(chunk_spec(gs, max).flatten() =~= gs.flatten());
    } else if gs.len() <= max {
        seq![gs.flatten()].lemma_flatten_one_element();
    } else {
        lemma_chunks_lossless(gs.skip(max), max);
        lemma_flatten_concat(seq![gs.take(max).flatten()], chunk_spec(gs.skip(max), max));
        seq![gs.take(max).flatten()].lemma_flatten_one_element();
        lemma_flatten_concat(gs.take(max), gs.skip(max));
        assert(gs.take(max) + gs.skip(max) =~= gs);
    }
}

/// The clusters that make up chunk `i`: the `i`-th group of (at most) `max`
/// consecutive clusters of `gs`.
pub open spec fn chunk_clusters(gs: Seq<Seq<char>>, max: int, i: int) -> Seq<Seq<char>> {
    gs.subrange(
        i * max,
        if i * max + max <= gs.len() {
            i * max + max
        } else {
            gs.len() as int
        },
    )
}

/// Size bound and grapheme safety: chunk `i` is exactly the `i`-th group of
/// consecutive clusters joined together. The group holds at most `max`
/// clusters, so a chunk is at most `max` user-perceived characters long, and
/// a chunk boundary falls only between clusters, never inside one.
pub proof fn lemma_chunk_is_whole_clusters(gs: Seq<Seq<char>>, max: int, i: int)
    requires
        max >= 1,
        0 <= i < chunk_spec(gs, max).len(),
    ensures
        chunk_spec(gs, max)[i] == chunk_clusters(gs, max, i).flatten(),
        1 <= chunk_clusters(gs, max, i).len() <= max,
        i < chunk_spec(gs, max).len() - 1 ==> chunk_clusters(gs, max, i).len() == max,
        0 <= i * max < gs.len(),
    decreases gs.len(),
{
    if gs.len() == 0 {
    } else if gs.len() <= max {
        assert(chunk_clusters(gs, max, 0) =~= gs);
    } else if i == 0 {
        assert(chunk_clusters(gs, max, 0) =~= gs.take(max));
    } else {
        lemma_chunk_is_whole_clusters(gs.skip(max), max, i - 1);
        let m = i * max;
        assert((i - 1) * max == m - max) by (nonlinear_arith)
            requires
                m == i * max,
        ;
        assert(m - max >= 0) by (nonlinear_arith)
            requires
                i >= 1 && max >= 1 && m == i * max,
        ;
        let inner = chunk_clusters(gs.skip(max), max, i - 1);
        assert(m - max < gs.skip(max).len());
        assert(chunk_clusters(gs, max, i).len() == inner.len());
        assert forall|k: int| 0 <= k < inner.len() implies inner[k] == chunk_clusters(
            gs,
            max,
            i,
        )[k] by {
            assert(inner[k] == gs.skip(max)[m - max + k]);
            assert(gs.skip(max)[m - max + k] == gs[m + k]);
        }
        assert(chunk_clusters(gs.skip(max), max, i - 1) =~= chunk_clusters(gs, max, i));
    }
}

/// A non-empty cluster sequence concatenates to a non-empty text.
proof fn lemma_flatten_nonempty(gs: Seq<Seq<char>>)
    requires
        gs.len() > 0,
        gs[0].len() > 0,
    ensures
        gs.flatten().len() > 0,
{
    gs.lemma_flatten_and_flatten_alt_are_equivalent();
    gs.lemma_flatten_length_ge_single_element_length(0);
}

/// Groups consecutive clusters into chunks of at most `max_clusters`
/// clusters each, joining each group into one string; only the last chunk
/// may hold fewer than `max_clusters` clusters.
pub fn group_clusters(clusters: &Vec<String>, max_clusters: usize) -> (chunks: Vec<String>)
    requires
        max_clusters >= 1,
    ensures
        chunks.deep_view() == chunk_spec(clusters.deep_view(), max_clusters as int),
{
    let ghost gsv = clusters.deep_view();
    let mut chunks: Vec<String> = Vec::new();
    let mut i: usize = 0;
    proof {
        assert(gsv.skip(0) =~= gsv);
        assert(chunks.deep_view() =~= Seq::<Seq<char>>::empty());
        assert(Seq::<Seq<char>>::empty() + chunk_spec(gsv, max_clusters as int) =~= chunk_spec(
            gsv,
            max_clusters as int,
        ));
    }
    while i < clusters.len()
        invariant
            max_clusters >= 1,
            i <= clusters.len(),
            gsv == clusters.deep_view(),
            chunks.deep_view() + chunk_spec(gsv.skip(i as int), max_clusters as int)
                == chunk_spec(gsv, max_clusters as int),
        decreases clusters.len() - i,
    {
        let ghost pre = chunks.deep_view();
        let end = if clusters.len() - i < max_clusters {
            clusters.len()
        } else {
            i + max_clusters
        };
        let mut piece = String::new();
        let mut j = i;
        while j < end
            invariant
                i <= j <= end <= clusters.len(),
                gsv == clusters.deep_view(),
                piece@ == gsv.subrange(i as int, j as int).flatten(),
            decreases end - j,
        {
            piece.append(clusters[j].as_str());
            proof {
                assert(gsv.subrange(i as int, j + 1) =~= gsv.subrange(i as int, j as int).push(
                    gsv[j as int],
                ));
                gsv.subrange(i as int, j as int).lemma_flatten_push(gsv[j as int]);
            }
            j = j + 1;
        }
        proof {
            let rest = gsv.skip(i as int);
            let max = max_clusters as int;
            if gsv.len() - i <= max {
                assert(gsv.subrange(i as int, end as int) =~= rest);
                assert(chunk_spec(rest, max) == seq![rest.flatten()]);
                assert(gsv.skip(end as int) =~= Seq::<Seq<char>>::empty());
                assert(pre.push(piece@) + chunk_spec(gsv.skip(end as int), max) =~= pre
                    + chunk_spec(rest, max));
            } else {
                assert(gsv.subrange(i as int, end as int) =~= rest.take(max));
                assert(rest.skip(max) =~= gsv.skip(end as int));
                assert(chunk_spec(rest, max) == seq![rest.take(max).flatten()] + chunk_spec(
                    gsv.skip(end as int),
                    max,
                ));
                assert(pre.push(piece@) + chunk_spec(gsv.skip(end as int), max) =~= pre
                    + chunk_spec(rest, max));
            }
        }
        let ghost pv = piece@;
        chunks.push(piece);
        proof {
            assert(chunks.deep_view() =~= pre.push(pv));
        }
        i = end;
    }
    proof {
        assert(gsv.skip(gsv.len() as int) =~= Seq::<Seq<char>>::empty());
        assert(chunks.deep_view() + Seq::<Seq<char>>::empty() =~= chunks.deep_view());
    }
    chunks
}

/// Splits `text` into the minimum number of contiguous chunks of at most
/// `chunk_size` user-perceived characters (extended grapheme clusters) each.
/// A chunk boundary falls only between grapheme clusters, and the chunks
/// joined in order reproduce `text` exactly. Empty input yields no chunks.
pub fn chunk_text(text: &str, chunk_size: usize) -> (chunks: Vec<String>)
    requires
        chunk_size >= 1,
    ensures
        chunks.deep_view() == chunk_spec(graphemes_of(text@), chunk_size as int),
        chunks.deep_view().flatten() == text@,
        chunks@.len() == 0 <==> text@.len() == 0,
{
    let clusters = split_graphemes(text);
    let chunks = group_clusters(&clusters, chunk_size);
    proof {
        let gsv = clusters.deep_view();
        lemma_chunks_lossless(gsv, chunk_size as int);
        if gsv.len() > 0 {
            lemma_flatten_nonempty(gsv);
        }
    }
    chunks
}

/// Minimality: the number of chunks is the cluster count divided by `max`,
/// rounded up, so no chunking into `max`-bounded pieces uses fewer chunks.
pub proof fn lemma_chunk_count(gs: Seq<Seq<char>>, max: int)
    requires
        max >= 1,
    ensures
        chunk_spec(gs, max).len() == (gs.len() + max - 1) / max,
    decreases gs.len(),
{
    if gs.len() == 0 {
        vstd::arithmetic::div_mod::lemma_basic_div(max - 1, max);
    } else if gs.len() <= max {
        vstd::arithmetic::div_mod::lemma_basic_div(gs.len() - 1, max);
        vstd::arithmetic::div_mod::lemma_div_plus_one(gs.len() - 1, max);
    } else {
        lemma_chunk_count(gs.skip(max), max);
        assert(gs.skip(max).len() == gs.len() - max);
        vstd::arithmetic::div_mod::lemma_div_plus_one(gs.len() - 1, max);
    }
}

} // verus!
