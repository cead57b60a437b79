//! What follows a search: documents are attached to hits, and results under
//! the threshold are dropped.

use vstd::prelude::*;

use crate::float::{at_least, embedding_to_bytes, finite, is_at_least, is_finite, le_bytes_of};
use crate::reply::Reply;
use crate::response::{
    hits_view, outcome_view, parse_response_generic, search_outcome, Fault, Hit, HitView,
    ResponseError,
};

verus! {

/// The query embedding holds an infinity or what is not a number.
pub struct NonFiniteEmbedding;

impl NonFiniteEmbedding {
    /// The message of the error.
    pub fn message(&self) -> (text: &'static str)
        ensures
            text@ == "query embedding contains non-finite (NaN/Inf) values"@,
    {
        "query embedding contains non-finite (NaN/Inf) values"
    }
}

/// Whether all numbers of a vector are finite.
pub open spec fn all_finite(doubles: Seq<u64>) -> bool {
    forall|i: int| 0 <= i < doubles.len() ==> is_finite(#[trigger] doubles[i])
}

/// The query embedding for `FT.SEARCH`: `doubles` are the patterns of the
/// 64-bit floats that the model gave, `singles` those of the same numbers as
/// 32-bit floats.
pub fn embed_query(doubles: &Vec<u64>, singles: &Vec<u32>) -> (bytes: Result<
    Vec<u8>,
    NonFiniteEmbedding,
>)
    ensures
        bytes is Ok <==> forall|i: int| 0 <= i < doubles@.len() ==> is_finite(#[trigger] doubles@[i]),
        bytes is Ok <==> all_finite(doubles@),
        bytes matches Ok(bytes) ==> bytes@ == le_bytes_of(singles@),
{
    for i in 0..doubles.len()
        invariant
            forall|j: int| 0 <= j < i ==> is_finite(#[trigger] doubles@[j]),
    {
        if !finite(doubles[i]) {
            return Err(NonFiniteEmbedding);
        }
    }
    Ok(embedding_to_bytes(singles))
}

/// The hits that have a document.
pub open spec fn with_documents(hits: Seq<HitView>) -> Seq<HitView> {
    hits.filter(|hit: HitView| hit.document.len() > 0)
}

/// What a search for documents finds in a reply.
pub open spec fn documents_outcome(response: Reply) -> Result<Seq<HitView>, Fault> {
    match search_outcome(true, response) {
        Ok(hits) => Ok(with_documents(hits)),
        Err(fault) => Err(fault),
    }
}

/// Parses a reply to a search for documents. A hit whose document is missing
/// or empty is left out.
pub fn parse_search_response<'a>(response: &'a Reply) -> (result: Result<
    Vec<Hit>,
    ResponseError<'a>,
>)
    ensures
        outcome_view(result) == documents_outcome(*response),
{
    let hits = match parse_response_generic(response, true) {
        Ok(hits) => hits,
        Err(error) => {
            return Err(error);
        },
    };
    let ghost all = hits@;
    let mut kept: Vec<Hit> = Vec::new();
    proof {
        reveal(Seq::filter);
        assert(hits_view(kept@) =~= with_documents(hits_view(all.take(0))));
    }
    for hit in it: hits
        invariant
            it.seq() == all,
            hits_view(kept@) == with_documents(hits_view(all.take(it.index()))),
    {
        let ghost before = hits_view(kept@);
        proof {
            reveal(Seq::filter);
            let shown = hits_view(all.take(it.index() + 1));
            assert(shown.drop_last() =~= hits_view(all.take(it.index())));
            assert(shown.last() == hit@);
        }
        if !hit.document.as_str().is_empty() {
            kept.push(hit);
            assert(hits_view(kept@) =~= before.push(hit@));
        }
    }
    assert(all.take(all.len() as int) =~= all);
    Ok(kept)
}

/// What the identifiers and distances of hits say.
pub open spec fn ids_of(hits: Seq<HitView>) -> Seq<(u64, Seq<char>)> {
    hits.map_values(|hit: HitView| (hit.distance, hit.id))
}

/// What scored identifiers say.
pub open spec fn ids_view(ids: Seq<(u64, String)>) -> Seq<(u64, Seq<char>)> {
    ids.map_values(|entry: (u64, String)| (entry.0, entry.1@))
}

/// What a search for identifiers finds in a reply.
pub open spec fn ids_outcome(response: Reply) -> Result<Seq<(u64, Seq<char>)>, Fault> {
    match search_outcome(false, response) {
        Ok(hits) => Ok(ids_of(hits)),
        Err(fault) => Err(fault),
    }
}

/// Parses a reply to a search for identifiers: distances and keys.
pub fn parse_search_response_ids<'a>(response: &'a Reply) -> (result: Result<
    Vec<(u64, String)>,
    ResponseError<'a>,
>)
    ensures
        match result {
            Ok(ids) => ids_outcome(*response) == Ok::<_, Fault>(ids_view(ids@)),
            Err(error) => ids_outcome(*response) == Err::<Seq<(u64, Seq<char>)>, _>(error@),
        },
{
    let hits = match parse_response_generic(response, false) {
        Ok(hits) => hits,
        Err(error) => {
            return Err(error);
        },
    };
    let ghost all = hits@;
    let mut ids: Vec<(u64, String)> = Vec::new();
    for hit in it: hits
        invariant
            it.seq() == all,
            ids_view(ids@) == ids_of(hits_view(all.take(it.index()))),
    {
        let ghost before = ids_view(ids@);
        let ghost found = (hit.distance, hit.id@);
        ids.push((hit.distance, hit.id));
        proof {
            assert(ids_view(ids@) =~= before.push(found));
            assert(all.take(it.index() + 1) =~= all.take(it.index()).push(hit));
            assert(ids_of(hits_view(all.take(it.index() + 1))) =~= before.push(found));
        }
    }
    assert(all.take(all.len() as int) =~= all);
    Ok(ids)
}

/// What results with documents say.
pub open spec fn results_view<T>(results: Seq<(u64, String, T)>) -> Seq<(u64, Seq<char>, T)> {
    results.map_values(|result: (u64, String, T)| (result.0, result.1@, result.2))
}

/// The results of hits whose document could be read.
pub open spec fn readable<T>(hits: Seq<(Hit, Option<T>)>) -> Seq<(u64, Seq<char>, T)>
    decreases hits.len(),
{
    if hits.len() == 0 {
        seq![]
    } else {
        match hits.last().1 {
            Some(document) => readable(hits.drop_last()).push(
                (hits.last().0.distance, hits.last().0.id@, document),
            ),
            None => readable(hits.drop_last()),
        }
    }
}

/// Attaches to each hit the document that its JSON was read as. A hit whose
/// JSON could not be read is left out.
pub fn attach_documents<T>(hits: Vec<(Hit, Option<T>)>) -> (results: Vec<(u64, String, T)>)
    ensures
        results_view(results@) == readable(hits@),
{
    let ghost all = hits@;
    let mut results: Vec<(u64, String, T)> = Vec::new();
    assert(results_view(results@) =~= seq![]);
    for entry in it: hits
        invariant
            it.seq() == all,
            results_view(results@) == readable(all.take(it.index())),
    {
        let ghost before = results_view(results@);
        proof {
            assert(all.take(it.index() + 1).drop_last() =~= all.take(it.index()));
            assert(all.take(it.index() + 1).last() == entry);
        }
        let (hit, document) = entry;
        if let Some(document) = document {
            results.push((hit.distance, hit.id, document));
            assert(results_view(results@) =~= before.push((hit.distance, hit.id@, document)));
        }
    }
    assert(all.take(all.len() as int) =~= all);
    results
}

/// Whether a score is not under the threshold, if there is one.
pub open spec fn passes(score: u64, threshold: Option<u64>) -> bool {
    match threshold {
        Some(threshold) => is_at_least(score, threshold),
        None => true,
    }
}

fn is_kept(score: u64, threshold: Option<u64>) -> (kept: bool)
    ensures
        kept == passes(score, threshold),
{
    match threshold {
        Some(threshold) => at_least(score, threshold),
        None => true,
    }
}

/// The results that are not under the threshold.
pub open spec fn above<T>(
    results: Seq<(u64, Seq<char>, T)>,
    threshold: Option<u64>,
) -> Seq<(u64, Seq<char>, T)> {
    results.filter(|result: (u64, Seq<char>, T)| passes(result.0, threshold))
}

/// The scored identifiers that are not under the threshold.
pub open spec fn ids_above(
    ids: Seq<(u64, Seq<char>)>,
    threshold: Option<u64>,
) -> Seq<(u64, Seq<char>)> {
    ids.filter(|entry: (u64, Seq<char>)| passes(entry.0, threshold))
}

/// The results of a search for documents: of the scored documents, in their
/// order, those that are not under the threshold.
pub fn top_n<T>(scored: Vec<(u64, String, T)>, threshold: Option<u64>) -> (results: Vec<
    (u64, String, T),
>)
    ensures
        results_view(results@) == above(results_view(scored@), threshold),
{
    let ghost all = scored@;
    let mut results: Vec<(u64, String, T)> = Vec::new();
    proof {
        reveal(Seq::filter);
        assert(results_view(results@) =~= above(results_view(all.take(0)), threshold));
    }
    for result in it: scored
        invariant
            it.seq() == all,
            results_view(results@) == above(results_view(all.take(it.index())), threshold),
    {
        let ghost before = results_view(results@);
        proof {
            reveal(Seq::filter);
            let shown = results_view(all.take(it.index() + 1));
            assert(shown.drop_last() =~= results_view(all.take(it.index())));
            assert(shown.last() == (result.0, result.1@, result.2));
        }
        if is_kept(result.0, threshold) {
            results.push(result);
            assert(results_view(results@) =~= before.push((result.0, result.1@, result.2)));
        }
    }
    assert(all.take(all.len() as int) =~= all);
    results
}

/// The results of a search for identifiers: of the scored identifiers, in
/// their order, those that are not under the threshold.
pub fn top_n_ids(scored: Vec<(u64, String)>, threshold: Option<u64>) -> (results: Vec<
    (u64, String),
>)
    ensures
        ids_view(results@) == ids_above(ids_view(scored@), threshold),
{
    let ghost all = scored@;
    let mut results: Vec<(u64, String)> = Vec::new();
    proof {
        reveal(Seq::filter);
        assert(ids_view(results@) =~= ids_above(ids_view(all.take(0)), threshold));
    }
    for result in it: scored
        invariant
            it.seq() == all,
            ids_view(results@) == ids_above(ids_view(all.take(it.index())), threshold),
    {
        let ghost before = ids_view(results@);
        proof {
            reveal(Seq::filter);
            let shown = ids_view(all.take(it.index() + 1));
            assert(shown.drop_last() =~= ids_view(all.take(it.index())));
            assert(shown.last() == (result.0, result.1@));
        }
        if is_kept(result.0, threshold) {
            results.push(result);
            assert(ids_view(results@) =~= before.push((result.0, result.1@)));
        }
    }
    assert(all.take(all.len() as int) =~= all);
    results
}

} // verus!
