//! Laws of what follows a search: results keep the order of the reply, and nothing
//! but what must be is left out.

use vstd::prelude::*;

use crate::insert::metadata_value;
use crate::json::JsonValue;
use crate::float::is_at_least;
use crate::notice::{
    dropped, has_score, has_textless, is_scored, noticed, resp2_rows, resp3_rows, skipped, textless,
    textless_resp2, told, told_of_rows, unscored, unscored_resp2, unscored_resp3,
    without_documents, first_fault, Notice,
};
use crate::reply::{string_of, Reply};
use crate::response::{
    in_pairs, resp2_entries, resp2_entry, resp3_entries, resp3_entry, results_of, search_outcome,
    Fault, Hit, HitView,
};
use crate::search::{
    above, documents_outcome, ids_above, ids_of, ids_outcome, ids_view, passes, readable,
    results_view, with_documents,
};

verus! {

/// Results and identifiers are seen as they are, each in its place.
pub proof fn results_keep_their_places<T>(
    results: Seq<(u64, String, T)>,
    ids: Seq<(u64, String)>,
    hits: Seq<HitView>,
    i: int,
)
    ensures
        results_view(results).len() == results.len(),
        0 <= i < results.len() ==> results_view(results)[i] == (
            results[i].0,
            results[i].1@,
            results[i].2,
        ),
        ids_view(ids).len() == ids.len(),
        0 <= i < ids.len() ==> ids_view(ids)[i] == (ids[i].0, ids[i].1@),
        ids_of(hits).len() == hits.len(),
        0 <= i < hits.len() ==> ids_of(hits)[i] == (hits[i].distance, hits[i].id),
{
}

/// Documents are attached in order: the results of two lists of hits are those of
/// the first and then those of the second. A hit with a document is one result, its
/// distance, key and document; one without gives none.
pub proof fn documents_are_attached_in_order<T>(
    left: Seq<(Hit, Option<T>)>,
    right: Seq<(Hit, Option<T>)>,
    hit: Hit,
    document: T,
)
    ensures
        readable(left + right) == readable(left) + readable(right),
        readable(seq![(hit, Some(document))]) == seq![(hit.distance, hit.id@, document)],
        readable(seq![(hit, None::<T>)]) == Seq::<(u64, Seq<char>, T)>::empty(),
    decreases right.len(),
{
    let kept = seq![(hit, Some(document))];
    let lost = seq![(hit, None::<T>)];
    assert(kept.drop_last().len() == 0 && lost.drop_last().len() == 0);
    assert(kept.last() == (hit, Some(document)) && lost.last() == (hit, None::<T>));
    assert(readable(kept.drop_last()) =~= seq![]);
    assert(readable(lost.drop_last()) =~= seq![]);
    assert(readable(kept) =~= seq![(hit.distance, hit.id@, document)]);
    if right.len() == 0 {
        assert(left + right =~= left);
        assert(readable(left) + readable(right) =~= readable(left));
    } else {
        documents_are_attached_in_order(left, right.drop_last(), hit, document);
        assert((left + right).drop_last() =~= left + right.drop_last());
        assert(readable(left + right) =~= readable(left) + readable(right));
    }
}

/// Where every hit has a document, result `i` is hit `i` with its document, so
/// results stay nearest first.
pub proof fn every_readable_hit_keeps_its_place<T>(hits: Seq<(Hit, Option<T>)>, i: int)
    requires
        forall|j: int| 0 <= j < hits.len() ==> (#[trigger] hits[j]).1 is Some,
    ensures
        readable(hits).len() == hits.len(),
        0 <= i < hits.len() ==> readable(hits)[i] == (
            hits[i].0.distance,
            hits[i].0.id@,
            hits[i].1.unwrap(),
        ),
    decreases hits.len(),
{
    if hits.len() > 0 {
        let front = hits.drop_last();
        assert forall|j: int| 0 <= j < front.len() implies (#[trigger] front[j]).1 is Some by {
            assert(front[j] == hits[j]);
        }
        every_readable_hit_keeps_its_place(front, i);
        assert(hits[hits.len() - 1].1 is Some);
        if 0 <= i < front.len() {
            assert(front[i] == hits[i]);
        }
    }
}

/// Of two readable hits, the earlier one has the earlier result.
pub proof fn earlier_hits_have_earlier_results<T>(hits: Seq<(Hit, Option<T>)>, i: int, j: int)
    requires
        0 <= i < j < hits.len(),
        hits[i].1 is Some,
        hits[j].1 is Some,
    ensures
        ({
            let a = readable(hits.take(i)).len() as int;
            let b = readable(hits.take(j)).len() as int;
            let results = readable(hits);
            &&& a < b < results.len()
            &&& results[a] == (hits[i].0.distance, hits[i].0.id@, hits[i].1.unwrap())
            &&& results[b] == (hits[j].0.distance, hits[j].0.id@, hits[j].1.unwrap())
        }),
{
    let d = hits[i].1.unwrap();
    let e = hits[j].1.unwrap();
    let before = hits.take(i);
    let one = seq![hits[i]];
    let between = hits.subrange(i + 1, j);
    let other = seq![hits[j]];
    let after = hits.skip(j + 1);
    assert(hits.take(j) =~= before + one + between);
    assert(hits =~= before + one + between + other + after);
    assert(one =~= seq![(hits[i].0, Some(d))]);
    assert(other =~= seq![(hits[j].0, Some(e))]);
    documents_are_attached_in_order(before, one, hits[i].0, d);
    documents_are_attached_in_order(before + one, between, hits[i].0, d);
    documents_are_attached_in_order(before + one + between, other, hits[j].0, e);
    documents_are_attached_in_order(before + one + between + other, after, hits[j].0, e);
}

/// Hits with a document, and those without, are taken in order.
pub proof fn hits_are_taken_in_order(left: Seq<HitView>, right: Seq<HitView>, hit: HitView)
    ensures
        with_documents(left + right) == with_documents(left) + with_documents(right),
        with_documents(seq![hit]) == if hit.document.len() == 0 {
            seq![]
        } else {
            seq![hit]
        },
        without_documents(left + right) == without_documents(left) + without_documents(right),
        without_documents(seq![hit]) == if hit.document.len() == 0 {
            seq![hit]
        } else {
            seq![]
        },
    decreases right.len(),
{
    reveal(Seq::filter);
    let one = seq![hit];
    assert(one.drop_last().len() == 0 && one.last() == hit);
    assert(with_documents(one.drop_last()) =~= seq![]);
    assert(without_documents(one.drop_last()) =~= seq![]);
    if hit.document.len() == 0 {
        assert(without_documents(one) =~= one);
    } else {
        assert(with_documents(one) =~= one);
    }
    if right.len() == 0 {
        assert(left + right =~= left);
        assert(with_documents(left) + with_documents(right) =~= with_documents(left));
        assert(without_documents(left) + without_documents(right) =~= without_documents(left));
    } else {
        hits_are_taken_in_order(left, right.drop_last(), hit);
        assert((left + right).drop_last() =~= left + right.drop_last());
        assert(with_documents(left + right) =~= with_documents(left) + with_documents(right));
        assert(without_documents(left + right) =~= without_documents(left) + without_documents(
            right,
        ));
    }
}

/// A search for documents finds the hits of the reply that have one, and a search
/// for identifiers all of them; a fault is the fault of both. The dropped ones are
/// those that have none.
pub proof fn outcomes_come_from_the_reply(response: Reply)
    ensures
        documents_outcome(response) == match search_outcome(true, response) {
            Ok(hits) => Ok::<Seq<HitView>, Fault>(with_documents(hits)),
            Err(fault) => Err(fault),
        },
        ids_outcome(response) == match search_outcome(false, response) {
            Ok(hits) => Ok::<Seq<(u64, Seq<char>)>, Fault>(ids_of(hits)),
            Err(fault) => Err(fault),
        },
        match search_outcome(true, response) {
            Ok(hits) => dropped(response).len() == without_documents(hits).len() && forall|i: int|
                0 <= i < without_documents(hits).len() ==> #[trigger] dropped(response)[i]
                    == without_documents(hits)[i].id,
            Err(_) => dropped(response).len() == 0,
        },
{
}

/// A threshold keeps the order: what is kept of two lists is what is kept of the
/// first and then of the second. One result is kept exactly if there is no
/// threshold or its score is at least the threshold.
pub proof fn thresholds_keep_the_order<T>(
    left: Seq<(u64, Seq<char>, T)>,
    right: Seq<(u64, Seq<char>, T)>,
    one: (u64, Seq<char>, T),
    threshold: Option<u64>,
)
    ensures
        above(left + right, threshold) == above(left, threshold) + above(right, threshold),
        above(seq![one], threshold) == if threshold matches Some(least) && !is_at_least(
            one.0,
            least,
        ) {
            seq![]
        } else {
            seq![one]
        },
    decreases right.len(),
{
    reveal(Seq::filter);
    assert(seq![one].drop_last().len() == 0 && seq![one].last() == one);
    assert(above(seq![one].drop_last(), threshold) =~= seq![]);
    if passes(one.0, threshold) {
        assert(above(seq![one], threshold) =~= seq![one]);
    }
    if right.len() == 0 {
        assert(left + right =~= left);
        assert(above(left, threshold) + above(right, threshold) =~= above(left, threshold));
    } else {
        thresholds_keep_the_order(left, right.drop_last(), one, threshold);
        assert((left + right).drop_last() =~= left + right.drop_last());
        assert(above(left + right, threshold) =~= above(left, threshold) + above(right, threshold));
    }
}

/// So it does of identifiers.
pub proof fn id_thresholds_keep_the_order(
    left: Seq<(u64, Seq<char>)>,
    right: Seq<(u64, Seq<char>)>,
    one: (u64, Seq<char>),
    threshold: Option<u64>,
)
    ensures
        ids_above(left + right, threshold) == ids_above(left, threshold) + ids_above(
            right,
            threshold,
        ),
        ids_above(seq![one], threshold) == if threshold matches Some(least) && !is_at_least(
            one.0,
            least,
        ) {
            seq![]
        } else {
            seq![one]
        },
    decreases right.len(),
{
    reveal(Seq::filter);
    assert(seq![one].drop_last().len() == 0 && seq![one].last() == one);
    assert(ids_above(seq![one].drop_last(), threshold) =~= seq![]);
    if passes(one.0, threshold) {
        assert(ids_above(seq![one], threshold) =~= seq![one]);
    }
    if right.len() == 0 {
        assert(left + right =~= left);
        assert(ids_above(left, threshold) + ids_above(right, threshold) =~= ids_above(
            left,
            threshold,
        ));
    } else {
        id_thresholds_keep_the_order(left, right.drop_last(), one, threshold);
        assert((left + right).drop_last() =~= left + right.drop_last());
        assert(ids_above(left + right, threshold) =~= ids_above(left, threshold) + ids_above(
            right,
            threshold,
        ));
    }
}

/// The fields that a document has no scalar for are told in order.
pub proof fn skipped_fields_are_told_in_order(
    json: JsonValue,
    left: Seq<Seq<char>>,
    right: Seq<Seq<char>>,
    field: Seq<char>,
)
    ensures
        skipped(json, left + right) == skipped(json, left) + skipped(json, right),
        skipped(json, seq![field]) == if metadata_value(json, field) is None {
            seq![field]
        } else {
            seq![]
        },
    decreases right.len(),
{
    reveal(Seq::filter);
    assert(seq![field].drop_last().len() == 0 && seq![field].last() == field);
    assert(skipped(json, seq![field].drop_last()) =~= seq![]);
    if metadata_value(json, field) is None {
        assert(skipped(json, seq![field]) =~= seq![field]);
    }
    if right.len() == 0 {
        assert(left + right =~= left);
        assert(skipped(json, left) + skipped(json, right) =~= skipped(json, left));
    } else {
        skipped_fields_are_told_in_order(json, left, right.drop_last(), field);
        assert((left + right).drop_last() =~= left + right.drop_last());
        assert(skipped(json, left + right) =~= skipped(json, left) + skipped(json, right));
    }
}

/// A hit has no score if no field of it is called so; its document is no text if a
/// field called `document` holds none.
pub proof fn notices_go_by_names(
    fields: Seq<(Reply, Reply)>,
    pairs: Seq<(Reply, Reply)>,
    flat: (Reply, Reply),
    mapped: Reply,
)
    ensures
        has_score(fields) <==> exists|i: int|
            0 <= i < fields.len() && string_of((#[trigger] fields[i]).0) == Some(
                "__vector_score"@,
            ),
        has_textless(fields) <==> exists|i: int|
            0 <= i < fields.len() && string_of((#[trigger] fields[i]).0) == Some("document"@)
                && string_of(fields[i].1) is None,
        is_scored(pairs) <==> exists|i: int|
            0 <= i < pairs.len() && string_of((#[trigger] pairs[i]).0) == Some("extra_attributes"@)
                && (pairs[i].1 matches Reply::Pairs(inner) && has_score(inner@)),
        unscored_resp2(flat) == match (string_of(flat.0), flat.1) {
            (Some(id), Reply::Array(list)) if !has_score(in_pairs(list@)) => Some(id),
            _ => None::<Seq<char>>,
        },
        textless_resp2(flat) == match (string_of(flat.0), flat.1) {
            (Some(id), Reply::Array(list)) if has_textless(in_pairs(list@)) => Some(id),
            _ => None::<Seq<char>>,
        },
        noticed(Notice::MissingScore, flat) == unscored_resp2(flat),
        noticed(Notice::TextlessDocument, flat) == textless_resp2(flat),
        unscored_resp3(mapped) == match (mapped, resp3_entry(false, mapped)) {
            (Reply::Pairs(inner), Ok(Some(hit))) if !is_scored(inner@) => Some(hit.id),
            _ => None::<Seq<char>>,
        },
{
    if is_scored(pairs) {
        let i = choose|i: int|
            0 <= i < pairs.len() && crate::notice::is_scored_pair(#[trigger] pairs[i]);
        assert(string_of(pairs[i].0) == Some("extra_attributes"@));
    }
    if exists|i: int|
        0 <= i < pairs.len() && string_of((#[trigger] pairs[i]).0) == Some("extra_attributes"@) && (
        pairs[i].1 matches Reply::Pairs(inner) && has_score(inner@)) {
        let i = choose|i: int|
            0 <= i < pairs.len() && string_of((#[trigger] pairs[i]).0) == Some("extra_attributes"@)
                && (pairs[i].1 matches Reply::Pairs(inner) && has_score(inner@));
        assert(crate::notice::is_scored_pair(pairs[i]));
    }
}

/// Whether an entry was read without a fault.
pub open spec fn is_read(entry: Result<Option<HitView>, Fault>) -> bool {
    entry is Ok
}

/// The first fault of a longer list of entries.
proof fn first_fault_of_longer(
    entries: Seq<Result<Option<HitView>, Fault>>,
    entry: Result<Option<HitView>, Fault>,
    i: int,
)
    requires
        0 <= i <= entries.len(),
    ensures
        i <= first_fault(entries, i) <= entries.len(),
        (first_fault(entries, i) == entries.len()) <==> (forall|j: int|
            i <= j < entries.len() ==> is_read(#[trigger] entries[j])),
        first_fault(entries.push(entry), i) == if first_fault(entries, i) < entries.len() || entry
            is Err {
            first_fault(entries, i)
        } else {
            entries.len() as int + 1
        },
    decreases entries.len() - i,
{
    let longer = entries.push(entry);
    if i < entries.len() {
        assert(longer[i] == entries[i]);
        if entries[i] is Ok {
            first_fault_of_longer(entries, entry, i + 1);
            assert(is_read(entries[i]));
        } else {
            assert(!is_read(entries[i]));
        }
    } else {
        assert(longer[i] == entry);
        assert(first_fault(longer, i + 1) == i + 1);
    }
}

/// What is told of the first entries does not depend on those behind them.
proof fn told_of_longer(keys: Seq<Option<Seq<char>>>, key: Option<Seq<char>>, n: int)
    requires
        0 <= n <= keys.len(),
    ensures
        told(keys.push(key), n) == told(keys, n),
    decreases n,
{
    if n > 0 {
        told_of_longer(keys, key, n - 1);
    }
}

/// Notices come in order: with one more entry, its key is told last if it is to be
/// told, unless an entry was faulty, which ends the telling.
pub proof fn notices_come_in_order(notice: Notice, rows: Seq<(Reply, Reply)>, row: (Reply, Reply))
    ensures
        told_of_rows(notice, seq![]) == Seq::<Seq<char>>::empty(),
        told_of_rows(notice, rows.push(row)) == if (forall|j: int|
            0 <= j < rows.len() ==> is_read(resp2_entry(false, #[trigger] rows[j]))) && is_read(
            resp2_entry(false, row),
        ) && noticed(notice, row) is Some {
            told_of_rows(notice, rows) + seq![noticed(notice, row).unwrap()]
        } else {
            told_of_rows(notice, rows)
        },
{
    let keys = rows.map_values(|r: (Reply, Reply)| noticed(notice, r));
    let key = noticed(notice, row);
    let entries = resp2_entries(false, rows);
    let entry = resp2_entry(false, row);
    let longer = rows.push(row);
    assert(longer.map_values(|r: (Reply, Reply)| noticed(notice, r)) =~= keys.push(key));
    assert(resp2_entries(false, longer) =~= entries.push(entry));
    first_fault_of_longer(entries, entry, 0);
    let n = first_fault(entries, 0);
    told_of_longer(keys, key, n);
    assert forall|j: int| 0 <= j < rows.len() implies is_read(#[trigger] entries[j]) == is_read(
        resp2_entry(false, rows[j]),
    ) by {}
    if n == entries.len() {
        assert forall|j: int| 0 <= j < rows.len() implies is_read(
            resp2_entry(false, #[trigger] rows[j]),
        ) by {
            assert(is_read(entries[j]));
        }
        if entry is Ok {
            assert(told(keys.push(key), n + 1) =~= if key is Some {
                told(keys, n) + seq![key.unwrap()]
            } else {
                told(keys, n)
            });
        }
    } else {
        assert(exists|j: int| 0 <= j < entries.len() && !is_read(#[trigger] entries[j]));
        let j = choose|j: int| 0 <= j < entries.len() && !is_read(#[trigger] entries[j]);
        assert(!is_read(resp2_entry(false, rows[j])));
    }
    let none = Seq::<(Reply, Reply)>::empty();
    assert(resp2_entries(false, none).len() == 0);
    assert(told_of_rows(notice, none) =~= seq![]);
}

/// The same of the results of a RESP3 reply.
pub proof fn mapped_notices_come_in_order(list: Seq<Reply>, entry: Reply)
    ensures
        ({
            let tell = |entries: Seq<Reply>|
                told(
                    entries.map_values(|e: Reply| unscored_resp3(e)),
                    first_fault(resp3_entries(false, entries), 0),
                );
            &&& tell(seq![]) == Seq::<Seq<char>>::empty()
            &&& tell(list.push(entry)) == if (forall|j: int|
                0 <= j < list.len() ==> is_read(resp3_entry(false, #[trigger] list[j]))) && is_read(
                resp3_entry(false, entry),
            ) && unscored_resp3(entry) is Some {
                tell(list) + seq![unscored_resp3(entry).unwrap()]
            } else {
                tell(list)
            }
        }),
{
    let keys = list.map_values(|e: Reply| unscored_resp3(e));
    let key = unscored_resp3(entry);
    let entries = resp3_entries(false, list);
    let one = resp3_entry(false, entry);
    let longer = list.push(entry);
    assert(longer.map_values(|e: Reply| unscored_resp3(e)) =~= keys.push(key));
    assert(resp3_entries(false, longer) =~= entries.push(one));
    first_fault_of_longer(entries, one, 0);
    let n = first_fault(entries, 0);
    told_of_longer(keys, key, n);
    if n == entries.len() {
        assert forall|j: int| 0 <= j < list.len() implies is_read(
            resp3_entry(false, #[trigger] list[j]),
        ) by {
            assert(is_read(entries[j]));
        }
        if one is Ok {
            assert(told(keys.push(key), n + 1) =~= if key is Some {
                told(keys, n) + seq![key.unwrap()]
            } else {
                told(keys, n)
            });
        }
    } else {
        let j = choose|j: int| 0 <= j < entries.len() && !is_read(#[trigger] entries[j]);
        assert(!is_read(resp3_entry(false, list[j])));
    }
    let none = Seq::<Reply>::empty();
    assert(resp3_entries(false, none).len() == 0);
    assert(told(
        none.map_values(|e: Reply| unscored_resp3(e)),
        first_fault(resp3_entries(false, none), 0),
    ) =~= seq![]);
}

/// Where the entries of a reply stand: behind the count of a RESP2 array, unless it
/// is zero, and in the results of a RESP3 map. Notices are told of these.
pub proof fn notices_are_of_the_entries(response: Reply)
    ensures
        match response {
            Reply::Array(items) => {
                let rows = if items@.len() > 0 && items@[0] is Int && items@[0] != Reply::Int(0) {
                    in_pairs(items@.skip(1))
                } else {
                    seq![]
                };
                &&& resp2_rows(items@) == rows
                &&& unscored(response) == told_of_rows(Notice::MissingScore, rows)
                &&& textless(response) == told_of_rows(Notice::TextlessDocument, rows)
            },
            Reply::Pairs(pairs) => {
                let list = match results_of(pairs@) {
                    Some(list) => list,
                    None => seq![],
                };
                &&& resp3_rows(pairs@) == list
                &&& unscored(response) == told(
                    list.map_values(|entry: Reply| unscored_resp3(entry)),
                    first_fault(resp3_entries(false, list), 0),
                )
                &&& textless(response).len() == 0
            },
            _ => unscored(response).len() == 0 && textless(response).len() == 0,
        },
{
}

} // verus!
