//! Laws of reading search replies: entries come in order, the last score and the
//! last text of a document count, and the first fault ends the reading.

use vstd::prelude::*;

use crate::reply::{string_of, Reply};
use crate::response::{
    distance_of, distance_view, entry_view, fault_message, gather, hits_view, in_pairs,
    nothing_found, outcome_view, read_attributes, read_fields, resp2_entries, resp2_entry,
    resp2_outcome, resp3_entries, resp3_entry, resp3_outcome, results_of, search_outcome, Fault,
    Found, Hit, HitView, ResponseError,
};

verus! {

/// Hits, errors and results are seen as they are, each in its place.
pub proof fn hits_are_seen(
    hit: Hit,
    hits: Vec<Hit>,
    i: int,
    error: ResponseError<'static>,
    distance: u64,
)
    ensures
        hit@.distance == hit.distance,
        hit@.id == hit.id@,
        hit@.document == hit.document@,
        hits_view(hits@).len() == hits@.len(),
        0 <= i < hits@.len() ==> hits_view(hits@)[i] == hits@[i]@,
        match error {
            ResponseError::InvalidFormat => error@ == Fault::InvalidFormat,
            ResponseError::MissingCount => error@ == Fault::MissingCount,
            ResponseError::UnparsableScore(message) => error@ == Fault::UnparsableScore(message@),
            ResponseError::UnexpectedScore(value) => error@ == Fault::UnexpectedScore(*value),
        },
        outcome_view(Ok(hits)) == Ok::<Seq<HitView>, Fault>(hits_view(hits@)),
        outcome_view(Err(error)) == Err::<Seq<HitView>, Fault>(error@),
        distance_view(Ok(distance)) == Ok::<u64, Fault>(distance),
        distance_view(Err(error)) == Err::<u64, Fault>(error@),
        entry_view(Ok(Some(hit))) == Ok::<Option<HitView>, Fault>(Some(hit@)),
        entry_view(Ok(None)) == Ok::<Option<HitView>, Fault>(None),
        entry_view(Err(error)) == Err::<Option<HitView>, Fault>(error@),
{
}

/// The message of each fault.
pub proof fn faults_have_their_message(fault: Fault, printed: Seq<char>)
    ensures
        match fault {
            Fault::InvalidFormat => fault_message(fault, printed)
                == "Invalid FT.SEARCH response format (expected a RESP2 array or RESP3 map)"@,
            Fault::MissingCount => fault_message(fault, printed)
                == "Invalid response format: expected count as first element"@,
            Fault::UnparsableScore(message) => fault_message(fault, printed)
                == "Failed to parse score: "@ + message,
            Fault::UnexpectedScore(_) => fault_message(fault, printed)
                == "Unexpected Redis value type for score: "@ + printed,
        },
{
}

/// The distance of a score: a number's own pattern, what a text reads as, and a
/// fault where it reads as no number or is neither.
pub proof fn scores_are_distances(value: Reply)
    ensures
        match value {
            Reply::Double { bits, text: _ } => distance_of(value) == Ok::<u64, Fault>(bits),
            Reply::BulkString { bytes: _, number: Ok(bits) } => distance_of(value) == Ok::<
                u64,
                Fault,
            >(bits),
            Reply::SimpleString { text: _, number: Ok(bits) } => distance_of(value) == Ok::<
                u64,
                Fault,
            >(bits),
            Reply::VerbatimString { text: _, number: Ok(bits) } => distance_of(value) == Ok::<
                u64,
                Fault,
            >(bits),
            Reply::BulkString { bytes: _, number: Err(message) } => distance_of(value) == Err::<
                u64,
                Fault,
            >(Fault::UnparsableScore(message@)),
            Reply::SimpleString { text: _, number: Err(message) } => distance_of(value) == Err::<
                u64,
                Fault,
            >(Fault::UnparsableScore(message@)),
            Reply::VerbatimString { text: _, number: Err(message) } => distance_of(value) == Err::<
                u64,
                Fault,
            >(Fault::UnparsableScore(message@)),
            _ => distance_of(value) == Err::<u64, Fault>(Fault::UnexpectedScore(value)),
        },
{
}

/// A flat list is taken two by two, from its start.
pub proof fn pairs_keep_their_places(items: Seq<Reply>, i: int)
    ensures
        in_pairs(items).len() == items.len() / 2,
        0 <= 2 * i && 2 * i + 1 < items.len() ==> in_pairs(items)[i] == (
            items[2 * i],
            items[2 * i + 1],
        ),
{
}

/// Fields are read in order: reading two lists of them is reading the first and
/// then, unless it ended in a fault, the second. No fields leave what is known.
pub proof fn fields_are_read_in_order(
    found: Found,
    with_document: bool,
    left: Seq<(Reply, Reply)>,
    right: Seq<(Reply, Reply)>,
)
    ensures
        read_fields(found, with_document, left + right) == match read_fields(
            found,
            with_document,
            left,
        ) {
            Ok(middle) => read_fields(middle, with_document, right),
            Err(fault) => Err(fault),
        },
        read_fields(found, with_document, seq![]) == Ok::<Found, Fault>(found),
    decreases right.len(),
{
    if right.len() == 0 {
        assert(left + right =~= left);
    } else {
        fields_are_read_in_order(found, with_document, left, right.drop_last());
        assert((left + right).drop_last() =~= left + right.drop_last());
    }
}

/// What one field tells: a score the distance or its fault; a document, where it is
/// asked for and is a text, the text; and nothing else tells anything.
pub proof fn one_field_tells(found: Found, with_document: bool, name: Reply, value: Reply)
    ensures
        ({
            let read = read_fields(found, with_document, seq![(name, value)]);
            let is_score = string_of(name) == Some("__vector_score"@);
            let is_document = string_of(name) == Some("document"@);
            &&& is_score ==> read == match distance_of(value) {
                Ok(distance) => Ok::<Found, Fault>(Found { distance, document: found.document }),
                Err(fault) => Err(fault),
            }
            &&& is_document ==> read == Ok::<Found, Fault>(
                Found {
                    distance: found.distance,
                    document: match string_of(value) {
                        Some(text) if with_document => text,
                        _ => found.document,
                    },
                },
            )
            &&& !is_score && !is_document ==> read == Ok::<Found, Fault>(found)
        }),
{
    reveal_strlit("__vector_score");
    reveal_strlit("document");
    assert("__vector_score"@.len() != "document"@.len());
    let one = seq![(name, value)];
    assert(one.drop_last().len() == 0);
    assert(one.last() == (name, value));
    assert(read_fields(found, with_document, one.drop_last()) == Ok::<Found, Fault>(found));
}

/// A RESP2 entry is a hit exactly if its key is a text and its fields are a list:
/// the key is its identifier, and its fields tell the rest, from the distance zero
/// and no document.
pub proof fn flat_entries_are_hits(with_document: bool, key: Reply, value: Reply)
    ensures
        ({
            let entry = resp2_entry(with_document, (key, value));
            match (string_of(key), value) {
                (Some(id), Reply::Array(fields)) => entry == match read_fields(
                    Found { distance: 0, document: seq![] },
                    with_document,
                    in_pairs(fields@),
                ) {
                    Ok(found) => Ok::<Option<HitView>, Fault>(
                        Some(HitView { distance: found.distance, id, document: found.document }),
                    ),
                    Err(fault) => Err(fault),
                },
                _ => entry == Ok::<Option<HitView>, Fault>(None),
            }
        }),
{
    assert(nothing_found() == (Found { distance: 0, document: seq![] }));
}

/// What the pairs of a RESP3 entry tell, each after those before it: `id` the
/// identifier, if it is a text; `extra_attributes` the fields, if they are a map;
/// and nothing else tells anything.
pub proof fn mapped_entries_are_read_in_order(
    with_document: bool,
    pairs: Seq<(Reply, Reply)>,
    name: Reply,
    value: Reply,
)
    ensures
        read_attributes(with_document, seq![]) == Ok::<(Seq<char>, Found), Fault>(
            (seq![], Found { distance: 0, document: seq![] }),
        ),
        ({
            let before = read_attributes(with_document, pairs);
            let read = read_attributes(with_document, pairs.push((name, value)));
            match before {
                Err(fault) => read == before,
                Ok((id, found)) => {
                    let is_id = string_of(name) == Some("id"@);
                    let is_fields = string_of(name) == Some("extra_attributes"@) && value is Pairs;
                    &&& is_id ==> read == Ok::<(Seq<char>, Found), Fault>(
                        (
                            match string_of(value) {
                                Some(text) => text,
                                None => id,
                            },
                            found,
                        ),
                    )
                    &&& is_fields ==> read == match read_fields(
                        found,
                        with_document,
                        value->Pairs_0@,
                    ) {
                        Ok(more) => Ok::<(Seq<char>, Found), Fault>((id, more)),
                        Err(fault) => Err(fault),
                    }
                    &&& !is_id && !is_fields ==> read == before
                },
            }
        }),
{
    reveal_strlit("id");
    reveal_strlit("extra_attributes");
    assert("id"@.len() != "extra_attributes"@.len());
    assert(pairs.push((name, value)).drop_last() =~= pairs);
    assert(pairs.push((name, value)).last() == (name, value));
}

/// A RESP3 entry is a hit exactly if it is a map: its pairs tell all of it.
pub proof fn mapped_entries_are_hits(with_document: bool, entry: Reply)
    ensures
        match entry {
            Reply::Pairs(pairs) => resp3_entry(with_document, entry) == match read_attributes(
                with_document,
                pairs@,
            ) {
                Ok((id, found)) => Ok::<Option<HitView>, Fault>(
                    Some(HitView { distance: found.distance, id, document: found.document }),
                ),
                Err(fault) => Err(fault),
            },
            _ => resp3_entry(with_document, entry) == Ok::<Option<HitView>, Fault>(None),
        },
{
}

/// Entries are gathered in order, and the first fault ends it.
proof fn entries_are_gathered_in_order(
    entries: Seq<Result<Option<HitView>, Fault>>,
    entry: Result<Option<HitView>, Fault>,
)
    ensures
        gather(seq![]) == Ok::<Seq<HitView>, Fault>(seq![]),
        gather(entries.push(entry)) == match gather(entries) {
            Err(fault) => Err::<Seq<HitView>, Fault>(fault),
            Ok(hits) => match entry {
                Err(fault) => Err(fault),
                Ok(None) => Ok(hits),
                Ok(Some(hit)) => Ok(hits.push(hit)),
            },
        },
{
    assert(entries.push(entry).drop_last() =~= entries);
    assert(entries.push(entry).last() == entry);
}

/// What one more entry does to what was read so far.
pub open spec fn then_entry(
    so_far: Result<Seq<HitView>, Fault>,
    entry: Result<Option<HitView>, Fault>,
) -> Result<Seq<HitView>, Fault> {
    match (so_far, entry) {
        (Err(fault), _) => Err(fault),
        (Ok(_), Err(fault)) => Err(fault),
        (Ok(hits), Ok(None)) => Ok(hits),
        (Ok(hits), Ok(Some(hit))) => Ok(hits + seq![hit]),
    }
}

/// A RESP2 reply is read in order. It starts with the count; a count of zero stands
/// for no hits. Two more items are one more entry: its hit comes last, and a fault
/// before it stays the fault. A last item without a partner changes nothing.
pub proof fn flat_replies_are_read_in_order(
    with_document: bool,
    items: Seq<Reply>,
    key: Reply,
    value: Reply,
)
    ensures
        items.len() == 0 || !(items[0] is Int) ==> resp2_outcome(with_document, items) == Err::<
            Seq<HitView>,
            Fault,
        >(Fault::MissingCount),
        items.len() > 0 && items[0] == Reply::Int(0) ==> resp2_outcome(with_document, items)
            == Ok::<Seq<HitView>, Fault>(seq![]),
        items.len() == 1 && items[0] is Int ==> resp2_outcome(with_document, items) == Ok::<
            Seq<HitView>,
            Fault,
        >(seq![]),
        items.len() % 2 == 1 && items[0] is Int && items[0] != Reply::Int(0) ==> {
            &&& resp2_outcome(with_document, items.push(key)) == resp2_outcome(with_document, items)
            &&& resp2_outcome(with_document, items.push(key).push(value)) == then_entry(
                resp2_outcome(with_document, items),
                resp2_entry(with_document, (key, value)),
            )
        },
{
    if items.len() == 1 && items[0] is Int {
        assert(resp2_entries(with_document, in_pairs(items.skip(1))) =~= seq![]);
    }
    if items.len() % 2 == 1 && items[0] is Int && items[0] != Reply::Int(0) {
        let rows = in_pairs(items.skip(1));
        let entries = resp2_entries(with_document, rows);
        let entry = resp2_entry(with_document, (key, value));
        let longer = items.push(key);
        let longest = longer.push(value);
        assert(in_pairs(longer.skip(1)) =~= rows);
        assert(in_pairs(longest.skip(1)) =~= rows.push((key, value)));
        assert(resp2_entries(with_document, in_pairs(longest.skip(1))) =~= entries.push(entry));
        entries_are_gathered_in_order(entries, entry);
        assert(longer[0] == items[0] && longest[0] == items[0]);
        if let (Ok(hits), Ok(Some(hit))) = (gather(entries), entry) {
            assert(hits.push(hit) =~= hits + seq![hit]);
        }
    }
}

/// The results of a RESP3 reply are the first pair whose name is `results` and whose
/// value is a list; without one there are no hits.
pub proof fn results_are_found_by_name(with_document: bool, pairs: Seq<(Reply, Reply)>)
    ensures
        match results_of(pairs) {
            Some(entries) => exists|i: int|
                0 <= i < pairs.len() && string_of((#[trigger] pairs[i]).0) == Some("results"@) && (
                pairs[i].1 matches Reply::Array(list) && list@ == entries) && forall|j: int|
                    0 <= j < i ==> !(string_of((#[trigger] pairs[j]).0) == Some("results"@)
                        && pairs[j].1 is Array),
            None => (forall|i: int|
                0 <= i < pairs.len() ==> !(string_of((#[trigger] pairs[i]).0) == Some("results"@)
                    && pairs[i].1 is Array)) && resp3_outcome(with_document, pairs) == Ok::<
                Seq<HitView>,
                Fault,
            >(seq![]),
        },
    decreases pairs.len(),
{
    if pairs.len() > 0 {
        let rest = pairs.skip(1);
        if string_of(pairs[0].0) == Some("results"@) && pairs[0].1 is Array {
            assert(pairs[0].1->Array_0@ == results_of(pairs).unwrap());
        } else {
            results_are_found_by_name(with_document, rest);
            match results_of(rest) {
                Some(entries) => {
                    let i = choose|i: int|
                        0 <= i < rest.len() && string_of((#[trigger] rest[i]).0) == Some(
                            "results"@,
                        ) && (rest[i].1 matches Reply::Array(list) && list@ == entries) && forall|
                            j: int,
                        |
                            0 <= j < i ==> !(string_of((#[trigger] rest[j]).0) == Some("results"@)
                                && rest[j].1 is Array);
                    assert(pairs[i + 1] == rest[i]);
                    assert forall|j: int| 0 <= j < i + 1 implies !(string_of(
                        (#[trigger] pairs[j]).0,
                    ) == Some("results"@) && pairs[j].1 is Array) by {
                        if j > 0 {
                            assert(rest[j - 1] == pairs[j]);
                        }
                    }
                },
                None => {
                    assert forall|j: int| 0 <= j < pairs.len() implies !(string_of(
                        (#[trigger] pairs[j]).0,
                    ) == Some("results"@) && pairs[j].1 is Array) by {
                        if j > 0 {
                            assert(rest[j - 1] == pairs[j]);
                        }
                    }
                },
            }
        }
    }
}

/// A RESP3 reply is read in order: with one result more, that result's hit comes
/// last, and a fault before it stays the fault.
pub proof fn mapped_replies_are_read_in_order(
    with_document: bool,
    pairs: Seq<(Reply, Reply)>,
    longer: Seq<(Reply, Reply)>,
    entry: Reply,
)
    requires
        results_of(pairs) is Some,
        results_of(longer) == Some(results_of(pairs).unwrap().push(entry)),
    ensures
        results_of(pairs).unwrap().len() == 0 ==> resp3_outcome(with_document, pairs) == Ok::<
            Seq<HitView>,
            Fault,
        >(seq![]),
        resp3_outcome(with_document, longer) == then_entry(
            resp3_outcome(with_document, pairs),
            resp3_entry(with_document, entry),
        ),
{
    let list = results_of(pairs).unwrap();
    let entries = resp3_entries(with_document, list);
    let one = resp3_entry(with_document, entry);
    assert(resp3_entries(with_document, list.push(entry)) =~= entries.push(one));
    entries_are_gathered_in_order(entries, one);
    if list.len() == 0 {
        assert(entries =~= seq![]);
    }
    if let (Ok(hits), Ok(Some(hit))) = (gather(entries), one) {
        assert(hits.push(hit) =~= hits + seq![hit]);
    }
}

/// An array is read as RESP2, a map as RESP3, and anything else is refused.
pub proof fn replies_are_read_by_their_form(with_document: bool, response: Reply)
    ensures
        search_outcome(with_document, response) == match response {
            Reply::Array(items) => resp2_outcome(with_document, items@),
            Reply::Pairs(pairs) => resp3_outcome(with_document, pairs@),
            _ => Err::<Seq<HitView>, Fault>(Fault::InvalidFormat),
        },
{
}

} // verus!
