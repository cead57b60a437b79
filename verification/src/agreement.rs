//! How the two forms of a search reply, and the two ways of reading it, agree.

use vstd::prelude::*;
use vstd::utf8::encode_utf8;

use crate::definition::{
    has_list, is_list, is_prefix_list, item_tokens_but_prefixes, lists_next,
    pair_tokens_but_prefixes, some_has_list, some_pair_has_list, tokens_but_prefixes,
};
use crate::insert::{document_commands, document_key, Document};
use crate::notice::{has_score, unscored_fields_keep_distance};
use crate::reply::{string_of, tokens, tokens_of_items, tokens_of_pairs, Reply};
use crate::response::{
    distance_of, gather, in_pairs, nothing_found, read_attribute, read_attributes, read_field, read_fields,
    resp2_entries, resp2_entry, resp3_entries, resp3_entry, results_of, search_outcome, Fault, Found, HitView,
    NO_DISTANCE,
};
use crate::search::{above, ids_above, ids_of, ids_outcome, passes, with_documents};
use crate::sequence::filter_is_exact;
use crate::store::{description_outcome, StoreView};
use crate::text::text_of_encoded;

verus! {

/// A hit without its document.
pub open spec fn bare(hit: HitView) -> HitView {
    HitView { document: seq![], ..hit }
}

/// Hits without their documents.
pub open spec fn bare_hits(hits: Seq<HitView>) -> Seq<HitView> {
    hits.map_values(|hit: HitView| bare(hit))
}

/// What was found, without the document.
spec fn bare_found(found: Result<Found, Fault>) -> Result<Found, Fault> {
    match found {
        Ok(found) => Ok(Found { document: seq![], ..found }),
        Err(fault) => Err(fault),
    }
}

/// An entry without its document.
spec fn bare_entry(entry: Result<Option<HitView>, Fault>) -> Result<Option<HitView>, Fault> {
    match entry {
        Ok(Some(hit)) => Ok(Some(bare(hit))),
        other => other,
    }
}

/// Fields show the same distance and the same faults with documents and without.
proof fn fields_agree(with: Found, without: Found, fields: Seq<(Reply, Reply)>)
    requires
        without == (Found { document: seq![], ..with }),
    ensures
        read_fields(without, false, fields) == bare_found(read_fields(with, true, fields)),
    decreases fields.len(),
{
    if fields.len() > 0 {
        fields_agree(with, without, fields.drop_last());
    }
}

/// RESP3 entries say the same, with documents and without.
pub proof fn attributes_agree(pairs: Seq<(Reply, Reply)>)
    ensures
        match (read_attributes(true, pairs), read_attributes(false, pairs)) {
            (Ok(with), Ok(without)) => with.0 == without.0 && without.1 == (Found {
                document: seq![],
                ..with.1
            }),
            (Err(with), Err(without)) => with == without,
            _ => false,
        },
    decreases pairs.len(),
{
    if pairs.len() > 0 {
        attributes_agree(pairs.drop_last());
        match (
            read_attributes(true, pairs.drop_last()),
            read_attributes(false, pairs.drop_last()),
        ) {
            (Ok(with), Ok(without)) => {
                if let Reply::Pairs(fields) = pairs.last().1 {
                    fields_agree(with.1, without.1, fields@);
                }
            },
            _ => {},
        }
    }
}

/// Entries that agree one by one agree together.
proof fn gather_agrees(
    with: Seq<Result<Option<HitView>, Fault>>,
    without: Seq<Result<Option<HitView>, Fault>>,
)
    requires
        with.len() == without.len(),
        forall|i: int| 0 <= i < with.len() ==> #[trigger] without[i] == bare_entry(with[i]),
    ensures
        match (gather(with), gather(without)) {
            (Ok(hits), Ok(bare)) => bare == bare_hits(hits),
            (Err(fault), Err(other)) => fault == other,
            _ => false,
        },
    decreases with.len(),
{
    if with.len() > 0 {
        assert forall|i: int| 0 <= i < with.drop_last().len() implies #[trigger] without.drop_last()[i]
            == bare_entry(with.drop_last()[i]) by {
            assert(without[i] == bare_entry(with[i]));
        }
        gather_agrees(with.drop_last(), without.drop_last());
        assert(without[with.len() - 1] == bare_entry(with[with.len() - 1]));
        if let (Ok(hits), Ok(bare_so_far), Ok(Some(hit))) = (
            gather(with.drop_last()),
            gather(without.drop_last()),
            with.last(),
        ) {
            assert(bare_hits(hits.push(hit)) =~= bare_hits(hits).push(bare(hit)));
        }
    } else {
        assert(bare_hits(seq![]) =~= seq![]);
    }
}

/// Asking for identifiers alone finds the same hits in a reply as asking for
/// documents: the same keys and distances in the same order, or the same fault.
pub proof fn documents_do_not_matter(response: Reply)
    ensures
        match (search_outcome(true, response), search_outcome(false, response)) {
            (Ok(hits), Ok(bare)) => bare == bare_hits(hits) && ids_outcome(response) == Ok::<
                Seq<(u64, Seq<char>)>,
                Fault,
            >(ids_of(hits)),
            (Err(fault), Err(other)) => fault == other && ids_outcome(response) == Err::<
                Seq<(u64, Seq<char>)>,
                Fault,
            >(fault),
            _ => false,
        },
{
    match response {
        Reply::Array(items) => {
            if items@.len() > 0 && items@[0] is Int && items@[0]->Int_0 != 0 {
                let entries = in_pairs(items@.skip(1));
                let with = resp2_entries(true, entries);
                let without = resp2_entries(false, entries);
                assert forall|i: int| 0 <= i < with.len() implies #[trigger] without[i] == bare_entry(
                    with[i],
                ) by {
                    if let Reply::Array(fields) = entries[i].1 {
                        fields_agree(nothing_found(), nothing_found(), in_pairs(fields@));
                    }
                }
                gather_agrees(with, without);
            } else {
                assert(bare_hits(seq![]) =~= seq![]);
            }
        },
        Reply::Pairs(pairs) => {
            match results_of(pairs@) {
                Some(entries) => {
                    let with = resp3_entries(true, entries);
                    let without = resp3_entries(false, entries);
                    assert forall|i: int| 0 <= i < with.len() implies #[trigger] without[i]
                        == bare_entry(with[i]) by {
                        if let Reply::Pairs(inner) = entries[i] {
                            attributes_agree(inner@);
                        }
                    }
                    gather_agrees(with, without);
                },
                None => {
                    assert(bare_hits(seq![]) =~= seq![]);
                },
            }
        },
        _ => {},
    }
    if let (Ok(hits), Ok(bare)) = (search_outcome(true, response), search_outcome(false, response)) {
        assert(ids_of(bare) =~= ids_of(hits));
    }
}

/// Whether a RESP2 entry and a RESP3 entry describe the same document.
pub open spec fn is_same_entry(flat: (Reply, Reply), entry: Reply) -> bool {
    &&& string_of(flat.0) is Some
    &&& flat.1 matches Reply::Array(fields)
    &&& entry matches Reply::Pairs(pairs)
    &&& pairs@.len() == 2
    &&& string_of(pairs@[0].0) == Some("id"@)
    &&& string_of(pairs@[0].1) == string_of(flat.0)
    &&& string_of(pairs@[1].0) == Some("extra_attributes"@)
    &&& pairs@[1].1 matches Reply::Pairs(attributes)
    &&& attributes@ == in_pairs(fields@)
}

/// Whether a RESP2 reply and a RESP3 reply list the same documents: the array
/// gives a count, zero only if there are none, and then each key and its
/// fields; and the map gives a map for each.
pub open spec fn is_same_reply(flat: Reply, mapped: Reply) -> bool {
    &&& flat matches Reply::Array(items)
    &&& mapped matches Reply::Pairs(pairs)
    &&& items@.len() > 0
    &&& items@[0] matches Reply::Int(count)
    &&& results_of(pairs@) matches Some(entries)
    &&& count == 0 ==> entries.len() == 0
    &&& items@.len() == 1 + 2 * entries.len()
    &&& forall|i: int|
        0 <= i < entries.len() ==> is_same_entry(
            (items@[1 + 2 * i], items@[2 + 2 * i]),
            #[trigger] entries[i],
        )
}

/// Entries that describe the same document are read alike.
proof fn entries_agree(with_document: bool, flat: (Reply, Reply), entry: Reply)
    requires
        is_same_entry(flat, entry),
    ensures
        resp2_entry(with_document, flat) == resp3_entry(with_document, entry),
{
    reveal_strlit("id");
    reveal_strlit("extra_attributes");
    assert("id"@.len() != "extra_attributes"@.len());
    let pairs = entry->Pairs_0@;
    let id = string_of(flat.0).unwrap();
    let start = (Seq::<char>::empty(), nothing_found());
    let first = pairs.drop_last();
    assert(read_attributes(with_document, first.drop_last()) == Ok::<(Seq<char>, Found), Fault>(
        start,
    ));
    assert(first.last() == pairs[0]);
    assert(read_attributes(with_document, first) == read_attribute(start, with_document, pairs[0]));
    assert(read_attributes(with_document, first) == Ok::<(Seq<char>, Found), Fault>(
        (id, nothing_found()),
    ));
    assert(pairs.last() == pairs[1]);
}

/// The protocol does not matter: a RESP2 reply and a RESP3 reply that list the
/// same documents are read as the same hits, or have the same fault.
pub proof fn protocols_agree(flat: Reply, mapped: Reply, with_document: bool)
    requires
        is_same_reply(flat, mapped),
    ensures
        search_outcome(with_document, flat) == search_outcome(with_document, mapped),
{
    let items = flat->Array_0@;
    let entries = results_of(mapped->Pairs_0@).unwrap();
    let rows = in_pairs(items.skip(1));
    assert(rows.len() == entries.len());
    if entries.len() == 0 {
        assert(resp3_entries(with_document, entries) =~= seq![]);
    } else {
        let left = resp2_entries(with_document, rows);
        let right = resp3_entries(with_document, entries);
        assert forall|i: int| 0 <= i < left.len() implies #[trigger] left[i] == right[i] by {
            assert(rows[i] == (items[1 + 2 * i], items[2 + 2 * i]));
            assert(is_same_entry(rows[i], entries[i]));
            entries_agree(with_document, rows[i], entries[i]);
        }
        assert(left =~= right);
    }
}

/// A list of names and values has the same tokens as a map of them.
proof fn tokens_agree(items: Seq<Reply>)
    requires
        items.len() % 2 == 0,
    ensures
        tokens_of_items(items) == tokens_of_pairs(in_pairs(items)),
    decreases items.len(),
{
    let pairs = in_pairs(items);
    if items.len() > 0 {
        let name = items.drop_last();
        let front = name.drop_last();
        tokens_agree(front);
        assert(in_pairs(front) =~= pairs.drop_last());
        assert(pairs.last() == (name.last(), items.last()));
        assert(tokens_of_items(name) == tokens_of_items(front) + tokens(name.last()));
    } else {
        assert(pairs.len() == 0);
    }
}

/// Whether no name in a list of names and values is a list itself.
pub open spec fn has_plain_names(items: Seq<Reply>) -> bool {
    &&& items.len() % 2 == 0
    &&& forall|i: int| 0 <= i < in_pairs(items).len() ==> !is_list((#[trigger] in_pairs(items)[i]).0)
}

/// What one more pair does to a list of names and values.
proof fn plain_names_split(items: Seq<Reply>)
    requires
        has_plain_names(items),
        items.len() > 0,
    ensures
        ({
            let front = items.drop_last().drop_last();
            let pairs = in_pairs(items);
            &&& has_plain_names(front)
            &&& in_pairs(front) == pairs.drop_last()
            &&& pairs.last() == (items[items.len() - 2], items[items.len() - 1])
            &&& items.drop_last().last() == items[items.len() - 2]
            &&& !is_list(items[items.len() - 2])
        }),
{
    let front = items.drop_last().drop_last();
    let pairs = in_pairs(items);
    assert(in_pairs(front) =~= pairs.drop_last());
    assert forall|i: int| 0 <= i < in_pairs(front).len() implies !is_list(
        (#[trigger] in_pairs(front)[i]).0,
    ) by {
        assert(in_pairs(front)[i] == pairs[i]);
    }
    assert(pairs[pairs.len() - 1] == (items[items.len() - 2], items[items.len() - 1]));
}

/// Without the prefixes too, a list and a map of the same have the same tokens.
proof fn tokens_but_prefixes_agree(items: Seq<Reply>)
    requires
        has_plain_names(items),
    ensures
        item_tokens_but_prefixes(items) == pair_tokens_but_prefixes(in_pairs(items)),
    decreases items.len(),
{
    if items.len() > 0 {
        let named = items.drop_last();
        let front = named.drop_last();
        plain_names_split(items);
        tokens_but_prefixes_agree(front);
        assert(item_tokens_but_prefixes(named) == item_tokens_but_prefixes(front)
            + tokens_but_prefixes(named.last()));
    } else {
        assert(in_pairs(items).len() == 0);
    }
}

/// Whether a list of prefixes stands in an array, by its last item.
proof fn lists_next_by_last(items: Seq<Reply>, wanted: Option<Seq<char>>)
    requires
        items.len() > 0,
    ensures
        lists_next(items, wanted) <==> lists_next(items.drop_last(), wanted) || (items.len() >= 2
            && is_prefix_list(items[items.len() - 2], items.last(), wanted)),
{
    let front = items.drop_last();
    if lists_next(front, wanted) {
        let i = choose|i: int|
            0 <= i < front.len() - 1 && is_prefix_list(#[trigger] front[i], front[i + 1], wanted);
        assert(is_prefix_list(items[i], items[i + 1], wanted));
    }
    if lists_next(items, wanted) {
        let i = choose|i: int|
            0 <= i < items.len() - 1 && is_prefix_list(#[trigger] items[i], items[i + 1], wanted);
        if i < front.len() - 1 {
            assert(is_prefix_list(front[i], front[i + 1], wanted));
        }
    }
}

/// A list and a map of the same hold the same lists of prefixes.
proof fn lists_agree(items: Seq<Reply>, wanted: Option<Seq<char>>)
    requires
        has_plain_names(items),
    ensures
        (lists_next(items, wanted) || some_has_list(items, wanted)) == some_pair_has_list(
            in_pairs(items),
            wanted,
        ),
    decreases items.len(),
{
    if items.len() > 0 {
        let named = items.drop_last();
        let front = named.drop_last();
        plain_names_split(items);
        lists_agree(front, wanted);
        lists_next_by_last(items, wanted);
        lists_next_by_last(named, wanted);
        assert(some_has_list(named, wanted) == (some_has_list(front, wanted) || has_list(
            named.last(),
            wanted,
        )));
    } else {
        assert(in_pairs(items).len() == 0);
    }
}

/// The protocol does not matter to the description of an index either: a RESP2
/// list of names and values is judged as the RESP3 map of them.
pub proof fn descriptions_agree(store: StoreView, flat: Reply, mapped: Reply)
    requires
        flat matches Reply::Array(items) && mapped matches Reply::Pairs(pairs) && has_plain_names(
            items@,
        ) && pairs@ == in_pairs(items@),
    ensures
        description_outcome(store, flat) == description_outcome(store, mapped),
{
    let items = flat->Array_0@;
    tokens_agree(items);
    tokens_but_prefixes_agree(items);
    lists_agree(items, None);
    if let Some(prefix) = store.key_prefix {
        lists_agree(items, Some(prefix));
    }
}

/// A reply that holds the bytes of a text.
pub open spec fn holds_bytes(value: Reply, bytes: Seq<u8>) -> bool {
    value matches Reply::BulkString { bytes: held, number: _ } && held@ == bytes
}

/// A document that was inserted is read back: where a search returns the key,
/// a score and the `document` field of a hash as they were written, the hit
/// has that key and the document's JSON, whose bytes are those that were
/// written. So the hash can be deleted by the identifier of the hit.
pub proof fn inserted_documents_are_read_back(
    store: StoreView,
    document: Document,
    ids: Seq<Seq<char>>,
    i: int,
    entry: (Reply, Reply),
)
    requires
        0 <= i < document.embeddings@.len(),
        holds_bytes(entry.0, document_commands(store, document, ids)[i].0[1]),
        entry.1 matches Reply::Array(fields) && fields@.len() == 4 && string_of(fields@[0]) == Some(
            "__vector_score"@,
        ) && distance_of(fields@[1]) is Ok && string_of(fields@[2]) == Some("document"@)
            && holds_bytes(fields@[3], document_commands(store, document, ids)[i].0[3]),
    ensures
        resp2_entry(true, entry) matches Ok(Some(hit)) && hit.id == document_key(
            store.key_prefix,
            ids[i],
        ) && hit.document == document.text@ && distance_of(entry.1->Array_0@[1]) == Ok::<u64, Fault>(
            hit.distance,
        ) && encode_utf8(hit.id) == document_commands(store, document, ids)[i].0[1],
{
    let key = document_key(store.key_prefix, ids[i]);
    let fields = entry.1->Array_0@;
    let pairs = in_pairs(fields);
    let args = document_commands(store, document, ids)[i].0;
    reveal_strlit("__vector_score");
    reveal_strlit("document");
    assert("__vector_score"@.len() != "document"@.len());
    assert(args[1] == encode_utf8(key));
    assert(args[3] == encode_utf8(document.text@));
    text_of_encoded(key);
    text_of_encoded(document.text@);
    let first = pairs.drop_last();
    assert(read_fields(nothing_found(), true, first.drop_last()) == Ok::<Found, Fault>(
        nothing_found(),
    ));
    assert(first.last() == (fields[0], fields[1]));
    assert(read_fields(nothing_found(), true, first) == read_field(
        nothing_found(),
        true,
        (fields[0], fields[1]),
    ));
    assert(pairs.last() == (fields[2], fields[3]));
}

/// A document whose fields hold no score has the distance zero, and none of
/// its fields is a fault.
pub proof fn missing_scores_are_zero(with_document: bool, fields: Seq<(Reply, Reply)>)
    requires
        !has_score(fields),
    ensures
        read_fields(nothing_found(), with_document, fields) matches Ok(found) && found.distance
            == NO_DISTANCE,
{
    unscored_fields_keep_distance(nothing_found(), with_document, fields);
}

/// Every document that a search returns has a text, and no hit that has one is
/// left out.
pub proof fn documents_are_not_empty(hits: Seq<HitView>)
    ensures
        forall|i: int|
            0 <= i < with_documents(hits).len() ==> (#[trigger] with_documents(
                hits,
            )[i]).document.len() > 0 && hits.contains(with_documents(hits)[i]),
        forall|i: int|
            0 <= i < hits.len() && (#[trigger] hits[i]).document.len() > 0 ==> with_documents(
                hits,
            ).contains(hits[i]),
{
    filter_is_exact(hits, |hit: HitView| hit.document.len() > 0);
}

/// A threshold drops exactly the documents under it: what is left passes, and
/// what passes is left.
pub proof fn thresholds_are_exact<T>(results: Seq<(u64, Seq<char>, T)>, threshold: Option<u64>)
    ensures
        forall|i: int|
            0 <= i < above(results, threshold).len() ==> passes(
                (#[trigger] above(results, threshold)[i]).0,
                threshold,
            ) && results.contains(above(results, threshold)[i]),
        forall|i: int|
            0 <= i < results.len() && passes((#[trigger] results[i]).0, threshold) ==> above(
                results,
                threshold,
            ).contains(results[i]),
        threshold is None ==> above(results, threshold) == results,
{
    filter_is_exact(results, |result: (u64, Seq<char>, T)| passes(result.0, threshold));
}

/// A threshold drops exactly the identifiers under it.
pub proof fn id_thresholds_are_exact(ids: Seq<(u64, Seq<char>)>, threshold: Option<u64>)
    ensures
        forall|i: int|
            0 <= i < ids_above(ids, threshold).len() ==> passes(
                (#[trigger] ids_above(ids, threshold)[i]).0,
                threshold,
            ) && ids.contains(ids_above(ids, threshold)[i]),
        forall|i: int|
            0 <= i < ids.len() && passes((#[trigger] ids[i]).0, threshold) ==> ids_above(
                ids,
                threshold,
            ).contains(ids[i]),
        threshold is None ==> ids_above(ids, threshold) == ids,
{
    filter_is_exact(ids, |entry: (u64, Seq<char>)| passes(entry.0, threshold));
}

} // verus!
