//! What reading a reply fills in or leaves out, and what inserting a document
//! skips, so that it can be told in a log.

use vstd::prelude::*;

use crate::agreement::attributes_agree;
use crate::insert::{field_value, metadata_of, metadata_value};
use crate::json::JsonValue;
use crate::reply::{extract_string, opt_text, string_of, texts, Reply};
use crate::response::{
    find_results, hits_view, in_pairs, nothing_found, parse_response_generic, read_attributes,
    read_fields, resp2_entries, resp2_entry, resp3_entries, resp3_entry, results_of,
    search_outcome, take_resp2_entry, take_resp3_entry, Fault, Found, HitView, NO_DISTANCE,
};
use crate::search::with_documents;
use crate::text::same_text;

verus! {

/// What is told of a RESP2 hit.
#[derive(Clone, Copy)]
pub enum Notice {
    /// It has no score.
    MissingScore,
    /// Its `document` field is no text.
    TextlessDocument,
}

/// Whether fields hold a score.
pub open spec fn has_score(fields: Seq<(Reply, Reply)>) -> bool {
    exists|i: int|
        0 <= i < fields.len() && string_of((#[trigger] fields[i]).0) == Some("__vector_score"@)
}

/// The key of a RESP2 entry that is a hit without a score.
pub open spec fn unscored_resp2(entry: (Reply, Reply)) -> Option<Seq<char>> {
    match (string_of(entry.0), entry.1) {
        (Some(id), Reply::Array(fields)) if !has_score(in_pairs(fields@)) => Some(id),
        _ => None,
    }
}

/// Whether a pair of a RESP3 entry is its attributes, and holds a score.
pub open spec fn is_scored_pair(pair: (Reply, Reply)) -> bool {
    string_of(pair.0) == Some("extra_attributes"@) && (pair.1 matches Reply::Pairs(fields)
        && has_score(fields@))
}

/// Whether a RESP3 entry holds a score.
pub open spec fn is_scored(pairs: Seq<(Reply, Reply)>) -> bool {
    exists|i: int| 0 <= i < pairs.len() && is_scored_pair(#[trigger] pairs[i])
}

/// The key of a RESP3 entry that is a hit without a score.
pub open spec fn unscored_resp3(entry: Reply) -> Option<Seq<char>> {
    match (resp3_entry(false, entry), entry) {
        (Ok(Some(hit)), Reply::Pairs(pairs)) if !is_scored(pairs@) => Some(hit.id),
        _ => None,
    }
}

/// The key of a RESP2 entry whose `document` field is no text.
pub open spec fn textless_resp2(entry: (Reply, Reply)) -> Option<Seq<char>> {
    match (string_of(entry.0), entry.1) {
        (Some(id), Reply::Array(fields)) if has_textless(in_pairs(fields@)) => Some(id),
        _ => None,
    }
}

/// Whether one of several fields is a document that is no text.
pub open spec fn has_textless(fields: Seq<(Reply, Reply)>) -> bool {
    exists|i: int|
        0 <= i < fields.len() && string_of((#[trigger] fields[i]).0) == Some("document"@)
            && string_of(fields[i].1) is None
}

/// The place of the first fault from `i` on, or the number of entries where
/// there is none.
pub open spec fn first_fault(entries: Seq<Result<Option<HitView>, Fault>>, i: int) -> int
    decreases entries.len() - i,
{
    if i >= entries.len() || entries[i] is Err {
        i
    } else {
        first_fault(entries, i + 1)
    }
}

/// The keys among the first `n` of what is told of several entries.
pub open spec fn told(keys: Seq<Option<Seq<char>>>, n: int) -> Seq<Seq<char>>
    decreases n,
{
    if n <= 0 {
        seq![]
    } else {
        match keys[n - 1] {
            Some(key) => told(keys, n - 1).push(key),
            None => told(keys, n - 1),
        }
    }
}

/// The entries of a RESP2 reply.
pub open spec fn resp2_rows(items: Seq<Reply>) -> Seq<(Reply, Reply)> {
    if items.len() > 0 && (items[0] matches Reply::Int(count) && count != 0) {
        in_pairs(items.skip(1))
    } else {
        seq![]
    }
}

/// The entries of a RESP3 reply.
pub open spec fn resp3_rows(pairs: Seq<(Reply, Reply)>) -> Seq<Reply> {
    match results_of(pairs) {
        Some(entries) => entries,
        None => seq![],
    }
}

/// The key of a RESP2 entry that a notice is to be told of.
pub open spec fn noticed(notice: Notice, entry: (Reply, Reply)) -> Option<Seq<char>> {
    match notice {
        Notice::MissingScore => unscored_resp2(entry),
        Notice::TextlessDocument => textless_resp2(entry),
    }
}

/// The keys of the RESP2 entries, before the first fault, that a notice is to be
/// told of.
pub open spec fn told_of_rows(notice: Notice, rows: Seq<(Reply, Reply)>) -> Seq<Seq<char>> {
    told(
        rows.map_values(|row: (Reply, Reply)| noticed(notice, row)),
        first_fault(resp2_entries(false, rows), 0),
    )
}

/// The keys of the hits in a reply that have no score, and so the distance
/// zero. A fault ends the reading.
pub open spec fn unscored(response: Reply) -> Seq<Seq<char>> {
    match response {
        Reply::Array(items) => told_of_rows(Notice::MissingScore, resp2_rows(items@)),
        Reply::Pairs(pairs) => told(
            resp3_rows(pairs@).map_values(|entry: Reply| unscored_resp3(entry)),
            first_fault(resp3_entries(false, resp3_rows(pairs@)), 0),
        ),
        _ => seq![],
    }
}

/// The keys of the RESP2 hits in a reply whose `document` field is no text. A
/// fault ends the reading.
pub open spec fn textless(response: Reply) -> Seq<Seq<char>> {
    match response {
        Reply::Array(items) => told_of_rows(Notice::TextlessDocument, resp2_rows(items@)),
        _ => seq![],
    }
}

/// The hits without a document.
pub open spec fn without_documents(hits: Seq<HitView>) -> Seq<HitView> {
    hits.filter(|hit: HitView| hit.document.len() == 0)
}

/// The keys of the hits that a search for documents leaves out because their
/// document is missing or empty. A fault leaves no hits at all.
pub open spec fn dropped(response: Reply) -> Seq<Seq<char>> {
    match search_outcome(true, response) {
        Ok(hits) => without_documents(hits).map_values(|hit: HitView| hit.id),
        Err(_) => seq![],
    }
}

/// The fields that a document has no scalar for: they are missing, or hold a
/// null, an array or an object.
pub open spec fn skipped(json: JsonValue, fields: Seq<Seq<char>>) -> Seq<Seq<char>> {
    fields.filter(|field: Seq<char>| metadata_value(json, field) is None)
}

fn finds_score(fields: &Vec<Reply>) -> (found: bool)
    ensures
        found == has_score(in_pairs(fields@)),
{
    let ghost pairs = in_pairs(fields@);
    let len: usize = fields.len();
    let size: usize = len / 2;
    for i in 0..size
        invariant
            len == fields@.len(),
            size == len / 2,
            pairs == in_pairs(fields@),
            forall|j: int|
                0 <= j < i ==> string_of((#[trigger] pairs[j]).0) != Some("__vector_score"@),
    {
        assert(pairs[i as int] == (fields@[2 * i], fields@[2 * i + 1]));
        if let Some(name) = extract_string(&fields[2 * i]) {
            if same_text(name.as_str(), "__vector_score") {
                return true;
            }
        }
    }
    false
}

fn finds_textless(fields: &Vec<Reply>) -> (found: bool)
    ensures
        found == has_textless(in_pairs(fields@)),
{
    let ghost pairs = in_pairs(fields@);
    let len: usize = fields.len();
    let size: usize = len / 2;
    for i in 0..size
        invariant
            len == fields@.len(),
            size == len / 2,
            pairs == in_pairs(fields@),
            forall|j: int|
                0 <= j < i ==> !(string_of((#[trigger] pairs[j]).0) == Some("document"@)
                    && string_of(pairs[j].1) is None),
    {
        assert(pairs[i as int] == (fields@[2 * i], fields@[2 * i + 1]));
        if let Some(name) = extract_string(&fields[2 * i]) {
            if same_text(name.as_str(), "document") && extract_string(&fields[2 * i + 1]).is_none() {
                return true;
            }
        }
    }
    false
}

fn finds_score_in_map(fields: &Vec<(Reply, Reply)>) -> (found: bool)
    ensures
        found == has_score(fields@),
{
    for i in 0..fields.len()
        invariant
            forall|j: int|
                0 <= j < i ==> string_of((#[trigger] fields@[j]).0) != Some("__vector_score"@),
    {
        if let Some(name) = extract_string(&fields[i].0) {
            if same_text(name.as_str(), "__vector_score") {
                assert(string_of(fields@[i as int].0) == Some("__vector_score"@));
                return true;
            }
        }
    }
    false
}

fn finds_attributes(pairs: &Vec<(Reply, Reply)>) -> (found: bool)
    ensures
        found == is_scored(pairs@),
{
    for i in 0..pairs.len()
        invariant
            forall|j: int| 0 <= j < i ==> !is_scored_pair(#[trigger] pairs@[j]),
    {
        if let Some(name) = extract_string(&pairs[i].0) {
            if same_text(name.as_str(), "extra_attributes") {
                if let Reply::Pairs(fields) = &pairs[i].1 {
                    if finds_score_in_map(fields) {
                        assert(is_scored_pair(pairs@[i as int]));
                        return true;
                    }
                }
            }
        }
    }
    false
}

/// The key of a RESP2 entry that a notice is to be told of.
fn tell_row(notice: Notice, key: &Reply, value: &Reply) -> (told: Option<String>)
    ensures
        opt_text(told) == noticed(notice, (*key, *value)),
{
    let id = match extract_string(key) {
        Some(id) => id,
        None => {
            return None;
        },
    };
    if let Reply::Array(fields) = value {
        let tells = match notice {
            Notice::MissingScore => !finds_score(fields),
            Notice::TextlessDocument => finds_textless(fields),
        };
        if tells {
            return Some(id);
        }
    }
    None
}

fn tell_rows(notice: Notice, items: &Vec<Reply>) -> (ids: Vec<String>)
    ensures
        texts(ids@) == told_of_rows(notice, resp2_rows(items@)),
{
    let ghost rows = resp2_rows(items@);
    let ghost entries = resp2_entries(false, rows);
    let ghost keys = rows.map_values(|row: (Reply, Reply)| noticed(notice, row));
    let mut ids: Vec<String> = Vec::new();
    assert(texts(ids@) =~= told(keys, 0));
    if items.len() == 0 {
        return ids;
    }
    match &items[0] {
        Reply::Int(count) => {
            if *count == 0 {
                return ids;
            }
        },
        _ => {
            return ids;
        },
    }
    let len: usize = items.len();
    let size: usize = (len - 1) / 2;
    for i in 0..size
        invariant
            0 < len == items@.len(),
            size == (len - 1) / 2,
            rows == resp2_rows(items@),
            rows == in_pairs(items@.skip(1)),
            entries == resp2_entries(false, rows),
            keys == rows.map_values(|row: (Reply, Reply)| noticed(notice, row)),
            first_fault(entries, 0) == first_fault(entries, i as int),
            texts(ids@) == told(keys, i as int),
    {
        let ghost before = texts(ids@);
        proof {
            assert(rows[i as int] == (items@[2 * i + 1], items@[2 * i + 2]));
            assert(entries[i as int] == resp2_entry(false, rows[i as int]));
        }
        if take_resp2_entry(&items[2 * i + 1], &items[2 * i + 2], false).is_err() {
            return ids;
        }
        if let Some(id) = tell_row(notice, &items[2 * i + 1], &items[2 * i + 2]) {
            ids.push(id);
            assert(texts(ids@) =~= before.push(id@));
        }
    }
    ids
}

fn tell_entries(items: &Vec<Reply>) -> (ids: Vec<String>)
    ensures
        texts(ids@) == told(
            items@.map_values(|entry: Reply| unscored_resp3(entry)),
            first_fault(resp3_entries(false, items@), 0),
        ),
{
    let ghost entries = resp3_entries(false, items@);
    let ghost keys = items@.map_values(|entry: Reply| unscored_resp3(entry));
    let mut ids: Vec<String> = Vec::new();
    assert(texts(ids@) =~= told(keys, 0));
    for i in 0..items.len()
        invariant
            entries == resp3_entries(false, items@),
            keys == items@.map_values(|entry: Reply| unscored_resp3(entry)),
            first_fault(entries, 0) == first_fault(entries, i as int),
            texts(ids@) == told(keys, i as int),
    {
        let ghost before = texts(ids@);
        assert(entries[i as int] == resp3_entry(false, items@[i as int]));
        let hit = match take_resp3_entry(&items[i], false) {
            Ok(hit) => hit,
            Err(_) => {
                return ids;
            },
        };
        if let Some(hit) = hit {
            if let Reply::Pairs(pairs) = &items[i] {
                if !finds_attributes(pairs) {
                    let ghost id = hit.id@;
                    ids.push(hit.id);
                    assert(texts(ids@) =~= before.push(id));
                }
            }
        }
    }
    ids
}

/// Tells which hits of a reply have no `__vector_score`. Their distance is read
/// as zero, which deserves a warning.
pub fn missing_scores(response: &Reply) -> (ids: Vec<String>)
    ensures
        texts(ids@) == unscored(*response),
{
    match response {
        Reply::Array(items) => tell_rows(Notice::MissingScore, items),
        Reply::Pairs(pairs) => match find_results(pairs) {
            Some(entries) => tell_entries(entries),
            None => {
                let ids: Vec<String> = Vec::new();
                assert(texts(ids@) =~= unscored(*response));
                ids
            },
        },
        _ => {
            let ids: Vec<String> = Vec::new();
            assert(texts(ids@) =~= unscored(*response));
            ids
        },
    }
}

/// Tells which hits of a RESP2 reply have a `document` field that is no text, each
/// hit once. In a RESP3 reply such a field counts as missing.
pub fn textless_documents(response: &Reply) -> (ids: Vec<String>)
    ensures
        texts(ids@) == textless(*response),
{
    match response {
        Reply::Array(items) => tell_rows(Notice::TextlessDocument, items),
        _ => {
            let ids: Vec<String> = Vec::new();
            assert(texts(ids@) =~= textless(*response));
            ids
        },
    }
}

/// Tells which hits
/// [`parse_search_response`](crate::search::parse_search_response) leaves out.
pub fn dropped_documents(response: &Reply) -> (ids: Vec<String>)
    ensures
        texts(ids@) == dropped(*response),
{
    let mut ids: Vec<String> = Vec::new();
    let hits = match parse_response_generic(response, true) {
        Ok(hits) => hits,
        Err(_) => {
            assert(texts(ids@) =~= dropped(*response));
            return ids;
        },
    };
    let ghost all = hits@;
    let ghost keys = |shown: Seq<HitView>|
        without_documents(shown).map_values(|hit: HitView| hit.id);
    proof {
        reveal(Seq::filter);
        assert(texts(ids@) =~= keys(hits_view(all.take(0))));
    }
    for hit in it: hits
        invariant
            it.seq() == all,
            keys == |shown: Seq<HitView>|
                without_documents(shown).map_values(|hit: HitView| hit.id),
            texts(ids@) == keys(hits_view(all.take(it.index()))),
    {
        let ghost before = texts(ids@);
        let ghost id = hit.id@;
        proof {
            reveal(Seq::filter);
            let shown = hits_view(all.take(it.index() + 1));
            assert(shown.drop_last() =~= hits_view(all.take(it.index())));
            assert(shown.last() == hit@);
            if hit@.document.len() == 0 {
                assert(keys(shown) =~= before.push(id));
            }
        }
        if hit.document.as_str().is_empty() {
            ids.push(hit.id);
            assert(texts(ids@) =~= before.push(id));
        }
    }
    assert(all.take(all.len() as int) =~= all);
    ids
}

/// Tells which configured fields are not written for a document.
pub fn skipped_metadata(json: &JsonValue, fields: &Vec<String>) -> (names: Vec<String>)
    ensures
        texts(names@) == skipped(*json, texts(fields@)),
{
    let ghost all = texts(fields@);
    let mut names: Vec<String> = Vec::new();
    proof {
        reveal(Seq::filter);
        assert(texts(names@) =~= skipped(*json, all.take(0)));
    }
    for i in 0..fields.len()
        invariant
            all == texts(fields@),
            texts(names@) == skipped(*json, all.take(i as int)),
    {
        let ghost before = texts(names@);
        proof {
            reveal(Seq::filter);
            assert(all.take(i + 1).drop_last() =~= all.take(i as int));
            assert(all.take(i + 1).last() == fields@[i as int]@);
        }
        if field_value(json, fields[i].as_str()).is_none() {
            names.push(fields[i].clone());
            assert(texts(names@) =~= before.push(fields@[i as int]@));
        }
    }
    assert(all.take(all.len() as int) =~= all);
    names
}

/// Every configured field is either written or told as skipped.
pub proof fn metadata_is_written_or_skipped(json: JsonValue, fields: Seq<Seq<char>>)
    ensures
        metadata_of(json, fields).len() + skipped(json, fields).len() == fields.len(),
    decreases fields.len(),
{
    reveal(Seq::filter);
    if fields.len() > 0 {
        metadata_is_written_or_skipped(json, fields.drop_last());
    }
}

/// Every hit is either returned with its document or told as dropped.
pub proof fn hits_are_returned_or_dropped(hits: Seq<HitView>)
    ensures
        with_documents(hits).len() + without_documents(hits).len() == hits.len(),
    decreases hits.len(),
{
    reveal(Seq::filter);
    if hits.len() > 0 {
        hits_are_returned_or_dropped(hits.drop_last());
    }
}

/// Fields without a score leave the distance as it was, and are no fault.
pub proof fn unscored_fields_keep_distance(
    found: Found,
    with_document: bool,
    fields: Seq<(Reply, Reply)>,
)
    requires
        !has_score(fields),
    ensures
        read_fields(found, with_document, fields) matches Ok(read) && read.distance
            == found.distance,
    decreases fields.len(),
{
    if fields.len() > 0 {
        let init = fields.drop_last();
        assert(!has_score(init)) by {
            assert forall|i: int| 0 <= i < init.len() implies string_of((#[trigger] init[i]).0)
                != Some("__vector_score"@) by {
                assert(init[i] == fields[i]);
            }
        }
        unscored_fields_keep_distance(found, with_document, init);
        assert(fields[fields.len() - 1] == fields.last());
    }
}

/// Attributes without a score leave the distance at zero, and are no fault.
proof fn unscored_attributes_are_zero(with_document: bool, pairs: Seq<(Reply, Reply)>)
    requires
        !is_scored(pairs),
    ensures
        read_attributes(with_document, pairs) matches Ok(read) && read.1.distance == NO_DISTANCE,
    decreases pairs.len(),
{
    if pairs.len() > 0 {
        let init = pairs.drop_last();
        assert(!is_scored(init)) by {
            assert forall|i: int| 0 <= i < init.len() implies !is_scored_pair(
                #[trigger] init[i],
            ) by {
                assert(init[i] == pairs[i]);
            }
        }
        unscored_attributes_are_zero(with_document, init);
        let last = pairs.last();
        assert(pairs[pairs.len() - 1] == last);
        let so_far = read_attributes(with_document, init)->Ok_0;
        reveal_strlit("id");
        reveal_strlit("extra_attributes");
        assert("id"@.len() != "extra_attributes"@.len());
        if string_of(last.0) == Some("extra_attributes"@) {
            if let Reply::Pairs(fields) = last.1 {
                unscored_fields_keep_distance(so_far.1, with_document, fields@);
            }
        }
    }
}

/// An entry that is told to have no score is a hit with that key and the
/// distance zero, in either form of a reply.
pub proof fn unscored_hits_have_distance_zero(
    with_document: bool,
    flat: (Reply, Reply),
    mapped: Reply,
)
    ensures
        unscored_resp2(flat) matches Some(id) ==> (resp2_entry(with_document, flat) matches Ok(
            Some(hit),
        ) && hit.id == id && hit.distance == NO_DISTANCE),
        unscored_resp3(mapped) matches Some(id) ==> (resp3_entry(with_document, mapped) matches Ok(
            Some(hit),
        ) && hit.id == id && hit.distance == NO_DISTANCE),
{
    if unscored_resp2(flat) is Some {
        unscored_fields_keep_distance(
            nothing_found(),
            with_document,
            in_pairs(flat.1->Array_0@),
        );
    }
    if unscored_resp3(mapped) is Some {
        unscored_attributes_are_zero(with_document, mapped->Pairs_0@);
        attributes_agree(mapped->Pairs_0@);
    }
}

} // verus!
