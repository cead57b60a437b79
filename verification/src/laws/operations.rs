//! Laws of the operations themselves: what a call returns, whatever its arguments.

use vstd::prelude::*;
use vstd::utf8::encode_utf8;

use crate::command::{command_args, pipeline_commands};
use crate::escape::{
    escape, escape_field_segment, escape_tag_value, escape_text_value, field_name, Place,
};
use crate::filter::{
    core_outcome, eq_outcome, gt_number_filter, gt_outcome, gte_number_filter, gte_outcome,
    is_numeral, lt_number_filter, lt_outcome, lte_number_filter, lte_outcome, numeric_bound,
    numeric_eq_filter, tag_list, value_outcome, CoreFilter, Filter, FilterError, FilterFault,
    RedisNumber, RedisValue, ValueView,
};
use crate::float::{at_least, embedding_to_bytes, finite, is_at_least, is_finite};
use crate::insert::{
    count_embeddings, extract_metadata, hash_args, insert_commands, is_uuid, metadata_of, Document,
    Embedding,
};
use crate::json::{get, hash_field, json_value_to_hash_field, member, Double, JsonValue};
use crate::laws::commands::{
    created_indexes_declare_the_store, hashes_hold_all_metadata, insertions_keep_their_places,
    searches_return_what_is_asked_for,
};
use crate::laws::filters::{
    combinations_are_written, field_asks, ranges_are_written, refusals_tell_the_number,
    text_filters_are_written, value_filters_are_written,
};
use crate::laws::searches::{every_readable_hit_keeps_its_place, results_keep_their_places};
use crate::laws::values::vectors_are_written_number_by_number;
use crate::notice::{
    dropped, dropped_documents, missing_scores, skipped, skipped_metadata, textless,
    textless_documents, unscored,
};
use crate::reply::{extract_string, string_of, texts, Reply};
use crate::response::{
    distance_of, extract_distance, fault_message, hits_view, parse_resp2_array, parse_resp3_map,
    parse_response_generic, resp2_outcome, resp3_outcome, search_outcome, Fault, Hit, HitView,
    ResponseError,
};
use crate::search::{
    above, all_finite, attach_documents, embed_query, ids_above, ids_view, parse_search_response,
    parse_search_response_ids, readable, results_view, top_n, top_n_ids, with_documents,
    NonFiniteEmbedding,
};
use crate::store::{
    create_words, description_outcome, field_type_name, filter_reserved_metadata_fields,
    filter_text, index_message, index_view, knn_query, metric_name, unreserved, DistanceMetric,
    IndexError, IndexFault, MetadataFieldType, RedisVectorStore, SearchRequest, StoreView,
};
use crate::text::{decimal, decimal_i64, decimal_u64, eq_ignore_ascii_case, same_ignoring_case};

verus! {

/// Attached documents come in the order of the hits: where every hit has one,
/// result `i` has the distance, the key and the document of hit `i`.
pub proof fn attaching_keeps_the_order<T>(
    hits: Vec<(Hit, Option<T>)>,
    results: Vec<(u64, String, T)>,
    i: int,
)
    requires
        call_ensures(attach_documents::<T>, (hits,), results),
        forall|j: int| 0 <= j < hits@.len() ==> (#[trigger] hits@[j]).1 is Some,
    ensures
        results@.len() == hits@.len(),
        0 <= i < hits@.len() ==> {
            &&& results@[i].0 == hits@[i].0.distance
            &&& results@[i].1@ == hits@[i].0.id@
            &&& results@[i].2 == hits@[i].1.unwrap()
        },
{
    every_readable_hit_keeps_its_place(hits@, i);
    let seen = crate::search::results_view(results@);
    crate::laws::searches::results_keep_their_places(results@, seq![], seq![], i);
    assert(seen == readable(hits@));
    if 0 <= i < hits@.len() {
        assert(seen[i] == (results@[i].0, results@[i].1@, results@[i].2));
    }
}

/// Words in parentheses and phrases in quotes: what a text filter says of its
/// field.
pub proof fn text_filters_say_their_words(
    key: &str,
    text: &str,
    words: Filter,
    phrase: Filter,
)
    requires
        call_ensures(Filter::text_contains, (key, text), words),
        call_ensures(Filter::text_phrase, (key, text), phrase),
    ensures
        words@ == field_asks(key@, seq!['('] + escape(Place::Words, text@) + seq![')']),
        phrase@ == field_asks(key@, seq!['"'] + escape(Place::Words, text@) + seq!['"']),
{
    text_filters_are_written(key@, seq![], text@);
}

/// The command that creates an index has the words of the store, in their places.
pub proof fn creating_declares_the_vector_field(
    store: &RedisVectorStore,
    dimensions: usize,
    fields: &[(String, MetadataFieldType)],
    command: redis::Cmd,
)
    requires
        call_ensures(RedisVectorStore::create_index, (store, dimensions, fields), command),
    ensures
        ({
            let args = command_args(command);
            let start: int = if store@.key_prefix is Some { 7 } else { 4 };
            &&& args.len() == start + 15 + 2 * fields@.len()
            &&& args[1] == encode_utf8(store@.index_name)
            &&& args[start + 5] == encode_utf8(store@.vector_field)
            &&& args[start + 12] == encode_utf8(decimal(dimensions as int))
            &&& args[start + 14] == encode_utf8(metric_name(store@.distance_metric))
        }),
{
    let words = crate::store::create_words(store@, dimensions as nat, fields@);
    let start: int = if store@.key_prefix is Some { 7 } else { 4 };
    created_indexes_declare_the_store(store@, dimensions as nat, fields@, 0);
    let first = seq!["FT.CREATE"@, store@.index_name, "ON"@, "HASH"@];
    assert(words[0int + 1] == first[1]);
    let vector = seq![store@.vector_field, "VECTOR"@, "FLAT"@, "6"@, "TYPE"@, "FLOAT32"@, "DIM"@];
    assert(words[start + 5 + 0] == vector[0]);
    let rest = seq![
        decimal(dimensions as int),
        "DISTANCE_METRIC"@,
        metric_name(store@.distance_metric),
    ];
    assert(words[start + 12 + 0] == rest[0]);
    assert(words[start + 12 + 2] == rest[2]);
}


/// Whether the hits that were returned are those that a reply holds, each in its
/// place, or the error is the reply's fault.
pub open spec fn returns_hits(
    result: Result<Vec<Hit>, ResponseError>,
    outcome: Result<Seq<HitView>, Fault>,
) -> bool {
    match (result, outcome) {
        (Ok(returned), Ok(hits)) => returned@.len() == hits.len() && forall|i: int|
            0 <= i < hits.len() ==> {
                &&& (#[trigger] returned@[i]).distance == hits[i].distance
                &&& returned@[i].id@ == hits[i].id
                &&& returned@[i].document@ == hits[i].document
            },
        (Err(error), Err(fault)) => error@ == fault,
        _ => false,
    }
}

proof fn views_return_hits(result: Result<Vec<Hit>, ResponseError>, outcome: Result<Seq<HitView>, Fault>)
    requires
        match result {
            Ok(returned) => outcome == Ok::<Seq<HitView>, Fault>(hits_view(returned@)),
            Err(error) => outcome == Err::<Seq<HitView>, Fault>(error@),
        },
    ensures
        returns_hits(result, outcome),
{
    if let (Ok(returned), Ok(hits)) = (result, outcome) {
        assert forall|i: int| 0 <= i < hits.len() implies {
            &&& (#[trigger] returned@[i]).distance == hits[i].distance
            &&& returned@[i].id@ == hits[i].id
            &&& returned@[i].document@ == hits[i].document
        } by {
            assert(hits[i] == returned@[i]@);
        }
    }
}

/// Reading a reply returns its hits in order, or its fault, in either form.
pub proof fn reading_returns_the_hits(
    response: &Reply,
    items: &Vec<Reply>,
    pairs: &Vec<(Reply, Reply)>,
    with_document: bool,
    result: Result<Vec<Hit>, ResponseError<'static>>,
    flat: Result<Vec<Hit>, ResponseError<'static>>,
    mapped: Result<Vec<Hit>, ResponseError<'static>>,
)
    requires
        call_ensures(parse_response_generic, (response, with_document), result),
        call_ensures(parse_resp2_array, (items, with_document), flat),
        call_ensures(parse_resp3_map, (pairs, with_document), mapped),
    ensures
        returns_hits(result, search_outcome(with_document, *response)),
        returns_hits(flat, resp2_outcome(with_document, items@)),
        returns_hits(mapped, resp3_outcome(with_document, pairs@)),
{
    views_return_hits(result, search_outcome(with_document, *response));
    views_return_hits(flat, resp2_outcome(with_document, items@));
    views_return_hits(mapped, resp3_outcome(with_document, pairs@));
}

/// A search for documents returns the reply's hits that have one, in order; a
/// search for identifiers the distance and the key of every hit, in order; and both
/// return the reply's fault.
pub proof fn searches_return_the_hits(
    response: &Reply,
    documents: Result<Vec<Hit>, ResponseError<'static>>,
    ids: Result<Vec<(u64, String)>, ResponseError<'static>>,
)
    requires
        call_ensures(parse_search_response, (response,), documents),
        call_ensures(parse_search_response_ids, (response,), ids),
    ensures
        returns_hits(
            documents,
            match search_outcome(true, *response) {
                Ok(hits) => Ok(with_documents(hits)),
                Err(fault) => Err(fault),
            },
        ),
        match (ids, search_outcome(false, *response)) {
            (Ok(ids), Ok(hits)) => ids@.len() == hits.len() && forall|i: int|
                0 <= i < hits.len() ==> (#[trigger] ids@[i]).0 == hits[i].distance && ids@[i].1@
                    == hits[i].id,
            (Err(error), Err(fault)) => error@ == fault,
            _ => false,
        },
{
    views_return_hits(
        documents,
        match search_outcome(true, *response) {
            Ok(hits) => Ok(with_documents(hits)),
            Err(fault) => Err(fault),
        },
    );
    if let (Ok(ids), Ok(hits)) = (ids, search_outcome(false, *response)) {
        assert(ids_view(ids@) == crate::search::ids_of(hits));
        results_keep_their_places::<u8>(seq![], ids@, hits, 0);
        assert forall|i: int| 0 <= i < hits.len() implies (#[trigger] ids@[i]).0
            == hits[i].distance && ids@[i].1@ == hits[i].id by {
            assert(ids_view(ids@)[i] == crate::search::ids_of(hits)[i]);
        }
    }
}

/// Scores and texts are read off a reply as it holds them.
pub proof fn scalars_are_extracted(
    value: &Reply,
    text: Option<String>,
    distance: Result<u64, ResponseError<'static>>,
)
    requires
        call_ensures(extract_string, (value,), text),
        call_ensures(extract_distance, (value,), distance),
    ensures
        match (text, string_of(*value)) {
            (Some(text), Some(seen)) => text@ == seen,
            (None, None) => true,
            _ => false,
        },
        match (distance, distance_of(*value)) {
            (Ok(distance), Ok(bits)) => distance == bits,
            (Err(error), Err(fault)) => error@ == fault,
            _ => false,
        },
{
}

/// Without a threshold all results are returned as they are, in order; with one,
/// those that are not under it.
pub proof fn thresholds_return_what_passes<T>(
    scored: Vec<(u64, String, T)>,
    ids: Vec<(u64, String)>,
    threshold: Option<u64>,
    results: Vec<(u64, String, T)>,
    kept: Vec<(u64, String)>,
    i: int,
)
    requires
        call_ensures(top_n::<T>, (scored, threshold), results),
        call_ensures(top_n_ids, (ids, threshold), kept),
    ensures
        results_view(results@) == above(results_view(scored@), threshold),
        ids_view(kept@) == ids_above(ids_view(ids@), threshold),
        threshold is None ==> results@.len() == scored@.len() && kept@.len() == ids@.len(),
        threshold is None && 0 <= i < scored@.len() ==> results@[i].0 == scored@[i].0
            && results@[i].1@ == scored@[i].1@ && results@[i].2 == scored@[i].2,
        threshold is None && 0 <= i < ids@.len() ==> kept@[i].0 == ids@[i].0 && kept@[i].1@
            == ids@[i].1@,
{
    if threshold is None {
        crate::agreement::thresholds_are_exact(results_view(scored@), threshold);
        crate::agreement::id_thresholds_are_exact(ids_view(ids@), threshold);
        results_keep_their_places(results@, kept@, seq![], i);
        results_keep_their_places(scored@, ids@, seq![], i);
    }
}

/// A query's vector is refused exactly if one of its numbers is not finite, and is
/// otherwise written number by number.
pub proof fn queries_are_embedded(
    doubles: &Vec<u64>,
    singles: &Vec<u32>,
    result: Result<Vec<u8>, NonFiniteEmbedding>,
    bytes: Vec<u8>,
    i: int,
)
    requires
        call_ensures(embed_query, (doubles, singles), result),
        call_ensures(embedding_to_bytes, (singles,), bytes),
    ensures
        result is Err <==> exists|j: int| 0 <= j < doubles@.len() && !is_finite(
            #[trigger] doubles@[j],
        ),
        result matches Ok(embedded) ==> embedded@ == bytes@,
        bytes@.len() == 4 * singles@.len(),
        0 <= i < singles@.len() ==> bytes@[4 * i] + 0x100 * bytes@[4 * i + 1] + 0x1_0000 * bytes@[4
            * i + 2] + 0x100_0000 * bytes@[4 * i + 3] == singles@[i],
{
    if 0 <= i < singles@.len() {
        vectors_are_written_number_by_number(singles@, i);
    }
    crate::float::embedding_length(singles@);
    assert(result is Ok <==> all_finite(doubles@));
}

/// Escaping, numerals, comparisons and look-ups return what they are called for.
pub proof fn helpers_return_what_they_say(
    text: &str,
    other: &str,
    tag: String,
    words: String,
    segment: String,
    name: String,
    same: bool,
)
    requires
        call_ensures(escape_tag_value, (text,), tag),
        call_ensures(escape_text_value, (text,), words),
        call_ensures(escape_field_segment, (text,), segment),
        call_ensures(field_name, (text,), name),
        call_ensures(eq_ignore_ascii_case, (text, other), same),
    ensures
        tag@ == escape(Place::Tag, text@),
        words@ == escape(Place::Words, text@),
        segment@ == escape(Place::Segment, text@),
        name@ == escape(Place::Field, text@),
        same == same_ignoring_case(text@, other@),
{
}

/// Numbers print in decimal, and patterns are tested and compared.
pub proof fn numbers_are_handled(
    n: u64,
    i: i64,
    natural: String,
    signed: String,
    left: u64,
    right: u64,
    is_number: bool,
    compared: bool,
)
    requires
        call_ensures(decimal_u64, (n,), natural),
        call_ensures(decimal_i64, (i,), signed),
        call_ensures(finite, (left,), is_number),
        call_ensures(at_least, (left, right), compared),
    ensures
        natural@ == decimal(n as int),
        signed@ == decimal(i as int),
        is_number == is_finite(left),
        compared == is_at_least(left, right),
{
}

/// Members, flat texts and metadata of JSON values are returned as they are.
pub proof fn json_is_looked_up(
    value: &JsonValue,
    name: &str,
    found: Option<&JsonValue>,
    flat: Option<String>,
    fields: &Vec<String>,
    metadata: Vec<(String, String)>,
    names: Vec<String>,
    i: int,
)
    requires
        call_ensures(get, (value, name), found),
        call_ensures(json_value_to_hash_field, (value,), flat),
        call_ensures(extract_metadata, (value, fields), metadata),
        call_ensures(skipped_metadata, (value, fields), names),
    ensures
        match (found, member(*value, name@)) {
            (Some(found), Some(seen)) => *found == seen,
            (None, None) => true,
            _ => false,
        },
        match (flat, hash_field(*value)) {
            (Some(flat), Some(text)) => flat@ == text,
            (None, None) => true,
            _ => false,
        },
        metadata@.len() == metadata_of(*value, texts(fields@)).len(),
        0 <= i < metadata@.len() ==> metadata_of(*value, texts(fields@))[i] == (
            metadata@[i].0@,
            metadata@[i].1@,
        ),
        names@.len() == skipped(*value, texts(fields@)).len(),
        0 <= i < names@.len() ==> skipped(*value, texts(fields@))[i] == names@[i]@,
{
    crate::laws::commands::pairs_and_arguments_keep_their_places(
        metadata@,
        i,
        seq![],
        seq![],
    );
    crate::laws::values::texts_keep_their_places(names@, seq![], i);
}

/// Notices are returned key by key.
pub proof fn notices_are_returned(
    response: &Reply,
    scores: Vec<String>,
    documents: Vec<String>,
    lost: Vec<String>,
    i: int,
)
    requires
        call_ensures(missing_scores, (response,), scores),
        call_ensures(textless_documents, (response,), documents),
        call_ensures(dropped_documents, (response,), lost),
    ensures
        scores@.len() == unscored(*response).len(),
        0 <= i < scores@.len() ==> scores@[i]@ == unscored(*response)[i],
        documents@.len() == textless(*response).len(),
        0 <= i < documents@.len() ==> documents@[i]@ == textless(*response)[i],
        lost@.len() == dropped(*response).len(),
        0 <= i < lost@.len() ==> lost@[i]@ == dropped(*response)[i],
{
    crate::laws::values::texts_keep_their_places(scores@, seq![], i);
    crate::laws::values::texts_keep_their_places(documents@, seq![], i);
    crate::laws::values::texts_keep_their_places(lost@, seq![], i);
}

/// A raw filter is its query, and gives it back; a negation and the two ways of
/// joining are written round the filters that they are made of.
pub proof fn filters_are_combined(
    query: String,
    raw: Filter,
    back: String,
    left: Filter,
    right: Filter,
    not: Filter,
    and: Filter,
    or: Filter,
)
    requires
        call_ensures(Filter::raw, (query,), raw),
        call_ensures(Filter::into_inner, (left,), back),
        call_ensures(Filter::not, (left,), not),
        call_ensures(Filter::and, (left, right), and),
        call_ensures(Filter::or, (left, right), or),
    ensures
        raw@ == query@,
        back@ == left@,
        not@ == seq!['-'] + left@,
        and@ == seq!['('] + left@ + seq![' '] + right@ + seq![')'],
        or@ == seq!['('] + left@ + seq![' ', '|', ' '] + right@ + seq![')'],
{
    combinations_are_written(left@, right@);
}

/// A range of two finite bounds is written with them, with round brackets where they
/// are left out; a bound that is not finite is refused, the lower one first.
pub proof fn ranges_take_finite_bounds(
    key: &str,
    min: Double,
    max: Double,
    within: Result<Filter, FilterError>,
    between: Result<Filter, FilterError>,
)
    requires
        call_ensures(Filter::range, (key, min, max), within),
        call_ensures(Filter::range_exclusive, (key, min, max), between),
    ensures
        is_numeral(min.text@) && is_numeral(max.text@) ==> within is Ok && between is Ok,
        within matches Ok(filter) ==> filter@ == field_asks(
            key@,
            seq!['['] + min.text@ + seq![' '] + max.text@ + seq![']'],
        ) && is_numeral(min.text@) && is_numeral(max.text@),
        between matches Ok(filter) ==> filter@ == field_asks(
            key@,
            seq!['[', '('] + min.text@ + seq![' ', '('] + max.text@ + seq![']'],
        ),
        within matches Err(error) ==> error@ == (FilterFault::Expected {
            expected: "finite numeric value for Redis numeric filter"@,
            got: if is_numeral(min.text@) {
                max.text@
            } else {
                min.text@
            },
        }),
        between matches Err(error) ==> (within matches Err(other) && other@ == error@),
{
    if is_numeral(min.text@) && is_numeral(max.text@) {
        ranges_are_written(key@, min.text@, max.text@);
    } else {
        refusals_tell_the_number(key@, min.text@, max.text@);
    }
}

/// A filter on tags holds every tag; without tags it matches all.
pub proof fn tag_filters_hold_their_tags(key: &str, values: Vec<String>, filter: Filter)
    requires
        call_ensures(Filter::tag_in, (key, values), filter),
    ensures
        values@.len() == 0 ==> filter@ == seq!['*'],
        values@.len() > 0 ==> filter@ == field_asks(
            key@,
            seq!['{'] + tag_list(texts(values@)) + seq!['}'],
        ),
{
    reveal_strlit("*");
    assert("*"@ =~= seq!['*']);
    text_filters_are_written(key@, tag_list(texts(values@)), seq![]);
}

/// A number filter is written with its number.
pub proof fn number_filters_hold_their_number(
    key: &str,
    number: RedisNumber,
    eq: Filter,
    gt: Filter,
    lt: Filter,
    gte: Filter,
    lte: Filter,
)
    requires
        call_ensures(numeric_eq_filter, (key, number), eq),
        call_ensures(gt_number_filter, (key, number), gt),
        call_ensures(lt_number_filter, (key, number), lt),
        call_ensures(gte_number_filter, (key, number), gte),
        call_ensures(lte_number_filter, (key, number), lte),
        is_numeral(number@),
    ensures
        eq@ == field_asks(key@, seq!['['] + number@ + seq![' '] + number@ + seq![']']),
        gt@ == field_asks(
            key@,
            seq!['[', '('] + number@ + seq![' ', '+', 'i', 'n', 'f', ']'],
        ),
        lt@ == field_asks(
            key@,
            seq!['[', '-', 'i', 'n', 'f', ' ', '('] + number@ + seq![']'],
        ),
        gte@ == field_asks(key@, seq!['['] + number@ + seq![' ', '+', 'i', 'n', 'f', ']']),
        lte@ == field_asks(key@, seq!['[', '-', 'i', 'n', 'f', ' '] + number@ + seq![']']),
{
    value_filters_are_written(key@, ValueView::Number(number@));
}

/// A number is taken exactly if it is finite, as it is; a bound only if it is a
/// number.
pub proof fn numbers_are_taken_as_they_are(
    double: Double,
    number: Result<RedisNumber, FilterError>,
    value: RedisValue,
    operation: &str,
    bound: Result<RedisNumber, FilterError>,
)
    requires
        call_ensures(RedisNumber::new, (double,), number),
        call_ensures(numeric_bound, (value, operation), bound),
    ensures
        number is Ok <==> is_numeral(double.text@),
        number matches Ok(taken) ==> taken@ == double.text@,
        number matches Err(error) ==> error@ == (FilterFault::Expected {
            expected: "finite numeric value for Redis numeric filter"@,
            got: double.text@,
        }),
        bound is Ok <==> (value@ matches ValueView::Number(text) && is_numeral(text)),
        bound matches Ok(taken) ==> value@ == ValueView::Number(taken@),
{
}

/// A search sends the index, the query, the vector as it is, exactly the fields that
/// are asked for, and the limit, whatever the filter is.
pub proof fn searching_returns_what_is_asked_for(
    store: &RedisVectorStore,
    vector: &Vec<u8>,
    request: &SearchRequest,
    with_document: bool,
    command: redis::Cmd,
)
    requires
        call_ensures(
            RedisVectorStore::execute_search,
            (store, vector, request, with_document),
            command,
        ),
    ensures
        ({
            let args = command_args(command);
            let end: int = if with_document { 13 } else { 12 };
            &&& args.len() == end + 5
            &&& args[0] == encode_utf8("FT.SEARCH"@)
            &&& args[1] == encode_utf8(store@.index_name)
            &&& args[2] == encode_utf8(
                knn_query(store@, filter_text(request.filter), request.samples as nat),
            )
            &&& args[6] == vector@
            &&& args[7] == encode_utf8("SORTBY"@)
            &&& args[8] == encode_utf8("__vector_score"@)
            &&& args[9] == encode_utf8("RETURN"@)
            &&& args[10] == encode_utf8(
                if with_document {
                    "2"@
                } else {
                    "1"@
                },
            )
            &&& args[11] == encode_utf8("__vector_score"@)
            &&& with_document ==> args[12] == encode_utf8("document"@)
            &&& args[end + 2] == encode_utf8("LIMIT"@)
            &&& args[end + 3] == encode_utf8("0"@)
            &&& args[end + 4] == encode_utf8(decimal(request.samples as int))
        }),
{
    let filter = filter_text(request.filter);
    let samples = request.samples as nat;
    let args = command_args(command);
    let end: int = if with_document { 13 } else { 12 };
    searches_return_what_is_asked_for(store@, vector@, filter, samples, with_document);
    let first = seq![
        "FT.SEARCH"@,
        store@.index_name,
        knn_query(store@, filter, samples),
        "PARAMS"@,
        "2"@,
        "vec"@,
    ];
    assert(args[0int + 0] == encode_utf8(first[0]));
    assert(args[0int + 1] == encode_utf8(first[1]));
    assert(args[0int + 2] == encode_utf8(first[2]));
    let order = seq!["SORTBY"@, "__vector_score"@, "RETURN"@];
    assert(args[7int + 0] == encode_utf8(order[0]));
    assert(args[7int + 1] == encode_utf8(order[1]));
    assert(args[7int + 2] == encode_utf8(order[2]));
    if with_document {
        let fields = seq!["2"@, "__vector_score"@, "document"@];
        assert(args[10int + 0] == encode_utf8(fields[0]));
        assert(args[10int + 1] == encode_utf8(fields[1]));
        assert(args[10int + 2] == encode_utf8(fields[2]));
    } else {
        let fields = seq!["1"@, "__vector_score"@];
        assert(args[10int + 0] == encode_utf8(fields[0]));
        assert(args[10int + 1] == encode_utf8(fields[1]));
    }
    let last = seq!["DIALECT"@, "2"@, "LIMIT"@, "0"@, decimal(samples as int)];
    assert(args[end + 2] == encode_utf8(last[2]));
    assert(args[end + 3] == encode_utf8(last[3]));
    assert(args[end + 4] == encode_utf8(last[4]));
}

/// Keys are deleted in order, all of them, and no keys ask for no command. The
/// description is asked for by the index's name. Nothing is asked for exactly if
/// the number of samples is zero.
pub proof fn keys_are_deleted(
    store: &RedisVectorStore,
    ids: &[String],
    deletion: Option<redis::Cmd>,
    info: redis::Cmd,
    request: &SearchRequest,
    none: bool,
    i: int,
)
    requires
        call_ensures(RedisVectorStore::delete, (store, ids), deletion),
        call_ensures(RedisVectorStore::index_info, (store,), info),
        call_ensures(SearchRequest::asks_for_none, (request,), none),
    ensures
        deletion is None <==> ids@.len() == 0,
        deletion matches Some(command) ==> {
            &&& command_args(command).len() == 1 + ids@.len()
            &&& command_args(command)[0] == encode_utf8("UNLINK"@)
            &&& 0 <= i < ids@.len() ==> command_args(command)[1 + i] == encode_utf8(ids@[i]@)
        },
        command_args(info).len() == 2,
        command_args(info)[0] == encode_utf8("FT.INFO"@),
        command_args(info)[1] == encode_utf8(store@.index_name),
        none <==> request.samples == 0,
{
}

/// Insertion writes one hash for each embedding, in order, under the key made of the
/// identifier of the same place, with the document's JSON, the embedding's text and
/// vector, and every pair of the document's metadata.
pub proof fn inserting_writes_every_pair(
    store: &RedisVectorStore,
    documents: &Vec<Document>,
    ids: &Vec<String>,
    pipeline: redis::Pipeline,
    d: int,
    e: int,
    k: int,
)
    requires
        call_ensures(RedisVectorStore::insert_with_ids, (store, documents, ids), pipeline),
        ids@.len() == count_embeddings(documents@),
        0 <= d < documents@.len(),
        0 <= e < documents@[d].embeddings@.len(),
    ensures
        ({
            let place = count_embeddings(documents@.take(d)) + e;
            let commands = pipeline_commands(pipeline);
            let args = commands[place].0;
            let metadata = metadata_of(documents@[d].json, store@.metadata_fields);
            &&& commands.len() == ids@.len()
            &&& 0 <= place < ids@.len()
            &&& commands[place].1
            &&& args.len() == 8 + 2 * metadata.len()
            &&& args[0] == encode_utf8("HSET"@)
            &&& args[1] == encode_utf8(
                match store@.key_prefix {
                    Some(prefix) => prefix + ids@[place]@,
                    None => ids@[place]@,
                },
            )
            &&& args[2] == encode_utf8("document"@)
            &&& args[3] == encode_utf8(documents@[d].text@)
            &&& args[4] == encode_utf8("embedded_text"@)
            &&& args[5] == encode_utf8(documents@[d].embeddings@[e].document@)
            &&& args[6] == encode_utf8(store@.vector_field)
            &&& args[7] == crate::float::le_bytes_of(documents@[d].embeddings@[e].singles@)
            &&& 0 <= k < metadata.len() ==> args[8 + 2 * k] == encode_utf8(metadata[k].0) && args[9
                + 2 * k] == encode_utf8(metadata[k].1)
        }),
{
    let names = texts(ids@);
    let place = count_embeddings(documents@.take(d)) + e;
    insertions_keep_their_places(store@, documents@, names, d, e);
    crate::laws::values::texts_keep_their_places(ids@, seq![], place);
    let key = match store@.key_prefix {
        Some(prefix) => prefix + names[place],
        None => names[place],
    };
    hashes_are_written(
        key,
        store@.vector_field,
        documents@[d].text@,
        documents@[d].embeddings@[e],
        metadata_of(documents@[d].json, store@.metadata_fields),
        k,
    );
}

/// The words of the command that writes a hash.
proof fn hashes_are_written(
    key: Seq<char>,
    vector_field: Seq<char>,
    text: Seq<char>,
    embedding: Embedding,
    metadata: Seq<(Seq<char>, Seq<char>)>,
    k: int,
)
    ensures
        ({
            let args = hash_args(key, vector_field, text, embedding, metadata);
            &&& args.len() == 8 + 2 * metadata.len()
            &&& args[0] == encode_utf8("HSET"@)
            &&& args[1] == encode_utf8(key)
            &&& args[2] == encode_utf8("document"@)
            &&& args[3] == encode_utf8(text)
            &&& args[4] == encode_utf8("embedded_text"@)
            &&& args[5] == encode_utf8(embedding.document@)
            &&& args[6] == encode_utf8(vector_field)
            &&& args[7] == crate::float::le_bytes_of(embedding.singles@)
            &&& 0 <= k < metadata.len() ==> args[8 + 2 * k] == encode_utf8(metadata[k].0) && args[9
                + 2 * k] == encode_utf8(metadata[k].1)
        }),
{
    hashes_hold_all_metadata(key, vector_field, text, embedding, metadata, k);
    let args = hash_args(key, vector_field, text, embedding, metadata);
    let first = seq![
        "HSET"@,
        key,
        "document"@,
        text,
        "embedded_text"@,
        embedding.document@,
        vector_field,
    ];
    assert(args[0int + 0] == encode_utf8(first[0]));
    assert(args[0int + 1] == encode_utf8(first[1]));
    assert(args[0int + 2] == encode_utf8(first[2]));
    assert(args[0int + 3] == encode_utf8(first[3]));
    assert(args[0int + 4] == encode_utf8(first[4]));
    assert(args[0int + 5] == encode_utf8(first[5]));
    assert(args[0int + 6] == encode_utf8(first[6]));
}

/// Insertion without given identifiers makes one up for each embedding, and writes
/// one hash for each, in order, under the key that ends in it.
pub proof fn inserting_makes_up_the_keys(
    store: &RedisVectorStore,
    documents: &Vec<Document>,
    pipeline: redis::Pipeline,
    d: int,
    e: int,
    k: int,
)
    requires
        call_ensures(RedisVectorStore::insert_documents, (store, documents), pipeline),
        0 <= d < documents@.len(),
        0 <= e < documents@[d].embeddings@.len(),
    ensures
        ({
            let place = count_embeddings(documents@.take(d)) + e;
            let commands = pipeline_commands(pipeline);
            let args = commands[place].0;
            let metadata = metadata_of(documents@[d].json, store@.metadata_fields);
            &&& 0 <= place < commands.len() == count_embeddings(documents@)
            &&& commands[place].1
            &&& args.len() == 8 + 2 * metadata.len()
            &&& args[0] == encode_utf8("HSET"@)
            &&& exists|id: Seq<char>| #[trigger]
                is_uuid(id) && args[1] == encode_utf8(
                    match store@.key_prefix {
                        Some(prefix) => prefix + id,
                        None => id,
                    },
                )
            &&& args[2] == encode_utf8("document"@)
            &&& args[3] == encode_utf8(documents@[d].text@)
            &&& args[4] == encode_utf8("embedded_text"@)
            &&& args[5] == encode_utf8(documents@[d].embeddings@[e].document@)
            &&& args[6] == encode_utf8(store@.vector_field)
            &&& args[7] == crate::float::le_bytes_of(documents@[d].embeddings@[e].singles@)
            &&& 0 <= k < metadata.len() ==> args[8 + 2 * k] == encode_utf8(metadata[k].0) && args[9
                + 2 * k] == encode_utf8(metadata[k].1)
        }),
{
    let ids = choose|ids: Seq<Seq<char>>|
        ids.len() == count_embeddings(documents@) && (forall|i: int|
            0 <= i < ids.len() ==> is_uuid(#[trigger] ids[i])) && pipeline_commands(pipeline)
            == #[trigger] insert_commands(store@, documents@, ids);
    let place = count_embeddings(documents@.take(d)) + e;
    insertions_keep_their_places(store@, documents@, ids, d, e);
    assert(is_uuid(ids[place]));
    hashes_are_written(
        match store@.key_prefix {
            Some(prefix) => prefix + ids[place],
            None => ids[place],
        },
        store@.vector_field,
        documents@[d].text@,
        documents@[d].embeddings@[e],
        metadata_of(documents@[d].json, store@.metadata_fields),
        k,
    );
}

/// No metadata field of a store is one that the store writes itself.
pub proof fn stores_have_no_reserved_field(
    store: &RedisVectorStore,
    fields: &Vec<String>,
    i: int,
)
    requires
        call_ensures(RedisVectorStore::metadata_fields, (store,), fields),
        0 <= i < fields@.len(),
    ensures
        fields@[i]@ != "document"@,
        fields@[i]@ != "embedded_text"@,
        fields@[i]@ != store@.vector_field,
{
    crate::laws::values::texts_keep_their_places(fields@, seq![], i);
    crate::laws::commands::spared_fields_are_not_written(store@, i);
}

/// The default metric is the cosine, and copies say what the copied value says.
pub proof fn copies_say_the_same(
    metric: DistanceMetric,
    value: &RedisValue,
    value_copy: RedisValue,
    number: &RedisNumber,
    number_copy: RedisNumber,
    filter: &Filter,
    filter_copy: Filter,
    double: &Double,
    double_copy: Double,
)
    requires
        call_ensures(<DistanceMetric as Default>::default, (), metric),
        call_ensures(<RedisValue as Clone>::clone, (value,), value_copy),
        call_ensures(<RedisNumber as Clone>::clone, (number,), number_copy),
        call_ensures(<Filter as Clone>::clone, (filter,), filter_copy),
        call_ensures(<Double as Clone>::clone, (double,), double_copy),
    ensures
        metric_name(metric) == "COSINE"@,
        value_copy@ == value@,
        number_copy@ == number@,
        filter_copy@ == filter@,
        double_copy.text@ == double.text@,
{
}

/// A new store has the names that it was given, and the default metric; each setting
/// changes one thing and leaves the others; and metadata fields are those that were
/// given, but for reserved ones.
pub proof fn settings_change_one_thing(
    index_name: String,
    vector_field: String,
    created: RedisVectorStore,
    store: RedisVectorStore,
    metric: DistanceMetric,
    measured: RedisVectorStore,
    prefix: String,
    prefixed: RedisVectorStore,
    fields: Vec<String>,
    described: RedisVectorStore,
)
    requires
        call_ensures(RedisVectorStore::new, (index_name, vector_field), created),
        call_ensures(RedisVectorStore::with_distance_metric, (store, metric), measured),
        call_ensures(RedisVectorStore::with_key_prefix, (store, prefix), prefixed),
        call_ensures(RedisVectorStore::with_metadata_fields, (store, fields), described),
    ensures
        created@.index_name == index_name@,
        created@.vector_field == vector_field@,
        created@.key_prefix is None,
        created@.metadata_fields.len() == 0,
        created@.distance_metric == DistanceMetric::Cosine,
        measured@ == (StoreView { distance_metric: metric, ..store@ }),
        prefixed@ == (StoreView { key_prefix: Some(prefix@), ..store@ }),
        described@ == (StoreView {
            metadata_fields: unreserved(texts(fields@), store@.vector_field),
            ..store@
        }),
{
}

/// Reserved names are taken out of a list of fields, and validation returns what the
/// description, or its failure, comes to.
pub proof fn lists_and_descriptions_are_judged(
    fields: Vec<String>,
    vector_field: &str,
    kept: Vec<String>,
    store: &RedisVectorStore,
    info: Reply,
    message: String,
    judged: Result<(), IndexError>,
    failed: Result<(), IndexError>,
)
    requires
        call_ensures(filter_reserved_metadata_fields, (fields, vector_field), kept),
        call_ensures(RedisVectorStore::validate_index, (store, Ok::<Reply, String>(info)), judged),
        call_ensures(
            RedisVectorStore::validate_index,
            (store, Err::<Reply, String>(message)),
            failed,
        ),
    ensures
        texts(kept@) == unreserved(texts(fields@), vector_field@),
        index_view(judged) == description_outcome(store@, info),
        failed matches Err(error) && error@ == (IndexFault::Unavailable {
            index: store@.index_name,
            message: message@,
        }),
{
}


/// Whether a typed filter is the one on the value that its argument converts to.
pub open spec fn is_filter_on<V: Into<RedisValue>>(
    value: V,
    filter: Result<Filter, FilterError>,
    outcome: spec_fn(ValueView) -> Result<Seq<char>, FilterFault>,
) -> bool {
    exists|converted: RedisValue| #[trigger]
        call_ensures(Into::<RedisValue>::into, (value,), converted) && match (
            filter,
            outcome(converted@),
        ) {
            (Ok(filter), Ok(query)) => filter@ == query,
            (Err(error), Err(fault)) => error@ == fault,
            _ => false,
        }
}

/// Typed filters compare as their names say, for every value that converts.
pub proof fn typed_filters_compare_values<V: Into<RedisValue>>(
    key: &str,
    value: V,
    eq: Result<Filter, FilterError>,
    gt: Result<Filter, FilterError>,
    lt: Result<Filter, FilterError>,
    gte: Result<Filter, FilterError>,
    lte: Result<Filter, FilterError>,
)
    requires
        call_ensures(Filter::eq::<V>, (key, value), eq),
        call_ensures(Filter::gt::<V>, (key, value), gt),
        call_ensures(Filter::lt::<V>, (key, value), lt),
        call_ensures(Filter::gte::<V>, (key, value), gte),
        call_ensures(Filter::lte::<V>, (key, value), lte),
    ensures
        is_filter_on(value, eq, |v: ValueView| eq_outcome(key@, v)),
        is_filter_on(value, gt, |v: ValueView| gt_outcome(key@, v)),
        is_filter_on(value, lt, |v: ValueView| lt_outcome(key@, v)),
        is_filter_on(value, gte, |v: ValueView| gte_outcome(key@, v)),
        is_filter_on(value, lte, |v: ValueView| lte_outcome(key@, v)),
{
}

/// Strings, booleans and numbers convert to values that hold them.
pub proof fn values_hold_what_they_come_from(
    text: &str,
    owned: String,
    b: bool,
    double: Double,
    from_text: RedisValue,
    from_owned: RedisValue,
    from_bool: RedisValue,
    from_double: RedisValue,
)
    requires
        call_ensures(<RedisValue as From<&str>>::from, (text,), from_text),
        call_ensures(<RedisValue as From<String>>::from, (owned,), from_owned),
        call_ensures(<RedisValue as From<bool>>::from, (b,), from_bool),
        call_ensures(<RedisValue as From<Double>>::from, (double,), from_double),
    ensures
        from_text@ == ValueView::String(text@),
        from_owned@ == ValueView::String(owned@),
        from_bool@ == ValueView::Bool(b),
        from_double@ == ValueView::Number(double.text@),
{
}

/// A JSON value converts, or is refused, as its kind asks, a number as it is given,
/// and a store-neutral filter as its parts do.
pub proof fn conversions_follow_their_kind(
    json: JsonValue,
    value: Result<RedisValue, FilterError>,
    double: Double,
    number: Result<RedisNumber, FilterError>,
    core: CoreFilter,
    filter: Result<Filter, FilterError>,
)
    requires
        call_ensures(<RedisValue as TryFrom<JsonValue>>::try_from, (json,), value),
        call_ensures(<RedisNumber as TryFrom<Double>>::try_from, (double,), number),
        call_ensures(<Filter as TryFrom<CoreFilter>>::try_from, (core,), filter),
    ensures
        match (value, value_outcome(json)) {
            (Ok(value), Ok(seen)) => value@ == seen,
            (Err(error), Err(fault)) => error@ == fault,
            _ => false,
        },
        number is Ok <==> is_numeral(double.text@),
        number matches Ok(number) ==> number@ == double.text@,
        match (filter, core_outcome(core)) {
            (Ok(filter), Ok(query)) => filter@ == query,
            (Err(error), Err(fault)) => error@ == fault,
            _ => false,
        },
{
}

/// What a store and a number are asked for, they give, and errors give their
/// messages.
pub proof fn getters_and_messages_are_returned(
    store: &RedisVectorStore,
    index_name: &String,
    vector_field: &String,
    key_prefix: &Option<String>,
    metadata_fields: &Vec<String>,
    metric: DistanceMetric,
    named: &'static str,
    field_type: MetadataFieldType,
    typed: &'static str,
    number: &RedisNumber,
    text: &str,
)
    requires
        call_ensures(RedisVectorStore::index_name, (store,), index_name),
        call_ensures(RedisVectorStore::vector_field, (store,), vector_field),
        call_ensures(RedisVectorStore::key_prefix, (store,), key_prefix),
        call_ensures(RedisVectorStore::metadata_fields, (store,), metadata_fields),
        call_ensures(RedisVectorStore::distance_metric, (store,), metric),
        call_ensures(DistanceMetric::as_arg, (metric,), named),
        call_ensures(MetadataFieldType::as_arg, (field_type,), typed),
        call_ensures(RedisNumber::get, (number,), text),
    ensures
        index_name@ == store@.index_name,
        vector_field@ == store@.vector_field,
        match (*key_prefix, store@.key_prefix) {
            (Some(prefix), Some(seen)) => prefix@ == seen,
            (None, None) => true,
            _ => false,
        },
        texts(metadata_fields@) == store@.metadata_fields,
        metric == store@.distance_metric,
        named@ == metric_name(store@.distance_metric),
        typed@ == field_type_name(field_type),
        text@ == number@,
        is_numeral(number@),
{
}

/// The message of an error is that of what is wrong.
pub proof fn messages_are_returned(
    error: &IndexError,
    message: String,
    fault: &ResponseError<'static>,
    printed: &str,
    told: String,
    embedding: &NonFiniteEmbedding,
    refused: &'static str,
)
    requires
        call_ensures(IndexError::message, (error,), message),
        call_ensures(ResponseError::message, (fault, printed), told),
        call_ensures(NonFiniteEmbedding::message, (embedding,), refused),
    ensures
        message@ == index_message(error@),
        told@ == fault_message(fault@, printed@),
        refused@ == "query embedding contains non-finite (NaN/Inf) values"@,
{
}

} // verus!
