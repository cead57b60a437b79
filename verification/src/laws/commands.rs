//! Laws of commands: which argument stands where.

use vstd::prelude::*;
use vstd::utf8::encode_utf8;

use crate::command::{with_last_arg};
use crate::float::le_bytes_of;
use crate::insert::{
    count_embeddings, document_commands, document_key, hash_args, insert_commands, metadata_args,
    metadata_of, metadata_value, metadata_view, Document, Embedding,
};
use crate::json::{hash_field, member, JsonValue};
use crate::store::{
    create_words, field_type_name, filter_text, is_reserved, knn_query, metric_name, schema_words,
    search_args, spares_reserved, unreserved, DistanceMetric, MetadataFieldType, StoreView,
};
use crate::text::decimal;

verus! {

/// The names of metrics and field types in commands.
pub proof fn metrics_and_types_have_their_names()
    ensures
        metric_name(DistanceMetric::Cosine) == seq!['C', 'O', 'S', 'I', 'N', 'E'],
        metric_name(DistanceMetric::L2) == seq!['L', '2'],
        metric_name(DistanceMetric::InnerProduct) == seq!['I', 'P'],
        field_type_name(MetadataFieldType::Tag) == seq!['T', 'A', 'G'],
        field_type_name(MetadataFieldType::Numeric) == seq!['N', 'U', 'M', 'E', 'R', 'I', 'C'],
        field_type_name(MetadataFieldType::Text) == seq!['T', 'E', 'X', 'T'],
{
    reveal_strlit("COSINE");
    reveal_strlit("L2");
    reveal_strlit("IP");
    reveal_strlit("TAG");
    reveal_strlit("NUMERIC");
    reveal_strlit("TEXT");
    assert("COSINE"@ =~= seq!['C', 'O', 'S', 'I', 'N', 'E']);
    assert("L2"@ =~= seq!['L', '2']);
    assert("IP"@ =~= seq!['I', 'P']);
    assert("TAG"@ =~= seq!['T', 'A', 'G']);
    assert("NUMERIC"@ =~= seq!['N', 'U', 'M', 'E', 'R', 'I', 'C']);
    assert("TEXT"@ =~= seq!['T', 'E', 'X', 'T']);
}

/// The words of a schema are the name and the type of each field, in order.
proof fn schema_names_every_field(fields: Seq<(String, MetadataFieldType)>, i: int)
    ensures
        schema_words(fields).len() == 2 * fields.len(),
        0 <= i < fields.len() ==> schema_words(fields)[2 * i] == fields[i].0@ && schema_words(
            fields,
        )[2 * i + 1] == field_type_name(fields[i].1),
    decreases fields.len(),
{
    if fields.len() > 0 {
        let front = fields.drop_last();
        schema_names_every_field(front, i);
        if 0 <= i < front.len() {
            assert(front[i] == fields[i]);
            assert(schema_words(fields)[2 * i] == schema_words(front)[2 * i]);
            assert(schema_words(fields)[2 * i + 1] == schema_words(front)[2 * i + 1]);
        }
    }
}

/// Whether `words` has the words of `part` from `start` on.
pub open spec fn has_words(words: Seq<Seq<char>>, start: int, part: Seq<Seq<char>>) -> bool {
    &&& 0 <= start
    &&& start + part.len() <= words.len()
    &&& forall|i: int| 0 <= i < part.len() ==> words[start + i] == #[trigger] part[i]
}

/// The command that creates an index names the index and, if the store has one, the
/// key prefix; then it declares the texts, the vector under the store's own field
/// with its dimensions and the store's metric, and each metadata field with its type.
/// The field is the one that the store's hashes hold the vector under and that its
/// searches ask for.
pub proof fn created_indexes_declare_the_store(
    store: StoreView,
    dimensions: nat,
    fields: Seq<(String, MetadataFieldType)>,
    i: int,
)
    ensures
        ({
            let words = create_words(store, dimensions, fields);
            let start: int = if store.key_prefix is Some { 7 } else { 4 };
            &&& words.len() == start + 15 + 2 * fields.len()
            &&& has_words(words, 0, seq!["FT.CREATE"@, store.index_name, "ON"@, "HASH"@])
            &&& store.key_prefix matches Some(prefix) ==> has_words(
                words,
                4,
                seq!["PREFIX"@, "1"@, prefix],
            )
            &&& has_words(
                words,
                start,
                seq!["SCHEMA"@, "document"@, "TEXT"@, "embedded_text"@, "TEXT"@],
            )
            &&& has_words(
                words,
                start + 5,
                seq![store.vector_field, "VECTOR"@, "FLAT"@, "6"@, "TYPE"@, "FLOAT32"@, "DIM"@],
            )
            &&& has_words(
                words,
                start + 12,
                seq![
                    decimal(dimensions as int),
                    "DISTANCE_METRIC"@,
                    metric_name(store.distance_metric),
                ],
            )
            &&& 0 <= i < fields.len() ==> words[start + 15 + 2 * i] == fields[i].0@ && words[start
                + 16 + 2 * i] == field_type_name(fields[i].1)
        }),
{
    schema_names_every_field(fields, i);
    let words = create_words(store, dimensions, fields);
    let start: int = if store.key_prefix is Some { 7 } else { 4 };
    assert(words.len() == start + 15 + 2 * fields.len());
    if 0 <= i < fields.len() {
        assert(words[start + 15 + 2 * i] == schema_words(fields)[2 * i]);
        assert(words[start + 16 + 2 * i] == schema_words(fields)[2 * i + 1]);
    }
}

/// The query of a search: what must match, the number of neighbours, the store's
/// vector field, and the name of the score.
pub proof fn searches_ask_for_neighbours(
    store: StoreView,
    filter: Option<Seq<char>>,
    samples: nat,
)
    ensures
        ({
            let query = knn_query(store, filter, samples);
            let matched = match filter {
                Some(filter) => filter,
                None => seq!['*'],
            };
            query == matched + ("=>[KNN "@ + (decimal(samples as int) + (" @"@ + (
            store.vector_field + " $vec AS __vector_score]"@))))
        }),
{
    reveal_strlit("*");
    assert("*"@ =~= seq!['*']);
    let matched = match filter {
        Some(filter) => filter,
        None => seq!['*'],
    };
    assert(knn_query(store, filter, samples) =~= matched + ("=>[KNN "@ + (decimal(samples as int)
        + (" @"@ + (store.vector_field + " $vec AS __vector_score]"@)))));
}

/// Whether `args` has the UTF-8 bytes of the words of `part` from `start` on.
pub open spec fn has_args(args: Seq<Seq<u8>>, start: int, part: Seq<Seq<char>>) -> bool {
    &&& 0 <= start
    &&& start + part.len() <= args.len()
    &&& forall|i: int| 0 <= i < part.len() ==> args[start + i] == encode_utf8(#[trigger] part[i])
}

/// A search, whatever its filter: the index, the query, the vector as it is, the
/// order, exactly the fields that are asked for with their count, the dialect, and
/// the limit, which is the number of neighbours.
pub proof fn searches_return_what_is_asked_for(
    store: StoreView,
    vector: Seq<u8>,
    filter: Option<Seq<char>>,
    samples: nat,
    with_document: bool,
)
    ensures
        ({
            let args = search_args(store, vector, filter, samples, with_document);
            let end: int = if with_document { 13 } else { 12 };
            &&& args.len() == end + 5
            &&& has_args(
                args,
                0,
                seq![
                    "FT.SEARCH"@,
                    store.index_name,
                    knn_query(store, filter, samples),
                    "PARAMS"@,
                    "2"@,
                    "vec"@,
                ],
            )
            &&& args[6] == vector
            &&& has_args(args, 7, seq!["SORTBY"@, "__vector_score"@, "RETURN"@])
            &&& with_document ==> has_args(args, 10, seq!["2"@, "__vector_score"@, "document"@])
            &&& !with_document ==> has_args(args, 10, seq!["1"@, "__vector_score"@])
            &&& has_args(
                args,
                end,
                seq!["DIALECT"@, "2"@, "LIMIT"@, "0"@, decimal(samples as int)],
            )
        }),
{
}

/// A request's filter is seen by its query.
pub proof fn filters_are_seen(filter: Option<crate::filter::Filter>)
    ensures
        match filter {
            Some(f) => filter_text(filter) == Some(f@),
            None => filter_text(filter) is None,
        },
{
}

/// Reserved are `document`, `embedded_text` and the vector field, and nothing else;
/// what is left of a list of fields is the others, in their order.
pub proof fn fields_are_left_in_order(
    left: Seq<Seq<char>>,
    right: Seq<Seq<char>>,
    field: Seq<char>,
    vector_field: Seq<char>,
)
    ensures
        is_reserved(field, vector_field) <==> field == "document"@ || field == "embedded_text"@
            || field == vector_field,
        unreserved(left + right, vector_field) == unreserved(left, vector_field) + unreserved(
            right,
            vector_field,
        ),
        unreserved(seq![field], vector_field) == if field == "document"@ || field
            == "embedded_text"@ || field == vector_field {
            seq![]
        } else {
            seq![field]
        },
    decreases right.len(),
{
    reveal(Seq::filter);
    assert(unreserved(seq![field].drop_last(), vector_field) =~= seq![]);
    assert(seq![field].last() == field);
    if !is_reserved(field, vector_field) {
        assert(unreserved(seq![field], vector_field) =~= seq![field]);
    }
    if right.len() == 0 {
        assert(left + right =~= left);
        assert(unreserved(left, vector_field) + unreserved(right, vector_field) =~= unreserved(
            left,
            vector_field,
        ));
    } else {
        fields_are_left_in_order(left, right.drop_last(), field, vector_field);
        assert((left + right).drop_last() =~= left + right.drop_last());
        assert(unreserved(left + right, vector_field) =~= unreserved(left, vector_field)
            + unreserved(right, vector_field));
    }
}

/// A store spares the reserved fields exactly if none of its metadata fields is one.
pub proof fn spared_fields_are_not_written(store: StoreView, i: int)
    ensures
        spares_reserved(store) <==> !exists|field: Seq<char>| #[trigger]
            store.metadata_fields.contains(field) && (field == "document"@ || field
                == "embedded_text"@ || field == store.vector_field),
        spares_reserved(store) && 0 <= i < store.metadata_fields.len() ==> {
            &&& store.metadata_fields[i] != "document"@
            &&& store.metadata_fields[i] != "embedded_text"@
            &&& store.metadata_fields[i] != store.vector_field
        },
{
    let fields = store.metadata_fields;
    assert forall|j: int| 0 <= j < fields.len() implies fields.contains(#[trigger] fields[j]) by {
    }
    if spares_reserved(store) && exists|field: Seq<char>| #[trigger]
        fields.contains(field) && is_reserved(field, store.vector_field) {
        let field = choose|field: Seq<char>| #[trigger]
            fields.contains(field) && is_reserved(field, store.vector_field);
        let j = choose|j: int| 0 <= j < fields.len() && fields[j] == field;
        assert(!is_reserved(fields[j], store.vector_field));
    }
    if !spares_reserved(store) {
        let j = choose|j: int|
            0 <= j < fields.len() && is_reserved(#[trigger] fields[j], store.vector_field);
        assert(fields.contains(fields[j]));
    }
}

/// Metadata comes in the order of the configured fields: that of two lists of
/// fields is that of the first and then that of the second, and one field gives its
/// name with the flat text of the document's member of that name, or nothing where
/// there is none.
pub proof fn metadata_comes_in_order(
    json: JsonValue,
    left: Seq<Seq<char>>,
    right: Seq<Seq<char>>,
    field: Seq<char>,
)
    ensures
        metadata_of(json, left + right) == metadata_of(json, left) + metadata_of(json, right),
        metadata_of(json, seq![field]) == match member(json, field) {
            Some(value) => match hash_field(value) {
                Some(text) => seq![(field, text)],
                None => seq![],
            },
            None => seq![],
        },
    decreases right.len(),
{
    assert(metadata_of(json, seq![field].drop_last()) =~= seq![]);
    assert(seq![field].last() == field);
    if let Some(text) = metadata_value(json, field) {
        assert(metadata_of(json, seq![field]) =~= seq![(field, text)]);
    }
    if right.len() == 0 {
        assert(left + right =~= left);
        assert(metadata_of(json, left) + metadata_of(json, right) =~= metadata_of(json, left));
    } else {
        metadata_comes_in_order(json, left, right.drop_last(), field);
        assert((left + right).drop_last() =~= left + right.drop_last());
        assert(metadata_of(json, left + right) =~= metadata_of(json, left) + metadata_of(
            json,
            right,
        ));
    }
}

/// Metadata is written pair by pair, none left out.
proof fn metadata_is_written_pair_by_pair(metadata: Seq<(Seq<char>, Seq<char>)>, k: int)
    ensures
        metadata_args(metadata).len() == 2 * metadata.len(),
        0 <= k < metadata.len() ==> metadata_args(metadata)[2 * k] == encode_utf8(metadata[k].0)
            && metadata_args(metadata)[2 * k + 1] == encode_utf8(metadata[k].1),
    decreases metadata.len(),
{
    if metadata.len() > 0 {
        let front = metadata.drop_last();
        metadata_is_written_pair_by_pair(front, k);
        if 0 <= k < front.len() {
            assert(front[k] == metadata[k]);
            assert(metadata_args(metadata)[2 * k] == metadata_args(front)[2 * k]);
            assert(metadata_args(metadata)[2 * k + 1] == metadata_args(front)[2 * k + 1]);
        }
    }
}

/// The command that writes a hash: the key, the document's JSON, the text and the
/// vector of the embedding, and every pair of metadata, each in its place, and no
/// argument more.
pub proof fn hashes_hold_all_metadata(
    key: Seq<char>,
    vector_field: Seq<char>,
    text: Seq<char>,
    embedding: Embedding,
    metadata: Seq<(Seq<char>, Seq<char>)>,
    k: int,
)
    ensures
        ({
            let args = hash_args(key, vector_field, text, embedding, metadata);
            &&& args.len() == 8 + 2 * metadata.len()
            &&& has_args(
                args,
                0,
                seq![
                    "HSET"@,
                    key,
                    "document"@,
                    text,
                    "embedded_text"@,
                    embedding.document@,
                    vector_field,
                ],
            )
            &&& args[7] == le_bytes_of(embedding.singles@)
            &&& 0 <= k < metadata.len() ==> args[8 + 2 * k] == encode_utf8(metadata[k].0) && args[9
                + 2 * k] == encode_utf8(metadata[k].1)
        }),
{
    metadata_is_written_pair_by_pair(metadata, k);
    let args = hash_args(key, vector_field, text, embedding, metadata);
    if 0 <= k < metadata.len() {
        assert(args[8 + 2 * k] == metadata_args(metadata)[2 * k]);
        assert(args[9 + 2 * k] == metadata_args(metadata)[2 * k + 1]);
    }
}

/// A key is the prefix, if there is one, and then the identifier.
pub proof fn keys_are_prefix_and_identifier(prefix: Seq<char>, id: Seq<char>)
    ensures
        document_key(Some(prefix), id) == prefix + id,
        document_key(None, id) == id,
{
}

/// The embeddings of documents are counted one by one.
pub proof fn embeddings_are_counted(documents: Seq<Document>, document: Document)
    ensures
        count_embeddings(Seq::<Document>::empty()) == 0,
        count_embeddings(documents.push(document)) == count_embeddings(documents)
            + document.embeddings@.len(),
{
    assert(documents.push(document).drop_last() =~= documents);
}

/// Insertion writes the documents in order, and of each document its embeddings in
/// order: the command for embedding `e` of document `d` stands behind those of all
/// embeddings before it, takes the identifier of the same place, writes that
/// document's JSON and metadata and that embedding's text and vector, and its
/// result is ignored.
pub proof fn insertions_keep_their_places(
    store: StoreView,
    documents: Seq<Document>,
    ids: Seq<Seq<char>>,
    d: int,
    e: int,
)
    requires
        ids.len() == count_embeddings(documents),
        0 <= d < documents.len(),
        0 <= e < documents[d].embeddings@.len(),
    ensures
        ({
            let place = count_embeddings(documents.take(d)) + e;
            let commands = insert_commands(store, documents, ids);
            &&& commands.len() == ids.len()
            &&& 0 <= place < ids.len()
            &&& commands[place].0 == hash_args(
                match store.key_prefix {
                    Some(prefix) => prefix + ids[place],
                    None => ids[place],
                },
                store.vector_field,
                documents[d].text@,
                documents[d].embeddings@[e],
                metadata_of(documents[d].json, store.metadata_fields),
            )
            &&& commands[place].1
        }),
{
    insertions_have_places(store, documents, ids, d, e);
    crate::insert::every_embedding_is_written(store, documents, ids);
}

/// The place of an embedding's command, for any supply of identifiers.
proof fn insertions_have_places(
    store: StoreView,
    documents: Seq<Document>,
    ids: Seq<Seq<char>>,
    d: int,
    e: int,
)
    requires
        ids.len() >= count_embeddings(documents),
        0 <= d < documents.len(),
        0 <= e < documents[d].embeddings@.len(),
    ensures
        ({
            let place = count_embeddings(documents.take(d)) + e;
            let commands = insert_commands(store, documents, ids);
            &&& 0 <= place < count_embeddings(documents)
            &&& commands.len() == count_embeddings(documents)
            &&& commands[place] == (
                hash_args(
                    match store.key_prefix {
                        Some(prefix) => prefix + ids[place],
                        None => ids[place],
                    },
                    store.vector_field,
                    documents[d].text@,
                    documents[d].embeddings@[e],
                    metadata_of(documents[d].json, store.metadata_fields),
                ),
                true,
            )
        }),
    decreases documents.len(),
{
    let front = documents.drop_last();
    let last = documents.last();
    let before = count_embeddings(front);
    let commands = insert_commands(store, documents, ids);
    let mine = document_commands(store, last, ids.skip(before as int));
    crate::insert::every_embedding_is_written(store, front, ids);
    assert(commands == insert_commands(store, front, ids) + mine);
    assert(mine.len() == last.embeddings@.len());
    if d == front.len() {
        assert(documents.take(d) =~= front);
        assert(commands[before + e] == mine[e]);
        assert(ids.skip(before as int)[e] == ids[before + e]);
    } else {
        insertions_have_places(store, front, ids, d, e);
        assert(front.take(d) =~= documents.take(d));
        assert(front[d] == documents[d]);
        let place = count_embeddings(documents.take(d)) + e;
        assert(commands[place] == insert_commands(store, front, ids)[place]);
    }
}

/// Metadata is seen pair by pair, and an argument that is added to a pipeline comes
/// last in its last command.
pub proof fn pairs_and_arguments_keep_their_places(
    metadata: Seq<(String, String)>,
    i: int,
    commands: Seq<(Seq<Seq<u8>>, bool)>,
    arg: Seq<u8>,
)
    ensures
        metadata_view(metadata).len() == metadata.len(),
        0 <= i < metadata.len() ==> metadata_view(metadata)[i] == (
            metadata[i].0@,
            metadata[i].1@,
        ),
        commands.len() > 0 ==> with_last_arg(commands, arg) == commands.update(
            commands.len() - 1,
            (commands[commands.len() - 1].0.push(arg), commands[commands.len() - 1].1),
        ),
{
    if commands.len() > 0 {
        assert(with_last_arg(commands, arg) =~= commands.update(
            commands.len() - 1,
            (commands[commands.len() - 1].0.push(arg), commands[commands.len() - 1].1),
        ));
    }
}

} // verus!
