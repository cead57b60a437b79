//! Inserting documents: one hash for each embedding, under a fresh key.

use vstd::prelude::*;
use vstd::utf8::encode_utf8;

use crate::command::{
    encoded, ignore_last, new_pipeline, pipeline_commands, push_last_bytes, push_last_text,
    start_command,
};
use crate::float::{embedding_to_bytes, le_bytes_of};
use crate::json::{get, hash_field, json_value_to_hash_field, member, JsonValue};
use crate::reply::texts;
use crate::store::{is_reserved, spares_reserved, RedisVectorStore, StoreView};

verus! {

/// An embedded text.
pub struct Embedding {
    /// The text.
    pub document: String,
    /// The patterns of its vector, as 32-bit floats.
    pub singles: Vec<u32>,
}

/// A document with its embeddings.
pub struct Document {
    /// The document as a JSON value.
    pub json: JsonValue,
    /// The text that JSON writes that value with.
    pub text: String,
    /// Its embeddings.
    pub embeddings: Vec<Embedding>,
}

/// Whether a character is a lowercase hexadecimal digit.
pub open spec fn is_hex(c: char) -> bool {
    '0' <= c <= '9' || 'a' <= c <= 'f'
}

/// Whether a text has the form of a random UUID: groups of eight, four, four,
/// four and twelve hexadecimal digits with hyphens between them, and the marks
/// of the version and the variant.
pub open spec fn is_uuid(text: Seq<char>) -> bool {
    &&& text.len() == 36
    &&& forall|i: int|
        0 <= i < 36 ==> if i == 8 || i == 13 || i == 18 || i == 23 {
            #[trigger] text[i] == '-'
        } else {
            is_hex(text[i])
        }
    &&& text[14] == '4'
    &&& text[19] == '8' || text[19] == '9' || text[19] == 'a' || text[19] == 'b'
}

/// Calls `uuid::Uuid::new_v4` and writes the result with its `Display`, in the
/// hyphenated form. Which UUID it is, is left to chance.
#[verifier::external_body]
fn new_id() -> (id: String)
    ensures
        is_uuid(id@),
{
    uuid::Uuid::new_v4().to_string()
}

/// What metadata fields and their values say.
pub open spec fn metadata_view(metadata: Seq<(String, String)>) -> Seq<(Seq<char>, Seq<char>)> {
    metadata.map_values(|pair: (String, String)| (pair.0@, pair.1@))
}

/// The value of one metadata field of a document, if it has a scalar there.
pub open spec fn metadata_value(json: JsonValue, field: Seq<char>) -> Option<Seq<char>> {
    match member(json, field) {
        Some(value) => hash_field(value),
        None => None,
    }
}

/// The metadata of a document: of the fields, in order, those that hold a
/// scalar, each with its value.
pub open spec fn metadata_of(json: JsonValue, fields: Seq<Seq<char>>) -> Seq<
    (Seq<char>, Seq<char>),
>
    decreases fields.len(),
{
    if fields.len() == 0 {
        seq![]
    } else {
        match metadata_value(json, fields.last()) {
            Some(value) => metadata_of(json, fields.drop_last()).push((fields.last(), value)),
            None => metadata_of(json, fields.drop_last()),
        }
    }
}

/// The value of one metadata field of a document, if it has a scalar there.
pub(crate) fn field_value(json: &JsonValue, field: &str) -> (text: Option<String>)
    ensures
        match text {
            Some(text) => metadata_value(*json, field@) == Some(text@),
            None => metadata_value(*json, field@) is None,
        },
{
    match get(json, field) {
        Some(value) => json_value_to_hash_field(value),
        None => None,
    }
}

/// Extracts the metadata of a document.
pub fn extract_metadata(json: &JsonValue, fields: &Vec<String>) -> (metadata: Vec<
    (String, String),
>)
    ensures
        metadata_view(metadata@) == metadata_of(*json, texts(fields@)),
{
    let ghost all = texts(fields@);
    let mut metadata: Vec<(String, String)> = Vec::new();
    assert(metadata_view(metadata@) =~= metadata_of(*json, all.take(0)));
    for i in 0..fields.len()
        invariant
            all == texts(fields@),
            metadata_view(metadata@) == metadata_of(*json, all.take(i as int)),
    {
        let ghost before = metadata_view(metadata@);
        proof {
            assert(all.take(i + 1).drop_last() =~= all.take(i as int));
            assert(all.take(i + 1).last() == fields@[i as int]@);
        }
        if let Some(value) = field_value(json, fields[i].as_str()) {
            metadata.push((fields[i].clone(), value));
            assert(metadata_view(metadata@) =~= before.push((fields@[i as int]@, value@)));
        }
    }
    assert(all.take(all.len() as int) =~= all);
    metadata
}

/// The key of a hash: the prefix, if there is one, and the identifier.
pub open spec fn document_key(prefix: Option<Seq<char>>, id: Seq<char>) -> Seq<char> {
    match prefix {
        Some(prefix) => prefix + id,
        None => id,
    }
}

/// Metadata as hash fields and their values.
pub open spec fn metadata_args(metadata: Seq<(Seq<char>, Seq<char>)>) -> Seq<Seq<u8>>
    decreases metadata.len(),
{
    if metadata.len() == 0 {
        seq![]
    } else {
        metadata_args(metadata.drop_last()) + encoded(
            seq![metadata.last().0, metadata.last().1],
        )
    }
}

/// The arguments that write one hash.
pub open spec fn hash_args(
    key: Seq<char>,
    vector_field: Seq<char>,
    text: Seq<char>,
    embedding: Embedding,
    metadata: Seq<(Seq<char>, Seq<char>)>,
) -> Seq<Seq<u8>> {
    encoded(
        seq![
            "HSET"@,
            key,
            "document"@,
            text,
            "embedded_text"@,
            embedding.document@,
            vector_field,
        ],
    ) + seq![le_bytes_of(embedding.singles@)] + metadata_args(metadata)
}

/// The commands that write the hashes of a document, one for each of its
/// embeddings, under the identifiers in their order. All results are ignored.
pub open spec fn document_commands(
    store: StoreView,
    document: Document,
    ids: Seq<Seq<char>>,
) -> Seq<(Seq<Seq<u8>>, bool)> {
    Seq::new(
        document.embeddings@.len(),
        |i: int|
            (
                hash_args(
                    document_key(store.key_prefix, ids[i]),
                    store.vector_field,
                    document.text@,
                    document.embeddings@[i],
                    metadata_of(document.json, store.metadata_fields),
                ),
                true,
            ),
    )
}

/// How many embeddings several documents have.
pub open spec fn count_embeddings(documents: Seq<Document>) -> nat
    decreases documents.len(),
{
    if documents.len() == 0 {
        0
    } else {
        count_embeddings(documents.drop_last()) + documents.last().embeddings@.len()
    }
}

/// The commands that write the hashes of several documents. The identifiers
/// are used up in order.
pub open spec fn insert_commands(
    store: StoreView,
    documents: Seq<Document>,
    ids: Seq<Seq<char>>,
) -> Seq<(Seq<Seq<u8>>, bool)>
    decreases documents.len(),
{
    if documents.len() == 0 {
        seq![]
    } else {
        insert_commands(store, documents.drop_last(), ids) + document_commands(
            store,
            documents.last(),
            ids.skip(count_embeddings(documents.drop_last()) as int),
        )
    }
}

/// Documents have at least as many embeddings as the first of them.
proof fn count_grows(documents: Seq<Document>, n: int)
    requires
        0 <= n <= documents.len(),
    ensures
        count_embeddings(documents.take(n)) <= count_embeddings(documents),
    decreases documents.len(),
{
    if n == documents.len() {
        assert(documents.take(n) =~= documents);
    } else {
        count_grows(documents.drop_last(), n);
        assert(documents.drop_last().take(n) =~= documents.take(n));
    }
}

/// Queues the command that writes one hash.
fn queue_hash(
    pipeline: &mut redis::Pipeline,
    key: &str,
    vector_field: &str,
    text: &str,
    embedding: &Embedding,
    metadata: &Vec<(String, String)>,
)
    ensures
        pipeline_commands(*final(pipeline)) == pipeline_commands(*old(pipeline)).push(
            (
                hash_args(key@, vector_field@, text@, *embedding, metadata_view(metadata@)),
                true,
            ),
        ),
{
    let ghost queued = pipeline_commands(*pipeline);
    let bytes = embedding_to_bytes(&embedding.singles);
    start_command(pipeline, "HSET");
    push_last_text(pipeline, key);
    push_last_text(pipeline, "document");
    push_last_text(pipeline, text);
    push_last_text(pipeline, "embedded_text");
    push_last_text(pipeline, embedding.document.as_str());
    push_last_text(pipeline, vector_field);
    push_last_bytes(pipeline, bytes.as_slice());
    let ghost all = metadata_view(metadata@);
    let ghost start = hash_args(key@, vector_field@, text@, *embedding, seq![]);
    proof {
        let commands = pipeline_commands(*pipeline);
        assert(commands.last().0 =~= start);
        assert(commands =~= queued.push((start, false)));
        assert(start + metadata_args(all.take(0)) =~= start);
    }
    for i in 0..metadata.len()
        invariant
            all == metadata_view(metadata@),
            pipeline_commands(*pipeline) == queued.push(
                (start + metadata_args(all.take(i as int)), false),
            ),
    {
        let ghost so_far = start + metadata_args(all.take(i as int));
        push_last_text(pipeline, metadata[i].0.as_str());
        push_last_text(pipeline, metadata[i].1.as_str());
        proof {
            let pair = all[i as int];
            assert(all.take(i + 1).drop_last() =~= all.take(i as int));
            assert(pipeline_commands(*pipeline).last().0 =~= start + metadata_args(
                all.take(i + 1),
            ));
            assert(pipeline_commands(*pipeline) =~= queued.push(
                (start + metadata_args(all.take(i + 1)), false),
            ));
        }
    }
    ignore_last(pipeline);
    proof {
        assert(all.take(all.len() as int) =~= all);
        let finished = hash_args(key@, vector_field@, text@, *embedding, all);
        assert(start + metadata_args(all) =~= finished);
        assert(pipeline_commands(*pipeline) =~= queued.push((finished, true)));
    }
}

impl RedisVectorStore {
    /// The key of a hash with that identifier.
    fn key_of(&self, id: &str) -> (key: String)
        ensures
            key@ == document_key(self@.key_prefix, id@),
    {
        match self.key_prefix() {
            Some(prefix) => {
                let mut key = prefix.clone();
                key.append(id);
                key
            },
            None => id.to_owned(),
        }
    }

    /// Queues the commands that write the hashes of one document, under the
    /// identifiers from `first` on.
    fn queue_document(
        &self,
        pipeline: &mut redis::Pipeline,
        document: &Document,
        ids: &Vec<String>,
        first: usize,
    )
        requires
            first + document.embeddings@.len() <= ids@.len(),
        ensures
            pipeline_commands(*final(pipeline)) == pipeline_commands(*old(pipeline))
                + document_commands(self@, *document, texts(ids@).skip(first as int)),
    {
        let ghost queued = pipeline_commands(*pipeline);
        let ghost names = texts(ids@).skip(first as int);
        let ghost commands = document_commands(self@, *document, names);
        let metadata = extract_metadata(&document.json, self.metadata_fields());
        let available: usize = ids.len();
        assert(pipeline_commands(*pipeline) =~= queued + commands.take(0));
        for i in 0..document.embeddings.len()
            invariant
                first + document.embeddings@.len() <= available,
                available == ids@.len(),
                names == texts(ids@).skip(first as int),
                commands == document_commands(self@, *document, names),
                metadata_view(metadata@) == metadata_of(document.json, self@.metadata_fields),
                pipeline_commands(*pipeline) == queued + commands.take(i as int),
        {
            let key = self.key_of(ids[first + i].as_str());
            queue_hash(
                pipeline,
                key.as_str(),
                self.vector_field().as_str(),
                document.text.as_str(),
                &document.embeddings[i],
                &metadata,
            );
            proof {
                assert(names[i as int] == ids@[first + i]@);
                assert(commands.take(i + 1) =~= commands.take(i as int).push(commands[i as int]));
                assert(queued + commands.take(i + 1) =~= (queued + commands.take(i as int)).push(
                    commands[i as int],
                ));
            }
        }
        assert(commands.take(commands.len() as int) =~= commands);
    }

    /// The commands that insert documents with their embeddings, under keys made
    /// of the given identifiers, one for each embedding.
    pub fn insert_with_ids(&self, documents: &Vec<Document>, ids: &Vec<String>) -> (pipeline:
        redis::Pipeline)
        requires
            ids@.len() == count_embeddings(documents@),
        ensures
            pipeline_commands(pipeline) == insert_commands(self@, documents@, texts(ids@)),
    {
        let mut pipeline = new_pipeline();
        let mut used: usize = 0;
        let available: usize = ids.len();
        let ghost names = texts(ids@);
        assert(pipeline_commands(pipeline) =~= insert_commands(self@, documents@.take(0), names));
        for i in 0..documents.len()
            invariant
                available == ids@.len(),
                available == count_embeddings(documents@),
                names == texts(ids@),
                used == count_embeddings(documents@.take(i as int)),
                pipeline_commands(pipeline) == insert_commands(
                    self@,
                    documents@.take(i as int),
                    names,
                ),
        {
            proof {
                assert(documents@.take(i + 1).drop_last() =~= documents@.take(i as int));
                count_grows(documents@, i + 1);
            }
            self.queue_document(&mut pipeline, &documents[i], ids, used);
            used = used + documents[i].embeddings.len();
        }
        assert(documents@.take(documents@.len() as int) =~= documents@);
        pipeline
    }

    /// The commands that insert documents with their precomputed embeddings into Redis.
    ///
    /// Each embedding produces a separate Redis hash keyed by `{prefix}{uuid}`. All
    /// hashes for a document share the same serialized JSON in the `document` field but
    /// have distinct `embedded_text` values.
    pub fn insert_documents(&self, documents: &Vec<Document>) -> (pipeline: redis::Pipeline)
        ensures
            exists|ids: Seq<Seq<char>>|
                ids.len() == count_embeddings(documents@) && (forall|i: int|
                    0 <= i < ids.len() ==> is_uuid(#[trigger] ids[i])) && pipeline_commands(
                    pipeline,
                ) == #[trigger] insert_commands(self@, documents@, ids),
    {
        let mut ids: Vec<String> = Vec::new();
        for i in 0..documents.len()
            invariant
                ids@.len() == count_embeddings(documents@.take(i as int)),
                forall|k: int| 0 <= k < ids@.len() ==> is_uuid(#[trigger] ids@[k]@),
        {
            let ghost before = ids@.len();
            let count: usize = documents[i].embeddings.len();
            for j in 0..count
                invariant
                    ids@.len() == before + j,
                    forall|k: int| 0 <= k < ids@.len() ==> is_uuid(#[trigger] ids@[k]@),
            {
                ids.push(new_id());
            }
            assert(documents@.take(i + 1).drop_last() =~= documents@.take(i as int));
        }
        assert(documents@.take(documents@.len() as int) =~= documents@);
        assert forall|k: int| 0 <= k < texts(ids@).len() implies is_uuid(
            #[trigger] texts(ids@)[k],
        ) by {
            assert(texts(ids@)[k] == ids@[k]@);
        }
        self.insert_with_ids(documents, &ids)
    }
}

/// Every embedding is written as one hash, and the result of every command is
/// ignored.
pub proof fn every_embedding_is_written(
    store: StoreView,
    documents: Seq<Document>,
    ids: Seq<Seq<char>>,
)
    ensures
        insert_commands(store, documents, ids).len() == count_embeddings(documents),
        forall|i: int|
            0 <= i < insert_commands(store, documents, ids).len() ==> (
            #[trigger] insert_commands(store, documents, ids)[i]).1,
    decreases documents.len(),
{
    if documents.len() > 0 {
        every_embedding_is_written(store, documents.drop_last(), ids);
    }
}

/// The hashes of a document share its JSON; each has the text and the vector
/// of its own embedding.
pub proof fn hashes_share_the_document(
    store: StoreView,
    document: Document,
    ids: Seq<Seq<char>>,
    i: int,
)
    requires
        0 <= i < document.embeddings@.len(),
    ensures
        ({
            let args = document_commands(store, document, ids)[i].0;
            &&& args[0] == encode_utf8("HSET"@)
            &&& args[1] == encode_utf8(document_key(store.key_prefix, ids[i]))
            &&& args[2] == encode_utf8("document"@)
            &&& args[3] == encode_utf8(document.text@)
            &&& args[4] == encode_utf8("embedded_text"@)
            &&& args[5] == encode_utf8(document.embeddings@[i].document@)
            &&& args[6] == encode_utf8(store.vector_field)
            &&& args[7] == le_bytes_of(document.embeddings@[i].singles@)
        }),
{
}

/// A key is the prefix and then the identifier, so every hash of a store has
/// its prefix, and different identifiers make different keys.
pub proof fn keys_carry_the_prefix(prefix: Seq<char>, id: Seq<char>, other: Seq<char>)
    ensures
        document_key(Some(prefix), id).take(prefix.len() as int) == prefix,
        document_key(Some(prefix), id).skip(prefix.len() as int) == id,
        document_key(Some(prefix), id) == document_key(Some(prefix), other) ==> id == other,
{
    assert(document_key(Some(prefix), id).take(prefix.len() as int) =~= prefix);
    assert(document_key(Some(prefix), id).skip(prefix.len() as int) =~= id);
    assert(document_key(Some(prefix), other).skip(prefix.len() as int) =~= other);
}

/// The metadata of a document holds a field exactly if that field is configured
/// and the document has a scalar there, and it holds that scalar. Missing
/// fields, nulls, arrays and objects are skipped.
pub proof fn metadata_is_exact(json: JsonValue, fields: Seq<Seq<char>>)
    ensures
        forall|i: int|
            0 <= i < metadata_of(json, fields).len() ==> fields.contains(
                (#[trigger] metadata_of(json, fields)[i]).0,
            ) && metadata_value(json, metadata_of(json, fields)[i].0) == Some(
                metadata_of(json, fields)[i].1,
            ),
        forall|i: int|
            0 <= i < fields.len() ==> (metadata_value(json, #[trigger] fields[i]) matches Some(value)
                ==> metadata_of(json, fields).contains((fields[i], value))),
    decreases fields.len(),
{
    let metadata = metadata_of(json, fields);
    if fields.len() > 0 {
        let init = fields.drop_last();
        metadata_is_exact(json, init);
        let before = metadata_of(json, init);
        assert forall|i: int| 0 <= i < metadata.len() implies fields.contains(
            (#[trigger] metadata[i]).0,
        ) && metadata_value(json, metadata[i].0) == Some(metadata[i].1) by {
            if i < before.len() {
                assert(metadata[i] == before[i]);
                let j = choose|j: int| 0 <= j < init.len() && init[j] == before[i].0;
                assert(fields[j] == metadata[i].0);
            } else {
                assert(fields[fields.len() - 1] == metadata[i].0);
            }
        }
        assert forall|i: int| 0 <= i < fields.len() implies (metadata_value(
            json,
            #[trigger] fields[i],
        ) matches Some(value) ==> metadata.contains((fields[i], value))) by {
            if let Some(value) = metadata_value(json, fields[i]) {
                if i < init.len() {
                    assert(init[i] == fields[i]);
                    assert(before.contains((init[i], value)));
                    let j = choose|j: int| 0 <= j < before.len() && before[j] == (init[i], value);
                    assert(metadata[j] == (fields[i], value));
                } else {
                    assert(metadata[metadata.len() - 1] == (fields[i], value));
                }
            }
        }
    }
}

/// Metadata never overwrites what the store writes itself: no metadata field of
/// a hash is called `document`, `embedded_text` or like the vector field.
pub proof fn metadata_spares_reserved_fields(store: StoreView, json: JsonValue)
    requires
        spares_reserved(store),
    ensures
        forall|i: int|
            0 <= i < metadata_of(json, store.metadata_fields).len() ==> !is_reserved(
                (#[trigger] metadata_of(json, store.metadata_fields)[i]).0,
                store.vector_field,
            ),
{
    let metadata = metadata_of(json, store.metadata_fields);
    metadata_is_exact(json, store.metadata_fields);
    assert forall|i: int| 0 <= i < metadata.len() implies !is_reserved(
        (#[trigger] metadata[i]).0,
        store.vector_field,
    ) by {
        let j = choose|j: int|
            0 <= j < store.metadata_fields.len() && store.metadata_fields[j] == metadata[i].0;
        assert(!is_reserved(store.metadata_fields[j], store.vector_field));
    }
}

} // verus!
