//! A vector store: what it is configured with, and the commands that create
//! its index, validate it, fill it, search it and delete from it.

use vstd::prelude::*;
use vstd::utf8::encode_utf8;

use crate::command::{command_args, encoded, new_command, push_bytes, push_text, push_texts};
use crate::definition::{
    announces_metric, find_definition, find_mismatch, first_mismatch, first_mismatch_is_first,
    flatten_but_prefixes, has_prefix_list, holds_prefix, is_defined_with, is_mismatch,
    lists_prefix, token_at, tokens_but_prefixes,
};
use crate::filter::Filter;
use crate::reply::{opt_text, texts, tokens, Reply};
use crate::sequence::filter_is_exact;
use crate::text::{
    ascii_lower, debug_of, debug_text, decimal, decimal_u64, same_ignoring_case, same_text,
};

verus! {

/// RediSearch vector distance metric. Determines how the returned distance is
/// converted to a similarity score (higher = more similar).
#[derive(Debug, Clone, Copy, PartialEq, Eq, Structural)]
pub enum DistanceMetric {
    /// Cosine distance. Score = `1 - distance` (1 = identical, -1 = opposite).
    Cosine,
    /// Squared Euclidean (L2) distance in `[0, inf)`. Score = `1 / (1 + distance)`
    /// (1 = identical, approaching 0 as vectors get farther apart).
    L2,
    /// Inner-product distance. RediSearch returns `1 - inner_product`, so
    /// Score = `1 - distance` (equal to the inner product; higher = more similar).
    InnerProduct,
}

impl Default for DistanceMetric {
    fn default() -> (metric: DistanceMetric)
        ensures
            metric == DistanceMetric::Cosine,
    {
        DistanceMetric::Cosine
    }
}

/// The name of a metric in a command.
pub open spec fn metric_name(metric: DistanceMetric) -> Seq<char> {
    match metric {
        DistanceMetric::Cosine => "COSINE"@,
        DistanceMetric::L2 => "L2"@,
        DistanceMetric::InnerProduct => "IP"@,
    }
}

impl DistanceMetric {
    /// The `DISTANCE_METRIC` argument value for `FT.CREATE`.
    pub fn as_arg(self) -> (name: &'static str)
        ensures
            name@ == metric_name(self),
    {
        match self {
            DistanceMetric::Cosine => "COSINE",
            DistanceMetric::L2 => "L2",
            DistanceMetric::InnerProduct => "IP",
        }
    }
}

/// RediSearch field type for a metadata field declared via [`RedisVectorStore::create_index`].
#[derive(Debug, Clone, Copy, PartialEq, Eq, Structural)]
pub enum MetadataFieldType {
    /// Exact-match tag field (`@field:{value}`).
    Tag,
    /// Numeric field supporting range filters (`@field:[min max]`).
    Numeric,
    /// Full-text field (`@field:(tokens)`).
    Text,
}

/// The name of a field type in a command.
pub open spec fn field_type_name(field_type: MetadataFieldType) -> Seq<char> {
    match field_type {
        MetadataFieldType::Tag => "TAG"@,
        MetadataFieldType::Numeric => "NUMERIC"@,
        MetadataFieldType::Text => "TEXT"@,
    }
}

impl MetadataFieldType {
    /// The type's argument value for `FT.CREATE`.
    pub fn as_arg(self) -> (name: &'static str)
        ensures
            name@ == field_type_name(self),
    {
        match self {
            MetadataFieldType::Tag => "TAG",
            MetadataFieldType::Numeric => "NUMERIC",
            MetadataFieldType::Text => "TEXT",
        }
    }
}

/// Whether a hash field is one of those that the store itself writes.
pub open spec fn is_reserved(field: Seq<char>, vector_field: Seq<char>) -> bool {
    field == "document"@ || field == "embedded_text"@ || field == vector_field
}

/// The fields that the store does not write itself.
pub open spec fn unreserved(fields: Seq<Seq<char>>, vector_field: Seq<char>) -> Seq<Seq<char>> {
    fields.filter(|field: Seq<char>| !is_reserved(field, vector_field))
}

/// Filters out reserved hash field names (`document`, `embedded_text`, and the
/// vector field) from a configured metadata field list, to prevent overwriting
/// reserved hash fields.
pub fn filter_reserved_metadata_fields(fields: Vec<String>, vector_field: &str) -> (kept: Vec<
    String,
>)
    ensures
        texts(kept@) == unreserved(texts(fields@), vector_field@),
{
    let ghost all = fields@;
    let mut kept: Vec<String> = Vec::new();
    proof {
        reveal(Seq::filter);
        assert(texts(kept@) =~= unreserved(texts(all.take(0)), vector_field@));
    }
    for field in it: fields
        invariant
            it.seq() == all,
            texts(kept@) == unreserved(texts(all.take(it.index())), vector_field@),
    {
        let ghost before = texts(kept@);
        proof {
            reveal(Seq::filter);
            let shown = texts(all.take(it.index() + 1));
            assert(shown.drop_last() =~= texts(all.take(it.index())));
            assert(shown.last() == field@);
        }
        let reserved = same_text(field.as_str(), "document")
            || same_text(field.as_str(), "embedded_text")
            || same_text(field.as_str(), vector_field);
        if !reserved {
            kept.push(field);
            assert(texts(kept@) =~= before.push(field@));
        }
    }
    assert(all.take(all.len() as int) =~= all);
    kept
}

/// Redis vector store implementation using RediSearch vector similarity search.
///
/// Uses Redis's `FT.SEARCH` command with KNN vector queries for similarity search.
///
/// # Key Prefix
///
/// If your RediSearch index uses a `PREFIX` configuration (e.g., `PREFIX 1 doc:`),
/// you **must** call [`RedisVectorStore::with_key_prefix`] with the matching prefix
/// so that inserted documents are discoverable by the index.
///
/// # Metadata Fields
///
/// Configure metadata fields via [`RedisVectorStore::with_metadata_fields`] to enable
/// filtering. During insertion, these fields are extracted from the serialized document
/// and stored as separate hash fields that RediSearch can index and filter on.
pub struct RedisVectorStore {
    index_name: String,
    vector_field: String,
    key_prefix: Option<String>,
    metadata_fields: Vec<String>,
    distance_metric: DistanceMetric,
}

/// What a [`RedisVectorStore`] is configured with.
pub struct StoreView {
    pub index_name: Seq<char>,
    pub vector_field: Seq<char>,
    pub key_prefix: Option<Seq<char>>,
    pub metadata_fields: Seq<Seq<char>>,
    pub distance_metric: DistanceMetric,
}

/// Whether no metadata field is one that the store writes itself.
pub open spec fn spares_reserved(store: StoreView) -> bool {
    forall|i: int|
        0 <= i < store.metadata_fields.len() ==> !is_reserved(
            #[trigger] store.metadata_fields[i],
            store.vector_field,
        )
}

impl View for RedisVectorStore {
    type V = StoreView;

    closed spec fn view(&self) -> StoreView {
        StoreView {
            index_name: self.index_name@,
            vector_field: self.vector_field@,
            key_prefix: match self.key_prefix {
                Some(prefix) => Some(prefix@),
                None => None,
            },
            metadata_fields: texts(self.metadata_fields@),
            distance_metric: self.distance_metric,
        }
    }
}

impl RedisVectorStore {
    #[verifier::type_invariant]
    spec fn is_valid(self) -> bool {
        spares_reserved(self@)
    }

    /// Creates a new Redis vector store, without a key prefix, without metadata
    /// fields and with the default metric.
    ///
    /// # Arguments
    /// * `index_name` - Name of the RediSearch index to query
    /// * `vector_field` - Name of the vector field in the index
    pub fn new(index_name: String, vector_field: String) -> (store: RedisVectorStore)
        ensures
            store@ == (StoreView {
                index_name: index_name@,
                vector_field: vector_field@,
                key_prefix: None,
                metadata_fields: seq![],
                distance_metric: DistanceMetric::Cosine,
            }),
    {
        let store = RedisVectorStore {
            index_name,
            vector_field,
            key_prefix: None,
            metadata_fields: Vec::new(),
            distance_metric: DistanceMetric::default(),
        };
        assert(store@.metadata_fields =~= seq![]);
        store
    }

    /// Sets the distance metric the index uses (default [`DistanceMetric::Cosine`]).
    ///
    /// This must match the `DISTANCE_METRIC` of the RediSearch index so that
    /// returned distances are converted to similarity scores correctly. Use
    /// [`Self::validate_index`] to verify the index agrees.
    pub fn with_distance_metric(self, metric: DistanceMetric) -> (store: RedisVectorStore)
        ensures
            store@ == (StoreView { distance_metric: metric, ..self@ }),
    {
        proof {
            use_type_invariant(&self);
        }
        RedisVectorStore {
            index_name: self.index_name,
            vector_field: self.vector_field,
            key_prefix: self.key_prefix,
            metadata_fields: self.metadata_fields,
            distance_metric: metric,
        }
    }

    /// Sets a key prefix for document keys.
    ///
    /// Documents stored via [`Self::insert_documents`] will be keyed as `{prefix}{uuid}`.
    /// This prefix **must** match the index's `PREFIX` configuration for documents
    /// to be indexed and discoverable by `FT.SEARCH`.
    pub fn with_key_prefix(self, prefix: String) -> (store: RedisVectorStore)
        ensures
            store@ == (StoreView { key_prefix: Some(prefix@), ..self@ }),
    {
        proof {
            use_type_invariant(&self);
        }
        RedisVectorStore {
            index_name: self.index_name,
            vector_field: self.vector_field,
            key_prefix: Some(prefix),
            metadata_fields: self.metadata_fields,
            distance_metric: self.distance_metric,
        }
    }

    /// Configures metadata fields to extract from documents during insertion.
    ///
    /// When documents are inserted, the specified fields are extracted from the
    /// serialized JSON representation and written as separate hash fields, making
    /// them available for RediSearch filter queries (TAG, NUMERIC, TEXT). The field
    /// names must match top-level keys in the serialized document JSON **and** be
    /// declared in the RediSearch index schema. Calling this method replaces any
    /// previously configured field list.
    ///
    /// Fields that are missing from a document or have null/complex values are
    /// skipped; [`skipped_metadata`](crate::notice::skipped_metadata) tells which, for a
    /// warning log. Reserved field names (`document`, `embedded_text`, and the configured
    /// vector field) are filtered out to prevent data corruption;
    /// [`Self::metadata_fields`] tells which are left.
    ///
    /// Note: RediSearch TAG fields split stored values on a separator (`,` by
    /// default). Extracted string values containing the separator will be indexed
    /// as multiple tags; create the TAG field with a different `SEPARATOR` if your
    /// values may contain commas.
    pub fn with_metadata_fields(self, fields: Vec<String>) -> (store: RedisVectorStore)
        ensures
            store@ == (StoreView {
                metadata_fields: unreserved(texts(fields@), self@.vector_field),
                ..self@
            }),
    {
        let kept = filter_reserved_metadata_fields(fields, self.vector_field.as_str());
        proof {
            unreserved_spares(texts(fields@), self@.vector_field);
        }
        RedisVectorStore {
            index_name: self.index_name,
            vector_field: self.vector_field,
            key_prefix: self.key_prefix,
            metadata_fields: kept,
            distance_metric: self.distance_metric,
        }
    }
}

impl RedisVectorStore {
    /// The name of the index.
    pub fn index_name(&self) -> (name: &String)
        ensures
            name@ == self@.index_name,
    {
        &self.index_name
    }

    /// The name of the vector field.
    pub fn vector_field(&self) -> (name: &String)
        ensures
            name@ == self@.vector_field,
    {
        &self.vector_field
    }

    /// The key prefix, if one is configured.
    pub fn key_prefix(&self) -> (prefix: &Option<String>)
        ensures
            opt_text(*prefix) == self@.key_prefix,
    {
        &self.key_prefix
    }

    /// The metadata fields, none of them reserved.
    pub fn metadata_fields(&self) -> (fields: &Vec<String>)
        ensures
            texts(fields@) == self@.metadata_fields,
            spares_reserved(self@),
    {
        proof {
            use_type_invariant(self);
        }
        &self.metadata_fields
    }

    /// The distance metric.
    pub fn distance_metric(&self) -> (metric: DistanceMetric)
        ensures
            metric == self@.distance_metric,
    {
        self.distance_metric
    }
}

/// No reserved name is left among the unreserved ones, and no other name is
/// lost. Filtering once more changes nothing.
pub proof fn unreserved_spares(fields: Seq<Seq<char>>, vector_field: Seq<char>)
    ensures
        forall|i: int|
            0 <= i < unreserved(fields, vector_field).len() ==> !is_reserved(
                #[trigger] unreserved(fields, vector_field)[i],
                vector_field,
            ),
        forall|field: Seq<char>|
            fields.contains(field) && !is_reserved(field, vector_field) ==> #[trigger] unreserved(
                fields,
                vector_field,
            ).contains(field),
        unreserved(unreserved(fields, vector_field), vector_field) == unreserved(
            fields,
            vector_field,
        ),
{
    filter_is_exact(fields, |field: Seq<char>| !is_reserved(field, vector_field));
    assert forall|field: Seq<char>|
        fields.contains(field) && !is_reserved(field, vector_field) implies #[trigger] unreserved(
        fields,
        vector_field,
    ).contains(field) by {
        let i = choose|i: int| 0 <= i < fields.len() && fields[i] == field;
        assert(!is_reserved(fields[i], vector_field));
    }
}

/// Why an index does not serve a store.
pub enum IndexError {
    /// The index is not found, or its description could not be had; holds the
    /// message.
    Unavailable { index: String, message: String },
    /// A vector field of the index uses another metric, or none that is named.
    OtherMetric { index: String, found: Option<String>, expected: &'static str },
    /// The index is not defined with the store's key prefix.
    OtherPrefix { index: String, prefix: String },
}

/// What an [`IndexError`] says.
pub enum IndexFault {
    Unavailable { index: Seq<char>, message: Seq<char> },
    OtherMetric { index: Seq<char>, found: Option<Seq<char>>, expected: Seq<char> },
    OtherPrefix { index: Seq<char>, prefix: Seq<char> },
}

impl View for IndexError {
    type V = IndexFault;

    open spec fn view(&self) -> IndexFault {
        match self {
            IndexError::Unavailable { index, message } => IndexFault::Unavailable {
                index: index@,
                message: message@,
            },
            IndexError::OtherMetric { index, found, expected } => IndexFault::OtherMetric {
                index: index@,
                found: opt_text(*found),
                expected: expected@,
            },
            IndexError::OtherPrefix { index, prefix } => IndexFault::OtherPrefix {
                index: index@,
                prefix: prefix@,
            },
        }
    }
}

/// An optional text as its `Debug` shows it.
pub open spec fn shown_option(text: Option<Seq<char>>) -> Seq<char> {
    match text {
        Some(text) => "Some("@ + debug_text(text) + ")"@,
        None => "None"@,
    }
}

/// The message of a fault.
pub open spec fn index_message(fault: IndexFault) -> Seq<char> {
    match fault {
        IndexFault::Unavailable { index, message } => "index '"@ + index
            + "' not found or FT.INFO failed: "@ + message,
        IndexFault::OtherMetric { index, found, expected } => "index '"@ + index
            + "' uses distance metric "@ + shown_option(found)
            + ", but this store is configured for "@ + expected,
        IndexFault::OtherPrefix { index, prefix } => "index '"@ + index
            + "' is not configured with key prefix '"@ + prefix + "'"@,
    }
}

impl IndexError {
    /// The message of the error.
    pub fn message(&self) -> (text: String)
        ensures
            text@ == index_message(self@),
    {
        let mut text = "index '".to_owned();
        match self {
            IndexError::Unavailable { index, message } => {
                text.append(index.as_str());
                text.append("' not found or FT.INFO failed: ");
                text.append(message.as_str());
            },
            IndexError::OtherMetric { index, found, expected } => {
                text.append(index.as_str());
                text.append("' uses distance metric ");
                text.append(option_text(found).as_str());
                text.append(", but this store is configured for ");
                text.append(expected);
            },
            IndexError::OtherPrefix { index, prefix } => {
                text.append(index.as_str());
                text.append("' is not configured with key prefix '");
                text.append(prefix.as_str());
                text.append("'");
            },
        }
        text
    }
}

fn option_text(found: &Option<String>) -> (text: String)
    ensures
        text@ == shown_option(opt_text(*found)),
{
    match found {
        Some(found) => {
            let mut text = "Some(".to_owned();
            text.append(debug_of(found.as_str()).as_str());
            text.append(")");
            text
        },
        None => "None".to_owned(),
    }
}

/// What validating an index against a store comes to. A metric that differs is
/// told before a prefix that is missing.
pub open spec fn description_outcome(store: StoreView, info: Reply) -> Result<(), IndexFault> {
    let expected = metric_name(store.distance_metric);
    let tokens = tokens_but_prefixes(info);
    match first_mismatch(tokens, expected, 0) {
        Some(i) => Err(
            IndexFault::OtherMetric {
                index: store.index_name,
                found: token_at(tokens, i + 1),
                expected,
            },
        ),
        None => match store.key_prefix {
            Some(prefix) => if is_defined_with(info, prefix) {
                Ok(())
            } else {
                Err(IndexFault::OtherPrefix { index: store.index_name, prefix })
            },
            None => Ok(()),
        },
    }
}

/// What validating an index comes to, from the reply to `FT.INFO` or the
/// message of its failure.
pub open spec fn index_outcome(store: StoreView, info: Result<Reply, String>) -> Result<
    (),
    IndexFault,
> {
    match info {
        Ok(reply) => description_outcome(store, reply),
        Err(message) => Err(
            IndexFault::Unavailable { index: store.index_name, message: message@ },
        ),
    }
}

/// What the result of validating says.
pub open spec fn index_view(result: Result<(), IndexError>) -> Result<(), IndexFault> {
    match result {
        Ok(()) => Ok(()),
        Err(error) => Err(error@),
    }
}

impl RedisVectorStore {
    /// The command that asks for the description of the index.
    pub fn index_info(&self) -> (command: redis::Cmd)
        ensures
            command_args(command) == encoded(seq!["FT.INFO"@, self@.index_name]),
    {
        let mut command = new_command("FT.INFO");
        push_text(&mut command, self.index_name.as_str());
        assert(command_args(command) =~= encoded(seq!["FT.INFO"@, self@.index_name]));
        command
    }

    /// Validates that the configured index exists and is compatible with this store.
    ///
    /// Checks, from the reply to [`Self::index_info`], that:
    /// - the index exists,
    /// - every vector field uses the store's configured distance metric, and
    /// - if a key prefix is configured, the index is defined with that prefix
    ///   (otherwise inserted documents would never be indexed).
    ///
    /// Call this after building the store to fail fast on schema mismatches.
    pub fn validate_index(&self, info: Result<Reply, String>) -> (result: Result<(), IndexError>)
        ensures
            index_view(result) == index_outcome(self@, info),
    {
        let info = match info {
            Ok(info) => info,
            Err(message) => {
                return Err(IndexError::Unavailable { index: self.index_name.clone(), message });
            },
        };
        let mut tokens: Vec<String> = Vec::new();
        flatten_but_prefixes(&info, &mut tokens);
        let ghost shown = texts(tokens@);
        assert(shown =~= tokens_but_prefixes(info));

        let expected = self.distance_metric.as_arg();
        if let Some(i) = find_mismatch(&tokens, expected) {
            let found = if i + 1 < tokens.len() { Some(tokens[i + 1].clone()) } else { None };
            assert(opt_text(found) == token_at(shown, i + 1));
            return Err(
                IndexError::OtherMetric { index: self.index_name.clone(), found, expected },
            );
        }
        if let Some(prefix) = &self.key_prefix {
            if !find_definition(&info, prefix.as_str()) {
                return Err(
                    IndexError::OtherPrefix {
                        index: self.index_name.clone(),
                        prefix: prefix.clone(),
                    },
                );
            }
        }
        Ok(())
    }
}

/// The words that declare one metadata field.
pub open spec fn field_words(field: (String, MetadataFieldType)) -> Seq<Seq<char>> {
    seq![field.0@, field_type_name(field.1)]
}

/// The words that declare several metadata fields.
pub open spec fn schema_words(fields: Seq<(String, MetadataFieldType)>) -> Seq<Seq<char>>
    decreases fields.len(),
{
    if fields.len() == 0 {
        seq![]
    } else {
        schema_words(fields.drop_last()) + field_words(fields.last())
    }
}

/// The words that restrict an index to a key prefix.
pub open spec fn prefix_words(prefix: Option<Seq<char>>) -> Seq<Seq<char>> {
    match prefix {
        Some(prefix) => seq!["PREFIX"@, "1"@, prefix],
        None => seq![],
    }
}

/// The words of the command that creates the index of a store.
pub open spec fn create_words(
    store: StoreView,
    dimensions: nat,
    fields: Seq<(String, MetadataFieldType)>,
) -> Seq<Seq<char>> {
    seq!["FT.CREATE"@, store.index_name, "ON"@, "HASH"@] + prefix_words(store.key_prefix) + seq![
        "SCHEMA"@,
        "document"@,
        "TEXT"@,
        "embedded_text"@,
        "TEXT"@,
        store.vector_field,
        "VECTOR"@,
        "FLAT"@,
        "6"@,
        "TYPE"@,
        "FLOAT32"@,
        "DIM"@,
        decimal(dimensions as int),
        "DISTANCE_METRIC"@,
        metric_name(store.distance_metric),
    ] + schema_words(fields)
}

/// Encoding goes word by word, so it goes through concatenation.
proof fn encoded_concat(left: Seq<Seq<char>>, right: Seq<Seq<char>>)
    ensures
        encoded(left + right) == encoded(left) + encoded(right),
{
    assert(encoded(left + right) =~= encoded(left) + encoded(right));
}

/// The query of a search: of what the filter matches, or of all, the nearest
/// `samples` to the vector.
pub open spec fn knn_query(store: StoreView, filter: Option<Seq<char>>, samples: nat) -> Seq<char> {
    let matched = match filter {
        Some(filter) => filter,
        None => "*"@,
    };
    matched + "=>[KNN "@ + decimal(samples as int) + " @"@ + store.vector_field
        + " $vec AS __vector_score]"@
}

/// The words that say which fields a search returns.
pub open spec fn return_words(with_document: bool) -> Seq<Seq<char>> {
    if with_document {
        seq!["2"@, "__vector_score"@, "document"@]
    } else {
        seq!["1"@, "__vector_score"@]
    }
}

/// The arguments of a search for the nearest `samples` to a vector.
pub open spec fn search_args(
    store: StoreView,
    vector: Seq<u8>,
    filter: Option<Seq<char>>,
    samples: nat,
    with_document: bool,
) -> Seq<Seq<u8>> {
    encoded(
        seq![
            "FT.SEARCH"@,
            store.index_name,
            knn_query(store, filter, samples),
            "PARAMS"@,
            "2"@,
            "vec"@,
        ],
    ) + seq![vector] + encoded(
        seq!["SORTBY"@, "__vector_score"@, "RETURN"@] + return_words(with_document) + seq![
            "DIALECT"@,
            "2"@,
            "LIMIT"@,
            "0"@,
            decimal(samples as int),
        ],
    )
}

/// What is asked of a search.
pub struct SearchRequest {
    /// How many documents to return at most.
    pub samples: u64,
    /// What the documents must match.
    pub filter: Option<Filter>,
    /// The pattern of the score under which a document is dropped.
    pub threshold: Option<u64>,
}

/// What a request's filter says.
pub open spec fn filter_text(filter: Option<Filter>) -> Option<Seq<char>> {
    match filter {
        Some(filter) => Some(filter@),
        None => None,
    }
}

impl SearchRequest {
    /// Whether nothing is asked for. Such a request is answered with nothing,
    /// without a search.
    pub fn asks_for_none(&self) -> (none: bool)
        ensures
            none == (self.samples == 0),
    {
        self.samples == 0
    }
}

impl RedisVectorStore {
    /// The command that creates the RediSearch index for this store (HASH, `FLAT`,
    /// FLOAT32, and the configured metric).
    ///
    /// Uses the store's index name, vector field, and (if set) key prefix, plus the
    /// `document` and `embedded_text` TEXT fields. Add any metadata fields you intend
    /// to filter on. This is a convenience for setups that manage the index in code;
    /// production deployments may prefer to create the index out of band.
    pub fn create_index(
        &self,
        dimensions: usize,
        metadata_fields: &[(String, MetadataFieldType)],
    ) -> (command: redis::Cmd)
        ensures
            command_args(command) == encoded(
                create_words(self@, dimensions as nat, metadata_fields@),
            ),
    {
        let mut command = new_command("FT.CREATE");
        push_texts(&mut command, &[self.index_name.as_str(), "ON", "HASH"]);
        let ghost mut words = seq!["FT.CREATE"@, self@.index_name, "ON"@, "HASH"@];
        assert(command_args(command) =~= encoded(words));
        if let Some(prefix) = &self.key_prefix {
            push_texts(&mut command, &["PREFIX", "1", prefix.as_str()]);
        }
        proof {
            words = words + prefix_words(self@.key_prefix);
            assert(command_args(command) =~= encoded(words));
        }
        let dimensions_text = decimal_u64(dimensions as u64);
        push_texts(
            &mut command,
            &[
                "SCHEMA",
                "document",
                "TEXT",
                "embedded_text",
                "TEXT",
                self.vector_field.as_str(),
                "VECTOR",
                "FLAT",
                "6",
                "TYPE",
                "FLOAT32",
                "DIM",
                dimensions_text.as_str(),
                "DISTANCE_METRIC",
                self.distance_metric.as_arg(),
            ],
        );
        proof {
            words = create_words(self@, dimensions as nat, seq![]);
            assert(command_args(command) =~= encoded(words));
        }
        let ghost all = metadata_fields@;
        for i in 0..metadata_fields.len()
            invariant
                all == metadata_fields@,
                command_args(command) == encoded(words + schema_words(all.take(i as int))),
        {
            proof {
                assert(all.take(i + 1).drop_last() =~= all.take(i as int));
                encoded_concat(
                    words + schema_words(all.take(i as int)),
                    field_words(all[i as int]),
                );
                assert(words + schema_words(all.take(i + 1)) =~= (words + schema_words(
                    all.take(i as int),
                )) + field_words(all[i as int]));
            }
            push_text(&mut command, metadata_fields[i].0.as_str());
            push_text(&mut command, metadata_fields[i].1.as_arg());
            assert(command_args(command) =~= encoded(words + schema_words(all.take(i as int)))
                + encoded(field_words(all[i as int])));
        }
        proof {
            assert(all.take(all.len() as int) =~= all);
            assert(words + schema_words(all) =~= create_words(self@, dimensions as nat, all));
        }
        command
    }

    /// The command that deletes documents by their hash keys, or none where no
    /// keys are given.
    ///
    /// Uses `UNLINK` (non-blocking delete). It answers with the number of keys removed.
    pub fn delete(&self, ids: &[String]) -> (command: Option<redis::Cmd>)
        ensures
            match command {
                Some(command) => ids@.len() > 0 && command_args(command) == encoded(
                    seq!["UNLINK"@] + texts(ids@),
                ),
                None => ids@.len() == 0,
            },
    {
        if ids.len() == 0 {
            return None;
        }
        let mut command = new_command("UNLINK");
        let ghost all = texts(ids@);
        assert(command_args(command) =~= encoded(seq!["UNLINK"@] + all.take(0)));
        for i in 0..ids.len()
            invariant
                all == texts(ids@),
                command_args(command) == encoded(seq!["UNLINK"@] + all.take(i as int)),
        {
            push_text(&mut command, ids[i].as_str());
            assert(all[i as int] == ids@[i as int]@);
            assert(command_args(command) =~= encoded(seq!["UNLINK"@] + all.take(i + 1)));
        }
        assert(all.take(all.len() as int) =~= all);
        Some(command)
    }

    /// The `FT.SEARCH` KNN query for the documents nearest to a vector.
    ///
    /// The `LIMIT` is always given, to override RediSearch's default of 10 results.
    pub fn execute_search(
        &self,
        vector_bytes: &Vec<u8>,
        request: &SearchRequest,
        include_document: bool,
    ) -> (command: redis::Cmd)
        ensures
            command_args(command) == search_args(
                self@,
                vector_bytes@,
                filter_text(request.filter),
                request.samples as nat,
                include_document,
            ),
    {
        let samples = decimal_u64(request.samples);
        let mut query = match &request.filter {
            Some(filter) => filter.clone().into_inner(),
            None => "*".to_owned(),
        };
        query.append("=>[KNN ");
        query.append(samples.as_str());
        query.append(" @");
        query.append(self.vector_field.as_str());
        query.append(" $vec AS __vector_score]");

        let mut command = new_command("FT.SEARCH");
        push_texts(
            &mut command,
            &[self.index_name.as_str(), query.as_str(), "PARAMS", "2", "vec"],
        );
        push_bytes(&mut command, vector_bytes.as_slice());
        push_texts(&mut command, &["SORTBY", "__vector_score", "RETURN"]);
        if include_document {
            push_texts(&mut command, &["2", "__vector_score", "document"]);
        } else {
            push_texts(&mut command, &["1", "__vector_score"]);
        }
        push_texts(&mut command, &["DIALECT", "2", "LIMIT", "0", samples.as_str()]);
        assert(command_args(command) =~= search_args(
            self@,
            vector_bytes@,
            filter_text(request.filter),
            request.samples as nat,
            include_document,
        ));
        command
    }
}

/// A search asks for as many results as it looks for: the number in the query
/// and the limit on the reply, the last argument, are the same. The vector goes
/// out as it is.
pub proof fn searches_are_limited(
    store: StoreView,
    vector: Seq<u8>,
    filter: Option<Seq<char>>,
    samples: nat,
    with_document: bool,
)
    ensures
        ({
            let args = search_args(store, vector, filter, samples, with_document);
            &&& args[1] == encode_utf8(store.index_name)
            &&& args[2] == encode_utf8(knn_query(store, filter, samples))
            &&& args[6] == vector
            &&& args[args.len() - 3] == encode_utf8("LIMIT"@)
            &&& args[args.len() - 2] == encode_utf8("0"@)
            &&& args[args.len() - 1] == encode_utf8(decimal(samples as int))
        }),
{
}

/// An index serves a store exactly if every metric that it announces is the
/// store's, and it is defined with the store's key prefix, if there is one.
pub proof fn valid_indexes_agree(store: StoreView, info: Reply)
    ensures
        description_outcome(store, info) is Ok <==> {
            &&& forall|i: int|
                0 <= i < tokens_but_prefixes(info).len() ==> !#[trigger] is_mismatch(
                    tokens_but_prefixes(info),
                    metric_name(store.distance_metric),
                    i,
                )
            &&& store.key_prefix matches Some(prefix) ==> holds_prefix(info, prefix) || (
            !has_prefix_list(info) && lists_prefix(tokens(info), prefix))
        },
{
    first_mismatch_is_first(tokens_but_prefixes(info), metric_name(store.distance_metric), 0);
}

/// The names of different metrics differ, also without regard to case.
pub proof fn metric_names_differ(left: DistanceMetric, right: DistanceMetric)
    ensures
        same_ignoring_case(metric_name(left), metric_name(right)) <==> left == right,
{
    reveal_strlit("COSINE");
    reveal_strlit("L2");
    reveal_strlit("IP");
    assert(ascii_lower("L2"@[0]) == 'l');
    assert(ascii_lower("IP"@[0]) == 'i');
}

/// Whether a result is the refusal of an index for its metric.
pub open spec fn refuses_metric(outcome: Result<(), IndexFault>) -> bool {
    outcome matches Err(fault) && fault is OtherMetric
}

/// An index that announces another metric than the store's, in whatever case,
/// is refused.
pub proof fn other_metrics_are_refused(
    store: StoreView,
    info: Reply,
    i: int,
    metric: DistanceMetric,
)
    requires
        0 <= i < tokens_but_prefixes(info).len() - 1,
        announces_metric(tokens_but_prefixes(info), i),
        same_ignoring_case(tokens_but_prefixes(info)[i + 1], metric_name(metric)),
        metric != store.distance_metric,
    ensures
        refuses_metric(description_outcome(store, info)),
{
    let announced = tokens_but_prefixes(info)[i + 1];
    let expected = metric_name(store.distance_metric);
    first_mismatch_is_first(tokens_but_prefixes(info), expected, 0);
    if same_ignoring_case(announced, expected) {
        assert forall|j: int| 0 <= j < expected.len() implies ascii_lower(
            #[trigger] metric_name(metric)[j],
        ) == ascii_lower(expected[j]) by {
            assert(ascii_lower(announced[j]) == ascii_lower(expected[j]));
        }
        metric_names_differ(metric, store.distance_metric);
    }
    assert(is_mismatch(tokens_but_prefixes(info), expected, i));
}

/// The key prefix that the words of a command restrict an index to.
pub open spec fn written_prefix(words: Seq<Seq<char>>) -> Option<Seq<char>> {
    if words[4] == "PREFIX"@ {
        Some(words[6])
    } else {
        None
    }
}

/// The metric that the words of a command declare for the vector field: the
/// fifteenth word from `SCHEMA` on.
pub open spec fn written_metric(words: Seq<Seq<char>>) -> Seq<char> {
    if written_prefix(words) is Some {
        words[21]
    } else {
        words[18]
    }
}

/// Whether a description agrees with the words of the command that created its
/// index: it lists the prefix that they give, if they give one, and it announces
/// no metric but theirs.
pub open spec fn describes(info: Reply, words: Seq<Seq<char>>) -> bool {
    &&& written_prefix(words) matches Some(prefix) ==> is_defined_with(info, prefix)
    &&& forall|i: int|
        0 <= i < tokens_but_prefixes(info).len() && #[trigger] announces_metric(tokens_but_prefixes(info), i) ==> (token_at(
            tokens_but_prefixes(info),
            i + 1,
        ) matches Some(metric) && same_ignoring_case(metric, written_metric(words)))
}

/// The command that creates an index writes the store's prefix and metric.
pub proof fn created_indexes_have_prefix_and_metric(
    store: StoreView,
    dimensions: nat,
    fields: Seq<(String, MetadataFieldType)>,
)
    ensures
        written_prefix(create_words(store, dimensions, fields)) == store.key_prefix,
        written_metric(create_words(store, dimensions, fields)) == metric_name(
            store.distance_metric,
        ),
{
    reveal_strlit("PREFIX");
    reveal_strlit("SCHEMA");
    assert("PREFIX"@[0] != "SCHEMA"@[0]);
}

/// The index that a store creates is accepted by it: a description that lists
/// the prefix and announces only the metric of the command that created the
/// index passes, whatever else it says.
pub proof fn created_indexes_are_accepted(
    store: StoreView,
    dimensions: nat,
    fields: Seq<(String, MetadataFieldType)>,
    info: Reply,
)
    requires
        describes(info, create_words(store, dimensions, fields)),
    ensures
        description_outcome(store, info) == Ok::<(), IndexFault>(()),
{
    let expected = metric_name(store.distance_metric);
    created_indexes_have_prefix_and_metric(store, dimensions, fields);
    valid_indexes_agree(store, info);
    assert forall|i: int| 0 <= i < tokens_but_prefixes(info).len() implies !#[trigger] is_mismatch(
        tokens_but_prefixes(info),
        expected,
        i,
    ) by {
        if announces_metric(tokens_but_prefixes(info), i) {
            assert(token_at(tokens_but_prefixes(info), i + 1) is Some);
        }
    }
}

/// The index that a store creates is refused by the same store with any other
/// metric: the same description, where it announces a metric at all, does not
/// pass.
pub proof fn created_indexes_are_refused_by_other_metrics(
    store: StoreView,
    dimensions: nat,
    fields: Seq<(String, MetadataFieldType)>,
    info: Reply,
    i: int,
    other: DistanceMetric,
)
    requires
        describes(info, create_words(store, dimensions, fields)),
        0 <= i < tokens_but_prefixes(info).len(),
        announces_metric(tokens_but_prefixes(info), i),
        other != store.distance_metric,
    ensures
        refuses_metric(
            description_outcome((StoreView { distance_metric: other, ..store }), info),
        ),
{
    let changed = StoreView { distance_metric: other, ..store };
    created_indexes_have_prefix_and_metric(store, dimensions, fields);
    assert(token_at(tokens_but_prefixes(info), i + 1) is Some);
    other_metrics_are_refused(changed, info, i, store.distance_metric);
}

} // verus!
