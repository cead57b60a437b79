//! Redis vector store integration for Rig, as verified building blocks.
//!
//! A [`RedisVectorStore`] holds what a store is configured with. It builds the
//! commands that create its RediSearch index, insert documents, search them by
//! vector similarity (`FT.SEARCH`) and delete them, and it reads the replies.
//! Sending commands, embedding queries and floating-point arithmetic are left
//! to the program around it, which hands over plain values: a 64-bit float is
//! its bit pattern, or the text that it prints as.
//!
//! # Prerequisites
//!
//! The RediSearch index must be created before using this store. The expected schema is:
//! - A HASH-based index with the specified prefix
//! - A `document` field of type TEXT (stores serialized JSON)
//! - An `embedded_text` field of type TEXT (stores the source text)
//! - A vector field (configurable name) of type VECTOR with FLOAT32 elements
//! - Optionally, additional fields for metadata filtering (TAG, NUMERIC, etc.)
//!
//! # Distance Metric
//!
//! The metric is configurable via [`RedisVectorStore::with_distance_metric`] and must
//! match the index's `DISTANCE_METRIC`. [`DistanceMetric::Cosine`] (the default),
//! [`DistanceMetric::L2`], and [`DistanceMetric::InnerProduct`] are supported. Use
//! [`RedisVectorStore::validate_index`] to confirm the index agrees with the
//! configured metric.
//!
//! # Metadata Filtering
//!
//! To enable filtering on document fields during search, configure metadata fields
//! via [`RedisVectorStore::with_metadata_fields`]. These fields are extracted from
//! the serialized document JSON during insertion and written as separate hash fields,
//! making them available for RediSearch filter queries. Your index schema must declare
//! these fields with appropriate types (TAG, NUMERIC, TEXT) for filters to work.
//!
//! # Limitations
//!
//! - **Single-node only.** Inserts are pipelined across multiple keys, which is not
//!   compatible with Redis Cluster (CROSSSLOT).
//! - **Key prefix must match the index `PREFIX`**, otherwise inserted documents are
//!   stored but never indexed.
//! - **Multiple embeddings per document** produce multiple independently searchable
//!   hashes, so a single logical document may appear more than once in results.
//!
//! Both RESP2 and RESP3 `FT.SEARCH` reply shapes are parsed.

pub mod agreement;
pub mod command;
pub mod definition;
pub mod escape;
pub mod filter;
pub mod float;
pub mod insert;
pub mod json;
pub mod laws;
pub mod notice;
pub mod query;
pub mod reply;
pub mod response;
pub mod search;
pub mod sequence;
pub mod store;
pub mod text;

pub use filter::Filter;
pub use store::{DistanceMetric, MetadataFieldType, RedisVectorStore};
