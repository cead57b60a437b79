//! Tests of the store: its configuration, its commands and its replies.

use rig_redis_vectorstore::float::{at_least, embedding_to_bytes, finite};
use rig_redis_vectorstore::insert::{extract_metadata, Document, Embedding};
use rig_redis_vectorstore::json::{get, json_value_to_hash_field, Double, JsonNumber, JsonValue};
use rig_redis_vectorstore::notice::{
    dropped_documents, missing_scores, skipped_metadata, textless_documents,
};
use rig_redis_vectorstore::reply::{extract_string, flatten_tokens, Reply};
use rig_redis_vectorstore::response::{
    extract_distance, parse_resp2_array, parse_resp3_map, parse_response_generic,
};
use rig_redis_vectorstore::search::{
    attach_documents, embed_query, parse_search_response, parse_search_response_ids, top_n,
    top_n_ids,
};
use rig_redis_vectorstore::store::{
    filter_reserved_metadata_fields, IndexError, SearchRequest,
};
use rig_redis_vectorstore::text::{decimal_i64, decimal_u64, eq_ignore_ascii_case};
use rig_redis_vectorstore::{DistanceMetric, Filter, MetadataFieldType, RedisVectorStore};

fn number(text: &str) -> Result<u64, String> {
    text.parse::<f64>().map(f64::to_bits).map_err(|e| e.to_string())
}

fn bulk(s: &str) -> Reply {
    Reply::BulkString { bytes: s.as_bytes().to_vec(), number: number(s) }
}

fn simple(s: &str) -> Reply {
    Reply::SimpleString { text: s.to_string(), number: number(s) }
}

fn verbatim(s: &str) -> Reply {
    Reply::VerbatimString { text: s.to_string(), number: number(s) }
}

fn json_number(text: &str) -> JsonValue {
    let value: f64 = text.parse().unwrap();
    JsonValue::Number(JsonNumber {
        text: text.to_string(),
        double: Some(Double { text: value.to_string() }),
    })
}

/// Reads a reply as a search for documents does.
fn found_documents(response: &Reply) -> Vec<(f64, String, serde_json::Value)> {
    let hits = match parse_search_response(response) {
        Ok(hits) => hits,
        Err(error) => panic!("{}", error.message("")),
    };
    let read = hits
        .into_iter()
        .map(|hit| {
            let document = serde_json::from_str::<serde_json::Value>(&hit.document).ok();
            (hit, document)
        })
        .collect();
    attach_documents(read)
        .into_iter()
        .map(|(distance, id, document)| (f64::from_bits(distance), id, document))
        .collect()
}

fn args(command: &redis::Cmd) -> Vec<Vec<u8>> {
    command
        .args_iter()
        .map(|arg| match arg {
            redis::Arg::Simple(bytes) => bytes.to_vec(),
            _ => panic!("a cursor"),
        })
        .collect()
}

fn words(command: &redis::Cmd) -> Vec<String> {
    args(command)
        .into_iter()
        .map(|arg| String::from_utf8(arg).unwrap())
        .collect()
}

fn store() -> RedisVectorStore {
    RedisVectorStore::new("products".to_string(), "embedding".to_string())
}

fn error_message(response: &Reply, printed: &str) -> String {
    match parse_search_response(response) {
        Ok(hits) => panic!("{} hits", hits.len()),
        Err(error) => error.message(printed),
    }
}

#[test]
fn reserved_metadata_fields_are_filtered() {
    let kept = filter_reserved_metadata_fields(
        vec![
            "category".to_string(),
            "document".to_string(),
            "embedded_text".to_string(),
            "embedding".to_string(),
            "price".to_string(),
        ],
        "embedding",
    );
    assert_eq!(kept, vec!["category".to_string(), "price".to_string()]);
}

#[test]
fn json_value_to_hash_field_covers_all_types() {
    assert_eq!(
        json_value_to_hash_field(&JsonValue::String("hello".to_string())),
        Some("hello".to_string())
    );
    assert_eq!(json_value_to_hash_field(&json_number("3")), Some("3".to_string()));
    assert_eq!(json_value_to_hash_field(&JsonValue::Bool(true)), Some("1".to_string()));
    assert_eq!(json_value_to_hash_field(&JsonValue::Bool(false)), Some("0".to_string()));
    assert_eq!(json_value_to_hash_field(&JsonValue::Null), None);
    assert_eq!(
        json_value_to_hash_field(&JsonValue::Array(vec![json_number("1"), json_number("2")])),
        None
    );
    assert_eq!(
        json_value_to_hash_field(&JsonValue::Object(vec![("a".to_string(), json_number("1"))])),
        None
    );
}

#[test]
fn embedding_to_bytes_is_float32_le() {
    let bytes = embedding_to_bytes(&vec![(1.0_f64 as f32).to_bits()]);
    assert_eq!(bytes, vec![0, 0, 128, 63]); // 1.0_f32 little-endian
}

#[test]
fn parse_search_response_skips_empty_documents() {
    // count=2: doc:1 has valid JSON, doc:2 has an empty document field.
    let response = Reply::Array(vec![
        Reply::Int(2),
        bulk("doc:1"),
        Reply::Array(vec![
            bulk("__vector_score"),
            bulk("0.1"),
            bulk("document"),
            bulk("{\"a\":1}"),
        ]),
        bulk("doc:2"),
        Reply::Array(vec![
            bulk("__vector_score"),
            bulk("0.2"),
            bulk("document"),
            bulk(""),
        ]),
    ]);

    let results = found_documents(&response);
    assert_eq!(results.len(), 1);
    assert_eq!(results[0].1, "doc:1");
    assert!((results[0].0 - 0.1).abs() < 1e-9); // raw distance, converted by the metric later
}

#[test]
fn parse_search_response_empty_when_count_zero() {
    let response = Reply::Array(vec![Reply::Int(0)]);
    let results = found_documents(&response);
    assert!(results.is_empty());
}

#[test]
fn parse_resp3_map_response() {
    // RESP3 FT.SEARCH reply shape: a map with a "results" array of per-doc maps.
    let response = Reply::Pairs(vec![
        (bulk("attributes"), Reply::Array(vec![])),
        (bulk("format"), bulk("STRING")),
        (
            bulk("results"),
            Reply::Array(vec![Reply::Pairs(vec![
                (bulk("id"), bulk("d:1")),
                (
                    bulk("extra_attributes"),
                    Reply::Pairs(vec![
                        (bulk("__vector_score"), bulk("0.1")),
                        (bulk("document"), bulk("{\"a\":1}")),
                    ]),
                ),
            ])]),
        ),
        (bulk("total_results"), Reply::Int(1)),
    ]);

    let results = found_documents(&response);
    assert_eq!(results.len(), 1);
    assert_eq!(results[0].1, "d:1");
    assert!((results[0].0 - 0.1).abs() < 1e-9); // raw distance
}

#[test]
fn parse_resp3_map_empty_results() {
    let response = Reply::Pairs(vec![
        (bulk("results"), Reply::Array(vec![])),
        (bulk("total_results"), Reply::Int(0)),
    ]);
    let results = found_documents(&response);
    assert!(results.is_empty());
}

#[test]
fn distance_metric_as_arg() {
    assert_eq!(DistanceMetric::Cosine.as_arg(), "COSINE");
    assert_eq!(DistanceMetric::L2.as_arg(), "L2");
    assert_eq!(DistanceMetric::InnerProduct.as_arg(), "IP");
}

#[test]
fn metadata_field_type_as_arg() {
    assert_eq!(MetadataFieldType::Tag.as_arg(), "TAG");
    assert_eq!(MetadataFieldType::Numeric.as_arg(), "NUMERIC");
    assert_eq!(MetadataFieldType::Text.as_arg(), "TEXT");
}

#[test]
fn a_new_store_has_defaults() {
    let store = store();
    assert_eq!(store.index_name(), "products");
    assert_eq!(store.vector_field(), "embedding");
    assert_eq!(store.key_prefix(), &None);
    assert!(store.metadata_fields().is_empty());
    assert_eq!(store.distance_metric(), DistanceMetric::Cosine);
    assert_eq!(DistanceMetric::default(), DistanceMetric::Cosine);
}

#[test]
fn builders_set_one_thing_each() {
    let store = store()
        .with_metadata_fields(vec!["dropped".to_string()])
        .with_key_prefix("products:".to_string())
        .with_distance_metric(DistanceMetric::L2)
        .with_metadata_fields(vec!["category".to_string(), "embedding".to_string()]);
    assert_eq!(store.index_name(), "products");
    assert_eq!(store.key_prefix(), &Some("products:".to_string()));
    assert_eq!(store.metadata_fields(), &vec!["category".to_string()]);
    assert_eq!(store.distance_metric(), DistanceMetric::L2);
}

#[test]
fn create_index_declares_the_schema() {
    let command = store().with_key_prefix("products:".to_string()).create_index(
        1536,
        &[
            ("category".to_string(), MetadataFieldType::Tag),
            ("price".to_string(), MetadataFieldType::Numeric),
        ],
    );
    assert_eq!(
        words(&command).join(" "),
        "FT.CREATE products ON HASH PREFIX 1 products: SCHEMA document TEXT embedded_text TEXT \
         embedding VECTOR FLAT 6 TYPE FLOAT32 DIM 1536 DISTANCE_METRIC COSINE \
         category TAG price NUMERIC"
    );
}

#[test]
fn create_index_without_prefix_uses_the_metric() {
    let command = store()
        .with_distance_metric(DistanceMetric::InnerProduct)
        .create_index(3, &[]);
    assert_eq!(
        words(&command).join(" "),
        "FT.CREATE products ON HASH SCHEMA document TEXT embedded_text TEXT \
         embedding VECTOR FLAT 6 TYPE FLOAT32 DIM 3 DISTANCE_METRIC IP"
    );
}

#[test]
fn commands_go_out_in_the_wire_format() {
    let command = store().index_info();
    assert_eq!(
        command.get_packed_command(),
        b"*2\r\n$7\r\nFT.INFO\r\n$8\r\nproducts\r\n".to_vec()
    );
}

#[test]
fn delete_unlinks_the_keys() {
    let command = store().delete(&["a:1".to_string(), "a:2".to_string()]).unwrap();
    assert_eq!(words(&command), vec!["UNLINK", "a:1", "a:2"]);
    assert!(store().delete(&[]).is_none());
}

#[test]
fn search_asks_for_the_nearest_documents() {
    let request = SearchRequest {
        samples: 5,
        filter: Some(Filter::eq("category", "Electronics").unwrap()),
        threshold: None,
    };
    let vector: Vec<u8> = vec![0, 255, 128, 63];
    let command = store().execute_search(&vector, &request, true);
    let args = args(&command);
    let expected: Vec<Vec<u8>> = vec![
        b"FT.SEARCH".to_vec(),
        b"products".to_vec(),
        b"@category:{Electronics}=>[KNN 5 @embedding $vec AS __vector_score]".to_vec(),
        b"PARAMS".to_vec(),
        b"2".to_vec(),
        b"vec".to_vec(),
        vector.clone(),
        b"SORTBY".to_vec(),
        b"__vector_score".to_vec(),
        b"RETURN".to_vec(),
        b"2".to_vec(),
        b"__vector_score".to_vec(),
        b"document".to_vec(),
        b"DIALECT".to_vec(),
        b"2".to_vec(),
        b"LIMIT".to_vec(),
        b"0".to_vec(),
        b"5".to_vec(),
    ];
    assert_eq!(args, expected);
}

#[test]
fn search_for_identifiers_returns_scores_alone() {
    let request = SearchRequest { samples: 100, filter: None, threshold: None };
    let command = store().execute_search(&b"abcd".to_vec(), &request, false);
    assert_eq!(
        words(&command).join(" "),
        "FT.SEARCH products *=>[KNN 100 @embedding $vec AS __vector_score] PARAMS 2 vec abcd \
         SORTBY __vector_score RETURN 1 __vector_score DIALECT 2 LIMIT 0 100"
    );
}

#[test]
fn zero_samples_ask_for_nothing() {
    let request = SearchRequest { samples: 0, filter: None, threshold: None };
    assert!(request.asks_for_none());
    let request = SearchRequest { samples: 1, filter: None, threshold: None };
    assert!(!request.asks_for_none());
}

fn info(metric: &str, prefixes: &[&str]) -> Reply {
    Reply::Array(vec![
        bulk("index_name"),
        bulk("products"),
        bulk("index_definition"),
        Reply::Array(vec![
            bulk("key_type"),
            bulk("HASH"),
            bulk("prefixes"),
            Reply::Array(prefixes.iter().map(|p| bulk(p)).collect()),
            bulk("default_score"),
            bulk("1"),
        ]),
        bulk("attributes"),
        Reply::Array(vec![Reply::Array(vec![
            bulk("identifier"),
            bulk("other:"),
            simple("dim"),
            Reply::Int(3),
            simple("DISTANCE_METRIC"),
            simple(metric),
        ])]),
    ])
}

#[test]
fn validate_index_accepts_what_agrees() {
    assert!(store().validate_index(Ok(info("COSINE", &[]))).is_ok());
    assert!(store().validate_index(Ok(info("cosine", &["x:"]))).is_ok());
    let prefixed = store().with_key_prefix("p:".to_string());
    assert!(prefixed.validate_index(Ok(info("COSINE", &["x:", "p:"]))).is_ok());
}

#[test]
fn validate_index_refuses_another_metric() {
    let error = store().validate_index(Ok(info("L2", &[]))).unwrap_err();
    assert_eq!(
        error.message(),
        "index 'products' uses distance metric Some(\"L2\"), but this store is configured for COSINE"
    );
    assert!(store()
        .with_distance_metric(DistanceMetric::L2)
        .validate_index(Ok(info("L2", &[])))
        .is_ok());
    let error = store()
        .validate_index(Ok(Reply::Array(vec![bulk("distance_metric")])))
        .unwrap_err();
    assert_eq!(
        error.message(),
        "index 'products' uses distance metric None, but this store is configured for COSINE"
    );
}

#[test]
fn validate_index_refuses_another_prefix() {
    let prefixed = store().with_key_prefix("other:".to_string());
    let error = prefixed.validate_index(Ok(info("COSINE", &["x:"]))).unwrap_err();
    assert_eq!(
        error.message(),
        "index 'products' is not configured with key prefix 'other:'"
    );
    let error = prefixed.validate_index(Ok(Reply::Array(vec![]))).unwrap_err();
    assert!(matches!(error, IndexError::OtherPrefix { .. }));
}

#[test]
fn validate_index_accepts_prefixes_that_are_words_of_a_definition() {
    for word in [
        "filter",
        "default_score",
        "language",
        "language_field",
        "score_field",
        "payload_field",
        "attributes",
    ] {
        let prefixed = store().with_key_prefix(word.to_string());
        let info = |prefixes: Reply| {
            Reply::Array(vec![
                bulk("index_definition"),
                Reply::Array(vec![
                    bulk("key_type"),
                    bulk("HASH"),
                    bulk("prefixes"),
                    prefixes,
                    bulk("default_score"),
                    bulk("1"),
                ]),
                bulk("attributes"),
                Reply::Array(vec![Reply::Array(vec![
                    bulk("identifier"),
                    bulk("embedding"),
                    bulk("type"),
                    bulk("VECTOR"),
                    bulk("distance_metric"),
                    bulk("COSINE"),
                ])]),
            ])
        };
        assert!(prefixed.validate_index(Ok(info(Reply::Array(vec![bulk(word)])))).is_ok());
        assert!(prefixed
            .validate_index(Ok(info(Reply::Members(vec![bulk("x:"), bulk(word)]))))
            .is_ok());
        assert!(prefixed.validate_index(Ok(info(Reply::Array(vec![bulk("x:")])))).is_err());
        assert!(prefixed.validate_index(Ok(info(bulk(word)))).is_err());

        let mapped = |prefix: &str| {
            Reply::Pairs(vec![(
                bulk("index_definition"),
                Reply::Pairs(vec![
                    (bulk("key_type"), bulk("HASH")),
                    (bulk("prefixes"), Reply::Array(vec![bulk(prefix)])),
                ]),
            )])
        };
        assert!(prefixed.validate_index(Ok(mapped(word))).is_ok());
        assert!(prefixed.validate_index(Ok(mapped("x:"))).is_err());
    }
}

#[test]
fn validate_index_leaves_names_out() {
    let named = |metric: &str| {
        Reply::Array(vec![
            bulk("index_name"),
            bulk("distance_metric"),
            bulk("attributes"),
            Reply::Array(vec![
                Reply::Array(vec![
                    bulk("identifier"),
                    bulk("distance_metric"),
                    bulk("attribute"),
                    bulk("distance_metric"),
                    bulk("type"),
                    bulk("TAG"),
                ]),
                Reply::Array(vec![
                    bulk("identifier"),
                    bulk("embedding"),
                    bulk("type"),
                    bulk("VECTOR"),
                    bulk("distance_metric"),
                    bulk(metric),
                ]),
            ]),
        ])
    };
    assert!(store().validate_index(Ok(named("COSINE"))).is_ok());
    assert!(store().validate_index(Ok(named("L2"))).is_err());
}

#[test]
fn validate_index_goes_by_the_list_of_prefixes() {
    // An index called `prefixes`, defined with `x:` alone.
    let named = || {
        Reply::Array(vec![
            bulk("index_name"),
            bulk("prefixes"),
            bulk("index_definition"),
            Reply::Array(vec![
                bulk("key_type"),
                bulk("HASH"),
                bulk("prefixes"),
                Reply::Array(vec![bulk("x:")]),
                bulk("default_score"),
                bulk("1"),
            ]),
        ])
    };
    assert!(store().with_key_prefix("x:".to_string()).validate_index(Ok(named())).is_ok());
    for word in ["HASH", "key_type", "index_definition", "prefixes", "default_score"] {
        let error = store()
            .with_key_prefix(word.to_string())
            .validate_index(Ok(named()))
            .unwrap_err();
        assert!(matches!(error, IndexError::OtherPrefix { .. }));
    }
    // Without a list the tokens decide.
    let flat = || Reply::Array(vec![bulk("prefixes"), bulk("a:"), bulk("b:"), bulk("attributes")]);
    assert!(store().with_key_prefix("b:".to_string()).validate_index(Ok(flat())).is_ok());
    assert!(store().with_key_prefix("c:".to_string()).validate_index(Ok(flat())).is_err());
}

#[test]
fn validate_index_takes_no_prefix_for_a_metric() {
    let prefixes = ["identifier", "distance_metric", "p:"];
    for prefix in prefixes {
        let prefixed = store().with_key_prefix(prefix.to_string());
        assert!(prefixed.validate_index(Ok(info("COSINE", &prefixes))).is_ok());
        assert!(matches!(
            prefixed.validate_index(Ok(info("L2", &prefixes))),
            Err(IndexError::OtherMetric { .. })
        ));
        let mapped = |metric: &str| {
            Reply::Pairs(vec![
                (
                    bulk("index_definition"),
                    Reply::Pairs(vec![(
                        bulk("prefixes"),
                        Reply::Members(prefixes.iter().map(|p| bulk(p)).collect()),
                    )]),
                ),
                (
                    bulk("attributes"),
                    Reply::Array(vec![Reply::Pairs(vec![(
                        bulk("distance_metric"),
                        bulk(metric),
                    )])]),
                ),
            ])
        };
        assert!(prefixed.validate_index(Ok(mapped("COSINE"))).is_ok());
        assert!(prefixed.validate_index(Ok(mapped("IP"))).is_err());
    }
}

#[test]
fn descriptions_are_judged_alike_in_both_protocols() {
    let definition = || Reply::Array(vec![bulk("prefixes"), Reply::Array(vec![bulk("filter")])]);
    let flat = || {
        Reply::Array(vec![
            bulk("index_definition"),
            definition(),
            bulk("distance_metric"),
            bulk("L2"),
        ])
    };
    let mapped = || {
        Reply::Pairs(vec![
            (bulk("index_definition"), definition()),
            (bulk("distance_metric"), bulk("L2")),
        ])
    };
    for (prefix, metric) in [
        ("filter", DistanceMetric::L2),
        ("other", DistanceMetric::L2),
        ("filter", DistanceMetric::Cosine),
    ] {
        let store = store()
            .with_key_prefix(prefix.to_string())
            .with_distance_metric(metric);
        let left = store.validate_index(Ok(flat())).map_err(|e| e.message());
        let right = store.validate_index(Ok(mapped())).map_err(|e| e.message());
        assert_eq!(left, right);
        assert_eq!(left.is_ok(), prefix == "filter" && metric == DistanceMetric::L2);
    }
}

#[test]
fn created_indexes_validate() {
    let metrics = [DistanceMetric::Cosine, DistanceMetric::L2, DistanceMetric::InnerProduct];
    for metric in metrics {
        let creator = store()
            .with_key_prefix("products:".to_string())
            .with_distance_metric(metric);
        let created = words(&creator.create_index(3, &[]));
        assert_eq!(created[4], "PREFIX");
        let describe = || info(&created[21], &[&created[6]]);
        assert!(creator.validate_index(Ok(describe())).is_ok());
        for other in metrics.into_iter().filter(|other| *other != metric) {
            let changed = store()
                .with_key_prefix("products:".to_string())
                .with_distance_metric(other);
            assert!(matches!(
                changed.validate_index(Ok(describe())),
                Err(IndexError::OtherMetric { .. })
            ));
        }
    }
}

#[test]
fn validate_index_refuses_the_metric_first() {
    let prefixed = store().with_key_prefix("other:".to_string());
    let error = prefixed.validate_index(Ok(info("IP", &["x:"]))).unwrap_err();
    assert!(matches!(error, IndexError::OtherMetric { .. }));
}

#[test]
fn validate_index_passes_failures_on() {
    let error = store().validate_index(Err("no such index".to_string())).unwrap_err();
    assert_eq!(
        error.message(),
        "index 'products' not found or FT.INFO failed: no such index"
    );
}

#[test]
fn tokens_are_flattened_in_order() {
    let reply = Reply::Pairs(vec![
        (bulk("a"), Reply::Members(vec![simple("b"), Reply::Int(-7)])),
        (
            Reply::Double { bits: 1.5_f64.to_bits(), text: "1.5".to_string() },
            Reply::Other("nil".to_string()),
        ),
        (verbatim("c"), Reply::Array(vec![])),
    ]);
    let mut out = vec!["first".to_string()];
    flatten_tokens(&reply, &mut out);
    assert_eq!(out, vec!["first", "a", "b", "-7", "1.5", "c"]);
}

#[test]
fn lists_and_maps_have_the_same_tokens() {
    let flat = Reply::Array(vec![bulk("a"), Reply::Int(1), bulk("b"), simple("c")]);
    let mapped = Reply::Pairs(vec![(bulk("a"), Reply::Int(1)), (bulk("b"), simple("c"))]);
    let mut left = Vec::new();
    let mut right = Vec::new();
    flatten_tokens(&flat, &mut left);
    flatten_tokens(&mapped, &mut right);
    assert_eq!(left, vec!["a", "1", "b", "c"]);
    assert_eq!(left, right);
}

#[test]
fn strings_are_extracted_from_texts_alone() {
    assert_eq!(extract_string(&bulk("é")), Some("é".to_string()));
    assert_eq!(extract_string(&simple("s")), Some("s".to_string()));
    assert_eq!(extract_string(&verbatim("v")), Some("v".to_string()));
    assert_eq!(extract_string(&Reply::Int(1)), None);
    let invalid = Reply::BulkString { bytes: vec![b'a', 0xff, b'b'], number: number("x") };
    assert_eq!(extract_string(&invalid), Some("a\u{fffd}b".to_string()));
}

#[test]
fn distances_come_from_numbers_and_texts() {
    let bits = 0.25_f64.to_bits();
    assert_eq!(extract_distance(&bulk("0.25")).ok(), Some(bits));
    assert_eq!(extract_distance(&simple("0.25")).ok(), Some(bits));
    assert_eq!(extract_distance(&verbatim("0.25")).ok(), Some(bits));
    let double = Reply::Double { bits, text: "0.25".to_string() };
    assert_eq!(extract_distance(&double).ok(), Some(bits));
    assert!(extract_distance(&bulk("near")).is_err());
    assert!(extract_distance(&Reply::Int(1)).is_err());
}

fn scored(key: &str, score: Reply) -> Vec<Reply> {
    vec![bulk(key), Reply::Array(vec![bulk("__vector_score"), score])]
}

#[test]
fn faulty_scores_end_the_reading() {
    let mut items = vec![Reply::Int(2)];
    items.extend(scored("a", bulk("0.5")));
    items.extend(scored("b", bulk("near")));
    assert_eq!(
        error_message(&Reply::Array(items), ""),
        "Failed to parse score: invalid float literal"
    );
    let mut items = vec![Reply::Int(1)];
    items.extend(scored("a", Reply::Int(5)));
    assert_eq!(
        error_message(&Reply::Array(items), "int(5)"),
        "Unexpected Redis value type for score: int(5)"
    );
}

#[test]
fn faulty_forms_are_refused() {
    assert_eq!(
        error_message(&Reply::Int(1), ""),
        "Invalid FT.SEARCH response format (expected a RESP2 array or RESP3 map)"
    );
    assert_eq!(
        error_message(&Reply::Array(vec![bulk("1")]), ""),
        "Invalid response format: expected count as first element"
    );
    assert_eq!(
        error_message(&Reply::Array(vec![]), ""),
        "Invalid response format: expected count as first element"
    );
}

#[test]
fn entries_without_key_or_fields_are_skipped() {
    let items = vec![
        Reply::Int(9),
        Reply::Int(1),
        Reply::Array(vec![]),
        bulk("a"),
        bulk("no fields"),
        bulk("b"),
        Reply::Array(vec![bulk("lonely")]),
        bulk("c"),
    ];
    let hits = match parse_resp2_array(&items, true) {
        Ok(hits) => hits,
        Err(error) => panic!("{}", error.message("")),
    };
    assert_eq!(hits.len(), 1);
    assert_eq!(hits[0].id, "b");
    assert_eq!(hits[0].distance, 0.0_f64.to_bits());
    assert_eq!(hits[0].document, "");
}

#[test]
fn the_last_of_repeated_fields_counts() {
    let items = vec![
        Reply::Int(1),
        bulk("a"),
        Reply::Array(vec![
            bulk("__vector_score"),
            bulk("0.5"),
            Reply::Int(3),
            bulk("x"),
            bulk("document"),
            bulk("first"),
            bulk("document"),
            Reply::Int(4),
            bulk("__vector_score"),
            bulk("0.75"),
        ]),
    ];
    let hits = parse_resp2_array(&items, true).ok().unwrap();
    assert_eq!(hits[0].distance, 0.75_f64.to_bits());
    assert_eq!(hits[0].document, "first");
    let hits = parse_resp2_array(&items, false).ok().unwrap();
    assert_eq!(hits[0].document, "");
}

#[test]
fn resp3_entries_without_a_map_are_skipped() {
    let pairs = vec![
        (bulk("results"), Reply::Int(1)),
        (
            simple("results"),
            Reply::Array(vec![bulk("x"), Reply::Pairs(vec![(bulk("other"), bulk("y"))])]),
        ),
    ];
    let hits = parse_resp3_map(&pairs, true).ok().unwrap();
    assert_eq!(hits.len(), 1);
    assert_eq!(hits[0].id, "");
    assert_eq!(hits[0].distance, 0);
    assert!(parse_resp3_map(&vec![], true).ok().unwrap().is_empty());
}

#[test]
fn protocols_give_the_same_hits() {
    let fields = || {
        vec![
            (bulk("__vector_score"), bulk("0.5")),
            (bulk("document"), bulk("{}")),
        ]
    };
    let flat = Reply::Array(vec![
        Reply::Int(1),
        bulk("d:1"),
        Reply::Array(fields().into_iter().flat_map(|(k, v)| [k, v]).collect()),
    ]);
    let mapped = Reply::Pairs(vec![(
        bulk("results"),
        Reply::Array(vec![Reply::Pairs(vec![
            (bulk("id"), bulk("d:1")),
            (bulk("extra_attributes"), Reply::Pairs(fields())),
        ])]),
    )]);
    for with_document in [true, false] {
        let left = parse_response_generic(&flat, with_document).ok().unwrap();
        let right = parse_response_generic(&mapped, with_document).ok().unwrap();
        assert_eq!(left.len(), 1);
        assert_eq!(left[0].id, right[0].id);
        assert_eq!(left[0].distance, right[0].distance);
        assert_eq!(left[0].document, right[0].document);
    }
}

#[test]
fn identifiers_agree_with_documents() {
    let mut items = vec![Reply::Int(2)];
    items.extend(scored("a", bulk("0.5")));
    items.extend(scored("b", bulk("0.75")));
    let response = Reply::Array(items);
    let ids = parse_search_response_ids(&response).ok().unwrap();
    assert_eq!(
        ids,
        vec![
            (0.5_f64.to_bits(), "a".to_string()),
            (0.75_f64.to_bits(), "b".to_string())
        ]
    );
    let hits = parse_response_generic(&response, true).ok().unwrap();
    let again: Vec<(u64, String)> = hits.into_iter().map(|hit| (hit.distance, hit.id)).collect();
    assert_eq!(ids, again);
}

#[test]
fn unreadable_documents_are_left_out() {
    let response = Reply::Array(vec![
        Reply::Int(2),
        bulk("a"),
        Reply::Array(vec![bulk("document"), bulk("{broken")]),
        bulk("b"),
        Reply::Array(vec![bulk("document"), bulk("[1]")]),
    ]);
    let results = found_documents(&response);
    assert_eq!(results.len(), 1);
    assert_eq!(results[0].1, "b");
    assert_eq!(results[0].0, 0.0);
}

#[test]
fn missing_scores_are_told() {
    let mut items = vec![Reply::Int(5)];
    items.extend(scored("a", bulk("0.0")));
    items.extend([bulk("b"), Reply::Array(vec![bulk("document"), bulk("{}")])]);
    items.extend([bulk("c"), bulk("no fields")]);
    items.extend([bulk("d"), Reply::Array(vec![bulk("__vector_score")])]);
    items.extend(scored("e", bulk("near")));
    items.extend([bulk("f"), Reply::Array(vec![])]);
    assert_eq!(missing_scores(&Reply::Array(items)), vec!["b", "d"]);
    let none = Reply::Array(vec![Reply::Int(0), bulk("a"), Reply::Array(vec![])]);
    assert!(missing_scores(&none).is_empty());
    assert!(missing_scores(&Reply::Int(1)).is_empty());

    let entry = |id: &str, fields: Vec<(Reply, Reply)>| {
        Reply::Pairs(vec![
            (bulk("extra_attributes"), Reply::Pairs(fields)),
            (bulk("id"), bulk(id)),
        ])
    };
    let mapped = Reply::Pairs(vec![(
        bulk("results"),
        Reply::Array(vec![
            entry("a", vec![(bulk("__vector_score"), bulk("0.0"))]),
            entry("b", vec![(bulk("document"), bulk("{}"))]),
            bulk("no entry"),
            Reply::Pairs(vec![(bulk("id"), bulk("c"))]),
            entry("d", vec![(bulk("__vector_score"), Reply::Int(1))]),
            entry("e", vec![]),
        ]),
    )]);
    assert_eq!(missing_scores(&mapped), vec!["b", "c"]);
    assert!(missing_scores(&Reply::Pairs(vec![])).is_empty());
}

#[test]
fn documents_that_are_left_out_are_told() {
    let items = |last: Reply| {
        Reply::Array(vec![
            Reply::Int(3),
            bulk("a"),
            Reply::Array(vec![bulk("document"), bulk("{}")]),
            bulk("b"),
            Reply::Array(vec![bulk("document"), bulk("")]),
            bulk("c"),
            Reply::Array(vec![bulk("document"), Reply::Int(1), bulk("__vector_score"), last]),
        ])
    };
    let response = items(bulk("0.5"));
    assert_eq!(dropped_documents(&response), vec!["b", "c"]);
    assert_eq!(textless_documents(&response), vec!["c"]);
    assert_eq!(parse_search_response(&response).ok().unwrap().len(), 1);
    let faulty = items(bulk("near"));
    assert!(dropped_documents(&faulty).is_empty());
    assert!(textless_documents(&faulty).is_empty());
    assert!(textless_documents(&Reply::Pairs(vec![])).is_empty());
}

#[test]
fn skipped_metadata_is_told() {
    let fields: Vec<String> = ["sold", "tags", "price", "gone", "missing"]
        .iter()
        .map(|f| f.to_string())
        .collect();
    assert_eq!(skipped_metadata(&product().json, &fields), vec!["tags", "gone", "missing"]);
    assert_eq!(extract_metadata(&product().json, &fields).len(), 2);
}

#[test]
fn query_embeddings_must_be_finite() {
    let doubles = |values: &[f64]| values.iter().map(|x| x.to_bits()).collect::<Vec<u64>>();
    let singles = |values: &[f64]| {
        values.iter().map(|x| (*x as f32).to_bits()).collect::<Vec<u32>>()
    };
    let good = [1.0, -2.5];
    assert_eq!(
        embed_query(&doubles(&good), &singles(&good)).ok().unwrap(),
        vec![0, 0, 128, 63, 0, 0, 32, 192]
    );
    for bad in [f64::NAN, f64::INFINITY, f64::NEG_INFINITY] {
        let values = [1.0, bad];
        let error = embed_query(&doubles(&values), &singles(&values)).err().unwrap();
        assert_eq!(error.message(), "query embedding contains non-finite (NaN/Inf) values");
    }
    // A number too large for 32 bits is finite as it was given.
    let large = [1e300];
    assert_eq!(
        embed_query(&doubles(&large), &singles(&large)).ok().unwrap(),
        vec![0, 0, 128, 127]
    );
}

#[test]
fn patterns_compare_as_floats_do() {
    let values = [
        f64::NEG_INFINITY,
        f64::MIN,
        -1.5,
        -f64::MIN_POSITIVE,
        -0.0,
        0.0,
        f64::MIN_POSITIVE,
        0.1,
        0.2,
        1.5,
        f64::MAX,
        f64::INFINITY,
        f64::NAN,
        -f64::NAN,
    ];
    for left in values {
        assert_eq!(finite(left.to_bits()), left.is_finite());
        for right in values {
            assert_eq!(at_least(left.to_bits(), right.to_bits()), left >= right);
        }
    }
}

#[test]
fn thresholds_drop_what_is_under_them() {
    let scored = || {
        [0.9, 0.5, 0.7, f64::NAN]
            .iter()
            .map(|s: &f64| (s.to_bits(), format!("{}", s)))
            .collect::<Vec<(u64, String)>>()
    };
    let names = |ids: Vec<(u64, String)>| ids.into_iter().map(|(_, id)| id).collect::<Vec<_>>();
    assert_eq!(names(top_n_ids(scored(), Some(0.7_f64.to_bits()))), vec!["0.9", "0.7"]);
    assert_eq!(names(top_n_ids(scored(), None)).len(), 4);
    assert!(top_n_ids(scored(), Some(f64::NAN.to_bits())).is_empty());

    let documents = scored().into_iter().map(|(s, id)| (s, id, 7_u8)).collect();
    let kept = top_n(documents, Some(0.9_f64.to_bits()));
    assert_eq!(kept, vec![(0.9_f64.to_bits(), "0.9".to_string(), 7)]);
}

fn product() -> Document {
    Document {
        json: JsonValue::Object(vec![
            ("name".to_string(), JsonValue::String("Mouse".to_string())),
            ("price".to_string(), json_number("25.5")),
            ("sold".to_string(), JsonValue::Bool(true)),
            ("tags".to_string(), JsonValue::Array(vec![])),
            ("gone".to_string(), JsonValue::Null),
            ("document".to_string(), JsonValue::String("own".to_string())),
        ]),
        text: "{\"name\":\"Mouse\"}".to_string(),
        embeddings: vec![
            Embedding { document: "a mouse".to_string(), singles: vec![1.0_f32.to_bits()] },
            Embedding { document: "input device".to_string(), singles: vec![] },
        ],
    }
}

#[test]
fn metadata_is_extracted_from_scalars() {
    let fields: Vec<String> = ["sold", "tags", "price", "gone", "missing", "name"]
        .iter()
        .map(|f| f.to_string())
        .collect();
    let metadata = extract_metadata(&product().json, &fields);
    let expected: Vec<(String, String)> = [("sold", "1"), ("price", "25.5"), ("name", "Mouse")]
        .iter()
        .map(|(k, v)| (k.to_string(), v.to_string()))
        .collect();
    assert_eq!(metadata, expected);
    assert!(extract_metadata(&JsonValue::Null, &fields).is_empty());
    assert!(get(&product().json, "missing").is_none());
}

#[test]
fn every_embedding_becomes_a_hash() {
    let store = store()
        .with_key_prefix("products:".to_string())
        .with_metadata_fields(vec!["price".to_string(), "document".to_string()]);
    let ids = vec!["one".to_string(), "two".to_string()];
    let pipeline = store.insert_with_ids(&vec![product()], &ids);
    let commands: Vec<Vec<Vec<u8>>> = pipeline.cmd_iter().map(args).collect();
    let hash = |key: &str, text: &str, vector: Vec<u8>| -> Vec<Vec<u8>> {
        vec![
            b"HSET".to_vec(),
            key.as_bytes().to_vec(),
            b"document".to_vec(),
            b"{\"name\":\"Mouse\"}".to_vec(),
            b"embedded_text".to_vec(),
            text.as_bytes().to_vec(),
            b"embedding".to_vec(),
            vector,
            b"price".to_vec(),
            b"25.5".to_vec(),
        ]
    };
    assert_eq!(
        commands,
        vec![
            hash("products:one", "a mouse", vec![0, 0, 128, 63]),
            hash("products:two", "input device", vec![]),
        ]
    );
}

#[test]
fn the_results_of_insertions_are_ignored() {
    let mut document = product();
    document.embeddings.truncate(1);
    let pipeline = store().insert_with_ids(&vec![document], &vec!["one".to_string()]);
    assert!(format!("{:?}", pipeline).contains("ignored_commands: {0}"));
}

#[test]
fn identifiers_are_used_up_in_order() {
    let ids: Vec<String> = ["a", "b", "c", "d"].iter().map(|s| s.to_string()).collect();
    let pipeline = store().insert_with_ids(&vec![product(), product()], &ids);
    let keys: Vec<Vec<u8>> = pipeline.cmd_iter().map(|command| args(command)[1].clone()).collect();
    assert_eq!(keys, vec![b"a".to_vec(), b"b".to_vec(), b"c".to_vec(), b"d".to_vec()]);
}

#[test]
fn inserted_keys_are_prefixed_uuids() {
    let store = store().with_key_prefix("p:".to_string());
    let pipeline = store.insert_documents(&vec![product(), product()]);
    let keys: Vec<String> = pipeline
        .cmd_iter()
        .map(|command| String::from_utf8(args(command)[1].clone()).unwrap())
        .collect();
    assert_eq!(keys.len(), 4);
    for (i, key) in keys.iter().enumerate() {
        let id: Vec<char> = key.strip_prefix("p:").unwrap().chars().collect();
        assert_eq!(id.len(), 36);
        for (place, c) in id.iter().enumerate() {
            if [8, 13, 18, 23].contains(&place) {
                assert_eq!(*c, '-');
            } else {
                assert!(c.is_ascii_digit() || ('a'..='f').contains(c));
            }
        }
        assert_eq!(id[14], '4');
        assert!("89ab".contains(id[19]));
        assert!(!keys[..i].contains(key));
    }
    assert_eq!(store.insert_documents(&vec![]).cmd_iter().count(), 0);
}

#[test]
fn what_was_inserted_is_read_back() {
    let pipeline = store().insert_with_ids(
        &vec![product()],
        &vec!["clé".to_string(), "two".to_string()],
    );
    let written: Vec<Vec<u8>> = pipeline.cmd_iter().map(args).next().unwrap();
    let raw = |bytes: &Vec<u8>| Reply::BulkString { bytes: bytes.clone(), number: number("x") };
    let response = Reply::Array(vec![
        Reply::Int(1),
        raw(&written[1]),
        Reply::Array(vec![
            bulk("__vector_score"),
            bulk("0.125"),
            raw(&written[2]),
            raw(&written[3]),
        ]),
    ]);
    let hits = parse_search_response(&response).ok().unwrap();
    assert_eq!(hits[0].id, "clé");
    assert_eq!(hits[0].document, "{\"name\":\"Mouse\"}");
    assert_eq!(hits[0].distance, 0.125_f64.to_bits());
    let deletion = store().delete(&[hits[0].id.clone()]).unwrap();
    assert_eq!(args(&deletion)[1], written[1]);
}

#[test]
fn numbers_print_in_decimal() {
    for n in [0_u64, 9, 10, 99, 1536, u64::MAX] {
        assert_eq!(decimal_u64(n), n.to_string());
    }
    for n in [0_i64, -1, 42, i64::MAX, i64::MIN] {
        assert_eq!(decimal_i64(n), n.to_string());
    }
}

#[test]
fn ascii_case_is_ignored() {
    assert!(eq_ignore_ascii_case("Distance_METRIC", "distance_metric"));
    assert!(!eq_ignore_ascii_case("É", "é"));
    assert!(!eq_ignore_ascii_case("a", "ab"));
    assert!(!eq_ignore_ascii_case("[", "{"));
}
