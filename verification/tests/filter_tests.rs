//! Tests of the RediSearch filter API.

use rig_redis_vectorstore::escape::{escape_field_segment, field_name};
use rig_redis_vectorstore::filter::{
    escape_tag_value, escape_text_value, gt_number_filter, gte_number_filter, lt_number_filter,
    lte_number_filter, numeric_bound, numeric_eq_filter, CoreFilter, FilterError, RedisNumber,
    RedisValue,
};
use rig_redis_vectorstore::json::{Double, JsonNumber, JsonValue};
use rig_redis_vectorstore::Filter;

fn rendered(f: Filter) -> String {
    f.into_inner()
}

fn double(value: f64) -> Double {
    Double { text: value.to_string() }
}

fn json_number(value: f64, text: &str) -> JsonValue {
    JsonValue::Number(JsonNumber { text: text.to_string(), double: Some(double(value)) })
}

fn number(value: f64) -> RedisNumber {
    RedisNumber::new(double(value)).unwrap()
}

fn expected_error(error: FilterError) -> (String, String) {
    match error {
        FilterError::Expected { expected, got } => (expected, got),
        FilterError::TypeError(message) => panic!("{}", message),
    }
}

#[test]
fn numeric_equality_uses_range_syntax() {
    let f = Filter::eq("age", double(30_i64 as f64)).unwrap();
    assert_eq!(rendered(f), "@age:[30 30]");
}

#[test]
fn string_equality_uses_tag_syntax() {
    let f = Filter::eq("category", "Electronics").unwrap();
    assert_eq!(rendered(f), "@category:{Electronics}");
}

#[test]
fn bool_equality_uses_tag_one_zero() {
    assert_eq!(rendered(Filter::eq("active", true).unwrap()), "@active:{1}");
    assert_eq!(
        rendered(Filter::eq("active", false).unwrap()),
        "@active:{0}"
    );
}

#[test]
fn greater_than_numeric() {
    let f = Filter::gt("price", double(100_i64 as f64)).unwrap();
    assert_eq!(rendered(f), "@price:[(100 +inf]");
}

#[test]
fn range_constructors() {
    assert_eq!(
        rendered(Filter::range("p", double(1.0), double(10.0)).unwrap()),
        "@p:[1 10]"
    );
    assert_eq!(
        rendered(Filter::range_exclusive("p", double(1.0), double(10.0)).unwrap()),
        "@p:[(1 (10]"
    );
}

#[test]
fn range_ops_reject_non_numeric() {
    assert!(Filter::gt("status", "active").is_err());
    assert!(Filter::lt("status", "active").is_err());
    assert!(Filter::gte("status", true).is_err());
    assert!(Filter::lte("status", "x").is_err());
}

#[test]
fn tag_in_joins_values_and_guards_empty() {
    assert_eq!(
        rendered(Filter::tag_in("cat", vec!["a".into(), "b".into()])),
        "@cat:{a | b}"
    );
    assert_eq!(rendered(Filter::tag_in("cat", vec![])), "*");
}

#[test]
fn text_contains_and_phrase() {
    assert_eq!(
        rendered(Filter::text_contains("desc", "hello world")),
        "@desc:(hello world)"
    );
    assert_eq!(
        rendered(Filter::text_phrase("desc", "hello world")),
        "@desc:\"hello world\""
    );
}

#[test]
fn negation_and_combination() {
    let f = Filter::eq("a", double(1_i64 as f64)).unwrap().not();
    assert_eq!(rendered(f), "-@a:[1 1]");

    let combined = Filter::eq("a", double(1_i64 as f64))
        .unwrap()
        .and(Filter::eq("b", double(2_i64 as f64)).unwrap());
    assert_eq!(rendered(combined), "(@a:[1 1] @b:[2 2])");

    let either = Filter::eq("a", double(1_i64 as f64))
        .unwrap()
        .or(Filter::eq("b", double(2_i64 as f64)).unwrap());
    assert_eq!(rendered(either), "(@a:[1 1] | @b:[2 2])");
}

#[test]
fn tag_values_are_escaped() {
    let f = Filter::eq("name", "a-b").unwrap();
    assert_eq!(rendered(f), r"@name:{a\-b}");
}

#[test]
fn field_names_are_escaped_per_segment() {
    let f = Filter::eq("we ird", "x").unwrap();
    assert_eq!(rendered(f), r"@we\ ird:{x}");
}

#[test]
fn redis_number_rejects_non_finite() {
    assert!(RedisNumber::new(double(f64::NAN)).is_err());
    assert!(RedisNumber::new(double(f64::INFINITY)).is_err());
    assert!(RedisNumber::new(double(f64::NEG_INFINITY)).is_err());
    assert!(RedisNumber::new(double(1.5)).is_ok());
}

#[test]
fn core_filter_rejects_unsupported_json() {
    let null = CoreFilter::Eq("k".to_string(), JsonValue::Null);
    assert!(Filter::try_from(null).is_err());

    let arr = CoreFilter::Eq(
        "k".to_string(),
        JsonValue::Array(vec![json_number(1.0, "1"), json_number(2.0, "2")]),
    );
    assert!(Filter::try_from(arr).is_err());

    let obj = CoreFilter::Eq(
        "k".to_string(),
        JsonValue::Object(vec![("a".to_string(), json_number(1.0, "1"))]),
    );
    assert!(Filter::try_from(obj).is_err());
}

#[test]
fn core_filter_maps_supported_variants() {
    let core = CoreFilter::And(
        Box::new(CoreFilter::Eq(
            "cat".to_string(),
            JsonValue::String("books".to_string()),
        )),
        Box::new(CoreFilter::Gt("price".to_string(), json_number(10.0, "10"))),
    );
    let f = Filter::try_from(core).unwrap();
    assert_eq!(rendered(f), "(@cat:{books} @price:[(10 +inf])");
}

#[test]
fn escape_helpers_are_exported() {
    assert_eq!(escape_tag_value("a|b"), r"a\|b");
    assert_eq!(escape_text_value("a@b"), r"a\@b");
}

#[test]
fn numeric_equality_escapes_the_field_name_once() {
    let f = Filter::eq("we ird", double(5.0)).unwrap();
    assert_eq!(rendered(f), r"@we\ ird:[5 5]");
}

#[test]
fn all_bounds_have_their_brackets() {
    assert_eq!(rendered(Filter::gte("p", double(-2.5)).unwrap()), "@p:[-2.5 +inf]");
    assert_eq!(rendered(Filter::lte("p", double(-2.5)).unwrap()), "@p:[-inf -2.5]");
    assert_eq!(rendered(Filter::gt("p", double(-2.5)).unwrap()), "@p:[(-2.5 +inf]");
    assert_eq!(rendered(Filter::lt("p", double(-2.5)).unwrap()), "@p:[-inf (-2.5]");
}

#[test]
fn number_filters_take_finite_numbers() {
    assert_eq!(rendered(numeric_eq_filter("a b", number(1.0))), r"@a\ b:[1 1]");
    assert_eq!(rendered(gt_number_filter("a", number(1.0))), "@a:[(1 +inf]");
    assert_eq!(rendered(lt_number_filter("a", number(1.0))), "@a:[-inf (1]");
    assert_eq!(rendered(gte_number_filter("a", number(1.0))), "@a:[1 +inf]");
    assert_eq!(rendered(lte_number_filter("a", number(1.0))), "@a:[-inf 1]");
    assert_eq!(number(0.25).get(), "0.25");
    assert_eq!(number(0.25).clone().get(), "0.25");
}

#[test]
fn every_finite_float_prints_as_a_numeral() {
    for value in [
        0.0,
        -0.0,
        1.0,
        -1.0,
        0.1,
        1e300,
        -1e300,
        1e-300,
        f64::MAX,
        f64::MIN,
        f64::MIN_POSITIVE,
        f64::EPSILON,
        9007199254740993_u64 as f64,
        u64::MAX as f64,
        i64::MIN as f64,
    ] {
        assert!(RedisNumber::new(double(value)).is_ok(), "{}", value);
    }
}

#[test]
fn what_is_no_numeral_is_refused() {
    for text in ["", "-", ".", "1.", ".5", "1.2.3", "--1", "1e5", "+1", "1 2", "inf", "1]"] {
        assert!(RedisNumber::new(Double { text: text.to_string() }).is_err(), "{}", text);
    }
}

#[test]
fn non_finite_numbers_name_the_expectation() {
    let error = RedisNumber::try_from(double(f64::NAN)).unwrap_err();
    assert_eq!(
        expected_error(error),
        ("finite numeric value for Redis numeric filter".to_string(), "NaN".to_string())
    );
    let error = Filter::eq("a", double(f64::INFINITY)).unwrap_err();
    assert_eq!(
        expected_error(error),
        ("finite numeric value for Redis numeric filter".to_string(), "inf".to_string())
    );
    let error = Filter::range("a", double(f64::NEG_INFINITY), double(f64::NAN)).unwrap_err();
    assert_eq!(expected_error(error).1, "-inf");
    let error = Filter::range_exclusive("a", double(1.0), double(f64::NAN)).unwrap_err();
    assert_eq!(expected_error(error).1, "NaN");
}

#[test]
fn bounds_name_the_operation_and_the_value() {
    let error = Filter::gt("a", "it's \"on\"\n").unwrap_err();
    assert_eq!(
        expected_error(error),
        (
            "numeric value for Redis greater-than filter".to_string(),
            format!("String({:?})", "it's \"on\"\n")
        )
    );
    let error = Filter::lt("a", true).unwrap_err();
    assert_eq!(
        expected_error(error),
        ("numeric value for Redis less-than filter".to_string(), "Bool(true)".to_string())
    );
    let error = Filter::gte("a", false).unwrap_err();
    assert_eq!(
        expected_error(error),
        (
            "numeric value for Redis greater-than-or-equal filter".to_string(),
            "Bool(false)".to_string()
        )
    );
    let error = Filter::lte("a", double(f64::NAN)).unwrap_err();
    assert_eq!(
        expected_error(error),
        (
            "finite numeric value for Redis less-than-or-equal filter".to_string(),
            "NaN".to_string()
        )
    );
    assert!(numeric_bound(RedisValue::Number(double(2.0)), "any").is_ok());
}

#[test]
fn values_convert() {
    assert_eq!(RedisValue::from("x"), RedisValue::String("x".to_string()));
    assert_eq!(RedisValue::from("x".to_string()), RedisValue::String("x".to_string()));
    assert_eq!(RedisValue::from(true), RedisValue::Bool(true));
    assert_eq!(RedisValue::from(double(1.5)), RedisValue::Number(double(1.5)));
    let value = RedisValue::String("kept".to_string());
    assert_eq!(value.clone(), value);
    assert_eq!(rendered(Filter::eq("k", value).unwrap()), "@k:{kept}");
}

#[test]
fn json_values_convert() {
    assert_eq!(RedisValue::try_from(JsonValue::Bool(false)), Ok(RedisValue::Bool(false)));
    assert_eq!(
        RedisValue::try_from(json_number(2.5, "2.5")),
        Ok(RedisValue::Number(double(2.5)))
    );
    let without_double =
        JsonValue::Number(JsonNumber { text: "1e999".to_string(), double: None });
    assert_eq!(
        expected_error(RedisValue::try_from(without_double).unwrap_err()),
        ("Valid 64-bit float".to_string(), "Invalid 64-bit float".to_string())
    );
    assert_eq!(
        RedisValue::try_from(JsonValue::Null),
        Err(FilterError::TypeError(
            "Redis filter does not currently support null values, arrays or objects".to_string()
        ))
    );
}

#[test]
fn core_filter_tells_the_left_error() {
    let core = CoreFilter::Or(
        Box::new(CoreFilter::Lt("a".to_string(), JsonValue::Bool(true))),
        Box::new(CoreFilter::Eq("b".to_string(), JsonValue::Null)),
    );
    let error = Filter::try_from(core).unwrap_err();
    assert_eq!(expected_error(error).0, "numeric value for Redis less-than filter");

    let core = CoreFilter::Or(
        Box::new(CoreFilter::Lt("a".to_string(), json_number(3.0, "3"))),
        Box::new(CoreFilter::Eq("b".to_string(), JsonValue::Bool(true))),
    );
    assert_eq!(rendered(Filter::try_from(core).unwrap()), "(@a:[-inf (3] | @b:{1})");
}

#[test]
fn field_names_keep_their_dots() {
    assert_eq!(field_name("a.b-c.d"), r"a.b\-c.d");
    assert_eq!(field_name("."), ".");
    assert_eq!(field_name(""), "");
    assert_eq!(field_name("naïve"), r"na\ïve");
    assert_eq!(escape_field_segment("a.b"), r"a\.b");
    assert_eq!(escape_field_segment("Az_09"), "Az_09");
}

#[test]
fn all_tag_specials_are_escaped() {
    for c in r#"\ ,.<>{}[]"':;!@#$%^&*()-+=~|/"#.chars() {
        assert_eq!(escape_tag_value(&c.to_string()), format!("\\{}", c));
    }
    for c in "aZ0_?`é".chars() {
        assert_eq!(escape_tag_value(&c.to_string()), c.to_string());
    }
}

#[test]
fn all_text_specials_are_escaped() {
    for c in r#"\<>{}[]"':;!@#$%^&*()-+=~|/"#.chars() {
        assert_eq!(escape_text_value(&c.to_string()), format!("\\{}", c));
    }
    for c in "aZ0_ ,.?`é".chars() {
        assert_eq!(escape_text_value(&c.to_string()), c.to_string());
    }
}

#[test]
fn values_cannot_leave_their_brackets() {
    let f = Filter::eq("tag", "x} | @secret:{y").unwrap();
    assert_eq!(rendered(f), r"@tag:{x\}\ \|\ \@secret\:\{y}");
    let f = Filter::text_phrase("t", "a\" | @b:\"c");
    assert_eq!(rendered(f), "@t:\"a\\\" \\| \\@b\\:\\\"c\"");
    let f = Filter::text_contains("t", ") (");
    assert_eq!(rendered(f), r"@t:(\) \()");
    let f = Filter::eq("a:{x} @b", true).unwrap();
    assert_eq!(rendered(f), r"@a\:\{x\}\ \@b:{1}");
    let f = Filter::tag_in("t", vec!["a | b".to_string(), "c".to_string()]);
    assert_eq!(rendered(f), r"@t:{a\ \|\ b | c}");
}

#[test]
fn raw_filters_stay_as_they_are() {
    assert_eq!(rendered(Filter::raw("@a:[1 2] -@b:{c}".to_string())), "@a:[1 2] -@b:{c}");
    assert_eq!(rendered(Filter::raw("*".to_string()).clone()), "*");
}
