//! Filters for RediSearch `FT.SEARCH` queries.
//!
//! # Field Type Expectations
//!
//! - **Numeric fields**: `eq`, `gt`, `lt`, `gte`, `lte`, and `range` produce range syntax (`@field:[min max]`)
//! - **Tag fields**: String equality uses tag syntax (`@field:{value}`)
//! - **Bool fields**: Equality uses numeric TAG values (`1` or `0`) with tag syntax
//! - **Range filters**: Range constructors reject non-numeric values instead of converting them into tag matches
//!
//! # Escaping
//!
//! Field names and tag/text values are escaped for RediSearch special characters
//! by the typed constructors. The [`escape_tag_value`] and [`escape_text_value`]
//! helpers are exported for callers building raw queries via [`Filter::raw`].

use vstd::prelude::*;

use crate::escape::{escape, field_name, Place};
use crate::json::{Double, JsonValue};
use crate::reply::texts;
use crate::text::{chars_of, debug_of, debug_text};

pub use crate::escape::{escape_tag_value, escape_text_value};

verus! {

/// The `From` of std from a type to itself returns its argument unchanged.
pub assume_specification<Kind>[ <Kind as std::convert::From<Kind>>::from ](value: Kind) -> (same: Kind)
    ensures
        same == value,
;

/// Why a filter cannot be built.
#[derive(Debug, PartialEq)]
pub enum FilterError {
    /// Another kind of value was expected.
    Expected { expected: String, got: String },
    /// The value has no counterpart in a filter.
    TypeError(String),
}

/// What a [`FilterError`] says.
pub enum FilterFault {
    Expected { expected: Seq<char>, got: Seq<char> },
    TypeError(Seq<char>),
}

impl View for FilterError {
    type V = FilterFault;

    open spec fn view(&self) -> FilterFault {
        match self {
            FilterError::Expected { expected, got } => FilterFault::Expected {
                expected: expected@,
                got: got@,
            },
            FilterError::TypeError(message) => FilterFault::TypeError(message@),
        }
    }
}

/// Typed value for Redis-specific filter expressions.
///
/// Determines how the value is formatted in the RediSearch query syntax.
#[derive(Debug, PartialEq)]
pub enum RedisValue {
    /// Numeric value. Equality produces range syntax; range constructors use
    /// this as the only supported value kind.
    Number(Double),
    /// String/tag value. Equality and tag filters produce tag syntax.
    String(String),
    /// Boolean value. Equality treats this as a TAG value (`1` or `0`).
    Bool(bool),
}

impl Clone for RedisValue {
    fn clone(&self) -> (copy: Self)
        ensures
            copy == *self,
    {
        match self {
            RedisValue::Number(number) => RedisValue::Number(number.clone()),
            RedisValue::String(text) => RedisValue::String(text.clone()),
            RedisValue::Bool(b) => RedisValue::Bool(*b),
        }
    }
}

/// What a [`RedisValue`] says.
pub enum ValueView {
    Number(Seq<char>),
    String(Seq<char>),
    Bool(bool),
}

impl View for RedisValue {
    type V = ValueView;

    open spec fn view(&self) -> ValueView {
        match self {
            RedisValue::Number(number) => ValueView::Number(number.text@),
            RedisValue::String(text) => ValueView::String(text@),
            RedisValue::Bool(b) => ValueView::Bool(*b),
        }
    }
}

/// One or more decimal digits.
pub open spec fn is_digits(text: Seq<char>) -> bool {
    text.len() > 0 && forall|i: int| 0 <= i < text.len() ==> '0' <= #[trigger] text[i] <= '9'
}

/// Digits, or digits, a point and digits.
pub open spec fn is_unsigned(text: Seq<char>) -> bool {
    is_digits(text) || exists|point: int| #[trigger] splits_at(text, point)
}

/// Whether a point at that place has digits on both sides.
pub open spec fn splits_at(text: Seq<char>, point: int) -> bool {
    &&& 0 <= point < text.len()
    &&& text[point] == '.'
    &&& is_digits(text.take(point))
    &&& is_digits(text.skip(point + 1))
}

/// Whether a text is a decimal numeral. A 64-bit float prints as one exactly
/// if it is finite; the others print as `NaN`, `inf` and `-inf`.
pub open spec fn is_numeral(text: Seq<char>) -> bool {
    is_unsigned(text) || (text.len() > 0 && text[0] == '-' && is_unsigned(text.skip(1)))
}

/// The end of the run of digits that starts at `start`.
fn digits_end(chars: &Vec<char>, start: usize) -> (end: usize)
    requires
        start <= chars@.len(),
    ensures
        start <= end <= chars@.len(),
        forall|i: int| start <= i < end ==> '0' <= #[trigger] chars@[i] <= '9',
        end < chars@.len() ==> !('0' <= chars@[end as int] <= '9'),
{
    let mut end = start;
    while end < chars.len() && '0' <= chars[end] && chars[end] <= '9'
        invariant
            start <= end <= chars@.len(),
            forall|i: int| start <= i < end ==> '0' <= #[trigger] chars@[i] <= '9',
        decreases chars@.len() - end,
    {
        end = end + 1;
    }
    end
}

/// Whether the characters from `start` on are an unsigned numeral.
fn unsigned_from(chars: &Vec<char>, start: usize) -> (yes: bool)
    requires
        start <= chars@.len(),
    ensures
        yes == is_unsigned(chars@.skip(start as int)),
{
    let ghost rest = chars@.skip(start as int);
    let end = digits_end(chars, start);
    let ghost run = end - start;
    proof {
        assert forall|i: int| 0 <= i < run implies '0' <= #[trigger] rest[i] <= '9' by {
            assert(rest[i] == chars@[start + i]);
        }
        assert forall|point: int| splits_at(rest, point) implies point == run by {
            if point < run {
                assert('0' <= rest[point] <= '9');
            } else if point > run {
                assert(rest.take(point)[run] == rest[run]);
                assert(rest[run] == chars@[end as int]);
            }
        }
    }
    if end == chars.len() {
        assert(is_digits(rest) <==> run > 0);
        return end > start;
    }
    assert(rest[run] == chars@[end as int]);
    assert(!is_digits(rest));
    if end == start || chars[end] != '.' {
        proof {
            assert forall|point: int| !splits_at(rest, point) by {
                if splits_at(rest, point) {
                    assert(point == run);
                    assert(rest.take(point).len() == run);
                }
            }
        }
        return false;
    }
    let last = digits_end(chars, end + 1);
    let ghost fraction = rest.skip(run + 1);
    proof {
        assert(is_digits(rest.take(run)));
        assert forall|i: int| 0 <= i < last - end - 1 implies '0' <= #[trigger] fraction[i] <= '9' by {
            assert(fraction[i] == chars@[end + 1 + i]);
        }
        if last < chars@.len() {
            assert(fraction[last - end - 1] == chars@[last as int]);
            assert(!is_digits(fraction));
        }
        assert(splits_at(rest, run) <==> is_digits(fraction));
    }
    last == chars.len() && last > end + 1
}

/// Whether a text is a decimal numeral.
fn numeral(text: &str) -> (yes: bool)
    ensures
        yes == is_numeral(text@),
{
    let chars = chars_of(text);
    assert(chars@.skip(0) =~= text@);
    if unsigned_from(&chars, 0) {
        return true;
    }
    chars.len() > 0 && chars[0] == '-' && unsigned_from(&chars, 1)
}

/// Finite numeric value for Redis range-syntax filters.
#[derive(Debug, PartialEq)]
pub struct RedisNumber {
    text: String,
}

impl Clone for RedisNumber {
    fn clone(&self) -> (copy: Self)
        ensures
            copy@ == self@,
    {
        proof {
            use_type_invariant(self);
        }
        RedisNumber { text: self.text.clone() }
    }
}

impl View for RedisNumber {
    type V = Seq<char>;

    closed spec fn view(&self) -> Seq<char> {
        self.text@
    }
}

/// The fault of a number that is not finite.
pub open spec fn not_finite(got: Seq<char>) -> FilterFault {
    FilterFault::Expected {
        expected: "finite numeric value for Redis numeric filter"@,
        got,
    }
}

/// What the number of a [`Double`] comes to.
pub open spec fn number_outcome(text: Seq<char>) -> Result<Seq<char>, FilterFault> {
    if is_numeral(text) {
        Ok(text)
    } else {
        Err(not_finite(text))
    }
}

/// What a number or its error says.
pub open spec fn number_view(result: Result<RedisNumber, FilterError>) -> Result<
    Seq<char>,
    FilterFault,
> {
    match result {
        Ok(number) => Ok(number@),
        Err(error) => Err(error@),
    }
}

impl RedisNumber {
    #[verifier::type_invariant]
    spec fn is_valid(self) -> bool {
        is_numeral(self.text@)
    }

    /// Creates a finite Redis numeric filter value.
    ///
    /// Returns a [`FilterError`] if `value` is not finite (`NaN`, `+inf`, `-inf`).
    pub fn new(value: Double) -> (number: Result<RedisNumber, FilterError>)
        ensures
            number_view(number) == number_outcome(value.text@),
    {
        if numeral(value.text.as_str()) {
            Ok(RedisNumber { text: value.text })
        } else {
            Err(
                FilterError::Expected {
                    expected: "finite numeric value for Redis numeric filter".to_owned(),
                    got: value.text,
                },
            )
        }
    }

    /// The decimal text of the number.
    pub fn get(&self) -> (text: &str)
        ensures
            text@ == self@,
            is_numeral(self@),
    {
        proof {
            use_type_invariant(self);
        }
        self.text.as_str()
    }
}

/// The fault of a value that is no bound for an operation.
pub open spec fn bound_fault(value: ValueView, operation: Seq<char>) -> FilterFault {
    match value {
        ValueView::Number(text) => FilterFault::Expected {
            expected: "finite numeric value for Redis "@ + operation + " filter"@,
            got: text,
        },
        _ => FilterFault::Expected {
            expected: "numeric value for Redis "@ + operation + " filter"@,
            got: shown(value),
        },
    }
}

/// A value that is not a number, as an error shows it.
pub open spec fn shown(value: ValueView) -> Seq<char> {
    match value {
        ValueView::Number(text) => text,
        ValueView::String(text) => "String("@ + debug_text(text) + ")"@,
        ValueView::Bool(true) => "Bool(true)"@,
        ValueView::Bool(false) => "Bool(false)"@,
    }
}

/// What the bound of a range comes to: finite numbers alone are bounds.
pub open spec fn bound_outcome(value: ValueView, operation: Seq<char>) -> Result<
    Seq<char>,
    FilterFault,
> {
    match value {
        ValueView::Number(text) if is_numeral(text) => Ok(text),
        _ => Err(bound_fault(value, operation)),
    }
}

/// The text `prefix`, `operation`, ` filter`.
fn expectation(prefix: &str, operation: &str) -> (text: String)
    ensures
        text@ == prefix@ + operation@ + " filter"@,
{
    let mut text = prefix.to_owned();
    text.append(operation);
    text.append(" filter");
    text
}

/// Takes a value as the bound of a range. Strings and booleans are refused,
/// and so is a number that is not finite.
pub fn numeric_bound(value: RedisValue, operation: &str) -> (number: Result<
    RedisNumber,
    FilterError,
>)
    ensures
        number_view(number) == bound_outcome(value@, operation@),
{
    match value {
        RedisValue::Number(double) => {
            if numeral(double.text.as_str()) {
                Ok(RedisNumber { text: double.text })
            } else {
                let expected = expectation("finite numeric value for Redis ", operation);
                Err(FilterError::Expected { expected, got: double.text })
            }
        },
        RedisValue::String(text) => {
            let expected = expectation("numeric value for Redis ", operation);
            let mut got = "String(".to_owned();
            got.append(debug_of(text.as_str()).as_str());
            got.append(")");
            Err(FilterError::Expected { expected, got })
        },
        RedisValue::Bool(b) => {
            let expected = expectation("numeric value for Redis ", operation);
            let got = if b { "Bool(true)".to_owned() } else { "Bool(false)".to_owned() };
            Err(FilterError::Expected { expected, got })
        },
    }
}

/// A clause on a field: `@`, the field's escaped name, and `body` between `open`
/// and `close`.
pub open spec fn clause(key: Seq<char>, open: Seq<char>, body: Seq<char>, close: Seq<char>) -> Seq<char> {
    "@"@ + escape(Place::Field, key) + open + body + close
}

/// A range clause that holds one number.
pub open spec fn equal_to(key: Seq<char>, number: Seq<char>) -> Seq<char> {
    clause(key, ":["@, number + " "@ + number, "]"@)
}

/// A range clause from a number on.
pub open spec fn at_or_above(key: Seq<char>, number: Seq<char>) -> Seq<char> {
    clause(key, ":["@, number, " +inf]"@)
}

/// A range clause for what is above a number.
pub open spec fn above_number(key: Seq<char>, number: Seq<char>) -> Seq<char> {
    clause(key, ":[("@, number, " +inf]"@)
}

/// A range clause up to a number.
pub open spec fn at_or_below(key: Seq<char>, number: Seq<char>) -> Seq<char> {
    clause(key, ":[-inf "@, number, "]"@)
}

/// A range clause for what is below a number.
pub open spec fn below_number(key: Seq<char>, number: Seq<char>) -> Seq<char> {
    clause(key, ":[-inf ("@, number, "]"@)
}

/// A tag clause; `tags` is escaped already.
pub open spec fn tagged(key: Seq<char>, tags: Seq<char>) -> Seq<char> {
    clause(key, ":{"@, tags, "}"@)
}

/// Escaped tags, with ` | ` between them.
pub open spec fn tag_list(values: Seq<Seq<char>>) -> Seq<char>
    decreases values.len(),
{
    if values.len() == 0 {
        seq![]
    } else if values.len() == 1 {
        escape(Place::Tag, values[0])
    } else {
        tag_list(values.drop_last()) + " | "@ + escape(Place::Tag, values.last())
    }
}

/// Redis filter for FT.SEARCH queries.
///
/// Wraps a raw RediSearch query string. Use the inherent constructors on this
/// type for Redis-specific filters, including fallible numeric range filters
/// and tag filters.
#[derive(Debug)]
pub struct Filter {
    query: String,
}

impl View for Filter {
    type V = Seq<char>;

    closed spec fn view(&self) -> Seq<char> {
        self.query@
    }
}

impl Clone for Filter {
    fn clone(&self) -> (copy: Self)
        ensures
            copy@ == self@,
    {
        Filter { query: self.query.clone() }
    }
}

/// What a filter or its error says.
pub open spec fn filter_view(result: Result<Filter, FilterError>) -> Result<
    Seq<char>,
    FilterFault,
> {
    match result {
        Ok(filter) => Ok(filter@),
        Err(error) => Err(error@),
    }
}

fn field_clause(key: &str, open: &str, body: &str, close: &str) -> (filter: Filter)
    ensures
        filter@ == clause(key@, open@, body@, close@),
{
    let mut query = "@".to_owned();
    query.append(field_name(key).as_str());
    query.append(open);
    query.append(body);
    query.append(close);
    Filter { query }
}

/// `@field:[val val]`.
pub fn numeric_eq_filter(key: &str, value: RedisNumber) -> (filter: Filter)
    ensures
        filter@ == equal_to(key@, value@),
{
    let mut body = value.text.clone();
    body.append(" ");
    body.append(value.text.as_str());
    field_clause(key, ":[", body.as_str(), "]")
}

/// `@field:[(val +inf]`.
pub fn gt_number_filter(key: &str, value: RedisNumber) -> (filter: Filter)
    ensures
        filter@ == above_number(key@, value@),
{
    field_clause(key, ":[(", value.text.as_str(), " +inf]")
}

/// `@field:[-inf (val]`.
pub fn lt_number_filter(key: &str, value: RedisNumber) -> (filter: Filter)
    ensures
        filter@ == below_number(key@, value@),
{
    field_clause(key, ":[-inf (", value.text.as_str(), "]")
}

/// `@field:[val +inf]`.
pub fn gte_number_filter(key: &str, value: RedisNumber) -> (filter: Filter)
    ensures
        filter@ == at_or_above(key@, value@),
{
    field_clause(key, ":[", value.text.as_str(), " +inf]")
}

/// `@field:[-inf val]`.
pub fn lte_number_filter(key: &str, value: RedisNumber) -> (filter: Filter)
    ensures
        filter@ == at_or_below(key@, value@),
{
    field_clause(key, ":[-inf ", value.text.as_str(), "]")
}

/// What an equality filter comes to.
pub open spec fn eq_outcome(key: Seq<char>, value: ValueView) -> Result<Seq<char>, FilterFault> {
    match value {
        ValueView::Number(text) => match number_outcome(text) {
            Ok(number) => Ok(equal_to(key, number)),
            Err(fault) => Err(fault),
        },
        ValueView::String(text) => Ok(tagged(key, escape(Place::Tag, text))),
        ValueView::Bool(true) => Ok(tagged(key, "1"@)),
        ValueView::Bool(false) => Ok(tagged(key, "0"@)),
    }
}

/// What a greater-than filter comes to.
pub open spec fn gt_outcome(key: Seq<char>, value: ValueView) -> Result<Seq<char>, FilterFault> {
    match bound_outcome(value, "greater-than"@) {
        Ok(number) => Ok(above_number(key, number)),
        Err(fault) => Err(fault),
    }
}

/// What a less-than filter comes to.
pub open spec fn lt_outcome(key: Seq<char>, value: ValueView) -> Result<Seq<char>, FilterFault> {
    match bound_outcome(value, "less-than"@) {
        Ok(number) => Ok(below_number(key, number)),
        Err(fault) => Err(fault),
    }
}

/// What a greater-than-or-equal filter comes to.
pub open spec fn gte_outcome(key: Seq<char>, value: ValueView) -> Result<Seq<char>, FilterFault> {
    match bound_outcome(value, "greater-than-or-equal"@) {
        Ok(number) => Ok(at_or_above(key, number)),
        Err(fault) => Err(fault),
    }
}

/// What a less-than-or-equal filter comes to.
pub open spec fn lte_outcome(key: Seq<char>, value: ValueView) -> Result<Seq<char>, FilterFault> {
    match bound_outcome(value, "less-than-or-equal"@) {
        Ok(number) => Ok(at_or_below(key, number)),
        Err(fault) => Err(fault),
    }
}

/// What a filter with two bounds comes to: the first bound that is not finite
/// is the fault.
pub open spec fn range_outcome(
    key: Seq<char>,
    open: Seq<char>,
    min: Seq<char>,
    between: Seq<char>,
    max: Seq<char>,
) -> Result<Seq<char>, FilterFault> {
    if !is_numeral(min) {
        Err(not_finite(min))
    } else if !is_numeral(max) {
        Err(not_finite(max))
    } else {
        Ok(clause(key, open, min + between + max, "]"@))
    }
}

/// The query for what a query does not match.
pub open spec fn negated(query: Seq<char>) -> Seq<char> {
    "-"@ + query
}

/// The query for what two queries both match.
pub open spec fn both(left: Seq<char>, right: Seq<char>) -> Seq<char> {
    "("@ + left + " "@ + right + ")"@
}

/// The query for what one of two queries matches.
pub open spec fn either(left: Seq<char>, right: Seq<char>) -> Seq<char> {
    "("@ + left + " | "@ + right + ")"@
}

impl Filter {
    /// Equality filter.
    ///
    /// - Numeric: `@field:[val val]` (exact range match)
    /// - String: `@field:{value}` (tag match, value escaped)
    /// - Bool: `@field:{1}` or `@field:{0}` (tag match)
    pub fn eq<V: Into<RedisValue>>(key: &str, value: V) -> (filter: Result<
        Filter,
        FilterError,
    >)
        ensures
            exists|v: RedisValue| #[trigger]
                call_ensures(Into::<RedisValue>::into, (value,), v) && filter_view(filter)
                    == eq_outcome(key@, v@),
    {
        match value.into() {
            RedisValue::Number(double) => match RedisNumber::new(double) {
                Ok(number) => Ok(numeric_eq_filter(key, number)),
                Err(error) => Err(error),
            },
            RedisValue::String(text) => {
                Ok(field_clause(key, ":{", escape_tag_value(text.as_str()).as_str(), "}"))
            },
            RedisValue::Bool(b) => {
                let tag = if b { "1" } else { "0" };
                Ok(field_clause(key, ":{", tag, "}"))
            },
        }
    }

    /// Greater-than filter (exclusive).
    ///
    /// Produces `@field:[(val +inf]` for numeric values and returns an error
    /// for strings or booleans. Use [`Filter::eq`] or [`Filter::tag_in`] for
    /// tag comparisons.
    pub fn gt<V: Into<RedisValue>>(key: &str, value: V) -> (filter: Result<
        Filter,
        FilterError,
    >)
        ensures
            exists|v: RedisValue| #[trigger]
                call_ensures(Into::<RedisValue>::into, (value,), v) && filter_view(filter)
                    == gt_outcome(key@, v@),
    {
        match numeric_bound(value.into(), "greater-than") {
            Ok(number) => Ok(gt_number_filter(key, number)),
            Err(error) => Err(error),
        }
    }

    /// Less-than filter (exclusive).
    ///
    /// Produces `@field:[-inf (val]` for numeric values and returns an error
    /// for strings or booleans. Use [`Filter::eq`] or [`Filter::tag_in`] for
    /// tag comparisons.
    pub fn lt<V: Into<RedisValue>>(key: &str, value: V) -> (filter: Result<
        Filter,
        FilterError,
    >)
        ensures
            exists|v: RedisValue| #[trigger]
                call_ensures(Into::<RedisValue>::into, (value,), v) && filter_view(filter)
                    == lt_outcome(key@, v@),
    {
        match numeric_bound(value.into(), "less-than") {
            Ok(number) => Ok(lt_number_filter(key, number)),
            Err(error) => Err(error),
        }
    }

    /// Negates this filter expression.
    pub fn not(self) -> (filter: Filter)
        ensures
            filter@ == negated(self@),
    {
        let mut query = "-".to_owned();
        query.append(self.query.as_str());
        Filter { query }
    }

    /// Greater than or equal (inclusive).
    ///
    /// Produces `@field:[val +inf]` for numeric values and returns an error
    /// for strings or booleans. Use [`Filter::eq`] or [`Filter::tag_in`] for
    /// tag comparisons.
    pub fn gte<V: Into<RedisValue>>(key: &str, value: V) -> (filter: Result<
        Filter,
        FilterError,
    >)
        ensures
            exists|v: RedisValue| #[trigger]
                call_ensures(Into::<RedisValue>::into, (value,), v) && filter_view(filter)
                    == gte_outcome(key@, v@),
    {
        match numeric_bound(value.into(), "greater-than-or-equal") {
            Ok(number) => Ok(gte_number_filter(key, number)),
            Err(error) => Err(error),
        }
    }

    /// Less than or equal (inclusive).
    ///
    /// Produces `@field:[-inf val]` for numeric values and returns an error
    /// for strings or booleans. Use [`Filter::eq`] or [`Filter::tag_in`] for
    /// tag comparisons.
    pub fn lte<V: Into<RedisValue>>(key: &str, value: V) -> (filter: Result<
        Filter,
        FilterError,
    >)
        ensures
            exists|v: RedisValue| #[trigger]
                call_ensures(Into::<RedisValue>::into, (value,), v) && filter_view(filter)
                    == lte_outcome(key@, v@),
    {
        match numeric_bound(value.into(), "less-than-or-equal") {
            Ok(number) => Ok(lte_number_filter(key, number)),
            Err(error) => Err(error),
        }
    }

    /// Combines this filter with another using RediSearch AND semantics.
    pub fn and(self, rhs: Filter) -> (filter: Filter)
        ensures
            filter@ == both(self@, rhs@),
    {
        let mut query = "(".to_owned();
        query.append(self.query.as_str());
        query.append(" ");
        query.append(rhs.query.as_str());
        query.append(")");
        Filter { query }
    }

    /// Combines this filter with another using RediSearch OR semantics.
    pub fn or(self, rhs: Filter) -> (filter: Filter)
        ensures
            filter@ == either(self@, rhs@),
    {
        let mut query = "(".to_owned();
        query.append(self.query.as_str());
        query.append(" | ");
        query.append(rhs.query.as_str());
        query.append(")");
        Filter { query }
    }

    fn bounded(key: &str, open: &str, min: Double, between: &str, max: Double) -> (filter: Result<
        Filter,
        FilterError,
    >)
        ensures
            filter_view(filter) == range_outcome(key@, open@, min.text@, between@, max.text@),
    {
        let min = match RedisNumber::new(min) {
            Ok(number) => number,
            Err(error) => {
                return Err(error);
            },
        };
        let max = match RedisNumber::new(max) {
            Ok(number) => number,
            Err(error) => {
                return Err(error);
            },
        };
        let mut body = min.text.clone();
        body.append(between);
        body.append(max.text.as_str());
        Ok(field_clause(key, open, body.as_str(), "]"))
    }

    /// Numeric range filter (inclusive on both ends).
    pub fn range(key: &str, min: Double, max: Double) -> (filter: Result<Filter, FilterError>)
        ensures
            filter_view(filter) == range_outcome(key@, ":["@, min.text@, " "@, max.text@),
    {
        Filter::bounded(key, ":[", min, " ", max)
    }

    /// Numeric range filter (exclusive on both ends).
    pub fn range_exclusive(key: &str, min: Double, max: Double) -> (filter: Result<
        Filter,
        FilterError,
    >)
        ensures
            filter_view(filter) == range_outcome(key@, ":[("@, min.text@, " ("@, max.text@),
    {
        Filter::bounded(key, ":[(", min, " (", max)
    }

    /// Tag filter for multiple values (OR).
    ///
    /// Produces `@field:{val1 | val2 | val3}` with each value escaped.
    ///
    /// If `values` is empty, returns a match-all filter (`*`) to avoid emitting
    /// invalid `@field:{}` syntax.
    pub fn tag_in(key: &str, values: Vec<String>) -> (filter: Filter)
        ensures
            filter@ == if values@.len() == 0 {
                "*"@
            } else {
                tagged(key@, tag_list(texts(values@)))
            },
    {
        if values.len() == 0 {
            return Filter::raw("*".to_owned());
        }
        let mut tags = escape_tag_value(values[0].as_str());
        assert(tag_list(texts(values@).take(1)) == tags@);
        for i in 1..values.len()
            invariant
                values@.len() > 0,
                tags@ == tag_list(texts(values@).take(i as int)),
        {
            proof {
                let shown = texts(values@).take(i + 1);
                assert(shown.drop_last() =~= texts(values@).take(i as int));
                assert(shown.last() == values@[i as int]@);
            }
            tags.append(" | ");
            tags.append(escape_tag_value(values[i].as_str()).as_str());
        }
        assert(texts(values@).take(values@.len() as int) =~= texts(values@));
        field_clause(key, ":{", tags.as_str(), "}")
    }

    /// Full-text token search within a TEXT field.
    ///
    /// Performs a token-AND search: all words in `text` must appear in the field,
    /// in any order or position. This is **not** a phrase search; use
    /// [`Filter::text_phrase`] for exact ordered matching.
    pub fn text_contains(key: &str, text: &str) -> (filter: Filter)
        ensures
            filter@ == clause(key@, ":("@, escape(Place::Words, text@), ")"@),
    {
        field_clause(key, ":(", escape_text_value(text).as_str(), ")")
    }

    /// Exact phrase search within a TEXT field.
    ///
    /// Matches the exact ordered sequence of words in `phrase`. Produces
    /// `@field:"phrase"` syntax with the phrase contents escaped (the wrapping
    /// quotes are not escaped).
    pub fn text_phrase(key: &str, phrase: &str) -> (filter: Filter)
        ensures
            filter@ == clause(key@, ":\""@, escape(Place::Words, phrase@), "\""@),
    {
        field_clause(key, ":\"", escape_text_value(phrase).as_str(), "\"")
    }

    /// Creates a filter from a raw RediSearch query string.
    ///
    /// No escaping is applied; the caller is responsible for valid syntax.
    ///
    /// # Security Warning
    ///
    /// Do **not** pass unsanitized user input to this method. Arbitrary
    /// RediSearch clauses can be injected, returning unintended results or
    /// causing parse errors. Use the typed constructors (e.g. [`Filter::eq`],
    /// [`Filter::tag_in`]) for user-supplied values, or escape values yourself
    /// with [`escape_tag_value`] / [`escape_text_value`].
    pub fn raw(query: String) -> (filter: Filter)
        ensures
            filter@ == query@,
    {
        Filter { query }
    }

    /// Consumes the filter and returns the raw RediSearch query string.
    pub fn into_inner(self) -> (query: String)
        ensures
            query@ == self@,
    {
        self.query
    }
}

impl vstd::std_specs::convert::FromSpecImpl<Double> for RedisValue {
    open spec fn obeys_from_spec() -> bool {
        true
    }

    open spec fn from_spec(value: Double) -> RedisValue {
        RedisValue::Number(value)
    }
}

impl From<Double> for RedisValue {
    fn from(value: Double) -> (converted: RedisValue) {
        RedisValue::Number(value)
    }
}

impl vstd::std_specs::convert::FromSpecImpl<bool> for RedisValue {
    open spec fn obeys_from_spec() -> bool {
        true
    }

    open spec fn from_spec(value: bool) -> RedisValue {
        RedisValue::Bool(value)
    }
}

impl From<bool> for RedisValue {
    fn from(value: bool) -> (converted: RedisValue) {
        RedisValue::Bool(value)
    }
}

impl vstd::std_specs::convert::FromSpecImpl<std::string::String> for RedisValue {
    open spec fn obeys_from_spec() -> bool {
        true
    }

    open spec fn from_spec(value: std::string::String) -> RedisValue {
        RedisValue::String(value)
    }
}

impl From<std::string::String> for RedisValue {
    fn from(value: std::string::String) -> (converted: RedisValue) {
        RedisValue::String(value)
    }
}

impl vstd::std_specs::convert::FromSpecImpl<&str> for RedisValue {
    open spec fn obeys_from_spec() -> bool {
        false
    }

    open spec fn from_spec(value: &str) -> RedisValue {
        arbitrary()
    }
}

impl From<&str> for RedisValue {
    fn from(value: &str) -> (converted: RedisValue)
        ensures
            converted@ == ValueView::String(value@),
    {
        RedisValue::String(value.to_owned())
    }
}

impl vstd::std_specs::convert::TryFromSpecImpl<Double> for RedisNumber {
    open spec fn obeys_try_from_spec() -> bool {
        false
    }

    open spec fn try_from_spec(value: Double) -> Result<RedisNumber, FilterError> {
        arbitrary()
    }
}

impl TryFrom<Double> for RedisNumber {
    type Error = FilterError;

    fn try_from(value: Double) -> (number: Result<RedisNumber, FilterError>)
        ensures
            number_view(number) == number_outcome(value.text@),
    {
        RedisNumber::new(value)
    }
}

/// What a JSON value comes to as a filter's value.
pub open spec fn value_outcome(value: JsonValue) -> Result<ValueView, FilterFault> {
    match value {
        JsonValue::Bool(b) => Ok(ValueView::Bool(b)),
        JsonValue::Number(number) => match number.double {
            Some(double) => Ok(ValueView::Number(double.text@)),
            None => Err(
                FilterFault::Expected {
                    expected: "Valid 64-bit float"@,
                    got: "Invalid 64-bit float"@,
                },
            ),
        },
        JsonValue::String(text) => Ok(ValueView::String(text@)),
        _ => Err(
            FilterFault::TypeError(
                "Redis filter does not currently support null values, arrays or objects"@,
            ),
        ),
    }
}

/// What a value or its error says.
pub open spec fn value_view(result: Result<RedisValue, FilterError>) -> Result<
    ValueView,
    FilterFault,
> {
    match result {
        Ok(value) => Ok(value@),
        Err(error) => Err(error@),
    }
}

impl vstd::std_specs::convert::TryFromSpecImpl<JsonValue> for RedisValue {
    open spec fn obeys_try_from_spec() -> bool {
        false
    }

    open spec fn try_from_spec(value: JsonValue) -> Result<RedisValue, FilterError> {
        arbitrary()
    }
}

impl TryFrom<JsonValue> for RedisValue {
    type Error = FilterError;

    fn try_from(value: JsonValue) -> (converted: Result<RedisValue, FilterError>)
        ensures
            value_view(converted) == value_outcome(value),
    {
        match value {
            JsonValue::Bool(b) => Ok(RedisValue::Bool(b)),
            JsonValue::Number(number) => match number.double {
                Some(double) => Ok(RedisValue::Number(double)),
                None => Err(
                    FilterError::Expected {
                        expected: "Valid 64-bit float".to_owned(),
                        got: "Invalid 64-bit float".to_owned(),
                    },
                ),
            },
            JsonValue::String(text) => Ok(RedisValue::String(text)),
            JsonValue::Null | JsonValue::Array(_) | JsonValue::Object(_) => Err(
                FilterError::TypeError(
                    "Redis filter does not currently support null values, arrays or objects".to_owned(),
                ),
            ),
        }
    }
}

/// A filter that names no store: the five forms that every store understands.
pub enum CoreFilter {
    /// The field equals the value.
    Eq(String, JsonValue),
    /// The field is greater than the value.
    Gt(String, JsonValue),
    /// The field is less than the value.
    Lt(String, JsonValue),
    /// Both hold.
    And(Box<CoreFilter>, Box<CoreFilter>),
    /// One of both holds.
    Or(Box<CoreFilter>, Box<CoreFilter>),
}

/// What a store-neutral filter comes to. Of two faults, the left one is told.
pub open spec fn core_outcome(filter: CoreFilter) -> Result<Seq<char>, FilterFault>
    decreases filter,
{
    match filter {
        CoreFilter::Eq(key, json) => match value_outcome(json) {
            Ok(value) => eq_outcome(key@, value),
            Err(fault) => Err(fault),
        },
        CoreFilter::Gt(key, json) => match value_outcome(json) {
            Ok(value) => gt_outcome(key@, value),
            Err(fault) => Err(fault),
        },
        CoreFilter::Lt(key, json) => match value_outcome(json) {
            Ok(value) => lt_outcome(key@, value),
            Err(fault) => Err(fault),
        },
        CoreFilter::And(left, right) => match (core_outcome(*left), core_outcome(*right)) {
            (Err(fault), _) => Err(fault),
            (_, Err(fault)) => Err(fault),
            (Ok(left), Ok(right)) => Ok(both(left, right)),
        },
        CoreFilter::Or(left, right) => match (core_outcome(*left), core_outcome(*right)) {
            (Err(fault), _) => Err(fault),
            (_, Err(fault)) => Err(fault),
            (Ok(left), Ok(right)) => Ok(either(left, right)),
        },
    }
}

impl Filter {
    fn from_core(filter: CoreFilter) -> (translated: Result<Filter, FilterError>)
        ensures
            filter_view(translated) == core_outcome(filter),
        decreases filter,
    {
        match filter {
            CoreFilter::Eq(key, json) => match RedisValue::try_from(json) {
                Ok(value) => Filter::eq(key.as_str(), value),
                Err(error) => Err(error),
            },
            CoreFilter::Gt(key, json) => match RedisValue::try_from(json) {
                Ok(value) => Filter::gt(key.as_str(), value),
                Err(error) => Err(error),
            },
            CoreFilter::Lt(key, json) => match RedisValue::try_from(json) {
                Ok(value) => Filter::lt(key.as_str(), value),
                Err(error) => Err(error),
            },
            CoreFilter::And(left, right) => match Filter::from_core(*left) {
                Ok(left) => match Filter::from_core(*right) {
                    Ok(right) => Ok(left.and(right)),
                    Err(error) => Err(error),
                },
                Err(error) => Err(error),
            },
            CoreFilter::Or(left, right) => match Filter::from_core(*left) {
                Ok(left) => match Filter::from_core(*right) {
                    Ok(right) => Ok(left.or(right)),
                    Err(error) => Err(error),
                },
                Err(error) => Err(error),
            },
        }
    }
}

impl vstd::std_specs::convert::TryFromSpecImpl<CoreFilter> for Filter {
    open spec fn obeys_try_from_spec() -> bool {
        false
    }

    open spec fn try_from_spec(value: CoreFilter) -> Result<Filter, FilterError> {
        arbitrary()
    }
}

impl TryFrom<CoreFilter> for Filter {
    type Error = FilterError;

    fn try_from(filter: CoreFilter) -> (translated: Result<Filter, FilterError>)
        ensures
            filter_view(translated) == core_outcome(filter),
    {
        Filter::from_core(filter)
    }
}

} // verus!
