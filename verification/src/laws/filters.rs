//! Laws of filters: which values they take, and how they are written.

use vstd::prelude::*;

use crate::escape::{escape, Place};
use crate::filter::{
    both, bound_outcome, clause, core_outcome, either, eq_outcome, filter_view, gt_outcome,
    gte_outcome, is_digits, is_numeral, is_unsigned, lt_outcome, lte_outcome, negated,
    number_outcome, number_view, range_outcome, splits_at, tag_list, tagged, value_outcome,
    value_view, CoreFilter, Filter, FilterError, FilterFault, RedisNumber, RedisValue, ValueView,
};
use crate::json::JsonValue;
use crate::text::debug_text;

verus! {

/// ASCII punctuation: what prints and is neither a letter, a digit nor a space.
pub open spec fn is_punctuation(c: char) -> bool {
    '!' <= c <= '/' || ':' <= c <= '@' || '[' <= c <= '`' || '{' <= c <= '~'
}

/// ASCII letters and digits.
pub open spec fn is_alphanumeric(c: char) -> bool {
    'a' <= c <= 'z' || 'A' <= c <= 'Z' || '0' <= c <= '9'
}

/// Which characters are escaped where. In words, all ASCII punctuation but comma,
/// point, question mark, underscore and backquote; in tags, comma, point and space
/// too; in a segment of a name, all but ASCII letters, digits and underscore; in a
/// whole name, all but these and the point. One that is escaped follows a
/// backslash, and any other stands for itself.
pub proof fn special_characters_are_escaped(c: char)
    ensures
        ({
            let in_words = is_punctuation(c) && c != ',' && c != '.' && c != '?' && c != '_' && c
                != '`';
            let in_tags = in_words || c == ',' || c == '.' || c == ' ';
            let in_segments = !is_alphanumeric(c) && c != '_';
            &&& escape(Place::Words, seq![c]) == if in_words {
                seq!['\\', c]
            } else {
                seq![c]
            }
            &&& escape(Place::Tag, seq![c]) == if in_tags {
                seq!['\\', c]
            } else {
                seq![c]
            }
            &&& escape(Place::Segment, seq![c]) == if in_segments {
                seq!['\\', c]
            } else {
                seq![c]
            }
            &&& escape(Place::Field, seq![c]) == if in_segments && c != '.' {
                seq!['\\', c]
            } else {
                seq![c]
            }
        }),
{
    let one = seq![c];
    let none = one.drop_last();
    assert(none.len() == 0);
    assert(escape(Place::Words, one) =~= escape(Place::Words, none) + crate::escape::escape_char(
        Place::Words,
        c,
    ));
    assert(escape(Place::Tag, one) =~= escape(Place::Tag, none) + crate::escape::escape_char(
        Place::Tag,
        c,
    ));
    assert(escape(Place::Segment, one) =~= escape(Place::Segment, none)
        + crate::escape::escape_char(Place::Segment, c));
    assert(escape(Place::Field, one) =~= escape(Place::Field, none) + crate::escape::escape_char(
        Place::Field,
        c,
    ));
    assert(escape(Place::Words, none) =~= seq![]);
    assert(escape(Place::Tag, none) =~= seq![]);
    assert(escape(Place::Segment, none) =~= seq![]);
    assert(escape(Place::Field, none) =~= seq![]);
}

/// Whether a text holds decimal digits, and nothing else.
pub open spec fn holds_digits(text: Seq<char>) -> bool {
    text.len() > 0 && forall|i: int| 0 <= i < text.len() ==> 48 <= #[trigger] text[i] as int <= 57
}

/// A whole part and, where it is given, a point and a fraction behind it; with a
/// minus sign in front where the number is negative.
pub open spec fn number_text(negative: bool, whole: Seq<char>, fraction: Option<Seq<char>>) -> Seq<
    char,
> {
    let sign: Seq<char> = if negative { seq!['-'] } else { seq![] };
    match fraction {
        Some(fraction) => sign + whole + seq!['.'] + fraction,
        None => sign + whole,
    }
}

/// Digits, with or without a sign, with or without a point and a fraction, are a
/// numeral, however many digits there are.
proof fn digits_are_numerals(negative: bool, whole: Seq<char>, fraction: Option<Seq<char>>)
    requires
        holds_digits(whole),
        fraction matches Some(fraction) ==> holds_digits(fraction),
    ensures
        is_numeral(number_text(negative, whole, fraction)),
{
    let plain = match fraction {
        Some(fraction) => whole + seq!['.'] + fraction,
        None => whole,
    };
    assert(is_digits(whole));
    assert(is_unsigned(plain)) by {
        if let Some(fraction) = fraction {
            assert(is_digits(fraction));
            assert(plain.take(whole.len() as int) =~= whole);
            assert(plain.skip(whole.len() as int + 1) =~= fraction);
            assert(splits_at(plain, whole.len() as int));
        }
    }
    let text = number_text(negative, whole, fraction);
    if negative {
        assert(text.skip(1) =~= plain);
    } else {
        assert(text =~= plain);
    }
}

/// Every finite number is taken, as the value of an equality, as any bound, and as
/// either bound of a range: digits, with or without a sign, with or without a point
/// and a fraction, however many digits there are.
pub proof fn finite_numbers_are_taken(
    key: Seq<char>,
    negative: bool,
    whole: Seq<char>,
    fraction: Option<Seq<char>>,
    other_negative: bool,
    other_whole: Seq<char>,
    other_fraction: Option<Seq<char>>,
)
    requires
        holds_digits(whole),
        fraction matches Some(fraction) ==> holds_digits(fraction),
        holds_digits(other_whole),
        other_fraction matches Some(fraction) ==> holds_digits(fraction),
    ensures
        ({
            let text = number_text(negative, whole, fraction);
            let other = number_text(other_negative, other_whole, other_fraction);
            let value = ValueView::Number(text);
            &&& is_numeral(text)
            &&& number_outcome(text) == Ok::<Seq<char>, FilterFault>(text)
            &&& eq_outcome(key, value) is Ok
            &&& gt_outcome(key, value) is Ok
            &&& lt_outcome(key, value) is Ok
            &&& gte_outcome(key, value) is Ok
            &&& lte_outcome(key, value) is Ok
            &&& range_outcome(key, ":["@, text, " "@, other) is Ok
            &&& range_outcome(key, ":[("@, text, " ("@, other) is Ok
        }),
{
    digits_are_numerals(negative, whole, fraction);
    digits_are_numerals(other_negative, other_whole, other_fraction);
}

/// Nothing else is taken: a text that is taken as a number is made of digits, with
/// or without a sign and a fraction.
pub proof fn only_finite_numbers_are_taken(text: Seq<char>)
    requires
        is_numeral(text),
    ensures
        exists|negative: bool, whole: Seq<char>, fraction: Option<Seq<char>>|
            text == #[trigger] number_text(negative, whole, fraction) && holds_digits(whole) && (
            fraction matches Some(fraction) ==> holds_digits(fraction)),
{
    let negative = !is_unsigned(text);
    let plain = if negative { text.skip(1) } else { text };
    if is_digits(plain) {
        assert(holds_digits(plain));
        assert(text =~= number_text(negative, plain, None));
    } else {
        let point = choose|point: int| splits_at(plain, point);
        let whole = plain.take(point);
        let fraction = plain.skip(point + 1);
        assert(holds_digits(whole));
        assert(holds_digits(fraction));
        assert(text =~= number_text(negative, whole, Some(fraction)));
    }
}

/// How a clause on a field is written: `@`, the escaped name, a colon, and what is
/// asked of the field in its brackets or quotes.
pub open spec fn field_asks(key: Seq<char>, asked: Seq<char>) -> Seq<char> {
    seq!['@'] + escape(Place::Field, key) + seq![':'] + asked
}

/// Every typed filter that takes a value is written as its syntax asks: a number in
/// square brackets, with a round one in front of a bound that is left out, and
/// `-inf` or `+inf` for the open side; a string or a boolean in braces.
pub proof fn value_filters_are_written(key: Seq<char>, value: ValueView)
    ensures
        match value {
            ValueView::Number(n) => is_numeral(n) ==> {
                &&& eq_outcome(key, value) == Ok::<Seq<char>, FilterFault>(
                    field_asks(key, seq!['['] + n + seq![' '] + n + seq![']']),
                )
                &&& gt_outcome(key, value) == Ok::<Seq<char>, FilterFault>(
                    field_asks(
                        key,
                        seq!['[', '('] + n + seq![' ', '+', 'i', 'n', 'f', ']'],
                    ),
                )
                &&& lt_outcome(key, value) == Ok::<Seq<char>, FilterFault>(
                    field_asks(
                        key,
                        seq!['[', '-', 'i', 'n', 'f', ' ', '('] + n + seq![']'],
                    ),
                )
                &&& gte_outcome(key, value) == Ok::<Seq<char>, FilterFault>(
                    field_asks(key, seq!['['] + n + seq![' ', '+', 'i', 'n', 'f', ']']),
                )
                &&& lte_outcome(key, value) == Ok::<Seq<char>, FilterFault>(
                    field_asks(key, seq!['[', '-', 'i', 'n', 'f', ' '] + n + seq![']']),
                )
            },
            ValueView::String(text) => eq_outcome(key, value) == Ok::<Seq<char>, FilterFault>(
                field_asks(key, seq!['{'] + escape(Place::Tag, text) + seq!['}']),
            ),
            ValueView::Bool(b) => eq_outcome(key, value) == Ok::<Seq<char>, FilterFault>(
                field_asks(
                    key,
                    seq!['{'] + seq![
                        if b {
                            '1'
                        } else {
                            '0'
                        },
                    ] + seq!['}'],
                ),
            ),
        },
{
    reveal_strlit("@");
    reveal_strlit(":[");
    reveal_strlit(":[(");
    reveal_strlit(":[-inf ");
    reveal_strlit(":[-inf (");
    reveal_strlit("]");
    reveal_strlit(" +inf]");
    reveal_strlit(" ");
    reveal_strlit(":{");
    reveal_strlit("}");
    reveal_strlit("1");
    reveal_strlit("0");
    match value {
        ValueView::Number(n) => {
            if is_numeral(n) {
                assert(eq_outcome(key, value)->Ok_0 =~= field_asks(
                    key,
                    seq!['['] + n + seq![' '] + n + seq![']'],
                ));
                assert(gt_outcome(key, value)->Ok_0 =~= field_asks(
                    key,
                    seq!['[', '('] + n + seq![' ', '+', 'i', 'n', 'f', ']'],
                ));
                assert(lt_outcome(key, value)->Ok_0 =~= field_asks(
                    key,
                    seq!['[', '-', 'i', 'n', 'f', ' ', '('] + n + seq![']'],
                ));
                assert(gte_outcome(key, value)->Ok_0 =~= field_asks(
                    key,
                    seq!['['] + n + seq![' ', '+', 'i', 'n', 'f', ']'],
                ));
                assert(lte_outcome(key, value)->Ok_0 =~= field_asks(
                    key,
                    seq!['[', '-', 'i', 'n', 'f', ' '] + n + seq![']'],
                ));
            }
        },
        ValueView::String(text) => {
            assert(eq_outcome(key, value)->Ok_0 =~= field_asks(
                key,
                seq!['{'] + escape(Place::Tag, text) + seq!['}'],
            ));
        },
        ValueView::Bool(b) => {
            assert(eq_outcome(key, value)->Ok_0 =~= field_asks(
                key,
                seq!['{'] + seq![
                    if b {
                        '1'
                    } else {
                        '0'
                    },
                ] + seq!['}'],
            ));
        },
    }
}

/// So are ranges of two bounds, with round brackets where the bounds are left out.
pub proof fn ranges_are_written(key: Seq<char>, min: Seq<char>, max: Seq<char>)
    requires
        is_numeral(min),
        is_numeral(max),
    ensures
        range_outcome(key, ":["@, min, " "@, max) == Ok::<Seq<char>, FilterFault>(
            field_asks(key, seq!['['] + min + seq![' '] + max + seq![']']),
        ),
        range_outcome(key, ":[("@, min, " ("@, max) == Ok::<Seq<char>, FilterFault>(
            field_asks(key, seq!['[', '('] + min + seq![' ', '('] + max + seq![']']),
        ),
{
    reveal_strlit("@");
    reveal_strlit(":[");
    reveal_strlit(":[(");
    reveal_strlit(" ");
    reveal_strlit(" (");
    reveal_strlit("]");
    assert(range_outcome(key, ":["@, min, " "@, max)->Ok_0 =~= field_asks(
        key,
        seq!['['] + min + seq![' '] + max + seq![']'],
    ));
    assert(range_outcome(key, ":[("@, min, " ("@, max)->Ok_0 =~= field_asks(
        key,
        seq!['[', '('] + min + seq![' ', '('] + max + seq![']'],
    ));
}

/// So are tags in braces, words in parentheses and phrases in quotes.
pub proof fn text_filters_are_written(key: Seq<char>, tags: Seq<char>, text: Seq<char>)
    ensures
        tagged(key, tags) == field_asks(key, seq!['{'] + tags + seq!['}']),
        clause(key, ":("@, escape(Place::Words, text), ")"@) == field_asks(
            key,
            seq!['('] + escape(Place::Words, text) + seq![')'],
        ),
        clause(key, ":\""@, escape(Place::Words, text), "\""@) == field_asks(
            key,
            seq!['"'] + escape(Place::Words, text) + seq!['"'],
        ),
{
    reveal_strlit("@");
    reveal_strlit(":{");
    reveal_strlit("}");
    reveal_strlit(":(");
    reveal_strlit(")");
    reveal_strlit(":\"");
    reveal_strlit("\"");
    assert(tagged(key, tags) =~= field_asks(key, seq!['{'] + tags + seq!['}']));
    assert(clause(key, ":("@, escape(Place::Words, text), ")"@) =~= field_asks(
        key,
        seq!['('] + escape(Place::Words, text) + seq![')'],
    ));
    assert(clause(key, ":\""@, escape(Place::Words, text), "\""@) =~= field_asks(
        key,
        seq!['"'] + escape(Place::Words, text) + seq!['"'],
    ));
}

/// A list of tags is each tag escaped, in order, with a bar between two.
pub proof fn tags_are_joined_in_order(values: Seq<Seq<char>>, value: Seq<char>)
    ensures
        tag_list(seq![value]) == escape(Place::Tag, value),
        values.len() > 0 ==> tag_list(values.push(value)) == tag_list(values) + seq![' ', '|', ' ']
            + escape(Place::Tag, value),
{
    reveal_strlit(" | ");
    assert(" | "@ =~= seq![' ', '|', ' ']);
    assert(values.push(value).drop_last() =~= values);
}

/// A negation is a minus sign in front of the query; two queries that are joined
/// stand in parentheses in their order, with a space or a bar between them.
pub proof fn combinations_are_written(left: Seq<char>, right: Seq<char>)
    ensures
        negated(left) == seq!['-'] + left,
        both(left, right) == seq!['('] + left + seq![' '] + right + seq![')'],
        either(left, right) == seq!['('] + left + seq![' ', '|', ' '] + right + seq![')'],
{
    reveal_strlit("-");
    reveal_strlit("(");
    reveal_strlit(" ");
    reveal_strlit(" | ");
    reveal_strlit(")");
    assert("-"@ =~= seq!['-']);
    assert("("@ =~= seq!['(']);
    assert(" "@ =~= seq![' ']);
    assert(" | "@ =~= seq![' ', '|', ' ']);
    assert(")"@ =~= seq![')']);
}

/// The error of a value that is no bound: what was expected for that operation, and
/// the value as it prints.
pub open spec fn is_refusal(
    outcome: Result<Seq<char>, FilterFault>,
    expected_number: Seq<char>,
    expected_finite: Seq<char>,
    value: ValueView,
) -> bool {
    outcome == match value {
        ValueView::Number(text) => Err::<Seq<char>, FilterFault>(
            FilterFault::Expected { expected: expected_finite, got: text },
        ),
        ValueView::String(text) => Err(
            FilterFault::Expected {
                expected: expected_number,
                got: seq!['S', 't', 'r', 'i', 'n', 'g', '('] + debug_text(text) + seq![')'],
            },
        ),
        ValueView::Bool(b) => Err(
            FilterFault::Expected {
                expected: expected_number,
                got: if b {
                    "Bool(true)"@
                } else {
                    "Bool(false)"@
                },
            },
        ),
    }
}

/// What is no finite number is refused by each comparison with an error that names
/// the comparison and the value.
pub proof fn refusals_name_the_operation(key: Seq<char>, value: ValueView)
    requires
        value matches ValueView::Number(text) ==> !is_numeral(text),
    ensures
        is_refusal(
            gt_outcome(key, value),
            "numeric value for Redis greater-than filter"@,
            "finite numeric value for Redis greater-than filter"@,
            value,
        ),
        is_refusal(
            lt_outcome(key, value),
            "numeric value for Redis less-than filter"@,
            "finite numeric value for Redis less-than filter"@,
            value,
        ),
        is_refusal(
            gte_outcome(key, value),
            "numeric value for Redis greater-than-or-equal filter"@,
            "finite numeric value for Redis greater-than-or-equal filter"@,
            value,
        ),
        is_refusal(
            lte_outcome(key, value),
            "numeric value for Redis less-than-or-equal filter"@,
            "finite numeric value for Redis less-than-or-equal filter"@,
            value,
        ),
{
    reveal_strlit("String(");
    reveal_strlit(")");
    assert("String("@ =~= seq!['S', 't', 'r', 'i', 'n', 'g', '(']);
    assert(")"@ =~= seq![')']);
    refusal_texts_join();
}

/// The texts of refusals, joined.
proof fn refusal_texts_join()
    ensures
        "numeric value for Redis "@ + "greater-than"@ + " filter"@
            == "numeric value for Redis greater-than filter"@,
        "numeric value for Redis "@ + "less-than"@ + " filter"@
            == "numeric value for Redis less-than filter"@,
        "numeric value for Redis "@ + "greater-than-or-equal"@ + " filter"@
            == "numeric value for Redis greater-than-or-equal filter"@,
        "numeric value for Redis "@ + "less-than-or-equal"@ + " filter"@
            == "numeric value for Redis less-than-or-equal filter"@,
        "finite numeric value for Redis "@ + "greater-than"@ + " filter"@
            == "finite numeric value for Redis greater-than filter"@,
        "finite numeric value for Redis "@ + "less-than"@ + " filter"@
            == "finite numeric value for Redis less-than filter"@,
        "finite numeric value for Redis "@ + "greater-than-or-equal"@ + " filter"@
            == "finite numeric value for Redis greater-than-or-equal filter"@,
        "finite numeric value for Redis "@ + "less-than-or-equal"@ + " filter"@
            == "finite numeric value for Redis less-than-or-equal filter"@,
{
    reveal_strlit("numeric value for Redis ");
    reveal_strlit("finite numeric value for Redis ");
    reveal_strlit("greater-than");
    reveal_strlit("less-than");
    reveal_strlit("greater-than-or-equal");
    reveal_strlit("less-than-or-equal");
    reveal_strlit(" filter");
    reveal_strlit("numeric value for Redis greater-than filter");
    reveal_strlit("numeric value for Redis less-than filter");
    reveal_strlit("numeric value for Redis greater-than-or-equal filter");
    reveal_strlit("numeric value for Redis less-than-or-equal filter");
    reveal_strlit("finite numeric value for Redis greater-than filter");
    reveal_strlit("finite numeric value for Redis less-than filter");
    reveal_strlit("finite numeric value for Redis greater-than-or-equal filter");
    reveal_strlit("finite numeric value for Redis less-than-or-equal filter");
    assert("numeric value for Redis "@ + "greater-than"@ + " filter"@
        =~= "numeric value for Redis greater-than filter"@);
    assert("numeric value for Redis "@ + "less-than"@ + " filter"@
        =~= "numeric value for Redis less-than filter"@);
    assert("numeric value for Redis "@ + "greater-than-or-equal"@ + " filter"@
        =~= "numeric value for Redis greater-than-or-equal filter"@);
    assert("numeric value for Redis "@ + "less-than-or-equal"@ + " filter"@
        =~= "numeric value for Redis less-than-or-equal filter"@);
    assert("finite numeric value for Redis "@ + "greater-than"@ + " filter"@
        =~= "finite numeric value for Redis greater-than filter"@);
    assert("finite numeric value for Redis "@ + "less-than"@ + " filter"@
        =~= "finite numeric value for Redis less-than filter"@);
    assert("finite numeric value for Redis "@ + "greater-than-or-equal"@ + " filter"@
        =~= "finite numeric value for Redis greater-than-or-equal filter"@);
    assert("finite numeric value for Redis "@ + "less-than-or-equal"@ + " filter"@
        =~= "finite numeric value for Redis less-than-or-equal filter"@);
}

/// A number that is not finite is refused by an equality and by a range with the
/// number that was given; of two such bounds the lower is told.
pub proof fn refusals_tell_the_number(key: Seq<char>, min: Seq<char>, max: Seq<char>)
    ensures
        !is_numeral(min) ==> ({
            let refusal = Err::<Seq<char>, FilterFault>(
                FilterFault::Expected {
                    expected: "finite numeric value for Redis numeric filter"@,
                    got: min,
                },
            );
            &&& number_outcome(min) == refusal
            &&& eq_outcome(key, ValueView::Number(min)) == refusal
            &&& range_outcome(key, ":["@, min, " "@, max) == refusal
            &&& range_outcome(key, ":[("@, min, " ("@, max) == refusal
        }),
        is_numeral(min) && !is_numeral(max) ==> ({
            let refusal = Err::<Seq<char>, FilterFault>(
                FilterFault::Expected {
                    expected: "finite numeric value for Redis numeric filter"@,
                    got: max,
                },
            );
            &&& range_outcome(key, ":["@, min, " "@, max) == refusal
            &&& range_outcome(key, ":[("@, min, " ("@, max) == refusal
        }),
{
}

/// A JSON string, boolean or number is a filter's value as it is; a number that no
/// 64-bit float holds, and what is no scalar, are refused.
pub proof fn json_scalars_are_values(json: JsonValue)
    ensures
        value_outcome(json) == match json {
            JsonValue::String(text) => Ok::<ValueView, FilterFault>(ValueView::String(text@)),
            JsonValue::Bool(b) => Ok(ValueView::Bool(b)),
            JsonValue::Number(number) => match number.double {
                Some(double) => Ok(ValueView::Number(double.text@)),
                None => Err(
                    FilterFault::Expected {
                        expected: "Valid 64-bit float"@,
                        got: "Invalid 64-bit float"@,
                    },
                ),
            },
            JsonValue::Null => Err(
                FilterFault::TypeError(
                    "Redis filter does not currently support null values, arrays or objects"@,
                ),
            ),
            JsonValue::Array(_) => Err(
                FilterFault::TypeError(
                    "Redis filter does not currently support null values, arrays or objects"@,
                ),
            ),
            JsonValue::Object(_) => Err(
                FilterFault::TypeError(
                    "Redis filter does not currently support null values, arrays or objects"@,
                ),
            ),
        },
{
}

/// A store-neutral comparison is the typed filter on the same field and value; one
/// of two filters is the two, in their order, joined by AND or OR; and a fault of
/// the left one is told before one of the right.
pub proof fn core_filters_are_typed_filters(
    key: String,
    json: JsonValue,
    left: CoreFilter,
    right: CoreFilter,
)
    ensures
        match value_outcome(json) {
            Ok(value) => {
                &&& core_outcome(CoreFilter::Eq(key, json)) == eq_outcome(key@, value)
                &&& core_outcome(CoreFilter::Gt(key, json)) == gt_outcome(key@, value)
                &&& core_outcome(CoreFilter::Lt(key, json)) == lt_outcome(key@, value)
            },
            Err(fault) => {
                let refusal = Err::<Seq<char>, FilterFault>(fault);
                &&& core_outcome(CoreFilter::Eq(key, json)) == refusal
                &&& core_outcome(CoreFilter::Gt(key, json)) == refusal
                &&& core_outcome(CoreFilter::Lt(key, json)) == refusal
            },
        },
        ({
            let and = core_outcome(CoreFilter::And(Box::new(left), Box::new(right)));
            let or = core_outcome(CoreFilter::Or(Box::new(left), Box::new(right)));
            match (core_outcome(left), core_outcome(right)) {
                (Ok(l), Ok(r)) => {
                    &&& and == Ok::<Seq<char>, FilterFault>(
                        seq!['('] + l + seq![' '] + r + seq![')'],
                    )
                    &&& or == Ok::<Seq<char>, FilterFault>(
                        seq!['('] + l + seq![' ', '|', ' '] + r + seq![')'],
                    )
                },
                (Err(fault), _) => and == Err::<Seq<char>, FilterFault>(fault) && or == and,
                (Ok(_), Err(fault)) => and == Err::<Seq<char>, FilterFault>(fault) && or == and,
            }
        }),
{
    if let (Ok(l), Ok(r)) = (core_outcome(left), core_outcome(right)) {
        combinations_are_written(l, r);
    }
}

/// Results are seen as they are: a filter, a number or a value by what it says, and
/// an error by its texts.
pub proof fn results_are_seen(
    filter: Result<Filter, FilterError>,
    number: Result<RedisNumber, FilterError>,
    value: Result<RedisValue, FilterError>,
    error: FilterError,
    one: RedisValue,
)
    ensures
        match filter {
            Ok(f) => filter_view(filter) == Ok::<Seq<char>, FilterFault>(f@),
            Err(e) => filter_view(filter) == Err::<Seq<char>, FilterFault>(e@),
        },
        match number {
            Ok(n) => number_view(number) == Ok::<Seq<char>, FilterFault>(n@),
            Err(e) => number_view(number) == Err::<Seq<char>, FilterFault>(e@),
        },
        match value {
            Ok(v) => value_view(value) == Ok::<ValueView, FilterFault>(v@),
            Err(e) => value_view(value) == Err::<ValueView, FilterFault>(e@),
        },
        match error {
            FilterError::Expected { expected, got } => error@ == (FilterFault::Expected {
                expected: expected@,
                got: got@,
            }),
            FilterError::TypeError(message) => error@ == FilterFault::TypeError(message@),
        },
        match one {
            RedisValue::Number(double) => one@ == ValueView::Number(double.text@),
            RedisValue::String(text) => one@ == ValueView::String(text@),
            RedisValue::Bool(b) => one@ == ValueView::Bool(b),
        },
{
}

/// A bound is taken for every operation alike.
pub proof fn bounds_do_not_depend_on_the_operation(
    value: ValueView,
    operation: Seq<char>,
    other: Seq<char>,
)
    ensures
        bound_outcome(value, operation) is Ok <==> bound_outcome(value, other) is Ok,
        bound_outcome(value, operation) matches Ok(number) ==> value == ValueView::Number(number),
{
}

} // verus!
