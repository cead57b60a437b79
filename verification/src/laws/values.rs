//! Laws of texts, numerals, bit patterns, JSON values and replies.

use vstd::prelude::*;
use vstd::utf8::{decode_utf8, valid_utf8};

use crate::command::encoded;
use crate::float::{is_at_least, is_finite, is_nan, le_bytes, le_bytes_of};
use crate::json::{first_member, hash_field, member, JsonValue};
use crate::reply::{opt_text, string_of, texts, tokens, tokens_of_items, tokens_of_pairs, Reply};
use crate::text::{
    ascii_lower, decimal, decimal_nat, digit_char, same_ignoring_case, text_of, utf8_lossy,
};

verus! {

/// Whether two characters are the same, or the upper and the lower case of one
/// ASCII letter.
pub open spec fn is_same_letter(left: char, right: char) -> bool {
    ||| left == right
    ||| 'A' <= left <= 'Z' && right as int == left as int + 32
    ||| 'A' <= right <= 'Z' && left as int == right as int + 32
}

/// Two texts are the same without regard to case exactly if they are as long and
/// the same letter by letter.
pub proof fn case_is_ignored_letter_by_letter(left: Seq<char>, right: Seq<char>)
    ensures
        same_ignoring_case(left, right) <==> left.len() == right.len() && forall|i: int|
            0 <= i < left.len() ==> is_same_letter(#[trigger] left[i], right[i]),
{
    assert forall|a: char, b: char|
        (#[trigger] ascii_lower(a) == #[trigger] ascii_lower(b)) <==> is_same_letter(a, b) by {
        assert(ascii_lower(a) as int == if 'A' <= a <= 'Z' { a as int + 32 } else { a as int });
        assert(ascii_lower(b) as int == if 'A' <= b <= 'Z' { b as int + 32 } else { b as int });
    }
    if same_ignoring_case(left, right) {
        assert forall|i: int| 0 <= i < left.len() implies is_same_letter(
            #[trigger] left[i],
            right[i],
        ) by {
            assert(ascii_lower(left[i]) == ascii_lower(right[i]));
        }
    }
    if left.len() == right.len() && (forall|i: int|
        0 <= i < left.len() ==> is_same_letter(#[trigger] left[i], right[i])) {
        assert forall|i: int| 0 <= i < left.len() implies ascii_lower(#[trigger] left[i])
            == ascii_lower(right[i]) by {
            assert(is_same_letter(left[i], right[i]));
        }
    }
}

/// The number that decimal digits stand for.
pub open spec fn numeral_value(text: Seq<char>) -> int
    decreases text.len(),
{
    if text.len() == 0 {
        0
    } else {
        10 * numeral_value(text.drop_last()) + (text.last() as int - '0' as int)
    }
}

/// A natural number is written with digits alone, without leading zeros, and the
/// digits stand for it.
pub proof fn numerals_stand_for_their_number(n: nat)
    ensures
        numeral_value(decimal(n as int)) == n,
        decimal(n as int).len() > 0,
        forall|i: int|
            0 <= i < decimal(n as int).len() ==> '0' <= #[trigger] decimal(n as int)[i] <= '9',
        decimal(n as int)[0] == '0' ==> n == 0 && decimal(n as int).len() == 1,
    decreases n,
{
    let text = decimal(n as int);
    let last = digit_char(n % 10);
    assert(last as int == '0' as int + n % 10);
    assert(text == decimal_nat(n));
    if n >= 10 {
        let front = decimal_nat(n / 10);
        numerals_stand_for_their_number(n / 10);
        assert(decimal((n / 10) as int) == front);
        assert(text == front.push(last));
        assert(text.drop_last() =~= front);
        assert(text[0] == front[0]);
    } else {
        assert(text == seq![last]);
        assert(numeral_value(text.drop_last()) == 0);
    }
}

/// A negative number is written as a minus sign and then its absolute value.
pub proof fn negative_numerals_have_a_sign(n: int)
    requires
        n < 0,
    ensures
        decimal(n) == seq!['-'] + decimal(-n),
{
}

/// The bytes of a vector, four for each number, the lowest first: together they
/// are the number's pattern.
pub proof fn vectors_are_written_number_by_number(singles: Seq<u32>, i: int)
    requires
        0 <= i < singles.len(),
    ensures
        le_bytes_of(singles).len() == 4 * singles.len(),
        ({
            let bytes = le_bytes_of(singles);
            bytes[4 * i] + 0x100 * bytes[4 * i + 1] + 0x1_0000 * bytes[4 * i + 2] + 0x100_0000
                * bytes[4 * i + 3] == singles[i]
        }),
    decreases singles.len(),
{
    let front = singles.drop_last();
    let bits = singles.last();
    let bytes = le_bytes_of(singles);
    if front.len() == 0 {
        assert(le_bytes_of(front).len() == 0);
    } else {
        vectors_are_written_number_by_number(front, 0);
    }
    assert(bytes == le_bytes_of(front) + le_bytes(bits));
    if i < front.len() {
        vectors_are_written_number_by_number(front, i);
        assert(front[i] == singles[i]);
        assert(bytes[4 * i] == le_bytes_of(front)[4 * i]);
        assert(bytes[4 * i + 1] == le_bytes_of(front)[4 * i + 1]);
        assert(bytes[4 * i + 2] == le_bytes_of(front)[4 * i + 2]);
        assert(bytes[4 * i + 3] == le_bytes_of(front)[4 * i + 3]);
    } else {
        let last = le_bytes(bits);
        assert(bytes[4 * i] == last[0]);
        assert(bytes[4 * i + 1] == last[1]);
        assert(bytes[4 * i + 2] == last[2]);
        assert(bytes[4 * i + 3] == last[3]);
        assert(bits % 0x100 + 0x100 * (bits / 0x100 % 0x100) + 0x1_0000 * (bits / 0x1_0000 % 0x100)
            + 0x100_0000 * (bits / 0x100_0000) == bits);
    }
}

/// Which patterns are finite and which are no numbers.
pub proof fn patterns_are_classed(bits: u64)
    ensures
        is_finite(bits) <==> (bits < 0x7ff0_0000_0000_0000 || 0x8000_0000_0000_0000 <= bits
            < 0xfff0_0000_0000_0000),
        is_nan(bits) <==> (0x7ff0_0000_0000_0000 < bits < 0x8000_0000_0000_0000
            || 0xfff0_0000_0000_0000 < bits),
{
}

/// How patterns compare: positive ones by their size, negative ones the other way
/// round, the two zeros alike, every positive one above every negative one, and
/// what is no number not at all.
pub proof fn patterns_compare_as_numbers(left: u64, right: u64)
    ensures
        is_nan(left) || is_nan(right) ==> !is_at_least(left, right),
        !is_nan(left) && !is_nan(right) ==> (is_at_least(left, right) <==> if left
            < 0x8000_0000_0000_0000 {
            right >= 0x8000_0000_0000_0000 || left >= right
        } else if right >= 0x8000_0000_0000_0000 {
            left <= right
        } else {
            left == 0x8000_0000_0000_0000 && right == 0
        }),
{
}

/// An object's member is the value of the first of that name, and there is none
/// exactly if no member has that name.
pub proof fn members_are_found_by_name(members: Seq<(String, JsonValue)>, name: Seq<char>)
    ensures
        match first_member(members, name) {
            Some(value) => exists|i: int|
                0 <= i < members.len() && (#[trigger] members[i]).0@ == name && members[i].1 == value
                    && forall|j: int| 0 <= j < i ==> (#[trigger] members[j]).0@ != name,
            None => forall|i: int| 0 <= i < members.len() ==> (#[trigger] members[i]).0@ != name,
        },
    decreases members.len(),
{
    if members.len() > 0 && members[0].0@ != name {
        let rest = members.skip(1);
        members_are_found_by_name(rest, name);
        match first_member(rest, name) {
            Some(value) => {
                let i = choose|i: int|
                    0 <= i < rest.len() && (#[trigger] rest[i]).0@ == name && rest[i].1 == value
                        && forall|j: int| 0 <= j < i ==> (#[trigger] rest[j]).0@ != name;
                assert(members[i + 1] == rest[i]);
                assert forall|j: int| 0 <= j < i + 1 implies (#[trigger] members[j]).0@ != name by {
                    if j > 0 {
                        assert(rest[j - 1] == members[j]);
                    }
                }
            },
            None => {
                assert forall|i: int| 0 <= i < members.len() implies (#[trigger] members[i]).0@
                    != name by {
                    if i > 0 {
                        assert(rest[i - 1] == members[i]);
                    }
                }
            },
        }
    }
}

/// Only an object has members, and only scalars have a flat text: a string its
/// own, a number that of JSON, true `1` and false `0`.
pub proof fn scalars_have_a_flat_text(value: JsonValue, name: Seq<char>)
    ensures
        match value {
            JsonValue::String(text) => hash_field(value) == Some(text@) && member(value, name)
                is None,
            JsonValue::Number(number) => hash_field(value) == Some(number.text@) && member(
                value,
                name,
            ) is None,
            JsonValue::Bool(b) => hash_field(value) == Some(
                if b {
                    seq!['1']
                } else {
                    seq!['0']
                },
            ) && member(value, name) is None,
            JsonValue::Object(members) => hash_field(value) is None && member(value, name)
                == first_member(members@, name),
            JsonValue::Array(_) => hash_field(value) is None && member(value, name) is None,
            JsonValue::Null => hash_field(value) is None && member(value, name) is None,
        },
{
    reveal_strlit("1");
    reveal_strlit("0");
    assert("1"@ =~= seq!['1']);
    assert("0"@ =~= seq!['0']);
}

/// A byte string that is UTF-8 has the text it encodes.
pub proof fn utf8_is_decoded(bytes: Seq<u8>)
    ensures
        text_of(bytes) == if valid_utf8(bytes) {
            decode_utf8(bytes)
        } else {
            utf8_lossy(bytes)
        },
{
}

/// The text and the token of each scalar reply, and which replies have none.
pub proof fn scalars_are_texts(value: Reply)
    ensures
        match value {
            Reply::BulkString { bytes, number: _ } => string_of(value) == Some(text_of(bytes@))
                && tokens(value) == seq![text_of(bytes@)],
            Reply::SimpleString { text, number: _ } => string_of(value) == Some(text@) && tokens(
                value,
            ) == seq![text@],
            Reply::VerbatimString { text, number: _ } => string_of(value) == Some(text@) && tokens(
                value,
            ) == seq![text@],
            Reply::Int(i) => string_of(value) is None && tokens(value) == seq![decimal(i as int)],
            Reply::Double { bits: _, text } => string_of(value) is None && tokens(value)
                == seq![text@],
            Reply::Array(items) => string_of(value) is None && tokens(value) == tokens_of_items(
                items@,
            ),
            Reply::Members(items) => string_of(value) is None && tokens(value) == tokens_of_items(
                items@,
            ),
            Reply::Pairs(pairs) => string_of(value) is None && tokens(value) == tokens_of_pairs(
                pairs@,
            ),
            Reply::Other(_) => string_of(value) is None && tokens(value).len() == 0,
        },
{
}

/// Tokens come in order: those of two lists, one after the other, are those of the
/// first and then those of the second; those of one reply are its own.
pub proof fn tokens_come_in_order(left: Seq<Reply>, right: Seq<Reply>, one: Reply)
    ensures
        tokens_of_items(left + right) == tokens_of_items(left) + tokens_of_items(right),
        tokens_of_items(seq![one]) == tokens(one),
    decreases right.len(),
{
    assert(tokens_of_items(seq![one].drop_last()) =~= seq![]);
    assert(tokens_of_items(seq![one]) =~= tokens(one));
    if right.len() == 0 {
        assert(left + right =~= left);
        assert(tokens_of_items(left) + tokens_of_items(right) =~= tokens_of_items(left));
    } else {
        tokens_come_in_order(left, right.drop_last(), one);
        assert((left + right).drop_last() =~= left + right.drop_last());
        assert(tokens_of_items(left + right) =~= tokens_of_items(left) + tokens_of_items(right));
    }
}

/// So do the tokens of maps, each name before its value.
pub proof fn pair_tokens_come_in_order(
    left: Seq<(Reply, Reply)>,
    right: Seq<(Reply, Reply)>,
    name: Reply,
    value: Reply,
)
    ensures
        tokens_of_pairs(left + right) == tokens_of_pairs(left) + tokens_of_pairs(right),
        tokens_of_pairs(seq![(name, value)]) == tokens(name) + tokens(value),
    decreases right.len(),
{
    assert(tokens_of_pairs(seq![(name, value)].drop_last()) =~= seq![]);
    assert(tokens_of_pairs(seq![(name, value)]) =~= tokens(name) + tokens(value));
    if right.len() == 0 {
        assert(left + right =~= left);
        assert(tokens_of_pairs(left) + tokens_of_pairs(right) =~= tokens_of_pairs(left));
    } else {
        pair_tokens_come_in_order(left, right.drop_last(), name, value);
        assert((left + right).drop_last() =~= left + right.drop_last());
        assert(tokens_of_pairs(left + right) =~= tokens_of_pairs(left) + tokens_of_pairs(right));
    }
}

/// Texts are seen, and encoded, one by one and in their places.
pub proof fn texts_keep_their_places(strings: Seq<String>, words: Seq<Seq<char>>, i: int)
    ensures
        texts(strings).len() == strings.len(),
        0 <= i < strings.len() ==> texts(strings)[i] == strings[i]@,
        encoded(words).len() == words.len(),
        0 <= i < words.len() ==> encoded(words)[i] == vstd::utf8::encode_utf8(words[i]),
{
}

/// An optional text is seen as it is.
pub proof fn optional_texts_are_seen(text: Option<String>)
    ensures
        text matches Some(text) ==> opt_text(Some(text)) == Some(text@),
        text is None ==> opt_text(text) is None,
{
}

} // verus!
