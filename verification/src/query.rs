//! Reading queries: how brackets, quotes and escapes are matched, and what a
//! clause on a field says.
//!
//! The laws here state what the typed constructors of
//! [`Filter`](crate::filter::Filter) promise: whatever field names and values
//! they are given, the query stays within its own brackets and quotes, and
//! names and values can be read back from it.

use vstd::prelude::*;

use crate::escape::{
    escape, escape_char, escape_first, escape_is_undone, is_special, unescape, Place,
};
use crate::filter::{
    above_number, at_or_above, at_or_below, below_number, both, clause,
    core_outcome, either, eq_outcome, equal_to, gt_outcome, gte_outcome, is_digits, is_numeral,
    is_unsigned, lt_outcome, lte_outcome, negated, range_outcome, splits_at, tag_list, tagged,
    value_outcome, CoreFilter, ValueView,
};

use crate::store::{knn_query, StoreView};
use crate::text::{decimal, decimal_nat, digit_char};

verus! {

/// How far a query has been read: how many parentheses are open; which bracket
/// or quote ends the range, the tags or the phrase that is being read, if one
/// is; and whether a backslash has just been read.
pub struct Position {
    pub depth: nat,
    pub until: Option<char>,
    pub escaped: bool,
}

/// Outside of ranges, tags and phrases, with `depth` parentheses open.
pub open spec fn outside(depth: nat) -> Position {
    Position { depth, until: None, escaped: false }
}

/// Inside of a range, of tags or of a phrase that ends with `close`.
pub open spec fn inside(depth: nat, close: char) -> Position {
    Position { depth, until: Some(close), escaped: false }
}

/// Reads one more character. Nothing is given back where a bracket closes what
/// was not opened.
pub open spec fn step(position: Position, c: char) -> Option<Position> {
    if position.escaped {
        Some(Position { escaped: false, ..position })
    } else if c == '\\' {
        Some(Position { escaped: true, ..position })
    } else {
        match position.until {
            Some(close) => Some(
                if c == close {
                    outside(position.depth)
                } else {
                    position
                },
            ),
            None => if c == '(' {
                Some(outside(position.depth + 1))
            } else if c == ')' {
                if position.depth == 0 {
                    None
                } else {
                    Some(outside((position.depth - 1) as nat))
                }
            } else if c == '[' {
                Some(inside(position.depth, ']'))
            } else if c == '{' {
                Some(inside(position.depth, '}'))
            } else if c == '"' {
                Some(inside(position.depth, '"'))
            } else if c == ']' || c == '}' {
                None
            } else {
                Some(position)
            },
        }
    }
}

/// Reads a text.
pub open spec fn scan(position: Position, text: Seq<char>) -> Option<Position>
    decreases text.len(),
{
    if text.len() == 0 {
        Some(position)
    } else {
        match scan(position, text.drop_last()) {
            Some(position) => step(position, text.last()),
            None => None,
        }
    }
}

/// Whether a query stays within its own brackets and quotes: read at any depth
/// of parentheses, it ends at the same depth, and on the way it closes nothing
/// that it did not open.
pub open spec fn is_contained(query: Seq<char>) -> bool {
    forall|depth: nat| #[trigger] scan(outside(depth), query) == Some(outside(depth))
}

/// Reading a text and then another is reading both.
proof fn scan_concat(position: Position, left: Seq<char>, right: Seq<char>)
    ensures
        scan(position, left + right) == match scan(position, left) {
            Some(middle) => scan(middle, right),
            None => None,
        },
    decreases right.len(),
{
    if right.len() == 0 {
        assert(left + right =~= left);
    } else {
        scan_concat(position, left, right.drop_last());
        assert((left + right).drop_last() =~= left + right.drop_last());
    }
}

/// Reading one character.
proof fn scan_one(position: Position, c: char)
    ensures
        scan(position, seq![c]) == step(position, c),
{
    assert(scan(position, seq![c].drop_last()) == Some(position));
}

/// A position that a text without brackets, quotes and backslashes leaves as
/// it is.
proof fn scan_plain(position: Position, text: Seq<char>)
    requires
        !position.escaped,
        forall|i: int| 0 <= i < text.len() ==> step(position, #[trigger] text[i]) == Some(position),
    ensures
        scan(position, text) == Some(position),
    decreases text.len(),
{
    if text.len() > 0 {
        let init = text.drop_last();
        assert forall|i: int| 0 <= i < init.len() implies step(position, #[trigger] init[i]) == Some(
            position,
        ) by {
            assert(init[i] == text[i]);
        }
        scan_plain(position, init);
        assert(step(position, text[text.len() - 1]) == Some(position));
    }
}

/// Whether every character that moves a reader from `position` is escaped in
/// `place`.
pub open spec fn is_shielded(place: Place, position: Position) -> bool {
    !position.escaped && forall|c: char|
        !is_special(place, c) ==> #[trigger] step(position, c) == Some(position)
}

/// A reader passes over an escaped text.
proof fn scan_escaped(position: Position, place: Place, text: Seq<char>)
    requires
        is_shielded(place, position),
        is_special(place, '\\'),
    ensures
        scan(position, escape(place, text)) == Some(position),
    decreases text.len(),
{
    if text.len() > 0 {
        let c = text.last();
        scan_escaped(position, place, text.drop_last());
        scan_concat(position, escape(place, text.drop_last()), escape_char(place, c));
        if is_special(place, c) {
            let middle = Position { escaped: true, ..position };
            assert(seq!['\\', c] =~= seq!['\\'] + seq![c]);
            scan_concat(position, seq!['\\'], seq![c]);
            scan_one(position, '\\');
            scan_one(middle, c);
        } else {
            scan_one(position, c);
        }
    }
}

/// A reader passes over the start of a clause: `@` and an escaped name.
proof fn scan_name(depth: nat, key: Seq<char>)
    ensures
        scan(outside(depth), "@"@ + escape(Place::Field, key)) == Some(outside(depth)),
{
    reveal_strlit("@");
    assert("@"@ =~= seq!['@']);
    scan_one(outside(depth), '@');
    scan_escaped(outside(depth), Place::Field, key);
    scan_concat(outside(depth), "@"@, escape(Place::Field, key));
}

/// A clause is contained if its brackets are, whatever its field is called.
proof fn clause_is_contained(key: Seq<char>, open: Seq<char>, body: Seq<char>, close: Seq<char>)
    requires
        is_contained(open + body + close),
    ensures
        is_contained(clause(key, open, body, close)),
{
    assert forall|depth: nat| #[trigger]
        scan(outside(depth), clause(key, open, body, close)) == Some(outside(depth)) by {
        let name = "@"@ + escape(Place::Field, key);
        scan_name(depth, key);
        scan_concat(outside(depth), name, open + body + close);
        assert(clause(key, open, body, close) =~= name + (open + body + close));
        assert(scan(outside(depth), open + body + close) == Some(outside(depth)));
    }
}

/// Whether a text says nothing to a reader of ranges: it holds neither a closing
/// bracket nor a backslash.
pub open spec fn is_range_text(text: Seq<char>) -> bool {
    forall|i: int| 0 <= i < text.len() ==> #[trigger] text[i] != ']' && text[i] != '\\'
}

/// A range clause is contained.
proof fn range_is_contained(key: Seq<char>, open: Seq<char>, body: Seq<char>, close: Seq<char>)
    requires
        open.len() >= 2,
        open[0] == ':',
        open[1] == '[',
        is_range_text(open.skip(2)),
        is_range_text(body),
        close.len() >= 1,
        close.last() == ']',
        is_range_text(close.drop_last()),
    ensures
        is_contained(clause(key, open, body, close)),
{
    let range = open.skip(2) + body + close.drop_last();
    let whole = open + body + close;
    assert(whole =~= seq![':'] + (seq!['['] + (range + seq![']'])));
    assert forall|depth: nat| #[trigger] scan(outside(depth), whole) == Some(outside(depth)) by {
        scan_one(outside(depth), ':');
        scan_concat(outside(depth), seq![':'], seq!['['] + (range + seq![']']));
        scan_one(outside(depth), '[');
        scan_concat(outside(depth), seq!['['], range + seq![']']);
        scan_plain(inside(depth, ']'), range);
        scan_concat(inside(depth, ']'), range, seq![']']);
        scan_one(inside(depth, ']'), ']');
    }
    clause_is_contained(key, open, body, close);
}

/// A clause whose brackets hold what a reader passes over is contained.
proof fn enclosed_is_contained(key: Seq<char>, open: char, body: Seq<char>, close: char)
    requires
        forall|depth: nat|
            #![trigger step(outside(depth), open)]
            match step(outside(depth), open) {
                Some(middle) => scan(middle, body) == Some(middle) && step(middle, close) == Some(
                    outside(depth),
                ),
                None => false,
            },
    ensures
        is_contained(clause(key, seq![':', open], body, seq![close])),
{
    let whole = seq![':', open] + body + seq![close];
    assert(whole =~= seq![':'] + (seq![open] + (body + seq![close])));
    assert forall|depth: nat| #[trigger] scan(outside(depth), whole) == Some(outside(depth)) by {
        let middle = step(outside(depth), open).unwrap();
        scan_one(outside(depth), ':');
        scan_concat(outside(depth), seq![':'], seq![open] + (body + seq![close]));
        scan_one(outside(depth), open);
        scan_concat(outside(depth), seq![open], body + seq![close]);
        scan_concat(middle, body, seq![close]);
        scan_one(middle, close);
    }
    clause_is_contained(key, seq![':', open], body, seq![close]);
}

/// A numeral holds digits, points and minus signs alone.
proof fn numeral_chars(text: Seq<char>)
    requires
        is_numeral(text),
    ensures
        forall|i: int|
            0 <= i < text.len() ==> '0' <= #[trigger] text[i] <= '9' || text[i] == '-' || text[i]
                == '.',
{
    let unsigned = if is_unsigned(text) { text } else { text.skip(1) };
    assert(is_unsigned(unsigned));
    assert forall|i: int| 0 <= i < unsigned.len() implies '0' <= #[trigger] unsigned[i] <= '9'
        || unsigned[i] == '.' by {
        if !is_digits(unsigned) {
            let point = choose|point: int| splits_at(unsigned, point);
            if i < point {
                assert(unsigned.take(point)[i] == unsigned[i]);
            } else if i > point {
                assert(unsigned.skip(point + 1)[i - point - 1] == unsigned[i]);
            }
        }
    }
    assert forall|i: int| 0 <= i < text.len() implies '0' <= #[trigger] text[i] <= '9' || text[i]
        == '-' || text[i] == '.' by {
        if is_unsigned(text) {
            assert(unsigned[i] == text[i]);
        } else if i > 0 {
            assert(unsigned[i - 1] == text[i]);
        }
    }
}

/// A clause on one number is contained.
proof fn number_clauses_are_contained(key: Seq<char>, number: Seq<char>)
    requires
        is_numeral(number),
    ensures
        is_contained(equal_to(key, number)),
        is_contained(at_or_above(key, number)),
        is_contained(above_number(key, number)),
        is_contained(at_or_below(key, number)),
        is_contained(below_number(key, number)),
{
    numeral_chars(number);
    reveal_strlit(":[");
    reveal_strlit(":[(");
    reveal_strlit(":[-inf ");
    reveal_strlit(":[-inf (");
    reveal_strlit("]");
    reveal_strlit(" +inf]");
    reveal_strlit(" ");
    range_is_contained(key, ":["@, number + " "@ + number, "]"@);
    range_is_contained(key, ":["@, number, " +inf]"@);
    range_is_contained(key, ":[("@, number, " +inf]"@);
    range_is_contained(key, ":[-inf "@, number, "]"@);
    range_is_contained(key, ":[-inf ("@, number, "]"@);
}

/// Escaped tags are passed over by a reader of tags.
proof fn scan_tag_list(depth: nat, values: Seq<Seq<char>>)
    ensures
        scan(inside(depth, '}'), tag_list(values)) == Some(inside(depth, '}')),
    decreases values.len(),
{
    let position = inside(depth, '}');
    if values.len() == 1 {
        scan_escaped(position, Place::Tag, values[0]);
    } else if values.len() > 1 {
        reveal_strlit(" | ");
        scan_tag_list(depth, values.drop_last());
        scan_plain(position, " | "@);
        scan_escaped(position, Place::Tag, values.last());
        scan_concat(position, tag_list(values.drop_last()), " | "@);
        scan_concat(
            position,
            tag_list(values.drop_last()) + " | "@,
            escape(Place::Tag, values.last()),
        );
    }
}

/// What a reader of tags passes over makes a contained tag clause.
proof fn tagged_is_contained(key: Seq<char>, tags: Seq<char>)
    requires
        forall|depth: nat| #[trigger]
            scan(inside(depth, '}'), tags) == Some(inside(depth, '}')),
    ensures
        is_contained(tagged(key, tags)),
{
    reveal_strlit(":{");
    reveal_strlit("}");
    assert(":{"@ =~= seq![':', '{']);
    assert("}"@ =~= seq!['}']);
    assert forall|depth: nat|
        #![trigger step(outside(depth), '{')]
        match step(outside(depth), '{') {
            Some(middle) => scan(middle, tags) == Some(middle) && step(middle, '}') == Some(
                outside(depth),
            ),
            None => false,
        } by {
        assert(scan(inside(depth, '}'), tags) == Some(inside(depth, '}')));
    }
    enclosed_is_contained(key, '{', tags, '}');
}

/// The queries of all typed constructors that take a value stay within their
/// own brackets, whatever the field is called and whatever the value holds.
pub proof fn typed_filters_are_contained(key: Seq<char>, value: ValueView)
    ensures
        eq_outcome(key, value) matches Ok(query) ==> is_contained(query),
        gt_outcome(key, value) matches Ok(query) ==> is_contained(query),
        lt_outcome(key, value) matches Ok(query) ==> is_contained(query),
        gte_outcome(key, value) matches Ok(query) ==> is_contained(query),
        lte_outcome(key, value) matches Ok(query) ==> is_contained(query),
{
    match value {
        ValueView::Number(number) => {
            if is_numeral(number) {
                number_clauses_are_contained(key, number);
            }
        },
        ValueView::String(text) => {
            assert forall|depth: nat| #[trigger]
                scan(inside(depth, '}'), escape(Place::Tag, text)) == Some(inside(depth, '}')) by {
                scan_escaped(inside(depth, '}'), Place::Tag, text);
            }
            tagged_is_contained(key, escape(Place::Tag, text));
        },
        ValueView::Bool(b) => {
            let tag = if b { "1"@ } else { "0"@ };
            reveal_strlit("1");
            reveal_strlit("0");
            assert forall|depth: nat| #[trigger]
                scan(inside(depth, '}'), tag) == Some(inside(depth, '}')) by {
                scan_plain(inside(depth, '}'), tag);
            }
            tagged_is_contained(key, tag);
        },
    }
}

/// Range filters with two bounds stay within their own brackets.
pub proof fn ranges_are_contained(key: Seq<char>, min: Seq<char>, max: Seq<char>)
    ensures
        range_outcome(key, ":["@, min, " "@, max) matches Ok(query) ==> is_contained(query),
        range_outcome(key, ":[("@, min, " ("@, max) matches Ok(query) ==> is_contained(query),
{
    if is_numeral(min) && is_numeral(max) {
        numeral_chars(min);
        numeral_chars(max);
        reveal_strlit(":[");
        reveal_strlit(":[(");
        reveal_strlit(" ");
        reveal_strlit(" (");
        reveal_strlit("]");
        range_is_contained(key, ":["@, min + " "@ + max, "]"@);
        range_is_contained(key, ":[("@, min + " ("@ + max, "]"@);
    }
}

/// A filter on several tags stays within its own brackets.
pub proof fn tag_lists_are_contained(key: Seq<char>, values: Seq<Seq<char>>)
    ensures
        is_contained(tagged(key, tag_list(values))),
{
    assert forall|depth: nat| #[trigger]
        scan(inside(depth, '}'), tag_list(values)) == Some(inside(depth, '}')) by {
        scan_tag_list(depth, values);
    }
    tagged_is_contained(key, tag_list(values));
}

/// Full-text filters stay within their own parentheses and quotes.
pub proof fn text_filters_are_contained(key: Seq<char>, text: Seq<char>)
    ensures
        is_contained(clause(key, ":("@, escape(Place::Words, text), ")"@)),
        is_contained(clause(key, ":\""@, escape(Place::Words, text), "\""@)),
{
    reveal_strlit(":(");
    reveal_strlit(")");
    reveal_strlit(":\"");
    reveal_strlit("\"");
    assert(":("@ =~= seq![':', '(']);
    assert(")"@ =~= seq![')']);
    assert(":\""@ =~= seq![':', '"']);
    assert("\""@ =~= seq!['"']);
    let words = escape(Place::Words, text);
    assert forall|depth: nat|
        #![trigger step(outside(depth), '(')]
        match step(outside(depth), '(') {
            Some(middle) => scan(middle, words) == Some(middle) && step(middle, ')') == Some(
                outside(depth),
            ),
            None => false,
        } by {
        scan_escaped(outside(depth + 1), Place::Words, text);
    }
    enclosed_is_contained(key, '(', words, ')');
    assert forall|depth: nat|
        #![trigger step(outside(depth), '"')]
        match step(outside(depth), '"') {
            Some(middle) => scan(middle, words) == Some(middle) && step(middle, '"') == Some(
                outside(depth),
            ),
            None => false,
        } by {
        scan_escaped(inside(depth, '"'), Place::Words, text);
    }
    enclosed_is_contained(key, '"', words, '"');
}

/// Negating a filter and joining two keeps them within their own brackets.
pub proof fn combinations_are_contained(left: Seq<char>, right: Seq<char>)
    requires
        is_contained(left),
        is_contained(right),
    ensures
        is_contained(negated(left)),
        is_contained(both(left, right)),
        is_contained(either(left, right)),
{
    reveal_strlit("-");
    reveal_strlit("(");
    reveal_strlit(" ");
    reveal_strlit(" | ");
    reveal_strlit(")");
    assert("-"@ =~= seq!['-']);
    assert("("@ =~= seq!['(']);
    assert(")"@ =~= seq![')']);
    assert forall|depth: nat| #[trigger]
        scan(outside(depth), negated(left)) == Some(outside(depth)) by {
        scan_one(outside(depth), '-');
        scan_concat(outside(depth), "-"@, left);
        assert(scan(outside(depth), left) == Some(outside(depth)));
    }
    joined_is_contained(left, " "@, right);
    joined_is_contained(left, " | "@, right);
}

/// Two contained queries in parentheses, with a plain text between them.
proof fn joined_is_contained(left: Seq<char>, between: Seq<char>, right: Seq<char>)
    requires
        is_contained(left),
        is_contained(right),
        forall|i: int| 0 <= i < between.len() ==> #[trigger] between[i] == ' ' || between[i] == '|',
    ensures
        is_contained("("@ + left + between + right + ")"@),
{
    reveal_strlit("(");
    reveal_strlit(")");
    assert("("@ =~= seq!['(']);
    assert(")"@ =~= seq![')']);
    let whole = "("@ + left + between + right + ")"@;
    assert forall|depth: nat| #[trigger] scan(outside(depth), whole) == Some(outside(depth)) by {
        let deeper = outside(depth + 1);
        scan_one(outside(depth), '(');
        scan_concat(outside(depth), "("@, left);
        assert(scan(deeper, left) == Some(deeper));
        scan_plain(deeper, between);
        scan_concat(outside(depth), "("@ + left, between);
        assert(scan(deeper, right) == Some(deeper));
        scan_concat(outside(depth), "("@ + left + between, right);
        scan_one(deeper, ')');
        scan_concat(outside(depth), "("@ + left + between + right, ")"@);
    }
}

/// The query of a store-neutral filter stays within its own brackets.
pub proof fn core_filters_are_contained(filter: CoreFilter)
    ensures
        core_outcome(filter) matches Ok(query) ==> is_contained(query),
    decreases filter,
{
    match filter {
        CoreFilter::Eq(key, json) => {
            if let Ok(value) = value_outcome(json) {
                typed_filters_are_contained(key@, value);
            }
        },
        CoreFilter::Gt(key, json) => {
            if let Ok(value) = value_outcome(json) {
                typed_filters_are_contained(key@, value);
            }
        },
        CoreFilter::Lt(key, json) => {
            if let Ok(value) = value_outcome(json) {
                typed_filters_are_contained(key@, value);
            }
        },
        CoreFilter::And(left, right) => {
            core_filters_are_contained(*left);
            core_filters_are_contained(*right);
            if let (Ok(left), Ok(right)) = (core_outcome(*left), core_outcome(*right)) {
                combinations_are_contained(left, right);
            }
        },
        CoreFilter::Or(left, right) => {
            core_filters_are_contained(*left);
            core_filters_are_contained(*right);
            if let (Ok(left), Ok(right)) = (core_outcome(*left), core_outcome(*right)) {
                combinations_are_contained(left, right);
            }
        },
    }
}

/// A decimal numeral of a natural number holds digits alone.
proof fn decimal_chars(n: nat)
    ensures
        forall|i: int|
            0 <= i < decimal_nat(n).len() ==> '0' <= #[trigger] decimal_nat(n)[i] <= '9',
    decreases n,
{
    let last = digit_char(n % 10);
    assert('0' <= last <= '9');
    if n >= 10 {
        decimal_chars(n / 10);
        assert(decimal_nat(n) == decimal_nat(n / 10).push(last));
    } else {
        assert(decimal_nat(n) == seq![last]);
    }
}

/// The query of a search stays within its own brackets if its filter does. The
/// name of the vector field is not escaped there, so it may hold neither a
/// closing bracket nor a backslash.
pub proof fn searches_are_contained(store: StoreView, filter: Option<Seq<char>>, samples: nat)
    requires
        is_range_text(store.vector_field),
        filter matches Some(filter) ==> is_contained(filter),
    ensures
        is_contained(knn_query(store, filter, samples)),
{
    reveal_strlit("*");
    reveal_strlit("=>[KNN ");
    reveal_strlit(" @");
    reveal_strlit(" $vec AS __vector_score]");
    decimal_chars(samples);
    let matched = match filter {
        Some(filter) => filter,
        None => "*"@,
    };
    let tail = " $vec AS __vector_score]"@;
    let range = "=>[KNN "@.skip(3) + decimal(samples as int) + " @"@ + store.vector_field
        + tail.drop_last();
    let query = knn_query(store, filter, samples);
    assert(query =~= matched + (seq!['=', '>'] + (seq!['['] + (range + seq![']']))));
    assert forall|depth: nat| #[trigger] scan(outside(depth), query) == Some(outside(depth)) by {
        if filter is None {
            scan_plain(outside(depth), "*"@);
        }
        assert(scan(outside(depth), matched) == Some(outside(depth)));
        scan_concat(outside(depth), matched, seq!['=', '>'] + (seq!['['] + (range + seq![']'])));
        scan_plain(outside(depth), seq!['=', '>']);
        scan_concat(outside(depth), seq!['=', '>'], seq!['['] + (range + seq![']']));
        scan_one(outside(depth), '[');
        scan_concat(outside(depth), seq!['['], range + seq![']']);
        scan_plain(inside(depth, ']'), range);
        scan_concat(inside(depth, ']'), range, seq![']']);
        scan_one(inside(depth, ']'), ']');
    }
}

/// The texts before and after the first `mark` that is not escaped.
pub open spec fn split_at_mark(text: Seq<char>, mark: char) -> Option<(Seq<char>, Seq<char>)>
    decreases text.len(),
{
    if text.len() == 0 {
        None
    } else if text[0] == '\\' && text.len() >= 2 {
        match split_at_mark(text.skip(2), mark) {
            Some((before, after)) => Some((text.take(2) + before, after)),
            None => None,
        }
    } else if text[0] == mark {
        Some((seq![], text.skip(1)))
    } else {
        match split_at_mark(text.skip(1), mark) {
            Some((before, after)) => Some((text.take(1) + before, after)),
            None => None,
        }
    }
}

/// What a clause says: the field, the bracket or quote that opens what is asked
/// of it, and what is written between that and the last character.
pub open spec fn read_clause(query: Seq<char>) -> Option<(Seq<char>, char, Seq<char>)> {
    if query.len() == 0 || query[0] != '@' {
        None
    } else {
        match split_at_mark(query.skip(1), ':') {
            Some((name, rest)) if rest.len() >= 2 => Some(
                (unescape(name), rest[0], rest.subrange(1, rest.len() - 1)),
            ),
            _ => None,
        }
    }
}

/// An escaped text ends at the first mark behind it that is not escaped.
proof fn split_after_escaped(place: Place, text: Seq<char>, mark: char, rest: Seq<char>)
    requires
        is_special(place, mark),
        is_special(place, '\\'),
        mark != '\\',
    ensures
        split_at_mark(escape(place, text) + seq![mark] + rest, mark) == Some(
            (escape(place, text), rest),
        ),
    decreases text.len(),
{
    let whole = escape(place, text) + seq![mark] + rest;
    if text.len() == 0 {
        assert(whole =~= seq![mark] + rest);
        assert(whole.skip(1) =~= rest);
        assert(escape(place, text) =~= seq![]);
    } else {
        escape_first(place, text);
        split_after_escaped(place, text.skip(1), mark, rest);
        let behind = escape(place, text.skip(1)) + seq![mark] + rest;
        assert(whole =~= escape_char(place, text[0]) + behind);
        if is_special(place, text[0]) {
            assert(whole.skip(2) =~= behind);
            assert(whole.take(2) =~= escape_char(place, text[0]));
        } else {
            assert(whole.skip(1) =~= behind);
            assert(whole.take(1) =~= escape_char(place, text[0]));
        }
    }
}

/// A text without backslashes stands for itself.
proof fn unescape_of_plain(text: Seq<char>)
    requires
        forall|i: int| 0 <= i < text.len() ==> #[trigger] text[i] != '\\',
    ensures
        unescape(text) == text,
    decreases text.len(),
{
    if text.len() > 0 {
        assert forall|i: int| 0 <= i < text.skip(1).len() implies #[trigger] text.skip(1)[i]
            != '\\' by {
            assert(text.skip(1)[i] == text[i + 1]);
        }
        unescape_of_plain(text.skip(1));
        assert(text[0] != '\\');
        assert(seq![text[0]] + text.skip(1) =~= text);
    }
}

/// A clause gives back its field, its bracket and what it holds.
proof fn clause_reads_back(
    key: Seq<char>,
    open: Seq<char>,
    body: Seq<char>,
    close: Seq<char>,
    bracket: char,
    between: Seq<char>,
    end: char,
)
    requires
        open + body + close == seq![':', bracket] + between + seq![end],
    ensures
        read_clause(clause(key, open, body, close)) == Some((key, bracket, between)),
{
    reveal_strlit("@");
    let query = clause(key, open, body, close);
    let rest = seq![bracket] + between + seq![end];
    assert(query =~= "@"@ + escape(Place::Field, key) + (open + body + close));
    assert(query.skip(1) =~= escape(Place::Field, key) + seq![':'] + rest);
    split_after_escaped(Place::Field, key, ':', rest);
    escape_is_undone(Place::Field, key);
    assert(rest.subrange(1, rest.len() - 1) =~= between);
}

/// Whether a query is a clause on a field whose brackets hold a text.
pub open spec fn says(query: Seq<char>, key: Seq<char>, bracket: char, text: Seq<char>) -> bool {
    match read_clause(query) {
        Some((name, opened, written)) => name == key && opened == bracket && unescape(written)
            == text,
        None => false,
    }
}

/// What an equality filter holds between its brackets.
pub open spec fn equality_body(value: ValueView) -> (char, Seq<char>) {
    match value {
        ValueView::Number(text) => ('[', text + seq![' '] + text),
        ValueView::String(text) => ('{', text),
        ValueView::Bool(true) => ('{', seq!['1']),
        ValueView::Bool(false) => ('{', seq!['0']),
    }
}

/// An equality filter gives back its field and its value, whatever they hold.
/// So filters on different fields, or for different values of one kind, are
/// never the same query.
pub proof fn equality_reads_back(key: Seq<char>, value: ValueView)
    ensures
        eq_outcome(key, value) matches Ok(query) ==> says(
            query,
            key,
            equality_body(value).0,
            equality_body(value).1,
        ),
{
    reveal_strlit(":[");
    reveal_strlit(" ");
    reveal_strlit("]");
    reveal_strlit(":{");
    reveal_strlit("}");
    reveal_strlit("1");
    reveal_strlit("0");
    match value {
        ValueView::Number(number) => {
            if is_numeral(number) {
                numeral_chars(number);
                let body = number + " "@ + number;
                assert(":["@ + body + "]"@ =~= seq![':', '['] + body + seq![']']);
                clause_reads_back(key, ":["@, body, "]"@, '[', body, ']');
                unescape_of_plain(body);
                assert(" "@ =~= seq![' ']);
            }
        },
        ValueView::String(text) => {
            let body = escape(Place::Tag, text);
            assert(":{"@ + body + "}"@ =~= seq![':', '{'] + body + seq!['}']);
            clause_reads_back(key, ":{"@, body, "}"@, '{', body, '}');
            escape_is_undone(Place::Tag, text);
        },
        ValueView::Bool(b) => {
            let body = if b { "1"@ } else { "0"@ };
            assert(":{"@ + body + "}"@ =~= seq![':', '{'] + body + seq!['}']);
            clause_reads_back(key, ":{"@, body, "}"@, '{', body, '}');
            unescape_of_plain(body);
            assert(body =~= equality_body(value).1);
        },
    }
}

/// A filter with one bound gives back its field and its bound.
pub proof fn bounds_read_back(key: Seq<char>, value: ValueView)
    ensures
        gt_outcome(key, value) matches Ok(query) ==> value matches ValueView::Number(number) && says(
            query,
            key,
            '[',
            seq!['('] + number + " +inf"@,
        ),
        gte_outcome(key, value) matches Ok(query) ==> value matches ValueView::Number(number)
            && says(query, key, '[', number + " +inf"@),
        lt_outcome(key, value) matches Ok(query) ==> value matches ValueView::Number(number) && says(
            query,
            key,
            '[',
            "-inf ("@ + number,
        ),
        lte_outcome(key, value) matches Ok(query) ==> value matches ValueView::Number(number)
            && says(query, key, '[', "-inf "@ + number),
{
    if let ValueView::Number(number) = value {
        if is_numeral(number) {
            numeral_chars(number);
            reveal_strlit(":[");
            reveal_strlit(":[(");
            reveal_strlit(":[-inf ");
            reveal_strlit(":[-inf (");
            reveal_strlit("]");
            reveal_strlit(" +inf]");
            reveal_strlit(" +inf");
            reveal_strlit("-inf ");
            reveal_strlit("-inf (");
            bound_reads_back(key, ":[("@, number, " +inf]"@, seq!['('] + number + " +inf"@);
            bound_reads_back(key, ":["@, number, " +inf]"@, number + " +inf"@);
            bound_reads_back(key, ":[-inf ("@, number, "]"@, "-inf ("@ + number);
            bound_reads_back(key, ":[-inf "@, number, "]"@, "-inf "@ + number);
        }
    }
}

/// A filter with two bounds gives back its field and its bounds.
pub proof fn ranges_read_back(key: Seq<char>, min: Seq<char>, max: Seq<char>)
    ensures
        range_outcome(key, ":["@, min, " "@, max) matches Ok(query) ==> says(
            query,
            key,
            '[',
            min + " "@ + max,
        ),
        range_outcome(key, ":[("@, min, " ("@, max) matches Ok(query) ==> says(
            query,
            key,
            '[',
            seq!['('] + min + " ("@ + max,
        ),
{
    if is_numeral(min) && is_numeral(max) {
        numeral_chars(min);
        numeral_chars(max);
        reveal_strlit(":[");
        reveal_strlit(":[(");
        reveal_strlit(" ");
        reveal_strlit(" (");
        reveal_strlit("]");
        bound_reads_back(key, ":["@, min + " "@ + max, "]"@, min + " "@ + max);
        bound_reads_back(
            key,
            ":[("@,
            min + " ("@ + max,
            "]"@,
            seq!['('] + min + " ("@ + max,
        );
    }
}

/// Whether a value is a finite number.
pub open spec fn is_finite_number(value: ValueView) -> bool {
    match value {
        ValueView::Number(text) => is_numeral(text),
        _ => false,
    }
}

/// Only a finite number is a bound: strings, booleans and numbers that are not
/// finite are refused. An equality refuses the latter alone.
pub proof fn bounds_are_finite_numbers(key: Seq<char>, value: ValueView)
    ensures
        gt_outcome(key, value) is Ok <==> is_finite_number(value),
        lt_outcome(key, value) is Ok <==> is_finite_number(value),
        gte_outcome(key, value) is Ok <==> is_finite_number(value),
        lte_outcome(key, value) is Ok <==> is_finite_number(value),
        eq_outcome(key, value) is Err <==> value is Number && !is_finite_number(value),
{
}

/// A range clause gives back its field and what its brackets hold.
proof fn bound_reads_back(
    key: Seq<char>,
    open: Seq<char>,
    body: Seq<char>,
    close: Seq<char>,
    between: Seq<char>,
)
    requires
        open + body + close =~= seq![':', '['] + between + seq![']'],
        forall|i: int| 0 <= i < between.len() ==> #[trigger] between[i] != '\\',
    ensures
        says(clause(key, open, body, close), key, '[', between),
{
    clause_reads_back(key, open, body, close, '[', between, ']');
    unescape_of_plain(between);
}

/// A full-text filter gives back its field and its words.
pub proof fn text_reads_back(key: Seq<char>, text: Seq<char>)
    ensures
        says(clause(key, ":("@, escape(Place::Words, text), ")"@), key, '(', text),
        says(clause(key, ":\""@, escape(Place::Words, text), "\""@), key, '"', text),
{
    reveal_strlit(":(");
    reveal_strlit(")");
    reveal_strlit(":\"");
    reveal_strlit("\"");
    let body = escape(Place::Words, text);
    escape_is_undone(Place::Words, text);
    assert(":("@ + body + ")"@ =~= seq![':', '('] + body + seq![')']);
    clause_reads_back(key, ":("@, body, ")"@, '(', body, ')');
    assert(":\""@ + body + "\""@ =~= seq![':', '"'] + body + seq!['"']);
    clause_reads_back(key, ":\""@, body, "\""@, '"', body, '"');
}

/// The tags of a list: ends at spaces that are not escaped, which `| ` follows.
pub open spec fn read_tags(text: Seq<char>) -> Seq<Seq<char>>
    decreases text.len(),
{
    match split_at_mark(text, ' ') {
        Some((tag, rest)) if 2 <= rest.len() < text.len() => seq![unescape(tag)] + read_tags(
            rest.skip(2),
        ),
        _ => seq![unescape(text)],
    }
}

/// A list of tags starts with its first tag.
proof fn tag_list_first(values: Seq<Seq<char>>)
    requires
        values.len() >= 2,
    ensures
        tag_list(values) == escape(Place::Tag, values[0]) + " | "@ + tag_list(values.skip(1)),
    decreases values.len(),
{
    if values.len() == 2 {
        assert(tag_list(values.drop_last()) == escape(Place::Tag, values[0]));
        assert(tag_list(values.skip(1)) == escape(Place::Tag, values[1]));
    } else {
        tag_list_first(values.drop_last());
        assert(values.drop_last().skip(1) =~= values.skip(1).drop_last());
        assert(values.skip(1).last() == values.last());
        let first = escape(Place::Tag, values[0]) + " | "@;
        assert(tag_list(values) =~= first + tag_list(values.skip(1)));
    }
}

/// An escaped text holds no mark that is not escaped.
proof fn escaped_has_no_mark(place: Place, text: Seq<char>, mark: char)
    requires
        is_special(place, mark),
        is_special(place, '\\'),
    ensures
        split_at_mark(escape(place, text), mark) is None,
    decreases text.len(),
{
    if text.len() > 0 {
        escape_first(place, text);
        escaped_has_no_mark(place, text.skip(1), mark);
        let whole = escape(place, text);
        let behind = escape(place, text.skip(1));
        if is_special(place, text[0]) {
            assert(whole.skip(2) =~= behind);
        } else {
            assert(whole.skip(1) =~= behind);
        }
    }
}

/// A filter on several tags gives back its field and its tags, in order.
pub proof fn tag_lists_read_back(key: Seq<char>, values: Seq<Seq<char>>)
    requires
        values.len() > 0,
    ensures
        read_clause(tagged(key, tag_list(values))) matches Some((name, bracket, written)) && name
            == key && bracket == '{' && read_tags(written) == values,
{
    reveal_strlit(":{");
    reveal_strlit("}");
    let body = tag_list(values);
    assert(":{"@ + body + "}"@ =~= seq![':', '{'] + body + seq!['}']);
    clause_reads_back(key, ":{"@, body, "}"@, '{', body, '}');
    tags_read_back(values);
}

/// The tags of a list, read in order, are those that it was made of.
proof fn tags_read_back(values: Seq<Seq<char>>)
    requires
        values.len() > 0,
    ensures
        read_tags(tag_list(values)) == values,
    decreases values.len(),
{
    let text = tag_list(values);
    if values.len() == 1 {
        escaped_has_no_mark(Place::Tag, values[0], ' ');
        escape_is_undone(Place::Tag, values[0]);
        assert(seq![values[0]] =~= values);
    } else {
        reveal_strlit(" | ");
        let behind = tag_list(values.skip(1));
        let rest = seq!['|', ' '] + behind;
        tag_list_first(values);
        assert(text =~= escape(Place::Tag, values[0]) + seq![' '] + rest);
        split_after_escaped(Place::Tag, values[0], ' ', rest);
        escape_is_undone(Place::Tag, values[0]);
        assert(rest.skip(2) =~= behind);
        tags_read_back(values.skip(1));
        assert(seq![values[0]] + values.skip(1) =~= values);
    }
}

} // verus!
