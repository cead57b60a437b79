//! Escaping of field names, tag values and text for RediSearch queries.
//!
//! An escaped text puts a backslash in front of each character that the query
//! syntax would otherwise read as its own.

use vstd::prelude::*;

use crate::text::chars_of;

verus! {

/// Where in a query a text stands. It decides which characters are special.
#[derive(Clone, Copy)]
pub enum Place {
    /// One dot-separated segment of a field name.
    Segment,
    /// A whole field name. Its dots separate segments and stay as they are.
    Field,
    /// A value inside `{..}`.
    Tag,
    /// Words inside `(..)` or `".."`.
    Words,
}

/// An ASCII letter, an ASCII digit or an underscore.
pub open spec fn is_word(c: char) -> bool {
    'a' <= c <= 'z' || 'A' <= c <= 'Z' || '0' <= c <= '9' || c == '_'
}

/// The characters that are special in the text of a full-text clause.
pub open spec fn is_text_special(c: char) -> bool {
    ||| c == '\\' || c == '<' || c == '>' || c == '{' || c == '}' || c == '[' || c == ']'
    ||| c == '"' || c == '\'' || c == ':' || c == ';' || c == '!' || c == '@' || c == '#'
    ||| c == '$' || c == '%' || c == '^' || c == '&' || c == '*' || c == '(' || c == ')'
    ||| c == '-' || c == '+' || c == '=' || c == '~' || c == '|' || c == '/'
}

/// The characters that are special in `place`.
pub open spec fn is_special(place: Place, c: char) -> bool {
    match place {
        Place::Segment => !is_word(c),
        Place::Field => !is_word(c) && c != '.',
        Place::Tag => is_text_special(c) || c == ' ' || c == ',' || c == '.',
        Place::Words => is_text_special(c),
    }
}

/// One character as it is written in `place`.
pub open spec fn escape_char(place: Place, c: char) -> Seq<char> {
    if is_special(place, c) {
        seq!['\\', c]
    } else {
        seq![c]
    }
}

/// A text as it is written in `place`: each special character after a backslash.
pub open spec fn escape(place: Place, text: Seq<char>) -> Seq<char>
    decreases text.len(),
{
    if text.len() == 0 {
        seq![]
    } else {
        escape(place, text.drop_last()) + escape_char(place, text.last())
    }
}

/// What an escaped text stands for: a backslash gives way to the character
/// behind it.
pub open spec fn unescape(text: Seq<char>) -> Seq<char>
    decreases text.len(),
{
    if text.len() == 0 {
        seq![]
    } else if text[0] == '\\' && text.len() >= 2 {
        seq![text[1]] + unescape(text.skip(2))
    } else {
        seq![text[0]] + unescape(text.skip(1))
    }
}

/// Whether no character that is special in `place` stands in `text` without a
/// backslash that escapes it, and no backslash is left without a character.
pub open spec fn is_protected(place: Place, text: Seq<char>) -> bool
    decreases text.len(),
{
    if text.len() == 0 {
        true
    } else if text[0] == '\\' {
        text.len() >= 2 && is_protected(place, text.skip(2))
    } else {
        !is_special(place, text[0]) && is_protected(place, text.skip(1))
    }
}

/// Escaping goes character by character, so it goes through concatenation.
pub proof fn escape_concat(place: Place, left: Seq<char>, right: Seq<char>)
    ensures
        escape(place, left + right) == escape(place, left) + escape(place, right),
    decreases right.len(),
{
    if right.len() == 0 {
        assert(left + right =~= left);
        assert(escape(place, left) + escape(place, right) =~= escape(place, left));
    } else {
        escape_concat(place, left, right.drop_last());
        assert((left + right).drop_last() =~= left + right.drop_last());
        assert(escape(place, left + right) =~= escape(place, left) + escape(place, right));
    }
}

/// The escaped form of a text starts with that of its first character.
pub proof fn escape_first(place: Place, text: Seq<char>)
    requires
        text.len() > 0,
    ensures
        escape(place, text) == escape_char(place, text[0]) + escape(place, text.skip(1)),
{
    let first = seq![text[0]];
    assert(text =~= first + text.skip(1));
    escape_concat(place, first, text.skip(1));
    assert(escape(place, first.drop_last()) =~= seq![]);
    assert(escape(place, first) =~= escape_char(place, text[0]));
}

/// Escaping loses nothing: reading the escaped text gives the text back. So
/// two different texts never have the same escaped form.
pub proof fn escape_is_undone(place: Place, text: Seq<char>)
    ensures
        unescape(escape(place, text)) == text,
    decreases text.len(),
{
    if text.len() > 0 {
        let escaped = escape(place, text);
        let rest = escape(place, text.skip(1));
        escape_first(place, text);
        escape_is_undone(place, text.skip(1));
        if is_special(place, text[0]) {
            assert(escaped.skip(2) =~= rest);
        } else {
            assert(escaped.skip(1) =~= rest);
        }
        assert(seq![text[0]] + text.skip(1) =~= text);
    }
}

/// An escaped text holds no special character that is not escaped.
pub proof fn escape_protects(place: Place, text: Seq<char>)
    ensures
        is_protected(place, escape(place, text)),
    decreases text.len(),
{
    if text.len() > 0 {
        let escaped = escape(place, text);
        let rest = escape(place, text.skip(1));
        escape_first(place, text);
        escape_protects(place, text.skip(1));
        if is_special(place, text[0]) {
            assert(escaped.skip(2) =~= rest);
        } else {
            assert(escaped.skip(1) =~= rest);
        }
    }
}

/// A text without special characters is its own escaped form.
pub proof fn escape_of_plain(place: Place, text: Seq<char>)
    requires
        forall|i: int| 0 <= i < text.len() ==> !is_special(place, #[trigger] text[i]),
    ensures
        escape(place, text) == text,
    decreases text.len(),
{
    if text.len() > 0 {
        let init = text.drop_last();
        assert forall|i: int| 0 <= i < init.len() implies !is_special(place, #[trigger] init[i]) by {
            assert(init[i] == text[i]);
        }
        escape_of_plain(place, init);
        assert(!is_special(place, text[text.len() - 1]));
        assert(init + seq![text.last()] =~= text);
    }
}

fn is_word_char(c: char) -> (word: bool)
    ensures
        word == is_word(c),
{
    ('a' <= c && c <= 'z') || ('A' <= c && c <= 'Z') || ('0' <= c && c <= '9') || c == '_'
}

fn is_text_special_char(c: char) -> (special: bool)
    ensures
        special == is_text_special(c),
{
    match c {
        '\\' | '<' | '>' | '{' | '}' | '[' | ']' | '"' | '\'' | ':' | ';' | '!' | '@' | '#' | '$'
        | '%' | '^' | '&' | '*' | '(' | ')' | '-' | '+' | '=' | '~' | '|' | '/' => true,
        _ => false,
    }
}

fn needs_escape(place: Place, c: char) -> (special: bool)
    ensures
        special == is_special(place, c),
{
    match place {
        Place::Segment => !is_word_char(c),
        Place::Field => !is_word_char(c) && c != '.',
        Place::Tag => is_text_special_char(c) || c == ' ' || c == ',' || c == '.',
        Place::Words => is_text_special_char(c),
    }
}

fn escape_in(place: Place, text: &str) -> (escaped: String)
    ensures
        escaped@ == escape(place, text@),
{
    let chars = chars_of(text);
    let mut escaped = String::new();
    for i in 0..chars.len()
        invariant
            chars@ == text@,
            escaped@ == escape(place, text@.take(i as int)),
    {
        let c = chars[i];
        let ghost before = escaped@;
        if needs_escape(place, c) {
            escaped.push('\\');
        }
        escaped.push(c);
        proof {
            let shown = text@.take(i + 1);
            assert(shown.drop_last() =~= text@.take(i as int));
            assert(escaped@ =~= before + escape_char(place, c));
        }
    }
    assert(text@.take(text@.len() as int) =~= text@);
    escaped
}

/// Escapes RediSearch tag special characters in `value` by backslash-prefixing them.
///
/// Useful when constructing raw queries with [`crate::filter::Filter::raw`]. The
/// typed constructors apply this automatically.
pub fn escape_tag_value(value: &str) -> (escaped: String)
    ensures
        escaped@ == escape(Place::Tag, value@),
{
    escape_in(Place::Tag, value)
}

/// Escapes RediSearch TEXT query special characters in `value` by backslash-prefixing them.
///
/// Useful when constructing raw queries with [`crate::filter::Filter::raw`]. The
/// typed text constructors apply this automatically.
pub fn escape_text_value(value: &str) -> (escaped: String)
    ensures
        escaped@ == escape(Place::Words, value@),
{
    escape_in(Place::Words, value)
}

/// Escapes one segment of a field name: all but ASCII letters, digits and `_`.
pub fn escape_field_segment(segment: &str) -> (escaped: String)
    ensures
        escaped@ == escape(Place::Segment, segment@),
{
    escape_in(Place::Segment, segment)
}

/// In a text without dots, a whole field name and a single segment are
/// written alike.
proof fn escape_segment_is_field(text: Seq<char>)
    requires
        !text.contains('.'),
    ensures
        escape(Place::Segment, text) == escape(Place::Field, text),
    decreases text.len(),
{
    if text.len() > 0 {
        assert(text[text.len() - 1] != '.');
        assert forall|c: char| text.drop_last().contains(c) implies text.contains(c) by {
            let i = choose|i: int| 0 <= i < text.drop_last().len() && text.drop_last()[i] == c;
            assert(text[i] == c);
        }
        escape_segment_is_field(text.drop_last());
    }
}

/// Writes a field name: each of its dot-separated segments is escaped, and the
/// dots between them stay.
pub fn field_name(key: &str) -> (name: String)
    ensures
        name@ == escape(Place::Field, key@),
{
    let chars = chars_of(key);
    let mut name = String::new();
    let mut segment = String::new();
    for i in 0..chars.len()
        invariant
            chars@ == key@,
            !segment@.contains('.'),
            name@ + escape(Place::Field, segment@) == escape(Place::Field, key@.take(i as int)),
    {
        let c = chars[i];
        let ghost done = name@;
        let ghost open = segment@;
        proof {
            assert(key@.take(i + 1).drop_last() =~= key@.take(i as int));
        }
        if c == '.' {
            let escaped = escape_field_segment(segment.as_str());
            name.append(escaped.as_str());
            name.push('.');
            segment = String::new();
            proof {
                escape_segment_is_field(open);
                assert(name@ + escape(Place::Field, segment@) =~= (done + escape(Place::Field, open))
                    + escape_char(Place::Field, c));
            }
        } else {
            segment.push(c);
            proof {
                assert(!segment@.contains('.')) by {
                    assert forall|j: int| 0 <= j < segment@.len() implies segment@[j] != '.' by {
                        if j < open.len() {
                            assert(segment@[j] == open[j]);
                        }
                    }
                }
                assert(segment@.drop_last() =~= open);
                assert(name@ + escape(Place::Field, segment@) =~= (done + escape(Place::Field, open))
                    + escape_char(Place::Field, c));
            }
        }
    }
    let escaped = escape_field_segment(segment.as_str());
    name.append(escaped.as_str());
    proof {
        escape_segment_is_field(segment@);
        assert(key@.take(key@.len() as int) =~= key@);
    }
    name
}

} // verus!
