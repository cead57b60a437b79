//! Replies of a Redis server, as plain values.

use vstd::prelude::*;

use crate::text::{decimal, decimal_i64, lossy_text, text_of};

verus! {

/// A reply of the server, in RESP2 or RESP3 form.
///
/// A 64-bit float is held by its bit pattern. A text keeps, beside its
/// characters, what it reads as when it is taken for a 64-bit float: the bit
/// pattern, or the message of the failed parse.
pub enum Reply {
    /// An integer.
    Int(i64),
    /// A floating-point number: its bit pattern, and the text that it prints as.
    Double { bits: u64, text: String },
    /// Binary-safe text.
    BulkString { bytes: Vec<u8>, number: Result<u64, String> },
    /// A status line.
    SimpleString { text: String, number: Result<u64, String> },
    /// Text with a format, of which only the text is kept.
    VerbatimString { text: String, number: Result<u64, String> },
    /// An array.
    Array(Vec<Reply>),
    /// The members of a RESP3 set.
    Members(Vec<Reply>),
    /// The pairs of a RESP3 map.
    Pairs(Vec<(Reply, Reply)>),
    /// Any other value, by its printed form.
    Other(String),
}

/// The text of a bulk, simple or verbatim string.
pub open spec fn string_of(value: Reply) -> Option<Seq<char>> {
    match value {
        Reply::BulkString { bytes, number: _ } => Some(text_of(bytes@)),
        Reply::SimpleString { text, number: _ } => Some(text@),
        Reply::VerbatimString { text, number: _ } => Some(text@),
        _ => None,
    }
}

/// The texts of optional strings.
pub open spec fn opt_text(text: Option<String>) -> Option<Seq<char>> {
    match text {
        Some(text) => Some(text@),
        None => None,
    }
}

/// Extracts the text of a bulk, simple or verbatim string value.
pub fn extract_string(value: &Reply) -> (text: Option<String>)
    ensures
        opt_text(text) == string_of(*value),
{
    match value {
        Reply::BulkString { bytes, number: _ } => Some(lossy_text(bytes)),
        Reply::SimpleString { text, number: _ } => Some(text.clone()),
        Reply::VerbatimString { text, number: _ } => Some(text.clone()),
        _ => None,
    }
}

/// The scalar tokens of a reply, in order: texts as they are, numbers as they
/// print. What holds other values contributes the tokens of what it holds.
pub open spec fn tokens(value: Reply) -> Seq<Seq<char>>
    decreases value,
{
    match value {
        Reply::Int(i) => seq![decimal(i as int)],
        Reply::Double { bits: _, text } => seq![text@],
        Reply::BulkString { bytes, number: _ } => seq![text_of(bytes@)],
        Reply::SimpleString { text, number: _ } => seq![text@],
        Reply::VerbatimString { text, number: _ } => seq![text@],
        Reply::Array(items) => tokens_of_items(items@),
        Reply::Members(items) => tokens_of_items(items@),
        Reply::Pairs(pairs) => tokens_of_pairs(pairs@),
        Reply::Other(_) => seq![],
    }
}

/// The tokens of several replies, one after the other.
pub open spec fn tokens_of_items(items: Seq<Reply>) -> Seq<Seq<char>>
    decreases items,
{
    if items.len() == 0 {
        seq![]
    } else {
        tokens_of_items(items.drop_last()) + tokens(items.last())
    }
}

/// The tokens of several pairs, each key before its value.
pub open spec fn tokens_of_pairs(pairs: Seq<(Reply, Reply)>) -> Seq<Seq<char>>
    decreases pairs,
{
    if pairs.len() == 0 {
        seq![]
    } else {
        tokens_of_pairs(pairs.drop_last()) + tokens(pairs.last().0) + tokens(pairs.last().1)
    }
}

/// The characters of several texts.
pub open spec fn texts(strings: Seq<String>) -> Seq<Seq<char>> {
    strings.map_values(|s: String| s@)
}

/// Appends the scalar tokens of a reply to `out`, in order.
pub fn flatten_tokens(value: &Reply, out: &mut Vec<String>)
    ensures
        texts(final(out)@) == texts(old(out)@) + tokens(*value),
    decreases *value,
{
    let ghost before = texts(out@);
    match value {
        Reply::Array(items) => flatten_items(items, out),
        Reply::Members(items) => flatten_items(items, out),
        Reply::Pairs(pairs) => flatten_pairs(pairs, out),
        Reply::BulkString { bytes, number: _ } => push_token(lossy_text(bytes), out),
        Reply::SimpleString { text, number: _ } => push_token(text.clone(), out),
        Reply::VerbatimString { text, number: _ } => push_token(text.clone(), out),
        Reply::Int(i) => push_token(decimal_i64(*i), out),
        Reply::Double { bits: _, text } => push_token(text.clone(), out),
        Reply::Other(_) => {
            assert(texts(out@) =~= before + tokens(*value));
        },
    }
}

fn flatten_items(items: &Vec<Reply>, out: &mut Vec<String>)
    ensures
        texts(final(out)@) == texts(old(out)@) + tokens_of_items(items@),
    decreases items@,
{
    let ghost before = texts(out@);
    for i in 0..items.len()
        invariant
            texts(out@) == before + tokens_of_items(items@.take(i as int)),
    {
        proof {
            assert(items@.take(i + 1).drop_last() =~= items@.take(i as int));
        }
        flatten_tokens(&items[i], out);
    }
    assert(items@.take(items@.len() as int) =~= items@);
}

fn flatten_pairs(pairs: &Vec<(Reply, Reply)>, out: &mut Vec<String>)
    ensures
        texts(final(out)@) == texts(old(out)@) + tokens_of_pairs(pairs@),
    decreases pairs@,
{
    let ghost before = texts(out@);
    for i in 0..pairs.len()
        invariant
            texts(out@) == before + tokens_of_pairs(pairs@.take(i as int)),
    {
        proof {
            assert(pairs@.take(i + 1).drop_last() =~= pairs@.take(i as int));
        }
        flatten_tokens(&pairs[i].0, out);
        flatten_tokens(&pairs[i].1, out);
    }
    assert(pairs@.take(pairs@.len() as int) =~= pairs@);
}

fn push_token(token: String, out: &mut Vec<String>)
    ensures
        texts(final(out)@) == texts(old(out)@) + seq![token@],
{
    out.push(token);
    assert(texts(final(out)@) =~= texts(old(out)@) + seq![token@]);
}

} // verus!
