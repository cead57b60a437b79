//! Laws of validating an index against a store.

use vstd::prelude::*;

use crate::definition::{
    ends_prefixes, first_mismatch, first_mismatch_is_first, has_list, has_prefix_list,
    holds_prefix, in_prefixes, is_defined_with, is_mismatch, is_prefix_list,
    item_tokens_but_prefixes, lists_next, lists_prefix, member_tokens_but_prefixes,
    pair_tokens_but_prefixes, some_has_list, some_pair_has_list, starts_prefixes,
    tokens_but_prefixes,
};
use crate::laws::values::{case_is_ignored_letter_by_letter, is_same_letter};
use crate::reply::{opt_text, string_of, tokens, Reply};
use crate::store::{
    description_outcome, index_message, index_outcome, index_view, metric_name, IndexError,
    IndexFault, StoreView,
};
use crate::text::debug_text;

verus! {

/// Whether two texts are as long, and the same letter by letter but for case.
pub open spec fn is_same_word(left: Seq<char>, right: Seq<char>) -> bool {
    left.len() == right.len() && forall|i: int|
        0 <= i < left.len() ==> is_same_letter(#[trigger] left[i], right[i])
}

/// Whether the token at `i` is the word `distance_metric` and not a name: none of
/// the words that a name follows stands directly before it.
pub open spec fn is_announcement(tokens: Seq<Seq<char>>, i: int) -> bool {
    &&& 0 <= i < tokens.len()
    &&& is_same_word(tokens[i], "distance_metric"@)
    &&& i == 0 || (tokens[i - 1] != "identifier"@ && tokens[i - 1] != "attribute"@ && tokens[i - 1]
        != "index_name"@)
}

/// Whether an announcement is followed by the metric.
pub open spec fn announces(tokens: Seq<Seq<char>>, i: int, metric: Seq<char>) -> bool {
    i + 1 < tokens.len() && is_same_word(tokens[i + 1], metric)
}

/// What a mismatch is, in words.
proof fn mismatches_are_announcements(tokens: Seq<Seq<char>>, metric: Seq<char>, i: int)
    requires
        0 <= i < tokens.len(),
    ensures
        is_mismatch(tokens, metric, i) <==> is_announcement(tokens, i) && !announces(
            tokens,
            i,
            metric,
        ),
{
    case_is_ignored_letter_by_letter(tokens[i], "distance_metric"@);
    if i + 1 < tokens.len() {
        case_is_ignored_letter_by_letter(tokens[i + 1], metric);
    }
}

/// Validation passes exactly if every announced metric is the store's and the index
/// is defined with the store's prefix, if it has one. Otherwise the error names the
/// index, and the first announcement that differs, with the metric found there and
/// the one expected; or, where none does, the missing prefix.
pub proof fn validation_is_exact(store: StoreView, info: Reply)
    ensures
        ({
            let words = tokens_but_prefixes(info);
            let metric = metric_name(store.distance_metric);
            let agrees = forall|i: int| #[trigger]
                is_announcement(words, i) ==> announces(words, i, metric);
            let defined = store.key_prefix is None || is_defined_with(
                info,
                store.key_prefix.unwrap(),
            );
            match description_outcome(store, info) {
                Ok(()) => agrees && defined,
                Err(IndexFault::OtherMetric { index, found, expected }) => {
                    &&& index == store.index_name
                    &&& expected == metric
                    &&& exists|i: int|
                        {
                            &&& #[trigger] is_announcement(words, i)
                            &&& !announces(words, i, metric)
                            &&& found == if i + 1 < words.len() {
                                Some(words[i + 1])
                            } else {
                                None
                            }
                            &&& forall|j: int|
                                j < i && #[trigger] is_announcement(words, j) ==> announces(
                                    words,
                                    j,
                                    metric,
                                )
                        }
                },
                Err(IndexFault::OtherPrefix { index, prefix }) => {
                    &&& agrees
                    &&& !defined
                    &&& index == store.index_name
                    &&& store.key_prefix == Some(prefix)
                },
                Err(IndexFault::Unavailable { index: _, message: _ }) => false,
            }
        }),
{
    let words = tokens_but_prefixes(info);
    let metric = metric_name(store.distance_metric);
    first_mismatch_is_first(words, metric, 0);
    match first_mismatch(words, metric, 0) {
        Some(i) => {
            mismatches_are_announcements(words, metric, i);
            assert(is_announcement(words, i));
            assert forall|j: int| j < i && #[trigger] is_announcement(words, j) implies announces(
                words,
                j,
                metric,
            ) by {
                mismatches_are_announcements(words, metric, j);
                assert(!is_mismatch(words, metric, j));
            }
        },
        None => {
            assert forall|i: int| #[trigger] is_announcement(words, i) implies announces(
                words,
                i,
                metric,
            ) by {
                mismatches_are_announcements(words, metric, i);
                assert(!is_mismatch(words, metric, i));
            }
        },
    }
}

/// A description that cannot be had is told with its message, and one that can is
/// judged. Errors are seen by what they hold.
pub proof fn failures_are_told(store: StoreView, info: Reply, message: String, error: IndexError)
    ensures
        index_outcome(store, Err(message)) == Err::<(), IndexFault>(
            IndexFault::Unavailable { index: store.index_name, message: message@ },
        ),
        index_outcome(store, Ok(info)) == description_outcome(store, info),
        index_view(Ok(())) == Ok::<(), IndexFault>(()),
        index_view(Err(error)) == Err::<(), IndexFault>(error@),
        match error {
            IndexError::Unavailable { index, message } => error@ == (IndexFault::Unavailable {
                index: index@,
                message: message@,
            }),
            IndexError::OtherMetric { index, found, expected } => error@
                == (IndexFault::OtherMetric {
                index: index@,
                found: opt_text(found),
                expected: expected@,
            }),
            IndexError::OtherPrefix { index, prefix } => error@ == (IndexFault::OtherPrefix {
                index: index@,
                prefix: prefix@,
            }),
        },
{
}

/// The message of each error names the index and what is wrong with it.
pub proof fn errors_have_their_message(fault: IndexFault)
    ensures
        match fault {
            IndexFault::Unavailable { index, message } => index_message(fault) == "index '"@ + (
            index + ("' not found or FT.INFO failed: "@ + message)),
            IndexFault::OtherMetric { index, found, expected } => index_message(fault)
                == "index '"@ + (index + ("' uses distance metric "@ + (match found {
                Some(found) => "Some("@ + (debug_text(found) + ")"@),
                None => "None"@,
            } + (", but this store is configured for "@ + expected)))),
            IndexFault::OtherPrefix { index, prefix } => index_message(fault) == "index '"@ + (
            index + ("' is not configured with key prefix '"@ + (prefix + "'"@))),
        },
{
    match fault {
        IndexFault::Unavailable { index, message } => {
            assert(index_message(fault) =~= "index '"@ + (index + (
            "' not found or FT.INFO failed: "@ + message)));
        },
        IndexFault::OtherMetric { index, found, expected } => {
            let shown = match found {
                Some(found) => "Some("@ + (debug_text(found) + ")"@),
                None => "None"@,
            };
            if let Some(text) = found {
                assert("Some("@ + debug_text(text) + ")"@ =~= shown);
            }
            assert(index_message(fault) =~= "index '"@ + (index + ("' uses distance metric "@ + (
            shown + (", but this store is configured for "@ + expected)))));
        },
        IndexFault::OtherPrefix { index, prefix } => {
            assert(index_message(fault) =~= "index '"@ + (index + (
            "' is not configured with key prefix '"@ + (prefix + "'"@))));
        },
    }
}

/// Whether two replies are the name `prefixes` and a list.
pub open spec fn is_named_list(name: Reply, list: Reply) -> bool {
    string_of(name) == Some("prefixes"@) && (list is Array || list is Members)
}

/// The tokens that metrics are looked for in: those of an array item by item, but
/// for a list directly behind the name `prefixes`; those of a set member by member;
/// those of a map pair by pair, but for a list under that name; and those of a
/// scalar.
pub proof fn prefixes_are_left_out(
    items: Seq<Reply>,
    item: Reply,
    pairs: Seq<(Reply, Reply)>,
    name: Reply,
    value: Reply,
    whole: Reply,
)
    ensures
        item_tokens_but_prefixes(seq![]) == Seq::<Seq<char>>::empty(),
        item_tokens_but_prefixes(items.push(item)) == if items.len() > 0 && is_named_list(
            items.last(),
            item,
        ) {
            item_tokens_but_prefixes(items)
        } else {
            item_tokens_but_prefixes(items) + tokens_but_prefixes(item)
        },
        member_tokens_but_prefixes(seq![]) == Seq::<Seq<char>>::empty(),
        member_tokens_but_prefixes(items.push(item)) == member_tokens_but_prefixes(items)
            + tokens_but_prefixes(item),
        pair_tokens_but_prefixes(seq![]) == Seq::<Seq<char>>::empty(),
        pair_tokens_but_prefixes(pairs.push((name, value))) == pair_tokens_but_prefixes(pairs)
            + tokens_but_prefixes(name) + if is_named_list(name, value) {
            seq![]
        } else {
            tokens_but_prefixes(value)
        },
        match whole {
            Reply::Array(list) => tokens_but_prefixes(whole) == item_tokens_but_prefixes(list@),
            Reply::Members(list) => tokens_but_prefixes(whole) == member_tokens_but_prefixes(list@),
            Reply::Pairs(list) => tokens_but_prefixes(whole) == pair_tokens_but_prefixes(list@),
            _ => tokens_but_prefixes(whole) == tokens(whole),
        },
{
    let longer = items.push(item);
    assert(longer.drop_last() =~= items);
    assert(longer.last() == item);
    if items.len() > 0 {
        assert(longer[longer.len() - 2] == items.last());
    }
    let more = pairs.push((name, value));
    assert(more.drop_last() =~= pairs);
    assert(more.last() == (name, value));
    assert(pair_tokens_but_prefixes(more) =~= pair_tokens_but_prefixes(pairs)
        + tokens_but_prefixes(name) + if is_named_list(name, value) {
        seq![]
    } else {
        tokens_but_prefixes(value)
    });
}

/// Whether a list of prefixes in one of several replies.
proof fn some_list_is_in_one(items: Seq<Reply>, wanted: Option<Seq<char>>)
    ensures
        some_has_list(items, wanted) <==> exists|i: int|
            0 <= i < items.len() && has_list(#[trigger] items[i], wanted),
    decreases items.len(),
{
    if items.len() > 0 {
        let front = items.drop_last();
        some_list_is_in_one(front, wanted);
        if some_has_list(front, wanted) {
            let i = choose|i: int| 0 <= i < front.len() && has_list(#[trigger] front[i], wanted);
            assert(has_list(items[i], wanted));
        }
        if has_list(items.last(), wanted) {
            assert(has_list(items[items.len() - 1], wanted));
        }
        if exists|i: int| 0 <= i < items.len() && has_list(#[trigger] items[i], wanted) {
            let i = choose|i: int| 0 <= i < items.len() && has_list(#[trigger] items[i], wanted);
            if i < front.len() {
                assert(has_list(front[i], wanted));
            }
        }
    }
}

/// Whether a pair is a list of prefixes or holds one.
spec fn pair_has_list(pair: (Reply, Reply), wanted: Option<Seq<char>>) -> bool {
    is_prefix_list(pair.0, pair.1, wanted) || has_list(pair.0, wanted) || has_list(pair.1, wanted)
}

/// Whether a list of prefixes is in one of several pairs.
proof fn some_pair_list_is_in_one(pairs: Seq<(Reply, Reply)>, wanted: Option<Seq<char>>)
    ensures
        some_pair_has_list(pairs, wanted) <==> exists|i: int|
            0 <= i < pairs.len() && pair_has_list(#[trigger] pairs[i], wanted),
    decreases pairs.len(),
{
    if pairs.len() > 0 {
        let front = pairs.drop_last();
        some_pair_list_is_in_one(front, wanted);
        if some_pair_has_list(front, wanted) {
            let i = choose|i: int|
                0 <= i < front.len() && pair_has_list(#[trigger] front[i], wanted);
            assert(pair_has_list(pairs[i], wanted));
        }
        if pair_has_list(pairs.last(), wanted) {
            assert(pair_has_list(pairs[pairs.len() - 1], wanted));
        }
        if exists|i: int| 0 <= i < pairs.len() && pair_has_list(#[trigger] pairs[i], wanted) {
            let i = choose|i: int|
                0 <= i < pairs.len() && pair_has_list(#[trigger] pairs[i], wanted);
            if i < front.len() {
                assert(pair_has_list(front[i], wanted));
            }
        }
    }
}

/// A list of prefixes holds a prefix exactly if it is one of its tokens; any list is
/// one where nothing is wanted.
pub open spec fn is_wanted_list(name: Reply, list: Reply, wanted: Option<Seq<char>>) -> bool {
    is_named_list(name, list) && match wanted {
        Some(prefix) => exists|i: int|
            0 <= i < tokens(list).len() && #[trigger] tokens(list)[i] == prefix,
        None => true,
    }
}

/// Where lists of prefixes stand: in an array directly behind their name, in a map
/// under it, or anywhere inside of an item, a member, a name or a value.
pub proof fn prefix_lists_are_found(whole: Reply, wanted: Option<Seq<char>>)
    ensures
        match whole {
            Reply::Array(items) => has_list(whole, wanted) <==> (exists|i: int|
                0 <= i < items@.len() - 1 && is_wanted_list(
                    #[trigger] items@[i],
                    items@[i + 1],
                    wanted,
                )) || (exists|i: int| 0 <= i < items@.len() && has_list(#[trigger] items@[i], wanted)),
            Reply::Members(items) => has_list(whole, wanted) <==> exists|i: int|
                0 <= i < items@.len() && has_list(#[trigger] items@[i], wanted),
            Reply::Pairs(pairs) => has_list(whole, wanted) <==> exists|i: int|
                0 <= i < pairs@.len() && (is_wanted_list(
                    (#[trigger] pairs@[i]).0,
                    pairs@[i].1,
                    wanted,
                ) || has_list(pairs@[i].0, wanted) || has_list(pairs@[i].1, wanted)),
            _ => !has_list(whole, wanted),
        },
        has_prefix_list(whole) == has_list(whole, None),
        wanted matches Some(prefix) ==> holds_prefix(whole, prefix) == has_list(whole, wanted),
{
    assert forall|name: Reply, list: Reply|
        is_prefix_list(name, list, wanted) == is_wanted_list(name, list, wanted) by {
        if let Some(prefix) = wanted {
            if tokens(list).contains(prefix) {
                let i = choose|i: int| 0 <= i < tokens(list).len() && tokens(list)[i] == prefix;
                assert(tokens(list)[i] == prefix);
            }
        }
    }
    match whole {
        Reply::Array(items) => {
            some_list_is_in_one(items@, wanted);
            if lists_next(items@, wanted) {
                let i = choose|i: int|
                    0 <= i < items@.len() - 1 && is_prefix_list(
                        #[trigger] items@[i],
                        items@[i + 1],
                        wanted,
                    );
                assert(is_wanted_list(items@[i], items@[i + 1], wanted));
            }
            if exists|i: int|
                0 <= i < items@.len() - 1 && is_wanted_list(
                    #[trigger] items@[i],
                    items@[i + 1],
                    wanted,
                ) {
                let i = choose|i: int|
                    0 <= i < items@.len() - 1 && is_wanted_list(
                        #[trigger] items@[i],
                        items@[i + 1],
                        wanted,
                    );
                assert(is_prefix_list(items@[i], items@[i + 1], wanted));
            }
        },
        Reply::Members(items) => {
            some_list_is_in_one(items@, wanted);
        },
        Reply::Pairs(pairs) => {
            some_pair_list_is_in_one(pairs@, wanted);
            if some_pair_has_list(pairs@, wanted) {
                let i = choose|i: int|
                    0 <= i < pairs@.len() && pair_has_list(#[trigger] pairs@[i], wanted);
                assert(is_wanted_list(pairs@[i].0, pairs@[i].1, wanted) || has_list(
                    pairs@[i].0,
                    wanted,
                ) || has_list(pairs@[i].1, wanted));
            }
            if exists|i: int|
                0 <= i < pairs@.len() && (is_wanted_list(
                    (#[trigger] pairs@[i]).0,
                    pairs@[i].1,
                    wanted,
                ) || has_list(pairs@[i].0, wanted) || has_list(pairs@[i].1, wanted)) {
                let i = choose|i: int|
                    0 <= i < pairs@.len() && (is_wanted_list(
                        (#[trigger] pairs@[i]).0,
                        pairs@[i].1,
                        wanted,
                    ) || has_list(pairs@[i].0, wanted) || has_list(pairs@[i].1, wanted));
                assert(pair_has_list(pairs@[i], wanted));
            }
        },
        _ => {},
    }
}

/// Whether a word can follow the list of prefixes.
pub open spec fn is_definition_word(word: Seq<char>) -> bool {
    ||| word == "default_score"@ || word == "filter"@ || word == "language"@
    ||| word == "language_field"@ || word == "score_field"@ || word == "payload_field"@
    ||| word == "attributes"@
}

/// Without a list of prefixes the tokens decide: the prefix stands behind the first
/// word `prefixes`, with no word between that can follow the prefixes, and is none
/// itself. With one, the list alone decides.
pub proof fn prefixes_are_told(info: Reply, prefix: Seq<char>)
    ensures
        is_defined_with(info, prefix) <==> holds_prefix(info, prefix) || (!has_prefix_list(info)
            && lists_prefix(tokens(info), prefix)),
        lists_prefix(tokens(info), prefix) <==> exists|i: int, k: int|
            #![trigger tokens(info)[i], tokens(info)[k]]
            0 <= i < k < tokens(info).len() && tokens(info)[i] == "prefixes"@ && tokens(info)[k]
                == prefix && (forall|j: int| 0 <= j < i ==> #[trigger] tokens(info)[j]
                != "prefixes"@) && (forall|j: int|
                i < j <= k ==> !is_definition_word(#[trigger] tokens(info)[j])),
{
    let words = tokens(info);
    if lists_prefix(words, prefix) {
        let (i, k) = choose|i: int, k: int|
            starts_prefixes(words, i) && #[trigger] in_prefixes(words, i, k) && words[k] == prefix;
        assert(words[i] == "prefixes"@ && words[k] == prefix);
        assert forall|j: int| i < j <= k implies !is_definition_word(#[trigger] words[j]) by {
            assert(!ends_prefixes(words[j]));
        }
    }
    if exists|i: int, k: int|
        #![trigger words[i], words[k]]
        0 <= i < k < words.len() && words[i] == "prefixes"@ && words[k] == prefix && (forall|j: int|
            0 <= j < i ==> #[trigger] words[j] != "prefixes"@) && (forall|j: int|
            i < j <= k ==> !is_definition_word(#[trigger] words[j])) {
        let (i, k) = choose|i: int, k: int|
            #![trigger words[i], words[k]]
            0 <= i < k < words.len() && words[i] == "prefixes"@ && words[k] == prefix && (forall|
                j: int,
            |
                0 <= j < i ==> #[trigger] words[j] != "prefixes"@) && (forall|j: int|
                i < j <= k ==> !is_definition_word(#[trigger] words[j]));
        assert forall|j: int| i < j <= k implies !ends_prefixes(#[trigger] words[j]) by {
            assert(!is_definition_word(words[j]));
        }
        assert(starts_prefixes(words, i));
        assert(in_prefixes(words, i, k));
    }
}

} // verus!
