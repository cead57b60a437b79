//! Reading the description of an index, the reply to `FT.INFO`: which metrics
//! it announces and which key prefixes it is defined with.

use vstd::prelude::*;

use crate::reply::{extract_string, flatten_tokens, string_of, texts, tokens, Reply};
use crate::text::{eq_ignore_ascii_case, same_ignoring_case, same_text};

verus! {

/// The token at a place, if there is one.
pub open spec fn token_at(tokens: Seq<Seq<char>>, i: int) -> Option<Seq<char>> {
    if 0 <= i < tokens.len() {
        Some(tokens[i])
    } else {
        None
    }
}

/// Whether a name follows a token: that of a field follows `identifier` and
/// `attribute`, and that of the index follows `index_name`.
pub open spec fn introduces_name(token: Seq<char>) -> bool {
    token == "identifier"@ || token == "attribute"@ || token == "index_name"@
}

/// Whether the token at `i` announces the metric of a vector field. A field or
/// an index may have the same name, which announces nothing. The prefixes are
/// left out of the tokens beforehand.
pub open spec fn announces_metric(tokens: Seq<Seq<char>>, i: int) -> bool {
    same_ignoring_case(tokens[i], "distance_metric"@) && !(0 < i && introduces_name(tokens[i - 1]))
}

/// Whether the token at `i` announces a metric other than `expected`.
pub open spec fn is_mismatch(tokens: Seq<Seq<char>>, expected: Seq<char>, i: int) -> bool {
    announces_metric(tokens, i) && !(token_at(tokens, i + 1) matches Some(metric)
        && same_ignoring_case(metric, expected))
}

/// The first place, from `i` on, where another metric is announced.
pub open spec fn first_mismatch(tokens: Seq<Seq<char>>, expected: Seq<char>, i: int) -> Option<int>
    decreases tokens.len() - i,
{
    if i >= tokens.len() {
        None
    } else if is_mismatch(tokens, expected, i) {
        Some(i)
    } else {
        first_mismatch(tokens, expected, i + 1)
    }
}

/// The words of an index definition that can follow its list of prefixes.
pub open spec fn ends_prefixes(token: Seq<char>) -> bool {
    ||| token == "default_score"@
    ||| token == "filter"@
    ||| token == "language"@
    ||| token == "language_field"@
    ||| token == "score_field"@
    ||| token == "payload_field"@
    ||| token == "attributes"@
}

/// Whether `i` is the first place of the token `prefixes`.
pub open spec fn starts_prefixes(tokens: Seq<Seq<char>>, i: int) -> bool {
    &&& 0 <= i < tokens.len()
    &&& tokens[i] == "prefixes"@
    &&& forall|j: int| 0 <= j < i ==> #[trigger] tokens[j] != "prefixes"@
}

/// Whether the token at `k` stands in a list of prefixes that starts at `i`.
pub open spec fn in_prefixes(tokens: Seq<Seq<char>>, i: int, k: int) -> bool {
    &&& i < k < tokens.len()
    &&& forall|j: int| i < j <= k ==> !ends_prefixes(#[trigger] tokens[j])
}

/// Whether the tokens of a description list a key prefix: the first token
/// `prefixes` is followed by it, before any word that can follow the list. This
/// depends on no shape, but misses a prefix that is such a word itself.
pub open spec fn lists_prefix(tokens: Seq<Seq<char>>, prefix: Seq<char>) -> bool {
    exists|i: int, k: int|
        starts_prefixes(tokens, i) && #[trigger] in_prefixes(tokens, i, k) && tokens[k] == prefix
}

/// Whether a reply is the name of the list of prefixes.
pub open spec fn names_prefixes(reply: Reply) -> bool {
    string_of(reply) == Some("prefixes"@)
}

/// Whether a reply is a list.
pub open spec fn is_list(reply: Reply) -> bool {
    reply is Array || reply is Members
}

/// Whether two replies, one directly before the other, are the name `prefixes`
/// and its list. With `wanted`, that list holds the wanted text too.
pub open spec fn is_prefix_list(name: Reply, list: Reply, wanted: Option<Seq<char>>) -> bool {
    &&& names_prefixes(name)
    &&& is_list(list)
    &&& wanted matches Some(text) ==> tokens(list).contains(text)
}

/// Whether a list of prefixes stands among the items of an array.
pub open spec fn lists_next(items: Seq<Reply>, wanted: Option<Seq<char>>) -> bool {
    exists|i: int|
        0 <= i < items.len() - 1 && is_prefix_list(#[trigger] items[i], items[i + 1], wanted)
}

/// Whether a list of prefixes stands somewhere in a reply: behind its name in
/// the same array, or as its partner in the same map.
pub open spec fn has_list(reply: Reply, wanted: Option<Seq<char>>) -> bool
    decreases reply,
{
    match reply {
        Reply::Array(items) => lists_next(items@, wanted) || some_has_list(items@, wanted),
        Reply::Members(items) => some_has_list(items@, wanted),
        Reply::Pairs(pairs) => some_pair_has_list(pairs@, wanted),
        _ => false,
    }
}

/// Whether a list of prefixes stands in one of several replies.
pub open spec fn some_has_list(items: Seq<Reply>, wanted: Option<Seq<char>>) -> bool
    decreases items,
{
    items.len() > 0 && (some_has_list(items.drop_last(), wanted) || has_list(
        items.last(),
        wanted,
    ))
}

/// Whether one of several pairs is a list of prefixes, or one stands in its key
/// or its value.
pub open spec fn some_pair_has_list(pairs: Seq<(Reply, Reply)>, wanted: Option<Seq<char>>) -> bool
    decreases pairs,
{
    pairs.len() > 0 && {
        ||| some_pair_has_list(pairs.drop_last(), wanted)
        ||| is_prefix_list(pairs.last().0, pairs.last().1, wanted)
        ||| has_list(pairs.last().0, wanted)
        ||| has_list(pairs.last().1, wanted)
    }
}

/// Whether a description holds a list of prefixes.
pub open spec fn has_prefix_list(reply: Reply) -> bool {
    has_list(reply, None)
}

/// Whether somewhere in a reply the name `prefixes` stands directly before a
/// list that holds the prefix.
pub open spec fn holds_prefix(reply: Reply, prefix: Seq<char>) -> bool {
    has_list(reply, Some(prefix))
}

/// Whether a description says that its index is defined with a key prefix: its
/// list of prefixes holds it. The tokens decide where no such list can be told.
pub open spec fn is_defined_with(reply: Reply, prefix: Seq<char>) -> bool {
    holds_prefix(reply, prefix) || (!has_prefix_list(reply) && lists_prefix(tokens(reply), prefix))
}

/// The tokens of a description but for those in its lists of prefixes.
pub open spec fn tokens_but_prefixes(reply: Reply) -> Seq<Seq<char>>
    decreases reply,
{
    match reply {
        Reply::Array(items) => item_tokens_but_prefixes(items@),
        Reply::Members(items) => member_tokens_but_prefixes(items@),
        Reply::Pairs(pairs) => pair_tokens_but_prefixes(pairs@),
        _ => tokens(reply),
    }
}

/// The tokens of the items of an array but for those in lists of prefixes.
pub open spec fn item_tokens_but_prefixes(items: Seq<Reply>) -> Seq<Seq<char>>
    decreases items,
{
    if items.len() == 0 {
        seq![]
    } else if items.len() >= 2 && is_prefix_list(items[items.len() - 2], items.last(), None) {
        item_tokens_but_prefixes(items.drop_last())
    } else {
        item_tokens_but_prefixes(items.drop_last()) + tokens_but_prefixes(items.last())
    }
}

/// The tokens of the members of a set but for those in lists of prefixes.
pub open spec fn member_tokens_but_prefixes(items: Seq<Reply>) -> Seq<Seq<char>>
    decreases items,
{
    if items.len() == 0 {
        seq![]
    } else {
        member_tokens_but_prefixes(items.drop_last()) + tokens_but_prefixes(items.last())
    }
}

/// The tokens of the pairs of a map but for those in lists of prefixes.
pub open spec fn pair_tokens_but_prefixes(pairs: Seq<(Reply, Reply)>) -> Seq<Seq<char>>
    decreases pairs,
{
    if pairs.len() == 0 {
        seq![]
    } else {
        let so_far = pair_tokens_but_prefixes(pairs.drop_last()) + tokens_but_prefixes(
            pairs.last().0,
        );
        if is_prefix_list(pairs.last().0, pairs.last().1, None) {
            so_far
        } else {
            so_far + tokens_but_prefixes(pairs.last().1)
        }
    }
}

fn is_introduction(token: &str) -> (introduction: bool)
    ensures
        introduction == introduces_name(token@),
{
    same_text(token, "identifier") || same_text(token, "attribute") || same_text(
        token,
        "index_name",
    )
}

fn is_stop(token: &str) -> (stop: bool)
    ensures
        stop == ends_prefixes(token@),
{
    same_text(token, "default_score") || same_text(token, "filter") || same_text(token, "language")
        || same_text(token, "language_field") || same_text(token, "score_field")
        || same_text(token, "payload_field") || same_text(token, "attributes")
}

/// Looks for a token that announces a metric other than `expected`.
pub(crate) fn find_mismatch(tokens: &Vec<String>, expected: &str) -> (place: Option<usize>)
    ensures
        match place {
            Some(i) => first_mismatch(texts(tokens@), expected@, 0) == Some(i as int) && i
                < tokens@.len(),
            None => first_mismatch(texts(tokens@), expected@, 0) is None,
        },
{
    let ghost shown = texts(tokens@);
    for i in 0..tokens.len()
        invariant
            shown == texts(tokens@),
            first_mismatch(shown, expected@, 0) == first_mismatch(shown, expected@, i as int),
    {
        let named = i > 0 && is_introduction(tokens[i - 1].as_str());
        if !named && eq_ignore_ascii_case(tokens[i].as_str(), "distance_metric") {
            let agrees = i + 1 < tokens.len() && eq_ignore_ascii_case(
                tokens[i + 1].as_str(),
                expected,
            );
            if !agrees {
                assert(is_mismatch(shown, expected@, i as int));
                return Some(i);
            }
        }
        assert(!is_mismatch(shown, expected@, i as int));
    }
    None
}

/// Looks for a key prefix among the tokens of a description.
fn find_prefix(tokens: &Vec<String>, prefix: &str) -> (found: bool)
    ensures
        found == lists_prefix(texts(tokens@), prefix@),
{
    let ghost shown = texts(tokens@);
    let mut start: usize = 0;
    while start < tokens.len() && !same_text(tokens[start].as_str(), "prefixes")
        invariant
            shown == texts(tokens@),
            start <= tokens@.len(),
            forall|j: int| 0 <= j < start ==> #[trigger] shown[j] != "prefixes"@,
        decreases tokens@.len() - start,
    {
        assert(shown[start as int] == tokens@[start as int]@);
        start = start + 1;
    }
    if start == tokens.len() {
        return false;
    }
    proof {
        assert(shown[start as int] == tokens@[start as int]@);
        assert(starts_prefixes(shown, start as int));
        assert forall|i: int| starts_prefixes(shown, i) implies i == start by {}
    }
    for k in start + 1..tokens.len()
        invariant
            shown == texts(tokens@),
            start < tokens@.len(),
            starts_prefixes(shown, start as int),
            forall|i: int| starts_prefixes(shown, i) ==> i == start,
            forall|j: int| start < j < k ==> !ends_prefixes(#[trigger] shown[j]),
            forall|j: int| start < j < k ==> #[trigger] shown[j] != prefix@,
    {
        assert(shown[k as int] == tokens@[k as int]@);
        if is_stop(tokens[k].as_str()) {
            assert forall|i: int, m: int|
                starts_prefixes(shown, i) && #[trigger] in_prefixes(shown, i, m) implies shown[m]
                != prefix@ by {
                if m >= k {
                    assert(ends_prefixes(shown[k as int]));
                }
            }
            return false;
        }
        if same_text(tokens[k].as_str(), prefix) {
            assert(in_prefixes(shown, start as int, k as int));
            return true;
        }
    }
    false
}

fn is_prefixes_name(reply: &Reply) -> (yes: bool)
    ensures
        yes == names_prefixes(*reply),
{
    match extract_string(reply) {
        Some(text) => same_text(text.as_str(), "prefixes"),
        None => false,
    }
}

fn is_reply_list(reply: &Reply) -> (yes: bool)
    ensures
        yes == is_list(*reply),
{
    match reply {
        Reply::Array(_) | Reply::Members(_) => true,
        _ => false,
    }
}

fn has_token(reply: &Reply, text: &str) -> (yes: bool)
    ensures
        yes == tokens(*reply).contains(text@),
{
    let mut held: Vec<String> = Vec::new();
    flatten_tokens(reply, &mut held);
    let ghost shown = texts(held@);
    assert(shown =~= tokens(*reply));
    for i in 0..held.len()
        invariant
            shown == texts(held@),
            shown == tokens(*reply),
            forall|j: int| 0 <= j < i ==> #[trigger] shown[j] != text@,
    {
        assert(shown[i as int] == held@[i as int]@);
        if same_text(held[i].as_str(), text) {
            assert(shown.contains(text@));
            return true;
        }
    }
    false
}

/// What is wanted of a list of prefixes.
spec fn wanted_text(wanted: Option<&str>) -> Option<Seq<char>> {
    match wanted {
        Some(text) => Some(text@),
        None => None,
    }
}

fn is_listing(name: &Reply, list: &Reply, wanted: Option<&str>) -> (yes: bool)
    ensures
        yes == is_prefix_list(*name, *list, wanted_text(wanted)),
{
    if !is_prefixes_name(name) || !is_reply_list(list) {
        return false;
    }
    match wanted {
        Some(text) => has_token(list, text),
        None => true,
    }
}

fn find_list(reply: &Reply, wanted: Option<&str>) -> (found: bool)
    ensures
        found == has_list(*reply, wanted_text(wanted)),
    decreases *reply,
{
    match reply {
        Reply::Array(items) => find_next(items, wanted) || find_in_items(items, wanted),
        Reply::Members(items) => find_in_items(items, wanted),
        Reply::Pairs(pairs) => find_in_pairs(pairs, wanted),
        _ => false,
    }
}

fn find_next(items: &Vec<Reply>, wanted: Option<&str>) -> (found: bool)
    ensures
        found == lists_next(items@, wanted_text(wanted)),
{
    let len: usize = items.len();
    if len == 0 {
        return false;
    }
    for i in 0..len - 1
        invariant
            0 < len == items@.len(),
            forall|j: int|
                0 <= j < i ==> !is_prefix_list(
                    #[trigger] items@[j],
                    items@[j + 1],
                    wanted_text(wanted),
                ),
    {
        if is_listing(&items[i], &items[i + 1], wanted) {
            assert(is_prefix_list(items@[i as int], items@[i + 1], wanted_text(wanted)));
            return true;
        }
    }
    false
}

fn find_in_items(items: &Vec<Reply>, wanted: Option<&str>) -> (found: bool)
    ensures
        found == some_has_list(items@, wanted_text(wanted)),
    decreases items@,
{
    let mut found = false;
    for i in 0..items.len()
        invariant
            found == some_has_list(items@.take(i as int), wanted_text(wanted)),
    {
        proof {
            assert(items@.take(i + 1).drop_last() =~= items@.take(i as int));
        }
        let here = find_list(&items[i], wanted);
        found = found || here;
    }
    assert(items@.take(items@.len() as int) =~= items@);
    found
}

fn find_in_pairs(pairs: &Vec<(Reply, Reply)>, wanted: Option<&str>) -> (found: bool)
    ensures
        found == some_pair_has_list(pairs@, wanted_text(wanted)),
    decreases pairs@,
{
    let mut found = false;
    for i in 0..pairs.len()
        invariant
            found == some_pair_has_list(pairs@.take(i as int), wanted_text(wanted)),
    {
        proof {
            assert(pairs@.take(i + 1).drop_last() =~= pairs@.take(i as int));
        }
        let listed = is_listing(&pairs[i].0, &pairs[i].1, wanted);
        let in_key = find_list(&pairs[i].0, wanted);
        let in_value = find_list(&pairs[i].1, wanted);
        found = found || listed || in_key || in_value;
    }
    assert(pairs@.take(pairs@.len() as int) =~= pairs@);
    found
}

/// Looks for a key prefix in the description of an index.
pub(crate) fn find_definition(reply: &Reply, prefix: &str) -> (found: bool)
    ensures
        found == is_defined_with(*reply, prefix@),
{
    if find_list(reply, Some(prefix)) {
        return true;
    }
    if find_list(reply, None) {
        return false;
    }
    let mut held: Vec<String> = Vec::new();
    flatten_tokens(reply, &mut held);
    assert(texts(held@) =~= tokens(*reply));
    find_prefix(&held, prefix)
}

/// Appends the tokens of a description to `out`, but for those in its lists of
/// prefixes.
pub(crate) fn flatten_but_prefixes(reply: &Reply, out: &mut Vec<String>)
    ensures
        texts(final(out)@) == texts(old(out)@) + tokens_but_prefixes(*reply),
    decreases *reply,
{
    match reply {
        Reply::Array(items) => flatten_items_but_prefixes(items, out),
        Reply::Members(items) => flatten_members_but_prefixes(items, out),
        Reply::Pairs(pairs) => flatten_pairs_but_prefixes(pairs, out),
        _ => flatten_tokens(reply, out),
    }
}

fn flatten_items_but_prefixes(items: &Vec<Reply>, out: &mut Vec<String>)
    ensures
        texts(final(out)@) == texts(old(out)@) + item_tokens_but_prefixes(items@),
    decreases items@,
{
    let ghost before = texts(out@);
    for i in 0..items.len()
        invariant
            texts(out@) == before + item_tokens_but_prefixes(items@.take(i as int)),
    {
        proof {
            let shown = items@.take(i + 1);
            assert(shown.drop_last() =~= items@.take(i as int));
            if i > 0 {
                assert(shown[shown.len() - 2] == items@[i - 1]);
            }
        }
        if i == 0 || !is_listing(&items[i - 1], &items[i], None) {
            flatten_but_prefixes(&items[i], out);
        }
    }
    assert(items@.take(items@.len() as int) =~= items@);
}

fn flatten_members_but_prefixes(items: &Vec<Reply>, out: &mut Vec<String>)
    ensures
        texts(final(out)@) == texts(old(out)@) + member_tokens_but_prefixes(items@),
    decreases items@,
{
    let ghost before = texts(out@);
    for i in 0..items.len()
        invariant
            texts(out@) == before + member_tokens_but_prefixes(items@.take(i as int)),
    {
        proof {
            assert(items@.take(i + 1).drop_last() =~= items@.take(i as int));
        }
        flatten_but_prefixes(&items[i], out);
    }
    assert(items@.take(items@.len() as int) =~= items@);
}

fn flatten_pairs_but_prefixes(pairs: &Vec<(Reply, Reply)>, out: &mut Vec<String>)
    ensures
        texts(final(out)@) == texts(old(out)@) + pair_tokens_but_prefixes(pairs@),
    decreases pairs@,
{
    let ghost before = texts(out@);
    for i in 0..pairs.len()
        invariant
            texts(out@) == before + pair_tokens_but_prefixes(pairs@.take(i as int)),
    {
        proof {
            assert(pairs@.take(i + 1).drop_last() =~= pairs@.take(i as int));
        }
        flatten_but_prefixes(&pairs[i].0, out);
        if !is_listing(&pairs[i].0, &pairs[i].1, None) {
            flatten_but_prefixes(&pairs[i].1, out);
        }
    }
    assert(pairs@.take(pairs@.len() as int) =~= pairs@);
}

/// The first mismatch is the first: none before it, and where there is none,
/// there is no mismatch at all.
pub proof fn first_mismatch_is_first(tokens: Seq<Seq<char>>, expected: Seq<char>, from: int)
    requires
        0 <= from,
    ensures
        match first_mismatch(tokens, expected, from) {
            Some(i) => from <= i < tokens.len() && is_mismatch(tokens, expected, i) && forall|
                j: int,
            |
                from <= j < i ==> !#[trigger] is_mismatch(tokens, expected, j),
            None => forall|j: int|
                from <= j < tokens.len() ==> !#[trigger] is_mismatch(tokens, expected, j),
        },
    decreases tokens.len() - from,
{
    if from < tokens.len() && !is_mismatch(tokens, expected, from) {
        first_mismatch_is_first(tokens, expected, from + 1);
    }
}

} // verus!
