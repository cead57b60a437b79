//! Reading the replies of `FT.SEARCH`.
//!
//! RESP2 answers with a flat array, `[count, key, [field, value, ..], ..]`.
//! RESP3 answers with a map whose `results` lists one map for each document,
//! `{id: .., extra_attributes: {field: value, ..}}`.

use vstd::prelude::*;

use crate::reply::{extract_string, string_of, Reply};
use crate::text::same_text;

verus! {

/// One document that a search found.
pub struct Hit {
    /// The bit pattern of its distance from the query.
    pub distance: u64,
    /// Its key.
    pub id: String,
    /// Its JSON, or an empty text where none was asked for or found.
    pub document: String,
}

/// What a [`Hit`] says.
pub struct HitView {
    pub distance: u64,
    pub id: Seq<char>,
    pub document: Seq<char>,
}

impl View for Hit {
    type V = HitView;

    open spec fn view(&self) -> HitView {
        HitView { distance: self.distance, id: self.id@, document: self.document@ }
    }
}

/// What several hits say.
pub open spec fn hits_view(hits: Seq<Hit>) -> Seq<HitView> {
    hits.map_values(|hit: Hit| hit@)
}

/// Why a reply cannot be read.
pub enum ResponseError<'a> {
    /// The reply is neither an array nor a map.
    InvalidFormat,
    /// An array does not start with the number of matches.
    MissingCount,
    /// A score is a text that is not a number; holds the message of the parse.
    UnparsableScore(&'a String),
    /// A score is neither a number nor a text; holds the value.
    UnexpectedScore(&'a Reply),
}

/// What a [`ResponseError`] says.
pub enum Fault {
    InvalidFormat,
    MissingCount,
    UnparsableScore(Seq<char>),
    UnexpectedScore(Reply),
}

impl<'a> View for ResponseError<'a> {
    type V = Fault;

    open spec fn view(&self) -> Fault {
        match self {
            ResponseError::InvalidFormat => Fault::InvalidFormat,
            ResponseError::MissingCount => Fault::MissingCount,
            ResponseError::UnparsableScore(message) => Fault::UnparsableScore(message@),
            ResponseError::UnexpectedScore(value) => Fault::UnexpectedScore(**value),
        }
    }
}

/// The message of a fault. `printed` is how the value of an unexpected score
/// prints.
pub open spec fn fault_message(fault: Fault, printed: Seq<char>) -> Seq<char> {
    match fault {
        Fault::InvalidFormat => {
            "Invalid FT.SEARCH response format (expected a RESP2 array or RESP3 map)"@
        },
        Fault::MissingCount => "Invalid response format: expected count as first element"@,
        Fault::UnparsableScore(message) => "Failed to parse score: "@ + message,
        Fault::UnexpectedScore(_) => "Unexpected Redis value type for score: "@ + printed,
    }
}

impl<'a> ResponseError<'a> {
    /// The message of the error. `printed` is how the value of an unexpected
    /// score prints.
    pub fn message(&self, printed: &str) -> (text: String)
        ensures
            text@ == fault_message(self@, printed@),
    {
        match self {
            ResponseError::InvalidFormat => {
                "Invalid FT.SEARCH response format (expected a RESP2 array or RESP3 map)".to_owned()
            },
            ResponseError::MissingCount => {
                "Invalid response format: expected count as first element".to_owned()
            },
            ResponseError::UnparsableScore(message) => {
                let mut text = "Failed to parse score: ".to_owned();
                text.append(message.as_str());
                text
            },
            ResponseError::UnexpectedScore(_) => {
                let mut text = "Unexpected Redis value type for score: ".to_owned();
                text.append(printed);
                text
            },
        }
    }
}

/// The bit pattern of positive zero, the distance of a hit without a score.
pub const NO_DISTANCE: u64 = 0;

/// The distance that a score value holds.
pub open spec fn distance_of(value: Reply) -> Result<u64, Fault> {
    match value {
        Reply::Double { bits, text: _ } => Ok(bits),
        Reply::BulkString { bytes: _, number } => number_of(number),
        Reply::SimpleString { text: _, number } => number_of(number),
        Reply::VerbatimString { text: _, number } => number_of(number),
        _ => Err(Fault::UnexpectedScore(value)),
    }
}

/// The number that a text reads as.
pub open spec fn number_of(number: Result<u64, String>) -> Result<u64, Fault> {
    match number {
        Ok(bits) => Ok(bits),
        Err(message) => Err(Fault::UnparsableScore(message@)),
    }
}

/// What the fields of a document have shown so far.
pub struct Found {
    pub distance: u64,
    pub document: Seq<char>,
}

/// What is known of a document before any of its fields is read.
pub open spec fn nothing_found() -> Found {
    Found { distance: NO_DISTANCE, document: seq![] }
}

/// What one more field shows: `__vector_score` holds the distance, and
/// `document`, if it is asked for, the JSON.
pub open spec fn read_field(found: Found, with_document: bool, field: (Reply, Reply)) -> Result<
    Found,
    Fault,
> {
    match string_of(field.0) {
        Some(name) if name == "__vector_score"@ => match distance_of(field.1) {
            Ok(distance) => Ok(Found { distance, ..found }),
            Err(fault) => Err(fault),
        },
        Some(name) if with_document && name == "document"@ => match string_of(field.1) {
            Some(document) => Ok(Found { document, ..found }),
            None => Ok(found),
        },
        _ => Ok(found),
    }
}

/// What several fields show, read in order. A score that cannot be read
/// ends it.
pub open spec fn read_fields(
    found: Found,
    with_document: bool,
    fields: Seq<(Reply, Reply)>,
) -> Result<Found, Fault>
    decreases fields.len(),
{
    if fields.len() == 0 {
        Ok(found)
    } else {
        match read_fields(found, with_document, fields.drop_last()) {
            Ok(found) => read_field(found, with_document, fields.last()),
            Err(fault) => Err(fault),
        }
    }
}

/// The items of a flat list taken two by two. A last one without a partner
/// is left out.
pub open spec fn in_pairs(items: Seq<Reply>) -> Seq<(Reply, Reply)> {
    Seq::new(items.len() / 2, |i: int| (items[2 * i], items[2 * i + 1]))
}

/// The hits among entries that were read one by one. The first entry with a
/// fault ends it.
pub open spec fn gather(entries: Seq<Result<Option<HitView>, Fault>>) -> Result<Seq<HitView>, Fault>
    decreases entries.len(),
{
    if entries.len() == 0 {
        Ok(seq![])
    } else {
        match (gather(entries.drop_last()), entries.last()) {
            (Ok(hits), Ok(Some(hit))) => Ok(hits.push(hit)),
            (Ok(hits), Ok(None)) => Ok(hits),
            (Ok(_), Err(fault)) => Err(fault),
            (Err(fault), _) => Err(fault),
        }
    }
}

/// What a RESP2 entry says, a key and its fields. An entry whose key is no
/// text or whose fields are no array is no hit.
pub open spec fn resp2_entry(with_document: bool, entry: (Reply, Reply)) -> Result<
    Option<HitView>,
    Fault,
> {
    match (string_of(entry.0), entry.1) {
        (Some(id), Reply::Array(fields)) => match read_fields(
            nothing_found(),
            with_document,
            in_pairs(fields@),
        ) {
            Ok(Found { distance, document }) => Ok(Some(HitView { distance, id, document })),
            Err(fault) => Err(fault),
        },
        _ => Ok(None),
    }
}

/// What several RESP2 entries say, one by one.
pub open spec fn resp2_entries(with_document: bool, entries: Seq<(Reply, Reply)>) -> Seq<
    Result<Option<HitView>, Fault>,
> {
    entries.map_values(|entry: (Reply, Reply)| resp2_entry(with_document, entry))
}

/// What a RESP2 reply says. A count of zero stands for no hits, whatever
/// follows it.
pub open spec fn resp2_outcome(with_document: bool, items: Seq<Reply>) -> Result<
    Seq<HitView>,
    Fault,
> {
    if items.len() > 0 && items[0] is Int {
        if items[0]->Int_0 == 0 {
            Ok(seq![])
        } else {
            gather(resp2_entries(with_document, in_pairs(items.skip(1))))
        }
    } else {
        Err(Fault::MissingCount)
    }
}

/// Whether a pair of a RESP3 reply is its list of results.
pub open spec fn is_results(pair: (Reply, Reply)) -> bool {
    string_of(pair.0) == Some("results"@) && pair.1 is Array
}

/// The first list of results in a RESP3 reply, if there is one.
pub open spec fn results_of(pairs: Seq<(Reply, Reply)>) -> Option<Seq<Reply>>
    decreases pairs.len(),
{
    if pairs.len() == 0 {
        None
    } else if is_results(pairs[0]) {
        Some(pairs[0].1->Array_0@)
    } else {
        results_of(pairs.skip(1))
    }
}

/// What one more pair of a RESP3 entry shows: `id` holds the key, and
/// `extra_attributes` the fields.
pub open spec fn read_attribute(
    so_far: (Seq<char>, Found),
    with_document: bool,
    pair: (Reply, Reply),
) -> Result<(Seq<char>, Found), Fault> {
    match string_of(pair.0) {
        Some(name) if name == "id"@ => match string_of(pair.1) {
            Some(id) => Ok((id, so_far.1)),
            None => Ok(so_far),
        },
        Some(name) if name == "extra_attributes"@ => match pair.1 {
            Reply::Pairs(fields) => match read_fields(so_far.1, with_document, fields@) {
                Ok(found) => Ok((so_far.0, found)),
                Err(fault) => Err(fault),
            },
            _ => Ok(so_far),
        },
        _ => Ok(so_far),
    }
}

/// What the pairs of a RESP3 entry show, read in order.
pub open spec fn read_attributes(with_document: bool, pairs: Seq<(Reply, Reply)>) -> Result<
    (Seq<char>, Found),
    Fault,
>
    decreases pairs.len(),
{
    if pairs.len() == 0 {
        Ok((seq![], nothing_found()))
    } else {
        match read_attributes(with_document, pairs.drop_last()) {
            Ok(so_far) => read_attribute(so_far, with_document, pairs.last()),
            Err(fault) => Err(fault),
        }
    }
}

/// What a RESP3 entry says. An entry that is no map is no hit.
pub open spec fn resp3_entry(with_document: bool, entry: Reply) -> Result<Option<HitView>, Fault> {
    match entry {
        Reply::Pairs(pairs) => match read_attributes(with_document, pairs@) {
            Ok((id, Found { distance, document })) => Ok(
                Some(HitView { distance, id, document }),
            ),
            Err(fault) => Err(fault),
        },
        _ => Ok(None),
    }
}

/// What several RESP3 entries say, one by one.
pub open spec fn resp3_entries(with_document: bool, entries: Seq<Reply>) -> Seq<
    Result<Option<HitView>, Fault>,
> {
    entries.map_values(|entry: Reply| resp3_entry(with_document, entry))
}

/// What a RESP3 reply says. One without results stands for no hits.
pub open spec fn resp3_outcome(with_document: bool, pairs: Seq<(Reply, Reply)>) -> Result<
    Seq<HitView>,
    Fault,
> {
    match results_of(pairs) {
        Some(entries) => gather(resp3_entries(with_document, entries)),
        None => Ok(seq![]),
    }
}

/// What a reply to `FT.SEARCH` says, in either form.
pub open spec fn search_outcome(with_document: bool, response: Reply) -> Result<
    Seq<HitView>,
    Fault,
> {
    match response {
        Reply::Pairs(pairs) => resp3_outcome(with_document, pairs@),
        Reply::Array(items) => resp2_outcome(with_document, items@),
        _ => Err(Fault::InvalidFormat),
    }
}

/// What the result of reading a reply says.
pub open spec fn outcome_view(result: Result<Vec<Hit>, ResponseError>) -> Result<
    Seq<HitView>,
    Fault,
> {
    match result {
        Ok(hits) => Ok(hits_view(hits@)),
        Err(error) => Err(error@),
    }
}

/// What the result of reading a score says.
pub open spec fn distance_view(result: Result<u64, ResponseError>) -> Result<u64, Fault> {
    match result {
        Ok(distance) => Ok(distance),
        Err(error) => Err(error@),
    }
}

/// Reads the raw distance from a score value.
pub fn extract_distance<'a>(value: &'a Reply) -> (distance: Result<u64, ResponseError<'a>>)
    ensures
        distance_view(distance) == distance_of(*value),
{
    let number = match value {
        Reply::Double { bits, text: _ } => {
            return Ok(*bits);
        },
        Reply::BulkString { bytes: _, number } => number,
        Reply::SimpleString { text: _, number } => number,
        Reply::VerbatimString { text: _, number } => number,
        _ => {
            return Err(ResponseError::UnexpectedScore(value));
        },
    };
    match number {
        Ok(bits) => Ok(*bits),
        Err(message) => Err(ResponseError::UnparsableScore(message)),
    }
}

/// A fault in the first fields is a fault in all of them.
proof fn fault_in_first_fields(
    found: Found,
    with_document: bool,
    fields: Seq<(Reply, Reply)>,
    n: int,
)
    requires
        0 <= n <= fields.len(),
    ensures
        read_fields(found, with_document, fields.take(n)) is Err ==> read_fields(
            found,
            with_document,
            fields,
        ) == read_fields(found, with_document, fields.take(n)),
    decreases fields.len() - n,
{
    if n == fields.len() {
        assert(fields.take(n) =~= fields);
    } else {
        fault_in_first_fields(found, with_document, fields, n + 1);
        assert(fields.take(n + 1).drop_last() =~= fields.take(n));
    }
}

/// A fault in the first pairs of a RESP3 entry is a fault in all of them.
proof fn fault_in_first_attributes(with_document: bool, pairs: Seq<(Reply, Reply)>, n: int)
    requires
        0 <= n <= pairs.len(),
    ensures
        read_attributes(with_document, pairs.take(n)) is Err ==> read_attributes(
            with_document,
            pairs,
        ) == read_attributes(with_document, pairs.take(n)),
    decreases pairs.len() - n,
{
    if n == pairs.len() {
        assert(pairs.take(n) =~= pairs);
    } else {
        fault_in_first_attributes(with_document, pairs, n + 1);
        assert(pairs.take(n + 1).drop_last() =~= pairs.take(n));
    }
}

/// A fault among the first entries is a fault of them all.
proof fn fault_in_first_entries(entries: Seq<Result<Option<HitView>, Fault>>, n: int)
    requires
        0 <= n <= entries.len(),
    ensures
        gather(entries.take(n)) is Err ==> gather(entries) == gather(entries.take(n)),
    decreases entries.len() - n,
{
    if n == entries.len() {
        assert(entries.take(n) =~= entries);
    } else {
        fault_in_first_entries(entries, n + 1);
        assert(entries.take(n + 1).drop_last() =~= entries.take(n));
    }
}

/// Whether reading fields into `distance` and `document` went as `outcome` says.
spec fn read_as(
    result: Result<(), ResponseError>,
    distance: u64,
    document: Seq<char>,
    outcome: Result<Found, Fault>,
) -> bool {
    match (result, outcome) {
        (Ok(()), Ok(found)) => found == (Found { distance, document }),
        (Err(error), Err(fault)) => error@ == fault,
        _ => false,
    }
}

/// Reads one field of a document into what is known of it.
fn take_field<'a>(
    name: &Reply,
    value: &'a Reply,
    with_document: bool,
    distance: &mut u64,
    document: &mut String,
) -> (result: Result<(), ResponseError<'a>>)
    ensures
        read_as(
            result,
            *final(distance),
            final(document)@,
            read_field(
                Found { distance: *old(distance), document: old(document)@ },
                with_document,
                (*name, *value),
            ),
        ),
{
    if let Some(name) = extract_string(name) {
        if same_text(name.as_str(), "__vector_score") {
            match extract_distance(value) {
                Ok(found) => {
                    *distance = found;
                },
                Err(error) => {
                    return Err(error);
                },
            }
        } else if with_document && same_text(name.as_str(), "document") {
            if let Some(found) = extract_string(value) {
                *document = found;
            }
        }
    }
    Ok(())
}

/// Reads the fields of a RESP2 entry, names and values by turns.
fn take_flat_fields<'a>(
    fields: &'a Vec<Reply>,
    with_document: bool,
    distance: &mut u64,
    document: &mut String,
) -> (result: Result<(), ResponseError<'a>>)
    ensures
        read_as(
            result,
            *final(distance),
            final(document)@,
            read_fields(
                Found { distance: *old(distance), document: old(document)@ },
                with_document,
                in_pairs(fields@),
            ),
        ),
{
    let ghost start = Found { distance: *distance, document: document@ };
    let ghost pairs = in_pairs(fields@);
    let len = fields.len();
    let size = len / 2;
    for i in 0..size
        invariant
            len == fields@.len(),
            size == len / 2,
            pairs == in_pairs(fields@),
            start == (Found { distance: *old(distance), document: old(document)@ }),
            read_fields(start, with_document, pairs.take(i as int)) == Ok::<_, Fault>(
                Found { distance: *distance, document: document@ },
            ),
    {
        proof {
            assert(pairs.take(i + 1).drop_last() =~= pairs.take(i as int));
            assert(pairs.take(i + 1).last() == (fields@[2 * i], fields@[2 * i + 1]));
            fault_in_first_fields(start, with_document, pairs, i + 1);
        }
        if let Err(error) = take_field(
            &fields[2 * i],
            &fields[2 * i + 1],
            with_document,
            distance,
            document,
        ) {
            return Err(error);
        }
    }
    assert(pairs.take(size as int) =~= pairs);
    Ok(())
}

/// Reads the fields of a RESP3 entry.
fn take_fields<'a>(
    fields: &'a Vec<(Reply, Reply)>,
    with_document: bool,
    distance: &mut u64,
    document: &mut String,
) -> (result: Result<(), ResponseError<'a>>)
    ensures
        read_as(
            result,
            *final(distance),
            final(document)@,
            read_fields(
                Found { distance: *old(distance), document: old(document)@ },
                with_document,
                fields@,
            ),
        ),
{
    let ghost start = Found { distance: *distance, document: document@ };
    for i in 0..fields.len()
        invariant
            start == (Found { distance: *old(distance), document: old(document)@ }),
            read_fields(start, with_document, fields@.take(i as int)) == Ok::<_, Fault>(
                Found { distance: *distance, document: document@ },
            ),
    {
        proof {
            assert(fields@.take(i + 1).drop_last() =~= fields@.take(i as int));
            fault_in_first_fields(start, with_document, fields@, i + 1);
        }
        if let Err(error) = take_field(
            &fields[i].0,
            &fields[i].1,
            with_document,
            distance,
            document,
        ) {
            return Err(error);
        }
    }
    assert(fields@.take(fields@.len() as int) =~= fields@);
    Ok(())
}

/// What the result of reading an entry says.
pub open spec fn entry_view(result: Result<Option<Hit>, ResponseError>) -> Result<Option<HitView>, Fault> {
    match result {
        Ok(Some(hit)) => Ok(Some(hit@)),
        Ok(None) => Ok(None),
        Err(error) => Err(error@),
    }
}

/// Reads a RESP2 entry.
pub(crate) fn take_resp2_entry<'a>(key: &Reply, value: &'a Reply, with_document: bool) -> (result: Result<
    Option<Hit>,
    ResponseError<'a>,
>)
    ensures
        entry_view(result) == resp2_entry(with_document, (*key, *value)),
{
    let id = match extract_string(key) {
        Some(id) => id,
        None => {
            return Ok(None);
        },
    };
    let fields = match value {
        Reply::Array(fields) => fields,
        _ => {
            return Ok(None);
        },
    };
    let mut distance: u64 = NO_DISTANCE;
    let mut document = String::new();
    if let Err(error) = take_flat_fields(fields, with_document, &mut distance, &mut document) {
        return Err(error);
    }
    Ok(Some(Hit { distance, id, document }))
}

/// Reads a RESP3 entry.
pub(crate) fn take_resp3_entry<'a>(entry: &'a Reply, with_document: bool) -> (result: Result<
    Option<Hit>,
    ResponseError<'a>,
>)
    ensures
        entry_view(result) == resp3_entry(with_document, *entry),
{
    let pairs = match entry {
        Reply::Pairs(pairs) => pairs,
        _ => {
            return Ok(None);
        },
    };
    let mut id = String::new();
    let mut distance: u64 = NO_DISTANCE;
    let mut document = String::new();
    for i in 0..pairs.len()
        invariant
            *entry == Reply::Pairs(*pairs),
            read_attributes(with_document, pairs@.take(i as int)) == Ok::<_, Fault>(
                (id@, Found { distance, document: document@ }),
            ),
    {
        proof {
            assert(pairs@.take(i + 1).drop_last() =~= pairs@.take(i as int));
            fault_in_first_attributes(with_document, pairs@, i + 1);
            reveal_strlit("id");
            reveal_strlit("extra_attributes");
        }
        if let Some(name) = extract_string(&pairs[i].0) {
            if same_text(name.as_str(), "id") {
                if let Some(found) = extract_string(&pairs[i].1) {
                    id = found;
                }
            } else if same_text(name.as_str(), "extra_attributes") {
                if let Reply::Pairs(fields) = &pairs[i].1 {
                    if let Err(error) = take_fields(
                        fields,
                        with_document,
                        &mut distance,
                        &mut document,
                    ) {
                        return Err(error);
                    }
                }
            }
        }
    }
    assert(pairs@.take(pairs@.len() as int) =~= pairs@);
    Ok(Some(Hit { distance, id, document }))
}

/// Parses the RESP2 flat-array reply.
pub fn parse_resp2_array<'a>(items: &'a Vec<Reply>, with_document: bool) -> (result: Result<
    Vec<Hit>,
    ResponseError<'a>,
>)
    ensures
        outcome_view(result) == resp2_outcome(with_document, items@),
{
    let mut hits: Vec<Hit> = Vec::new();
    assert(hits_view(hits@) =~= seq![]);
    if items.len() == 0 {
        return Err(ResponseError::MissingCount);
    }
    match &items[0] {
        Reply::Int(count) => {
            if *count == 0 {
                return Ok(hits);
            }
        },
        _ => {
            return Err(ResponseError::MissingCount);
        },
    }
    let ghost pairs = in_pairs(items@.skip(1));
    let ghost entries = resp2_entries(with_document, pairs);
    let len = items.len();
    let size = (len - 1) / 2;
    for i in 0..size
        invariant
            0 < len == items@.len(),
            size == (len - 1) / 2,
            pairs == in_pairs(items@.skip(1)),
            entries == resp2_entries(with_document, pairs),
            resp2_outcome(with_document, items@) == gather(entries),
            gather(entries.take(i as int)) == Ok::<_, Fault>(hits_view(hits@)),
    {
        proof {
            assert(entries.take(i + 1).drop_last() =~= entries.take(i as int));
            assert(pairs[i as int] == (items@[2 * i + 1], items@[2 * i + 2]));
            assert(entries[i as int] == resp2_entry(with_document, pairs[i as int]));
            fault_in_first_entries(entries, i + 1);
        }
        let ghost before = hits_view(hits@);
        match take_resp2_entry(&items[2 * i + 1], &items[2 * i + 2], with_document) {
            Ok(Some(hit)) => {
                hits.push(hit);
                assert(hits_view(hits@) =~= before.push(hit@));
            },
            Ok(None) => {},
            Err(error) => {
                return Err(error);
            },
        }
    }
    assert(entries.take(size as int) =~= entries);
    Ok(hits)
}

/// The list of results in a RESP3 reply.
pub(crate) fn find_results<'a>(pairs: &'a Vec<(Reply, Reply)>) -> (found: Option<&'a Vec<Reply>>)
    ensures
        match found {
            Some(entries) => results_of(pairs@) == Some(entries@),
            None => results_of(pairs@) is None,
        },
{
    assert(pairs@.skip(0) =~= pairs@);
    for i in 0..pairs.len()
        invariant
            results_of(pairs@) == results_of(pairs@.skip(i as int)),
    {
        assert(pairs@.skip(i as int).skip(1) =~= pairs@.skip(i + 1));
        if let Reply::Array(entries) = &pairs[i].1 {
            if let Some(name) = extract_string(&pairs[i].0) {
                if same_text(name.as_str(), "results") {
                    return Some(entries);
                }
            }
        }
    }
    None
}

/// Parses the RESP3 map-shaped reply.
pub fn parse_resp3_map<'a>(pairs: &'a Vec<(Reply, Reply)>, with_document: bool) -> (result: Result<
    Vec<Hit>,
    ResponseError<'a>,
>)
    ensures
        outcome_view(result) == resp3_outcome(with_document, pairs@),
{
    let mut hits: Vec<Hit> = Vec::new();
    assert(hits_view(hits@) =~= seq![]);
    let items = match find_results(pairs) {
        Some(items) => items,
        None => {
            return Ok(hits);
        },
    };
    let ghost entries = resp3_entries(with_document, items@);
    for i in 0..items.len()
        invariant
            entries == resp3_entries(with_document, items@),
            resp3_outcome(with_document, pairs@) == gather(entries),
            gather(entries.take(i as int)) == Ok::<_, Fault>(hits_view(hits@)),
    {
        proof {
            assert(entries.take(i + 1).drop_last() =~= entries.take(i as int));
            assert(entries[i as int] == resp3_entry(with_document, items@[i as int]));
            fault_in_first_entries(entries, i + 1);
        }
        let ghost before = hits_view(hits@);
        match take_resp3_entry(&items[i], with_document) {
            Ok(Some(hit)) => {
                hits.push(hit);
                assert(hits_view(hits@) =~= before.push(hit@));
            },
            Ok(None) => {},
            Err(error) => {
                return Err(error);
            },
        }
    }
    assert(entries.take(items@.len() as int) =~= entries);
    Ok(hits)
}

/// Parses a reply to `FT.SEARCH` in either form, with or without documents.
pub fn parse_response_generic<'a>(response: &'a Reply, with_document: bool) -> (result: Result<
    Vec<Hit>,
    ResponseError<'a>,
>)
    ensures
        outcome_view(result) == search_outcome(with_document, *response),
{
    match response {
        Reply::Pairs(pairs) => parse_resp3_map(pairs, with_document),
        Reply::Array(items) => parse_resp2_array(items, with_document),
        _ => Err(ResponseError::InvalidFormat),
    }
}

} // verus!
