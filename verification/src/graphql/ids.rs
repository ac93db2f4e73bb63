//! Identifiers of queue entries and jobs.

use vstd::arithmetic::power::pow;
use vstd::prelude::*;

use crate::player::QueueItemId;
use crate::text::{concat, concat3, hex_digit};

verus! {

/// The digit at one of the 32 places of an identifier, the highest first.
pub open spec fn uuid_digit(n: u128, place: int) -> char {
    hex_digit((n as int / pow(16, (31 - place) as nat)) % 16)
}

/// An identifier as text: 32 hexadecimal digits in groups of 8, 4, 4, 4 and 12.
pub open spec fn uuid_text(n: u128) -> Seq<char> {
    Seq::new(
        36,
        |i: int|
            if i < 8 {
                uuid_digit(n, i)
            } else if i == 8 || i == 13 || i == 18 || i == 23 {
                '-'
            } else if i < 13 {
                uuid_digit(n, i - 1)
            } else if i < 18 {
                uuid_digit(n, i - 2)
            } else if i < 23 {
                uuid_digit(n, i - 3)
            } else {
                uuid_digit(n, i - 4)
            },
    )
}

/// What a reader of identifiers makes of a text: the identifier, or its complaint.
pub uninterp spec fn uuid_parsed(s: Seq<char>) -> Result<u128, Seq<char>>;

/// `uuid::Uuid::from_u128` and its display: the hyphenated text in lower case.
#[verifier::external_body]
fn format_uuid(n: u128) -> (r: String)
    ensures
        r@ == uuid_text(n),
{
    uuid::Uuid::from_u128(n).to_string()
}

/// `uuid::Uuid::parse_str`, with the display of its error: both depend on the text
/// alone, and the hyphenated text of an identifier gives that identifier.
#[verifier::external_body]
fn parse_uuid(s: &str) -> (r: Result<u128, String>)
    ensures
        (match r {
            Ok(n) => Ok(n),
            Err(e) => Err(e@),
        }) == uuid_parsed(s@),
        forall|n: u128| s@ == #[trigger] uuid_text(n) ==> r is Ok && r->Ok_0 == n,
{
    uuid::Uuid::parse_str(s).map(|u| u.as_u128()).map_err(|e| e.to_string())
}

/// `uuid::Uuid::now_v7`: a new identifier, of version 7. It is made of the time and of
/// chance, of which nothing is said here.
#[verifier::external_body]
fn fresh_uuid() -> (n: u128)
    ensures
        uuid_text(n)[14] == '7',
{
    uuid::Uuid::now_v7().as_u128()
}

/// The text of a new identifier.
pub fn new_id() -> (r: String)
    ensures
        exists|n: u128| r@ == #[trigger] uuid_text(n) && r@[14] == '7',
{
    let n: u128 = fresh_uuid();
    format_uuid(n)
}

/// The text of a queue entry's identifier.
pub fn queue_item_text(id: QueueItemId) -> (r: String)
    ensures
        r@ == uuid_text(id.0),
{
    format_uuid(id.0)
}

/// What is said of a text that names no queue entry.
pub open spec fn invalid_id_text(s: Seq<char>, complaint: Seq<char>) -> Seq<char> {
    "invalid queue item ID '"@ + s + "': "@ + complaint
}

/// The outcome of reading an identifier, with the text and the complaint in the failure.
pub fn queue_item_read(s: &str, parsed: Result<u128, String>) -> (r: Result<QueueItemId, String>)
    ensures
        match (parsed, r) {
            (Ok(n), Ok(id)) => id == QueueItemId(n),
            (Err(e), Err(m)) => m@ == invalid_id_text(s@, e@),
            _ => false,
        },
{
    match parsed {
        Ok(n) => Ok(QueueItemId(n)),
        Err(e) => Err(
            concat(concat3("invalid queue item ID '", s, "': ").as_str(), e.as_str()),
        ),
    }
}

/// Reads a queue entry's identifier. The text of an identifier reads back as it.
pub fn parse_queue_item_id(s: &str) -> (r: Result<QueueItemId, String>)
    ensures
        match (uuid_parsed(s@), r) {
            (Ok(n), Ok(id)) => id == QueueItemId(n),
            (Err(e), Err(m)) => m@ == invalid_id_text(s@, e),
            _ => false,
        },
        forall|n: u128| s@ == #[trigger] uuid_text(n) ==> r is Ok && r->Ok_0 == QueueItemId(n),
{
    queue_item_read(s, parse_uuid(s))
}

/// Whether identifiers are what some texts read as.
pub open spec fn all_read(texts: Seq<String>, ids: Seq<QueueItemId>) -> bool {
    &&& ids.len() == texts.len()
    &&& forall|i: int|
        0 <= i < ids.len() ==> uuid_parsed(#[trigger] texts[i]@) == Ok::<u128, Seq<char>>(ids[i].0)
}

/// Reads identifiers; the first that is none is the failure.
pub fn parse_queue_item_ids(texts: &Vec<String>) -> (r: Result<Vec<QueueItemId>, String>)
    ensures
        match r {
            Ok(ids) => all_read(texts@, ids@),
            Err(m) => exists|k: int|
                {
                    &&& 0 <= k < texts@.len()
                    &&& uuid_parsed(#[trigger] texts@[k]@) is Err
                    &&& m@ == invalid_id_text(texts@[k]@, uuid_parsed(texts@[k]@)->Err_0)
                    &&& forall|j: int| 0 <= j < k ==> uuid_parsed(#[trigger] texts@[j]@) is Ok
                },
        },
{
    let mut out: Vec<QueueItemId> = Vec::new();
    let mut i: usize = 0;
    while i < texts.len()
        invariant
            i <= texts@.len(),
            out@.len() == i,
            forall|j: int|
                0 <= j < i ==> uuid_parsed(#[trigger] texts@[j]@) == Ok::<u128, Seq<char>>(
                    out@[j].0,
                ),
        decreases texts@.len() - i,
    {
        match parse_queue_item_id(texts[i].as_str()) {
            Ok(id) => {
                out.push(id);
            },
            Err(m) => {
                assert(uuid_parsed(texts@[i as int]@) is Err);
                return Err(m);
            },
        }
        i = i + 1;
    }
    Ok(out)
}

/// Ids that were read are those of all texts, in their order.
pub proof fn every_id_is_read(list: Seq<String>, ids: Seq<QueueItemId>)
    requires
        all_read(list, ids),
    ensures
        ids.len() == list.len(),
        forall|i: int|
            0 <= i < list.len() ==> uuid_parsed((#[trigger] list[i])@) == Ok::<u128, Seq<char>>(
                ids[i].0,
            ),
{
}

} // verus!
