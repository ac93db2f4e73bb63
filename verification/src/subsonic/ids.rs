//! Ids as clients see them: numbers, with the kind of thing in front where one
//! number could mean several.

use vstd::prelude::*;

use crate::subsonic::errors::{SubsonicError, SubsonicErrorCode};
use crate::text::{
    begins_with, decimal_int, decimal_int_reads_back, is_digit, opt_str, push_decimal_int,
    read_i64, signed_value, strip_prefix,
};

verus! {

/// What an id names.
#[derive(Clone, Copy, Debug, PartialEq, Eq, Structural)]
pub enum EntityKind {
    Artist,
    Album,
    Song,
}

/// What stands in front of an id of a kind.
pub open spec fn prefix_of(kind: EntityKind) -> Seq<char> {
    match kind {
        EntityKind::Artist => "ar-"@,
        EntityKind::Album => "al-"@,
        EntityKind::Song => "mf-"@,
    }
}

/// An id of a kind.
pub open spec fn typed_id(kind: EntityKind, id: int) -> Seq<char> {
    prefix_of(kind) + decimal_int(id)
}

/// The number that a text writes.
pub open spec fn row_id(s: Seq<char>) -> Option<int> {
    signed_value(s, i64::MIN as int, i64::MAX as int)
}

/// What an id says: a number, and a kind if one stands in front of it.
pub open spec fn entity_of(raw: Seq<char>) -> Option<(Option<EntityKind>, int)> {
    let (kind, digits) = if begins_with(raw, "ar-"@) {
        (Some(EntityKind::Artist), raw.skip(3))
    } else if begins_with(raw, "al-"@) {
        (Some(EntityKind::Album), raw.skip(3))
    } else if begins_with(raw, "mf-"@) {
        (Some(EntityKind::Song), raw.skip(3))
    } else {
        (None, raw)
    };
    match row_id(digits) {
        Some(id) => Some((kind, id)),
        None => None,
    }
}

/// An id that was read, as values.
pub open spec fn entity_view(e: Option<(Option<EntityKind>, i64)>) -> Option<
    (Option<EntityKind>, int),
> {
    match e {
        Some((kind, id)) => Some((kind, id as int)),
        None => None,
    }
}

/// Writes an id of a kind.
pub fn entity_id(kind: EntityKind, id: i64) -> (r: String)
    ensures
        r@ == typed_id(kind, id as int),
{
    let mut s: String = match kind {
        EntityKind::Artist => "ar-".to_owned(),
        EntityKind::Album => "al-".to_owned(),
        EntityKind::Song => "mf-".to_owned(),
    };
    push_decimal_int(&mut s, id);
    s
}

/// Reads `ar-3`, `al-3`, `mf-3` or a bare `3`.
pub fn parse_entity_id(raw: &str) -> (r: Option<(Option<EntityKind>, i64)>)
    ensures
        entity_view(r) == entity_of(raw@),
{
    proof {
        reveal_strlit("ar-");
        reveal_strlit("al-");
        reveal_strlit("mf-");
    }
    if let Some(rest) = strip_prefix(raw, "ar-") {
        return match read_i64(rest.as_str()) {
            Some(id) => Some((Some(EntityKind::Artist), id)),
            None => None,
        };
    }
    if let Some(rest) = strip_prefix(raw, "al-") {
        return match read_i64(rest.as_str()) {
            Some(id) => Some((Some(EntityKind::Album), id)),
            None => None,
        };
    }
    if let Some(rest) = strip_prefix(raw, "mf-") {
        return match read_i64(rest.as_str()) {
            Some(id) => Some((Some(EntityKind::Song), id)),
            None => None,
        };
    }
    match read_i64(raw) {
        Some(id) => Some((None, id)),
        None => None,
    }
}

/// Whether a failure says that the `id` parameter is missing or cannot be read.
pub open spec fn id_error(e: SubsonicError, raw: Option<Seq<char>>) -> bool {
    match raw {
        None => e.says(
            SubsonicErrorCode::MissingParameter,
            "Required parameter '"@ + "id"@ + "' is missing"@,
        ),
        Some(_) => e.says(
            SubsonicErrorCode::MissingParameter,
            "Invalid value for parameter '"@ + "id"@ + "'"@,
        ),
    }
}

/// The `id` parameter with its kind.
pub fn require_entity(raw: Option<&str>) -> (r: Result<(Option<EntityKind>, i64), SubsonicError>)
    ensures
        match r {
            Ok((kind, id)) => raw is Some && entity_of(raw->0@) == Some((kind, id as int)),
            Err(e) => (raw is None || entity_of(raw->0@) is None) && id_error(e, opt_str(raw)),
        },
{
    match raw {
        None => Err(SubsonicError::missing_param("id")),
        Some(text) => match parse_entity_id(text) {
            Some(e) => Ok(e),
            None => Err(SubsonicError::bad_param("id")),
        },
    }
}

/// The `id` parameter as a number, whatever kind stands in front of it.
pub fn require_id(raw: Option<&str>) -> (r: Result<i64, SubsonicError>)
    ensures
        match r {
            Ok(id) => raw is Some && match entity_of(raw->0@) {
                Some((_, n)) => n == id,
                None => false,
            },
            Err(e) => (raw is None || entity_of(raw->0@) is None) && id_error(e, opt_str(raw)),
        },
{
    match require_entity(raw) {
        Ok((_, id)) => Ok(id),
        Err(e) => Err(e),
    }
}

/// Every id of a kind is read back as that kind and that number, so that the same
/// number never names another kind of thing.
pub proof fn typed_ids_read_back(kind: EntityKind, id: i64)
    ensures
        entity_of(typed_id(kind, id as int)) == Some((Some(kind), id as int)),
{
    reveal_strlit("ar-");
    reveal_strlit("al-");
    reveal_strlit("mf-");
    let s = typed_id(kind, id as int);
    decimal_int_reads_back(id as int, i64::MIN as int, i64::MAX as int);
    assert(s.skip(3) =~= decimal_int(id as int));
    assert(s[0] == prefix_of(kind)[0] && s[1] == prefix_of(kind)[1]);
    assert(s.take(3) =~= prefix_of(kind));
    assert(s.take(3)[0] == s[0] && s.take(3)[1] == s[1]);
}

/// A bare number is read back as that number, without a kind.
pub proof fn bare_ids_read_back(id: i64)
    ensures
        entity_of(decimal_int(id as int)) == Some((None::<EntityKind>, id as int)),
{
    reveal_strlit("ar-");
    reveal_strlit("al-");
    reveal_strlit("mf-");
    let s = decimal_int(id as int);
    decimal_int_reads_back(id as int, i64::MIN as int, i64::MAX as int);
    let n = if id < 0 {
        (-(id as int)) as nat
    } else {
        id as nat
    };
    crate::text::decimal_reads_back(n);
    assert(is_digit(crate::text::decimal(n)[0]));
    if s.len() >= 3 {
        assert(s.take(3)[0] == s[0]);
    }
}

/// An id of an artist, an album or a song begins with the letters of its kind, and goes on
/// with its number.
pub proof fn ids_name_their_kind(id: int)
    ensures
        typed_id(EntityKind::Artist, id) == seq!['a', 'r', '-'] + decimal_int(id),
        typed_id(EntityKind::Album, id) == seq!['a', 'l', '-'] + decimal_int(id),
        typed_id(EntityKind::Song, id) == seq!['m', 'f', '-'] + decimal_int(id),
{
    reveal_strlit("ar-");
    reveal_strlit("al-");
    reveal_strlit("mf-");
    assert("ar-"@ =~= seq!['a', 'r', '-']);
    assert("al-"@ =~= seq!['a', 'l', '-']);
    assert("mf-"@ =~= seq!['m', 'f', '-']);
}

/// What an id says is what it is written as: the number behind the letters of its kind, or
/// behind nothing; anything else is no id.
pub proof fn ids_say_what_is_written(raw: Seq<char>)
    ensures
        match entity_of(raw) {
            Some((Some(kind), id)) => begins_with(raw, prefix_of(kind)) && row_id(
                raw.skip(prefix_of(kind).len() as int),
            ) == Some(id),
            Some((None, id)) => row_id(raw) == Some(id) && !begins_with(raw, "ar-"@)
                && !begins_with(raw, "al-"@) && !begins_with(raw, "mf-"@),
            None => row_id(raw) is None || begins_with(raw, "ar-"@) || begins_with(raw, "al-"@)
                || begins_with(raw, "mf-"@),
        },
{
    reveal_strlit("ar-");
    reveal_strlit("al-");
    reveal_strlit("mf-");
}

/// An id that is missing, and one that cannot be read, are told apart.
pub proof fn bad_ids_are_told(e: SubsonicError, raw: Option<Seq<char>>)
    requires
        id_error(e, raw),
    ensures
        e.code is MissingParameter,
        raw is None ==> e.message@ == "Required parameter '"@ + "id"@ + "' is missing"@,
        raw is Some ==> e.message@ == "Invalid value for parameter '"@ + "id"@ + "'"@,
{
}

} // verus!
