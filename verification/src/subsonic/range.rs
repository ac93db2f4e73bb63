//! `Range` headers and what is streamed in answer to them.

use vstd::prelude::*;

use crate::text::{
    after_prefix, beginnings_stand_in_front, begins_with, chars_of, decimal, find_char, first_index,
    first_index_at, first_index_behind, numbers_are_plain, read_unsigned, string_of, strip_prefix,
    trim, trimmed, unsigned_value,
};
use crate::tui::screen::{min_int, sub0};

verus! {

/// What a `Range` header asks for. One that does not parse is ignored; one that is
/// well formed but outside the file cannot be served.
#[derive(Clone, Copy, Debug, PartialEq, Eq, Structural)]
pub enum RangeRequest {
    Satisfiable { start: u64, end: u64 },
    Unsatisfiable,
    Malformed,
}

/// The number that a text writes.
pub open spec fn offset_of(s: Seq<char>) -> Option<nat> {
    unsigned_value(s, u64::MAX as nat)
}

/// What a header asks of a file: the last bytes (`bytes=-n`), the bytes from a place
/// on (`bytes=n-`), or those between two places, cut at the end of the file.
pub open spec fn range_of(range: Seq<char>, total: nat) -> RangeRequest {
    match after_prefix(range, "bytes="@) {
        None => RangeRequest::Malformed,
        Some(spec) => {
            let dash = first_index(spec, '-');
            if dash >= spec.len() {
                RangeRequest::Malformed
            } else {
                let from = trimmed(spec.take(dash));
                let to = trimmed(spec.skip(dash + 1));
                if from.len() == 0 {
                    match offset_of(to) {
                        None => RangeRequest::Malformed,
                        Some(n) => if total == 0 || n == 0 {
                            RangeRequest::Unsatisfiable
                        } else {
                            RangeRequest::Satisfiable {
                                start: sub0(total as int, n as int) as u64,
                                end: (total - 1) as u64,
                            }
                        },
                    }
                } else {
                    match (offset_of(from), offset_of(to)) {
                        (None, _) => RangeRequest::Malformed,
                        (Some(_), None) if to.len() > 0 => RangeRequest::Malformed,
                        (Some(start), end) => {
                            let last = match end {
                                Some(e) => min_int(e as int, total - 1),
                                None => total - 1,
                            };
                            if start > last {
                                RangeRequest::Unsatisfiable
                            } else {
                                RangeRequest::Satisfiable { start: start as u64, end: last as u64 }
                            }
                        },
                    }
                }
            }
        },
    }
}

/// Reads a `Range` header for a file of some length.
pub fn parse_range(range: &str, total: u64) -> (r: RangeRequest)
    ensures
        r == range_of(range@, total as nat),
{
    let spec = match strip_prefix(range, "bytes=") {
        Some(rest) => rest,
        None => {
            return RangeRequest::Malformed;
        },
    };
    let cs = chars_of(spec.as_str());
    let dash = find_char(&cs, '-');
    if dash == cs.len() {
        return RangeRequest::Malformed;
    }
    assert(cs@.subrange(0, dash as int) =~= spec@.take(dash as int));
    assert(cs@.subrange(dash as int + 1, cs@.len() as int) =~= spec@.skip(dash as int + 1));
    let from = trim(string_of(&cs, 0, dash).as_str());
    let to = trim(string_of(&cs, dash + 1, cs.len()).as_str());
    if from.as_str().is_empty() {
        return match read_unsigned(to.as_str(), u64::MAX) {
            None => RangeRequest::Malformed,
            Some(n) => if total == 0 || n == 0 {
                RangeRequest::Unsatisfiable
            } else {
                RangeRequest::Satisfiable { start: total.saturating_sub(n), end: total - 1 }
            },
        };
    }
    let start: u64 = match read_unsigned(from.as_str(), u64::MAX) {
        Some(n) => n,
        None => {
            return RangeRequest::Malformed;
        },
    };
    let wanted: Option<u64> = read_unsigned(to.as_str(), u64::MAX);
    if wanted.is_none() && !to.as_str().is_empty() {
        return RangeRequest::Malformed;
    }
    if total == 0 {
        return RangeRequest::Unsatisfiable;
    }
    let last: u64 = match wanted {
        Some(e) => if e <= total - 1 {
            e
        } else {
            total - 1
        },
        None => total - 1,
    };
    if start > last {
        RangeRequest::Unsatisfiable
    } else {
        RangeRequest::Satisfiable { start, end: last }
    }
}

/// A range that can be served lies in the file and is not empty.
pub proof fn served_ranges_lie_in_the_file(range: Seq<char>, total: u64)
    ensures
        match range_of(range, total as nat) {
            RangeRequest::Satisfiable { start, end } => start <= end < total,
            _ => true,
        },
{
}

/// Of an empty file nothing can be served by range.
pub proof fn empty_files_serve_no_range(range: Seq<char>)
    ensures
        !(range_of(range, 0) is Satisfiable),
{
}

/// A range from one byte to another is served from the first up to the second or the end of
/// the file, whichever comes first; it cannot be met where it starts behind either.
pub proof fn ranges_are_served_as_asked(start: u64, end: u64, total: u64)
    ensures
        ({
            let asked = "bytes="@ + (decimal(start as nat) + seq!['-'] + decimal(end as nat));
            let last: int = if end < total {
                end as int
            } else {
                total - 1
            };
            range_of(asked, total as nat) == if start <= last {
                RangeRequest::Satisfiable { start, end: last as u64 }
            } else {
                RangeRequest::Unsatisfiable
            }
        }),
{
    let a = decimal(start as nat);
    let b = decimal(end as nat);
    let spec = a + seq!['-'] + b;
    beginnings_stand_in_front("bytes="@ + spec, "bytes="@);
    numbers_are_plain(start as nat);
    numbers_are_plain(end as nat);
    first_index_behind(a, '-', b);
    assert(spec.take(a.len() as int) =~= a);
    assert(spec.skip(a.len() as int + 1) =~= b);
}

/// A range that has no end is served up to the end of the file.
pub proof fn open_ranges_are_served_to_the_end(start: u64, total: u64)
    ensures
        ({
            let asked = "bytes="@ + (decimal(start as nat) + seq!['-'] + Seq::empty());
            range_of(asked, total as nat) == if start < total {
                RangeRequest::Satisfiable { start, end: (total - 1) as u64 }
            } else {
                RangeRequest::Unsatisfiable
            }
        }),
{
    let a = decimal(start as nat);
    let b = Seq::<char>::empty();
    let spec = a + seq!['-'] + b;
    beginnings_stand_in_front("bytes="@ + spec, "bytes="@);
    numbers_are_plain(start as nat);
    first_index_behind(a, '-', b);
    assert(spec.take(a.len() as int) =~= a);
    assert(spec.skip(a.len() as int + 1) =~= b);
    assert(trimmed(b) =~= b);
}

/// A range that has no start is served as the last bytes of the file, as many as are asked
/// for and there.
pub proof fn suffix_ranges_are_served_from_the_end(count: u64, total: u64)
    ensures
        ({
            let asked = "bytes="@ + (Seq::empty() + seq!['-'] + decimal(count as nat));
            range_of(asked, total as nat) == if count > 0 && total > 0 {
                RangeRequest::Satisfiable {
                    start: if count < total {
                        (total - count) as u64
                    } else {
                        0
                    },
                    end: (total - 1) as u64,
                }
            } else {
                RangeRequest::Unsatisfiable
            }
        }),
{
    let a = Seq::<char>::empty();
    let b = decimal(count as nat);
    let spec = a + seq!['-'] + b;
    beginnings_stand_in_front("bytes="@ + spec, "bytes="@);
    numbers_are_plain(count as nat);
    first_index_behind(a, '-', b);
    assert(spec.take(0) =~= a);
    assert(spec.skip(1) =~= b);
    assert(trimmed(a) =~= a);
}

/// A range of another unit, or without a dash, is none.
pub proof fn other_ranges_are_malformed(range: Seq<char>, total: u64)
    requires
        !begins_with(range, "bytes="@) || !range.skip(6).contains('-'),
    ensures
        range_of(range, total as nat) is Malformed,
{
    reveal_strlit("bytes=");
    if begins_with(range, "bytes="@) {
        let spec = range.skip(6);
        first_index_at(spec, '-', spec.len() as int);
    }
}

/// A range whose ends are not both numbers, or missing, is none.
pub proof fn ranges_need_numbers(from: Seq<char>, to: Seq<char>, total: u64)
    requires
        !from.contains('-'),
        trimmed(from).len() > 0 && offset_of(trimmed(from)) is None || trimmed(to).len() > 0
            && offset_of(trimmed(to)) is None || trimmed(from).len() == 0 && trimmed(to).len() == 0,
    ensures
        range_of("bytes="@ + (from + seq!['-'] + to), total as nat) is Malformed,
{
    let spec = from + seq!['-'] + to;
    beginnings_stand_in_front("bytes="@ + spec, "bytes="@);
    first_index_behind(from, '-', to);
    assert(spec.take(from.len() as int) =~= from);
    assert(spec.skip(from.len() as int + 1) =~= to);
}

} // verus!
