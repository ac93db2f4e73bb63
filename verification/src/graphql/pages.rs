//! Pages of a list, and years of albums.

use vstd::prelude::*;
use vstd::utf8::is_ascii_chars;

use crate::rows::AlbumRow;
use crate::text::{
    all_digits, ascii_prefix_is_bytes, byte_prefix, byte_prefixes_begin_the_text, cut_bytes,
    decimal, decimal_reads_back, digits_value, is_digit, opt_str, opt_text,
    other_texts_are_no_numbers, read_i32, read_unsigned, signed_value, unsigned_value,
};
use crate::tui::screen::min_int;

verus! {

/// How many items a page has when the client does not say.
pub const DEFAULT_PAGE: usize = 50;

/// The most items a page has, so that no client gets the library in one response.
pub const MAX_PAGE: usize = 500;

/// A page of a list: each item with its cursor, which is its place in the list.
#[derive(Debug)]
pub struct Conn<T> {
    pub has_previous_page: bool,
    pub has_next_page: bool,
    pub edges: Vec<(usize, T)>,
}

/// How many items a page has: what was asked, not below zero, at most the ceiling.
pub open spec fn size_of_page(first: Option<i32>) -> int {
    match first {
        Some(f) => if f < 0 {
            0
        } else {
            min_int(f as int, MAX_PAGE as int)
        },
        None => DEFAULT_PAGE as int,
    }
}

/// How many items a page has.
pub fn page_size(first: Option<i32>) -> (r: usize)
    ensures
        r == size_of_page(first),
        r <= MAX_PAGE,
{
    match first {
        Some(f) => if f < 0 {
            0
        } else if f as usize > MAX_PAGE {
            MAX_PAGE
        } else {
            f as usize
        },
        None => DEFAULT_PAGE,
    }
}

/// The place of the first item after a cursor; a cursor that is no number counts for
/// none.
pub open spec fn offset_after(after: Option<Seq<char>>) -> int {
    match after {
        Some(c) => match unsigned_value(c, usize::MAX as nat) {
            Some(i) => min_int(i as int + 1, usize::MAX as int),
            None => 0,
        },
        None => 0,
    }
}

/// The place of the first item after a cursor.
pub fn page_offset(after: Option<&str>) -> (r: usize)
    ensures
        r == offset_after(opt_str(after)),
{
    match after {
        Some(c) => match read_unsigned(c, usize::MAX as u64) {
            Some(i) => if i == usize::MAX as u64 {
                usize::MAX
            } else {
                i as usize + 1
            },
            None => 0,
        },
        None => 0,
    }
}

/// The items from one place to another, each with its place.
pub open spec fn edges_of<T>(items: Seq<T>, start: int, end: int) -> Seq<(usize, T)> {
    Seq::new((end - start) as nat, |i: int| ((start + i) as usize, items[start + i]))
}

/// Whether a page shows the items from one place to another.
pub open spec fn shows<T>(conn: Conn<T>, items: Seq<T>, start: int, end: int) -> bool {
    &&& conn.edges@ == edges_of(items, start, end)
    &&& conn.has_previous_page == (start > 0)
    &&& conn.has_next_page == (end < items.len())
}

/// Where a page starts in a list of some length.
pub open spec fn page_start(after: Option<Seq<char>>, total: int) -> int {
    min_int(offset_after(after), total)
}

/// Where a page ends in a list of some length.
pub open spec fn page_end(after: Option<Seq<char>>, first: Option<i32>, total: int) -> int {
    min_int(page_start(after, total) + size_of_page(first), total)
}

/// Puts its place before each item, counted from `offset`.
fn numbered_from<T>(items: Vec<T>, offset: usize) -> (r: Vec<(usize, T)>)
    requires
        offset + items@.len() <= usize::MAX,
    ensures
        r@ == Seq::new(items@.len(), |i: int| ((offset + i) as usize, items@[i])),
{
    let ghost all = items@;
    let n: usize = items.len();
    let mut out: Vec<(usize, T)> = Vec::new();
    let mut place: usize = offset;
    for item in it: items
        invariant
            it.seq() == all,
            n == all.len(),
            offset + n <= usize::MAX,
            place == offset + it.index(),
            out@ == Seq::new(it.index() as nat, |i: int| ((offset + i) as usize, all[i])),
    {
        out.push((place, item));
        assert(out@ =~= Seq::new(
            (it.index() + 1) as nat,
            |i: int| ((offset + i) as usize, all[i]),
        ));
        if place < usize::MAX {
            place = place + 1;
        }
    }
    out
}

/// A page of a list.
pub fn paginate<T>(items: Vec<T>, after: Option<&str>, first: Option<i32>) -> (r: Conn<T>)
    ensures
        shows(
            r,
            items@,
            page_start(opt_str(after), items@.len() as int),
            page_end(opt_str(after), first, items@.len() as int),
        ),
        r.edges@.len() <= MAX_PAGE,
{
    let ghost all = items@;
    let total: usize = items.len();
    let offset = page_offset(after);
    let start: usize = if offset < total {
        offset
    } else {
        total
    };
    let size = page_size(first);
    let end: usize = if size < total - start {
        start + size
    } else {
        total
    };
    let mut rest = items;
    rest.truncate(end);
    let page = rest.split_off(start);
    assert(page@ =~= all.subrange(start as int, end as int));
    let edges = numbered_from(page, start);
    assert(edges@ =~= edges_of(all, start as int, end as int));
    Conn { has_previous_page: start > 0, has_next_page: end < total, edges }
}

/// A page that was read as a window: `rows` from place `offset` on, where a row beyond
/// `limit` tells that there is a next page.
pub fn paginate_window<T>(rows: Vec<T>, offset: usize, limit: usize) -> (r: Conn<T>)
    requires
        offset + min_int(rows@.len() as int, limit as int) <= usize::MAX,
    ensures
        r.edges@ == Seq::new(
            min_int(rows@.len() as int, limit as int) as nat,
            |i: int| ((offset + i) as usize, rows@[i]),
        ),
        r.has_previous_page == (offset > 0),
        r.has_next_page == (rows@.len() > limit),
{
    let ghost all = rows@;
    let has_next = rows.len() > limit;
    let mut rest = rows;
    rest.truncate(limit);
    let edges = numbered_from(rest, offset);
    assert(edges@ =~= Seq::new(
        min_int(all.len() as int, limit as int) as nat,
        |i: int| ((offset + i) as usize, all[i]),
    ));
    Conn { has_previous_page: offset > 0, has_next_page: has_next, edges }
}

/// The cursor of the last item of a page leads to the item behind it, so that pages
/// joined by their cursors neither repeat nor skip anything.
pub proof fn cursors_lead_on(after: Option<Seq<char>>, first: Option<i32>, total: int)
    requires
        0 <= total <= usize::MAX,
        page_start(after, total) < page_end(after, first, total),
    ensures
        page_start(
            Some(decimal((page_end(after, first, total) - 1) as nat)),
            total,
        ) == page_end(after, first, total),
{
    let n = (page_end(after, first, total) - 1) as nat;
    let text = decimal(n);
    decimal_reads_back(n);
    assert(all_digits(text));
    assert(text[0] != '+');
}

/// What pages of one size show, read one after the other from a place.
pub open spec fn walked<T>(items: Seq<T>, start: int, first: Option<i32>) -> Seq<T>
    decreases items.len() - start,
{
    let end = min_int(start + size_of_page(first), items.len() as int);
    if start < 0 || end <= start {
        Seq::empty()
    } else {
        items.subrange(start, end) + walked(items, end, first)
    }
}

proof fn walking_covers_the_rest<T>(items: Seq<T>, start: int, first: Option<i32>)
    requires
        0 <= start <= items.len(),
        size_of_page(first) > 0,
    ensures
        walked(items, start, first) == items.skip(start),
    decreases items.len() - start,
{
    let end = min_int(start + size_of_page(first), items.len() as int);
    if start < end {
        walking_covers_the_rest(items, end, first);
    }
    assert(walked(items, start, first) =~= items.skip(start));
}

/// Pages read one after the other show the whole list, each item once and in order.
pub proof fn pages_cover_the_list<T>(items: Seq<T>, first: Option<i32>)
    requires
        size_of_page(first) > 0,
    ensures
        walked(items, 0, first) == items,
{
    walking_covers_the_rest(items, 0, first);
    assert(items.skip(0) =~= items);
}

/// A window with one row to spare makes the same page as the whole list does.
pub proof fn windows_agree_with_lists<T>(items: Seq<T>, offset: int, limit: int)
    requires
        0 <= offset <= items.len() <= usize::MAX,
        0 <= limit,
    ensures
        ({
            let end = min_int(offset + limit, items.len() as int);
            let rows = items.subrange(offset, min_int(offset + limit + 1, items.len() as int));
            &&& edges_of(items, offset, end) == Seq::new(
                min_int(rows.len() as int, limit) as nat,
                |i: int| ((offset + i) as usize, rows[i]),
            )
            &&& (end < items.len()) == (rows.len() > limit)
        }),
{
    let end = min_int(offset + limit, items.len() as int);
    let rows = items.subrange(offset, min_int(offset + limit + 1, items.len() as int));
    assert(edges_of(items, offset, end) =~= Seq::new(
        min_int(rows.len() as int, limit) as nat,
        |i: int| ((offset + i) as usize, rows[i]),
    ));
}

// ---------------------------------------------------------------------------
// Years
// ---------------------------------------------------------------------------

/// The year that a date begins with: its first four bytes, read as a number.
pub open spec fn year_of_date(date: Seq<char>) -> Option<int> {
    match byte_prefix(date, 4) {
        Some(y) => signed_value(y, i32::MIN as int, i32::MAX as int),
        None => None,
    }
}

/// The year that a date begins with.
pub fn extract_year(date: &str) -> (r: Option<i32>)
    ensures
        match r {
            Some(y) => year_of_date(date@) == Some(y as int),
            None => year_of_date(date@) is None,
        },
{
    match cut_bytes(date, 4) {
        Some(y) => read_i32(y.as_str()),
        None => None,
    }
}

/// The year of an album.
pub open spec fn year_of(album: AlbumRow) -> Option<int> {
    match opt_text(album.date) {
        Some(d) => year_of_date(d),
        None => None,
    }
}

/// The year of an album.
pub fn album_year(album: &AlbumRow) -> (r: Option<i32>)
    ensures
        match r {
            Some(y) => year_of(*album) == Some(y as int),
            None => year_of(*album) is None,
        },
{
    match &album.date {
        Some(d) => extract_year(d.as_str()),
        None => None,
    }
}

/// A page holds the items behind the cursor, each under its number, as many as are asked for
/// and left: no more than the limit, the usual number where none is given.
pub proof fn pages_hold_what_follows<T>(
    conn: Conn<T>,
    items: Seq<T>,
    after: Option<nat>,
    first: Option<i32>,
)
    requires
        items.len() <= usize::MAX,
        after is Some ==> after->0 < usize::MAX,
        ({
            let cursor = match after {
                Some(n) => Some(decimal(n)),
                None => None,
            };
            let total = items.len() as int;
            shows(conn, items, page_start(cursor, total), page_end(cursor, first, total))
        }),
    ensures
        ({
            let asked: int = match first {
                Some(f) => if f < 0 {
                    0
                } else if f > 500 {
                    500
                } else {
                    f as int
                },
                None => 50,
            };
            let skipped: int = match after {
                Some(n) => n as int + 1,
                None => 0,
            };
            let left: int = if skipped < items.len() {
                items.len() - skipped
            } else {
                0
            };
            &&& conn.edges@.len() <= asked
            &&& conn.edges@.len() <= left
            &&& conn.edges@.len() == asked || conn.edges@.len() == left
            &&& forall|i: int|
                0 <= i < conn.edges@.len() ==> (#[trigger] conn.edges@[i]).0 == skipped + i
                    && conn.edges@[i].1 == items[skipped + i]
            &&& conn.has_next_page <==> left > conn.edges@.len()
            &&& conn.has_previous_page <==> skipped > 0 && items.len() > 0
        }),
{
    if let Some(n) = after {
        decimal_reads_back(n);
        assert(decimal(n)[0] != '+') by {
            assert(is_digit(decimal(n)[0]));
        }
    }
}

/// A cursor that is no number is passed over.
pub proof fn bad_cursors_are_ignored(cursor: Seq<char>, total: int, k: int)
    requires
        0 <= total,
        0 <= k < cursor.len(),
        !('0' <= cursor[k] <= '9'),
        k > 0 || cursor[0] != '+',
    ensures
        page_start(Some(cursor), total) == 0,
        page_start(Some(Seq::empty()), total) == 0,
{
    assert(!is_digit(cursor[k]));
    if cursor[0] == '+' {
        assert(cursor.skip(1)[k - 1] == cursor[k]);
    }
}

/// The year of a date is what its first four digits say.
pub proof fn years_are_read_from_dates(date: Seq<char>)
    requires
        date.len() >= 4,
        forall|i: int| 0 <= i < 4 ==> '0' <= #[trigger] date[i] <= '9',
    ensures
        year_of_date(date) == Some(
            1000 * (date[0] as int - 48) + 100 * (date[1] as int - 48) + 10 * (date[2] as int - 48)
                + (date[3] as int - 48),
        ),
{
    let y = date.take(4);
    ascii_prefix_is_bytes(date, 4);
    assert(all_digits(y));
    reveal_with_fuel(digits_value, 5);
    assert(y.drop_last().drop_last().drop_last().drop_last() =~= Seq::empty());
    assert(y.drop_last().drop_last().drop_last() =~= date.take(1));
    assert(y.drop_last().drop_last() =~= date.take(2));
    assert(y.drop_last() =~= date.take(3));
    assert(!(y[0] == '+' || y[0] == '-'));
}

/// A date whose first four characters are not all digits tells no year, nor does one that is
/// shorter.
pub proof fn other_dates_tell_no_year(date: Seq<char>, k: int)
    requires
        is_ascii_chars(date),
    ensures
        date.len() < 4 ==> year_of_date(date) is None,
        date.len() >= 4 && 0 < k < 4 && !('0' <= date[k] <= '9') ==> year_of_date(date) is None,
{
    if date.len() < 4 {
        byte_prefixes_begin_the_text(date, 4);
        if byte_prefix(date, 4) is Some {
            let p = byte_prefix(date, 4)->0;
            assert forall|i: int| 0 <= i < p.len() implies '\0' <= #[trigger] p[i]
                <= '\u{7f}' by {
                assert(date.take(p.len() as int)[i] == date[i]);
            }
            assert(p.take(p.len() as int) =~= p);
            ascii_prefix_is_bytes(p, p.len());
            byte_prefixes_begin_the_text(p, p.len());
        }
    } else if 0 < k < 4 && !('0' <= date[k] <= '9') {
        assert forall|i: int| 0 <= i < 4 implies '\0' <= #[trigger] date.take(4)[i]
            <= '\u{7f}' by {
            assert(date.take(4)[i] == date[i]);
        }
        ascii_prefix_is_bytes(date, 4);
        other_texts_are_no_numbers(date.take(4), k, i32::MIN as int, i32::MAX as int);
    }
}

} // verus!
