//! The play queue on screen: grouping by album, scrolling, clicks and rows.

use std::collections::HashSet;

use vstd::prelude::*;

use crate::lists::{filter_contains, take_push};
use crate::paths::{same_components, same_path};
use crate::player::{QueueEntry, QueueEntryStatus};
use crate::text::{
    around_decimal, concat3, decimal, decimal_int, digit_char, ends_with, push_decimal,
    push_decimal_int, same, texts,
};
use crate::tui::keys::{HoverZone, Mode};
use crate::tui::screen::{
    add_span, draw, empty_line, fits, inner, inner_area, line_of, max_int, min_int, piece, plain,
    scene, slot_style, span, span_of, spans, styled, sub0, tint_style, tinted, LineView, Op,
    OpView, Rect, Sides, Slot, Span, SpanView, Style, Tint,
};
use crate::tui::transport::{format_time, time_text};

verus! {

broadcast use crate::lists::group_lists;

// ---------------------------------------------------------------------------
// Display lines
// ---------------------------------------------------------------------------

/// What an entry is grouped by: its album artist and its album.
pub open spec fn album_key(e: QueueEntry) -> (Seq<char>, Seq<char>) {
    (e.album_artist@, e.album@)
}

/// The group of the last entry that has an album.
pub open spec fn last_group(entries: Seq<QueueEntry>) -> Option<(Seq<char>, Seq<char>)>
    decreases entries.len(),
{
    if entries.len() == 0 {
        None
    } else if entries.last().album@.len() > 0 {
        Some(album_key(entries.last()))
    } else {
        last_group(entries.drop_last())
    }
}

/// Whether an album header stands above entry `i`: it has an album, and the last
/// album before it was another.
pub open spec fn has_header(entries: Seq<QueueEntry>, i: int) -> bool {
    entries[i].album@.len() > 0 && last_group(entries.take(i)) != Some(album_key(entries[i]))
}

/// A display line: the entry it belongs to, and whether it is a header.
pub type DisplayLine = (Option<usize>, bool);

/// The lines of a queue: each entry's, with a header before each album group. A
/// header names the first entry of its group.
pub open spec fn display_lines(entries: Seq<QueueEntry>) -> Seq<DisplayLine>
    decreases entries.len(),
{
    if entries.len() == 0 {
        Seq::empty()
    } else {
        let i = entries.len() - 1;
        display_lines(entries.drop_last()) + (if has_header(entries, i) {
            seq![(Some(i as usize), true)]
        } else {
            Seq::empty()
        }) + seq![(Some(i as usize), false)]
    }
}

proof fn display_lines_step(entries: Seq<QueueEntry>, i: int)
    requires
        0 <= i < entries.len(),
    ensures
        display_lines(entries.take(i + 1)) == display_lines(entries.take(i)) + (if has_header(
            entries,
            i,
        ) {
            seq![(Some(i as usize), true)]
        } else {
            Seq::empty()
        }) + seq![(Some(i as usize), false)],
        last_group(entries.take(i + 1)) == if entries[i].album@.len() > 0 {
            Some(album_key(entries[i]))
        } else {
            last_group(entries.take(i))
        },
{
    let next = entries.take(i + 1);
    assert(next.drop_last() =~= entries.take(i));
    assert(next.last() == entries[i]);
    assert(next.take(i) =~= entries.take(i));
}

/// A queue has at least one and at most two display lines for each entry.
pub proof fn display_lines_bounds(entries: Seq<QueueEntry>)
    ensures
        entries.len() <= display_lines(entries).len() <= 2 * entries.len(),
    decreases entries.len(),
{
    if entries.len() > 0 {
        display_lines_bounds(entries.drop_last());
    }
}

/// Every display line belongs to an entry of the queue.
pub proof fn display_lines_belong(entries: Seq<QueueEntry>)
    requires
        entries.len() <= usize::MAX,
    ensures
        forall|l: int|
            0 <= l < display_lines(entries).len() ==> (#[trigger] display_lines(entries)[l]).0
                is Some && display_lines(entries)[l].0->0 < entries.len(),
    decreases entries.len(),
{
    if entries.len() > 0 {
        let before = entries.drop_last();
        display_lines_belong(before);
        assert forall|l: int| 0 <= l < display_lines(entries).len() implies (
        #[trigger] display_lines(entries)[l]).0 is Some && display_lines(entries)[l].0->0
            < entries.len() by {
            if l < display_lines(before).len() {
                assert(display_lines(entries)[l] == display_lines(before)[l]);
            }
        }
    }
}

/// Every entry has exactly one track line: leaving the headers out of the display
/// lines leaves the entries, in order.
pub proof fn each_entry_has_one_line(entries: Seq<QueueEntry>)
    requires
        entries.len() <= usize::MAX,
    ensures
        display_lines(entries).filter(|l: DisplayLine| !l.1) == Seq::new(
            entries.len(),
            |i: int| (Some(i as usize), false),
        ),
    decreases entries.len(),
{
    let track = |l: DisplayLine| !l.1;
    let all = display_lines(entries);
    let expected = Seq::new(entries.len(), |i: int| (Some(i as usize), false));
    reveal(Seq::filter);
    if entries.len() == 0 {
        assert(all.filter(track) =~= expected);
    } else {
        let before = display_lines(entries.drop_last());
        let i = entries.len() - 1;
        each_entry_has_one_line(entries.drop_last());
        assert(all.last() == (Some(i as usize), false));
        if has_header(entries, i) {
            assert(all.drop_last() =~= before.push((Some(i as usize), true)));
            assert(all.drop_last().drop_last() =~= before);
            assert(all.drop_last().filter(track) == before.filter(track));
        } else {
            assert(all.drop_last() =~= before);
        }
        assert(all.filter(track) =~= expected);
    }
}

fn same_group(a: &QueueEntry, b: &QueueEntry) -> (r: bool)
    ensures
        r == (album_key(*a) == album_key(*b)),
{
    same(a.album_artist.as_str(), b.album_artist.as_str()) && same(
        a.album.as_str(),
        b.album.as_str(),
    )
}

/// Whether a header stands above entry `i`, given the last entry before it that
/// has an album.
fn starts_group(entries: &[QueueEntry], i: usize, last: Option<usize>) -> (r: bool)
    requires
        i < entries@.len(),
        match last {
            Some(j) => j < entries@.len() && last_group(entries@.take(i as int)) == Some(
                album_key(entries@[j as int]),
            ),
            None => last_group(entries@.take(i as int)) is None,
        },
    ensures
        r == has_header(entries@, i as int),
{
    if entries[i].album.as_str().is_empty() {
        return false;
    }
    match last {
        Some(j) => !same_group(&entries[i], &entries[j]),
        None => true,
    }
}

/// How many lines the queue takes on screen, headers included.
pub fn display_line_count(entries: &[QueueEntry]) -> (count: usize)
    ensures
        count == display_lines(entries@).len(),
        entries@.len() <= count <= 2 * entries@.len(),
{
    proof {
        display_lines_bounds(entries@);
    }
    let mut count: usize = entries.len();
    let mut last: Option<usize> = None;
    let mut i: usize = 0;
    assert(entries@.take(0) =~= Seq::<QueueEntry>::empty());
    while i < entries.len()
        invariant
            i <= entries@.len(),
            entries@.len() <= display_lines(entries@).len() <= 2 * entries@.len(),
            match last {
                Some(j) => j < entries@.len() && last_group(entries@.take(i as int)) == Some(
                    album_key(entries@[j as int]),
                ),
                None => last_group(entries@.take(i as int)) is None,
            },
            count == display_lines(entries@.take(i as int)).len() + (entries@.len() - i),
        decreases entries@.len() - i,
    {
        proof {
            display_lines_step(entries@, i as int);
        }
        if starts_group(entries, i, last) {
            match count.checked_add(1) {
                Some(more) => count = more,
                // What cannot be counted cannot be held either.
                None => return build_display_lines(entries).len(),
            }
        }
        if !entries[i].album.as_str().is_empty() {
            last = Some(i);
        }
        i = i + 1;
    }
    assert(entries@.take(i as int) =~= entries@);
    count
}

/// The lines of a queue on screen.
pub fn build_display_lines(entries: &[QueueEntry]) -> (lines: Vec<DisplayLine>)
    ensures
        lines@ == display_lines(entries@),
{
    let mut lines: Vec<DisplayLine> = Vec::new();
    let mut last: Option<usize> = None;
    let mut i: usize = 0;
    assert(entries@.take(0) =~= Seq::<QueueEntry>::empty());
    while i < entries.len()
        invariant
            i <= entries@.len(),
            match last {
                Some(j) => j < entries@.len() && last_group(entries@.take(i as int)) == Some(
                    album_key(entries@[j as int]),
                ),
                None => last_group(entries@.take(i as int)) is None,
            },
            lines@ == display_lines(entries@.take(i as int)),
        decreases entries@.len() - i,
    {
        proof {
            display_lines_step(entries@, i as int);
        }
        let ghost before = lines@;
        if starts_group(entries, i, last) {
            lines.push((Some(i), true));
        }
        lines.push((Some(i), false));
        assert(lines@ =~= display_lines(entries@.take(i as int + 1)));
        if !entries[i].album.as_str().is_empty() {
            last = Some(i);
        }
        i = i + 1;
    }
    assert(entries@.take(i as int) =~= entries@);
    lines
}

// ---------------------------------------------------------------------------
// Clicks
// ---------------------------------------------------------------------------

/// The display line that a row of the area shows, its top row holding the frame.
pub open spec fn line_at(area: Rect, scroll: nat, y: u16) -> int {
    scroll + sub0(sub0(y as int, area.y as int), 1)
}

/// The entry whose own line stands at a row.
pub open spec fn entry_at(entries: Seq<QueueEntry>, line: int) -> Option<usize> {
    if 0 <= line < display_lines(entries).len() && !display_lines(entries)[line].1 {
        display_lines(entries)[line].0
    } else {
        None
    }
}

/// The last entry of the run of equally grouped entries from `i` on.
pub open spec fn group_end(entries: Seq<QueueEntry>, i: int) -> int
    decreases entries.len() - i,
{
    if 0 <= i && i + 1 < entries.len() && album_key(entries[i + 1]) == album_key(entries[i]) {
        group_end(entries, i + 1)
    } else {
        i
    }
}

/// The entries that a header at a row stands for, first and last.
pub open spec fn group_at(entries: Seq<QueueEntry>, line: int) -> Option<(usize, usize)> {
    if 0 <= line < display_lines(entries).len() && display_lines(entries)[line].1 {
        let first = display_lines(entries)[line].0->0;
        Some((first, group_end(entries, first as int) as usize))
    } else {
        None
    }
}

/// A group is a run of entries of one album, and the entry behind it is of
/// another.
pub proof fn groups_are_runs(entries: Seq<QueueEntry>, i: int)
    requires
        0 <= i < entries.len(),
    ensures
        i <= group_end(entries, i) < entries.len(),
        forall|k: int|
            i <= k <= group_end(entries, i) ==> album_key(#[trigger] entries[k]) == album_key(
                entries[i],
            ),
        group_end(entries, i) + 1 < entries.len() ==> album_key(
            entries[group_end(entries, i) + 1],
        ) != album_key(entries[i]),
    decreases entries.len() - i,
{
    if i + 1 < entries.len() && album_key(entries[i + 1]) == album_key(entries[i]) {
        groups_are_runs(entries, i + 1);
    }
}

/// The row on which a display line is drawn leads a click back to that line.
pub proof fn clicks_find_what_is_drawn(area: Rect, scroll: nat, line: int)
    requires
        scroll <= line,
        area.y + 1 + (line - scroll) <= u16::MAX,
    ensures
        line_at(area, scroll, (area.y + 1 + (line - scroll)) as u16) == line,
{
}

// ---------------------------------------------------------------------------
// Scrolling
// ---------------------------------------------------------------------------

/// The line of an entry, or the top if the queue has no such entry.
pub open spec fn cursor_line(entries: Seq<QueueEntry>, cursor: usize) -> int {
    track_line(display_lines(entries), cursor)
}

/// Position of an entry's own line among display lines, or 0.
pub open spec fn track_line(lines: Seq<DisplayLine>, cursor: usize) -> int {
    if exists|l: int| 0 <= l < lines.len() && #[trigger] lines[l] == (Some(cursor), false) {
        first_line(lines, cursor)
    } else {
        0
    }
}

/// Position of the first line that is an entry's own, or the number of lines.
pub open spec fn first_line(lines: Seq<DisplayLine>, cursor: usize) -> int
    decreases lines.len(),
{
    if lines.len() == 0 || lines[0] == (Some(cursor), false) {
        0
    } else {
        1 + first_line(lines.skip(1), cursor)
    }
}

proof fn first_line_at(lines: Seq<DisplayLine>, cursor: usize, k: int)
    requires
        0 <= k <= lines.len(),
        forall|l: int| 0 <= l < k ==> #[trigger] lines[l] != (Some(cursor), false),
        k < lines.len() ==> lines[k] == (Some(cursor), false),
    ensures
        first_line(lines, cursor) == k,
    decreases lines.len(),
{
    if k > 0 {
        assert(lines[0] != (Some(cursor), false));
        assert forall|l: int| 0 <= l < k - 1 implies #[trigger] lines.skip(1)[l] != (
            Some(cursor),
            false,
        ) by {
            assert(lines[l + 1] != (Some(cursor), false));
        }
        first_line_at(lines.skip(1), cursor, k - 1);
    }
}

fn find_line(lines: &Vec<DisplayLine>, cursor: usize) -> (r: usize)
    ensures
        r == track_line(lines@, cursor),
        lines@.len() > 0 ==> r < lines@.len(),
        r < usize::MAX,
{
    assert(lines.len() <= usize::MAX);
    let mut i: usize = 0;
    while i < lines.len()
        invariant
            i <= lines.len(),
            forall|l: int| 0 <= l < i ==> #[trigger] lines@[l] != (Some(cursor), false),
        decreases lines@.len() - i,
    {
        let (idx, is_header) = lines[i];
        if let Some(k) = idx {
            if k == cursor && !is_header {
                proof {
                    first_line_at(lines@, cursor, i as int);
                }
                return i;
            }
        }
        i = i + 1;
    }
    0
}

/// Where to scroll so that a line is on screen, from where the screen is.
pub open spec fn scrolled_to(line: int, current: int, height: int) -> int {
    if line < current {
        line
    } else if line >= current + height {
        sub0(line, height) + 1
    } else {
        current
    }
}

/// On a screen of any height, the line that was scrolled to is on it.
pub proof fn scrolled_line_is_visible(line: int, current: int, height: int)
    requires
        0 <= line,
        0 <= current,
        height > 0,
    ensures
        scrolled_to(line, current, height) <= line < scrolled_to(line, current, height) + height,
{
}

/// Scrolling again to a line that is already on screen changes nothing.
pub proof fn scrolling_settles(line: int, current: int, height: int)
    requires
        0 <= line,
        0 <= current,
        height > 0,
    ensures
        scrolled_to(line, scrolled_to(line, current, height), height) == scrolled_to(
            line,
            current,
            height,
        ),
{
}

fn scroll_to(line: usize, current: usize, height: usize) -> (r: usize)
    requires
        line < usize::MAX || height > 0,
    ensures
        r == scrolled_to(line as int, current as int, height as int),
{
    if line < current {
        line
    } else if line - current >= height {
        line.saturating_sub(height) + 1
    } else {
        current
    }
}

/// The scroll offset that keeps an entry visible.
pub fn scroll_for_cursor(
    entries: &[QueueEntry],
    cursor: usize,
    current_scroll: usize,
    visible_height: usize,
) -> (r: usize)
    ensures
        r == scrolled_to(
            cursor_line(entries@, cursor),
            current_scroll as int,
            visible_height as int,
        ),
{
    let lines = build_display_lines(entries);
    let line = find_line(&lines, cursor);
    scroll_to(line, current_scroll, visible_height)
}

/// The line of a cursor, or the header right above it.
pub open spec fn top_of_cursor(entries: Seq<QueueEntry>, cursor: usize) -> int {
    let line = cursor_line(entries, cursor);
    if line > 0 && display_lines(entries)[line - 1].1 {
        line - 1
    } else {
        line
    }
}

/// Scrolls an entry to the top of the screen, with its album header if that is
/// right above, but not past the end.
pub fn scroll_cursor_to_top(entries: &[QueueEntry], cursor: usize, visible_height: usize) -> (r:
    usize)
    ensures
        r == min_int(
            top_of_cursor(entries@, cursor),
            sub0(display_lines(entries@).len() as int, visible_height as int),
        ),
{
    let lines = build_display_lines(entries);
    let line = find_line(&lines, cursor);
    let top: usize = if line > 0 && lines[line - 1].1 {
        line - 1
    } else {
        line
    };
    let max_scroll: usize = lines.len().saturating_sub(visible_height);
    if top <= max_scroll {
        top
    } else {
        max_scroll
    }
}

// ---------------------------------------------------------------------------
// Rows
// ---------------------------------------------------------------------------

/// The frames of the spinner.
pub open spec fn spinner_char(tick: nat) -> char {
    seq![
        '\u{280B}',
        '\u{2819}',
        '\u{2839}',
        '\u{2838}',
        '\u{283C}',
        '\u{2834}',
        '\u{2826}',
        '\u{2827}',
    ][(tick % 8) as int]
}

fn spinner(tick: usize) -> (c: char)
    ensures
        c == spinner_char(tick as nat),
{
    let frame: usize = tick % 8;
    if frame == 0 {
        '\u{280B}'
    } else if frame == 1 {
        '\u{2819}'
    } else if frame == 2 {
        '\u{2839}'
    } else if frame == 3 {
        '\u{2838}'
    } else if frame == 4 {
        '\u{283C}'
    } else if frame == 5 {
        '\u{2834}'
    } else if frame == 6 {
        '\u{2826}'
    } else {
        '\u{2827}'
    }
}

/// A number in at least two characters, a zero in front of a single digit.
pub open spec fn padded(n: int) -> Seq<char> {
    if 0 <= n < 10 {
        "0"@ + decimal(n as nat)
    } else {
        decimal_int(n)
    }
}

/// Appends a number in at least two characters.
pub fn push_padded(s: &mut String, n: i64)
    ensures
        final(s)@ == old(s)@ + padded(n as int),
{
    if 0 <= n && n < 10 {
        s.push_str("0");
    }
    push_decimal_int(s, n);
    assert(s@ =~= old(s)@ + padded(n as int));
}

/// Track number, led by the disc from the second disc on.
pub open spec fn number_text(disc: Option<i64>, number: Option<i64>) -> Seq<char> {
    match number {
        Some(n) => match disc {
            Some(d) if d > 1 => decimal_int(d as int) + "-"@ + padded(n as int),
            _ => padded(n as int),
        },
        None => "  "@,
    }
}

fn number_of(disc: Option<i64>, number: Option<i64>) -> (r: String)
    ensures
        r@ == number_text(disc, number),
{
    match number {
        Some(n) => {
            let mut s = String::new();
            if let Some(d) = disc {
                if d > 1 {
                    push_decimal_int(&mut s, d);
                    s.push_str("-");
                }
            }
            push_padded(&mut s, n);
            assert(s@ =~= number_text(disc, number));
            s
        },
        None => "  ".to_owned(),
    }
}

/// How far a download is: a percentage of at most 99, or kilobytes where the size
/// is unknown.
pub open spec fn progress_text(progress: (u64, u64)) -> Seq<char> {
    let (downloaded, total) = progress;
    if total > 0 {
        let pct = min_int(downloaded * 100 / (total as int), 99) as nat;
        (if pct < 10 {
            " "@ + decimal(pct)
        } else {
            decimal(pct)
        }) + "%"@
    } else {
        decimal((downloaded / 1024) as nat) + "K"@
    }
}

/// Whether a percentage of a download can be computed.
pub open spec fn progress_fits(entry: QueueEntry) -> bool {
    match entry.download_progress {
        Some((downloaded, total)) => total > 0 ==> downloaded * 100 <= u64::MAX,
        None => true,
    }
}

fn progress_of(progress: (u64, u64)) -> (r: String)
    requires
        progress.1 > 0 ==> progress.0 * 100 <= u64::MAX,
    ensures
        r@ == progress_text(progress),
{
    let (downloaded, total) = progress;
    let mut s = String::new();
    if total > 0 {
        let share: u64 = downloaded * 100 / total;
        let pct: u64 = if share <= 99 {
            share
        } else {
            99
        };
        if pct < 10 {
            s.push_str(" ");
        }
        push_decimal(&mut s, pct);
        s.push_str("%");
    } else {
        push_decimal(&mut s, downloaded / 1024);
        s.push_str("K");
    }
    assert(s@ =~= progress_text(progress));
    s
}

/// What is left of an entry's number: its play and download state.
pub open spec fn status_icon(entry: QueueEntry, selected: bool, tick: nat) -> SpanView {
    match entry.status {
        QueueEntryStatus::Queued => piece(" "@, Slot::Unstyled),
        QueueEntryStatus::Playing => piece(">"@, Slot::TrackPlaying),
        QueueEntryStatus::Played => piece(
            " "@,
            if selected {
                Slot::TrackSelected
            } else {
                Slot::Unstyled
            },
        ),
        QueueEntryStatus::Downloading => match entry.download_progress {
            Some(p) => piece(progress_text(p), Slot::Spinner),
            None => piece(" "@.push(spinner_char(tick)) + " "@, Slot::HintDesc),
        },
        QueueEntryStatus::PriorityPending => match entry.download_progress {
            Some(p) => piece(progress_text(p), Slot::TrackPlaying),
            None => piece(">"@.push(spinner_char(tick)) + " "@, Slot::TrackPlaying),
        },
        QueueEntryStatus::Failed => piece("!"@, Slot::Failed),
    }
}

fn icon_of(entry: &QueueEntry, selected: bool, tick: usize) -> (r: Span)
    requires
        progress_fits(*entry),
    ensures
        r@ == status_icon(*entry, selected, tick as nat),
{
    match entry.status {
        QueueEntryStatus::Queued => span(" ", slot_style(Slot::Unstyled)),
        QueueEntryStatus::Playing => span(">", slot_style(Slot::TrackPlaying)),
        QueueEntryStatus::Played => span(
            " ",
            slot_style(
                if selected {
                    Slot::TrackSelected
                } else {
                    Slot::Unstyled
                },
            ),
        ),
        QueueEntryStatus::Downloading => match entry.download_progress {
            Some(p) => span_of(progress_of(p), slot_style(Slot::Spinner)),
            None => {
                let mut s = " ".to_owned();
                s.push(spinner(tick));
                s.push_str(" ");
                span_of(s, slot_style(Slot::HintDesc))
            },
        },
        QueueEntryStatus::PriorityPending => match entry.download_progress {
            Some(p) => span_of(progress_of(p), slot_style(Slot::TrackPlaying)),
            None => {
                let mut s = ">".to_owned();
                s.push(spinner(tick));
                s.push_str(" ");
                span_of(s, slot_style(Slot::TrackPlaying))
            },
        },
        QueueEntryStatus::Failed => span("!", slot_style(Slot::Failed)),
    }
}

/// How a row is marked.
#[derive(Clone, Copy, Debug, PartialEq, Eq, Structural)]
pub struct RowMarks {
    pub is_cursor: bool,
    pub is_selected: bool,
    pub is_drop_target: bool,
    pub is_hovered: bool,
    pub is_favourite: bool,
}

/// The mark left of a row: the cursor, a drop target or a selection.
pub open spec fn cursor_mark(marks: RowMarks) -> SpanView {
    if marks.is_cursor {
        piece(">"@, Slot::TrackCursor)
    } else if marks.is_drop_target {
        piece("\u{25be}"@, Slot::HintKey)
    } else if marks.is_selected {
        piece("\u{2502}"@, Slot::TrackSelected)
    } else {
        piece(" "@, Slot::Unstyled)
    }
}

/// The artist of a track, where it is not the album's.
pub open spec fn artist_spans(entry: QueueEntry, marks: RowMarks) -> LineView {
    if entry.artist@.len() > 0 && entry.artist@ != entry.album_artist@ {
        seq![
            piece(
                entry.artist@,
                if marks.is_selected {
                    Slot::TrackSelected
                } else if marks.is_hovered {
                    Slot::TrackHover
                } else {
                    Slot::TrackPlaying
                },
            ),
            piece(
                " \u{2014} "@,
                if marks.is_selected {
                    Slot::TrackSelected
                } else {
                    Slot::HintDesc
                },
            ),
        ]
    } else {
        Seq::empty()
    }
}

/// One track of the queue.
pub open spec fn track_line_view(entry: QueueEntry, marks: RowMarks, tick: nat) -> LineView {
    seq![
        piece(" "@, Slot::Unstyled),
        if marks.is_favourite {
            piece("\u{2605}"@, Slot::Favourite)
        } else {
            piece(" "@, Slot::Unstyled)
        },
        cursor_mark(marks),
        status_icon(entry, marks.is_selected, tick),
        piece(" "@, Slot::Unstyled),
        piece(
            number_text(entry.disc, entry.track_number),
            if marks.is_selected {
                Slot::TrackSelected
            } else {
                Slot::TrackNumber
            },
        ),
        piece(" "@, Slot::Unstyled),
    ] + artist_spans(entry, marks) + seq![
        piece(
            entry.title@,
            if marks.is_cursor {
                Slot::TrackCursor
            } else if marks.is_selected {
                Slot::TrackSelected
            } else if marks.is_hovered {
                Slot::TrackHover
            } else {
                Slot::TrackNormal
            },
        ),
        piece("  "@, Slot::Unstyled),
        piece(
            match entry.duration_ms {
                Some(ms) => time_text(ms as nat),
                None => Seq::empty(),
            },
            if marks.is_selected {
                Slot::TrackSelected
            } else {
                Slot::HintDesc
            },
        ),
    ]
}

/// The line of one track.
pub fn render_track_line(entry: &QueueEntry, marks: RowMarks, spinner_tick: usize) -> (r: Vec<Span>)
    requires
        progress_fits(*entry),
    ensures
        spans(r@) == track_line_view(*entry, marks, spinner_tick as nat),
{
    let mut line = empty_line();
    add_span(&mut line, span(" ", slot_style(Slot::Unstyled)));
    add_span(
        &mut line,
        if marks.is_favourite {
            span("\u{2605}", slot_style(Slot::Favourite))
        } else {
            span(" ", slot_style(Slot::Unstyled))
        },
    );
    add_span(
        &mut line,
        if marks.is_cursor {
            span(">", slot_style(Slot::TrackCursor))
        } else if marks.is_drop_target {
            span("\u{25be}", slot_style(Slot::HintKey))
        } else if marks.is_selected {
            span("\u{2502}", slot_style(Slot::TrackSelected))
        } else {
            span(" ", slot_style(Slot::Unstyled))
        },
    );
    add_span(&mut line, icon_of(entry, marks.is_selected, spinner_tick));
    add_span(&mut line, span(" ", slot_style(Slot::Unstyled)));
    add_span(
        &mut line,
        span_of(
            number_of(entry.disc, entry.track_number),
            slot_style(
                if marks.is_selected {
                    Slot::TrackSelected
                } else {
                    Slot::TrackNumber
                },
            ),
        ),
    );
    add_span(&mut line, span(" ", slot_style(Slot::Unstyled)));
    if !entry.artist.as_str().is_empty() && !same(
        entry.artist.as_str(),
        entry.album_artist.as_str(),
    ) {
        add_span(
            &mut line,
            span(
                entry.artist.as_str(),
                slot_style(
                    if marks.is_selected {
                        Slot::TrackSelected
                    } else if marks.is_hovered {
                        Slot::TrackHover
                    } else {
                        Slot::TrackPlaying
                    },
                ),
            ),
        );
        add_span(
            &mut line,
            span(
                " \u{2014} ",
                slot_style(
                    if marks.is_selected {
                        Slot::TrackSelected
                    } else {
                        Slot::HintDesc
                    },
                ),
            ),
        );
    }
    add_span(
        &mut line,
        span(
            entry.title.as_str(),
            slot_style(
                if marks.is_cursor {
                    Slot::TrackCursor
                } else if marks.is_selected {
                    Slot::TrackSelected
                } else if marks.is_hovered {
                    Slot::TrackHover
                } else {
                    Slot::TrackNormal
                },
            ),
        ),
    );
    add_span(&mut line, span("  ", slot_style(Slot::Unstyled)));
    let duration = match entry.duration_ms {
        Some(ms) => format_time(ms),
        None => String::new(),
    };
    add_span(
        &mut line,
        span_of(
            duration,
            slot_style(
                if marks.is_selected {
                    Slot::TrackSelected
                } else {
                    Slot::HintDesc
                },
            ),
        ),
    );
    assert(spans(line@) =~= track_line_view(*entry, marks, spinner_tick as nat));
    line
}

/// The header of an album group.
pub open spec fn header_view(entry: QueueEntry) -> LineView {
    seq![
        piece(" "@, Slot::Unstyled),
        piece(entry.album_artist@, Slot::AlbumHeaderArtist),
        piece(" \u{2014} "@, Slot::HintDesc),
        piece(
            match entry.year {
                Some(y) => "("@ + y@ + ") "@,
                None => Seq::empty(),
            },
            Slot::HintDesc,
        ),
        piece(entry.album@, Slot::AlbumHeaderAlbum),
        piece(
            match entry.codec {
                Some(c) => " ["@ + c@ + "]"@,
                None => Seq::empty(),
            },
            Slot::HintDesc,
        ),
    ]
}

/// The line of an album header, from the first entry of its group.
pub fn render_album_header(entry: &QueueEntry) -> (r: Vec<Span>)
    ensures
        spans(r@) == header_view(*entry),
{
    let year = match &entry.year {
        Some(y) => concat3("(", y.as_str(), ") "),
        None => String::new(),
    };
    let codec = match &entry.codec {
        Some(c) => concat3(" [", c.as_str(), "]"),
        None => String::new(),
    };
    let mut line = empty_line();
    add_span(&mut line, span(" ", slot_style(Slot::Unstyled)));
    add_span(&mut line, span(entry.album_artist.as_str(), slot_style(Slot::AlbumHeaderArtist)));
    add_span(&mut line, span(" \u{2014} ", slot_style(Slot::HintDesc)));
    add_span(&mut line, span_of(year, slot_style(Slot::HintDesc)));
    add_span(&mut line, span(entry.album.as_str(), slot_style(Slot::AlbumHeaderAlbum)));
    add_span(&mut line, span_of(codec, slot_style(Slot::HintDesc)));
    assert(spans(line@) =~= header_view(*entry));
    line
}

// ---------------------------------------------------------------------------
// Scrollbar
// ---------------------------------------------------------------------------

/// Height of the thumb in eighths of a cell: its share of the content, at least
/// one cell.
pub open spec fn thumb_size(height: int, total: int) -> int {
    max_int(height * 8 * height / total, 8)
}

/// Top of the thumb in eighths of a cell, in proportion to the scroll.
pub open spec fn thumb_top(height: int, total: int, start: int) -> int {
    let track = sub0(height * 8, thumb_size(height, total));
    if track > 0 {
        start * track / (total - height)
    } else {
        0
    }
}

/// A block filled from below by some eighths.
pub open spec fn block(eighths: int) -> char {
    if eighths == 0 {
        ' '
    } else {
        (0x2580 + eighths) as char
    }
}

/// One cell of the scrollbar.
pub open spec fn bar_cell(top: int, size: int, row: int) -> (char, Style) {
    let cell_top = row * 8;
    let from = max_int(top, cell_top);
    let to = min_int(top + size, cell_top + 8);
    let eighths = sub0(to, from);
    if eighths == 0 {
        (' ', tinted(None, Some(Tint::ScrollbarBg)))
    } else if from > cell_top && eighths < 8 {
        (block(eighths), tinted(Some(Tint::ScrollbarThumb), Some(Tint::ScrollbarBg)))
    } else if to < cell_top + 8 && eighths < 8 {
        (block(8 - eighths), tinted(Some(Tint::ScrollbarBg), Some(Tint::ScrollbarThumb)))
    } else {
        ('\u{2588}', tinted(Some(Tint::ScrollbarThumb), None))
    }
}

/// While the content is longer than the screen and not scrolled past its end, the
/// thumb lies on the track; it is at the top of it at the start of the content and
/// at the bottom at its end.
pub proof fn thumb_stays_on_the_track(height: int, total: int, start: int)
    requires
        0 < height < total,
        0 <= start <= total - height,
    ensures
        8 <= thumb_size(height, total) <= height * 8,
        0 <= thumb_top(height, total, start),
        thumb_top(height, total, start) + thumb_size(height, total) <= height * 8,
        start == 0 ==> thumb_top(height, total, start) == 0,
        start == total - height ==> thumb_top(height, total, start) + thumb_size(height, total)
            == height * 8,
{
    let share = height * 8 * height / total;
    assert(0 <= share <= height * 8) by (nonlinear_arith)
        requires
            0 < height < total,
            share == height * 8 * height / total,
    ;
    let track = sub0(height * 8, thumb_size(height, total));
    if track > 0 {
        let max = total - height;
        let top = start * track / max;
        assert(0 <= top <= track) by (nonlinear_arith)
            requires
                0 < max,
                0 <= start <= max,
                0 < track,
                top == start * track / max,
        ;
        if start == max {
            assert(max * track / max == track) by (nonlinear_arith)
                requires
                    max > 0,
            ;
        }
        if start == 0 {
            assert(0 * track / max == 0) by (nonlinear_arith)
                requires
                    max > 0,
            ;
        }
    }
}

fn block_of(eighths: u128) -> (c: char)
    requires
        eighths <= 8,
    ensures
        c == block(eighths as int),
{
    if eighths == 0 {
        ' '
    } else if eighths == 1 {
        '\u{2581}'
    } else if eighths == 2 {
        '\u{2582}'
    } else if eighths == 3 {
        '\u{2583}'
    } else if eighths == 4 {
        '\u{2584}'
    } else if eighths == 5 {
        '\u{2585}'
    } else if eighths == 6 {
        '\u{2586}'
    } else if eighths == 7 {
        '\u{2587}'
    } else {
        '\u{2588}'
    }
}

fn cell_of(top: u128, size: u128, row: u16) -> (r: (char, Style))
    requires
        top + size <= 0x1_0000_0000_0000_0000_0000_0000,
    ensures
        r == bar_cell(top as int, size as int, row as int),
{
    let cell_top: u128 = row as u128 * 8;
    let cell_bottom: u128 = cell_top + 8;
    let from: u128 = if top >= cell_top {
        top
    } else {
        cell_top
    };
    let bottom: u128 = top + size;
    let to: u128 = if bottom <= cell_bottom {
        bottom
    } else {
        cell_bottom
    };
    let eighths: u128 = to.saturating_sub(from);
    if eighths == 0 {
        (' ', tint_style(None, Some(Tint::ScrollbarBg)))
    } else if from > cell_top && eighths < 8 {
        (block_of(eighths), tint_style(Some(Tint::ScrollbarThumb), Some(Tint::ScrollbarBg)))
    } else if to < cell_bottom && eighths < 8 {
        (block_of(8 - eighths), tint_style(Some(Tint::ScrollbarBg), Some(Tint::ScrollbarThumb)))
    } else {
        ('\u{2588}', tint_style(Some(Tint::ScrollbarThumb), None))
    }
}

/// Thumb size and position, in eighths of a cell.
fn thumb(height: u16, total: usize, start: usize) -> (r: (u128, u128))
    requires
        0 < height < total,
    ensures
        r.0 == thumb_size(height as int, total as int),
        r.1 == thumb_top(height as int, total as int, start as int),
        r.0 + r.1 <= 0x1_0000_0000_0000_0000_0000_0000,
{
    let h: u128 = height as u128;
    let t: u128 = total as u128;
    let s: u128 = start as u128;
    assert(h * 8 * h <= 0x8_0000_0000) by (nonlinear_arith)
        requires
            h <= 0xffff,
    ;
    let share: u128 = h * 8 * h / t;
    assert(share <= 0x8_0000_0000) by (nonlinear_arith)
        requires
            h * 8 * h <= 0x8_0000_0000,
            t > 0,
            share == h * 8 * h / (t as int),
    ;
    let size: u128 = if share >= 8 {
        share
    } else {
        8
    };
    let track: u128 = (h * 8).saturating_sub(size);
    if track > 0 {
        let room: u128 = t - h;
        assert(s * track <= 0xffff_ffff_ffff_ffff * 0x8_0000) by (nonlinear_arith)
            requires
                s <= 0xffff_ffff_ffff_ffff,
                track <= 0x8_0000,
        ;
        let top: u128 = s * track / room;
        assert(top <= s * track) by (nonlinear_arith)
            requires
                room > 0,
                top == s * track / (room as int),
        ;
        (size, top)
    } else {
        (size, 0)
    }
}

// ---------------------------------------------------------------------------
// Picture
// ---------------------------------------------------------------------------

/// The queue on screen.
pub struct QueueView<'a> {
    pub entries: &'a [QueueEntry],
    pub mode: Mode,
    pub cursor: usize,
    pub scroll_offset: usize,
    pub drop_indicator: Option<usize>,
    pub selected: &'a HashSet<usize>,
    pub spinner_tick: usize,
    pub hover_index: Option<usize>,
    pub favourites: Option<&'a Vec<String>>,
}

/// Whether a path is one of a list of paths.
pub open spec fn lists_path(paths: Seq<Seq<char>>, path: Seq<char>) -> bool {
    exists|k: int| 0 <= k < paths.len() && same_components(#[trigger] paths[k], path)
}

/// Whether a path is among the favourites.
pub open spec fn is_favourite(favourites: Option<&Vec<String>>, path: Seq<char>) -> bool {
    match favourites {
        Some(f) => lists_path(texts(f@), path),
        None => false,
    }
}

fn has_path(paths: &Vec<String>, path: &str) -> (r: bool)
    ensures
        r == lists_path(texts(paths@), path@),
{
    let ghost all = texts(paths@);
    let mut k: usize = 0;
    while k < paths.len()
        invariant
            k <= paths@.len(),
            all == texts(paths@),
            forall|j: int| 0 <= j < k ==> !same_components(#[trigger] all[j], path@),
        decreases paths@.len() - k,
    {
        assert(all[k as int] == paths@[k as int]@);
        if same_path(paths[k].as_str(), path) {
            return true;
        }
        k = k + 1;
    }
    false
}

/// How the row of entry `i` is marked.
pub open spec fn marks_of(view: QueueView, i: int) -> RowMarks {
    let is_cursor = view.mode == Mode::QueueEdit && i == view.cursor;
    let is_selected = view.selected@.contains(i as usize);
    RowMarks {
        is_cursor,
        is_selected,
        is_drop_target: view.drop_indicator == Some(i as usize),
        is_hovered: view.hover_index == Some(i as usize) && !is_cursor && !is_selected,
        is_favourite: is_favourite(view.favourites, view.entries@[i].path@),
    }
}

/// What display line `l` of the queue shows.
pub open spec fn line_view(view: QueueView, l: int) -> LineView {
    let (idx, is_header) = display_lines(view.entries@)[l];
    if is_header {
        header_view(view.entries@[idx->0 as int])
    } else {
        track_line_view(
            view.entries@[idx->0 as int],
            marks_of(view, idx->0 as int),
            view.spinner_tick as nat,
        )
    }
}

/// The first display line on a screen of some height: while editing, the cursor
/// is kept in sight.
pub open spec fn first_shown(view: QueueView, height: int) -> int {
    if view.mode == Mode::QueueEdit {
        scrolled_to(
            cursor_line(view.entries@, view.cursor),
            view.scroll_offset as int,
            height,
        )
    } else {
        view.scroll_offset as int
    }
}

/// The frame of the queue, with its title.
pub open spec fn queue_frame(view: QueueView, area: Rect) -> OpView {
    OpView::Frame {
        area,
        sides: Sides::Top,
        border: plain(Slot::Unstyled),
        title: seq![
            if view.mode == Mode::QueueEdit {
                styled(
                    " queue [edit] "@,
                    Style {
                        fg: Some(Tint::Warning),
                        bold: true,
                        ..plain(Slot::AlbumHeaderArtist)
                    },
                )
            } else {
                piece(" queue "@, Slot::HintDesc)
            },
            piece("("@ + decimal(view.entries@.len()) + ") "@, Slot::HintDesc),
        ],
    }
}

/// The display lines from `start` on, as far as the area reaches.
pub open spec fn row_ops(view: QueueView, area: Rect, start: int) -> Seq<OpView> {
    let total = display_lines(view.entries@).len() as int;
    Seq::new(
        (min_int(start + area.height, total) - start) as nat,
        |row: int|
            OpView::Line {
                x: area.x,
                y: (area.y + row) as u16,
                width: area.width,
                line: line_view(view, start + row),
            },
    )
}

/// The scrollbar, where the content is longer than the screen.
pub open spec fn bar_ops(area: Rect, total: int, start: int) -> Seq<OpView> {
    if total > area.height && area.height > 0 && area.width > 1 {
        let size = thumb_size(area.height as int, total);
        let top = thumb_top(area.height as int, total, start);
        Seq::new(
            area.height as nat,
            |row: int|
                OpView::Cell {
                    x: (area.x + area.width - 1) as u16,
                    y: (area.y + row) as u16,
                    symbol: bar_cell(top, size, row).0,
                    style: bar_cell(top, size, row).1,
                },
        )
    } else {
        Seq::empty()
    }
}

/// What the queue draws.
pub open spec fn queue_ops(view: QueueView, area: Rect) -> Seq<OpView> {
    let shown = inner_area(area, Sides::Top);
    let start = first_shown(view, shown.height as int);
    seq![queue_frame(view, area)] + if view.entries@.len() == 0 {
        seq![
            OpView::Line {
                x: shown.x,
                y: shown.y,
                width: shown.width,
                line: seq![piece(" empty"@, Slot::HintDesc)],
            },
        ]
    } else {
        row_ops(view, shown, start) + bar_ops(
            shown,
            display_lines(view.entries@).len() as int,
            start,
        )
    }
}

impl<'a> QueueView<'a> {
    /// A view of the queue with nothing hovered, dropped or starred.
    pub fn new(
        entries: &'a [QueueEntry],
        mode: Mode,
        cursor: usize,
        scroll_offset: usize,
        selected: &'a HashSet<usize>,
        spinner_tick: usize,
    ) -> (r: Self)
        ensures
            r == (QueueView {
                entries,
                mode,
                cursor,
                scroll_offset,
                drop_indicator: None,
                selected,
                spinner_tick,
                hover_index: None,
                favourites: None,
            }),
    {
        QueueView {
            entries,
            mode,
            cursor,
            scroll_offset,
            drop_indicator: None,
            selected,
            spinner_tick,
            hover_index: None,
            favourites: None,
        }
    }

    /// The view with a place marked where dragged entries would go.
    pub fn with_drop_indicator(self, indicator: Option<usize>) -> (r: Self)
        ensures
            r == (QueueView { drop_indicator: indicator, ..self }),
    {
        QueueView {
            entries: self.entries,
            mode: self.mode,
            cursor: self.cursor,
            scroll_offset: self.scroll_offset,
            drop_indicator: indicator,
            selected: self.selected,
            spinner_tick: self.spinner_tick,
            hover_index: self.hover_index,
            favourites: self.favourites,
        }
    }

    /// The view with the entry under the mouse marked.
    pub fn with_hover(self, hover: HoverZone) -> (r: Self)
        ensures
            match hover {
                HoverZone::QueueItem(idx) => r == (QueueView { hover_index: Some(idx), ..self }),
                HoverZone::Elsewhere => r == self,
            },
    {
        match hover {
            HoverZone::QueueItem(idx) => QueueView {
                entries: self.entries,
                mode: self.mode,
                cursor: self.cursor,
                scroll_offset: self.scroll_offset,
                drop_indicator: self.drop_indicator,
                selected: self.selected,
                spinner_tick: self.spinner_tick,
                hover_index: Some(idx),
                favourites: self.favourites,
            },
            HoverZone::Elsewhere => self,
        }
    }

    /// The view with favourite paths starred.
    pub fn with_favourites(self, favourites: &'a Vec<String>) -> (r: Self)
        ensures
            r == (QueueView { favourites: Some(favourites), ..self }),
    {
        QueueView {
            entries: self.entries,
            mode: self.mode,
            cursor: self.cursor,
            scroll_offset: self.scroll_offset,
            drop_indicator: self.drop_indicator,
            selected: self.selected,
            spinner_tick: self.spinner_tick,
            hover_index: self.hover_index,
            favourites: Some(favourites),
        }
    }

    /// The entry of the queue at a row, if the row shows one.
    pub fn queue_index_at_y(
        entries: &[QueueEntry],
        area: Rect,
        scroll_offset: usize,
        y: u16,
    ) -> (r: Option<usize>)
        requires
            line_at(area, scroll_offset as nat, y) <= usize::MAX,
        ensures
            r == entry_at(entries@, line_at(area, scroll_offset as nat, y)),
    {
        let rel_y: usize = y.saturating_sub(area.y) as usize;
        let lines = build_display_lines(entries);
        let target: usize = scroll_offset + rel_y.saturating_sub(1);
        if target < lines.len() {
            let (idx, is_header) = lines[target];
            if is_header {
                None
            } else {
                idx
            }
        } else {
            None
        }
    }

    /// The entries of the album whose header is at a row, first and last.
    pub fn album_group_at_y(
        entries: &[QueueEntry],
        area: Rect,
        scroll_offset: usize,
        y: u16,
    ) -> (r: Option<(usize, usize)>)
        requires
            line_at(area, scroll_offset as nat, y) <= usize::MAX,
        ensures
            r == group_at(entries@, line_at(area, scroll_offset as nat, y)),
    {
        let rel_y: usize = y.saturating_sub(area.y) as usize;
        let lines = build_display_lines(entries);
        let target: usize = scroll_offset + rel_y.saturating_sub(1);
        if target >= lines.len() {
            return None;
        }
        let (idx, is_header) = lines[target];
        if !is_header {
            return None;
        }
        let total: usize = entries.len();
        proof {
            display_lines_belong(entries@);
        }
        match idx {
            None => None,
            Some(first) => {
                let mut last: usize = first;
                assert(first < entries@.len());
                while last + 1 < total && same_group(&entries[last + 1], &entries[last])
                    invariant
                        first <= last < total,
                        total == entries@.len(),
                        group_end(entries@, first as int) == group_end(entries@, last as int),
                    decreases entries@.len() - last,
                {
                    last = last + 1;
                }
                Some((first, last))
            },
        }
    }

    fn starred(&self, path: &str) -> (r: bool)
        ensures
            r == is_favourite(self.favourites, path@),
    {
        match self.favourites {
            Some(f) => has_path(f, path),
            None => false,
        }
    }

    fn marks(&self, i: usize) -> (r: RowMarks)
        requires
            i < self.entries@.len(),
        ensures
            r == marks_of(*self, i as int),
    {
        broadcast use vstd::std_specs::hash::group_hash_axioms;

        let is_cursor = self.mode == Mode::QueueEdit && i == self.cursor;
        let is_selected = self.selected.contains(&i);
        let hovered = match self.hover_index {
            Some(h) => h == i,
            None => false,
        };
        let is_drop_target = match self.drop_indicator {
            Some(d) => d == i,
            None => false,
        };
        RowMarks {
            is_cursor,
            is_selected,
            is_drop_target,
            is_hovered: hovered && !is_cursor && !is_selected,
            is_favourite: self.starred(self.entries[i].path.as_str()),
        }
    }

    fn title(&self) -> (r: Vec<Span>)
        ensures
            forall|area: Rect| #[trigger]
                queue_frame(*self, area) == (OpView::Frame {
                    area,
                    sides: Sides::Top,
                    border: plain(Slot::Unstyled),
                    title: spans(r@),
                }),
    {
        let mut title = empty_line();
        if self.mode == Mode::QueueEdit {
            let s = slot_style(Slot::AlbumHeaderArtist);
            let edit_style = Style {
                base: s.base,
                patch: s.patch,
                fg: Some(Tint::Warning),
                bg: s.bg,
                bold: true,
                dim: s.dim,
                underlined: s.underlined,
            };
            add_span(&mut title, span(" queue [edit] ", edit_style));
        } else {
            add_span(&mut title, span(" queue ", slot_style(Slot::HintDesc)));
        }
        add_span(
            &mut title,
            span_of(
                around_decimal("(", self.entries.len() as u64, ") "),
                slot_style(Slot::HintDesc),
            ),
        );
        assert forall|area: Rect| #[trigger] queue_frame(*self, area) == (OpView::Frame {
            area,
            sides: Sides::Top,
            border: plain(Slot::Unstyled),
            title: spans(title@),
        }) by {
            assert(queue_frame(*self, area)->title =~= spans(title@));
        }
        title
    }

    /// Draws the queue over `area`.
    pub fn render(&self, area: Rect) -> (ops: Vec<Op>)
        requires
            fits(area),
            forall|i: int|
                0 <= i < self.entries@.len() ==> progress_fits(#[trigger] self.entries@[i]),
            self.mode != Mode::QueueEdit ==> self.scroll_offset <= display_lines(
                self.entries@,
            ).len(),
        ensures
            scene(ops@) == queue_ops(*self, area),
    {
        let mut ops: Vec<Op> = Vec::new();
        draw(
            &mut ops,
            Op::Frame {
                area,
                sides: Sides::Top,
                border: slot_style(Slot::Unstyled),
                title: self.title(),
            },
        );
        let ghost head = scene(ops@);
        assert(head =~= seq![queue_frame(*self, area)]);
        let shown = inner(area, Sides::Top);
        if self.entries.len() == 0 {
            draw(
                &mut ops,
                Op::Line {
                    x: shown.x,
                    y: shown.y,
                    width: shown.width,
                    line: line_of(span(" empty", slot_style(Slot::HintDesc))),
                },
            );
            assert(scene(ops@) =~= queue_ops(*self, area));
            return ops;
        }
        let lines = build_display_lines(self.entries);
        proof {
            display_lines_bounds(self.entries@);
            display_lines_belong(self.entries@);
        }
        let height: usize = shown.height as usize;
        let start: usize = if self.mode == Mode::QueueEdit {
            let line = find_line(&lines, self.cursor);
            scroll_to(line, self.scroll_offset, height)
        } else {
            self.scroll_offset
        };
        assert(start == first_shown(*self, shown.height as int));
        let end: usize = if lines.len() - start <= height {
            lines.len()
        } else {
            start + height
        };
        let ghost rows = row_ops(*self, shown, start as int);
        let mut row: u16 = 0;
        assert(head + rows.take(0) =~= head);
        while row < shown.height && (row as usize) < end - start
            invariant
                row <= shown.height,
                row <= end - start,
                start <= end <= lines@.len(),
                end - start <= shown.height,
                end == min_int(start + shown.height, lines@.len() as int),
                fits(shown),
                lines@ == display_lines(self.entries@),
                rows == row_ops(*self, shown, start as int),
                forall|i: int|
                    0 <= i < self.entries@.len() ==> progress_fits(#[trigger] self.entries@[i]),
                forall|l: int|
                    0 <= l < lines@.len() ==> (#[trigger] lines@[l]).0 is Some && lines@[l].0->0
                        < self.entries@.len(),
                scene(ops@) == head + rows.take(row as int),
            decreases end - start - row,
        {
            let at: usize = start + row as usize;
            let (idx, is_header) = lines[at];
            assert(lines@[at as int] == (idx, is_header));
            if let Some(i) = idx {
                let line = if is_header {
                    render_album_header(&self.entries[i])
                } else {
                    render_track_line(&self.entries[i], self.marks(i), self.spinner_tick)
                };
                assert(spans(line@) == line_view(*self, at as int));
                draw(
                    &mut ops,
                    Op::Line { x: shown.x, y: shown.y + row, width: shown.width, line },
                );
            }
            proof {
                take_push(rows, row as int);
                assert((head + rows.take(row as int)).push(rows[row as int]) =~= head + rows.take(
                    row as int + 1,
                ));
            }
            row = row + 1;
        }
        assert(rows.take(row as int) =~= rows);
        if lines.len() > height && height > 0 && shown.width > 1 {
            self.draw_bar(&mut ops, shown, lines.len(), start);
        } else {
            assert(bar_ops(shown, lines@.len() as int, start as int) =~= Seq::empty());
        }
        assert(scene(ops@) =~= queue_ops(*self, area));
        ops
    }

    fn draw_bar(&self, ops: &mut Vec<Op>, area: Rect, total: usize, start: usize)
        requires
            fits(area),
            total > area.height,
            area.height > 0,
            area.width > 1,
        ensures
            scene(final(ops)@) == scene(old(ops)@) + bar_ops(area, total as int, start as int),
    {
        let (size, top) = thumb(area.height, total, start);
        let x: u16 = area.x + area.width - 1;
        let ghost before = scene(ops@);
        let ghost cells = bar_ops(area, total as int, start as int);
        let mut row: u16 = 0;
        assert(before + cells.take(0) =~= before);
        while row < area.height
            invariant
                row <= area.height,
                fits(area),
                total > area.height,
                area.width > 1,
                x == area.x + area.width - 1,
                size == thumb_size(area.height as int, total as int),
                top == thumb_top(area.height as int, total as int, start as int),
                top + size <= 0x1_0000_0000_0000_0000_0000_0000,
                cells == bar_ops(area, total as int, start as int),
                scene(ops@) == before + cells.take(row as int),
            decreases area.height - row,
        {
            let (symbol, style) = cell_of(top, size, row);
            draw(ops, Op::Cell { x, y: area.y + row, symbol, style });
            proof {
                take_push(cells, row as int);
                assert((before + cells.take(row as int)).push(cells[row as int]) =~= before
                    + cells.take(row as int + 1));
            }
            row = row + 1;
        }
        assert(cells.take(row as int) =~= cells);
    }
}

// ---------------------------------------------------------------------------
// What the queue shows
// ---------------------------------------------------------------------------

/// Whether an entry goes on with an album: the nearest one before it that has an album has the
/// same.
pub open spec fn goes_on(entries: Seq<QueueEntry>, i: int) -> bool {
    exists|j: int|
        {
            &&& 0 <= j < i
            &&& (#[trigger] entries[j]).album@.len() > 0
            &&& entries[j].album@ == entries[i].album@
            &&& entries[j].album_artist@ == entries[i].album_artist@
            &&& forall|k: int| j < k < i ==> (#[trigger] entries[k]).album@.len() == 0
        }
}

proof fn last_group_is(entries: Seq<QueueEntry>) -> (j: int)
    ensures
        last_group(entries) is None ==> forall|k: int|
            0 <= k < entries.len() ==> (#[trigger] entries[k]).album@.len() == 0,
        last_group(entries) is Some ==> 0 <= j < entries.len() && entries[j].album@.len() > 0
            && last_group(entries) == Some((entries[j].album_artist@, entries[j].album@))
            && forall|k: int| j < k < entries.len() ==> (#[trigger] entries[k]).album@.len() == 0,
    decreases entries.len(),
{
    if entries.len() == 0 {
        0
    } else if entries.last().album@.len() > 0 {
        entries.len() - 1
    } else {
        let before = entries.drop_last();
        let j = last_group_is(before);
        if last_group(before) is None {
            assert forall|k: int| 0 <= k < entries.len() implies (#[trigger] entries[k]).album@.len()
                == 0 by {
                if k < before.len() {
                    assert(before[k] == entries[k]);
                }
            }
        } else {
            assert(before[j] == entries[j]);
            assert forall|k: int| j < k < entries.len() implies (#[trigger] entries[k]).album@.len()
                == 0 by {
                if k < before.len() {
                    assert(before[k] == entries[k]);
                }
            }
        }
        j
    }
}

/// An entry has a header if and only if it has an album and does not go on with that of the
/// entries before it.
pub proof fn albums_begin_with_a_header(entries: Seq<QueueEntry>, i: int)
    requires
        0 <= i < entries.len(),
    ensures
        has_header(entries, i) <==> entries[i].album@.len() > 0 && !goes_on(entries, i),
{
    let before = entries.take(i);
    let j = last_group_is(before);
    if last_group(before) is Some {
        assert(before[j] == entries[j]);
        assert forall|k: int| j < k < i implies (#[trigger] entries[k]).album@.len() == 0 by {
            assert(before[k] == entries[k]);
        }
    }
    if goes_on(entries, i) {
        let g = choose|g: int|
            {
                &&& 0 <= g < i
                &&& (#[trigger] entries[g]).album@.len() > 0
                &&& entries[g].album@ == entries[i].album@
                &&& entries[g].album_artist@ == entries[i].album_artist@
                &&& forall|k: int| g < k < i ==> (#[trigger] entries[k]).album@.len() == 0
            };
        assert(before[g] == entries[g]);
        if last_group(before) is Some {
            if j < g {
                assert(before[g].album@.len() == 0);
            } else if g < j {
                assert(entries[j].album@.len() == 0);
            }
        }
    } else if entries[i].album@.len() > 0 && last_group(before) is Some {
        assert(0 <= j < i && entries[j].album@.len() > 0);
    }
}

/// Every header stands right above the entry that it is for, and every entry that begins an
/// album has one.
pub proof fn headers_stand_above_their_album(entries: Seq<QueueEntry>)
    requires
        entries.len() <= usize::MAX,
    ensures
        forall|l: int|
            0 <= l < display_lines(entries).len() && (#[trigger] display_lines(entries)[l]).1 ==> {
                let line = display_lines(entries)[l];
                &&& line.0 is Some
                &&& line.0->0 < entries.len()
                &&& entries[line.0->0 as int].album@.len() > 0
                &&& !goes_on(entries, line.0->0 as int)
                &&& l + 1 < display_lines(entries).len()
                &&& display_lines(entries)[l + 1] == (line.0, false)
            },
        forall|i: int|
            0 <= i < entries.len() && (#[trigger] entries[i]).album@.len() > 0 && !goes_on(
                entries,
                i,
            ) ==> display_lines(entries).contains((Some(i as usize), true)),
{
    headers_in_lines(entries);
    assert forall|l: int|
        0 <= l < display_lines(entries).len() && (#[trigger] display_lines(entries)[l]).1 implies {
        let line = display_lines(entries)[l];
        &&& line.0 is Some
        &&& line.0->0 < entries.len()
        &&& entries[line.0->0 as int].album@.len() > 0
        &&& !goes_on(entries, line.0->0 as int)
        &&& l + 1 < display_lines(entries).len()
        &&& display_lines(entries)[l + 1] == (line.0, false)
    } by {
        albums_begin_with_a_header(entries, display_lines(entries)[l].0->0 as int);
    }
    assert forall|i: int|
        0 <= i < entries.len() && (#[trigger] entries[i]).album@.len() > 0 && !goes_on(
            entries,
            i,
        ) implies display_lines(entries).contains((Some(i as usize), true)) by {
        albums_begin_with_a_header(entries, i);
    }
}

proof fn headers_in_lines(entries: Seq<QueueEntry>)
    requires
        entries.len() <= usize::MAX,
    ensures
        forall|l: int|
            0 <= l < display_lines(entries).len() && (#[trigger] display_lines(entries)[l]).1 ==> {
                let line = display_lines(entries)[l];
                &&& line.0 is Some
                &&& line.0->0 < entries.len()
                &&& has_header(entries, line.0->0 as int)
                &&& l + 1 < display_lines(entries).len()
                &&& display_lines(entries)[l + 1] == (line.0, false)
            },
        forall|i: int|
            0 <= i < entries.len() && #[trigger] has_header(entries, i) ==> display_lines(
                entries,
            ).contains((Some(i as usize), true)),
    decreases entries.len(),
{
    let lines = display_lines(entries);
    if entries.len() > 0 {
        let before = entries.drop_last();
        let old_lines = display_lines(before);
        headers_in_lines(before);
        let n = entries.len() - 1;
        assert forall|i: int| 0 <= i < n implies has_header(entries, i) == has_header(
            before,
            i,
        ) by {
            assert(entries.take(i) =~= before.take(i));
        }
        assert forall|l: int| 0 <= l < lines.len() && (#[trigger] lines[l]).1 implies {
            let line = lines[l];
            &&& line.0 is Some
            &&& line.0->0 < entries.len()
            &&& has_header(entries, line.0->0 as int)
            &&& l + 1 < lines.len()
            &&& lines[l + 1] == (line.0, false)
        } by {
            if l < old_lines.len() {
                assert(old_lines[l] == lines[l]);
                assert(old_lines[l + 1] == lines[l + 1]);
            }
        }
        assert forall|i: int|
            0 <= i < entries.len() && #[trigger] has_header(entries, i) implies lines.contains(
            (Some(i as usize), true),
        ) by {
            if i < n {
                assert(has_header(before, i));
                assert(old_lines.contains((Some(i as usize), true)));
                let l = choose|l: int|
                    0 <= l < old_lines.len() && old_lines[l] == (Some(i as usize), true);
                assert(lines[l] == old_lines[l]);
            } else {
                assert(lines[old_lines.len() as int] == (Some(i as usize), true));
            }
        }
    }
}

/// A line of the queue tells the number, the title and the length of its entry, the artist
/// where it is not that of the album, and whether it is a favourite or under the cursor.
pub proof fn lines_tell_their_entry(entry: QueueEntry, marks: RowMarks, tick: nat)
    ensures
        ({
            let line = track_line_view(entry, marks, tick);
            let n = line.len() as int;
            let told = entry.artist@.len() > 0 && entry.artist@ != entry.album_artist@;
            &&& n == if told {
                12int
            } else {
                10
            }
            &&& marks.is_favourite ==> line[1].text == "\u{2605}"@
            &&& !marks.is_favourite ==> line[1].text == " "@
            &&& marks.is_cursor ==> line[2].text == ">"@ && line[n - 3].style == plain(
                Slot::TrackCursor,
            )
            &&& !marks.is_cursor && marks.is_drop_target ==> line[2].text == "\u{25be}"@
            &&& !marks.is_cursor && !marks.is_drop_target && marks.is_selected ==> line[2].text
                == "\u{2502}"@
            &&& !marks.is_cursor && !marks.is_drop_target && !marks.is_selected ==> line[2].text
                == " "@
            &&& entry.status is Playing ==> line[3].text == ">"@
            &&& entry.status is Failed ==> line[3].text == "!"@
            &&& entry.status is Queued || entry.status is Played ==> line[3].text == " "@
            &&& (entry.status is Downloading || entry.status is PriorityPending)
                && entry.download_progress is Some ==> line[3].text == progress_text(
                entry.download_progress->0,
            )
            &&& line[5].text == number_text(entry.disc, entry.track_number)
            &&& told ==> line[7].text == entry.artist@
            &&& line[n - 3].text == entry.title@
            &&& entry.duration_ms is Some ==> line[n - 1].text == time_text(
                entry.duration_ms->0 as nat,
            )
            &&& entry.duration_ms is None ==> line[n - 1].text.len() == 0
        }),
{
}

/// A track is numbered with two digits at least, behind its disc from the second on.
pub proof fn tracks_are_numbered(disc: Option<i64>, number: Option<i64>)
    ensures
        number is None ==> number_text(disc, number) == "  "@,
        number is Some && (disc is None || disc->0 <= 1) && number->0 >= 10 ==> number_text(
            disc,
            number,
        ) == decimal_int(number->0 as int),
        number is Some && (disc is None || disc->0 <= 1) && 0 <= number->0 < 10 ==> number_text(
            disc,
            number,
        ) == seq!['0', digit_char(number->0 as int)],
        number is Some && disc is Some && disc->0 > 1 ==> number_text(disc, number) == decimal_int(
            disc->0 as int,
        ) + "-"@ + number_text(None, number),
{
    reveal_strlit("0");
    if number is Some && 0 <= number->0 < 10 {
        assert("0"@ + decimal(number->0 as nat) =~= seq!['0', digit_char(number->0 as int)]);
    }
}

/// A download shows how many hundredths are there, rounded down and never a hundred; one whose
/// size is not known how many kilobytes.
pub proof fn downloads_show_how_far_they_are(downloaded: u64, total: u64, pct: nat)
    requires
        pct <= 99,
        total > 0,
        pct * total <= 100 * downloaded,
        100 * downloaded < (pct + 1) * total || (pct == 99 && downloaded >= total),
    ensures
        ends_with(progress_text((downloaded, total)), decimal(pct) + "%"@),
        progress_text((downloaded, total)).len() <= decimal(pct).len() + 2,
        progress_text((downloaded, 0)) == decimal((downloaded / 1024) as nat) + "K"@,
{
    reveal_strlit(" ");
    reveal_strlit("%");
    let d = downloaded * 100;
    let t = total as int;
    let q = d / t;
    assert(q * t <= d < (q + 1) * t) by (nonlinear_arith)
        requires
            q == d / t,
            t > 0,
            d >= 0,
    ;
    if pct == 99 && downloaded >= total {
        assert(q >= 99) by (nonlinear_arith)
            requires
                d < (q + 1) * t,
                d == downloaded * 100,
                downloaded >= t,
                t > 0,
        ;
    } else {
        assert(q == pct) by (nonlinear_arith)
            requires
                q * t <= d < (q + 1) * t,
                pct * t <= d < (pct + 1) * t,
                t > 0,
        ;
    }
    let s = progress_text((downloaded, total));
    let tail = decimal(pct) + "%"@;
    assert(s.skip(s.len() - tail.len()) =~= tail);
}

/// The header of an album tells its artist, its year and its codec where they are known, and
/// its title.
pub proof fn headers_tell_their_album(entry: QueueEntry)
    ensures
        ({
            let line = header_view(entry);
            &&& line.len() == 6
            &&& line[1].text == entry.album_artist@
            &&& line[2].text == " \u{2014} "@
            &&& entry.year is Some ==> line[3].text == "("@ + entry.year->0@ + ") "@
            &&& entry.year is None ==> line[3].text.len() == 0
            &&& line[4].text == entry.album@
            &&& entry.codec is Some ==> line[5].text == " ["@ + entry.codec->0@ + "]"@
            &&& entry.codec is None ==> line[5].text.len() == 0
        }),
{
}

/// Below its title, which counts the entries, the queue shows its lines from the first that is
/// to be seen on, one below the other, each telling its entry; an empty one says so.
pub proof fn queues_show_their_lines(view: QueueView, area: Rect, row: int)
    requires
        fits(area),
        area.height > 1,
        0 <= row < area.height - 1,
        0 <= first_shown(view, area.height - 1),
        first_shown(view, area.height - 1) + row < display_lines(view.entries@).len(),
        view.entries@.len() > 0,
        view.entries@.len() <= usize::MAX,
    ensures
        ({
            let ops = queue_ops(view, area);
            let l = first_shown(view, area.height - 1) + row;
            let (idx, is_header) = display_lines(view.entries@)[l];
            let e = view.entries@[idx->0 as int];
            &&& ops[0] is Frame
            &&& ops[0]->title[1].text == "("@ + decimal(view.entries@.len()) + ") "@
            &&& ops[1 + row] is Line
            &&& ops[1 + row]->Line_x == area.x
            &&& ops[1 + row]->Line_y == area.y + 1 + row
            &&& ops[1 + row]->Line_width == area.width
            &&& is_header ==> ops[1 + row]->line == header_view(e)
            &&& !is_header ==> ops[1 + row]->line == track_line_view(
                e,
                marks_of(view, idx->0 as int),
                view.spinner_tick as nat,
            )
        }),
{
    let ops = queue_ops(view, area);
    let shown = inner_area(area, Sides::Top);
    let start = first_shown(view, shown.height as int);
    let rows = row_ops(view, shown, start);
    assert(ops[1 + row] == rows[row]);
}

/// An entry is under the cursor only while the queue is edited, is selected if its number is,
/// is hovered only where it is neither, and is a favourite if its file is one.
pub proof fn entries_are_marked(view: QueueView, i: int)
    requires
        0 <= i < view.entries@.len(),
        view.entries@.len() <= usize::MAX,
    ensures
        ({
            let m = marks_of(view, i);
            &&& m.is_cursor <==> view.mode is QueueEdit && view.cursor == i
            &&& m.is_selected <==> view.selected@.contains(i as usize)
            &&& m.is_drop_target <==> view.drop_indicator == Some(i as usize)
            &&& m.is_hovered <==> view.hover_index == Some(i as usize) && !m.is_cursor
                && !m.is_selected
            &&& view.favourites is None ==> !m.is_favourite
            &&& m.is_favourite <==> view.favourites is Some && exists|k: int|
                0 <= k < view.favourites->0@.len() && same_components(
                    (#[trigger] view.favourites->0@[k])@,
                    view.entries@[i].path@,
                )
        }),
{
    if let Some(f) = view.favourites {
        let path = view.entries@[i].path@;
        if lists_path(texts(f@), path) {
            let k = choose|k: int|
                0 <= k < texts(f@).len() && same_components(#[trigger] texts(f@)[k], path);
            assert(same_components(f@[k]@, path));
        }
        if exists|k: int| 0 <= k < f@.len() && same_components((#[trigger] f@[k])@, path) {
            let k = choose|k: int| 0 <= k < f@.len() && same_components((#[trigger] f@[k])@, path);
            assert(texts(f@)[k] == f@[k]@);
        }
    }
}

/// A click on a line finds the entry that the line shows, and one on a header the entries of
/// its album from the first on.
pub proof fn clicks_find_entries(entries: Seq<QueueEntry>, line: int)
    requires
        0 <= line < display_lines(entries).len(),
    ensures
        !display_lines(entries)[line].1 ==> entry_at(entries, line) == display_lines(
            entries,
        )[line].0 && group_at(entries, line) is None,
        display_lines(entries)[line].1 ==> entry_at(entries, line) is None,
        display_lines(entries)[line].1 && display_lines(entries)[line].0 is Some ==> match group_at(
            entries,
            line,
        ) {
            Some((first, _)) => Some(first) == display_lines(entries)[line].0,
            None => false,
        },
        entry_at(entries, -1) is None,
        entry_at(entries, display_lines(entries).len() as int) is None,
{
}

/// Scrolling moves no further than it has to: what is in sight stays where it is, what is
/// above comes to the top, and what is below to the bottom.
pub proof fn scrolling_moves_no_further_than_needed(line: int, current: int, height: int)
    requires
        0 <= line,
        0 <= current,
        height > 0,
    ensures
        current <= line < current + height ==> scrolled_to(line, current, height) == current,
        line < current ==> scrolled_to(line, current, height) == line,
        line >= current + height ==> scrolled_to(line, current, height) == line - height + 1,
{
}

/// The line of the cursor is that of the entry it is on, and the top line for it that or its
/// header.
pub proof fn cursors_have_a_line(entries: Seq<QueueEntry>, cursor: usize)
    requires
        cursor < entries.len(),
        entries.len() <= usize::MAX,
    ensures
        ({
            let lines = display_lines(entries);
            let l = cursor_line(entries, cursor);
            let top = top_of_cursor(entries, cursor);
            &&& 0 <= l < lines.len()
            &&& lines[l] == (Some(cursor), false)
            &&& l > 0 && lines[l - 1].1 ==> top == l - 1
            &&& l == 0 || !lines[l - 1].1 ==> top == l
        }),
{
    let lines = display_lines(entries);
    each_entry_has_one_line(entries);
    let tracks = lines.filter(|l: DisplayLine| !l.1);
    assert(tracks[cursor as int] == (Some(cursor), false));
    assert(tracks.contains((Some(cursor), false)));
    filter_contains(lines, |l: DisplayLine| !l.1, (Some(cursor), false));
    let k = choose|k: int| 0 <= k < lines.len() && lines[k] == (Some(cursor), false);
    first_line_is(lines, cursor, k);
}

proof fn first_line_is(lines: Seq<DisplayLine>, cursor: usize, k: int)
    requires
        0 <= k < lines.len(),
        lines[k] == (Some(cursor), false),
    ensures
        0 <= first_line(lines, cursor) <= k,
        lines[first_line(lines, cursor)] == (Some(cursor), false),
    decreases lines.len(),
{
    if lines[0] != (Some(cursor), false) {
        let rest = lines.skip(1);
        assert(rest[k - 1] == lines[k]);
        first_line_is(rest, cursor, k - 1);
        assert(rest[first_line(rest, cursor)] == lines[first_line(lines, cursor)]);
    }
}

/// The cells of the scrollbar that the thumb covers whole are full, those that it does not
/// touch are empty, and those at its ends are filled by the eighths that it covers.
pub proof fn thumbs_fill_their_cells(top: int, size: int, row: int)
    requires
        0 <= top,
        8 <= size,
        0 <= row,
    ensures
        ({
            let cell = bar_cell(top, size, row);
            let from = row * 8;
            let to = row * 8 + 8;
            &&& top <= from && to <= top + size ==> cell.0 == '\u{2588}'
            &&& to <= top || top + size <= from ==> cell.0 == ' '
            &&& from < top < to ==> cell.0 == (0x2580 + (to - top)) as char
            &&& from < top + size < to ==> cell.0 == (0x2580 + (8 - (top + size - from))) as char
        }),
{
}

} // verus!
