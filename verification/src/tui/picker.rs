//! Fuzzy pickers: typing a query, moving through the matches, choosing.

use vstd::prelude::*;

use crate::fuzzy::{
    appended, empty_query_keeps_order, fuzzy_score, in_order, inject, injected, matches_are_shown_once, new_matcher, numbered, query_of, set_query,
    settled_on, shown, shown_are_indices, shown_at, shown_count, tick, ticked,
};
use crate::lists::take_push;
use crate::text::{begins_with, concat3, decimal, push_decimal};
use crate::tui::cursor::{down, step_down, step_up, up};
use crate::tui::screen::{
    add_span, bold, bold_style, centre, centred, draw, empty_line, fits, greatest, inner,
    inner_area, least, line_of, lines_of, max_int, min_int, piece, plain, scene, slot_style, span,
    span_of, spans, split_in_rows, split_rows, styled, sub0, within, LineView, Op, OpView, Rect,
    Sides, Slot, Span, SpanView, Style,
};

verus! {

broadcast use crate::lists::group_lists;

/// What a picker picks.
#[derive(Clone, Copy, Debug, PartialEq, Eq, Structural)]
pub enum PickerKind {
    Track,
    Album,
    Artist,
    QueueJump,
}

/// The kinds of text in a picker row.
#[derive(Clone, Copy, Debug, PartialEq, Eq, Structural)]
pub enum PickerPartKind {
    Artist,
    Album,
    Title,
    Date,
    TrackNum,
    Duration,
    Separator,
    Codec,
    Plain,
}

/// One thing to pick.
#[derive(Debug)]
pub struct PickerItem {
    pub id: i64,
    pub display: String,
    /// What the query is matched against.
    pub match_text: String,
    /// The row in pieces, each of a kind; empty to show `display`.
    pub parts: Vec<(String, PickerPartKind)>,
}

// ---------------------------------------------------------------------------
// "All tracks of an artist" among album ids
// ---------------------------------------------------------------------------

/// The id of the entry for all tracks of an artist.
pub fn all_tracks_sentinel(artist_id: i64) -> (r: i64)
    requires
        artist_id > i64::MIN,
    ensures
        r == -artist_id,
{
    -artist_id
}

/// Whether an id is that of an entry for all tracks of an artist.
pub fn is_all_tracks_sentinel(id: i64) -> (r: bool)
    ensures
        r == (id < 0),
{
    id < 0
}

/// The magnitude of a number, wrapping round for the least of all.
pub open spec fn wrapped_magnitude(id: i64) -> i64 {
    if id == i64::MIN {
        id
    } else if id < 0 {
        (-id) as i64
    } else {
        id
    }
}

/// The artist whose tracks an entry stands for.
pub fn artist_id_from_sentinel(id: i64) -> (r: i64)
    ensures
        r == wrapped_magnitude(id),
{
    if id == i64::MIN || id >= 0 {
        id
    } else {
        -id
    }
}

/// The id of every artist comes back from its sentinel, and the sentinel of one above
/// zero is told from an album's id.
pub proof fn sentinels_come_back(artist_id: i64)
    requires
        artist_id >= 0,
    ensures
        wrapped_magnitude((-artist_id) as i64) == artist_id,
        artist_id > 0 ==> ((-artist_id) as i64) < 0,
{
}

// ---------------------------------------------------------------------------
// State
// ---------------------------------------------------------------------------

/// A picker over a list of items.
pub struct PickerState {
    pub kind: PickerKind,
    pub query: String,
    pub cursor: usize,
    /// Indices of the chosen items, in the order they were chosen.
    pub selected: Vec<usize>,
    pub items: Vec<PickerItem>,
    pub matcher: nucleo::Nucleo<u32>,
    pub multi: bool,
}

/// What the items are matched by.
pub open spec fn match_texts(items: Seq<PickerItem>) -> Seq<Seq<char>> {
    items.map_values(|i: PickerItem| i.match_text@)
}

/// The items that match, as indices, best first.
pub open spec fn matches_of(p: PickerState) -> Seq<u32> {
    shown(p.matcher)
}

/// A list of indices with one put in, or taken out if it was there.
pub open spec fn toggled(selected: Seq<usize>, idx: usize) -> Seq<usize> {
    if selected.contains(idx) {
        selected.remove(selected.index_of_first(idx)->0)
    } else {
        selected.push(idx)
    }
}

impl PickerState {
    /// The matcher holds the items and the query, and the chosen and the matching
    /// indices are those of items.
    pub open spec fn wf(self) -> bool {
        &&& self.items@.len() <= u32::MAX - 32
        &&& injected(self.matcher) == numbered(match_texts(self.items@))
        &&& query_of(self.matcher) == self.query@
        &&& settled_on(
            injected(self.matcher),
            ticked(self.matcher),
            shown(self.matcher),
            !appended(self.matcher),
        )
        &&& forall|i: int|
            0 <= i < self.selected@.len() ==> (#[trigger] self.selected@[i]) < self.items@.len()
    }

    /// Everything but the matches and what is named.
    pub open spec fn same_but(self, other: Self, query: Seq<char>, cursor: int) -> bool {
        &&& self.kind == other.kind
        &&& self.query@ == query
        &&& self.cursor == cursor
        &&& self.selected == other.selected
        &&& self.items == other.items
        &&& self.multi == other.multi
    }

    /// A picker over `items`, with nothing typed and nothing chosen. It shows all items in
    /// their order, or nothing as long as the matcher's threads run.
    pub fn new(kind: PickerKind, items: Vec<PickerItem>, multi: bool) -> (r: Self)
        requires
            items@.len() <= u32::MAX - 32,
        ensures
            r.wf(),
            r.kind == kind,
            r.query@ == Seq::<char>::empty(),
            r.cursor == 0,
            r.selected@ == Seq::<usize>::empty(),
            r.items == items,
            r.multi == multi,
            ticked(r.matcher) == set![Seq::<char>::empty()],
            !appended(r.matcher),
            matches_of(r).len() == 0 || matches_of(r) == in_order(items@.len()),
    {
        let mut matcher = new_matcher();
        let ghost all = numbered(match_texts(items@));
        let mut i: usize = 0;
        assert(all.take(0) =~= Seq::empty());
        while i < items.len()
            invariant
                i <= items@.len() <= u32::MAX - 32,
                all == numbered(match_texts(items@)),
                injected(matcher) == all.take(i as int),
                query_of(matcher) == Seq::<char>::empty(),
                ticked(matcher) == Set::<Seq<char>>::empty(),
                !appended(matcher),
                forall|t: Seq<char>| (#[trigger] fuzzy_score(Seq::empty(), t)) is Some,
            decreases items@.len() - i,
        {
            inject(&mut matcher, i as u32, items[i].match_text.as_str());
            proof {
                take_push(all, i as int);
            }
            i = i + 1;
        }
        assert(all.take(i as int) =~= all);
        tick(&mut matcher);
        assert(ticked(matcher) =~= set![Seq::<char>::empty()]);
        proof {
            empty_query_keeps_order(match_texts(items@), shown(matcher));
        }
        PickerState {
            kind,
            query: String::new(),
            cursor: 0,
            selected: Vec::new(),
            items,
            matcher,
            multi,
        }
    }

    /// What stands before the query.
    pub fn prompt(&self) -> (r: &'static str)
        ensures
            r@ == prompt_text(self.kind),
    {
        match self.kind {
            PickerKind::Track => "enqueue>",
            PickerKind::Album => "album>",
            PickerKind::Artist => "artist>",
            PickerKind::QueueJump => "jump>",
        }
    }

    fn reparse(&mut self, append: bool)
        requires
            append ==> begins_with(old(self).query@, query_of(old(self).matcher)),
        ensures
            final(self).same_but(*old(self), old(self).query@, old(self).cursor as int),
            final(self).query == old(self).query,
            injected(final(self).matcher) == injected(old(self).matcher),
            query_of(final(self).matcher) == old(self).query@,
            ticked(final(self).matcher) == ticked(old(self).matcher).insert(old(self).query@),
            settled_on(
                injected(final(self).matcher),
                ticked(final(self).matcher),
                shown(final(self).matcher),
                !appended(final(self).matcher),
            ),
            appended(final(self).matcher) == (append || appended(old(self).matcher)),
    {
        set_query(&mut self.matcher, self.query.as_str(), append);
        tick(&mut self.matcher);
    }

    /// Types a character; the matches start again from the top.
    pub fn type_char(&mut self, c: char)
        requires
            old(self).wf(),
        ensures
            final(self).wf(),
            final(self).same_but(*old(self), old(self).query@.push(c), 0),
            ticked(final(self).matcher) == ticked(old(self).matcher).insert(
                old(self).query@.push(c),
            ),
    {
        let ghost before = self.query@;
        self.query.push(c);
        assert(self.query@.take(before.len() as int) =~= before);
        self.reparse(true);
        self.cursor = 0;
    }

    /// Takes the last character back, if there is one; the matches start again
    /// from the top.
    pub fn backspace(&mut self)
        requires
            old(self).wf(),
        ensures
            final(self).wf(),
            old(self).query@.len() > 0 ==> final(self).same_but(
                *old(self),
                old(self).query@.drop_last(),
                0,
            ) && ticked(final(self).matcher) == ticked(old(self).matcher).insert(
                old(self).query@.drop_last(),
            ),
            old(self).query@.len() == 0 ==> final(self).same_but(
                *old(self),
                old(self).query@,
                old(self).cursor as int,
            ) && final(self).matcher == old(self).matcher,
    {
        if self.query.pop().is_some() {
            self.reparse(false);
            self.cursor = 0;
        }
    }

    /// How many items match.
    pub fn matched_count(&self) -> (r: usize)
        ensures
            r == matches_of(*self).len(),
            r <= u32::MAX,
    {
        shown_count(&self.matcher) as usize
    }

    /// One up, from the top to the bottom.
    pub fn move_up(&mut self)
        ensures
            final(self).cursor == up(old(self).cursor as int, matches_of(*old(self)).len() as int),
            *final(self) == (PickerState { cursor: final(self).cursor, ..*old(self) }),
    {
        self.cursor = step_up(self.cursor, self.matched_count());
    }

    /// One down, from the bottom to the top.
    pub fn move_down(&mut self)
        ensures
            final(self).cursor == down(
                old(self).cursor as int,
                matches_of(*old(self)).len() as int,
            ),
            *final(self) == (PickerState { cursor: final(self).cursor, ..*old(self) }),
    {
        self.cursor = step_down(self.cursor, self.matched_count());
    }

    /// A page up, to the top at most.
    pub fn page_up(&mut self, page_size: usize)
        ensures
            final(self).cursor == sub0(old(self).cursor as int, page_size as int),
            *final(self) == (PickerState { cursor: final(self).cursor, ..*old(self) }),
    {
        self.cursor = self.cursor.saturating_sub(page_size);
    }

    /// A page down, to the last match at most.
    pub fn page_down(&mut self, page_size: usize)
        requires
            old(self).cursor + page_size <= usize::MAX,
        ensures
            final(self).cursor == if matches_of(*old(self)).len() > 0 {
                min_int(old(self).cursor + page_size, matches_of(*old(self)).len() - 1)
            } else {
                old(self).cursor as int
            },
            *final(self) == (PickerState { cursor: final(self).cursor, ..*old(self) }),
    {
        let count = self.matched_count();
        if count > 0 {
            let target: usize = self.cursor + page_size;
            self.cursor = if target <= count - 1 {
                target
            } else {
                count - 1
            };
        }
    }

    /// To the first match.
    pub fn jump_to_start(&mut self)
        ensures
            *final(self) == (PickerState { cursor: 0, ..*old(self) }),
    {
        self.cursor = 0;
    }

    /// To the last match.
    pub fn jump_to_end(&mut self)
        ensures
            final(self).cursor == if matches_of(*old(self)).len() > 0 {
                matches_of(*old(self)).len() - 1
            } else {
                old(self).cursor as int
            },
            *final(self) == (PickerState { cursor: final(self).cursor, ..*old(self) }),
    {
        let count = self.matched_count();
        if count > 0 {
            self.cursor = count - 1;
        }
    }

    /// The index of the item at the cursor.
    pub open spec fn at_cursor(self) -> Option<usize> {
        let rank = (self.cursor as int % 0x1_0000_0000) as int;
        if rank < matches_of(self).len() {
            Some(matches_of(self)[rank] as usize)
        } else {
            None
        }
    }

    fn data_index_at_cursor(&self) -> (r: Option<usize>)
        requires
            self.wf(),
        ensures
            r == self.at_cursor(),
            r is Some ==> r->0 < self.items@.len(),
    {
        proof {
            shown_are_indices(
                match_texts(self.items@),
                ticked(self.matcher),
                shown(self.matcher),
                !appended(self.matcher),
            );
        }
        let rank: u32 = (self.cursor as u64 % 0x1_0000_0000) as u32;
        match shown_at(&self.matcher, rank) {
            Some(idx) => Some(idx as usize),
            None => None,
        }
    }

    /// Chooses the item at the cursor, or takes it back, and moves on. Only where
    /// several can be chosen.
    pub fn toggle_select(&mut self)
        requires
            old(self).wf(),
        ensures
            final(self).wf(),
            final(self).kind == old(self).kind,
            final(self).query == old(self).query,
            final(self).items == old(self).items,
            final(self).multi == old(self).multi,
            final(self).matcher == old(self).matcher,
            match old(self).at_cursor() {
                Some(idx) if old(self).multi => {
                    &&& final(self).selected@ == toggled(old(self).selected@, idx)
                    &&& final(self).cursor == down(
                        old(self).cursor as int,
                        matches_of(*old(self)).len() as int,
                    )
                },
                _ => final(self).selected == old(self).selected && final(self).cursor == old(
                    self,
                ).cursor,
            },
    {
        if !self.multi {
            return;
        }
        if let Some(idx) = self.data_index_at_cursor() {
            let ghost chosen = self.selected@;
            match position(&self.selected, idx) {
                Some(pos) => {
                    let _removed: usize = self.selected.remove(pos);
                    assert forall|i: int| 0 <= i < self.selected@.len() implies (
                    #[trigger] self.selected@[i]) < self.items@.len() by {
                        if i < pos {
                            assert(self.selected@[i] == chosen[i]);
                        } else {
                            assert(self.selected@[i] == chosen[i + 1]);
                        }
                    }
                },
                None => {
                    self.selected.push(idx);
                },
            }
            self.move_down();
        }
    }

    /// The ids of what was picked: the chosen items where several can be chosen and
    /// some are, else the item at the cursor.
    pub fn confirm(&self) -> (r: Vec<i64>)
        requires
            self.wf(),
        ensures
            r@ == self.picked(),
    {
        if self.multi && self.selected.len() > 0 {
            let ghost all = self.picked();
            let mut out: Vec<i64> = Vec::new();
            let mut i: usize = 0;
            while i < self.selected.len()
                invariant
                    i <= self.selected@.len(),
                    self.wf(),
                    all == self.selected@.map_values(|k: usize| self.items@[k as int].id),
                    out@ == all.take(i as int),
                decreases self.selected@.len() - i,
            {
                assert(self.selected@[i as int] < self.items@.len());
                out.push(self.items[self.selected[i]].id);
                proof {
                    take_push(all, i as int);
                }
                i = i + 1;
            }
            assert(all.take(i as int) =~= all);
            return out;
        }
        let mut out: Vec<i64> = Vec::new();
        if let Some(idx) = self.data_index_at_cursor() {
            out.push(self.items[idx].id);
        }
        assert(out@ =~= self.picked());
        out
    }

    /// The ids of what was picked.
    pub open spec fn picked(self) -> Seq<i64> {
        if self.multi && self.selected@.len() > 0 {
            self.selected@.map_values(|k: usize| self.items@[k as int].id)
        } else {
            match self.at_cursor() {
                Some(idx) => seq![self.items@[idx as int].id],
                None => Seq::empty(),
            }
        }
    }

    /// Lets the matcher run for a moment.
    pub fn tick(&mut self)
        requires
            old(self).wf(),
        ensures
            final(self).wf(),
            final(self).same_but(*old(self), old(self).query@, old(self).cursor as int),
            ticked(final(self).matcher) == ticked(old(self).matcher).insert(old(self).query@),
    {
        tick(&mut self.matcher);
    }
}

/// What stands before the query.
pub open spec fn prompt_text(kind: PickerKind) -> Seq<char> {
    match kind {
        PickerKind::Track => "enqueue>"@,
        PickerKind::Album => "album>"@,
        PickerKind::Artist => "artist>"@,
        PickerKind::QueueJump => "jump>"@,
    }
}

fn position(v: &Vec<usize>, x: usize) -> (r: Option<usize>)
    ensures
        match r {
            Some(i) => v@.contains(x) && v@.index_of_first(x) == Some(i as int) && i < v@.len(),
            None => !v@.contains(x),
        },
{
    let mut i: usize = 0;
    while i < v.len()
        invariant
            i <= v@.len(),
            forall|k: int| 0 <= k < i ==> v@[k] != x,
        decreases v@.len() - i,
    {
        if v[i] == x {
            proof {
                v@.index_of_first_ensures(x);
                let k = v@.index_of_first(x)->0;
                assert(v@.contains(v@[i as int]));
                if k < i {
                    assert(v@[k] == x);
                }
                if i < k {
                    assert(v@[i as int] != x);
                }
            }
            return Some(i);
        }
        i = i + 1;
    }
    None
}

/// No item is listed twice among the matches.
pub proof fn matches_are_listed_once(state: PickerState)
    requires
        state.wf(),
    ensures
        shown(state.matcher).no_duplicates(),
{
    matches_are_shown_once(
        match_texts(state.items@),
        ticked(state.matcher),
        shown(state.matcher),
        !appended(state.matcher),
    );
}

/// Choosing an item that is not chosen, and then taking it back, leaves the choice
/// as it was.
pub proof fn toggling_twice_restores(selected: Seq<usize>, idx: usize)
    requires
        !selected.contains(idx),
    ensures
        toggled(toggled(selected, idx), idx) == selected,
{
    let more = selected.push(idx);
    assert(more[selected.len() as int] == idx);
    assert(more.contains(idx));
    more.index_of_first_ensures(idx);
    let k = more.index_of_first(idx)->0;
    if k < selected.len() {
        assert(selected[k] == idx);
        assert(selected.contains(idx));
    }
    assert(more.remove(selected.len() as int) =~= selected);
}

// ---------------------------------------------------------------------------
// Picture
// ---------------------------------------------------------------------------

/// Three fifths of the width and seven tenths of the height of an area, at least
/// 40 by 10 and at most the area, in its middle.
pub open spec fn picker_popup(area: Rect) -> Rect {
    centred(
        area,
        min_int(max_int(area.width * 3 / 5, 40), area.width as int),
        min_int(max_int(area.height * 7 / 10, 10), area.height as int),
    )
}

/// The rows of a popup between the query and the hints; nothing if there is no
/// room for all three.
pub open spec fn results_area(popup: Rect) -> Rect {
    let within_frame = inner_area(popup, Sides::All);
    if within_frame.height < 3 {
        Rect { x: 0, y: 0, width: 0, height: 0 }
    } else {
        Rect {
            x: within_frame.x,
            y: (within_frame.y + 1) as u16,
            width: within_frame.width,
            height: (within_frame.height - 2) as u16,
        }
    }
}

/// The popup rectangle of a picker.
pub fn picker_popup_rect(area: Rect) -> (r: Rect)
    requires
        fits(area),
    ensures
        r == picker_popup(area),
        within(r, area),
        fits(r),
{
    let w: u16 = least(greatest((area.width as u32 * 3 / 5) as u16, 40), area.width);
    let h: u16 = least(greatest((area.height as u32 * 7 / 10) as u16, 10), area.height);
    centre(area, w, h)
}

/// The rectangle of the results in a popup, for finding what a click hits.
pub fn picker_results_rect(popup: Rect) -> (r: Rect)
    requires
        fits(popup),
    ensures
        r == results_area(popup),
{
    let within_frame = inner(popup, Sides::All);
    if within_frame.height < 3 {
        return Rect { x: 0, y: 0, width: 0, height: 0 };
    }
    Rect {
        x: within_frame.x,
        y: within_frame.y + 1,
        width: within_frame.width,
        height: within_frame.height - 2,
    }
}

/// However the popup is split for drawing, the results are drawn where clicks on
/// them are looked for.
pub proof fn results_are_drawn_where_clicked(popup: Rect, rows: Seq<Rect>)
    requires
        fits(popup),
        inner_area(popup, Sides::All).height >= 3,
        split_in_rows(rows, inner_area(popup, Sides::All), 1, 1, 1),
    ensures
        rows[1] == results_area(popup),
{
}

/// The frame of a picker, with its prompt.
pub open spec fn picker_frame(kind: PickerKind, popup: Rect) -> Seq<OpView> {
    seq![
        OpView::Clear(popup),
        OpView::Frame {
            area: popup,
            sides: Sides::All,
            border: plain(Slot::Unstyled),
            title: seq![
                styled(" "@ + prompt_text(kind) + " "@, bold(plain(Slot::AlbumHeaderArtist))),
            ],
        },
    ]
}

/// The query, and how many of the items match it.
pub open spec fn query_line(p: PickerState) -> LineView {
    seq![
        piece(" > "@, Slot::TrackPlaying),
        piece(p.query@, Slot::Unstyled),
        piece(
            "  "@ + decimal(matches_of(p).len()) + "/"@ + decimal(p.items@.len()),
            Slot::HintDesc,
        ),
    ]
}

/// The style of a result.
pub open spec fn result_slot(is_cursor: bool, is_selected: bool) -> Slot {
    if is_cursor {
        Slot::PickerCursor
    } else if is_selected {
        Slot::AlbumHeaderAlbum
    } else {
        Slot::TrackNormal
    }
}

/// The mark of a result.
pub open spec fn result_mark(is_cursor: bool, is_selected: bool) -> Seq<char> {
    if is_cursor {
        "\u{25B8} "@
    } else if is_selected {
        "\u{25C6} "@
    } else {
        "  "@
    }
}

/// A part of a result, in the style of its kind with the row's laid over it.
pub open spec fn part_span(part: (Seq<char>, PickerPartKind), row: Slot) -> SpanView {
    styled(part.0, Style { patch: row, ..plain(Slot::PickerPart(part.1)) })
}

/// The parts of an item, as values.
pub open spec fn parts_view(parts: Seq<(String, PickerPartKind)>) -> Seq<
    (Seq<char>, PickerPartKind),
> {
    parts.map_values(|p: (String, PickerPartKind)| (p.0@, p.1))
}

/// One result.
pub open spec fn result_line(item: PickerItem, is_cursor: bool, is_selected: bool) -> LineView {
    let row = result_slot(is_cursor, is_selected);
    seq![piece(" "@, row), piece(result_mark(is_cursor, is_selected), row)] + (
    if item.parts@.len() == 0 {
        seq![piece(item.display@, row)]
    } else {
        parts_view(item.parts@).map_values(
            |part: (Seq<char>, PickerPartKind)| part_span(part, row),
        )
    })
}

/// The first rank on a screen of some height; the cursor is the last at most.
pub open spec fn first_rank(cursor: int, height: int) -> int {
    if cursor >= height {
        cursor - height + 1
    } else {
        0
    }
}

/// One result, highlighted over the full width.
pub open spec fn result_ops(p: PickerState, area: Rect, start: int, row: int) -> Seq<OpView> {
    let idx = matches_of(p)[start + row];
    let is_cursor = start + row == p.cursor;
    let is_selected = p.selected@.contains(idx as usize);
    let y = (area.y + row) as u16;
    seq![
        OpView::Fill {
            area: Rect { x: area.x, y, width: area.width, height: 1 },
            style: plain(result_slot(is_cursor, is_selected)),
        },
        OpView::Line {
            x: area.x,
            y,
            width: area.width,
            line: result_line(p.items@[idx as int], is_cursor, is_selected),
        },
    ]
}

/// The first `rows` results on screen.
pub open spec fn results_ops(p: PickerState, area: Rect, start: int, rows: nat) -> Seq<OpView>
    decreases rows,
{
    if rows == 0 {
        Seq::empty()
    } else {
        results_ops(p, area, start, (rows - 1) as nat) + result_ops(p, area, start, rows - 1)
    }
}

/// How many results are on a screen of some height.
pub open spec fn results_shown(p: PickerState, height: int) -> int {
    let start = first_rank(p.cursor as int, height);
    sub0(min_int(start + height, matches_of(p).len() as int), start)
}

/// The keys of a picker.
pub open spec fn picker_hints(multi: bool) -> LineView {
    if multi {
        seq![
            piece(" \u{2191}\u{2193}"@, Slot::HintKey),
            piece(" navigate  "@, Slot::HintDesc),
            piece("tab"@, Slot::HintKey),
            piece(" select  "@, Slot::HintDesc),
            piece("enter"@, Slot::HintKey),
            piece(" confirm  "@, Slot::HintDesc),
            piece("esc"@, Slot::HintKey),
            piece(" cancel"@, Slot::HintDesc),
        ]
    } else {
        seq![
            piece(" \u{2191}\u{2193}"@, Slot::HintKey),
            piece(" navigate  "@, Slot::HintDesc),
            piece("enter"@, Slot::HintKey),
            piece(" select  "@, Slot::HintDesc),
            piece("esc"@, Slot::HintKey),
            piece(" cancel"@, Slot::HintDesc),
        ]
    }
}

/// What is drawn inside the popup, given its three stacked parts.
pub open spec fn picker_body(p: PickerState, rows: Seq<Rect>) -> Seq<OpView> {
    let height = rows[1].height as int;
    seq![OpView::Paragraph { area: rows[0], lines: seq![query_line(p)] }] + results_ops(
        p,
        rows[1],
        first_rank(p.cursor as int, height),
        results_shown(p, height) as nat,
    ) + seq![
        OpView::Line {
            x: rows[2].x,
            y: rows[2].y,
            width: rows[2].width,
            line: picker_hints(p.multi),
        },
    ]
}

fn query_text(p: &PickerState) -> (r: Vec<Span>)
    ensures
        spans(r@) == query_line(*p),
{
    let mut counts = "  ".to_owned();
    push_decimal(&mut counts, p.matched_count() as u64);
    counts.push_str("/");
    push_decimal(&mut counts, p.items.len() as u64);
    let mut line = empty_line();
    add_span(&mut line, span(" > ", slot_style(Slot::TrackPlaying)));
    add_span(&mut line, span(p.query.as_str(), slot_style(Slot::Unstyled)));
    add_span(&mut line, span_of(counts, slot_style(Slot::HintDesc)));
    assert(spans(line@) =~= query_line(*p));
    line
}

fn slot_of(is_cursor: bool, is_selected: bool) -> (r: Slot)
    ensures
        r == result_slot(is_cursor, is_selected),
{
    if is_cursor {
        Slot::PickerCursor
    } else if is_selected {
        Slot::AlbumHeaderAlbum
    } else {
        Slot::TrackNormal
    }
}

fn result_text(item: &PickerItem, is_cursor: bool, is_selected: bool) -> (r: Vec<Span>)
    ensures
        spans(r@) == result_line(*item, is_cursor, is_selected),
{
    let row = slot_of(is_cursor, is_selected);
    let mark = if is_cursor {
        "\u{25B8} "
    } else if is_selected {
        "\u{25C6} "
    } else {
        "  "
    };
    let mut line = empty_line();
    add_span(&mut line, span(" ", slot_style(row)));
    add_span(&mut line, span(mark, slot_style(row)));
    let ghost head = spans(line@);
    if item.parts.len() == 0 {
        add_span(&mut line, span(item.display.as_str(), slot_style(row)));
        assert(spans(line@) =~= result_line(*item, is_cursor, is_selected));
        return line;
    }
    let ghost all = parts_view(item.parts@).map_values(
        |part: (Seq<char>, PickerPartKind)| part_span(part, row),
    );
    let mut i: usize = 0;
    assert(head + all.take(0) =~= head);
    while i < item.parts.len()
        invariant
            i <= item.parts@.len(),
            all == parts_view(item.parts@).map_values(
                |part: (Seq<char>, PickerPartKind)| part_span(part, row),
            ),
            spans(line@) == head + all.take(i as int),
        decreases item.parts@.len() - i,
    {
        let kind = item.parts[i].1;
        let base = slot_style(Slot::PickerPart(kind));
        let style = Style {
            base: base.base,
            patch: row,
            fg: base.fg,
            bg: base.bg,
            bold: base.bold,
            dim: base.dim,
            underlined: base.underlined,
        };
        add_span(&mut line, span(item.parts[i].0.as_str(), style));
        proof {
            take_push(all, i as int);
            assert((head + all.take(i as int)).push(all[i as int]) =~= head + all.take(
                i as int + 1,
            ));
        }
        i = i + 1;
    }
    assert(all.take(i as int) =~= all);
    assert(head =~= seq![piece(" "@, row), piece(result_mark(is_cursor, is_selected), row)]);
    line
}

fn hints_text(multi: bool) -> (r: Vec<Span>)
    ensures
        spans(r@) == picker_hints(multi),
{
    let key = slot_style(Slot::HintKey);
    let desc = slot_style(Slot::HintDesc);
    let mut line = empty_line();
    add_span(&mut line, span(" \u{2191}\u{2193}", key));
    add_span(&mut line, span(" navigate  ", desc));
    if multi {
        add_span(&mut line, span("tab", key));
        add_span(&mut line, span(" select  ", desc));
        add_span(&mut line, span("enter", key));
        add_span(&mut line, span(" confirm  ", desc));
    } else {
        add_span(&mut line, span("enter", key));
        add_span(&mut line, span(" select  ", desc));
    }
    add_span(&mut line, span("esc", key));
    add_span(&mut line, span(" cancel", desc));
    assert(spans(line@) =~= picker_hints(multi));
    line
}

/// Draws a picker over an area.
pub struct PickerOverlay<'a> {
    pub state: &'a PickerState,
}

impl<'a> PickerOverlay<'a> {
    /// An overlay that shows `state`.
    pub fn new(state: &'a PickerState) -> (r: Self)
        ensures
            r.state == state,
    {
        PickerOverlay { state }
    }

    fn draw_results(&self, ops: &mut Vec<Op>, area: Rect)
        requires
            self.state.wf(),
            fits(area),
            area.height > 0,
            self.state.cursor < usize::MAX,
        ensures
            scene(final(ops)@) == scene(old(ops)@) + results_ops(
                *self.state,
                area,
                first_rank(self.state.cursor as int, area.height as int),
                results_shown(*self.state, area.height as int) as nat,
            ),
    {
        let p = self.state;
        let height: usize = area.height as usize;
        let matched = p.matched_count();
        let start: usize = if p.cursor >= height {
            p.cursor - height + 1
        } else {
            0
        };
        let end: usize = if start + height <= matched {
            start + height
        } else {
            matched
        };
        let shown_rows: usize = end.saturating_sub(start);
        let ghost before = scene(ops@);
        proof {
            shown_are_indices(
                match_texts(p.items@),
                ticked(p.matcher),
                shown(p.matcher),
                !appended(p.matcher),
            );
        }
        let mut row: u16 = 0;
        assert(before + results_ops(*p, area, start as int, 0) =~= before);
        while (row as usize) < shown_rows
            invariant
                row <= shown_rows <= area.height,
                shown_rows == sub0(end as int, start as int),
                end <= matched <= u32::MAX,
                fits(area),
                p.wf(),
                matched == matches_of(*p).len(),
                forall|i: int|
                    0 <= i < matches_of(*p).len() ==> (#[trigger] matches_of(*p)[i])
                        < p.items@.len(),
                scene(ops@) == before + results_ops(*p, area, start as int, row as nat),
            decreases shown_rows - row,
        {
            let rank: usize = start + row as usize;
            assert(matches_of(*p)[rank as int] < p.items@.len());
            if let Some(value) = shown_at(&p.matcher, rank as u32) {
                let idx: usize = value as usize;
                let is_cursor = rank == p.cursor;
                let is_selected = position(&p.selected, idx).is_some();
                let y: u16 = area.y + row;
                draw(
                    ops,
                    Op::Fill {
                        area: Rect { x: area.x, y, width: area.width, height: 1 },
                        style: slot_style(slot_of(is_cursor, is_selected)),
                    },
                );
                let line = result_text(&p.items[idx], is_cursor, is_selected);
                draw(ops, Op::Line { x: area.x, y, width: area.width, line });
            }
            proof {
                let so_far = results_ops(*p, area, start as int, row as nat);
                let more = result_ops(*p, area, start as int, row as int);
                assert(scene(ops@) =~= before + (so_far + more));
            }
            row = row + 1;
        }
    }

    /// Adds what stands inside the popup, given its three stacked parts.
    pub fn draw_body(&self, ops: &mut Vec<Op>, rows: &Vec<Rect>)
        requires
            self.state.wf(),
            self.state.cursor < usize::MAX,
            rows@.len() == 3,
            fits(rows@[1]),
            rows@[1].height > 0,
        ensures
            scene(final(ops)@) == scene(old(ops)@) + picker_body(*self.state, rows@),
    {
        let ghost before = scene(ops@);
        draw(ops, Op::Paragraph { area: rows[0], lines: lines_of(query_text(self.state)) });
        self.draw_results(ops, rows[1]);
        draw(
            ops,
            Op::Line {
                x: rows[2].x,
                y: rows[2].y,
                width: rows[2].width,
                line: hints_text(self.state.multi),
            },
        );
        assert(scene(ops@) =~= before + picker_body(*self.state, rows@));
    }

    /// Draws the picker over `area`.
    pub fn render(&self, area: Rect) -> (ops: Vec<Op>)
        requires
            fits(area),
            self.state.wf(),
            self.state.cursor < usize::MAX,
        ensures
            ({
                let popup = picker_popup(area);
                let within_frame = inner_area(popup, Sides::All);
                if within_frame.height < 3 {
                    scene(ops@) == picker_frame(self.state.kind, popup)
                } else {
                    exists|rows: Seq<Rect>| #[trigger]
                        split_in_rows(rows, within_frame, 1, 1, 1) && scene(ops@) == picker_frame(
                            self.state.kind,
                            popup,
                        ) + picker_body(*self.state, rows)
                }
            }),
    {
        let popup = picker_popup_rect(area);
        let mut ops: Vec<Op> = Vec::new();
        draw(&mut ops, Op::Clear(popup));
        draw(
            &mut ops,
            Op::Frame {
                area: popup,
                sides: Sides::All,
                border: slot_style(Slot::Unstyled),
                title: line_of(
                    span_of(
                        concat3(" ", self.state.prompt(), " "),
                        bold_style(slot_style(Slot::AlbumHeaderArtist)),
                    ),
                ),
            },
        );
        assert(scene(ops@) =~= picker_frame(self.state.kind, popup));
        let within_frame = inner(popup, Sides::All);
        if within_frame.height < 3 {
            return ops;
        }
        let rows = split_rows(within_frame, 1, 1, 1);
        assert(within(rows@[1], within_frame));
        self.draw_body(&mut ops, &rows);
        assert(split_in_rows(rows@, inner_area(picker_popup(area), Sides::All), 1, 1, 1));
        ops
    }
}

/// What is picked are the chosen items, in the order they were chosen, where several can be
/// and any is; else the one under the cursor.
pub proof fn chosen_items_are_picked(p: PickerState)
    requires
        p.wf(),
        p.cursor < matches_of(p).len(),
        matches_of(p).len() <= u32::MAX,
    ensures
        p.multi && p.selected@.len() > 0 ==> p.picked().len() == p.selected@.len()
            && forall|i: int|
            0 <= i < p.selected@.len() ==> #[trigger] p.picked()[i]
                == p.items@[p.selected@[i] as int].id,
        !p.multi || p.selected@.len() == 0 ==> p.picked().len() == 1 && p.picked()[0]
            == p.items@[matches_of(p)[p.cursor as int] as int].id,
        p.at_cursor() == Some(matches_of(p)[p.cursor as int] as usize),
{
}

/// Toggling an item changes whether it is chosen, and nothing else: what was chosen before
/// keeps its order, and a new choice comes last.
pub proof fn toggling_changes_one_choice(selected: Seq<usize>, idx: usize, other: usize)
    requires
        selected.no_duplicates(),
    ensures
        toggled(selected, idx).contains(idx) <==> !selected.contains(idx),
        other != idx ==> (toggled(selected, idx).contains(other) <==> selected.contains(other)),
        toggled(selected, idx).no_duplicates(),
        !selected.contains(idx) ==> toggled(selected, idx) == selected + seq![idx],
        selected.contains(idx) ==> exists|k: int|
            0 <= k < selected.len() && #[trigger] selected[k] == idx && toggled(selected, idx)
                == selected.take(k) + selected.skip(k + 1),
{
    let after = toggled(selected, idx);
    if selected.contains(idx) {
        selected.index_of_first_ensures(idx);
        let k = selected.index_of_first(idx)->0;
        assert(selected[k] == idx);
        assert(after =~= selected.take(k) + selected.skip(k + 1));
        assert(!after.contains(idx));
        if other != idx && selected.contains(other) {
            let j = choose|j: int| 0 <= j < selected.len() && selected[j] == other;
            if j < k {
                assert(after[j] == other);
            } else {
                assert(after[j - 1] == other);
            }
        }
        if after.contains(other) {
            let j = choose|j: int| 0 <= j < after.len() && after[j] == other;
            if j < k {
                assert(selected[j] == other);
            } else {
                assert(selected[j + 1] == other);
            }
        }
    } else {
        assert(after =~= selected + seq![idx]);
        assert(after[selected.len() as int] == idx);
        if selected.contains(other) {
            let j = choose|j: int| 0 <= j < selected.len() && selected[j] == other;
            assert(after[j] == other);
        }
    }
}

/// The cursor is among the results that are shown.
pub proof fn the_cursor_is_in_sight(cursor: int, height: int)
    requires
        0 <= cursor,
        0 < height,
    ensures
        0 <= first_rank(cursor, height) <= cursor < first_rank(cursor, height) + height,
        cursor < height ==> first_rank(cursor, height) == 0,
{
}

/// A result tells its item, in pieces where it has any, and is marked where the cursor is on
/// it or it is chosen.
pub proof fn results_tell_their_item(item: PickerItem, is_cursor: bool, is_selected: bool)
    ensures
        ({
            let line = result_line(item, is_cursor, is_selected);
            &&& is_cursor ==> line[1].text == "\u{25B8} "@
            &&& !is_cursor && is_selected ==> line[1].text == "\u{25C6} "@
            &&& !is_cursor && !is_selected ==> line[1].text == "  "@
            &&& item.parts@.len() == 0 ==> line.len() == 3 && line[2].text == item.display@
            &&& item.parts@.len() > 0 ==> line.len() == item.parts@.len() + 2 && forall|i: int|
                0 <= i < item.parts@.len() ==> (#[trigger] line[i + 2]).text == parts_view(
                    item.parts@,
                )[i].0 && line[i + 2].style.base == Slot::PickerPart(parts_view(item.parts@)[i].1)
        }),
{
}

/// Below the query, which tells how many of the items match, stand the matches from the first
/// that is to be seen on, best first, one below the other.
pub proof fn pickers_show_their_matches(p: PickerState, area: Rect, start: int, rows: nat, row: int)
    requires
        0 <= row < rows,
        rows <= area.height,
        area.y + area.height <= u16::MAX,
    ensures
        ({
            let idx = matches_of(p)[start + row];
            results_ops(p, area, start, rows).contains(
                OpView::Line {
                    x: area.x,
                    y: (area.y + row) as u16,
                    width: area.width,
                    line: result_line(
                        p.items@[idx as int],
                        start + row == p.cursor,
                        p.selected@.contains(idx as usize),
                    ),
                },
            )
        }),
        query_line(p)[1].text == p.query@,
        query_line(p)[2].text == "  "@ + decimal(matches_of(p).len()) + "/"@ + decimal(
            p.items@.len(),
        ),
    decreases rows,
{
    let before = results_ops(p, area, start, (rows - 1) as nat);
    let all = results_ops(p, area, start, rows);
    let idx = matches_of(p)[start + row];
    let op = OpView::Line {
        x: area.x,
        y: (area.y + row) as u16,
        width: area.width,
        line: result_line(
            p.items@[idx as int],
            start + row == p.cursor,
            p.selected@.contains(idx as usize),
        ),
    };
    if row == rows - 1 {
        assert(all[all.len() - 1] == op);
    } else {
        pickers_show_their_matches(p, area, start, (rows - 1) as nat, row);
        let i = choose|i: int| 0 <= i < before.len() && before[i] == op;
        assert(all[i] == op);
    }
}

/// Each kind of picker has its own prompt.
pub proof fn prompts_name_their_kind(kind: PickerKind)
    ensures
        prompt_text(kind) == "enqueue>"@ <==> kind is Track,
        prompt_text(kind) == "album>"@ <==> kind is Album,
        prompt_text(kind) == "artist>"@ <==> kind is Artist,
        prompt_text(kind) == "jump>"@ <==> kind is QueueJump,
{
    reveal_strlit("enqueue>");
    reveal_strlit("album>");
    reveal_strlit("artist>");
    reveal_strlit("jump>");
    assert("enqueue>"@.len() == 8 && "album>"@.len() == 6 && "artist>"@.len() == 7
        && "jump>"@.len() == 5);
}

/// The picker has the query in its first row, the matches below and what the keys do in its
/// last.
pub proof fn pickers_have_three_parts(p: PickerState, rows: Seq<Rect>)
    requires
        rows.len() == 3,
    ensures
        ({
            let ops = picker_body(p, rows);
            &&& ops[0] is Paragraph
            &&& ops[0]->Paragraph_area == rows[0]
            &&& ops[0]->lines.len() == 1 && ops[0]->lines[0] == query_line(p)
            &&& ops.last() is Line
            &&& ops.last()->Line_y == rows[2].y
        }),
{
}

/// As many matches are shown as there are from the first on and as there is room for.
pub proof fn matches_fill_the_room(p: PickerState, height: int)
    requires
        height > 0,
        p.cursor < matches_of(p).len() || matches_of(p).len() == 0,
    ensures
        ({
            let start = first_rank(p.cursor as int, height);
            let left: int = if start < matches_of(p).len() {
                matches_of(p).len() - start
            } else {
                0
            };
            &&& results_shown(p, height) <= height
            &&& results_shown(p, height) == height || results_shown(p, height) == left
            &&& p.cursor < matches_of(p).len() ==> p.cursor < start + results_shown(p, height)
        }),
{
}

/// What is the same but for query and cursor has its kind, its items and its choice.
pub proof fn typing_keeps_the_choice(
    now: PickerState,
    old: PickerState,
    query: Seq<char>,
    cursor: int,
)
    requires
        now.same_but(old, query, cursor),
    ensures
        now.query@ == query,
        now.cursor == cursor,
        now.kind == old.kind,
        now.selected@ == old.selected@,
        now.items@ == old.items@,
        now.multi == old.multi,
{
}

/// The picker takes three fifths of the width and seven tenths of the height, but forty cells
/// and ten rows at least as far as the screen has them; the matches have all of it but the
/// frame, the query and the keys.
pub proof fn pickers_take_their_part(area: Rect, popup: Rect)
    ensures
        ({
            let r = picker_popup(area);
            &&& area.width >= 67 ==> r.width == area.width * 3 / 5
            &&& 40 <= area.width <= 66 ==> r.width == 40
            &&& area.width < 40 ==> r.width == area.width
            &&& area.height >= 15 ==> r.height == area.height * 7 / 10
            &&& 10 <= area.height <= 14 ==> r.height == 10
            &&& area.height < 10 ==> r.height == area.height
        }),
        fits(popup) && popup.width >= 2 && popup.height >= 5 ==> results_area(popup) == (Rect {
            x: (popup.x + 1) as u16,
            y: (popup.y + 2) as u16,
            width: (popup.width - 2) as u16,
            height: (popup.height - 4) as u16,
        }),
        popup.height < 5 ==> results_area(popup).height == 0,
{
}

} // verus!
