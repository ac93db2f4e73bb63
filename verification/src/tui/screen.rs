//! What a widget draws, as plain values.
//!
//! A widget's logic ends in a list of [`Op`]s; painting them on a terminal
//! buffer is left to the program around the library.

use vstd::prelude::*;

use crate::tui::picker::PickerPartKind;

verus! {

broadcast use crate::lists::group_lists;

/// A rectangle of terminal cells.
#[derive(Clone, Copy, Debug, PartialEq, Eq, Structural)]
pub struct Rect {
    pub x: u16,
    pub y: u16,
    pub width: u16,
    pub height: u16,
}

/// Whether the far edges of a rectangle can be written as coordinates.
pub open spec fn fits(r: Rect) -> bool {
    r.x + r.width <= u16::MAX && r.y + r.height <= u16::MAX
}

/// Whether `inner` lies inside `outer`.
pub open spec fn within(inner: Rect, outer: Rect) -> bool {
    &&& outer.x <= inner.x
    &&& inner.x + inner.width <= outer.x + outer.width
    &&& outer.y <= inner.y
    &&& inner.y + inner.height <= outer.y + outer.height
}

/// The styles that a theme supplies.
#[derive(Clone, Copy, Debug, PartialEq, Eq, Structural)]
pub enum Slot {
    Unstyled,
    HintKey,
    HintDesc,
    AlbumHeaderArtist,
    AlbumHeaderAlbum,
    TrackPlaying,
    TrackSelected,
    TrackCursor,
    TrackHover,
    TrackNormal,
    TrackNumber,
    Spinner,
    Failed,
    Favourite,
    StatusPlaying,
    StatusPaused,
    StatusStopped,
    ProgressFilled,
    ProgressEmpty,
    PickerCursor,
    PickerPart(PickerPartKind),
    LibraryArtist,
    LibraryAlbum,
    LibraryTrack,
    LibraryCursor,
    LibraryHover,
}

/// Single colours: fixed ones, and the three that a theme supplies.
#[derive(Clone, Copy, Debug, PartialEq, Eq, Structural)]
pub enum Tint {
    Black,
    White,
    Red,
    Green,
    DarkGray,
    Warning,
    ScrollbarThumb,
    ScrollbarBg,
}

/// A theme style, another patched over it, and what is added on top.
#[derive(Clone, Copy, Debug, PartialEq, Eq, Structural)]
pub struct Style {
    pub base: Slot,
    pub patch: Slot,
    pub fg: Option<Tint>,
    pub bg: Option<Tint>,
    pub bold: bool,
    pub dim: bool,
    pub underlined: bool,
}

/// The theme style of a slot, with nothing added.
pub open spec fn plain(slot: Slot) -> Style {
    Style {
        base: slot,
        patch: Slot::Unstyled,
        fg: None,
        bg: None,
        bold: false,
        dim: false,
        underlined: false,
    }
}

/// A style made of colours alone.
pub open spec fn tinted(fg: Option<Tint>, bg: Option<Tint>) -> Style {
    Style { fg, bg, ..plain(Slot::Unstyled) }
}

/// A style in bold.
pub open spec fn bold(s: Style) -> Style {
    Style { bold: true, ..s }
}

/// The theme style of a slot, with nothing added.
pub fn slot_style(slot: Slot) -> (r: Style)
    ensures
        r == plain(slot),
{
    Style {
        base: slot,
        patch: Slot::Unstyled,
        fg: None,
        bg: None,
        bold: false,
        dim: false,
        underlined: false,
    }
}

/// A style made of colours alone.
pub fn tint_style(fg: Option<Tint>, bg: Option<Tint>) -> (r: Style)
    ensures
        r == tinted(fg, bg),
{
    Style {
        base: Slot::Unstyled,
        patch: Slot::Unstyled,
        fg,
        bg,
        bold: false,
        dim: false,
        underlined: false,
    }
}

/// A style in bold.
pub fn bold_style(s: Style) -> (r: Style)
    ensures
        r == bold(s),
{
    Style {
        base: s.base,
        patch: s.patch,
        fg: s.fg,
        bg: s.bg,
        bold: true,
        dim: s.dim,
        underlined: s.underlined,
    }
}

/// A piece of text in one style.
#[derive(Debug)]
pub struct Span {
    pub text: String,
    pub style: Style,
}

/// A piece of text in one style, as a value.
pub struct SpanView {
    pub text: Seq<char>,
    pub style: Style,
}

impl View for Span {
    type V = SpanView;

    open spec fn view(&self) -> SpanView {
        SpanView { text: self.text@, style: self.style }
    }
}

/// A line of styled text, as a value.
pub type LineView = Seq<SpanView>;

/// The spans of a line.
pub open spec fn spans(line: Seq<Span>) -> LineView {
    line.map_values(|s: Span| s@)
}

/// The spans of several lines.
pub open spec fn lines_view(lines: Seq<Vec<Span>>) -> Seq<LineView> {
    lines.map_values(|l: Vec<Span>| spans(l@))
}

/// A span of text in a theme style.
pub open spec fn piece(text: Seq<char>, slot: Slot) -> SpanView {
    SpanView { text, style: plain(slot) }
}

/// A span of text in any style.
pub open spec fn styled(text: Seq<char>, style: Style) -> SpanView {
    SpanView { text, style }
}

/// A span of fixed text.
pub fn span(text: &str, style: Style) -> (r: Span)
    ensures
        r@ == styled(text@, style),
{
    Span { text: text.to_owned(), style }
}

/// A span of owned text.
pub fn span_of(text: String, style: Style) -> (r: Span)
    ensures
        r@ == styled(text@, style),
{
    Span { text, style }
}

/// A copy of a span.
pub fn copy_span(s: &Span) -> (r: Span)
    ensures
        r@ == s@,
{
    Span { text: s.text.clone(), style: s.style }
}

/// Which sides of a frame are drawn.
#[derive(Clone, Copy, Debug, PartialEq, Eq, Structural)]
pub enum Sides {
    All,
    Top,
}

/// One drawing step.
#[derive(Debug)]
pub enum Op {
    /// Blank out a rectangle.
    Clear(Rect),
    /// Draw borders and a title.
    Frame { area: Rect, sides: Sides, border: Style, title: Vec<Span> },
    /// Write lines from the top of a rectangle, cut at its edges.
    Paragraph { area: Rect, lines: Vec<Vec<Span>> },
    /// Write one line at a position, over at most `width` cells.
    Line { x: u16, y: u16, width: u16, line: Vec<Span> },
    /// Restyle every cell of a rectangle.
    Fill { area: Rect, style: Style },
    /// Write one character with a style.
    Cell { x: u16, y: u16, symbol: char, style: Style },
}

/// One drawing step, as a value.
pub enum OpView {
    Clear(Rect),
    Frame { area: Rect, sides: Sides, border: Style, title: LineView },
    Paragraph { area: Rect, lines: Seq<LineView> },
    Line { x: u16, y: u16, width: u16, line: LineView },
    Fill { area: Rect, style: Style },
    Cell { x: u16, y: u16, symbol: char, style: Style },
}

impl View for Op {
    type V = OpView;

    open spec fn view(&self) -> OpView {
        match self {
            Op::Clear(r) => OpView::Clear(*r),
            Op::Frame { area, sides, border, title } => OpView::Frame {
                area: *area,
                sides: *sides,
                border: *border,
                title: spans(title@),
            },
            Op::Paragraph { area, lines } => OpView::Paragraph {
                area: *area,
                lines: lines_view(lines@),
            },
            Op::Line { x, y, width, line } => OpView::Line {
                x: *x,
                y: *y,
                width: *width,
                line: spans(line@),
            },
            Op::Fill { area, style } => OpView::Fill { area: *area, style: *style },
            Op::Cell { x, y, symbol, style } => OpView::Cell {
                x: *x,
                y: *y,
                symbol: *symbol,
                style: *style,
            },
        }
    }
}

/// The steps of a drawing, as values.
pub open spec fn scene(ops: Seq<Op>) -> Seq<OpView> {
    ops.map_values(|o: Op| o@)
}

/// Adds one step to a drawing.
pub fn draw(ops: &mut Vec<Op>, op: Op)
    ensures
        scene(final(ops)@) == scene(old(ops)@).push(op@),
        final(ops)@.len() == old(ops)@.len() + 1,
{
    ops.push(op);
    assert(scene(ops@) =~= scene(old(ops)@).push(op@));
}

/// Adds one span to a line.
pub fn add_span(line: &mut Vec<Span>, s: Span)
    ensures
        spans(final(line)@) == spans(old(line)@).push(s@),
{
    line.push(s);
    assert(spans(line@) =~= spans(old(line)@).push(s@));
}

/// Adds one line to a list of lines.
pub fn add_line(lines: &mut Vec<Vec<Span>>, line: Vec<Span>)
    ensures
        lines_view(final(lines)@) == lines_view(old(lines)@).push(spans(line@)),
        final(lines)@.len() == old(lines)@.len() + 1,
{
    lines.push(line);
    assert(lines_view(lines@) =~= lines_view(old(lines)@).push(spans(line@)));
}

/// A line of a single span.
pub fn line_of(s: Span) -> (r: Vec<Span>)
    ensures
        spans(r@) == seq![s@],
{
    let mut line: Vec<Span> = Vec::new();
    line.push(s);
    assert(spans(line@) =~= seq![s@]);
    line
}

/// A list of a single line.
pub fn lines_of(line: Vec<Span>) -> (r: Vec<Vec<Span>>)
    ensures
        lines_view(r@) == seq![spans(line@)],
{
    let mut lines: Vec<Vec<Span>> = Vec::new();
    lines.push(line);
    assert(lines_view(lines@) =~= seq![spans(line@)]);
    lines
}

/// An empty line.
pub fn empty_line() -> (r: Vec<Span>)
    ensures
        spans(r@) == Seq::<SpanView>::empty(),
{
    let line: Vec<Span> = Vec::new();
    assert(spans(line@) =~= Seq::<SpanView>::empty());
    line
}

/// A copy of a line.
pub fn copy_line(line: &Vec<Span>) -> (r: Vec<Span>)
    ensures
        spans(r@) == spans(line@),
{
    let mut out = empty_line();
    let mut i: usize = 0;
    while i < line.len()
        invariant
            i <= line@.len(),
            spans(out@) == spans(line@).take(i as int),
        decreases line@.len() - i,
    {
        add_span(&mut out, copy_span(&line[i]));
        assert(spans(line@).take(i as int).push(spans(line@)[i as int]) =~= spans(line@).take(
            i as int + 1,
        ));
        i = i + 1;
    }
    assert(spans(line@).take(i as int) =~= spans(line@));
    out
}

// ---------------------------------------------------------------------------
// Rectangles
// ---------------------------------------------------------------------------

pub open spec fn sub0(a: int, b: int) -> int {
    if a > b {
        a - b
    } else {
        0
    }
}

pub open spec fn min_int(a: int, b: int) -> int {
    if a <= b {
        a
    } else {
        b
    }
}

pub open spec fn max_int(a: int, b: int) -> int {
    if a >= b {
        a
    } else {
        b
    }
}

/// The lesser of two numbers.
pub fn least(a: u16, b: u16) -> (r: u16)
    ensures
        r == min_int(a as int, b as int),
{
    if a <= b {
        a
    } else {
        b
    }
}

/// The greater of two numbers.
pub fn greatest(a: u16, b: u16) -> (r: u16)
    ensures
        r == max_int(a as int, b as int),
{
    if a >= b {
        a
    } else {
        b
    }
}

/// The area inside a frame: one row less at the top and, with all sides drawn,
/// one less at each other side, down to nothing.
pub open spec fn inner_area(area: Rect, sides: Sides) -> Rect {
    match sides {
        Sides::All => Rect {
            x: min_int(area.x + 1, area.x + area.width) as u16,
            y: min_int(area.y + 1, area.y + area.height) as u16,
            width: sub0(area.width as int, 2) as u16,
            height: sub0(area.height as int, 2) as u16,
        },
        Sides::Top => Rect {
            x: area.x,
            y: min_int(area.y + 1, area.y + area.height) as u16,
            width: area.width,
            height: sub0(area.height as int, 1) as u16,
        },
    }
}

/// The area inside a frame.
pub fn inner(area: Rect, sides: Sides) -> (r: Rect)
    requires
        fits(area),
    ensures
        r == inner_area(area, sides),
        within(r, area),
        fits(r),
{
    let y: u16 = if area.height > 0 {
        area.y + 1
    } else {
        area.y
    };
    match sides {
        Sides::All => {
            let x: u16 = if area.width > 0 {
                area.x + 1
            } else {
                area.x
            };
            Rect { x, y, width: area.width.saturating_sub(2), height: area.height.saturating_sub(2) }
        },
        Sides::Top => Rect { x: area.x, y, width: area.width, height: area.height.saturating_sub(1) },
    }
}

/// A rectangle of the given size in the middle of an area.
pub open spec fn centred(area: Rect, width: int, height: int) -> Rect {
    Rect {
        x: (area.x + sub0(area.width as int, width) / 2) as u16,
        y: (area.y + sub0(area.height as int, height) / 2) as u16,
        width: width as u16,
        height: height as u16,
    }
}

/// A rectangle of the given size in the middle of an area.
pub fn centre(area: Rect, width: u16, height: u16) -> (r: Rect)
    requires
        fits(area),
        width <= area.width,
        height <= area.height,
    ensures
        r == centred(area, width as int, height as int),
        within(r, area),
        fits(r),
{
    Rect {
        x: area.x + (area.width - width) / 2,
        y: area.y + (area.height - height) / 2,
        width,
        height,
    }
}

/// What every split of an area into three stacked rows satisfies: the rows keep
/// the area's columns and stay inside it, and where the area is tall enough for
/// all three heights the first and the last have theirs and the middle the rest.
pub open spec fn split_in_rows(rows: Seq<Rect>, area: Rect, top: u16, middle: u16, bottom: u16) -> bool {
    &&& rows.len() == 3
    &&& forall|i: int|
        0 <= i < 3 ==> within(#[trigger] rows[i], area) && rows[i].x == area.x && rows[i].width
            == area.width
    &&& top + middle + bottom <= area.height ==> {
        &&& rows[0] == Rect { height: top, ..area }
        &&& rows[1] == Rect {
            y: (area.y + top) as u16,
            height: (area.height - top - bottom) as u16,
            ..area
        }
        &&& rows[2] == Rect {
            y: (area.y + area.height - bottom) as u16,
            height: bottom,
            ..area
        }
    }
}

/// `ratatui::layout::Layout::split` on a vertical layout of a fixed height, a
/// least height and a fixed height. Its solver keeps every edge inside the area
/// as a required constraint, and meets all three heights whenever they fit, the
/// middle row growing into what is left. What it settles for in an area that is
/// too low for them is left open.
#[verifier::external_body]
pub(crate) fn split_rows(area: Rect, top: u16, middle: u16, bottom: u16) -> (rows: Vec<Rect>)
    requires
        fits(area),
    ensures
        split_in_rows(rows@, area, top, middle, bottom),
{
    let layout = ratatui::layout::Layout::vertical([
        ratatui::layout::Constraint::Length(top),
        ratatui::layout::Constraint::Min(middle),
        ratatui::layout::Constraint::Length(bottom),
    ]);
    let split = layout.split(ratatui::layout::Rect::new(area.x, area.y, area.width, area.height));
    split.iter().map(|r| Rect { x: r.x, y: r.y, width: r.width, height: r.height }).collect()
}

/// What is inside a frame leaves one cell to each side that has a border.
pub proof fn frames_leave_room(area: Rect)
    requires
        fits(area),
        area.width >= 2,
        area.height >= 2,
    ensures
        ({
            let all = inner_area(area, Sides::All);
            let top = inner_area(area, Sides::Top);
            &&& all.x == area.x + 1 && all.y == area.y + 1
            &&& all.width == area.width - 2 && all.height == area.height - 2
            &&& top.x == area.x && top.y == area.y + 1
            &&& top.width == area.width && top.height == area.height - 1
        }),
{
}

/// What is centred leaves as much room to one side as to the other, up to one cell.
pub proof fn centred_areas_are_in_the_middle(area: Rect, width: int, height: int)
    requires
        fits(area),
        0 <= width <= area.width,
        0 <= height <= area.height,
    ensures
        ({
            let r = centred(area, width, height);
            let left = r.x - area.x;
            let right = area.x + area.width - (r.x + r.width);
            let above = r.y - area.y;
            let below = area.y + area.height - (r.y + r.height);
            &&& r.width == width
            &&& r.height == height
            &&& 0 <= left <= right <= left + 1
            &&& 0 <= above <= below <= above + 1
        }),
{
}

} // verus!
