//! Choosing the output device.

use vstd::prelude::*;

use crate::lists::take_push;
use crate::text::{byte_len, byte_length, byte_prefix, concat, cut_bytes, same};
use crate::tui::screen::{
    add_span, bold, bold_style, centre, centred, draw, empty_line, fits, inner, inner_area, least,
    line_of, lines_of, min_int, piece, plain, scene, slot_style, span, span_of, spans, styled,
    sub0, tint_style, tinted, within, LineView, Op, OpView, Rect, Sides, Slot, Span, Style, Tint,
};

verus! {

broadcast use crate::lists::group_lists;

/// The devices to choose from, and the one in use.
#[derive(Debug)]
pub struct DeviceSelectorState {
    pub devices: Vec<String>,
    pub cursor: usize,
    pub current_device: Option<String>,
}

/// A rectangle with a row for each device inside a frame, 50 cells wide, as far as
/// the area allows, in its middle.
pub open spec fn device_popup(area: Rect, devices: nat) -> Rect {
    centred(
        area,
        min_int(50, sub0(area.width as int, 4)),
        min_int(2 + (devices % 0x1_0000) as int, sub0(area.height as int, 2)),
    )
}

/// The popup rectangle of the device selector.
pub fn device_selector_rect(area: Rect, device_count: usize) -> (r: Rect)
    requires
        fits(area),
        device_count % 0x1_0000 + 2 <= u16::MAX,
    ensures
        r == device_popup(area, device_count as nat),
        within(r, area),
        fits(r),
{
    let w = least(50, area.width.saturating_sub(4));
    let h = least(2 + (device_count % 0x1_0000) as u16, area.height.saturating_sub(2));
    centre(area, w, h)
}

/// The style of a row: set off for the cursor's.
pub open spec fn row_style(is_selected: bool) -> Style {
    if is_selected {
        bold(tinted(Some(Tint::Black), Some(Tint::White)))
    } else {
        plain(Slot::HintDesc)
    }
}

/// The style of a row's mark: green for what is in use, unless the cursor is there.
pub open spec fn mark_style(is_selected: bool, is_current: bool) -> Style {
    if is_selected {
        row_style(true)
    } else if is_current {
        bold(tinted(Some(Tint::Green), None))
    } else {
        plain(Slot::HintDesc)
    }
}

/// A row: a dot before what is in use, and a name.
pub open spec fn choice_line(name: Seq<char>, is_selected: bool, is_current: bool) -> LineView {
    seq![
        styled(
            if is_current {
                "\u{25CF} "@
            } else {
                "  "@
            },
            mark_style(is_selected, is_current),
        ),
        styled(name, row_style(is_selected)),
    ]
}

/// A row: a dot before what is in use, and a name.
pub fn choice_text(name: String, is_selected: bool, is_current: bool) -> (r: Vec<Span>)
    ensures
        spans(r@) == choice_line(name@, is_selected, is_current),
{
    let ghost shown = name@;
    let base = if is_selected {
        bold_style(tint_style(Some(Tint::Black), Some(Tint::White)))
    } else {
        slot_style(Slot::HintDesc)
    };
    let mark = if is_selected {
        base
    } else if is_current {
        bold_style(tint_style(Some(Tint::Green), None))
    } else {
        slot_style(Slot::HintDesc)
    };
    let mut line = empty_line();
    add_span(
        &mut line,
        span(
            if is_current {
                "\u{25CF} "
            } else {
                "  "
            },
            mark,
        ),
    );
    add_span(&mut line, span_of(name, base));
    assert(spans(line@) =~= choice_line(shown, is_selected, is_current));
    line
}

/// A device's name, cut to a number of bytes with an ellipsis behind it if it is
/// longer.
pub open spec fn device_name(name: Seq<char>, max: int) -> Seq<char> {
    if byte_len(name) > max {
        byte_prefix(name, sub0(max, 1) as nat)->0 + "\u{2026}"@
    } else {
        name
    }
}

/// Whether a name that is too long can be cut there.
pub open spec fn name_cuts(name: Seq<char>, max: int) -> bool {
    byte_len(name) > max ==> byte_prefix(name, sub0(max, 1) as nat) is Some
}

fn name_in(name: &str, max: usize) -> (r: String)
    requires
        name_cuts(name@, max as int),
    ensures
        r@ == device_name(name@, max as int),
{
    if byte_length(name) > max {
        match cut_bytes(name, max.saturating_sub(1)) {
            Some(cut) => concat(cut.as_str(), "\u{2026}"),
            None => name.to_owned(),
        }
    } else {
        name.to_owned()
    }
}

/// The popup, before anything is drawn in it.
pub open spec fn titled_popup(popup: Rect, title: Seq<char>) -> Seq<OpView> {
    seq![
        OpView::Clear(popup),
        OpView::Frame {
            area: popup,
            sides: Sides::All,
            border: plain(Slot::HintKey),
            title: seq![piece(title, Slot::Unstyled)],
        },
    ]
}

/// Starts a drawing with a titled popup.
pub fn draw_popup(popup: Rect, title: &str) -> (ops: Vec<Op>)
    ensures
        scene(ops@) == titled_popup(popup, title@),
{
    let mut ops: Vec<Op> = Vec::new();
    draw(&mut ops, Op::Clear(popup));
    draw(
        &mut ops,
        Op::Frame {
            area: popup,
            sides: Sides::All,
            border: slot_style(Slot::HintKey),
            title: line_of(span(title, slot_style(Slot::Unstyled))),
        },
    );
    assert(scene(ops@) =~= titled_popup(popup, title@));
    ops
}

/// A line in one row of an area.
pub open spec fn row_op(area: Rect, i: int, line: LineView) -> OpView {
    OpView::Paragraph {
        area: Rect { x: area.x, y: (area.y + i) as u16, width: area.width, height: 1 },
        lines: seq![line],
    }
}

/// A device for each row, as far as the rows reach.
pub open spec fn device_rows(state: DeviceSelectorState, area: Rect) -> Seq<OpView> {
    Seq::new(
        min_int(state.devices@.len() as int, area.height as int) as nat,
        |i: int|
            row_op(
                area,
                i,
                choice_line(
                    device_name(state.devices@[i]@, sub0(area.width as int, 3)),
                    i == state.cursor,
                    match state.current_device {
                        Some(c) => c@ == state.devices@[i]@,
                        None => false,
                    },
                ),
            ),
    )
}

/// Draws the device selector over an area.
pub struct DeviceSelectorOverlay<'a> {
    pub state: &'a DeviceSelectorState,
}

impl<'a> DeviceSelectorOverlay<'a> {
    /// An overlay that shows `state`.
    pub fn new(state: &'a DeviceSelectorState) -> (r: Self)
        ensures
            r.state == state,
    {
        DeviceSelectorOverlay { state }
    }

    /// Draws the selector over `area`.
    pub fn render(&self, area: Rect) -> (ops: Vec<Op>)
        requires
            fits(area),
            self.state.devices@.len() % 0x1_0000 + 2 <= u16::MAX,
            ({
                let shown = inner_area(
                    device_popup(area, self.state.devices@.len()),
                    Sides::All,
                );
                forall|i: int|
                    0 <= i < self.state.devices@.len() && i < shown.height ==> name_cuts(
                        (#[trigger] self.state.devices@[i])@,
                        sub0(shown.width as int, 3),
                    )
            }),
        ensures
            ({
                let popup = device_popup(area, self.state.devices@.len());
                scene(ops@) == titled_popup(popup, " Output Device "@) + device_rows(
                    *self.state,
                    inner_area(popup, Sides::All),
                )
            }),
    {
        let state = self.state;
        let popup = device_selector_rect(area, state.devices.len());
        let mut ops = draw_popup(popup, " Output Device ");
        let ghost head = scene(ops@);
        let shown = inner(popup, Sides::All);
        let max: usize = shown.width.saturating_sub(3) as usize;
        let ghost rows = device_rows(*state, shown);
        let mut i: usize = 0;
        assert(head + rows.take(0) =~= head);
        while i < state.devices.len() && i < shown.height as usize
            invariant
                i <= state.devices@.len(),
                i <= shown.height,
                fits(shown),
                max == sub0(shown.width as int, 3),
                forall|k: int|
                    0 <= k < state.devices@.len() && k < shown.height ==> name_cuts(
                        (#[trigger] state.devices@[k])@,
                        max as int,
                    ),
                rows == device_rows(*state, shown),
                scene(ops@) == head + rows.take(i as int),
            decreases shown.height - i,
        {
            let name = &state.devices[i];
            assert(name_cuts(state.devices@[i as int]@, max as int));
            let is_current = match &state.current_device {
                Some(c) => same(c.as_str(), name.as_str()),
                None => false,
            };
            let display = name_in(name.as_str(), max);
            let line = choice_text(display, i == state.cursor, is_current);
            let row = Rect { x: shown.x, y: shown.y + i as u16, width: shown.width, height: 1 };
            draw(&mut ops, Op::Paragraph { area: row, lines: lines_of(line) });
            proof {
                take_push(rows, i as int);
                assert((head + rows.take(i as int)).push(rows[i as int]) =~= head + rows.take(
                    i as int + 1,
                ));
            }
            i = i + 1;
        }
        assert(rows.take(i as int) =~= rows);
        ops
    }
}

/// Each device has a row of its own with its name, cut only where it is too long; the one in
/// use is marked, and the one under the cursor set off.
pub proof fn devices_are_listed(state: DeviceSelectorState, area: Rect, i: int)
    requires
        0 <= i < state.devices@.len(),
        i < area.height,
        area.y + area.height <= u16::MAX,
    ensures
        ({
            let rows = device_rows(state, area);
            let line = rows[i]->lines[0];
            let name = state.devices@[i]@;
            let in_use = state.current_device is Some && state.current_device->0@ == name;
            &&& i < rows.len()
            &&& rows[i] is Paragraph
            &&& rows[i]->Paragraph_area.y == area.y + i
            &&& byte_len(name) + 3 <= area.width ==> line[1].text == name
            &&& in_use ==> line[0].text == "\u{25CF} "@
            &&& !in_use ==> line[0].text == "  "@
            &&& i == state.cursor <==> line[1].style.bold
        }),
{
}

/// The list of devices is at most fifty cells wide, has a row for each device where there is
/// room, and leaves some of the screen to each side.
pub proof fn device_lists_fit(area: Rect, devices: nat)
    requires
        fits(area),
        devices < 0x1_0000 - 2,
    ensures
        ({
            let r = device_popup(area, devices);
            &&& r.width <= 50
            &&& area.width >= 54 ==> r.width == 50
            &&& 4 <= area.width <= 54 ==> r.width == area.width - 4
            &&& devices + 4 <= area.height ==> r.height == devices + 2
            &&& 2 <= area.height <= devices + 4 ==> r.height == area.height - 2
        }),
{
}

} // verus!
