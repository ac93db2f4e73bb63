//! Choosing the visualizer's mode.

use vstd::prelude::*;

use crate::lists::take_push;
use crate::tui::device_selector::{
    choice_line, choice_text, draw_popup, row_op, titled_popup,
};
use crate::tui::screen::{
    draw, fits, inner, inner_area, least, lines_of, min_int, scene, sub0, Op, OpView, Rect, Sides,
};
use crate::tui::visualizer::{mode_index, mode_label, rotation, VisualizerMode};

verus! {

broadcast use crate::lists::group_lists;

/// All visualizer modes in rotation order.
pub fn all_modes() -> (r: Vec<VisualizerMode>)
    ensures
        r@ == rotation(),
{
    let r: Vec<VisualizerMode> = vec![
        VisualizerMode::Bars,
        VisualizerMode::Oscilloscope,
        VisualizerMode::Radial,
        VisualizerMode::Particles,
        VisualizerMode::Lissajous,
        VisualizerMode::Spectrogram,
        VisualizerMode::StereoWaveform,
        VisualizerMode::VuMeter,
        VisualizerMode::Flame,
        VisualizerMode::Plasma,
        VisualizerMode::Tunnel,
        VisualizerMode::Wireframe,
        VisualizerMode::Metaballs,
        VisualizerMode::Starfield,
        VisualizerMode::Terrain,
        VisualizerMode::Moire,
        VisualizerMode::Kaleidoscope,
        VisualizerMode::Julia,
        VisualizerMode::Spiral,
        VisualizerMode::Interference,
        VisualizerMode::Wormhole,
        VisualizerMode::Matrix,
    ];
    assert(r@ =~= rotation());
    r
}

/// The picker's cursor, and the mode in use.
#[derive(Clone, Copy, Debug, PartialEq, Eq, Structural)]
pub struct VizPickerState {
    pub cursor: usize,
    pub current_mode: VisualizerMode,
}

impl VizPickerState {
    /// A picker with the cursor on the mode in use.
    pub fn new(current: VisualizerMode) -> (r: Self)
        ensures
            r.cursor == mode_index(current),
            r.current_mode == current,
    {
        let modes = all_modes();
        let mut i: usize = 0;
        proof {
            assert(rotation().len() == 22);
            assert(rotation()[mode_index(current)] == current);
        }
        while i < modes.len() && modes[i] != current
            invariant
                modes@ == rotation(),
                i <= mode_index(current) < modes@.len(),
                rotation()[mode_index(current)] == current,
            decreases modes@.len() - i,
        {
            i = i + 1;
        }
        assert(mode_index(rotation()[i as int]) == i);
        VizPickerState { cursor: i, current_mode: current }
    }

    /// The mode at the cursor.
    pub fn selected_mode(&self) -> (r: VisualizerMode)
        requires
            self.cursor < 22,
        ensures
            r == rotation()[self.cursor as int],
    {
        let modes = all_modes();
        assert(rotation().len() == 22);
        modes[self.cursor]
    }
}

/// A picker opened on a mode has that mode selected.
pub proof fn opens_on_the_current_mode(m: VisualizerMode)
    ensures
        0 <= mode_index(m) < 22,
        rotation()[mode_index(m)] == m,
{
}

/// A rectangle with a row for each mode inside a frame, 36 cells wide, as far as
/// the area allows, two cells from its right edge.
pub open spec fn viz_popup(area: Rect) -> Rect {
    let width = min_int(36, sub0(area.width as int, 4));
    let height = min_int(24, sub0(area.height as int, 2));
    Rect {
        x: (area.x + sub0(area.width as int, width + 2)) as u16,
        y: (area.y + sub0(area.height as int, height) / 2) as u16,
        width: width as u16,
        height: height as u16,
    }
}

/// A mode for each row, as far as the rows reach.
pub open spec fn mode_rows(state: VizPickerState, area: Rect) -> Seq<OpView> {
    Seq::new(
        min_int(22, area.height as int) as nat,
        |i: int|
            row_op(
                area,
                i,
                choice_line(
                    mode_label(rotation()[i]),
                    i == state.cursor,
                    rotation()[i] == state.current_mode,
                ),
            ),
    )
}

/// Draws the visualizer picker over an area.
pub struct VizPickerOverlay<'a> {
    pub state: &'a VizPickerState,
}

impl<'a> VizPickerOverlay<'a> {
    /// An overlay that shows `state`.
    pub fn new(state: &'a VizPickerState) -> (r: Self)
        ensures
            r.state == state,
    {
        VizPickerOverlay { state }
    }

    /// Draws the picker over `area`.
    pub fn render(&self, area: Rect) -> (ops: Vec<Op>)
        requires
            fits(area),
        ensures
            scene(ops@) == titled_popup(viz_popup(area), " Visualiser "@) + mode_rows(
                *self.state,
                inner_area(viz_popup(area), Sides::All),
            ),
    {
        let state = self.state;
        let w = least(36, area.width.saturating_sub(4));
        let h = least(24, area.height.saturating_sub(2));
        let popup = Rect {
            x: area.x + area.width.saturating_sub(w + 2),
            y: area.y + (area.height - h) / 2,
            width: w,
            height: h,
        };
        assert(popup == viz_popup(area));
        let mut ops = draw_popup(popup, " Visualiser ");
        let ghost head = scene(ops@);
        let shown = inner(popup, Sides::All);
        let modes = all_modes();
        let ghost rows = mode_rows(*state, shown);
        let mut i: usize = 0;
        assert(rotation().len() == 22);
        assert(head + rows.take(0) =~= head);
        while i < modes.len() && i < shown.height as usize
            invariant
                i <= modes@.len() == 22,
                i <= shown.height,
                fits(shown),
                modes@ == rotation(),
                rows == mode_rows(*state, shown),
                scene(ops@) == head + rows.take(i as int),
            decreases shown.height - i,
        {
            let mode = modes[i];
            let line = choice_text(
                mode.label().to_owned(),
                i == state.cursor,
                mode == state.current_mode,
            );
            let row = Rect { x: shown.x, y: shown.y + i as u16, width: shown.width, height: 1 };
            draw(&mut ops, Op::Paragraph { area: row, lines: lines_of(line) });
            proof {
                take_push(rows, i as int);
                assert((head + rows.take(i as int)).push(rows[i as int]) =~= head + rows.take(
                    i as int + 1,
                ));
            }
            i = i + 1;
        }
        assert(rows.take(i as int) =~= rows);
        ops
    }
}

/// Each mode has a row of its own with its label, in the order of the rotation; the one in use
/// is marked, and the one under the cursor set off.
pub proof fn modes_are_listed(state: VizPickerState, area: Rect, m: VisualizerMode)
    requires
        area.height >= 22,
        area.y + area.height <= u16::MAX,
    ensures
        ({
            let rows = mode_rows(state, area);
            let i = mode_index(m);
            let line = rows[i]->lines[0];
            &&& rows.len() == 22
            &&& rows[i] is Paragraph
            &&& rows[i]->Paragraph_area.y == area.y + i
            &&& line[1].text == mode_label(m)
            &&& m == state.current_mode ==> line[0].text == "\u{25CF} "@
            &&& m != state.current_mode ==> line[0].text == "  "@
            &&& i == state.cursor <==> line[1].style.bold
        }),
{
    opens_on_the_current_mode(m);
}

/// The list of modes stands at the right edge, 36 cells wide and with a row for each mode as
/// far as the screen has them.
pub proof fn mode_lists_stand_at_the_right(area: Rect)
    requires
        fits(area),
    ensures
        ({
            let r = viz_popup(area);
            &&& area.width >= 40 ==> r.width == 36 && r.x + r.width + 2 == area.x + area.width
            &&& 4 <= area.width <= 40 ==> r.width == area.width - 4
            &&& area.height >= 26 ==> r.height == 24
            &&& 2 <= area.height <= 26 ==> r.height == area.height - 2
        }),
{
}

} // verus!
