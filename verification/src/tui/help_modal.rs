//! The list of key bindings.

use vstd::prelude::*;

use crate::lists::take_push;
use crate::text::{chars_of, concat, ends_with};
use crate::tui::device_selector::{draw_popup, titled_popup};
use crate::tui::keys::table_view;
use crate::tui::screen::{
    add_line, add_span, bold, bold_style, centre, centred, copy_line, draw, empty_line, fits,
    inner, inner_area, least, line_of, lines_of, lines_view, min_int, piece, plain, scene,
    slot_style, span_of, spans, styled, sub0, LineView, Op, OpView, Rect, Sides, Slot, Span,
    SpanView, Style,
};

verus! {

broadcast use crate::lists::group_lists;

/// A group of key bindings: its title, and keys with what they do.
pub type SectionView = (Seq<char>, Seq<(Seq<char>, Seq<char>)>);

/// A group of key bindings.
struct Section {
    title: &'static str,
    bindings: Vec<(&'static str, &'static str)>,
}

spec fn section_view(s: Section) -> SectionView {
    (s.title@, table_view(s.bindings@))
}

/// All key bindings, by group.
pub open spec fn help_sections() -> Seq<SectionView> {
    seq![
        (
            "Playback"@,
            seq![
                ("space"@, "Play / Pause"@),
                ("< >"@, "Previous / Next track"@),
                (", ."@, "Seek backward / forward"@),
                ("+ -"@, "Volume up / down"@),
            ],
        ),
        (
            "Navigation"@,
            seq![
                ("p"@, "Track picker"@),
                ("a"@, "Album picker"@),
                ("r"@, "Artist picker"@),
                ("l"@, "Library browser"@),
                ("/"@, "Search queue"@),
                ("e"@, "Edit queue"@),
                ("z"@, "Zoom cover art"@),
                ("d"@, "Output device"@),
            ],
        ),
        (
            "Queue Edit (e)"@,
            seq![
                ("\u{2191}\u{2193}"@, "Navigate"@),
                ("S-\u{2191}\u{2193}"@, "Extend selection"@),
                ("C-a"@, "Select all"@),
                ("d"@, "Delete selected"@),
                ("j / k"@, "Move selected up/down"@),
                ("C-z / C-y"@, "Undo / Redo"@),
                ("space"@, "Context actions"@),
                ("i"@, "Track info"@),
                ("g / G"@, "Jump to top / end"@),
                ("PgUp/Dn"@, "Page up / down"@),
            ],
        ),
        (
            "Picker (p/a/r)"@,
            seq![
                ("\u{2191}\u{2193}"@, "Navigate results"@),
                ("enter"@, "Append to queue"@),
                ("C-enter"@, "Append & play"@),
                ("C-r"@, "Replace queue"@),
                ("tab"@, "Toggle multi-select"@),
            ],
        ),
        (
            "Library (l)"@,
            seq![
                ("\u{2191}\u{2193}"@, "Navigate tree"@),
                ("\u{2192} / enter"@, "Expand node"@),
                ("\u{2190}"@, "Collapse node"@),
                ("a"@, "Enqueue selection"@),
                ("f"@, "Filter"@),
                ("tab"@, "Switch focus"@),
            ],
        ),
        (
            "General"@,
            seq![
                ("?"@, "This help"@),
                ("q"@, "Quit"@),
                ("esc"@, "Close modal / cancel"@),
            ],
        ),
    ]
}

fn sections() -> (r: Vec<Section>)
    ensures
        r@.map_values(|s: Section| section_view(s)) == help_sections(),
{
    let r: Vec<Section> = vec![
        Section {
            title: "Playback",
            bindings: vec![
                ("space", "Play / Pause"),
                ("< >", "Previous / Next track"),
                (", .", "Seek backward / forward"),
                ("+ -", "Volume up / down"),
            ],
        },
        Section {
            title: "Navigation",
            bindings: vec![
                ("p", "Track picker"),
                ("a", "Album picker"),
                ("r", "Artist picker"),
                ("l", "Library browser"),
                ("/", "Search queue"),
                ("e", "Edit queue"),
                ("z", "Zoom cover art"),
                ("d", "Output device"),
            ],
        },
        Section {
            title: "Queue Edit (e)",
            bindings: vec![
                ("\u{2191}\u{2193}", "Navigate"),
                ("S-\u{2191}\u{2193}", "Extend selection"),
                ("C-a", "Select all"),
                ("d", "Delete selected"),
                ("j / k", "Move selected up/down"),
                ("C-z / C-y", "Undo / Redo"),
                ("space", "Context actions"),
                ("i", "Track info"),
                ("g / G", "Jump to top / end"),
                ("PgUp/Dn", "Page up / down"),
            ],
        },
        Section {
            title: "Picker (p/a/r)",
            bindings: vec![
                ("\u{2191}\u{2193}", "Navigate results"),
                ("enter", "Append to queue"),
                ("C-enter", "Append & play"),
                ("C-r", "Replace queue"),
                ("tab", "Toggle multi-select"),
            ],
        },
        Section {
            title: "Library (l)",
            bindings: vec![
                ("\u{2191}\u{2193}", "Navigate tree"),
                ("\u{2192} / enter", "Expand node"),
                ("\u{2190}", "Collapse node"),
                ("a", "Enqueue selection"),
                ("f", "Filter"),
                ("tab", "Switch focus"),
            ],
        },
        Section {
            title: "General",
            bindings: vec![
                ("?", "This help"),
                ("q", "Quit"),
                ("esc", "Close modal / cancel"),
            ],
        },
    ];
    proof {
        let shown = r@.map_values(|s: Section| section_view(s));
        assert(shown.len() == help_sections().len());
        assert forall|i: int| 0 <= i < shown.len() implies shown[i] == help_sections()[i] by {
            assert(shown[i].1 =~= help_sections()[i].1);
        }
        assert(shown =~= help_sections());
    }
    r
}

/// A text moved to the right edge of some cells.
pub open spec fn right_aligned(s: Seq<char>, width: nat) -> Seq<char> {
    Seq::new(sub0(width as int, s.len() as int) as nat, |i: int| ' ') + s
}

fn align_right(s: &str, width: usize) -> (r: String)
    ensures
        r@ == right_aligned(s@, width as nat),
{
    let len: usize = chars_of(s).len();
    let gap: usize = width.saturating_sub(len);
    let mut out = String::new();
    let mut i: usize = 0;
    while i < gap
        invariant
            i <= gap,
            out@ == Seq::new(i as nat, |k: int| ' '),
        decreases gap - i,
    {
        out.push(' ');
        assert(out@ =~= Seq::new(i as nat + 1, |k: int| ' '));
        i = i + 1;
    }
    out.push_str(s);
    out
}

/// The title of a group.
pub open spec fn title_line(title: Seq<char>) -> LineView {
    seq![styled(" "@ + title, Style { underlined: true, ..bold(plain(Slot::HintKey)) })]
}

/// A key and what it does.
pub open spec fn binding_line(binding: (Seq<char>, Seq<char>)) -> LineView {
    seq![
        styled("  "@ + right_aligned(binding.0, 12), bold(plain(Slot::HintKey))),
        piece("  "@ + binding.1, Slot::HintDesc),
    ]
}

/// The lines of a group.
pub open spec fn section_lines(s: SectionView) -> Seq<LineView> {
    seq![title_line(s.0)] + s.1.map_values(|b: (Seq<char>, Seq<char>)| binding_line(b))
}

/// The lines of groups, an empty line between each two.
pub open spec fn help_lines(sections: Seq<SectionView>) -> Seq<LineView>
    decreases sections.len(),
{
    if sections.len() == 0 {
        Seq::empty()
    } else {
        help_lines(sections.drop_last()) + (if sections.len() > 1 {
            seq![Seq::<SpanView>::empty()]
        } else {
            Seq::empty()
        }) + section_lines(sections.last())
    }
}

fn push_section(lines: &mut Vec<Vec<Span>>, s: &Section)
    ensures
        lines_view(final(lines)@) == lines_view(old(lines)@) + section_lines(section_view(*s)),
{
    let ghost before = lines_view(lines@);
    let ghost view = section_view(*s);
    let key = bold_style(slot_style(Slot::HintKey));
    let title_style = Style {
        base: key.base,
        patch: key.patch,
        fg: key.fg,
        bg: key.bg,
        bold: key.bold,
        dim: key.dim,
        underlined: true,
    };
    add_line(lines, line_of(span_of(concat(" ", s.title), title_style)));
    let ghost all = view.1.map_values(|b: (Seq<char>, Seq<char>)| binding_line(b));
    let ghost head = before.push(title_line(view.0));
    let mut i: usize = 0;
    assert(head + all.take(0) =~= head);
    while i < s.bindings.len()
        invariant
            i <= s.bindings@.len(),
            view == section_view(*s),
            key == bold(plain(Slot::HintKey)),
            all == view.1.map_values(|b: (Seq<char>, Seq<char>)| binding_line(b)),
            lines_view(lines@) == head + all.take(i as int),
        decreases s.bindings@.len() - i,
    {
        let (k, desc) = s.bindings[i];
        let mut line = empty_line();
        add_span(&mut line, span_of(concat("  ", align_right(k, 12).as_str()), key));
        add_span(&mut line, span_of(concat("  ", desc), slot_style(Slot::HintDesc)));
        assert(spans(line@) =~= binding_line((k@, desc@)));
        add_line(lines, line);
        proof {
            take_push(all, i as int);
            assert((head + all.take(i as int)).push(all[i as int]) =~= head + all.take(
                i as int + 1,
            ));
        }
        i = i + 1;
    }
    assert(all.take(i as int) =~= all);
    assert(head + all =~= before + section_lines(view));
}

fn build_lines() -> (lines: Vec<Vec<Span>>)
    ensures
        lines_view(lines@) == help_lines(help_sections()),
{
    let table = sections();
    let ghost all = help_sections();
    let mut lines: Vec<Vec<Span>> = Vec::new();
    let mut i: usize = 0;
    assert(all.take(0) =~= Seq::<SectionView>::empty());
    assert(lines_view(lines@) =~= help_lines(all.take(0)));
    while i < table.len()
        invariant
            i <= table@.len(),
            table@.map_values(|s: Section| section_view(s)) == all,
            lines_view(lines@) == help_lines(all.take(i as int)),
        decreases table@.len() - i,
    {
        let ghost before = lines_view(lines@);
        if i > 0 {
            add_line(&mut lines, empty_line());
        }
        push_section(&mut lines, &table[i]);
        proof {
            let next = all.take(i as int + 1);
            assert(next.drop_last() =~= all.take(i as int));
            assert(next.last() == section_view(table@[i as int]));
            assert(lines_view(lines@) =~= help_lines(next));
        }
        i = i + 1;
    }
    assert(all.take(i as int) =~= all);
    lines
}

/// There are 47 lines of help.
pub proof fn help_has_47_lines()
    ensures
        help_lines(help_sections()).len() == 47,
{
    reveal_with_fuel(help_lines, 7);
    let all = help_sections();
    assert(all.len() == 6);
    let a = all.drop_last();
    let b = a.drop_last();
    let c = b.drop_last();
    let d = c.drop_last();
    let e = d.drop_last();
    assert(e.drop_last().len() == 0);
    assert(all.last().1.len() == 3);
    assert(a.last().1.len() == 6);
    assert(b.last().1.len() == 5);
    assert(c.last().1.len() == 10);
    assert(d.last().1.len() == 8);
    assert(e.last().1.len() == 4);
}

/// A rectangle for all lines inside a frame, 72 cells wide, as far as the area
/// allows, in its middle.
pub open spec fn help_popup(area: Rect) -> Rect {
    centred(
        area,
        min_int(72, sub0(area.width as int, 4)),
        min_int(49, sub0(area.height as int, 2)),
    )
}

/// Where a line stands: the first half in the left column, the rest in the right,
/// both from the top; nowhere if it is below the area.
pub open spec fn help_row(area: Rect, lines: Seq<LineView>, i: int) -> Seq<OpView> {
    let half = (lines.len() + 1) as int / 2;
    let width = area.width as int / 2;
    let row = if i < half {
        i
    } else {
        i - half
    };
    if row >= area.height {
        Seq::empty()
    } else {
        seq![
            OpView::Paragraph {
                area: Rect {
                    x: if i < half {
                        area.x
                    } else {
                        (area.x + width) as u16
                    },
                    y: (area.y + row) as u16,
                    width: width as u16,
                    height: 1,
                },
                lines: seq![lines[i]],
            },
        ]
    }
}

/// The first `n` lines in two columns.
pub open spec fn help_rows(area: Rect, lines: Seq<LineView>, n: nat) -> Seq<OpView>
    decreases n,
{
    if n == 0 {
        Seq::empty()
    } else {
        help_rows(area, lines, (n - 1) as nat) + help_row(area, lines, n - 1)
    }
}

/// Draws the key bindings over an area.
pub struct HelpModalOverlay {}

impl HelpModalOverlay {
    /// The overlay.
    pub fn new() -> (r: Self)
        ensures
            r == (HelpModalOverlay {  }),
    {
        HelpModalOverlay {  }
    }

    /// Draws the key bindings over `area`.
    pub fn render(&self, area: Rect) -> (ops: Vec<Op>)
        requires
            fits(area),
        ensures
            scene(ops@) == titled_popup(help_popup(area), " Keybindings "@) + help_rows(
                inner_area(help_popup(area), Sides::All),
                help_lines(help_sections()),
                47,
            ),
    {
        let w = least(72, area.width.saturating_sub(4));
        let h = least(49, area.height.saturating_sub(2));
        let popup = centre(area, w, h);
        let mut ops = draw_popup(popup, " Keybindings ");
        let ghost head = scene(ops@);
        let shown = inner(popup, Sides::All);
        let lines = build_lines();
        let ghost all = help_lines(help_sections());
        proof {
            help_has_47_lines();
        }
        assert(lines_view(lines@).len() == lines@.len());
        let half: usize = 24;
        let width: u16 = shown.width / 2;
        let mut i: usize = 0;
        assert(head + help_rows(shown, all, 0) =~= head);
        while i < lines.len()
            invariant
                i <= lines@.len() == 47,
                half == 24,
                width == shown.width / 2,
                fits(shown),
                all == lines_view(lines@),
                scene(ops@) == head + help_rows(shown, all, i as nat),
            decreases lines@.len() - i,
        {
            let (x, row): (u16, usize) = if i < half {
                (shown.x, i)
            } else {
                (shown.x + width, i - half)
            };
            if row < shown.height as usize {
                let row_area = Rect { x, y: shown.y + row as u16, width, height: 1 };
                draw(
                    &mut ops,
                    Op::Paragraph { area: row_area, lines: lines_of(copy_line(&lines[i])) },
                );
            }
            assert(all[i as int] == spans(lines@[i as int]@));
            assert(scene(ops@) =~= head + (help_rows(shown, all, i as nat) + help_row(
                shown,
                all,
                i as int,
            )));
            i = i + 1;
        }
        ops
    }
}

/// Every key of every group is in the help, with what it does, below the title of its group.
pub proof fn every_key_is_explained(sections: Seq<SectionView>, s: int, k: int)
    requires
        0 <= s < sections.len(),
        0 <= k < sections[s].1.len(),
    ensures
        exists|t: int| #[trigger] explains(help_lines(sections), sections[s], t),
        ({
            let line = binding_line(sections[s].1[k]);
            &&& ends_with(line[0].text, sections[s].1[k].0)
            &&& line[1].text == "  "@ + sections[s].1[k].1
        }),
    decreases sections.len(),
{
    let binding = sections[s].1[k];
    let key = "  "@ + right_aligned(binding.0, 12);
    assert(key.skip(key.len() - binding.0.len()) =~= binding.0);
    let before = help_lines(sections.drop_last());
    let all = help_lines(sections);
    if s == sections.len() - 1 {
        let t: int = before.len() + if sections.len() > 1 {
            1int
        } else {
            0
        };
        let own = section_lines(sections.last());
        assert(all.len() == t + own.len());
        assert forall|i: int| 0 <= i < own.len() implies #[trigger] own[i] == all[t + i] by {}
        assert(all[t] == own[0]);
        assert forall|i: int| 0 <= i < sections[s].1.len() implies all[t + 1 + i] == binding_line(
            #[trigger] sections[s].1[i],
        ) by {
            assert(own[i + 1] == all[t + (i + 1)]);
        }
        assert(explains(all, sections[s], t));
    } else {
        assert(sections.drop_last()[s] == sections[s]);
        every_key_is_explained(sections.drop_last(), s, k);
        let t = choose|t: int| #[trigger] explains(before, sections[s], t);
        assert(all[t] == before[t]);
        assert forall|i: int| 0 <= i < sections[s].1.len() implies all[t + 1 + i] == binding_line(
            #[trigger] sections[s].1[i],
        ) by {
            assert(all[t + 1 + i] == before[t + 1 + i]);
        }
        assert(explains(all, sections[s], t));
    }
}

/// Whether a group stands in the help from some line on: its title and then each key.
pub open spec fn explains(lines: Seq<LineView>, s: SectionView, t: int) -> bool {
    &&& 0 <= t
    &&& t + s.1.len() < lines.len()
    &&& lines[t].len() == 1
    &&& lines[t][0].text == " "@ + s.0
    &&& forall|i: int|
        0 <= i < s.1.len() ==> lines[t + 1 + i] == binding_line(#[trigger] s.1[i])
}

/// Every line of the help that has a row is drawn, the first half on the left and the rest on
/// the right.
pub proof fn help_is_drawn_in_two_columns(area: Rect, lines: Seq<LineView>, n: nat, i: int)
    requires
        0 <= i < n,
        n <= lines.len(),
        fits(area),
        area.height >= (lines.len() + 1) / 2,
    ensures
        ({
            let half = (lines.len() + 1) as int / 2;
            let width = area.width as int / 2;
            help_rows(area, lines, n).contains(
                OpView::Paragraph {
                    area: if i < half {
                        Rect {
                            x: area.x,
                            y: (area.y + i) as u16,
                            width: width as u16,
                            height: 1,
                        }
                    } else {
                        Rect {
                            x: (area.x + width) as u16,
                            y: (area.y + (i - half)) as u16,
                            width: width as u16,
                            height: 1,
                        }
                    },
                    lines: seq![lines[i]],
                },
            )
        }),
    decreases n,
{
    let half = (lines.len() + 1) as int / 2;
    let width = area.width as int / 2;
    let op = OpView::Paragraph {
        area: if i < half {
            Rect { x: area.x, y: (area.y + i) as u16, width: width as u16, height: 1 }
        } else {
            Rect {
                x: (area.x + width) as u16,
                y: (area.y + (i - half)) as u16,
                width: width as u16,
                height: 1,
            }
        },
        lines: seq![lines[i]],
    };
    let before = help_rows(area, lines, (n - 1) as nat);
    let all = help_rows(area, lines, n);
    if i == n - 1 {
        assert(help_row(area, lines, i)[0] == op);
        assert(all[before.len() as int] == op);
    } else {
        help_is_drawn_in_two_columns(area, lines, (n - 1) as nat, i);
        let k = choose|k: int| 0 <= k < before.len() && before[k] == op;
        assert(all[k] == op);
    }
}

} // verus!
