//! The modes of the interface and the keys that the hint bar shows for each.

use vstd::prelude::*;

use crate::text::{concat, concat3};
use crate::tui::screen::{
    add_span, bold, bold_style, empty_line, lines_of, piece, plain, slot_style, span, span_of,
    spans, styled, LineView, Op, OpView, Rect, Slot,
};

verus! {

broadcast use crate::lists::group_lists;

/// What the keys act on.
#[derive(Clone, Copy, Debug, PartialEq, Eq, Structural)]
pub enum Mode {
    Normal,
    QueueEdit,
    TrackInfo,
    CoverArtZoom,
    LibraryBrowse,
    ContextMenu,
    Organize,
    Picker,
}

/// What the mouse is over.
#[derive(Clone, Copy, Debug, PartialEq, Eq, Structural)]
pub enum HoverZone {
    Elsewhere,
    QueueItem(usize),
}

/// The keys of a mode, each with what it does.
pub open spec fn hints(mode: Mode) -> Seq<(Seq<char>, Seq<char>)> {
    match mode {
        Mode::Normal => seq![
            ("space"@, "pause"@),
            ("<>"@, "skip"@),
            (",."@, "seek"@),
            ("/"@, "search"@),
            ("p"@, "track"@),
            ("a"@, "album"@),
            ("r"@, "artist"@),
            ("l"@, "library"@),
            ("e"@, "edit"@),
            ("i"@, "info"@),
            ("f"@, "\u{2605}fav"@),
            ("z"@, "art"@),
            ("C-z"@, "undo"@),
            ("q"@, "quit"@),
        ],
        Mode::QueueEdit => seq![
            ("\u{2191}\u{2193}"@, "navigate"@),
            ("S-\u{2191}\u{2193}"@, "select"@),
            ("d"@, "delete"@),
            ("j/k"@, "move"@),
            ("C-z/y"@, "undo/redo"@),
            ("space"@, "actions"@),
            ("i"@, "info"@),
            ("g/G"@, "top/end"@),
            ("PgUp/Dn"@, "page"@),
            ("esc"@, "done"@),
        ],
        Mode::TrackInfo => seq![("esc"@, "close"@), ("i"@, "close"@)],
        Mode::CoverArtZoom => seq![("esc"@, "close"@), ("z"@, "close"@)],
        Mode::LibraryBrowse => seq![
            ("\u{2191}\u{2193}"@, "navigate"@),
            ("\u{2192}/enter"@, "expand"@),
            ("\u{2190}"@, "collapse"@),
            ("a"@, "enqueue"@),
            ("f"@, "filter"@),
            ("tab"@, "focus"@),
            ("space"@, "pause"@),
            ("esc"@, "close"@),
        ],
        Mode::ContextMenu => seq![
            ("\u{2191}\u{2193}"@, "navigate"@),
            ("ret"@, "select"@),
            ("esc"@, "cancel"@),
        ],
        Mode::Organize => seq![
            ("tab"@, "focus"@),
            ("\u{2191}\u{2193}"@, "navigate"@),
            ("ret"@, "run"@),
            ("esc"@, "cancel"@),
        ],
        Mode::Picker => seq![
            ("\u{2191}\u{2193}"@, "navigate"@),
            ("ret"@, "append"@),
            ("C-ret"@, "play"@),
            ("C-r"@, "replace"@),
            ("tab"@, "multi"@),
            ("esc"@, "cancel"@),
        ],
    }
}

/// Keys in brackets, each followed by what it does, two spaces apart.
pub open spec fn hint_line(hints: Seq<(Seq<char>, Seq<char>)>) -> LineView
    decreases hints.len(),
{
    if hints.len() == 0 {
        Seq::empty()
    } else {
        hint_line(hints.drop_last()) + (if hints.len() > 1 {
            seq![piece("  "@, Slot::HintDesc)]
        } else {
            Seq::empty()
        }) + seq![
            styled("["@ + hints.last().0 + "]"@, bold(plain(Slot::HintKey))),
            piece(" "@ + hints.last().1, Slot::HintDesc),
        ]
    }
}

/// Pairs of fixed texts, as values.
pub open spec fn table_view(t: Seq<(&'static str, &'static str)>) -> Seq<(Seq<char>, Seq<char>)> {
    t.map_values(|e: (&'static str, &'static str)| (e.0@, e.1@))
}

fn hint_table(mode: Mode) -> (r: Vec<(&'static str, &'static str)>)
    ensures
        table_view(r@) == hints(mode),
{
    let r: Vec<(&'static str, &'static str)> = match mode {
        Mode::Normal => vec![
            ("space", "pause"),
            ("<>", "skip"),
            (",.", "seek"),
            ("/", "search"),
            ("p", "track"),
            ("a", "album"),
            ("r", "artist"),
            ("l", "library"),
            ("e", "edit"),
            ("i", "info"),
            ("f", "\u{2605}fav"),
            ("z", "art"),
            ("C-z", "undo"),
            ("q", "quit"),
        ],
        Mode::QueueEdit => vec![
            ("\u{2191}\u{2193}", "navigate"),
            ("S-\u{2191}\u{2193}", "select"),
            ("d", "delete"),
            ("j/k", "move"),
            ("C-z/y", "undo/redo"),
            ("space", "actions"),
            ("i", "info"),
            ("g/G", "top/end"),
            ("PgUp/Dn", "page"),
            ("esc", "done"),
        ],
        Mode::TrackInfo => vec![("esc", "close"), ("i", "close")],
        Mode::CoverArtZoom => vec![("esc", "close"), ("z", "close")],
        Mode::LibraryBrowse => vec![
            ("\u{2191}\u{2193}", "navigate"),
            ("\u{2192}/enter", "expand"),
            ("\u{2190}", "collapse"),
            ("a", "enqueue"),
            ("f", "filter"),
            ("tab", "focus"),
            ("space", "pause"),
            ("esc", "close"),
        ],
        Mode::ContextMenu => vec![
            ("\u{2191}\u{2193}", "navigate"),
            ("ret", "select"),
            ("esc", "cancel"),
        ],
        Mode::Organize => vec![
            ("tab", "focus"),
            ("\u{2191}\u{2193}", "navigate"),
            ("ret", "run"),
            ("esc", "cancel"),
        ],
        Mode::Picker => vec![
            ("\u{2191}\u{2193}", "navigate"),
            ("ret", "append"),
            ("C-ret", "play"),
            ("C-r", "replace"),
            ("tab", "multi"),
            ("esc", "cancel"),
        ],
    };
    assert(table_view(r@) =~= hints(mode));
    r
}

/// Shows the keys of the current mode.
pub struct HintBar {
    pub mode: Mode,
}

impl HintBar {
    /// The hint bar of a mode.
    pub fn new(mode: Mode) -> (r: Self)
        ensures
            r.mode == mode,
    {
        HintBar { mode }
    }

    /// Draws the bar over `area`.
    pub fn render(&self, area: Rect) -> (op: Op)
        ensures
            op@ == (OpView::Paragraph { area, lines: seq![hint_line(hints(self.mode))] }),
    {
        let table = hint_table(self.mode);
        let ghost all = hints(self.mode);
        let mut line = empty_line();
        let mut i: usize = 0;
        assert(all.take(0) =~= Seq::<(Seq<char>, Seq<char>)>::empty());
        while i < table.len()
            invariant
                i <= table@.len(),
                all == table_view(table@),
                spans(line@) == hint_line(all.take(i as int)),
            decreases table@.len() - i,
        {
            let (key, desc) = table[i];
            let ghost before = spans(line@);
            if i > 0 {
                add_span(&mut line, span("  ", slot_style(Slot::HintDesc)));
            }
            add_span(
                &mut line,
                span_of(concat3("[", key, "]"), bold_style(slot_style(Slot::HintKey))),
            );
            add_span(&mut line, span_of(concat(" ", desc), slot_style(Slot::HintDesc)));
            proof {
                assert(all.take(i as int + 1).drop_last() =~= all.take(i as int));
                assert(all.take(i as int + 1).last() == (key@, desc@));
                assert(spans(line@) =~= hint_line(all.take(i as int + 1)));
            }
            i = i + 1;
        }
        assert(all.take(i as int) =~= all);
        Op::Paragraph { area, lines: lines_of(line) }
    }
}

/// The line of hints holds each of them, its key in brackets and what the key does, in order.
pub proof fn hints_are_shown(list: Seq<(Seq<char>, Seq<char>)>, k: int)
    requires
        0 <= k < list.len(),
    ensures
        ({
            let line = hint_line(list);
            &&& line.len() == 3 * list.len() - 1
            &&& line[3 * k].text == "["@ + list[k].0 + "]"@
            &&& line[3 * k + 1].text == " "@ + list[k].1
        }),
    decreases list.len(),
{
    let before = hint_line(list.drop_last());
    hints_take_three(list.drop_last());
    if k < list.len() - 1 {
        hints_are_shown(list.drop_last(), k);
        assert(list.drop_last()[k] == list[k]);
        assert(hint_line(list)[3 * k] == before[3 * k]);
        assert(hint_line(list)[3 * k + 1] == before[3 * k + 1]);
    }
}

proof fn hints_take_three(list: Seq<(Seq<char>, Seq<char>)>)
    ensures
        list.len() > 0 ==> hint_line(list).len() == 3 * list.len() - 1,
        list.len() == 0 ==> hint_line(list).len() == 0,
    decreases list.len(),
{
    if list.len() > 0 {
        hints_take_three(list.drop_last());
    }
}

/// Every mode but the usual one can be left with escape.
pub proof fn modes_can_be_left(mode: Mode)
    requires
        !(mode is Normal),
    ensures
        exists|k: int| 0 <= k < hints(mode).len() && (#[trigger] hints(mode)[k]).0 == "esc"@,
{
    let all = hints(mode);
    match mode {
        Mode::Normal => {},
        Mode::QueueEdit => {
            assert(all[9].0 == "esc"@);
        },
        Mode::TrackInfo | Mode::CoverArtZoom => {
            assert(all[0].0 == "esc"@);
        },
        Mode::LibraryBrowse => {
            assert(all[7].0 == "esc"@);
        },
        Mode::ContextMenu => {
            assert(all[2].0 == "esc"@);
        },
        Mode::Organize => {
            assert(all[3].0 == "esc"@);
        },
        Mode::Picker => {
            assert(all[5].0 == "esc"@);
        },
    }
}

} // verus!
