//! The library browser: a tree of artists, albums and tracks, and its filter.

use vstd::prelude::*;
use vstd::utf8::is_ascii_chars;

use crate::lists::{collects, filter_collects, filter_contains, filter_none, filter_step, take_push};
use crate::rows::{AlbumRow, ArtistRow, TrackRow};
use crate::text::{
    ascii_prefix_is_bytes, byte_len, byte_len_take, byte_length, byte_prefix, concat3, contains,
    contains_text, cut_bytes, lowercase, opt_text, texts_are_found_in_any_case,
    texts_are_found_inside, to_lowercase,
};
use crate::tui::cursor::{down, step_down, step_up, up};
use crate::tui::queue::{padded, push_padded, scrolled_to};
use crate::tui::screen::{
    add_span, draw, empty_line, fits, inner, inner_area, line_of, min_int, piece, plain, scene,
    slot_style, span, span_of, spans, sub0, LineView, Op, OpView, Rect, Sides, Slot, Span,
    SpanView, Style,
};
use crate::tui::transport::{format_time, time_text};

verus! {

broadcast use crate::lists::group_lists;

/// A line of the tree.
#[derive(Debug)]
pub enum LibraryNode {
    Artist { id: i64, name: String, expanded: bool },
    Album { id: i64, title: String, year: Option<String>, expanded: bool },
    Track { id: i64, title: String, number: Option<i32>, duration_ms: Option<i64> },
}

impl Clone for LibraryNode {
    fn clone(&self) -> (r: Self)
        ensures
            r == *self,
    {
        match self {
            LibraryNode::Artist { id, name, expanded } => LibraryNode::Artist {
                id: *id,
                name: name.clone(),
                expanded: *expanded,
            },
            LibraryNode::Album { id, title, year, expanded } => LibraryNode::Album {
                id: *id,
                title: title.clone(),
                year: year.clone(),
                expanded: *expanded,
            },
            LibraryNode::Track { id, title, number, duration_ms } => LibraryNode::Track {
                id: *id,
                title: title.clone(),
                number: *number,
                duration_ms: *duration_ms,
            },
        }
    }
}

// ---------------------------------------------------------------------------
// The tree
// ---------------------------------------------------------------------------

/// How deep a node stands: artists at the top, albums below, tracks at the bottom.
pub open spec fn depth(node: LibraryNode) -> int {
    match node {
        LibraryNode::Artist { .. } => 0,
        LibraryNode::Album { .. } => 1,
        LibraryNode::Track { .. } => 2,
    }
}

/// How deep a node stands.
pub fn node_depth(node: &LibraryNode) -> (r: usize)
    ensures
        r == depth(*node),
{
    match node {
        LibraryNode::Artist { .. } => 0,
        LibraryNode::Album { .. } => 1,
        LibraryNode::Track { .. } => 2,
    }
}

/// Whether a node shows what is below it.
pub open spec fn is_expanded(node: LibraryNode) -> bool {
    match node {
        LibraryNode::Artist { expanded, .. } => expanded,
        LibraryNode::Album { expanded, .. } => expanded,
        LibraryNode::Track { .. } => false,
    }
}

/// A node, opened or closed; a track stays as it is.
pub open spec fn with_expanded(node: LibraryNode, open: bool) -> LibraryNode {
    match node {
        LibraryNode::Artist { id, name, .. } => LibraryNode::Artist { id, name, expanded: open },
        LibraryNode::Album { id, title, year, .. } => LibraryNode::Album {
            id,
            title,
            year,
            expanded: open,
        },
        LibraryNode::Track { .. } => node,
    }
}

/// Whether node `i` hangs together with the one before it: one level deeper only
/// below an open node.
pub open spec fn hangs(nodes: Seq<LibraryNode>, i: int) -> bool {
    if i == 0 {
        depth(nodes[0]) == 0
    } else {
        depth(nodes[i]) <= depth(nodes[i - 1]) || (depth(nodes[i]) == depth(nodes[i - 1]) + 1
            && is_expanded(nodes[i - 1]))
    }
}

/// Whether nodes form a tree that is written out from the top.
pub open spec fn is_tree(nodes: Seq<LibraryNode>) -> bool {
    forall|i: int| 0 <= i < nodes.len() ==> #[trigger] hangs(nodes, i)
}

/// How many of the nodes from `i` on are deeper than `d`, without a gap.
pub open spec fn deeper_run(nodes: Seq<LibraryNode>, i: int, d: int) -> int
    decreases nodes.len() - i,
{
    if 0 <= i < nodes.len() && depth(nodes[i]) > d {
        1 + deeper_run(nodes, i + 1, d)
    } else {
        0
    }
}

/// Node `c` opened, with its children below it.
pub open spec fn expanded_at(nodes: Seq<LibraryNode>, c: int, children: Seq<LibraryNode>) -> Seq<
    LibraryNode,
> {
    nodes.take(c).push(with_expanded(nodes[c], true)) + children + nodes.skip(c + 1)
}

/// Node `c` closed, with everything below it gone.
pub open spec fn collapsed_at(nodes: Seq<LibraryNode>, c: int) -> Seq<LibraryNode> {
    nodes.take(c).push(with_expanded(nodes[c], false)) + nodes.skip(
        c + 1 + deeper_run(nodes, c + 1, depth(nodes[c])),
    )
}

/// The nearest node before `c` that is less deep; `c` itself if there is none.
pub open spec fn parent_of(nodes: Seq<LibraryNode>, c: int) -> int {
    let above = shallower_before(nodes, c, depth(nodes[c]));
    if above >= 0 {
        above
    } else {
        c
    }
}

/// The last of the nodes before `i` that is less deep than `d`, or -1.
pub open spec fn shallower_before(nodes: Seq<LibraryNode>, i: int, d: int) -> int
    decreases i,
{
    if i <= 0 {
        -1
    } else if depth(nodes[i - 1]) < d {
        i - 1
    } else {
        shallower_before(nodes, i - 1, d)
    }
}

proof fn deeper_run_bounds(nodes: Seq<LibraryNode>, i: int, d: int)
    requires
        0 <= i <= nodes.len(),
    ensures
        0 <= deeper_run(nodes, i, d) <= nodes.len() - i,
        forall|k: int|
            i <= k < i + deeper_run(nodes, i, d) ==> depth(#[trigger] nodes[k]) > d,
        i + deeper_run(nodes, i, d) < nodes.len() ==> depth(nodes[i + deeper_run(nodes, i, d)])
            <= d,
    decreases nodes.len() - i,
{
    if i < nodes.len() && depth(nodes[i]) > d {
        deeper_run_bounds(nodes, i + 1, d);
    }
}

proof fn deeper_run_at(nodes: Seq<LibraryNode>, i: int, d: int, n: int)
    requires
        0 <= i <= i + n <= nodes.len(),
        forall|k: int| i <= k < i + n ==> depth(#[trigger] nodes[k]) > d,
        i + n < nodes.len() ==> depth(nodes[i + n]) <= d,
    ensures
        deeper_run(nodes, i, d) == n,
    decreases n,
{
    if n > 0 {
        assert(depth(nodes[i]) > d);
        deeper_run_at(nodes, i + 1, d, n - 1);
    }
}

/// Whether nodes are closed and stand one level below another.
pub open spec fn are_children(children: Seq<LibraryNode>, d: int) -> bool {
    forall|i: int|
        0 <= i < children.len() ==> depth(#[trigger] children[i]) == d + 1 && !is_expanded(
            children[i],
        )
}

/// In a tree, a closed node is followed by nothing deeper.
pub proof fn closed_nodes_have_nothing_below(nodes: Seq<LibraryNode>, c: int)
    requires
        is_tree(nodes),
        0 <= c < nodes.len() - 1,
        !is_expanded(nodes[c]),
    ensures
        depth(nodes[c + 1]) <= depth(nodes[c]),
{
    assert(hangs(nodes, c + 1));
}

/// Opening a closed node of a tree and closing it again restores the tree.
pub proof fn expanding_and_collapsing_cancel(
    nodes: Seq<LibraryNode>,
    c: int,
    children: Seq<LibraryNode>,
)
    requires
        is_tree(nodes),
        0 <= c < nodes.len(),
        depth(nodes[c]) < 2,
        !is_expanded(nodes[c]),
        are_children(children, depth(nodes[c])),
    ensures
        collapsed_at(expanded_at(nodes, c, children), c) == nodes,
{
    let open = expanded_at(nodes, c, children);
    let d = depth(nodes[c]);
    assert(open[c] == with_expanded(nodes[c], true));
    assert forall|k: int| c + 1 <= k < c + 1 + children.len() implies depth(#[trigger] open[k])
        > d by {
        assert(open[k] == children[k - c - 1]);
    }
    if c + 1 < nodes.len() {
        closed_nodes_have_nothing_below(nodes, c);
        assert(open[c + 1 + children.len()] == nodes[c + 1]);
    }
    deeper_run_at(open, c + 1, d, children.len() as int);
    assert(open.take(c) =~= nodes.take(c));
    assert(open.skip(c + 1 + children.len() as int) =~= nodes.skip(c + 1));
    assert(with_expanded(with_expanded(nodes[c], true), false) == nodes[c]);
    assert(collapsed_at(open, c) =~= nodes);
}

/// Opening a closed node of a tree with its children leaves a tree.
pub proof fn expanding_keeps_a_tree(nodes: Seq<LibraryNode>, c: int, children: Seq<LibraryNode>)
    requires
        is_tree(nodes),
        0 <= c < nodes.len(),
        depth(nodes[c]) < 2,
        !is_expanded(nodes[c]),
        are_children(children, depth(nodes[c])),
    ensures
        is_tree(expanded_at(nodes, c, children)),
{
    let open = expanded_at(nodes, c, children);
    let n = children.len() as int;
    assert forall|i: int| 0 <= i < open.len() implies #[trigger] hangs(open, i) by {
        if i <= c {
            assert(hangs(nodes, i));
            assert(depth(open[i]) == depth(nodes[i]));
            if i > 0 {
                assert(open[i - 1] == nodes[i - 1]);
            }
        } else if i <= c + n {
            assert(open[i] == children[i - c - 1]);
            if i > c + 1 {
                assert(open[i - 1] == children[i - c - 2]);
            }
        } else {
            assert(open[i] == nodes[i - n]);
            assert(hangs(nodes, i - n));
            if i == c + n + 1 {
                closed_nodes_have_nothing_below(nodes, c);
                if n > 0 {
                    assert(open[i - 1] == children[n - 1]);
                }
            } else {
                assert(open[i - 1] == nodes[i - n - 1]);
            }
        }
    }
}

/// Closing a node of a tree leaves a tree.
pub proof fn collapsing_keeps_a_tree(nodes: Seq<LibraryNode>, c: int)
    requires
        is_tree(nodes),
        0 <= c < nodes.len(),
    ensures
        is_tree(collapsed_at(nodes, c)),
{
    let shut = collapsed_at(nodes, c);
    let n = deeper_run(nodes, c + 1, depth(nodes[c]));
    deeper_run_bounds(nodes, c + 1, depth(nodes[c]));
    assert forall|i: int| 0 <= i < shut.len() implies #[trigger] hangs(shut, i) by {
        if i <= c {
            assert(hangs(nodes, i));
            assert(depth(shut[i]) == depth(nodes[i]));
            if i > 0 {
                assert(shut[i - 1] == nodes[i - 1]);
            }
        } else {
            assert(shut[i] == nodes[i + n]);
            assert(hangs(nodes, i + n));
            if i == c + 1 {
                assert(depth(nodes[c + 1 + n]) <= depth(nodes[c]));
            } else {
                assert(shut[i - 1] == nodes[i + n - 1]);
            }
        }
    }
}

proof fn shallower_before_facts(nodes: Seq<LibraryNode>, i: int, d: int)
    requires
        0 <= i <= nodes.len(),
    ensures
        -1 <= shallower_before(nodes, i, d) < i,
        shallower_before(nodes, i, d) >= 0 ==> depth(nodes[shallower_before(nodes, i, d)]) < d,
        forall|k: int|
            shallower_before(nodes, i, d) < k < i ==> depth(#[trigger] nodes[k]) >= d,
    decreases i,
{
    if i > 0 && depth(nodes[i - 1]) >= d {
        shallower_before_facts(nodes, i - 1, d);
    }
}

/// In a tree, every node below the top has its parent right above its siblings:
/// one level up, and open.
pub proof fn parents_are_one_level_up(nodes: Seq<LibraryNode>, c: int)
    requires
        is_tree(nodes),
        0 <= c < nodes.len(),
        depth(nodes[c]) > 0,
    ensures
        0 <= parent_of(nodes, c) < c,
        depth(nodes[parent_of(nodes, c)]) == depth(nodes[c]) - 1,
        is_expanded(nodes[parent_of(nodes, c)]),
{
    let d = depth(nodes[c]);
    let p = shallower_before(nodes, c, d);
    shallower_before_facts(nodes, c, d);
    assert(hangs(nodes, 0));
    if p == -1 {
        assert(c > 0);
        assert(depth(nodes[0]) >= d);
    } else {
        assert(hangs(nodes, p + 1));
        assert(depth(nodes[p + 1]) >= d);
    }
}

// ---------------------------------------------------------------------------
// State
// ---------------------------------------------------------------------------

/// The library browser.
#[derive(Debug)]
pub struct LibraryState {
    pub nodes: Vec<LibraryNode>,
    pub cursor: usize,
    pub scroll_offset: usize,
    /// Active filter text. When non-empty, only matching artists are shown.
    pub filter: String,
    /// Whether the filter input is focused.
    pub filter_active: bool,
    /// All artists, unfiltered.
    pub all_artists: Vec<LibraryNode>,
}

/// What has to be read from the database before a node can be opened.
#[derive(Clone, Copy, Debug, PartialEq, Eq, Structural)]
pub enum Needed {
    Nothing,
    AlbumsOf(i64),
    TracksOf(i64),
}

/// What was read from the database.
#[derive(Debug)]
pub enum Fetched {
    /// The database could not be opened, or nothing was needed.
    Nothing,
    Albums(Vec<AlbumRow>),
    Tracks(Vec<TrackRow>),
}

/// The nodes of artists, closed.
pub open spec fn artist_nodes(rows: Seq<ArtistRow>) -> Seq<LibraryNode> {
    rows.map_values(
        |a: ArtistRow| LibraryNode::Artist { id: a.id, name: a.name, expanded: false },
    )
}

/// The year of an album: the first four bytes of its date, if it has as many.
pub open spec fn year_of(date: Option<String>) -> Option<Seq<char>> {
    match date {
        Some(d) => if byte_len(d@) >= 4 {
            byte_prefix(d@, 4)
        } else {
            None
        },
        None => None,
    }
}

/// Whether the first four bytes of a date, if it has as many, are whole characters.
pub open spec fn year_is_whole(date: Option<String>) -> bool {
    match date {
        Some(d) => byte_len(d@) >= 4 ==> byte_prefix(d@, 4) is Some,
        None => true,
    }
}

/// Whether `node` shows an album, closed.
pub open spec fn shows_album(node: LibraryNode, row: AlbumRow) -> bool {
    match node {
        LibraryNode::Album { id, title, year, expanded } => id == row.id && title == row.title
            && opt_text(year) == year_of(row.date) && !expanded,
        _ => false,
    }
}

/// The nodes of tracks.
pub open spec fn track_nodes(rows: Seq<TrackRow>) -> Seq<LibraryNode> {
    rows.map_values(
        |t: TrackRow|
            LibraryNode::Track {
                id: t.id,
                title: t.title,
                number: t.track_number,
                duration_ms: t.duration_ms,
            },
    )
}

/// Whether `children` are the nodes of what was read.
pub open spec fn children_of(children: Seq<LibraryNode>, fetched: Fetched) -> bool {
    match fetched {
        Fetched::Nothing => false,
        Fetched::Albums(rows) => children.len() == rows@.len() && forall|i: int|
            0 <= i < children.len() ==> shows_album(#[trigger] children[i], rows@[i]),
        Fetched::Tracks(rows) => children == track_nodes(rows@),
    }
}

/// Whether what was read is what opening `node` takes.
pub open spec fn suits(node: LibraryNode, fetched: Fetched) -> bool {
    match (node, fetched) {
        (LibraryNode::Artist { .. }, Fetched::Albums(_)) => true,
        (LibraryNode::Album { .. }, Fetched::Tracks(_)) => true,
        _ => false,
    }
}

/// Whether the dates of what was read can be cut to years.
pub open spec fn years_are_whole(fetched: Fetched) -> bool {
    match fetched {
        Fetched::Albums(rows) => forall|i: int|
            0 <= i < rows@.len() ==> year_is_whole((#[trigger] rows@[i]).date),
        _ => true,
    }
}

/// Whether an artist's name has the filter text in it, up to case.
pub open spec fn name_matches(node: LibraryNode, filter: Seq<char>) -> bool {
    match node {
        LibraryNode::Artist { name, .. } => contains_text(
            lowercase(name@),
            lowercase(filter),
        ),
        _ => false,
    }
}

/// The artists that a filter leaves; an empty one leaves all.
pub open spec fn filtered(all: Seq<LibraryNode>, filter: Seq<char>) -> Seq<LibraryNode> {
    if filter.len() == 0 {
        all
    } else {
        all.filter(|n: LibraryNode| name_matches(n, filter))
    }
}

/// Every artist that a filter leaves is one of all artists and matches the filter,
/// and every artist that matches is left.
pub proof fn filter_leaves_what_matches(all: Seq<LibraryNode>, filter: Seq<char>, node: LibraryNode)
    requires
        filter.len() > 0,
    ensures
        filtered(all, filter).contains(node) <==> all.contains(node) && name_matches(node, filter),
{
    filter_contains(all, |n: LibraryNode| name_matches(n, filter), node);
}

impl LibraryState {
    /// The nodes are a tree, the artists are closed, and the cursor is on a node,
    /// or at the top where there is none.
    pub open spec fn wf(self) -> bool {
        &&& is_tree(self.nodes@)
        &&& forall|i: int|
            0 <= i < self.all_artists@.len() ==> depth(#[trigger] self.all_artists@[i]) == 0
                && !is_expanded(self.all_artists@[i])
        &&& if self.nodes@.len() > 0 {
            self.cursor < self.nodes@.len()
        } else {
            self.cursor == 0
        }
    }
}

fn copy_nodes(v: &Vec<LibraryNode>) -> (r: Vec<LibraryNode>)
    ensures
        r@ == v@,
{
    let mut out: Vec<LibraryNode> = Vec::new();
    let mut i: usize = 0;
    while i < v.len()
        invariant
            i <= v@.len(),
            out@ == v@.take(i as int),
        decreases v@.len() - i,
    {
        out.push(v[i].clone());
        proof {
            take_push(v@, i as int);
        }
        i = i + 1;
    }
    assert(v@.take(i as int) =~= v@);
    out
}

fn album_nodes(rows: &Vec<AlbumRow>) -> (r: Vec<LibraryNode>)
    requires
        forall|i: int| 0 <= i < rows@.len() ==> year_is_whole((#[trigger] rows@[i]).date),
    ensures
        r@.len() == rows@.len(),
        forall|i: int| 0 <= i < r@.len() ==> shows_album(#[trigger] r@[i], rows@[i]),
{
    let mut out: Vec<LibraryNode> = Vec::new();
    let mut i: usize = 0;
    while i < rows.len()
        invariant
            i <= rows@.len(),
            out@.len() == i,
            forall|k: int| 0 <= k < rows@.len() ==> year_is_whole((#[trigger] rows@[k]).date),
            forall|k: int| 0 <= k < i ==> shows_album(#[trigger] out@[k], rows@[k]),
        decreases rows@.len() - i,
    {
        let row = &rows[i];
        assert(year_is_whole(rows@[i as int].date));
        let year: Option<String> = match &row.date {
            Some(d) => if byte_length(d.as_str()) >= 4 {
                cut_bytes(d.as_str(), 4)
            } else {
                None
            },
            None => None,
        };
        out.push(
            LibraryNode::Album { id: row.id, title: row.title.clone(), year, expanded: false },
        );
        i = i + 1;
    }
    out
}

fn tracks_as_nodes(rows: &Vec<TrackRow>) -> (r: Vec<LibraryNode>)
    ensures
        r@ == track_nodes(rows@),
{
    let ghost all = track_nodes(rows@);
    let mut out: Vec<LibraryNode> = Vec::new();
    let mut i: usize = 0;
    while i < rows.len()
        invariant
            i <= rows@.len(),
            all == track_nodes(rows@),
            out@ == all.take(i as int),
        decreases rows@.len() - i,
    {
        let row = &rows[i];
        out.push(
            LibraryNode::Track {
                id: row.id,
                title: row.title.clone(),
                number: row.track_number,
                duration_ms: row.duration_ms,
            },
        );
        proof {
            take_push(all, i as int);
        }
        i = i + 1;
    }
    assert(all.take(i as int) =~= all);
    out
}

fn set_expanded(node: &LibraryNode, open: bool) -> (r: LibraryNode)
    ensures
        r == with_expanded(*node, open),
{
    match node {
        LibraryNode::Artist { id, name, .. } => LibraryNode::Artist {
            id: *id,
            name: name.clone(),
            expanded: open,
        },
        LibraryNode::Album { id, title, year, .. } => LibraryNode::Album {
            id: *id,
            title: title.clone(),
            year: year.clone(),
            expanded: open,
        },
        LibraryNode::Track { .. } => node.clone(),
    }
}

/// Whether `after` are the nodes `before` with node `c` opened on what was read.
pub open spec fn opens(
    before: Seq<LibraryNode>,
    c: int,
    fetched: Fetched,
    after: Seq<LibraryNode>,
) -> bool {
    exists|children: Seq<LibraryNode>| #[trigger]
        children_of(children, fetched) && after == expanded_at(before, c, children)
}

proof fn fetched_are_children(node: LibraryNode, children: Seq<LibraryNode>, fetched: Fetched)
    requires
        suits(node, fetched),
        children_of(children, fetched),
    ensures
        are_children(children, depth(node)),
{
    match fetched {
        Fetched::Albums(rows) => {
            assert forall|i: int| 0 <= i < children.len() implies depth(#[trigger] children[i])
                == 1 && !is_expanded(children[i]) by {
                assert(shows_album(children[i], rows@[i]));
            }
        },
        Fetched::Tracks(rows) => {},
        Fetched::Nothing => {},
    }
}

impl LibraryState {
    /// A browser over all artists, none of them opened.
    pub fn new(artists: Vec<ArtistRow>) -> (r: Self)
        ensures
            r.wf(),
            r.nodes@ == artist_nodes(artists@),
            r.all_artists@ == artist_nodes(artists@),
            r.cursor == 0,
            r.scroll_offset == 0,
            r.filter@ == Seq::<char>::empty(),
            !r.filter_active,
    {
        let ghost all = artist_nodes(artists@);
        let mut nodes: Vec<LibraryNode> = Vec::new();
        let mut i: usize = 0;
        while i < artists.len()
            invariant
                i <= artists@.len(),
                all == artist_nodes(artists@),
                nodes@ == all.take(i as int),
            decreases artists@.len() - i,
        {
            nodes.push(
                LibraryNode::Artist {
                    id: artists[i].id,
                    name: artists[i].name.clone(),
                    expanded: false,
                },
            );
            proof {
                take_push(all, i as int);
            }
            i = i + 1;
        }
        assert(all.take(i as int) =~= all);
        let all_artists = copy_nodes(&nodes);
        assert forall|k: int| 0 <= k < nodes@.len() implies #[trigger] hangs(nodes@, k) by {}
        LibraryState {
            nodes,
            cursor: 0,
            scroll_offset: 0,
            filter: String::new(),
            filter_active: false,
            all_artists,
        }
    }

    /// Shows the artists that the filter leaves, from the top.
    pub fn apply_filter(&mut self)
        ensures
            final(self).nodes@ == filtered(old(self).all_artists@, old(self).filter@),
            *final(self) == (LibraryState {
                nodes: final(self).nodes,
                cursor: 0,
                scroll_offset: 0,
                ..*old(self)
            }),
            old(self).wf() ==> final(self).wf(),
    {
        if self.filter.as_str().is_empty() {
            self.nodes = copy_nodes(&self.all_artists);
        } else {
            let query = to_lowercase(self.filter.as_str());
            let ghost all = self.all_artists@;
            let ghost filter = self.filter@;
            let ghost keep = |n: LibraryNode| name_matches(n, filter);
            let mut out: Vec<LibraryNode> = Vec::new();
            let mut i: usize = 0;
            proof {
                filter_none(all, keep);
            }
            while i < self.all_artists.len()
                invariant
                    i <= self.all_artists@.len(),
                    *self == *old(self),
                    all == self.all_artists@,
                    filter == self.filter@,
                    query@ == lowercase(filter),
                    keep == (|n: LibraryNode| name_matches(n, filter)),
                    out@ == all.take(i as int).filter(keep),
                decreases self.all_artists@.len() - i,
            {
                let node = &self.all_artists[i];
                let hit = match node {
                    LibraryNode::Artist { name, .. } => {
                        let lower = to_lowercase(name.as_str());
                        contains(lower.as_str(), query.as_str())
                    },
                    _ => false,
                };
                proof {
                    filter_step(all, i as int, keep);
                }
                if hit {
                    out.push(node.clone());
                }
                i = i + 1;
            }
            assert(all.take(i as int) =~= all);
            self.nodes = out;
        }
        self.cursor = 0;
        self.scroll_offset = 0;
        proof {
            if old(self).wf() {
                let all = old(self).all_artists@;
                assert forall|k: int| 0 <= k < self.nodes@.len() implies #[trigger] hangs(
                    self.nodes@,
                    k,
                ) by {
                    self.filtered_are_artists(k);
                    if k > 0 {
                        self.filtered_are_artists(k - 1);
                    }
                }
            }
        }
    }

    proof fn filtered_are_artists(self, k: int)
        requires
            forall|i: int|
                0 <= i < self.all_artists@.len() ==> depth(#[trigger] self.all_artists@[i]) == 0
                    && !is_expanded(self.all_artists@[i]),
            self.nodes@ == filtered(self.all_artists@, self.filter@),
            0 <= k < self.nodes@.len(),
        ensures
            depth(self.nodes@[k]) == 0,
            !is_expanded(self.nodes@[k]),
    {
        let all = self.all_artists@;
        let node = self.nodes@[k];
        if self.filter@.len() > 0 {
            let filter = self.filter@;
            assert(self.nodes@.contains(node));
            filter_contains(all, |n: LibraryNode| name_matches(n, filter), node);
            let i = choose|i: int| 0 <= i < all.len() && all[i] == node;
            assert(depth(all[i]) == 0);
        }
    }

    /// Focuses the filter input.
    pub fn start_filter(&mut self)
        ensures
            *final(self) == (LibraryState { filter_active: true, ..*old(self) }),
    {
        self.filter_active = true;
    }

    /// Leaves the filter input; the filter stays.
    pub fn stop_filter(&mut self)
        ensures
            *final(self) == (LibraryState { filter_active: false, ..*old(self) }),
    {
        self.filter_active = false;
    }

    /// Drops the filter and shows all artists again.
    pub fn clear_filter(&mut self)
        ensures
            final(self).nodes@ == old(self).all_artists@,
            final(self).filter@ == Seq::<char>::empty(),
            *final(self) == (LibraryState {
                nodes: final(self).nodes,
                filter: final(self).filter,
                filter_active: false,
                cursor: 0,
                scroll_offset: 0,
                ..*old(self)
            }),
            old(self).wf() ==> final(self).wf(),
    {
        self.filter = String::new();
        self.filter_active = false;
        self.apply_filter();
    }

    /// Types a character into the filter.
    pub fn filter_type_char(&mut self, c: char)
        ensures
            final(self).filter@ == old(self).filter@.push(c),
            final(self).nodes@ == filtered(old(self).all_artists@, old(self).filter@.push(c)),
            *final(self) == (LibraryState {
                nodes: final(self).nodes,
                filter: final(self).filter,
                cursor: 0,
                scroll_offset: 0,
                ..*old(self)
            }),
            old(self).wf() ==> final(self).wf(),
    {
        self.filter.push(c);
        self.apply_filter();
    }

    /// Takes the last character of the filter back, if there is one.
    pub fn filter_backspace(&mut self)
        ensures
            final(self).filter@ == if old(self).filter@.len() > 0 {
                old(self).filter@.drop_last()
            } else {
                old(self).filter@
            },
            final(self).nodes@ == filtered(old(self).all_artists@, final(self).filter@),
            *final(self) == (LibraryState {
                nodes: final(self).nodes,
                filter: final(self).filter,
                cursor: 0,
                scroll_offset: 0,
                ..*old(self)
            }),
            old(self).wf() ==> final(self).wf(),
    {
        let _popped = self.filter.pop();
        self.apply_filter();
    }

    /// What has to be read before the node at the cursor can be opened.
    pub open spec fn needed(self) -> Needed {
        if self.cursor >= self.nodes@.len() || is_expanded(self.nodes@[self.cursor as int]) {
            Needed::Nothing
        } else {
            match self.nodes@[self.cursor as int] {
                LibraryNode::Artist { id, .. } => Needed::AlbumsOf(id),
                LibraryNode::Album { id, .. } => Needed::TracksOf(id),
                LibraryNode::Track { .. } => Needed::Nothing,
            }
        }
    }

    /// What has to be read before the node at the cursor can be opened.
    pub fn children_needed(&self) -> (r: Needed)
        ensures
            r == self.needed(),
    {
        if self.cursor >= self.nodes.len() {
            return Needed::Nothing;
        }
        match &self.nodes[self.cursor] {
            LibraryNode::Artist { id, expanded: false, .. } => Needed::AlbumsOf(*id),
            LibraryNode::Album { id, expanded: false, .. } => Needed::TracksOf(*id),
            _ => Needed::Nothing,
        }
    }

    /// Whether the node at the cursor is closed and `fetched` holds its children.
    pub open spec fn can_open(self, fetched: Fetched) -> bool {
        &&& self.cursor < self.nodes@.len()
        &&& !is_expanded(self.nodes@[self.cursor as int])
        &&& suits(self.nodes@[self.cursor as int], fetched)
    }

    fn expand(&mut self, fetched: &Fetched)
        requires
            old(self).can_open(*fetched),
            years_are_whole(*fetched),
        ensures
            opens(old(self).nodes@, old(self).cursor as int, *fetched, final(self).nodes@),
            *final(self) == (LibraryState { nodes: final(self).nodes, ..*old(self) }),
            old(self).wf() ==> final(self).wf(),
    {
        let ghost before = self.nodes@;
        let ghost c = self.cursor as int;
        let mut children: Vec<LibraryNode> = match fetched {
            Fetched::Albums(rows) => album_nodes(rows),
            Fetched::Tracks(rows) => tracks_as_nodes(rows),
            Fetched::Nothing => Vec::new(),
        };
        let ghost kids = children@;
        assert(children_of(kids, *fetched));
        let opened = set_expanded(&self.nodes[self.cursor], true);
        assert(self.cursor < self.nodes.len());
        let mut tail = self.nodes.split_off(self.cursor + 1);
        let _old: Option<LibraryNode> = self.nodes.pop();
        self.nodes.push(opened);
        self.nodes.append(&mut children);
        self.nodes.append(&mut tail);
        proof {
            assert(self.nodes@ =~= expanded_at(before, c, kids));
            if old(self).wf() {
                fetched_are_children(before[c], kids, *fetched);
                expanding_keeps_a_tree(before, c, kids);
            }
        }
    }

    fn collapse_at_cursor(&mut self)
        requires
            old(self).cursor < old(self).nodes@.len(),
            depth(old(self).nodes@[old(self).cursor as int]) < 2,
        ensures
            final(self).nodes@ == collapsed_at(old(self).nodes@, old(self).cursor as int),
            *final(self) == (LibraryState { nodes: final(self).nodes, ..*old(self) }),
            old(self).wf() ==> final(self).wf(),
    {
        let ghost before = self.nodes@;
        let ghost c = self.cursor as int;
        let depth_here = node_depth(&self.nodes[self.cursor]);
        assert(self.cursor < self.nodes.len());
        let start: usize = self.cursor + 1;
        let mut end: usize = start;
        while end < self.nodes.len() && node_depth(&self.nodes[end]) > depth_here
            invariant
                *self == *old(self),
                start <= end <= self.nodes.len(),
                depth_here == depth(before[c]),
                before == self.nodes@,
                forall|k: int| start <= k < end ==> depth(#[trigger] before[k]) > depth_here,
            decreases self.nodes@.len() - end,
        {
            end = end + 1;
        }
        proof {
            deeper_run_at(before, c + 1, depth(before[c]), end - start);
        }
        let shut = set_expanded(&self.nodes[self.cursor], false);
        let mut tail = self.nodes.split_off(end);
        self.nodes.truncate(self.cursor);
        self.nodes.push(shut);
        self.nodes.append(&mut tail);
        proof {
            assert(self.nodes@ =~= collapsed_at(before, c));
            if old(self).wf() {
                collapsing_keeps_a_tree(before, c);
            }
        }
    }

    fn jump_to_parent(&mut self)
        requires
            old(self).cursor < old(self).nodes@.len(),
        ensures
            final(self).cursor == parent_of(old(self).nodes@, old(self).cursor as int),
            *final(self) == (LibraryState { cursor: final(self).cursor, ..*old(self) }),
            old(self).wf() ==> final(self).wf(),
    {
        let depth_here = node_depth(&self.nodes[self.cursor]);
        let ghost nodes = self.nodes@;
        let ghost c = self.cursor as int;
        proof {
            shallower_before_facts(nodes, c, depth(nodes[c]));
        }
        let mut i: usize = self.cursor;
        while i > 0
            invariant
                *self == *old(self),
                nodes == self.nodes@,
                c == self.cursor,
                i <= c < nodes.len(),
                depth_here == depth(nodes[c]),
                -1 <= shallower_before(nodes, c, depth(nodes[c])) < c,
                shallower_before(nodes, c, depth(nodes[c])) == shallower_before(
                    nodes,
                    i as int,
                    depth(nodes[c]),
                ),
            decreases i,
        {
            i = i - 1;
            if node_depth(&self.nodes[i]) < depth_here {
                self.cursor = i;
                return;
            }
        }
    }

    /// Opens the node at the cursor on what was read for it, or hands out the track
    /// that is there.
    pub fn expand_or_enter(&mut self, fetched: Fetched) -> (r: Option<Vec<i64>>)
        requires
            years_are_whole(fetched),
        ensures
            *final(self) == (LibraryState { nodes: final(self).nodes, ..*old(self) }),
            if old(self).can_open(fetched) {
                opens(old(self).nodes@, old(self).cursor as int, fetched, final(self).nodes@)
            } else {
                final(self).nodes == old(self).nodes
            },
            match r {
                Some(ids) => old(self).cursor < old(self).nodes@.len() && (
                match old(self).nodes@[old(self).cursor as int] {
                    LibraryNode::Track { id, .. } => ids@ == seq![id],
                    _ => false,
                }),
                None => old(self).cursor >= old(self).nodes@.len() || depth(
                    old(self).nodes@[old(self).cursor as int],
                ) < 2,
            },
            old(self).wf() ==> final(self).wf(),
    {
        if self.cursor >= self.nodes.len() {
            return None;
        }
        let ready = match (&self.nodes[self.cursor], &fetched) {
            (LibraryNode::Artist { expanded: false, .. }, Fetched::Albums(_)) => true,
            (LibraryNode::Album { expanded: false, .. }, Fetched::Tracks(_)) => true,
            (LibraryNode::Track { id, .. }, _) => {
                let ids: Vec<i64> = vec![*id];
                assert(ids@ =~= seq![*id]);
                return Some(ids);
            },
            _ => false,
        };
        if ready {
            self.expand(&fetched);
        }
        None
    }

    /// Closes the node at the cursor if it is open, else goes to its parent; a
    /// closed artist stays.
    pub fn collapse_or_parent(&mut self)
        ensures
            ({
                let nodes = old(self).nodes@;
                let c = old(self).cursor as int;
                if c >= nodes.len() {
                    *final(self) == *old(self)
                } else if is_expanded(nodes[c]) {
                    &&& final(self).nodes@ == collapsed_at(nodes, c)
                    &&& *final(self) == (LibraryState { nodes: final(self).nodes, ..*old(self) })
                } else if depth(nodes[c]) > 0 {
                    &&& final(self).cursor == parent_of(nodes, c)
                    &&& *final(self) == (LibraryState { cursor: final(self).cursor, ..*old(self) })
                } else {
                    *final(self) == *old(self)
                }
            }),
            old(self).wf() ==> final(self).wf(),
    {
        if self.cursor >= self.nodes.len() {
            return;
        }
        let (open, top): (bool, bool) = match &self.nodes[self.cursor] {
            LibraryNode::Artist { expanded, .. } => (*expanded, true),
            LibraryNode::Album { expanded, .. } => (*expanded, false),
            LibraryNode::Track { .. } => (false, false),
        };
        if open {
            self.collapse_at_cursor();
        } else if !top {
            self.jump_to_parent();
        }
    }

    /// Closes the node at the cursor if it is open, else opens it on what was read
    /// for it. Returns whether it did: a track, or a node that nothing was read for,
    /// stays as it is.
    pub fn toggle_expand(&mut self, fetched: Fetched) -> (r: bool)
        requires
            years_are_whole(fetched),
        ensures
            *final(self) == (LibraryState { nodes: final(self).nodes, ..*old(self) }),
            ({
                let nodes = old(self).nodes@;
                let c = old(self).cursor as int;
                &&& r == (c < nodes.len() && (is_expanded(nodes[c]) || old(self).can_open(fetched)))
                &&& r == (c < nodes.len() && is_expanded(final(self).nodes@[c]) != is_expanded(
                    nodes[c],
                ))
                &&& if c < nodes.len() && is_expanded(nodes[c]) {
                    final(self).nodes@ == collapsed_at(nodes, c)
                } else if old(self).can_open(fetched) {
                    opens(nodes, c, fetched, final(self).nodes@)
                } else {
                    final(self).nodes == old(self).nodes
                }
            }),
            !r ==> *final(self) == *old(self),
            old(self).wf() ==> final(self).wf(),
    {
        if self.cursor >= self.nodes.len() {
            return false;
        }
        let open = match &self.nodes[self.cursor] {
            LibraryNode::Artist { expanded, .. } => *expanded,
            LibraryNode::Album { expanded, .. } => *expanded,
            LibraryNode::Track { .. } => {
                return false;
            },
        };
        if open {
            self.collapse_at_cursor();
            return true;
        }
        let ready = match (&self.nodes[self.cursor], &fetched) {
            (LibraryNode::Artist { .. }, Fetched::Albums(_)) => true,
            (LibraryNode::Album { .. }, Fetched::Tracks(_)) => true,
            _ => false,
        };
        if ready {
            self.expand(&fetched);
        }
        ready
    }

    /// Whether the state differs from another in cursor and scroll alone, the
    /// cursor being at `cursor` and the scroll no further down than that.
    pub open spec fn moved(self, old: Self, cursor: int) -> bool {
        &&& self.cursor == cursor
        &&& self.scroll_offset == min_int(old.scroll_offset as int, cursor)
        &&& self == (LibraryState {
            cursor: self.cursor,
            scroll_offset: self.scroll_offset,
            ..old
        })
    }

    fn ensure_visible(&mut self)
        ensures
            final(self).scroll_offset == min_int(
                old(self).scroll_offset as int,
                old(self).cursor as int,
            ),
            *final(self) == (LibraryState {
                scroll_offset: final(self).scroll_offset,
                ..*old(self)
            }),
    {
        if self.cursor < self.scroll_offset {
            self.scroll_offset = self.cursor;
        }
    }

    /// One up, from the top to the bottom.
    pub fn move_up(&mut self)
        ensures
            if old(self).nodes@.len() == 0 {
                *final(self) == *old(self)
            } else {
                final(self).moved(
                    *old(self),
                    up(old(self).cursor as int, old(self).nodes@.len() as int),
                )
            },
            old(self).wf() ==> final(self).wf(),
    {
        if self.nodes.len() == 0 {
            return;
        }
        self.cursor = step_up(self.cursor, self.nodes.len());
        self.ensure_visible();
    }

    /// One down, from the bottom to the top.
    pub fn move_down(&mut self)
        ensures
            if old(self).nodes@.len() == 0 {
                *final(self) == *old(self)
            } else {
                final(self).moved(
                    *old(self),
                    down(old(self).cursor as int, old(self).nodes@.len() as int),
                )
            },
            old(self).wf() ==> final(self).wf(),
    {
        if self.nodes.len() == 0 {
            return;
        }
        self.cursor = step_down(self.cursor, self.nodes.len());
        self.ensure_visible();
    }

    /// A page up, to the top at most.
    pub fn page_up(&mut self, page_size: usize)
        ensures
            final(self).moved(*old(self), sub0(old(self).cursor as int, page_size as int)),
            old(self).wf() ==> final(self).wf(),
    {
        self.cursor = self.cursor.saturating_sub(page_size);
        self.ensure_visible();
    }

    /// A page down, to the last node at most.
    pub fn page_down(&mut self, page_size: usize)
        requires
            old(self).cursor + page_size <= usize::MAX,
        ensures
            final(self).moved(
                *old(self),
                if old(self).nodes@.len() > 0 {
                    min_int(old(self).cursor + page_size, old(self).nodes@.len() - 1)
                } else {
                    old(self).cursor as int
                },
            ),
            old(self).wf() ==> final(self).wf(),
    {
        if self.nodes.len() > 0 {
            let target: usize = self.cursor + page_size;
            let last: usize = self.nodes.len() - 1;
            self.cursor = if target <= last {
                target
            } else {
                last
            };
        }
        self.ensure_visible();
    }

    /// To the first node.
    pub fn jump_to_start(&mut self)
        ensures
            final(self).moved(*old(self), 0),
            old(self).wf() ==> final(self).wf(),
    {
        self.cursor = 0;
        self.ensure_visible();
    }

    /// To the last node.
    pub fn jump_to_end(&mut self)
        ensures
            final(self).moved(
                *old(self),
                if old(self).nodes@.len() > 0 {
                    old(self).nodes@.len() - 1
                } else {
                    old(self).cursor as int
                },
            ),
            old(self).wf() ==> final(self).wf(),
    {
        if self.nodes.len() > 0 {
            self.cursor = self.nodes.len() - 1;
        }
        self.ensure_visible();
    }

    /// Scrolls so that the cursor is on a screen of some height.
    pub fn update_scroll(&mut self, visible_height: usize)
        requires
            old(self).cursor < usize::MAX || visible_height > 0,
        ensures
            final(self).scroll_offset == scrolled_to(
                old(self).cursor as int,
                old(self).scroll_offset as int,
                visible_height as int,
            ),
            *final(self) == (LibraryState {
                scroll_offset: final(self).scroll_offset,
                ..*old(self)
            }),
    {
        if self.cursor < self.scroll_offset {
            self.scroll_offset = self.cursor;
        } else if self.cursor - self.scroll_offset >= visible_height {
            self.scroll_offset = self.cursor.saturating_sub(visible_height) + 1;
        }
    }

    /// The tracks that queueing everything under the cursor gives.
    pub open spec fn queued_under_cursor(self, tracks: Option<Vec<TrackRow>>) -> Seq<i64> {
        if self.cursor >= self.nodes@.len() {
            Seq::empty()
        } else {
            match tracks {
                None => Seq::empty(),
                Some(rows) => match self.nodes@[self.cursor as int] {
                    LibraryNode::Track { id, .. } => seq![id],
                    _ => rows@.map_values(|t: TrackRow| t.id),
                },
            }
        }
    }

    /// The ids of the tracks under the cursor, given the tracks that were read for
    /// the artist or album there; `None` if the database could not be opened.
    pub fn enqueue_all_under_cursor(&self, tracks: Option<Vec<TrackRow>>) -> (r: Vec<i64>)
        ensures
            r@ == self.queued_under_cursor(tracks),
    {
        let mut out: Vec<i64> = Vec::new();
        if self.cursor >= self.nodes.len() {
            return out;
        }
        if let Some(rows) = &tracks {
            match &self.nodes[self.cursor] {
                LibraryNode::Track { id, .. } => {
                    out.push(*id);
                    assert(out@ =~= seq![*id]);
                },
                _ => {
                    let ghost all = rows@.map_values(|t: TrackRow| t.id);
                    let mut i: usize = 0;
                    while i < rows.len()
                        invariant
                            i <= rows@.len(),
                            all == rows@.map_values(|t: TrackRow| t.id),
                            out@ == all.take(i as int),
                        decreases rows@.len() - i,
                    {
                        out.push(rows[i].id);
                        proof {
                            take_push(all, i as int);
                        }
                        i = i + 1;
                    }
                    assert(all.take(i as int) =~= all);
                },
            }
        }
        out
    }
}

// ---------------------------------------------------------------------------
// Picture
// ---------------------------------------------------------------------------

/// The library browser on screen.
pub struct LibraryView<'a> {
    pub state: &'a LibraryState,
    pub focused: bool,
    pub filter_focused: bool,
    pub hover_index: Option<usize>,
}

/// The mark of the cursor.
pub open spec fn cursor_span(is_cursor: bool) -> SpanView {
    piece(
        if is_cursor {
            ">"@
        } else {
            " "@
        },
        Slot::LibraryCursor,
    )
}

/// The arrow of a node that can be opened.
pub open spec fn arrow_span(expanded: bool) -> SpanView {
    piece(
        if expanded {
            "\u{F0D7} "@
        } else {
            "\u{F0DA} "@
        },
        Slot::HintDesc,
    )
}

/// A style of the tree, or the cursor's.
pub open spec fn unless_cursor(is_cursor: bool, slot: Slot) -> Slot {
    if is_cursor {
        Slot::LibraryCursor
    } else {
        slot
    }
}

/// A signed number of milliseconds, read as the unsigned one with the same bits.
pub open spec fn as_unsigned(ms: i64) -> nat {
    if ms < 0 {
        (ms + 0x1_0000_0000_0000_0000) as nat
    } else {
        ms as nat
    }
}

/// One line of the tree.
pub open spec fn node_line(node: LibraryNode, is_cursor: bool) -> LineView {
    match node {
        LibraryNode::Artist { name, expanded, .. } => seq![
            cursor_span(is_cursor),
            arrow_span(expanded),
            piece(name@, unless_cursor(is_cursor, Slot::LibraryArtist)),
        ],
        LibraryNode::Album { title, year, expanded, .. } => seq![
            cursor_span(is_cursor),
            piece("  "@, Slot::Unstyled),
            arrow_span(expanded),
            piece(
                match year {
                    Some(y) => "("@ + y@ + ") "@,
                    None => Seq::empty(),
                },
                Slot::HintDesc,
            ),
            piece(title@, unless_cursor(is_cursor, Slot::LibraryAlbum)),
        ],
        LibraryNode::Track { title, number, duration_ms, .. } => seq![
            cursor_span(is_cursor),
            piece("    "@, Slot::Unstyled),
            piece(
                match number {
                    Some(n) => padded(n as int) + " "@,
                    None => "   "@,
                },
                unless_cursor(is_cursor, Slot::TrackNumber),
            ),
            piece(title@, unless_cursor(is_cursor, Slot::LibraryTrack)),
            piece("  "@, Slot::Unstyled),
            piece(
                match duration_ms {
                    Some(d) => time_text(as_unsigned(d)),
                    None => Seq::empty(),
                },
                unless_cursor(is_cursor, Slot::HintDesc),
            ),
        ],
    }
}

/// The unsigned number with the bits of a signed one.
pub fn unsigned_of(ms: i64) -> (r: u64)
    ensures
        r == as_unsigned(ms),
{
    if ms >= 0 {
        ms as u64
    } else {
        (ms as i128 + 0x1_0000_0000_0000_0000) as u64
    }
}

fn slot_unless_cursor(is_cursor: bool, slot: Slot) -> (r: Style)
    ensures
        r == plain(unless_cursor(is_cursor, slot)),
{
    if is_cursor {
        slot_style(Slot::LibraryCursor)
    } else {
        slot_style(slot)
    }
}

fn arrow(expanded: bool) -> (r: Span)
    ensures
        r@ == arrow_span(expanded),
{
    span(
        if expanded {
            "\u{F0D7} "
        } else {
            "\u{F0DA} "
        },
        slot_style(Slot::HintDesc),
    )
}

/// One line of the tree.
pub fn render_node(node: &LibraryNode, is_cursor: bool) -> (r: Vec<Span>)
    ensures
        spans(r@) == node_line(*node, is_cursor),
{
    let mut line = empty_line();
    add_span(
        &mut line,
        span(
            if is_cursor {
                ">"
            } else {
                " "
            },
            slot_style(Slot::LibraryCursor),
        ),
    );
    match node {
        LibraryNode::Artist { name, expanded, .. } => {
            add_span(&mut line, arrow(*expanded));
            add_span(
                &mut line,
                span(name.as_str(), slot_unless_cursor(is_cursor, Slot::LibraryArtist)),
            );
        },
        LibraryNode::Album { title, year, expanded, .. } => {
            add_span(&mut line, span("  ", slot_style(Slot::Unstyled)));
            add_span(&mut line, arrow(*expanded));
            let year_text = match year {
                Some(y) => concat3("(", y.as_str(), ") "),
                None => String::new(),
            };
            add_span(&mut line, span_of(year_text, slot_style(Slot::HintDesc)));
            add_span(
                &mut line,
                span(title.as_str(), slot_unless_cursor(is_cursor, Slot::LibraryAlbum)),
            );
        },
        LibraryNode::Track { title, number, duration_ms, .. } => {
            add_span(&mut line, span("    ", slot_style(Slot::Unstyled)));
            let number_text = match number {
                Some(n) => {
                    let mut t = String::new();
                    push_padded(&mut t, *n as i64);
                    t.push_str(" ");
                    assert(t@ =~= padded(*n as int) + " "@);
                    t
                },
                None => "   ".to_owned(),
            };
            add_span(
                &mut line,
                span_of(number_text, slot_unless_cursor(is_cursor, Slot::TrackNumber)),
            );
            add_span(
                &mut line,
                span(title.as_str(), slot_unless_cursor(is_cursor, Slot::LibraryTrack)),
            );
            add_span(&mut line, span("  ", slot_style(Slot::Unstyled)));
            let duration = match duration_ms {
                Some(d) => format_time(unsigned_of(*d)),
                None => String::new(),
            };
            add_span(
                &mut line,
                span_of(duration, slot_unless_cursor(is_cursor, Slot::HintDesc)),
            );
        },
    }
    assert(spans(line@) =~= node_line(*node, is_cursor));
    line
}

/// The frame of the browser, with the filter in its title.
pub open spec fn library_frame(view: LibraryView, area: Rect) -> OpView {
    OpView::Frame {
        area,
        sides: Sides::All,
        border: plain(Slot::Unstyled),
        title: seq![
            piece(
                if view.state.filter@.len() == 0 {
                    " library "@
                } else {
                    " library ["@ + view.state.filter@ + "] "@
                },
                if view.focused {
                    Slot::LibraryArtist
                } else {
                    Slot::HintDesc
                },
            ),
        ],
    }
}

/// One row of the tree: a bar behind it if it is the cursor's or hovered, and its
/// line.
pub open spec fn node_ops(view: LibraryView, area: Rect, row: int) -> Seq<OpView> {
    let i = view.state.scroll_offset + row;
    let is_cursor = view.focused && !view.filter_focused && i == view.state.cursor;
    let y = (area.y + row) as u16;
    let bar = Rect { x: area.x, y, width: area.width, height: 1 };
    (if is_cursor {
        seq![OpView::Fill { area: bar, style: plain(Slot::LibraryCursor) }]
    } else if view.hover_index == Some(i as usize) {
        seq![OpView::Fill { area: bar, style: plain(Slot::LibraryHover) }]
    } else {
        Seq::empty()
    }) + seq![
        OpView::Line {
            x: area.x,
            y,
            width: area.width,
            line: node_line(view.state.nodes@[i], is_cursor),
        },
    ]
}

/// The first `rows` rows of the tree.
pub open spec fn tree_ops(view: LibraryView, area: Rect, rows: nat) -> Seq<OpView>
    decreases rows,
{
    if rows == 0 {
        Seq::empty()
    } else {
        tree_ops(view, area, (rows - 1) as nat) + node_ops(view, area, rows - 1)
    }
}

/// How many rows of the tree there is room for; the last row goes to the filter
/// while it is focused.
pub open spec fn content_height(view: LibraryView, area: Rect) -> int {
    if view.filter_focused {
        sub0(area.height as int, 1)
    } else {
        area.height as int
    }
}

/// How many rows of the tree are shown.
pub open spec fn rows_shown(view: LibraryView, area: Rect) -> int {
    let scroll = view.state.scroll_offset as int;
    sub0(min_int(scroll + content_height(view, area), view.state.nodes@.len() as int), scroll)
}

/// The filter input.
pub open spec fn filter_ops(view: LibraryView, area: Rect) -> Seq<OpView> {
    if view.filter_focused {
        seq![
            OpView::Line {
                x: area.x,
                y: (area.y + sub0(area.height as int, 1)) as u16,
                width: area.width,
                line: seq![
                    piece("\u{F002} "@, Slot::HintKey),
                    piece(view.state.filter@, Slot::LibraryArtist),
                    piece("\u{2588}"@, Slot::LibraryCursor),
                ],
            },
        ]
    } else {
        Seq::empty()
    }
}

/// What the browser draws.
pub open spec fn library_ops(view: LibraryView, area: Rect) -> Seq<OpView> {
    let shown = inner_area(area, Sides::All);
    seq![library_frame(view, area)] + (if view.state.nodes@.len() == 0 {
        seq![
            OpView::Line {
                x: shown.x,
                y: shown.y,
                width: shown.width,
                line: seq![
                    piece(
                        if view.state.filter@.len() == 0 {
                            " empty \u{2014} run koan scan"@
                        } else {
                            " no matches"@
                        },
                        Slot::HintDesc,
                    ),
                ],
            },
        ]
    } else {
        tree_ops(view, shown, rows_shown(view, shown) as nat)
    }) + filter_ops(view, shown)
}

impl<'a> LibraryView<'a> {
    /// A view of the browser; the filter has the focus while it is being typed.
    pub fn new(state: &'a LibraryState, focused: bool) -> (r: Self)
        ensures
            r == (LibraryView {
                state,
                focused,
                filter_focused: state.filter_active,
                hover_index: None,
            }),
    {
        LibraryView { state, focused, filter_focused: state.filter_active, hover_index: None }
    }

    /// The view with the node under the mouse marked.
    pub fn with_hover(self, hover_index: Option<usize>) -> (r: Self)
        ensures
            r == (LibraryView { hover_index, ..self }),
    {
        LibraryView {
            state: self.state,
            focused: self.focused,
            filter_focused: self.filter_focused,
            hover_index,
        }
    }

    fn draw_tree(&self, ops: &mut Vec<Op>, area: Rect)
        requires
            fits(area),
        ensures
            scene(final(ops)@) == scene(old(ops)@) + tree_ops(
                *self,
                area,
                rows_shown(*self, area) as nat,
            ),
    {
        let state = self.state;
        let scroll: usize = state.scroll_offset;
        let height: usize = if self.filter_focused {
            area.height.saturating_sub(1) as usize
        } else {
            area.height as usize
        };
        let total: usize = state.nodes.len();
        let rows: usize = if scroll >= total {
            0
        } else if total - scroll <= height {
            total - scroll
        } else {
            height
        };
        let ghost before = scene(ops@);
        let mut row: u16 = 0;
        assert(before + tree_ops(*self, area, 0) =~= before);
        while (row as usize) < rows
            invariant
                row <= rows <= area.height,
                rows == rows_shown(*self, area),
                rows > 0 ==> scroll + rows <= total,
                total == state.nodes.len(),
                state == self.state,
                scroll == state.scroll_offset,
                fits(area),
                scene(ops@) == before + tree_ops(*self, area, row as nat),
            decreases rows - row,
        {
            let i: usize = scroll + row as usize;
            let is_cursor = self.focused && !self.filter_focused && i == state.cursor;
            let hovered = match self.hover_index {
                Some(h) => h == i,
                None => false,
            };
            let y: u16 = area.y + row;
            let bar = Rect { x: area.x, y, width: area.width, height: 1 };
            if is_cursor {
                draw(ops, Op::Fill { area: bar, style: slot_style(Slot::LibraryCursor) });
            } else if hovered {
                draw(ops, Op::Fill { area: bar, style: slot_style(Slot::LibraryHover) });
            }
            let line = render_node(&state.nodes[i], is_cursor);
            draw(ops, Op::Line { x: area.x, y, width: area.width, line });
            proof {
                let so_far = tree_ops(*self, area, row as nat);
                let more = node_ops(*self, area, row as int);
                assert(scene(ops@) =~= before + (so_far + more));
            }
            row = row + 1;
        }
    }

    /// Draws the browser over `area`.
    pub fn render(&self, area: Rect) -> (ops: Vec<Op>)
        requires
            fits(area),
        ensures
            scene(ops@) == library_ops(*self, area),
    {
        let state = self.state;
        let title_style = if self.focused {
            slot_style(Slot::LibraryArtist)
        } else {
            slot_style(Slot::HintDesc)
        };
        let title = if state.filter.as_str().is_empty() {
            " library ".to_owned()
        } else {
            concat3(" library [", state.filter.as_str(), "] ")
        };
        let mut ops: Vec<Op> = Vec::new();
        draw(
            &mut ops,
            Op::Frame {
                area,
                sides: Sides::All,
                border: slot_style(Slot::Unstyled),
                title: line_of(span_of(title, title_style)),
            },
        );
        assert(scene(ops@) =~= seq![library_frame(*self, area)]);
        let shown = inner(area, Sides::All);
        if state.nodes.len() == 0 {
            let message = if state.filter.as_str().is_empty() {
                " empty \u{2014} run koan scan"
            } else {
                " no matches"
            };
            draw(
                &mut ops,
                Op::Line {
                    x: shown.x,
                    y: shown.y,
                    width: shown.width,
                    line: line_of(span(message, slot_style(Slot::HintDesc))),
                },
            );
        } else {
            self.draw_tree(&mut ops, shown);
        }
        if self.filter_focused {
            let mut line = empty_line();
            add_span(&mut line, span("\u{F002} ", slot_style(Slot::HintKey)));
            add_span(&mut line, span(state.filter.as_str(), slot_style(Slot::LibraryArtist)));
            add_span(&mut line, span("\u{2588}", slot_style(Slot::LibraryCursor)));
            assert(spans(line@) =~= seq![
                piece("\u{F002} "@, Slot::HintKey),
                piece(state.filter@, Slot::LibraryArtist),
                piece("\u{2588}"@, Slot::LibraryCursor),
            ]);
            draw(
                &mut ops,
                Op::Line {
                    x: shown.x,
                    y: shown.y + shown.height.saturating_sub(1),
                    width: shown.width,
                    line,
                },
            );
        }
        assert(scene(ops@) =~= library_ops(*self, area));
        ops
    }
}

/// A filter that is typed leaves an artist if and only if the name, in lower case, has the
/// filter in lower case somewhere in it, and leaves them in their order.
pub proof fn filter_finds_names(all: Seq<LibraryNode>, filter: Seq<char>)
    requires
        filter.len() > 0,
    ensures
        collects(
            all,
            |n: LibraryNode|
                match n {
                    LibraryNode::Artist { name, .. } => if exists|a: Seq<char>, c: Seq<char>|
                        lowercase(name@) == #[trigger] (a + lowercase(filter) + c) {
                        Some(n)
                    } else {
                        None
                    },
                    _ => None,
                },
            filtered(all, filter),
        ),
{
    let f = |n: LibraryNode|
        match n {
            LibraryNode::Artist { name, .. } => if exists|a: Seq<char>, c: Seq<char>|
                lowercase(name@) == #[trigger] (a + lowercase(filter) + c) {
                Some(n)
            } else {
                None
            },
            _ => None,
        };
    let keep = |n: LibraryNode| name_matches(n, filter);
    assert forall|i: int| 0 <= i < all.len() implies f(#[trigger] all[i]) == if keep(all[i]) {
        Some(all[i])
    } else {
        None
    } by {
        if let LibraryNode::Artist { name, .. } = all[i] {
            texts_are_found_inside(lowercase(name@), lowercase(filter));
        }
    }
    filter_collects(all, keep, f);
}

/// An artist is left by every part of the name, in capitals or not.
pub proof fn parts_of_names_are_found(
    all: Seq<LibraryNode>,
    k: int,
    before: Seq<char>,
    part: Seq<char>,
    after: Seq<char>,
    filter: Seq<char>,
)
    requires
        0 <= k < all.len(),
        all[k] is Artist,
        all[k]->Artist_name@ == before + part + after,
        is_ascii_chars(before + part + after),
        is_ascii_chars(filter),
        filter.len() == part.len(),
        forall|i: int|
            0 <= i < part.len() ==> #[trigger] part[i] == filter[i] || (part[i] as int - filter[i]
                as int == 32 && 'A' <= filter[i] <= 'Z') || (filter[i] as int - part[i] as int
                == 32 && 'A' <= part[i] <= 'Z'),
    ensures
        filtered(all, filter).contains(all[k]),
{
    if filter.len() > 0 {
        texts_are_found_in_any_case(before, part, after, filter);
        filter_leaves_what_matches(all, filter, all[k]);
    }
}

/// The tree begins with the artists, each closed, under its id and its name.
pub proof fn artists_become_nodes(rows: Seq<ArtistRow>, i: int)
    requires
        0 <= i < rows.len(),
    ensures
        artist_nodes(rows).len() == rows.len(),
        artist_nodes(rows)[i] is Artist,
        artist_nodes(rows)[i]->Artist_id == rows[i].id,
        artist_nodes(rows)[i]->Artist_name@ == rows[i].name@,
        !artist_nodes(rows)[i]->Artist_expanded,
{
}

/// Whether two nodes are of the same thing, open or not.
pub open spec fn same_thing(a: LibraryNode, b: LibraryNode) -> bool {
    match (a, b) {
        (LibraryNode::Artist { id: i, name: n, .. }, LibraryNode::Artist { id: j, name: m, .. }) => i
            == j && n@ == m@,
        (
            LibraryNode::Album { id: i, title: n, year: y, .. },
            LibraryNode::Album { id: j, title: m, year: z, .. },
        ) => i == j && n@ == m@ && opt_text(y) == opt_text(z),
        (LibraryNode::Track { .. }, LibraryNode::Track { .. }) => a == b,
        _ => false,
    }
}

/// Opening a node leaves what is above and below it as it was, and puts right below it what
/// was read, each closed, in order: an artist's albums with their year, an album's tracks
/// with their number and length.
pub proof fn opened_nodes_show_what_is_below(
    before: Seq<LibraryNode>,
    c: int,
    fetched: Fetched,
    after: Seq<LibraryNode>,
)
    requires
        0 <= c < before.len(),
        depth(before[c]) < 2,
        opens(before, c, fetched, after),
    ensures
        ({
            let n: int = match fetched {
                Fetched::Nothing => 0,
                Fetched::Albums(rows) => rows@.len() as int,
                Fetched::Tracks(rows) => rows@.len() as int,
            };
            &&& !(fetched is Nothing)
            &&& after.len() == before.len() + n
            &&& forall|i: int| 0 <= i < c ==> #[trigger] after[i] == before[i]
            &&& same_thing(after[c], before[c]) && is_expanded(after[c])
            &&& forall|i: int| c < i < before.len() ==> after[i + n] == #[trigger] before[i]
            &&& match fetched {
                Fetched::Nothing => true,
                Fetched::Albums(rows) => forall|i: int|
                    0 <= i < n ==> {
                        let a = #[trigger] after[c + 1 + i];
                        &&& a is Album
                        &&& a->Album_id == rows@[i].id
                        &&& a->Album_title@ == rows@[i].title@
                        &&& opt_text(a->Album_year) == year_of(rows@[i].date)
                        &&& !a->Album_expanded
                    },
                Fetched::Tracks(rows) => forall|i: int|
                    0 <= i < n ==> {
                        let t = #[trigger] after[c + 1 + i];
                        &&& t is Track
                        &&& t->Track_id == rows@[i].id
                        &&& t->Track_title@ == rows@[i].title@
                        &&& t->Track_number == rows@[i].track_number
                        &&& t->Track_duration_ms == rows@[i].duration_ms
                    },
            }
        }),
{
    let children = choose|children: Seq<LibraryNode>| #[trigger]
        children_of(children, fetched) && after == expanded_at(before, c, children);
    assert forall|i: int| 0 <= i < children.len() implies #[trigger] after[c + 1 + i]
        == children[i] by {}
    assert forall|i: int| c < i < before.len() implies after[i + children.len()]
        == #[trigger] before[i] by {}
    if let Fetched::Albums(rows) = fetched {
        assert forall|i: int| 0 <= i < children.len() implies {
            let a = #[trigger] after[c + 1 + i];
            &&& a is Album
            &&& a->Album_id == rows@[i].id
            &&& a->Album_title@ == rows@[i].title@
            &&& opt_text(a->Album_year) == year_of(rows@[i].date)
            &&& !a->Album_expanded
        } by {
            assert(shows_album(children[i], rows@[i]));
        }
    }
}

/// The year of an album is the first four characters of its date, if those are plain and there
/// are so many.
pub proof fn albums_show_their_year(date: String)
    ensures
        year_of(None) is None,
        date@.len() >= 4 && is_ascii_chars(date@.take(4)) ==> year_of(Some(date)) == Some(
            date@.take(4),
        ),
{
    if date@.len() >= 4 && is_ascii_chars(date@.take(4)) {
        ascii_prefix_is_bytes(date@, 4);
        byte_len_take(date@, 4);
    }
}

/// Closing a node takes away just what hangs below it, and leaves everything else as it was.
pub proof fn closed_nodes_hide_what_is_below(before: Seq<LibraryNode>, c: int)
    requires
        0 <= c < before.len(),
    ensures
        ({
            let after = collapsed_at(before, c);
            let n = before.len() - after.len();
            &&& 0 <= n < before.len() - c
            &&& forall|i: int| 0 <= i < c ==> #[trigger] after[i] == before[i]
            &&& same_thing(after[c], before[c]) && !is_expanded(after[c])
            &&& forall|i: int|
                c < i <= c + n ==> depth(#[trigger] before[i]) > depth(before[c])
            &&& c + n + 1 < before.len() ==> depth(before[c + n + 1]) <= depth(before[c])
            &&& forall|i: int| c < i < after.len() ==> #[trigger] after[i] == before[i + n]
        }),
{
    deeper_run_bounds(before, c + 1, depth(before[c]));
}

/// Nothing is read for a track, for a node that is open, or where there is no node; an artist
/// needs its albums, an album its tracks.
pub proof fn what_is_needed_is_asked_for(state: LibraryState)
    ensures
        ({
            let c = state.cursor as int;
            let closed = c < state.nodes@.len() && !is_expanded(state.nodes@[c]);
            &&& state.needed() is AlbumsOf <==> closed && state.nodes@[c] is Artist
            &&& state.needed() is TracksOf <==> closed && state.nodes@[c] is Album
            &&& state.needed() is AlbumsOf ==> state.needed()->AlbumsOf_0
                == state.nodes@[c]->Artist_id
            &&& state.needed() is TracksOf ==> state.needed()->TracksOf_0
                == state.nodes@[c]->Album_id
        }),
{
}

/// A track is queued alone; an artist or an album with every track that was read, in order.
pub proof fn everything_below_is_queued(state: LibraryState, rows: Vec<TrackRow>)
    requires
        state.cursor < state.nodes@.len(),
    ensures
        ({
            let node = state.nodes@[state.cursor as int];
            let ids = state.queued_under_cursor(Some(rows));
            &&& state.queued_under_cursor(None).len() == 0
            &&& node is Track ==> ids.len() == 1 && ids[0] == node->Track_id
            &&& !(node is Track) ==> ids.len() == rows@.len() && forall|i: int|
                0 <= i < rows@.len() ==> #[trigger] ids[i] == rows@[i].id
        }),
{
}

/// A line of the tree tells the name of an artist, the title and year of an album, or the
/// title, number and length of a track, and marks what is open and what the cursor is on.
pub proof fn tree_lines_tell_their_node(node: LibraryNode, is_cursor: bool)
    ensures
        ({
            let line = node_line(node, is_cursor);
            &&& is_cursor ==> line[0].text == ">"@
            &&& !is_cursor ==> line[0].text == " "@
            &&& match node {
                LibraryNode::Artist { name, expanded, .. } => {
                    &&& line.len() == 3
                    &&& line[2].text == name@
                    &&& expanded ==> line[1].text == "\u{F0D7} "@
                    &&& !expanded ==> line[1].text == "\u{F0DA} "@
                },
                LibraryNode::Album { title, year, expanded, .. } => {
                    &&& line.len() == 5
                    &&& line[4].text == title@
                    &&& expanded ==> line[2].text == "\u{F0D7} "@
                    &&& !expanded ==> line[2].text == "\u{F0DA} "@
                    &&& year is Some ==> line[3].text == "("@ + year->0@ + ") "@
                    &&& year is None ==> line[3].text.len() == 0
                },
                LibraryNode::Track { title, number, duration_ms, .. } => {
                    &&& line.len() == 6
                    &&& line[3].text == title@
                    &&& number is Some ==> line[2].text == padded(number->0 as int) + " "@
                    &&& duration_ms is Some && duration_ms->0 >= 0 ==> line[5].text == time_text(
                        duration_ms->0 as nat,
                    )
                    &&& duration_ms is None ==> line[5].text.len() == 0
                },
            }
        }),
{
}

/// Every node that has a row is drawn in it, below the one before it; the cursor is marked
/// only where the tree has the focus.
pub proof fn trees_show_their_nodes(view: LibraryView, area: Rect, rows: nat, row: int)
    requires
        0 <= row < rows,
        rows <= area.height,
        area.y + area.height <= u16::MAX,
    ensures
        tree_ops(view, area, rows).contains(
            OpView::Line {
                x: area.x,
                y: (area.y + row) as u16,
                width: area.width,
                line: node_line(
                    view.state.nodes@[view.state.scroll_offset + row],
                    view.focused && !view.filter_focused && view.state.scroll_offset + row
                        == view.state.cursor,
                ),
            },
        ),
    decreases rows,
{
    let before = tree_ops(view, area, (rows - 1) as nat);
    let last = node_ops(view, area, rows - 1);
    let all = tree_ops(view, area, rows);
    if row == rows - 1 {
        assert(last[last.len() - 1] == all[all.len() - 1]);
    } else {
        trees_show_their_nodes(view, area, (rows - 1) as nat, row);
        let op = OpView::Line {
            x: area.x,
            y: (area.y + row) as u16,
            width: area.width,
            line: node_line(
                view.state.nodes@[view.state.scroll_offset + row],
                view.focused && !view.filter_focused && view.state.scroll_offset + row
                    == view.state.cursor,
            ),
        };
        let i = choose|i: int| 0 <= i < before.len() && before[i] == op;
        assert(all[i] == op);
    }
}

/// As many rows are shown as there are nodes from the first on and as there is room for.
pub proof fn rows_fill_the_room(view: LibraryView, area: Rect)
    requires
        view.state.scroll_offset <= view.state.nodes@.len(),
    ensures
        ({
            let room: int = if view.filter_focused && area.height > 0 {
                area.height - 1
            } else {
                area.height as int
            };
            let left = view.state.nodes@.len() - view.state.scroll_offset;
            &&& rows_shown(view, area) <= room
            &&& rows_shown(view, area) <= left
            &&& rows_shown(view, area) == room || rows_shown(view, area) == left
        }),
{
}

/// The browser tells the filter in its title and, while it is typed, in its last row; where
/// nothing is left it says why.
pub proof fn browsers_tell_their_filter(view: LibraryView, area: Rect)
    requires
        fits(area),
        area.width >= 2,
        area.height >= 3,
    ensures
        ({
            let ops = library_ops(view, area);
            &&& ops[0] is Frame
            &&& view.state.filter@.len() == 0 ==> ops[0]->title[0].text == " library "@
            &&& view.state.filter@.len() > 0 ==> ops[0]->title[0].text == " library ["@
                + view.state.filter@ + "] "@
            &&& view.state.nodes@.len() == 0 && view.state.filter@.len() == 0
                ==> ops[1]->line[0].text == " empty \u{2014} run koan scan"@
            &&& view.state.nodes@.len() == 0 && view.state.filter@.len() > 0
                ==> ops[1]->line[0].text == " no matches"@
            &&& view.filter_focused ==> ops.last()->line[1].text == view.state.filter@
                && ops.last()->Line_y == area.y + area.height - 2
        }),
{
}

/// The nodes that fit are drawn inside the frame, from the first that is to be seen on.
pub proof fn browsers_draw_their_nodes(view: LibraryView, area: Rect, row: int)
    requires
        fits(area),
        area.width >= 2,
        area.height >= 2,
        0 <= row < area.height - 2 - (if view.filter_focused {
            1int
        } else {
            0
        }),
        view.state.scroll_offset + row < view.state.nodes@.len(),
    ensures
        library_ops(view, area).contains(
            OpView::Line {
                x: (area.x + 1) as u16,
                y: (area.y + 1 + row) as u16,
                width: (area.width - 2) as u16,
                line: node_line(
                    view.state.nodes@[view.state.scroll_offset + row],
                    view.focused && !view.filter_focused && view.state.scroll_offset + row
                        == view.state.cursor,
                ),
            },
        ),
{
    let shown = inner_area(area, Sides::All);
    let rows = rows_shown(view, shown) as nat;
    trees_show_their_nodes(view, shown, rows, row);
    let tree = tree_ops(view, shown, rows);
    let op = OpView::Line {
        x: shown.x,
        y: (shown.y + row) as u16,
        width: shown.width,
        line: node_line(
            view.state.nodes@[view.state.scroll_offset + row],
            view.focused && !view.filter_focused && view.state.scroll_offset + row
                == view.state.cursor,
        ),
    };
    let i = choose|i: int| 0 <= i < tree.len() && tree[i] == op;
    assert(library_ops(view, area)[1 + i] == op);
}

/// Moving sets the cursor, scrolls up to it where it is above, and changes nothing else.
pub proof fn moving_changes_the_cursor_alone(now: LibraryState, old: LibraryState, cursor: int)
    requires
        now.moved(old, cursor),
    ensures
        now.cursor == cursor,
        now.scroll_offset <= cursor,
        old.scroll_offset <= cursor ==> now.scroll_offset == old.scroll_offset,
        old.scroll_offset > cursor ==> now.scroll_offset == cursor,
        now.nodes == old.nodes,
        now.filter == old.filter,
        now.filter_active == old.filter_active,
        now.all_artists == old.all_artists,
{
}

/// A length that is not negative is the number itself.
pub proof fn lengths_stay_as_they_are(ms: i64)
    ensures
        ms >= 0 ==> as_unsigned(ms) == ms,
        ms < 0 ==> as_unsigned(ms) == 0x1_0000_0000_0000_0000 + ms,
{
}

/// Without a filter all artists are there, and a longer filter leaves none that a shorter one
/// did not.
pub proof fn longer_filters_leave_fewer(
    all: Seq<LibraryNode>,
    filter: Seq<char>,
    more: Seq<char>,
    node: LibraryNode,
)
    requires
        filter.len() > 0,
        is_ascii_chars(filter + more),
        filtered(all, filter + more).contains(node),
    ensures
        filtered(all, Seq::empty()) == all,
        filtered(all, filter).contains(node),
{
    let longer = filter + more;
    filter_leaves_what_matches(all, longer, node);
    filter_leaves_what_matches(all, filter, node);
    if let LibraryNode::Artist { name, .. } = node {
        assert forall|i: int| 0 <= i < filter.len() implies '\0' <= #[trigger] filter[i]
            <= '\u{7f}' by {
            assert(longer[i] == filter[i]);
        }
        let s = lowercase(name@);
        texts_are_found_inside(s, lowercase(longer));
        let (a, c) = choose|a: Seq<char>, c: Seq<char>| s == #[trigger] (a + lowercase(longer) + c);
        let rest = lowercase(longer).skip(filter.len() as int);
        assert(lowercase(longer) =~= lowercase(filter) + rest);
        assert(s =~= a + lowercase(filter) + (rest + c));
        texts_are_found_inside(s, lowercase(filter));
    }
}

} // verus!
