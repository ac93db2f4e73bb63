//! Moving and renaming files by a pattern: the modal's state and its picture.

use vstd::prelude::*;

use crate::lists::{collected_are_given, collects, collects_none, collects_push, take_push};
use crate::player::{entries_view, QueueItemId};
use crate::paths::{file_name, last_name, same_components, same_path};
use crate::text::{
    after_prefix, around_decimal, beginnings_stand_in_front, begins_with, byte_len, byte_length,
    byte_offset, chars_of, concat, concat3, contains_text, copy_texts, decimal, join, joined,
    joined_holds_its_parts, joined_lists_join, last_index, opt_text, rfind_char, string_of,
    strip_prefix, texts,
};
use crate::tui::screen::{
    add_line, add_span, bold, bold_style, centre, centred, copy_line, draw, empty_line, fits,
    greatest, inner, inner_area, least, line_of, lines_of, lines_view, max_int, min_int, piece, plain, scene, slot_style,
    span, span_of, spans, split_in_rows, split_rows, styled, sub0, tint_style, tinted, within,
    LineView, Op, OpView, Rect, Sides, Slot, Span, Style, Tint,
};

verus! {

broadcast use crate::lists::group_lists;

// ---------------------------------------------------------------------------
// Path diffs
// ---------------------------------------------------------------------------

/// How many characters two texts share from the start.
pub open spec fn shared_chars(a: Seq<char>, b: Seq<char>) -> int
    decreases a.len(),
{
    if a.len() > 0 && b.len() > 0 && a[0] == b[0] {
        1 + shared_chars(a.skip(1), b.skip(1))
    } else {
        0
    }
}

/// How many characters all paths share from the start.
pub open spec fn shared_by_all(paths: Seq<Seq<char>>) -> int
    decreases paths.len(),
{
    if paths.len() == 0 {
        0
    } else if paths.len() == 1 {
        paths[0].len() as int
    } else {
        min_int(shared_by_all(paths.drop_last()), shared_chars(paths[0], paths.last()))
    }
}

/// A text up to and including its last slash; nothing if it has none.
pub open spec fn up_to_slash(s: Seq<char>) -> Seq<char> {
    s.take(last_index(s, '/') + 1)
}

/// The directory part that all of several paths share.
pub open spec fn common_dir(paths: Seq<Seq<char>>) -> Seq<char> {
    if paths.len() < 2 {
        Seq::empty()
    } else {
        up_to_slash(paths[0].take(shared_by_all(paths)))
    }
}

/// The directory part that two texts share.
pub open spec fn shared_dir(a: Seq<char>, b: Seq<char>) -> Seq<char> {
    up_to_slash(a.take(shared_chars(a, b)))
}

/// At most `max` characters of a text, the last of them an ellipsis if it was cut; where
/// there is no room for one, nothing.
pub open spec fn shortened(s: Seq<char>, max: int) -> Seq<char> {
    if s.len() <= max {
        s
    } else if max <= 0 {
        Seq::empty()
    } else {
        s.take(max - 1) + "\u{2026}"@
    }
}

/// Two texts as a list.
pub open spec fn pair(a: Seq<char>, b: Seq<char>) -> Seq<Seq<char>> {
    seq![a, b]
}

/// Whether `d` is empty or a directory that begins every one of the paths.
pub open spec fn begins_all(d: Seq<char>, paths: Seq<Seq<char>>) -> bool {
    &&& d.len() == 0 || d.last() == '/'
    &&& forall|i: int| 0 <= i < paths.len() ==> begins_with(#[trigger] paths[i], d)
}

proof fn shared_chars_facts(a: Seq<char>, b: Seq<char>)
    ensures
        0 <= shared_chars(a, b) <= a.len(),
        shared_chars(a, b) <= b.len(),
        a.take(shared_chars(a, b)) == b.take(shared_chars(a, b)),
        shared_chars(a, b) < a.len() && shared_chars(a, b) < b.len() ==> a[shared_chars(a, b)]
            != b[shared_chars(a, b)],
    decreases a.len(),
{
    let n = shared_chars(a, b);
    if a.len() > 0 && b.len() > 0 && a[0] == b[0] {
        shared_chars_facts(a.skip(1), b.skip(1));
        assert forall|k: int| 0 <= k < n implies a[k] == b[k] by {
            if k > 0 {
                assert(a.skip(1).take(n - 1)[k - 1] == b.skip(1).take(n - 1)[k - 1]);
            }
        }
    }
    assert(a.take(n) =~= b.take(n));
}

/// Texts that agree on their first `k` characters and no further share `k`.
proof fn shared_chars_at(a: Seq<char>, b: Seq<char>, k: int)
    requires
        0 <= k <= a.len(),
        k <= b.len(),
        forall|i: int| 0 <= i < k ==> a[i] == b[i],
        k < a.len() && k < b.len() ==> a[k] != b[k],
    ensures
        shared_chars(a, b) == k,
    decreases a.len(),
{
    if k > 0 {
        assert forall|i: int| 0 <= i < k - 1 implies a.skip(1)[i] == b.skip(1)[i] by {
            assert(a[i + 1] == b[i + 1]);
        }
        shared_chars_at(a.skip(1), b.skip(1), k - 1);
    }
}

/// A common beginning is no longer than what two texts share.
proof fn common_beginning_is_shared(a: Seq<char>, b: Seq<char>, d: Seq<char>)
    requires
        begins_with(a, d),
        begins_with(b, d),
    ensures
        d.len() <= shared_chars(a, b),
{
    shared_chars_facts(a, b);
    let n = shared_chars(a, b);
    if n < d.len() {
        assert(a.take(d.len() as int)[n] == b.take(d.len() as int)[n]);
    }
}

proof fn shared_by_all_facts(paths: Seq<Seq<char>>)
    requires
        paths.len() >= 1,
    ensures
        0 <= shared_by_all(paths) <= paths[0].len(),
        forall|i: int|
            0 <= i < paths.len() ==> begins_with(
                #[trigger] paths[i],
                paths[0].take(shared_by_all(paths)),
            ),
    decreases paths.len(),
{
    let n = shared_by_all(paths);
    let first = paths[0];
    if paths.len() == 1 {
        assert(first.take(n) =~= first);
    } else {
        let rest = paths.drop_last();
        shared_by_all_facts(rest);
        shared_chars_facts(first, paths.last());
        let m = shared_by_all(rest);
        let k = shared_chars(first, paths.last());
        assert forall|i: int| 0 <= i < paths.len() implies begins_with(
            #[trigger] paths[i],
            first.take(n),
        ) by {
            if i < paths.len() - 1 {
                assert(begins_with(rest[i], first.take(m)));
                assert(rest[i].take(n) =~= rest[i].take(m).take(n));
                assert(first.take(n) =~= first.take(m).take(n));
            } else {
                assert(paths.last().take(n) =~= paths.last().take(k).take(n));
                assert(first.take(n) =~= first.take(k).take(n));
            }
        }
    }
}

proof fn beginning_of_all_is_shared(paths: Seq<Seq<char>>, d: Seq<char>)
    requires
        paths.len() >= 1,
        begins_all(d, paths),
    ensures
        d.len() <= shared_by_all(paths),
    decreases paths.len(),
{
    assert(begins_with(paths[0], d));
    if paths.len() > 1 {
        let rest = paths.drop_last();
        assert forall|i: int| 0 <= i < rest.len() implies begins_with(#[trigger] rest[i], d) by {
            assert(rest[i] == paths[i]);
        }
        beginning_of_all_is_shared(rest, d);
        assert(begins_with(paths[paths.len() - 1], d));
        common_beginning_is_shared(paths[0], paths.last(), d);
    }
}

proof fn last_index_facts(s: Seq<char>, c: char)
    ensures
        -1 <= last_index(s, c) < s.len(),
        last_index(s, c) >= 0 ==> s[last_index(s, c)] == c,
        forall|k: int| last_index(s, c) < k < s.len() ==> s[k] != c,
    decreases s.len(),
{
    if s.len() > 0 && s.last() != c {
        last_index_facts(s.drop_last(), c);
        assert forall|k: int| last_index(s, c) < k < s.len() implies s[k] != c by {
            if k < s.len() - 1 {
                assert(s.drop_last()[k] != c);
            }
        }
    }
}

/// A directory that begins `s` is no longer than `s` up to its last slash.
proof fn up_to_slash_is_longest(s: Seq<char>, d: Seq<char>)
    requires
        begins_with(s, d),
        d.len() == 0 || d.last() == '/',
    ensures
        d.len() <= up_to_slash(s).len(),
{
    last_index_facts(s, '/');
    if d.len() > 0 {
        assert(s[d.len() - 1] == s.take(d.len() as int)[d.len() - 1]);
    }
}

proof fn up_to_slash_facts(s: Seq<char>)
    ensures
        begins_with(s, up_to_slash(s)),
        up_to_slash(s).len() == 0 || up_to_slash(s).last() == '/',
{
    last_index_facts(s, '/');
}

/// The common prefix of two or more paths is a directory that begins each of
/// them, and no longer directory does.
pub proof fn common_prefix_is_longest(paths: Seq<Seq<char>>)
    requires
        paths.len() >= 2,
    ensures
        begins_all(common_dir(paths), paths),
        forall|d: Seq<char>| #[trigger]
            begins_all(d, paths) ==> d.len() <= common_dir(paths).len(),
{
    shared_by_all_facts(paths);
    let shared = paths[0].take(shared_by_all(paths));
    up_to_slash_facts(shared);
    let dir = common_dir(paths);
    assert forall|i: int| 0 <= i < paths.len() implies begins_with(#[trigger] paths[i], dir) by {
        assert(begins_with(paths[i], shared));
        assert(paths[i].take(dir.len() as int) =~= paths[i].take(shared.len() as int).take(
            dir.len() as int,
        ));
    }
    assert forall|d: Seq<char>| #[trigger] begins_all(d, paths) implies d.len() <= dir.len() by {
        beginning_of_all_is_shared(paths, d);
        assert(begins_with(paths[0], d));
        assert(shared.take(d.len() as int) =~= paths[0].take(d.len() as int));
        up_to_slash_is_longest(shared, d);
    }
}

/// The directory two texts share begins both, so its length is an offset into
/// either, and no longer directory begins both.
pub proof fn shared_prefix_is_longest(a: Seq<char>, b: Seq<char>)
    ensures
        begins_all(shared_dir(a, b), pair(a, b)),
        forall|d: Seq<char>| #[trigger]
            begins_all(d, pair(a, b)) ==> d.len() <= shared_dir(a, b).len(),
{
    let two = pair(a, b);
    shared_chars_facts(a, b);
    assert(two.drop_last() =~= seq![a]);
    assert(shared_by_all(two.drop_last()) == a.len());
    assert(shared_by_all(two) == shared_chars(a, b));
    common_prefix_is_longest(two);
}

/// The shared prefix does not depend on the order of the two texts.
pub proof fn shared_prefix_is_symmetric(a: Seq<char>, b: Seq<char>)
    ensures
        shared_dir(a, b) == shared_dir(b, a),
{
    shared_chars_facts(a, b);
    let k = shared_chars(a, b);
    assert forall|i: int| 0 <= i < k implies b[i] == a[i] by {
        assert(a.take(k)[i] == b.take(k)[i]);
    }
    shared_chars_at(b, a, k);
}

/// A shortened text has at most `max` characters, and is the text itself where that is
/// short enough.
pub proof fn shortened_fits(s: Seq<char>, max: int)
    requires
        max >= 0,
    ensures
        shortened(s, max).len() <= max,
        s.len() <= max ==> shortened(s, max) == s,
{
    reveal_strlit("\u{2026}");
}

fn count_shared(x: &Vec<char>, y: &Vec<char>, limit: usize) -> (n: usize)
    requires
        limit <= x@.len(),
    ensures
        n == min_int(limit as int, shared_chars(x@, y@)),
{
    let mut i: usize = 0;
    while i < limit && i < y.len() && x[i] == y[i]
        invariant
            i <= limit <= x@.len(),
            i <= y@.len(),
            forall|k: int| 0 <= k < i ==> x@[k] == y@[k],
        decreases limit - i,
    {
        i = i + 1;
    }
    proof {
        shared_chars_facts(x@, y@);
        let n = shared_chars(x@, y@);
        if i < limit {
            shared_chars_at(x@, y@, i as int);
        } else if n < i {
            assert(x@[n] == y@[n]);
        }
    }
    i
}

/// The longest common path prefix, cut at a `/`, of two or more paths; nothing
/// for fewer.
pub fn common_path_prefix(paths: &[String]) -> (r: String)
    ensures
        r@ == common_dir(texts(paths@)),
{
    if paths.len() < 2 {
        return String::new();
    }
    let ghost all = texts(paths@);
    let first = chars_of(paths[0].as_str());
    let mut n: usize = first.len();
    let mut i: usize = 1;
    assert(all.take(1).len() == 1);
    while i < paths.len()
        invariant
            1 <= i <= paths@.len(),
            all == texts(paths@),
            first@ == all[0],
            n == shared_by_all(all.take(i as int)),
            n <= first@.len(),
        decreases paths@.len() - i,
    {
        let other = chars_of(paths[i].as_str());
        n = count_shared(&first, &other, n);
        proof {
            assert(all.take(i as int + 1).drop_last() =~= all.take(i as int));
            assert(all.take(i as int + 1)[0] == all[0]);
            assert(all.take(i as int + 1).last() == other@);
            shared_chars_facts(first@, other@);
        }
        i = i + 1;
    }
    assert(all.take(i as int) =~= all);
    let prefix = string_of(&first, 0, n);
    let cs = chars_of(prefix.as_str());
    assert(cs@ =~= all[0].take(n as int));
    match rfind_char(&cs, '/') {
        Some(k) => {
            assert(cs@.subrange(0, k + 1) =~= up_to_slash(cs@));
            string_of(&cs, 0, k + 1)
        },
        None => {
            let none = String::new();
            assert(none@ =~= up_to_slash(cs@));
            none
        },
    }
}

/// How many characters long the directory is that two texts share.
fn shared_dir_chars(a: &str, b: &str) -> (n: usize)
    ensures
        n == shared_dir(a@, b@).len(),
        n <= a@.len(),
        a@.take(n as int) == shared_dir(a@, b@),
        n <= b@.len(),
        b@.take(n as int) == shared_dir(a@, b@),
{
    let x = chars_of(a);
    let y = chars_of(b);
    let k = count_shared(&x, &y, x.len());
    proof {
        shared_chars_facts(a@, b@);
        shared_prefix_is_longest(a@, b@);
        assert(begins_with(pair(a@, b@)[0], shared_dir(a@, b@)));
        assert(begins_with(pair(a@, b@)[1], shared_dir(a@, b@)));
    }
    let shared = string_of(&x, 0, k);
    let cs = chars_of(shared.as_str());
    assert(cs@ =~= a@.take(shared_chars(a@, b@)));
    match rfind_char(&cs, '/') {
        Some(i) => i + 1,
        None => 0,
    }
}

/// Byte offset into `a` and into `b` just behind the last `/` that they share.
pub fn shared_prefix_len(a: &str, b: &str) -> (r: usize)
    ensures
        r == byte_len(shared_dir(a@, b@)),
{
    let n = shared_dir_chars(a, b);
    byte_offset(a, n)
}

/// At most `max` characters of `s`, with `…` at the end if it was cut and there is room
/// for it.
pub fn truncate_path(s: &str, max: usize) -> (r: String)
    ensures
        r@ == shortened(s@, max as int),
        r@.len() <= max,
{
    let cs = chars_of(s);
    proof {
        shortened_fits(s@, max as int);
    }
    if cs.len() <= max {
        s.to_owned()
    } else if max == 0 {
        String::new()
    } else {
        let keep: usize = max - 1;
        let mut out = string_of(&cs, 0, keep);
        out.push_str("\u{2026}");
        assert(s@.subrange(0, keep as int) =~= s@.take(keep as int));
        out
    }
}

// ---------------------------------------------------------------------------
// State
// ---------------------------------------------------------------------------

/// Which part of the modal takes the keys.
#[derive(Clone, Copy, Debug, PartialEq, Eq, Structural)]
pub enum OrganizeFocus {
    PatternList,
    Preview,
    RunButton,
}

/// What kind of background result just completed.
#[derive(Clone, Copy, Debug, PartialEq, Eq, Structural)]
pub enum OrganizeCompletionKind {
    Preview,
    Execute,
}

/// A file and where it goes.
#[derive(Debug)]
pub struct FileMove {
    pub from: String,
    pub to: String,
}

/// What a pattern does to the selected files.
#[derive(Debug)]
pub struct OrganizeResult {
    pub moves: Vec<FileMove>,
    /// How many files are already where the pattern puts them.
    pub skipped: usize,
    /// Paths that cannot be moved, each with the reason.
    pub errors: Vec<(String, String)>,
}

/// A file and where it goes, as values.
pub type MoveView = (Seq<char>, Seq<char>);

/// What a pattern does to the selected files, as values.
pub struct ResultView {
    pub moves: Seq<MoveView>,
    pub skipped: nat,
    pub errors: Seq<(Seq<char>, Seq<char>)>,
}

impl View for FileMove {
    type V = MoveView;

    open spec fn view(&self) -> MoveView {
        (self.from@, self.to@)
    }
}

/// Pairs of texts, as values.
pub open spec fn pairs_view(s: Seq<(String, String)>) -> Seq<(Seq<char>, Seq<char>)> {
    s.map_values(|e: (String, String)| (e.0@, e.1@))
}

impl View for OrganizeResult {
    type V = ResultView;

    open spec fn view(&self) -> ResultView {
        ResultView {
            moves: self.moves@.map_values(|m: FileMove| m@),
            skipped: self.skipped as nat,
            errors: pairs_view(self.errors@),
        }
    }
}

/// An optional result, as values.
pub open spec fn opt_result(r: Option<OrganizeResult>) -> Option<ResultView> {
    match r {
        Some(x) => Some(x@),
        None => None,
    }
}

/// What a background run hands back to the modal.
#[derive(Debug)]
pub struct OrganizePendingResult {
    pub kind: OrganizeCompletionKind,
    pub preview: Option<OrganizeResult>,
    pub error: Option<String>,
    /// Queue items that moved, with their new paths.
    pub path_updates: Vec<(QueueItemId, String)>,
}

/// What a background run hands back, as values.
pub struct PendingView {
    pub kind: OrganizeCompletionKind,
    pub preview: Option<ResultView>,
    pub error: Option<Seq<char>>,
    pub path_updates: Seq<(QueueItemId, Seq<char>)>,
}

impl View for OrganizePendingResult {
    type V = PendingView;

    open spec fn view(&self) -> PendingView {
        PendingView {
            kind: self.kind,
            preview: opt_result(self.preview),
            error: opt_text(self.error),
            path_updates: entries_view(self.path_updates@),
        }
    }
}

/// A preview or a run to start in the background.
#[derive(Debug)]
pub struct OrganizeRequest {
    pub pattern: String,
    pub paths: Vec<String>,
    /// Queue items to match against the moves of a run; empty for a preview.
    pub queue_entries: Vec<(QueueItemId, String)>,
}

/// A request, as values.
pub struct RequestView {
    pub pattern: Seq<char>,
    pub paths: Seq<Seq<char>>,
    pub queue_entries: Seq<(QueueItemId, Seq<char>)>,
}

/// An optional request, as values.
pub open spec fn opt_request(r: Option<OrganizeRequest>) -> Option<RequestView> {
    match r {
        Some(x) => Some(
            RequestView {
                pattern: x.pattern@,
                paths: texts(x.paths@),
                queue_entries: entries_view(x.queue_entries@),
            },
        ),
        None => None,
    }
}

/// The organize modal.
#[derive(Debug)]
pub struct OrganizeModalState {
    /// Named patterns (name, format string), sorted by name.
    pub patterns: Vec<(String, String)>,
    pub pattern_cursor: usize,
    pub preview: Option<OrganizeResult>,
    pub scroll: usize,
    pub status: Option<String>,
    pub executing: bool,
    pub focus: OrganizeFocus,
    /// File paths to organize, from the queue selection.
    pub selected_paths: Vec<String>,
    /// Queue items and their paths, for updating the playlist after a run.
    pub queue_entries: Vec<(QueueItemId, String)>,
    /// Completed path updates to send to the player.
    pub completed_path_updates: Vec<(QueueItemId, String)>,
}

/// The organize modal, as values.
pub struct ModalView {
    pub patterns: Seq<(Seq<char>, Seq<char>)>,
    pub pattern_cursor: nat,
    pub preview: Option<ResultView>,
    pub scroll: nat,
    pub status: Option<Seq<char>>,
    pub executing: bool,
    pub focus: OrganizeFocus,
    pub selected_paths: Seq<Seq<char>>,
    pub queue_entries: Seq<(QueueItemId, Seq<char>)>,
    pub completed_path_updates: Seq<(QueueItemId, Seq<char>)>,
}

impl View for OrganizeModalState {
    type V = ModalView;

    open spec fn view(&self) -> ModalView {
        ModalView {
            patterns: pairs_view(self.patterns@),
            pattern_cursor: self.pattern_cursor as nat,
            preview: opt_result(self.preview),
            scroll: self.scroll as nat,
            status: opt_text(self.status),
            executing: self.executing,
            focus: self.focus,
            selected_paths: texts(self.selected_paths@),
            queue_entries: entries_view(self.queue_entries@),
            completed_path_updates: entries_view(self.completed_path_updates@),
        }
    }
}

/// A modal as it is opened, before its first preview is asked for.
pub open spec fn opened(
    patterns: Seq<(Seq<char>, Seq<char>)>,
    paths: Seq<Seq<char>>,
    entries: Seq<(QueueItemId, Seq<char>)>,
) -> ModalView {
    ModalView {
        patterns,
        pattern_cursor: 0,
        preview: None,
        scroll: 0,
        status: None,
        executing: false,
        focus: OrganizeFocus::PatternList,
        selected_paths: paths,
        queue_entries: entries,
        completed_path_updates: Seq::empty(),
    }
}

/// The format string under the cursor.
pub open spec fn pattern_at_cursor(v: ModalView) -> Option<Seq<char>> {
    if v.pattern_cursor < v.patterns.len() {
        Some(v.patterns[v.pattern_cursor as int].1)
    } else {
        None
    }
}

/// The modal after asking for a preview, and what is asked for.
pub open spec fn preview_asked(v: ModalView) -> (ModalView, Option<RequestView>) {
    match pattern_at_cursor(v) {
        None => (ModalView { preview: None, status: Some("No patterns configured"@), ..v }, None),
        Some(pattern) => if v.selected_paths.len() == 0 {
            (ModalView { preview: None, ..v }, None)
        } else {
            (
                ModalView { status: Some("Computing preview..."@), ..v },
                Some(
                    RequestView { pattern, paths: v.selected_paths, queue_entries: Seq::empty() },
                ),
            )
        },
    }
}

/// The modal after asking for a run, and what is asked for.
pub open spec fn run_asked(v: ModalView) -> (ModalView, Option<RequestView>) {
    match pattern_at_cursor(v) {
        None => (v, None),
        Some(pattern) => if v.selected_paths.len() == 0 {
            (v, None)
        } else {
            (
                ModalView { executing: true, status: Some("Moving files..."@), ..v },
                Some(
                    RequestView {
                        pattern,
                        paths: v.selected_paths,
                        queue_entries: v.queue_entries,
                    },
                ),
            )
        },
    }
}

/// The first queue item at a path.
pub open spec fn item_at(entries: Seq<(QueueItemId, Seq<char>)>, path: Seq<char>) -> Option<
    QueueItemId,
>
    decreases entries.len(),
{
    if entries.len() == 0 {
        None
    } else if same_components(entries[0].1, path) {
        Some(entries[0].0)
    } else {
        item_at(entries.skip(1), path)
    }
}

/// The queue items that moves concern, in the order of the moves, each with its
/// new path.
pub open spec fn moved_items(
    entries: Seq<(QueueItemId, Seq<char>)>,
    moves: Seq<MoveView>,
) -> Seq<(QueueItemId, Seq<char>)>
    decreases moves.len(),
{
    if moves.len() == 0 {
        Seq::empty()
    } else {
        let before = moved_items(entries, moves.drop_last());
        match item_at(entries, moves.last().0) {
            Some(id) => before.push((id, moves.last().1)),
            None => before,
        }
    }
}

/// Where a path leads after several moves, made one after the other.
pub open spec fn relocated(path: Seq<char>, moves: Seq<MoveView>) -> Seq<char>
    decreases moves.len(),
{
    if moves.len() == 0 {
        path
    } else {
        let before = relocated(path, moves.drop_last());
        if same_components(before, moves.last().0) {
            moves.last().1
        } else {
            before
        }
    }
}

/// A count with a noun, for each count that is worth showing.
pub open spec fn counts_text(
    first: Seq<char>,
    skipped: nat,
    errors: nat,
) -> Seq<char> {
    let parts = seq![first] + if skipped > 0 {
        seq![decimal(skipped) + " unchanged"@]
    } else {
        Seq::empty()
    } + if errors > 0 {
        seq![decimal(errors) + " errors"@]
    } else {
        Seq::empty()
    };
    joined(parts, ", "@)
}

/// What a finished preview hands back.
pub open spec fn preview_outcome(r: Result<ResultView, Seq<char>>) -> PendingView {
    PendingView {
        kind: OrganizeCompletionKind::Preview,
        preview: match r {
            Ok(x) => Some(x),
            Err(_) => None,
        },
        error: match r {
            Ok(_) => None,
            Err(e) => Some(e),
        },
        path_updates: Seq::empty(),
    }
}

/// What a finished run hands back.
pub open spec fn run_outcome(
    entries: Seq<(QueueItemId, Seq<char>)>,
    r: Result<ResultView, Seq<char>>,
) -> PendingView {
    match r {
        Ok(x) => PendingView {
            kind: OrganizeCompletionKind::Execute,
            preview: Some(x),
            error: Some(
                counts_text(
                    "Moved "@ + decimal(x.moves.len()) + " files"@,
                    x.skipped,
                    x.errors.len(),
                ),
            ),
            path_updates: moved_items(entries, x.moves),
        },
        Err(e) => PendingView {
            kind: OrganizeCompletionKind::Execute,
            preview: None,
            error: Some(e),
            path_updates: Seq::empty(),
        },
    }
}

/// The modal after a background result came in, and the preview that it asks for.
pub open spec fn settled(v: ModalView, p: PendingView) -> (ModalView, Option<RequestView>) {
    match p.kind {
        OrganizeCompletionKind::Preview => (
            ModalView { preview: p.preview, status: p.error, ..v },
            None,
        ),
        OrganizeCompletionKind::Execute => {
            let moves = match p.preview {
                Some(r) => r.moves,
                None => Seq::empty(),
            };
            preview_asked(
                ModalView {
                    executing: false,
                    completed_path_updates: p.path_updates,
                    status: match p.error {
                        Some(e) => Some(e),
                        None => v.status,
                    },
                    selected_paths: v.selected_paths.map_values(
                        |path: Seq<char>| relocated(path, moves),
                    ),
                    queue_entries: v.queue_entries.map_values(
                        |e: (QueueItemId, Seq<char>)| (e.0, relocated(e.1, moves)),
                    ),
                    preview: None,
                    ..v
                },
            )
        },
    }
}

/// A path that no move starts from stays where it is.
pub proof fn unmoved_paths_stay(path: Seq<char>, moves: Seq<MoveView>)
    requires
        forall|i: int| 0 <= i < moves.len() ==> !same_components(path, (#[trigger] moves[i]).0),
    ensures
        relocated(path, moves) == path,
    decreases moves.len(),
{
    if moves.len() > 0 {
        assert forall|i: int| 0 <= i < moves.len() - 1 implies !same_components(
            path,
            (#[trigger] moves.drop_last()[i]).0,
        ) by {
            assert(moves.drop_last()[i] == moves[i]);
        }
        unmoved_paths_stay(path, moves.drop_last());
        assert(!same_components(path, moves[moves.len() - 1].0));
    }
}

/// A path that one move takes, and whose destination no later move takes
/// further, ends at that destination.
pub proof fn moved_paths_follow(path: Seq<char>, moves: Seq<MoveView>, k: int)
    requires
        0 <= k < moves.len(),
        same_components(path, moves[k].0),
        forall|i: int| 0 <= i < k ==> !same_components(path, (#[trigger] moves[i]).0),
        forall|i: int|
            k < i < moves.len() ==> !same_components(moves[k].1, (#[trigger] moves[i]).0),
    ensures
        relocated(path, moves) == moves[k].1,
    decreases moves.len(),
{
    let before = moves.drop_last();
    if k == moves.len() - 1 {
        assert forall|i: int| 0 <= i < before.len() implies !same_components(
            path,
            (#[trigger] before[i]).0,
        ) by {
            assert(before[i] == moves[i]);
        }
        unmoved_paths_stay(path, before);
    } else {
        assert(before[k] == moves[k]);
        assert forall|i: int| 0 <= i < k implies !same_components(path, (#[trigger] before[i]).0) by {
            assert(before[i] == moves[i]);
        }
        assert forall|i: int| k < i < before.len() implies !same_components(
            before[k].1,
            (#[trigger] before[i]).0,
        ) by {
            assert(before[i] == moves[i]);
        }
        moved_paths_follow(path, before, k);
        assert(!same_components(moves[k].1, moves[moves.len() - 1].0));
    }
}

fn copy_entries(v: &Vec<(QueueItemId, String)>) -> (r: Vec<(QueueItemId, String)>)
    ensures
        entries_view(r@) == entries_view(v@),
{
    let mut out: Vec<(QueueItemId, String)> = Vec::new();
    let mut i: usize = 0;
    while i < v.len()
        invariant
            i <= v@.len(),
            entries_view(out@) == entries_view(v@).take(i as int),
        decreases v@.len() - i,
    {
        out.push((v[i].0, v[i].1.clone()));
        proof {
            take_push(entries_view(v@), i as int);
        }
        i = i + 1;
    }
    assert(entries_view(out@) =~= entries_view(v@));
    out
}

fn find_item(entries: &Vec<(QueueItemId, String)>, path: &str) -> (r: Option<QueueItemId>)
    ensures
        r == item_at(entries_view(entries@), path@),
{
    let ghost all = entries_view(entries@);
    let mut i: usize = 0;
    assert(all.skip(0) =~= all);
    while i < entries.len()
        invariant
            i <= entries@.len(),
            all == entries_view(entries@),
            item_at(all, path@) == item_at(all.skip(i as int), path@),
        decreases entries@.len() - i,
    {
        assert(all.skip(i as int)[0] == (entries@[i as int].0, entries@[i as int].1@));
        if same_path(entries[i].1.as_str(), path) {
            return Some(entries[i].0);
        }
        assert(all.skip(i as int).skip(1) =~= all.skip(i as int + 1));
        i = i + 1;
    }
    None
}

fn find_moved_items(entries: &Vec<(QueueItemId, String)>, moves: &Vec<FileMove>) -> (r: Vec<
    (QueueItemId, String),
>)
    ensures
        entries_view(r@) == moved_items(
            entries_view(entries@),
            moves@.map_values(|m: FileMove| m@),
        ),
{
    let ghost ms = moves@.map_values(|m: FileMove| m@);
    let ghost es = entries_view(entries@);
    let mut out: Vec<(QueueItemId, String)> = Vec::new();
    let mut i: usize = 0;
    assert(ms.take(0) =~= Seq::<MoveView>::empty());
    assert(entries_view(out@) =~= moved_items(es, ms.take(0)));
    while i < moves.len()
        invariant
            i <= moves@.len(),
            ms == moves@.map_values(|m: FileMove| m@),
            es == entries_view(entries@),
            entries_view(out@) == moved_items(es, ms.take(i as int)),
        decreases moves@.len() - i,
    {
        let m = &moves[i];
        proof {
            assert(ms.take(i as int + 1).drop_last() =~= ms.take(i as int));
            assert(ms.take(i as int + 1).last() == m@);
        }
        if let Some(id) = find_item(entries, m.from.as_str()) {
            let ghost before = out@;
            out.push((id, m.to.clone()));
            assert(entries_view(out@) =~= entries_view(before).push((id, m.to@)));
        }
        i = i + 1;
    }
    assert(ms.take(i as int) =~= ms);
    out
}

fn relocate(path: &str, moves: &Vec<FileMove>) -> (r: String)
    ensures
        r@ == relocated(path@, moves@.map_values(|m: FileMove| m@)),
{
    let ghost ms = moves@.map_values(|m: FileMove| m@);
    let mut out = path.to_owned();
    let mut i: usize = 0;
    assert(ms.take(0) =~= Seq::<MoveView>::empty());
    while i < moves.len()
        invariant
            i <= moves@.len(),
            ms == moves@.map_values(|m: FileMove| m@),
            out@ == relocated(path@, ms.take(i as int)),
        decreases moves@.len() - i,
    {
        proof {
            assert(ms.take(i as int + 1).drop_last() =~= ms.take(i as int));
            assert(ms.take(i as int + 1).last() == moves@[i as int]@);
        }
        if same_path(out.as_str(), moves[i].from.as_str()) {
            out = moves[i].to.clone();
        }
        i = i + 1;
    }
    assert(ms.take(i as int) =~= ms);
    out
}

fn counts(first: String, skipped: usize, errors: usize) -> (r: String)
    ensures
        r@ == counts_text(first@, skipped as nat, errors as nat),
{
    let ghost head = first@;
    let mut parts: Vec<String> = Vec::new();
    parts.push(first);
    if skipped > 0 {
        parts.push(around_decimal("", skipped as u64, " unchanged"));
    }
    if errors > 0 {
        parts.push(around_decimal("", errors as u64, " errors"));
    }
    proof {
        reveal_strlit("");
        let expected = seq![head] + if skipped > 0 {
            seq![decimal(skipped as nat) + " unchanged"@]
        } else {
            Seq::empty()
        } + if errors > 0 {
            seq![decimal(errors as nat) + " errors"@]
        } else {
            Seq::empty()
        };
        assert(""@ + decimal(skipped as nat) =~= decimal(skipped as nat));
        assert(""@ + decimal(errors as nat) =~= decimal(errors as nat));
        assert(texts(parts@) =~= expected);
    }
    join(&parts, ", ")
}

/// What a finished preview hands back.
pub fn preview_finished(r: Result<OrganizeResult, String>) -> (p: OrganizePendingResult)
    ensures
        p@ == preview_outcome(
            match r {
                Ok(x) => Ok(x@),
                Err(e) => Err(e@),
            },
        ),
{
    let none: Vec<(QueueItemId, String)> = Vec::new();
    assert(entries_view(none@) =~= Seq::empty());
    match r {
        Ok(x) => OrganizePendingResult {
            kind: OrganizeCompletionKind::Preview,
            preview: Some(x),
            error: None,
            path_updates: none,
        },
        Err(e) => OrganizePendingResult {
            kind: OrganizeCompletionKind::Preview,
            preview: None,
            error: Some(e),
            path_updates: none,
        },
    }
}

/// What a finished run hands back, given the queue items it was asked for with.
pub fn execute_finished(
    queue_entries: &Vec<(QueueItemId, String)>,
    r: Result<OrganizeResult, String>,
) -> (p: OrganizePendingResult)
    ensures
        p@ == run_outcome(
            entries_view(queue_entries@),
            match r {
                Ok(x) => Ok(x@),
                Err(e) => Err(e@),
            },
        ),
{
    match r {
        Ok(x) => {
            let path_updates = find_moved_items(queue_entries, &x.moves);
            let head = around_decimal("Moved ", x.moves.len() as u64, " files");
            let status = counts(head, x.skipped, x.errors.len());
            OrganizePendingResult {
                kind: OrganizeCompletionKind::Execute,
                preview: Some(x),
                error: Some(status),
                path_updates,
            }
        },
        Err(e) => {
            let none: Vec<(QueueItemId, String)> = Vec::new();
            assert(entries_view(none@) =~= Seq::empty());
            OrganizePendingResult {
                kind: OrganizeCompletionKind::Execute,
                preview: None,
                error: Some(e),
                path_updates: none,
            }
        },
    }
}

impl OrganizeModalState {
    /// Opens the modal; its first preview is asked for at once.
    pub fn new(
        patterns: Vec<(String, String)>,
        selected_paths: Vec<String>,
        queue_entries: Vec<(QueueItemId, String)>,
    ) -> (r: (Self, Option<OrganizeRequest>))
        ensures
            (r.0@, opt_request(r.1)) == preview_asked(
                opened(
                    pairs_view(patterns@),
                    texts(selected_paths@),
                    entries_view(queue_entries@),
                ),
            ),
    {
        let ghost start = opened(
            pairs_view(patterns@),
            texts(selected_paths@),
            entries_view(queue_entries@),
        );
        let completed: Vec<(QueueItemId, String)> = Vec::new();
        assert(entries_view(completed@) =~= Seq::empty());
        let mut state = OrganizeModalState {
            patterns,
            pattern_cursor: 0,
            preview: None,
            scroll: 0,
            status: None,
            executing: false,
            focus: OrganizeFocus::PatternList,
            selected_paths,
            queue_entries,
            completed_path_updates: completed,
        };
        assert(state@ == start);
        let request = state.request_preview();
        (state, request)
    }

    fn current_pattern(&self) -> (r: Option<String>)
        ensures
            opt_text(r) == pattern_at_cursor(self@),
    {
        if self.pattern_cursor < self.patterns.len() {
            let r = self.patterns[self.pattern_cursor].1.clone();
            assert(pairs_view(self.patterns@)[self.pattern_cursor as int].1 == r@);
            Some(r)
        } else {
            None
        }
    }

    /// Asks for a preview of the pattern under the cursor.
    pub fn request_preview(&mut self) -> (r: Option<OrganizeRequest>)
        ensures
            (final(self)@, opt_request(r)) == preview_asked(old(self)@),
    {
        match self.current_pattern() {
            None => {
                self.preview = None;
                self.status = Some("No patterns configured".to_owned());
                None
            },
            Some(pattern) => {
                if self.selected_paths.len() == 0 {
                    self.preview = None;
                    return None;
                }
                self.status = Some("Computing preview...".to_owned());
                let none: Vec<(QueueItemId, String)> = Vec::new();
                assert(entries_view(none@) =~= Seq::empty());
                Some(
                    OrganizeRequest {
                        pattern,
                        paths: copy_texts(&self.selected_paths),
                        queue_entries: none,
                    },
                )
            },
        }
    }

    /// Asks for the pattern under the cursor to be carried out.
    pub fn request_execute(&mut self) -> (r: Option<OrganizeRequest>)
        ensures
            (final(self)@, opt_request(r)) == run_asked(old(self)@),
    {
        match self.current_pattern() {
            None => None,
            Some(pattern) => {
                if self.selected_paths.len() == 0 {
                    return None;
                }
                self.executing = true;
                self.status = Some("Moving files...".to_owned());
                Some(
                    OrganizeRequest {
                        pattern,
                        paths: copy_texts(&self.selected_paths),
                        queue_entries: copy_entries(&self.queue_entries),
                    },
                )
            },
        }
    }

    /// Takes in a completed background result, if there is one. Returns its kind
    /// and the preview that follows a run.
    pub fn check_pending(&mut self, pending: Option<OrganizePendingResult>) -> (r: (
        Option<OrganizeCompletionKind>,
        Option<OrganizeRequest>,
    ))
        ensures
            match pending {
                Some(p) => r.0 == Some(p.kind) && (final(self)@, opt_request(r.1)) == settled(
                    old(self)@,
                    p@,
                ),
                None => r.0 is None && r.1 is None && *final(self) == *old(self),
            },
    {
        match pending {
            None => (None, None),
            Some(result) => match result.kind {
                OrganizeCompletionKind::Preview => {
                    self.preview = result.preview;
                    self.status = result.error;
                    (Some(OrganizeCompletionKind::Preview), None)
                },
                OrganizeCompletionKind::Execute => {
                    self.executing = false;
                    self.completed_path_updates = result.path_updates;
                    if let Some(msg) = result.error {
                        self.status = Some(msg);
                    }
                    let moves: Vec<FileMove> = match result.preview {
                        Some(x) => x.moves,
                        None => Vec::new(),
                    };
                    assert(moves@.map_values(|m: FileMove| m@) =~= match pending->0@.preview {
                        Some(x) => x.moves,
                        None => Seq::empty(),
                    });
                    self.relocate_paths(&moves);
                    self.relocate_entries(&moves);
                    self.preview = None;
                    let request = self.request_preview();
                    (Some(OrganizeCompletionKind::Execute), request)
                },
            },
        }
    }

    fn relocate_paths(&mut self, moves: &Vec<FileMove>)
        ensures
            final(self)@ == (ModalView {
                selected_paths: old(self)@.selected_paths.map_values(
                    |path: Seq<char>| relocated(path, moves@.map_values(|m: FileMove| m@)),
                ),
                ..old(self)@
            }),
    {
        let ghost ms = moves@.map_values(|m: FileMove| m@);
        let ghost moved = old(self)@.selected_paths.map_values(
            |path: Seq<char>| relocated(path, ms),
        );
        let mut out: Vec<String> = Vec::new();
        let mut i: usize = 0;
        while i < self.selected_paths.len()
            invariant
                i <= self.selected_paths@.len(),
                ms == moves@.map_values(|m: FileMove| m@),
                moved == texts(self.selected_paths@).map_values(
                    |path: Seq<char>| relocated(path, ms),
                ),
                *self == *old(self),
                texts(out@) == moved.take(i as int),
            decreases self.selected_paths@.len() - i,
        {
            out.push(relocate(self.selected_paths[i].as_str(), moves));
            proof {
                take_push(moved, i as int);
            }
            i = i + 1;
        }
        assert(texts(out@) =~= moved);
        self.selected_paths = out;
    }

    fn relocate_entries(&mut self, moves: &Vec<FileMove>)
        ensures
            final(self)@ == (ModalView {
                queue_entries: old(self)@.queue_entries.map_values(
                    |e: (QueueItemId, Seq<char>)|
                        (e.0, relocated(e.1, moves@.map_values(|m: FileMove| m@))),
                ),
                ..old(self)@
            }),
    {
        let ghost ms = moves@.map_values(|m: FileMove| m@);
        let ghost moved = old(self)@.queue_entries.map_values(
            |e: (QueueItemId, Seq<char>)| (e.0, relocated(e.1, ms)),
        );
        let mut out: Vec<(QueueItemId, String)> = Vec::new();
        let mut i: usize = 0;
        while i < self.queue_entries.len()
            invariant
                i <= self.queue_entries@.len(),
                ms == moves@.map_values(|m: FileMove| m@),
                moved == entries_view(self.queue_entries@).map_values(
                    |e: (QueueItemId, Seq<char>)| (e.0, relocated(e.1, ms)),
                ),
                *self == *old(self),
                entries_view(out@) == moved.take(i as int),
            decreases self.queue_entries@.len() - i,
        {
            out.push((self.queue_entries[i].0, relocate(self.queue_entries[i].1.as_str(), moves)));
            proof {
                take_push(moved, i as int);
            }
            i = i + 1;
        }
        assert(entries_view(out@) =~= moved);
        self.queue_entries = out;
    }

    /// Takes the completed path updates, for sending to the player.
    pub fn take_path_updates(&mut self) -> (r: Vec<(QueueItemId, String)>)
        ensures
            entries_view(r@) == old(self)@.completed_path_updates,
            final(self)@ == (ModalView { completed_path_updates: Seq::empty(), ..old(self)@ }),
    {
        let mut taken: Vec<(QueueItemId, String)> = Vec::new();
        std::mem::swap(&mut taken, &mut self.completed_path_updates);
        assert(entries_view(self.completed_path_updates@) =~= Seq::empty());
        taken
    }
}

// ---------------------------------------------------------------------------
// Picture
// ---------------------------------------------------------------------------

/// Three quarters of the width and seven tenths of the height of an area, at
/// least 50 by 16 and at most the area, in its middle.
pub open spec fn organize_popup(area: Rect) -> Rect {
    centred(
        area,
        min_int(max_int(area.width * 3 / 4, 50), area.width as int),
        min_int(max_int(area.height * 7 / 10, 16), area.height as int),
    )
}

/// How many rows the list of patterns gets.
pub open spec fn pattern_rows(patterns: nat, inner_height: u16) -> int {
    max_int(min_int((patterns % 0x1_0000) as int + 1, inner_height as int / 3), 2)
}

/// Whether a pattern's name leaves room in a row's arithmetic.
pub open spec fn name_fits(name: Seq<char>) -> bool {
    byte_len(name) % 0x1_0000 + 5 <= u16::MAX
}

/// Whether a modal can be drawn: neither the number of patterns nor the length
/// of a pattern's name runs against the width of a coordinate.
pub open spec fn drawable(v: ModalView) -> bool {
    &&& v.patterns.len() % 0x1_0000 + 1 <= u16::MAX
    &&& forall|i: int| 0 <= i < v.patterns.len() ==> name_fits((#[trigger] v.patterns[i]).0)
}

/// A single row of an area.
pub open spec fn row_of(area: Rect, i: int) -> Rect {
    Rect { x: area.x, y: (area.y + i) as u16, width: area.width, height: 1 }
}

/// The style of a pattern in the list.
pub open spec fn pattern_style(selected: bool, focused: bool) -> Style {
    if selected && focused {
        bold(tinted(Some(Tint::Black), Some(Tint::White)))
    } else if selected {
        bold(plain(Slot::Unstyled))
    } else {
        plain(Slot::HintDesc)
    }
}

/// One pattern in the list: a marker, its name, and as much of its format as fits.
pub open spec fn pattern_line(
    pattern: (Seq<char>, Seq<char>),
    selected: bool,
    focused: bool,
    width: u16,
) -> LineView {
    let style = pattern_style(selected, focused);
    let room = sub0(width as int, (byte_len(pattern.0) % 0x1_0000) as int + 5);
    seq![
        styled(
            if selected {
                "\u{25b6} "@
            } else {
                "  "@
            },
            style,
        ),
        styled(pattern.0, style),
        piece(" \u{2014} "@, Slot::HintDesc),
        piece(shortened(pattern.1, room), Slot::HintDesc),
    ]
}

/// The list of patterns, one per row as far as the rows reach.
pub open spec fn pattern_ops(v: ModalView, area: Rect) -> Seq<OpView> {
    if v.patterns.len() == 0 {
        seq![
            OpView::Paragraph {
                area,
                lines: seq![seq![piece(" No patterns in config.toml"@, Slot::HintDesc)]],
            },
        ]
    } else {
        Seq::new(
            min_int(v.patterns.len() as int, area.height as int) as nat,
            |i: int|
                OpView::Paragraph {
                    area: row_of(area, i),
                    lines: seq![
                        pattern_line(
                            v.patterns[i],
                            i == v.pattern_cursor,
                            v.focus == OrganizeFocus::PatternList,
                            area.width,
                        ),
                    ],
                },
        )
    }
}

/// A path without the part that all paths share.
pub open spec fn relative(path: Seq<char>, prefix: Seq<char>) -> Seq<char> {
    match after_prefix(path, prefix) {
        Some(rest) => rest,
        None => path,
    }
}

/// Where a file is now.
pub open spec fn before_line(from: Seq<char>, width: int) -> LineView {
    seq![
        piece("  "@, Slot::HintDesc),
        piece(shortened(from, sub0(width, 2)), Slot::HintDesc),
    ]
}

/// Where a file goes, with the part of the path that changes set off.
pub open spec fn after_line(from: Seq<char>, to: Seq<char>, width: int) -> LineView {
    let kept = shared_dir(from, to);
    let room = sub0(width, 2);
    let kept_text = shortened(kept, room);
    seq![
        styled("\u{2192} "@, tinted(Some(Tint::DarkGray), None)),
        piece(kept_text, Slot::Unstyled),
        styled(
            shortened(to.skip(kept.len() as int), sub0(room, byte_len(kept_text) as int)),
            bold(tinted(Some(Tint::Green), None)),
        ),
    ]
}

/// The paths of all moves, each source followed by its destination.
pub open spec fn all_paths(moves: Seq<MoveView>) -> Seq<Seq<char>>
    decreases moves.len(),
{
    if moves.len() == 0 {
        Seq::empty()
    } else {
        all_paths(moves.drop_last()).push(moves.last().0).push(moves.last().1)
    }
}

/// Two lines for each move: where the file is and where it goes.
pub open spec fn move_lines(moves: Seq<MoveView>, prefix: Seq<char>, width: int) -> Seq<LineView>
    decreases moves.len(),
{
    if moves.len() == 0 {
        Seq::empty()
    } else {
        let from = relative(moves.last().0, prefix);
        let to = relative(moves.last().1, prefix);
        move_lines(moves.drop_last(), prefix, width).push(before_line(from, width)).push(
            after_line(from, to, width),
        )
    }
}

/// A file that cannot be moved, with the reason.
pub open spec fn error_line(lead: Seq<char>, error: (Seq<char>, Seq<char>)) -> LineView {
    let name = match last_name(error.0) {
        Some(n) => n,
        None => Seq::empty(),
    };
    seq![
        styled(lead + name + ": "@, tinted(Some(Tint::Red), None)),
        piece(error.1, Slot::HintDesc),
    ]
}

/// One line for each file that cannot be moved.
pub open spec fn error_lines(lead: Seq<char>, errors: Seq<(Seq<char>, Seq<char>)>) -> Seq<
    LineView,
> {
    errors.map_values(|e: (Seq<char>, Seq<char>)| error_line(lead, e))
}

/// The lines of a preview that has something to show.
pub open spec fn preview_lines(r: ResultView, width: u16) -> Seq<LineView> {
    if r.moves.len() == 0 {
        error_lines(" "@, r.errors)
    } else {
        move_lines(r.moves, common_dir(all_paths(r.moves)), sub0(width as int, 2)) + error_lines(
            "  "@,
            r.errors,
        )
    }
}

/// The lines that a scrolled window of some height shows; the last line stays in
/// sight.
pub open spec fn window(lines: Seq<LineView>, scroll: nat, height: nat) -> Seq<LineView> {
    let from = min_int(scroll as int, sub0(lines.len() as int, 1));
    lines.subrange(from, min_int(from + height, lines.len() as int))
}

/// What stands in the preview area.
pub open spec fn preview_ops(v: ModalView, area: Rect) -> Seq<OpView> {
    match v.preview {
        Some(r) => if r.moves.len() == 0 && r.errors.len() == 0 {
            let message = if r.skipped > 0 {
                " All "@ + decimal(r.skipped) + " files already at target paths"@
            } else {
                " No files to move"@
            };
            seq![
                OpView::Paragraph { area, lines: seq![seq![piece(message, Slot::HintDesc)]] },
            ]
        } else {
            seq![
                OpView::Paragraph {
                    area,
                    lines: window(preview_lines(r, area.width), v.scroll, area.height as nat),
                },
            ]
        },
        None => if v.status is Some {
            Seq::empty()
        } else {
            seq![
                OpView::Paragraph {
                    area,
                    lines: seq![seq![piece(" No preview"@, Slot::HintDesc)]],
                },
            ]
        },
    }
}

/// The status line, if there is a status.
pub open spec fn status_ops(v: ModalView, area: Rect) -> Seq<OpView> {
    match v.status {
        Some(status) => seq![
            OpView::Paragraph {
                area: row_of(area, 0),
                lines: seq![seq![piece(" "@ + status, Slot::HintDesc)]],
            },
        ],
        None => Seq::empty(),
    }
}

/// The line with the counts, the button and the keys.
pub open spec fn button_line(v: ModalView) -> LineView {
    let (moves, errors, skipped) = match v.preview {
        Some(r) => (r.moves.len(), r.errors.len(), r.skipped),
        None => (0nat, 0nat, 0nat),
    };
    seq![
        piece(
            " "@ + counts_text(decimal(moves) + " to move"@, skipped, errors) + "  "@,
            Slot::HintDesc,
        ),
        styled(
            if v.executing {
                " [Running...] "@
            } else {
                " [Run] "@
            },
            if v.focus == OrganizeFocus::RunButton {
                bold(tinted(Some(Tint::Black), Some(Tint::Green)))
            } else {
                plain(Slot::HintDesc)
            },
        ),
        piece(
            "  tab:focus  \u{2191}\u{2193}:navigate  enter:run  esc:cancel"@,
            Slot::HintDesc,
        ),
    ]
}

/// The popup, before anything is drawn in it.
pub open spec fn frame_ops(popup: Rect) -> Seq<OpView> {
    seq![
        OpView::Clear(popup),
        OpView::Frame {
            area: popup,
            sides: Sides::All,
            border: plain(Slot::HintKey),
            title: seq![piece(" Organize \u{2014} Move/Rename "@, Slot::Unstyled)],
        },
    ]
}

/// What is drawn inside the popup, given its three stacked parts.
pub open spec fn body_ops(v: ModalView, rows: Seq<Rect>) -> Seq<OpView> {
    pattern_ops(v, rows[0]) + seq![
        OpView::Frame {
            area: rows[1],
            sides: Sides::Top,
            border: plain(
                if v.focus == OrganizeFocus::Preview {
                    Slot::HintKey
                } else {
                    Slot::HintDesc
                },
            ),
            title: seq![piece(" Preview "@, Slot::Unstyled)],
        },
    ] + preview_ops(v, inner_area(rows[1], Sides::Top)) + status_ops(v, rows[2]) + seq![
        OpView::Paragraph { area: row_of(rows[2], 1), lines: seq![button_line(v)] },
    ]
}

/// The popup rectangle of the organize modal.
pub fn organize_popup_rect(area: Rect) -> (r: Rect)
    requires
        fits(area),
    ensures
        r == organize_popup(area),
        within(r, area),
        fits(r),
{
    let w: u16 = least(greatest((area.width as u32 * 3 / 4) as u16, 50), area.width);
    let h: u16 = least(greatest((area.height as u32 * 7 / 10) as u16, 16), area.height);
    centre(area, w, h)
}

fn draw_line(ops: &mut Vec<Op>, area: Rect, s: Span)
    ensures
        scene(final(ops)@) == scene(old(ops)@) + seq![
            OpView::Paragraph { area, lines: seq![seq![s@]] },
        ],
{
    draw(ops, Op::Paragraph { area, lines: lines_of(line_of(s)) });
    assert(scene(ops@) =~= scene(old(ops)@) + seq![
        OpView::Paragraph { area, lines: seq![seq![s@]] },
    ]);
}

fn pattern_text(pattern: &(String, String), selected: bool, focused: bool, width: u16) -> (r: Vec<
    Span,
>)
    requires
        name_fits(pattern.0@),
    ensures
        spans(r@) == pattern_line((pattern.0@, pattern.1@), selected, focused, width),
{
    let style = if selected && focused {
        bold_style(tint_style(Some(Tint::Black), Some(Tint::White)))
    } else if selected {
        bold_style(slot_style(Slot::Unstyled))
    } else {
        slot_style(Slot::HintDesc)
    };
    let name_width: u16 = (byte_length(pattern.0.as_str()) % 0x1_0000) as u16 + 5;
    let room = width.saturating_sub(name_width) as usize;
    let fmt = truncate_path(pattern.1.as_str(), room);
    let mut line = empty_line();
    add_span(
        &mut line,
        span(
            if selected {
                "\u{25b6} "
            } else {
                "  "
            },
            style,
        ),
    );
    add_span(&mut line, span(pattern.0.as_str(), style));
    add_span(&mut line, span(" \u{2014} ", slot_style(Slot::HintDesc)));
    add_span(&mut line, span_of(fmt, slot_style(Slot::HintDesc)));
    assert(spans(line@) =~= pattern_line((pattern.0@, pattern.1@), selected, focused, width));
    line
}

fn relative_text(path: &str, prefix: &str) -> (r: String)
    ensures
        r@ == relative(path@, prefix@),
{
    match strip_prefix(path, prefix) {
        Some(rest) => rest,
        None => path.to_owned(),
    }
}

fn after_text(from: &str, to: &str, width: usize) -> (r: Vec<Span>)
    ensures
        spans(r@) == after_line(from@, to@, width as int),
{
    let n = shared_dir_chars(from, to);
    let cs = chars_of(to);
    let kept = string_of(&cs, 0, n);
    let changed = string_of(&cs, n, cs.len());
    assert(kept@ =~= shared_dir(from@, to@));
    assert(changed@ =~= to@.skip(n as int));
    let room: usize = width.saturating_sub(2);
    let kept_text = truncate_path(kept.as_str(), room);
    let left: usize = room.saturating_sub(byte_length(kept_text.as_str()));
    let changed_text = truncate_path(changed.as_str(), left);
    let mut line = empty_line();
    add_span(&mut line, span("\u{2192} ", tint_style(Some(Tint::DarkGray), None)));
    add_span(&mut line, span_of(kept_text, slot_style(Slot::Unstyled)));
    add_span(&mut line, span_of(changed_text, bold_style(tint_style(Some(Tint::Green), None))));
    assert(spans(line@) =~= after_line(from@, to@, width as int));
    line
}

fn error_text(lead: &str, error: &(String, String)) -> (r: Vec<Span>)
    ensures
        spans(r@) == error_line(lead@, (error.0@, error.1@)),
{
    let name = match file_name(error.0.as_str()) {
        Some(n) => n,
        None => String::new(),
    };
    let mut line = empty_line();
    add_span(
        &mut line,
        span_of(concat3(lead, name.as_str(), ": "), tint_style(Some(Tint::Red), None)),
    );
    add_span(&mut line, span(error.1.as_str(), slot_style(Slot::HintDesc)));
    assert(spans(line@) =~= error_line(lead@, (error.0@, error.1@)));
    line
}

fn list_paths(moves: &Vec<FileMove>) -> (r: Vec<String>)
    ensures
        texts(r@) == all_paths(moves@.map_values(|m: FileMove| m@)),
{
    let ghost ms = moves@.map_values(|m: FileMove| m@);
    let mut out: Vec<String> = Vec::new();
    let mut i: usize = 0;
    assert(ms.take(0) =~= Seq::<MoveView>::empty());
    while i < moves.len()
        invariant
            i <= moves@.len(),
            ms == moves@.map_values(|m: FileMove| m@),
            texts(out@) == all_paths(ms.take(i as int)),
        decreases moves@.len() - i,
    {
        proof {
            take_push(ms, i as int);
            assert(ms.take(i as int + 1).drop_last() =~= ms.take(i as int));
            assert(ms.take(i as int + 1).last() == moves@[i as int]@);
        }
        out.push(moves[i].from.clone());
        out.push(moves[i].to.clone());
        i = i + 1;
    }
    assert(ms.take(i as int) =~= ms);
    out
}

fn push_error_texts(lines: &mut Vec<Vec<Span>>, lead: &str, errors: &Vec<(String, String)>)
    ensures
        lines_view(final(lines)@) == lines_view(old(lines)@) + error_lines(
            lead@,
            pairs_view(errors@),
        ),
{
    let ghost all = error_lines(lead@, pairs_view(errors@));
    let ghost before = lines_view(lines@);
    let mut i: usize = 0;
    assert(before + all.take(0) =~= before);
    while i < errors.len()
        invariant
            i <= errors@.len(),
            all == error_lines(lead@, pairs_view(errors@)),
            lines_view(lines@) == before + all.take(i as int),
        decreases errors@.len() - i,
    {
        add_line(lines, error_text(lead, &errors[i]));
        proof {
            take_push(all, i as int);
            assert(before + all.take(i as int).push(all[i as int]) =~= (before + all.take(
                i as int,
            )).push(all[i as int]));
        }
        i = i + 1;
    }
    assert(all.take(i as int) =~= all);
}

fn preview_texts(r: &OrganizeResult, width: u16) -> (lines: Vec<Vec<Span>>)
    ensures
        lines_view(lines@) == preview_lines(r@, width),
{
    let mut lines: Vec<Vec<Span>> = Vec::new();
    if r.moves.len() == 0 {
        push_error_texts(&mut lines, " ", &r.errors);
        assert(lines_view(lines@) =~= preview_lines(r@, width));
        return lines;
    }
    let usable: usize = width.saturating_sub(2) as usize;
    let paths = list_paths(&r.moves);
    let prefix = common_path_prefix(paths.as_slice());
    let ghost ms = r@.moves;
    let mut i: usize = 0;
    assert(ms.take(0) =~= Seq::<MoveView>::empty());
    while i < r.moves.len()
        invariant
            i <= r.moves@.len(),
            ms == r@.moves,
            usable == sub0(width as int, 2),
            lines_view(lines@) == move_lines(ms.take(i as int), prefix@, usable as int),
        decreases r.moves@.len() - i,
    {
        let m = &r.moves[i];
        proof {
            assert(ms.take(i as int + 1).drop_last() =~= ms.take(i as int));
            assert(ms.take(i as int + 1).last() == m@);
        }
        let from = relative_text(m.from.as_str(), prefix.as_str());
        let to = relative_text(m.to.as_str(), prefix.as_str());
        let mut before = empty_line();
        add_span(&mut before, span("  ", slot_style(Slot::HintDesc)));
        add_span(
            &mut before,
            span_of(
                truncate_path(from.as_str(), usable.saturating_sub(2)),
                slot_style(Slot::HintDesc),
            ),
        );
        assert(spans(before@) =~= before_line(from@, usable as int));
        add_line(&mut lines, before);
        add_line(&mut lines, after_text(from.as_str(), to.as_str(), usable));
        i = i + 1;
    }
    assert(ms.take(i as int) =~= ms);
    push_error_texts(&mut lines, "  ", &r.errors);
    lines
}

fn window_of(lines: &Vec<Vec<Span>>, scroll: usize, height: u16) -> (r: Vec<Vec<Span>>)
    ensures
        lines_view(r@) == window(lines_view(lines@), scroll as nat, height as nat),
{
    let last: usize = lines.len().saturating_sub(1);
    let from: usize = if scroll <= last {
        scroll
    } else {
        last
    };
    let to: usize = if height as usize <= lines.len() - from {
        from + height as usize
    } else {
        lines.len()
    };
    let ghost all = lines_view(lines@);
    let mut out: Vec<Vec<Span>> = Vec::new();
    let mut i: usize = from;
    while i < to
        invariant
            from <= i <= to <= lines@.len(),
            all == lines_view(lines@),
            lines_view(out@) == all.subrange(from as int, i as int),
        decreases to - i,
    {
        add_line(&mut out, copy_line(&lines[i]));
        assert(all.subrange(from as int, i as int).push(all[i as int]) =~= all.subrange(
            from as int,
            i as int + 1,
        ));
        i = i + 1;
    }
    out
}

/// Draws the organize modal over an area.
pub struct OrganizeOverlay<'a> {
    pub state: &'a OrganizeModalState,
}

impl<'a> OrganizeOverlay<'a> {
    /// An overlay that shows `state`.
    pub fn new(state: &'a OrganizeModalState) -> (r: Self)
        ensures
            r.state == state,
    {
        OrganizeOverlay { state }
    }

    fn draw_patterns(&self, ops: &mut Vec<Op>, area: Rect)
        requires
            fits(area),
            drawable(self.state@),
        ensures
            scene(final(ops)@) == scene(old(ops)@) + pattern_ops(self.state@, area),
    {
        let state = self.state;
        if state.patterns.len() == 0 {
            draw_line(ops, area, span(" No patterns in config.toml", slot_style(Slot::HintDesc)));
            return;
        }
        let ghost all = pattern_ops(state@, area);
        let ghost before = scene(ops@);
        let focused = state.focus == OrganizeFocus::PatternList;
        let mut i: usize = 0;
        assert(before + all.take(0) =~= before);
        while i < state.patterns.len() && i < area.height as usize
            invariant
                i <= state.patterns@.len(),
                i <= area.height,
                fits(area),
                drawable(state@),
                state.patterns@.len() > 0,
                focused == (state@.focus == OrganizeFocus::PatternList),
                all == pattern_ops(state@, area),
                scene(ops@) == before + all.take(i as int),
            decreases area.height - i,
        {
            let pattern = &state.patterns[i];
            assert(state@.patterns[i as int] == (pattern.0@, pattern.1@));
            let line = pattern_text(pattern, i == state.pattern_cursor, focused, area.width);
            let row = Rect { x: area.x, y: area.y + i as u16, width: area.width, height: 1 };
            draw(ops, Op::Paragraph { area: row, lines: lines_of(line) });
            proof {
                take_push(all, i as int);
                assert(before + all.take(i as int).push(all[i as int]) =~= (before + all.take(
                    i as int,
                )).push(all[i as int]));
            }
            i = i + 1;
        }
        assert(all.take(i as int) =~= all);
    }

    fn draw_preview(&self, ops: &mut Vec<Op>, area: Rect)
        ensures
            scene(final(ops)@) == scene(old(ops)@) + preview_ops(self.state@, area),
    {
        let dim = slot_style(Slot::HintDesc);
        match &self.state.preview {
            Some(r) => {
                if r.moves.len() == 0 && r.errors.len() == 0 {
                    let message = if r.skipped > 0 {
                        around_decimal(" All ", r.skipped as u64, " files already at target paths")
                    } else {
                        " No files to move".to_owned()
                    };
                    draw_line(ops, area, span_of(message, dim));
                } else {
                    let lines = preview_texts(r, area.width);
                    let shown = window_of(&lines, self.state.scroll, area.height);
                    draw(ops, Op::Paragraph { area, lines: shown });
                    assert(scene(ops@) =~= scene(old(ops)@) + preview_ops(self.state@, area));
                }
            },
            None => {
                if self.state.status.is_some() {
                    assert(scene(ops@) =~= scene(old(ops)@) + preview_ops(self.state@, area));
                } else {
                    draw_line(ops, area, span(" No preview", dim));
                }
            },
        }
    }

    fn button_text(&self) -> (r: Vec<Span>)
        ensures
            spans(r@) == button_line(self.state@),
    {
        let (moves, errors, skipped): (usize, usize, usize) = match &self.state.preview {
            Some(r) => (r.moves.len(), r.errors.len(), r.skipped),
            None => (0, 0, 0),
        };
        let head = around_decimal("", moves as u64, " to move");
        proof {
            reveal_strlit("");
            assert(""@ + decimal(moves as nat) =~= decimal(moves as nat));
        }
        let count_text = counts(head, skipped, errors);
        let button_style = if self.state.focus == OrganizeFocus::RunButton {
            bold_style(tint_style(Some(Tint::Black), Some(Tint::Green)))
        } else {
            slot_style(Slot::HintDesc)
        };
        let button_text = if self.state.executing {
            " [Running...] "
        } else {
            " [Run] "
        };
        let mut line = empty_line();
        add_span(
            &mut line,
            span_of(concat3(" ", count_text.as_str(), "  "), slot_style(Slot::HintDesc)),
        );
        add_span(&mut line, span(button_text, button_style));
        add_span(
            &mut line,
            span(
                "  tab:focus  \u{2191}\u{2193}:navigate  enter:run  esc:cancel",
                slot_style(Slot::HintDesc),
            ),
        );
        assert(spans(line@) =~= button_line(self.state@));
        line
    }

    /// Adds what stands inside the popup, given its three stacked parts.
    pub fn draw_body(&self, ops: &mut Vec<Op>, rows: &Vec<Rect>)
        requires
            rows@.len() == 3,
            fits(rows@[0]),
            fits(rows@[1]),
            rows@[2].y < u16::MAX,
            drawable(self.state@),
        ensures
            scene(final(ops)@) == scene(old(ops)@) + body_ops(self.state@, rows@),
    {
        let ghost v = self.state@;
        let ghost s0 = scene(ops@);
        self.draw_patterns(ops, rows[0]);
        let ghost s1 = scene(ops@);
        let border = slot_style(
            if self.state.focus == OrganizeFocus::Preview {
                Slot::HintKey
            } else {
                Slot::HintDesc
            },
        );
        draw(
            ops,
            Op::Frame {
                area: rows[1],
                sides: Sides::Top,
                border,
                title: line_of(span(" Preview ", slot_style(Slot::Unstyled))),
            },
        );
        let ghost s2 = scene(ops@);
        self.draw_preview(ops, inner(rows[1], Sides::Top));
        let ghost s3 = scene(ops@);
        let area = rows[2];
        if let Some(status) = &self.state.status {
            let row = Rect { x: area.x, y: area.y, width: area.width, height: 1 };
            draw_line(ops, row, span_of(concat(" ", status.as_str()), slot_style(Slot::HintDesc)));
        }
        let ghost s4 = scene(ops@);
        assert(s4 =~= s3 + status_ops(v, rows@[2]));
        let row = Rect { x: area.x, y: area.y + 1, width: area.width, height: 1 };
        draw(ops, Op::Paragraph { area: row, lines: lines_of(self.button_text()) });
        assert(scene(ops@) =~= s0 + body_ops(v, rows@));
    }

    /// Draws the modal over `area`.
    pub fn render(&self, area: Rect) -> (ops: Vec<Op>)
        requires
            fits(area),
            drawable(self.state@),
        ensures
            ({
                let popup = organize_popup(area);
                let within_frame = inner_area(popup, Sides::All);
                if within_frame.height < 4 {
                    scene(ops@) == frame_ops(popup)
                } else {
                    exists|rows: Seq<Rect>| #[trigger]
                        split_in_rows(
                            rows,
                            within_frame,
                            pattern_rows(self.state@.patterns.len(), within_frame.height) as u16,
                            3,
                            2,
                        ) && scene(ops@) == frame_ops(popup) + body_ops(self.state@, rows)
                }
            }),
    {
        let popup = organize_popup_rect(area);
        let mut ops: Vec<Op> = Vec::new();
        draw(&mut ops, Op::Clear(popup));
        draw(
            &mut ops,
            Op::Frame {
                area: popup,
                sides: Sides::All,
                border: slot_style(Slot::HintKey),
                title: line_of(
                    span(" Organize \u{2014} Move/Rename ", slot_style(Slot::Unstyled)),
                ),
            },
        );
        assert(scene(ops@) =~= frame_ops(popup));
        let within_frame = inner(popup, Sides::All);
        if within_frame.height < 4 {
            return ops;
        }
        let wanted: u16 = (self.state.patterns.len() % 0x1_0000) as u16 + 1;
        let top = greatest(least(wanted, within_frame.height / 3), 2);
        let rows = split_rows(within_frame, top, 3, 2);
        assert(within(rows@[0], within_frame) && within(rows@[1], within_frame) && within(
            rows@[2],
            within_frame,
        ));
        self.draw_body(&mut ops, &rows);
        assert(within_frame == inner_area(organize_popup(area), Sides::All));
        assert(top == pattern_rows(self.state@.patterns.len(), within_frame.height) as u16);
        assert(split_in_rows(
            rows@,
            within_frame,
            pattern_rows(self.state@.patterns.len(), within_frame.height) as u16,
            3,
            2,
        ));
        ops
    }
}

// ---------------------------------------------------------------------------
// What a run does to the queue
// ---------------------------------------------------------------------------

/// Whether an item is the first in the queue whose file a path names.
pub open spec fn first_queued(
    entries: Seq<(QueueItemId, Seq<char>)>,
    path: Seq<char>,
    e: int,
) -> bool {
    &&& 0 <= e < entries.len()
    &&& same_components(entries[e].1, path)
    &&& forall|k: int| 0 <= k < e ==> !same_components(#[trigger] entries[k].1, path)
}

proof fn item_at_is_first(entries: Seq<(QueueItemId, Seq<char>)>, path: Seq<char>)
    ensures
        match item_at(entries, path) {
            Some(id) => exists|e: int| #[trigger]
                first_queued(entries, path, e) && entries[e].0 == id,
            None => forall|e: int|
                0 <= e < entries.len() ==> !same_components(#[trigger] entries[e].1, path),
        },
    decreases entries.len(),
{
    if entries.len() > 0 {
        let rest = entries.skip(1);
        if same_components(entries[0].1, path) {
            assert(first_queued(entries, path, 0));
        } else {
            item_at_is_first(rest, path);
            match item_at(rest, path) {
                Some(id) => {
                    let e = choose|e: int| #[trigger]
                        first_queued(rest, path, e) && rest[e].0 == id;
                    assert forall|k: int| 0 <= k < e + 1 implies !same_components(
                        #[trigger] entries[k].1,
                        path,
                    ) by {
                        if k > 0 {
                            assert(rest[k - 1] == entries[k]);
                        }
                    }
                    assert(rest[e] == entries[e + 1]);
                    assert(first_queued(entries, path, e + 1));
                },
                None => {
                    assert forall|e: int| 0 <= e < entries.len() implies !same_components(
                        #[trigger] entries[e].1,
                        path,
                    ) by {
                        if e > 0 {
                            assert(rest[e - 1] == entries[e]);
                        }
                    }
                },
            }
        }
    }
}

/// What a move means for the queue: the first item whose file it moves, with the file's new
/// path.
pub open spec fn update_for(entries: Seq<(QueueItemId, Seq<char>)>) -> spec_fn(MoveView) -> Option<
    (QueueItemId, Seq<char>),
> {
    |m: MoveView|
        if exists|e: int| first_queued(entries, m.0, e) {
            Some((entries[choose|e: int| first_queued(entries, m.0, e)].0, m.1))
        } else {
            None
        }
}

/// After a run every queued file that moved is told with its new path: one update for each
/// move whose source is the file of a queue item, in the order of the moves, and no other.
pub proof fn every_moved_item_is_told(
    entries: Seq<(QueueItemId, Seq<char>)>,
    x: ResultView,
)
    ensures
        collects(x.moves, update_for(entries), run_outcome(entries, Ok(x)).path_updates),
{
    moved_items_are_collected(entries, x.moves);
}

proof fn moved_items_are_collected(
    entries: Seq<(QueueItemId, Seq<char>)>,
    moves: Seq<MoveView>,
)
    ensures
        collects(moves, update_for(entries), moved_items(entries, moves)),
    decreases moves.len(),
{
    let f = update_for(entries);
    if moves.len() == 0 {
        collects_none(moves, f, moved_items(entries, moves));
    } else {
        moved_items_are_collected(entries, moves.drop_last());
        collects_push(moves, f, moved_items(entries, moves.drop_last()));
        let path = moves.last().0;
        item_at_is_first(entries, path);
        if exists|e: int| first_queued(entries, path, e) {
            let c = choose|e: int| first_queued(entries, path, e);
            let id = item_at(entries, path)->0;
            let e = choose|e: int| #[trigger] first_queued(entries, path, e) && entries[e].0 == id;
            if c < e {
                assert(!same_components(entries[c].1, path));
            } else if e < c {
                assert(!same_components(entries[e].1, path));
            }
        }
    }
}

/// A queued file that moved is among the updates under its item and its new path, where no
/// other item has the same file.
pub proof fn moved_files_are_found(
    entries: Seq<(QueueItemId, Seq<char>)>,
    x: ResultView,
    e: int,
    k: int,
)
    requires
        0 <= e < entries.len(),
        0 <= k < x.moves.len(),
        entries[e].1 == x.moves[k].0,
        forall|j: int|
            0 <= j < e ==> !same_components(#[trigger] entries[j].1, x.moves[k].0),
    ensures
        run_outcome(entries, Ok(x)).path_updates.contains((entries[e].0, x.moves[k].1)),
{
    every_moved_item_is_told(entries, x);
    let f = update_for(entries);
    let m = x.moves[k];
    assert(first_queued(entries, m.0, e));
    let c = choose|c: int| first_queued(entries, m.0, c);
    assert(c == e) by {
        if c < e {
            assert(!same_components(entries[c].1, m.0));
        } else if e < c {
            assert(!same_components(entries[e].1, m.0));
        }
    }
    assert(f(x.moves[k]) == Some((entries[e].0, m.1)));
    collected_are_given(
        x.moves,
        f,
        run_outcome(entries, Ok(x)).path_updates,
        (entries[e].0, m.1),
    );
}

/// A run or a preview is asked for with the pattern under the cursor and the selected files;
/// a run takes the queue along, so that it can follow the files.
pub proof fn requests_name_pattern_and_files(v: ModalView)
    requires
        v.pattern_cursor < v.patterns.len(),
        v.selected_paths.len() > 0,
    ensures
        ({
            let (seen, preview) = preview_asked(v);
            let (going, run) = run_asked(v);
            let pattern = v.patterns[v.pattern_cursor as int].1;
            &&& preview is Some && run is Some
            &&& preview->0.pattern == pattern && run->0.pattern == pattern
            &&& preview->0.paths == v.selected_paths && run->0.paths == v.selected_paths
            &&& preview->0.queue_entries.len() == 0
            &&& run->0.queue_entries == v.queue_entries
            &&& going.executing
            &&& seen.executing == v.executing
            &&& seen.selected_paths == v.selected_paths && going.selected_paths
                == v.selected_paths
            &&& seen.queue_entries == v.queue_entries && going.queue_entries == v.queue_entries
        }),
{
}

/// Nothing is asked for without a pattern or without files, and a run then changes nothing.
pub proof fn nothing_is_asked_for_without_files(v: ModalView)
    requires
        v.pattern_cursor >= v.patterns.len() || v.selected_paths.len() == 0,
    ensures
        ({
            let (seen, preview) = preview_asked(v);
            let (going, run) = run_asked(v);
            &&& preview is None
            &&& run is None
            &&& going == v
            &&& seen.preview is None
        }),
{
}

/// A finished preview is shown, or its error is; nothing moves.
pub proof fn previews_are_shown(v: ModalView, r: Result<ResultView, Seq<char>>)
    ensures
        ({
            let p = preview_outcome(r);
            let (after, request) = settled(v, p);
            &&& p.kind is Preview
            &&& p.path_updates.len() == 0
            &&& request is None
            &&& r is Ok ==> after.preview == Some(r->Ok_0) && after.status is None
            &&& r is Err ==> after.preview is None && after.status == Some(r->Err_0)
            &&& after.selected_paths == v.selected_paths
            &&& after.queue_entries == v.queue_entries
            &&& after.completed_path_updates == v.completed_path_updates
            &&& after.executing == v.executing
        }),
{
}

/// After a run every selected file and every queue item is known by where its file is now, the
/// updates are there to be handed on, and a preview is asked for with the new paths.
pub proof fn runs_are_followed(
    v: ModalView,
    entries: Seq<(QueueItemId, Seq<char>)>,
    x: ResultView,
    i: int,
    j: int,
)
    requires
        0 <= i < v.selected_paths.len(),
        0 <= j < v.queue_entries.len(),
    ensures
        ({
            let p = run_outcome(entries, Ok(x));
            let (after, request) = settled(v, p);
            &&& !after.executing
            &&& after.completed_path_updates == p.path_updates
            &&& after.selected_paths.len() == v.selected_paths.len()
            &&& after.selected_paths[i] == relocated(v.selected_paths[i], x.moves)
            &&& after.queue_entries.len() == v.queue_entries.len()
            &&& after.queue_entries[j].0 == v.queue_entries[j].0
            &&& after.queue_entries[j].1 == relocated(v.queue_entries[j].1, x.moves)
            &&& request is Some ==> request->0.paths == after.selected_paths
            &&& request is Some <==> v.pattern_cursor < v.patterns.len()
        }),
{
}

/// A run that failed moves nothing and tells why.
pub proof fn failed_runs_move_nothing(
    v: ModalView,
    entries: Seq<(QueueItemId, Seq<char>)>,
    e: Seq<char>,
    i: int,
)
    requires
        0 <= i < v.selected_paths.len(),
    ensures
        ({
            let p = run_outcome(entries, Err(e));
            let (after, _) = settled(v, p);
            &&& p.path_updates.len() == 0
            &&& p.error == Some(e)
            &&& p.preview is None
            &&& !after.executing
            &&& after.selected_paths[i] == v.selected_paths[i]
        }),
{
    unmoved_paths_stay(v.selected_paths[i], Seq::empty());
}

/// A run tells how many files it moved, and how many it left or could not move where there
/// are any.
pub proof fn runs_tell_their_counts(entries: Seq<(QueueItemId, Seq<char>)>, x: ResultView)
    ensures
        ({
            let p = run_outcome(entries, Ok(x));
            let said = p.error->0;
            &&& p.error is Some
            &&& p.preview == Some(x)
            &&& begins_with(said, "Moved "@ + decimal(x.moves.len()) + " files"@)
            &&& x.skipped > 0 ==> contains_text(said, decimal(x.skipped) + " unchanged"@)
            &&& x.errors.len() > 0 ==> contains_text(said, decimal(x.errors.len()) + " errors"@)
            &&& x.skipped == 0 && x.errors.len() == 0 ==> said == "Moved "@ + decimal(
                x.moves.len(),
            ) + " files"@
        }),
{
    let head = "Moved "@ + decimal(x.moves.len()) + " files"@;
    let said = counts_text(head, x.skipped, x.errors.len());
    let kept = decimal(x.skipped) + " unchanged"@;
    let failed = decimal(x.errors.len()) + " errors"@;
    let parts = seq![head] + if x.skipped > 0 {
        seq![kept]
    } else {
        Seq::empty()
    } + if x.errors.len() > 0 {
        seq![failed]
    } else {
        Seq::empty()
    };
    assert(said == joined(parts, ", "@));
    if parts.len() > 1 {
        let rest = parts.skip(1);
        assert(parts =~= seq![head] + rest);
        joined_lists_join(seq![head], rest, ", "@);
        assert(joined(seq![head], ", "@) == head);
    }
    assert(said.take(head.len() as int) =~= head);
    if x.skipped > 0 {
        assert(parts[1] == kept);
        joined_holds_its_parts(parts, ", "@, 1);
    }
    if x.errors.len() > 0 {
        assert(parts.last() == failed);
        joined_holds_its_parts(parts, ", "@, parts.len() - 1);
    }
}

/// A preview shows each move in two lines: where the file is, and where it goes, each behind
/// what all paths begin with.
pub proof fn previews_show_each_move(moves: Seq<MoveView>, prefix: Seq<char>, width: int, k: int)
    requires
        0 <= k < moves.len(),
    ensures
        ({
            let lines = move_lines(moves, prefix, width);
            let from = relative(moves[k].0, prefix);
            let to = relative(moves[k].1, prefix);
            &&& lines.len() == 2 * moves.len()
            &&& lines[2 * k][1].text == shortened(from, sub0(width, 2))
            &&& lines[2 * k + 1] == after_line(from, to, width)
        }),
    decreases moves.len(),
{
    let before = move_lines(moves.drop_last(), prefix, width);
    move_lines_are_two_each(moves.drop_last(), prefix, width);
    if k < moves.len() - 1 {
        previews_show_each_move(moves.drop_last(), prefix, width, k);
        assert(moves.drop_last()[k] == moves[k]);
        let lines = move_lines(moves, prefix, width);
        assert(lines[2 * k] == before[2 * k]);
        assert(lines[2 * k + 1] == before[2 * k + 1]);
    }
}

proof fn move_lines_are_two_each(moves: Seq<MoveView>, prefix: Seq<char>, width: int)
    ensures
        move_lines(moves, prefix, width).len() == 2 * moves.len(),
    decreases moves.len(),
{
    if moves.len() > 0 {
        move_lines_are_two_each(moves.drop_last(), prefix, width);
    }
}

/// Where a file goes is told in two pieces, which together are its path if there is room: the
/// directory that it keeps, and what is new.
pub proof fn targets_are_told_whole(from: Seq<char>, to: Seq<char>, width: int)
    requires
        byte_len(shared_dir(from, to)) + to.len() + 2 <= width,
    ensures
        after_line(from, to, width)[1].text + after_line(from, to, width)[2].text == to,
        after_line(from, to, width)[1].text == shared_dir(from, to),
{
    let kept = shared_dir(from, to);
    shared_prefix_is_longest(from, to);
    assert(begins_with(pair(from, to)[1], kept));
    assert(to =~= kept + to.skip(kept.len() as int));
}

/// A path is told without what all begin with, and whole where it does not begin with that.
pub proof fn paths_are_told_behind_their_beginning(prefix: Seq<char>, rest: Seq<char>, other: Seq<char>)
    ensures
        relative(prefix + rest, prefix) == rest,
        !begins_with(other, prefix) ==> relative(other, prefix) == other,
{
    beginnings_stand_in_front(prefix + rest, prefix);
}

/// What is too long is cut to fit, and ends with a sign that it was.
pub proof fn long_texts_are_cut(s: Seq<char>, max: int)
    requires
        0 < max < s.len(),
    ensures
        shortened(s, max).len() == max,
        shortened(s, max).last() == '\u{2026}',
        forall|i: int| 0 <= i < max - 1 ==> #[trigger] shortened(s, max)[i] == s[i],
{
    reveal_strlit("\u{2026}");
}

/// The patterns are listed one below the other, each with its name and what it is, the one
/// under the cursor marked.
pub proof fn patterns_are_listed(v: ModalView, area: Rect, i: int)
    requires
        0 <= i < v.patterns.len(),
        i < area.height,
        area.y + area.height <= u16::MAX,
    ensures
        ({
            let ops = pattern_ops(v, area);
            &&& i < ops.len()
            &&& ops[i] is Paragraph
            &&& ops[i]->Paragraph_area.y == area.y + i
            &&& ops[i]->lines.len() == 1
            &&& ops[i]->lines[0][1].text == v.patterns[i].0
            &&& i == v.pattern_cursor ==> ops[i]->lines[0][0].text == "\u{25b6} "@
            &&& i != v.pattern_cursor ==> ops[i]->lines[0][0].text == "  "@
            &&& byte_len(v.patterns[i].0) + 5 + v.patterns[i].1.len() <= area.width
                ==> ops[i]->lines[0][3].text == v.patterns[i].1
        }),
{
}

/// A file that cannot be moved is told by its name and the reason.
pub proof fn errors_are_told(lead: Seq<char>, errors: Seq<(Seq<char>, Seq<char>)>, k: int)
    requires
        0 <= k < errors.len(),
    ensures
        error_lines(lead, errors).len() == errors.len(),
        error_lines(lead, errors)[k][1].text == errors[k].1,
        last_name(errors[k].0) is Some ==> error_lines(lead, errors)[k][0].text == lead
            + last_name(errors[k].0)->0 + ": "@,
{
}

/// Next to the button stands how many files would move; while a run goes on it says so.
pub proof fn buttons_tell_what_would_move(v: ModalView)
    ensures
        v.executing ==> button_line(v)[1].text == " [Running...] "@,
        !v.executing ==> button_line(v)[1].text == " [Run] "@,
        v.preview is Some ==> button_line(v)[0].text == " "@ + counts_text(
            decimal(v.preview->0.moves.len()) + " to move"@,
            v.preview->0.skipped,
            v.preview->0.errors.len(),
        ) + "  "@,
        v.preview is None ==> button_line(v)[0].text == " "@ + counts_text(
            decimal(0) + " to move"@,
            0,
            0,
        ) + "  "@,
{
}

/// A preview that moves nothing says so, and whether that is because all is in place; any other
/// shows its lines from where it is scrolled to.
pub proof fn previews_tell_what_there_is(v: ModalView, area: Rect, r: ResultView)
    requires
        v.preview == Some(r),
    ensures
        ({
            let ops = preview_ops(v, area);
            let nothing = r.moves.len() == 0 && r.errors.len() == 0;
            &&& ops.len() == 1
            &&& nothing && r.skipped > 0 ==> ops[0]->lines[0][0].text == " All "@ + decimal(
                r.skipped,
            ) + " files already at target paths"@
            &&& nothing && r.skipped == 0 ==> ops[0]->lines[0][0].text == " No files to move"@
            &&& !nothing && v.scroll < preview_lines(r, area.width).len() ==> forall|i: int|
                0 <= i < ops[0]->lines.len() ==> #[trigger] ops[0]->lines[i] == preview_lines(
                    r,
                    area.width,
                )[v.scroll + i]
            &&& !nothing && v.scroll + area.height <= preview_lines(r, area.width).len()
                && area.height > 0 ==> ops[0]->lines.len() == area.height
        }),
{
}

/// The lines of a preview are those of its moves, behind what all their paths begin with, and
/// then those of its errors.
pub proof fn previews_have_moves_and_errors(r: ResultView, width: u16)
    requires
        r.moves.len() > 0,
        width >= 2,
    ensures
        preview_lines(r, width).len() == 2 * r.moves.len() + r.errors.len(),
        preview_lines(r, width).take(2 * r.moves.len() as int) == move_lines(
            r.moves,
            common_dir(all_paths(r.moves)),
            width - 2,
        ),
        forall|k: int|
            0 <= k < r.errors.len() ==> preview_lines(r, width)[2 * r.moves.len() + k][1].text == (
            #[trigger] r.errors[k]).1,
{
    let prefix = common_dir(all_paths(r.moves));
    move_lines_are_two_each(r.moves, prefix, width - 2);
    assert(preview_lines(r, width).take(2 * r.moves.len() as int) =~= move_lines(
        r.moves,
        prefix,
        width - 2,
    ));
}

/// The paths of a preview are those of each move, before and after, in their order.
pub proof fn all_paths_of_moves(moves: Seq<MoveView>, k: int)
    requires
        0 <= k < moves.len(),
    ensures
        all_paths(moves).len() == 2 * moves.len(),
        all_paths(moves)[2 * k] == moves[k].0,
        all_paths(moves)[2 * k + 1] == moves[k].1,
    decreases moves.len(),
{
    paths_are_two_each(moves.drop_last());
    if k < moves.len() - 1 {
        all_paths_of_moves(moves.drop_last(), k);
        assert(moves.drop_last()[k] == moves[k]);
    }
}

proof fn paths_are_two_each(moves: Seq<MoveView>)
    ensures
        all_paths(moves).len() == 2 * moves.len(),
    decreases moves.len(),
{
    if moves.len() > 0 {
        paths_are_two_each(moves.drop_last());
    }
}

/// The modal takes three quarters of the width and seven tenths of the height, but fifty cells
/// and sixteen rows at least as far as the screen has them; the patterns have a third of it at
/// most, and two rows at least.
pub proof fn modals_take_their_part(area: Rect, patterns: nat, inner_height: u16)
    requires
        patterns < 0x1_0000,
    ensures
        ({
            let r = organize_popup(area);
            &&& area.width >= 67 ==> r.width == area.width * 3 / 4
            &&& 50 <= area.width <= 66 ==> r.width == 50
            &&& area.width < 50 ==> r.width == area.width
            &&& area.height >= 23 ==> r.height == area.height * 7 / 10
            &&& 16 <= area.height <= 22 ==> r.height == 16
            &&& area.height < 16 ==> r.height == area.height
        }),
        ({
            let n = pattern_rows(patterns, inner_height);
            &&& n >= 2
            &&& n == 2 || n == patterns + 1 || n == inner_height / 3
            &&& n <= 2 || (n <= patterns + 1 && n <= inner_height / 3)
        }),
{
}

} // verus!
