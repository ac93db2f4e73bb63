//! The transport bar: playback state, seek bar, times and the track's title.

use vstd::prelude::*;

use crate::paths::{file_stem, last_name, stem};
use crate::player::{PlaybackState, QueueEntry, TrackInfo};
use crate::text::{chars_of, concat, concat3, decimal, digit_char, push_decimal};
use crate::tui::screen::{
    add_span, bold, bold_style, draw, empty_line, fits, line_of, min_int, piece, plain, scene,
    slot_style, span, span_of, spans, styled, sub0, LineView, Op, OpView, Rect, Slot, Span,
    SpanView, Style,
};

verus! {

broadcast use crate::lists::group_lists;

// ---------------------------------------------------------------------------
// Times
// ---------------------------------------------------------------------------

/// A number in at least two digits.
pub open spec fn two_digits(n: nat) -> Seq<char> {
    if n < 10 {
        "0"@ + decimal(n)
    } else {
        decimal(n)
    }
}

/// Milliseconds as `m:ss`, or as `h:mm:ss` from one hour on.
pub open spec fn time_text(ms: nat) -> Seq<char> {
    let secs = ms / 1000;
    if secs >= 3600 {
        decimal(secs / 3600) + ":"@ + two_digits(secs / 60 % 60) + ":"@ + two_digits(secs % 60)
    } else {
        decimal(secs / 60) + ":"@ + two_digits(secs % 60)
    }
}

/// Appends a number in at least two digits.
pub fn push_two_digits(s: &mut String, n: u64)
    ensures
        final(s)@ == old(s)@ + two_digits(n as nat),
{
    if n < 10 {
        s.push_str("0");
    }
    push_decimal(s, n);
    assert(s@ =~= old(s)@ + two_digits(n as nat));
}

/// Milliseconds as `m:ss`, or as `h:mm:ss` from one hour on.
pub fn format_time(ms: u64) -> (r: String)
    ensures
        r@ == time_text(ms as nat),
{
    let secs: u64 = ms / 1000;
    let mins: u64 = secs / 60;
    let mut s = String::new();
    if mins >= 60 {
        push_decimal(&mut s, mins / 60);
        s.push_str(":");
        push_two_digits(&mut s, mins % 60);
        assert(mins / 60 == secs / 3600);
    } else {
        push_decimal(&mut s, mins);
    }
    s.push_str(":");
    push_two_digits(&mut s, secs % 60);
    assert(s@ =~= time_text(ms as nat));
    s
}

/// Position and duration, as the bar shows them.
pub open spec fn times_text(position_ms: nat, duration_ms: nat) -> Seq<char> {
    time_text(position_ms) + "/"@ + time_text(duration_ms)
}

fn times(position_ms: u64, duration_ms: u64) -> (r: String)
    ensures
        r@ == times_text(position_ms as nat, duration_ms as nat),
{
    concat3(format_time(position_ms).as_str(), "/", format_time(duration_ms).as_str())
}

// ---------------------------------------------------------------------------
// Seek bar
// ---------------------------------------------------------------------------

/// How wide the seek bar is: what the area leaves beside two spaces, the icon of
/// two cells, another space and the times.
pub open spec fn seek_bar_width(width: int, position_ms: nat, duration_ms: nat) -> int {
    sub0(width, 5 + times_text(position_ms, duration_ms).len() as int)
}

/// Text made of one character.
pub open spec fn repeated(c: char, n: nat) -> Seq<char> {
    Seq::new(n, |i: int| c)
}

/// A dashed line: strokes at even places, gaps at odd ones.
pub open spec fn dashes(n: nat) -> Seq<char> {
    Seq::new(
        n,
        |i: int|
            if i % 2 == 0 {
                '\u{2500}'
            } else {
                ' '
            },
    )
}

fn repeat(c: char, n: usize) -> (r: String)
    ensures
        r@ == repeated(c, n as nat),
{
    let mut s = String::new();
    let mut i: usize = 0;
    assert(s@ =~= repeated(c, 0));
    while i < n
        invariant
            i <= n,
            s@ == repeated(c, i as nat),
        decreases n - i,
    {
        s.push(c);
        assert(repeated(c, i as nat).push(c) =~= repeated(c, i as nat + 1));
        i = i + 1;
    }
    s
}

fn dash(n: usize) -> (r: String)
    ensures
        r@ == dashes(n as nat),
{
    let mut s = String::new();
    let mut i: usize = 0;
    assert(s@ =~= dashes(0));
    while i < n
        invariant
            i <= n,
            s@ == dashes(i as nat),
        decreases n - i,
    {
        let c: char = if i % 2 == 0 {
            '\u{2500}'
        } else {
            ' '
        };
        s.push(c);
        assert(dashes(i as nat).push(c) =~= dashes(i as nat + 1));
        i = i + 1;
    }
    s
}

/// A style, dimmed.
pub open spec fn dimmed(s: Style) -> Style {
    Style { dim: true, ..s }
}

/// The icon of a playback state.
pub open spec fn state_icon(state: PlaybackState) -> SpanView {
    match state {
        PlaybackState::Playing => piece("\u{25B8}\u{25B8}"@, Slot::StatusPlaying),
        PlaybackState::Paused => piece("\u{2016} "@, Slot::StatusPaused),
        PlaybackState::Stopped => piece("\u{25AA} "@, Slot::StatusStopped),
    }
}

/// The first line: icon, seek bar and times. `filled` and `loaded` count cells of
/// the bar; what lies beyond the loaded part is dashed.
pub open spec fn seek_line(
    state: PlaybackState,
    filled: nat,
    loaded: nat,
    width: nat,
    times: Seq<char>,
) -> LineView {
    let missing = sub0(width as int, loaded as int) as nat;
    seq![
        piece(" "@, Slot::Unstyled),
        state_icon(state),
        piece(" "@, Slot::Unstyled),
        piece(repeated('\u{2501}', filled), Slot::ProgressFilled),
        piece(
            repeated('\u{2500}', sub0(loaded as int, filled as int) as nat),
            Slot::ProgressEmpty,
        ),
    ] + (if missing > 0 {
        seq![styled(dashes(missing), dimmed(plain(Slot::ProgressEmpty)))]
    } else {
        Seq::empty()
    }) + seq![piece(" "@, Slot::Unstyled), piece(times, Slot::HintDesc)]
}

/// How many characters a line of text has.
pub open spec fn line_width(line: LineView) -> nat
    decreases line.len(),
{
    if line.len() == 0 {
        0
    } else {
        line_width(line.drop_last()) + line.last().text.len()
    }
}

proof fn line_width_concat(a: LineView, b: LineView)
    ensures
        line_width(a + b) == line_width(a) + line_width(b),
    decreases b.len(),
{
    if b.len() == 0 {
        assert(a + b =~= a);
    } else {
        assert((a + b).drop_last() =~= a + b.drop_last());
        line_width_concat(a, b.drop_last());
    }
}

proof fn line_width_one(s: SpanView)
    ensures
        line_width(seq![s]) == s.text.len(),
{
    assert(seq![s].drop_last() =~= Seq::<SpanView>::empty());
    assert(line_width(seq![s].drop_last()) == 0);
}

/// Where the loaded part reaches at least as far as the filled part, the first
/// line is exactly four cells, the bar, one cell and the times: the bar on
/// screen has the width that [`TransportBar::bar_metrics`] reports.
pub proof fn seek_line_fills_the_bar(
    state: PlaybackState,
    filled: nat,
    loaded: nat,
    width: nat,
    times: Seq<char>,
)
    requires
        filled <= loaded <= width,
    ensures
        line_width(seek_line(state, filled, loaded, width, times).take(3)) == 4,
        line_width(seek_line(state, filled, loaded, width, times)) == 4 + width + 1 + times.len(),
{
    reveal_strlit(" ");
    reveal_strlit("\u{25B8}\u{25B8}");
    reveal_strlit("\u{2016} ");
    reveal_strlit("\u{25AA} ");
    let line = seek_line(state, filled, loaded, width, times);
    let a = seq![piece(" "@, Slot::Unstyled)];
    let b = seq![state_icon(state)];
    let c = seq![piece(" "@, Slot::Unstyled)];
    let d = seq![piece(repeated('\u{2501}', filled), Slot::ProgressFilled)];
    let e = seq![
        piece(
            repeated('\u{2500}', sub0(loaded as int, filled as int) as nat),
            Slot::ProgressEmpty,
        ),
    ];
    let missing = sub0(width as int, loaded as int) as nat;
    let f = if missing > 0 {
        seq![styled(dashes(missing), dimmed(plain(Slot::ProgressEmpty)))]
    } else {
        Seq::empty()
    };
    let g = seq![piece(" "@, Slot::Unstyled)];
    let h = seq![piece(times, Slot::HintDesc)];
    assert(line =~= a + b + c + d + e + f + g + h);
    assert(line.take(3) =~= a + b + c);
    line_width_one(a[0]);
    line_width_one(b[0]);
    line_width_one(c[0]);
    line_width_one(d[0]);
    line_width_one(e[0]);
    line_width_one(g[0]);
    line_width_one(h[0]);
    if missing > 0 {
        line_width_one(f[0]);
    }
    line_width_concat(a, b);
    line_width_concat(a + b, c);
    line_width_concat(a + b + c, d);
    line_width_concat(a + b + c + d, e);
    line_width_concat(a + b + c + d + e, f);
    line_width_concat(a + b + c + d + e + f, g);
    line_width_concat(a + b + c + d + e + f + g, h);
}

// ---------------------------------------------------------------------------
// Ticker
// ---------------------------------------------------------------------------

/// A character with its style.
pub type Glyph = (char, Style);

/// The characters of a text, all in one style.
pub open spec fn glyphs_of(text: Seq<char>, style: Style) -> Seq<Glyph> {
    text.map_values(|c: char| (c, style))
}

/// The characters of a line.
pub open spec fn glyphs(line: LineView) -> Seq<Glyph>
    decreases line.len(),
{
    if line.len() == 0 {
        Seq::empty()
    } else {
        glyphs(line.drop_last()) + glyphs_of(line.last().text, line.last().style)
    }
}

/// Characters gathered into spans, one for each run of equal style.
pub open spec fn runs(s: Seq<Glyph>) -> LineView
    decreases s.len(),
{
    if s.len() == 0 {
        Seq::empty()
    } else {
        let before = runs(s.drop_last());
        let (c, style) = s.last();
        if before.len() > 0 && before.last().style == style {
            before.drop_last().push(styled(before.last().text.push(c), style))
        } else {
            before.push(styled(seq![c], style))
        }
    }
}

/// `n` characters of an endlessly repeated text, from a place in it.
pub open spec fn ticker_window(cycle: Seq<Glyph>, offset: int, n: nat) -> Seq<Glyph> {
    Seq::new(n, |i: int| cycle[(offset + i) % cycle.len() as int])
}

proof fn glyphs_push(line: LineView, s: SpanView)
    ensures
        glyphs(line.push(s)) == glyphs(line) + glyphs_of(s.text, s.style),
{
    assert(line.push(s).drop_last() =~= line);
}

proof fn runs_keep_order(s: Seq<Glyph>)
    ensures
        glyphs(runs(s)) == s,
    decreases s.len(),
{
    if s.len() > 0 {
        let before = runs(s.drop_last());
        runs_keep_order(s.drop_last());
        let (c, style) = s.last();
        if before.len() > 0 && before.last().style == style {
            let rest = before.drop_last();
            let text = before.last().text;
            assert(before =~= rest.push(styled(text, style)));
            glyphs_push(rest, styled(text, style));
            glyphs_push(rest, styled(text.push(c), style));
            assert(glyphs_of(text.push(c), style) =~= glyphs_of(text, style).push((c, style)));
        } else {
            glyphs_push(before, styled(seq![c], style));
            assert(glyphs_of(seq![c], style) =~= seq![(c, style)]);
        }
        assert(glyphs(runs(s)) =~= s.drop_last().push(s.last()));
        assert(s.drop_last().push(s.last()) =~= s);
    } else {
        assert(glyphs(runs(s)) =~= s);
    }
}

/// Whether neighbouring spans differ in style and none is empty.
pub open spec fn in_runs(line: LineView) -> bool {
    &&& forall|i: int, j: int|
        0 <= i && j == i + 1 && j < line.len() ==> (#[trigger] line[i]).style != (
        #[trigger] line[j]).style
    &&& forall|i: int| 0 <= i < line.len() ==> (#[trigger] line[i]).text.len() > 0
}

proof fn runs_are_maximal(s: Seq<Glyph>)
    ensures
        in_runs(runs(s)),
    decreases s.len(),
{
    if s.len() > 0 {
        let before = runs(s.drop_last());
        runs_are_maximal(s.drop_last());
        let all = runs(s);
        let (c, style) = s.last();
        let joins = before.len() > 0 && before.last().style == style;
        assert(all.len() == if joins { before.len() } else { before.len() + 1 });
        assert forall|i: int, j: int| 0 <= i && j == i + 1 && j < all.len() implies (
        #[trigger] all[i]).style != (#[trigger] all[j]).style by {
            assert(all[i] == before[i]);
            if j < before.len() {
                assert(before[i].style != before[j].style);
            }
        }
        assert forall|i: int| 0 <= i < all.len() implies (#[trigger] all[i]).text.len() > 0 by {
            if i < all.len() - 1 {
                assert(all[i] == before[i]);
            }
        }
    }
}

/// Gathering characters into runs loses none and reorders none, and neighbouring
/// runs differ in style.
pub proof fn runs_keep_the_text(s: Seq<Glyph>)
    ensures
        glyphs(runs(s)) == s,
        in_runs(runs(s)),
{
    runs_keep_order(s);
    runs_are_maximal(s);
}

/// The text between two rounds of the ticker.
pub open spec fn ticker_gap() -> SpanView {
    piece("   \u{00B7}   "@, Slot::HintDesc)
}

/// Artist and title of an entry.
pub open spec fn title_spans(artist: Seq<char>, title: Seq<char>) -> LineView {
    (if artist.len() > 0 {
        seq![piece(artist, Slot::TrackPlaying), piece(" \u{2014} "@, Slot::HintDesc)]
    } else {
        Seq::empty()
    }) + seq![styled(title, bold(plain(Slot::TrackNormal)))]
}

/// The second line: artist and title if they fit, else a window of the text as
/// it runs round.
pub open spec fn title_line(title: LineView, width: u16, offset: nat) -> LineView {
    let room = sub0(width as int, 1);
    if line_width(title) <= room {
        seq![piece(" "@, Slot::Unstyled)] + title
    } else {
        let cycle = glyphs(title.push(ticker_gap()));
        seq![piece(" "@, Slot::Unstyled)] + runs(
            ticker_window(cycle, offset as int % cycle.len() as int, room as nat),
        )
    }
}

proof fn glyphs_len(line: LineView)
    ensures
        glyphs(line).len() == line_width(line),
    decreases line.len(),
{
    if line.len() > 0 {
        glyphs_len(line.drop_last());
    }
}

fn width_of(line: &Vec<Span>) -> (n: usize)
    requires
        line_width(spans(line@)) <= usize::MAX,
    ensures
        n == line_width(spans(line@)),
{
    let ghost all = spans(line@);
    let mut n: usize = 0;
    let mut i: usize = 0;
    assert(all.take(0) =~= Seq::<SpanView>::empty());
    while i < line.len()
        invariant
            i <= line@.len(),
            all == spans(line@),
            line_width(all) <= usize::MAX,
            n == line_width(all.take(i as int)),
        decreases line@.len() - i,
    {
        let cs = chars_of(line[i].text.as_str());
        proof {
            assert(all.take(i as int + 1).drop_last() =~= all.take(i as int));
            assert(all.take(i as int + 1).last() == line@[i as int]@);
            line_width_concat(all.take(i as int + 1), all.skip(i as int + 1));
            assert(all.take(i as int + 1) + all.skip(i as int + 1) =~= all);
        }
        n = n + cs.len();
        i = i + 1;
    }
    assert(all.take(i as int) =~= all);
    n
}

fn glyphs_vec(line: &Vec<Span>) -> (r: Vec<Glyph>)
    ensures
        r@ == glyphs(spans(line@)),
{
    let ghost all = spans(line@);
    let mut out: Vec<Glyph> = Vec::new();
    let mut i: usize = 0;
    assert(all.take(0) =~= Seq::<SpanView>::empty());
    while i < line.len()
        invariant
            i <= line@.len(),
            all == spans(line@),
            out@ == glyphs(all.take(i as int)),
        decreases line@.len() - i,
    {
        let cs = chars_of(line[i].text.as_str());
        let style = line[i].style;
        let ghost more = glyphs_of(cs@, style);
        let ghost before = out@;
        let mut j: usize = 0;
        assert(before + more.take(0) =~= before);
        while j < cs.len()
            invariant
                j <= cs@.len(),
                more == glyphs_of(cs@, style),
                out@ == before + more.take(j as int),
            decreases cs@.len() - j,
        {
            out.push((cs[j], style));
            assert(before + more.take(j as int + 1) =~= (before + more.take(j as int)).push(
                more[j as int],
            ));
            j = j + 1;
        }
        proof {
            assert(more.take(j as int) =~= more);
            assert(all.take(i as int + 1).drop_last() =~= all.take(i as int));
            assert(all.take(i as int + 1).last() == line@[i as int]@);
        }
        i = i + 1;
    }
    assert(all.take(i as int) =~= all);
    out
}

/// Artist and title of an entry.
fn title_parts(entry: &QueueEntry) -> (r: Vec<Span>)
    ensures
        spans(r@) == title_spans(entry.artist@, entry.title@),
{
    let mut line = empty_line();
    if !entry.artist.as_str().is_empty() {
        add_span(&mut line, span(entry.artist.as_str(), slot_style(Slot::TrackPlaying)));
        add_span(&mut line, span(" \u{2014} ", slot_style(Slot::HintDesc)));
    }
    add_span(
        &mut line,
        span(entry.title.as_str(), bold_style(slot_style(Slot::TrackNormal))),
    );
    assert(spans(line@) =~= title_spans(entry.artist@, entry.title@));
    line
}

/// A window of a text as it runs round, in runs of equal style behind a space.
fn ticker_line(cycle: &Vec<Glyph>, offset: usize, room: usize) -> (r: Vec<Span>)
    requires
        offset < cycle@.len(),
        room < cycle@.len(),
    ensures
        spans(r@) == seq![piece(" "@, Slot::Unstyled)] + runs(
            ticker_window(cycle@, offset as int, room as nat),
        ),
{
    let mut line = line_of(span(" ", slot_style(Slot::Unstyled)));
    let ghost lead = seq![piece(" "@, Slot::Unstyled)];
    let mut run_text = String::new();
    let mut run_style: Option<Style> = None;
    let mut i: usize = 0;
    let ghost shown = ticker_window(cycle@, offset as int, room as nat);
    assert(shown.take(0) =~= Seq::<Glyph>::empty());
    assert(lead + runs(shown.take(0)) =~= lead);
    while i < room
        invariant
            i <= room < cycle@.len(),
            offset < cycle@.len(),
            shown == ticker_window(cycle@, offset as int, room as nat),
            lead == seq![piece(" "@, Slot::Unstyled)],
            match run_style {
                Some(s) => runs(shown.take(i as int)).len() > 0 && runs(shown.take(i as int)).last()
                    == styled(run_text@, s) && spans(line@) == lead + runs(
                    shown.take(i as int),
                ).drop_last(),
                None => runs(shown.take(i as int)).len() == 0 && spans(line@) == lead && run_text@
                    == Seq::<char>::empty(),
            },
        decreases room - i,
    {
        let left: usize = cycle.len() - offset;
        let at: usize = if i < left {
            offset + i
        } else {
            i - left
        };
        let (ch, style) = cycle[at];
        proof {
            let n = cycle@.len() as int;
            assert((offset + i) % n == at) by {
                if i < left {
                    vstd::arithmetic::div_mod::lemma_small_mod((offset + i) as nat, n as nat);
                } else {
                    vstd::arithmetic::div_mod::lemma_mod_add_multiples_vanish(at as int, n);
                    assert(n + at == offset + i);
                    vstd::arithmetic::div_mod::lemma_small_mod(at as nat, n as nat);
                }
            }
            assert(shown[i as int] == (ch, style));
            assert(shown.take(i as int + 1).drop_last() =~= shown.take(i as int));
            assert(shown.take(i as int + 1).last() == (ch, style));
        }
        let ghost before = runs(shown.take(i as int));
        let same_run = match run_style {
            Some(s) => s == style,
            None => false,
        };
        if same_run {
            run_text.push(ch);
            assert(runs(shown.take(i as int + 1)).drop_last() =~= before.drop_last());
        } else {
            if let Some(s) = run_style {
                add_span(&mut line, span(run_text.as_str(), s));
                assert(lead + before =~= (lead + before.drop_last()).push(before.last()));
            }
            run_text = String::new();
            run_text.push(ch);
            run_style = Some(style);
            assert(runs(shown.take(i as int + 1)).drop_last() =~= before);
            assert(run_text@ =~= seq![ch]);
            assert(lead + Seq::<SpanView>::empty() =~= lead);
            assert(before.len() == 0 ==> before =~= Seq::<SpanView>::empty());
        }
        i = i + 1;
    }
    assert(shown.take(i as int) =~= shown);
    let ghost all = runs(shown);
    if let Some(s) = run_style {
        add_span(&mut line, span_of(run_text, s));
        assert(lead + all =~= (lead + all.drop_last()).push(all.last()));
    } else {
        assert(lead + all =~= lead);
    }
    line
}

// ---------------------------------------------------------------------------
// Picture
// ---------------------------------------------------------------------------

/// How far the seek bar is filled and loaded, in cells, as the proportions of
/// the position and of the download come out; unclamped.
#[derive(Clone, Copy, Debug)]
pub struct BarFill {
    pub progress: usize,
    /// `None` when the track is fully downloaded.
    pub downloaded: Option<usize>,
}

/// The transport bar of the track that is open.
pub struct TransportBar<'a> {
    pub track_info: Option<&'a TrackInfo>,
    pub playing_entry: Option<&'a QueueEntry>,
    pub playback_state: PlaybackState,
    pub position_ms: u64,
    pub ticker_offset: usize,
}

/// The duration to show: the queue entry's, if it has one, since a partial file
/// can be probed wrongly; else the open track's.
pub open spec fn shown_duration(info: TrackInfo, entry: Option<&QueueEntry>) -> u64 {
    match entry {
        Some(e) => match e.duration_ms {
            Some(d) => d,
            None => info.duration_ms,
        },
        None => info.duration_ms,
    }
}

/// Codec, sample rate, bit depth and channels.
pub open spec fn format_text(info: TrackInfo) -> Seq<char> {
    info.codec@ + " "@ + decimal(info.sample_rate as nat) + "Hz/"@ + decimal(info.bit_depth as nat)
        + "bit/"@ + decimal(info.channels as nat) + "ch"@
}

/// The third line: album, year and format.
pub open spec fn album_line(entry: QueueEntry, info: TrackInfo) -> LineView {
    seq![piece(" "@, Slot::Unstyled)] + (if entry.album@.len() > 0 {
        seq![piece(entry.album@, Slot::AlbumHeaderAlbum)]
    } else {
        Seq::empty()
    }) + (match entry.year {
        Some(year) => seq![piece(" ("@ + year@ + ")"@, Slot::HintDesc)],
        None => Seq::empty(),
    }) + seq![piece(" \u{00B7} "@ + format_text(info), Slot::HintDesc)]
}

/// The second line without a queue entry: the file's name and format.
pub open spec fn file_line(info: TrackInfo) -> LineView {
    seq![
        piece(" "@, Slot::Unstyled),
        styled(
            match last_name(info.path@) {
                Some(name) => stem(name),
                None => Seq::empty(),
            },
            bold(plain(Slot::TrackNormal)),
        ),
        piece("  "@, Slot::HintDesc),
        piece(format_text(info), Slot::HintDesc),
    ]
}

/// A line written at the left edge of an area, some rows down.
pub open spec fn at_row(area: Rect, row: int, line: LineView) -> OpView {
    OpView::Line { x: area.x, y: (area.y + row) as u16, width: area.width, line }
}

/// What the transport bar draws.
pub open spec fn transport_ops(bar: TransportBar, area: Rect, fill: BarFill) -> Seq<OpView> {
    if area.height < 2 {
        Seq::empty()
    } else {
        match bar.track_info {
            None => seq![at_row(area, 0, seq![piece(" stopped"@, Slot::StatusStopped)])],
            Some(info) => {
                let duration = shown_duration(*info, bar.playing_entry);
                let width = seek_bar_width(
                    area.width as int,
                    bar.position_ms as nat,
                    duration as nat,
                );
                let filled = if duration > 0 {
                    min_int(fill.progress as int, width)
                } else {
                    0
                };
                let loaded = match fill.downloaded {
                    Some(d) => min_int(d as int, width),
                    None => width,
                };
                seq![
                    at_row(
                        area,
                        0,
                        seek_line(
                            bar.playback_state,
                            filled as nat,
                            loaded as nat,
                            width as nat,
                            times_text(bar.position_ms as nat, duration as nat),
                        ),
                    ),
                ] + (match bar.playing_entry {
                    Some(entry) => seq![
                        at_row(
                            area,
                            1,
                            title_line(
                                title_spans(entry.artist@, entry.title@),
                                area.width,
                                bar.ticker_offset as nat,
                            ),
                        ),
                    ] + (if area.height >= 3 {
                        seq![at_row(area, 2, album_line(*entry, *info))]
                    } else {
                        Seq::empty()
                    }),
                    None => seq![at_row(area, 1, file_line(*info))],
                })
            },
        }
    }
}

fn format_info(info: &TrackInfo) -> (r: String)
    ensures
        r@ == format_text(*info),
{
    let mut s = concat(info.codec.as_str(), " ");
    push_decimal(&mut s, info.sample_rate as u64);
    s.push_str("Hz/");
    push_decimal(&mut s, info.bit_depth as u64);
    s.push_str("bit/");
    push_decimal(&mut s, info.channels as u64);
    s.push_str("ch");
    s
}

fn album_text(entry: &QueueEntry, info: &TrackInfo) -> (r: Vec<Span>)
    ensures
        spans(r@) == album_line(*entry, *info),
{
    let mut line = line_of(span(" ", slot_style(Slot::Unstyled)));
    if !entry.album.as_str().is_empty() {
        add_span(&mut line, span(entry.album.as_str(), slot_style(Slot::AlbumHeaderAlbum)));
    }
    if let Some(year) = &entry.year {
        add_span(
            &mut line,
            span_of(concat3(" (", year.as_str(), ")"), slot_style(Slot::HintDesc)),
        );
    }
    add_span(
        &mut line,
        span_of(concat(" \u{00B7} ", format_info(info).as_str()), slot_style(Slot::HintDesc)),
    );
    assert(spans(line@) =~= album_line(*entry, *info));
    line
}

fn file_text(info: &TrackInfo) -> (r: Vec<Span>)
    ensures
        spans(r@) == file_line(*info),
{
    let name = match file_stem(info.path.as_str()) {
        Some(n) => n,
        None => String::new(),
    };
    let mut line = line_of(span(" ", slot_style(Slot::Unstyled)));
    add_span(&mut line, span_of(name, bold_style(slot_style(Slot::TrackNormal))));
    add_span(&mut line, span("  ", slot_style(Slot::HintDesc)));
    add_span(&mut line, span_of(format_info(info), slot_style(Slot::HintDesc)));
    assert(spans(line@) =~= file_line(*info));
    line
}

fn seek_text(
    state: PlaybackState,
    filled: usize,
    loaded: usize,
    width: usize,
    time_str: String,
) -> (r: Vec<Span>)
    ensures
        spans(r@) == seek_line(state, filled as nat, loaded as nat, width as nat, time_str@),
{
    let ghost times = time_str@;
    let mut line = line_of(span(" ", slot_style(Slot::Unstyled)));
    let icon = match state {
        PlaybackState::Playing => span("\u{25B8}\u{25B8}", slot_style(Slot::StatusPlaying)),
        PlaybackState::Paused => span("\u{2016} ", slot_style(Slot::StatusPaused)),
        PlaybackState::Stopped => span("\u{25AA} ", slot_style(Slot::StatusStopped)),
    };
    add_span(&mut line, icon);
    add_span(&mut line, span(" ", slot_style(Slot::Unstyled)));
    add_span(&mut line, span_of(repeat('\u{2501}', filled), slot_style(Slot::ProgressFilled)));
    add_span(
        &mut line,
        span_of(repeat('\u{2500}', loaded.saturating_sub(filled)), slot_style(Slot::ProgressEmpty)),
    );
    let missing: usize = width.saturating_sub(loaded);
    if missing > 0 {
        let plain_style = slot_style(Slot::ProgressEmpty);
        let dim_style = Style {
            base: plain_style.base,
            patch: plain_style.patch,
            fg: plain_style.fg,
            bg: plain_style.bg,
            bold: plain_style.bold,
            dim: true,
            underlined: plain_style.underlined,
        };
        add_span(&mut line, span_of(dash(missing), dim_style));
    }
    add_span(&mut line, span(" ", slot_style(Slot::Unstyled)));
    add_span(&mut line, span_of(time_str, slot_style(Slot::HintDesc)));
    assert(spans(line@) =~= seek_line(state, filled as nat, loaded as nat, width as nat, times));
    line
}

/// Whether the length of an entry's title line, with the gap behind it, can be
/// counted.
pub open spec fn title_fits(entry: QueueEntry) -> bool {
    entry.artist@.len() + 3 + entry.title@.len() + 7 <= usize::MAX
}

proof fn title_width(entry: QueueEntry)
    ensures
        line_width(title_spans(entry.artist@, entry.title@)) <= entry.artist@.len() + 3
            + entry.title@.len(),
{
    reveal_strlit(" \u{2014} ");
    let line = title_spans(entry.artist@, entry.title@);
    let a = seq![piece(entry.artist@, Slot::TrackPlaying)];
    let b = seq![piece(" \u{2014} "@, Slot::HintDesc)];
    let c = seq![styled(entry.title@, bold(plain(Slot::TrackNormal)))];
    line_width_one(a[0]);
    line_width_one(b[0]);
    line_width_one(c[0]);
    if entry.artist@.len() > 0 {
        assert(line =~= a + b + c);
        line_width_concat(a, b);
        line_width_concat(a + b, c);
    } else {
        assert(line =~= c);
    }
}

fn title_text(entry: &QueueEntry, width: u16, offset: usize) -> (r: Vec<Span>)
    requires
        title_fits(*entry),
    ensures
        spans(r@) == title_line(title_spans(entry.artist@, entry.title@), width, offset as nat),
{
    let mut title = title_parts(entry);
    let ghost parts = spans(title@);
    let room: usize = width.saturating_sub(1) as usize;
    proof {
        title_width(*entry);
    }
    let total = width_of(&title);
    if total <= room {
        let mut line = line_of(span(" ", slot_style(Slot::Unstyled)));
        let mut i: usize = 0;
        let ghost lead = seq![piece(" "@, Slot::Unstyled)];
        assert(lead + parts.take(0) =~= lead);
        while i < title.len()
            invariant
                i <= title@.len(),
                parts == spans(title@),
                spans(line@) == lead + parts.take(i as int),
            decreases title@.len() - i,
        {
            add_span(&mut line, span(title[i].text.as_str(), title[i].style));
            assert((lead + parts.take(i as int)).push(parts[i as int]) =~= lead + parts.take(
                i as int + 1,
            ));
            i = i + 1;
        }
        assert(parts.take(i as int) =~= parts);
        line
    } else {
        add_span(&mut title, span("   \u{00B7}   ", slot_style(Slot::HintDesc)));
        proof {
            reveal_strlit("   \u{00B7}   ");
            assert(parts.push(ticker_gap()).drop_last() =~= parts);
            glyphs_len(parts.push(ticker_gap()));
        }
        let cycle = glyphs_vec(&title);
        ticker_line(&cycle, offset % cycle.len(), room)
    }
}

impl<'a> TransportBar<'a> {
    /// The bar of a track, with its title line at rest.
    pub fn new(
        track_info: Option<&'a TrackInfo>,
        playing_entry: Option<&'a QueueEntry>,
        playback_state: PlaybackState,
        position_ms: u64,
    ) -> (r: Self)
        ensures
            r == (TransportBar {
                track_info,
                playing_entry,
                playback_state,
                position_ms,
                ticker_offset: 0,
            }),
    {
        TransportBar { track_info, playing_entry, playback_state, position_ms, ticker_offset: 0 }
    }

    /// The bar with its title line moved on.
    pub fn with_ticker_offset(self, offset: usize) -> (r: Self)
        ensures
            r == (TransportBar { ticker_offset: offset, ..self }),
    {
        TransportBar {
            track_info: self.track_info,
            playing_entry: self.playing_entry,
            playback_state: self.playback_state,
            position_ms: self.position_ms,
            ticker_offset: offset,
        }
    }

    /// Where the seek bar starts (an absolute column) and how wide it is.
    pub fn bar_metrics(area: Rect, position_ms: u64, duration_ms: u64) -> (r: (u16, u16))
        requires
            area.x + 4 <= u16::MAX,
        ensures
            r.0 == area.x + 4,
            r.1 == seek_bar_width(area.width as int, position_ms as nat, duration_ms as nat),
    {
        let time_str = times(position_ms, duration_ms);
        let len: usize = chars_of(time_str.as_str()).len();
        let room: usize = area.width.saturating_sub(5) as usize;
        (area.x + 4, room.saturating_sub(len) as u16)
    }

    /// Where a click on the seek bar leads: `proportional_ms` if it hits the bar,
    /// kept five seconds short of what is downloaded while a track still streams.
    pub fn seek_from_click(
        bar_start: u16,
        bar_width: u16,
        click_x: u16,
        proportional_ms: u64,
        downloaded_ms: Option<u64>,
    ) -> (r: Option<u64>)
        requires
            bar_start + bar_width <= u16::MAX,
        ensures
            r == (if bar_start <= click_x < bar_start + bar_width {
                match downloaded_ms {
                    Some(d) => Some(min_int(proportional_ms as int, sub0(d as int, 5000)) as u64),
                    None => Some(proportional_ms),
                }
            } else {
                None
            }),
    {
        let bar_end: u16 = bar_start + bar_width;
        if click_x < bar_start || click_x >= bar_end || bar_width == 0 {
            return None;
        }
        match downloaded_ms {
            Some(d) => {
                let limit: u64 = d.saturating_sub(5000);
                if proportional_ms <= limit {
                    Some(proportional_ms)
                } else {
                    Some(limit)
                }
            },
            None => Some(proportional_ms),
        }
    }

    /// Draws the bar over `area`.
    pub fn render(&self, area: Rect, fill: BarFill) -> (ops: Vec<Op>)
        requires
            fits(area),
            match self.playing_entry {
                Some(e) => title_fits(*e),
                None => true,
            },
        ensures
            scene(ops@) == transport_ops(*self, area, fill),
    {
        let mut ops: Vec<Op> = Vec::new();
        if area.height < 2 {
            return ops;
        }
        match self.track_info {
            None => {
                draw(
                    &mut ops,
                    Op::Line {
                        x: area.x,
                        y: area.y,
                        width: area.width,
                        line: line_of(span(" stopped", slot_style(Slot::StatusStopped))),
                    },
                );
            },
            Some(info) => {
                let duration: u64 = match self.playing_entry {
                    Some(e) => match e.duration_ms {
                        Some(d) => d,
                        None => info.duration_ms,
                    },
                    None => info.duration_ms,
                };
                let time_str = times(self.position_ms, duration);
                let time_len: usize = chars_of(time_str.as_str()).len();
                let room: usize = area.width.saturating_sub(5) as usize;
                let width: usize = room.saturating_sub(time_len);
                let filled: usize = if duration > 0 {
                    if fill.progress <= width {
                        fill.progress
                    } else {
                        width
                    }
                } else {
                    0
                };
                let loaded: usize = match fill.downloaded {
                    Some(d) => if d <= width {
                        d
                    } else {
                        width
                    },
                    None => width,
                };
                let seek = seek_text(self.playback_state, filled, loaded, width, time_str);
                draw(&mut ops, Op::Line { x: area.x, y: area.y, width: area.width, line: seek });
                match self.playing_entry {
                    Some(entry) => {
                        let title = title_text(entry, area.width, self.ticker_offset);
                        draw(
                            &mut ops,
                            Op::Line { x: area.x, y: area.y + 1, width: area.width, line: title },
                        );
                        if area.height >= 3 {
                            let album = album_text(entry, info);
                            draw(
                                &mut ops,
                                Op::Line {
                                    x: area.x,
                                    y: area.y + 2,
                                    width: area.width,
                                    line: album,
                                },
                            );
                        }
                    },
                    None => {
                        let file = file_text(info);
                        draw(
                            &mut ops,
                            Op::Line { x: area.x, y: area.y + 1, width: area.width, line: file },
                        );
                    },
                }
            },
        }
        assert(scene(ops@) =~= transport_ops(*self, area, fill));
        ops
    }
}

// ---------------------------------------------------------------------------
// What the bar tells
// ---------------------------------------------------------------------------

/// A number below a hundred has two digits.
pub proof fn two_digits_are_two(n: nat)
    requires
        n < 100,
    ensures
        two_digits(n).len() == 2,
        two_digits(n)[0] == digit_char(n as int / 10),
        two_digits(n)[1] == digit_char(n as int % 10),
{
    reveal_strlit("0");
    reveal_with_fuel(decimal, 3);
}

/// A time is told in hours, minutes and seconds, or just minutes and seconds where it has no
/// whole hour.
pub proof fn times_are_told_in_minutes_and_seconds(h: nat, m: nat, s: nat, rest: nat)
    requires
        m < 60,
        s < 60,
        rest < 1000,
    ensures
        ({
            let ms = (((h * 60 + m) * 60 + s) * 1000 + rest) as nat;
            &&& h > 0 ==> time_text(ms) == decimal(h) + ":"@ + two_digits(m) + ":"@ + two_digits(
                s,
            )
            &&& h == 0 ==> time_text(ms) == decimal(m) + ":"@ + two_digits(s)
        }),
{
    let secs = ((h * 60 + m) * 60 + s) as nat;
    let ms = (secs * 1000 + rest) as nat;
    assert(ms / 1000 == secs);
    assert(secs / 3600 == h);
    assert(secs / 60 == h * 60 + m);
    assert((h * 60 + m) % 60 == m) by (nonlinear_arith)
        requires
            m < 60,
    ;
    assert(secs % 60 == s) by (nonlinear_arith)
        requires
            secs == (h * 60 + m) * 60 + s,
            s < 60,
    ;
}

/// The seek bar shows how far playback is, what is loaded beyond, and what is missing, cell by
/// cell, and the times behind it.
pub proof fn seek_lines_show_how_far_it_is(
    state: PlaybackState,
    filled: nat,
    loaded: nat,
    width: nat,
    times: Seq<char>,
)
    requires
        filled <= loaded <= width,
    ensures
        ({
            let line = seek_line(state, filled, loaded, width, times);
            &&& line[1] == state_icon(state)
            &&& line[3].text.len() == filled
            &&& forall|i: int| 0 <= i < filled ==> #[trigger] line[3].text[i] == '\u{2501}'
            &&& line[4].text.len() == loaded - filled
            &&& forall|i: int|
                0 <= i < loaded - filled ==> #[trigger] line[4].text[i] == '\u{2500}'
            &&& loaded < width ==> line[5].text.len() == width - loaded
            &&& line.last().text == times
            &&& line.len() == if loaded < width {
                8int
            } else {
                7
            }
        }),
{
}

/// Each state of playback has its own sign.
pub proof fn states_have_their_own_sign(state: PlaybackState)
    ensures
        state is Playing <==> state_icon(state).style == plain(Slot::StatusPlaying),
        state is Paused <==> state_icon(state).style == plain(Slot::StatusPaused),
        state is Stopped <==> state_icon(state).style == plain(Slot::StatusStopped),
        state is Playing ==> state_icon(state).text == "\u{25B8}\u{25B8}"@,
        state is Paused ==> state_icon(state).text == "\u{2016} "@,
        state is Stopped ==> state_icon(state).text == "\u{25AA} "@,
{
}

/// The title line tells the artist, if there is one, before the title; one that is too long
/// runs through, character by character, and comes round behind a gap.
pub proof fn titles_run_through(title: LineView, width: u16, offset: nat, i: int)
    requires
        width > 0,
        0 <= i < width - 1,
        line_width(title) > width - 1,
    ensures
        ({
            let line = title_line(title, width, offset);
            let cycle = glyphs(title.push(ticker_gap()));
            &&& glyphs(line.skip(1)).len() == width - 1
            &&& glyphs(line.skip(1))[i] == cycle[((offset as int + i) % cycle.len() as int)]
        }),
{
    let room = (width - 1) as nat;
    let cycle = glyphs(title.push(ticker_gap()));
    glyphs_push(title, ticker_gap());
    glyphs_len(title);
    let n = cycle.len() as int;
    let window = ticker_window(cycle, offset as int % n, room);
    let line = title_line(title, width, offset);
    assert(line.skip(1) =~= runs(window));
    runs_keep_the_text(window);
    let a = offset as int;
    assert((a % n + i) % n == (a + i) % n) by {
        vstd::arithmetic::div_mod::lemma_add_mod_noop(a, i, n);
        vstd::arithmetic::div_mod::lemma_add_mod_noop(a % n, i, n);
        vstd::arithmetic::div_mod::lemma_mod_twice(a, n);
    }
}

/// A title that fits stands as it is, the artist before it where there is one.
pub proof fn short_titles_stand_still(artist: Seq<char>, title: Seq<char>, width: u16, offset: nat)
    requires
        width > 0,
        artist.len() + 3 + title.len() <= width - 1,
    ensures
        ({
            let line = title_line(title_spans(artist, title), width, offset);
            &&& line.last().text == title
            &&& artist.len() > 0 ==> line.len() == 4 && line[1].text == artist && line[2].text
                == " \u{2014} "@
            &&& artist.len() == 0 ==> line.len() == 2
        }),
{
    reveal_strlit(" \u{2014} ");
    let t = title_spans(artist, title);
    let last = styled(title, bold(plain(Slot::TrackNormal)));
    line_width_one(last);
    if artist.len() > 0 {
        let a = piece(artist, Slot::TrackPlaying);
        let b = piece(" \u{2014} "@, Slot::HintDesc);
        line_width_one(a);
        line_width_one(b);
        line_width_concat(seq![a], seq![b]);
        assert(seq![a, b] =~= seq![a] + seq![b]);
        line_width_concat(seq![a, b], seq![last]);
        assert(t =~= seq![a, b] + seq![last]);
    } else {
        assert(t =~= seq![last]);
    }
}

/// The album line tells the album, the year where it is known, and the format of the file;
/// without an entry the name of the file stands for the title.
pub proof fn bars_tell_album_and_format(entry: QueueEntry, info: TrackInfo)
    ensures
        ({
            let line = album_line(entry, info);
            let format = info.codec@ + " "@ + decimal(info.sample_rate as nat) + "Hz/"@ + decimal(
                info.bit_depth as nat,
            ) + "bit/"@ + decimal(info.channels as nat) + "ch"@;
            &&& entry.album@.len() > 0 ==> line[1].text == entry.album@
            &&& entry.year is Some ==> line[line.len() - 2].text == " ("@ + entry.year->0@ + ")"@
            &&& line.last().text == " \u{00B7} "@ + format
            &&& line.len() == 2 + (if entry.album@.len() > 0 {
                1int
            } else {
                0
            }) + (if entry.year is Some {
                1int
            } else {
                0
            })
            &&& file_line(info).last().text == format
            &&& last_name(info.path@) is Some ==> file_line(info)[1].text == stem(
                last_name(info.path@)->0,
            )
        }),
{
}

/// The bar has a line for the time and the position, one for the title and, where there is
/// room, one for the album, one below the other; without a track it says that it is stopped.
pub proof fn bars_have_their_lines(bar: TransportBar, area: Rect, fill: BarFill)
    requires
        fits(area),
        area.height >= 2,
    ensures
        ({
            let ops = transport_ops(bar, area, fill);
            &&& forall|i: int|
                0 <= i < ops.len() ==> (#[trigger] ops[i]) is Line && ops[i]->Line_x == area.x
                    && ops[i]->Line_y == area.y + i && ops[i]->Line_width == area.width
            &&& bar.track_info is None ==> ops.len() == 1 && ops[0]->line[0].text == " stopped"@
            &&& bar.track_info is Some ==> {
                let duration = match bar.playing_entry {
                    Some(e) => match e.duration_ms {
                        Some(d) => d,
                        None => bar.track_info->0.duration_ms,
                    },
                    None => bar.track_info->0.duration_ms,
                };
                &&& ops[0]->line[1] == state_icon(bar.playback_state)
                &&& ops[0]->line.last().text == time_text(bar.position_ms as nat) + "/"@
                    + time_text(duration as nat)
                &&& duration == 0 ==> ops[0]->line[3].text.len() == 0
                &&& ops[0]->line[3].text.len() <= fill.progress
            }
            &&& bar.track_info is Some && bar.playing_entry is Some ==> ops[1]->line == title_line(
                title_spans(bar.playing_entry->0.artist@, bar.playing_entry->0.title@),
                area.width,
                bar.ticker_offset as nat,
            ) && ops.len() == (if area.height >= 3 {
                3int
            } else {
                2
            })
            &&& bar.track_info is Some && bar.playing_entry is Some && area.height >= 3
                ==> ops[2]->line == album_line(*bar.playing_entry->0, *bar.track_info->0)
            &&& bar.track_info is Some && bar.playing_entry is None ==> ops.len() == 2
                && ops[1]->line == file_line(*bar.track_info->0)
        }),
{
}

/// The seek bar takes what the sign, the times and the spaces leave of the line.
pub proof fn seek_bars_take_what_is_left(width: int, position_ms: nat, duration_ms: nat)
    ensures
        ({
            let told = time_text(position_ms) + "/"@ + time_text(duration_ms);
            let bar = seek_bar_width(width, position_ms, duration_ms);
            &&& width >= 5 + told.len() ==> bar + 5 + told.len() == width
            &&& width < 5 + told.len() ==> bar == 0
        }),
{
}

} // verus!
