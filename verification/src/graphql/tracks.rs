//! Tracks: filters for the library, fuzzy search, history, lyrics and cover art.

use vstd::arithmetic::power::pow;
use vstd::prelude::*;

use crate::fuzzy::{
    appended, found_all, fresh_query_finds_all, inject, injected, new_matcher, numbered, query_of,
    set_query, settled_on, shown, shown_are_indices, shown_at, shown_count, tick, ticked,
};
use crate::graphql::catalog::SortDirection;
use crate::graphql::pages::{
    offset_after, page_offset, page_size, size_of_page, MAX_PAGE,
};
use crate::lists::{collects, collects_at, collects_none, collects_push, take_push};
use crate::rows::{AlbumRow, ArtistRow, TrackRow};
use crate::subsonic::browse::clamped;
use crate::subsonic::covers::is_png;
use crate::subsonic::media::{file_of, track_file_path};
use crate::subsonic::search::{first_flattened, first_of_lists};
use crate::text::{
    begins_with, concat3, contains_text, decimal, decimal_int, decimal_of_int, decimal_reads_back,
    ends_with, is_digit, opt_str, opt_text, same, texts, texts_are_found_inside,
};
use crate::tui::library::{as_unsigned, unsigned_of};
use crate::tui::screen::{max_int, min_int};

verus! {

broadcast use crate::lists::group_lists;

// ---------------------------------------------------------------------------
// Sources
// ---------------------------------------------------------------------------

/// Where a track comes from.
#[derive(Clone, Copy, Debug, PartialEq, Eq, Structural)]
pub enum TrackSource {
    Local,
    Remote,
    Cached,
}

impl TrackSource {
    /// The word that the library keeps for a source.
    pub open spec fn word(self) -> Seq<char> {
        match self {
            TrackSource::Local => "local"@,
            TrackSource::Remote => "remote"@,
            TrackSource::Cached => "cached"@,
        }
    }

    /// The word that the library keeps for a source.
    pub fn as_db_value(self) -> (r: &'static str)
        ensures
            r@ == self.word(),
    {
        match self {
            TrackSource::Local => "local",
            TrackSource::Remote => "remote",
            TrackSource::Cached => "cached",
        }
    }
}

/// The source that a word stands for: remote, unless it says otherwise.
pub open spec fn source_named(word: Seq<char>) -> TrackSource {
    if word == "local"@ {
        TrackSource::Local
    } else if word == "cached"@ {
        TrackSource::Cached
    } else {
        TrackSource::Remote
    }
}

/// The source of a track.
pub fn track_source(row: &TrackRow) -> (r: TrackSource)
    ensures
        r == source_named(row.source@),
{
    if same(row.source.as_str(), "local") {
        TrackSource::Local
    } else if same(row.source.as_str(), "cached") {
        TrackSource::Cached
    } else {
        TrackSource::Remote
    }
}

/// The word for a source stands for that source.
pub proof fn sources_read_back(source: TrackSource)
    ensures
        source_named(source.word()) == source,
{
    reveal_strlit("local");
    reveal_strlit("remote");
    reveal_strlit("cached");
    assert("local"@.len() == 5 && "remote"@.len() == 6 && "cached"@.len() == 6);
    assert("remote"@[0] == 'r' && "cached"@[0] == 'c');
}

// ---------------------------------------------------------------------------
// Filters
// ---------------------------------------------------------------------------

/// What tracks are sorted by.
#[derive(Clone, Copy, Debug, PartialEq, Eq, Structural)]
pub enum TrackSortField {
    Title,
    Artist,
    Album,
    Duration,
    ArtistAlbumDiscTrack,
}

/// Which tracks a client asks for.
#[derive(Debug)]
pub struct TrackArgs {
    pub ids: Option<Vec<i64>>,
    pub album_id: Option<i64>,
    pub artist_id: Option<i64>,
    pub artist_ids: Option<Vec<i64>>,
    pub search: Option<String>,
    pub title: Option<String>,
    pub artist_name: Option<String>,
    pub album_title: Option<String>,
    pub genre: Option<String>,
    pub codec: Option<String>,
    pub source: Option<TrackSource>,
    pub year_start: Option<i32>,
    pub year_end: Option<i32>,
    pub min_sample_rate: Option<i32>,
    pub min_bit_depth: Option<i32>,
    pub channels: Option<i32>,
    pub min_duration_ms: Option<i64>,
    pub max_duration_ms: Option<i64>,
    pub favourites_only: bool,
}

/// Which tracks the library is asked for.
#[derive(Debug)]
pub struct TrackFilter {
    pub ids: Option<Vec<i64>>,
    pub search: Option<String>,
    pub album_id: Option<i64>,
    pub artist_ids: Option<Vec<i64>>,
    pub title: Option<String>,
    pub artist_name: Option<String>,
    pub album_title: Option<String>,
    pub genre: Option<String>,
    pub codec: Option<String>,
    pub source: Option<String>,
    pub year_start: Option<i32>,
    pub year_end: Option<i32>,
    pub min_sample_rate: Option<i32>,
    pub min_bit_depth: Option<i32>,
    pub channels: Option<i32>,
    pub min_duration_ms: Option<i64>,
    pub max_duration_ms: Option<i64>,
    pub favourites_only: bool,
}

/// Whether a filter asks for nothing in particular.
pub open spec fn asks_nothing(f: TrackFilter) -> bool {
    &&& f.ids is None
    &&& f.search is None
    &&& f.album_id is None
    &&& f.artist_ids is None
    &&& f.title is None
    &&& f.artist_name is None
    &&& f.album_title is None
    &&& f.genre is None
    &&& f.codec is None
    &&& f.source is None
    &&& f.year_start is None
    &&& f.year_end is None
    &&& f.min_sample_rate is None
    &&& f.min_bit_depth is None
    &&& f.channels is None
    &&& f.min_duration_ms is None
    &&& f.max_duration_ms is None
}

fn open_filter(ids: Option<Vec<i64>>, favourites_only: bool) -> (f: TrackFilter)
    ensures
        asks_nothing((TrackFilter { ids: None, ..f })),
        f.ids == ids,
        f.favourites_only == favourites_only,
{
    TrackFilter {
        ids,
        search: None,
        album_id: None,
        artist_ids: None,
        title: None,
        artist_name: None,
        album_title: None,
        genre: None,
        codec: None,
        source: None,
        year_start: None,
        year_end: None,
        min_sample_rate: None,
        min_bit_depth: None,
        channels: None,
        min_duration_ms: None,
        max_duration_ms: None,
        favourites_only,
    }
}

/// A question to the library: which tracks, in what order, and which part of them.
#[derive(Debug)]
pub struct TrackQuery {
    pub filter: TrackFilter,
    pub order: TrackSortField,
    pub descending: bool,
    pub limit: u32,
    pub offset: u32,
}

/// The artists that are asked for: a list, else the one.
pub open spec fn artists_asked(one: Option<i64>, list: Option<Seq<i64>>) -> Option<Seq<i64>> {
    match list {
        Some(l) => Some(l),
        None => match one {
            Some(id) => Some(seq![id]),
            None => None,
        },
    }
}

/// The numbers of an optional list.
pub open spec fn opt_ids(ids: Option<Vec<i64>>) -> Option<Seq<i64>> {
    match ids {
        Some(l) => Some(l@),
        None => None,
    }
}

/// Whether a filter is what a client asks for.
pub open spec fn filters(f: TrackFilter, a: TrackArgs) -> bool {
    &&& f.ids == a.ids
    &&& f.search == a.search
    &&& f.album_id == a.album_id
    &&& opt_ids(f.artist_ids) == artists_asked(a.artist_id, opt_ids(a.artist_ids))
    &&& f.title == a.title
    &&& f.artist_name == a.artist_name
    &&& f.album_title == a.album_title
    &&& f.genre == a.genre
    &&& f.codec == a.codec
    &&& opt_text(f.source) == match a.source {
        Some(s) => Some(s.word()),
        None => None,
    }
    &&& f.year_start == a.year_start
    &&& f.year_end == a.year_end
    &&& f.min_sample_rate == a.min_sample_rate
    &&& f.min_bit_depth == a.min_bit_depth
    &&& f.channels == a.channels
    &&& f.min_duration_ms == a.min_duration_ms
    &&& f.max_duration_ms == a.max_duration_ms
    &&& f.favourites_only == a.favourites_only
}

/// The low 32 bits of a place.
pub open spec fn low_bits(n: int) -> int {
    n % 0x1_0000_0000
}

fn low_half(n: usize) -> (r: u32)
    ensures
        r == low_bits(n as int),
{
    (n as u64 % 0x1_0000_0000) as u32
}

/// Whether a question asks for one row past the page, which tells whether there is a
/// next one.
pub open spec fn windowed(q: TrackQuery, after: Option<Seq<char>>, first: Option<i32>) -> bool {
    &&& q.limit == size_of_page(first) + 1
    &&& q.offset == low_bits(offset_after(after))
}

/// The question that a client's arguments put to the library.
pub fn tracks(
    args: TrackArgs,
    after: Option<&str>,
    first: Option<i32>,
    sort_by: TrackSortField,
    dir: SortDirection,
) -> (q: TrackQuery)
    ensures
        filters(q.filter, args),
        q.order == sort_by,
        q.descending == (dir == SortDirection::Desc),
        windowed(q, opt_str(after), first),
{
    let artist_ids = match (args.artist_ids, args.artist_id) {
        (Some(list), _) => Some(list),
        (None, Some(one)) => {
            let mut list: Vec<i64> = Vec::new();
            list.push(one);
            assert(list@ =~= seq![one]);
            Some(list)
        },
        (None, None) => None,
    };
    let source = match args.source {
        Some(s) => Some(s.as_db_value().to_owned()),
        None => None,
    };
    let filter = TrackFilter {
        ids: args.ids,
        search: args.search,
        album_id: args.album_id,
        artist_ids,
        title: args.title,
        artist_name: args.artist_name,
        album_title: args.album_title,
        genre: args.genre,
        codec: args.codec,
        source,
        year_start: args.year_start,
        year_end: args.year_end,
        min_sample_rate: args.min_sample_rate,
        min_bit_depth: args.min_bit_depth,
        channels: args.channels,
        min_duration_ms: args.min_duration_ms,
        max_duration_ms: args.max_duration_ms,
        favourites_only: args.favourites_only,
    };
    TrackQuery {
        filter,
        order: sort_by,
        descending: dir == SortDirection::Desc,
        limit: page_size(first) as u32 + 1,
        offset: low_half(page_offset(after)),
    }
}

/// The question for a page of the favourites.
pub fn favourites(after: Option<&str>, first: Option<i32>) -> (q: TrackQuery)
    ensures
        asks_nothing(q.filter),
        q.filter.favourites_only,
        q.order == TrackSortField::ArtistAlbumDiscTrack,
        !q.descending,
        windowed(q, opt_str(after), first),
{
    TrackQuery {
        filter: open_filter(None, true),
        order: TrackSortField::ArtistAlbumDiscTrack,
        descending: false,
        limit: page_size(first) as u32 + 1,
        offset: low_half(page_offset(after)),
    }
}

/// The question for tracks by their numbers, all at once.
pub fn tracks_by_id(ids: Vec<i64>) -> (q: TrackQuery)
    ensures
        asks_nothing((TrackFilter { ids: None, ..q.filter })),
        q.filter.ids == Some(ids),
        !q.filter.favourites_only,
        q.order == TrackSortField::Title,
        !q.descending,
        q.limit == low_bits(max_int(ids@.len() as int, 1)),
        q.offset == 0,
{
    let n: usize = ids.len();
    let count: usize = if n == 0 {
        1
    } else {
        n
    };
    TrackQuery {
        filter: open_filter(Some(ids), false),
        order: TrackSortField::Title,
        descending: false,
        limit: low_half(count),
        offset: 0,
    }
}

/// A number that a client gives, between zero and the greatest page.
pub fn bounded_count(n: i32) -> (r: u32)
    ensures
        r == clamped(n as int, 0, MAX_PAGE as int),
{
    if n < 0 {
        0
    } else if n > 500 {
        500
    } else {
        n as u32
    }
}

/// A number that a client gives, not below zero.
pub fn not_negative(n: i32) -> (r: u32)
    ensures
        r == max_int(n as int, 0),
{
    if n < 0 {
        0
    } else {
        n as u32
    }
}

// ---------------------------------------------------------------------------
// Random tracks
// ---------------------------------------------------------------------------

/// By how many a number of tracks is shared: the artists, counted in 32 bits, or one
/// where there are none.
pub open spec fn sharers(artists: int) -> int {
    low_bits(max_int(artists, 1))
}

/// How many tracks each of some artists gives: an even share, at least one.
pub open spec fn share_of(count: int, artists: int) -> int {
    max_int(count / sharers(artists), 1)
}

/// How many tracks each of some artists gives.
pub fn random_share(count: i32, artists: usize) -> (r: u32)
    requires
        sharers(artists as int) > 0,
    ensures
        r == share_of(clamped(count as int, 0, MAX_PAGE as int), artists as int),
{
    let wanted = bounded_count(count);
    let among: u32 = low_half(
        if artists == 0 {
            1
        } else {
            artists
        },
    );
    let share: u32 = wanted / among;
    if share < 1 {
        1
    } else {
        share
    }
}

/// The random tracks of some artists, given those of each, up to a number.
pub fn random_tracks(by_artist: &Vec<Vec<TrackRow>>, count: i32) -> (r: Vec<TrackRow>)
    ensures
        r@ == first_flattened(
            by_artist@,
            clamped(count as int, 0, MAX_PAGE as int) as nat,
        ),
{
    first_of_lists(by_artist, bounded_count(count) as usize)
}

// ---------------------------------------------------------------------------
// Looking rows up
// ---------------------------------------------------------------------------

/// The row with a number; of several, the last.
pub open spec fn row_with_id(rows: Seq<TrackRow>, id: i64) -> Option<TrackRow>
    decreases rows.len(),
{
    if rows.len() == 0 {
        None
    } else if rows.last().id == id {
        Some(rows.last())
    } else {
        row_with_id(rows.drop_last(), id)
    }
}

/// The place of the row with a number.
fn place_with_id(rows: &Vec<TrackRow>, id: i64) -> (r: Option<usize>)
    ensures
        match r {
            Some(i) => i < rows@.len() && row_with_id(rows@, id) == Some(rows@[i as int]),
            None => row_with_id(rows@, id) is None,
        },
{
    let mut i: usize = rows.len();
    assert(rows@.take(i as int) =~= rows@);
    while i > 0
        invariant
            i <= rows@.len(),
            row_with_id(rows@, id) == row_with_id(rows@.take(i as int), id),
        decreases i,
    {
        assert(rows@.take(i as int).drop_last() =~= rows@.take(i - 1));
        i = i - 1;
        if rows[i].id == id {
            return Some(i);
        }
    }
    None
}

/// A play, as the library keeps it.
#[derive(Clone, Copy, Debug)]
pub struct PlayRow {
    pub track_id: i64,
    pub played_at: i64,
    pub duration_ms: Option<i64>,
}

/// What is told of a track in the history.
#[derive(Debug)]
pub struct GqlPlayHistoryTrack {
    pub title: String,
    pub artist: String,
    pub album: String,
}

/// A play with its track, where the library still has it.
#[derive(Debug)]
pub struct GqlPlayHistoryEntry {
    pub track_id: i64,
    pub played_at: i64,
    pub duration_ms: Option<i64>,
    pub track: Option<GqlPlayHistoryTrack>,
}

/// Whether an entry tells of a play.
pub open spec fn tells_play(e: GqlPlayHistoryEntry, p: PlayRow, rows: Seq<TrackRow>) -> bool {
    &&& e.track_id == p.track_id
    &&& e.played_at == p.played_at
    &&& e.duration_ms == p.duration_ms
    &&& match (row_with_id(rows, p.track_id), e.track) {
        (Some(row), Some(t)) => t.title@ == row.title@ && t.artist@ == row.artist_name@ && t.album@
            == row.album_title@,
        (None, None) => true,
        _ => false,
    }
}

/// The history: each play with what is known of its track.
pub fn play_history(plays: &Vec<PlayRow>, rows: &Vec<TrackRow>) -> (r: Vec<GqlPlayHistoryEntry>)
    ensures
        r@.len() == plays@.len(),
        forall|i: int| 0 <= i < r@.len() ==> tells_play(#[trigger] r@[i], plays@[i], rows@),
{
    let mut out: Vec<GqlPlayHistoryEntry> = Vec::new();
    let mut i: usize = 0;
    while i < plays.len()
        invariant
            i <= plays@.len(),
            out@.len() == i,
            forall|k: int| 0 <= k < i ==> tells_play(#[trigger] out@[k], plays@[k], rows@),
        decreases plays@.len() - i,
    {
        let p = plays[i];
        let track = match place_with_id(rows, p.track_id) {
            Some(k) => Some(
                GqlPlayHistoryTrack {
                    title: rows[k].title.clone(),
                    artist: rows[k].artist_name.clone(),
                    album: rows[k].album_title.clone(),
                },
            ),
            None => None,
        };
        out.push(
            GqlPlayHistoryEntry {
                track_id: p.track_id,
                played_at: p.played_at,
                duration_ms: p.duration_ms,
                track,
            },
        );
        i = i + 1;
    }
    out
}

/// The rows of similar tracks, each with its place in the ranking; those that the
/// library does not have are left out.
pub open spec fn similar_rows(ids: Seq<i64>, rows: Seq<TrackRow>) -> Seq<(usize, TrackRow)>
    decreases ids.len(),
{
    if ids.len() == 0 {
        Seq::empty()
    } else {
        let before = similar_rows(ids.drop_last(), rows);
        match row_with_id(rows, ids.last()) {
            Some(row) => before.push(((ids.len() - 1) as usize, row)),
            None => before,
        }
    }
}

/// The rows of similar tracks, each with its place in the ranking.
pub fn similar_tracks(ids: &Vec<i64>, rows: &Vec<TrackRow>) -> (r: Vec<(usize, TrackRow)>)
    ensures
        r@ == similar_rows(ids@, rows@),
{
    let mut out: Vec<(usize, TrackRow)> = Vec::new();
    let mut i: usize = 0;
    assert(ids@.take(0) =~= Seq::empty());
    while i < ids.len()
        invariant
            i <= ids@.len(),
            out@ == similar_rows(ids@.take(i as int), rows@),
        decreases ids@.len() - i,
    {
        assert(ids@.take(i as int + 1).drop_last() =~= ids@.take(i as int));
        if let Some(k) = place_with_id(rows, ids[i]) {
            out.push((i, rows[k].clone()));
        }
        i = i + 1;
    }
    assert(ids@.take(i as int) =~= ids@);
    out
}

// ---------------------------------------------------------------------------
// Fuzzy search
// ---------------------------------------------------------------------------

/// What a fuzzy search looks through.
#[derive(Clone, Copy, Debug, PartialEq, Eq, Structural)]
pub enum FuzzySearchKind {
    Track,
    Album,
    Artist,
}

/// A match of a fuzzy search.
#[derive(Debug)]
pub struct GqlFuzzyMatch {
    pub id: i64,
    pub name: String,
    pub rank: i32,
    pub kind: FuzzySearchKind,
}

/// A match as contracts see it.
pub open spec fn match_view(m: GqlFuzzyMatch) -> (i64, Seq<char>, int, FuzzySearchKind) {
    (m.id, m.name@, m.rank as int, m.kind)
}

/// What is searched, as contracts see it.
pub open spec fn items_view(items: Seq<(i64, String)>) -> Seq<(i64, Seq<char>)> {
    items.map_values(|e: (i64, String)| (e.0, e.1@))
}

/// The texts that are searched.
pub open spec fn names_of(items: Seq<(i64, String)>) -> Seq<Seq<char>> {
    items.map_values(|e: (i64, String)| e.1@)
}

/// A track as it is searched: artist, album and title.
pub open spec fn track_name(t: TrackRow) -> Seq<char> {
    t.artist_name@ + " — "@ + t.album_title@ + " — "@ + t.title@
}

/// An album as it is searched: artist and title.
pub open spec fn album_name(a: AlbumRow) -> Seq<char> {
    a.artist_name@ + " — "@ + a.title@
}

/// Tracks to search.
pub fn track_items(rows: &Vec<TrackRow>) -> (r: Vec<(i64, String)>)
    ensures
        items_view(r@) == rows@.map_values(|t: TrackRow| (t.id, track_name(t))),
{
    let ghost all = rows@.map_values(|t: TrackRow| (t.id, track_name(t)));
    let mut out: Vec<(i64, String)> = Vec::new();
    let mut i: usize = 0;
    while i < rows.len()
        invariant
            i <= rows@.len(),
            all == rows@.map_values(|t: TrackRow| (t.id, track_name(t))),
            items_view(out@) == all.take(i as int),
        decreases rows@.len() - i,
    {
        let t = &rows[i];
        let head = concat3(t.artist_name.as_str(), " — ", t.album_title.as_str());
        out.push((t.id, concat3(head.as_str(), " — ", t.title.as_str())));
        proof {
            take_push(all, i as int);
        }
        i = i + 1;
    }
    assert(all.take(i as int) =~= all);
    out
}

/// Albums to search.
pub fn album_items(rows: &Vec<AlbumRow>) -> (r: Vec<(i64, String)>)
    ensures
        items_view(r@) == rows@.map_values(|a: AlbumRow| (a.id, album_name(a))),
{
    let ghost all = rows@.map_values(|a: AlbumRow| (a.id, album_name(a)));
    let mut out: Vec<(i64, String)> = Vec::new();
    let mut i: usize = 0;
    while i < rows.len()
        invariant
            i <= rows@.len(),
            all == rows@.map_values(|a: AlbumRow| (a.id, album_name(a))),
            items_view(out@) == all.take(i as int),
        decreases rows@.len() - i,
    {
        let a = &rows[i];
        out.push((a.id, concat3(a.artist_name.as_str(), " — ", a.title.as_str())));
        proof {
            take_push(all, i as int);
        }
        i = i + 1;
    }
    assert(all.take(i as int) =~= all);
    out
}

/// Artists to search.
pub fn artist_items(rows: &Vec<ArtistRow>) -> (r: Vec<(i64, String)>)
    ensures
        items_view(r@) == rows@.map_values(|a: ArtistRow| (a.id, a.name@)),
{
    let ghost all = rows@.map_values(|a: ArtistRow| (a.id, a.name@));
    let mut out: Vec<(i64, String)> = Vec::new();
    let mut i: usize = 0;
    while i < rows.len()
        invariant
            i <= rows@.len(),
            all == rows@.map_values(|a: ArtistRow| (a.id, a.name@)),
            items_view(out@) == all.take(i as int),
        decreases rows@.len() - i,
    {
        out.push((rows[i].id, rows[i].name.clone()));
        proof {
            take_push(all, i as int);
        }
        i = i + 1;
    }
    assert(all.take(i as int) =~= all);
    out
}

/// The matches that a ranking of places gives, up to a number.
pub open spec fn matches_ranked(
    items: Seq<(i64, Seq<char>)>,
    places: Seq<u32>,
    kind: FuzzySearchKind,
    limit: int,
) -> Seq<(i64, Seq<char>, int, FuzzySearchKind)> {
    Seq::new(
        min_int(places.len() as int, limit) as nat,
        |i: int| (items[places[i] as int].0, items[places[i] as int].1, i, kind),
    )
}

/// The matches that a ranking of places gives, up to a number.
pub fn fuzzy_matches(
    items: &Vec<(i64, String)>,
    places: &Vec<u32>,
    kind: FuzzySearchKind,
    limit: u32,
) -> (r: Vec<GqlFuzzyMatch>)
    requires
        limit <= i32::MAX,
        forall|i: int| 0 <= i < places@.len() ==> (#[trigger] places@[i]) < items@.len(),
    ensures
        r@.map_values(|m: GqlFuzzyMatch| match_view(m)) == matches_ranked(
            items_view(items@),
            places@,
            kind,
            limit as int,
        ),
{
    let ghost all = matches_ranked(items_view(items@), places@, kind, limit as int);
    let mut out: Vec<GqlFuzzyMatch> = Vec::new();
    let mut i: usize = 0;
    while i < places.len() && i < limit as usize
        invariant
            limit <= i32::MAX,
            i <= all.len(),
            all == matches_ranked(items_view(items@), places@, kind, limit as int),
            forall|k: int| 0 <= k < places@.len() ==> (#[trigger] places@[k]) < items@.len(),
            out@.map_values(|m: GqlFuzzyMatch| match_view(m)) == all.take(i as int),
        decreases places@.len() - i,
    {
        let place: usize = places[i] as usize;
        assert(places@[i as int] < items@.len());
        out.push(
            GqlFuzzyMatch {
                id: items[place].0,
                name: items[place].1.clone(),
                rank: i as i32,
                kind,
            },
        );
        proof {
            take_push(all, i as int);
        }
        i = i + 1;
    }
    assert(all.take(i as int) =~= all);
    out
}

/// Searches items for a query. All matches come, each once and best first, up to a number;
/// or none, if the matcher's threads have not finished when it is read.
pub fn fuzzy_search(
    items: &Vec<(i64, String)>,
    query: &str,
    kind: FuzzySearchKind,
    limit: i32,
) -> (r: Vec<GqlFuzzyMatch>)
    requires
        items@.len() <= u32::MAX - 32,
    ensures
        exists|places: Seq<u32>|
            {
                &&& places.len() == 0 || found_all(names_of(items@), query@, places)
                &&& r@.map_values(|m: GqlFuzzyMatch| match_view(m)) == #[trigger] matches_ranked(
                    items_view(items@),
                    places,
                    kind,
                    clamped(limit as int, 0, MAX_PAGE as int),
                )
            },
{
    let wanted = bounded_count(limit);
    let mut matcher = new_matcher();
    let ghost all = numbered(names_of(items@));
    let mut i: usize = 0;
    assert(all.take(0) =~= Seq::empty());
    while i < items.len()
        invariant
            i <= items@.len() <= u32::MAX - 32,
            all == numbered(names_of(items@)),
            injected(matcher) == all.take(i as int),
            query_of(matcher) == Seq::<char>::empty(),
            ticked(matcher) == Set::<Seq<char>>::empty(),
            !appended(matcher),
        decreases items@.len() - i,
    {
        inject(&mut matcher, i as u32, items[i].1.as_str());
        proof {
            take_push(all, i as int);
        }
        i = i + 1;
    }
    assert(all.take(i as int) =~= all);
    set_query(&mut matcher, query, false);
    let ghost asked = Set::<Seq<char>>::empty().insert(query@);
    tick(&mut matcher);
    let mut round: usize = 1;
    while round < 20
        invariant
            injected(matcher) == all,
            query_of(matcher) == query@,
            asked == Set::<Seq<char>>::empty().insert(query@),
            ticked(matcher) == asked,
            !appended(matcher),
            settled_on(all, asked, shown(matcher), true),
        decreases 20 - round,
    {
        tick(&mut matcher);
        assert(ticked(matcher) =~= asked);
        round = round + 1;
    }
    proof {
        shown_are_indices(names_of(items@), asked, shown(matcher), true);
        fresh_query_finds_all(names_of(items@), query@, shown(matcher));
    }
    let count = shown_count(&matcher);
    let mut places: Vec<u32> = Vec::new();
    let mut k: u32 = 0;
    while k < count
        invariant
            k <= count,
            count == shown(matcher).len(),
            places@ == shown(matcher).take(k as int),
        decreases count - k,
    {
        if let Some(v) = shown_at(&matcher, k) {
            places.push(v);
        }
        proof {
            take_push(shown(matcher), k as int);
        }
        k = k + 1;
    }
    assert(places@ =~= shown(matcher));
    fuzzy_matches(items, &places, kind, wanted)
}

// ---------------------------------------------------------------------------
// Lyrics and cover art
// ---------------------------------------------------------------------------

/// What is said of a track that the library does not have.
pub open spec fn no_track_text(id: i64) -> Seq<char> {
    "track "@ + decimal_int(id as int) + " not found"@
}

/// What is said of a track without a file.
pub open spec fn no_path_text(id: i64) -> Seq<char> {
    "track "@ + decimal_int(id as int) + " has no path"@
}

/// What lyrics are looked up by.
#[derive(Debug)]
pub struct LyricsQuery {
    pub artist: String,
    pub title: String,
    pub album: String,
    pub duration_secs: u64,
}

/// What the lyrics of a track are looked up by.
pub fn lyrics_query(id: i64, track: Option<&TrackRow>) -> (r: Result<LyricsQuery, String>)
    ensures
        match (track, r) {
            (None, Err(m)) => m@ == no_track_text(id),
            (Some(t), Ok(q)) => {
                &&& q.artist@ == t.artist_name@
                &&& q.title@ == t.title@
                &&& q.album@ == t.album_title@
                &&& q.duration_secs == match t.duration_ms {
                    Some(d) => as_unsigned(d) / 1000,
                    None => 0,
                }
            },
            _ => false,
        },
{
    match track {
        None => Err(concat3("track ", decimal_of_int(id).as_str(), " not found")),
        Some(t) => Ok(
            LyricsQuery {
                artist: t.artist_name.clone(),
                title: t.title.clone(),
                album: t.album_title.clone(),
                duration_secs: match t.duration_ms {
                    Some(d) => unsigned_of(d) / 1000,
                    None => 0,
                },
            },
        ),
    }
}

/// The file of a track that has to have one.
pub fn required_path(id: i64, track: Option<&TrackRow>) -> (r: Result<String, String>)
    ensures
        match (track, r) {
            (None, Err(m)) => m@ == no_track_text(id),
            (Some(t), Ok(p)) => file_of(*t) == Some(p@),
            (Some(t), Err(m)) => file_of(*t) is None && m@ == no_path_text(id),
            _ => false,
        },
{
    match track {
        None => Err(concat3("track ", decimal_of_int(id).as_str(), " not found")),
        Some(t) => match track_file_path(t) {
            Some(p) => Ok(p),
            None => Err(concat3("track ", decimal_of_int(id).as_str(), " has no path")),
        },
    }
}

/// The character of a Base64 digit.
pub open spec fn base64_digit(n: int) -> char {
    if n < 26 {
        (65 + n) as char
    } else if n < 52 {
        (71 + n) as char
    } else if n < 62 {
        (n - 4) as char
    } else if n == 62 {
        '+'
    } else {
        '/'
    }
}

/// A byte, or zero past the end.
pub open spec fn byte_or_zero(bytes: Seq<u8>, i: int) -> int {
    if i < bytes.len() {
        bytes[i] as int
    } else {
        0
    }
}

/// The six bits at a place: of every three bytes come four.
pub open spec fn sextet(bytes: Seq<u8>, k: int) -> int {
    let i = 3 * (k / 4);
    let triple = byte_or_zero(bytes, i) * 65536 + byte_or_zero(bytes, i + 1) * 256 + byte_or_zero(
        bytes,
        i + 2,
    );
    (triple / pow(64, (3 - k % 4) as nat)) % 64
}

/// Bytes in Base64, with the standard alphabet, padded.
pub open spec fn base64_text(bytes: Seq<u8>) -> Seq<char> {
    Seq::new(
        (4 * ((bytes.len() + 2) / 3)) as nat,
        |k: int|
            if 6 * k < 8 * bytes.len() {
                base64_digit(sextet(bytes, k))
            } else {
                '='
            },
    )
}

/// `base64::Engine::encode` with the engine `STANDARD`: six bits a character, in the
/// standard alphabet, padded with `=` to a multiple of four. It panics where the length
/// of the text overflows.
#[verifier::external_body]
fn encode_base64(data: &[u8]) -> (r: String)
    requires
        4 * ((data@.len() + 2) / 3) <= usize::MAX,
    ensures
        r@ == base64_text(data@),
{
    base64::Engine::encode(&base64::engine::general_purpose::STANDARD, data)
}

/// Cover art as text.
#[derive(Debug)]
pub struct GqlCoverArt {
    pub data_base64: String,
    pub mime: String,
}

/// The media type that the first bytes of an image tell.
pub open spec fn image_type(data: Seq<u8>) -> Seq<char> {
    if is_png(data) {
        "image/png"@
    } else if data.len() >= 2 && data[0] == 0xff && data[1] == 0xd8 {
        "image/jpeg"@
    } else {
        "application/octet-stream"@
    }
}

/// Cover art as text, with its media type.
pub fn cover_art(data: &Vec<u8>) -> (r: GqlCoverArt)
    requires
        4 * ((data@.len() + 2) / 3) <= usize::MAX,
    ensures
        r.data_base64@ == base64_text(data@),
        r.mime@ == image_type(data@),
{
    let mime: &str = if crate::subsonic::covers::has_png_signature(data) {
        "image/png"
    } else if data.len() >= 2 && data[0] == 0xff && data[1] == 0xd8 {
        "image/jpeg"
    } else {
        "application/octet-stream"
    };
    GqlCoverArt { data_base64: encode_base64(data.as_slice()), mime: mime.to_owned() }
}

// ---------------------------------------------------------------------------
// What queries and answers mean
// ---------------------------------------------------------------------------

/// Each thing that a client asks of tracks is asked of the library under its own name; a list
/// of artists counts before a single one.
pub proof fn track_arguments_are_passed_on(f: TrackFilter, a: TrackArgs)
    requires
        filters(f, a),
    ensures
        f.ids == a.ids,
        f.search == a.search,
        f.album_id == a.album_id,
        f.title == a.title,
        f.artist_name == a.artist_name,
        f.album_title == a.album_title,
        f.genre == a.genre,
        f.codec == a.codec,
        f.year_start == a.year_start,
        f.year_end == a.year_end,
        f.min_sample_rate == a.min_sample_rate,
        f.min_bit_depth == a.min_bit_depth,
        f.channels == a.channels,
        f.min_duration_ms == a.min_duration_ms,
        f.max_duration_ms == a.max_duration_ms,
        f.favourites_only == a.favourites_only,
        a.artist_ids is Some ==> f.artist_ids is Some && f.artist_ids->0@ == a.artist_ids->0@,
        a.artist_ids is None && a.artist_id is Some ==> f.artist_ids is Some
            && f.artist_ids->0@.len() == 1 && f.artist_ids->0@[0] == a.artist_id->0,
        a.artist_ids is None && a.artist_id is None ==> f.artist_ids is None,
        f.source is Some <==> a.source is Some,
        a.source is Some ==> source_named(f.source->0@) == a.source->0,
{
    if let Some(s) = a.source {
        sources_read_back(s);
    }
}

/// The library is asked for one track more than the page holds, from behind the cursor on.
pub proof fn windows_start_behind_the_cursor(q: TrackQuery, after: Option<nat>, first: Option<i32>)
    requires
        after is Some ==> after->0 < u32::MAX,
        windowed(
            q,
            match after {
                Some(n) => Some(decimal(n)),
                None => None,
            },
            first,
        ),
    ensures
        q.offset == match after {
            Some(n) => n as int + 1,
            None => 0,
        },
        first is None ==> q.limit == 51,
        first is Some && first->0 <= 0 ==> q.limit == 1,
        first is Some && 0 <= first->0 <= 500 ==> q.limit == first->0 + 1,
        first is Some && first->0 >= 500 ==> q.limit == 501,
{
    if let Some(n) = after {
        decimal_reads_back(n);
        assert(is_digit(decimal(n)[0]));
    }
}

/// Shares are even: together they do not go beyond the count, unless each has just one, and
/// one more for each would.
pub proof fn shares_are_even(count: int, artists: int)
    requires
        0 <= count <= 500,
        1 <= artists <= u32::MAX,
    ensures
        share_of(count, artists) >= 1,
        share_of(count, artists) == 1 || share_of(count, artists) * artists <= count,
        count < (share_of(count, artists) + 1) * artists,
{
    assert(artists % 0x1_0000_0000 == artists);
    let share = count / artists;
    assert(share * artists <= count < (share + 1) * artists) by (nonlinear_arith)
        requires
            share == count / artists,
            artists >= 1,
    ;
    if share < 1 {
        assert(count < 2 * artists) by (nonlinear_arith)
            requires
                count < (share + 1) * artists,
                share < 1,
                artists >= 1,
        ;
    }
}

/// A row is found by its id, the last where several have it.
pub proof fn rows_are_found_by_id(rows: Seq<TrackRow>, id: i64)
    ensures
        match row_with_id(rows, id) {
            Some(row) => exists|i: int| #[trigger]
                is_last_with(rows, id, i) && row == rows[i],
            None => forall|i: int| 0 <= i < rows.len() ==> (#[trigger] rows[i]).id != id,
        },
    decreases rows.len(),
{
    if rows.len() > 0 {
        let last = rows.len() - 1;
        if rows[last].id == id {
            assert(is_last_with(rows, id, last));
        } else {
            let before = rows.drop_last();
            rows_are_found_by_id(before, id);
            match row_with_id(before, id) {
                Some(row) => {
                    let i = choose|i: int| #[trigger]
                        is_last_with(before, id, i) && row == before[i];
                    assert forall|k: int| i < k < rows.len() implies (#[trigger] rows[k]).id
                        != id by {
                        if k < last {
                            assert(before[k] == rows[k]);
                        }
                    }
                    assert(is_last_with(rows, id, i));
                },
                None => {
                    assert forall|i: int| 0 <= i < rows.len() implies (#[trigger] rows[i]).id
                        != id by {
                        if i < last {
                            assert(before[i] == rows[i]);
                        }
                    }
                },
            }
        }
    }
}

/// Whether the row at a place has an id, and none behind it does.
pub open spec fn is_last_with(rows: Seq<TrackRow>, id: i64, i: int) -> bool {
    &&& 0 <= i < rows.len()
    &&& rows[i].id == id
    &&& forall|k: int| i < k < rows.len() ==> (#[trigger] rows[k]).id != id
}

/// A play is told with its own time and length, and with the title, artist and album of the
/// track that has its id.
pub proof fn plays_tell_their_track(e: GqlPlayHistoryEntry, p: PlayRow, rows: Seq<TrackRow>)
    requires
        tells_play(e, p, rows),
    ensures
        e.track_id == p.track_id,
        e.played_at == p.played_at,
        e.duration_ms == p.duration_ms,
        match e.track {
            Some(t) => exists|i: int|
                0 <= i < rows.len() && (#[trigger] rows[i]).id == p.track_id && t.title@
                    == rows[i].title@ && t.artist@ == rows[i].artist_name@ && t.album@
                    == rows[i].album_title@,
            None => forall|i: int| 0 <= i < rows.len() ==> (#[trigger] rows[i]).id != p.track_id,
        },
{
    rows_are_found_by_id(rows, p.track_id);
}

/// The row for the id at a place of a list, with the place.
pub open spec fn placed_row(ids: Seq<i64>, rows: Seq<TrackRow>) -> spec_fn(int) -> Option<
    (usize, TrackRow),
> {
    |k: int|
        match row_with_id(rows, ids[k]) {
            Some(row) => Some((k as usize, row)),
            None => None,
        }
}

/// Similar tracks come in the order of their ids, each under the place of its id; an id that
/// has no row keeps its place free.
pub proof fn similar_tracks_keep_their_rank(ids: Seq<i64>, rows: Seq<TrackRow>)
    requires
        ids.len() <= usize::MAX,
    ensures
        collects(
            Seq::new(ids.len(), |k: int| k),
            placed_row(ids, rows),
            similar_rows(ids, rows),
        ),
        forall|i: int|
            0 <= i < similar_rows(ids, rows).len() ==> {
                let e = #[trigger] similar_rows(ids, rows)[i];
                e.0 < ids.len() && e.1.id == ids[e.0 as int]
            },
    decreases ids.len(),
{
    similar_rows_are_collected(ids, rows, ids);
    let places = Seq::new(ids.len(), |k: int| k);
    let out = similar_rows(ids, rows);
    let f = placed_row(ids, rows);
    let at = choose|at: Seq<int>| #[trigger] collects_at(places, f, out, at);
    assert forall|i: int| 0 <= i < out.len() implies {
        let e = #[trigger] out[i];
        e.0 < ids.len() && e.1.id == ids[e.0 as int]
    } by {
        let k = places[at[i]];
        assert(f(places[at[i]]) == Some(out[i]));
        rows_are_found_by_id(rows, ids[k]);
    }
}

proof fn similar_rows_are_collected(ids: Seq<i64>, rows: Seq<TrackRow>, all: Seq<i64>)
    requires
        ids.len() <= all.len() <= usize::MAX,
        forall|i: int| 0 <= i < ids.len() ==> ids[i] == all[i],
    ensures
        collects(
            Seq::new(ids.len(), |k: int| k),
            placed_row(all, rows),
            similar_rows(ids, rows),
        ),
    decreases ids.len(),
{
    let places = Seq::new(ids.len(), |k: int| k);
    let f = placed_row(all, rows);
    if ids.len() == 0 {
        collects_none(places, f, similar_rows(ids, rows));
    } else {
        similar_rows_are_collected(ids.drop_last(), rows, all);
        assert(places.drop_last() =~= Seq::new(ids.drop_last().len(), |k: int| k));
        collects_push(places, f, similar_rows(ids.drop_last(), rows));
        assert(ids.last() == all[ids.len() - 1]);
    }
}

/// Each match tells the id and the name of the item at its place in the ranking, its rank,
/// and the kind that was searched.
pub proof fn matches_tell_their_item(
    items: Seq<(i64, Seq<char>)>,
    places: Seq<u32>,
    kind: FuzzySearchKind,
    limit: int,
)
    requires
        limit >= 0,
    ensures
        ({
            let r = matches_ranked(items, places, kind, limit);
            &&& r.len() <= limit
            &&& r.len() <= places.len()
            &&& r.len() == limit || r.len() == places.len()
            &&& forall|i: int|
                0 <= i < r.len() ==> (#[trigger] r[i]).0 == items[places[i] as int].0 && r[i].1
                    == items[places[i] as int].1 && r[i].2 == i && r[i].3 == kind
        }),
{
}

/// A track is searched by its artist, its album and its title, an album by its artist and
/// its title.
pub proof fn searched_names_hold_their_parts(t: TrackRow, a: AlbumRow)
    ensures
        begins_with(track_name(t), t.artist_name@),
        contains_text(track_name(t), t.album_title@),
        ends_with(track_name(t), t.title@),
        track_name(t).len() == t.artist_name@.len() + t.album_title@.len() + t.title@.len() + 6,
        begins_with(album_name(a), a.artist_name@),
        ends_with(album_name(a), a.title@),
        album_name(a).len() == a.artist_name@.len() + a.title@.len() + 3,
{
    reveal_strlit(" — ");
    let between = " — "@;
    let n = track_name(t);
    assert(n.take(t.artist_name@.len() as int) =~= t.artist_name@);
    let before = t.artist_name@ + between;
    let after = between + t.title@;
    assert(n =~= before + t.album_title@ + after);
    texts_are_found_inside(n, t.album_title@);
    assert(n.skip(n.len() - t.title@.len()) =~= t.title@);
    let m = album_name(a);
    assert(m.take(a.artist_name@.len() as int) =~= a.artist_name@);
    assert(m.skip(m.len() - a.title@.len()) =~= a.title@);
}

/// Four digits of a cover in base 64 say the three bytes that they stand for.
pub proof fn base64_reads_back(bytes: Seq<u8>, i: int)
    requires
        0 <= i,
        3 * i + 2 < bytes.len(),
    ensures
        sextet(bytes, 4 * i) * 262144 + sextet(bytes, 4 * i + 1) * 4096 + sextet(bytes, 4 * i + 2)
            * 64 + sextet(bytes, 4 * i + 3) == bytes[3 * i] * 65536 + bytes[3 * i + 1] * 256
            + bytes[3 * i + 2],
{
    let triple = bytes[3 * i] * 65536 + bytes[3 * i + 1] * 256 + bytes[3 * i + 2];
    powers_of_64();
    assert(sextet(bytes, 4 * i) == (triple / 262144) % 64);
    assert(sextet(bytes, 4 * i + 1) == (triple / 4096) % 64);
    assert(sextet(bytes, 4 * i + 2) == (triple / 64) % 64);
    assert(sextet(bytes, 4 * i + 3) == (triple / 1) % 64);
    sextets_add_up(triple);
}

proof fn powers_of_64()
    ensures
        pow(64, 3) == 262144,
        pow(64, 2) == 4096,
        pow(64, 1) == 64,
        pow(64, 0) == 1,
{
    reveal(pow);
    assert(pow(64, 0) == 1);
    assert(pow(64, 1) == 64 * pow(64, 0));
    assert(pow(64, 2) == 64 * pow(64, 1));
    assert(pow(64, 3) == 64 * pow(64, 2));
}

proof fn sextets_add_up(t: int)
    requires
        0 <= t < 16777216,
    ensures
        (t / 262144) % 64 * 262144 + (t / 4096) % 64 * 4096 + (t / 64) % 64 * 64 + (t / 1) % 64
            == t,
{
}

/// A filter that asks nothing lets every track through.
pub proof fn open_filters_ask_nothing(f: TrackFilter)
    requires
        asks_nothing(f),
    ensures
        f.ids is None && f.search is None && f.album_id is None && f.artist_ids is None,
        f.title is None && f.artist_name is None && f.album_title is None && f.genre is None,
        f.codec is None && f.source is None && f.year_start is None && f.year_end is None,
        f.min_sample_rate is None && f.min_bit_depth is None && f.channels is None,
        f.min_duration_ms is None && f.max_duration_ms is None,
{
}

/// An image is typed by how it begins: as PNG, as JPEG, or as unknown.
pub proof fn images_are_typed_by_their_beginning(data: Seq<u8>)
    ensures
        image_type(data) == "image/png"@ <==> data.len() >= 4 && data[0] == 0x89 && data[1] == 0x50
            && data[2] == 0x4e && data[3] == 0x47,
        image_type(data) == "image/jpeg"@ <==> data.len() >= 2 && data[0] == 0xff && data[1]
            == 0xd8,
{
    reveal_strlit("image/png");
    reveal_strlit("image/jpeg");
    reveal_strlit("application/octet-stream");
    assert("image/png"@.len() == 9 && "image/jpeg"@.len() == 10
        && "application/octet-stream"@.len() == 24);
}

/// Each source has its own word.
pub proof fn sources_have_their_word(source: TrackSource)
    ensures
        source is Local ==> source.word() == "local"@,
        source is Remote ==> source.word() == "remote"@,
        source is Cached ==> source.word() == "cached"@,
{
}

} // verus!
