//! Artists and albums: which are asked for, and in what order.

use std::collections::{HashMap, HashSet};

use vstd::prelude::*;

use crate::graphql::pages::{album_year, page_end, page_start, paginate, shows, year_of, year_of_date, Conn};
use crate::lists::{filter_contains, filter_is_no_longer, filter_none, filter_step};
use crate::order::{
    ahead, at_places, compare_int, compare_opt, compare_text, ints_order, is_order, opts_order, or_else,
    or_else_orders, order_of, orders, orders_list_every_place, rank_int, rank_opt, rank_text, reversed_places,
    stable_order, stable_order_exists, text_lt, text_lt_is_total, texts_order, then_by, Comparison, Rank,
};
use crate::rows::{AlbumRow, ArtistRow};
use crate::text::{contains, contains_text, lowercase, opt_str, opt_text, texts_are_found_inside, to_lowercase};

verus! {

broadcast use vstd::std_specs::hash::group_hash_axioms;

// ---------------------------------------------------------------------------
// Common
// ---------------------------------------------------------------------------

/// Which way a list runs.
#[derive(Clone, Copy, Debug, PartialEq, Eq, Structural)]
pub enum SortDirection {
    Asc,
    Desc,
}

/// A list in an order, from its end where it is to run downwards.
pub open spec fn arranged<A>(s: Seq<A>, rank: Comparison, dir: SortDirection) -> Seq<A> {
    let sorted = at_places(s, order_of(rank, s.len() as int));
    if dir == SortDirection::Desc {
        sorted.reverse()
    } else {
        sorted
    }
}

/// Whether one text has another in it, whatever the case.
pub open spec fn mentions(text: Seq<char>, part: Seq<char>) -> bool {
    contains_text(lowercase(text), lowercase(part))
}

/// Whether a text that may be missing has another in it, whatever the case.
pub open spec fn opt_mentions(text: Option<Seq<char>>, part: Seq<char>) -> bool {
    match text {
        Some(t) => mentions(t, part),
        None => false,
    }
}

fn has_lowered(text: &str, lowered: &str) -> (r: bool)
    ensures
        r == contains_text(lowercase(text@), lowered@),
{
    contains(to_lowercase(text).as_str(), lowered)
}

fn opt_has_lowered(text: &Option<String>, lowered: &str) -> (r: bool)
    ensures
        r == match opt_text(*text) {
            Some(t) => contains_text(lowercase(t), lowered@),
            None => false,
        },
{
    match text {
        Some(t) => has_lowered(t.as_str(), lowered),
        None => false,
    }
}

fn lists_id(ids: &Vec<i64>, id: i64) -> (r: bool)
    ensures
        r == ids@.contains(id),
{
    let mut i: usize = 0;
    while i < ids.len()
        invariant
            i <= ids@.len(),
            forall|k: int| 0 <= k < i ==> ids@[k] != id,
        decreases ids@.len() - i,
    {
        if ids[i] == id {
            assert(ids@[i as int] == id);
            return true;
        }
        i = i + 1;
    }
    false
}

/// Whether some of a row's genres has the text in it, whatever the case.
pub open spec fn genre_matches(genres: Map<i64, Vec<String>>, id: i64, genre: Seq<char>) -> bool {
    genres.contains_key(id) && any_has(genres[id]@, lowercase(genre))
}

/// Whether some of the texts has another in it, once they are in lower case.
pub open spec fn any_has(list: Seq<String>, part: Seq<char>) -> bool {
    exists|i: int|
        0 <= i < list.len() && contains_text(lowercase(#[trigger] list[i]@), part)
}

fn genre_has(genres: &HashMap<i64, Vec<String>>, id: i64, lowered: &str) -> (r: bool)
    ensures
        r == (genres@.contains_key(id) && any_has(genres@[id]@, lowered@)),
{
    match genres.get(&id) {
        None => false,
        Some(list) => {
            let mut i: usize = 0;
            while i < list.len()
                invariant
                    i <= list@.len(),
                    genres@.contains_key(id),
                    *list == genres@[id],
                    forall|k: int|
                        0 <= k < i ==> !contains_text(
                            lowercase(#[trigger] list@[k]@),
                            lowered@,
                        ),
                decreases list@.len() - i,
            {
                if has_lowered(list[i].as_str(), lowered) {
                    assert(contains_text(lowercase(list@[i as int]@), lowered@));
                    return true;
                }
                i = i + 1;
            }
            false
        },
    }
}

fn lowered_opt(text: &Option<String>) -> (r: Option<String>)
    ensures
        opt_text(r) == match opt_text(*text) {
            Some(t) => Some(lowercase(t)),
            None => None,
        },
{
    match text {
        Some(t) => Some(to_lowercase(t.as_str())),
        None => None,
    }
}

fn rows_at<T: Clone>(rows: &Vec<T>, places: &Vec<usize>) -> (r: Vec<T>)
    requires
        forall|x: &T, y: T| #[trigger] call_ensures(T::clone, (x,), y) ==> y == *x,
        forall|i: int| 0 <= i < places@.len() ==> #[trigger] places@[i] < rows@.len(),
    ensures
        r@ == at_places(rows@, places@),
{
    let mut out: Vec<T> = Vec::new();
    let mut i: usize = 0;
    while i < places.len()
        invariant
            i <= places@.len(),
            out@ == at_places(rows@, places@).take(i as int),
            forall|x: &T, y: T| #[trigger] call_ensures(T::clone, (x,), y) ==> y == *x,
            forall|k: int| 0 <= k < places@.len() ==> #[trigger] places@[k] < rows@.len(),
        decreases places@.len() - i,
    {
        assert(places@[i as int] < rows@.len());
        out.push(rows[places[i]].clone());
        assert(at_places(rows@, places@).take(i as int).push(at_places(rows@, places@)[i as int])
            =~= at_places(rows@, places@).take(i as int + 1));
        i = i + 1;
    }
    assert(at_places(rows@, places@).take(i as int) =~= at_places(rows@, places@));
    out
}

/// The rows at places that are in order, from the end where that is asked.
fn arrange<T: Clone>(
    rows: &Vec<T>,
    places: Vec<usize>,
    dir: SortDirection,
    Ghost(rank): Ghost<Comparison>,
) -> (r: Vec<T>)
    requires
        forall|x: &T, y: T| #[trigger] call_ensures(T::clone, (x,), y) ==> y == *x,
        is_order(places@, rank, 0, rows@.len() as int),
        places@ == order_of(rank, rows@.len() as int),
    ensures
        r@ == arranged(rows@, rank, dir),
{
    let sorted = if dir == SortDirection::Desc {
        reversed_places(&places)
    } else {
        places
    };
    let out = rows_at(rows, &sorted);
    assert(out@ =~= arranged(rows@, rank, dir));
    out
}

proof fn arranging_keeps_all<A>(s: Seq<A>, rank: Comparison, dir: SortDirection, x: A)
    requires
        orders(rank, s.len() as int),
        s.len() <= usize::MAX,
    ensures
        arranged(s, rank, dir).contains(x) <==> s.contains(x),
{
    stable_order_exists(rank, s.len() as int);
    let p = order_of(rank, s.len() as int);
    let sorted = at_places(s, p);
    let out = arranged(s, rank, dir);
    if out.contains(x) {
        let i = choose|i: int| 0 <= i < out.len() && out[i] == x;
        let j = if dir == SortDirection::Desc {
            sorted.len() - 1 - i
        } else {
            i
        };
        assert(sorted[j] == x);
        assert(s[p[j] as int] == x);
    }
    if s.contains(x) {
        let k = choose|k: int| 0 <= k < s.len() && s[k] == x;
        orders_list_every_place(p, rank, s.len() as int, k);
        let j = choose|j: int| 0 <= j < p.len() && p[j] == k;
        assert(sorted[j] == x);
        let i = if dir == SortDirection::Desc {
            sorted.len() - 1 - j
        } else {
            j
        };
        assert(out[i] == x);
    }
}

// ---------------------------------------------------------------------------
// Artists
// ---------------------------------------------------------------------------

/// What artists are sorted by.
#[derive(Clone, Copy, Debug, PartialEq, Eq, Structural)]
pub enum ArtistSortField {
    Name,
    AlbumCount,
    TrackCount,
}

/// How much there is of an artist.
#[derive(Clone, Copy, Debug)]
pub struct ArtistStats {
    pub album_count: i64,
    pub track_count: i64,
}

/// Which artists are asked for, among those that were searched.
#[derive(Debug)]
pub struct ArtistFilter {
    pub ids: Option<Vec<i64>>,
    pub genre: Option<String>,
    pub favourites_only: bool,
}

/// What is known of artists and albums beside their rows.
#[derive(Debug)]
pub struct ArtistFacts {
    /// The genres of each artist.
    pub genres: HashMap<i64, Vec<String>>,
    pub favourites: HashSet<i64>,
    pub stats: HashMap<i64, ArtistStats>,
}

/// Whether an artist is asked for.
pub open spec fn artist_kept(a: ArtistRow, f: ArtistFilter, facts: ArtistFacts) -> bool {
    &&& f.ids is Some ==> f.ids->0@.contains(a.id)
    &&& f.genre is Some ==> genre_matches(facts.genres@, a.id, f.genre->0@)
    &&& f.favourites_only ==> facts.favourites@.contains(a.id)
}

/// The number that an artist is sorted by; none counts as zero.
pub open spec fn artist_count(
    stats: Map<i64, ArtistStats>,
    sort_by: ArtistSortField,
    id: i64,
) -> int {
    if !stats.contains_key(id) {
        0
    } else if sort_by == ArtistSortField::AlbumCount {
        stats[id].album_count as int
    } else {
        stats[id].track_count as int
    }
}

/// How two artists stand to each other.
pub open spec fn artist_rank(
    sort_by: ArtistSortField,
    artists: Seq<ArtistRow>,
    stats: Map<i64, ArtistStats>,
    a: int,
    b: int,
) -> Rank {
    let by_name = rank_text(artists[a].name@, artists[b].name@);
    if sort_by == ArtistSortField::Name {
        by_name
    } else {
        or_else(
            rank_int(
                artist_count(stats, sort_by, artists[a].id),
                artist_count(stats, sort_by, artists[b].id),
            ),
            by_name,
        )
    }
}

/// The comparison of artists.
pub open spec fn artist_comparison(
    sort_by: ArtistSortField,
    artists: Seq<ArtistRow>,
    stats: Map<i64, ArtistStats>,
) -> Comparison {
    |a: int, b: int| artist_rank(sort_by, artists, stats, a, b)
}

proof fn artists_order(
    sort_by: ArtistSortField,
    artists: Seq<ArtistRow>,
    stats: Map<i64, ArtistStats>,
)
    ensures
        orders(artist_comparison(sort_by, artists, stats), artists.len() as int),
{
    let n = artists.len() as int;
    let rank = artist_comparison(sort_by, artists, stats);
    let name = |i: int| artists[i].name@;
    let by_name = |a: int, b: int| rank_text(artists[a].name@, artists[b].name@);
    texts_order(name, by_name, n);
    if sort_by == ArtistSortField::Name {
        texts_order(name, rank, n);
    } else {
        let count = |i: int| artist_count(stats, sort_by, artists[i].id);
        let by_count = |a: int, b: int|
            rank_int(
                artist_count(stats, sort_by, artists[a].id),
                artist_count(stats, sort_by, artists[b].id),
            );
        ints_order(count, by_count, n);
        or_else_orders(by_count, by_name, rank, n);
    }
}

fn count_for(stats: &HashMap<i64, ArtistStats>, sort_by: ArtistSortField, id: i64) -> (r: i64)
    ensures
        r == artist_count(stats@, sort_by, id),
{
    match stats.get(&id) {
        None => 0,
        Some(s) => if sort_by == ArtistSortField::AlbumCount {
            s.album_count
        } else {
            s.track_count
        },
    }
}

fn compare_artists(
    sort_by: ArtistSortField,
    artists: &Vec<ArtistRow>,
    stats: &HashMap<i64, ArtistStats>,
    a: usize,
    b: usize,
) -> (r: Rank)
    requires
        a < artists@.len(),
        b < artists@.len(),
    ensures
        r == artist_rank(sort_by, artists@, stats@, a as int, b as int),
{
    let by_name = compare_text(artists[a].name.as_str(), artists[b].name.as_str());
    if sort_by == ArtistSortField::Name {
        by_name
    } else {
        then_by(
            compare_int(
                count_for(stats, sort_by, artists[a].id),
                count_for(stats, sort_by, artists[b].id),
            ),
            by_name,
        )
    }
}

/// The artists that are asked for.
pub open spec fn kept_artists(
    artists: Seq<ArtistRow>,
    f: ArtistFilter,
    facts: ArtistFacts,
) -> Seq<ArtistRow> {
    artists.filter(|a: ArtistRow| artist_kept(a, f, facts))
}

/// The artists that are asked for, in the order they came.
pub fn filter_artists(artists: &Vec<ArtistRow>, f: &ArtistFilter, facts: &ArtistFacts) -> (r: Vec<
    ArtistRow,
>)
    ensures
        r@ == kept_artists(artists@, *f, *facts),
{
    let ghost keep = |a: ArtistRow| artist_kept(a, *f, *facts);
    let genre = lowered_opt(&f.genre);
    let mut out: Vec<ArtistRow> = Vec::new();
    let mut i: usize = 0;
    proof {
        filter_none(artists@, keep);
    }
    while i < artists.len()
        invariant
            i <= artists@.len(),
            keep == (|a: ArtistRow| artist_kept(a, *f, *facts)),
            opt_text(genre) == match opt_text(f.genre) {
                Some(t) => Some(lowercase(t)),
                None => None,
            },
            out@ == artists@.take(i as int).filter(keep),
        decreases artists@.len() - i,
    {
        let a = &artists[i];
        let listed = match &f.ids {
            Some(ids) => lists_id(ids, a.id),
            None => true,
        };
        let matched = match &genre {
            Some(g) => genre_has(&facts.genres, a.id, g.as_str()),
            None => true,
        };
        let liked = !f.favourites_only || facts.favourites.contains(&a.id);
        proof {
            filter_step(artists@, i as int, keep);
        }
        if listed && matched && liked {
            out.push(a.clone());
        }
        i = i + 1;
    }
    assert(artists@.take(i as int) =~= artists@);
    out
}

/// The artists that are asked for, sorted.
pub open spec fn sorted_artists(
    artists: Seq<ArtistRow>,
    f: ArtistFilter,
    facts: ArtistFacts,
    sort_by: ArtistSortField,
    dir: SortDirection,
) -> Seq<ArtistRow> {
    let kept = kept_artists(artists, f, facts);
    arranged(kept, artist_comparison(sort_by, kept, facts.stats@), dir)
}

/// The artists that are asked for, sorted.
pub fn list_artists(
    artists: &Vec<ArtistRow>,
    f: &ArtistFilter,
    facts: &ArtistFacts,
    sort_by: ArtistSortField,
    dir: SortDirection,
) -> (r: Vec<ArtistRow>)
    ensures
        r@ == sorted_artists(artists@, *f, *facts, sort_by, dir),
{
    let kept = filter_artists(artists, f, facts);
    let stats = &facts.stats;
    let ghost rank = artist_comparison(sort_by, kept@, stats@);
    proof {
        artists_order(sort_by, kept@, stats@);
    }
    let compare = |a: usize, b: usize| -> (r: Rank)
        requires
            kept@.len() > a && kept@.len() > b,
        ensures
            r == artist_rank(sort_by, kept@, stats@, a as int, b as int),
        { compare_artists(sort_by, &kept, stats, a, b) };
    let places = stable_order(kept.len(), compare, Ghost(rank));
    arrange(&kept, places, dir, Ghost(rank))
}

/// A page of the artists that are asked for.
pub fn artists(
    rows: &Vec<ArtistRow>,
    f: &ArtistFilter,
    facts: &ArtistFacts,
    after: Option<&str>,
    first: Option<i32>,
    sort_by: ArtistSortField,
    dir: SortDirection,
) -> (r: Conn<ArtistRow>)
    ensures
        ({
            let all = sorted_artists(rows@, *f, *facts, sort_by, dir);
            shows(
                r,
                all,
                page_start(opt_str(after), all.len() as int),
                page_end(opt_str(after), first, all.len() as int),
            )
        }),
{
    paginate(list_artists(rows, f, facts, sort_by, dir), after, first)
}

/// A listing holds the artists that were read and are asked for, and no others.
pub proof fn artist_listings_hold_what_is_asked(
    rows: Seq<ArtistRow>,
    f: ArtistFilter,
    facts: ArtistFacts,
    sort_by: ArtistSortField,
    dir: SortDirection,
    x: ArtistRow,
)
    requires
        rows.len() <= usize::MAX,
    ensures
        sorted_artists(rows, f, facts, sort_by, dir).contains(x) <==> rows.contains(x)
            && artist_kept(x, f, facts),
{
    let keep = |a: ArtistRow| artist_kept(a, f, facts);
    let kept = kept_artists(rows, f, facts);
    filter_contains(rows, keep, x);
    filter_is_no_longer(rows, keep);
    artists_order(sort_by, kept, facts.stats@);
    arranging_keeps_all(kept, artist_comparison(sort_by, kept, facts.stats@), dir, x);
}

// ---------------------------------------------------------------------------
// Albums
// ---------------------------------------------------------------------------

/// What albums are sorted by.
#[derive(Clone, Copy, Debug, PartialEq, Eq, Structural)]
pub enum AlbumSortField {
    Title,
    Date,
    ArtistThenDate,
    TrackCount,
}

/// Which albums are read from the library.
#[derive(Debug)]
pub enum AlbumSource {
    OfArtist(i64),
    OfArtists(Vec<i64>),
    Found(String),
    Everything,
}

/// Which albums are read from the library: those of one artist, else those of some
/// artists, else those that a search finds, else all.
pub fn album_source(
    artist_id: Option<i64>,
    artist_ids: Option<Vec<i64>>,
    search: Option<&String>,
) -> (r: AlbumSource)
    ensures
        match r {
            AlbumSource::OfArtist(id) => artist_id == Some(id),
            AlbumSource::OfArtists(ids) => artist_id is None && artist_ids == Some(ids),
            AlbumSource::Found(q) => artist_id is None && artist_ids is None && search == Some(&q),
            AlbumSource::Everything => artist_id is None && artist_ids is None && search is None,
        },
{
    match (artist_id, artist_ids, search) {
        (Some(id), _, _) => AlbumSource::OfArtist(id),
        (None, Some(ids), _) => AlbumSource::OfArtists(ids),
        (None, None, Some(q)) => AlbumSource::Found(q.clone()),
        (None, None, None) => AlbumSource::Everything,
    }
}

/// Which albums are asked for, among those that were read.
#[derive(Debug)]
pub struct AlbumFilter {
    pub ids: Option<Vec<i64>>,
    pub search: Option<String>,
    pub title: Option<String>,
    pub year_start: Option<i32>,
    pub year_end: Option<i32>,
    pub codec: Option<String>,
    pub label: Option<String>,
    pub genre: Option<String>,
    pub favourites_only: bool,
}

/// What is known of albums beside their rows.
#[derive(Debug)]
pub struct AlbumFacts {
    /// The genres of each album.
    pub genres: HashMap<i64, Vec<String>>,
    pub favourites: HashSet<i64>,
    pub track_counts: HashMap<i64, i64>,
}

/// Whether the text that is asked for is in the album's title or its artist's name.
pub open spec fn album_found(a: AlbumRow, query: Seq<char>) -> bool {
    mentions(a.title@, query) || mentions(a.artist_name@, query)
}

/// Whether an album's own row passes.
pub open spec fn album_row_kept(a: AlbumRow, f: AlbumFilter) -> bool {
    &&& f.ids is Some ==> f.ids->0@.contains(a.id)
    &&& f.search is Some ==> album_found(a, f.search->0@)
    &&& f.title is Some ==> mentions(a.title@, f.title->0@)
    &&& f.year_start is Some ==> year_of(a) is Some && year_of(a)->0 >= f.year_start->0
    &&& f.year_end is Some ==> year_of(a) is Some && year_of(a)->0 <= f.year_end->0
    &&& f.codec is Some ==> opt_mentions(opt_text(a.codec), f.codec->0@)
    &&& f.label is Some ==> opt_mentions(opt_text(a.label), f.label->0@)
}

/// Whether an album is asked for.
pub open spec fn album_kept(a: AlbumRow, f: AlbumFilter, facts: AlbumFacts) -> bool {
    &&& album_row_kept(a, f)
    &&& f.genre is Some ==> genre_matches(facts.genres@, a.id, f.genre->0@)
    &&& f.favourites_only ==> facts.favourites@.contains(a.id)
}

/// The number of an album's tracks; none known counts as zero.
pub open spec fn tracks_counted(counts: Map<i64, i64>, id: i64) -> int {
    if counts.contains_key(id) {
        counts[id] as int
    } else {
        0
    }
}

/// How two albums stand to each other.
pub open spec fn album_rank(
    sort_by: AlbumSortField,
    albums: Seq<AlbumRow>,
    counts: Map<i64, i64>,
    a: int,
    b: int,
) -> Rank {
    let by_title = rank_text(albums[a].title@, albums[b].title@);
    let by_date = or_else(rank_opt(opt_text(albums[a].date), opt_text(albums[b].date)), by_title);
    match sort_by {
        AlbumSortField::Title => by_title,
        AlbumSortField::Date => by_date,
        AlbumSortField::ArtistThenDate => or_else(
            rank_text(albums[a].artist_name@, albums[b].artist_name@),
            by_date,
        ),
        AlbumSortField::TrackCount => or_else(
            rank_int(tracks_counted(counts, albums[a].id), tracks_counted(counts, albums[b].id)),
            by_title,
        ),
    }
}

/// The comparison of albums.
pub open spec fn album_comparison(
    sort_by: AlbumSortField,
    albums: Seq<AlbumRow>,
    counts: Map<i64, i64>,
) -> Comparison {
    |a: int, b: int| album_rank(sort_by, albums, counts, a, b)
}

proof fn albums_order(sort_by: AlbumSortField, albums: Seq<AlbumRow>, counts: Map<i64, i64>)
    ensures
        orders(album_comparison(sort_by, albums, counts), albums.len() as int),
{
    let n = albums.len() as int;
    let rank = album_comparison(sort_by, albums, counts);
    let by_title = |a: int, b: int| rank_text(albums[a].title@, albums[b].title@);
    let only_date = |a: int, b: int| rank_opt(opt_text(albums[a].date), opt_text(albums[b].date));
    let by_date = |a: int, b: int|
        or_else(
            rank_opt(opt_text(albums[a].date), opt_text(albums[b].date)),
            rank_text(albums[a].title@, albums[b].title@),
        );
    texts_order(|i: int| albums[i].title@, by_title, n);
    opts_order(|i: int| opt_text(albums[i].date), only_date, n);
    or_else_orders(only_date, by_title, by_date, n);
    match sort_by {
        AlbumSortField::Title => {
            texts_order(|i: int| albums[i].title@, rank, n);
        },
        AlbumSortField::Date => {
            or_else_orders(only_date, by_title, rank, n);
        },
        AlbumSortField::ArtistThenDate => {
            let by_artist = |a: int, b: int|
                rank_text(albums[a].artist_name@, albums[b].artist_name@);
            texts_order(|i: int| albums[i].artist_name@, by_artist, n);
            or_else_orders(by_artist, by_date, rank, n);
        },
        AlbumSortField::TrackCount => {
            let by_count = |a: int, b: int|
                rank_int(
                    tracks_counted(counts, albums[a].id),
                    tracks_counted(counts, albums[b].id),
                );
            ints_order(|i: int| tracks_counted(counts, albums[i].id), by_count, n);
            or_else_orders(by_count, by_title, rank, n);
        },
    }
}

fn tracks_for(counts: &HashMap<i64, i64>, id: i64) -> (r: i64)
    ensures
        r == tracks_counted(counts@, id),
{
    match counts.get(&id) {
        Some(n) => *n,
        None => 0,
    }
}

fn compare_albums(
    sort_by: AlbumSortField,
    albums: &Vec<AlbumRow>,
    counts: &HashMap<i64, i64>,
    a: usize,
    b: usize,
) -> (r: Rank)
    requires
        a < albums@.len(),
        b < albums@.len(),
    ensures
        r == album_rank(sort_by, albums@, counts@, a as int, b as int),
{
    let x = &albums[a];
    let y = &albums[b];
    let by_title = compare_text(x.title.as_str(), y.title.as_str());
    match sort_by {
        AlbumSortField::Title => by_title,
        AlbumSortField::Date => then_by(compare_opt(&x.date, &y.date), by_title),
        AlbumSortField::ArtistThenDate => then_by(
            compare_text(x.artist_name.as_str(), y.artist_name.as_str()),
            then_by(compare_opt(&x.date, &y.date), by_title),
        ),
        AlbumSortField::TrackCount => then_by(
            compare_int(tracks_for(counts, x.id), tracks_for(counts, y.id)),
            by_title,
        ),
    }
}

/// What a filter asks of texts, in lower case.
struct LoweredFilter {
    search: Option<String>,
    title: Option<String>,
    codec: Option<String>,
    label: Option<String>,
    genre: Option<String>,
}

/// An optional text in lower case.
pub open spec fn lowered(text: Option<Seq<char>>) -> Option<Seq<char>> {
    match text {
        Some(t) => Some(lowercase(t)),
        None => None,
    }
}

closed spec fn lowers(l: LoweredFilter, f: AlbumFilter) -> bool {
    &&& opt_text(l.search) == lowered(opt_text(f.search))
    &&& opt_text(l.title) == lowered(opt_text(f.title))
    &&& opt_text(l.codec) == lowered(opt_text(f.codec))
    &&& opt_text(l.label) == lowered(opt_text(f.label))
    &&& opt_text(l.genre) == lowered(opt_text(f.genre))
}

fn album_row_passes(a: &AlbumRow, f: &AlbumFilter, l: &LoweredFilter) -> (r: bool)
    requires
        lowers(*l, *f),
    ensures
        r == album_row_kept(*a, *f),
{
    if let Some(ids) = &f.ids {
        if !lists_id(ids, a.id) {
            return false;
        }
    }
    if let Some(q) = &l.search {
        if !has_lowered(a.title.as_str(), q.as_str()) && !has_lowered(
            a.artist_name.as_str(),
            q.as_str(),
        ) {
            return false;
        }
    }
    if let Some(t) = &l.title {
        if !has_lowered(a.title.as_str(), t.as_str()) {
            return false;
        }
    }
    if let Some(from) = f.year_start {
        match album_year(a) {
            Some(y) => if y < from {
                return false;
            },
            None => {
                return false;
            },
        }
    }
    if let Some(to) = f.year_end {
        match album_year(a) {
            Some(y) => if y > to {
                return false;
            },
            None => {
                return false;
            },
        }
    }
    if let Some(c) = &l.codec {
        if !opt_has_lowered(&a.codec, c.as_str()) {
            return false;
        }
    }
    if let Some(text) = &l.label {
        if !opt_has_lowered(&a.label, text.as_str()) {
            return false;
        }
    }
    true
}

/// The albums that are asked for.
pub open spec fn kept_albums(
    albums: Seq<AlbumRow>,
    f: AlbumFilter,
    facts: AlbumFacts,
) -> Seq<AlbumRow> {
    albums.filter(|a: AlbumRow| album_kept(a, f, facts))
}

/// The albums that are asked for, in the order they came.
pub fn filter_albums(albums: &Vec<AlbumRow>, f: &AlbumFilter, facts: &AlbumFacts) -> (r: Vec<
    AlbumRow,
>)
    ensures
        r@ == kept_albums(albums@, *f, *facts),
{
    let ghost keep = |a: AlbumRow| album_kept(a, *f, *facts);
    let low = LoweredFilter {
        search: lowered_opt(&f.search),
        title: lowered_opt(&f.title),
        codec: lowered_opt(&f.codec),
        label: lowered_opt(&f.label),
        genre: lowered_opt(&f.genre),
    };
    let mut out: Vec<AlbumRow> = Vec::new();
    let mut i: usize = 0;
    proof {
        filter_none(albums@, keep);
    }
    while i < albums.len()
        invariant
            i <= albums@.len(),
            keep == (|a: AlbumRow| album_kept(a, *f, *facts)),
            lowers(low, *f),
            out@ == albums@.take(i as int).filter(keep),
        decreases albums@.len() - i,
    {
        let a = &albums[i];
        let passes = album_row_passes(a, f, &low);
        let matched = match &low.genre {
            Some(g) => genre_has(&facts.genres, a.id, g.as_str()),
            None => true,
        };
        let liked = !f.favourites_only || facts.favourites.contains(&a.id);
        proof {
            filter_step(albums@, i as int, keep);
        }
        if passes && matched && liked {
            out.push(a.clone());
        }
        i = i + 1;
    }
    assert(albums@.take(i as int) =~= albums@);
    out
}

/// The albums that are asked for, sorted.
pub open spec fn sorted_albums(
    albums: Seq<AlbumRow>,
    f: AlbumFilter,
    facts: AlbumFacts,
    sort_by: AlbumSortField,
    dir: SortDirection,
) -> Seq<AlbumRow> {
    let kept = kept_albums(albums, f, facts);
    arranged(kept, album_comparison(sort_by, kept, facts.track_counts@), dir)
}

/// The albums that are asked for, sorted.
pub fn list_albums(
    albums: &Vec<AlbumRow>,
    f: &AlbumFilter,
    facts: &AlbumFacts,
    sort_by: AlbumSortField,
    dir: SortDirection,
) -> (r: Vec<AlbumRow>)
    ensures
        r@ == sorted_albums(albums@, *f, *facts, sort_by, dir),
{
    let kept = filter_albums(albums, f, facts);
    let counts = &facts.track_counts;
    let ghost rank = album_comparison(sort_by, kept@, counts@);
    proof {
        albums_order(sort_by, kept@, counts@);
    }
    let compare = |a: usize, b: usize| -> (r: Rank)
        requires
            kept@.len() > a && kept@.len() > b,
        ensures
            r == album_rank(sort_by, kept@, counts@, a as int, b as int),
        { compare_albums(sort_by, &kept, counts, a, b) };
    let places = stable_order(kept.len(), compare, Ghost(rank));
    arrange(&kept, places, dir, Ghost(rank))
}

/// A page of the albums that are asked for.
pub fn albums(
    rows: &Vec<AlbumRow>,
    f: &AlbumFilter,
    facts: &AlbumFacts,
    after: Option<&str>,
    first: Option<i32>,
    sort_by: AlbumSortField,
    dir: SortDirection,
) -> (r: Conn<AlbumRow>)
    ensures
        ({
            let all = sorted_albums(rows@, *f, *facts, sort_by, dir);
            shows(
                r,
                all,
                page_start(opt_str(after), all.len() as int),
                page_end(opt_str(after), first, all.len() as int),
            )
        }),
{
    paginate(list_albums(rows, f, facts, sort_by, dir), after, first)
}

/// A listing holds the albums that were read and are asked for, and no others.
pub proof fn album_listings_hold_what_is_asked(
    rows: Seq<AlbumRow>,
    f: AlbumFilter,
    facts: AlbumFacts,
    sort_by: AlbumSortField,
    dir: SortDirection,
    x: AlbumRow,
)
    requires
        rows.len() <= usize::MAX,
    ensures
        sorted_albums(rows, f, facts, sort_by, dir).contains(x) <==> rows.contains(x)
            && album_kept(x, f, facts),
{
    let keep = |a: AlbumRow| album_kept(a, f, facts);
    let kept = kept_albums(rows, f, facts);
    filter_contains(rows, keep, x);
    filter_is_no_longer(rows, keep);
    albums_order(sort_by, kept, facts.track_counts@);
    arranging_keeps_all(kept, album_comparison(sort_by, kept, facts.track_counts@), dir, x);
}

/// No album of a listing that runs upwards comes before the one it follows, and one that
/// runs downwards is the same list from its end.
pub proof fn album_listings_are_in_order(
    rows: Seq<AlbumRow>,
    f: AlbumFilter,
    facts: AlbumFacts,
    sort_by: AlbumSortField,
    i: int,
    j: int,
)
    requires
        rows.len() <= usize::MAX,
        0 <= i < j < sorted_albums(rows, f, facts, sort_by, SortDirection::Asc).len(),
    ensures
        ({
            let up = sorted_albums(rows, f, facts, sort_by, SortDirection::Asc);
            &&& album_rank(sort_by, up, facts.track_counts@, i, j) != Rank::More
            &&& sorted_albums(rows, f, facts, sort_by, SortDirection::Desc) == up.reverse()
        }),
{
    let keep = |a: AlbumRow| album_kept(a, f, facts);
    let kept = kept_albums(rows, f, facts);
    filter_is_no_longer(rows, keep);
    let rank = album_comparison(sort_by, kept, facts.track_counts@);
    albums_order(sort_by, kept, facts.track_counts@);
    stable_order_exists(rank, kept.len() as int);
    let p = order_of(rank, kept.len() as int);
    assert(ahead(rank, p[i] as int, p[j] as int));
}

// ---------------------------------------------------------------------------
// What the filters and the orders mean
// ---------------------------------------------------------------------------

/// Whether a text has another somewhere in it, both in lower case.
pub open spec fn stands_in(text: Seq<char>, part: Seq<char>) -> bool {
    exists|a: Seq<char>, c: Seq<char>| lowercase(text) == #[trigger] (a + lowercase(part) + c)
}

/// Each part of a filter asks about its own field: an album is listed if and only if it was
/// read and its id, its title or artist, its title, its year, its codec, its label, its
/// genres and its being a favourite are as each part that is given asks.
pub proof fn album_filters_ask_their_own_field(
    rows: Seq<AlbumRow>,
    f: AlbumFilter,
    facts: AlbumFacts,
    sort_by: AlbumSortField,
    dir: SortDirection,
    x: AlbumRow,
)
    requires
        rows.len() <= usize::MAX,
    ensures
        sorted_albums(rows, f, facts, sort_by, dir).contains(x) <==> {
            &&& rows.contains(x)
            &&& f.ids is None || exists|i: int|
                0 <= i < f.ids->0@.len() && #[trigger] f.ids->0@[i] == x.id
            &&& f.search is None || stands_in(x.title@, f.search->0@) || stands_in(
                x.artist_name@,
                f.search->0@,
            )
            &&& f.title is None || stands_in(x.title@, f.title->0@)
            &&& f.year_start is None || (x.date is Some && year_of_date(x.date->0@) is Some
                && f.year_start->0 <= year_of_date(x.date->0@)->0)
            &&& f.year_end is None || (x.date is Some && year_of_date(x.date->0@) is Some
                && year_of_date(x.date->0@)->0 <= f.year_end->0)
            &&& f.codec is None || (x.codec is Some && stands_in(x.codec->0@, f.codec->0@))
            &&& f.label is None || (x.label is Some && stands_in(x.label->0@, f.label->0@))
            &&& f.genre is None || (facts.genres@.contains_key(x.id) && exists|i: int|
                0 <= i < facts.genres@[x.id]@.len() && stands_in(
                    (#[trigger] facts.genres@[x.id]@[i])@,
                    f.genre->0@,
                ))
            &&& !f.favourites_only || facts.favourites@.contains(x.id)
        },
{
    album_listings_hold_what_is_asked(rows, f, facts, sort_by, dir, x);
    if f.search is Some {
        texts_are_found_inside(lowercase(x.title@), lowercase(f.search->0@));
        texts_are_found_inside(lowercase(x.artist_name@), lowercase(f.search->0@));
    }
    if f.title is Some {
        texts_are_found_inside(lowercase(x.title@), lowercase(f.title->0@));
    }
    if f.codec is Some && x.codec is Some {
        texts_are_found_inside(lowercase(x.codec->0@), lowercase(f.codec->0@));
    }
    if f.label is Some && x.label is Some {
        texts_are_found_inside(lowercase(x.label->0@), lowercase(f.label->0@));
    }
    if f.genre is Some && facts.genres@.contains_key(x.id) {
        genres_are_found(facts.genres@[x.id]@, f.genre->0@);
    }
}

proof fn genres_are_found(list: Seq<String>, genre: Seq<char>)
    ensures
        any_has(list, lowercase(genre)) <==> exists|i: int|
            0 <= i < list.len() && stands_in((#[trigger] list[i])@, genre),
{
    assert forall|i: int| 0 <= i < list.len() implies stands_in((#[trigger] list[i])@, genre)
        == contains_text(lowercase(list[i]@), lowercase(genre)) by {
        texts_are_found_inside(lowercase(list[i]@), lowercase(genre));
    }
    if any_has(list, lowercase(genre)) {
        let i = choose|i: int|
            0 <= i < list.len() && contains_text(lowercase(#[trigger] list[i]@), lowercase(genre));
        assert(stands_in(list[i]@, genre));
    }
    if exists|i: int| 0 <= i < list.len() && stands_in((#[trigger] list[i])@, genre) {
        let i = choose|i: int| 0 <= i < list.len() && stands_in((#[trigger] list[i])@, genre);
        assert(contains_text(lowercase(list[i]@), lowercase(genre)));
    }
}

/// Each part of a filter asks about its own field: an artist is listed if and only if it was
/// read and its id, its genres and its being a favourite are as each part that is given asks.
pub proof fn artist_filters_ask_their_own_field(
    rows: Seq<ArtistRow>,
    f: ArtistFilter,
    facts: ArtistFacts,
    sort_by: ArtistSortField,
    dir: SortDirection,
    x: ArtistRow,
)
    requires
        rows.len() <= usize::MAX,
    ensures
        sorted_artists(rows, f, facts, sort_by, dir).contains(x) <==> {
            &&& rows.contains(x)
            &&& f.ids is None || exists|i: int|
                0 <= i < f.ids->0@.len() && #[trigger] f.ids->0@[i] == x.id
            &&& f.genre is None || (facts.genres@.contains_key(x.id) && exists|i: int|
                0 <= i < facts.genres@[x.id]@.len() && stands_in(
                    (#[trigger] facts.genres@[x.id]@[i])@,
                    f.genre->0@,
                ))
            &&& !f.favourites_only || facts.favourites@.contains(x.id)
        },
{
    artist_listings_hold_what_is_asked(rows, f, facts, sort_by, dir, x);
    if f.genre is Some && facts.genres@.contains_key(x.id) {
        genres_are_found(facts.genres@[x.id]@, f.genre->0@);
    }
}

/// Whether one optional text comes before another; none comes first.
pub open spec fn comes_before(a: Option<String>, b: Option<String>) -> bool {
    match (a, b) {
        (None, Some(_)) => true,
        (Some(x), Some(y)) => text_lt(x@, y@),
        _ => false,
    }
}

/// Of two albums of a listing that runs upwards, the second does not come before the first:
/// not by its title where that is asked for, nor by date, artist or number of tracks, and by
/// the title only where those are the same.
pub proof fn albums_come_in_order(
    rows: Seq<AlbumRow>,
    f: AlbumFilter,
    facts: AlbumFacts,
    sort_by: AlbumSortField,
    i: int,
    j: int,
)
    requires
        rows.len() <= usize::MAX,
        0 <= i < j < sorted_albums(rows, f, facts, sort_by, SortDirection::Asc).len(),
    ensures
        ({
            let up = sorted_albums(rows, f, facts, sort_by, SortDirection::Asc);
            let counts = facts.track_counts@;
            let of = |a: AlbumRow|
                if counts.contains_key(a.id) {
                    counts[a.id] as int
                } else {
                    0
                };
            let same_title = !text_lt(up[j].title@, up[i].title@);
            let same_date = !comes_before(up[j].date, up[i].date) && (opt_text(up[i].date)
                == opt_text(up[j].date) ==> same_title);
            match sort_by {
                AlbumSortField::Title => same_title,
                AlbumSortField::Date => same_date,
                AlbumSortField::ArtistThenDate => {
                    &&& !text_lt(up[j].artist_name@, up[i].artist_name@)
                    &&& up[i].artist_name@ == up[j].artist_name@ ==> same_date
                },
                AlbumSortField::TrackCount => {
                    &&& of(up[i]) <= of(up[j])
                    &&& of(up[i]) == of(up[j]) ==> same_title
                },
            }
        }),
{
    album_listings_are_in_order(rows, f, facts, sort_by, i, j);
    let up = sorted_albums(rows, f, facts, sort_by, SortDirection::Asc);
    text_lt_is_total(up[i].title@, up[j].title@);
    text_lt_is_total(up[i].artist_name@, up[j].artist_name@);
    if up[i].date is Some && up[j].date is Some {
        text_lt_is_total(up[i].date->0@, up[j].date->0@);
    }
}

/// Of two artists of a listing that runs upwards, the second does not come before the first,
/// by name or by number of albums or tracks; one that runs downwards is the same list from
/// its end.
pub proof fn artists_come_in_order(
    rows: Seq<ArtistRow>,
    f: ArtistFilter,
    facts: ArtistFacts,
    sort_by: ArtistSortField,
    i: int,
    j: int,
)
    requires
        rows.len() <= usize::MAX,
        0 <= i < j < sorted_artists(rows, f, facts, sort_by, SortDirection::Asc).len(),
    ensures
        ({
            let up = sorted_artists(rows, f, facts, sort_by, SortDirection::Asc);
            let stats = facts.stats@;
            let albums = |a: ArtistRow|
                if stats.contains_key(a.id) {
                    stats[a.id].album_count as int
                } else {
                    0
                };
            let tracks = |a: ArtistRow|
                if stats.contains_key(a.id) {
                    stats[a.id].track_count as int
                } else {
                    0
                };
            let in_name = !text_lt(up[j].name@, up[i].name@);
            &&& sorted_artists(rows, f, facts, sort_by, SortDirection::Desc) == up.reverse()
            &&& match sort_by {
                ArtistSortField::Name => in_name,
                ArtistSortField::AlbumCount => albums(up[i]) <= albums(up[j]) && (albums(up[i])
                    == albums(up[j]) ==> in_name),
                ArtistSortField::TrackCount => tracks(up[i]) <= tracks(up[j]) && (tracks(up[i])
                    == tracks(up[j]) ==> in_name),
            }
        }),
{
    let keep = |a: ArtistRow| artist_kept(a, f, facts);
    let kept = kept_artists(rows, f, facts);
    filter_is_no_longer(rows, keep);
    let rank = artist_comparison(sort_by, kept, facts.stats@);
    artists_order(sort_by, kept, facts.stats@);
    stable_order_exists(rank, kept.len() as int);
    let p = order_of(rank, kept.len() as int);
    assert(ahead(rank, p[i] as int, p[j] as int));
    let up = sorted_artists(rows, f, facts, sort_by, SortDirection::Asc);
    text_lt_is_total(up[i].name@, up[j].name@);
}

/// A listing holds as many albums as pass, each as often as it was read: sorting neither
/// drops nor repeats any.
pub proof fn listings_are_complete(
    rows: Seq<AlbumRow>,
    f: AlbumFilter,
    facts: AlbumFacts,
    sort_by: AlbumSortField,
    dir: SortDirection,
)
    requires
        rows.len() <= usize::MAX,
        f.ids is None,
        f.search is None,
        f.title is None,
        f.year_start is None,
        f.year_end is None,
        f.codec is None,
        f.label is None,
        f.genre is None,
        !f.favourites_only,
    ensures
        sorted_albums(rows, f, facts, sort_by, dir).len() == rows.len(),
{
    let keep = |a: AlbumRow| album_kept(a, f, facts);
    all_pass(rows, keep);
    let kept = kept_albums(rows, f, facts);
    albums_order(sort_by, kept, facts.track_counts@);
    stable_order_exists(
        album_comparison(sort_by, kept, facts.track_counts@),
        kept.len() as int,
    );
}

proof fn all_pass<A>(s: Seq<A>, keep: spec_fn(A) -> bool)
    requires
        forall|i: int| 0 <= i < s.len() ==> keep(#[trigger] s[i]),
    ensures
        s.filter(keep) == s,
    decreases s.len(),
{
    reveal(Seq::filter);
    if s.len() > 0 {
        all_pass(s.drop_last(), keep);
        assert(keep(s[s.len() - 1]));
        assert(s.drop_last().push(s.last()) =~= s);
    } else {
        assert(s.filter(keep) =~= s);
    }
}

} // verus!
