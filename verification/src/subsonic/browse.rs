//! Browsing: directories, artists, albums and lists of albums.

use vstd::prelude::*;

use crate::lists::take_push;
use crate::order::{
    ahead, at_places, compare_opt, compare_text, compare_u64, flipped, flipped_orders, ints_order,
    is_order, opts_order, or_else, or_else_orders, order_of, orders, rank_int, rank_opt, rank_text,
    stable_order, stable_order_exists, text_lt, text_lt_is_total, texts_order, then_by, Comparison,
    Rank,
};
use crate::rows::{AlbumRow, ArtistRow, TrackRow};
use crate::subsonic::document::{element, node_view, NodeView, XmlNode};
use crate::subsonic::errors::{SubsonicError, SubsonicErrorCode};
use crate::subsonic::ids::{entity_id, typed_id, EntityKind};
use crate::subsonic::nodes::{
    album_child_node, album_child_view, album_to_xml_node, album_view, album_views, track_node,
    track_view, track_views, with_albums, with_tracks,
};
use crate::text::{as_i32, decimal_int, decimal_of_int, opt_str, opt_text, same, wrapped_i32};
use crate::tui::screen::min_int;

verus! {

broadcast use crate::lists::group_lists;

// ---------------------------------------------------------------------------
// Directories
// ---------------------------------------------------------------------------

/// Where the artist with an id is among artists; behind them if there is none.
pub open spec fn artist_place(artists: Seq<ArtistRow>, id: i64) -> int
    decreases artists.len(),
{
    if artists.len() == 0 || artists[0].id == id {
        0
    } else {
        1 + artist_place(artists.skip(1), id)
    }
}

/// The artist with an id.
pub open spec fn artist_with(artists: Seq<ArtistRow>, id: i64) -> Option<ArtistRow> {
    if artist_place(artists, id) < artists.len() {
        Some(artists[artist_place(artists, id)])
    } else {
        None
    }
}

/// The artist with an id.
pub fn find_artist(artists: &Vec<ArtistRow>, id: i64) -> (r: Option<ArtistRow>)
    ensures
        r == artist_with(artists@, id),
        r is Some ==> r->0.id == id,
{
    let mut i: usize = 0;
    assert(artists@.skip(0) =~= artists@);
    while i < artists.len()
        invariant
            i <= artists@.len(),
            artist_place(artists@, id) == i + artist_place(artists@.skip(i as int), id),
        decreases artists@.len() - i,
    {
        if artists[i].id == id {
            return Some(artists[i].clone());
        }
        assert(artists@.skip(i as int).skip(1) =~= artists@.skip(i as int + 1));
        i = i + 1;
    }
    None
}

/// Whose directory an id names: an artist's, where there is such an artist and the
/// id is not said to be an album's, else an album's.
pub open spec fn directory_of(
    kind: Option<EntityKind>,
    id: i64,
    artists: Seq<ArtistRow>,
) -> Option<ArtistRow> {
    if kind == Some(EntityKind::Album) {
        None
    } else {
        artist_with(artists, id)
    }
}

/// The artist whose directory an id names; `None` if it names an album's.
pub fn directory_artist(kind: Option<EntityKind>, id: i64, artists: &Vec<ArtistRow>) -> (r: Option<
    ArtistRow,
>)
    ensures
        r == directory_of(kind, id, artists@),
{
    match kind {
        Some(EntityKind::Album) => None,
        _ => find_artist(artists, id),
    }
}

/// An artist's directory: the albums.
pub open spec fn artist_directory_view(a: ArtistRow, albums: Seq<AlbumRow>) -> NodeView {
    element("directory"@).attr("id"@, typed_id(EntityKind::Artist, a.id as int)).attr(
        "name"@,
        a.name@,
    ).array_of("child"@).with_children(albums.map_values(|x: AlbumRow| album_child_view(x)))
}

/// An album's directory: the tracks.
pub open spec fn album_directory_view(a: AlbumRow, tracks: Seq<TrackRow>) -> NodeView {
    element("directory"@).attr("id"@, typed_id(EntityKind::Album, a.id as int)).attr(
        "parent"@,
        typed_id(EntityKind::Artist, a.artist_id as int),
    ).attr("name"@, a.title@).array_of("child"@).with_children(track_views(tracks, "child"@))
}

/// An artist's directory.
pub fn artist_directory(artist: &ArtistRow, albums: &Vec<AlbumRow>) -> (r: XmlNode)
    ensures
        node_view(r) == artist_directory_view(*artist, albums@),
{
    let mut node = XmlNode::new("directory").attr(
        "id",
        entity_id(EntityKind::Artist, artist.id).as_str(),
    ).attr("name", artist.name.as_str()).array_of("child");
    let ghost start = node_view(node);
    let ghost all = albums@.map_values(|x: AlbumRow| album_child_view(x));
    let mut i: usize = 0;
    assert(start.children + all.take(0) =~= start.children);
    while i < albums.len()
        invariant
            i <= albums@.len(),
            all == albums@.map_values(|x: AlbumRow| album_child_view(x)),
            node_view(node) == start.with_children(all.take(i as int)),
        decreases albums@.len() - i,
    {
        node = node.child(album_child_node(&albums[i]));
        proof {
            take_push(all, i as int);
            assert((start.children + all.take(i as int)).push(all[i as int]) =~= start.children
                + all.take(i as int + 1));
        }
        i = i + 1;
    }
    assert(all.take(i as int) =~= all);
    node
}

/// Whether a failure says that something was not found.
pub open spec fn not_found_error(e: SubsonicError, what: Seq<char>) -> bool {
    e.says(SubsonicErrorCode::NotFound, what + " not found"@)
}

/// An album's directory, if there is such an album.
pub fn album_directory(album: Option<&AlbumRow>, tracks: &Vec<TrackRow>) -> (r: Result<
    XmlNode,
    SubsonicError,
>)
    ensures
        match (album, r) {
            (Some(a), Ok(node)) => node_view(node) == album_directory_view(*a, tracks@),
            (None, Err(e)) => not_found_error(e, "Directory"@),
            _ => false,
        },
{
    match album {
        Some(a) => {
            let node = XmlNode::new("directory").attr(
                "id",
                entity_id(EntityKind::Album, a.id).as_str(),
            ).attr("parent", entity_id(EntityKind::Artist, a.artist_id).as_str()).attr(
                "name",
                a.title.as_str(),
            ).array_of("child");
            Ok(with_tracks(node, tracks, "child"))
        },
        None => Err(SubsonicError::not_found("Directory")),
    }
}

// ---------------------------------------------------------------------------
// Artists, albums and songs
// ---------------------------------------------------------------------------

/// An artist with the albums.
pub open spec fn artist_albums_view(a: ArtistRow, albums: Seq<AlbumRow>) -> NodeView {
    element("artist"@).attr("id"@, decimal_int(a.id as int)).attr("name"@, a.name@).attr(
        "coverArt"@,
        typed_id(EntityKind::Artist, a.id as int),
    ).attr_int("albumCount"@, albums.len() as int).array_of("album"@).with_children(
        album_views(albums),
    )
}

/// An artist with the albums, if there is such an artist.
pub fn get_artist(artists: &Vec<ArtistRow>, id: i64, albums: &Vec<AlbumRow>) -> (r: Result<
    XmlNode,
    SubsonicError,
>)
    requires
        albums@.len() <= i64::MAX,
    ensures
        match (artist_with(artists@, id), r) {
            (Some(a), Ok(node)) => node_view(node) == artist_albums_view(a, albums@),
            (None, Err(e)) => not_found_error(e, "Artist"@),
            _ => false,
        },
{
    match find_artist(artists, id) {
        Some(a) => {
            let node = XmlNode::new("artist").attr("id", decimal_of_int(a.id).as_str()).attr(
                "name",
                a.name.as_str(),
            ).attr("coverArt", entity_id(EntityKind::Artist, a.id).as_str()).attr_int(
                "albumCount",
                albums.len() as i64,
            ).array_of("album");
            Ok(with_albums(node, albums))
        },
        None => Err(SubsonicError::not_found("Artist")),
    }
}

/// An album with its tracks.
pub open spec fn album_songs_view(a: AlbumRow, tracks: Seq<TrackRow>) -> NodeView {
    album_view(a, as_i32(tracks.len() as int)).array_of("song"@).with_children(
        track_views(tracks, "song"@),
    )
}

/// An album with its tracks, if there is such an album.
pub fn get_album(album: Option<&AlbumRow>, tracks: &Vec<TrackRow>) -> (r: Result<
    XmlNode,
    SubsonicError,
>)
    ensures
        match (album, r) {
            (Some(a), Ok(node)) => node_view(node) == album_songs_view(*a, tracks@),
            (None, Err(e)) => not_found_error(e, "Album"@),
            _ => false,
        },
{
    match album {
        Some(a) => {
            let node = album_to_xml_node(a, Some(wrapped_i32(tracks.len()))).array_of("song");
            Ok(with_tracks(node, tracks, "song"))
        },
        None => Err(SubsonicError::not_found("Album")),
    }
}

/// A song, if there is such a track.
pub fn get_song(track: Option<&TrackRow>) -> (r: Result<XmlNode, SubsonicError>)
    ensures
        match (track, r) {
            (Some(t), Ok(node)) => node_view(node) == track_view(*t, "song"@),
            (None, Err(e)) => not_found_error(e, "Song"@),
            _ => false,
        },
{
    match track {
        Some(t) => Ok(track_node(t, "song")),
        None => Err(SubsonicError::not_found("Song")),
    }
}

// ---------------------------------------------------------------------------
// Lists of albums
// ---------------------------------------------------------------------------

/// How a list of albums is ordered.
#[derive(Clone, Copy, Debug, PartialEq, Eq, Structural)]
pub enum ListOrder {
    ByName,
    ByArtist,
    Newest,
    /// By numbers drawn for the albums.
    Random,
    /// As they come.
    Unsorted,
}

/// The order that a list's type stands for; by name where there is none.
pub open spec fn list_order(list_type: Option<Seq<char>>) -> ListOrder {
    match list_type {
        None => ListOrder::ByName,
        Some(t) => if t == "alphabeticalByName"@ {
            ListOrder::ByName
        } else if t == "alphabeticalByArtist"@ {
            ListOrder::ByArtist
        } else if t == "newest"@ {
            ListOrder::Newest
        } else if t == "random"@ {
            ListOrder::Random
        } else {
            ListOrder::Unsorted
        },
    }
}

/// The order that a list's type stands for.
pub fn parse_list_order(list_type: Option<&str>) -> (r: ListOrder)
    ensures
        r == list_order(opt_str(list_type)),
{
    match list_type {
        None => ListOrder::ByName,
        Some(t) => if same(t, "alphabeticalByName") {
            ListOrder::ByName
        } else if same(t, "alphabeticalByArtist") {
            ListOrder::ByArtist
        } else if same(t, "newest") {
            ListOrder::Newest
        } else if same(t, "random") {
            ListOrder::Random
        } else {
            ListOrder::Unsorted
        },
    }
}

/// How two albums stand to each other in an order; `keys` are the numbers drawn for
/// a random one.
pub open spec fn list_rank(
    order: ListOrder,
    albums: Seq<AlbumRow>,
    keys: Seq<u64>,
    a: int,
    b: int,
) -> Rank {
    match order {
        ListOrder::ByName => rank_text(albums[a].title@, albums[b].title@),
        ListOrder::ByArtist => or_else(
            rank_text(albums[a].artist_name@, albums[b].artist_name@),
            rank_text(albums[a].title@, albums[b].title@),
        ),
        ListOrder::Newest => rank_opt(opt_text(albums[b].date), opt_text(albums[a].date)),
        ListOrder::Random => rank_int(keys[a] as int, keys[b] as int),
        ListOrder::Unsorted => Rank::Same,
    }
}

/// The comparison of an order.
pub open spec fn list_comparison(
    order: ListOrder,
    albums: Seq<AlbumRow>,
    keys: Seq<u64>,
) -> Comparison {
    |a: int, b: int| list_rank(order, albums, keys, a, b)
}

proof fn list_orders(order: ListOrder, albums: Seq<AlbumRow>, keys: Seq<u64>)
    ensures
        orders(list_comparison(order, albums, keys), albums.len() as int),
{
    let n = albums.len() as int;
    let rank = list_comparison(order, albums, keys);
    let title = |i: int| albums[i].title@;
    let by_title = |a: int, b: int| rank_text(albums[a].title@, albums[b].title@);
    match order {
        ListOrder::ByName => {
            texts_order(title, rank, n);
        },
        ListOrder::ByArtist => {
            let artist = |i: int| albums[i].artist_name@;
            let by_artist = |a: int, b: int| rank_text(albums[a].artist_name@, albums[b].artist_name@);
            texts_order(title, by_title, n);
            texts_order(artist, by_artist, n);
            or_else_orders(by_artist, by_title, rank, n);
        },
        ListOrder::Newest => {
            let date = |i: int| opt_text(albums[i].date);
            let by_date = |a: int, b: int| rank_opt(opt_text(albums[a].date), opt_text(albums[b].date));
            opts_order(date, by_date, n);
            flipped_orders(by_date, rank, n);
        },
        ListOrder::Random => {
            ints_order(|i: int| keys[i] as int, rank, n);
        },
        ListOrder::Unsorted => {
            ints_order(|i: int| 0int, rank, n);
        },
    }
}

fn compare_listed(
    order: ListOrder,
    albums: &Vec<AlbumRow>,
    keys: &Vec<u64>,
    a: usize,
    b: usize,
) -> (r: Rank)
    requires
        a < albums@.len(),
        b < albums@.len(),
        order == ListOrder::Random ==> keys@.len() == albums@.len(),
    ensures
        r == list_rank(order, albums@, keys@, a as int, b as int),
{
    match order {
        ListOrder::ByName => compare_text(albums[a].title.as_str(), albums[b].title.as_str()),
        ListOrder::ByArtist => then_by(
            compare_text(albums[a].artist_name.as_str(), albums[b].artist_name.as_str()),
            compare_text(albums[a].title.as_str(), albums[b].title.as_str()),
        ),
        ListOrder::Newest => compare_opt(&albums[b].date, &albums[a].date),
        ListOrder::Random => compare_u64(keys[a], keys[b]),
        ListOrder::Unsorted => Rank::Same,
    }
}

/// A number between two others.
pub open spec fn clamped(n: int, lo: int, hi: int) -> int {
    if n < lo {
        lo
    } else if n > hi {
        hi
    } else {
        n
    }
}

/// How many albums a list shows: 20 unless asked otherwise, at most 500.
pub open spec fn list_size(size: Option<i64>) -> int {
    match size {
        Some(n) => clamped(n as int, 0, 500),
        None => 20,
    }
}

/// How many albums a list skips.
pub open spec fn list_offset(offset: Option<i64>) -> int {
    match offset {
        Some(n) => if n < 0 {
            0
        } else {
            n as int
        },
        None => 0,
    }
}

/// A window of a list: some skipped, some taken, as far as it reaches.
pub open spec fn list_window<A>(s: Seq<A>, offset: int, size: int) -> Seq<A> {
    if offset >= s.len() {
        Seq::empty()
    } else {
        s.subrange(offset, min_int(offset + size, s.len() as int))
    }
}

/// The albums that a list shows.
pub open spec fn listed_albums(
    albums: Seq<AlbumRow>,
    order: ListOrder,
    keys: Seq<u64>,
    size: Option<i64>,
    offset: Option<i64>,
) -> Seq<AlbumRow> {
    list_window(
        at_places(
            albums,
            order_of(list_comparison(order, albums, keys), albums.len() as int),
        ),
        list_offset(offset),
        list_size(size),
    )
}

/// A list of albums in an order, cut to a window.
pub fn album_list(
    albums: &Vec<AlbumRow>,
    order: ListOrder,
    keys: &Vec<u64>,
    size: Option<i64>,
    offset: Option<i64>,
    tag: &str,
) -> (r: XmlNode)
    requires
        order == ListOrder::Random ==> keys@.len() == albums@.len(),
    ensures
        node_view(r) == element(tag@).array_of("album"@).with_children(
            album_views(listed_albums(albums@, order, keys@, size, offset)),
        ),
{
    let n: usize = albums.len();
    let ghost rank = list_comparison(order, albums@, keys@);
    proof {
        list_orders(order, albums@, keys@);
    }
    let compare = |a: usize, b: usize| -> (r: Rank)
        requires
            albums@.len() > a && albums@.len() > b,
            order == ListOrder::Random ==> keys@.len() == albums@.len(),
        ensures
            r == list_rank(order, albums@, keys@, a as int, b as int),
        {
            compare_listed(order, albums, keys, a, b)
        };
    let places = stable_order(n, compare, Ghost(rank));
    let ghost sorted = at_places(albums@, places@);
    let take: usize = match size {
        Some(k) => if k < 0 {
            0
        } else if k > 500 {
            500
        } else {
            k as usize
        },
        None => 20,
    };
    let skip: u64 = match offset {
        Some(k) => if k < 0 {
            0
        } else {
            k as u64
        },
        None => 0,
    };
    let mut shown: Vec<AlbumRow> = Vec::new();
    let ghost window = listed_albums(albums@, order, keys@, size, offset);
    if skip < n as u64 {
        let from: usize = skip as usize;
        let to: usize = if take <= n - from {
            from + take
        } else {
            n
        };
        let mut i: usize = from;
        while i < to
            invariant
                from <= i <= to <= n,
                n == albums@.len(),
                places@.len() == n,
                is_order(places@, rank, 0, n as int),
                sorted == at_places(albums@, places@),
                shown@ == sorted.subrange(from as int, i as int),
            decreases to - i,
        {
            assert(places@[i as int] < n);
            shown.push(albums[places[i]].clone());
            assert(sorted.subrange(from as int, i as int).push(sorted[i as int])
                =~= sorted.subrange(from as int, i as int + 1));
            i = i + 1;
        }
        assert(shown@ == window);
    } else {
        assert(shown@ =~= window);
    }
    let node = with_albums(XmlNode::new(tag).array_of("album"), &shown);
    node
}

// ---------------------------------------------------------------------------
// What the answers tell
// ---------------------------------------------------------------------------

/// An artist is found by its id, the first where several have it.
pub proof fn artists_are_found_by_id(artists: Seq<ArtistRow>, id: i64)
    ensures
        match artist_with(artists, id) {
            Some(a) => exists|i: int| #[trigger] is_first_artist(artists, id, i) && a == artists[i],
            None => forall|i: int| 0 <= i < artists.len() ==> (#[trigger] artists[i]).id != id,
        },
{
    artist_place_facts(artists, id);
    if artist_place(artists, id) < artists.len() {
        assert(is_first_artist(artists, id, artist_place(artists, id)));
    }
}

/// Whether the artist at a place has an id, and none before it does.
pub open spec fn is_first_artist(artists: Seq<ArtistRow>, id: i64, i: int) -> bool {
    &&& 0 <= i < artists.len()
    &&& artists[i].id == id
    &&& forall|k: int| 0 <= k < i ==> (#[trigger] artists[k]).id != id
}

proof fn artist_place_facts(artists: Seq<ArtistRow>, id: i64)
    ensures
        0 <= artist_place(artists, id) <= artists.len(),
        artist_place(artists, id) < artists.len() ==> artists[artist_place(artists, id)].id == id,
        forall|k: int| 0 <= k < artist_place(artists, id) ==> (#[trigger] artists[k]).id != id,
    decreases artists.len(),
{
    if artists.len() > 0 && artists[0].id != id {
        let rest = artists.skip(1);
        artist_place_facts(rest, id);
        assert forall|k: int| 0 <= k < artist_place(artists, id) implies (#[trigger] artists[k]).id
            != id by {
            if k > 0 {
                assert(rest[k - 1] == artists[k]);
            }
        }
    }
}

/// An id that names an album is not looked for among the artists; any other is.
pub proof fn directories_are_found_by_kind(
    kind: Option<EntityKind>,
    id: i64,
    artists: Seq<ArtistRow>,
)
    ensures
        kind == Some(EntityKind::Album) ==> directory_of(kind, id, artists) is None,
        kind != Some(EntityKind::Album) ==> (directory_of(kind, id, artists) is Some
            <==> exists|i: int| 0 <= i < artists.len() && (#[trigger] artists[i]).id == id),
        directory_of(kind, id, artists) is Some ==> directory_of(kind, id, artists)->0.id == id
            && artists.contains(directory_of(kind, id, artists)->0),
{
    artists_are_found_by_id(artists, id);
}

/// The directory of an artist tells the artist and holds its albums, each as it is told
/// within a directory, in their order.
pub proof fn artist_directories_hold_the_albums(a: ArtistRow, albums: Seq<AlbumRow>)
    ensures
        ({
            let v = artist_directory_view(a, albums);
            &&& v.tag == "directory"@
            &&& v.says("id"@, "ar-"@ + decimal_int(a.id as int))
            &&& v.says("name"@, a.name@)
            &&& v.attrs.len() == 2
            &&& v.children.len() == albums.len()
            &&& forall|i: int|
                0 <= i < albums.len() ==> v.children[i] == album_child_view(#[trigger] albums[i])
            &&& v.is_array && v.array_child_tag == Some("child"@)
        }),
{
    broadcast use vstd::seq_lib::lemma_seq_contains_after_push;

}

/// The directory of an album tells the album and its artist and holds its tracks in their
/// order.
pub proof fn album_directories_hold_the_tracks(a: AlbumRow, tracks: Seq<TrackRow>)
    ensures
        ({
            let v = album_directory_view(a, tracks);
            &&& v.tag == "directory"@
            &&& v.says("id"@, "al-"@ + decimal_int(a.id as int))
            &&& v.says("parent"@, "ar-"@ + decimal_int(a.artist_id as int))
            &&& v.says("name"@, a.title@)
            &&& v.attrs.len() == 3
            &&& v.children.len() == tracks.len()
            &&& forall|i: int|
                0 <= i < tracks.len() ==> v.children[i] == track_view(
                    #[trigger] tracks[i],
                    "child"@,
                )
            &&& v.is_array && v.array_child_tag == Some("child"@)
        }),
{
    broadcast use vstd::seq_lib::lemma_seq_contains_after_push;

}

/// An artist is told with the number of its albums and holds each, with the number of its
/// tracks.
pub proof fn artists_hold_their_albums(a: ArtistRow, albums: Seq<AlbumRow>)
    ensures
        ({
            let v = artist_albums_view(a, albums);
            &&& v.tag == "artist"@
            &&& v.says("id"@, decimal_int(a.id as int))
            &&& v.says("name"@, a.name@)
            &&& v.says("coverArt"@, "ar-"@ + decimal_int(a.id as int))
            &&& v.counts("albumCount"@, albums.len() as int)
            &&& v.attrs.len() == 4
            &&& v.children.len() == albums.len()
            &&& forall|i: int|
                0 <= i < albums.len() ==> v.children[i] == album_view(
                    #[trigger] albums[i],
                    match albums[i].total_tracks {
                        Some(n) => n as int,
                        None => 0,
                    },
                )
            &&& v.is_array && v.array_child_tag == Some("album"@)
        }),
{
    broadcast use vstd::seq_lib::lemma_seq_contains_after_push;

}

/// An album is told as everywhere, with the number of its tracks, and holds each of them.
pub proof fn albums_hold_their_songs(a: AlbumRow, tracks: Seq<TrackRow>)
    requires
        tracks.len() <= i32::MAX,
    ensures
        ({
            let v = album_songs_view(a, tracks);
            &&& v.tag == "album"@
            &&& v.attrs == album_view(a, tracks.len() as int).attrs
            &&& v.children.len() == tracks.len()
            &&& forall|i: int|
                0 <= i < tracks.len() ==> v.children[i] == track_view(#[trigger] tracks[i], "song"@)
            &&& v.is_array && v.array_child_tag == Some("song"@)
        }),
{
}

/// Each way to list albums has its own name; no name means by title, and a name that is not
/// known leaves them as they come.
pub proof fn list_types_are_told_apart(t: Seq<char>)
    ensures
        list_order(None) is ByName,
        list_order(Some(t)) is ByName <==> t == "alphabeticalByName"@,
        list_order(Some(t)) is ByArtist <==> t == "alphabeticalByArtist"@,
        list_order(Some(t)) is Newest <==> t == "newest"@,
        list_order(Some(t)) is Random <==> t == "random"@,
{
    reveal_strlit("alphabeticalByName");
    reveal_strlit("alphabeticalByArtist");
    reveal_strlit("newest");
    reveal_strlit("random");
    assert("alphabeticalByName"@.len() == 18 && "alphabeticalByArtist"@.len() == 20);
    assert("newest"@.len() == 6 && "random"@.len() == 6 && "newest"@[0] != "random"@[0]);
}

/// Whether albums are all of some others, each once, in the order that is asked for.
pub open spec fn lists_all(
    whole: Seq<AlbumRow>,
    places: Seq<usize>,
    albums: Seq<AlbumRow>,
    order: ListOrder,
    keys: Seq<u64>,
) -> bool {
    &&& whole.len() == albums.len()
    &&& places.len() == albums.len()
    &&& forall|i: int|
        0 <= i < places.len() ==> (#[trigger] places[i]) < albums.len() && whole[i]
            == albums[places[i] as int]
    &&& forall|i: int, j: int|
        0 <= i < j < places.len() ==> {
            let x = whole[i];
            let y = whole[j];
            &&& (#[trigger] places[i]) != (#[trigger] places[j])
            &&& match order {
                ListOrder::ByName => !text_lt(y.title@, x.title@),
                ListOrder::ByArtist => !text_lt(y.artist_name@, x.artist_name@) && (x.artist_name@
                    == y.artist_name@ ==> !text_lt(y.title@, x.title@)),
                ListOrder::Newest => match (x.date, y.date) {
                    (Some(a), Some(b)) => !text_lt(a@, b@),
                    (None, Some(_)) => false,
                    _ => true,
                },
                ListOrder::Random => keys[places[i] as int] <= keys[places[j] as int],
                ListOrder::Unsorted => places[i] < places[j],
            }
        }
}

/// A list of albums is a part of all albums in the order that is asked for: by title, by
/// artist and then title, the newest first, by the numbers drawn, or as they come. It starts
/// behind as many as are to be skipped, and is as long as is asked: twenty where nothing is
/// said, five hundred at most.
pub proof fn lists_are_parts_of_the_order(
    albums: Seq<AlbumRow>,
    order: ListOrder,
    keys: Seq<u64>,
    size: Option<i64>,
    offset: Option<i64>,
)
    requires
        albums.len() <= usize::MAX,
    ensures
        exists|whole: Seq<AlbumRow>, places: Seq<usize>|
            {
                let r = listed_albums(albums, order, keys, size, offset);
                let asked: int = match size {
                    Some(n) => if n < 0 {
                        0
                    } else if n > 500 {
                        500
                    } else {
                        n as int
                    },
                    None => 20,
                };
                let skipped: int = match offset {
                    Some(n) => if n < 0 {
                        0
                    } else {
                        n as int
                    },
                    None => 0,
                };
                &&& #[trigger] lists_all(whole, places, albums, order, keys)
                &&& r.len() <= asked
                &&& r.len() == asked || skipped + r.len() >= albums.len()
                &&& skipped >= albums.len() ==> r.len() == 0
                &&& skipped + r.len() <= albums.len() || r.len() == 0
                &&& forall|i: int| 0 <= i < r.len() ==> #[trigger] r[i] == whole[skipped + i]
            },
{
    let rank = list_comparison(order, albums, keys);
    let n = albums.len() as int;
    list_orders(order, albums, keys);
    stable_order_exists(rank, n);
    let places = order_of(rank, n);
    let whole = at_places(albums, places);
    assert forall|i: int, j: int| 0 <= i < j < places.len() implies {
        let x = whole[i];
        let y = whole[j];
        &&& (#[trigger] places[i]) != (#[trigger] places[j])
        &&& match order {
            ListOrder::ByName => !text_lt(y.title@, x.title@),
            ListOrder::ByArtist => !text_lt(y.artist_name@, x.artist_name@) && (x.artist_name@
                == y.artist_name@ ==> !text_lt(y.title@, x.title@)),
            ListOrder::Newest => match (x.date, y.date) {
                (Some(a), Some(b)) => !text_lt(a@, b@),
                (None, Some(_)) => false,
                _ => true,
            },
            ListOrder::Random => keys[places[i] as int] <= keys[places[j] as int],
            ListOrder::Unsorted => places[i] < places[j],
        }
    } by {
        let x = whole[i];
        let y = whole[j];
        assert(ahead(rank, places[i] as int, places[j] as int));
        text_lt_is_total(x.title@, y.title@);
        text_lt_is_total(x.artist_name@, y.artist_name@);
        if x.date is Some && y.date is Some {
            text_lt_is_total(x.date->0@, y.date->0@);
        }
        if places[i] == places[j] {
            assert(rank(places[i] as int, places[i] as int) == flipped(
                rank(places[i] as int, places[i] as int),
            ));
        }
    }
    assert(lists_all(whole, places, albums, order, keys));
}

/// A number that is kept within bounds is the nearest within them.
pub proof fn clamped_numbers_stay_within(n: int, lo: int, hi: int)
    requires
        lo <= hi,
    ensures
        lo <= clamped(n, lo, hi) <= hi,
        lo <= n <= hi ==> clamped(n, lo, hi) == n,
        n < lo ==> clamped(n, lo, hi) == lo,
        n > hi ==> clamped(n, lo, hi) == hi,
{
}

/// What is not found is told by its name, with the code for it.
pub proof fn missing_things_are_told(e: SubsonicError, what: Seq<char>)
    requires
        not_found_error(e, what),
    ensures
        e.code is NotFound,
        e.message@ == what + " not found"@,
{
}

} // verus!
