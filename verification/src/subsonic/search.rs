//! Searching, and picking songs at random or by similarity.

use std::collections::HashSet;

use vstd::prelude::*;

use crate::lists::{collects, filter_collects, take_push};
use crate::rows::{found_rows, present, TrackRow};
use crate::subsonic::document::{element, node_view, NodeView, XmlNode};
use crate::subsonic::ids::{entity_id, typed_id, EntityKind};
use crate::subsonic::nodes::{track_view, track_views, with_tracks};
use crate::text::{decimal_int, decimal_of_int, opt_str, opt_text, same};
use crate::tui::screen::{max_int, min_int};

verus! {

broadcast use crate::lists::group_lists;

/// How many tracks to look for: enough for all three counts, at least 100.
pub fn search_needed(artist_count: u32, album_count: u32, song_count: u32) -> (r: u32)
    requires
        artist_count + album_count + song_count <= u32::MAX,
    ensures
        r == max_int(artist_count + album_count + song_count, 100),
{
    let sum: u32 = artist_count + album_count + song_count;
    if sum >= 100 {
        sum
    } else {
        100
    }
}

/// A count that was asked for, or 20.
pub fn count_or_default(count: Option<u32>) -> (r: u32)
    ensures
        r == match count {
            Some(n) => n,
            None => 20,
        },
{
    match count {
        Some(n) => n,
        None => 20,
    }
}

/// What a track is filed under when only the first of each is wanted.
pub type Key = spec_fn(TrackRow) -> Option<i64>;

/// The tracks that are the first with their key, among the first `n`; tracks without
/// a key are left out.
pub open spec fn firsts(tracks: Seq<TrackRow>, key: Key, n: nat) -> Seq<TrackRow>
    decreases n,
{
    if n == 0 {
        Seq::empty()
    } else {
        let before = firsts(tracks, key, (n - 1) as nat);
        if is_first(tracks, key, n - 1) {
            before.push(tracks[n - 1])
        } else {
            before
        }
    }
}

/// Whether track `i` is the first with its key.
pub open spec fn is_first(tracks: Seq<TrackRow>, key: Key, i: int) -> bool {
    key(tracks[i]) is Some && forall|k: int|
        0 <= k < i ==> key(#[trigger] tracks[k]) != key(tracks[i])
}

/// Up to some of the first tracks for each key.
pub open spec fn first_few(tracks: Seq<TrackRow>, key: Key, count: nat) -> Seq<TrackRow> {
    let all = firsts(tracks, key, tracks.len());
    all.take(min_int(count as int, all.len() as int))
}

proof fn firsts_grow(tracks: Seq<TrackRow>, key: Key, m: nat, n: nat)
    requires
        m <= n,
    ensures
        firsts(tracks, key, m).len() <= firsts(tracks, key, n).len(),
        firsts(tracks, key, n).take(firsts(tracks, key, m).len() as int) == firsts(tracks, key, m),
    decreases n,
{
    if m < n {
        firsts_grow(tracks, key, m, (n - 1) as nat);
        let a = firsts(tracks, key, m);
        let b = firsts(tracks, key, (n - 1) as nat);
        let c = firsts(tracks, key, n);
        assert(c.take(a.len() as int) =~= b.take(a.len() as int));
    } else {
        assert(firsts(tracks, key, n).take(firsts(tracks, key, m).len() as int) =~= firsts(
            tracks,
            key,
            m,
        ));
    }
}

/// Whether a track is among the first `n`.
pub open spec fn among(tracks: Seq<TrackRow>, n: int, t: TrackRow) -> bool {
    exists|k: int| 0 <= k < n && #[trigger] tracks[k] == t
}

/// No two of the first tracks share a key.
pub proof fn firsts_are_distinct(tracks: Seq<TrackRow>, key: Key, n: nat)
    requires
        n <= tracks.len(),
    ensures
        forall|i: int, j: int|
            0 <= i < j < firsts(tracks, key, n).len() ==> key(
                #[trigger] firsts(tracks, key, n)[i],
            ) != key(#[trigger] firsts(tracks, key, n)[j]),
        forall|i: int|
            0 <= i < firsts(tracks, key, n).len() ==> among(
                tracks,
                n as int,
                #[trigger] firsts(tracks, key, n)[i],
            ),
    decreases n,
{
    if n > 0 {
        let m = (n - 1) as nat;
        firsts_are_distinct(tracks, key, m);
        let before = firsts(tracks, key, m);
        let all = firsts(tracks, key, n);
        assert forall|i: int, j: int| 0 <= i < j < all.len() implies key(#[trigger] all[i]) != key(
            #[trigger] all[j],
        ) by {
            assert(all[i] == before[i]);
            if j < before.len() {
                assert(all[j] == before[j]);
            } else {
                assert(among(tracks, m as int, before[i]));
                let k = choose|k: int| 0 <= k < m && #[trigger] tracks[k] == before[i];
                assert(key(tracks[k]) != key(tracks[n - 1]));
            }
        }
        assert forall|i: int| 0 <= i < all.len() implies among(
            tracks,
            n as int,
            #[trigger] all[i],
        ) by {
            if i < before.len() {
                assert(all[i] == before[i]);
                assert(among(tracks, m as int, before[i]));
                let k = choose|k: int| 0 <= k < m && #[trigger] tracks[k] == before[i];
                assert(tracks[k] == all[i]);
            } else {
                assert(tracks[n - 1] == all[i]);
            }
        }
    }
}

/// An artist that a search found.
pub open spec fn found_artist(t: TrackRow) -> NodeView {
    element("artist"@).attr("id"@, decimal_int(t.artist_id->0 as int)).attr(
        "name"@,
        t.artist_name@,
    ).attr("coverArt"@, typed_id(EntityKind::Artist, t.artist_id->0 as int))
}

/// An album that a search found.
pub open spec fn found_album(t: TrackRow) -> NodeView {
    element("album"@).attr("id"@, decimal_int(t.album_id->0 as int)).attr(
        "name"@,
        t.album_title@,
    ).attr("title"@, t.album_title@).attr("artist"@, t.album_artist_name@).attr(
        "coverArt"@,
        typed_id(EntityKind::Album, t.album_id->0 as int),
    ).attr_bool("isDir"@, true)
}

/// The key of an artist.
pub open spec fn artist_key() -> Key {
    |t: TrackRow| t.artist_id
}

/// The key of an album.
pub open spec fn album_key() -> Key {
    |t: TrackRow| t.album_id
}

/// What a search found: artists and albums, each once, and songs.
pub open spec fn search_view(
    tracks: Seq<TrackRow>,
    artist_count: nat,
    album_count: nat,
    song_count: nat,
) -> NodeView {
    element("searchResult3"@).with_children(
        first_few(tracks, artist_key(), artist_count).map_values(|t: TrackRow| found_artist(t)),
    ).with_children(
        first_few(tracks, album_key(), album_count).map_values(|t: TrackRow| found_album(t)),
    ).with_children(
        track_views(tracks.take(min_int(song_count as int, tracks.len() as int)), "song"@),
    )
}

/// Whether a set holds the keys of the first `n` tracks.
pub open spec fn holds_keys(seen: Set<i64>, tracks: Seq<TrackRow>, key: Key, n: int) -> bool {
    forall|id: i64|
        #[trigger] seen.contains(id) <==> exists|k: int|
            0 <= k < n && key(#[trigger] tracks[k]) == Some(id)
}

/// The first tracks for each key, up to a count; `ids` holds the key of each track.
fn first_of_each(
    tracks: &Vec<TrackRow>,
    ids: &Vec<Option<i64>>,
    Ghost(key): Ghost<Key>,
    count: u32,
) -> (r: Vec<TrackRow>)
    requires
        ids@ == tracks@.map_values(key),
    ensures
        r@ == first_few(tracks@, key, count as nat),
        forall|i: int| 0 <= i < r@.len() ==> key(#[trigger] r@[i]) is Some,
{
    broadcast use vstd::std_specs::hash::group_hash_axioms;

    let mut seen: HashSet<i64> = HashSet::new();
    let mut out: Vec<TrackRow> = Vec::new();
    let mut i: usize = 0;
    while i < tracks.len() && out.len() < count as usize
        invariant
            i <= tracks@.len(),
            ids@ == tracks@.map_values(key),
            out@ == firsts(tracks@, key, i as nat),
            out@.len() <= count,
            holds_keys(seen@, tracks@, key, i as int),
            forall|k: int| 0 <= k < out@.len() ==> key(#[trigger] out@[k]) is Some,
        decreases tracks@.len() - i,
    {
        let ghost before = seen@;
        if let Some(id) = ids[i] {
            assert(key(tracks@[i as int]) == Some(id));
            let fresh = !seen.contains(&id);
            if fresh {
                seen.insert(id);
                out.push(tracks[i].clone());
                assert(is_first(tracks@, key, i as int)) by {
                    assert(!before.contains(id));
                }
            } else {
                assert(before.contains(id));
                let ghost k = choose|k: int| 0 <= k < i && key(#[trigger] tracks@[k]) == Some(id);
                assert(!is_first(tracks@, key, i as int));
            }
            assert forall|x: i64| #[trigger] seen@.contains(x) <==> exists|k: int|
                0 <= k < i + 1 && key(#[trigger] tracks@[k]) == Some(x) by {
                if seen@.contains(x) {
                    if x == id {
                        assert(key(tracks@[i as int]) == Some(x));
                    } else {
                        assert(before.contains(x));
                        let k = choose|k: int|
                            0 <= k < i && key(#[trigger] tracks@[k]) == Some(x);
                        assert(key(tracks@[k]) == Some(x));
                    }
                }
                if exists|k: int| 0 <= k < i + 1 && key(#[trigger] tracks@[k]) == Some(x) {
                    let k = choose|k: int|
                        0 <= k < i + 1 && key(#[trigger] tracks@[k]) == Some(x);
                    if k < i {
                        assert(before.contains(x));
                    }
                }
            }
        } else {
            assert(key(tracks@[i as int]) is None);
            assert forall|x: i64| #[trigger] seen@.contains(x) <==> exists|k: int|
                0 <= k < i + 1 && key(#[trigger] tracks@[k]) == Some(x) by {
                if seen@.contains(x) {
                    let k = choose|k: int| 0 <= k < i && key(#[trigger] tracks@[k]) == Some(x);
                    assert(key(tracks@[k]) == Some(x));
                }
            }
        }
        i = i + 1;
    }
    proof {
        firsts_grow(tracks@, key, i as nat, tracks@.len());
        let all = firsts(tracks@, key, tracks@.len());
        if i < tracks@.len() {
            assert(out@.len() == count);
        } else {
            assert(all.take(all.len() as int) =~= all);
        }
    }
    out
}

/// What a search found among tracks: artists and albums, each once, and songs.
pub fn search3(
    tracks: &Vec<TrackRow>,
    artist_count: u32,
    album_count: u32,
    song_count: u32,
) -> (r: XmlNode)
    ensures
        node_view(r) == search_view(
            tracks@,
            artist_count as nat,
            album_count as nat,
            song_count as nat,
        ),
{
    let mut artist_ids: Vec<Option<i64>> = Vec::new();
    let mut album_ids: Vec<Option<i64>> = Vec::new();
    let mut n: usize = 0;
    while n < tracks.len()
        invariant
            n <= tracks@.len(),
            artist_ids@ == tracks@.take(n as int).map_values(artist_key()),
            album_ids@ == tracks@.take(n as int).map_values(album_key()),
        decreases tracks@.len() - n,
    {
        artist_ids.push(tracks[n].artist_id);
        album_ids.push(tracks[n].album_id);
        proof {
            take_push(tracks@, n as int);
        }
        n = n + 1;
    }
    assert(tracks@.take(n as int) =~= tracks@);
    let artists = first_of_each(tracks, &artist_ids, Ghost(artist_key()), artist_count);
    let albums = first_of_each(tracks, &album_ids, Ghost(album_key()), album_count);
    let mut node = XmlNode::new("searchResult3");
    let ghost start = node_view(node);
    let ghost artist_nodes = artists@.map_values(|t: TrackRow| found_artist(t));
    let mut i: usize = 0;
    assert(start.children + artist_nodes.take(0) =~= start.children);
    while i < artists.len()
        invariant
            i <= artists@.len(),
            forall|k: int| 0 <= k < artists@.len() ==> (#[trigger] artists@[k]).artist_id is Some,
            artist_nodes == artists@.map_values(|t: TrackRow| found_artist(t)),
            node_view(node) == start.with_children(artist_nodes.take(i as int)),
        decreases artists@.len() - i,
    {
        let t = &artists[i];
        assert(artists@[i as int].artist_id is Some);
        if let Some(id) = t.artist_id {
            node = node.child(
                XmlNode::new("artist").attr("id", decimal_of_int(id).as_str()).attr(
                    "name",
                    t.artist_name.as_str(),
                ).attr("coverArt", entity_id(EntityKind::Artist, id).as_str()),
            );
        }
        proof {
            take_push(artist_nodes, i as int);
            assert((start.children + artist_nodes.take(i as int)).push(artist_nodes[i as int])
                =~= start.children + artist_nodes.take(i as int + 1));
        }
        i = i + 1;
    }
    assert(artist_nodes.take(i as int) =~= artist_nodes);
    let ghost start = node_view(node);
    let ghost album_nodes = albums@.map_values(|t: TrackRow| found_album(t));
    let mut j: usize = 0;
    assert(start.children + album_nodes.take(0) =~= start.children);
    while j < albums.len()
        invariant
            j <= albums@.len(),
            forall|k: int| 0 <= k < albums@.len() ==> (#[trigger] albums@[k]).album_id is Some,
            album_nodes == albums@.map_values(|t: TrackRow| found_album(t)),
            node_view(node) == start.with_children(album_nodes.take(j as int)),
        decreases albums@.len() - j,
    {
        let t = &albums[j];
        assert(albums@[j as int].album_id is Some);
        if let Some(id) = t.album_id {
            node = node.child(
                XmlNode::new("album").attr("id", decimal_of_int(id).as_str()).attr(
                    "name",
                    t.album_title.as_str(),
                ).attr("title", t.album_title.as_str()).attr(
                    "artist",
                    t.album_artist_name.as_str(),
                ).attr("coverArt", entity_id(EntityKind::Album, id).as_str()).attr_bool(
                    "isDir",
                    true,
                ),
            );
        }
        proof {
            take_push(album_nodes, j as int);
            assert((start.children + album_nodes.take(j as int)).push(album_nodes[j as int])
                =~= start.children + album_nodes.take(j as int + 1));
        }
        j = j + 1;
    }
    assert(album_nodes.take(j as int) =~= album_nodes);
    let songs = first_tracks(tracks, song_count as u64);
    with_tracks(node, &songs, "song")
}

/// Up to some tracks from the beginning.
fn first_tracks(tracks: &Vec<TrackRow>, count: u64) -> (r: Vec<TrackRow>)
    ensures
        r@ == tracks@.take(min_int(count as int, tracks@.len() as int)),
{
    let mut out: Vec<TrackRow> = Vec::new();
    let mut i: usize = 0;
    while i < tracks.len() && (i as u64) < count
        invariant
            i <= tracks@.len(),
            i <= count,
            out@ == tracks@.take(i as int),
        decreases tracks@.len() - i,
    {
        out.push(tracks[i].clone());
        proof {
            take_push(tracks@, i as int);
        }
        i = i + 1;
    }
    out
}

// ---------------------------------------------------------------------------
// Random and similar songs
// ---------------------------------------------------------------------------

/// How many tracks to draw: five times as many where a genre has to be picked out.
pub fn random_fetch_count(size: u32, by_genre: bool) -> (r: u32)
    requires
        by_genre ==> size * 5 <= u32::MAX,
    ensures
        r == if by_genre {
            size * 5
        } else {
            size as int
        },
{
    if by_genre {
        size * 5
    } else {
        size
    }
}

/// Whether a track is of a genre, where one is asked for.
pub open spec fn of_genre(t: TrackRow, genre: Option<Seq<char>>) -> bool {
    genre is None || opt_text(t.genre) == genre
}

/// The tracks of a genre, up to a number.
pub open spec fn picked_by_genre(tracks: Seq<TrackRow>, genre: Option<Seq<char>>, size: nat) -> Seq<
    TrackRow,
> {
    let all = tracks.filter(|t: TrackRow| of_genre(t, genre));
    all.take(min_int(size as int, all.len() as int))
}

/// Songs drawn at random, of a genre where one is asked for.
pub fn get_random_songs(tracks: &Vec<TrackRow>, size: u32, genre: Option<&str>) -> (r: XmlNode)
    ensures
        node_view(r) == element("randomSongs"@).array_of("song"@).with_children(
            track_views(picked_by_genre(tracks@, opt_str(genre), size as nat), "song"@),
        ),
{
    let ghost wanted = opt_str(genre);
    let ghost keep = |t: TrackRow| of_genre(t, wanted);
    let ghost all = tracks@.filter(keep);
    let mut picked: Vec<TrackRow> = Vec::new();
    let mut i: usize = 0;
    proof {
        crate::lists::filter_none(tracks@, keep);
    }
    while i < tracks.len() && picked.len() < size as usize
        invariant
            i <= tracks@.len(),
            wanted == opt_str(genre),
            keep == (|t: TrackRow| of_genre(t, wanted)),
            picked@ == tracks@.take(i as int).filter(keep),
            picked@.len() <= size,
        decreases tracks@.len() - i,
    {
        let fits = match genre {
            Some(g) => match &tracks[i].genre {
                Some(own) => same(own.as_str(), g),
                None => false,
            },
            None => true,
        };
        proof {
            crate::lists::filter_step(tracks@, i as int, keep);
        }
        if fits {
            picked.push(tracks[i].clone());
        }
        i = i + 1;
    }
    proof {
        filter_grows(tracks@, keep, i as int);
        if i == tracks@.len() {
            assert(tracks@.take(i as int) =~= tracks@);
            assert(all.take(all.len() as int) =~= all);
        }
    }
    with_tracks(XmlNode::new("randomSongs").array_of("song"), &picked, "song")
}

proof fn filter_grows(s: Seq<TrackRow>, keep: spec_fn(TrackRow) -> bool, i: int)
    requires
        0 <= i <= s.len(),
    ensures
        s.take(i).filter(keep).len() <= s.filter(keep).len(),
        s.filter(keep).take(s.take(i).filter(keep).len() as int) == s.take(i).filter(keep),
    decreases s.len() - i,
{
    if i < s.len() {
        filter_grows(s, keep, i + 1);
        crate::lists::filter_step(s, i, keep);
        let a = s.take(i).filter(keep);
        let b = s.take(i + 1).filter(keep);
        let all = s.filter(keep);
        assert(all.take(a.len() as int) =~= b.take(a.len() as int));
        assert(b.take(a.len() as int) =~= a);
    } else {
        assert(s.take(i) =~= s);
        let all = s.filter(keep);
        assert(all.take(all.len() as int) =~= all);
    }
}

/// The tracks of several artists in a row.
pub open spec fn flattened(lists: Seq<Vec<TrackRow>>) -> Seq<TrackRow>
    decreases lists.len(),
{
    if lists.len() == 0 {
        Seq::empty()
    } else {
        flattened(lists.drop_last()) + lists.last()@
    }
}

/// The first tracks of several lists in a row.
pub open spec fn first_flattened(lists: Seq<Vec<TrackRow>>, count: nat) -> Seq<TrackRow> {
    flattened(lists).take(min_int(count as int, flattened(lists).len() as int))
}

/// The first tracks of several lists in a row.
pub fn first_of_lists(lists: &Vec<Vec<TrackRow>>, count: usize) -> (picked: Vec<TrackRow>)
    ensures
        picked@ == first_flattened(lists@, count as nat),
{
    let mut picked: Vec<TrackRow> = Vec::new();
    let mut i: usize = 0;
    assert(lists@.take(0) =~= Seq::empty());
    while i < lists.len()
        invariant
            i <= lists@.len(),
            ({
                let sofar = flattened(lists@.take(i as int));
                picked@ == sofar.take(min_int(count as int, sofar.len() as int))
            }),
        decreases lists@.len() - i,
    {
        let list = &lists[i];
        let ghost sofar = flattened(lists@.take(i as int));
        proof {
            assert(lists@.take(i as int + 1).drop_last() =~= lists@.take(i as int));
        }
        let mut j: usize = 0;
        assert(sofar + list@.take(0) =~= sofar);
        while j < list.len() && picked.len() < count
            invariant
                j <= list@.len(),
                ({
                    let here = sofar + list@.take(j as int);
                    picked@ == here.take(min_int(count as int, here.len() as int))
                }),
            decreases list@.len() - j,
        {
            picked.push(list[j].clone());
            proof {
                let here = sofar + list@.take(j as int);
                let next = sofar + list@.take(j as int + 1);
                assert(next =~= here.push(list@[j as int]));
                assert(here.take(here.len() as int) =~= here);
                assert(next.take(next.len() as int) =~= next);
            }
            j = j + 1;
        }
        proof {
            let here = sofar + list@.take(j as int);
            let full = sofar + list@;
            assert(full == flattened(lists@.take(i as int + 1)));
            if j == list@.len() {
                assert(list@.take(j as int) =~= list@);
            } else {
                assert(here.take(count as int) =~= full.take(count as int));
            }
        }
        i = i + 1;
    }
    assert(lists@.take(i as int) =~= lists@);
    picked
}

/// Songs of similar artists, artist by artist, up to a number. A track without an
/// artist has none.
pub open spec fn similar_view(lists: Option<Seq<Vec<TrackRow>>>, count: nat) -> NodeView {
    match lists {
        None => element("similarSongs2"@),
        Some(ls) => element("similarSongs2"@).array_of("song"@).with_children(
            track_views(first_flattened(ls, count), "song"@),
        ),
    }
}

/// Songs of similar artists, given the tracks of each, or `None` if the track that
/// was asked about has no artist.
pub fn get_similar_songs2(tracks_by_artist: Option<&Vec<Vec<TrackRow>>>, count: usize) -> (r:
    XmlNode)
    ensures
        node_view(r) == similar_view(
            match tracks_by_artist {
                Some(ls) => Some(ls@),
                None => None,
            },
            count as nat,
        ),
{
    match tracks_by_artist {
        None => XmlNode::new("similarSongs2"),
        Some(lists) => {
            let picked = first_of_lists(lists, count);
            with_tracks(XmlNode::new("similarSongs2").array_of("song"), &picked, "song")
        },
    }
}

/// The favourite songs: those of the favourites that are in the library.
pub fn get_starred2(found: &Vec<Option<TrackRow>>) -> (r: XmlNode)
    ensures
        node_view(r) == element("starred2"@).array_of("song"@).with_children(
            track_views(present(found@), "song"@),
        ),
{
    with_tracks(XmlNode::new("starred2").array_of("song"), &found_rows(found), "song")
}

// ---------------------------------------------------------------------------
// What the results tell
// ---------------------------------------------------------------------------

/// Whether places are those of the first tracks with each key, in order: up to a count, and
/// no key that comes before the last of them, or at all where the count is not reached, is
/// left out.
pub open spec fn leads(tracks: Seq<TrackRow>, key: Key, places: Seq<int>, count: nat) -> bool {
    &&& places.len() <= count
    &&& forall|i: int|
        0 <= i < places.len() ==> 0 <= #[trigger] places[i] < tracks.len() && key(
            tracks[places[i]],
        ) is Some
    &&& forall|i: int, j: int|
        0 <= i < j < places.len() ==> (#[trigger] places[i]) < (#[trigger] places[j])
    &&& forall|i: int, k: int|
        0 <= i < places.len() && 0 <= k < places[i] ==> key(#[trigger] tracks[k]) != key(
            tracks[#[trigger] places[i]],
        )
    &&& forall|k: int|
        0 <= k < tracks.len() && key(#[trigger] tracks[k]) is Some && (places.len() < count || (
        places.len() > 0 && k <= places.last())) ==> led(tracks, key, places, k)
}

/// Whether a track has the key of one at some of the places.
pub open spec fn led(tracks: Seq<TrackRow>, key: Key, places: Seq<int>, k: int) -> bool {
    exists|i: int|
        0 <= i < places.len() && key(tracks[#[trigger] places[i]]) == key(tracks[k])
}

proof fn firsts_lead(tracks: Seq<TrackRow>, key: Key, n: nat) -> (places: Seq<int>)
    requires
        n <= tracks.len(),
    ensures
        firsts(tracks, key, n) == places.map_values(|p: int| tracks[p]),
        forall|i: int| 0 <= i < places.len() ==> 0 <= #[trigger] places[i] < n,
        forall|i: int|
            0 <= i < places.len() ==> key(tracks[#[trigger] places[i]]) is Some,
        forall|i: int, j: int|
            0 <= i < j < places.len() ==> (#[trigger] places[i]) < (#[trigger] places[j]),
        forall|i: int, k: int|
            0 <= i < places.len() && 0 <= k < places[i] ==> key(#[trigger] tracks[k]) != key(
                tracks[#[trigger] places[i]],
            ),
        forall|k: int|
            0 <= k < n && key(#[trigger] tracks[k]) is Some ==> led(tracks, key, places, k),
    decreases n,
{
    if n == 0 {
        let places = Seq::<int>::empty();
        assert(firsts(tracks, key, n) =~= places.map_values(|p: int| tracks[p]));
        places
    } else {
        let m = (n - 1) as nat;
        let before = firsts_lead(tracks, key, m);
        let places = if is_first(tracks, key, m as int) {
            before.push(m as int)
        } else {
            before
        };
        assert(firsts(tracks, key, n) =~= places.map_values(|p: int| tracks[p]));
        assert forall|k: int| 0 <= k < n && key(#[trigger] tracks[k]) is Some implies led(
            tracks,
            key,
            places,
            k,
        ) by {
            if k < m {
                assert(led(tracks, key, before, k));
                let i = choose|i: int|
                    0 <= i < before.len() && key(tracks[#[trigger] before[i]]) == key(tracks[k]);
                assert(places[i] == before[i]);
            } else if is_first(tracks, key, m as int) {
                assert(places[before.len() as int] == k);
            } else {
                let j = choose|j: int| 0 <= j < m && key(#[trigger] tracks[j]) == key(tracks[k]);
                assert(led(tracks, key, before, j));
                let i = choose|i: int|
                    0 <= i < before.len() && key(tracks[#[trigger] before[i]]) == key(tracks[j]);
                assert(places[i] == before[i]);
            }
        }
        places
    }
}

proof fn first_few_lead(tracks: Seq<TrackRow>, key: Key, count: nat) -> (places: Seq<int>)
    ensures
        leads(tracks, key, places, count),
        first_few(tracks, key, count) == places.map_values(|p: int| tracks[p]),
{
    let all = firsts_lead(tracks, key, tracks.len());
    let n = min_int(count as int, all.len() as int);
    let places = all.take(n);
    assert(first_few(tracks, key, count) =~= places.map_values(|p: int| tracks[p]));
    assert forall|k: int|
        0 <= k < tracks.len() && key(#[trigger] tracks[k]) is Some && (places.len() < count || (
        places.len() > 0 && k <= places.last())) implies led(tracks, key, places, k) by {
        assert(led(tracks, key, all, k));
        let i = choose|i: int|
            0 <= i < all.len() && key(tracks[#[trigger] all[i]]) == key(tracks[k]);
        if i >= n {
            assert(places.last() == all[n - 1]);
            assert(all[n - 1] < all[i]);
            assert(k < all[i]);
        }
        assert(places[i] == all[i]);
    }
    places
}

/// Whether an element tells the artist of a track: its id, its name and its cover.
pub open spec fn tells_artist(v: NodeView, t: TrackRow) -> bool {
    &&& v.tag == "artist"@
    &&& v.children.len() == 0
    &&& t.artist_id is Some
    &&& v.says("id"@, decimal_int(t.artist_id->0 as int))
    &&& v.says("name"@, t.artist_name@)
    &&& v.says("coverArt"@, "ar-"@ + decimal_int(t.artist_id->0 as int))
    &&& v.attrs.len() == 3
}

/// Whether an element tells the album of a track: its id, its title, its artist and its
/// cover, and nothing of the track itself.
pub open spec fn tells_album(v: NodeView, t: TrackRow) -> bool {
    &&& v.tag == "album"@
    &&& v.children.len() == 0
    &&& t.album_id is Some
    &&& v.says("id"@, decimal_int(t.album_id->0 as int))
    &&& v.says("name"@, t.album_title@)
    &&& v.says("title"@, t.album_title@)
    &&& v.says("artist"@, t.album_artist_name@)
    &&& v.says("coverArt"@, "al-"@ + decimal_int(t.album_id->0 as int))
    &&& v.marks("isDir"@, true)
    &&& v.attrs.len() == 6
}

/// A search shows the artists of the tracks that were found, each once, where it first
/// occurs; then their albums likewise; then the tracks themselves: of each no more than is
/// asked for, and none left out below that.
pub proof fn searches_show_what_was_found(
    tracks: Seq<TrackRow>,
    artist_count: nat,
    album_count: nat,
    song_count: nat,
)
    ensures
        exists|artists: Seq<int>, albums: Seq<int>| #[trigger]
            shows_found(
                search_view(tracks, artist_count, album_count, song_count),
                tracks,
                artists,
                albums,
                artist_count,
                album_count,
                song_count,
            ),
{
    broadcast use vstd::seq_lib::lemma_seq_contains_after_push;

    let v = search_view(tracks, artist_count, album_count, song_count);
    let artists = first_few_lead(tracks, artist_key(), artist_count);
    let albums = first_few_lead(tracks, album_key(), album_count);
    assert(leads(tracks, |t: TrackRow| t.artist_id, artists, artist_count));
    assert(leads(tracks, |t: TrackRow| t.album_id, albums, album_count));
    assert forall|i: int| 0 <= i < artists.len() implies tells_artist(
        v.children[i],
        tracks[#[trigger] artists[i]],
    ) by {
        assert(v.children[i] == found_artist(tracks[artists[i]]));
        assert(artist_key()(tracks[artists[i]]) is Some);
    }
    assert forall|i: int| 0 <= i < albums.len() implies tells_album(
        v.children[artists.len() + i],
        tracks[#[trigger] albums[i]],
    ) by {
        assert(v.children[artists.len() + i] == found_album(tracks[albums[i]]));
        assert(album_key()(tracks[albums[i]]) is Some);
    }
    assert(shows_found(v, tracks, artists, albums, artist_count, album_count, song_count));
}

/// Whether an element shows the artists and the albums of the tracks at some places, and
/// then the tracks from the first.
pub open spec fn shows_found(
    v: NodeView,
    tracks: Seq<TrackRow>,
    artists: Seq<int>,
    albums: Seq<int>,
    artist_count: nat,
    album_count: nat,
    song_count: nat,
) -> bool {
    let songs: int = if song_count < tracks.len() {
        song_count as int
    } else {
        tracks.len() as int
    };
    &&& v.tag == "searchResult3"@
    &&& v.attrs.len() == 0
    &&& v.children.len() == artists.len() + albums.len() + songs
    &&& leads(tracks, |t: TrackRow| t.artist_id, artists, artist_count)
    &&& leads(tracks, |t: TrackRow| t.album_id, albums, album_count)
    &&& forall|i: int|
        0 <= i < artists.len() ==> tells_artist(v.children[i], tracks[#[trigger] artists[i]])
    &&& forall|i: int|
        0 <= i < albums.len() ==> tells_album(
            v.children[artists.len() + i],
            tracks[#[trigger] albums[i]],
        )
    &&& forall|i: int|
        0 <= i < songs ==> v.children[artists.len() + albums.len() + i] == track_view(
            #[trigger] tracks[i],
            "song"@,
        )
}

/// The tracks whose genre is the one that is asked for; all where none is.
pub open spec fn of_the_genre(genre: Option<Seq<char>>) -> spec_fn(TrackRow) -> Option<TrackRow> {
    |t: TrackRow|
        if genre is None || (t.genre is Some && t.genre->0@ == genre->0) {
            Some(t)
        } else {
            None
        }
}

/// Songs that are drawn for a genre are the first of it among those that were read, in their
/// order; where no genre is asked for, simply the first.
pub proof fn songs_of_a_genre_are_picked(
    tracks: Seq<TrackRow>,
    genre: Option<Seq<char>>,
    size: nat,
)
    ensures
        exists|all: Seq<TrackRow>|
            {
                &&& #[trigger] collects(tracks, of_the_genre(genre), all)
                &&& picked_by_genre(tracks, genre, size).len() <= size
                &&& picked_by_genre(tracks, genre, size).len() == size || picked_by_genre(
                    tracks,
                    genre,
                    size,
                ).len() == all.len()
                &&& forall|i: int|
                    0 <= i < picked_by_genre(tracks, genre, size).len() ==> #[trigger]
                    picked_by_genre(tracks, genre, size)[i] == all[i]
            },
{
    let keep = |t: TrackRow| of_genre(t, genre);
    let f = of_the_genre(genre);
    filter_collects(tracks, keep, f);
    assert(collects(tracks, f, tracks.filter(keep)));
}

/// Similar songs are the songs of the artists in turn: the first list whole, then the next,
/// until there are enough.
pub proof fn similar_songs_come_artist_by_artist(
    lists: Seq<Vec<TrackRow>>,
    last: Vec<TrackRow>,
    count: nat,
)
    ensures
        first_flattened(Seq::empty(), count).len() == 0,
        first_flattened(lists, count).len() <= count,
        first_flattened(lists.push(last), count) == if first_flattened(lists, count).len()
            == count {
            first_flattened(lists, count)
        } else {
            first_flattened(lists, count) + last@.take(
                min_int(count - first_flattened(lists, count).len(), last@.len() as int),
            )
        },
{
    assert(lists.push(last).drop_last() =~= lists);
    let more = flattened(lists.push(last));
    assert(more == flattened(lists) + last@);
    let have = first_flattened(lists, count);
    if have.len() == count {
        assert(first_flattened(lists.push(last), count) =~= have);
    } else {
        assert(have =~= flattened(lists));
        assert(first_flattened(lists.push(last), count) =~= have + last@.take(
            min_int(count - have.len(), last@.len() as int),
        ));
    }
}

} // verus!
