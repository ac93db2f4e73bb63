//! Playlists, and small answers: user, license, folders, genres, scrobbles.

use vstd::prelude::*;

use crate::lists::{collects, collects_none, collects_push, take_push};
use crate::rows::{found_rows, present, TrackRow};
use crate::subsonic::browse::not_found_error;
use crate::subsonic::document::{element, node_view, NodeView, XmlNode};
use crate::subsonic::errors::{SubsonicError, SubsonicErrorCode};
use crate::subsonic::ids::row_id;
use crate::subsonic::media::{file_of, track_file_path};
use crate::subsonic::nodes::{track_views, with_tracks};
use crate::subsonic::params::{all_values, first_value, RawParams};
use crate::text::{
    begins_with, chars_of, ends_with, matches_at, opt_text, read_i64, signed_value, string_of,
    texts, thousandth, toward_zero,
};
use crate::tui::library::as_unsigned;

verus! {

broadcast use crate::lists::group_lists;

// ---------------------------------------------------------------------------
// Playlists
// ---------------------------------------------------------------------------

/// A saved playlist.
#[derive(Debug)]
pub struct SnapshotRow {
    pub name: String,
    pub track_count: i64,
    pub created_at: String,
}

/// A playlist without its songs.
pub open spec fn playlist_view(
    name: Seq<char>,
    songs: int,
    created: Seq<char>,
    owner: Seq<char>,
) -> NodeView {
    element("playlist"@).attr("id"@, name).attr("name"@, name).attr_int("songCount"@, songs).attr(
        "owner"@,
        owner,
    ).attr_bool("public"@, false).attr("created"@, created)
}

/// A playlist in the list of playlists.
pub open spec fn snapshot_view(s: SnapshotRow, owner: Seq<char>) -> NodeView {
    playlist_view(s.name@, s.track_count as int, s.created_at@, owner)
}

fn bare_playlist(name: &str, songs: i64, created: &str, owner: &str) -> (r: XmlNode)
    ensures
        node_view(r) == playlist_view(name@, songs as int, created@, owner@),
{
    XmlNode::new("playlist").attr("id", name).attr("name", name).attr_int("songCount", songs).attr(
        "owner",
        owner,
    ).attr_bool("public", false).attr("created", created)
}

fn snapshot_node(s: &SnapshotRow, owner: &str) -> (r: XmlNode)
    ensures
        node_view(r) == snapshot_view(*s, owner@),
{
    bare_playlist(s.name.as_str(), s.track_count, s.created_at.as_str(), owner)
}

/// All playlists.
pub fn get_playlists(snapshots: &Vec<SnapshotRow>, owner: &str) -> (r: XmlNode)
    ensures
        node_view(r) == element("playlists"@).array_of("playlist"@).with_children(
            snapshots@.map_values(|s: SnapshotRow| snapshot_view(s, owner@)),
        ),
{
    let mut node = XmlNode::new("playlists").array_of("playlist");
    let ghost start = node_view(node);
    let ghost all = snapshots@.map_values(|s: SnapshotRow| snapshot_view(s, owner@));
    let mut i: usize = 0;
    assert(start.children + all.take(0) =~= start.children);
    while i < snapshots.len()
        invariant
            i <= snapshots@.len(),
            all == snapshots@.map_values(|s: SnapshotRow| snapshot_view(s, owner@)),
            node_view(node) == start.with_children(all.take(i as int)),
        decreases snapshots@.len() - i,
    {
        node = node.child(snapshot_node(&snapshots[i], owner));
        proof {
            take_push(all, i as int);
            assert((start.children + all.take(i as int)).push(all[i as int]) =~= start.children
                + all.take(i as int + 1));
        }
        i = i + 1;
    }
    assert(all.take(i as int) =~= all);
    node
}

/// A playlist that was loaded: its name, when it was made, and the track of each of its
/// members that the library still has.
#[derive(Debug)]
pub struct LoadedPlaylist {
    pub name: String,
    pub created_at: String,
    pub members: Vec<Option<TrackRow>>,
}

/// A playlist with its songs, if there is such a playlist. Members that are gone from the
/// library count, but are not listed.
pub fn playlist_node(loaded: Option<&LoadedPlaylist>, owner: &str) -> (r: Result<
    XmlNode,
    SubsonicError,
>)
    requires
        loaded is Some ==> loaded->0.members@.len() <= i64::MAX,
    ensures
        match (loaded, r) {
            (Some(p), Ok(node)) => node_view(node) == playlist_view(
                p.name@,
                p.members@.len() as int,
                p.created_at@,
                owner@,
            ).array_of("entry"@).with_children(track_views(present(p.members@), "entry"@)),
            (None, Err(e)) => not_found_error(e, "Playlist"@),
            _ => false,
        },
{
    match loaded {
        Some(p) => {
            let songs: i64 = p.members.len() as i64;
            let node = bare_playlist(p.name.as_str(), songs, p.created_at.as_str(), owner).array_of(
                "entry",
            );
            Ok(with_tracks(node, &found_rows(&p.members), "entry"))
        },
        None => Err(SubsonicError::not_found("Playlist")),
    }
}

/// The name of a playlist to create.
pub open spec fn name_to_create(pairs: Seq<(Seq<char>, Seq<char>)>) -> Option<Seq<char>> {
    match first_value(pairs, "name"@) {
        Some(n) => Some(n),
        None => first_value(pairs, "playlistId"@),
    }
}

/// The name of a playlist to create: `name`, else `playlistId`.
pub fn playlist_name(params: &RawParams) -> (r: Result<String, SubsonicError>)
    ensures
        match r {
            Ok(n) => name_to_create(params.pairs()) == Some(n@),
            Err(e) => name_to_create(params.pairs()) is None && e.says(
                SubsonicErrorCode::MissingParameter,
                "Required parameter '"@ + "name"@ + "' is missing"@,
            ),
        },
{
    match params.get("name") {
        Some(n) => Ok(n),
        None => match params.get("playlistId") {
            Some(n) => Ok(n),
            None => Err(SubsonicError::missing_param("name")),
        },
    }
}

/// The numbers among some texts.
pub open spec fn numbers_among(values: Seq<Seq<char>>) -> Seq<int>
    decreases values.len(),
{
    if values.len() == 0 {
        Seq::empty()
    } else {
        let before = numbers_among(values.drop_last());
        match row_id(values.last()) {
            Some(id) => before.push(id),
            None => before,
        }
    }
}

/// The songs of a playlist to create, in order; what is no number is left out.
pub fn playlist_song_ids(params: &RawParams) -> (r: Vec<i64>)
    ensures
        r@.map_values(|id: i64| id as int) == numbers_among(
            all_values(params.pairs(), "songId"@),
        ),
{
    let values = params.all("songId");
    let ghost all = all_values(params.pairs(), "songId"@);
    let mut out: Vec<i64> = Vec::new();
    let mut i: usize = 0;
    assert(all.take(0) =~= Seq::empty());
    while i < values.len()
        invariant
            i <= values@.len(),
            texts(values@) == all,
            out@.map_values(|id: i64| id as int) == numbers_among(all.take(i as int)),
        decreases values@.len() - i,
    {
        proof {
            let next = all.take(i as int + 1);
            assert(next.drop_last() =~= all.take(i as int));
            assert(next.last() == values@[i as int]@);
        }
        if let Some(id) = read_i64(values[i].as_str()) {
            out.push(id);
        }
        i = i + 1;
    }
    assert(all.take(i as int) =~= all);
    out
}

/// A queue entry as it is saved.
#[derive(Debug)]
pub struct PersistedQueueItem {
    pub path: String,
    pub title: String,
    pub artist: String,
    pub album_artist: String,
    pub album: String,
    pub year: Option<String>,
    pub codec: Option<String>,
    pub track_number: Option<i64>,
    pub disc: Option<i64>,
    pub duration_ms: Option<u64>,
    pub db_id: Option<i64>,
}

/// Whether an entry is a track as it is saved: without a file, with an empty path.
pub open spec fn persists(item: PersistedQueueItem, t: TrackRow) -> bool {
    &&& item.path@ == match file_of(t) {
        Some(p) => p,
        None => Seq::empty(),
    }
    &&& item.title == t.title
    &&& item.artist == t.artist_name
    &&& item.album_artist == t.album_artist_name
    &&& item.album == t.album_title
    &&& item.year is None
    &&& item.codec == t.codec
    &&& item.track_number == match t.track_number {
        Some(n) => Some(n as i64),
        None => None,
    }
    &&& item.disc == match t.disc {
        Some(n) => Some(n as i64),
        None => None,
    }
    &&& match t.duration_ms {
        Some(d) => item.duration_ms is Some && item.duration_ms->0 == as_unsigned(d),
        None => item.duration_ms is None,
    }
    &&& item.db_id == Some(t.id)
}

/// A track as an entry of a playlist to save.
pub fn persisted_item(t: &TrackRow) -> (r: PersistedQueueItem)
    ensures
        persists(r, *t),
{
    let path = match track_file_path(t) {
        Some(p) => p,
        None => String::new(),
    };
    PersistedQueueItem {
        path,
        title: t.title.clone(),
        artist: t.artist_name.clone(),
        album_artist: t.album_artist_name.clone(),
        album: t.album_title.clone(),
        year: None,
        codec: t.codec.clone(),
        track_number: match t.track_number {
            Some(n) => Some(n as i64),
            None => None,
        },
        disc: match t.disc {
            Some(n) => Some(n as i64),
            None => None,
        },
        duration_ms: match t.duration_ms {
            Some(d) => Some(crate::tui::library::unsigned_of(d)),
            None => None,
        },
        db_id: Some(t.id),
    }
}

/// The entries of a playlist to save: one for each song that the library has.
pub fn persisted_items(found: &Vec<Option<TrackRow>>) -> (r: Vec<PersistedQueueItem>)
    ensures
        r@.len() == present(found@).len(),
        forall|i: int| 0 <= i < r@.len() ==> persists(#[trigger] r@[i], present(found@)[i]),
{
    let rows = found_rows(found);
    let mut out: Vec<PersistedQueueItem> = Vec::new();
    let mut i: usize = 0;
    while i < rows.len()
        invariant
            i <= rows@.len(),
            out@.len() == i,
            forall|k: int| 0 <= k < i ==> persists(#[trigger] out@[k], rows@[k]),
        decreases rows@.len() - i,
    {
        out.push(persisted_item(&rows[i]));
        i = i + 1;
    }
    out
}

/// The outcome of deleting a playlist that was there or not.
pub fn playlist_deleted(deleted: bool) -> (r: Result<(), SubsonicError>)
    ensures
        match r {
            Ok(_) => deleted,
            Err(e) => !deleted && not_found_error(e, "Playlist"@),
        },
{
    if deleted {
        Ok(())
    } else {
        Err(SubsonicError::not_found("Playlist"))
    }
}

// ---------------------------------------------------------------------------
// Small answers
// ---------------------------------------------------------------------------

/// The license, which is always valid.
pub fn get_license() -> (r: XmlNode)
    ensures
        node_view(r) == element("license"@).attr_bool("valid"@, true).attr(
            "email"@,
            "koan@localhost"@,
        ),
{
    XmlNode::new("license").attr_bool("valid", true).attr("email", "koan@localhost")
}

/// The one music folder.
pub fn get_music_folders() -> (r: XmlNode)
    ensures
        node_view(r) == element("musicFolders"@).child(
            element("musicFolder"@).attr("id"@, "1"@).attr("name"@, "Music"@),
        ),
{
    XmlNode::new("musicFolders").child(
        XmlNode::new("musicFolder").attr("id", "1").attr("name", "Music"),
    )
}

/// What the one user may do.
pub open spec fn user_view(username: Seq<char>) -> NodeView {
    element("user"@).attr("username"@, username).attr_bool("scrobblingEnabled"@, true).attr_bool(
        "adminRole"@,
        false,
    ).attr_bool("settingsRole"@, false).attr_bool("downloadRole"@, true).attr_bool(
        "uploadRole"@,
        false,
    ).attr_bool("playlistRole"@, true).attr_bool("coverArtRole"@, true).attr_bool(
        "commentRole"@,
        false,
    ).attr_bool("podcastRole"@, false).attr_bool("streamRole"@, true).attr_bool(
        "jukeboxRole"@,
        false,
    ).attr_bool("shareRole"@, false).attr_bool("videoConversionRole"@, false)
}

/// What the one user may do.
pub fn get_user(username: &str) -> (r: XmlNode)
    ensures
        node_view(r) == user_view(username@),
{
    XmlNode::new("user").attr("username", username).attr_bool("scrobblingEnabled", true).attr_bool(
        "adminRole",
        false,
    ).attr_bool("settingsRole", false).attr_bool("downloadRole", true).attr_bool(
        "uploadRole",
        false,
    ).attr_bool("playlistRole", true).attr_bool("coverArtRole", true).attr_bool(
        "commentRole",
        false,
    ).attr_bool("podcastRole", false).attr_bool("streamRole", true).attr_bool(
        "jukeboxRole",
        false,
    ).attr_bool("shareRole", false).attr_bool("videoConversionRole", false)
}

/// The size of the library; a client never starts a scan.
pub fn get_scan_status(total_tracks: i64) -> (r: XmlNode)
    ensures
        node_view(r) == element("scanStatus"@).attr_bool("scanning"@, false).attr_int(
            "count"@,
            total_tracks as int,
        ),
{
    XmlNode::new("scanStatus").attr_bool("scanning", false).attr_int("count", total_tracks)
}

/// A genre with the numbers of its songs and albums.
#[derive(Debug)]
pub struct GenreRow {
    pub name: String,
    pub songs: i64,
    pub albums: i64,
}

/// A genre: its name is the element's text.
pub open spec fn genre_view(g: GenreRow) -> NodeView {
    element("genre"@).attr_int("songCount"@, g.songs as int).attr_int(
        "albumCount"@,
        g.albums as int,
    ).with_text(g.name@)
}

/// All genres.
pub fn get_genres(genres: &Vec<GenreRow>) -> (r: XmlNode)
    ensures
        node_view(r) == element("genres"@).array_of("genre"@).with_children(
            genres@.map_values(|g: GenreRow| genre_view(g)),
        ),
{
    let mut node = XmlNode::new("genres").array_of("genre");
    let ghost start = node_view(node);
    let ghost all = genres@.map_values(|g: GenreRow| genre_view(g));
    let mut i: usize = 0;
    assert(start.children + all.take(0) =~= start.children);
    while i < genres.len()
        invariant
            i <= genres@.len(),
            all == genres@.map_values(|g: GenreRow| genre_view(g)),
            node_view(node) == start.with_children(all.take(i as int)),
        decreases genres@.len() - i,
    {
        let g = &genres[i];
        node = node.child(
            XmlNode::new("genre").attr_int("songCount", g.songs).attr_int(
                "albumCount",
                g.albums,
            ).text(g.name.as_str()),
        );
        proof {
            take_push(all, i as int);
            assert((start.children + all.take(i as int)).push(all[i as int]) =~= start.children
                + all.take(i as int + 1));
        }
        i = i + 1;
    }
    assert(all.take(i as int) =~= all);
    node
}

/// When a track was played: as the client says, in milliseconds, else now.
pub fn played_at(time_ms: Option<i64>, now_secs: i64) -> (r: i64)
    ensures
        r == match time_ms {
            Some(ms) => toward_zero(ms as int, 1000),
            None => now_secs as int,
        },
{
    match time_ms {
        Some(ms) => thousandth(ms),
        None => now_secs,
    }
}

/// The path under which a track is starred; empty if it has no file.
pub fn starred_path(track: Option<&TrackRow>) -> (r: Result<String, SubsonicError>)
    ensures
        match (track, r) {
            (None, Err(e)) => not_found_error(e, "Track"@),
            (Some(t), Ok(path)) => path@ == match file_of(*t) {
                Some(p) => p,
                None => Seq::empty(),
            },
            _ => false,
        },
{
    match track {
        None => Err(SubsonicError::not_found("Track")),
        Some(t) => Ok(
            match track_file_path(t) {
                Some(p) => p,
                None => String::new(),
            },
        ),
    }
}

/// A path without any number of `.view` at its end.
pub open spec fn without_view(path: Seq<char>) -> Seq<char>
    decreases path.len(),
{
    if path.len() >= 5 && ends_with(path, ".view"@) {
        without_view(path.take(path.len() - 5))
    } else {
        path
    }
}

/// The failure that answers a request for an endpoint that does not exist.
pub fn unsupported_endpoint(path: &str) -> (r: SubsonicError)
    ensures
        r.says(
            SubsonicErrorCode::NotFound,
            "Endpoint '"@ + without_view(path@) + "' is not supported by this server"@,
        ),
{
    let cs = chars_of(path);
    let suffix = chars_of(".view");
    proof {
        reveal_strlit(".view");
    }
    let mut end: usize = cs.len();
    assert(cs@.take(end as int) =~= cs@);
    loop
        invariant
            end <= cs@.len(),
            cs@ == path@,
            suffix@ == ".view"@,
            suffix@.len() == 5,
            without_view(path@) == without_view(cs@.take(end as int)),
        ensures
            end <= cs@.len(),
            without_view(path@) == cs@.take(end as int),
        decreases end,
    {
        let ghost here = cs@.take(end as int);
        let cut = if end >= 5 {
            matches_at(&cs, end - 5, &suffix)
        } else {
            false
        };
        assert(end >= 5 ==> here.skip(here.len() - 5) =~= cs@.subrange(end - 5, end as int));
        if !cut {
            break;
        }
        assert(here.take(here.len() - 5) =~= cs@.take(end - 5));
        end = end - 5;
    }
    let endpoint = string_of(&cs, 0, end);
    assert(endpoint@ =~= cs@.take(end as int));
    SubsonicError::unsupported(endpoint.as_str())
}

// ---------------------------------------------------------------------------
// What the answers tell
// ---------------------------------------------------------------------------

/// A playlist is told by its name, which is its id as well, with its length, its owner and
/// when it was made.
pub proof fn playlists_tell_what_they_are(
    name: Seq<char>,
    songs: int,
    created: Seq<char>,
    owner: Seq<char>,
)
    ensures
        ({
            let v = playlist_view(name, songs, created, owner);
            &&& v.tag == "playlist"@
            &&& v.says("id"@, name)
            &&& v.says("name"@, name)
            &&& v.counts("songCount"@, songs)
            &&& v.says("owner"@, owner)
            &&& v.marks("public"@, false)
            &&& v.says("created"@, created)
            &&& v.attrs.len() == 6
            &&& v.children.len() == 0
        }),
{
    broadcast use vstd::seq_lib::lemma_seq_contains_after_push;

}

/// A playlist in the list tells the name, the length and the time of its own row.
pub proof fn snapshots_tell_their_row(s: SnapshotRow, owner: Seq<char>)
    ensures
        ({
            let v = snapshot_view(s, owner);
            &&& v.says("name"@, s.name@)
            &&& v.counts("songCount"@, s.track_count as int)
            &&& v.says("created"@, s.created_at@)
            &&& v.says("owner"@, owner)
        }),
{
    playlists_tell_what_they_are(s.name@, s.track_count as int, s.created_at@, owner);
}

/// A genre is told with its name, its songs and its albums.
pub proof fn genres_tell_their_row(g: GenreRow)
    ensures
        ({
            let v = genre_view(g);
            &&& v.tag == "genre"@
            &&& v.text == Some(g.name@)
            &&& v.counts("songCount"@, g.songs as int)
            &&& v.counts("albumCount"@, g.albums as int)
            &&& v.attrs.len() == 2
            &&& v.children.len() == 0
        }),
{
    broadcast use vstd::seq_lib::lemma_seq_contains_after_push;

}

/// A user may listen, download, scrobble, and keep playlists and covers, and nothing else.
pub proof fn users_may_listen(username: Seq<char>)
    ensures
        ({
            let v = user_view(username);
            &&& v.tag == "user"@
            &&& v.says("username"@, username)
            &&& v.marks("scrobblingEnabled"@, true)
            &&& v.marks("downloadRole"@, true)
            &&& v.marks("streamRole"@, true)
            &&& v.marks("playlistRole"@, true)
            &&& v.marks("coverArtRole"@, true)
            &&& v.marks("adminRole"@, false)
            &&& v.marks("settingsRole"@, false)
            &&& v.marks("uploadRole"@, false)
            &&& v.marks("commentRole"@, false)
            &&& v.marks("podcastRole"@, false)
            &&& v.marks("jukeboxRole"@, false)
            &&& v.marks("shareRole"@, false)
            &&& v.marks("videoConversionRole"@, false)
            &&& v.attrs.len() == 14
        }),
{
    broadcast use vstd::seq_lib::lemma_seq_contains_after_push;

}

/// The songs of a new playlist are all numbers that are given, in their order; what is no
/// number is passed over.
pub proof fn numbers_are_picked(values: Seq<Seq<char>>)
    ensures
        collects(
            values,
            |v: Seq<char>| signed_value(v, i64::MIN as int, i64::MAX as int),
            numbers_among(values),
        ),
    decreases values.len(),
{
    let f = |v: Seq<char>| signed_value(v, i64::MIN as int, i64::MAX as int);
    if values.len() == 0 {
        collects_none(values, f, numbers_among(values));
    } else {
        numbers_are_picked(values.drop_last());
        collects_push(values, f, numbers_among(values.drop_last()));
    }
}

/// A new playlist has the name that is given, else that of the playlist it is made from.
pub proof fn given_names_come_first(pairs: Seq<(Seq<char>, Seq<char>)>)
    ensures
        first_value(pairs, "name"@) is Some ==> name_to_create(pairs) == first_value(
            pairs,
            "name"@,
        ),
        first_value(pairs, "name"@) is None ==> name_to_create(pairs) == first_value(
            pairs,
            "playlistId"@,
        ),
{
}

/// A track that is kept in a playlist keeps its fields, each under its own name, and its file
/// and its number.
pub proof fn kept_tracks_keep_their_fields(item: PersistedQueueItem, t: TrackRow)
    requires
        persists(item, t),
    ensures
        t.path is Some ==> item.path@ == t.path->0@,
        t.path is None && t.cached_path is Some ==> item.path@ == t.cached_path->0@,
        t.path is None && t.cached_path is None ==> item.path@.len() == 0,
        item.title@ == t.title@,
        item.artist@ == t.artist_name@,
        item.album_artist@ == t.album_artist_name@,
        item.album@ == t.album_title@,
        opt_text(item.codec) == opt_text(t.codec),
        item.track_number is Some <==> t.track_number is Some,
        t.track_number is Some ==> item.track_number->0 == t.track_number->0,
        item.disc is Some <==> t.disc is Some,
        t.disc is Some ==> item.disc->0 == t.disc->0,
        item.duration_ms is Some <==> t.duration_ms is Some,
        t.duration_ms is Some && t.duration_ms->0 >= 0 ==> item.duration_ms->0 == t.duration_ms->0,
        item.db_id == Some(t.id),
{
}

/// An endpoint is named without `.view` behind it, however often that stands there.
pub proof fn endpoints_lose_their_ending(path: Seq<char>)
    ensures
        without_view(path + ".view"@) == without_view(path),
        !ends_with(without_view(path), ".view"@),
        !ends_with(path, ".view"@) ==> without_view(path) == path,
        begins_with(path, without_view(path)),
    decreases path.len(),
{
    reveal_strlit(".view");
    let longer = path + ".view"@;
    assert(longer.skip(longer.len() - 5) =~= ".view"@);
    assert(longer.take(longer.len() - 5) =~= path);
    if path.len() >= 5 && ends_with(path, ".view"@) {
        let less = path.take(path.len() - 5);
        endpoints_lose_their_ending(less);
        let w = without_view(less);
        assert(path.take(w.len() as int) =~= less.take(w.len() as int));
    } else {
        assert(path.take(path.len() as int) =~= path);
    }
}

} // verus!
