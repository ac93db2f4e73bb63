//! Elements for tracks, albums and artists.

use vstd::prelude::*;

use crate::lists::take_push;
use crate::rows::{AlbumRow, TrackRow};
use crate::subsonic::document::{element, node_view, NodeView, XmlNode};
use crate::subsonic::ids::{entity_id, row_id, typed_id, EntityKind};
use crate::subsonic::media::{codec_to_mime, codec_type};
use crate::text::{
    all_digits, ascii_prefix_is_bytes, byte_prefix, cut_bytes, decimal_int, decimal_of_int,
    digits_value, opt_str, opt_text, read_i64, thousandth, toward_zero, uppercase,
};

verus! {

broadcast use crate::lists::group_lists;

/// An optional number, as a value.
pub open spec fn opt_i32(o: Option<i32>) -> Option<int> {
    match o {
        Some(n) => Some(n as int),
        None => None,
    }
}

fn widen(o: Option<i32>) -> (r: Option<i64>)
    ensures
        r is Some == o is Some,
        r is Some ==> r->0 == o->0,
{
    match o {
        Some(n) => Some(n as i64),
        None => None,
    }
}

/// Suffix and media type of a track.
pub open spec fn track_type(codec: Option<String>) -> (Seq<char>, Seq<char>) {
    match codec {
        Some(c) => codec_type(uppercase(c@)),
        None => ("bin"@, "application/octet-stream"@),
    }
}

/// An optional number as text.
pub open spec fn opt_id(o: Option<i64>) -> Option<Seq<char>> {
    match o {
        Some(id) => Some(decimal_int(id as int)),
        None => None,
    }
}

/// An optional number as an album's id.
pub open spec fn opt_album_id(o: Option<i64>) -> Option<Seq<char>> {
    match o {
        Some(id) => Some(typed_id(EntityKind::Album, id as int)),
        None => None,
    }
}

/// A track as an element. The tag depends on where it stands, the attributes do
/// not.
pub open spec fn track_view(t: TrackRow, tag: Seq<char>) -> NodeView {
    element(tag).attr("id"@, decimal_int(t.id as int)).attr("title"@, t.title@).attr(
        "album"@,
        t.album_title@,
    ).attr("artist"@, t.artist_name@).attr_opt_int("track"@, opt_i32(t.track_number)).attr_opt_int(
        "discNumber"@,
        opt_i32(t.disc),
    ).attr_opt_int(
        "duration"@,
        match t.duration_ms {
            Some(ms) => Some(toward_zero(ms as int, 1000)),
            None => None,
        },
    ).attr_opt_int("bitRate"@, opt_i32(t.bitrate)).attr("suffix"@, track_type(t.codec).0).attr(
        "contentType"@,
        track_type(t.codec).1,
    ).attr_opt("genre"@, opt_text(t.genre)).attr_opt("albumId"@, opt_id(t.album_id)).attr_opt(
        "artistId"@,
        opt_id(t.artist_id),
    ).attr_opt("parent"@, opt_album_id(t.album_id)).attr(
        "coverArt"@,
        typed_id(EntityKind::Song, t.id as int),
    ).attr("type"@, "music"@).attr_bool("isDir"@, false)
}

/// Adds an attribute with an optional number, written as text.
fn attr_opt_id(node: XmlNode, key: &str, id: Option<i64>) -> (r: XmlNode)
    ensures
        node_view(r) == node_view(node).attr_opt(key@, opt_id(id)),
{
    match id {
        Some(n) => node.attr(key, decimal_of_int(n).as_str()),
        None => node,
    }
}

/// A track as an element.
pub fn track_node(track: &TrackRow, tag: &str) -> (r: XmlNode)
    ensures
        node_view(r) == track_view(*track, tag@),
{
    let duration: Option<i64> = match track.duration_ms {
        Some(ms) => Some(thousandth(ms)),
        None => None,
    };
    let (suffix, content_type) = match &track.codec {
        Some(c) => codec_to_mime(c.as_str()),
        None => ("bin", "application/octet-stream"),
    };
    let head = XmlNode::new(tag).attr("id", decimal_of_int(track.id).as_str()).attr(
        "title",
        track.title.as_str(),
    ).attr("album", track.album_title.as_str()).attr("artist", track.artist_name.as_str());
    let numbers = head.attr_opt_int("track", widen(track.track_number)).attr_opt_int(
        "discNumber",
        widen(track.disc),
    ).attr_opt_int("duration", duration).attr_opt_int("bitRate", widen(track.bitrate));
    let typed = numbers.attr("suffix", suffix).attr("contentType", content_type);
    let genred = match &track.genre {
        Some(g) => typed.attr("genre", g.as_str()),
        None => typed,
    };
    let owned = attr_opt_id(
        attr_opt_id(genred, "albumId", track.album_id),
        "artistId",
        track.artist_id,
    );
    let placed = match track.album_id {
        Some(id) => owned.attr("parent", entity_id(EntityKind::Album, id).as_str()),
        None => owned,
    };
    placed.attr("coverArt", entity_id(EntityKind::Song, track.id).as_str()).attr(
        "type",
        "music",
    ).attr_bool("isDir", false)
}

/// The year that a date begins with.
pub open spec fn year_in(date: Option<Seq<char>>) -> Option<int> {
    match date {
        Some(d) => match byte_prefix(d, 4) {
            Some(y) => row_id(y),
            None => None,
        },
        None => None,
    }
}

/// The year that a date begins with: its first four bytes, read as a number.
pub fn year_from_date(date: Option<&str>) -> (r: Option<i64>)
    ensures
        match r {
            Some(y) => year_in(opt_str(date)) == Some(y as int),
            None => year_in(opt_str(date)) is None,
        },
{
    match date {
        Some(d) => match cut_bytes(d, 4) {
            Some(y) => read_i64(y.as_str()),
            None => None,
        },
        None => None,
    }
}

/// The year of an album.
pub open spec fn year_of_album(a: AlbumRow) -> Option<int> {
    year_in(opt_text(a.date))
}

fn album_year(a: &AlbumRow) -> (r: Option<i64>)
    ensures
        match r {
            Some(y) => year_of_album(*a) == Some(y as int),
            None => year_of_album(*a) is None,
        },
{
    match &a.date {
        Some(d) => year_from_date(Some(d.as_str())),
        None => None,
    }
}

/// An album as an element, with the number of its songs.
pub open spec fn album_view(a: AlbumRow, songs: int) -> NodeView {
    element("album"@).attr("id"@, decimal_int(a.id as int)).attr("name"@, a.title@).attr(
        "title"@,
        a.title@,
    ).attr("artist"@, a.artist_name@).attr("artistId"@, decimal_int(a.artist_id as int)).attr(
        "parent"@,
        typed_id(EntityKind::Artist, a.artist_id as int),
    ).attr("coverArt"@, typed_id(EntityKind::Album, a.id as int)).attr_int(
        "songCount"@,
        songs,
    ).attr_opt_int("year"@, year_of_album(a)).attr_bool("isDir"@, true)
}

/// A number of songs that is not known is none.
pub open spec fn songs_or_none(count: Option<i32>) -> int {
    match count {
        Some(n) => n as int,
        None => 0,
    }
}

/// An album as an element.
pub fn album_to_xml_node(album: &AlbumRow, track_count: Option<i32>) -> (r: XmlNode)
    ensures
        node_view(r) == album_view(*album, songs_or_none(track_count)),
{
    let songs: i64 = match track_count {
        Some(n) => n as i64,
        None => 0,
    };
    XmlNode::new("album").attr("id", decimal_of_int(album.id).as_str()).attr(
        "name",
        album.title.as_str(),
    ).attr("title", album.title.as_str()).attr("artist", album.artist_name.as_str()).attr(
        "artistId",
        decimal_of_int(album.artist_id).as_str(),
    ).attr("parent", entity_id(EntityKind::Artist, album.artist_id).as_str()).attr(
        "coverArt",
        entity_id(EntityKind::Album, album.id).as_str(),
    ).attr_int("songCount", songs).attr_opt_int("year", album_year(album)).attr_bool("isDir", true)
}

/// An album as a directory's entry. Its id comes straight back as a directory's, so
/// it carries its kind.
pub open spec fn album_child_view(a: AlbumRow) -> NodeView {
    element("child"@).attr("id"@, typed_id(EntityKind::Album, a.id as int)).attr(
        "parent"@,
        typed_id(EntityKind::Artist, a.artist_id as int),
    ).attr("title"@, a.title@).attr("album"@, a.title@).attr("artist"@, a.artist_name@).attr(
        "coverArt"@,
        typed_id(EntityKind::Album, a.id as int),
    ).attr_opt_int("year"@, year_of_album(a)).attr_bool("isDir"@, true)
}

/// An album as a directory's entry.
pub fn album_child_node(album: &AlbumRow) -> (r: XmlNode)
    ensures
        node_view(r) == album_child_view(*album),
{
    XmlNode::new("child").attr("id", entity_id(EntityKind::Album, album.id).as_str()).attr(
        "parent",
        entity_id(EntityKind::Artist, album.artist_id).as_str(),
    ).attr("title", album.title.as_str()).attr("album", album.title.as_str()).attr(
        "artist",
        album.artist_name.as_str(),
    ).attr("coverArt", entity_id(EntityKind::Album, album.id).as_str()).attr_opt_int(
        "year",
        album_year(album),
    ).attr_bool("isDir", true)
}

/// Tracks as elements.
pub open spec fn track_views(tracks: Seq<TrackRow>, tag: Seq<char>) -> Seq<NodeView> {
    tracks.map_values(|t: TrackRow| track_view(t, tag))
}

/// Albums as elements, with the numbers of songs on record.
pub open spec fn album_views(albums: Seq<AlbumRow>) -> Seq<NodeView> {
    albums.map_values(|a: AlbumRow| album_view(a, songs_or_none(a.total_tracks)))
}

/// Puts tracks inside an element.
pub fn with_tracks(node: XmlNode, tracks: &Vec<TrackRow>, tag: &str) -> (r: XmlNode)
    ensures
        node_view(r) == node_view(node).with_children(track_views(tracks@, tag@)),
{
    let ghost start = node_view(node);
    let ghost all = track_views(tracks@, tag@);
    let mut out = node;
    let mut i: usize = 0;
    assert(start.children + all.take(0) =~= start.children);
    while i < tracks.len()
        invariant
            i <= tracks@.len(),
            all == track_views(tracks@, tag@),
            node_view(out) == start.with_children(all.take(i as int)),
        decreases tracks@.len() - i,
    {
        out = out.child(track_node(&tracks[i], tag));
        proof {
            take_push(all, i as int);
            assert((start.children + all.take(i as int)).push(all[i as int]) =~= start.children
                + all.take(i as int + 1));
        }
        i = i + 1;
    }
    assert(all.take(i as int) =~= all);
    out
}

/// Puts albums inside an element.
pub fn with_albums(node: XmlNode, albums: &Vec<AlbumRow>) -> (r: XmlNode)
    ensures
        node_view(r) == node_view(node).with_children(album_views(albums@)),
{
    let ghost start = node_view(node);
    let ghost all = album_views(albums@);
    let mut out = node;
    let mut i: usize = 0;
    assert(start.children + all.take(0) =~= start.children);
    while i < albums.len()
        invariant
            i <= albums@.len(),
            all == album_views(albums@),
            node_view(out) == start.with_children(all.take(i as int)),
        decreases albums@.len() - i,
    {
        out = out.child(album_to_xml_node(&albums[i], albums[i].total_tracks));
        proof {
            take_push(all, i as int);
            assert((start.children + all.take(i as int)).push(all[i as int]) =~= start.children
                + all.take(i as int + 1));
        }
        i = i + 1;
    }
    assert(all.take(i as int) =~= all);
    out
}

// ---------------------------------------------------------------------------
// What the elements tell
// ---------------------------------------------------------------------------

/// One for what is there, none for what is not.
pub open spec fn one_if(there: bool) -> int {
    if there {
        1
    } else {
        0
    }
}

/// A song tells each field of its track under its own name, says what is known, and leaves
/// out what is not.
pub proof fn songs_tell_their_track(t: TrackRow, tag: Seq<char>)
    ensures
        ({
            let v = track_view(t, tag);
            &&& v.tag == tag
            &&& v.children.len() == 0
            &&& v.text is None
            &&& v.says("id"@, decimal_int(t.id as int))
            &&& v.says("title"@, t.title@)
            &&& v.says("album"@, t.album_title@)
            &&& v.says("artist"@, t.artist_name@)
            &&& t.track_number is Some ==> v.counts("track"@, t.track_number->0 as int)
            &&& t.disc is Some ==> v.counts("discNumber"@, t.disc->0 as int)
            &&& t.duration_ms is Some ==> exists|secs: int| #[trigger]
                v.counts("duration"@, secs) && (t.duration_ms->0 >= 0 ==> secs * 1000
                    <= t.duration_ms->0 < secs * 1000 + 1000)
            &&& t.bitrate is Some ==> v.counts("bitRate"@, t.bitrate->0 as int)
            &&& t.genre is Some ==> v.says("genre"@, t.genre->0@)
            &&& t.album_id is Some ==> v.says("albumId"@, decimal_int(t.album_id->0 as int))
                && v.says("parent"@, "al-"@ + decimal_int(t.album_id->0 as int))
            &&& t.artist_id is Some ==> v.says("artistId"@, decimal_int(t.artist_id->0 as int))
            &&& v.says("coverArt"@, "mf-"@ + decimal_int(t.id as int))
            &&& v.says("type"@, "music"@)
            &&& v.marks("isDir"@, false)
            &&& v.says("suffix"@, track_type(t.codec).0)
            &&& v.says("contentType"@, track_type(t.codec).1)
            &&& v.attrs.len() == 9 + one_if(t.track_number is Some) + one_if(t.disc is Some)
                + one_if(t.duration_ms is Some) + one_if(t.bitrate is Some) + one_if(
                t.genre is Some,
            ) + 2 * one_if(t.album_id is Some) + one_if(t.artist_id is Some)
        }),
{
    broadcast use vstd::seq_lib::lemma_seq_contains_after_push;

    let v = track_view(t, tag);
    if t.duration_ms is Some {
        let ms = t.duration_ms->0 as int;
        assert(v.counts("duration"@, toward_zero(ms, 1000)));
    }
}

/// An album tells each field of its row under its own name.
pub proof fn albums_tell_their_row(a: AlbumRow, songs: int)
    ensures
        ({
            let v = album_view(a, songs);
            &&& v.tag == "album"@
            &&& v.children.len() == 0
            &&& v.says("id"@, decimal_int(a.id as int))
            &&& v.says("name"@, a.title@)
            &&& v.says("title"@, a.title@)
            &&& v.says("artist"@, a.artist_name@)
            &&& v.says("artistId"@, decimal_int(a.artist_id as int))
            &&& v.says("parent"@, "ar-"@ + decimal_int(a.artist_id as int))
            &&& v.says("coverArt"@, "al-"@ + decimal_int(a.id as int))
            &&& v.counts("songCount"@, songs)
            &&& year_of_album(a) is Some ==> v.counts("year"@, year_of_album(a)->0)
            &&& v.marks("isDir"@, true)
            &&& v.attrs.len() == 9 + one_if(year_of_album(a) is Some)
        }),
{
    broadcast use vstd::seq_lib::lemma_seq_contains_after_push;

}

/// An album within a directory tells each field of its row under its own name.
pub proof fn album_children_tell_their_row(a: AlbumRow)
    ensures
        ({
            let v = album_child_view(a);
            &&& v.tag == "child"@
            &&& v.children.len() == 0
            &&& v.says("id"@, "al-"@ + decimal_int(a.id as int))
            &&& v.says("parent"@, "ar-"@ + decimal_int(a.artist_id as int))
            &&& v.says("title"@, a.title@)
            &&& v.says("album"@, a.title@)
            &&& v.says("artist"@, a.artist_name@)
            &&& v.says("coverArt"@, "al-"@ + decimal_int(a.id as int))
            &&& year_of_album(a) is Some ==> v.counts("year"@, year_of_album(a)->0)
            &&& v.marks("isDir"@, true)
            &&& v.attrs.len() == 7 + one_if(year_of_album(a) is Some)
        }),
{
    broadcast use vstd::seq_lib::lemma_seq_contains_after_push;

}

/// The year that an album tells is what the first four digits of its date say.
pub proof fn album_years_are_read_from_dates(a: AlbumRow, date: Seq<char>)
    requires
        opt_text(a.date) == Some(date),
        date.len() >= 4,
        forall|i: int| 0 <= i < 4 ==> '0' <= #[trigger] date[i] <= '9',
    ensures
        year_of_album(a) == Some(
            1000 * (date[0] as int - 48) + 100 * (date[1] as int - 48) + 10 * (date[2] as int - 48)
                + (date[3] as int - 48),
        ),
{
    let y = date.take(4);
    ascii_prefix_is_bytes(date, 4);
    assert(all_digits(y));
    reveal_with_fuel(digits_value, 5);
    assert(y.drop_last().drop_last().drop_last().drop_last() =~= Seq::empty());
    assert(y.drop_last().drop_last().drop_last() =~= date.take(1));
    assert(y.drop_last().drop_last() =~= date.take(2));
    assert(y.drop_last() =~= date.take(3));
    assert(!(y[0] == '+' || y[0] == '-'));
}

} // verus!
