//! Rows of the library database, as plain values.

use vstd::prelude::*;
use crate::lists::{collects, collects_none, collects_push};

verus! {

/// An artist.
#[derive(Debug)]
pub struct ArtistRow {
    pub id: i64,
    pub name: String,
    /// What the artist is sorted by, where it is not the name.
    pub sort_name: Option<String>,
}

/// An album.
#[derive(Debug)]
pub struct AlbumRow {
    pub id: i64,
    pub title: String,
    pub artist_id: i64,
    pub artist_name: String,
    pub date: Option<String>,
    pub codec: Option<String>,
    pub label: Option<String>,
    pub total_discs: Option<i32>,
    pub total_tracks: Option<i32>,
}

/// A track.
#[derive(Debug)]
pub struct TrackRow {
    pub id: i64,
    pub title: String,
    pub artist_name: String,
    pub album_artist_name: String,
    pub album_title: String,
    pub album_id: Option<i64>,
    pub artist_id: Option<i64>,
    pub disc: Option<i32>,
    pub track_number: Option<i32>,
    pub duration_ms: Option<i64>,
    pub codec: Option<String>,
    pub sample_rate: Option<i32>,
    pub bit_depth: Option<i32>,
    pub channels: Option<i32>,
    pub bitrate: Option<i32>,
    pub genre: Option<String>,
    /// `local`, `remote` or `cached`.
    pub source: String,
    pub remote_id: Option<String>,
    pub path: Option<String>,
    pub cached_path: Option<String>,
}

impl Clone for ArtistRow {
    fn clone(&self) -> (r: Self)
        ensures
            r == *self,
    {
        ArtistRow { id: self.id, name: self.name.clone(), sort_name: self.sort_name.clone() }
    }
}

impl Clone for AlbumRow {
    fn clone(&self) -> (r: Self)
        ensures
            r == *self,
    {
        AlbumRow {
            id: self.id,
            title: self.title.clone(),
            artist_id: self.artist_id,
            artist_name: self.artist_name.clone(),
            date: self.date.clone(),
            codec: self.codec.clone(),
            label: self.label.clone(),
            total_discs: self.total_discs,
            total_tracks: self.total_tracks,
        }
    }
}

impl Clone for TrackRow {
    fn clone(&self) -> (r: Self)
        ensures
            r == *self,
    {
        TrackRow {
            id: self.id,
            title: self.title.clone(),
            artist_name: self.artist_name.clone(),
            album_artist_name: self.album_artist_name.clone(),
            album_title: self.album_title.clone(),
            album_id: self.album_id,
            artist_id: self.artist_id,
            disc: self.disc,
            track_number: self.track_number,
            duration_ms: self.duration_ms,
            codec: self.codec.clone(),
            sample_rate: self.sample_rate,
            bit_depth: self.bit_depth,
            channels: self.channels,
            bitrate: self.bitrate,
            genre: self.genre.clone(),
            source: self.source.clone(),
            remote_id: self.remote_id.clone(),
            path: self.path.clone(),
            cached_path: self.cached_path.clone(),
        }
    }
}

/// The tracks that were found among those that were looked up.
pub open spec fn present(found: Seq<Option<TrackRow>>) -> Seq<TrackRow>
    decreases found.len(),
{
    if found.len() == 0 {
        Seq::empty()
    } else {
        match found.last() {
            Some(t) => present(found.drop_last()).push(t),
            None => present(found.drop_last()),
        }
    }
}

/// The tracks that were found among those that were looked up, in order.
pub fn found_rows(found: &Vec<Option<TrackRow>>) -> (r: Vec<TrackRow>)
    ensures
        r@ == present(found@),
{
    let mut out: Vec<TrackRow> = Vec::new();
    let mut i: usize = 0;
    assert(found@.take(0) =~= Seq::empty());
    while i < found.len()
        invariant
            i <= found@.len(),
            out@ == present(found@.take(i as int)),
        decreases found@.len() - i,
    {
        assert(found@.take(i as int + 1).drop_last() =~= found@.take(i as int));
        if let Some(t) = &found[i] {
            out.push(t.clone());
        }
        i = i + 1;
    }
    assert(found@.take(i as int) =~= found@);
    out
}

/// The tracks that were found are all of them, in order, and nothing is made up for those
/// that were not.
pub proof fn found_tracks_are_kept(found: Seq<Option<TrackRow>>)
    ensures
        collects(found, |t: Option<TrackRow>| t, present(found)),
    decreases found.len(),
{
    let f = |t: Option<TrackRow>| t;
    if found.len() == 0 {
        collects_none(found, f, present(found));
    } else {
        found_tracks_are_kept(found.drop_last());
        collects_push(found, f, present(found.drop_last()));
    }
}

} // verus!
