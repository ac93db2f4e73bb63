//! The player's queue and playback state, as the interfaces see them.

use vstd::prelude::*;

verus! {

/// Identifies one entry of the play queue: the 128 bits of its UUID.
#[derive(Clone, Copy, Debug, PartialEq, Eq, Structural)]
pub struct QueueItemId(pub u128);

/// Queue entries' identifiers with their paths.
pub open spec fn entries_view(s: Seq<(QueueItemId, String)>) -> Seq<(QueueItemId, Seq<char>)> {
    s.map_values(|e: (QueueItemId, String)| (e.0, e.1@))
}

/// Whether the player is running.
#[derive(Clone, Copy, Debug, PartialEq, Eq, Structural)]
pub enum PlaybackState {
    Stopped,
    Playing,
    Paused,
}

/// Where a queue entry stands, by the play cursor and by its download.
#[derive(Clone, Copy, Debug, PartialEq, Eq, Structural)]
pub enum QueueEntryStatus {
    /// After the cursor, waiting to play.
    Queued,
    /// At the cursor and loaded.
    Playing,
    /// Before the cursor.
    Played,
    /// Downloading, not at the cursor.
    Downloading,
    /// At the cursor but not yet loaded.
    PriorityPending,
    /// The download or the load failed.
    Failed,
}

/// One entry of the play queue.
#[derive(Debug)]
pub struct QueueEntry {
    pub id: QueueItemId,
    /// Library row, when the entry came from the database.
    pub db_id: Option<i64>,
    pub path: String,
    pub title: String,
    pub artist: String,
    pub album_artist: String,
    pub album: String,
    pub year: Option<String>,
    pub codec: Option<String>,
    pub track_number: Option<i64>,
    pub disc: Option<i64>,
    pub duration_ms: Option<u64>,
    pub status: QueueEntryStatus,
    /// Bytes downloaded and bytes expected, 0 when unknown.
    pub download_progress: Option<(u64, u64)>,
    pub error: Option<String>,
}

/// The track that the player has open.
#[derive(Debug)]
pub struct TrackInfo {
    pub id: QueueItemId,
    pub path: String,
    pub codec: String,
    pub sample_rate: u32,
    pub bit_depth: u16,
    pub channels: u16,
    pub duration_ms: u64,
}

} // verus!
