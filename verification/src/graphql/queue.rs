//! The play queue: what is told of it, and what is done to it.

use vstd::prelude::*;

use crate::graphql::ids::{
    all_read, invalid_id_text, parse_queue_item_id, parse_queue_item_ids, queue_item_text,
    uuid_parsed, uuid_text,
};
use crate::lists::{collected_are_given, collects, collects_none, collects_push, take_push};
use crate::player::{PlaybackState, QueueEntry, QueueEntryStatus, QueueItemId};
use crate::text::{
    around_decimal, as_i32, concat3, decimal, decimal_int, decimal_of_int, opt_text, texts,
    wrapped_i32,
};
use crate::tui::library::{as_unsigned, unsigned_of};

verus! {

broadcast use crate::lists::group_lists;

// ---------------------------------------------------------------------------
// What is told
// ---------------------------------------------------------------------------

/// The track that the player has open.
#[derive(Debug)]
pub struct OpenTrack {
    pub id: QueueItemId,
    pub codec: String,
    pub sample_rate: u32,
    pub bit_depth: Option<u16>,
    pub bitrate_kbps: Option<u32>,
    pub channels: u16,
    pub duration_ms: u64,
}

/// An item of the playlist.
#[derive(Debug)]
pub struct PlaylistItem {
    pub id: QueueItemId,
    /// The library's number, where the item came from there.
    pub db_id: Option<i64>,
    pub path: String,
    pub title: String,
    pub artist: String,
    pub album_artist: String,
    pub album: String,
    pub year: Option<String>,
    pub codec: Option<String>,
    pub track_number: Option<i64>,
    pub disc: Option<i64>,
    pub duration_ms: Option<u64>,
    /// Whether the item has to be downloaded before it can play.
    pub pending: bool,
}

/// What the player shows of itself.
#[derive(Debug)]
pub struct PlayerSnapshot {
    pub state: PlaybackState,
    pub position_ms: u64,
    pub track: Option<OpenTrack>,
    pub output_sample_rate: Option<u32>,
    pub playlist: Vec<PlaylistItem>,
}

/// What plays.
#[derive(Debug)]
pub struct GqlNowPlayingTrack {
    /// The library's number, by which a client may stream the track.
    pub track_id: Option<i64>,
    pub title: String,
    pub artist: String,
    pub album: String,
    pub codec: String,
    pub sample_rate: u32,
    pub bit_depth: Option<u16>,
    pub bitrate_kbps: Option<u32>,
    pub channels: u16,
    pub duration_ms: u64,
    /// The rate of the output device, where it is known.
    pub output_sample_rate: Option<u32>,
}

/// What plays, and how far it is.
#[derive(Debug)]
pub struct GqlNowPlaying {
    pub state: PlaybackState,
    pub position_ms: u64,
    pub duration_ms: Option<u64>,
    pub track: Option<GqlNowPlayingTrack>,
    pub queue_item_id: Option<String>,
}

/// The first item of a playlist with an identifier.
pub open spec fn item_with_id(items: Seq<PlaylistItem>, id: QueueItemId) -> Option<PlaylistItem>
    decreases items.len(),
{
    if items.len() == 0 {
        None
    } else if items[0].id == id {
        Some(items[0])
    } else {
        item_with_id(items.skip(1), id)
    }
}

fn find_item(items: &Vec<PlaylistItem>, id: QueueItemId) -> (r: Option<usize>)
    ensures
        match r {
            Some(i) => i < items@.len() && item_with_id(items@, id) == Some(items@[i as int]),
            None => item_with_id(items@, id) is None,
        },
{
    let mut i: usize = 0;
    assert(items@.skip(0) =~= items@);
    while i < items.len()
        invariant
            i <= items@.len(),
            item_with_id(items@, id) == item_with_id(items@.skip(i as int), id),
        decreases items@.len() - i,
    {
        assert(items@.skip(i as int)[0] == items@[i as int]);
        if items[i].id == id {
            return Some(i);
        }
        assert(items@.skip(i as int).skip(1) =~= items@.skip(i as int + 1));
        i = i + 1;
    }
    None
}

/// Whether what is told of a track is what the player and the playlist say.
pub open spec fn tells_track(
    t: GqlNowPlayingTrack,
    info: OpenTrack,
    item: Option<PlaylistItem>,
    output_sample_rate: Option<u32>,
) -> bool {
    &&& match item {
        Some(i) => t.track_id == i.db_id && t.title@ == i.title@ && t.artist@ == i.artist@
            && t.album@ == i.album@,
        None => t.track_id is None && t.title@.len() == 0 && t.artist@.len() == 0 && t.album@.len()
            == 0,
    }
    &&& t.codec@ == info.codec@
    &&& t.sample_rate == info.sample_rate
    &&& t.bit_depth == info.bit_depth
    &&& t.bitrate_kbps == info.bitrate_kbps
    &&& t.channels == info.channels
    &&& t.duration_ms == info.duration_ms
    &&& t.output_sample_rate == output_sample_rate
}

impl GqlNowPlaying {
    /// What plays, for the query and the subscription alike.
    pub fn capture(player: &PlayerSnapshot) -> (r: Self)
        ensures
            r.state == player.state,
            r.position_ms == player.position_ms,
            match player.track {
                None => r.duration_ms is None && r.track is None && r.queue_item_id is None,
                Some(info) => {
                    &&& r.duration_ms == Some(info.duration_ms)
                    &&& opt_text(r.queue_item_id) == Some(uuid_text(info.id.0))
                    &&& r.track is Some
                    &&& tells_track(
                        r.track->0,
                        info,
                        item_with_id(player.playlist@, info.id),
                        player.output_sample_rate,
                    )
                },
            },
    {
        match &player.track {
            None => GqlNowPlaying {
                state: player.state,
                position_ms: player.position_ms,
                duration_ms: None,
                track: None,
                queue_item_id: None,
            },
            Some(info) => {
                let (track_id, title, artist, album) = match find_item(&player.playlist, info.id) {
                    Some(i) => {
                        let item = &player.playlist[i];
                        (item.db_id, item.title.clone(), item.artist.clone(), item.album.clone())
                    },
                    None => (None, String::new(), String::new(), String::new()),
                };
                GqlNowPlaying {
                    state: player.state,
                    position_ms: player.position_ms,
                    duration_ms: Some(info.duration_ms),
                    track: Some(
                        GqlNowPlayingTrack {
                            track_id,
                            title,
                            artist,
                            album,
                            codec: info.codec.clone(),
                            sample_rate: info.sample_rate,
                            bit_depth: info.bit_depth,
                            bitrate_kbps: info.bitrate_kbps,
                            channels: info.channels,
                            duration_ms: info.duration_ms,
                            output_sample_rate: player.output_sample_rate,
                        },
                    ),
                    queue_item_id: Some(queue_item_text(info.id)),
                }
            },
        }
    }
}

/// How far a download is.
#[derive(Clone, Copy, Debug)]
pub struct GqlDownloadProgress {
    pub downloaded: u64,
    /// Zero where it is not known.
    pub total: u64,
}

/// An entry of the queue.
#[derive(Debug)]
pub struct GqlQueueEntry {
    pub queue_item_id: String,
    pub track_id: Option<i64>,
    pub title: String,
    pub artist: String,
    pub album: String,
    pub codec: Option<String>,
    pub track_number: Option<i64>,
    pub disc: Option<i64>,
    pub duration_ms: Option<u64>,
    pub is_current: bool,
    pub status: QueueEntryStatus,
    pub download_progress: Option<GqlDownloadProgress>,
    /// Why the entry cannot play; there only if it has failed.
    pub failure_reason: Option<String>,
}

/// The queue, with a version that changes with it.
#[derive(Debug)]
pub struct GqlQueueSnapshot {
    pub version: u64,
    pub entries: Vec<GqlQueueEntry>,
    pub finished_count: i32,
    pub has_playing: bool,
    pub queue_count: i32,
}

/// The queue, as the player shows it.
#[derive(Debug)]
pub struct VisibleQueue {
    pub version: u64,
    pub entries: Vec<QueueEntry>,
    pub finished_count: usize,
    pub has_playing: bool,
    pub queue_count: usize,
}

/// Whether what is told of an entry is what the player says.
pub open spec fn tells_entry(g: GqlQueueEntry, e: QueueEntry) -> bool {
    &&& g.queue_item_id@ == uuid_text(e.id.0)
    &&& g.track_id == e.db_id
    &&& g.title@ == e.title@
    &&& g.artist@ == e.artist@
    &&& g.album@ == e.album@
    &&& opt_text(g.codec) == opt_text(e.codec)
    &&& g.track_number == e.track_number
    &&& g.disc == e.disc
    &&& g.duration_ms == e.duration_ms
    &&& g.is_current == (e.status == QueueEntryStatus::Playing)
    &&& g.status == e.status
    &&& match (e.download_progress, g.download_progress) {
        (Some((downloaded, total)), Some(p)) => p.downloaded == downloaded && p.total == total,
        (None, None) => true,
        _ => false,
    }
    &&& opt_text(g.failure_reason) == if e.status == QueueEntryStatus::Failed {
        opt_text(e.error)
    } else {
        None
    }
}

fn tell_entry(e: &QueueEntry) -> (g: GqlQueueEntry)
    ensures
        tells_entry(g, *e),
{
    GqlQueueEntry {
        queue_item_id: queue_item_text(e.id),
        track_id: e.db_id,
        title: e.title.clone(),
        artist: e.artist.clone(),
        album: e.album.clone(),
        codec: e.codec.clone(),
        track_number: e.track_number,
        disc: e.disc,
        duration_ms: e.duration_ms,
        is_current: e.status == QueueEntryStatus::Playing,
        status: e.status,
        download_progress: match e.download_progress {
            Some((downloaded, total)) => Some(GqlDownloadProgress { downloaded, total }),
            None => None,
        },
        failure_reason: if e.status == QueueEntryStatus::Failed {
            e.error.clone()
        } else {
            None
        },
    }
}

impl GqlQueueSnapshot {
    /// The queue, for the query and the subscription alike.
    pub fn capture(queue: &VisibleQueue) -> (r: Self)
        ensures
            r.version == queue.version,
            r.entries@.len() == queue.entries@.len(),
            forall|i: int|
                0 <= i < r.entries@.len() ==> tells_entry(
                    #[trigger] r.entries@[i],
                    queue.entries@[i],
                ),
            r.finished_count == as_i32(queue.finished_count as int),
            r.has_playing == queue.has_playing,
            r.queue_count == as_i32(queue.queue_count as int),
    {
        let mut entries: Vec<GqlQueueEntry> = Vec::new();
        let mut i: usize = 0;
        while i < queue.entries.len()
            invariant
                i <= queue.entries@.len(),
                entries@.len() == i,
                forall|k: int|
                    0 <= k < i ==> tells_entry(#[trigger] entries@[k], queue.entries@[k]),
            decreases queue.entries@.len() - i,
        {
            entries.push(tell_entry(&queue.entries[i]));
            i = i + 1;
        }
        GqlQueueSnapshot {
            version: queue.version,
            entries,
            finished_count: wrapped_i32(queue.finished_count),
            has_playing: queue.has_playing,
            queue_count: wrapped_i32(queue.queue_count),
        }
    }
}

// ---------------------------------------------------------------------------
// What is done
// ---------------------------------------------------------------------------

/// What the player is told to do.
#[derive(Debug)]
pub enum PlayerCommand {
    Play(QueueItemId),
    Pause,
    Resume,
    Stop,
    NextTrack,
    PrevTrack,
    Seek(u64),
    AddToPlaylist(Vec<PlaylistItem>),
    ReplacePlaylist { items: Vec<PlaylistItem>, start: usize },
    RemoveFromPlaylistBatch(Vec<QueueItemId>),
    MoveItemsInPlaylist { ids: Vec<QueueItemId>, target: QueueItemId, after: bool },
    ClearPlaylist,
    Undo,
    Redo,
    SetOutputDevice(String),
    ClearOutputDevice,
}

/// How an order went.
#[derive(Debug)]
pub struct GqlStatus {
    pub success: bool,
    pub message: String,
}

impl GqlStatus {
    /// Whether an order went well, with a message.
    pub open spec fn tells(self, message: Seq<char>) -> bool {
        self.success && self.message@ == message
    }

    /// An order that went well.
    pub fn success(msg: &str) -> (r: Self)
        ensures
            r.tells(msg@),
    {
        GqlStatus { success: true, message: msg.to_owned() }
    }
}

/// A simple order to the player.
#[derive(Clone, Copy, Debug, PartialEq, Eq, Structural)]
pub enum SimpleOrder {
    Pause,
    Resume,
    Stop,
    Next,
    Previous,
    ClearQueue,
    Undo,
    Redo,
    ClearDevice,
}

/// The command of a simple order.
pub open spec fn simple_command(order: SimpleOrder) -> PlayerCommand {
    match order {
        SimpleOrder::Pause => PlayerCommand::Pause,
        SimpleOrder::Resume => PlayerCommand::Resume,
        SimpleOrder::Stop => PlayerCommand::Stop,
        SimpleOrder::Next => PlayerCommand::NextTrack,
        SimpleOrder::Previous => PlayerCommand::PrevTrack,
        SimpleOrder::ClearQueue => PlayerCommand::ClearPlaylist,
        SimpleOrder::Undo => PlayerCommand::Undo,
        SimpleOrder::Redo => PlayerCommand::Redo,
        SimpleOrder::ClearDevice => PlayerCommand::ClearOutputDevice,
    }
}

/// What is answered to a simple order.
pub open spec fn simple_text(order: SimpleOrder) -> Seq<char> {
    match order {
        SimpleOrder::Pause => "paused"@,
        SimpleOrder::Resume => "resumed"@,
        SimpleOrder::Stop => "stopped"@,
        SimpleOrder::Next => "skipped to next"@,
        SimpleOrder::Previous => "skipped to previous"@,
        SimpleOrder::ClearQueue => "queue cleared"@,
        SimpleOrder::Undo => "undone"@,
        SimpleOrder::Redo => "redone"@,
        SimpleOrder::ClearDevice => "device cleared, using system default"@,
    }
}

/// A simple order: the command, and what is answered once it is sent.
pub fn simple_order(order: SimpleOrder) -> (r: (PlayerCommand, GqlStatus))
    ensures
        r.0 == simple_command(order),
        r.1.tells(simple_text(order)),
{
    match order {
        SimpleOrder::Pause => (PlayerCommand::Pause, GqlStatus::success("paused")),
        SimpleOrder::Resume => (PlayerCommand::Resume, GqlStatus::success("resumed")),
        SimpleOrder::Stop => (PlayerCommand::Stop, GqlStatus::success("stopped")),
        SimpleOrder::Next => (PlayerCommand::NextTrack, GqlStatus::success("skipped to next")),
        SimpleOrder::Previous => (
            PlayerCommand::PrevTrack,
            GqlStatus::success("skipped to previous"),
        ),
        SimpleOrder::ClearQueue => (
            PlayerCommand::ClearPlaylist,
            GqlStatus::success("queue cleared"),
        ),
        SimpleOrder::Undo => (PlayerCommand::Undo, GqlStatus::success("undone")),
        SimpleOrder::Redo => (PlayerCommand::Redo, GqlStatus::success("redone")),
        SimpleOrder::ClearDevice => (
            PlayerCommand::ClearOutputDevice,
            GqlStatus::success("device cleared, using system default"),
        ),
    }
}

/// The order to play an entry.
pub fn order_play(id: QueueItemId) -> (r: (PlayerCommand, GqlStatus))
    ensures
        r.0 == PlayerCommand::Play(id),
        r.1.tells("playing"@),
{
    (PlayerCommand::Play(id), GqlStatus::success("playing"))
}

/// The order to take entries out.
pub fn order_removal(ids: Vec<QueueItemId>) -> (r: (PlayerCommand, GqlStatus))
    ensures
        r.0 == PlayerCommand::RemoveFromPlaylistBatch(ids),
        r.1.tells("removed "@ + decimal(ids@.len()) + " items from queue"@),
{
    let text = around_decimal("removed ", ids.len() as u64, " items from queue");
    (PlayerCommand::RemoveFromPlaylistBatch(ids), GqlStatus::success(text.as_str()))
}

/// The order to move entries.
pub fn order_move(ids: Vec<QueueItemId>, target: QueueItemId, after: bool) -> (r: (
    PlayerCommand,
    GqlStatus,
))
    ensures
        r.0 == (PlayerCommand::MoveItemsInPlaylist { ids, target, after }),
        r.1.tells("queue reordered"@),
{
    (
        PlayerCommand::MoveItemsInPlaylist { ids, target, after },
        GqlStatus::success("queue reordered"),
    )
}

/// Plays an entry of the queue.
pub fn play(queue_item_id: &str) -> (r: Result<(PlayerCommand, GqlStatus), String>)
    ensures
        match (uuid_parsed(queue_item_id@), r) {
            (Ok(n), Ok((command, status))) => command == PlayerCommand::Play(QueueItemId(n))
                && status.tells("playing"@),
            (Err(e), Err(m)) => m@ == invalid_id_text(queue_item_id@, e),
            _ => false,
        },
{
    match parse_queue_item_id(queue_item_id) {
        Ok(id) => Ok(order_play(id)),
        Err(m) => Err(m),
    }
}

/// Moves the play head.
pub fn seek(position_ms: i64) -> (r: (PlayerCommand, GqlStatus))
    ensures
        r.0 is Seek,
        r.0->Seek_0 == as_unsigned(position_ms),
        r.1.tells("seeked to "@ + decimal_int(position_ms as int) + "ms"@),
{
    let text = concat3("seeked to ", decimal_of_int(position_ms).as_str(), "ms");
    (PlayerCommand::Seek(unsigned_of(position_ms)), GqlStatus::success(text.as_str()))
}

/// Chooses an output device.
pub fn set_device(name: String) -> (r: (PlayerCommand, GqlStatus))
    ensures
        r.0 == PlayerCommand::SetOutputDevice(name),
        r.1.tells("switched to device '"@ + name@ + "'"@),
{
    let status = GqlStatus::success(concat3("switched to device '", name.as_str(), "'").as_str());
    (PlayerCommand::SetOutputDevice(name), status)
}

/// Takes entries out of the queue.
pub fn remove_from_queue(queue_item_ids: &Vec<String>) -> (r: Result<
    (PlayerCommand, GqlStatus),
    String,
>)
    ensures
        match r {
            Ok((command, status)) => {
                &&& command is RemoveFromPlaylistBatch
                &&& all_read(queue_item_ids@, command->RemoveFromPlaylistBatch_0@)
                &&& status.tells(
                    "removed "@ + decimal(queue_item_ids@.len()) + " items from queue"@,
                )
            },
            Err(m) => first_unread(queue_item_ids@, m@),
        },
{
    match parse_queue_item_ids(queue_item_ids) {
        Ok(ids) => Ok(order_removal(ids)),
        Err(m) => Err(m),
    }
}

/// Whether a complaint is about the first of some texts that is no identifier.
pub open spec fn first_unread(list: Seq<String>, m: Seq<char>) -> bool {
    exists|k: int|
        {
            &&& 0 <= k < list.len()
            &&& uuid_parsed(#[trigger] list[k]@) is Err
            &&& m == invalid_id_text(list[k]@, uuid_parsed(list[k]@)->Err_0)
            &&& forall|j: int| 0 <= j < k ==> uuid_parsed(#[trigger] list[j]@) is Ok
        }
}

/// Moves entries of the queue before or behind another.
pub fn move_in_queue(queue_item_ids: &Vec<String>, target: &str, after: bool) -> (r: Result<
    (PlayerCommand, GqlStatus),
    String,
>)
    ensures
        match r {
            Ok((command, status)) => {
                &&& match command {
                    PlayerCommand::MoveItemsInPlaylist { ids, target: to, after: behind } => {
                        &&& all_read(queue_item_ids@, ids@)
                        &&& uuid_parsed(target@) == Ok::<u128, Seq<char>>(to.0)
                        &&& behind == after
                    },
                    _ => false,
                }
                &&& status.tells("queue reordered"@)
            },
            Err(m) => first_unread(queue_item_ids@, m@) || (uuid_parsed(target@) is Err && m@
                == invalid_id_text(target@, uuid_parsed(target@)->Err_0) && forall|j: int|
                0 <= j < queue_item_ids@.len() ==> uuid_parsed(#[trigger] queue_item_ids@[j]@)
                    is Ok),
        },
{
    match parse_queue_item_ids(queue_item_ids) {
        Ok(ids) => match parse_queue_item_id(target) {
            Ok(to) => Ok(order_move(ids, to, after)),
            Err(m) => Err(m),
        },
        Err(m) => Err(m),
    }
}

/// Tracks as queue items, and those of them that have to be downloaded.
#[derive(Debug)]
pub struct ResolvedQueue {
    pub items: Vec<PlaylistItem>,
    pub pending_downloads: Vec<(i64, QueueItemId)>,
}

/// The items that have to be downloaded, with the numbers of their tracks.
pub open spec fn downloads_of(found: Seq<(i64, PlaylistItem)>) -> Seq<(i64, QueueItemId)>
    decreases found.len(),
{
    if found.len() == 0 {
        Seq::empty()
    } else {
        let before = downloads_of(found.drop_last());
        if found.last().1.pending {
            before.push((found.last().0, found.last().1.id))
        } else {
            before
        }
    }
}

/// The tracks that were found as queue items, and those that have to be downloaded.
pub fn resolve_tracks(found: Vec<(i64, PlaylistItem)>) -> (r: ResolvedQueue)
    ensures
        r.items@ == found@.map_values(|f: (i64, PlaylistItem)| f.1),
        r.pending_downloads@ == downloads_of(found@),
{
    let ghost all = found@;
    let ghost want = all.map_values(|f: (i64, PlaylistItem)| f.1);
    let mut items: Vec<PlaylistItem> = Vec::new();
    let mut pending_downloads: Vec<(i64, QueueItemId)> = Vec::new();
    assert(all.take(0) =~= Seq::empty());
    assert(want.take(0) =~= Seq::empty());
    for f in it: found
        invariant
            it.seq() == all,
            want == all.map_values(|f: (i64, PlaylistItem)| f.1),
            items@ == want.take(it.index() as int),
            pending_downloads@ == downloads_of(all.take(it.index() as int)),
    {
        proof {
            let i = it.index() as int;
            assert(all.take(i + 1).drop_last() =~= all.take(i));
            assert(all.take(i + 1).last() == all[i]);
            take_push(want, i);
        }
        let (track_id, item) = f;
        if item.pending {
            pending_downloads.push((track_id, item.id));
        }
        items.push(item);
    }
    assert(all.take(all.len() as int) =~= all);
    assert(want.take(all.len() as int) =~= want);
    ResolvedQueue { items, pending_downloads }
}

/// One thing to do for an order about the queue; where sending fails the rest is left.
#[derive(Debug)]
pub enum QueueStep {
    Send(PlayerCommand),
    /// Play the entry if the player is stopped by then.
    PlayIfStopped(QueueItemId),
    Download(Vec<(i64, QueueItemId)>),
}

/// The command that plays an entry of a player that is stopped.
pub fn autoplay(state: PlaybackState, id: QueueItemId) -> (r: Option<PlayerCommand>)
    ensures
        r == if state == PlaybackState::Stopped {
            Some(PlayerCommand::Play(id))
        } else {
            None
        },
{
    if state == PlaybackState::Stopped {
        Some(PlayerCommand::Play(id))
    } else {
        None
    }
}

/// How a change of the queue went.
#[derive(Debug)]
pub struct GqlQueueMutationResult {
    pub success: bool,
    pub message: String,
    pub added_count: i32,
    pub queue_item_ids: Vec<String>,
}

/// Whether a result tells of some items.
pub open spec fn tells_added(
    r: GqlQueueMutationResult,
    items: Seq<PlaylistItem>,
    before: Seq<char>,
) -> bool {
    &&& r.success
    &&& r.added_count == as_i32(items.len() as int)
    &&& r.message@ == before + decimal_int(as_i32(items.len() as int)) + " tracks"@
    &&& texts(r.queue_item_ids@) == items.map_values(|i: PlaylistItem| uuid_text(i.id.0))
}

fn tell_added(items: &Vec<PlaylistItem>, before: &str) -> (r: GqlQueueMutationResult)
    ensures
        tells_added(r, items@, before@),
{
    let ghost want = items@.map_values(|i: PlaylistItem| uuid_text(i.id.0));
    let mut ids: Vec<String> = Vec::new();
    let mut i: usize = 0;
    while i < items.len()
        invariant
            i <= items@.len(),
            want == items@.map_values(|i: PlaylistItem| uuid_text(i.id.0)),
            texts(ids@) == want.take(i as int),
        decreases items@.len() - i,
    {
        ids.push(queue_item_text(items[i].id));
        proof {
            take_push(want, i as int);
        }
        i = i + 1;
    }
    assert(want.take(i as int) =~= want);
    let count = wrapped_i32(items.len());
    GqlQueueMutationResult {
        success: true,
        message: concat3(before, decimal_of_int(count as i64).as_str(), " tracks"),
        added_count: count,
        queue_item_ids: ids,
    }
}

/// The download that follows, if there is anything to download.
pub open spec fn download_steps(pending: Vec<(i64, QueueItemId)>) -> Seq<QueueStep> {
    if pending@.len() > 0 {
        seq![QueueStep::Download(pending)]
    } else {
        Seq::empty()
    }
}

/// Adds tracks to the queue: the first of them plays if nothing does.
pub fn add_to_queue(resolved: ResolvedQueue) -> (r: (Vec<QueueStep>, GqlQueueMutationResult))
    ensures
        tells_added(r.1, resolved.items@, "queued "@),
        r.0@ == if resolved.items@.len() == 0 {
            Seq::<QueueStep>::empty()
        } else {
            seq![
                QueueStep::Send(PlayerCommand::AddToPlaylist(resolved.items)),
                QueueStep::PlayIfStopped(resolved.items@[0].id),
            ] + download_steps(resolved.pending_downloads)
        },
{
    let result = tell_added(&resolved.items, "queued ");
    let mut steps: Vec<QueueStep> = Vec::new();
    let ghost want = if resolved.items@.len() == 0 {
        Seq::<QueueStep>::empty()
    } else {
        seq![
            QueueStep::Send(PlayerCommand::AddToPlaylist(resolved.items)),
            QueueStep::PlayIfStopped(resolved.items@[0].id),
        ] + download_steps(resolved.pending_downloads)
    };
    if resolved.items.len() > 0 {
        let first = resolved.items[0].id;
        steps.push(QueueStep::Send(PlayerCommand::AddToPlaylist(resolved.items)));
        steps.push(QueueStep::PlayIfStopped(first));
        if resolved.pending_downloads.len() > 0 {
            steps.push(QueueStep::Download(resolved.pending_downloads));
        }
    }
    assert(steps@ =~= want);
    (steps, result)
}

/// Where a new queue starts: as asked, not below the first.
pub open spec fn start_place(start_at: Option<i32>) -> int {
    match start_at {
        Some(n) => if n < 0 {
            0
        } else {
            n as int
        },
        None => 0,
    }
}

/// Whether a step replaces the queue and starts at a place.
pub open spec fn replaces(step: QueueStep, items: Vec<PlaylistItem>, start: int) -> bool {
    match step {
        QueueStep::Send(PlayerCommand::ReplacePlaylist { items: sent, start: at }) => sent == items
            && at == start,
        _ => false,
    }
}

/// Replaces the queue, with one command, so that nothing plays before the track that was
/// asked for. Without tracks the queue is cleared.
pub fn replace_queue(resolved: ResolvedQueue, start_at: Option<i32>) -> (r: (
    Vec<QueueStep>,
    GqlQueueMutationResult,
))
    ensures
        tells_added(r.1, resolved.items@, "replaced queue with "@),
        if resolved.items@.len() == 0 {
            r.0@ == seq![QueueStep::Send(PlayerCommand::ClearPlaylist)]
        } else {
            r.0@.len() > 0 && replaces(r.0@[0], resolved.items, start_place(start_at))
                && r.0@.skip(1) == download_steps(resolved.pending_downloads)
        },
{
    let result = tell_added(&resolved.items, "replaced queue with ");
    let mut steps: Vec<QueueStep> = Vec::new();
    if resolved.items.len() == 0 {
        steps.push(QueueStep::Send(PlayerCommand::ClearPlaylist));
        assert(steps@ =~= seq![QueueStep::Send(PlayerCommand::ClearPlaylist)]);
    } else {
        let start: usize = match start_at {
            Some(n) => if n < 0 {
                0
            } else {
                n as usize
            },
            None => 0,
        };
        let ghost pending = resolved.pending_downloads;
        steps.push(
            QueueStep::Send(PlayerCommand::ReplacePlaylist { items: resolved.items, start }),
        );
        if resolved.pending_downloads.len() > 0 {
            steps.push(QueueStep::Download(resolved.pending_downloads));
        }
        assert(steps@.skip(1) =~= download_steps(pending));
    }
    (steps, result)
}

/// Replaces the queue with a playlist and plays it from its beginning.
pub fn play_playlist(resolved: ResolvedQueue) -> (r: (Vec<QueueStep>, GqlStatus))
    ensures
        r.1.tells("playing "@ + decimal(resolved.items@.len()) + " track(s)"@),
        r.0@ == if resolved.items@.len() == 0 {
            seq![QueueStep::Send(PlayerCommand::ClearPlaylist)]
        } else {
            seq![
                QueueStep::Send(PlayerCommand::ClearPlaylist),
                QueueStep::Send(PlayerCommand::AddToPlaylist(resolved.items)),
                QueueStep::Send(PlayerCommand::Play(resolved.items@[0].id)),
            ] + download_steps(resolved.pending_downloads)
        },
{
    let ghost want = if resolved.items@.len() == 0 {
        seq![QueueStep::Send(PlayerCommand::ClearPlaylist)]
    } else {
        seq![
            QueueStep::Send(PlayerCommand::ClearPlaylist),
            QueueStep::Send(PlayerCommand::AddToPlaylist(resolved.items)),
            QueueStep::Send(PlayerCommand::Play(resolved.items@[0].id)),
        ] + download_steps(resolved.pending_downloads)
    };
    let text = around_decimal("playing ", resolved.items.len() as u64, " track(s)");
    let mut steps: Vec<QueueStep> = Vec::new();
    steps.push(QueueStep::Send(PlayerCommand::ClearPlaylist));
    if resolved.items.len() > 0 {
        let first = resolved.items[0].id;
        steps.push(QueueStep::Send(PlayerCommand::AddToPlaylist(resolved.items)));
        steps.push(QueueStep::Send(PlayerCommand::Play(first)));
        if resolved.pending_downloads.len() > 0 {
            steps.push(QueueStep::Download(resolved.pending_downloads));
        }
    }
    assert(steps@ =~= want);
    (steps, GqlStatus::success(text.as_str()))
}

/// Only items of the queue are downloaded, each at most once.
pub proof fn downloads_are_items(found: Seq<(i64, PlaylistItem)>, k: int)
    requires
        0 <= k < downloads_of(found).len(),
    ensures
        exists|i: int|
            0 <= i < found.len() && (#[trigger] found[i]).1.pending && downloads_of(found)[k] == (
                found[i].0,
                found[i].1.id,
            ),
        downloads_of(found).len() <= found.len(),
    decreases found.len(),
{
    let rest = found.drop_last();
    downloads_fit(rest);
    if k < downloads_of(rest).len() {
        downloads_are_items(rest, k);
        let i = choose|i: int|
            0 <= i < rest.len() && (#[trigger] rest[i]).1.pending && downloads_of(rest)[k] == (
                rest[i].0,
                rest[i].1.id,
            );
        assert(found[i] == rest[i]);
    } else {
        assert(found[found.len() - 1].1.pending);
    }
}

proof fn downloads_fit(found: Seq<(i64, PlaylistItem)>)
    ensures
        downloads_of(found).len() <= found.len(),
    decreases found.len(),
{
    if found.len() > 0 {
        downloads_fit(found.drop_last());
    }
}

/// The library's numbers of the items that have one, in order.
pub open spec fn library_ids(items: Seq<PlaylistItem>) -> Seq<i64>
    decreases items.len(),
{
    if items.len() == 0 {
        Seq::empty()
    } else {
        match items.last().db_id {
            Some(id) => library_ids(items.drop_last()).push(id),
            None => library_ids(items.drop_last()),
        }
    }
}

/// What of the queue can be kept as a playlist: the items that the library has.
pub fn save_queue_as_playlist(items: &Vec<PlaylistItem>) -> (r: Vec<i64>)
    ensures
        r@ == library_ids(items@),
{
    let mut out: Vec<i64> = Vec::new();
    let mut i: usize = 0;
    assert(items@.take(0) =~= Seq::empty());
    while i < items.len()
        invariant
            i <= items@.len(),
            out@ == library_ids(items@.take(i as int)),
        decreases items@.len() - i,
    {
        assert(items@.take(i as int + 1).drop_last() =~= items@.take(i as int));
        if let Some(id) = items[i].db_id {
            out.push(id);
        }
        i = i + 1;
    }
    assert(items@.take(i as int) =~= items@);
    out
}

/// What is kept of the player's state.
#[derive(Debug)]
pub enum SavedState {
    /// Nothing: the queue is empty.
    Cleared,
    /// The queue, with the path of the item at the cursor.
    Saved { cursor_path: Option<String>, was_playing: bool },
}

/// What is kept of the player's state.
pub fn save_playback_state(
    items: &Vec<PlaylistItem>,
    cursor: Option<QueueItemId>,
    state: PlaybackState,
) -> (r: (SavedState, GqlStatus))
    ensures
        if items@.len() == 0 {
            r.0 == SavedState::Cleared && r.1.tells("playback state cleared (empty queue)"@)
        } else {
            &&& match r.0 {
                SavedState::Saved { cursor_path, was_playing } => {
                    &&& opt_text(cursor_path) == match cursor {
                        Some(id) => match item_with_id(items@, id) {
                            Some(i) => Some(i.path@),
                            None => None,
                        },
                        None => None,
                    }
                    &&& was_playing == (state == PlaybackState::Playing)
                },
                _ => false,
            }
            &&& r.1.tells("playback state saved"@)
        },
{
    if items.len() == 0 {
        return (
            SavedState::Cleared,
            GqlStatus::success("playback state cleared (empty queue)"),
        );
    }
    let cursor_path = match cursor {
        Some(id) => match find_item(items, id) {
            Some(i) => Some(items[i].path.clone()),
            None => None,
        },
        None => None,
    };
    (
        SavedState::Saved { cursor_path, was_playing: state == PlaybackState::Playing },
        GqlStatus::success("playback state saved"),
    )
}

/// What a track that was found has to be downloaded as: its number and its item's id, if the
/// item is pending.
pub open spec fn download_for() -> spec_fn((i64, PlaylistItem)) -> Option<(i64, QueueItemId)> {
    |f: (i64, PlaylistItem)|
        if f.1.pending {
            Some((f.0, f.1.id))
        } else {
            None
        }
}

/// Every track that is pending is downloaded, once and in the order they were found, and no
/// other.
pub proof fn every_pending_track_is_downloaded(found: Seq<(i64, PlaylistItem)>)
    ensures
        collects(found, download_for(), downloads_of(found)),
        forall|i: int|
            0 <= i < found.len() && (#[trigger] found[i]).1.pending ==> downloads_of(
                found,
            ).contains((found[i].0, found[i].1.id)),
    decreases found.len(),
{
    let f = download_for();
    if found.len() == 0 {
        collects_none(found, f, downloads_of(found));
    } else {
        every_pending_track_is_downloaded(found.drop_last());
        collects_push(found, f, downloads_of(found.drop_last()));
    }
    assert forall|i: int| 0 <= i < found.len() && (#[trigger] found[i]).1.pending implies downloads_of(
        found,
    ).contains((found[i].0, found[i].1.id)) by {
        assert(f(found[i]) == Some((found[i].0, found[i].1.id)));
        collected_are_given(found, f, downloads_of(found), (found[i].0, found[i].1.id));
    }
}

/// A queue that is saved as a playlist keeps every item that the library has, in the order
/// of the queue, and no other.
pub proof fn saved_queues_keep_library_items(items: Seq<PlaylistItem>)
    ensures
        collects(items, |i: PlaylistItem| i.db_id, library_ids(items)),
    decreases items.len(),
{
    let f = |i: PlaylistItem| i.db_id;
    if items.len() == 0 {
        collects_none(items, f, library_ids(items));
    } else {
        saved_queues_keep_library_items(items.drop_last());
        collects_push(items, f, library_ids(items.drop_last()));
    }
}

/// What is told of the item that plays is told of the first item with its id.
pub proof fn items_are_found_by_id(items: Seq<PlaylistItem>, id: QueueItemId)
    ensures
        match item_with_id(items, id) {
            Some(item) => exists|i: int|
                0 <= i < items.len() && item == #[trigger] items[i] && items[i].id == id
                    && forall|k: int| 0 <= k < i ==> (#[trigger] items[k]).id != id,
            None => forall|i: int| 0 <= i < items.len() ==> (#[trigger] items[i]).id != id,
        },
    decreases items.len(),
{
    if items.len() > 0 {
        let rest = items.skip(1);
        if items[0].id != id {
            items_are_found_by_id(rest, id);
            assert forall|k: int| 0 < k < items.len() implies #[trigger] items[k] == rest[k
                - 1] by {}
            if item_with_id(rest, id) is Some {
                let i = choose|i: int|
                    0 <= i < rest.len() && item_with_id(rest, id)->0 == #[trigger] rest[i]
                        && rest[i].id == id && forall|k: int|
                        0 <= k < i ==> (#[trigger] rest[k]).id != id;
                assert(items[i + 1] == rest[i]);
                assert forall|k: int| 0 <= k < i + 1 implies (#[trigger] items[k]).id != id by {
                    if k > 0 {
                        assert(rest[k - 1].id != id);
                    }
                }
            }
        }
    }
}

/// Each order for the player sends the command that it is named after.
pub proof fn orders_send_their_command(order: SimpleOrder)
    ensures
        order is Pause <==> simple_command(order) is Pause,
        order is Resume <==> simple_command(order) is Resume,
        order is Stop <==> simple_command(order) is Stop,
        order is Next <==> simple_command(order) is NextTrack,
        order is Previous <==> simple_command(order) is PrevTrack,
        order is ClearQueue <==> simple_command(order) is ClearPlaylist,
        order is Undo <==> simple_command(order) is Undo,
        order is Redo <==> simple_command(order) is Redo,
        order is ClearDevice <==> simple_command(order) is ClearOutputDevice,
{
}

/// What is told of the track that plays is what its item and its file say, each under its
/// own name.
pub proof fn playing_tracks_tell_their_item(
    t: GqlNowPlayingTrack,
    info: OpenTrack,
    item: PlaylistItem,
    output_sample_rate: Option<u32>,
)
    requires
        tells_track(t, info, Some(item), output_sample_rate),
    ensures
        t.track_id == item.db_id,
        t.title@ == item.title@,
        t.artist@ == item.artist@,
        t.album@ == item.album@,
        t.codec@ == info.codec@,
        t.sample_rate == info.sample_rate,
        t.bit_depth == info.bit_depth,
        t.bitrate_kbps == info.bitrate_kbps,
        t.channels == info.channels,
        t.duration_ms == info.duration_ms,
        t.output_sample_rate == output_sample_rate,
{
}

/// What is told of an entry of the queue is what the entry says, each under its own name; it
/// is the current one if it plays, and tells an error only if it failed.
pub proof fn entries_tell_what_they_are(g: GqlQueueEntry, e: QueueEntry)
    requires
        tells_entry(g, e),
    ensures
        g.queue_item_id@ == uuid_text(e.id.0),
        g.track_id == e.db_id,
        g.title@ == e.title@,
        g.artist@ == e.artist@,
        g.album@ == e.album@,
        opt_text(g.codec) == opt_text(e.codec),
        g.track_number == e.track_number,
        g.disc == e.disc,
        g.duration_ms == e.duration_ms,
        g.status == e.status,
        g.is_current <==> e.status is Playing,
        g.download_progress is Some <==> e.download_progress is Some,
        e.download_progress matches Some((downloaded, total)) ==> g.download_progress->0.downloaded
            == downloaded && g.download_progress->0.total == total,
        e.status is Failed ==> opt_text(g.failure_reason) == opt_text(e.error),
        !(e.status is Failed) ==> g.failure_reason is None,
{
}

/// What was added is told by its number and by the id of each item, in order.
pub proof fn added_tracks_are_told(
    r: GqlQueueMutationResult,
    items: Seq<PlaylistItem>,
    before: Seq<char>,
)
    requires
        tells_added(r, items, before),
        items.len() <= i32::MAX,
    ensures
        r.success,
        r.added_count == items.len(),
        r.message@ == before + decimal(items.len()) + " tracks"@,
        r.queue_item_ids@.len() == items.len(),
        forall|i: int|
            0 <= i < items.len() ==> (#[trigger] r.queue_item_ids@[i])@ == uuid_text(
                items[i].id.0,
            ),
{
    assert(texts(r.queue_item_ids@).len() == items.len());
    assert forall|i: int| 0 <= i < items.len() implies (#[trigger] r.queue_item_ids@[i])@
        == uuid_text(items[i].id.0) by {
        assert(texts(r.queue_item_ids@)[i] == r.queue_item_ids@[i]@);
    }
}

/// What has to be downloaded is asked for in one step, and nothing is where nothing has to.
pub proof fn downloads_are_asked_for(pending: Vec<(i64, QueueItemId)>)
    ensures
        pending@.len() == 0 ==> download_steps(pending).len() == 0,
        pending@.len() > 0 ==> download_steps(pending).len() == 1 && download_steps(pending)[0]
            is Download && download_steps(pending)[0]->Download_0@ == pending@,
{
}

/// A new queue starts at the place that is given, at the first where none is or it lies
/// before that.
pub proof fn queues_start_where_asked(n: i32)
    ensures
        start_place(None) == 0,
        n >= 0 ==> start_place(Some(n)) == n,
        n < 0 ==> start_place(Some(n)) == 0,
{
}

/// A message is told of something that went well.
pub proof fn statuses_tell_their_message(s: GqlStatus, message: Seq<char>)
    requires
        s.tells(message),
    ensures
        s.success,
        s.message@ == message,
{
}

/// Each order is answered with what was done.
pub proof fn orders_are_answered(order: SimpleOrder)
    ensures
        order is Pause ==> simple_text(order) == "paused"@,
        order is Resume ==> simple_text(order) == "resumed"@,
        order is Stop ==> simple_text(order) == "stopped"@,
        order is Next ==> simple_text(order) == "skipped to next"@,
        order is Previous ==> simple_text(order) == "skipped to previous"@,
        order is ClearQueue ==> simple_text(order) == "queue cleared"@,
        order is Undo ==> simple_text(order) == "undone"@,
        order is Redo ==> simple_text(order) == "redone"@,
        order is ClearDevice ==> simple_text(order) == "device cleared, using system default"@,
{
}

/// A queue is replaced by all its new items, from the place that was asked for.
pub proof fn replaced_queues_hold_their_items(
    step: QueueStep,
    items: Vec<PlaylistItem>,
    start: int,
)
    requires
        replaces(step, items, start),
    ensures
        step is Send,
        step->Send_0 is ReplacePlaylist,
        step->Send_0->ReplacePlaylist_items@ == items@,
        step->Send_0->start == start,
{
}

/// The first id that cannot be read is the one that is told.
pub proof fn unreadable_ids_are_told(list: Seq<String>, m: Seq<char>)
    requires
        first_unread(list, m),
    ensures
        exists|k: int|
            0 <= k < list.len() && uuid_parsed(#[trigger] list[k]@) is Err && m
                == "invalid queue item ID '"@ + list[k]@ + "': "@ + uuid_parsed(list[k]@)->Err_0
                && forall|j: int| 0 <= j < k ==> uuid_parsed(#[trigger] list[j]@) is Ok,
{
    let k = choose|k: int|
        {
            &&& 0 <= k < list.len()
            &&& uuid_parsed(#[trigger] list[k]@) is Err
            &&& m == invalid_id_text(list[k]@, uuid_parsed(list[k]@)->Err_0)
            &&& forall|j: int| 0 <= j < k ==> uuid_parsed(#[trigger] list[j]@) is Ok
        };
    assert(uuid_parsed(list[k]@) is Err);
}

} // verus!
