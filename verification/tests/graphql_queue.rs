use koan::graphql::mutations::{
    add_to_playlist, config, delete_playlist, organize_plan, organize_undo, rename_playlist,
    require_organize, scan_text, set_favourite, set_playlist_tracks, sync_favourite_to_remote,
    sync_text, update_config, FavouriteWrite, GqlConfigInput, GqlPlanOutcome, PlanEntry,
    PlanOutcome, ReplayGainMode, Settings,
};
use koan::graphql::queue::{
    add_to_queue, autoplay, move_in_queue, play, play_playlist, remove_from_queue, replace_queue,
    resolve_tracks, save_playback_state, save_queue_as_playlist, seek, set_device, simple_order,
    GqlNowPlaying, GqlQueueSnapshot, OpenTrack, PlayerCommand, PlayerSnapshot,
    PlaylistItem, QueueStep, ResolvedQueue, SavedState, SimpleOrder, VisibleQueue,
};
use koan::player::{PlaybackState, QueueEntry, QueueEntryStatus, QueueItemId};
use koan::text::wrapped_i32;

fn item(n: u128, title: &str, pending: bool) -> PlaylistItem {
    PlaylistItem {
        id: QueueItemId(n),
        db_id: Some(n as i64 + 100),
        path: format!("/music/{title}.flac"),
        title: title.into(),
        artist: "Aphex Twin".into(),
        album_artist: "Aphex Twin".into(),
        album: "Windowlicker EP".into(),
        year: None,
        codec: Some("FLAC".into()),
        track_number: Some(1),
        disc: Some(1),
        duration_ms: Some(240_000),
        pending,
    }
}

const ONE: &str = "00000000-0000-0000-0000-000000000001";
const TWO: &str = "00000000-0000-0000-0000-000000000002";

fn player(track: Option<u128>) -> PlayerSnapshot {
    PlayerSnapshot {
        state: PlaybackState::Playing,
        position_ms: 1500,
        track: track.map(|n| OpenTrack {
            id: QueueItemId(n),
            codec: "FLAC".into(),
            sample_rate: 96_000,
            bit_depth: Some(24),
            bitrate_kbps: None,
            channels: 2,
            duration_ms: 240_000,
        }),
        output_sample_rate: Some(48_000),
        playlist: vec![item(1, "Windowlicker", false), item(2, "Nannou", false)],
    }
}

#[test]
fn a_stopped_player_plays_nothing() {
    let mut stopped = player(None);
    stopped.state = PlaybackState::Stopped;
    let now = GqlNowPlaying::capture(&stopped);
    assert_eq!(now.state, PlaybackState::Stopped);
    assert_eq!(now.position_ms, 1500);
    assert!(now.track.is_none());
    assert!(now.duration_ms.is_none());
    assert!(now.queue_item_id.is_none());
}

#[test]
fn what_plays_is_named() {
    let now = GqlNowPlaying::capture(&player(Some(2)));
    assert_eq!(now.queue_item_id.as_deref(), Some(TWO));
    assert_eq!(now.duration_ms, Some(240_000));
    let track = now.track.unwrap();
    assert_eq!(track.title, "Nannou");
    assert_eq!(track.artist, "Aphex Twin");
    assert_eq!(track.album, "Windowlicker EP");
    assert_eq!(track.track_id, Some(102));
    assert_eq!(track.sample_rate, 96_000);
    assert_eq!(track.bit_depth, Some(24));
    assert_eq!(track.output_sample_rate, Some(48_000));

    // Not on the playlist any more.
    let gone = GqlNowPlaying::capture(&player(Some(9))).track.unwrap();
    assert_eq!(gone.title, "");
    assert_eq!(gone.track_id, None);
    assert_eq!(gone.codec, "FLAC");
}

fn entry(n: u128, status: QueueEntryStatus) -> QueueEntry {
    QueueEntry {
        id: QueueItemId(n),
        db_id: None,
        path: "/p".into(),
        title: "Windowlicker".into(),
        artist: "Aphex Twin".into(),
        album_artist: "Aphex Twin".into(),
        album: "EP".into(),
        year: None,
        codec: None,
        track_number: None,
        disc: None,
        duration_ms: Some(7),
        status,
        download_progress: None,
        error: None,
    }
}

#[test]
fn the_queue_is_told_entry_by_entry() {
    let mut loading = entry(2, QueueEntryStatus::Downloading);
    loading.download_progress = Some((10, 0));
    let mut failed = entry(3, QueueEntryStatus::Failed);
    failed.error = Some("gone".into());
    let mut stale = entry(4, QueueEntryStatus::Queued);
    stale.error = Some("left over".into());
    let snap = GqlQueueSnapshot::capture(&VisibleQueue {
        version: 12,
        entries: vec![entry(1, QueueEntryStatus::Playing), loading, failed, stale],
        finished_count: 0,
        has_playing: true,
        queue_count: 2,
    });
    assert_eq!(snap.version, 12);
    assert!(snap.has_playing);
    assert_eq!((snap.finished_count, snap.queue_count), (0, 2));
    assert_eq!(snap.entries[0].queue_item_id, ONE);
    assert!(snap.entries[0].is_current);
    assert!(!snap.entries[1].is_current);
    let progress = snap.entries[1].download_progress.unwrap();
    assert_eq!((progress.downloaded, progress.total), (10, 0));
    assert!(snap.entries[0].download_progress.is_none());
    assert_eq!(snap.entries[2].failure_reason.as_deref(), Some("gone"));
    assert_eq!(snap.entries[2].status, QueueEntryStatus::Failed);
    // Only what has failed has a reason.
    assert_eq!(snap.entries[3].failure_reason, None);
}

#[test]
fn great_numbers_wrap() {
    assert_eq!(wrapped_i32(5), 5);
    assert_eq!(wrapped_i32(0x8000_0000), i32::MIN);
    assert_eq!(wrapped_i32(0x1_0000_0001), 1);
}

#[test]
fn simple_orders() {
    let (cmd, status) = simple_order(SimpleOrder::Pause);
    assert!(matches!(cmd, PlayerCommand::Pause));
    assert!(status.success);
    assert_eq!(status.message, "paused");
    let (cmd, status) = simple_order(SimpleOrder::ClearQueue);
    assert!(matches!(cmd, PlayerCommand::ClearPlaylist));
    assert_eq!(status.message, "queue cleared");
    for (order, text) in [
        (SimpleOrder::Resume, "resumed"),
        (SimpleOrder::Stop, "stopped"),
        (SimpleOrder::Next, "skipped to next"),
        (SimpleOrder::Previous, "skipped to previous"),
        (SimpleOrder::Undo, "undone"),
        (SimpleOrder::Redo, "redone"),
        (SimpleOrder::ClearDevice, "device cleared, using system default"),
    ] {
        assert_eq!(simple_order(order).1.message, text);
    }
}

#[test]
fn orders_about_entries() {
    let (cmd, status) = play(ONE).unwrap();
    assert!(matches!(cmd, PlayerCommand::Play(QueueItemId(1))));
    assert_eq!(status.message, "playing");
    assert!(play("x").is_err());

    let (cmd, status) = remove_from_queue(&vec![ONE.into(), TWO.into()]).unwrap();
    match cmd {
        PlayerCommand::RemoveFromPlaylistBatch(ids) => {
            assert_eq!(ids, vec![QueueItemId(1), QueueItemId(2)])
        }
        other => panic!("{:?}", other),
    }
    assert_eq!(status.message, "removed 2 items from queue");
    let complaint = remove_from_queue(&vec![ONE.into(), "b".into(), "c".into()]).unwrap_err();
    assert!(complaint.starts_with("invalid queue item ID 'b': "));

    let (cmd, status) = move_in_queue(&vec![ONE.into()], TWO, true).unwrap();
    match cmd {
        PlayerCommand::MoveItemsInPlaylist { ids, target, after } => {
            assert_eq!(ids, vec![QueueItemId(1)]);
            assert_eq!(target, QueueItemId(2));
            assert!(after);
        }
        other => panic!("{:?}", other),
    }
    assert_eq!(status.message, "queue reordered");
    let complaint = move_in_queue(&vec![ONE.into()], "there", true).unwrap_err();
    assert!(complaint.starts_with("invalid queue item ID 'there': "));
}

#[test]
fn seeking_and_devices() {
    let (cmd, status) = seek(1234);
    assert!(matches!(cmd, PlayerCommand::Seek(1234)));
    assert_eq!(status.message, "seeked to 1234ms");
    let (cmd, status) = seek(-1);
    assert!(matches!(cmd, PlayerCommand::Seek(u64::MAX)));
    assert_eq!(status.message, "seeked to -1ms");
    let (cmd, status) = set_device("DAC".into());
    match cmd {
        PlayerCommand::SetOutputDevice(name) => assert_eq!(name, "DAC"),
        other => panic!("{:?}", other),
    }
    assert_eq!(status.message, "switched to device 'DAC'");
}

fn two_tracks() -> ResolvedQueue {
    resolve_tracks(vec![(7, item(1, "A", false)), (8, item(2, "B", true))])
}

#[test]
fn tracks_become_items() {
    let resolved = two_tracks();
    let titles: Vec<&str> = resolved.items.iter().map(|i| i.title.as_str()).collect();
    assert_eq!(titles, vec!["A", "B"]);
    assert_eq!(resolved.pending_downloads, vec![(8, QueueItemId(2))]);
}

#[test]
fn adding_plays_the_first_if_nothing_plays() {
    let (steps, result) = add_to_queue(two_tracks());
    assert_eq!(steps.len(), 3);
    match &steps[0] {
        QueueStep::Send(PlayerCommand::AddToPlaylist(items)) => assert_eq!(items.len(), 2),
        other => panic!("{:?}", other),
    }
    assert!(matches!(steps[1], QueueStep::PlayIfStopped(QueueItemId(1))));
    match &steps[2] {
        QueueStep::Download(list) => assert_eq!(*list, vec![(8, QueueItemId(2))]),
        other => panic!("{:?}", other),
    }
    assert!(result.success);
    assert_eq!(result.message, "queued 2 tracks");
    assert_eq!(result.added_count, 2);
    assert_eq!(result.queue_item_ids, vec![ONE, TWO]);

    assert!(matches!(
        autoplay(PlaybackState::Stopped, QueueItemId(1)),
        Some(PlayerCommand::Play(QueueItemId(1)))
    ));
    assert!(autoplay(PlaybackState::Paused, QueueItemId(1)).is_none());

    let (steps, result) = add_to_queue(resolve_tracks(Vec::new()));
    assert!(steps.is_empty());
    assert_eq!(result.message, "queued 0 tracks");
}

#[test]
fn replacing_is_one_command() {
    let plain = || resolve_tracks(vec![(7, item(1, "A", false)), (8, item(2, "B", false))]);
    let (steps, result) = replace_queue(plain(), None);
    assert_eq!(steps.len(), 1);
    match &steps[0] {
        QueueStep::Send(PlayerCommand::ReplacePlaylist { items, start }) => {
            assert_eq!(items.len(), 2);
            assert_eq!(*start, 0);
        }
        other => panic!("{:?}", other),
    }
    assert_eq!(result.added_count, 2);
    assert_eq!(result.message, "replaced queue with 2 tracks");

    for (asked, expected) in [(Some(1), 1), (Some(-4), 0)] {
        match &replace_queue(plain(), asked).0[0] {
            QueueStep::Send(PlayerCommand::ReplacePlaylist { start, .. }) => {
                assert_eq!(*start, expected)
            }
            other => panic!("{:?}", other),
        }
    }
    let (steps, _) = replace_queue(resolve_tracks(Vec::new()), Some(3));
    assert_eq!(steps.len(), 1);
    assert!(matches!(
        steps[0],
        QueueStep::Send(PlayerCommand::ClearPlaylist)
    ));
    assert_eq!(replace_queue(two_tracks(), None).0.len(), 2);
}

#[test]
fn playlists_are_played_from_the_beginning() {
    let (steps, status) = play_playlist(two_tracks());
    assert_eq!(steps.len(), 4);
    assert!(matches!(
        steps[0],
        QueueStep::Send(PlayerCommand::ClearPlaylist)
    ));
    assert!(matches!(
        steps[1],
        QueueStep::Send(PlayerCommand::AddToPlaylist(_))
    ));
    assert!(matches!(
        steps[2],
        QueueStep::Send(PlayerCommand::Play(QueueItemId(1)))
    ));
    assert!(matches!(steps[3], QueueStep::Download(_)));
    assert_eq!(status.message, "playing 2 track(s)");
    let (steps, status) = play_playlist(resolve_tracks(Vec::new()));
    assert_eq!(steps.len(), 1);
    assert_eq!(status.message, "playing 0 track(s)");
}

#[test]
fn the_queue_is_kept() {
    let mut items = vec![item(1, "A", false), item(2, "B", false)];
    items[0].db_id = None;
    assert_eq!(save_queue_as_playlist(&items), vec![102]);

    match save_playback_state(&items, Some(QueueItemId(2)), PlaybackState::Playing) {
        (
            SavedState::Saved {
                cursor_path,
                was_playing,
            },
            status,
        ) => {
            assert_eq!(cursor_path.as_deref(), Some("/music/B.flac"));
            assert!(was_playing);
            assert_eq!(status.message, "playback state saved");
        }
        other => panic!("{:?}", other),
    }
    match save_playback_state(&Vec::new(), None, PlaybackState::Paused) {
        (SavedState::Cleared, status) => {
            assert_eq!(status.message, "playback state cleared (empty queue)")
        }
        other => panic!("{:?}", other),
    }
}

#[test]
fn orders_about_playlists() {
    assert_eq!(
        rename_playlist(true, 3, "mix").unwrap().message,
        "renamed playlist to 'mix'"
    );
    assert_eq!(
        rename_playlist(false, 3, "mix").unwrap_err(),
        "playlist 3 not found"
    );
    assert_eq!(delete_playlist(true, 3).unwrap().message, "deleted playlist 3");
    assert_eq!(delete_playlist(false, 3).unwrap_err(), "playlist 3 not found");
    assert_eq!(add_to_playlist(2).message, "added 2 track(s)");
    assert_eq!(
        set_playlist_tracks(3, 4).message,
        "playlist 3 now holds 4 track(s)"
    );
}

#[test]
fn orders_about_favourites() {
    assert_eq!(set_favourite(Some(true)), FavouriteWrite::Add);
    assert_eq!(set_favourite(Some(false)), FavouriteWrite::Remove);
    assert_eq!(set_favourite(None), FavouriteWrite::Toggle);
    assert_eq!(
        sync_favourite_to_remote(true, Some("r".into()), false),
        Some(("r".into(), false))
    );
    assert_eq!(sync_favourite_to_remote(false, Some("r".into()), true), None);
    assert_eq!(sync_favourite_to_remote(true, None, true), None);
}

fn planned(outcome: PlanOutcome) -> PlanEntry {
    PlanEntry {
        track_id: Some(1),
        from: "/a".into(),
        to: Some("/b".into()),
        outcome,
    }
}

#[test]
fn plans_are_counted() {
    let plan = organize_plan(vec![
        planned(PlanOutcome::Move),
        planned(PlanOutcome::Conflict("taken".into())),
        planned(PlanOutcome::Unchanged),
        planned(PlanOutcome::Move),
        planned(PlanOutcome::Error("bad pattern".into())),
    ]);
    assert_eq!(plan.moved_count, 2);
    assert_eq!(plan.unchanged_count, 1);
    assert_eq!(plan.conflict_count, 1);
    assert_eq!(plan.error_count, 1);
    assert_eq!(plan.entries.len(), 5);
    assert_eq!(plan.entries[0].reason, None);
    assert_eq!(plan.entries[1].outcome, GqlPlanOutcome::Conflict);
    assert_eq!(plan.entries[1].reason.as_deref(), Some("taken"));
    assert_eq!(plan.entries[4].reason.as_deref(), Some("bad pattern"));
    assert_eq!(plan.entries[4].from_path, "/a");
    assert_eq!(plan.entries[4].to_path.as_deref(), Some("/b"));
}

#[test]
fn organizing_can_be_undone() {
    assert!(require_organize(true).is_ok());
    assert_eq!(
        require_organize(false).unwrap_err(),
        "organize is disabled — set [graphql] allow_organize = true to enable it"
    );
    assert_eq!(organize_undo(3, &Vec::new()).message, "undone 3 moves");
    let left = vec![
        ("/a".to_owned(), "exists".to_owned()),
        ("/b".to_owned(), "gone".to_owned()),
    ];
    assert_eq!(
        organize_undo(1, &left).message,
        "undone 1 moves; 2 left in place: /a: exists; /b: gone"
    );
}

#[test]
fn what_jobs_did() {
    assert_eq!(scan_text(1, 2, 3), "1 added, 2 updated, 3 unchanged");
    assert_eq!(sync_text(true, 0), "remote sync complete");
    assert_eq!(
        sync_text(false, 4),
        "remote sync incomplete: 4 album(s) failed and will be retried next sync"
    );
}

fn settings() -> Settings {
    Settings {
        library_folders: vec!["/music".into()],
        replaygain: ReplayGainMode::Track,
        output_device: Some("DAC".into()),
        target_fps: 60,
        art_size: 300,
        remote_enabled: true,
        remote_url: "https://music".into(),
        remote_username: "me".into(),
        transcode_quality: "320".into(),
        cache_limit: None,
        visualizer_fps: 30,
        graphql_port: 4000,
        graphql_playground: false,
    }
}

fn nothing() -> GqlConfigInput {
    GqlConfigInput {
        library_folders: None,
        replaygain_mode: None,
        output_device: None,
        target_fps: None,
        art_size: None,
        remote_enabled: None,
        remote_url: None,
        remote_username: None,
        transcode_quality: None,
        cache_limit: None,
        visualizer_fps: None,
        graphql_port: None,
        graphql_playground: None,
    }
}

#[test]
fn only_given_settings_change() {
    let (same, status) = update_config(settings(), nothing()).unwrap();
    assert_eq!(status.message, "config updated");
    let told = config(same, true);
    assert_eq!(told.library_folders, vec!["/music"]);
    assert_eq!(told.replaygain_mode, "track");
    assert_eq!(told.output_device.as_deref(), Some("DAC"));
    assert_eq!((told.target_fps, told.art_size), (60, 300));
    assert!(told.remote_enabled && told.radio_enabled);
    assert_eq!(told.remote_url, "https://music");
    assert_eq!(told.graphql_port, 4000);

    let (changed, _) = update_config(
        settings(),
        GqlConfigInput {
            replaygain_mode: Some("ALBUM".into()),
            output_device: Some("".into()),
            target_fps: Some(300),
            art_size: Some(-1),
            remote_enabled: Some(false),
            remote_username: Some("you".into()),
            transcode_quality: Some("raw".into()),
            cache_limit: Some("5GB".into()),
            visualizer_fps: Some(24),
            graphql_port: Some(65_537),
            graphql_playground: Some(true),
            ..nothing()
        },
    )
    .unwrap();
    assert_eq!(changed.replaygain, ReplayGainMode::Album);
    assert_eq!(changed.output_device, None);
    assert_eq!(changed.target_fps, 44);
    assert_eq!(changed.art_size, 65_535);
    assert!(!changed.remote_enabled);
    assert_eq!(changed.remote_username, "you");
    assert_eq!(changed.transcode_quality, "raw");
    assert_eq!(changed.cache_limit.as_deref(), Some("5GB"));
    assert_eq!(changed.visualizer_fps, 24);
    assert_eq!(changed.graphql_port, 1);
    assert!(changed.graphql_playground);

    let (off, _) = update_config(
        settings(),
        GqlConfigInput {
            replaygain_mode: Some("loud".into()),
            ..nothing()
        },
    )
    .unwrap();
    assert_eq!(config(off, false).replaygain_mode, "off");
}

#[test]
fn some_settings_are_not_for_the_network() {
    assert_eq!(
        update_config(
            settings(),
            GqlConfigInput {
                library_folders: Some(Vec::new()),
                remote_url: Some("x".into()),
                ..nothing()
            }
        )
        .unwrap_err(),
        "library folders can only be changed from the CLI"
    );
    assert_eq!(
        update_config(
            settings(),
            GqlConfigInput {
                remote_url: Some("x".into()),
                ..nothing()
            }
        )
        .unwrap_err(),
        "remote URL can only be changed from the CLI"
    );
}
