use std::collections::HashSet;

use koan::player::{PlaybackState, QueueEntry, QueueEntryStatus, QueueItemId, TrackInfo};
use koan::rows::{AlbumRow, ArtistRow, TrackRow};
use koan::tui::device_selector::{device_selector_rect, DeviceSelectorOverlay, DeviceSelectorState};
use koan::tui::help_modal::HelpModalOverlay;
use koan::tui::keys::{HintBar, HoverZone, Mode};
use koan::tui::library::{Fetched, LibraryNode, LibraryState, LibraryView, Needed};
use koan::tui::organize::{
    execute_finished, organize_popup_rect, preview_finished, FileMove, OrganizeCompletionKind,
    OrganizeModalState, OrganizeOverlay, OrganizeResult,
};
use koan::tui::picker::{
    all_tracks_sentinel, artist_id_from_sentinel, is_all_tracks_sentinel, picker_popup_rect,
    picker_results_rect, PickerItem, PickerKind, PickerOverlay, PickerState,
};
use koan::tui::queue::{
    build_display_lines, display_line_count, scroll_cursor_to_top, scroll_for_cursor, QueueView,
};
use koan::tui::screen::{Op, Rect, Slot, Span};
use koan::tui::transport::{format_time, BarFill, TransportBar};
use koan::tui::visualizer::{
    band_bucket, bar_cell, display_bars, hash_bits, label_start, matrix_char, overlay_hash,
    rain_hash, sample_place, side_by_side, stacked_halves, terrain_layout, BrailleGrid, Colour,
    LissajousTrail, MeterCell, SpectrumHistory, VisualizerMode, VisualizerPalette,
};
use koan::tui::viz_picker::{all_modes, VizPickerOverlay, VizPickerState};

fn rect(x: u16, y: u16, width: u16, height: u16) -> Rect {
    Rect {
        x,
        y,
        width,
        height,
    }
}

fn text_of(line: &[Span]) -> String {
    line.iter().map(|s| s.text.as_str()).collect()
}

/// All text of a drawing, one line each.
fn texts(ops: &[Op]) -> Vec<String> {
    let mut out = Vec::new();
    for op in ops {
        match op {
            Op::Frame { title, .. } => out.push(text_of(title)),
            Op::Paragraph { lines, .. } => out.extend(lines.iter().map(|l| text_of(l))),
            Op::Line { line, .. } => out.push(text_of(line)),
            _ => {}
        }
    }
    out
}

fn entry(n: u128, album: &str, title: &str) -> QueueEntry {
    QueueEntry {
        id: QueueItemId(n),
        db_id: None,
        path: format!("/music/{title}.flac"),
        title: title.into(),
        artist: "Artist".into(),
        album_artist: "Artist".into(),
        album: album.into(),
        year: Some("2001".into()),
        codec: Some("FLAC".into()),
        track_number: Some(n as i64),
        disc: None,
        duration_ms: Some(61_000),
        status: QueueEntryStatus::Queued,
        download_progress: None,
        error: None,
    }
}

fn queue() -> Vec<QueueEntry> {
    vec![
        entry(1, "One", "a"),
        entry(2, "One", "b"),
        entry(3, "Two", "c"),
    ]
}

#[test]
fn queues_are_shown_by_album() {
    let entries = queue();
    let lines = build_display_lines(&entries);
    assert_eq!(display_line_count(&entries), lines.len());
    let headers = lines.iter().filter(|(_, header)| *header).count();
    assert_eq!(headers, 2);
    let shown: Vec<usize> = lines
        .iter()
        .filter(|(_, header)| !*header)
        .filter_map(|(i, _)| *i)
        .collect();
    assert_eq!(shown, vec![0, 1, 2]);
    assert!(lines[0].1);
}

#[test]
fn clicks_find_entries_and_albums() {
    let entries = queue();
    let area = rect(0, 0, 40, 10);
    // Below the border: the header, then its two tracks.
    assert_eq!(QueueView::queue_index_at_y(&entries, area, 0, 1), None);
    assert_eq!(QueueView::queue_index_at_y(&entries, area, 0, 2), Some(0));
    assert_eq!(QueueView::queue_index_at_y(&entries, area, 0, 3), Some(1));
    assert_eq!(QueueView::queue_index_at_y(&entries, area, 1, 2), Some(1));
    assert_eq!(QueueView::queue_index_at_y(&entries, area, 0, 9), None);
    assert_eq!(
        QueueView::album_group_at_y(&entries, area, 0, 1),
        Some((0, 1))
    );
    assert_eq!(QueueView::album_group_at_y(&entries, area, 0, 2), None);
}

#[test]
fn the_cursor_stays_in_view() {
    let entries: Vec<QueueEntry> = (0..30).map(|n| entry(n, "One", "t")).collect();
    let down = scroll_for_cursor(&entries, 29, 0, 10);
    assert!(down > 0);
    assert_eq!(scroll_for_cursor(&entries, 29, down, 10), down);
    let up = scroll_for_cursor(&entries, 0, down, 10);
    assert!(up <= 1);
    assert_eq!(scroll_cursor_to_top(&entries, 0, 10), 0);
    let last = scroll_cursor_to_top(&entries, 29, 10);
    assert_eq!(last, display_line_count(&entries) - 10);
}

#[test]
fn the_queue_is_drawn() {
    let mut entries = queue();
    entries[0].status = QueueEntryStatus::Playing;
    entries[1].status = QueueEntryStatus::Failed;
    let selected: HashSet<usize> = HashSet::from([2]);
    let starred = vec!["/music/c.flac".to_owned()];
    let view = QueueView::new(&entries, Mode::QueueEdit, 2, 0, &selected, 0)
        .with_hover(HoverZone::QueueItem(1))
        .with_drop_indicator(Some(1))
        .with_favourites(&starred);
    let drawn = texts(&view.render(rect(0, 0, 60, 12))).join("\n");
    for part in ["One", "Two", "1:01"] {
        assert!(drawn.contains(part), "{part}: {drawn}");
    }
    let a = drawn.find(" a").unwrap();
    let c = drawn.rfind(" c").unwrap();
    assert!(a < c);
}

#[test]
fn times_are_written_out() {
    assert_eq!(format_time(0), "0:00");
    assert_eq!(format_time(61_999), "1:01");
    assert_eq!(format_time(3_661_000), "1:01:01");
}

#[test]
fn the_transport_bar_is_drawn() {
    let area = rect(0, 0, 80, 3);
    let empty = TransportBar::new(None, None, PlaybackState::Stopped, 0);
    let fill = BarFill {
        progress: 0,
        downloaded: None,
    };
    assert_eq!(texts(&empty.render(area, fill))[0], " stopped");
    let info = TrackInfo {
        id: QueueItemId(1),
        path: "/music/a.flac".into(),
        codec: "FLAC".into(),
        sample_rate: 44_100,
        bit_depth: 16,
        channels: 2,
        duration_ms: 61_000,
    };
    let playing = entry(1, "One", "a");
    let bar = TransportBar::new(Some(&info), Some(&playing), PlaybackState::Playing, 30_000);
    let fill = BarFill {
        progress: 10,
        downloaded: None,
    };
    let drawn = texts(&bar.render(area, fill)).join("\n");
    assert!(drawn.contains("0:30"));
    assert!(drawn.contains("1:01"));
    let (start, width) = TransportBar::bar_metrics(area, 30_000, 61_000);
    assert_eq!(start, 4);
    assert!(width > 0 && start + width < 80);
}

#[test]
fn clicks_on_the_bar_seek() {
    assert_eq!(
        TransportBar::seek_from_click(4, 10, 9, 500, None),
        Some(500)
    );
    assert_eq!(TransportBar::seek_from_click(4, 10, 3, 500, None), None);
    assert_eq!(TransportBar::seek_from_click(4, 10, 14, 500, None), None);
    assert_eq!(TransportBar::seek_from_click(4, 0, 4, 500, None), None);
    // Five seconds short of what is there.
    assert_eq!(
        TransportBar::seek_from_click(4, 10, 9, 50_000, Some(20_000)),
        Some(15_000)
    );
    assert_eq!(
        TransportBar::seek_from_click(4, 10, 9, 50_000, Some(1_000)),
        Some(0)
    );
}

fn artist(id: i64, name: &str) -> ArtistRow {
    ArtistRow {
        id,
        name: name.into(),
        sort_name: None,
    }
}

fn album(id: i64, title: &str) -> AlbumRow {
    AlbumRow {
        id,
        title: title.into(),
        artist_id: 1,
        artist_name: "Aphex Twin".into(),
        date: Some("2001-10-22".into()),
        codec: None,
        label: None,
        total_discs: None,
        total_tracks: None,
    }
}

fn track(id: i64, title: &str) -> TrackRow {
    TrackRow {
        id,
        title: title.into(),
        artist_name: "Aphex Twin".into(),
        album_artist_name: "Aphex Twin".into(),
        album_title: "Drukqs".into(),
        album_id: Some(10),
        artist_id: Some(1),
        disc: None,
        track_number: Some(3),
        duration_ms: Some(61_000),
        codec: None,
        sample_rate: None,
        bit_depth: None,
        channels: None,
        bitrate: None,
        genre: None,
        source: "local".into(),
        remote_id: None,
        path: None,
        cached_path: None,
    }
}

fn names(state: &LibraryState) -> Vec<String> {
    state
        .nodes
        .iter()
        .map(|n| match n {
            LibraryNode::Artist { name, .. } => name.clone(),
            LibraryNode::Album { title, .. } => title.clone(),
            LibraryNode::Track { title, .. } => title.clone(),
        })
        .collect()
}

#[test]
fn the_library_opens_and_closes() {
    let mut state = LibraryState::new(vec![artist(1, "Aphex Twin"), artist(2, "Autechre")]);
    assert!(matches!(state.children_needed(), Needed::AlbumsOf(1)));
    assert_eq!(
        state.expand_or_enter(Fetched::Albums(vec![album(10, "Drukqs"), album(11, "Syro")])),
        None
    );
    assert_eq!(
        names(&state),
        vec!["Aphex Twin", "Drukqs", "Syro", "Autechre"]
    );
    state.move_down();
    assert!(matches!(state.children_needed(), Needed::TracksOf(10)));
    state.expand_or_enter(Fetched::Tracks(vec![track(100, "Vordhosbn")]));
    assert_eq!(state.nodes.len(), 5);
    state.move_down();
    // A track is handed over to be played.
    assert_eq!(state.expand_or_enter(Fetched::Nothing), Some(vec![100]));
    assert_eq!(state.enqueue_all_under_cursor(Some(Vec::new())), vec![100]);
    assert!(state.enqueue_all_under_cursor(None).is_empty());
    // From a track to its album, then close that, then the artist.
    state.collapse_or_parent();
    assert_eq!(state.cursor, 1);
    state.collapse_or_parent();
    assert_eq!(state.nodes.len(), 4);
    state.jump_to_start();
    assert!(state.toggle_expand(Fetched::Nothing));
    assert_eq!(names(&state), vec!["Aphex Twin", "Autechre"]);
}

#[test]
fn toggling_needs_something_to_toggle() {
    let mut state = LibraryState::new(vec![artist(1, "Aphex Twin")]);
    // Nothing was read: the artist stays closed.
    assert!(!state.toggle_expand(Fetched::Nothing));
    assert_eq!(names(&state), vec!["Aphex Twin"]);
    assert!(matches!(state.children_needed(), Needed::AlbumsOf(1)));
    // Tracks are not what opens an artist.
    assert!(!state.toggle_expand(Fetched::Tracks(vec![track(100, "Vordhosbn")])));
    assert_eq!(names(&state), vec!["Aphex Twin"]);
    assert!(state.toggle_expand(Fetched::Albums(vec![album(10, "Drukqs")])));
    assert_eq!(names(&state), vec!["Aphex Twin", "Drukqs"]);
    state.move_down();
    assert!(state.toggle_expand(Fetched::Tracks(vec![track(100, "Vordhosbn")])));
    state.move_down();
    // A track has nothing below it.
    assert!(!state.toggle_expand(Fetched::Nothing));
    assert_eq!(state.nodes.len(), 3);
    let mut empty = LibraryState::new(Vec::new());
    assert!(!empty.toggle_expand(Fetched::Nothing));
}

#[test]
fn the_library_is_filtered() {
    let mut state = LibraryState::new(vec![artist(1, "Aphex Twin"), artist(2, "Autechre")]);
    state.start_filter();
    for c in "AUT".chars() {
        state.filter_type_char(c);
    }
    assert_eq!(names(&state), vec!["Autechre"]);
    state.filter_backspace();
    state.filter_backspace();
    assert_eq!(state.filter, "A");
    assert_eq!(state.nodes.len(), 2);
    state.clear_filter();
    assert_eq!(state.filter, "");
    assert_eq!(state.nodes.len(), 2);
    state.jump_to_end();
    assert_eq!(state.cursor, 1);
    state.page_up(10);
    assert_eq!(state.cursor, 0);
    state.page_down(10);
    assert_eq!(state.cursor, 1);
    state.update_scroll(1);
    assert_eq!(state.scroll_offset, 1);
    let drawn = texts(&LibraryView::new(&state, true).render(rect(0, 0, 40, 10))).join("\n");
    assert!(drawn.contains("Autechre"));
}

#[test]
fn files_are_organized() {
    let patterns = vec![("flat".to_owned(), "%title%".to_owned())];
    let paths = vec!["/music/a.flac".to_owned()];
    let entries = vec![(QueueItemId(1), "/music/a.flac".to_owned())];
    let (mut state, request) = OrganizeModalState::new(patterns, paths, entries);
    let request = request.unwrap();
    assert_eq!(request.pattern, "%title%");
    assert_eq!(request.paths, vec!["/music/a.flac"]);
    let result = || OrganizeResult {
        moves: vec![FileMove {
            from: "/music/a.flac".into(),
            to: "/music/b.flac".into(),
        }],
        skipped: 0,
        errors: Vec::new(),
    };
    let (kind, _) = state.check_pending(Some(preview_finished(Ok(result()))));
    assert_eq!(kind, Some(OrganizeCompletionKind::Preview));
    assert_eq!(state.preview.as_ref().unwrap().moves.len(), 1);

    let request = state.request_execute().unwrap();
    assert!(state.executing);
    let done = execute_finished(&request.queue_entries, Ok(result()));
    let (kind, _) = state.check_pending(Some(done));
    assert_eq!(kind, Some(OrganizeCompletionKind::Execute));
    assert!(!state.executing);
    let updates = state.take_path_updates();
    assert_eq!(updates, vec![(QueueItemId(1), "/music/b.flac".to_owned())]);
    assert!(state.take_path_updates().is_empty());
}

#[test]
fn failed_previews_are_told() {
    let patterns = vec![("flat".to_owned(), "%title%".to_owned())];
    let (mut state, _) =
        OrganizeModalState::new(patterns, vec!["/music/a.flac".into()], Vec::new());
    state.check_pending(Some(preview_finished(Err("bad pattern".into()))));
    assert!(state.status.as_deref().unwrap().contains("bad pattern"));
    let (none, request) = OrganizeModalState::new(Vec::new(), Vec::new(), Vec::new());
    assert!(request.is_none());
    assert_eq!(none.status.as_deref(), Some("No patterns configured"));
}

#[test]
fn the_organizer_is_drawn() {
    let patterns = vec![("flat".to_owned(), "%title%".to_owned())];
    let (mut state, _) = OrganizeModalState::new(
        patterns,
        vec!["/music/old/a.flac".into()],
        Vec::new(),
    );
    state.check_pending(Some(preview_finished(Ok(OrganizeResult {
        moves: vec![FileMove {
            from: "/music/old/a.flac".into(),
            to: "/music/new/a.flac".into(),
        }],
        skipped: 2,
        errors: Vec::new(),
    }))));
    let area = rect(0, 0, 100, 40);
    let popup = organize_popup_rect(area);
    assert!(popup.width <= 100 && popup.height <= 40);
    let drawn = texts(&OrganizeOverlay::new(&state).render(area)).join("\n");
    assert!(drawn.contains("flat"));
    assert!(drawn.contains("old/a.flac"));
    assert!(drawn.contains("new/a.flac"));
}

fn item(id: i64, text: &str) -> PickerItem {
    PickerItem {
        id,
        display: text.into(),
        match_text: text.into(),
        parts: Vec::new(),
    }
}

/// Lets the matcher run until it has settled.
fn settle(picker: &mut PickerState) {
    for _ in 0..50 {
        picker.tick();
    }
}

#[test]
fn picking_by_typing() {
    let items = vec![item(1, "Drukqs"), item(2, "Geogaddi"), item(3, "Amber")];
    let mut picker = PickerState::new(PickerKind::Album, items, true);
    settle(&mut picker);
    assert_eq!(picker.matched_count(), 3);
    assert_eq!(picker.prompt(), "album>");
    for c in "geo".chars() {
        picker.type_char(c);
    }
    settle(&mut picker);
    assert_eq!(picker.matched_count(), 1);
    assert_eq!(picker.confirm(), vec![2]);
    let area = rect(0, 0, 80, 30);
    let popup = picker_popup_rect(area);
    let results = picker_results_rect(popup);
    assert!(results.height < popup.height);
    let drawn = texts(&PickerOverlay::new(&picker).render(area)).join("\n");
    assert!(drawn.contains("Geogaddi"));
    assert!(!drawn.contains("Amber"));
    picker.backspace();
    picker.backspace();
    picker.backspace();
    settle(&mut picker);
    assert_eq!(picker.matched_count(), 3);
}

#[test]
fn a_fresh_picker_lists_all_in_order() {
    let items = vec![item(1, "a longer name"), item(2, "b"), item(3, "a name")];
    let mut picker = PickerState::new(PickerKind::Album, items, false);
    settle(&mut picker);
    assert_eq!(picker.matched_count(), 3);
    for (cursor, id) in [(0, 1), (1, 2), (2, 3)] {
        picker.cursor = cursor;
        assert_eq!(picker.confirm(), vec![id]);
    }
}

#[test]
fn picking_several() {
    let items = vec![item(1, "a1"), item(2, "a2"), item(3, "a3")];
    let mut picker = PickerState::new(PickerKind::Track, items, true);
    settle(&mut picker);
    picker.toggle_select();
    picker.jump_to_end();
    picker.toggle_select();
    assert_eq!(picker.confirm().len(), 2);
    picker.jump_to_start();
    picker.toggle_select();
    assert_eq!(picker.selected.len(), 1);
    picker.page_down(10);
    picker.page_up(1);
    picker.move_down();
    picker.move_up();
    assert!(picker.cursor < 3);
}

#[test]
fn sentinels_stand_for_artists() {
    let id = all_tracks_sentinel(42);
    assert_eq!(id, -42);
    assert!(is_all_tracks_sentinel(id));
    assert!(!is_all_tracks_sentinel(42));
    assert_eq!(artist_id_from_sentinel(id), 42);
    assert_eq!(artist_id_from_sentinel(all_tracks_sentinel(0)), 0);
    assert!(!is_all_tracks_sentinel(all_tracks_sentinel(0)));
}

#[test]
fn every_mode_can_be_picked() {
    let modes = all_modes();
    assert_eq!(modes.len(), 22);
    assert!(modes.contains(&VisualizerMode::Matrix));
    for mode in modes {
        let state = VizPickerState::new(mode);
        assert_eq!(state.selected_mode(), mode);
        assert_eq!(VisualizerMode::parse(mode.as_str()), mode);
    }
    let state = VizPickerState::new(VisualizerMode::Julia);
    let drawn = texts(&VizPickerOverlay::new(&state).render(rect(0, 0, 80, 40))).join("\n");
    assert!(drawn.contains(VisualizerMode::Julia.label()));
}

#[test]
fn devices_are_listed() {
    let state = DeviceSelectorState {
        devices: vec!["DAC".into(), "Speakers".into()],
        cursor: 1,
        current_device: Some("DAC".into()),
    };
    let area = rect(0, 0, 80, 24);
    let popup = device_selector_rect(area, 2);
    assert!(popup.height >= 4);
    let drawn = texts(&DeviceSelectorOverlay::new(&state).render(area)).join("\n");
    assert!(drawn.contains("DAC"));
    assert!(drawn.contains("Speakers"));
}

#[test]
fn help_and_hints() {
    let drawn = texts(&HelpModalOverlay::new().render(rect(0, 0, 100, 60))).join("\n");
    assert!(drawn.contains("Keybindings"));
    match HintBar::new(Mode::Normal).render(rect(0, 0, 100, 1)) {
        Op::Paragraph { lines, .. } => assert!(!text_of(&lines[0]).is_empty()),
        Op::Line { line, .. } => assert!(!text_of(&line).is_empty()),
        other => panic!("{:?}", other),
    }
}

#[test]
fn dots_become_characters() {
    let mut grid = BrailleGrid::new(2, 1);
    assert!(grid.set_dot(0, 0, Colour::Green));
    assert!(grid.set_dot(1, 3, Colour::White));
    let cells = grid.render_to(rect(5, 7, 2, 1));
    assert_eq!(cells.len(), 1);
    assert_eq!((cells[0].x, cells[0].y), (5, 7));
    assert_eq!(cells[0].symbol, '\u{2881}');
    assert_eq!(cells[0].color, Colour::White);
}

#[test]
fn trails_and_histories_are_rings() {
    let mut trail = LissajousTrail::new();
    for n in 0..6 {
        trail.push(vec![(n, n)]);
    }
    assert_eq!(*trail.frame(0), vec![(2, 2)]);
    assert_eq!(*trail.frame(3), vec![(5, 5)]);
    let mut history = SpectrumHistory::new();
    let first = history.push();
    let second = history.push();
    assert_eq!(history.iter_newest_first(5), vec![second, first]);
    assert_eq!(history.iter_newest_first(1), vec![second]);
}

#[test]
fn meters_are_filled_in_eighths() {
    assert_eq!(bar_cell(12, 0, 0), MeterCell::Fill(8));
    assert_eq!(bar_cell(12, 0, 1), MeterCell::Fill(4));
    assert_eq!(bar_cell(12, 0, 2), MeterCell::Empty);
    assert_eq!(bar_cell(4, 17, 2), MeterCell::Peak);
    assert_eq!(display_bars(9), 5);
    assert_eq!(band_bucket(0, 48), (0, 1));
    assert_eq!(band_bucket(1, 2), (24, 48));
}

#[test]
fn palettes_and_rain() {
    assert_eq!(VisualizerPalette::parse("Neon"), VisualizerPalette::Neon);
    for hash in [0u32, 7, 12_345, u32::MAX] {
        assert!(!matrix_char(hash).is_whitespace());
    }
}

#[test]
fn styles_name_theme_slots() {
    let ops = TransportBar::new(None, None, PlaybackState::Stopped, 0).render(
        rect(0, 0, 20, 3),
        BarFill {
            progress: 0,
            downloaded: None,
        },
    );
    match &ops[0] {
        Op::Line { line, .. } => assert_eq!(line[0].style.base, Slot::StatusStopped),
        other => panic!("{:?}", other),
    }
}

#[test]
fn areas_are_halved() {
    let (top, bottom) = stacked_halves(rect(2, 3, 10, 7));
    assert_eq!(top, rect(2, 3, 10, 3));
    assert_eq!(bottom, rect(2, 6, 10, 4));
    let (left, right) = side_by_side(rect(2, 3, 9, 7));
    assert_eq!(left, rect(2, 3, 4, 7));
    assert_eq!(right, rect(6, 3, 5, 7));
}

#[test]
fn samples_are_spread_over_columns() {
    assert_eq!(sample_place(0, 4, 10), 0);
    assert_eq!(sample_place(3, 4, 10), 7);
    assert_eq!(sample_place(9, 10, 3), 2);
}

#[test]
fn the_terrain_stands_in_the_middle() {
    assert!(terrain_layout(rect(0, 0, 9, 20)).is_none());
    assert!(terrain_layout(rect(0, 0, 40, 5)).is_none());
    let tight = terrain_layout(rect(0, 0, 40, 6)).unwrap();
    assert_eq!((tight.artist_y, tight.album_y), (1, 4));
    assert!(tight.ridges.is_none());
    let wide = terrain_layout(rect(1, 2, 40, 16)).unwrap();
    assert_eq!((wide.artist_y, wide.album_y), (3, 16));
    assert_eq!(wide.ridges, Some(rect(11, 5, 20, 10)));
    let narrow = terrain_layout(rect(0, 0, 10, 16)).unwrap();
    assert_eq!(narrow.ridges, Some(rect(0, 3, 10, 10)));
    assert_eq!(label_start(rect(2, 0, 10, 1), 4), 5);
    assert_eq!(label_start(rect(2, 0, 10, 1), 40), 2);
}

#[test]
fn hashes_are_fixed() {
    assert_eq!(hash_bits(0), 0);
    assert_ne!(hash_bits(1), hash_bits(2));
    assert_eq!(overlay_hash(1, 2, 3), 31 + 274 + 3);
    assert_eq!(rain_hash(0, 0, 5), 5);
}
