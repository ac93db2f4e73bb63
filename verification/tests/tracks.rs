use koan::graphql::catalog::SortDirection;
use koan::graphql::tracks::{
    album_items, artist_items, bounded_count, cover_art, favourites, fuzzy_matches, fuzzy_search,
    lyrics_query, not_negative, play_history, random_share, random_tracks, required_path,
    similar_tracks, track_items, track_source, tracks, tracks_by_id, FuzzySearchKind, PlayRow,
    TrackArgs, TrackSortField, TrackSource,
};
use koan::rows::{found_rows, AlbumRow, ArtistRow, TrackRow};

fn track(id: i64, title: &str) -> TrackRow {
    TrackRow {
        id,
        title: title.into(),
        artist_name: "Artist".into(),
        album_artist_name: "Artist".into(),
        album_title: "Album".into(),
        album_id: Some(1),
        artist_id: Some(1),
        disc: Some(1),
        track_number: Some(1),
        duration_ms: Some(240_999),
        codec: Some("FLAC".into()),
        sample_rate: Some(44_100),
        bit_depth: Some(16),
        channels: Some(2),
        bitrate: Some(1411),
        genre: None,
        source: "local".into(),
        remote_id: None,
        path: None,
        cached_path: None,
    }
}

fn no_args() -> TrackArgs {
    TrackArgs {
        ids: None,
        album_id: None,
        artist_id: None,
        artist_ids: None,
        search: None,
        title: None,
        artist_name: None,
        album_title: None,
        genre: None,
        codec: None,
        source: None,
        year_start: None,
        year_end: None,
        min_sample_rate: None,
        min_bit_depth: None,
        channels: None,
        min_duration_ms: None,
        max_duration_ms: None,
        favourites_only: false,
    }
}

#[test]
fn sources_are_words() {
    for source in [TrackSource::Local, TrackSource::Remote, TrackSource::Cached] {
        let mut row = track(1, "T");
        row.source = source.as_db_value().into();
        assert_eq!(track_source(&row), source);
    }
    let mut odd = track(1, "T");
    odd.source = "elsewhere".into();
    assert_eq!(track_source(&odd), TrackSource::Remote);
}

#[test]
fn filters_are_passed_on() {
    let q = tracks(
        TrackArgs {
            artist_id: Some(4),
            source: Some(TrackSource::Cached),
            search: Some("x".into()),
            ..no_args()
        },
        Some("9"),
        Some(20),
        TrackSortField::Duration,
        SortDirection::Desc,
    );
    assert_eq!(q.filter.artist_ids, Some(vec![4]));
    assert_eq!(q.filter.source.as_deref(), Some("cached"));
    assert_eq!(q.filter.search.as_deref(), Some("x"));
    assert_eq!(q.order, TrackSortField::Duration);
    assert!(q.descending);
    assert_eq!(q.limit, 21);
    assert_eq!(q.offset, 10);

    let q = tracks(
        TrackArgs {
            artist_id: Some(4),
            artist_ids: Some(vec![5, 6]),
            ..no_args()
        },
        None,
        None,
        TrackSortField::Title,
        SortDirection::Asc,
    );
    assert_eq!(q.filter.artist_ids, Some(vec![5, 6]));
    assert_eq!((q.limit, q.offset), (51, 0));
}

#[test]
fn other_questions_to_the_library() {
    let q = favourites(Some("1"), Some(2));
    assert!(q.filter.favourites_only);
    assert_eq!(q.order, TrackSortField::ArtistAlbumDiscTrack);
    assert_eq!((q.limit, q.offset), (3, 2));
    let q = tracks_by_id(Vec::new());
    assert_eq!(q.filter.ids, Some(Vec::new()));
    assert_eq!((q.limit, q.offset), (1, 0));
    assert_eq!(tracks_by_id(vec![1, 2, 3]).limit, 3);
}

#[test]
fn counts_are_bounded() {
    assert_eq!(bounded_count(-5), 0);
    assert_eq!(bounded_count(20), 20);
    assert_eq!(bounded_count(9999), 500);
    assert_eq!(not_negative(-1), 0);
    assert_eq!(not_negative(12), 12);
}

#[test]
fn random_tracks_are_shared_out() {
    assert_eq!(random_share(20, 3), 6);
    assert_eq!(random_share(2, 5), 1);
    assert_eq!(random_share(20, 0), 20);
    assert_eq!(random_share(20, 0x1_0000_0004), 5);
    let lists = vec![
        vec![track(1, "a"), track(2, "b")],
        vec![track(3, "c")],
        vec![track(4, "d")],
    ];
    let ids: Vec<i64> = random_tracks(&lists, 3).iter().map(|t| t.id).collect();
    assert_eq!(ids, vec![1, 2, 3]);
    assert!(random_tracks(&lists, -1).is_empty());
}

#[test]
fn history_names_what_is_known() {
    let plays = vec![
        PlayRow {
            track_id: 2,
            played_at: 100,
            duration_ms: None,
        },
        PlayRow {
            track_id: 9,
            played_at: 90,
            duration_ms: Some(5),
        },
    ];
    let rows = vec![track(1, "One"), track(2, "Two")];
    let entries = play_history(&plays, &rows);
    assert_eq!(entries.len(), 2);
    assert_eq!(entries[0].track.as_ref().unwrap().title, "Two");
    assert_eq!(entries[0].track.as_ref().unwrap().artist, "Artist");
    assert_eq!(entries[0].track.as_ref().unwrap().album, "Album");
    assert_eq!(entries[1].played_at, 90);
    assert_eq!(entries[1].duration_ms, Some(5));
    assert!(entries[1].track.is_none());
}

#[test]
fn similar_tracks_keep_their_rank() {
    let rows = vec![track(1, "One"), track(2, "Two")];
    let found = similar_tracks(&vec![2, 7, 1], &rows);
    let ranked: Vec<(usize, i64)> = found.iter().map(|(i, t)| (*i, t.id)).collect();
    assert_eq!(ranked, vec![(0, 2), (2, 1)]);
}

#[test]
fn what_is_missing_is_left_out() {
    let found = found_rows(&vec![Some(track(1, "a")), None, Some(track(2, "b"))]);
    let ids: Vec<i64> = found.iter().map(|t| t.id).collect();
    assert_eq!(ids, vec![1, 2]);
}

#[test]
fn texts_to_search() {
    assert_eq!(
        track_items(&vec![track(3, "Song")]),
        vec![(3, "Artist — Album — Song".to_owned())]
    );
    let album = AlbumRow {
        id: 4,
        title: "Album".into(),
        artist_id: 1,
        artist_name: "Artist".into(),
        date: None,
        codec: None,
        label: None,
        total_discs: None,
        total_tracks: None,
    };
    assert_eq!(
        album_items(&vec![album]),
        vec![(4, "Artist — Album".to_owned())]
    );
    let artist = ArtistRow {
        id: 5,
        name: "Artist".into(),
        sort_name: None,
    };
    assert_eq!(artist_items(&vec![artist]), vec![(5, "Artist".to_owned())]);
}

#[test]
fn fuzzy_matches_follow_the_ranking() {
    let items = vec![(10, "a".to_owned()), (20, "b".to_owned()), (30, "c".to_owned())];
    let found = fuzzy_matches(&items, &vec![2, 0], FuzzySearchKind::Album, 5);
    let seen: Vec<(i64, &str, i32)> = found
        .iter()
        .map(|m| (m.id, m.name.as_str(), m.rank))
        .collect();
    assert_eq!(seen, vec![(30, "c", 0), (10, "a", 1)]);
    assert_eq!(found[0].kind, FuzzySearchKind::Album);
    assert_eq!(
        fuzzy_matches(&items, &vec![2, 0], FuzzySearchKind::Album, 1).len(),
        1
    );
}

#[test]
fn fuzzy_search_finds_what_matches() {
    let items = vec![
        (1, "Boards of Canada — Geogaddi".to_owned()),
        (2, "Aphex Twin — Drukqs".to_owned()),
        (3, "Autechre — Amber".to_owned()),
    ];
    let found = fuzzy_search(&items, "aphex", FuzzySearchKind::Album, 10);
    assert_eq!(found.len(), 1);
    assert_eq!(found[0].id, 2);
    assert_eq!(found[0].name, "Aphex Twin — Drukqs");
    assert_eq!(found[0].rank, 0);
    // Each match comes once.
    let mut ids: Vec<i64> =
        fuzzy_search(&items, "e", FuzzySearchKind::Album, 10).iter().map(|m| m.id).collect();
    ids.sort();
    assert_eq!(ids, vec![1, 2, 3]);
    assert!(fuzzy_search(&items, "zzz", FuzzySearchKind::Album, 10).is_empty());
    assert!(fuzzy_search(&items, "a", FuzzySearchKind::Album, -1).is_empty());
}

#[test]
fn equal_scores_go_by_length_and_place() {
    let items = vec![
        (1, "abcd".to_owned()),
        (2, "ab".to_owned()),
        (3, "abz".to_owned()),
        (4, "aby".to_owned()),
    ];
    let ids = |query: &str| -> Vec<i64> {
        fuzzy_search(&items, query, FuzzySearchKind::Track, 10).iter().map(|m| m.id).collect()
    };
    assert_eq!(ids("ab"), vec![2, 3, 4, 1]);
    assert_eq!(ids(""), vec![1, 2, 3, 4]);
}

#[test]
fn lyrics_are_looked_up_by_seconds() {
    let row = track(1, "Song");
    let q = lyrics_query(1, Some(&row)).unwrap();
    assert_eq!(q.artist, "Artist");
    assert_eq!(q.title, "Song");
    assert_eq!(q.album, "Album");
    assert_eq!(q.duration_secs, 240);
    let mut untimed = track(1, "Song");
    untimed.duration_ms = None;
    assert_eq!(lyrics_query(1, Some(&untimed)).unwrap().duration_secs, 0);
    assert_eq!(lyrics_query(-3, None).unwrap_err(), "track -3 not found");
}

#[test]
fn some_things_need_a_file() {
    let mut row = track(5, "Song");
    assert_eq!(required_path(5, None).unwrap_err(), "track 5 not found");
    assert_eq!(
        required_path(5, Some(&row)).unwrap_err(),
        "track 5 has no path"
    );
    row.cached_path = Some("/cache/a".into());
    assert_eq!(required_path(5, Some(&row)).unwrap(), "/cache/a");
    row.path = Some("/music/a".into());
    assert_eq!(required_path(5, Some(&row)).unwrap(), "/music/a");
}

#[test]
fn cover_art_is_told_in_base64() {
    let png = cover_art(&vec![0x89, 0x50, 0x4e, 0x47, 0x0d]);
    assert_eq!(png.data_base64, "iVBORw0=");
    assert_eq!(png.mime, "image/png");
    let jpeg = cover_art(&vec![0xff, 0xd8, 0xff, 0xfb]);
    assert_eq!(jpeg.data_base64, "/9j/+w==");
    assert_eq!(jpeg.mime, "image/jpeg");
    let other = cover_art(&b"Man".to_vec());
    assert_eq!(other.data_base64, "TWFu");
    assert_eq!(other.mime, "application/octet-stream");
    assert_eq!(cover_art(&Vec::new()).data_base64, "");
}
