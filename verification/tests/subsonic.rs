use koan::rows::{AlbumRow, ArtistRow, TrackRow};
use koan::subsonic::auth::{same_secret, validate_auth, validate_token, Credentials};
use koan::subsonic::browse::{
    album_directory, album_list, artist_directory, directory_artist, find_artist, get_album,
    get_artist, get_song, parse_list_order, ListOrder,
};
use koan::subsonic::document::{render, xml_escape, SubsonicResponse, XmlNode};
use koan::subsonic::errors::{SubsonicError, SubsonicErrorCode};
use koan::subsonic::ids::{entity_id, parse_entity_id, require_entity, require_id, EntityKind};
use koan::subsonic::index::{album_counts_by_artist, get_artists, get_indexes};
use koan::subsonic::media::{codec_to_mime, extension_to_mime, track_file_path};
use koan::subsonic::nodes::{track_node, year_from_date};
use koan::subsonic::params::{RawParams, SubsonicParams};
use koan::subsonic::playlists::{
    get_genres, get_license, get_music_folders, get_playlists, get_scan_status, get_user,
    persisted_items, played_at, playlist_deleted, playlist_name, playlist_node, playlist_song_ids,
    starred_path, unsupported_endpoint, GenreRow, LoadedPlaylist, SnapshotRow,
};
use koan::subsonic::range::{parse_range, RangeRequest};
use koan::subsonic::search::{
    count_or_default, get_random_songs, get_similar_songs2, get_starred2, random_fetch_count,
    search3, search_needed,
};
use koan::subsonic::stream::{stream_reply, stream_source, StreamReply, StreamSource};

fn track(id: i64) -> TrackRow {
    TrackRow {
        id,
        title: "Test Song".into(),
        artist_name: "Test Artist".into(),
        album_artist_name: "Test Artist".into(),
        album_title: "Test Album".into(),
        album_id: Some(1),
        artist_id: Some(1),
        disc: Some(1),
        track_number: Some(1),
        duration_ms: Some(240_000),
        codec: Some("FLAC".into()),
        sample_rate: Some(44_100),
        bit_depth: Some(16),
        channels: Some(2),
        bitrate: Some(1411),
        genre: Some("Rock".into()),
        source: "local".into(),
        remote_id: None,
        path: Some("/music/test.flac".into()),
        cached_path: None,
    }
}

fn album(id: i64, title: &str, artist: &str, date: &str) -> AlbumRow {
    AlbumRow {
        id,
        title: title.into(),
        artist_id: 1,
        artist_name: artist.into(),
        date: Some(date.into()),
        codec: Some("FLAC".into()),
        label: None,
        total_discs: None,
        total_tracks: Some(1),
    }
}

fn artist(id: i64, name: &str) -> ArtistRow {
    ArtistRow {
        id,
        name: name.into(),
        sort_name: None,
    }
}

fn xml(node: XmlNode) -> String {
    SubsonicResponse::ok(false).child(node).build().body
}

fn json(node: XmlNode) -> serde_json::Value {
    let body = SubsonicResponse::ok(true).child(node).build().body;
    serde_json::from_str(&body).unwrap()
}

fn credentials() -> Credentials {
    Credentials {
        username: "testuser".into(),
        password: "testpass".into(),
    }
}

/// The MD5 digest of `testpassabc123`.
fn good_token() -> String {
    format!("{:x}", md5::compute("testpassabc123"))
}

fn query(text: &str) -> SubsonicParams {
    RawParams::parse(Some(text)).auth()
}

fn code(r: Result<(), SubsonicError>) -> i64 {
    match r {
        Ok(()) => -1,
        Err(e) => e.code.number(),
    }
}

#[test]
fn the_right_token_gets_in() {
    let ok = query(&format!("u=testuser&t={}&s=abc123&v=1.16.1&c=test", good_token()));
    assert!(validate_auth(&ok, &credentials()).is_ok());
    assert!(!ok.wants_json());
    assert!(query("f=json").wants_json());
}

#[test]
fn everything_else_is_refused() {
    let judge = |text: &str| code(validate_auth(&query(text), &credentials()));
    assert_eq!(judge("u=testuser&t=wrongtoken&s=abc"), 40);
    assert_eq!(
        judge(&format!("u=wronguser&t={}&s=abc123", good_token())),
        40
    );
    // A token is good for one salt only.
    assert_eq!(
        judge(&format!("u=testuser&t={}&s=abc124", good_token())),
        40
    );
    // Plain and hex-encoded passwords are refused like wrong ones.
    assert_eq!(judge("u=testuser&p=testpass"), 40);
    assert_eq!(judge("u=testuser&p=enc:7465737470617373"), 40);
    assert_eq!(judge("u=testuser"), 10);
    assert_eq!(judge("t=x&s=y"), 10);
}

#[test]
fn tokens_are_compared_with_what_is_expected() {
    assert!(validate_token(&query("u=a&t=tok&s=x"), "a", "tok").is_ok());
    assert_eq!(code(validate_token(&query("u=a&t=tok&s=x"), "a", "toc")), 40);
    assert!(same_secret("abc", "abc"));
    assert!(!same_secret("abc", "abd"));
    assert!(!same_secret("abc", "ab"));
}

#[test]
fn pings_are_answered() {
    let ok = SubsonicResponse::ok(false).build();
    assert_eq!(ok.content_type, "application/xml; charset=utf-8");
    assert!(ok.body.contains("status=\"ok\""));
    let ok = SubsonicResponse::ok(true).build();
    assert_eq!(ok.content_type, "application/json; charset=utf-8");
    let parsed: serde_json::Value = serde_json::from_str(&ok.body).unwrap();
    assert_eq!(parsed["subsonic-response"]["status"], "ok");
}

#[test]
fn failures_are_documents_too() {
    let err = SubsonicError::missing_param("u");
    let doc = render(false, Err(err));
    assert!(doc.body.contains("status=\"failed\""));
    assert!(doc.body.contains("code=\"10\""));
    assert!(doc.body.contains("Required parameter &apos;u&apos; is missing"));
    let doc = render(true, Err(SubsonicError::not_found("Song")));
    let parsed: serde_json::Value = serde_json::from_str(&doc.body).unwrap();
    assert_eq!(parsed["subsonic-response"]["status"], "failed");
    assert_eq!(parsed["subsonic-response"]["error"]["code"], 70);
    assert_eq!(SubsonicError::bad_param("id").code.number(), 10);
    assert_eq!(SubsonicError::internal("x").code.number(), 0);
    assert_eq!(SubsonicError::wrong_auth().code, SubsonicErrorCode::WrongAuth);
}

#[test]
fn documents_to_the_letter() {
    assert_eq!(
        SubsonicResponse::ok(true).child(get_license()).build().body,
        "{\"subsonic-response\":{\"license\":{\"email\":\"koan@localhost\",\"valid\":true},\
         \"status\":\"ok\",\"version\":\"1.16.1\"}}"
    );
    assert_eq!(
        SubsonicResponse::ok(false).child(get_license()).build().body,
        "<?xml version=\"1.0\" encoding=\"UTF-8\"?>\n\
         <subsonic-response xmlns=\"http://subsonic.org/restapi\" status=\"ok\" \
         version=\"1.16.1\">\n  <license valid=\"true\" email=\"koan@localhost\"/>\n\
         </subsonic-response>"
    );
    // Quotes and control characters are escaped in JSON strings.
    let odd = XmlNode::new("x").attr("name", "a\"b\n");
    assert!(SubsonicResponse::ok(true)
        .child(odd)
        .build()
        .body
        .contains("\"name\":\"a\\\"b\\n\""));
    let odd = XmlNode::new("x").attr("name", "\\/\u{8}\u{c}\r\t\u{1}\u{1f}\u{7f}é");
    assert!(SubsonicResponse::ok(true)
        .child(odd)
        .build()
        .body
        .contains("\"name\":\"\\\\/\\b\\f\\r\\t\\u0001\\u001f\u{7f}é\""));
}

#[test]
fn all_of_xmls_characters_are_escaped() {
    assert_eq!(xml_escape("<&>\"'é"), "&lt;&amp;&gt;&quot;&apos;é");
}

#[test]
fn songs_in_xml() {
    let body = xml(get_song(Some(&track(1))).unwrap());
    let song = body
        .lines()
        .find(|l| l.trim_start().starts_with("<song "))
        .unwrap()
        .trim();
    assert_eq!(
        song,
        "<song id=\"1\" title=\"Test Song\" album=\"Test Album\" artist=\"Test Artist\" \
         track=\"1\" discNumber=\"1\" duration=\"240\" bitRate=\"1411\" suffix=\"flac\" \
         contentType=\"audio/flac\" genre=\"Rock\" albumId=\"1\" artistId=\"1\" \
         parent=\"al-1\" coverArt=\"mf-1\" type=\"music\" isDir=\"false\"/>"
    );
}

#[test]
fn songs_in_json_are_typed() {
    let parsed = json(get_song(Some(&track(1))).unwrap());
    let song = &parsed["subsonic-response"]["song"];
    assert_eq!(song["id"], "1");
    assert_eq!(song["title"], "Test Song");
    assert_eq!(song["duration"].as_i64(), Some(240));
    assert_eq!(song["track"].as_i64(), Some(1));
    assert_eq!(song["bitRate"].as_i64(), Some(1411));
    assert_eq!(song["discNumber"].as_i64(), Some(1));
    assert_eq!(song["isDir"].as_bool(), Some(false));
    assert_eq!(song["type"], "music");
    assert_eq!(song["coverArt"], "mf-1");
}

#[test]
fn sparse_songs_leave_attributes_out() {
    let mut bare = track(2);
    bare.track_number = None;
    bare.disc = None;
    bare.duration_ms = None;
    bare.bitrate = None;
    bare.codec = None;
    bare.genre = None;
    bare.album_id = None;
    bare.artist_id = None;
    let body = xml(track_node(&bare, "child"));
    assert!(body.contains("<child id=\"2\""));
    assert!(body.contains("suffix=\"bin\" contentType=\"application/octet-stream\""));
    for name in ["track=", "discNumber=", "duration=", "bitRate=", "genre=", "albumId="] {
        assert!(!body.contains(name), "{name}");
    }
}

#[test]
fn albums_in_json_are_typed() {
    let node = get_album(Some(&album(4, "Test Album", "Test Artist", "2020")), &vec![track(1)])
        .unwrap();
    let parsed = json(node);
    assert!(parsed["subsonic-response"]["album"].is_object());
    let found = &parsed["subsonic-response"]["album"];
    assert_eq!(found["songCount"].as_i64(), Some(1));
    assert_eq!(found["year"].as_i64(), Some(2020));
    assert_eq!(found["isDir"].as_bool(), Some(true));
    assert_eq!(found["coverArt"], "al-4");
    assert_eq!(found["song"][0]["title"], "Test Song");
}

#[test]
fn what_is_not_there_is_error_70() {
    for err in [
        get_song(None).unwrap_err(),
        get_album(None, &Vec::new()).unwrap_err(),
        get_artist(&Vec::new(), 9, &Vec::new()).unwrap_err(),
        album_directory(None, &Vec::new()).unwrap_err(),
    ] {
        assert_eq!(err.code.number(), 70);
    }
}

#[test]
fn artists_by_letter() {
    let albums = vec![album(4, "Test Album", "Test Artist", "2020")];
    let empty = xml(get_artists(Vec::new(), &Vec::new()));
    assert!(empty.contains("<artists"));
    let body = xml(get_artists(
        vec![artist(2, "zz"), artist(1, "Test Artist"), artist(3, "3 Inches")],
        &albums,
    ));
    assert!(body.contains("name=\"Test Artist\""));
    assert!(body.contains("albumCount=\"1\""));
    let t = body.find("<index name=\"T\"").unwrap();
    let z = body.find("<index name=\"Z\"").unwrap();
    assert!(t < z);
    assert_eq!(album_counts_by_artist(&albums).get(&1), Some(&1));
    let body = xml(get_indexes(vec![artist(1, "Test Artist")], 5));
    assert!(body.contains("<indexes"));
    assert!(body.contains("id=\"ar-1\""));
    assert!(body.contains("lastModified=\"5\""));
}

#[test]
fn one_artist() {
    let artists = vec![artist(1, "Test Artist")];
    let albums = vec![album(4, "Test Album", "Test Artist", "2020")];
    let body = xml(get_artist(&artists, 1, &albums).unwrap());
    assert!(body.contains("Test Artist"));
    assert!(body.contains("Test Album"));
    assert_eq!(find_artist(&artists, 1).unwrap().name, "Test Artist");
    assert!(find_artist(&artists, 2).is_none());
}

#[test]
fn directories() {
    let artists = vec![artist(1, "Test Artist")];
    let albums = vec![album(4, "Test Album", "Test Artist", "2020")];
    assert!(directory_artist(Some(EntityKind::Artist), 1, &artists).is_some());
    assert!(directory_artist(Some(EntityKind::Album), 1, &artists).is_none());
    let body = xml(artist_directory(&artists[0], &albums));
    assert!(body.contains("id=\"al-4\""));
    assert!(body.contains("isDir=\"true\""));
    let body = xml(album_directory(Some(&albums[0]), &vec![track(1)]).unwrap());
    assert!(body.contains("Test Song"));
    assert!(body.contains("<child"));
}

fn listed(order: ListOrder, keys: Vec<u64>, size: Option<i64>, offset: Option<i64>) -> Vec<String> {
    let albums = vec![
        album(1, "B", "Y", "2001"),
        album(2, "A", "Z", "2003"),
        album(3, "C", "X", "2002"),
    ];
    let parsed = json(album_list(&albums, order, &keys, size, offset, "albumList2"));
    parsed["subsonic-response"]["albumList2"]["album"]
        .as_array()
        .unwrap()
        .iter()
        .map(|a| a["name"].as_str().unwrap().to_owned())
        .collect()
}

#[test]
fn lists_of_albums() {
    let none = Vec::new;
    assert_eq!(listed(ListOrder::ByName, none(), None, None), vec!["A", "B", "C"]);
    assert_eq!(listed(ListOrder::ByArtist, none(), None, None), vec!["C", "B", "A"]);
    assert_eq!(listed(ListOrder::Newest, none(), None, None), vec!["A", "C", "B"]);
    assert_eq!(listed(ListOrder::Unsorted, none(), None, None), vec!["B", "A", "C"]);
    assert_eq!(
        listed(ListOrder::Random, vec![9, 1, 5], None, None),
        vec!["A", "C", "B"]
    );
    assert_eq!(
        listed(ListOrder::ByName, none(), Some(1), Some(1)),
        vec!["B"]
    );
    assert!(listed(ListOrder::ByName, none(), Some(-1), None).is_empty());
    assert!(listed(ListOrder::ByName, none(), None, Some(7)).is_empty());
    assert_eq!(parse_list_order(None), ListOrder::ByName);
    assert_eq!(parse_list_order(Some("newest")), ListOrder::Newest);
    assert_eq!(parse_list_order(Some("random")), ListOrder::Random);
    assert_eq!(
        parse_list_order(Some("alphabeticalByArtist")),
        ListOrder::ByArtist
    );
    assert_eq!(parse_list_order(Some("frequent")), ListOrder::Unsorted);
}

#[test]
fn identifiers_are_needed() {
    assert_eq!(require_id(Some("mf-3")).unwrap(), 3);
    assert_eq!(require_id(None).unwrap_err().code.number(), 10);
    assert_eq!(require_id(Some("not-a-number")).unwrap_err().code.number(), 10);
    assert_eq!(
        require_entity(Some("al-2")).unwrap(),
        (Some(EntityKind::Album), 2)
    );
    for kind in [EntityKind::Artist, EntityKind::Album, EntityKind::Song] {
        assert_eq!(parse_entity_id(&entity_id(kind, -7)), Some((Some(kind), -7)));
    }
}

#[test]
fn searches() {
    let mut other = track(2);
    other.artist_id = None;
    other.album_id = None;
    let tracks = vec![track(1), other, track(3)];
    let body = xml(search3(&tracks, 20, 20, 2));
    assert!(body.contains("<searchResult3>"));
    assert_eq!(body.matches("<artist id=\"1\"").count(), 1);
    assert_eq!(body.matches("<album id=\"1\"").count(), 1);
    assert_eq!(body.matches("<song ").count(), 2);
    assert_eq!(xml(search3(&tracks, 0, 0, 0)).matches("id=").count(), 0);
    assert_eq!(count_or_default(None), 20);
    assert_eq!(count_or_default(Some(3)), 3);
    assert!(search_needed(1, 2, 30) >= 30);
}

#[test]
fn random_and_similar_songs() {
    let mut jazz = track(2);
    jazz.genre = Some("Jazz".into());
    let tracks = vec![track(1), jazz, track(3)];
    let songs = |node| {
        xml(node).matches("<song ").count()
    };
    assert_eq!(songs(get_random_songs(&tracks, 5, None)), 3);
    assert_eq!(songs(get_random_songs(&tracks, 5, Some("Rock"))), 2);
    assert_eq!(songs(get_random_songs(&tracks, 1, Some("Rock"))), 1);
    assert_eq!(random_fetch_count(10, false), 10);
    assert_eq!(random_fetch_count(10, true), 50);
    let lists = vec![vec![track(1), track(2)], vec![track(3)]];
    assert_eq!(songs(get_similar_songs2(Some(&lists), 2)), 2);
    assert_eq!(songs(get_similar_songs2(None, 2)), 0);
    assert_eq!(songs(get_starred2(&vec![Some(track(1)), None])), 1);
}

#[test]
fn playlists() {
    let saved = vec![SnapshotRow {
        name: "testmix".into(),
        track_count: 2,
        created_at: "2024-01-01".into(),
    }];
    let body = xml(get_playlists(&saved, "testuser"));
    assert!(body.contains(
        "<playlist id=\"testmix\" name=\"testmix\" songCount=\"2\" owner=\"testuser\" \
         public=\"false\" created=\"2024-01-01\"/>"
    ));

    let loaded = LoadedPlaylist {
        name: "testmix".into(),
        created_at: "2024-01-01".into(),
        members: vec![Some(track(1)), None],
    };
    let body = xml(playlist_node(Some(&loaded), "testuser").unwrap());
    // Members that are gone count, but are not listed.
    assert!(body.contains("songCount=\"2\""));
    assert_eq!(body.matches("<entry ").count(), 1);
    assert!(!body.contains("<song "));
    assert_eq!(playlist_node(None, "x").unwrap_err().code.number(), 70);
    assert!(playlist_deleted(true).is_ok());
    assert_eq!(playlist_deleted(false).unwrap_err().code.number(), 70);
}

#[test]
fn playlists_are_created_from_parameters() {
    let params = RawParams::parse(Some("playlistId=p&songId=1&songId=x&songId=2"));
    assert_eq!(playlist_name(&params).unwrap(), "p");
    assert_eq!(playlist_song_ids(&params), vec![1, 2]);
    let both = RawParams::parse(Some("playlistId=p&name=my%20mix"));
    assert_eq!(playlist_name(&both).unwrap(), "my mix");
    assert_eq!(
        playlist_name(&RawParams::parse(None)).unwrap_err().code.number(),
        10
    );
    let mut remote = track(2);
    remote.path = None;
    remote.duration_ms = Some(-1);
    let items = persisted_items(&vec![Some(track(1)), None, Some(remote)]);
    assert_eq!(items.len(), 2);
    assert_eq!(items[0].path, "/music/test.flac");
    assert_eq!(items[0].track_number, Some(1));
    assert_eq!(items[0].db_id, Some(1));
    assert_eq!(items[1].path, "");
    assert_eq!(items[1].duration_ms, Some(u64::MAX));
}

#[test]
fn small_answers() {
    let body = xml(get_license());
    assert!(body.contains("<license valid=\"true\" email=\"koan@localhost\"/>"));
    let body = xml(get_music_folders());
    assert!(body.contains("<musicFolder id=\"1\" name=\"Music\"/>"));
    let body = xml(get_user("testuser"));
    assert!(body.contains("username=\"testuser\""));
    assert!(body.contains("streamRole=\"true\""));
    assert!(body.contains("adminRole=\"false\""));
    let body = xml(get_scan_status(1));
    assert!(body.contains("<scanStatus scanning=\"false\" count=\"1\"/>"));
}

#[test]
fn genres_are_named_by_text() {
    let genres = || {
        vec![GenreRow {
            name: "Rock".into(),
            songs: 1,
            albums: 1,
        }]
    };
    assert!(xml(get_genres(&genres())).contains(">Rock</genre>"));
    let parsed = json(get_genres(&genres()));
    let genre = &parsed["subsonic-response"]["genres"]["genre"][0];
    assert_eq!(genre["value"], "Rock");
    assert_eq!(genre["songCount"].as_i64(), Some(1));
}

#[test]
fn scrobbles_and_stars() {
    assert_eq!(played_at(Some(1_700_000_000_999), 5), 1_700_000_000);
    assert_eq!(played_at(Some(-1500), 5), -1);
    assert_eq!(played_at(None, 5), 5);
    assert_eq!(starred_path(Some(&track(1))).unwrap(), "/music/test.flac");
    let mut remote = track(1);
    remote.path = None;
    assert_eq!(starred_path(Some(&remote)).unwrap(), "");
    assert_eq!(starred_path(None).unwrap_err().code.number(), 70);
}

#[test]
fn unknown_endpoints_are_named() {
    let err = unsupported_endpoint("getPodcasts.view");
    assert_eq!(err.code.number(), 70);
    assert!(err.message.contains("'getPodcasts'"));
    assert!(unsupported_endpoint("a.view.view").message.contains("'a'"));
    assert!(unsupported_endpoint(".view").message.contains("''"));
}

#[test]
fn streams_come_from_disk_or_upstream() {
    match stream_source(Some(&track(1)), true, false).unwrap() {
        StreamSource::Local { path, content_type } => {
            assert_eq!(path, "/music/test.flac");
            assert_eq!(content_type, "audio/flac");
        }
        other => panic!("{:?}", other),
    }
    let mut remote = track(1);
    remote.remote_id = Some("r1".into());
    remote.codec = Some("mp3".into());
    match stream_source(Some(&remote), false, true).unwrap() {
        StreamSource::Upstream {
            remote_id,
            content_type,
        } => {
            assert_eq!(remote_id, "r1");
            assert_eq!(content_type, "audio/mpeg");
        }
        other => panic!("{:?}", other),
    }
    assert!(stream_source(Some(&remote), false, false)
        .unwrap_err()
        .message
        .contains("Remote server not configured"));
    assert!(stream_source(Some(&track(1)), false, true)
        .unwrap_err()
        .message
        .contains("Track has no local file and no remote source"));
    assert_eq!(stream_source(None, true, true).unwrap_err().code.number(), 70);
}

#[test]
fn streams_answer_ranges() {
    let reply = stream_reply(Some("bytes=100-199"), 1000);
    assert_eq!(reply.status(), 206);
    match reply {
        StreamReply::Partial {
            start,
            length,
            content_range,
        } => {
            assert_eq!((start, length), (100, 100));
            assert_eq!(content_range, "bytes 100-199/1000");
        }
        other => panic!("{:?}", other),
    }
    let reply = stream_reply(Some("bytes=5000-6000"), 1000);
    assert_eq!(reply.status(), 416);
    match reply {
        StreamReply::NotSatisfiable { content_range } => {
            assert_eq!(content_range, "bytes */1000")
        }
        other => panic!("{:?}", other),
    }
    for range in [Some("seconds=0-10"), None] {
        let reply = stream_reply(range, 1000);
        assert_eq!(reply.status(), 200);
        assert!(matches!(reply, StreamReply::Whole { length: 1000 }));
    }
}

#[test]
fn malformed_ranges_are_ignored_for_every_file() {
    assert_eq!(parse_range("bytes=0-x", 0), RangeRequest::Malformed);
    assert_eq!(parse_range("bytes=0-x", 10), RangeRequest::Malformed);
    assert_eq!(parse_range("bytes=-0", 10), RangeRequest::Unsatisfiable);
    assert_eq!(parse_range("bytes=5-4", 10), RangeRequest::Unsatisfiable);
    assert_eq!(
        parse_range("bytes=-50", 10),
        RangeRequest::Satisfiable { start: 0, end: 9 }
    );
}

#[test]
fn media_types_of_the_unknown() {
    assert_eq!(extension_to_mime("xyz"), "application/octet-stream");
    assert_eq!(codec_to_mime("xyz").1, "application/octet-stream");
    let mut row = track(1);
    row.path = None;
    row.cached_path = Some("/cache/x".into());
    assert_eq!(track_file_path(&row).as_deref(), Some("/cache/x"));
    assert_eq!(year_from_date(Some("1999-01-01")), Some(1999));
    assert_eq!(year_from_date(Some("99")), None);
    assert_eq!(year_from_date(None), None);
}
