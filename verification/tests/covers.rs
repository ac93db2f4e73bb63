use std::io::Cursor;

use image::GenericImageView;

use koan::rows::TrackRow;
use koan::subsonic::covers::{
    cover_lookup, cover_request, cover_source_path, has_png_signature, make_cover, resize_image,
    target_side, CachedCover, CoverCache, CoverFound, CoverLookup, CoverRequest,
    COVER_CACHE_ENTRIES,
};
use koan::subsonic::ids::EntityKind;

fn picture(width: u32, height: u32, format: image::ImageFormat) -> Vec<u8> {
    let pixels = image::RgbImage::from_pixel(width, height, image::Rgb([1, 2, 3]));
    let mut out = Cursor::new(Vec::new());
    image::DynamicImage::ImageRgb8(pixels)
        .write_to(&mut out, format)
        .unwrap();
    out.into_inner()
}

fn size_of(bytes: &[u8]) -> (u32, u32) {
    image::load_from_memory(bytes).unwrap().dimensions()
}

#[test]
fn covers_are_not_made_greater() {
    // An image of one pixel blown up to the greatest size would not fit in memory.
    let out = resize_image(&picture(1, 1, image::ImageFormat::Png), u32::MAX, true).unwrap();
    assert_eq!(size_of(&out), (1, 1));
}

#[test]
fn covers_keep_their_shape() {
    let source = picture(200, 100, image::ImageFormat::Png);
    let out = resize_image(&source, 64, true).unwrap();
    assert_eq!(size_of(&out), (64, 32));
    assert!(has_png_signature(&out));
    let out = resize_image(&source, 64, false).unwrap();
    assert_eq!(size_of(&out), (64, 32));
    assert!(!has_png_signature(&out));
    assert_eq!(target_side(64, 200, 100), 64);
    assert_eq!(target_side(640, 200, 100), 200);
}

#[test]
fn what_is_no_image_is_refused() {
    let err = resize_image(&vec![1, 2, 3], 64, true).unwrap_err();
    assert!(err.message.starts_with("image decode error: "));
    assert_eq!(err.code.number(), 0);
}

#[test]
fn covers_are_made_as_asked() {
    let source = picture(200, 100, image::ImageFormat::Png);
    let whole = make_cover(Some(source.clone()), None).unwrap();
    assert_eq!(whole.bytes, source);
    assert_eq!(whole.content_type(), "image/png");
    let small = make_cover(Some(picture(200, 100, image::ImageFormat::Jpeg)), Some(50)).unwrap();
    assert_eq!(small.content_type(), "image/jpeg");
    assert_eq!(size_of(&small.bytes), (50, 25));
    assert_eq!(make_cover(None, None).unwrap_err().code.number(), 70);
}

fn track(id: i64, path: Option<&str>) -> TrackRow {
    TrackRow {
        id,
        title: "Song".into(),
        artist_name: "Test Artist".into(),
        album_artist_name: "Test Artist".into(),
        album_title: "Album".into(),
        album_id: None,
        artist_id: None,
        disc: None,
        track_number: None,
        duration_ms: None,
        codec: None,
        sample_rate: None,
        bit_depth: None,
        channels: None,
        bitrate: None,
        genre: None,
        source: "local".into(),
        remote_id: None,
        path: path.map(str::to_owned),
        cached_path: None,
    }
}

/// Looks a cover's track up among three tracks: the first two on album one, the third
/// on album two, so that the numbers of albums and of tracks cross.
fn found(lookup: CoverLookup) -> CoverFound {
    let row = |n: i64| track(n, Some(&format!("/t{n}.flac")));
    let of_album = |n: i64| match n {
        1 => vec![row(1), row(2)],
        2 => vec![row(3)],
        _ => Vec::new(),
    };
    match lookup {
        CoverLookup::TracksOfAlbum(n) => CoverFound::OfAlbum(of_album(n)),
        CoverLookup::AlbumsOfArtist(_) => {
            CoverFound::OfArtist(vec![Vec::new(), of_album(2), of_album(1)])
        }
        CoverLookup::Track(n) => CoverFound::OfSong(if n < 4 { Some(row(n)) } else { None }),
    }
}

#[test]
fn test_cover_art_id_namespacing() {
    let path = |id: &str| {
        let req = cover_request(Some(id), None).unwrap();
        cover_source_path(&found(cover_lookup(req)))
    };
    // `al-2` is album two — track 3's file, not track 2's.
    assert_eq!(path("al-2").unwrap(), "/t3.flac");
    // `mf-2` and a bare `2` are both track 2.
    assert_eq!(path("mf-2").unwrap(), "/t2.flac");
    assert_eq!(path("2").unwrap(), "/t2.flac");
    // An artist resolves through their first album's first track.
    assert_eq!(path("ar-1").unwrap(), "/t3.flac");
    assert_eq!(path("al-9999").unwrap_err().code.number(), 70);
    assert_eq!(path("mf-9999").unwrap_err().code.number(), 70);
}

#[test]
fn covers_need_a_file() {
    let err = cover_source_path(&CoverFound::OfSong(Some(track(1, None)))).unwrap_err();
    assert!(err.message.contains("Track has no local file"));
    let err = cover_source_path(&CoverFound::OfArtist(vec![Vec::new()])).unwrap_err();
    assert!(err.message.contains("Artist"));
}

#[test]
fn sizes_are_kept_within_bounds() {
    let req = cover_request(Some("al-3"), Some(0)).unwrap();
    assert_eq!(req.kind, Some(EntityKind::Album));
    assert_eq!(req.id, 3);
    assert!(req.size.unwrap() >= 1);
    assert!(cover_request(Some("x"), None).is_err());
    assert!(cover_request(None, None).is_err());
}

#[test]
fn stored_covers_are_kept_for_a_while() {
    let mut cache = CoverCache::new();
    let req = |id: i64| CoverRequest {
        kind: None,
        id,
        size: Some(64),
    };
    let cover = |n: u8| CachedCover {
        png: true,
        bytes: vec![n],
    };
    assert!(cache.lookup(req(1)).is_none());
    cache.store(req(1), &cover(1));
    cache.store(req(2), &cover(2));
    assert_eq!(cache.lookup(req(1)).unwrap().bytes, vec![1]);
    // A song by its number and by its tagged number are the same.
    let tagged = CoverRequest {
        kind: Some(EntityKind::Song),
        ..req(1)
    };
    assert_eq!(cache.lookup(tagged).unwrap().bytes, vec![1]);
    let other = CoverRequest {
        kind: Some(EntityKind::Album),
        ..req(1)
    };
    assert!(cache.lookup(other).is_none());
    // The one that was not used for longest leaves first.
    for n in 0..COVER_CACHE_ENTRIES as i64 - 1 {
        cache.store(req(100 + n), &cover(3));
    }
    assert!(cache.lookup(req(2)).is_none());
    assert_eq!(cache.lookup(req(1)).unwrap().bytes, vec![1]);
}
