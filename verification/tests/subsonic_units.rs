use koan::subsonic::document::xml_escape;
use koan::subsonic::ids::{parse_entity_id, EntityKind};
use koan::subsonic::media::{codec_to_mime, extension_to_mime};
use koan::subsonic::params::RawParams;
use koan::subsonic::range::{parse_range, RangeRequest};

#[test]
fn test_xml_escape() {
    assert_eq!(xml_escape("A&B"), "A&amp;B");
    assert_eq!(xml_escape("a<b>c"), "a&lt;b&gt;c");
    assert_eq!(xml_escape(r#"say "hi""#), "say &quot;hi&quot;");
}

#[test]
fn test_codec_to_mime() {
    assert_eq!(codec_to_mime("FLAC"), ("flac", "audio/flac"));
    assert_eq!(codec_to_mime("MP3"), ("mp3", "audio/mpeg"));
    assert_eq!(codec_to_mime("AAC"), ("m4a", "audio/mp4"));
    assert_eq!(codec_to_mime("Opus"), ("opus", "audio/opus"));
}

#[test]
fn test_extension_to_mime() {
    assert_eq!(extension_to_mime("flac"), "audio/flac");
    assert_eq!(extension_to_mime("mp3"), "audio/mpeg");
    assert_eq!(extension_to_mime("m4a"), "audio/mp4");
    assert_eq!(extension_to_mime("FLAC"), "audio/flac");
}

#[test]
fn test_parse_range_full() {
    assert_eq!(
        parse_range("bytes=0-999", 5000),
        RangeRequest::Satisfiable { start: 0, end: 999 }
    );
}

#[test]
fn white_space_in_a_range_is_passed_over() {
    assert_eq!(
        parse_range("bytes= 0\t-\u{3000}999 ", 5000),
        RangeRequest::Satisfiable { start: 0, end: 999 }
    );
}

#[test]
fn test_parse_range_open_end() {
    assert_eq!(
        parse_range("bytes=1000-", 5000),
        RangeRequest::Satisfiable {
            start: 1000,
            end: 4999
        }
    );
}

#[test]
fn test_parse_range_suffix() {
    assert_eq!(
        parse_range("bytes=-500", 5000),
        RangeRequest::Satisfiable {
            start: 4500,
            end: 4999
        }
    );
}

#[test]
fn test_parse_range_out_of_bounds() {
    assert_eq!(
        parse_range("bytes=5000-6000", 5000),
        RangeRequest::Unsatisfiable
    );
}

#[test]
fn test_parse_range_clamps_end() {
    assert_eq!(
        parse_range("bytes=4000-9999", 5000),
        RangeRequest::Satisfiable {
            start: 4000,
            end: 4999
        }
    );
}

#[test]
fn test_parse_range_on_empty_file() {
    assert_eq!(parse_range("bytes=0-", 0), RangeRequest::Unsatisfiable);
    assert_eq!(parse_range("bytes=-100", 0), RangeRequest::Unsatisfiable);
}

#[test]
fn test_parse_range_malformed_is_ignored() {
    assert_eq!(parse_range("seconds=0-10", 5000), RangeRequest::Malformed);
    assert_eq!(parse_range("bytes=abc-def", 5000), RangeRequest::Malformed);
    // Multipart ranges are unsupported; serving the whole body is legal.
    assert_eq!(parse_range("bytes=0-1,5-6", 5000), RangeRequest::Malformed);
}

#[test]
fn test_parse_entity_id() {
    assert_eq!(parse_entity_id("5"), Some((None, 5)));
    assert_eq!(parse_entity_id("mf-5"), Some((Some(EntityKind::Song), 5)));
    assert_eq!(parse_entity_id("al-5"), Some((Some(EntityKind::Album), 5)));
    assert_eq!(parse_entity_id("ar-5"), Some((Some(EntityKind::Artist), 5)));
    assert_eq!(parse_entity_id("not-an-id"), None);
}

#[test]
fn test_raw_params_repeated_keys() {
    let p = RawParams::parse(Some("name=mix&songId=1&songId=2&songId%5B%5D=3"));
    assert_eq!(p.get("name").as_deref(), Some("mix"));
    assert_eq!(p.all("songId"), vec!["1", "2", "3"]);
}

