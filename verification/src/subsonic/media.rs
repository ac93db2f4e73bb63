//! Media types of codecs and files, and where a track's bytes come from.

use vstd::prelude::*;
use vstd::utf8::is_ascii_chars;

use crate::rows::TrackRow;
use crate::text::{
    ascii_lower, ascii_upper, lowercase, opt_text, same, to_lowercase, to_uppercase, uppercase,
};

verus! {

/// The file suffix and the media type of a codec, by its name in upper case.
pub open spec fn codec_type(upper: Seq<char>) -> (Seq<char>, Seq<char>) {
    if upper == "FLAC"@ {
        ("flac"@, "audio/flac"@)
    } else if upper == "MP3"@ {
        ("mp3"@, "audio/mpeg"@)
    } else if upper == "AAC"@ || upper == "M4A"@ {
        ("m4a"@, "audio/mp4"@)
    } else if upper == "OPUS"@ {
        ("opus"@, "audio/opus"@)
    } else if upper == "VORBIS"@ || upper == "OGG"@ {
        ("ogg"@, "audio/ogg"@)
    } else if upper == "WAV"@ {
        ("wav"@, "audio/wav"@)
    } else if upper == "AIFF"@ {
        ("aiff"@, "audio/aiff"@)
    } else if upper == "WAVPACK"@ || upper == "WV"@ {
        ("wv"@, "audio/x-wavpack"@)
    } else if upper == "APE"@ {
        ("ape"@, "audio/x-ape"@)
    } else {
        ("bin"@, "application/octet-stream"@)
    }
}

/// The media type of a file, by its extension in lower case.
pub open spec fn extension_type(lower: Seq<char>) -> Seq<char> {
    if lower == "flac"@ {
        "audio/flac"@
    } else if lower == "mp3"@ {
        "audio/mpeg"@
    } else if lower == "m4a"@ || lower == "aac"@ || lower == "mp4"@ {
        "audio/mp4"@
    } else if lower == "opus"@ {
        "audio/opus"@
    } else if lower == "ogg"@ {
        "audio/ogg"@
    } else if lower == "wav"@ {
        "audio/wav"@
    } else if lower == "aiff"@ || lower == "aif"@ {
        "audio/aiff"@
    } else if lower == "wv"@ {
        "audio/x-wavpack"@
    } else if lower == "ape"@ {
        "audio/x-ape"@
    } else {
        "application/octet-stream"@
    }
}

/// The file suffix and the media type of a codec, whatever the case of its name.
pub fn codec_to_mime(codec: &str) -> (r: (&'static str, &'static str))
    ensures
        (r.0@, r.1@) == codec_type(uppercase(codec@)),
        is_ascii_chars(codec@) ==> (r.0@, r.1@) == codec_type(ascii_upper(codec@)),
{
    let upper = to_uppercase(codec);
    upper_codec_to_mime(upper.as_str())
}

/// The file suffix and the media type of a codec, by its name in upper case.
pub fn upper_codec_to_mime(upper: &str) -> (r: (&'static str, &'static str))
    ensures
        (r.0@, r.1@) == codec_type(upper@),
{
    if same(upper, "FLAC") {
        ("flac", "audio/flac")
    } else if same(upper, "MP3") {
        ("mp3", "audio/mpeg")
    } else if same(upper, "AAC") || same(upper, "M4A") {
        ("m4a", "audio/mp4")
    } else if same(upper, "OPUS") {
        ("opus", "audio/opus")
    } else if same(upper, "VORBIS") || same(upper, "OGG") {
        ("ogg", "audio/ogg")
    } else if same(upper, "WAV") {
        ("wav", "audio/wav")
    } else if same(upper, "AIFF") {
        ("aiff", "audio/aiff")
    } else if same(upper, "WAVPACK") || same(upper, "WV") {
        ("wv", "audio/x-wavpack")
    } else if same(upper, "APE") {
        ("ape", "audio/x-ape")
    } else {
        ("bin", "application/octet-stream")
    }
}

/// The media type of a file, whatever the case of its extension.
pub fn extension_to_mime(ext: &str) -> (r: &'static str)
    ensures
        r@ == extension_type(lowercase(ext@)),
        is_ascii_chars(ext@) ==> r@ == extension_type(ascii_lower(ext@)),
{
    let lower = to_lowercase(ext);
    lower_extension_to_mime(lower.as_str())
}

/// The media type of a file, by its extension in lower case.
pub fn lower_extension_to_mime(lower: &str) -> (r: &'static str)
    ensures
        r@ == extension_type(lower@),
{
    if same(lower, "flac") {
        "audio/flac"
    } else if same(lower, "mp3") {
        "audio/mpeg"
    } else if same(lower, "m4a") || same(lower, "aac") || same(lower, "mp4") {
        "audio/mp4"
    } else if same(lower, "opus") {
        "audio/opus"
    } else if same(lower, "ogg") {
        "audio/ogg"
    } else if same(lower, "wav") {
        "audio/wav"
    } else if same(lower, "aiff") || same(lower, "aif") {
        "audio/aiff"
    } else if same(lower, "wv") {
        "audio/x-wavpack"
    } else if same(lower, "ape") {
        "audio/x-ape"
    } else {
        "application/octet-stream"
    }
}

/// A track's file: the local one, else the cached one.
pub open spec fn file_of(track: TrackRow) -> Option<Seq<char>> {
    match track.path {
        Some(p) => Some(p@),
        None => opt_text(track.cached_path),
    }
}

/// A track's file: the local one, else the cached one.
pub fn track_file_path(track: &TrackRow) -> (r: Option<String>)
    ensures
        opt_text(r) == file_of(*track),
{
    match &track.path {
        Some(p) => Some(p.clone()),
        None => track.cached_path.clone(),
    }
}

/// A codec's ending and its type agree with what the ending is typed as, and a codec that is
/// not known has neither.
pub proof fn codecs_and_endings_agree(upper: Seq<char>)
    ensures
        extension_type(codec_type(upper).0) == codec_type(upper).1,
        codec_type(upper).1 == "audio/flac"@ <==> upper == "FLAC"@,
        codec_type(upper).1 == "audio/mpeg"@ <==> upper == "MP3"@,
        codec_type(upper).1 == "audio/mp4"@ <==> upper == "AAC"@ || upper == "M4A"@,
        codec_type(upper).1 == "audio/opus"@ <==> upper == "OPUS"@,
        codec_type(upper).1 == "audio/ogg"@ <==> upper == "VORBIS"@ || upper == "OGG"@,
        codec_type(upper).1 == "audio/wav"@ <==> upper == "WAV"@,
        codec_type(upper).1 == "audio/aiff"@ <==> upper == "AIFF"@,
        codec_type(upper).1 == "audio/x-wavpack"@ <==> upper == "WAVPACK"@ || upper == "WV"@,
        codec_type(upper).1 == "audio/x-ape"@ <==> upper == "APE"@,
{
    types_differ();
    endings_differ();
}

/// Each ending is typed as what it stands for.
pub proof fn endings_are_typed(lower: Seq<char>)
    ensures
        extension_type(lower) == "audio/flac"@ <==> lower == "flac"@,
        extension_type(lower) == "audio/mpeg"@ <==> lower == "mp3"@,
        extension_type(lower) == "audio/mp4"@ <==> lower == "m4a"@ || lower == "aac"@ || lower
            == "mp4"@,
        extension_type(lower) == "audio/opus"@ <==> lower == "opus"@,
        extension_type(lower) == "audio/ogg"@ <==> lower == "ogg"@,
        extension_type(lower) == "audio/wav"@ <==> lower == "wav"@,
        extension_type(lower) == "audio/aiff"@ <==> lower == "aiff"@ || lower == "aif"@,
        extension_type(lower) == "audio/x-wavpack"@ <==> lower == "wv"@,
        extension_type(lower) == "audio/x-ape"@ <==> lower == "ape"@,
{
    types_differ();
    endings_differ();
}

proof fn types_differ()
    ensures
        "audio/flac"@.len() == 10 && "audio/flac"@[6] == 'f',
        "audio/mpeg"@.len() == 10 && "audio/mpeg"@[6] == 'm',
        "audio/opus"@.len() == 10 && "audio/opus"@[6] == 'o',
        "audio/aiff"@.len() == 10 && "audio/aiff"@[6] == 'a',
        "audio/mp4"@.len() == 9 && "audio/mp4"@[6] == 'm',
        "audio/ogg"@.len() == 9 && "audio/ogg"@[6] == 'o',
        "audio/wav"@.len() == 9 && "audio/wav"@[6] == 'w',
        "audio/x-wavpack"@.len() == 15,
        "audio/x-ape"@.len() == 11,
        "application/octet-stream"@.len() == 24,
{
    reveal_strlit("audio/flac");
    reveal_strlit("audio/mpeg");
    reveal_strlit("audio/opus");
    reveal_strlit("audio/aiff");
    reveal_strlit("audio/mp4");
    reveal_strlit("audio/ogg");
    reveal_strlit("audio/wav");
    reveal_strlit("audio/x-wavpack");
    reveal_strlit("audio/x-ape");
    reveal_strlit("application/octet-stream");
}

proof fn endings_differ()
    ensures
        "flac"@.len() == 4 && "flac"@[0] == 'f',
        "opus"@.len() == 4 && "opus"@[0] == 'o',
        "aiff"@.len() == 4 && "aiff"@[0] == 'a',
        "mp3"@.len() == 3 && "mp3"@[0] == 'm' && "mp3"@[2] == '3',
        "m4a"@.len() == 3 && "m4a"@[0] == 'm' && "m4a"@[2] == 'a',
        "mp4"@.len() == 3 && "mp4"@[0] == 'm' && "mp4"@[2] == '4',
        "aac"@.len() == 3 && "aac"@[0] == 'a' && "aac"@[2] == 'c',
        "aif"@.len() == 3 && "aif"@[0] == 'a' && "aif"@[2] == 'f',
        "ape"@.len() == 3 && "ape"@[0] == 'a' && "ape"@[2] == 'e',
        "ogg"@.len() == 3 && "ogg"@[0] == 'o',
        "wav"@.len() == 3 && "wav"@[0] == 'w',
        "bin"@.len() == 3 && "bin"@[0] == 'b',
        "wv"@.len() == 2,
        "FLAC"@.len() == 4 && "FLAC"@[0] == 'F',
        "OPUS"@.len() == 4 && "OPUS"@[0] == 'O',
        "AIFF"@.len() == 4 && "AIFF"@[0] == 'A',
        "MP3"@.len() == 3 && "MP3"@[0] == 'M' && "MP3"@[2] == '3',
        "M4A"@.len() == 3 && "M4A"@[0] == 'M' && "M4A"@[2] == 'A',
        "AAC"@.len() == 3 && "AAC"@[0] == 'A' && "AAC"@[2] == 'C',
        "APE"@.len() == 3 && "APE"@[0] == 'A' && "APE"@[2] == 'E',
        "OGG"@.len() == 3 && "OGG"@[0] == 'O',
        "WAV"@.len() == 3 && "WAV"@[0] == 'W',
        "VORBIS"@.len() == 6,
        "WAVPACK"@.len() == 7,
        "WV"@.len() == 2,
{
    reveal_strlit("flac");
    reveal_strlit("opus");
    reveal_strlit("aiff");
    reveal_strlit("mp3");
    reveal_strlit("m4a");
    reveal_strlit("mp4");
    reveal_strlit("aac");
    reveal_strlit("aif");
    reveal_strlit("ape");
    reveal_strlit("ogg");
    reveal_strlit("wav");
    reveal_strlit("bin");
    reveal_strlit("wv");
    reveal_strlit("FLAC");
    reveal_strlit("OPUS");
    reveal_strlit("AIFF");
    reveal_strlit("MP3");
    reveal_strlit("M4A");
    reveal_strlit("AAC");
    reveal_strlit("APE");
    reveal_strlit("OGG");
    reveal_strlit("WAV");
    reveal_strlit("VORBIS");
    reveal_strlit("WAVPACK");
    reveal_strlit("WV");
}

/// A track's file is where the library has it, else its downloaded copy.
pub proof fn own_files_come_first(t: TrackRow)
    ensures
        t.path is Some ==> file_of(t) == Some(t.path->0@),
        t.path is None && t.cached_path is Some ==> file_of(t) == Some(t.cached_path->0@),
        t.path is None && t.cached_path is None ==> file_of(t) is None,
{
}

} // verus!
