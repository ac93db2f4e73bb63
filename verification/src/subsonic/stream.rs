//! Streaming: where a track's bytes come from, and which of them are sent.

use vstd::prelude::*;

use crate::paths::{
    endings_stand_behind_the_dot, extension, extension_of, file_names_stand_last, last_name,
};
use crate::rows::TrackRow;
use crate::subsonic::browse::not_found_error;
use crate::subsonic::errors::SubsonicError;
use crate::subsonic::media::{
    codec_to_mime, codec_type, extension_to_mime, extension_type, file_of, track_file_path,
};
use crate::subsonic::range::{
    empty_files_serve_no_range, other_ranges_are_malformed, parse_range, range_of,
    ranges_are_served_as_asked, served_ranges_lie_in_the_file, RangeRequest,
};
use crate::text::{begins_with, decimal, lowercase, opt_str, opt_text, push_decimal, uppercase};

verus! {

/// Where a track's bytes come from.
#[derive(Debug)]
pub enum StreamSource {
    /// A file on this machine.
    Local { path: String, content_type: &'static str },
    /// The upstream server.
    Upstream { remote_id: String, content_type: &'static str },
}

/// The media type of a file.
pub open spec fn file_type(path: Seq<char>) -> Seq<char> {
    match last_name(path) {
        Some(name) => match extension_of(name) {
            Some(ext) => extension_type(lowercase(ext)),
            None => "application/octet-stream"@,
        },
        None => "application/octet-stream"@,
    }
}

/// The media type of an upstream track.
pub open spec fn upstream_type(codec: Option<String>) -> Seq<char> {
    match codec {
        Some(c) => codec_type(uppercase(c@)).1,
        None => "application/octet-stream"@,
    }
}

/// Whether `source` is where a track's bytes come from: its file, where that is on
/// disk, else the upstream server that knows the track.
pub open spec fn streams_from(t: TrackRow, on_disk: bool, source: StreamSource) -> bool {
    if file_of(t) is Some && on_disk {
        match source {
            StreamSource::Local { path, content_type } => path@ == file_of(t)->0 && content_type@
                == file_type(path@),
            _ => false,
        }
    } else {
        match source {
            StreamSource::Upstream { remote_id, content_type } => opt_text(t.remote_id) == Some(
                remote_id@,
            ) && content_type@ == upstream_type(t.codec),
            _ => false,
        }
    }
}

/// Where the bytes of a track come from, given whether its file is on disk and whether an
/// upstream server is configured.
pub fn stream_source(track: Option<&TrackRow>, on_disk: bool, upstream: bool) -> (r: Result<
    StreamSource,
    SubsonicError,
>)
    ensures
        match (track, r) {
            (None, Err(e)) => not_found_error(e, "Track"@),
            (Some(t), Ok(source)) => streams_from(*t, on_disk, source) && (upstream
                || source is Local),
            (Some(t), Err(e)) => !(file_of(*t) is Some && on_disk) && if t.remote_id is None {
                not_found_error(e, "Track has no local file and no remote source"@)
            } else {
                !upstream && not_found_error(e, "Remote server not configured"@)
            },
            _ => false,
        },
{
    match track {
        None => Err(SubsonicError::not_found("Track")),
        Some(t) => {
            if on_disk {
                if let Some(path) = track_file_path(t) {
                    let content_type: &'static str = match extension(path.as_str()) {
                        Some(ext) => extension_to_mime(ext.as_str()),
                        None => "application/octet-stream",
                    };
                    return Ok(StreamSource::Local { path, content_type });
                }
            }
            match &t.remote_id {
                Some(id) => {
                    if !upstream {
                        return Err(SubsonicError::not_found("Remote server not configured"));
                    }
                    let content_type: &'static str = match &t.codec {
                        Some(c) => codec_to_mime(c.as_str()).1,
                        None => "application/octet-stream",
                    };
                    Ok(StreamSource::Upstream { remote_id: id.clone(), content_type })
                },
                None => Err(
                    SubsonicError::not_found("Track has no local file and no remote source"),
                ),
            }
        },
    }
}

/// What is sent of a file.
#[derive(Debug)]
pub enum StreamReply {
    /// Everything.
    Whole { length: u64 },
    /// Some bytes from the middle, with their place for the header.
    Partial { start: u64, length: u64, content_range: String },
    /// Nothing, with the size of the file for the header.
    NotSatisfiable { content_range: String },
}

impl StreamReply {
    /// The HTTP status of the reply.
    pub fn status(&self) -> (r: u16)
        ensures
            r == match self {
                StreamReply::Whole { .. } => 200u16,
                StreamReply::Partial { .. } => 206u16,
                StreamReply::NotSatisfiable { .. } => 416u16,
            },
    {
        match self {
            StreamReply::Whole { .. } => 200,
            StreamReply::Partial { .. } => 206,
            StreamReply::NotSatisfiable { .. } => 416,
        }
    }
}

/// The place of some bytes in a file, as the header has it.
pub open spec fn range_text(start: nat, end: nat, total: nat) -> Seq<char> {
    "bytes "@ + decimal(start) + "-"@ + decimal(end) + "/"@ + decimal(total)
}

/// Whether `reply` is what a header asks of a file of some size.
pub open spec fn replies(range: Option<Seq<char>>, total: nat, reply: StreamReply) -> bool {
    match range {
        None => reply == (StreamReply::Whole { length: total as u64 }),
        Some(r) => match range_of(r, total) {
            RangeRequest::Satisfiable { start, end } => match reply {
                StreamReply::Partial { start: from, length, content_range } => from == start
                    && length == end - start + 1 && content_range@ == range_text(
                    start as nat,
                    end as nat,
                    total,
                ),
                _ => false,
            },
            RangeRequest::Unsatisfiable => match reply {
                StreamReply::NotSatisfiable { content_range } => content_range@ == "bytes */"@
                    + decimal(total),
                _ => false,
            },
            RangeRequest::Malformed => reply == (StreamReply::Whole { length: total as u64 }),
        },
    }
}

/// What is sent of a file of some size in answer to a `Range` header.
pub fn stream_reply(range: Option<&str>, total: u64) -> (r: StreamReply)
    ensures
        replies(opt_str(range), total as nat, r),
{
    match range {
        None => StreamReply::Whole { length: total },
        Some(header) => {
            proof {
                served_ranges_lie_in_the_file(header@, total);
            }
            match parse_range(header, total) {
                RangeRequest::Satisfiable { start, end } => {
                    let mut text = "bytes ".to_owned();
                    push_decimal(&mut text, start);
                    text.push_str("-");
                    push_decimal(&mut text, end);
                    text.push_str("/");
                    push_decimal(&mut text, total);
                    StreamReply::Partial { start, length: end - start + 1, content_range: text }
                },
                RangeRequest::Unsatisfiable => {
                    let mut text = "bytes */".to_owned();
                    push_decimal(&mut text, total);
                    StreamReply::NotSatisfiable { content_range: text }
                },
                RangeRequest::Malformed => StreamReply::Whole { length: total },
            }
        },
    }
}

/// The bytes that are sent are bytes of the file.
pub proof fn replies_stay_in_the_file(range: Option<Seq<char>>, total: u64, reply: StreamReply)
    requires
        replies(range, total as nat, reply),
    ensures
        match reply {
            StreamReply::Whole { length } => length == total,
            StreamReply::Partial { start, length, .. } => 0 < length && start + length <= total,
            StreamReply::NotSatisfiable { .. } => true,
        },
{
    if range is Some {
        served_ranges_lie_in_the_file(range->0, total);
    }
}

/// A range that can be met is answered with just its bytes, and a header that says which they
/// are and how many there are in all.
pub proof fn ranges_are_answered_as_asked(start: u64, end: u64, total: u64, reply: StreamReply)
    requires
        start <= end < total,
        replies(
            Some("bytes="@ + (decimal(start as nat) + seq!['-'] + decimal(end as nat))),
            total as nat,
            reply,
        ),
    ensures
        reply is Partial,
        reply->Partial_start == start,
        reply->Partial_length == end - start + 1,
        reply->Partial_content_range@ == "bytes "@ + decimal(start as nat) + "-"@ + decimal(
            end as nat,
        ) + "/"@ + decimal(total as nat),
{
    ranges_are_served_as_asked(start, end, total);
}

/// A file is sent whole where no range is asked for or it cannot be read; a range that cannot
/// be met is told the size of the file.
pub proof fn other_requests_are_answered(range: Option<Seq<char>>, total: u64, reply: StreamReply)
    requires
        replies(range, total as nat, reply),
    ensures
        range is None ==> reply is Whole,
        range is Some && !begins_with(range->0, "bytes="@) ==> reply is Whole,
        reply is NotSatisfiable ==> reply->NotSatisfiable_content_range@ == "bytes */"@ + decimal(
            total as nat,
        ),
        total == 0 ==> !(reply is Partial),
{
    if let Some(r) = range {
        if !begins_with(r, "bytes="@) {
            other_ranges_are_malformed(r, total);
        }
        if total == 0 {
            empty_files_serve_no_range(r);
        }
    }
}

/// A track that has a file on this machine is read from it, under its own path before that of
/// its copy; any other comes from the server upstream under its number there.
pub proof fn tracks_stream_from_where_they_are(t: TrackRow, on_disk: bool, source: StreamSource)
    requires
        streams_from(t, on_disk, source),
    ensures
        source is Local <==> on_disk && (t.path is Some || t.cached_path is Some),
        source is Local && t.path is Some ==> source->Local_path@ == t.path->0@,
        source is Local && t.path is None ==> source->Local_path@ == t.cached_path->0@,
        source is Upstream ==> t.remote_id is Some && source->remote_id@ == t.remote_id->0@,
{
}

/// What a file holds is told by its ending.
pub proof fn files_are_typed_by_their_ending(
    dir: Seq<char>,
    name: Seq<char>,
    ext: Seq<char>,
)
    requires
        name.len() > 0,
        !name.contains('/'),
        !ext.contains('/'),
        !ext.contains('.'),
        name != seq!['.'] || ext.len() > 0,
    ensures
        file_type(dir + seq!['/'] + (name + seq!['.'] + ext)) == extension_type(lowercase(ext)),
{
    let whole = name + seq!['.'] + ext;
    assert(whole != seq!['.', '.']) by {
        if whole == seq!['.', '.'] {
            assert(name[0] == whole[0]);
            assert(whole.len() == 2);
            assert(name =~= seq!['.']);
        }
    }
    file_names_stand_last(dir, whole);
    endings_stand_behind_the_dot(name, ext);
}

/// A file is typed by its ending, and what comes from upstream by its codec.
pub proof fn streams_are_typed(t: TrackRow, on_disk: bool, source: StreamSource)
    requires
        streams_from(t, on_disk, source),
    ensures
        source is Local ==> source->Local_content_type@ == file_type(source->Local_path@),
        source is Upstream && t.codec is Some ==> source->Upstream_content_type@ == codec_type(
            uppercase(t.codec->0@),
        ).1,
        source is Upstream && t.codec is None ==> source->Upstream_content_type@
            == "application/octet-stream"@,
{
}

/// A range that starts behind the end of the file cannot be met.
pub proof fn ranges_behind_the_end_are_refused(
    start: u64,
    end: u64,
    total: u64,
    reply: StreamReply,
)
    requires
        total <= start <= end,
        replies(
            Some("bytes="@ + (decimal(start as nat) + seq!['-'] + decimal(end as nat))),
            total as nat,
            reply,
        ),
    ensures
        reply is NotSatisfiable,
{
    ranges_are_served_as_asked(start, end, total);
}

} // verus!
