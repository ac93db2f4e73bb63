//! Orders about the library: playlists, favourites, organizing, jobs and settings.

use vstd::prelude::*;

use crate::graphql::jobs::JobState;
use crate::graphql::queue::GqlStatus;
use crate::lists::{collecting_gives_one_list, collects, filter_collects, take_push};
use crate::text::{
    around_decimal, as_i32, begins_with, concat, concat3, contains_text, decimal, decimal_int,
    decimal_of, decimal_of_int, join, joined, joined_holds_its_parts, lowercase, opt_text,
    push_decimal, same, texts, texts_are_found_inside, to_lowercase, wrapped_i32,
};

verus! {

broadcast use crate::lists::group_lists;

// ---------------------------------------------------------------------------
// Playlists
// ---------------------------------------------------------------------------

/// What is said of a playlist that does not exist.
pub open spec fn no_playlist_text(id: i64) -> Seq<char> {
    "playlist "@ + decimal_int(id as int) + " not found"@
}

fn no_playlist(id: i64) -> (r: String)
    ensures
        r@ == no_playlist_text(id),
{
    concat3("playlist ", decimal_of_int(id).as_str(), " not found")
}

/// How renaming a playlist went, given whether there was one.
pub fn rename_playlist(existed: bool, id: i64, name: &str) -> (r: Result<GqlStatus, String>)
    ensures
        match r {
            Ok(status) => existed && status.tells("renamed playlist to '"@ + name@ + "'"@),
            Err(m) => !existed && m@ == no_playlist_text(id),
        },
{
    if existed {
        Ok(GqlStatus::success(concat3("renamed playlist to '", name, "'").as_str()))
    } else {
        Err(no_playlist(id))
    }
}

/// How deleting a playlist went, given whether there was one.
pub fn delete_playlist(existed: bool, id: i64) -> (r: Result<GqlStatus, String>)
    ensures
        match r {
            Ok(status) => existed && status.tells("deleted playlist "@ + decimal_int(id as int)),
            Err(m) => !existed && m@ == no_playlist_text(id),
        },
{
    if existed {
        Ok(GqlStatus::success(concat("deleted playlist ", decimal_of_int(id).as_str()).as_str()))
    } else {
        Err(no_playlist(id))
    }
}

/// How adding tracks to a playlist went.
pub fn add_to_playlist(added: usize) -> (r: GqlStatus)
    ensures
        r.tells("added "@ + decimal(added as nat) + " track(s)"@),
{
    GqlStatus::success(around_decimal("added ", added as u64, " track(s)").as_str())
}

/// How replacing the tracks of a playlist went.
pub fn set_playlist_tracks(id: i64, tracks: usize) -> (r: GqlStatus)
    ensures
        r.tells(
            "playlist "@ + decimal_int(id as int) + " now holds "@ + decimal(tracks as nat)
                + " track(s)"@,
        ),
{
    let mut text = concat3("playlist ", decimal_of_int(id).as_str(), " now holds ");
    push_decimal(&mut text, tracks as u64);
    text.push_str(" track(s)");
    GqlStatus::success(text.as_str())
}

// ---------------------------------------------------------------------------
// Favourites
// ---------------------------------------------------------------------------

/// What is written to the favourites.
#[derive(Clone, Copy, Debug, PartialEq, Eq, Structural)]
pub enum FavouriteWrite {
    Add,
    Remove,
    Toggle,
}

/// What is written to the favourites to star a track, to unstar it, or to do the one or
/// the other.
pub fn set_favourite(star: Option<bool>) -> (r: FavouriteWrite)
    ensures
        r == match star {
            Some(true) => FavouriteWrite::Add,
            Some(false) => FavouriteWrite::Remove,
            None => FavouriteWrite::Toggle,
        },
{
    match star {
        Some(true) => FavouriteWrite::Add,
        Some(false) => FavouriteWrite::Remove,
        None => FavouriteWrite::Toggle,
    }
}

/// What the upstream server is told of a favourite: only where it is in use and knows
/// the track.
pub fn sync_favourite_to_remote(remote_enabled: bool, remote_id: Option<String>, star: bool) -> (r:
    Option<(String, bool)>)
    ensures
        r == match remote_id {
            Some(id) => if remote_enabled {
                Some((id, star))
            } else {
                None
            },
            None => None,
        },
{
    match remote_id {
        Some(id) => if remote_enabled {
            Some((id, star))
        } else {
            None
        },
        None => None,
    }
}

// ---------------------------------------------------------------------------
// Organizing
// ---------------------------------------------------------------------------

/// Whether files may be moved at all: the deployment has to have said so.
pub fn require_organize(allowed: bool) -> (r: Result<(), String>)
    ensures
        match r {
            Ok(_) => allowed,
            Err(m) => !allowed && m@
                == "organize is disabled — set [graphql] allow_organize = true to enable it"@,
        },
{
    if allowed {
        Ok(())
    } else {
        Err(
            "organize is disabled — set [graphql] allow_organize = true to enable it".to_owned(),
        )
    }
}

/// What a pattern means for a file, with the reason where it stays.
#[derive(Debug)]
pub enum PlanOutcome {
    Move,
    Unchanged,
    Conflict(String),
    Error(String),
}

/// A file in a plan.
#[derive(Debug)]
pub struct PlanEntry {
    pub track_id: Option<i64>,
    pub from: String,
    pub to: Option<String>,
    pub outcome: PlanOutcome,
}

/// What a pattern means for a file.
#[derive(Clone, Copy, Debug, PartialEq, Eq, Structural)]
pub enum GqlPlanOutcome {
    /// It will be moved, or was.
    Move,
    /// It is where it belongs.
    Unchanged,
    /// Something else is there; nothing is ever overwritten.
    Conflict,
    /// The pattern gave nothing usable, or the move failed.
    Error,
}

/// A file in a plan, with the reason why it stays, if it does.
#[derive(Debug)]
pub struct GqlFileMove {
    pub track_id: Option<i64>,
    pub from_path: String,
    pub to_path: Option<String>,
    pub outcome: GqlPlanOutcome,
    pub reason: Option<String>,
}

/// Every file of a plan, and how many there are of each outcome.
#[derive(Debug)]
pub struct GqlOrganizePlan {
    pub entries: Vec<GqlFileMove>,
    pub moved_count: i32,
    pub unchanged_count: i32,
    pub conflict_count: i32,
    pub error_count: i32,
}

/// The kind of an outcome.
pub open spec fn kind_of(o: PlanOutcome) -> GqlPlanOutcome {
    match o {
        PlanOutcome::Move => GqlPlanOutcome::Move,
        PlanOutcome::Unchanged => GqlPlanOutcome::Unchanged,
        PlanOutcome::Conflict(_) => GqlPlanOutcome::Conflict,
        PlanOutcome::Error(_) => GqlPlanOutcome::Error,
    }
}

/// The reason of an outcome.
pub open spec fn reason_of(o: PlanOutcome) -> Option<Seq<char>> {
    match o {
        PlanOutcome::Conflict(why) => Some(why@),
        PlanOutcome::Error(why) => Some(why@),
        _ => None,
    }
}

/// Whether a file is told as it is in the plan.
pub open spec fn tells_move(g: GqlFileMove, e: PlanEntry) -> bool {
    &&& g.track_id == e.track_id
    &&& g.from_path == e.from
    &&& g.to_path == e.to
    &&& g.outcome == kind_of(e.outcome)
    &&& opt_text(g.reason) == reason_of(e.outcome)
}

/// How many files of a plan have an outcome.
pub open spec fn with_outcome(entries: Seq<PlanEntry>, kind: GqlPlanOutcome) -> nat
    decreases entries.len(),
{
    if entries.len() == 0 {
        0
    } else {
        with_outcome(entries.drop_last(), kind) + if kind_of(entries.last().outcome) == kind {
            1nat
        } else {
            0nat
        }
    }
}

/// Each file of a plan has one outcome.
pub proof fn outcomes_add_up(entries: Seq<PlanEntry>)
    ensures
        with_outcome(entries, GqlPlanOutcome::Move) + with_outcome(
            entries,
            GqlPlanOutcome::Unchanged,
        ) + with_outcome(entries, GqlPlanOutcome::Conflict) + with_outcome(
            entries,
            GqlPlanOutcome::Error,
        ) == entries.len(),
    decreases entries.len(),
{
    if entries.len() > 0 {
        outcomes_add_up(entries.drop_last());
    }
}

/// A plan as it is told, with the numbers of each outcome.
pub fn organize_plan(entries: Vec<PlanEntry>) -> (r: GqlOrganizePlan)
    ensures
        r.entries@.len() == entries@.len(),
        forall|i: int|
            0 <= i < r.entries@.len() ==> tells_move(#[trigger] r.entries@[i], entries@[i]),
        r.moved_count == as_i32(with_outcome(entries@, GqlPlanOutcome::Move) as int),
        r.unchanged_count == as_i32(with_outcome(entries@, GqlPlanOutcome::Unchanged) as int),
        r.conflict_count == as_i32(with_outcome(entries@, GqlPlanOutcome::Conflict) as int),
        r.error_count == as_i32(with_outcome(entries@, GqlPlanOutcome::Error) as int),
{
    let ghost all = entries@;
    let n: usize = entries.len();
    let mut out: Vec<GqlFileMove> = Vec::new();
    let mut moved: usize = 0;
    let mut unchanged: usize = 0;
    let mut conflicts: usize = 0;
    let mut errors: usize = 0;
    assert(all.take(0) =~= Seq::empty());
    for e in it: entries
        invariant
            it.seq() == all,
            all.len() == n,
            out@.len() == it.index(),
            forall|k: int| 0 <= k < out@.len() ==> tells_move(#[trigger] out@[k], all[k]),
            moved == with_outcome(all.take(it.index() as int), GqlPlanOutcome::Move),
            unchanged == with_outcome(all.take(it.index() as int), GqlPlanOutcome::Unchanged),
            conflicts == with_outcome(all.take(it.index() as int), GqlPlanOutcome::Conflict),
            errors == with_outcome(all.take(it.index() as int), GqlPlanOutcome::Error),
    {
        proof {
            let i = it.index() as int;
            outcomes_add_up(all.take(i));
            assert(all.take(i + 1).drop_last() =~= all.take(i));
            assert(all.take(i + 1).last() == all[i]);
        }
        let (outcome, reason) = match e.outcome {
            PlanOutcome::Move => {
                moved = moved + 1;
                (GqlPlanOutcome::Move, None)
            },
            PlanOutcome::Unchanged => {
                unchanged = unchanged + 1;
                (GqlPlanOutcome::Unchanged, None)
            },
            PlanOutcome::Conflict(why) => {
                conflicts = conflicts + 1;
                (GqlPlanOutcome::Conflict, Some(why))
            },
            PlanOutcome::Error(why) => {
                errors = errors + 1;
                (GqlPlanOutcome::Error, Some(why))
            },
        };
        out.push(
            GqlFileMove {
                track_id: e.track_id,
                from_path: e.from,
                to_path: e.to,
                outcome,
                reason,
            },
        );
    }
    assert(all.take(all.len() as int) =~= all);
    GqlOrganizePlan {
        entries: out,
        moved_count: wrapped_i32(moved),
        unchanged_count: wrapped_i32(unchanged),
        conflict_count: wrapped_i32(conflicts),
        error_count: wrapped_i32(errors),
    }
}

/// The files that could not be moved back, each with its reason.
pub open spec fn left_texts(errors: Seq<(String, String)>) -> Seq<Seq<char>> {
    errors.map_values(|e: (String, String)| e.0@ + ": "@ + e.1@)
}

/// What is told of moving files back.
pub open spec fn undo_text(restored: nat, errors: Seq<(String, String)>) -> Seq<char> {
    let head = "undone "@ + decimal(restored) + " moves"@;
    if errors.len() == 0 {
        head
    } else {
        head + "; "@ + decimal(errors.len()) + " left in place: "@ + joined(
            left_texts(errors),
            "; "@,
        )
    }
}

/// How moving files back went: how many are where they were, and which are not.
pub fn organize_undo(restored: usize, errors: &Vec<(String, String)>) -> (r: GqlStatus)
    ensures
        r.tells(undo_text(restored as nat, errors@)),
{
    let mut text = around_decimal("undone ", restored as u64, " moves");
    if errors.len() > 0 {
        let ghost all = left_texts(errors@);
        let mut parts: Vec<String> = Vec::new();
        let mut i: usize = 0;
        while i < errors.len()
            invariant
                i <= errors@.len(),
                all == left_texts(errors@),
                texts(parts@) == all.take(i as int),
            decreases errors@.len() - i,
        {
            parts.push(concat3(errors[i].0.as_str(), ": ", errors[i].1.as_str()));
            proof {
                take_push(all, i as int);
            }
            i = i + 1;
        }
        assert(all.take(i as int) =~= all);
        text.push_str("; ");
        push_decimal(&mut text, errors.len() as u64);
        text.push_str(" left in place: ");
        text.push_str(join(&parts, "; ").as_str());
    }
    GqlStatus::success(text.as_str())
}

// ---------------------------------------------------------------------------
// Jobs
// ---------------------------------------------------------------------------

/// What a scan did.
pub fn scan_text(added: u64, updated: u64, unchanged: u64) -> (r: String)
    ensures
        r@ == decimal(added as nat) + " added, "@ + decimal(updated as nat) + " updated, "@
            + decimal(unchanged as nat) + " unchanged"@,
{
    let mut s = decimal_of(added);
    s.push_str(" added, ");
    push_decimal(&mut s, updated);
    s.push_str(" updated, ");
    push_decimal(&mut s, unchanged);
    s.push_str(" unchanged");
    s
}

/// What a sync did.
pub fn sync_text(complete: bool, albums_failed: u64) -> (r: String)
    ensures
        r@ == if complete {
            "remote sync complete"@
        } else {
            "remote sync incomplete: "@ + decimal(albums_failed as nat)
                + " album(s) failed and will be retried next sync"@
        },
{
    if complete {
        "remote sync complete".to_owned()
    } else {
        around_decimal(
            "remote sync incomplete: ",
            albums_failed,
            " album(s) failed and will be retried next sync",
        )
    }
}

/// How a job ended: `None` if it could not be started.
pub fn job_end(outcome: Option<Result<String, String>>) -> (r: (JobState, String))
    ensures
        match outcome {
            Some(Ok(m)) => r.0 == JobState::Succeeded && r.1 == m,
            Some(Err(m)) => r.0 == JobState::Failed && r.1 == m,
            None => r.0 == JobState::Failed && r.1@ == "failed to spawn worker thread"@,
        },
{
    match outcome {
        Some(Ok(m)) => (JobState::Succeeded, m),
        Some(Err(m)) => (JobState::Failed, m),
        None => (JobState::Failed, "failed to spawn worker thread".to_owned()),
    }
}

// ---------------------------------------------------------------------------
// Settings
// ---------------------------------------------------------------------------

/// By what loudness is evened out.
#[derive(Clone, Copy, Debug, PartialEq, Eq, Structural)]
pub enum ReplayGainMode {
    Off,
    Track,
    Album,
}

impl ReplayGainMode {
    /// The word for a mode.
    pub open spec fn word(self) -> Seq<char> {
        match self {
            ReplayGainMode::Off => "off"@,
            ReplayGainMode::Track => "track"@,
            ReplayGainMode::Album => "album"@,
        }
    }

    /// The word for a mode.
    pub fn as_str(self) -> (r: &'static str)
        ensures
            r@ == self.word(),
    {
        match self {
            ReplayGainMode::Off => "off",
            ReplayGainMode::Track => "track",
            ReplayGainMode::Album => "album",
        }
    }

    /// The mode that a word in lower case stands for; an unknown one stands for off.
    pub fn from_lowercase(word: &str) -> (r: Self)
        ensures
            r == gain_named(word@),
    {
        if same(word, "track") {
            ReplayGainMode::Track
        } else if same(word, "album") {
            ReplayGainMode::Album
        } else {
            ReplayGainMode::Off
        }
    }
}

/// The mode that a word in lower case stands for; an unknown one stands for off.
pub open spec fn gain_named(word: Seq<char>) -> ReplayGainMode {
    if word == "track"@ {
        ReplayGainMode::Track
    } else if word == "album"@ {
        ReplayGainMode::Album
    } else {
        ReplayGainMode::Off
    }
}

/// The word for a mode stands for that mode.
pub proof fn gain_modes_read_back(mode: ReplayGainMode)
    ensures
        gain_named(mode.word()) == mode,
{
    reveal_strlit("off");
    reveal_strlit("track");
    reveal_strlit("album");
    assert("off"@.len() == 3 && "track"@.len() == 5 && "album"@.len() == 5);
    assert("track"@[0] == 't' && "album"@[0] == 'a');
}

/// The settings that can be read and changed over the network.
#[derive(Debug)]
pub struct Settings {
    pub library_folders: Vec<String>,
    pub replaygain: ReplayGainMode,
    pub output_device: Option<String>,
    pub target_fps: u8,
    pub art_size: u16,
    pub remote_enabled: bool,
    pub remote_url: String,
    pub remote_username: String,
    pub transcode_quality: String,
    pub cache_limit: Option<String>,
    pub visualizer_fps: u8,
    pub graphql_port: u16,
    pub graphql_playground: bool,
}

/// What is to be changed of the settings.
#[derive(Debug)]
pub struct GqlConfigInput {
    pub library_folders: Option<Vec<String>>,
    pub replaygain_mode: Option<String>,
    pub output_device: Option<String>,
    pub target_fps: Option<i32>,
    pub art_size: Option<i32>,
    pub remote_enabled: Option<bool>,
    pub remote_url: Option<String>,
    pub remote_username: Option<String>,
    pub transcode_quality: Option<String>,
    pub cache_limit: Option<String>,
    pub visualizer_fps: Option<i32>,
    pub graphql_port: Option<i32>,
    pub graphql_playground: Option<bool>,
}

/// The low eight bits of a number.
pub open spec fn low_byte(n: int) -> int {
    n % 256
}

/// The low sixteen bits of a number.
pub open spec fn low_word(n: int) -> int {
    n % 65536
}

fn byte_of(n: i32) -> (r: u8)
    ensures
        r == low_byte(n as int),
{
    let shifted: u64 = (n as i64 + 0x8000_0000) as u64;
    assert(shifted % 256 == low_byte(n as int));
    (shifted % 256) as u8
}

fn word_of(n: i32) -> (r: u16)
    ensures
        r == low_word(n as int),
{
    let shifted: u64 = (n as i64 + 0x8000_0000) as u64;
    assert(shifted % 65536 == low_word(n as int));
    (shifted % 65536) as u16
}

/// What an optional setting becomes: cleared by an empty text.
pub open spec fn cleared_or(given: Option<String>, before: Option<String>) -> Option<Seq<char>> {
    match given {
        Some(g) => if g@.len() == 0 {
            None
        } else {
            Some(g@)
        },
        None => opt_text(before),
    }
}

fn clear_or(given: Option<String>, before: Option<String>) -> (r: Option<String>)
    ensures
        opt_text(r) == cleared_or(given, before),
{
    match given {
        Some(g) => if g.as_str().unicode_len() == 0 {
            None
        } else {
            Some(g)
        },
        None => before,
    }
}

/// Whether settings are what an input makes of others: what it gives is changed, and
/// nothing else.
pub open spec fn updates(s: Settings, before: Settings, input: GqlConfigInput) -> bool {
    &&& s.library_folders == before.library_folders
    &&& s.remote_url == before.remote_url
    &&& s.replaygain == match input.replaygain_mode {
        Some(m) => gain_named(lowercase(m@)),
        None => before.replaygain,
    }
    &&& opt_text(s.output_device) == cleared_or(input.output_device, before.output_device)
    &&& s.target_fps == match input.target_fps {
        Some(n) => low_byte(n as int),
        None => before.target_fps as int,
    }
    &&& s.art_size == match input.art_size {
        Some(n) => low_word(n as int),
        None => before.art_size as int,
    }
    &&& s.remote_enabled == match input.remote_enabled {
        Some(b) => b,
        None => before.remote_enabled,
    }
    &&& s.remote_username == match input.remote_username {
        Some(u) => u,
        None => before.remote_username,
    }
    &&& s.transcode_quality == match input.transcode_quality {
        Some(q) => q,
        None => before.transcode_quality,
    }
    &&& opt_text(s.cache_limit) == cleared_or(input.cache_limit, before.cache_limit)
    &&& s.visualizer_fps == match input.visualizer_fps {
        Some(n) => low_byte(n as int),
        None => before.visualizer_fps as int,
    }
    &&& s.graphql_port == match input.graphql_port {
        Some(n) => low_word(n as int),
        None => before.graphql_port as int,
    }
    &&& s.graphql_playground == match input.graphql_playground {
        Some(b) => b,
        None => before.graphql_playground,
    }
}

/// What is said to somebody who would change the library's folders from afar.
pub const FOLDERS_REFUSED: &'static str = "library folders can only be changed from the CLI";

/// What is said to somebody who would change the upstream server from afar.
pub const URL_REFUSED: &'static str = "remote URL can only be changed from the CLI";

/// Changes the settings that an input gives. The library's folders and the upstream
/// server are not for the network to change: with the other orders, they would let
/// anyone move files about and sync from anywhere.
pub fn update_config(before: Settings, input: GqlConfigInput) -> (r: Result<
    (Settings, GqlStatus),
    String,
>)
    ensures
        match r {
            Ok((s, status)) => {
                &&& input.library_folders is None
                &&& input.remote_url is None
                &&& updates(s, before, input)
                &&& status.tells("config updated"@)
            },
            Err(m) => if input.library_folders is Some {
                m@ == "library folders can only be changed from the CLI"@
            } else {
                input.remote_url is Some && m@ == "remote URL can only be changed from the CLI"@
            },
        },
{
    if input.library_folders.is_some() {
        return Err(FOLDERS_REFUSED.to_owned());
    }
    if input.remote_url.is_some() {
        return Err(URL_REFUSED.to_owned());
    }
    let replaygain = match &input.replaygain_mode {
        Some(m) => ReplayGainMode::from_lowercase(to_lowercase(m.as_str()).as_str()),
        None => before.replaygain,
    };
    let s = Settings {
        library_folders: before.library_folders,
        replaygain,
        output_device: clear_or(input.output_device, before.output_device),
        target_fps: match input.target_fps {
            Some(n) => byte_of(n),
            None => before.target_fps,
        },
        art_size: match input.art_size {
            Some(n) => word_of(n),
            None => before.art_size,
        },
        remote_enabled: match input.remote_enabled {
            Some(b) => b,
            None => before.remote_enabled,
        },
        remote_url: before.remote_url,
        remote_username: match input.remote_username {
            Some(u) => u,
            None => before.remote_username,
        },
        transcode_quality: match input.transcode_quality {
            Some(q) => q,
            None => before.transcode_quality,
        },
        cache_limit: clear_or(input.cache_limit, before.cache_limit),
        visualizer_fps: match input.visualizer_fps {
            Some(n) => byte_of(n),
            None => before.visualizer_fps,
        },
        graphql_port: match input.graphql_port {
            Some(n) => word_of(n),
            None => before.graphql_port,
        },
        graphql_playground: match input.graphql_playground {
            Some(b) => b,
            None => before.graphql_playground,
        },
    };
    Ok((s, GqlStatus::success("config updated")))
}

/// An input that gives nothing changes nothing.
pub proof fn empty_inputs_change_nothing(s: Settings, before: Settings, input: GqlConfigInput)
    requires
        updates(s, before, input),
        input.replaygain_mode is None,
        input.output_device is None,
        input.target_fps is None,
        input.art_size is None,
        input.remote_enabled is None,
        input.remote_username is None,
        input.transcode_quality is None,
        input.cache_limit is None,
        input.visualizer_fps is None,
        input.graphql_port is None,
        input.graphql_playground is None,
    ensures
        s == (Settings {
            output_device: s.output_device,
            cache_limit: s.cache_limit,
            ..before
        }),
        opt_text(s.output_device) == opt_text(before.output_device),
        opt_text(s.cache_limit) == opt_text(before.cache_limit),
{
}

/// The settings as they are told.
#[derive(Debug)]
pub struct GqlConfig {
    pub library_folders: Vec<String>,
    pub replaygain_mode: String,
    pub output_device: Option<String>,
    pub target_fps: i32,
    pub art_size: i32,
    pub remote_enabled: bool,
    pub remote_url: String,
    pub remote_username: String,
    pub transcode_quality: String,
    pub cache_limit: Option<String>,
    pub visualizer_fps: i32,
    pub radio_enabled: bool,
    pub graphql_port: i32,
    pub graphql_playground: bool,
}

/// The settings as they are told.
pub fn config(s: Settings, radio_enabled: bool) -> (r: GqlConfig)
    ensures
        r.library_folders == s.library_folders,
        r.replaygain_mode@ == s.replaygain.word(),
        r.output_device == s.output_device,
        r.target_fps == s.target_fps,
        r.art_size == s.art_size,
        r.remote_enabled == s.remote_enabled,
        r.remote_url == s.remote_url,
        r.remote_username == s.remote_username,
        r.transcode_quality == s.transcode_quality,
        r.cache_limit == s.cache_limit,
        r.visualizer_fps == s.visualizer_fps,
        r.radio_enabled == radio_enabled,
        r.graphql_port == s.graphql_port,
        r.graphql_playground == s.graphql_playground,
{
    GqlConfig {
        library_folders: s.library_folders,
        replaygain_mode: s.replaygain.as_str().to_owned(),
        output_device: s.output_device,
        target_fps: s.target_fps as i32,
        art_size: s.art_size as i32,
        remote_enabled: s.remote_enabled,
        remote_url: s.remote_url,
        remote_username: s.remote_username,
        transcode_quality: s.transcode_quality,
        cache_limit: s.cache_limit,
        visualizer_fps: s.visualizer_fps as i32,
        radio_enabled,
        graphql_port: s.graphql_port as i32,
        graphql_playground: s.graphql_playground,
    }
}

/// A file of a plan is told with its track, where it is, where it goes and what becomes of
/// it; the reason is there exactly where it cannot be moved.
pub proof fn plans_tell_their_files(g: GqlFileMove, e: PlanEntry)
    requires
        tells_move(g, e),
    ensures
        g.track_id == e.track_id,
        g.from_path@ == e.from@,
        opt_text(g.to_path) == opt_text(e.to),
        g.outcome is Move <==> e.outcome is Move,
        g.outcome is Unchanged <==> e.outcome is Unchanged,
        g.outcome is Conflict <==> e.outcome is Conflict,
        g.outcome is Error <==> e.outcome is Error,
        g.reason is Some <==> (e.outcome is Conflict || e.outcome is Error),
        e.outcome is Conflict ==> g.reason->0@ == e.outcome->Conflict_0@,
        e.outcome is Error ==> g.reason->0@ == e.outcome->Error_0@,
{
}

/// The number of files with an outcome is the length of the list of those that have it.
pub proof fn outcomes_are_counted(entries: Seq<PlanEntry>, kind: GqlPlanOutcome, found: Seq<PlanEntry>)
    requires
        collects(
            entries,
            |e: PlanEntry|
                if match kind {
                    GqlPlanOutcome::Move => e.outcome is Move,
                    GqlPlanOutcome::Unchanged => e.outcome is Unchanged,
                    GqlPlanOutcome::Conflict => e.outcome is Conflict,
                    GqlPlanOutcome::Error => e.outcome is Error,
                } {
                    Some(e)
                } else {
                    None
                },
            found,
        ),
    ensures
        with_outcome(entries, kind) == found.len(),
{
    let f = |e: PlanEntry|
        if match kind {
            GqlPlanOutcome::Move => e.outcome is Move,
            GqlPlanOutcome::Unchanged => e.outcome is Unchanged,
            GqlPlanOutcome::Conflict => e.outcome is Conflict,
            GqlPlanOutcome::Error => e.outcome is Error,
        } {
            Some(e)
        } else {
            None
        };
    let keep = |e: PlanEntry| kind_of(e.outcome) == kind;
    filter_collects(entries, keep, f);
    collecting_gives_one_list(entries, f, found, entries.filter(keep));
    outcomes_are_filtered(entries, kind);
}

proof fn outcomes_are_filtered(entries: Seq<PlanEntry>, kind: GqlPlanOutcome)
    ensures
        with_outcome(entries, kind) == entries.filter(
            |e: PlanEntry| kind_of(e.outcome) == kind,
        ).len(),
    decreases entries.len(),
{
    reveal(Seq::filter);
    if entries.len() > 0 {
        outcomes_are_filtered(entries.drop_last(), kind);
    }
}

/// A change of the settings sets each one that is given, under its own name, and leaves every
/// other as it was; an empty device or limit takes the old one away.
pub proof fn settings_change_as_given(s: Settings, before: Settings, input: GqlConfigInput)
    requires
        updates(s, before, input),
    ensures
        s.library_folders == before.library_folders,
        s.remote_url@ == before.remote_url@,
        input.replaygain_mode is None ==> s.replaygain == before.replaygain,
        forall|mode: ReplayGainMode|
            input.replaygain_mode is Some && lowercase(input.replaygain_mode->0@)
                == #[trigger] mode.word() ==> s.replaygain == mode,
        input.output_device is None ==> opt_text(s.output_device) == opt_text(
            before.output_device,
        ),
        input.output_device is Some && input.output_device->0@.len() == 0 ==> s.output_device
            is None,
        input.output_device is Some && input.output_device->0@.len() > 0 ==> s.output_device
            is Some && s.output_device->0@ == input.output_device->0@,
        input.cache_limit is None ==> opt_text(s.cache_limit) == opt_text(before.cache_limit),
        input.cache_limit is Some && input.cache_limit->0@.len() == 0 ==> s.cache_limit is None,
        input.cache_limit is Some && input.cache_limit->0@.len() > 0 ==> s.cache_limit is Some
            && s.cache_limit->0@ == input.cache_limit->0@,
        input.target_fps is None ==> s.target_fps == before.target_fps,
        input.target_fps is Some && 0 <= input.target_fps->0 < 256 ==> s.target_fps
            == input.target_fps->0,
        input.art_size is None ==> s.art_size == before.art_size,
        input.art_size is Some && 0 <= input.art_size->0 < 65536 ==> s.art_size
            == input.art_size->0,
        input.remote_enabled is None ==> s.remote_enabled == before.remote_enabled,
        input.remote_enabled is Some ==> s.remote_enabled == input.remote_enabled->0,
        input.remote_username is None ==> s.remote_username == before.remote_username,
        input.remote_username is Some ==> s.remote_username@ == input.remote_username->0@,
        input.transcode_quality is None ==> s.transcode_quality == before.transcode_quality,
        input.transcode_quality is Some ==> s.transcode_quality@ == input.transcode_quality->0@,
        input.visualizer_fps is None ==> s.visualizer_fps == before.visualizer_fps,
        input.visualizer_fps is Some && 0 <= input.visualizer_fps->0 < 256 ==> s.visualizer_fps
            == input.visualizer_fps->0,
        input.graphql_port is None ==> s.graphql_port == before.graphql_port,
        input.graphql_port is Some && 0 <= input.graphql_port->0 < 65536 ==> s.graphql_port
            == input.graphql_port->0,
        input.graphql_playground is None ==> s.graphql_playground == before.graphql_playground,
        input.graphql_playground is Some ==> s.graphql_playground == input.graphql_playground->0,
{
    assert forall|mode: ReplayGainMode|
        input.replaygain_mode is Some && lowercase(input.replaygain_mode->0@)
            == #[trigger] mode.word() implies s.replaygain == mode by {
        gain_modes_read_back(mode);
    }
}

/// An undone run tells how many files went back, and of each that did not, where it is and
/// why.
pub proof fn undone_runs_tell_what_stays(restored: nat, errors: Seq<(String, String)>, k: int)
    requires
        0 <= k < errors.len(),
    ensures
        begins_with(undo_text(restored, errors), "undone "@ + decimal(restored) + " moves"@),
        contains_text(undo_text(restored, errors), errors[k].0@ + ": "@ + errors[k].1@),
        undo_text(restored, Seq::empty()) == "undone "@ + decimal(restored) + " moves"@,
{
    let head = "undone "@ + decimal(restored) + " moves"@;
    let parts = left_texts(errors);
    let lead = head + "; "@ + decimal(errors.len()) + " left in place: "@;
    let all = undo_text(restored, errors);
    assert(all =~= lead + joined(parts, "; "@));
    assert(all.take(head.len() as int) =~= head);
    joined_holds_its_parts(parts, "; "@, k);
    texts_are_found_inside(joined(parts, "; "@), parts[k]);
    let (a, c) = choose|a: Seq<char>, c: Seq<char>|
        joined(parts, "; "@) == #[trigger] (a + parts[k] + c);
    assert(all =~= (lead + a) + parts[k] + c);
    texts_are_found_inside(all, parts[k]);
}

/// Each mode has its own word, and every other word turns it off.
pub proof fn gain_modes_have_their_word(mode: ReplayGainMode, word: Seq<char>)
    ensures
        mode is Off ==> mode.word() == "off"@,
        mode is Track ==> mode.word() == "track"@,
        mode is Album ==> mode.word() == "album"@,
        word != "track"@ && word != "album"@ ==> gain_named(word) is Off,
{
}

} // verus!
