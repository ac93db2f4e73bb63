//! Subscriptions: when there is something to tell.

use vstd::prelude::*;

use crate::player::{PlaybackState, QueueItemId};
use crate::subsonic::browse::clamped;

verus! {

/// What a listener was last told of the player.
#[derive(Clone, Copy, Debug)]
pub struct NowPlayingFeed {
    last: Option<(PlaybackState, u64, Option<QueueItemId>)>,
}

impl NowPlayingFeed {
    /// What was last told; nothing yet at first.
    pub closed spec fn last(&self) -> Option<(PlaybackState, u64, Option<QueueItemId>)> {
        self.last
    }

    /// A listener that has been told nothing.
    pub fn new() -> (r: Self)
        ensures
            r.last() is None,
    {
        NowPlayingFeed { last: None }
    }

    /// Whether the player is to be told of: at first, and when its state, its position
    /// or its track is another.
    pub fn changed(&mut self, state: PlaybackState, position_ms: u64, item: Option<QueueItemId>)
        -> (r: bool)
        ensures
            r == (old(self).last() != Some((state, position_ms, item))),
            final(self).last() == Some((state, position_ms, item)),
    {
        let same = match self.last {
            Some((s, p, i)) => s == state && p == position_ms && match (i, item) {
                (Some(a), Some(b)) => a == b,
                (None, None) => true,
                _ => false,
            },
            None => false,
        };
        self.last = Some((state, position_ms, item));
        !same
    }
}

/// The version of the queue that a listener was last told.
#[derive(Clone, Copy, Debug)]
pub struct QueueFeed {
    last_version: u64,
}

impl QueueFeed {
    /// The version that was last told; at first one that no queue has.
    pub closed spec fn last_version(&self) -> u64 {
        self.last_version
    }

    /// A listener that has been told nothing.
    pub fn new() -> (r: Self)
        ensures
            r.last_version() == u64::MAX,
    {
        QueueFeed { last_version: u64::MAX }
    }

    /// Whether the queue is to be told of: when its version is another, and while
    /// anything downloads, since progress does not change the version.
    pub fn changed(&mut self, version: u64, downloading: bool) -> (r: bool)
        ensures
            r == (version != old(self).last_version() || downloading),
            final(self).last_version() == version,
    {
        let r = version != self.last_version || downloading;
        self.last_version = version;
        r
    }
}

/// The rate that the analyser is set to: as asked, between 1 and 240 frames a second.
pub fn analyser_rate(fps: u32) -> (r: u8)
    ensures
        r == clamped(fps as int, 1, 240),
{
    if fps < 1 {
        1
    } else if fps > 240 {
        240
    } else {
        fps as u8
    }
}

} // verus!
