//! The accounts of a pool of database connections.

use vstd::prelude::*;

use crate::subsonic::browse::clamped;

verus! {

/// How many connections there are and where they are.
#[derive(Debug)]
pub struct DbPool {
    /// Connections that wait to be used.
    idle: usize,
    /// Connections in existence, waiting or in use.
    live: usize,
    /// Connections that were ever opened.
    opens: u64,
    /// Batches that were run.
    batches: u64,
    /// Whether the schema has been applied.
    initialised: bool,
    max: usize,
}

/// How a connection is come by.
#[derive(Clone, Copy, Debug, PartialEq, Eq, Structural)]
pub enum Acquire {
    /// One that waits is taken.
    Take,
    /// One is opened; the first one applies the schema.
    Open { apply_schema: bool },
    /// One has to come back first.
    Wait,
}

/// What is known of a pool.
pub struct PoolView {
    pub idle: nat,
    pub live: nat,
    pub opens: nat,
    pub batches: nat,
    pub initialised: bool,
    pub max: nat,
}

/// One more than a counter, which starts again when it is full.
pub open spec fn counted_on(n: nat) -> nat {
    if n == u64::MAX {
        0
    } else {
        n + 1
    }
}

fn count_on(n: u64) -> (r: u64)
    ensures
        r == counted_on(n as nat),
{
    if n == u64::MAX {
        0
    } else {
        n + 1
    }
}

impl View for DbPool {
    type V = PoolView;

    closed spec fn view(&self) -> PoolView {
        PoolView {
            idle: self.idle as nat,
            live: self.live as nat,
            opens: self.opens as nat,
            batches: self.batches as nat,
            initialised: self.initialised,
            max: self.max as nat,
        }
    }
}

impl PoolView {
    /// Connections wait only if they exist, and no more exist than may.
    pub open spec fn wf(self) -> bool {
        self.idle <= self.live <= self.max
    }

    /// Connections that are in use, or being opened.
    pub open spec fn in_use(self) -> int {
        self.live - self.idle
    }
}

impl DbPool {
    /// An empty pool for a machine with some number of processors, if that is known:
    /// readers gain nothing beyond that.
    pub fn new(parallelism: Option<usize>) -> (r: Self)
        ensures
            r@.wf(),
            r@ == (PoolView {
                idle: 0,
                live: 0,
                opens: 0,
                batches: 0,
                initialised: false,
                max: clamped(
                    match parallelism {
                        Some(n) => n as int,
                        None => 4,
                    },
                    4,
                    16,
                ) as nat,
            }),
    {
        let wanted: usize = match parallelism {
            Some(n) => n,
            None => 4,
        };
        let max: usize = if wanted < 4 {
            4
        } else if wanted > 16 {
            16
        } else {
            wanted
        };
        DbPool { idle: 0, live: 0, opens: 0, batches: 0, initialised: false, max }
    }

    /// Decides how a connection is come by, and books it.
    pub fn acquire(&mut self) -> (r: Acquire)
        requires
            old(self)@.wf(),
        ensures
            final(self)@.wf(),
            ({
                let b = old(self)@;
                if b.idle > 0 {
                    r == Acquire::Take && final(self)@ == (PoolView {
                        idle: (b.idle - 1) as nat,
                        ..b
                    })
                } else if b.live < b.max {
                    r == (Acquire::Open { apply_schema: !b.initialised }) && final(self)@ == (
                    PoolView { live: b.live + 1, opens: counted_on(b.opens), ..b })
                } else {
                    r == Acquire::Wait && final(self)@ == b
                }
            }),
    {
        if self.idle > 0 {
            self.idle = self.idle - 1;
            Acquire::Take
        } else if self.live < self.max {
            self.live = self.live + 1;
            self.opens = count_on(self.opens);
            Acquire::Open { apply_schema: !self.initialised }
        } else {
            Acquire::Wait
        }
    }

    /// Books whether a connection could be opened.
    pub fn opened(&mut self, ok: bool)
        requires
            old(self)@.wf(),
            old(self)@.in_use() > 0,
        ensures
            final(self)@.wf(),
            final(self)@ == if ok {
                PoolView { initialised: true, ..old(self)@ }
            } else {
                PoolView { live: (old(self)@.live - 1) as nat, ..old(self)@ }
            },
    {
        if ok {
            self.initialised = true;
        } else {
            self.live = self.live - 1;
        }
    }

    /// Books a connection outside the pool, for work that lasts long.
    pub fn open_detached(&mut self) -> (r: Acquire)
        ensures
            r == (Acquire::Open { apply_schema: !old(self)@.initialised }),
            final(self)@ == (PoolView { opens: counted_on(old(self)@.opens), ..old(self)@ }),
    {
        self.opens = count_on(self.opens);
        Acquire::Open { apply_schema: !self.initialised }
    }

    /// Books that a connection outside the pool could be opened.
    pub fn detached_opened(&mut self)
        ensures
            final(self)@ == (PoolView { initialised: true, ..old(self)@ }),
    {
        self.initialised = true;
    }

    /// Books a connection that comes back: it waits.
    pub fn returned(&mut self)
        requires
            old(self)@.wf(),
            old(self)@.in_use() > 0,
        ensures
            final(self)@.wf(),
            final(self)@ == (PoolView { idle: old(self)@.idle + 1, ..old(self)@ }),
    {
        self.idle = self.idle + 1;
    }

    /// Books a connection that came back and could not be kept.
    pub fn dropped(&mut self)
        requires
            old(self)@.wf(),
            old(self)@.in_use() > 0,
        ensures
            final(self)@.wf(),
            final(self)@ == (PoolView { live: (old(self)@.live - 1) as nat, ..old(self)@ }),
    {
        self.live = self.live - 1;
    }

    /// Books a batch.
    pub fn note_batch(&mut self)
        ensures
            final(self)@ == (PoolView { batches: counted_on(old(self)@.batches), ..old(self)@ }),
    {
        self.batches = count_on(self.batches);
    }

    /// Connections that were ever opened.
    pub fn open_count(&self) -> (r: u64)
        ensures
            r == self@.opens,
    {
        self.opens
    }

    /// Batches that were run.
    pub fn batch_count(&self) -> (r: u64)
        ensures
            r == self@.batches,
    {
        self.batches
    }
}

/// Someone is made to wait only when every connection is in use.
pub proof fn waiting_means_all_are_in_use(p: PoolView)
    requires
        p.wf(),
        p.idle == 0,
        p.live >= p.max,
    ensures
        p.in_use() == p.max,
{
}

/// A count goes up by one, and no more connections exist than are allowed.
pub proof fn counts_go_up_by_one(n: nat, p: PoolView)
    ensures
        n < u64::MAX ==> counted_on(n) == n + 1,
        p.wf() ==> p.idle <= p.live && p.live <= p.max && p.in_use() + p.idle == p.live,
{
}

} // verus!
