//! Background jobs, for work that does not fit in a request.

use vstd::prelude::*;

use crate::graphql::ids::new_id;
use crate::lists::{filter_contains, filter_is_no_longer, filter_none, filter_step, take_push};
use crate::order::{
    ahead, at_places, compare_text, is_order, order_of, orders_list_every_place, rank_text,
    stable_order, stable_order_exists, text_lt, text_lt_is_total, texts_order, Comparison, Rank,
};
use crate::text::{concat, same};

verus! {

broadcast use crate::lists::group_lists;

/// How a job stands.
#[derive(Clone, Copy, Debug, PartialEq, Eq, Structural)]
pub enum JobState {
    Running,
    Succeeded,
    Failed,
}

/// A job.
#[derive(Debug)]
pub struct Job {
    pub id: String,
    pub kind: String,
    pub state: JobState,
    /// How it goes, or how it ended.
    pub message: String,
}

/// A job as contracts see it.
pub struct JobView {
    pub id: Seq<char>,
    pub kind: Seq<char>,
    pub state: JobState,
    pub message: Seq<char>,
}

impl View for Job {
    type V = JobView;

    open spec fn view(&self) -> JobView {
        JobView {
            id: self.id@,
            kind: self.kind@,
            state: self.state,
            message: self.message@,
        }
    }
}

impl Clone for Job {
    fn clone(&self) -> (r: Self)
        ensures
            r@ == self@,
    {
        Job {
            id: self.id.clone(),
            kind: self.kind.clone(),
            state: self.state,
            message: self.message.clone(),
        }
    }
}

/// Jobs as contracts see them.
pub open spec fn jobs_view(jobs: Seq<Job>) -> Seq<JobView> {
    jobs.map_values(|j: Job| j@)
}

/// The jobs that this process started, in the order they were started.
#[derive(Debug)]
pub struct JobRegistry {
    jobs: Vec<Job>,
}

/// From this many jobs on, those that have ended are forgotten before another starts.
pub const MAX_HISTORY: usize = 64;

/// Whether a job of a kind is running.
pub open spec fn runs(j: JobView, kind: Seq<char>) -> bool {
    j.kind == kind && j.state == JobState::Running
}

/// The place of the first running job of a kind.
pub open spec fn running_place(jobs: Seq<JobView>, kind: Seq<char>) -> Option<int>
    decreases jobs.len(),
{
    if jobs.len() == 0 {
        None
    } else {
        match running_place(jobs.drop_last(), kind) {
            Some(i) => Some(i),
            None => if runs(jobs.last(), kind) {
                Some(jobs.len() - 1)
            } else {
                None
            },
        }
    }
}

/// A job that has just started.
pub open spec fn started_job(kind: Seq<char>, id: Seq<char>) -> JobView {
    JobView { id, kind, state: JobState::Running, message: kind + " started"@ }
}

/// What is kept of the jobs when another starts.
pub open spec fn remembered(jobs: Seq<JobView>) -> Seq<JobView> {
    if jobs.len() >= MAX_HISTORY {
        jobs.filter(|j: JobView| j.state == JobState::Running)
    } else {
        jobs
    }
}

/// The jobs without the one with an identifier.
pub open spec fn without_id(jobs: Seq<JobView>, id: Seq<char>) -> Seq<JobView> {
    jobs.filter(|j: JobView| j.id != id)
}

/// The jobs after one more has started.
pub open spec fn with_started(jobs: Seq<JobView>, kind: Seq<char>, id: Seq<char>) -> Seq<JobView> {
    without_id(remembered(jobs), id).push(started_job(kind, id))
}

/// The jobs after one has ended.
pub open spec fn with_finished(
    jobs: Seq<JobView>,
    id: Seq<char>,
    state: JobState,
    message: Seq<char>,
) -> Seq<JobView> {
    jobs.map_values(
        |j: JobView|
            if j.id == id {
                JobView { id: j.id, kind: j.kind, state, message }
            } else {
                j
            },
    )
}

/// Whether no two jobs have the same identifier.
pub open spec fn told_apart(jobs: Seq<JobView>) -> bool {
    forall|i: int, j: int|
        0 <= i < j < jobs.len() ==> (#[trigger] jobs[i]).id != (#[trigger] jobs[j]).id
}

/// Whether at most one job of each kind is running.
pub open spec fn one_of_each_kind(jobs: Seq<JobView>) -> bool {
    forall|i: int, j: int|
        0 <= i < j < jobs.len() && (#[trigger] jobs[i]).state == JobState::Running && (
        #[trigger] jobs[j]).state == JobState::Running ==> jobs[i].kind != jobs[j].kind
}

/// How two jobs stand to each other in a listing: by identifier, which grows with time.
pub open spec fn by_id(jobs: Seq<JobView>) -> Comparison {
    |a: int, b: int| rank_text(jobs[a].id, jobs[b].id)
}

/// The jobs in the order of their identifiers.
pub open spec fn listed(jobs: Seq<JobView>) -> Seq<JobView> {
    at_places(jobs, order_of(by_id(jobs), jobs.len() as int))
}

proof fn running_place_finds(jobs: Seq<JobView>, kind: Seq<char>)
    ensures
        match running_place(jobs, kind) {
            Some(i) => 0 <= i < jobs.len() && runs(jobs[i], kind) && forall|k: int|
                0 <= k < i ==> !runs(#[trigger] jobs[k], kind),
            None => forall|k: int| 0 <= k < jobs.len() ==> !runs(#[trigger] jobs[k], kind),
        },
    decreases jobs.len(),
{
    if jobs.len() > 0 {
        let rest = jobs.drop_last();
        running_place_finds(rest, kind);
        assert forall|k: int| 0 <= k < rest.len() implies rest[k] == #[trigger] jobs[k] by {}
    }
}

proof fn running_place_is(jobs: Seq<JobView>, kind: Seq<char>, i: int)
    requires
        0 <= i < jobs.len(),
        runs(jobs[i], kind),
        forall|k: int| 0 <= k < i ==> !runs(#[trigger] jobs[k], kind),
    ensures
        running_place(jobs, kind) == Some(i),
{
    running_place_finds(jobs, kind);
}

impl JobRegistry {
    /// The jobs, in the order they were started.
    pub closed spec fn jobs(&self) -> Seq<JobView> {
        jobs_view(self.jobs@)
    }

    /// A registry without jobs.
    pub fn new() -> (r: Self)
        ensures
            r.jobs() == Seq::<JobView>::empty(),
    {
        let r = JobRegistry { jobs: Vec::new() };
        assert(r.jobs() =~= Seq::<JobView>::empty());
        r
    }

    fn forget_ended(&mut self)
        ensures
            final(self).jobs() == remembered(old(self).jobs()),
    {
        if self.jobs.len() >= MAX_HISTORY {
            let ghost all = self.jobs();
            let ghost keep = |j: JobView| j.state == JobState::Running;
            let mut out: Vec<Job> = Vec::new();
            let mut i: usize = 0;
            proof {
                filter_none(all, keep);
            }
            while i < self.jobs.len()
                invariant
                    i <= self.jobs@.len(),
                    all == jobs_view(self.jobs@),
                    keep == (|j: JobView| j.state == JobState::Running),
                    jobs_view(out@) == all.take(i as int).filter(keep),
                decreases self.jobs@.len() - i,
            {
                proof {
                    filter_step(all, i as int, keep);
                }
                if self.jobs[i].state == JobState::Running {
                    out.push(self.jobs[i].clone());
                }
                i = i + 1;
            }
            assert(all.take(i as int) =~= all);
            self.jobs = out;
        }
    }

    fn forget(&mut self, id: &str)
        ensures
            final(self).jobs() == without_id(old(self).jobs(), id@),
    {
        let ghost all = self.jobs();
        let ghost keep = |j: JobView| j.id != id@;
        let mut out: Vec<Job> = Vec::new();
        let mut i: usize = 0;
        proof {
            filter_none(all, keep);
        }
        while i < self.jobs.len()
            invariant
                i <= self.jobs@.len(),
                all == jobs_view(self.jobs@),
                keep == (|j: JobView| j.id != id@),
                jobs_view(out@) == all.take(i as int).filter(keep),
            decreases self.jobs@.len() - i,
        {
            proof {
                filter_step(all, i as int, keep);
            }
            if !same(self.jobs[i].id.as_str(), id) {
                out.push(self.jobs[i].clone());
            }
            i = i + 1;
        }
        assert(all.take(i as int) =~= all);
        self.jobs = out;
    }

    /// Starts a job under an identifier, or gives the running one of the same kind.
    pub fn start_as(&mut self, kind: &str, id: String) -> (r: Result<Job, Job>)
        ensures
            match r {
                Ok(job) => running_place(old(self).jobs(), kind@) is None && job@ == started_job(
                    kind@,
                    id@,
                ) && final(self).jobs() == with_started(old(self).jobs(), kind@, id@),
                Err(job) => match running_place(old(self).jobs(), kind@) {
                    Some(i) => job@ == old(self).jobs()[i] && final(self).jobs() == old(
                        self,
                    ).jobs(),
                    None => false,
                },
            },
    {
        let ghost all = self.jobs();
        let mut i: usize = 0;
        while i < self.jobs.len()
            invariant
                i <= self.jobs@.len(),
                all == jobs_view(self.jobs@),
                all == self.jobs(),
                forall|k: int| 0 <= k < i ==> !runs(#[trigger] all[k], kind@),
            decreases self.jobs@.len() - i,
        {
            assert(all[i as int] == self.jobs@[i as int]@);
            if same(self.jobs[i].kind.as_str(), kind) && self.jobs[i].state == JobState::Running {
                proof {
                    running_place_is(all, kind@, i as int);
                }
                return Err(self.jobs[i].clone());
            }
            i = i + 1;
        }
        proof {
            running_place_finds(all, kind@);
        }
        self.forget_ended();
        self.forget(id.as_str());
        let job = Job {
            id,
            kind: kind.to_owned(),
            state: JobState::Running,
            message: concat(kind, " started"),
        };
        self.jobs.push(job.clone());
        Ok(job)
    }

    /// Starts a job, or gives the running one of the same kind: two of one kind at a
    /// time would fight over the same rows.
    pub fn start(&mut self, kind: &str) -> (r: Result<Job, Job>)
        ensures
            match r {
                Ok(job) => running_place(old(self).jobs(), kind@) is None && job@ == started_job(
                    kind@,
                    job@.id,
                ) && final(self).jobs() == with_started(old(self).jobs(), kind@, job@.id),
                Err(job) => match running_place(old(self).jobs(), kind@) {
                    Some(i) => job@ == old(self).jobs()[i] && final(self).jobs() == old(
                        self,
                    ).jobs(),
                    None => false,
                },
            },
    {
        self.start_as(kind, new_id())
    }

    /// Ends a job; one that is not known is none of our business.
    pub fn finish(&mut self, id: &str, state: JobState, message: &str)
        ensures
            final(self).jobs() == with_finished(old(self).jobs(), id@, state, message@),
    {
        let ghost all = self.jobs();
        let ghost want = with_finished(all, id@, state, message@);
        let mut out: Vec<Job> = Vec::new();
        let mut i: usize = 0;
        while i < self.jobs.len()
            invariant
                i <= self.jobs@.len(),
                all == jobs_view(self.jobs@),
                want == with_finished(all, id@, state, message@),
                jobs_view(out@) == want.take(i as int),
            decreases self.jobs@.len() - i,
        {
            let job = &self.jobs[i];
            assert(all[i as int] == job@);
            if same(job.id.as_str(), id) {
                out.push(
                    Job {
                        id: job.id.clone(),
                        kind: job.kind.clone(),
                        state,
                        message: message.to_owned(),
                    },
                );
            } else {
                out.push(job.clone());
            }
            proof {
                take_push(want, i as int);
            }
            i = i + 1;
        }
        assert(want.take(i as int) =~= want);
        self.jobs = out;
    }

    /// The job with an identifier.
    pub fn get(&self, id: &str) -> (r: Option<Job>)
        ensures
            match r {
                Some(job) => job@.id == id@ && self.jobs().contains(job@),
                None => forall|i: int|
                    0 <= i < self.jobs().len() ==> (#[trigger] self.jobs()[i]).id != id@,
            },
    {
        let ghost all = self.jobs();
        let mut i: usize = 0;
        while i < self.jobs.len()
            invariant
                i <= self.jobs@.len(),
                all == jobs_view(self.jobs@),
                all == self.jobs(),
                forall|k: int| 0 <= k < i ==> (#[trigger] all[k]).id != id@,
            decreases self.jobs@.len() - i,
        {
            assert(all[i as int] == self.jobs@[i as int]@);
            if same(self.jobs[i].id.as_str(), id) {
                return Some(self.jobs[i].clone());
            }
            i = i + 1;
        }
        None
    }

    /// All jobs in the order of their identifiers, which is that of their start.
    pub fn list(&self) -> (r: Vec<Job>)
        ensures
            jobs_view(r@) == listed(self.jobs()),
    {
        let n: usize = self.jobs.len();
        let jobs = &self.jobs;
        let ghost all = self.jobs();
        let ghost rank = by_id(all);
        proof {
            texts_order(|i: int| all[i].id, rank, n as int);
        }
        let compare = |a: usize, b: usize| -> (r: Rank)
            requires
                jobs@.len() > a && jobs@.len() > b,
            ensures
                r == rank_text(jobs_view(jobs@)[a as int].id, jobs_view(jobs@)[b as int].id),
            { compare_text(jobs[a].id.as_str(), jobs[b].id.as_str()) };
        let places = stable_order(n, compare, Ghost(rank));
        let ghost want = at_places(all, places@);
        let mut out: Vec<Job> = Vec::new();
        let mut i: usize = 0;
        while i < n
            invariant
                i <= n,
                n == jobs@.len(),
                places@.len() == n,
                is_order(places@, rank, 0, n as int),
                all == jobs_view(jobs@),
                want == at_places(all, places@),
                jobs_view(out@) == want.take(i as int),
            decreases n - i,
        {
            assert(places@[i as int] < n);
            out.push(jobs[places[i]].clone());
            proof {
                take_push(want, i as int);
            }
            i = i + 1;
        }
        assert(want.take(i as int) =~= want);
        out
    }
}

// ---------------------------------------------------------------------------
// Laws
// ---------------------------------------------------------------------------

proof fn filtered_at(s: Seq<JobView>, keep: spec_fn(JobView) -> bool, i: int, j: int) -> (r: (
    int,
    int,
))
    requires
        0 <= i < j < s.filter(keep).len(),
    ensures
        0 <= r.0 < r.1 < s.len(),
        s[r.0] == s.filter(keep)[i],
        s[r.1] == s.filter(keep)[j],
        keep(s[r.0]),
        keep(s[r.1]),
    decreases s.len(),
{
    reveal(Seq::filter);
    let rest = s.drop_last();
    let before = rest.filter(keep);
    if j < before.len() {
        filtered_at(rest, keep, i, j)
    } else {
        crate::lists::filter_contains(rest, keep, before[i]);
        assert(before.contains(before[i]));
        let k = choose|k: int| 0 <= k < rest.len() && rest[k] == before[i];
        (k, s.len() - 1)
    }
}

/// At no time do two jobs of one kind run: starting one keeps this, and so does ending
/// one.
pub proof fn one_job_of_a_kind_runs(
    jobs: Seq<JobView>,
    kind: Seq<char>,
    id: Seq<char>,
    state: JobState,
    message: Seq<char>,
)
    requires
        one_of_each_kind(jobs),
    ensures
        running_place(jobs, kind) is None ==> one_of_each_kind(with_started(jobs, kind, id)),
        state != JobState::Running ==> one_of_each_kind(with_finished(jobs, id, state, message)),
{
    running_place_finds(jobs, kind);
    let kept = remembered(jobs);
    let others = without_id(kept, id);
    if running_place(jobs, kind) is None {
        let next = with_started(jobs, kind, id);
        assert forall|i: int, j: int|
            0 <= i < j < next.len() && (#[trigger] next[i]).state == JobState::Running && (
            #[trigger] next[j]).state == JobState::Running implies next[i].kind
            != next[j].kind by {
            origin(jobs, id, i);
            if j < others.len() {
                let (a, b) = filtered_at(kept, |v: JobView| v.id != id, i, j);
                if jobs.len() >= MAX_HISTORY {
                    let (c, d) = filtered_at(
                        jobs,
                        |v: JobView| v.state == JobState::Running,
                        a,
                        b,
                    );
                    assert(jobs[c].kind != jobs[d].kind);
                } else {
                    assert(jobs[a].kind != jobs[b].kind);
                }
            } else {
                assert(jobs.contains(others[i]));
                let k = choose|k: int| 0 <= k < jobs.len() && jobs[k] == others[i];
                assert(!runs(jobs[k], kind));
            }
        }
    }
    if state != JobState::Running {
        let next = with_finished(jobs, id, state, message);
        assert forall|i: int, j: int|
            0 <= i < j < next.len() && (#[trigger] next[i]).state == JobState::Running && (
            #[trigger] next[j]).state == JobState::Running implies next[i].kind
            != next[j].kind by {
            assert(next[i] == jobs[i]);
            assert(next[j] == jobs[j]);
        }
    }
}

proof fn origin(jobs: Seq<JobView>, id: Seq<char>, i: int)
    ensures
        0 <= i < without_id(remembered(jobs), id).len() ==> jobs.contains(
            without_id(remembered(jobs), id)[i],
        ) && without_id(remembered(jobs), id)[i].id != id,
{
    let kept = remembered(jobs);
    let others = without_id(kept, id);
    if 0 <= i < others.len() {
        crate::lists::filter_contains(kept, |v: JobView| v.id != id, others[i]);
        assert(others.contains(others[i]));
        crate::lists::filter_contains(
            jobs,
            |v: JobView| v.state == JobState::Running,
            others[i],
        );
    }
}

/// Identifiers tell jobs apart at all times.
pub proof fn identifiers_tell_jobs_apart(
    jobs: Seq<JobView>,
    kind: Seq<char>,
    id: Seq<char>,
    state: JobState,
    message: Seq<char>,
)
    requires
        told_apart(jobs),
    ensures
        told_apart(with_started(jobs, kind, id)),
        told_apart(with_finished(jobs, id, state, message)),
{
    let kept = remembered(jobs);
    let others = without_id(kept, id);
    let next = with_started(jobs, kind, id);
    assert forall|i: int, j: int| 0 <= i < j < next.len() implies (#[trigger] next[i]).id != (
    #[trigger] next[j]).id by {
        origin(jobs, id, i);
        if j < others.len() {
            let (a, b) = filtered_at(kept, |v: JobView| v.id != id, i, j);
            if jobs.len() >= MAX_HISTORY {
                let (c, d) = filtered_at(jobs, |v: JobView| v.state == JobState::Running, a, b);
                assert(jobs[c].id != jobs[d].id);
            } else {
                assert(jobs[a].id != jobs[b].id);
            }
        }
    }
    let ended = with_finished(jobs, id, state, message);
    assert forall|i: int, j: int| 0 <= i < j < ended.len() implies (#[trigger] ended[i]).id != (
    #[trigger] ended[j]).id by {
        assert(ended[i].id == jobs[i].id);
        assert(ended[j].id == jobs[j].id);
    }
}

/// History does not grow without end: after a start there are no more jobs than the
/// bound, or than those that were running and the new one.
pub proof fn history_is_bounded(jobs: Seq<JobView>, kind: Seq<char>, id: Seq<char>)
    ensures
        with_started(jobs, kind, id).len() <= MAX_HISTORY || with_started(jobs, kind, id).len()
            <= jobs.filter(|j: JobView| j.state == JobState::Running).len() + 1,
{
    filter_is_no_longer(remembered(jobs), |j: JobView| j.id != id);
}

/// A job that has ended is found ended, and a new one of its kind may start.
pub proof fn ended_jobs_make_room(
    jobs: Seq<JobView>,
    kind: Seq<char>,
    id: Seq<char>,
    state: JobState,
    message: Seq<char>,
)
    requires
        one_of_each_kind(jobs),
        running_place(jobs, kind) is Some,
        jobs[running_place(jobs, kind)->0].id == id,
        state != JobState::Running,
    ensures
        running_place(with_finished(jobs, id, state, message), kind) is None,
{
    running_place_finds(jobs, kind);
    let next = with_finished(jobs, id, state, message);
    running_place_finds(next, kind);
    let k = running_place(jobs, kind)->0;
    if running_place(next, kind) is Some {
        let m = running_place(next, kind)->0;
        assert(next[m] == jobs[m]);
        if m < k {
            assert(!runs(jobs[m], kind));
        } else if m > k {
            assert(jobs[k].kind != jobs[m].kind);
        }
    }
}

/// A job that ends has the state and the message it ended with; every other stays as it is.
pub proof fn finished_jobs_tell_their_end(
    jobs: Seq<JobView>,
    id: Seq<char>,
    state: JobState,
    message: Seq<char>,
    i: int,
)
    requires
        0 <= i < jobs.len(),
    ensures
        ({
            let after = with_finished(jobs, id, state, message);
            &&& after.len() == jobs.len()
            &&& after[i].id == jobs[i].id
            &&& after[i].kind == jobs[i].kind
            &&& jobs[i].id == id ==> after[i].state == state && after[i].message == message
            &&& jobs[i].id != id ==> after[i] == jobs[i]
        }),
{
}

/// A job that starts is there, running, under its id and its kind; every job that runs stays,
/// and up to a number all others do as well.
pub proof fn started_jobs_are_there(jobs: Seq<JobView>, kind: Seq<char>, id: Seq<char>, x: JobView)
    ensures
        ({
            let after = with_started(jobs, kind, id);
            let new = after.last();
            &&& after.len() > 0
            &&& new.id == id
            &&& new.kind == kind
            &&& new.state is Running
            &&& new.message == kind + " started"@
            &&& jobs.contains(x) && x.id != id && (x.state is Running || jobs.len() < 64)
                ==> after.contains(x)
            &&& after.contains(x) && x.id != id ==> jobs.contains(x)
            &&& after.contains(x) && x.id != id && jobs.len() >= 64 ==> x.state is Running
        }),
{
    let after = with_started(jobs, kind, id);
    let kept = remembered(jobs);
    let rest = without_id(kept, id);
    filter_contains(jobs, |j: JobView| j.state == JobState::Running, x);
    filter_contains(kept, |j: JobView| j.id != id, x);
    assert(after == rest.push(started_job(kind, id)));
    if rest.contains(x) {
        let i = choose|i: int| 0 <= i < rest.len() && rest[i] == x;
        assert(after[i] == x);
    }
    if after.contains(x) && x.id != id {
        let i = choose|i: int| 0 <= i < after.len() && after[i] == x;
        assert(i < rest.len());
        assert(rest[i] == x);
    }
}

/// The list of jobs holds every job, by rising id.
pub proof fn listed_jobs_are_in_order(jobs: Seq<JobView>, i: int, j: int)
    requires
        jobs.len() <= usize::MAX,
        0 <= i < j < listed(jobs).len(),
    ensures
        listed(jobs).len() == jobs.len(),
        !text_lt(listed(jobs)[j].id, listed(jobs)[i].id),
        forall|x: JobView| #[trigger] listed(jobs).contains(x) <==> jobs.contains(x),
{
    let n = jobs.len() as int;
    let rank = by_id(jobs);
    texts_order(|k: int| jobs[k].id, rank, n);
    stable_order_exists(rank, n);
    let p = order_of(rank, n);
    assert(ahead(rank, p[i] as int, p[j] as int));
    text_lt_is_total(listed(jobs)[i].id, listed(jobs)[j].id);
    assert forall|x: JobView| #[trigger] listed(jobs).contains(x) <==> jobs.contains(x) by {
        if listed(jobs).contains(x) {
            let k = choose|k: int| 0 <= k < listed(jobs).len() && listed(jobs)[k] == x;
            assert(jobs[p[k] as int] == x);
        }
        if jobs.contains(x) {
            let k = choose|k: int| 0 <= k < jobs.len() && jobs[k] == x;
            orders_list_every_place(p, rank, n, k);
            let m = choose|m: int| 0 <= m < p.len() && p[m] == k;
            assert(listed(jobs)[m] == x);
        }
    }
}

/// A kind of job is taken exactly while one of it runs, and the one that is told is that one.
pub proof fn running_jobs_are_found(jobs: Seq<JobView>, kind: Seq<char>)
    ensures
        running_place(jobs, kind) is Some <==> exists|i: int|
            0 <= i < jobs.len() && (#[trigger] jobs[i]).kind == kind && jobs[i].state is Running,
        running_place(jobs, kind) is Some ==> {
            let job = jobs[running_place(jobs, kind)->0];
            job.kind == kind && job.state is Running
        },
{
    running_place_finds(jobs, kind);
    if running_place(jobs, kind) is Some {
        assert(jobs[running_place(jobs, kind)->0].kind == kind);
    }
    if exists|i: int|
        0 <= i < jobs.len() && (#[trigger] jobs[i]).kind == kind && jobs[i].state is Running {
        let i = choose|i: int|
            0 <= i < jobs.len() && (#[trigger] jobs[i]).kind == kind && jobs[i].state is Running;
        assert(runs(jobs[i], kind));
    }
}

} // verus!
