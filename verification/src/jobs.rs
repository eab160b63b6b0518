//! Work that is done again and again, and when it is due.
//!
//! Moments are counted in milliseconds on a clock that never runs back.

use vstd::prelude::*;

verus! {

/// A piece of work that is done once in every period, and when it was done
/// last.
#[derive(Clone, Copy, Debug, PartialEq, Eq, Structural)]
pub struct JobInstance {
    /// The milliseconds between two runs.
    pub period: u64,
    /// When the work was done last, if ever.
    pub last_executed: Option<u64>,
}

/// The period of the work that ends the sessions that are over: a minute.
pub const SESSION_CLEANUP_PERIOD: u64 = 60_000;

impl JobInstance {
    /// Work of the given period that was never done.
    pub fn new(period: u64) -> (instance: JobInstance)
        ensures
            instance == (JobInstance { period, last_executed: None }),
    {
        JobInstance { period, last_executed: None }
    }

    /// When the work is due next, seen at `now`: a period after it was
    /// done last, or at once where it was never done.
    pub open spec fn spec_next_execution(self, now: u64) -> int {
        match self.last_executed {
            Some(last) => last + self.period,
            None => now as int,
        }
    }

    /// Whether the work can be dated: the moment a period after it was done
    /// last can be counted in 64 bits.
    pub open spec fn wf(self) -> bool {
        self.last_executed matches Some(last) ==> last + self.period <= u64::MAX
    }

    /// Whether the work can be dated.
    pub fn is_well_formed(&self) -> (wf: bool)
        ensures
            wf == self.wf(),
    {
        match self.last_executed {
            Some(last) => last <= u64::MAX - self.period,
            None => true,
        }
    }

    /// When the work is due next, seen at `now`.
    pub fn next_execution(&self, now: u64) -> (due: u64)
        requires
            self.wf(),
        ensures
            due == self.spec_next_execution(now),
    {
        match self.last_executed {
            Some(last) => last + self.period,
            None => now,
        }
    }

    /// Whether the work is to be done at `now`: it was never done, or the
    /// moment it is due next has passed.
    pub fn is_ready(&self, now: u64) -> (ready: bool)
        requires
            self.wf(),
        ensures
            ready == match self.last_executed {
                Some(_) => self.spec_next_execution(now) < now,
                None => true,
            },
    {
        match self.last_executed {
            Some(_) => self.next_execution(now) < now,
            None => true,
        }
    }

    /// Notes that the work was done at `now`.
    pub fn executed(&mut self, now: u64)
        ensures
            *final(self) == (JobInstance { period: old(self).period, last_executed: Some(now) }),
    {
        self.last_executed = Some(now);
    }
}

/// The work that ends the sessions that are over.
pub fn job() -> (instance: JobInstance)
    ensures
        instance == (JobInstance { period: SESSION_CLEANUP_PERIOD, last_executed: None }),
{
    JobInstance::new(SESSION_CLEANUP_PERIOD)
}

/// Whether all of `jobs` can be dated.
pub open spec fn all_wf(jobs: Seq<JobInstance>) -> bool {
    forall|i: int| 0 <= i < jobs.len() ==> (#[trigger] jobs[i]).wf()
}

/// Whether `moment` is the earliest moment at which one of `jobs` is due
/// next, seen at `now`.
pub open spec fn is_earliest(jobs: Seq<JobInstance>, now: u64, moment: u64) -> bool {
    &&& exists|i: int| 0 <= i < jobs.len() && (#[trigger] jobs[i]).spec_next_execution(now) == moment
    &&& forall|i: int| 0 <= i < jobs.len() ==> moment <= (#[trigger] jobs[i]).spec_next_execution(now)
}

/// Whether `ready` lists, in order, the places of those of `jobs` that are
/// to be done at `now`.
pub open spec fn lists_ready(jobs: Seq<JobInstance>, now: u64, count: int) -> Seq<usize>
    decreases count,
{
    if count <= 0 || count > jobs.len() {
        Seq::empty()
    } else {
        let job = jobs[count - 1];
        let ready = match job.last_executed {
            Some(_) => job.spec_next_execution(now) < now,
            None => true,
        };
        if ready {
            lists_ready(jobs, now, count - 1).push((count - 1) as usize)
        } else {
            lists_ready(jobs, now, count - 1)
        }
    }
}

/// The places of those of `jobs` that are to be done at `now`, in order.
pub fn ready_jobs(jobs: &Vec<JobInstance>, now: u64) -> (ready: Vec<usize>)
    requires
        all_wf(jobs@),
    ensures
        ready@ == lists_ready(jobs@, now, jobs@.len() as int),
{
    let mut ready: Vec<usize> = Vec::new();
    let mut i: usize = 0;
    while i < jobs.len()
        invariant
            i <= jobs@.len(),
            all_wf(jobs@),
            ready@ == lists_ready(jobs@, now, i as int),
        decreases jobs@.len() - i,
    {
        if jobs[i].is_ready(now) {
            ready.push(i);
        }
        i += 1;
    }
    ready
}

/// The earliest moment at which one of `jobs` is due next, seen at `now`:
/// the moment to sleep until.
pub fn next_wake(jobs: &Vec<JobInstance>, now: u64) -> (moment: u64)
    requires
        jobs@.len() > 0,
        all_wf(jobs@),
    ensures
        is_earliest(jobs@, now, moment),
{
    let mut moment = jobs[0].next_execution(now);
    let mut i: usize = 1;
    while i < jobs.len()
        invariant
            1 <= i <= jobs@.len(),
            all_wf(jobs@),
            exists|k: int| 0 <= k < i && (#[trigger] jobs@[k]).spec_next_execution(now) == moment,
            forall|k: int| 0 <= k < i ==> moment <= (#[trigger] jobs@[k]).spec_next_execution(now),
        decreases jobs@.len() - i,
    {
        let due = jobs[i].next_execution(now);
        if due < moment {
            moment = due;
        }
        i += 1;
    }
    moment
}

} // verus!
