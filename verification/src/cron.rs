//! Periodic jobs: each job is due once its interval has passed since it
//! last ran. The jobs' actions are run by the caller.
use vstd::prelude::*;
use std::time::{Duration, Instant};
use crate::clock::{duration_secs, elapsed_below, now, secs};

verus! {

/// A periodic job.
pub struct CronJob {
    pub name: &'static str,
    pub interval: Duration,
    pub last_run: Instant,
}

/// The periodic jobs, in the order they were added.
pub struct CronScheduler {
    pub jobs: Vec<CronJob>,
}

impl CronScheduler {
    /// No jobs.
    pub fn new() -> (r: Self)
        ensures
            r.jobs@.len() == 0,
    {
        CronScheduler { jobs: Vec::new() }
    }

    /// Adds a job that is due every `interval_secs` seconds, counting from now.
    pub fn add(&mut self, name: &'static str, interval_secs: u64)
        ensures
            final(self).jobs@.len() == old(self).jobs@.len() + 1,
            final(self).jobs@.take(old(self).jobs@.len() as int) == old(self).jobs@,
            final(self).jobs@.last().name == name,
            final(self).jobs@.last().interval == duration_secs(interval_secs),
    {
        let job = CronJob { name, interval: secs(interval_secs), last_run: now() };
        self.jobs.push(job);
        assert(self.jobs@.take(old(self).jobs@.len() as int) =~= old(self).jobs@);
    }

    /// Takes out the jobs that are due, in order, marking them as run now.
    /// Which jobs are due depends on the clock; the result names distinct
    /// jobs in increasing order, the jobs keep their names and intervals,
    /// and a job that is not due is left exactly as it was.
    pub fn tick(&mut self) -> (due: Vec<usize>)
        ensures
            final(self).jobs@.len() == old(self).jobs@.len(),
            forall|k: int| 0 <= k < final(self).jobs@.len() ==> final(self).jobs@[k].name == old(self).jobs@[k].name
                && final(self).jobs@[k].interval == old(self).jobs@[k].interval,
            forall|a: int| 0 <= a < due@.len() ==> due@[a] < old(self).jobs@.len(),
            forall|a: int, b: int| 0 <= a < b < due@.len() ==> due@[a] < due@[b],
            forall|k: int|
                0 <= k < old(self).jobs@.len() && !due@.contains(k as usize) ==> final(self).jobs@[k]
                    == old(self).jobs@[k],
    {
        let mut due: Vec<usize> = Vec::new();
        let mut i: usize = 0;
        while i < self.jobs.len()
            invariant
                i <= self.jobs@.len(),
                self.jobs@.len() == old(self).jobs@.len(),
                forall|k: int| 0 <= k < self.jobs@.len() ==> self.jobs@[k].name == old(self).jobs@[k].name
                    && self.jobs@[k].interval == old(self).jobs@[k].interval,
                forall|a: int| 0 <= a < due@.len() ==> due@[a] < i,
                forall|a: int, b: int| 0 <= a < b < due@.len() ==> due@[a] < due@[b],
                forall|k: int| i <= k < self.jobs@.len() ==> self.jobs@[k] == old(self).jobs@[k],
                forall|k: int|
                    0 <= k < i && !due@.contains(k as usize) ==> self.jobs@[k] == old(self).jobs@[k],
            decreases self.jobs@.len() - i,
        {
            if !elapsed_below(&self.jobs[i].last_run, &self.jobs[i].interval) {
                let t = now();
                let mut job = self.jobs.remove(i);
                job.last_run = t;
                self.jobs.insert(i, job);
                let ghost dbefore = due@;
                proof {
                    assert forall|k: int| 0 <= k < self.jobs@.len() implies self.jobs@[k].name == old(self).jobs@[k].name
                        && self.jobs@[k].interval == old(self).jobs@[k].interval by {
                        if k != i {
                            assert(self.jobs@[k] == self.jobs@[k]);
                        }
                    }
                }
                due.push(i);
                proof {
                    assert(due@ == dbefore.push(i));
                    assert forall|k: int| 0 <= k < i + 1 && !due@.contains(k as usize) implies self.jobs@[k]
                        == old(self).jobs@[k] by {
                        if k < i {
                            assert(!dbefore.contains(k as usize)) by {
                                if dbefore.contains(k as usize) {
                                    let a = choose|a: int| 0 <= a < dbefore.len() && dbefore[a] == k as usize;
                                    assert(due@[a] == k as usize);
                                }
                            }
                        } else {
                            assert(due@[dbefore.len() as int] == i);
                        }
                    }
                }
            }
            i = i + 1;
        }
        due
    }
}

} // verus!
