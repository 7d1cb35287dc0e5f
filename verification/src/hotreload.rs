//! Hot reload of the configuration file: a watcher that looks at the
//! file's modification time at most every two seconds and reports when it
//! changed.
use vstd::prelude::*;
use std::path::PathBuf;
use std::time::{Duration, Instant};
use crate::clock::{duration_secs, elapsed_below, now, secs};

verus! {

/// A modification time, as seconds and nanoseconds since the Unix epoch.
pub type ModTime = (u64, u32);

/// Watches one configuration file.
pub struct ConfigWatcher {
    path: PathBuf,
    last_modified: Option<ModTime>,
    last_check: Instant,
    interval: Duration,
}

impl ConfigWatcher {
    /// The modification time seen at the last look, if any.
    pub closed spec fn seen(self) -> Option<ModTime> {
        self.last_modified
    }

    /// The watched file.
    pub closed spec fn watched(self) -> PathBuf {
        self.path
    }

    /// The moment of the last look at the file.
    pub closed spec fn last_look(self) -> Instant {
        self.last_check
    }

    /// The least time between two looks.
    pub closed spec fn look_interval(self) -> Duration {
        self.interval
    }

    /// A watcher of `path` that has not seen the file yet; the first look is
    /// due two seconds from now.
    pub fn new(path: PathBuf) -> (r: Self)
        ensures
            r.seen() is None,
            r.watched() == path,
            r.look_interval() == duration_secs(2),
    {
        ConfigWatcher { path, last_modified: None, last_check: now(), interval: secs(2) }
    }

    /// The watched file.
    pub fn path(&self) -> (r: &PathBuf)
        ensures
            *r == self.watched(),
    {
        &self.path
    }

    /// Whether a look at the file is due: the interval has passed since the
    /// last look, which then counts as now. The answer depends on the
    /// clock. When no look is due nothing changes; when one is, only the
    /// moment of the last look does.
    pub fn poll_due(&mut self) -> (due: bool)
        ensures
            final(self).seen() == old(self).seen(),
            final(self).watched() == old(self).watched(),
            final(self).look_interval() == old(self).look_interval(),
            !due ==> final(self).last_look() == old(self).last_look(),
    {
        if elapsed_below(&self.last_check, &self.interval) {
            return false;
        }
        self.last_check = now();
        true
    }

    /// Records the file's modification time (`None` when it cannot be read)
    /// and reports whether it differs from the one seen before.
    pub fn observe(&mut self, modified: Option<ModTime>) -> (changed: bool)
        ensures
            changed == (modified != old(self).seen()),
            final(self).seen() == modified,
            final(self).watched() == old(self).watched(),
    {
        if modified != self.last_modified {
            self.last_modified = modified;
            return true;
        }
        false
    }
}

} // verus!
