//! Timing of the proxy's start, the application's start and each invocation,
//! kept as microsecond readings of a monotonic clock.
use vstd::prelude::*;

verus! {

/// Microseconds from `from` to `to`; zero if `to` is not later.
pub open spec fn elapsed(from: u64, to: u64) -> u64 {
    if to >= from {
        (to - from) as u64
    } else {
        0
    }
}

fn elapsed_us(from: u64, to: u64) -> (r: u64)
    ensures
        r == elapsed(from, to),
{
    if to >= from {
        to - from
    } else {
        0
    }
}

/// What to report when the application asks for its next unit of work.
#[derive(PartialEq, Eq, Structural, Clone, Copy, Debug)]
pub enum Timing {
    /// The first request: how long the proxy took to start, and how long the
    /// application took since, each where its readings are there.
    Startup { lrap_init_us: Option<u64>, app_init_us: Option<u64> },
    /// A later request: how long the application took over the last unit of
    /// work.
    AppRun { app_run_us: u64 },
}

pub struct Stats {
    init_start: Option<u64>,
    app_start: Option<u64>,
    event_start: Option<u64>,
}

impl Stats {
    pub closed spec fn init_at(&self) -> Option<u64> {
        self.init_start
    }

    pub closed spec fn app_at(&self) -> Option<u64> {
        self.app_start
    }

    pub closed spec fn event_at(&self) -> Option<u64> {
        self.event_start
    }

    pub fn new() -> (r: Self)
        ensures
            r.init_at() is None,
            r.app_at() is None,
            r.event_at() is None,
    {
        Stats { init_start: None, app_start: None, event_start: None }
    }

    /// Records when the proxy started; the first reading is kept.
    pub fn init_start(&mut self, now_us: u64)
        ensures
            final(self).init_at() == (match old(self).init_at() {
                Some(t) => Some(t),
                None => Some(now_us),
            }),
            final(self).app_at() == old(self).app_at(),
            final(self).event_at() == old(self).event_at(),
    {
        if self.init_start.is_none() {
            self.init_start = Some(now_us);
        }
    }

    /// Records when the application was let start; the first reading is kept.
    pub fn app_start(&mut self, now_us: u64)
        ensures
            final(self).app_at() == (match old(self).app_at() {
                Some(t) => Some(t),
                None => Some(now_us),
            }),
            final(self).init_at() == old(self).init_at(),
            final(self).event_at() == old(self).event_at(),
    {
        if self.app_start.is_none() {
            self.app_start = Some(now_us);
        }
    }

    /// Records when the latest unit of work was handed out.
    pub fn event_start(&mut self, now_us: u64)
        ensures
            final(self).event_at() == Some(now_us),
            final(self).init_at() == old(self).init_at(),
            final(self).app_at() == old(self).app_at(),
    {
        self.event_start = Some(now_us);
    }

    /// What to report at `now_us`, when the application asks for next work:
    /// the start-up times before any work was handed out, the time the
    /// application spent on the last unit of work after that.
    pub fn get_next_event(&self, now_us: u64) -> (r: Timing)
        ensures
            r == (match self.event_at() {
                Some(e) => Timing::AppRun { app_run_us: elapsed(e, now_us) },
                None => Timing::Startup {
                    lrap_init_us: match (self.init_at(), self.app_at()) {
                        (Some(i), Some(a)) => Some(elapsed(i, a)),
                        _ => None,
                    },
                    app_init_us: match self.app_at() {
                        Some(a) => Some(elapsed(a, now_us)),
                        None => None,
                    },
                },
            }),
    {
        match self.event_start {
            Some(e) => Timing::AppRun { app_run_us: elapsed_us(e, now_us) },
            None => {
                let lrap_init_us = match (self.init_start, self.app_start) {
                    (Some(i), Some(a)) => Some(elapsed_us(i, a)),
                    _ => None,
                };
                let app_init_us = match self.app_start {
                    Some(a) => Some(elapsed_us(a, now_us)),
                    None => None,
                };
                Timing::Startup { lrap_init_us, app_init_us }
            },
        }
    }
}

} // verus!
