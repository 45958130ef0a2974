//! Readiness probes: HTTP health checks, or connections where there is none.
use crate::config::HealthCheck;
use crate::net::{addr_text, SocketAddr};
use crate::time::{Duration, Instant};
use vstd::prelude::*;
use vstd::string::*;

verus! {

/// What to do next about an address that should answer.
#[derive(Clone, Copy, Debug, PartialEq, Eq, Structural)]
pub enum ProbeNext {
    /// Probe it.
    Probe,
    /// Wait, then ask again.
    Sleep(Duration),
    /// The wait is over; whether the address answers.
    Over(bool),
}

/// A wait for a health check to succeed. The wait ends when a probe succeeds,
/// and at the deadline: however many probes fail before it, the next one may
/// succeed.
#[derive(Clone, Copy, Debug, PartialEq, Eq, Structural)]
pub struct HealthWait {
    pub interval: Duration,
    pub deadline: Instant,
}

/// The shorter of a span and what is left until a deadline that has not come.
pub open spec fn pause(interval: Duration, now: Instant, deadline: Instant) -> Duration {
    if interval.nanos <= deadline.nanos - now.nanos {
        interval
    } else {
        Duration { nanos: (deadline.nanos - now.nanos) as u128 }
    }
}

fn shorter(interval: Duration, now: Instant, deadline: Instant) -> (res: Duration)
    requires
        now.nanos < deadline.nanos,
    ensures
        res == pause(interval, now, deadline),
{
    let left = deadline.duration_since(now);
    if interval.nanos <= left.nanos {
        interval
    } else {
        left
    }
}

impl HealthWait {
    /// A wait that has not begun. The first thing to do is to probe.
    pub fn new(health: &HealthCheck, deadline: Instant) -> (res: HealthWait)
        ensures
            res == (HealthWait { interval: health.interval, deadline }),
    {
        HealthWait { interval: health.interval, deadline }
    }

    /// Takes the result of a probe.
    pub fn probed(&self, success: bool, now: Instant) -> (res: ProbeNext)
        ensures
            res == if success {
                ProbeNext::Over(true)
            } else if now.nanos >= self.deadline.nanos {
                ProbeNext::Over(false)
            } else {
                ProbeNext::Sleep(pause(self.interval, now, self.deadline))
            },
    {
        if success {
            ProbeNext::Over(true)
        } else if now.nanos >= self.deadline.nanos {
            ProbeNext::Over(false)
        } else {
            ProbeNext::Sleep(shorter(self.interval, now, self.deadline))
        }
    }

    /// Takes the time after a pause.
    pub fn slept(&self, now: Instant) -> (res: ProbeNext)
        ensures
            res == if now.nanos >= self.deadline.nanos {
                ProbeNext::Over(false)
            } else {
                ProbeNext::Probe
            },
    {
        if now.nanos >= self.deadline.nanos {
            ProbeNext::Over(false)
        } else {
            ProbeNext::Probe
        }
    }
}

/// Takes the result of an attempt to connect: the wait ends when one succeeds,
/// and at the deadline.
pub fn connect_tried(connected: bool, now: Instant, deadline: Instant, interval: Duration) -> (res: ProbeNext)
    ensures
        res == if connected {
            ProbeNext::Over(true)
        } else if now.nanos >= deadline.nanos {
            ProbeNext::Over(false)
        } else {
            ProbeNext::Sleep(pause(interval, now, deadline))
        },
{
    if connected {
        ProbeNext::Over(true)
    } else if now.nanos >= deadline.nanos {
        ProbeNext::Over(false)
    } else {
        ProbeNext::Sleep(shorter(interval, now, deadline))
    }
}

/// Where a health check is asked.
pub fn probe_url(address: SocketAddr, path: &String) -> (res: String)
    ensures
        res@ == "http://"@ + addr_text(address) + path@,
{
    let mut url = "http://".to_owned();
    url.append(address.to_text().as_str());
    url.append(path.as_str());
    url
}

/// Whether an HTTP status tells of success: any of the two hundreds.
pub fn is_success(status: u16) -> (res: bool)
    ensures
        res == (200 <= status <= 299),
{
    200 <= status && status <= 299
}

/// Between two probes the interval passes, or what is left until the deadline where
/// that is less.
pub proof fn pauses_end_by_the_deadline(interval: Duration, now: Instant, deadline: Instant)
    requires
        now.nanos < deadline.nanos,
    ensures
        now.nanos + pause(interval, now, deadline).nanos <= deadline.nanos,
        pause(interval, now, deadline).nanos <= interval.nanos,
        pause(interval, now, deadline).nanos == interval.nanos || now.nanos + pause(
            interval,
            now,
            deadline,
        ).nanos == deadline.nanos,
{
}

} // verus!
