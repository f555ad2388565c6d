//! Decisions for the session with Aurora core: how long to wait before the next
//! attempt, when a namespace has been disconnected for too long, when to send status
//! updates and what they report. The caller keeps the clock and the connections.

use vstd::prelude::*;
use vstd::arithmetic::power2::{lemma2_to64, pow2};

verus! {

/// Longest wait between two connection attempts, in seconds.
pub const MAX_RETRY_DELAY_SECS: u64 = 60;

/// A session that stayed up this long, in seconds, resets the backoff.
pub const BACKOFF_RESET_UPTIME_SECS: u64 = 60;

/// A namespace disconnected for longer than this, in milliseconds, forces a fresh start.
pub const RECONNECT_TIMEOUT_MS: u64 = 45_000;

/// The wait after `failures` earlier failed attempts in a row: 1, 2, 4, 8, 16, 32 seconds,
/// then 60 seconds from the seventh on.
pub open spec fn retry_delay(failures: nat) -> nat
    decreases failures,
{
    if failures == 0 {
        1
    } else if failures >= 6 {
        MAX_RETRY_DELAY_SECS as nat
    } else {
        2 * retry_delay((failures - 1) as nat)
    }
}

/// The wait is never below 1 second nor above `MAX_RETRY_DELAY_SECS`, and never shrinks
/// as failures add up.
pub proof fn lemma_retry_delay_bounds(a: nat, b: nat)
    requires
        a <= b,
    ensures
        1 <= retry_delay(a) <= MAX_RETRY_DELAY_SECS,
        retry_delay(a) <= retry_delay(b),
    decreases b,
{
    reveal_with_fuel(retry_delay, 7);
    if b > 0 && a < b && b < 7 {
        lemma_retry_delay_bounds(a, (b - 1) as nat);
    }
}

/// The wait after `f` failures in a row is 2 to the power `f` seconds for the first six
/// (1, 2, 4, 8, 16, 32), and 60 seconds from then on.
pub proof fn lemma_retry_delay_doubles(f: nat)
    ensures
        f < 6 ==> retry_delay(f) == pow2(f),
        f >= 6 ==> retry_delay(f) == 60,
{
    reveal_with_fuel(retry_delay, 7);
    lemma2_to64();
}

/// A session that stayed up 60 seconds or longer clears the failure count; a shorter
/// one keeps it.
pub proof fn lemma_reset_after_a_minute(failures: nat, uptime_secs: nat)
    ensures
        uptime_secs >= 60 ==> counted_failures(failures, uptime_secs) == 0,
        uptime_secs < 60 ==> counted_failures(failures, uptime_secs) == failures,
{
}

/// The failure count a session starts from: kept, or cleared after a long enough uptime.
pub open spec fn counted_failures(failures: nat, uptime_secs: nat) -> nat {
    if uptime_secs >= BACKOFF_RESET_UPTIME_SECS {
        0
    } else {
        failures
    }
}

/// The backoff between attempts to run a session with Aurora core.
pub struct RetryBackoff {
    failures: u32,
}

impl RetryBackoff {
    /// Failed attempts in a row so far.
    pub closed spec fn failures(self) -> nat {
        self.failures as nat
    }

    /// A backoff with no failures counted.
    pub fn new() -> (b: Self)
        ensures
            b.failures() == 0,
    {
        RetryBackoff { failures: 0 }
    }

    /// Count a session that ended in an error after `uptime_secs` seconds and give the
    /// number of seconds to wait before the next attempt.
    pub fn next_delay_secs(&mut self, uptime_secs: u64) -> (delay: u64)
        ensures
            delay == retry_delay(counted_failures(old(self).failures(), uptime_secs as nat)),
            uptime_secs >= 60 ==> delay == 1 && final(self).failures() == 1,
            uptime_secs < 60 && old(self).failures() < 6 ==> delay == pow2(old(self).failures()),
            uptime_secs < 60 && old(self).failures() >= 6 ==> delay == 60,
            1 <= delay <= 60,
            final(self).failures() == if counted_failures(old(self).failures(), uptime_secs as nat)
                < u32::MAX {
                counted_failures(old(self).failures(), uptime_secs as nat) + 1
            } else {
                counted_failures(old(self).failures(), uptime_secs as nat)
            },
    {
        proof {
            lemma_reset_after_a_minute(self.failures as nat, uptime_secs as nat);
            lemma_retry_delay_doubles(self.failures as nat);
            lemma_retry_delay_doubles(0);
            lemma_retry_delay_bounds(
                counted_failures(self.failures as nat, uptime_secs as nat),
                counted_failures(self.failures as nat, uptime_secs as nat),
            );
        }
        if uptime_secs >= BACKOFF_RESET_UPTIME_SECS {
            self.failures = 0;
        }
        let f: u32 = self.failures;
        proof {
            reveal_with_fuel(retry_delay, 7);
        }
        let delay: u64 = if f == 0 {
            1
        } else if f == 1 {
            2
        } else if f == 2 {
            4
        } else if f == 3 {
            8
        } else if f == 4 {
            16
        } else if f == 5 {
            32
        } else {
            MAX_RETRY_DELAY_SECS
        };
        if f < u32::MAX {
            self.failures = f + 1;
        }
        delay
    }
}

/// Watches one namespace's connection: when it went down, and whether it has been
/// down too long.
pub struct ReconnectWatchdog {
    down_since_ms: Option<u64>,
}

impl ReconnectWatchdog {
    /// The time the connection went down, while it is down.
    pub closed spec fn down_since(self) -> Option<u64> {
        self.down_since_ms
    }

    /// A watchdog for a connection that is up.
    pub fn new() -> (w: Self)
        ensures
            w.down_since() is None,
    {
        ReconnectWatchdog { down_since_ms: None }
    }

    /// The connection went down at `now_ms`; a connection already down keeps the time
    /// it first went down.
    pub fn on_disconnect(&mut self, now_ms: u64)
        ensures
            final(self).down_since() == match old(self).down_since() {
                Some(t) => Some(t),
                None => Some(now_ms),
            },
    {
        if self.down_since_ms.is_none() {
            self.down_since_ms = Some(now_ms);
        }
    }

    /// The connection is up again.
    pub fn on_connect(&mut self)
        ensures
            final(self).down_since() is None,
    {
        self.down_since_ms = None;
    }

    /// Whether the connection has been down for more than `RECONNECT_TIMEOUT_MS` at
    /// `now_ms`.
    pub fn expired(&self, now_ms: u64) -> (e: bool)
        ensures
            e == match self.down_since() {
                Some(t) => now_ms > t && now_ms - t > RECONNECT_TIMEOUT_MS,
                None => false,
            },
            e <==> self.down_since() is Some && now_ms > self.down_since()->0 + 45_000,
    {
        match self.down_since_ms {
            Some(t) => now_ms > t && now_ms - t > RECONNECT_TIMEOUT_MS,
            None => false,
        }
    }
}

/// Pause between two looks at the stop flag while waiting to send the next status
/// update, in milliseconds.
pub const STATUS_TICK_MILLIS: u64 = 100;

/// Pauses between two status updates: 50 pauses of 100 ms, so one update every five
/// seconds.
pub const STATUS_WAIT_TICKS: u32 = 50;

/// What the status loop does next.
#[derive(Clone, Copy, Debug, PartialEq, Eq, Structural)]
pub enum StatusStep {
    /// Send a status update.
    Emit,
    /// Pause for `STATUS_TICK_MILLIS`.
    Wait,
    /// End the loop.
    Finish,
}

/// When the status loop sends its updates.
pub struct StatusSchedule {
    waits_left: u32,
}

impl StatusSchedule {
    /// Pauses still to make before the next update.
    pub closed spec fn waits_left(self) -> nat {
        self.waits_left as nat
    }

    /// A schedule whose first update is due at once.
    pub fn new() -> (s: Self)
        ensures
            s.waits_left() == 0,
    {
        StatusSchedule { waits_left: 0 }
    }

    /// The next step of the status loop: finish once stopped, else send an update when
    /// no pause is left and start the `STATUS_WAIT_TICKS` pauses over, else pause.
    pub fn step(&mut self, stopped: bool) -> (a: StatusStep)
        ensures
            stopped ==> a == StatusStep::Finish,
            stopped ==> final(self).waits_left() == old(self).waits_left(),
            !stopped && old(self).waits_left() == 0 ==> a == StatusStep::Emit,
            !stopped && old(self).waits_left() == 0 ==> final(self).waits_left()
                == STATUS_WAIT_TICKS,
            !stopped && old(self).waits_left() == 0 ==> final(self).waits_left() == 50,
            !stopped && old(self).waits_left() > 0 ==> a == StatusStep::Wait,
            !stopped && old(self).waits_left() > 0 ==> final(self).waits_left() + 1 == old(
                self,
            ).waits_left(),
    {
        if stopped {
            StatusStep::Finish
        } else if self.waits_left == 0 {
            self.waits_left = STATUS_WAIT_TICKS;
            StatusStep::Emit
        } else {
            self.waits_left = self.waits_left - 1;
            StatusStep::Wait
        }
    }
}

/// The fields of one `status:update` message.
pub struct StatusUpdate {
    /// Whole seconds since the session started.
    pub uptime_seconds: u64,
    /// Milliseconds since the Unix epoch on this machine's clock, 0 when the clock is
    /// before the epoch.
    pub system_timestamp: u64,
    /// The latest one-way latency, in milliseconds.
    pub latency_milliseconds: u64,
}

/// The status update for a session up `uptime_ms` milliseconds, a clock reading of
/// `since_epoch_ms` (`None` when the clock is before the epoch) and a latency of
/// `latency_ms`.
pub fn status_update(uptime_ms: u64, since_epoch_ms: Option<u64>, latency_ms: u64) -> (u:
    StatusUpdate)
    ensures
        u.uptime_seconds == uptime_ms / 1000,
        u.system_timestamp == match since_epoch_ms {
            Some(t) => t,
            None => 0,
        },
        u.latency_milliseconds == latency_ms,
{
    let system_timestamp: u64 = match since_epoch_ms {
        Some(t) => t,
        None => 0,
    };
    StatusUpdate { uptime_seconds: uptime_ms / 1000, system_timestamp, latency_milliseconds: latency_ms }
}

/// The one-way latency reported for a round trip of `round_trip_ms` milliseconds: half of it.
pub fn latency_from_round_trip(round_trip_ms: u64) -> (latency: u64)
    ensures
        latency == round_trip_ms / 2,
{
    round_trip_ms / 2
}

} // verus!
