//! The transaction clock.
//!
//! A request that ends in an error may not be answered before a fixed time
//! has passed since its header was read, so that the time an error takes
//! tells the host nothing.  The clock works on the readings of a
//! free-running 32-bit tick counter, which its owner hands in; the counter
//! may roll over once between two readings.
use vstd::prelude::*;

verus! {

/// Ticks of the counter in one second.
pub const TIMER_RATE: u32 = 50_000_000;

/// Ticks that a failed transaction lasts at least: five seconds.
pub const TRANSACTION_TIME_TICKS: u32 = 5 * TIMER_RATE;

/// Ticks from one reading of the counter to a later one, the counter
/// having rolled over at most once in between.
pub open spec fn ticks_between(start: u32, now: u32) -> nat {
    if now >= start {
        (now - start) as nat
    } else {
        (now + 0x1_0000_0000 - start) as nat
    }
}

/// Ticks that are left of the transaction time, `elapsed` ticks into the
/// transaction.
pub open spec fn ticks_left(elapsed: nat) -> nat {
    if elapsed >= TRANSACTION_TIME_TICKS {
        0
    } else {
        (TRANSACTION_TIME_TICKS - elapsed) as nat
    }
}

/// The clock of the transaction in progress.
#[derive(Debug, Clone, Copy, PartialEq, Eq)]
pub struct DecoderClock {
    started_at: u32,
}

impl DecoderClock {
    /// The reading of the counter when the transaction began.
    pub closed spec fn started_at(&self) -> u32 {
        self.started_at
    }

    /// Ticks that are left of the transaction time at the reading `now`.
    pub open spec fn remaining(&self, now: u32) -> nat {
        ticks_left(ticks_between(self.started_at(), now))
    }

    /// A clock whose transaction begins at the reading `now`.
    pub fn new(now: u32) -> (clock: DecoderClock)
        ensures
            clock.started_at() == now,
    {
        DecoderClock { started_at: now }
    }

    /// Begins a transaction at the reading `now`.
    pub fn start_transaction_timer(&mut self, now: u32)
        ensures
            final(self).started_at() == now,
    {
        self.started_at = now;
    }

    /// The ticks that the caller has to let pass, at the reading `now`,
    /// before the transaction time is over: none once it is over.  The
    /// ticks passed and the ticks returned are never less than the
    /// transaction time.
    pub fn wait_for_max_transaction_time(&self, now: u32) -> (ticks: u32)
        ensures
            ticks == self.remaining(now),
            ticks + ticks_between(self.started_at(), now) >= TRANSACTION_TIME_TICKS,
    {
        let elapsed = if now >= self.started_at {
            now - self.started_at
        } else {
            (u32::MAX - self.started_at) + now + 1
        };
        if elapsed >= TRANSACTION_TIME_TICKS {
            0
        } else {
            TRANSACTION_TIME_TICKS - elapsed
        }
    }

    /// Whether the transaction time is over at the reading `now`.
    pub fn deadline_reached(&self, now: u32) -> (reached: bool)
        ensures
            reached == (self.remaining(now) == 0),
            reached == (ticks_between(self.started_at(), now) >= TRANSACTION_TIME_TICKS),
    {
        self.wait_for_max_transaction_time(now) == 0
    }
}

} // verus!
