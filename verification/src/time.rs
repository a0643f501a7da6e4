//! Points in time and lease lengths as plain numbers, and the age of a lease.

use vstd::prelude::*;

verus! {

/// The number of nanoseconds in a second.
pub const NANOS_PER_SEC: u32 = 1_000_000_000;

/// A point in time: `secs` whole seconds and `nanos` nanoseconds after the Unix epoch, with
/// `nanos` below a second. Times before the epoch have negative `secs`.
#[derive(Clone, Copy, Debug)]
pub struct Timestamp {
    secs: i64,
    nanos: u32,
}

/// How long a lease lasts: `secs` whole seconds and `nanos` nanoseconds, with `nanos` below a
/// second.
#[derive(Clone, Copy, Debug)]
pub struct LeaseTime {
    secs: u64,
    nanos: u32,
}

impl View for Timestamp {
    type V = int;

    /// The nanoseconds from the Unix epoch to this point in time.
    closed spec fn view(&self) -> int {
        self.secs as int * NANOS_PER_SEC as int + self.nanos as int
    }
}

impl View for LeaseTime {
    type V = int;

    /// The length of the lease in nanoseconds.
    closed spec fn view(&self) -> int {
        self.secs as int * NANOS_PER_SEC as int + self.nanos as int
    }
}

impl Timestamp {
    #[verifier::type_invariant]
    spec fn well_formed(self) -> bool {
        self.nanos < NANOS_PER_SEC
    }

    /// The point in time `secs` seconds and `nanos` nanoseconds after the Unix epoch; `None`
    /// if `nanos` is a second or more.
    pub fn new(secs: i64, nanos: u32) -> (timestamp: Option<Timestamp>)
        ensures
            timestamp is Some <==> nanos < NANOS_PER_SEC,
            timestamp matches Some(t) ==> t@ == secs * NANOS_PER_SEC + nanos,
    {
        if nanos < NANOS_PER_SEC {
            Some(Timestamp { secs, nanos })
        } else {
            None
        }
    }

    /// The point in time that lies `secs` seconds and `nanos` nanoseconds away from the Unix
    /// epoch, before it if `before_epoch` and else after it. `None` if `nanos` is a second or
    /// more, or if the whole seconds of the result do not fit in 64 bits with a sign.
    pub fn from_epoch_offset(before_epoch: bool, secs: u64, nanos: u32) -> (timestamp: Option<
        Timestamp,
    >)
        ensures
            timestamp is Some <==> nanos < NANOS_PER_SEC && if before_epoch {
                secs * NANOS_PER_SEC + nanos <= 0x8000_0000_0000_0000 * NANOS_PER_SEC
            } else {
                secs <= i64::MAX
            },
            timestamp matches Some(t) ==> t@ == if before_epoch {
                -(secs * NANOS_PER_SEC + nanos)
            } else {
                secs * NANOS_PER_SEC + nanos
            },
    {
        if nanos >= NANOS_PER_SEC {
            return None;
        }
        if !before_epoch {
            if secs > 0x7fff_ffff_ffff_ffff {
                return None;
            }
            return Some(Timestamp { secs: secs as i64, nanos });
        }
        if nanos == 0 {
            if secs > 0x8000_0000_0000_0000 {
                return None;
            }
            let whole: i128 = -(secs as i128);
            Some(Timestamp { secs: whole as i64, nanos: 0 })
        } else {
            if secs >= 0x8000_0000_0000_0000 {
                return None;
            }
            let whole: i128 = -(secs as i128) - 1;
            Some(Timestamp { secs: whole as i64, nanos: NANOS_PER_SEC - nanos })
        }
    }
}

impl LeaseTime {
    #[verifier::type_invariant]
    spec fn well_formed(self) -> bool {
        self.nanos < NANOS_PER_SEC
    }

    /// A lease of `secs` seconds and `nanos` nanoseconds; `None` if `nanos` is a second or
    /// more.
    pub fn new(secs: u64, nanos: u32) -> (lease_time: Option<LeaseTime>)
        ensures
            lease_time is Some <==> nanos < NANOS_PER_SEC,
            lease_time matches Some(l) ==> l@ == secs * NANOS_PER_SEC + nanos,
    {
        if nanos < NANOS_PER_SEC {
            Some(LeaseTime { secs, nanos })
        } else {
            None
        }
    }

    /// A lease of `secs` whole seconds.
    pub fn from_secs(secs: u64) -> (lease_time: LeaseTime)
        ensures
            lease_time@ == secs * NANOS_PER_SEC,
    {
        LeaseTime { secs, nanos: 0 }
    }
}

/// For how many whole seconds a lease has been over at `now`, where `now`, `lease_time` and
/// `mtime` are in nanoseconds and the lease was taken at `mtime`: zero while the lease
/// lasts, and zero for a lease taken in the future.
pub open spec fn expired_seconds(now: int, lease_time: int, mtime: int) -> int {
    if now - lease_time >= mtime {
        (now - lease_time - mtime) / (NANOS_PER_SEC as int)
    } else {
        0
    }
}

/// For how many whole seconds the lease taken at `mtime` has been over at `now`; zero while
/// it lasts.
pub fn expired_seconds_ago(now: Timestamp, lease_time: LeaseTime, mtime: Timestamp) -> (seconds:
    u64)
    ensures
        seconds == expired_seconds(now@, lease_time@, mtime@),
{
    proof {
        use_type_invariant(now);
        use_type_invariant(lease_time);
        use_type_invariant(mtime);
    }
    let now_nanos: i128 = now.secs as i128 * 1_000_000_000 + now.nanos as i128;
    let lease_nanos: i128 = lease_time.secs as i128 * 1_000_000_000 + lease_time.nanos as i128;
    let mtime_nanos: i128 = mtime.secs as i128 * 1_000_000_000 + mtime.nanos as i128;
    let expiration: i128 = now_nanos - lease_nanos;
    if expiration >= mtime_nanos {
        let over: i128 = (expiration - mtime_nanos) / 1_000_000_000;
        over as u64
    } else {
        0
    }
}

/// A lease is not over before its time has passed: while `now` is no later than `mtime` plus
/// the lease time, the entry counts as leased.
pub proof fn lemma_fresh_lease_is_unexpired(now: int, lease_time: int, mtime: int)
    requires
        now <= mtime + lease_time,
    ensures
        expired_seconds(now, lease_time, mtime) == 0,
{
}

/// An entry counts as expired exactly when its lease has been over for a full second.
pub proof fn lemma_expired_after_lease(now: int, lease_time: int, mtime: int)
    ensures
        expired_seconds(now, lease_time, mtime) > 0 <==> now >= mtime + lease_time
            + NANOS_PER_SEC,
        expired_seconds(now, lease_time, mtime) >= 0,
{
}

/// Taking the lease again, by moving `mtime` forward, never makes an entry older.
pub proof fn lemma_lease_extension(now: int, lease_time: int, mtime: int, later: int)
    requires
        mtime <= later,
    ensures
        expired_seconds(now, lease_time, later) <= expired_seconds(now, lease_time, mtime),
{
    if now - lease_time >= later {
        let a = now - lease_time - later;
        let b = now - lease_time - mtime;
        assert(a / 1_000_000_000 <= b / 1_000_000_000) by (nonlinear_arith)
            requires
                0 <= a <= b,
        ;
    } else if now - lease_time >= mtime {
        let b = now - lease_time - mtime;
        assert(b / 1_000_000_000 >= 0) by (nonlinear_arith)
            requires
                0 <= b,
        ;
    }
}

} // verus!
