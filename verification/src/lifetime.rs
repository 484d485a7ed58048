use vstd::prelude::*;

use crate::codec::{
    dec_u64, enc_u64, lemma_rt_u64, lemma_split2, spec_dec_u64, spec_enc_u64, WireCode,
};
use crate::time::{MlsTime, SystemTimeError};

verus! {

/// Why a lifetime could not be built or checked.
#[derive(Clone, Copy, Debug, PartialEq, Eq, Structural)]
pub enum LifetimeError {
    SystemTimeError(SystemTimeError),
    TimeOverflow,
}

/// Seconds of slack granted before the nominal start of a window, to absorb
/// clock differences between machines.
pub const CLOCK_SKEW_SECONDS: u64 = 3600;

/// The validity window of a leaf's key material, in seconds since the Unix
/// epoch, both bounds inclusive.
#[derive(Clone, Copy, Debug, PartialEq, Eq, Structural, Default)]
pub struct Lifetime {
    pub not_before: u64,
    pub not_after: u64,
}

impl Lifetime {
    /// The window from `not_before` to `not_after`.
    pub fn new(not_before: u64, not_after: u64) -> (r: Lifetime)
        ensures
            r.not_before == not_before,
            r.not_after == not_after,
    {
        Lifetime { not_before, not_after }
    }

    /// The window around a given reading of the clock: it opens one hour
    /// before `now` and closes `s` seconds after it.  Fails exactly when one
    /// of the two bounds leaves `u64`.
    pub fn window_from(now: MlsTime, s: u64) -> (r: Result<Lifetime, LifetimeError>)
        ensures
            match r {
                Ok(l) => now.secs >= CLOCK_SKEW_SECONDS
                    && now.secs + s <= u64::MAX
                    && l.not_before == now.secs - CLOCK_SKEW_SECONDS
                    && l.not_after == now.secs + s,
                Err(e) => e == LifetimeError::TimeOverflow
                    && (now.secs < CLOCK_SKEW_SECONDS || now.secs + s > u64::MAX),
            },
    {
        if now.secs < CLOCK_SKEW_SECONDS {
            return Err(LifetimeError::TimeOverflow);
        }
        match now.secs.checked_add(s) {
            Some(not_after) => Ok(Lifetime {
                not_before: now.secs - CLOCK_SKEW_SECONDS,
                not_after,
            }),
            None => Err(LifetimeError::TimeOverflow),
        }
    }

    /// A window that lasts `s` seconds from the current clock reading, opened
    /// one hour early.  The clock decides success; whatever it read, a window
    /// that comes back spans exactly `s` plus that hour.
    pub fn seconds(s: u64) -> (r: Result<Lifetime, LifetimeError>)
        ensures
            match r {
                Ok(l) => l.not_before + CLOCK_SKEW_SECONDS + s == l.not_after,
                Err(e) => e == LifetimeError::TimeOverflow,
            },
    {
        let now = MlsTime::now();
        Self::window_from(now, s)
    }

    /// A window of `d` whole days.
    pub fn days(d: u32) -> (r: Result<Lifetime, LifetimeError>)
        ensures
            match r {
                Ok(l) => l.not_before + CLOCK_SKEW_SECONDS + d * 86400 == l.not_after,
                Err(e) => e == LifetimeError::TimeOverflow,
            },
    {
        Self::seconds((d as u64) * 86400)
    }

    /// A window of `y` years of 365 days.
    pub fn years(y: u8) -> (r: Result<Lifetime, LifetimeError>)
        ensures
            match r {
                Ok(l) => l.not_before + CLOCK_SKEW_SECONDS + y * 365 * 86400 == l.not_after,
                Err(e) => e == LifetimeError::TimeOverflow,
            },
    {
        Self::days(365 * (y as u32))
    }

    /// Whether `time` falls inside the window, both bounds included.
    pub fn within_lifetime(&self, time: MlsTime) -> (r: Result<bool, LifetimeError>)
        ensures
            r == Ok::<bool, LifetimeError>(self.not_before <= time.secs && time.secs <= self.not_after),
    {
        let since_epoch = match time.seconds_since_epoch() {
            Ok(s) => s,
            Err(e) => return Err(LifetimeError::SystemTimeError(e)),
        };
        Ok(since_epoch >= self.not_before && since_epoch <= self.not_after)
    }
}

impl View for Lifetime {
    type V = Lifetime;

    open spec fn view(&self) -> Lifetime {
        *self
    }
}

impl WireCode for Lifetime {
    open spec fn spec_enc(m: Lifetime) -> Seq<u8> {
        spec_enc_u64(m.not_before) + spec_enc_u64(m.not_after)
    }

    open spec fn spec_dec(s: Seq<u8>, i: int) -> Option<(Lifetime, int)> {
        match spec_dec_u64(s, i) {
            Some((nb, j)) => match spec_dec_u64(s, j) {
                Some((na, k)) => Some((Lifetime { not_before: nb, not_after: na }, k)),
                None => None,
            },
            None => None,
        }
    }

    open spec fn wire_wf(m: Lifetime) -> bool {
        true
    }

    proof fn lemma_rt(pre: Seq<u8>, m: Lifetime, suf: Seq<u8>) {
        let e1 = spec_enc_u64(m.not_before);
        let e2 = spec_enc_u64(m.not_after);
        lemma_split2(pre, e1, e2, suf);
        lemma_rt_u64(pre, m.not_before, e2 + suf);
        lemma_rt_u64(pre + e1, m.not_after, suf);
    }

    proof fn lemma_wf(&self) {
    }

    fn dup(&self) -> (r: Self) {
        *self
    }

    fn encode(&self, out: &mut Vec<u8>) {
        enc_u64(out, self.not_before);
        enc_u64(out, self.not_after);
        proof {
            assert(out@ =~= old(out)@ + Self::spec_enc(self@));
        }
    }

    fn decode(s: &Vec<u8>, i: usize) -> (r: Option<(Self, usize)>) {
        match dec_u64(s, i) {
            Some((not_before, j)) => match dec_u64(s, j) {
                Some((not_after, k)) => Some((Lifetime { not_before, not_after }, k)),
                None => None,
            },
            None => None,
        }
    }
}

} // verus!
