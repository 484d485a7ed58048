use vstd::prelude::*;

verus! {

/// Failure to read a time relative to the Unix epoch.
#[derive(Clone, Copy, Debug, PartialEq, Eq, Structural)]
pub enum SystemTimeError {
    BeforeUnixEpoch,
}

/// A point in time, counted in whole seconds since the Unix epoch.
#[derive(Clone, Copy, Debug, PartialEq, Eq, Structural)]
pub struct MlsTime {
    pub secs: u64,
}

impl MlsTime {
    /// The time that lies `secs` seconds after the Unix epoch.
    pub fn from_duration_since_epoch(secs: u64) -> (r: MlsTime)
        ensures
            r.secs == secs,
    {
        MlsTime { secs }
    }

    /// Seconds since the Unix epoch.
    pub fn seconds_since_epoch(&self) -> (r: Result<u64, SystemTimeError>)
        ensures
            r == Ok::<u64, SystemTimeError>(self.secs),
    {
        Ok(self.secs)
    }

    /// Relies on std::time::SystemTime::now: the reading depends on the
    /// machine's clock, so nothing is promised of the value; a clock before
    /// the Unix epoch is reported as the epoch itself.
    #[verifier::external_body]
    pub fn now() -> (r: MlsTime)
    {
        let secs = match std::time::SystemTime::now().duration_since(std::time::UNIX_EPOCH) {
            Ok(d) => d.as_secs(),
            Err(_) => 0,
        };
        MlsTime { secs }
    }
}

} // verus!
