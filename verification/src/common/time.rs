use vstd::prelude::*;

verus! {

/// A span of time: whole seconds and the nanoseconds below a second.
#[derive(Debug, Clone, Copy, PartialEq, Eq)]
pub struct Duration {
    secs: u64,
    nanos: u32,
}

impl Duration {
    #[verifier::type_invariant]
    spec fn well_formed(self) -> bool {
        self.nanos < 1_000_000_000
    }

    /// The whole seconds.
    pub closed spec fn spec_secs(self) -> u64 {
        self.secs
    }

    /// The nanoseconds below a second.
    pub closed spec fn spec_nanos(self) -> u32 {
        self.nanos
    }

    /// The whole span in nanoseconds.
    pub open spec fn total_nanos(self) -> int {
        self.spec_secs() * 1_000_000_000 + self.spec_nanos()
    }

    /// A span of `secs` seconds.
    pub fn from_secs(secs: u64) -> (res: Duration)
        ensures
            res.spec_secs() == secs,
            res.spec_nanos() == 0,
    {
        Duration { secs, nanos: 0 }
    }

    /// A span of `secs` seconds and `nanos` nanoseconds; nanoseconds of a
    /// second or more carry into the seconds.
    pub fn new(secs: u64, nanos: u32) -> (res: Duration)
        requires
            secs + nanos / 1_000_000_000 <= u64::MAX,
        ensures
            res.spec_secs() == secs + nanos / 1_000_000_000,
            res.spec_nanos() == nanos % 1_000_000_000,
    {
        Duration { secs: secs + (nanos / 1_000_000_000) as u64, nanos: nanos % 1_000_000_000 }
    }

    /// The whole seconds.
    pub fn as_secs(&self) -> (res: u64)
        ensures
            res == self.spec_secs(),
    {
        self.secs
    }

    /// The nanoseconds below a second.
    pub fn subsec_nanos(&self) -> (res: u32)
        ensures
            res == self.spec_nanos(),
            res < 1_000_000_000,
    {
        proof {
            use_type_invariant(self);
        }
        self.nanos
    }
}

} // verus!
