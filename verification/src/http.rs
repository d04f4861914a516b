//! The access token of a session and when it counts as expired.
use std::time::{Duration, Instant};
use vstd::prelude::*;

use crate::util::{duration_as_secs, duration_whole_secs};

verus! {

/// `std::time::Instant`, a point in time, held by a token.
#[verifier::external_type_specification]
#[verifier::external_body]
pub struct ExInstant(Instant);

/// `Instant::now`: the current time. Nothing is stated of it.
#[verifier::external_body]
fn instant_now() -> Instant {
    Instant::now()
}

/// `Instant::elapsed`: the time since the instant. It depends on the clock,
/// so nothing is stated of it.
#[verifier::external_body]
fn instant_elapsed(instant: &Instant) -> Duration {
    instant.elapsed()
}

/// The access token of a session.
pub struct Token {
    current: String,
    created: Instant,
    expires: u64,
}

/// Whether a token that has lived `elapsed_secs` seconds and lives for
/// `expires` seconds has expired.
pub open spec fn expired(elapsed_secs: u64, expires: u64) -> bool {
    elapsed_secs >= expires
}

/// Whether a token that has lived `elapsed_secs` seconds and lives for
/// `expires` seconds has expired.
pub fn token_expired(elapsed_secs: u64, expires: u64) -> (res: bool)
    ensures
        res == expired(elapsed_secs, expires),
{
    elapsed_secs >= expires
}

impl Default for Token {
    /// An empty token created now, which expires at once.
    fn default() -> (res: Self)
        ensures
            res.spec_current() == Seq::<char>::empty(),
            res.spec_expires() == 0,
    {
        Token { current: String::new(), created: instant_now(), expires: 0 }
    }
}

impl Token {
    /// The token text.
    pub closed spec fn spec_current(&self) -> Seq<char> {
        self.current@
    }

    /// The lifetime of the token in seconds.
    pub closed spec fn spec_expires(&self) -> u64 {
        self.expires
    }

    /// The token text.
    pub fn current(&self) -> (res: &String)
        ensures
            res@ == self.spec_current(),
    {
        &self.current
    }

    /// Whether the token has lived at least as many whole seconds as it may
    /// live. The seconds come from the clock; what is stated is that a token
    /// with a lifetime of 0 is always expired.
    pub fn is_expired(&self) -> (res: bool)
        ensures
            self.spec_expires() == 0 ==> res,
            exists|d: Duration| res == expired(duration_whole_secs(d), self.spec_expires()),
    {
        let elapsed = instant_elapsed(&self.created);
        let secs = duration_as_secs(&elapsed);
        token_expired(secs, self.expires)
    }
}

} // verus!
