//! Salts for the autopeering layer: a handful of random bytes with an
//! expiration instant. The random bytes come from the system CSPRNG and the
//! expiration from the system clock, so nothing is promised of either value;
//! what the salt stores and hands back is.

use vstd::prelude::*;
use std::time::{Duration, Instant};
use crate::bytes::zero_vec;

verus! {

/// Number of bytes used for the salt.
const SALT_BY_SIZE: usize = 20;

#[verifier::external_type_specification]
#[verifier::external_body]
pub struct ExInstant(Instant);

#[verifier::external_type_specification]
#[verifier::external_body]
pub struct ExSystemRandom(ring::rand::SystemRandom);

/// Relies on ring::rand::SystemRandom::new: constructs a handle to the
/// system's cryptographically secure random number generator.
#[verifier::external_body]
fn new_system_random() -> ring::rand::SystemRandom {
    ring::rand::SystemRandom::new()
}

/// Relies on ring::rand::SecureRandom::fill for SystemRandom: fills the
/// whole buffer in place with random bytes, leaving its length unchanged;
/// nothing can be promised of the values drawn.
#[verifier::external_body]
fn fill_random(csrng: &ring::rand::SystemRandom, buf: &mut Vec<u8>) -> (r: Result<(), ()>)
    ensures
        final(buf)@.len() == old(buf)@.len(),
{
    ring::rand::SecureRandom::fill(csrng, buf.as_mut_slice()).map_err(|_| ())
}

/// Relies on std::time::Instant::now: the current reading of the monotonic
/// clock; nothing can be promised of its value.
#[verifier::external_body]
fn instant_now() -> Instant {
    Instant::now()
}

/// Relies on std::time::Instant::checked_add: the instant a duration later,
/// or None when that instant cannot be represented.
#[verifier::external_body]
fn instant_checked_add(t: &Instant, d: Duration) -> Option<Instant> {
    t.checked_add(d)
}

/// Relies on std::time::Instant's Ord: whether `a` is strictly later than
/// `b`. Instants are opaque here, so nothing is promised of the result.
#[verifier::external_body]
fn instant_gt(a: &Instant, b: &Instant) -> bool {
    a > b
}

/// Encapsulates high level functions around salt management.
pub struct Salt {
    bytes: Vec<u8>,
    expiration_time: Instant,
}

#[derive(Debug, PartialEq, Eq, Structural, Clone, Copy)]
pub enum Error {
    /// The system CSPRNG failed to produce the salt's random bytes.
    FillingWithRandomBytesFailure,
    /// The expiration instant cannot be represented by the clock. The
    /// functions here never panic, so a lifetime too long to add to the
    /// current instant is reported rather than aborted on.
    ExpirationOverflow,
}

impl Salt {
    /// The salt's random bytes, as a sequence.
    pub closed spec fn spec_bytes(&self) -> Seq<u8> {
        self.bytes@
    }

    /// The salt's expiration instant.
    pub closed spec fn spec_expiration(&self) -> Instant {
        self.expiration_time
    }

    /// Generates a new salt given a lifetime duration: 20 bytes drawn from
    /// the system CSPRNG, expiring a lifetime from now.
    pub fn new(lifetime: Duration) -> (r: Result<Self, Error>)
        ensures
            r matches Ok(s) ==> s.spec_bytes().len() == 20,
    {
        let mut bytes = zero_vec(SALT_BY_SIZE);
        let csrng = new_system_random();
        if fill_random(&csrng, &mut bytes).is_err() {
            return Err(Error::FillingWithRandomBytesFailure);
        }
        let now = instant_now();
        match instant_checked_add(&now, lifetime) {
            Some(expiration_time) => Ok(Self { bytes, expiration_time }),
            None => Err(Error::ExpirationOverflow),
        }
    }

    /// Returns the random bytes of this salt.
    pub fn bytes(&self) -> (r: &[u8])
        ensures
            r@ == self.spec_bytes(),
    {
        self.bytes.as_slice()
    }

    /// Returns the expiration time of this salt.
    pub fn expiration(&self) -> (r: &Instant)
        ensures
            *r == self.spec_expiration(),
    {
        &self.expiration_time
    }

    /// Returns whether this salt has expired: whether the clock now reads
    /// later than the expiration instant.
    pub fn expired(&self) -> bool {
        let now = instant_now();
        instant_gt(&now, &self.expiration_time)
    }

    /// Returns the number of random bytes this salt holds.
    pub fn size(&self) -> (r: usize)
        ensures
            r == self.spec_bytes().len(),
    {
        self.bytes.len()
    }
}

} // verus!
