use vstd::prelude::*;

verus! {

/// Errors of a source of randomness.
#[derive(Debug)]
pub enum RandomError {
    General(String),
}

/// A source of 32 random bytes.
pub trait RandomProvider {
    fn rnd_32(&self) -> Result<[u8; 32], RandomError>;
}

#[verifier::external_type_specification]
#[verifier::external_body]
pub struct ExSystemRandom(ring::rand::SystemRandom);

/// The random source of the operating system, through the ring crate.
pub struct RingRandomProvider {
    rnd: ring::rand::SystemRandom,
}

/// Makes a handle on the system's random source with
/// `ring::rand::SystemRandom::new`; the handle holds no state.
#[verifier::external_body]
fn system_random() -> ring::rand::SystemRandom {
    ring::rand::SystemRandom::new()
}

/// Fills 32 bytes from the system's random source with ring's
/// `SecureRandom::fill`; `None` where it fails. Nothing is stated of the
/// bytes or of when the source fails: both rest on the system.
#[verifier::external_body]
fn fill_32(rnd: &ring::rand::SystemRandom) -> Option<[u8; 32]> {
    let mut val = [0u8; 32];
    match ring::rand::SecureRandom::fill(rnd, &mut val) {
        Ok(()) => Some(val),
        Err(_) => None,
    }
}

impl RingRandomProvider {
    pub fn new() -> Self {
        RingRandomProvider { rnd: system_random() }
    }
}

impl RandomProvider for RingRandomProvider {
    /// 32 bytes from the system; ring's unspecified error is reported as
    /// such.
    fn rnd_32(&self) -> (r: Result<[u8; 32], RandomError>)
        ensures
            r matches Err(RandomError::General(m)) ==> m@ == "unspecified error"@,
    {
        match fill_32(&self.rnd) {
            Some(bytes) => Ok(bytes),
            None => Err(RandomError::General(String::from_str("unspecified error"))),
        }
    }
}

} // verus!
