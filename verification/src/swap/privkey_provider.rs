use std::sync::Arc;

use vstd::prelude::*;

use super::random_provider::{RandomError, RandomProvider};
use super::swap_service::bytes_lt;

verus! {

/// Errors of creating a private key.
#[derive(Debug)]
pub enum PrivateKeyError {
    General(String),
}

/// The order of the secp256k1 group, big-endian.
pub open spec fn curve_order() -> Seq<u8> {
    seq![
        0xffu8, 0xff, 0xff, 0xff, 0xff, 0xff, 0xff, 0xff, 0xff, 0xff, 0xff, 0xff, 0xff, 0xff, 0xff,
        0xfe, 0xba, 0xae, 0xdc, 0xe6, 0xaf, 0x48, 0xa0, 0x3b, 0xbf, 0xd2, 0x5e, 0x8c, 0xd0, 0x36,
        0x41, 0x41,
    ]
}

/// A valid secret key: 32 bytes that, read as a big-endian integer, are
/// neither zero nor at least the group order.
pub open spec fn is_secret_key(key: Seq<u8>) -> bool {
    &&& key.len() == 32
    &&& key != Seq::new(32, |i: int| 0u8)
    &&& bytes_lt(key, curve_order())
}

/// Checks 32 bytes as a secret key with `secp256k1::SecretKey::from_slice`,
/// which accepts them when, read as a big-endian integer, they are neither
/// zero nor at least the group order (libsecp256k1's `ec_seckey_verify`);
/// `secret_bytes` gives the same bytes back.
#[verifier::external_body]
pub(crate) fn secret_key_from_bytes(bytes: &[u8; 32]) -> (r: Option<[u8; 32]>)
    ensures
        r is Some <==> is_secret_key(bytes@),
        r matches Some(k) ==> k@ == bytes@,
{
    match bitcoin::secp256k1::SecretKey::from_slice(bytes) {
        Ok(key) => Some(key.secret_bytes()),
        Err(_) => None,
    }
}

/// A source of new private keys.
pub trait PrivateKeyProvider {
    fn new_private_key(&self) -> (r: Result<[u8; 32], PrivateKeyError>)
        ensures
            r matches Ok(k) ==> is_secret_key(k@),
    ;
}

/// Private keys made of random bytes.
pub struct RandomPrivateKeyProvider<RP> {
    rnd: Arc<RP>,
}

impl<RP: RandomProvider> RandomPrivateKeyProvider<RP> {
    /// The source of random bytes that the keys are made of.
    pub closed spec fn source(&self) -> Arc<RP> {
        self.rnd
    }

    pub fn new(rnd: Arc<RP>) -> (r: Self)
        ensures
            r.source() == rnd,
    {
        RandomPrivateKeyProvider { rnd }
    }
}

impl<RP: RandomProvider> PrivateKeyProvider for RandomPrivateKeyProvider<RP> {
    /// 32 random bytes, refused where they are no valid secret key.
    fn new_private_key(&self) -> (r: Result<[u8; 32], PrivateKeyError>)
        ensures
            r matches Err(PrivateKeyError::General(m)) ==> m@ == "malformed or out-of-range secret key"@
                || exists|cause: Seq<char>| m@ == "random error: general: "@ + cause,
    {
        let key = match self.rnd.rnd_32() {
            Ok(key) => key,
            Err(RandomError::General(message)) => {
                let mut text = String::from_str("random error: general: ");
                text.append(message.as_str());
                return Err(PrivateKeyError::General(text));
            },
        };
        match secret_key_from_bytes(&key) {
            Some(k) => Ok(k),
            None => Err(PrivateKeyError::General(String::from_str("malformed or out-of-range secret key"))),
        }
    }
}

} // verus!
