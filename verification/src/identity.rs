//! The node's signing identity: a 32-byte ed25519 seed kept in a key file,
//! made from the system's random source the first time.

use vstd::prelude::*;

use crate::crypto::{ed25519_public_key, hex_encode, hex_text, public_key_of, to_array32};

verus! {

/// Why the node's identity could not be had.
#[derive(Debug, Clone, Copy, PartialEq, Eq)]
pub enum IdentityError {
    /// The key file does not hold exactly 32 bytes.
    CorruptKeyFile,
    /// The system's random source failed.
    RandomSourceFailed,
}

/// 32 bytes from the system's random source, by `getrandom::fill`, or
/// `None` when the source reports an error. Trusted only for its type: the
/// bytes are chance.
#[verifier::external_body]
fn random_seed() -> (r: Option<[u8; 32]>) {
    let mut seed = [0u8; 32];
    match getrandom::fill(&mut seed) {
        Ok(()) => Some(seed),
        Err(_) => None,
    }
}

/// The node's seed, given the content of its key file (`None` when there
/// is no key file yet). An existing file must hold exactly 32 bytes, which
/// are the seed; without a file a fresh random seed is made. The flag is
/// whether the seed is fresh (and so is to be written to the key file).
pub fn identity_seed(existing: Option<&[u8]>) -> (r: Result<([u8; 32], bool), IdentityError>)
    ensures
        match existing {
            Some(bytes) => if bytes@.len() == 32 {
                r matches Ok((seed, fresh)) && seed@ == bytes@ && !fresh
            } else {
                r == Err::<([u8; 32], bool), IdentityError>(IdentityError::CorruptKeyFile)
            },
            None => match r {
                Ok((_, fresh)) => fresh,
                Err(e) => e == IdentityError::RandomSourceFailed,
            },
        },
{
    match existing {
        Some(bytes) => {
            if bytes.len() != 32 {
                return Err(IdentityError::CorruptKeyFile);
            }
            Ok((to_array32(bytes), false))
        },
        None => match random_seed() {
            Some(seed) => Ok((seed, true)),
            None => Err(IdentityError::RandomSourceFailed),
        },
    }
}


/// The node's identity as others see it: the hex text of the public key of
/// `seed`, which is also the permanent address of its sites.
pub fn public_address(seed: &[u8; 32]) -> (r: String)
    ensures
        r@ == hex_text(ed25519_public_key(seed@)),
{
    let pk = public_key_of(seed);
    hex_encode(pk.as_slice())
}

} // verus!
