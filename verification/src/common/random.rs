//! The operating system's random source, through `rand`. Nothing is stated of the bytes
//! it gives, nor of whether it works.
use vstd::prelude::*;
use rand::TryRng;

verus! {

/// `n` bytes from the operating system's random source (`SysRng::try_fill_bytes`);
/// `None` when the source fails.
#[verifier::external_body]
pub(crate) fn os_random_bytes(n: usize) -> (bytes: Option<Vec<u8>>)
    ensures
        bytes matches Some(b) ==> b@.len() == n,
{
    let mut bytes = vec![0u8; n];
    match rand::rngs::SysRng.try_fill_bytes(&mut bytes) {
        Ok(()) => Some(bytes),
        Err(_) => None,
    }
}

} // verus!
