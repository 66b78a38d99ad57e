//! SHA-256 of uploaded content, computed by `sha2` as the bytes stream in.
use vstd::prelude::*;
use sha2::Digest;

verus! {

/// A SHA-256 computation in progress (`sha2::Sha256`). Verus sees only the bytes it has
/// absorbed, through [`absorbed`].
#[verifier::external_body]
pub struct ContentHasher {
    inner: sha2::Sha256,
}

/// The bytes a hasher has absorbed so far, in order.
pub uninterp spec fn absorbed(h: ContentHasher) -> Seq<u8>;

/// The SHA-256 digest of some bytes (`Sha256::digest`).
pub uninterp spec fn sha256_of(data: Seq<u8>) -> Seq<u8>;

/// `Sha256::new`: a hasher that has absorbed nothing.
#[verifier::external_body]
fn hasher_new() -> (h: ContentHasher)
    ensures
        absorbed(h) == Seq::<u8>::empty(),
{
    ContentHasher { inner: sha2::Sha256::new() }
}

/// `Digest::update`: the hasher absorbs `data` after what it already holds.
#[verifier::external_body]
fn hasher_update(h: &mut ContentHasher, data: &[u8])
    ensures
        absorbed(*final(h)) == absorbed(*old(h)) + data@,
{
    h.inner.update(data);
}

/// `Digest::finalize`: the 32-byte SHA-256 digest of everything absorbed.
#[verifier::external_body]
fn hasher_finish(h: ContentHasher) -> (d: Vec<u8>)
    ensures
        d@ == sha256_of(absorbed(h)),
        d@.len() == 32,
{
    h.inner.finalize().to_vec()
}

impl ContentHasher {
    /// A hasher over no bytes yet.
    pub fn new() -> (h: ContentHasher)
        ensures
            absorbed(h) == Seq::<u8>::empty(),
    {
        hasher_new()
    }

    /// Takes in the next chunk of content.
    pub fn absorb(&mut self, chunk: &[u8])
        ensures
            absorbed(*final(self)) == absorbed(*old(self)) + chunk@,
    {
        hasher_update(self, chunk);
    }

    /// The SHA-256 digest of all the content taken in.
    pub fn digest(self) -> (d: Vec<u8>)
        ensures
            d@ == sha256_of(absorbed(self)),
            d@.len() == 32,
    {
        hasher_finish(self)
    }
}

} // verus!
