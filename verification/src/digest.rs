//! Content hashes of model files: SHA-256, streamed, as lower-case hex.

use vstd::prelude::*;
use sha2::{Digest, Sha256};

verus! {

/// A running SHA-256 computation. The state is the hasher of the `sha2`
/// crate, whose type cannot be declared to the verifier, so it is held
/// opaquely.
#[verifier::external_body]
pub struct ContentHasher {
    inner: Sha256,
}

/// The bytes a hasher has taken in so far, in order.
pub uninterp spec fn absorbed(hasher: ContentHasher) -> Seq<u8>;

/// The SHA-256 digest of a byte string: 32 bytes.
pub uninterp spec fn sha256(data: Seq<u8>) -> Seq<u8>;

/// The lower-case hex digit for `n`, which is below sixteen.
pub open spec fn hex_digit(n: int) -> char {
    if n < 10 {
        (48 + n) as u8 as char
    } else {
        (87 + n) as u8 as char
    }
}

/// Lower-case hex of a byte string: two digits a byte, the high half first.
pub open spec fn hex_lower(data: Seq<u8>) -> Seq<char> {
    Seq::new(
        2 * data.len(),
        |i: int|
            if i % 2 == 0 {
                hex_digit(data[i / 2] as int / 16)
            } else {
                hex_digit(data[i / 2] as int % 16)
            },
    )
}

/// The content hash of a byte string as the lockfile records it.
pub open spec fn content_digest(data: Seq<u8>) -> Seq<char> {
    hex_lower(sha256(data))
}

impl ContentHasher {
    /// `Sha256::new`: a hasher that has taken in nothing.
    #[verifier::external_body]
    pub(crate) fn start() -> (h: ContentHasher)
        ensures
            absorbed(h) == Seq::<u8>::empty(),
    {
        ContentHasher { inner: Sha256::new() }
    }

    /// `Digest::update`: the hasher takes in `chunk` after what it has.
    #[verifier::external_body]
    pub(crate) fn update(&mut self, chunk: &[u8])
        ensures
            absorbed(*final(self)) == absorbed(*old(self)) + chunk@,
    {
        self.inner.update(chunk);
    }

    /// `Digest::finalize`: the SHA-256 digest of all that was taken in,
    /// however it was cut into chunks.
    #[verifier::external_body]
    pub(crate) fn finalize(self) -> (digest: Vec<u8>)
        ensures
            digest@ == sha256(absorbed(self)),
    {
        self.inner.finalize().to_vec()
    }
}

/// `hex::encode`: lower-case hex, two digits a byte.
#[verifier::external_body]
pub(crate) fn hex_encode(data: &[u8]) -> (text: String)
    ensures
        text@ == hex_lower(data@),
{
    hex::encode(data)
}

/// A file being received: the hash over what has arrived and its length.
pub struct Transfer {
    hasher: ContentHasher,
    received: u64,
}

impl Transfer {
    /// The bytes received so far.
    pub closed spec fn content(self) -> Seq<u8> {
        absorbed(self.hasher)
    }

    /// The byte count kept beside the hash.
    pub closed spec fn count(self) -> int {
        self.received as int
    }

    /// The byte count kept beside the hash is the length of the content.
    pub open spec fn well_formed(self) -> bool {
        self.count() == self.content().len()
    }

    /// A transfer that has received nothing.
    pub fn begin() -> (t: Transfer)
        ensures
            t.well_formed(),
            t.content() == Seq::<u8>::empty(),
    {
        Transfer { hasher: ContentHasher::start(), received: 0 }
    }

    /// The number of bytes received so far.
    pub fn received(&self) -> (n: u64)
        requires
            self.well_formed(),
        ensures
            n == self.content().len(),
    {
        self.received
    }

    /// Takes in the next chunk, be it read back from a partial file or
    /// fetched. Returns `false`, and changes nothing, where the byte count
    /// would no longer fit.
    pub fn absorb(&mut self, chunk: &[u8]) -> (taken: bool)
        requires
            old(self).well_formed(),
        ensures
            final(self).well_formed(),
            taken == (old(self).content().len() + chunk@.len() <= u64::MAX),
            final(self).content() == if taken {
                old(self).content() + chunk@
            } else {
                old(self).content()
            },
    {
        let len: usize = chunk.len();
        if len as u64 > u64::MAX - self.received {
            return false;
        }
        self.hasher.update(chunk);
        self.received = self.received + len as u64;
        true
    }

    /// Ends the transfer: the length of what was received and its content
    /// hash.
    pub fn finish(self) -> (r: (u64, String))
        requires
            self.well_formed(),
        ensures
            r.0 == self.content().len(),
            r.1@ == content_digest(self.content()),
    {
        let digest: Vec<u8> = self.hasher.finalize();
        (self.received, hex_encode(digest.as_slice()))
    }
}

/// The content hash of a byte string held in memory.
pub fn digest_of(data: &[u8]) -> (text: String)
    ensures
        text@ == content_digest(data@),
{
    let mut hasher: ContentHasher = ContentHasher::start();
    hasher.update(data);
    assert(Seq::<u8>::empty() + data@ =~= data@);
    hex_encode(hasher.finalize().as_slice())
}

} // verus!
