//! Self-describing hashes: a code that names the hash function, and the digest.

use crate::bytes::{copy_bytes, same_bytes};
use vstd::prelude::*;

verus! {

/// Code of the identity function: the digest is the input itself.
pub const IDENTITY: u64 = 0x00;

/// Code of SHA-256.
pub const SHA2_256: u64 = 0x12;

/// The longest digest that a [`Multihash`] holds, in bytes.
pub const MAX_DIGEST_LEN: usize = 64;

/// What a [`Multihash`] stands for: the code and the digest bytes.
#[verifier::ext_equal]
pub struct MultihashView {
    pub code: u64,
    pub digest: Seq<u8>,
}

/// The binary form that `multihash` gives to a code and a digest of at most
/// [`MAX_DIGEST_LEN`] bytes.
pub uninterp spec fn multihash_encoding(code: u64, digest: Seq<u8>) -> Seq<u8>;

/// The hash that `multihash` reads from `bytes`, where it reads one.
pub uninterp spec fn multihash_decoding(bytes: Seq<u8>) -> Option<MultihashView>;

/// The SHA-256 digest of `input`.
pub uninterp spec fn sha2_256_digest(input: Seq<u8>) -> Seq<u8>;

/// A hash together with the code of the function that made it.
#[derive(Debug, Hash)]
pub struct Multihash {
    code: u64,
    digest: Vec<u8>,
}

impl View for Multihash {
    type V = MultihashView;

    closed spec fn view(&self) -> MultihashView {
        MultihashView { code: self.code, digest: self.digest@ }
    }
}

impl Clone for Multihash {
    fn clone(&self) -> (copy: Multihash)
        ensures
            copy@ == self@,
    {
        proof {
            use_type_invariant(self);
        }
        Multihash { code: self.code, digest: copy_bytes(self.digest.as_slice()) }
    }
}

impl Multihash {
    #[verifier::type_invariant]
    spec fn inv(&self) -> bool {
        self.digest@.len() <= MAX_DIGEST_LEN
    }

    /// Wraps a digest with the code of its hash function. `None` when the
    /// digest is longer than [`MAX_DIGEST_LEN`] bytes.
    pub fn wrap(code: u64, digest: &[u8]) -> (wrapped: Option<Multihash>)
        ensures
            wrapped is Some <==> digest@.len() <= MAX_DIGEST_LEN,
            wrapped matches Some(m) ==> m@ == (MultihashView { code, digest: digest@ }),
    {
        if digest.len() > MAX_DIGEST_LEN {
            None
        } else {
            Some(Multihash { code, digest: copy_bytes(digest) })
        }
    }

    /// The code of the hash function.
    pub fn code(&self) -> (code: u64)
        ensures
            code == self@.code,
    {
        self.code
    }

    /// The number of digest bytes.
    pub fn size(&self) -> (size: usize)
        ensures
            size == self@.digest.len(),
            size <= MAX_DIGEST_LEN,
    {
        proof {
            use_type_invariant(self);
        }
        self.digest.len()
    }

    /// The digest bytes.
    pub fn digest(&self) -> (digest: &[u8])
        ensures
            digest@ == self@.digest,
    {
        self.digest.as_slice()
    }

    /// Whether two hashes have the same code and the same digest.
    pub fn same(&self, other: &Multihash) -> (same: bool)
        ensures
            same == (self@ == other@),
    {
        self.code == other.code && same_bytes(self.digest.as_slice(), other.digest.as_slice())
    }

    /// The binary form of the hash.
    pub fn to_bytes(&self) -> (bytes: Vec<u8>)
        ensures
            bytes@ == multihash_encoding(self@.code, self@.digest),
    {
        proof {
            use_type_invariant(self);
        }
        encode(self.code, self.digest.as_slice())
    }

    /// Reads a hash from its binary form. `None` where `bytes` is not the
    /// binary form of a hash.
    pub fn from_bytes(bytes: &[u8]) -> (parsed: Option<Multihash>)
        ensures
            parsed is Some <==> multihash_decoding(bytes@) is Some,
            parsed matches Some(m) ==> multihash_decoding(bytes@) == Some(m@),
    {
        match decode(bytes) {
            Some((code, digest)) => Some(Multihash { code, digest }),
            None => None,
        }
    }

    /// The SHA-256 hash of `input`.
    pub fn sha2_256(input: &[u8]) -> (hash: Multihash)
        ensures
            hash@ == (MultihashView { code: SHA2_256, digest: sha2_256_digest(input@) }),
    {
        Multihash { code: SHA2_256, digest: sha2_256(input) }
    }
}

/// `multihash::Multihash::wrap` followed by `to_bytes`: the binary form of a
/// code and a digest. The digest must fit in the crate's 64 bytes, else `wrap`
/// fails. The result is named, not described.
#[verifier::external_body]
fn encode(code: u64, digest: &[u8]) -> (bytes: Vec<u8>)
    requires
        digest@.len() <= MAX_DIGEST_LEN,
    ensures
        bytes@ == multihash_encoding(code, digest@),
{
    multihash::Multihash::wrap(code, digest).unwrap().to_bytes()
}

/// `multihash::Multihash::from_bytes`: the code and digest read from a binary
/// form, `None` for every error. The result is named; what is read holds at
/// most 64 bytes of digest, the size the crate allocates.
#[verifier::external_body]
fn decode(bytes: &[u8]) -> (parsed: Option<(u64, Vec<u8>)>)
    ensures
        parsed is Some <==> multihash_decoding(bytes@) is Some,
        parsed matches Some(m) ==> multihash_decoding(bytes@) == Some(
            MultihashView { code: m.0, digest: m.1@ },
        ) && m.1@.len() <= MAX_DIGEST_LEN,
{
    match multihash::Multihash::from_bytes(bytes) {
        Ok(m) => Some((m.code(), m.digest().to_vec())),
        Err(_) => None,
    }
}

/// `multihash::Code::Sha2_256.digest`: the SHA-256 digest, which has 32 bytes.
#[verifier::external_body]
fn sha2_256(input: &[u8]) -> (digest: Vec<u8>)
    ensures
        digest@ == sha2_256_digest(input@),
        digest@.len() == 32,
{
    multihash::MultihashDigest::digest(&multihash::Code::Sha2_256, input).digest().to_vec()
}

} // verus!
