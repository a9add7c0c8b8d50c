//! The identity of a peer: a hash of its public key.

use crate::bytes::{copy_bytes, same_bytes};
use crate::hash::{
    multihash_decoding, multihash_encoding, sha2_256_digest, Multihash, MultihashView, IDENTITY,
    SHA2_256,
};
use std::str::FromStr;
use vstd::prelude::*;
use vstd::std_specs::cmp::PartialEqSpecImpl;

verus! {

/// Public keys whose encoding is at most this long are used as the peer id
/// as they are, under the identity code; longer ones are hashed.
pub const MAX_INLINE_KEY_LENGTH: usize = 42;

/// The text that `bs58` gives to `bytes` in the Bitcoin alphabet.
pub uninterp spec fn base58_encoding(bytes: Seq<u8>) -> Seq<char>;

/// The bytes that `bs58` reads from `text`, where it reads any.
pub uninterp spec fn base58_decoding(text: Seq<char>) -> Option<Seq<u8>>;

/// `bs58::decode::Error`, as a type whose inside is not looked into: the
/// error is carried from the decoder to the caller.
#[verifier::external_type_specification]
#[verifier::external_body]
pub struct ExBase58DecodeError(bs58::decode::Error);

/// Whether a hash can identify a peer: a SHA-256 hash, or an identity hash
/// of at most [`MAX_INLINE_KEY_LENGTH`] bytes.
pub open spec fn identifies_peer(hash: MultihashView) -> bool {
    hash.code == SHA2_256 || (hash.code == IDENTITY && hash.digest.len() <= MAX_INLINE_KEY_LENGTH)
}

/// The hash of a key encoding under the function that `code` names: the
/// encoding itself for [`IDENTITY`], its SHA-256 digest for any other code.
pub open spec fn key_hash(code: u64, encoding: Seq<u8>) -> MultihashView {
    if code == IDENTITY {
        MultihashView { code: IDENTITY, digest: encoding }
    } else {
        MultihashView { code: SHA2_256, digest: sha2_256_digest(encoding) }
    }
}

/// The peer id of the key with the given encoding.
pub open spec fn peer_of_key(encoding: Seq<u8>) -> MultihashView {
    if encoding.len() <= MAX_INLINE_KEY_LENGTH {
        key_hash(IDENTITY, encoding)
    } else {
        key_hash(SHA2_256, encoding)
    }
}

/// Whether `parsed` is what reading a peer id from `text` gives: the peer
/// whose binary form the base-58 text stands for; the decoder's error where
/// the text is not base-58; the other error where the bytes are not the
/// binary form of a hash that identifies a peer.
pub open spec fn reads_as(text: Seq<char>, parsed: Result<PeerId, ParseError>) -> bool {
    match base58_decoding(text) {
        None => parsed matches Err(e) && e is B58,
        Some(bytes) => match multihash_decoding(bytes) {
            Some(hash) if identifies_peer(hash) => parsed matches Ok(peer) && peer@ == hash,
            _ => parsed matches Err(e) && e is MultiHash,
        },
    }
}

/// A public key, held in its protobuf encoding.
#[derive(Debug)]
pub struct PublicKey {
    encoding: Vec<u8>,
}

impl View for PublicKey {
    type V = Seq<u8>;

    closed spec fn view(&self) -> Seq<u8> {
        self.encoding@
    }
}

impl Clone for PublicKey {
    fn clone(&self) -> (copy: PublicKey)
        ensures
            copy@ == self@,
    {
        PublicKey { encoding: copy_bytes(self.encoding.as_slice()) }
    }
}

impl PublicKey {
    /// The key whose protobuf encoding is `encoding`.
    pub fn from_protobuf_encoding(encoding: Vec<u8>) -> (key: PublicKey)
        ensures
            key@ == encoding@,
    {
        PublicKey { encoding }
    }

    /// The protobuf encoding of the key.
    pub fn into_protobuf_encoding(self) -> (encoding: Vec<u8>)
        ensures
            encoding@ == self@,
    {
        self.encoding
    }

    /// The peer id of the key.
    pub fn into_peer_id(self) -> (peer: PeerId)
        ensures
            peer@ == peer_of_key(self@),
    {
        PeerId::from_public_key(self)
    }
}

/// Why a text is not a peer id.
#[derive(Debug)]
pub enum ParseError {
    /// The text is not base-58.
    B58(bs58::decode::Error),
    /// The bytes are not a hash that identifies a peer.
    MultiHash,
}

/// Identifier of a peer of the network: a hash of the peer's public key.
#[derive(Debug, Hash)]
pub struct PeerId {
    multihash: Multihash,
}

impl View for PeerId {
    type V = MultihashView;

    closed spec fn view(&self) -> MultihashView {
        self.multihash@
    }
}

impl Clone for PeerId {
    fn clone(&self) -> (copy: PeerId)
        ensures
            copy@ == self@,
    {
        proof {
            use_type_invariant(self);
        }
        PeerId { multihash: self.multihash.clone() }
    }
}

impl PartialEq for PeerId {
    fn eq(&self, other: &PeerId) -> (equal: bool) {
        self.multihash.same(&other.multihash)
    }
}

impl PartialEqSpecImpl for PeerId {
    open spec fn obeys_eq_spec() -> bool {
        true
    }

    open spec fn eq_spec(&self, other: &PeerId) -> bool {
        self@ == other@
    }
}

impl Eq for PeerId {

}

impl FromStr for PeerId {
    type Err = ParseError;

    fn from_str(s: &str) -> (parsed: Result<PeerId, ParseError>)
        ensures
            reads_as(s@, parsed),
    {
        PeerId::from_base58(s)
    }
}

impl PeerId {
    #[verifier::type_invariant]
    spec fn inv(&self) -> bool {
        identifies_peer(self.multihash@)
    }

    /// Builds a `PeerId` from a public key: the encoded key itself where it
    /// is short, its SHA-256 hash where it is not.
    pub fn from_public_key(key: PublicKey) -> (peer: PeerId)
        ensures
            peer@ == peer_of_key(key@),
            identifies_peer(peer@),
    {
        let encoding = key.into_protobuf_encoding();
        if encoding.len() <= MAX_INLINE_KEY_LENGTH {
            PeerId { multihash: Multihash::wrap(IDENTITY, encoding.as_slice()).unwrap() }
        } else {
            PeerId { multihash: Multihash::sha2_256(encoding.as_slice()) }
        }
    }

    /// Checks whether `data` is the binary form of a peer id. If so, returns
    /// the `PeerId`. If not, hands the bytes back: `data` where it holds no
    /// hash, else the binary form of the hash that it holds.
    pub fn from_bytes(data: Vec<u8>) -> (parsed: Result<PeerId, Vec<u8>>)
        ensures
            match multihash_decoding(data@) {
                Some(hash) => if identifies_peer(hash) {
                    parsed matches Ok(peer) && peer@ == hash
                } else {
                    parsed matches Err(bytes) && bytes@ == multihash_encoding(
                        hash.code,
                        hash.digest,
                    )
                },
                None => parsed matches Err(bytes) && bytes@ == data@,
            },
    {
        match Multihash::from_bytes(data.as_slice()) {
            Some(multihash) => match PeerId::from_multihash(multihash) {
                Ok(peer) => Ok(peer),
                Err(multihash) => Err(multihash.to_bytes()),
            },
            None => Err(data),
        }
    }

    /// Turns a hash into a `PeerId`. A hash that cannot identify a peer (its
    /// code is neither SHA-256 nor identity, or it is an identity hash of
    /// more than [`MAX_INLINE_KEY_LENGTH`] bytes) is handed back.
    pub fn from_multihash(multihash: Multihash) -> (made: Result<PeerId, Multihash>)
        ensures
            identifies_peer(multihash@) ==> (made matches Ok(peer) && peer@ == multihash@),
            !identifies_peer(multihash@) ==> (made matches Err(hash) && hash@ == multihash@),
    {
        let code = multihash.code();
        if code == SHA2_256 || (code == IDENTITY && multihash.size() <= MAX_INLINE_KEY_LENGTH) {
            Ok(PeerId { multihash })
        } else {
            Err(multihash)
        }
    }

    /// A random peer id, for walking a DHT at random or for tests: an
    /// identity hash of 32 random bytes.
    pub fn random() -> (peer: PeerId)
        ensures
            peer@.code == IDENTITY,
            peer@.digest.len() == 32,
            identifies_peer(peer@),
    {
        let bytes = random_bytes();
        PeerId { multihash: Multihash::wrap(IDENTITY, bytes.as_slice()).unwrap() }
    }

    /// The binary form of this `PeerId`.
    pub fn into_bytes(self) -> (bytes: Vec<u8>)
        ensures
            bytes@ == multihash_encoding(self@.code, self@.digest),
    {
        self.multihash.to_bytes()
    }

    /// The binary form of this `PeerId`.
    pub fn to_bytes(&self) -> (bytes: Vec<u8>)
        ensures
            bytes@ == multihash_encoding(self@.code, self@.digest),
    {
        self.multihash.to_bytes()
    }

    /// The base-58 text of the binary form of this `PeerId`.
    pub fn to_base58(&self) -> (text: String)
        ensures
            text@ == base58_encoding(multihash_encoding(self@.code, self@.digest)),
    {
        let bytes = self.to_bytes();
        base58_encode(bytes.as_slice())
    }

    /// Reads a `PeerId` from base-58 text.
    pub fn from_base58(text: &str) -> (parsed: Result<PeerId, ParseError>)
        ensures
            reads_as(text@, parsed),
    {
        match base58_decode(text) {
            Err(error) => Err(ParseError::B58(error)),
            Ok(bytes) => match PeerId::from_bytes(bytes) {
                Ok(peer) => Ok(peer),
                Err(_) => Err(ParseError::MultiHash),
            },
        }
    }

    /// Whether this `PeerId` is the hash of `public_key` under the hash
    /// function that this `PeerId` was made with. The answer is always
    /// `Some`.
    pub fn is_public_key(&self, public_key: &PublicKey) -> (answer: Option<bool>)
        ensures
            answer == Some(self@ == key_hash(self@.code, public_key@)),
    {
        proof {
            use_type_invariant(self);
        }
        let encoding = public_key.clone().into_protobuf_encoding();
        if self.multihash.code() == IDENTITY {
            Some(same_bytes(self.multihash.digest(), encoding.as_slice()))
        } else {
            let hashed = Multihash::sha2_256(encoding.as_slice());
            Some(self.multihash.same(&hashed))
        }
    }

    /// Whether two peer ids are the same hash.
    pub fn same(&self, other: &PeerId) -> (same: bool)
        ensures
            same == (self@ == other@),
    {
        self.multihash.same(&other.multihash)
    }
}

/// `rand::thread_rng().gen::<[u8; 32]>()`: 32 bytes from the thread's
/// generator. Only their number is known.
#[verifier::external_body]
fn random_bytes() -> (bytes: Vec<u8>)
    ensures
        bytes@.len() == 32,
{
    rand::Rng::gen::<[u8; 32]>(&mut rand::thread_rng()).to_vec()
}

/// `bs58::encode(..).into_string()`: the base-58 text of `bytes` in the
/// default alphabet. The result is named, not described.
#[verifier::external_body]
fn base58_encode(bytes: &[u8]) -> (text: String)
    ensures
        text@ == base58_encoding(bytes@),
{
    bs58::encode(bytes).into_string()
}

/// `bs58::decode(..).into_vec()`: the bytes that the base-58 text stands
/// for, or the crate's error. The result is named, not described.
#[verifier::external_body]
fn base58_decode(text: &str) -> (decoded: Result<Vec<u8>, bs58::decode::Error>)
    ensures
        decoded is Ok <==> base58_decoding(text@) is Some,
        decoded matches Ok(bytes) ==> base58_decoding(text@) == Some(bytes@),
{
    bs58::decode(text).into_vec()
}

} // verus!
