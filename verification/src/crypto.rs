//! Keys and tokens: the key pair of a feed, the discovery key under which
//! its peers meet, and the token of a process. The hashing and the key
//! generation are `blake2_rfc`'s, `sha2`'s and `ed25519_dalek`'s.

use crate::encoding::{base64_encode, base64_text};
use blake2_rfc::blake2b::blake2b;
use ed25519_dalek::Keypair;
use rand::rngs::OsRng;
use sha2::{Digest, Sha256, Sha512};
use vstd::prelude::*;
use vstd::slice::{slice_subrange, slice_to_vec};
use vstd::utf8::*;

verus! {

/// Number of bytes in each half of a key pair.
pub const KEY_LEN: usize = 32;

/// Number of bytes in a discovery key.
pub const DISCOVERY_KEY_LEN: usize = 32;

/// Longest key that BLAKE2b takes.
pub const MAX_HASH_KEY_LEN: usize = 64;

/// The BLAKE2b hash of `data` under `key`, `len` bytes long, as
/// `blake2_rfc` computes it.
pub uninterp spec fn blake2b_hash(len: nat, key: Seq<u8>, data: Seq<u8>) -> Seq<u8>;

/// The SHA-256 digest of `data`, as `sha2` computes it.
pub uninterp spec fn sha256_hash(data: Seq<u8>) -> Seq<u8>;

/// The text that is hashed under a public key to get its discovery key:
/// `hypercore`.
pub open spec fn discovery_key_name() -> Seq<u8> {
    seq![
        'h' as u8, 'y' as u8, 'p' as u8, 'e' as u8, 'r' as u8, 'c' as u8,
        'o' as u8, 'r' as u8, 'e' as u8,
    ]
}

/// The discovery key of a public key.
pub open spec fn discovery_key_of(public_key: Seq<u8>) -> Seq<u8> {
    blake2b_hash(DISCOVERY_KEY_LEN as nat, public_key, discovery_key_name())
}

/// The token made from a seed text: the base64 text of the seed's SHA-256
/// digest.
pub open spec fn token_of(seed: Seq<char>) -> Seq<char> {
    base64_text(sha256_hash(encode_utf8(seed)))
}

/// Trusted: `blake2_rfc::blake2b::blake2b`.
///
/// Claims that the result is the crate's hash and has the length asked for.
/// The crate panics on a length outside 1 to 64, on a key of more than 64
/// bytes and when its 64-bit byte counter, which starts at 128, overflows;
/// `requires` leaves those out.
#[verifier::external_body]
fn blake2b_keyed(len: usize, key: &[u8], data: &[u8]) -> (hash: Vec<u8>)
    requires
        1 <= len <= 64,
        key@.len() <= 64,
        data@.len() + 128 <= u64::MAX,
    ensures
        hash@ == blake2b_hash(len as nat, key@, data@),
        hash@.len() == len,
{
    blake2b(len, key, data).as_bytes().to_vec()
}

/// Trusted: `sha2::Sha256::digest`.
///
/// Claims that the result is the crate's digest and has 32 bytes.
#[verifier::external_body]
fn sha256(data: &[u8]) -> (hash: Vec<u8>)
    ensures
        hash@ == sha256_hash(data@),
        hash@.len() == 32,
{
    Sha256::digest(data).to_vec()
}

/// Trusted: `rand::rngs::OsRng::new` and `ed25519_dalek::Keypair::generate`
/// with SHA-512, then `Keypair::to_bytes`.
///
/// The bytes come from the operating system's random source, so nothing is
/// claimed of them; `None` means that the source could not be opened.
#[verifier::external_body]
fn fresh_keypair_bytes() -> (bytes: Option<[u8; 64]>)
{
    let mut csprng = OsRng::new().ok()?;
    Some(Keypair::generate::<Sha512, _>(&mut csprng).to_bytes())
}

/// The two halves of an Ed25519 key pair.
#[derive(Clone, Debug, PartialEq, Eq)]
pub struct KeyPair {
    pub public: Vec<u8>,
    pub secret: Vec<u8>,
}

impl KeyPair {
    /// Both halves have 32 bytes.
    pub open spec fn wf(&self) -> bool {
        self.public@.len() == KEY_LEN && self.secret@.len() == KEY_LEN
    }

    /// Splits the 64 bytes of a key pair: the secret key comes first, the
    /// public key second.
    pub fn from_bytes(bytes: &[u8; 64]) -> (pair: KeyPair)
        ensures
            pair.wf(),
            pair.secret@ == bytes@.take(KEY_LEN as int),
            pair.public@ == bytes@.skip(KEY_LEN as int),
    {
        let all = bytes.as_slice();
        let secret = slice_to_vec(slice_subrange(all, 0, KEY_LEN));
        let public = slice_to_vec(slice_subrange(all, KEY_LEN, 64));
        KeyPair { public, secret }
    }
}

/// A new key pair from the operating system's random source, or `None`
/// where that source cannot be opened.
pub fn generate_keypair() -> (pair: Option<KeyPair>)
    ensures
        pair matches Some(p) ==> p.wf(),
{
    match fresh_keypair_bytes() {
        Some(bytes) => Some(KeyPair::from_bytes(&bytes)),
        None => None,
    }
}

/// The bytes of `hypercore`.
pub fn discovery_key_name_bytes() -> (name: Vec<u8>)
    ensures
        name@ == discovery_key_name(),
{
    vec![
        'h' as u8, 'y' as u8, 'p' as u8, 'e' as u8, 'r' as u8, 'c' as u8,
        'o' as u8, 'r' as u8, 'e' as u8,
    ]
}

/// The discovery key of a public key: the 32-byte BLAKE2b hash of
/// `hypercore` under that key.
pub fn generate_discovery_key(public_key: &[u8]) -> (key: Vec<u8>)
    requires
        public_key@.len() <= MAX_HASH_KEY_LEN,
    ensures
        key@ == discovery_key_of(public_key@),
        key@.len() == DISCOVERY_KEY_LEN,
{
    let name = discovery_key_name_bytes();
    blake2b_keyed(DISCOVERY_KEY_LEN, public_key, name.as_slice())
}

/// The token for a seed text: the base64 text of the seed's SHA-256
/// digest, 44 characters long.
pub fn token_from_seed(seed: &str) -> (token: String)
    ensures
        token@ == token_of(seed@),
        token@.len() == 44,
{
    let digest = sha256(seed.as_bytes());
    base64_encode(digest.as_slice())
}

} // verus!
