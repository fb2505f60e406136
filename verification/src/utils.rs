//! Symmetric authenticated encryption of credential strings.
//!
//! The ciphertext layout is `base64(nonce ++ sealed)`, where the 96-bit nonce
//! is the first 12 bytes of the SHA-256 digest of the plaintext and `sealed`
//! is the AES-256-GCM encryption of the plaintext under that nonce (16-byte
//! tag appended).  Deriving the nonce from the plaintext makes encryption a
//! pure function of key and plaintext, so equality lookups on stored
//! ciphertext work without decrypting every record.

use aes_gcm::KeyInit;
use aes_gcm::aead::Aead;
use base64::Engine;
use sha2::Digest;
use vstd::prelude::*;
use vstd::slice::slice_subrange;
use vstd::utf8::decode_utf8;
use vstd::utf8::encode_scalar;
use vstd::utf8::encode_utf8;
use vstd::utf8::valid_utf8;

verus! {

broadcast use {
    vstd::utf8::encode_utf8_valid_utf8,
    vstd::utf8::encode_utf8_decode_utf8,
    vstd::utf8::decode_utf8_encode_utf8,
};

/// The SHA-256 digest of a byte sequence.
pub uninterp spec fn sha256_of(data: Seq<u8>) -> Seq<u8>;

/// The AES-256-GCM sealing (ciphertext with appended tag) of `plain` under
/// `key` and `nonce`.
pub uninterp spec fn aead_seal(key: Seq<u8>, nonce: Seq<u8>, plain: Seq<u8>) -> Seq<u8>;

/// The standard (padded) base64 encoding of a byte sequence.
pub uninterp spec fn b64_of(data: Seq<u8>) -> Seq<char>;

/// Inputs longer than this are not encrypted; it keeps every sealed message
/// far below the AES-GCM per-message limit of about 2^36 bytes.
pub const MAX_MESSAGE_BYTES: u64 = 0x1_0000_0000;

/// Relies on `sha2::Sha256::digest`: the digest is 32 bytes and depends on
/// the input bytes alone.
#[verifier::external_body]
fn sha256(data: &[u8]) -> (r: Vec<u8>)
    ensures
        r@ == sha256_of(data@),
        r@.len() == 32,
{
    sha2::Sha256::digest(data).to_vec()
}

/// Relies on `aes_gcm::Aes256Gcm` (through `aead::Aead::encrypt`): for a
/// fixed 32-byte key and 12-byte nonce the sealed output is a function of the
/// plaintext alone and is 16 bytes (the tag) longer than it.  The call cannot
/// fail for messages below the AES-GCM length limit.
#[verifier::external_body]
fn aes256_gcm_seal(key: &[u8], nonce: &[u8], plain: &[u8]) -> (r: Vec<u8>)
    requires
        key@.len() == 32,
        nonce@.len() == 12,
        plain@.len() < MAX_MESSAGE_BYTES,
    ensures
        r@ == aead_seal(key@, nonce@, plain@),
        r@.len() == plain@.len() + 16,
{
    let key = aes_gcm::Key::<aes_gcm::Aes256Gcm>::try_from(key).unwrap();
    let nonce = aes_gcm::Nonce::<aes_gcm::aead::consts::U12>::try_from(nonce).unwrap();
    let cipher = aes_gcm::Aes256Gcm::new(&key);
    cipher.encrypt(&nonce, plain).unwrap()
}

/// Relies on `aes_gcm::Aes256Gcm` (through `aead::Aead::decrypt`): opening
/// succeeds exactly on byte strings sealed under the same key and nonce, and
/// returns the plaintext that was sealed.
#[verifier::external_body]
fn aes256_gcm_open(key: &[u8], nonce: &[u8], sealed: &[u8]) -> (r: Result<Vec<u8>, ()>)
    requires
        key@.len() == 32,
        nonce@.len() == 12,
    ensures
        forall|p: Seq<u8>| sealed@ == aead_seal(key@, nonce@, p) ==> r is Ok && r.unwrap()@ == p,
        r is Ok ==> sealed@ == aead_seal(key@, nonce@, r.unwrap()@),
{
    let key = aes_gcm::Key::<aes_gcm::Aes256Gcm>::try_from(key).unwrap();
    let nonce = aes_gcm::Nonce::<aes_gcm::aead::consts::U12>::try_from(nonce).unwrap();
    let cipher = aes_gcm::Aes256Gcm::new(&key);
    cipher.decrypt(&nonce, sealed).map_err(|_| ())
}

/// Relies on `base64::engine::general_purpose::STANDARD.encode`: the
/// encoding is a function of the input bytes alone, four characters for
/// every started group of three bytes (padding included).
#[verifier::external_body]
fn b64_encode_bytes(data: &[u8]) -> (r: String)
    ensures
        r@ == b64_of(data@),
        r@.len() == 4 * ((data@.len() + 2) / 3),
{
    base64::engine::general_purpose::STANDARD.encode(data)
}

/// Relies on `base64::engine::general_purpose::STANDARD.decode`: the engine
/// requires canonical padding and rejects set trailing bits, so it accepts
/// exactly the canonical encodings and inverts the encoding on them.
#[verifier::external_body]
fn b64_decode_str(s: &str) -> (r: Result<Vec<u8>, ()>)
    ensures
        forall|b: Seq<u8>| b64_of(b) == s@ ==> r is Ok && r.unwrap()@ == b,
        r is Ok ==> b64_of(r.unwrap()@) == s@,
{
    base64::engine::general_purpose::STANDARD.decode(s).map_err(|_| ())
}

/// Relies on `String::from_utf8`: it succeeds exactly on valid UTF-8 and
/// returns the decoded characters.
#[verifier::external_body]
fn bytes_to_string(bytes: Vec<u8>) -> (r: Result<String, ()>)
    ensures
        r is Ok <==> valid_utf8(bytes@),
        r is Ok ==> r.unwrap()@ == decode_utf8(bytes@),
{
    String::from_utf8(bytes).map_err(|_| ())
}

/// A character that the hex alphabet accepts, in either case.
pub open spec fn is_hex_digit(c: char) -> bool {
    ('0' <= c && c <= '9') || ('a' <= c && c <= 'f') || ('A' <= c && c <= 'F')
}

/// The value of one hex digit.
pub open spec fn hex_digit_val(c: char) -> int
    recommends
        is_hex_digit(c),
{
    if '0' <= c && c <= '9' {
        c as int - '0' as int
    } else if 'a' <= c && c <= 'f' {
        c as int - 'a' as int + 10
    } else {
        c as int - 'A' as int + 10
    }
}

/// The bytes spelled by a sequence of hex digit pairs.
pub open spec fn hex_bytes(s: Seq<char>) -> Seq<u8>
    decreases s.len(),
{
    if s.len() < 2 {
        seq![]
    } else {
        seq![(hex_digit_val(s[0]) * 16 + hex_digit_val(s[1])) as u8] + hex_bytes(s.skip(2))
    }
}

/// A decoded hex string yields one byte per digit pair.
pub proof fn lemma_hex_bytes_len(s: Seq<char>)
    requires
        s.len() % 2 == 0,
    ensures
        hex_bytes(s).len() == s.len() / 2,
    decreases s.len(),
{
    if s.len() >= 2 {
        lemma_hex_bytes_len(s.skip(2));
    }
}

/// Relies on `hex::decode`: it succeeds exactly on strings made of an even
/// number of hex digits (either case) and returns the spelled bytes.
#[verifier::external_body]
fn hex_decode_str(s: &str) -> (r: Result<Vec<u8>, ()>)
    ensures
        r is Ok <==> (s@.len() % 2 == 0 && forall|i: int| 0 <= i < s@.len() ==> is_hex_digit(
            s@[i],
        )),
        r is Ok ==> r.unwrap()@ == hex_bytes(s@),
{
    hex::decode(s).map_err(|_| ())
}

/// The nonce derived from a plaintext: the first 12 bytes of its digest.
pub open spec fn nonce_of(plain_bytes: Seq<u8>) -> Seq<u8> {
    sha256_of(plain_bytes).take(12)
}

/// The encoded ciphertext obtained by sealing `plain` under `key` with an
/// arbitrary `nonce`.  Decryption accepts any such string; encryption always
/// picks `nonce_of` of the plaintext bytes.
pub open spec fn sealed_of(key: Seq<u8>, nonce: Seq<u8>, plain: Seq<char>) -> Seq<char> {
    b64_of(nonce + aead_seal(key, nonce, encode_utf8(plain)))
}

/// The ciphertext that `Cipher::encrypt` produces for `plain` under `key`.
pub open spec fn encryption_of(key: Seq<u8>, plain: Seq<char>) -> Seq<char> {
    sealed_of(key, nonce_of(encode_utf8(plain)), plain)
}

/// Digests are 32 bytes long; the fact is established by every call of the
/// digest wrapper and carried through contracts that need it.
pub open spec fn digest_ok(plain_bytes: Seq<u8>) -> bool {
    sha256_of(plain_bytes).len() == 32
}

/// The single, deliberately coarse decryption failure: authentication
/// failure, malformed input and invalid encoding are not distinguished.
#[derive(Clone, Copy, Debug, PartialEq, Eq, Structural)]
pub struct DecryptError;

/// Rejected encryption key material: not hex, or not exactly 32 bytes.
#[derive(Clone, Copy, Debug, PartialEq, Eq, Structural)]
pub struct KeyError;

/// Appends the bytes of `src` to `dst`.
fn push_bytes(dst: &mut Vec<u8>, src: &[u8])
    ensures
        final(dst)@ == old(dst)@ + src@,
{
    let n = src.len();
    let mut i: usize = 0;
    while i < n
        invariant
            i <= n,
            n == src@.len(),
            dst@ == old(dst)@ + src@.take(i as int),
        decreases n - i,
    {
        let b = *vstd::slice::slice_index_get(src, i);
        dst.push(b);
        proof {
            assert(dst@ =~= old(dst)@ + src@.take(i as int + 1)) by {
                assert(src@.take(i as int + 1) =~= src@.take(i as int).push(src@[i as int]));
            }
        }
        i = i + 1;
    }
    proof {
        assert(src@.take(n as int) =~= src@);
    }
}

/// The process-wide symmetric cipher, constructed once from configuration.
pub struct Cipher {
    key: Vec<u8>,
}

impl Cipher {
    /// The raw key bytes.
    pub closed spec fn spec_key(&self) -> Seq<u8> {
        self.key@
    }

    /// A well-formed cipher holds a 256-bit key.
    pub open spec fn wf(&self) -> bool {
        self.spec_key().len() == 32
    }

    /// Builds a cipher from 32 raw key bytes.
    pub fn new(key: Vec<u8>) -> (r: Result<Cipher, KeyError>)
        ensures
            r is Ok <==> key@.len() == 32,
            r is Ok ==> r.unwrap().spec_key() == key@ && r.unwrap().wf(),
    {
        if key.len() == 32 {
            Ok(Cipher { key })
        } else {
            Err(KeyError)
        }
    }

    /// Builds a cipher from the hex-encoded key found in configuration.
    pub fn from_hex(hex_key: &str) -> (r: Result<Cipher, KeyError>)
        ensures
            r is Ok <==> (hex_key@.len() == 64 && forall|i: int|
                0 <= i < hex_key@.len() ==> is_hex_digit(hex_key@[i])),
            r is Ok ==> r.unwrap().spec_key() == hex_bytes(hex_key@) && r.unwrap().wf(),
    {
        match hex_decode_str(hex_key) {
            Ok(bytes) => {
                proof {
                    lemma_hex_bytes_len(hex_key@);
                }
                if bytes.len() == 32 {
                    Ok(Cipher { key: bytes })
                } else {
                    Err(KeyError)
                }
            },
            Err(_) => Err(KeyError),
        }
    }

    /// Authenticated encryption; a pure, deterministic function of the key
    /// and the plaintext.
    pub fn encrypt(&self, plain: &str) -> (r: String)
        requires
            self.wf(),
            encode_utf8(plain@).len() < MAX_MESSAGE_BYTES,
        ensures
            r@ == encryption_of(self.spec_key(), plain@),
            r@.len() == 4 * ((encode_utf8(plain@).len() + 30) / 3),
            digest_ok(encode_utf8(plain@)),
    {
        let pb = plain.as_bytes();
        let digest = sha256(pb);
        let nonce = slice_subrange(digest.as_slice(), 0, 12);
        let sealed = aes256_gcm_seal(self.key.as_slice(), nonce, pb);
        let mut combined: Vec<u8> = Vec::new();
        push_bytes(&mut combined, nonce);
        push_bytes(&mut combined, sealed.as_slice());
        let out = b64_encode_bytes(combined.as_slice());
        proof {
            assert(nonce@ =~= nonce_of(encode_utf8(plain@)));
            assert(combined@ =~= nonce@ + sealed@);
        }
        out
    }

    /// Authenticated decryption.  Inverts `encrypt` on every ciphertext it
    /// produced; succeeds exactly on well-formed sealed messages under this
    /// key; fails closed with a single generic error otherwise.
    pub fn decrypt(&self, encoded: &str) -> (r: Result<String, DecryptError>)
        requires
            self.wf(),
        ensures
            forall|p: Seq<char>|
                digest_ok(encode_utf8(p)) && encoded@ == encryption_of(self.spec_key(), p)
                    ==> r is Ok && r.unwrap()@ == p,
            r is Ok <==> exists|nonce: Seq<u8>, p: Seq<char>|
                nonce.len() == 12 && encoded@ == sealed_of(self.spec_key(), nonce, p),
    {
        let ghost key = self.spec_key();
        let v = match b64_decode_str(encoded) {
            Ok(v) => v,
            Err(_) => {
                proof {
                    assert forall|nonce: Seq<u8>, p: Seq<char>|
                        !(nonce.len() == 12 && encoded@ == sealed_of(key, nonce, p)) by {
                        if encoded@ == sealed_of(key, nonce, p) {
                            assert(b64_of(nonce + aead_seal(key, nonce, encode_utf8(p)))
                                == encoded@);
                        }
                    }
                }
                return Err(DecryptError);
            },
        };
        if v.len() < 12 {
            proof {
                assert forall|nonce: Seq<u8>, p: Seq<char>|
                    !(nonce.len() == 12 && encoded@ == sealed_of(key, nonce, p)) by {
                    if nonce.len() == 12 && encoded@ == sealed_of(key, nonce, p) {
                        assert(b64_of(nonce + aead_seal(key, nonce, encode_utf8(p))) == encoded@);
                        assert(v@ == nonce + aead_seal(key, nonce, encode_utf8(p)));
                    }
                }
            }
            return Err(DecryptError);
        }
        let nonce = slice_subrange(v.as_slice(), 0, 12);
        let sealed = slice_subrange(v.as_slice(), 12, v.len());
        proof {
            assert(v@ =~= nonce@ + sealed@);
        }
        let pt = match aes256_gcm_open(self.key.as_slice(), nonce, sealed) {
            Ok(pt) => pt,
            Err(_) => {
                proof {
                    assert forall|n2: Seq<u8>, p: Seq<char>|
                        !(n2.len() == 12 && encoded@ == sealed_of(key, n2, p)) by {
                        if n2.len() == 12 && encoded@ == sealed_of(key, n2, p) {
                            assert(b64_of(n2 + aead_seal(key, n2, encode_utf8(p))) == encoded@);
                            assert(v@ == n2 + aead_seal(key, n2, encode_utf8(p)));
                            assert(nonce@ =~= n2);
                            assert(sealed@ =~= aead_seal(key, n2, encode_utf8(p)));
                        }
                    }
                }
                return Err(DecryptError);
            },
        };
        match bytes_to_string(pt) {
            Ok(s) => {
                proof {
                    assert(exists|nonce2: Seq<u8>, p: Seq<char>|
                        nonce2.len() == 12 && encoded@ == sealed_of(key, nonce2, p)) by {
                        assert(nonce@.len() == 12 && encoded@ == sealed_of(key, nonce@, s@));
                    }
                    assert forall|p: Seq<char>|
                        digest_ok(encode_utf8(p)) && encoded@ == encryption_of(key, p)
                            implies s@ == p by {
                        let n2 = nonce_of(encode_utf8(p));
                        assert(v@ == n2 + aead_seal(key, n2, encode_utf8(p)));
                        assert(nonce@ =~= n2);
                        assert(sealed@ =~= aead_seal(key, n2, encode_utf8(p)));
                    }
                }
                Ok(s)
            },
            Err(_) => {
                proof {
                    assert forall|n2: Seq<u8>, p: Seq<char>|
                        !(n2.len() == 12 && encoded@ == sealed_of(key, n2, p)) by {
                        if n2.len() == 12 && encoded@ == sealed_of(key, n2, p) {
                            assert(v@ == n2 + aead_seal(key, n2, encode_utf8(p)));
                            assert(nonce@ =~= n2);
                            assert(sealed@ =~= aead_seal(key, n2, encode_utf8(p)));
                        }
                    }
                }
                Err(DecryptError)
            },
        }
    }
}

/// Law: encryption is deterministic.  The ciphertext is a function of the
/// key and the plaintext alone, so two encryptions of one plaintext under
/// one key agree; this is what makes equality lookups on stored ciphertext
/// sound.
pub proof fn lemma_encrypt_deterministic(
    key: Seq<u8>,
    plain: Seq<char>,
    c1: Seq<char>,
    c2: Seq<char>,
)
    requires
        c1 == encryption_of(key, plain),
        c2 == encryption_of(key, plain),
    ensures
        c1 == c2,
{
}

/// A UTF-8 encoding takes between one and four bytes per character.
pub proof fn lemma_encode_utf8_len_bound(s: Seq<char>)
    ensures
        s.len() <= encode_utf8(s).len() <= 4 * s.len(),
    decreases s.len(),
{
    if s.len() > 0 {
        lemma_encode_utf8_len_bound(s.drop_first());
        assert(1 <= encode_scalar(s[0] as u32).len() <= 4);
    }
}

} // verus!
