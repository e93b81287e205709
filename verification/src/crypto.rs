//! Cryptographic primitives of the handshake: X448 key agreement,
//! HKDF-SHA256 key and nonce derivation, AES-256-GCM sealing, and the
//! base64/hex codecs.  The outside computations are named; everything the
//! protocol decides about their results is verified here.
//!
//! The nonce is derived from the shared secret rather than drawn at
//! random.  That is sound only because each (secret, peer) pair encrypts a
//! single fresh challenge per session; this construction must not be
//! reused for multi-message traffic.

use vstd::prelude::*;

use crate::strutil::push_char;
use vstd::string::StringSliceAdditionalSpecFns;

use aes_gcm::aead::Aead;
use aes_gcm::aead::KeyInit;
use base64::Engine;
use sha1::Digest;

verus! {

/// Errors of the crypto layer.
#[derive(Clone, Copy, Debug, PartialEq, Eq, Structural)]
pub enum CryptoError {
    /// Key bytes of the wrong size, or refused by the key exchange.
    InvalidKeyMaterial,
    /// The cipher refused to seal (plaintext beyond its limit).
    EncryptionFailed,
    /// The ciphertext failed authentication.
    AuthenticationFailed,
}

/// The public key x448 derives from a 56-byte secret.
pub uninterp spec fn x448_public_of(secret: Seq<u8>) -> Seq<u8>;

/// The shared secret of a 56-byte secret and a peer public key; `None`
/// when the peer key is refused (wrong length or a low-order point).
pub uninterp spec fn x448_shared_of(secret: Seq<u8>, peer_public: Seq<u8>) -> Option<Seq<u8>>;

/// Whether x448 accepts these bytes as a public key.
pub uninterp spec fn x448_public_ok(bytes: Seq<u8>) -> bool;

/// The `n`-byte HKDF-SHA256 output (empty salt) for keying material and info.
pub uninterp spec fn hkdf_sha256_of(ikm: Seq<u8>, info: Seq<u8>, n: nat) -> Seq<u8>;

/// The AES-256-GCM ciphertext (empty associated data).
pub uninterp spec fn aes256gcm_seal_of(key: Seq<u8>, nonce: Seq<u8>, plaintext: Seq<u8>) -> Seq<
    u8,
>;

/// What AES-256-GCM decryption yields; `None` on tag mismatch.
pub uninterp spec fn aes256gcm_open_of(key: Seq<u8>, nonce: Seq<u8>, ciphertext: Seq<u8>) -> Option<
    Seq<u8>,
>;

/// The standard base64 encoding of the bytes.
pub uninterp spec fn b64_encode_of(bytes: Seq<u8>) -> Seq<char>;

/// The standard base64 decoding of the text; `None` when it is not valid
/// base64.
pub uninterp spec fn b64_decode_of(text: Seq<char>) -> Option<Seq<u8>>;

/// The 20-byte SHA-1 digest of the bytes.
pub uninterp spec fn sha1_of(bytes: Seq<u8>) -> Seq<u8>;

/// Relies on x448's Secret::from_bytes and PublicKey::from(&Secret): the
/// public key derived from a 56-byte secret depends on the secret bytes
/// alone, and key agreement between two derived keys is symmetric
/// (RFC 7748) — whenever both directions are accepted they agree.
#[verifier::external_body]
pub fn x448_derive_public(secret: &[u8]) -> (r: Option<Vec<u8>>)
    ensures
        r is Some <==> secret@.len() == 56,
        r matches Some(p) ==> p@ == x448_public_of(secret@) && p@.len() == 56,
        r matches Some(p) ==> forall|other: Seq<u8>|
            (#[trigger] x448_shared_of(secret@, x448_public_of(other)) is Some && x448_shared_of(
                other,
                p@,
            ) is Some) ==> x448_shared_of(secret@, x448_public_of(other)) == x448_shared_of(
                other,
                p@,
            ),
{
    let s = x448::Secret::from_bytes(secret)?;
    Some(x448::PublicKey::from(&s).as_bytes().to_vec())
}

/// Relies on x448's Secret::as_diffie_hellman: the shared secret of the
/// secret and the peer's public key, refused exactly when the secret is
/// not 56 bytes or the peer key is refused.
#[verifier::external_body]
pub fn x448_dh(secret: &[u8], peer_public: &[u8]) -> (r: Option<Vec<u8>>)
    ensures
        match r {
            Some(v) => secret@.len() == 56 && x448_shared_of(secret@, peer_public@) == Some(v@)
                && v@.len() == 56,
            None => secret@.len() != 56 || x448_shared_of(secret@, peer_public@) is None,
        },
        secret@.len() == 56 ==> r is Some == x448_shared_of(secret@, peer_public@) is Some,
{
    let s = x448::Secret::from_bytes(secret)?;
    let p = x448::PublicKey::from_bytes(peer_public)?;
    let shared = s.as_diffie_hellman(&p)?;
    Some(shared.as_bytes().to_vec())
}

/// Relies on x448's PublicKey::from_bytes: accepted exactly for 56-byte
/// values that are not low-order points.
#[verifier::external_body]
pub fn x448_public_check(bytes: &[u8]) -> (r: bool)
    ensures
        r == x448_public_ok(bytes@),
        r ==> bytes@.len() == 56,
{
    x448::PublicKey::from_bytes(bytes).is_some()
}

/// Relies on hkdf's Hkdf::<Sha256> with empty salt: a pure expansion of
/// the keying material, which cannot fail for outputs of at most 255 hash
/// blocks (8160 bytes).
#[verifier::external_body]
pub fn hkdf_sha256(ikm: &[u8], info: &[u8], n: usize) -> (r: Vec<u8>)
    requires
        n <= 8160,
    ensures
        r@ == hkdf_sha256_of(ikm@, info@, n as nat),
        r@.len() == n,
{
    let hk = hkdf::Hkdf::<sha2::Sha256>::new(None, ikm);
    let mut okm = vec![0u8; n];
    hk.expand(info, &mut okm).unwrap();
    okm
}

/// Relies on aes-gcm's Aes256Gcm encryption with empty associated data:
/// sealing is a function of key, nonce and plaintext; decrypting the
/// result under the same key and nonce yields the plaintext again; only a
/// plaintext beyond the AES-GCM limit (2^36 bytes) is refused.
#[verifier::external_body]
pub fn aes256gcm_seal(key: &[u8], nonce: &[u8], plaintext: &[u8]) -> (r: Option<Vec<u8>>)
    requires
        key@.len() == 32,
        nonce@.len() == 12,
    ensures
        r matches Some(c) ==> c@ == aes256gcm_seal_of(key@, nonce@, plaintext@) && aes256gcm_open_of(
            key@,
            nonce@,
            c@,
        ) == Some(plaintext@),
        plaintext@.len() < 0x1000000000 ==> r is Some,
{
    let cipher = aes_gcm::Aes256Gcm::new(key.into());
    let nonce = aes_gcm::Nonce::from_slice(nonce);
    cipher.encrypt(nonce, plaintext).ok()
}

/// Relies on aes-gcm's Aes256Gcm decryption with empty associated data:
/// fails exactly when the named opening does (tag mismatch).
#[verifier::external_body]
pub fn aes256gcm_open(key: &[u8], nonce: &[u8], ciphertext: &[u8]) -> (r: Option<Vec<u8>>)
    requires
        key@.len() == 32,
        nonce@.len() == 12,
    ensures
        match r {
            Some(p) => aes256gcm_open_of(key@, nonce@, ciphertext@) == Some(p@),
            None => aes256gcm_open_of(key@, nonce@, ciphertext@) is None,
        },
{
    let cipher = aes_gcm::Aes256Gcm::new(key.into());
    let nonce = aes_gcm::Nonce::from_slice(nonce);
    cipher.decrypt(nonce, ciphertext).ok()
}

/// Relies on base64's standard engine encode; decoding the result yields
/// the original bytes.
#[verifier::external_body]
pub fn b64_encode(bytes: &[u8]) -> (r: String)
    ensures
        r@ == b64_encode_of(bytes@),
        b64_decode_of(r@) == Some(bytes@),
{
    base64::engine::general_purpose::STANDARD.encode(bytes)
}

/// Relies on base64's standard engine decode.
#[verifier::external_body]
pub fn b64_decode(text: &str) -> (r: Option<Vec<u8>>)
    ensures
        match r {
            Some(v) => b64_decode_of(text@) == Some(v@),
            None => b64_decode_of(text@) is None,
        },
{
    base64::engine::general_purpose::STANDARD.decode(text).ok()
}

/// Relies on sha1's Sha1: the 20-byte digest of the input bytes.
#[verifier::external_body]
pub fn sha1_digest(bytes: &[u8]) -> (r: Vec<u8>)
    ensures
        r@ == sha1_of(bytes@),
        r@.len() == 20,
{
    let mut h = sha1::Sha1::new();
    h.update(bytes);
    h.finalize().to_vec()
}

/// The HKDF info string of this protocol, as bytes.
pub open spec fn spec_hkdf_info() -> Seq<u8> {
    seq![
        120u8, 52, 52, 56, 45, 97, 101, 115, 45, 103, 99, 109, 45, 110, 111, 45, 111, 118, 101,
        114, 104, 101, 97, 100,
    ]
}

fn hkdf_info() -> (r: Vec<u8>)
    ensures
        r@ == spec_hkdf_info(),
{
    let r: Vec<u8> = vec![
        120u8, 52, 52, 56, 45, 97, 101, 115, 45, 103, 99, 109, 45, 110, 111, 45, 111, 118, 101,
        114, 104, 101, 97, 100,
    ];
    proof {
        assert(r@ =~= spec_hkdf_info());
    }
    r
}

/// The 32-byte AES key derived from a shared secret.
pub open spec fn spec_derived_key(shared: Seq<u8>) -> Seq<u8> {
    hkdf_sha256_of(shared, spec_hkdf_info(), 44).take(32)
}

/// The 12-byte nonce derived from a shared secret.
pub open spec fn spec_derived_nonce(shared: Seq<u8>) -> Seq<u8> {
    hkdf_sha256_of(shared, spec_hkdf_info(), 44).skip(32)
}

/// The ciphertext this protocol produces for a shared secret.
pub open spec fn spec_seal_with(shared: Seq<u8>, plaintext: Seq<u8>) -> Seq<u8> {
    aes256gcm_seal_of(spec_derived_key(shared), spec_derived_nonce(shared), plaintext)
}

/// What this protocol's decryption yields for a shared secret.
pub open spec fn spec_open_with(shared: Seq<u8>, ciphertext: Seq<u8>) -> Option<Seq<u8>> {
    aes256gcm_open_of(spec_derived_key(shared), spec_derived_nonce(shared), ciphertext)
}

/// Derives the AES key and nonce from a shared secret.
fn derive_key_nonce(shared: &Vec<u8>) -> (r: (Vec<u8>, Vec<u8>))
    ensures
        r.0@ == spec_derived_key(shared@),
        r.1@ == spec_derived_nonce(shared@),
        r.0@.len() == 32,
        r.1@.len() == 12,
{
    let info = hkdf_info();
    let okm = hkdf_sha256(shared.as_slice(), info.as_slice(), 44);
    let mut key: Vec<u8> = Vec::new();
    let mut i: usize = 0;
    while i < 32
        invariant
            okm@.len() == 44,
            okm@ == hkdf_sha256_of(shared@, spec_hkdf_info(), 44),
            i <= 32,
            key@ == okm@.take(i as int),
        decreases 32 - i,
    {
        key.push(okm[i]);
        proof {
            assert(okm@.take(i + 1) == okm@.take(i as int).push(okm@[i as int]));
        }
        i = i + 1;
    }
    let mut nonce: Vec<u8> = Vec::new();
    let mut j: usize = 32;
    while j < 44
        invariant
            okm@.len() == 44,
            okm@ == hkdf_sha256_of(shared@, spec_hkdf_info(), 44),
            32 <= j <= 44,
            nonce@ == okm@.subrange(32, j as int),
        decreases 44 - j,
    {
        nonce.push(okm[j]);
        proof {
            assert(okm@.subrange(32, j + 1) == okm@.subrange(32, j as int).push(okm@[j as int]));
        }
        j = j + 1;
    }
    proof {
        assert(key@ == spec_derived_key(shared@));
        assert(okm@.subrange(32, 44) == okm@.skip(32));
        assert(nonce@ == spec_derived_nonce(shared@));
    }
    (key, nonce)
}

/// Encrypts a plaintext to a peer: X448 agreement, HKDF key and nonce
/// derivation, then AES-256-GCM with empty associated data.
pub fn encrypt(own_secret: &Vec<u8>, peer_public: &Vec<u8>, plaintext: &Vec<u8>) -> (r: Result<
    Vec<u8>,
    CryptoError,
>)
    ensures
        r matches Ok(c) ==> (x448_shared_of(own_secret@, peer_public@) matches Some(sh) && c@
            == spec_seal_with(sh, plaintext@) && spec_open_with(sh, c@) == Some(plaintext@)),
        r == Err::<Vec<u8>, CryptoError>(CryptoError::InvalidKeyMaterial) <==> (own_secret@.len()
            != 56 || x448_shared_of(own_secret@, peer_public@) is None),
        (own_secret@.len() == 56 && x448_shared_of(own_secret@, peer_public@) is Some
            && plaintext@.len() < 0x1000000000) ==> r is Ok,
{
    let shared = match x448_dh(own_secret.as_slice(), peer_public.as_slice()) {
        Some(s) => s,
        None => {
            return Err(CryptoError::InvalidKeyMaterial);
        },
    };
    let (key, nonce) = derive_key_nonce(&shared);
    match aes256gcm_seal(key.as_slice(), nonce.as_slice(), plaintext.as_slice()) {
        Some(c) => Ok(c),
        None => Err(CryptoError::EncryptionFailed),
    }
}

/// Decrypts a ciphertext from a peer: the inverse derivation, failing with
/// an authentication error on any tampered ciphertext.
pub fn decrypt(own_secret: &Vec<u8>, peer_public: &Vec<u8>, ciphertext: &Vec<u8>) -> (r: Result<
    Vec<u8>,
    CryptoError,
>)
    ensures
        r matches Ok(p) ==> (x448_shared_of(own_secret@, peer_public@) matches Some(sh)
            && spec_open_with(sh, ciphertext@) == Some(p@)),
        r == Err::<Vec<u8>, CryptoError>(CryptoError::InvalidKeyMaterial) <==> (own_secret@.len()
            != 56 || x448_shared_of(own_secret@, peer_public@) is None),
        x448_shared_of(own_secret@, peer_public@) matches Some(sh) ==> (own_secret@.len() == 56
            ==> (r is Ok <==> spec_open_with(sh, ciphertext@) is Some)),
{
    let shared = match x448_dh(own_secret.as_slice(), peer_public.as_slice()) {
        Some(s) => s,
        None => {
            return Err(CryptoError::InvalidKeyMaterial);
        },
    };
    let (key, nonce) = derive_key_nonce(&shared);
    match aes256gcm_open(key.as_slice(), nonce.as_slice(), ciphertext.as_slice()) {
        Some(p) => Ok(p),
        None => Err(CryptoError::AuthenticationFailed),
    }
}

/// The round-trip law of the pair: whatever this function returns under
/// `Ok` is the original plaintext — one party encrypts to the peer's
/// derived public key, the peer decrypts with the sender's derived public
/// key.  With key material the exchange accepts, the only failure left is
/// the cipher's plaintext size limit; in particular a genuine ciphertext
/// is never rejected as unauthentic.
pub fn encrypt_then_decrypt(a_secret: &Vec<u8>, b_secret: &Vec<u8>, plaintext: &Vec<u8>) -> (r:
    Result<Vec<u8>, CryptoError>)
    ensures
        r matches Ok(p) ==> p@ == plaintext@,
        (a_secret@.len() == 56 && b_secret@.len() == 56 && x448_shared_of(
            a_secret@,
            x448_public_of(b_secret@),
        ) is Some && x448_shared_of(b_secret@, x448_public_of(a_secret@)) is Some
            && plaintext@.len() < 0x1000000000) ==> r is Ok,
{
    let pub_a = match x448_derive_public(a_secret.as_slice()) {
        Some(p) => p,
        None => {
            return Err(CryptoError::InvalidKeyMaterial);
        },
    };
    let pub_b = match x448_derive_public(b_secret.as_slice()) {
        Some(p) => p,
        None => {
            return Err(CryptoError::InvalidKeyMaterial);
        },
    };
    let ciphertext = match encrypt(a_secret, &pub_b, plaintext) {
        Ok(c) => c,
        Err(e) => {
            return Err(e);
        },
    };
    decrypt(b_secret, &pub_a, &ciphertext)
}

/// Loads a stored X448 secret key from its base64 form.
pub fn keypair_from_stored(secret_b64: &str) -> (r: Result<Vec<u8>, CryptoError>)
    ensures
        r matches Ok(v) ==> b64_decode_of(secret_b64@) == Some(v@) && v@.len() == 56,
        r is Err <==> !(b64_decode_of(secret_b64@) matches Some(b) && b.len() == 56),
{
    match b64_decode(secret_b64) {
        Some(v) => {
            if v.len() == 56 {
                Ok(v)
            } else {
                Err(CryptoError::InvalidKeyMaterial)
            }
        },
        None => Err(CryptoError::InvalidKeyMaterial),
    }
}

/// Loads a peer public key from its base64 form, holding it to x448's
/// acceptance check.
pub fn public_from_b64(public_b64: &str) -> (r: Result<Vec<u8>, CryptoError>)
    ensures
        r matches Ok(v) ==> b64_decode_of(public_b64@) == Some(v@) && x448_public_ok(v@)
            && v@.len() == 56,
        r is Err <==> !(b64_decode_of(public_b64@) matches Some(b) && x448_public_ok(b)),
{
    match b64_decode(public_b64) {
        Some(v) => {
            if x448_public_check(v.as_slice()) {
                Ok(v)
            } else {
                Err(CryptoError::InvalidKeyMaterial)
            }
        },
        None => Err(CryptoError::InvalidKeyMaterial),
    }
}

/// The base64 form of a public key.
pub fn public_key_to_b64(public_key: &Vec<u8>) -> (r: String)
    ensures
        r@ == b64_encode_of(public_key@),
{
    b64_encode(public_key.as_slice())
}

/// The value of one hex digit.
pub open spec fn spec_hex_val(c: char) -> Option<u8> {
    if '0' <= c <= '9' {
        Some(((c as u32) - 48) as u8)
    } else if 'a' <= c <= 'f' {
        Some(((c as u32) - 87) as u8)
    } else if 'A' <= c <= 'F' {
        Some(((c as u32) - 55) as u8)
    } else {
        None
    }
}

/// Whether every character is a hex digit.
pub open spec fn spec_all_hex(s: Seq<char>) -> bool {
    forall|i: int| 0 <= i < s.len() ==> spec_hex_val(#[trigger] s[i]) is Some
}

/// The bytes an even-length hex string denotes.
pub open spec fn spec_hex_bytes(s: Seq<char>) -> Seq<u8> {
    Seq::new((s.len() / 2) as nat, |i: int| spec_hex_pair(s, i))
}

/// The byte at pair `i` of a hex string.
pub open spec fn spec_hex_pair(s: Seq<char>, i: int) -> u8 {
    (match (spec_hex_val(s[2 * i]), spec_hex_val(s[2 * i + 1])) {
        (Some(h), Some(l)) => (16 * (h as int) + (l as int)) as u8,
        _ => 0,
    })
}

fn hex_val(c: char) -> (r: Option<u8>)
    ensures
        r == spec_hex_val(c),
{
    if '0' <= c && c <= '9' {
        Some(((c as u32) - 48) as u8)
    } else if 'a' <= c && c <= 'f' {
        Some(((c as u32) - 87) as u8)
    } else if 'A' <= c && c <= 'F' {
        Some(((c as u32) - 55) as u8)
    } else {
        None
    }
}

/// Decodes a hex string: accepted exactly when its length is even and
/// every character is a hex digit.
pub fn hex_decode(s: &str) -> (r: Option<Vec<u8>>)
    ensures
        r is Some <==> (s@.len() % 2 == 0 && spec_all_hex(s@)),
        r matches Some(v) ==> v@ == spec_hex_bytes(s@),
{
    let n = s.unicode_len();
    if n % 2 != 0 {
        return None;
    }
    let mut out: Vec<u8> = Vec::new();
    let mut i: usize = 0;
    while i < n
        invariant
            n == s@.len(),
            n % 2 == 0,
            i <= n,
            i % 2 == 0,
            out@.len() == i / 2,
            forall|j: int| 0 <= j < i ==> spec_hex_val(#[trigger] s@[j]) is Some,
            forall|j: int| 0 <= j < i / 2 ==> out@[j] == spec_hex_pair(s@, j),
        decreases n - i,
    {
        let h = match hex_val(s.get_char(i)) {
            Some(v) => v,
            None => {
                return None;
            },
        };
        let l = match hex_val(s.get_char(i + 1)) {
            Some(v) => v,
            None => {
                return None;
            },
        };
        out.push(16 * h + l);
        proof {
            let j = i as int / 2;
            assert(s@[2 * j] == s@[i as int]);
            assert(s@[2 * j + 1] == s@[i as int + 1]);
            assert(out@[j] == spec_hex_pair(s@, j));
        }
        i = i + 2;
    }
    proof {
        assert(out@ =~= spec_hex_bytes(s@));
    }
    Some(out)
}

/// Appends the bytes of a slice to a vector.
fn append_bytes(dst: &mut Vec<u8>, src: &[u8])
    ensures
        final(dst)@ == old(dst)@ + src@,
{
    let ghost d0 = dst@;
    let n = src.len();
    let mut i: usize = 0;
    while i < n
        invariant
            n == src@.len(),
            i <= n,
            dst@ == d0 + src@.take(i as int),
        decreases n - i,
    {
        dst.push(src[i]);
        proof {
            assert(d0 + src@.take(i + 1) == (d0 + src@.take(i as int)).push(src@[i as int]));
        }
        i = i + 1;
    }
    proof {
        assert(src@.take(n as int) == src@);
    }
}

/// The websocket accept token for an upgrade key: the base64 form of the
/// SHA-1 digest of the key followed by the fixed websocket GUID.
pub fn calculate_accept_key(key: &str) -> (r: String)
    ensures
        r@ == b64_encode_of(
            sha1_of(key.spec_bytes() + "258EAFA5-E914-47DA-95CA-C5AB0DC85B11".spec_bytes()),
        ),
{
    let mut buf = key.as_bytes_vec();
    let guid = "258EAFA5-E914-47DA-95CA-C5AB0DC85B11";
    append_bytes(&mut buf, guid.as_bytes());
    let digest = sha1_digest(buf.as_slice());
    b64_encode(digest.as_slice())
}

} // verus!
