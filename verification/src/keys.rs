//! WireGuard key material: Curve25519 key pairs and pre-shared keys, base64-encoded.

use vstd::prelude::*;
use vstd::utf8::{encode_utf8, is_ascii_chars, is_ascii_chars_encode_utf8};

verus! {

/// A Curve25519 key pair for WireGuard, encoded as base64 strings.
pub struct KeyPair {
    /// Base64-encoded private key (32 bytes, 44 characters).
    pub private_key: String,
    /// Base64-encoded public key derived from the private key.
    pub public_key: String,
}

/// The character for the six-bit value `v` in the standard base64 alphabet: `A`-`Z`,
/// `a`-`z`, `0`-`9`, `+`, `/`.
pub open spec fn b64_char(v: int) -> char {
    if v < 26 {
        ('A' as int + v) as char
    } else if v < 52 {
        ('a' as int + (v - 26)) as char
    } else if v < 62 {
        ('0' as int + (v - 52)) as char
    } else if v == 62 {
        '+'
    } else {
        '/'
    }
}

/// The standard padded base64 text of `bytes`, as `base64`'s `STANDARD` engine writes
/// it: each group of three bytes becomes four characters; a last group of one or two
/// bytes becomes two or three characters followed by `=` to make four.
pub open spec fn base64_text(bytes: Seq<u8>) -> Seq<char>
    decreases bytes.len(),
{
    if bytes.len() == 0 {
        Seq::<char>::empty()
    } else if bytes.len() == 1 {
        seq![b64_char((bytes[0] as int) / 4), b64_char(((bytes[0] as int) % 4) * 16), '=', '=']
    } else if bytes.len() == 2 {
        seq![
            b64_char((bytes[0] as int) / 4),
            b64_char(((bytes[0] as int) % 4) * 16 + (bytes[1] as int) / 16),
            b64_char(((bytes[1] as int) % 16) * 4),
            '=',
        ]
    } else {
        seq![
            b64_char((bytes[0] as int) / 4),
            b64_char(((bytes[0] as int) % 4) * 16 + (bytes[1] as int) / 16),
            b64_char(((bytes[1] as int) % 16) * 4 + (bytes[2] as int) / 64),
            b64_char((bytes[2] as int) % 64),
        ] + base64_text(bytes.subrange(3, bytes.len() as int))
    }
}

proof fn lemma_b64_char_ascii(v: int)
    requires
        0 <= v < 64,
    ensures
        '\0' <= b64_char(v) <= '\u{7f}',
{
}

/// Base64 text has four characters per started group of three bytes, all of them ASCII.
pub proof fn lemma_base64_text_shape(bytes: Seq<u8>)
    ensures
        base64_text(bytes).len() == 4 * ((bytes.len() + 2) / 3),
        is_ascii_chars(base64_text(bytes)),
    decreases bytes.len(),
{
    let t = base64_text(bytes);
    if bytes.len() == 0 {
    } else if bytes.len() <= 2 {
        lemma_b64_char_ascii((bytes[0] as int) / 4);
        if bytes.len() == 1 {
            lemma_b64_char_ascii(((bytes[0] as int) % 4) * 16);
        } else {
            lemma_b64_char_ascii(((bytes[0] as int) % 4) * 16 + (bytes[1] as int) / 16);
            lemma_b64_char_ascii(((bytes[1] as int) % 16) * 4);
        }
    } else {
        let rest = bytes.subrange(3, bytes.len() as int);
        lemma_base64_text_shape(rest);
        lemma_b64_char_ascii((bytes[0] as int) / 4);
        lemma_b64_char_ascii(((bytes[0] as int) % 4) * 16 + (bytes[1] as int) / 16);
        lemma_b64_char_ascii(((bytes[1] as int) % 16) * 4 + (bytes[2] as int) / 64);
        lemma_b64_char_ascii((bytes[2] as int) % 64);
        let head = seq![
            b64_char((bytes[0] as int) / 4),
            b64_char(((bytes[0] as int) % 4) * 16 + (bytes[1] as int) / 16),
            b64_char(((bytes[1] as int) % 16) * 4 + (bytes[2] as int) / 64),
            b64_char((bytes[2] as int) % 64),
        ];
        assert(t == head + base64_text(rest));
        assert forall|i: int| 0 <= i < t.len() implies '\0' <= #[trigger] t[i] <= '\u{7f}' by {
            if i >= 4 {
                assert(t[i] == base64_text(rest)[i - 4]);
            }
        }
    }
}

/// What `base64`'s `STANDARD` engine decodes from `text`: the bytes, or the `Display`
/// text of the error when it refuses the text.
pub uninterp spec fn base64_decode(text: Seq<char>) -> Result<Seq<u8>, Seq<char>>;

/// What decoding base64 text gives: the bytes, or the decoder's message.
pub type Decoded = Result<Seq<u8>, Seq<char>>;

/// The Curve25519 public key (`x25519_dalek::PublicKey`) of a 32-byte secret.
pub uninterp spec fn x25519_public(secret: Seq<u8>) -> Seq<u8>;

/// 32 bytes from `StaticSecret::random_from_rng(OsRng)`, through `StaticSecret::to_bytes`.
/// Nothing is claimed of the bytes: they come from the operating system's generator.
#[verifier::external_body]
fn random_secret() -> (r: [u8; 32]) {
    x25519_dalek::StaticSecret::random_from_rng(rand::rngs::OsRng).to_bytes()
}

/// 32 bytes from `RngCore::fill_bytes` on `OsRng`. Nothing is claimed of the bytes.
#[verifier::external_body]
fn random_bytes() -> (r: [u8; 32]) {
    let mut key = [0u8; 32];
    rand::RngCore::fill_bytes(&mut rand::rngs::OsRng, &mut key);
    key
}

/// `PublicKey::from(&StaticSecret::from(secret))`, as bytes. Claimed: the result is
/// [`x25519_public`] of the secret.
#[verifier::external_body]
fn derive_public(secret: &[u8]) -> (r: [u8; 32])
    requires
        secret@.len() == 32,
    ensures
        r@ == x25519_public(secret@),
{
    let bytes: [u8; 32] = secret.try_into().unwrap();
    x25519_dalek::PublicKey::from(&x25519_dalek::StaticSecret::from(bytes)).to_bytes()
}

/// `STANDARD.encode` of 32 bytes. Claimed: the text is [`base64_text`] of the bytes, and
/// decoding it gives the bytes back (the engine decodes what it encodes).
#[verifier::external_body]
fn encode_key(bytes: &[u8; 32]) -> (r: String)
    ensures
        r@ == base64_text(bytes@),
        base64_decode(r@) == Decoded::Ok(bytes@),
{
    base64::Engine::encode(&base64::engine::general_purpose::STANDARD, bytes)
}

/// `STANDARD.decode` of a text, its error turned into its `Display` text. Claimed: the
/// outcome is [`base64_decode`] of the text.
#[verifier::external_body]
fn decode_key(text: &str) -> (r: Result<Vec<u8>, String>)
    ensures
        match r {
            Ok(v) => base64_decode(text@) == Decoded::Ok(v@),
            Err(m) => base64_decode(text@) == Decoded::Err(m@),
        },
{
    match base64::Engine::decode(&base64::engine::general_purpose::STANDARD, text) {
        Ok(v) => Ok(v),
        Err(e) => Err(e.to_string()),
    }
}

/// Error of [`verify_keypair`]: a key that is not valid base64, with the decoder's message.
#[derive(Debug)]
pub enum KeyError {
    InvalidBase64(String),
}

impl KeyError {
    /// The error's message.
    pub fn message(&self) -> (r: String)
        ensures
            match self {
                KeyError::InvalidBase64(m) => r@ == m@,
            },
    {
        match self {
            KeyError::InvalidBase64(m) => m.clone(),
        }
    }
}

/// What a freshly generated pair satisfies: both keys are the 44-character base64 texts of
/// a 32-byte secret and of its Curve25519 public key.
pub open spec fn generated_pair(kp: KeyPair) -> bool {
    exists|s: Seq<u8>, p: Seq<u8>| {
        &&& s.len() == 32
        &&& p.len() == 32
        &&& p == x25519_public(s)
        &&& kp.private_key@ == base64_text(s)
        &&& kp.public_key@ == base64_text(p)
        &&& base64_decode(kp.private_key@) == Decoded::Ok(s)
        &&& base64_decode(kp.public_key@) == Decoded::Ok(p)
        &&& kp.private_key@.len() == 44
        &&& kp.public_key@.len() == 44
        &&& is_ascii_chars(kp.private_key@)
        &&& is_ascii_chars(kp.public_key@)
    }
}

/// What a freshly generated pre-shared key satisfies: the 44-character base64 text of
/// 32 bytes.
pub open spec fn generated_key(k: Seq<char>) -> bool {
    exists|s: Seq<u8>| {
        &&& s.len() == 32
        &&& k == base64_text(s)
        &&& base64_decode(k) == Decoded::Ok(s)
        &&& k.len() == 44
        &&& is_ascii_chars(k)
    }
}

/// Generate a random Curve25519 key pair suitable for WireGuard.
pub fn generate_keypair() -> (kp: KeyPair)
    ensures
        generated_pair(kp),
{
    let secret = random_secret();
    let public = derive_public(&secret);
    let private_key = encode_key(&secret);
    let public_key = encode_key(&public);
    let kp = KeyPair { private_key, public_key };
    proof {
        lemma_base64_text_shape(secret@);
        lemma_base64_text_shape(public@);
        assert(generated_pair(kp)) by {
            let s = secret@;
            let p = public@;
            assert(s.len() == 32 && p.len() == 32);
        }
    }
    kp
}

/// Generate a random 256-bit pre-shared key, returned as a base64 string.
pub fn generate_preshared_key() -> (k: String)
    ensures
        generated_key(k@),
{
    let key = random_bytes();
    let k = encode_key(&key);
    proof {
        lemma_base64_text_shape(key@);
        assert(generated_key(k@)) by {
            assert(key@.len() == 32);
        }
    }
    k
}

/// What [`verify_keypair`] answers: `false` when either key is not 44 bytes long; the
/// decoder's message when the private key, then the public key, is not base64; `false`
/// when either decodes to other than 32 bytes; otherwise whether the public key is the
/// one derived from the private key.
pub open spec fn keypair_check(private_key: Seq<char>, public_key: Seq<char>) -> Result<bool, Seq<char>> {
    if encode_utf8(private_key).len() as usize != 44 || encode_utf8(public_key).len() as usize != 44 {
        Ok(false)
    } else {
        match base64_decode(private_key) {
            Err(m) => Err(m),
            Ok(a) => match base64_decode(public_key) {
                Err(m) => Err(m),
                Ok(b) => if a.len() != 32 || b.len() != 32 {
                    Ok(false)
                } else {
                    Ok(x25519_public(a) == b)
                },
            },
        }
    }
}

fn bytes_equal(a: &[u8], b: &[u8]) -> (r: bool)
    ensures
        r == (a@ == b@),
{
    if a.len() != b.len() {
        return false;
    }
    let n = a.len();
    let mut i: usize = 0;
    while i < n
        invariant
            n == a@.len(),
            n == b@.len(),
            i <= n,
            forall|j: int| 0 <= j < i ==> a@[j] == b@[j],
        decreases n - i,
    {
        if a[i] != b[i] {
            return false;
        }
        i = i + 1;
    }
    proof {
        assert(a@ =~= b@);
    }
    true
}

/// Verify that the given private key derives the given public key.
///
/// Returns `Ok(false)` if the keys are valid base64 but do not match, or if either key
/// has an unexpected length.
pub fn verify_keypair(private_key_str: &str, public_key_str: &str) -> (r: Result<bool, KeyError>)
    ensures
        match r {
            Ok(b) => keypair_check(private_key_str@, public_key_str@) matches Ok(x) && x == b,
            Err(KeyError::InvalidBase64(m)) => keypair_check(private_key_str@, public_key_str@) matches Err(t) && t == m@,
        },
{
    if private_key_str.len() != 44 || public_key_str.len() != 44 {
        return Ok(false);
    }
    let private_bytes = match decode_key(private_key_str) {
        Ok(v) => v,
        Err(m) => return Err(KeyError::InvalidBase64(m)),
    };
    let public_bytes = match decode_key(public_key_str) {
        Ok(v) => v,
        Err(m) => return Err(KeyError::InvalidBase64(m)),
    };
    if private_bytes.len() != 32 || public_bytes.len() != 32 {
        return Ok(false);
    }
    let derived = derive_public(private_bytes.as_slice());
    Ok(bytes_equal(&derived, public_bytes.as_slice()))
}

/// A freshly generated key pair verifies: [`verify_keypair`] answers `Ok(true)` for it.
pub proof fn lemma_generated_pair_verifies(kp: KeyPair)
    requires
        generated_pair(kp),
    ensures
        keypair_check(kp.private_key@, kp.public_key@) matches Ok(x) && x,
{
    is_ascii_chars_encode_utf8(kp.private_key@);
    is_ascii_chars_encode_utf8(kp.public_key@);
}

} // verus!
