//! Password hashing, key derivation and authenticated encryption of saved
//! data, plus the hex encoding used to store salts and hashes.

use vstd::prelude::*;
use aes_gcm::aead::{Aead, KeyInit};
use vstd::string::StringSliceAdditionalSpecFns;

verus! {

/// PBKDF2 iteration count.
pub const PBKDF2_ROUNDS: u32 = 100_000;

/// Length of the AES-GCM nonce put in front of each ciphertext.
pub const NONCE_LEN: usize = 12;

/// Length of the AES-GCM authentication tag at the end of each ciphertext.
pub const TAG_LEN: usize = 16;

// ---------------------------------------------------------------------------
// Hex encoding
// ---------------------------------------------------------------------------

/// The lowercase hex digit for `d < 16`.
pub open spec fn hex_char(d: u8) -> char {
    if d < 10 {
        (('0' as u8) + d) as char
    } else {
        (('a' as u8) + (d - 10)) as char
    }
}

/// Lowercase hex text of `b`, two digits per byte.
pub open spec fn hex_text(b: Seq<u8>) -> Seq<char> {
    Seq::new(
        2 * b.len(),
        |i: int|
            if i % 2 == 0 {
                hex_char(b[i / 2] / 16)
            } else {
                hex_char(b[i / 2] % 16)
            },
    )
}

fn hex_digit(d: u8) -> (c: char)
    requires
        d < 16,
    ensures
        c == hex_char(d),
{
    if d < 10 {
        (48u8 + d) as char
    } else {
        (97u8 + (d - 10)) as char
    }
}

/// Lowercase hex encoding of `bytes`.
pub fn hex_encode(bytes: &[u8]) -> (r: String)
    ensures
        r@ == hex_text(bytes@),
{
    let mut r = String::new();
    let n = bytes.len();
    let mut i: usize = 0;
    while i < n
        invariant
            n == bytes@.len(),
            i <= n,
            r@ == hex_text(bytes@.take(i as int)),
        decreases n - i,
    {
        let b = bytes[i];
        crate::text::push_char(&mut r, hex_digit(b / 16));
        crate::text::push_char(&mut r, hex_digit(b % 16));
        assert(r@ =~= hex_text(bytes@.take(i + 1)));
        i = i + 1;
    }
    assert(bytes@.take(n as int) =~= bytes@);
    r
}

/// `b` is a UTF-8 continuation byte (it cannot start a character).
pub open spec fn continuation(b: u8) -> bool {
    0x80 <= b < 0xc0
}

/// Text whose bytes `h` can be cut into two-byte pieces: an even number of
/// bytes, and a character starts at every even position.
pub open spec fn hex_cuttable(h: Seq<u8>) -> bool {
    &&& h.len() % 2 == 0
    &&& forall|i: int| 0 <= i < h.len() && i % 2 == 0 ==> !continuation(#[trigger] h[i])
}

/// The value of the hex digit byte `b`, if it is one.
pub open spec fn hex_digit_value(b: u8) -> Option<u8> {
    if 48 <= b <= 57 {
        Some((b - 48) as u8)
    } else if 97 <= b <= 102 {
        Some((b - 87) as u8)
    } else if 65 <= b <= 70 {
        Some((b - 55) as u8)
    } else {
        None
    }
}

/// What `u8::from_str_radix(_, 16)` gives for the two bytes `x`, `y`, with
/// 0 in place of an error: a leading `+` is allowed before one digit.
pub open spec fn hex_pair_value(x: u8, y: u8) -> u8 {
    if x == 43 {
        match hex_digit_value(y) {
            Some(v) => v,
            None => 0,
        }
    } else {
        match (hex_digit_value(x), hex_digit_value(y)) {
            (Some(a), Some(b)) => (a * 16 + b) as u8,
            _ => 0,
        }
    }
}

/// The bytes decoded from the hex text with bytes `h`, two bytes per value.
pub open spec fn hex_bytes_value(h: Seq<u8>) -> Seq<u8> {
    Seq::new(h.len() / 2, |i: int| hex_pair_value(h[2 * i], h[2 * i + 1]))
}

fn digit_value(b: u8) -> (r: Option<u8>)
    ensures
        r == hex_digit_value(b),
{
    if 48 <= b && b <= 57 {
        Some(b - 48)
    } else if 97 <= b && b <= 102 {
        Some(b - 87)
    } else if 65 <= b && b <= 70 {
        Some(b - 55)
    } else {
        None
    }
}

fn pair_value(x: u8, y: u8) -> (r: u8)
    ensures
        r == hex_pair_value(x, y),
{
    if x == 43 {
        match digit_value(y) {
            Some(v) => v,
            None => 0,
        }
    } else {
        match (digit_value(x), digit_value(y)) {
            (Some(a), Some(b)) => a * 16 + b,
            _ => 0,
        }
    }
}

/// Decodes hex text two bytes at a time; a piece that is not a hex number
/// decodes as 0.
pub fn hex_decode(hex: &str) -> (r: Vec<u8>)
    requires
        hex_cuttable(hex.spec_bytes()),
    ensures
        r@ == hex_bytes_value(hex.spec_bytes()),
{
    let h = hex.as_bytes();
    let n = h.len();
    let mut r: Vec<u8> = Vec::new();
    let mut i: usize = 0;
    while i < n
        invariant
            h@ == hex.spec_bytes(),
            n == h@.len(),
            n % 2 == 0,
            i % 2 == 0,
            i <= n,
            r@ == hex_bytes_value(h@).take((i / 2) as int),
        decreases n - i,
    {
        r.push(pair_value(h[i], h[i + 1]));
        assert(r@ =~= hex_bytes_value(h@).take(((i + 2) / 2) as int));
        i = i + 2;
    }
    assert(hex_bytes_value(h@).take((n / 2) as int) =~= hex_bytes_value(h@));
    r
}

/// The byte codes of ASCII text.
pub open spec fn ascii_bytes(s: Seq<char>) -> Seq<u8> {
    Seq::new(s.len(), |i: int| s[i] as u8)
}

/// Hex text can be decoded, and decoding gives back the encoded bytes.
pub proof fn lemma_hex_roundtrip(b: Seq<u8>)
    ensures
        crate::text::is_ascii_text(hex_text(b)),
        hex_cuttable(ascii_bytes(hex_text(b))),
        hex_bytes_value(ascii_bytes(hex_text(b))) == b,
{
    let t = hex_text(b);
    let h = ascii_bytes(t);
    assert forall|i: int| 0 <= i < t.len() implies ('\0' <= #[trigger] t[i] <= '\u{7f}') && (t[i] as u8) as char == t[i] by {
        let d = if i % 2 == 0 { b[i / 2] / 16 } else { b[i / 2] % 16 };
        assert(d < 16);
    }
    assert forall|i: int| 0 <= i < b.len() implies #[trigger] hex_bytes_value(h)[i] == b[i] by {
        let x = b[i];
        assert(h[2 * i] == hex_char(x / 16) as u8);
        assert(h[2 * i + 1] == hex_char(x % 16) as u8);
        assert(x == (x / 16) * 16 + x % 16);
    }
    assert(hex_bytes_value(h) =~= b);
}

/// Hex text is ASCII, so its UTF-8 bytes are its characters' codes: a salt
/// written by [`generate_salt`] can be cut into byte pairs by
/// [`hex_decode`] (as [`hash_password`] and [`derive_key`] require), and
/// decodes to the bytes it was made from.
pub proof fn lemma_hex_text_utf8(b: Seq<u8>)
    ensures
        vstd::utf8::encode_utf8(hex_text(b)) == ascii_bytes(hex_text(b)),
        hex_cuttable(vstd::utf8::encode_utf8(hex_text(b))),
        hex_bytes_value(vstd::utf8::encode_utf8(hex_text(b))) == b,
{
    lemma_hex_roundtrip(b);
    let t = hex_text(b);
    assert(vstd::utf8::is_ascii_chars(t));
    vstd::utf8::is_ascii_chars_encode_utf8(t);
    assert(vstd::utf8::encode_utf8(t) =~= ascii_bytes(t));
}

// ---------------------------------------------------------------------------
// Outside cryptography
// ---------------------------------------------------------------------------

/// `n` bytes from the operating system's random source, through
/// `rand::rngs::OsRng`'s `try_fill_bytes`; `None` where that source reports
/// an error. Random: only the length of what comes back is stated.
#[verifier::external_body]
fn random_bytes(n: usize) -> (r: Option<Vec<u8>>)
    ensures
        r matches Some(v) ==> v@.len() == n,
{
    let mut buf = vec![0u8; n];
    match rand::RngCore::try_fill_bytes(&mut rand::rngs::OsRng, &mut buf) {
        Ok(()) => Some(buf),
        Err(_) => None,
    }
}

/// The 32-byte output of PBKDF2-HMAC-SHA256 on `password`, `salt`, `rounds`.
pub uninterp spec fn spec_pbkdf2_sha256(password: Seq<u8>, salt: Seq<u8>, rounds: u32) -> Seq<u8>;

/// `pbkdf2::pbkdf2_hmac::<sha2::Sha256>` filling 32 bytes; the result is
/// `spec_pbkdf2_sha256` of the arguments, nothing more is stated.
#[verifier::external_body]
fn pbkdf2_sha256(password: &[u8], salt: &[u8], rounds: u32) -> (r: [u8; 32])
    ensures
        r@ == spec_pbkdf2_sha256(password@, salt@, rounds),
{
    let mut out = [0u8; 32];
    pbkdf2::pbkdf2_hmac::<sha2::Sha256>(password, salt, rounds, &mut out);
    out
}

/// What `Aes256Gcm::encrypt` gives for `key`, `nonce` and `plaintext`
/// (ciphertext with its tag), or `None` when it refuses.
pub uninterp spec fn spec_aes_seal(key: Seq<u8>, nonce: Seq<u8>, plaintext: Seq<u8>) -> Option<Seq<u8>>;

/// What `Aes256Gcm::decrypt` gives for `key`, `nonce` and `ciphertext`, or
/// `None` when it refuses (the tag does not authenticate).
pub uninterp spec fn spec_aes_open(key: Seq<u8>, nonce: Seq<u8>, ciphertext: Seq<u8>) -> Option<Seq<u8>>;

/// `Aes256Gcm::new_from_slice(key)` then `encrypt(nonce, plaintext)`.
/// The result is `spec_aes_seal` of the arguments; a ciphertext is as
/// long as the plaintext, with the 16-byte tag appended.
#[verifier::external_body]
fn aes_seal(key: &[u8; 32], nonce: &[u8], plaintext: &[u8]) -> (r: Option<Vec<u8>>)
    requires
        nonce@.len() == NONCE_LEN,
    ensures
        match r {
            Some(c) => spec_aes_seal(key@, nonce@, plaintext@) == Some(c@) && c@.len()
                == plaintext@.len() + TAG_LEN,
            None => spec_aes_seal(key@, nonce@, plaintext@) is None,
        },
{
    let cipher = match aes_gcm::Aes256Gcm::new_from_slice(key) {
        Ok(c) => c,
        Err(_) => return None,
    };
    cipher.encrypt(aes_gcm::Nonce::from_slice(nonce), plaintext).ok()
}

/// `Aes256Gcm::new_from_slice(key)` then `decrypt(nonce, ciphertext)`.
/// The result is `spec_aes_open` of the arguments; authenticated
/// decryption gives back the plaintext of a ciphertext that `encrypt`
/// produced under the same key and nonce.
#[verifier::external_body]
fn aes_open(key: &[u8; 32], nonce: &[u8], ciphertext: &[u8]) -> (r: Option<Vec<u8>>)
    requires
        nonce@.len() == NONCE_LEN,
    ensures
        match r {
            Some(p) => spec_aes_open(key@, nonce@, ciphertext@) == Some(p@),
            None => spec_aes_open(key@, nonce@, ciphertext@) is None,
        },
        forall|p: Seq<u8>|
            #[trigger] spec_aes_seal(key@, nonce@, p) == Some(ciphertext@) ==> r is Some && r->0@ == p,
{
    let cipher = match aes_gcm::Aes256Gcm::new_from_slice(key) {
        Ok(c) => c,
        Err(_) => return None,
    };
    cipher.decrypt(aes_gcm::Nonce::from_slice(nonce), ciphertext).ok()
}

// ---------------------------------------------------------------------------
// Passwords and keys
// ---------------------------------------------------------------------------

/// A fresh random 32-byte salt, as hex text, or [`CryptoError::Random`]
/// where the system's random source fails.
pub fn generate_salt() -> (r: Result<String, CryptoError>)
    ensures
        r matches Ok(s) ==> exists|b: Seq<u8>| b.len() == 32 && s@ == hex_text(b),
        r matches Err(e) ==> e == CryptoError::Random,
{
    match random_bytes(32) {
        Some(salt) => Ok(hex_encode(salt.as_slice())),
        None => Err(CryptoError::Random),
    }
}

/// PBKDF2-HMAC-SHA256 hash of `password` under the hex salt `salt_hex`,
/// as hex text; it is what a profile stores to check a login.
pub fn hash_password(password: &str, salt_hex: &str) -> (r: String)
    requires
        hex_cuttable(salt_hex.spec_bytes()),
    ensures
        r@ == hex_text(
            spec_pbkdf2_sha256(
                password.spec_bytes(),
                hex_bytes_value(salt_hex.spec_bytes()),
                PBKDF2_ROUNDS,
            ),
        ),
{
    let salt = hex_decode(salt_hex);
    let hash = pbkdf2_sha256(password.as_bytes(), salt.as_slice(), PBKDF2_ROUNDS);
    hex_encode(&hash)
}

/// The bytes appended to the salt to derive the encryption key, so that
/// the key differs from the password hash (`_encryption_key`).
pub open spec fn key_context() -> Seq<u8> {
    seq![95u8, 101, 110, 99, 114, 121, 112, 116, 105, 111, 110, 95, 107, 101, 121]
}

/// 256-bit encryption key derived from `password` and the hex salt.
pub fn derive_key(password: &str, salt_hex: &str) -> (r: [u8; 32])
    requires
        hex_cuttable(salt_hex.spec_bytes()),
    ensures
        r@ == spec_pbkdf2_sha256(
            password.spec_bytes(),
            hex_bytes_value(salt_hex.spec_bytes()) + key_context(),
            PBKDF2_ROUNDS,
        ),
{
    let mut key_salt = hex_decode(salt_hex);
    let ctx: [u8; 15] = [95u8, 101, 110, 99, 114, 121, 112, 116, 105, 111, 110, 95, 107, 101, 121];
    assert(ctx@ =~= key_context());
    key_salt.extend_from_slice(&ctx);
    assert(key_salt@ =~= hex_bytes_value(salt_hex.spec_bytes()) + key_context());
    pbkdf2_sha256(password.as_bytes(), key_salt.as_slice(), PBKDF2_ROUNDS)
}

/// Whether `password` matches a stored hash made with `salt_hex`.
pub fn check_password(password: &str, salt_hex: &str, password_hash: &str) -> (r: bool)
    requires
        hex_cuttable(salt_hex.spec_bytes()),
    ensures
        r == (password_hash@ == hex_text(
            spec_pbkdf2_sha256(
                password.spec_bytes(),
                hex_bytes_value(salt_hex.spec_bytes()),
                PBKDF2_ROUNDS,
            ),
        )),
{
    let h = hash_password(password, salt_hex);
    crate::text::str_is(h.as_str(), password_hash)
}

// ---------------------------------------------------------------------------
// Authenticated encryption of saved data
// ---------------------------------------------------------------------------

/// Why encryption or decryption failed.
#[derive(Debug, Clone, Copy, PartialEq, Eq)]
pub enum CryptoError {
    /// The cipher refused to encrypt.
    Encrypt,
    /// The data does not authenticate under the key.
    Decrypt,
    /// The data is shorter than a nonce.
    TooShort,
    /// The system's random source failed.
    Random,
}

/// Encrypts `plaintext` with AES-256-GCM under a fresh random nonce;
/// the output is the nonce followed by the ciphertext and tag.
pub fn encrypt(key: &[u8; 32], plaintext: &[u8]) -> (r: Result<Vec<u8>, CryptoError>)
    ensures
        r matches Ok(out) ==> exists|nonce: Seq<u8>|
            nonce.len() == NONCE_LEN && (#[trigger] spec_aes_seal(key@, nonce, plaintext@) matches Some(c)
                && out@ == nonce + c),
        r matches Ok(out) ==> out@.len() == NONCE_LEN + plaintext@.len() + TAG_LEN,
        r matches Err(e) ==> e == CryptoError::Random || (e == CryptoError::Encrypt && exists|
            nonce: Seq<u8>|
            nonce.len() == NONCE_LEN && #[trigger] spec_aes_seal(key@, nonce, plaintext@) is None),
{
    let nonce = match random_bytes(NONCE_LEN) {
        Some(n) => n,
        None => {
            return Err(CryptoError::Random);
        },
    };
    match aes_seal(key, nonce.as_slice(), plaintext) {
        Some(c) => {
            let mut out: Vec<u8> = Vec::new();
            out.extend_from_slice(nonce.as_slice());
            out.extend_from_slice(c.as_slice());
            assert(spec_aes_seal(key@, nonce@, plaintext@) matches Some(cc) && out@ == nonce@ + cc);
            Ok(out)
        },
        None => Err(CryptoError::Encrypt),
    }
}

/// Decrypts data made by [`encrypt`]: the first [`NONCE_LEN`] bytes are
/// the nonce, the rest the ciphertext.
pub fn decrypt(key: &[u8; 32], data: &[u8]) -> (r: Result<Vec<u8>, CryptoError>)
    ensures
        data@.len() < NONCE_LEN ==> r == Err::<Vec<u8>, CryptoError>(CryptoError::TooShort),
        data@.len() >= NONCE_LEN ==> match spec_aes_open(
            key@,
            data@.take(NONCE_LEN as int),
            data@.skip(NONCE_LEN as int),
        ) {
            Some(p) => r matches Ok(v) && v@ == p,
            None => r == Err::<Vec<u8>, CryptoError>(CryptoError::Decrypt),
        },
        forall|nonce: Seq<u8>, p: Seq<u8>|
            nonce.len() == NONCE_LEN && (#[trigger] spec_aes_seal(key@, nonce, p) matches Some(c)
                && data@ == nonce + c) ==> (r matches Ok(v) && v@ == p),
{
    if data.len() < NONCE_LEN {
        return Err(CryptoError::TooShort);
    }
    let nonce = crate::frame::copy_range(data, 0, NONCE_LEN);
    let ct = crate::frame::copy_range(data, NONCE_LEN, data.len());
    assert(nonce@ =~= data@.take(NONCE_LEN as int));
    assert(ct@ =~= data@.skip(NONCE_LEN as int));
    let r = aes_open(key, nonce.as_slice(), ct.as_slice());
    assert forall|n: Seq<u8>, p: Seq<u8>|
        n.len() == NONCE_LEN && (#[trigger] spec_aes_seal(key@, n, p) matches Some(c) && data@ == n
            + c) implies (r matches Some(v) && v@ == p) by {
        let c = spec_aes_seal(key@, n, p)->0;
        assert(n =~= data@.take(NONCE_LEN as int));
        assert(c =~= data@.skip(NONCE_LEN as int));
    }
    match r {
        Some(p) => Ok(p),
        None => Err(CryptoError::Decrypt),
    }
}

} // verus!
