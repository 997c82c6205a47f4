//! Hashing, encoding and chance: what the library has from outside crates.
use argon2::password_hash::{PasswordHash, PasswordHasher, PasswordVerifier, SaltString};
use argon2::Argon2;
use base64::engine::general_purpose::{STANDARD, URL_SAFE_NO_PAD};
use base64::Engine;
use chacha20poly1305::aead::{Aead, KeyInit};
use chacha20poly1305::{Key, XChaCha20Poly1305, XNonce};
use crate::text::to_chars;
use rand::Rng;
use sha2::{Digest, Sha256};
use vstd::prelude::*;
use vstd::utf8::encode_utf8;

verus! {

/// `rand::rng().fill_bytes`: as many bytes as asked for. Which ones is left to
/// chance.
#[verifier::external_body]
pub(crate) fn random_bytes(n: usize) -> (r: Vec<u8>)
    ensures
        r.len() == n,
{
    let mut bytes = vec![0u8; n];
    rand::rng().fill_bytes(&mut bytes);
    bytes
}

/// The SHA-256 digest of bytes.
pub uninterp spec fn sha256(bytes: Seq<u8>) -> Seq<u8>;

/// `sha2::Sha256::digest`: the 32 bytes of the digest, a function of the input.
#[verifier::external_body]
pub(crate) fn digest(bytes: &[u8]) -> (r: Vec<u8>)
    ensures
        r@ == sha256(bytes@),
        r.len() == 32,
{
    Sha256::digest(bytes).to_vec()
}

/// Bytes in base64, with the URL alphabet and without padding.
pub uninterp spec fn base64_url(bytes: Seq<u8>) -> Seq<char>;

/// `base64`'s `URL_SAFE_NO_PAD.encode`: the text of the bytes, a function of
/// them.
#[verifier::external_body]
pub(crate) fn encode_url(bytes: &[u8]) -> (r: String)
    ensures
        r@ == base64_url(bytes@),
{
    URL_SAFE_NO_PAD.encode(bytes)
}

/// The bytes that a text in base64 stands for, with the standard alphabet and
/// padding, if it stands for any.
pub uninterp spec fn base64_decoded(text: Seq<char>) -> Option<Seq<u8>>;

/// Optional bytes.
pub open spec fn bytes_view(r: Option<Vec<u8>>) -> Option<Seq<u8>> {
    match r {
        Some(v) => Some(v@),
        None => None,
    }
}

/// `base64`'s `STANDARD.decode`: the bytes that the text stands for, where it is
/// base64. A function of the text.
#[verifier::external_body]
pub(crate) fn decode_standard(text: &str) -> (r: Option<Vec<u8>>)
    ensures
        bytes_view(r) == base64_decoded(text@),
{
    STANDARD.decode(text).ok()
}

/// Bytes in base64, with the standard alphabet and padding.
pub uninterp spec fn base64_standard(bytes: Seq<u8>) -> Seq<char>;

/// `base64`'s `STANDARD.encode`: the text of the bytes, a function of them,
/// which decodes to them again.
#[verifier::external_body]
pub(crate) fn encode_standard(bytes: &[u8]) -> (r: String)
    ensures
        r@ == base64_standard(bytes@),
        base64_decoded(r@) == Some(bytes@),
{
    STANDARD.encode(bytes)
}

/// What bytes are sealed as under a key and a nonce, if they can be.
pub uninterp spec fn sealed_bytes(key: Seq<u8>, nonce: Seq<u8>, plain: Seq<u8>) -> Option<Seq<u8>>;

/// What sealed bytes open to under a key and a nonce, if they do.
pub uninterp spec fn opened_bytes(key: Seq<u8>, nonce: Seq<u8>, sealed: Seq<u8>) -> Option<
    Seq<u8>,
>;

/// Whether sealed bytes, where there are any, open to the plain ones again.
pub open spec fn reopens(r: Option<Vec<u8>>, key: Seq<u8>, nonce: Seq<u8>, plain: Seq<u8>) -> bool {
    match r {
        Some(sealed) => opened_bytes(key, nonce, sealed@) == Some(plain),
        None => true,
    }
}

/// `XChaCha20Poly1305`'s `encrypt`: the sealed bytes, a function of key, nonce
/// and plain bytes; under the same key and nonce they open to the plain bytes.
#[verifier::external_body]
pub(crate) fn encrypt(key: &Vec<u8>, nonce: &Vec<u8>, plain: &[u8]) -> (r: Option<Vec<u8>>)
    requires
        key.len() == 32,
        nonce.len() == 24,
    ensures
        bytes_view(r) == sealed_bytes(key@, nonce@, plain@),
        reopens(r, key@, nonce@, plain@),
{
    XChaCha20Poly1305::new(Key::from_slice(key)).encrypt(XNonce::from_slice(nonce), plain).ok()
}

/// `XChaCha20Poly1305`'s `decrypt`: what the sealed bytes open to under the key
/// and the nonce, a function of the three, or nothing where they were not sealed
/// so.
#[verifier::external_body]
pub(crate) fn decrypt(key: &Vec<u8>, nonce: &[u8], sealed: &[u8]) -> (r: Option<Vec<u8>>)
    requires
        key.len() == 32,
        nonce.len() == 24,
    ensures
        bytes_view(r) == opened_bytes(key@, nonce@, sealed@),
{
    XChaCha20Poly1305::new(Key::from_slice(key)).decrypt(XNonce::from_slice(nonce), sealed).ok()
}

/// The Argon2 hash of a password with a salt, or why there is none.
pub uninterp spec fn argon2_hash(password: Seq<char>, salt: Seq<u8>) -> Result<
    Seq<char>,
    Seq<char>,
>;

/// Whether a stored text is a hash, or why it is none.
pub uninterp spec fn argon2_form(stored: Seq<char>) -> Result<(), Seq<char>>;

/// Whether a stored hash is that of a password.
pub uninterp spec fn argon2_matches(stored: Seq<char>, password: Seq<char>) -> bool;

/// Whether a number of nine digits or more is set for `p` at a place.
pub open spec fn sets_threads(s: Seq<char>, i: int) -> bool {
    &&& 0 <= i
    &&& i + 11 <= s.len()
    &&& s[i] == 'p'
    &&& s[i + 1] == '='
    &&& forall|j: int| i + 2 <= j < i + 11 ==> 48 <= #[trigger] s[j] as u32 <= 57
}

/// Whether a stored text asks for threads by the hundreds of millions. A hash can
/// have no more than 16777215, so no password is behind one that asks for these.
pub open spec fn claims_threads(s: Seq<char>) -> bool {
    exists|i: int| #[trigger] sets_threads(s, i)
}

/// Whether a stored hash is that of a password, or why it is no hash at all.
pub open spec fn password_check(stored: Seq<char>, password: Seq<char>) -> Result<
    bool,
    Seq<char>,
> {
    match argon2_form(stored) {
        Err(why) => Err(why),
        Ok(_) => Ok(!claims_threads(stored) && argon2_matches(stored, password)),
    }
}

/// A result on a string over a text.
pub open spec fn form_view(r: Result<(), String>) -> Result<(), Seq<char>> {
    match r {
        Ok(_) => Ok(()),
        Err(e) => Err(e@),
    }
}

/// A result on strings over texts.
pub open spec fn hash_view(r: Result<String, String>) -> Result<Seq<char>, Seq<char>> {
    match r {
        Ok(h) => Ok(h@),
        Err(e) => Err(e@),
    }
}

/// A check's result over texts.
pub open spec fn check_view(r: Result<bool, String>) -> Result<bool, Seq<char>> {
    match r {
        Ok(b) => Ok(b),
        Err(e) => Err(e@),
    }
}

/// Whether a check found the password to be the right one.
pub open spec fn accepted(r: Result<bool, Seq<char>>) -> bool {
    match r {
        Ok(b) => b,
        Err(_) => false,
    }
}

/// `Argon2::default().hash_password` with a salt of 16 bytes: the hash as its
/// own text, a function of password and salt. That text is a hash, asks for one
/// thread, and the password is behind it.
#[verifier::external_body]
pub(crate) fn hash_password(password: &str, salt: &Vec<u8>) -> (r: Result<String, String>)
    requires
        salt.len() == 16,
    ensures
        hash_view(r) == argon2_hash(password@, salt@),
        r matches Ok(h) ==> accepted(password_check(h@, password@)),
{
    let salt = SaltString::encode_b64(salt).map_err(|e| e.to_string())?;
    Argon2::default()
        .hash_password(password.as_bytes(), &salt)
        .map(|h| h.to_string())
        .map_err(|e| e.to_string())
}

/// `PasswordHash::new`: whether a stored text is a hash, or the reason why it is
/// none. A function of the text.
#[verifier::external_body]
fn read_hash(stored: &str) -> (r: Result<(), String>)
    ensures
        form_view(r) == argon2_form(stored@),
{
    PasswordHash::new(stored).map(|_| ()).map_err(|e| e.to_string())
}

/// `Argon2::default().verify_password`: whether the password is the one behind
/// the stored hash, a function of the two texts. A hash that asks for threads by
/// the hundreds of millions is left out: `argon2` multiplies their number by
/// eight before it looks whether there may be as many. The memory that a hash asks
/// for is allocated, and nothing is said of a machine that has less.
#[verifier::external_body]
fn verify_hash(stored: &str, password: &str) -> (r: bool)
    requires
        !claims_threads(stored@),
    ensures
        r == argon2_matches(stored@, password@),
{
    PasswordHash::new(stored)
        .is_ok_and(|hash| Argon2::default().verify_password(password.as_bytes(), &hash).is_ok())
}

/// Whether a stored text asks for threads by the hundreds of millions.
fn asks_for_threads(stored: &str) -> (r: bool)
    ensures
        r == claims_threads(stored@),
{
    let v = to_chars(stored);
    let mut i: usize = 0;
    while i < v.len()
        invariant
            v@ == stored@,
            i <= v.len(),
            forall|k: int| 0 <= k < i ==> !#[trigger] sets_threads(v@, k),
        decreases v.len() - i,
    {
        let mut n: usize = 0;
        if v[i] == 'p' && v.len() - i >= 11 && v[i + 1] == '=' {
            while n < 9 && 48 <= v[i + 2 + n] as u32 && v[i + 2 + n] as u32 <= 57
                invariant
                    n <= 9,
                    i + 11 <= v.len(),
                    forall|j: int| i + 2 <= j < i + 2 + n ==> 48 <= #[trigger] v@[j] as u32 <= 57,
                decreases 9 - n,
            {
                n += 1;
            }
        }
        if n == 9 {
            assert(sets_threads(v@, i as int));
            return true;
        }
        assert(!sets_threads(v@, i as int)) by {
            if sets_threads(v@, i as int) {
                assert(48 <= v@[i + 2 + n] as u32 <= 57);
            }
        }
        i += 1;
    }
    false
}

/// Whether the password is the one behind the stored hash, or the reason why the
/// stored text is no hash.
pub fn check_password(stored: &str, password: &str) -> (r: Result<bool, String>)
    ensures
        check_view(r) == password_check(stored@, password@),
{
    match read_hash(stored) {
        Err(why) => Err(why),
        Ok(_) => Ok(!asks_for_threads(stored) && verify_hash(stored, password)),
    }
}

/// How a token is stored: the digest of its text, encoded.
pub open spec fn token_hash(token: Seq<char>) -> Seq<char> {
    base64_url(sha256(encode_utf8(token)))
}

/// Tokens are stored hashed, so a leaked table does not hand over live
/// sessions the way a table of raw tokens would.
pub fn hash_token(token: &str) -> (r: String)
    ensures
        r@ == token_hash(token@),
{
    encode_url(digest(token.as_bytes()).as_slice())
}

} // verus!
