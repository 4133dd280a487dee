//! Passwords and the sealed list of users.
//!
//! A password is kept as a key derived from it and a random salt, both in
//! base64. The list of users is kept as one sealed text: twelve bytes of
//! nonce and the list encrypted under a key made from a secret, in base64.

use crate::text::same_text;
use vstd::prelude::*;
use vstd::slice::slice_subrange;
use vstd::utf8::{decode_utf8, encode_utf8, valid_utf8};

verus! {

/// How often the key derivation runs its inner function.
pub const KEY_ROUNDS: u32 = 600_000;

/// The length of a salt in bytes.
pub const SALT_LEN: usize = 16;

/// The length of a nonce in bytes.
pub const NONCE_LEN: usize = 12;

/// A user as stored: the name, the derived key and the salt, both in base64.
#[derive(Debug, Clone)]
pub struct User {
    pub username: String,
    pub password_hash: String,
    pub salt: String,
}

/// What can go wrong with the sealed list of users.
#[derive(Clone, Copy, Debug, PartialEq, Eq, Structural)]
pub enum AuthError {
    EncryptionError,
    DecryptionError,
    JsonError,
    Utf8Error,
    DecodeError,
}

impl AuthError {
    /// The words with which the error is told.
    pub open spec fn words(self) -> Seq<char> {
        match self {
            AuthError::EncryptionError => "Encryption error"@,
            AuthError::DecryptionError => "Decryption error"@,
            AuthError::JsonError => "JSON serialization error"@,
            AuthError::Utf8Error => "UTF-8 error"@,
            AuthError::DecodeError => "Decoding error"@,
        }
    }

    /// Returns the words with which the error is told.
    pub fn description(self) -> (text: &'static str)
        ensures
            text@ == self.words(),
    {
        match self {
            AuthError::EncryptionError => "Encryption error",
            AuthError::DecryptionError => "Decryption error",
            AuthError::JsonError => "JSON serialization error",
            AuthError::Utf8Error => "UTF-8 error",
            AuthError::DecodeError => "Decoding error",
        }
    }
}

/// The error that base64 reports for a text it cannot decode.
#[verifier::external_type_specification]
#[verifier::external_body]
pub struct ExDecodeError(base64::DecodeError);

/// The base64 text of some bytes: standard alphabet, padded.
pub uninterp spec fn base64_text(bytes: Seq<u8>) -> Seq<char>;

/// The bytes that a base64 text stands for, if it is one.
pub uninterp spec fn base64_bytes(text: Seq<char>) -> Option<Seq<u8>>;

/// The 32 bytes that PBKDF2 with HMAC-SHA256 derives from a password.
pub uninterp spec fn derived_key(password: Seq<u8>, salt: Seq<u8>, rounds: u32) -> Seq<u8>;

/// The SHA-256 digest of some bytes.
pub uninterp spec fn sha256(data: Seq<u8>) -> Seq<u8>;

/// What AES-256-GCM makes of a plain text under a key and a nonce: the
/// cipher text with its tag, or nothing where the text is too long.
pub uninterp spec fn sealed(key: Seq<u8>, nonce: Seq<u8>, plain: Seq<u8>) -> Option<Seq<u8>>;

/// What AES-256-GCM reads from a cipher text under a key and a nonce: the
/// plain text, or nothing where the tag does not fit.
pub uninterp spec fn opened(key: Seq<u8>, nonce: Seq<u8>, cipher: Seq<u8>) -> Option<Seq<u8>>;

/// Whether bytes are few enough for their base64 text to have a length.
pub open spec fn encodable(len: nat) -> bool {
    len / 3 < usize::MAX / 4
}

/// `Engine::encode` of base64, on the standard engine: the base64 text of
/// the bytes. Decoding that text gives the bytes back. The call needs the
/// length of the text to fit the machine.
#[verifier::external_body]
fn encode_base64(bytes: &[u8]) -> (text: String)
    requires
        encodable(bytes@.len()),
    ensures
        text@ == base64_text(bytes@),
        base64_bytes(text@) == Some(bytes@),
{
    base64::Engine::encode(&base64::engine::general_purpose::STANDARD, bytes)
}

/// `Engine::decode` of base64, on the standard engine: the bytes that the
/// text stands for, or the error where it is no base64 text.
#[verifier::external_body]
fn decode_base64(text: &str) -> (bytes: Result<Vec<u8>, base64::DecodeError>)
    ensures
        match bytes {
            Ok(b) => base64_bytes(text@) == Some(b@),
            Err(_) => base64_bytes(text@) is None,
        },
{
    base64::Engine::decode(&base64::engine::general_purpose::STANDARD, text)
}

/// `pbkdf2` of the crate of that name, with HMAC-SHA256: fills 32 bytes
/// with the key derived from password and salt. HMAC takes a key of any
/// length, so the call cannot fail.
#[verifier::external_body]
fn pbkdf2_sha256(password: &[u8], salt: &[u8], rounds: u32) -> (key: Vec<u8>)
    ensures
        key@ == derived_key(password@, salt@, rounds),
        key@.len() == 32,
{
    let mut key = [0u8; 32];
    pbkdf2::pbkdf2::<hmac::Hmac<sha2::Sha256>>(password, salt, rounds, &mut key)
        .expect("HMAC takes a key of any length");
    key.to_vec()
}

/// `Sha256::digest` of sha2: the 32 bytes of the SHA-256 digest.
#[verifier::external_body]
fn sha256_digest(data: &[u8]) -> (digest: Vec<u8>)
    ensures
        digest@ == sha256(data@),
        digest@.len() == 32,
{
    <sha2::Sha256 as sha2::Digest>::digest(data).to_vec()
}

/// `Aead::encrypt` of AES-256-GCM: the cipher text with its tag, or nothing
/// where the plain text is too long. Opening the cipher text under the same
/// key and nonce gives the plain text back.
#[verifier::external_body]
fn aes_gcm_seal(key: &[u8], nonce: &[u8], plain: &[u8]) -> (cipher: Option<Vec<u8>>)
    requires
        key@.len() == 32,
        nonce@.len() == 12,
    ensures
        match cipher {
            Some(c) => sealed(key@, nonce@, plain@) == Some(c@) && opened(key@, nonce@, c@)
                == Some(plain@),
            None => sealed(key@, nonce@, plain@) is None,
        },
{
    let cipher = <aes_gcm::Aes256Gcm as aes_gcm::KeyInit>::new(
        aes_gcm::Key::<aes_gcm::Aes256Gcm>::from_slice(key),
    );
    aes_gcm::aead::Aead::encrypt(&cipher, aes_gcm::Nonce::from_slice(nonce), plain).ok()
}

/// `Aead::decrypt` of AES-256-GCM: the plain text, or nothing where the
/// cipher text does not carry the tag that key and nonce give it.
#[verifier::external_body]
fn aes_gcm_open(key: &[u8], nonce: &[u8], cipher: &[u8]) -> (plain: Option<Vec<u8>>)
    requires
        key@.len() == 32,
        nonce@.len() == 12,
    ensures
        match plain {
            Some(p) => opened(key@, nonce@, cipher@) == Some(p@),
            None => opened(key@, nonce@, cipher@) is None,
        },
{
    let opener = <aes_gcm::Aes256Gcm as aes_gcm::KeyInit>::new(
        aes_gcm::Key::<aes_gcm::Aes256Gcm>::from_slice(key),
    );
    aes_gcm::aead::Aead::decrypt(&opener, aes_gcm::Nonce::from_slice(nonce), cipher).ok()
}

/// `RngCore::try_fill_bytes` of rand, on the generator of the operating
/// system: `len` random bytes, or nothing where the system gives none.
#[verifier::external_body]
fn random_bytes(len: usize) -> (bytes: Option<Vec<u8>>)
    ensures
        bytes matches Some(b) ==> b@.len() == len,
{
    let mut bytes = vec![0u8; len];
    match rand::RngCore::try_fill_bytes(&mut rand::rngs::OsRng, &mut bytes) {
        Ok(()) => Some(bytes),
        Err(_) => None,
    }
}

/// `ConstantTimeEq::ct_eq` of subtle, on byte slices: whether the two hold
/// the same bytes, found in a time that does not depend on the bytes.
#[verifier::external_body]
fn same_bytes(left: &[u8], right: &[u8]) -> (same: bool)
    ensures
        same == (left@ == right@),
{
    subtle::ConstantTimeEq::ct_eq(left, right).into()
}

/// `std::str::from_utf8`: the text that the bytes encode, or nothing where
/// they are not UTF-8.
#[verifier::external_body]
fn utf8_text(bytes: &[u8]) -> (text: Option<String>)
    ensures
        match text {
            Some(t) => valid_utf8(bytes@) && t@ == decode_utf8(bytes@),
            None => !valid_utf8(bytes@),
        },
{
    match std::str::from_utf8(bytes) {
        Ok(text) => Some(text.to_owned()),
        Err(_) => None,
    }
}

/// The key and the salt of a password as they are stored.
pub open spec fn stored(password: Seq<char>, salt: Seq<u8>) -> (Seq<char>, Seq<char>) {
    (base64_text(derived_key(encode_utf8(password), salt, KEY_ROUNDS)), base64_text(salt))
}

/// Whether a password is the one that was stored as `hash` with `salt`:
/// both must be base64, and the key derived from the password with the salt
/// must be the stored one.
pub open spec fn password_matches(password: Seq<char>, hash: Seq<char>, salt: Seq<char>) -> bool {
    match (base64_bytes(salt), base64_bytes(hash)) {
        (Some(salt_bytes), Some(hash_bytes)) => derived_key(
            encode_utf8(password),
            salt_bytes,
            KEY_ROUNDS,
        ) == hash_bytes,
        _ => false,
    }
}

/// Derives the key of a password with the given salt. What comes back is
/// the key and the salt in base64, and the password matches them.
pub fn hash_with_salt(password: &str, salt: &[u8]) -> (kept: (String, String))
    requires
        salt@.len() == SALT_LEN,
    ensures
        (kept.0@, kept.1@) == stored(password@, salt@),
        password_matches(password@, kept.0@, kept.1@),
{
    let salt_text = encode_base64(salt);
    let key = pbkdf2_sha256(password.as_bytes(), salt, KEY_ROUNDS);
    let hash_text = encode_base64(key.as_slice());
    (hash_text, salt_text)
}

/// Derives the key of a password with a fresh random salt. Nothing comes
/// back where the operating system has no random bytes to give.
pub fn hash_password(password: &str) -> (kept: Option<(String, String)>)
    ensures
        kept matches Some(pair) ==> {
            &&& exists|salt: Seq<u8>|
                salt.len() == SALT_LEN && (pair.0@, pair.1@) == #[trigger] stored(password@, salt)
            &&& password_matches(password@, pair.0@, pair.1@)
        },
{
    match random_bytes(SALT_LEN) {
        None => None,
        Some(salt) => {
            let kept = hash_with_salt(password, salt.as_slice());
            assert((kept.0@, kept.1@) == stored(password@, salt@));
            Some(kept)
        },
    }
}

/// Tells whether a password is the one that was stored as `hash` with `salt`.
pub fn verify_password(password: &str, hash: &str, salt: &str) -> (good: bool)
    ensures
        good == password_matches(password@, hash@, salt@),
{
    let salt_bytes = match decode_base64(salt) {
        Ok(bytes) => bytes,
        Err(_) => {
            return false;
        },
    };
    let hash_bytes = match decode_base64(hash) {
        Ok(bytes) => bytes,
        Err(_) => {
            return false;
        },
    };
    let key = pbkdf2_sha256(password.as_bytes(), salt_bytes.as_slice(), KEY_ROUNDS);
    same_bytes(key.as_slice(), hash_bytes.as_slice())
}

/// The key under which the list of users is sealed: the digest of the secret.
pub open spec fn sealing_key(secret: Seq<char>) -> Seq<u8> {
    sha256(encode_utf8(secret))
}

/// Makes the 32-byte key for the list of users from a secret.
pub fn derive_key(secret: &str) -> (key: Vec<u8>)
    ensures
        key@ == sealing_key(secret@),
        key@.len() == 32,
{
    sha256_digest(secret.as_bytes())
}

/// The sealed text of a list of users under a secret and a nonce: the base64
/// of the nonce and the cipher text behind it.
pub open spec fn sealed_text(json: Seq<char>, secret: Seq<char>, nonce: Seq<u8>) -> Result<
    Seq<char>,
    AuthError,
> {
    match sealed(sealing_key(secret), nonce, encode_utf8(json)) {
        Some(cipher) => if encodable((nonce + cipher).len()) {
            Ok(base64_text(nonce + cipher))
        } else {
            Err(AuthError::EncryptionError)
        },
        None => Err(AuthError::EncryptionError),
    }
}

/// The list of users that a sealed text holds under a secret.
pub open spec fn opened_text(text: Seq<char>, secret: Seq<char>) -> Result<Seq<char>, AuthError> {
    match base64_bytes(text) {
        None => Err(AuthError::DecodeError),
        Some(payload) => if payload.len() < NONCE_LEN {
            Err(AuthError::DecryptionError)
        } else {
            match opened(
                sealing_key(secret),
                payload.subrange(0, NONCE_LEN as int),
                payload.subrange(NONCE_LEN as int, payload.len() as int),
            ) {
                None => Err(AuthError::DecryptionError),
                Some(plain) => if valid_utf8(plain) {
                    Ok(decode_utf8(plain))
                } else {
                    Err(AuthError::Utf8Error)
                },
            }
        },
    }
}

/// The view of a result that holds a text.
pub open spec fn text_result(result: Result<String, AuthError>) -> Result<Seq<char>, AuthError> {
    match result {
        Ok(text) => Ok(text@),
        Err(error) => Err(error),
    }
}

/// Seals the list of users, given as JSON text, under a secret and a nonce.
/// A sealed text opens to the list it was made from.
pub fn encrypt_with_nonce(json: &str, secret: &str, nonce: &[u8]) -> (out: Result<
    String,
    AuthError,
>)
    requires
        nonce@.len() == NONCE_LEN,
    ensures
        text_result(out) == sealed_text(json@, secret@, nonce@),
        out matches Ok(text) ==> opened_text(text@, secret@) == Ok::<Seq<char>, AuthError>(json@),
{
    let key = derive_key(secret);
    let cipher = match aes_gcm_seal(key.as_slice(), nonce, json.as_bytes()) {
        Some(cipher) => cipher,
        None => {
            return Err(AuthError::EncryptionError);
        },
    };
    let mut payload: Vec<u8> = Vec::new();
    payload.extend_from_slice(nonce);
    payload.extend_from_slice(cipher.as_slice());
    assert(payload@ =~= nonce@ + cipher@);
    if payload.len() / 3 >= usize::MAX / 4 {
        return Err(AuthError::EncryptionError);
    }
    let text = encode_base64(payload.as_slice());
    proof {
        assert(payload@.subrange(0, NONCE_LEN as int) =~= nonce@);
        assert(payload@.subrange(NONCE_LEN as int, payload@.len() as int) =~= cipher@);
        vstd::utf8::encode_utf8_valid_utf8(json@);
        vstd::utf8::encode_utf8_decode_utf8(json@);
    }
    Ok(text)
}

/// Seals the list of users, given as JSON text, under a secret and a fresh
/// random nonce. It fails where the operating system has no random bytes to
/// give, and where the sealing fails.
pub fn encrypt_users(json: &str, secret: &str) -> (out: Result<String, AuthError>)
    ensures
        match out {
            Ok(text) => {
                &&& exists|nonce: Seq<u8>|
                    nonce.len() == NONCE_LEN && #[trigger] sealed_text(json@, secret@, nonce) == Ok::<
                        Seq<char>,
                        AuthError,
                    >(text@)
                &&& opened_text(text@, secret@) == Ok::<Seq<char>, AuthError>(json@)
            },
            Err(error) => error == AuthError::EncryptionError,
        },
{
    match random_bytes(NONCE_LEN) {
        None => Err(AuthError::EncryptionError),
        Some(nonce) => {
            let out = encrypt_with_nonce(json, secret, nonce.as_slice());
            assert(text_result(out) == sealed_text(json@, secret@, nonce@));
            out
        },
    }
}

/// Opens a sealed list of users and returns it as JSON text.
pub fn decrypt_users(encrypted_data: &str, secret: &str) -> (out: Result<String, AuthError>)
    ensures
        text_result(out) == opened_text(encrypted_data@, secret@),
{
    let payload = match decode_base64(encrypted_data) {
        Ok(payload) => payload,
        Err(_) => {
            return Err(AuthError::DecodeError);
        },
    };
    if payload.len() < NONCE_LEN {
        return Err(AuthError::DecryptionError);
    }
    let nonce = slice_subrange(payload.as_slice(), 0, NONCE_LEN);
    let cipher = slice_subrange(payload.as_slice(), NONCE_LEN, payload.len());
    let key = derive_key(secret);
    let plain = match aes_gcm_open(key.as_slice(), nonce, cipher) {
        Some(plain) => plain,
        None => {
            return Err(AuthError::DecryptionError);
        },
    };
    match utf8_text(plain.as_slice()) {
        Some(text) => Ok(text),
        None => Err(AuthError::Utf8Error),
    }
}

/// A list of users without those of the given name.
pub open spec fn without(users: Seq<User>, name: Seq<char>) -> Seq<User>
    decreases users.len(),
{
    if users.len() == 0 {
        seq![]
    } else if users[0].username@ == name {
        without(users.drop_first(), name)
    } else {
        seq![users[0]] + without(users.drop_first(), name)
    }
}

/// Whether a list of users holds one of the given name.
pub open spec fn knows(users: Seq<User>, name: Seq<char>) -> bool {
    exists|i: int| 0 <= i < users.len() && #[trigger] users[i].username@ == name
}

/// Tells whether a list of users holds one of the given name.
pub fn has_user(users: &Vec<User>, name: &str) -> (yes: bool)
    ensures
        yes == knows(users@, name@),
{
    let mut i: usize = 0;
    while i < users.len()
        invariant
            i <= users.len(),
            forall|j: int| 0 <= j < i ==> (#[trigger] users[j]).username@ != name@,
        decreases users.len() - i,
    {
        if same_text(users[i].username.as_str(), name) {
            return true;
        }
        i += 1;
    }
    false
}

/// Adds a user to a list, or puts the user in the place of those of the
/// same name: the others stay in their order, and the user comes last.
pub fn upsert_user(users: Vec<User>, user: User) -> (updated: Vec<User>)
    ensures
        updated@ == without(users@, user.username@).push(user),
        !knows(without(users@, user.username@), user.username@),
{
    let mut rest = users;
    let mut updated: Vec<User> = Vec::new();
    assert(updated@ + without(rest@, user.username@) =~= without(users@, user.username@));
    while rest.len() > 0
        invariant
            updated@ + without(rest@, user.username@) == without(users@, user.username@),
        decreases rest.len(),
    {
        let ghost before = rest@;
        let ghost done = updated@;
        let other = rest.remove(0);
        assert(rest@ =~= before.drop_first());
        if !same_text(other.username.as_str(), user.username.as_str()) {
            updated.push(other);
            assert(updated@ + without(rest@, user.username@) =~= done + without(
                before,
                user.username@,
            ));
        }
    }
    proof {
        assert(updated@ =~= without(users@, user.username@));
        lemma_without(users@, user.username@);
    }
    updated.push(user);
    updated
}

/// A list without the users of a name holds none of that name.
pub proof fn lemma_without(users: Seq<User>, name: Seq<char>)
    ensures
        !knows(without(users, name), name),
        forall|i: int|
            0 <= i < without(users, name).len() ==> (#[trigger] without(
                users,
                name,
            )[i]).username@ != name,
    decreases users.len(),
{
    if users.len() > 0 {
        lemma_without(users.drop_first(), name);
    }
}

} // verus!
