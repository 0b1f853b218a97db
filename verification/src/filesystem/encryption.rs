use vstd::prelude::*;
use crate::filesystem::error::MyError;

verus! {

#[verifier::external_type_specification]
#[verifier::external_body]
pub struct ExAgeEncryptError(age::EncryptError);

#[verifier::external_type_specification]
#[verifier::external_body]
pub struct ExAgeDecryptError(age::DecryptError);

#[verifier::external_type_specification]
#[verifier::external_body]
pub struct ExBech32Error(bech32::Error);

/// Whether bytes are an age file encrypted to recipients: its header
/// parses (`age::Decryptor::new_buffered` gives a decryptor) and the file
/// is not encrypted to a passphrase (`is_scrypt` is false).
pub uninterp spec fn is_recipients_age_file(input: Seq<u8>) -> bool;

/// The Bech32 text of bytes (taken as groups of five bits) under a
/// human-readable part, `None` for a part that Bech32 refuses: what
/// `bech32::encode` gives with the Bech32 variant.
pub uninterp spec fn bech32_encoding(hrp: Seq<char>, data: Seq<u8>) -> Option<Seq<char>>;

/// Whether a text is that of an age X25519 secret key: what makes the
/// `FromStr` of `age::x25519::Identity` succeed.
pub uninterp spec fn names_age_identity(text: Seq<char>) -> bool;

/// What `age::decrypt` gives of a file with the X25519 identity whose
/// secret key has the text `secret`: the plaintext, `None` for an error
/// (the bytes are no age file, no recipient of the file is that identity,
/// the payload does not authenticate).
pub uninterp spec fn age_decryption(file: Seq<u8>, secret: Seq<char>) -> Option<Seq<u8>>;

/// Calls `bech32::encode` with the Bech32 variant, on the bytes taken as
/// groups of five bits: the text of the bytes under the human-readable
/// part, or the error of a part that Bech32 refuses. Claims that the
/// outcome is `bech32_encoding` of the arguments.
#[verifier::external_body]
fn bech32_encode(hrp: &str, data: &[u8]) -> (r: Result<String, bech32::Error>)
    ensures
        match r {
            Ok(s) => bech32_encoding(hrp@, data@) == Some(s@),
            Err(_) => bech32_encoding(hrp@, data@) is None,
        },
{
    bech32::encode(hrp, bech32::ToBase32::to_base32(&data), bech32::Variant::Bech32)
}

/// Calls `FromStr::from_str` of `age::x25519::Identity` and tells whether
/// the text names an identity. Claims that it does exactly for the texts
/// that `names_age_identity` holds of.
#[verifier::external_body]
fn names_identity(text: &str) -> (b: bool)
    ensures
        b == names_age_identity(text@),
{
    text.parse::<age::x25519::Identity>().is_ok()
}

/// Calls `age::Decryptor::new_buffered` on the bytes and tells whether it
/// gives a decryptor of a file that is not encrypted to a passphrase (its
/// `is_scrypt`). Claims that this is `is_recipients_age_file` of the bytes.
#[verifier::external_body]
fn recipients_file(input: &[u8]) -> (b: bool)
    ensures
        b == is_recipients_age_file(input@),
{
    match age::Decryptor::new_buffered(input) {
        Ok(decryptor) => !decryptor.is_scrypt(),
        Err(_) => false,
    }
}

/// Calls `age::encrypt` with the recipient of the X25519 identity whose
/// secret key has the text `secret` (the text is converted to that
/// identity, then to its recipient): the encrypted file. Claims what age's
/// source shows: with one X25519 recipient and the output in memory it
/// does not fail (the recipient's stanza carries no labels, the header has
/// no passphrase stanza, writes to a `Vec` do not fail, and the chunk
/// counter cannot run out); the file's header names X25519 recipients
/// only, so it is an age file encrypted to recipients; and `age::decrypt`
/// with that identity gives `plaintext` back (age's documented round trip).
/// Nothing more is claimed of the bytes (the file key and nonce are random).
/// age panics when the system's random generator yields an all-zero
/// ephemeral key; no argument decides that, so no `requires` excludes it.
#[verifier::external_body]
fn encrypt_to_secret(secret: &str, plaintext: &[u8]) -> (r: Result<Vec<u8>, age::EncryptError>)
    requires
        names_age_identity(secret@),
    ensures
        r is Ok,
        r matches Ok(c) ==> is_recipients_age_file(c@) && age_decryption(c@, secret@) == Some(
            plaintext@,
        ),
{
    let identity: age::x25519::Identity = secret.parse().expect("a secret key");
    age::encrypt(&identity.to_public(), plaintext)
}

/// Calls `age::decrypt` with the X25519 identity whose secret key has the
/// text `secret` (the text is converted to that identity): the plaintext,
/// or the error. Claims that the outcome is `age_decryption` of the file and
/// the text.
#[verifier::external_body]
fn decrypt_with_secret(secret: &str, file: &[u8]) -> (r: Result<Vec<u8>, age::DecryptError>)
    requires
        names_age_identity(secret@),
    ensures
        match r {
            Ok(p) => age_decryption(file@, secret@) == Some(p@),
            Err(_) => age_decryption(file@, secret@) is None,
        },
{
    let identity: age::x25519::Identity = secret.parse().expect("a secret key");
    age::decrypt(&identity, file)
}

/// Calls `ToString::to_string` on a decryption error of age: its message.
#[verifier::external_body]
fn decrypt_error_text(err: &age::DecryptError) -> (s: String) {
    err.to_string()
}

/// The human-readable part of the text of an age X25519 secret key.
pub open spec fn secret_key_hrp() -> Seq<char> {
    "age-secret-key-"@
}

/// Whether the 32 bytes of a key make an age identity: their Bech32 text
/// under `secret_key_hrp` is that of a secret key.
pub open spec fn key_names_identity(key: Seq<u8>) -> bool {
    bech32_encoding(secret_key_hrp(), key) matches Some(text) && names_age_identity(text)
}

/// What decrypting a file with the identity whose secret key is `key`
/// gives: the plaintext, `None` when it fails or the key makes no identity.
pub open spec fn decryption_with_key(file: Seq<u8>, key: Seq<u8>) -> Option<Seq<u8>> {
    match bech32_encoding(secret_key_hrp(), key) {
        Some(text) => if names_age_identity(text) {
            age_decryption(file, text)
        } else {
            None
        },
        None => None,
    }
}

/// Whether `file` is what encrypting `input` with `key` can give: an age
/// file encrypted to recipients that decrypts with `key` to `input`.
pub open spec fn encrypted_with(file: Seq<u8>, input: Seq<u8>, key: Seq<u8>) -> bool {
    is_recipients_age_file(file) && decryption_with_key(file, key) == Some(input)
}

/// The message of a key that makes no age identity.
pub open spec fn unusable_key_message() -> Seq<char> {
    "the key does not name an age identity"@
}

/// What is encrypted with a key reads back with the same key: a file that
/// `encrypt` gave for `input` and `key` is one that `decrypt` accepts, and
/// decrypting it with `key` gives `input`.
pub proof fn law_read_back(file: Seq<u8>, input: Seq<u8>, key: Seq<u8>)
    requires
        encrypted_with(file, input, key),
    ensures
        is_recipients_age_file(file),
        key_names_identity(key),
        decryption_with_key(file, key) == Some(input),
{
}

/// The encryption of file contents.
pub struct FileEncryption {}

impl FileEncryption {
    /// The text of the age secret key that `key` is: its Bech32 text under
    /// `secret_key_hrp`, when that names an identity.
    fn secret_key_text(key: &[u8; 32]) -> (r: Result<String, MyError>)
        ensures
            match r {
                Ok(t) => key_names_identity(key@) && bech32_encoding(secret_key_hrp(), key@) == Some(
                    t@,
                ),
                Err(e) => !key_names_identity(key@) && e@ == unusable_key_message(),
            },
    {
        match bech32_encode("age-secret-key-", key) {
            Ok(text) => if names_identity(text.as_str()) {
                Ok(text)
            } else {
                Err(MyError::new("the key does not name an age identity"))
            },
            Err(_) => Err(MyError::new("the key does not name an age identity")),
        }
    }

    /// Encrypts `input` with age to the recipient of the identity whose
    /// secret key is `key` (the user's key): the encrypted file, or the
    /// error of a key that names no age identity. It fails exactly then, and
    /// every file it gives decrypts with `key` to `input`.
    pub fn encrypt(input: &[u8], key: &[u8; 32]) -> (r: Result<Vec<u8>, MyError>)
        ensures
            r is Ok <==> key_names_identity(key@),
            r matches Ok(c) ==> encrypted_with(c@, input@, key@),
            r matches Err(e) ==> e@ == unusable_key_message(),
    {
        let secret = match FileEncryption::secret_key_text(key) {
            Ok(secret) => secret,
            Err(err) => return Err(err),
        };
        match encrypt_to_secret(secret.as_str(), input) {
            Ok(encrypted) => Ok(encrypted),
            Err(_) => {
                proof {
                    assert(false);
                }
                Err(MyError::new("the key does not name an age identity"))
            },
        }
    }

    /// Decrypts an age file encrypted to recipients with the identity whose
    /// secret key is `key`: the plaintext, or the message of the error
    /// (among others, no recipient of the file is that identity).
    pub fn decrypt(input: &[u8], key: &[u8; 32]) -> (r: Result<Vec<u8>, MyError>)
        requires
            is_recipients_age_file(input@),
        ensures
            match decryption_with_key(input@, key@) {
                Some(p) => r matches Ok(d) && d@ == p,
                None => r is Err,
            },
            !key_names_identity(key@) ==> (r matches Err(e) && e@ == unusable_key_message()),
    {
        let secret = match FileEncryption::secret_key_text(key) {
            Ok(secret) => secret,
            Err(err) => return Err(err),
        };
        match decrypt_with_secret(secret.as_str(), input) {
            Ok(decrypted) => Ok(decrypted),
            Err(err) => Err(MyError::from_string(decrypt_error_text(&err))),
        }
    }

    /// Decrypts `input` when it is an age file encrypted to recipients (see
    /// `decrypt`); `None` for any other input.
    pub fn try_decrypt(input: &[u8], key: &[u8; 32]) -> (r: Option<Result<Vec<u8>, MyError>>)
        ensures
            r is Some <==> is_recipients_age_file(input@),
            r is Some ==> match decryption_with_key(input@, key@) {
                Some(p) => r matches Some(Ok(d)) && d@ == p,
                None => r matches Some(Err(_)),
            },
            (r is Some && !key_names_identity(key@)) ==> (r matches Some(Err(e)) && e@
                == unusable_key_message()),
    {
        if recipients_file(input) {
            Some(FileEncryption::decrypt(input, key))
        } else {
            None
        }
    }
}

} // verus!
