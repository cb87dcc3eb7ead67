//! Model archives: a header, then content that a password seals.
use vstd::prelude::*;

use chacha20poly1305::aead::{Aead, KeyInit, Payload};
use chacha20poly1305::{XChaCha20Poly1305, XNonce};
use vstd::slice::slice_subrange;

use crate::text::{decimal, join3, say1};

verus! {

pub const FILE_VERSION: u32 = 1;

pub const SALT_LEN: usize = 16;

pub const NONCE_LEN: usize = 24;

pub const KEY_LEN: usize = 32;

pub const TAG_LEN: usize = 16;

pub const KDF_MEMORY_KIB: u32 = 19456;

pub const KDF_ITERATIONS: u32 = 2;

pub const KDF_PARALLELISM: u32 = 1;

pub const MAGIC_LEN: usize = 16;

pub const HEADER_LEN: usize = 72;

/// The longest message that the cipher seals.
pub const SEAL_LIMIT: u64 = 274877906816;

/// Why an archive cannot be made or read.
#[derive(Debug)]
pub enum ArchiveError {
    EmptyPassword,
    Randomness { reason: String },
    KeyDerivation { reason: String },
    TooLarge,
    NotAnArchive,
    UnsupportedFile { version: u32 },
    UnsafeParameters,
    WrongPasswordOrDamaged,
}

impl ArchiveError {
    /// What is said of the failure.
    pub open spec fn text(&self) -> Seq<char> {
        match *self {
            ArchiveError::EmptyPassword => "model export password cannot be empty"@,
            ArchiveError::Randomness { reason } => reason@,
            ArchiveError::KeyDerivation { reason } => "Argon2id key derivation failed: "@ + reason@
                + ""@,
            ArchiveError::TooLarge => "cannot encrypt model export"@,
            ArchiveError::NotAnArchive => "file is not a supported me model export"@,
            ArchiveError::UnsupportedFile { version } =>
                "unsupported model export file version "@ + decimal(version as nat) + ""@,
            ArchiveError::UnsafeParameters =>
                "model export contains unsafe key-derivation parameters"@,
            ArchiveError::WrongPasswordOrDamaged =>
                "model export password is incorrect or the file is damaged"@,
        }
    }

    /// What is said of the failure.
    pub fn message(&self) -> (text: String)
        ensures
            text@ == self.text(),
    {
        match self {
            ArchiveError::EmptyPassword => "model export password cannot be empty".to_owned(),
            ArchiveError::Randomness { reason } => reason.clone(),
            ArchiveError::KeyDerivation { reason } => join3(
                "Argon2id key derivation failed: ",
                reason.as_str(),
                "",
            ),
            ArchiveError::TooLarge => "cannot encrypt model export".to_owned(),
            ArchiveError::NotAnArchive => "file is not a supported me model export".to_owned(),
            ArchiveError::UnsupportedFile { version } => say1(
                "unsupported model export file version ",
                *version as u64,
                "",
            ),
            ArchiveError::UnsafeParameters =>
                "model export contains unsafe key-derivation parameters".to_owned(),
            ArchiveError::WrongPasswordOrDamaged =>
                "model export password is incorrect or the file is damaged".to_owned(),
        }
    }
}

/// The key that Argon2id derives from a password and a salt at a cost.
pub uninterp spec fn derived_key(
    password: Seq<char>,
    salt: Seq<u8>,
    memory: u32,
    iterations: u32,
    parallelism: u32,
) -> Seq<u8>;

/// What XChaCha20-Poly1305 seals a message to, with bytes that it binds but does not hide.
pub uninterp spec fn sealed(
    key: Seq<u8>,
    nonce: Seq<u8>,
    bound: Seq<u8>,
    message: Seq<u8>,
) -> Seq<u8>;

/// The message that XChaCha20-Poly1305 opens sealed bytes to, if they are genuine.
pub uninterp spec fn opened(
    key: Seq<u8>,
    nonce: Seq<u8>,
    bound: Seq<u8>,
    sealed: Seq<u8>,
) -> Option<Seq<u8>>;

/// `getrandom::fill`: as many bytes as are asked for, whatever they are, or the `Display` form of
/// the system's error.
#[verifier::external_body]
fn random_bytes(count: usize) -> (result: Result<Vec<u8>, String>)
    ensures
        match result {
            Ok(bytes) => bytes@.len() == count,
            Err(_) => true,
        },
{
    let mut bytes = vec![0u8; count];
    match getrandom::fill(&mut bytes) {
        Ok(()) => Ok(bytes),
        Err(error) => Err(error.to_string()),
    }
}

/// `argon2::Argon2::hash_password_into` for Argon2id, version 0x13, with the parameters of
/// `argon2::Params::new` and keys of 32 bytes: the key is named. Whether the memory for it can be
/// had is up to the machine, so nothing is said of when it fails; the error is its `Display` form.
#[verifier::external_body]
fn derive_key(
    password: &str,
    salt: &[u8],
    memory: u32,
    iterations: u32,
    parallelism: u32,
) -> (result: Result<Vec<u8>, String>)
    requires
        salt@.len() == SALT_LEN,
        1 <= iterations,
        1 <= parallelism <= 16,
        8 * parallelism <= memory,
    ensures
        match result {
            Ok(key) => key@ == derived_key(password@, salt@, memory, iterations, parallelism)
                && key@.len() == KEY_LEN,
            Err(_) => true,
        },
{
    let mut key = vec![0u8; KEY_LEN];
    let derived = argon2::Params::new(memory, iterations, parallelism, Some(KEY_LEN)).and_then(
        |params| argon2::Argon2::new(argon2::Algorithm::Argon2id, argon2::Version::V0x13, params)
            .hash_password_into(password.as_bytes(), salt, &mut key));
    match derived {
        Ok(()) => Ok(key),
        Err(error) => Err(error.to_string()),
    }
}

/// Whether sealed bytes are others with another tag: the tag is what stands last.
pub open spec fn tag_altered(bytes: Seq<u8>, other: Seq<u8>) -> bool {
    &&& other.len() == bytes.len()
    &&& other.len() >= TAG_LEN
    &&& other.take(other.len() - TAG_LEN) == bytes.take(bytes.len() - TAG_LEN)
    &&& other != bytes
}

/// `Aead::encrypt` of `chacha20poly1305::XChaCha20Poly1305`: it seals every message up to its
/// limit, to bytes that are named, that are longer by a tag, and that open to the message again
/// under the same key, nonce and bound bytes. Under these the tag is the only one with which they
/// open. Nothing is said of other keys, nonces or bound bytes: that they do not open is very
/// likely, not certain.
#[verifier::external_body]
fn seal(key: &[u8], nonce: &[u8], bound: &[u8], message: &[u8]) -> (result: Option<Vec<u8>>)
    requires
        key@.len() == KEY_LEN,
        nonce@.len() == NONCE_LEN,
        message@.len() <= SEAL_LIMIT,
        message@.len() + TAG_LEN <= usize::MAX,
    ensures
        match result {
            Some(bytes) => {
                &&& bytes@ == sealed(key@, nonce@, bound@, message@)
                &&& bytes@.len() == message@.len() + TAG_LEN
                &&& opened(key@, nonce@, bound@, bytes@) == Some(message@)
                &&& forall|other: Seq<u8>|
                    tag_altered(bytes@, other) ==> (#[trigger] opened(
                        key@,
                        nonce@,
                        bound@,
                        other,
                    )) is None
            },
            None => false,
        },
{
    let cipher = XChaCha20Poly1305::new_from_slice(key).ok()?;
    let nonce = XNonce::try_from(nonce).ok()?;
    cipher.encrypt(&nonce, Payload { msg: message, aad: bound }).ok()
}

/// `Aead::decrypt` of `chacha20poly1305::XChaCha20Poly1305`: what it gives is named, and it opens
/// nothing but what the message seals to under the same key, nonce and bound bytes.
#[verifier::external_body]
fn open(key: &[u8], nonce: &[u8], bound: &[u8], bytes: &[u8]) -> (result: Option<Vec<u8>>)
    requires
        key@.len() == KEY_LEN,
        nonce@.len() == NONCE_LEN,
        bytes@.len() <= SEAL_LIMIT + TAG_LEN,
    ensures
        match result {
            Some(message) => {
                &&& opened(key@, nonce@, bound@, bytes@) == Some(message@)
                &&& bytes@ == sealed(key@, nonce@, bound@, message@)
            },
            None => opened(key@, nonce@, bound@, bytes@) is None,
        },
{
    let cipher = XChaCha20Poly1305::new_from_slice(key).ok()?;
    let nonce = XNonce::try_from(nonce).ok()?;
    cipher.decrypt(&nonce, Payload { msg: bytes, aad: bound }).ok()
}

/// The bytes that every archive begins with: `ME-MODEL-EXPORT` and a zero byte.
pub open spec fn magic() -> Seq<u8> {
    seq![77u8, 69, 45, 77, 79, 68, 69, 76, 45, 69, 88, 80, 79, 82, 84, 0]
}

/// A number in four bytes, the lowest first.
pub open spec fn le_bytes(number: u32) -> Seq<u8> {
    seq![
        (number % 256) as u8,
        (number / 256 % 256) as u8,
        (number / 65536 % 256) as u8,
        (number / 16777216) as u8,
    ]
}

/// The number that four bytes give, the lowest first.
pub open spec fn le_number(bytes: Seq<u8>) -> int {
    bytes[0] + 256 * bytes[1] + 65536 * bytes[2] + 16777216 * bytes[3]
}

/// Four bytes hold the number that they were made from.
pub proof fn law_number_reads_back(number: u32)
    ensures
        le_number(le_bytes(number)) == number,
{
}

/// The header of an archive.
pub open spec fn header(salt: Seq<u8>, nonce: Seq<u8>) -> Seq<u8> {
    magic() + le_bytes(FILE_VERSION) + le_bytes(KDF_MEMORY_KIB) + le_bytes(KDF_ITERATIONS)
        + le_bytes(KDF_PARALLELISM) + salt + nonce
}

/// The number in the header of a file at an offset behind the magic bytes.
pub open spec fn header_number(file: Seq<u8>, offset: int) -> int {
    le_number(file.subrange(MAGIC_LEN + offset, MAGIC_LEN + offset + 4))
}

/// Whether a key may be derived at the cost.
pub open spec fn safe_parameters(memory: int, iterations: int, parallelism: int) -> bool {
    8192 <= memory <= 262144 && 1 <= iterations <= 10 && 1 <= parallelism <= 16
}

/// What is wrong with the header of a file.
pub open spec fn header_problem(file: Seq<u8>) -> Option<ArchiveError> {
    if file.len() < HEADER_LEN + TAG_LEN || file.take(MAGIC_LEN as int) != magic() {
        Some(ArchiveError::NotAnArchive)
    } else if header_number(file, 0) != FILE_VERSION {
        Some(ArchiveError::UnsupportedFile { version: header_number(file, 0) as u32 })
    } else if !safe_parameters(
        header_number(file, 4),
        header_number(file, 8),
        header_number(file, 12),
    ) {
        Some(ArchiveError::UnsafeParameters)
    } else {
        None
    }
}

/// The salt in the header of a file.
pub open spec fn salt_of(file: Seq<u8>) -> Seq<u8> {
    file.subrange(MAGIC_LEN + 16, MAGIC_LEN + 16 + SALT_LEN)
}

/// The nonce in the header of a file.
pub open spec fn nonce_of(file: Seq<u8>) -> Seq<u8> {
    file.subrange(MAGIC_LEN + 16 + SALT_LEN, HEADER_LEN as int)
}

/// The key of a file under a password.
pub open spec fn key_of(file: Seq<u8>, password: Seq<char>) -> Seq<u8> {
    derived_key(
        password,
        salt_of(file),
        header_number(file, 4) as u32,
        header_number(file, 8) as u32,
        header_number(file, 12) as u32,
    )
}

/// What an archive holds under a password, if the password is right and the file whole.
pub open spec fn content(file: Seq<u8>, password: Seq<char>) -> Option<Seq<u8>> {
    opened(
        key_of(file, password),
        nonce_of(file),
        file.take(HEADER_LEN as int),
        file.skip(HEADER_LEN as int),
    )
}

/// Whether the file is an archive of the content under the password.
pub open spec fn is_archive_of(file: Seq<u8>, password: Seq<char>, plaintext: Seq<u8>) -> bool {
    &&& header_problem(file) is None
    &&& content(file, password) == Some(plaintext)
    &&& file.take(HEADER_LEN as int) == header(salt_of(file), nonce_of(file))
    &&& file.skip(HEADER_LEN as int) == sealed(
        key_of(file, password),
        nonce_of(file),
        file.take(HEADER_LEN as int),
        plaintext,
    )
    &&& forall|other: Seq<u8>|
        tag_altered(file.skip(HEADER_LEN as int), other) ==> (#[trigger] opened(
            key_of(file, password),
            nonce_of(file),
            file.take(HEADER_LEN as int),
            other,
        )) is None
    &&& file.len() == HEADER_LEN + plaintext.len() + TAG_LEN
    &&& plaintext.len() <= SEAL_LIMIT
}

/// Whether this is what comes of opening the file with the password: the problem of its header,
/// else its content, else that it has none. Only the derivation of the key is up to the machine.
pub open spec fn is_opening(
    file: Seq<u8>,
    password: Seq<char>,
    opening: Result<Seq<u8>, ArchiveError>,
) -> bool {
    match header_problem(file) {
        Some(problem) => opening == Err::<Seq<u8>, ArchiveError>(problem),
        None => {
            let fits = file.len() <= HEADER_LEN + SEAL_LIMIT + TAG_LEN;
            match opening {
                Ok(plaintext) => {
                    &&& fits
                    &&& content(file, password) == Some(plaintext)
                    &&& file.skip(HEADER_LEN as int) == sealed(
                        key_of(file, password),
                        nonce_of(file),
                        file.take(HEADER_LEN as int),
                        plaintext,
                    )
                },
                Err(error) => {
                    ||| error is KeyDerivation
                    ||| error is WrongPasswordOrDamaged && !(fits && content(file, password) is Some)
                },
            }
        },
    }
}

/// Whether the cipher answers to a message of the length. Between its own limit and that of its
/// key stream it does not.
pub open spec fn sealable(length: int) -> bool {
    length <= SEAL_LIMIT || length >= SEAL_LIMIT + 64
}

proof fn lemma_header(salt: Seq<u8>, nonce: Seq<u8>, rest: Seq<u8>)
    requires
        salt.len() == SALT_LEN,
        nonce.len() == NONCE_LEN,
    ensures
        ({
            let file = header(salt, nonce) + rest;
            &&& header(salt, nonce).len() == HEADER_LEN
            &&& file.take(HEADER_LEN as int) == header(salt, nonce)
            &&& file.skip(HEADER_LEN as int) == rest
            &&& file.take(MAGIC_LEN as int) == magic()
            &&& header_number(file, 0) == FILE_VERSION
            &&& header_number(file, 4) == KDF_MEMORY_KIB
            &&& header_number(file, 8) == KDF_ITERATIONS
            &&& header_number(file, 12) == KDF_PARALLELISM
            &&& salt_of(file) == salt
            &&& nonce_of(file) == nonce
        }),
{
    let file = header(salt, nonce) + rest;
    assert(file.take(HEADER_LEN as int) =~= header(salt, nonce));
    assert(file.skip(HEADER_LEN as int) =~= rest);
    assert(file.take(MAGIC_LEN as int) =~= magic());
    assert(file.subrange(16, 20) =~= le_bytes(FILE_VERSION));
    assert(file.subrange(20, 24) =~= le_bytes(KDF_MEMORY_KIB));
    assert(file.subrange(24, 28) =~= le_bytes(KDF_ITERATIONS));
    assert(file.subrange(28, 32) =~= le_bytes(KDF_PARALLELISM));
    law_number_reads_back(FILE_VERSION);
    law_number_reads_back(KDF_MEMORY_KIB);
    law_number_reads_back(KDF_ITERATIONS);
    law_number_reads_back(KDF_PARALLELISM);
    assert(salt_of(file) =~= salt);
    assert(nonce_of(file) =~= nonce);
}

/// Whatever follows the header, a file with it passes for an archive once a tag has room, and its
/// salt and nonce are those that the header was made with.
pub proof fn law_header_reads_back(salt: Seq<u8>, nonce: Seq<u8>, rest: Seq<u8>)
    requires
        salt.len() == SALT_LEN,
        nonce.len() == NONCE_LEN,
        rest.len() >= TAG_LEN,
    ensures
        header_problem(header(salt, nonce) + rest) is None,
        salt_of(header(salt, nonce) + rest) == salt,
        nonce_of(header(salt, nonce) + rest) == nonce,
{
    lemma_header(salt, nonce, rest);
}

fn append_bytes(bytes: &mut Vec<u8>, more: &[u8])
    ensures
        final(bytes)@ == old(bytes)@ + more@,
{
    let mut place: usize = 0;
    while place < more.len()
        invariant
            place <= more@.len(),
            bytes@ == old(bytes)@ + more@.take(place as int),
        decreases more@.len() - place,
    {
        assert(more@.take(place + 1) =~= more@.take(place as int).push(more@[place as int]));
        bytes.push(more[place]);
        place += 1;
    }
    assert(more@.take(place as int) =~= more@);
}

fn append_number(bytes: &mut Vec<u8>, number: u32)
    ensures
        final(bytes)@ == old(bytes)@ + le_bytes(number),
{
    bytes.push((number % 256) as u8);
    bytes.push((number / 256 % 256) as u8);
    bytes.push((number / 65536 % 256) as u8);
    bytes.push((number / 16777216) as u8);
    assert(bytes@ =~= old(bytes)@ + le_bytes(number));
}

fn magic_bytes() -> (bytes: Vec<u8>)
    ensures
        bytes@ == magic(),
{
    let bytes = vec![77u8, 69, 45, 77, 79, 68, 69, 76, 45, 69, 88, 80, 79, 82, 84, 0];
    assert(bytes@ =~= magic());
    bytes
}

/// The header of an archive with the salt and the nonce.
pub fn archive_header(salt: &[u8], nonce: &[u8]) -> (bytes: Vec<u8>)
    requires
        salt@.len() == SALT_LEN,
        nonce@.len() == NONCE_LEN,
    ensures
        bytes@ == header(salt@, nonce@),
{
    let mut bytes = magic_bytes();
    append_number(&mut bytes, FILE_VERSION);
    append_number(&mut bytes, KDF_MEMORY_KIB);
    append_number(&mut bytes, KDF_ITERATIONS);
    append_number(&mut bytes, KDF_PARALLELISM);
    append_bytes(&mut bytes, salt);
    append_bytes(&mut bytes, nonce);
    bytes
}

/// The number in four bytes at the offset, if there are as many.
pub fn read_u32(bytes: &[u8], offset: usize) -> (number: Option<u32>)
    ensures
        match number {
            Some(found) => offset + 4 <= bytes@.len() && found == le_number(
                bytes@.subrange(offset as int, offset + 4),
            ),
            None => offset + 4 > bytes@.len(),
        },
{
    if bytes.len() < 4 || offset > bytes.len() - 4 {
        return None;
    }
    let one = bytes[offset] as u32;
    let two = bytes[offset + 1] as u32;
    let three = bytes[offset + 2] as u32;
    let four = bytes[offset + 3] as u32;
    Some(one + 256 * two + 65536 * three + 16777216 * four)
}

/// Whether the bytes begin with the magic ones.
fn begins_with_magic(file: &[u8]) -> (result: bool)
    requires
        file@.len() >= MAGIC_LEN,
    ensures
        result == (file@.take(MAGIC_LEN as int) == magic()),
{
    let magic_bytes = magic_bytes();
    let mut place: usize = 0;
    while place < MAGIC_LEN
        invariant
            place <= MAGIC_LEN <= file@.len(),
            magic_bytes@ == magic(),
            forall|i: int| 0 <= i < place ==> file@[i] == magic()[i],
        decreases MAGIC_LEN - place,
    {
        if file[place] != magic_bytes[place] {
            assert(file@.take(MAGIC_LEN as int)[place as int] != magic()[place as int]);
            return false;
        }
        place += 1;
    }
    assert(file@.take(MAGIC_LEN as int) =~= magic());
    true
}

/// What is wrong with the header of the file.
pub fn check_header(file: &[u8]) -> (problem: Option<ArchiveError>)
    ensures
        problem == header_problem(file@),
{
    if file.len() < HEADER_LEN + TAG_LEN || !begins_with_magic(file) {
        return Some(ArchiveError::NotAnArchive);
    }
    if let (Some(version), Some(memory), Some(iterations), Some(parallelism)) = (
        read_u32(file, MAGIC_LEN),
        read_u32(file, MAGIC_LEN + 4),
        read_u32(file, MAGIC_LEN + 8),
        read_u32(file, MAGIC_LEN + 12),
    ) {
        if version != FILE_VERSION {
            return Some(ArchiveError::UnsupportedFile { version });
        }
        if memory < 8192 || memory > 262144 || iterations < 1 || iterations > 10 || parallelism < 1
            || parallelism > 16 {
            return Some(ArchiveError::UnsafeParameters);
        }
    }
    None
}

/// Refuses the empty password.
pub fn validate_password(password: &str) -> (result: Result<(), ArchiveError>)
    ensures
        result == (if password@.len() == 0 {
            Err::<(), ArchiveError>(ArchiveError::EmptyPassword)
        } else {
            Ok::<(), ArchiveError>(())
        }),
{
    if password.unicode_len() == 0 {
        Err(ArchiveError::EmptyPassword)
    } else {
        Ok(())
    }
}

/// Makes the archive of the bytes, given its salt, its nonce, and what came of deriving its key.
pub fn encrypt_with(
    plaintext: &[u8],
    salt: &[u8],
    nonce: &[u8],
    key: Result<Vec<u8>, String>,
) -> (result: Result<Vec<u8>, ArchiveError>)
    requires
        plaintext@.len() + TAG_LEN <= usize::MAX,
        salt@.len() == SALT_LEN,
        nonce@.len() == NONCE_LEN,
        key matches Ok(bytes) ==> bytes@.len() == KEY_LEN,
    ensures
        match key {
            Err(reason) => result == Err::<Vec<u8>, ArchiveError>(
                ArchiveError::KeyDerivation { reason },
            ),
            Ok(bytes) => if plaintext@.len() > SEAL_LIMIT {
                result == Err::<Vec<u8>, ArchiveError>(ArchiveError::TooLarge)
            } else {
                result matches Ok(file) && sealed_so(
                    file@,
                    header(salt@, nonce@),
                    bytes@,
                    nonce@,
                    plaintext@,
                )
            },
        },
{
    let key = match key {
        Ok(key) => key,
        Err(reason) => return Err(ArchiveError::KeyDerivation { reason }),
    };
    if plaintext.len() as u64 > SEAL_LIMIT {
        return Err(ArchiveError::TooLarge);
    }
    let mut file = archive_header(salt, nonce);
    match seal(key.as_slice(), nonce, file.as_slice(), plaintext) {
        Some(ciphertext) => {
            append_bytes(&mut file, ciphertext.as_slice());
            Ok(file)
        },
        None => Err(ArchiveError::TooLarge),
    }
}

/// Whether the file is a header and what the message seals to under it: that opens to the message
/// again, and with no other tag.
pub open spec fn sealed_so(
    file: Seq<u8>,
    header: Seq<u8>,
    key: Seq<u8>,
    nonce: Seq<u8>,
    message: Seq<u8>,
) -> bool {
    let body = sealed(key, nonce, header, message);
    &&& file == header + body
    &&& body.len() == message.len() + TAG_LEN
    &&& opened(key, nonce, header, body) == Some(message)
    &&& forall|other: Seq<u8>|
        tag_altered(body, other) ==> (#[trigger] opened(key, nonce, header, other)) is None
}

/// Seals the bytes under the password. An archive that comes out holds them: [`decrypt`] gives
/// them back for the same password. Salt and nonce are fresh; only the system's randomness or the
/// derivation of the key can fail, or a content that is too large. What comes of each salt, nonce
/// and key is what [`encrypt_with`] says.
pub fn encrypt(plaintext: &[u8], password: &str) -> (result: Result<Vec<u8>, ArchiveError>)
    requires
        sealable(plaintext@.len() as int),
        plaintext@.len() + TAG_LEN <= usize::MAX,
    ensures
        match result {
            Ok(file) => is_archive_of(file@, password@, plaintext@),
            Err(error) => {
                ||| error is Randomness
                ||| error is KeyDerivation
                ||| error is TooLarge && plaintext@.len() > SEAL_LIMIT
            },
        },
{
    let salt = match random_bytes(SALT_LEN) {
        Ok(bytes) => bytes,
        Err(reason) => return Err(ArchiveError::Randomness { reason }),
    };
    let nonce = match random_bytes(NONCE_LEN) {
        Ok(bytes) => bytes,
        Err(reason) => return Err(ArchiveError::Randomness { reason }),
    };
    let key = derive_key(
        password,
        salt.as_slice(),
        KDF_MEMORY_KIB,
        KDF_ITERATIONS,
        KDF_PARALLELISM,
    );
    proof {
        if let Ok(bytes) = &key {
            lemma_header(
                salt@,
                nonce@,
                sealed(bytes@, nonce@, header(salt@, nonce@), plaintext@),
            );
        }
    }
    encrypt_with(plaintext, salt.as_slice(), nonce.as_slice(), key)
}

/// Opens an archive, given what came of deriving its key.
pub fn decrypt_with(file: &[u8], key: Result<Vec<u8>, String>) -> (result: Result<
    Vec<u8>,
    ArchiveError,
>)
    requires
        sealable(file@.len() - HEADER_LEN - TAG_LEN),
        key matches Ok(bytes) ==> bytes@.len() == KEY_LEN,
    ensures
        match (header_problem(file@), key) {
            (Some(problem), _) => result == Err::<Vec<u8>, ArchiveError>(problem),
            (None, Err(reason)) => result == Err::<Vec<u8>, ArchiveError>(
                ArchiveError::KeyDerivation { reason },
            ),
            (None, Ok(bytes)) => match opened_with(file@, bytes@) {
                Some(message) => result matches Ok(plaintext) && plaintext@ == message
                    && file@.skip(HEADER_LEN as int) == sealed(
                    bytes@,
                    nonce_of(file@),
                    file@.take(HEADER_LEN as int),
                    message,
                ),
                None => result == Err::<Vec<u8>, ArchiveError>(
                    ArchiveError::WrongPasswordOrDamaged,
                ),
            },
        },
{
    if let Some(problem) = check_header(file) {
        return Err(problem);
    }
    let key = match key {
        Ok(key) => key,
        Err(reason) => return Err(ArchiveError::KeyDerivation { reason }),
    };
    if (file.len() - HEADER_LEN - TAG_LEN) as u64 > SEAL_LIMIT {
        return Err(ArchiveError::WrongPasswordOrDamaged);
    }
    let nonce = slice_subrange(file, MAGIC_LEN + 16 + SALT_LEN, HEADER_LEN);
    let bound = slice_subrange(file, 0, HEADER_LEN);
    let rest = slice_subrange(file, HEADER_LEN, file.len());
    assert(bound@ =~= file@.take(HEADER_LEN as int));
    assert(rest@ =~= file@.skip(HEADER_LEN as int));
    match open(key.as_slice(), nonce, bound, rest) {
        Some(plaintext) => Ok(plaintext),
        None => Err(ArchiveError::WrongPasswordOrDamaged),
    }
}

/// What a file opens to with a key. The cipher opens nothing that is longer than what it seals.
pub open spec fn opened_with(file: Seq<u8>, key: Seq<u8>) -> Option<Seq<u8>> {
    if file.len() > HEADER_LEN + SEAL_LIMIT + TAG_LEN {
        None
    } else {
        opened(key, nonce_of(file), file.take(HEADER_LEN as int), file.skip(HEADER_LEN as int))
    }
}

/// Opens an archive with the password. What comes of each key is what [`decrypt_with`] says.
pub fn decrypt(file: &[u8], password: &str) -> (result: Result<Vec<u8>, ArchiveError>)
    requires
        sealable(file@.len() - HEADER_LEN - TAG_LEN),
    ensures
        match result {
            Ok(plaintext) => is_opening(file@, password@, Ok(plaintext@)),
            Err(error) => is_opening(file@, password@, Err(error)),
        },
{
    if let Some(problem) = check_header(file) {
        return Err(problem);
    }
    let (memory, iterations, parallelism) = match (
        read_u32(file, MAGIC_LEN + 4),
        read_u32(file, MAGIC_LEN + 8),
        read_u32(file, MAGIC_LEN + 12),
    ) {
        (Some(memory), Some(iterations), Some(parallelism)) => (memory, iterations, parallelism),
        _ => return Err(ArchiveError::NotAnArchive),
    };
    let salt = slice_subrange(file, MAGIC_LEN + 16, MAGIC_LEN + 16 + SALT_LEN);
    let key = derive_key(password, salt, memory, iterations, parallelism);
    decrypt_with(file, key)
}

/// What an archive is opened to is what was sealed in it, unless the machine cannot derive the key.
pub proof fn law_archive_gives_back_what_was_sealed(
    file: Seq<u8>,
    password: Seq<char>,
    plaintext: Seq<u8>,
    opening: Result<Seq<u8>, ArchiveError>,
)
    requires
        is_archive_of(file, password, plaintext),
        is_opening(file, password, opening),
    ensures
        match opening {
            Ok(read) => read == plaintext,
            Err(error) => error is KeyDerivation,
        },
{
}

/// An archive whose tag was altered, the last bytes of it, is refused with the password that it was
/// sealed with.
pub proof fn law_altered_tag_is_refused(
    file: Seq<u8>,
    altered: Seq<u8>,
    password: Seq<char>,
    plaintext: Seq<u8>,
    opening: Result<Seq<u8>, ArchiveError>,
)
    requires
        is_archive_of(file, password, plaintext),
        altered.len() == file.len(),
        altered.take(file.len() - TAG_LEN) == file.take(file.len() - TAG_LEN),
        altered != file,
        is_opening(altered, password, opening),
    ensures
        match opening {
            Ok(_) => false,
            Err(error) => error is KeyDerivation || error is WrongPasswordOrDamaged,
        },
{
    let start = HEADER_LEN as int;
    let end = file.len() - TAG_LEN;
    assert forall|i: int| 0 <= i < end implies altered[i] == file[i] by {
        assert(altered.take(end)[i] == file.take(end)[i]);
    }
    assert(altered.take(start) =~= file.take(start));
    assert(altered.take(MAGIC_LEN as int) =~= file.take(MAGIC_LEN as int));
    assert(salt_of(altered) =~= salt_of(file));
    assert(nonce_of(altered) =~= nonce_of(file));
    assert(altered.subrange(16, 20) =~= file.subrange(16, 20));
    assert(altered.subrange(20, 24) =~= file.subrange(20, 24));
    assert(altered.subrange(24, 28) =~= file.subrange(24, 28));
    assert(altered.subrange(28, 32) =~= file.subrange(28, 32));
    let body = file.skip(start);
    let other = altered.skip(start);
    assert(other.take(other.len() - TAG_LEN) =~= body.take(body.len() - TAG_LEN));
    if other == body {
        assert forall|i: int| 0 <= i < file.len() implies altered[i] == file[i] by {
            if i >= start {
                assert(other[i - start] == body[i - start]);
            }
        }
        assert(altered =~= file);
    }
    assert(tag_altered(body, other));
}

/// An archive that was altered anywhere behind its header never gives back what was sealed: what
/// the password opens it to, if anything, is something else.
pub proof fn law_altered_archive_never_gives_the_same_back(
    file: Seq<u8>,
    altered: Seq<u8>,
    password: Seq<char>,
    plaintext: Seq<u8>,
    opening: Result<Seq<u8>, ArchiveError>,
)
    requires
        is_archive_of(file, password, plaintext),
        altered.len() >= HEADER_LEN,
        altered.take(HEADER_LEN as int) == file.take(HEADER_LEN as int),
        altered != file,
        is_opening(altered, password, opening),
    ensures
        opening != Ok::<Seq<u8>, ArchiveError>(plaintext),
{
    let start = HEADER_LEN as int;
    assert forall|i: int| 0 <= i < start implies altered[i] == file[i] by {
        assert(altered.take(start)[i] == file.take(start)[i]);
    }
    assert(salt_of(altered) =~= salt_of(file));
    assert(nonce_of(altered) =~= nonce_of(file));
    assert(altered.subrange(20, 24) =~= file.subrange(20, 24));
    assert(altered.subrange(24, 28) =~= file.subrange(24, 28));
    assert(altered.subrange(28, 32) =~= file.subrange(28, 32));
    if altered.skip(start) == file.skip(start) {
        assert(altered =~= altered.take(start) + altered.skip(start));
        assert(file =~= file.take(start) + file.skip(start));
    }
}

/// What is too short for an archive, or does not begin as one, is refused with every password.
pub proof fn law_other_files_are_refused(
    file: Seq<u8>,
    password: Seq<char>,
    opening: Result<Seq<u8>, ArchiveError>,
)
    requires
        file.len() < HEADER_LEN + TAG_LEN || file.take(MAGIC_LEN as int) != magic(),
        is_opening(file, password, opening),
    ensures
        opening == Err::<Seq<u8>, ArchiveError>(ArchiveError::NotAnArchive),
{
}

} // verus!
