//! Setting up age's passphrase encryption and decryption, and telling its
//! failures apart. The age crate does all cryptography.
use vstd::prelude::*;
use crate::text::owned;

verus! {

#[verifier::external_type_specification]
#[verifier::external_body]
pub struct ExScryptRecipient(age::scrypt::Recipient);

#[verifier::external_type_specification]
#[verifier::external_body]
pub struct ExScryptIdentity(age::scrypt::Identity);

#[verifier::external_type_specification]
#[verifier::external_body]
pub struct ExEncryptor(age::Encryptor);

#[verifier::external_type_specification]
#[verifier::external_body]
pub struct ExEncryptError(age::EncryptError);

#[verifier::external_type_specification]
#[verifier::external_body]
pub struct ExDecryptError(age::DecryptError);

#[verifier::external_type_specification]
#[verifier::external_body]
#[verifier::reject_recursive_types(R)]
pub struct ExDecryptor<R>(age::Decryptor<R>);

/// The scrypt work factor used for encryption: N = 2^18 (about 256 MiB).
pub const WORK_FACTOR: u8 = 18;

/// The largest scrypt work factor accepted from a file: N = 2^20 (about
/// 1 GiB).
pub const MAX_WORK_FACTOR: u8 = 20;

/// The size of the copy buffer.
pub const BUFFER_SIZE: usize = 262144;

/// The passphrase a passphrase recipient holds.
pub uninterp spec fn recipient_passphrase(r: age::scrypt::Recipient) -> Seq<char>;

/// The scrypt work factor (log2 of N) a passphrase recipient wraps with.
pub uninterp spec fn recipient_work_factor(r: age::scrypt::Recipient) -> u8;

/// The passphrase the file key of an encryptor is wrapped under.
pub uninterp spec fn sealed_passphrase(e: age::Encryptor) -> Seq<char>;

/// The scrypt work factor recorded in an encryptor's header.
pub uninterp spec fn sealed_work_factor(e: age::Encryptor) -> u8;

/// The passphrase a passphrase identity tries.
pub uninterp spec fn identity_passphrase(i: age::scrypt::Identity) -> Seq<char>;

/// The largest scrypt work factor a passphrase identity accepts.
pub uninterp spec fn identity_max_work_factor(i: age::scrypt::Identity) -> u8;

/// Whether a decryption failure is age's refusal of an excessive work
/// factor.
pub uninterp spec fn refuses_excessive_work(e: age::DecryptError) -> bool;

/// A passphrase recipient.
///
/// Trusted: calls `age::scrypt::Recipient::new` with the passphrase moved
/// into a `SecretString`, which the recipient stores as it is. Its work
/// factor is picked by timing this machine, so nothing is stated of it.
#[verifier::external_body]
fn new_recipient(password: &str) -> (r: age::scrypt::Recipient)
    ensures
        recipient_passphrase(r) == password@,
{
    age::scrypt::Recipient::new(age::secrecy::SecretString::from(password.to_owned()))
}

/// Sets a recipient's scrypt work factor.
///
/// Trusted: calls `age::scrypt::Recipient::set_work_factor`, which panics
/// unless `0 < log_n < 64` (the `requires` leaves those inputs out) and
/// otherwise only stores `log_n`.
#[verifier::external_body]
fn set_recipient_work_factor(recipient: &mut age::scrypt::Recipient, log_n: u8)
    requires
        0 < log_n < 64,
    ensures
        recipient_work_factor(*final(recipient)) == log_n,
        recipient_passphrase(*final(recipient)) == recipient_passphrase(*old(recipient)),
{
    recipient.set_work_factor(log_n);
}

/// An encryptor for a single passphrase recipient.
///
/// Trusted: calls `age::Encryptor::with_recipients` with that one
/// recipient. Wrapping the file key runs scrypt at the recipient's work
/// factor and panics (an `expect` in age) when scrypt refuses its
/// parameters, which happens once 1024 * 2^work factor overflows `usize`
/// (from 22 on 32-bit targets, from 54 on 64-bit ones); the `requires`
/// keeps the work factor at or below [`MAX_WORK_FACTOR`], where neither
/// happens and scrypt needs at most 1 GiB. On those inputs the contract
/// states that it succeeds: in the age source, a passphrase recipient's
/// `wrap_file_key` then returns `Ok` with one stanza and one random
/// alphanumeric label, so the error paths of `with_recipients` (no
/// recipients, mismatched or invalid labels) and of the header check (a
/// passphrase stanza that is not alone) cannot arise. The one stanza wraps
/// the fresh file key under the recipient's passphrase and records the
/// recipient's work factor. The file key and salt are random, so nothing
/// more is stated of the encryptor.
#[verifier::external_body]
fn encryptor_for(recipient: &age::scrypt::Recipient) -> (r: Result<age::Encryptor, age::EncryptError>)
    requires
        0 < recipient_work_factor(*recipient) <= MAX_WORK_FACTOR,
    ensures
        r is Ok,
        sealed_passphrase(r->Ok_0) == recipient_passphrase(*recipient),
        sealed_work_factor(r->Ok_0) == recipient_work_factor(*recipient),
{
    age::Encryptor::with_recipients(std::iter::once(recipient as &dyn age::Recipient))
}

/// The description of an encryption set-up failure.
///
/// Trusted: the `Display` text of `age::EncryptError`; nothing is stated.
#[verifier::external_body]
fn encrypt_error_text(e: &age::EncryptError) -> String {
    e.to_string()
}

/// A passphrase identity.
///
/// Trusted: calls `age::scrypt::Identity::new` with the passphrase moved
/// into a `SecretString`, which the identity stores as it is. Its default
/// work-factor limit is picked by timing this machine, so nothing is
/// stated of it.
#[verifier::external_body]
fn new_identity(password: &str) -> (r: age::scrypt::Identity)
    ensures
        identity_passphrase(r) == password@,
{
    age::scrypt::Identity::new(age::secrecy::SecretString::from(password.to_owned()))
}

/// Sets the largest work factor an identity accepts.
///
/// Trusted: calls `age::scrypt::Identity::set_max_work_factor`, which only
/// stores the value.
#[verifier::external_body]
fn set_identity_max_work_factor(identity: &mut age::scrypt::Identity, max_log_n: u8)
    ensures
        identity_max_work_factor(*final(identity)) == max_log_n,
        identity_passphrase(*final(identity)) == identity_passphrase(*old(identity)),
{
    identity.set_max_work_factor(max_log_n);
}

/// Whether an opened age file is encrypted to a passphrase.
///
/// Trusted: calls `age::Decryptor::is_scrypt`; its answer depends on the
/// file's header, which is opaque here, so nothing is stated.
#[verifier::external_body]
pub fn is_passphrase_file<R>(decryptor: &age::Decryptor<R>) -> bool {
    decryptor.is_scrypt()
}

/// Whether a decryption failure is a refusal of an excessive work factor.
///
/// Trusted: tells the variant `age::DecryptError::ExcessiveWork` apart from
/// the others.
#[verifier::external_body]
fn is_excessive_work(e: &age::DecryptError) -> (r: bool)
    ensures
        r == refuses_excessive_work(*e),
{
    match e {
        age::DecryptError::ExcessiveWork { .. } => true,
        _ => false,
    }
}

/// The encryptor for `password` at scrypt work factor `work_factor`, or the
/// description of why it could not be set up. Work factors are limited to
/// the same cap that decryption accepts, [`MAX_WORK_FACTOR`]; within it, a
/// single passphrase recipient always sets up, and the file key is wrapped
/// under `password` exactly as given, at the given work factor.
pub fn prepare_encryptor(password: &str, work_factor: u8) -> (r: Result<
    age::Encryptor,
    String,
>)
    requires
        0 < work_factor <= MAX_WORK_FACTOR,
    ensures
        r matches Ok(e) && sealed_passphrase(e) == password@ && sealed_work_factor(e)
            == work_factor,
{
    let mut recipient = new_recipient(password);
    set_recipient_work_factor(&mut recipient, work_factor);
    match encryptor_for(&recipient) {
        Ok(encryptor) => Ok(encryptor),
        Err(e) => Err(encrypt_error_text(&e)),
    }
}

/// The identity that unlocks files encrypted to `password` exactly as
/// given, refusing work factors above `max_work_factor`.
pub fn unlock_identity(password: &str, max_work_factor: u8) -> (r: age::scrypt::Identity)
    ensures
        identity_passphrase(r) == password@,
        identity_max_work_factor(r) == max_work_factor,
{
    let mut identity = new_identity(password);
    set_identity_max_work_factor(&mut identity, max_work_factor);
    identity
}

pub open spec fn excessive_work_text() -> Seq<char> {
    "This file requests more password-derivation memory than PebbleCrypt allows (1 GiB)."@
}

pub open spec fn wrong_password_text() -> Seq<char> {
    "The password is incorrect, or the encrypted file is damaged."@
}

/// The message for a failed unlock: a refused work factor is named as
/// such; every other failure is a wrong password or a damaged file.
pub fn unlock_failure_text(excessive: bool) -> (r: String)
    ensures
        excessive ==> r@ == excessive_work_text(),
        !excessive ==> r@ == wrong_password_text(),
{
    if excessive {
        owned("This file requests more password-derivation memory than PebbleCrypt allows (1 GiB).")
    } else {
        owned("The password is incorrect, or the encrypted file is damaged.")
    }
}

/// The message for a failed unlock with error `e`.
pub fn unlock_failure(e: &age::DecryptError) -> (r: String)
    ensures
        refuses_excessive_work(*e) ==> r@ == excessive_work_text(),
        !refuses_excessive_work(*e) ==> r@ == wrong_password_text(),
{
    unlock_failure_text(is_excessive_work(e))
}

} // verus!
