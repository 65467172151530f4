//! Generated passwords: 24 characters from a 64-character alphabet, each
//! taken from one random byte.
use vstd::prelude::*;
use crate::text::{join2, owned, push_char};

verus! {

#[verifier::external_type_specification]
#[verifier::external_body]
pub struct ExRandomError(getrandom::Error);

/// The number of characters in a generated password.
pub const PASSWORD_LENGTH: usize = 24;

/// Character number `i` of the password alphabet `A-Z a-z 0-9 - _`.
pub open spec fn alphabet(i: u8) -> char {
    if i < 26 {
        (65 + i) as char
    } else if i < 52 {
        (97 + (i - 26)) as char
    } else if i < 62 {
        (48 + (i - 52)) as char
    } else if i == 62 {
        '-'
    } else {
        '_'
    }
}

/// The alphabet holds exactly the ASCII letters, digits, `-` and `_`.
pub open spec fn in_alphabet(c: char) -> bool {
    ('A' <= c && c <= 'Z') || ('a' <= c && c <= 'z') || ('0' <= c && c <= '9') || c == '-' || c
        == '_'
}

fn alphabet_char(i: u8) -> (c: char)
    requires
        i < 64,
    ensures
        c == alphabet(i),
{
    if i < 26 {
        (65 + i) as char
    } else if i < 52 {
        (97 + (i - 26)) as char
    } else if i < 62 {
        (48 + (i - 52)) as char
    } else if i == 62 {
        '-'
    } else {
        '_'
    }
}

/// The password spelled by random bytes: byte `b` picks character
/// `b mod 64`. The alphabet size divides 256, so uniform bytes give uniform
/// characters.
pub open spec fn spell(bytes: Seq<u8>) -> Seq<char> {
    Seq::new(bytes.len(), |i: int| alphabet(bytes[i] % 64))
}

/// Spells a password from random bytes.
pub fn password_from_bytes(bytes: &Vec<u8>) -> (r: String)
    ensures
        r@ == spell(bytes@),
{
    let mut r = String::new();
    let mut i: usize = 0;
    while i < bytes.len()
        invariant
            i <= bytes@.len(),
            r@ =~= spell(bytes@.subrange(0, i as int)),
        decreases bytes@.len() - i,
    {
        let b = bytes[i];
        let m = b & 63;
        assert(b & 63 == b % 64) by (bit_vector);
        push_char(&mut r, alphabet_char(m));
        i = i + 1;
        assert(spell(bytes@.subrange(0, i as int)) =~= spell(bytes@.subrange(0, i - 1)).push(
            alphabet(b % 64),
        ));
    }
    assert(bytes@.subrange(0, bytes@.len() as int) =~= bytes@);
    r
}

/// Fills a buffer with random bytes from the operating system.
///
/// Trusted: calls `getrandom::fill`, which writes into the buffer in place
/// and so keeps its length. The bytes are random: nothing else is stated.
#[verifier::external_body]
fn fill_random(buf: &mut Vec<u8>) -> (r: Result<(), getrandom::Error>)
    ensures
        final(buf)@.len() == old(buf)@.len(),
{
    getrandom::fill(buf.as_mut_slice())
}

/// The description of a failure of the random source.
///
/// Trusted: the `Display` text of `getrandom::Error`; nothing is stated of it.
#[verifier::external_body]
fn random_error_text(e: &getrandom::Error) -> String {
    e.to_string()
}

/// Erases a byte buffer.
///
/// Trusted: calls `zeroize::Zeroize::zeroize` on the `Vec`, which overwrites
/// every element and the spare capacity with zeros and then clears the
/// vector.
#[verifier::external_body]
pub fn wipe_bytes(buf: &mut Vec<u8>)
    ensures
        final(buf)@.len() == 0,
{
    zeroize::Zeroize::zeroize(buf);
}

/// Erases a string.
///
/// Trusted: calls `zeroize::Zeroize::zeroize` on the `String`, which
/// overwrites its bytes with zeros and leaves it empty.
#[verifier::external_body]
pub fn wipe_string(s: &mut String)
    ensures
        final(s)@.len() == 0,
{
    zeroize::Zeroize::zeroize(s);
}

/// A new random password of [`PASSWORD_LENGTH`] characters from the
/// alphabet. The random bytes are erased before returning.
pub fn generated_password() -> (r: Result<String, String>)
    ensures
        r matches Ok(p) ==> p@.len() == PASSWORD_LENGTH && forall|i: int|
            0 <= i < p@.len() ==> in_alphabet(#[trigger] p@[i]),
        r matches Err(m) ==> exists|d: Seq<char>| m@ == "Windows random generator failed: "@ + d,
{
    let mut random: Vec<u8> = vec![0u8; 24];
    match fill_random(&mut random) {
        Ok(()) => {},
        Err(e) => {
            wipe_bytes(&mut random);
            let d = random_error_text(&e);
            return Err(join2("Windows random generator failed: ", d.as_str()));
        },
    }
    let p = password_from_bytes(&random);
    proof {
        lemma_spell_in_alphabet(random@);
    }
    wipe_bytes(&mut random);
    Ok(p)
}

/// Every character spelled from bytes lies in the alphabet.
pub proof fn lemma_spell_in_alphabet(bytes: Seq<u8>)
    ensures
        spell(bytes).len() == bytes.len(),
        forall|i: int| 0 <= i < bytes.len() ==> in_alphabet(#[trigger] spell(bytes)[i]),
{
    assert forall|i: int| 0 <= i < bytes.len() implies in_alphabet(#[trigger] spell(bytes)[i]) by {
        let b = bytes[i] % 64;
        assert(spell(bytes)[i] == alphabet(b));
    }
}

/// The fixed passphrase used by the suite's processing helpers.
pub fn password() -> (r: String)
    ensures
        r@ == "audit test passphrase only"@,
{
    owned("audit test passphrase only")
}

} // verus!
