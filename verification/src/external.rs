//! The crate's border with outside code: credential hashing, random token
//! generation, and email case-folding.  Each function here is trusted;
//! everything that builds on them is verified against the contracts below.
//! The clock stays outside: every time-dependent operation takes `now` as an
//! argument and is verified for every value of it.

use vstd::prelude::*;

verus! {

/// True when every character of the sequence is ASCII.
pub open spec fn ascii_chars(s: Seq<char>) -> bool {
    forall|i: int| 0 <= i < s.len() ==> '\0' <= #[trigger] s[i] <= '\u{7f}'
}

/// True when the character may appear in a URL without escaping: a letter, a
/// digit, `_` or `-` — nanoid's 64-character alphabet.
pub open spec fn url_safe_char(c: char) -> bool {
    ||| 'a' <= c <= 'z'
    ||| 'A' <= c <= 'Z'
    ||| '0' <= c <= '9'
    ||| c == '_'
    ||| c == '-'
}

/// True when every character of the sequence is URL-safe.
pub open spec fn url_safe_chars(s: Seq<char>) -> bool {
    forall|i: int| 0 <= i < s.len() ==> url_safe_char(#[trigger] s[i])
}

/// The case-folded form of a character sequence, as `str::to_lowercase`
/// computes it.  The result depends on the characters alone.
pub uninterp spec fn lowercase_of(s: Seq<char>) -> Seq<char>;

/// Relies on `str::to_lowercase`: a pure, locale-independent case folding of
/// the input string.
#[verifier::external_body]
pub(crate) fn lowercase(s: &String) -> (r: String)
    ensures
        r@ == lowercase_of(s@),
{
    s.to_lowercase()
}

/// True when `verify_encoded` of the `rust-argon2` crate accepts `hash` as an
/// encoded artifact whose embedded digest matches `password`.  The result
/// depends on the two arguments alone.
pub uninterp spec fn password_verifies(password: Seq<char>, hash: Seq<char>) -> bool;

/// Relies on `argon2::hash_encoded` of the `rust-argon2` crate: with the
/// default configuration and a salt of at least 8 bytes it returns an encoded
/// artifact (salt and parameters embedded) that `argon2::verify_encoded`
/// accepts for the same password.  The crate refuses a password or a salt of
/// 2^32 bytes or more; the `requires` keeps both under that (a character
/// encodes to at most four bytes), so the call cannot fail.
#[verifier::external_body]
pub(crate) fn hash_password(password: &String, salt: &String) -> (r: String)
    requires
        password@.len() * 4 < 0x1_0000_0000,
        8 <= salt@.len() < 0x1_0000_0000,
        ascii_chars(salt@),
    ensures
        password_verifies(password@, r@),
{
    argon2::hash_encoded(password.as_bytes(), salt.as_bytes(), &argon2::Config::default()).unwrap()
}

/// Relies on `argon2::verify_encoded` of the `rust-argon2` crate: a pure
/// recomputation of the digest from the password and the salt embedded in the
/// artifact; a malformed artifact is reported as a non-match.
#[verifier::external_body]
pub(crate) fn check_password(password: &String, hash: &String) -> (r: bool)
    ensures
        r == password_verifies(password@, hash@),
{
    argon2::verify_encoded(hash.as_str(), password.as_bytes()).unwrap_or(false)
}

/// Relies on `nanoid::format` with the crate's default random source and its
/// URL-safe 64-character alphabet: the result holds exactly `len` characters,
/// each a letter, a digit, `_` or `-`.  Nothing is assumed about which of
/// them come back.
#[verifier::external_body]
pub(crate) fn random_token(len: usize) -> (r: String)
    ensures
        r@.len() == len as int,
        ascii_chars(r@),
        url_safe_chars(r@),
{
    nanoid::format(nanoid::rngs::default, &nanoid::alphabet::SAFE, len)
}

} // verus!
