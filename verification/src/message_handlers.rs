use vstd::prelude::*;

pub mod auth_handler;
pub mod search_handlers;
pub mod user_handlers;

verus! {

/// The lowercase hex text of the BLAKE3 hash of `input`.
pub uninterp spec fn blake3_hex(input: Seq<u8>) -> Seq<char>;

/// What the service stores in place of a password: the BLAKE3 hex digest of
/// its UTF-8 bytes.
pub open spec fn password_digest(password: Seq<char>) -> Seq<char> {
    blake3_hex(vstd::utf8::encode_utf8(password))
}

/// Hashes the bytes with `blake3::Hasher` (`new`, `update`, `finalize`) and
/// returns `Hash::to_hex` as a `String`. The contract claims that the text is
/// the named function of the bytes and, as `to_hex` builds it from the
/// 32-byte hash, is 64 characters long.
#[verifier::external_body]
pub(crate) fn blake3_hex_digest(input: &[u8]) -> (hex: String)
    ensures
        hex@ == blake3_hex(input@),
        hex@.len() == 64,
{
    let mut hasher = blake3::Hasher::new();
    hasher.update(input);
    hasher.finalize().to_hex().chars().collect()
}

/// The digest stored for `password` (see [`password_digest`]): 64 hex
/// characters.
pub fn hash_password_text(password: &str) -> (digest: String)
    ensures
        digest@ == password_digest(password@),
        digest@.len() == 64,
{
    blake3_hex_digest(password.as_bytes())
}

} // verus!
