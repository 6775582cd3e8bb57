use vstd::prelude::*;
use vstd::string::StringSliceAdditionalSpecFns;
use argon2::password_hash::{PasswordHasher, PasswordVerifier};

verus! {

#[verifier::external_type_specification]
#[verifier::external_body]
pub struct ExPasswordHashError(argon2::password_hash::Error);

/// The PHC string that Argon2 (default parameters) produces for `password` with the B64
/// salt `salt`, or `None` where hashing refuses the inputs.
pub uninterp spec fn argon2_phc_hash(password: Seq<char>, salt: Seq<char>) -> Option<Seq<char>>;

/// Whether `phc` parses as a PHC string and Argon2 (default instance) accepts `password` for it.
pub uninterp spec fn argon2_accepts(password: Seq<char>, phc: Seq<char>) -> bool;

/// Longest password, in bytes, that Argon2 accepts (`argon2::MAX_PWD_LEN`).
pub const MAX_PASSWORD_BYTES: usize = 0xFFFFFFFF;

/// A character of the standard Base64 alphabet `A-Z a-z 0-9 + /`.
pub open spec fn is_b64_char(c: char) -> bool {
    ('A' <= c <= 'Z') || ('a' <= c <= 'z') || ('0' <= c <= '9') || c == '+' || c == '/'
}

/// The unpadded standard Base64 text of sixteen bytes: 22 characters of the alphabet, the
/// last of which carries only two bits (`A`, `Q`, `g` or `w`).
pub open spec fn is_b64_of_sixteen_bytes(s: Seq<char>) -> bool {
    &&& s.len() == 22
    &&& forall|i: int| 0 <= i < 22 ==> is_b64_char(#[trigger] s[i])
    &&& (s[21] == 'A' || s[21] == 'Q' || s[21] == 'g' || s[21] == 'w')
}

/// A fresh salt: `SaltString::generate(&mut OsRng)` as its B64 text. The bytes come from the
/// operating system's random source and are not promised. `generate` fills
/// `Salt::RECOMMENDED_LENGTH` (16) random bytes and encodes them with `Encoding::B64`,
/// standard Base64 without padding, so the text is 22 characters of that alphabet.
#[verifier::external_body]
fn generate_salt() -> (salt: String)
    ensures
        is_b64_of_sixteen_bytes(salt@),
{
    argon2::password_hash::SaltString::generate(&mut rand_core::OsRng).as_str().to_string()
}

/// Hashes `password` with `Argon2::default().hash_password` over the salt
/// `SaltString::from_b64(salt)` and renders the result as a PHC string; the string is named by
/// `argon2_phc_hash`.
/// - `Argon2::default()` is Argon2id, version 0x13, `m=19456,t=2,p=1` and a 32-byte output, and
///   `PasswordHash`'s `Display` writes `$argon2id$v=19$m=19456,t=2,p=1$`, the salt text as
///   given, `$` and the output in unpadded standard Base64: `is_argon2id_phc`.
/// - `PasswordVerifier::verify_password` re-hashes the password with the algorithm, version,
///   parameters and salt read back from the PHC string and compares the outputs, so the same
///   password is accepted for every string this call returns.
/// - A salt in the form `generate_salt` produces passes `SaltString::from_b64` and decodes to
///   16 bytes (within Argon2's salt limits), and `Argon2::verify_inputs` refuses a password only
///   when it is longer than `MAX_PWD_LEN` bytes; then the call succeeds.
#[verifier::external_body]
fn argon2_hash(password: &str, salt: &str) -> (res: Result<String, argon2::password_hash::Error>)
    ensures
        is_b64_of_sixteen_bytes(salt@) && password.spec_bytes().len() <= MAX_PASSWORD_BYTES ==> res is Ok,
        res is Ok <==> argon2_phc_hash(password@, salt@) is Some,
        res matches Ok(phc) ==> argon2_phc_hash(password@, salt@) == Some(phc@),
        res matches Ok(phc) ==> argon2_accepts(password@, phc@),
        res matches Ok(phc) ==> is_argon2id_phc(phc@, salt@),
{
    let salt = argon2::password_hash::SaltString::from_b64(salt)?;
    let hash = argon2::Argon2::default().hash_password(password.as_bytes(), &salt)?;
    Ok(hash.to_string())
}

/// Checks `password` against the PHC string `phc`: `PasswordHash::new(phc)` and then
/// `Argon2::default().verify_password`; a string that does not parse is answered `false`.
/// The answer is named by `argon2_accepts`. `PasswordHash::parse` refuses an empty string and
/// one whose text before the first `$` is not empty, so a string that does not start with `$`
/// is never accepted.
#[verifier::external_body]
fn argon2_verify(password: &str, phc: &str) -> (ok: bool)
    ensures
        ok == argon2_accepts(password@, phc@),
        !starts_with_dollar(phc@) ==> !ok,
{
    match argon2::password_hash::PasswordHash::new(phc) {
        Ok(parsed) => argon2::Argon2::default().verify_password(password.as_bytes(), &parsed).is_ok(),
        Err(_) => false,
    }
}

/// The head of every PHC string this library stores: Argon2id, version 19 (0x13), 19456 KiB
/// of memory, two passes and one lane.
pub open spec fn argon2id_phc_head() -> Seq<char> {
    "$argon2id$v=19$m=19456,t=2,p=1$"@
}

/// `phc` is a default Argon2id PHC string over the B64 salt `salt`: the head, the salt, `$` and
/// the 32-byte output as 43 characters of unpadded standard Base64.
pub open spec fn is_argon2id_phc(phc: Seq<char>, salt: Seq<char>) -> bool {
    let head = argon2id_phc_head();
    let salt_start: int = head.len() as int;
    let salt_end: int = salt_start + salt.len();
    &&& phc.len() == salt_end + 44
    &&& phc.subrange(0, salt_start) == head
    &&& phc.subrange(salt_start, salt_end) == salt
    &&& phc[salt_end] == '$'
    &&& forall|i: int| salt_end < i < phc.len() ==> is_b64_char(#[trigger] phc[i])
}

/// The text begins with `$`, as every PHC string does.
pub open spec fn starts_with_dollar(s: Seq<char>) -> bool {
    s.len() > 0 && s[0] == '$'
}

/// Hashes a password for storage, with a fresh random salt. Hashing succeeds for every
/// password of at most `MAX_PASSWORD_BYTES` bytes. Whatever salt was drawn, a returned hash is
/// the default Argon2id PHC string of `password` over a 22-character B64 salt (16 bytes), and
/// checking the same password against it succeeds.
pub fn hash_password(password: &str) -> (res: Result<String, argon2::password_hash::Error>)
    ensures
        password.spec_bytes().len() <= MAX_PASSWORD_BYTES ==> res is Ok,
        res matches Ok(phc) ==> argon2_accepts(password@, phc@),
        res matches Ok(phc) ==> exists|salt: Seq<char>|
            #[trigger] argon2_phc_hash(password@, salt) == Some(phc@) && is_b64_of_sixteen_bytes(salt)
                && is_argon2id_phc(phc@, salt),
        res matches Ok(phc) ==> starts_with_dollar(phc@),
{
    let salt = generate_salt();
    let res = argon2_hash(password, salt.as_str());
    proof {
        if res is Ok {
            reveal_strlit("$argon2id$v=19$m=19456,t=2,p=1$");
            assert(res->Ok_0@[0] == res->Ok_0@.subrange(0, 31)[0]);
        }
    }
    res
}

/// Checks a plain password against a stored hash; a string that is not a PHC hash (one that
/// does not even start with `$`) is never accepted, and never compared as plain text.
pub fn verify_password(password: &str, hashed_password: &str) -> (ok: bool)
    ensures
        ok == argon2_accepts(password@, hashed_password@),
        !starts_with_dollar(hashed_password@) ==> !ok,
{
    argon2_verify(password, hashed_password)
}

} // verus!
