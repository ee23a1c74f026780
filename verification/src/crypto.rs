//! Password hashing (through `argon2`), message authentication (through
//! `hmac` and `sha2`), random numbers (through `rand`) and the clock
//! (through `chrono`).
use argon2::password_hash::{PasswordHasher, PasswordVerifier};
use hmac::Mac;
use rand::Rng;
use vstd::prelude::*;
use vstd::utf8::encode_utf8;

verus! {

#[verifier::external_type_specification]
#[verifier::external_body]
pub struct ExPasswordHash<'a>(argon2::password_hash::PasswordHash<'a>);

/// Whether `PasswordHash::new` accepts the text as a PHC string.
pub uninterp spec fn phc_parses(hash: Seq<char>) -> bool;

/// What `Argon2::default().verify_password` answers for a password and a
/// PHC string: `Some(true)` when it verifies, `Some(false)` when it fails
/// with `Error::Password`, `None` when it fails with another error.
pub uninterp spec fn argon2_outcome(password: Seq<char>, hash: Seq<char>) -> Option<bool>;

/// The HMAC-SHA256 tag (`Hmac<Sha256>`) of a message under a key.
pub uninterp spec fn hmac_sha256_of(key: Seq<u8>, message: Seq<u8>) -> Seq<u8>;

/// The start of every PHC string `Argon2::default()` produces: algorithm
/// Argon2id, version 19 and the default costs (19456 KiB of memory, two
/// passes, one lane).
pub const ARGON2_PHC_HEAD: &'static str = "$argon2id$v=19$m=19456,t=2,p=1$";

/// A character of the B64 alphabet (standard Base64 without padding).
pub open spec fn b64_char(c: char) -> bool {
    ('A' <= c <= 'Z') || ('a' <= c <= 'z') || ('0' <= c <= '9') || c == '+' || c == '/'
}

/// The B64 text of sixteen bytes, as `SaltString::generate` makes it: 22
/// characters of the alphabet, the last one carrying only two bits (so it
/// is one of `A`, `Q`, `g`, `w`).
pub open spec fn salt_text_ok(s: Seq<char>) -> bool {
    &&& s.len() == 22
    &&& forall|i: int| 0 <= i < 22 ==> #[trigger] b64_char(s[i])
    &&& (s[21] == 'A' || s[21] == 'Q' || s[21] == 'g' || s[21] == 'w')
}

/// The shape of a PHC string made with the default Argon2 parameters and
/// the given salt text: the fixed head, the salt, `$`, and the 32-byte hash
/// in B64 (43 characters).
pub open spec fn argon2_phc_shape(h: Seq<char>, salt: Seq<char>) -> bool {
    let head = ARGON2_PHC_HEAD@ + salt + "$"@;
    h.len() == head.len() + 43 && h.take(head.len() as int) == head
}

/// A parsed PHC string together with its text.
pub struct PhcHash<'a> {
    text: &'a str,
    parsed: argon2::password_hash::PasswordHash<'a>,
}

impl<'a> PhcHash<'a> {
    /// The PHC text the hash was parsed from.
    pub closed spec fn text(&self) -> Seq<char> {
        self.text@
    }
}

/// `PasswordHash::new`: parses a PHC string; fails exactly when the text is
/// not one.
#[verifier::external_body]
pub(crate) fn parse_phc<'a>(hash: &'a str) -> (res: Option<PhcHash<'a>>)
    ensures
        res is Some <==> phc_parses(hash@),
        res matches Some(p) ==> p.text() == hash@,
{
    match argon2::password_hash::PasswordHash::new(hash) {
        Ok(parsed) => Some(PhcHash { text: hash, parsed }),
        Err(_) => None,
    }
}

/// `PasswordVerifier::verify_password` of `Argon2::default()`: `Some(true)`
/// on success, `Some(false)` on `Error::Password`, `None` on other errors.
#[verifier::external_body]
pub(crate) fn argon2_verify(password: &str, hash: &PhcHash) -> (res: Option<bool>)
    ensures
        res == argon2_outcome(password@, hash.text()),
{
    match argon2::Argon2::default().verify_password(password.as_bytes(), &hash.parsed) {
        Ok(()) => Some(true),
        Err(argon2::password_hash::Error::Password) => Some(false),
        Err(_) => None,
    }
}

/// `SaltString::generate` from the thread-local random generator, as text:
/// sixteen random bytes in B64 (see `salt_text_ok`).
#[verifier::external_body]
pub(crate) fn fresh_salt() -> (res: String)
    ensures
        salt_text_ok(res@),
{
    argon2::password_hash::SaltString::generate(rand::thread_rng()).as_str().to_string()
}

/// `PasswordHasher::hash_password` of `Argon2::default()` with the salt
/// given as B64 text (`Salt::from_b64`), rendered as its PHC string. It
/// succeeds for a salt text as `fresh_salt` makes it and a password of at
/// most `0xFFFF_FFFF` bytes; the PHC string it produces has the shape of
/// `argon2_phc_shape`, parses, and verifies the same password.
#[verifier::external_body]
pub(crate) fn argon2_hash(password: &str, salt: &str) -> (res: Option<String>)
    ensures
        salt_text_ok(salt@) && encode_utf8(password@).len() <= 0xFFFF_FFFF ==> res is Some,
        res matches Some(h) ==> phc_parses(h@) && argon2_outcome(password@, h@) == Some(true)
            && argon2_phc_shape(h@, salt@),
{
    let salt = match argon2::password_hash::Salt::from_b64(salt) {
        Ok(s) => s,
        Err(_) => return None,
    };
    argon2::Argon2::default().hash_password(password.as_bytes(), salt).ok().map(|h| h.to_string())
}

/// `Hmac::<Sha256>::new_from_slice(key)`, then `update(message)` and
/// `finalize()`: the 32-byte HMAC-SHA256 tag. HMAC takes keys of every
/// length (longer ones are hashed first), so the construction never fails.
#[verifier::external_body]
pub(crate) fn hmac_sha256(key: &[u8], message: &[u8]) -> (res: Vec<u8>)
    ensures
        res@ == hmac_sha256_of(key@, message@),
        res@.len() == 32,
{
    let mut mac = hmac::Hmac::<sha2::Sha256>::new_from_slice(key).expect(
        "HMAC accepts keys of any length",
    );
    mac.update(message);
    mac.finalize().into_bytes().to_vec()
}

/// `rand::Rng::gen_range(0..bound)` on the thread-local generator: some
/// number below `bound`.
#[verifier::external_body]
pub(crate) fn random_below(bound: u32) -> (res: u32)
    requires
        bound > 0,
    ensures
        res < bound,
{
    rand::thread_rng().gen_range(0..bound)
}

/// `chrono::Utc::now().timestamp()`: the current time in seconds since the
/// Unix epoch; `Utc::now` panics before the epoch and stays within chrono's
/// range of years (below 262143).
#[verifier::external_body]
pub(crate) fn unix_now() -> (res: i64)
    ensures
        0 <= res < 8_300_000_000_000,
{
    chrono::Utc::now().timestamp()
}

} // verus!
