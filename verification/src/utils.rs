//! Validation and normalization of user input, passwords, one-time
//! passwords and session tokens.
use crate::codec::{
    base64_bytes, base64_decode, base64_encode, base64_text, hyphenated, json_int, json_int_field,
    json_object, json_parse, json_parses, json_text, json_text_field, lemma_base64_injective,
    lemma_base64_no_dot, lemma_hyphenated_chars, lemma_split_text_three, parse_uuid,
    plain_json_object, split_at_char, split_text, text_before, uuid_text, uuid_value,
};
use crate::crypto::{
    argon2_hash, argon2_outcome, argon2_phc_shape, argon2_verify, fresh_salt, hmac_sha256,
    hmac_sha256_of, parse_phc, phc_parses, random_below, salt_text_ok, unix_now,
};
use crate::error::AppError;
use crate::pattern::{find_pattern, regex_digit};
use crate::text::{
    all_ascii, ascii_to_lower, char_is_alphanumeric, char_is_lowercase, char_is_numeric,
    char_is_uppercase, decimal, fixed_decimal, hex_bytes, is_alphanumeric_char, is_ascii_digit,
    is_ascii_lower, is_ascii_upper, is_lower_case, is_numeric_char, is_upper_case, is_white_space,
    lemma_hex_bytes_no_dot, lemma_trim_keeps_ascii, lemma_trim_of_unpadded, lemma_trim_unpadded,
    push_decimal, push_fixed_decimal, push_hex_bytes, replace_char_str, str_to_lowercase, trim,
    trim_str,
};
use vstd::prelude::*;
use vstd::string::*;
use vstd::utf8::encode_utf8;

verus! {

/// Shortest accepted password, in bytes.
pub const MIN_PASSWORD_LENGTH: usize = 8;

/// Longest accepted username, in bytes.
pub const MAX_FIELD_LENGTH: usize = 20;

/// Safaricom numbers: 254 and nine digits, 07 and eight digits, or 2547
/// and eight digits.
pub const PHONE_PATTERN: &'static str = "^(254\\d{9}|07\\d{8}|2547\\d{8})$";

/// Six pairs of hexadecimal digits separated by `:` or `-`.
pub const MAC_PATTERN: &'static str = "^([0-9A-Fa-f]{2}[:-]){5}([0-9A-Fa-f]{2})$";

/// Length of the UTF-8 encoding of a text, as `str::len` counts it.
pub open spec fn utf8_len(s: Seq<char>) -> nat {
    encode_utf8(s).len()
}

/// Some character satisfies the upper-case property.
pub open spec fn has_upper(s: Seq<char>) -> bool {
    exists|i: int| 0 <= i < s.len() && #[trigger] is_upper_case(s[i])
}

/// Some character satisfies the lower-case property.
pub open spec fn has_lower(s: Seq<char>) -> bool {
    exists|i: int| 0 <= i < s.len() && #[trigger] is_lower_case(s[i])
}

/// Some character is numeric.
pub open spec fn has_numeric(s: Seq<char>) -> bool {
    exists|i: int| 0 <= i < s.len() && #[trigger] is_numeric_char(s[i])
}

/// Some character is neither alphabetic nor numeric.
pub open spec fn has_special(s: Seq<char>) -> bool {
    exists|i: int| 0 <= i < s.len() && !#[trigger] is_alphanumeric_char(s[i])
}

/// How many of the four character kinds (upper case, lower case, digit,
/// other) occur in the password.
pub open spec fn complexity(s: Seq<char>) -> nat {
    (if has_upper(s) { 1nat } else { 0nat }) + (if has_lower(s) { 1nat } else { 0nat }) + (if has_numeric(s) {
        1nat
    } else {
        0nat
    }) + (if has_special(s) { 1nat } else { 0nat })
}

/// The error carries exactly the given validation message.
pub open spec fn is_validation_error(e: AppError, msg: Seq<char>) -> bool {
    e matches AppError::ValidationError(m) && m@ == msg
}

/// A password is accepted when it is 8 to 100 bytes long, holds a special
/// character (neither alphabetic nor numeric) and mixes at least three of
/// the four character kinds.
pub open spec fn password_accepted(p: Seq<char>) -> bool {
    8 <= utf8_len(p) <= 100 && has_special(p) && complexity(p) >= 3
}

/// Some character is an ASCII upper-case letter.
pub open spec fn has_ascii_upper(s: Seq<char>) -> bool {
    exists|i: int| 0 <= i < s.len() && #[trigger] is_ascii_upper(s[i])
}

/// Some character is an ASCII lower-case letter.
pub open spec fn has_ascii_lower(s: Seq<char>) -> bool {
    exists|i: int| 0 <= i < s.len() && #[trigger] is_ascii_lower(s[i])
}

/// Some character is an ASCII digit.
pub open spec fn has_ascii_digit(s: Seq<char>) -> bool {
    exists|i: int| 0 <= i < s.len() && #[trigger] is_ascii_digit(s[i])
}

/// An ASCII letter or digit.
pub open spec fn is_ascii_alnum(c: char) -> bool {
    is_ascii_upper(c) || is_ascii_lower(c) || is_ascii_digit(c)
}

/// Some character is neither an ASCII letter nor an ASCII digit.
pub open spec fn has_ascii_special(s: Seq<char>) -> bool {
    exists|i: int| 0 <= i < s.len() && !#[trigger] is_ascii_alnum(s[i])
}

/// How many of the four ASCII character kinds occur.
pub open spec fn ascii_complexity(s: Seq<char>) -> nat {
    (if has_ascii_upper(s) { 1nat } else { 0nat }) + (if has_ascii_lower(s) { 1nat } else { 0nat })
        + (if has_ascii_digit(s) { 1nat } else { 0nat }) + (if has_ascii_special(s) {
        1nat
    } else {
        0nat
    })
}

/// Password acceptance spelled out for ASCII text, where the character
/// kinds are ASCII letters, ASCII digits and the rest.
pub open spec fn ascii_password_accepted(p: Seq<char>) -> bool {
    8 <= utf8_len(p) <= 100 && has_ascii_special(p) && ascii_complexity(p) >= 3
}

fn any_char_upper(s: &str) -> (res: bool)
    ensures
        res == has_upper(s@),
        all_ascii(s@) ==> res == has_ascii_upper(s@),
{
    let n = s.unicode_len();
    let mut i: usize = 0;
    while i < n
        invariant
            n == s@.len(),
            i <= n,
            forall|k: int| 0 <= k < i ==> !#[trigger] is_upper_case(s@[k]),
            forall|k: int| 0 <= k < i ==> (#[trigger] s@[k] as u32) < 128 ==> !is_ascii_upper(s@[k]),
        decreases n - i,
    {
        if char_is_uppercase(s.get_char(i)) {
            return true;
        }
        i = i + 1;
    }
    false
}

fn any_char_lower(s: &str) -> (res: bool)
    ensures
        res == has_lower(s@),
        all_ascii(s@) ==> res == has_ascii_lower(s@),
{
    let n = s.unicode_len();
    let mut i: usize = 0;
    while i < n
        invariant
            n == s@.len(),
            i <= n,
            forall|k: int| 0 <= k < i ==> !#[trigger] is_lower_case(s@[k]),
            forall|k: int| 0 <= k < i ==> (#[trigger] s@[k] as u32) < 128 ==> !is_ascii_lower(s@[k]),
        decreases n - i,
    {
        if char_is_lowercase(s.get_char(i)) {
            return true;
        }
        i = i + 1;
    }
    false
}

fn any_char_numeric(s: &str) -> (res: bool)
    ensures
        res == has_numeric(s@),
        all_ascii(s@) ==> res == has_ascii_digit(s@),
{
    let n = s.unicode_len();
    let mut i: usize = 0;
    while i < n
        invariant
            n == s@.len(),
            i <= n,
            forall|k: int| 0 <= k < i ==> !#[trigger] is_numeric_char(s@[k]),
            forall|k: int| 0 <= k < i ==> (#[trigger] s@[k] as u32) < 128 ==> !is_ascii_digit(s@[k]),
        decreases n - i,
    {
        if char_is_numeric(s.get_char(i)) {
            return true;
        }
        i = i + 1;
    }
    false
}

fn any_char_special(s: &str) -> (res: bool)
    ensures
        res == has_special(s@),
        all_ascii(s@) ==> res == has_ascii_special(s@),
{
    let n = s.unicode_len();
    let mut i: usize = 0;
    while i < n
        invariant
            n == s@.len(),
            i <= n,
            forall|k: int| 0 <= k < i ==> #[trigger] is_alphanumeric_char(s@[k]),
            forall|k: int| 0 <= k < i ==> (#[trigger] s@[k] as u32) < 128 ==> is_ascii_alnum(s@[k]),
        decreases n - i,
    {
        let c = s.get_char(i);
        if !char_is_alphanumeric(c) {
            assert(all_ascii(s@) ==> (s@[i as int] as u32) < 128);
            assert(all_ascii(s@) ==> !is_ascii_alnum(s@[i as int]));
            return true;
        }
        i = i + 1;
    }
    false
}

/// The error a rejected password gets: under 8 bytes a weak password,
/// over 100 bytes "Password too long", otherwise (no special character, or
/// fewer than three character kinds) a weak password.
pub open spec fn password_refusal(p: Seq<char>, e: AppError) -> bool {
    if utf8_len(p) < 8 {
        e == AppError::WeakPassword
    } else if utf8_len(p) > 100 {
        is_validation_error(e, "Password too long"@)
    } else {
        e == AppError::WeakPassword
    }
}

/// Checks password strength (see `password_accepted`); a rejected password
/// gets the error of `password_refusal`.
pub fn validate_password(password: &str) -> (res: Result<(), AppError>)
    ensures
        res is Ok <==> password_accepted(password@),
        res matches Err(e) ==> password_refusal(password@, e),
        all_ascii(password@) ==> (res is Ok <==> ascii_password_accepted(password@)),
{
    if password.as_bytes().len() < MIN_PASSWORD_LENGTH {
        return Err(AppError::WeakPassword);
    }
    if password.as_bytes().len() > 100 {
        return Err(AppError::ValidationError(String::from_str("Password too long")));
    }
    let has_upper = any_char_upper(password);
    let has_lower = any_char_lower(password);
    let has_digit = any_char_numeric(password);
    let has_special = any_char_special(password);
    let complexity_count: u32 = (if has_upper { 1u32 } else { 0 }) + (if has_lower { 1u32 } else { 0 })
        + (if has_digit { 1u32 } else { 0 }) + (if has_special { 1u32 } else { 0 });
    if !has_special || complexity_count < 3 {
        return Err(AppError::WeakPassword);
    }
    Ok(())
}

/// Every character satisfies `digit`.
pub open spec fn all_digits(s: Seq<char>, digit: spec_fn(char) -> bool) -> bool {
    forall|i: int| 0 <= i < s.len() ==> #[trigger] digit(s[i])
}

/// The texts a pattern of the form of `PHONE_PATTERN` matches when `\d`
/// is `digit`: `254` and nine digits, `07` and eight digits, or `2547` and
/// eight digits.
pub open spec fn phone_shape_with(t: Seq<char>, digit: spec_fn(char) -> bool) -> bool {
    ||| t.len() == 12 && t[0] == '2' && t[1] == '5' && t[2] == '4' && all_digits(t.skip(3), digit)
    ||| t.len() == 10 && t[0] == '0' && t[1] == '7' && all_digits(t.skip(2), digit)
    ||| t.len() == 12 && t[0] == '2' && t[1] == '5' && t[2] == '4' && t[3] == '7' && all_digits(
        t.skip(4),
        digit,
    )
}

/// The texts `PHONE_PATTERN` matches, its `\d` being the regex crate's
/// (`regex_digit`).
pub open spec fn phone_shape(t: Seq<char>) -> bool {
    phone_shape_with(t, |c: char| regex_digit(c))
}

/// The outcome of phone validation: the trimmed number must be 10 to 13
/// bytes long and of the shape `PHONE_PATTERN` describes.
pub open spec fn phone_verdict(phone: Seq<char>) -> Result<(), AppError> {
    let t = trim(phone);
    if utf8_len(t) < 10 || utf8_len(t) > 13 {
        Err(AppError::InvalidPhone)
    } else if !phone_shape(t) {
        Err(AppError::InvalidPhone)
    } else {
        Ok(())
    }
}

/// Validates a phone number in Safaricom format (see `phone_verdict`).
pub fn validate_phone(phone: &str) -> (res: Result<(), AppError>)
    ensures
        res == phone_verdict(phone@),
{
    let phone_clean = trim_str(phone);
    if phone_clean.as_bytes().len() < 10 || phone_clean.as_bytes().len() > 13 {
        return Err(AppError::InvalidPhone);
    }
    match find_pattern(PHONE_PATTERN, phone_clean) {
        None => Err(AppError::InternalError),
        Some(false) => Err(AppError::InvalidPhone),
        Some(true) => Ok(()),
    }
}

/// The number in `254` form: a leading `0` of `07...` becomes `254`, and
/// `2547...` is rewritten as `254` followed by what comes after its third
/// character (which leaves it unchanged); other numbers are kept.
pub open spec fn normalized_phone(t: Seq<char>) -> Seq<char> {
    if t.len() >= 2 && t[0] == '0' && t[1] == '7' {
        "254"@ + t.subrange(1, t.len() as int)
    } else if t.len() >= 4 && t[0] == '2' && t[1] == '5' && t[2] == '4' && t[3] == '7' {
        "254"@ + t.subrange(3, t.len() as int)
    } else {
        t
    }
}

/// Validates a phone number and returns it trimmed and in `254` form.
pub fn normalize_phone(phone: &str) -> (res: Result<String, AppError>)
    ensures
        match phone_verdict(phone@) {
            Ok(()) => res matches Ok(s) && s@ == normalized_phone(trim(phone@)),
            Err(e) => res == Err::<String, AppError>(e),
        },
{
    validate_phone(phone)?;
    let clean = trim_str(phone);
    let n = clean.unicode_len();
    let normalized = if n >= 2 && clean.get_char(0) == '0' && clean.get_char(1) == '7' {
        let mut s = String::from_str("254");
        s.append(clean.substring_char(1, n));
        s
    } else if n >= 4 && clean.get_char(0) == '2' && clean.get_char(1) == '5' && clean.get_char(2)
        == '4' && clean.get_char(3) == '7' {
        let mut s = String::from_str("254");
        s.append(clean.substring_char(3, n));
        s
    } else {
        String::from_str(clean)
    };
    Ok(normalized)
}

/// A username character: alphanumeric or `_`.
pub open spec fn username_char(c: char) -> bool {
    is_alphanumeric_char(c) || c == '_'
}

/// The outcome of username validation on the trimmed name.
pub open spec fn username_accepted(u: Seq<char>) -> bool {
    let t = trim(u);
    &&& t.len() > 0
    &&& utf8_len(t) <= 20
    &&& forall|i: int| 0 <= i < t.len() ==> #[trigger] username_char(t[i])
}

/// A username character spelled out for ASCII: a letter, a digit or `_`.
pub open spec fn ascii_username_char(c: char) -> bool {
    is_ascii_alnum(c) || c == '_'
}

/// Username acceptance spelled out for ASCII text.
pub open spec fn ascii_username_accepted(u: Seq<char>) -> bool {
    let t = trim(u);
    &&& t.len() > 0
    &&& utf8_len(t) <= 20
    &&& forall|i: int| 0 <= i < t.len() ==> #[trigger] ascii_username_char(t[i])
}

/// The error a rejected username gets: an empty or over-long trimmed name
/// is "Username must be 1-20 characters"; one with another character than
/// alphanumerics and `_` is told so.
pub open spec fn username_refusal(u: Seq<char>, e: AppError) -> bool {
    if trim(u).len() == 0 || utf8_len(trim(u)) > 20 {
        is_validation_error(e, "Username must be 1-20 characters"@)
    } else {
        is_validation_error(e, "Username can only contain alphanumeric characters and underscore"@)
    }
}

/// Validates a username: once trimmed it must be 1 to 20 bytes long and
/// made of alphanumeric characters and `_`; a rejected name gets the error
/// of `username_refusal`.
pub fn validate_username(username: &str) -> (res: Result<(), AppError>)
    ensures
        res is Ok <==> username_accepted(username@),
        res matches Err(e) ==> username_refusal(username@, e),
        all_ascii(username@) ==> (res is Ok <==> ascii_username_accepted(username@)),
{
    let name = trim_str(username);
    proof {
        lemma_trim_keeps_ascii(username@);
    }
    if name.is_empty() || name.as_bytes().len() > MAX_FIELD_LENGTH {
        return Err(AppError::ValidationError(String::from_str("Username must be 1-20 characters")));
    }
    let n = name.unicode_len();
    let mut i: usize = 0;
    while i < n
        invariant
            n == name@.len(),
            name@ == trim(username@),
            name@.len() > 0,
            utf8_len(name@) <= 20,
            i <= n,
            forall|k: int| 0 <= k < i ==> #[trigger] username_char(name@[k]),
            forall|k: int|
                0 <= k < i ==> (#[trigger] name@[k] as u32) < 128 ==> ascii_username_char(name@[k]),
            all_ascii(username@) ==> all_ascii(name@),
        decreases n - i,
    {
        let c = name.get_char(i);
        if !(char_is_alphanumeric(c) || c == '_') {
            assert(!username_char(name@[i as int]));
            assert(all_ascii(username@) ==> !ascii_username_char(name@[i as int]));
            return Err(
                AppError::ValidationError(
                    String::from_str(
                        "Username can only contain alphanumeric characters and underscore",
                    ),
                ),
            );
        }
        i = i + 1;
    }
    Ok(())
}

/// An ASCII hexadecimal digit of either case.
pub open spec fn ascii_hex_digit(c: char) -> bool {
    ('0' <= c <= '9') || ('A' <= c <= 'F') || ('a' <= c <= 'f')
}

/// What may stand at position `i` of a MAC address: a separator `:` or
/// `-` after each pair, a hexadecimal digit elsewhere.
pub open spec fn mac_char_at(i: int, c: char) -> bool {
    if i % 3 == 2 {
        c == ':' || c == '-'
    } else {
        ascii_hex_digit(c)
    }
}

/// The texts `MAC_PATTERN` matches: six pairs of hexadecimal digits
/// separated by `:` or `-`.
pub open spec fn mac_shape(m: Seq<char>) -> bool {
    m.len() == 17 && forall|i: int| 0 <= i < 17 ==> #[trigger] mac_char_at(i, m[i])
}

/// The outcome of MAC address validation against `MAC_PATTERN`.
pub open spec fn mac_verdict(mac: Seq<char>) -> Result<(), AppError> {
    if mac_shape(mac) {
        Ok(())
    } else {
        Err(AppError::MacAddressInvalid)
    }
}

/// Validates a MAC address (see `mac_verdict`).
pub fn validate_mac_address(mac: &str) -> (res: Result<(), AppError>)
    ensures
        res == mac_verdict(mac@),
{
    match find_pattern(MAC_PATTERN, mac) {
        None => Err(AppError::InternalError),
        Some(false) => Err(AppError::MacAddressInvalid),
        Some(true) => Ok(()),
    }
}

/// The MAC address in lower case with `:` separators (the address is ASCII,
/// so lower case is the ASCII mapping).
pub open spec fn normalized_mac(mac: Seq<char>) -> Seq<char> {
    mac.map_values(|c: char| if c == '-' { ':' } else { ascii_to_lower(c) })
}

/// Validates a MAC address and returns it in lower case with `:`
/// separators.
pub fn normalize_mac_address(mac: &str) -> (res: Result<String, AppError>)
    ensures
        match mac_verdict(mac@) {
            Ok(()) => res matches Ok(s) && s@ == normalized_mac(mac@),
            Err(e) => res == Err::<String, AppError>(e),
        },
{
    validate_mac_address(mac)?;
    let lower = str_to_lowercase(mac);
    assert(all_ascii(mac@)) by {
        assert forall|i: int| 0 <= i < mac@.len() implies (#[trigger] mac@[i] as u32) < 128 by {
            assert(mac_char_at(i, mac@[i]));
        }
    }
    let res = replace_char_str(lower.as_str(), '-', ':');
    assert(res@ =~= normalized_mac(mac@));
    Ok(res)
}

/// The PHC string of an Argon2id hash of the password with some salt text
/// of the kind `SaltString::generate` makes: it parses and verifies the
/// password, and it starts with the default parameters and the salt.
pub open spec fn argon2id_hash_of(password: Seq<char>, h: Seq<char>) -> bool {
    &&& phc_parses(h)
    &&& argon2_outcome(password, h) == Some(true)
    &&& exists|salt: Seq<char>| salt_text_ok(salt) && #[trigger] argon2_phc_shape(h, salt)
}

/// Hashes a password with Argon2id and a fresh random salt, after checking
/// its strength: a rejected password gets the checker's error and nothing
/// is hashed.
pub fn hash_password(password: &str) -> (res: Result<String, AppError>)
    ensures
        !password_accepted(password@) ==> (res matches Err(e) && password_refusal(password@, e)),
        password_accepted(password@) ==> (res matches Ok(h) && argon2id_hash_of(password@, h@)),
{
    validate_password(password)?;
    let salt = fresh_salt();
    match argon2_hash(password, salt.as_str()) {
        Some(h) => {
            assert(argon2_phc_shape(h@, salt@));
            Ok(h)
        },
        None => Err(AppError::InternalError),
    }
}

/// The answer of password verification: a text that is not a PHC string,
/// or a verifier failure other than a wrong password, is an internal error.
pub open spec fn password_verdict(password: Seq<char>, hash: Seq<char>) -> Result<bool, AppError> {
    if !phc_parses(hash) {
        Err(AppError::InternalError)
    } else {
        match argon2_outcome(password, hash) {
            Some(b) => Ok(b),
            None => Err(AppError::InternalError),
        }
    }
}

/// Checks a password against an Argon2 hash in PHC format.
pub fn verify_password(password: &str, hash: &str) -> (res: Result<bool, AppError>)
    ensures
        res == password_verdict(password@, hash@),
{
    let parsed = match parse_phc(hash) {
        Some(p) => p,
        None => {
            return Err(AppError::InternalError);
        },
    };
    match argon2_verify(password, &parsed) {
        Some(b) => Ok(b),
        None => Err(AppError::InternalError),
    }
}

/// The text `format!("{:06}", n)` gives: the decimal digits of `n`, padded
/// with zeros on the left to six characters.
pub open spec fn padded6(n: nat) -> Seq<char> {
    if n < 1_000_000 {
        fixed_decimal(n, 6)
    } else {
        decimal(n)
    }
}

/// Renders a one-time password: the number's digits, zero padded to six.
pub fn format_otp(n: u32) -> (res: String)
    ensures
        res@ == padded6(n as nat),
{
    let mut out = String::new();
    if n < 1_000_000 {
        push_fixed_decimal(&mut out, n as u64, 6);
    } else {
        push_decimal(&mut out, n as u64);
    }
    out
}

/// A fresh random six-digit one-time password.
pub fn generate_otp() -> (res: String)
    ensures
        exists|n: nat| n < 1_000_000 && res@ == fixed_decimal(n, 6),
{
    let n = random_below(1_000_000);
    format_otp(n)
}

/// The token signature: the HMAC-SHA256 tag of the message (as UTF-8)
/// under the secret (as UTF-8), in lowercase hexadecimal.
pub open spec fn signature_text(message: Seq<char>, secret: Seq<char>) -> Seq<char> {
    hex_bytes(hmac_sha256_of(encode_utf8(secret), encode_utf8(message)))
}

/// Signs a message with a secret: HMAC-SHA256 in lowercase hexadecimal
/// (see `signature_text`).
pub fn generate_hmac_sha256(message: &str, secret: &str) -> (res: String)
    ensures
        res@ == signature_text(message@, secret@),
{
    let tag = hmac_sha256(secret.as_bytes(), message.as_bytes());
    let mut out = String::new();
    push_hex_bytes(&mut out, tag.as_slice());
    out
}

/// The fixed token header.
pub const JWT_HEADER: &'static str = "{\"alg\":\"HS256\",\"typ\":\"JWT\"}";

/// Seconds a token stays valid.
pub const TOKEN_LIFETIME_SECS: i64 = 86400;

/// The token claims as compact JSON text, keys in sorted order.
pub open spec fn claims_text(user: Seq<char>, iat: int, exp: int) -> Seq<char> {
    plain_json_object("exp"@, exp, "iat"@, iat, "user_id"@, user)
}

/// The token issued at `now` for a user: Base64 header, Base64 claims
/// (issued at `now`, expiring a day later), and their signature, joined by
/// dots.
pub open spec fn jwt_text(user_id: u128, secret: Seq<char>, now: int) -> Seq<char> {
    let header = base64_text(encode_utf8(JWT_HEADER@));
    let body = base64_text(
        encode_utf8(claims_text(hyphenated(user_id), now, now + TOKEN_LIFETIME_SECS)),
    );
    header + "."@ + body + "."@ + signature_text(header + "."@ + body, secret)
}

/// What a token issued at `issued` for a user answers at time `t`: the
/// user's id up to a day after issue, an expired session after that.
pub open spec fn issued_token_answer(user_id: u128, issued: int, t: int) -> Result<u128, AppError> {
    if t <= issued + TOKEN_LIFETIME_SECS {
        Ok(user_id)
    } else {
        Err(AppError::SessionExpired)
    }
}

/// Builds the session token issued at `now` (see `jwt_text`); read back at
/// any time `t` it gives the user's id while it lives and an expired
/// session afterwards.
pub fn generate_jwt_at(user_id: u128, secret: &str, now: i64) -> (res: String)
    requires
        now + TOKEN_LIFETIME_SECS <= i64::MAX,
    ensures
        res@ == jwt_text(user_id, secret@, now as int),
        forall|t: int| #[trigger]
            token_verdict(res@, t) == issued_token_answer(user_id, now as int, t),
{
    let exp = now + TOKEN_LIFETIME_SECS;
    let user = uuid_text(user_id);
    proof {
        lemma_hyphenated_chars(user_id);
        reveal_strlit("exp");
        reveal_strlit("iat");
        reveal_strlit("user_id");
        assert(text_before("exp"@, "iat"@));
        assert(text_before("iat"@, "user_id"@));
    }
    let payload = json_object("exp", exp, "iat", now, "user_id", user.as_str());
    let header = base64_encode(JWT_HEADER.as_bytes());
    let body = base64_encode(payload.as_str().as_bytes());
    let mut signed = String::new();
    signed.append(header.as_str());
    signed.append(".");
    signed.append(body.as_str());
    let signature = generate_hmac_sha256(signed.as_str(), secret);
    let mut token = signed;
    token.append(".");
    token.append(signature.as_str());
    proof {
        reveal_strlit(".");
        let hb = encode_utf8(JWT_HEADER@);
        let pb = encode_utf8(payload@);
        lemma_base64_no_dot(hb);
        lemma_base64_no_dot(pb);
        lemma_hex_bytes_no_dot(hmac_sha256_of(encode_utf8(secret@), encode_utf8(signed@)));
        assert(token@ =~= header@ + seq!['.'] + body@ + seq!['.'] + signature@);
        lemma_split_text_three(header@, body@, signature@, '.');
        let c = choose|c: Seq<u8>| #[trigger] base64_text(c) == body@;
        lemma_base64_injective(c, pb);
        assert(base64_bytes(body@) == Some(pb));
        assert("exp"@ != "iat"@ && "exp"@ != "user_id"@ && "iat"@ != "user_id"@);
        assert forall|t: int| #[trigger]
            token_verdict(token@, t) == issued_token_answer(user_id, now as int, t) by {
            assert(split_text(token@, '.')[1] == body@);
        }
    }
    token
}

/// Builds a session token for a user, issued now.
pub fn generate_jwt(user_id: u128, secret: &str) -> (res: Result<String, AppError>)
    ensures
        res matches Ok(t) && exists|now: int|
            0 <= now < 8_300_000_000_000 && t@ == jwt_text(user_id, secret@, now) && forall|x: int|
                #[trigger] token_verdict(t@, x) == issued_token_answer(user_id, now, x),
{
    let now = unix_now();
    Ok(generate_jwt_at(user_id, secret, now))
}

/// The answer to a token at time `now`: it must have three dot-separated
/// parts whose middle one is Base64 JSON with an integer `exp` not before
/// `now` (else the session has expired) and a `user_id` UUID text. The
/// signature is not checked.
pub open spec fn token_verdict(token: Seq<char>, now: int) -> Result<u128, AppError> {
    let parts = split_text(token, '.');
    if parts.len() != 3 {
        Err(AppError::Unauthorized)
    } else {
        match base64_bytes(parts[1]) {
            None => Err(AppError::Unauthorized),
            Some(body) => if !json_parses(body) {
                Err(AppError::Unauthorized)
            } else {
                match json_int_field(body, "exp"@) {
                    None => Err(AppError::Unauthorized),
                    Some(exp) => if exp < now {
                        Err(AppError::SessionExpired)
                    } else {
                        match json_text_field(body, "user_id"@) {
                            None => Err(AppError::Unauthorized),
                            Some(uid) => match uuid_value(uid) {
                                None => Err(AppError::Unauthorized),
                                Some(u) => Ok(u),
                            },
                        }
                    },
                }
            },
        }
    }
}

/// Reads the user id from a token at time `now` (see `token_verdict`).
pub fn parse_jwt_at(token: &str, now: i64) -> (res: Result<u128, AppError>)
    ensures
        res == token_verdict(token@, now as int),
{
    let parts = split_at_char(token, '.');
    if parts.len() != 3 {
        return Err(AppError::Unauthorized);
    }
    assert(parts@[1]@ == split_text(token@, '.')[1]);
    let body = match base64_decode(parts[1].as_str()) {
        Some(b) => b,
        None => {
            return Err(AppError::Unauthorized);
        },
    };
    let doc = match json_parse(body.as_slice()) {
        Some(d) => d,
        None => {
            return Err(AppError::Unauthorized);
        },
    };
    let exp = match json_int(&doc, "exp") {
        Some(e) => e,
        None => {
            return Err(AppError::Unauthorized);
        },
    };
    if exp < now {
        return Err(AppError::SessionExpired);
    }
    let user_id = match json_text(&doc, "user_id") {
        Some(u) => u,
        None => {
            return Err(AppError::Unauthorized);
        },
    };
    match parse_uuid(user_id.as_str()) {
        Some(u) => Ok(u),
        None => Err(AppError::Unauthorized),
    }
}

/// Reads the user id from a session token, checking its expiry against the
/// current time.
pub fn parse_jwt(token: &str, secret: &str) -> (res: Result<u128, AppError>)
    ensures
        exists|now: i64| 0 <= now < 8_300_000_000_000 && res == token_verdict(token@, now as int),
{
    let now = unix_now();
    parse_jwt_at(token, now)
}

/// Normalizing a phone number twice gives the same text as normalizing it
/// once.
pub proof fn theorem_normalized_phone_idempotent(t: Seq<char>)
    ensures
        normalized_phone(normalized_phone(t)) == normalized_phone(t),
{
    reveal_strlit("254");
    let n = normalized_phone(t);
    if t.len() >= 2 && t[0] == '0' && t[1] == '7' {
        assert(n[0] == '2' && n[1] == '5' && n[2] == '4' && n[3] == '7');
        assert("254"@ + n.subrange(3, n.len() as int) =~= n);
    } else if t.len() >= 4 && t[0] == '2' && t[1] == '5' && t[2] == '4' && t[3] == '7' {
        assert(n =~= t);
    }
}

/// A password hash verifies against the password it was made from: for a
/// PHC string `hash_password` returns, `verify_password` answers `true`.
pub proof fn theorem_hash_verifies(password: Seq<char>, hash: Seq<char>)
    requires
        argon2id_hash_of(password, hash),
    ensures
        password_verdict(password, hash) == Ok::<bool, AppError>(true),
{
}

/// A normalized MAC address holds no `-`: every separator is a `:`.
pub proof fn theorem_normalized_mac_has_no_dash(mac: Seq<char>)
    ensures
        forall|i: int| 0 <= i < normalized_mac(mac).len() ==> #[trigger] normalized_mac(mac)[i] != '-',
{
}

/// A one-time password is six ASCII digits.
pub proof fn theorem_otp_is_six_digits(n: nat)
    ensures
        fixed_decimal(n, 6).len() == 6,
        forall|i: int| 0 <= i < 6 ==> '0' <= #[trigger] fixed_decimal(n, 6)[i] <= '9',
{
    lemma_fixed_decimal_digits(n, 6);
}

proof fn lemma_fixed_decimal_digits(n: nat, k: nat)
    ensures
        fixed_decimal(n, k).len() == k,
        forall|i: int| 0 <= i < k ==> '0' <= #[trigger] fixed_decimal(n, k)[i] <= '9',
    decreases k,
{
    if k > 0 {
        lemma_fixed_decimal_digits(n / 10, (k - 1) as nat);
        let prev = fixed_decimal(n / 10, (k - 1) as nat);
        assert forall|i: int| 0 <= i < k implies '0' <= #[trigger] fixed_decimal(n, k)[i] <= '9' by {
            if i < k - 1 {
                assert(fixed_decimal(n, k)[i] == prev[i]);
            }
        }
    }
}

/// A trimmed phone number starting with `07` or `254` is normalized to a
/// number starting with `254`.
pub proof fn theorem_normalized_phone_prefix(t: Seq<char>)
    requires
        (t.len() >= 2 && t[0] == '0' && t[1] == '7') || (t.len() >= 3 && t[0] == '2' && t[1] == '5'
            && t[2] == '4'),
    ensures
        normalized_phone(t).len() >= 3,
        normalized_phone(t).take(3) == "254"@,
{
    reveal_strlit("254");
    let n = normalized_phone(t);
    if t.len() >= 2 && t[0] == '0' && t[1] == '7' {
        assert(n.take(3) =~= "254"@);
    } else if t.len() >= 4 && t[0] == '2' && t[1] == '5' && t[2] == '4' && t[3] == '7' {
        assert(n.take(3) =~= "254"@);
    } else {
        assert(n.take(3) =~= "254"@);
    }
}

/// The normalized form of a number is stable: trimming and normalizing it
/// again gives it back.
pub proof fn theorem_normalize_phone_stable(phone: Seq<char>)
    ensures
        normalized_phone(trim(normalized_phone(trim(phone)))) == normalized_phone(trim(phone)),
{
    let t = trim(phone);
    let n = normalized_phone(t);
    lemma_trim_unpadded(phone);
    reveal_strlit("254");
    if t.len() >= 2 && t[0] == '0' && t[1] == '7' {
        assert(n[0] == '2');
        assert(n.last() == t.last());
        assert(!is_white_space('2'));
    }
    lemma_trim_of_unpadded(n);
    theorem_normalized_phone_idempotent(t);
}

/// A UTF-8 encoding has at least one byte per character.
proof fn lemma_utf8_len_at_least(s: Seq<char>)
    ensures
        utf8_len(s) >= s.len(),
    decreases s.len(),
{
    if s.len() > 0 {
        lemma_utf8_len_at_least(s.drop_first());
        assert(encode_utf8(s) == vstd::utf8::encode_scalar(s[0] as u32) + encode_utf8(
            s.drop_first(),
        ));
        assert(vstd::utf8::encode_scalar(s[0] as u32).len() >= 1);
    }
}

/// Normalizing a phone number twice gives the same as once: the normalized
/// number passes the phone check again and normalizes to itself, so
/// `normalize_phone` gives it back. The one exception is a `07` number
/// whose `254` form outgrows the 13-byte bound, which only non-ASCII digits
/// can cause (as in `07` followed by three Arabic-Indic digits and five
/// ASCII ones).
pub proof fn theorem_normalize_phone_idempotent(phone: Seq<char>)
    requires
        phone_verdict(phone) is Ok,
        utf8_len(normalized_phone(trim(phone))) <= 13,
    ensures
        phone_verdict(normalized_phone(trim(phone))) is Ok,
        normalized_phone(trim(normalized_phone(trim(phone)))) == normalized_phone(trim(phone)),
{
    reveal_strlit("254");
    let t = trim(phone);
    let n = normalized_phone(t);
    theorem_normalize_phone_stable(phone);
    lemma_trim_unpadded(phone);
    let d = |c: char| regex_digit(c);
    if t.len() == 10 && t[0] == '0' && t[1] == '7' && all_digits(t.skip(2), d) {
        assert(n[0] == '2');
        assert(n.last() == t.last());
        assert(!is_white_space('2'));
        lemma_trim_of_unpadded(n);
        assert(n.len() == 12);
        assert forall|i: int| 0 <= i < n.skip(3).len() implies #[trigger] d(n.skip(3)[i]) by {
            if i > 0 {
                assert(n.skip(3)[i] == t.skip(2)[i - 1]);
            } else {
                assert(n.skip(3)[i] == '7');
            }
        }
        lemma_utf8_len_at_least(n);
    } else {
        assert(n == t) by {
            if t.len() >= 4 && t[0] == '2' && t[1] == '5' && t[2] == '4' && t[3] == '7' {
                assert(n =~= t);
            }
        }
    }
}

/// Normalizing a MAC address twice gives the same as once: the normalized
/// address passes the MAC check again and normalizes to itself, so
/// `normalize_mac_address` gives it back.
pub proof fn theorem_normalize_mac_idempotent(mac: Seq<char>)
    requires
        mac_verdict(mac) is Ok,
    ensures
        mac_verdict(normalized_mac(mac)) is Ok,
        normalized_mac(normalized_mac(mac)) == normalized_mac(mac),
{
    let n = normalized_mac(mac);
    assert forall|i: int| 0 <= i < 17 implies #[trigger] mac_char_at(i, n[i]) by {
        assert(mac_char_at(i, mac[i]));
    }
    assert forall|i: int| 0 <= i < 17 implies normalized_mac(n)[i] == n[i] by {
        assert(mac_char_at(i, mac[i]));
        assert(mac_char_at(i, n[i]));
    }
    assert(normalized_mac(n) =~= n);
}

/// What normalizing a valid MAC address does to each of its characters:
/// every separator becomes `:`, every upper-case hexadecimal letter `A`-`F`
/// becomes its lower-case letter (32 code points higher), and every other
/// character is kept; so no upper-case letter remains.
pub proof fn theorem_normalized_mac_characters(mac: Seq<char>)
    requires
        mac_verdict(mac) is Ok,
    ensures
        normalized_mac(mac).len() == 17,
        forall|i: int| 0 <= i < 17 && i % 3 == 2 ==> #[trigger] normalized_mac(mac)[i] == ':',
        forall|i: int|
            0 <= i < 17 && i % 3 != 2 && 'A' <= mac[i] <= 'F' ==> #[trigger] normalized_mac(mac)[i]
                as u32 == mac[i] as u32 + 32,
        forall|i: int|
            0 <= i < 17 && i % 3 != 2 && !('A' <= mac[i] <= 'F') ==> #[trigger] normalized_mac(mac)[i]
                == mac[i],
        forall|i: int| 0 <= i < 17 ==> !('A' <= #[trigger] normalized_mac(mac)[i] <= 'Z'),
{
    let n = normalized_mac(mac);
    assert forall|i: int| 0 <= i < 17 && i % 3 == 2 implies #[trigger] n[i] == ':' by {
        assert(mac_char_at(i, mac[i]));
    }
    assert forall|i: int|
        0 <= i < 17 && i % 3 != 2 && 'A' <= mac[i] <= 'F' implies #[trigger] n[i] as u32 == mac[i]
        as u32 + 32 by {
        assert(mac_char_at(i, mac[i]));
    }
    assert forall|i: int|
        0 <= i < 17 && i % 3 != 2 && !('A' <= mac[i] <= 'F') implies #[trigger] n[i] == mac[i] by {
        assert(mac_char_at(i, mac[i]));
    }
    assert forall|i: int| 0 <= i < 17 implies !('A' <= #[trigger] n[i] <= 'Z') by {
        assert(mac_char_at(i, mac[i]));
    }
}

} // verus!
