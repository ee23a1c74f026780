//! The decisions the HTTP handlers and the database layer make, apart from
//! their I/O: reading the caller's id, checking forms, phone slots, quota
//! arithmetic and one-time password verification.
use crate::codec::{parse_uuid, split_at_char, split_text, uuid_value};
use crate::config::Config;
use crate::error::AppError;
use crate::models::{CreatePackageRequest, OtpRecord, SignupRequest};
use crate::utils::{
    is_validation_error, mac_verdict, normalize_mac_address, normalize_phone, normalized_mac,
    password_verdict, verify_password, normalized_phone, password_accepted, password_refusal,
    phone_verdict, username_accepted, username_refusal, utf8_len, validate_password,
    validate_phone, validate_username,
};
use crate::text::trim;
use vstd::prelude::*;
use vstd::string::*;

verus! {

/// Whether the two texts are equal.
pub fn text_eq(a: &str, b: &str) -> (res: bool)
    ensures
        res == (a@ == b@),
{
    let n = a.unicode_len();
    if n != b.unicode_len() {
        return false;
    }
    let mut i: usize = 0;
    while i < n
        invariant
            n == a@.len(),
            n == b@.len(),
            i <= n,
            a@.take(i as int) == b@.take(i as int),
        decreases n - i,
    {
        if a.get_char(i) != b.get_char(i) {
            return false;
        }
        assert(a@.take(i + 1) =~= a@.take(i as int).push(a@[i as int]));
        assert(b@.take(i + 1) =~= b@.take(i as int).push(b@[i as int]));
        i = i + 1;
    }
    assert(a@.take(n as int) =~= a@);
    assert(b@.take(n as int) =~= b@);
    true
}

/// The caller's user id from an `Authorization` header value: it must start
/// with `Bearer `, and the token's text up to its first `.` must be a UUID.
pub open spec fn caller_id(header: Option<Seq<char>>) -> Result<u128, AppError> {
    match header {
        None => Err(AppError::Unauthorized),
        Some(h) => if h.len() >= 7 && h.take(7) == "Bearer "@ {
            match uuid_value(split_text(h.skip(7), '.')[0]) {
                Some(u) => Ok(u),
                None => Err(AppError::Unauthorized),
            }
        } else {
            Err(AppError::Unauthorized)
        },
    }
}

/// Reads the caller's user id from the `Authorization` header value (`None`
/// when the header is missing or not visible ASCII); see `caller_id`.
pub fn extract_user_id(authorization: Option<&str>) -> (res: Result<u128, AppError>)
    ensures
        res == caller_id(
            match authorization {
                Some(h) => Some(h@),
                None => None,
            },
        ),
{
    let header = match authorization {
        Some(h) => h,
        None => {
            return Err(AppError::Unauthorized);
        },
    };
    let n = header.unicode_len();
    proof {
        reveal_strlit("Bearer ");
    }
    if n < 7 || !text_eq(header.substring_char(0, 7), "Bearer ") {
        return Err(AppError::Unauthorized);
    }
    let token = header.substring_char(7, n);
    assert(token@ =~= header@.skip(7));
    let parts = split_at_char(token, '.');
    proof {
        assert(parts@.len() >= 1) by {
            assert(split_text(token@, '.').len() >= 1) by {
                crate::codec::lemma_split_text_nonempty(token@, '.');
            }
        }
    }
    assert(parts@[0]@ == split_text(token@, '.')[0]);
    match parse_uuid(parts[0].as_str()) {
        Some(u) => Ok(u),
        None => Err(AppError::Unauthorized),
    }
}

/// What the sign-up checks answer: username, then password, then phone,
/// and on success the phone in `254` form.
pub open spec fn signup_accepted(req: SignupRequest) -> bool {
    &&& username_accepted(req.username@)
    &&& password_accepted(req.password@)
    &&& phone_verdict(req.phone@) is Ok
}

/// Checks a sign-up form in order (username, password, phone) and returns
/// the normalized phone number; the first check that fails gives its own
/// error.
pub fn check_signup(req: &SignupRequest) -> (res: Result<String, AppError>)
    ensures
        res is Ok <==> signup_accepted(*req),
        !username_accepted(req.username@) ==> (res matches Err(e) && username_refusal(
            req.username@,
            e,
        )),
        username_accepted(req.username@) && !password_accepted(req.password@) ==> (res matches Err(
            e,
        ) && password_refusal(req.password@, e)),
        username_accepted(req.username@) && password_accepted(req.password@) ==> match phone_verdict(
            req.phone@,
        ) {
            Ok(()) => res matches Ok(p) && p@ == normalized_phone(trim(req.phone@)),
            Err(e) => res == Err::<String, AppError>(e),
        },
{
    validate_username(req.username.as_str())?;
    validate_password(req.password.as_str())?;
    validate_phone(req.phone.as_str())?;
    normalize_phone(req.phone.as_str())
}

/// What the login handler has just learned.
#[derive(Debug)]
pub enum LoginEvent {
    /// The request came in.
    Started,
    /// The owner's id of the device registered under the MAC address, if a
    /// device is.
    DeviceFound(Option<u128>),
    /// The device's owner, if the user exists: id and password hash.
    UserFound(Option<(u128, String)>),
    /// Whether the user (by id) holds an active quota.
    QuotaFound(u128, bool),
}

/// What the login handler does next.
#[derive(Debug)]
pub enum LoginStep {
    /// Look up the device under the normalized MAC address.
    FindDevice(String),
    /// Look up the user by id.
    FindUser(u128),
    /// Look up the user's active quota.
    FindQuota(u128),
    /// Issue a session token to the user.
    IssueToken(u128),
    /// Refuse the login with the error.
    Fail(AppError),
}

/// The login decisions, one event at a time: the MAC address is validated
/// and normalized, then the device must exist, then its owner, then the
/// password must verify against the owner's hash, then the owner must hold
/// an active quota; the token is issued last.
pub fn next_login_step(event: &LoginEvent, mac: &str, password: &str) -> (res: LoginStep)
    ensures
        *event matches LoginEvent::Started ==> match mac_verdict(mac@) {
            Ok(()) => res matches LoginStep::FindDevice(m) && m@ == normalized_mac(mac@),
            Err(e) => res == LoginStep::Fail(e),
        },
        *event == LoginEvent::DeviceFound(None) ==> res == LoginStep::Fail(AppError::DeviceNotFound),
        *event matches LoginEvent::DeviceFound(Some(u)) ==> res == LoginStep::FindUser(u),
        *event == LoginEvent::UserFound(None) ==> res == LoginStep::Fail(AppError::UserNotFound),
        *event matches LoginEvent::UserFound(Some((id, hash))) ==> res == match password_verdict(
            password@,
            hash@,
        ) {
            Ok(true) => LoginStep::FindQuota(id),
            Ok(false) => LoginStep::Fail(AppError::InvalidCredentials),
            Err(e) => LoginStep::Fail(e),
        },
        *event matches LoginEvent::QuotaFound(id, active) ==> res == if active {
            LoginStep::IssueToken(id)
        } else {
            LoginStep::Fail(AppError::QuotaExhausted)
        },
{
    match event {
        LoginEvent::Started => match normalize_mac_address(mac) {
            Ok(m) => LoginStep::FindDevice(m),
            Err(e) => LoginStep::Fail(e),
        },
        LoginEvent::DeviceFound(None) => LoginStep::Fail(AppError::DeviceNotFound),
        LoginEvent::DeviceFound(Some(u)) => LoginStep::FindUser(*u),
        LoginEvent::UserFound(None) => LoginStep::Fail(AppError::UserNotFound),
        LoginEvent::UserFound(Some((id, hash))) => match verify_password(password, hash.as_str()) {
            Ok(true) => LoginStep::FindQuota(*id),
            Ok(false) => LoginStep::Fail(AppError::InvalidCredentials),
            Err(e) => LoginStep::Fail(e),
        },
        LoginEvent::QuotaFound(id, active) => if *active {
            LoginStep::IssueToken(*id)
        } else {
            LoginStep::Fail(AppError::QuotaExhausted)
        },
    }
}

/// Checks the administrator's package form: the name must be 1 to 50 bytes
/// long and the price positive.
pub fn check_package_request(req: &CreatePackageRequest) -> (res: Result<(), AppError>)
    ensures
        (utf8_len(req.name@) > 50 || req.name@.len() == 0) ==> (res matches Err(e)
            && is_validation_error(e, "Invalid package name"@)),
        !(utf8_len(req.name@) > 50 || req.name@.len() == 0) && req.price_ksh <= 0 ==> (res matches Err(
            e,
        ) && is_validation_error(e, "Price must be positive"@)),
        !(utf8_len(req.name@) > 50 || req.name@.len() == 0) && req.price_ksh > 0 ==> res is Ok,
{
    let name = req.name.as_str();
    if name.as_bytes().len() > 50 || name.is_empty() {
        return Err(AppError::ValidationError(String::from_str("Invalid package name")));
    }
    if req.price_ksh <= 0 {
        return Err(AppError::ValidationError(String::from_str("Price must be positive")));
    }
    Ok(())
}

/// Most phone numbers an account may hold.
pub const MAX_PHONE_NUMBERS: i64 = 3;

/// Whether another phone number may be added to an account that holds
/// `count` of them, and if so whether it becomes the default (the first one
/// does).
pub fn phone_slot(count: i64) -> (res: Result<bool, AppError>)
    ensures
        count >= 3 ==> res matches Err(AppError::MaxPhoneNumbersReached),
        count < 3 ==> res == Ok::<bool, AppError>(count == 0),
{
    if count >= MAX_PHONE_NUMBERS {
        return Err(AppError::MaxPhoneNumbersReached);
    }
    Ok(count == 0)
}

/// Whole hours left of a package's time limit after `used` seconds, at
/// least 0; `None` for packages without a time limit.
pub open spec fn hours_left(limit: Option<i32>, used: int) -> Option<i32> {
    match limit {
        Some(h) => {
            let remaining = h * 3600 - used;
            if remaining > 0 {
                Some((remaining / 3600) as i32)
            } else {
                Some(0)
            }
        },
        None => None,
    }
}

/// Hours left of a package's time limit (see `hours_left`).
pub fn remaining_time_hours(time_limit_hours: Option<i32>, time_used_seconds: i64) -> (res: Option<
    i32,
>)
    requires
        time_limit_hours matches Some(h) ==> i64::MIN <= h * 3600 - time_used_seconds <= i64::MAX,
    ensures
        res == hours_left(time_limit_hours, time_used_seconds as int),
{
    match time_limit_hours {
        Some(limit) => {
            let total_seconds = (limit as i64) * 3600;
            let remaining_seconds = total_seconds - time_used_seconds;
            if remaining_seconds > 0 {
                Some((remaining_seconds / 3600) as i32)
            } else {
                Some(0)
            }
        },
        None => None,
    }
}

/// How long a quota bought for a package lasts, in seconds: its time limit,
/// or a year for packages without one.
pub fn quota_duration_secs(time_limit_hours: Option<i32>) -> (res: i64)
    ensures
        res == match time_limit_hours {
            Some(h) => h * 3600,
            None => 365 * 86400int,
        },
{
    match time_limit_hours {
        Some(hours) => (hours as i64) * 3600,
        None => 365 * 86400,
    }
}

/// The status shown for a quota at time `now`: "expired" once `now` is past
/// its expiry, its stored status otherwise.
pub fn quota_status_text(now: i128, expires_at: i128, status: &str) -> (res: String)
    ensures
        now > expires_at ==> res@ == "expired"@,
        now <= expires_at ==> res@ == status@,
{
    if now > expires_at {
        String::from_str("expired")
    } else {
        String::from_str(status)
    }
}

/// Checks the administrator name of a login attempt.
pub fn check_admin_username(username: &str, config: &Config) -> (res: Result<(), AppError>)
    ensures
        username@ == config.admin_username@ ==> res is Ok,
        username@ != config.admin_username@ ==> res matches Err(AppError::InvalidCredentials),
{
    if !text_eq(username, config.admin_username.as_str()) {
        return Err(AppError::InvalidCredentials);
    }
    Ok(())
}

/// Most wrong guesses a one-time password tolerates.
pub const OTP_MAX_ATTEMPTS: i32 = 3;

/// The outcome of checking a one-time password.
#[derive(Clone, Copy, Debug, PartialEq, Eq, Structural)]
pub enum OtpCheck {
    /// Past its expiry.
    Expired,
    /// Already guessed wrong too often.
    TooManyAttempts,
    /// Wrong code: the attempt is counted.
    Mismatch,
    /// Right code: the record is marked verified.
    Verified,
}

/// The outcome of checking `code` against a one-time password record at
/// time `now`: expiry first, then the attempt count, then the code.
pub open spec fn otp_outcome(otp: OtpRecord, now: int, code: Seq<char>) -> OtpCheck {
    if now > otp.expires_at {
        OtpCheck::Expired
    } else if otp.attempts >= 3 {
        OtpCheck::TooManyAttempts
    } else if otp.otp_code@ != code {
        OtpCheck::Mismatch
    } else {
        OtpCheck::Verified
    }
}

/// Checks `code` against a one-time password record at time `now` (see
/// `otp_outcome`).
pub fn check_otp(otp: &OtpRecord, now: i128, code: &str) -> (res: OtpCheck)
    ensures
        res == otp_outcome(*otp, now as int, code@),
{
    if now > otp.expires_at {
        return OtpCheck::Expired;
    }
    if otp.attempts >= OTP_MAX_ATTEMPTS {
        return OtpCheck::TooManyAttempts;
    }
    if !text_eq(otp.otp_code.as_str(), code) {
        return OtpCheck::Mismatch;
    }
    OtpCheck::Verified
}

/// The answer a check gives: `true` when verified, else its error.
pub open spec fn otp_answer(check: OtpCheck) -> Result<bool, AppError> {
    match check {
        OtpCheck::Expired => Err(AppError::OtpExpired),
        OtpCheck::TooManyAttempts => Err(AppError::OtpMaxRetries),
        OtpCheck::Mismatch => Err(AppError::OtpInvalid),
        OtpCheck::Verified => Ok(true),
    }
}

impl OtpCheck {
    /// The answer of the check (see `otp_answer`).
    pub fn result(&self) -> (res: Result<bool, AppError>)
        ensures
            res == otp_answer(*self),
    {
        match self {
            OtpCheck::Expired => Err(AppError::OtpExpired),
            OtpCheck::TooManyAttempts => Err(AppError::OtpMaxRetries),
            OtpCheck::Mismatch => Err(AppError::OtpInvalid),
            OtpCheck::Verified => Ok(true),
        }
    }
}

/// The record after checking `code` at time `now`: a wrong code counts one
/// more attempt, the right one marks the record verified, and an expired or
/// exhausted record stays as it was.
pub open spec fn otp_after(otp: OtpRecord, now: int, code: Seq<char>) -> OtpRecord {
    match otp_outcome(otp, now, code) {
        OtpCheck::Mismatch => OtpRecord {
            id: otp.id,
            user_id: otp.user_id,
            otp_code: otp.otp_code,
            created_at: otp.created_at,
            expires_at: otp.expires_at,
            attempts: (otp.attempts + 1) as i32,
            is_verified: otp.is_verified,
        },
        OtpCheck::Verified => OtpRecord {
            id: otp.id,
            user_id: otp.user_id,
            otp_code: otp.otp_code,
            created_at: otp.created_at,
            expires_at: otp.expires_at,
            attempts: otp.attempts,
            is_verified: true,
        },
        _ => otp,
    }
}

/// Checks `code` against a one-time password record at time `now` and
/// records the attempt in it (see `otp_after`); answers `true` when the code
/// is verified, else the check's error.
pub fn verify_otp_attempt(otp: &mut OtpRecord, now: i128, code: &str) -> (res: Result<
    bool,
    AppError,
>)
    ensures
        *final(otp) == otp_after(*old(otp), now as int, code@),
        res == otp_answer(otp_outcome(*old(otp), now as int, code@)),
{
    let check = check_otp(otp, now, code);
    match check {
        OtpCheck::Mismatch => {
            otp.attempts = otp.attempts + 1;
        },
        OtpCheck::Verified => {
            otp.is_verified = true;
        },
        _ => {},
    }
    check.result()
}

/// A one-time password locks after three wrong guesses: from a fresh record,
/// three wrong codes before its expiry are each refused as invalid, and
/// after them every check, whatever the code and the time, is refused (as
/// too many attempts before the expiry) and leaves the record unverified and
/// unchanged.
pub proof fn theorem_otp_locks_after_three_wrong_codes(
    otp: OtpRecord,
    t1: int,
    w1: Seq<char>,
    t2: int,
    w2: Seq<char>,
    t3: int,
    w3: Seq<char>,
    t4: int,
    code: Seq<char>,
)
    requires
        otp.attempts == 0,
        !otp.is_verified,
        t1 <= otp.expires_at,
        t2 <= otp.expires_at,
        t3 <= otp.expires_at,
        w1 != otp.otp_code@,
        w2 != otp.otp_code@,
        w3 != otp.otp_code@,
    ensures
        otp_answer(otp_outcome(otp, t1, w1)) == Err::<bool, AppError>(AppError::OtpInvalid),
        otp_answer(otp_outcome(otp_after(otp, t1, w1), t2, w2)) == Err::<bool, AppError>(
            AppError::OtpInvalid,
        ),
        otp_answer(otp_outcome(otp_after(otp_after(otp, t1, w1), t2, w2), t3, w3)) == Err::<
            bool,
            AppError,
        >(AppError::OtpInvalid),
        otp_after(otp_after(otp_after(otp, t1, w1), t2, w2), t3, w3).attempts == 3,
        !otp_after(otp_after(otp_after(otp, t1, w1), t2, w2), t3, w3).is_verified,
        otp_outcome(otp_after(otp_after(otp_after(otp, t1, w1), t2, w2), t3, w3), t4, code)
            != OtpCheck::Verified,
        t4 <= otp.expires_at ==> otp_answer(
            otp_outcome(otp_after(otp_after(otp_after(otp, t1, w1), t2, w2), t3, w3), t4, code),
        ) == Err::<bool, AppError>(AppError::OtpMaxRetries),
        otp_after(otp_after(otp_after(otp_after(otp, t1, w1), t2, w2), t3, w3), t4, code)
            == otp_after(otp_after(otp_after(otp, t1, w1), t2, w2), t3, w3),
{
}

/// How a one-time password check decides, for every record, time and
/// code: past its expiry it is refused as expired; before it, a record with
/// three or more wrong guesses is refused as exhausted; otherwise the
/// record's own code is verified (answer `true`, the record marked
/// verified, its attempt count kept) and any other code is refused as
/// invalid and counted as one more attempt. Refused checks of an expired
/// or exhausted record leave it unchanged.
pub proof fn theorem_otp_check_decisions(otp: OtpRecord, now: int, code: Seq<char>)
    ensures
        now > otp.expires_at ==> otp_answer(otp_outcome(otp, now, code)) == Err::<bool, AppError>(
            AppError::OtpExpired,
        ) && otp_after(otp, now, code) == otp,
        now <= otp.expires_at && otp.attempts >= 3 ==> otp_answer(otp_outcome(otp, now, code))
            == Err::<bool, AppError>(AppError::OtpMaxRetries) && otp_after(otp, now, code) == otp,
        now <= otp.expires_at && otp.attempts < 3 && code == otp.otp_code@ ==> otp_answer(
            otp_outcome(otp, now, code),
        ) == Ok::<bool, AppError>(true) && otp_after(otp, now, code).is_verified && otp_after(
            otp,
            now,
            code,
        ).attempts == otp.attempts && otp_after(otp, now, code).otp_code == otp.otp_code,
        now <= otp.expires_at && otp.attempts < 3 && code != otp.otp_code@ ==> otp_answer(
            otp_outcome(otp, now, code),
        ) == Err::<bool, AppError>(AppError::OtpInvalid) && otp_after(otp, now, code).attempts
            == otp.attempts + 1 && otp_after(otp, now, code).is_verified == otp.is_verified
            && otp_after(otp, now, code).otp_code == otp.otp_code,
{
}

} // verus!
