//! The application's error kinds, their messages and their HTTP form.
use vstd::prelude::*;
use vstd::string::*;

verus! {

/// Errors of the billing backend.
#[derive(Debug)]
pub enum AppError {
    InvalidCredentials,
    InvalidPhone,
    WeakPassword,
    UserExists,
    UserNotFound,
    MaxPhoneNumbersReached,
    OtpExpired,
    OtpInvalid,
    OtpMaxRetries,
    SessionExpired,
    Unauthorized,
    MacAddressInvalid,
    DeviceNotFound,
    DeviceLocked,
    PackageNotFound,
    PackageInactive,
    InvalidPackageData,
    PaymentFailed,
    PaymentNotFound,
    InsufficientBalance,
    PaymentDuplicate,
    QuotaExhausted,
    QuotaNotFound,
    DatabaseError(String),
    ValidationError(String),
    ExternalApiError(String),
    InternalError,
}

impl AppError {
    /// The human-readable message of the error.
    pub open spec fn spec_message(&self) -> Seq<char> {
        match self {
            AppError::InvalidCredentials => "Invalid username or password"@,
            AppError::InvalidPhone => "Invalid phone number format"@,
            AppError::WeakPassword => "Password does not meet strength requirements"@,
            AppError::UserExists => "User already exists"@,
            AppError::UserNotFound => "User not found"@,
            AppError::MaxPhoneNumbersReached => "Maximum phone numbers (3) reached"@,
            AppError::OtpExpired => "OTP has expired"@,
            AppError::OtpInvalid => "Invalid OTP"@,
            AppError::OtpMaxRetries => "Maximum OTP retries exceeded"@,
            AppError::SessionExpired => "Session has expired"@,
            AppError::Unauthorized => "Unauthorized"@,
            AppError::MacAddressInvalid => "Invalid MAC address format"@,
            AppError::DeviceNotFound => "Device not found"@,
            AppError::DeviceLocked => "Device is locked"@,
            AppError::PackageNotFound => "Package not found"@,
            AppError::PackageInactive => "Package is inactive"@,
            AppError::InvalidPackageData => "Invalid package data"@,
            AppError::PaymentFailed => "Payment processing failed"@,
            AppError::PaymentNotFound => "Payment not found"@,
            AppError::InsufficientBalance => "Insufficient balance"@,
            AppError::PaymentDuplicate => "Duplicate payment detected"@,
            AppError::QuotaExhausted => "Quota exhausted"@,
            AppError::QuotaNotFound => "Quota not found"@,
            AppError::DatabaseError(msg) => "Database error: "@ + msg@,
            AppError::ValidationError(msg) => "Validation error: "@ + msg@,
            AppError::ExternalApiError(msg) => "External API error: "@ + msg@,
            AppError::InternalError => "Internal server error"@,
        }
    }

    /// The HTTP status the error is answered with.
    pub open spec fn spec_status(&self) -> u16 {
        match self {
            AppError::InvalidCredentials => 401,
            AppError::InvalidPhone => 400,
            AppError::WeakPassword => 400,
            AppError::UserExists => 409,
            AppError::UserNotFound => 404,
            AppError::MaxPhoneNumbersReached => 400,
            AppError::OtpExpired => 400,
            AppError::OtpInvalid => 400,
            AppError::OtpMaxRetries => 429,
            AppError::SessionExpired => 401,
            AppError::Unauthorized => 401,
            AppError::MacAddressInvalid => 400,
            AppError::DeviceNotFound => 404,
            AppError::DeviceLocked => 403,
            AppError::PackageNotFound => 404,
            AppError::PackageInactive => 400,
            AppError::InvalidPackageData => 400,
            AppError::PaymentFailed => 400,
            AppError::PaymentNotFound => 404,
            AppError::InsufficientBalance => 400,
            AppError::PaymentDuplicate => 409,
            AppError::QuotaExhausted => 403,
            AppError::QuotaNotFound => 404,
            AppError::DatabaseError(msg) => 500,
            AppError::ValidationError(msg) => 400,
            AppError::ExternalApiError(msg) => 502,
            AppError::InternalError => 500,
        }
    }

    /// The machine-readable code of the error.
    pub open spec fn spec_code(&self) -> Seq<char> {
        match self {
            AppError::InvalidCredentials => "INVALID_CREDENTIALS"@,
            AppError::InvalidPhone => "INVALID_PHONE"@,
            AppError::WeakPassword => "WEAK_PASSWORD"@,
            AppError::UserExists => "USER_EXISTS"@,
            AppError::UserNotFound => "USER_NOT_FOUND"@,
            AppError::MaxPhoneNumbersReached => "MAX_PHONES_REACHED"@,
            AppError::OtpExpired => "OTP_EXPIRED"@,
            AppError::OtpInvalid => "OTP_INVALID"@,
            AppError::OtpMaxRetries => "OTP_MAX_RETRIES"@,
            AppError::SessionExpired => "SESSION_EXPIRED"@,
            AppError::Unauthorized => "UNAUTHORIZED"@,
            AppError::MacAddressInvalid => "INVALID_MAC"@,
            AppError::DeviceNotFound => "DEVICE_NOT_FOUND"@,
            AppError::DeviceLocked => "DEVICE_LOCKED"@,
            AppError::PackageNotFound => "PACKAGE_NOT_FOUND"@,
            AppError::PackageInactive => "PACKAGE_INACTIVE"@,
            AppError::InvalidPackageData => "INVALID_PACKAGE"@,
            AppError::PaymentFailed => "PAYMENT_FAILED"@,
            AppError::PaymentNotFound => "PAYMENT_NOT_FOUND"@,
            AppError::InsufficientBalance => "INSUFFICIENT_BALANCE"@,
            AppError::PaymentDuplicate => "PAYMENT_DUPLICATE"@,
            AppError::QuotaExhausted => "QUOTA_EXHAUSTED"@,
            AppError::QuotaNotFound => "QUOTA_NOT_FOUND"@,
            AppError::DatabaseError(msg) => "DB_ERROR"@,
            AppError::ValidationError(msg) => "VALIDATION_ERROR"@,
            AppError::ExternalApiError(msg) => "EXTERNAL_API_ERROR"@,
            AppError::InternalError => "INTERNAL_ERROR"@,
        }
    }

    /// The message sent to clients: the error's own message, except for
    /// database errors, whose details are not disclosed.
    pub open spec fn spec_response_message(&self) -> Seq<char> {
        match self {
            AppError::DatabaseError(_) => "Database error occurred"@,
            _ => self.spec_message(),
        }
    }

    /// The human-readable message of the error.
    pub fn message(&self) -> (res: String)
        ensures
            res@ == self.spec_message(),
    {
        match self {
            AppError::InvalidCredentials => String::from_str("Invalid username or password"),
            AppError::InvalidPhone => String::from_str("Invalid phone number format"),
            AppError::WeakPassword => String::from_str("Password does not meet strength requirements"),
            AppError::UserExists => String::from_str("User already exists"),
            AppError::UserNotFound => String::from_str("User not found"),
            AppError::MaxPhoneNumbersReached => String::from_str("Maximum phone numbers (3) reached"),
            AppError::OtpExpired => String::from_str("OTP has expired"),
            AppError::OtpInvalid => String::from_str("Invalid OTP"),
            AppError::OtpMaxRetries => String::from_str("Maximum OTP retries exceeded"),
            AppError::SessionExpired => String::from_str("Session has expired"),
            AppError::Unauthorized => String::from_str("Unauthorized"),
            AppError::MacAddressInvalid => String::from_str("Invalid MAC address format"),
            AppError::DeviceNotFound => String::from_str("Device not found"),
            AppError::DeviceLocked => String::from_str("Device is locked"),
            AppError::PackageNotFound => String::from_str("Package not found"),
            AppError::PackageInactive => String::from_str("Package is inactive"),
            AppError::InvalidPackageData => String::from_str("Invalid package data"),
            AppError::PaymentFailed => String::from_str("Payment processing failed"),
            AppError::PaymentNotFound => String::from_str("Payment not found"),
            AppError::InsufficientBalance => String::from_str("Insufficient balance"),
            AppError::PaymentDuplicate => String::from_str("Duplicate payment detected"),
            AppError::QuotaExhausted => String::from_str("Quota exhausted"),
            AppError::QuotaNotFound => String::from_str("Quota not found"),
            AppError::DatabaseError(msg) => { let mut s = String::from_str("Database error: "); s.append(msg.as_str()); s },
            AppError::ValidationError(msg) => { let mut s = String::from_str("Validation error: "); s.append(msg.as_str()); s },
            AppError::ExternalApiError(msg) => { let mut s = String::from_str("External API error: "); s.append(msg.as_str()); s },
            AppError::InternalError => String::from_str("Internal server error"),
        }
    }

    /// The HTTP status the error is answered with.
    pub fn status_code(&self) -> (res: u16)
        ensures
            res == self.spec_status(),
    {
        match self {
            AppError::InvalidCredentials => 401,
            AppError::InvalidPhone => 400,
            AppError::WeakPassword => 400,
            AppError::UserExists => 409,
            AppError::UserNotFound => 404,
            AppError::MaxPhoneNumbersReached => 400,
            AppError::OtpExpired => 400,
            AppError::OtpInvalid => 400,
            AppError::OtpMaxRetries => 429,
            AppError::SessionExpired => 401,
            AppError::Unauthorized => 401,
            AppError::MacAddressInvalid => 400,
            AppError::DeviceNotFound => 404,
            AppError::DeviceLocked => 403,
            AppError::PackageNotFound => 404,
            AppError::PackageInactive => 400,
            AppError::InvalidPackageData => 400,
            AppError::PaymentFailed => 400,
            AppError::PaymentNotFound => 404,
            AppError::InsufficientBalance => 400,
            AppError::PaymentDuplicate => 409,
            AppError::QuotaExhausted => 403,
            AppError::QuotaNotFound => 404,
            AppError::DatabaseError(msg) => 500,
            AppError::ValidationError(msg) => 400,
            AppError::ExternalApiError(msg) => 502,
            AppError::InternalError => 500,
        }
    }

    /// The machine-readable code of the error.
    pub fn error_code(&self) -> (res: &'static str)
        ensures
            res@ == self.spec_code(),
    {
        match self {
            AppError::InvalidCredentials => "INVALID_CREDENTIALS",
            AppError::InvalidPhone => "INVALID_PHONE",
            AppError::WeakPassword => "WEAK_PASSWORD",
            AppError::UserExists => "USER_EXISTS",
            AppError::UserNotFound => "USER_NOT_FOUND",
            AppError::MaxPhoneNumbersReached => "MAX_PHONES_REACHED",
            AppError::OtpExpired => "OTP_EXPIRED",
            AppError::OtpInvalid => "OTP_INVALID",
            AppError::OtpMaxRetries => "OTP_MAX_RETRIES",
            AppError::SessionExpired => "SESSION_EXPIRED",
            AppError::Unauthorized => "UNAUTHORIZED",
            AppError::MacAddressInvalid => "INVALID_MAC",
            AppError::DeviceNotFound => "DEVICE_NOT_FOUND",
            AppError::DeviceLocked => "DEVICE_LOCKED",
            AppError::PackageNotFound => "PACKAGE_NOT_FOUND",
            AppError::PackageInactive => "PACKAGE_INACTIVE",
            AppError::InvalidPackageData => "INVALID_PACKAGE",
            AppError::PaymentFailed => "PAYMENT_FAILED",
            AppError::PaymentNotFound => "PAYMENT_NOT_FOUND",
            AppError::InsufficientBalance => "INSUFFICIENT_BALANCE",
            AppError::PaymentDuplicate => "PAYMENT_DUPLICATE",
            AppError::QuotaExhausted => "QUOTA_EXHAUSTED",
            AppError::QuotaNotFound => "QUOTA_NOT_FOUND",
            AppError::DatabaseError(msg) => "DB_ERROR",
            AppError::ValidationError(msg) => "VALIDATION_ERROR",
            AppError::ExternalApiError(msg) => "EXTERNAL_API_ERROR",
            AppError::InternalError => "INTERNAL_ERROR",
        }
    }

    /// Status, code and client message of the error's HTTP answer.
    pub fn response_parts(&self) -> (res: (u16, &'static str, String))
        ensures
            res.0 == self.spec_status(),
            res.1@ == self.spec_code(),
            res.2@ == self.spec_response_message(),
    {
        let message = match self {
            AppError::DatabaseError(_) => String::from_str("Database error occurred"),
            _ => self.message(),
        };
        (self.status_code(), self.error_code(), message)
    }
}

/// Every error is answered with a client (4xx) or server (5xx) status, and
/// exactly the database, external-API and internal errors get a 5xx one.
pub proof fn theorem_error_status_classes(e: AppError)
    ensures
        400 <= e.spec_status() < 600,
        e.spec_status() >= 500 <==> (e is DatabaseError || e is ExternalApiError || e is InternalError),
{
}

} // verus!
