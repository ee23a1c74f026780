//! Request and record types the verified logic reads. Identifiers are the
//! 128-bit values of UUIDs; instants are nanoseconds since the Unix epoch.
use vstd::prelude::*;

verus! {

/// Sign-up form.
#[derive(Clone, Debug)]
pub struct SignupRequest {
    pub username: String,
    pub phone: String,
    pub password: String,
}

/// Login form: the device's MAC address and the account password.
#[derive(Clone, Debug)]
pub struct LoginRequest {
    pub mac_address: String,
    pub password: String,
}

/// Request to add a phone number to an account.
#[derive(Clone, Debug)]
pub struct AddPhoneRequest {
    pub phone: String,
}

/// Package creation or update form.
#[derive(Clone, Debug)]
pub struct CreatePackageRequest {
    pub name: String,
    pub price_ksh: i32,
    pub upload_speed_mbps: i32,
    pub download_speed_mbps: i32,
    pub time_limit_hours: Option<i32>,
    pub bandwidth_limit_gb: Option<i32>,
    pub description: String,
    pub concurrent_users: i32,
    pub quota_type: String,
}

/// Administrator login form.
#[derive(Clone, Debug)]
pub struct AdminLoginRequest {
    pub username: String,
    pub password: String,
}

/// A package offered for sale.
#[derive(Clone, Debug)]
pub struct Package {
    pub id: u128,
    pub name: String,
    pub price_ksh: i32,
    pub upload_speed_mbps: i32,
    pub download_speed_mbps: i32,
    pub time_limit_hours: Option<i32>,
    pub bandwidth_limit_gb: Option<i32>,
    pub description: String,
    pub concurrent_users: i32,
    /// "time_usage", "time_wall_clock" or "bandwidth".
    pub quota_type: String,
    pub is_active: bool,
    pub created_at: i128,
    pub updated_at: i128,
}

/// A one-time password sent to a user.
#[derive(Clone, Debug)]
pub struct OtpRecord {
    pub id: u128,
    pub user_id: u128,
    pub otp_code: String,
    pub created_at: i128,
    pub expires_at: i128,
    pub attempts: i32,
    pub is_verified: bool,
}

/// Attributes a RADIUS client asks about.
#[derive(Clone, Debug)]
pub struct RadiusAttributeRequest {
    pub user_name: String,
    pub mac_address: String,
}

/// Rates and session timeout granted to a RADIUS client.
#[derive(Clone, Copy, Debug)]
pub struct RadiusAttributeResponse {
    pub upload_speed_kbps: u32,
    pub download_speed_kbps: u32,
    pub session_timeout: u32,
}

} // verus!
