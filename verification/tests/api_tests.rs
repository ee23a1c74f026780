use wifi_billing_backend::api::{
    check_admin_username, check_otp, check_package_request, check_signup, extract_user_id,
    next_login_step, phone_slot, quota_duration_secs, quota_status_text, remaining_time_hours,
    text_eq, verify_otp_attempt, LoginEvent, LoginStep, OtpCheck,
};
use wifi_billing_backend::utils::hash_password;
use wifi_billing_backend::codec::{base64_decode, split_at_char};
use wifi_billing_backend::config::Config;
use wifi_billing_backend::error::AppError;
use wifi_billing_backend::models::{CreatePackageRequest, OtpRecord, SignupRequest};

#[test]
fn user_id_from_bearer_header() {
    let id = uuid::Uuid::parse_str("550e8400-e29b-41d4-a716-446655440000").unwrap();
    let header = format!("Bearer {}.rest.sig", id);
    assert_eq!(extract_user_id(Some(&header)).unwrap(), id.as_u128());
    assert!(matches!(extract_user_id(None), Err(AppError::Unauthorized)));
    assert!(matches!(extract_user_id(Some("Basic abc")), Err(AppError::Unauthorized)));
    assert!(matches!(extract_user_id(Some("Bearer nope")), Err(AppError::Unauthorized)));
}

#[test]
fn bearer_token_user_ids_of_many_uuids() {
    for v in [0u128, 1, 0x550e8400_e29b_41d4_a716_446655440000, u128::MAX] {
        let header = format!("Bearer {}.x.y", uuid::Uuid::from_u128(v));
        assert_eq!(extract_user_id(Some(&header)).unwrap(), v);
    }
}

#[test]
fn split_like_std() {
    for s in ["", "a", "a.b", ".a.", "..", "x.y.z"] {
        let ours = split_at_char(s, '.');
        let theirs: Vec<String> = s.split('.').map(|p| p.to_string()).collect();
        assert_eq!(ours, theirs);
    }
}

#[test]
fn signup_checked_in_order() {
    let ok = SignupRequest { username: "alice".to_string(), phone: "0712345678".to_string(), password: "ValidPass123!".to_string() };
    assert_eq!(check_signup(&ok).unwrap(), "254712345678");
    let bad_user = SignupRequest { username: "a b".to_string(), ..ok.clone() };
    assert!(matches!(check_signup(&bad_user), Err(AppError::ValidationError(_))));
    let bad_pw = SignupRequest { password: "weak".to_string(), ..ok.clone() };
    assert!(matches!(check_signup(&bad_pw), Err(AppError::WeakPassword)));
    let bad_phone = SignupRequest { phone: "123".to_string(), ..ok.clone() };
    assert!(matches!(check_signup(&bad_phone), Err(AppError::InvalidPhone)));
}

fn validation_message(r: Result<String, AppError>) -> String {
    match r {
        Err(AppError::ValidationError(m)) => m,
        other => panic!("expected a validation error, got {:?}", other),
    }
}

#[test]
fn signup_errors_are_the_checkers_own() {
    let ok = SignupRequest { username: "alice".to_string(), phone: "0712345678".to_string(), password: "ValidPass123!".to_string() };
    let empty = SignupRequest { username: "   ".to_string(), ..ok.clone() };
    assert_eq!(validation_message(check_signup(&empty)), "Username must be 1-20 characters");
    let long = SignupRequest { username: "a".repeat(21), ..ok.clone() };
    assert_eq!(validation_message(check_signup(&long)), "Username must be 1-20 characters");
    let odd = SignupRequest { username: "al-ice".to_string(), password: "weak".to_string(), ..ok.clone() };
    assert_eq!(
        validation_message(check_signup(&odd)),
        "Username can only contain alphanumeric characters and underscore"
    );
    let too_long = SignupRequest { password: format!("Aa1!{}", "x".repeat(97)), ..ok.clone() };
    assert_eq!(validation_message(check_signup(&too_long)), "Password too long");
    let no_special = SignupRequest { password: "NoSpecial123".to_string(), phone: "1".to_string(), ..ok.clone() };
    assert!(matches!(check_signup(&no_special), Err(AppError::WeakPassword)));
    let bad_phone = SignupRequest { phone: "0812345678".to_string(), ..ok.clone() };
    assert!(matches!(check_signup(&bad_phone), Err(AppError::InvalidPhone)));
    let padded = SignupRequest { phone: " 254712345678 ".to_string(), ..ok.clone() };
    assert_eq!(check_signup(&padded).unwrap(), "254712345678");
}

#[test]
fn login_steps_in_order() {
    let mac = "F4-1E-57-C7-B2-6F";
    match next_login_step(&LoginEvent::Started, mac, "pw") {
        LoginStep::FindDevice(m) => assert_eq!(m, "f4:1e:57:c7:b2:6f"),
        other => panic!("unexpected {:?}", other),
    }
    assert!(matches!(
        next_login_step(&LoginEvent::Started, "F4:1E:57", "pw"),
        LoginStep::Fail(AppError::MacAddressInvalid)
    ));
    assert!(matches!(
        next_login_step(&LoginEvent::DeviceFound(None), mac, "pw"),
        LoginStep::Fail(AppError::DeviceNotFound)
    ));
    assert!(matches!(next_login_step(&LoginEvent::DeviceFound(Some(9)), mac, "pw"), LoginStep::FindUser(9)));
    assert!(matches!(
        next_login_step(&LoginEvent::UserFound(None), mac, "pw"),
        LoginStep::Fail(AppError::UserNotFound)
    ));
    let hash = hash_password("ValidPass123!").unwrap();
    let user = LoginEvent::UserFound(Some((9, hash.clone())));
    assert!(matches!(next_login_step(&user, mac, "ValidPass123!"), LoginStep::FindQuota(9)));
    assert!(matches!(
        next_login_step(&user, mac, "WrongPass123!"),
        LoginStep::Fail(AppError::InvalidCredentials)
    ));
    let broken = LoginEvent::UserFound(Some((9, "not a hash".to_string())));
    assert!(matches!(next_login_step(&broken, mac, "pw"), LoginStep::Fail(AppError::InternalError)));
    assert!(matches!(next_login_step(&LoginEvent::QuotaFound(9, true), mac, "pw"), LoginStep::IssueToken(9)));
    assert!(matches!(
        next_login_step(&LoginEvent::QuotaFound(9, false), mac, "pw"),
        LoginStep::Fail(AppError::QuotaExhausted)
    ));
}

fn package_form(name: &str, price: i32) -> CreatePackageRequest {
    CreatePackageRequest {
        name: name.to_string(),
        price_ksh: price,
        upload_speed_mbps: 5,
        download_speed_mbps: 10,
        time_limit_hours: Some(1),
        bandwidth_limit_gb: None,
        description: String::new(),
        concurrent_users: 1,
        quota_type: "time_usage".to_string(),
    }
}

#[test]
fn package_form_rules() {
    assert!(check_package_request(&package_form("Hourly", 10)).is_ok());
    match check_package_request(&package_form("", 10)) {
        Err(AppError::ValidationError(m)) => assert_eq!(m, "Invalid package name"),
        other => panic!("unexpected {:?}", other),
    }
    match check_package_request(&package_form(&"n".repeat(51), 10)) {
        Err(AppError::ValidationError(m)) => assert_eq!(m, "Invalid package name"),
        other => panic!("unexpected {:?}", other),
    }
    match check_package_request(&package_form("Hourly", 0)) {
        Err(AppError::ValidationError(m)) => assert_eq!(m, "Price must be positive"),
        other => panic!("unexpected {:?}", other),
    }
}

#[test]
fn phone_slots() {
    assert_eq!(phone_slot(0).unwrap(), true);
    assert_eq!(phone_slot(2).unwrap(), false);
    assert!(matches!(phone_slot(3), Err(AppError::MaxPhoneNumbersReached)));
}

#[test]
fn quota_arithmetic() {
    assert_eq!(remaining_time_hours(Some(24), 3600), Some(23));
    assert_eq!(remaining_time_hours(Some(1), 3599), Some(0));
    assert_eq!(remaining_time_hours(Some(1), 7200), Some(0));
    assert_eq!(remaining_time_hours(None, 10), None);
    assert_eq!(quota_duration_secs(Some(2)), 7200);
    assert_eq!(quota_duration_secs(None), 365 * 86400);
    assert_eq!(quota_status_text(10, 5, "active"), "expired");
    assert_eq!(quota_status_text(5, 5, "active"), "active");
}

fn otp(attempts: i32) -> OtpRecord {
    OtpRecord { id: 1, user_id: 2, otp_code: "123456".to_string(), created_at: 0, expires_at: 100, attempts, is_verified: false }
}

#[test]
fn otp_checks_in_order() {
    assert_eq!(check_otp(&otp(0), 101, "123456"), OtpCheck::Expired);
    assert_eq!(check_otp(&otp(3), 50, "123456"), OtpCheck::TooManyAttempts);
    assert_eq!(check_otp(&otp(1), 50, "654321"), OtpCheck::Mismatch);
    assert_eq!(check_otp(&otp(2), 100, "123456"), OtpCheck::Verified);
    assert_eq!(OtpCheck::Verified.result().unwrap(), true);
    assert!(matches!(OtpCheck::Expired.result(), Err(AppError::OtpExpired)));
    assert!(matches!(OtpCheck::TooManyAttempts.result(), Err(AppError::OtpMaxRetries)));
    assert!(matches!(OtpCheck::Mismatch.result(), Err(AppError::OtpInvalid)));
}

#[test]
fn otp_attempts_are_recorded() {
    let mut r = otp(0);
    assert!(matches!(verify_otp_attempt(&mut r, 10, "000000"), Err(AppError::OtpInvalid)));
    assert_eq!(r.attempts, 1);
    assert!(!r.is_verified);
    assert_eq!(verify_otp_attempt(&mut r, 10, "123456").unwrap(), true);
    assert_eq!(r.attempts, 1);
    assert!(r.is_verified);
    let mut late = otp(0);
    assert!(matches!(verify_otp_attempt(&mut late, 101, "000000"), Err(AppError::OtpExpired)));
    assert_eq!(late.attempts, 0);
}

#[test]
fn otp_locks_after_three_wrong_codes() {
    let mut r = otp(0);
    for guess in ["111111", "222222", "333333"] {
        assert!(matches!(verify_otp_attempt(&mut r, 50, guess), Err(AppError::OtpInvalid)));
    }
    assert_eq!(r.attempts, 3);
    assert!(matches!(verify_otp_attempt(&mut r, 60, "123456"), Err(AppError::OtpMaxRetries)));
    assert!(matches!(verify_otp_attempt(&mut r, 200, "123456"), Err(AppError::OtpExpired)));
    assert_eq!(r.attempts, 3);
    assert!(!r.is_verified);
}

#[test]
fn admin_name_and_text_equality() {
    let mut c = wifi_billing_backend::config::Config::from_env_values(wifi_billing_backend::config::EnvValues {
        database_url: Some("db".to_string()),
        axum_host: None, axum_port: None, radius_host: None, radius_port: None,
        radius_accounting_port: None, radius_secret: Some("r".to_string()), admin_username: None,
        admin_password_hash: Some("h".to_string()), mpesa_consumer_key: Some("k".to_string()),
        mpesa_consumer_secret: Some("s".to_string()), mpesa_business_short_code: Some("1".to_string()),
        mpesa_account_number: Some("a".to_string()), mpesa_passkey: Some("p".to_string()),
        mpesa_api_url: Some("u".to_string()), mpesa_callback_url: Some("c".to_string()),
        jwt_secret: Some("j".to_string()), session_timeout_mins: None, otp_expiry_secs: None,
        otp_retry_limit: None, cloudflare_tunnel_url: None,
    }).unwrap();
    assert!(check_admin_username("admin", &c).is_ok());
    c.admin_username = "root".to_string();
    let _: &Config = &c;
    assert!(matches!(check_admin_username("admin", &c), Err(AppError::InvalidCredentials)));
    assert!(text_eq("abc", "abc"));
    assert!(!text_eq("abc", "abd"));
    assert!(!text_eq("ab", "abc"));
}

#[test]
fn base64_decoding_and_refusals() {
    assert_eq!(base64_decode("aGk/").unwrap(), b"hi?".to_vec());
    assert_eq!(base64_decode("YWI=").unwrap(), b"ab".to_vec());
    assert_eq!(base64_decode("YQ==").unwrap(), b"a".to_vec());
    assert!(base64_decode("YR==").is_none());
    assert!(base64_decode("YQ").is_none());
    assert!(base64_decode("Y Q==").is_none());
    assert_eq!(base64_decode("").unwrap(), Vec::<u8>::new());
}
