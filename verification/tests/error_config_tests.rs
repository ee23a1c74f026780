use wifi_billing_backend::config::{parse_unsigned, Config, EnvValues};
use wifi_billing_backend::error::AppError;

#[test]
fn error_messages_and_codes() {
    assert_eq!(AppError::InvalidCredentials.message(), "Invalid username or password");
    assert_eq!(AppError::MaxPhoneNumbersReached.message(), "Maximum phone numbers (3) reached");
    assert_eq!(AppError::ValidationError("bad".to_string()).message(), "Validation error: bad");
    assert_eq!(AppError::DatabaseError("boom".to_string()).message(), "Database error: boom");
    assert_eq!(AppError::OtpMaxRetries.status_code(), 429);
    assert_eq!(AppError::ExternalApiError("x".to_string()).status_code(), 502);
    assert_eq!(AppError::UserExists.error_code(), "USER_EXISTS");
    let (status, code, message) = AppError::DatabaseError("secret detail".to_string()).response_parts();
    assert_eq!(status, 500);
    assert_eq!(code, "DB_ERROR");
    assert_eq!(message, "Database error occurred");
    let (status, code, message) = AppError::QuotaExhausted.response_parts();
    assert_eq!((status, code, message.as_str()), (403, "QUOTA_EXHAUSTED", "Quota exhausted"));
}

#[test]
fn unsigned_parsing_like_std() {
    for s in ["", "+", "-1", "0", "+7", "65535", "65536", "007", " 1", "1a", "99999999999999999999999"] {
        let ours = parse_unsigned(s, 65535);
        let theirs = s.parse::<u16>().ok().map(|v| v as u64);
        assert_eq!(ours, theirs, "{:?}", s);
        let ours32 = parse_unsigned(s, u32::MAX as u64);
        let theirs32 = s.parse::<u32>().ok().map(|v| v as u64);
        assert_eq!(ours32, theirs32, "{:?}", s);
    }
}

fn full_env() -> EnvValues {
    EnvValues {
        database_url: Some("postgres://db".to_string()),
        axum_host: None,
        axum_port: Some("9000".to_string()),
        radius_host: Some("127.0.0.1".to_string()),
        radius_port: Some("not a port".to_string()),
        radius_accounting_port: Some("70000".to_string()),
        radius_secret: Some("radius".to_string()),
        admin_username: None,
        admin_password_hash: Some("hash".to_string()),
        mpesa_consumer_key: Some("key".to_string()),
        mpesa_consumer_secret: Some("secret".to_string()),
        mpesa_business_short_code: Some("174379".to_string()),
        mpesa_account_number: Some("acct".to_string()),
        mpesa_passkey: Some("pass".to_string()),
        mpesa_api_url: Some("https://api".to_string()),
        mpesa_callback_url: Some("https://cb".to_string()),
        jwt_secret: Some("jwt".to_string()),
        session_timeout_mins: Some("60".to_string()),
        otp_expiry_secs: None,
        otp_retry_limit: Some("5".to_string()),
        cloudflare_tunnel_url: None,
    }
}

#[test]
fn config_defaults_and_values() {
    let c = Config::from_env_values(full_env()).unwrap();
    assert_eq!(c.database_url, "postgres://db");
    assert_eq!(c.axum_host, "0.0.0.0");
    assert_eq!(c.axum_port, 9000);
    assert_eq!(c.radius_host, "127.0.0.1");
    assert_eq!(c.radius_port, 1812);
    assert_eq!(c.radius_accounting_port, 1813);
    assert_eq!(c.admin_username, "admin");
    assert_eq!(c.session_timeout_mins, 60);
    assert_eq!(c.otp_expiry_secs, 300);
    assert_eq!(c.otp_retry_limit, 5);
    assert_eq!(c.cloudflare_tunnel_url, "https://admin.your-tunnel.trycloudflare.com");
}

#[test]
fn config_first_missing_variable() {
    let mut env = full_env();
    env.jwt_secret = None;
    env.radius_secret = None;
    let e = Config::from_env_values(env).unwrap_err();
    assert_eq!(e.name, "RADIUS_SECRET");
    let mut env = full_env();
    env.database_url = None;
    assert_eq!(Config::from_env_values(env).unwrap_err().name, "DATABASE_URL");
}
