use wifi_billing_backend::config::Config;
use wifi_billing_backend::error::AppError;
use wifi_billing_backend::models::Package;
use wifi_billing_backend::radius::attributes::attribute_types::{
    CALLING_STATION_ID, FILTER_ID, REPLY_MESSAGE, SESSION_TIMEOUT, USER_NAME,
};
use wifi_billing_backend::radius::packet::RadiusPacket;
use wifi_billing_backend::radius::server::{
    access_reply, access_request_identity, build_access_accept, build_access_reject,
    build_accounting_response, classify_request, next_access_step, AccessEvent, AccessStep,
    RejectReason, RequestKind,
};

fn config() -> Config {
    Config {
        database_url: "postgres://x".to_string(),
        axum_host: "0.0.0.0".to_string(),
        axum_port: 8080,
        radius_host: "0.0.0.0".to_string(),
        radius_port: 1812,
        radius_accounting_port: 1813,
        radius_secret: "s".to_string(),
        admin_username: "admin".to_string(),
        admin_password_hash: "h".to_string(),
        mpesa_consumer_key: "k".to_string(),
        mpesa_consumer_secret: "c".to_string(),
        mpesa_business_short_code: "174379".to_string(),
        mpesa_account_number: "a".to_string(),
        mpesa_passkey: "p".to_string(),
        mpesa_api_url: "u".to_string(),
        mpesa_callback_url: "cb".to_string(),
        jwt_secret: "j".to_string(),
        session_timeout_mins: 1440,
        otp_expiry_secs: 300,
        otp_retry_limit: 3,
        cloudflare_tunnel_url: "t".to_string(),
    }
}

fn package(hours: Option<i32>) -> Package {
    Package {
        id: 1,
        name: "Daily".to_string(),
        price_ksh: 50,
        upload_speed_mbps: 5,
        download_speed_mbps: 10,
        time_limit_hours: hours,
        bandwidth_limit_gb: None,
        description: "one day".to_string(),
        concurrent_users: 1,
        quota_type: "time_usage".to_string(),
        is_active: true,
        created_at: 0,
        updated_at: 0,
    }
}

fn request() -> RadiusPacket {
    let mut req = RadiusPacket::new(1);
    req.identifier = 77;
    req.authenticator = [5u8; 16];
    req.add_attribute(USER_NAME, b"alice");
    req.add_attribute(CALLING_STATION_ID, b"aa-bb-cc-dd-ee-ff");
    req
}

#[test]
fn accept_carries_timeout_rate_and_message() {
    let res = build_access_accept(request(), "alice".to_string(), &package(Some(24)), &config());
    assert_eq!(res.code, 2);
    assert_eq!(res.identifier, 77);
    assert_eq!(res.authenticator, [5u8; 16]);
    let timeout = res.get_attribute(SESSION_TIMEOUT).unwrap();
    assert_eq!(timeout.value, (24u32 * 3600).to_be_bytes().to_vec());
    assert_eq!(res.get_attribute_string(FILTER_ID).unwrap(), "5M/10M");
    assert_eq!(res.get_attribute_string(REPLY_MESSAGE).unwrap(), "Access granted");
    assert_eq!(res.length as usize, res.to_bytes().len());
}

#[test]
fn accept_without_time_limit_and_negative_rate() {
    let mut p = package(None);
    p.upload_speed_mbps = -3;
    let res = build_access_accept(request(), "alice".to_string(), &p, &config());
    assert!(res.get_attribute(SESSION_TIMEOUT).is_none());
    assert_eq!(res.get_attribute_string(FILTER_ID).unwrap(), "-3M/10M");
}

#[test]
fn reject_carries_reason() {
    let res = build_access_reject(request(), "Device not found", &config());
    assert_eq!(res.code, 3);
    assert_eq!(res.identifier, 77);
    assert_eq!(res.attributes.len(), 1);
    assert_eq!(res.get_attribute_string(REPLY_MESSAGE).unwrap(), "Device not found");
    let bytes = res.to_bytes();
    assert_eq!(RadiusPacket::from_bytes(&bytes).unwrap().to_bytes(), bytes);
}

#[test]
fn accounting_response_echoes_request() {
    let mut req = RadiusPacket::new(4);
    req.identifier = 9;
    req.authenticator = [1u8; 16];
    let res = build_accounting_response(&req);
    assert_eq!(res.code, 5);
    assert_eq!(res.identifier, 9);
    assert_eq!(res.authenticator, [1u8; 16]);
    assert_eq!(res.length, 20);
}

#[test]
fn requests_classified_by_code() {
    assert_eq!(classify_request(1), RequestKind::Access);
    assert_eq!(classify_request(4), RequestKind::Accounting);
    assert_eq!(classify_request(2), RequestKind::Ignored);
}

#[test]
fn identity_read_and_normalized() {
    let (user, mac) = access_request_identity(&request()).unwrap();
    assert_eq!(user, "alice");
    assert_eq!(mac, "AA:BB:CC:DD:EE:FF");
    let bare = RadiusPacket::new(1);
    match access_request_identity(&bare) {
        Err(AppError::ValidationError(m)) => assert_eq!(m, "No User-Name"),
        other => panic!("unexpected {:?}", other),
    }
    let mut named = RadiusPacket::new(1);
    named.add_attribute(USER_NAME, b"bob");
    match access_request_identity(&named) {
        Err(AppError::ValidationError(m)) => assert_eq!(m, "No Calling-Station-Id"),
        other => panic!("unexpected {:?}", other),
    }
}

#[test]
fn lookup_chain() {
    assert!(matches!(next_access_step(AccessEvent::Device(None)), AccessStep::Reject(RejectReason::DeviceNotFound)));
    assert!(matches!(next_access_step(AccessEvent::Device(Some(3))), AccessStep::LookUpUser(3)));
    assert!(matches!(next_access_step(AccessEvent::User(Some(3))), AccessStep::LookUpQuota(3)));
    assert!(matches!(next_access_step(AccessEvent::User(None)), AccessStep::Reject(RejectReason::UserNotFound)));
    assert!(matches!(next_access_step(AccessEvent::Quota(Some(8))), AccessStep::LookUpPackage(8)));
    assert!(matches!(next_access_step(AccessEvent::Quota(None)), AccessStep::Reject(RejectReason::NoActiveQuota)));
    assert!(matches!(next_access_step(AccessEvent::PackageFound(None)), AccessStep::Reject(RejectReason::PackageNotFound)));
    assert!(matches!(next_access_step(AccessEvent::PackageFound(Some(package(None)))), AccessStep::Accept(_)));
}

#[test]
fn replies_for_final_steps() {
    let r = access_reply(request(), "alice".to_string(), AccessStep::Reject(RejectReason::NoActiveQuota), &config()).unwrap();
    assert_eq!(r.get_attribute_string(REPLY_MESSAGE).unwrap(), "No active quota");
    let a = access_reply(request(), "alice".to_string(), AccessStep::Accept(package(Some(1))), &config()).unwrap();
    assert_eq!(a.code, 2);
    assert!(access_reply(request(), "alice".to_string(), AccessStep::LookUpUser(1), &config()).is_none());
}
