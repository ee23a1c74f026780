use wifi_billing_backend::utils::{
    format_otp, generate_hmac_sha256, generate_jwt, generate_jwt_at, generate_otp, hash_password, normalize_mac_address,
    normalize_phone, parse_jwt, parse_jwt_at, validate_mac_address, validate_password,
    validate_phone, validate_username, verify_password,
};
use wifi_billing_backend::error::AppError;

#[test]
fn test_validate_phone() {
    assert!(validate_phone("254712345678").is_ok());
    assert!(validate_phone("0712345678").is_ok());
    assert!(validate_phone("2547.12345678").is_err());
}

#[test]
fn test_normalize_phone() {
    assert_eq!(normalize_phone("0712345678").unwrap(), "254712345678");
    assert_eq!(
        normalize_phone("254712345678").unwrap(),
        "254712345678"
    );
}

#[test]
fn test_validate_mac() {
    assert!(validate_mac_address("F4:1E:57:C7:B2:6F").is_ok());
    assert!(validate_mac_address("F4-1E-57-C7-B2-6F").is_ok());
    assert!(validate_mac_address("F4:1E:57:C7:B2").is_err());
}

#[test]
fn test_password_validation() {
    assert!(validate_password("ValidPass123!").is_ok());
    assert!(validate_password("weak").is_err());
    assert!(validate_password("NoSpecial123").is_err());
}

#[test]
fn password_length_bounds() {
    assert!(matches!(validate_password("Ab1!xyz"), Err(AppError::WeakPassword)));
    assert!(validate_password("Ab1!xyzw").is_ok());
    let long = format!("Ab1!{}", "x".repeat(97));
    assert_eq!(long.len(), 101);
    match validate_password(&long) {
        Err(AppError::ValidationError(m)) => assert_eq!(m, "Password too long"),
        other => panic!("unexpected {:?}", other),
    }
    let just = format!("Ab1!{}", "x".repeat(96));
    assert!(validate_password(&just).is_ok());
}

#[test]
fn password_counts_bytes_not_chars() {
    // Four two-byte characters plus "A1!" make 11 bytes but 7 characters.
    assert!(validate_password("ééééA1!").is_ok());
}

#[test]
fn password_three_kinds_without_upper() {
    assert!(validate_password("lower123!").is_ok());
    assert!(matches!(validate_password("lowercase123"), Err(AppError::WeakPassword)));
    assert!(matches!(validate_password("lowercase!!!"), Err(AppError::WeakPassword)));
}

#[test]
fn phone_trimmed_and_rewritten() {
    assert_eq!(normalize_phone("  0712345678 ").unwrap(), "254712345678");
    assert_eq!(normalize_phone("\t254712345678").unwrap(), "254712345678");
    assert!(matches!(validate_phone("2547123456789"), Err(AppError::InvalidPhone)));
    assert!(matches!(validate_phone("071234567"), Err(AppError::InvalidPhone)));
    assert!(matches!(validate_phone("0812345678"), Err(AppError::InvalidPhone)));
    assert!(matches!(normalize_phone("12345"), Err(AppError::InvalidPhone)));
}

#[test]
fn username_rules() {
    assert!(validate_username("  alice_01 ").is_ok());
    match validate_username("   ") {
        Err(AppError::ValidationError(m)) => assert_eq!(m, "Username must be 1-20 characters"),
        other => panic!("unexpected {:?}", other),
    }
    match validate_username("abcdefghijklmnopqrstu") {
        Err(AppError::ValidationError(m)) => assert_eq!(m, "Username must be 1-20 characters"),
        other => panic!("unexpected {:?}", other),
    }
    match validate_username("bad-name") {
        Err(AppError::ValidationError(m)) => assert_eq!(
            m,
            "Username can only contain alphanumeric characters and underscore"
        ),
        other => panic!("unexpected {:?}", other),
    }
}

#[test]
fn mac_normalized_lowercase_colons() {
    assert_eq!(normalize_mac_address("F4-1E-57-C7-B2-6F").unwrap(), "f4:1e:57:c7:b2:6f");
    assert!(matches!(normalize_mac_address("F4:1E"), Err(AppError::MacAddressInvalid)));
}

#[test]
fn otp_six_digits() {
    assert_eq!(format_otp(42), "000042");
    assert_eq!(format_otp(999999), "999999");
    assert_eq!(format_otp(1234567), format!("{:06}", 1234567));
    let otp = generate_otp();
    assert_eq!(otp.len(), 6);
    assert!(otp.chars().all(|c| c.is_ascii_digit()));
}

#[test]
fn password_hash_then_verify() {
    let h = hash_password("ValidPass123!").unwrap();
    assert_eq!(verify_password("ValidPass123!", &h).unwrap(), true);
    assert_eq!(verify_password("OtherPass123!", &h).unwrap(), false);
    assert!(matches!(verify_password("x", "not a phc string"), Err(AppError::InternalError)));
    assert!(matches!(hash_password("weak"), Err(AppError::WeakPassword)));
}

#[test]
fn password_hash_is_argon2id_phc_with_salt() {
    let h = hash_password("ValidPass123!").unwrap();
    let head = "$argon2id$v=19$m=19456,t=2,p=1$";
    assert!(h.starts_with(head));
    assert_eq!(h.len(), head.len() + 22 + 1 + 43);
    let salt = &h[head.len()..head.len() + 22];
    assert!(salt.chars().all(|c| c.is_ascii_alphanumeric() || c == '+' || c == '/'));
    assert_eq!(&h[head.len() + 22..head.len() + 23], "$");
    let other = hash_password("ValidPass123!").unwrap();
    assert_ne!(h, other);
    let long = format!("Aa1!{}", "x".repeat(97));
    match hash_password(&long) {
        Err(AppError::ValidationError(m)) => assert_eq!(m, "Password too long"),
        other => panic!("unexpected {:?}", other),
    }
    assert!(matches!(hash_password("alllowercase1"), Err(AppError::WeakPassword)));
}

#[test]
fn token_round_trip() {
    let id: u128 = 0x550e8400_e29b_41d4_a716_446655440000;
    let token = generate_jwt(id, "secret").unwrap();
    assert_eq!(token.split('.').count(), 3);
    assert_eq!(parse_jwt(&token, "secret").unwrap(), id);
}

#[test]
fn token_layout_and_expiry() {
    let id: u128 = 7;
    let token = generate_jwt_at(id, "s", 1000);
    let parts: Vec<&str> = token.split('.').collect();
    assert_eq!(parts[0], "eyJhbGciOiJIUzI1NiIsInR5cCI6IkpXVCJ9");
    let expected_claims = format!(
        "{{\"exp\":{},\"iat\":{},\"user_id\":\"{}\"}}",
        87400,
        1000,
        uuid::Uuid::from_u128(id)
    );
    let mut map = serde_json::Map::new();
    map.insert("user_id".to_string(), serde_json::Value::String(uuid::Uuid::from_u128(id).to_string()));
    map.insert("iat".to_string(), serde_json::Value::from(1000i64));
    map.insert("exp".to_string(), serde_json::Value::from(87400i64));
    assert_eq!(serde_json::Value::Object(map).to_string(), expected_claims);
    #[allow(deprecated)]
    let body = base64::decode(parts[1]).unwrap();
    assert_eq!(String::from_utf8(body).unwrap(), expected_claims);
    assert_eq!(parse_jwt_at(&token, 87400).unwrap(), id);
    assert!(matches!(parse_jwt_at(&token, 87401), Err(AppError::SessionExpired)));
    assert!(matches!(parse_jwt_at("a.b", 0), Err(AppError::Unauthorized)));
    assert!(matches!(parse_jwt_at("a.!!!.c", 0), Err(AppError::Unauthorized)));
}

#[test]
fn normalizing_twice_changes_nothing() {
    for p in ["0712345678", "254712345678", " 0798765432 "] {
        let once = normalize_phone(p).unwrap();
        assert_eq!(normalize_phone(&once).unwrap(), once);
    }
}

#[test]
fn token_signature_is_hmac_sha256_hex() {
    let token = generate_jwt_at(1, "topsecret", 5);
    let parts: Vec<&str> = token.split('.').collect();
    let signed = format!("{}.{}", parts[0], parts[1]);
    assert_eq!(parts[2], generate_hmac_sha256(&signed, "topsecret"));
    assert_eq!(parts[2].len(), 64);
    assert!(parts[2].chars().all(|c| c.is_ascii_digit() || ('a'..='f').contains(&c)));
}

#[test]
fn hmac_sha256_standard_vector() {
    assert_eq!(
        generate_hmac_sha256("The quick brown fox jumps over the lazy dog", "key"),
        "f7bc83f430538424b13298e6aa6fb143ef4d59a14946175997479dbc2d1a3cd8"
    );
    assert_eq!(
        generate_hmac_sha256("", ""),
        "b613679a0814d9ec772f95d778c35fc5ff1697c493715653c6c712144292c5ad"
    );
}

#[test]
fn normalizing_a_mac_twice_changes_nothing() {
    for m in ["F4-1E-57-C7-B2-6F", "f4:1e:57:c7:b2:6f", "AA-bb:CC-dd:EE-ff"] {
        let once = normalize_mac_address(m).unwrap();
        assert_eq!(normalize_mac_address(&once).unwrap(), once);
    }
    assert!(matches!(normalize_mac_address("G4:1E:57:C7:B2:6F"), Err(AppError::MacAddressInvalid)));
    assert!(matches!(normalize_mac_address("F4:1E:57:C7:B2:6F "), Err(AppError::MacAddressInvalid)));
}

#[test]
fn phone_digits_follow_the_unicode_digit_class() {
    let p = "07\u{0660}\u{0661}\u{0662}34567";
    assert_eq!(p.len(), 13);
    let once = normalize_phone(p).unwrap();
    assert_eq!(once, "2547\u{0660}\u{0661}\u{0662}34567");
    assert!(matches!(normalize_phone(&once), Err(AppError::InvalidPhone)));
    assert!(matches!(validate_phone("07123456a8"), Err(AppError::InvalidPhone)));
    assert!(validate_phone("2547123456789").is_err());
}
