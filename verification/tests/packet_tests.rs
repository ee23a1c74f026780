use wifi_billing_backend::radius::attributes::attribute_types::{
    CALLING_STATION_ID, REPLY_MESSAGE, USER_NAME,
};
use wifi_billing_backend::radius::attributes::{build_rate_limit_string, parse_mac_address};
use wifi_billing_backend::radius::packet::{RadiusCode, RadiusPacket};

fn sample_request() -> Vec<u8> {
    let mut data = vec![1u8, 42, 0, 0];
    data.extend_from_slice(&[9u8; 16]);
    data.extend_from_slice(&[USER_NAME, 7, b'a', b'l', b'i', b'c', b'e']);
    data.extend_from_slice(&[CALLING_STATION_ID, 19]);
    data.extend_from_slice(b"f4-1e-57-c7-b2-6f");
    let len = data.len() as u16;
    data[2] = (len >> 8) as u8;
    data[3] = (len & 0xff) as u8;
    data
}

#[test]
fn new_packet_is_header_only() {
    let p = RadiusPacket::new(2);
    assert_eq!(p.to_bytes(), {
        let mut v = vec![2u8, 0, 0, 20];
        v.extend_from_slice(&[0u8; 16]);
        v
    });
}

#[test]
fn add_attribute_grows_length() {
    let mut p = RadiusPacket::new(3);
    p.add_attribute(REPLY_MESSAGE, b"no");
    assert_eq!(p.length, 24);
    assert_eq!(p.attributes.len(), 1);
    assert_eq!(p.attributes[0].length, 4);
    let bytes = p.to_bytes();
    assert_eq!(bytes.len(), 24);
    assert_eq!(&bytes[20..], &[REPLY_MESSAGE, 4, b'n', b'o']);
}

#[test]
fn add_attribute_length_byte_wraps() {
    let mut p = RadiusPacket::new(3);
    let value = vec![7u8; 300];
    p.add_attribute(REPLY_MESSAGE, &value);
    assert_eq!(p.attributes[0].length, ((300 + 2) % 256) as u8);
    assert_eq!(p.length, 20 + 46);
}

#[test]
fn parse_reads_header_and_attributes() {
    let data = sample_request();
    let p = RadiusPacket::from_bytes(&data).unwrap();
    assert_eq!(p.code, 1);
    assert_eq!(p.identifier, 42);
    assert_eq!(p.length as usize, data.len());
    assert_eq!(p.authenticator, [9u8; 16]);
    assert_eq!(p.attributes.len(), 2);
    assert_eq!(p.get_attribute_string(USER_NAME).unwrap(), "alice");
    assert_eq!(p.get_attribute(CALLING_STATION_ID).unwrap().length, 19);
    assert!(p.get_attribute(99).is_none());
    assert_eq!(p.to_bytes(), data);
}

#[test]
fn parse_errors() {
    match RadiusPacket::from_bytes(&[0u8; 19]) {
        Err(e) => assert_eq!(e, "Packet too short"),
        Ok(_) => panic!("expected an error"),
    }
    let mut data = sample_request();
    data.pop();
    match RadiusPacket::from_bytes(&data) {
        Err(e) => assert_eq!(e, "Incomplete packet"),
        Ok(_) => panic!("expected an error"),
    }
}

#[test]
fn parse_stops_at_bad_attribute() {
    let mut data = vec![1u8, 1, 0, 26];
    data.extend_from_slice(&[0u8; 16]);
    data.extend_from_slice(&[USER_NAME, 3, b'x', 5, 1, 0]);
    let p = RadiusPacket::from_bytes(&data).unwrap();
    assert_eq!(p.attributes.len(), 1);
    assert_eq!(p.attributes[0].value, vec![b'x']);
    assert_eq!(p.length, 26);
}

#[test]
fn parse_ignores_bytes_past_length() {
    let mut data = sample_request();
    data.extend_from_slice(&[1, 2, 3]);
    let p = RadiusPacket::from_bytes(&data).unwrap();
    assert_eq!(p.attributes.len(), 2);
    assert_eq!(p.to_bytes(), data[..data.len() - 3].to_vec());
}

#[test]
fn first_attribute_of_type_wins() {
    let mut p = RadiusPacket::new(1);
    p.add_attribute(USER_NAME, b"first");
    p.add_attribute(USER_NAME, b"second");
    assert_eq!(p.get_attribute_string(USER_NAME).unwrap(), "first");
}

#[test]
fn invalid_utf8_attribute_is_not_text() {
    let mut p = RadiusPacket::new(1);
    p.add_attribute(USER_NAME, &[0xff, 0xfe]);
    assert!(p.get_attribute(USER_NAME).is_some());
    assert!(p.get_attribute_string(USER_NAME).is_none());
}

#[test]
fn codes_round_trip() {
    for n in 0u8..=255 {
        if let Some(c) = RadiusCode::from_number(n) {
            assert_eq!(c.number(), n);
        }
    }
    assert_eq!(RadiusCode::CoA.number(), 44);
    assert!(RadiusCode::from_number(6).is_none());
}

#[test]
fn rate_limit_in_megabits() {
    assert_eq!(build_rate_limit_string(2048, 10240), "2M/10M");
    assert_eq!(build_rate_limit_string(1023, 0), "0M/0M");
}

#[test]
fn station_id_upper_colons() {
    assert_eq!(parse_mac_address("f4-1e-57-c7-b2-6f").unwrap(), "F4:1E:57:C7:B2:6F");
}
