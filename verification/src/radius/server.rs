//! The RADIUS server's decisions: which requests it answers, the
//! lookups an Access-Request goes through, and the replies it sends.
use crate::config::Config;
use crate::error::AppError;
use crate::models::Package;
use crate::radius::attributes::attribute_types::{
    CALLING_STATION_ID, FILTER_ID, REPLY_MESSAGE, SESSION_TIMEOUT, USER_NAME,
};
use crate::radius::attributes::{normalized_station_id, parse_mac_address};
use crate::radius::packet::{
    attribute_text, attributes_wire, find_attribute, theorem_add_attribute_well_formed,
    theorem_added_attribute_found, AttributeView, PacketView, RadiusPacket,
};
use crate::text::{decimal, lemma_decimal_short, push_signed_decimal, signed_decimal};
use vstd::utf8::{is_ascii_chars, is_ascii_chars_encode_utf8};
use vstd::prelude::*;
use vstd::string::*;
use vstd::utf8::encode_utf8;

verus! {

/// What the server does with a request, by its code.
#[derive(Clone, Copy, Debug, PartialEq, Eq, Structural)]
pub enum RequestKind {
    /// Code 1: Access-Request.
    Access,
    /// Code 4: Accounting-Request.
    Accounting,
    /// Any other code: logged and ignored.
    Ignored,
}

/// Classifies a request by its code.
pub fn classify_request(code: u8) -> (res: RequestKind)
    ensures
        code == 1 ==> res == RequestKind::Access,
        code == 4 ==> res == RequestKind::Accounting,
        code != 1 && code != 4 ==> res == RequestKind::Ignored,
{
    if code == 1 {
        RequestKind::Access
    } else if code == 4 {
        RequestKind::Accounting
    } else {
        RequestKind::Ignored
    }
}

/// A reply with the given code that echoes the request's identifier and
/// authenticator and has no attributes yet.
pub open spec fn reply_base(code: u8, req: PacketView) -> PacketView {
    PacketView {
        code,
        identifier: req.identifier,
        length: 20,
        authenticator: req.authenticator,
        attributes: Seq::empty(),
    }
}

/// A 32-bit number in big-endian byte order.
pub open spec fn be32(n: u32) -> Seq<u8> {
    seq![(n / 16777216) as u8, ((n / 65536) % 256) as u8, ((n / 256) % 256) as u8, (n % 256) as u8]
}

/// The MikroTik rate limit `"<up>M/<down>M"` of a package.
pub open spec fn package_rate_text(package: Package) -> Seq<char> {
    signed_decimal(package.upload_speed_mbps as int) + "M/"@ + signed_decimal(
        package.download_speed_mbps as int,
    ) + "M"@
}

/// Session timeouts fit in 32 bits: a package's time limit, if any, is
/// between 0 and the number of hours whose seconds fit in a `u32`.
pub open spec fn timeout_fits(package: Package) -> bool {
    match package.time_limit_hours {
        Some(h) => 0 <= h && h * 3600 <= u32::MAX,
        None => true,
    }
}

/// The Access-Accept for a package: Session-Timeout in seconds when the
/// package has a time limit, Filter-Id with the rate limit, and the reply
/// message "Access granted".
pub open spec fn access_accept_view(req: PacketView, package: Package) -> PacketView {
    let base = reply_base(2, req);
    let timed = match package.time_limit_hours {
        Some(h) => base.with_attribute(SESSION_TIMEOUT, be32((h * 3600) as u32)),
        None => base,
    };
    timed.with_attribute(FILTER_ID, encode_utf8(package_rate_text(package))).with_attribute(
        REPLY_MESSAGE,
        encode_utf8("Access granted"@),
    )
}

/// The Access-Reject carrying `reason` as its reply message.
pub open spec fn access_reject_view(req: PacketView, reason: Seq<char>) -> PacketView {
    reply_base(3, req).with_attribute(REPLY_MESSAGE, encode_utf8(reason))
}

fn reply_to(code: u8, req: &RadiusPacket) -> (res: RadiusPacket)
    ensures
        res@ == reply_base(code, req@),
{
    let mut response = RadiusPacket::new(code);
    response.identifier = req.identifier;
    response.authenticator = req.authenticator;
    response
}

/// Builds the Access-Accept granting `package` (see `access_accept_view`).
pub fn build_access_accept(
    req: RadiusPacket,
    username: String,
    package: &Package,
    config: &Config,
) -> (res: RadiusPacket)
    requires
        timeout_fits(*package),
    ensures
        res@ == access_accept_view(req@, *package),
{
    let mut response = reply_to(2, &req);
    if let Some(hours) = package.time_limit_hours {
        let timeout_seconds: u32 = (hours as u32) * 3600;
        let bytes = [
            (timeout_seconds / 16777216) as u8,
            ((timeout_seconds / 65536) % 256) as u8,
            ((timeout_seconds / 256) % 256) as u8,
            (timeout_seconds % 256) as u8,
        ];
        assert(bytes@ =~= be32(timeout_seconds));
        response.add_attribute(SESSION_TIMEOUT, bytes.as_slice());
    }
    let mut rate_limit = String::new();
    push_signed_decimal(&mut rate_limit, package.upload_speed_mbps as i64);
    rate_limit.append("M/");
    push_signed_decimal(&mut rate_limit, package.download_speed_mbps as i64);
    rate_limit.append("M");
    assert(rate_limit@ =~= package_rate_text(*package));
    response.add_attribute(FILTER_ID, rate_limit.as_str().as_bytes());
    response.add_attribute(REPLY_MESSAGE, "Access granted".as_bytes());
    response
}

/// Builds the Access-Reject with `reason` as its reply message.
pub fn build_access_reject(req: RadiusPacket, reason: &str, config: &Config) -> (res: RadiusPacket)
    ensures
        res@ == access_reject_view(req@, reason@),
{
    let mut response = reply_to(3, &req);
    response.add_attribute(REPLY_MESSAGE, reason.as_bytes());
    response
}

/// Builds the Accounting-Response to an Accounting-Request.
pub fn build_accounting_response(req: &RadiusPacket) -> (res: RadiusPacket)
    ensures
        res@ == reply_base(5, req@),
{
    reply_to(5, req)
}

/// Reads the User-Name and the Calling-Station-Id of an Access-Request;
/// the station id is normalized (upper case, `:` separators).
pub fn access_request_identity(req: &RadiusPacket) -> (res: Result<(String, String), AppError>)
    ensures
        match attribute_text(req@.attributes, USER_NAME) {
            None => res matches Err(AppError::ValidationError(m)) && m@ == "No User-Name"@,
            Some(user) => match attribute_text(req@.attributes, CALLING_STATION_ID) {
                None => res matches Err(AppError::ValidationError(m)) && m@
                    == "No Calling-Station-Id"@,
                Some(mac) => res matches Ok((u, m)) && u@ == user && m@ == normalized_station_id(
                    mac,
                ),
            },
        },
{
    let username = match req.get_attribute_string(USER_NAME) {
        Some(u) => u,
        None => {
            return Err(AppError::ValidationError(String::from_str("No User-Name")));
        },
    };
    let mac_address = match req.get_attribute_string(CALLING_STATION_ID) {
        Some(m) => m,
        None => {
            return Err(AppError::ValidationError(String::from_str("No Calling-Station-Id")));
        },
    };
    let mac = match parse_mac_address(mac_address.as_str()) {
        Some(m) => m,
        None => {
            return Err(AppError::MacAddressInvalid);
        },
    };
    Ok((username, mac))
}

/// Why an Access-Request is rejected.
#[derive(Clone, Copy, Debug, PartialEq, Eq, Structural)]
pub enum RejectReason {
    DeviceNotFound,
    UserNotFound,
    NoActiveQuota,
    PackageNotFound,
}

impl RejectReason {
    /// The reply message of the rejection.
    pub open spec fn spec_text(self) -> Seq<char> {
        match self {
            RejectReason::DeviceNotFound => "Device not found"@,
            RejectReason::UserNotFound => "User not found"@,
            RejectReason::NoActiveQuota => "No active quota"@,
            RejectReason::PackageNotFound => "Package not found"@,
        }
    }

    /// The reply message of the rejection.
    pub fn text(&self) -> (res: &'static str)
        ensures
            res@ == self.spec_text(),
    {
        match self {
            RejectReason::DeviceNotFound => "Device not found",
            RejectReason::UserNotFound => "User not found",
            RejectReason::NoActiveQuota => "No active quota",
            RejectReason::PackageNotFound => "Package not found",
        }
    }
}

/// What a lookup of an Access-Request's chain found: the device by MAC
/// address (its owner), the owner (its id), the owner's active quota (its
/// package), and the package. A failed lookup counts as not found.
#[derive(Clone, Debug)]
pub enum AccessEvent {
    Device(Option<u128>),
    User(Option<u128>),
    Quota(Option<u128>),
    PackageFound(Option<Package>),
}

/// The next thing to do for an Access-Request.
#[derive(Clone, Debug)]
pub enum AccessStep {
    /// Look up the user with this id.
    LookUpUser(u128),
    /// Look up the active quota of the user with this id.
    LookUpQuota(u128),
    /// Look up the package with this id.
    LookUpPackage(u128),
    /// Accept with this package.
    Accept(Package),
    /// Reject for this reason.
    Reject(RejectReason),
}

/// Advances an Access-Request after a lookup: device, then user, then active
/// quota, then package; the first one missing rejects the request.
pub fn next_access_step(event: AccessEvent) -> (res: AccessStep)
    ensures
        match event {
            AccessEvent::Device(None) => res == AccessStep::Reject(RejectReason::DeviceNotFound),
            AccessEvent::Device(Some(owner)) => res == AccessStep::LookUpUser(owner),
            AccessEvent::User(None) => res == AccessStep::Reject(RejectReason::UserNotFound),
            AccessEvent::User(Some(user)) => res == AccessStep::LookUpQuota(user),
            AccessEvent::Quota(None) => res == AccessStep::Reject(RejectReason::NoActiveQuota),
            AccessEvent::Quota(Some(package)) => res == AccessStep::LookUpPackage(package),
            AccessEvent::PackageFound(None) => res == AccessStep::Reject(
                RejectReason::PackageNotFound,
            ),
            AccessEvent::PackageFound(Some(p)) => res == AccessStep::Accept(p),
        },
{
    match event {
        AccessEvent::Device(None) => AccessStep::Reject(RejectReason::DeviceNotFound),
        AccessEvent::Device(Some(owner)) => AccessStep::LookUpUser(owner),
        AccessEvent::User(None) => AccessStep::Reject(RejectReason::UserNotFound),
        AccessEvent::User(Some(user)) => AccessStep::LookUpQuota(user),
        AccessEvent::Quota(None) => AccessStep::Reject(RejectReason::NoActiveQuota),
        AccessEvent::Quota(Some(package)) => AccessStep::LookUpPackage(package),
        AccessEvent::PackageFound(None) => AccessStep::Reject(RejectReason::PackageNotFound),
        AccessEvent::PackageFound(Some(p)) => AccessStep::Accept(p),
    }
}

/// The reply to an Access-Request once its lookups are done: accept with
/// the package, or reject with the reason; `None` while a lookup is pending.
pub fn access_reply(req: RadiusPacket, username: String, step: AccessStep, config: &Config) -> (res:
    Option<RadiusPacket>)
    requires
        step matches AccessStep::Accept(p) ==> timeout_fits(p),
    ensures
        match step {
            AccessStep::Accept(p) => res matches Some(r) && r@ == access_accept_view(req@, p),
            AccessStep::Reject(reason) => res matches Some(r) && r@ == access_reject_view(
                req@,
                reason.spec_text(),
            ),
            _ => res is None,
        },
{
    match step {
        AccessStep::Accept(p) => Some(build_access_accept(req, username, &p, config)),
        AccessStep::Reject(reason) => Some(build_access_reject(req, reason.text(), config)),
        _ => None,
    }
}

proof fn lemma_reply_base_well_formed(code: u8, req: PacketView)
    requires
        req.authenticator.len() == 16,
    ensures
        reply_base(code, req).well_formed(),
{
    assert(attributes_wire(Seq::<AttributeView>::empty()) =~= Seq::<u8>::empty());
}

proof fn lemma_signed_decimal_ascii(n: int)
    requires
        -2147483648 <= n < 2147483648,
    ensures
        signed_decimal(n).len() <= 11,
        is_ascii_chars(signed_decimal(n)),
{
    let m: nat = if n < 0 { (-n) as nat } else { n as nat };
    lemma_decimal_short(m);
    assert forall|i: int| 0 <= i < signed_decimal(n).len() implies '\0' <= #[trigger] signed_decimal(
        n,
    )[i] <= '\u{7f}' by {
        if n < 0 {
            if i > 0 {
                assert(signed_decimal(n)[i] == decimal(m)[i - 1]);
            }
        } else {
            assert(signed_decimal(n)[i] == decimal(m)[i]);
        }
    }
}

/// An Access-Reject whose reason takes at most 253 bytes is a well-formed
/// packet.
pub proof fn theorem_access_reject_well_formed(req: PacketView, reason: Seq<char>)
    requires
        req.authenticator.len() == 16,
        encode_utf8(reason).len() <= 253,
    ensures
        access_reject_view(req, reason).well_formed(),
{
    lemma_reply_base_well_formed(3, req);
    theorem_add_attribute_well_formed(reply_base(3, req), REPLY_MESSAGE, encode_utf8(reason));
}

/// The Access-Accept for any package whose timeout fits is a well-formed
/// packet.
pub proof fn theorem_access_accept_well_formed(req: PacketView, package: Package)
    requires
        req.authenticator.len() == 16,
        timeout_fits(package),
    ensures
        access_accept_view(req, package).well_formed(),
{
    let base = reply_base(2, req);
    lemma_reply_base_well_formed(2, req);
    let timed = match package.time_limit_hours {
        Some(h) => base.with_attribute(SESSION_TIMEOUT, be32((h * 3600) as u32)),
        None => base,
    };
    if package.time_limit_hours is Some {
        theorem_add_attribute_well_formed(
            base,
            SESSION_TIMEOUT,
            be32((package.time_limit_hours->0 * 3600) as u32),
        );
    }
    assert(timed.well_formed());
    assert(timed.length <= 26);
    let up = signed_decimal(package.upload_speed_mbps as int);
    let down = signed_decimal(package.download_speed_mbps as int);
    lemma_signed_decimal_ascii(package.upload_speed_mbps as int);
    lemma_signed_decimal_ascii(package.download_speed_mbps as int);
    let rate = package_rate_text(package);
    reveal_strlit("M/");
    reveal_strlit("M");
    assert(is_ascii_chars("M/"@));
    assert(is_ascii_chars("M"@));
    vstd::utf8::is_ascii_chars_concat(up + "M/"@, up, "M/"@);
    vstd::utf8::is_ascii_chars_concat(up + "M/"@ + down, up + "M/"@, down);
    vstd::utf8::is_ascii_chars_concat(rate, up + "M/"@ + down, "M"@);
    is_ascii_chars_encode_utf8(rate);
    assert(encode_utf8(rate).len() <= 25);
    theorem_add_attribute_well_formed(timed, FILTER_ID, encode_utf8(rate));
    let rated = timed.with_attribute(FILTER_ID, encode_utf8(rate));
    reveal_strlit("Access granted");
    is_ascii_chars_encode_utf8("Access granted"@);
    theorem_add_attribute_well_formed(rated, REPLY_MESSAGE, encode_utf8("Access granted"@));
}

/// Every reply echoes the request's identifier and authenticator; accepts
/// carry code 2, rejects code 3 and accounting responses code 5.
pub proof fn theorem_replies_echo_request(req: PacketView, package: Package, reason: Seq<char>)
    ensures
        access_accept_view(req, package).code == 2,
        access_accept_view(req, package).identifier == req.identifier,
        access_accept_view(req, package).authenticator == req.authenticator,
        access_reject_view(req, reason).code == 3,
        access_reject_view(req, reason).identifier == req.identifier,
        access_reject_view(req, reason).authenticator == req.authenticator,
        reply_base(5, req).code == 5,
        reply_base(5, req).identifier == req.identifier,
        reply_base(5, req).authenticator == req.authenticator,
{
}

/// The reply message of an Access-Reject reads back as the reason given.
pub proof fn theorem_reject_reason_reads_back(req: PacketView, reason: Seq<char>)
    ensures
        attribute_text(access_reject_view(req, reason).attributes, REPLY_MESSAGE) == Some(reason),
{
    let base = reply_base(3, req);
    assert(find_attribute(base.attributes, REPLY_MESSAGE) is None);
    theorem_added_attribute_found(base, REPLY_MESSAGE, reason);
}

/// The Access-Accept for a package with a time limit of `h` hours carries
/// a Session-Timeout attribute whose four bytes, read as a big-endian
/// number, are `h * 3600` seconds; a package without a time limit gets no
/// Session-Timeout.
pub proof fn theorem_session_timeout_seconds(req: PacketView, package: Package)
    requires
        timeout_fits(package),
    ensures
        package.time_limit_hours is None ==> find_attribute(
            access_accept_view(req, package).attributes,
            SESSION_TIMEOUT,
        ) is None,
        package.time_limit_hours matches Some(h) ==> (find_attribute(
            access_accept_view(req, package).attributes,
            SESSION_TIMEOUT,
        ) matches Some(a) && a.value.len() == 4 && a.value[0] as int * 16777216 + a.value[1] as int
            * 65536 + a.value[2] as int * 256 + a.value[3] as int == h * 3600),
{
    let attrs = access_accept_view(req, package).attributes;
    match package.time_limit_hours {
        Some(h) => {
            let n = (h * 3600) as u32;
            assert(attrs[0].attribute_type == SESSION_TIMEOUT);
            assert(attrs[0].value == be32(n));
            assert(n as int == h * 3600);
            assert((n / 16777216) as u8 as int * 16777216 + ((n / 65536) % 256) as u8 as int * 65536
                + ((n / 256) % 256) as u8 as int * 256 + (n % 256) as u8 as int == n as int)
                by (bit_vector);
        },
        None => {
            assert(attrs.len() == 2);
            assert(attrs[0].attribute_type != SESSION_TIMEOUT);
            assert(attrs.drop_first()[0].attribute_type != SESSION_TIMEOUT);
            assert(attrs.drop_first().drop_first().len() == 0);
            assert(find_attribute(attrs.drop_first().drop_first(), SESSION_TIMEOUT) is None);
            assert(find_attribute(attrs.drop_first(), SESSION_TIMEOUT) is None);
            assert(find_attribute(attrs, SESSION_TIMEOUT) is None);
        },
    }
}

} // verus!
