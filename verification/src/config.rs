//! Service configuration and how it is read from environment values.
use vstd::prelude::*;
use vstd::string::*;

verus! {

/// Service configuration.
#[derive(Clone, Debug)]
pub struct Config {
    pub database_url: String,
    pub axum_host: String,
    pub axum_port: u16,
    pub radius_host: String,
    pub radius_port: u16,
    pub radius_accounting_port: u16,
    pub radius_secret: String,
    pub admin_username: String,
    pub admin_password_hash: String,
    pub mpesa_consumer_key: String,
    pub mpesa_consumer_secret: String,
    pub mpesa_business_short_code: String,
    pub mpesa_account_number: String,
    pub mpesa_passkey: String,
    pub mpesa_api_url: String,
    pub mpesa_callback_url: String,
    pub jwt_secret: String,
    pub session_timeout_mins: u32,
    pub otp_expiry_secs: u32,
    pub otp_retry_limit: u32,
    pub cloudflare_tunnel_url: String,
}

/// The environment variables the configuration is read from; `None` for a
/// variable that is unset (or not valid Unicode).
#[derive(Clone, Debug)]
pub struct EnvValues {
    pub database_url: Option<String>,
    pub axum_host: Option<String>,
    pub axum_port: Option<String>,
    pub radius_host: Option<String>,
    pub radius_port: Option<String>,
    pub radius_accounting_port: Option<String>,
    pub radius_secret: Option<String>,
    pub admin_username: Option<String>,
    pub admin_password_hash: Option<String>,
    pub mpesa_consumer_key: Option<String>,
    pub mpesa_consumer_secret: Option<String>,
    pub mpesa_business_short_code: Option<String>,
    pub mpesa_account_number: Option<String>,
    pub mpesa_passkey: Option<String>,
    pub mpesa_api_url: Option<String>,
    pub mpesa_callback_url: Option<String>,
    pub jwt_secret: Option<String>,
    pub session_timeout_mins: Option<String>,
    pub otp_expiry_secs: Option<String>,
    pub otp_retry_limit: Option<String>,
    pub cloudflare_tunnel_url: Option<String>,
}

/// A required environment variable is missing; holds its name.
#[derive(Clone, Debug)]
pub struct MissingVar {
    pub name: String,
}

/// The character is an ASCII digit.
pub open spec fn is_digit(c: char) -> bool {
    '0' <= c <= '9'
}

/// Value of a run of ASCII digits.
pub open spec fn digits_value(s: Seq<char>) -> nat
    decreases s.len(),
{
    if s.len() == 0 {
        0
    } else {
        digits_value(s.drop_last()) * 10 + ((s.last() as int - 48) as nat)
    }
}

/// The number an unsigned integer text stands for, as Rust's `str::parse`
/// reads it: an optional `+` followed by one or more ASCII digits.
pub open spec fn unsigned_text_value(s: Seq<char>) -> Option<nat> {
    let body = unsigned_body(s);
    if body.len() > 0 && all_digits(body) {
        Some(digits_value(body))
    } else {
        None
    }
}

/// The text without its leading `+`, if it has one.
pub open spec fn unsigned_body(s: Seq<char>) -> Seq<char> {
    if s.len() > 0 && s[0] == '+' {
        s.drop_first()
    } else {
        s
    }
}

/// Every character is an ASCII digit.
pub open spec fn all_digits(s: Seq<char>) -> bool {
    forall|i: int| 0 <= i < s.len() ==> #[trigger] is_digit(s[i])
}

/// The number `s` stands for when it is at most `max`.
pub open spec fn bounded_value(s: Seq<char>, max: nat) -> Option<nat> {
    match unsigned_text_value(s) {
        Some(v) => if v <= max {
            Some(v)
        } else {
            None
        },
        None => None,
    }
}

proof fn lemma_digits_value_prefix(s: Seq<char>, k: int)
    requires
        0 <= k <= s.len(),
        forall|i: int| 0 <= i < s.len() ==> #[trigger] is_digit(s[i]),
    ensures
        digits_value(s.take(k)) <= digits_value(s),
    decreases s.len(),
{
    if k < s.len() {
        assert(s.drop_last().take(k) =~= s.take(k));
        lemma_digits_value_prefix(s.drop_last(), k);
    } else {
        assert(s.take(k) =~= s);
    }
}

/// Reads an unsigned number of at most `max` from `s`, as `str::parse`
/// does for an unsigned integer type whose largest value is `max`.
pub fn parse_unsigned(s: &str, max: u64) -> (res: Option<u64>)
    ensures
        match bounded_value(s@, max as nat) {
            Some(v) => res == Some(v as u64),
            None => res is None,
        },
{
    let n = s.unicode_len();
    let mut start: usize = 0;
    if n > 0 && s.get_char(0) == '+' {
        start = 1;
    }
    let ghost body = unsigned_body(s@);
    assert(body =~= s@.subrange(start as int, n as int));
    if start == n {
        return None;
    }
    let mut value: u64 = 0;
    let mut i: usize = start;
    while i < n
        invariant
            n == s@.len(),
            start <= i <= n,
            start < n,
            body == s@.subrange(start as int, n as int),
            body == unsigned_body(s@),
            forall|k: int| 0 <= k < i - start ==> #[trigger] is_digit(body[k]),
            value == digits_value(body.take(i - start)),
            value <= max,
        decreases n - i,
    {
        let c = s.get_char(i);
        assert(c == body[i - start]);
        if c < '0' || c > '9' {
            assert(!is_digit(body[i - start]));
            assert(!all_digits(body));
            return None;
        }
        let d = (c as u32 - 48) as u64;
        assert(body.take(i - start + 1).drop_last() =~= body.take(i - start));
        if d > max || value > (max - d) / 10 {
            proof {
                assert(digits_value(body.take(i - start + 1)) == value * 10 + d);
                assert(value * 10 + d > max) by (nonlinear_arith)
                    requires
                        d > max || value > (max - d) / 10,
                        d <= max ==> max - d >= 0,
                ;
                if all_digits(body) {
                    lemma_digits_value_prefix(body, i - start + 1);
                }
            }
            return None;
        }
        assert(value * 10 + d <= max) by (nonlinear_arith)
            requires
                value <= (max - d) / 10,
                d <= 9,
        ;
        value = value * 10 + d;
        i = i + 1;
    }
    assert(body.take(n - start) =~= body);
    Some(value)
}


/// The value of an optional variable, or `default` when it is unset.
pub open spec fn text_or(v: Option<String>, default: Seq<char>) -> Seq<char> {
    match v {
        Some(s) => s@,
        None => default,
    }
}

/// The number an optional variable holds when it is set and reads as a
/// number of at most `max`; `default` otherwise.
pub open spec fn number_or(v: Option<String>, max: nat, default: nat) -> nat {
    match v {
        Some(s) => match bounded_value(s@, max) {
            Some(n) => n,
            None => default,
        },
        None => default,
    }
}

/// The name of the first required variable, in field order, that is unset.
pub open spec fn first_missing(env: EnvValues) -> Option<Seq<char>> {
    if env.database_url is None {
        Some("DATABASE_URL"@)
    } else     if env.radius_secret is None {
        Some("RADIUS_SECRET"@)
    } else     if env.admin_password_hash is None {
        Some("ADMIN_PASSWORD_HASH"@)
    } else     if env.mpesa_consumer_key is None {
        Some("MPESA_CONSUMER_KEY"@)
    } else     if env.mpesa_consumer_secret is None {
        Some("MPESA_CONSUMER_SECRET"@)
    } else     if env.mpesa_business_short_code is None {
        Some("MPESA_BUSINESS_SHORT_CODE"@)
    } else     if env.mpesa_account_number is None {
        Some("MPESA_ACCOUNT_NUMBER"@)
    } else     if env.mpesa_passkey is None {
        Some("MPESA_PASSKEY"@)
    } else     if env.mpesa_api_url is None {
        Some("MPESA_API_URL"@)
    } else     if env.mpesa_callback_url is None {
        Some("MPESA_CALLBACK_URL"@)
    } else     if env.jwt_secret is None {
        Some("JWT_SECRET"@)
    } else {
        None
    }
}

fn required(v: Option<String>, name: &str) -> (res: Result<String, MissingVar>)
    ensures
        match v {
            Some(s) => res matches Ok(t) && t@ == s@,
            None => res matches Err(e) && e.name@ == name@,
        },
{
    match v {
        Some(s) => Ok(s),
        None => Err(MissingVar { name: String::from_str(name) }),
    }
}

fn text_or_default(v: Option<String>, default: &str) -> (res: String)
    ensures
        res@ == text_or(v, default@),
{
    match v {
        Some(s) => s,
        None => String::from_str(default),
    }
}

fn number_or_default(v: Option<String>, max: u64, default: u64) -> (res: u64)
    requires
        default <= max,
    ensures
        res == number_or(v, max as nat, default as nat),
        res <= max,
{
    match v {
        Some(s) => match parse_unsigned(s.as_str(), max) {
            Some(n) => n,
            None => default,
        },
        None => default,
    }
}

impl Config {
    /// Builds the configuration from environment values: required variables
    /// must be set, the others fall back to their defaults, and numeric ones
    /// also fall back when they do not read as a number of their type.
    pub fn from_env_values(env: EnvValues) -> (res: Result<Config, MissingVar>)
        ensures
            res is Ok <==> first_missing(env) is None,
            res matches Err(e) ==> first_missing(env) == Some(e.name@),
            res matches Ok(c) ==> c.database_url@ == env.database_url->0@,
            res matches Ok(c) ==> c.axum_host@ == text_or(env.axum_host, "0.0.0.0"@),
            res matches Ok(c) ==> c.axum_port == number_or(env.axum_port, 65535, 8080),
            res matches Ok(c) ==> c.radius_host@ == text_or(env.radius_host, "0.0.0.0"@),
            res matches Ok(c) ==> c.radius_port == number_or(env.radius_port, 65535, 1812),
            res matches Ok(c) ==> c.radius_accounting_port == number_or(env.radius_accounting_port, 65535, 1813),
            res matches Ok(c) ==> c.radius_secret@ == env.radius_secret->0@,
            res matches Ok(c) ==> c.admin_username@ == text_or(env.admin_username, "admin"@),
            res matches Ok(c) ==> c.admin_password_hash@ == env.admin_password_hash->0@,
            res matches Ok(c) ==> c.mpesa_consumer_key@ == env.mpesa_consumer_key->0@,
            res matches Ok(c) ==> c.mpesa_consumer_secret@ == env.mpesa_consumer_secret->0@,
            res matches Ok(c) ==> c.mpesa_business_short_code@ == env.mpesa_business_short_code->0@,
            res matches Ok(c) ==> c.mpesa_account_number@ == env.mpesa_account_number->0@,
            res matches Ok(c) ==> c.mpesa_passkey@ == env.mpesa_passkey->0@,
            res matches Ok(c) ==> c.mpesa_api_url@ == env.mpesa_api_url->0@,
            res matches Ok(c) ==> c.mpesa_callback_url@ == env.mpesa_callback_url->0@,
            res matches Ok(c) ==> c.jwt_secret@ == env.jwt_secret->0@,
            res matches Ok(c) ==> c.session_timeout_mins == number_or(env.session_timeout_mins, 4294967295, 1440),
            res matches Ok(c) ==> c.otp_expiry_secs == number_or(env.otp_expiry_secs, 4294967295, 300),
            res matches Ok(c) ==> c.otp_retry_limit == number_or(env.otp_retry_limit, 4294967295, 3),
            res matches Ok(c) ==> c.cloudflare_tunnel_url@ == text_or(env.cloudflare_tunnel_url, "https://admin.your-tunnel.trycloudflare.com"@),
    {
        let database_url = required(env.database_url, "DATABASE_URL")?;
        let axum_host = text_or_default(env.axum_host, "0.0.0.0");
        let axum_port = number_or_default(env.axum_port, 65535, 8080) as u16;
        let radius_host = text_or_default(env.radius_host, "0.0.0.0");
        let radius_port = number_or_default(env.radius_port, 65535, 1812) as u16;
        let radius_accounting_port = number_or_default(env.radius_accounting_port, 65535, 1813) as u16;
        let radius_secret = required(env.radius_secret, "RADIUS_SECRET")?;
        let admin_username = text_or_default(env.admin_username, "admin");
        let admin_password_hash = required(env.admin_password_hash, "ADMIN_PASSWORD_HASH")?;
        let mpesa_consumer_key = required(env.mpesa_consumer_key, "MPESA_CONSUMER_KEY")?;
        let mpesa_consumer_secret = required(env.mpesa_consumer_secret, "MPESA_CONSUMER_SECRET")?;
        let mpesa_business_short_code = required(env.mpesa_business_short_code, "MPESA_BUSINESS_SHORT_CODE")?;
        let mpesa_account_number = required(env.mpesa_account_number, "MPESA_ACCOUNT_NUMBER")?;
        let mpesa_passkey = required(env.mpesa_passkey, "MPESA_PASSKEY")?;
        let mpesa_api_url = required(env.mpesa_api_url, "MPESA_API_URL")?;
        let mpesa_callback_url = required(env.mpesa_callback_url, "MPESA_CALLBACK_URL")?;
        let jwt_secret = required(env.jwt_secret, "JWT_SECRET")?;
        let session_timeout_mins = number_or_default(env.session_timeout_mins, 4294967295, 1440) as u32;
        let otp_expiry_secs = number_or_default(env.otp_expiry_secs, 4294967295, 300) as u32;
        let otp_retry_limit = number_or_default(env.otp_retry_limit, 4294967295, 3) as u32;
        let cloudflare_tunnel_url = text_or_default(env.cloudflare_tunnel_url, "https://admin.your-tunnel.trycloudflare.com");
        Ok(Config { database_url, axum_host, axum_port, radius_host, radius_port, radius_accounting_port, radius_secret, admin_username, admin_password_hash, mpesa_consumer_key, mpesa_consumer_secret, mpesa_business_short_code, mpesa_account_number, mpesa_passkey, mpesa_api_url, mpesa_callback_url, jwt_secret, session_timeout_mins, otp_expiry_secs, otp_retry_limit, cloudflare_tunnel_url })
    }
}

} // verus!
