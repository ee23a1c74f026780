//! Attribute numbers and the helpers that build attribute values.
pub mod attribute_types;
pub mod mikrotik_attrs;

use crate::text::{
    decimal, push_decimal, replace_char, replace_char_str, str_to_uppercase, upper_case_of,
};
use vstd::prelude::*;
use vstd::string::*;

verus! {

/// The MikroTik rate-limit text `"<up>M/<down>M"`, each rate in whole
/// megabits (kilobits divided by 1024, rounded down).
pub open spec fn rate_limit_text(upload_kbps: u32, download_kbps: u32) -> Seq<char> {
    decimal((upload_kbps / 1024) as nat) + "M/"@ + decimal((download_kbps / 1024) as nat) + "M"@
}

/// Builds the MikroTik rate-limit text for the given rates in kbit/s.
pub fn build_rate_limit_string(upload_kbps: u32, download_kbps: u32) -> (res: String)
    ensures
        res@ == rate_limit_text(upload_kbps, download_kbps),
{
    let mut out = String::new();
    push_decimal(&mut out, (upload_kbps / 1024) as u64);
    out.append("M/");
    push_decimal(&mut out, (download_kbps / 1024) as u64);
    out.append("M");
    out
}

/// The Calling-Station-Id text in upper case with `-` separators turned
/// into `:`.
pub open spec fn normalized_station_id(mac: Seq<char>) -> Seq<char> {
    replace_char(upper_case_of(mac), '-', ':')
}

/// Normalizes a Calling-Station-Id: upper case, `:` separators. Always
/// succeeds.
pub fn parse_mac_address(mac_str: &str) -> (res: Option<String>)
    ensures
        res matches Some(s) && s@ == normalized_station_id(mac_str@),
{
    let upper = str_to_uppercase(mac_str);
    Some(replace_char_str(upper.as_str(), '-', ':'))
}

/// A normalized station id holds no `-`: every separator is a `:`.
pub proof fn theorem_station_id_has_no_dash(mac: Seq<char>)
    ensures
        forall|i: int|
            0 <= i < normalized_station_id(mac).len() ==> #[trigger] normalized_station_id(mac)[i]
                != '-',
{
}

} // verus!
