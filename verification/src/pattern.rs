//! Regular-expression matching, through the `regex` crate.
use crate::utils::{mac_shape, phone_shape, phone_shape_with, MAC_PATTERN, PHONE_PATTERN};
use vstd::prelude::*;

verus! {

#[verifier::external_type_specification]
#[verifier::external_body]
pub struct ExRegex(regex::Regex);

#[verifier::external_type_specification]
#[verifier::external_body]
pub struct ExRegexError(regex::Error);

/// Whether `regex::Regex::new` accepts the pattern (valid syntax, within the
/// default size limit).
pub uninterp spec fn regex_compiles(pattern: Seq<char>) -> bool;

/// Whether the regex compiled from `pattern` matches somewhere in the text.
pub uninterp spec fn regex_finds(pattern: Seq<char>, haystack: Seq<char>) -> bool;

/// A character of Unicode general category Nd (decimal digit) beyond ASCII.
pub uninterp spec fn is_unicode_decimal_digit(c: char) -> bool;

/// What `\d` matches in the regex crate's default Unicode mode: the
/// decimal digits of category Nd, which among ASCII characters are `0`-`9`.
pub open spec fn regex_digit(c: char) -> bool {
    if (c as u32) < 128 {
        '0' <= c <= '9'
    } else {
        is_unicode_decimal_digit(c)
    }
}

/// A compiled regex together with the pattern it was compiled from.
pub struct CompiledPattern<'a> {
    source: &'a str,
    regex: regex::Regex,
}

impl<'a> CompiledPattern<'a> {
    /// The pattern the regex was compiled from.
    pub closed spec fn source(&self) -> Seq<char> {
        self.source@
    }
}

/// `regex::Regex::new`: compiles the pattern; fails exactly when the crate
/// rejects it. The pattern is kept beside the compiled regex.
#[verifier::external_body]
fn compile_pattern<'a>(source: &'a str) -> (res: Result<CompiledPattern<'a>, regex::Error>)
    ensures
        res is Ok <==> regex_compiles(source@),
        res matches Ok(p) ==> p.source() == source@,
        source@ == PHONE_PATTERN@ || source@ == MAC_PATTERN@ ==> res is Ok,
{
    match regex::Regex::new(source) {
        Ok(regex) => Ok(CompiledPattern { source, regex }),
        Err(e) => Err(e),
    }
}

/// `regex::Regex::is_match`: whether the regex matches somewhere in the text.
/// `^` and `$` anchor at the start and end of the text (no multi-line
/// mode), so the two patterns of the validators match exactly the texts of
/// `phone_shape` (where `\d` is `regex_digit`) and of `mac_shape`.
#[verifier::external_body]
fn pattern_is_match(p: &CompiledPattern, haystack: &str) -> (res: bool)
    ensures
        res == regex_finds(p.source(), haystack@),
        p.source() == PHONE_PATTERN@ ==> res == phone_shape_with(
            haystack@,
            |c: char|
                if (c as u32) < 128 {
                    '0' <= c <= '9'
                } else {
                    is_unicode_decimal_digit(c)
                },
        ),
        p.source() == MAC_PATTERN@ ==> res == mac_shape(haystack@),
{
    p.regex.is_match(haystack)
}

/// Compiles `pattern` and tests it against `text`: `None` when the pattern
/// does not compile, otherwise whether it matches.
pub fn find_pattern(pattern: &str, text: &str) -> (res: Option<bool>)
    ensures
        regex_compiles(pattern@) ==> res == Some(regex_finds(pattern@, text@)),
        !regex_compiles(pattern@) ==> res is None,
        pattern@ == PHONE_PATTERN@ ==> res == Some(phone_shape(text@)),
        pattern@ == MAC_PATTERN@ ==> res == Some(mac_shape(text@)),
{
    match compile_pattern(pattern) {
        Ok(p) => {
            let found = pattern_is_match(&p, text);
            proof {
                let d1 = |c: char| regex_digit(c);
                let d2 = |c: char|
                    if (c as u32) < 128 {
                        '0' <= c <= '9'
                    } else {
                        is_unicode_decimal_digit(c)
                    };
                assert(d1 =~= d2);
            }
            Some(found)
        },
        Err(_) => None,
    }
}

} // verus!
