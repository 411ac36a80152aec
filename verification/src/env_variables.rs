//! The bot's settings, from the values of environment variables (`None`
//! where a variable is not set).

use vstd::prelude::*;
use crate::env_variable_error::EnvVariableError;
use crate::text::str_eq;

verus! {

/// A value that must be set, or the error that names the variable.
fn required(name: &str, value: Option<String>) -> (r: Result<String, EnvVariableError>)
    ensures
        match value {
            Some(v) => r matches Ok(s) && s@ == v@,
            None => r matches Err(EnvVariableError::RequiredVariableMissing(n)) && n@ == name@,
        },
{
    match value {
        Some(v) => Ok(v),
        None => Err(EnvVariableError::RequiredVariableMissing(name.to_owned())),
    }
}

/// The bot's token, which must be set in `TOKEN`.
pub fn token(value: Option<String>) -> (r: Result<String, EnvVariableError>)
    ensures
        match value {
            Some(v) => r matches Ok(s) && s@ == v@,
            None => r matches Err(EnvVariableError::RequiredVariableMissing(n)) && n@ == "TOKEN"@,
        },
{
    required("TOKEN", value)
}

/// The application id, which must be set in `APPLICATION_ID`.
pub fn application_id(value: Option<String>) -> (r: Result<String, EnvVariableError>)
    ensures
        match value {
            Some(v) => r matches Ok(s) && s@ == v@,
            None => r matches Err(EnvVariableError::RequiredVariableMissing(n)) && n@
                == "APPLICATION_ID"@,
        },
{
    required("APPLICATION_ID", value)
}

/// A value, or a default where it is not set.
pub open spec fn value_or(value: Option<String>, default: Seq<char>) -> Seq<char> {
    match value {
        Some(v) => v@,
        None => default,
    }
}

/// A value, or a default where it is not set.
fn or_default(value: Option<String>, default: &str) -> (s: String)
    ensures
        s@ == value_or(value, default@),
{
    match value {
        Some(v) => v,
        None => default.to_owned(),
    }
}

/// The command prefix, from `PREFIX`; `!` by default.
pub fn prefix(value: Option<String>) -> (p: String)
    ensures
        p@ == value_or(value, "!"@),
{
    or_default(value, "!")
}

/// The greeting, from `GREETING`; `Oh Hi!` by default.
pub fn greeting(value: Option<String>) -> (g: String)
    ensures
        g@ == value_or(value, "Oh Hi!"@),
{
    or_default(value, "Oh Hi!")
}

/// What lower-casing `s` gives (Unicode `Lowercase` mapping).
pub uninterp spec fn lowercase_of(s: Seq<char>) -> Seq<char>;

/// `s` with the ASCII upper-case letters lowered.
pub open spec fn ascii_lowercase(s: Seq<char>) -> Seq<char> {
    s.map_values(|c: char| if 'A' <= c <= 'Z' { ((c as u32) + 32) as char } else { c })
}

/// Calls `str::to_lowercase`. The result is named; for ASCII text it is the
/// text with the letters `A` to `Z` lowered.
#[verifier::external_body]
fn to_lowercase(s: &str) -> (lower: String)
    ensures
        lower@ == lowercase_of(s@),
        all_ascii(s@) ==> lower@ == ascii_lowercase(s@),
{
    s.to_lowercase()
}

/// Whether a switch is on: its value (`false` where it is not set),
/// lower-cased, is `true`.
pub open spec fn switch_on(value: Option<String>) -> bool {
    lowercase_of(value_or(value, "false"@)) == "true"@
}

/// Whether all the chars of `s` are ASCII.
pub open spec fn all_ascii(s: Seq<char>) -> bool {
    forall|i: int| 0 <= i < s.len() ==> (#[trigger] s[i] as u32) < 128
}

/// Whether a switch is on.
fn switch(value: Option<String>) -> (on: bool)
    ensures
        on == switch_on(value),
        value is None ==> !on,
        all_ascii(value_or(value, "false"@)) ==> (on <==> ascii_lowercase(value_or(value, "false"@))
            == "true"@),
{
    let v = or_default(value, "false");
    proof {
        reveal_strlit("false");
        reveal_strlit("true");
    }
    let lower = to_lowercase(v.as_str());
    proof {
        if value is None {
            assert(lower@ =~= "false"@);
        }
    }
    str_eq(lower.as_str(), "true")
}

/// Whether the slash commands are registered in one guild only, from
/// `USE_GUILD_COMMANDS`.
pub fn use_guild_commands(value: Option<String>) -> (on: bool)
    ensures
        on == switch_on(value),
        value is None ==> !on,
        all_ascii(value_or(value, "false"@)) ==> (on <==> ascii_lowercase(value_or(value, "false"@))
            == "true"@),
{
    switch(value)
}

/// Whether Facebook links are replaced, from `FACEBOOK_LINK_REPLACE_ENABLED`.
pub fn facebook_link_replace_enabled(value: Option<String>) -> (on: bool)
    ensures
        on == switch_on(value),
        value is None ==> !on,
        all_ascii(value_or(value, "false"@)) ==> (on <==> ascii_lowercase(value_or(value, "false"@))
            == "true"@),
{
    switch(value)
}

/// Whether Facebook links get the alternate preview, from
/// `FACEBOOK_ALTERNATE_PREVIEW`.
pub fn facebook_alternate_preview(value: Option<String>) -> (on: bool)
    ensures
        on == switch_on(value),
        value is None ==> !on,
        all_ascii(value_or(value, "false"@)) ==> (on <==> ascii_lowercase(value_or(value, "false"@))
            == "true"@),
{
    switch(value)
}

/// Whether `c` is an ASCII decimal digit.
pub open spec fn is_ascii_digit(c: char) -> bool {
    '0' <= c <= '9'
}

/// The number that a string of decimal digits stands for.
pub open spec fn digits_value(s: Seq<char>) -> nat
    decreases s.len(),
{
    if s.len() == 0 {
        0
    } else {
        digits_value(s.drop_last()) * 10 + ((s.last() as u32) - 48) as nat
    }
}

/// The digits of an unsigned number in text: the text without a leading `+`.
pub open spec fn unsigned_digits(s: Seq<char>) -> Seq<char> {
    if s.len() > 0 && s[0] == '+' {
        s.drop_first()
    } else {
        s
    }
}

/// Whether the text is a `u64` in decimal: an optional `+`, then at least
/// one digit and nothing else, for a number that fits.
pub open spec fn is_u64_text(s: Seq<char>) -> bool {
    let d = unsigned_digits(s);
    &&& d.len() > 0
    &&& forall|i: int| 0 <= i < d.len() ==> is_ascii_digit(#[trigger] d[i])
    &&& digits_value(d) <= u64::MAX
}

/// The text of the error that parsing `s` as a `u64` gives (its `Display`
/// text, written with the alternate flag).
pub uninterp spec fn u64_parse_error_text(s: Seq<char>) -> Seq<char>;

/// Calls `str::parse::<u64>`, which accepts an optional `+` followed by
/// decimal digits only, for a number that fits in a `u64`; its error is
/// turned into its `Display` text, which is named.
#[verifier::external_body]
fn parse_u64(s: &str) -> (parsed: Result<u64, String>)
    ensures
        parsed is Ok <==> is_u64_text(s@),
        parsed matches Ok(n) ==> n == digits_value(unsigned_digits(s@)),
        parsed matches Err(m) ==> m@ == u64_parse_error_text(s@),
{
    s.parse::<u64>().map_err(|e| format!("{:#}", e))
}

/// The guild in which commands are registered, from `GUILD_ID`: it must be
/// set and hold a `u64`.
pub fn gulid_id(value: Option<String>) -> (r: Result<u64, EnvVariableError>)
    ensures
        match value {
            None => r matches Err(EnvVariableError::RequiredVariableMissing(n)) && n@ == "GUILD_ID"@,
            Some(v) => if is_u64_text(v@) {
                r == Ok::<u64, EnvVariableError>(digits_value(unsigned_digits(v@)) as u64)
            } else {
                r matches Err(EnvVariableError::InvalidVariableFormat(expected, got)) && expected@
                    == "number"@ && got@ == u64_parse_error_text(v@)
            },
        },
{
    let v = required("GUILD_ID", value)?;
    match parse_u64(v.as_str()) {
        Ok(n) => Ok(n),
        Err(m) => Err(EnvVariableError::InvalidVariableFormat("number".to_owned(), m)),
    }
}

} // verus!
