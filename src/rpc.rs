use vstd::prelude::*;

verus! {

pub const NO_HELLO_ERROR_MSG: &'static str = "NO_HELLO";

pub const NEED_SNAPSHOT_ERROR_MSG: &'static str = "NEED_SNAPSHOT";

pub const SESSION_TOKEN_KEY: &'static str = "x-session-token";

pub const NAMESPACE_METADATA_KEY: &'static str = "x-namespace-bin";

/// Why a session token was rejected.
#[derive(Clone, Copy, Debug, PartialEq, Eq, Structural)]
pub enum SessionTokenError {
    /// The token is not UTF-8 text.
    NotUtf8,
    /// The token is text, but not a UUID.
    NotUuid,
}

/// Whether `b` is well-formed UTF-8.
pub uninterp spec fn is_utf8(b: Seq<u8>) -> bool;

pub open spec fn is_hex_digit(c: u8) -> bool {
    (0x30 <= c <= 0x39) || (0x61 <= c <= 0x66) || (0x41 <= c <= 0x46)
}

pub open spec fn ascii_lower(c: u8) -> u8 {
    if 0x41 <= c <= 0x5a {
        (c + 0x20) as u8
    } else {
        c
    }
}

/// 32 hexadecimal digits.
pub open spec fn is_simple_uuid(s: Seq<u8>) -> bool {
    s.len() == 32 && forall|i: int| 0 <= i < 32 ==> is_hex_digit(#[trigger] s[i])
}

/// Hexadecimal digits in groups of 8, 4, 4, 4 and 12, joined by hyphens.
pub open spec fn is_hyphenated_uuid(s: Seq<u8>) -> bool {
    s.len() == 36 && forall|i: int|
        0 <= i < 36 ==> if i == 8 || i == 13 || i == 18 || i == 23 {
            #[trigger] s[i] == 0x2d
        } else {
            is_hex_digit(s[i])
        }
}

/// `urn:uuid:`, in any letter case.
pub open spec fn is_urn_prefix(s: Seq<u8>) -> bool {
    s.len() == 9 && s.map_values(|c: u8| ascii_lower(c)) == seq![
        0x75u8,
        0x72,
        0x6e,
        0x3a,
        0x75,
        0x75,
        0x69,
        0x64,
        0x3a,
    ]
}

/// The text forms of a UUID: simple, hyphenated, hyphenated in braces, or hyphenated
/// after a `urn:uuid:` prefix.
pub open spec fn is_uuid_text(s: Seq<u8>) -> bool {
    ||| is_simple_uuid(s)
    ||| is_hyphenated_uuid(s)
    ||| (s.len() == 38 && s[0] == 0x7b && s[37] == 0x7d && is_hyphenated_uuid(s.subrange(1, 37)))
    ||| (s.len() == 45 && is_urn_prefix(s.subrange(0, 9)) && is_hyphenated_uuid(s.subrange(9, 45)))
}

/// Relies on std::str::from_utf8: it succeeds exactly on well-formed UTF-8.
#[verifier::external_body]
fn utf8_valid(b: &[u8]) -> (r: bool)
    ensures
        r == is_utf8(b@),
{
    std::str::from_utf8(b).is_ok()
}

/// Relies on uuid::Uuid::try_parse_ascii, the parser behind `str::parse::<Uuid>`: it
/// accepts exactly the simple, hyphenated, braced and URN forms.
#[verifier::external_body]
fn uuid_parses(b: &[u8]) -> (r: bool)
    ensures
        r == is_uuid_text(b@),
{
    uuid::Uuid::try_parse_ascii(b).is_ok()
}

/// Checks that a session token is a UUID written as UTF-8 text.
pub fn verify_session_token(token: &[u8]) -> (r: Result<(), SessionTokenError>)
    ensures
        r is Ok <==> is_utf8(token@) && is_uuid_text(token@),
        r == Err::<(), SessionTokenError>(SessionTokenError::NotUtf8) <==> !is_utf8(token@),
        r == Err::<(), SessionTokenError>(SessionTokenError::NotUuid) <==> is_utf8(token@)
            && !is_uuid_text(token@),
{
    if !utf8_valid(token) {
        return Err(SessionTokenError::NotUtf8);
    }
    if !uuid_parses(token) {
        return Err(SessionTokenError::NotUuid);
    }
    Ok(())
}

} // verus!
