//! What a strategy asks of the HTTP layer, and the checks every response
//! must pass.
//!
//! A strategy never opens a connection itself: it hands the caller an
//! [`HttpRequest`] describing one exchange, and judges what came back.

use vstd::prelude::*;
use vstd::string::StringSliceAdditionalSpecFns;

use crate::errors::CheckError;
use crate::errors::FetchError;

verus! {

/// Bodies above this many bytes are refused where a cap applies.
pub const BODY_CAP: u64 = 10 * 1024 * 1024;

#[derive(Clone, Copy, Debug, PartialEq, Eq, Structural)]
pub enum HttpMethod {
    Get,
    Post,
}

/// One HTTP exchange a strategy asks for.
pub struct HttpRequest {
    pub method: HttpMethod,
    pub url: String,
    /// Header name/value pairs to send.
    pub headers: Vec<(String, String)>,
    /// The request body, for a POST.
    pub body: Option<String>,
    /// Whether a non-2xx status fails the check.
    pub check_status: bool,
    /// A cap on the response body's declared length, if one applies.
    pub max_body: Option<u64>,
}

/// Judge a response status: anything but 2xx is a failure.
pub fn status_check(status: u16) -> (r: Result<(), CheckError>)
    ensures
        r is Ok <==> 200 <= status < 300,
        r matches Err(e) ==> e == CheckError::Fetch(FetchError::HttpStatus(status)),
{
    if 200 <= status && status < 300 {
        Ok(())
    } else {
        Err(CheckError::Fetch(FetchError::HttpStatus(status)))
    }
}

/// Judge a response's declared body length against the cap: a declared
/// length above [`BODY_CAP`] bytes is refused, an undeclared length is
/// let through.
pub fn body_size_check(declared: Option<u64>) -> (r: Result<(), CheckError>)
    ensures
        r is Ok <==> (declared is None || (declared matches Some(n) && n <= BODY_CAP)),
        r matches Err(e) ==> e == CheckError::Fetch(FetchError::BodyTooLarge),
{
    match declared {
        Some(n) => {
            if n > BODY_CAP {
                Err(CheckError::Fetch(FetchError::BodyTooLarge))
            } else {
                Ok(())
            }
        },
        None => Ok(()),
    }
}

/// An ASCII letter or digit.
pub open spec fn is_ascii_alnum_byte(b: u8) -> bool {
    (0x30 <= b && b <= 0x39) || (0x41 <= b && b <= 0x5a) || (0x61 <= b && b <= 0x7a)
}

/// The upper-case hexadecimal digit for a value below sixteen.
pub open spec fn hex_upper_char(d: u8) -> char {
    if d == 0 {
        '0'
    } else if d == 1 {
        '1'
    } else if d == 2 {
        '2'
    } else if d == 3 {
        '3'
    } else if d == 4 {
        '4'
    } else if d == 5 {
        '5'
    } else if d == 6 {
        '6'
    } else if d == 7 {
        '7'
    } else if d == 8 {
        '8'
    } else if d == 9 {
        '9'
    } else if d == 10 {
        'A'
    } else if d == 11 {
        'B'
    } else if d == 12 {
        'C'
    } else if d == 13 {
        'D'
    } else if d == 14 {
        'E'
    } else {
        'F'
    }
}

/// How one byte is percent-encoded: a letter or digit stands as itself,
/// anything else becomes `%` and two upper-case hexadecimal digits.
pub open spec fn percent_encoded_byte(b: u8) -> Seq<char> {
    if is_ascii_alnum_byte(b) {
        seq![b as char]
    } else {
        seq!['%', hex_upper_char(b / 16), hex_upper_char(b % 16)]
    }
}

/// The percent-encoding of a byte string, byte by byte.
pub open spec fn percent_encoded(bytes: Seq<u8>) -> Seq<char>
    decreases bytes.len(),
{
    if bytes.len() == 0 {
        Seq::empty()
    } else {
        percent_encoded_byte(bytes[0]) + percent_encoded(bytes.drop_first())
    }
}

/// Relies on `percent_encoding::percent_encode` with the
/// `NON_ALPHANUMERIC` set: every byte that is not an ASCII letter or
/// digit becomes `%XX` with upper-case hexadecimal digits.
#[verifier::external_body]
pub fn percent_encode_str(s: &str) -> (r: String)
    ensures
        r@ == percent_encoded(s.spec_bytes()),
{
    percent_encoding::percent_encode(s.as_bytes(), percent_encoding::NON_ALPHANUMERIC).to_string()
}

} // verus!
