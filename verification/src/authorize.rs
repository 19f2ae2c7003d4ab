//! Trigger authorization decisions.
//!
//! A trigger is accepted through one of two interchangeable schemes: a
//! signature header carrying, after a five-character scheme prefix, the
//! hex-encoded HMAC-SHA1 tag of the request body under a configured secret;
//! or a plain header that must equal a configured shared secret. Both
//! decisions are pure functions of the request and the configuration; the
//! surrounding HTTP layer only asks them yes or no.

use vstd::prelude::*;
use vstd::string::StringSliceAdditionalSpecFns;
use vstd::string::StrSliceExecFns;
use vstd::utf8::encode_utf8;

use hmac::Mac;

verus! {

/// A hexadecimal digit byte: `0-9`, `a-f` or `A-F`.
pub open spec fn is_hex_digit(b: u8) -> bool {
    (48 <= b <= 57) || (97 <= b <= 102) || (65 <= b <= 70)
}

/// The value of a hexadecimal digit byte.
pub open spec fn hex_digit_value(b: u8) -> u8
    recommends
        is_hex_digit(b),
{
    if 48 <= b <= 57 {
        (b - 48) as u8
    } else if 97 <= b <= 102 {
        (b - 87) as u8
    } else {
        (b - 55) as u8
    }
}

/// A well-formed hex string's bytes: digits only, in pairs.
pub open spec fn valid_hex(digits: Seq<u8>) -> bool {
    &&& digits.len() % 2 == 0
    &&& forall|i: int| 0 <= i < digits.len() ==> is_hex_digit(#[trigger] digits[i])
}

/// The bytes a hex string encodes: one byte per digit pair, high digit
/// first.
pub open spec fn hex_bytes(digits: Seq<u8>) -> Seq<u8>
    recommends
        valid_hex(digits),
{
    Seq::new(
        digits.len() / 2,
        |i: int| (hex_digit_value(digits[2 * i]) * 16 + hex_digit_value(digits[2 * i + 1])) as u8,
    )
}

/// Relies on `hex::decode`: it rejects input of odd length or with a byte
/// that is no hexadecimal digit, and otherwise decodes each digit pair to
/// one byte, high digit first, upper and lower case alike.
#[verifier::external_body]
fn hex_decode(s: &str) -> (r: Option<Vec<u8>>)
    ensures
        r is Some <==> valid_hex(s.spec_bytes()),
        r matches Some(v) ==> v@ == hex_bytes(s.spec_bytes()),
{
    hex::decode(s).ok()
}

/// The HMAC-SHA1 tag of a message under a key: a fixed function of the two.
pub uninterp spec fn hmac_sha1(key: Seq<u8>, msg: Seq<u8>) -> Seq<u8>;

/// Relies on hmac's `Hmac` over sha1's `Sha1`: `new_from_slice` accepts a
/// key of any length (it never returns the length error), `update` absorbs
/// the message, and `verify_slice` accepts exactly the tag of the absorbed
/// message under the key.
#[verifier::external_body]
fn hmac_sha1_accepts(key: &[u8], msg: &[u8], tag: &[u8]) -> (r: bool)
    ensures
        r == (tag@ == hmac_sha1(key@, msg@)),
{
    let mut mac = <hmac::Hmac<sha1::Sha1> as Mac>::new_from_slice(key)
        .expect("HMAC accepts a key of any length");
    mac.update(msg);
    mac.verify_slice(tag).is_ok()
}

/// The shared-secret scheme: the header value authorizes the trigger
/// exactly when it equals the configured secret.
pub fn secret_authorizes(expected: &String, provided: &String) -> (r: bool)
    ensures
        r == (expected@ == provided@),
{
    expected.eq(provided)
}

/// The signature scheme's acceptance condition: past its five-character
/// scheme prefix, the header carries in hexadecimal exactly the HMAC-SHA1
/// tag of the body under the secret.
pub open spec fn webhook_ok(secret: Seq<u8>, body: Seq<u8>, header: Seq<char>) -> bool {
    &&& header.len() >= 5
    &&& valid_hex(encode_utf8(header.skip(5)))
    &&& hex_bytes(encode_utf8(header.skip(5))) == hmac_sha1(secret, body)
}

/// The signature scheme: decides whether the signature header authorizes
/// the request body under the configured secret. A header that is too
/// short, not hexadecimal past its prefix, or carries any other tag is
/// rejected.
pub fn webhook_authorizes(secret: &[u8], body: &[u8], header: &str) -> (r: bool)
    ensures
        r == webhook_ok(secret@, body@, header@),
{
    let n = header.unicode_len();
    if n < 5 {
        return false;
    }
    let signature = header.substring_char(5, n);
    proof {
        assert(signature@ =~= header@.skip(5));
    }
    match hex_decode(signature) {
        Option::Some(tag) => hmac_sha1_accepts(secret, body, tag.as_slice()),
        Option::None => false,
    }
}

} // verus!
