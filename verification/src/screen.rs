//! The screenshot sent to the vision model: shrunk when very wide, then sent
//! as base64-encoded JPEG.

use vstd::prelude::*;
use base64::Engine;

verus! {

/// The widest screenshot sent as it is; wider ones are shrunk to fit.
pub const MAX_SHOT_WIDTH: u32 = 1600;

/// Very wide screens are shrunk (to fit 1600 by 1600) before sending, which
/// keeps the upload small on slow connections.
pub fn needs_shrink(width: u32) -> (r: bool)
    ensures
        r == (width > 1600),
{
    width > MAX_SHOT_WIDTH
}

/// The base64 alphabet of RFC 4648: 'A'..'Z', 'a'..'z', '0'..'9', '+', '/'.
pub open spec fn base64_digit(v: int) -> char {
    if v < 26 {
        (65 + v) as char
    } else if v < 52 {
        (97 + (v - 26)) as char
    } else if v < 62 {
        (48 + (v - 52)) as char
    } else if v == 62 {
        '+'
    } else {
        '/'
    }
}

/// The standard, padded base64 encoding of RFC 4648: each group of three
/// bytes becomes four digits of six bits each; a last group of one or two
/// bytes is zero-filled and padded with '=' to four characters.
pub open spec fn base64_standard(bytes: Seq<u8>) -> Seq<char>
    decreases bytes.len(),
{
    if bytes.len() == 0 {
        Seq::empty()
    } else if bytes.len() == 1 {
        let a = bytes[0] as int;
        seq![base64_digit(a / 4), base64_digit((a % 4) * 16), '=', '=']
    } else if bytes.len() == 2 {
        let a = bytes[0] as int;
        let b = bytes[1] as int;
        seq![base64_digit(a / 4), base64_digit((a % 4) * 16 + b / 16), base64_digit((b % 16) * 4), '=']
    } else {
        let a = bytes[0] as int;
        let b = bytes[1] as int;
        let c = bytes[2] as int;
        seq![
            base64_digit(a / 4),
            base64_digit((a % 4) * 16 + b / 16),
            base64_digit((b % 16) * 4 + c / 64),
            base64_digit(c % 64),
        ] + base64_standard(bytes.subrange(3, bytes.len() as int))
    }
}

/// The encoding holds four characters for every started group of three bytes.
pub proof fn lemma_base64_length(bytes: Seq<u8>)
    ensures
        base64_standard(bytes).len() == 4 * ((bytes.len() + 2) / 3),
    decreases bytes.len(),
{
    if bytes.len() >= 3 {
        lemma_base64_length(bytes.subrange(3, bytes.len() as int));
    }
}

/// Trusted: base64's `STANDARD.encode` (the RFC 4648 alphabet, with
/// padding) produces exactly `base64_standard` of the bytes. `encode` panics
/// only when the encoded length overflows `usize`, which the bound on the
/// input rules out.
#[verifier::external_body]
fn base64_encode(bytes: &[u8]) -> (r: String)
    requires
        bytes@.len() < usize::MAX / 2,
    ensures
        r@ == base64_standard(bytes@),
{
    base64::engine::general_purpose::STANDARD.encode(bytes)
}

/// The screenshot's JPEG bytes as the base64 text the model requests carry.
pub fn encode_screenshot(jpeg: &[u8]) -> (r: String)
    requires
        jpeg@.len() < usize::MAX / 2,
    ensures
        r@ == base64_standard(jpeg@),
        r@.len() == 4 * ((jpeg@.len() + 2) / 3),
{
    proof {
        lemma_base64_length(jpeg@);
    }
    base64_encode(jpeg)
}

} // verus!
