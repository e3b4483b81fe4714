//! Copying text through the terminal with an OSC 52 escape sequence.
use vstd::prelude::*;
use vstd::string::StringExecFns;
use vstd::string::StringSliceAdditionalSpecFns;
use base64::Engine;

verus! {

/// The character of a six-bit value in the standard Base64 alphabet:
/// `A`-`Z`, `a`-`z`, `0`-`9`, `+` and `/`.
pub open spec fn base64_char(v: int) -> char {
    if v < 26 {
        (65 + v) as char
    } else if v < 52 {
        (97 + v - 26) as char
    } else if v < 62 {
        (48 + v - 52) as char
    } else if v == 62 {
        '+'
    } else {
        '/'
    }
}

/// The standard Base64 encoding of a byte string (RFC 4648, section 4):
/// each group of three bytes becomes four characters of six bits each; a
/// last group of one or two bytes becomes two or three characters, padded
/// with `=` to four.
pub open spec fn base64_standard(bytes: Seq<u8>) -> Seq<char>
    decreases bytes.len(),
{
    if bytes.len() == 0 {
        Seq::empty()
    } else if bytes.len() == 1 {
        let a = bytes[0] as int;
        seq![base64_char(a / 4), base64_char((a % 4) * 16), '=', '=']
    } else if bytes.len() == 2 {
        let a = bytes[0] as int;
        let b = bytes[1] as int;
        seq![base64_char(a / 4), base64_char((a % 4) * 16 + b / 16), base64_char((b % 16) * 4), '=']
    } else {
        let a = bytes[0] as int;
        let b = bytes[1] as int;
        let c = bytes[2] as int;
        seq![
            base64_char(a / 4),
            base64_char((a % 4) * 16 + b / 16),
            base64_char((b % 16) * 4 + c / 64),
            base64_char(c % 64),
        ] + base64_standard(bytes.skip(3))
    }
}

/// Encodes bytes with the standard Base64 alphabet and padding.
///
/// Calls `base64::engine::general_purpose::STANDARD.encode`, the standard
/// alphabet with padding, which encodes as RFC 4648 says.
#[verifier::external_body]
fn encode_standard(bytes: &[u8]) -> (s: String)
    ensures
        s@ == base64_standard(bytes@),
{
    base64::engine::general_purpose::STANDARD.encode(bytes)
}

/// The OSC 52 sequence that asks the terminal to put `encoded` (already
/// Base64) on the clipboard: `ESC ] 52 ; c ;`, the payload, then `BEL`.
pub open spec fn osc52_framed(encoded: Seq<char>) -> Seq<char> {
    seq!['\x1b', ']', '5', '2', ';', 'c', ';'] + encoded + seq!['\x07']
}

/// Wraps an already encoded payload in the OSC 52 clipboard sequence.
pub fn osc52_frame(encoded: &str) -> (s: String)
    ensures
        s@ == osc52_framed(encoded@),
{
    let mut s = String::from_str("\x1b]52;c;");
    s.append(encoded);
    s.append("\x07");
    proof {
        reveal_strlit("\x1b]52;c;");
        reveal_strlit("\x07");
        assert(s@ =~= osc52_framed(encoded@));
    }
    s
}

/// The OSC 52 sequence that copies `text`: its UTF-8 bytes in standard
/// Base64, framed.
pub fn osc52_sequence(text: &str) -> (s: String)
    ensures
        s@ == osc52_framed(base64_standard(text.spec_bytes())),
{
    let encoded = encode_standard(text.as_bytes());
    osc52_frame(encoded.as_str())
}

} // verus!
