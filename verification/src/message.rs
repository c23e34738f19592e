//! Human-readable messages for malformed DDS streams: numbers in decimal,
//! header flags as `0x` followed by eight upper-case hexadecimal digits.

use vstd::prelude::*;
use vstd::string::StringExecFns;

use crate::dds::DdsError;

verus! {

/// The character of a digit below 16: `0`-`9`, then `A`-`F`.
pub open spec fn digit_char(d: int) -> char {
    if d < 10 {
        (48 + d) as char
    } else {
        (55 + d) as char
    }
}

/// The decimal digits of `v`, without leading zeros (`0` for zero).
pub open spec fn decimal(v: nat) -> Seq<char>
    decreases v,
{
    if v < 10 {
        seq![digit_char(v as int)]
    } else {
        decimal(v / 10) + seq![digit_char((v % 10) as int)]
    }
}

/// The last `n` hexadecimal digits of `v`, zero padded.
pub open spec fn hex_digits(v: nat, n: nat) -> Seq<char>
    decreases n,
{
    if n == 0 {
        Seq::empty()
    } else {
        hex_digits(v / 16, (n - 1) as nat) + seq![digit_char((v % 16) as int)]
    }
}

/// `v` as `0x` followed by eight upper-case hexadecimal digits.
pub open spec fn hex_u32(v: u32) -> Seq<char> {
    seq!['0', 'x'] + hex_digits(v as nat, 8)
}

/// The message for each malformed stream.
pub open spec fn error_message(e: DdsError) -> Seq<char> {
    match e {
        DdsError::Signature => "DDS signature not found"@,
        DdsError::HeaderSize(s) => "Invalid DDS header size: "@ + decimal(s as nat),
        DdsError::HeaderFlags(f) => "Invalid DDS header flags: "@ + hex_u32(f),
        DdsError::PixelFormatSize(s) => "Invalid DDS PixelFormat size: "@ + decimal(s as nat),
        DdsError::DxgiFormat(d) => "Invalid DDS DXGI format: "@ + decimal(d as nat),
        DdsError::ResourceDimension(d) => "Invalid DDS resource dimension: "@ + decimal(d as nat),
        DdsError::Dx10Flags(f) => "Invalid DDS DX10 header flags: "@ + hex_u32(f),
        DdsError::Dx10ArraySize(s) => "Invalid DDS DX10 array size: "@ + decimal(s as nat),
        DdsError::DimensionsInvalid => "DDS image dimensions invalid or too large"@,
    }
}

/// The one-character string of a digit below 16.
fn digit_str(d: u32) -> (s: &'static str)
    requires
        d < 16,
    ensures
        s@ == seq![digit_char(d as int)],
{
    proof {
        reveal_strlit("0");
        reveal_strlit("1");
        reveal_strlit("2");
        reveal_strlit("3");
        reveal_strlit("4");
        reveal_strlit("5");
        reveal_strlit("6");
        reveal_strlit("7");
        reveal_strlit("8");
        reveal_strlit("9");
        reveal_strlit("A");
        reveal_strlit("B");
        reveal_strlit("C");
        reveal_strlit("D");
        reveal_strlit("E");
        reveal_strlit("F");
    }
    let s = match d {
        0 => "0",
        1 => "1",
        2 => "2",
        3 => "3",
        4 => "4",
        5 => "5",
        6 => "6",
        7 => "7",
        8 => "8",
        9 => "9",
        10 => "A",
        11 => "B",
        12 => "C",
        13 => "D",
        14 => "E",
        _ => "F",
    };
    assert(s@ =~= seq![digit_char(d as int)]);
    s
}

/// `v` in decimal.
pub fn decimal_string(v: u32) -> (s: String)
    ensures
        s@ == decimal(v as nat),
    decreases v,
{
    if v < 10 {
        String::from_str(digit_str(v))
    } else {
        let mut s = decimal_string(v / 10);
        s.append(digit_str(v % 10));
        s
    }
}

/// The last `n` hexadecimal digits of `v`, zero padded.
fn hex_digits_string(v: u32, n: u32) -> (s: String)
    ensures
        s@ == hex_digits(v as nat, n as nat),
    decreases n,
{
    if n == 0 {
        String::new()
    } else {
        let mut s = hex_digits_string(v / 16, n - 1);
        s.append(digit_str(v % 16));
        s
    }
}

/// `v` as `0x` followed by eight upper-case hexadecimal digits.
pub fn hex_string(v: u32) -> (s: String)
    ensures
        s@ == hex_u32(v),
{
    proof {
        reveal_strlit("0x");
    }
    let mut s = String::from_str("0x");
    let digits = hex_digits_string(v, 8);
    s.append(digits.as_str());
    assert(s@ =~= hex_u32(v));
    s
}

/// A message and a number after it.
fn with_number(prefix: &str, number: String) -> (s: String)
    ensures
        s@ == prefix@ + number@,
{
    let mut s = String::from_str(prefix);
    s.append(number.as_str());
    s
}

impl DdsError {
    /// The message that describes the malformation.
    pub fn message(&self) -> (m: String)
        ensures
            m@ == error_message(*self),
    {
        match *self {
            DdsError::Signature => String::from_str("DDS signature not found"),
            DdsError::HeaderSize(s) => with_number("Invalid DDS header size: ", decimal_string(s)),
            DdsError::HeaderFlags(f) => with_number("Invalid DDS header flags: ", hex_string(f)),
            DdsError::PixelFormatSize(s) => with_number(
                "Invalid DDS PixelFormat size: ",
                decimal_string(s),
            ),
            DdsError::DxgiFormat(d) => with_number("Invalid DDS DXGI format: ", decimal_string(d)),
            DdsError::ResourceDimension(d) => with_number(
                "Invalid DDS resource dimension: ",
                decimal_string(d),
            ),
            DdsError::Dx10Flags(f) => with_number("Invalid DDS DX10 header flags: ", hex_string(f)),
            DdsError::Dx10ArraySize(s) => with_number(
                "Invalid DDS DX10 array size: ",
                decimal_string(s),
            ),
            DdsError::DimensionsInvalid => String::from_str(
                "DDS image dimensions invalid or too large",
            ),
        }
    }
}

} // verus!
