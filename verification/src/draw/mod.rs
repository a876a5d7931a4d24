//! Colors for drawing.
use vstd::prelude::*;
use vstd::std_specs::convert::FromSpecImpl;
use vstd::string::StringExecFns;

verus! {

/// A color, as its red, green, blue and alpha bytes: 0xRRGGBBAA.
#[derive(Debug, Clone, Copy, PartialEq, Eq, Hash, Structural)]
pub struct Color {
    /// The red, green, blue and alpha bytes
    pub rgba: u32,
}

/// The lower-case hexadecimal digit of `d`.
pub open spec fn hex_char(d: nat) -> char {
    if d < 10 {
        ('0' as int + d) as char
    } else {
        ('a' as int + d - 10) as char
    }
}

/// The lower-case hexadecimal digits of `n`, most significant first, without
/// leading zeros.
pub open spec fn hex_text(n: nat) -> Seq<char>
    decreases n,
{
    if n < 16 {
        seq![hex_char(n)]
    } else {
        hex_text(n / 16) + seq![hex_char(n % 16)]
    }
}

/// The lower-case hexadecimal text of `n`.
fn hex_string(n: u32) -> (r: String)
    ensures
        r@ == hex_text(n as nat),
    decreases n,
{
    let d = n % 16;
    let digit: &str = match d {
        0 => "0",
        1 => "1",
        2 => "2",
        3 => "3",
        4 => "4",
        5 => "5",
        6 => "6",
        7 => "7",
        8 => "8",
        9 => "9",
        10 => "a",
        11 => "b",
        12 => "c",
        13 => "d",
        14 => "e",
        _ => "f",
    };
    proof {
        reveal_strlit("0");
        reveal_strlit("1");
        reveal_strlit("2");
        reveal_strlit("3");
        reveal_strlit("4");
        reveal_strlit("5");
        reveal_strlit("6");
        reveal_strlit("7");
        reveal_strlit("8");
        reveal_strlit("9");
        reveal_strlit("a");
        reveal_strlit("b");
        reveal_strlit("c");
        reveal_strlit("d");
        reveal_strlit("e");
        reveal_strlit("f");
        assert(digit@ == seq![hex_char(d as nat)]);
    }
    if n < 16 {
        digit.to_owned()
    } else {
        hex_string(n / 16).concat(digit)
    }
}

impl Color {
    /// The red, green and blue bytes of this color: 0xRRGGBB.
    pub fn rgb_u32(&self) -> (r: u32)
        ensures
            r == self.rgba / 256,
    {
        self.rgba / 256
    }

    /// This color as a `#rrggbb` hex string (lower case, without leading zeros).
    pub fn as_rgb_hex_string(&self) -> (r: String)
        ensures
            r@ == "#"@ + hex_text((self.rgba / 256) as nat),
    {
        "#".to_owned().concat(hex_string(self.rgb_u32()).as_str())
    }
}

impl From<u32> for Color {
    fn from(rgba: u32) -> (r: Color) {
        Color { rgba }
    }
}

impl FromSpecImpl<u32> for Color {
    open spec fn obeys_from_spec() -> bool {
        true
    }

    open spec fn from_spec(rgba: u32) -> Color {
        Color { rgba }
    }
}

} // verus!
