//! Colours, battery and firmware values.

use vstd::prelude::*;

verus! {

/// An RGB colour.
#[derive(Debug, Clone, Copy, PartialEq, Eq, Structural)]
pub struct Color {
    pub r: u8,
    pub g: u8,
    pub b: u8,
}

impl Color {
    /// The colour (0, 0, 0).
    pub fn black() -> (c: Self)
        ensures
            c == (Color { r: 0, g: 0, b: 0 }),
    {
        Color { r: 0, g: 0, b: 0 }
    }

    /// The colour (255, 255, 255).
    pub fn white() -> (c: Self)
        ensures
            c == (Color { r: 255, g: 255, b: 255 }),
    {
        Color { r: 255, g: 255, b: 255 }
    }

    /// The colour (255, 0, 0).
    pub fn red() -> (c: Self)
        ensures
            c == (Color { r: 255, g: 0, b: 0 }),
    {
        Color { r: 255, g: 0, b: 0 }
    }

    /// The colour (0, 255, 0).
    pub fn green() -> (c: Self)
        ensures
            c == (Color { r: 0, g: 255, b: 0 }),
    {
        Color { r: 0, g: 255, b: 0 }
    }

    /// The colour (0, 0, 255).
    pub fn blue() -> (c: Self)
        ensures
            c == (Color { r: 0, g: 0, b: 255 }),
    {
        Color { r: 0, g: 0, b: 255 }
    }

    /// The colour (255, 255, 0).
    pub fn yellow() -> (c: Self)
        ensures
            c == (Color { r: 255, g: 255, b: 0 }),
    {
        Color { r: 255, g: 255, b: 0 }
    }

    /// The colour (0, 255, 255).
    pub fn cyan() -> (c: Self)
        ensures
            c == (Color { r: 0, g: 255, b: 255 }),
    {
        Color { r: 0, g: 255, b: 255 }
    }

    /// The colour (255, 0, 255).
    pub fn magenta() -> (c: Self)
        ensures
            c == (Color { r: 255, g: 0, b: 255 }),
    {
        Color { r: 255, g: 0, b: 255 }
    }

    /// The colour (255, 165, 0).
    pub fn orange() -> (c: Self)
        ensures
            c == (Color { r: 255, g: 165, b: 0 }),
    {
        Color { r: 255, g: 165, b: 0 }
    }

    /// The colour (128, 0, 128).
    pub fn purple() -> (c: Self)
        ensures
            c == (Color { r: 128, g: 0, b: 128 }),
    {
        Color { r: 128, g: 0, b: 128 }
    }

    /// A colour from its three components.
    pub fn new(r: u8, g: u8, b: u8) -> (c: Self)
        ensures
            c == (Color { r, g, b }),
    {
        Color { r, g, b }
    }

    /// A colour from `0xRRGGBB`; bits above the low 24 are ignored.
    pub fn from_hex(hex: u32) -> (c: Self)
        ensures
            c.r == (hex / 0x10000) % 0x100,
            c.g == (hex / 0x100) % 0x100,
            c.b == hex % 0x100,
    {
        let c = Color { r: ((hex >> 16u32) & 0xFF) as u8, g: ((hex >> 8u32) & 0xFF) as u8, b: (hex & 0xFF) as u8 };
        assert(((hex >> 16u32) & 0xFF) == (hex / 0x10000) % 0x100 && ((hex >> 8u32) & 0xFF) == (hex / 0x100)
            % 0x100 && (hex & 0xFF) == hex % 0x100) by (bit_vector);
        c
    }

    /// The components in the order red, green, blue.
    pub fn to_bytes(self) -> (r: [u8; 3])
        ensures
            r@ == seq![self.r, self.g, self.b],
    {
        let r = [self.r, self.g, self.b];
        assert(r@ =~= seq![self.r, self.g, self.b]);
        r
    }
}

impl From<(u8, u8, u8)> for Color {
    fn from(t: (u8, u8, u8)) -> (c: Self) {
        Color { r: t.0, g: t.1, b: t.2 }
    }
}

impl vstd::std_specs::convert::FromSpecImpl<(u8, u8, u8)> for Color {
    open spec fn obeys_from_spec() -> bool {
        true
    }

    open spec fn from_spec(t: (u8, u8, u8)) -> Color {
        Color { r: t.0, g: t.1, b: t.2 }
    }
}

impl From<[u8; 3]> for Color {
    fn from(a: [u8; 3]) -> (c: Self) {
        Color { r: a[0], g: a[1], b: a[2] }
    }
}

impl vstd::std_specs::convert::FromSpecImpl<[u8; 3]> for Color {
    open spec fn obeys_from_spec() -> bool {
        true
    }

    open spec fn from_spec(a: [u8; 3]) -> Color {
        Color { r: a@[0], g: a@[1], b: a@[2] }
    }
}

/// Battery charge.
#[derive(Debug, Clone, Copy, PartialEq, Eq, Structural)]
pub struct BatteryState {
    /// Charge in percent, 0 to 100.
    pub percentage: u8,
}

/// A firmware version, `major.minor.patch`.
#[derive(Debug, Clone, PartialEq, Eq, Structural)]
pub struct FirmwareVersion {
    pub major: u8,
    pub minor: u8,
    pub patch: u8,
}

/// The decimal digits of `n`, most significant first, without leading zeros.
pub open spec fn decimal(n: nat) -> Seq<char>
    decreases n,
{
    if n < 10 {
        seq![digit_char(n)]
    } else {
        decimal(n / 10) + seq![digit_char(n % 10)]
    }
}

/// The character of decimal digit `d`.
pub open spec fn digit_char(d: nat) -> char {
    ((d + 48) as u8) as char
}

fn digit_str(d: u8) -> (s: &'static str)
    requires
        d < 10,
    ensures
        s@ == seq![digit_char(d as nat)],
{
    proof {
        reveal_strlit("0");
        reveal_strlit("1");
        reveal_strlit("2");
        reveal_strlit("3");
        reveal_strlit("4");
        reveal_strlit("5");
        reveal_strlit("6");
        reveal_strlit("7");
        reveal_strlit("8");
        reveal_strlit("9");
    }
    let s = match d {
        0 => "0",
        1 => "1",
        2 => "2",
        3 => "3",
        4 => "4",
        5 => "5",
        6 => "6",
        7 => "7",
        8 => "8",
        _ => "9",
    };
    assert(s@ =~= seq![digit_char(d as nat)]);
    s
}

fn append_decimal(s: &mut String, n: u8)
    ensures
        final(s)@ == old(s)@ + decimal(n as nat),
{
    let ghost start = s@;
    if n >= 100 {
        s.append(digit_str(n / 100));
        s.append(digit_str((n / 10) % 10));
        s.append(digit_str(n % 10));
        assert(decimal((n / 100) as nat) == seq![digit_char((n / 100) as nat)]);
        assert(decimal((n / 10) as nat) == decimal((n / 100) as nat) + seq![digit_char(((n / 10) % 10) as nat)]);
        assert(decimal(n as nat) == decimal((n / 10) as nat) + seq![digit_char((n % 10) as nat)]);
        assert(s@ =~= start + decimal(n as nat));
    } else if n >= 10 {
        s.append(digit_str(n / 10));
        s.append(digit_str(n % 10));
        assert(decimal((n / 10) as nat) == seq![digit_char((n / 10) as nat)]);
        assert(decimal(n as nat) == decimal((n / 10) as nat) + seq![digit_char((n % 10) as nat)]);
        assert(s@ =~= start + decimal(n as nat));
    } else {
        s.append(digit_str(n));
        assert(s@ =~= start + decimal(n as nat));
    }
}

impl FirmwareVersion {
    /// The version written as `major.minor.patch` in decimal.
    pub fn to_string(&self) -> (r: String)
        ensures
            r@ == decimal(self.major as nat) + seq!['.'] + decimal(self.minor as nat) + seq!['.'] + decimal(
                self.patch as nat,
            ),
    {
        proof {
            reveal_strlit(".");
        }
        let mut s = String::new();
        append_decimal(&mut s, self.major);
        s.append(".");
        append_decimal(&mut s, self.minor);
        s.append(".");
        append_decimal(&mut s, self.patch);
        assert(s@ =~= decimal(self.major as nat) + seq!['.'] + decimal(self.minor as nat) + seq!['.']
            + decimal(self.patch as nat));
        s
    }
}

} // verus!
