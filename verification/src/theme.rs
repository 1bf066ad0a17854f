//! Color theme of the surrounding window: background, foreground and
//! cursor colors, each set from a hexadecimal color code.
//!
//! The hex code itself is parsed by the palette crate; its exact acceptance
//! and component values are stated here over the characters of the string,
//! so that the setters say precisely when they succeed and what color they
//! leave behind.

use vstd::prelude::*;

use core::str::FromStr;

verus! {

/// A color in RGBA format, one byte per component.
pub struct Color {
    /// The red component of the color.
    pub r: u8,
    /// The green component of the color.
    pub g: u8,
    /// The blue component of the color.
    pub b: u8,
    /// The alpha component of the color.
    pub a: u8,
}

impl Color {
    /// A color from its four components.
    pub fn new(r: u8, g: u8, b: u8, a: u8) -> (c: Color)
        ensures
            c == (Color { r, g, b, a }),
    {
        Color { r, g, b, a }
    }

    /// Replaces all four components.
    pub fn set(&mut self, r: u8, g: u8, b: u8, a: u8)
        ensures
            *final(self) == (Color { r, g, b, a }),
    {
        self.r = r;
        self.g = g;
        self.b = b;
        self.a = a;
    }

    /// The components as an array, red first.
    pub fn get(&self) -> (out: [u8; 4])
        ensures
            out@ == seq![self.r, self.g, self.b, self.a],
    {
        let out = [self.r, self.g, self.b, self.a];
        proof {
            assert(out@ =~= seq![self.r, self.g, self.b, self.a]);
        }
        out
    }
}

/// Whether `c` is a hexadecimal digit.
pub open spec fn is_hex_digit(c: char) -> bool {
    (48 <= c as u32 <= 57) || (97 <= c as u32 <= 102) || (65 <= c as u32 <= 70)
}

/// The numeric value of a hexadecimal digit.
pub open spec fn hex_digit_val(c: char) -> int {
    if 48 <= c as u32 <= 57 {
        c as u32 - 48
    } else if 97 <= c as u32 <= 102 {
        c as u32 - 87
    } else {
        c as u32 - 55
    }
}

/// A hex code with one optional leading `'#'` stripped.
pub open spec fn hex_body(s: Seq<char>) -> Seq<char> {
    if s.len() > 0 && s[0] == '#' {
        s.skip(1)
    } else {
        s
    }
}

/// Whether two characters form a byte as `u8::from_str_radix` reads them:
/// two hex digits, or a `'+'` sign before one digit.
pub open spec fn hex_pair_ok(a: char, b: char) -> bool {
    (is_hex_digit(a) && is_hex_digit(b)) || (a == '+' && is_hex_digit(b))
}

/// The byte two such characters denote.
pub open spec fn hex_pair_val(a: char, b: char) -> int {
    if a == '+' {
        hex_digit_val(b)
    } else {
        16 * hex_digit_val(a) + hex_digit_val(b)
    }
}

/// Whether `s` is a color code: an optional `'#'`, then three hex digits
/// (each doubled into a byte) or six (one pair per byte).
pub open spec fn valid_hex_rgb(s: Seq<char>) -> bool {
    let h = hex_body(s);
    if h.len() == 3 {
        is_hex_digit(h[0]) && is_hex_digit(h[1]) && is_hex_digit(h[2])
    } else if h.len() == 6 {
        hex_pair_ok(h[0], h[1]) && hex_pair_ok(h[2], h[3]) && hex_pair_ok(h[4], h[5])
    } else {
        false
    }
}

/// The red component a valid code denotes.
pub open spec fn hex_red(s: Seq<char>) -> int {
    let h = hex_body(s);
    if h.len() == 3 {
        17 * hex_digit_val(h[0])
    } else {
        hex_pair_val(h[0], h[1])
    }
}

/// The green component a valid code denotes.
pub open spec fn hex_green(s: Seq<char>) -> int {
    let h = hex_body(s);
    if h.len() == 3 {
        17 * hex_digit_val(h[1])
    } else {
        hex_pair_val(h[2], h[3])
    }
}

/// The blue component a valid code denotes.
pub open spec fn hex_blue(s: Seq<char>) -> int {
    let h = hex_body(s);
    if h.len() == 3 {
        17 * hex_digit_val(h[2])
    } else {
        hex_pair_val(h[4], h[5])
    }
}

/// Relies on palette's `Srgb::<u8>::from_str`: it strips one leading `'#'`,
/// then reads three hex digits (each doubled into a byte) or six (one pair
/// per byte via `u8::from_str_radix`, which also tolerates a leading `'+'`
/// in a pair) as the red, green and blue components, and rejects every
/// other shape.  Only ASCII input may reach it: it slices the string by
/// bytes and would panic on a multi-byte character straddling a boundary.
#[verifier::external_body]
fn parse_hex_srgb(hex: &str) -> (r: Result<(u8, u8, u8), String>)
    requires
        hex.is_ascii(),
    ensures
        r is Ok <==> valid_hex_rgb(hex@),
        r matches Ok(c) ==> c.0 == hex_red(hex@) && c.1 == hex_green(hex@) && c.2 == hex_blue(
            hex@,
        ),
{
    match palette::Srgb::<u8>::from_str(hex) {
        Ok(c) => Ok((c.red, c.green, c.blue)),
        Err(e) => Err(e.to_string()),
    }
}

/// Background, foreground and cursor colors of the window.
pub struct Theme {
    /// Background color.
    pub bg: Color,
    /// Foreground (text) color.
    pub fg: Color,
    /// Cursor color.
    pub cs: Color,
}

impl Default for Theme {
    /// Black background, white foreground, white cursor.
    fn default() -> (t: Theme)
        ensures
            t.bg == (Color { r: 0, g: 0, b: 0, a: 255 }),
            t.fg == (Color { r: 255, g: 255, b: 255, a: 255 }),
            t.cs == (Color { r: 255, g: 255, b: 255, a: 255 }),
    {
        Theme {
            bg: Color { r: 0, g: 0, b: 0, a: 255 },
            fg: Color { r: 255, g: 255, b: 255, a: 255 },
            cs: Color { r: 255, g: 255, b: 255, a: 255 },
        }
    }
}

impl Theme {
    /// Sets the background color from a hexadecimal code; succeeds exactly
    /// on ASCII strings of the shape `valid_hex_rgb` describes, and leaves
    /// the theme alone otherwise.
    pub fn set_hex_bg(&mut self, hex: &str) -> (r: Result<(), String>)
        ensures
            r is Ok <==> hex.is_ascii() && valid_hex_rgb(hex@),
            r is Ok ==> final(self).bg == (Color {
                r: hex_red(hex@) as u8,
                g: hex_green(hex@) as u8,
                b: hex_blue(hex@) as u8,
                a: 255,
            }),
            r is Ok ==> final(self).fg == old(self).fg && final(self).cs == old(self).cs,
            r is Err ==> *final(self) == *old(self),
    {
        if !hex.is_ascii() {
            return Err("hex code must be ASCII".to_owned());
        }
        match parse_hex_srgb(hex) {
            Ok(c) => {
                self.bg.set(c.0, c.1, c.2, 255);
                Ok(())
            },
            Err(e) => Err(e),
        }
    }

    /// Sets the foreground color from a hexadecimal code, under the same
    /// contract as [`Theme::set_hex_bg`].
    pub fn set_hex_fg(&mut self, hex: &str) -> (r: Result<(), String>)
        ensures
            r is Ok <==> hex.is_ascii() && valid_hex_rgb(hex@),
            r is Ok ==> final(self).fg == (Color {
                r: hex_red(hex@) as u8,
                g: hex_green(hex@) as u8,
                b: hex_blue(hex@) as u8,
                a: 255,
            }),
            r is Ok ==> final(self).bg == old(self).bg && final(self).cs == old(self).cs,
            r is Err ==> *final(self) == *old(self),
    {
        if !hex.is_ascii() {
            return Err("hex code must be ASCII".to_owned());
        }
        match parse_hex_srgb(hex) {
            Ok(c) => {
                self.fg.set(c.0, c.1, c.2, 255);
                Ok(())
            },
            Err(e) => Err(e),
        }
    }

    /// Sets the cursor color from a hexadecimal code with a caller-chosen
    /// alpha, under the same contract as [`Theme::set_hex_bg`].
    pub fn set_hex_cs(&mut self, hex: &str, alpha: u8) -> (r: Result<(), String>)
        ensures
            r is Ok <==> hex.is_ascii() && valid_hex_rgb(hex@),
            r is Ok ==> final(self).cs == (Color {
                r: hex_red(hex@) as u8,
                g: hex_green(hex@) as u8,
                b: hex_blue(hex@) as u8,
                a: alpha,
            }),
            r is Ok ==> final(self).bg == old(self).bg && final(self).fg == old(self).fg,
            r is Err ==> *final(self) == *old(self),
    {
        if !hex.is_ascii() {
            return Err("hex code must be ASCII".to_owned());
        }
        match parse_hex_srgb(hex) {
            Ok(c) => {
                self.cs.set(c.0, c.1, c.2, alpha);
                Ok(())
            },
            Err(e) => Err(e),
        }
    }
}

} // verus!
