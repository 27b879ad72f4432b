//! Straight-alpha RGBA color values, integer premultiplication, and textual
//! hex parsing. The premultiplied form is what the compositor consumes.

use vstd::prelude::*;

verus! {

/// Fixed-point scaling of a color component by an alpha value: the result is
/// `c * a / 255` rounded to the nearest integer (half rounds up), computed
/// without floating point.
pub open spec fn spec_scale_u8(c: u8, a: u8) -> u8 {
    ((c * a + 127) / 255) as u8
}

/// Scales a color component by an alpha value.
/// Optimized to use no floating point operations.
pub fn scale_u8(c: u8, a: u8) -> (r: u8)
    ensures
        r == spec_scale_u8(c, a),
{
    proof {
        assert((c as u32) * (a as u32) + 128 < 0x10000) by (bit_vector);
    }
    let p: u32 = (c as u32) * (a as u32) + 128;
    proof {
        assert(p >> 8 < 0x100 && p + (p >> 8) < 0x10100) by (bit_vector)
            requires
                p < 0x10000,
        ;
    }
    let s: u32 = p >> 8;
    let t: u32 = p + s;
    let q: u32 = t >> 8;
    proof {
        assert(t >> 8 == ((c as u32) * (a as u32) + 127) / 255 && t >> 8 <= 255) by (bit_vector)
            requires
                p == (c as u32) * (a as u32) + 128,
                s == p >> 8,
                t == p + s,
        ;
    }
    q as u8
}

/// A color with four 8-bit channels, straight (non-premultiplied) alpha at
/// rest, stored in RGBA channel order.
#[derive(Debug, Clone, Copy, PartialEq, Eq, Structural)]
pub struct Color {
    pub r: u8,
    pub g: u8,
    pub b: u8,
    pub a: u8,
}

impl Color {
    #[verifier::inline]
    pub open spec fn spec_red(&self) -> u8 {
        self.r
    }

    #[verifier::inline]
    pub open spec fn spec_green(&self) -> u8 {
        self.g
    }

    #[verifier::inline]
    pub open spec fn spec_blue(&self) -> u8 {
        self.b
    }

    #[verifier::inline]
    pub open spec fn spec_alpha(&self) -> u8 {
        self.a
    }

    #[verifier::when_used_as_spec(spec_red)]
    pub fn red(&self) -> (r: u8)
        ensures
            r == self.r,
    {
        self.r
    }

    #[verifier::when_used_as_spec(spec_green)]
    pub fn green(&self) -> (r: u8)
        ensures
            r == self.g,
    {
        self.g
    }

    #[verifier::when_used_as_spec(spec_blue)]
    pub fn blue(&self) -> (r: u8)
        ensures
            r == self.b,
    {
        self.b
    }

    #[verifier::when_used_as_spec(spec_alpha)]
    pub fn alpha(&self) -> (r: u8)
        ensures
            r == self.a,
    {
        self.a
    }

    pub fn from_rgb(red: u8, green: u8, blue: u8) -> (r: Self)
        ensures
            r == (Color { r: red, g: green, b: blue, a: 255u8 }),
    {
        Color { r: red, g: green, b: blue, a: 255 }
    }

    pub fn from_rgba(red: u8, green: u8, blue: u8, alpha: u8) -> (r: Self)
        ensures
            r == (Color { r: red, g: green, b: blue, a: alpha }),
    {
        Color { r: red, g: green, b: blue, a: alpha }
    }

    /// The channels in RGBA order.
    pub fn to_array(&self) -> (r: [u8; 4])
        ensures
            r[0] == self.r,
            r[1] == self.g,
            r[2] == self.b,
            r[3] == self.a,
    {
        [self.r, self.g, self.b, self.a]
    }

    /// The premultiplied form of `self`, per [`Self::spec_premultiply_with`]
    /// at the color's own alpha.
    pub open spec fn spec_premultiply(self) -> Color {
        self.spec_premultiply_with(self.a)
    }

    /// The premultiplied form at a given alpha: each RGB channel scaled by
    /// `alpha`; an alpha of 255 leaves the color exactly as it was.
    pub open spec fn spec_premultiply_with(self, alpha: u8) -> Color {
        if alpha == 255 {
            self
        } else {
            Color {
                r: spec_scale_u8(self.r, alpha),
                g: spec_scale_u8(self.g, alpha),
                b: spec_scale_u8(self.b, alpha),
                a: alpha,
            }
        }
    }

    /// A premultiplied color carries no channel above its alpha, so the
    /// compositor's `source + scaled destination` sums cannot overflow.
    pub open spec fn premultiplied(self) -> bool {
        self.r <= self.a && self.g <= self.a && self.b <= self.a
    }

    pub fn premultiply(&self) -> (r: Self)
        ensures
            r == self.spec_premultiply(),
            r.premultiplied(),
            r.a == self.a,
    {
        proof {
            if self.a != 255 {
                lemma_scale_u8_le_alpha(self.r, self.a);
                lemma_scale_u8_le_alpha(self.g, self.a);
                lemma_scale_u8_le_alpha(self.b, self.a);
            }
        }
        self.premultiply_with(self.alpha())
    }

    pub fn premultiply_with(&self, alpha: u8) -> (r: Self)
        ensures
            r == self.spec_premultiply_with(alpha),
    {
        if alpha != 255 {
            Color {
                r: scale_u8(self.r, alpha),
                g: scale_u8(self.g, alpha),
                b: scale_u8(self.b, alpha),
                a: alpha,
            }
        } else {
            *self
        }
    }
}

/// The parse stage at which a textual color was rejected: the overall shape,
/// or the two hex digits of one particular component.
#[derive(Debug, Clone, Copy, PartialEq, Eq, Structural)]
pub enum ColorParseError {
    /// The text (after an optional leading `#`) is neither 6 nor 8 characters.
    Length,
    /// The red component is not two hex digits.
    Red,
    /// The green component is not two hex digits.
    Green,
    /// The blue component is not two hex digits.
    Blue,
    /// The alpha component is not two hex digits.
    Alpha,
}

/// The value of one hex digit (`0-9`, `a-f`, `A-F`), if it is one.
pub open spec fn spec_hex_val(c: char) -> Option<u8> {
    let v = c as u32;
    if 48 <= v && v <= 57 {  // '0' ..= '9'
        Some((v - 48) as u8)
    } else if 97 <= v && v <= 102 {  // 'a' ..= 'f'
        Some((v - 87) as u8)
    } else if 65 <= v && v <= 70 {  // 'A' ..= 'F'
        Some((v - 55) as u8)
    } else {
        None
    }
}

/// The byte written as two hex digits, high digit first.
pub open spec fn spec_hex_byte(hi: char, lo: char) -> Option<u8> {
    match (spec_hex_val(hi), spec_hex_val(lo)) {
        (Some(h), Some(l)) => Some((h * 16 + l) as u8),
        _ => None,
    }
}

/// Textual color form: `#rrggbb` (alpha becomes 255) or `#rrggbbaa`, the
/// leading `#` optional; anything else is rejected with the stage that failed.
pub open spec fn spec_parse_hex(s: Seq<char>) -> Result<Color, ColorParseError> {
    let hex = if s.len() > 0 && s[0] == '#' {
        s.skip(1)
    } else {
        s
    };
    if hex.len() == 6 {
        match (spec_hex_byte(hex[0], hex[1]), spec_hex_byte(hex[2], hex[3]), spec_hex_byte(hex[4], hex[5])) {
            (None, _, _) => Err(ColorParseError::Red),
            (Some(_), None, _) => Err(ColorParseError::Green),
            (Some(_), Some(_), None) => Err(ColorParseError::Blue),
            (Some(r), Some(g), Some(b)) => Ok(Color { r, g, b, a: 255u8 }),
        }
    } else if hex.len() == 8 {
        match (spec_hex_byte(hex[0], hex[1]), spec_hex_byte(hex[2], hex[3]), spec_hex_byte(hex[4], hex[5]), spec_hex_byte(hex[6], hex[7])) {
            (None, _, _, _) => Err(ColorParseError::Red),
            (Some(_), None, _, _) => Err(ColorParseError::Green),
            (Some(_), Some(_), None, _) => Err(ColorParseError::Blue),
            (Some(_), Some(_), Some(_), None) => Err(ColorParseError::Alpha),
            (Some(r), Some(g), Some(b), Some(a)) => Ok(Color { r, g, b, a }),
        }
    } else {
        Err(ColorParseError::Length)
    }
}

/// Executable counterpart of [`spec_hex_val`].
pub fn hex_val(c: char) -> (r: Option<u8>)
    ensures
        r == spec_hex_val(c),
{
    let v: u32 = c as u32;
    if 48 <= v && v <= 57 {
        Some((v - 48) as u8)
    } else if 97 <= v && v <= 102 {
        Some((v - 87) as u8)
    } else if 65 <= v && v <= 70 {
        Some((v - 55) as u8)
    } else {
        None
    }
}

/// Executable counterpart of [`spec_hex_byte`].
pub fn hex_byte(hi: char, lo: char) -> (r: Option<u8>)
    ensures
        r == spec_hex_byte(hi, lo),
{
    match (hex_val(hi), hex_val(lo)) {
        (Some(h), Some(l)) => Some(h * 16 + l),
        _ => None,
    }
}

impl Color {
    /// Parses the textual hex form, per [`spec_parse_hex`]: it succeeds on
    /// exactly the strings of 6 or 8 hex digits with an optional leading `#`,
    /// and otherwise reports the first stage that failed.
    pub fn parse_hex(s: &str) -> (r: Result<Color, ColorParseError>)
        ensures
            r == spec_parse_hex(s@),
    {
        let n: usize = s.unicode_len();
        let skip: usize = if n > 0 && s.get_char(0) == '#' {
            1
        } else {
            0
        };
        let len: usize = n - skip;
        if len != 6 && len != 8 {
            return Err(ColorParseError::Length);
        }
        let red = match hex_byte(s.get_char(skip), s.get_char(skip + 1)) {
            Some(v) => v,
            None => {
                return Err(ColorParseError::Red);
            },
        };
        let green = match hex_byte(s.get_char(skip + 2), s.get_char(skip + 3)) {
            Some(v) => v,
            None => {
                return Err(ColorParseError::Green);
            },
        };
        let blue = match hex_byte(s.get_char(skip + 4), s.get_char(skip + 5)) {
            Some(v) => v,
            None => {
                return Err(ColorParseError::Blue);
            },
        };
        if len == 6 {
            return Ok(Color { r: red, g: green, b: blue, a: 255 });
        }
        let alpha = match hex_byte(s.get_char(skip + 6), s.get_char(skip + 7)) {
            Some(v) => v,
            None => {
                return Err(ColorParseError::Alpha);
            },
        };
        Ok(Color { r: red, g: green, b: blue, a: alpha })
    }
}

/// Premultiplying at an alpha below 255 always yields a premultiplied color;
/// at alpha 255 the color passes through, so it must already be one.
pub proof fn lemma_premultiply_with_premultiplied(c: Color, alpha: u8)
    requires
        alpha != 255 || c.premultiplied(),
    ensures
        c.spec_premultiply_with(alpha).premultiplied(),
{
    if alpha != 255 {
        lemma_scale_u8_le_alpha(c.r, alpha);
        lemma_scale_u8_le_alpha(c.g, alpha);
        lemma_scale_u8_le_alpha(c.b, alpha);
    }
}

/// Premultiplying a color by its own alpha always yields a premultiplied
/// color.
pub proof fn lemma_premultiply_premultiplied(c: Color)
    ensures
        c.spec_premultiply().premultiplied(),
{
    if c.a != 255 {
        lemma_premultiply_with_premultiplied(c, c.a);
    }
}

/// Scaling a channel never exceeds the alpha itself.
pub proof fn lemma_scale_u8_le_alpha(c: u8, a: u8)
    ensures
        spec_scale_u8(c, a) <= a,
{
    assert((c * a + 127) / 255 <= a) by (nonlinear_arith)
        requires
            c <= 255,
            a <= 255,
    ;
}

} // verus!
