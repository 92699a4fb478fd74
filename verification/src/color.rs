//! Colours as the editor picks them.
use crate::state::Rgb;
use vstd::prelude::*;

verus! {

/// A colour of the editor: its channels, and how opaque it is.
#[derive(Debug, Clone, Copy, PartialEq, Eq, Structural)]
pub struct Color {
    pub r: u8,
    pub g: u8,
    pub b: u8,
    pub a: u8,
}

/// The opaque colour with these channels.
pub open spec fn opaque(r: u8, g: u8, b: u8) -> Color {
    Color { r, g, b, a: 255 }
}

/// What an LED shows of a colour.
pub open spec fn led_color(c: Color) -> Rgb {
    Rgb { r: c.r, g: c.g, b: c.b }
}

impl Color {
    /// The opaque colour with these channels.
    pub fn from_rgb(r: u8, g: u8, b: u8) -> (c: Color)
        ensures
            c == opaque(r, g, b),
    {
        Color { r, g, b, a: 255 }
    }

    /// What an LED shows of the colour.
    pub fn to_rgb(self) -> (r: Rgb)
        ensures
            r == led_color(self),
    {
        Rgb { r: self.r, g: self.g, b: self.b }
    }
}

/// An LED shows the three channels that a colour was made of, whatever its opacity.
pub proof fn law_led_shows_the_channels(c: Color, r: u8, g: u8, b: u8)
    ensures
        led_color(c).r == c.r && led_color(c).g == c.g && led_color(c).b == c.b,
        led_color(opaque(r, g, b)) == (Rgb { r, g, b }),
        opaque(r, g, b).a == 255,
{
}

} // verus!
