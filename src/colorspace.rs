use vstd::prelude::*;

verus! {

/// A colourspace tag. It is never stored as data: it only fixes how many
/// samples make up one pixel and which transforms an image admits.
pub trait Colorspace: Sized {
    /// Number of samples per pixel.
    spec fn spec_components() -> nat;

    /// Number of samples per pixel.
    fn components() -> (r: usize)
        ensures
            r as nat == Self::spec_components(),
            1 <= r <= 3,
    ;
}

/// Straight-from-the-camera colours, one sample per site, masked by the
/// colour filter array.
#[derive(Clone, Copy, Debug)]
pub struct BayerRgb {}

/// Linear RGB, still specific to the device.
#[derive(Clone, Copy, Debug)]
pub struct LinRgb {}

/// Device-independent XYZ, not yet adapted to a reference white.
#[derive(Clone, Copy, Debug)]
pub struct XYZ {}

/// Linear light with sRGB primaries and white point.
#[derive(Clone, Copy, Debug)]
pub struct LinSrgb {}

/// Gamma-encoded sRGB, ready for display.
#[derive(Clone, Copy, Debug)]
pub struct Srgb {}

/// Hue, saturation and value.
#[derive(Clone, Copy, Debug)]
pub struct Hsv {}

impl Colorspace for BayerRgb {
    open spec fn spec_components() -> nat {
        1
    }

    fn components() -> (r: usize) {
        1
    }
}

impl Colorspace for LinRgb {
    open spec fn spec_components() -> nat {
        3
    }

    fn components() -> (r: usize) {
        3
    }
}

impl Colorspace for XYZ {
    open spec fn spec_components() -> nat {
        3
    }

    fn components() -> (r: usize) {
        3
    }
}

impl Colorspace for LinSrgb {
    open spec fn spec_components() -> nat {
        3
    }

    fn components() -> (r: usize) {
        3
    }
}

impl Colorspace for Srgb {
    open spec fn spec_components() -> nat {
        3
    }

    fn components() -> (r: usize) {
        3
    }
}

impl Colorspace for Hsv {
    open spec fn spec_components() -> nat {
        3
    }

    fn components() -> (r: usize) {
        3
    }
}

/// A channel of a hue, saturation, value pixel.
#[derive(Copy, Clone, Debug, PartialEq, Eq, Structural)]
pub enum Attribute {
    Hue,
    Saturation,
    Value,
}

impl Attribute {
    /// Index of this channel in an interleaved HSV pixel.
    pub open spec fn spec_index(self) -> nat {
        match self {
            Attribute::Hue => 0,
            Attribute::Saturation => 1,
            Attribute::Value => 2,
        }
    }

    /// Index of this channel in an interleaved HSV pixel.
    pub fn index(&self) -> (r: usize)
        ensures
            r as nat == self.spec_index(),
    {
        match self {
            Attribute::Hue => 0,
            Attribute::Saturation => 1,
            Attribute::Value => 2,
        }
    }

    /// Lowercase name of the channel.
    pub fn name(&self) -> (r: &'static str)
        ensures
            *self == Attribute::Hue ==> r@ == "hue"@,
            *self == Attribute::Saturation ==> r@ == "saturation"@,
            *self == Attribute::Value ==> r@ == "value"@,
    {
        proof {
            reveal_strlit("hue");
            reveal_strlit("saturation");
            reveal_strlit("value");
        }
        match self {
            Attribute::Hue => "hue",
            Attribute::Saturation => "saturation",
            Attribute::Value => "value",
        }
    }
}

} // verus!
