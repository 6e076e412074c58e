//! Colors held as three `u8` channels.

use std::ops::{Add, AddAssign, Sub, SubAssign};
use vstd::prelude::*;
use vstd::std_specs::ops::{AddSpecImpl, SubSpecImpl};

verus! {

/// A color: red, green and blue channels, each in 0..=255.
#[derive(Copy, Clone, PartialEq, Eq, Debug, Default, Structural)]
pub struct RGB(pub u8, pub u8, pub u8);

/// Channel sum, capped at 255.
pub open spec fn sat_add(a: u8, b: u8) -> u8 {
    if a + b > 255 { 255u8 } else { (a + b) as u8 }
}

/// Channel difference, floored at 0.
pub open spec fn sat_sub(a: u8, b: u8) -> u8 {
    if a - b < 0 { 0u8 } else { (a - b) as u8 }
}

/// Channel-wise capped sum of two colors.
pub open spec fn rgb_add(a: RGB, b: RGB) -> RGB {
    RGB(sat_add(a.0, b.0), sat_add(a.1, b.1), sat_add(a.2, b.2))
}

/// Channel-wise floored difference of two colors.
pub open spec fn rgb_sub(a: RGB, b: RGB) -> RGB {
    RGB(sat_sub(a.0, b.0), sat_sub(a.1, b.1), sat_sub(a.2, b.2))
}

fn add_channel(a: u8, b: u8) -> (r: u8)
    ensures
        r == sat_add(a, b),
{
    if (a as isize) + (b as isize) > 255 {
        255
    } else {
        a + b
    }
}

fn sub_channel(a: u8, b: u8) -> (r: u8)
    ensures
        r == sat_sub(a, b),
{
    if (a as isize) - (b as isize) < 0 {
        0
    } else {
        a - b
    }
}

impl RGB {
    /// Get an RGB from a tuple.
    pub fn from_tup(rgb: (u8, u8, u8)) -> (c: RGB)
        ensures
            c == RGB(rgb.0, rgb.1, rgb.2),
    {
        RGB(rgb.0, rgb.1, rgb.2)
    }

    /// Turn an RGB into a tuple.
    pub fn to_tup(self) -> (t: (u8, u8, u8))
        ensures
            t == (self.0, self.1, self.2),
    {
        (self.r(), self.g(), self.b())
    }

    /// The red channel.
    pub fn r(self) -> (v: u8)
        ensures
            v == self.0,
    {
        self.0
    }

    /// The green channel.
    pub fn g(self) -> (v: u8)
        ensures
            v == self.1,
    {
        self.1
    }

    /// The blue channel.
    pub fn b(self) -> (v: u8)
        ensures
            v == self.2,
    {
        self.2
    }
}

/// Channel-wise addition that caps each channel at 255.
impl Add<RGB> for RGB {
    type Output = RGB;

    fn add(self, other: RGB) -> (c: RGB) {
        RGB(add_channel(self.0, other.0), add_channel(self.1, other.1), add_channel(self.2, other.2))
    }
}

impl AddSpecImpl<RGB> for RGB {
    open spec fn obeys_add_spec() -> bool {
        true
    }

    open spec fn add_req(self, other: RGB) -> bool {
        true
    }

    open spec fn add_spec(self, other: RGB) -> RGB {
        rgb_add(self, other)
    }
}

/// In-place channel-wise addition that caps each channel at 255.
impl AddAssign<RGB> for RGB {
    fn add_assign(&mut self, other: RGB)
        ensures
            *final(self) == rgb_add(*old(self), other),
    {
        *self = RGB(add_channel(self.0, other.0), add_channel(self.1, other.1), add_channel(self.2, other.2));
    }
}

/// Channel-wise subtraction that floors each channel at 0.
impl Sub<RGB> for RGB {
    type Output = RGB;

    fn sub(self, other: RGB) -> (c: RGB) {
        RGB(sub_channel(self.0, other.0), sub_channel(self.1, other.1), sub_channel(self.2, other.2))
    }
}

impl SubSpecImpl<RGB> for RGB {
    open spec fn obeys_sub_spec() -> bool {
        true
    }

    open spec fn sub_req(self, other: RGB) -> bool {
        true
    }

    open spec fn sub_spec(self, other: RGB) -> RGB {
        rgb_sub(self, other)
    }
}

/// In-place channel-wise subtraction that floors each channel at 0.
impl SubAssign<RGB> for RGB {
    fn sub_assign(&mut self, other: RGB)
        ensures
            *final(self) == rgb_sub(*old(self), other),
    {
        *self = RGB(sub_channel(self.0, other.0), sub_channel(self.1, other.1), sub_channel(self.2, other.2));
    }
}

} // verus!
