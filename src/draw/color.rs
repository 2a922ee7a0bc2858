use vstd::prelude::*;

verus! {

/// A colour with 8 bits per channel.
#[derive(Clone, Copy, Debug, PartialEq, Eq, Structural)]
pub struct Color {
    pub a: u8,
    pub r: u8,
    pub g: u8,
    pub b: u8,
}

impl Color {
    /// The memory layout of a little-endian 32-bit ARGB pixel: blue, green,
    /// red, alpha.
    pub open spec fn spec_argb8888(self) -> Seq<u8> {
        seq![self.b, self.g, self.r, self.a]
    }

    pub fn new(a: u8, r: u8, g: u8, b: u8) -> (c: Color)
        ensures
            c == (Color { a, r, g, b }),
    {
        Color { a, r, g, b }
    }

    pub fn argb8888(&self) -> (r: [u8; 4])
        ensures
            r@ == self.spec_argb8888(),
    {
        let r = [self.b, self.g, self.r, self.a];
        proof {
            assert(r@ =~= self.spec_argb8888());
        }
        r
    }
}

impl Default for Color {
    fn default() -> (c: Color)
        ensures
            c == (Color { a: 0, r: 0, g: 0, b: 0 }),
    {
        Color { a: 0, r: 0, g: 0, b: 0 }
    }
}

} // verus!
