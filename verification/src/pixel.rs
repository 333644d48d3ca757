//! Pixel cells of the software framebuffer and their wire layout.

use vstd::prelude::*;

verus! {

/// One cell of the software framebuffer: straight RGBA, one byte per channel.
#[derive(Debug, Clone, Copy, PartialEq, Eq, Structural)]
pub struct RgbaPixel {
    pub red: u8,
    pub green: u8,
    pub blue: u8,
    pub alpha: u8,
}

/// A colour whose channels have already been multiplied by its alpha, as a
/// software renderer hands it to a target pixel for blending.
#[derive(Debug, Clone, Copy, PartialEq, Eq, Structural)]
pub struct PremultipliedColor {
    pub red: u8,
    pub green: u8,
    pub blue: u8,
    pub alpha: u8,
}

/// What is left of `channel` under a layer that lets `weight / 255` of it
/// through.
pub open spec fn attenuated(channel: u8, weight: u8) -> int {
    (channel as int * weight as int) / 255
}

/// One channel after blending: the attenuated background plus the
/// premultiplied foreground.
pub open spec fn blended_channel(under: u8, over: u8, over_alpha: u8) -> int {
    attenuated(under, (255 - over_alpha) as u8) + over as int
}

impl PremultipliedColor {
    /// No channel exceeds the alpha it was multiplied by.
    pub open spec fn is_premultiplied(self) -> bool {
        &&& self.red <= self.alpha
        &&& self.green <= self.alpha
        &&& self.blue <= self.alpha
    }
}

impl RgbaPixel {
    /// The four bytes of this pixel in wire order: blue, green, red, alpha.
    pub open spec fn wire(self) -> Seq<u8> {
        seq![self.blue, self.green, self.red, self.alpha]
    }

    /// Whether blending `color` over this pixel keeps every channel in a byte.
    pub open spec fn blend_fits(self, color: PremultipliedColor) -> bool {
        &&& blended_channel(self.red, color.red, color.alpha) <= 255
        &&& blended_channel(self.green, color.green, color.alpha) <= 255
        &&& blended_channel(self.blue, color.blue, color.alpha) <= 255
    }

    /// This pixel with `color` blended over it. Alpha is left alone.
    pub open spec fn blended(self, color: PremultipliedColor) -> RgbaPixel {
        RgbaPixel {
            red: blended_channel(self.red, color.red, color.alpha) as u8,
            green: blended_channel(self.green, color.green, color.alpha) as u8,
            blue: blended_channel(self.blue, color.blue, color.alpha) as u8,
            alpha: self.alpha,
        }
    }

    pub fn new(red: u8, green: u8, blue: u8, alpha: u8) -> (pixel: Self)
        ensures
            pixel == (RgbaPixel { red, green, blue, alpha }),
    {
        Self { red, green, blue, alpha }
    }

    /// A pixel that shows nothing: all channels zero.
    pub fn transparent() -> (pixel: Self)
        ensures
            pixel == (RgbaPixel { red: 0, green: 0, blue: 0, alpha: 0 }),
    {
        Self { red: 0, green: 0, blue: 0, alpha: 0 }
    }

    /// A fully opaque pixel of the given colour.
    pub fn from_rgb(red: u8, green: u8, blue: u8) -> (pixel: Self)
        ensures
            pixel == (RgbaPixel { red, green, blue, alpha: 255 }),
    {
        Self { red, green, blue, alpha: u8::MAX }
    }

    /// Tells whether `blend` may be called with `color`.
    pub fn can_blend(&self, color: PremultipliedColor) -> (fits: bool)
        ensures
            fits == self.blend_fits(color),
    {
        let weight: u8 = u8::MAX - color.alpha;
        channel_fits(self.red, color.red, weight) && channel_fits(self.green, color.green, weight)
            && channel_fits(self.blue, color.blue, weight)
    }

    /// Blends `color` over this pixel.
    pub fn blend(&mut self, color: PremultipliedColor)
        requires
            old(self).blend_fits(color),
        ensures
            *final(self) == old(self).blended(color),
    {
        let weight: u8 = u8::MAX - color.alpha;
        self.red = attenuate(self.red, weight) + color.red;
        self.green = attenuate(self.green, weight) + color.green;
        self.blue = attenuate(self.blue, weight) + color.blue;
    }

    /// The pixel as it goes on the wire.
    pub fn wire_bytes(&self) -> (bytes: [u8; 4])
        ensures
            bytes@ == self.wire(),
    {
        [self.blue, self.green, self.red, self.alpha]
    }
}

impl Default for RgbaPixel {
    /// Opaque black.
    fn default() -> (pixel: Self)
        ensures
            pixel == (RgbaPixel { red: 0, green: 0, blue: 0, alpha: 255 }),
    {
        Self { red: 0, green: 0, blue: 0, alpha: u8::MAX }
    }
}

fn attenuate(channel: u8, weight: u8) -> (out: u8)
    ensures
        out == attenuated(channel, weight),
        out <= weight,
{
    proof {
        lemma_attenuated_bound(channel, weight);
    }
    let product: u16 = channel as u16 * weight as u16;
    (product / 255) as u8
}

fn channel_fits(under: u8, over: u8, weight: u8) -> (fits: bool)
    ensures
        fits == (attenuated(under, weight) + over <= 255),
{
    let rest: u8 = attenuate(under, weight);
    rest as u16 + over as u16 <= 255
}

/// Attenuation never lets through more than the weight.
pub proof fn lemma_attenuated_bound(channel: u8, weight: u8)
    ensures
        0 <= channel as int * weight as int <= 65025,
        0 <= attenuated(channel, weight) <= weight,
{
    assert(0 <= channel as int * weight as int <= 255 * weight as int) by (nonlinear_arith)
        requires
            0 <= channel as int <= 255,
            0 <= weight as int,
    ;
}

/// A premultiplied colour can be blended over any pixel: each channel ends up
/// no larger than 255.
pub proof fn lemma_premultiplied_blend_fits(pixel: RgbaPixel, color: PremultipliedColor)
    requires
        color.is_premultiplied(),
    ensures
        pixel.blend_fits(color),
{
    let weight = (255 - color.alpha) as u8;
    lemma_attenuated_bound(pixel.red, weight);
    lemma_attenuated_bound(pixel.green, weight);
    lemma_attenuated_bound(pixel.blue, weight);
}

} // verus!
