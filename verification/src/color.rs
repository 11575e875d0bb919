//! Colors, native pixel samples and the reduction from one to the other.

use vstd::prelude::*;
use vstd::arithmetic::div_mod::lemma_fundamental_div_mod_converse;

verus! {

/// A truecolor value with eight bits per channel.
#[derive(Clone, Copy, Debug, PartialEq, Eq, Structural)]
pub struct Color {
    pub r: u8,
    pub g: u8,
    pub b: u8,
}

/// The pixel encodings the controller can be told to expect.
#[derive(Clone, Copy, Debug, PartialEq, Eq, Structural)]
pub enum PixelFormat {
    /// 5-6-5, sixteen bits per pixel.
    Bits16,
    /// 6-6-6, each channel left-aligned in a byte of its own.
    Bits18,
    /// 8-8-8, one byte per channel.
    Bits24,
}

/// A color in the panel's native encoding.
///
/// For `Bits16` the value is the 16-bit 5-6-5 word; for `Bits18` and `Bits24`
/// it is the 24-bit word `0xRRGGBB`.
#[derive(Clone, Copy, Debug, PartialEq, Eq, Structural)]
pub struct PixelSample {
    pub value: u32,
}

/// The channels of a color once the bits the format cannot hold are cut off.
pub struct Channels {
    pub r: int,
    pub g: int,
    pub b: int,
}

impl PixelFormat {
    /// Bits that one sample occupies on the bus.
    pub open spec fn sample_bits(self) -> nat {
        match self {
            PixelFormat::Bits16 => 16,
            PixelFormat::Bits18 => 24,
            PixelFormat::Bits24 => 24,
        }
    }

    /// One more than the largest value a transmitted sample can have.
    pub open spec fn sample_limit(self) -> int {
        match self {
            PixelFormat::Bits16 => 0x1_0000,
            PixelFormat::Bits18 => 0x100_0000,
            PixelFormat::Bits24 => 0x100_0000,
        }
    }

    /// The parameter of the pixel-format command that selects this format.
    pub open spec fn selector(self) -> u8 {
        match self {
            PixelFormat::Bits16 => 0x55,
            PixelFormat::Bits18 => 0x66,
            PixelFormat::Bits24 => 0x77,
        }
    }

    /// The channels of `color` at this format's depth: the low bits of each
    /// channel are dropped, never rounded.
    pub open spec fn truncate(self, color: Color) -> Channels {
        match self {
            PixelFormat::Bits16 => Channels {
                r: color.r as int / 8,
                g: color.g as int / 4,
                b: color.b as int / 8,
            },
            PixelFormat::Bits18 => Channels {
                r: color.r as int / 4,
                g: color.g as int / 4,
                b: color.b as int / 4,
            },
            PixelFormat::Bits24 => Channels {
                r: color.r as int,
                g: color.g as int,
                b: color.b as int,
            },
        }
    }

    /// The native word that holds the given channels.
    pub open spec fn pack(self, ch: Channels) -> int {
        match self {
            PixelFormat::Bits16 => ch.r * 2048 + ch.g * 32 + ch.b,
            PixelFormat::Bits18 => ch.r * 4 * 65536 + ch.g * 4 * 256 + ch.b * 4,
            PixelFormat::Bits24 => ch.r * 65536 + ch.g * 256 + ch.b,
        }
    }

    /// The native sample of `color`: its truncated channels, packed.
    pub open spec fn sample_of(self, color: Color) -> PixelSample {
        PixelSample { value: self.pack(self.truncate(color)) as u32 }
    }

    /// Converts a truecolor value to the native sample of this format.
    pub fn convert(self, color: Color) -> (sample: PixelSample)
        ensures
            sample == self.sample_of(color),
            sample.value == self.pack(self.truncate(color)),
            sample.value < self.sample_limit(),
    {
        let r: u32 = color.r as u32;
        let g: u32 = color.g as u32;
        let b: u32 = color.b as u32;
        let value: u32 = match self {
            PixelFormat::Bits16 => (r / 8) * 2048 + (g / 4) * 32 + b / 8,
            PixelFormat::Bits18 => (r / 4) * 4 * 65536 + (g / 4) * 4 * 256 + (b / 4) * 4,
            PixelFormat::Bits24 => r * 65536 + g * 256 + b,
        };
        PixelSample { value }
    }

    /// The byte that tells the controller to expect this format.
    pub fn selector_byte(self) -> (byte: u8)
        ensures
            byte == self.selector(),
    {
        match self {
            PixelFormat::Bits16 => 0x55,
            PixelFormat::Bits18 => 0x66,
            PixelFormat::Bits24 => 0x77,
        }
    }
}

impl Color {
    pub fn new(r: u8, g: u8, b: u8) -> (color: Color)
        ensures
            color == (Color { r, g, b }),
    {
        Color { r, g, b }
    }
}

impl PixelSample {
    pub fn new(value: u32) -> (sample: PixelSample)
        ensures
            sample.value == value,
    {
        PixelSample { value }
    }
}

/// Channels can be read back from the word they are packed in.
pub proof fn lemma_unpack(format: PixelFormat, ch: Channels)
    requires
        0 <= ch.r && 0 <= ch.g && 0 <= ch.b,
        match format {
            PixelFormat::Bits16 => ch.r < 32 && ch.g < 64 && ch.b < 32,
            PixelFormat::Bits18 => ch.r < 64 && ch.g < 64 && ch.b < 64,
            PixelFormat::Bits24 => ch.r < 256 && ch.g < 256 && ch.b < 256,
        },
    ensures
        0 <= format.pack(ch) < format.sample_limit(),
        match format {
            PixelFormat::Bits16 => ch.r == format.pack(ch) / 2048 && ch.g * 32 + ch.b
                == format.pack(ch) % 2048 && ch.b == format.pack(ch) % 32,
            PixelFormat::Bits18 => ch.r * 4 == format.pack(ch) / 65536 && ch.g * 1024 + ch.b * 4
                == format.pack(ch) % 65536 && ch.b * 4 == format.pack(ch) % 256,
            PixelFormat::Bits24 => ch.r == format.pack(ch) / 65536 && ch.g * 256 + ch.b
                == format.pack(ch) % 65536 && ch.b == format.pack(ch) % 256,
        },
{
    let p = format.pack(ch);
    match format {
        PixelFormat::Bits16 => {
            lemma_fundamental_div_mod_converse(p, 2048, ch.r, ch.g * 32 + ch.b);
            lemma_fundamental_div_mod_converse(p, 32, ch.r * 64 + ch.g, ch.b);
        },
        PixelFormat::Bits18 => {
            lemma_fundamental_div_mod_converse(p, 65536, ch.r * 4, ch.g * 1024 + ch.b * 4);
            lemma_fundamental_div_mod_converse(p, 256, ch.r * 1024 + ch.g * 4, ch.b * 4);
        },
        PixelFormat::Bits24 => {
            lemma_fundamental_div_mod_converse(p, 65536, ch.r, ch.g * 256 + ch.b);
            lemma_fundamental_div_mod_converse(p, 256, ch.r * 256 + ch.g, ch.b);
        },
    }
}

/// Conversion depends on the truncated channels alone: two colors that agree
/// after truncation to the format's depth have the same sample, and two colors
/// with the same sample agree after truncation.
pub proof fn lemma_convert_by_truncation(format: PixelFormat, a: Color, b: Color)
    ensures
        format.truncate(a) == format.truncate(b) <==> format.sample_of(a) == format.sample_of(b),
{
    let ta = format.truncate(a);
    let tb = format.truncate(b);
    lemma_unpack(format, ta);
    lemma_unpack(format, tb);
    if format.sample_of(a) == format.sample_of(b) {
        assert(format.pack(ta) == format.pack(tb));
        assert(ta.r == tb.r && ta.g == tb.g && ta.b == tb.b);
    }
}

} // verus!
