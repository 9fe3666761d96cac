//! The color carried by requests, effects and the persistent store: three
//! 8-bit channels, packable into a 24-bit integer and derivable from an
//! HSV triple.
//!
//! Scalar quantities (saturation, value) are fixed-point thousandths
//! (`1000` stands for `1.0`); hue is in thousandths of a degree
//! (`360_000` stands for a full turn).

use vstd::prelude::*;

verus! {

/// A color with one 8-bit channel per primary.
#[derive(Clone, Copy, Debug, PartialEq, Eq, Structural)]
pub struct RGBLedColor {
    pub red: u8,
    pub green: u8,
    pub blue: u8,
}

/// The 24-bit packing of a color: red in the high byte, blue in the low.
pub open spec fn color_u32(c: RGBLedColor) -> int {
    c.red * 0x10000 + c.green * 0x100 + c.blue
}

/// The color read back from a 24-bit packing; bits above the low 24 are ignored.
pub open spec fn color_from_u32(x: u32) -> RGBLedColor {
    RGBLedColor {
        red: (((x as int) / 0x10000) % 0x100) as u8,
        green: (((x as int) / 0x100) % 0x100) as u8,
        blue: ((x as int) % 0x100) as u8,
    }
}

/// Denominator of the channel values computed by `spec_from_hsv` before
/// rounding: chroma and its offsets are scaled by `1000 * 1000` (two
/// fixed-point factors) times `60_000` (the width of one hue sector).
pub open spec fn hsv_denominator() -> int {
    60_000_000_000
}

/// Rounded conversion of a channel numerator (over `hsv_denominator()`)
/// to an 8-bit channel.
pub open spec fn hsv_channel(n: int) -> int {
    (255 * n + hsv_denominator() / 2) / hsv_denominator()
}

/// Distance of the hue from the centre of its pair of sectors, in
/// thousandths of a degree; drives the secondary channel's ramp.
pub open spec fn hsv_sector_distance(h: int) -> int {
    let h2 = h % 120_000;
    if h2 >= 60_000 {
        h2 - 60_000
    } else {
        60_000 - h2
    }
}

/// The numerators (over `hsv_denominator()`) of the three channels before
/// the value-minus-chroma offset is added: the primary channel carries the
/// chroma, the secondary ramps with the hue, the third is zero. A hue past
/// a full turn yields zero in all three, as the reference conversion does.
pub open spec fn hsv_base(h: int, s: int, v: int) -> (int, int, int) {
    let c = s * v * 60_000;
    let x = s * v * (60_000 - hsv_sector_distance(h));
    if h > 360_000 {
        (0, 0, 0)
    } else if h / 60_000 == 0 {
        (c, x, 0)
    } else if h / 60_000 == 1 {
        (x, c, 0)
    } else if h / 60_000 == 2 {
        (0, c, x)
    } else if h / 60_000 == 3 {
        (0, x, c)
    } else if h / 60_000 == 4 {
        (x, 0, c)
    } else {
        (c, 0, x)
    }
}

/// The color of an HSV triple: hue in thousandths of a degree, saturation
/// and value in thousandths, rounded per channel to 8 bits.
pub open spec fn spec_from_hsv(h: int, s: int, v: int) -> RGBLedColor {
    let (rn, gn, bn) = hsv_base(h, s, v);
    let m = (v * 1000 - s * v) * 60_000;
    RGBLedColor {
        red: hsv_channel(rn + m) as u8,
        green: hsv_channel(gn + m) as u8,
        blue: hsv_channel(bn + m) as u8,
    }
}

impl RGBLedColor {
    pub fn new(red: u8, green: u8, blue: u8) -> (c: Self)
        ensures
            c == (RGBLedColor { red, green, blue }),
    {
        Self { red, green, blue }
    }

    /// Unpacks the low 24 bits of `color` into the three channels.
    pub fn new_from_u32(color: u32) -> (c: Self)
        ensures
            c == color_from_u32(color),
    {
        Self {
            red: ((color / 0x10000) % 0x100) as u8,
            green: ((color / 0x100) % 0x100) as u8,
            blue: (color % 0x100) as u8,
        }
    }

    /// Packs the three channels into the low 24 bits.
    pub fn to_u32(&self) -> (x: u32)
        ensures
            x == color_u32(*self),
    {
        let red: u32 = (self.red as u32) * 0x10000;
        let green: u32 = (self.green as u32) * 0x100;
        let blue: u32 = self.blue as u32;
        red + green + blue
    }

    /// The HSV conversion, in fixed point: `h` in thousandths of a degree
    /// (`0 ..= 360_000` covers the circle), `s` and `v` in thousandths.
    pub fn from_hsv(h: u32, s: u32, v: u32) -> (c: Self)
        requires
            s <= 1000,
            v <= 1000,
        ensures
            c == spec_from_hsv(h as int, s as int, v as int),
    {
        proof {
            assert((s as int) * (v as int) <= 1_000_000 && (s as int) * (v as int) <= (v as int)
                * 1000) by (nonlinear_arith)
                requires
                    s <= 1000,
                    v <= 1000,
            ;
        }
        let sv: u64 = (s as u64) * (v as u64);
        let m: u64 = ((v as u64) * 1000 - sv) * 60_000;
        let dist: u32 = {
            let h2 = h % 120_000;
            if h2 >= 60_000 {
                h2 - 60_000
            } else {
                60_000 - h2
            }
        };
        let c: u64 = sv * 60_000;
        proof {
            assert((sv as int) * ((60_000 - dist) as int) <= (sv as int) * 60_000)
                by (nonlinear_arith)
                requires
                    sv <= 1_000_000,
                    dist <= 60_000,
            ;
        }
        let x: u64 = sv * ((60_000 - dist) as u64);
        let (rn, gn, bn): (u64, u64, u64) = if h > 360_000 {
            (0, 0, 0)
        } else if h / 60_000 == 0 {
            (c, x, 0)
        } else if h / 60_000 == 1 {
            (x, c, 0)
        } else if h / 60_000 == 2 {
            (0, c, x)
        } else if h / 60_000 == 3 {
            (0, x, c)
        } else if h / 60_000 == 4 {
            (x, 0, c)
        } else {
            (c, 0, x)
        };
        Self {
            red: Self::channel_of(rn, m),
            green: Self::channel_of(gn, m),
            blue: Self::channel_of(bn, m),
        }
    }

    /// Rounds one channel numerator plus the shared offset down to 8 bits.
    fn channel_of(n: u64, m: u64) -> (ch: u8)
        requires
            n + m <= 60_000_000_000,
        ensures
            ch == hsv_channel(n + m),
    {
        let t: u64 = n + m;
        let ch: u64 = (t * 255 + 30_000_000_000) / 60_000_000_000;
        assert(ch <= 255);
        ch as u8
    }
}

impl Default for RGBLedColor {
    /// Black: all channels zero.
    fn default() -> (c: Self)
        ensures
            c == (RGBLedColor { red: 0, green: 0, blue: 0 }),
    {
        Self { red: 0, green: 0, blue: 0 }
    }
}

/// Unpacking a packed color restores every channel.
pub proof fn lemma_color_pack_unpack(c: RGBLedColor)
    ensures
        color_from_u32(color_u32(c) as u32) == c,
{
}

/// Packing an unpacked value restores its low 24 bits.
pub proof fn lemma_color_unpack_pack(x: u32)
    requires
        x <= 0xFFFFFF,
    ensures
        color_u32(color_from_u32(x)) == x,
{
}

/// A color request of the byte-oriented protocol revision: three raw
/// channel bytes.
#[derive(Clone, Copy, Debug, PartialEq, Eq, Structural)]
pub struct RGBRequest {
    pub color: RGBLedColor,
}

impl RGBRequest {
    /// Reads the channels out of a three-byte packet, in red, green, blue
    /// order.
    pub fn new(bytes: [u8; 3]) -> (r: Self)
        ensures
            r.color == (RGBLedColor { red: bytes[0], green: bytes[1], blue: bytes[2] }),
    {
        Self { color: RGBLedColor::new(bytes[0], bytes[1], bytes[2]) }
    }
}

impl Default for RGBRequest {
    /// The default request carries black.
    fn default() -> (r: Self)
        ensures
            r.color == (RGBLedColor { red: 0, green: 0, blue: 0 }),
    {
        Self { color: RGBLedColor::default() }
    }
}

} // verus!
