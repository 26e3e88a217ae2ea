//! The HSL color format.

use crate::rounding::{lemma_round_ratio_bounded, round_ratio, rounded_ratio};
use crate::text::{decimal, push_decimal};
use crate::{Cmyk, Color, Error, Rgb};
use vstd::math::abs;
use vstd::prelude::*;
use vstd::string::StringExecFns;

verus! {

/// A representation of the HSL (hue, saturation, lightness) color format.
#[derive(Clone, Copy, PartialEq, Eq, Structural, Debug, Hash)]
pub struct Hsl {
    /// Hue value (in degrees)
    pub hue: u16,
    /// Saturation percentage
    pub saturation: u8,
    /// Lightness percentage
    pub lightness: u8,
}

/// The chroma `c = (1 - |2l - 1|) * s` of a saturation and a lightness given
/// in percent, in ten-thousandths.
pub open spec fn chroma(saturation: int, lightness: int) -> int {
    (100 - abs(2 * lightness - 100)) * saturation
}

/// How far a hue in degrees has moved into its pair of sectors and back:
/// `1 - |(h / 60) mod 2 - 1|`, in sixtieths.
pub open spec fn sector_ramp(hue: int) -> int {
    60 - abs(hue % 120 - 60)
}

/// The lightness offset `m = l - c / 2`, over 600000, for a chroma in
/// ten-thousandths and a lightness in percent.
pub open spec fn lightness_base(c: int, lightness: int) -> int {
    6000 * lightness - 30 * c
}

/// The components `(r', g', b')` of a hue with chroma `c`, over 600000, before
/// the lightness offset is added. With `x = c * sector_ramp(hue) / 60` they are
/// `(c, x, 0)` for a hue in `[0, 60)`, then `(x, c, 0)`, `(0, c, x)`,
/// `(0, x, c)`, `(x, 0, c)` and `(c, 0, x)` for the five sectors that follow.
/// A hue of 360 degrees is a hue of 0 degrees.
pub open spec fn wheel_components(hue: int, c: int) -> (int, int, int) {
    let full = 60 * c;
    let part = c * sector_ramp(hue);
    let sector = (hue % 360) / 60;
    if sector == 0 {
        (full, part, 0)
    } else if sector == 1 {
        (part, full, 0)
    } else if sector == 2 {
        (0, full, part)
    } else if sector == 3 {
        (0, part, full)
    } else if sector == 4 {
        (part, 0, full)
    } else {
        (full, 0, part)
    }
}

/// The 8-bit channel of a component: `(component + m) * 255`, rounded.
pub open spec fn channel_from(component: int, base: int) -> int {
    round_ratio(255 * (component + base), 600000)
}

/// The three channels of a hue in degrees, a saturation and a lightness in
/// percent.
pub open spec fn channels_of(hue: int, saturation: int, lightness: int) -> (int, int, int) {
    let c = chroma(saturation, lightness);
    let base = lightness_base(c, lightness);
    let parts = wheel_components(hue, c);
    (channel_from(parts.0, base), channel_from(parts.1, base), channel_from(parts.2, base))
}

/// Under valid percentages the chroma keeps every component, offset included,
/// between none and the whole.
pub proof fn lemma_chroma_range(saturation: int, lightness: int)
    requires
        0 <= saturation <= 100,
        0 <= lightness <= 100,
    ensures
        0 <= chroma(saturation, lightness) <= 10000,
        0 <= lightness_base(chroma(saturation, lightness), lightness),
        60 * chroma(saturation, lightness) + lightness_base(
            chroma(saturation, lightness),
            lightness,
        ) <= 600000,
{
    let width = 100 - abs(2 * lightness - 100);
    let c = chroma(saturation, lightness);
    assert(0 <= c <= 100 * width) by (nonlinear_arith)
        requires
            c == width * saturation,
            0 <= width,
            0 <= saturation <= 100,
    ;
}

/// The channels of a valid HSL color fit in eight bits.
pub proof fn lemma_channels_of_range(hue: int, saturation: int, lightness: int)
    requires
        0 <= hue,
        0 <= saturation <= 100,
        0 <= lightness <= 100,
    ensures
        0 <= channels_of(hue, saturation, lightness).0 <= 255,
        0 <= channels_of(hue, saturation, lightness).1 <= 255,
        0 <= channels_of(hue, saturation, lightness).2 <= 255,
{
    let c = chroma(saturation, lightness);
    let base = lightness_base(c, lightness);
    let ramp = sector_ramp(hue);
    let part = c * ramp;
    lemma_chroma_range(saturation, lightness);
    assert(0 <= part <= 60 * c) by (nonlinear_arith)
        requires
            part == c * ramp,
            0 <= c,
            0 <= ramp <= 60,
    ;
    let parts = wheel_components(hue, c);
    lemma_round_ratio_bounded(255 * (parts.0 + base), 600000, 255);
    lemma_round_ratio_bounded(255 * (parts.1 + base), 600000, 255);
    lemma_round_ratio_bounded(255 * (parts.2 + base), 600000, 255);
}

/// A hue of 360 degrees has the channels of a hue of 0 degrees.
pub proof fn lemma_channels_at_full_turn(saturation: int, lightness: int)
    ensures
        channels_of(360, saturation, lightness) == channels_of(0, saturation, lightness),
{
}

/// A hue of 360 degrees is the same color as a hue of 0 degrees.
pub proof fn lemma_full_turn_is_no_turn(saturation: u8, lightness: u8)
    ensures
        (Hsl { hue: 360, saturation, lightness }).as_rgb() == (Hsl {
            hue: 0,
            saturation,
            lightness,
        }).as_rgb(),
{
    lemma_channels_at_full_turn(saturation as int, lightness as int);
}

/// Computes the channel of one component.
fn component_channel(component: u32, base: u32) -> (channel: u8)
    requires
        component + base <= 600000,
    ensures
        channel == channel_from(component as int, base as int),
{
    proof {
        lemma_round_ratio_bounded(255 * (component + base), 600000, 255);
    }
    rounded_ratio(255 * (component + base), 600000) as u8
}

impl Hsl {
    /// The hue is at most 360 degrees; saturation and lightness are
    /// percentages, at most 100.
    pub open spec fn is_valid(self) -> bool {
        self.hue <= 360 && self.saturation <= 100 && self.lightness <= 100
    }

    /// Returns a new Hsl object given hue, saturation, and lightness values.
    /// Returns [`Error::PercentageOverflow`] if the saturation or the lightness
    /// is larger than 100, as they stand for percentages; else
    /// [`Error::DegreeOverflow`] if the hue is greater than 360, as it stands
    /// for a degree value.
    pub fn new(hue: u16, saturation: u8, lightness: u8) -> (res: Result<Self, Error>)
        ensures
            res is Ok <==> saturation <= 100 && lightness <= 100 && hue <= 360,
            res is Ok ==> res->Ok_0 == (Hsl { hue, saturation, lightness }),
            res is Err ==> (res->Err_0 == Error::PercentageOverflow <==> saturation > 100
                || lightness > 100),
            res is Err ==> (res->Err_0 == Error::DegreeOverflow <==> saturation <= 100 && lightness
                <= 100),
    {
        if !(saturation <= 100 && lightness <= 100) {
            return Err(Error::PercentageOverflow);
        }
        if hue > 360 {
            return Err(Error::DegreeOverflow);
        }
        Ok(Self::new_unchecked(hue, saturation, lightness))
    }

    /// See [`Hsl::new`]. Does not check that the values are in range: for
    /// callers who know that they are. The conversions are defined on valid
    /// values only.
    pub fn new_unchecked(hue: u16, saturation: u8, lightness: u8) -> (out: Self)
        ensures
            out == (Hsl { hue, saturation, lightness }),
    {
        Self { hue, saturation, lightness }
    }

    /// What `to_string` returns: `hsl(H°, S%, L%)`, each field in decimal.
    pub open spec fn text(self) -> Seq<char> {
        "hsl("@ + decimal(self.hue as nat) + "°, "@ + decimal(self.saturation as nat) + "%, "@
            + decimal(self.lightness as nat) + "%)"@
    }

    /// The color as text, for people to read.
    pub fn to_string(&self) -> (out: String)
        ensures
            out@ == self.text(),
    {
        let mut out = String::new();
        out.append("hsl(");
        push_decimal(&mut out, self.hue);
        out.append("°, ");
        push_decimal(&mut out, self.saturation as u16);
        out.append("%, ");
        push_decimal(&mut out, self.lightness as u16);
        out.append("%)");
        assert(out@ =~= self.text());
        out
    }
}

impl Color for Hsl {
    open spec fn in_domain(self) -> bool {
        self.is_valid()
    }

    open spec fn as_rgb(self) -> Rgb {
        let channels = channels_of(
            self.hue as int,
            self.saturation as int,
            self.lightness as int,
        );
        Rgb { red: channels.0 as u8, green: channels.1 as u8, blue: channels.2 as u8 }
    }

    open spec fn as_cmyk(self) -> Cmyk {
        self.as_rgb().as_cmyk()
    }

    open spec fn as_hsl(self) -> Hsl {
        self
    }

    fn to_rgb(self) -> (out: Rgb)
        ensures
            (out.red as int, out.green as int, out.blue as int) == channels_of(
                self.hue as int,
                self.saturation as int,
                self.lightness as int,
            ),
    {
        let lightness: u32 = self.lightness as u32;
        let saturation: u32 = self.saturation as u32;
        let hue: u32 = self.hue as u32;
        proof {
            lemma_chroma_range(saturation as int, lightness as int);
        }

        let spread: u32 = if 2 * lightness >= 100 {
            2 * lightness - 100
        } else {
            100 - 2 * lightness
        };
        let c: u32 = (100 - spread) * saturation;
        let within: u32 = hue % 120;
        let ramp: u32 = if within >= 60 {
            120 - within
        } else {
            within
        };
        assert(c * ramp <= 60 * c) by (nonlinear_arith)
            requires
                ramp <= 60,
        ;
        let full: u32 = 60 * c;
        let part: u32 = c * ramp;
        let base: u32 = 6000 * lightness - 30 * c;

        let sector: u32 = (hue % 360) / 60;
        let (r_prime, g_prime, b_prime) = if sector == 0 {
            (full, part, 0)
        } else if sector == 1 {
            (part, full, 0)
        } else if sector == 2 {
            (0, full, part)
        } else if sector == 3 {
            (0, part, full)
        } else if sector == 4 {
            (part, 0, full)
        } else {
            (full, 0, part)
        };

        let red = component_channel(r_prime, base);
        let green = component_channel(g_prime, base);
        let blue = component_channel(b_prime, base);

        Rgb { red, green, blue }
    }

    fn to_cmyk(self) -> (out: Cmyk) {
        self.to_rgb().to_cmyk()
    }

    fn to_hex_string(self) -> (out: String) {
        self.to_rgb().to_hex_string()
    }

    fn to_hsl(self) -> (out: Hsl)
        ensures
            out == self,
    {
        self
    }
}

} // verus!
