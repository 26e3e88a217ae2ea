//! The RGB color format, through which every other format is converted.

use crate::rounding::{
    lemma_round_ratio_bounded, lemma_round_ratio_unique, round_ratio, rounded_ratio,
};
use crate::text::{
    byte_of_digits, decimal, digit, hex_pair, is_lower_hex, lemma_digit_reads_back, push_decimal,
    push_hex_pair,
};
use crate::{Cmyk, Color, Hsl};
use vstd::math::abs;
use vstd::prelude::*;
use vstd::string::StringExecFns;

verus! {

/// A representation of the RGB (red, green, blue) color format.
#[derive(Clone, Copy, PartialEq, Eq, Structural, Debug, Hash)]
pub struct Rgb {
    /// Red value
    pub red: u8,
    /// Green value
    pub green: u8,
    /// Blue value
    pub blue: u8,
}

/// The largest of three channels.
pub open spec fn max3(a: int, b: int, c: int) -> int {
    if a >= b && a >= c {
        a
    } else if b >= c {
        b
    } else {
        c
    }
}

/// The smallest of three channels.
pub open spec fn min3(a: int, b: int, c: int) -> int {
    if a <= b && a <= c {
        a
    } else if b <= c {
        b
    } else {
        c
    }
}

/// The percentage of one ink for a channel where the largest channel is
/// `top`: with `v = channel/255` and `k = 1 - top/255` it is
/// `(1 - v - k) / (1 - k) * 100`, that is `100 * (top - channel) / top`,
/// rounded. Black has no largest channel to divide by and takes no ink.
pub open spec fn ink_share(channel: int, top: int) -> int {
    if top == 0 {
        0
    } else {
        round_ratio(100 * (top - channel), top)
    }
}

/// The percentage of black where the largest channel is `top`:
/// `(1 - top/255) * 100`, rounded.
pub open spec fn key_share(top: int) -> int {
    round_ratio(100 * (255 - top), 255)
}

/// The place of a color on the wheel in sixths of a turn, as a numerator over
/// `delta = max - min`: by the channel that is largest,
/// `((g - b) / delta) mod 6` for red, `(b - r) / delta + 2` for green and
/// `(r - g) / delta + 4` for blue. Where two channels are largest, the first
/// of red, green, blue decides.
pub open spec fn wheel_sixths(red: int, green: int, blue: int) -> int {
    let top = max3(red, green, blue);
    let delta = top - min3(red, green, blue);
    if top == red {
        if green >= blue {
            green - blue
        } else {
            green - blue + 6 * delta
        }
    } else if top == green {
        blue - red + 2 * delta
    } else {
        red - green + 4 * delta
    }
}

/// The hue in degrees: 0 for a gray, else sixty times the sixths of a turn,
/// rounded.
pub open spec fn hue_of(red: int, green: int, blue: int) -> int {
    let delta = max3(red, green, blue) - min3(red, green, blue);
    if delta == 0 {
        0
    } else {
        round_ratio(60 * wheel_sixths(red, green, blue), delta)
    }
}

/// The lightness in percent between a largest channel `top` and a smallest
/// `bottom`: `(top + bottom) / 2 / 255 * 100`, rounded.
pub open spec fn lightness_of(top: int, bottom: int) -> int {
    round_ratio(100 * (top + bottom), 510)
}

/// The saturation in percent: 0 for a gray, else with `l` the lightness as a
/// fraction, `delta / (1 - |2l - 1|) * 100`, that is
/// `100 * (top - bottom) / (255 - |top + bottom - 255|)`, rounded.
pub open spec fn saturation_of(top: int, bottom: int) -> int {
    if top == bottom {
        0
    } else {
        round_ratio(100 * (top - bottom), 255 - abs(top + bottom - 255))
    }
}

/// The hexadecimal code of a color: `#`, then two lowercase digits for each
/// of red, green and blue.
pub open spec fn hex_code(rgb: Rgb) -> Seq<char> {
    seq!['#'] + hex_pair(rgb.red as int) + hex_pair(rgb.green as int) + hex_pair(rgb.blue as int)
}

/// The hex code of a color is `#` followed by six lowercase hexadecimal
/// digits, and its digits, read in pairs, are the three channels: no two
/// colors share a code.
pub proof fn lemma_hex_code_reads_back(rgb: Rgb)
    ensures
        hex_code(rgb).len() == 7,
        hex_code(rgb)[0] == '#',
        forall|i: int| 1 <= i < 7 ==> is_lower_hex(#[trigger] hex_code(rgb)[i]),
        byte_of_digits(hex_code(rgb)[1], hex_code(rgb)[2]) == rgb.red,
        byte_of_digits(hex_code(rgb)[3], hex_code(rgb)[4]) == rgb.green,
        byte_of_digits(hex_code(rgb)[5], hex_code(rgb)[6]) == rgb.blue,
{
    let code = hex_code(rgb);
    let r = rgb.red as int;
    let g = rgb.green as int;
    let b = rgb.blue as int;
    assert(code =~= seq![
        '#',
        digit(r / 16),
        digit(r % 16),
        digit(g / 16),
        digit(g % 16),
        digit(b / 16),
        digit(b % 16),
    ]);
    lemma_digit_reads_back(r / 16);
    lemma_digit_reads_back(r % 16);
    lemma_digit_reads_back(g / 16);
    lemma_digit_reads_back(g % 16);
    lemma_digit_reads_back(b / 16);
    lemma_digit_reads_back(b % 16);
}

/// The sixths of a turn lie between none and six.
pub proof fn lemma_wheel_sixths_range(red: int, green: int, blue: int)
    ensures
        0 <= wheel_sixths(red, green, blue) <= 6 * (max3(red, green, blue) - min3(
            red,
            green,
            blue,
        )),
{
}

/// Hue, saturation and lightness of eight-bit channels are a valid HSL color.
pub proof fn lemma_hsl_of_range(red: int, green: int, blue: int)
    requires
        0 <= red <= 255,
        0 <= green <= 255,
        0 <= blue <= 255,
    ensures
        0 <= hue_of(red, green, blue) <= 360,
        0 <= saturation_of(max3(red, green, blue), min3(red, green, blue)) <= 100,
        0 <= lightness_of(max3(red, green, blue), min3(red, green, blue)) <= 100,
{
    let top = max3(red, green, blue);
    let bottom = min3(red, green, blue);
    let delta = top - bottom;
    if delta != 0 {
        lemma_wheel_sixths_range(red, green, blue);
        lemma_round_ratio_bounded(60 * wheel_sixths(red, green, blue), delta, 360);
        lemma_round_ratio_bounded(100 * delta, 255 - abs(top + bottom - 255), 100);
    }
}

/// The ink and key percentages of eight-bit channels are at most 100.
pub proof fn lemma_ink_share_range(channel: int, top: int)
    requires
        0 <= channel <= top <= 255,
    ensures
        0 <= ink_share(channel, top) <= 100,
        0 <= key_share(top) <= 100,
{
    if top != 0 {
        lemma_round_ratio_bounded(100 * (top - channel), top, 100);
    }
}

/// The largest channel takes no ink: of cyan, magenta and yellow, one is left
/// out.
pub proof fn lemma_top_channel_takes_no_ink(red: int, green: int, blue: int)
    requires
        0 <= red <= 255,
        0 <= green <= 255,
        0 <= blue <= 255,
    ensures
        ink_share(red, max3(red, green, blue)) == 0 || ink_share(green, max3(red, green, blue))
            == 0 || ink_share(blue, max3(red, green, blue)) == 0,
{
    let top = max3(red, green, blue);
    if top != 0 {
        lemma_round_ratio_unique(100 * (top - top), top, 0);
    }
}

/// Computes the largest of three channels.
fn largest(a: u8, b: u8, c: u8) -> (top: u8)
    ensures
        top == max3(a as int, b as int, c as int),
{
    if a >= b && a >= c {
        a
    } else if b >= c {
        b
    } else {
        c
    }
}

/// Computes the smallest of three channels.
fn smallest(a: u8, b: u8, c: u8) -> (bottom: u8)
    ensures
        bottom == min3(a as int, b as int, c as int),
{
    if a <= b && a <= c {
        a
    } else if b <= c {
        b
    } else {
        c
    }
}

/// Computes the percentage of one ink.
fn ink_percentage(channel: u8, top: u8) -> (ink: u8)
    requires
        channel <= top,
    ensures
        ink == ink_share(channel as int, top as int),
{
    if top == 0 {
        0
    } else {
        proof {
            lemma_ink_share_range(channel as int, top as int);
        }
        rounded_ratio(100 * (top - channel) as u32, top as u32) as u8
    }
}

impl Rgb {
    /// The largest of the three channels.
    pub open spec fn top(self) -> int {
        max3(self.red as int, self.green as int, self.blue as int)
    }

    /// The smallest of the three channels.
    pub open spec fn bottom(self) -> int {
        min3(self.red as int, self.green as int, self.blue as int)
    }

    /// Returns a new Rgb object given red, green, and blue values. Every
    /// value of an 8-bit channel is valid.
    pub fn new(red: u8, green: u8, blue: u8) -> (out: Self)
        ensures
            out == (Rgb { red, green, blue }),
    {
        Self { red, green, blue }
    }

    /// The four percentages of the color in the CMYK format: cyan, magenta,
    /// yellow, key.
    fn _to_cmyk(self) -> (inks: (u8, u8, u8, u8))
        ensures
            inks.0 == ink_share(self.red as int, self.top()),
            inks.1 == ink_share(self.green as int, self.top()),
            inks.2 == ink_share(self.blue as int, self.top()),
            inks.3 == key_share(self.top()),
            inks.0 <= 100 && inks.1 <= 100 && inks.2 <= 100 && inks.3 <= 100,
            inks.0 == 0 || inks.1 == 0 || inks.2 == 0,
    {
        let top = largest(self.red, self.green, self.blue);
        let cyan = ink_percentage(self.red, top);
        let magenta = ink_percentage(self.green, top);
        let yellow = ink_percentage(self.blue, top);
        let key = rounded_ratio(100 * (255 - top) as u32, 255) as u8;
        proof {
            lemma_ink_share_range(self.red as int, top as int);
            lemma_ink_share_range(self.green as int, top as int);
            lemma_ink_share_range(self.blue as int, top as int);
            lemma_top_channel_takes_no_ink(self.red as int, self.green as int, self.blue as int);
        }
        (cyan, magenta, yellow, key)
    }

    /// What `to_string` returns: `rgb(R, G, B)`, each channel in decimal.
    pub open spec fn text(self) -> Seq<char> {
        "rgb("@ + decimal(self.red as nat) + ", "@ + decimal(self.green as nat) + ", "@ + decimal(
            self.blue as nat,
        ) + ")"@
    }

    /// The color as text, for people to read.
    pub fn to_string(&self) -> (out: String)
        ensures
            out@ == self.text(),
    {
        let mut out = String::new();
        out.append("rgb(");
        push_decimal(&mut out, self.red as u16);
        out.append(", ");
        push_decimal(&mut out, self.green as u16);
        out.append(", ");
        push_decimal(&mut out, self.blue as u16);
        out.append(")");
        assert(out@ =~= self.text());
        out
    }
}

impl Color for Rgb {
    /// Every value of three 8-bit channels is a color.
    open spec fn in_domain(self) -> bool {
        true
    }

    open spec fn as_rgb(self) -> Rgb {
        self
    }

    open spec fn as_cmyk(self) -> Cmyk {
        Cmyk {
            cyan: ink_share(self.red as int, self.top()) as u8,
            magenta: ink_share(self.green as int, self.top()) as u8,
            yellow: ink_share(self.blue as int, self.top()) as u8,
            key: key_share(self.top()) as u8,
        }
    }

    open spec fn as_hsl(self) -> Hsl {
        Hsl {
            hue: hue_of(self.red as int, self.green as int, self.blue as int) as u16,
            saturation: saturation_of(self.top(), self.bottom()) as u8,
            lightness: lightness_of(self.top(), self.bottom()) as u8,
        }
    }

    fn to_rgb(self) -> (out: Rgb)
        ensures
            out == self,
    {
        self
    }

    fn to_hex_string(self) -> (out: String)
        ensures
            out@.len() == 7,
            out@[0] == '#',
            forall|i: int| 1 <= i < 7 ==> is_lower_hex(#[trigger] out@[i]),
            byte_of_digits(out@[1], out@[2]) == self.red,
            byte_of_digits(out@[3], out@[4]) == self.green,
            byte_of_digits(out@[5], out@[6]) == self.blue,
    {
        let mut out = String::new();
        out.push('#');
        push_hex_pair(&mut out, self.red);
        push_hex_pair(&mut out, self.green);
        push_hex_pair(&mut out, self.blue);
        proof {
            assert(out@ =~= hex_code(self));
            lemma_hex_code_reads_back(self);
        }
        out
    }

    fn to_cmyk(self) -> (out: Cmyk)
        ensures
            out.cyan == ink_share(self.red as int, self.top()),
            out.magenta == ink_share(self.green as int, self.top()),
            out.yellow == ink_share(self.blue as int, self.top()),
            out.key == key_share(self.top()),
            out.cyan == 0 || out.magenta == 0 || out.yellow == 0,
    {
        let (c, m, y, k) = self._to_cmyk();
        Cmyk::new_unchecked(c, m, y, k)
    }

    fn to_hsl(self) -> (out: Hsl)
        ensures
            out.hue == hue_of(self.red as int, self.green as int, self.blue as int),
            out.saturation == saturation_of(self.top(), self.bottom()),
            out.lightness == lightness_of(self.top(), self.bottom()),
    {
        let Self { red, green, blue } = self;
        let top = largest(red, green, blue);
        let bottom = smallest(red, green, blue);
        let delta = top - bottom;
        let sum: u32 = top as u32 + bottom as u32;
        proof {
            lemma_hsl_of_range(red as int, green as int, blue as int);
        }

        let hue: u16 = if delta == 0 {
            0
        } else {
            let span: u32 = delta as u32;
            let sixths: u32 = if top == red {
                if green >= blue {
                    (green - blue) as u32
                } else {
                    6 * span - (blue - green) as u32
                }
            } else if top == green {
                2 * span + blue as u32 - red as u32
            } else {
                4 * span + red as u32 - green as u32
            };
            rounded_ratio(60 * sixths, span) as u16
        };

        let saturation: u8 = if delta == 0 {
            0
        } else {
            let spread: u32 = if sum >= 255 {
                sum - 255
            } else {
                255 - sum
            };
            rounded_ratio(100 * delta as u32, 255 - spread) as u8
        };

        let lightness = rounded_ratio(100 * sum, 510) as u8;

        Hsl::new_unchecked(hue, saturation, lightness)
    }
}

} // verus!
