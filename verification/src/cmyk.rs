//! The CMYK color format.

use crate::rounding::{lemma_round_ratio_bounded, round_ratio, rounded_ratio};
use crate::text::{decimal, push_decimal};
use crate::{Color, Error, Hsl, Rgb};
use vstd::prelude::*;
use vstd::string::StringExecFns;

verus! {

/// A representation of the CMYK (cyan, magenta, yellow, key) color format.
#[derive(Clone, Copy, PartialEq, Eq, Structural, Debug)]
pub struct Cmyk {
    /// Cyan value (percentage)
    pub cyan: u8,
    /// Magenta value (percentage)
    pub magenta: u8,
    /// Yellow value (percentage)
    pub yellow: u8,
    /// Key value (percentage)
    pub key: u8,
}

/// The RGB channel that shows through `ink` percent of one ink and `key`
/// percent of black: `255 * (1 - ink/100) * (1 - key/100)`, rounded.
pub open spec fn channel_under_ink(ink: int, key: int) -> int {
    round_ratio(255 * (100 - ink) * (100 - key), 10000)
}

/// A channel under valid percentages fits in eight bits.
pub proof fn lemma_channel_under_ink_range(ink: int, key: int)
    requires
        0 <= ink <= 100,
        0 <= key <= 100,
    ensures
        0 <= channel_under_ink(ink, key) <= 255,
{
    let light = (100 - ink) * (100 - key);
    assert(0 <= light <= 10000) by (nonlinear_arith)
        requires
            light == (100 - ink) * (100 - key),
            0 <= ink <= 100,
            0 <= key <= 100,
    ;
    assert(255 * (100 - ink) * (100 - key) == 255 * light) by (nonlinear_arith)
        requires
            light == (100 - ink) * (100 - key),
    ;
    lemma_round_ratio_bounded(255 * light, 10000, 255);
}

impl Cmyk {
    /// All four fields are percentages: none is larger than 100.
    pub open spec fn is_valid(self) -> bool {
        self.cyan <= 100 && self.magenta <= 100 && self.yellow <= 100 && self.key <= 100
    }

    /// Returns a new Cmyk object given cyan, magenta, yellow, and key values,
    /// or [`Error::PercentageOverflow`] if any of them is larger than 100:
    /// they stand for percentages.
    pub fn new(cyan: u8, magenta: u8, yellow: u8, key: u8) -> (res: Result<Self, Error>)
        ensures
            res is Ok <==> cyan <= 100 && magenta <= 100 && yellow <= 100 && key <= 100,
            res is Ok ==> res->Ok_0 == (Cmyk { cyan, magenta, yellow, key }),
            res is Err ==> res->Err_0 == Error::PercentageOverflow,
    {
        if !(cyan <= 100 && magenta <= 100 && yellow <= 100 && key <= 100) {
            return Err(Error::PercentageOverflow);
        }
        Ok(Self::new_unchecked(cyan, magenta, yellow, key))
    }

    /// See [`Cmyk::new`]. Does not check that the values are at most 100: for
    /// callers who know that they are. The conversions are defined on valid
    /// values only.
    pub fn new_unchecked(cyan: u8, magenta: u8, yellow: u8, key: u8) -> (out: Self)
        ensures
            out == (Cmyk { cyan, magenta, yellow, key }),
    {
        Self { cyan, magenta, yellow, key }
    }

    /// What `to_string` returns: `cmyk(C%, M%, Y%, K%)`, each field in decimal.
    pub open spec fn text(self) -> Seq<char> {
        "cmyk("@ + decimal(self.cyan as nat) + "%, "@ + decimal(self.magenta as nat) + "%, "@
            + decimal(self.yellow as nat) + "%, "@ + decimal(self.key as nat) + "%)"@
    }

    /// The color as text, for people to read.
    pub fn to_string(&self) -> (out: String)
        ensures
            out@ == self.text(),
    {
        let mut out = String::new();
        out.append("cmyk(");
        push_decimal(&mut out, self.cyan as u16);
        out.append("%, ");
        push_decimal(&mut out, self.magenta as u16);
        out.append("%, ");
        push_decimal(&mut out, self.yellow as u16);
        out.append("%, ");
        push_decimal(&mut out, self.key as u16);
        out.append("%)");
        assert(out@ =~= self.text());
        out
    }
}

/// Computes the channel under one ink.
fn ink_channel(ink: u8, key: u8) -> (channel: u8)
    requires
        ink <= 100,
        key <= 100,
    ensures
        channel == channel_under_ink(ink as int, key as int),
{
    let clear: u32 = 100 - ink as u32;
    let bright: u32 = 100 - key as u32;
    assert(clear * bright <= 10000 && 255 * (clear * bright) == 255 * clear * bright)
        by (nonlinear_arith)
        requires
            clear <= 100,
            bright <= 100,
    ;
    let light: u32 = clear * bright;
    proof {
        lemma_channel_under_ink_range(ink as int, key as int);
    }
    rounded_ratio(255 * light, 10000) as u8
}

impl Color for Cmyk {
    open spec fn in_domain(self) -> bool {
        self.is_valid()
    }

    open spec fn as_rgb(self) -> Rgb {
        Rgb {
            red: channel_under_ink(self.cyan as int, self.key as int) as u8,
            green: channel_under_ink(self.magenta as int, self.key as int) as u8,
            blue: channel_under_ink(self.yellow as int, self.key as int) as u8,
        }
    }

    open spec fn as_cmyk(self) -> Cmyk {
        self
    }

    open spec fn as_hsl(self) -> Hsl {
        self.as_rgb().as_hsl()
    }

    fn to_rgb(self) -> (out: Rgb)
        ensures
            out.red == channel_under_ink(self.cyan as int, self.key as int),
            out.green == channel_under_ink(self.magenta as int, self.key as int),
            out.blue == channel_under_ink(self.yellow as int, self.key as int),
    {
        let red = ink_channel(self.cyan, self.key);
        let green = ink_channel(self.magenta, self.key);
        let blue = ink_channel(self.yellow, self.key);
        Rgb { red, green, blue }
    }

    fn to_cmyk(self) -> (out: Cmyk)
        ensures
            out == self,
    {
        self
    }

    fn to_hex_string(self) -> (out: String) {
        self.to_rgb().to_hex_string()
    }

    fn to_hsl(self) -> (out: Hsl) {
        self.to_rgb().to_hsl()
    }
}

} // verus!
