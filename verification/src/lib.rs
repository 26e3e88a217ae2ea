//! Conversions between the RGB, HSL, CMYK and hexadecimal color formats.
//!
//! Every conversion is computed in exact integer arithmetic: each formula is
//! evaluated as a ratio of integers and rounded once, to the nearest integer,
//! halves away from zero.
//!
//! ```
//! use color_conv::Color;
//! use color_conv::Cmyk;
//! use color_conv::Rgb;
//!
//! let cyan = Cmyk::new_unchecked(100, 0, 0, 0);
//! let cyan_rgb = cyan.to_rgb();
//!
//! assert_eq!(Rgb::new(0, 255, 255), cyan_rgb);
//! ```

use vstd::prelude::*;

/// CMYK-specific structures
pub mod cmyk;
/// CMYK to RGB and back
pub mod cmyk_round_trip;
/// The error type
pub mod error;
/// HSL-specific structures
pub mod hsl;
/// HSL to RGB and back
pub mod hsl_round_trip;
/// RGB-specific structures
pub mod rgb;
/// Rounding of ratios
pub mod rounding;
/// Digits and strings
pub mod text;

pub use self::cmyk::Cmyk;
pub use self::error::Error;
pub use self::hsl::Hsl;
pub use self::rgb::Rgb;

verus! {

/// Unifying `Color` trait which encompasses each of the structs provided by
/// this crate.
///
/// The conversions are defined on valid values, and return valid values.
pub trait Color {
    /// The values on which the conversions are defined: those whose fields
    /// all lie in their ranges.
    spec fn in_domain(self) -> bool;

    /// The color in the RGB format.
    spec fn as_rgb(self) -> Rgb;

    /// The color in the CMYK format.
    spec fn as_cmyk(self) -> Cmyk;

    /// The color in the HSL format.
    spec fn as_hsl(self) -> Hsl;

    /// Convert to [`Rgb`]
    fn to_rgb(self) -> (out: Rgb)
        requires
            self.in_domain(),
        ensures
            out == self.as_rgb(),
    ;

    /// Convert to [`Cmyk`]
    fn to_cmyk(self) -> (out: Cmyk)
        requires
            self.in_domain(),
        ensures
            out == self.as_cmyk(),
            out.is_valid(),
    ;

    /// Convert to [`Hsl`]
    fn to_hsl(self) -> (out: Hsl)
        requires
            self.in_domain(),
        ensures
            out == self.as_hsl(),
            out.is_valid(),
    ;

    /// Convert to a [`String`] containing the hex code of the color prefixed
    /// with a hashtag (`#`)
    fn to_hex_string(self) -> (out: String)
        requires
            self.in_domain(),
        ensures
            out@ == rgb::hex_code(self.as_rgb()),
    ;
}

} // verus!
