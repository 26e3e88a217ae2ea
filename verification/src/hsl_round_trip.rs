//! What holds of an HSL color that is converted to RGB and back.

use crate::hsl::{
    channel_from, channels_of, chroma, lemma_channels_of_range, lemma_chroma_range,
    lemma_channels_at_full_turn, lightness_base, sector_ramp,
};
use crate::rgb::{
    hue_of, lemma_hsl_of_range, lightness_of, max3, min3, saturation_of, wheel_sixths,
};
use crate::rounding::{
    lemma_round_ratio_monotonic, lemma_round_ratio_near, lemma_round_ratio_nearest,
    lemma_round_ratio_unique, round_ratio,
};
use crate::{Color, Hsl};
use vstd::math::abs;
use vstd::prelude::*;

verus! {

/// The largest channel of a color with the given saturation and lightness:
/// the one that takes the whole chroma.
pub open spec fn top_channel(saturation: int, lightness: int) -> int {
    let c = chroma(saturation, lightness);
    channel_from(60 * c, lightness_base(c, lightness))
}

/// The channel in the middle: the one that takes the part of the chroma that
/// the hue gives it.
pub open spec fn middle_channel(hue: int, saturation: int, lightness: int) -> int {
    let c = chroma(saturation, lightness);
    channel_from(c * sector_ramp(hue), lightness_base(c, lightness))
}

/// The smallest channel: the one that takes none of the chroma.
pub open spec fn bottom_channel(saturation: int, lightness: int) -> int {
    let c = chroma(saturation, lightness);
    channel_from(0, lightness_base(c, lightness))
}

/// Red, green and blue for a hue in the given sector of the wheel, out of the
/// largest, the middle and the smallest channel.
pub open spec fn arranged(sector: int, top: int, middle: int, bottom: int) -> (int, int, int) {
    if sector == 0 {
        (top, middle, bottom)
    } else if sector == 1 {
        (middle, top, bottom)
    } else if sector == 2 {
        (bottom, top, middle)
    } else if sector == 3 {
        (bottom, middle, top)
    } else if sector == 4 {
        (middle, bottom, top)
    } else {
        (top, bottom, middle)
    }
}

/// The three channels of a valid HSL color are its top, middle and bottom
/// channel, in that order of size, and the sector of the hue says which is
/// which.
pub proof fn lemma_channels_by_sector(hue: int, saturation: int, lightness: int)
    requires
        0 <= hue <= 360,
        0 <= saturation <= 100,
        0 <= lightness <= 100,
    ensures
        0 <= bottom_channel(saturation, lightness) <= middle_channel(hue, saturation, lightness)
            <= top_channel(saturation, lightness) <= 255,
        channels_of(hue, saturation, lightness) == arranged(
            (hue % 360) / 60,
            top_channel(saturation, lightness),
            middle_channel(hue, saturation, lightness),
            bottom_channel(saturation, lightness),
        ),
        max3(
            channels_of(hue, saturation, lightness).0,
            channels_of(hue, saturation, lightness).1,
            channels_of(hue, saturation, lightness).2,
        ) == top_channel(saturation, lightness),
        min3(
            channels_of(hue, saturation, lightness).0,
            channels_of(hue, saturation, lightness).1,
            channels_of(hue, saturation, lightness).2,
        ) == bottom_channel(saturation, lightness),
{
    let c = chroma(saturation, lightness);
    let base = lightness_base(c, lightness);
    let ramp = sector_ramp(hue);
    let part = c * ramp;
    lemma_chroma_range(saturation, lightness);
    lemma_channels_of_range(hue, saturation, lightness);
    assert(0 <= part <= 60 * c) by (nonlinear_arith)
        requires
            part == c * ramp,
            0 <= c,
            0 <= ramp <= 60,
    ;
    lemma_round_ratio_monotonic(255 * (0 + base), 255 * (part + base), 600000);
    lemma_round_ratio_monotonic(255 * (part + base), 255 * (60 * c + base), 600000);
}

/// Six hundred thousand times a channel is within three hundred thousand of
/// the exact numerator that the channel rounds.
proof fn lemma_channel_excess(component: int, base: int)
    ensures
        -300000 < 600000 * channel_from(component, base) - 255 * (component + base) <= 300000,
{
    lemma_round_ratio_nearest(255 * (component + base), 600000);
}

/// What comes back for a valid HSL color, field by field: the hue of its three
/// channels, and the saturation and the lightness of its top and bottom
/// channel. It is a valid HSL color again.
pub proof fn lemma_hsl_round_trip_fields(hsl: Hsl)
    requires
        hsl.is_valid(),
    ensures
        hsl.as_rgb().as_hsl().is_valid(),
        hsl.as_rgb().as_hsl().hue == hue_of(
            channels_of(hsl.hue as int, hsl.saturation as int, hsl.lightness as int).0,
            channels_of(hsl.hue as int, hsl.saturation as int, hsl.lightness as int).1,
            channels_of(hsl.hue as int, hsl.saturation as int, hsl.lightness as int).2,
        ),
        hsl.as_rgb().as_hsl().saturation == saturation_of(
            top_channel(hsl.saturation as int, hsl.lightness as int),
            bottom_channel(hsl.saturation as int, hsl.lightness as int),
        ),
        hsl.as_rgb().as_hsl().lightness == lightness_of(
            top_channel(hsl.saturation as int, hsl.lightness as int),
            bottom_channel(hsl.saturation as int, hsl.lightness as int),
        ),
{
    let rgb = hsl.as_rgb();
    lemma_channels_of_range(hsl.hue as int, hsl.saturation as int, hsl.lightness as int);
    lemma_channels_by_sector(hsl.hue as int, hsl.saturation as int, hsl.lightness as int);
    lemma_hsl_of_range(rgb.red as int, rgb.green as int, rgb.blue as int);
}

/// The top and the bottom channel give the lightness back exactly: their sum
/// is within one of 5.1 times the lightness.
proof fn lemma_lightness_back(saturation: int, lightness: int)
    ensures
        lightness_of(top_channel(saturation, lightness), bottom_channel(saturation, lightness))
            == lightness,
{
    let c = chroma(saturation, lightness);
    let base = lightness_base(c, lightness);
    let top = top_channel(saturation, lightness);
    let bottom = bottom_channel(saturation, lightness);
    lemma_channel_excess(60 * c, base);
    lemma_channel_excess(0, base);
    lemma_round_ratio_unique(100 * (top + bottom), 510, lightness);
}

/// A valid HSL color comes back from RGB with the lightness it had.
pub proof fn lemma_hsl_round_trip_lightness(hsl: Hsl)
    requires
        hsl.is_valid(),
    ensures
        hsl.as_rgb().as_hsl().lightness == hsl.lightness,
{
    lemma_hsl_round_trip_fields(hsl);
    lemma_lightness_back(hsl.saturation as int, hsl.lightness as int);
}

/// A gray (no saturation), black (no lightness) or white (full lightness)
/// comes back from RGB with hue 0 and saturation 0, whatever its hue was.
pub proof fn lemma_hsl_round_trip_gray(hsl: Hsl)
    requires
        hsl.is_valid(),
        hsl.saturation == 0 || hsl.lightness == 0 || hsl.lightness == 100,
    ensures
        hsl.as_rgb().red == hsl.as_rgb().green == hsl.as_rgb().blue,
        hsl.as_rgb().as_hsl().hue == 0,
        hsl.as_rgb().as_hsl().saturation == 0,
{
    let hue = hsl.hue as int;
    let saturation = hsl.saturation as int;
    let lightness = hsl.lightness as int;
    let c = chroma(saturation, lightness);
    assert(c == 0) by (nonlinear_arith)
        requires
            c == (100 - abs(2 * lightness - 100)) * saturation,
            saturation == 0 || lightness == 0 || lightness == 100,
    ;
    assert(c * sector_ramp(hue) == 0) by (nonlinear_arith)
        requires
            c == 0,
    ;
    lemma_channels_of_range(hue, saturation, lightness);
    lemma_channels_by_sector(hue, saturation, lightness);
    lemma_hsl_round_trip_fields(hsl);
}

/// Under a lightness from 14 to 86 percent the top and the bottom channel give
/// the saturation back to within one percent: what comes back is off by at
/// most a hundred over `255 - |top + bottom - 255|` before it is rounded, and
/// that number is at least 67.
proof fn lemma_saturation_back(saturation: int, lightness: int)
    requires
        0 <= saturation <= 100,
        14 <= lightness <= 86,
    ensures
        saturation - 1 <= saturation_of(
            top_channel(saturation, lightness),
            bottom_channel(saturation, lightness),
        ) <= saturation + 1,
{
    let c = chroma(saturation, lightness);
    let base = lightness_base(c, lightness);
    let top = top_channel(saturation, lightness);
    let bottom = bottom_channel(saturation, lightness);
    lemma_channel_excess(60 * c, base);
    lemma_channel_excess(0, base);
    let top_excess = 600000 * top - 255 * (60 * c + base);
    let bottom_excess = 600000 * bottom - 255 * (0 + base);
    let width = 100 - abs(2 * lightness - 100);
    assert(c == width * saturation);
    assert(28 <= width);
    if top == bottom {
        assert(saturation <= 1) by (nonlinear_arith)
            requires
                c == width * saturation,
                28 <= width,
                0 <= saturation,
                c <= 39,
        ;
    } else {
        let span = 255 - abs(top + bottom - 255);
        let gap = 100 * (top - bottom) - saturation * span;
        assert(span >= 67);
        if lightness < 50 {
            assert(span == top + bottom);
            assert(600000 * gap == (100 - saturation) * top_excess - (100 + saturation)
                * bottom_excess) by (nonlinear_arith)
                requires
                    gap == 100 * (top - bottom) - saturation * (top + bottom),
                    top_excess == 600000 * top - 255 * (60 * c + base),
                    bottom_excess == 600000 * bottom - 255 * (0 + base),
                    base == 6000 * lightness - 30 * c,
                    c == (2 * lightness) * saturation,
            ;
        } else {
            assert(span == 510 - (top + bottom));
            assert(600000 * gap == (100 + saturation) * top_excess - (100 - saturation)
                * bottom_excess) by (nonlinear_arith)
                requires
                    gap == 100 * (top - bottom) - saturation * (510 - (top + bottom)),
                    top_excess == 600000 * top - 255 * (60 * c + base),
                    bottom_excess == 600000 * bottom - 255 * (0 + base),
                    base == 6000 * lightness - 30 * c,
                    c == (200 - 2 * lightness) * saturation,
            ;
        }
        assert(-60000000 <= 600000 * gap <= 60000000) by (nonlinear_arith)
            requires
                0 <= saturation <= 100,
                -300000 < top_excess <= 300000,
                -300000 < bottom_excess <= 300000,
                600000 * gap == (100 - saturation) * top_excess - (100 + saturation)
                    * bottom_excess || 600000 * gap == (100 + saturation) * top_excess - (100
                    - saturation) * bottom_excess,
        ;
        lemma_round_ratio_near(100 * (top - bottom), span, saturation);
    }
}

/// A valid HSL color with a lightness from 14 to 86 percent comes back from
/// RGB with its saturation within one percent.
pub proof fn lemma_hsl_round_trip_saturation(hsl: Hsl)
    requires
        hsl.is_valid(),
        14 <= hsl.lightness <= 86,
    ensures
        abs(hsl.as_rgb().as_hsl().saturation - hsl.saturation) <= 1,
{
    lemma_hsl_round_trip_fields(hsl);
    lemma_saturation_back(hsl.saturation as int, hsl.lightness as int);
}

/// Where the middle component takes `ramp` sixtieths of the chroma, sixty
/// times the distance from the bottom channel to the middle one is within 59
/// of `ramp` times the distance from the bottom channel to the top one.
proof fn lemma_ramp_error(c: int, base: int, ramp: int)
    requires
        0 <= c,
        0 <= ramp <= 60,
    ensures
        -59 <= 60 * (channel_from(c * ramp, base) - channel_from(0, base)) - ramp * (channel_from(
            60 * c,
            base,
        ) - channel_from(0, base)) <= 59,
{
    let top = channel_from(60 * c, base);
    let middle = channel_from(c * ramp, base);
    let bottom = channel_from(0, base);
    let part = c * ramp;
    lemma_channel_excess(60 * c, base);
    lemma_channel_excess(part, base);
    lemma_channel_excess(0, base);
    let top_excess = 600000 * top - 255 * (60 * c + base);
    let middle_excess = 600000 * middle - 255 * (part + base);
    let bottom_excess = 600000 * bottom - 255 * (0 + base);
    let slack = 60 * (middle - bottom) - ramp * (top - bottom);
    assert(600000 * slack == 60 * middle_excess - ramp * top_excess - (60 - ramp) * bottom_excess)
        by (nonlinear_arith)
        requires
            slack == 60 * (middle - bottom) - ramp * (top - bottom),
            top_excess == 600000 * top - 255 * (60 * c + base),
            middle_excess == 600000 * middle - 255 * (part + base),
            bottom_excess == 600000 * bottom - 255 * (0 + base),
            part == c * ramp,
    ;
    assert(-36000000 < 600000 * slack < 36000000) by (nonlinear_arith)
        requires
            0 <= ramp <= 60,
            -300000 < top_excess <= 300000,
            -300000 < middle_excess <= 300000,
            -300000 < bottom_excess <= 300000,
            600000 * slack == 60 * middle_excess - ramp * top_excess - (60 - ramp)
                * bottom_excess,
    ;
}

/// The sixths of a turn, over `delta`, of channels arranged for a sector,
/// where `delta` is the distance from the bottom channel to the top one and
/// `rise` the distance from the bottom channel to the middle one.
pub open spec fn sixths_in_sector(sector: int, delta: int, rise: int) -> int {
    if sector == 0 {
        rise
    } else if sector == 1 {
        2 * delta - rise
    } else if sector == 2 {
        2 * delta + rise
    } else if sector == 3 {
        4 * delta - rise
    } else if sector == 4 {
        4 * delta + rise
    } else if rise == 0 {
        0
    } else {
        6 * delta - rise
    }
}

/// Channels arranged for a sector lie in that sector of the wheel.
proof fn lemma_sixths_by_sector(
    sector: int,
    top: int,
    middle: int,
    bottom: int,
    red: int,
    green: int,
    blue: int,
)
    requires
        0 <= sector <= 5,
        bottom <= middle <= top,
        bottom < top,
        (red, green, blue) == arranged(sector, top, middle, bottom),
    ensures
        max3(red, green, blue) == top,
        min3(red, green, blue) == bottom,
        wheel_sixths(red, green, blue) == sixths_in_sector(sector, top - bottom, middle - bottom),
{
}

/// Where sixty times the rise is within 59 of the ramp of the hue times a
/// distance of at least 40 between bottom and top, the sixths of the hue's
/// sector round to within one degree of the hue; but at 359 degrees a rise of
/// nothing rounds to 0 degrees.
proof fn lemma_sixths_round_to_hue(hue: int, delta: int, rise: int)
    requires
        0 <= hue < 360,
        delta >= 40,
        0 <= rise <= delta,
        -59 <= 60 * rise - sector_ramp(hue) * delta <= 59,
    ensures
        hue - 1 <= round_ratio(60 * sixths_in_sector(hue / 60, delta, rise), delta) <= hue + 1 || (
        hue == 359 && round_ratio(60 * sixths_in_sector(hue / 60, delta, rise), delta) == 0),
{
    let sector = hue / 60;
    let ramp = sector_ramp(hue);
    let sixths = sixths_in_sector(sector, delta, rise);
    let slack = 60 * rise - ramp * delta;
    if sector == 5 && rise == 0 {
        assert(ramp <= 1) by (nonlinear_arith)
            requires
                0 <= ramp,
                delta >= 40,
                ramp * delta <= 59,
        ;
        lemma_round_ratio_unique(0, delta, 0);
    } else {
        assert(60 * sixths - hue * delta == slack || 60 * sixths - hue * delta == -slack)
            by (nonlinear_arith)
            requires
                slack == 60 * rise - ramp * delta,
                (sixths == rise && hue == ramp) || (sixths == 2 * delta - rise && hue == 120
                    - ramp) || (sixths == 2 * delta + rise && hue == 120 + ramp) || (sixths == 4
                    * delta - rise && hue == 240 - ramp) || (sixths == 4 * delta + rise && hue
                    == 240 + ramp) || (sixths == 6 * delta - rise && hue == 360 - ramp),
        ;
        lemma_round_ratio_near(60 * sixths, delta, hue);
    }
}

/// Under a chroma of at least 15.69 percent the top channel lies at least 40
/// above the bottom one.
proof fn lemma_spread_under_chroma(saturation: int, lightness: int)
    requires
        chroma(saturation, lightness) >= 1569,
    ensures
        top_channel(saturation, lightness) - bottom_channel(saturation, lightness) >= 40,
{
    let c = chroma(saturation, lightness);
    let base = lightness_base(c, lightness);
    lemma_channel_excess(60 * c, base);
    lemma_channel_excess(0, base);
}

/// The hue of channels arranged for a sector is sixty times the sixths of that
/// sector over the distance from bottom to top, rounded.
proof fn lemma_hue_of_arranged(
    sector: int,
    top: int,
    middle: int,
    bottom: int,
    red: int,
    green: int,
    blue: int,
)
    requires
        0 <= sector <= 5,
        bottom <= middle <= top,
        bottom < top,
        (red, green, blue) == arranged(sector, top, middle, bottom),
    ensures
        hue_of(red, green, blue) == round_ratio(
            60 * sixths_in_sector(sector, top - bottom, middle - bottom),
            top - bottom,
        ),
{
    lemma_sixths_by_sector(sector, top, middle, bottom, red, green, blue);
}

/// The middle channel of a valid HSL color lies as far up from the bottom
/// channel to the top one as the ramp of its hue says: sixty times the
/// distance from bottom to middle is within 59 of the ramp times the distance
/// from bottom to top.
proof fn lemma_rise_follows_ramp(hue: int, saturation: int, lightness: int)
    requires
        0 <= hue <= 360,
        0 <= saturation <= 100,
        0 <= lightness <= 100,
    ensures
        -59 <= 60 * (middle_channel(hue, saturation, lightness) - bottom_channel(
            saturation,
            lightness,
        )) - sector_ramp(hue) * (top_channel(saturation, lightness) - bottom_channel(
            saturation,
            lightness,
        )) <= 59,
{
    lemma_chroma_range(saturation, lightness);
    lemma_ramp_error(
        chroma(saturation, lightness),
        lightness_base(chroma(saturation, lightness), lightness),
        sector_ramp(hue),
    );
}

/// Where red, green and blue are the channels of a hue below 360 degrees
/// under a chroma of at least 15.69 percent, their hue is within one degree
/// of that hue; but for 359 degrees it may be 0 degrees.
proof fn lemma_hue_back(
    hue: int,
    saturation: int,
    lightness: int,
    red: int,
    green: int,
    blue: int,
)
    requires
        0 <= hue < 360,
        0 <= saturation <= 100,
        0 <= lightness <= 100,
        chroma(saturation, lightness) >= 1569,
        (red, green, blue) == channels_of(hue, saturation, lightness),
    ensures
        hue - 1 <= hue_of(red, green, blue) <= hue + 1 || (hue == 359 && hue_of(red, green, blue)
            == 0),
{
    let top = top_channel(saturation, lightness);
    let middle = middle_channel(hue, saturation, lightness);
    let bottom = bottom_channel(saturation, lightness);
    lemma_spread_under_chroma(saturation, lightness);
    lemma_channels_by_sector(hue, saturation, lightness);
    lemma_hue_of_arranged(hue / 60, top, middle, bottom, red, green, blue);
    lemma_rise_follows_ramp(hue, saturation, lightness);
    lemma_sixths_round_to_hue(hue, top - bottom, middle - bottom);
}

/// Where red, green and blue are the channels of a hue of 0 degrees, their
/// hue is 0 degrees.
proof fn lemma_hue_back_at_zero(
    saturation: int,
    lightness: int,
    red: int,
    green: int,
    blue: int,
)
    requires
        0 <= saturation <= 100,
        0 <= lightness <= 100,
        (red, green, blue) == channels_of(0, saturation, lightness),
    ensures
        hue_of(red, green, blue) == 0,
{
    let c = chroma(saturation, lightness);
    let top = top_channel(saturation, lightness);
    let middle = middle_channel(0, saturation, lightness);
    let bottom = bottom_channel(saturation, lightness);
    assert(c * sector_ramp(0) == 0) by (nonlinear_arith)
        requires
            sector_ramp(0) == 0,
    ;
    assert(middle == bottom);
    lemma_channels_by_sector(0, saturation, lightness);
    if top > bottom {
        lemma_hue_of_arranged(0, top, middle, bottom, red, green, blue);
        lemma_round_ratio_unique(0, top - bottom, 0);
    }
}

/// The distance in degrees between two hues around the wheel, on which 360
/// degrees is the same place as 0 degrees.
pub open spec fn wheel_distance(a: int, b: int) -> int {
    let apart = abs(a - b) as int % 360;
    if apart <= 180 {
        apart
    } else {
        360 - apart
    }
}

/// Two hues that are within one of each other as plain numbers are within one
/// degree around the wheel, and so are a hue of 359 or 360 degrees and a hue
/// of 0 degrees.
proof fn lemma_wheel_distance_near(back: int, hue: int)
    requires
        0 <= back <= 360,
        0 <= hue <= 360,
        hue - 1 <= back <= hue + 1 || (hue >= 359 && back == 0),
    ensures
        wheel_distance(back, hue) <= 1,
{
}

/// A valid HSL color with a chroma of at least 15.69 percent comes back from
/// RGB with its hue within one degree around the wheel. Taken as plain
/// numbers, too, the two hues are within one of each other, but for the end
/// of the wheel: a hue of 359 degrees may, and a hue of 360 degrees does, come
/// back as 0 degrees.
pub proof fn lemma_hsl_round_trip_hue(hsl: Hsl)
    requires
        hsl.is_valid(),
        chroma(hsl.saturation as int, hsl.lightness as int) >= 1569,
    ensures
        wheel_distance(hsl.as_rgb().as_hsl().hue as int, hsl.hue as int) <= 1,
        abs(hsl.as_rgb().as_hsl().hue - hsl.hue) <= 1 || (hsl.hue >= 359
            && hsl.as_rgb().as_hsl().hue == 0),
        hsl.hue == 360 ==> hsl.as_rgb().as_hsl().hue == 0,
{
    let saturation = hsl.saturation as int;
    let lightness = hsl.lightness as int;
    let channels = channels_of(hsl.hue as int, saturation, lightness);
    let back = hsl.as_rgb().as_hsl().hue as int;
    lemma_hsl_round_trip_fields(hsl);
    if hsl.hue == 360 {
        lemma_channels_at_full_turn(saturation, lightness);
        lemma_hue_back_at_zero(saturation, lightness, channels.0, channels.1, channels.2);
    } else {
        lemma_hue_back(
            hsl.hue as int,
            saturation,
            lightness,
            channels.0,
            channels.1,
            channels.2,
        );
    }
    lemma_wheel_distance_near(back, hsl.hue as int);
}

/// A valid HSL color with a lightness from 14 to 86 percent and a chroma of at
/// least 15.69 percent comes back from RGB with the lightness it had, its
/// saturation within one percent and its hue within one degree around the
/// wheel.
pub proof fn lemma_hsl_round_trip(hsl: Hsl)
    requires
        hsl.is_valid(),
        14 <= hsl.lightness <= 86,
        chroma(hsl.saturation as int, hsl.lightness as int) >= 1569,
    ensures
        hsl.as_rgb().as_hsl().is_valid(),
        hsl.as_rgb().as_hsl().lightness == hsl.lightness,
        abs(hsl.as_rgb().as_hsl().saturation - hsl.saturation) <= 1,
        wheel_distance(hsl.as_rgb().as_hsl().hue as int, hsl.hue as int) <= 1,
{
    lemma_hsl_round_trip_fields(hsl);
    lemma_hsl_round_trip_lightness(hsl);
    lemma_hsl_round_trip_saturation(hsl);
    lemma_hsl_round_trip_hue(hsl);
}

} // verus!
