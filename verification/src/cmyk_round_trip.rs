//! What holds of a CMYK color that is converted to RGB and back.

use crate::cmyk::{channel_under_ink, lemma_channel_under_ink_range};
use crate::rgb::{ink_share, key_share, lemma_ink_share_range};
use crate::rounding::{
    lemma_round_ratio_monotonic, lemma_round_ratio_near, lemma_round_ratio_nearest,
    lemma_round_ratio_unique,
};
use crate::{Cmyk, Color, Rgb};
use vstd::math::abs;
use vstd::prelude::*;

verus! {

/// Less ink leaves a channel at least as bright.
pub proof fn lemma_channel_under_ink_monotonic(more: int, less: int, key: int)
    requires
        0 <= less <= more <= 100,
        0 <= key <= 100,
    ensures
        channel_under_ink(more, key) <= channel_under_ink(less, key),
{
    assert(255 * (100 - more) * (100 - key) <= 255 * (100 - less) * (100 - key))
        by (nonlinear_arith)
        requires
            0 <= less <= more <= 100,
            0 <= key <= 100,
    ;
    lemma_round_ratio_monotonic(
        255 * (100 - more) * (100 - key),
        255 * (100 - less) * (100 - key),
        10000,
    );
}

/// Under a key of at most 73 percent, the channel that one ink leaves and the
/// channel that no ink leaves give that ink back to within one percent: what
/// comes back is off by less than a hundred over the brighter channel before
/// it is rounded, and that channel is at least 67.
proof fn lemma_ink_round_trip_bright(ink: int, key: int)
    requires
        0 <= ink <= 100,
        0 <= key <= 73,
    ensures
        ink - 1 <= ink_share(channel_under_ink(ink, key), channel_under_ink(0, key)) <= ink + 1,
{
    let clear = 100 - ink;
    let bright = 100 - key;
    let channel = channel_under_ink(ink, key);
    let top = channel_under_ink(0, key);
    let product = clear * bright;
    assert(255 * (100 - ink) * (100 - key) == 255 * product && 255 * (100 - 0) * (100 - key)
        == 25500 * bright) by (nonlinear_arith)
        requires
            product == (100 - ink) * (100 - key),
            bright == 100 - key,
    ;
    // Ten thousand times each channel, less the exact value that it rounds.
    let channel_excess = 10000 * channel - 255 * product;
    let top_excess = 10000 * top - 25500 * bright;
    lemma_round_ratio_nearest(255 * product, 10000);
    lemma_round_ratio_nearest(25500 * bright, 10000);
    assert(top >= 67);
    let gap = 100 * (top - channel) - ink * top;
    assert(10000 * gap == clear * top_excess - 100 * channel_excess) by (nonlinear_arith)
        requires
            gap == 100 * (top - channel) - ink * top,
            clear == 100 - ink,
            channel_excess == 10000 * channel - 255 * product,
            top_excess == 10000 * top - 25500 * bright,
            product == clear * bright,
    ;
    assert(-500000 < clear * top_excess <= 500000) by (nonlinear_arith)
        requires
            0 <= clear <= 100,
            -5000 < top_excess <= 5000,
    ;
    lemma_round_ratio_near(100 * (top - channel), top, ink);
}

/// The same under a key of 74 to 78 percent, where the brighter channel is a
/// known number between 56 and 66: key by key.
proof fn lemma_ink_round_trip_dark(ink: int, key: int)
    requires
        0 <= ink <= 100,
        74 <= key <= 78,
    ensures
        ink - 1 <= ink_share(channel_under_ink(ink, key), channel_under_ink(0, key)) <= ink + 1,
{
    let clear = 100 - ink;
    let bright = 100 - key;
    let channel = channel_under_ink(ink, key);
    let top = channel_under_ink(0, key);
    assert(255 * (100 - ink) * (100 - key) == (255 * bright) * clear && 255 * (100 - 0) * (100
        - key) == 25500 * bright) by (nonlinear_arith)
        requires
            clear == 100 - ink,
            bright == 100 - key,
    ;
    lemma_round_ratio_nearest(25500 * bright, 10000);
    lemma_round_ratio_nearest((255 * bright) * clear, 10000);
    if key == 74 {
        assert(top == 66 && (255 * bright) * clear == 6630 * clear);
        lemma_round_ratio_nearest(100 * (66 - channel), 66);
    } else if key == 75 {
        assert(top == 64 && (255 * bright) * clear == 6375 * clear);
        lemma_round_ratio_nearest(100 * (64 - channel), 64);
    } else if key == 76 {
        assert(top == 61 && (255 * bright) * clear == 6120 * clear);
        lemma_round_ratio_nearest(100 * (61 - channel), 61);
    } else if key == 77 {
        assert(top == 59 && (255 * bright) * clear == 5865 * clear);
        lemma_round_ratio_nearest(100 * (59 - channel), 59);
    } else {
        assert(top == 56 && (255 * bright) * clear == 5610 * clear);
        lemma_round_ratio_nearest(100 * (56 - channel), 56);
    }
}

/// Under a key of at most 78 percent, the channel that one ink leaves and the
/// channel that no ink leaves give that ink back to within one percent.
pub proof fn lemma_ink_round_trip(ink: int, key: int)
    requires
        0 <= ink <= 100,
        0 <= key <= 78,
    ensures
        ink - 1 <= ink_share(channel_under_ink(ink, key), channel_under_ink(0, key)) <= ink + 1,
{
    if key <= 73 {
        lemma_ink_round_trip_bright(ink, key);
    } else {
        lemma_ink_round_trip_dark(ink, key);
    }
}

/// The channel that no ink leaves gives the key back exactly.
pub proof fn lemma_key_round_trip(key: int)
    requires
        0 <= key <= 100,
    ensures
        key_share(channel_under_ink(0, key)) == key,
{
    let bright = 100 - key;
    assert(255 * (100 - 0) * (100 - key) == 25500 * bright) by (nonlinear_arith)
        requires
            bright == 100 - key,
    ;
    let top = channel_under_ink(0, key);
    lemma_round_ratio_nearest(25500 * bright, 10000);
    assert(-5000 < 10000 * top - 25500 * bright <= 5000);
    lemma_round_ratio_unique(100 * (255 - top), 255, key);
}

/// A CMYK color with a key of 100 percent is black whatever its inks, and
/// comes back from RGB as no ink under a key of 100 percent.
pub proof fn lemma_cmyk_round_trip_black(cmyk: Cmyk)
    requires
        cmyk.is_valid(),
        cmyk.key == 100,
    ensures
        cmyk.as_rgb() == (Rgb { red: 0, green: 0, blue: 0 }),
        cmyk.as_rgb().as_cmyk() == (Cmyk { cyan: 0, magenta: 0, yellow: 0, key: 100 }),
{
    assert(255 * (100 - cmyk.cyan) * (100 - 100) == 0) by (nonlinear_arith);
    assert(255 * (100 - cmyk.magenta) * (100 - 100) == 0) by (nonlinear_arith);
    assert(255 * (100 - cmyk.yellow) * (100 - 100) == 0) by (nonlinear_arith);
    lemma_round_ratio_unique(0, 10000, 0);
    lemma_round_ratio_unique(100 * (255 - 0), 255, 100);
}

/// A CMYK color that leaves out one of its inks comes back from RGB with the
/// key it had.
pub proof fn lemma_cmyk_round_trip_key(cmyk: Cmyk)
    requires
        cmyk.is_valid(),
        cmyk.cyan == 0 || cmyk.magenta == 0 || cmyk.yellow == 0,
    ensures
        cmyk.as_rgb().as_cmyk().key == cmyk.key,
{
    let key = cmyk.key as int;
    let rgb = cmyk.as_rgb();
    lemma_channel_under_ink_range(cmyk.cyan as int, key);
    lemma_channel_under_ink_range(cmyk.magenta as int, key);
    lemma_channel_under_ink_range(cmyk.yellow as int, key);
    lemma_channel_under_ink_monotonic(cmyk.cyan as int, 0, key);
    lemma_channel_under_ink_monotonic(cmyk.magenta as int, 0, key);
    lemma_channel_under_ink_monotonic(cmyk.yellow as int, 0, key);
    assert(rgb.top() == channel_under_ink(0, key));
    lemma_ink_share_range(rgb.red as int, rgb.top());
    lemma_key_round_trip(key);
}

/// A CMYK color that leaves out one of its inks and has a key of at most 78
/// percent comes back from RGB with the same key and each ink within one
/// percent.
pub proof fn lemma_cmyk_round_trip(cmyk: Cmyk)
    requires
        cmyk.is_valid(),
        cmyk.cyan == 0 || cmyk.magenta == 0 || cmyk.yellow == 0,
        cmyk.key <= 78,
    ensures
        cmyk.as_rgb().as_cmyk().is_valid(),
        cmyk.as_rgb().as_cmyk().key == cmyk.key,
        abs(cmyk.as_rgb().as_cmyk().cyan - cmyk.cyan) <= 1,
        abs(cmyk.as_rgb().as_cmyk().magenta - cmyk.magenta) <= 1,
        abs(cmyk.as_rgb().as_cmyk().yellow - cmyk.yellow) <= 1,
{
    let key = cmyk.key as int;
    let rgb = cmyk.as_rgb();
    lemma_channel_under_ink_range(cmyk.cyan as int, key);
    lemma_channel_under_ink_range(cmyk.magenta as int, key);
    lemma_channel_under_ink_range(cmyk.yellow as int, key);
    lemma_channel_under_ink_monotonic(cmyk.cyan as int, 0, key);
    lemma_channel_under_ink_monotonic(cmyk.magenta as int, 0, key);
    lemma_channel_under_ink_monotonic(cmyk.yellow as int, 0, key);
    assert(rgb.top() == channel_under_ink(0, key));
    lemma_ink_share_range(rgb.red as int, rgb.top());
    lemma_ink_share_range(rgb.green as int, rgb.top());
    lemma_ink_share_range(rgb.blue as int, rgb.top());
    lemma_cmyk_round_trip_key(cmyk);
    lemma_ink_round_trip(cmyk.cyan as int, key);
    lemma_ink_round_trip(cmyk.magenta as int, key);
    lemma_ink_round_trip(cmyk.yellow as int, key);
}

} // verus!
