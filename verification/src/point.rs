//! The point transformer: one source record in, one target record out.
//!
//! Geometry passes through unchanged as double-precision bit patterns.
//! The validity flags alone decide whether the intensity and the color
//! are used or replaced by zero; a used color channel is clamped to the
//! unit interval and scaled to eight significant bits, a used intensity
//! is scaled to the full 16-bit range.

use vstd::prelude::*;
use crate::float_bits::clamp;
use crate::float_bits::f32_is_nan;
use crate::float_bits::f32_is_zero;
use crate::float_bits::f32_sign;
use crate::float_bits::lemma_clamped_scale_bound;
use crate::float_bits::lemma_scale_landmarks;
use crate::float_bits::lemma_scale_saturates;
use crate::float_bits::scale_to_u16;
use crate::float_bits::spec_clamp01;
use crate::float_bits::spec_scale_u16;

verus! {

/// An RGB color as read from the archive: three single-precision bit
/// patterns, each nominally in the unit interval.
#[derive(Clone, Copy, Debug)]
pub struct SourceColor {
    pub red: u32,
    pub green: u32,
    pub blue: u32,
}

/// One sample as read from the archive.  Positions are double-precision
/// bit patterns; intensity and color are optional and each paired with an
/// independent invalidity flag: a flagged value must not be trusted.
#[derive(Clone, Copy, Debug)]
pub struct SourcePoint {
    pub x: u64,
    pub y: u64,
    pub z: u64,
    pub cartesian_valid: bool,
    pub intensity: Option<u32>,
    pub intensity_invalid: bool,
    pub color: Option<SourceColor>,
    pub color_invalid: bool,
}

/// An RGB color in the target schema: three unsigned 16-bit channels.
#[derive(Clone, Copy, Debug, PartialEq, Eq, Structural)]
pub struct TargetColor {
    pub red: u16,
    pub green: u16,
    pub blue: u16,
}

/// One sample in the target schema.
#[derive(Clone, Copy, Debug, PartialEq, Eq, Structural)]
pub struct TargetPoint {
    pub x: u64,
    pub y: u64,
    pub z: u64,
    pub intensity: u16,
    pub color: TargetColor,
}

/// A source point together with its color in the target schema.
#[derive(Clone, Copy, Debug)]
pub struct ExtendedPoint {
    pub original_point: SourcePoint,
    pub rgb_color: TargetColor,
}

/// A color channel in the target schema: the channel clamped to the unit
/// interval, scaled by 255 and truncated.
pub open spec fn spec_channel_u16(b: u32) -> u16 {
    spec_scale_u16(spec_clamp01(b), 255)
}

/// The target color of a source point: the converted channels where a
/// color is present and not flagged invalid, the zero triple otherwise.
pub open spec fn spec_color_of(p: SourcePoint) -> TargetColor {
    if p.color is Some && !p.color_invalid {
        let c = p.color->Some_0;
        TargetColor {
            red: spec_channel_u16(c.red),
            green: spec_channel_u16(c.green),
            blue: spec_channel_u16(c.blue),
        }
    } else {
        TargetColor { red: 0, green: 0, blue: 0 }
    }
}

/// The target intensity: zero where the intensity is flagged invalid or
/// absent, the value scaled to the full 16-bit range otherwise.
pub open spec fn spec_intensity_of(intensity: Option<u32>, invalid: bool) -> u16 {
    if invalid || intensity is None {
        0u16
    } else {
        spec_scale_u16(intensity->Some_0, 65535)
    }
}

/// The whole transform of one source point: geometry verbatim, intensity
/// and color as the flags decide.
pub open spec fn spec_convert(p: SourcePoint) -> TargetPoint {
    TargetPoint {
        x: p.x,
        y: p.y,
        z: p.z,
        intensity: spec_intensity_of(p.intensity, p.intensity_invalid),
        color: spec_color_of(p),
    }
}

pub open spec fn spec_extend(p: SourcePoint) -> ExtendedPoint {
    ExtendedPoint { original_point: p, rgb_color: spec_color_of(p) }
}

/// Law: the clamp pins the channel at the ends.  A non-negative value of
/// at least one (non-negative single-precision values order by their bit
/// patterns) maps to 255; every negative value, every zero and every NaN
/// maps to 0.
pub proof fn lemma_channel_ends(b: u32)
    ensures
        !f32_is_nan(b) && f32_sign(b) == 0 && b >= 0x3f80_0000 ==> spec_channel_u16(b) == 255,
        f32_sign(b) == 1 || f32_is_zero(b) || f32_is_nan(b) ==> spec_channel_u16(b) == 0,
{
    lemma_scale_landmarks();
    if !f32_is_nan(b) && f32_sign(b) == 0 && b >= 0x3f80_0000 {
        assert(spec_clamp01(b) == 0x3f80_0000u32);
    }
    if f32_is_zero(b) && f32_sign(b) == 0 {
        assert(b == 0) by (bit_vector)
            requires
                ((b >> 23) & 0xff) == 0u32,
                (b & 0x7f_ffff) == 0u32,
                (b >> 31) == 0u32,
        ;
    }
}

/// Law: a valid intensity of at least one saturates: every non-negative
/// value at or above one maps to the full 16-bit range.
pub proof fn lemma_intensity_saturates(b: u32)
    ensures
        !f32_is_nan(b) && f32_sign(b) == 0 && b >= 0x3f80_0000 ==> spec_intensity_of(
            Some(b), false) == 65535,
{
    if !f32_is_nan(b) && f32_sign(b) == 0 && b >= 0x3f80_0000 {
        lemma_scale_saturates(b);
    }
}

/// Law: a converted color holds eight significant bits per channel,
/// widened to sixteen: no channel of any transformed point exceeds 255.
pub proof fn lemma_color_range(p: SourcePoint)
    ensures
        spec_color_of(p).red <= 255,
        spec_color_of(p).green <= 255,
        spec_color_of(p).blue <= 255,
{
    if p.color is Some && !p.color_invalid {
        let c = p.color->Some_0;
        lemma_clamped_scale_bound(c.red);
        lemma_clamped_scale_bound(c.green);
        lemma_clamped_scale_bound(c.blue);
    }
}

/// Convert one color channel: clamp to the unit interval, scale by 255,
/// truncate.
pub fn to_u16(bits: u32) -> (r: u16)
    ensures
        r == spec_channel_u16(bits),
{
    scale_to_u16(clamp(bits), 255)
}

/// Target intensity of one sample: zero where flagged invalid or absent.
pub fn get_intensity(intensity: Option<u32>, invalid: bool) -> (r: u16)
    ensures
        r == spec_intensity_of(intensity, invalid),
{
    if invalid {
        0
    } else {
        match intensity {
            Some(b) => scale_to_u16(b, 65535),
            None => 0,
        }
    }
}

impl From<SourcePoint> for ExtendedPoint {
    fn from(point: SourcePoint) -> (r: Self) {
        let rgb_color = if let (Some(col), false) = (point.color, point.color_invalid) {
            TargetColor {
                red: to_u16(col.red),
                green: to_u16(col.green),
                blue: to_u16(col.blue),
            }
        } else {
            TargetColor { red: 0, green: 0, blue: 0 }
        };
        ExtendedPoint { original_point: point, rgb_color }
    }
}

impl vstd::std_specs::convert::FromSpecImpl<SourcePoint> for ExtendedPoint {
    open spec fn obeys_from_spec() -> bool {
        true
    }

    open spec fn from_spec(point: SourcePoint) -> Self {
        spec_extend(point)
    }
}

/// Transform one source point into the target schema.
pub fn convert_point(p: &SourcePoint) -> (r: TargetPoint)
    ensures
        r == spec_convert(*p),
{
    let color = if let (Some(col), false) = (p.color, p.color_invalid) {
        TargetColor {
            red: to_u16(col.red),
            green: to_u16(col.green),
            blue: to_u16(col.blue),
        }
    } else {
        TargetColor { red: 0, green: 0, blue: 0 }
    };
    TargetPoint {
        x: p.x,
        y: p.y,
        z: p.z,
        intensity: get_intensity(p.intensity, p.intensity_invalid),
        color,
    }
}

} // verus!
