//! The animated component: a transform held as fixed-point integers.
use vstd::prelude::*;

use crate::easing::Fraction;

verus! {

/// Transform values are stored in thousandths of a unit.
pub const UNIT: i32 = 1000;

/// Three fixed-point coordinates, each in thousandths.
#[derive(Debug, Clone, Copy, PartialEq, Eq, Structural)]
pub struct Vector3 {
    pub x: i32,
    pub y: i32,
    pub z: i32,
}

/// Position, scale and rotation (in thousandths of a degree) of an entity.
///
/// The world matrix built from these values is computed where floating point
/// is available; this type only carries what the animations write.
#[derive(Debug, Clone, Copy, PartialEq, Eq, Structural)]
pub struct Transform {
    pub position: Vector3,
    pub scale: Vector3,
    pub rotation: Vector3,
}

impl Default for Transform {
    fn default() -> (r: Transform)
        ensures
            r.position == (Vector3 { x: 0, y: 0, z: 0 }),
            r.scale == (Vector3 { x: UNIT, y: UNIT, z: UNIT }),
            r.rotation == (Vector3 { x: 0, y: 0, z: 0 }),
    {
        Transform {
            position: Vector3 { x: 0, y: 0, z: 0 },
            scale: Vector3 { x: UNIT, y: UNIT, z: UNIT },
            rotation: Vector3 { x: 0, y: 0, z: 0 },
        }
    }
}

/// The transform fields a tween can drive.
#[derive(Debug, Clone, Copy, PartialEq, Eq, Structural)]
pub enum TransformField {
    PositionX,
    RotationZ,
}

/// `t` with field `f` set to `v` and every other field kept.
pub open spec fn with_field(t: Transform, f: TransformField, v: i32) -> Transform {
    match f {
        TransformField::PositionX => Transform {
            position: Vector3 { x: v, ..t.position },
            ..t
        },
        TransformField::RotationZ => Transform {
            rotation: Vector3 { z: v, ..t.rotation },
            ..t
        },
    }
}

/// The interpolated value `start + (end - start) * num / den`, rounded toward `start`.
pub open spec fn lerp_value(start: int, end: int, num: int, den: int) -> int {
    if end >= start {
        start + (end - start) * num / den
    } else {
        start - (start - end) * num / den
    }
}

/// Largest denominator a ratio handed to an interpolation may have.
pub const RATIO_DEN_LIMIT: u128 = 37778931862957161709568;

/// A ratio in `[0, 1]` small enough to interpolate with.
pub open spec fn valid_ratio(r: Fraction) -> bool {
    r.is_unit() && r.den <= RATIO_DEN_LIMIT
}

/// Interpolates between `start` and `end` at `ratio`.
pub fn lerp_i32(start: i32, end: i32, ratio: Fraction) -> (r: i32)
    requires
        valid_ratio(ratio),
    ensures
        r == lerp_value(start as int, end as int, ratio.num as int, ratio.den as int),
        start <= end ==> start <= r <= end,
        end < start ==> end <= r <= start,
{
    let n: u128 = ratio.num;
    let d: u128 = ratio.den;
    if end >= start {
        let span: u128 = (end as i64 - start as i64) as u128;
        assert(span * n <= span * d <= 0xffff_ffff * RATIO_DEN_LIMIT) by (nonlinear_arith)
            requires
                span <= 0xffff_ffff,
                n <= d,
                d <= RATIO_DEN_LIMIT,
        ;
        let step: u128 = span * n / d;
        assert(step <= span) by (nonlinear_arith)
            requires
                step == (span * n) as int / d as int,
                span * n <= span * d,
                d > 0,
                n <= d,
        ;
        (start as i64 + step as i64) as i32
    } else {
        let span: u128 = (start as i64 - end as i64) as u128;
        assert(span * n <= span * d <= 0xffff_ffff * RATIO_DEN_LIMIT) by (nonlinear_arith)
            requires
                span <= 0xffff_ffff,
                n <= d,
                d <= RATIO_DEN_LIMIT,
        ;
        let step: u128 = span * n / d;
        assert(step <= span) by (nonlinear_arith)
            requires
                step == (span * n) as int / d as int,
                span * n <= span * d,
                d > 0,
                n <= d,
        ;
        (start as i64 - step as i64) as i32
    }
}

} // verus!
