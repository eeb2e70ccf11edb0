use vstd::prelude::*;
use crate::point::Point;

verus! {

/// The rounded image of the vector `(0, len)` under a rotation of `deg`
/// degrees about the origin. The value is fixed by the two arguments; what it
/// is on given arguments is known only to the rotation routine below.
pub uninterp spec fn spoke_of(len: int, deg: int) -> (int, int);

/// Relies on bevy's math (`Quat::from_axis_angle` around `Vec3::Z` followed by
/// `mul_vec3` and `Vec2::round`): rotating the vector `(0, len)` by `deg`
/// degrees and rounding each component to the nearest integer. The rounded
/// result depends on the two arguments alone, and a rotation never lengthens
/// a vector, so for the lengths admitted here each rounded component keeps a
/// magnitude of at most `len`.
#[verifier::external_body]
pub(crate) fn rotate_spoke(len: i64, deg: i64) -> (p: Point)
    requires
        0 <= len <= 100_000,
    ensures
        (p.x as int, p.y as int) == spoke_of(len as int, deg as int),
        -len <= p.x <= len,
        -len <= p.y <= len,
{
    let radians = bevy::math::I64Vec2::new(deg, 0).as_vec2().x.to_radians();
    let spoke = bevy::math::I64Vec3::new(0, len, 0).as_vec3();
    let rotated = bevy::math::Quat::from_axis_angle(bevy::math::Vec3::Z, radians).mul_vec3(spoke);
    let rounded = rotated.truncate().round().as_i64vec2();
    Point { x: rounded.x, y: rounded.y }
}

} // verus!
