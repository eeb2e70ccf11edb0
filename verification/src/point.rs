use vstd::prelude::*;

verus! {

/// A 2D lattice point. Every coordinate that enters a shape has already been
/// rounded to the nearest integer, so points compare by exact equality.
#[derive(Clone, Copy, PartialEq, Eq, Structural, Debug)]
pub struct Point {
    pub x: i64,
    pub y: i64,
}

/// `v` is representable as an `i64`.
pub open spec fn fits_i64(v: int) -> bool {
    i64::MIN <= v <= i64::MAX
}

/// The sequence `s` with every point shifted by `(dx, dy)` componentwise.
pub open spec fn shifted(s: Seq<Point>, dx: int, dy: int) -> Seq<Point> {
    Seq::new(s.len(), |i: int| Point { x: (s[i].x + dx) as i64, y: (s[i].y + dy) as i64 })
}

/// Every point of `s` can be shifted by `(dx, dy)` without leaving `i64`.
pub open spec fn shift_fits(s: Seq<Point>, dx: int, dy: int) -> bool {
    forall|i: int|
        0 <= i < s.len() ==> fits_i64((#[trigger] s[i]).x + dx) && fits_i64(s[i].y + dy)
}

/// Shifting a point sequence by `(dx, dy)` and then by `(-dx, -dy)` restores
/// every point to its original value, whenever the first shift stays within
/// the coordinate range.
pub proof fn lemma_shift_roundtrip(s: Seq<Point>, dx: int, dy: int)
    requires
        shift_fits(s, dx, dy),
    ensures
        shifted(shifted(s, dx, dy), -dx, -dy) == s,
{
    assert(shifted(shifted(s, dx, dy), -dx, -dy) =~= s);
}

} // verus!
