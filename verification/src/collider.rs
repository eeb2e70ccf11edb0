use vstd::prelude::*;
use crate::point::{fits_i64, shifted, shift_fits, Point};
use crate::rotate::{rotate_spoke, spoke_of};

verus! {

/// Largest rounded radius (and half extent) the samplers accept; beyond it
/// the single-precision rotation that backs the sampling loses the lattice.
pub const MAX_RADIUS: i64 = 100_000;

/// Largest magnitude of a shape center's coordinates the disk sampler
/// accepts, so that adding a spoke to the center stays in range.
pub const MAX_CENTER: i64 = 2_000_000_000_000;

/// Why a sampling constructor refused its inputs.
#[derive(Clone, Copy, PartialEq, Eq, Structural, Debug)]
pub enum ColliderError {
    /// The disk sampler was given an angular step of zero or less.
    NonPositiveAngularStep,
    /// The cuboid sampler was given a zero horizontal half extent, which
    /// would divide by zero when computing the slice count.
    ZeroHalfExtentX,
}

/// A shape: an ordered sequence of rounded lattice points. Duplicates are
/// permitted and the order is insertion order. Two shapes collide exactly
/// when some point of one equals some point of the other.
pub struct Collider {
    points: Vec<Point>,
}

impl View for Collider {
    type V = Seq<Point>;

    closed spec fn view(&self) -> Seq<Point> {
        self.points@
    }
}

/// Some point of `a` equals some point of `b`.
pub open spec fn points_intersect(a: Seq<Point>, b: Seq<Point>) -> bool {
    exists|i: int, j: int| #![trigger a[i], b[j]] 0 <= i < a.len() && 0 <= j < b.len() && a[i] == b[j]
}

/// How many radial steps a disk of the given rounded radius has: one for
/// each integer length from 0 to the radius inclusive, none for a negative
/// radius.
pub open spec fn spoke_len(radius: int) -> nat {
    if radius < 0 {
        0
    } else {
        (radius + 1) as nat
    }
}

/// One radial spoke of a disk: the rounded rotations of `(0, r)` by `deg`
/// degrees for `r = 0, ..., radius`, each offset by `center`.
pub open spec fn spoke_points(center: Point, deg: int, radius: int) -> Seq<Point> {
    Seq::new(
        spoke_len(radius),
        |r: int|
            Point {
                x: (center.x + spoke_of(r, deg).0) as i64,
                y: (center.y + spoke_of(r, deg).1) as i64,
            },
    )
}

/// The spokes of the first `a` sampled angles of a disk, in order.
pub open spec fn disk_points_upto(radius: int, center: Point, step: int, a: int) -> Seq<Point>
    decreases a,
{
    if a <= 0 {
        Seq::empty()
    } else {
        disk_points_upto(radius, center, step, a - 1) + spoke_points(center, (a - 1) * step, radius)
    }
}

/// The points of a disk of the given rounded radius around `center`, one
/// spoke per angle `0, step, 2*step, ...` up to and including `360` degrees.
/// The inclusive upper bound revisits the 0-degree spoke by design.
pub open spec fn disk_points(radius: int, center: Point, step: int) -> Seq<Point> {
    disk_points_upto(radius, center, step, 360int / step + 1)
}

/// Every point of `s` lies within `radius` of `center` in each coordinate.
pub open spec fn within_radius(s: Seq<Point>, center: Point, radius: int) -> bool {
    forall|k: int|
        0 <= k < s.len() ==> {
            let p = #[trigger] s[k];
            &&& center.x - radius <= p.x <= center.x + radius
            &&& center.y - radius <= p.y <= center.y + radius
        }
}

/// The magnitude of `v`.
pub open spec fn mag(v: int) -> int {
    if v < 0 {
        -v
    } else {
        v
    }
}

/// Division rounding toward zero, as the machine divides signed integers.
pub open spec fn div_toward_zero(a: int, b: int) -> int {
    if (a < 0) == (b < 0) {
        mag(a) / mag(b)
    } else {
        -(mag(a) / mag(b))
    }
}

/// How many disk slices the cuboid sampler stacks: the truncating quotient
/// of the doubled half extents.
pub open spec fn slice_count(x: int, y: int) -> int {
    div_toward_zero(2 * y, 2 * x)
}

/// The center of slice `i` of a cuboid: the cuboid's center offset by the
/// rounded rotation of `(0, q * i)` by `angle` degrees.
pub open spec fn slice_center(position: Point, angle: int, q: int, i: int) -> Point {
    Point {
        x: (position.x + spoke_of(q * i, angle).0) as i64,
        y: (position.y + spoke_of(q * i, angle).1) as i64,
    }
}

/// The points of the first `i` slices of a cuboid, in order; each slice is a
/// disk of radius `x` sampled with a 90-degree step.
pub open spec fn cuboid_points_upto(x: int, position: Point, angle: int, q: int, i: int) -> Seq<
    Point,
>
    decreases i,
{
    if i <= 0 {
        Seq::empty()
    } else {
        cuboid_points_upto(x, position, angle, q, i - 1) + disk_points(
            x,
            slice_center(position, angle, q, i - 1),
            90,
        )
    }
}

/// The points of a cuboid: `slice_count` disk slices stacked along the
/// rotated long axis.
pub open spec fn cuboid_points(x: int, y: int, position: Point, angle: int) -> Seq<Point> {
    cuboid_points_upto(x, position, angle, slice_count(x, y), slice_count(x, y))
}

impl Collider {
    /// Builds a disk-shaped point cloud of the given rounded radius around
    /// `position`, one spoke of lattice points per sampled angle. Refuses an
    /// angular step of zero or less; a step that does not divide 360 evenly
    /// truncates the last sector. A negative radius yields an empty shape.
    pub fn new_round_collider(radius: i64, position: Point, euclid_angle: i32) -> (result: Result<
        Collider,
        ColliderError,
    >)
        requires
            radius <= MAX_RADIUS,
            -MAX_CENTER <= position.x <= MAX_CENTER,
            -MAX_CENTER <= position.y <= MAX_CENTER,
        ensures
            match result {
                Ok(c) => {
                    &&& euclid_angle > 0
                    &&& c@ == disk_points(radius as int, position, euclid_angle as int)
                    &&& radius >= 0 ==> within_radius(c@, position, radius as int)
                    &&& radius < 0 ==> c@.len() == 0
                },
                Err(e) => euclid_angle <= 0 && e == ColliderError::NonPositiveAngularStep,
            },
    {
        if euclid_angle <= 0 {
            return Err(ColliderError::NonPositiveAngularStep);
        }
        let step: i64 = euclid_angle as i64;
        let n_angles: i64 = (360u64 / (euclid_angle as u64)) as i64;
        let mut pts: Vec<Point> = Vec::new();
        let mut a: i64 = 0;
        while a <= n_angles
            invariant
                1 <= step <= i32::MAX,
                step == euclid_angle as int,
                n_angles == 360int / (step as int),
                0 <= a <= n_angles + 1,
                radius <= MAX_RADIUS,
                -MAX_CENTER <= position.x <= MAX_CENTER,
                -MAX_CENTER <= position.y <= MAX_CENTER,
                pts@ == disk_points_upto(radius as int, position, step as int, a as int),
                radius >= 0 ==> within_radius(pts@, position, radius as int),
                radius < 0 ==> pts@.len() == 0,
            decreases n_angles + 1 - a,
        {
            proof {
                assert(n_angles * step <= 360) by {
                    vstd::arithmetic::div_mod::lemma_fundamental_div_mod(360, step as int);
                    assert(360int % (step as int) >= 0);
                };
                assert(a * step <= 360 && a * step >= 0) by (nonlinear_arith)
                    requires
                        0 <= a,
                        1 <= step,
                        a <= n_angles,
                        n_angles * step <= 360,
                ;
            }
            let deg: i64 = a * step;
            if radius >= 0 {
                let mut r: i64 = 0;
                while r <= radius
                    invariant
                        0 <= radius <= MAX_RADIUS,
                        0 <= r <= radius + 1,
                        0 <= deg <= 360,
                        deg == a * step,
                        -MAX_CENTER <= position.x <= MAX_CENTER,
                        -MAX_CENTER <= position.y <= MAX_CENTER,
                        pts@ == disk_points_upto(radius as int, position, step as int, a as int)
                            + spoke_points(position, deg as int, radius as int).take(r as int),
                        within_radius(pts@, position, radius as int),
                    decreases radius + 1 - r,
                {
                    let s = rotate_spoke(r, deg);
                    let p = Point { x: position.x + s.x, y: position.y + s.y };
                    pts.push(p);
                    proof {
                        let sp = spoke_points(position, deg as int, radius as int);
                        assert(sp[r as int] == p);
                        assert(sp.take(r + 1) =~= sp.take(r as int).push(p));
                        assert(pts@ == disk_points_upto(
                            radius as int,
                            position,
                            step as int,
                            a as int,
                        ) + sp.take(r + 1));
                    }
                    r = r + 1;
                }
                proof {
                    let sp = spoke_points(position, deg as int, radius as int);
                    assert(sp.take(r as int) =~= sp);
                    assert(disk_points_upto(radius as int, position, step as int, a + 1)
                        == disk_points_upto(radius as int, position, step as int, a as int) + sp);
                }
            } else {
                proof {
                    assert(spoke_points(position, deg as int, radius as int)
                        =~= Seq::<Point>::empty());
                    assert(pts@ =~= disk_points_upto(radius as int, position, step as int, a as int)
                        + spoke_points(position, deg as int, radius as int));
                    assert(disk_points_upto(radius as int, position, step as int, a + 1) == pts@);
                }
            }
            a = a + 1;
        }
        Ok(Collider { points: pts })
    }

    /// Builds a cuboid-shaped point cloud by stacking disk slices of radius
    /// `x` along the long axis rotated by `angle` degrees, one slice per
    /// truncating quotient of the doubled half extents. Refuses a zero
    /// horizontal half extent, which has no defined slice count. The coarse
    /// integer slicing is kept as is: a near-square or flat cuboid degrades
    /// to few or no slices.
    pub fn new_cuboid_collider(x: i32, y: i32, position: Point, angle: i64) -> (result: Result<
        Collider,
        ColliderError,
    >)
        requires
            -100_000 <= x <= 100_000,
            -100_000 <= y <= 100_000,
            -1_000_000_000_000 <= position.x <= 1_000_000_000_000,
            -1_000_000_000_000 <= position.y <= 1_000_000_000_000,
            x != 0 ==> slice_count(x as int, y as int) <= 300,
        ensures
            match result {
                Ok(c) => x != 0 && c@ == cuboid_points(x as int, y as int, position, angle as int),
                Err(e) => x == 0 && e == ColliderError::ZeroHalfExtentX,
            },
    {
        if x == 0 {
            return Err(ColliderError::ZeroHalfExtentX);
        }
        let a2: i64 = (y as i64) * 2;
        let b2: i64 = (x as i64) * 2;
        let ua: u32 = if a2 < 0 {
            (-a2) as u32
        } else {
            a2 as u32
        };
        let ub: u32 = if b2 < 0 {
            (-b2) as u32
        } else {
            b2 as u32
        };
        let uq: u32 = ua / ub;
        let q: i64 = if (a2 < 0) != (b2 < 0) {
            -(uq as i64)
        } else {
            uq as i64
        };
        proof {
            assert(ua as int == mag(2 * (y as int)));
            assert(ub as int == mag(2 * (x as int)));
            assert(q == slice_count(x as int, y as int));
        }
        let mut pts: Vec<Point> = Vec::new();
        let mut i: i64 = 0;
        while i < q
            invariant
                x != 0,
                -100_000 <= x <= 100_000,
                q == slice_count(x as int, y as int),
                q <= 300,
                0 <= i,
                i <= (if q > 0 { q as int } else { 0int }),
                -1_000_000_000_000 <= position.x <= 1_000_000_000_000,
                -1_000_000_000_000 <= position.y <= 1_000_000_000_000,
                pts@ == cuboid_points_upto(x as int, position, angle as int, q as int, i as int),
            decreases q - i,
        {
            proof {
                assert(q * i <= 300 * 299 && q * i >= 0) by (nonlinear_arith)
                    requires
                        0 <= i < q,
                        q <= 300,
                ;
            }
            let s = rotate_spoke(q * i, angle);
            let sc = Point { x: position.x + s.x, y: position.y + s.y };
            proof {
                assert(sc == slice_center(position, angle as int, q as int, i as int));
            }
            let slice = match Collider::new_round_collider(x as i64, sc, 90) {
                Ok(c) => c,
                Err(_) => {
                    proof {
                        assert(false);
                    }
                    return Err(ColliderError::ZeroHalfExtentX);
                },
            };
            let mut slice_points = slice.points;
            pts.append(&mut slice_points);
            proof {
                assert(cuboid_points_upto(x as int, position, angle as int, q as int, i + 1)
                    == pts@);
            }
            i = i + 1;
        }
        proof {
            if q <= 0 {
                assert(cuboid_points_upto(x as int, position, angle as int, q as int, q as int)
                    == Seq::<Point>::empty());
            }
        }
        Ok(Collider { points: pts })
    }

    /// Whether the two shapes collide: true exactly when some point of
    /// `self` equals some point of `other`. Two empty shapes never collide.
    pub fn check_collider_collision(self, other: Self) -> (r: bool)
        ensures
            r == points_intersect(self@, other@),
    {
        let n = self.points.len();
        let m = other.points.len();
        let mut i: usize = 0;
        while i < n
            invariant
                n == self@.len(),
                m == other@.len(),
                0 <= i <= n,
                forall|a: int, b: int|
                    0 <= a < i && 0 <= b < m ==> #[trigger] self@[a] != #[trigger] other@[b],
            decreases n - i,
        {
            let p = self.points[i];
            let mut j: usize = 0;
            while j < m
                invariant
                    n == self@.len(),
                    m == other@.len(),
                    0 <= i < n,
                    0 <= j <= m,
                    p == self@[i as int],
                    forall|a: int, b: int|
                        0 <= a < i && 0 <= b < m ==> #[trigger] self@[a] != #[trigger] other@[b],
                    forall|b: int| 0 <= b < j ==> self@[i as int] != #[trigger] other@[b],
                decreases m - j,
            {
                if p == other.points[j] {
                    proof {
                        assert(self@[i as int] == other@[j as int]);
                    }
                    return true;
                }
                j = j + 1;
            }
            i = i + 1;
        }
        false
    }

    /// Moves every point of the shape by the delta between the rounded new
    /// and old anchor positions, in place.
    pub fn move_collider(collider: &mut Collider, new_position: Point, old_collider_position: Point)
        requires
            fits_i64(new_position.x - old_collider_position.x),
            fits_i64(new_position.y - old_collider_position.y),
            shift_fits(
                old(collider)@,
                new_position.x - old_collider_position.x,
                new_position.y - old_collider_position.y,
            ),
        ensures
            final(collider)@ == shifted(
                old(collider)@,
                new_position.x - old_collider_position.x,
                new_position.y - old_collider_position.y,
            ),
    {
        let dx = new_position.x - old_collider_position.x;
        let dy = new_position.y - old_collider_position.y;
        let mut points: Vec<Point> = Vec::new();
        let mut i: usize = 0;
        while i < collider.points.len()
            invariant
                collider@ == old(collider)@,
                0 <= i <= collider@.len(),
                dx == new_position.x - old_collider_position.x,
                dy == new_position.y - old_collider_position.y,
                shift_fits(old(collider)@, dx as int, dy as int),
                points@ == shifted(old(collider)@, dx as int, dy as int).take(i as int),
            decreases collider@.len() - i,
        {
            let p = collider.points[i];
            proof {
                assert(fits_i64(old(collider)@[i as int].x + dx) && fits_i64(
                    old(collider)@[i as int].y + dy,
                ));
            }
            let moved = Point { x: p.x + dx, y: p.y + dy };
            points.push(moved);
            proof {
                let sh = shifted(old(collider)@, dx as int, dy as int);
                assert(sh[i as int] == moved);
                assert(sh.take(i + 1) =~= sh.take(i as int).push(moved));
            }
            i = i + 1;
        }
        proof {
            let sh = shifted(old(collider)@, dx as int, dy as int);
            assert(sh.take(collider@.len() as int) =~= sh);
        }
        collider.points = points;
    }

    /// Combines two shapes into a new one whose point sequence is the
    /// concatenation of `self`'s points followed by `other`'s points;
    /// duplicates are preserved.
    pub fn combine_colliders(self, other: Self) -> (r: Self)
        ensures
            r@ == self@ + other@,
            r@.len() == self@.len() + other@.len(),
    {
        let mut points = self.points;
        let mut other_points = other.points;
        points.append(&mut other_points);
        Collider { points }
    }

    /// How many points the shape holds.
    pub fn point_count(&self) -> (n: usize)
        ensures
            n == self@.len(),
    {
        self.points.len()
    }

    /// The point at index `i` of the shape's sequence.
    pub fn point_at(&self, i: usize) -> (p: Point)
        requires
            i < self@.len(),
        ensures
            p == self@[i as int],
    {
        self.points[i]
    }

    /// Whether the two shapes hold exactly the same point sequence; the
    /// pairwise scanner uses this to skip a shape against itself.
    pub fn same_points(&self, other: &Collider) -> (r: bool)
        ensures
            r == (self@ == other@),
    {
        if self.points.len() != other.points.len() {
            return false;
        }
        let mut i: usize = 0;
        while i < self.points.len()
            invariant
                self@.len() == other@.len(),
                0 <= i <= self@.len(),
                forall|k: int| 0 <= k < i ==> #[trigger] self@[k] == other@[k],
            decreases self@.len() - i,
        {
            if self.points[i] != other.points[i] {
                return false;
            }
            i = i + 1;
        }
        proof {
            assert(self@ =~= other@);
        }
        true
    }
}

impl Clone for Collider {
    /// Deep-copies the point sequence; the copy is interchangeable with the
    /// original for collision purposes.
    fn clone(&self) -> (r: Self)
        ensures
            r@ == self@,
    {
        let mut points: Vec<Point> = Vec::new();
        let mut i: usize = 0;
        while i < self.points.len()
            invariant
                0 <= i <= self@.len(),
                points@ == self@.take(i as int),
            decreases self@.len() - i,
        {
            let p = self.points[i];
            points.push(p);
            proof {
                assert(self@.take(i + 1) =~= self@.take(i as int).push(p));
            }
            i = i + 1;
        }
        proof {
            assert(self@.take(self@.len() as int) =~= self@);
        }
        Collider { points }
    }
}

/// The intersection test is symmetric: `a` meets `b` exactly when `b` meets
/// `a`.
pub proof fn lemma_intersects_symmetric(a: Seq<Point>, b: Seq<Point>)
    ensures
        points_intersect(a, b) == points_intersect(b, a),
{
    if points_intersect(a, b) {
        let (i, j): (int, int) = choose|i: int, j: int|
            0 <= i < a.len() && 0 <= j < b.len() && a[i] == b[j];
        assert(b[j] == a[i]);
        assert(points_intersect(b, a));
    }
    if points_intersect(b, a) {
        let (i, j): (int, int) = choose|i: int, j: int|
            0 <= i < b.len() && 0 <= j < a.len() && b[i] == a[j];
        assert(a[j] == b[i]);
        assert(points_intersect(a, b));
    }
}

/// A non-empty shape always meets itself: any of its points matches itself.
pub proof fn lemma_intersects_self(a: Seq<Point>)
    requires
        a.len() > 0,
    ensures
        points_intersect(a, a),
{
    let p = a[0];
    assert(a[0] == p);
    assert(points_intersect(a, a));
}

/// A merged shape meets `c` exactly when one of its two parts does.
pub proof fn lemma_intersects_merge(a: Seq<Point>, b: Seq<Point>, c: Seq<Point>)
    ensures
        points_intersect(a + b, c) == (points_intersect(a, c) || points_intersect(b, c)),
{
    if points_intersect(a + b, c) {
        let (i, j): (int, int) = choose|i: int, j: int|
            0 <= i < (a + b).len() && 0 <= j < c.len() && (a + b)[i] == c[j];
        if i < a.len() {
            assert(a[i] == (a + b)[i]);
            assert(points_intersect(a, c));
        } else {
            assert(b[i - a.len()] == (a + b)[i]);
            assert(points_intersect(b, c));
        }
    }
    if points_intersect(a, c) {
        let (i, j): (int, int) = choose|i: int, j: int|
            0 <= i < a.len() && 0 <= j < c.len() && a[i] == c[j];
        assert((a + b)[i] == a[i]);
        assert(points_intersect(a + b, c));
    }
    if points_intersect(b, c) {
        let (i, j): (int, int) = choose|i: int, j: int|
            0 <= i < b.len() && 0 <= j < c.len() && b[i] == c[j];
        assert((a + b)[a.len() + i] == b[i]);
        assert(points_intersect(a + b, c));
    }
}

} // verus!
