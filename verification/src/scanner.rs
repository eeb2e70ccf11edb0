use vstd::prelude::*;
use crate::collider::{points_intersect, Collider};
use crate::point::Point;

verus! {

/// A collision between two shapes, carrying copies of both. It is addressed
/// to the entity that owns the first shape.
pub struct CollisionEvent {
    collider1: Collider,
    collider2: Collider,
}

impl View for CollisionEvent {
    type V = (Seq<Point>, Seq<Point>);

    closed spec fn view(&self) -> (Seq<Point>, Seq<Point>) {
        (self.collider1@, self.collider2@)
    }
}

impl CollisionEvent {
    /// The first colliding shape, the one whose owner the event addresses.
    pub fn collider1(&self) -> (r: &Collider)
        ensures
            r@ == self@.0,
    {
        &self.collider1
    }

    /// The second colliding shape.
    pub fn collider2(&self) -> (r: &Collider)
        ensures
            r@ == self@.1,
    {
        &self.collider2
    }
}

/// The point sequences of a collection of shapes, in order.
pub open spec fn point_seqs(cs: Seq<Collider>) -> Seq<Seq<Point>> {
    cs.map_values(|c: Collider| c@)
}

/// Whether the ordered pair `(i, j)` is reported: the two point sequences
/// are not exactly equal (the cheap self/duplicate filter) and intersect.
pub open spec fn reported_pair(cs: Seq<Seq<Point>>, i: int, j: int) -> bool {
    cs[i] != cs[j] && points_intersect(cs[i], cs[j])
}

/// The reported index pairs of row `i` with columns below `j`, in column
/// order.
pub open spec fn row_reports(cs: Seq<Seq<Point>>, i: int, j: int) -> Seq<(int, int)>
    decreases j,
{
    if j <= 0 {
        Seq::empty()
    } else if reported_pair(cs, i, j - 1) {
        row_reports(cs, i, j - 1).push((i, j - 1))
    } else {
        row_reports(cs, i, j - 1)
    }
}

/// The reported index pairs of the rows below `i`, row-major, each row
/// scanning every column.
pub open spec fn scan_reports_upto(cs: Seq<Seq<Point>>, i: int) -> Seq<(int, int)>
    decreases i,
{
    if i <= 0 {
        Seq::empty()
    } else {
        scan_reports_upto(cs, i - 1) + row_reports(cs, i - 1, cs.len() as int)
    }
}

/// Every ordered pair of shapes whose point sequences differ and intersect,
/// in row-major visit order. Each unordered colliding pair of distinct
/// shapes appears twice, once per order, by design.
pub open spec fn scan_reports(cs: Seq<Seq<Point>>) -> Seq<(int, int)> {
    scan_reports_upto(cs, cs.len() as int)
}

/// The emitted events match the index pairs `ps`: one event per pair, in
/// order, targeted at the pair's first index and carrying copies of both
/// shapes.
pub open spec fn reports_match(
    out: Seq<(usize, CollisionEvent)>,
    cs: Seq<Seq<Point>>,
    ps: Seq<(int, int)>,
) -> bool {
    &&& out.len() == ps.len()
    &&& forall|k: int|
        0 <= k < out.len() ==> {
            let (t, e) = #[trigger] out[k];
            &&& t as int == ps[k].0
            &&& e@.0 == cs[ps[k].0]
            &&& e@.1 == cs[ps[k].1]
        }
}

/// Scans every ordered pair of shapes in the collection and reports each
/// colliding pair: the pair's shapes differ as sequences (so a shape is
/// never paired against itself, nor against an exact duplicate) and share a
/// point. Each report targets the index of the pair's first shape and
/// carries copies of both shapes.
pub fn event_trigger(colliders: &Vec<Collider>) -> (out: Vec<(usize, CollisionEvent)>)
    ensures
        reports_match(out@, point_seqs(colliders@), scan_reports(point_seqs(colliders@))),
{
    let ghost cs = point_seqs(colliders@);
    let n = colliders.len();
    let mut out: Vec<(usize, CollisionEvent)> = Vec::new();
    let mut i: usize = 0;
    while i < n
        invariant
            n == colliders@.len(),
            cs == point_seqs(colliders@),
            cs.len() == n,
            0 <= i <= n,
            reports_match(out@, cs, scan_reports_upto(cs, i as int)),
        decreases n - i,
    {
        let mut j: usize = 0;
        while j < n
            invariant
                n == colliders@.len(),
                cs == point_seqs(colliders@),
                cs.len() == n,
                0 <= i < n,
                0 <= j <= n,
                reports_match(out@, cs, scan_reports_upto(cs, i as int) + row_reports(cs, i as int, j as int)),
            decreases n - j,
        {
            proof {
                assert(cs[i as int] == colliders@[i as int]@);
                assert(cs[j as int] == colliders@[j as int]@);
            }
            if !colliders[i].same_points(&colliders[j]) {
                let hit = colliders[i].clone().check_collider_collision(colliders[j].clone());
                if hit {
                    let event = CollisionEvent {
                        collider1: colliders[i].clone(),
                        collider2: colliders[j].clone(),
                    };
                    out.push((i, event));
                    proof {
                        let before = scan_reports_upto(cs, i as int) + row_reports(
                            cs,
                            i as int,
                            j as int,
                        );
                        assert(reported_pair(cs, i as int, j as int));
                        assert(row_reports(cs, i as int, j + 1) == row_reports(
                            cs,
                            i as int,
                            j as int,
                        ).push((i as int, j as int)));
                        assert(scan_reports_upto(cs, i as int) + row_reports(cs, i as int, j + 1)
                            =~= before.push((i as int, j as int)));
                    }
                } else {
                    proof {
                        assert(!reported_pair(cs, i as int, j as int));
                        assert(row_reports(cs, i as int, j + 1) == row_reports(
                            cs,
                            i as int,
                            j as int,
                        ));
                    }
                }
            } else {
                proof {
                    assert(!reported_pair(cs, i as int, j as int));
                    assert(row_reports(cs, i as int, j + 1) == row_reports(cs, i as int, j as int));
                }
            }
            j = j + 1;
        }
        proof {
            assert(scan_reports_upto(cs, i + 1) == scan_reports_upto(cs, i as int) + row_reports(
                cs,
                i as int,
                cs.len() as int,
            ));
        }
        i = i + 1;
    }
    out
}

} // verus!
