use vstd::prelude::*;
use crate::collider::Collider;
use crate::point::{fits_i64, shift_fits, shifted, Point};

verus! {

/// Why a tracking frame refused to run.
#[derive(Clone, Copy, PartialEq, Eq, Structural, Debug)]
pub enum TrackerError {
    /// The tracked collection changed size since initialization, so the
    /// recorded positions no longer line up with the shapes.
    SizeMismatch,
}

/// The per-frame position tracker: one previously recorded anchor position
/// per tracked shape, in the host's iteration order. The host must keep that
/// order stable and the tracked set unchanged after initialization.
pub struct OldColliderPosition {
    positions: Vec<Point>,
}

impl View for OldColliderPosition {
    type V = Seq<Point>;

    closed spec fn view(&self) -> Seq<Point> {
        self.positions@
    }
}

impl Default for OldColliderPosition {
    /// A tracker with no recorded positions.
    fn default() -> (r: Self)
        ensures
            r@ == Seq::<Point>::empty(),
    {
        OldColliderPosition { positions: Vec::new() }
    }
}

/// Every per-slot delta between the current and previously recorded anchor
/// positions is representable, and shifting the matching shape by it stays
/// within the coordinate range.
pub open spec fn frame_deltas_fit(
    prev: Seq<Point>,
    current: Seq<Point>,
    colliders: Seq<Collider>,
) -> bool {
    forall|j: int|
        0 <= j < current.len() ==> {
            let dx = (#[trigger] current[j]).x - prev[j].x;
            let dy = current[j].y - prev[j].y;
            &&& fits_i64(dx)
            &&& fits_i64(dy)
            &&& shift_fits(colliders[j]@, dx, dy)
        }
}

impl OldColliderPosition {
    /// Records the current anchor position of every tracked shape, in the
    /// host's iteration order, after whatever was recorded before. Runs once,
    /// at startup, to move the tracker into its tracking phase.
    pub fn innit_auto_move(&mut self, current: &Vec<Point>)
        ensures
            final(self)@ == old(self)@ + current@,
    {
        let mut i: usize = 0;
        while i < current.len()
            invariant
                0 <= i <= current@.len(),
                self@ == old(self)@ + current@.take(i as int),
            decreases current@.len() - i,
        {
            let p = current[i];
            self.positions.push(p);
            proof {
                assert(old(self)@ + current@.take(i + 1) =~= (old(self)@ + current@.take(
                    i as int,
                )).push(p));
            }
            i = i + 1;
        }
        proof {
            assert(old(self)@ + current@.take(current@.len() as int) =~= old(self)@ + current@);
        }
    }

    /// One tracking frame: moves each tracked shape by the delta between its
    /// owner's current anchor position and the previously recorded one, then
    /// records the current positions. Refuses to run when the collection's
    /// size no longer matches what was recorded at initialization, leaving
    /// shapes and recorded positions unchanged.
    pub fn auto_move(&mut self, colliders: &mut Vec<Collider>, current: &Vec<Point>) -> (result:
        Result<(), TrackerError>)
        requires
            (current@.len() == old(self)@.len() && current@.len() == old(colliders)@.len())
                ==> frame_deltas_fit(old(self)@, current@, old(colliders)@),
        ensures
            match result {
                Ok(_) => {
                    &&& current@.len() == old(self)@.len()
                    &&& current@.len() == old(colliders)@.len()
                    &&& final(self)@ == current@
                    &&& final(colliders)@.len() == old(colliders)@.len()
                    &&& forall|j: int|
                        0 <= j < current@.len() ==> (#[trigger] final(colliders)@[j])@ == shifted(
                            old(colliders)@[j]@,
                            current@[j].x - old(self)@[j].x,
                            current@[j].y - old(self)@[j].y,
                        )
                },
                Err(e) => {
                    &&& e == TrackerError::SizeMismatch
                    &&& !(current@.len() == old(self)@.len() && current@.len() == old(
                        colliders,
                    )@.len())
                    &&& final(self)@ == old(self)@
                    &&& final(colliders)@ == old(colliders)@
                },
            },
    {
        if current.len() != self.positions.len() || current.len() != colliders.len() {
            return Err(TrackerError::SizeMismatch);
        }
        let mut moved: Vec<Collider> = Vec::new();
        let mut recorded: Vec<Point> = Vec::new();
        let mut j: usize = 0;
        while j < current.len()
            invariant
                0 <= j <= current@.len(),
                current@.len() == old(self)@.len(),
                current@.len() == old(colliders)@.len(),
                self@ == old(self)@,
                colliders@ == old(colliders)@,
                frame_deltas_fit(old(self)@, current@, old(colliders)@),
                moved@.len() == j,
                recorded@ == current@.take(j as int),
                forall|k: int|
                    0 <= k < j ==> (#[trigger] moved@[k])@ == shifted(
                        old(colliders)@[k]@,
                        current@[k].x - old(self)@[k].x,
                        current@[k].y - old(self)@[k].y,
                    ),
            decreases current@.len() - j,
        {
            let p = current[j];
            let prev = self.positions[j];
            let mut c = colliders[j].clone();
            proof {
                assert(fits_i64(current@[j as int].x - old(self)@[j as int].x));
            }
            Collider::move_collider(&mut c, p, prev);
            moved.push(c);
            recorded.push(p);
            proof {
                assert(current@.take(j + 1) =~= current@.take(j as int).push(p));
            }
            j = j + 1;
        }
        *colliders = moved;
        self.positions = recorded;
        proof {
            assert(current@.take(current@.len() as int) =~= current@);
        }
        Ok(())
    }

    /// How many positions the tracker holds.
    pub fn tracked_count(&self) -> (n: usize)
        ensures
            n == self@.len(),
    {
        self.positions.len()
    }

    /// The position recorded for the tracked shape at index `i`.
    pub fn recorded_at(&self, i: usize) -> (p: Point)
        requires
            i < self@.len(),
        ensures
            p == self@[i as int],
    {
        self.positions[i]
    }
}

} // verus!
