//! The buckos that bounce around the title screen, one per bucko chosen:
//! a position and a direction each, at least one and at most `LIMIT`.

use vstd::prelude::*;
use crate::rng::random_index;

verus! {

/// Most buckos on the title screen.
pub const LIMIT: u8 = 8;

/// `s` without its element at `k`, the last element taking its place.
pub open spec fn swap_removed<T>(s: Seq<T>, k: int) -> Seq<T> {
    s.update(k, s.last()).drop_last()
}

/// Positions and directions of the title buckos, side by side.
pub struct Herd<T: Copy> {
    positions: Vec<T>,
    directions: Vec<T>,
}

impl<T: Copy> Herd<T> {
    /// A direction for each position, and at most `LIMIT` of them.
    #[verifier::type_invariant]
    spec fn inv(self) -> bool {
        &&& self.positions.len() == self.directions.len()
        &&& self.positions.len() <= LIMIT
    }

    /// Where the buckos are.
    pub closed spec fn positions_spec(&self) -> Seq<T> {
        self.positions@
    }

    /// Where the buckos go.
    pub closed spec fn directions_spec(&self) -> Seq<T> {
        self.directions@
    }

    /// A direction for each position, and at most `LIMIT` of them: what
    /// every herd keeps.
    pub open spec fn well_formed(&self) -> bool {
        &&& self.positions_spec().len() == self.directions_spec().len()
        &&& self.positions_spec().len() <= LIMIT
    }

    /// No buckos.
    pub fn new() -> (h: Self)
        ensures
            h.well_formed(),
            h.positions_spec() == Seq::<T>::empty(),
            h.directions_spec() == Seq::<T>::empty(),
    {
        Herd { positions: Vec::new(), directions: Vec::new() }
    }

    /// How many buckos there are.
    pub fn len(&self) -> (n: usize)
        ensures
            self.well_formed(),
            n == self.positions_spec().len(),
            n == self.directions_spec().len(),
            n <= LIMIT,
    {
        proof {
            use_type_invariant(self);
        }
        self.positions.len()
    }

    /// Whether no bucko can be added.
    pub fn is_full(&self) -> (full: bool)
        ensures
            self.well_formed(),
            full == (self.positions_spec().len() == LIMIT),
            self.positions_spec().len() <= LIMIT,
    {
        self.len() == LIMIT as usize
    }

    /// Adds a bucko at `position` going in `direction`.
    pub fn push(&mut self, position: T, direction: T)
        requires
            old(self).positions_spec().len() < LIMIT,
        ensures
            final(self).well_formed(),
            final(self).positions_spec() == old(self).positions_spec().push(position),
            final(self).directions_spec() == old(self).directions_spec().push(direction),
    {
        proof {
            use_type_invariant(&*self);
        }
        let mut taken = Herd::new();
        std::mem::swap(self, &mut taken);
        let Herd { mut positions, mut directions } = taken;
        positions.push(position);
        directions.push(direction);
        *self = Herd { positions, directions };
    }

    /// Adds a bucko at `position` going in `direction`, unless there are
    /// `LIMIT` already.
    pub fn add(&mut self, position: T, direction: T)
        ensures
            final(self).well_formed(),
            old(self).positions_spec().len() == LIMIT ==> final(self).positions_spec() == old(
                self,
            ).positions_spec() && final(self).directions_spec() == old(self).directions_spec(),
            old(self).positions_spec().len() < LIMIT ==> final(self).positions_spec() == old(
                self,
            ).positions_spec().push(position) && final(self).directions_spec() == old(
                self,
            ).directions_spec().push(direction),
    {
        if self.is_full() {
            return;
        }
        self.push(position, direction);
    }

    /// Removes bucko `index`, moving the last one into its place.
    pub fn remove_at(&mut self, index: usize)
        requires
            index < old(self).positions_spec().len(),
        ensures
            final(self).well_formed(),
            final(self).positions_spec() == swap_removed(old(self).positions_spec(), index as int),
            final(self).directions_spec() == swap_removed(
                old(self).directions_spec(),
                index as int,
            ),
    {
        proof {
            use_type_invariant(&*self);
        }
        let mut taken = Herd::new();
        std::mem::swap(self, &mut taken);
        let Herd { mut positions, mut directions } = taken;
        let _pos = positions.swap_remove(index);
        let _dir = directions.swap_remove(index);
        *self = Herd { positions, directions };
    }

    /// Removes a bucko at a random index (see `remove_at`), unless a single
    /// one is left.
    pub fn remove(&mut self)
        requires
            old(self).positions_spec().len() > 0,
        ensures
            final(self).well_formed(),
            old(self).positions_spec().len() == 1 ==> final(self).positions_spec() == old(
                self,
            ).positions_spec() && final(self).directions_spec() == old(self).directions_spec(),
            old(self).positions_spec().len() > 1 ==> exists|k: int|
                0 <= k < old(self).positions_spec().len() && #[trigger] final(self).positions_spec()
                    == swap_removed(old(self).positions_spec(), k) && final(self).directions_spec()
                    == swap_removed(old(self).directions_spec(), k),
    {
        let n = self.len();
        if n == 1 {
            return;
        }
        let index = random_index(0, n);
        self.remove_at(index);
    }

    /// All positions.
    pub fn positions(&self) -> (p: &Vec<T>)
        ensures
            p@ == self.positions_spec(),
    {
        &self.positions
    }

    /// All directions.
    pub fn directions(&self) -> (d: &Vec<T>)
        ensures
            d@ == self.directions_spec(),
    {
        &self.directions
    }

    /// Moves bucko `index` to `position`.
    pub fn set_position(&mut self, index: usize, position: T)
        requires
            index < old(self).positions_spec().len(),
        ensures
            final(self).well_formed(),
            final(self).positions_spec() == old(self).positions_spec().update(index as int, position),
            final(self).directions_spec() == old(self).directions_spec(),
    {
        proof {
            use_type_invariant(&*self);
        }
        let mut taken = Herd::new();
        std::mem::swap(self, &mut taken);
        let Herd { mut positions, directions } = taken;
        positions.set(index, position);
        *self = Herd { positions, directions };
    }

    /// Turns bucko `index` to `direction`.
    pub fn set_direction(&mut self, index: usize, direction: T)
        requires
            index < old(self).directions_spec().len(),
        ensures
            final(self).well_formed(),
            final(self).directions_spec() == old(self).directions_spec().update(
                index as int,
                direction,
            ),
            final(self).positions_spec() == old(self).positions_spec(),
    {
        proof {
            use_type_invariant(&*self);
        }
        let mut taken = Herd::new();
        std::mem::swap(self, &mut taken);
        let Herd { positions, mut directions } = taken;
        directions.set(index, direction);
        *self = Herd { positions, directions };
    }
}

} // verus!
