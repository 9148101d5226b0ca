//! A single agent: alive flag, position, and the route of its current attempt.

use vstd::prelude::*;

use crate::MAX_ANT_STEPS;

verus! {

/// One ant. The colony never adds or removes ants: death and success only
/// reset the fields of an existing slot.
#[derive(Clone, Debug)]
pub struct Ant {
    /// False between the tick an ant dies and the tick it respawns at Start.
    pub alive: bool,
    /// Current row, always within the grid extent of its universe.
    pub row: u32,
    /// Current column, always within the grid extent of its universe.
    pub column: u32,
    /// Cells visited during the current attempt, in visitation order; the
    /// start cell itself is not recorded.
    pub route: Vec<(u32, u32)>,
}

/// The mathematical content of an ant: alive flag, position, route.
pub open spec fn ant_view(a: Ant) -> (bool, (u32, u32), Seq<(u32, u32)>) {
    (a.alive, (a.row, a.column), a.route@)
}

impl Ant {
    /// Whether an ant fits a grid of extent `width` x `height`: in bounds,
    /// with a duplicate-free in-bounds route no longer than the step budget.
    pub open spec fn wf(self, width: u32, height: u32) -> bool {
        &&& self.row < height
        &&& self.column < width
        &&& self.route@.len() <= MAX_ANT_STEPS
        &&& forall|k: int|
            0 <= k < self.route@.len() ==> #[trigger] self.route@[k].0 < height
                && self.route@[k].1 < width
        &&& forall|k: int, l: int|
            0 <= k < l < self.route@.len() ==> self.route@[k] != self.route@[l]
    }

    /// Kills the ant when its route has outgrown the step budget; reports
    /// whether it did. The route itself is left for the caller to reset.
    pub fn check_dead(&mut self) -> (died: bool)
        ensures
            died == (old(self).route@.len() > MAX_ANT_STEPS),
            final(self).alive == (if died {
                false
            } else {
                old(self).alive
            }),
            final(self).row == old(self).row,
            final(self).column == old(self).column,
            final(self).route@ == old(self).route@,
    {
        if self.route.len() > MAX_ANT_STEPS as usize {
            self.alive = false;
            return true;
        }
        return false;
    }
}

} // verus!
